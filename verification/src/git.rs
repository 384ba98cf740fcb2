//! The decisions of the git branch lookup: when to keep waiting for `git`,
//! when to give up on it, and what of its output is the branch name.
use vstd::prelude::*;

verus! {

/// The statusline re-runs on every refresh tick, so a repo on a stalled
/// network mount or holding a contended lock must not wall it. Past this
/// budget (in milliseconds) the lookup gives up and the statusline renders
/// without a branch.
pub const TIMEOUT_MS: u64 = 500;

/// How long to sleep between two looks at the running `git`, in
/// milliseconds.
pub const POLL_INTERVAL_MS: u64 = 5;

/// What a look at the `git` child process found.
#[derive(Debug, Clone, Copy, PartialEq, Eq, Structural)]
pub enum ChildState {
    /// It has exited, successfully or not.
    Exited { success: bool },
    /// It is still running.
    Running,
    /// Its state could not be read.
    Unreadable,
}

/// What to do next about the `git` child process.
#[derive(Debug, Clone, Copy, PartialEq, Eq, Structural)]
pub enum LookupStep {
    /// Read the branch name from its output.
    ReadOutput,
    /// Sleep for the poll interval and look again.
    Sleep,
    /// Kill it, wait for it, and render without a branch.
    Kill,
    /// Render without a branch.
    GiveUp,
}

/// The next step of the lookup, given what the last look found and how many
/// milliseconds have passed since `git` was started.
pub open spec fn next_step_spec(state: ChildState, elapsed_ms: u64) -> LookupStep {
    match state {
        ChildState::Exited { success } => if success {
            LookupStep::ReadOutput
        } else {
            LookupStep::GiveUp
        },
        ChildState::Running => if elapsed_ms >= TIMEOUT_MS {
            LookupStep::Kill
        } else {
            LookupStep::Sleep
        },
        ChildState::Unreadable => LookupStep::GiveUp,
    }
}

/// Decides the next step of the branch lookup: read the output once `git`
/// has exited successfully, give up when it failed or its state cannot be
/// read, kill it once the timeout has passed, and otherwise keep polling.
pub fn next_step(state: ChildState, elapsed_ms: u64) -> (r: LookupStep)
    ensures
        r == next_step_spec(state, elapsed_ms),
{
    match state {
        ChildState::Exited { success } => if success {
            LookupStep::ReadOutput
        } else {
            LookupStep::GiveUp
        },
        ChildState::Running => if elapsed_ms >= TIMEOUT_MS {
            LookupStep::Kill
        } else {
            LookupStep::Sleep
        },
        ChildState::Unreadable => LookupStep::GiveUp,
    }
}

/// A character with the Unicode property White_Space: tab, line feed,
/// vertical tab, form feed, carriage return, space, next line, no-break
/// space, ogham space mark, the spaces from en quad to hair space, line and
/// paragraph separators, narrow no-break space, medium mathematical space
/// and ideographic space.
pub open spec fn is_white_space(c: char) -> bool {
    let u = c as u32;
    ||| 0x9 <= u <= 0xd
    ||| u == 0x20
    ||| u == 0x85
    ||| u == 0xa0
    ||| u == 0x1680
    ||| 0x2000 <= u <= 0x200a
    ||| u == 0x2028
    ||| u == 0x2029
    ||| u == 0x202f
    ||| u == 0x205f
    ||| u == 0x3000
}

/// `s` without its leading whitespace.
pub open spec fn trimmed_start(s: Seq<char>) -> Seq<char>
    decreases s.len(),
{
    if s.len() > 0 && is_white_space(s[0]) {
        trimmed_start(s.drop_first())
    } else {
        s
    }
}

/// `s` without its trailing whitespace.
pub open spec fn trimmed_end(s: Seq<char>) -> Seq<char>
    decreases s.len(),
{
    if s.len() > 0 && is_white_space(s.last()) {
        trimmed_end(s.drop_last())
    } else {
        s
    }
}

/// `s` without leading and trailing whitespace.
pub open spec fn trimmed(s: Seq<char>) -> Seq<char> {
    trimmed_end(trimmed_start(s))
}

/// `s` without leading and trailing whitespace.
///
/// Trusted: calls `str::trim`, which removes the leading and trailing
/// characters that have the Unicode property White_Space.
#[verifier::external_body]
fn trim(s: &str) -> (r: &str)
    ensures
        r@ == trimmed(s@),
{
    s.trim()
}

/// The branch name in the output of `git branch --show-current`: the output
/// trimmed of surrounding whitespace, or `None` when nothing is left (a
/// detached HEAD).
pub fn branch_name(output: &str) -> (r: Option<String>)
    ensures
        r matches Some(name) ==> name@ == trimmed(output@) && name@.len() > 0 && trimmed(name@)
            == name@,
        r is None <==> trimmed(output@).len() == 0,
{
    proof {
        lemma_trim_idempotent(output@);
    }
    let t = trim(output);
    if t.is_empty() {
        None
    } else {
        Some(t.to_owned())
    }
}

proof fn lemma_trimmed_start_shape(s: Seq<char>)
    ensures
        trimmed_start(s).len() == 0 || !is_white_space(trimmed_start(s)[0]),
    decreases s.len(),
{
    if s.len() > 0 && is_white_space(s[0]) {
        lemma_trimmed_start_shape(s.drop_first());
    }
}

proof fn lemma_trimmed_end_shape(s: Seq<char>)
    requires
        s.len() == 0 || !is_white_space(s[0]),
    ensures
        trimmed_end(s).len() == 0 || !is_white_space(trimmed_end(s).last()),
        trimmed_end(s).len() == 0 || !is_white_space(trimmed_end(s)[0]),
        s.len() > 0 ==> trimmed_end(s).len() > 0,
    decreases s.len(),
{
    if s.len() > 0 && is_white_space(s.last()) {
        if s.len() > 1 {
            assert(s.drop_last()[0] == s[0]);
        }
        lemma_trimmed_end_shape(s.drop_last());
        if s.drop_last().len() > 0 {
            assert(trimmed_end(s.drop_last())[0] == s.drop_last()[0]) by {
                lemma_trimmed_end_prefix(s.drop_last());
            }
        }
    }
}

proof fn lemma_trimmed_end_prefix(s: Seq<char>)
    requires
        s.len() == 0 || !is_white_space(s[0]),
    ensures
        s.len() > 0 ==> trimmed_end(s).len() > 0 && trimmed_end(s)[0] == s[0],
    decreases s.len(),
{
    if s.len() > 0 && is_white_space(s.last()) {
        if s.len() > 1 {
            assert(s.drop_last()[0] == s[0]);
        }
        lemma_trimmed_end_prefix(s.drop_last());
    }
}

/// Trimming is idempotent: the trimmed text neither starts nor ends with
/// whitespace, and trimming it again changes nothing.
pub proof fn lemma_trim_idempotent(s: Seq<char>)
    ensures
        trimmed(s).len() == 0 || !is_white_space(trimmed(s)[0]),
        trimmed(s).len() == 0 || !is_white_space(trimmed(s).last()),
        trimmed(trimmed(s)) == trimmed(s),
{
    let t = trimmed_start(s);
    lemma_trimmed_start_shape(s);
    lemma_trimmed_end_shape(t);
    let r = trimmed(s);
    assert(trimmed_start(r) == r);
    assert(trimmed_end(r) == r);
}

/// Once the timeout has passed, a running `git` is never waited on again.
pub proof fn lemma_lookup_is_bounded(elapsed_ms: u64)
    requires
        elapsed_ms >= TIMEOUT_MS,
    ensures
        next_step_spec(ChildState::Running, elapsed_ms) == LookupStep::Kill,
        forall|state: ChildState| next_step_spec(state, elapsed_ms) != LookupStep::Sleep,
{
}

} // verus!
