//! The three lines of the statusline and how line 2 collapses when the
//! terminal is narrow.
use vstd::prelude::*;
use vstd::string::*;

use crate::bar::{bar_text, cells};
use crate::color::{Color, ESC};
use crate::format::{
    decimal, duration_short, duration_text, lines, lines_text, push_decimal, remaining_ms,
    time_remaining,
};
use crate::input::{Input, Window};
use crate::pace::{pendulum, pendulum_text};
use crate::text::{join, push_char, push_str};
use crate::theme::Theme;

verus! {

/// The separator between the parts of a line: ` · `.
pub open spec fn sep() -> Seq<char> {
    seq![' ', '\u{b7}', ' ']
}

/// Scans `s` from the left, counting the characters that are visible and
/// tracking whether an ANSI SGR sequence is open: an escape character opens
/// one, and the first `m` after it closes it. Returns the count and whether
/// a sequence is still open at the end.
pub open spec fn scan(s: Seq<char>) -> (nat, bool)
    decreases s.len(),
{
    if s.len() == 0 {
        (0, false)
    } else {
        let (n, open) = scan(s.drop_last());
        let c = s.last();
        if open {
            (n, c != 'm')
        } else if c == ESC {
            (n, true)
        } else {
            (n + 1, false)
        }
    }
}

/// The number of characters of `s` that a terminal shows: all but those of
/// ANSI SGR escape sequences.
pub open spec fn visible_width_of(s: Seq<char>) -> nat {
    scan(s).0
}

/// Count visible characters (excludes ANSI SGR escape sequences).
pub fn visible_width(s: &str) -> (r: usize)
    ensures
        r == visible_width_of(s@),
{
    let n = s.unicode_len();
    let mut count: usize = 0;
    let mut open = false;
    let mut i: usize = 0;
    while i < n
        invariant
            n == s@.len(),
            i <= n,
            count <= i,
            (count as nat, open) == scan(s@.take(i as int)),
        decreases n - i,
    {
        let c = s.get_char(i);
        assert(s@.take(i + 1).drop_last() =~= s@.take(i as int));
        if open {
            if c == 'm' {
                open = false;
            }
        } else if c == ESC {
            open = true;
        } else {
            count = count + 1;
        }
        i = i + 1;
    }
    assert(s@.take(n as int) =~= s@);
    count
}

/// `body` wrapped in the color's SGR sequences when color is enabled.
pub open spec fn painted(color: Color, enabled: bool, body: Seq<char>) -> Seq<char> {
    if enabled {
        color.open_code() + body + color.close_code()
    } else {
        body
    }
}

fn paint(out: &mut String, color: Color, enabled: bool, body: &str)
    ensures
        final(out)@ == old(out)@ + painted(color, enabled, body@),
{
    if enabled {
        push_str(out, color.ansi_open());
    }
    push_str(out, body);
    if enabled {
        push_str(out, color.ansi_close());
    }
    assert(out@ =~= old(out)@ + painted(color, enabled, body@));
}

/// How the statusline is drawn: the label theme, whether to emit color,
/// the current time (seconds since the Unix epoch) and the terminal width.
#[derive(Debug, Clone, Copy)]
pub struct RenderOptions {
    pub theme: Theme,
    pub color_enabled: bool,
    pub now_epoch: i64,
    pub columns: usize,
}

impl RenderOptions {
    /// Options with the given theme, color switch, time and width.
    pub fn new(theme: Theme, color_enabled: bool, now_epoch: i64, columns: usize) -> (r: Self)
        ensures
            r == (RenderOptions { theme, color_enabled, now_epoch, columns }),
    {
        Self { theme, color_enabled, now_epoch, columns }
    }
}

/// The terminal width assumed when `COLUMNS` is unset or not a number.
pub const DEFAULT_COLUMNS: usize = 80;

/// The value of the decimal digits `s` (all of which are `0` to `9`).
pub open spec fn digits_value(s: Seq<char>) -> nat
    decreases s.len(),
{
    if s.len() == 0 {
        0
    } else {
        digits_value(s.drop_last()) * 10 + ((s.last() as u32) - 48) as nat
    }
}

/// What `str::parse::<usize>` makes of `s`: an optional `+` followed by at
/// least one decimal digit and nothing else, whose value fits in a `usize`.
pub open spec fn parsed_usize(s: Seq<char>) -> Option<usize> {
    let digits = if s.len() > 0 && s[0] == '+' {
        s.drop_first()
    } else {
        s
    };
    if digits.len() > 0 && (forall|i: int| 0 <= i < digits.len() ==> '0' <= #[trigger] digits[i] <= '9')
        && digits_value(digits) <= usize::MAX {
        Some(digits_value(digits) as usize)
    } else {
        None
    }
}

/// The number that `s` holds.
///
/// Trusted: calls `str::parse::<usize>`, which accepts an optional `+`
/// followed by decimal digits only, and fails on anything else (leading or
/// trailing whitespace included) and on values above `usize::MAX`.
#[verifier::external_body]
fn parse_usize(s: &str) -> (r: Option<usize>)
    ensures
        r == parsed_usize(s@),
{
    s.parse::<usize>().ok()
}

/// The terminal width given the value of the `COLUMNS` variable: the number
/// it holds, or 80 when it is unset or not a number.
pub fn columns_from(value: Option<&str>) -> (r: usize)
    ensures
        r == (match value {
            Some(v) => match parsed_usize(v@) {
                Some(n) => n,
                None => DEFAULT_COLUMNS,
            },
            None => DEFAULT_COLUMNS,
        }),
{
    match value {
        Some(v) => match parse_usize(v) {
            Some(n) => n,
            None => DEFAULT_COLUMNS,
        },
        None => DEFAULT_COLUMNS,
    }
}

/// The cells of the session and weekly bars on a wide line 1.
pub const WIDE_BAR: usize = 12;

/// The cells of the session and weekly bars on a shortened line 1.
pub const NARROW_BAR: usize = 4;

/// The characters of the pace pendulum.
pub const PENDULUM_WIDTH: usize = 15;

fn push_sep(out: &mut String)
    ensures
        final(out)@ == old(out)@ + sep(),
{
    push_char(out, ' ');
    push_char(out, '\u{b7}');
    push_char(out, ' ');
    assert(out@ =~= old(out)@ + sep());
}

/// `s`, followed by the separator when it is not empty.
pub open spec fn then_sep(s: Seq<char>) -> Seq<char> {
    if s.len() == 0 {
        s
    } else {
        s + sep()
    }
}

/// `Sess [bar] 27% 3h17m`: a rate-limit window with its label, its bar
/// (twelve cells, or four on a shortened line), its rounded percentage and
/// the time until it resets.
pub open spec fn window_text(label: Seq<char>, w: Window, opts: RenderOptions, narrow: bool) -> Seq<
    char,
> {
    let bar = if narrow {
        bar_text(w.used_percentage.narrow_cells as nat, NARROW_BAR as nat)
    } else {
        bar_text(w.used_percentage.wide_cells as nat, WIDE_BAR as nat)
    };
    label + seq![' ', '['] + painted(w.used_percentage.color, opts.color_enabled, bar) + seq![
        ']',
        ' ',
    ] + w.used_label@ + seq!['%', ' '] + duration_text(
        remaining_ms(w.resets_at as int, opts.now_epoch as int),
    )
}

/// Line 1: the session window, the weekly window and the model name, each
/// when present, separated by ` · `.
pub open spec fn line_one_text(input: Input, opts: RenderOptions, narrow: bool) -> Seq<char> {
    let sess = match input.rate_limits.five_hour {
        Some(w) => window_text(opts.theme.sess_label(), w, opts, narrow),
        None => Seq::empty(),
    };
    let week = match input.rate_limits.seven_day {
        Some(w) => then_sep(sess) + window_text(opts.theme.week_label(), w, opts, narrow),
        None => sess,
    };
    if input.model.display_name@.len() == 0 {
        week
    } else {
        then_sep(week) + input.model.display_name@
    }
}

fn push_window(out: &mut String, label: &str, w: &Window, opts: RenderOptions, narrow: bool)
    ensures
        final(out)@ == old(out)@ + window_text(label@, *w, opts, narrow),
{
    let usage = w.used_percentage;
    push_str(out, label);
    push_char(out, ' ');
    push_char(out, '[');
    let bar = if narrow {
        cells(usage.narrow_cells, NARROW_BAR)
    } else {
        cells(usage.wide_cells, WIDE_BAR)
    };
    paint(out, usage.color, opts.color_enabled, bar.as_str());
    push_char(out, ']');
    push_char(out, ' ');
    push_str(out, w.used_label.as_str());
    push_char(out, '%');
    push_char(out, ' ');
    let remaining = time_remaining(w.resets_at, opts.now_epoch);
    push_str(out, remaining.as_str());
    assert(out@ =~= old(out)@ + window_text(label@, *w, opts, narrow));
}

fn line_one_with_bar_width(input: &Input, opts: RenderOptions, narrow: bool) -> (r: String)
    ensures
        r@ == line_one_text(*input, opts, narrow),
{
    let mut out = String::new();
    let theme = opts.theme;
    if let Some(w) = &input.rate_limits.five_hour {
        push_window(&mut out, theme.sess(), w, opts, narrow);
    }
    if let Some(w) = &input.rate_limits.seven_day {
        if !out.as_str().is_empty() {
            push_sep(&mut out);
        }
        push_window(&mut out, theme.week(), w, opts, narrow);
    }
    if !input.model.display_name.as_str().is_empty() {
        if !out.as_str().is_empty() {
            push_sep(&mut out);
        }
        push_str(&mut out, input.model.display_name.as_str());
    }
    out
}

/// Render line 1: sess bar, week bar, model.
pub fn line_one(input: &Input, opts: RenderOptions) -> (r: String)
    ensures
        r@ == line_one_text(*input, opts, false),
{
    line_one_with_bar_width(input, opts, false)
}

fn line_one_short(input: &Input, opts: RenderOptions) -> (r: String)
    ensures
        r@ == line_one_text(*input, opts, true),
{
    line_one_with_bar_width(input, opts, true)
}

/// The kinds of the segments of line 2.
#[derive(Debug, Clone, Copy, PartialEq, Eq, Structural)]
pub enum SegmentKind {
    Ctx,
    Pace,
    Cost,
    Duration,
    Lines,
    Pr,
}

/// `Ctx [bar] 39%`: the context window in use, when known.
pub open spec fn ctx_text(input: Input, opts: RenderOptions) -> Seq<char> {
    match input.context_window.used_percentage {
        None => Seq::empty(),
        Some(c) => opts.theme.ctx_label() + seq![' ', '['] + painted(
            c.usage.color,
            opts.color_enabled,
            bar_text(c.usage.wide_cells as nat, WIDE_BAR as nat),
        ) + seq![']', ' '] + decimal(c.percent as nat) + seq!['%'],
    }
}

/// `Pace [pendulum] -24%`: the weekly pace, when the weekly window is known
/// and "now" lies in it.
pub open spec fn pace_text(input: Input, opts: RenderOptions) -> Seq<char> {
    match input.rate_limits.seven_day {
        None => Seq::empty(),
        Some(w) => match w.pace {
            None => Seq::empty(),
            Some(p) => opts.theme.pace_label() + seq![' ', '['] + painted(
                p.color,
                opts.color_enabled,
                pendulum_text(p.expected_pos as nat, p.actual_pos as nat, PENDULUM_WIDTH as nat),
            ) + seq![']', ' '] + p.delta_label@ + seq!['%'],
        },
    }
}

/// `$1.23`: the session cost in its color, when above zero.
pub open spec fn cost_text(input: Input, opts: RenderOptions) -> Seq<char> {
    match input.cost.total_cost_usd {
        None => Seq::empty(),
        Some(spend) => painted(spend.color, opts.color_enabled, spend.text@),
    }
}

/// `12m`: the session duration, when it is not zero.
pub open spec fn duration_segment_text(input: Input, opts: RenderOptions) -> Seq<char> {
    if input.cost.total_duration_ms == 0 {
        Seq::empty()
    } else {
        opts.theme.duration_label() + duration_text(input.cost.total_duration_ms as nat)
    }
}

/// `+24/-7`: the lines added and removed, unless both are zero.
pub open spec fn lines_segment_text(input: Input) -> Seq<char> {
    if input.cost.total_lines_added == 0 && input.cost.total_lines_removed == 0 {
        Seq::empty()
    } else {
        lines_text(input.cost.total_lines_added as nat, input.cost.total_lines_removed as nat)
    }
}

/// `#42 approved`: the pull request and its review state, when known.
pub open spec fn pr_text(input: Input) -> Seq<char> {
    match input.pr {
        None => Seq::empty(),
        Some(pr) => seq!['#'] + decimal(pr.number as nat) + seq![' '] + pr.review_state@,
    }
}

/// `segs` with the segment `(kind, body)` added at the end, unless its body
/// is empty.
pub open spec fn push_nonempty(
    segs: Seq<(SegmentKind, Seq<char>)>,
    kind: SegmentKind,
    body: Seq<char>,
) -> Seq<(SegmentKind, Seq<char>)> {
    if body.len() > 0 {
        segs.push((kind, body))
    } else {
        segs
    }
}

/// The segments of line 2 in display order: context, pace, cost, duration,
/// lines, pull request; those without content are left out.
pub open spec fn line_two_parts(input: Input, opts: RenderOptions) -> Seq<
    (SegmentKind, Seq<char>),
> {
    let s0 = push_nonempty(Seq::empty(), SegmentKind::Ctx, ctx_text(input, opts));
    let s1 = push_nonempty(s0, SegmentKind::Pace, pace_text(input, opts));
    let s2 = push_nonempty(s1, SegmentKind::Cost, cost_text(input, opts));
    let s3 = push_nonempty(s2, SegmentKind::Duration, duration_segment_text(input, opts));
    let s4 = push_nonempty(s3, SegmentKind::Lines, lines_segment_text(input));
    push_nonempty(s4, SegmentKind::Pr, pr_text(input))
}

/// The bodies of the segments, in order.
pub open spec fn bodies(segs: Seq<(SegmentKind, Seq<char>)>) -> Seq<Seq<char>> {
    segs.map_values(|s: (SegmentKind, Seq<char>)| s.1)
}

/// The segments joined with ` · `.
pub open spec fn segments_text(segs: Seq<(SegmentKind, Seq<char>)>) -> Seq<char> {
    join(bodies(segs), sep())
}

/// Line 2 at full width.
pub open spec fn line_two_text(input: Input, opts: RenderOptions) -> Seq<char> {
    segments_text(line_two_parts(input, opts))
}

fn ctx_segment(input: &Input, opts: RenderOptions, out: &mut String)
    ensures
        final(out)@ == old(out)@ + ctx_text(*input, opts),
{
    let Some(c) = input.context_window.used_percentage else {
        assert(out@ =~= old(out)@ + ctx_text(*input, opts));
        return ;
    };
    let bar = cells(c.usage.wide_cells, WIDE_BAR);
    push_str(out, opts.theme.ctx());
    push_char(out, ' ');
    push_char(out, '[');
    paint(out, c.usage.color, opts.color_enabled, bar.as_str());
    push_char(out, ']');
    push_char(out, ' ');
    push_decimal(out, c.percent as u64);
    push_char(out, '%');
    assert(out@ =~= old(out)@ + ctx_text(*input, opts));
}

fn pace_segment(input: &Input, opts: RenderOptions, out: &mut String)
    ensures
        final(out)@ == old(out)@ + pace_text(*input, opts),
{
    let Some(week) = &input.rate_limits.seven_day else {
        assert(out@ =~= old(out)@ + pace_text(*input, opts));
        return ;
    };
    let Some(pace) = &week.pace else {
        assert(out@ =~= old(out)@ + pace_text(*input, opts));
        return ;
    };
    let pendulum = pendulum(pace.expected_pos, pace.actual_pos, PENDULUM_WIDTH);
    push_str(out, opts.theme.pace());
    push_char(out, ' ');
    push_char(out, '[');
    paint(out, pace.color, opts.color_enabled, pendulum.as_str());
    push_char(out, ']');
    push_char(out, ' ');
    push_str(out, pace.delta_label.as_str());
    push_char(out, '%');
    assert(out@ =~= old(out)@ + pace_text(*input, opts));
}

fn cost_segment(input: &Input, opts: RenderOptions, out: &mut String)
    ensures
        final(out)@ == old(out)@ + cost_text(*input, opts),
{
    let Some(spend) = &input.cost.total_cost_usd else {
        assert(out@ =~= old(out)@ + cost_text(*input, opts));
        return ;
    };
    paint(out, spend.color, opts.color_enabled, spend.text.as_str());
}

fn duration_segment(input: &Input, opts: RenderOptions, out: &mut String)
    ensures
        final(out)@ == old(out)@ + duration_segment_text(*input, opts),
{
    if input.cost.total_duration_ms == 0 {
        assert(out@ =~= old(out)@ + duration_segment_text(*input, opts));
        return ;
    }
    push_str(out, opts.theme.duration());
    let text = duration_short(input.cost.total_duration_ms);
    push_str(out, text.as_str());
    assert(out@ =~= old(out)@ + duration_segment_text(*input, opts));
}

fn lines_segment(input: &Input, out: &mut String)
    ensures
        final(out)@ == old(out)@ + lines_segment_text(*input),
{
    if input.cost.total_lines_added == 0 && input.cost.total_lines_removed == 0 {
        assert(out@ =~= old(out)@ + lines_segment_text(*input));
        return ;
    }
    let text = lines(input.cost.total_lines_added, input.cost.total_lines_removed);
    push_str(out, text.as_str());
}

fn pr_segment(input: &Input, out: &mut String)
    ensures
        final(out)@ == old(out)@ + pr_text(*input),
{
    let Some(pr) = &input.pr else {
        assert(out@ =~= old(out)@ + pr_text(*input));
        return ;
    };
    push_char(out, '#');
    push_decimal(out, pr.number);
    push_char(out, ' ');
    push_str(out, pr.review_state.as_str());
    assert(out@ =~= old(out)@ + pr_text(*input));
}

struct Segment {
    kind: SegmentKind,
    body: String,
}

spec fn seg_views(segs: Seq<Segment>) -> Seq<(SegmentKind, Seq<char>)> {
    segs.map_values(|s: Segment| (s.kind, s.body@))
}

fn push_if_nonempty(segs: &mut Vec<Segment>, kind: SegmentKind, body: String)
    ensures
        seg_views(final(segs)@) == push_nonempty(seg_views(old(segs)@), kind, body@),
{
    if !body.as_str().is_empty() {
        let ghost b = body@;
        segs.push(Segment { kind, body });
        assert(seg_views(segs@) =~= seg_views(old(segs)@).push((kind, b)));
    }
}

fn line_two_segments(input: &Input, opts: RenderOptions) -> (r: Vec<Segment>)
    ensures
        seg_views(r@) == line_two_parts(*input, opts),
{
    let mut segs: Vec<Segment> = Vec::new();
    assert(seg_views(segs@) =~= Seq::<(SegmentKind, Seq<char>)>::empty());

    let mut tmp = String::new();
    ctx_segment(input, opts, &mut tmp);
    assert(tmp@ =~= ctx_text(*input, opts));
    push_if_nonempty(&mut segs, SegmentKind::Ctx, tmp);

    let mut tmp = String::new();
    pace_segment(input, opts, &mut tmp);
    assert(tmp@ =~= pace_text(*input, opts));
    push_if_nonempty(&mut segs, SegmentKind::Pace, tmp);

    let mut tmp = String::new();
    cost_segment(input, opts, &mut tmp);
    assert(tmp@ =~= cost_text(*input, opts));
    push_if_nonempty(&mut segs, SegmentKind::Cost, tmp);

    let mut tmp = String::new();
    duration_segment(input, opts, &mut tmp);
    assert(tmp@ =~= duration_segment_text(*input, opts));
    push_if_nonempty(&mut segs, SegmentKind::Duration, tmp);

    let mut tmp = String::new();
    lines_segment(input, &mut tmp);
    assert(tmp@ =~= lines_segment_text(*input));
    push_if_nonempty(&mut segs, SegmentKind::Lines, tmp);

    let mut tmp = String::new();
    pr_segment(input, &mut tmp);
    assert(tmp@ =~= pr_text(*input));
    push_if_nonempty(&mut segs, SegmentKind::Pr, tmp);

    segs
}

fn join_segments(segs: &Vec<Segment>) -> (r: String)
    ensures
        r@ == segments_text(seg_views(segs@)),
{
    let ghost all = bodies(seg_views(segs@));
    let mut r = String::new();
    let n = segs.len();
    let mut i: usize = 0;
    while i < n
        invariant
            n == segs@.len(),
            all == bodies(seg_views(segs@)),
            all.len() == n,
            i <= n,
            r@ == join(all.take(i as int), sep()),
        decreases n - i,
    {
        assert(all.take(i + 1).drop_last() =~= all.take(i as int));
        assert(all.take(i + 1).last() == segs@[i as int].body@);
        if i > 0 {
            push_sep(&mut r);
        }
        push_str(&mut r, segs[i].body.as_str());
        i = i + 1;
    }
    assert(all.take(n as int) =~= all);
    r
}

/// Render line 2: ctx bar, pace, cost, duration, lines, pr.
pub fn line_two(input: &Input, opts: RenderOptions) -> (r: String)
    ensures
        r@ == line_two_text(*input, opts),
{
    join_segments(&line_two_segments(input, opts))
}

/// The final component of `path` as `std::path::Path::file_name` gives it
/// (the last name in the path, `None` when the path ends in `..` or has no
/// name, as `/` has).
pub uninterp spec fn path_file_name(path: Seq<char>) -> Option<Seq<char>>;

/// The final component of `path`.
///
/// Trusted: calls `std::path::Path::file_name` on `path`; the name comes
/// back as text unchanged, since it is part of a `&str`.
#[verifier::external_body]
fn file_name(path: &str) -> (r: Option<String>)
    ensures
        r is Some <==> path_file_name(path@) is Some,
        r matches Some(name) ==> path_file_name(path@) == Some(name@),
{
    match std::path::Path::new(path).file_name() {
        Some(name) => Some(name.to_string_lossy().into_owned()),
        None => None,
    }
}

/// The name of the working directory: the final component of its path, or
/// nothing.
pub open spec fn dir_name(current_dir: Seq<char>) -> Seq<char> {
    match path_file_name(current_dir) {
        Some(name) => name,
        None => Seq::empty(),
    }
}

/// The branch as text, when there is one.
pub open spec fn branch_view(branch: Option<&str>) -> Option<Seq<char>> {
    match branch {
        Some(b) => Some(b@),
        None => None,
    }
}

/// The parts of line 3: the directory name and the branch, each with its
/// label and each only when not empty.
pub open spec fn line_three_parts(dir: Seq<char>, branch: Option<Seq<char>>, theme: Theme) -> Seq<
    Seq<char>,
> {
    let parts = if dir.len() > 0 {
        seq![theme.dir_label() + dir]
    } else {
        Seq::empty()
    };
    match branch {
        Some(b) => if b.len() > 0 {
            parts.push(theme.branch_label() + b)
        } else {
            parts
        },
        None => parts,
    }
}

/// Line 3: the working directory's name and the git branch.
pub open spec fn line_three_text(input: Input, branch: Option<&str>, opts: RenderOptions) -> Seq<
    char,
> {
    join(
        line_three_parts(dir_name(input.workspace.current_dir@), branch_view(branch), opts.theme),
        sep(),
    )
}

/// Render line 3: working directory and git branch.
pub fn line_three(input: &Input, branch: Option<&str>, opts: RenderOptions) -> (r: String)
    ensures
        r@ == line_three_text(*input, branch, opts),
{
    let dir = match file_name(input.workspace.current_dir.as_str()) {
        Some(name) => name,
        None => String::new(),
    };
    let ghost parts = line_three_parts(dir@, branch_view(branch), opts.theme);
    let mut out = String::new();
    let mut any = false;
    if !dir.as_str().is_empty() {
        push_str(&mut out, opts.theme.dir());
        push_str(&mut out, dir.as_str());
        any = true;
    }
    if let Some(b) = branch {
        if !b.is_empty() {
            if any {
                push_sep(&mut out);
            }
            push_str(&mut out, opts.theme.branch());
            push_str(&mut out, b);
        }
    }
    proof {
        let d = opts.theme.dir_label() + dir@;
        let has_branch = branch matches Some(b) && b@.len() > 0;
        let bb = match branch {
            Some(b) => opts.theme.branch_label() + b@,
            None => Seq::empty(),
        };
        if dir@.len() > 0 && has_branch {
            assert(parts =~= seq![d, bb]);
            assert(seq![d, bb].drop_last() =~= seq![d]);
            assert(join(seq![d, bb], sep()) == join(seq![d], sep()) + sep() + bb);
        } else if dir@.len() > 0 {
            assert(parts =~= seq![d]);
        } else if has_branch {
            assert(parts =~= seq![bb]);
        } else {
            assert(parts =~= Seq::<Seq<char>>::empty());
        }
        assert(out@ =~= join(parts, sep()));
    }
    out
}

/// The order in which line 2 sheds segments when the terminal is too
/// narrow: lowest priority first.
pub open spec fn drop_order() -> Seq<SegmentKind> {
    seq![
        SegmentKind::Lines,
        SegmentKind::Duration,
        SegmentKind::Pr,
        SegmentKind::Cost,
        SegmentKind::Pace,
        SegmentKind::Ctx,
    ]
}

fn drop_order_kinds() -> (r: Vec<SegmentKind>)
    ensures
        r@ == drop_order(),
{
    let mut r: Vec<SegmentKind> = Vec::new();
    r.push(SegmentKind::Lines);
    r.push(SegmentKind::Duration);
    r.push(SegmentKind::Pr);
    r.push(SegmentKind::Cost);
    r.push(SegmentKind::Pace);
    r.push(SegmentKind::Ctx);
    assert(r@ =~= drop_order());
    r
}

/// `segs` without its first segment of kind `kind` (unchanged when there is
/// none).
pub open spec fn remove_first(segs: Seq<(SegmentKind, Seq<char>)>, kind: SegmentKind) -> Seq<
    (SegmentKind, Seq<char>),
>
    decreases segs.len(),
{
    if segs.len() == 0 {
        segs
    } else if segs[0].0 == kind {
        segs.drop_first()
    } else {
        seq![segs[0]] + remove_first(segs.drop_first(), kind)
    }
}

/// Line 2's segments after collapsing to `max` visible columns: while the
/// joined line is wider than `max`, the first segment of the next kind in
/// `order` is removed; when the kinds run out the line stays as it is.
pub open spec fn collapse(
    segs: Seq<(SegmentKind, Seq<char>)>,
    order: Seq<SegmentKind>,
    max: nat,
) -> Seq<(SegmentKind, Seq<char>)>
    decreases order.len(),
{
    if visible_width_of(segments_text(segs)) <= max || order.len() == 0 {
        segs
    } else {
        collapse(remove_first(segs, order[0]), order.drop_first(), max)
    }
}

/// Line 1 as rendered: the wide form, or the short one when the wide form
/// is more than `columns` characters wide.
pub open spec fn fitted_line_one(input: Input, opts: RenderOptions) -> Seq<char> {
    if visible_width_of(line_one_text(input, opts, false)) > opts.columns {
        line_one_text(input, opts, true)
    } else {
        line_one_text(input, opts, false)
    }
}

/// Line 2 as rendered, collapsed to the terminal width.
pub open spec fn fitted_line_two(input: Input, opts: RenderOptions) -> Seq<char> {
    segments_text(collapse(line_two_parts(input, opts), drop_order(), opts.columns as nat))
}

/// `line` on a new line when it is not empty, else nothing.
pub open spec fn next_line(line: Seq<char>) -> Seq<char> {
    if line.len() > 0 {
        seq!['\n'] + line
    } else {
        Seq::empty()
    }
}

/// The whole statusline: line 1, then line 2 and line 3 each on its own
/// line when not empty.
pub open spec fn render_text(input: Input, branch: Option<&str>, opts: RenderOptions) -> Seq<char> {
    fitted_line_one(input, opts) + next_line(fitted_line_two(input, opts)) + next_line(
        line_three_text(input, branch, opts),
    )
}

proof fn lemma_remove_first_at(segs: Seq<(SegmentKind, Seq<char>)>, kind: SegmentKind, idx: int)
    requires
        0 <= idx < segs.len(),
        segs[idx].0 == kind,
        forall|j: int| 0 <= j < idx ==> segs[j].0 != kind,
    ensures
        remove_first(segs, kind) == segs.remove(idx),
    decreases idx,
{
    if idx > 0 {
        lemma_remove_first_at(segs.drop_first(), kind, idx - 1);
        assert(seq![segs[0]] + segs.drop_first().remove(idx - 1) =~= segs.remove(idx));
    } else {
        assert(segs.drop_first() =~= segs.remove(0));
    }
}

proof fn lemma_remove_first_absent(segs: Seq<(SegmentKind, Seq<char>)>, kind: SegmentKind)
    requires
        forall|j: int| 0 <= j < segs.len() ==> segs[j].0 != kind,
    ensures
        remove_first(segs, kind) == segs,
    decreases segs.len(),
{
    if segs.len() > 0 {
        lemma_remove_first_absent(segs.drop_first(), kind);
        assert(seq![segs[0]] + segs.drop_first() =~= segs);
    }
}

/// Line 2 joined from `segs`, shedding segments in the drop order while it is
/// wider than `max`.
fn collapse_line_two(segs: Vec<Segment>, max: usize) -> (r: String)
    ensures
        r@ == segments_text(collapse(seg_views(segs@), drop_order(), max as nat)),
{
    let mut segs = segs;
    let mut line2 = join_segments(&segs);
    let order = drop_order_kinds();
    let ghost initial = seg_views(segs@);
    let mut k: usize = 0;
    assert(order@.skip(0) =~= order@);
    let mut overflow = visible_width(line2.as_str()) > max;
    while overflow && k < order.len()
        invariant
            order@ == drop_order(),
            k <= order@.len(),
            line2@ == segments_text(seg_views(segs@)),
            overflow == (visible_width_of(line2@) > max),
            collapse(seg_views(segs@), order@.skip(k as int), max as nat) == collapse(
                initial,
                drop_order(),
                max as nat,
            ),
        decreases order@.len() - k,
    {
        let kind = order[k];
        let ghost cur = seg_views(segs@);
        assert(order@.skip(k as int).drop_first() =~= order@.skip(k + 1));
        assert(collapse(cur, order@.skip(k as int), max as nat) == collapse(
            remove_first(cur, kind),
            order@.skip(k + 1),
            max as nat,
        ));
        let n = segs.len();
        let mut idx: usize = 0;
        while idx < n && segs[idx].kind != kind
            invariant
                n == segs@.len(),
                cur == seg_views(segs@),
                idx <= n,
                forall|j: int| 0 <= j < idx ==> segs@[j].kind != kind,
            decreases n - idx,
        {
            idx = idx + 1;
        }
        if idx < n {
            proof {
                lemma_remove_first_at(cur, kind, idx as int);
            }
            segs.remove(idx);
            assert(seg_views(segs@) =~= cur.remove(idx as int));
            line2 = join_segments(&segs);
        } else {
            proof {
                lemma_remove_first_absent(cur, kind);
            }
        }
        k = k + 1;
        overflow = visible_width(line2.as_str()) > max;
    }
    assert(order@.skip(k as int).len() == 0 ==> order@.skip(k as int) =~= Seq::<SegmentKind>::empty());
    line2
}

/// Render the full three-line statusline with responsive collapse.
///
/// Drops low-priority segments from line 2 when the joined width exceeds
/// `opts.columns`. If line 1 still overflows, shrinks the session/weekly
/// bars from 12 to 4 cells. Line 3 (dir + branch) is never collapsed.
pub fn render(input: &Input, branch: Option<&str>, opts: RenderOptions) -> (r: String)
    ensures
        r@ == render_text(*input, branch, opts),
{
    let max = opts.columns;
    let line2 = collapse_line_two(line_two_segments(input, opts), max);
    let line1 = line_one(input, opts);
    let line1_final = if visible_width(line1.as_str()) > max {
        line_one_short(input, opts)
    } else {
        line1
    };
    let line3 = line_three(input, branch, opts);
    let mut out = line1_final;
    if !line2.as_str().is_empty() {
        push_char(&mut out, '\n');
        push_str(&mut out, line2.as_str());
    }
    if !line3.as_str().is_empty() {
        push_char(&mut out, '\n');
        push_str(&mut out, line3.as_str());
    }
    assert(out@ =~= render_text(*input, branch, opts));
    out
}

} // verus!
