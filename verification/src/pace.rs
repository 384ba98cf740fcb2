//! The weekly pace: where in the seven-day window "now" falls, and the
//! pendulum that sets expected usage against actual usage.
use vstd::prelude::*;

use crate::bar::{FULL, LIGHT};
use crate::text::push_char;

verus! {

/// The length of the weekly window in seconds.
pub const SEVEN_DAYS_SECS: i64 = 604800;

/// The marker of the expected position in the pendulum.
pub const PIPE: char = '|';

/// The seconds of the seven-day window ending at `resets_at` that have
/// passed at `now`, when `now` is inside that window (exclusive at the
/// start, inclusive at the end).
pub open spec fn window_elapsed(resets_at: int, now: int) -> Option<int> {
    let elapsed = now - (resets_at - SEVEN_DAYS_SECS);
    if elapsed <= 0 || elapsed > SEVEN_DAYS_SECS {
        None
    } else {
        Some(elapsed)
    }
}

/// `elapsed_secs` when it lies within one week: above zero and at most the
/// window's length.
pub fn within_week(elapsed_secs: i64) -> (r: Option<i64>)
    ensures
        r == (if 0 < elapsed_secs <= SEVEN_DAYS_SECS {
            Some(elapsed_secs)
        } else {
            None
        }),
{
    if elapsed_secs <= 0 || elapsed_secs > SEVEN_DAYS_SECS {
        None
    } else {
        Some(elapsed_secs)
    }
}

/// The seconds of the week ending at `resets_at` that have passed at `now`.
/// Returns `None` when `now` is outside the 7-day window ending at
/// `resets_at` (exclusive at the start, inclusive at the end). The pace
/// itself, the elapsed fraction of the week and the gap between used and
/// expected usage, is this count divided by the window's length.
pub fn elapsed_in_window(resets_at: i64, now: i64) -> (r: Option<i64>)
    requires
        i64::MIN <= resets_at - SEVEN_DAYS_SECS,
        i64::MIN <= now - (resets_at - SEVEN_DAYS_SECS) <= i64::MAX,
    ensures
        r == (match window_elapsed(resets_at as int, now as int) {
            Some(e) => Some(e as i64),
            None => None,
        }),
{
    let window_start = resets_at - SEVEN_DAYS_SECS;
    let elapsed_secs = now - window_start;
    within_week(elapsed_secs)
}

/// The `inner` cells of the pendulum: light shades, with the one at the
/// actual position (at most the last cell) full.
pub open spec fn pendulum_cells(actual_pos: nat, inner: nat) -> Seq<char> {
    Seq::new(
        inner,
        |i: int|
            if i == (if actual_pos < inner - 1 {
                actual_pos as int
            } else {
                inner - 1
            }) {
                FULL
            } else {
                LIGHT
            },
    )
}

/// Where the pipe stands in the pendulum: before the cell at the expected
/// position, or after the last cell when that position is past them.
pub open spec fn pipe_index(expected_pos: nat, inner: nat) -> nat {
    if expected_pos < inner {
        expected_pos
    } else {
        inner
    }
}

/// The pendulum of `width` characters: `width - 1` cells with the pipe
/// inserted at the expected position; nothing when `width < 3`.
pub open spec fn pendulum_text(expected_pos: nat, actual_pos: nat, width: nat) -> Seq<char> {
    if width < 3 {
        Seq::empty()
    } else {
        let inner = (width - 1) as nat;
        let cells = pendulum_cells(actual_pos, inner);
        let p = pipe_index(expected_pos, inner) as int;
        cells.take(p) + seq![PIPE] + cells.skip(p)
    }
}

/// Render a pendulum bar of `width` characters. The pipe marks the
/// "expected" position and the filled square (`█`) the "actual" one, both
/// given as cell indices among the `width - 1` cells (`elapsed * cells` and
/// `used / 100 * cells`, rounded). Empty cells use `░`.
pub fn pendulum(expected_pos: usize, actual_pos: usize, width: usize) -> (r: String)
    ensures
        r@ == pendulum_text(expected_pos as nat, actual_pos as nat, width as nat),
{
    if width < 3 {
        return String::new();
    }
    let inner = width - 1;
    let mark = if actual_pos < inner - 1 {
        actual_pos
    } else {
        inner - 1
    };
    let pipe = if expected_pos < inner {
        expected_pos
    } else {
        inner
    };
    let ghost cells = pendulum_cells(actual_pos as nat, inner as nat);
    let mut out = String::new();
    let mut i: usize = 0;
    while i < inner
        invariant
            inner == width - 1,
            inner >= 2,
            mark == (if actual_pos < inner - 1 { actual_pos } else { (inner - 1) as usize }),
            pipe == pipe_index(expected_pos as nat, inner as nat),
            cells == pendulum_cells(actual_pos as nat, inner as nat),
            i <= inner,
            out@ == (if i <= pipe {
                cells.take(i as int)
            } else {
                cells.take(pipe as int) + seq![PIPE] + cells.subrange(pipe as int, i as int)
            }),
        decreases inner - i,
    {
        if i == pipe {
            push_char(&mut out, PIPE);
        }
        let c = if i == mark {
            FULL
        } else {
            LIGHT
        };
        push_char(&mut out, c);
        proof {
            assert(cells[i as int] == c);
            if i < pipe {
                assert(cells.take(i + 1) =~= cells.take(i as int).push(c));
            } else if i == pipe {
                assert(cells.subrange(pipe as int, i + 1) =~= seq![c]);
            } else {
                assert(cells.subrange(pipe as int, i + 1) =~= cells.subrange(pipe as int, i as int).push(c));
            }
        }
        i = i + 1;
    }
    if pipe == inner {
        push_char(&mut out, PIPE);
    }
    proof {
        assert(cells.take(inner as int) =~= cells);
        assert(cells.subrange(pipe as int, inner as int) =~= cells.skip(pipe as int));
        assert(cells.skip(inner as int) =~= Seq::<char>::empty());
    }
    out
}

/// The pendulum is exactly `width` characters wide, holds exactly one pipe,
/// at the expected position, and exactly one full cell.
pub proof fn lemma_pendulum_shape(expected_pos: nat, actual_pos: nat, width: nat)
    requires
        width >= 3,
    ensures
        pendulum_text(expected_pos, actual_pos, width).len() == width,
        forall|i: int|
            0 <= i < width ==> (#[trigger] pendulum_text(expected_pos, actual_pos, width)[i] == PIPE
                <==> i == pipe_index(expected_pos, (width - 1) as nat)),
        ({
            let inner = (width - 1) as nat;
            let mark = if actual_pos < inner - 1 { actual_pos } else { (inner - 1) as nat };
            let at = if mark < pipe_index(expected_pos, inner) { mark } else { mark + 1 };
            forall|i: int|
                0 <= i < width ==> (#[trigger] pendulum_text(expected_pos, actual_pos, width)[i] == FULL
                    <==> i == at)
        }),
{
    let inner = (width - 1) as nat;
    let cells = pendulum_cells(actual_pos, inner);
    let p = pipe_index(expected_pos, inner) as int;
    let t = pendulum_text(expected_pos, actual_pos, width);
    assert forall|i: int| 0 <= i < width implies (t[i] == (if i < p {
        cells[i]
    } else if i == p {
        PIPE
    } else {
        cells[i - 1]
    })) by {}
}

/// When the week has just begun the pendulum starts with the pipe, and when
/// the expected position is at or past the last cell it ends with it.
pub proof fn lemma_pendulum_ends(expected_pos: nat, actual_pos: nat, width: nat)
    requires
        width >= 3,
    ensures
        expected_pos == 0 ==> pendulum_text(expected_pos, actual_pos, width)[0] == PIPE,
        expected_pos >= width - 1 ==> pendulum_text(expected_pos, actual_pos, width)[width - 1]
            == PIPE,
{
    lemma_pendulum_shape(expected_pos, actual_pos, width);
}

} // verus!
