//! Properties of the rendered statusline that hold for every input: how
//! line 2 collapses, which segments appear, and what color does to widths.
use vstd::prelude::*;

use crate::bar::bar_text;
use crate::color::{Color, ESC};
use crate::format::{
    days_of, decimal, duration_text, hours_of, minutes_of, remaining_ms, seconds_of,
};
use crate::input::{Input, Window};
use crate::pace::{lemma_pendulum_shape, pendulum_cells, pendulum_text, pipe_index, PIPE};
use crate::render::{
    bodies, collapse, cost_text, ctx_text, drop_order, duration_segment_text, fitted_line_one,
    fitted_line_two, line_one_text, line_three_text, line_two_parts, line_two_text,
    lines_segment_text, next_line, pace_text, painted, pr_text, push_nonempty, remove_first,
    render_text, scan, segments_text, sep, then_sep, visible_width_of, window_text,
    RenderOptions, SegmentKind, NARROW_BAR, PENDULUM_WIDTH, WIDE_BAR,
};
use crate::bar::{lemma_bar_width, FULL, LIGHT};
use crate::text::{escape_free, join};
use crate::theme::Theme;

verus! {

/// No two segments share a kind.
pub open spec fn kinds_distinct(segs: Seq<(SegmentKind, Seq<char>)>) -> bool {
    forall|i: int, j: int| 0 <= i < j < segs.len() ==> segs[i].0 != segs[j].0
}

/// `segs` without the segments whose kind is in `kinds`, order kept.
pub open spec fn without_kinds(segs: Seq<(SegmentKind, Seq<char>)>, kinds: Seq<SegmentKind>) -> Seq<
    (SegmentKind, Seq<char>),
>
    decreases segs.len(),
{
    if segs.len() == 0 {
        segs
    } else {
        let rest = without_kinds(segs.drop_first(), kinds);
        if kinds.contains(segs[0].0) {
            rest
        } else {
            seq![segs[0]] + rest
        }
    }
}

/// How many kinds of `order` collapsing goes through before the line fits
/// in `max` columns (all of them when it never does).
pub open spec fn drops(segs: Seq<(SegmentKind, Seq<char>)>, order: Seq<SegmentKind>, max: nat) -> nat
    decreases order.len(),
{
    if visible_width_of(segments_text(segs)) <= max || order.len() == 0 {
        0
    } else {
        1 + drops(remove_first(segs, order[0]), order.drop_first(), max)
    }
}

proof fn lemma_distinct_tail(segs: Seq<(SegmentKind, Seq<char>)>)
    requires
        segs.len() > 0,
        kinds_distinct(segs),
    ensures
        kinds_distinct(segs.drop_first()),
        forall|i: int| 0 <= i < segs.drop_first().len() ==> segs.drop_first()[i].0 != segs[0].0,
{
    assert forall|i: int| 0 <= i < segs.drop_first().len() implies segs.drop_first()[i].0
        != segs[0].0 by {
        assert(segs.drop_first()[i] == segs[i + 1]);
    }
}

proof fn lemma_without_absent(
    segs: Seq<(SegmentKind, Seq<char>)>,
    kinds: Seq<SegmentKind>,
    k: SegmentKind,
)
    requires
        forall|i: int| 0 <= i < segs.len() ==> segs[i].0 != k,
    ensures
        without_kinds(segs, kinds.push(k)) == without_kinds(segs, kinds),
    decreases segs.len(),
{
    if segs.len() > 0 {
        lemma_without_absent(segs.drop_first(), kinds, k);
        assert(kinds.push(k).contains(segs[0].0) == kinds.contains(segs[0].0)) by {
            if kinds.contains(segs[0].0) {
                let i = choose|i: int| 0 <= i < kinds.len() && kinds[i] == segs[0].0;
                assert(kinds.push(k)[i] == segs[0].0);
            }
            if kinds.push(k).contains(segs[0].0) {
                let i = choose|i: int| 0 <= i < kinds.push(k).len() && kinds.push(k)[i] == segs[0].0;
                assert(i < kinds.len());
                assert(kinds[i] == segs[0].0);
            }
        }
    }
}

proof fn lemma_without_distinct(segs: Seq<(SegmentKind, Seq<char>)>, kinds: Seq<SegmentKind>)
    requires
        kinds_distinct(segs),
    ensures
        kinds_distinct(without_kinds(segs, kinds)),
        forall|i: int|
            0 <= i < without_kinds(segs, kinds).len() ==> exists|j: int|
                0 <= j < segs.len() && segs[j] == #[trigger] without_kinds(segs, kinds)[i],
    decreases segs.len(),
{
    if segs.len() > 0 {
        lemma_distinct_tail(segs);
        let rest = without_kinds(segs.drop_first(), kinds);
        lemma_without_distinct(segs.drop_first(), kinds);
        assert forall|i: int| 0 <= i < rest.len() implies exists|j: int|
            0 <= j < segs.len() && segs[j] == #[trigger] rest[i] by {
            let j = choose|j: int|
                0 <= j < segs.drop_first().len() && segs.drop_first()[j] == rest[i];
            assert(segs[j + 1] == rest[i]);
        }
        if !kinds.contains(segs[0].0) {
            let w = seq![segs[0]] + rest;
            assert forall|i: int| 0 <= i < rest.len() implies rest[i].0 != segs[0].0 by {
                let j = choose|j: int| 0 <= j < segs.len() && segs[j] == rest[i];
                assert(j != 0);
            }
            assert forall|i: int, j: int| 0 <= i < j < w.len() implies w[i].0 != w[j].0 by {
                if i > 0 {
                    assert(w[i] == rest[i - 1]);
                }
                assert(w[j] == rest[j - 1]);
            }
            assert forall|i: int| 0 <= i < w.len() implies exists|j: int|
                0 <= j < segs.len() && segs[j] == #[trigger] w[i] by {
                if i == 0 {
                    assert(segs[0] == w[0]);
                } else {
                    assert(w[i] == rest[i - 1]);
                }
            }
        }
    }
}

proof fn lemma_remove_first_without(
    segs: Seq<(SegmentKind, Seq<char>)>,
    kinds: Seq<SegmentKind>,
    k: SegmentKind,
)
    requires
        kinds_distinct(segs),
    ensures
        remove_first(without_kinds(segs, kinds), k) == without_kinds(segs, kinds.push(k)),
    decreases segs.len(),
{
    if segs.len() == 0 {
    } else {
        let s0 = segs[0];
        let tail = segs.drop_first();
        lemma_distinct_tail(segs);
        lemma_remove_first_without(tail, kinds, k);
        let rest = without_kinds(tail, kinds);
        let in_push = kinds.push(k).contains(s0.0);
        assert(in_push == (kinds.contains(s0.0) || s0.0 == k)) by {
            if kinds.contains(s0.0) {
                let i = choose|i: int| 0 <= i < kinds.len() && kinds[i] == s0.0;
                assert(kinds.push(k)[i] == s0.0);
            }
            if s0.0 == k {
                assert(kinds.push(k)[kinds.len() as int] == k);
            }
            if in_push {
                let i = choose|i: int| 0 <= i < kinds.push(k).len() && kinds.push(k)[i] == s0.0;
                if i < kinds.len() {
                    assert(kinds[i] == s0.0);
                }
            }
        }
        if kinds.contains(s0.0) {
        } else if s0.0 == k {
            assert((seq![s0] + rest)[0] == s0);
            assert((seq![s0] + rest).drop_first() =~= rest);
            lemma_without_absent(tail, kinds, k);
        } else {
            let w = seq![s0] + rest;
            assert(w[0] == s0);
            assert(w.drop_first() =~= rest);
        }
    }
}

proof fn lemma_without_empty(segs: Seq<(SegmentKind, Seq<char>)>)
    ensures
        without_kinds(segs, Seq::empty()) == segs,
    decreases segs.len(),
{
    if segs.len() > 0 {
        lemma_without_empty(segs.drop_first());
        assert(seq![segs[0]] + segs.drop_first() =~= segs);
    }
}

proof fn lemma_collapse_prefix(
    segs: Seq<(SegmentKind, Seq<char>)>,
    kinds: Seq<SegmentKind>,
    order: Seq<SegmentKind>,
    max: nat,
)
    requires
        kinds_distinct(segs),
    ensures
        ({
            let d = drops(without_kinds(segs, kinds), order, max);
            &&& d <= order.len()
            &&& collapse(without_kinds(segs, kinds), order, max) == without_kinds(
                segs,
                kinds + order.take(d as int),
            )
            &&& forall|e: int|
                0 <= e < d ==> visible_width_of(
                    segments_text(#[trigger] without_kinds(segs, kinds + order.take(e))),
                ) > max
        }),
    decreases order.len(),
{
    let cur = without_kinds(segs, kinds);
    if visible_width_of(segments_text(cur)) <= max || order.len() == 0 {
        assert(kinds + order.take(0) =~= kinds);
    } else {
        let k = order[0];
        lemma_remove_first_without(segs, kinds, k);
        lemma_collapse_prefix(segs, kinds.push(k), order.drop_first(), max);
        let d1 = drops(without_kinds(segs, kinds.push(k)), order.drop_first(), max);
        assert(kinds.push(k) + order.drop_first().take(d1 as int) =~= kinds + order.take(d1 + 1 as int));
        assert(kinds + order.take(0) =~= kinds);
        assert forall|e: int|
            0 <= e < d1 + 1 implies visible_width_of(
            segments_text(#[trigger] without_kinds(segs, kinds + order.take(e))),
        ) > max by {
            if e > 0 {
                assert(kinds.push(k) + order.drop_first().take(e - 1) =~= kinds + order.take(e));
                assert(without_kinds(segs, kinds.push(k) + order.drop_first().take(e - 1))
                    == without_kinds(segs, kinds + order.take(e)));
            }
        }
    }
}

proof fn lemma_collapse_fits(segs: Seq<(SegmentKind, Seq<char>)>, order: Seq<SegmentKind>, max: nat)
    requires
        kinds_distinct(segs),
        forall|i: int| 0 <= i < segs.len() ==> order.contains(#[trigger] segs[i].0),
    ensures
        visible_width_of(segments_text(collapse(segs, order, max))) <= max,
    decreases order.len(),
{
    if visible_width_of(segments_text(segs)) <= max {
    } else if order.len() == 0 {
        if segs.len() > 0 {
            assert(order.contains(segs[0].0));
        }
        assert(segs =~= Seq::<(SegmentKind, Seq<char>)>::empty());
        assert(bodies(segs) =~= Seq::<Seq<char>>::empty());
    } else {
        let k = order[0];
        let empty = Seq::<SegmentKind>::empty();
        lemma_without_empty(segs);
        lemma_remove_first_without(segs, empty, k);
        assert(empty.push(k) =~= seq![k]);
        let next = without_kinds(segs, seq![k]);
        lemma_without_distinct(segs, seq![k]);
        assert forall|i: int| 0 <= i < next.len() implies order.drop_first().contains(
            #[trigger] next[i].0,
        ) by {
            let j = choose|j: int| 0 <= j < segs.len() && segs[j] == next[i];
            lemma_without_keeps(segs, seq![k], i);
            if next[i].0 == k {
                assert(seq![k][0] == k);
            }
            assert(order.contains(segs[j].0));
            let m = choose|m: int| 0 <= m < order.len() && order[m] == segs[j].0;
            assert(m != 0);
            assert(order.drop_first()[m - 1] == next[i].0);
        }
        lemma_collapse_fits(next, order.drop_first(), max);
    }
}

proof fn lemma_without_keeps(segs: Seq<(SegmentKind, Seq<char>)>, kinds: Seq<SegmentKind>, i: int)
    requires
        0 <= i < without_kinds(segs, kinds).len(),
    ensures
        !kinds.contains(without_kinds(segs, kinds)[i].0),
    decreases segs.len(),
{
    let rest = without_kinds(segs.drop_first(), kinds);
    if kinds.contains(segs[0].0) {
        lemma_without_keeps(segs.drop_first(), kinds, i);
    } else if i > 0 {
        assert((seq![segs[0]] + rest)[i] == rest[i - 1]);
        lemma_without_keeps(segs.drop_first(), kinds, i - 1);
    }
}

/// The text of the line-2 segment of kind `kind` (empty when the segment
/// has nothing to show).
pub open spec fn segment_text(input: Input, opts: RenderOptions, kind: SegmentKind) -> Seq<char> {
    match kind {
        SegmentKind::Ctx => ctx_text(input, opts),
        SegmentKind::Pace => pace_text(input, opts),
        SegmentKind::Cost => cost_text(input, opts),
        SegmentKind::Duration => duration_segment_text(input, opts),
        SegmentKind::Lines => lines_segment_text(input),
        SegmentKind::Pr => pr_text(input),
    }
}

/// The position of each kind in display order.
pub open spec fn rank(kind: SegmentKind) -> int {
    match kind {
        SegmentKind::Ctx => 0,
        SegmentKind::Pace => 1,
        SegmentKind::Cost => 2,
        SegmentKind::Duration => 3,
        SegmentKind::Lines => 4,
        SegmentKind::Pr => 5,
    }
}

/// `segs` lists segments in strictly increasing display order, all before
/// rank `r`, each with the text of its kind and non-empty, and holds every
/// kind before rank `r` whose text is not empty.
spec fn built_upto(segs: Seq<(SegmentKind, Seq<char>)>, input: Input, opts: RenderOptions, r: int) -> bool {
    &&& forall|i: int, j: int| 0 <= i < j < segs.len() ==> rank(segs[i].0) < rank(segs[j].0)
    &&& forall|i: int| 0 <= i < segs.len() ==> rank(#[trigger] segs[i].0) < r
    &&& forall|i: int|
        0 <= i < segs.len() ==> #[trigger] segs[i].1 == segment_text(input, opts, segs[i].0)
            && segs[i].1.len() > 0
    &&& forall|k: SegmentKind|
        rank(k) < r && #[trigger] segment_text(input, opts, k).len() > 0 ==> exists|i: int|
            0 <= i < segs.len() && segs[i].0 == k
}

proof fn lemma_push_built(
    segs: Seq<(SegmentKind, Seq<char>)>,
    input: Input,
    opts: RenderOptions,
    kind: SegmentKind,
)
    requires
        built_upto(segs, input, opts, rank(kind)),
    ensures
        built_upto(
            push_nonempty(segs, kind, segment_text(input, opts, kind)),
            input,
            opts,
            rank(kind) + 1,
        ),
{
    let body = segment_text(input, opts, kind);
    let next = push_nonempty(segs, kind, body);
    assert forall|k: SegmentKind|
        rank(k) < rank(kind) + 1 && #[trigger] segment_text(input, opts, k).len() > 0 implies exists|
        i: int,
    | 0 <= i < next.len() && next[i].0 == k by {
        if rank(k) < rank(kind) {
            let i = choose|i: int| 0 <= i < segs.len() && segs[i].0 == k;
            assert(next[i] == segs[i]);
        } else {
            assert(k == kind);
            assert(next[segs.len() as int].0 == k);
        }
    }
}

proof fn lemma_line_two_built(input: Input, opts: RenderOptions)
    ensures
        built_upto(line_two_parts(input, opts), input, opts, 6),
{
    let s = Seq::<(SegmentKind, Seq<char>)>::empty();
    lemma_push_built(s, input, opts, SegmentKind::Ctx);
    let s0 = push_nonempty(s, SegmentKind::Ctx, ctx_text(input, opts));
    lemma_push_built(s0, input, opts, SegmentKind::Pace);
    let s1 = push_nonempty(s0, SegmentKind::Pace, pace_text(input, opts));
    lemma_push_built(s1, input, opts, SegmentKind::Cost);
    let s2 = push_nonempty(s1, SegmentKind::Cost, cost_text(input, opts));
    lemma_push_built(s2, input, opts, SegmentKind::Duration);
    let s3 = push_nonempty(s2, SegmentKind::Duration, duration_segment_text(input, opts));
    lemma_push_built(s3, input, opts, SegmentKind::Lines);
    let s4 = push_nonempty(s3, SegmentKind::Lines, lines_segment_text(input));
    lemma_push_built(s4, input, opts, SegmentKind::Pr);
}

/// Line 2 holds a segment of a kind exactly when that segment has something
/// to show, once at most, with its own text, and in display order (context,
/// pace, cost, duration, lines, pull request).
pub proof fn lemma_segments_shown_when_non_empty(input: Input, opts: RenderOptions)
    ensures
        ({
            let parts = line_two_parts(input, opts);
            &&& forall|i: int|
                0 <= i < parts.len() ==> #[trigger] parts[i].1 == segment_text(input, opts, parts[i].0)
                    && parts[i].1.len() > 0
            &&& forall|k: SegmentKind|
                #[trigger] segment_text(input, opts, k).len() > 0 ==> exists|i: int|
                    0 <= i < parts.len() && parts[i].0 == k
            &&& kinds_distinct(parts)
            &&& forall|i: int, j: int| 0 <= i < j < parts.len() ==> rank(parts[i].0) < rank(parts[j].0)
        }),
{
    lemma_line_two_built(input, opts);
    let parts = line_two_parts(input, opts);
    assert forall|k: SegmentKind| #[trigger] segment_text(input, opts, k).len() > 0 implies exists|
        i: int,
    | 0 <= i < parts.len() && parts[i].0 == k by {
        assert(rank(k) < 6);
    }
}

/// A group that the document lacks shows no segment: no context segment
/// without the context window, no pace without the weekly window, no cost
/// without a positive cost, no duration when it is zero, no line counts
/// when both are zero, no pull request without one.
pub proof fn lemma_missing_fields_drop_segments(input: Input, opts: RenderOptions)
    ensures
        ({
            let parts = line_two_parts(input, opts);
            forall|i: int|
                0 <= i < parts.len() ==> {
                    &&& #[trigger] parts[i].0 == SegmentKind::Ctx
                        ==> input.context_window.used_percentage is Some
                    &&& parts[i].0 == SegmentKind::Pace ==> input.rate_limits.seven_day is Some
                    &&& parts[i].0 == SegmentKind::Cost ==> input.cost.total_cost_usd is Some
                    &&& parts[i].0 == SegmentKind::Duration ==> input.cost.total_duration_ms != 0
                    &&& parts[i].0 == SegmentKind::Lines ==> (input.cost.total_lines_added != 0
                        || input.cost.total_lines_removed != 0)
                    &&& parts[i].0 == SegmentKind::Pr ==> input.pr is Some
                }
        }),
{
    lemma_segments_shown_when_non_empty(input, opts);
}

proof fn lemma_every_kind_droppable(k: SegmentKind)
    ensures
        drop_order().contains(k),
{
    let o = drop_order();
    match k {
        SegmentKind::Lines => assert(o[0] == k),
        SegmentKind::Duration => assert(o[1] == k),
        SegmentKind::Pr => assert(o[2] == k),
        SegmentKind::Cost => assert(o[3] == k),
        SegmentKind::Pace => assert(o[4] == k),
        SegmentKind::Ctx => assert(o[5] == k),
    }
}

/// Line 2 never overflows the terminal: once collapsed it is at most
/// `opts.columns` characters wide (empty, at worst).
pub proof fn lemma_line_two_fits(input: Input, opts: RenderOptions)
    ensures
        visible_width_of(fitted_line_two(input, opts)) <= opts.columns,
{
    let parts = line_two_parts(input, opts);
    lemma_segments_shown_when_non_empty(input, opts);
    assert forall|i: int| 0 <= i < parts.len() implies drop_order().contains(
        #[trigger] parts[i].0,
    ) by {
        lemma_every_kind_droppable(parts[i].0);
    }
    lemma_collapse_fits(parts, drop_order(), opts.columns as nat);
}

/// Line 2 sheds its segments lowest priority first: the collapsed line is
/// the full line without the first `d` kinds of the drop order (lines,
/// duration, pull request, cost, pace, context), for the least `d` at
/// which it fits; every shorter prefix of dropped kinds left it too wide.
pub proof fn lemma_line_two_drops_by_priority(input: Input, opts: RenderOptions)
    ensures
        ({
            let parts = line_two_parts(input, opts);
            let d = drops(parts, drop_order(), opts.columns as nat);
            &&& d <= drop_order().len()
            &&& fitted_line_two(input, opts) == segments_text(
                without_kinds(parts, drop_order().take(d as int)),
            )
            &&& forall|e: int|
                0 <= e < d ==> visible_width_of(
                    segments_text(#[trigger] without_kinds(parts, drop_order().take(e))),
                ) > opts.columns
        }),
{
    let parts = line_two_parts(input, opts);
    let empty = Seq::<SegmentKind>::empty();
    lemma_segments_shown_when_non_empty(input, opts);
    lemma_without_empty(parts);
    lemma_collapse_prefix(parts, empty, drop_order(), opts.columns as nat);
    assert forall|e: int| 0 <= e <= drop_order().len() implies empty + drop_order().take(e)
        =~= drop_order().take(e) by {}
}

/// On a terminal wide enough for all of line 2, nothing is dropped.
pub proof fn lemma_wide_line_two_kept(input: Input, opts: RenderOptions)
    requires
        visible_width_of(line_two_text(input, opts)) <= opts.columns,
    ensures
        fitted_line_two(input, opts) == line_two_text(input, opts),
{
}

proof fn lemma_scan_concat(a: Seq<char>, b: Seq<char>)
    requires
        !scan(a).1,
    ensures
        scan(a + b) == (scan(a).0 + scan(b).0, scan(b).1),
    decreases b.len(),
{
    if b.len() == 0 {
        assert(a + b =~= a);
    } else {
        lemma_scan_concat(a, b.drop_last());
        assert((a + b).drop_last() =~= a + b.drop_last());
        assert((a + b).last() == b.last());
    }
}

proof fn lemma_codes_invisible(c: Color)
    ensures
        scan(c.open_code()) == (0nat, false),
        scan(c.close_code()) == (0nat, false),
{
    reveal_with_fuel(scan, 6);
    let e = Seq::<char>::empty();
    assert(seq![ESC].drop_last() =~= e);
    assert(seq![ESC, '['].drop_last() =~= seq![ESC]);
    assert(seq![ESC, '[', '0'].drop_last() =~= seq![ESC, '[']);
    assert(seq![ESC, '[', '0', 'm'].drop_last() =~= seq![ESC, '[', '0']);
    assert(seq![ESC, '[', '2'].drop_last() =~= seq![ESC, '[']);
    assert(seq![ESC, '[', '2', 'm'].drop_last() =~= seq![ESC, '[', '2']);
    assert(seq![ESC, '[', '3'].drop_last() =~= seq![ESC, '[']);
    assert(seq![ESC, '[', '3', '1'].drop_last() =~= seq![ESC, '[', '3']);
    assert(seq![ESC, '[', '3', '2'].drop_last() =~= seq![ESC, '[', '3']);
    assert(seq![ESC, '[', '3', '3'].drop_last() =~= seq![ESC, '[', '3']);
    assert(seq![ESC, '[', '3', '1', 'm'].drop_last() =~= seq![ESC, '[', '3', '1']);
    assert(seq![ESC, '[', '3', '2', 'm'].drop_last() =~= seq![ESC, '[', '3', '2']);
    assert(seq![ESC, '[', '3', '3', 'm'].drop_last() =~= seq![ESC, '[', '3', '3']);
}

/// Text without escape characters is as wide as it is long, and leaves no
/// escape sequence open.
pub proof fn lemma_plain_text_width(s: Seq<char>)
    requires
        forall|i: int| 0 <= i < s.len() ==> s[i] != ESC,
    ensures
        visible_width_of(s) == s.len(),
        !scan(s).1,
    decreases s.len(),
{
    if s.len() > 0 {
        lemma_plain_text_width(s.drop_last());
    }
}

/// Color never changes how wide a painted piece of text is on screen: the
/// SGR sequences around it take no columns (for any text that leaves no
/// escape sequence open).
pub proof fn lemma_paint_keeps_width(color: Color, enabled: bool, body: Seq<char>)
    requires
        !scan(body).1,
    ensures
        visible_width_of(painted(color, enabled, body)) == visible_width_of(body),
        !scan(painted(color, enabled, body)).1,
{
    if enabled {
        lemma_codes_invisible(color);
        lemma_scan_concat(color.open_code(), body);
        lemma_scan_concat(color.open_code() + body, color.close_code());
    }
}

/// Only line 2 and the bars of line 1 give way to a narrow terminal: the
/// statusline is line 1, then lines 2 and 3 when not empty; line 1 keeps
/// its wide bars unless they overflow, and in either form it still starts
/// with the session window when the document has one; line 3 reads the
/// same at any width.
pub proof fn lemma_what_collapses(
    input: Input,
    branch: Option<&str>,
    opts: RenderOptions,
    columns: usize,
)
    ensures
        render_text(input, branch, opts) == fitted_line_one(input, opts) + next_line(
            fitted_line_two(input, opts),
        ) + next_line(line_three_text(input, branch, opts)),
        visible_width_of(line_one_text(input, opts, false)) <= opts.columns ==> fitted_line_one(
            input,
            opts,
        ) == line_one_text(input, opts, false),
        visible_width_of(line_one_text(input, opts, false)) > opts.columns ==> fitted_line_one(
            input,
            opts,
        ) == line_one_text(input, opts, true),
        forall|narrow: bool|
            #![trigger line_one_text(input, opts, narrow)]
            input.rate_limits.five_hour is Some ==> line_one_text(input, opts, narrow).take(
                window_text(
                    opts.theme.sess_label(),
                    input.rate_limits.five_hour->0,
                    opts,
                    narrow,
                ).len() as int,
            ) == window_text(opts.theme.sess_label(), input.rate_limits.five_hour->0, opts, narrow),
        line_three_text(input, branch, opts) == line_three_text(
            input,
            branch,
            (RenderOptions {
                theme: opts.theme,
                color_enabled: opts.color_enabled,
                now_epoch: opts.now_epoch,
                columns,
            }),
        ),
{
    assert forall|narrow: bool|
        #![trigger line_one_text(input, opts, narrow)]
        input.rate_limits.five_hour is Some implies line_one_text(input, opts, narrow).take(
        window_text(opts.theme.sess_label(), input.rate_limits.five_hour->0, opts, narrow).len() as int,
    ) == window_text(opts.theme.sess_label(), input.rate_limits.five_hour->0, opts, narrow) by {
        let w = input.rate_limits.five_hour->0;
        let a = window_text(opts.theme.sess_label(), w, opts, narrow);
        let l = line_one_text(input, opts, narrow);
        assert(exists|rest: Seq<char>| l == a + rest) by {
            let week = match input.rate_limits.seven_day {
                Some(w2) => then_sep(a) + window_text(opts.theme.week_label(), w2, opts, narrow),
                None => a,
            };
            let week_rest = match input.rate_limits.seven_day {
                Some(w2) => sep() + window_text(opts.theme.week_label(), w2, opts, narrow),
                None => Seq::empty(),
            };
            assert(a.len() > 0);
            assert(week =~= a + week_rest);
            if input.model.display_name@.len() == 0 {
                assert(l == a + week_rest);
            } else {
                assert(l =~= a + (week_rest + sep() + input.model.display_name@));
            }
        }
        let rest = choose|rest: Seq<char>| l == a + rest;
        assert((a + rest).take(a.len() as int) =~= a);
    }
}

/// `s` leaves no escape sequence open.
pub open spec fn closed(s: Seq<char>) -> bool {
    !scan(s).1
}

proof fn lemma_escape_free_concat(a: Seq<char>, b: Seq<char>)
    requires
        escape_free(a),
        escape_free(b),
    ensures
        escape_free(a + b),
{
    assert forall|i: int| 0 <= i < (a + b).len() implies (a + b)[i] != ESC by {
        if i >= a.len() {
            assert((a + b)[i] == b[i - a.len()]);
        }
    }
}

proof fn lemma_closed_concat(a: Seq<char>, b: Seq<char>)
    requires
        closed(a),
        closed(b),
    ensures
        closed(a + b),
        visible_width_of(a + b) == visible_width_of(a) + visible_width_of(b),
{
    lemma_scan_concat(a, b);
}

proof fn lemma_decimal_escape_free(n: nat)
    ensures
        escape_free(decimal(n)),
    decreases n,
{
    if n >= 10 {
        lemma_decimal_escape_free(n / 10);
    }
}

proof fn lemma_duration_escape_free(ms: nat)
    ensures
        escape_free(duration_text(ms)),
{
    lemma_decimal_escape_free(days_of(ms));
    lemma_decimal_escape_free(hours_of(ms));
    lemma_decimal_escape_free(minutes_of(ms));
    lemma_decimal_escape_free(seconds_of(ms));
    lemma_escape_free_concat(decimal(days_of(ms)), seq!['d']);
    lemma_escape_free_concat(decimal(days_of(ms)) + seq!['d'], decimal(hours_of(ms)));
    lemma_escape_free_concat(decimal(days_of(ms)) + seq!['d'] + decimal(hours_of(ms)), seq!['h']);
    lemma_escape_free_concat(decimal(hours_of(ms)), seq!['h']);
    lemma_escape_free_concat(decimal(hours_of(ms)) + seq!['h'], decimal(minutes_of(ms)));
    lemma_escape_free_concat(decimal(hours_of(ms)) + seq!['h'] + decimal(minutes_of(ms)), seq!['m']);
    lemma_escape_free_concat(decimal(minutes_of(ms)), seq!['m']);
    lemma_escape_free_concat(decimal(seconds_of(ms)), seq!['s']);
}

proof fn lemma_labels_escape_free(theme: Theme)
    ensures
        escape_free(theme.sess_label()),
        escape_free(theme.week_label()),
        escape_free(theme.ctx_label()),
        escape_free(theme.pace_label()),
        escape_free(theme.duration_label()),
{
    reveal_strlit("Sess");
    reveal_strlit("Week");
    reveal_strlit("Ctx");
    reveal_strlit("Pace");
    reveal_strlit("");
    reveal_strlit("\u{f2f2}");
    reveal_strlit("\u{f073}");
    reveal_strlit("\u{f2db}");
    reveal_strlit("\u{f201}");
    reveal_strlit("\u{f017} ");
}

/// Text framed as `before`, a painted `body`, `after`, with no escape
/// characters of its own, is as wide as those three together, whether or
/// not it is colored.
proof fn lemma_framed_width(before: Seq<char>, color: Color, enabled: bool, body: Seq<char>, after: Seq<char>)
    requires
        escape_free(before),
        escape_free(body),
        escape_free(after),
    ensures
        closed(before + painted(color, enabled, body) + after),
        visible_width_of(before + painted(color, enabled, body) + after) == before.len() + body.len()
            + after.len(),
{
    lemma_plain_text_width(before);
    lemma_plain_text_width(body);
    lemma_plain_text_width(after);
    lemma_paint_keeps_width(color, enabled, body);
    lemma_closed_concat(before, painted(color, enabled, body));
    lemma_closed_concat(before + painted(color, enabled, body), after);
}

/// The options with color switched on or off.
pub open spec fn with_color(opts: RenderOptions, enabled: bool) -> RenderOptions {
    RenderOptions {
        theme: opts.theme,
        color_enabled: enabled,
        now_epoch: opts.now_epoch,
        columns: opts.columns,
    }
}

/// A well-formed document whose own texts (the model name and the review
/// state) hold no escape characters.
pub open spec fn plain_fields(input: Input) -> bool {
    &&& input.well_formed()
    &&& escape_free(input.model.display_name@)
    &&& (input.pr matches Some(pr) ==> escape_free(pr.review_state@))
}

proof fn lemma_bar_escape_free(filled: nat, width: nat)
    ensures
        escape_free(bar_text(filled, width)),
{
}

proof fn lemma_pendulum_escape_free(expected_pos: nat, actual_pos: nat, width: nat)
    ensures
        escape_free(pendulum_text(expected_pos, actual_pos, width)),
{
    if width >= 3 {
        let inner = (width - 1) as nat;
        let cells = pendulum_cells(actual_pos, inner);
        let p = pipe_index(expected_pos, inner) as int;
        assert(escape_free(cells));
        assert(escape_free(cells.take(p)));
        assert(escape_free(cells.skip(p)));
        lemma_escape_free_concat(cells.take(p), seq![PIPE]);
        lemma_escape_free_concat(cells.take(p) + seq![PIPE], cells.skip(p));
    }
}

/// Two texts that look alike on screen: both leave no escape sequence open,
/// both are equally wide, and both or neither are empty.
pub open spec fn alike(x: Seq<char>, y: Seq<char>) -> bool {
    &&& closed(x)
    &&& closed(y)
    &&& visible_width_of(x) == visible_width_of(y)
    &&& (x.len() > 0 <==> y.len() > 0)
}

proof fn lemma_ctx_color_free(input: Input, opts: RenderOptions)
    requires
        plain_fields(input),
    ensures
        alike(ctx_text(input, with_color(opts, true)), ctx_text(input, with_color(opts, false))),
{
    let e = Seq::<char>::empty();
    lemma_plain_text_width(e);
    if let Some(u) = input.context_window.used_percentage {
        let sp = seq![' ', '['];
        lemma_labels_escape_free(opts.theme);
        let before = opts.theme.ctx_label() + sp;
        let body = bar_text(u.usage.wide_cells as nat, WIDE_BAR as nat);
        let after = seq![']', ' '] + decimal(u.percent as nat) + seq!['%'];
        lemma_escape_free_concat(opts.theme.ctx_label(), sp);
        lemma_bar_escape_free(u.usage.wide_cells as nat, WIDE_BAR as nat);
        lemma_decimal_escape_free(u.percent as nat);
        lemma_escape_free_concat(seq![']', ' '], decimal(u.percent as nat));
        lemma_escape_free_concat(seq![']', ' '] + decimal(u.percent as nat), seq!['%']);
        lemma_framed_width(before, u.usage.color, true, body, after);
        lemma_framed_width(before, u.usage.color, false, body, after);
        assert(ctx_text(input, with_color(opts, true)) =~= before + painted(
            u.usage.color,
            true,
            body,
        ) + after);
        assert(ctx_text(input, with_color(opts, false)) =~= before + painted(
            u.usage.color,
            false,
            body,
        ) + after);
    }
}

proof fn lemma_pace_color_free(input: Input, opts: RenderOptions)
    requires
        plain_fields(input),
    ensures
        alike(pace_text(input, with_color(opts, true)), pace_text(input, with_color(opts, false))),
{
    let e = Seq::<char>::empty();
    lemma_plain_text_width(e);
    if let Some(w) = input.rate_limits.seven_day {
        if let Some(m) = w.pace {
            let sp = seq![' ', '['];
            lemma_labels_escape_free(opts.theme);
            let before = opts.theme.pace_label() + sp;
            let body = pendulum_text(
                m.expected_pos as nat,
                m.actual_pos as nat,
                PENDULUM_WIDTH as nat,
            );
            let after = seq![']', ' '] + m.delta_label@ + seq!['%'];
            lemma_escape_free_concat(opts.theme.pace_label(), sp);
            lemma_pendulum_escape_free(
                m.expected_pos as nat,
                m.actual_pos as nat,
                PENDULUM_WIDTH as nat,
            );
            lemma_escape_free_concat(seq![']', ' '], m.delta_label@);
            lemma_escape_free_concat(seq![']', ' '] + m.delta_label@, seq!['%']);
            lemma_framed_width(before, m.color, true, body, after);
            lemma_framed_width(before, m.color, false, body, after);
            assert(pace_text(input, with_color(opts, true)) =~= before + painted(
                m.color,
                true,
                body,
            ) + after);
            assert(pace_text(input, with_color(opts, false)) =~= before + painted(
                m.color,
                false,
                body,
            ) + after);
        }
    }
}

proof fn lemma_cost_color_free(input: Input, opts: RenderOptions)
    requires
        plain_fields(input),
    ensures
        alike(cost_text(input, with_color(opts, true)), cost_text(input, with_color(opts, false))),
{
    let e = Seq::<char>::empty();
    lemma_plain_text_width(e);
    if let Some(spend) = input.cost.total_cost_usd {
        lemma_framed_width(e, spend.color, true, spend.text@, e);
        lemma_framed_width(e, spend.color, false, spend.text@, e);
        assert(cost_text(input, with_color(opts, true)) =~= e + painted(
            spend.color,
            true,
            spend.text@,
        ) + e);
        assert(cost_text(input, with_color(opts, false)) =~= e + painted(
            spend.color,
            false,
            spend.text@,
        ) + e);
    }
}

proof fn lemma_uncolored_segments(input: Input, opts: RenderOptions)
    requires
        plain_fields(input),
    ensures
        duration_segment_text(input, with_color(opts, true)) == duration_segment_text(
            input,
            with_color(opts, false),
        ),
        closed(duration_segment_text(input, opts)),
        closed(lines_segment_text(input)),
        closed(pr_text(input)),
{
    let ms = input.cost.total_duration_ms as nat;
    lemma_labels_escape_free(opts.theme);
    lemma_duration_escape_free(ms);
    lemma_escape_free_concat(opts.theme.duration_label(), duration_text(ms));
    lemma_plain_text_width(duration_segment_text(input, opts));
    let a = input.cost.total_lines_added as nat;
    let r = input.cost.total_lines_removed as nat;
    lemma_decimal_escape_free(a);
    lemma_decimal_escape_free(r);
    lemma_escape_free_concat(seq!['+'], decimal(a));
    lemma_escape_free_concat(seq!['+'] + decimal(a), seq!['/', '-']);
    lemma_escape_free_concat(seq!['+'] + decimal(a) + seq!['/', '-'], decimal(r));
    lemma_plain_text_width(lines_segment_text(input));
    if let Some(pr) = input.pr {
        lemma_decimal_escape_free(pr.number as nat);
        lemma_escape_free_concat(seq!['#'], decimal(pr.number as nat));
        lemma_escape_free_concat(seq!['#'] + decimal(pr.number as nat), seq![' ']);
        lemma_escape_free_concat(seq!['#'] + decimal(pr.number as nat) + seq![' '], pr.review_state@);
    }
    lemma_plain_text_width(pr_text(input));
}

/// Each line-2 segment is as wide with color as without, leaves no escape
/// sequence open either way, and has text either way or neither.
proof fn lemma_segment_color_free(input: Input, opts: RenderOptions, kind: SegmentKind)
    requires
        plain_fields(input),
    ensures
        alike(
            segment_text(input, with_color(opts, true), kind),
            segment_text(input, with_color(opts, false), kind),
        ),
{
    match kind {
        SegmentKind::Ctx => lemma_ctx_color_free(input, opts),
        SegmentKind::Pace => lemma_pace_color_free(input, opts),
        SegmentKind::Cost => lemma_cost_color_free(input, opts),
        SegmentKind::Duration => {
            lemma_uncolored_segments(input, with_color(opts, false));
        },
        SegmentKind::Lines => {
            lemma_uncolored_segments(input, opts);
        },
        SegmentKind::Pr => {
            lemma_uncolored_segments(input, opts);
        },
    }
}

/// Two lists of segments with the same kinds in the same order, each pair
/// of bodies equally wide on screen and leaving no escape sequence open.
pub open spec fn same_layout(a: Seq<(SegmentKind, Seq<char>)>, b: Seq<(SegmentKind, Seq<char>)>) -> bool {
    &&& a.len() == b.len()
    &&& forall|i: int|
        0 <= i < a.len() ==> {
            &&& #[trigger] a[i].0 == b[i].0
            &&& closed(a[i].1)
            &&& closed(b[i].1)
            &&& visible_width_of(a[i].1) == visible_width_of(b[i].1)
        }
}

proof fn lemma_same_layout_push(
    a: Seq<(SegmentKind, Seq<char>)>,
    b: Seq<(SegmentKind, Seq<char>)>,
    kind: SegmentKind,
    x: Seq<char>,
    y: Seq<char>,
)
    requires
        same_layout(a, b),
        closed(x),
        closed(y),
        visible_width_of(x) == visible_width_of(y),
        x.len() > 0 <==> y.len() > 0,
    ensures
        same_layout(push_nonempty(a, kind, x), push_nonempty(b, kind, y)),
{
    let pa = push_nonempty(a, kind, x);
    let pb = push_nonempty(b, kind, y);
    assert forall|i: int| 0 <= i < pa.len() implies {
        &&& #[trigger] pa[i].0 == pb[i].0
        &&& closed(pa[i].1)
        &&& closed(pb[i].1)
        &&& visible_width_of(pa[i].1) == visible_width_of(pb[i].1)
    } by {
        if i < a.len() {
            assert(pa[i] == a[i]);
            assert(pb[i] == b[i]);
        }
    }
}

proof fn lemma_parts_same_layout(input: Input, opts: RenderOptions)
    requires
        plain_fields(input),
    ensures
        same_layout(
            line_two_parts(input, with_color(opts, true)),
            line_two_parts(input, with_color(opts, false)),
        ),
{
    let oc = with_color(opts, true);
    let op = with_color(opts, false);
    let e = Seq::<(SegmentKind, Seq<char>)>::empty();
    lemma_segment_color_free(input, opts, SegmentKind::Ctx);
    lemma_segment_color_free(input, opts, SegmentKind::Pace);
    lemma_segment_color_free(input, opts, SegmentKind::Cost);
    lemma_segment_color_free(input, opts, SegmentKind::Duration);
    lemma_segment_color_free(input, opts, SegmentKind::Lines);
    lemma_segment_color_free(input, opts, SegmentKind::Pr);
    let c0 = push_nonempty(e, SegmentKind::Ctx, ctx_text(input, oc));
    let p0 = push_nonempty(e, SegmentKind::Ctx, ctx_text(input, op));
    lemma_same_layout_push(e, e, SegmentKind::Ctx, ctx_text(input, oc), ctx_text(input, op));
    let c1 = push_nonempty(c0, SegmentKind::Pace, pace_text(input, oc));
    let p1 = push_nonempty(p0, SegmentKind::Pace, pace_text(input, op));
    lemma_same_layout_push(c0, p0, SegmentKind::Pace, pace_text(input, oc), pace_text(input, op));
    let c2 = push_nonempty(c1, SegmentKind::Cost, cost_text(input, oc));
    let p2 = push_nonempty(p1, SegmentKind::Cost, cost_text(input, op));
    lemma_same_layout_push(c1, p1, SegmentKind::Cost, cost_text(input, oc), cost_text(input, op));
    let c3 = push_nonempty(c2, SegmentKind::Duration, duration_segment_text(input, oc));
    let p3 = push_nonempty(p2, SegmentKind::Duration, duration_segment_text(input, op));
    lemma_same_layout_push(
        c2,
        p2,
        SegmentKind::Duration,
        duration_segment_text(input, oc),
        duration_segment_text(input, op),
    );
    let c4 = push_nonempty(c3, SegmentKind::Lines, lines_segment_text(input));
    let p4 = push_nonempty(p3, SegmentKind::Lines, lines_segment_text(input));
    lemma_same_layout_push(c3, p3, SegmentKind::Lines, lines_segment_text(input), lines_segment_text(input));
    lemma_same_layout_push(c4, p4, SegmentKind::Pr, pr_text(input), pr_text(input));
}

proof fn lemma_sep_plain()
    ensures
        closed(sep()),
        visible_width_of(sep()) == 3,
{
    lemma_plain_text_width(sep());
}

proof fn lemma_same_layout_width(a: Seq<(SegmentKind, Seq<char>)>, b: Seq<(SegmentKind, Seq<char>)>)
    requires
        same_layout(a, b),
    ensures
        closed(segments_text(a)),
        closed(segments_text(b)),
        visible_width_of(segments_text(a)) == visible_width_of(segments_text(b)),
    decreases a.len(),
{
    lemma_sep_plain();
    if a.len() == 0 {
        assert(bodies(a) =~= Seq::<Seq<char>>::empty());
        assert(bodies(b) =~= Seq::<Seq<char>>::empty());
    } else if a.len() == 1 {
        assert(a[0].0 == b[0].0);
        assert(segments_text(a) == a[0].1);
        assert(segments_text(b) == b[0].1);
    } else {
        let da = a.drop_last();
        let db = b.drop_last();
        assert forall|i: int| 0 <= i < da.len() implies {
            &&& #[trigger] da[i].0 == db[i].0
            &&& closed(da[i].1)
            &&& closed(db[i].1)
            &&& visible_width_of(da[i].1) == visible_width_of(db[i].1)
        } by {
            assert(da[i] == a[i]);
            assert(db[i] == b[i]);
        }
        lemma_same_layout_width(da, db);
        assert(bodies(a).drop_last() =~= bodies(da));
        assert(bodies(b).drop_last() =~= bodies(db));
        let n = a.len() - 1;
        assert(a[n].0 == b[n].0);
        assert(bodies(a).last() == a[n].1);
        assert(bodies(b).last() == b[n].1);
        lemma_closed_concat(segments_text(da), sep());
        lemma_closed_concat(segments_text(da) + sep(), a[n].1);
        lemma_closed_concat(segments_text(db), sep());
        lemma_closed_concat(segments_text(db) + sep(), b[n].1);
    }
}

proof fn lemma_same_layout_remove(
    a: Seq<(SegmentKind, Seq<char>)>,
    b: Seq<(SegmentKind, Seq<char>)>,
    kind: SegmentKind,
)
    requires
        same_layout(a, b),
    ensures
        same_layout(remove_first(a, kind), remove_first(b, kind)),
    decreases a.len(),
{
    if a.len() > 0 {
        let ta = a.drop_first();
        let tb = b.drop_first();
        assert(a[0].0 == b[0].0);
        assert forall|i: int| 0 <= i < ta.len() implies {
            &&& #[trigger] ta[i].0 == tb[i].0
            &&& closed(ta[i].1)
            &&& closed(tb[i].1)
            &&& visible_width_of(ta[i].1) == visible_width_of(tb[i].1)
        } by {
            assert(ta[i] == a[i + 1]);
            assert(tb[i] == b[i + 1]);
        }
        if a[0].0 != kind {
            lemma_same_layout_remove(ta, tb, kind);
            let ra = seq![a[0]] + remove_first(ta, kind);
            let rb = seq![b[0]] + remove_first(tb, kind);
            assert forall|i: int| 0 <= i < ra.len() implies {
                &&& #[trigger] ra[i].0 == rb[i].0
                &&& closed(ra[i].1)
                &&& closed(rb[i].1)
                &&& visible_width_of(ra[i].1) == visible_width_of(rb[i].1)
            } by {
                if i > 0 {
                    assert(ra[i] == remove_first(ta, kind)[i - 1]);
                    assert(rb[i] == remove_first(tb, kind)[i - 1]);
                } else {
                    assert(a[0].0 == b[0].0);
                }
            }
        }
    }
}

proof fn lemma_same_layout_collapse(
    a: Seq<(SegmentKind, Seq<char>)>,
    b: Seq<(SegmentKind, Seq<char>)>,
    order: Seq<SegmentKind>,
    max: nat,
)
    requires
        same_layout(a, b),
    ensures
        same_layout(collapse(a, order, max), collapse(b, order, max)),
    decreases order.len(),
{
    lemma_same_layout_width(a, b);
    if !(visible_width_of(segments_text(a)) <= max || order.len() == 0) {
        lemma_same_layout_remove(a, b, order[0]);
        lemma_same_layout_collapse(
            remove_first(a, order[0]),
            remove_first(b, order[0]),
            order.drop_first(),
            max,
        );
    }
}

/// The kinds of a list of segments, in order.
pub open spec fn kinds(segs: Seq<(SegmentKind, Seq<char>)>) -> Seq<SegmentKind> {
    segs.map_values(|s: (SegmentKind, Seq<char>)| s.0)
}

/// Color never changes what line 2 sheds: with color on or off (and no
/// escape characters in the document's own texts) the collapsed line keeps
/// the same segments and is equally wide on screen.
pub proof fn lemma_color_keeps_line_two_layout(input: Input, opts: RenderOptions)
    requires
        plain_fields(input),
    ensures
        kinds(collapse(line_two_parts(input, with_color(opts, true)), drop_order(), opts.columns as nat))
            == kinds(
            collapse(line_two_parts(input, with_color(opts, false)), drop_order(), opts.columns as nat),
        ),
        visible_width_of(fitted_line_two(input, with_color(opts, true))) == visible_width_of(
            fitted_line_two(input, with_color(opts, false)),
        ),
{
    let oc = with_color(opts, true);
    let op = with_color(opts, false);
    lemma_parts_same_layout(input, opts);
    let cc = collapse(line_two_parts(input, oc), drop_order(), opts.columns as nat);
    let cp = collapse(line_two_parts(input, op), drop_order(), opts.columns as nat);
    lemma_same_layout_collapse(
        line_two_parts(input, oc),
        line_two_parts(input, op),
        drop_order(),
        opts.columns as nat,
    );
    lemma_same_layout_width(cc, cp);
    assert(kinds(cc) =~= kinds(cp));
}

proof fn lemma_alike_concat(a: Seq<char>, b: Seq<char>, x: Seq<char>, y: Seq<char>)
    requires
        alike(a, b),
        alike(x, y),
    ensures
        alike(a + x, b + y),
{
    lemma_closed_concat(a, x);
    lemma_closed_concat(b, y);
}

proof fn lemma_alike_then_sep(a: Seq<char>, b: Seq<char>)
    requires
        alike(a, b),
    ensures
        alike(then_sep(a), then_sep(b)),
{
    lemma_sep_plain();
    if a.len() > 0 {
        lemma_alike_concat(a, b, sep(), sep());
    }
}

proof fn lemma_window_alike(label: Seq<char>, w: Window, opts: RenderOptions, narrow: bool)
    requires
        escape_free(label),
        escape_free(w.used_label@),
    ensures
        alike(
            window_text(label, w, with_color(opts, true), narrow),
            window_text(label, w, with_color(opts, false), narrow),
        ),
        window_text(label, w, with_color(opts, true), narrow).len() > 0,
{
    let sp = seq![' ', '['];
    let bar = if narrow {
        bar_text(w.used_percentage.narrow_cells as nat, NARROW_BAR as nat)
    } else {
        bar_text(w.used_percentage.wide_cells as nat, WIDE_BAR as nat)
    };
    let dur = duration_text(remaining_ms(w.resets_at as int, opts.now_epoch as int));
    let before = label + sp;
    let after = seq![']', ' '] + w.used_label@ + seq!['%', ' '] + dur;
    lemma_escape_free_concat(label, sp);
    lemma_bar_escape_free(w.used_percentage.narrow_cells as nat, NARROW_BAR as nat);
    lemma_bar_escape_free(w.used_percentage.wide_cells as nat, WIDE_BAR as nat);
    lemma_duration_escape_free(remaining_ms(w.resets_at as int, opts.now_epoch as int));
    lemma_escape_free_concat(seq![']', ' '], w.used_label@);
    lemma_escape_free_concat(seq![']', ' '] + w.used_label@, seq!['%', ' ']);
    lemma_escape_free_concat(seq![']', ' '] + w.used_label@ + seq!['%', ' '], dur);
    let color = w.used_percentage.color;
    lemma_framed_width(before, color, true, bar, after);
    lemma_framed_width(before, color, false, bar, after);
    assert(window_text(label, w, with_color(opts, true), narrow) =~= before + painted(
        color,
        true,
        bar,
    ) + after);
    assert(window_text(label, w, with_color(opts, false), narrow) =~= before + painted(
        color,
        false,
        bar,
    ) + after);
}

/// Line 1 is as wide with color as without (for a document whose own texts
/// hold no escape characters), in its wide and in its short form.
pub proof fn lemma_color_keeps_line_one_width(input: Input, opts: RenderOptions, narrow: bool)
    requires
        plain_fields(input),
    ensures
        visible_width_of(line_one_text(input, with_color(opts, true), narrow)) == visible_width_of(
            line_one_text(input, with_color(opts, false), narrow),
        ),
{
    let oc = with_color(opts, true);
    let op = with_color(opts, false);
    let e = Seq::<char>::empty();
    lemma_labels_escape_free(opts.theme);
    lemma_plain_text_width(e);
    let sess_c = match input.rate_limits.five_hour {
        Some(w) => window_text(oc.theme.sess_label(), w, oc, narrow),
        None => e,
    };
    let sess_p = match input.rate_limits.five_hour {
        Some(w) => window_text(op.theme.sess_label(), w, op, narrow),
        None => e,
    };
    if let Some(w) = input.rate_limits.five_hour {
        lemma_window_alike(opts.theme.sess_label(), w, opts, narrow);
    }
    assert(alike(sess_c, sess_p));
    let week_c = match input.rate_limits.seven_day {
        Some(w) => then_sep(sess_c) + window_text(oc.theme.week_label(), w, oc, narrow),
        None => sess_c,
    };
    let week_p = match input.rate_limits.seven_day {
        Some(w) => then_sep(sess_p) + window_text(op.theme.week_label(), w, op, narrow),
        None => sess_p,
    };
    if let Some(w) = input.rate_limits.seven_day {
        lemma_window_alike(opts.theme.week_label(), w, opts, narrow);
        lemma_alike_then_sep(sess_c, sess_p);
        lemma_alike_concat(
            then_sep(sess_c),
            then_sep(sess_p),
            window_text(oc.theme.week_label(), w, oc, narrow),
            window_text(op.theme.week_label(), w, op, narrow),
        );
    }
    assert(alike(week_c, week_p));
    if input.model.display_name@.len() > 0 {
        let name = input.model.display_name@;
        lemma_plain_text_width(name);
        lemma_alike_then_sep(week_c, week_p);
        lemma_alike_concat(then_sep(week_c), then_sep(week_p), name, name);
    }
}

/// Color never changes the layout of the statusline: for a document whose
/// own texts hold no escape characters, line 1 takes its short form with
/// color exactly when it does without, and line 2 keeps the same segments.
pub proof fn lemma_color_keeps_layout(input: Input, opts: RenderOptions)
    requires
        plain_fields(input),
    ensures
        (visible_width_of(line_one_text(input, with_color(opts, true), false)) > opts.columns)
            == (visible_width_of(line_one_text(input, with_color(opts, false), false))
            > opts.columns),
        kinds(collapse(line_two_parts(input, with_color(opts, true)), drop_order(), opts.columns as nat))
            == kinds(
            collapse(line_two_parts(input, with_color(opts, false)), drop_order(), opts.columns as nat),
        ),
{
    lemma_color_keeps_line_one_width(input, opts, false);
    lemma_color_keeps_line_two_layout(input, opts);
}

/// The parts of line 1, in order: the session window and the weekly
/// window when the document has them, then the model name when not empty.
pub open spec fn line_one_parts(input: Input, opts: RenderOptions, narrow: bool) -> Seq<Seq<char>> {
    let sess = match input.rate_limits.five_hour {
        Some(w) => seq![window_text(opts.theme.sess_label(), w, opts, narrow)],
        None => Seq::empty(),
    };
    let week = match input.rate_limits.seven_day {
        Some(w) => sess.push(window_text(opts.theme.week_label(), w, opts, narrow)),
        None => sess,
    };
    if input.model.display_name@.len() > 0 {
        week.push(input.model.display_name@)
    } else {
        week
    }
}

proof fn lemma_join_non_empty(parts: Seq<Seq<char>>)
    requires
        parts.len() > 0,
        parts.last().len() > 0,
    ensures
        join(parts, sep()).len() > 0,
{
}

proof fn lemma_join_push(parts: Seq<Seq<char>>, x: Seq<char>)
    requires
        forall|i: int| 0 <= i < parts.len() ==> (#[trigger] parts[i]).len() > 0,
    ensures
        join(parts.push(x), sep()) == then_sep(join(parts, sep())) + x,
{
    if parts.len() == 0 {
        assert(parts.push(x) =~= seq![x]);
        assert(then_sep(join(parts, sep())) =~= Seq::<char>::empty());
        assert(Seq::<char>::empty() + x =~= x);
    } else {
        assert(parts.last() == parts[parts.len() - 1]);
        lemma_join_non_empty(parts);
        assert(parts.push(x).drop_last() =~= parts);
    }
}

/// Line 1 is its parts joined by ` · `: the session window, the weekly
/// window and the model name, each when present, in that order, in the
/// wide or the short form alike.
#[verifier::spinoff_prover]
#[verifier::rlimit(50)]
pub proof fn lemma_line_one_joins_parts(input: Input, opts: RenderOptions, narrow: bool)
    ensures
        line_one_text(input, opts, narrow) == join(line_one_parts(input, opts, narrow), sep()),
{
    let e = Seq::<Seq<char>>::empty();
    let sess = match input.rate_limits.five_hour {
        Some(w) => seq![window_text(opts.theme.sess_label(), w, opts, narrow)],
        None => e,
    };
    let week = match input.rate_limits.seven_day {
        Some(w) => sess.push(window_text(opts.theme.week_label(), w, opts, narrow)),
        None => sess,
    };
    if let Some(w) = input.rate_limits.five_hour {
        lemma_join_push(e, window_text(opts.theme.sess_label(), w, opts, narrow));
        assert(e.push(window_text(opts.theme.sess_label(), w, opts, narrow)) =~= sess);
        assert(window_text(opts.theme.sess_label(), w, opts, narrow).len() > 0);
    }
    assert(forall|i: int| 0 <= i < sess.len() ==> (#[trigger] sess[i]).len() > 0);
    if let Some(w) = input.rate_limits.seven_day {
        lemma_join_push(sess, window_text(opts.theme.week_label(), w, opts, narrow));
        assert(window_text(opts.theme.week_label(), w, opts, narrow).len() > 0);
        assert forall|i: int| 0 <= i < week.len() implies (#[trigger] week[i]).len() > 0 by {
            if i < sess.len() {
                assert(week[i] == sess[i]);
            }
        }
    }
    assert(forall|i: int| 0 <= i < week.len() ==> (#[trigger] week[i]).len() > 0);
    if input.model.display_name@.len() > 0 {
        lemma_join_push(week, input.model.display_name@);
    }
}

/// Whether the document has the group that the line-2 segment of kind
/// `kind` shows: the context window, a weekly window with a pace, a
/// positive cost, a non-zero duration, a non-zero line count, a pull
/// request.
pub open spec fn group_present(input: Input, kind: SegmentKind) -> bool {
    match kind {
        SegmentKind::Ctx => input.context_window.used_percentage is Some,
        SegmentKind::Pace => input.rate_limits.seven_day matches Some(w) && w.pace is Some,
        SegmentKind::Cost => input.cost.total_cost_usd is Some,
        SegmentKind::Duration => input.cost.total_duration_ms != 0,
        SegmentKind::Lines => input.cost.total_lines_added != 0
            || input.cost.total_lines_removed != 0,
        SegmentKind::Pr => input.pr is Some,
    }
}

proof fn lemma_decimal_non_empty(n: nat)
    ensures
        decimal(n).len() > 0,
    decreases n,
{
}

proof fn lemma_segment_text_present(input: Input, opts: RenderOptions, kind: SegmentKind)
    requires
        input.well_formed(),
    ensures
        segment_text(input, opts, kind).len() > 0 <==> group_present(input, kind),
{
    match kind {
        SegmentKind::Cost => {
            if let Some(spend) = input.cost.total_cost_usd {
                if opts.color_enabled {
                    assert(painted(spend.color, true, spend.text@).len() >= spend.text@.len());
                }
            }
        },
        SegmentKind::Duration => {
            let ms = input.cost.total_duration_ms as nat;
            lemma_decimal_non_empty(days_of(ms));
            lemma_decimal_non_empty(hours_of(ms));
            lemma_decimal_non_empty(minutes_of(ms));
            lemma_decimal_non_empty(seconds_of(ms));
        },
        SegmentKind::Lines => {
            lemma_decimal_non_empty(input.cost.total_lines_added as nat);
        },
        _ => {},
    }
}

/// On a well-formed document, line 2 shows a segment exactly for each group
/// the document has (context window, a weekly window with a pace, a
/// positive cost, a non-zero duration, a non-zero line count, a pull
/// request), each once, in that order, with its own text, and line 2 is
/// those segments joined by ` · `.
pub proof fn lemma_line_two_shows_present_groups(input: Input, opts: RenderOptions)
    requires
        input.well_formed(),
    ensures
        ({
            let parts = line_two_parts(input, opts);
            &&& forall|k: SegmentKind|
                #![trigger group_present(input, k)]
                (exists|i: int| 0 <= i < parts.len() && parts[i].0 == k) <==> group_present(
                    input,
                    k,
                )
            &&& forall|i: int|
                0 <= i < parts.len() ==> #[trigger] parts[i].1 == segment_text(
                    input,
                    opts,
                    parts[i].0,
                )
            &&& forall|i: int, j: int|
                0 <= i < j < parts.len() ==> rank(parts[i].0) < rank(parts[j].0)
            &&& line_two_text(input, opts) == join(bodies(parts), sep())
        }),
{
    let parts = line_two_parts(input, opts);
    lemma_segments_shown_when_non_empty(input, opts);
    assert forall|k: SegmentKind|
        #![trigger group_present(input, k)]
        (exists|i: int| 0 <= i < parts.len() && parts[i].0 == k) <==> group_present(input, k) by {
        lemma_segment_text_present(input, opts, k);
        if exists|i: int| 0 <= i < parts.len() && parts[i].0 == k {
            let i = choose|i: int| 0 <= i < parts.len() && parts[i].0 == k;
            assert(parts[i].1 == segment_text(input, opts, parts[i].0));
        }
    }
}

/// In a well-formed window the bar is exactly as many cells as its width:
/// twelve on a wide line 1, four on a short one.
pub proof fn lemma_window_bar_width(w: Window, narrow: bool)
    requires
        w.well_formed(),
    ensures
        narrow ==> bar_text(w.used_percentage.narrow_cells as nat, NARROW_BAR as nat).len()
            == NARROW_BAR,
        !narrow ==> bar_text(w.used_percentage.wide_cells as nat, WIDE_BAR as nat).len()
            == WIDE_BAR,
{
    lemma_bar_width(w.used_percentage.narrow_cells as nat, NARROW_BAR as nat);
    lemma_bar_width(w.used_percentage.wide_cells as nat, WIDE_BAR as nat);
}

/// With color on, a well-formed window's bar starts with an escape
/// sequence, right after its label and ` [`.
pub proof fn lemma_colored_window_has_escape(
    label: Seq<char>,
    w: Window,
    opts: RenderOptions,
    narrow: bool,
)
    requires
        w.well_formed(),
        opts.color_enabled,
    ensures
        window_text(label, w, opts, narrow)[label.len() + 2int] == ESC,
{
    let bar = if narrow {
        bar_text(w.used_percentage.narrow_cells as nat, NARROW_BAR as nat)
    } else {
        bar_text(w.used_percentage.wide_cells as nat, WIDE_BAR as nat)
    };
    let p = painted(w.used_percentage.color, true, bar);
    assert(p[0] == ESC);
    let t = window_text(label, w, opts, narrow);
    assert(t[label.len() + 2int] == (label + seq![' ', '['] + p)[label.len() + 2int]);
}

/// Whether `segs` holds a segment of kind `kind`.
pub open spec fn has_kind(segs: Seq<(SegmentKind, Seq<char>)>, kind: SegmentKind) -> bool {
    exists|i: int| 0 <= i < segs.len() && segs[i].0 == kind
}

proof fn lemma_without_has(segs: Seq<(SegmentKind, Seq<char>)>, kinds: Seq<SegmentKind>, k: SegmentKind)
    ensures
        has_kind(without_kinds(segs, kinds), k) <==> (has_kind(segs, k) && !kinds.contains(k)),
    decreases segs.len(),
{
    if segs.len() > 0 {
        let tail = segs.drop_first();
        let rest = without_kinds(tail, kinds);
        lemma_without_has(tail, kinds, k);
        let w = without_kinds(segs, kinds);
        if has_kind(w, k) {
            let i = choose|i: int| 0 <= i < w.len() && w[i].0 == k;
            lemma_without_keeps(segs, kinds, i);
            if kinds.contains(segs[0].0) {
                let j = choose|j: int| 0 <= j < tail.len() && tail[j].0 == k;
                assert(segs[j + 1].0 == k);
            } else if i > 0 {
                assert(w[i] == rest[i - 1]);
                let j = choose|j: int| 0 <= j < tail.len() && tail[j].0 == k;
                assert(segs[j + 1].0 == k);
            } else {
                assert(segs[0].0 == k);
            }
        }
        if has_kind(segs, k) && !kinds.contains(k) {
            let j = choose|j: int| 0 <= j < segs.len() && segs[j].0 == k;
            if j == 0 {
                assert(w[0] == segs[0]);
            } else {
                assert(tail[j - 1].0 == k);
                let m = choose|m: int| 0 <= m < rest.len() && rest[m].0 == k;
                if kinds.contains(segs[0].0) {
                    assert(w[m].0 == k);
                } else {
                    assert(w[m + 1] == rest[m]);
                }
            }
        }
    }
}

/// Line 2 sheds its segments in this fixed order of priority, lowest first:
/// lines, duration, pull request, cost, pace, context. Whenever the
/// collapsed line has lost a segment that the full line had, it has also
/// lost every segment of lower priority.
pub proof fn lemma_line_two_sheds_in_priority_order(input: Input, opts: RenderOptions)
    ensures
        drop_order() == seq![
            SegmentKind::Lines,
            SegmentKind::Duration,
            SegmentKind::Pr,
            SegmentKind::Cost,
            SegmentKind::Pace,
            SegmentKind::Ctx,
        ],
        ({
            let order = seq![
                SegmentKind::Lines,
                SegmentKind::Duration,
                SegmentKind::Pr,
                SegmentKind::Cost,
                SegmentKind::Pace,
                SegmentKind::Ctx,
            ];
            let parts = line_two_parts(input, opts);
            let kept = collapse(parts, drop_order(), opts.columns as nat);
            &&& fitted_line_two(input, opts) == segments_text(kept)
            &&& forall|i: int, j: int|
                0 <= i < j < 6 && has_kind(parts, #[trigger] order[j]) && !has_kind(kept, order[j])
                    ==> !has_kind(kept, #[trigger] order[i])
        }),
{
    let order = seq![
        SegmentKind::Lines,
        SegmentKind::Duration,
        SegmentKind::Pr,
        SegmentKind::Cost,
        SegmentKind::Pace,
        SegmentKind::Ctx,
    ];
    assert(drop_order() =~= order);
    let parts = line_two_parts(input, opts);
    let max = opts.columns as nat;
    let kept = collapse(parts, drop_order(), max);
    let empty = Seq::<SegmentKind>::empty();
    lemma_segments_shown_when_non_empty(input, opts);
    lemma_without_empty(parts);
    lemma_collapse_prefix(parts, empty, drop_order(), max);
    let d = drops(parts, drop_order(), max);
    let dropped = drop_order().take(d as int);
    assert(empty + dropped =~= dropped);
    assert(kept == without_kinds(parts, dropped));
    assert forall|i: int, j: int|
        0 <= i < j < 6 && has_kind(parts, #[trigger] order[j]) && !has_kind(kept, order[j])
            implies !has_kind(kept, #[trigger] order[i]) by {
        lemma_without_has(parts, dropped, order[j]);
        lemma_without_has(parts, dropped, order[i]);
        let m = choose|m: int| 0 <= m < dropped.len() && dropped[m] == order[j];
        assert(order[m] == order[j]);
        assert(m == j);
        assert(dropped[i] == order[i]);
    }
}

/// The escape sequence that switches `color` on, when color is enabled.
pub open spec fn opening(color: Color, enabled: bool) -> Seq<char> {
    if enabled {
        color.open_code()
    } else {
        Seq::empty()
    }
}

/// The escape sequence that switches `color` off, when color is enabled.
pub open spec fn closing(color: Color, enabled: bool) -> Seq<char> {
    if enabled {
        color.close_code()
    } else {
        Seq::empty()
    }
}

proof fn lemma_framed_layout(pre: Seq<char>, color: Color, enabled: bool, body: Seq<char>, post: Seq<char>)
    ensures
        ({
            let t = pre + painted(color, enabled, body) + post;
            let a = pre.len() as int;
            let b = a + opening(color, enabled).len();
            let c = b + body.len();
            let d = c + closing(color, enabled).len();
            &&& t.len() == d + post.len()
            &&& t.subrange(0, a) == pre
            &&& t.subrange(a, b) == opening(color, enabled)
            &&& t.subrange(b, c) == body
            &&& t.subrange(c, d) == closing(color, enabled)
            &&& t.subrange(d, t.len() as int) == post
        }),
{
    let t = pre + painted(color, enabled, body) + post;
    let o = opening(color, enabled);
    let cl = closing(color, enabled);
    assert(painted(color, enabled, body) =~= o + body + cl);
    assert(t =~= pre + o + body + cl + post);
    let a = pre.len() as int;
    let b = a + o.len();
    let c = b + body.len();
    let d = c + cl.len();
    assert(t.subrange(0, a) =~= pre);
    assert(t.subrange(a, b) =~= o);
    assert(t.subrange(b, c) =~= body);
    assert(t.subrange(c, d) =~= cl);
    assert(t.subrange(d, t.len() as int) =~= post);
}

/// A rate-limit window reads `label [`, then its bar painted in the
/// window's own usage color (the color's escape sequence when color is on,
/// then the full cells, then the empty ones up to the bar's width, then the
/// reset sequence), then `] `.
pub proof fn lemma_window_bar_in_usage_color(label: Seq<char>, w: Window, opts: RenderOptions, narrow: bool)
    requires
        w.well_formed(),
    ensures
        ({
            let t = window_text(label, w, opts, narrow);
            let color = w.used_percentage.color;
            let cells = if narrow {
                w.used_percentage.narrow_cells as int
            } else {
                w.used_percentage.wide_cells as int
            };
            let width = if narrow {
                NARROW_BAR as int
            } else {
                WIDE_BAR as int
            };
            let a = label.len() as int + 2;
            let b = a + opening(color, opts.color_enabled).len() as int;
            let c = b + width;
            let d = c + closing(color, opts.color_enabled).len() as int;
            &&& t.subrange(0, a) == label + seq![' ', '[']
            &&& t.subrange(a, b) == opening(color, opts.color_enabled)
            &&& forall|i: int|
                0 <= i < width ==> #[trigger] t.subrange(b, c)[i] == (if i < cells {
                    FULL
                } else {
                    LIGHT
                })
            &&& t.subrange(c, d) == closing(color, opts.color_enabled)
            &&& t[d] == ']'
        }),
{
    let color = w.used_percentage.color;
    let bar = if narrow {
        bar_text(w.used_percentage.narrow_cells as nat, NARROW_BAR as nat)
    } else {
        bar_text(w.used_percentage.wide_cells as nat, WIDE_BAR as nat)
    };
    let pre = label + seq![' ', '['];
    let post = seq![']', ' '] + w.used_label@ + seq!['%', ' '] + duration_text(
        remaining_ms(w.resets_at as int, opts.now_epoch as int),
    );
    let t = window_text(label, w, opts, narrow);
    assert(t =~= pre + painted(color, opts.color_enabled, bar) + post);
    lemma_framed_layout(pre, color, opts.color_enabled, bar, post);
    lemma_window_bar_width(w, narrow);
    lemma_bar_width(w.used_percentage.narrow_cells as nat, NARROW_BAR as nat);
    lemma_bar_width(w.used_percentage.wide_cells as nat, WIDE_BAR as nat);
    let b = pre.len() as int + opening(color, opts.color_enabled).len();
    let c = b + bar.len() as int;
    let d = c + closing(color, opts.color_enabled).len() as int;
    assert(t.subrange(b, c) == bar);
    assert(t.subrange(d, t.len() as int)[0] == t[d]);
}

/// With color on, the context segment reads `label [`, then the context
/// bar of twelve cells painted in the context usage's own color, then
/// `] `, the whole percentage and `%`.
pub proof fn lemma_ctx_bar_in_usage_color(input: Input, opts: RenderOptions)
    requires
        input.well_formed(),
        input.context_window.used_percentage is Some,
    ensures
        ({
            let u = input.context_window.used_percentage->0;
            let t = ctx_text(input, opts);
            let color = u.usage.color;
            let label = opts.theme.ctx_label();
            let a = label.len() as int + 2;
            let b = a + opening(color, opts.color_enabled).len() as int;
            let c = b + WIDE_BAR as int;
            let d = c + closing(color, opts.color_enabled).len() as int;
            &&& t.subrange(0, a) == label + seq![' ', '[']
            &&& t.subrange(a, b) == opening(color, opts.color_enabled)
            &&& forall|i: int|
                0 <= i < WIDE_BAR ==> #[trigger] t.subrange(b, c)[i] == (if i < u.usage.wide_cells {
                    FULL
                } else {
                    LIGHT
                })
            &&& t.subrange(c, d) == closing(color, opts.color_enabled)
            &&& t.subrange(d, t.len() as int) == seq![']', ' '] + decimal(u.percent as nat) + seq!['%']
        }),
{
    let u = input.context_window.used_percentage->0;
    let color = u.usage.color;
    let bar = bar_text(u.usage.wide_cells as nat, WIDE_BAR as nat);
    let pre = opts.theme.ctx_label() + seq![' ', '['];
    let post = seq![']', ' '] + decimal(u.percent as nat) + seq!['%'];
    let t = ctx_text(input, opts);
    assert(t =~= pre + painted(color, opts.color_enabled, bar) + post);
    lemma_framed_layout(pre, color, opts.color_enabled, bar, post);
    lemma_bar_width(u.usage.wide_cells as nat, WIDE_BAR as nat);
    let b = pre.len() as int + opening(color, opts.color_enabled).len();
    let c = b + bar.len() as int;
    assert(t.subrange(b, c) == bar);
}

/// With color on, the pace segment reads `label [`, then the pendulum
/// painted in the pace's own color (not the weekly usage's), then `] `,
/// the signed gap and `%`.
pub proof fn lemma_pace_in_pace_color(input: Input, opts: RenderOptions)
    requires
        input.rate_limits.seven_day matches Some(w) && w.pace is Some,
    ensures
        ({
            let m = input.rate_limits.seven_day->0.pace->0;
            let t = pace_text(input, opts);
            let color = m.color;
            let label = opts.theme.pace_label();
            let a = label.len() as int + 2;
            let b = a + opening(color, opts.color_enabled).len() as int;
            let c = b + PENDULUM_WIDTH as int;
            let d = c + closing(color, opts.color_enabled).len() as int;
            &&& t.subrange(0, a) == label + seq![' ', '[']
            &&& t.subrange(a, b) == opening(color, opts.color_enabled)
            &&& t.subrange(b, c) == pendulum_text(
                m.expected_pos as nat,
                m.actual_pos as nat,
                PENDULUM_WIDTH as nat,
            )
            &&& t.subrange(c, d) == closing(color, opts.color_enabled)
            &&& t.subrange(d, t.len() as int) == seq![']', ' '] + m.delta_label@ + seq!['%']
        }),
{
    let m = input.rate_limits.seven_day->0.pace->0;
    let color = m.color;
    let body = pendulum_text(m.expected_pos as nat, m.actual_pos as nat, PENDULUM_WIDTH as nat);
    let pre = opts.theme.pace_label() + seq![' ', '['];
    let post = seq![']', ' '] + m.delta_label@ + seq!['%'];
    assert(pace_text(input, opts) =~= pre + painted(color, opts.color_enabled, body) + post);
    lemma_framed_layout(pre, color, opts.color_enabled, body, post);
    lemma_pendulum_shape(m.expected_pos as nat, m.actual_pos as nat, PENDULUM_WIDTH as nat);
}

/// The cost segment is the amount's text wrapped in the amount's own color
/// (red, yellow or the default) when color is on, and the bare text when it
/// is off.
pub proof fn lemma_cost_in_spend_color(input: Input, opts: RenderOptions)
    requires
        input.cost.total_cost_usd is Some,
    ensures
        ({
            let spend = input.cost.total_cost_usd->0;
            cost_text(input, opts) == opening(spend.color, opts.color_enabled) + spend.text@
                + closing(spend.color, opts.color_enabled)
        }),
{
    let spend = input.cost.total_cost_usd->0;
    assert(cost_text(input, opts) =~= opening(spend.color, opts.color_enabled) + spend.text@
        + closing(spend.color, opts.color_enabled));
}

} // verus!
