//! Block bars: filled cells followed by empty ones.
use vstd::prelude::*;

use crate::text::push_char;

verus! {

/// U+2588 FULL BLOCK, a filled cell.
pub const FULL: char = '\u{2588}';

/// U+2591 LIGHT SHADE, an empty cell.
pub const LIGHT: char = '\u{2591}';

/// `filled` full blocks, then light shades up to `width` cells (none when
/// `filled` is already at least `width`).
pub open spec fn bar_text(filled: nat, width: nat) -> Seq<char> {
    Seq::new(filled, |i: int| FULL) + Seq::new(
        if filled <= width {
            (width - filled) as nat
        } else {
            0
        },
        |i: int| LIGHT,
    )
}

/// The cells of a bar of `width` cells of which `filled` are full: the
/// full blocks first, then the light shades. The number of full cells is
/// what a percentage becomes at that width, `round(percent / 100 * width)`
/// with the percentage clamped to `0..=100`.
pub fn cells(filled: usize, width: usize) -> (r: String)
    ensures
        r@ == bar_text(filled as nat, width as nat),
{
    let empty: usize = if filled <= width {
        width - filled
    } else {
        0
    };
    let mut out = String::new();
    let mut i: usize = 0;
    while i < filled
        invariant
            i <= filled,
            out@ == Seq::new(i as nat, |k: int| FULL),
        decreases filled - i,
    {
        push_char(&mut out, FULL);
        i = i + 1;
        assert(out@ =~= Seq::new(i as nat, |k: int| FULL));
    }
    let mut j: usize = 0;
    while j < empty
        invariant
            j <= empty,
            out@ == Seq::new(filled as nat, |k: int| FULL) + Seq::new(j as nat, |k: int| LIGHT),
        decreases empty - j,
    {
        push_char(&mut out, LIGHT);
        j = j + 1;
        assert(out@ =~= Seq::new(filled as nat, |k: int| FULL) + Seq::new(j as nat, |k: int| LIGHT));
    }
    out
}

/// A bar never overflows its width: with at most `width` full cells it is
/// exactly `width` cells long, the first `filled` of them full and the
/// rest empty.
pub proof fn lemma_bar_width(filled: nat, width: nat)
    requires
        filled <= width,
    ensures
        bar_text(filled, width).len() == width,
        forall|i: int| 0 <= i < filled ==> #[trigger] bar_text(filled, width)[i] == FULL,
        forall|i: int| filled <= i < width ==> #[trigger] bar_text(filled, width)[i] == LIGHT,
{
}

} // verus!
