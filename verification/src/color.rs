//! ANSI colors and the rule that decides whether to emit them.
use vstd::prelude::*;

verus! {

/// ANSI color codes used by the statusline. Numbered to match the
/// 8/16-color palette so they render correctly even on terminals without
/// 256-color support.
#[derive(Debug, Clone, Copy, PartialEq, Eq, Structural)]
pub enum Color {
    Default,
    Dim,
    Green,
    Yellow,
    Red,
}

/// The escape character that starts an ANSI SGR sequence.
pub const ESC: char = '\u{1b}';

impl Color {
    /// The SGR sequence that switches the color on: `ESC [ <code> m`, or
    /// nothing for the default color.
    pub open spec fn open_code(self) -> Seq<char> {
        match self {
            Color::Default => Seq::empty(),
            Color::Dim => seq![ESC, '[', '2', 'm'],
            Color::Green => seq![ESC, '[', '3', '2', 'm'],
            Color::Yellow => seq![ESC, '[', '3', '3', 'm'],
            Color::Red => seq![ESC, '[', '3', '1', 'm'],
        }
    }

    /// The SGR reset sequence `ESC [ 0 m`, or nothing for the default color.
    pub open spec fn close_code(self) -> Seq<char> {
        match self {
            Color::Default => Seq::empty(),
            _ => seq![ESC, '[', '0', 'm'],
        }
    }

    /// The escape sequence that switches this color on.
    pub fn ansi_open(self) -> (r: &'static str)
        ensures
            r@ == self.open_code(),
    {
        proof {
            reveal_strlit("");
            reveal_strlit("\x1b[2m");
            reveal_strlit("\x1b[32m");
            reveal_strlit("\x1b[33m");
            reveal_strlit("\x1b[31m");
        }
        match self {
            Color::Default => "",
            Color::Dim => "\x1b[2m",
            Color::Green => "\x1b[32m",
            Color::Yellow => "\x1b[33m",
            Color::Red => "\x1b[31m",
        }
    }

    /// The escape sequence that switches this color off again.
    pub fn ansi_close(self) -> (r: &'static str)
        ensures
            r@ == self.close_code(),
    {
        proof {
            reveal_strlit("");
            reveal_strlit("\x1b[0m");
        }
        match self {
            Color::Default => "",
            _ => "\x1b[0m",
        }
    }
}

/// Color is wanted unless the `--no-color` flag is given or `NO_COLOR` is
/// set to a non-empty value (<https://no-color.org>).
pub open spec fn color_wanted(no_color_flag: bool, no_color_env: Option<Seq<char>>) -> bool {
    !no_color_flag && !(no_color_env matches Some(v) && v.len() > 0)
}

/// Detect whether color should be emitted given the `--no-color` flag and
/// the `NO_COLOR` env var. <https://no-color.org>
pub fn enabled(no_color_flag: bool, no_color_env: Option<&str>) -> (r: bool)
    ensures
        r == color_wanted(
            no_color_flag,
            match no_color_env {
                Some(v) => Some(v@),
                None => None,
            },
        ),
{
    if no_color_flag {
        return false;
    }
    match no_color_env {
        Some(v) => v.is_empty(),
        None => true,
    }
}

} // verus!
