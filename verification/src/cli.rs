//! The command-line switches of the statusline.
use vstd::prelude::*;

verus! {

/// The switches the statusline takes.
#[derive(Debug, Clone, Copy)]
pub struct Cli {
    /// Use Nerd Font glyphs in place of text labels.
    pub nerd: bool,
    /// Disable color output. Overrides `NO_COLOR` detection.
    pub no_color: bool,
    /// Pretty-print parsed stdin JSON to stderr (for troubleshooting).
    pub debug: bool,
}

} // verus!
