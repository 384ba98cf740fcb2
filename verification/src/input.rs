//! What the statusline reads of one statusline document of the coding agent.
//!
//! The document carries fractional percentages and a dollar amount; the
//! arithmetic on those happens where the document is parsed, and these
//! types hold its results: cell counts, colors and rounded labels.
use vstd::prelude::*;

use crate::color::Color;
use crate::render::{NARROW_BAR, PENDULUM_WIDTH, WIDE_BAR};
use crate::text::escape_free;

verus! {

/// One statusline document. A group that is missing or malformed in the
/// source holds its default (empty text, zero counts, no value).
#[derive(Debug)]
pub struct Input {
    pub model: Model,
    pub workspace: Workspace,
    pub cost: Cost,
    pub context_window: ContextWindow,
    pub rate_limits: RateLimits,
    pub pr: Option<Pr>,
}

#[derive(Debug)]
pub struct Model {
    pub display_name: String,
}

#[derive(Debug)]
pub struct Workspace {
    pub current_dir: String,
}

/// The session's cost and size.
#[derive(Debug)]
pub struct Cost {
    /// The cost in US dollars, when it is above zero.
    pub total_cost_usd: Option<Spend>,
    pub total_duration_ms: u64,
    pub total_lines_added: u64,
    pub total_lines_removed: u64,
}

/// A positive cost in US dollars: its text with two decimals (`$1.23`)
/// and its color (red above $50, yellow above $10, the default otherwise).
#[derive(Debug)]
pub struct Spend {
    pub color: Color,
    pub text: String,
}

/// A usage percentage as the bars show it: how many cells are full in the
/// wide bar of twelve cells and in the narrow bar of four (the percentage,
/// clamped to `0..=100`, times the width over a hundred, rounded half away
/// from zero), and its color (green below 60%, yellow below 85%, red from
/// there).
#[derive(Debug, Clone, Copy)]
pub struct Usage {
    pub wide_cells: usize,
    pub narrow_cells: usize,
    pub color: Color,
}

/// How full the context window is.
#[derive(Debug)]
pub struct ContextWindow {
    pub used_percentage: Option<ContextUsage>,
}

/// A whole percentage of the context window in use, with its bar.
#[derive(Debug, Clone, Copy)]
pub struct ContextUsage {
    pub percent: u32,
    pub usage: Usage,
}

/// The session (five-hour) and weekly (seven-day) rate-limit windows.
#[derive(Debug)]
pub struct RateLimits {
    pub five_hour: Option<Window>,
    pub seven_day: Option<Window>,
}

/// One rate-limit window.
#[derive(Debug)]
pub struct Window {
    /// How much of the window's budget is used.
    pub used_percentage: Usage,
    /// That percentage rounded to a whole number, as text (`27`).
    pub used_label: String,
    /// When the window resets, in seconds since the Unix epoch.
    pub resets_at: i64,
    /// The pace at render time, when "now" lies in the seven days before
    /// `resets_at`.
    pub pace: Option<PaceMark>,
}

/// The weekly pace as the pendulum shows it: the cells (of fourteen) at
/// which the expected usage (the elapsed fraction of the week) and the
/// actual usage fall, the color of the gap between them (green when under
/// pace, yellow up to 10 points over, red beyond), and that gap rounded to
/// a whole number with its sign (`-24`, `+3`).
#[derive(Debug)]
pub struct PaceMark {
    pub expected_pos: usize,
    pub actual_pos: usize,
    pub color: Color,
    pub delta_label: String,
}

/// The pull request of the session and its review state.
#[derive(Debug)]
pub struct Pr {
    pub number: u64,
    pub review_state: String,
}

/// One of the three colors a usage level or a pace takes.
pub open spec fn is_level_color(color: Color) -> bool {
    color == Color::Green || color == Color::Yellow || color == Color::Red
}

/// A label computed from a number: not empty, and with no escape
/// character.
pub open spec fn is_number_label(label: Seq<char>) -> bool {
    label.len() > 0 && escape_free(label)
}

impl Usage {
    /// What holds of every usage worked out from a percentage: the full
    /// cells fit in their bars, and the color is green, yellow or red.
    pub open spec fn well_formed(self) -> bool {
        &&& self.wide_cells <= WIDE_BAR
        &&& self.narrow_cells <= NARROW_BAR
        &&& is_level_color(self.color)
    }
}

impl PaceMark {
    /// Both positions lie among the pendulum's cells, the color is green,
    /// yellow or red, and the gap has a label.
    pub open spec fn well_formed(self) -> bool {
        &&& self.expected_pos < PENDULUM_WIDTH
        &&& self.actual_pos < PENDULUM_WIDTH
        &&& is_level_color(self.color)
        &&& is_number_label(self.delta_label@)
    }
}

impl Spend {
    /// The amount has text, with no escape character, and a color that is
    /// the default, yellow or red.
    pub open spec fn well_formed(self) -> bool {
        &&& is_number_label(self.text@)
        &&& (self.color == Color::Default || self.color == Color::Yellow || self.color
            == Color::Red)
    }
}

impl Window {
    /// The usage and the pace are well formed and the percentage has a
    /// label.
    pub open spec fn well_formed(self) -> bool {
        &&& self.used_percentage.well_formed()
        &&& is_number_label(self.used_label@)
        &&& (self.pace matches Some(p) ==> p.well_formed())
    }
}

impl Input {
    /// What holds of every document worked out from the statusline JSON:
    /// each value computed from a fractional number (cell counts, colors,
    /// labels) is in its range. The texts copied from the document itself
    /// (the model name, the directory, the review state) may hold anything.
    pub open spec fn well_formed(self) -> bool {
        &&& (self.cost.total_cost_usd matches Some(spend) ==> spend.well_formed())
        &&& (self.context_window.used_percentage matches Some(c) ==> c.usage.well_formed())
        &&& (self.rate_limits.five_hour matches Some(w) ==> w.well_formed())
        &&& (self.rate_limits.seven_day matches Some(w) ==> w.well_formed())
    }
}

} // verus!
