//! Labels for the statusline segments, as plain words or Nerd Font glyphs.
use vstd::prelude::*;

verus! {

/// Theme picks between plain text labels and Nerd Font glyphs.
#[derive(Debug, Clone, Copy, PartialEq, Eq, Structural)]
pub enum Theme {
    Plain,
    Nerd,
}

impl Theme {
    /// The label that introduces the five-hour session window.
    pub open spec fn sess_label(self) -> Seq<char> {
        match self {
            Theme::Plain => "Sess"@,
            Theme::Nerd => "\u{f2f2}"@,
        }
    }

    /// The label that introduces the five-hour session window.
    pub fn sess(self) -> (r: &'static str)
        ensures
            r@ == self.sess_label(),
    {
        match self {
            Theme::Plain => "Sess",
            Theme::Nerd => "\u{f2f2}",
        }
    }

    /// The label that introduces the seven-day window.
    pub open spec fn week_label(self) -> Seq<char> {
        match self {
            Theme::Plain => "Week"@,
            Theme::Nerd => "\u{f073}"@,
        }
    }

    /// The label that introduces the seven-day window.
    pub fn week(self) -> (r: &'static str)
        ensures
            r@ == self.week_label(),
    {
        match self {
            Theme::Plain => "Week",
            Theme::Nerd => "\u{f073}",
        }
    }

    /// The label that introduces the context-window segment.
    pub open spec fn ctx_label(self) -> Seq<char> {
        match self {
            Theme::Plain => "Ctx"@,
            Theme::Nerd => "\u{f2db}"@,
        }
    }

    /// The label that introduces the context-window segment.
    pub fn ctx(self) -> (r: &'static str)
        ensures
            r@ == self.ctx_label(),
    {
        match self {
            Theme::Plain => "Ctx",
            Theme::Nerd => "\u{f2db}",
        }
    }

    /// The label that introduces the weekly pace segment.
    pub open spec fn pace_label(self) -> Seq<char> {
        match self {
            Theme::Plain => "Pace"@,
            Theme::Nerd => "\u{f201}"@,
        }
    }

    /// The label that introduces the weekly pace segment.
    pub fn pace(self) -> (r: &'static str)
        ensures
            r@ == self.pace_label(),
    {
        match self {
            Theme::Plain => "Pace",
            Theme::Nerd => "\u{f201}",
        }
    }

    /// The label that introduces the working directory.
    pub open spec fn dir_label(self) -> Seq<char> {
        match self {
            Theme::Plain => ""@,
            Theme::Nerd => "\u{f07b} "@,
        }
    }

    /// The label that introduces the working directory.
    pub fn dir(self) -> (r: &'static str)
        ensures
            r@ == self.dir_label(),
    {
        match self {
            Theme::Plain => "",
            Theme::Nerd => "\u{f07b} ",
        }
    }

    /// The label that introduces the git branch.
    pub open spec fn branch_label(self) -> Seq<char> {
        match self {
            Theme::Plain => ""@,
            Theme::Nerd => "\u{e0a0} "@,
        }
    }

    /// The label that introduces the git branch.
    pub fn branch(self) -> (r: &'static str)
        ensures
            r@ == self.branch_label(),
    {
        match self {
            Theme::Plain => "",
            Theme::Nerd => "\u{e0a0} ",
        }
    }

    /// The label that introduces the session duration.
    pub open spec fn duration_label(self) -> Seq<char> {
        match self {
            Theme::Plain => ""@,
            Theme::Nerd => "\u{f017} "@,
        }
    }

    /// The label that introduces the session duration.
    pub fn duration(self) -> (r: &'static str)
        ensures
            r@ == self.duration_label(),
    {
        match self {
            Theme::Plain => "",
            Theme::Nerd => "\u{f017} ",
        }
    }
}

} // verus!
