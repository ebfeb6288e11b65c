//! Character classifications and their colours.

use vstd::prelude::*;
use crate::escape::{bg_reset, bg_yellow, fg_black, fg_magenta, fg_red, fg_reset, fg_yellow};

verus! {

/// The classification of one rendered character.
#[derive(Clone, Copy, Debug, PartialEq, Eq, Structural)]
pub enum Highlight {
    Normal,
    Number,
    Type,
    Keyword,
    Match,
}

impl Highlight {
    /// The directive that selects this classification's foreground colour.
    pub open spec fn color_text(self) -> Seq<char> {
        match self {
            Highlight::Normal => "\x1b[39m"@,
            Highlight::Number => "\x1b[38;5;1m"@,
            Highlight::Type => "\x1b[38;5;3m"@,
            Highlight::Keyword => "\x1b[38;5;5m"@,
            Highlight::Match => "\x1b[38;5;0m"@,
        }
    }

    /// The directive that selects this classification's background colour.
    pub open spec fn background_text(self) -> Seq<char> {
        match self {
            Highlight::Match => "\x1b[48;5;3m"@,
            _ => "\x1b[49m"@,
        }
    }

    /// Foreground colour: the terminal default for normal text, red for
    /// numbers, yellow for types, magenta for keywords, black for search
    /// matches.
    pub fn to_color(&self) -> (s: &'static str)
        ensures
            s@ == self.color_text(),
    {
        match self {
            Highlight::Normal => fg_reset(),
            Highlight::Number => fg_red(),
            Highlight::Type => fg_yellow(),
            Highlight::Keyword => fg_magenta(),
            Highlight::Match => fg_black(),
        }
    }

    /// Background colour: yellow for search matches, the terminal default
    /// otherwise.
    pub fn to_background(&self) -> (s: &'static str)
        ensures
            s@ == self.background_text(),
    {
        match self {
            Highlight::Normal => bg_reset(),
            Highlight::Match => bg_yellow(),
            _ => bg_reset(),
        }
    }
}

} // verus!
