//! Decoded input events and editing modes.

use vstd::prelude::*;
use crate::escape::{fg_blue, fg_red, fg_reset, fg_yellow};
use crate::text::append_str;

verus! {

/// One decoded key event.
#[derive(Clone, Copy, Debug, PartialEq, Eq, Structural)]
pub enum Key {
    /// A printable character, a newline or a tab.
    Char(char),
    /// A character typed with the control key held.
    Ctrl(char),
    Esc,
    Backspace,
    Delete,
    Up,
    Down,
    Left,
    Right,
    /// Any other key; it has no effect.
    Other,
}

impl Key {
    /// Whether this is one of the four directional keys.
    pub open spec fn is_arrow(self) -> bool {
        self == Key::Up || self == Key::Down || self == Key::Left || self == Key::Right
    }
}

/// The editing mode, shown in the status line.
#[derive(Clone, Copy, Debug, PartialEq, Eq, Structural)]
pub enum Mode {
    Normal,
    Insert,
    Visual,
}

impl Mode {
    /// The name of the mode.
    pub open spec fn name_text(self) -> Seq<char> {
        match self {
            Mode::Normal => "Normal"@,
            Mode::Insert => "Insert"@,
            Mode::Visual => "Visual"@,
        }
    }

    /// The directive for the colour that the mode is shown in: yellow for
    /// normal, blue for insert, red for visual.
    pub open spec fn color_text(self) -> Seq<char> {
        match self {
            Mode::Normal => "\x1b[38;5;3m"@,
            Mode::Insert => "\x1b[38;5;4m"@,
            Mode::Visual => "\x1b[38;5;1m"@,
        }
    }

    /// The mode as the status line shows it: its colour, its name, a space,
    /// and a return to the default colour.
    pub open spec fn label_text(self) -> Seq<char> {
        self.color_text() + self.name_text() + " "@ + "\x1b[39m"@
    }

    /// Appends the mode, as the status line shows it, to `buffer`.
    pub fn write_label(&self, buffer: &mut Vec<char>)
        ensures
            final(buffer)@ == old(buffer)@ + self.label_text(),
    {
        match self {
            Mode::Normal => {
                append_str(buffer, fg_yellow());
                append_str(buffer, "Normal");
            },
            Mode::Insert => {
                append_str(buffer, fg_blue());
                append_str(buffer, "Insert");
            },
            Mode::Visual => {
                append_str(buffer, fg_red());
                append_str(buffer, "Visual");
            },
        }
        append_str(buffer, " ");
        append_str(buffer, fg_reset());
        proof {
            assert(buffer@ =~= old(buffer)@ + self.label_text());
        }
    }

    /// The mode as the status line shows it.
    pub fn label(&self) -> (s: String)
        ensures
            s@ == self.label_text(),
    {
        let mut buffer: Vec<char> = Vec::new();
        self.write_label(&mut buffer);
        crate::text::string_of(&buffer)
    }
}

} // verus!
