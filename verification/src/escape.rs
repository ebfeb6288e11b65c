//! Terminal styling directives, as the terminal library emits them.
//!
//! Every function here is a thin trusted wrapper: its contract repeats the
//! escape sequence that the terminal library's source spells out for the
//! item it calls, and nothing is proved about it.

use vstd::prelude::*;
use crate::text::decimal;

verus! {

/// Foreground reset. Trusted: `termion::color::Reset::fg_str`, whose source
/// returns the sequence `ESC [ 39 m`.
#[verifier::external_body]
pub(crate) fn fg_reset() -> (s: &'static str)
    ensures
        s@ == "\x1b[39m"@,
{
    termion::color::Reset.fg_str()
}

/// Foreground black. Trusted: `termion::color::Black::fg_str`, whose source
/// returns `ESC [ 38;5;0 m`.
#[verifier::external_body]
pub(crate) fn fg_black() -> (s: &'static str)
    ensures
        s@ == "\x1b[38;5;0m"@,
{
    termion::color::Black.fg_str()
}

/// Foreground red. Trusted: `termion::color::Red::fg_str`, whose source
/// returns `ESC [ 38;5;1 m`.
#[verifier::external_body]
pub(crate) fn fg_red() -> (s: &'static str)
    ensures
        s@ == "\x1b[38;5;1m"@,
{
    termion::color::Red.fg_str()
}

/// Foreground yellow. Trusted: `termion::color::Yellow::fg_str`, whose source
/// returns `ESC [ 38;5;3 m`.
#[verifier::external_body]
pub(crate) fn fg_yellow() -> (s: &'static str)
    ensures
        s@ == "\x1b[38;5;3m"@,
{
    termion::color::Yellow.fg_str()
}

/// Foreground blue. Trusted: `termion::color::Blue::fg_str`, whose source
/// returns `ESC [ 38;5;4 m`.
#[verifier::external_body]
pub(crate) fn fg_blue() -> (s: &'static str)
    ensures
        s@ == "\x1b[38;5;4m"@,
{
    termion::color::Blue.fg_str()
}

/// Foreground magenta. Trusted: `termion::color::Magenta::fg_str`, whose
/// source returns `ESC [ 38;5;5 m`.
#[verifier::external_body]
pub(crate) fn fg_magenta() -> (s: &'static str)
    ensures
        s@ == "\x1b[38;5;5m"@,
{
    termion::color::Magenta.fg_str()
}

/// Background reset. Trusted: `termion::color::Reset::bg_str`, whose source
/// returns `ESC [ 49 m`.
#[verifier::external_body]
pub(crate) fn bg_reset() -> (s: &'static str)
    ensures
        s@ == "\x1b[49m"@,
{
    termion::color::Reset.bg_str()
}

/// Background yellow. Trusted: `termion::color::Yellow::bg_str`, whose source
/// returns `ESC [ 48;5;3 m`.
#[verifier::external_body]
pub(crate) fn bg_yellow() -> (s: &'static str)
    ensures
        s@ == "\x1b[48;5;3m"@,
{
    termion::color::Yellow.bg_str()
}

/// Bold text. Trusted: `AsRef<str>` of `termion::style::Bold`, whose source
/// returns `ESC [ 1 m`.
#[verifier::external_body]
pub(crate) fn style_bold() -> (s: &'static str)
    ensures
        s@ == "\x1b[1m"@,
{
    termion::style::Bold.as_ref()
}

/// Reset of all text attributes. Trusted: `AsRef<str>` of
/// `termion::style::Reset`, whose source returns `ESC [ m`.
#[verifier::external_body]
pub(crate) fn style_reset() -> (s: &'static str)
    ensures
        s@ == "\x1b[m"@,
{
    termion::style::Reset.as_ref()
}

/// Inverted colours. Trusted: `AsRef<str>` of `termion::style::Invert`, whose
/// source returns `ESC [ 7 m`.
#[verifier::external_body]
pub(crate) fn style_invert() -> (s: &'static str)
    ensures
        s@ == "\x1b[7m"@,
{
    termion::style::Invert.as_ref()
}

/// End of inverted colours. Trusted: `AsRef<str>` of
/// `termion::style::NoInvert`, whose source returns `ESC [ 27 m`.
#[verifier::external_body]
pub(crate) fn style_no_invert() -> (s: &'static str)
    ensures
        s@ == "\x1b[27m"@,
{
    termion::style::NoInvert.as_ref()
}

/// The directive that places the cursor at column `x` of line `y`, both
/// counted from one.
pub open spec fn goto_text(x: nat, y: nat) -> Seq<char> {
    "\x1b["@ + decimal(y) + ";"@ + decimal(x) + "H"@
}

/// Cursor placement. Trusted: the `Display` of `termion::cursor::Goto`, whose
/// source writes `ESC [`, the line, `;`, the column and `H`, both numbers in
/// decimal; it asserts that the position is not `(0, 0)`.
#[verifier::external_body]
pub(crate) fn cursor_goto(x: u16, y: u16) -> (s: String)
    requires
        x >= 1,
        y >= 1,
    ensures
        s@ == goto_text(x as nat, y as nat),
{
    format!("{}", termion::cursor::Goto(x, y))
}

} // verus!
