//! Colours and text styles as terminal escape sequences, and the palette of
//! the editor.
use vstd::prelude::*;
use vstd::string::StringExecFns;
use termion::color;
use termion::style;
use crate::text::decimal_digits;

verus! {

/// Columns of a tab stop: a tab key inserts this many spaces.
pub const TAB_WIDTH: usize = 4;

/// The version shown on the welcome screen.
pub const VERSION: &'static str = "0.2.0";

/// The sequence that selects a true-colour foreground.
pub open spec fn fg_rgb_code(r: u8, g: u8, b: u8) -> Seq<char> {
    "\x1b[38;2;"@ + decimal_digits(r as nat) + ";"@ + decimal_digits(g as nat) + ";"@
        + decimal_digits(b as nat) + "m"@
}

/// The sequence that selects a true-colour background.
pub open spec fn bg_rgb_code(r: u8, g: u8, b: u8) -> Seq<char> {
    "\x1b[48;2;"@ + decimal_digits(r as nat) + ";"@ + decimal_digits(g as nat) + ";"@
        + decimal_digits(b as nat) + "m"@
}

/// Background of the text area.
pub open spec fn bg_code() -> Seq<char> {
    bg_rgb_code(41, 41, 61)
}

/// Background of the status line.
pub open spec fn status_bg_code() -> Seq<char> {
    bg_rgb_code(59, 59, 84)
}

/// Foreground of ordinary text.
pub open spec fn fg_code() -> Seq<char> {
    fg_rgb_code(255, 255, 255)
}

/// Foreground of the status line.
pub open spec fn status_fg_code() -> Seq<char> {
    fg_rgb_code(35, 240, 144)
}

/// Foreground of line numbers and filler rows.
pub open spec fn line_number_fg_code() -> Seq<char> {
    fg_rgb_code(73, 73, 110)
}

/// Back to the terminal's own foreground.
pub open spec fn reset_fg_code() -> Seq<char> {
    "\x1b[39m"@
}

/// Back to the terminal's own background.
pub open spec fn reset_bg_code() -> Seq<char> {
    "\x1b[49m"@
}

/// Foreground of an error message.
pub open spec fn red_code() -> Seq<char> {
    "\x1b[38;5;1m"@
}

/// Foreground of a warning.
pub open spec fn yellow_code() -> Seq<char> {
    "\x1b[38;5;3m"@
}

/// Bold text.
pub open spec fn bold_code() -> Seq<char> {
    "\x1b[1m"@
}

/// All styles off.
pub open spec fn reset_style_code() -> Seq<char> {
    "\x1b[m"@
}

/// Formats `termion::color::Fg` of `termion::color::Rgb`: the true-colour
/// foreground introducer, then the three components in decimal, separated by
/// semicolons and closed by `m`.
#[verifier::external_body]
fn fg_rgb(r: u8, g: u8, b: u8) -> (s: String)
    ensures
        s@ == fg_rgb_code(r, g, b),
{
    format!("{}", color::Fg(color::Rgb(r, g, b)))
}

/// Formats `termion::color::Bg` of `termion::color::Rgb`: as the foreground
/// sequence, with the background introducer.
#[verifier::external_body]
fn bg_rgb(r: u8, g: u8, b: u8) -> (s: String)
    ensures
        s@ == bg_rgb_code(r, g, b),
{
    format!("{}", color::Bg(color::Rgb(r, g, b)))
}

/// Formats `termion::color::Fg` of `termion::color::Reset`, a fixed sequence.
#[verifier::external_body]
fn fg_reset() -> (s: String)
    ensures
        s@ == reset_fg_code(),
{
    format!("{}", color::Fg(color::Reset))
}

/// Formats `termion::color::Bg` of `termion::color::Reset`, a fixed sequence.
#[verifier::external_body]
fn bg_reset() -> (s: String)
    ensures
        s@ == reset_bg_code(),
{
    format!("{}", color::Bg(color::Reset))
}

/// Formats `termion::color::Fg` of `termion::color::Red`: palette entry one.
#[verifier::external_body]
fn fg_red() -> (s: String)
    ensures
        s@ == red_code(),
{
    format!("{}", color::Fg(color::Red))
}

/// Formats `termion::color::Fg` of `termion::color::Yellow`: palette entry
/// three.
#[verifier::external_body]
fn fg_yellow() -> (s: String)
    ensures
        s@ == yellow_code(),
{
    format!("{}", color::Fg(color::Yellow))
}

/// Formats `termion::style::Bold`, a fixed sequence.
#[verifier::external_body]
fn style_bold() -> (s: String)
    ensures
        s@ == bold_code(),
{
    format!("{}", style::Bold)
}

/// Formats `termion::style::Reset`, a fixed sequence.
#[verifier::external_body]
fn style_reset() -> (s: String)
    ensures
        s@ == reset_style_code(),
{
    format!("{}", style::Reset)
}

/// A colour or style of the editor's palette.
#[derive(Clone, Copy, Debug, PartialEq, Eq, Structural)]
pub enum Paint {
    Bg,
    StatusBg,
    ResetBg,
    Fg,
    StatusFg,
    LineNumberFg,
    ResetFg,
    Red,
    Yellow,
    Bold,
    ResetStyle,
}

impl Paint {
    /// The escape sequence that switches the terminal to this paint.
    pub open spec fn code(self) -> Seq<char> {
        match self {
            Paint::Bg => bg_code(),
            Paint::StatusBg => status_bg_code(),
            Paint::ResetBg => reset_bg_code(),
            Paint::Fg => fg_code(),
            Paint::StatusFg => status_fg_code(),
            Paint::LineNumberFg => line_number_fg_code(),
            Paint::ResetFg => reset_fg_code(),
            Paint::Red => red_code(),
            Paint::Yellow => yellow_code(),
            Paint::Bold => bold_code(),
            Paint::ResetStyle => reset_style_code(),
        }
    }

    /// The escape sequence as a string.
    pub fn sequence(self) -> (s: String)
        ensures
            s@ == self.code(),
    {
        match self {
            Paint::Bg => bg_rgb(41, 41, 61),
            Paint::StatusBg => bg_rgb(59, 59, 84),
            Paint::ResetBg => bg_reset(),
            Paint::Fg => fg_rgb(255, 255, 255),
            Paint::StatusFg => fg_rgb(35, 240, 144),
            Paint::LineNumberFg => fg_rgb(73, 73, 110),
            Paint::ResetFg => fg_reset(),
            Paint::Red => fg_red(),
            Paint::Yellow => fg_yellow(),
            Paint::Bold => style_bold(),
            Paint::ResetStyle => style_reset(),
        }
    }
}

/// Appends the escape sequence of `paint` to `out`.
pub fn push_paint(out: &mut String, paint: Paint)
    ensures
        final(out)@ == old(out)@ + paint.code(),
{
    let s = paint.sequence();
    out.append(s.as_str());
}

} // verus!
