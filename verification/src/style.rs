//! Terminal styling of text. The escape sequences come from `owo_colors` and
//! `ansi_term`; each wrapper states the exact text that the crate writes.

use owo_colors::OwoColorize;
use vstd::prelude::*;
use crate::text::decimal;

verus! {

/// ANSI 256-colour codes used by the screen.
pub const CYAN: u8 = 51;
pub const GRAY_LIGHT: u8 = 238;
pub const GRAY_DARK: u8 = 245;
pub const WHITE: u8 = 15;
pub const BLACK: u8 = 16;
pub const RED: u8 = 124;
pub const GREEN: u8 = 154;
pub const ORANGE: u8 = 166;

/// The text that a wrapper of `owo_colors` writes: the opening sequence, the
/// text itself, the closing sequence.
pub open spec fn wrapped(open: Seq<char>, text: Seq<char>, close: Seq<char>) -> Seq<char> {
    open + text + close
}

/// `text.bold()` of `owo_colors`, written out.
pub open spec fn bold_text(text: Seq<char>) -> Seq<char> {
    wrapped("\x1b[1m"@, text, "\x1b[0m"@)
}

/// `text.dimmed()` of `owo_colors`, written out.
pub open spec fn dimmed_text(text: Seq<char>) -> Seq<char> {
    wrapped("\x1b[2m"@, text, "\x1b[0m"@)
}

/// `text.italic()` of `owo_colors`, written out.
pub open spec fn italic_text(text: Seq<char>) -> Seq<char> {
    wrapped("\x1b[3m"@, text, "\x1b[0m"@)
}

/// `text.blue()` of `owo_colors`, written out.
pub open spec fn blue_text(text: Seq<char>) -> Seq<char> {
    wrapped("\x1b[34m"@, text, "\x1b[39m"@)
}

/// `text.cyan()` of `owo_colors`, written out.
pub open spec fn cyan_text(text: Seq<char>) -> Seq<char> {
    wrapped("\x1b[36m"@, text, "\x1b[39m"@)
}

/// `text.white()` of `owo_colors`, written out.
pub open spec fn white_text(text: Seq<char>) -> Seq<char> {
    wrapped("\x1b[37m"@, text, "\x1b[39m"@)
}

/// A bold text in one of the 256 fixed colours, as `ansi_term` writes it.
pub open spec fn bold_fixed_text(color: u8, text: Seq<char>) -> Seq<char> {
    "\x1b[1;38;5;"@ + decimal(color as nat) + "m"@ + text + "\x1b[0m"@
}

/// Calls `OwoColorize::bold` and formats the result: owo_colors writes
/// `ESC[1m`, the text, and `ESC[0m`.
#[verifier::external_body]
pub fn paint_bold(text: &str) -> (r: String)
    ensures
        r@ == bold_text(text@),
{
    format!("{}", text.bold())
}

/// Calls `OwoColorize::dimmed` and formats the result: owo_colors writes
/// `ESC[2m`, the text, and `ESC[0m`.
#[verifier::external_body]
pub fn paint_dimmed(text: &str) -> (r: String)
    ensures
        r@ == dimmed_text(text@),
{
    format!("{}", text.dimmed())
}

/// Calls `OwoColorize::italic` and formats the result: owo_colors writes
/// `ESC[3m`, the text, and `ESC[0m`.
#[verifier::external_body]
pub fn paint_italic(text: &str) -> (r: String)
    ensures
        r@ == italic_text(text@),
{
    format!("{}", text.italic())
}

/// Calls `OwoColorize::blue` and formats the result: owo_colors writes
/// `ESC[34m`, the text, and `ESC[39m`.
#[verifier::external_body]
pub fn paint_blue(text: &str) -> (r: String)
    ensures
        r@ == blue_text(text@),
{
    format!("{}", text.blue())
}

/// Calls `OwoColorize::cyan` and formats the result: owo_colors writes
/// `ESC[36m`, the text, and `ESC[39m`.
#[verifier::external_body]
pub fn paint_cyan(text: &str) -> (r: String)
    ensures
        r@ == cyan_text(text@),
{
    format!("{}", text.cyan())
}

/// Calls `OwoColorize::white` and formats the result: owo_colors writes
/// `ESC[37m`, the text, and `ESC[39m`.
#[verifier::external_body]
pub fn paint_white(text: &str) -> (r: String)
    ensures
        r@ == white_text(text@),
{
    format!("{}", text.white())
}

/// Paints `text` bold in the fixed colour `color` with `ansi_term`
/// (`Style::new().fg(Fixed(color)).bold().paint(text)`), which writes
/// `ESC[1;38;5;<color>m`, the text, and `ESC[0m`.
#[verifier::external_body]
pub fn color_bold(color: u8, text: &str) -> (r: String)
    ensures
        r@ == bold_fixed_text(color, text@),
{
    format!("{}", ansi_term::Style::new().fg(ansi_term::Colour::Fixed(color)).bold().paint(text))
}

} // verus!
