//! The control sequences that the picker sends to the terminal. They come
//! from `termion`; each function here states the text that `termion` prints
//! for one of them. These statements are taken on trust from `termion`'s
//! source, not proved.

use vstd::prelude::*;

verus! {

/// The character that stands for the digit `d`.
pub open spec fn digit(d: nat) -> char
    recommends
        d < 10,
{
    seq!['0', '1', '2', '3', '4', '5', '6', '7', '8', '9'][d as int]
}

/// `n` in decimal, without leading zeros.
pub open spec fn decimal(n: nat) -> Seq<char>
    decreases n,
{
    if n < 10 {
        seq![digit(n)]
    } else {
        decimal(n / 10).push(digit(n % 10))
    }
}

/// The sequence that hides the cursor.
pub open spec fn hide_cursor_text() -> Seq<char> {
    "\x1B[?25l"@
}

/// The sequence that shows the cursor again.
pub open spec fn show_cursor_text() -> Seq<char> {
    "\x1B[?25h"@
}

/// The sequence that moves the cursor up by `rows` lines.
pub open spec fn cursor_up_text(rows: u16) -> Seq<char> {
    "\x1B["@ + decimal(rows as nat) + "A"@
}

/// The sequence that clears the line the cursor is on.
pub open spec fn clear_line_text() -> Seq<char> {
    "\x1B[2K"@
}

/// The sequence that turns bold text on.
pub open spec fn bold_text() -> Seq<char> {
    "\x1B[1m"@
}

/// The sequence that resets colour and style.
pub open spec fn reset_text() -> Seq<char> {
    "\x1B[m"@
}

/// The sequence that sets the text colour to green.
pub open spec fn green_text() -> Seq<char> {
    "\x1B[38;5;2m"@
}

/// Prints `termion::cursor::Hide`, which `termion` defines as the escape
/// character followed by `[?25l`.
#[verifier::external_body]
pub(crate) fn hide_cursor() -> (text: String)
    ensures
        text@ == hide_cursor_text(),
{
    format!("{}", termion::cursor::Hide)
}

/// Prints `termion::cursor::Show`, which `termion` defines as the escape
/// character followed by `[?25h`.
#[verifier::external_body]
pub(crate) fn show_cursor() -> (text: String)
    ensures
        text@ == show_cursor_text(),
{
    format!("{}", termion::cursor::Show)
}

/// Prints `termion::cursor::Up(rows)`: the escape character, `[`, the
/// number of rows in decimal, and `A`. A count of zero is printed as `0`.
#[verifier::external_body]
pub(crate) fn cursor_up(rows: u16) -> (text: String)
    ensures
        text@ == cursor_up_text(rows),
{
    format!("{}", termion::cursor::Up(rows))
}

/// Prints `termion::clear::CurrentLine`, which `termion` defines as the
/// escape character followed by `[2K`.
#[verifier::external_body]
pub(crate) fn clear_line() -> (text: String)
    ensures
        text@ == clear_line_text(),
{
    format!("{}", termion::clear::CurrentLine)
}

/// Prints `termion::style::Bold`, which `termion` defines as the escape
/// character followed by `[1m`.
#[verifier::external_body]
pub(crate) fn bold() -> (text: String)
    ensures
        text@ == bold_text(),
{
    format!("{}", termion::style::Bold)
}

/// Prints `termion::style::Reset`, which `termion` defines as the escape
/// character followed by `[m`.
#[verifier::external_body]
pub(crate) fn reset() -> (text: String)
    ensures
        text@ == reset_text(),
{
    format!("{}", termion::style::Reset)
}

/// Prints `termion::color::Fg(termion::color::Green)`: the foreground
/// sequence of colour 2, the escape character followed by `[38;5;2m`.
#[verifier::external_body]
pub(crate) fn green() -> (text: String)
    ensures
        text@ == green_text(),
{
    format!("{}", termion::color::Fg(termion::color::Green))
}

} // verus!
