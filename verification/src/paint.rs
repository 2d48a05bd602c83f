//! Colours and styles for diagnostics, as ANSI escape sequences.

use vstd::prelude::*;
use crate::text::decimal;

verus! {

/// Whether the text opens with an escape sequence.
pub open spec fn opens_escape(text: Seq<char>) -> bool {
    text.len() >= 2 && text[0] == '\x1b' && text[1] == '['
}

/// Whether `painted` is `text` with the attribute `code` put on: a text
/// that opens with an escape sequence gets the code in front of the codes
/// of that sequence; any other text gets the sequence of the code in front
/// and, behind it, the sequence that sets the colours of foreground and
/// background back to those chosen for the thread.
pub open spec fn wears(code: nat, text: Seq<char>, painted: Seq<char>) -> bool {
    if opens_escape(text) {
        painted == "\x1b["@ + decimal(code) + ";"@ + text.skip(2)
    } else {
        exists|fg: nat, bg: nat|
            painted == "\x1b["@ + decimal(code) + "m"@ + text + "\x1b[0;"@ + #[trigger] decimal(fg)
                + ";"@ + #[trigger] decimal(bg) + "m"@
    }
}

/// `AnsiColor::bold` of the crate `colorize`: the text with the style 1.
#[verifier::external_body]
pub(crate) fn bold(text: String) -> (r: String)
    ensures
        wears(1, text@, r@),
{
    colorize::AnsiColor::bold(text)
}

/// `AnsiColor::yellow` of the crate `colorize`: the text with the
/// foreground colour 33.
#[verifier::external_body]
pub(crate) fn yellow(text: String) -> (r: String)
    ensures
        wears(33, text@, r@),
{
    colorize::AnsiColor::yellow(text)
}

/// `AnsiColor::b_black` of the crate `colorize`: the text with the
/// foreground colour 90.
#[verifier::external_body]
pub(crate) fn bright_black(text: String) -> (r: String)
    ensures
        wears(90, text@, r@),
{
    colorize::AnsiColor::b_black(text)
}

/// `AnsiColor::b_red` of the crate `colorize`: the text with the
/// foreground colour 91.
#[verifier::external_body]
pub(crate) fn bright_red(text: String) -> (r: String)
    ensures
        wears(91, text@, r@),
{
    colorize::AnsiColor::b_red(text)
}

/// `AnsiColor::b_yellow` of the crate `colorize`: the text with the
/// foreground colour 93.
#[verifier::external_body]
pub(crate) fn bright_yellow(text: String) -> (r: String)
    ensures
        wears(93, text@, r@),
{
    colorize::AnsiColor::b_yellow(text)
}

/// `AnsiColor::b_cyan` of the crate `colorize`: the text with the
/// foreground colour 96.
#[verifier::external_body]
pub(crate) fn bright_cyan(text: String) -> (r: String)
    ensures
        wears(96, text@, r@),
{
    colorize::AnsiColor::b_cyan(text)
}

/// `AnsiColor::b_grey` of the crate `colorize`: the text with the
/// foreground colour 97.
#[verifier::external_body]
pub(crate) fn bright_grey(text: String) -> (r: String)
    ensures
        wears(97, text@, r@),
{
    colorize::AnsiColor::b_grey(text)
}

/// Whether `painted` is `text` in bold and with the colour `code`.
pub open spec fn wears_bold(code: nat, text: Seq<char>, painted: Seq<char>) -> bool {
    exists|mid: Seq<char>| #[trigger] wears(1, text, mid) && wears(code, mid, painted)
}

/// The text in bold and bright black.
pub fn bold_bright_black(text: String) -> (r: String)
    ensures
        wears_bold(90, text@, r@),
{
    let mid = bold(text);
    assert(wears(1, text@, mid@));
    bright_black(mid)
}

/// The text in bold and bright red.
pub fn bold_bright_red(text: String) -> (r: String)
    ensures
        wears_bold(91, text@, r@),
{
    let mid = bold(text);
    assert(wears(1, text@, mid@));
    bright_red(mid)
}

/// The text in bold and bright yellow.
pub fn bold_bright_yellow(text: String) -> (r: String)
    ensures
        wears_bold(93, text@, r@),
{
    let mid = bold(text);
    assert(wears(1, text@, mid@));
    bright_yellow(mid)
}

/// The text in bold and bright cyan.
pub fn bold_bright_cyan(text: String) -> (r: String)
    ensures
        wears_bold(96, text@, r@),
{
    let mid = bold(text);
    assert(wears(1, text@, mid@));
    bright_cyan(mid)
}

/// The text in bold and bright grey.
pub fn bold_bright_grey(text: String) -> (r: String)
    ensures
        wears_bold(97, text@, r@),
{
    let mid = bold(text);
    assert(wears(1, text@, mid@));
    bright_grey(mid)
}

} // verus!
