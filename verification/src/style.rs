//! Colours and font styles for terminal output.
//!
//! Whether the terminal gets escape sequences at all is decided outside this
//! library, from the environment of the process, so each function here may
//! hand back the text as it is or the text between escape sequences.

use colored::Colorize;
use vstd::prelude::*;

verus! {

/// The escape character that starts a control sequence.
pub open spec fn escape() -> char {
    '\u{1b}'
}

/// The control sequence that selects the graphic rendition `code`.
pub open spec fn sequence(code: Seq<char>) -> Seq<char> {
    seq![escape(), '['] + code + seq!['m']
}

/// `text` between the sequence for `code` and the one that resets the
/// rendition.
pub open spec fn wrapped(text: Seq<char>, code: Seq<char>) -> Seq<char> {
    sequence(code) + text + sequence(seq!['0'])
}

/// `out` is a rendering of `text` in the rendition `code`: the text itself
/// where styling is switched off, else the wrapped text. Of a text that
/// holds an escape character itself, nothing more is said.
pub open spec fn styled(text: Seq<char>, code: Seq<char>, out: Seq<char>) -> bool {
    out == text || (!text.contains(escape()) ==> out == wrapped(text, code))
}

/// The code for red text.
pub open spec fn red_code() -> Seq<char> {
    seq!['3', '1']
}

/// The code for green text.
pub open spec fn green_code() -> Seq<char> {
    seq!['3', '2']
}

/// The code for italic text.
pub open spec fn italic_code() -> Seq<char> {
    seq!['3']
}

/// The code for bold italic text.
pub open spec fn bold_italic_code() -> Seq<char> {
    seq!['1', ';', '3']
}

/// Calls `colored::Colorize::red` on `text` and formats the result. The
/// contract claims that this gives the text unchanged or, for a text free of
/// escape characters, the text between `ESC [ 3 1 m` and `ESC [ 0 m`.
#[verifier::external_body]
pub(crate) fn red(text: &str) -> (out: String)
    ensures
        styled(text@, red_code(), out@),
{
    text.red().to_string()
}

/// Calls `colored::Colorize::green` on `text` and formats the result. The
/// contract claims that this gives the text unchanged or, for a text free of
/// escape characters, the text between `ESC [ 3 2 m` and `ESC [ 0 m`.
#[verifier::external_body]
pub(crate) fn green(text: &str) -> (out: String)
    ensures
        styled(text@, green_code(), out@),
{
    text.green().to_string()
}

/// Calls `colored::Colorize::italic` on `text` and formats the result. The
/// contract claims that this gives the text unchanged or, for a text free of
/// escape characters, the text between `ESC [ 3 m` and `ESC [ 0 m`.
#[verifier::external_body]
pub(crate) fn italic(text: &str) -> (out: String)
    ensures
        styled(text@, italic_code(), out@),
{
    text.italic().to_string()
}

/// Calls `colored::Colorize::bold` on `text`, then `italic` on what that
/// gives, and formats the result. The contract claims that this gives the
/// text unchanged or, for a text free of escape characters, the text between
/// `ESC [ 1 ; 3 m` and `ESC [ 0 m`.
#[verifier::external_body]
pub(crate) fn bold_italic(text: &str) -> (out: String)
    ensures
        styled(text@, bold_italic_code(), out@),
{
    text.bold().italic().to_string()
}

} // verus!
