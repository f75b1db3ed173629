//! The boundary to the `ansi_term` crate: bold coloured text for a terminal.

use vstd::prelude::*;

verus! {

/// The two colours in which notes are shown.
#[derive(Debug, Clone, Copy, PartialEq, Eq, Structural)]
pub enum Tint {
    /// For a note's name.
    Red,
    /// For the time of a note's last change.
    Blue,
}

/// The escape sequence that switches a terminal to bold text of a colour.
pub open spec fn bold_prefix(tint: Tint) -> Seq<char> {
    match tint {
        Tint::Red => seq!['\u{1b}', '[', '1', ';', '3', '1', 'm'],
        Tint::Blue => seq!['\u{1b}', '[', '1', ';', '3', '4', 'm'],
    }
}

/// The escape sequence that switches a terminal back to plain text.
pub open spec fn reset_suffix() -> Seq<char> {
    seq!['\u{1b}', '[', '0', 'm']
}

/// A text between the escape sequences that show it bold and coloured.
pub open spec fn painted(tint: Tint, text: Seq<char>) -> Seq<char> {
    bold_prefix(tint) + text + reset_suffix()
}

/// `Colour::bold`, `Style::paint` and the `Display` of the painted string:
/// the text with the style's escape sequence before it and the reset
/// sequence behind it, whatever the terminal.
#[verifier::external_body]
pub(crate) fn paint_bold(tint: Tint, text: &str) -> (shown: String)
    ensures
        shown@ == painted(tint, text@),
{
    let colour = match tint {
        Tint::Red => ansi_term::Colour::Red,
        Tint::Blue => ansi_term::Colour::Blue,
    };
    colour.bold().paint(text).to_string()
}

} // verus!
