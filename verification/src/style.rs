//! Terminal styling of header lines.
//!
//! Header lines are emphasised in bold yellow. The escape sequences the
//! styling engine emits are fixed, so a styled line is the plain line
//! between two constant markers, stated exactly by [`bold_yellow`].

use owo_colors::OwoColorize;
use vstd::prelude::*;

verus! {

/// The escape characters that switch bold and yellow on: `ESC[1mESC[33m`.
pub open spec fn style_on() -> Seq<char> {
    seq!['\u{1b}', '[', '1', 'm', '\u{1b}', '[', '3', '3', 'm']
}

/// The escape characters that switch them off again: `ESC[39mESC[0m`.
pub open spec fn style_off() -> Seq<char> {
    seq!['\u{1b}', '[', '3', '9', 'm', '\u{1b}', '[', '0', 'm']
}

/// `s` rendered in bold yellow: the text itself between the two fixed
/// escape markers.
pub open spec fn bold_yellow(s: Seq<char>) -> Seq<char> {
    style_on() + s + style_off()
}

/// `s` styled when `use_color` asks for it, `s` itself otherwise.
pub open spec fn styled_if(use_color: bool, s: Seq<char>) -> Seq<char> {
    if use_color {
        bold_yellow(s)
    } else {
        s
    }
}

/// Relies on `owo_colors::OwoColorize::yellow` and `::bold`: their
/// `Display` impls write the fixed sequences `ESC[1m` and `ESC[33m`
/// before the wrapped text and `ESC[39m` and `ESC[0m` after it, passing
/// the text itself through unchanged.
#[verifier::external_body]
pub(crate) fn style_bold_yellow(s: &str) -> (r: String)
    ensures
        r@ == bold_yellow(s@),
{
    s.yellow().bold().to_string()
}

} // verus!
