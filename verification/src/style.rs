//! Emphasis in messages.

use vstd::prelude::*;

verus! {

/// A text between the escape sequences that turn bold print on and off.
pub open spec fn bold_text(s: Seq<char>) -> Seq<char> {
    "\x1b[1m"@ + s + "\x1b[0m"@
}

/// `OwoColorize::bold` of owo-colors, formatted with `{}`: the text stands between the escape
/// sequence for bold and the one for a reset, whatever the terminal supports.
#[verifier::external_body]
pub(crate) fn bold(s: &str) -> (out: String)
    ensures
        out@ == bold_text(s@),
{
    format!("{}", owo_colors::OwoColorize::bold(&s))
}

} // verus!
