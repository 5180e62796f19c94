//! The two operations on text that the renderer takes from the standard
//! library without proof.

use vstd::prelude::*;

verus! {

/// `String::push` appends the given character to the end of the string.
pub assume_specification[ String::push ](s: &mut String, c: char)
    ensures
        final(s)@ == old(s)@.push(c),
;

/// The text that the standard library's `Debug` formatting gives for a
/// string: the string between double quotes, with the characters that cannot
/// stand there as they are written as escapes.
pub uninterp spec fn debug_quoted(text: Seq<char>) -> Seq<char>;

/// Formats `text` with `{:?}`. Nothing is proved of the outcome: the contract
/// only gives it its name, `debug_quoted`.
#[verifier::external_body]
pub(crate) fn debug_format(text: &str) -> (quoted: String)
    ensures
        quoted@ == debug_quoted(text@),
{
    format!("{:?}", text)
}

} // verus!
