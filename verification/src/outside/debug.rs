//! Debug formatting of text.

use vstd::prelude::*;

verus! {

/// The text between double quotes, escaped as `{:?}` escapes it.
pub uninterp spec fn debug_quoted(s: Seq<char>) -> Seq<char>;

/// `{:?}` on a `str`: the text quoted and escaped, a function of the text
/// alone.
#[verifier::external_body]
pub(crate) fn quoted(s: &str) -> (r: String)
    ensures
        r@ == debug_quoted(s@),
{
    format!("{s:?}")
}

} // verus!
