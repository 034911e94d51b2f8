//! HTTP status lines: `reqwest::StatusCode`.

use vstd::prelude::*;

use crate::text;

verus! {

/// How a status code displays: the number and its canonical reason.
pub uninterp spec fn status_line(code: u16) -> Option<Seq<char>>;

/// `reqwest::StatusCode::from_u16` and its display text; none when the
/// number is no status code, that is outside 100 to 999.
#[verifier::external_body]
pub(crate) fn status_line_of(code: u16) -> (r: Option<String>)
    ensures
        text::text_opt(r) == status_line(code),
        r is Some <==> 100 <= code <= 999,
{
    reqwest::StatusCode::from_u16(code).ok().map(|s| s.to_string())
}

} // verus!
