//! Errors of parsing numbers: `str::parse`.

use vstd::prelude::*;

use crate::number;
use crate::text;

verus! {

/// How the error of parsing a `u64` displays; none when the text parses.
pub uninterp spec fn u64_fault(s: Seq<char>) -> Option<Seq<char>>;

/// `str::parse::<u64>`: how its error displays, or nothing when the text is
/// digits, one leading plus sign allowed, within range.
#[verifier::external_body]
pub(crate) fn u64_fault_of(s: &str) -> (r: Option<String>)
    ensures
        text::text_opt(r) == u64_fault(s@),
        r is None <==> number::parsed_unsigned(s@, u64::MAX as nat) is Some,
{
    s.parse::<u64>().err().map(|e| e.to_string())
}

} // verus!
