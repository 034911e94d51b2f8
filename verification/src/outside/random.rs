//! Randomness: `fastrand` and `uuid`.

use vstd::prelude::*;

verus! {

/// `fastrand::u64`: some number below `bound`. Which one is left to chance.
#[verifier::external_body]
pub(crate) fn below(bound: u64) -> (r: u64)
    requires
        bound > 0,
    ensures
        r < bound,
{
    fastrand::u64(0..bound)
}

/// Whether a character is a lower-case hexadecimal digit.
pub open spec fn hex_digit(c: char) -> bool {
    '0' <= c <= '9' || 'a' <= c <= 'f'
}

/// Whether a text is a random (version 4) id in hyphenated form: groups of
/// eight, four, four, four and twelve lower-case hexadecimal digits, the
/// third of which begins with the version and the fourth with the variant.
pub open spec fn random_id(s: Seq<char>) -> bool {
    &&& s.len() == 36
    &&& forall|i: int|
        0 <= i < 36 ==> if i == 8 || i == 13 || i == 18 || i == 23 {
            #[trigger] s[i] == '-'
        } else {
            hex_digit(s[i])
        }
    &&& s[14] == '4'
    &&& s[19] == '8' || s[19] == '9' || s[19] == 'a' || s[19] == 'b'
}

/// `uuid::Uuid::new_v4` in hyphenated form. Which of the random ids it is is
/// left to chance.
#[verifier::external_body]
pub(crate) fn uuid_v4() -> (r: String)
    ensures
        random_id(r@),
{
    uuid::Uuid::new_v4().to_string()
}

} // verus!
