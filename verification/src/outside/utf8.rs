//! Decoding UTF-8: `String::from_utf8` and `String::from_utf8_lossy`.

use vstd::prelude::*;

verus! {

/// How the error of `String::from_utf8` displays; none for valid bytes.
pub uninterp spec fn utf8_fault(bytes: Seq<u8>) -> Option<Seq<char>>;

/// `String::from_utf8`: the text that the bytes encode, or how the error
/// displays when they are not valid UTF-8.
#[verifier::external_body]
pub(crate) fn decode(bytes: Vec<u8>) -> (r: Result<String, String>)
    ensures
        match r {
            Ok(s) => utf8_fault(bytes@) is None && vstd::utf8::encode_utf8(s@) == bytes@,
            Err(e) => utf8_fault(bytes@) == Some(e@) && !vstd::utf8::valid_utf8(bytes@),
        },
{
    String::from_utf8(bytes).map_err(|e| e.to_string())
}

/// The text of the bytes with every invalid part replaced.
pub uninterp spec fn utf8_lossy(bytes: Seq<u8>) -> Seq<char>;

/// `String::from_utf8_lossy`: the text of the bytes, invalid parts replaced.
/// Valid bytes give the text that they encode.
#[verifier::external_body]
pub(crate) fn decode_lossy(bytes: &[u8]) -> (r: String)
    ensures
        r@ == utf8_lossy(bytes@),
        vstd::utf8::valid_utf8(bytes@) ==> vstd::utf8::encode_utf8(r@) == bytes@,
{
    String::from_utf8_lossy(bytes).into_owned()
}

} // verus!
