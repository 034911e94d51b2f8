//! Message digests: `sha2` and `blake3`.

use sha2::Digest;
use vstd::prelude::*;

verus! {

/// The SHA-256 digest of a byte string.
pub uninterp spec fn sha256(bytes: Seq<u8>) -> Seq<u8>;

/// The BLAKE3 digest of a byte string.
pub uninterp spec fn blake3_hash(bytes: Seq<u8>) -> Seq<u8>;

/// `sha2::Sha256::digest`: the digest of the bytes, always 32 bytes long
/// and a function of the bytes alone.
#[verifier::external_body]
pub(crate) fn sha256_of(bytes: &Vec<u8>) -> (r: Vec<u8>)
    ensures
        r@ == sha256(bytes@),
        r@.len() == 32,
{
    sha2::Sha256::digest(bytes.as_slice()).to_vec()
}

/// `blake3::hash`: the digest of the bytes, always 32 bytes long and a
/// function of the bytes alone.
#[verifier::external_body]
pub(crate) fn blake3_of(bytes: &Vec<u8>) -> (r: [u8; 32])
    ensures
        r@ == blake3_hash(bytes@),
{
    *blake3::hash(bytes.as_slice()).as_bytes()
}

} // verus!
