//! Content verification: a local file's bytes are current exactly when their
//! SHA-256 digest agrees byte-for-byte with the digest the registry asserts.
use vstd::prelude::*;
use crate::bytes::bytes_equal;

verus! {

/// The SHA-256 digest of a byte sequence. The digest itself is not written
/// out here; the name stands for exactly what `sha2::Sha256::digest`
/// computes, a function of the input bytes alone.
pub uninterp spec fn sha256_of(data: Seq<u8>) -> Seq<u8>;

/// Relies on `sha2::Sha256::digest`: the digest depends on the input bytes
/// alone, and SHA-256 output is always 32 bytes.
#[verifier::external_body]
fn sha256_digest(data: &[u8]) -> (r: Vec<u8>)
    ensures
        r@ == sha256_of(data@),
        r@.len() == 32,
{
    <sha2::Sha256 as sha2::Digest>::digest(data).to_vec()
}

/// Whether `content` digests to exactly `expected`, byte for byte.
pub fn verify_content(content: &[u8], expected: &Vec<u8>) -> (r: bool)
    ensures
        r == (sha256_of(content@) == expected@),
{
    let d = sha256_digest(content);
    bytes_equal(d.as_slice(), expected.as_slice())
}

} // verus!
