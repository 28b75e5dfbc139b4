//! The content-hash leaf: SHA-256 digests of byte strings, rendered as
//! lowercase hexadecimal for use as storage-key segments.

use crate::hexcodec::{bytes_to_hex, lemma_spec_hex_len, spec_hex};
use sha2::Digest;
use vstd::prelude::*;

verus! {

/// The SHA-256 digest of a byte string, as thirty-two bytes.
pub uninterp spec fn sha256_of(data: Seq<u8>) -> Seq<u8>;

/// The SHA-256 digest of a byte string, rendered as lowercase hexadecimal.
pub open spec fn sha256_hex_of(data: Seq<u8>) -> Seq<char> {
    spec_hex(sha256_of(data))
}

/// Relies on sha2's Sha256: the digest is a function of the input bytes
/// alone, and is always thirty-two bytes long.
#[verifier::external_body]
fn sha256_digest(data: &[u8]) -> (r: Vec<u8>)
    ensures
        r@ == sha256_of(data@),
        r@.len() == 32,
{
    sha2::Sha256::digest(data).to_vec()
}

/// Computes the SHA-256 digest of `data` as a lowercase hex string of
/// sixty-four digits.
pub fn compute_sha256(data: &[u8]) -> (r: String)
    ensures
        r@ == sha256_hex_of(data@),
        r@.len() == 64,
{
    let d = sha256_digest(data);
    bytes_to_hex(d.as_slice())
}

/// The digest rendering is sixty-four digits long for every input.
pub proof fn lemma_sha256_hex_len(data: Seq<u8>)
    requires
        sha256_of(data).len() == 32,
    ensures
        sha256_hex_of(data).len() == 64,
{
    lemma_spec_hex_len(sha256_of(data));
}

} // verus!
