//! The hash under which an oracle files the inference for a reasoning proof.
use vstd::prelude::*;
use vstd::utf8::encode_utf8;

use sha2::Digest;

use crate::text::{hex_lower, hex_string};

verus! {

/// What SHA-256 gives back for a byte string.
pub uninterp spec fn sha256_digest(data: Seq<u8>) -> Seq<u8>;

/// Calls `sha2::Sha256::digest` on a byte string and hands back the digest's
/// bytes. The digest is a function of the input alone, named
/// `sha256_digest`; its length is the 32 bytes of SHA-256's output size. The
/// hash function itself is not restated.
#[verifier::external_body]
fn sha256(data: &[u8]) -> (digest: Vec<u8>)
    ensures
        digest@ == sha256_digest(data@),
        digest@.len() == 32,
{
    sha2::Sha256::digest(data).to_vec()
}

/// The key under which the inference for a reasoning proof is filed: the
/// lower-case hexadecimal SHA-256 digest of the proof's UTF-8 bytes.
pub open spec fn inference_key(proof: Seq<char>) -> Seq<char> {
    hex_lower(sha256_digest(encode_utf8(proof)))
}

/// Computes the key under which the inference for a reasoning proof is filed.
pub fn inference_key_of(proof: &str) -> (key: String)
    ensures
        key@ == inference_key(proof@),
{
    let digest = sha256(proof.as_bytes());
    hex_string(digest.as_slice())
}

} // verus!
