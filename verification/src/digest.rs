//! SHA-256 digests from the `sha2` crate and their hexadecimal rendering.

use vstd::prelude::*;
use crate::text::{hex_of, hex_string};

verus! {

/// Name of the SHA-256 digest of a byte sequence, as `sha2::Sha256::digest` computes it.
pub uninterp spec fn sha256_of(data: Seq<u8>) -> Seq<u8>;

/// `sha2::Sha256::digest`: the 32-byte SHA-256 digest of `data`. The
/// contract names the digest and states its length; the hash function
/// itself is not restated.
#[verifier::external_body]
pub(crate) fn sha256(data: &[u8]) -> (r: Vec<u8>)
    ensures
        r@ == sha256_of(data@),
        r@.len() == 32,
{
    <sha2::Sha256 as sha2::Digest>::digest(data).to_vec()
}

/// Two hexadecimal digits per byte.
proof fn lemma_hex_length(b: Seq<u8>)
    ensures
        hex_of(b).len() == 2 * b.len(),
    decreases b.len(),
{
    if b.len() > 0 {
        lemma_hex_length(b.subrange(0, b.len() - 1));
    }
}

/// The SHA-256 digest of `data` as 64 lowercase hexadecimal digits.
pub fn sha256_hex(data: &[u8]) -> (r: String)
    ensures
        r@ == hex_of(sha256_of(data@)),
        r@.len() == 64,
{
    let d = sha256(data);
    proof {
        lemma_hex_length(d@);
    }
    hex_string(d.as_slice())
}

} // verus!
