//! The two hash functions under the random oracles.

use vstd::prelude::*;
use sha2::Digest;

verus! {

/// The SHA-256 digest of `data`: 32 bytes.
pub uninterp spec fn sha256_digest(data: Seq<u8>) -> Seq<u8>;

/// The SHA-512 digest of `data`: 64 bytes.
pub uninterp spec fn sha512_digest(data: Seq<u8>) -> Seq<u8>;

/// Computes `sha2::Sha256::digest` of `data`. The result is the digest that FIPS 180-4 defines,
/// a function of the input bytes alone.
#[verifier::external_body]
pub(crate) fn sha256(data: &[u8]) -> (out: [u8; 32])
    ensures
        out@ == sha256_digest(data@),
{
    sha2::Sha256::digest(data).into()
}

/// Computes `sha2::Sha512::digest` of `data`. The result is the digest that FIPS 180-4 defines,
/// a function of the input bytes alone.
#[verifier::external_body]
pub(crate) fn sha512(data: &[u8]) -> (out: [u8; 64])
    ensures
        out@ == sha512_digest(data@),
{
    sha2::Sha512::digest(data).into()
}

} // verus!
