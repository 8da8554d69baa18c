//! The arithmetic of Ristretto255, as the `curve25519-dalek` crate computes it.
//!
//! Scalars cross this boundary as 32 little-endian bytes and points as the 32 bytes of their
//! Ristretto encoding. What a scalar operation returns is stated as arithmetic modulo the group
//! order. What a group operation returns is given a name: the contracts of the library speak of
//! those names, and nothing here says what they are on given values.

use vstd::prelude::*;
use crate::bytes::le_value;
use curve25519_dalek::ristretto::{CompressedRistretto, RistrettoPoint};
use curve25519_dalek::scalar::Scalar;
use curve25519_dalek::traits::Identity;
use subtle::ConstantTimeEq;

verus! {

/// The prime order of the Ristretto group, which is the modulus of its scalars:
/// 2^252 + 27742317777372353535851937790883648493.
pub open spec fn group_order() -> nat {
    0x1000000000000000000000000000000014def9dea2f79cd65812631a5cf5d3ednat
}

/// Whether `encoding` is the canonical encoding of a point of the group.
pub uninterp spec fn point_decodes(encoding: Seq<u8>) -> bool;

/// The encoding of `scalar` times the point that `point` encodes.
pub uninterp spec fn point_product(point: Seq<u8>, scalar: nat) -> Seq<u8>;

/// The encoding of the sum of the two points that `left` and `right` encode.
pub uninterp spec fn point_sum(left: Seq<u8>, right: Seq<u8>) -> Seq<u8>;

/// The encoding of the point that the one-way map of the group sends 64 bytes to.
pub uninterp spec fn point_from_uniform(bytes: Seq<u8>) -> Seq<u8>;

/// The encoding of the identity of the group: 32 zeros.
pub open spec fn identity_encoding() -> Seq<u8> {
    Seq::new(32, |i: int| 0u8)
}

/// The encoding of the basepoint of the group.
pub open spec fn basepoint_encoding() -> Seq<u8> {
    seq![
        0xe2u8, 0xf2, 0xae, 0x0a, 0x6a, 0xbc, 0x4e, 0x71, 0xa8, 0x84, 0xa9, 0x61, 0xc5, 0x00, 0x51, 0x5f,
        0x58, 0xe3, 0x0b, 0x6a, 0xa5, 0x82, 0xdd, 0x8d, 0xb6, 0xa6, 0x59, 0x45, 0xe0, 0x8d, 0x2d, 0x76,
    ]
}

/// `Scalar::from_canonical_bytes`: the bytes decode exactly when the number they spell is
/// below the group order.
#[verifier::external_body]
pub(crate) fn scalar_decodes(bytes: &[u8; 32]) -> (ok: bool)
    ensures
        ok == (le_value(bytes@) < group_order()),
{
    bool::from(Scalar::from_canonical_bytes(*bytes).is_some())
}

/// `Scalar::from_bytes_mod_order_wide`: the 512-bit number reduced by the group order, in
/// canonical bytes.
#[verifier::external_body]
pub(crate) fn scalar_reduce_wide(bytes: &[u8; 64]) -> (out: [u8; 32])
    ensures
        le_value(out@) == le_value(bytes@) % group_order(),
{
    Scalar::from_bytes_mod_order_wide(bytes).to_bytes()
}

/// Addition of `Scalar`: the sum modulo the group order, in canonical bytes.
#[verifier::external_body]
pub(crate) fn scalar_add(left: &[u8; 32], right: &[u8; 32]) -> (out: [u8; 32])
    requires
        le_value(left@) < group_order(),
        le_value(right@) < group_order(),
    ensures
        le_value(out@) == (le_value(left@) + le_value(right@)) % group_order(),
{
    let a = Scalar::from_canonical_bytes(*left).unwrap();
    let b = Scalar::from_canonical_bytes(*right).unwrap();
    (a + b).to_bytes()
}

/// Subtraction of `Scalar`: the difference modulo the group order, in canonical bytes.
#[verifier::external_body]
pub(crate) fn scalar_sub(left: &[u8; 32], right: &[u8; 32]) -> (out: [u8; 32])
    requires
        le_value(left@) < group_order(),
        le_value(right@) < group_order(),
    ensures
        le_value(out@) == (le_value(left@) - le_value(right@)) % (group_order() as int),
{
    let a = Scalar::from_canonical_bytes(*left).unwrap();
    let b = Scalar::from_canonical_bytes(*right).unwrap();
    (a - b).to_bytes()
}

/// Multiplication of `Scalar`: the product modulo the group order, in canonical bytes.
#[verifier::external_body]
pub(crate) fn scalar_mul(left: &[u8; 32], right: &[u8; 32]) -> (out: [u8; 32])
    requires
        le_value(left@) < group_order(),
        le_value(right@) < group_order(),
    ensures
        le_value(out@) == (le_value(left@) * le_value(right@)) % group_order(),
{
    let a = Scalar::from_canonical_bytes(*left).unwrap();
    let b = Scalar::from_canonical_bytes(*right).unwrap();
    (a * b).to_bytes()
}

/// `Scalar::invert`, with the mask that `ct_eq` against zero gives: the mask is 1 exactly when
/// the scalar is not zero, and then the bytes are the canonical form of its inverse modulo the
/// group order. The bytes are computed whatever the mask.
#[verifier::external_body]
pub(crate) fn scalar_invert(scalar: &[u8; 32]) -> (out: ([u8; 32], u8))
    requires
        le_value(scalar@) < group_order(),
    ensures
        out.1 == (if le_value(scalar@) == 0 { 0u8 } else { 1u8 }),
        le_value(out.0@) < group_order(),
        out.1 == 1 ==> (le_value(scalar@) * le_value(out.0@)) % group_order() == 1,
{
    let s = Scalar::from_canonical_bytes(*scalar).unwrap();
    let mask = (!s.ct_eq(&Scalar::ZERO)).unwrap_u8();
    (s.invert().to_bytes(), mask)
}

/// `CompressedRistretto::decompress`: whether the bytes are the canonical encoding of a point.
#[verifier::external_body]
pub(crate) fn point_check(encoding: &[u8; 32]) -> (ok: bool)
    ensures
        ok == point_decodes(encoding@),
{
    CompressedRistretto(*encoding).decompress().is_some()
}

/// `RistrettoPoint::identity`, compressed.
#[verifier::external_body]
pub(crate) fn point_identity() -> (out: [u8; 32])
    ensures
        out@ == identity_encoding(),
        point_decodes(out@),
{
    RistrettoPoint::identity().compress().to_bytes()
}

/// `RISTRETTO_BASEPOINT_POINT`, compressed.
#[verifier::external_body]
pub(crate) fn point_basepoint() -> (out: [u8; 32])
    ensures
        out@ == basepoint_encoding(),
        point_decodes(out@),
{
    curve25519_dalek::constants::RISTRETTO_BASEPOINT_POINT.compress().to_bytes()
}

/// Multiplication of a `RistrettoPoint` by a `Scalar`, compressed.
#[verifier::external_body]
pub(crate) fn point_mul(point: &[u8; 32], scalar: &[u8; 32]) -> (out: [u8; 32])
    requires
        point_decodes(point@),
        le_value(scalar@) < group_order(),
    ensures
        out@ == point_product(point@, le_value(scalar@)),
        point_decodes(out@),
{
    let p = CompressedRistretto(*point).decompress().unwrap();
    let s = Scalar::from_canonical_bytes(*scalar).unwrap();
    (p * s).compress().to_bytes()
}

/// Addition of two `RistrettoPoint`s, compressed.
#[verifier::external_body]
pub(crate) fn point_add(left: &[u8; 32], right: &[u8; 32]) -> (out: [u8; 32])
    requires
        point_decodes(left@),
        point_decodes(right@),
    ensures
        out@ == point_sum(left@, right@),
        point_decodes(out@),
{
    let a = CompressedRistretto(*left).decompress().unwrap();
    let b = CompressedRistretto(*right).decompress().unwrap();
    (a + b).compress().to_bytes()
}

/// `RistrettoPoint::from_uniform_bytes`, compressed.
#[verifier::external_body]
pub(crate) fn point_map_uniform(bytes: &[u8; 64]) -> (out: [u8; 32])
    ensures
        out@ == point_from_uniform(bytes@),
        point_decodes(out@),
{
    RistrettoPoint::from_uniform_bytes(bytes).compress().to_bytes()
}

} // verus!
