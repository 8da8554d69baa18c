//! The arithmetic of BLS12-381, as the `bls12_381` crate computes it.
//!
//! Scalars cross this boundary as 32 little-endian bytes, points of G1 as 48 bytes and points of
//! G2 as 96 bytes, each in the compressed form of the curve's serialization. What a scalar
//! operation returns is stated as arithmetic modulo the group order. What a group operation
//! returns is given a name: the contracts of the library speak of those names, and nothing here
//! says what they are on given values.

use vstd::prelude::*;
use crate::bytes::le_value;
use bls12_381::hash_to_curve::HashToCurve;
use pairing::Engine;

verus! {

/// The prime order of G1, G2 and the target group, which is the modulus of the scalar field.
pub open spec fn group_order() -> nat {
    0x73eda753299d7d483339d80809a1d80553bda402fffe5bfeffffffff00000001nat
}

/// Whether `encoding` is the compressed form of a point of G1.
pub uninterp spec fn g1_decodes(encoding: Seq<u8>) -> bool;

/// The compressed form of `scalar` times the point of G1 that `point` encodes.
pub uninterp spec fn g1_product(point: Seq<u8>, scalar: nat) -> Seq<u8>;

/// The compressed form of the sum of the two points of G1 that `left` and `right` encode.
pub uninterp spec fn g1_sum(left: Seq<u8>, right: Seq<u8>) -> Seq<u8>;

/// The compressed form of the point of G1 that `message` hashes to under the domain separation
/// tag `dst`.
pub uninterp spec fn g1_hash(message: Seq<u8>, dst: Seq<u8>) -> Seq<u8>;

/// Whether `encoding` is the compressed form of a point of G2.
pub uninterp spec fn g2_decodes(encoding: Seq<u8>) -> bool;

/// The compressed form of `scalar` times the point of G2 that `point` encodes.
pub uninterp spec fn g2_product(point: Seq<u8>, scalar: nat) -> Seq<u8>;

/// The compressed form of the sum of the two points of G2 that `left` and `right` encode.
pub uninterp spec fn g2_sum(left: Seq<u8>, right: Seq<u8>) -> Seq<u8>;

/// Whether the pairing of `left` with `left_pair` is the pairing of `right` with `right_pair`:
/// `left` and `right` encode points of G1, and their pairs points of G2.
pub uninterp spec fn pairings_agree(
    left: Seq<u8>,
    left_pair: Seq<u8>,
    right: Seq<u8>,
    right_pair: Seq<u8>,
) -> bool;

/// The compressed form of the point at infinity of G1: the compression and infinity flags, then
/// zeros.
pub open spec fn g1_identity_encoding() -> Seq<u8> {
    Seq::new(48, |i: int| if i == 0 { 0xc0u8 } else { 0u8 })
}

/// The compressed form of the fixed generator of G2.
pub open spec fn g2_generator_encoding() -> Seq<u8> {
    seq![
        0x93u8, 0xe0, 0x2b, 0x60, 0x52, 0x71, 0x9f, 0x60, 0x7d, 0xac, 0xd3, 0xa0,
        0x88, 0x27, 0x4f, 0x65, 0x59, 0x6b, 0xd0, 0xd0, 0x99, 0x20, 0xb6, 0x1a,
        0xb5, 0xda, 0x61, 0xbb, 0xdc, 0x7f, 0x50, 0x49, 0x33, 0x4c, 0xf1, 0x12,
        0x13, 0x94, 0x5d, 0x57, 0xe5, 0xac, 0x7d, 0x05, 0x5d, 0x04, 0x2b, 0x7e,
        0x02, 0x4a, 0xa2, 0xb2, 0xf0, 0x8f, 0x0a, 0x91, 0x26, 0x08, 0x05, 0x27,
        0x2d, 0xc5, 0x10, 0x51, 0xc6, 0xe4, 0x7a, 0xd4, 0xfa, 0x40, 0x3b, 0x02,
        0xb4, 0x51, 0x0b, 0x64, 0x7a, 0xe3, 0xd1, 0x77, 0x0b, 0xac, 0x03, 0x26,
        0xa8, 0x05, 0xbb, 0xef, 0xd4, 0x80, 0x56, 0xc8, 0xc1, 0x21, 0xbd, 0xb8,
    ]
}

/// `bls12_381::Scalar::from_bytes`: the bytes decode exactly when the number they spell is below
/// the modulus.
#[verifier::external_body]
pub(crate) fn scalar_decodes(bytes: &[u8; 32]) -> (ok: bool)
    ensures
        ok == (le_value(bytes@) < group_order()),
{
    bool::from(bls12_381::Scalar::from_bytes(bytes).is_some())
}

/// `bls12_381::Scalar::from_bytes_wide`: the 512-bit number reduced by the modulus, in
/// canonical bytes.
#[verifier::external_body]
pub(crate) fn scalar_reduce_wide(bytes: &[u8; 64]) -> (out: [u8; 32])
    ensures
        le_value(out@) == le_value(bytes@) % group_order(),
{
    bls12_381::Scalar::from_bytes_wide(bytes).to_bytes()
}

/// Addition of `bls12_381::Scalar`: the sum modulo the group order, in canonical bytes.
#[verifier::external_body]
pub(crate) fn scalar_add(left: &[u8; 32], right: &[u8; 32]) -> (out: [u8; 32])
    requires
        le_value(left@) < group_order(),
        le_value(right@) < group_order(),
    ensures
        le_value(out@) == (le_value(left@) + le_value(right@)) % group_order(),
{
    let a = bls12_381::Scalar::from_bytes(left).unwrap();
    let b = bls12_381::Scalar::from_bytes(right).unwrap();
    (a + b).to_bytes()
}

/// `bls12_381::Scalar::invert`: the mask is 1 exactly when the scalar is not zero, and then the
/// bytes are the canonical form of its inverse modulo the group order. The bytes are computed
/// whatever the mask.
#[verifier::external_body]
pub(crate) fn scalar_invert(scalar: &[u8; 32]) -> (out: ([u8; 32], u8))
    requires
        le_value(scalar@) < group_order(),
    ensures
        out.1 == (if le_value(scalar@) == 0 { 0u8 } else { 1u8 }),
        le_value(out.0@) < group_order(),
        out.1 == 1 ==> (le_value(scalar@) * le_value(out.0@)) % group_order() == 1,
{
    let inverse = bls12_381::Scalar::from_bytes(scalar).unwrap().invert();
    let mask = inverse.is_some().unwrap_u8();
    (inverse.unwrap_or(bls12_381::Scalar::zero()).to_bytes(), mask)
}

/// `bls12_381::G1Affine::from_compressed`: whether the bytes decode to a point of G1.
#[verifier::external_body]
pub(crate) fn g1_check(encoding: &[u8; 48]) -> (ok: bool)
    ensures
        ok == g1_decodes(encoding@),
{
    bool::from(bls12_381::G1Affine::from_compressed(encoding).is_some())
}

/// `bls12_381::G1Affine::identity`, compressed.
#[verifier::external_body]
pub(crate) fn g1_identity() -> (out: [u8; 48])
    ensures
        out@ == g1_identity_encoding(),
        g1_decodes(out@),
{
    bls12_381::G1Affine::identity().to_compressed()
}

/// Multiplication of a `bls12_381::G1Affine` by a `bls12_381::Scalar`, compressed.
#[verifier::external_body]
pub(crate) fn g1_mul(point: &[u8; 48], scalar: &[u8; 32]) -> (out: [u8; 48])
    requires
        g1_decodes(point@),
        le_value(scalar@) < group_order(),
    ensures
        out@ == g1_product(point@, le_value(scalar@)),
        g1_decodes(out@),
{
    let p = bls12_381::G1Affine::from_compressed(point).unwrap();
    let s = bls12_381::Scalar::from_bytes(scalar).unwrap();
    bls12_381::G1Affine::from(p * s).to_compressed()
}

/// Addition of two points of G1 (`bls12_381::G1Projective` plus `bls12_381::G1Affine`),
/// compressed.
#[verifier::external_body]
pub(crate) fn g1_add(left: &[u8; 48], right: &[u8; 48]) -> (out: [u8; 48])
    requires
        g1_decodes(left@),
        g1_decodes(right@),
    ensures
        out@ == g1_sum(left@, right@),
        g1_decodes(out@),
{
    let a = bls12_381::G1Affine::from_compressed(left).unwrap();
    let b = bls12_381::G1Affine::from_compressed(right).unwrap();
    bls12_381::G1Affine::from(bls12_381::G1Projective::from(a) + b).to_compressed()
}

/// `hash_to_curve` of `bls12_381::G1Projective` with `ExpandMsgXmd` over SHA-256, compressed.
#[verifier::external_body]
pub(crate) fn g1_hash_to_curve(message: &[u8], dst: &[u8]) -> (out: [u8; 48])
    ensures
        out@ == g1_hash(message@, dst@),
        g1_decodes(out@),
{
    let point = <bls12_381::G1Projective as HashToCurve<
        bls12_381::hash_to_curve::ExpandMsgXmd<sha2::Sha256>,
    >>::hash_to_curve(message, dst);
    bls12_381::G1Affine::from(point).to_compressed()
}

/// `bls12_381::G2Affine::from_compressed`: whether the bytes decode to a point of G2.
#[verifier::external_body]
pub(crate) fn g2_check(encoding: &[u8; 96]) -> (ok: bool)
    ensures
        ok == g2_decodes(encoding@),
{
    bool::from(bls12_381::G2Affine::from_compressed(encoding).is_some())
}

/// `bls12_381::G2Affine::generator`, compressed.
#[verifier::external_body]
pub(crate) fn g2_generator() -> (out: [u8; 96])
    ensures
        out@ == g2_generator_encoding(),
        g2_decodes(out@),
{
    bls12_381::G2Affine::generator().to_compressed()
}

/// Multiplication of a `bls12_381::G2Affine` by a `bls12_381::Scalar`, compressed.
#[verifier::external_body]
pub(crate) fn g2_mul(point: &[u8; 96], scalar: &[u8; 32]) -> (out: [u8; 96])
    requires
        g2_decodes(point@),
        le_value(scalar@) < group_order(),
    ensures
        out@ == g2_product(point@, le_value(scalar@)),
        g2_decodes(out@),
{
    let p = bls12_381::G2Affine::from_compressed(point).unwrap();
    let s = bls12_381::Scalar::from_bytes(scalar).unwrap();
    bls12_381::G2Affine::from(p * s).to_compressed()
}

/// Addition of two points of G2 (`bls12_381::G2Projective` plus `bls12_381::G2Affine`),
/// compressed.
#[verifier::external_body]
pub(crate) fn g2_add(left: &[u8; 96], right: &[u8; 96]) -> (out: [u8; 96])
    requires
        g2_decodes(left@),
        g2_decodes(right@),
    ensures
        out@ == g2_sum(left@, right@),
        g2_decodes(out@),
{
    let a = bls12_381::G2Affine::from_compressed(left).unwrap();
    let b = bls12_381::G2Affine::from_compressed(right).unwrap();
    bls12_381::G2Affine::from(bls12_381::G2Projective::from(a) + b).to_compressed()
}

/// `Bls12::pairing` of each pair, and the comparison of the two results in the target group.
#[verifier::external_body]
pub(crate) fn pairing_check(
    left: &[u8; 48],
    left_pair: &[u8; 96],
    right: &[u8; 48],
    right_pair: &[u8; 96],
) -> (ok: bool)
    requires
        g1_decodes(left@),
        g2_decodes(left_pair@),
        g1_decodes(right@),
        g2_decodes(right_pair@),
    ensures
        ok == pairings_agree(left@, left_pair@, right@, right_pair@),
{
    let a = bls12_381::G1Affine::from_compressed(left).unwrap();
    let b = bls12_381::G2Affine::from_compressed(left_pair).unwrap();
    let c = bls12_381::G1Affine::from_compressed(right).unwrap();
    let d = bls12_381::G2Affine::from_compressed(right_pair).unwrap();
    bls12_381::Bls12::pairing(&a, &b) == bls12_381::Bls12::pairing(&c, &d)
}

} // verus!
