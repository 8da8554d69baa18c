//! The arithmetic of secp256k1, as the `k256` crate computes it.
//!
//! Scalars cross this boundary as 32 big-endian bytes and points as the 33 bytes of their
//! compressed SEC1 encoding, with 33 zeros for the identity. What a scalar operation returns is
//! stated as arithmetic modulo the group order. What a group operation returns is given a
//! name: the contracts of the library speak of those names, and nothing here says what they
//! are on given values.

use vstd::prelude::*;
use crate::bytes::be_value;
use k256::elliptic_curve::group::GroupEncoding;
use k256::elliptic_curve::hash2curve::{ExpandMsgXmd, GroupDigest};
use k256::elliptic_curve::PrimeField;
use k256::{AffinePoint, CompressedPoint, FieldBytes, ProjectivePoint, Scalar, Secp256k1};

verus! {

/// The prime order of the group, which is the modulus of its scalars.
pub open spec fn group_order() -> nat {
    0xffffffff_ffffffff_ffffffff_fffffffe_baaedce6_af48a03b_bfd25e8c_d0364141nat
}

/// Whether `encoding` is an encoding of a point of the group.
pub uninterp spec fn point_decodes(encoding: Seq<u8>) -> bool;

/// The encoding of `scalar` times the point that `point` encodes.
pub uninterp spec fn point_product(point: Seq<u8>, scalar: nat) -> Seq<u8>;

/// The encoding of the sum of the two points that `left` and `right` encode.
pub uninterp spec fn point_sum(left: Seq<u8>, right: Seq<u8>) -> Seq<u8>;

/// The encoding of the point that `message` hashes to under the domain separation tag `dst`.
pub uninterp spec fn point_hash(message: Seq<u8>, dst: Seq<u8>) -> Seq<u8>;

/// The encoding of the identity of the group: 33 zeros.
pub open spec fn identity_encoding() -> Seq<u8> {
    Seq::new(33, |i: int| 0u8)
}

/// The encoding of the generator of the group.
pub open spec fn generator_encoding() -> Seq<u8> {
    seq![
        0x02u8, 0x79, 0xbe, 0x66, 0x7e, 0xf9, 0xdc, 0xbb, 0xac, 0x55, 0xa0, 0x62, 0x95, 0xce, 0x87, 0x0b,
        0x07, 0x02, 0x9b, 0xfc, 0xdb, 0x2d, 0xce, 0x28, 0xd9, 0x59, 0xf2, 0x81, 0x5b, 0x16, 0xf8, 0x17,
        0x98,
    ]
}

/// `Scalar::from_repr`: the bytes decode exactly when the number they spell is below the
/// group order.
#[verifier::external_body]
pub(crate) fn scalar_decodes(bytes: &[u8; 32]) -> (ok: bool)
    ensures
        ok == (be_value(bytes@) < group_order()),
{
    bool::from(Scalar::from_repr(FieldBytes::from(*bytes)).is_some())
}

/// Addition of `Scalar`: the sum modulo the group order, in canonical bytes.
#[verifier::external_body]
pub(crate) fn scalar_add(left: &[u8; 32], right: &[u8; 32]) -> (out: [u8; 32])
    requires
        be_value(left@) < group_order(),
        be_value(right@) < group_order(),
    ensures
        be_value(out@) == (be_value(left@) + be_value(right@)) % group_order(),
{
    let a = Scalar::from_repr(FieldBytes::from(*left)).unwrap();
    let b = Scalar::from_repr(FieldBytes::from(*right)).unwrap();
    (a + b).to_bytes().into()
}

/// Subtraction of `Scalar`: the difference modulo the group order, in canonical bytes.
#[verifier::external_body]
pub(crate) fn scalar_sub(left: &[u8; 32], right: &[u8; 32]) -> (out: [u8; 32])
    requires
        be_value(left@) < group_order(),
        be_value(right@) < group_order(),
    ensures
        be_value(out@) == (be_value(left@) - be_value(right@)) % (group_order() as int),
{
    let a = Scalar::from_repr(FieldBytes::from(*left)).unwrap();
    let b = Scalar::from_repr(FieldBytes::from(*right)).unwrap();
    (a - b).to_bytes().into()
}

/// Multiplication of `Scalar`: the product modulo the group order, in canonical bytes.
#[verifier::external_body]
pub(crate) fn scalar_mul(left: &[u8; 32], right: &[u8; 32]) -> (out: [u8; 32])
    requires
        be_value(left@) < group_order(),
        be_value(right@) < group_order(),
    ensures
        be_value(out@) == (be_value(left@) * be_value(right@)) % group_order(),
{
    let a = Scalar::from_repr(FieldBytes::from(*left)).unwrap();
    let b = Scalar::from_repr(FieldBytes::from(*right)).unwrap();
    (a * b).to_bytes().into()
}

/// `Scalar::invert`: the mask is 1 exactly when the scalar is not zero, and then the bytes are
/// the canonical form of its inverse modulo the group order. The bytes are computed whatever
/// the mask.
#[verifier::external_body]
pub(crate) fn scalar_invert(scalar: &[u8; 32]) -> (out: ([u8; 32], u8))
    requires
        be_value(scalar@) < group_order(),
    ensures
        out.1 == (if be_value(scalar@) == 0 { 0u8 } else { 1u8 }),
        be_value(out.0@) < group_order(),
        out.1 == 1 ==> (be_value(scalar@) * be_value(out.0@)) % group_order() == 1,
{
    let inverse = Scalar::from_repr(FieldBytes::from(*scalar)).unwrap().invert();
    let mask = inverse.is_some().unwrap_u8();
    (inverse.unwrap_or(Scalar::ZERO).to_bytes().into(), mask)
}

/// `AffinePoint::from_bytes`: whether the bytes decode to a point of the group.
#[verifier::external_body]
pub(crate) fn point_check(encoding: &[u8; 33]) -> (ok: bool)
    ensures
        ok == point_decodes(encoding@),
{
    bool::from(AffinePoint::from_bytes(CompressedPoint::from_slice(encoding)).is_some())
}

/// `AffinePoint::IDENTITY`, encoded.
#[verifier::external_body]
pub(crate) fn point_identity() -> (out: [u8; 33])
    ensures
        out@ == identity_encoding(),
        point_decodes(out@),
{
    let mut out = [0u8; 33];
    out.copy_from_slice(&AffinePoint::IDENTITY.to_bytes());
    out
}

/// `AffinePoint::GENERATOR`, encoded.
#[verifier::external_body]
pub(crate) fn point_generator() -> (out: [u8; 33])
    ensures
        out@ == generator_encoding(),
        point_decodes(out@),
{
    let mut out = [0u8; 33];
    out.copy_from_slice(&AffinePoint::GENERATOR.to_bytes());
    out
}

/// Multiplication of a `ProjectivePoint` by a `Scalar`, encoded.
#[verifier::external_body]
pub(crate) fn point_mul(point: &[u8; 33], scalar: &[u8; 32]) -> (out: [u8; 33])
    requires
        point_decodes(point@),
        be_value(scalar@) < group_order(),
    ensures
        out@ == point_product(point@, be_value(scalar@)),
        point_decodes(out@),
{
    let p = AffinePoint::from_bytes(CompressedPoint::from_slice(point)).unwrap();
    let s = Scalar::from_repr(FieldBytes::from(*scalar)).unwrap();
    let mut out = [0u8; 33];
    out.copy_from_slice(&(ProjectivePoint::from(p) * s).to_affine().to_bytes());
    out
}

/// Addition of a `ProjectivePoint` and an `AffinePoint`, encoded.
#[verifier::external_body]
pub(crate) fn point_add(left: &[u8; 33], right: &[u8; 33]) -> (out: [u8; 33])
    requires
        point_decodes(left@),
        point_decodes(right@),
    ensures
        out@ == point_sum(left@, right@),
        point_decodes(out@),
{
    let a = AffinePoint::from_bytes(CompressedPoint::from_slice(left)).unwrap();
    let b = AffinePoint::from_bytes(CompressedPoint::from_slice(right)).unwrap();
    let mut out = [0u8; 33];
    out.copy_from_slice(&(ProjectivePoint::from(a) + b).to_affine().to_bytes());
    out
}

/// `hash_from_bytes` of `Secp256k1` with `ExpandMsgXmd` over SHA-256, encoded: the hash to
/// the curve by the simplified SWU map, as a random oracle. It fails on an empty list of tags
/// alone, and is called with one tag.
#[verifier::external_body]
pub(crate) fn point_hash_to_curve(message: &[u8], dst: &[u8]) -> (out: [u8; 33])
    ensures
        out@ == point_hash(message@, dst@),
        point_decodes(out@),
{
    let point =
        Secp256k1::hash_from_bytes::<ExpandMsgXmd<k256::sha2::Sha256>>(&[message], &[dst]).unwrap();
    let mut out = [0u8; 33];
    out.copy_from_slice(&point.to_affine().to_bytes());
    out
}

} // verus!
