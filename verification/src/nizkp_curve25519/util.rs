//! Points of the Ristretto group and the two random oracles.

use vstd::prelude::*;
use vstd::std_specs::cmp::PartialEqSpecImpl;
use vstd::string::StringSliceAdditionalSpecFns;
use crate::bytes::{append, concat, le_value, same_bytes};
use crate::hashing::{sha512, sha512_digest};
use super::backend::{
    basepoint_encoding, group_order, identity_encoding, point_add, point_basepoint, point_check,
    point_decodes, point_from_uniform, point_identity, point_map_uniform, point_mul,
    point_product, point_sum,
};
use super::scalar::Scalar;

verus! {

/// A point of the Ristretto group, held in the 32 bytes of its encoding.
#[derive(Clone, Copy, Debug)]
pub struct RistrettoPoint {
    bytes: [u8; 32],
}

impl View for RistrettoPoint {
    type V = Seq<u8>;

    /// The encoding of the point.
    closed spec fn view(&self) -> Seq<u8> {
        self.bytes@
    }
}

impl RistrettoPoint {
    #[verifier::type_invariant]
    spec fn decodes(self) -> bool {
        point_decodes(self.bytes@)
    }

    /// The identity of the group.
    pub fn identity() -> (out: RistrettoPoint)
        ensures
            out@ == identity_encoding(),
    {
        RistrettoPoint { bytes: point_identity() }
    }

    /// The basepoint of the group.
    pub fn basepoint() -> (out: RistrettoPoint)
        ensures
            out@ == basepoint_encoding(),
    {
        RistrettoPoint { bytes: point_basepoint() }
    }

    /// The basepoint times a scalar.
    pub fn mul_base(scalar: &Scalar) -> (out: RistrettoPoint)
        ensures
            out@ == point_product(basepoint_encoding(), scalar@),
    {
        RistrettoPoint::basepoint().mul(scalar)
    }

    /// The point with the encoding `bytes`, if there is one.
    pub fn decompress(bytes: &[u8; 32]) -> (out: Option<RistrettoPoint>)
        ensures
            out is Some == point_decodes(bytes@),
            out matches Some(p) ==> p@ == bytes@,
    {
        if point_check(bytes) {
            Some(RistrettoPoint { bytes: *bytes })
        } else {
            None
        }
    }

    /// The encoding of the point.
    pub fn compress(&self) -> (out: [u8; 32])
        ensures
            out@ == self@,
            point_decodes(self@),
    {
        proof {
            use_type_invariant(self);
        }
        self.bytes
    }

    /// The point that the one-way map of the group sends 64 bytes to.
    pub fn from_uniform_bytes(bytes: &[u8; 64]) -> (out: RistrettoPoint)
        ensures
            out@ == point_from_uniform(bytes@),
    {
        RistrettoPoint { bytes: point_map_uniform(bytes) }
    }

    /// The point times a scalar.
    pub fn mul(&self, scalar: &Scalar) -> (out: RistrettoPoint)
        ensures
            out@ == point_product(self@, scalar@),
    {
        proof {
            use_type_invariant(self);
        }
        let s = scalar.to_bytes();
        RistrettoPoint { bytes: point_mul(&self.bytes, &s) }
    }

    /// The sum of two points.
    pub fn add(&self, other: &RistrettoPoint) -> (out: RistrettoPoint)
        ensures
            out@ == point_sum(self@, other@),
    {
        proof {
            use_type_invariant(self);
            use_type_invariant(other);
        }
        RistrettoPoint { bytes: point_add(&self.bytes, &other.bytes) }
    }
}

/// Two points are the same when their encodings are.
impl PartialEq for RistrettoPoint {
    fn eq(&self, other: &Self) -> (same: bool) {
        same_bytes(self.bytes.as_slice(), other.bytes.as_slice())
    }
}

impl PartialEqSpecImpl for RistrettoPoint {
    open spec fn obeys_eq_spec() -> bool {
        true
    }

    open spec fn eq_spec(&self, other: &Self) -> bool {
        self@ == other@
    }
}

/// The domain tag of the oracle that hashes to a scalar.
pub open spec fn hash_to_scalar_domain() -> Seq<u8> {
    "This is hash_to_scalar hash".spec_bytes()
}

/// The scalar that `data` hashes to: the SHA-512 digest of the domain tag and `data`, read as
/// a little-endian number and reduced by the group order.
pub open spec fn spec_hash_to_scalar(data: Seq<u8>) -> nat {
    le_value(sha512_digest(hash_to_scalar_domain() + data)) % group_order()
}

/// Hashes bytes to a scalar.
pub fn hash_to_scalar(data: &[u8]) -> (out: Scalar)
    ensures
        out@ == spec_hash_to_scalar(data@),
{
    let digest = sha512(concat("This is hash_to_scalar hash".as_bytes(), data).as_slice());
    Scalar::from_bytes_mod_order_wide(&digest)
}

/// The domain tag of the oracle that hashes to the group.
pub open spec fn h_t_domain() -> Seq<u8> {
    "This is h_t hash".spec_bytes()
}

/// The encoding of the point that a tag and metadata hash to: what the one-way map of the
/// group sends the SHA-512 digest of the domain tag, the tag and the metadata to.
pub open spec fn spec_h_t(t: Seq<u8>, m: Seq<u8>) -> Seq<u8> {
    point_from_uniform(sha512_digest(h_t_domain() + t + m))
}

/// Hashes a tag and metadata to a point.
pub fn h_t(t: &[u8], m: &[u8]) -> (out: RistrettoPoint)
    ensures
        out@ == spec_h_t(t@, m@),
{
    let mut input: Vec<u8> = Vec::new();
    append(&mut input, "This is h_t hash".as_bytes());
    append(&mut input, t);
    append(&mut input, m);
    let digest = sha512(input.as_slice());
    RistrettoPoint::from_uniform_bytes(&digest)
}

} // verus!
