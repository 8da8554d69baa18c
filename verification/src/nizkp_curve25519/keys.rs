//! The keys of the construction over Ristretto255.

use vstd::prelude::*;
use super::backend::{basepoint_encoding, group_order, point_product};
use super::scalar::Scalar;
use super::util::RistrettoPoint;

verus! {

/// The private key: a scalar. It signs, and it verifies.
#[derive(Debug, Clone, Copy)]
pub struct PrivateKey {
    scalar: Scalar,
}

impl View for PrivateKey {
    type V = nat;

    /// The number that the key stands for.
    closed spec fn view(&self) -> nat {
        self.scalar@
    }
}

impl PrivateKey {
    /// The scalar of the private key.
    pub fn to_scalar(&self) -> (out: Scalar)
        ensures
            out@ == self@,
    {
        self.scalar
    }

    /// A new random private key.
    pub fn new() -> (out: PrivateKey)
        ensures
            out@ < group_order(),
    {
        PrivateKey { scalar: Scalar::random() }
    }

    /// The private key that is `scalar`.
    pub fn from_scalar(scalar: Scalar) -> (out: PrivateKey)
        ensures
            out@ == scalar@,
    {
        PrivateKey { scalar }
    }
}

impl Default for PrivateKey {
    fn default() -> (out: Self)
        ensures
            out@ < group_order(),
    {
        PrivateKey::new()
    }
}

/// The encoding of the public key of the private key `sk`: the basepoint times `sk`.
pub open spec fn spec_public_key(sk: nat) -> Seq<u8> {
    point_product(basepoint_encoding(), sk)
}

/// The public key: a point. With it a client checks what the signer returned.
#[derive(Debug, Clone, Copy)]
pub struct PublicKey {
    point: RistrettoPoint,
}

impl View for PublicKey {
    type V = Seq<u8>;

    /// The encoding of the key.
    closed spec fn view(&self) -> Seq<u8> {
        self.point@
    }
}

impl PublicKey {
    /// The point of the public key.
    pub fn to_affine(&self) -> (out: RistrettoPoint)
        ensures
            out@ == self@,
    {
        self.point
    }

    /// The public key that belongs to a private key.
    pub fn from(key: &PrivateKey) -> (out: PublicKey)
        ensures
            out@ == spec_public_key(key@),
    {
        PublicKey { point: RistrettoPoint::mul_base(&key.scalar) }
    }
}

} // verus!
