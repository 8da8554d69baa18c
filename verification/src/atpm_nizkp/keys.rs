//! The keys of the construction over secp256k1.

use vstd::prelude::*;
use super::backend::{generator_encoding, group_order, point_product};
use super::scalar::Scalar;
use super::util::{gen_vartime, AffinePoint};

verus! {

/// The private key: a scalar. It signs, and it verifies.
#[derive(Debug, Clone, Copy)]
pub struct PrivateKey {
    scalar: Scalar,
}

impl View for PrivateKey {
    type V = nat;

    /// The number that the key stands for.
    closed spec fn view(&self) -> nat {
        self.scalar@
    }
}

impl PrivateKey {
    /// The scalar of the private key.
    pub fn to_scalar(&self) -> (out: Scalar)
        ensures
            out@ == self@,
    {
        self.scalar
    }

    /// A new random private key, drawn uniformly: the key that is what `gen_vartime` drew.
    /// `None` where it drew no scalar.
    pub fn new() -> (out: Option<PrivateKey>)
        ensures
            out matches Some(sk) ==> sk@ < group_order(),
            exists|drawn: Option<Scalar>|
                #[trigger] call_ensures(gen_vartime, (), drawn) && match drawn {
                    None => out is None,
                    Some(scalar) => out matches Some(sk) && sk@ == scalar@,
                },
    {
        let drawn = gen_vartime();
        assert(call_ensures(gen_vartime, (), drawn));
        match drawn {
            Some(scalar) => Some(PrivateKey { scalar }),
            None => None,
        }
    }

    /// The private key that is `scalar`.
    pub fn from_scalar(scalar: Scalar) -> (out: PrivateKey)
        ensures
            out@ == scalar@,
    {
        PrivateKey { scalar }
    }
}

/// The encoding of the public key of the private key `sk`: the generator times `sk`.
pub open spec fn spec_public_key(sk: nat) -> Seq<u8> {
    point_product(generator_encoding(), sk)
}

/// The public key: a point. With it a client checks what the signer returned.
#[derive(Debug, Clone, Copy)]
pub struct PublicKey {
    point: AffinePoint,
}

impl View for PublicKey {
    type V = Seq<u8>;

    /// The encoding of the key.
    closed spec fn view(&self) -> Seq<u8> {
        self.point@
    }
}

impl PublicKey {
    /// The point of the public key.
    pub fn to_affine(&self) -> (out: AffinePoint)
        ensures
            out@ == self@,
    {
        self.point
    }

    /// The public key that belongs to a private key.
    pub fn from(key: &PrivateKey) -> (out: PublicKey)
        ensures
            out@ == spec_public_key(key@),
    {
        PublicKey { point: AffinePoint::mul_base(&key.scalar) }
    }
}

} // verus!
