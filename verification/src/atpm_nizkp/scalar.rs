//! Scalars: the integers modulo the order of secp256k1.

use vstd::prelude::*;
use vstd::arithmetic::div_mod::lemma_mod_bound;
use crate::bytes::{be_value, lemma_be_value_injective, lemma_zeros_spell_zero, same_bytes};
use crate::common::CtOption;
use crate::modular::{inverse_mod, lemma_inverse_is};
use super::backend::{
    group_order, scalar_add, scalar_decodes, scalar_invert, scalar_mul, scalar_sub,
};

verus! {

/// An integer modulo the group order, held as its 32 canonical big-endian bytes.
#[derive(Clone, Copy, Debug)]
pub struct Scalar {
    bytes: [u8; 32],
}

impl View for Scalar {
    type V = nat;

    /// The number that the scalar stands for.
    closed spec fn view(&self) -> nat {
        be_value(self.bytes@)
    }
}

impl Scalar {
    #[verifier::type_invariant]
    spec fn canonical(self) -> bool {
        be_value(self.bytes@) < group_order()
    }

    /// The scalar that `bytes` spell in big-endian order, if that number is below the group
    /// order.
    pub fn from_bytes(bytes: &[u8; 32]) -> (out: Option<Scalar>)
        ensures
            out is Some == (be_value(bytes@) < group_order()),
            out matches Some(s) ==> s@ == be_value(bytes@),
    {
        if scalar_decodes(bytes) {
            Some(Scalar { bytes: *bytes })
        } else {
            None
        }
    }

    /// The scalar zero.
    pub fn zero() -> (out: Scalar)
        ensures
            out@ == 0,
    {
        let bytes = [0u8; 32];
        proof {
            lemma_zeros_spell_zero(bytes@);
        }
        Scalar { bytes }
    }

    /// The canonical bytes of the scalar.
    pub fn to_bytes(&self) -> (out: [u8; 32])
        ensures
            be_value(out@) == self@,
            self@ < group_order(),
    {
        proof {
            use_type_invariant(self);
        }
        self.bytes
    }

    /// The sum of two scalars.
    pub fn add(&self, rhs: &Scalar) -> (out: Scalar)
        ensures
            out@ == (self@ + rhs@) % group_order(),
    {
        proof {
            use_type_invariant(self);
            use_type_invariant(rhs);
            lemma_mod_bound((self@ + rhs@) as int, group_order() as int);
        }
        Scalar { bytes: scalar_add(&self.bytes, &rhs.bytes) }
    }

    /// The difference of two scalars.
    pub fn sub(&self, rhs: &Scalar) -> (out: Scalar)
        ensures
            out@ == (self@ - rhs@) % (group_order() as int),
    {
        proof {
            use_type_invariant(self);
            use_type_invariant(rhs);
            lemma_mod_bound(self@ - rhs@, group_order() as int);
        }
        Scalar { bytes: scalar_sub(&self.bytes, &rhs.bytes) }
    }

    /// The product of two scalars.
    pub fn mul(&self, rhs: &Scalar) -> (out: Scalar)
        ensures
            out@ == (self@ * rhs@) % group_order(),
    {
        proof {
            use_type_invariant(self);
            use_type_invariant(rhs);
            lemma_mod_bound((self@ * rhs@) as int, group_order() as int);
        }
        Scalar { bytes: scalar_mul(&self.bytes, &rhs.bytes) }
    }

    /// The inverse of the scalar, present exactly when the scalar is not zero.
    pub fn invert(&self) -> (out: CtOption<Scalar>)
        ensures
            out.present() == (self@ != 0),
            out.present() ==> out.inner()@ == inverse_mod(self@, group_order()),
    {
        proof {
            use_type_invariant(self);
        }
        let (bytes, mask) = scalar_invert(&self.bytes);
        proof {
            if mask == 1 {
                lemma_inverse_is(self@, be_value(bytes@), group_order());
            }
        }
        CtOption::new(Scalar { bytes }, mask)
    }

    /// Whether two scalars stand for the same number.
    pub fn equals(&self, other: &Scalar) -> (same: bool)
        ensures
            same == (self@ == other@),
    {
        proof {
            if self@ == other@ {
                lemma_be_value_injective(self.bytes@, other.bytes@);
            }
        }
        same_bytes(self.bytes.as_slice(), other.bytes.as_slice())
    }
}

} // verus!
