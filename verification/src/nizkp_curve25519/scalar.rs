//! Scalars: the integers modulo the order of the Ristretto group.

use vstd::prelude::*;
use vstd::arithmetic::div_mod::lemma_mod_bound;
use crate::bytes::{le_value, lemma_le_value_injective, same_bytes};
use crate::common::{fill_bytes, CtOption};
use crate::modular::{inverse_mod, lemma_inverse_is};
use super::backend::{
    group_order, scalar_add, scalar_decodes, scalar_invert, scalar_mul, scalar_reduce_wide,
    scalar_sub,
};

verus! {

/// An integer modulo the group order, held as its 32 canonical little-endian bytes.
#[derive(Clone, Copy, Debug)]
pub struct Scalar {
    bytes: [u8; 32],
}

impl View for Scalar {
    type V = nat;

    /// The number that the scalar stands for.
    closed spec fn view(&self) -> nat {
        le_value(self.bytes@)
    }
}

impl Scalar {
    #[verifier::type_invariant]
    spec fn canonical(self) -> bool {
        le_value(self.bytes@) < group_order()
    }

    /// The scalar that `bytes` spell in little-endian order, if that number is below the group
    /// order.
    pub fn from_canonical_bytes(bytes: &[u8; 32]) -> (out: Option<Scalar>)
        ensures
            out is Some == (le_value(bytes@) < group_order()),
            out matches Some(s) ==> s@ == le_value(bytes@),
    {
        if scalar_decodes(bytes) {
            Some(Scalar { bytes: *bytes })
        } else {
            None
        }
    }

    /// The canonical bytes of the scalar.
    pub fn to_bytes(&self) -> (out: [u8; 32])
        ensures
            le_value(out@) == self@,
            self@ < group_order(),
    {
        proof {
            use_type_invariant(self);
        }
        self.bytes
    }

    /// The number that 64 bytes spell in little-endian order, reduced by the group order.
    pub fn from_bytes_mod_order_wide(bytes: &[u8; 64]) -> (out: Scalar)
        ensures
            out@ == le_value(bytes@) % group_order(),
    {
        let reduced = scalar_reduce_wide(bytes);
        proof {
            lemma_mod_bound(le_value(bytes@) as int, group_order() as int);
        }
        Scalar { bytes: reduced }
    }

    /// A scalar from 64 random bytes of the generator of the calling thread, reduced by the
    /// group order.
    pub fn random() -> (out: Scalar)
        ensures
            out@ < group_order(),
    {
        let mut scalar_bytes = [0u8; 64];
        fill_bytes(&mut scalar_bytes);
        let out = Scalar::from_bytes_mod_order_wide(&scalar_bytes);
        proof {
            lemma_mod_bound(le_value(scalar_bytes@) as int, group_order() as int);
        }
        out
    }

    /// The sum of two scalars.
    pub fn add(&self, rhs: &Scalar) -> (out: Scalar)
        ensures
            out@ == (self@ + rhs@) % group_order(),
    {
        proof {
            use_type_invariant(self);
            use_type_invariant(rhs);
            lemma_mod_bound((self@ + rhs@) as int, group_order() as int);
        }
        Scalar { bytes: scalar_add(&self.bytes, &rhs.bytes) }
    }

    /// The difference of two scalars.
    pub fn sub(&self, rhs: &Scalar) -> (out: Scalar)
        ensures
            out@ == (self@ - rhs@) % (group_order() as int),
    {
        proof {
            use_type_invariant(self);
            use_type_invariant(rhs);
            lemma_mod_bound(self@ - rhs@, group_order() as int);
        }
        Scalar { bytes: scalar_sub(&self.bytes, &rhs.bytes) }
    }

    /// The product of two scalars.
    pub fn mul(&self, rhs: &Scalar) -> (out: Scalar)
        ensures
            out@ == (self@ * rhs@) % group_order(),
    {
        proof {
            use_type_invariant(self);
            use_type_invariant(rhs);
            lemma_mod_bound((self@ * rhs@) as int, group_order() as int);
        }
        Scalar { bytes: scalar_mul(&self.bytes, &rhs.bytes) }
    }

    /// The inverse of the scalar, present exactly when the scalar is not zero.
    pub fn invert(&self) -> (out: CtOption<Scalar>)
        ensures
            out.present() == (self@ != 0),
            out.present() ==> out.inner()@ == inverse_mod(self@, group_order()),
    {
        proof {
            use_type_invariant(self);
        }
        let (bytes, mask) = scalar_invert(&self.bytes);
        proof {
            if mask == 1 {
                lemma_inverse_is(self@, le_value(bytes@), group_order());
            }
        }
        CtOption::new(Scalar { bytes }, mask)
    }

    /// Whether two scalars stand for the same number.
    pub fn equals(&self, other: &Scalar) -> (same: bool)
        ensures
            same == (self@ == other@),
    {
        proof {
            if self@ == other@ {
                lemma_le_value_injective(self.bytes@, other.bytes@);
            }
        }
        same_bytes(self.bytes.as_slice(), other.bytes.as_slice())
    }
}

} // verus!
