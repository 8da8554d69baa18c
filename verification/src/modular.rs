//! Arithmetic modulo a number: inverses, as the contracts of the scalar fields state them, and
//! the identities that the protocols rest on.

use vstd::prelude::*;
use vstd::arithmetic::div_mod::{
    lemma_add_mod_noop, lemma_mod_bound, lemma_mod_equivalence, lemma_mod_twice,
    lemma_mul_mod_noop_left, lemma_mul_mod_noop_right, lemma_small_mod,
};
use vstd::arithmetic::mul::{lemma_mul_is_associative, lemma_mul_is_commutative};

verus! {

/// Whether `y` is the inverse of `x` modulo `m`, as a number below `m`.
pub open spec fn is_inverse_mod(x: nat, y: nat, m: nat) -> bool {
    y < m && (x * y) % m == 1
}

/// The inverse of `x` modulo `m`, where there is one.
pub open spec fn inverse_mod(x: nat, m: nat) -> nat {
    choose|y: nat| is_inverse_mod(x, y, m)
}

/// A number has at most one inverse modulo `m`.
pub proof fn lemma_inverse_unique(x: nat, y1: nat, y2: nat, m: nat)
    requires
        is_inverse_mod(x, y1, m),
        is_inverse_mod(x, y2, m),
    ensures
        y1 == y2,
{
    let mi = m as int;
    let a = y1 as int;
    let b = y2 as int;
    let c = x as int;
    // a = a * (c * b) = (a * c) * b = b, all modulo m
    assert((a * (c * b)) % mi == a) by {
        lemma_mul_mod_noop_right(a, c * b, mi);
        lemma_small_mod(y1, m);
        assert(a * 1 == a);
    }
    assert(((a * c) * b) % mi == b) by {
        lemma_mul_is_commutative(a, c);
        lemma_mul_mod_noop_left(a * c, b, mi);
        lemma_small_mod(y2, m);
        assert(1 * b == b);
    }
    assert(a * (c * b) == (a * c) * b) by {
        lemma_mul_is_associative(a, c, b);
    }
}

/// An inverse that is at hand is the inverse.
pub proof fn lemma_inverse_is(x: nat, y: nat, m: nat)
    requires
        is_inverse_mod(x, y, m),
    ensures
        inverse_mod(x, m) == y,
{
    let chosen = inverse_mod(x, m);
    assert(is_inverse_mod(x, chosen, m));
    lemma_inverse_unique(x, chosen, y, m);
}

/// Blinding with `r` and its inverse cancels: where `x` is an inverse of `r`, multiplying by
/// `x`, then by `e`, then by `r` multiplies by `e`.
pub proof fn lemma_blinding_cancels(r: nat, x: nat, e: nat, q: nat)
    requires
        is_inverse_mod(r, x, q),
        e < q,
    ensures
        ((((x * e) % q) * r) % q) == e,
{
    let qi = q as int;
    let (ri, xi, ei) = (r as int, x as int, e as int);
    assert((((xi * ei) % qi) * ri) % qi == ((xi * ei) * ri) % qi) by {
        lemma_mul_mod_noop_left(xi * ei, ri, qi);
    }
    assert((xi * ei) * ri == ei * (ri * xi)) by {
        lemma_mul_is_commutative(xi, ei);
        lemma_mul_is_associative(ei, xi, ri);
        lemma_mul_is_commutative(xi, ri);
    }
    assert((ei * (ri * xi)) % qi == ei) by {
        lemma_mul_mod_noop_right(ei, ri * xi, qi);
        assert(ei * 1 == ei);
        lemma_small_mod(e, q);
    }
}

/// A number `r` below `q`, less a product modulo `q`, plus that product modulo `q`, is `r`
/// again: the response of a proof and the challenge times the exponent add up to the nonce.
pub proof fn lemma_response_restores_nonce(r: nat, k: nat, c: nat, q: nat)
    requires
        r < q,
    ensures
        ((((r - (k * c) % q) % (q as int)) + (k * c) % q) % (q as int)) == r,
{
    let qi = q as int;
    let kc = ((k * c) % q) as int;
    let z = (r - kc) % qi;
    lemma_mod_bound(r - kc, qi);
    assert((z + kc) % qi == ((r - kc) + kc) % qi) by {
        lemma_add_mod_noop(r - kc, kc, qi);
        lemma_mod_bound((k * c) as int, qi);
        lemma_small_mod(kc as nat, q);
        lemma_add_mod_noop(z, kc, qi);
        lemma_mod_twice(r - kc, qi);
    }
    lemma_small_mod(r, q);
}

/// Two numbers below `q` whose sums with `d` agree modulo `q` are one number.
pub proof fn lemma_sums_tell_apart(d: nat, a: nat, b: nat, q: nat)
    requires
        a < q,
        b < q,
        (d + a) % q == (d + b) % q,
    ensures
        a == b,
{
    let qi = q as int;
    if a < b {
        lemma_mod_equivalence((d + b) as int, (d + a) as int, qi);
        lemma_small_mod((b - a) as nat, q);
    } else if b < a {
        lemma_mod_equivalence((d + a) as int, (d + b) as int, qi);
        lemma_small_mod((a - b) as nat, q);
    }
}

} // verus!
