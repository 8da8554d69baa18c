//! What holds of the pairing construction.
//!
//! The first part needs nothing but the contracts of the library. The second part is the
//! correctness of the protocol, and rests on the algebra of the groups, which this library
//! takes from the arithmetic crate and cannot prove: it is stated once, in `group_laws`, and
//! every lemma that rests on it says so in its `requires`.

use vstd::prelude::*;
use vstd::arithmetic::div_mod::lemma_mod_bound;
use vstd::arithmetic::mul::lemma_mul_is_commutative;
use crate::common::SignedToken;
use crate::modular::{
    inverse_mod, is_inverse_mod, lemma_blinding_cancels, lemma_inverse_unique,
    lemma_sums_tell_apart,
};
use super::backend::{
    g1_decodes, g1_hash, g1_identity_encoding, g1_product, g1_sum, g2_decodes,
    g2_generator_encoding, g2_product, g2_sum, group_order, pairings_agree,
};
use super::keys::{spec_public_key, PublicKey};
use super::tokens::{
    signature_verifies, spec_sign_randomized, spec_unrandomize, verification_point,
    PairingSignedToken, RandomizedModel, UnsignedModel,
};
use super::tokens_batched::{
    scaled, scaled_by_inverses, spec_randomize_with_seed, spec_sign_batch,
    spec_unrandomize_batch, sum_of, BatchedSignedModel, BatchedUnsignedModel,
};
use super::util::{
    hashed_scalar, seeded_draws, seeded_vartime, spec_h_1, spec_h_m, spec_seeded_scalars,
    SAMPLING_ROUNDS,
};

verus! {

/// Verification of a single token draws nothing: two answers to one token and one key are
/// the same answer.
pub proof fn lemma_verify_is_repeatable(
    token: &PairingSignedToken,
    key: &PublicKey,
    first: bool,
    second: bool,
)
    requires
        token.verifies_as(key, first),
        token.verifies_as(key, second),
    ensures
        first == second,
{
}

/// What the client checks is what the verifier checks: a token that the client's check let
/// through verifies under the key that it was checked against.
pub proof fn lemma_checked_token_verifies(
    unsigned: UnsignedModel,
    signed: RandomizedModel,
    public_key: Seq<u8>,
    r: nat,
)
    ensures
        spec_unrandomize(unsigned, signed, public_key, r) matches Some(token)
            ==> signature_verifies(
            token.id.tag(),
            token.metadata,
            token.signature,
            public_key,
        ),
{
}

/// A batch that the client's check let through verifies by its plain sums under the key that
/// it was checked against. It need not verify with coefficients, nor need its single tokens:
/// the client's check is made with the scalars of its seed, which a signer does not know.
pub proof fn lemma_checked_batch_verifies(
    unsigned: BatchedUnsignedModel,
    signed: Seq<Seq<u8>>,
    public_key: Seq<u8>,
    seed: Seq<u8>,
)
    ensures
        spec_unrandomize_batch(unsigned, signed, public_key, seed) matches Some(token)
            ==> token.verifies_without_coefficients(public_key),
{
}

/// A scalar that metadata hash to is below the group order.
pub proof fn lemma_hashed_scalar_is_canonical(data: Seq<u8>, rounds: nat)
    ensures
        hashed_scalar(data, rounds) matches Some(d) ==> d < group_order(),
    decreases rounds,
{
    if rounds > 0 {
        let digest = crate::hashing::sha256_digest(super::util::hash_to_scalar_domain() + data);
        lemma_hashed_scalar_is_canonical(digest, (rounds - 1) as nat);
    }
}

/// A scalar that is drawn from a stream is below the group order.
pub proof fn lemma_seeded_scalar_is_canonical(seed: Seq<u8>, position: nat, rounds: nat)
    ensures
        seeded_vartime(seed, position, rounds) matches Some(drawn) ==> drawn.0 < group_order(),
    decreases rounds,
{
    if rounds > 0 {
        lemma_seeded_scalar_is_canonical(seed, position + 32, (rounds - 1) as nat);
    }
}

/// The scalars that are drawn from a stream are as many as were asked for, and each is below
/// the group order.
pub proof fn lemma_seeded_scalars_are_canonical(seed: Seq<u8>, count: nat)
    ensures
        seeded_draws(seed, count) matches Some(drawn) ==> drawn.0.len() == count && forall|
            i: int,
        |
            0 <= i < count ==> #[trigger] drawn.0[i] < group_order(),
    decreases count,
{
    if count > 0 {
        lemma_seeded_scalars_are_canonical(seed, (count - 1) as nat);
        if let Some((_, position)) = seeded_draws(seed, (count - 1) as nat) {
            lemma_seeded_scalar_is_canonical(seed, position, SAMPLING_ROUNDS as nat);
        }
    }
}

/// The algebra of BLS12-381 that the correctness of the protocol rests on, stated of the
/// named operations: every scalar but zero has an inverse; the points that the operations
/// give are points of their groups; multiplying a point of G1 by one scalar and then another
/// multiplies it by their product; multiplying a sum of points of G1 multiplies each, and the
/// point at infinity stays what it is; multiples of one point of G2 add as their scalars do;
/// and the pairing is bilinear, so that scalars which are inverses of each other cancel
/// across it.
#[verifier::opaque]
pub open spec fn group_laws() -> bool {
    let q = group_order();
    &&& forall|x: nat| 0 < x < q ==> is_inverse_mod(x, #[trigger] inverse_mod(x, q), q)
    &&& g1_decodes(g1_identity_encoding())
    &&& g2_decodes(g2_generator_encoding())
    &&& forall|message: Seq<u8>, dst: Seq<u8>| g1_decodes(#[trigger] g1_hash(message, dst))
    &&& forall|p: Seq<u8>, a: nat| g1_decodes(p) && a < q ==> g1_decodes(#[trigger] g1_product(p, a))
    &&& forall|a: Seq<u8>, b: Seq<u8>|
        g1_decodes(a) && g1_decodes(b) ==> g1_decodes(#[trigger] g1_sum(a, b))
    &&& forall|p: Seq<u8>, a: nat, b: nat|
        g1_decodes(p) && a < q && b < q ==> #[trigger] g1_product(g1_product(p, a), b)
            == g1_product(p, (a * b) % q)
    &&& forall|a: nat| a < q ==> #[trigger] g1_product(g1_identity_encoding(), a) == g1_identity_encoding()
    &&& forall|s: Seq<u8>, t: Seq<u8>, a: nat|
        g1_decodes(s) && g1_decodes(t) && a < q ==> #[trigger] g1_product(g1_sum(s, t), a)
            == g1_sum(g1_product(s, a), g1_product(t, a))
    &&& forall|s: Seq<u8>, a: nat, b: nat|
        g2_decodes(s) && a < q && b < q ==> #[trigger] g2_sum(g2_product(s, a), g2_product(s, b))
            == g2_product(s, (a + b) % q)
    &&& forall|p: Seq<u8>, s: Seq<u8>, a: nat, b: nat|
        g1_decodes(p) && g2_decodes(s) && a < q && b < q && (a * b) % q == 1
            ==> #[trigger] pairings_agree(g1_product(p, a), g2_product(s, b), p, s)
}

/// What the pairing tells apart: where a point of G1 is not the point at infinity, its
/// multiple by `a` pairs with the multiple of the generator of G2 by `b` as the point pairs
/// with the generator only if `a` and `b` are inverses of each other.
#[verifier::opaque]
pub open spec fn pairing_is_faithful() -> bool {
    let q = group_order();
    forall|p: Seq<u8>, a: nat, b: nat|
        g1_decodes(p) && p != g1_identity_encoding() && a < q && b < q && #[trigger] pairings_agree(
            g1_product(p, a),
            g2_product(g2_generator_encoding(), b),
            p,
            g2_generator_encoding(),
        ) ==> (a * b) % q == 1
}

/// The law of inverses, of one scalar.
proof fn law_inverse(x: nat)
    requires
        group_laws(),
        0 < x < group_order(),
    ensures
        is_inverse_mod(x, inverse_mod(x, group_order()), group_order()),
{
    reveal(group_laws);
}

/// The laws of closure.
proof fn law_closure(p: Seq<u8>, s: Seq<u8>, a: nat)
    requires
        group_laws(),
        g1_decodes(p),
        g1_decodes(s),
        a < group_order(),
    ensures
        g1_decodes(g1_product(p, a)),
        g1_decodes(g1_sum(p, s)),
        g1_decodes(g1_identity_encoding()),
        g2_decodes(g2_generator_encoding()),
{
    reveal(group_laws);
}

/// The law of the hash, of one tag and metadata.
proof fn law_hash_decodes(tag: Seq<u8>, metadata: Seq<u8>)
    requires
        group_laws(),
    ensures
        g1_decodes(spec_h_1(tag, metadata)),
{
    reveal(group_laws);
}

/// The law of products, of one point and two scalars.
proof fn law_product(p: Seq<u8>, a: nat, b: nat)
    requires
        group_laws(),
        g1_decodes(p),
        a < group_order(),
        b < group_order(),
    ensures
        g1_product(g1_product(p, a), b) == g1_product(p, (a * b) % group_order()),
{
    reveal(group_laws);
}

/// The law of the point at infinity, of one scalar.
proof fn law_identity(a: nat)
    requires
        group_laws(),
        a < group_order(),
    ensures
        g1_product(g1_identity_encoding(), a) == g1_identity_encoding(),
{
    reveal(group_laws);
}

/// The law of sums in G1, of two points and one scalar.
proof fn law_distributes(s: Seq<u8>, t: Seq<u8>, a: nat)
    requires
        group_laws(),
        g1_decodes(s),
        g1_decodes(t),
        a < group_order(),
    ensures
        g1_product(g1_sum(s, t), a) == g1_sum(g1_product(s, a), g1_product(t, a)),
{
    reveal(group_laws);
}

/// The law of sums in G2, of the generator and two scalars.
proof fn law_verification_point(a: nat, b: nat)
    requires
        group_laws(),
        a < group_order(),
        b < group_order(),
    ensures
        verification_point(a, spec_public_key(b)) == g2_product(
            g2_generator_encoding(),
            (a + b) % group_order(),
        ),
{
    reveal(group_laws);
}

/// The law of the pairing, of one point and two scalars that are inverses of each other.
proof fn law_pairing(p: Seq<u8>, a: nat, b: nat)
    requires
        group_laws(),
        g1_decodes(p),
        a < group_order(),
        b < group_order(),
        (a * b) % group_order() == 1,
    ensures
        pairings_agree(
            g1_product(p, a),
            g2_product(g2_generator_encoding(), b),
            p,
            g2_generator_encoding(),
        ),
{
    reveal(group_laws);
}

/// A point that is blinded with the inverse of `r`, multiplied by `e` and unblinded with `r`
/// is the point times `e`.
proof fn lemma_unblinded(h: Seq<u8>, r: nat, e: nat)
    requires
        group_laws(),
        g1_decodes(h),
        0 < r < group_order(),
        e < group_order(),
    ensures
        g1_product(g1_product(g1_product(h, inverse_mod(r, group_order())), e), r) == g1_product(
            h,
            e,
        ),
{
    let q = group_order();
    let rinv = inverse_mod(r, q);
    law_inverse(r);
    law_product(h, rinv, e);
    lemma_mod_bound((rinv * e) as int, q as int);
    law_product(h, (rinv * e) % q, r);
    lemma_blinding_cancels(r, rinv, e, q);
}

/// The token's point times the inverse of the sum of the metadata's hash and the key is a
/// signature under the public key of that key.
proof fn lemma_point_times_inverse_verifies(tag: Seq<u8>, metadata: Seq<u8>, sk: nat)
    requires
        group_laws(),
        sk < group_order(),
        spec_h_m(metadata) matches Some(d) && (d + sk) % group_order() != 0,
    ensures
        signature_verifies(
            tag,
            metadata,
            g1_product(
                spec_h_1(tag, metadata),
                inverse_mod(
                    ((spec_h_m(metadata)->Some_0 + sk) % group_order()) as nat,
                    group_order(),
                ),
            ),
            spec_public_key(sk),
        ),
{
    law_hash_decodes(tag, metadata);
    lemma_sum_verifies(spec_h_1(tag, metadata), metadata, sk);
}

/// A point times the inverse of the sum of the metadata's hash and the key pairs with the
/// verification point as the point pairs with the generator.
proof fn lemma_sum_verifies(p: Seq<u8>, metadata: Seq<u8>, sk: nat)
    requires
        group_laws(),
        g1_decodes(p),
        sk < group_order(),
        spec_h_m(metadata) matches Some(d) && (d + sk) % group_order() != 0,
    ensures
        pairings_agree(
            g1_product(
                p,
                inverse_mod(
                    ((spec_h_m(metadata)->Some_0 + sk) % group_order()) as nat,
                    group_order(),
                ),
            ),
            verification_point(spec_h_m(metadata)->Some_0, spec_public_key(sk)),
            p,
            g2_generator_encoding(),
        ),
{
    let q = group_order();
    let d = spec_h_m(metadata)->Some_0;
    lemma_hashed_scalar_is_canonical(metadata, SAMPLING_ROUNDS as nat);
    let sum = (d + sk) % q;
    let e = inverse_mod(sum, q);
    law_inverse(sum);
    law_verification_point(d, sk);
    assert((e * sum) % q == 1) by {
        lemma_mul_is_commutative(e as int, sum as int);
    }
    law_pairing(p, e, sum);
}

/// The signature that the signer with the private key `sk` gives on a token, randomized with
/// `r` and unrandomized again, is the token's point times the inverse of the sum of the
/// metadata's hash and the key.
pub proof fn lemma_honest_signature(unsigned: UnsignedModel, r: nat, sk: nat)
    requires
        group_laws(),
        0 < r < group_order(),
        sk < group_order(),
        spec_h_m(unsigned.metadata) matches Some(d) && (d + sk) % group_order() != 0,
    ensures
        spec_sign_randomized(unsigned.randomized(r), sk) matches Some(signed) && g1_product(
            signed.point,
            r,
        ) == g1_product(
            unsigned.point(),
            inverse_mod(
                ((spec_h_m(unsigned.metadata)->Some_0 + sk) % group_order()) as nat,
                group_order(),
            ),
        ),
{
    let q = group_order();
    let d = spec_h_m(unsigned.metadata)->Some_0;
    let sum = (d + sk) % q;
    let e = inverse_mod(sum, q);
    law_inverse(sum);
    let h = unsigned.point();
    law_hash_decodes(unsigned.id.tag(), unsigned.metadata);
    let signed = g1_product(g1_product(h, inverse_mod(r, q)), e);
    assert(spec_sign_randomized(unsigned.randomized(r), sk) == Some(
        RandomizedModel { point: signed, metadata: unsigned.metadata },
    ));
    lemma_unblinded(h, r, e);
}

/// Correctness of one token, under the laws of the groups: a token that is randomized with
/// `r`, signed with the private key `sk` and unrandomized with `r` passes the client's check
/// against the public key of `sk`, and verifies under it.
///
/// The metadata are those that hash to a scalar whose sum with the key is not zero: on the
/// others the signer gives no signature.
pub proof fn lemma_honest_token_verifies(unsigned: UnsignedModel, r: nat, sk: nat)
    requires
        group_laws(),
        0 < r < group_order(),
        sk < group_order(),
        spec_h_m(unsigned.metadata) matches Some(d) && (d + sk) % group_order() != 0,
    ensures
        spec_sign_randomized(unsigned.randomized(r), sk) matches Some(signed) && (spec_unrandomize(
            unsigned,
            signed,
            spec_public_key(sk),
            r,
        ) matches Some(token) && token.id == unsigned.id && token.metadata == unsigned.metadata
            && signature_verifies(
            token.id.tag(),
            token.metadata,
            token.signature,
            spec_public_key(sk),
        )),
{
    lemma_honest_signature(unsigned, r, sk);
    lemma_point_times_inverse_verifies(unsigned.id.tag(), unsigned.metadata, sk);
}

/// Rejection under another key, under the laws of the groups: what the signer with the
/// private key `signer` gives on a token does not pass the check against the public key of
/// another private key, `other`. So a client that asks the wrong signer gets no token, and a
/// verifier with the wrong key rejects.
///
/// The token is one whose point is not the point at infinity: a signature on that point
/// is that point under every key.
pub proof fn lemma_wrong_key_is_rejected(unsigned: UnsignedModel, r: nat, signer: nat, other: nat)
    requires
        group_laws(),
        pairing_is_faithful(),
        unsigned.point() != g1_identity_encoding(),
        0 < r < group_order(),
        signer < group_order(),
        other < group_order(),
        signer != other,
        spec_h_m(unsigned.metadata) matches Some(d) && (d + signer) % group_order() != 0,
    ensures
        spec_sign_randomized(unsigned.randomized(r), signer) matches Some(signed)
            && spec_unrandomize(unsigned, signed, spec_public_key(other), r) is None
            && !signature_verifies(
            unsigned.id.tag(),
            unsigned.metadata,
            g1_product(signed.point, r),
            spec_public_key(other),
        ),
{
    let q = group_order();
    let d = spec_h_m(unsigned.metadata)->Some_0;
    lemma_hashed_scalar_is_canonical(unsigned.metadata, SAMPLING_ROUNDS as nat);
    let sum = (d + signer) % q;
    let wrong = (d + other) % q;
    let e = inverse_mod(sum, q);
    law_inverse(sum);
    let h = unsigned.point();
    law_hash_decodes(unsigned.id.tag(), unsigned.metadata);
    lemma_honest_signature(unsigned, r, signer);
    let signed = spec_sign_randomized(unsigned.randomized(r), signer)->Some_0;
    let signature = g1_product(signed.point, r);
    law_verification_point(d, other);
    if signature_verifies(unsigned.id.tag(), unsigned.metadata, signature, spec_public_key(other)) {
        assert((e * wrong) % q == 1) by {
            reveal(pairing_is_faithful);
        }
        // both sums are inverses of `e`, so they are one sum, and the keys one key
        assert(is_inverse_mod(e, sum, q)) by {
            lemma_mul_is_commutative(e as int, sum as int);
        }
        lemma_inverse_unique(e, wrong, sum, q);
        lemma_sums_tell_apart(d, signer, other, q);
    }
}

/// Whether every string of `points` is the encoding of a point of G1.
pub open spec fn all_decode(points: Seq<Seq<u8>>) -> bool {
    forall|i: int| 0 <= i < points.len() ==> g1_decodes(#[trigger] points[i])
}

/// Whether every scalar of `scalars` is below the group order.
pub open spec fn all_canonical(scalars: Seq<nat>) -> bool {
    forall|i: int| 0 <= i < scalars.len() ==> #[trigger] scalars[i] < group_order()
}

/// Each point times `e`.
pub open spec fn each_times(points: Seq<Seq<u8>>, e: nat) -> Seq<Seq<u8>> {
    Seq::new(points.len(), |i: int| g1_product(points[i], e))
}

/// A sum of points of G1 is a point of G1.
proof fn lemma_sum_decodes(points: Seq<Seq<u8>>)
    requires
        group_laws(),
        all_decode(points),
    ensures
        g1_decodes(sum_of(points)),
    decreases points.len(),
{
    if points.len() == 0 {
        reveal(group_laws);
    } else {
        assert(all_decode(points.drop_last())) by {
            assert forall|i: int| 0 <= i < points.drop_last().len() implies g1_decodes(
                #[trigger] points.drop_last()[i],
            ) by {
                assert(points.drop_last()[i] == points[i]);
            }
        }
        lemma_sum_decodes(points.drop_last());
        law_closure(sum_of(points.drop_last()), points.last(), 0);
    }
}

/// The sum of points that are each multiplied by `e` is their sum multiplied by `e`.
proof fn lemma_sum_of_multiples(points: Seq<Seq<u8>>, e: nat)
    requires
        group_laws(),
        all_decode(points),
        e < group_order(),
    ensures
        sum_of(each_times(points, e)) == g1_product(sum_of(points), e),
    decreases points.len(),
{
    let multiples = each_times(points, e);
    if points.len() == 0 {
        law_identity(e);
    } else {
        let head = points.drop_last();
        assert(all_decode(head)) by {
            assert forall|i: int| 0 <= i < head.len() implies g1_decodes(#[trigger] head[i]) by {
                assert(head[i] == points[i]);
            }
        }
        assert(multiples.drop_last() =~= each_times(head, e));
        assert(multiples.last() == g1_product(points.last(), e));
        lemma_sum_of_multiples(head, e);
        lemma_sum_decodes(head);
        law_distributes(sum_of(head), points.last(), e);
    }
}

/// Multiplying each point by `e` and then by the scalar at its place is multiplying it by the
/// scalar at its place and then by `e`.
proof fn lemma_scalings_commute(points: Seq<Seq<u8>>, e: nat, scalars: Seq<nat>)
    requires
        group_laws(),
        all_decode(points),
        e < group_order(),
        scalars.len() == points.len(),
        all_canonical(scalars),
    ensures
        scaled(each_times(points, e), scalars) == each_times(scaled(points, scalars), e),
        all_decode(scaled(points, scalars)),
{
    let q = group_order();
    let left = scaled(each_times(points, e), scalars);
    let right = each_times(scaled(points, scalars), e);
    assert forall|i: int| 0 <= i < points.len() implies left[i] == right[i] && g1_decodes(
        #[trigger] scaled(points, scalars)[i],
    ) by {
        let c = scalars[i];
        assert(g1_decodes(points[i]));
        assert(c < q);
        law_product(points[i], e, c);
        law_product(points[i], c, e);
        lemma_mul_is_commutative(e as int, c as int);
        law_closure(points[i], points[i], c);
    }
    assert(left =~= right);
}

/// The signatures that the signer with the private key `sk` gives on a batch, randomized
/// with the scalars of the stream of `seed` and unrandomized again, are the tokens' points,
/// each times the inverse of the sum of the metadata's hash and the key.
proof fn lemma_honest_batch_signatures(unsigned: BatchedUnsignedModel, seed: Seq<u8>, sk: nat)
    requires
        group_laws(),
        sk < group_order(),
        spec_h_m(unsigned.metadata) matches Some(d) && (d + sk) % group_order() != 0,
        spec_randomize_with_seed(unsigned, seed) is Some,
    ensures
        ({
            let signed = spec_sign_batch(spec_randomize_with_seed(unsigned, seed)->Some_0, sk);
            let drawn = spec_seeded_scalars(seed, unsigned.ids.len());
            &&& signed is Some
            &&& signed->Some_0.len() == unsigned.ids.len()
            &&& drawn is Some
            &&& scaled(signed->Some_0, drawn->Some_0) == each_times(
                unsigned.points(),
                inverse_mod(
                    ((spec_h_m(unsigned.metadata)->Some_0 + sk) % group_order()) as nat,
                    group_order(),
                ),
            )
        }),
        all_decode(unsigned.points()),
{
    let q = group_order();
    let d = spec_h_m(unsigned.metadata)->Some_0;
    let sum = (d + sk) % q;
    let e = inverse_mod(sum, q);
    law_inverse(sum);
    let count = unsigned.ids.len();
    let drawn = spec_seeded_scalars(seed, count)->Some_0;
    lemma_seeded_scalars_are_canonical(seed, count);
    let points = unsigned.points();
    let randomized = spec_randomize_with_seed(unsigned, seed)->Some_0;
    assert(randomized.points == scaled_by_inverses(points, drawn));
    let signed = spec_sign_batch(randomized, sk)->Some_0;
    assert(signed.len() == count);
    let signatures = scaled(signed, drawn);
    assert forall|i: int| 0 <= i < count implies g1_decodes(#[trigger] points[i])
        && signatures[i] == g1_product(points[i], e) by {
        law_hash_decodes(unsigned.ids[i].tag(), unsigned.metadata);
        assert(drawn[i] != 0);
        assert(drawn[i] < q);
        lemma_unblinded(points[i], drawn[i], e);
    }
    assert(signatures =~= each_times(points, e));
}

/// Correctness of a batch, under the laws of the groups: a batch that is randomized with the
/// scalars of the stream of `seed`, signed with the private key `sk` and unrandomized passes
/// the client's check against the public key of `sk`; it verifies under that key with any
/// coefficients, and without; and each of its single tokens verifies under that key.
///
/// The metadata are those that hash to a scalar whose sum with the key is not zero, and the
/// seed is one that a batch can be randomized with.
pub proof fn lemma_honest_batch_verifies(
    unsigned: BatchedUnsignedModel,
    seed: Seq<u8>,
    sk: nat,
    coefficients: Seq<nat>,
)
    requires
        group_laws(),
        sk < group_order(),
        spec_h_m(unsigned.metadata) matches Some(d) && (d + sk) % group_order() != 0,
        spec_randomize_with_seed(unsigned, seed) is Some,
        coefficients.len() == unsigned.ids.len(),
        all_canonical(coefficients),
    ensures
        ({
            let pk = spec_public_key(sk);
            let signed = spec_sign_batch(spec_randomize_with_seed(unsigned, seed)->Some_0, sk);
            let token = spec_unrandomize_batch(unsigned, signed->Some_0, pk, seed);
            &&& signed is Some
            &&& token is Some
            &&& token->Some_0.ids == unsigned.ids
            &&& token->Some_0.metadata == unsigned.metadata
            &&& token->Some_0.verifies_with(pk, coefficients)
            &&& token->Some_0.verifies_without_coefficients(pk)
            &&& forall|i: int|
                0 <= i < unsigned.ids.len() ==> signature_verifies(
                    (#[trigger] token->Some_0.token(i)).id.tag(),
                    token->Some_0.token(i).metadata,
                    token->Some_0.token(i).signature,
                    pk,
                )
        }),
{
    let q = group_order();
    let d = spec_h_m(unsigned.metadata)->Some_0;
    let sum = (d + sk) % q;
    let e = inverse_mod(sum, q);
    law_inverse(sum);
    let pk = spec_public_key(sk);
    let points = unsigned.points();
    lemma_honest_batch_signatures(unsigned, seed, sk);
    let signed = spec_sign_batch(spec_randomize_with_seed(unsigned, seed)->Some_0, sk)->Some_0;
    let drawn = spec_seeded_scalars(seed, signed.len())->Some_0;
    let signatures = scaled(signed, drawn);
    assert(signatures == each_times(points, e));
    // the plain sums
    lemma_sum_of_multiples(points, e);
    lemma_sum_decodes(points);
    lemma_sum_verifies(sum_of(points), unsigned.metadata, sk);
    let token = BatchedSignedModel { ids: unsigned.ids, metadata: unsigned.metadata, signatures };
    assert(spec_unrandomize_batch(unsigned, signed, pk, seed) == Some(token));
    // the sums with coefficients
    lemma_scalings_commute(points, e, coefficients);
    let weighted = scaled(points, coefficients);
    lemma_sum_of_multiples(weighted, e);
    lemma_sum_decodes(weighted);
    lemma_sum_verifies(sum_of(weighted), unsigned.metadata, sk);
    // the single tokens
    assert forall|i: int| 0 <= i < unsigned.ids.len() implies signature_verifies(
        (#[trigger] token.token(i)).id.tag(),
        token.token(i).metadata,
        token.token(i).signature,
        pk,
    ) by {
        lemma_point_times_inverse_verifies(unsigned.ids[i].tag(), unsigned.metadata, sk);
    }
}

} // verus!
