//! What holds of the construction over secp256k1.
//!
//! The first part needs nothing but the contracts of the library. The second part is the
//! completeness of the proof and the correctness of the protocol, and rests on the algebra of
//! the group, which this library takes from the arithmetic crate and cannot prove: it is
//! stated once, in `group_laws`, and every lemma that rests on it says so in its `requires`.

use vstd::prelude::*;
use vstd::arithmetic::div_mod::lemma_mod_bound;
use vstd::arithmetic::mul::lemma_mul_is_commutative;
use crate::common::SignedToken;
use crate::modular::{
    inverse_mod, is_inverse_mod, lemma_blinding_cancels, lemma_inverse_unique,
    lemma_response_restores_nonce, lemma_sums_tell_apart,
};
use super::backend::{
    generator_encoding, group_order, identity_encoding, point_decodes, point_hash, point_product,
    point_sum,
};
use super::keys::{spec_public_key, PrivateKey};
use super::tokens::{
    signature_verifies, signed_with_nonce, signing_exponent, spec_create, spec_hash_data,
    spec_unrandomize, spec_verify, verification_point, NizkpSignedToken, RandomizedSignedModel,
    UnsignedModel,
};
use super::tokens_batched::{
    combination, scaled, scaled_by_inverses, signed_with_nonce as batch_signed_with_nonce,
    spec_create_batched, spec_linear_combination, spec_randomize_with_seed,
    spec_unrandomize_batch, spec_verify_batched, sum_of, transcript_seed,
    BatchedRandomizedSignedModel, BatchedUnsignedModel, NizkpSignedTokenBatched,
};
use super::util::{
    hashed_scalar, seeded_draws, seeded_vartime, spec_h_t, spec_hash_to_scalar,
    spec_seeded_scalars, SAMPLING_ROUNDS,
};

verus! {

/// Verification of a single token draws nothing: two answers to one token and one key are
/// the same answer.
pub proof fn lemma_verify_is_repeatable(
    token: &NizkpSignedToken,
    key: &PrivateKey,
    first: bool,
    second: bool,
)
    requires
        token.verifies_as(key, first),
        token.verifies_as(key, second),
    ensures
        first == second,
{
}

/// Verification of a batch draws nothing: two answers to one batch and one key are the same
/// answer.
pub proof fn lemma_batched_verify_is_repeatable<const N: usize>(
    token: &NizkpSignedTokenBatched<N>,
    key: &PrivateKey,
    first: bool,
    second: bool,
)
    requires
        token.verifies_as(key, first),
        token.verifies_as(key, second),
    ensures
        first == second,
{
}

/// The algebra of secp256k1 that completeness and correctness rest on, stated of the named
/// operations: every scalar but zero has an inverse; the points that the operations give are
/// points of the group; multiplying a point by one scalar and then another multiplies it by
/// their product, and by one leaves it as it is; multiples of one point add as their scalars
/// do; and multiplying a sum of points multiplies each, and the identity stays what it is.
#[verifier::opaque]
pub open spec fn group_laws() -> bool {
    let q = group_order();
    &&& forall|x: nat| 0 < x < q ==> is_inverse_mod(x, #[trigger] inverse_mod(x, q), q)
    &&& point_decodes(generator_encoding())
    &&& forall|message: Seq<u8>, dst: Seq<u8>| point_decodes(#[trigger] point_hash(message, dst))
    &&& forall|p: Seq<u8>, a: nat|
        point_decodes(p) && a < q ==> point_decodes(#[trigger] point_product(p, a))
    &&& forall|p: Seq<u8>, a: nat, b: nat|
        point_decodes(p) && a < q && b < q ==> #[trigger] point_product(point_product(p, a), b)
            == point_product(p, (a * b) % q)
    &&& forall|p: Seq<u8>| point_decodes(p) ==> #[trigger] point_product(p, 1) == p
    &&& forall|p: Seq<u8>, a: nat, b: nat|
        point_decodes(p) && a < q && b < q ==> #[trigger] point_sum(
            point_product(p, a),
            point_product(p, b),
        ) == point_product(p, (a + b) % q)
    &&& point_decodes(identity_encoding())
    &&& forall|a: Seq<u8>, b: Seq<u8>|
        point_decodes(a) && point_decodes(b) ==> point_decodes(#[trigger] point_sum(a, b))
    &&& forall|a: nat| a < q ==> #[trigger] point_product(identity_encoding(), a) == identity_encoding()
    &&& forall|s: Seq<u8>, t: Seq<u8>, a: nat|
        point_decodes(s) && point_decodes(t) && a < q ==> #[trigger] point_product(
            point_sum(s, t),
            a,
        ) == point_sum(point_product(s, a), point_product(t, a))
}

/// What multiplication tells apart: a point that is not the identity is its own multiple by
/// no scalar but one.
#[verifier::opaque]
pub open spec fn multiplication_is_faithful() -> bool {
    forall|p: Seq<u8>, a: nat|
        point_decodes(p) && p != identity_encoding() && a < group_order() && #[trigger] point_product(
            p,
            a,
        ) == p ==> a == 1
}

/// The law of inverses, of one scalar.
proof fn law_inverse(x: nat)
    requires
        group_laws(),
        0 < x < group_order(),
    ensures
        is_inverse_mod(x, inverse_mod(x, group_order()), group_order()),
{
    reveal(group_laws);
}

/// The laws of closure, of one point and one scalar.
proof fn law_closure(p: Seq<u8>, a: nat)
    requires
        group_laws(),
        point_decodes(p),
        a < group_order(),
    ensures
        point_decodes(point_product(p, a)),
{
    reveal(group_laws);
}

/// The law of the generator.
proof fn law_generator()
    requires
        group_laws(),
    ensures
        point_decodes(generator_encoding()),
{
    reveal(group_laws);
}

/// The law of the hash, of one tag and metadata.
proof fn law_hash_decodes(tag: Seq<u8>, metadata: Seq<u8>)
    requires
        group_laws(),
    ensures
        point_decodes(spec_h_t(tag, metadata)),
{
    reveal(group_laws);
}

/// The law of products, of one point and two scalars.
proof fn law_product(p: Seq<u8>, a: nat, b: nat)
    requires
        group_laws(),
        point_decodes(p),
        a < group_order(),
        b < group_order(),
    ensures
        point_product(point_product(p, a), b) == point_product(p, (a * b) % group_order()),
{
    reveal(group_laws);
}

/// The law of one, of one point.
proof fn law_one(p: Seq<u8>)
    requires
        group_laws(),
        point_decodes(p),
    ensures
        point_product(p, 1) == p,
{
    reveal(group_laws);
}

/// The law of sums, of one point and two scalars.
proof fn law_sum(p: Seq<u8>, a: nat, b: nat)
    requires
        group_laws(),
        point_decodes(p),
        a < group_order(),
        b < group_order(),
    ensures
        point_sum(point_product(p, a), point_product(p, b)) == point_product(
            p,
            (a + b) % group_order(),
        ),
{
    reveal(group_laws);
}

/// The laws of sums: a sum of points is a point, and the identity is one.
proof fn law_sum_closure(a: Seq<u8>, b: Seq<u8>)
    requires
        group_laws(),
        point_decodes(a),
        point_decodes(b),
    ensures
        point_decodes(point_sum(a, b)),
        point_decodes(identity_encoding()),
{
    reveal(group_laws);
}

/// The law of the identity, of one scalar.
proof fn law_identity(a: nat)
    requires
        group_laws(),
        a < group_order(),
    ensures
        point_product(identity_encoding(), a) == identity_encoding(),
        point_decodes(identity_encoding()),
{
    reveal(group_laws);
}

/// The law of sums of two points, of one scalar.
proof fn law_distributes(s: Seq<u8>, t: Seq<u8>, a: nat)
    requires
        group_laws(),
        point_decodes(s),
        point_decodes(t),
        a < group_order(),
    ensures
        point_product(point_sum(s, t), a) == point_sum(point_product(s, a), point_product(t, a)),
{
    reveal(group_laws);
}

/// A point times two scalars that are inverses of each other, one after the other, is the
/// point.
proof fn lemma_inverses_cancel(p: Seq<u8>, a: nat, b: nat)
    requires
        group_laws(),
        point_decodes(p),
        a < group_order(),
        b < group_order(),
        (a * b) % group_order() == 1,
    ensures
        point_product(point_product(p, a), b) == p,
{
    law_product(p, a, b);
    law_one(p);
}

/// A scalar that bytes hash to is below the group order.
pub proof fn lemma_hashed_scalar_is_canonical(data: Seq<u8>, rounds: nat)
    ensures
        hashed_scalar(data, rounds) matches Some(d) ==> d < group_order(),
    decreases rounds,
{
    if rounds > 0 {
        let digest = crate::hashing::sha256_digest(super::util::hash_to_scalar_domain() + data);
        lemma_hashed_scalar_is_canonical(digest, (rounds - 1) as nat);
    }
}

/// A scalar that is drawn from a stream is below the group order.
pub proof fn lemma_seeded_scalar_is_canonical(seed: Seq<u8>, position: nat, rounds: nat)
    ensures
        seeded_vartime(seed, position, rounds) matches Some(drawn) ==> drawn.0 < group_order(),
    decreases rounds,
{
    if rounds > 0 {
        lemma_seeded_scalar_is_canonical(seed, position + 8, (rounds - 1) as nat);
    }
}

/// The scalars that are drawn from a stream are as many as were asked for, and each is below
/// the group order.
pub proof fn lemma_seeded_scalars_are_canonical(seed: Seq<u8>, count: nat)
    ensures
        seeded_draws(seed, count) matches Some(drawn) ==> drawn.0.len() == count
            && all_canonical(drawn.0),
    decreases count,
{
    if count > 0 {
        lemma_seeded_scalars_are_canonical(seed, (count - 1) as nat);
        if let Some((_, position)) = seeded_draws(seed, (count - 1) as nat) {
            lemma_seeded_scalar_is_canonical(seed, position, SAMPLING_ROUNDS as nat);
        }
    }
}

/// Completeness of the proof, under the laws of the group: for `t` that is `w` times `k`, a
/// proof that is made for `t`, `w` and `k` with any nonce verifies against the generator
/// times `k`.
pub proof fn lemma_proof_is_complete(t: Seq<u8>, w: Seq<u8>, k: nat, r: nat)
    requires
        group_laws(),
        point_decodes(w),
        k < group_order(),
        r < group_order(),
        t == point_product(w, k),
        spec_create(t, w, k, r) is Some,
    ensures
        spec_verify(spec_create(t, w, k, r)->Some_0, t, w, point_product(generator_encoding(), k)),
{
    let q = group_order();
    let g = generator_encoding();
    let u = point_product(g, k);
    let a = point_product(g, r);
    let b = point_product(w, r);
    let made = spec_create(t, w, k, r)->Some_0;
    let c = made.c;
    let z = made.z;
    let kc = (k * c) % q;
    assert(spec_hash_data(u, t, w, a, b) == Some(c));
    lemma_hashed_scalar_is_canonical(
        crate::hashing::sha256_digest(super::tokens::dleq_domain() + g + u + t + w + a + b),
        SAMPLING_ROUNDS as nat,
    );
    lemma_mod_bound((k * c) as int, q as int);
    lemma_mod_bound(r - kc, q as int);
    lemma_response_restores_nonce(r, k, c, q);
    law_closure(w, k);
    law_generator();
    // the commitments come out again
    law_product(g, k, c);
    law_sum(g, z, kc);
    law_product(w, k, c);
    law_sum(w, z, kc);
    assert(point_sum(point_product(g, z), point_product(u, c)) == a);
    assert(point_sum(point_product(w, z), point_product(t, c)) == b);
}

/// A point that is blinded with the inverse of `r`, multiplied by `e` and unblinded with `r`
/// is the point times `e`.
proof fn lemma_unblinded(h: Seq<u8>, r: nat, e: nat)
    requires
        group_laws(),
        point_decodes(h),
        0 < r < group_order(),
        e < group_order(),
    ensures
        point_product(point_product(point_product(h, inverse_mod(r, group_order())), e), r)
            == point_product(h, e),
        point_decodes(point_product(h, inverse_mod(r, group_order()))),
{
    let q = group_order();
    let rinv = inverse_mod(r, q);
    law_inverse(r);
    law_product(h, rinv, e);
    lemma_mod_bound((rinv * e) as int, q as int);
    law_product(h, (rinv * e) % q, r);
    lemma_blinding_cancels(r, rinv, e, q);
    law_closure(h, rinv);
}

/// The signing exponent is below the group order, and the verification point of the public
/// key of `sk` is the generator times it.
proof fn lemma_verification_point(metadata: Seq<u8>, sk: nat)
    requires
        group_laws(),
        sk < group_order(),
        signing_exponent(metadata, sk) is Some,
    ensures
        signing_exponent(metadata, sk)->Some_0 < group_order(),
        verification_point(metadata, spec_public_key(sk)) == Some(
            point_product(generator_encoding(), signing_exponent(metadata, sk)->Some_0),
        ),
{
    let q = group_order();
    let d = spec_hash_to_scalar(metadata)->Some_0;
    lemma_hashed_scalar_is_canonical(metadata, SAMPLING_ROUNDS as nat);
    lemma_mod_bound((d + sk) as int, q as int);
    law_generator();
    law_sum(generator_encoding(), d, sk);
}

/// Correctness of one token, under the laws of the group: a token that is randomized with
/// `r`, signed with the private key `sk` and any nonce and unrandomized with `r` passes the
/// client's check against the public key of `sk`, and verifies under `sk`.
///
/// The signature is one that the signer gave: the metadata hash to a scalar, its sum with the
/// key is not zero, and the transcript of the proof hashes to a scalar.
pub proof fn lemma_honest_token_verifies(
    unsigned: UnsignedModel,
    r: nat,
    sk: nat,
    nonce: nat,
    signed: RandomizedSignedModel,
)
    requires
        group_laws(),
        0 < r < group_order(),
        sk < group_order(),
        nonce < group_order(),
        signed_with_nonce(unsigned.randomized(r), sk, nonce, signed),
    ensures
        spec_unrandomize(unsigned, unsigned.randomized(r), signed, spec_public_key(sk), r) matches Some(
            token,
        ) && token.id == unsigned.id && token.metadata == unsigned.metadata && signature_verifies(
            token.id.tag(),
            token.metadata,
            token.point,
            sk,
        ),
{
    let q = group_order();
    let sum = signing_exponent(unsigned.metadata, sk)->Some_0;
    lemma_verification_point(unsigned.metadata, sk);
    let e = inverse_mod(sum, q);
    law_inverse(sum);
    assert((e * sum) % q == 1) by {
        lemma_mul_is_commutative(e as int, sum as int);
    }
    let h = unsigned.point();
    law_hash_decodes(unsigned.id.tag(), unsigned.metadata);
    lemma_unblinded(h, r, e);
    let blinded = point_product(h, inverse_mod(r, q));
    let w = point_product(blinded, e);
    law_closure(blinded, e);
    // the blinded point is the blinded signature times the sum
    lemma_inverses_cancel(blinded, e, sum);
    lemma_proof_is_complete(blinded, w, sum, nonce);
    // the signature is the token's point times the inverse of the sum
    lemma_inverses_cancel(h, e, sum);
}

/// Rejection under another key, under the laws of the group: the signature of the signer with
/// the private key `signer` on a token's point does not verify under another private key,
/// `other`.
///
/// The token is one whose point is not the identity: a signature on the identity is the
/// identity under every key.
pub proof fn lemma_wrong_key_is_rejected(
    tag: Seq<u8>,
    metadata: Seq<u8>,
    signer: nat,
    other: nat,
)
    requires
        group_laws(),
        multiplication_is_faithful(),
        spec_h_t(tag, metadata) != identity_encoding(),
        signer < group_order(),
        other < group_order(),
        signer != other,
        signing_exponent(metadata, signer) matches Some(sum) && sum != 0,
    ensures
        !signature_verifies(
            tag,
            metadata,
            point_product(
                spec_h_t(tag, metadata),
                inverse_mod(signing_exponent(metadata, signer)->Some_0, group_order()),
            ),
            other,
        ),
{
    let q = group_order();
    let d = spec_hash_to_scalar(metadata)->Some_0;
    let sum = signing_exponent(metadata, signer)->Some_0;
    let wrong = signing_exponent(metadata, other)->Some_0;
    lemma_mod_bound((d + signer) as int, q as int);
    lemma_mod_bound((d + other) as int, q as int);
    let e = inverse_mod(sum, q);
    law_inverse(sum);
    let h = spec_h_t(tag, metadata);
    law_hash_decodes(tag, metadata);
    let point = point_product(h, e);
    if signature_verifies(tag, metadata, point, other) {
        law_product(h, e, wrong);
        lemma_mod_bound((e * wrong) as int, q as int);
        assert((e * wrong) % q == 1) by {
            reveal(multiplication_is_faithful);
        }
        assert(is_inverse_mod(e, sum, q)) by {
            lemma_mul_is_commutative(e as int, sum as int);
        }
        lemma_inverse_unique(e, wrong, sum, q);
        // the sums agree, so the keys do
        lemma_sums_tell_apart(d, signer, other, q);
    }
}

/// Whether every string of `points` is the encoding of a point.
pub open spec fn all_decode(points: Seq<Seq<u8>>) -> bool {
    forall|i: int| 0 <= i < points.len() ==> point_decodes(#[trigger] points[i])
}

/// Whether every scalar of `scalars` is below the group order.
pub open spec fn all_canonical(scalars: Seq<nat>) -> bool {
    forall|i: int| 0 <= i < scalars.len() ==> #[trigger] scalars[i] < group_order()
}

/// Each point times `e`.
pub open spec fn each_times(points: Seq<Seq<u8>>, e: nat) -> Seq<Seq<u8>> {
    Seq::new(points.len(), |i: int| point_product(points[i], e))
}

/// A sum of points is a point.
proof fn lemma_sum_decodes(points: Seq<Seq<u8>>)
    requires
        group_laws(),
        all_decode(points),
    ensures
        point_decodes(sum_of(points)),
    decreases points.len(),
{
    if points.len() == 0 {
        law_identity(0);
    } else {
        let head = points.drop_last();
        assert(all_decode(head)) by {
            assert forall|i: int| 0 <= i < head.len() implies point_decodes(#[trigger] head[i]) by {
                assert(head[i] == points[i]);
            }
        }
        lemma_sum_decodes(head);
        law_sum_closure(sum_of(head), points.last());
    }
}

/// The sum of points that are each multiplied by `e` is their sum multiplied by `e`.
proof fn lemma_sum_of_multiples(points: Seq<Seq<u8>>, e: nat)
    requires
        group_laws(),
        all_decode(points),
        e < group_order(),
    ensures
        sum_of(each_times(points, e)) == point_product(sum_of(points), e),
    decreases points.len(),
{
    let multiples = each_times(points, e);
    if points.len() == 0 {
        law_identity(e);
    } else {
        let head = points.drop_last();
        assert(all_decode(head)) by {
            assert forall|i: int| 0 <= i < head.len() implies point_decodes(#[trigger] head[i]) by {
                assert(head[i] == points[i]);
            }
        }
        assert(multiples.drop_last() =~= each_times(head, e));
        assert(multiples.last() == point_product(points.last(), e));
        lemma_sum_of_multiples(head, e);
        lemma_sum_decodes(head);
        law_distributes(sum_of(head), points.last(), e);
    }
}

/// The combination of points that are each multiplied by `e` is their combination multiplied
/// by `e`, and a point.
proof fn lemma_combination_of_multiples(
    points: Seq<Seq<u8>>,
    e: nat,
    scalars: Seq<nat>,
    count: nat,
)
    requires
        group_laws(),
        all_decode(points),
        all_canonical(scalars),
        e < group_order(),
        count <= points.len(),
        count <= scalars.len(),
    ensures
        combination(each_times(points, e), scalars, count) == point_product(
            combination(points, scalars, count),
            e,
        ),
        point_decodes(combination(points, scalars, count)),
    decreases count,
{
    if count == 0 {
        law_identity(e);
    } else {
        let last = (count - 1) as nat;
        lemma_combination_of_multiples(points, e, scalars, last);
        let c = scalars[count - 1];
        let x = points[count - 1];
        assert(point_decodes(x));
        assert(c < group_order());
        // the term of the multiples is the term of the points times `e`
        law_product(x, e, c);
        law_product(x, c, e);
        lemma_mul_is_commutative(e as int, c as int);
        law_closure(x, c);
        assert(each_times(points, e)[count - 1] == point_product(x, e));
        law_distributes(combination(points, scalars, last), point_product(x, c), e);
        law_sum_closure(combination(points, scalars, last), point_product(x, c));
    }
}

/// The points of an honest batch: the blinded points and the tokens' points are points, the
/// blinded points are as many as the tokens, and the unblinded signatures are the tokens'
/// points times `e`.
proof fn lemma_honest_batch_points(
    unsigned: BatchedUnsignedModel,
    seed: Seq<u8>,
    e: nat,
    signed: Seq<Seq<u8>>,
)
    requires
        group_laws(),
        e < group_order(),
        spec_randomize_with_seed(unsigned, seed) is Some,
        signed == each_times(spec_randomize_with_seed(unsigned, seed)->Some_0.points, e),
    ensures
        all_decode(unsigned.points()),
        all_decode(spec_randomize_with_seed(unsigned, seed)->Some_0.points),
        spec_randomize_with_seed(unsigned, seed)->Some_0.points.len() == unsigned.ids.len(),
        spec_seeded_scalars(seed, signed.len()) matches Some(drawn) && scaled(signed, drawn)
            == each_times(unsigned.points(), e),
{
    let count = unsigned.ids.len();
    let points = unsigned.points();
    let drawn = spec_seeded_scalars(seed, count)->Some_0;
    lemma_seeded_scalars_are_canonical(seed, count);
    let blinded = spec_randomize_with_seed(unsigned, seed)->Some_0.points;
    assert(blinded == scaled_by_inverses(points, drawn));
    let unblinded = scaled(signed, drawn);
    assert forall|i: int| 0 <= i < count implies point_decodes(#[trigger] points[i]) by {
        law_hash_decodes(unsigned.ids[i].tag(), unsigned.metadata);
    }
    assert forall|i: int| 0 <= i < count implies point_decodes(#[trigger] blinded[i])
        && unblinded[i] == point_product(points[i], e) by {
        assert(drawn[i] != 0);
        assert(drawn[i] < group_order());
        assert(point_decodes(points[i]));
        lemma_unblinded(points[i], drawn[i], e);
    }
    assert(unblinded =~= each_times(points, e));
}

/// Completeness of the proof for a batch, under the laws of the group: for signed points
/// that are the unsigned points times the inverse `e` of `k`, a proof that is made for the
/// two lists and `k` with any nonce verifies against the generator times `k`.
pub proof fn lemma_batched_proof_is_complete(t_list: Seq<Seq<u8>>, e: nat, k: nat, r: nat)
    requires
        group_laws(),
        all_decode(t_list),
        is_inverse_mod(k, e, group_order()),
        k < group_order(),
        r < group_order(),
        spec_create_batched(t_list, each_times(t_list, e), k, r) is Some,
    ensures
        spec_verify_batched(
            spec_create_batched(t_list, each_times(t_list, e), k, r)->Some_0,
            t_list,
            each_times(t_list, e),
            point_product(generator_encoding(), k),
        ),
{
    let q = group_order();
    let w_list = each_times(t_list, e);
    let pk = point_product(generator_encoding(), k);
    let transcript = transcript_seed(t_list, w_list, pk);
    let count = t_list.len();
    assert(spec_linear_combination(t_list, w_list, pk) is Some);
    let scalars = spec_seeded_scalars(transcript, count)->Some_0;
    lemma_seeded_scalars_are_canonical(transcript, count);
    let t = combination(t_list, scalars, count);
    let w = combination(w_list, scalars, count);
    lemma_combination_of_multiples(t_list, e, scalars, count);
    assert((e * k) % q == 1) by {
        lemma_mul_is_commutative(e as int, k as int);
    }
    lemma_inverses_cancel(t, e, k);
    law_closure(t, e);
    lemma_proof_is_complete(t, w, k, r);
}

/// The sum of the tokens' points, each times the inverse `e` of `k`, times `k` is the sum of
/// the tokens' points; and so it is of each point.
proof fn lemma_batch_signatures_verify(points: Seq<Seq<u8>>, e: nat, k: nat)
    requires
        group_laws(),
        all_decode(points),
        is_inverse_mod(k, e, group_order()),
        k < group_order(),
    ensures
        point_product(sum_of(each_times(points, e)), k) == sum_of(points),
        forall|i: int|
            0 <= i < points.len() ==> point_product(#[trigger] each_times(points, e)[i], k)
                == points[i],
{
    let q = group_order();
    assert((e * k) % q == 1) by {
        lemma_mul_is_commutative(e as int, k as int);
    }
    lemma_sum_of_multiples(points, e);
    lemma_sum_decodes(points);
    lemma_inverses_cancel(sum_of(points), e, k);
    assert forall|i: int| 0 <= i < points.len() implies point_product(
        #[trigger] each_times(points, e)[i],
        k,
    ) == points[i] by {
        lemma_inverses_cancel(points[i], e, k);
    }
}

/// Correctness of a batch, under the laws of the group: a batch that is randomized with the
/// scalars of the stream of `seed`, signed with the private key `sk` and any nonce and
/// unrandomized passes the client's check against the public key of `sk`; it verifies under
/// `sk`; and each of its signatures verifies under `sk` with the identifier at its place.
///
/// The signatures are those that the signer gave, and the seed is one that a batch can be
/// randomized with.
pub proof fn lemma_honest_batch_verifies(
    unsigned: BatchedUnsignedModel,
    seed: Seq<u8>,
    sk: nat,
    nonce: nat,
    signed: BatchedRandomizedSignedModel,
)
    requires
        group_laws(),
        sk < group_order(),
        nonce < group_order(),
        spec_randomize_with_seed(unsigned, seed) is Some,
        batch_signed_with_nonce(spec_randomize_with_seed(unsigned, seed)->Some_0, sk, nonce, signed),
    ensures
        ({
            let token = spec_unrandomize_batch(
                unsigned,
                spec_randomize_with_seed(unsigned, seed)->Some_0,
                signed,
                spec_public_key(sk),
                seed,
            );
            &&& token is Some
            &&& token->Some_0.ids == unsigned.ids
            &&& token->Some_0.metadata == unsigned.metadata
            &&& token->Some_0.verifies(sk)
            &&& forall|i: int|
                0 <= i < unsigned.ids.len() ==> signature_verifies(
                    (#[trigger] unsigned.ids[i]).tag(),
                    unsigned.metadata,
                    token->Some_0.points[i],
                    sk,
                )
        }),
{
    let q = group_order();
    let randomized = spec_randomize_with_seed(unsigned, seed)->Some_0;
    assert(randomized.metadata == unsigned.metadata);
    let sum = signing_exponent(unsigned.metadata, sk)->Some_0;
    lemma_verification_point(unsigned.metadata, sk);
    let e = inverse_mod(sum, q);
    law_inverse(sum);
    let points = unsigned.points();
    let blinded = randomized.points;
    assert(signed.points =~= each_times(blinded, e));
    lemma_honest_batch_points(unsigned, seed, e, signed.points);
    lemma_batched_proof_is_complete(blinded, e, sum, nonce);
    lemma_batch_signatures_verify(points, e, sum);
    let drawn = spec_seeded_scalars(seed, signed.points.len())->Some_0;
    let unblinded = scaled(signed.points, drawn);
    assert forall|i: int| 0 <= i < unsigned.ids.len() implies signature_verifies(
        (#[trigger] unsigned.ids[i]).tag(),
        unsigned.metadata,
        unblinded[i],
        sk,
    ) by {
        assert(point_product(each_times(points, e)[i], sum) == points[i]);
    }
}

} // verus!
