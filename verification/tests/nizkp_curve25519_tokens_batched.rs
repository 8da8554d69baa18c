use atpmd::common::TokenIdentifier;
use atpmd::nizkp_curve25519::keys::{PrivateKey, PublicKey};
use atpmd::nizkp_curve25519::scalar::Scalar;
use atpmd::nizkp_curve25519::tokens::DLEQProof;
use atpmd::nizkp_curve25519::tokens_batched::{
    BatchedNizkpTokenEngine, DLEQProofBatched, NizkpSignedTokenBatched, NizkpUnsignedTokenBatched,
    RandomizedSignedTokenBatched,
};
use atpmd::nizkp_curve25519::util::{hash_to_scalar, RistrettoPoint};
use atpmd::{SignedToken, TokenEngine};
use curve25519_dalek::ristretto::CompressedRistretto;

fn hex(bytes: &[u8]) -> String {
    bytes.iter().map(|b| format!("{:02x}", b)).collect()
}

fn small(n: u8) -> Scalar {
    let mut bytes = [0u8; 32];
    bytes[0] = n;
    Scalar::from_canonical_bytes(&bytes).unwrap()
}

fn from_hex(text: &str) -> [u8; 32] {
    let mut out = [0u8; 32];
    for i in 0..32 {
        out[i] = u8::from_str_radix(&text[2 * i..2 * i + 2], 16).unwrap();
    }
    out
}

#[test]
fn tokens_batched_test_proof() {
    // create keys
    let private_key = Scalar::random();
    let public_key = RistrettoPoint::mul_base(&private_key);

    // token metadata
    let metadata = b"kake";
    let d = hash_to_scalar(metadata);

    // create token
    let t = RistrettoPoint::mul_base(&Scalar::random().add(&d));

    // create u
    let u = RistrettoPoint::mul_base(&d).add(&public_key);

    // sign token
    let e = private_key.add(&d).invert().unwrap();
    let w = t.mul(&e);

    // create proof
    let proof = DLEQProof::create(t, w, private_key.add(&d));

    // verify
    assert!(proof.verify(t, w, u));
}

#[test]
fn nizkp_tokens_batched_test_all() {
    // generate keys
    let private = PrivateKey::new();
    let public_key = PublicKey::from(&private);

    // generate a new token
    let metadata = b"This is my metadata";
    let token = BatchedNizkpTokenEngine::<5>::generate(metadata.to_vec());

    // randomize token
    let (r, anon_token) = BatchedNizkpTokenEngine::randomize(&token).unwrap();

    // sign randomized token
    let signed = BatchedNizkpTokenEngine::sign_randomized(&anon_token, &private).unwrap();

    // Verify signature and remove randomization
    let signed = BatchedNizkpTokenEngine::verify_signature_and_unrandomize(
        token,
        anon_token,
        signed,
        &public_key,
        r,
    );
    assert!(signed.is_some());

    // verify personalized token
    assert!(signed.unwrap().verify(&private));
}

#[test]
fn nizkp_tokens_batched_fail_bad_signkey() {
    // generate keys
    let private = PrivateKey::new();
    let public_key = PublicKey::from(&private);

    // generate a new token
    let metadata = b"This is my metadata";
    let token = BatchedNizkpTokenEngine::<5>::generate(metadata.to_vec());

    let bad = PrivateKey::new();

    // sign randomized token
    let signed = BatchedNizkpTokenEngine::sign(token, &public_key, |randomized| {
        BatchedNizkpTokenEngine::sign_randomized(randomized, &bad)
    });

    assert!(signed.is_none());
}

#[test]
fn fail_bad_verf_key() {
    // generate keys
    let private = PrivateKey::new();
    let public_key = PublicKey::from(&private);

    // generate a new token
    let metadata = b"This is my metadata";
    let token = BatchedNizkpTokenEngine::<5>::generate(metadata.to_vec());

    let signed = BatchedNizkpTokenEngine::sign(token, &public_key, |randomized| {
        BatchedNizkpTokenEngine::sign_randomized(randomized, &private)
    })
    .unwrap();

    let bad = PrivateKey::new();

    assert!(!signed.verify(&bad));
    assert!(signed.verify(&private));
}

#[test]
fn batched_proof_round_trips() {
    let private = PrivateKey::new();
    let public_key = PublicKey::from(&private);
    let token = BatchedNizkpTokenEngine::<5>::generate(b"This is my metadata".to_vec());
    let (_, anon) = BatchedNizkpTokenEngine::randomize(&token).unwrap();
    let signed = BatchedNizkpTokenEngine::sign_randomized(&anon, &private).unwrap();

    let u = RistrettoPoint::mul_base(&hash_to_scalar(b"This is my metadata"))
        .add(&public_key.to_affine());
    let proof = signed.dleq_proof();
    assert!(proof.verify(&anon.points(), &signed.points(), u));

    // the two lists in each other's place, or one point changed, are not accepted
    assert!(!proof.verify(&signed.points(), &anon.points(), u));
    let mut changed = signed.points();
    changed[3] = changed[3].add(&RistrettoPoint::basepoint());
    assert!(!proof.verify(&anon.points(), &changed, u));
    // two signatures in each other's place change the transcript
    let mut swapped = signed.points();
    swapped.swap(0, 1);
    assert!(!proof.verify(&anon.points(), &swapped, u));
    assert!(!proof.verify(&anon.points(), &signed.points(), u.add(&RistrettoPoint::basepoint())));

    // a proof made again with a nonce of the caller's verifies too
    let exponent = hash_to_scalar(b"This is my metadata").add(&private.to_scalar());
    let again =
        DLEQProofBatched::create_with_nonce(&anon.points(), &signed.points(), exponent, small(5));
    assert!(again.verify(&anon.points(), &signed.points(), u));
}

#[test]
fn transcript_seed_and_combination_are_functions_of_the_lists() {
    let t: Vec<RistrettoPoint> = (1..=3).map(|i| RistrettoPoint::mul_base(&small(i))).collect();
    let w: Vec<RistrettoPoint> = (4..=6).map(|i| RistrettoPoint::mul_base(&small(i))).collect();
    let pk = RistrettoPoint::mul_base(&small(9));
    let seed = DLEQProofBatched::hash_data(&t, &w, &pk);
    assert_eq!(seed, DLEQProofBatched::hash_data(&t, &w, &pk));
    assert_ne!(seed, DLEQProofBatched::hash_data(&w, &t, &pk));
    assert_ne!(seed, DLEQProofBatched::hash_data(&t, &w, &RistrettoPoint::basepoint()));

    let (m, z) = DLEQProofBatched::hash_random_linear_combination(&t, &w, &pk);
    let (m2, z2) = DLEQProofBatched::hash_random_linear_combination(&t, &w, &pk);
    assert!(m == m2 && z == z2);
    // no list gives the identity twice
    let (e1, e2) = DLEQProofBatched::hash_random_linear_combination(&[], &[], &pk);
    assert!(e1 == RistrettoPoint::identity() && e2 == RistrettoPoint::identity());
    // w = 4t/1, 5t/2, 6t/3 are not one multiple of t, but with t and 2t the combination of 2t
    // is twice that of t
    let doubled: Vec<RistrettoPoint> = t.iter().map(|p| p.add(p)).collect();
    let (a, b) = DLEQProofBatched::hash_random_linear_combination(&t, &doubled, &pk);
    assert!(a.add(&a) == b);
}

#[test]
fn randomization_is_by_the_scalars_of_the_seed() {
    let seed = [9u8; 32];
    let ids = [TokenIdentifier::Id([1u8; 16]), TokenIdentifier::Id([2u8; 16])];
    let token = NizkpUnsignedTokenBatched::<2>::from_parts(ids, b"m".to_vec());
    let randomized = token.randomize_with_seed(&seed).unwrap();

    // the scalars at places 0 and 1 of the stream of this seed
    let r = [
        from_hex("0ae16fc612c1fb2af3a00b3aab2f8c27b671e625b881f0203e3bf4c8ae09f801"),
        from_hex("09169132d1c9e6ad73fa65c3ede9df2a411eae91c1561cb825d9119d27ad7407"),
    ];
    let points = token.points();
    for i in 0..2 {
        let r = curve25519_dalek::scalar::Scalar::from_canonical_bytes(r[i]).unwrap();
        let point = CompressedRistretto(points[i].compress()).decompress().unwrap();
        let expected = point * r.invert();
        assert_eq!(hex(&randomized.points()[i].compress()), hex(expected.compress().as_bytes()));
    }
}

#[test]
fn unchecked_batches_do_not_verify() {
    let private = PrivateKey::new();
    let ids = [TokenIdentifier::Id([1u8; 16]), TokenIdentifier::Id([2u8; 16])];
    let points = [RistrettoPoint::basepoint(), RistrettoPoint::basepoint()];
    let forged = NizkpSignedTokenBatched::<2>::from_parts(ids, b"m".to_vec(), points);
    assert!(!forged.verify(&private));

    // a batch of signatures with the proof of another batch is not accepted
    let public_key = PublicKey::from(&private);
    let token = BatchedNizkpTokenEngine::<3>::generate(b"m".to_vec());
    let (r, anon) = BatchedNizkpTokenEngine::randomize(&token).unwrap();
    let signed = BatchedNizkpTokenEngine::sign_randomized(&anon, &private).unwrap();
    let mut changed = signed.points();
    changed[0] = changed[0].add(&RistrettoPoint::basepoint());
    let swapped = RandomizedSignedTokenBatched::new(changed, signed.dleq_proof());
    assert!(BatchedNizkpTokenEngine::verify_signature_and_unrandomize(
        token,
        anon,
        swapped,
        &public_key,
        r
    )
    .is_none());
}
