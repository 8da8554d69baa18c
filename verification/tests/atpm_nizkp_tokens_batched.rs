use atpmd::atpm_nizkp::keys::{PrivateKey, PublicKey};
use atpmd::atpm_nizkp::scalar::Scalar;
use atpmd::atpm_nizkp::tokens::DLEQProof;
use atpmd::atpm_nizkp::tokens_batched::{
    BatchedNizkpTokenEngine, DLEQProofBatched, NizkpSignedTokenBatched, NizkpUnsignedTokenBatched,
};
use atpmd::atpm_nizkp::util::{gen_vartime, hash_to_scalar, seeded_scalars, AffinePoint};
use atpmd::common::TokenIdentifier;
use atpmd::{SignedToken, TokenEngine};

fn small(n: u8) -> Scalar {
    let mut bytes = [0u8; 32];
    bytes[31] = n;
    Scalar::from_bytes(&bytes).unwrap()
}

#[test]
fn atpm_nizkp_tokens_batched_test_proof() {
    // create keys
    let private_key = gen_vartime().unwrap();
    let public_key = AffinePoint::mul_base(&private_key);

    // token metadata
    let metadata = b"kake";
    let d = hash_to_scalar(metadata).unwrap();

    // create token
    let t = AffinePoint::mul_base(&gen_vartime().unwrap().add(&d));

    // create u
    let u = AffinePoint::mul_base(&d).add(&public_key);

    // sign token
    let e = private_key.add(&d).invert().unwrap();
    let w = t.mul(&e);

    // create proof
    let proof = DLEQProof::create(t, w, private_key.add(&d)).unwrap();

    // verify
    assert!(proof.verify(t, w, u));
}

#[test]
fn atpm_nizkp_tokens_batched_test_all() {
    // generate keys
    let private = PrivateKey::new().unwrap();
    let public_key = PublicKey::from(&private);

    // generate a new token
    let metadata = b"This is my metadata";
    let token = BatchedNizkpTokenEngine::<5>::generate(metadata.to_vec());

    // randomize token
    let (r, anon_token) = BatchedNizkpTokenEngine::randomize(&token).unwrap();

    // sign randomized token
    let signed = BatchedNizkpTokenEngine::sign_randomized(&anon_token, &private).unwrap();

    // Verify signature and remove randomization
    let signed = BatchedNizkpTokenEngine::verify_signature_and_unrandomize(
        token,
        anon_token,
        signed,
        &public_key,
        r,
    );
    assert!(signed.is_some());

    // verify personalized token
    assert!(signed.unwrap().verify(&private));
}

#[test]
fn atpm_nizkp_tokens_batched_fail_bad_signkey() {
    // generate keys
    let private = PrivateKey::new().unwrap();
    let public_key = PublicKey::from(&private);

    // generate a new token
    let metadata = b"This is my metadata";
    let token = BatchedNizkpTokenEngine::<5>::generate(metadata.to_vec());

    let bad = PrivateKey::new().unwrap();

    // sign randomized token
    let signed = BatchedNizkpTokenEngine::sign(token, &public_key, |randomized| {
        BatchedNizkpTokenEngine::sign_randomized(randomized, &bad)
    });

    assert!(signed.is_none());
}

#[test]
fn tokens_batched_fail_bad_verf_key() {
    // generate keys
    let private = PrivateKey::new().unwrap();
    let public_key = PublicKey::from(&private);

    // generate a new token
    let metadata = b"This is my metadata";
    let token = BatchedNizkpTokenEngine::<5>::generate(metadata.to_vec());

    let signed = BatchedNizkpTokenEngine::sign(token, &public_key, |randomized| {
        BatchedNizkpTokenEngine::sign_randomized(randomized, &private)
    })
    .unwrap();

    let bad = PrivateKey::new().unwrap();

    assert!(!signed.verify(&bad));
    assert!(signed.verify(&private));
}

#[test]
fn atpm_nizkp_batched_proof_round_trips() {
    let private = PrivateKey::new().unwrap();
    let public_key = PublicKey::from(&private);
    let token = BatchedNizkpTokenEngine::<5>::generate(b"This is my metadata".to_vec());
    let (_, anon) = BatchedNizkpTokenEngine::randomize(&token).unwrap();
    let signed = BatchedNizkpTokenEngine::sign_randomized(&anon, &private).unwrap();

    let u = AffinePoint::mul_base(&hash_to_scalar(b"This is my metadata").unwrap())
        .add(&public_key.to_affine());
    let proof = signed.dleq_proof();
    assert!(proof.verify(&anon.points(), &signed.points(), u));
    assert!(!proof.verify(&signed.points(), &anon.points(), u));
    let mut changed = signed.points();
    changed[3] = changed[3].add(&AffinePoint::generator());
    assert!(!proof.verify(&anon.points(), &changed, u));

    let exponent = hash_to_scalar(b"This is my metadata").unwrap().add(&private.to_scalar());
    let again =
        DLEQProofBatched::create_with_nonce(&anon.points(), &signed.points(), exponent, small(5))
            .unwrap();
    assert!(again.verify(&anon.points(), &signed.points(), u));

    // with t and 2t the combination of 2t is twice that of t
    let t = anon.points();
    let doubled: Vec<AffinePoint> = t.iter().map(|p| p.add(p)).collect();
    let (a, b) = DLEQProofBatched::hash_random_linear_combination(&t, &doubled, &u).unwrap();
    assert!(a.add(&a) == b);
}

#[test]
fn atpm_nizkp_randomization_is_by_the_scalars_of_the_seed() {
    let seed = [9u8; 32];
    let ids = [TokenIdentifier::Id([1u8; 16]), TokenIdentifier::Id([2u8; 16])];
    let token = NizkpUnsignedTokenBatched::<2>::from_parts(ids, b"m".to_vec());
    let randomized = token.randomize_with_seed(&seed).unwrap();
    let scalars = seeded_scalars(&seed, 2).unwrap();
    let points = token.points();
    for i in 0..2 {
        assert!(randomized.points()[i].mul(&scalars[i]) == points[i]);
        assert!(randomized.points()[i] != points[i]);
    }

    let private = PrivateKey::new().unwrap();
    let ids = [TokenIdentifier::Id([1u8; 16]), TokenIdentifier::Id([2u8; 16])];
    let forged = NizkpSignedTokenBatched::<2>::from_parts(
        ids,
        b"m".to_vec(),
        [AffinePoint::generator(), AffinePoint::generator()],
    );
    assert!(!forged.verify(&private));
}
