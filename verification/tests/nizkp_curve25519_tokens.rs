use atpmd::common::TokenIdentifier;
use atpmd::nizkp_curve25519::keys::{PrivateKey, PublicKey};
use atpmd::nizkp_curve25519::scalar::Scalar;
use atpmd::nizkp_curve25519::tokens::{
    DLEQProof, NizkpSignedToken, NizkpTokenEngine, NizkpUnsignedToken, RandomizedSignedToken,
};
use atpmd::nizkp_curve25519::util::{h_t, hash_to_scalar, RistrettoPoint};
use atpmd::{SignedToken, TokenEngine};
use curve25519_dalek::constants::RISTRETTO_BASEPOINT_POINT;
use curve25519_dalek::ristretto::CompressedRistretto;
use sha2::{Digest, Sha512};

fn hex(bytes: &[u8]) -> String {
    bytes.iter().map(|b| format!("{:02x}", b)).collect()
}

fn dalek_scalar(s: &Scalar) -> curve25519_dalek::scalar::Scalar {
    curve25519_dalek::scalar::Scalar::from_canonical_bytes(s.to_bytes()).unwrap()
}

fn dalek_point(p: &RistrettoPoint) -> curve25519_dalek::ristretto::RistrettoPoint {
    CompressedRistretto(p.compress()).decompress().unwrap()
}

fn small(n: u8) -> Scalar {
    let mut bytes = [0u8; 32];
    bytes[0] = n;
    Scalar::from_canonical_bytes(&bytes).unwrap()
}

/// The setting of the proof tests: a token point, its signature, the exponent and the public
/// point of the exponent.
fn signed_point() -> (RistrettoPoint, RistrettoPoint, Scalar, RistrettoPoint) {
    // create keys
    let private_key = Scalar::random();
    let public_key = RistrettoPoint::mul_base(&private_key);

    // token metadata
    let metadata = b"kake";
    let d = hash_to_scalar(metadata);

    // create token
    let t = RistrettoPoint::mul_base(&Scalar::random().add(&d));

    // create u
    let u = RistrettoPoint::mul_base(&d).add(&public_key);

    // sign token
    let e = private_key.add(&d).invert().unwrap();
    let w = t.mul(&e);

    (t, w, private_key.add(&d), u)
}

#[test]
fn tokens_test_proof() {
    let (t, w, k, u) = signed_point();

    // create proof
    let proof = DLEQProof::create(t, w, k);

    // verify
    assert!(proof.verify(t, w, u));
}

#[test]
fn proof_with_a_given_nonce_is_a_function_of_its_inputs() {
    let (t, w, k, u) = signed_point();
    let r = small(77);
    let first = DLEQProof::create_with_nonce(t, w, k, r);
    let second = DLEQProof::create_with_nonce(t, w, k, r);
    assert!(first.challenge().equals(&second.challenge()));
    assert!(first.response().equals(&second.response()));
    assert!(first.verify(t, w, u));

    // z = r - k * c
    let c = dalek_scalar(&first.challenge());
    let expected = dalek_scalar(&r) - dalek_scalar(&k) * c;
    assert_eq!(first.response().to_bytes(), expected.to_bytes());

    // the challenge is the hash of the transcript
    let a = RISTRETTO_BASEPOINT_POINT * dalek_scalar(&r);
    let b = dalek_point(&w) * dalek_scalar(&r);
    let mut hasher = Sha512::new();
    hasher.update(b"This is DLEQ_PROOF hash");
    hasher.update(RISTRETTO_BASEPOINT_POINT.compress().as_bytes());
    hasher.update((RISTRETTO_BASEPOINT_POINT * dalek_scalar(&k)).compress().as_bytes());
    hasher.update(t.compress());
    hasher.update(w.compress());
    hasher.update(a.compress().as_bytes());
    hasher.update(b.compress().as_bytes());
    let digest: [u8; 64] = hasher.finalize().into();
    let expected = curve25519_dalek::scalar::Scalar::from_bytes_mod_order_wide(&digest);
    assert_eq!(first.challenge().to_bytes(), expected.to_bytes());
}

#[test]
fn mutated_proofs_are_rejected() {
    let (t, w, k, u) = signed_point();
    let proof = DLEQProof::create(t, w, k);
    assert!(proof.verify(t, w, u));

    let one = small(1);
    let other = RistrettoPoint::mul_base(&small(5));
    // a changed signature, public point or token point
    assert!(!proof.verify(t, w.add(&other), u));
    assert!(!proof.verify(t, w, u.add(&other)));
    assert!(!proof.verify(t.add(&other), w, u));
    // changed scalars
    let c = proof.challenge();
    let z = proof.response();
    assert!(!DLEQProof::from_scalars(c.add(&one), z).verify(t, w, u));
    assert!(!DLEQProof::from_scalars(c, z.add(&one)).verify(t, w, u));
    assert!(!DLEQProof::from_scalars(z, c).verify(t, w, u));
    // points in another order
    assert!(!proof.verify(w, t, u));
    assert!(!proof.verify(u, w, t));
    assert!(!proof.verify(t, u, w));
}

#[test]
fn transcript_hash_binds_every_point_and_its_place() {
    let p: Vec<RistrettoPoint> = (1..=5).map(|i| RistrettoPoint::mul_base(&small(i))).collect();
    let c = DLEQProof::hash_data(&p[0], &p[1], &p[2], &p[3], &p[4]);
    assert!(c.equals(&DLEQProof::hash_data(&p[0], &p[1], &p[2], &p[3], &p[4])));
    for i in 0..5 {
        for j in 0..i {
            let mut q = p.clone();
            q.swap(i, j);
            assert!(!c.equals(&DLEQProof::hash_data(&q[0], &q[1], &q[2], &q[3], &q[4])));
        }
    }
}

#[test]
fn test_all() {
    // generate keys
    let private = PrivateKey::new();
    let public_key = PublicKey::from(&private);

    // generate a new token
    let metadata = b"This is my metadata";
    let token = NizkpTokenEngine::generate(metadata.to_vec());

    // randomize token
    let (r, anon_token) = NizkpTokenEngine::randomize(&token).unwrap();

    // sign randomized token
    let signed = NizkpTokenEngine::sign_randomized(&anon_token, &private).unwrap();

    // Verify signature and remove randomization
    let signed = NizkpTokenEngine::verify_signature_and_unrandomize(
        token,
        anon_token,
        signed,
        &public_key,
        r,
    );
    assert!(signed.is_some());

    // verify personalized token
    assert!(signed.unwrap().verify(&private));
}

#[test]
fn test_hidden() {
    // generate keys
    let private = PrivateKey::new();
    let public_key = PublicKey::from(&private);

    // generate a new token
    let metadata = b"This is my metadata";
    let hidden_metadata = b"This is my hidden metadata";
    let token =
        NizkpTokenEngine::generate_with_hidden(metadata[..].to_vec(), hidden_metadata[..].to_vec());

    // randomize token
    let (r, anon_token) = NizkpTokenEngine::randomize(&token).unwrap();

    // sign randomized token
    let signed = NizkpTokenEngine::sign_randomized(&anon_token, &private).unwrap();

    // verify the signature and remove the randomization
    let signed = NizkpTokenEngine::verify_signature_and_unrandomize(
        token,
        anon_token,
        signed,
        &public_key,
        r,
    );

    assert!(signed.is_some());

    // verify personalized token
    assert!(signed.unwrap().verify(&private));
}

#[test]
fn fail_bad_signkey() {
    // generate keys
    let private = PrivateKey::new();
    let public_key = PublicKey::from(&private);

    // generate a new token
    let metadata = b"This is my metadata";
    let token = NizkpTokenEngine::generate(metadata.to_vec());

    let bad = PrivateKey::new();

    let signed = NizkpTokenEngine::sign(token, &public_key, |randomized| {
        NizkpTokenEngine::sign_randomized(randomized, &bad)
    });

    assert!(signed.is_none());
}

#[test]
fn fail_bad_verification_key() {
    // generate keys
    let private = PrivateKey::new();
    let public_key = PublicKey::from(&private);

    // generate a new token
    let metadata = b"This is my metadata";
    let token = NizkpTokenEngine::generate(metadata.to_vec());

    let signed = NizkpTokenEngine::sign(token, &public_key, |randomized| {
        NizkpTokenEngine::sign_randomized(randomized, &private)
    })
    .unwrap();

    let bad = PrivateKey::new();

    assert!(!signed.verify(&bad));
    // verification draws nothing: a second call gives the same answer
    assert!(!signed.verify(&bad));
    assert!(signed.verify(&private));
    assert!(NizkpTokenEngine::verify(&signed, &private));
}

#[test]
fn hash_to_scalar_is_sha512_reduced() {
    assert_eq!(
        hex(&hash_to_scalar(b"kake").to_bytes()),
        "72fcf9a3fa75ad14bad4a199bf3800bbfa5e8cc2e19d4b5f254a083ceb859007"
    );
}

#[test]
fn h_t_is_the_map_of_the_sha512_digest() {
    let t = [4u8; 16];
    let m = b"This is my metadata";
    let mut hasher = Sha512::new();
    hasher.update(b"This is h_t hash");
    hasher.update(t);
    hasher.update(m);
    let digest: [u8; 64] = hasher.finalize().into();
    let expected = curve25519_dalek::ristretto::RistrettoPoint::from_uniform_bytes(&digest);
    assert_eq!(h_t(&t, m).compress(), expected.compress().to_bytes());
}

#[test]
fn group_constants() {
    assert_eq!(RistrettoPoint::identity().compress(), [0u8; 32]);
    assert_eq!(
        hex(&RistrettoPoint::basepoint().compress()),
        "e2f2ae0a6abc4e71a884a961c500515f58e30b6aa582dd8db6a65945e08d2d76"
    );
    assert_eq!(RistrettoPoint::mul_base(&small(1)).compress(), RistrettoPoint::basepoint().compress());
    assert!(RistrettoPoint::decompress(&[0xff; 32]).is_none());
    assert!(RistrettoPoint::decompress(&RistrettoPoint::basepoint().compress()).unwrap()
        == RistrettoPoint::basepoint());
}

#[test]
fn ristretto_scalar_arithmetic_is_modular() {
    // the group order less one
    let l_minus_one: [u8; 32] = [
        0xec, 0xd3, 0xf5, 0x5c, 0x1a, 0x63, 0x12, 0x58, 0xd6, 0x9c, 0xf7, 0xa2, 0xde, 0xf9, 0xde,
        0x14, 0x00, 0x00, 0x00, 0x00, 0x00, 0x00, 0x00, 0x00, 0x00, 0x00, 0x00, 0x00, 0x00, 0x00,
        0x00, 0x10,
    ];
    let minus_one = Scalar::from_canonical_bytes(&l_minus_one).unwrap();
    let mut l = l_minus_one;
    l[0] = 0xed;
    assert!(Scalar::from_canonical_bytes(&l).is_none());

    let zero = small(0);
    let one = small(1);
    assert!(minus_one.add(&one).equals(&zero));
    assert!(zero.sub(&one).equals(&minus_one));
    assert!(minus_one.mul(&minus_one).equals(&one));
    assert!(small(6).mul(&small(7)).equals(&small(42)));
    assert!(small(9).sub(&small(4)).equals(&small(5)));
    assert!(!small(9).equals(&small(4)));
    assert!(zero.invert().is_none());
    assert!(minus_one.invert().unwrap().equals(&minus_one));
    let three = small(3);
    assert!(three.invert().unwrap().mul(&three).equals(&one));
    // 2^256 reduced
    let mut wide = [0u8; 64];
    wide[32] = 1;
    assert_eq!(
        hex(&Scalar::from_bytes_mod_order_wide(&wide).to_bytes()),
        "1d95988d7431ecd670cf7d73f45befc6feffffffffffffffffffffffffffff0f"
    );
}

#[test]
fn randomize_with_zero_gives_nothing() {
    let token = NizkpUnsignedToken::from_parts(TokenIdentifier::Id([1u8; 16]), b"m".to_vec());
    assert!(token.randomize_with(&small(0)).is_none());
    let r = small(9);
    let randomized = token.randomize_with(&r).unwrap();
    // the blinded point times r is the token's point
    assert!(randomized.point().mul(&r) == token.get_point());
    assert!(randomized.point() != token.get_point());
}

#[test]
fn unchecked_parts_do_not_verify() {
    let private = PrivateKey::new();
    let id = TokenIdentifier::Id([1u8; 16]);
    let forged = NizkpSignedToken::from_parts(id, b"m".to_vec(), RistrettoPoint::basepoint());
    assert!(!forged.verify(&private));

    // a signer's answer with the proof of another answer is not accepted
    let public_key = PublicKey::from(&private);
    let token = NizkpTokenEngine::generate(b"m".to_vec());
    let (r, anon) = NizkpTokenEngine::randomize(&token).unwrap();
    let signed = NizkpTokenEngine::sign_randomized(&anon, &private).unwrap();
    let swapped = RandomizedSignedToken::new(
        signed.point().add(&RistrettoPoint::basepoint()),
        signed.dleq_proof(),
    );
    assert!(NizkpTokenEngine::verify_signature_and_unrandomize(token, anon, swapped, &public_key, r)
        .is_none());
}
