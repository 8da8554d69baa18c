use atpmd::atpm_nizkp::keys::{PrivateKey, PublicKey};
use atpmd::atpm_nizkp::scalar::Scalar;
use atpmd::atpm_nizkp::tokens::{
    DLEQProof, NizkpSignedToken, NizkpTokenEngine, NizkpUnsignedToken, RandomizedSignedToken,
};
use atpmd::atpm_nizkp::util::{gen_vartime, h_t, hash_to_scalar, seeded_scalars, AffinePoint};
use atpmd::common::TokenIdentifier;
use atpmd::{SignedToken, TokenEngine};
use k256::elliptic_curve::group::GroupEncoding;
use k256::elliptic_curve::hash2curve::{ExpandMsgXmd, GroupDigest};
use k256::elliptic_curve::PrimeField;
use k256::{FieldBytes, ProjectivePoint, Secp256k1};

fn hex(bytes: &[u8]) -> String {
    bytes.iter().map(|b| format!("{:02x}", b)).collect()
}

fn small(n: u8) -> Scalar {
    let mut bytes = [0u8; 32];
    bytes[31] = n;
    Scalar::from_bytes(&bytes).unwrap()
}

fn curve_scalar(s: &Scalar) -> k256::Scalar {
    k256::Scalar::from_repr(FieldBytes::from(s.to_bytes())).unwrap()
}

/// The setting of the proof tests: a token point, its signature, the exponent and the public
/// point of the exponent.
fn signed_point() -> (AffinePoint, AffinePoint, Scalar, AffinePoint) {
    // create keys
    let private_key = gen_vartime().unwrap();
    let public_key = AffinePoint::mul_base(&private_key);

    // token metadata
    let metadata = b"kake";
    let d = hash_to_scalar(metadata).unwrap();

    // create token
    let t = AffinePoint::mul_base(&gen_vartime().unwrap().add(&d));

    // create u
    let u = AffinePoint::mul_base(&d).add(&public_key);

    // sign token
    let e = private_key.add(&d).invert().unwrap();
    let w = t.mul(&e);

    (t, w, private_key.add(&d), u)
}

#[test]
fn test_proof() {
    let (t, w, k, u) = signed_point();

    // create proof
    let proof = DLEQProof::create(t, w, k).unwrap();

    // verify
    assert!(proof.verify(t, w, u));
}

#[test]
fn atpm_nizkp_proof_with_a_given_nonce() {
    let (t, w, k, u) = signed_point();
    let r = small(77);
    let first = DLEQProof::create_with_nonce(t, w, k, r).unwrap();
    let second = DLEQProof::create_with_nonce(t, w, k, r).unwrap();
    assert!(first.challenge().equals(&second.challenge()));
    assert!(first.response().equals(&second.response()));
    assert!(first.verify(t, w, u));

    // z = r - k * c
    let expected = curve_scalar(&r) - curve_scalar(&k) * curve_scalar(&first.challenge());
    let expected: [u8; 32] = expected.to_bytes().into();
    assert_eq!(first.response().to_bytes(), expected);
}

#[test]
fn atpm_nizkp_mutated_proofs_are_rejected() {
    let (t, w, k, u) = signed_point();
    let proof = DLEQProof::create(t, w, k).unwrap();
    assert!(proof.verify(t, w, u));

    let one = small(1);
    let other = AffinePoint::mul_base(&small(5));
    assert!(!proof.verify(t, w.add(&other), u));
    assert!(!proof.verify(t, w, u.add(&other)));
    assert!(!proof.verify(t.add(&other), w, u));
    let c = proof.challenge();
    let z = proof.response();
    assert!(!DLEQProof::from_scalars(c.add(&one), z).verify(t, w, u));
    assert!(!DLEQProof::from_scalars(c, z.add(&one)).verify(t, w, u));
    assert!(!proof.verify(w, t, u));
}

#[test]
fn atpm_nizkp_tokens_test_all() {
    // generate keys
    let private = PrivateKey::new().unwrap();
    let public_key = PublicKey::from(&private);

    // generate a new token
    let metadata = b"This is my metadata";
    let token = NizkpTokenEngine::generate(metadata.to_vec());

    // randomize token
    let (r, anon_token) = NizkpTokenEngine::randomize(&token).unwrap();

    // sign randomized token
    let signed = NizkpTokenEngine::sign_randomized(&anon_token, &private).unwrap();

    // Verify signature and remove randomization
    let signed = NizkpTokenEngine::verify_signature_and_unrandomize(
        token,
        anon_token,
        signed,
        &public_key,
        r,
    );
    assert!(signed.is_some());

    // verify personalized token
    assert!(signed.unwrap().verify(&private));
}

#[test]
fn tokens_test_hidden() {
    // generate keys
    let private = PrivateKey::new().unwrap();
    let public_key = PublicKey::from(&private);

    // generate a new token
    let metadata = b"This is my metadata";
    let hidden_metadata = b"This is my hidden metadata";
    let token =
        NizkpTokenEngine::generate_with_hidden(metadata[..].to_vec(), hidden_metadata[..].to_vec());

    // randomize token
    let (r, anon_token) = NizkpTokenEngine::randomize(&token).unwrap();

    // sign randomized token
    let signed = NizkpTokenEngine::sign_randomized(&anon_token, &private).unwrap();

    // verify the signature and remove the randomization
    let signed = NizkpTokenEngine::verify_signature_and_unrandomize(
        token,
        anon_token,
        signed,
        &public_key,
        r,
    );

    assert!(signed.is_some());

    // verify personalized token
    assert!(signed.unwrap().verify(&private));
}

#[test]
fn tokens_fail_bad_signkey() {
    // generate keys
    let private = PrivateKey::new().unwrap();
    let public_key = PublicKey::from(&private);

    // generate a new token
    let metadata = b"This is my metadata";
    let token = NizkpTokenEngine::generate(metadata.to_vec());

    let bad = PrivateKey::new().unwrap();

    let signed = NizkpTokenEngine::sign(token, &public_key, |randomized| {
        NizkpTokenEngine::sign_randomized(randomized, &bad)
    });

    assert!(signed.is_none());
}

#[test]
fn tokens_fail_bad_verification_key() {
    // generate keys
    let private = PrivateKey::new().unwrap();
    let public_key = PublicKey::from(&private);

    // generate a new token
    let metadata = b"This is my metadata";
    let token = NizkpTokenEngine::generate(metadata.to_vec());

    let signed = NizkpTokenEngine::sign(token, &public_key, |randomized| {
        NizkpTokenEngine::sign_randomized(randomized, &private)
    })
    .unwrap();

    let bad = PrivateKey::new().unwrap();

    assert!(!signed.verify(&bad));
    assert!(!signed.verify(&bad));
    assert!(signed.verify(&private));
}

#[test]
fn atpm_nizkp_hash_to_scalar_known_answer() {
    // the first digest of the chain, read in big-endian order
    assert_eq!(
        hex(&hash_to_scalar(b"kake").unwrap().to_bytes()),
        "9c8b1766877dd47ed649bd7a5d7aa1b7fe4618776f4405f444568122d09d47ae"
    );
    assert_eq!(
        hex(&hash_to_scalar(b"").unwrap().to_bytes()),
        "a5b23107d761bf7e995f33585997c71d46afef139a52541e9c186a48f1315b73"
    );
}

#[test]
fn atpm_nizkp_h_t_is_the_hash_to_the_curve() {
    let t = [4u8; 16];
    let m = b"This is my metadata";
    let mut message = t.to_vec();
    message.extend_from_slice(m);
    let expected: ProjectivePoint = Secp256k1::hash_from_bytes::<ExpandMsgXmd<k256::sha2::Sha256>>(
        &[&message],
        &[b"This is h_t hash"],
    )
    .unwrap();
    assert_eq!(h_t(&t, m).to_bytes().to_vec(), expected.to_affine().to_bytes().to_vec());
    assert!(h_t(&t, b"other") != h_t(&t, m));
}

#[test]
fn atpm_nizkp_group_constants() {
    assert_eq!(AffinePoint::identity().to_bytes(), [0u8; 33]);
    assert_eq!(
        hex(&AffinePoint::generator().to_bytes()),
        "0279be667ef9dcbbac55a06295ce870b07029bfcdb2dce28d959f2815b16f81798"
    );
    assert!(AffinePoint::mul_base(&small(1)) == AffinePoint::generator());
    // twice the generator
    assert_eq!(
        hex(&AffinePoint::generator().add(&AffinePoint::generator()).to_bytes()),
        "02c6047f9441ed7d6d3045406e95c07cd85c778e4b8cef3ca7abac09b95c709ee5"
    );
    assert!(AffinePoint::mul_base(&small(2)) == AffinePoint::generator().add(&AffinePoint::generator()));
}

#[test]
fn atpm_nizkp_scalar_arithmetic_is_modular() {
    // the group order less one, in big-endian bytes
    let n_minus_one: [u8; 32] = [
        0xff, 0xff, 0xff, 0xff, 0xff, 0xff, 0xff, 0xff, 0xff, 0xff, 0xff, 0xff, 0xff, 0xff, 0xff,
        0xfe, 0xba, 0xae, 0xdc, 0xe6, 0xaf, 0x48, 0xa0, 0x3b, 0xbf, 0xd2, 0x5e, 0x8c, 0xd0, 0x36,
        0x41, 0x40,
    ];
    let minus_one = Scalar::from_bytes(&n_minus_one).unwrap();
    let mut n = n_minus_one;
    n[31] = 0x41;
    assert!(Scalar::from_bytes(&n).is_none());
    assert!(Scalar::from_bytes(&[0xff; 32]).is_none());

    let zero = Scalar::zero();
    let one = small(1);
    assert_eq!(zero.to_bytes(), [0u8; 32]);
    assert!(minus_one.add(&one).equals(&zero));
    assert!(zero.sub(&one).equals(&minus_one));
    assert!(minus_one.mul(&minus_one).equals(&one));
    assert!(small(6).mul(&small(7)).equals(&small(42)));
    assert!(small(9).sub(&small(4)).equals(&small(5)));
    assert!(!small(9).equals(&small(4)));
    assert!(zero.invert().is_none());
    assert!(minus_one.invert().unwrap().equals(&minus_one));
    let three = small(3);
    assert!(three.invert().unwrap().mul(&three).equals(&one));
}

#[test]
fn atpm_nizkp_seeded_scalars_known_answers() {
    let scalars = seeded_scalars(&[9u8; 32], 2).unwrap();
    assert_eq!(hex(&scalars[0].to_bytes()), "f2a76980dfc7a4924b326a129e9e7c7ee381ff8caa2e4fd1ee76966fd1b01909");
    assert_eq!(hex(&scalars[1].to_bytes()), "7897bdd7ad188ad93ce0bbd215ecfd558fdba78d259c451f7d72b48d7b03a652");
}

#[test]
fn atpm_nizkp_unchecked_parts_do_not_verify() {
    let private = PrivateKey::new().unwrap();
    let id = TokenIdentifier::Id([1u8; 16]);
    let forged = NizkpSignedToken::from_parts(id, b"m".to_vec(), AffinePoint::generator());
    assert!(!forged.verify(&private));

    let public_key = PublicKey::from(&private);
    let token = NizkpTokenEngine::generate(b"m".to_vec());
    let (r, anon) = NizkpTokenEngine::randomize(&token).unwrap();
    let signed = NizkpTokenEngine::sign_randomized(&anon, &private).unwrap();
    let swapped = RandomizedSignedToken::new(
        signed.point().add(&AffinePoint::generator()),
        signed.dleq_proof(),
    );
    assert!(NizkpTokenEngine::verify_signature_and_unrandomize(token, anon, swapped, &public_key, r)
        .is_none());

    let token = NizkpUnsignedToken::from_parts(TokenIdentifier::Id([1u8; 16]), b"m".to_vec());
    assert!(token.randomize_with(&Scalar::zero()).is_none());
    let r = small(9);
    let randomized = token.randomize_with(&r).unwrap();
    assert!(randomized.point().mul(&r) == token.get_point());
}

#[test]
fn atpm_nizkp_points_have_one_encoding() {
    let generator = AffinePoint::generator().to_bytes();
    assert!(AffinePoint::from_bytes(&generator).unwrap() == AffinePoint::generator());
    assert!(AffinePoint::from_bytes(&[0u8; 33]).unwrap() == AffinePoint::identity());

    // the curve decodes the compact form of the generator too; it is not taken
    let mut compact = generator;
    compact[0] = 5;
    let decoded = k256::AffinePoint::from_bytes(k256::CompressedPoint::from_slice(&compact));
    assert!(bool::from(decoded.is_some()));
    assert!(AffinePoint::from_bytes(&compact).is_none());

    // with the tag of a compressed point, what the curve decodes is taken
    let mut taken = 0;
    for i in 0..40u8 {
        let mut bytes = [i; 33];
        bytes[0] = 2 + (i % 2);
        let expected =
            bool::from(k256::AffinePoint::from_bytes(k256::CompressedPoint::from_slice(&bytes)).is_some());
        assert_eq!(AffinePoint::from_bytes(&bytes).is_some(), expected);
        if expected {
            taken += 1;
        }
    }
    assert!(taken > 0 && taken < 40);
    let mut other = [0u8; 33];
    other[0] = 1;
    assert!(AffinePoint::from_bytes(&other).is_none());
    other[0] = 0;
    other[32] = 1;
    assert!(AffinePoint::from_bytes(&other).is_none());
}
