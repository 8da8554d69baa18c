use atpmd::atpm_nizkp::keys::PrivateKey as CurvePrivateKey;
use atpmd::atpm_nizkp::scalar::Scalar as CurveScalar;
use atpmd::atpm_nizkp::tokens::{
    NizkpTokenEngine as CurveEngine, RandomizedUnsignedToken as CurveRandomized,
};
use atpmd::atpm_nizkp::util::{hash_to_scalar as curve_hash_to_scalar, AffinePoint};
use atpmd::atpm_pairing::keys::{PrivateKey, PublicKey};
use atpmd::atpm_pairing::scalar::Scalar;
use atpmd::atpm_pairing::tokens::{
    PairingSignedToken, PairingTokenEngine, PairingUnsignedToken, RandomizedSignedToken,
    RandomizedUnsignedToken,
};
use atpmd::atpm_pairing::tokens_batched::{
    BatchedPairingSignedToken, BatchedPairingTokenEngine, BatchedPairingUnsignedToken,
    BatchedRandomizedSignedToken,
};
use atpmd::atpm_pairing::util::{h_m, seeded_scalars, CurvePoint};
use atpmd::common::{CtOption, TokenIdentifier};
use atpmd::nizkp_curve25519::keys::PrivateKey as RistrettoPrivateKey;
use atpmd::nizkp_curve25519::scalar::Scalar as RistrettoScalar;
use atpmd::nizkp_curve25519::tokens::{
    NizkpTokenEngine as RistrettoEngine, RandomizedUnsignedToken as RistrettoRandomized,
};
use atpmd::nizkp_curve25519::util::{hash_to_scalar as ristretto_hash_to_scalar, RistrettoPoint};
use atpmd::{RandomizedUnsignedToken as _, SignedToken, TokenEngine, UnsignedToken};

fn small(n: u8) -> Scalar {
    let mut bytes = [0u8; 32];
    bytes[0] = n;
    Scalar::from_bytes(&bytes).unwrap()
}

/// Issues one token through the interface that every engine implements.
fn issue<E: TokenEngine>(
    unsigned: E::UnsignedToken,
    verification: &E::UserVerification,
    key: &E::SignKey,
) -> Option<E::SignedToken> {
    E::sign(unsigned, verification, |randomized| E::sign_randomized(randomized, key))
}

#[test]
fn every_engine_issues_through_one_interface() {
    let sk = PrivateKey::new().unwrap();
    let pk = PublicKey::from(&sk);
    let token = issue::<PairingTokenEngine>(UnsignedToken::new(b"m".to_vec()), &pk, &sk).unwrap();
    assert!(PairingTokenEngine::verify(&token, &pk));
    let batch =
        issue::<BatchedPairingTokenEngine<3>>(UnsignedToken::new(b"m".to_vec()), &pk, &sk).unwrap();
    assert!(BatchedPairingTokenEngine::<3>::verify(&batch, &pk));

    let sk = RistrettoPrivateKey::new();
    let pk = atpmd::nizkp_curve25519::keys::PublicKey::from(&sk);
    let token = issue::<RistrettoEngine>(UnsignedToken::new(b"m".to_vec()), &pk, &sk).unwrap();
    assert!(RistrettoEngine::verify(&token, &sk));
    let batch = issue::<atpmd::nizkp_curve25519::tokens_batched::BatchedNizkpTokenEngine<3>>(
        UnsignedToken::new(b"m".to_vec()),
        &pk,
        &sk,
    )
    .unwrap();
    assert!(batch.verify(&sk));

    let sk = CurvePrivateKey::new().unwrap();
    let pk = atpmd::atpm_nizkp::keys::PublicKey::from(&sk);
    let token = issue::<CurveEngine>(UnsignedToken::new(b"m".to_vec()), &pk, &sk).unwrap();
    assert!(CurveEngine::verify(&token, &sk));
    let batch = issue::<atpmd::atpm_nizkp::tokens_batched::BatchedNizkpTokenEngine<3>>(
        UnsignedToken::new(b"m".to_vec()),
        &pk,
        &sk,
    )
    .unwrap();
    assert!(batch.verify(&sk));
}

#[test]
fn pairing_signer_gives_nothing_where_hash_and_key_cancel() {
    let metadata = b"This is my metadata";
    let d = bls12_381::Scalar::from_bytes(&h_m(metadata).unwrap().to_bytes()).unwrap();
    let sk = PrivateKey::from_scalar(Scalar::from_bytes(&(-d).to_bytes()).unwrap());

    let token = PairingTokenEngine::generate(metadata.to_vec());
    let (_, randomized) = PairingTokenEngine::randomize(&token).unwrap();
    let signed = PairingTokenEngine::sign_randomized(&randomized, &sk);
    assert!(signed.is_none());
    assert!(!signed.is_some());

    let tokens = BatchedPairingTokenEngine::<3>::generate(metadata.to_vec());
    let (_, randomized) = BatchedPairingTokenEngine::<3>::randomize(&tokens).unwrap();
    assert!(BatchedPairingTokenEngine::<3>::sign_randomized(&randomized, &sk).is_none());

    // with any other metadata the same key signs
    let token = PairingTokenEngine::generate(b"other".to_vec());
    let (_, randomized) = PairingTokenEngine::randomize(&token).unwrap();
    assert!(PairingTokenEngine::sign_randomized(&randomized, &sk).is_some());
}

#[test]
fn ristretto_signer_gives_nothing_where_hash_and_key_cancel() {
    let metadata = b"This is my metadata";
    let d = ristretto_hash_to_scalar(metadata);
    let zero = d.sub(&d);
    let sk = RistrettoPrivateKey::from_scalar(zero.sub(&d));

    let randomized = RistrettoRandomized::new(RistrettoPoint::basepoint(), metadata.to_vec());
    assert!(RistrettoEngine::sign_randomized(&randomized, &sk).is_none());
    let randomized = RistrettoRandomized::new(RistrettoPoint::basepoint(), b"other".to_vec());
    assert!(RistrettoEngine::sign_randomized(&randomized, &sk).is_some());
    assert!(RistrettoScalar::from_canonical_bytes(&[0u8; 32]).unwrap().equals(&zero));
}

#[test]
fn secp256k1_signer_gives_nothing_where_hash_and_key_cancel() {
    let metadata = b"This is my metadata";
    let d = curve_hash_to_scalar(metadata).unwrap();
    let sk = CurvePrivateKey::from_scalar(CurveScalar::zero().sub(&d));

    let randomized = CurveRandomized::new(AffinePoint::generator(), metadata.to_vec());
    assert!(CurveEngine::sign_randomized(&randomized, &sk).is_none());
    let randomized = CurveRandomized::new(AffinePoint::generator(), b"other".to_vec());
    assert!(CurveEngine::sign_randomized(&randomized, &sk).is_some());
}

#[test]
fn pairing_randomization_with_a_given_scalar() {
    let id = TokenIdentifier::Id([5u8; 16]);
    let token = PairingUnsignedToken::from_parts(id.clone(), b"m".to_vec());
    assert!(token.identifier() == id);
    assert!(token.randomize_with(&small(0)).is_none());

    let r = small(11);
    let randomized = token.randomize_with(&r).unwrap();
    assert_eq!(randomized.metadata(), b"m".to_vec());
    // the blinded point times r is the token's point
    assert!(randomized.point().mul(&r) == token.point());
    assert!(randomized.point() != token.point());
    // the same scalar gives the same blinded point, another scalar another one
    assert!(token.randomize_with(&r).unwrap().point() == randomized.point());
    assert!(token.randomize_with(&small(12)).unwrap().point() != randomized.point());

    let (id_again, metadata) = token.into_parts();
    assert!(id_again == id);
    assert_eq!(metadata, b"m".to_vec());
}

#[test]
fn two_randomizations_of_one_token_differ() {
    let token = PairingTokenEngine::generate(b"This is my metadata".to_vec());
    let (r1, first) = PairingTokenEngine::randomize(&token).unwrap();
    let (r2, second) = PairingTokenEngine::randomize(&token).unwrap();
    assert_ne!(r1.to_bytes(), r2.to_bytes());
    assert!(first.point() != second.point());
    assert_eq!(first.metadata(), second.metadata());

    let token = RistrettoEngine::generate(b"This is my metadata".to_vec());
    let (_, first) = RistrettoEngine::randomize(&token).unwrap();
    let (_, second) = RistrettoEngine::randomize(&token).unwrap();
    assert!(first.point() != second.point());

    // two tokens with one hidden metadata are blinded to different points too
    let h = b"This is my hidden metadata";
    let a = PairingTokenEngine::generate_with_hidden(b"m".to_vec(), h.to_vec());
    let b = PairingTokenEngine::generate_with_hidden(b"m".to_vec(), h.to_vec());
    assert!(a.identifier() != b.identifier());
    assert!(a.point() != b.point());
}

#[test]
fn signed_tokens_compare_by_tag_signature_and_metadata() {
    let sk = PrivateKey::new().unwrap();
    let pk = PublicKey::from(&sk);
    let token = issue::<PairingTokenEngine>(UnsignedToken::new(b"m".to_vec()), &pk, &sk).unwrap();
    let same = token.clone();
    assert!(token == same);

    let (id, signature, metadata) = same.unpack();
    assert!(PairingSignedToken::create(id.clone(), signature.clone(), metadata.clone()) == token);
    assert!(PairingSignedToken::create(id.clone(), signature.clone(), b"mm".to_vec()) != token);
    assert!(PairingSignedToken::create(id.clone(), signature.clone(), b"".to_vec()) != token);
    assert!(
        PairingSignedToken::create(TokenIdentifier::Id([0u8; 16]), signature, metadata.clone())
            != token
    );
    assert!(PairingSignedToken::create(id, CurvePoint::identity(), metadata) != token);
}

#[test]
fn default_answers_hold_the_point_at_infinity() {
    let single = RandomizedSignedToken::default();
    assert!(single.point() == CurvePoint::identity());
    assert!(single.metadata().is_empty());

    // a batch of them does not pass the client's check
    let sk = PrivateKey::new().unwrap();
    let pk = PublicKey::from(&sk);
    let tokens = BatchedPairingTokenEngine::<3>::generate(b"m".to_vec());
    let (seed, randomized) = BatchedPairingTokenEngine::<3>::randomize(&tokens).unwrap();
    let answer = BatchedRandomizedSignedToken::<3>::default();
    assert!(BatchedPairingTokenEngine::<3>::verify_signature_and_unrandomize(
        tokens, randomized, answer, &pk, seed
    )
    .is_none());
}

#[test]
fn batch_is_randomized_by_the_scalars_of_its_seed() {
    let seed = [9u8; 32];
    let ids = [TokenIdentifier::Id([1u8; 16]), TokenIdentifier::Id([2u8; 16])];
    let singles = [
        PairingUnsignedToken::from_parts(ids[0].clone(), b"m".to_vec()),
        PairingUnsignedToken::from_parts(ids[1].clone(), b"m".to_vec()),
    ];
    let batch = BatchedPairingUnsignedToken::<2>::from_parts(ids, b"m".to_vec());
    let randomized = batch.randomize_with_seed(&seed).unwrap();
    assert_eq!(randomized.metadata(), b"m".to_vec());

    // signing and unrandomizing with the same seed gives signatures that verify one by one
    let sk = PrivateKey::new().unwrap();
    let pk = PublicKey::from(&sk);
    let answer = BatchedPairingTokenEngine::<2>::sign_randomized(&randomized, &sk).unwrap();
    let again = batch.randomize_with_seed(&seed).unwrap();
    let signed = BatchedPairingTokenEngine::<2>::verify_signature_and_unrandomize(
        batch, again, answer, &pk, seed,
    )
    .unwrap();
    let scalars = seeded_scalars(&seed, 2).unwrap();
    let mut iter = signed.iter();
    for i in 0..2 {
        let token = iter.next().unwrap();
        assert!(token.verify(&pk));
        let (id, signature, _) = token.unpack();
        assert!(id == singles[i].identifier());
        // the signature is what the single engine gives with the scalar at this place
        let blinded = singles[i].randomize_with(&scalars[i]).unwrap();
        let answer = PairingTokenEngine::sign_randomized(&blinded, &sk).unwrap();
        assert!(answer.point().mul(&scalars[i]) == signature);
    }
    assert!(iter.next().is_none());
    assert!(iter.next().is_none());
}

#[test]
fn batch_of_single_tokens_takes_the_metadata_of_the_last() {
    let sk = PrivateKey::new().unwrap();
    let pk = PublicKey::from(&sk);
    let first = issue::<PairingTokenEngine>(UnsignedToken::new(b"one".to_vec()), &pk, &sk).unwrap();
    let second = issue::<PairingTokenEngine>(UnsignedToken::new(b"two".to_vec()), &pk, &sk).unwrap();
    let batch = BatchedPairingSignedToken::<2>::from([first.clone(), second.clone()]);
    let mut iter = batch.iter();
    let (id, signature, metadata) = iter.next().unwrap().unpack();
    let (first_id, first_signature, _) = first.unpack();
    assert!(id == first_id && signature == first_signature);
    assert_eq!(metadata, b"two".to_vec());
    assert!(iter.next().unwrap() == second);
    assert!(iter.next().is_none());
}

#[test]
fn outcome_of_an_oracle_that_gives_nothing() {
    let sk = PrivateKey::new().unwrap();
    let pk = PublicKey::from(&sk);
    let token = PairingTokenEngine::generate(b"m".to_vec());
    let none = PairingTokenEngine::sign(token, &pk, |_| {
        CtOption::new(RandomizedSignedToken::default(), 0)
    });
    assert!(none.is_none());
    // an answer that is present but is no signature is not accepted either
    let token = PairingTokenEngine::generate(b"m".to_vec());
    let none = PairingTokenEngine::sign(token, &pk, |t: &RandomizedUnsignedToken| {
        CtOption::new(RandomizedSignedToken::new(t.point(), t.metadata()), 1)
    });
    assert!(none.is_none());
}

#[test]
fn a_batch_of_no_tokens_is_always_randomized() {
    let sk = PrivateKey::new().unwrap();
    let pk = PublicKey::from(&sk);
    let tokens = BatchedPairingTokenEngine::<0>::generate(b"m".to_vec());
    let (seed, randomized) = BatchedPairingTokenEngine::<0>::randomize(&tokens).unwrap();
    let answer = BatchedPairingTokenEngine::<0>::sign_randomized(&randomized, &sk).unwrap();
    let signed = BatchedPairingTokenEngine::<0>::verify_signature_and_unrandomize(
        tokens, randomized, answer, &pk, seed,
    )
    .unwrap();
    assert!(signed.verify(&pk));
    assert!(signed.iter().next().is_none());

    let sk = RistrettoPrivateKey::new();
    let pk = atpmd::nizkp_curve25519::keys::PublicKey::from(&sk);
    let batch = issue::<atpmd::nizkp_curve25519::tokens_batched::BatchedNizkpTokenEngine<0>>(
        UnsignedToken::new(b"m".to_vec()),
        &pk,
        &sk,
    )
    .unwrap();
    assert!(batch.verify(&sk));

    let sk = CurvePrivateKey::new().unwrap();
    let pk = atpmd::atpm_nizkp::keys::PublicKey::from(&sk);
    let batch = issue::<atpmd::atpm_nizkp::tokens_batched::BatchedNizkpTokenEngine<0>>(
        UnsignedToken::new(b"m".to_vec()),
        &pk,
        &sk,
    )
    .unwrap();
    assert!(batch.verify(&sk));
}
