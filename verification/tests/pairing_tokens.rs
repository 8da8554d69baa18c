use atpmd::atpm_pairing::keys::{PrivateKey, PublicKey};
use atpmd::atpm_pairing::tokens::{PairingTokenEngine, PairingUnsignedToken};
use atpmd::{SignedToken, TokenEngine, UnsignedToken};

#[test]
fn tokens_test_all() {
    let message = b"this is public metadata";

    let secret_key = PrivateKey::new().unwrap();
    let public_key = PublicKey::from(&secret_key);

    let unsigned_token = PairingUnsignedToken::new(message.to_vec());

    let (r, anonymized_token) = PairingTokenEngine::randomize(&unsigned_token).unwrap();

    let signed = PairingTokenEngine::sign_randomized(&anonymized_token, &secret_key).unwrap();

    let signed_token = PairingTokenEngine::verify_signature_and_unrandomize(
        unsigned_token,
        anonymized_token,
        signed,
        &public_key,
        r,
    )
    .unwrap();

    assert!(signed_token.verify(&public_key));
}

#[test]
fn test_wrong_sign_key() {
    let message = b"this is public metadata";

    let secret_key = PrivateKey::new().unwrap();
    let public_key = PublicKey::from(&secret_key);

    let unsigned_token: PairingUnsignedToken = UnsignedToken::new(message.to_vec());

    let (r, anonymized_token) = PairingTokenEngine::randomize(&unsigned_token).unwrap();

    let wrong_secret_key = PrivateKey::new().unwrap();

    let signed =
        PairingTokenEngine::sign_randomized(&anonymized_token, &wrong_secret_key).unwrap();

    let signed_token = PairingTokenEngine::verify_signature_and_unrandomize(
        unsigned_token,
        anonymized_token,
        signed,
        &public_key,
        r,
    );

    assert!(signed_token.is_none())
}

#[test]
fn test_wrong_verification_key() {
    let message = b"this is public metadata";

    let secret_key = PrivateKey::new().unwrap();
    let public_key = PublicKey::from(&secret_key);

    let unsigned_token: PairingUnsignedToken = UnsignedToken::new(message[..].to_vec());

    let (r, anonymized_token) = PairingTokenEngine::randomize(&unsigned_token).unwrap();

    let signed = PairingTokenEngine::sign_randomized(&anonymized_token, &secret_key).unwrap();

    let signed_token = PairingTokenEngine::verify_signature_and_unrandomize(
        unsigned_token,
        anonymized_token,
        signed,
        &public_key,
        r,
    )
    .unwrap();

    let secret_key = PrivateKey::new().unwrap();
    let wrong_public_key = PublicKey::from(&secret_key);

    assert!(!signed_token.verify(&wrong_public_key));
}

#[test]
fn happy_path_with_the_sign_composite() {
    let metadata = b"This is my metadata";
    let sk = PrivateKey::new().unwrap();
    let pk = PublicKey::from(&sk);

    let token = PairingTokenEngine::sign(PairingTokenEngine::generate(metadata.to_vec()), &pk, |t| {
        PairingTokenEngine::sign_randomized(t, &sk)
    })
    .unwrap();

    assert!(PairingTokenEngine::verify(&token, &pk));
    // verification draws nothing: a second call gives the same answer
    assert!(PairingTokenEngine::verify(&token, &pk));
}

#[test]
fn hidden_metadata_pairing() {
    let metadata = b"This is my metadata";
    let hidden = b"This is my hidden metadata";
    let sk = PrivateKey::new().unwrap();
    let pk = PublicKey::from(&sk);

    let unsigned = PairingTokenEngine::generate_with_hidden(metadata.to_vec(), hidden.to_vec());
    let token = PairingTokenEngine::sign(unsigned, &pk, |t| {
        PairingTokenEngine::sign_randomized(t, &sk)
    })
    .unwrap();

    assert!(PairingTokenEngine::verify(&token, &pk));
}

#[test]
fn wrong_sign_key_through_the_oracle() {
    let metadata = b"This is my metadata";
    let sk1 = PrivateKey::new().unwrap();
    let sk2 = PrivateKey::new().unwrap();
    let pk1 = PublicKey::from(&sk1);

    let token = PairingTokenEngine::sign(PairingTokenEngine::generate(metadata.to_vec()), &pk1, |t| {
        PairingTokenEngine::sign_randomized(t, &sk2)
    });

    assert!(token.is_none());
}

#[test]
fn wrong_verification_key_through_the_engine() {
    let metadata = b"This is my metadata";
    let sk1 = PrivateKey::new().unwrap();
    let sk2 = PrivateKey::new().unwrap();
    let pk1 = PublicKey::from(&sk1);
    let pk2 = PublicKey::from(&sk2);

    let token = PairingTokenEngine::sign(PairingTokenEngine::generate(metadata.to_vec()), &pk1, |t| {
        PairingTokenEngine::sign_randomized(t, &sk1)
    })
    .unwrap();

    assert!(!PairingTokenEngine::verify(&token, &pk2));
}
