use atpmd::atpm_pairing::keys::{PrivateKey, PublicKey};
use atpmd::atpm_pairing::tokens::{
    PairingSignedToken, PairingTokenEngine, PairingUnsignedToken, RandomizedUnsignedToken,
};
use atpmd::atpm_pairing::tokens_batched::{
    verify_no_lin_comb, BatchedPairingSignedToken, BatchedPairingTokenEngine,
};
use atpmd::atpm_pairing::util::{random_biased, CurvePoint};
use atpmd::{SignedToken, TokenEngine};
use bls12_381::{G1Affine, G1Projective, Scalar};

fn affine(point: &CurvePoint) -> G1Affine {
    G1Affine::from_compressed(&point.to_compressed()).unwrap()
}

fn curve_point(point: &G1Affine) -> CurvePoint {
    CurvePoint::from_compressed(&point.to_compressed()).unwrap()
}

fn biased() -> Scalar {
    Scalar::from_bytes(&random_biased().to_bytes()).unwrap()
}

#[test]
fn tokens_batched_test_all() {
    // generate keys
    let private_key = PrivateKey::new().unwrap();
    let public_key = PublicKey::from(&private_key);

    // generate tokens
    let tokens = BatchedPairingTokenEngine::<5>::generate(b"metadata".to_vec());

    let signed = BatchedPairingTokenEngine::sign(tokens, &public_key, |tokens| {
        BatchedPairingTokenEngine::sign_randomized(tokens, &private_key)
    })
    .unwrap();

    assert!(BatchedPairingTokenEngine::verify(&signed, &public_key));

    let mut count = 0;
    let mut iter = signed.iter();
    while let Some(token) = iter.next() {
        assert!(PairingTokenEngine::verify(&token, &public_key));
        count += 1;
    }
    assert_eq!(count, 5);
}

#[test]
fn tokens_batched_fail_bad_signkey() {
    // generate keys
    let private_key = PrivateKey::new().unwrap();
    let public_key = PublicKey::from(&private_key);

    // generate tokens
    let tokens = BatchedPairingTokenEngine::<5>::generate(b"metadata".to_vec());

    // generate keys
    let wrong_private_key = PrivateKey::new().unwrap();

    assert!(
        BatchedPairingTokenEngine::sign(tokens, &public_key, |tokens| {
            BatchedPairingTokenEngine::sign_randomized(tokens, &wrong_private_key)
        })
        .is_none()
    );
}

#[test]
fn fail_bad_verify_key() {
    // generate keys
    let private_key = PrivateKey::new().unwrap();
    let public_key = PublicKey::from(&private_key);

    // generate tokens
    let tokens = BatchedPairingTokenEngine::<5>::generate(b"metadata".to_vec());

    let signed = BatchedPairingTokenEngine::sign(tokens, &public_key, |tokens| {
        BatchedPairingTokenEngine::sign_randomized(tokens, &private_key)
    })
    .unwrap();

    let fake_private = PrivateKey::new().unwrap();
    let fake_public = PublicKey::from(&fake_private);

    assert!(!BatchedPairingTokenEngine::verify(&signed, &fake_public));

    let mut iter = signed.iter();
    while let Some(token) = iter.next() {
        assert!(!PairingTokenEngine::verify(&token, &fake_public));
    }
}

/// The batch of the forgery: one signature on the sum of all the tokens' points in the first
/// place, and points that sum to the point at infinity in the others.
fn forged_batch<const N: usize>(
    private_key: &PrivateKey,
    filler: impl Fn() -> G1Affine,
) -> BatchedPairingSignedToken<N> {
    let metadata = b"sample metadata";

    let (s, l) = core::iter::repeat_with(|| PairingTokenEngine::generate(metadata.to_vec()))
        .take(N)
        .fold((G1Projective::identity(), Vec::new()), |(s, mut l), t: PairingUnsignedToken| {
            let point = affine(&t.point());
            l.push(t);
            (s + point, l)
        });

    let r = biased();

    let sum_t = G1Affine::from(s * r.invert().unwrap());

    let r_token = RandomizedUnsignedToken::new(curve_point(&sum_t), metadata.to_vec());

    // sign one token
    let s_token = PairingTokenEngine::sign_randomized(&r_token, private_key).unwrap();

    let w = affine(&s_token.point()) * r;

    let (s, mut a) = core::iter::repeat_with(&filler).take(N - 2).fold(
        (G1Projective::identity(), Vec::new()),
        |(mut s, mut l), t| {
            s += t;
            l.push(t);
            (s, l)
        },
    );
    a.push(G1Affine::from(-s));

    let tokens: [PairingSignedToken; N] = [G1Affine::from(w)]
        .iter()
        .chain(a.iter())
        .zip(l.into_iter())
        .map(|(w, t)| t.get_signed(curve_point(w)))
        .collect::<Vec<_>>()
        .try_into()
        .unwrap();

    BatchedPairingSignedToken::<N>::from(tokens)
}

#[test]
fn attack_no_lincomb() {
    const N: usize = 50;

    let private_key = PrivateKey::new().unwrap();
    let public_key = PublicKey::from(&private_key);

    let btoken = forged_batch::<N>(&private_key, || {
        G1Affine::from(G1Affine::identity() * biased())
    });

    assert!(!btoken.verify(&public_key));
    assert!(verify_no_lin_comb(&btoken, &public_key));
}

#[test]
fn attack_with_random_fillers() {
    const N: usize = 6;

    let private_key = PrivateKey::new().unwrap();
    let public_key = PublicKey::from(&private_key);

    let btoken = forged_batch::<N>(&private_key, || {
        G1Affine::from(G1Affine::generator() * biased())
    });

    assert!(!btoken.verify(&public_key));
    assert!(verify_no_lin_comb(&btoken, &public_key));

    // with coefficients that are all one the weighted check is the plain one
    let mut one = [0u8; 32];
    one[0] = 1;
    let one = atpmd::atpm_pairing::scalar::Scalar::from_bytes(&one).unwrap();
    assert!(btoken.verify_with(&public_key, &[one; N]));
    // and the single tokens of the forged batch do not all verify
    let mut iter = btoken.iter();
    let mut all = true;
    while let Some(token) = iter.next() {
        all = all && token.verify(&public_key);
    }
    assert!(!all);
}

#[test]
fn batched_hidden_metadata_gives_distinct_tags() {
    let private_key = PrivateKey::new().unwrap();
    let public_key = PublicKey::from(&private_key);

    let tokens = BatchedPairingTokenEngine::<4>::generate_with_hidden(
        b"This is my metadata".to_vec(),
        b"This is my hidden metadata".to_vec(),
    );
    let signed = BatchedPairingTokenEngine::sign(tokens, &public_key, |tokens| {
        BatchedPairingTokenEngine::sign_randomized(tokens, &private_key)
    })
    .unwrap();
    assert!(signed.verify(&public_key));

    let mut singles = Vec::new();
    let mut iter = signed.iter();
    while let Some(token) = iter.next() {
        assert!(token.verify(&public_key));
        singles.push(token);
    }
    for i in 0..singles.len() {
        for j in 0..i {
            assert!(singles[i] != singles[j]);
        }
    }
}
