use atpmd::atpm_pairing::scalar::Scalar as TokenScalar;
use atpmd::atpm_pairing::util::{h_1, h_m, random_biased, random_vartime, seeded_scalars, CurvePoint};
use atpmd::common::{DecodeError, Field};
use bls12_381::hash_to_curve::{ExpandMsgXmd, HashToCurve};
use bls12_381::{G1Affine, G1Projective, Scalar};
use sha2::{Digest, Sha256};

#[test]
fn test_serialization() {
    let point = G1Affine::generator() * Scalar::from(123);

    let cp = CurvePoint::from_compressed(&G1Affine::from(point).to_compressed()).unwrap();

    let record = cp.to_record();
    let mut object = serde_json::Map::new();
    for field in &record {
        let bytes: Vec<serde_json::Value> =
            field.value.iter().map(|b| serde_json::Value::from(*b)).collect();
        object.insert(String::from_utf8(field.name.clone()).unwrap(), serde_json::Value::Array(bytes));
    }
    let serialized = serde_json::to_string(&serde_json::Value::Object(object)).unwrap();

    let parsed: serde_json::Value = serde_json::from_str(&serialized).unwrap();
    let mut fields = Vec::new();
    for (name, bytes) in parsed.as_object().unwrap() {
        let bytes: Vec<u8> =
            bytes.as_array().unwrap().iter().map(|b| b.as_u64().unwrap() as u8).collect();
        fields.push(Field::new(name.as_bytes(), &bytes));
    }
    let deserialized: CurvePoint = CurvePoint::from_record(&fields).unwrap();

    // Assert that the serialization and deserialization works
    assert!(
        G1Affine::from(point) == G1Affine::from_compressed(&deserialized.to_compressed()).unwrap()
    );
    assert!(deserialized == cp);
}

#[test]
fn curve_point_decoding_errors() {
    let good = G1Affine::generator().to_compressed().to_vec();

    assert!(CurvePoint::from_bytes(&good).is_ok());
    assert_eq!(CurvePoint::from_bytes(&good[..47]).unwrap_err(), DecodeError::WrongLength);
    assert_eq!(CurvePoint::from_bytes(&[]).unwrap_err(), DecodeError::WrongLength);
    assert_eq!(CurvePoint::from_bytes(&[0u8; 48]).unwrap_err(), DecodeError::InvalidPoint);

    let unknown = vec![Field::new(b"key", &good)];
    assert_eq!(CurvePoint::from_record(&unknown).unwrap_err(), DecodeError::UnknownField);
    let twice = vec![Field::new(b"point", &good), Field::new(b"point", &good)];
    assert_eq!(CurvePoint::from_record(&twice).unwrap_err(), DecodeError::DuplicateField);
    let none: Vec<Field> = Vec::new();
    assert_eq!(CurvePoint::from_record(&none).unwrap_err(), DecodeError::MissingField);
}

#[test]
fn identity_encoding_is_flags_then_zeros() {
    let mut expected = [0u8; 48];
    expected[0] = 0xc0;
    assert_eq!(CurvePoint::identity().to_compressed(), expected);
}

#[test]
fn point_arithmetic_is_that_of_the_curve() {
    let g = G1Affine::generator();
    let p = CurvePoint::from_compressed(&g.to_compressed()).unwrap();
    let mut five = [0u8; 32];
    five[0] = 5;
    let five = TokenScalar::from_bytes(&five).unwrap();
    let product = p.mul(&five);
    assert_eq!(product.to_compressed(), G1Affine::from(g * Scalar::from(5)).to_compressed());
    assert!(product != p);
    let sum = product.add(&p);
    assert_eq!(sum.to_compressed(), G1Affine::from(g * Scalar::from(6)).to_compressed());
}

#[test]
fn scalar_arithmetic_is_modular() {
    // the group order less one, in little-endian bytes
    let mut top = [
        0x00u8, 0x00, 0x00, 0x00, 0xff, 0xff, 0xff, 0xff, 0xfe, 0x5b, 0xfe, 0xff, 0x02, 0xa4, 0xbd,
        0x53, 0x05, 0xd8, 0xa1, 0x09, 0x08, 0xd8, 0x39, 0x33, 0x48, 0x7d, 0x9d, 0x29, 0x53, 0xa7,
        0xed, 0x73,
    ];
    let minus_one = TokenScalar::from_bytes(&top).unwrap();
    // the group order itself is not canonical
    top[0] = 1;
    assert!(TokenScalar::from_bytes(&top).is_none());
    assert!(TokenScalar::from_bytes(&[0xff; 32]).is_none());

    let mut one = [0u8; 32];
    one[0] = 1;
    let one = TokenScalar::from_bytes(&one).unwrap();
    // -1 + 1 = 0
    let zero = minus_one.add(&one);
    assert_eq!(zero.to_bytes(), [0u8; 32]);
    // zero has no inverse, and the inverse of -1 is -1
    assert!(zero.invert().is_none());
    assert!(!zero.invert().is_some());
    assert_eq!(minus_one.invert().unwrap().to_bytes(), minus_one.to_bytes());
    assert_eq!(one.invert().unwrap().to_bytes(), one.to_bytes());
    // 2^256 reduces to 2^256 mod q
    let mut wide = [0u8; 64];
    wide[32] = 1;
    let reduced = TokenScalar::from_bytes_wide(&wide);
    let expected: [u8; 32] = [
        0xfe, 0xff, 0xff, 0xff, 0x01, 0x00, 0x00, 0x00, 0x02, 0x48, 0x03, 0x00, 0xfa, 0xb7, 0x84,
        0x58, 0xf5, 0x4f, 0xbc, 0xec, 0xef, 0x4f, 0x8c, 0x99, 0x6f, 0x05, 0xc5, 0xac, 0x59, 0xb1,
        0x24, 0x18,
    ];
    assert_eq!(reduced.to_bytes(), expected);
}

#[test]
fn random_scalars_differ() {
    let a = random_vartime().unwrap();
    let b = random_vartime().unwrap();
    assert_ne!(a.to_bytes(), b.to_bytes());
    let c = random_biased();
    let d = random_biased();
    assert_ne!(c.to_bytes(), d.to_bytes());
}

/// The rejection chain of the oracle, written out.
fn reference_h_m(md: &[u8]) -> Scalar {
    let mut data = md.to_vec();
    loop {
        let mut hasher = Sha256::new();
        hasher.update(b"This is hash_to_scalar hash");
        hasher.update(&data);
        let digest: [u8; 32] = hasher.finalize().into();
        let s = Scalar::from_bytes(&digest);
        if bool::from(s.is_some()) {
            return s.unwrap();
        }
        data = digest.to_vec();
    }
}

#[test]
fn h_m_is_the_rejection_chain_of_sha256() {
    let mut rejected = 0;
    for i in 0..40u8 {
        let md = vec![i; (i as usize) % 7];
        let expected = reference_h_m(&md);
        assert_eq!(h_m(&md).unwrap().to_bytes(), expected.to_bytes());

        let mut hasher = Sha256::new();
        hasher.update(b"This is hash_to_scalar hash");
        hasher.update(&md);
        let digest: [u8; 32] = hasher.finalize().into();
        if digest != expected.to_bytes() {
            rejected += 1;
        }
    }
    // more than half of all digests are not below the group order
    assert!(rejected > 0);
}

#[test]
fn h_1_is_hash_to_curve_of_tag_then_metadata() {
    let t = [3u8; 16];
    let md = b"This is my metadata";
    let mut bytes = t.to_vec();
    bytes.extend_from_slice(md);
    let expected: G1Affine = <G1Projective as HashToCurve<ExpandMsgXmd<Sha256>>>::hash_to_curve(
        bytes,
        b"This is h_1 hash to curve thingy",
    )
    .into();
    assert_eq!(h_1(&t, md).to_compressed(), expected.to_compressed());
    assert_ne!(h_1(&t, b"other").to_compressed(), expected.to_compressed());
}

#[test]
fn seeded_scalars_are_a_function_of_the_seed() {
    let seed = [9u8; 32];
    let a = seeded_scalars(&seed, 6).unwrap();
    let b = seeded_scalars(&seed, 6).unwrap();
    assert_eq!(a.len(), 6);
    for i in 0..6 {
        assert_eq!(a[i].to_bytes(), b[i].to_bytes());
        for j in 0..i {
            assert_ne!(a[i].to_bytes(), a[j].to_bytes());
        }
    }
    // a shorter run is a prefix of a longer one
    let c = seeded_scalars(&seed, 3).unwrap();
    for i in 0..3 {
        assert_eq!(a[i].to_bytes(), c[i].to_bytes());
    }
    let other = seeded_scalars(&[10u8; 32], 1).unwrap();
    assert_ne!(a[0].to_bytes(), other[0].to_bytes());
    assert!(seeded_scalars(&seed, 0).unwrap().is_empty());
}

fn hex(bytes: &[u8]) -> String {
    bytes.iter().map(|b| format!("{:02x}", b)).collect()
}

#[test]
fn h_m_known_answers() {
    // the first digest is below the group order
    assert_eq!(
        hex(&h_m(b"").unwrap().to_bytes()),
        "a5b23107d761bf7e995f33585997c71d46afef139a52541e9c186a48f1315b73"
    );
    // the third digest of the chain is the first below the group order
    assert_eq!(
        hex(&h_m(b"This is my metadata").unwrap().to_bytes()),
        "c793039d2ad09afd75aa93e1c373356f8ae4cadf53724befbee330794351a543"
    );
    // the fourth
    assert_eq!(
        hex(&h_m(b"sample metadata").unwrap().to_bytes()),
        "44a027b5317aa9d3a579f13b63e0fe69cb0aaf90dba6c576f875d12b3d7ee95b"
    );
}

#[test]
fn seeded_scalars_known_answers() {
    // of the first four draws of this seed one is not below the group order
    let scalars = seeded_scalars(&[9u8; 32], 3).unwrap();
    assert_eq!(
        hex(&scalars[0].to_bytes()),
        "f2df4b9ee3aaeed178ad3c158f257d7b9e9375bcf6c0e182dd856dd50f0d9a20"
    );
    assert_eq!(
        hex(&scalars[1].to_bytes()),
        "1347822014f640132b52add10a06bffa61643f5357bc230f488b4dc80f28b859"
    );
    assert_eq!(
        hex(&scalars[2].to_bytes()),
        "5c0454ac1ee13d3704c63452a93981c41ec1e48fe7039b7b477304aa45d62e22"
    );
}
