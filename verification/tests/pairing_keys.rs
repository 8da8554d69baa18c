use atpmd::atpm_pairing::keys::{PrivateKey, PublicKey};
use atpmd::common::{DecodeError, Field};
use bls12_381::{G2Affine, Scalar};

/// The fields of a JSON object whose values are arrays of bytes, in the order of the text.
fn fields_of(json: &str) -> Vec<Field> {
    let value: serde_json::Value = serde_json::from_str(json).unwrap();
    let mut fields = Vec::new();
    for (name, bytes) in value.as_object().unwrap() {
        let bytes: Vec<u8> = bytes
            .as_array()
            .unwrap()
            .iter()
            .map(|b| b.as_u64().unwrap() as u8)
            .collect();
        fields.push(Field::new(name.as_bytes(), &bytes));
    }
    fields
}

/// The JSON object of a record.
fn json_of(fields: &[Field]) -> String {
    let mut object = serde_json::Map::new();
    for field in fields {
        let name = String::from_utf8(field.name.clone()).unwrap();
        let bytes: Vec<serde_json::Value> =
            field.value.iter().map(|b| serde_json::Value::from(*b)).collect();
        object.insert(name, serde_json::Value::Array(bytes));
    }
    serde_json::to_string(&serde_json::Value::Object(object)).unwrap()
}

#[test]
fn test_private_public_relation() {
    let sk = PrivateKey::new().unwrap();
    let pk = PublicKey::from(&sk);

    let sec: Scalar = Scalar::from_bytes(&sk.to_scalar().to_bytes()).unwrap();

    let pb: G2Affine = G2Affine::from_compressed(&pk.to_compressed()).unwrap();

    assert!(pb == (G2Affine::generator() * sec).into());
}

#[test]
fn test_serde() {
    let sk = PrivateKey::new().unwrap();
    let pk = PublicKey::from(&sk);

    let serialized = json_of(&pk.to_record());

    let deserialized: PublicKey = PublicKey::from_record(&fields_of(&serialized)).unwrap();

    assert!(deserialized.to_compressed() == pk.to_compressed());
}

#[test]
fn test_serde_fail() {
    let deserialized: Result<PublicKey, DecodeError> = PublicKey::from_record(&fields_of(
        r#"{"keys": [123,123,123,123,123,123,123,123,123,123,123,123,123,123,123,123,123,123,123,123,123,123,123,123,123,123,123,123,123,123,123,123,123,123,123,123,123,123,123,123,123,123,123,123,123,123,123,123,123,123,123,123,123,123,123,123,123,123,123,123,123,123,123,123,123,123,123,123,123,123,123,123,123,123,123,123,123,123,123,123,123,123,123,123,123,123,123,123,123,123,123,123,123,123,123,123]}"#,
    ));

    assert!(deserialized.is_err());
}

#[test]
fn public_key_record_has_one_field_named_key() {
    let sk = PrivateKey::new().unwrap();
    let pk = PublicKey::from(&sk);
    let record = pk.to_record();
    assert_eq!(record.len(), 1);
    assert_eq!(record[0].name, b"key".to_vec());
    assert_eq!(record[0].value, pk.to_compressed().to_vec());
    assert_eq!(record[0].value.len(), 96);
}

#[test]
fn public_key_decoding_errors() {
    let sk = PrivateKey::new().unwrap();
    let pk = PublicKey::from(&sk);
    let good = pk.to_compressed().to_vec();

    let unknown = vec![Field::new(b"keys", &good)];
    assert_eq!(PublicKey::from_record(&unknown).unwrap_err(), DecodeError::UnknownField);

    let twice = vec![Field::new(b"key", &good), Field::new(b"key", &good)];
    assert_eq!(PublicKey::from_record(&twice).unwrap_err(), DecodeError::DuplicateField);

    let none: Vec<Field> = Vec::new();
    assert_eq!(PublicKey::from_record(&none).unwrap_err(), DecodeError::MissingField);

    let short = vec![Field::new(b"key", &good[..95])];
    assert_eq!(PublicKey::from_record(&short).unwrap_err(), DecodeError::WrongLength);

    // 96 bytes of 123: the compression flag is not set
    let invalid = vec![Field::new(b"key", &[123u8; 96])];
    assert_eq!(PublicKey::from_record(&invalid).unwrap_err(), DecodeError::InvalidPoint);

    // the first offending field decides
    let mixed = vec![Field::new(b"key", &good), Field::new(b"other", &good), Field::new(b"key", &good)];
    assert_eq!(PublicKey::from_record(&mixed).unwrap_err(), DecodeError::UnknownField);
}

#[test]
fn public_key_of_one_is_the_generator() {
    let mut one = [0u8; 32];
    one[0] = 1;
    let sk = PrivateKey::from_scalar(atpmd::atpm_pairing::scalar::Scalar::from_bytes(&one).unwrap());
    let pk = PublicKey::from(&sk);
    assert_eq!(pk.to_compressed(), G2Affine::generator().to_compressed());
    let expected: [u8; 96] = [
        0x93, 0xe0, 0x2b, 0x60, 0x52, 0x71, 0x9f, 0x60, 0x7d, 0xac, 0xd3, 0xa0, 0x88, 0x27, 0x4f,
        0x65, 0x59, 0x6b, 0xd0, 0xd0, 0x99, 0x20, 0xb6, 0x1a, 0xb5, 0xda, 0x61, 0xbb, 0xdc, 0x7f,
        0x50, 0x49, 0x33, 0x4c, 0xf1, 0x12, 0x13, 0x94, 0x5d, 0x57, 0xe5, 0xac, 0x7d, 0x05, 0x5d,
        0x04, 0x2b, 0x7e, 0x02, 0x4a, 0xa2, 0xb2, 0xf0, 0x8f, 0x0a, 0x91, 0x26, 0x08, 0x05, 0x27,
        0x2d, 0xc5, 0x10, 0x51, 0xc6, 0xe4, 0x7a, 0xd4, 0xfa, 0x40, 0x3b, 0x02, 0xb4, 0x51, 0x0b,
        0x64, 0x7a, 0xe3, 0xd1, 0x77, 0x0b, 0xac, 0x03, 0x26, 0xa8, 0x05, 0xbb, 0xef, 0xd4, 0x80,
        0x56, 0xc8, 0xc1, 0x21, 0xbd, 0xb8,
    ];
    assert_eq!(pk.to_compressed(), expected);
}
