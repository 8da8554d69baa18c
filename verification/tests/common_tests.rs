use atpmd::common::{fill_bytes, CtOption, TokenIdentifier};

#[test]
fn fill_bytes_test() {
    let mut b1 = [0u8; 32];
    let mut b2 = [0u8; 32];
    fill_bytes(&mut b1);
    fill_bytes(&mut b2);
    // probability of a collision is really small (2^{-256})
    assert_ne!(b1, b2);
}

#[test]
fn identifier_equality_goes_by_tag() {
    let a = TokenIdentifier::Id([7u8; 16]);
    let b = TokenIdentifier::Id([7u8; 16]);
    let c = TokenIdentifier::Id([8u8; 16]);
    assert!(a == b);
    assert!(a != c);
    assert!(a.clone() == a);
}

#[test]
fn tag_of_a_plain_identifier_is_its_bytes() {
    let mut t = [0u8; 16];
    for i in 0..16 {
        t[i] = i as u8;
    }
    assert_eq!(TokenIdentifier::Id(t).tag(), t);
}

#[test]
fn tag_with_hidden_metadata_is_the_head_of_the_sha512_digest() {
    let mut t = [0u8; 16];
    for i in 0..16 {
        t[i] = i as u8;
    }
    let id = TokenIdentifier::WithHidden(t, b"This is my hidden metadata".to_vec());
    let expected: [u8; 16] = [
        0xb6, 0x99, 0x43, 0x2d, 0xb1, 0x2d, 0xa8, 0xac, 0x52, 0xad, 0x04, 0x4f, 0x07, 0x02, 0xd9,
        0x7b,
    ];
    assert_eq!(id.tag(), expected);
    // an identifier of the tag alone is the same identifier
    assert!(id == TokenIdentifier::Id(expected));
    assert!(id != TokenIdentifier::Id(t));
    let other = TokenIdentifier::WithHidden(t, b"This is my other metadata".to_vec());
    assert!(id != other);
    assert!(id.clone() == id);
}

#[test]
fn new_identifiers_are_fresh() {
    let a = TokenIdentifier::new();
    let b = TokenIdentifier::new();
    assert!(matches!(a, TokenIdentifier::Id(_)));
    assert!(a != b);

    let h = TokenIdentifier::with_hidden(b"hidden".to_vec());
    match &h {
        TokenIdentifier::WithHidden(_, hidden) => assert_eq!(hidden, &b"hidden".to_vec()),
        TokenIdentifier::Id(_) => panic!("the hidden metadata are kept"),
    }

    let many: [TokenIdentifier; 8] = TokenIdentifier::generate();
    for i in 0..8 {
        assert!(matches!(many[i], TokenIdentifier::Id(_)));
        for j in 0..i {
            assert!(many[i] != many[j]);
        }
    }
    let none: [TokenIdentifier; 0] = TokenIdentifier::generate();
    assert_eq!(none.len(), 0);

    let hidden: [TokenIdentifier; 3] = TokenIdentifier::generate_with_hidden(&b"h".to_vec());
    for i in 0..3 {
        assert!(matches!(&hidden[i], TokenIdentifier::WithHidden(_, h) if h == &b"h".to_vec()));
        for j in 0..i {
            assert!(hidden[i] != hidden[j]);
        }
    }
}

#[test]
fn option_with_presence_bit() {
    let some = CtOption::new(5u8, 1);
    assert!(some.is_some());
    assert!(!some.is_none());
    assert_eq!(*some.value_ref(), 5);
    assert_eq!(some.unwrap(), 5);
    let none = CtOption::new(5u8, 0);
    assert!(none.is_none());
    assert!(!none.is_some());
    assert_eq!(none.into_option(), None);
    assert_eq!(CtOption::new(6u8, 1).into_option(), Some(6));
}
