//! The keys of the pairing construction.

use vstd::prelude::*;
use vstd::string::StringSliceAdditionalSpecFns;
use crate::common::{single_field, spec_single_field, DecodeError, Field};
use super::backend::{
    g2_check, g2_decodes, g2_generator, g2_generator_encoding, g2_mul, g2_product, group_order,
};
use super::scalar::Scalar;
use super::util::random_vartime;

verus! {

/// The private key of the pairing construction: a scalar.
#[derive(Debug)]
pub struct PrivateKey {
    key: Scalar,
}

impl View for PrivateKey {
    type V = nat;

    /// The number that the key stands for.
    closed spec fn view(&self) -> nat {
        self.key@
    }
}

impl PrivateKey {
    /// A new random private key, drawn uniformly: the key that is what `random_vartime`
    /// drew. `None` where it drew no scalar.
    pub fn new() -> (out: Option<PrivateKey>)
        ensures
            out matches Some(sk) ==> sk@ < group_order(),
            exists|drawn: Option<Scalar>|
                #[trigger] call_ensures(random_vartime, (), drawn) && match drawn {
                    None => out is None,
                    Some(key) => out matches Some(sk) && sk@ == key@,
                },
    {
        let drawn = random_vartime();
        assert(call_ensures(random_vartime, (), drawn));
        match drawn {
            Some(key) => Some(PrivateKey { key }),
            None => None,
        }
    }

    /// The private key that is `key`.
    pub fn from_scalar(key: Scalar) -> (out: PrivateKey)
        ensures
            out@ == key@,
    {
        PrivateKey { key }
    }

    /// The scalar of the private key.
    pub fn to_scalar(&self) -> (out: Scalar)
        ensures
            out@ == self@,
    {
        self.key
    }
}

impl Clone for PrivateKey {
    fn clone(&self) -> (out: Self)
        ensures
            out@ == self@,
    {
        PrivateKey { key: self.key }
    }
}

/// The encoding of the public key of the private key `sk`: the generator of G2 times `sk`.
pub open spec fn spec_public_key(sk: nat) -> Seq<u8> {
    g2_product(g2_generator_encoding(), sk)
}

/// The name of the one field of a public key's record.
pub open spec fn key_field() -> Seq<u8> {
    "key".spec_bytes()
}

/// The public key of the pairing construction: a point of G2, held in its 96 compressed bytes.
#[derive(Debug)]
pub struct PublicKey {
    key: [u8; 96],
}

impl View for PublicKey {
    type V = Seq<u8>;

    /// The compressed encoding of the key.
    closed spec fn view(&self) -> Seq<u8> {
        self.key@
    }
}

impl PublicKey {
    #[verifier::type_invariant]
    spec fn decodes(self) -> bool {
        g2_decodes(self.key@)
    }

    /// The public key that belongs to a private key.
    pub fn from(sk: &PrivateKey) -> (out: PublicKey)
        ensures
            out@ == spec_public_key(sk@),
    {
        let generator = g2_generator();
        let scalar = sk.key.to_bytes();
        PublicKey { key: g2_mul(&generator, &scalar) }
    }

    /// The public key with the compressed encoding `bytes`, if there is one.
    pub fn from_compressed(bytes: &[u8; 96]) -> (out: Option<PublicKey>)
        ensures
            out is Some == g2_decodes(bytes@),
            out matches Some(pk) ==> pk@ == bytes@,
    {
        if g2_check(bytes) {
            Some(PublicKey { key: *bytes })
        } else {
            None
        }
    }

    /// The compressed encoding of the key. Decoding it gives the key again.
    pub fn to_compressed(&self) -> (out: [u8; 96])
        ensures
            out@ == self@,
            g2_decodes(self@),
            Self::spec_from_bytes(out@) == Ok::<Seq<u8>, DecodeError>(self@),
    {
        proof {
            use_type_invariant(self);
        }
        self.key
    }

    /// What decoding `bytes` gives: a key with that encoding where they are 96 bytes that the
    /// group accepts, else the error.
    pub open spec fn spec_from_bytes(bytes: Seq<u8>) -> Result<Seq<u8>, DecodeError> {
        if bytes.len() != 96 {
            Err(DecodeError::WrongLength)
        } else if !g2_decodes(bytes) {
            Err(DecodeError::InvalidPoint)
        } else {
            Ok(bytes)
        }
    }

    /// Decodes a public key from a byte string of any length.
    pub fn from_bytes(bytes: &[u8]) -> (out: Result<PublicKey, DecodeError>)
        ensures
            match out {
                Ok(pk) => Self::spec_from_bytes(bytes@) == Ok::<Seq<u8>, DecodeError>(pk@),
                Err(e) => Self::spec_from_bytes(bytes@) == Err::<Seq<u8>, DecodeError>(e),
            },
    {
        if bytes.len() != 96 {
            return Err(DecodeError::WrongLength);
        }
        let mut key = [0u8; 96];
        let mut i: usize = 0;
        while i < 96
            invariant
                i <= 96,
                bytes@.len() == 96,
                forall|j: int| 0 <= j < i ==> key@[j] == bytes@[j],
            decreases 96 - i,
        {
            key[i] = bytes[i];
            i += 1;
        }
        assert(key@ =~= bytes@);
        match PublicKey::from_compressed(&key) {
            Some(pk) => Ok(pk),
            None => Err(DecodeError::InvalidPoint),
        }
    }

    /// The record of the key: one field, named `key`, with the compressed encoding.
    /// Decoding it gives the key again.
    pub fn to_record(&self) -> (out: Vec<Field>)
        ensures
            out@.len() == 1,
            out@[0]@ == (key_field(), self@),
            Self::spec_from_record(out@) == Ok::<Seq<u8>, DecodeError>(self@),
    {
        let mut out: Vec<Field> = Vec::new();
        out.push(Field::new("key".as_bytes(), self.to_compressed().as_slice()));
        proof {
            crate::common::lemma_record_of_one_field(out@, key_field());
        }
        out
    }

    /// What decoding a record gives: the error of the first field that is not the one field
    /// or comes a second time; else the error of a record without that field; else what its
    /// bytes decode to.
    pub open spec fn spec_from_record(fields: Seq<Field>) -> Result<Seq<u8>, DecodeError> {
        match spec_single_field(fields, key_field()) {
            Err(e) => Err(e),
            Ok(index) => Self::spec_from_bytes(fields[index]@.1),
        }
    }

    /// Decodes a public key from the fields of a record, in the order in which they were read.
    pub fn from_record(fields: &[Field]) -> (out: Result<PublicKey, DecodeError>)
        ensures
            match out {
                Ok(pk) => Self::spec_from_record(fields@) == Ok::<Seq<u8>, DecodeError>(pk@),
                Err(e) => Self::spec_from_record(fields@) == Err::<Seq<u8>, DecodeError>(e),
            },
    {
        match single_field(fields, "key".as_bytes()) {
            Err(e) => Err(e),
            Ok(index) => PublicKey::from_bytes(fields[index].value.as_slice()),
        }
    }
}

impl Clone for PublicKey {
    fn clone(&self) -> (out: Self)
        ensures
            out@ == self@,
    {
        proof {
            use_type_invariant(self);
        }
        PublicKey { key: self.key }
    }
}

} // verus!
