//! What the constructions share: fresh random bytes, the token identifier, the option with a
//! presence bit, and the interface that every engine implements.

use vstd::prelude::*;
use vstd::std_specs::cmp::PartialEqSpecImpl;
use vstd::string::StringSliceAdditionalSpecFns;
use crate::bytes::{append, same_bytes};
use crate::hashing::{sha512, sha512_digest};
use rand::RngCore;

verus! {

/// Fills `bytes` from `rand::thread_rng`, the generator of the calling thread.
///
/// Nothing is promised of the bytes: they differ from call to call.
#[verifier::external_body]
pub fn fill_bytes<const N: usize>(bytes: &mut [u8; N]) {
    rand::thread_rng().fill_bytes(bytes);
}

/// `<[T; N]>::try_from` on a vector of exactly `N` items: the array holds them in order.
#[verifier::external_body]
pub(crate) fn into_array<T, const N: usize>(items: Vec<T>) -> (out: [T; N])
    requires
        items@.len() == N,
    ensures
        out@ == items@,
{
    items.try_into().ok().unwrap()
}

/// A value that is always computed, with a bit that says whether it counts.
///
/// It lets a signer finish its work in the same way whether or not the key could be used, and
/// lets the caller look at the outcome once.
pub struct CtOption<T> {
    value: T,
    is_some: u8,
}

impl<T> CtOption<T> {
    #[verifier::type_invariant]
    spec fn mask_is_a_bit(self) -> bool {
        self.is_some <= 1
    }

    /// Whether the value counts.
    pub closed spec fn present(&self) -> bool {
        self.is_some == 1
    }

    /// The value, counted or not.
    pub closed spec fn inner(&self) -> T {
        self.value
    }

    /// Pairs `value` with the bit `is_some`.
    pub fn new(value: T, is_some: u8) -> (out: Self)
        requires
            is_some <= 1,
        ensures
            out.present() == (is_some == 1),
            out.inner() == value,
    {
        CtOption { value, is_some }
    }

    /// The bit itself, for handing on to another option without looking at it.
    pub fn mask(&self) -> (bit: u8)
        ensures
            bit <= 1,
            (bit == 1) == self.present(),
    {
        proof {
            use_type_invariant(self);
        }
        self.is_some
    }

    /// Whether the value counts.
    pub fn is_some(&self) -> (yes: bool)
        ensures
            yes == self.present(),
    {
        self.is_some == 1
    }

    /// Whether the value does not count.
    pub fn is_none(&self) -> (yes: bool)
        ensures
            yes == !self.present(),
    {
        self.is_some != 1
    }

    /// The value of an option that is present.
    pub fn unwrap(self) -> (value: T)
        requires
            self.present(),
        ensures
            value == self.inner(),
    {
        self.value
    }

    /// The value, counted or not, without taking it out.
    pub fn value_ref(&self) -> (value: &T)
        ensures
            *value == self.inner(),
    {
        &self.value
    }

    /// The value, counted or not.
    pub fn into_value(self) -> (value: T)
        ensures
            value == self.inner(),
    {
        self.value
    }

    /// The same outcome as an ordinary option.
    pub fn into_option(self) -> (out: Option<T>)
        ensures
            out == (if self.present() { Some(self.inner()) } else { None }),
    {
        if self.is_some == 1 {
            Some(self.value)
        } else {
            None
        }
    }
}

/// The domain tag under which hidden metadata is hashed into a token's tag.
pub open spec fn hidden_metadata_domain() -> Seq<u8> {
    "Domain of hidden metadata".spec_bytes()
}

/// What a token identifier holds.
pub enum IdentifierModel {
    Id(Seq<u8>),
    WithHidden(Seq<u8>, Seq<u8>),
}

impl IdentifierModel {
    /// The 16 bytes that stand for the identifier wherever it is hashed: the random bytes
    /// themselves, or, with hidden metadata `h` and random bytes `t`, the first 16 bytes of the
    /// SHA-512 digest of the domain tag, `h` and `t`.
    pub open spec fn tag(self) -> Seq<u8> {
        match self {
            IdentifierModel::Id(t) => t,
            IdentifierModel::WithHidden(t, h) => sha512_digest(
                hidden_metadata_domain() + h + t,
            ).subrange(0, 16),
        }
    }
}

/// The identifier of a token: 16 random bytes, alone or with metadata that the signer never
/// sees.
#[derive(Debug)]
pub enum TokenIdentifier {
    Id([u8; 16]),
    WithHidden([u8; 16], Vec<u8>),
}

impl View for TokenIdentifier {
    type V = IdentifierModel;

    open spec fn view(&self) -> IdentifierModel {
        match self {
            TokenIdentifier::Id(t) => IdentifierModel::Id(t@),
            TokenIdentifier::WithHidden(t, h) => IdentifierModel::WithHidden(t@, h@),
        }
    }
}

impl TokenIdentifier {
    /// A new identifier of 16 random bytes.
    pub fn new() -> (id: Self)
        ensures
            id is Id,
    {
        let mut t = [0u8; 16];
        fill_bytes(&mut t);
        TokenIdentifier::Id(t)
    }

    /// A new identifier of 16 random bytes that carries `hidden`.
    pub fn with_hidden(hidden: Vec<u8>) -> (id: Self)
        ensures
            id matches TokenIdentifier::WithHidden(_, h) && h == hidden,
    {
        let mut t = [0u8; 16];
        fill_bytes(&mut t);
        TokenIdentifier::WithHidden(t, hidden)
    }

    /// `N` new identifiers, each of its own random bytes.
    pub fn generate<const N: usize>() -> (ids: [Self; N])
        ensures
            forall|i: int| 0 <= i < N ==> (#[trigger] ids@[i]) is Id,
    {
        let mut ids: Vec<TokenIdentifier> = Vec::new();
        let mut i: usize = 0;
        while i < N
            invariant
                i <= N,
                ids@.len() == i,
                forall|j: int| 0 <= j < i ==> (#[trigger] ids@[j]) is Id,
            decreases N - i,
        {
            ids.push(TokenIdentifier::new());
            i += 1;
        }
        into_array(ids)
    }

    /// `N` new identifiers, each of its own random bytes and each carrying `hidden`.
    pub fn generate_with_hidden<const N: usize>(hidden: &Vec<u8>) -> (ids: [Self; N])
        ensures
            forall|i: int|
                0 <= i < N ==> (#[trigger] ids@[i]@ matches IdentifierModel::WithHidden(_, h)
                    && h == hidden@),
    {
        let mut ids: Vec<TokenIdentifier> = Vec::new();
        let mut i: usize = 0;
        while i < N
            invariant
                i <= N,
                ids@.len() == i,
                forall|j: int|
                    0 <= j < i ==> (#[trigger] ids@[j]@ matches IdentifierModel::WithHidden(_, h)
                        && h == hidden@),
            decreases N - i,
        {
            ids.push(TokenIdentifier::with_hidden(copy_bytes(hidden.as_slice())));
            i += 1;
        }
        into_array(ids)
    }

    /// The 16 bytes that stand for the identifier wherever it is hashed.
    pub fn tag(&self) -> (tag: [u8; 16])
        ensures
            tag@ == self@.tag(),
    {
        match self {
            TokenIdentifier::Id(t) => *t,
            TokenIdentifier::WithHidden(t, hidden) => {
                let mut input: Vec<u8> = Vec::new();
                append(&mut input, "Domain of hidden metadata".as_bytes());
                append(&mut input, hidden.as_slice());
                append(&mut input, t.as_slice());
                let digest = sha512(input.as_slice());
                let mut tag = [0u8; 16];
                let mut i: usize = 0;
                while i < 16
                    invariant
                        i <= 16,
                        forall|j: int| 0 <= j < i ==> tag@[j] == digest@[j],
                    decreases 16 - i,
                {
                    tag[i] = digest[i];
                    i += 1;
                }
                assert(tag@ =~= digest@.subrange(0, 16));
                tag
            },
        }
    }
}

impl Clone for TokenIdentifier {
    fn clone(&self) -> (out: Self)
        ensures
            out@ == self@,
    {
        match self {
            TokenIdentifier::Id(t) => TokenIdentifier::Id(*t),
            TokenIdentifier::WithHidden(t, hidden) => TokenIdentifier::WithHidden(
                *t,
                copy_bytes(hidden.as_slice()),
            ),
        }
    }
}

/// Two identifiers are the same when their tags are: one that carries hidden metadata cannot be
/// told from one that does not. Every byte of the tags is looked at.
impl PartialEq for TokenIdentifier {
    fn eq(&self, other: &Self) -> (same: bool) {
        let lhs = self.tag();
        let rhs = other.tag();
        same_bytes(lhs.as_slice(), rhs.as_slice())
    }
}

impl PartialEqSpecImpl for TokenIdentifier {
    open spec fn obeys_eq_spec() -> bool {
        true
    }

    open spec fn eq_spec(&self, other: &Self) -> bool {
        self@.tag() == other@.tag()
    }
}

/// A copy of `bytes`.
pub fn copy_bytes(bytes: &[u8]) -> (out: Vec<u8>)
    ensures
        out@ == bytes@,
{
    let mut out: Vec<u8> = Vec::new();
    append(&mut out, bytes);
    out
}

/// Why a wire input was not decoded. It is told apart from a signature that does not verify.
#[derive(Debug, Clone, Copy, PartialEq, Eq, Structural)]
pub enum DecodeError {
    /// A record holds a field that its type does not have.
    UnknownField,
    /// A record holds its field twice.
    DuplicateField,
    /// A record does not hold its field.
    MissingField,
    /// A byte string does not have the length of the group's encoding.
    WrongLength,
    /// A byte string of the right length is not an encoding that the group accepts.
    InvalidPoint,
}

/// One field of a record as it was read from the wire: its name and its bytes.
#[derive(Debug)]
pub struct Field {
    pub name: Vec<u8>,
    pub value: Vec<u8>,
}

impl View for Field {
    type V = (Seq<u8>, Seq<u8>);

    open spec fn view(&self) -> (Seq<u8>, Seq<u8>) {
        (self.name@, self.value@)
    }
}

impl Field {
    /// The field with a copy of this name and of these bytes.
    pub fn new(name: &[u8], value: &[u8]) -> (out: Field)
        ensures
            out@ == (name@, value@),
    {
        Field { name: copy_bytes(name), value: copy_bytes(value) }
    }
}

/// Where the one field `name` stands among the first `upto` fields of a record that holds
/// no other field and holds it once: the error of the first field that is another or a
/// second one, else the place of the field, if it was seen.
pub open spec fn scan_fields(fields: Seq<Field>, name: Seq<u8>, upto: int) -> Result<
    Option<int>,
    DecodeError,
>
    decreases upto,
{
    if upto <= 0 {
        Ok(None)
    } else {
        match scan_fields(fields, name, upto - 1) {
            Err(e) => Err(e),
            Ok(seen) => if fields[upto - 1]@.0 != name {
                Err(DecodeError::UnknownField)
            } else if seen is Some {
                Err(DecodeError::DuplicateField)
            } else {
                Ok(Some(upto - 1))
            },
        }
    }
}

/// The place of the one field `name` in a record, or why the record is not one of that field
/// alone.
pub open spec fn spec_single_field(fields: Seq<Field>, name: Seq<u8>) -> Result<int, DecodeError> {
    match scan_fields(fields, name, fields.len() as int) {
        Err(e) => Err(e),
        Ok(None) => Err(DecodeError::MissingField),
        Ok(Some(index)) => Ok(index),
    }
}

/// Finds the one field `name` of a record whose fields were read in the order given.
pub fn single_field(fields: &[Field], name: &[u8]) -> (out: Result<usize, DecodeError>)
    ensures
        match out {
            Ok(index) => spec_single_field(fields@, name@) == Ok::<int, DecodeError>(index as int)
                && index < fields@.len(),
            Err(e) => spec_single_field(fields@, name@) == Err::<int, DecodeError>(e),
        },
{
    let mut seen: Option<usize> = None;
    let mut i: usize = 0;
    while i < fields.len()
        invariant
            i <= fields@.len(),
            match seen {
                Some(index) => scan_fields(fields@, name@, i as int) == Ok::<
                    Option<int>,
                    DecodeError,
                >(Some(index as int)) && index < i,
                None => scan_fields(fields@, name@, i as int) == Ok::<Option<int>, DecodeError>(
                    None,
                ),
            },
        decreases fields@.len() - i,
    {
        if !same_bytes(fields[i].name.as_slice(), name) {
            proof {
                lemma_scan_error_stays(fields@, name@, i + 1, fields@.len() as int);
            }
            return Err(DecodeError::UnknownField);
        }
        if seen.is_some() {
            proof {
                lemma_scan_error_stays(fields@, name@, i + 1, fields@.len() as int);
            }
            return Err(DecodeError::DuplicateField);
        }
        seen = Some(i);
        i += 1;
    }
    match seen {
        Some(index) => Ok(index),
        None => Err(DecodeError::MissingField),
    }
}

/// In a record of one field with the name `name`, that field is the one field.
pub proof fn lemma_record_of_one_field(fields: Seq<Field>, name: Seq<u8>)
    requires
        fields.len() == 1,
        fields[0]@.0 == name,
    ensures
        spec_single_field(fields, name) == Ok::<int, DecodeError>(0),
{
    assert(scan_fields(fields, name, 0) == Ok::<Option<int>, DecodeError>(None));
    assert(scan_fields(fields, name, 1) == Ok::<Option<int>, DecodeError>(Some(0)));
}

/// An error that the scan has met is the error of every longer scan.
proof fn lemma_scan_error_stays(fields: Seq<Field>, name: Seq<u8>, at: int, upto: int)
    requires
        0 <= at <= upto,
        scan_fields(fields, name, at) is Err,
    ensures
        scan_fields(fields, name, upto) == scan_fields(fields, name, at),
    decreases upto - at,
{
    if at < upto {
        lemma_scan_error_stays(fields, name, at, upto - 1);
    }
}

/// A token that is not signed yet: an identifier and the public metadata.
///
/// It holds the identifier, so it stays with the client: only its randomized form is shown to
/// the signer.
pub trait UnsignedToken: Sized {
    /// The metadata connected to the token.
    type Metadata;

    /// Metadata connected to the token that is hidden from the signer.
    type HiddenMetadata;

    /// Whether the token carries `metadata` and identifiers of random bytes alone.
    spec fn made_from(&self, metadata: &Self::Metadata) -> bool;

    /// Whether the token carries `metadata` and identifiers that each hold `hidden`.
    spec fn made_with_hidden(
        &self,
        metadata: &Self::Metadata,
        hidden: &Self::HiddenMetadata,
    ) -> bool;

    /// A new unsigned token with fresh identifiers.
    fn new(metadata: Self::Metadata) -> (token: Self)
        ensures
            token.made_from(&metadata),
    ;

    /// A new unsigned token whose fresh identifiers hold hidden metadata.
    fn with_hidden(metadata: Self::Metadata, hidden: Self::HiddenMetadata) -> (token: Self)
        ensures
            token.made_with_hidden(&metadata, &hidden),
    ;
}

/// A signed token: identifier, metadata and signature.
pub trait SignedToken {
    type VerificationKey;

    /// Whether `accepted` is an answer that verification under `verification_key` can give.
    /// Where verification draws nothing at random there is one such answer.
    spec fn verifies_as(&self, verification_key: &Self::VerificationKey, accepted: bool) -> bool;

    fn verify(&self, verification_key: &Self::VerificationKey) -> (accepted: bool)
        ensures
            self.verifies_as(verification_key, accepted),
    ;
}

/// A randomized unsigned token: the blinded point of the token and the metadata. It can be
/// shown to the signer without giving the identifier away.
pub trait RandomizedUnsignedToken {
    spec fn spec_metadata(&self) -> Seq<u8>;

    fn metadata(&self) -> (metadata: Vec<u8>)
        ensures
            metadata@ == self.spec_metadata(),
    ;
}

/// The protocol that every construction implements.
///
/// A token is generated, randomized, signed in its randomized form, checked and unrandomized,
/// and at last verified: each step takes the type that the step before it gave.
pub trait TokenEngine {
    /// An unsigned token.
    type UnsignedToken: UnsignedToken;

    /// An anonymous unsigned token.
    type RandomizedUnsignedToken: RandomizedUnsignedToken;

    /// A signed token that is anonymous.
    type RandomizedSignedToken;

    /// A signed token.
    type SignedToken: SignedToken;

    /// The randomization data. With it the signer could tell which token it signed.
    type Randomization;

    /// The key with which the user checks what the signer returned.
    type UserVerification;

    /// The key with which the signer signs.
    type SignKey;

    /// Whether `randomized` is `unsigned_token` randomized with `randomization`.
    spec fn randomized_by(
        unsigned_token: &Self::UnsignedToken,
        randomization: &Self::Randomization,
        randomized: &Self::RandomizedUnsignedToken,
    ) -> bool;

    /// Whether `signed` is an outcome of signing `randomized_unsigned` with `sign_key`.
    spec fn signed_by(
        randomized_unsigned: &Self::RandomizedUnsignedToken,
        sign_key: &Self::SignKey,
        signed: &CtOption<Self::RandomizedSignedToken>,
    ) -> bool;

    /// Whether `out` is what checking `signed_token` against `verification_data` and taking
    /// `randomization` off it gives.
    spec fn unrandomized_to(
        unsigned_token: &Self::UnsignedToken,
        randomized_unsigned: &Self::RandomizedUnsignedToken,
        signed_token: &Self::RandomizedSignedToken,
        verification_data: &Self::UserVerification,
        randomization: &Self::Randomization,
        out: &Option<Self::SignedToken>,
    ) -> bool;

    /// Generates a new unsigned token.
    fn generate(metadata: <Self::UnsignedToken as UnsignedToken>::Metadata) -> (token:
        Self::UnsignedToken)
        ensures
            token.made_from(&metadata),
    {
        <Self::UnsignedToken as UnsignedToken>::new(metadata)
    }

    /// Generates a new unsigned token with hidden metadata.
    fn generate_with_hidden(
        metadata: <Self::UnsignedToken as UnsignedToken>::Metadata,
        hidden: <Self::UnsignedToken as UnsignedToken>::HiddenMetadata,
    ) -> (token: Self::UnsignedToken)
        ensures
            token.made_with_hidden(&metadata, &hidden),
    {
        <Self::UnsignedToken as UnsignedToken>::with_hidden(metadata, hidden)
    }

    /// Randomizes an unsigned token. `None` where no usable randomization was drawn.
    fn randomize(unsigned_token: &Self::UnsignedToken) -> (out: Option<
        (Self::Randomization, Self::RandomizedUnsignedToken),
    >)
        ensures
            out matches Some(pair) ==> Self::randomized_by(unsigned_token, &pair.0, &pair.1),
    ;

    /// Signs a randomized unsigned token.
    fn sign_randomized(
        randomized_unsigned: &Self::RandomizedUnsignedToken,
        sign_key: &Self::SignKey,
    ) -> (signed: CtOption<Self::RandomizedSignedToken>)
        ensures
            Self::signed_by(randomized_unsigned, sign_key, &signed),
    ;

    /// Checks that the signature is valid, and takes the randomization off it.
    fn verify_signature_and_unrandomize(
        unsigned_token: Self::UnsignedToken,
        randomized_unsigned: Self::RandomizedUnsignedToken,
        signed_token: Self::RandomizedSignedToken,
        verification_data: &Self::UserVerification,
        randomization: Self::Randomization,
    ) -> (out: Option<Self::SignedToken>)
        ensures
            Self::unrandomized_to(
                &unsigned_token,
                &randomized_unsigned,
                &signed_token,
                verification_data,
                &randomization,
                &out,
            ),
    ;

    /// Signs a token: randomizes it, hands the randomized token to `sign_func`, and checks
    /// and unrandomizes what comes back.
    ///
    /// What comes out goes by an outcome of `randomize` on `unsigned_token`. Where that is
    /// nothing, nothing comes out. Where it is a randomization, what comes out goes by an
    /// answer of `sign_func` to the randomized token: nothing where the answer is not present,
    /// else what checking and unrandomizing the answer gives.
    fn sign<F>(
        unsigned_token: Self::UnsignedToken,
        verification_data: &Self::UserVerification,
        sign_func: F,
    ) -> (out: Option<Self::SignedToken>) where
        F: Fn(&Self::RandomizedUnsignedToken) -> CtOption<Self::RandomizedSignedToken>,

        requires
            forall|randomized: &Self::RandomizedUnsignedToken| sign_func.requires((randomized,)),
        ensures
            exists|drawn: Option<(Self::Randomization, Self::RandomizedUnsignedToken)>|
                #[trigger] call_ensures(Self::randomize, (&unsigned_token,), drawn) && match drawn {
                    None => out is None,
                    Some(pair) => Self::randomized_by(&unsigned_token, &pair.0, &pair.1)
                        && exists|signed: CtOption<Self::RandomizedSignedToken>|
                        #[trigger] sign_func.ensures((&pair.1,), signed) && if signed.present() {
                            Self::unrandomized_to(
                                &unsigned_token,
                                &pair.1,
                                &signed.inner(),
                                verification_data,
                                &pair.0,
                                &out,
                            )
                        } else {
                            out is None
                        },
                },
    {
        let drawn = Self::randomize(&unsigned_token);
        match drawn {
            None => {
                assert(call_ensures(Self::randomize, (&unsigned_token,), None));
                None
            },
            Some((r, randomized_unsigned)) => {
                let ghost pair = (r, randomized_unsigned);
                assert(call_ensures(Self::randomize, (&unsigned_token,), Some(pair)));
                let randomized_signed = sign_func(&randomized_unsigned);
                assert(sign_func.ensures((&pair.1,), randomized_signed));
                match randomized_signed.into_option() {
                    None => None,
                    Some(signed) => Self::verify_signature_and_unrandomize(
                        unsigned_token,
                        randomized_unsigned,
                        signed,
                        verification_data,
                        r,
                    ),
                }
            },
        }
    }

    /// Verifies a token.
    fn verify(
        token: &Self::SignedToken,
        verification_key: &<Self::SignedToken as SignedToken>::VerificationKey,
    ) -> (accepted: bool)
        ensures
            token.verifies_as(verification_key, accepted),
    {
        token.verify(verification_key)
    }
}

} // verus!
