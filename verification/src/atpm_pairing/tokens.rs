//! One token at a time over the pairing groups.

use vstd::prelude::*;
use vstd::std_specs::cmp::PartialEqSpecImpl;
use crate::bytes::same_bytes;
use crate::common::{
    copy_bytes, CtOption, IdentifierModel, RandomizedUnsignedToken as RandomizedUnsigned,
    SignedToken, TokenEngine, TokenIdentifier, UnsignedToken,
};
use crate::modular::inverse_mod;
use super::backend::{
    g1_identity_encoding, g1_product, g2_add, g2_generator, g2_generator_encoding, g2_mul,
    g2_product, g2_sum, group_order, pairing_check, pairings_agree,
};
use super::keys::{PrivateKey, PublicKey};
use super::scalar::Scalar;
use super::util::{h_1, h_m, random_vartime, spec_h_1, spec_h_m, CurvePoint, SAMPLING_ROUNDS};

verus! {

/// The encoding of the point of G2 that a signature on metadata with hash `d` is checked
/// against: the generator times `d`, plus the public key.
pub open spec fn verification_point(d: nat, public_key: Seq<u8>) -> Seq<u8> {
    g2_sum(g2_product(g2_generator_encoding(), d), public_key)
}

/// Whether `signature` is a signature under `public_key` on the token with the tag `tag` and
/// the metadata `metadata`: the pairing of the signature with the verification point is the
/// pairing of the token's point with the generator of G2. Metadata that hash to no scalar
/// carry no signature.
pub open spec fn signature_verifies(
    tag: Seq<u8>,
    metadata: Seq<u8>,
    signature: Seq<u8>,
    public_key: Seq<u8>,
) -> bool {
    match spec_h_m(metadata) {
        None => false,
        Some(d) => pairings_agree(
            signature,
            verification_point(d, public_key),
            spec_h_1(tag, metadata),
            g2_generator_encoding(),
        ),
    }
}

/// Checks the pairing equation of `signature_verifies`.
pub(crate) fn check_signature(
    tag: &[u8; 16],
    metadata: &[u8],
    signature: &CurvePoint,
    public_key: &PublicKey,
) -> (accepted: bool)
    ensures
        accepted == signature_verifies(tag@, metadata@, signature@, public_key@),
{
    match h_m(metadata) {
        None => false,
        Some(d) => {
            let t_point = h_1(tag.as_slice(), metadata).to_compressed();
            let generator = g2_generator();
            let pk = public_key.to_compressed();
            let u = g2_add(&g2_mul(&generator, &d.to_bytes()), &pk);
            pairing_check(&signature.to_compressed(), &u, &t_point, &generator)
        },
    }
}

/// What a signed token holds.
pub struct SignedModel {
    pub id: IdentifierModel,
    pub metadata: Seq<u8>,
    pub signature: Seq<u8>,
}

/// A signed token of the pairing construction.
#[derive(Debug)]
pub struct PairingSignedToken {
    id: TokenIdentifier,
    metadata: Vec<u8>,
    signature: CurvePoint,
}

impl View for PairingSignedToken {
    type V = SignedModel;

    closed spec fn view(&self) -> SignedModel {
        SignedModel { id: self.id@, metadata: self.metadata@, signature: self.signature@ }
    }
}

/// Two signed tokens are the same when their identifiers have the same tag, their signatures
/// are the same point and their metadata are the same bytes. All three are compared, whatever
/// the first comparison gives.
impl PartialEq for PairingSignedToken {
    fn eq(&self, other: &Self) -> (same: bool) {
        let same_id = self.id == other.id;
        let same_signature = self.signature == other.signature;
        let same_metadata = same_bytes(self.metadata.as_slice(), other.metadata.as_slice());
        same_signature && same_id && same_metadata
    }
}

impl PartialEqSpecImpl for PairingSignedToken {
    open spec fn obeys_eq_spec() -> bool {
        true
    }

    open spec fn eq_spec(&self, other: &Self) -> bool {
        &&& self@.id.tag() == other@.id.tag()
        &&& self@.signature == other@.signature
        &&& self@.metadata == other@.metadata
    }
}

impl SignedToken for PairingSignedToken {
    type VerificationKey = PublicKey;

    open spec fn verifies_as(&self, verification_key: &PublicKey, accepted: bool) -> bool {
        accepted == signature_verifies(
            self@.id.tag(),
            self@.metadata,
            self@.signature,
            verification_key@,
        )
    }

    fn verify(&self, verification_key: &PublicKey) -> (accepted: bool) {
        let t = self.id.tag();
        check_signature(&t, self.metadata.as_slice(), &self.signature, verification_key)
    }
}

impl PairingSignedToken {
    /// The signed token of these three parts.
    pub fn create(id: TokenIdentifier, signature: CurvePoint, metadata: Vec<u8>) -> (out: Self)
        ensures
            out@ == (SignedModel { id: id@, metadata: metadata@, signature: signature@ }),
    {
        PairingSignedToken { id, signature, metadata }
    }

    /// The three parts of the signed token.
    pub fn unpack(self) -> (out: (TokenIdentifier, CurvePoint, Vec<u8>))
        ensures
            self@ == (SignedModel { id: out.0@, metadata: out.2@, signature: out.1@ }),
    {
        (self.id, self.signature, self.metadata)
    }
}

impl Clone for PairingSignedToken {
    fn clone(&self) -> (out: Self)
        ensures
            out@ == self@,
    {
        PairingSignedToken {
            id: self.id.clone(),
            metadata: copy_bytes(self.metadata.as_slice()),
            signature: self.signature.clone(),
        }
    }
}

/// What an unsigned token holds.
pub struct UnsignedModel {
    pub id: IdentifierModel,
    pub metadata: Seq<u8>,
}

impl UnsignedModel {
    /// The encoding of the point of G1 that stands for the token.
    pub open spec fn point(self) -> Seq<u8> {
        spec_h_1(self.id.tag(), self.metadata)
    }
}

/// An unsigned token of the pairing construction.
#[derive(Debug)]
pub struct PairingUnsignedToken {
    id: TokenIdentifier,
    metadata: Vec<u8>,
}

impl View for PairingUnsignedToken {
    type V = UnsignedModel;

    closed spec fn view(&self) -> UnsignedModel {
        UnsignedModel { id: self.id@, metadata: self.metadata@ }
    }
}

impl UnsignedToken for PairingUnsignedToken {
    type HiddenMetadata = Vec<u8>;

    type Metadata = Vec<u8>;

    open spec fn made_from(&self, metadata: &Vec<u8>) -> bool {
        self@.metadata == metadata@ && self@.id is Id
    }

    open spec fn made_with_hidden(&self, metadata: &Vec<u8>, hidden: &Vec<u8>) -> bool {
        self@.metadata == metadata@ && (self@.id matches IdentifierModel::WithHidden(_, h) && h
            == hidden@)
    }

    fn new(metadata: Vec<u8>) -> (token: Self) {
        PairingUnsignedToken { id: TokenIdentifier::new(), metadata }
    }

    fn with_hidden(metadata: Vec<u8>, hidden: Vec<u8>) -> (token: Self) {
        PairingUnsignedToken { id: TokenIdentifier::with_hidden(hidden), metadata }
    }
}

impl PairingUnsignedToken {
    /// The unsigned token of this identifier and these metadata.
    pub fn from_parts(id: TokenIdentifier, metadata: Vec<u8>) -> (out: Self)
        ensures
            out@ == (UnsignedModel { id: id@, metadata: metadata@ }),
    {
        PairingUnsignedToken { id, metadata }
    }

    /// The identifier and the metadata of the token.
    pub fn into_parts(self) -> (out: (TokenIdentifier, Vec<u8>))
        ensures
            self@ == (UnsignedModel { id: out.0@, metadata: out.1@ }),
    {
        (self.id, self.metadata)
    }

    /// The identifier of the token.
    pub fn identifier(&self) -> (id: TokenIdentifier)
        ensures
            id@ == self@.id,
    {
        self.id.clone()
    }

    /// The point of G1 that stands for the token: what its tag and metadata hash to.
    pub fn point(&self) -> (point: CurvePoint)
        ensures
            point@ == self@.point(),
    {
        let t = self.id.tag();
        h_1(t.as_slice(), self.metadata.as_slice())
    }

    /// The token with `signature` for its signature. Nothing is checked.
    pub fn get_signed(self, signature: CurvePoint) -> (out: PairingSignedToken)
        ensures
            out@ == (SignedModel {
                id: self@.id,
                metadata: self@.metadata,
                signature: signature@,
            }),
    {
        PairingSignedToken { id: self.id, signature, metadata: self.metadata }
    }

    /// The token randomized with `r`: its point times the inverse of `r`, with the metadata.
    /// Nothing where `r` is zero.
    pub fn randomize_with(&self, r: &Scalar) -> (out: Option<RandomizedUnsignedToken>)
        ensures
            out is Some == (r@ != 0),
            out matches Some(randomized) ==> randomized@ == self@.randomized(r@),
    {
        let result = r.invert();
        match result.into_option() {
            None => None,
            Some(rinv) => Some(
                RandomizedUnsignedToken {
                    point: self.point().mul(&rinv),
                    metadata: copy_bytes(self.metadata.as_slice()),
                },
            ),
        }
    }
}

impl UnsignedModel {
    /// What the token randomized with a scalar `r` that is not zero holds.
    pub open spec fn randomized(self, r: nat) -> RandomizedModel {
        RandomizedModel {
            point: g1_product(self.point(), inverse_mod(r, group_order())),
            metadata: self.metadata,
        }
    }
}

/// What a randomized token holds, unsigned or signed: a point and the metadata.
pub struct RandomizedModel {
    pub point: Seq<u8>,
    pub metadata: Seq<u8>,
}

/// A randomized unsigned token of the pairing construction.
#[derive(Debug)]
pub struct RandomizedUnsignedToken {
    point: CurvePoint,
    metadata: Vec<u8>,
}

impl View for RandomizedUnsignedToken {
    type V = RandomizedModel;

    closed spec fn view(&self) -> RandomizedModel {
        RandomizedModel { point: self.point@, metadata: self.metadata@ }
    }
}

impl RandomizedUnsigned for RandomizedUnsignedToken {
    open spec fn spec_metadata(&self) -> Seq<u8> {
        self@.metadata
    }

    fn metadata(&self) -> (metadata: Vec<u8>) {
        copy_bytes(self.metadata.as_slice())
    }
}

impl RandomizedUnsignedToken {
    /// The randomized unsigned token of this point and these metadata.
    pub fn new(point: CurvePoint, metadata: Vec<u8>) -> (out: Self)
        ensures
            out@ == (RandomizedModel { point: point@, metadata: metadata@ }),
    {
        RandomizedUnsignedToken { point, metadata }
    }

    /// The blinded point.
    pub fn point(&self) -> (point: CurvePoint)
        ensures
            point@ == self@.point,
    {
        self.point.clone()
    }
}

impl Clone for RandomizedUnsignedToken {
    fn clone(&self) -> (out: Self)
        ensures
            out@ == self@,
    {
        RandomizedUnsignedToken {
            point: self.point.clone(),
            metadata: copy_bytes(self.metadata.as_slice()),
        }
    }
}

/// A randomized signed token of the pairing construction.
#[derive(Debug)]
pub struct RandomizedSignedToken {
    point: CurvePoint,
    metadata: Vec<u8>,
}

impl View for RandomizedSignedToken {
    type V = RandomizedModel;

    closed spec fn view(&self) -> RandomizedModel {
        RandomizedModel { point: self.point@, metadata: self.metadata@ }
    }
}

impl Default for RandomizedSignedToken {
    /// The point at infinity with no metadata.
    fn default() -> (out: Self)
        ensures
            out@ == (RandomizedModel { point: g1_identity_encoding(), metadata: Seq::empty() }),
    {
        RandomizedSignedToken { point: CurvePoint::identity(), metadata: Vec::new() }
    }
}

impl RandomizedSignedToken {
    /// The randomized signed token of this point and these metadata.
    pub fn new(point: CurvePoint, metadata: Vec<u8>) -> (out: Self)
        ensures
            out@ == (RandomizedModel { point: point@, metadata: metadata@ }),
    {
        RandomizedSignedToken { point, metadata }
    }

    /// The blinded signature.
    pub fn point(&self) -> (point: CurvePoint)
        ensures
            point@ == self@.point,
    {
        self.point.clone()
    }

    /// The metadata that were signed.
    pub fn metadata(&self) -> (metadata: Vec<u8>)
        ensures
            metadata@ == self@.metadata,
    {
        copy_bytes(self.metadata.as_slice())
    }
}

/// What signing the randomized token `randomized` with the private key `sk` gives, where
/// there is a signature: the point times the inverse of the sum of the metadata's hash and
/// the key, with the metadata. There is none where the metadata hash to no scalar or the
/// sum is zero.
pub open spec fn spec_sign_randomized(randomized: RandomizedModel, sk: nat) -> Option<
    RandomizedModel,
> {
    match spec_h_m(randomized.metadata) {
        None => None,
        Some(d) => {
            let sum = (d + sk) % group_order();
            if sum == 0 {
                None
            } else {
                Some(
                    RandomizedModel {
                        point: g1_product(randomized.point, inverse_mod(sum, group_order())),
                        metadata: randomized.metadata,
                    },
                )
            }
        },
    }
}

/// What checking and unrandomizing gives: the unsigned token with the signature point times
/// `r` for its signature, where that signature verifies under `public_key`; else nothing.
pub open spec fn spec_unrandomize(
    unsigned: UnsignedModel,
    signed: RandomizedModel,
    public_key: Seq<u8>,
    r: nat,
) -> Option<SignedModel> {
    let signature = g1_product(signed.point, r);
    if signature_verifies(unsigned.id.tag(), unsigned.metadata, signature, public_key) {
        Some(SignedModel { id: unsigned.id, metadata: unsigned.metadata, signature })
    } else {
        None
    }
}

/// The engine of the pairing construction.
pub struct PairingTokenEngine {}

impl TokenEngine for PairingTokenEngine {
    type UnsignedToken = PairingUnsignedToken;

    type RandomizedUnsignedToken = RandomizedUnsignedToken;

    type RandomizedSignedToken = RandomizedSignedToken;

    type SignedToken = PairingSignedToken;

    type Randomization = Scalar;

    type UserVerification = PublicKey;

    type SignKey = PrivateKey;

    open spec fn randomized_by(
        unsigned_token: &PairingUnsignedToken,
        randomization: &Scalar,
        randomized: &RandomizedUnsignedToken,
    ) -> bool {
        randomization@ != 0 && randomized@ == unsigned_token@.randomized(randomization@)
    }

    open spec fn signed_by(
        randomized_unsigned: &RandomizedUnsignedToken,
        sign_key: &PrivateKey,
        signed: &CtOption<RandomizedSignedToken>,
    ) -> bool {
        match spec_sign_randomized(randomized_unsigned@, sign_key@) {
            None => !signed.present(),
            Some(model) => signed.present() && signed.inner()@ == model,
        }
    }

    open spec fn unrandomized_to(
        unsigned_token: &PairingUnsignedToken,
        randomized_unsigned: &RandomizedUnsignedToken,
        signed_token: &RandomizedSignedToken,
        verification_data: &PublicKey,
        randomization: &Scalar,
        out: &Option<PairingSignedToken>,
    ) -> bool {
        match spec_unrandomize(
            unsigned_token@,
            signed_token@,
            verification_data@,
            randomization@,
        ) {
            None => out is None,
            Some(model) => out matches Some(token) && token@ == model,
        }
    }

    /// Draws scalars until one is invertible, which the first one is but for the zero, and
    /// randomizes with it.
    ///
    /// What comes out goes by what `random_vartime` drew last: nothing where it drew no
    /// scalar or drew zero, else that scalar and the token randomized with it.
    fn randomize(unsigned_token: &PairingUnsignedToken) -> (out: Option<
        (Scalar, RandomizedUnsignedToken),
    >)
        ensures
            exists|drawn: Option<Scalar>|
                #[trigger] call_ensures(random_vartime, (), drawn) && match drawn {
                    None => out is None,
                    Some(r) => if r@ == 0 {
                        out is None
                    } else {
                        out matches Some(pair) && pair.0@ == r@ && pair.1@
                            == unsigned_token@.randomized(r@)
                    },
                },
    {
        let mut round: usize = 0;
        let ghost mut last: Option<Scalar> = None;
        while round < SAMPLING_ROUNDS
            invariant
                round <= SAMPLING_ROUNDS,
                round > 0 ==> call_ensures(random_vartime, (), last) && (last matches Some(r)
                    && r@ == 0),
            decreases SAMPLING_ROUNDS - round,
        {
            let drawn = random_vartime();
            assert(call_ensures(random_vartime, (), drawn));
            match drawn {
                None => {
                    return None;
                },
                Some(r) => {
                    match unsigned_token.randomize_with(&r) {
                        Some(randomized) => {
                            return Some((r, randomized));
                        },
                        None => {
                            proof {
                                last = drawn;
                            }
                        },
                    }
                },
            }
            round += 1;
        }
        None
    }

    /// The inverse is taken and the point multiplied whatever the key: whether there is a
    /// signature shows in the presence bit alone.
    fn sign_randomized(t_prime: &RandomizedUnsignedToken, sign_key: &PrivateKey) -> (signed:
        CtOption<RandomizedSignedToken>) {
        match h_m(t_prime.metadata.as_slice()) {
            None => CtOption::new(RandomizedSignedToken::default(), 0),
            Some(d) => {
                let k = sign_key.to_scalar();
                let inverse = d.add(&k).invert();
                let present: u8 = inverse.mask();
                let point = t_prime.point.mul(inverse.value_ref());
                CtOption::new(
                    RandomizedSignedToken {
                        point,
                        metadata: copy_bytes(t_prime.metadata.as_slice()),
                    },
                    present,
                )
            },
        }
    }

    fn verify_signature_and_unrandomize(
        unsigned_token: PairingUnsignedToken,
        _randomized_unsigned_token: RandomizedUnsignedToken,
        signed_token: RandomizedSignedToken,
        verification_data: &PublicKey,
        randomization: Scalar,
    ) -> (out: Option<PairingSignedToken>) {
        // remove randomization
        let w = signed_token.point.mul(&randomization);
        let t = unsigned_token.id.tag();
        if check_signature(&t, unsigned_token.metadata.as_slice(), &w, verification_data) {
            Some(
                PairingSignedToken {
                    signature: w,
                    id: unsigned_token.id,
                    metadata: unsigned_token.metadata,
                },
            )
        } else {
            None
        }
    }
}

} // verus!
