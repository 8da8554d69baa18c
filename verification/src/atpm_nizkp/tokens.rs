//! One token at a time over secp256k1, with a proof of equal discrete logarithms.

use vstd::prelude::*;
use vstd::string::StringSliceAdditionalSpecFns;
use crate::bytes::append;
use crate::common::{
    copy_bytes, CtOption, IdentifierModel, RandomizedUnsignedToken as RandomizedUnsigned,
    SignedToken, TokenEngine, TokenIdentifier, UnsignedToken,
};
use crate::hashing::{sha256, sha256_digest};
use crate::modular::inverse_mod;
use super::backend::{generator_encoding, group_order, point_product, point_sum};
use super::keys::{PrivateKey, PublicKey};
use super::scalar::Scalar;
use super::util::{
    gen_vartime, h_t, hash_to_scalar, spec_h_t, spec_hash_to_scalar, AffinePoint, SAMPLING_ROUNDS,
};

verus! {

/// The domain tag of the transcript hash of a proof.
pub open spec fn dleq_domain() -> Seq<u8> {
    "This is DLEQ_PROOF hash".spec_bytes()
}

/// The challenge of a transcript: what the SHA-256 digest of the domain tag, the generator
/// and the five points, each in its encoding, hashes to as a scalar.
pub open spec fn spec_hash_data(u: Seq<u8>, t: Seq<u8>, w: Seq<u8>, a: Seq<u8>, b: Seq<u8>) -> Option<
    nat,
> {
    spec_hash_to_scalar(sha256_digest(dleq_domain() + generator_encoding() + u + t + w + a + b))
}

/// What a proof holds: the challenge and the response.
pub struct ProofModel {
    pub c: nat,
    pub z: nat,
}

/// The proof that `create` makes for the points `t` and `w` and the exponent `k` with the
/// nonce `r`: the commitments are the generator and `w`, each times `r`; the challenge is
/// that of the transcript with the generator times `k`; the response is `r` less `k` times
/// the challenge. There is none where the transcript hashes to no scalar.
pub open spec fn spec_create(t: Seq<u8>, w: Seq<u8>, k: nat, r: nat) -> Option<ProofModel> {
    let a = point_product(generator_encoding(), r);
    let b = point_product(w, r);
    match spec_hash_data(point_product(generator_encoding(), k), t, w, a, b) {
        None => None,
        Some(c) => {
            let z = (r - (k * c) % group_order()) % (group_order() as int);
            Some(ProofModel { c, z: z as nat })
        },
    }
}

/// Whether a proof verifies for the points `t` and `w` and the public point `public_key`:
/// the commitments are computed again from the response and the challenge, and the challenge
/// of the transcript with them is the challenge of the proof.
pub open spec fn spec_verify(
    proof: ProofModel,
    t: Seq<u8>,
    w: Seq<u8>,
    public_key: Seq<u8>,
) -> bool {
    let a = point_sum(
        point_product(generator_encoding(), proof.z),
        point_product(public_key, proof.c),
    );
    let b = point_sum(point_product(w, proof.z), point_product(t, proof.c));
    spec_hash_data(public_key, t, w, a, b) == Some(proof.c)
}

/// A proof that two points have the same discrete logarithm to two bases: that `t` is `w`
/// times the exponent that the public point is the generator times.
#[derive(Clone, Copy, Debug)]
pub struct DLEQProof {
    c: Scalar,
    z: Scalar,
}

impl View for DLEQProof {
    type V = ProofModel;

    closed spec fn view(&self) -> ProofModel {
        ProofModel { c: self.c@, z: self.z@ }
    }
}

impl DLEQProof {
    /// The proof of these two scalars.
    pub fn from_scalars(c: Scalar, z: Scalar) -> (out: DLEQProof)
        ensures
            out@ == (ProofModel { c: c@, z: z@ }),
    {
        DLEQProof { c, z }
    }

    /// The challenge.
    pub fn challenge(&self) -> (c: Scalar)
        ensures
            c@ == self@.c,
    {
        self.c
    }

    /// The response.
    pub fn response(&self) -> (z: Scalar)
        ensures
            z@ == self@.z,
    {
        self.z
    }

    /// Hashes a transcript to its challenge.
    pub fn hash_data(
        u: &AffinePoint,
        t: &AffinePoint,
        w: &AffinePoint,
        a: &AffinePoint,
        b: &AffinePoint,
    ) -> (c: Option<Scalar>)
        ensures
            match c {
                Some(c) => spec_hash_data(u@, t@, w@, a@, b@) == Some(c@),
                None => spec_hash_data(u@, t@, w@, a@, b@) is None,
            },
    {
        let mut input: Vec<u8> = Vec::new();
        append(&mut input, "This is DLEQ_PROOF hash".as_bytes());
        append(&mut input, AffinePoint::generator().to_bytes().as_slice());
        append(&mut input, u.to_bytes().as_slice());
        append(&mut input, t.to_bytes().as_slice());
        append(&mut input, w.to_bytes().as_slice());
        append(&mut input, a.to_bytes().as_slice());
        append(&mut input, b.to_bytes().as_slice());
        let digest = sha256(input.as_slice());
        // Turn the bytes uniformly and deterministically into a scalar
        hash_to_scalar(digest.as_slice())
    }

    /// Creates a proof that `t` is `w` times `k`, with a nonce drawn from the generator of the
    /// calling thread: the proof that `create_with_nonce` makes with what `gen_vartime` drew.
    /// `None` where it drew no nonce or the transcript hashes to no scalar.
    ///
    /// For `w` made as `t` times the inverse of `d + k`, the exponent is `d + k`.
    pub fn create(t: AffinePoint, w: AffinePoint, k: Scalar) -> (out: Option<DLEQProof>)
        ensures
            out matches Some(made) ==> exists|r: nat|
                r < group_order() && #[trigger] spec_create(t@, w@, k@, r) == Some(made@),
            exists|drawn: Option<Scalar>|
                #[trigger] call_ensures(gen_vartime, (), drawn) && match drawn {
                    None => out is None,
                    Some(r) => match spec_create(t@, w@, k@, r@) {
                        None => out is None,
                        Some(model) => out matches Some(made) && made@ == model,
                    },
                },
    {
        let drawn = gen_vartime();
        assert(call_ensures(gen_vartime, (), drawn));
        match drawn {
            None => None,
            Some(r) => {
                let out = DLEQProof::create_with_nonce(t, w, k, r);
                proof {
                    if let Some(made) = out {
                        assert(spec_create(t@, w@, k@, r@) == Some(made@));
                    }
                }
                out
            },
        }
    }

    /// Creates a proof that `t` is `w` times `k` with the nonce `r`. `None` where the
    /// transcript hashes to no scalar.
    pub fn create_with_nonce(t: AffinePoint, w: AffinePoint, k: Scalar, r: Scalar) -> (out: Option<
        DLEQProof,
    >)
        ensures
            match out {
                Some(made) => spec_create(t@, w@, k@, r@) == Some(made@),
                None => spec_create(t@, w@, k@, r@) is None,
            },
    {
        let a = AffinePoint::mul_base(&r);
        let b = w.mul(&r);
        match DLEQProof::hash_data(&AffinePoint::mul_base(&k), &t, &w, &a, &b) {
            None => None,
            Some(c) => {
                let z = r.sub(&k.mul(&c));
                Some(DLEQProof { c, z })
            },
        }
    }

    /// Verifies the proof that `t` is `w` times the exponent of `public_key`.
    ///
    /// For `w` made as `t` times the inverse of `d + k`, the public point is the generator
    /// times `d + k`.
    pub fn verify(&self, t: AffinePoint, w: AffinePoint, public_key: AffinePoint) -> (accepted:
        bool)
        ensures
            accepted == spec_verify(self@, t@, w@, public_key@),
    {
        let a = AffinePoint::mul_base(&self.z).add(&public_key.mul(&self.c));
        let b = w.mul(&self.z).add(&t.mul(&self.c));
        match DLEQProof::hash_data(&public_key, &t, &w, &a, &b) {
            None => false,
            Some(c) => c.equals(&self.c),
        }
    }
}

/// What an unsigned token holds.
pub struct UnsignedModel {
    pub id: IdentifierModel,
    pub metadata: Seq<u8>,
}

impl UnsignedModel {
    /// The encoding of the point that stands for the token.
    pub open spec fn point(self) -> Seq<u8> {
        spec_h_t(self.id.tag(), self.metadata)
    }

    /// What the token randomized with a scalar `r` that is not zero holds.
    pub open spec fn randomized(self, r: nat) -> RandomizedModel {
        RandomizedModel {
            point: point_product(self.point(), inverse_mod(r, group_order())),
            metadata: self.metadata,
        }
    }
}

/// An unsigned token of the construction over secp256k1.
#[derive(Debug)]
pub struct NizkpUnsignedToken {
    id: TokenIdentifier,
    metadata: Vec<u8>,
}

impl View for NizkpUnsignedToken {
    type V = UnsignedModel;

    closed spec fn view(&self) -> UnsignedModel {
        UnsignedModel { id: self.id@, metadata: self.metadata@ }
    }
}

impl NizkpUnsignedToken {
    /// The unsigned token of this identifier and these metadata.
    pub fn from_parts(id: TokenIdentifier, metadata: Vec<u8>) -> (out: Self)
        ensures
            out@ == (UnsignedModel { id: id@, metadata: metadata@ }),
    {
        NizkpUnsignedToken { id, metadata }
    }

    /// The point that stands for the token: what its tag and metadata hash to.
    pub fn get_point(&self) -> (point: AffinePoint)
        ensures
            point@ == self@.point(),
    {
        let t = self.id.tag();
        h_t(t.as_slice(), self.metadata.as_slice())
    }

    /// The token randomized with `r`: its point times the inverse of `r`, with the metadata.
    /// Nothing where `r` is zero.
    pub fn randomize_with(&self, r: &Scalar) -> (out: Option<RandomizedUnsignedToken>)
        ensures
            out is Some == (r@ != 0),
            out matches Some(randomized) ==> randomized@ == self@.randomized(r@),
    {
        match r.invert().into_option() {
            None => None,
            Some(inverse) => Some(
                RandomizedUnsignedToken {
                    point: self.get_point().mul(&inverse),
                    metadata: copy_bytes(self.metadata.as_slice()),
                },
            ),
        }
    }
}

impl UnsignedToken for NizkpUnsignedToken {
    type Metadata = Vec<u8>;

    type HiddenMetadata = Vec<u8>;

    open spec fn made_from(&self, metadata: &Vec<u8>) -> bool {
        self@.metadata == metadata@ && self@.id is Id
    }

    open spec fn made_with_hidden(&self, metadata: &Vec<u8>, hidden: &Vec<u8>) -> bool {
        self@.metadata == metadata@ && (self@.id matches IdentifierModel::WithHidden(_, h) && h
            == hidden@)
    }

    fn new(metadata: Vec<u8>) -> (token: Self) {
        NizkpUnsignedToken { id: TokenIdentifier::new(), metadata }
    }

    fn with_hidden(metadata: Vec<u8>, hidden: Vec<u8>) -> (token: Self) {
        NizkpUnsignedToken { id: TokenIdentifier::with_hidden(hidden), metadata }
    }
}

/// What a randomized signed token holds: the blinded signature and the proof.
pub struct RandomizedSignedModel {
    pub point: Seq<u8>,
    pub proof: ProofModel,
}

/// A randomized signed token of the construction over secp256k1.
#[derive(Debug)]
pub struct RandomizedSignedToken {
    point: AffinePoint,
    proof: DLEQProof,
}

impl View for RandomizedSignedToken {
    type V = RandomizedSignedModel;

    closed spec fn view(&self) -> RandomizedSignedModel {
        RandomizedSignedModel { point: self.point@, proof: self.proof@ }
    }
}

impl RandomizedSignedToken {
    /// The randomized signed token of this point and this proof.
    pub fn new(point: AffinePoint, dleq: DLEQProof) -> (out: Self)
        ensures
            out@ == (RandomizedSignedModel { point: point@, proof: dleq@ }),
    {
        RandomizedSignedToken { point, proof: dleq }
    }

    /// The blinded signature.
    pub fn point(&self) -> (point: AffinePoint)
        ensures
            point@ == self@.point,
    {
        self.point
    }

    /// The proof.
    pub fn dleq_proof(&self) -> (out: DLEQProof)
        ensures
            out@ == self@.proof,
    {
        self.proof
    }
}

/// What a randomized unsigned token holds: the blinded point and the metadata.
pub struct RandomizedModel {
    pub point: Seq<u8>,
    pub metadata: Seq<u8>,
}

/// A randomized unsigned token of the construction over secp256k1.
#[derive(Debug)]
pub struct RandomizedUnsignedToken {
    point: AffinePoint,
    metadata: Vec<u8>,
}

impl View for RandomizedUnsignedToken {
    type V = RandomizedModel;

    closed spec fn view(&self) -> RandomizedModel {
        RandomizedModel { point: self.point@, metadata: self.metadata@ }
    }
}

impl RandomizedUnsignedToken {
    /// The randomized unsigned token of this point and these metadata.
    pub fn new(point: AffinePoint, metadata: Vec<u8>) -> (out: Self)
        ensures
            out@ == (RandomizedModel { point: point@, metadata: metadata@ }),
    {
        RandomizedUnsignedToken { point, metadata }
    }

    /// The blinded point.
    pub fn point(&self) -> (point: AffinePoint)
        ensures
            point@ == self@.point,
    {
        self.point
    }
}

impl RandomizedUnsigned for RandomizedUnsignedToken {
    open spec fn spec_metadata(&self) -> Seq<u8> {
        self@.metadata
    }

    fn metadata(&self) -> (metadata: Vec<u8>) {
        copy_bytes(self.metadata.as_slice())
    }
}

/// What a signed token holds.
pub struct SignedModel {
    pub id: IdentifierModel,
    pub metadata: Seq<u8>,
    pub point: Seq<u8>,
}

/// The exponent that the signer of `metadata` with the private key `sk` inverts: the hash of
/// the metadata plus the key. There is none where the metadata hash to no scalar.
pub open spec fn signing_exponent(metadata: Seq<u8>, sk: nat) -> Option<nat> {
    match spec_hash_to_scalar(metadata) {
        None => None,
        Some(d) => Some((d + sk) % group_order()),
    }
}

/// Whether `point` is a signature under the private key `sk` on the token with the tag `tag`
/// and the metadata `metadata`: the signature times the signing exponent is the token's point.
/// Metadata that hash to no scalar carry no signature.
pub open spec fn signature_verifies(tag: Seq<u8>, metadata: Seq<u8>, point: Seq<u8>, sk: nat) -> bool {
    match signing_exponent(metadata, sk) {
        None => false,
        Some(exponent) => point_product(point, exponent) == spec_h_t(tag, metadata),
    }
}

/// A signed token of the construction over secp256k1.
#[derive(Debug)]
pub struct NizkpSignedToken {
    id: TokenIdentifier,
    metadata: Vec<u8>,
    point: AffinePoint,
}

impl View for NizkpSignedToken {
    type V = SignedModel;

    closed spec fn view(&self) -> SignedModel {
        SignedModel { id: self.id@, metadata: self.metadata@, point: self.point@ }
    }
}

impl NizkpSignedToken {
    /// The signed token of these three parts. Nothing is checked.
    pub fn from_parts(id: TokenIdentifier, metadata: Vec<u8>, point: AffinePoint) -> (out: Self)
        ensures
            out@ == (SignedModel { id: id@, metadata: metadata@, point: point@ }),
    {
        NizkpSignedToken { id, metadata, point }
    }

    /// The signature.
    pub fn point(&self) -> (point: AffinePoint)
        ensures
            point@ == self@.point,
    {
        self.point
    }
}

impl SignedToken for NizkpSignedToken {
    type VerificationKey = PrivateKey;

    open spec fn verifies_as(&self, verification_key: &PrivateKey, accepted: bool) -> bool {
        accepted == signature_verifies(
            self@.id.tag(),
            self@.metadata,
            self@.point,
            verification_key@,
        )
    }

    /// The signature is multiplied by the exponent that the signer inverted, which spares the
    /// inversion, and compared with the token's point.
    fn verify(&self, verification_key: &PrivateKey) -> (accepted: bool) {
        match hash_to_scalar(self.metadata.as_slice()) {
            None => false,
            Some(d) => {
                let t = self.id.tag();
                let t = h_t(t.as_slice(), self.metadata.as_slice());
                let e_inverse = d.add(&verification_key.to_scalar());
                let signed = self.point.mul(&e_inverse);
                signed == t
            },
        }
    }
}

/// The encoding of the point that a proof on metadata is checked against: the generator
/// times the hash of the metadata, plus the public key. There is none where the metadata hash
/// to no scalar.
pub open spec fn verification_point(metadata: Seq<u8>, public_key: Seq<u8>) -> Option<Seq<u8>> {
    match spec_hash_to_scalar(metadata) {
        None => None,
        Some(d) => Some(point_sum(point_product(generator_encoding(), d), public_key)),
    }
}

/// Whether `signed` is what signing the randomized token `randomized` with the private key
/// `sk` and the nonce `r` gives: the point times the inverse of the signing exponent, with
/// the proof for the two points and the exponent.
pub open spec fn signed_with_nonce(
    randomized: RandomizedModel,
    sk: nat,
    r: nat,
    signed: RandomizedSignedModel,
) -> bool {
    match signing_exponent(randomized.metadata, sk) {
        None => false,
        Some(exponent) => {
            let w = point_product(randomized.point, inverse_mod(exponent, group_order()));
            exponent != 0 && signed.point == w && spec_create(randomized.point, w, exponent, r)
                == Some(signed.proof)
        },
    }
}

/// What checking and unrandomizing gives: the unsigned token with the signature point times
/// `r` for its signature, where the proof verifies for the randomized point, the signature
/// point and the verification point; else nothing.
pub open spec fn spec_unrandomize(
    unsigned: UnsignedModel,
    randomized: RandomizedModel,
    signed: RandomizedSignedModel,
    public_key: Seq<u8>,
    r: nat,
) -> Option<SignedModel> {
    match verification_point(unsigned.metadata, public_key) {
        None => None,
        Some(u) => if spec_verify(signed.proof, randomized.point, signed.point, u) {
            Some(
                SignedModel {
                    id: unsigned.id,
                    metadata: unsigned.metadata,
                    point: point_product(signed.point, r),
                },
            )
        } else {
            None
        },
    }
}

/// The engine of the construction over secp256k1.
pub struct NizkpTokenEngine {}

impl TokenEngine for NizkpTokenEngine {
    type UnsignedToken = NizkpUnsignedToken;

    type RandomizedUnsignedToken = RandomizedUnsignedToken;

    type RandomizedSignedToken = RandomizedSignedToken;

    type SignedToken = NizkpSignedToken;

    type Randomization = Scalar;

    type UserVerification = PublicKey;

    type SignKey = PrivateKey;

    open spec fn randomized_by(
        unsigned_token: &NizkpUnsignedToken,
        randomization: &Scalar,
        randomized: &RandomizedUnsignedToken,
    ) -> bool {
        randomization@ != 0 && randomized@ == unsigned_token@.randomized(randomization@)
    }

    /// A signature that is present is that of some nonce. There is none where the metadata
    /// hash to no scalar or the signing exponent is zero; and none is owed, as a nonce may not
    /// be drawn and a transcript may hash to no scalar.
    open spec fn signed_by(
        randomized_unsigned: &RandomizedUnsignedToken,
        sign_key: &PrivateKey,
        signed: &CtOption<RandomizedSignedToken>,
    ) -> bool {
        signed.present() ==> exists|r: nat|
            r < group_order() && #[trigger] signed_with_nonce(
                randomized_unsigned@,
                sign_key@,
                r,
                signed.inner()@,
            )
    }

    open spec fn unrandomized_to(
        unsigned_token: &NizkpUnsignedToken,
        randomized_unsigned: &RandomizedUnsignedToken,
        signed_token: &RandomizedSignedToken,
        verification_data: &PublicKey,
        randomization: &Scalar,
        out: &Option<NizkpSignedToken>,
    ) -> bool {
        match spec_unrandomize(
            unsigned_token@,
            randomized_unsigned@,
            signed_token@,
            verification_data@,
            randomization@,
        ) {
            None => out is None,
            Some(model) => out matches Some(token) && token@ == model,
        }
    }

    /// Draws scalars until one is not zero, which the first one is, and randomizes with it.
    ///
    /// What comes out goes by what `gen_vartime` drew last: nothing where it drew no scalar
    /// or drew zero, else that scalar and the token randomized with it.
    fn randomize(unsigned_token: &NizkpUnsignedToken) -> (out: Option<
        (Scalar, RandomizedUnsignedToken),
    >)
        ensures
            exists|drawn: Option<Scalar>|
                #[trigger] call_ensures(gen_vartime, (), drawn) && match drawn {
                    None => out is None,
                    Some(r) => if r@ == 0 {
                        out is None
                    } else {
                        out matches Some(pair) && pair.0@ == r@ && pair.1@
                            == unsigned_token@.randomized(r@)
                    },
                },
    {
        let mut round: usize = 0;
        let ghost mut last: Option<Scalar> = None;
        while round < SAMPLING_ROUNDS
            invariant
                round <= SAMPLING_ROUNDS,
                round > 0 ==> call_ensures(gen_vartime, (), last) && (last matches Some(r) && r@
                    == 0),
            decreases SAMPLING_ROUNDS - round,
        {
            let drawn = gen_vartime();
            assert(call_ensures(gen_vartime, (), drawn));
            match drawn {
                None => {
                    return None;
                },
                Some(r) => {
                    match unsigned_token.randomize_with(&r) {
                        Some(randomized) => {
                            return Some((r, randomized));
                        },
                        None => {
                            proof {
                                last = drawn;
                            }
                        },
                    }
                },
            }
            round += 1;
        }
        None
    }

    fn verify_signature_and_unrandomize(
        unsigned_token: NizkpUnsignedToken,
        randomized_unsigned_token: RandomizedUnsignedToken,
        signed_token: RandomizedSignedToken,
        verification_data: &PublicKey,
        randomization: Scalar,
    ) -> (out: Option<NizkpSignedToken>) {
        match hash_to_scalar(unsigned_token.metadata.as_slice()) {
            None => None,
            Some(d) => {
                // get the public key
                let u = AffinePoint::mul_base(&d).add(&verification_data.to_affine());

                // verify proof
                if signed_token.proof.verify(randomized_unsigned_token.point, signed_token.point, u) {
                    // Remove randomization
                    Some(
                        NizkpSignedToken {
                            point: signed_token.point.mul(&randomization),
                            metadata: unsigned_token.metadata,
                            id: unsigned_token.id,
                        },
                    )
                } else {
                    None
                }
            },
        }
    }

    /// The inverse is taken, the point multiplied and the proof made whatever the key:
    /// whether the key could be used shows in the presence bit alone.
    fn sign_randomized(t_prime: &RandomizedUnsignedToken, sign_key: &PrivateKey) -> (signed:
        CtOption<RandomizedSignedToken>) {
        let absent = RandomizedSignedToken {
            point: AffinePoint::identity(),
            proof: DLEQProof { c: Scalar::zero(), z: Scalar::zero() },
        };
        match hash_to_scalar(t_prime.metadata.as_slice()) {
            None => CtOption::new(absent, 0),
            Some(d) => {
                let exponent = d.add(&sign_key.to_scalar());
                let e = exponent.invert();
                let present: u8 = e.mask();
                let w = t_prime.point.mul(e.value_ref());
                match DLEQProof::create(t_prime.point, w, exponent) {
                    None => CtOption::new(absent, 0),
                    Some(dleq) => {
                        let token = RandomizedSignedToken { point: w, proof: dleq };
                        proof {
                            if present == 1 {
                                let r = choose|r: nat|
                                    r < group_order() && #[trigger] spec_create(
                                        t_prime.point@,
                                        w@,
                                        exponent@,
                                        r,
                                    ) == Some(dleq@);
                                assert(signed_with_nonce(t_prime@, sign_key@, r, token@));
                            }
                        }
                        CtOption::new(token, present)
                    },
                }
            },
        }
    }
}

} // verus!
