//! `N` tokens at a time over the pairing groups: one metadata, one seed, one pairing check.

use vstd::prelude::*;
use crate::common::{
    copy_bytes, fill_bytes, into_array, CtOption, IdentifierModel,
    RandomizedUnsignedToken as RandomizedUnsigned, SignedToken, TokenEngine, TokenIdentifier,
    UnsignedToken,
};
use crate::modular::inverse_mod;
use super::backend::{
    g1_identity_encoding, g1_product, g1_sum, g2_add, g2_generator, g2_generator_encoding,
    g2_mul, group_order, pairing_check, pairings_agree,
};
use super::keys::{PrivateKey, PublicKey};
use super::scalar::Scalar;
use super::tokens::{verification_point, PairingSignedToken, SignedModel};
use super::util::{
    h_1, h_m, random_biased, scalar_values, seeded_scalars, spec_h_1, spec_h_m,
    spec_seeded_scalars, CurvePoint, SAMPLING_ROUNDS,
};

verus! {

/// What the identifiers of a batch hold.
pub open spec fn identifier_models(ids: Seq<TokenIdentifier>) -> Seq<IdentifierModel> {
    Seq::new(ids.len(), |i: int| ids[i]@)
}

/// The encodings of the points of a batch.
pub open spec fn point_encodings(points: Seq<CurvePoint>) -> Seq<Seq<u8>> {
    Seq::new(points.len(), |i: int| points[i]@)
}

/// The encodings of the points of G1 that stand for the tokens of a batch.
pub open spec fn token_points(ids: Seq<IdentifierModel>, metadata: Seq<u8>) -> Seq<Seq<u8>> {
    Seq::new(ids.len(), |i: int| spec_h_1(ids[i].tag(), metadata))
}

/// Each point times the scalar at its place.
pub open spec fn scaled(points: Seq<Seq<u8>>, scalars: Seq<nat>) -> Seq<Seq<u8>> {
    Seq::new(points.len(), |i: int| g1_product(points[i], scalars[i]))
}

/// Each point times the inverse of the scalar at its place.
pub open spec fn scaled_by_inverses(points: Seq<Seq<u8>>, scalars: Seq<nat>) -> Seq<Seq<u8>> {
    Seq::new(points.len(), |i: int| g1_product(points[i], inverse_mod(scalars[i], group_order())))
}

/// The sum of the points, taken from the point at infinity on in their order.
pub open spec fn sum_of(points: Seq<Seq<u8>>) -> Seq<u8>
    decreases points.len(),
{
    if points.len() == 0 {
        g1_identity_encoding()
    } else {
        g1_sum(sum_of(points.drop_last()), points.last())
    }
}

/// Whether the sums of a batch verify under `public_key`: the pairing of the sum of the
/// signatures with the verification point is the pairing of the sum of the tokens' points
/// with the generator of G2.
pub open spec fn sums_verify(
    metadata: Seq<u8>,
    signatures: Seq<Seq<u8>>,
    points: Seq<Seq<u8>>,
    public_key: Seq<u8>,
) -> bool {
    match spec_h_m(metadata) {
        None => false,
        Some(d) => pairings_agree(
            sum_of(signatures),
            verification_point(d, public_key),
            sum_of(points),
            g2_generator_encoding(),
        ),
    }
}

/// Sums points in their order.
fn sum_points(points: &[CurvePoint]) -> (sum: CurvePoint)
    ensures
        sum@ == sum_of(point_encodings(points@)),
{
    let mut sum = CurvePoint::identity();
    let mut i: usize = 0;
    let ghost all = point_encodings(points@);
    assert(all.subrange(0, 0) =~= Seq::empty());
    while i < points.len()
        invariant
            i <= points@.len(),
            all == point_encodings(points@),
            sum@ == sum_of(all.subrange(0, i as int)),
        decreases points@.len() - i,
    {
        proof {
            let next = all.subrange(0, i + 1);
            assert(next.drop_last() =~= all.subrange(0, i as int));
            assert(next.last() == points@[i as int]@);
        }
        sum = sum.add(&points[i]);
        i += 1;
    }
    assert(all.subrange(0, i as int) =~= all);
    sum
}

/// Checks the pairing equation of `sums_verify` on sums that are at hand.
fn check_sums(metadata: &[u8], w: &CurvePoint, t: &CurvePoint, public_key: &PublicKey) -> (accepted:
    bool)
    ensures
        accepted == match spec_h_m(metadata@) {
            None => false,
            Some(d) => pairings_agree(
                w@,
                verification_point(d, public_key@),
                t@,
                g2_generator_encoding(),
            ),
        },
{
    match h_m(metadata) {
        None => false,
        Some(d) => {
            let generator = g2_generator();
            let pk = public_key.to_compressed();
            let u = g2_add(&g2_mul(&generator, &d.to_bytes()), &pk);
            pairing_check(&w.to_compressed(), &u, &t.to_compressed(), &generator)
        },
    }
}

/// The points that stand for the tokens of a batch.
fn hash_identifiers<const N: usize>(ids: &[TokenIdentifier; N], metadata: &[u8]) -> (points: Vec<
    CurvePoint,
>)
    ensures
        points@.len() == N,
        point_encodings(points@) == token_points(identifier_models(ids@), metadata@),
{
    let mut points: Vec<CurvePoint> = Vec::new();
    let mut i: usize = 0;
    while i < N
        invariant
            i <= N,
            points@.len() == i,
            forall|j: int|
                0 <= j < i ==> (#[trigger] points@[j])@ == spec_h_1(ids@[j]@.tag(), metadata@),
        decreases N - i,
    {
        let t = ids[i].tag();
        points.push(h_1(t.as_slice(), metadata));
        i += 1;
    }
    assert(point_encodings(points@) =~= token_points(identifier_models(ids@), metadata@));
    points
}

/// Multiplies each point by the scalar at its place.
fn scale_points(points: &[CurvePoint], scalars: &Vec<Scalar>) -> (out: Vec<CurvePoint>)
    requires
        scalars@.len() == points@.len(),
    ensures
        out@.len() == points@.len(),
        point_encodings(out@) == scaled(point_encodings(points@), scalar_values(scalars@)),
{
    let mut out: Vec<CurvePoint> = Vec::new();
    let mut i: usize = 0;
    while i < points.len()
        invariant
            i <= points@.len(),
            scalars@.len() == points@.len(),
            out@.len() == i,
            forall|j: int|
                0 <= j < i ==> (#[trigger] out@[j])@ == g1_product(points@[j]@, scalars@[j]@),
        decreases points@.len() - i,
    {
        out.push(points[i].mul(&scalars[i]));
        i += 1;
    }
    assert(point_encodings(out@) =~= scaled(point_encodings(points@), scalar_values(scalars@)));
    out
}

/// What a batched unsigned token holds.
pub struct BatchedUnsignedModel {
    pub ids: Seq<IdentifierModel>,
    pub metadata: Seq<u8>,
}

impl BatchedUnsignedModel {
    /// The encodings of the points of G1 that stand for the tokens.
    pub open spec fn points(self) -> Seq<Seq<u8>> {
        token_points(self.ids, self.metadata)
    }
}

/// `N` unsigned tokens with one metadata.
pub struct BatchedPairingUnsignedToken<const N: usize> {
    ids: [TokenIdentifier; N],
    metadata: Vec<u8>,
}

impl<const N: usize> View for BatchedPairingUnsignedToken<N> {
    type V = BatchedUnsignedModel;

    closed spec fn view(&self) -> BatchedUnsignedModel {
        BatchedUnsignedModel { ids: identifier_models(self.ids@), metadata: self.metadata@ }
    }
}

impl<const N: usize> UnsignedToken for BatchedPairingUnsignedToken<N> {
    type HiddenMetadata = Vec<u8>;

    type Metadata = Vec<u8>;

    open spec fn made_from(&self, metadata: &Vec<u8>) -> bool {
        &&& self@.metadata == metadata@
        &&& self@.ids.len() == N
        &&& forall|i: int| 0 <= i < N ==> (#[trigger] self@.ids[i]) is Id
    }

    open spec fn made_with_hidden(&self, metadata: &Vec<u8>, hidden: &Vec<u8>) -> bool {
        &&& self@.metadata == metadata@
        &&& self@.ids.len() == N
        &&& forall|i: int|
            0 <= i < N ==> (#[trigger] self@.ids[i] matches IdentifierModel::WithHidden(_, h) && h
                == hidden@)
    }

    fn new(metadata: Vec<u8>) -> (token: Self) {
        let ids = TokenIdentifier::generate::<N>();
        BatchedPairingUnsignedToken { ids, metadata }
    }

    /// Each identifier hashes the hidden metadata with random bytes of its own, so the tags
    /// of the batch differ though they hold the same hidden metadata.
    fn with_hidden(metadata: Vec<u8>, hidden: Vec<u8>) -> (token: Self) {
        let ids = TokenIdentifier::generate_with_hidden::<N>(&hidden);
        BatchedPairingUnsignedToken { ids, metadata }
    }
}

impl<const N: usize> BatchedPairingUnsignedToken<N> {
    /// The batch of these identifiers with these metadata.
    pub fn from_parts(ids: [TokenIdentifier; N], metadata: Vec<u8>) -> (out: Self)
        ensures
            out@ == (BatchedUnsignedModel { ids: identifier_models(ids@), metadata: metadata@ }),
    {
        BatchedPairingUnsignedToken { ids, metadata }
    }

    /// The batch randomized with the scalars of the stream of `seed`: each token's point times
    /// the inverse of the scalar at its place. Nothing where the stream does not give `N`
    /// scalars or gives a zero among them.
    pub fn randomize_with_seed(&self, seed: &[u8; 32]) -> (out: Option<
        BatchedRandomizedUnsignedToken<N>,
    >)
        ensures
            match spec_randomize_with_seed(self@, seed@) {
                None => out is None,
                Some(model) => out matches Some(randomized) && randomized@ == model,
            },
    {
        match seeded_scalars(seed, N) {
            None => None,
            Some(scalars) => {
                let mut points: Vec<CurvePoint> = Vec::new();
                let mut i: usize = 0;
                let ghost drawn = scalar_values(scalars@);
                assert(self@.ids.len() == N);
                while i < N
                    invariant
                        i <= N,
                        scalars@.len() == N,
                        self@.ids.len() == N,
                        drawn == scalar_values(scalars@),
                        spec_seeded_scalars(seed@, N as nat) == Some(drawn),
                        points@.len() == i,
                        forall|j: int| 0 <= j < i ==> drawn[j] != 0,
                        forall|j: int|
                            0 <= j < i ==> (#[trigger] points@[j])@ == g1_product(
                                spec_h_1(self.ids@[j]@.tag(), self.metadata@),
                                inverse_mod(drawn[j], group_order()),
                            ),
                    decreases N - i,
                {
                    let inverse = scalars[i].invert();
                    match inverse.into_option() {
                        None => {
                            assert(0 <= i < drawn.len() && drawn[i as int] == 0);
                            return None;
                        },
                        Some(rinv) => {
                            let t = self.ids[i].tag();
                            points.push(h_1(t.as_slice(), self.metadata.as_slice()).mul(&rinv));
                        },
                    }
                    i += 1;
                }
                proof {
                    assert(point_encodings(points@) =~= scaled_by_inverses(
                        self@.points(),
                        drawn,
                    ));
                }
                Some(
                    BatchedRandomizedUnsignedToken {
                        points: into_array(points),
                        metadata: copy_bytes(self.metadata.as_slice()),
                    },
                )
            },
        }
    }
}

/// What randomizing a batch with the scalars of the stream of `seed` gives.
pub open spec fn spec_randomize_with_seed(unsigned: BatchedUnsignedModel, seed: Seq<u8>) -> Option<
    BatchedRandomizedModel,
> {
    match spec_seeded_scalars(seed, unsigned.ids.len()) {
        None => None,
        Some(drawn) => if exists|i: int| 0 <= i < drawn.len() && drawn[i] == 0 {
            None
        } else {
            Some(
                BatchedRandomizedModel {
                    points: scaled_by_inverses(unsigned.points(), drawn),
                    metadata: unsigned.metadata,
                },
            )
        },
    }
}

/// A batch of no tokens is randomized with every seed.
pub proof fn lemma_empty_batch_is_randomized(unsigned: BatchedUnsignedModel, seed: Seq<u8>)
    requires
        unsigned.ids.len() == 0,
    ensures
        spec_randomize_with_seed(unsigned, seed) is Some,
{
    assert(super::util::seeded_draws(seed, 0) == Some((Seq::<nat>::empty(), 0nat)));
}

/// What a batched randomized unsigned token holds.
pub struct BatchedRandomizedModel {
    pub points: Seq<Seq<u8>>,
    pub metadata: Seq<u8>,
}

/// `N` randomized unsigned tokens with one metadata.
pub struct BatchedRandomizedUnsignedToken<const N: usize> {
    points: [CurvePoint; N],
    metadata: Vec<u8>,
}

impl<const N: usize> View for BatchedRandomizedUnsignedToken<N> {
    type V = BatchedRandomizedModel;

    closed spec fn view(&self) -> BatchedRandomizedModel {
        BatchedRandomizedModel { points: point_encodings(self.points@), metadata: self.metadata@ }
    }
}

impl<const N: usize> RandomizedUnsigned for BatchedRandomizedUnsignedToken<N> {
    open spec fn spec_metadata(&self) -> Seq<u8> {
        self@.metadata
    }

    fn metadata(&self) -> (metadata: Vec<u8>) {
        copy_bytes(self.metadata.as_slice())
    }
}

/// `N` randomized signed tokens.
pub struct BatchedRandomizedSignedToken<const N: usize> {
    points: [CurvePoint; N],
}

impl<const N: usize> View for BatchedRandomizedSignedToken<N> {
    type V = Seq<Seq<u8>>;

    /// The encodings of the blinded signatures.
    closed spec fn view(&self) -> Seq<Seq<u8>> {
        point_encodings(self.points@)
    }
}

impl<const N: usize> Default for BatchedRandomizedSignedToken<N> {
    /// `N` times the point at infinity.
    fn default() -> (out: Self)
        ensures
            out@ == Seq::new(N as nat, |i: int| g1_identity_encoding()),
    {
        let mut points: Vec<CurvePoint> = Vec::new();
        let mut i: usize = 0;
        while i < N
            invariant
                i <= N,
                points@.len() == i,
                forall|j: int| 0 <= j < i ==> (#[trigger] points@[j])@ == g1_identity_encoding(),
            decreases N - i,
        {
            points.push(CurvePoint::identity());
            i += 1;
        }
        let out = BatchedRandomizedSignedToken { points: into_array(points) };
        assert(out@ =~= Seq::new(N as nat, |i: int| g1_identity_encoding()));
        out
    }
}

/// What a batched signed token holds.
pub struct BatchedSignedModel {
    pub ids: Seq<IdentifierModel>,
    pub metadata: Seq<u8>,
    pub signatures: Seq<Seq<u8>>,
}

impl BatchedSignedModel {
    /// What the single token at `place` holds.
    pub open spec fn token(self, place: int) -> SignedModel {
        SignedModel {
            id: self.ids[place],
            metadata: self.metadata,
            signature: self.signatures[place],
        }
    }

    /// Whether the batch verifies under `public_key` with the coefficients `coefficients`:
    /// the sums of `sums_verify` are taken over the signatures and the tokens' points, each
    /// times the coefficient at its place.
    pub open spec fn verifies_with(self, public_key: Seq<u8>, coefficients: Seq<nat>) -> bool {
        sums_verify(
            self.metadata,
            scaled(self.signatures, coefficients),
            scaled(token_points(self.ids, self.metadata), coefficients),
            public_key,
        )
    }

    /// Whether the plain sums of the batch verify under `public_key`.
    pub open spec fn verifies_without_coefficients(self, public_key: Seq<u8>) -> bool {
        sums_verify(
            self.metadata,
            self.signatures,
            token_points(self.ids, self.metadata),
            public_key,
        )
    }
}

/// `N` signed tokens with one metadata.
pub struct BatchedPairingSignedToken<const N: usize> {
    ids: [TokenIdentifier; N],
    metadata: Vec<u8>,
    signatures: [CurvePoint; N],
}

impl<const N: usize> View for BatchedPairingSignedToken<N> {
    type V = BatchedSignedModel;

    closed spec fn view(&self) -> BatchedSignedModel {
        BatchedSignedModel {
            ids: identifier_models(self.ids@),
            metadata: self.metadata@,
            signatures: point_encodings(self.signatures@),
        }
    }
}

impl<const N: usize> BatchedPairingSignedToken<N> {
    /// An iterator over the single tokens of the batch.
    pub fn iter<'a>(&'a self) -> (out: BatchedPairingSignedTokenIterator<'a, N>)
        ensures
            out.batch() == self@,
            out.place() == 0,
    {
        BatchedPairingSignedTokenIterator { tokens: self, place: 0 }
    }

    /// The batch of `N` single tokens, with the metadata of the last of them.
    pub fn from(tokens: [PairingSignedToken; N]) -> (out: Self)
        requires
            N > 0,
        ensures
            out@.ids.len() == N,
            out@.signatures.len() == N,
            out@.metadata == tokens@[N - 1]@.metadata,
            forall|i: int|
                0 <= i < N ==> (#[trigger] out@.ids[i]) == tokens@[i]@.id && out@.signatures[i]
                    == tokens@[i]@.signature,
    {
        let mut ids: Vec<TokenIdentifier> = Vec::new();
        let mut signatures: Vec<CurvePoint> = Vec::new();
        let mut metadata: Vec<u8> = Vec::new();
        let mut i: usize = 0;
        while i < N
            invariant
                i <= N,
                ids@.len() == i,
                signatures@.len() == i,
                i > 0 ==> metadata@ == tokens@[i - 1]@.metadata,
                forall|j: int|
                    0 <= j < i ==> (#[trigger] ids@[j])@ == tokens@[j]@.id && signatures@[j]@
                        == tokens@[j]@.signature,
            decreases N - i,
        {
            let (id, point, md) = tokens[i].clone().unpack();
            ids.push(id);
            signatures.push(point);
            metadata = md;
            i += 1;
        }
        let out = BatchedPairingSignedToken {
            ids: into_array(ids),
            signatures: into_array(signatures),
            metadata,
        };
        out
    }

    /// Verifies the batch with the given coefficients, one per token.
    pub fn verify_with(&self, verification_key: &PublicKey, coefficients: &[Scalar; N]) -> (accepted:
        bool)
        ensures
            accepted == self@.verifies_with(
                verification_key@,
                Seq::new(N as nat, |i: int| coefficients@[i]@),
            ),
    {
        let ghost weights = Seq::new(N as nat, |i: int| coefficients@[i]@);
        let mut scalars: Vec<Scalar> = Vec::new();
        let mut i: usize = 0;
        while i < N
            invariant
                i <= N,
                scalars@.len() == i,
                forall|j: int| 0 <= j < i ==> (#[trigger] scalars@[j])@ == coefficients@[j]@,
            decreases N - i,
        {
            scalars.push(coefficients[i]);
            i += 1;
        }
        assert(scalar_values(scalars@) =~= weights);
        self.verify_with_scalars(verification_key, &scalars)
    }

    fn verify_with_scalars(&self, verification_key: &PublicKey, scalars: &Vec<Scalar>) -> (accepted:
        bool)
        requires
            scalars@.len() == N,
        ensures
            accepted == self@.verifies_with(verification_key@, scalar_values(scalars@)),
    {
        let points = hash_identifiers(&self.ids, self.metadata.as_slice());
        let t = sum_points(scale_points(points.as_slice(), scalars).as_slice());
        let w = sum_points(scale_points(self.signatures.as_slice(), scalars).as_slice());
        check_sums(self.metadata.as_slice(), &w, &t, verification_key)
    }
}

impl<const N: usize> SignedToken for BatchedPairingSignedToken<N> {
    type VerificationKey = PublicKey;

    /// The answer is that of the batch under some coefficients, one scalar per token.
    open spec fn verifies_as(&self, verification_key: &PublicKey, accepted: bool) -> bool {
        exists|coefficients: Seq<nat>|
            {
                &&& coefficients.len() == N
                &&& forall|i: int| 0 <= i < N ==> coefficients[i] < group_order()
                &&& #[trigger] self@.verifies_with(verification_key@, coefficients) == accepted
            }
    }

    /// Draws a coefficient for each token and verifies the batch with them. The coefficients
    /// need not be uniform, only unknown to whoever made the batch: with them a batch whose
    /// plain sums verify though its tokens do not is rejected.
    fn verify(&self, verification_key: &PublicKey) -> (accepted: bool) {
        let mut scalars: Vec<Scalar> = Vec::new();
        let mut i: usize = 0;
        while i < N
            invariant
                i <= N,
                scalars@.len() == i,
                forall|j: int| 0 <= j < i ==> (#[trigger] scalars@[j])@ < group_order(),
            decreases N - i,
        {
            scalars.push(random_biased());
            i += 1;
        }
        let accepted = self.verify_with_scalars(verification_key, &scalars);
        assert(self@.verifies_with(verification_key@, scalar_values(scalars@)) == accepted);
        accepted
    }
}

/// Verifies a batch by its plain sums, without coefficients. A batch can be made that passes
/// this though its tokens do not verify: it is here to show that, not to be relied on.
pub fn verify_no_lin_comb<const N: usize>(token: &BatchedPairingSignedToken<N>, key: &PublicKey) -> (accepted:
    bool)
    ensures
        accepted == token@.verifies_without_coefficients(key@),
{
    let points = hash_identifiers(&token.ids, token.metadata.as_slice());
    let t = sum_points(points.as_slice());
    let w = sum_points(token.signatures.as_slice());
    check_sums(token.metadata.as_slice(), &w, &t, key)
}

/// The single tokens of a batch, one after the other.
pub struct BatchedPairingSignedTokenIterator<'a, const N: usize> {
    tokens: &'a BatchedPairingSignedToken<N>,
    place: usize,
}

impl<'a, const N: usize> BatchedPairingSignedTokenIterator<'a, N> {
    /// What the batch holds.
    pub closed spec fn batch(&self) -> BatchedSignedModel {
        self.tokens@
    }

    /// How many tokens were given out.
    pub closed spec fn place(&self) -> nat {
        self.place as nat
    }

    /// The next single token: the identifier and the signature at the place, with the
    /// metadata of the batch. Nothing after the `N`th.
    pub fn next(&mut self) -> (out: Option<PairingSignedToken>)
        ensures
            final(self).batch() == old(self).batch(),
            match out {
                Some(token) => old(self).place() < N && token@ == old(self).batch().token(
                    old(self).place() as int,
                ) && final(self).place() == old(self).place() + 1,
                None => old(self).place() >= N && final(self).place() == old(self).place(),
            },
    {
        if self.place < N {
            let token = PairingSignedToken::create(
                self.tokens.ids[self.place].clone(),
                self.tokens.signatures[self.place].clone(),
                copy_bytes(self.tokens.metadata.as_slice()),
            );
            self.place += 1;
            Some(token)
        } else {
            None
        }
    }
}

/// What signing a batch with the private key `sk` gives, where there is a signature: each
/// point times the inverse of the sum of the metadata's hash and the key.
pub open spec fn spec_sign_batch(randomized: BatchedRandomizedModel, sk: nat) -> Option<
    Seq<Seq<u8>>,
> {
    match spec_h_m(randomized.metadata) {
        None => None,
        Some(d) => {
            let sum = (d + sk) % group_order();
            if sum == 0 {
                None
            } else {
                let inverse = inverse_mod(sum, group_order());
                Some(Seq::new(randomized.points.len(), |i: int| g1_product(randomized.points[i], inverse)))
            }
        },
    }
}

/// What checking and unrandomizing a batch gives: the batch with each signature point times
/// the scalar at its place in the stream of `seed`, where the plain sums of those signatures
/// and of the tokens' points verify; else nothing. The scalars of the stream stand in for
/// coefficients: the signer does not know them.
pub open spec fn spec_unrandomize_batch(
    unsigned: BatchedUnsignedModel,
    signed: Seq<Seq<u8>>,
    public_key: Seq<u8>,
    seed: Seq<u8>,
) -> Option<BatchedSignedModel> {
    match spec_seeded_scalars(seed, signed.len()) {
        None => None,
        Some(drawn) => {
            let signatures = scaled(signed, drawn);
            if sums_verify(unsigned.metadata, signatures, unsigned.points(), public_key) {
                Some(
                    BatchedSignedModel { ids: unsigned.ids, metadata: unsigned.metadata, signatures },
                )
            } else {
                None
            }
        },
    }
}

/// The engine of the batched pairing construction.
pub struct BatchedPairingTokenEngine<const N: usize> {}

impl<const N: usize> TokenEngine for BatchedPairingTokenEngine<N> {
    type UnsignedToken = BatchedPairingUnsignedToken<N>;

    type RandomizedUnsignedToken = BatchedRandomizedUnsignedToken<N>;

    type RandomizedSignedToken = BatchedRandomizedSignedToken<N>;

    type SignedToken = BatchedPairingSignedToken<N>;

    type Randomization = [u8; 32];

    type UserVerification = PublicKey;

    type SignKey = PrivateKey;

    open spec fn randomized_by(
        unsigned_token: &BatchedPairingUnsignedToken<N>,
        randomization: &[u8; 32],
        randomized: &BatchedRandomizedUnsignedToken<N>,
    ) -> bool {
        spec_randomize_with_seed(unsigned_token@, randomization@) == Some(randomized@)
    }

    open spec fn signed_by(
        randomized_unsigned: &BatchedRandomizedUnsignedToken<N>,
        sign_key: &PrivateKey,
        signed: &CtOption<BatchedRandomizedSignedToken<N>>,
    ) -> bool {
        match spec_sign_batch(randomized_unsigned@, sign_key@) {
            None => !signed.present(),
            Some(points) => signed.present() && signed.inner()@ == points,
        }
    }

    open spec fn unrandomized_to(
        unsigned_token: &BatchedPairingUnsignedToken<N>,
        randomized_unsigned: &BatchedRandomizedUnsignedToken<N>,
        signed_token: &BatchedRandomizedSignedToken<N>,
        verification_data: &PublicKey,
        randomization: &[u8; 32],
        out: &Option<BatchedPairingSignedToken<N>>,
    ) -> bool {
        match spec_unrandomize_batch(
            unsigned_token@,
            signed_token@,
            verification_data@,
            randomization@,
        ) {
            None => out is None,
            Some(model) => out matches Some(token) && token@ == model,
        }
    }

    /// Draws seeds until the stream of one gives `N` scalars that can be inverted, which the
    /// first one does but for a zero among them, and randomizes with it.
    ///
    /// Nothing comes out only where a seed was drawn that the batch cannot be randomized
    /// with. There is no such seed for a batch of no tokens, which is always randomized.
    fn randomize(unsigned_token: &BatchedPairingUnsignedToken<N>) -> (out: Option<
        ([u8; 32], BatchedRandomizedUnsignedToken<N>),
    >)
        ensures
            out is None ==> exists|seed: Seq<u8>|
                seed.len() == 32 && #[trigger] spec_randomize_with_seed(unsigned_token@, seed)
                    is None,
            N == 0 ==> out is Some,
    {
        let mut round: usize = 0;
        let ghost mut refused: Seq<u8> = Seq::empty();
        while round < SAMPLING_ROUNDS
            invariant
                round <= SAMPLING_ROUNDS,
                round > 0 ==> refused.len() == 32 && spec_randomize_with_seed(
                    unsigned_token@,
                    refused,
                ) is None,
            decreases SAMPLING_ROUNDS - round,
        {
            let mut randomization = [0u8; 32];
            fill_bytes(&mut randomization);
            match unsigned_token.randomize_with_seed(&randomization) {
                Some(randomized) => {
                    return Some((randomization, randomized));
                },
                None => {
                    proof {
                        refused = randomization@;
                    }
                },
            }
            round += 1;
        }
        proof {
            if N == 0 {
                lemma_empty_batch_is_randomized(unsigned_token@, refused);
            }
        }
        None
    }

    /// The inverse is taken and every point multiplied whatever the key: whether there are
    /// signatures shows in the presence bit alone.
    fn sign_randomized(
        randomized_unsigned: &BatchedRandomizedUnsignedToken<N>,
        sign_key: &PrivateKey,
    ) -> (signed: CtOption<BatchedRandomizedSignedToken<N>>) {
        match h_m(randomized_unsigned.metadata.as_slice()) {
            None => CtOption::new(BatchedRandomizedSignedToken::default(), 0),
            Some(d) => {
                let k = sign_key.to_scalar();
                let inverse = d.add(&k).invert();
                let present: u8 = inverse.mask();
                let mut points: Vec<CurvePoint> = Vec::new();
                let mut i: usize = 0;
                while i < N
                    invariant
                        i <= N,
                        points@.len() == i,
                        forall|j: int|
                            0 <= j < i ==> (#[trigger] points@[j])@ == g1_product(
                                randomized_unsigned.points@[j]@,
                                inverse.inner()@,
                            ),
                    decreases N - i,
                {
                    points.push(randomized_unsigned.points[i].mul(inverse.value_ref()));
                    i += 1;
                }
                let signed = BatchedRandomizedSignedToken { points: into_array(points) };
                proof {
                    if present == 1 {
                        assert(signed@ =~= spec_sign_batch(
                            randomized_unsigned@,
                            sign_key@,
                        )->Some_0);
                    }
                }
                CtOption::new(signed, present)
            },
        }
    }

    fn verify_signature_and_unrandomize(
        unsigned_token: BatchedPairingUnsignedToken<N>,
        _randomized_unsigned: BatchedRandomizedUnsignedToken<N>,
        signed_token: BatchedRandomizedSignedToken<N>,
        verification_data: &PublicKey,
        randomization: [u8; 32],
    ) -> (out: Option<BatchedPairingSignedToken<N>>) {
        match seeded_scalars(&randomization, N) {
            None => None,
            Some(scalars) => {
                // remove randomization from w
                let signatures = scale_points(signed_token.points.as_slice(), &scalars);
                let w = sum_points(signatures.as_slice());
                let points = hash_identifiers(&unsigned_token.ids, unsigned_token.metadata.as_slice());
                let t = sum_points(points.as_slice());
                if check_sums(unsigned_token.metadata.as_slice(), &w, &t, verification_data) {
                    Some(
                        BatchedPairingSignedToken {
                            signatures: into_array(signatures),
                            metadata: unsigned_token.metadata,
                            ids: unsigned_token.ids,
                        },
                    )
                } else {
                    None
                }
            },
        }
    }
}

} // verus!
