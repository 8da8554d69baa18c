//! `N` tokens at a time over secp256k1: one metadata, one seed, one proof.

use vstd::prelude::*;
use crate::bytes::append;
use crate::common::{
    copy_bytes, fill_bytes, into_array, CtOption, IdentifierModel,
    RandomizedUnsignedToken as RandomizedUnsigned, SignedToken, TokenEngine, TokenIdentifier,
    UnsignedToken,
};
use crate::hashing::{sha256, sha256_digest};
use crate::modular::inverse_mod;
use super::backend::{
    generator_encoding, group_order, identity_encoding, point_product, point_sum,
};
use super::keys::{PrivateKey, PublicKey};
use super::scalar::Scalar;
use super::tokens::{
    dleq_domain, signing_exponent, spec_create, spec_verify, verification_point, DLEQProof,
    ProofModel,
};
use super::util::{
    gen_vartime, h_t, hash_to_scalar, scalar_values, seeded_scalars, spec_h_t,
    spec_seeded_scalars, AffinePoint, SAMPLING_ROUNDS,
};

verus! {

/// The encodings of the points of a batch.
pub open spec fn point_encodings(points: Seq<AffinePoint>) -> Seq<Seq<u8>> {
    Seq::new(points.len(), |i: int| points[i]@)
}

/// What the identifiers of a batch hold.
pub open spec fn identifier_models(ids: Seq<TokenIdentifier>) -> Seq<IdentifierModel> {
    Seq::new(ids.len(), |i: int| ids[i]@)
}

/// The encodings of the points that stand for the tokens of a batch.
pub open spec fn token_points(ids: Seq<IdentifierModel>, metadata: Seq<u8>) -> Seq<Seq<u8>> {
    Seq::new(ids.len(), |i: int| spec_h_t(ids[i].tag(), metadata))
}

/// The encodings one after the other.
pub open spec fn flatten(points: Seq<Seq<u8>>) -> Seq<u8>
    decreases points.len(),
{
    if points.len() == 0 {
        Seq::empty()
    } else {
        flatten(points.drop_last()) + points.last()
    }
}

/// The sum of the points, taken from the identity on in their order.
pub open spec fn sum_of(points: Seq<Seq<u8>>) -> Seq<u8>
    decreases points.len(),
{
    if points.len() == 0 {
        identity_encoding()
    } else {
        point_sum(sum_of(points.drop_last()), points.last())
    }
}

/// The sum of the first `count` points, each times the scalar at its place.
pub open spec fn combination(points: Seq<Seq<u8>>, scalars: Seq<nat>, count: nat) -> Seq<u8>
    decreases count,
{
    if count == 0 {
        identity_encoding()
    } else {
        point_sum(
            combination(points, scalars, (count - 1) as nat),
            point_product(points[count - 1], scalars[count - 1]),
        )
    }
}

/// The seed of the coefficients of a batch: the SHA-256 digest of the domain tag, the
/// generator, the public point and the points of the two lists, each in its encoding.
pub open spec fn transcript_seed(unsigned: Seq<Seq<u8>>, signed: Seq<Seq<u8>>, public_key: Seq<u8>) -> Seq<
    u8,
> {
    sha256_digest(
        dleq_domain() + generator_encoding() + public_key + flatten(unsigned) + flatten(signed),
    )
}

/// The two points that a proof for a batch is about: the combinations of the unsigned and of
/// the signed points with the scalars of the stream that the transcript seeds, over the places
/// that both lists have. There are none where the stream does not give that many scalars.
pub open spec fn spec_linear_combination(
    t_list: Seq<Seq<u8>>,
    w_list: Seq<Seq<u8>>,
    public_key: Seq<u8>,
) -> Option<(Seq<u8>, Seq<u8>)> {
    let seed = transcript_seed(t_list, w_list, public_key);
    let count = if t_list.len() <= w_list.len() {
        t_list.len()
    } else {
        w_list.len()
    };
    match spec_seeded_scalars(seed, count) {
        None => None,
        Some(scalars) => Some(
            (combination(t_list, scalars, count), combination(w_list, scalars, count)),
        ),
    }
}

/// Appends the encodings of `points` to `buf`.
fn append_points(buf: &mut Vec<u8>, points: &[AffinePoint])
    ensures
        final(buf)@ == old(buf)@ + flatten(point_encodings(points@)),
{
    let ghost start = buf@;
    let ghost all = point_encodings(points@);
    let mut i: usize = 0;
    assert(all.subrange(0, 0) =~= Seq::empty());
    assert(start + flatten(Seq::empty()) =~= start);
    while i < points.len()
        invariant
            i <= points@.len(),
            all == point_encodings(points@),
            buf@ == start + flatten(all.subrange(0, i as int)),
        decreases points@.len() - i,
    {
        proof {
            let next = all.subrange(0, i + 1);
            assert(next.drop_last() =~= all.subrange(0, i as int));
            assert(next.last() == points@[i as int]@);
            assert(start + flatten(next) =~= start + flatten(all.subrange(0, i as int))
                + points@[i as int]@);
        }
        append(buf, points[i].to_bytes().as_slice());
        i += 1;
    }
    assert(all.subrange(0, i as int) =~= all);
}

/// A proof for a batch: one proof of equal discrete logarithms for a combination of the
/// batch whose coefficients its transcript fixes.
#[derive(Clone, Copy, Debug)]
pub struct DLEQProofBatched {
    proof: DLEQProof,
}

impl View for DLEQProofBatched {
    type V = ProofModel;

    closed spec fn view(&self) -> ProofModel {
        self.proof@
    }
}

impl DLEQProofBatched {
    /// The batched proof that is `inner`.
    pub fn from_proof(inner: DLEQProof) -> (out: DLEQProofBatched)
        ensures
            out@ == inner@,
    {
        DLEQProofBatched { proof: inner }
    }

    /// Hashes the transcript of a batch to the seed of its coefficients.
    pub fn hash_data(
        unsignedvec: &[AffinePoint],
        signedvec: &[AffinePoint],
        public_key: &AffinePoint,
    ) -> (seed: [u8; 32])
        ensures
            seed@ == transcript_seed(
                point_encodings(unsignedvec@),
                point_encodings(signedvec@),
                public_key@,
            ),
    {
        let mut input: Vec<u8> = Vec::new();
        append(&mut input, "This is DLEQ_PROOF hash".as_bytes());
        append(&mut input, AffinePoint::generator().to_bytes().as_slice());
        append(&mut input, public_key.to_bytes().as_slice());
        append_points(&mut input, unsignedvec);
        append_points(&mut input, signedvec);
        sha256(input.as_slice())
    }

    /// The combinations of the two lists with the coefficients that their transcript fixes.
    /// `None` where the stream of the transcript does not give the coefficients.
    pub fn hash_random_linear_combination(
        t_list: &[AffinePoint],
        w_list: &[AffinePoint],
        public_key: &AffinePoint,
    ) -> (out: Option<(AffinePoint, AffinePoint)>)
        ensures
            match out {
                Some(pair) => spec_linear_combination(
                    point_encodings(t_list@),
                    point_encodings(w_list@),
                    public_key@,
                ) == Some((pair.0@, pair.1@)),
                None => spec_linear_combination(
                    point_encodings(t_list@),
                    point_encodings(w_list@),
                    public_key@,
                ) is None,
            },
    {
        let seed = DLEQProofBatched::hash_data(t_list, w_list, public_key);
        let count = if t_list.len() <= w_list.len() {
            t_list.len()
        } else {
            w_list.len()
        };
        match seeded_scalars(&seed, count) {
            None => None,
            Some(scalars) => {
                let mut tsum = AffinePoint::identity();
                let mut wsum = AffinePoint::identity();
                let mut i: usize = 0;
                while i < count
                    invariant
                        i <= count,
                        count <= t_list@.len(),
                        count <= w_list@.len(),
                        scalars@.len() == count,
                        tsum@ == combination(
                            point_encodings(t_list@),
                            scalar_values(scalars@),
                            i as nat,
                        ),
                        wsum@ == combination(
                            point_encodings(w_list@),
                            scalar_values(scalars@),
                            i as nat,
                        ),
                    decreases count - i,
                {
                    tsum = tsum.add(&t_list[i].mul(&scalars[i]));
                    wsum = wsum.add(&w_list[i].mul(&scalars[i]));
                    i += 1;
                }
                Some((tsum, wsum))
            },
        }
    }

    /// Creates the proof that each unsigned point is the signed point at its place times `k`,
    /// with a nonce drawn from the generator of the calling thread: the proof that
    /// `create_with_nonce` makes with what `gen_vartime` drew. `None` where it drew no nonce
    /// or a hash gave no scalar.
    pub fn create(t_list: &[AffinePoint], w_list: &[AffinePoint], k: Scalar) -> (out: Option<Self>)
        ensures
            out matches Some(made) ==> exists|r: nat|
                r < group_order() && #[trigger] spec_create_batched(
                    point_encodings(t_list@),
                    point_encodings(w_list@),
                    k@,
                    r,
                ) == Some(made@),
            exists|drawn: Option<Scalar>|
                #[trigger] call_ensures(gen_vartime, (), drawn) && match drawn {
                    None => out is None,
                    Some(r) => match spec_create_batched(
                        point_encodings(t_list@),
                        point_encodings(w_list@),
                        k@,
                        r@,
                    ) {
                        None => out is None,
                        Some(model) => out matches Some(made) && made@ == model,
                    },
                },
    {
        let drawn = gen_vartime();
        assert(call_ensures(gen_vartime, (), drawn));
        match drawn {
            None => None,
            Some(r) => {
                let out = DLEQProofBatched::create_with_nonce(t_list, w_list, k, r);
                proof {
                    if let Some(made) = out {
                        assert(spec_create_batched(
                            point_encodings(t_list@),
                            point_encodings(w_list@),
                            k@,
                            r@,
                        ) == Some(made@));
                    }
                }
                out
            },
        }
    }

    /// Creates the proof for a batch with the nonce `r`. `None` where a hash gave no scalar.
    pub fn create_with_nonce(
        t_list: &[AffinePoint],
        w_list: &[AffinePoint],
        k: Scalar,
        r: Scalar,
    ) -> (out: Option<Self>)
        ensures
            match out {
                Some(made) => spec_create_batched(
                    point_encodings(t_list@),
                    point_encodings(w_list@),
                    k@,
                    r@,
                ) == Some(made@),
                None => spec_create_batched(
                    point_encodings(t_list@),
                    point_encodings(w_list@),
                    k@,
                    r@,
                ) is None,
            },
    {
        match DLEQProofBatched::hash_random_linear_combination(
            t_list,
            w_list,
            &AffinePoint::mul_base(&k),
        ) {
            None => None,
            Some((m, z)) => match DLEQProof::create_with_nonce(m, z, k, r) {
                None => None,
                Some(inner) => Some(DLEQProofBatched { proof: inner }),
            },
        }
    }

    /// Verifies the proof for the combination of the batch.
    pub fn verify<const N: usize>(
        &self,
        unsignedvec: &[AffinePoint; N],
        signedvec: &[AffinePoint; N],
        public_key: AffinePoint,
    ) -> (accepted: bool)
        ensures
            accepted == spec_verify_batched(
                self@,
                point_encodings(unsignedvec@),
                point_encodings(signedvec@),
                public_key@,
            ),
    {
        match DLEQProofBatched::hash_random_linear_combination(
            unsignedvec.as_slice(),
            signedvec.as_slice(),
            &public_key,
        ) {
            None => false,
            Some((m, z)) => self.proof.verify(m, z, public_key),
        }
    }
}

/// The proof that `create` makes for a batch with the exponent `k` and the nonce `r`: the
/// proof for the combinations of the two lists under the transcript with the generator times
/// `k`.
pub open spec fn spec_create_batched(
    t_list: Seq<Seq<u8>>,
    w_list: Seq<Seq<u8>>,
    k: nat,
    r: nat,
) -> Option<ProofModel> {
    match spec_linear_combination(t_list, w_list, point_product(generator_encoding(), k)) {
        None => None,
        Some((m, z)) => spec_create(m, z, k, r),
    }
}

/// Whether a proof verifies for a batch and the public point `public_key`: the proof
/// verifies for the combinations of the two lists under the transcript with that point.
pub open spec fn spec_verify_batched(
    proof: ProofModel,
    t_list: Seq<Seq<u8>>,
    w_list: Seq<Seq<u8>>,
    public_key: Seq<u8>,
) -> bool {
    match spec_linear_combination(t_list, w_list, public_key) {
        None => false,
        Some((m, z)) => spec_verify(proof, m, z, public_key),
    }
}

/// What a batched unsigned token holds.
pub struct BatchedUnsignedModel {
    pub ids: Seq<IdentifierModel>,
    pub metadata: Seq<u8>,
}

impl BatchedUnsignedModel {
    /// The encodings of the points that stand for the tokens.
    pub open spec fn points(self) -> Seq<Seq<u8>> {
        token_points(self.ids, self.metadata)
    }
}

/// `N` unsigned tokens with one metadata.
pub struct NizkpUnsignedTokenBatched<const N: usize> {
    ids: [TokenIdentifier; N],
    metadata: Vec<u8>,
}

impl<const N: usize> View for NizkpUnsignedTokenBatched<N> {
    type V = BatchedUnsignedModel;

    closed spec fn view(&self) -> BatchedUnsignedModel {
        BatchedUnsignedModel { ids: identifier_models(self.ids@), metadata: self.metadata@ }
    }
}

/// The points that stand for the tokens of a batch.
fn hash_identifiers<const N: usize>(ids: &[TokenIdentifier; N], metadata: &[u8]) -> (points: Vec<
    AffinePoint,
>)
    ensures
        points@.len() == N,
        point_encodings(points@) == token_points(identifier_models(ids@), metadata@),
{
    let mut points: Vec<AffinePoint> = Vec::new();
    let mut i: usize = 0;
    while i < N
        invariant
            i <= N,
            points@.len() == i,
            forall|j: int|
                0 <= j < i ==> (#[trigger] points@[j])@ == spec_h_t(ids@[j]@.tag(), metadata@),
        decreases N - i,
    {
        let t = ids[i].tag();
        points.push(h_t(t.as_slice(), metadata));
        i += 1;
    }
    assert(point_encodings(points@) =~= token_points(identifier_models(ids@), metadata@));
    points
}

/// Sums points in their order.
fn sum_points(points: &[AffinePoint]) -> (sum: AffinePoint)
    ensures
        sum@ == sum_of(point_encodings(points@)),
{
    let mut sum = AffinePoint::identity();
    let mut i: usize = 0;
    let ghost all = point_encodings(points@);
    assert(all.subrange(0, 0) =~= Seq::empty());
    while i < points.len()
        invariant
            i <= points@.len(),
            all == point_encodings(points@),
            sum@ == sum_of(all.subrange(0, i as int)),
        decreases points@.len() - i,
    {
        proof {
            let next = all.subrange(0, i + 1);
            assert(next.drop_last() =~= all.subrange(0, i as int));
            assert(next.last() == points@[i as int]@);
        }
        sum = sum.add(&points[i]);
        i += 1;
    }
    assert(all.subrange(0, i as int) =~= all);
    sum
}

impl<const N: usize> NizkpUnsignedTokenBatched<N> {
    /// The batch of these identifiers with these metadata.
    pub fn from_parts(ids: [TokenIdentifier; N], metadata: Vec<u8>) -> (out: Self)
        ensures
            out@ == (BatchedUnsignedModel { ids: identifier_models(ids@), metadata: metadata@ }),
    {
        NizkpUnsignedTokenBatched { ids, metadata }
    }

    /// The points that stand for the tokens of the batch.
    pub fn points(&self) -> (points: [AffinePoint; N])
        ensures
            point_encodings(points@) == self@.points(),
    {
        into_array(hash_identifiers(&self.ids, self.metadata.as_slice()))
    }

    /// The batch randomized with the scalars of the stream of `seed`: each token's point times
    /// the inverse of the scalar at its place. Nothing where the stream does not give `N`
    /// scalars or gives a zero among them.
    pub fn randomize_with_seed(&self, seed: &[u8; 32]) -> (out: Option<
        RandomizedUnsignedTokenBatched<N>,
    >)
        ensures
            match spec_randomize_with_seed(self@, seed@) {
                None => out is None,
                Some(model) => out matches Some(randomized) && randomized@ == model,
            },
    {
        match seeded_scalars(seed, N) {
            None => None,
            Some(scalars) => {
                let mut points: Vec<AffinePoint> = Vec::new();
                let mut i: usize = 0;
                let ghost drawn = scalar_values(scalars@);
                assert(self@.ids.len() == N);
                while i < N
                    invariant
                        i <= N,
                        scalars@.len() == N,
                        self@.ids.len() == N,
                        drawn == scalar_values(scalars@),
                        spec_seeded_scalars(seed@, N as nat) == Some(drawn),
                        points@.len() == i,
                        forall|j: int| 0 <= j < i ==> drawn[j] != 0,
                        forall|j: int|
                            0 <= j < i ==> (#[trigger] points@[j])@ == point_product(
                                spec_h_t(self.ids@[j]@.tag(), self.metadata@),
                                inverse_mod(drawn[j], group_order()),
                            ),
                    decreases N - i,
                {
                    match scalars[i].invert().into_option() {
                        None => {
                            assert(0 <= i < drawn.len() && drawn[i as int] == 0);
                            return None;
                        },
                        Some(inverse) => {
                            let t = self.ids[i].tag();
                            points.push(h_t(t.as_slice(), self.metadata.as_slice()).mul(&inverse));
                        },
                    }
                    i += 1;
                }
                proof {
                    assert(point_encodings(points@) =~= scaled_by_inverses(
                        self@.points(),
                        drawn,
                    ));
                }
                Some(
                    RandomizedUnsignedTokenBatched {
                        points: into_array(points),
                        metadata: copy_bytes(self.metadata.as_slice()),
                    },
                )
            },
        }
    }
}

/// Each point times the scalar at its place.
pub open spec fn scaled(points: Seq<Seq<u8>>, scalars: Seq<nat>) -> Seq<Seq<u8>> {
    Seq::new(points.len(), |i: int| point_product(points[i], scalars[i]))
}

/// Each point times the inverse of the scalar at its place.
pub open spec fn scaled_by_inverses(points: Seq<Seq<u8>>, scalars: Seq<nat>) -> Seq<Seq<u8>> {
    Seq::new(
        points.len(),
        |i: int| point_product(points[i], inverse_mod(scalars[i], group_order())),
    )
}

/// What randomizing a batch with the scalars of the stream of `seed` gives.
pub open spec fn spec_randomize_with_seed(unsigned: BatchedUnsignedModel, seed: Seq<u8>) -> Option<
    BatchedRandomizedModel,
> {
    match spec_seeded_scalars(seed, unsigned.ids.len()) {
        None => None,
        Some(drawn) => if exists|i: int| 0 <= i < drawn.len() && drawn[i] == 0 {
            None
        } else {
            Some(
                BatchedRandomizedModel {
                    points: scaled_by_inverses(unsigned.points(), drawn),
                    metadata: unsigned.metadata,
                },
            )
        },
    }
}

impl<const N: usize> UnsignedToken for NizkpUnsignedTokenBatched<N> {
    type Metadata = Vec<u8>;

    type HiddenMetadata = Vec<u8>;

    open spec fn made_from(&self, metadata: &Vec<u8>) -> bool {
        &&& self@.metadata == metadata@
        &&& self@.ids.len() == N
        &&& forall|i: int| 0 <= i < N ==> (#[trigger] self@.ids[i]) is Id
    }

    open spec fn made_with_hidden(&self, metadata: &Vec<u8>, hidden: &Vec<u8>) -> bool {
        &&& self@.metadata == metadata@
        &&& self@.ids.len() == N
        &&& forall|i: int|
            0 <= i < N ==> (#[trigger] self@.ids[i] matches IdentifierModel::WithHidden(_, h) && h
                == hidden@)
    }

    fn new(metadata: Vec<u8>) -> (token: Self) {
        let ids = TokenIdentifier::generate::<N>();
        NizkpUnsignedTokenBatched { ids, metadata }
    }

    /// Each identifier hashes the hidden metadata with random bytes of its own, so the tags
    /// of the batch differ though they hold the same hidden metadata.
    fn with_hidden(metadata: Vec<u8>, hidden: Vec<u8>) -> (token: Self) {
        let ids = TokenIdentifier::generate_with_hidden::<N>(&hidden);
        NizkpUnsignedTokenBatched { ids, metadata }
    }
}

/// What a batched randomized signed token holds: the blinded signatures and the proof.
pub struct BatchedRandomizedSignedModel {
    pub points: Seq<Seq<u8>>,
    pub proof: ProofModel,
}

/// `N` randomized signed tokens with one proof.
pub struct RandomizedSignedTokenBatched<const N: usize> {
    points: [AffinePoint; N],
    proof: DLEQProofBatched,
}

impl<const N: usize> View for RandomizedSignedTokenBatched<N> {
    type V = BatchedRandomizedSignedModel;

    closed spec fn view(&self) -> BatchedRandomizedSignedModel {
        BatchedRandomizedSignedModel { points: point_encodings(self.points@), proof: self.proof@ }
    }
}

impl<const N: usize> RandomizedSignedTokenBatched<N> {
    /// The batch of these blinded signatures with this proof.
    pub fn new(points: [AffinePoint; N], dleq: DLEQProofBatched) -> (out: Self)
        ensures
            out@ == (BatchedRandomizedSignedModel {
                points: point_encodings(points@),
                proof: dleq@,
            }),
    {
        RandomizedSignedTokenBatched { points, proof: dleq }
    }

    /// The blinded signatures.
    pub fn points(&self) -> (points: [AffinePoint; N])
        ensures
            point_encodings(points@) == self@.points,
    {
        self.points
    }

    /// The proof.
    pub fn dleq_proof(&self) -> (out: DLEQProofBatched)
        ensures
            out@ == self@.proof,
    {
        self.proof
    }
}

/// A batch of no tokens is randomized with every seed.
pub proof fn lemma_empty_batch_is_randomized(unsigned: BatchedUnsignedModel, seed: Seq<u8>)
    requires
        unsigned.ids.len() == 0,
    ensures
        spec_randomize_with_seed(unsigned, seed) is Some,
{
    assert(super::util::seeded_draws(seed, 0) == Some((Seq::<nat>::empty(), 0nat)));
}

/// What a batched randomized unsigned token holds.
pub struct BatchedRandomizedModel {
    pub points: Seq<Seq<u8>>,
    pub metadata: Seq<u8>,
}

/// `N` randomized unsigned tokens with one metadata.
pub struct RandomizedUnsignedTokenBatched<const N: usize> {
    points: [AffinePoint; N],
    metadata: Vec<u8>,
}

impl<const N: usize> View for RandomizedUnsignedTokenBatched<N> {
    type V = BatchedRandomizedModel;

    closed spec fn view(&self) -> BatchedRandomizedModel {
        BatchedRandomizedModel { points: point_encodings(self.points@), metadata: self.metadata@ }
    }
}

impl<const N: usize> RandomizedUnsignedTokenBatched<N> {
    /// The blinded points.
    pub fn points(&self) -> (points: [AffinePoint; N])
        ensures
            point_encodings(points@) == self@.points,
    {
        self.points
    }
}

impl<const N: usize> RandomizedUnsigned for RandomizedUnsignedTokenBatched<N> {
    open spec fn spec_metadata(&self) -> Seq<u8> {
        self@.metadata
    }

    fn metadata(&self) -> (metadata: Vec<u8>) {
        copy_bytes(self.metadata.as_slice())
    }
}

/// What a batched signed token holds.
pub struct BatchedSignedModel {
    pub ids: Seq<IdentifierModel>,
    pub metadata: Seq<u8>,
    pub points: Seq<Seq<u8>>,
}

impl BatchedSignedModel {
    /// Whether the batch verifies under the private key `sk`: the sum of the signatures times
    /// the signing exponent is the sum of the tokens' points. Metadata that hash to no scalar
    /// carry no signature.
    pub open spec fn verifies(self, sk: nat) -> bool {
        match signing_exponent(self.metadata, sk) {
            None => false,
            Some(exponent) => point_product(sum_of(self.points), exponent) == sum_of(
                token_points(self.ids, self.metadata),
            ),
        }
    }
}

/// `N` signed tokens with one metadata.
pub struct NizkpSignedTokenBatched<const N: usize> {
    ids: [TokenIdentifier; N],
    metadata: Vec<u8>,
    points: [AffinePoint; N],
}

impl<const N: usize> View for NizkpSignedTokenBatched<N> {
    type V = BatchedSignedModel;

    closed spec fn view(&self) -> BatchedSignedModel {
        BatchedSignedModel {
            ids: identifier_models(self.ids@),
            metadata: self.metadata@,
            points: point_encodings(self.points@),
        }
    }
}

impl<const N: usize> NizkpSignedTokenBatched<N> {
    /// The batch of these parts. Nothing is checked.
    pub fn from_parts(ids: [TokenIdentifier; N], metadata: Vec<u8>, points: [AffinePoint; N]) -> (out:
        Self)
        ensures
            out@ == (BatchedSignedModel {
                ids: identifier_models(ids@),
                metadata: metadata@,
                points: point_encodings(points@),
            }),
    {
        NizkpSignedTokenBatched { ids, metadata, points }
    }

    /// The signatures.
    pub fn points(&self) -> (points: [AffinePoint; N])
        ensures
            point_encodings(points@) == self@.points,
    {
        self.points
    }
}

impl<const N: usize> SignedToken for NizkpSignedTokenBatched<N> {
    type VerificationKey = PrivateKey;

    open spec fn verifies_as(&self, verification_key: &PrivateKey, accepted: bool) -> bool {
        accepted == self@.verifies(verification_key@)
    }

    /// The sum of the signatures is multiplied by the exponent that the signer inverted,
    /// which spares the inversion, and compared with the sum of the tokens' points.
    fn verify(&self, verification_key: &PrivateKey) -> (accepted: bool) {
        match hash_to_scalar(self.metadata.as_slice()) {
            None => false,
            Some(d) => {
                let tpoints = hash_identifiers(&self.ids, self.metadata.as_slice());
                let e_inverse = d.add(&verification_key.to_scalar());
                let signed = sum_points(self.points.as_slice()).mul(&e_inverse);
                let expected = sum_points(tpoints.as_slice());
                signed == expected
            },
        }
    }
}

/// Whether `signed` is what signing the batch `randomized` with the private key `sk` and the
/// nonce `r` gives: each point times the inverse of the signing exponent, with the proof for
/// the two lists and the exponent.
pub open spec fn signed_with_nonce(
    randomized: BatchedRandomizedModel,
    sk: nat,
    r: nat,
    signed: BatchedRandomizedSignedModel,
) -> bool {
    match signing_exponent(randomized.metadata, sk) {
        None => false,
        Some(exponent) => {
            let inverse = inverse_mod(exponent, group_order());
            let points = Seq::new(
                randomized.points.len(),
                |i: int| point_product(randomized.points[i], inverse),
            );
            exponent != 0 && signed.points == points && spec_create_batched(
                randomized.points,
                points,
                exponent,
                r,
            ) == Some(signed.proof)
        },
    }
}

/// What checking and unrandomizing a batch gives: the batch with each signature point times
/// the scalar at its place in the stream of `seed`, where the proof verifies for the
/// randomized points, the signature points and the verification point; else nothing.
pub open spec fn spec_unrandomize_batch(
    unsigned: BatchedUnsignedModel,
    randomized: BatchedRandomizedModel,
    signed: BatchedRandomizedSignedModel,
    public_key: Seq<u8>,
    seed: Seq<u8>,
) -> Option<BatchedSignedModel> {
    match verification_point(unsigned.metadata, public_key) {
        None => None,
        Some(u) => if spec_verify_batched(signed.proof, randomized.points, signed.points, u) {
            match spec_seeded_scalars(seed, signed.points.len()) {
                None => None,
                Some(drawn) => Some(
                    BatchedSignedModel {
                        ids: unsigned.ids,
                        metadata: unsigned.metadata,
                        points: scaled(signed.points, drawn),
                    },
                ),
            }
        } else {
            None
        },
    }
}

/// The engine of the batched construction over secp256k1.
pub struct BatchedNizkpTokenEngine<const N: usize> {}

impl<const N: usize> TokenEngine for BatchedNizkpTokenEngine<N> {
    type UnsignedToken = NizkpUnsignedTokenBatched<N>;

    type RandomizedUnsignedToken = RandomizedUnsignedTokenBatched<N>;

    type RandomizedSignedToken = RandomizedSignedTokenBatched<N>;

    type SignedToken = NizkpSignedTokenBatched<N>;

    type Randomization = [u8; 32];

    type UserVerification = PublicKey;

    type SignKey = PrivateKey;

    open spec fn randomized_by(
        unsigned_token: &NizkpUnsignedTokenBatched<N>,
        randomization: &[u8; 32],
        randomized: &RandomizedUnsignedTokenBatched<N>,
    ) -> bool {
        spec_randomize_with_seed(unsigned_token@, randomization@) == Some(randomized@)
    }

    /// Signatures that are present are those of some nonce. There are none where the metadata
    /// hash to no scalar or the signing exponent is zero; and none are owed, as a nonce may not
    /// be drawn and a hash may give no scalar.
    open spec fn signed_by(
        randomized_unsigned: &RandomizedUnsignedTokenBatched<N>,
        sign_key: &PrivateKey,
        signed: &CtOption<RandomizedSignedTokenBatched<N>>,
    ) -> bool {
        signed.present() ==> exists|r: nat|
            r < group_order() && #[trigger] signed_with_nonce(
                randomized_unsigned@,
                sign_key@,
                r,
                signed.inner()@,
            )
    }

    open spec fn unrandomized_to(
        unsigned_token: &NizkpUnsignedTokenBatched<N>,
        randomized_unsigned: &RandomizedUnsignedTokenBatched<N>,
        signed_token: &RandomizedSignedTokenBatched<N>,
        verification_data: &PublicKey,
        randomization: &[u8; 32],
        out: &Option<NizkpSignedTokenBatched<N>>,
    ) -> bool {
        match spec_unrandomize_batch(
            unsigned_token@,
            randomized_unsigned@,
            signed_token@,
            verification_data@,
            randomization@,
        ) {
            None => out is None,
            Some(model) => out matches Some(token) && token@ == model,
        }
    }

    /// Draws seeds until the stream of one gives `N` scalars that are not zero, which the
    /// first one does, and randomizes with it. The client keeps the seed and not the scalars.
    ///
    /// Nothing comes out only where a seed was drawn that the batch cannot be randomized
    /// with. There is no such seed for a batch of no tokens, which is always randomized.
    fn randomize(unsigned_token: &NizkpUnsignedTokenBatched<N>) -> (out: Option<
        ([u8; 32], RandomizedUnsignedTokenBatched<N>),
    >)
        ensures
            out is None ==> exists|seed: Seq<u8>|
                seed.len() == 32 && #[trigger] spec_randomize_with_seed(unsigned_token@, seed)
                    is None,
            N == 0 ==> out is Some,
    {
        let mut round: usize = 0;
        let ghost mut refused: Seq<u8> = Seq::empty();
        while round < SAMPLING_ROUNDS
            invariant
                round <= SAMPLING_ROUNDS,
                round > 0 ==> refused.len() == 32 && spec_randomize_with_seed(
                    unsigned_token@,
                    refused,
                ) is None,
            decreases SAMPLING_ROUNDS - round,
        {
            let mut randomization = [0u8; 32];
            fill_bytes(&mut randomization);
            match unsigned_token.randomize_with_seed(&randomization) {
                Some(randomized) => {
                    return Some((randomization, randomized));
                },
                None => {
                    proof {
                        refused = randomization@;
                    }
                },
            }
            round += 1;
        }
        proof {
            if N == 0 {
                lemma_empty_batch_is_randomized(unsigned_token@, refused);
            }
        }
        None
    }

    fn verify_signature_and_unrandomize(
        unsigned_token: NizkpUnsignedTokenBatched<N>,
        randomized_unsigned_token: RandomizedUnsignedTokenBatched<N>,
        signed_token: RandomizedSignedTokenBatched<N>,
        verification_data: &PublicKey,
        randomization: [u8; 32],
    ) -> (out: Option<NizkpSignedTokenBatched<N>>) {
        match hash_to_scalar(unsigned_token.metadata.as_slice()) {
            None => None,
            Some(d) => {
                // get the public key
                let u = AffinePoint::mul_base(&d).add(&verification_data.to_affine());

                // verify proof
                if signed_token.proof.verify(
                    &randomized_unsigned_token.points,
                    &signed_token.points,
                    u,
                ) {
                    // Remove randomization
                    match seeded_scalars(&randomization, N) {
                        None => None,
                        Some(scalars) => {
                            let mut points: Vec<AffinePoint> = Vec::new();
                            let mut i: usize = 0;
                            while i < N
                                invariant
                                    i <= N,
                                    scalars@.len() == N,
                                    points@.len() == i,
                                    forall|j: int|
                                        0 <= j < i ==> (#[trigger] points@[j])@ == point_product(
                                            signed_token.points@[j]@,
                                            scalars@[j]@,
                                        ),
                                decreases N - i,
                            {
                                points.push(signed_token.points[i].mul(&scalars[i]));
                                i += 1;
                            }
                            proof {
                                assert(point_encodings(points@) =~= scaled(
                                    signed_token@.points,
                                    scalar_values(scalars@),
                                ));
                            }
                            Some(
                                NizkpSignedTokenBatched {
                                    points: into_array(points),
                                    metadata: unsigned_token.metadata,
                                    ids: unsigned_token.ids,
                                },
                            )
                        },
                    }
                } else {
                    None
                }
            },
        }
    }

    /// The inverse is taken, every point multiplied and the proof made whatever the key:
    /// whether the key could be used shows in the presence bit alone.
    fn sign_randomized(t_prime: &RandomizedUnsignedTokenBatched<N>, sign_key: &PrivateKey) -> (signed:
        CtOption<RandomizedSignedTokenBatched<N>>) {
        match hash_to_scalar(t_prime.metadata.as_slice()) {
            None => CtOption::new(absent_batch::<N>(), 0),
            Some(d) => {
                let exponent = d.add(&sign_key.to_scalar());
                let e = exponent.invert();
                let present: u8 = e.mask();
                // list of W'
                let mut w_prime_list: Vec<AffinePoint> = Vec::new();
                let mut i: usize = 0;
                while i < N
                    invariant
                        i <= N,
                        w_prime_list@.len() == i,
                        forall|j: int|
                            0 <= j < i ==> (#[trigger] w_prime_list@[j])@ == point_product(
                                t_prime.points@[j]@,
                                e.inner()@,
                            ),
                    decreases N - i,
                {
                    w_prime_list.push(t_prime.points[i].mul(e.value_ref()));
                    i += 1;
                }
                let w_prime_list: [AffinePoint; N] = into_array(w_prime_list);
                match DLEQProofBatched::create(
                    t_prime.points.as_slice(),
                    w_prime_list.as_slice(),
                    exponent,
                ) {
                    None => CtOption::new(absent_batch::<N>(), 0),
                    Some(dleq) => {
                        let token = RandomizedSignedTokenBatched { points: w_prime_list, proof: dleq };
                        proof {
                            if present == 1 {
                                let r = choose|r: nat|
                                    r < group_order() && #[trigger] spec_create_batched(
                                        point_encodings(t_prime.points@),
                                        point_encodings(w_prime_list@),
                                        exponent@,
                                        r,
                                    ) == Some(dleq@);
                                let inverse = inverse_mod(exponent@, group_order());
                                assert(point_encodings(w_prime_list@) =~= Seq::new(
                                    t_prime@.points.len(),
                                    |i: int| point_product(t_prime@.points[i], inverse),
                                ));
                                assert(signed_with_nonce(t_prime@, sign_key@, r, token@));
                            }
                        }
                        CtOption::new(token, present)
                    },
                }
            },
        }
    }
}

/// The value of a signer's answer that is not present: identities, with a proof of zeros.
fn absent_batch<const N: usize>() -> (out: RandomizedSignedTokenBatched<N>)
    ensures
        out@ == (BatchedRandomizedSignedModel {
            points: Seq::new(N as nat, |i: int| identity_encoding()),
            proof: ProofModel { c: 0, z: 0 },
        }),
{
    let mut points: Vec<AffinePoint> = Vec::new();
    let mut i: usize = 0;
    while i < N
        invariant
            i <= N,
            points@.len() == i,
            forall|j: int| 0 <= j < i ==> (#[trigger] points@[j])@ == identity_encoding(),
        decreases N - i,
    {
        points.push(AffinePoint::identity());
        i += 1;
    }
    let out = RandomizedSignedTokenBatched {
        points: into_array(points),
        proof: DLEQProofBatched::from_proof(DLEQProof::from_scalars(Scalar::zero(), Scalar::zero())),
    };
    assert(out@.points =~= Seq::new(N as nat, |i: int| identity_encoding()));
    out
}

} // verus!
