//! Random scalars, the two random oracles, and points of G1.

use vstd::prelude::*;
use vstd::std_specs::cmp::PartialEqSpecImpl;
use vstd::string::StringSliceAdditionalSpecFns;
use crate::bytes::{concat, le_value, same_bytes};
use crate::common::{fill_bytes, DecodeError, Field};
use crate::hashing::{sha256, sha256_digest};
use crate::stream::{draw_32, drawn_bytes};
use super::backend::{
    g1_add, g1_check, g1_decodes, g1_hash, g1_hash_to_curve, g1_identity, g1_identity_encoding,
    g1_mul, g1_product, g1_sum, group_order,
};
use super::scalar::Scalar;

verus! {

/// How often a draw or a digest that is not below the group order is replaced by the next one
/// before the attempt is given up. One in two is below it, so giving up is not expected to be
/// seen.
pub const SAMPLING_ROUNDS: usize = 256;

/// A scalar drawn uniformly from the generator of the calling thread: 32 random bytes are
/// drawn until they spell a number below the group order. `None` after `SAMPLING_ROUNDS` draws
/// without one.
pub fn random_vartime() -> (out: Option<Scalar>)
    ensures
        out matches Some(s) ==> s@ < group_order(),
{
    let mut round: usize = 0;
    while round < SAMPLING_ROUNDS
        invariant
            round <= SAMPLING_ROUNDS,
        decreases SAMPLING_ROUNDS - round,
    {
        let mut rand_bytes = [0u8; 32];
        fill_bytes(&mut rand_bytes);
        match Scalar::from_bytes(&rand_bytes) {
            Some(s) => {
                return Some(s);
            },
            None => {},
        }
        round += 1;
    }
    None
}

/// A scalar from 64 random bytes of the generator of the calling thread, reduced by the group
/// order: not uniform, but as hard to predict.
pub fn random_biased() -> (out: Scalar)
    ensures
        out@ < group_order(),
{
    let mut rand_bytes = [0u8; 64];
    fill_bytes(&mut rand_bytes);
    let s = Scalar::from_bytes_wide(&rand_bytes);
    assert(s@ < group_order()) by {
        vstd::arithmetic::div_mod::lemma_mod_bound(
            le_value(rand_bytes@) as int,
            group_order() as int,
        );
    }
    s
}

/// The scalar drawn by rejection from the stream of `seed` from `position` on, within `rounds`
/// draws, with the position after it: 32 bytes are drawn until they spell a number below the
/// group order.
pub open spec fn seeded_vartime(seed: Seq<u8>, position: nat, rounds: nat) -> Option<(nat, nat)>
    decreases rounds,
{
    if rounds == 0 {
        None
    } else {
        let value = le_value(drawn_bytes(seed, position, 32));
        if value < group_order() {
            Some((value, position + 32))
        } else {
            seeded_vartime(seed, position + 32, (rounds - 1) as nat)
        }
    }
}

/// The first `count` scalars drawn by rejection from the stream of `seed`, with the position
/// after them. Nothing where one of them is not drawn within `SAMPLING_ROUNDS` draws.
pub open spec fn seeded_draws(seed: Seq<u8>, count: nat) -> Option<(Seq<nat>, nat)>
    decreases count,
{
    if count == 0 {
        Some((Seq::empty(), 0))
    } else {
        match seeded_draws(seed, (count - 1) as nat) {
            None => None,
            Some((drawn, position)) => match seeded_vartime(
                seed,
                position,
                SAMPLING_ROUNDS as nat,
            ) {
                None => None,
                Some((value, next)) => Some((drawn.push(value), next)),
            },
        }
    }
}

/// The first `count` scalars of the stream of `seed`.
pub open spec fn spec_seeded_scalars(seed: Seq<u8>, count: nat) -> Option<Seq<nat>> {
    match seeded_draws(seed, count) {
        None => None,
        Some((drawn, _)) => Some(drawn),
    }
}

/// Draws one scalar by rejection from the stream of `seed` from `position` on.
pub(crate) fn seeded_random_vartime(seed: &[u8; 32], position: u128) -> (out: Option<
    (Scalar, u128),
>)
    requires
        position + 32 * SAMPLING_ROUNDS <= u128::MAX,
    ensures
        match out {
            Some((s, next)) => seeded_vartime(seed@, position as nat, SAMPLING_ROUNDS as nat)
                == Some((s@, next as nat)) && next <= position + 32 * SAMPLING_ROUNDS,
            None => seeded_vartime(seed@, position as nat, SAMPLING_ROUNDS as nat) is None,
        },
{
    let mut at: u128 = position;
    let mut left: usize = SAMPLING_ROUNDS;
    while left > 0
        invariant
            left <= SAMPLING_ROUNDS,
            at + 32 * left == position + 32 * SAMPLING_ROUNDS,
            position + 32 * SAMPLING_ROUNDS <= u128::MAX,
            seeded_vartime(seed@, position as nat, SAMPLING_ROUNDS as nat) == seeded_vartime(
                seed@,
                at as nat,
                left as nat,
            ),
        decreases left,
    {
        let rand_bytes = draw_32(seed, at);
        match Scalar::from_bytes(&rand_bytes) {
            Some(s) => {
                return Some((s, at + 32));
            },
            None => {},
        }
        at += 32;
        left -= 1;
    }
    None
}

/// The first `count` scalars drawn by rejection from the stream of `seed`. `None` where one
/// of them is not drawn within `SAMPLING_ROUNDS` draws.
pub fn seeded_scalars(seed: &[u8; 32], count: usize) -> (out: Option<Vec<Scalar>>)
    ensures
        match out {
            Some(scalars) => spec_seeded_scalars(seed@, count as nat) == Some(
                scalar_values(scalars@),
            ) && scalars@.len() == count,
            None => spec_seeded_scalars(seed@, count as nat) is None,
        },
{
    let mut scalars: Vec<Scalar> = Vec::new();
    let mut position: u128 = 0;
    let mut i: usize = 0;
    assert(scalar_values(scalars@) =~= Seq::empty());
    while i < count
        invariant
            i <= count,
            scalars@.len() == i,
            position <= i * 8192,
            32 * SAMPLING_ROUNDS == 8192,
            seeded_draws(seed@, i as nat) == Some((scalar_values(scalars@), position as nat)),
        decreases count - i,
    {
        match seeded_random_vartime(seed, position) {
            None => {
                proof {
                    lemma_draws_stay_undrawn(seed@, (i + 1) as nat, count as nat);
                }
                return None;
            },
            Some((s, next)) => {
                proof {
                    assert(scalar_values(scalars@.push(s)) =~= scalar_values(scalars@).push(s@));
                }
                scalars.push(s);
                position = next;
            },
        }
        i += 1;
    }
    Some(scalars)
}

/// The numbers that scalars stand for.
pub open spec fn scalar_values(scalars: Seq<Scalar>) -> Seq<nat> {
    Seq::new(scalars.len(), |i: int| scalars[i]@)
}

/// Where a draw fails, every longer run of draws fails.
proof fn lemma_draws_stay_undrawn(seed: Seq<u8>, failed: nat, count: nat)
    requires
        failed <= count,
        seeded_draws(seed, failed) is None,
    ensures
        seeded_draws(seed, count) is None,
    decreases count - failed,
{
    if failed < count {
        lemma_draws_stay_undrawn(seed, failed, (count - 1) as nat);
    }
}

/// The domain tag of the oracle that hashes to a scalar.
pub open spec fn hash_to_scalar_domain() -> Seq<u8> {
    "This is hash_to_scalar hash".spec_bytes()
}

/// The scalar that `data` hashes to within `rounds` digests: the SHA-256 digest of the domain
/// tag and `data`, read as a little-endian number, if that number is below the group order;
/// else what the digest itself hashes to within one round less.
pub open spec fn hashed_scalar(data: Seq<u8>, rounds: nat) -> Option<nat>
    decreases rounds,
{
    if rounds == 0 {
        None
    } else {
        let digest = sha256_digest(hash_to_scalar_domain() + data);
        if le_value(digest) < group_order() {
            Some(le_value(digest))
        } else {
            hashed_scalar(digest, (rounds - 1) as nat)
        }
    }
}

/// The scalar that metadata hashes to.
pub open spec fn spec_h_m(md: Seq<u8>) -> Option<nat> {
    hashed_scalar(md, SAMPLING_ROUNDS as nat)
}

/// Hashes metadata to a scalar, uniformly and in variable time. `None` where
/// `SAMPLING_ROUNDS` digests in a row are not below the group order.
pub fn h_m(md: &[u8]) -> (out: Option<Scalar>)
    ensures
        match out {
            Some(s) => spec_h_m(md@) == Some(s@),
            None => spec_h_m(md@) is None,
        },
{
    let mut digest = sha256(concat("This is hash_to_scalar hash".as_bytes(), md).as_slice());
    let ghost mut data = md@;
    let mut left: usize = SAMPLING_ROUNDS;
    loop
        invariant
            1 <= left <= SAMPLING_ROUNDS,
            digest@ == sha256_digest(hash_to_scalar_domain() + data),
            spec_h_m(md@) == hashed_scalar(data, left as nat),
        decreases left,
    {
        match Scalar::from_bytes(&digest) {
            Some(s) => {
                return Some(s);
            },
            None => {},
        }
        if left == 1 {
            assert(hashed_scalar(digest@, 0) is None);
            return None;
        }
        proof {
            data = digest@;
        }
        left -= 1;
        digest = sha256(concat("This is hash_to_scalar hash".as_bytes(), digest.as_slice()).as_slice());
    }
}

/// The domain separation tag of the oracle that hashes to G1.
pub open spec fn h_1_domain() -> Seq<u8> {
    "This is h_1 hash to curve thingy".spec_bytes()
}

/// The encoding of the point of G1 that a tag and metadata hash to.
pub open spec fn spec_h_1(t: Seq<u8>, md: Seq<u8>) -> Seq<u8> {
    g1_hash(t + md, h_1_domain())
}

/// Hashes a tag and metadata to a point of G1.
pub fn h_1(t: &[u8], md: &[u8]) -> (out: CurvePoint)
    ensures
        out@ == spec_h_1(t@, md@),
{
    let bytes = concat(t, md);
    let point = g1_hash_to_curve(bytes.as_slice(), "This is h_1 hash to curve thingy".as_bytes());
    CurvePoint { point }
}

/// A point of G1, held in its 48 compressed bytes.
#[derive(Debug)]
pub struct CurvePoint {
    point: [u8; 48],
}

impl View for CurvePoint {
    type V = Seq<u8>;

    /// The compressed encoding of the point.
    closed spec fn view(&self) -> Seq<u8> {
        self.point@
    }
}

/// The name of the one field of a point's record.
pub open spec fn point_field() -> Seq<u8> {
    "point".spec_bytes()
}

impl CurvePoint {
    #[verifier::type_invariant]
    spec fn decodes(self) -> bool {
        g1_decodes(self.point@)
    }

    /// What decoding `bytes` gives: a point with that encoding where they are 48 bytes that
    /// the group accepts, else the error.
    pub open spec fn spec_from_bytes(bytes: Seq<u8>) -> Result<Seq<u8>, DecodeError> {
        if bytes.len() != 48 {
            Err(DecodeError::WrongLength)
        } else if !g1_decodes(bytes) {
            Err(DecodeError::InvalidPoint)
        } else {
            Ok(bytes)
        }
    }

    /// The point at infinity.
    pub fn identity() -> (out: CurvePoint)
        ensures
            out@ == g1_identity_encoding(),
    {
        CurvePoint { point: g1_identity() }
    }

    /// The point with the compressed encoding `bytes`, if there is one.
    pub fn from_compressed(bytes: &[u8; 48]) -> (out: Option<CurvePoint>)
        ensures
            out is Some == g1_decodes(bytes@),
            out matches Some(p) ==> p@ == bytes@,
    {
        if g1_check(bytes) {
            Some(CurvePoint { point: *bytes })
        } else {
            None
        }
    }

    /// The compressed encoding of the point. Decoding it gives the point again.
    pub fn to_compressed(&self) -> (out: [u8; 48])
        ensures
            out@ == self@,
            g1_decodes(self@),
            Self::spec_from_bytes(out@) == Ok::<Seq<u8>, DecodeError>(self@),
    {
        proof {
            use_type_invariant(self);
        }
        self.point
    }

    /// Decodes a point from a byte string of any length.
    pub fn from_bytes(bytes: &[u8]) -> (out: Result<CurvePoint, DecodeError>)
        ensures
            match out {
                Ok(p) => Self::spec_from_bytes(bytes@) == Ok::<Seq<u8>, DecodeError>(p@),
                Err(e) => Self::spec_from_bytes(bytes@) == Err::<Seq<u8>, DecodeError>(e),
            },
    {
        if bytes.len() != 48 {
            return Err(DecodeError::WrongLength);
        }
        let mut point = [0u8; 48];
        let mut i: usize = 0;
        while i < 48
            invariant
                i <= 48,
                bytes@.len() == 48,
                forall|j: int| 0 <= j < i ==> point@[j] == bytes@[j],
            decreases 48 - i,
        {
            point[i] = bytes[i];
            i += 1;
        }
        assert(point@ =~= bytes@);
        match CurvePoint::from_compressed(&point) {
            Some(p) => Ok(p),
            None => Err(DecodeError::InvalidPoint),
        }
    }

    /// The record of the point: one field, named `point`, with the compressed encoding.
    /// Decoding it gives the point again.
    pub fn to_record(&self) -> (out: Vec<Field>)
        ensures
            out@.len() == 1,
            out@[0]@ == (point_field(), self@),
            Self::spec_from_record(out@) == Ok::<Seq<u8>, DecodeError>(self@),
    {
        let mut out: Vec<Field> = Vec::new();
        out.push(Field::new("point".as_bytes(), self.to_compressed().as_slice()));
        proof {
            crate::common::lemma_record_of_one_field(out@, point_field());
        }
        out
    }

    /// Decodes a point from the fields of a record, in the order in which they were read.
    pub fn from_record(fields: &[Field]) -> (out: Result<CurvePoint, DecodeError>)
        ensures
            match out {
                Ok(p) => Self::spec_from_record(fields@) == Ok::<Seq<u8>, DecodeError>(p@),
                Err(e) => Self::spec_from_record(fields@) == Err::<Seq<u8>, DecodeError>(e),
            },
    {
        match crate::common::single_field(fields, "point".as_bytes()) {
            Err(e) => Err(e),
            Ok(index) => CurvePoint::from_bytes(fields[index].value.as_slice()),
        }
    }

    /// What decoding a record gives: the error of the first field that is not the one field
    /// or comes a second time; else the error of a record without that field; else what its
    /// bytes decode to.
    pub open spec fn spec_from_record(fields: Seq<Field>) -> Result<Seq<u8>, DecodeError> {
        match crate::common::spec_single_field(fields, point_field()) {
            Err(e) => Err(e),
            Ok(index) => Self::spec_from_bytes(fields[index]@.1),
        }
    }

    /// The point times a scalar.
    pub fn mul(&self, scalar: &Scalar) -> (out: CurvePoint)
        ensures
            out@ == g1_product(self@, scalar@),
    {
        proof {
            use_type_invariant(self);
        }
        let s = scalar.to_bytes();
        CurvePoint { point: g1_mul(&self.point, &s) }
    }

    /// The sum of two points.
    pub fn add(&self, other: &CurvePoint) -> (out: CurvePoint)
        ensures
            out@ == g1_sum(self@, other@),
    {
        proof {
            use_type_invariant(self);
            use_type_invariant(other);
        }
        CurvePoint { point: g1_add(&self.point, &other.point) }
    }
}

impl Clone for CurvePoint {
    fn clone(&self) -> (out: Self)
        ensures
            out@ == self@,
    {
        proof {
            use_type_invariant(self);
        }
        CurvePoint { point: self.point }
    }
}

impl PartialEq for CurvePoint {
    fn eq(&self, other: &Self) -> (same: bool) {
        same_bytes(self.point.as_slice(), other.point.as_slice())
    }
}

impl PartialEqSpecImpl for CurvePoint {
    open spec fn obeys_eq_spec() -> bool {
        true
    }

    open spec fn eq_spec(&self, other: &Self) -> bool {
        self@ == other@
    }
}

} // verus!
