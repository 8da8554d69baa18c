//! Points of secp256k1, random scalars and the two random oracles.

use vstd::prelude::*;
use vstd::std_specs::cmp::PartialEqSpecImpl;
use vstd::string::StringSliceAdditionalSpecFns;
use crate::bytes::{be_value, concat, same_bytes};
use crate::common::fill_bytes;
use crate::hashing::{sha256, sha256_digest};
use crate::stream::{fill_32, filled_bytes};
use super::backend::{
    generator_encoding, group_order, identity_encoding, point_add, point_check, point_decodes,
    point_generator, point_hash, point_hash_to_curve, point_identity, point_mul, point_product,
    point_sum,
};
use super::scalar::Scalar;

verus! {

/// How often a draw or a digest that is not below the group order is replaced by the next one
/// before the attempt is given up. All but one in 2^128 are below it, so giving up is not
/// expected to be seen.
pub const SAMPLING_ROUNDS: usize = 256;

/// A point of secp256k1, held in the 33 bytes of its compressed encoding.
#[derive(Clone, Copy, Debug)]
pub struct AffinePoint {
    bytes: [u8; 33],
}

impl View for AffinePoint {
    type V = Seq<u8>;

    /// The encoding of the point.
    closed spec fn view(&self) -> Seq<u8> {
        self.bytes@
    }
}

impl AffinePoint {
    #[verifier::type_invariant]
    spec fn decodes(self) -> bool {
        point_decodes(self.bytes@)
    }

    /// The identity of the group.
    pub fn identity() -> (out: AffinePoint)
        ensures
            out@ == identity_encoding(),
    {
        AffinePoint { bytes: point_identity() }
    }

    /// The generator of the group.
    pub fn generator() -> (out: AffinePoint)
        ensures
            out@ == generator_encoding(),
    {
        AffinePoint { bytes: point_generator() }
    }

    /// The generator times a scalar.
    pub fn mul_base(scalar: &Scalar) -> (out: AffinePoint)
        ensures
            out@ == point_product(generator_encoding(), scalar@),
    {
        AffinePoint::generator().mul(scalar)
    }

    /// Whether `bytes` are the encoding that a point is held in: the compressed encoding of a
    /// point, which begins with 2 or 3, or the 33 zeros of the identity. The group decodes
    /// other encodings of its points too; they are not taken, so that a point has one
    /// encoding.
    pub open spec fn is_encoding(bytes: Seq<u8>) -> bool {
        bytes == identity_encoding() || (point_decodes(bytes) && (bytes[0] == 2 || bytes[0]
            == 3))
    }

    /// The point with the encoding `bytes`, if there is one.
    pub fn from_bytes(bytes: &[u8; 33]) -> (out: Option<AffinePoint>)
        ensures
            out is Some == Self::is_encoding(bytes@),
            out matches Some(p) ==> p@ == bytes@,
    {
        if bytes[0] == 2 || bytes[0] == 3 {
            assert(bytes@ != identity_encoding()) by {
                assert(identity_encoding()[0] == 0);
            }
            if point_check(bytes) {
                Some(AffinePoint { bytes: *bytes })
            } else {
                None
            }
        } else {
            let identity = point_identity();
            if same_bytes(bytes.as_slice(), identity.as_slice()) {
                Some(AffinePoint { bytes: identity })
            } else {
                None
            }
        }
    }

    /// The encoding of the point.
    pub fn to_bytes(&self) -> (out: [u8; 33])
        ensures
            out@ == self@,
            point_decodes(self@),
    {
        proof {
            use_type_invariant(self);
        }
        self.bytes
    }

    /// The point times a scalar.
    pub fn mul(&self, scalar: &Scalar) -> (out: AffinePoint)
        ensures
            out@ == point_product(self@, scalar@),
    {
        proof {
            use_type_invariant(self);
        }
        let s = scalar.to_bytes();
        AffinePoint { bytes: point_mul(&self.bytes, &s) }
    }

    /// The sum of two points.
    pub fn add(&self, other: &AffinePoint) -> (out: AffinePoint)
        ensures
            out@ == point_sum(self@, other@),
    {
        proof {
            use_type_invariant(self);
            use_type_invariant(other);
        }
        AffinePoint { bytes: point_add(&self.bytes, &other.bytes) }
    }
}

/// Two points are the same when their encodings are.
impl PartialEq for AffinePoint {
    fn eq(&self, other: &Self) -> (same: bool) {
        same_bytes(self.bytes.as_slice(), other.bytes.as_slice())
    }
}

impl PartialEqSpecImpl for AffinePoint {
    open spec fn obeys_eq_spec() -> bool {
        true
    }

    open spec fn eq_spec(&self, other: &Self) -> bool {
        self@ == other@
    }
}

/// A scalar drawn uniformly from the generator of the calling thread: 32 random bytes are
/// drawn until they spell a number below the group order. `None` after `SAMPLING_ROUNDS` draws
/// without one.
pub fn gen_vartime() -> (out: Option<Scalar>)
    ensures
        out matches Some(s) ==> s@ < group_order(),
{
    let mut round: usize = 0;
    while round < SAMPLING_ROUNDS
        invariant
            round <= SAMPLING_ROUNDS,
        decreases SAMPLING_ROUNDS - round,
    {
        let mut bytes = [0u8; 32];
        fill_bytes(&mut bytes);
        match Scalar::from_bytes(&bytes) {
            Some(s) => {
                return Some(s);
            },
            None => {},
        }
        round += 1;
    }
    None
}

/// The scalar drawn by rejection from the stream of `seed` from `position` on, within `rounds`
/// draws, with the position after it: the bytes of 8 words are drawn until they spell a number
/// below the group order.
pub open spec fn seeded_vartime(seed: Seq<u8>, position: nat, rounds: nat) -> Option<(nat, nat)>
    decreases rounds,
{
    if rounds == 0 {
        None
    } else {
        let value = be_value(filled_bytes(seed, position, 8));
        if value < group_order() {
            Some((value, position + 8))
        } else {
            seeded_vartime(seed, position + 8, (rounds - 1) as nat)
        }
    }
}

/// The first `count` scalars drawn by rejection from the stream of `seed`, with the position
/// after them. Nothing where one of them is not drawn within `SAMPLING_ROUNDS` draws.
pub open spec fn seeded_draws(seed: Seq<u8>, count: nat) -> Option<(Seq<nat>, nat)>
    decreases count,
{
    if count == 0 {
        Some((Seq::empty(), 0))
    } else {
        match seeded_draws(seed, (count - 1) as nat) {
            None => None,
            Some((drawn, position)) => match seeded_vartime(
                seed,
                position,
                SAMPLING_ROUNDS as nat,
            ) {
                None => None,
                Some((value, next)) => Some((drawn.push(value), next)),
            },
        }
    }
}

/// The first `count` scalars of the stream of `seed`.
pub open spec fn spec_seeded_scalars(seed: Seq<u8>, count: nat) -> Option<Seq<nat>> {
    match seeded_draws(seed, count) {
        None => None,
        Some((drawn, _)) => Some(drawn),
    }
}

/// Draws one scalar by rejection from the stream of `seed` from `position` on.
pub(crate) fn seeded_gen_vartime(seed: &[u8; 32], position: u128) -> (out: Option<(Scalar, u128)>)
    requires
        position + 8 * SAMPLING_ROUNDS <= u128::MAX,
    ensures
        match out {
            Some((s, next)) => seeded_vartime(seed@, position as nat, SAMPLING_ROUNDS as nat)
                == Some((s@, next as nat)) && next <= position + 8 * SAMPLING_ROUNDS,
            None => seeded_vartime(seed@, position as nat, SAMPLING_ROUNDS as nat) is None,
        },
{
    let mut at: u128 = position;
    let mut left: usize = SAMPLING_ROUNDS;
    while left > 0
        invariant
            left <= SAMPLING_ROUNDS,
            at + 8 * left == position + 8 * SAMPLING_ROUNDS,
            position + 8 * SAMPLING_ROUNDS <= u128::MAX,
            seeded_vartime(seed@, position as nat, SAMPLING_ROUNDS as nat) == seeded_vartime(
                seed@,
                at as nat,
                left as nat,
            ),
        decreases left,
    {
        let bytes = fill_32(seed, at);
        match Scalar::from_bytes(&bytes) {
            Some(s) => {
                return Some((s, at + 8));
            },
            None => {},
        }
        at += 8;
        left -= 1;
    }
    None
}

/// The first `count` scalars drawn by rejection from the stream of `seed`. `None` where one
/// of them is not drawn within `SAMPLING_ROUNDS` draws.
pub fn seeded_scalars(seed: &[u8; 32], count: usize) -> (out: Option<Vec<Scalar>>)
    ensures
        match out {
            Some(scalars) => spec_seeded_scalars(seed@, count as nat) == Some(
                scalar_values(scalars@),
            ) && scalars@.len() == count,
            None => spec_seeded_scalars(seed@, count as nat) is None,
        },
{
    let mut scalars: Vec<Scalar> = Vec::new();
    let mut position: u128 = 0;
    let mut i: usize = 0;
    assert(scalar_values(scalars@) =~= Seq::empty());
    while i < count
        invariant
            i <= count,
            scalars@.len() == i,
            position <= i * 2048,
            8 * SAMPLING_ROUNDS == 2048,
            seeded_draws(seed@, i as nat) == Some((scalar_values(scalars@), position as nat)),
        decreases count - i,
    {
        match seeded_gen_vartime(seed, position) {
            None => {
                proof {
                    lemma_draws_stay_undrawn(seed@, (i + 1) as nat, count as nat);
                }
                return None;
            },
            Some((s, next)) => {
                proof {
                    assert(scalar_values(scalars@.push(s)) =~= scalar_values(scalars@).push(s@));
                }
                scalars.push(s);
                position = next;
            },
        }
        i += 1;
    }
    Some(scalars)
}

/// The numbers that scalars stand for.
pub open spec fn scalar_values(scalars: Seq<Scalar>) -> Seq<nat> {
    Seq::new(scalars.len(), |i: int| scalars[i]@)
}

/// Where a draw fails, every longer run of draws fails.
proof fn lemma_draws_stay_undrawn(seed: Seq<u8>, failed: nat, count: nat)
    requires
        failed <= count,
        seeded_draws(seed, failed) is None,
    ensures
        seeded_draws(seed, count) is None,
    decreases count - failed,
{
    if failed < count {
        lemma_draws_stay_undrawn(seed, failed, (count - 1) as nat);
    }
}

/// The domain tag of the oracle that hashes to a scalar.
pub open spec fn hash_to_scalar_domain() -> Seq<u8> {
    "This is hash_to_scalar hash".spec_bytes()
}

/// The scalar that `data` hashes to within `rounds` digests: the SHA-256 digest of the domain
/// tag and `data`, read as a big-endian number, if that number is below the group order; else
/// what the digest itself hashes to within one round less.
pub open spec fn hashed_scalar(data: Seq<u8>, rounds: nat) -> Option<nat>
    decreases rounds,
{
    if rounds == 0 {
        None
    } else {
        let digest = sha256_digest(hash_to_scalar_domain() + data);
        if be_value(digest) < group_order() {
            Some(be_value(digest))
        } else {
            hashed_scalar(digest, (rounds - 1) as nat)
        }
    }
}

/// The scalar that bytes hash to.
pub open spec fn spec_hash_to_scalar(data: Seq<u8>) -> Option<nat> {
    hashed_scalar(data, SAMPLING_ROUNDS as nat)
}

/// Hashes bytes to a scalar, uniformly and in variable time. `None` where `SAMPLING_ROUNDS`
/// digests in a row are not below the group order.
pub fn hash_to_scalar(data: &[u8]) -> (out: Option<Scalar>)
    ensures
        match out {
            Some(s) => spec_hash_to_scalar(data@) == Some(s@),
            None => spec_hash_to_scalar(data@) is None,
        },
{
    let mut digest = sha256(concat("This is hash_to_scalar hash".as_bytes(), data).as_slice());
    let ghost mut hashed = data@;
    let mut left: usize = SAMPLING_ROUNDS;
    loop
        invariant
            1 <= left <= SAMPLING_ROUNDS,
            digest@ == sha256_digest(hash_to_scalar_domain() + hashed),
            spec_hash_to_scalar(data@) == hashed_scalar(hashed, left as nat),
        decreases left,
    {
        match Scalar::from_bytes(&digest) {
            Some(s) => {
                return Some(s);
            },
            None => {},
        }
        if left == 1 {
            assert(hashed_scalar(digest@, 0) is None);
            return None;
        }
        proof {
            hashed = digest@;
        }
        left -= 1;
        digest = sha256(concat("This is hash_to_scalar hash".as_bytes(), digest.as_slice()).as_slice());
    }
}

/// The domain separation tag of the oracle that hashes to the group.
pub open spec fn h_t_domain() -> Seq<u8> {
    "This is h_t hash".spec_bytes()
}

/// The encoding of the point that a tag and metadata hash to: the hash to the curve of the
/// tag followed by the metadata.
pub open spec fn spec_h_t(t: Seq<u8>, m: Seq<u8>) -> Seq<u8> {
    point_hash(t + m, h_t_domain())
}

/// Hashes a tag and metadata to a point, by the hash to the curve that the suite
/// `secp256k1_XMD:SHA-256_SSWU_RO_` defines: the message is expanded with SHA-256, mapped to
/// the curve twice by the simplified SWU map, and the two points are added.
pub fn h_t(t: &[u8], m: &[u8]) -> (out: AffinePoint)
    ensures
        out@ == spec_h_t(t@, m@),
{
    let bytes = concat(t, m);
    AffinePoint { bytes: point_hash_to_curve(bytes.as_slice(), "This is h_t hash".as_bytes()) }
}

} // verus!
