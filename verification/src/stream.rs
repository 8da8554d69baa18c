//! The deterministic generator behind the batched tokens: the ChaCha20 key stream of a 32-byte
//! seed, read by position.
//!
//! Whoever holds the seed derives the same scalars again, so a client keeps the seed and not
//! the scalars, and a signer and a client derive the same coefficients from one transcript.

use vstd::prelude::*;
use rand::{RngCore, SeedableRng};

verus! {

/// The 32-bit word at `position` of the ChaCha20 key stream that `seed` keys. The stream
/// comes round after 2^68 words.
pub uninterp spec fn chacha20_word(seed: Seq<u8>, position: nat) -> u32;

/// `rand_chacha::ChaCha20Rng` seeded with `seed` and set to the word `position`: its next
/// word. It is a function of the seed and the position alone.
#[verifier::external_body]
pub(crate) fn stream_word(seed: &[u8; 32], position: u128) -> (word: u32)
    ensures
        word == chacha20_word(seed@, position as nat),
{
    let mut rng = rand_chacha::ChaCha20Rng::from_seed(*seed);
    rng.set_word_pos(position);
    rng.next_u32()
}

/// `count` bytes drawn one at a time from `position` on: each is the low byte of one word.
pub open spec fn drawn_bytes(seed: Seq<u8>, position: nat, count: nat) -> Seq<u8> {
    Seq::new(count, |i: int| (chacha20_word(seed, (position + i) as nat) % 256) as u8)
}

/// The bytes of `words` words from `position` on, each word in little-endian order.
pub open spec fn filled_bytes(seed: Seq<u8>, position: nat, words: nat) -> Seq<u8> {
    Seq::new(
        4 * words,
        |i: int|
            ((chacha20_word(seed, (position + i / 4) as nat) as nat / byte_weight(i % 4)) % 256) as u8,
    )
}

/// The weight of the byte at place `place` of a little-endian word.
pub open spec fn byte_weight(place: int) -> nat {
    if place == 0 {
        1
    } else if place == 1 {
        0x100
    } else if place == 2 {
        0x1_0000
    } else {
        0x100_0000
    }
}

/// Draws 32 bytes one at a time from `position` on.
pub(crate) fn draw_32(seed: &[u8; 32], position: u128) -> (out: [u8; 32])
    requires
        position + 32 <= u128::MAX,
    ensures
        out@ == drawn_bytes(seed@, position as nat, 32),
{
    let mut out = [0u8; 32];
    let mut i: usize = 0;
    while i < 32
        invariant
            i <= 32,
            position + 32 <= u128::MAX,
            forall|j: int|
                0 <= j < i ==> out@[j] == (chacha20_word(seed@, (position + j) as nat)
                    % 256) as u8,
        decreases 32 - i,
    {
        let word = stream_word(seed, position + i as u128);
        out[i] = (word % 256) as u8;
        i += 1;
    }
    assert(out@ =~= drawn_bytes(seed@, position as nat, 32));
    out
}

/// Fills 32 bytes with the 8 words from `position` on.
pub(crate) fn fill_32(seed: &[u8; 32], position: u128) -> (out: [u8; 32])
    requires
        position + 8 <= u128::MAX,
    ensures
        out@ == filled_bytes(seed@, position as nat, 8),
{
    let mut out = [0u8; 32];
    let mut i: usize = 0;
    while i < 8
        invariant
            i <= 8,
            position + 8 <= u128::MAX,
            forall|j: int|
                0 <= j < 4 * i ==> out@[j] == ((chacha20_word(seed@, (position + j / 4) as nat) as nat
                    / byte_weight(j % 4)) % 256) as u8,
        decreases 8 - i,
    {
        let word = stream_word(seed, position + i as u128);
        out[4 * i] = (word % 256) as u8;
        out[4 * i + 1] = ((word / 0x100) % 256) as u8;
        out[4 * i + 2] = ((word / 0x1_0000) % 256) as u8;
        out[4 * i + 3] = ((word / 0x100_0000) % 256) as u8;
        i += 1;
    }
    assert(out@ =~= filled_bytes(seed@, position as nat, 8));
    out
}

/// Fills 64 bytes with the 16 words from `position` on.
pub(crate) fn fill_64(seed: &[u8; 32], position: u128) -> (out: [u8; 64])
    requires
        position + 16 <= u128::MAX,
    ensures
        out@ == filled_bytes(seed@, position as nat, 16),
{
    let mut out = [0u8; 64];
    let mut i: usize = 0;
    while i < 16
        invariant
            i <= 16,
            position + 16 <= u128::MAX,
            forall|j: int|
                0 <= j < 4 * i ==> out@[j] == ((chacha20_word(seed@, (position + j / 4) as nat) as nat
                    / byte_weight(j % 4)) % 256) as u8,
        decreases 16 - i,
    {
        let word = stream_word(seed, position + i as u128);
        out[4 * i] = (word % 256) as u8;
        out[4 * i + 1] = ((word / 0x100) % 256) as u8;
        out[4 * i + 2] = ((word / 0x1_0000) % 256) as u8;
        out[4 * i + 3] = ((word / 0x100_0000) % 256) as u8;
        i += 1;
    }
    assert(out@ =~= filled_bytes(seed@, position as nat, 16));
    out
}

} // verus!
