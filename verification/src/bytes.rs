//! Byte strings as numbers, and the few operations on byte strings that the protocols need.

use vstd::prelude::*;

verus! {

/// The number that `bytes` spells in little-endian order.
pub open spec fn le_value(bytes: Seq<u8>) -> nat
    decreases bytes.len(),
{
    if bytes.len() == 0 {
        0
    } else {
        bytes[0] as nat + 256 * le_value(bytes.drop_first())
    }
}

/// Two byte strings of one length that spell the same number are the same string.
pub proof fn lemma_le_value_injective(a: Seq<u8>, b: Seq<u8>)
    requires
        a.len() == b.len(),
        le_value(a) == le_value(b),
    ensures
        a == b,
    decreases a.len(),
{
    if a.len() == 0 {
        assert(a =~= b);
    } else {
        let ra = le_value(a.drop_first());
        let rb = le_value(b.drop_first());
        assert(a[0] as nat + 256 * ra == b[0] as nat + 256 * rb);
        assert(a[0] == b[0] && ra == rb) by {
            assert((a[0] as nat + 256 * ra) % 256 == a[0] as nat) by {
                vstd::arithmetic::div_mod::lemma_mod_multiples_vanish(ra as int, a[0] as int, 256);
            }
            assert((b[0] as nat + 256 * rb) % 256 == b[0] as nat) by {
                vstd::arithmetic::div_mod::lemma_mod_multiples_vanish(rb as int, b[0] as int, 256);
            }
        }
        lemma_le_value_injective(a.drop_first(), b.drop_first());
        assert(a =~= seq![a[0]] + a.drop_first());
        assert(b =~= seq![b[0]] + b.drop_first());
    }
}

/// The number that `bytes` spells in big-endian order.
pub open spec fn be_value(bytes: Seq<u8>) -> nat
    decreases bytes.len(),
{
    if bytes.len() == 0 {
        0
    } else {
        256 * be_value(bytes.drop_last()) + bytes.last() as nat
    }
}

/// Two byte strings of one length that spell the same number in big-endian order are the same
/// string.
pub proof fn lemma_be_value_injective(a: Seq<u8>, b: Seq<u8>)
    requires
        a.len() == b.len(),
        be_value(a) == be_value(b),
    ensures
        a == b,
    decreases a.len(),
{
    if a.len() == 0 {
        assert(a =~= b);
    } else {
        let ra = be_value(a.drop_last());
        let rb = be_value(b.drop_last());
        assert(256 * ra + a.last() as nat == 256 * rb + b.last() as nat);
        assert(a.last() == b.last() && ra == rb) by {
            assert((a.last() as nat + 256 * ra) % 256 == a.last() as nat) by {
                vstd::arithmetic::div_mod::lemma_mod_multiples_vanish(
                    ra as int,
                    a.last() as int,
                    256,
                );
            }
            assert((b.last() as nat + 256 * rb) % 256 == b.last() as nat) by {
                vstd::arithmetic::div_mod::lemma_mod_multiples_vanish(
                    rb as int,
                    b.last() as int,
                    256,
                );
            }
        }
        lemma_be_value_injective(a.drop_last(), b.drop_last());
        assert(a =~= a.drop_last().push(a.last()));
        assert(b =~= b.drop_last().push(b.last()));
    }
}

/// Zeros spell zero.
pub proof fn lemma_zeros_spell_zero(bytes: Seq<u8>)
    requires
        forall|i: int| 0 <= i < bytes.len() ==> bytes[i] == 0,
    ensures
        be_value(bytes) == 0,
    decreases bytes.len(),
{
    if bytes.len() > 0 {
        lemma_zeros_spell_zero(bytes.drop_last());
    }
}

/// Appends `tail` to `buf`.
pub fn append(buf: &mut Vec<u8>, tail: &[u8])
    ensures
        final(buf)@ == old(buf)@ + tail@,
{
    let ghost start = buf@;
    let mut i: usize = 0;
    while i < tail.len()
        invariant
            i <= tail@.len(),
            buf@ == start + tail@.subrange(0, i as int),
        decreases tail@.len() - i,
    {
        buf.push(tail[i]);
        i += 1;
        assert(tail@.subrange(0, i as int) =~= tail@.subrange(0, i - 1).push(tail@[i - 1]));
    }
    assert(tail@.subrange(0, i as int) =~= tail@);
}

/// The concatenation of two byte strings.
pub fn concat(head: &[u8], tail: &[u8]) -> (out: Vec<u8>)
    ensures
        out@ == head@ + tail@,
{
    let mut out: Vec<u8> = Vec::new();
    append(&mut out, head);
    append(&mut out, tail);
    assert(out@ =~= head@ + tail@);
    out
}

/// Whether two byte strings are the same. Strings of one length are compared byte by byte
/// to the end, whatever the bytes are.
pub fn same_bytes(a: &[u8], b: &[u8]) -> (same: bool)
    ensures
        same == (a@ == b@),
{
    if a.len() != b.len() {
        return false;
    }
    let mut acc: u8 = 0;
    let mut i: usize = 0;
    assert(a@.subrange(0, 0) =~= b@.subrange(0, 0));
    while i < a.len()
        invariant
            i <= a@.len(),
            a@.len() == b@.len(),
            (acc == 0) == (a@.subrange(0, i as int) == b@.subrange(0, i as int)),
        decreases a@.len() - i,
    {
        let left: u8 = a[i];
        let right: u8 = b[i];
        let x: u8 = left ^ right;
        assert((x == 0) == (left == right)) by (bit_vector)
            requires x == left ^ right;
        let next: u8 = acc | x;
        assert((next == 0) == (acc == 0 && x == 0)) by (bit_vector)
            requires next == acc | x;
        proof {
            let pa = a@.subrange(0, i as int);
            let pb = b@.subrange(0, i as int);
            let na = a@.subrange(0, i + 1);
            let nb = b@.subrange(0, i + 1);
            assert(na =~= pa.push(a@[i as int]));
            assert(nb =~= pb.push(b@[i as int]));
            if na == nb {
                assert(na.drop_last() == nb.drop_last());
                assert(pa =~= na.drop_last());
                assert(pb =~= nb.drop_last());
                assert(na.last() == nb.last());
            }
        }
        acc = next;
        i += 1;
    }
    assert(a@.subrange(0, i as int) =~= a@);
    assert(b@.subrange(0, i as int) =~= b@);
    acc == 0
}

} // verus!
