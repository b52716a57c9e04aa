//! The building blocks of the wire format: fixed-width numbers, flags and
//! optional identities, each with the proof that its encoding can be read
//! back in one way only.

use crate::network::clientid::ClientId;
use vstd::prelude::*;

verus! {

/// A `u32` as four bytes, most significant first.
#[verifier::opaque]
pub open spec fn be32(x: u32) -> Seq<u8> {
    seq![
        (x / 0x100_0000) as u8,
        ((x / 0x1_0000) % 0x100) as u8,
        ((x / 0x100) % 0x100) as u8,
        (x % 0x100) as u8,
    ]
}

/// The number that four bytes spell, most significant first.
pub open spec fn be32_value(b0: u8, b1: u8, b2: u8, b3: u8) -> u32 {
    (b0 as int * 0x100_0000 + b1 as int * 0x1_0000 + b2 as int * 0x100 + b3 as int) as u32
}

/// A flag as one byte: 0 for `false`, 1 for `true`.
pub open spec fn flag(b: bool) -> Seq<u8> {
    seq![
        if b {
            1u8
        } else {
            0u8
        },
    ]
}

/// An optional identity: the byte 0 alone, or the byte 1 and the identity.
pub open spec fn identity(id: Option<ClientId>) -> Seq<u8> {
    match id {
        None => seq![0u8],
        Some(id) => seq![1u8] + be32(id.0),
    }
}

/// Reading four bytes as a number and writing that number gives the four
/// bytes back.
pub proof fn lemma_be32_of_value(b0: u8, b1: u8, b2: u8, b3: u8)
    ensures
        be32(be32_value(b0, b1, b2, b3)) == seq![b0, b1, b2, b3],
{
    reveal(be32);
    let x = be32_value(b0, b1, b2, b3);
    let w0 = b0 as u32;
    let w1 = b1 as u32;
    let w2 = b2 as u32;
    let w3 = b3 as u32;
    assert(x == ((w0 << 24) | (w1 << 16) | (w2 << 8) | w3)) by {
        assert((w0 << 24) == w0 * 0x100_0000 && (w1 << 16) == w1 * 0x1_0000 && (w2 << 8) == w2
            * 0x100 && ((w0 << 24) | (w1 << 16) | (w2 << 8) | w3) == (w0 << 24) + (w1 << 16) + (w2
            << 8) + w3) by (bit_vector)
            requires
                w0 < 0x100,
                w1 < 0x100,
                w2 < 0x100,
                w3 < 0x100,
        ;
    }
    assert(x / 0x100_0000 == w0 && (x / 0x1_0000) % 0x100 == w1 && (x / 0x100) % 0x100 == w2 && x
        % 0x100 == w3) by (bit_vector)
        requires
            x == ((w0 << 24) | (w1 << 16) | (w2 << 8) | w3),
            w0 < 0x100,
            w1 < 0x100,
            w2 < 0x100,
            w3 < 0x100,
    ;
    assert(be32(x) =~= seq![b0, b1, b2, b3]);
}

/// Writing a number and reading the four bytes gives the number back.
pub proof fn lemma_value_of_be32(x: u32)
    ensures
        be32(x).len() == 4,
        be32_value(be32(x)[0], be32(x)[1], be32(x)[2], be32(x)[3]) == x,
{
    reveal(be32);
    let w0 = x / 0x100_0000;
    let w1 = (x / 0x1_0000) % 0x100;
    let w2 = (x / 0x100) % 0x100;
    let w3 = x % 0x100;
    assert(w0 < 0x100 && w1 < 0x100 && w2 < 0x100 && w3 < 0x100 && x == ((w0 << 24) | (w1 << 16) | (
    w2 << 8) | w3) && (w0 << 24) == w0 * 0x100_0000 && (w1 << 16) == w1 * 0x1_0000 && (w2 << 8)
        == w2 * 0x100 && ((w0 << 24) | (w1 << 16) | (w2 << 8) | w3) == (w0 << 24) + (w1 << 16) + (w2
        << 8) + w3) by (bit_vector)
        requires
            w0 == x / 0x100_0000,
            w1 == (x / 0x1_0000) % 0x100,
            w2 == (x / 0x100) % 0x100,
            w3 == x % 0x100,
    ;
}

/// Two numbers with the same four bytes are the same number.
pub proof fn lemma_be32_injective(x: u32, y: u32)
    requires
        be32(x) == be32(y),
    ensures
        x == y,
{
    lemma_value_of_be32(x);
    lemma_value_of_be32(y);
}

/// The number spelled by the four bytes of `b` that start at `at`.
pub open spec fn be32_at(b: Seq<u8>, at: int) -> u32 {
    be32_value(b[at], b[at + 1], b[at + 2], b[at + 3])
}

/// The number read at `at` spells the four bytes found there.
pub proof fn lemma_be32_at(b: Seq<u8>, at: int)
    requires
        0 <= at,
        at + 4 <= b.len(),
    ensures
        be32(be32_at(b, at)) == b.subrange(at, at + 4),
{
    lemma_be32_of_value(b[at], b[at + 1], b[at + 2], b[at + 3]);
    assert(b.subrange(at, at + 4) =~= seq![b[at], b[at + 1], b[at + 2], b[at + 3]]);
}

/// A number written between two runs of bytes is read back where the first
/// run ends.
pub proof fn lemma_be32_at_concat(pre: Seq<u8>, x: u32, post: Seq<u8>)
    ensures
        be32_at(pre + be32(x) + post, pre.len() as int) == x,
{
    lemma_value_of_be32(x);
    let b = pre + be32(x) + post;
    let at = pre.len() as int;
    assert(b[at] == be32(x)[0]);
    assert(b[at + 1] == be32(x)[1]);
    assert(b[at + 2] == be32(x)[2]);
    assert(b[at + 3] == be32(x)[3]);
}

/// Appends the four bytes of `x` to `out`.
pub fn push_be32(out: &mut Vec<u8>, x: u32)
    ensures
        final(out)@ == old(out)@ + be32(x),
{
    out.push((x / 0x100_0000) as u8);
    out.push(((x / 0x1_0000) % 0x100) as u8);
    out.push(((x / 0x100) % 0x100) as u8);
    out.push((x % 0x100) as u8);
    proof {
        reveal(be32);
    }
    assert(out@ =~= old(out)@ + be32(x));
}

/// Reads the number spelled by the four bytes of `bytes` that start at `at`.
pub fn read_be32(bytes: &[u8], at: usize) -> (x: u32)
    requires
        at + 4 <= bytes@.len(),
    ensures
        be32(x) == bytes@.subrange(at as int, at + 4),
        x == be32_at(bytes@, at as int),
{
    let b0: u32 = bytes[at] as u32;
    let b1: u32 = bytes[at + 1] as u32;
    let b2: u32 = bytes[at + 2] as u32;
    let b3: u32 = bytes[at + 3] as u32;
    let x: u32 = b0 * 0x100_0000 + b1 * 0x1_0000 + b2 * 0x100 + b3;
    proof {
        lemma_be32_of_value(bytes@[at as int], bytes@[at + 1], bytes@[at + 2], bytes@[at + 3]);
        assert(bytes@.subrange(at as int, at + 4) =~= seq![
            bytes@[at as int],
            bytes@[at + 1],
            bytes@[at + 2],
            bytes@[at + 3],
        ]);
    }
    x
}

/// Appends the byte of a flag to `out`.
pub fn push_flag(out: &mut Vec<u8>, b: bool)
    ensures
        final(out)@ == old(out)@ + flag(b),
{
    out.push(if b { 1u8 } else { 0u8 });
    assert(out@ =~= old(out)@ + flag(b));
}

/// Appends an optional identity to `out`.
pub fn push_identity(out: &mut Vec<u8>, id: Option<ClientId>)
    ensures
        final(out)@ == old(out)@ + identity(id),
{
    match id {
        None => {
            out.push(0u8);
            assert(out@ =~= old(out)@ + identity(id));
        },
        Some(c) => {
            out.push(1u8);
            push_be32(out, c.0);
            proof {
                lemma_value_of_be32(c.0);
            }
            assert(out@ =~= old(out)@ + identity(id));
        },
    }
}

/// Appends every byte of `src` to `out`.
pub fn push_bytes(out: &mut Vec<u8>, src: &[u8])
    ensures
        final(out)@ == old(out)@ + src@,
{
    let mut i: usize = 0;
    while i < src.len()
        invariant
            i <= src@.len(),
            out@ == old(out)@ + src@.subrange(0, i as int),
        decreases src@.len() - i,
    {
        out.push(src[i]);
        i += 1;
        assert(out@ =~= old(out)@ + src@.subrange(0, i as int));
    }
    assert(src@.subrange(0, i as int) =~= src@);
}

/// A vector with the bytes of `src`.
pub fn copy_bytes(src: &[u8]) -> (out: Vec<u8>)
    ensures
        out@ == src@,
{
    let mut out: Vec<u8> = Vec::new();
    push_bytes(&mut out, src);
    assert(out@ =~= src@);
    out
}

} // verus!
