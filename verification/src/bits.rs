//! Word-level helpers: rotation and big-endian packing.
use vstd::prelude::*;

verus! {

/// `x` rotated left by `n` bit positions; only `n` modulo 32 counts.
pub open spec fn rotl(x: u32, n: u32) -> u32 {
    if n % 32 == 0 {
        x
    } else {
        (x << (n % 32)) | (x >> ((32 - n % 32) as u32))
    }
}

/// Rotates `x` left by `n` bit positions.
pub fn rotate_left(x: u32, n: u32) -> (r: u32)
    ensures
        r == rotl(x, n),
{
    let k: u32 = n % 32;
    if k == 0 {
        x
    } else {
        (x << k) | (x >> (32 - k))
    }
}

/// The 32-bit word whose big-endian bytes are `b0, b1, b2, b3`.
pub open spec fn be_word(b0: u8, b1: u8, b2: u8, b3: u8) -> u32 {
    (b0 as int * 0x100_0000 + b1 as int * 0x1_0000 + b2 as int * 0x100 + b3 as int) as u32
}

/// Packs four bytes, most significant first, into a word.
pub fn word_from_be(b0: u8, b1: u8, b2: u8, b3: u8) -> (w: u32)
    ensures
        w == be_word(b0, b1, b2, b3),
{
    let w: u32 = ((b0 as u32) << 24) | ((b1 as u32) << 16) | ((b2 as u32) << 8) | (b3 as u32);
    assert(((b0 as u32) << 24) | ((b1 as u32) << 16) | ((b2 as u32) << 8) | (b3 as u32)
        == b0 as u32 * 0x100_0000 + b1 as u32 * 0x1_0000 + b2 as u32 * 0x100 + b3 as u32) by (bit_vector);
    w
}

/// The eight bytes of `n`, most significant first.
pub open spec fn be_bytes64(n: u64) -> Seq<u8> {
    seq![
        (n / 0x100_0000_0000_0000 % 0x100) as u8,
        (n / 0x1_0000_0000_0000 % 0x100) as u8,
        (n / 0x100_0000_0000 % 0x100) as u8,
        (n / 0x1_0000_0000 % 0x100) as u8,
        (n / 0x100_0000 % 0x100) as u8,
        (n / 0x1_0000 % 0x100) as u8,
        (n / 0x100 % 0x100) as u8,
        (n % 0x100) as u8,
    ]
}

/// Appends the eight bytes of `n` to `out`, most significant first.
pub fn push_be_bytes64(out: &mut Vec<u8>, n: u64)
    ensures
        final(out)@ == old(out)@ + be_bytes64(n),
{
    assert((n >> 56) as u8 == (n / 0x100_0000_0000_0000 % 0x100) as u8) by (bit_vector);
    assert((n >> 48) as u8 == (n / 0x1_0000_0000_0000 % 0x100) as u8) by (bit_vector);
    assert((n >> 40) as u8 == (n / 0x100_0000_0000 % 0x100) as u8) by (bit_vector);
    assert((n >> 32) as u8 == (n / 0x1_0000_0000 % 0x100) as u8) by (bit_vector);
    assert((n >> 24) as u8 == (n / 0x100_0000 % 0x100) as u8) by (bit_vector);
    assert((n >> 16) as u8 == (n / 0x1_0000 % 0x100) as u8) by (bit_vector);
    assert((n >> 8) as u8 == (n / 0x100 % 0x100) as u8) by (bit_vector);
    assert(n as u8 == (n % 0x100) as u8) by (bit_vector);
    out.push((n >> 56) as u8);
    out.push((n >> 48) as u8);
    out.push((n >> 40) as u8);
    out.push((n >> 32) as u8);
    out.push((n >> 24) as u8);
    out.push((n >> 16) as u8);
    out.push((n >> 8) as u8);
    out.push(n as u8);
}

} // verus!
