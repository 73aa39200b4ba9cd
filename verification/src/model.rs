//! The SHA-1 function as mathematics: registers, message schedule, rounds,
//! block compression, framing, and the digest of a whole message.
//!
//! Nothing here runs. The executable code in the other modules is proved to
//! compute exactly these functions.
use vstd::prelude::*;
use crate::bits::{rotl, be_word, be_bytes64};

verus! {

/// Five 32-bit registers: the running digest between blocks, or the working
/// variables inside one block.
pub struct Registers {
    pub a: u32,
    pub b: u32,
    pub c: u32,
    pub d: u32,
    pub e: u32,
}

/// The registers every digest starts from.
pub open spec fn initial() -> Registers {
    Registers { a: 0x67452301, b: 0xefcdab89, c: 0x98badcfe, d: 0x10325476, e: 0xc3d2e1f0 }
}

/// Sum of two words modulo 2^32.
pub open spec fn sum32(x: u32, y: u32) -> u32 {
    ((x + y) % 0x1_0000_0000) as u32
}

/// Word `i` of a block: bytes `4i .. 4i+3`, most significant first.
pub open spec fn block_word(block: Seq<u8>, i: int) -> u32 {
    be_word(block[4 * i], block[4 * i + 1], block[4 * i + 2], block[4 * i + 3])
}

/// Word `t` of the message schedule of a block. The first sixteen are the
/// block's own words; each later one is the exclusive-or of the words 3, 8,
/// 14 and 16 places back, rotated left by one bit.
pub open spec fn schedule(block: Seq<u8>, t: int) -> u32
    decreases t,
{
    if t < 16 {
        block_word(block, t)
    } else {
        rotl(
            schedule(block, t - 3) ^ schedule(block, t - 8) ^ schedule(block, t - 14) ^ schedule(
                block,
                t - 16,
            ),
            1,
        )
    }
}

/// The mixing function of round `t`, chosen by the quadrant `t / 20`.
pub open spec fn round_f(t: int, b: u32, c: u32, d: u32) -> u32 {
    if t / 20 == 0 {
        (b & c) | (!b & d)
    } else if t / 20 == 2 {
        (b & c) | (b & d) | (c & d)
    } else {
        b ^ c ^ d
    }
}

/// The additive constant of round `t`, chosen by the quadrant `t / 20`.
pub open spec fn round_k(t: int) -> u32 {
    if t / 20 == 0 {
        0x5a827999
    } else if t / 20 == 1 {
        0x6ed9eba1
    } else if t / 20 == 2 {
        0x8f1bbcdc
    } else {
        0xca62c1d6
    }
}

/// One round: round `t` applied to the working variables `r` with schedule
/// word `w`.
pub open spec fn round(r: Registers, t: int, w: u32) -> Registers {
    Registers {
        a: ((rotl(r.a, 5) + round_f(t, r.b, r.c, r.d) + r.e + round_k(t) + w)
            % 0x1_0000_0000) as u32,
        b: r.a,
        c: rotl(r.b, 30),
        d: r.c,
        e: r.d,
    }
}

/// The working variables after the first `n` rounds on a block, starting
/// from `r`.
pub open spec fn rounds(r: Registers, block: Seq<u8>, n: int) -> Registers
    decreases n,
{
    if n <= 0 {
        r
    } else {
        round(rounds(r, block, n - 1), n - 1, schedule(block, n - 1))
    }
}

/// The compression function: the digest state after one 64-byte block.
pub open spec fn compress(h: Registers, block: Seq<u8>) -> Registers {
    let r = rounds(h, block, 80);
    Registers {
        a: sum32(r.a, h.a),
        b: sum32(r.b, h.b),
        c: sum32(r.c, h.c),
        d: sum32(r.d, h.d),
        e: sum32(r.e, h.e),
    }
}

/// Block `i` of `data`: its bytes `64i .. 64i+63`.
pub open spec fn block_at(data: Seq<u8>, i: int) -> Seq<u8> {
    data.subrange(64 * i, 64 * i + 64)
}

/// The digest state after compressing the first `n` blocks of `data`, in
/// order, starting from `h`.
pub open spec fn absorb(h: Registers, data: Seq<u8>, n: int) -> Registers
    decreases n,
{
    if n <= 0 {
        h
    } else {
        compress(absorb(h, data, n - 1), block_at(data, n - 1))
    }
}

/// The digest state after compressing every whole block of `data`.
pub open spec fn absorb_all(h: Registers, data: Seq<u8>) -> Registers {
    absorb(h, data, data.len() as int / 64)
}

/// How many zero bytes follow the `0x80` marker after `len` bytes: as few
/// as bring the length to 56 modulo 64.
pub open spec fn zero_fill(len: nat) -> nat {
    ((119 - len % 64) % 64) as nat
}

/// The length field that closes a message of `total` bytes: its length in
/// bits, modulo 2^64, as eight bytes, most significant first.
pub open spec fn length_field(total: nat) -> Seq<u8> {
    be_bytes64(((8 * total) % 0x1_0000_0000_0000_0000) as u64)
}

/// The closing frame of a message of `total` bytes whose last bytes are
/// `tail`: the tail, the marker `0x80`, the zero fill, and the length field.
pub open spec fn frame(tail: Seq<u8>, total: nat) -> Seq<u8> {
    tail + seq![0x80u8] + Seq::new(zero_fill(tail.len()), |i: int| 0u8) + length_field(total)
}

/// The padded message.
pub open spec fn pad(message: Seq<u8>) -> Seq<u8> {
    frame(message, message.len())
}

/// The SHA-1 digest of a message, as five registers.
pub open spec fn sha1_digest(message: Seq<u8>) -> Registers {
    absorb_all(initial(), pad(message))
}

} // verus!
