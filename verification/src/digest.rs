//! The digest value and the block compressor.
use vstd::prelude::*;
use vstd::slice::{slice_subrange, slice_to_vec};
use crate::bits::{rotate_left, rotl, word_from_be};
use crate::framing::frame_tail;
use crate::hex::{hex, push_word_hex};
use crate::model::{
    Registers, initial, schedule, round_f, round_k, rounds, compress, absorb,
    absorb_all, sha1_digest,
};

verus! {

/// A SHA-1 digest state: five 32-bit registers.
///
/// A fresh state holds the algorithm's starting values; each compressed
/// block updates it; after the last block of a padded message it is the
/// digest of that message.
pub struct SHA1 {
    h0: u32,
    h1: u32,
    h2: u32,
    h3: u32,
    h4: u32,
}

impl View for SHA1 {
    type V = Registers;

    closed spec fn view(&self) -> Registers {
        Registers { a: self.h0, b: self.h1, c: self.h2, d: self.h3, e: self.h4 }
    }
}

/// Five words added one after another, each sum wrapping at 2^32, give the
/// sum of all five modulo 2^32.
proof fn lemma_wrapping_chain(x: u32, f: u32, e: u32, k: u32, w: u32)
    ensures
        x.wrapping_add(f).wrapping_add(e).wrapping_add(k).wrapping_add(w) == ((x + f + e + k + w)
            % 0x1_0000_0000) as u32,
{
}

/// Hashing is a function of the bytes alone: any two digests of the same
/// message are the same value, and so are their renderings.
pub proof fn lemma_same_message_same_digest(first: SHA1, second: SHA1, message: Seq<u8>)
    requires
        first@ == sha1_digest(message),
        second@ == sha1_digest(message),
    ensures
        first == second,
        hex(first@, false) == hex(second@, false),
        hex(first@, true) == hex(second@, true),
{
}

impl SHA1 {
    /// The state before any block.
    pub fn new() -> (h: SHA1)
        ensures
            h@ == initial(),
    {
        SHA1 { h0: 0x67452301, h1: 0xefcdab89, h2: 0x98badcfe, h3: 0x10325476, h4: 0xc3d2e1f0 }
    }

    /// Compresses one 64-byte block into the state.
    pub fn hash_block(&mut self, block: Vec<u8>)
        requires
            block.len() == 64,
        ensures
            final(self)@ == compress(old(self)@, block@),
    {
        let ghost start = self@;
        let mut words: Vec<u32> = Vec::new();

        let mut a: u32 = self.h0;
        let mut b: u32 = self.h1;
        let mut c: u32 = self.h2;
        let mut d: u32 = self.h3;
        let mut e: u32 = self.h4;

        // The block's sixteen words.
        let mut i: usize = 0;
        while i < 16
            invariant
                i <= 16,
                block.len() == 64,
                words.len() == i,
                forall|j: int| 0 <= j < i ==> words[j] == schedule(block@, j),
            decreases 16 - i,
        {
            let word: u32 = word_from_be(
                block[i * 4],
                block[i * 4 + 1],
                block[i * 4 + 2],
                block[i * 4 + 3],
            );
            words.push(word);
            i += 1;
        }

        // The remaining sixty-four words of the message schedule.
        while i < 80
            invariant
                16 <= i <= 80,
                words.len() == i,
                forall|j: int| 0 <= j < i ==> words[j] == schedule(block@, j),
            decreases 80 - i,
        {
            let w: u32 = rotate_left(
                words[i - 3] ^ words[i - 8] ^ words[i - 14] ^ words[i - 16],
                1,
            );
            words.push(w);
            i += 1;
        }

        let mut t: usize = 0;
        while t < 80
            invariant
                t <= 80,
                words.len() == 80,
                forall|j: int| 0 <= j < 80 ==> words[j] == schedule(block@, j),
                (Registers { a, b, c, d, e }) == rounds(start, block@, t as int),
            decreases 80 - t,
        {
            let k: u32;
            let f: u32;
            let w: u32 = words[t];

            let quadrant: usize = t / 20;
            if quadrant == 0 {
                f = (b & c) ^ (!b & d);
                k = 0x5a827999;
                assert((b & c) ^ (!b & d) == (b & c) | (!b & d)) by (bit_vector);
            } else if quadrant == 1 {
                f = b ^ c ^ d;
                k = 0x6ed9eba1;
            } else if quadrant == 2 {
                f = (b & c) ^ (b & d) ^ (c & d);
                k = 0x8f1bbcdc;
                assert((b & c) ^ (b & d) ^ (c & d) == (b & c) | (b & d) | (c & d))
                    by (bit_vector);
            } else {
                assert(quadrant == 3);
                f = b ^ c ^ d;
                k = 0xca62c1d6;
            }

            assert(f == round_f(t as int, b, c, d) && k == round_k(t as int));

            let temp: u32 = rotate_left(a, 5).wrapping_add(f).wrapping_add(e).wrapping_add(
                k,
            ).wrapping_add(w);
            proof {
                lemma_wrapping_chain(rotl(a, 5), f, e, k, w);
            }

            e = d;
            d = c;
            c = rotate_left(b, 30);
            b = a;
            a = temp;
            t += 1;
        }

        self.h0 = a.wrapping_add(self.h0);
        self.h1 = b.wrapping_add(self.h1);
        self.h2 = c.wrapping_add(self.h2);
        self.h3 = d.wrapping_add(self.h3);
        self.h4 = e.wrapping_add(self.h4);
    }

    /// The state as forty hexadecimal digits, in the letter case asked
    /// for.
    fn to_hex(&self, upper: bool) -> (text: String)
        ensures
            text@ == hex(self@, upper),
            text@.len() == 40,
    {
        let mut text: String = String::new();
        push_word_hex(&mut text, self.h0, upper);
        push_word_hex(&mut text, self.h1, upper);
        push_word_hex(&mut text, self.h2, upper);
        push_word_hex(&mut text, self.h3, upper);
        push_word_hex(&mut text, self.h4, upper);
        text
    }

    /// The digest as forty hexadecimal digits with lower-case letters.
    pub fn to_lhex(self) -> (text: String)
        ensures
            text@ == hex(self@, false),
            text@.len() == 40,
    {
        self.to_hex(false)
    }

    /// The digest as forty hexadecimal digits with upper-case letters.
    pub fn to_uhex(self) -> (text: String)
        ensures
            text@ == hex(self@, true),
            text@.len() == 40,
    {
        self.to_hex(true)
    }

    /// Compresses every whole 64-byte block of `data` into the state, in
    /// order. Bytes after the last whole block are left out.
    pub fn hash_blocks(&mut self, data: &Vec<u8>)
        ensures
            final(self)@ == absorb_all(old(self)@, data@),
    {
        let ghost start = self@;
        let blocks: usize = data.len() / 64;
        let mut b: usize = 0;
        while b < blocks
            invariant
                b <= blocks,
                blocks == data.len() / 64,
                self@ == absorb(start, data@, b as int),
            decreases blocks - b,
        {
            let block_bytes: Vec<u8> = slice_to_vec(
                slice_subrange(data.as_slice(), b * 64, (b + 1) * 64),
            );
            self.hash_block(block_bytes);
            b += 1;
        }
    }

    /// The digest of a message held in memory.
    pub fn hash_sha1(message: Vec<u8>) -> (h: SHA1)
        ensures
            h@ == sha1_digest(message@),
    {
        let length: u64 = message.len() as u64;
        let padded: Vec<u8> = frame_tail(message, length);
        let mut h: SHA1 = SHA1::new();
        h.hash_blocks(&padded);
        h
    }
}

} // verus!
