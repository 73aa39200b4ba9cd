//! Message framing: the closing blocks of a message, and what holds of
//! their length.
use vstd::prelude::*;
use vstd::arithmetic::div_mod::lemma_fundamental_div_mod_converse;
use crate::bits::{be_bytes64, push_be_bytes64};
use crate::model::{
    Registers, initial, zero_fill, length_field, frame, pad, absorb, absorb_all, block_at,
    sha1_digest,
};

verus! {

/// The length of a message of `len` bytes once framed.
pub open spec fn padded_len(len: nat) -> nat {
    len + 1 + zero_fill(len) + 8
}

/// Closes a message of `length` bytes whose last bytes are `tail`: appends
/// the marker `0x80`, zero bytes up to 56 modulo 64, and the bit length as
/// eight big-endian bytes.
pub fn frame_tail(tail: Vec<u8>, length: u64) -> (framed: Vec<u8>)
    ensures
        framed@ == frame(tail@, length as nat),
{
    let ghost start = tail@;
    let mut framed = tail;
    let bits: u64 = length.wrapping_mul(8);
    assert(length_field(length as nat) == be_bytes64(bits));

    framed.push(0x80);

    while framed.len() % 64 != 56
        invariant
            framed.len() >= start.len() + 1,
            framed.len() - start.len() - 1 <= zero_fill(start.len()),
            framed@ == start + seq![0x80u8] + Seq::new(
                (framed.len() - start.len() - 1) as nat,
                |i: int| 0u8,
            ),
        decreases zero_fill(start.len()) - (framed.len() - start.len() - 1),
    {
        proof {
            lemma_zero_fill_reaches(start.len(), (framed.len() - start.len() - 1) as nat);
        }
        framed.push(0);
    }

    proof {
        lemma_zero_fill_reaches(start.len(), (framed.len() - start.len() - 1) as nat);
    }
    push_be_bytes64(&mut framed, bits);
    framed
}

/// The padded length in closed form: one block past the last whole block,
/// or two where fewer than nine bytes are free in the last block.
pub proof fn lemma_padded_len(len: nat)
    ensures
        zero_fill(len) == if len % 64 <= 55 {
            55 - len % 64
        } else {
            119 - len % 64
        },
        padded_len(len) == if len % 64 <= 55 {
            64 * (len / 64) + 64
        } else {
            64 * (len / 64) + 128
        },
{
    let r = len % 64;
    assert(len == 64 * (len / 64) + r);
    if r <= 55 {
        assert((119 - r) % 64 == 55 - r);
    } else {
        assert((119 - r) % 64 == 119 - r);
    }
}

/// Whether `m` bytes are a whole number of blocks with room for a message
/// of `len` bytes, the marker and the length field.
pub open spec fn holds_framed(m: nat, len: nat) -> bool {
    m % 64 == 0 && m > len + 8
}

/// No whole number of blocks shorter than the padded length has room for
/// the message, the marker and the length field.
proof fn lemma_padded_len_below(len: nat, m: nat)
    requires
        holds_framed(m, len),
    ensures
        padded_len(len) <= m,
{
    lemma_padded_len(len);
    let q = len / 64;
    let k = m / 64;
    assert(len == 64 * q + len % 64);
    assert(m == 64 * k);
    if len % 64 <= 55 {
        assert(64 * k > 64 * q + 8);
        assert(k >= q + 1);
    } else {
        assert(64 * k > 64 * q + 64);
        assert(k >= q + 2);
    }
}

/// The padded length of a message is the least multiple of 64 that leaves
/// room for the marker and the length field, so the number of blocks is
/// `(L + 9) / 64` rounded up.
pub proof fn lemma_padded_len_least(message: Seq<u8>)
    ensures
        holds_framed(pad(message).len(), message.len()),
        forall|m: nat| #[trigger] holds_framed(m, message.len()) ==> pad(message).len() <= m,
        pad(message).len() / 64 == (message.len() + 9 + 63) / 64,
{
    let len = message.len();
    let q = len as int / 64;
    let r = len as int % 64;
    lemma_padded_len(len);
    assert(pad(message).len() == padded_len(len));
    assert(len == 64 * q + r);
    if r <= 55 {
        lemma_fundamental_div_mod_converse(padded_len(len) as int, 64, q + 1, 0);
        lemma_fundamental_div_mod_converse(len as int + 9 + 63, 64, q + 1, r + 8);
    } else {
        lemma_fundamental_div_mod_converse(padded_len(len) as int, 64, q + 2, 0);
        lemma_fundamental_div_mod_converse(len as int + 9 + 63, 64, q + 2, r - 56);
    }
    assert forall|m: nat| #[trigger] holds_framed(m, len) implies padded_len(len) <= m by {
        lemma_padded_len_below(len, m);
    }
}

/// Bytes laid after the first `n` blocks do not change what those blocks
/// compress to.
pub proof fn lemma_absorb_prefix(h: Registers, x: Seq<u8>, y: Seq<u8>, n: int)
    requires
        0 <= n,
        64 * n <= x.len(),
    ensures
        absorb(h, x + y, n) == absorb(h, x, n),
    decreases n,
{
    if n > 0 {
        lemma_absorb_prefix(h, x, y, n - 1);
        assert(block_at(x + y, n - 1) =~= block_at(x, n - 1));
    }
}

/// Compressing `n + m` blocks of two byte strings laid end to end, the
/// first of them exactly `n` blocks long and the second at least `m`, is
/// compressing the `n` blocks of the first and then `m` blocks of the
/// second.
pub proof fn lemma_absorb_joined(h: Registers, x: Seq<u8>, y: Seq<u8>, n: int, m: int)
    requires
        0 <= n,
        0 <= m,
        x.len() == 64 * n,
        y.len() >= 64 * m,
    ensures
        absorb(h, x + y, n + m) == absorb(absorb(h, x, n), y, m),
    decreases m,
{
    if m > 0 {
        lemma_absorb_joined(h, x, y, n, m - 1);
        assert(block_at(x + y, n + m - 1) =~= block_at(y, m - 1));
    } else {
        lemma_absorb_prefix(h, x, y, n);
    }
}

/// The whole blocks of a message: its bytes up to the last multiple of 64.
pub open spec fn head_of(message: Seq<u8>) -> Seq<u8> {
    message.subrange(0, 64 * (message.len() as int / 64))
}

/// The tail of a message: its bytes after the last whole block.
pub open spec fn tail_of(message: Seq<u8>) -> Seq<u8> {
    message.subrange(64 * (message.len() as int / 64), message.len() as int)
}

/// A padded message is its whole blocks followed by the frame of its tail.
pub proof fn lemma_pad_splits(message: Seq<u8>)
    ensures
        pad(message) == head_of(message) + frame(tail_of(message), message.len()),
{
    let len = message.len();
    let head = head_of(message);
    let tail = tail_of(message);
    assert(len == 64 * (len / 64) + len % 64);
    assert(tail.len() == len % 64);
    assert(zero_fill(tail.len()) == zero_fill(len));
    assert(message =~= head + tail);
    assert(pad(message) =~= head + frame(tail, len));
}

/// The digest of a message is reached by compressing its whole blocks and
/// then the frame of its tail.
pub proof fn lemma_digest_by_parts(message: Seq<u8>)
    ensures
        sha1_digest(message) == absorb_all(
            absorb(initial(), message, message.len() as int / 64),
            frame(tail_of(message), message.len()),
        ),
{
    let len = message.len();
    let whole = len as int / 64;
    let head = head_of(message);
    let tail = tail_of(message);
    let closing = frame(tail, len);
    let last = closing.len() as int / 64;
    assert(len == 64 * whole + len % 64);
    assert(head.len() == 64 * whole);
    assert(tail.len() == len % 64);

    lemma_padded_len(tail.len());
    assert(closing.len() == 64 * last);

    lemma_pad_splits(message);
    assert(pad(message).len() == 64 * (whole + last));
    lemma_fundamental_div_mod_converse(pad(message).len() as int, 64, whole + last, 0);
    lemma_absorb_joined(initial(), head, closing, whole, last);

    assert(message =~= head + tail);
    lemma_absorb_prefix(initial(), head, tail, whole);
}

/// The blocks that close a message, those that hold its tail, the marker
/// and the length field, are two where the length is 56 to 63 modulo 64 and
/// one for every other length but those that are 55 modulo 64.
pub proof fn lemma_closing_blocks(message: Seq<u8>)
    requires
        message.len() % 64 != 55,
    ensures
        frame(tail_of(message), message.len()).len() == if message.len() % 64 >= 56 {
            128int
        } else {
            64int
        },
{
    let len = message.len();
    assert(len == 64 * (len / 64) + len % 64);
    assert(tail_of(message).len() == len % 64);
    lemma_padded_len(tail_of(message).len());
}

/// Where the length is 55 modulo 64 the tail, the marker and the length
/// field fill one block exactly, with no zero byte between them.
pub proof fn lemma_closing_block_at_boundary(message: Seq<u8>)
    requires
        message.len() % 64 == 55,
    ensures
        frame(tail_of(message), message.len()).len() == 64,
        zero_fill(message.len()) == 0,
{
    let len = message.len();
    assert(len == 64 * (len / 64) + len % 64);
    assert(tail_of(message).len() == len % 64);
    lemma_padded_len(tail_of(message).len());
    lemma_padded_len(len);
}

/// Of the counts of zero bytes up to the zero fill, only the zero fill
/// itself brings the length to 56 modulo 64.
proof fn lemma_zero_fill_reaches(len: nat, zeros: nat)
    requires
        zeros <= zero_fill(len),
    ensures
        (len + 1 + zeros) % 64 == 56 <==> zeros == zero_fill(len),
{
    lemma_padded_len(len);
    let q = len as int / 64;
    let r = len as int % 64;
    let reached = len as int + 1 + zeros as int;
    assert(len == 64 * q + r);
    if r + 1 + zeros < 64 {
        lemma_fundamental_div_mod_converse(reached, 64, q, r + 1 + zeros);
    } else {
        lemma_fundamental_div_mod_converse(reached, 64, q + 1, r + 1 + zeros - 64);
    }
}

} // verus!
