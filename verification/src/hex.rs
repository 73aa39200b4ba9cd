//! Hexadecimal rendering of words and digests.
use vstd::prelude::*;
use crate::model::Registers;

verus! {

/// The sixteen digits with lower-case letters.
pub open spec fn lower_digits() -> Seq<char> {
    seq!['0', '1', '2', '3', '4', '5', '6', '7', '8', '9', 'a', 'b', 'c', 'd', 'e', 'f']
}

/// The sixteen digits with upper-case letters.
pub open spec fn upper_digits() -> Seq<char> {
    seq!['0', '1', '2', '3', '4', '5', '6', '7', '8', '9', 'A', 'B', 'C', 'D', 'E', 'F']
}

/// The digit for a value below sixteen, in the letter case asked for.
pub open spec fn hex_digit(n: int, upper: bool) -> char {
    if upper {
        upper_digits()[n]
    } else {
        lower_digits()[n]
    }
}

/// Four-bit group `i` of a word, counted from the most significant.
pub open spec fn nibble(w: u32, i: int) -> u32 {
    (w >> ((28 - 4 * i) as u32)) & 0xf
}

/// A word as eight hexadecimal digits, most significant first.
pub open spec fn word_hex(w: u32, upper: bool) -> Seq<char> {
    Seq::new(8, |i: int| hex_digit(nibble(w, i) as int, upper))
}

/// Five registers as forty hexadecimal digits, in register order.
pub open spec fn hex(r: Registers, upper: bool) -> Seq<char> {
    word_hex(r.a, upper) + word_hex(r.b, upper) + word_hex(r.c, upper) + word_hex(r.d, upper)
        + word_hex(r.e, upper)
}

/// The upper-case form of an ASCII character: a lower-case letter moves to
/// its capital, anything else stays.
pub open spec fn ascii_upper(c: char) -> char {
    if 'a' <= c <= 'z' {
        ((c as u8 - 32) as u8) as char
    } else {
        c
    }
}

/// The upper-case rendering is the lower-case rendering with every
/// character put in upper case; the digits are the same.
pub proof fn lemma_upper_hex_is_upper_of_lower(r: Registers)
    ensures
        hex(r, true) == hex(r, false).map_values(|c: char| ascii_upper(c)),
        hex(r, true).len() == 40,
        hex(r, false).len() == 40,
{
    lemma_word_case(r.a);
    lemma_word_case(r.b);
    lemma_word_case(r.c);
    lemma_word_case(r.d);
    lemma_word_case(r.e);
    assert(hex(r, true) =~= hex(r, false).map_values(|c: char| ascii_upper(c)));
}

/// Digit by digit, a word in upper case is the word in lower case put in
/// upper case.
proof fn lemma_word_case(w: u32)
    ensures
        forall|i: int|
            0 <= i < 8 ==> #[trigger] word_hex(w, true)[i] == ascii_upper(word_hex(w, false)[i]),
{
    assert forall|i: int| 0 <= i < 8 implies #[trigger] word_hex(w, true)[i] == ascii_upper(
        word_hex(w, false)[i],
    ) by {
        let shift = (28 - 4 * i) as u32;
        assert((w >> shift) & 0xf < 16) by (bit_vector);
        lemma_digit_case(nibble(w, i) as int);
    }
}

/// Each upper-case digit is its lower-case digit put in upper case.
proof fn lemma_digit_case(n: int)
    requires
        0 <= n < 16,
    ensures
        hex_digit(n, true) == ascii_upper(hex_digit(n, false)),
{
}

/// The one-character string for a value below sixteen.
fn digit_str(n: u32, upper: bool) -> (s: &'static str)
    requires
        n < 16,
    ensures
        s@ == seq![hex_digit(n as int, upper)],
{
    let digits: &'static str = if upper {
        "0123456789ABCDEF"
    } else {
        "0123456789abcdef"
    };
    proof {
        reveal_strlit("0123456789ABCDEF");
        reveal_strlit("0123456789abcdef");
        assert(digits@ =~= if upper { upper_digits() } else { lower_digits() });
    }
    let s = digits.substring_ascii(n as usize, n as usize + 1);
    assert(s@ =~= seq![hex_digit(n as int, upper)]);
    s
}

/// Appends the eight hexadecimal digits of `w` to `out`.
pub fn push_word_hex(out: &mut String, w: u32, upper: bool)
    ensures
        final(out)@ == old(out)@ + word_hex(w, upper),
{
    let ghost start = out@;
    let mut i: u32 = 0;
    while i < 8
        invariant
            i <= 8,
            out@ == start + word_hex(w, upper).take(i as int),
        decreases 8 - i,
    {
        let shift: u32 = 28 - 4 * i;
        let n: u32 = (w >> shift) & 0xf;
        assert((w >> shift) & 0xf < 16) by (bit_vector);
        out.append(digit_str(n, upper));
        assert(word_hex(w, upper).take(i + 1) =~= word_hex(w, upper).take(i as int) + seq![
            hex_digit(n as int, upper),
        ]);
        i += 1;
    }
    assert(word_hex(w, upper).take(8) =~= word_hex(w, upper));
}

} // verus!
