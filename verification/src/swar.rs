//! The word-at-a-time machinery: building a word whose every byte is the
//! needle, loading a word of the haystack, and the classical zero-byte
//! filter `(w - LO) & !w & HI != 0`.
//!
//! The filter is proved exact as a yes/no test: a word passes it if and only
//! if one of its bytes is zero. (Which byte caused the hit is not exact --- a
//! byte after a zero byte can be flagged by the borrow --- so the scanners
//! still confirm a candidate window byte by byte.)

use vstd::prelude::*;

verus! {

/// Every byte of `LO_U64` is `0x01`.
pub const LO_U64: u64 = 0x0101010101010101;

/// Every byte of `HI_U64` is `0x80`.
pub const HI_U64: u64 = 0x8080808080808080;

/// The word whose little-endian bytes are `b0, b1, ..., b7`.
pub open spec fn word_of_bytes(
    b0: u8, b1: u8, b2: u8, b3: u8, b4: u8, b5: u8, b6: u8, b7: u8,
) -> u64 {
    (b0 as u64)
    | ((b1 as u64) << 8)
    | ((b2 as u64) << 16)
    | ((b3 as u64) << 24)
    | ((b4 as u64) << 32)
    | ((b5 as u64) << 40)
    | ((b6 as u64) << 48)
    | ((b7 as u64) << 56)
}

/// The word whose every byte is `x`.
pub open spec fn repeated(x: u8) -> u64 {
    word_of_bytes(x, x, x, x, x, x, x, x)
}

/// Some byte of `w` is zero.
pub open spec fn word_has_zero_byte(w: u64) -> bool {
    ||| w & 0xff == 0
    ||| (w >> 8) & 0xff == 0
    ||| (w >> 16) & 0xff == 0
    ||| (w >> 24) & 0xff == 0
    ||| (w >> 32) & 0xff == 0
    ||| (w >> 40) & 0xff == 0
    ||| (w >> 48) & 0xff == 0
    ||| (w >> 56) & 0xff == 0
}

/// Return the word in which every byte equals `b`, by shift-and-or doubling.
pub fn repeat_byte(b: u8) -> (r: u64)
    ensures
        r == repeated(b),
{
    let mut rep: u64 = (b as u64) << 8 | (b as u64);
    rep = rep << 16 | rep;
    rep = rep << 32 | rep;
    proof {
        lemma_repeat_byte(b);
    }
    rep
}

/// The shift-and-or doubling of `repeat_byte` fills all eight byte lanes.
proof fn lemma_repeat_byte(b: u8)
    by (bit_vector)
    ensures
        ((((b as u64) << 8 | (b as u64)) << 16 | ((b as u64) << 8 | (b as u64))) << 32)
            | ((((b as u64) << 8 | (b as u64)) << 16) | ((b as u64) << 8 | (b as u64)))
            == word_of_bytes(b, b, b, b, b, b, b, b),
{
}

/// Return `true` if `x` contains any zero byte.
///
/// The idea is to subtract one from each of the bytes and then look for
/// bytes where the borrow propagated all the way to the most significant
/// bit.
pub fn contains_zero_byte(x: u64) -> (r: bool)
    ensures
        r == word_has_zero_byte(x),
{
    proof {
        lemma_zero_byte_filter_exact(x);
    }
    x.wrapping_sub(LO_U64) & !x & HI_U64 != 0
}

/// The subtract-and-mask filter holds exactly of the words with a zero byte:
/// a borrow can only start at a zero byte, so a word without one subtracts
/// `0x01` from every lane and no high bit survives the mask.
proof fn lemma_zero_byte_filter_exact(x: u64)
    by (bit_vector)
    ensures
        (x.wrapping_sub(LO_U64) & !x & HI_U64 != 0) == word_has_zero_byte(x),
{
}

/// The filter applied to `w XOR repeated(x)` finds the lanes of `w` equal to
/// `x`: a byte of the XOR is zero exactly where the corresponding byte of `w`
/// is `x`.
pub proof fn lemma_filter_finds_byte(
    b0: u8, b1: u8, b2: u8, b3: u8, b4: u8, b5: u8, b6: u8, b7: u8, x: u8,
)
    by (bit_vector)
    ensures
        word_has_zero_byte(word_of_bytes(b0, b1, b2, b3, b4, b5, b6, b7) ^ repeated(x))
            == (b0 == x || b1 == x || b2 == x || b3 == x || b4 == x || b5 == x || b6 == x
                || b7 == x),
{
}

/// Load the word formed by the eight bytes `text[i..i + 8]`, little-endian.
pub(crate) fn load_word(text: &[u8], i: usize) -> (w: u64)
    requires
        i + 8 <= text@.len(),
    ensures
        w == word_of_bytes(
            text@[i as int],
            text@[i as int + 1],
            text@[i as int + 2],
            text@[i as int + 3],
            text@[i as int + 4],
            text@[i as int + 5],
            text@[i as int + 6],
            text@[i as int + 7],
        ),
{
    (text[i] as u64)
    | ((text[i + 1] as u64) << 8)
    | ((text[i + 2] as u64) << 16)
    | ((text[i + 3] as u64) << 24)
    | ((text[i + 4] as u64) << 32)
    | ((text[i + 5] as u64) << 40)
    | ((text[i + 6] as u64) << 48)
    | ((text[i + 7] as u64) << 56)
}

/// If the filter clears the word loaded at `o`, no byte of `h[o..o + 8]`
/// equals `x`.
pub proof fn lemma_clear_window(h: Seq<u8>, x: u8, o: int)
    requires
        0 <= o,
        o + 8 <= h.len(),
        !word_has_zero_byte(
            word_of_bytes(
                h[o], h[o + 1], h[o + 2], h[o + 3], h[o + 4], h[o + 5], h[o + 6], h[o + 7],
            ) ^ repeated(x),
        ),
    ensures
        forall|j: int| o <= j < o + 8 ==> h[j] != x,
{
    lemma_filter_finds_byte(
        h[o], h[o + 1], h[o + 2], h[o + 3], h[o + 4], h[o + 5], h[o + 6], h[o + 7], x,
    );
}

} // verus!
