//! Locate a single byte inside a byte slice.
//!
//! `memchr` returns the position of the first occurrence of a byte and
//! `memrchr` the position of the last one. Both are word-at-a-time (SWAR)
//! scanners: after a short byte-by-byte head (or tail) that reaches a
//! word-aligned address, the body of the haystack is traversed two machine
//! words per step, and a bitwise filter decides whether a word can hold the
//! needle at all; only the bytes from a candidate word on are examined one
//! by one.
//!
//! The scanners read words by bounds-checked byte gathers, so they are
//! correct at every starting alignment; the alignment of the haystack only
//! decides how many leading (or trailing) bytes the per-byte phase takes,
//! and the proofs hold for every value of it.

use vstd::prelude::*;

pub mod model;
mod scan;
pub mod swar;

verus! {

use crate::model::{has_match, is_first_match, is_last_match};
use crate::swar::repeated;

/// The width of a scanning word, in bytes.
pub const WORD_BYTES: usize = 8;

/// Relies on `<[u8]>::as_ptr`: the address of the slice's first byte.
/// Nothing is promised of the value. The scanners use it only to choose how
/// many bytes the per-byte head or tail phase takes, and are verified for
/// every possible address.
#[verifier::external_body]
fn base_address(text: &[u8]) -> usize {
    text.as_ptr() as usize
}

/// Returns the index of the first occurrence of `needle` in `haystack`,
/// or `None` if the byte does not occur.
pub fn memchr(needle: u8, haystack: &[u8]) -> (r: Option<usize>)
    ensures
        match r {
            Some(i) => is_first_match(haystack@, needle, i as int),
            None => !has_match(haystack@, needle),
        },
{
    let len = haystack.len();

    // Head: scan up to the first word-aligned address byte by byte.
    let align = base_address(haystack) % WORD_BYTES;
    let mut offset: usize = 0;
    if align > 0 {
        let head = if WORD_BYTES - align < len {
            WORD_BYTES - align
        } else {
            len
        };
        match scan::scan_forward(haystack, 0, head, needle) {
            Some(i) => {
                return Some(i);
            },
            None => {
                offset = head;
            },
        }
    }

    // Body: take two words per step; stop at the first word the filter
    // does not clear.
    let repeated_x = swar::repeat_byte(needle);
    if len >= 2 * WORD_BYTES {
        while offset <= len - 2 * WORD_BYTES
            invariant
                2 * WORD_BYTES <= len,
                offset <= len,
                len == haystack@.len(),
                repeated_x == repeated(needle),
                forall|j: int| 0 <= j < offset ==> haystack@[j] != needle,
            ensures
                offset <= len,
                forall|j: int| 0 <= j < offset ==> haystack@[j] != needle,
            decreases len - offset,
        {
            let u = swar::load_word(haystack, offset);
            let v = swar::load_word(haystack, offset + WORD_BYTES);
            let zu = swar::contains_zero_byte(u ^ repeated_x);
            let zv = swar::contains_zero_byte(v ^ repeated_x);
            if zu || zv {
                break;
            }
            proof {
                swar::lemma_clear_window(haystack@, needle, offset as int);
                swar::lemma_clear_window(haystack@, needle, offset + WORD_BYTES);
            }
            offset = offset + 2 * WORD_BYTES;
        }
    }

    // Tail: confirm byte by byte from the point the body stopped.
    scan::scan_forward(haystack, offset, len, needle)
}

/// Returns the index of the last occurrence of `needle` in `haystack`,
/// or `None` if the byte does not occur.
pub fn memrchr(needle: u8, haystack: &[u8]) -> (r: Option<usize>)
    ensures
        match r {
            Some(i) => is_last_match(haystack@, needle, i as int),
            None => !has_match(haystack@, needle),
        },
{
    let len = haystack.len();

    // Tail: scan down to the last word-aligned address byte by byte.
    let end_align = (base_address(haystack) % WORD_BYTES + len % WORD_BYTES) % WORD_BYTES;
    let mut offset: usize = len;
    if end_align > 0 {
        let tail = if WORD_BYTES - end_align < len {
            WORD_BYTES - end_align
        } else {
            len
        };
        match scan::scan_backward(haystack, len - tail, len, needle) {
            Some(i) => {
                return Some(i);
            },
            None => {
                offset = len - tail;
            },
        }
    }

    // Body: take two words per step, moving down; stop at the first word
    // the filter does not clear.
    let repeated_x = swar::repeat_byte(needle);
    while offset >= 2 * WORD_BYTES
        invariant
            offset <= len,
            len == haystack@.len(),
            repeated_x == repeated(needle),
            forall|j: int| offset <= j < len ==> haystack@[j] != needle,
        ensures
            offset <= len,
            forall|j: int| offset <= j < len ==> haystack@[j] != needle,
        decreases offset,
    {
        let u = swar::load_word(haystack, offset - 2 * WORD_BYTES);
        let v = swar::load_word(haystack, offset - WORD_BYTES);
        let zu = swar::contains_zero_byte(u ^ repeated_x);
        let zv = swar::contains_zero_byte(v ^ repeated_x);
        if zu || zv {
            break;
        }
        proof {
            swar::lemma_clear_window(haystack@, needle, offset - 2 * WORD_BYTES);
            swar::lemma_clear_window(haystack@, needle, offset - WORD_BYTES);
        }
        offset = offset - 2 * WORD_BYTES;
    }

    // Head: confirm byte by byte below the point the body stopped.
    scan::scan_backward(haystack, 0, offset, needle)
}

} // verus!
