//! Byte-at-a-time scans. They resolve the head and tail of the haystack,
//! where no full word remains, and confirm or refute a candidate window
//! reported by the word filter.

use vstd::prelude::*;

verus! {

/// First position of `x` in `text[from..to]`, as an absolute index.
pub(crate) fn scan_forward(text: &[u8], from: usize, to: usize, x: u8) -> (r: Option<usize>)
    requires
        from <= to <= text@.len(),
    ensures
        match r {
            Some(i) => {
                &&& from <= i < to
                &&& text@[i as int] == x
                &&& forall|j: int| from <= j < i ==> text@[j] != x
            },
            None => forall|j: int| from <= j < to ==> text@[j] != x,
        },
{
    let mut i: usize = from;
    while i < to
        invariant
            from <= i <= to,
            to <= text@.len(),
            forall|j: int| from <= j < i ==> text@[j] != x,
        decreases to - i,
    {
        if text[i] == x {
            return Some(i);
        }
        i = i + 1;
    }
    None
}

/// Last position of `x` in `text[from..to]`, as an absolute index.
pub(crate) fn scan_backward(text: &[u8], from: usize, to: usize, x: u8) -> (r: Option<usize>)
    requires
        from <= to <= text@.len(),
    ensures
        match r {
            Some(i) => {
                &&& from <= i < to
                &&& text@[i as int] == x
                &&& forall|j: int| i < j < to ==> text@[j] != x
            },
            None => forall|j: int| from <= j < to ==> text@[j] != x,
        },
{
    let mut i: usize = to;
    while i > from
        invariant
            from <= i <= to,
            to <= text@.len(),
            forall|j: int| i <= j < to ==> text@[j] != x,
        decreases i,
    {
        i = i - 1;
        if text[i] == x {
            return Some(i);
        }
    }
    None
}

} // verus!
