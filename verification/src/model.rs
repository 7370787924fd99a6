//! The mathematical model of the search: what it means for a position to be
//! the first or the last occurrence of a byte, and a byte-at-a-time reference
//! search that the scanners' contracts are held against.

use vstd::prelude::*;

verus! {

/// Some position of `h` holds the byte `x`.
pub open spec fn has_match(h: Seq<u8>, x: u8) -> bool {
    exists|i: int| 0 <= i < h.len() && h[i] == x
}

/// `i` is the first position of `h` holding `x`.
pub open spec fn is_first_match(h: Seq<u8>, x: u8, i: int) -> bool {
    &&& 0 <= i < h.len()
    &&& h[i] == x
    &&& forall|j: int| 0 <= j < i ==> h[j] != x
}

/// `i` is the last position of `h` holding `x`.
pub open spec fn is_last_match(h: Seq<u8>, x: u8, i: int) -> bool {
    &&& 0 <= i < h.len()
    &&& h[i] == x
    &&& forall|j: int| i < j < h.len() ==> h[j] != x
}

/// The reference forward search: the index of the first byte of `h` equal to
/// `x`, found one byte at a time.
pub open spec fn find_first_spec(h: Seq<u8>, x: u8) -> Option<int>
    decreases h.len(),
{
    if h.len() == 0 {
        None
    } else if h[0] == x {
        Some(0int)
    } else {
        match find_first_spec(h.subrange(1, h.len() as int), x) {
            Some(i) => Some(i + 1),
            None => None,
        }
    }
}

/// The reference backward search: the index of the last byte of `h` equal to
/// `x`, found one byte at a time from the end.
pub open spec fn find_last_spec(h: Seq<u8>, x: u8) -> Option<int>
    decreases h.len(),
{
    if h.len() == 0 {
        None
    } else if h[h.len() - 1] == x {
        Some(h.len() - 1)
    } else {
        find_last_spec(h.subrange(0, h.len() - 1), x)
    }
}

/// The reference forward search returns the first match when there is one,
/// and `None` exactly when there is none.
pub proof fn lemma_find_first_spec_characterizes(h: Seq<u8>, x: u8)
    ensures
        match find_first_spec(h, x) {
            Some(i) => is_first_match(h, x, i),
            None => !has_match(h, x),
        },
    decreases h.len(),
{
    if h.len() == 0 {
    } else if h[0] == x {
    } else {
        let t = h.subrange(1, h.len() as int);
        lemma_find_first_spec_characterizes(t, x);
        match find_first_spec(t, x) {
            Some(i) => {
                assert forall|j: int| 0 <= j < i + 1 implies h[j] != x by {
                    if j > 0 {
                        assert(h[j] == t[j - 1]);
                    }
                }
            },
            None => {
                assert forall|j: int| 0 <= j < h.len() implies h[j] != x by {
                    if j > 0 {
                        assert(h[j] == t[j - 1]);
                    }
                }
            },
        }
    }
}

/// The reference backward search returns the last match when there is one,
/// and `None` exactly when there is none.
pub proof fn lemma_find_last_spec_characterizes(h: Seq<u8>, x: u8)
    ensures
        match find_last_spec(h, x) {
            Some(i) => is_last_match(h, x, i),
            None => !has_match(h, x),
        },
    decreases h.len(),
{
    if h.len() == 0 {
    } else if h[h.len() - 1] == x {
    } else {
        let t = h.subrange(0, h.len() - 1);
        lemma_find_last_spec_characterizes(t, x);
        match find_last_spec(t, x) {
            Some(i) => {
                assert forall|j: int| i < j < h.len() implies h[j] != x by {
                    if j < h.len() - 1 {
                        assert(h[j] == t[j]);
                    }
                }
            },
            None => {
                assert forall|j: int| 0 <= j < h.len() implies h[j] != x by {
                    if j < h.len() - 1 {
                        assert(h[j] == t[j]);
                    }
                }
            },
        }
    }
}

/// There is at most one first match.
pub proof fn lemma_first_match_unique(h: Seq<u8>, x: u8, i: int, j: int)
    requires
        is_first_match(h, x, i),
        is_first_match(h, x, j),
    ensures
        i == j,
{
}

/// There is at most one last match.
pub proof fn lemma_last_match_unique(h: Seq<u8>, x: u8, i: int, j: int)
    requires
        is_last_match(h, x, i),
        is_last_match(h, x, j),
    ensures
        i == j,
{
}

/// Agreement with the reference: any result meeting the forward-search
/// contract equals the answer of the byte-at-a-time reference search.
pub proof fn lemma_agrees_with_reference_first(h: Seq<u8>, x: u8, r: Option<usize>)
    requires
        match r {
            Some(i) => is_first_match(h, x, i as int),
            None => !has_match(h, x),
        },
    ensures
        match find_first_spec(h, x) {
            Some(i) => r == Some(i as usize),
            None => r is None,
        },
{
    lemma_find_first_spec_characterizes(h, x);
    match find_first_spec(h, x) {
        Some(i) => {
            match r {
                Some(u) => {
                    lemma_first_match_unique(h, x, i, u as int);
                },
                None => {},
            }
        },
        None => {},
    }
}

/// Agreement with the reference: any result meeting the backward-search
/// contract equals the answer of the byte-at-a-time reference search.
pub proof fn lemma_agrees_with_reference_last(h: Seq<u8>, x: u8, r: Option<usize>)
    requires
        match r {
            Some(i) => is_last_match(h, x, i as int),
            None => !has_match(h, x),
        },
    ensures
        match find_last_spec(h, x) {
            Some(i) => r == Some(i as usize),
            None => r is None,
        },
{
    lemma_find_last_spec_characterizes(h, x);
    match find_last_spec(h, x) {
        Some(i) => {
            match r {
                Some(u) => {
                    lemma_last_match_unique(h, x, i, u as int);
                },
                None => {},
            }
        },
        None => {},
    }
}

/// Bounds: an index meeting either search contract is in range and holds
/// the needle.
pub proof fn lemma_result_in_bounds(h: Seq<u8>, x: u8, i: usize)
    requires
        is_first_match(h, x, i as int) || is_last_match(h, x, i as int),
    ensures
        i < h.len(),
        h[i as int] == x,
{
}

/// Alignment invariance: on every suffix `h[k..]` with `k` up to 16, a
/// result meeting the forward-search contract for that suffix equals the
/// reference answer for that suffix.
pub proof fn lemma_alignment_invariance(h: Seq<u8>, x: u8, k: int, r: Option<usize>)
    requires
        0 <= k <= 16,
        k <= h.len(),
        match r {
            Some(i) => is_first_match(h.subrange(k, h.len() as int), x, i as int),
            None => !has_match(h.subrange(k, h.len() as int), x),
        },
    ensures
        match find_first_spec(h.subrange(k, h.len() as int), x) {
            Some(i) => r == Some(i as usize),
            None => r is None,
        },
{
    lemma_agrees_with_reference_first(h.subrange(k, h.len() as int), x, r);
}

/// Empty haystack: results meeting the two search contracts on an empty
/// input are both "not found", whatever the needle.
pub proof fn lemma_empty_haystack(x: u8, r_first: Option<usize>, r_last: Option<usize>)
    requires
        match r_first {
            Some(i) => is_first_match(Seq::<u8>::empty(), x, i as int),
            None => !has_match(Seq::<u8>::empty(), x),
        },
        match r_last {
            Some(i) => is_last_match(Seq::<u8>::empty(), x, i as int),
            None => !has_match(Seq::<u8>::empty(), x),
        },
    ensures
        r_first is None,
        r_last is None,
{
}

} // verus!
