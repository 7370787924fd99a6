use memchr::{memchr, memrchr};

#[test]
fn matches_one() {
    assert_eq!(Some(0), memchr(b'a', b"a"));
}

#[test]
fn matches_begin() {
    assert_eq!(Some(0), memchr(b'a', b"aaaa"));
}

#[test]
fn matches_end() {
    assert_eq!(Some(4), memchr(b'z', b"aaaaz"));
}

#[test]
fn matches_nul() {
    assert_eq!(Some(4), memchr(b'\x00', b"aaaa\x00"));
}

#[test]
fn matches_past_nul() {
    assert_eq!(Some(5), memchr(b'z', b"aaaa\x00z"));
}

#[test]
fn no_match_empty() {
    assert_eq!(None, memchr(b'a', b""));
}

#[test]
fn no_match() {
    assert_eq!(None, memchr(b'a', b"xyz"));
}

#[test]
fn matches_one_reversed() {
    assert_eq!(Some(0), memrchr(b'a', b"a"));
}

#[test]
fn matches_begin_reversed() {
    assert_eq!(Some(3), memrchr(b'a', b"aaaa"));
}

#[test]
fn matches_end_reversed() {
    assert_eq!(Some(0), memrchr(b'z', b"zaaaa"));
}

#[test]
fn matches_nul_reversed() {
    assert_eq!(Some(4), memrchr(b'\x00', b"aaaa\x00"));
}

#[test]
fn matches_past_nul_reversed() {
    assert_eq!(Some(0), memrchr(b'z', b"z\x00aaaa"));
}

#[test]
fn no_match_empty_reversed() {
    assert_eq!(None, memrchr(b'a', b""));
}

#[test]
fn no_match_reversed() {
    assert_eq!(None, memrchr(b'a', b"xyz"));
}

/// A family of haystacks of every length up to well past four words, with
/// bytes spread over the whole value range, zero bytes included.
fn haystacks() -> Vec<Vec<u8>> {
    let mut family: Vec<Vec<u8>> = Vec::new();
    for len in 0..70usize {
        let mut v: Vec<u8> = Vec::new();
        for i in 0..len {
            v.push(((i * 7 + 3) % 256) as u8);
        }
        family.push(v);
        family.push(vec![b'a'; len]);
        let mut with_nul: Vec<u8> = vec![0xff; len];
        if len > 0 {
            with_nul[len / 2] = 0;
        }
        family.push(with_nul);
    }
    family
}

#[test]
fn qc_never_fail() {
    for v in haystacks() {
        for needle in 0..=255u8 {
            memchr(needle, &v);
        }
    }
}

#[test]
fn qc_never_fail_reversed() {
    for v in haystacks() {
        for needle in 0..=255u8 {
            memrchr(needle, &v);
        }
    }
}

#[test]
fn qc_correct_memchr() {
    for v in haystacks() {
        // test all pointer alignments
        for uoffset in 0..16usize {
            let data = if uoffset <= v.len() { &v[uoffset..] } else { &v[..] };
            for byte in 0..256u32 {
                let byte = byte as u8;
                assert_eq!(
                    memchr(byte, data),
                    data.iter().position(|elt| *elt == byte),
                );
            }
        }
    }
}

#[test]
fn qc_correct_memrchr() {
    for v in haystacks() {
        // test all pointer alignments
        for uoffset in 0..16usize {
            let data = if uoffset <= v.len() { &v[uoffset..] } else { &v[..] };
            for byte in 0..256u32 {
                let byte = byte as u8;
                assert_eq!(
                    memrchr(byte, data),
                    data.iter().rposition(|elt| *elt == byte),
                );
            }
        }
    }
}

#[test]
fn matches_every_position() {
    // One match at each position of a haystack longer than four words,
    // taken at every starting offset up to 16: exercises the head, body
    // and tail phases of both scanners in every alignment class.
    let len = 40usize;
    for pos in 0..len {
        let mut v = vec![b'.'; len];
        v[pos] = b'#';
        for k in 0..=16usize.min(len) {
            let data = &v[k..];
            let expected = if pos >= k { Some(pos - k) } else { None };
            assert_eq!(expected, memchr(b'#', data));
            assert_eq!(expected, memrchr(b'#', data));
        }
    }
}

#[test]
fn first_and_last_differ_on_repeats() {
    let v = b"abcabcabc";
    assert_eq!(Some(0), memchr(b'a', v));
    assert_eq!(Some(6), memrchr(b'a', v));
    assert_eq!(Some(2), memchr(b'c', v));
    assert_eq!(Some(8), memrchr(b'c', v));
}
