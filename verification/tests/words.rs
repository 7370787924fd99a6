use memchr::swar::{contains_zero_byte, repeat_byte};

#[test]
fn repeat_byte_fills_every_lane() {
    assert_eq!(0x6161616161616161, repeat_byte(b'a'));
    assert_eq!(0x0000000000000000, repeat_byte(0x00));
    assert_eq!(0xffffffffffffffff, repeat_byte(0xff));
    assert_eq!(0x8080808080808080, repeat_byte(0x80));
}

#[test]
fn zero_byte_found_in_any_lane() {
    for lane in 0..8u32 {
        let w = 0x1111111111111111u64 & !(0xffu64 << (8 * lane));
        assert!(contains_zero_byte(w));
    }
    assert!(contains_zero_byte(0));
}

#[test]
fn no_zero_byte_no_hit() {
    assert!(!contains_zero_byte(0x1111111111111111));
    assert!(!contains_zero_byte(0xffffffffffffffff));
    // A low byte right under a high-bit byte: the borrow of the filter's
    // subtraction must not count as a zero byte.
    assert!(!contains_zero_byte(0x8001800180018001));
    assert!(!contains_zero_byte(0x0180018001800180));
}
