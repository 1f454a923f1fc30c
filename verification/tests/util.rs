use rsign::util::{fixed_time_eq, load_u64_le, lower_hex, store_u64_le};
use rsign::{load_usize_le, store_usize_le};

#[test]
fn store_writes_least_significant_byte_first() {
    assert_eq!(store_u64_le(0x0102_0304_0506_0708), [8, 7, 6, 5, 4, 3, 2, 1]);
    assert_eq!(store_u64_le(0), [0u8; 8]);
    assert_eq!(store_u64_le(u64::MAX), [0xffu8; 8]);
    assert_eq!(store_u64_le(1), [1, 0, 0, 0, 0, 0, 0, 0]);
    assert_eq!(store_usize_le(33_554_432), [0, 0, 0, 2, 0, 0, 0, 0]);
    assert_eq!(store_usize_le(0x1234), [0x34, 0x12, 0, 0, 0, 0, 0, 0]);
}

#[test]
fn load_reads_least_significant_byte_first() {
    assert_eq!(load_u64_le(&[8, 7, 6, 5, 4, 3, 2, 1]), 0x0102_0304_0506_0708);
    assert_eq!(load_u64_le(&[0xff; 8]), u64::MAX);
    assert_eq!(load_usize_le(&[0, 0, 0, 2, 0, 0, 0, 0]), 33_554_432);
    assert_eq!(load_usize_le(&[0, 0, 0, 0x40, 0, 0, 0, 0]), 1_073_741_824);
}

#[test]
fn load_ignores_bytes_after_the_eighth() {
    assert_eq!(load_u64_le(&[1, 0, 0, 0, 0, 0, 0, 0, 0xff, 0xff]), 1);
    assert_eq!(load_usize_le(&[2, 1, 0, 0, 0, 0, 0, 0, 9]), 0x102);
}

#[test]
fn load_and_store_round_trip() {
    let samples: [u64; 8] = [
        0,
        1,
        255,
        256,
        0xdead_beef,
        0x0123_4567_89ab_cdef,
        u64::MAX - 1,
        u64::MAX,
    ];
    for x in samples {
        assert_eq!(load_u64_le(&store_u64_le(x)), x);
    }
    let words: [usize; 4] = [0, 524_288, 16_777_216, usize::MAX];
    for x in words {
        assert_eq!(load_usize_le(&store_usize_le(x)), x);
    }
    let bytes = [0x10, 0x32, 0x54, 0x76, 0x98, 0xba, 0xdc, 0xfe];
    assert_eq!(store_u64_le(load_u64_le(&bytes)), bytes);
}

#[test]
fn fixed_time_eq_accepts_equal_inputs() {
    assert!(fixed_time_eq(&[], &[]));
    assert!(fixed_time_eq(&[1, 2, 3], &[1, 2, 3]));
    assert!(fixed_time_eq(&[0xff; 64], &[0xff; 64]));
}

#[test]
fn fixed_time_eq_rejects_a_difference_anywhere() {
    let a = [7u8; 32];
    let mut first = a;
    first[0] ^= 1;
    let mut last = a;
    last[31] ^= 0x80;
    let mut middle = a;
    middle[16] = 0;
    assert!(!fixed_time_eq(&a, &first));
    assert!(!fixed_time_eq(&a, &last));
    assert!(!fixed_time_eq(&a, &middle));
}

#[test]
fn fixed_time_eq_rejects_different_lengths() {
    assert!(!fixed_time_eq(&[1, 2, 3], &[1, 2]));
    assert!(!fixed_time_eq(&[], &[0]));
    assert!(!fixed_time_eq(&[0, 0], &[0]));
}

#[test]
fn lower_hex_does_not_pad() {
    assert_eq!(lower_hex(&[]), "");
    assert_eq!(lower_hex(&[0]), "0");
    assert_eq!(lower_hex(&[0x0a, 0xff, 0x10, 0x01]), "aff101");
    assert_eq!(lower_hex(&[0xde, 0xad, 0xbe, 0xef]), "deadbeef");
    assert_eq!(lower_hex(&[0x0f, 0xf0]), "ff0");
}

#[test]
fn lower_hex_agrees_with_std_formatting() {
    let mut all = Vec::new();
    let mut expected = String::new();
    for b in 0..=255u8 {
        all.push(b);
        expected.push_str(&format!("{:x}", b));
    }
    assert_eq!(lower_hex(&all), expected);
}
