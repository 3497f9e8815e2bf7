use erc721_substream::text::{
    decimal_text, digit_text, hex_byte_text, join, log_line, read_big_endian, same_bytes,
    trim_leading_zeros,
};

#[test]
fn digits_run_from_zero_to_f() {
    let all: Vec<&str> = (0..16u8).map(digit_text).collect();
    assert_eq!(all.concat(), "0123456789abcdef");
}

#[test]
fn numbers_in_decimal() {
    assert_eq!(decimal_text(0), "0");
    assert_eq!(decimal_text(7), "7");
    assert_eq!(decimal_text(10), "10");
    assert_eq!(decimal_text(12287507), "12287507");
    assert_eq!(decimal_text(u64::MAX), "18446744073709551615");
}

#[test]
fn different_numbers_have_different_numerals() {
    let texts: Vec<String> = (0..2000).map(decimal_text).collect();
    for (i, text) in texts.iter().enumerate() {
        assert_eq!(texts.iter().position(|other| other == text), Some(i));
    }
}

#[test]
fn bytes_in_hexadecimal_without_leading_zeros() {
    assert_eq!(hex_byte_text(0), "0");
    assert_eq!(hex_byte_text(0x0c), "c");
    assert_eq!(hex_byte_text(0x10), "10");
    assert_eq!(hex_byte_text(0xff), "ff");
    for b in 0..=255u8 {
        assert_eq!(hex_byte_text(b), format!("{:x}", b));
    }
}

#[test]
fn leading_zeros_are_dropped() {
    assert_eq!(trim_leading_zeros(""), "");
    assert_eq!(trim_leading_zeros("0000"), "");
    assert_eq!(trim_leading_zeros("00a0"), "a0");
    assert_eq!(trim_leading_zeros("a00"), "a00");
}

#[test]
fn items_are_joined() {
    assert_eq!(join(&vec![], " "), "");
    assert_eq!(join(&vec!["a".to_string()], " "), "a");
    assert_eq!(join(&vec!["a".to_string(), "".to_string(), "b".to_string()], ", "), "a, , b");
}

#[test]
fn lines_are_appended() {
    let mut log = vec!["first".to_string()];
    log_line(&mut log, "second".to_string());
    assert_eq!(log, vec!["first".to_string(), "second".to_string()]);
}

#[test]
fn byte_strings_are_compared() {
    assert!(same_bytes(&[], &[]));
    assert!(same_bytes(&[1, 2, 3], &[1, 2, 3]));
    assert!(!same_bytes(&[1, 2, 3], &[1, 2]));
    assert!(!same_bytes(&[1, 2, 3], &[1, 2, 4]));
}

#[test]
fn big_endian_numbers_up_to_a_limit() {
    assert_eq!(read_big_endian(&[], 0), Some(0));
    assert_eq!(read_big_endian(&[0x01, 0x02, 0x03], u64::MAX), Some(0x010203));
    assert_eq!(read_big_endian(&[0x01, 0x00], 256), Some(256));
    assert_eq!(read_big_endian(&[0x01, 0x00], 255), None);
    assert_eq!(read_big_endian(&[0xff; 8], u64::MAX), Some(u64::MAX));
    assert_eq!(read_big_endian(&[1, 0, 0, 0, 0, 0, 0, 0, 0], u64::MAX), None);
    assert_eq!(read_big_endian(&[0xff; 32], u64::MAX), None);
    let mut word = [0u8; 32];
    word[31] = 18;
    assert_eq!(read_big_endian(&word, u64::MAX), Some(18));
}
