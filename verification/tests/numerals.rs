use lidar::ascii::{
    is_digit, is_hex_digit, is_not_end, is_space, lowercase, scan_run, ByteClass,
};
use lidar::hex::{hex_digit_value, parse_hex, push_hex};

#[test]
fn end_delimiter_is_the_only_end() {
    for byte in 0..=255u8 {
        assert_eq!(is_not_end(byte), byte != 0x03);
    }
}

#[test]
fn byte_classes() {
    for byte in 0..=255u8 {
        assert_eq!(is_digit(byte), byte.is_ascii_digit());
        assert_eq!(is_hex_digit(byte), byte.is_ascii_hexdigit());
        assert_eq!(is_space(byte), byte == b' ' || byte == b'\t');
        assert_eq!(lowercase(byte), byte.to_ascii_lowercase());
        assert_eq!(ByteClass::Space.contains(byte), is_space(byte));
        assert_eq!(ByteClass::NonSpace.contains(byte), !is_space(byte));
        assert_eq!(ByteClass::HexDigit.contains(byte), is_hex_digit(byte));
        assert_eq!(ByteClass::NotEnd.contains(byte), is_not_end(byte));
    }
}

#[test]
fn runs_end_at_the_first_byte_outside_the_class() {
    let input = b"ab  \tcd\x03";
    assert_eq!(scan_run(input, 0, ByteClass::NonSpace), 2);
    assert_eq!(scan_run(input, 2, ByteClass::Space), 5);
    assert_eq!(scan_run(input, 2, ByteClass::NonSpace), 2);
    assert_eq!(scan_run(input, 5, ByteClass::HexDigit), 7);
    assert_eq!(scan_run(input, 0, ByteClass::NotEnd), 7);
    assert_eq!(scan_run(input, 5, ByteClass::NonSpace), 8);
    assert_eq!(scan_run(input, 8, ByteClass::NonSpace), 8);
    assert_eq!(scan_run(input, 11, ByteClass::NonSpace), 11);
}

#[test]
fn hex_digit_values() {
    assert_eq!(hex_digit_value(b'0'), 0);
    assert_eq!(hex_digit_value(b'9'), 9);
    assert_eq!(hex_digit_value(b'a'), 10);
    assert_eq!(hex_digit_value(b'F'), 15);
    assert_eq!(hex_digit_value(b'g'), 0);
    for (value, digit) in b"0123456789ABCDEF".iter().enumerate() {
        assert_eq!(hex_digit_value(*digit) as usize, value);
        assert_eq!(hex_digit_value(digit.to_ascii_lowercase()) as usize, value);
    }
}

#[test]
fn hex_numerals_are_read_in_either_case() {
    assert_eq!(parse_hex(b"1e"), Some(30));
    assert_eq!(parse_hex(b"1E"), Some(30));
    assert_eq!(parse_hex(b"00ff"), Some(255));
    assert_eq!(parse_hex(b""), Some(0));
    assert_eq!(parse_hex(b"DeadBeef"), Some(0xdead_beef));
    assert_eq!(parse_hex(b"1g"), Some(16));
}

#[test]
fn hex_numerals_that_do_not_fit_are_refused() {
    let widest = format!("{:x}", usize::MAX);
    assert_eq!(parse_hex(widest.as_bytes()), Some(usize::MAX));
    let padded = format!("000{:X}", usize::MAX);
    assert_eq!(parse_hex(padded.as_bytes()), Some(usize::MAX));
    let wider = format!("{:x}0", usize::MAX);
    assert_eq!(parse_hex(wider.as_bytes()), None);
    let one_more = format!("1{}", "0".repeat(2 * std::mem::size_of::<usize>()));
    assert_eq!(parse_hex(one_more.as_bytes()), None);
}

#[test]
fn hex_numerals_are_written_upper_case_and_short() {
    let cases: [(usize, &str); 7] =
        [(0, "0"), (9, "9"), (10, "A"), (16, "10"), (30, "1E"), (255, "FF"), (0xabc, "ABC")];
    for (value, text) in cases {
        let mut out = b"<".to_vec();
        push_hex(&mut out, value);
        assert_eq!(out, format!("<{}", text).into_bytes());
    }
    let mut out = Vec::new();
    push_hex(&mut out, usize::MAX);
    assert_eq!(out, format!("{:X}", usize::MAX).into_bytes());
}
