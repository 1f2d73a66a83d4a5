use my_http_client::byte_utils::{
    append, eq_ignore_case, find_byte_pos, format_decimal, parse_decimal, trim,
};

#[test]
fn append_puts_bytes_behind() {
    let mut dest = b"ab".to_vec();
    append(&mut dest, b"cd");
    append(&mut dest, b"");
    assert_eq!(dest, b"abcd".to_vec());
}

#[test]
fn find_byte_pos_finds_the_first_from_the_start_given() {
    assert_eq!(find_byte_pos(b"a:b:c", b':', 0), Some(1));
    assert_eq!(find_byte_pos(b"a:b:c", b':', 1), Some(1));
    assert_eq!(find_byte_pos(b"a:b:c", b':', 2), Some(3));
    assert_eq!(find_byte_pos(b"a:b:c", b':', 4), None);
    assert_eq!(find_byte_pos(b"a:b:c", b':', 50), None);
    assert_eq!(find_byte_pos(b"", b':', 0), None);
}

#[test]
fn eq_ignore_case_folds_ascii_letters_only() {
    assert!(eq_ignore_case(b"Content-Length", b"content-length"));
    assert!(eq_ignore_case(b"", b""));
    assert!(!eq_ignore_case(b"abc", b"abcd"));
    assert!(!eq_ignore_case(b"@", b"`"));
    assert!(!eq_ignore_case(b"[", b"{"));
    assert!(eq_ignore_case(b"Z", b"z"));
}

#[test]
fn trim_strips_ascii_white_space_at_both_ends() {
    assert_eq!(trim(b"  a b \t\r\n"), b"a b");
    assert_eq!(trim(b"   "), b"");
    assert_eq!(trim(b""), b"");
    assert_eq!(trim(b"x"), b"x");
    assert_eq!(trim(b"\x0cx\x0b"), b"x\x0b");
}

#[test]
fn parse_decimal_reads_numbers() {
    assert_eq!(parse_decimal(b"0"), Some(0));
    assert_eq!(parse_decimal(b"5"), Some(5));
    assert_eq!(parse_decimal(b"0123"), Some(123));
    assert_eq!(parse_decimal(b"+17"), Some(17));
    assert_eq!(parse_decimal(b""), None);
    assert_eq!(parse_decimal(b"+"), None);
    assert_eq!(parse_decimal(b"-1"), None);
    assert_eq!(parse_decimal(b"12a"), None);
    assert_eq!(parse_decimal(b" 12"), None);
    let max = usize::MAX.to_string();
    assert_eq!(parse_decimal(max.as_bytes()), Some(usize::MAX));
    let over = format!("{}0", max);
    assert_eq!(parse_decimal(over.as_bytes()), None);
    assert_eq!(parse_decimal(b"99999999999999999999999999999999x"), None);
}

#[test]
fn format_decimal_writes_numbers() {
    assert_eq!(format_decimal(0), b"0".to_vec());
    assert_eq!(format_decimal(7), b"7".to_vec());
    assert_eq!(format_decimal(10), b"10".to_vec());
    assert_eq!(format_decimal(65535), b"65535".to_vec());
    assert_eq!(format_decimal(usize::MAX), usize::MAX.to_string().into_bytes());
}

#[test]
fn decimal_round_trip() {
    for n in [0usize, 1, 9, 10, 99, 100, 12345, 1 << 40] {
        assert_eq!(parse_decimal(&format_decimal(n)), Some(n));
    }
}
