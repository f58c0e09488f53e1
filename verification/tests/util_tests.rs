use liveview::util::{
    contains_bytes, ends_with_bytes, find_bytes, format_i64, format_u64, parse_u32_ascii,
    put_be32, read_be32, starts_with_bytes,
};

#[test]
fn be32_round_trip() {
    let mut out: Vec<u8> = Vec::new();
    put_be32(&mut out, 0xDEADBEEF);
    assert_eq!(out, vec![0xDE, 0xAD, 0xBE, 0xEF]);
    assert_eq!(read_be32(&out, 0), 0xDEADBEEF);
}

#[test]
fn parse_u32_plain_and_signed() {
    assert_eq!(parse_u32_ascii(b"7"), Some(7));
    assert_eq!(parse_u32_ascii(b"+7"), Some(7));
    assert_eq!(parse_u32_ascii(b"0007"), Some(7));
    assert_eq!(parse_u32_ascii(b""), None);
    assert_eq!(parse_u32_ascii(b"+"), None);
    assert_eq!(parse_u32_ascii(b"12a"), None);
    assert_eq!(parse_u32_ascii(b"-3"), None);
}

#[test]
fn parse_u32_bounds() {
    assert_eq!(parse_u32_ascii(b"4294967295"), Some(u32::MAX));
    assert_eq!(parse_u32_ascii(b"4294967296"), None);
    assert_eq!(parse_u32_ascii(b"99999999999999999999"), None);
}

#[test]
fn format_decimal() {
    assert_eq!(format_u64(0), b"0".to_vec());
    assert_eq!(format_u64(1234567890), b"1234567890".to_vec());
    assert_eq!(format_i64(-5), b"-5".to_vec());
    assert_eq!(format_i64(i64::MIN), b"-9223372036854775808".to_vec());
    assert_eq!(format_i64(i64::MAX), b"9223372036854775807".to_vec());
}

#[test]
fn byte_searches() {
    assert!(contains_bytes(b"device is busy now", b"busy"));
    assert!(!contains_bytes(b"device is fine", b"busy"));
    assert_eq!(find_bytes(b"ababc", b"abc"), Some(2));
    assert_eq!(find_bytes(b"ababc", b"zzz"), None);
    assert!(starts_with_bytes(b"https://x", b"https://"));
    assert!(!starts_with_bytes(b"http://x", b"https://"));
    assert!(ends_with_bytes(b"a.blink.com", b".blink.com"));
    assert!(!ends_with_bytes(b"a.blink.org", b".blink.com"));
}
