use openvpn_flutter_rust::error::OpenVpnError;
use openvpn_flutter_rust::text::{
    chars_of, contains_str, find, is_whitespace, join_chars, lines, parse_unsigned_chars,
    push_decimal, push_hex_width, replace_chars, slice_bytes, slice_chars, splitn_chars,
    starts_with_str, strip_prefix_str, trim_chars, trim_start_matches_str,
};
use openvpn_flutter_rust::utf16::{
    decode_utf16_lossy_units, encode_utf16_str, push_le_bytes, units_from_le_bytes,
};

fn cs(s: &str) -> Vec<char> {
    s.chars().collect()
}

fn st(v: &[char]) -> String {
    v.iter().collect()
}

#[test]
fn error_texts() {
    assert_eq!(OpenVpnError::BinaryNotFound("p".into()).message(), "Binary not found: p");
    assert_eq!(OpenVpnError::ProcessExecutionFailed("x".into()).message(), "Process execution failed: x");
    assert_eq!(OpenVpnError::ConfigurationError("c".into()).message(), "Configuration error: c");
    assert_eq!(OpenVpnError::ConnectionFailed("f".into()).message(), "Connection failed: f");
    assert_eq!(OpenVpnError::Utf8Error.message(), "UTF-8 conversion error");
    assert_eq!(OpenVpnError::ServiceIpcFailed("s".into()).message(), "Service IPC failed: s");
    assert_eq!(
        OpenVpnError::ServiceStartupRejected { code: 0xABC, message: "m".into() }.message(),
        "Service startup rejected (0x00000ABC): m"
    );
    let io = std::io::Error::new(std::io::ErrorKind::Other, "disk full");
    assert_eq!(OpenVpnError::IoError(io).message(), "IO error: disk full");
}

#[test]
fn searching() {
    assert_eq!(find(&cs("hello world"), &cs("o w")), Some(4));
    assert_eq!(find(&cs("hello"), &cs("")), Some(0));
    assert_eq!(find(&cs("hello"), &cs("xyz")), None);
    assert!(contains_str(&cs("abc"), "bc"));
    assert!(!contains_str(&cs("abc"), "cb"));
    assert!(starts_with_str(&cs(">STATE:1"), ">STATE:"));
    assert!(!starts_with_str(&cs(">ST"), ">STATE:"));
}

#[test]
fn trimming_and_prefixes() {
    assert_eq!(st(&trim_chars(&cs(" \t a b \n"))), "a b");
    assert_eq!(st(&trim_chars(&cs("   "))), "");
    assert!(is_whitespace('\u{3000}'));
    assert!(!is_whitespace('x'));
    assert_eq!(st(&trim_start_matches_str(&cs("0x0x1f"), "0x")), "1f");
    assert_eq!(strip_prefix_str(&cs(">LOG:m"), ">LOG:").map(|v| st(&v)), Some("m".to_string()));
    assert_eq!(strip_prefix_str(&cs("LOG:m"), ">LOG:"), None);
    assert_eq!(st(&slice_chars(&cs("abcdef"), 1, 4)), "bcd");
    assert_eq!(st(&replace_chars(&cs("a\rb\r"), '\r', ' ')), "a b ");
}

#[test]
fn lines_and_fields() {
    let ls: Vec<String> = lines(&cs("a\r\nb\n\nc")).iter().map(|l| st(l)).collect();
    assert_eq!(ls, vec!["a", "b", "", "c"]);
    assert!(lines(&cs("")).is_empty());
    assert_eq!(lines(&cs("x\n")).len(), 1);
    let ps: Vec<String> = splitn_chars(&cs("1,2,3,4"), ',', 3).iter().map(|p| st(p)).collect();
    assert_eq!(ps, vec!["1", "2", "3,4"]);
    assert_eq!(splitn_chars(&cs(""), ',', 2).len(), 1);
    assert_eq!(join_chars(&vec![cs("a"), cs("b"), cs("")], "\n"), "a\nb\n");
    assert_eq!(join_chars(&vec![], "\n"), "");
}

#[test]
fn numbers() {
    assert_eq!(parse_unsigned_chars(&cs("12345"), 10, u64::MAX), Some(12345));
    assert_eq!(parse_unsigned_chars(&cs("+7"), 10, u64::MAX), Some(7));
    assert_eq!(parse_unsigned_chars(&cs("+"), 10, u64::MAX), None);
    assert_eq!(parse_unsigned_chars(&cs(""), 10, u64::MAX), None);
    assert_eq!(parse_unsigned_chars(&cs("-1"), 10, u64::MAX), None);
    assert_eq!(parse_unsigned_chars(&cs("fF"), 16, 0xFFFF_FFFF), Some(255));
    assert_eq!(parse_unsigned_chars(&cs("100000000"), 16, 0xFFFF_FFFF), None);
    assert_eq!(parse_unsigned_chars(&cs("18446744073709551616"), 10, u64::MAX), None);
    let mut s = String::from("n=");
    push_decimal(&mut s, 0);
    push_decimal(&mut s, 9_007);
    assert_eq!(s, "n=09007");
    let mut h = String::new();
    push_hex_width(&mut h, 0xAB, 8, true);
    push_hex_width(&mut h, 0xAB, 2, false);
    push_hex_width(&mut h, 0x12345, 2, false);
    assert_eq!(h, "000000ABab45");
}

#[test]
fn utf16_round_trip() {
    assert_eq!(encode_utf16_str("A\u{1F600}"), vec![0x41, 0xD83D, 0xDE00]);
    let mut bytes = vec![9u8];
    push_le_bytes(&mut bytes, &[0x0102, 0xFFFE]);
    assert_eq!(bytes, vec![9, 0x02, 0x01, 0xFE, 0xFF]);
    assert_eq!(units_from_le_bytes(&[0x02, 0x01, 0x41]), vec![0x0102]);
    assert_eq!(decode_utf16_lossy_units(&[0x41, 0xD83D, 0xDE00, 0xDC00, 0x42, 0xD800]), "A\u{1F600}\u{FFFD}B\u{FFFD}");
    let text = "héllo \u{1F600}";
    assert_eq!(decode_utf16_lossy_units(&encode_utf16_str(text)), text);
}

#[test]
fn byte_prefixes() {
    assert_eq!(slice_bytes(b"abcdef", 3), b"abc".to_vec());
    assert_eq!(slice_bytes(b"abc", 0), Vec::<u8>::new());
}
