use tempdrop::id::{
    header_filename, id_from_bytes, new_id, new_token, pct_encode, sanitize_name,
    token_from_bytes, NameError,
};

#[test]
fn ids_are_12_base62() {
    for _ in 0..50 {
        let id = new_id();
        assert_eq!(id.len(), 12);
        assert!(id.chars().all(|c| c.is_ascii_alphanumeric()));
    }
}

#[test]
fn tokens_are_64_hex() {
    let t = new_token();
    assert_eq!(t.len(), 64);
    assert!(t.chars().all(|c| c.is_ascii_hexdigit()));
}

#[test]
fn sanitize_strips_control_and_trims() {
    assert_eq!(sanitize_name("  hi\r\n\x07there  ").unwrap(), "hithere");
    assert!(sanitize_name("   \t\n").is_err());
    assert!(sanitize_name(&"a".repeat(2049)).is_err());
    assert_eq!(sanitize_name(&"a".repeat(2048)).unwrap().len(), 2048);
}

#[test]
fn sanitize_reports_each_error() {
    assert_eq!(sanitize_name("").unwrap_err(), NameError::Empty);
    assert_eq!(sanitize_name("\u{7f}\u{85}\u{9f}").unwrap_err(), NameError::Empty);
    assert_eq!(sanitize_name(&"b".repeat(3000)).unwrap_err(), NameError::TooLong);
    assert_eq!(NameError::Empty.message(), "filename is empty");
    assert_eq!(NameError::TooLong.message(), "filename exceeds 2048 chars");
    // a non-breaking space is whitespace; it is trimmed but kept inside
    assert_eq!(sanitize_name("\u{a0}a\u{a0}b\u{a0}").unwrap(), "a\u{a0}b");
    // 2048 characters that take more than 2048 bytes are still accepted
    assert_eq!(sanitize_name(&"é".repeat(2048)).unwrap().chars().count(), 2048);
}

#[test]
fn header_filename_neutralizes_danger() {
    assert!(!header_filename("a\"b").contains('"'));
    assert_eq!(header_filename("x\r\ny"), "x__y");
}

#[test]
fn header_filename_replaces_backslash() {
    assert_eq!(header_filename("a\\b\"c"), "a_b_c");
    assert_eq!(header_filename("plain.txt"), "plain.txt");
}

#[test]
fn pct_encode_encodes_non_ascii() {
    assert_eq!(pct_encode("café.pdf"), "caf%C3%A9.pdf");
}

#[test]
fn pct_encode_keeps_unreserved_only() {
    assert_eq!(pct_encode("A-z_0.9~"), "A-z_0.9~");
    assert_eq!(pct_encode("a b/c"), "a%20b%2Fc");
    assert_eq!(pct_encode(""), "");
}

#[test]
fn id_and_token_encodings_are_exact() {
    assert_eq!(id_from_bytes(&vec![0, 9, 10, 35, 36, 61, 62, 255]), "09AZaz07");
    assert_eq!(token_from_bytes(&vec![0x00, 0xab, 0x0f, 0xff]), "00ab0fff");
}

#[test]
fn pct_encode_emits_only_unreserved_and_percent() {
    let out = pct_encode("x\r\n\"%;é ~");
    assert_eq!(out, "x%0D%0A%22%25%3B%C3%A9%20~");
    assert!(out
        .chars()
        .all(|c| c.is_ascii_alphanumeric() || "-_.~%".contains(c)));
}
