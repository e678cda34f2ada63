use four_byte_counts::parse_signature_size;
use four_byte_counts::selector_from_signature;
use four_byte_counts::CollectError;

#[test]
fn test_parse_valid_full_function_signature() {
    let signature = "transfer(address,uint256)";
    let result = parse_signature_size(signature);

    assert!(result.is_ok(), "Parsing full function signature should succeed");
    let (bytes, size) = result.unwrap();
    assert_eq!(bytes.len(), 4, "Should return a 4-byte array for the selector");
    assert_eq!(size, 0, "Placeholder size should be 0 for full function signatures");
}

#[test]
fn test_parse_valid_4byte_size_pair() {
    let signature_size = "a9059cbb-64";
    let result = parse_signature_size(signature_size);

    assert!(result.is_ok(), "Parsing valid 4byte-size pair should succeed");
    let (bytes, size) = result.unwrap();
    assert_eq!(bytes.len(), 4, "Should return a 4-byte array for the selector");
    assert_eq!(size, 64, "Size should be correctly parsed from the input");
}

#[test]
fn test_parse_invalid_input() {
    let invalid_input = "invalid-input";
    let result = parse_signature_size(invalid_input);

    assert!(result.is_err(), "Parsing invalid input should fail");
}

#[test]
fn parse_4byte_size_pair_exact_bytes() {
    let (bytes, size) = parse_signature_size("a9059cbb-64").unwrap();
    assert_eq!(bytes, vec![0xa9, 0x05, 0x9c, 0xbb]);
    assert_eq!(size, 64);
}

#[test]
fn parse_with_hex_prefix_matches_bare_form() {
    let bare = parse_signature_size("a9059cbb-64").unwrap();
    let prefixed = parse_signature_size("0xa9059cbb-64").unwrap();
    assert_eq!(bare, prefixed);
}

#[test]
fn parse_repeated_hex_prefix_is_stripped() {
    let (bytes, size) = parse_signature_size("0x0xab-3").unwrap();
    assert_eq!(bytes, vec![0xab]);
    assert_eq!(size, 3);
}

#[test]
fn parse_non_hex_segment_fails_with_invalid_hex() {
    assert_eq!(parse_signature_size("invalid-input"), Err(CollectError::InvalidHex));
}

#[test]
fn parse_odd_length_hex_fails_with_invalid_hex() {
    assert_eq!(parse_signature_size("abc-5"), Err(CollectError::InvalidHex));
}

#[test]
fn parse_non_numeric_size_fails_with_invalid_size() {
    assert_eq!(parse_signature_size("ab-xyz"), Err(CollectError::InvalidSize));
}

#[test]
fn parse_empty_size_fails_with_invalid_size() {
    assert_eq!(parse_signature_size("ab-"), Err(CollectError::InvalidSize));
}

#[test]
fn parse_without_separator_fails_with_malformed_pair() {
    assert_eq!(parse_signature_size("nodash"), Err(CollectError::MalformedPair));
}

#[test]
fn parse_empty_hex_segment_yields_no_bytes() {
    let (bytes, size) = parse_signature_size("-5").unwrap();
    assert_eq!(bytes, Vec::<u8>::new());
    assert_eq!(size, 5);
}

#[test]
fn parse_uppercase_hex_digits() {
    let (bytes, size) = parse_signature_size("AB0F-7").unwrap();
    assert_eq!(bytes, vec![0xab, 0x0f]);
    assert_eq!(size, 7);
}

#[test]
fn parse_largest_size_fits() {
    let (_, size) = parse_signature_size("ab-18446744073709551615").unwrap();
    assert_eq!(size, u64::MAX);
}

#[test]
fn parse_overflowing_size_fails_with_invalid_size() {
    assert_eq!(
        parse_signature_size("ab-18446744073709551616"),
        Err(CollectError::InvalidSize)
    );
}

#[test]
fn full_signature_selector_is_known_transfer_selector() {
    let (bytes, size) = parse_signature_size("transfer(address,uint256)").unwrap();
    assert_eq!(bytes, vec![0xa9, 0x05, 0x9c, 0xbb]);
    assert_eq!(size, 0);
}

#[test]
fn selector_from_signature_is_deterministic() {
    let a = selector_from_signature("balanceOf(address)");
    let b = selector_from_signature("balanceOf(address)");
    assert_eq!(a, b);
    assert_eq!(a.len(), 4);
}

#[test]
fn selector_differs_between_signatures() {
    let a = selector_from_signature("transfer(address,uint256)");
    let b = selector_from_signature("approve(address,uint256)");
    assert_ne!(a, b);
}

#[test]
fn error_messages_distinguish_the_causes() {
    assert_eq!(
        CollectError::MalformedPair.message(),
        "could not parse 4byte-size pair"
    );
    assert_eq!(
        CollectError::InvalidHex.message(),
        "could not parse signature bytes"
    );
    assert_eq!(
        CollectError::InvalidSize.message(),
        "could not parse call data size"
    );
    assert_eq!(CollectError::SchemaNotProvided.message(), "schema not provided");
}
