use harnessd::cache::{check_snippet_caps, compute_hash, CapError};

#[test]
fn test_compute_hash() {
    let hash1 = compute_hash("content1");
    let hash2 = compute_hash("content1");
    let hash3 = compute_hash("content2");

    // Same content produces same hash
    assert_eq!(hash1, hash2);

    // Different content produces different hash
    assert_ne!(hash1, hash3);

    // Hash is hexadecimal
    assert!(hash1.chars().all(|c| c.is_ascii_hexdigit()));
}

#[test]
fn hashes_are_sixteen_hex_digits() {
    assert_eq!(compute_hash("").len(), 16);
    assert_eq!(compute_hash("x").len(), 16);
}

#[test]
fn snippet_caps_count_lines_then_bytes() {
    assert!(check_snippet_caps("ok").is_ok());
    assert!(matches!(
        check_snippet_caps(&"x\n".repeat(21)),
        Err(CapError::TooManyLines(21))
    ));
    assert!(matches!(
        check_snippet_caps(&"x".repeat(2049)),
        Err(CapError::TooManyBytes(2049))
    ));
}
