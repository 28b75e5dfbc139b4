//! Smaller behaviours: data validation, hex rendering, metadata shapes,
//! and the decimal rendering of retry delays.

use edge_store::decfmt::{retry_secs_string, u64_to_dec};
use edge_store::hexcodec::{bytes_to_hex, hex_to_bytes};
use edge_store::store::FileMetadata;

#[test]
fn test_concurrent_operations() {
    // Test scenarios that might occur with concurrent access

    // Counter increment race condition simulation
    let mut count = 0;
    let increments = vec![1, 1, 1, 1, 1];
    for inc in increments {
        count += inc;
    }
    assert_eq!(count, 5);

    // Session update ordering
    let mut timestamps = vec![100, 200, 150, 300, 250];
    timestamps.sort();
    assert_eq!(timestamps.last(), Some(&300));
}

#[test]
fn test_data_validation() {
    // Test data validation scenarios

    // 1. Validate counter bounds
    let valid_count = 42;
    assert!(valid_count >= i32::MIN && valid_count <= i32::MAX);

    // 2. Validate timestamps
    let timestamp = 1234567890u64;
    assert!(timestamp > 0);

    // 3. Validate file sizes
    let file_size = 1024 * 1024; // 1MB
    assert!(file_size > 0);
    assert!(file_size < 100 * 1024 * 1024); // Less than 100MB

    // 4. Validate content types
    let valid_types = vec!["text/plain", "application/json", "image/png"];
    for content_type in valid_types {
        assert!(content_type.contains("/"));
    }
}

#[test]
fn test_memory_safety() {
    // Test memory safety scenarios

    // 1. Vector bounds
    let vec = vec![1, 2, 3];
    assert_eq!(vec.get(0), Some(&1));
    assert_eq!(vec.get(10), None);

    // 2. String slicing
    let s = "hello";
    assert_eq!(&s[0..2], "he");

    // 3. Option handling
    let opt: Option<i32> = None;
    assert_eq!(opt.unwrap_or(42), 42);

    // 4. Result handling
    let result: Result<i32, &str> = Err("error");
    assert_eq!(result.unwrap_or_else(|_| 0), 0);
}

#[test]
fn test_content_type_inference() {
    let test_cases = vec![
        ("file.txt", "text/plain"),
        ("file.html", "text/html"),
        ("file.json", "application/json"),
        ("file.jpg", "image/jpeg"),
        ("file.jpeg", "image/jpeg"),
        ("file.png", "image/png"),
        ("file.gif", "image/gif"),
        ("file.pdf", "application/pdf"),
        ("file.unknown", "application/octet-stream"),
        ("file", "application/octet-stream"),
    ];

    for (filename, expected_type) in test_cases {
        let inferred = match filename.split('.').last() {
            Some("txt") => "text/plain",
            Some("html") => "text/html",
            Some("json") => "application/json",
            Some("jpg") | Some("jpeg") => "image/jpeg",
            Some("png") => "image/png",
            Some("gif") => "image/gif",
            Some("pdf") => "application/pdf",
            _ => "application/octet-stream",
        };
        assert_eq!(inferred, expected_type, "Failed for file: {}", filename);
    }
}

#[test]
fn test_bytes_to_hex() {
    assert_eq!(bytes_to_hex(&[0x00, 0xFF, 0x42]), "00ff42");
    assert_eq!(bytes_to_hex(&[]), "");
    assert_eq!(bytes_to_hex(&[0xDE, 0xAD, 0xBE, 0xEF]), "deadbeef");
}

#[test]
fn test_file_metadata_creation() {
    let metadata = FileMetadata {
        key: "test.txt".to_string(),
        size: 1024,
        content_type: Some("text/plain".to_string()),
        uploaded_at: 1234567890,
        sha256: None,
    };

    assert_eq!(metadata.key, "test.txt");
    assert_eq!(metadata.size, 1024);
    assert_eq!(metadata.content_type, Some("text/plain".to_string()));
    assert_eq!(metadata.uploaded_at, 1234567890);
}

#[test]
fn test_hex_to_bytes_roundtrip() {
    assert_eq!(hex_to_bytes("00ff42"), Some(vec![0x00, 0xFF, 0x42]));
    assert_eq!(hex_to_bytes("deadbeef"), Some(vec![0xDE, 0xAD, 0xBE, 0xEF]));
    assert_eq!(hex_to_bytes("DEADBEEF"), Some(vec![0xDE, 0xAD, 0xBE, 0xEF]));
    assert_eq!(hex_to_bytes(""), Some(vec![]));
    // A non-digit anywhere rejects the whole string
    assert_eq!(hex_to_bytes("zz"), None);
    assert_eq!(hex_to_bytes("00zz"), None);
}

#[test]
fn test_decimal_rendering() {
    assert_eq!(u64_to_dec(0), "0");
    assert_eq!(u64_to_dec(7), "7");
    assert_eq!(u64_to_dec(10), "10");
    assert_eq!(u64_to_dec(1234567890), "1234567890");
}

#[test]
fn test_retry_seconds_rendering() {
    assert_eq!(retry_secs_string(0), "0");
    assert_eq!(retry_secs_string(1000), "1");
    assert_eq!(retry_secs_string(500), "0.5");
    assert_eq!(retry_secs_string(50), "0.05");
    assert_eq!(retry_secs_string(5), "0.005");
    assert_eq!(retry_secs_string(123), "0.123");
    assert_eq!(retry_secs_string(120), "0.12");
    assert_eq!(retry_secs_string(1500), "1.5");
    assert_eq!(retry_secs_string(61_001), "61.001");
}
