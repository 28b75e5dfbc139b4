//! End-to-end flows through the content-addressed store: deduplication,
//! the integrity round trip, not-modified semantics, self-healing, rate
//! limiting, and the HTTP-shaped surface on top.

use edge_store::digest::compute_sha256;
use edge_store::r2_http::{handle_r2_request, R2Reply};
use edge_store::rate_limiter::RateLimiter;
use edge_store::routes::HttpMethod;
use edge_store::store::{Store, StoreError};

const HELLO_SHA256: &str = "2cf24dba5fb0a30e26e83b2ac5b9e29e1b161e5c1fa7425e73043362938b9824";

#[test]
fn test_compute_sha256_known_values() {
    assert_eq!(compute_sha256(b"hello"), HELLO_SHA256);
    assert_eq!(
        compute_sha256(b""),
        "e3b0c44298fc1c149afbf4c8996fb92427ae41e4649b934ca495991b7852b855"
    );
}

#[test]
fn test_upload_scenario() {
    // Upload "hello" under a.txt: the response carries the hash and size
    let mut store = Store::new(None);
    let out = store
        .upload("a.txt", b"hello".to_vec(), Some("text/plain"), 1_000)
        .unwrap();
    assert!(out.modified);
    assert_eq!(out.metadata.key, "a.txt");
    assert_eq!(out.metadata.size, 5);
    assert_eq!(out.metadata.sha256.as_deref(), Some(HELLO_SHA256));
    assert_eq!(out.metadata.uploaded_at, 1_000);

    // Re-upload the same bytes: the not-modified variant, creation kept
    let out2 = store
        .upload("a.txt", b"hello".to_vec(), Some("text/plain"), 2_000)
        .unwrap();
    assert!(!out2.modified);
    let rec = store.get_mapping("a.txt").unwrap();
    assert_eq!(rec.created_at, 1_000);
    assert_eq!(rec.updated_at, 2_000);

    // Different bytes to the same filename: a new hash, creation kept
    let out3 = store
        .upload("a.txt", b"world".to_vec(), Some("text/plain"), 3_000)
        .unwrap();
    assert!(out3.modified);
    assert_ne!(out3.metadata.sha256.as_deref(), Some(HELLO_SHA256));
    let rec = store.get_mapping("a.txt").unwrap();
    assert_eq!(rec.created_at, 1_000);
    assert_eq!(rec.updated_at, 3_000);
}

#[test]
fn test_dedup_two_filenames_one_blob() {
    let mut store = Store::new(None);
    store.upload("a.txt", b"same bytes".to_vec(), None, 1_000).unwrap();
    assert_eq!(store.blob_count(), 1);
    store.upload("b.txt", b"same bytes".to_vec(), None, 2_000).unwrap();
    // Identical bytes under a second filename write no second blob
    assert_eq!(store.blob_count(), 1);
    let ra = store.get_mapping("a.txt").unwrap();
    let rb = store.get_mapping("b.txt").unwrap();
    assert_eq!(ra.sha256, rb.sha256);
}

#[test]
fn test_download_roundtrip() {
    let mut store = Store::new(None);
    store.upload("a.txt", b"hello".to_vec(), Some("text/plain"), 1_000).unwrap();
    let (bytes, sha, content_type) = store.download("a.txt").unwrap().unwrap();
    assert_eq!(bytes, b"hello".to_vec());
    assert_eq!(sha, HELLO_SHA256);
    assert_eq!(content_type.as_deref(), Some("text/plain"));
    assert_eq!(compute_sha256(&bytes), compute_sha256(b"hello"));
}

#[test]
fn test_download_missing() {
    let mut store = Store::new(None);
    assert!(store.download("missing.txt").unwrap().is_none());
}

#[test]
fn test_self_heal_on_missing_blob() {
    let mut store = Store::new(None);
    store.upload("a.txt", b"hello".to_vec(), None, 1_000).unwrap();

    // The blob disappears out of band (lifecycle eviction)
    let blob_key = format!("blobs/{}", HELLO_SHA256);
    store.remove_blob(&blob_key);

    // The download reports not-found and heals the dangling mapping
    assert!(store.download("a.txt").unwrap().is_none());
    assert!(store.get_mapping("a.txt").is_none());
}

#[test]
fn test_delete_keeps_blob() {
    let mut store = Store::new(None);
    store.upload("a.txt", b"hello".to_vec(), None, 1_000).unwrap();
    store.upload("b.txt", b"hello".to_vec(), None, 2_000).unwrap();
    store.delete("a.txt");
    assert!(store.get_mapping("a.txt").is_none());
    // The blob stays: b.txt still downloads
    assert_eq!(store.blob_count(), 1);
    let (bytes, _, _) = store.download("b.txt").unwrap().unwrap();
    assert_eq!(bytes, b"hello".to_vec());
    // Deleting an absent filename is not an error
    store.delete("a.txt");
}

#[test]
fn test_store_rate_limit() {
    let mut store = Store::new(Some(RateLimiter::new(1)));

    // First write allowed
    assert!(store.upload("k.txt", b"one".to_vec(), None, 10_000).is_ok());

    // Second write to the same key within the window is denied with the
    // exact retry delay, and changes nothing
    match store.upload("k.txt", b"two".to_vec(), None, 10_400) {
        Err(StoreError::RateLimited { retry_after_ms }) => {
            assert_eq!(retry_after_ms, 600);
        }
        _ => panic!("expected a rate-limited upload"),
    }
    let (bytes, _, _) = store.download("k.txt").unwrap().unwrap();
    assert_eq!(bytes, b"one".to_vec());

    // An independent key is allowed at the same instant
    assert!(store.upload("other.txt", b"two".to_vec(), None, 10_400).is_ok());

    // After the window has passed, the key is writable again
    assert!(store.upload("k.txt", b"two".to_vec(), None, 11_001).is_ok());
}

#[test]
fn test_store_fail_open_without_limiter() {
    let mut store = Store::new(None);
    // With no coordinator configured, back-to-back writes are all allowed
    assert!(store.upload("k.txt", b"one".to_vec(), None, 10_000).is_ok());
    assert!(store.upload("k.txt", b"two".to_vec(), None, 10_001).is_ok());
    assert!(store.upload("k.txt", b"three".to_vec(), None, 10_002).is_ok());
}

#[test]
fn test_store_list_prefix() {
    let mut store = Store::new(None);
    store.upload("file1.txt", b"a".to_vec(), None, 1_000).unwrap();
    store.upload("images/photo1.jpg", b"b".to_vec(), None, 2_000).unwrap();
    store.upload("images/photo2.png", b"c".to_vec(), None, 3_000).unwrap();
    store.upload("docs/readme.md", b"d".to_vec(), None, 4_000).unwrap();

    let all = store.list(None);
    assert_eq!(all.len(), 4);

    let mut images = store.list(Some("images/"));
    images.sort();
    assert_eq!(images, vec!["images/photo1.jpg", "images/photo2.png"]);

    let videos = store.list(Some("videos/"));
    assert!(videos.is_empty());
}

#[test]
fn test_http_surface_upload_download() {
    let mut store = Store::new(None);

    // PUT the file
    let r = handle_r2_request(
        &mut store,
        HttpMethod::Put,
        "a.txt",
        b"hello".to_vec(),
        Some("text/plain"),
        1_000,
    );
    assert_eq!(r.status(), 200);

    // PUT the same bytes again: 304, still carrying the metadata
    let r = handle_r2_request(
        &mut store,
        HttpMethod::Put,
        "a.txt",
        b"hello".to_vec(),
        Some("text/plain"),
        2_000,
    );
    assert_eq!(r.status(), 304);
    match r {
        R2Reply::Uploaded { metadata, not_modified } => {
            assert!(not_modified);
            assert_eq!(metadata.sha256.as_deref(), Some(HELLO_SHA256));
        }
        _ => panic!("expected an upload reply"),
    }

    // GET it back, with the digest header carrying the base64 digest
    let r = handle_r2_request(&mut store, HttpMethod::Get, "a.txt", Vec::new(), None, 3_000);
    assert_eq!(r.status(), 200);
    match r {
        R2Reply::File { bytes, content_type, content_digest } => {
            assert_eq!(bytes, b"hello".to_vec());
            assert_eq!(content_type, "text/plain");
            assert_eq!(
                content_digest,
                "sha-256=:LPJNul+wow4m6DsqxbninhsWHlwfp0JecwQzYpOLmCQ=:"
            );
        }
        _ => panic!("expected a file reply"),
    }

    // HEAD answers the headers only
    let r = handle_r2_request(&mut store, HttpMethod::Head, "a.txt", Vec::new(), None, 4_000);
    match r {
        R2Reply::FileHead { content_length, .. } => assert_eq!(content_length, 5),
        _ => panic!("expected a head reply"),
    }

    // HEAD of the listing is refused; GET of the listing works
    let r = handle_r2_request(&mut store, HttpMethod::Head, "", Vec::new(), None, 5_000);
    assert_eq!(r.status(), 405);
    let r = handle_r2_request(&mut store, HttpMethod::Get, "", Vec::new(), None, 5_000);
    match r {
        R2Reply::Listing(files) => assert_eq!(files, vec!["a.txt"]),
        _ => panic!("expected a listing"),
    }

    // DELETE, then the file is gone
    let r = handle_r2_request(&mut store, HttpMethod::Delete, "a.txt", Vec::new(), None, 6_000);
    assert_eq!(r.status(), 200);
    let r = handle_r2_request(&mut store, HttpMethod::Get, "a.txt", Vec::new(), None, 7_000);
    assert_eq!(r.status(), 404);
}

#[test]
fn test_http_surface_rate_limited() {
    let mut store = Store::new(Some(RateLimiter::new(1)));
    let r = handle_r2_request(
        &mut store,
        HttpMethod::Put,
        "k.txt",
        b"one".to_vec(),
        None,
        10_000,
    );
    assert_eq!(r.status(), 200);
    let r = handle_r2_request(
        &mut store,
        HttpMethod::Post,
        "k.txt",
        b"two".to_vec(),
        None,
        10_500,
    );
    assert_eq!(r.status(), 429);
    match r {
        R2Reply::RateLimited(h) => {
            assert_eq!(h.retry_after, "0.5");
            assert_eq!(h.limit, "1");
            assert_eq!(h.remaining, "0");
            assert_eq!(h.reset, 10);
        }
        _ => panic!("expected a rate-limited reply"),
    }
}

#[test]
fn test_served_content_type_default() {
    let mut store = Store::new(None);
    handle_r2_request(&mut store, HttpMethod::Put, "raw.bin", vec![1, 2, 3], None, 1_000);
    let r = handle_r2_request(&mut store, HttpMethod::Get, "raw.bin", Vec::new(), None, 2_000);
    match r {
        R2Reply::File { content_type, .. } => {
            assert_eq!(content_type, "application/octet-stream");
        }
        _ => panic!("expected a file reply"),
    }
}
