//! The sliding-window rate limiter and its coordination actor.

use edge_store::rate_actor::{check_r2_rate_limit, RateActorReply, RateLimitResult, R2RateLimiterObject};
use edge_store::rate_limiter::RateLimiter;

#[test]
fn test_rate_limiter_allows_first_write() {
    let mut limiter = RateLimiter::new(1);
    assert!(limiter.check_rate_limit("test.txt").is_ok());
}

#[test]
fn test_rate_limiter_blocks_concurrent_writes() {
    let mut limiter = RateLimiter::new(1);

    // First write should succeed
    assert!(limiter.check_rate_limit("test.txt").is_ok());

    // Second write within the window should be blocked
    let result = limiter.check_rate_limit("test.txt");
    assert!(result.is_err());
    if let Err(millis) = result {
        assert!(millis > 0);
        assert!(millis <= 1000);
    }
}

#[test]
fn test_rate_limiter_different_keys() {
    let mut limiter = RateLimiter::new(1);

    // Writes to different keys should not interfere
    assert!(limiter.check_rate_limit("file1.txt").is_ok());
    assert!(limiter.check_rate_limit("file2.txt").is_ok());
    assert!(limiter.check_rate_limit("file3.txt").is_ok());
}

#[test]
fn test_cleanup_removes_old_entries() {
    let mut limiter = RateLimiter::new(1);

    // Add some entries: one with a very old timestamp, one recent
    limiter.check_rate_limit_at("test1.txt", 0).ok();
    limiter.check_rate_limit_at("test2.txt", 10_000).ok();

    limiter.cleanup_at(10_000);

    // Old entry should be removed
    assert!(!limiter.is_tracking("test1.txt"));
    assert!(limiter.is_tracking("test2.txt"));
}

#[test]
fn test_rate_limiter_memory_cleanup() {
    let mut limiter = RateLimiter::new(1);

    // Add entries for multiple keys
    for i in 0..100 {
        let key = format!("file-{}.txt", i);
        limiter.check_rate_limit(&key).ok();
    }

    // Cleanup should remove old entries
    limiter.cleanup();

    // The exact behavior depends on timing, but this ensures cleanup doesn't panic
}

#[test]
fn test_rate_limiter_concurrent_different_keys() {
    let mut limiter = RateLimiter::new(1);

    // Different keys should not interfere with each other
    let keys = vec![
        "file1.txt",
        "file2.txt",
        "file3.txt",
        "file4.txt",
        "file5.txt",
    ];

    // All first attempts should succeed
    for key in &keys {
        assert!(
            limiter.check_rate_limit(key).is_ok(),
            "First write to {} should succeed",
            key
        );
    }

    // Second attempts should fail
    for key in &keys {
        assert!(
            limiter.check_rate_limit(key).is_err(),
            "Second write to {} should be rate limited",
            key
        );
    }
}

#[test]
fn test_rate_limiter_retry_duration() {
    let mut limiter = RateLimiter::new(1);

    // First write succeeds
    limiter.check_rate_limit("test.txt").unwrap();

    // Second write should fail with retry duration
    if let Err(millis) = limiter.check_rate_limit("test.txt") {
        // Retry duration should be positive but less than window
        assert!(millis > 0);
        assert!(millis <= 1000);
    } else {
        panic!("Expected rate limit error");
    }
}

#[test]
fn test_rate_limiter_window_expiry() {
    let mut limiter = RateLimiter::new(1);

    // Add a write with a timestamp in the past
    // This simulates waiting for the window to expire
    limiter.check_rate_limit_at("test.txt", 5_000).unwrap();

    // After a full window the next write is allowed again
    assert!(limiter.check_rate_limit_at("test.txt", 6_001).is_ok());

    // Manually clear old entries
    limiter.cleanup_at(10_000);
    assert!(!limiter.is_tracking("test.txt"));
}

#[test]
fn test_rate_limit_result_enum() {
    // Test that RateLimitResult can be constructed
    let allowed = RateLimitResult::Allowed;
    assert!(matches!(allowed, RateLimitResult::Allowed));
}

#[test]
fn test_path_validation_for_rate_limiter() {
    // Test various path formats that might be sent to the rate limiter
    let valid_paths = vec![
        "/check/file.txt",
        "/check/path/to/file.txt",
        "/check/file-name-123.dat",
    ];

    for path in valid_paths {
        assert!(path.starts_with("/check/"));
        let key = path.strip_prefix("/check/").unwrap();
        assert!(!key.is_empty());
    }

    // Invalid paths
    let invalid_paths = vec![
        "/check/",        // No key
        "/invalid/path",  // Wrong prefix
        "check/file.txt", // Missing leading slash
    ];

    for path in invalid_paths {
        assert!(
            !path.starts_with("/check/")
                || path.strip_prefix("/check/").unwrap_or("").is_empty()
        );
    }
}

#[test]
fn test_rate_actor_check_paths() {
    let mut actor = R2RateLimiterObject::new();

    match actor.fetch("/check/file.txt", 10_000) {
        RateActorReply::Allowed => {}
        _ => panic!("first check should be allowed"),
    }
    match actor.fetch("/check/file.txt", 10_500) {
        RateActorReply::Limited(h) => {
            assert_eq!(h.status, 429);
            assert_eq!(h.retry_after, "0.5");
            assert_eq!(h.limit, "1");
            assert_eq!(h.remaining, "0");
            assert_eq!(h.reset, 10);
            assert_eq!(h.body, "Too Many Requests - R2 write rate limit exceeded");
        }
        _ => panic!("second check within the window should be limited"),
    }
    match actor.fetch("/check/", 10_000) {
        RateActorReply::BadRequest(m) => assert_eq!(m, "Key is required"),
        _ => panic!("empty key should be refused"),
    }
    match actor.fetch("/invalid/path", 10_000) {
        RateActorReply::BadRequest(m) => assert_eq!(m, "Invalid path"),
        _ => panic!("wrong prefix should be refused"),
    }
}

#[test]
fn test_cleanup_safety_empty_and_repeated() {
    let mut limiter = RateLimiter::new(1);

    // Cleanup on an empty limiter, repeatedly, never panics
    limiter.cleanup_at(0);
    limiter.cleanup_at(0);
    limiter.cleanup_at(123_456);

    // Cleanup keeps entries still inside twice the window
    limiter.check_rate_limit_at("kept.txt", 10_000).unwrap();
    limiter.cleanup_at(11_999);
    assert!(limiter.is_tracking("kept.txt"));
    limiter.cleanup_at(11_999);
    assert!(limiter.is_tracking("kept.txt"));

    // ... and drops them once they fall out of twice the window
    limiter.cleanup_at(12_001);
    assert!(!limiter.is_tracking("kept.txt"));
}

#[test]
fn test_retry_delay_is_exact() {
    let mut limiter = RateLimiter::new(1);
    limiter.check_rate_limit_at("k", 10_000).unwrap();
    assert_eq!(limiter.check_rate_limit_at("k", 10_400), Err(600));
    // The denied attempt is not recorded: the delay shrinks as time passes
    assert_eq!(limiter.check_rate_limit_at("k", 10_900), Err(100));
    assert!(limiter.check_rate_limit_at("k", 11_001).is_ok());
}

#[test]
fn test_independent_keys_at_same_instant() {
    let mut limiter = RateLimiter::new(1);
    assert!(limiter.check_rate_limit_at("a", 10_000).is_ok());
    assert!(limiter.check_rate_limit_at("b", 10_000).is_ok());
    assert!(limiter.check_rate_limit_at("a", 10_000).is_err());
    assert!(limiter.check_rate_limit_at("b", 10_000).is_err());
}

#[test]
fn test_check_r2_rate_limit_fail_open() {
    // No coordinator configured: every check is allowed
    let mut actor: Option<R2RateLimiterObject> = None;
    assert!(matches!(
        check_r2_rate_limit(&mut actor, "k", 10_000),
        RateLimitResult::Allowed
    ));
    assert!(matches!(
        check_r2_rate_limit(&mut actor, "k", 10_001),
        RateLimitResult::Allowed
    ));

    // With the coordinator present, the limit is enforced
    let mut actor = Some(R2RateLimiterObject::new());
    assert!(matches!(
        check_r2_rate_limit(&mut actor, "k", 10_000),
        RateLimitResult::Allowed
    ));
    match check_r2_rate_limit(&mut actor, "k", 10_250) {
        RateLimitResult::Limited(h) => assert_eq!(h.retry_after, "0.75"),
        _ => panic!("expected a limited check"),
    }
}
