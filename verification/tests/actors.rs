//! The counter, session and mapping coordination actors, and the tests
//! the service's helpers were shipped with.

use edge_store::counter::{CounterObject, CounterReply};
use edge_store::mapping::{FileMappingObject, MappingPutRequest, MappingReply};
use edge_store::routes::HttpMethod;
use edge_store::session::{SessionObject, SessionReply};

#[test]
fn test_counter_increment_logic() {
    // Simulate counter increment
    let mut count = 0;
    count += 1;
    assert_eq!(count, 1);

    count += 1;
    assert_eq!(count, 2);

    // Test overflow behavior
    let mut max_count = i32::MAX - 1;
    max_count += 1;
    assert_eq!(max_count, i32::MAX);
}

#[test]
fn test_counter_decrement_logic() {
    // Simulate counter decrement
    let mut count = 5;
    count -= 1;
    assert_eq!(count, 4);

    // Test decrement from zero
    let mut count = 0;
    count -= 1;
    assert_eq!(count, -1);

    // Test underflow behavior
    let mut min_count = i32::MIN + 1;
    min_count -= 1;
    assert_eq!(min_count, i32::MIN);
}

#[test]
fn test_path_matching_for_counter() {
    let test_cases = vec![
        ("https://fake-host/", "GET"),
        ("https://fake-host/increment", "increment"),
        ("https://fake-host/decrement", "decrement"),
        ("https://fake-host/unknown", "404"),
        ("/", "GET"),
        ("/increment", "increment"),
        ("/decrement", "decrement"),
    ];

    for (path, expected_action) in test_cases {
        let action = if path.ends_with("/increment") {
            "increment"
        } else if path.ends_with("/decrement") {
            "decrement"
        } else if path.ends_with("/") {
            "GET"
        } else {
            "404"
        };
        assert_eq!(action, expected_action, "Failed for path: {}", path);
    }
}

#[test]
fn test_counter_actor_lifecycle() {
    let mut counter = CounterObject::new();

    match counter.fetch(HttpMethod::Get, "/", 0) {
        CounterReply::State(d) => {
            assert_eq!(d.count, 0);
            assert_eq!(d.last_updated, 0);
        }
        _ => panic!("read should report the state"),
    }

    match counter.fetch(HttpMethod::Post, "/increment", 1_000) {
        CounterReply::State(d) => {
            assert_eq!(d.count, 1);
            assert_eq!(d.last_updated, 1_000);
        }
        _ => panic!("increment should report the new state"),
    }

    match counter.fetch(HttpMethod::Post, "/decrement", 2_000) {
        CounterReply::State(d) => {
            assert_eq!(d.count, 0);
            assert_eq!(d.last_updated, 2_000);
        }
        _ => panic!("decrement should report the new state"),
    }

    assert!(matches!(
        counter.fetch(HttpMethod::Post, "/unknown", 3_000),
        CounterReply::InvalidPath
    ));
    assert!(matches!(
        counter.fetch(HttpMethod::Delete, "/", 4_000),
        CounterReply::Reset
    ));
    match counter.fetch(HttpMethod::Get, "/", 5_000) {
        CounterReply::State(d) => {
            assert_eq!(d.count, 0);
            assert_eq!(d.last_updated, 0);
        }
        _ => panic!("read after reset should report zeros"),
    }
    assert!(matches!(
        counter.fetch(HttpMethod::Put, "/", 6_000),
        CounterReply::MethodNotAllowed
    ));
}

#[test]
fn test_session_timestamp_handling() {
    // Test that created_at is preserved on update
    let created_at = 1234567890u64;
    let updated_at = 1234567900u64;

    assert!(updated_at > created_at);

    // Test timestamp generation (mock)
    let now = 1234567900u64;
    assert!(now > 0);
}

#[test]
fn test_session_actor_lifecycle() {
    let mut session = SessionObject::new();

    assert!(matches!(
        session.fetch(HttpMethod::Get, None, None, 0),
        SessionReply::NotFound
    ));

    match session.fetch(
        HttpMethod::Put,
        Some("user123".to_string()),
        Some("{\"theme\":\"dark\"}".to_string()),
        1234567890,
    ) {
        SessionReply::Updated { user_id, timestamp } => {
            assert_eq!(user_id.as_deref(), Some("user123"));
            assert_eq!(timestamp, 1234567890);
        }
        _ => panic!("write should be acknowledged"),
    }

    match session.fetch(HttpMethod::Get, None, None, 0) {
        SessionReply::Session(s) => {
            assert_eq!(s.user_id, "user123");
            assert_eq!(s.data, "{\"theme\":\"dark\"}");
            assert_eq!(s.created_at, 1234567890);
            assert_eq!(s.updated_at, 1234567890);
        }
        _ => panic!("read should report the session"),
    }

    // A later write keeps the creation time and advances the update time
    match session.fetch(HttpMethod::Put, None, Some("{}".to_string()), 1234567900) {
        SessionReply::Updated { user_id, timestamp } => {
            assert_eq!(user_id, None);
            assert_eq!(timestamp, 1234567900);
        }
        _ => panic!("second write should be acknowledged"),
    }
    match session.fetch(HttpMethod::Get, None, None, 0) {
        SessionReply::Session(s) => {
            assert_eq!(s.user_id, "user123");
            assert_eq!(s.data, "{}");
            assert_eq!(s.created_at, 1234567890);
            assert_eq!(s.updated_at, 1234567900);
        }
        _ => panic!("read should report the updated session"),
    }

    assert!(matches!(
        session.fetch(HttpMethod::Post, None, None, 0),
        SessionReply::MethodNotAllowed
    ));
    assert!(matches!(
        session.fetch(HttpMethod::Delete, None, None, 0),
        SessionReply::Cleared
    ));
    assert!(matches!(
        session.fetch(HttpMethod::Get, None, None, 0),
        SessionReply::NotFound
    ));
}

#[test]
fn test_mapping_actor_protocol() {
    let mut actor = FileMappingObject::new();

    assert!(matches!(
        actor.fetch(HttpMethod::Get, "/notes.txt", None, 0),
        MappingReply::NotFound
    ));

    let body = MappingPutRequest {
        sha256: "aa".repeat(32),
        size: 5,
        content_type: Some("text/plain".to_string()),
    };
    match actor.fetch(HttpMethod::Put, "/notes.txt", Some(body), 1_000) {
        MappingReply::Written { record, not_modified } => {
            assert!(!not_modified);
            assert_eq!(record.filename, "notes.txt");
            assert_eq!(record.sha256, "aa".repeat(32));
            assert_eq!(record.size, 5);
            assert_eq!(record.created_at, 1_000);
            assert_eq!(record.updated_at, 1_000);
        }
        _ => panic!("write should report the record"),
    }

    // Same content hash again: not modified, creation time kept
    let body = MappingPutRequest {
        sha256: "aa".repeat(32),
        size: 5,
        content_type: Some("text/plain".to_string()),
    };
    match actor.fetch(HttpMethod::Put, "/notes.txt", Some(body), 2_000) {
        MappingReply::Written { record, not_modified } => {
            assert!(not_modified);
            assert_eq!(record.created_at, 1_000);
            assert_eq!(record.updated_at, 2_000);
        }
        _ => panic!("rewrite should report the record"),
    }

    match actor.fetch(HttpMethod::Get, "/notes.txt", None, 0) {
        MappingReply::Found(rec) => assert_eq!(rec.filename, "notes.txt"),
        _ => panic!("read should find the record"),
    }

    match actor.fetch(HttpMethod::Get, "/", None, 0) {
        MappingReply::Listing(recs) => assert_eq!(recs.len(), 1),
        _ => panic!("root read should list the records"),
    }

    assert!(matches!(
        actor.fetch(HttpMethod::Put, "/", None, 0),
        MappingReply::FilenameRequired
    ));
    assert!(matches!(
        actor.fetch(HttpMethod::Put, "/notes.txt", None, 0),
        MappingReply::InvalidBody
    ));
    assert!(matches!(
        actor.fetch(HttpMethod::Delete, "/notes.txt", None, 0),
        MappingReply::Deleted
    ));
    assert!(matches!(
        actor.fetch(HttpMethod::Get, "/notes.txt", None, 0),
        MappingReply::NotFound
    ));
    // Deleting again is not an error
    assert!(matches!(
        actor.fetch(HttpMethod::Delete, "/notes.txt", None, 0),
        MappingReply::Deleted
    ));
}
