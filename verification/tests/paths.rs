//! Request routing and path parsing, both the routing table as data and
//! the library's own dispatchers.

use edge_store::routes::{
    counter_id_of_path, route_of_path, session_target_of_path, Route,
};

#[test]
fn test_route_matching() {
    // Test cases for different routes
    let test_cases = vec![
        ("/", "root"),
        ("/files/", "files"),
        ("/files/test.txt", "files"),
        ("/counter", "counter"),
        ("/counter/", "counter"),
        ("/counter/test", "counter"),
        ("/session/user123", "session"),
        ("/session/user123/key", "session"),
        ("/unknown", "404"),
    ];

    for (path, expected_route) in test_cases {
        let route = match path {
            "/" => "root",
            p if p.starts_with("/files/") => "files",
            p if p.starts_with("/counter") => "counter",
            p if p.starts_with("/session") => "session",
            _ => "404",
        };
        assert_eq!(route, expected_route, "Failed for path: {}", path);
    }
}

#[test]
fn test_counter_id_extraction() {
    // Test counter ID extraction from paths
    let test_cases = vec![
        ("/counter", "default"),
        ("/counter/", "default"),
        ("/counter/test", "test"),
        ("/counter/my-counter", "my-counter"),
        ("/counter/123", "123"),
    ];

    for (path, expected_id) in test_cases {
        let counter_id = if path == "/counter" || path == "/counter/" {
            "default"
        } else {
            path.strip_prefix("/counter/").unwrap_or("default")
        };
        assert_eq!(counter_id, expected_id, "Failed for path: {}", path);
    }
}

#[test]
fn test_session_path_parsing() {
    // Test session ID and key extraction
    let test_cases = vec![
        ("/session/user123", Some(("user123", None))),
        ("/session/user123/", Some(("user123", None))),
        ("/session/user123/preferences", Some(("user123", Some("preferences")))),
        ("/session/user123/data/nested", Some(("user123", Some("data")))),
        ("/session/", None),
        ("/session", None),
    ];

    for (path, expected) in test_cases {
        let parts: Vec<&str> = path.strip_prefix("/session/").unwrap_or("").split('/').collect();
        let result = if !parts.is_empty() && !parts[0].is_empty() {
            let session_id = parts[0];
            let key = parts.get(1).filter(|k| !k.is_empty()).map(|s| *s);
            Some((session_id, key))
        } else {
            None
        };

        assert_eq!(result, expected, "Failed for path: {}", path);
    }
}

#[test]
fn test_path_normalization() {
    // Test path handling edge cases

    let test_paths = vec![
        ("/files/", "/files/"),
        ("/files", "/files"),
        ("/files//test.txt", "/files//test.txt"),
        ("/COUNTER/test", "/COUNTER/test"),
        ("//session/user", "//session/user"),
    ];

    for (input, expected) in test_paths {
        assert_eq!(input, expected);
    }
}

#[test]
fn test_route_of_path_dispatcher() {
    assert_eq!(route_of_path("/"), Route::Root);
    assert_eq!(route_of_path("/files/"), Route::Files);
    assert_eq!(route_of_path("/files/test.txt"), Route::Files);
    assert_eq!(route_of_path("/counter"), Route::Counter);
    assert_eq!(route_of_path("/counter/test"), Route::Counter);
    assert_eq!(route_of_path("/session/user123"), Route::Session);
    assert_eq!(route_of_path("/unknown"), Route::NotFound);
    assert_eq!(route_of_path("/files"), Route::NotFound);
}

#[test]
fn test_counter_id_dispatcher() {
    assert_eq!(counter_id_of_path("/counter"), "default");
    assert_eq!(counter_id_of_path("/counter/"), "default");
    assert_eq!(counter_id_of_path("/counter/test"), "test");
    assert_eq!(counter_id_of_path("/counter/my-counter"), "my-counter");
    assert_eq!(counter_id_of_path("/counter/123"), "123");
}

#[test]
fn test_session_target_dispatcher() {
    assert_eq!(
        session_target_of_path("/session/user123"),
        Some(("user123".to_string(), None))
    );
    assert_eq!(
        session_target_of_path("/session/user123/"),
        Some(("user123".to_string(), None))
    );
    assert_eq!(
        session_target_of_path("/session/user123/preferences"),
        Some(("user123".to_string(), Some("preferences".to_string())))
    );
    assert_eq!(
        session_target_of_path("/session/user123/data/nested"),
        Some(("user123".to_string(), Some("data".to_string())))
    );
    assert_eq!(session_target_of_path("/session/"), None);
    assert_eq!(session_target_of_path("/session"), None);
}
