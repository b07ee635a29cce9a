//! Keys from requests.

use armature_ratelimit::extractor::{KeyExtractor, KeyExtractorBuilder, RequestInfo};

fn sample_request() -> RequestInfo {
    RequestInfo::new("/api/users", "GET")
        .with_ip("192.168.1.1")
        .with_user_id("user_123")
        .with_api_key("sk_test_abc123")
        .with_header("X-API-Key", "sk_test_abc123")
        .with_header("X-Tenant-ID", "tenant_456")
}

#[test]
fn test_ip_extractor() {
    let extractor = KeyExtractor::ip();
    let request = sample_request();

    let key = extractor.extract(&request).unwrap();
    assert_eq!(key, "192.168.1.1");
}

#[test]
fn test_user_id_extractor() {
    let extractor = KeyExtractor::user_id();
    let request = sample_request();

    let key = extractor.extract(&request).unwrap();
    assert_eq!(key, "user_123");
}

#[test]
fn test_api_key_extractor() {
    let extractor = KeyExtractor::api_key("X-API-Key");
    let request = sample_request();

    let key = extractor.extract(&request).unwrap();
    assert_eq!(key, "sk_test_abc123");
}

#[test]
fn test_header_extractor() {
    let extractor = KeyExtractor::header("X-Tenant-ID");
    let request = sample_request();

    let key = extractor.extract(&request).unwrap();
    assert_eq!(key, "tenant_456");
}

#[test]
fn test_ip_and_path_extractor() {
    let extractor = KeyExtractor::ip_and_path();
    let request = sample_request();

    let key = extractor.extract(&request).unwrap();
    assert_eq!(key, "192.168.1.1:/api/users");
}

#[test]
fn test_user_id_and_path_extractor() {
    let extractor = KeyExtractor::user_id_and_path();
    let request = sample_request();

    let key = extractor.extract(&request).unwrap();
    assert_eq!(key, "user_123:/api/users");
}

#[test]
fn test_builder() {
    let extractor = KeyExtractorBuilder::new()
        .prefer_user_id()
        .prefer_api_key("X-API-Key")
        .build();

    let request = sample_request();
    let key = extractor(&request).unwrap();
    assert_eq!(key, "user_123"); // User ID is preferred

    // Without user ID, falls back to API key
    let request_no_user = RequestInfo::new("/api/users", "GET")
        .with_ip("192.168.1.1")
        .with_header("X-API-Key", "sk_test_abc123");

    let key = extractor(&request_no_user).unwrap();
    assert_eq!(key, "sk_test_abc123");

    // Without user ID or API key, falls back to IP
    let request_ip_only = RequestInfo::new("/api/users", "GET").with_ip("192.168.1.1");

    let key = extractor(&request_ip_only).unwrap();
    assert_eq!(key, "192.168.1.1");
}

#[test]
fn test_builder_no_ip_fallback() {
    let extractor = KeyExtractorBuilder::new()
        .prefer_user_id()
        .no_ip_fallback()
        .build();

    // Without user ID, returns None
    let request = RequestInfo::new("/api/users", "GET").with_ip("192.168.1.1");

    assert!(extractor(&request).is_none());
}

#[test]
fn test_request_info_builder() {
    let info = RequestInfo::new("/api/test", "POST")
        .with_ip("10.0.0.1")
        .with_user_id("u123")
        .with_header("Content-Type", "application/json");

    assert_eq!(info.path, "/api/test");
    assert_eq!(info.method, "POST");
    assert_eq!(info.ip, Some("10.0.0.1".to_string()));
    assert_eq!(info.user_id, Some("u123".to_string()));
    assert_eq!(info.get_header("content-type"), Some("application/json"));
}

#[test]
fn missing_parts_give_no_key() {
    let bare = RequestInfo::new("/", "GET");
    for extractor in [
        KeyExtractor::default(),
        KeyExtractor::user_id(),
        KeyExtractor::api_key("k"),
        KeyExtractor::header("h"),
        KeyExtractor::ip_and_path(),
        KeyExtractor::user_id_and_path(),
    ] {
        assert!(extractor.extract(&bare).is_none(), "{}", extractor.description());
        assert!(extractor.clone().extract(&bare).is_none());
    }
    assert!(KeyExtractorBuilder::default().build()(&bare).is_none());
}

#[test]
fn the_first_matching_header_counts() {
    let info = RequestInfo::new("/", "GET")
        .with_header("x-key", "first")
        .with_header("X-KEY", "second");
    assert_eq!(info.get_header("X-Key"), Some("first"));
    assert_eq!(info.get_header("X-Keys"), None);
    let copy = info.clone();
    assert_eq!(copy.headers, info.headers);
    assert_eq!(copy.path, "/");
}

#[test]
fn unread_headers_do_not_matter() {
    let extractor = KeyExtractor::header("X-Tenant-ID");
    let request = sample_request().with_header("X-Tenant", "other");
    assert_eq!(extractor.extract(&request), Some("tenant_456".to_string()));
}

#[test]
fn extractors_say_what_they_read() {
    assert_eq!(KeyExtractor::api_key("A").required_header(), Some("A"));
    assert_eq!(KeyExtractor::header("B").required_header(), Some("B"));
    assert_eq!(KeyExtractor::ip().required_header(), None);
    assert_eq!(KeyExtractor::ip().description(), "IP address");
    assert_eq!(KeyExtractor::user_id().description(), "User ID");
    assert_eq!(KeyExtractor::api_key("A").description(), "API key");
    assert_eq!(KeyExtractor::header("B").description(), "Custom header");
    assert_eq!(KeyExtractor::ip_and_path().description(), "IP + Path");
    assert_eq!(KeyExtractor::user_id_and_path().description(), "User ID + Path");
}

#[test]
fn earlier_extractors_win() {
    let extractor = KeyExtractorBuilder::new()
        .with_extractor(KeyExtractor::header("X-Tenant-ID"))
        .prefer_user_id()
        .build();
    assert_eq!(extractor(&sample_request()), Some("tenant_456".to_string()));
}
