//! Errors and headers.

use armature_ratelimit::error::{RateLimitError, RateLimitHeaders};
use armature_ratelimit::text::{decimal_text, eq_ignore_ascii_case, split_commas, trim};
use std::time::Duration;

#[test]
fn test_limit_exceeded_error() {
    let error = RateLimitError::limit_exceeded(100, 1234567890, Duration::from_secs(30));

    assert!(error.is_limit_exceeded());
    assert_eq!(error.retry_after(), Some(Duration::from_secs(30)));

    let headers = error.headers().unwrap();
    assert_eq!(headers.limit, 100);
    assert_eq!(headers.remaining, 0);
    assert_eq!(headers.reset, 1234567890);
    assert_eq!(headers.retry_after, Some(30));
}

#[test]
fn test_store_error() {
    let error = RateLimitError::store("connection failed");
    assert!(!error.is_limit_exceeded());
    assert_eq!(error.retry_after(), None);
    assert!(error.headers().is_none());
}

#[test]
fn test_headers_to_pairs() {
    let headers = RateLimitHeaders::denied(100, 1234567890, 30);
    let pairs = headers.to_header_pairs();

    assert_eq!(pairs.len(), 4);
    assert!(
        pairs
            .iter()
            .any(|(k, v)| *k == "X-RateLimit-Limit" && v == "100")
    );
    assert!(
        pairs
            .iter()
            .any(|(k, v)| *k == "X-RateLimit-Remaining" && v == "0")
    );
    assert!(pairs.iter().any(|(k, v)| *k == "Retry-After" && v == "30"));
}

#[test]
fn allowed_headers_have_no_retry() {
    let headers = RateLimitHeaders::allowed(100, 42, 1234567890);
    assert_eq!(
        headers.to_header_pairs(),
        vec![
            ("X-RateLimit-Limit", "100".to_string()),
            ("X-RateLimit-Remaining", "42".to_string()),
            ("X-RateLimit-Reset", "1234567890".to_string()),
        ]
    );
}

#[test]
fn errors_say_what_happened() {
    for (error, text) in [
        (
            RateLimitError::limit_exceeded(1, 2, Duration::from_millis(1500)),
            "Rate limit exceeded. Retry after 1.5s",
        ),
        (RateLimitError::store("down"), "Rate limit store error: down"),
        (RateLimitError::Timeout, "Rate limit store operation timed out"),
        (RateLimitError::config("bad"), "Rate limit configuration error: bad"),
        (
            RateLimitError::key_extraction("none"),
            "Failed to extract rate limit key: none",
        ),
        (
            RateLimitError::InvalidAlgorithm("odd".to_string()),
            "Invalid algorithm configuration: odd",
        ),
        (RateLimitError::RedisError("gone".to_string()), "Redis error: gone"),
    ] {
        assert_eq!(error.message(), text);
    }
}

#[test]
fn fractions_of_a_second_are_cut_off() {
    let error = RateLimitError::limit_exceeded(5, 6, Duration::from_millis(2999));
    assert_eq!(error.headers().unwrap().retry_after, Some(2));
}

#[test]
fn numbers_in_decimal() {
    assert_eq!(decimal_text(0), "0");
    assert_eq!(decimal_text(9), "9");
    assert_eq!(decimal_text(10), "10");
    assert_eq!(decimal_text(u64::MAX), u64::MAX.to_string());
}

#[test]
fn texts_are_taken_apart() {
    assert_eq!(trim("  a b\t\n"), "a b");
    assert_eq!(trim("\u{2003}x\u{a0}"), "x");
    assert_eq!(trim(" \r "), "");
    let white = [
        0x09, 0x0a, 0x0b, 0x0c, 0x0d, 0x20, 0x85, 0xa0, 0x1680, 0x2000, 0x2001, 0x2002, 0x2003,
        0x2004, 0x2005, 0x2006, 0x2007, 0x2008, 0x2009, 0x200a, 0x2028, 0x2029, 0x202f, 0x205f,
        0x3000,
    ];
    for code in 0..=0x10ffff {
        if let Some(c) = char::from_u32(code) {
            assert_eq!(trim(&c.to_string()).is_empty(), white.contains(&code));
        }
    }
    assert_eq!(split_commas("a, b ,,  , c"), vec!["a", "b", "c"]);
    assert!(split_commas("").is_empty());
    assert!(split_commas(" , ").is_empty());
    assert!(eq_ignore_ascii_case("X-Api-KEY", "x-api-key"));
    assert!(!eq_ignore_ascii_case("x-api-key", "x-api-keys"));
    assert!(!eq_ignore_ascii_case("\u{c4}", "\u{e4}"));
    assert!(!eq_ignore_ascii_case("[", "{"));
}
