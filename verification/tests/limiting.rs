//! Algorithms, stores, limiters, their configuration, and the middleware.

use armature_ratelimit::algorithms::{
    eviction_batch_size, FixedWindow, RateLimitAlgorithm, SlidingWindowLog, TokenBucket,
    DEFAULT_MAX_KEYS,
};
use armature_ratelimit::config::{validate_algorithm, StorePlan};
use armature_ratelimit::error::RateLimitHeaders;
use armature_ratelimit::extractor::{KeyExtractor, RequestInfo};
use armature_ratelimit::limiter::{
    check_result, exempt_result, fixed_window_result, key_window_result, sliding_window_result,
    token_bucket_result, unix_now,
};
use armature_ratelimit::middleware::{
    handle_response, Handling, RateLimitCheckResponse, RateLimitMiddleware, UnkeyedRequestPolicy,
};
use armature_ratelimit::request::{
    client_ip, forwarded_ip_at_depth, path_only, AddressFormat, RequestHead,
};
use armature_ratelimit::stores::redis::{
    escape, operation_outcome, remaining_in_log, remaining_in_window, verdict_of_count,
    verdict_of_reply, RedisStore, RemainingStep,
};
use armature_ratelimit::stores::{MemoryStore, RateLimitStore, StoreType};
use armature_ratelimit::tokens::{has_token, whole_tokens, RefillRate, TokenArithmetic};
use armature_ratelimit::{
    Algorithm, RateLimitCheckResult, RateLimitConfig, RateLimitError, RateLimitResult, RateLimiter,
    RateLimiterBuilder,
};
use std::time::Duration;

/// Token arithmetic in `f64`.
struct Floats;

impl TokenArithmetic for Floats {
    fn full(capacity: u64) -> u64 {
        (capacity as f64).to_bits()
    }

    fn refilled(level: u64, capacity: u64, rate: RefillRate, elapsed: u128) -> u64 {
        let elapsed = elapsed as f64 / 1e9;
        let tokens = f64::from_bits(level) + elapsed * f64::from_bits(rate.bits);
        tokens.min(capacity as f64).to_bits()
    }

    fn one_less(level: u64) -> u64 {
        (f64::from_bits(level) - 1.0).to_bits()
    }

    fn seconds_to_fill(capacity: u64, rate: RefillRate) -> u64 {
        (capacity as f64 / f64::from_bits(rate.bits)).clamp(0.0, u64::MAX as f64) as u64
    }

    fn time_per_token(rate: RefillRate) -> Duration {
        let secs = (1.0 / f64::from_bits(rate.bits)).clamp(0.0, u64::MAX as f64);
        Duration::try_from_secs_f64(secs).unwrap_or(Duration::MAX)
    }

    fn rate_text(rate: RefillRate) -> String {
        format!("{:.2}", f64::from_bits(rate.bits))
    }
}

fn rate(tokens_per_sec: f64) -> RefillRate {
    RefillRate::from_bits(tokens_per_sec.to_bits())
}

const MILLI: u128 = 1_000_000;

// The three algorithms.

#[test]
fn fixed_window_test_basic_limit() {
    let mut limiter = FixedWindow::new(5, Duration::from_secs(60));

    for i in (0..5).rev() {
        let (allowed, remaining) = limiter.check("test");
        assert!(allowed, "Request should be allowed");
        assert_eq!(remaining, i as u64);
    }

    // 6th request should be denied
    let (allowed, remaining) = limiter.check("test");
    assert!(!allowed, "6th request should be denied");
    assert_eq!(remaining, 0);
}

#[test]
fn test_window_reset() {
    let mut limiter = FixedWindow::new(2, Duration::from_millis(100));

    // Use up the limit
    limiter.try_acquire_at("test", 0);
    limiter.try_acquire_at("test", 0);
    let (allowed, _) = limiter.try_acquire_at("test", 0);
    assert!(!allowed);

    // Should be allowed again (new window)
    let (allowed, remaining) = limiter.try_acquire_at("test", 150 * MILLI);
    assert!(allowed);
    assert_eq!(remaining, 1);
}

#[test]
fn fixed_window_test_different_keys() {
    let mut limiter = FixedWindow::new(2, Duration::from_secs(60));

    // Exhaust key1
    limiter.check("key1");
    limiter.check("key1");
    let (allowed, _) = limiter.check("key1");
    assert!(!allowed);

    // key2 should still work
    let (allowed, remaining) = limiter.check("key2");
    assert!(allowed);
    assert_eq!(remaining, 1);
}

#[test]
fn fixed_window_test_reset() {
    let mut limiter = FixedWindow::new(3, Duration::from_secs(60));

    // Use up the limit
    limiter.check("test");
    limiter.check("test");
    limiter.check("test");
    assert!(!limiter.check("test").0);

    // Reset
    limiter.reset("test");

    // Should have full capacity again
    assert_eq!(limiter.remaining("test"), 3);
    assert!(limiter.check("test").0);
}

#[test]
fn fixed_window_test_remaining() {
    let mut limiter = FixedWindow::new(5, Duration::from_secs(60));

    assert_eq!(limiter.remaining("test"), 5);

    limiter.check("test");
    assert_eq!(limiter.remaining("test"), 4);

    limiter.check("test");
    limiter.check("test");
    assert_eq!(limiter.remaining("test"), 2);
}

#[test]
fn test_time_until_reset() {
    let mut limiter = FixedWindow::new(5, Duration::from_millis(500));

    // No requests yet - should return full window
    let time = limiter.time_until_reset("test");
    assert!(time <= Duration::from_millis(500));

    // Make a request to start the window
    limiter.try_acquire_at("test", 0);

    // Time until reset should be less than full window
    let time = limiter.time_until_reset_at("test", 100 * MILLI);
    assert!(time < Duration::from_millis(450));
}

#[test]
fn fixed_window_rolls_over_at_its_end() {
    let mut limiter = FixedWindow::new(1, Duration::from_millis(100));
    assert_eq!(limiter.try_acquire_at("k", 7), (true, 0));
    assert_eq!(limiter.time_until_reset_at("k", 7 + 99 * MILLI), Duration::from_millis(1));
    assert_eq!(limiter.try_acquire_at("k", 6 + 100 * MILLI), (false, 0));
    assert_eq!(limiter.time_until_reset_at("k", 7 + 100 * MILLI), Duration::from_millis(100));
    assert_eq!(limiter.remaining_at("k", 7 + 100 * MILLI), 1);
    assert_eq!(limiter.try_acquire_at("k", 7 + 100 * MILLI), (true, 0));
    // An earlier time counts as no time at all.
    assert_eq!(limiter.try_acquire_at("k", 0), (false, 0));
}

#[test]
fn fixed_windows_can_double_the_limit_at_a_boundary() {
    let mut limiter = FixedWindow::new(3, Duration::from_millis(100));
    let mut allowed = Vec::new();
    limiter.try_acquire_at("k", 0);
    for at in 98 * MILLI..98 * MILLI + 5 {
        if limiter.try_acquire_at("k", at).0 {
            allowed.push(at);
        }
    }
    for at in 100 * MILLI..100 * MILLI + 9 {
        if limiter.try_acquire_at("k", at).0 {
            allowed.push(at);
        }
    }
    // Two of the first window and three of the second, within a fiftieth of a window.
    assert_eq!(allowed.len(), 5);
    assert!(allowed.len() <= 6);
}

#[test]
fn sliding_windows_do_not_double_the_limit() {
    let mut limiter = SlidingWindowLog::new(3, Duration::from_millis(100));
    let mut allowed: Vec<u128> = Vec::new();
    for at in (0..400 * MILLI).step_by(7 * MILLI as usize) {
        // Other keys ask too.
        limiter.try_acquire_at("other", at);
        if limiter.try_acquire_at("k", at).0 {
            allowed.push(at);
        }
        let recent = allowed.iter().filter(|t| at - **t <= 100 * MILLI).count();
        assert!(recent <= 3, "{recent} at {at}");
    }
    assert_eq!(allowed.len(), 12);
}

#[test]
fn bursts_up_to_the_capacity() {
    let mut bucket = TokenBucket::<Floats>::new(10, rate(1.0));

    // First 10 requests succeed (burst)
    for _ in 0..10 {
        assert!(bucket.check("user1").0);
    }

    // 11th request fails (bucket empty)
    assert!(!bucket.check("user1").0);
}

#[test]
fn fixed_window_has_getters() {
    let mut limiter = FixedWindow::new(4, Duration::from_secs(9)).with_max_keys(0);
    assert_eq!(limiter.max_requests(), 4);
    assert_eq!(limiter.window(), Duration::from_secs(9));
    assert_eq!(limiter.key_count(), 0);
    // At least one key is retained.
    limiter.try_acquire_at("a", 1);
    limiter.try_acquire_at("b", 2);
    assert_eq!(limiter.key_count(), 1);
    assert_eq!(limiter.remaining_at("a", 3), 4);
    assert_eq!(limiter.remaining_at("b", 3), 3);
    assert_eq!(limiter.try_acquire("b").1, 2);
}

#[test]
fn sliding_window_test_basic_limit() {
    let mut limiter = SlidingWindowLog::new(5, Duration::from_secs(60));

    for i in (0..5).rev() {
        let (allowed, remaining) = limiter.check("test");
        assert!(allowed);
        assert_eq!(remaining, i as u64);
    }

    // 6th request should be denied
    let (allowed, remaining) = limiter.check("test");
    assert!(!allowed);
    assert_eq!(remaining, 0);
}

#[test]
fn test_window_expiry() {
    let mut limiter = SlidingWindowLog::new(2, Duration::from_millis(100));

    // Use up the limit
    limiter.try_acquire_at("test", 0);
    limiter.try_acquire_at("test", 0);
    let (allowed, _) = limiter.try_acquire_at("test", 0);
    assert!(!allowed);

    // Should be allowed again
    let (allowed, remaining) = limiter.try_acquire_at("test", 150 * MILLI);
    assert!(allowed);
    assert_eq!(remaining, 1);
}

#[test]
fn sliding_window_test_different_keys() {
    let mut limiter = SlidingWindowLog::new(2, Duration::from_secs(60));

    // Exhaust key1
    limiter.check("key1");
    limiter.check("key1");
    let (allowed, _) = limiter.check("key1");
    assert!(!allowed);

    // key2 should still work
    let (allowed, remaining) = limiter.check("key2");
    assert!(allowed);
    assert_eq!(remaining, 1);
}

#[test]
fn sliding_window_test_reset() {
    let mut limiter = SlidingWindowLog::new(3, Duration::from_secs(60));

    // Use up the limit
    limiter.check("test");
    limiter.check("test");
    limiter.check("test");
    assert!(!limiter.check("test").0);

    // Reset
    limiter.reset("test");

    // Should have full capacity again
    assert_eq!(limiter.remaining("test"), 3);
    assert!(limiter.check("test").0);
}

#[test]
fn sliding_window_test_remaining() {
    let mut limiter = SlidingWindowLog::new(5, Duration::from_secs(60));

    assert_eq!(limiter.remaining("test"), 5);

    limiter.check("test");
    assert_eq!(limiter.remaining("test"), 4);

    limiter.check("test");
    limiter.check("test");
    assert_eq!(limiter.remaining("test"), 2);
}

#[test]
fn sliding_window_counts_a_whole_window_back() {
    let mut limiter = SlidingWindowLog::new(2, Duration::from_millis(100));
    assert_eq!(limiter.try_acquire_at("k", 0), (true, 1));
    assert_eq!(limiter.try_acquire_at("k", 50 * MILLI), (true, 0));
    // The first request lies exactly one window back, and still counts.
    assert_eq!(limiter.try_acquire_at("k", 100 * MILLI), (false, 0));
    assert_eq!(limiter.try_acquire_at("k", 100 * MILLI + 1), (true, 0));
    assert_eq!(limiter.remaining_at("k", 150 * MILLI + 1), 1);
}

#[test]
fn sliding_window_remaining_stores_no_key() {
    let mut limiter = SlidingWindowLog::new(5, Duration::from_secs(60)).with_max_keys(1);
    assert_eq!(limiter.max_requests(), 5);
    assert_eq!(limiter.window(), Duration::from_secs(60));
    assert_eq!(limiter.check("a"), (true, 4));
    assert_eq!(limiter.remaining("b"), 5);
    assert_eq!(limiter.key_count(), 1);
    assert_eq!(limiter.remaining("a"), 4);
    assert_eq!(limiter.remaining_at("c", 0), 5);
    assert_eq!(limiter.key_count(), 1);
}

#[test]
fn sliding_window_evicts_keys_without_requests_first() {
    let second = 1_000_000_000;
    let mut limiter = SlidingWindowLog::new(2, Duration::from_secs(1)).with_max_keys(2);
    limiter.try_acquire_at("old", 1);
    limiter.try_acquire_at("empty", 2);
    assert_eq!(limiter.remaining_at("empty", 3 + second), 2);
    limiter.try_acquire_at("new", 3);
    assert_eq!(limiter.key_count(), 2);
    assert_eq!(limiter.remaining_at("old", 3), 1);
}

#[test]
fn sliding_window_tells_what_remains() {
    let mut limiter = SlidingWindowLog::new(3, Duration::from_nanos(10));
    for (at, told) in [
        (0, (true, 2)),
        (4, (true, 1)),
        (8, (true, 0)),
        (9, (false, 0)),
        (10, (false, 0)),
        // The first has left the window, the denied ones never were in it.
        (11, (true, 0)),
        (13, (false, 0)),
        (18, (true, 0)),
        (22, (true, 1)),
    ] {
        assert_eq!(limiter.try_acquire_at("k", at), told);
    }
}

#[test]
fn token_bucket_remaining_counts_added_tokens() {
    let mut bucket = TokenBucket::<Floats>::new(5, rate(10.0));
    for left in (0..5).rev() {
        assert_eq!(bucket.try_acquire_at("test", 0), (true, left));
        assert_eq!(bucket.remaining_at("test", 0), left);
    }
    assert_eq!(bucket.remaining_at("test", 99 * MILLI), 0);
    assert_eq!(bucket.remaining_at("test", 150 * MILLI), 1);
    assert_eq!(bucket.remaining_at("test", 10_000 * MILLI), 5);
    assert_eq!(bucket.remaining_at("unseen", 150 * MILLI), 5);
    // The answer changes nothing, and tells whether the next request is allowed.
    assert_eq!(bucket.key_count(), 1);
    assert_eq!(bucket.remaining_at("test", 0), 0);
    assert_eq!(bucket.try_acquire_at("test", 99 * MILLI), (false, 0));
    assert_eq!(bucket.remaining_at("test", 150 * MILLI), 1);
    assert_eq!(bucket.try_acquire_at("test", 150 * MILLI), (true, 0));
}

#[test]
fn token_bucket_remaining_goes_by_the_clock() {
    // So fast that the bucket is full again by the next reading of the clock, or nearly so.
    let mut fast = TokenBucket::<Floats>::new(3, rate(1e12));
    fast.check("k");
    let mut left = fast.remaining("k");
    for _ in 0..1_000_000 {
        if left == 3 {
            break;
        }
        left = fast.remaining("k");
    }
    assert_eq!(left, 3);
    let mut slow = TokenBucket::<Floats>::new(3, rate(1e-9));
    slow.check("k");
    assert_eq!(slow.remaining("k"), 2);
}

#[test]
fn token_bucket_reset_makes_room_first() {
    let mut bucket = TokenBucket::<Floats>::new(2, rate(1.0)).with_max_keys(2);
    for (at, key) in [(0, "a"), (1, "b"), (2, "c"), (3, "d")] {
        bucket.reset_at(key, at);
        assert!(bucket.key_count() <= 2);
    }
    bucket.reset_at("d", 4);
    assert_eq!(bucket.key_count(), 2);
    assert_eq!(bucket.try_acquire_at("d", 4), (true, 1));
    for key in ["e", "f", "g"] {
        bucket.reset(key);
        assert!(bucket.key_count() <= 2);
    }
}

#[test]
fn test_initial_capacity() {
    let mut bucket = TokenBucket::<Floats>::new(10, rate(1.0));
    assert_eq!(bucket.remaining("test"), 10);
}

#[test]
fn test_consume_tokens() {
    let mut bucket = TokenBucket::<Floats>::new(5, rate(1.0));

    for i in (0..5).rev() {
        let (allowed, remaining) = bucket.check("test");
        assert!(allowed);
        assert_eq!(remaining, i as u64);
    }

    // Should be denied now
    let (allowed, remaining) = bucket.check("test");
    assert!(!allowed);
    assert_eq!(remaining, 0);
}

#[test]
fn test_refill() {
    let mut bucket = TokenBucket::<Floats>::new(5, rate(10.0)); // 10 tokens per second

    // Consume all tokens
    for _ in 0..5 {
        bucket.try_acquire_at("test", 0);
    }

    // Should be allowed again (100ms = 1 token at 10/sec)
    let (allowed, _) = bucket.try_acquire_at("test", 150 * MILLI);
    assert!(allowed);
}

#[test]
fn token_bucket_test_different_keys() {
    let mut bucket = TokenBucket::<Floats>::new(2, rate(0.1));

    // Exhaust key1
    bucket.check("key1");
    bucket.check("key1");
    let (allowed, _) = bucket.check("key1");
    assert!(!allowed);

    // key2 should still be full
    let (allowed, remaining) = bucket.check("key2");
    assert!(allowed);
    assert_eq!(remaining, 1);
}

#[test]
fn token_bucket_test_reset() {
    let mut bucket = TokenBucket::<Floats>::new(5, rate(0.1));

    // Consume all tokens
    for _ in 0..5 {
        bucket.check("test");
    }

    // Reset
    bucket.reset("test");

    // Should be full again
    assert_eq!(bucket.remaining("test"), 5);
}

#[test]
fn test_max_keys_bounds_map() {
    // A flood of distinct keys must not grow the map past the cap.
    let mut bucket = TokenBucket::<Floats>::new(10, rate(1.0)).with_max_keys(100);
    for i in 0..10_000 {
        bucket.check(&format!("client-{i}"));
    }
    assert!(
        bucket.key_count() <= 100,
        "map must stay within max_keys, got {}",
        bucket.key_count()
    );
}

#[test]
fn test_eviction_is_amortized_not_per_request() {
    let max_keys = 1280;
    let batch = eviction_batch_size(max_keys);
    assert_eq!(batch, 20);

    let mut bucket = TokenBucket::<Floats>::new(10, rate(1.0)).with_max_keys(max_keys);
    for i in 0..max_keys {
        bucket.check(&format!("client-{i}"));
    }
    assert_eq!(bucket.key_count(), max_keys, "cap not reached yet");

    // The key that crosses the cap triggers one batch eviction.
    bucket.check("client-overflow");
    assert_eq!(bucket.key_count(), max_keys - batch + 1);

    // The following insertions fit in the reclaimed headroom untouched.
    for i in 0..batch - 1 {
        bucket.check(&format!("filler-{i}"));
    }
    assert_eq!(bucket.key_count(), max_keys);
}

#[test]
fn eviction_takes_the_least_recently_active() {
    let mut bucket = TokenBucket::<Floats>::new(10, rate(0.001)).with_max_keys(3);
    bucket.try_acquire_at("first", 1);
    bucket.try_acquire_at("second", 2);
    bucket.try_acquire_at("third", 3);
    bucket.try_acquire_at("first", 4);
    // The second key is now the one that was active least recently.
    bucket.try_acquire_at("fourth", 5);
    assert_eq!(bucket.key_count(), 3);
    assert_eq!(bucket.remaining("first"), 8);
    assert_eq!(bucket.remaining("second"), 10);
    assert_eq!(bucket.remaining("third"), 9);
    assert_eq!(bucket.remaining("fourth"), 9);
}

#[test]
fn eviction_batches() {
    assert_eq!(eviction_batch_size(0), 1);
    assert_eq!(eviction_batch_size(63), 1);
    assert_eq!(eviction_batch_size(64), 1);
    assert_eq!(eviction_batch_size(128), 2);
    assert_eq!(eviction_batch_size(DEFAULT_MAX_KEYS), 1562);
}

#[test]
fn token_bucket_refills_by_fractions() {
    let mut bucket = TokenBucket::<Floats>::new(2, rate(0.5));
    assert_eq!(bucket.capacity(), 2);
    assert_eq!(bucket.refill_rate(), rate(0.5));
    assert_eq!(bucket.try_acquire_at("k", 0), (true, 1));
    assert_eq!(bucket.try_acquire_at("k", 0), (true, 0));
    assert_eq!(bucket.try_acquire_at("k", 1_000 * MILLI), (false, 0));
    assert_eq!(bucket.try_acquire_at("k", 2_000 * MILLI), (true, 0));
    // It never holds more than its capacity.
    assert_eq!(bucket.try_acquire_at("k", 1_000_000 * MILLI), (true, 1));
    bucket.reset_at("k", 1_000_000 * MILLI);
    assert_eq!(bucket.remaining("k"), 2);
}

#[test]
fn levels_are_read_off_bit_patterns() {
    for (level, tokens) in [
        (0.0, 0),
        (-0.0, 0),
        (-3.0, 0),
        (0.999_999, 0),
        (1.0, 1),
        (1.5, 1),
        (2.0, 2),
        (100.75, 100),
        (1e15 + 0.5, 1_000_000_000_000_000),
        (9_007_199_254_740_993.0, 9_007_199_254_740_992),
        (1.8e19, 18_000_000_000_000_000_000),
        (1e30, u64::MAX),
        (f64::INFINITY, u64::MAX),
        (f64::NEG_INFINITY, 0),
        (f64::NAN, 0),
    ] {
        assert_eq!(whole_tokens(f64::to_bits(level)), tokens, "{level}");
        assert_eq!(whole_tokens(f64::to_bits(level)), level as u64, "{level}");
        assert_eq!(has_token(f64::to_bits(level)), level >= 1.0, "{level}");
    }
}

#[test]
fn rates_are_read_off_bit_patterns() {
    for value in [0.0, -0.0, -1.0, f64::INFINITY, f64::NEG_INFINITY, f64::NAN] {
        assert!(!rate(value).is_usable(), "{value}");
    }
    for value in [1.0, f64::EPSILON, f64::MIN_POSITIVE, f64::MAX, 5e-324] {
        assert!(rate(value).is_usable(), "{value}");
    }
}

#[test]
fn test_algorithm_limit() {
    assert_eq!(
        Algorithm::TokenBucket {
            capacity: 50,
            refill_rate: rate(5.0)
        }
        .limit(),
        50
    );
    assert_eq!(
        Algorithm::SlidingWindowLog {
            max_requests: 100,
            window: Duration::from_secs(60)
        }
        .limit(),
        100
    );
    assert_eq!(
        Algorithm::FixedWindow {
            max_requests: 200,
            window: Duration::from_secs(30)
        }
        .limit(),
        200
    );
}

#[test]
fn test_algorithm_description() {
    let algo = Algorithm::TokenBucket {
        capacity: 100,
        refill_rate: rate(10.0),
    };
    assert!(algo.description::<Floats>().contains("Token bucket"));
    assert!(algo.description::<Floats>().contains("100"));
}

#[test]
fn descriptions_in_full() {
    assert_eq!(
        Algorithm::token_bucket_default().description::<Floats>(),
        "Token bucket: 100 capacity, 10.00 tokens/sec refill"
    );
    assert_eq!(
        Algorithm::SlidingWindowLog {
            max_requests: 7,
            window: Duration::from_millis(1500)
        }
        .description::<Floats>(),
        "Sliding window: 7 requests per 1.5s"
    );
    assert_eq!(
        Algorithm::fixed_window_default().description::<Floats>(),
        "Fixed window: 100 requests per 60s"
    );
}

#[test]
fn test_default_algorithms() {
    let tb = Algorithm::token_bucket_default();
    assert!(matches!(
        tb,
        Algorithm::TokenBucket {
            capacity: 100,
            refill_rate: _
        }
    ));

    let sw = Algorithm::sliding_window_default();
    assert!(matches!(
        sw,
        Algorithm::SlidingWindowLog {
            max_requests: 100,
            ..
        }
    ));

    let fw = Algorithm::fixed_window_default();
    assert!(matches!(
        fw,
        Algorithm::FixedWindow {
            max_requests: 100,
            ..
        }
    ));
}

#[test]
fn default_rate_is_ten() {
    assert!(matches!(
        Algorithm::token_bucket_default(),
        Algorithm::TokenBucket { refill_rate, .. } if refill_rate == rate(10.0)
    ));
}

// The store in memory, and what is said to a Redis server.

fn store() -> MemoryStore<Floats> {
    MemoryStore::new()
}

#[test]
fn test_token_bucket() {
    let mut store = store();

    // First 5 requests should be allowed
    for i in (0..5).rev() {
        let (allowed, remaining) = store.token_bucket_check("test", 5, rate(1.0)).unwrap();
        assert!(allowed);
        assert_eq!(remaining, i);
    }

    // 6th should be denied
    let (allowed, _) = store.token_bucket_check("test", 5, rate(1.0)).unwrap();
    assert!(!allowed);
}

#[test]
fn test_sliding_window() {
    let mut store = store();
    let window = Duration::from_secs(60);

    // First 3 requests should be allowed
    for i in (0..3).rev() {
        let (allowed, remaining) = store.sliding_window_check("test", 3, window).unwrap();
        assert!(allowed);
        assert_eq!(remaining, i);
    }

    // 4th should be denied
    let (allowed, _) = store.sliding_window_check("test", 3, window).unwrap();
    assert!(!allowed);
}

#[test]
fn test_fixed_window() {
    let mut store = store();
    let window = Duration::from_secs(60);

    // First 3 requests should be allowed
    for i in (0..3).rev() {
        let (allowed, remaining) = store.fixed_window_check("test", 3, window).unwrap();
        assert!(allowed);
        assert_eq!(remaining, i);
    }

    // 4th should be denied
    let (allowed, _) = store.fixed_window_check("test", 3, window).unwrap();
    assert!(!allowed);
}

#[test]
fn memory_test_reset() {
    let mut store = store();

    // Use up token bucket
    store.token_bucket_check("test", 1, rate(0.001)).unwrap();
    let (allowed, _) = store.token_bucket_check("test", 1, rate(0.001)).unwrap();
    assert!(!allowed);

    // Reset
    store.reset("test").unwrap();

    // Should be allowed again
    let (allowed, _) = store.token_bucket_check("test", 1, rate(0.001)).unwrap();
    assert!(allowed);
}

#[test]
fn memory_test_different_keys() {
    let mut store = store();

    // Exhaust key1
    store.token_bucket_check("key1", 1, rate(0.001)).unwrap();
    let (allowed, _) = store.token_bucket_check("key1", 1, rate(0.001)).unwrap();
    assert!(!allowed);

    // key2 should still work
    let (allowed, _) = store.token_bucket_check("key2", 1, rate(0.001)).unwrap();
    assert!(allowed);
}

#[test]
fn test_cleanup() {
    let mut store = store();

    // Add some entries
    store.token_bucket_check("test", 10, rate(1.0)).unwrap();
    store
        .sliding_window_check("test", 10, Duration::from_secs(60))
        .unwrap();
    store
        .fixed_window_check("test", 10, Duration::from_secs(60))
        .unwrap();

    assert!(store.key_count() > 0);

    // Cleanup (won't remove recent entries)
    store.cleanup().unwrap();

    // Entries should still exist (they're recent)
    assert!(store.key_count() > 0);
}

#[test]
fn test_cleanup_evicts_idle_token_buckets() {
    let mut store = store().with_idle_ttl(Duration::from_millis(50));

    // Populate all three algorithm maps.
    store.token_bucket_check_at("idle", 10, rate(1.0), 0);
    store.sliding_window_check_at("idle", 10, Duration::from_secs(60), 0);
    store.fixed_window_check_at("idle", 10, Duration::from_secs(60), 0);
    assert!(store.key_count() > 0);

    // Fresh entries must survive a cleanup.
    store.cleanup_at(0);
    assert!(
        store.key_count() > 0,
        "recent entries must not be evicted by cleanup"
    );

    // Past the idle threshold, cleanup must evict everything.
    store.cleanup_at(80 * MILLI);
    assert_eq!(
        store.key_count(),
        0,
        "idle entries, including token buckets, must be evicted"
    );
}

#[test]
fn test_store_size_stays_bounded() {
    let max = 100;
    let mut store = store().with_max_keys(max);

    for i in 0..10_000 {
        store
            .token_bucket_check(&format!("client-{i}"), 10, rate(1.0))
            .unwrap();
    }
    assert_eq!(store.key_count(), 10_000);

    // Nothing is idle yet, but the cap must still be enforced.
    store.cleanup().unwrap();
    assert!(
        store.key_count() <= max,
        "token bucket map must be capped at max_keys, got {}",
        store.key_count()
    );
}

#[test]
fn test_default_store_is_bounded() {
    let default_store = store();
    assert_eq!(default_store.max_keys(), Some(DEFAULT_MAX_KEYS));
    assert!(default_store.idle_ttl() <= Duration::from_secs(600));

    // The cap is genuinely enforced: shrink it to keep the test cheap and drive cleanup.
    let mut store = store().with_max_keys(50);
    for i in 0..500 {
        store
            .token_bucket_check(&format!("client-{i}"), 10, rate(1.0))
            .unwrap();
    }
    store.cleanup().unwrap();
    assert!(store.key_count() <= 50);
}

#[test]
fn test_remaining_fixed_window_decreases() {
    let mut store = store();
    let window = Duration::from_secs(60);

    // No entry yet.
    assert_eq!(store.remaining("k").unwrap(), 0);

    store.fixed_window_check("k", 5, window).unwrap();
    assert_eq!(store.remaining("k").unwrap(), 4);

    store.fixed_window_check("k", 5, window).unwrap();
    store.fixed_window_check("k", 5, window).unwrap();
    assert_eq!(store.remaining("k").unwrap(), 2);
}

#[test]
fn test_remaining_sliding_window_decreases() {
    let mut store = store();
    let window = Duration::from_secs(60);

    store.sliding_window_check("k", 5, window).unwrap();
    assert_eq!(store.remaining("k").unwrap(), 4);

    store.sliding_window_check("k", 5, window).unwrap();
    assert_eq!(store.remaining("k").unwrap(), 3);
}

#[test]
fn test_store_type() {
    let store = store();
    assert_eq!(store.store_type(), "memory");
}

#[test]
fn test_store_type_default() {
    let store_type = StoreType::default();
    assert!(matches!(store_type, StoreType::Memory));
}

#[test]
fn cleanup_drops_what_is_idle_and_keeps_the_rest() {
    let mut store = MemoryStore::<Floats>::default().with_idle_ttl(Duration::from_millis(100));
    let minute = Duration::from_secs(60);
    store.fixed_window_check_at("old", 5, minute, 0);
    store.fixed_window_check_at("new", 5, minute, 1);
    store.sliding_window_check_at("old", 5, minute, 0);
    store.sliding_window_check_at("old", 5, minute, 1);
    // Idle means that the whole time to live has passed.
    store.cleanup_at(100 * MILLI);
    assert_eq!(store.key_count(), 2);
    assert_eq!(store.remaining_at("new", 100 * MILLI), 4);
    assert_eq!(store.remaining_at("old", 100 * MILLI), 3);
}

#[test]
fn cleanup_goes_by_the_last_request() {
    let second = 1_000 * MILLI;
    let hour = Duration::from_secs(3600);
    let mut store = store();
    assert_eq!(store.fixed_window_check_at("k", 5, hour, 0), (true, 4));
    assert_eq!(store.fixed_window_check_at("k", 5, hour, 299 * second), (true, 3));
    store.cleanup_at(301 * second);
    assert_eq!(store.remaining_at("k", 301 * second), 3);
    // A denied request is a request too.
    assert_eq!(store.sliding_window_check_at("s", 1, hour, 301 * second), (true, 0));
    assert_eq!(store.sliding_window_check_at("s", 1, hour, 500 * second), (false, 0));
    store.cleanup_at(700 * second);
    assert_eq!(store.key_count(), 1);
    assert_eq!(store.sliding_window_check_at("s", 1, hour, 700 * second), (false, 0));
    store.cleanup_at(1_000 * second);
    assert_eq!(store.key_count(), 0);
}

#[test]
fn cleanup_caps_windows_by_their_start() {
    let minute = Duration::from_secs(60);
    let mut store = store().with_max_keys(1);
    store.fixed_window_check_at("a", 5, minute, 1);
    store.fixed_window_check_at("b", 5, minute, 2);
    store.fixed_window_check_at("a", 5, minute, 3);
    store.cleanup_at(4);
    assert_eq!(store.key_count(), 1);
    assert_eq!(store.remaining_at("b", 4), 4);
}

#[test]
fn fixed_windows_of_the_store_say_when_they_are_over() {
    let mut store = store();
    let window = Duration::from_secs(1);
    let at = |millis: u128| millis * MILLI;
    assert_eq!(
        store.fixed_window_check_until_at("k", 1, window, at(900)),
        ((true, 0), Duration::from_secs(1))
    );
    let (verdict, left) = store.fixed_window_check_until_at("k", 1, window, at(950));
    assert_eq!((verdict, left), ((false, 0), Duration::from_millis(950)));
    // The same request is allowed once that time has passed, and not before.
    assert_eq!(store.fixed_window_check_at("k", 1, window, at(1_899)), (false, 0));
    assert_eq!(store.fixed_window_check_at("k", 1, window, at(950) + left.as_nanos()), (true, 0));
    let (_, left) = store.fixed_window_check_until("now", 1, window).unwrap();
    assert_eq!(left, Some(window));
}

#[test]
fn sliding_windows_of_the_store_tell_what_remains() {
    let mut store = store();
    let window = Duration::from_nanos(10);
    for (at, told) in [
        (0, (true, 2)),
        (4, (true, 1)),
        (8, (true, 0)),
        (9, (false, 0)),
        (10, (false, 0)),
        (11, (true, 0)),
        (18, (true, 0)),
        (22, (true, 1)),
    ] {
        assert_eq!(store.sliding_window_check_at("k", 3, window, at), told);
    }
}

#[test]
fn buckets_of_the_store_allow_a_burst() {
    let mut store = store();
    store.token_bucket_check_at("other", 5, rate(1.0), 7);
    for told in [(true, 2), (true, 1), (true, 0), (false, 0), (false, 0)] {
        assert_eq!(store.token_bucket_check_at("k", 3, rate(1.0), 7), told);
    }
    assert_eq!(store.remaining_at("other", 7), 4);
}

#[test]
fn buckets_of_the_store_keep_to_their_rate() {
    let mut store = store();
    let mut allowed = 0;
    for i in 0..=20 {
        let (yes, left) = store.token_bucket_check_at("k", 3, rate(2.0), i * 100 * MILLI);
        if yes {
            allowed += 1;
            assert!(left < 3);
        }
        store.token_bucket_check_at("other", 3, rate(2.0), i * 100 * MILLI);
    }
    // Three at first, and two in each of two seconds, the last of which rounding may delay.
    assert!(allowed == 7 || allowed == 6);
}

#[test]
fn cleanup_caps_by_activity() {
    let mut store = store().with_max_keys(2);
    for (key, at) in [("a", 1), ("b", 2), ("c", 3), ("a", 4)] {
        store.token_bucket_check_at(key, 10, rate(0.001), at);
        store.sliding_window_check_at(key, 10, Duration::from_secs(60), at);
    }
    store.cleanup_at(5);
    assert_eq!(store.key_count(), 4);
    assert_eq!(store.remaining_at("a", 5), 8);
    assert_eq!(store.remaining_at("b", 5), 0);
    assert_eq!(store.remaining_at("c", 5), 9);
}

#[test]
fn without_a_cap_nothing_active_is_dropped() {
    let mut store = store().with_max_keys(1).without_max_keys();
    assert_eq!(store.max_keys(), None);
    for i in 0..10 {
        store.token_bucket_check_at(&format!("{i}"), 1, rate(1.0), i);
    }
    store.cleanup_at(10);
    assert_eq!(store.key_count(), 10);
    assert_eq!(store.idle_ttl(), Duration::from_secs(300));
}

#[test]
fn store_windows_follow_the_request() {
    let mut store = store();
    assert_eq!(
        store.sliding_window_check_at("k", 1, Duration::from_millis(10), 0),
        (true, 0)
    );
    // A request may come with another limit and another window.
    assert_eq!(
        store.sliding_window_check_at("k", 3, Duration::from_millis(20), 10 * MILLI),
        (true, 1)
    );
    assert_eq!(store.remaining_at("k", 20 * MILLI), 2);
    assert_eq!(store.remaining_at("k", 30 * MILLI), 3);
    assert_eq!(
        store.fixed_window_check_at("f", 1, Duration::from_millis(10), 0),
        (true, 0)
    );
    assert_eq!(
        store.fixed_window_check_at("f", 1, Duration::from_millis(20), 10 * MILLI),
        (false, 0)
    );
    assert_eq!(store.remaining_at("f", 19 * MILLI), 0);
    assert_eq!(store.remaining_at("f", 20 * MILLI), 1);
}

#[test]
fn reset_forgets_every_algorithm() {
    let mut store = store();
    store.token_bucket_check_at("k", 1, rate(1.0), 0);
    store.sliding_window_check_at("k", 1, Duration::from_secs(1), 0);
    store.fixed_window_check_at("k", 1, Duration::from_secs(1), 0);
    store.fixed_window_check_at("other", 1, Duration::from_secs(1), 0);
    assert_eq!(store.key_count(), 4);
    store.reset("k").unwrap();
    assert_eq!(store.key_count(), 1);
    assert_eq!(store.fixed_window_check_at("k", 1, Duration::from_secs(1), 0), (true, 0));
}

#[test]
fn forgetting_a_full_bucket_is_not_noticed() {
    let minute = 60_000 * MILLI;
    let mut kept = store();
    let mut cleaned = store().with_idle_ttl(Duration::from_secs(30));
    for _ in 0..3 {
        kept.token_bucket_check_at("k", 5, rate(1.0), 0);
        cleaned.token_bucket_check_at("k", 5, rate(1.0), 0);
    }
    cleaned.cleanup_at(minute);
    assert_eq!((kept.key_count(), cleaned.key_count()), (1, 0));
    for _ in 0..7 {
        assert_eq!(
            kept.token_bucket_check_at("k", 5, rate(1.0), minute),
            cleaned.token_bucket_check_at("k", 5, rate(1.0), minute)
        );
    }
}

fn redis() -> RedisStore {
    RedisStore::with_prefix("redis://localhost:6379", "myapp")
}

#[test]
fn redis_keys_start_with_the_prefix() {
    assert_eq!(RedisStore::new("redis://h").key("tb:a"), "ratelimit:tb:a");
    assert_eq!(redis().bucket_key("client-1"), "myapp:tb:client-1");
    assert_eq!(redis().window_key("client-1", 42), "myapp:fw:client-1:42");
    assert_eq!(redis().url(), "redis://localhost:6379");
    assert_eq!(redis().operation_timeout(), Duration::from_secs(3));
    assert_eq!(redis().store_type(), "redis");
}

#[test]
fn redis_sliding_window_is_told() {
    let request = redis().sliding_request(
        "k",
        5,
        Duration::from_millis(60_500),
        Duration::from_millis(1_700_000_000_123),
    );
    assert_eq!(request.key, "myapp:sw:k");
    assert_eq!(request.limit_key, "myapp:swmax:k");
    assert_eq!(request.sequence_key, "myapp:swseq:k");
    assert_eq!(request.max_requests, 5);
    assert_eq!(request.now, 1_700_000_000_123);
    assert_eq!(request.cutoff, 1_699_999_939_623);
    assert_eq!(request.window_secs, 60);
}

#[test]
fn redis_fixed_window_is_told() {
    let request = redis().fixed_request(
        "k",
        2,
        Duration::from_millis(500),
        Duration::from_millis(1_700_000_000_999),
    );
    assert_eq!(request.window_id, 3_400_000_001);
    assert_eq!(request.key, "myapp:fw:k:3400000001");
    assert_eq!(request.limit_key, "myapp:fwmax:k");
    assert_eq!(request.current_key, "myapp:fwcur:k");
    assert_eq!(request.max_requests, 2);
    assert_eq!(request.ttl_secs, 11);
    // A window under a millisecond counts as one.
    let request = redis().fixed_request("k", 2, Duration::from_micros(1), Duration::from_millis(7));
    assert_eq!((request.window_id, request.ttl_secs), (7, 11));
    let request =
        redis().fixed_request("k", 2, Duration::from_millis(60_001), Duration::from_secs(60));
    assert_eq!((request.window_id, request.ttl_secs), (0, 71));
}

#[test]
fn redis_replies_are_read() {
    assert_eq!(verdict_of_reply((1, 4)), (true, 4));
    assert_eq!(verdict_of_reply((0, 0)), (false, 0));
    assert_eq!(verdict_of_count(1, 2), (true, 1));
    assert_eq!(verdict_of_count(2, 2), (true, 0));
    assert_eq!(verdict_of_count(3, 2), (false, 0));
    assert_eq!(verdict_of_count(-1, 2), (false, 0));
    assert_eq!(remaining_in_window(5, Some(2)), 3);
    assert_eq!(remaining_in_window(5, Some(9)), 0);
    assert_eq!(remaining_in_window(5, None), 5);
    assert_eq!(remaining_in_log(5, 1), 4);
    assert_eq!(remaining_in_log(5, 6), 0);
}

#[test]
fn redis_reset_covers_every_key() {
    assert_eq!(
        redis().reset_keys("k"),
        vec![
            "myapp:tb:k",
            "myapp:sw:k",
            "myapp:swmax:k",
            "myapp:swseq:k",
            "myapp:fwmax:k",
            "myapp:fwcur:k",
        ]
    );
    assert_eq!(redis().reset_pattern("k"), "myapp:fw:k:*");
    let step = redis().sweep_step("k", 0, &vec![]);
    assert!(step.remove.is_empty());
    assert_eq!(step.next, None);
    let step = redis().sweep_step("k", 17, &vec!["myapp:fw:k:5".to_string()]);
    assert_eq!(step.remove, vec!["myapp:fw:k:5"]);
    assert_eq!(step.next, Some(17));
}

#[test]
fn redis_reset_spares_other_keys() {
    let own = redis().window_key("k", 28_333_333);
    let found = vec![
        redis().window_key("k:b", 7),
        own.clone(),
        redis().window_key("k:7", 8),
        redis().window_key("kk", 7),
        "myapp:fw:k:".to_string(),
        "myapp:fw:k:7x".to_string(),
        "myapp:fwmax:k".to_string(),
        redis().window_key("k", 0),
    ];
    let step = redis().sweep_step("k", 3, &found);
    assert_eq!(step.remove, vec![own, redis().window_key("k", 0)]);
    assert_eq!(redis().sweep_step("k:7", 3, &found).remove, vec!["myapp:fw:k:7:8"]);

    // What is special in a pattern stands for itself.
    let found = vec![
        redis().window_key("user-1", 7),
        redis().window_key("*", 7),
        redis().window_key("?", 7),
    ];
    assert_eq!(redis().reset_pattern("*"), "myapp:fw:\\*:*");
    assert_eq!(redis().sweep_step("*", 0, &found).remove, vec!["myapp:fw:*:7"]);
    assert_eq!(redis().sweep_step("?", 0, &found).remove, vec!["myapp:fw:?:7"]);
    assert!(redis().is_counter_of("[a]", "myapp:fw:[a]:12"));
    assert!(!redis().is_counter_of("[a]", "myapp:fw:a:12"));
    assert_eq!(escape("a*b?c[d]e\\f:"), "a\\*b\\?c\\[d\\]e\\\\f:");
    assert_eq!(escape(""), "");
}

#[test]
fn redis_fixed_windows_are_new_after_the_wait() {
    let window = Duration::from_millis(500);
    let now = Duration::from_millis(1_200);
    let denied = fixed_window_result((false, 0), 2, window, now);
    let later = now + denied.retry_after.unwrap();
    let id = |at: Duration| redis().fixed_request("k", 2, window, at).window_id;
    assert_eq!((id(now), id(later)), (2, 3));
    assert_eq!(id(later - Duration::from_millis(1)), 2);
}

#[test]
fn redis_fixed_windows_count_down() {
    // The server counts the requests on a counter, and replies with the number.
    let store = redis();
    let window = Duration::from_millis(500);
    let mut counters: std::collections::HashMap<String, i64> = std::collections::HashMap::new();
    let mut told = vec![];
    for (key, millis) in [("k", 1000), ("k", 1499), ("j", 1200), ("k", 1300), ("k", 1500)] {
        let request = store.fixed_request(key, 2, window, Duration::from_millis(millis));
        let count = counters.entry(request.key).or_insert(0);
        *count += 1;
        told.push(verdict_of_count(*count, 2));
    }
    assert_eq!(told, vec![(true, 1), (true, 0), (true, 1), (false, 0), (true, 1)]);
}

#[test]
fn redis_remaining_goes_from_buckets_to_windows() {
    let store = redis();
    assert!(matches!(
        store.remaining_start("k"),
        RemainingStep::Tokens { key } if key == "myapp:tb:k"
    ));
    assert!(matches!(
        store.remaining_after_tokens("k", Some(f64::to_bits(4.9))),
        RemainingStep::Known(4)
    ));
    assert!(matches!(
        store.remaining_after_tokens("k", Some(f64::to_bits(-1.0))),
        RemainingStep::Known(0)
    ));
    assert!(matches!(
        store.remaining_after_tokens("k", None),
        RemainingStep::Pointers { current_key, limit_key, log_limit_key }
            if current_key == "myapp:fwcur:k"
                && limit_key == "myapp:fwmax:k"
                && log_limit_key == "myapp:swmax:k"
    ));
    assert!(matches!(
        store.remaining_after_pointers("k", Some(9), Some(5), Some(6)),
        RemainingStep::WindowCount { key, limit: 5 } if key == "myapp:fw:k:9"
    ));
    assert!(matches!(
        store.remaining_after_pointers("k", None, Some(5), Some(6)),
        RemainingStep::LogCount { key, limit: 6 } if key == "myapp:sw:k"
    ));
    assert!(matches!(
        store.remaining_after_pointers("k", Some(9), None, None),
        RemainingStep::Known(0)
    ));
}

#[test]
fn redis_operations_time_out() {
    assert!(matches!(
        operation_outcome::<u64>(None),
        Err(RateLimitError::Timeout)
    ));
    assert!(matches!(
        operation_outcome::<u64>(Some(Err("refused".to_string()))),
        Err(RateLimitError::StoreError(reason)) if reason == "refused"
    ));
    assert!(matches!(operation_outcome(Some(Ok(7u64))), Ok(7)));
}

// The limiter.

fn build(builder: RateLimiterBuilder) -> RateLimiter<MemoryStore<Floats>, Floats> {
    builder.build::<Floats>().unwrap_or_else(|e| panic!("{}", e.message()))
}

fn builder() -> RateLimiterBuilder {
    RateLimiter::<MemoryStore<Floats>, Floats>::builder()
}

#[test]
fn test_token_bucket_basic() {
    let mut limiter = build(builder().algorithm(Algorithm::TokenBucket {
        capacity: 5,
        refill_rate: rate(1.0),
    }));

    // First 5 requests should be allowed
    for i in 0..5 {
        let result = limiter.check("test_key").unwrap();
        assert!(result.allowed, "Request {} should be allowed", i);
    }

    // 6th request should be denied
    let result = limiter.check("test_key").unwrap();
    assert!(!result.allowed, "6th request should be denied");
}

#[test]
fn test_fixed_window_basic() {
    let mut limiter = build(builder().algorithm(Algorithm::FixedWindow {
        max_requests: 3,
        window: Duration::from_secs(60),
    }));

    // First 3 requests should be allowed
    for i in 0..3 {
        let result = limiter.check("test_key").unwrap();
        assert!(result.allowed, "Request {} should be allowed", i);
    }

    // 4th request should be denied
    let result = limiter.check("test_key").unwrap();
    assert!(!result.allowed, "4th request should be denied");
}

#[test]
fn lib_test_different_keys() {
    let mut limiter = build(builder().algorithm(Algorithm::TokenBucket {
        capacity: 2,
        refill_rate: rate(1.0),
    }));

    // Exhaust key1
    limiter.check("key1").unwrap();
    limiter.check("key1").unwrap();
    let result = limiter.check("key1").unwrap();
    assert!(!result.allowed);

    // key2 should still work
    let result = limiter.check("key2").unwrap();
    assert!(result.allowed);
}

#[test]
fn lib_test_reset() {
    let mut limiter = build(builder().algorithm(Algorithm::TokenBucket {
        capacity: 1,
        refill_rate: rate(0.001),
    }));

    // Exhaust the limit
    limiter.check("test_key").unwrap();
    let result = limiter.check("test_key").unwrap();
    assert!(!result.allowed);

    // Reset and try again
    limiter.reset("test_key").unwrap();
    let result = limiter.check("test_key").unwrap();
    assert!(result.allowed);
}

#[test]
fn test_token_bucket_zero_refill_rate_rejected_at_build() {
    let result = builder()
        .algorithm(Algorithm::TokenBucket {
            capacity: 2,
            refill_rate: rate(0.0),
        })
        .build::<Floats>();
    assert!(result.is_err(), "build should reject refill_rate == 0.0");
}

#[test]
fn test_token_bucket_nan_refill_rate_rejected_at_build() {
    let result = builder()
        .algorithm(Algorithm::TokenBucket {
            capacity: 1,
            refill_rate: rate(f64::NAN),
        })
        .build::<Floats>();
    assert!(result.is_err(), "build should reject NaN refill_rate");
}

#[test]
fn test_fixed_window_sub_second_does_not_panic() {
    let mut limiter = build(builder().fixed_window(2, Duration::from_millis(500)));

    // First two allowed, third denied.
    let r1 = limiter.check("k").unwrap();
    assert!(r1.allowed);
    let r2 = limiter.check("k").unwrap();
    assert!(r2.allowed);
    let r3 = limiter.check("k").unwrap();
    assert!(!r3.allowed);
    // A denied sub-second window reports a real, bounded retry delay.
    let retry = r3.retry_after.expect("denied result carries retry_after");
    assert!(retry <= Duration::from_millis(500));
}

#[test]
fn test_token_bucket_tiny_positive_rate_is_accepted() {
    let mut limiter = build(builder().algorithm(Algorithm::TokenBucket {
        capacity: 1,
        refill_rate: rate(f64::EPSILON),
    }));
    assert!(limiter.check("k").unwrap().allowed);
    assert!(!limiter.check("k").unwrap().allowed);
}

#[test]
fn results_are_made() {
    let allowed = RateLimitCheckResult::allowed(4, 5, 6);
    assert!(allowed.allowed);
    assert_eq!((allowed.remaining, allowed.limit, allowed.reset_at), (4, 5, 6));
    assert_eq!(allowed.retry_after, None);
    let denied = RateLimitCheckResult::denied(5, 6, Duration::from_secs(7));
    assert!(!denied.allowed);
    assert_eq!((denied.remaining, denied.limit, denied.reset_at), (0, 5, 6));
    assert_eq!(denied.retry_after, Some(Duration::from_secs(7)));
}

#[test]
fn buckets_say_when_they_are_full() {
    let now = Duration::from_millis(1_000_900);
    let result = token_bucket_result::<Floats>((true, 3), 100, rate(8.0), now);
    assert_eq!((result.allowed, result.remaining, result.limit), (true, 3, 100));
    assert_eq!(result.reset_at, 1_012);
    assert_eq!(result.retry_after, None);

    let result = token_bucket_result::<Floats>((false, 0), 100, rate(8.0), now);
    assert_eq!(result.retry_after, Some(Duration::from_millis(125)));
    assert_eq!(result.reset_at, 1_012);

    // A bucket that is not refilled never is full again.
    for bad in [0.0, -1.0, f64::NAN, f64::INFINITY] {
        let result = token_bucket_result::<Floats>((false, 0), 100, rate(bad), now);
        assert_eq!(result.reset_at, u64::MAX);
        assert_eq!(result.retry_after, Some(Duration::from_secs(u64::MAX)));
    }

    // A very long time does not overflow.
    let result = token_bucket_result::<Floats>((false, 0), 100, rate(1e-300), now);
    assert_eq!(result.reset_at, u64::MAX);
}

#[test]
fn sliding_windows_say_when_they_reset() {
    let now = Duration::from_millis(1_000_900);
    let window = Duration::from_millis(60_500);
    let result = sliding_window_result((true, 2), 3, window, now);
    assert_eq!((result.allowed, result.remaining, result.limit), (true, 2, 3));
    assert_eq!((result.reset_at, result.retry_after), (1_060, None));
    let result = sliding_window_result((false, 0), 3, window, now);
    assert_eq!((result.reset_at, result.retry_after), (1_060, Some(window)));
    let result = sliding_window_result((false, 0), 3, Duration::MAX, now);
    assert_eq!(result.reset_at, u64::MAX);
}

#[test]
fn fixed_windows_say_when_they_reset() {
    let now = Duration::from_millis(1_200);
    let result = fixed_window_result((false, 0), 3, Duration::from_millis(500), now);
    assert_eq!((result.allowed, result.remaining, result.limit), (false, 0, 3));
    assert_eq!(result.reset_at, 1);
    assert_eq!(result.retry_after, Some(Duration::from_millis(300)));
    let result = fixed_window_result((true, 1), 3, Duration::from_secs(60), now);
    assert_eq!((result.reset_at, result.retry_after, result.remaining), (60, None, 1));
    // At the very end of a window, a whole one is ahead.
    let result = fixed_window_result((false, 0), 3, Duration::from_millis(400), now);
    assert_eq!(result.retry_after, Some(Duration::from_millis(400)));
    // A window under a millisecond counts as one.
    let result = fixed_window_result((false, 0), 3, Duration::from_nanos(1), now);
    assert_eq!(result.retry_after, Some(Duration::from_millis(1)));
}

#[test]
fn the_limit_never_resets_in_the_past() {
    for millis in [0, 1, 999, 1_000, 1_500, 59_999, 60_000] {
        let now = Duration::from_millis(millis);
        for window in [1, 400, 1_000, 60_000] {
            let window = Duration::from_millis(window);
            assert!(fixed_window_result((true, 0), 1, window, now).reset_at >= now.as_secs());
            assert!(sliding_window_result((true, 0), 1, window, now).reset_at >= now.as_secs());
        }
        let result = token_bucket_result::<Floats>((true, 0), 1, rate(3.0), now);
        assert!(result.reset_at >= now.as_secs());
    }
}

#[test]
fn fixed_windows_of_a_key_say_when_they_reset() {
    let now = Duration::from_millis(10_950);
    let left = Duration::from_millis(950);
    let result = key_window_result((false, 0), 1, left, now);
    assert_eq!((result.allowed, result.remaining, result.limit), (false, 0, 1));
    assert_eq!((result.reset_at, result.retry_after), (11, Some(left)));
    let result = key_window_result((true, 2), 3, Duration::from_millis(1_100), now);
    assert_eq!((result.allowed, result.remaining, result.limit), (true, 2, 3));
    assert_eq!((result.reset_at, result.retry_after), (12, None));

    // A store that knows the window of the key says so, and windows count from the epoch else.
    let fixed = Algorithm::FixedWindow { max_requests: 1, window: Duration::from_secs(1) };
    let result = check_result::<Floats>(&fixed, (false, 0), Some(left), now);
    assert_eq!(result.retry_after, Some(left));
    let result = check_result::<Floats>(&fixed, (false, 0), None, now);
    assert_eq!(result.retry_after, Some(Duration::from_millis(50)));
}

#[test]
fn denied_clients_wait_for_their_own_window() {
    // Windows of an hour: the window of the key ends an hour after its first request.
    let hour = Duration::from_secs(3600);
    let mut limiter = build(builder().fixed_window(1, hour));
    let before = unix_now();
    assert!(limiter.check("k").unwrap().allowed);
    let denied = limiter.check("k").unwrap();
    let waited = unix_now() - before;
    let retry = denied.retry_after.unwrap();
    assert!(retry <= hour);
    assert!(retry + waited + Duration::from_secs(1) >= hour);
    assert!(denied.reset_at >= (before + retry).as_secs());
}

#[test]
fn limiters_exempt_bypass_keys() {
    let mut limiter = build(builder().token_bucket(1, rate(f64::EPSILON)).bypass_key("admin"));
    for _ in 0..3 {
        let result = limiter.check("admin").unwrap();
        assert!(result.allowed);
        assert_eq!((result.remaining, result.limit, result.retry_after), (1, 1, None));
    }
    assert!(limiter.check("user").unwrap().allowed);
    assert!(!limiter.check("user").unwrap().allowed);
    let now = Duration::from_millis(1_500);
    let result = exempt_result(&Algorithm::fixed_window_default(), now);
    assert_eq!((result.allowed, result.remaining, result.reset_at), (true, 100, 1));
}

#[test]
fn limiters_keep_their_configuration() {
    let limiter = build(builder().sliding_window(9, Duration::from_secs(1)).key_prefix("x"));
    assert_eq!(limiter.algorithm().limit(), 9);
    assert_eq!(limiter.config().key_prefix, "x");
}

#[test]
fn sliding_limiters_count_down() {
    let mut limiter = build(builder().sliding_window(2, Duration::from_secs(60)));
    assert_eq!(limiter.check("k").unwrap().remaining, 1);
    assert_eq!(limiter.check("k").unwrap().remaining, 0);
    let denied = limiter.check("k").unwrap();
    assert_eq!(denied.retry_after, Some(Duration::from_secs(60)));
    limiter.reset("k").unwrap();
    assert_eq!(limiter.check("k").unwrap().remaining, 1);
}

// The configuration and the builder.

#[test]
fn test_default_config() {
    let config = RateLimitConfig::default();
    assert!(matches!(config.algorithm, Algorithm::TokenBucket { .. }));
    assert!(matches!(config.store_type, StoreType::Memory));
    assert!(config.include_headers);
    assert!(config.skip_on_error);
}

#[test]
fn default_config_in_full() {
    let config = RateLimitConfig::default();
    assert_eq!(config.algorithm.limit(), 100);
    assert_eq!(config.key_prefix, "ratelimit");
    assert_eq!(config.error_message, None);
    assert!(config.bypass_keys.is_empty());
    assert_eq!(config.operation_timeout, Duration::from_secs(3));
    assert_eq!(config.trusted_proxy_depth, 0);
}

#[test]
fn config_test_bypass_keys() {
    let mut config = RateLimitConfig::default();
    config.bypass_keys = vec!["admin".to_string(), "service".to_string()];

    assert!(config.should_bypass("admin"));
    assert!(config.should_bypass("service"));
    assert!(!config.should_bypass("user"));
}

#[test]
fn test_builder_token_bucket() {
    let limiter = RateLimiterBuilder::new()
        .token_bucket(100, rate(10.0))
        .key_prefix("test")
        .build::<Floats>()
        .unwrap_or_else(|e| panic!("{}", e.message()));

    assert!(matches!(
        limiter.algorithm(),
        Algorithm::TokenBucket {
            capacity: 100,
            refill_rate: _
        }
    ));
}

#[test]
fn test_builder_fixed_window() {
    let limiter = RateLimiterBuilder::new()
        .fixed_window(50, Duration::from_secs(60))
        .build::<Floats>()
        .unwrap_or_else(|e| panic!("{}", e.message()));

    assert!(matches!(
        limiter.algorithm(),
        Algorithm::FixedWindow {
            max_requests: 50,
            window: _
        }
    ));
}

#[test]
fn test_builder_missing_algorithm() {
    let result = RateLimiterBuilder::new().build::<Floats>();
    assert!(result.is_err());
}

fn told(algorithm: Algorithm) -> String {
    match validate_algorithm(&algorithm) {
        Err(RateLimitError::ConfigError(reason)) => reason,
        _ => String::new(),
    }
}

#[test]
fn parameters_are_checked() {
    assert_eq!(
        told(Algorithm::TokenBucket { capacity: 0, refill_rate: rate(1.0) }),
        "TokenBucket capacity must be > 0"
    );
    for bad in [0.0, -1.0, f64::NAN, f64::INFINITY] {
        assert_eq!(
            told(Algorithm::TokenBucket { capacity: 1, refill_rate: rate(bad) }),
            "TokenBucket refill_rate must be finite and > 0"
        );
    }
    let minute = Duration::from_secs(60);
    assert_eq!(
        told(Algorithm::SlidingWindowLog { max_requests: 0, window: minute }),
        "max_requests must be > 0"
    );
    assert_eq!(
        told(Algorithm::FixedWindow { max_requests: 1, window: Duration::ZERO }),
        "window must be > 0"
    );
    assert!(validate_algorithm(&Algorithm::sliding_window_default()).is_ok());
    assert!(validate_algorithm(&Algorithm::token_bucket_default()).is_ok());
}

#[test]
fn everything_that_is_set_is_kept() {
    let (config, store) = RateLimitConfig::builder()
        .sliding_window(7, Duration::from_secs(8))
        .key_prefix("p")
        .include_headers(false)
        .skip_on_error(false)
        .operation_timeout(Duration::from_millis(9))
        .trusted_proxy_depth(2)
        .error_message("slow down")
        .bypass_key("a")
        .bypass_keys(&["b", "c"])
        .redis_store("redis://localhost:6379")
        .plan()
        .unwrap_or_else(|e| panic!("{}", e.message()));
    assert!(matches!(
        config.algorithm,
        Algorithm::SlidingWindowLog { max_requests: 7, window } if window == Duration::from_secs(8)
    ));
    assert_eq!(config.store_type, StoreType::Redis);
    assert_eq!(config.key_prefix, "p");
    assert!(!config.include_headers);
    assert!(!config.skip_on_error);
    assert_eq!(config.operation_timeout, Duration::from_millis(9));
    assert_eq!(config.trusted_proxy_depth, 2);
    assert_eq!(config.error_message, Some("slow down".to_string()));
    assert_eq!(config.bypass_keys, vec!["a", "b", "c"]);
    match store {
        StorePlan::Redis(store) => {
            assert_eq!(store.url(), "redis://localhost:6379");
            assert_eq!(store.key("x"), "p:x");
            assert_eq!(store.operation_timeout(), Duration::from_millis(9));
        }
        StorePlan::Memory => panic!("a Redis store was asked for"),
    }
    let copy = config.clone();
    assert_eq!(copy.bypass_keys, config.bypass_keys);
    assert_eq!(copy.error_message, config.error_message);
}

#[test]
fn the_last_store_counts() {
    let plan = RateLimiterBuilder::default()
        .algorithm(Algorithm::fixed_window_default())
        .redis_store("redis://localhost")
        .memory_store()
        .plan();
    assert!(matches!(plan, Ok((_, StorePlan::Memory))));
}

#[test]
fn redis_stores_are_opened_elsewhere() {
    let built = RateLimiterBuilder::new()
        .algorithm(Algorithm::fixed_window_default())
        .redis_store("redis://localhost")
        .build::<Floats>();
    assert!(matches!(
        built,
        Err(RateLimitError::ConfigError(reason))
            if reason == "A Redis store needs a connection: open the store that `plan` names."
    ));
}

#[test]
fn a_missing_algorithm_is_told() {
    assert!(matches!(
        RateLimiterBuilder::new().plan(),
        Err(RateLimitError::ConfigError(reason)) if reason == "Algorithm must be specified"
    ));
}

// The middleware.

/// Addresses in dotted decimal.
struct Dotted;

impl AddressFormat for Dotted {
    fn canonical(text: &str) -> Option<String> {
        let parts: Vec<u8> = text.split('.').filter_map(|part| part.parse().ok()).collect();
        if parts.len() != 4 || text.split('.').count() != 4 {
            return None;
        }
        Some(format!("{}.{}.{}.{}", parts[0], parts[1], parts[2], parts[3]))
    }
}

type Memory = RateLimitMiddleware<MemoryStore<Floats>, Floats>;

fn create_test_limiter() -> RateLimiter<MemoryStore<Floats>, Floats> {
    build(RateLimiterBuilder::new().algorithm(Algorithm::TokenBucket {
        capacity: 5,
        refill_rate: rate(1.0),
    }))
}

fn info() -> RequestInfo {
    RequestInfo::new("/api/test", "GET").with_ip("127.0.0.1")
}

fn head(headers: &[(&str, &str)]) -> RequestHead {
    RequestHead {
        target: "/api/test".to_string(),
        method: "GET".to_string(),
        headers: headers
            .iter()
            .map(|(name, value)| (name.to_string(), value.to_string()))
            .collect(),
    }
}

/// The status that the client sees, where the handler replies with 200.
fn status(handling: Handling) -> u16 {
    match handling {
        Handling::Forward { .. } => 200,
        Handling::Reply { status, .. } => status,
    }
}

#[test]
fn test_middleware_allows_requests() {
    let limiter = create_test_limiter();
    let mut middleware = RateLimitMiddleware::new(limiter);

    let response = middleware.check(&info());
    assert!(response.is_allowed());
    assert!(response.headers().is_some());
}

#[test]
fn test_middleware_limits_requests() {
    let limiter = create_test_limiter();
    let mut middleware = RateLimitMiddleware::new(limiter);

    // Use up all tokens
    for _ in 0..5 {
        middleware.check(&info());
    }

    // Next request should be limited
    let response = middleware.check(&info());
    assert!(response.is_limited());
    assert!(response.message().is_some());
}

#[test]
fn middleware_test_bypass_keys() {
    let limiter = create_test_limiter();
    let mut middleware = RateLimitMiddleware::new(limiter).with_bypass_keys(&["admin_key"]);

    // Use up all tokens
    for _ in 0..10 {
        middleware.check(&info());
    }

    // Need to use API key extractor for this
    let mut middleware_api = RateLimitMiddleware::new(build(
        RateLimiterBuilder::new()
            .token_bucket(1, rate(0.001))
            .bypass_key("admin_key"),
    ))
    .with_extractor(KeyExtractor::ApiKey {
        header_name: "X-API-Key".to_string(),
    })
    .with_bypass_keys(&["admin_key"]);

    let bypass_info = RequestInfo::new("/api/test", "GET").with_header("X-API-Key", "admin_key");

    let response = middleware_api.check(&bypass_info);
    assert!(response.is_allowed());
}

#[test]
fn exempt_keys_are_never_limited() {
    let mut middleware =
        RateLimitMiddleware::new(build(RateLimiterBuilder::new().token_bucket(1, rate(0.001))))
            .with_bypass_keys(&["10.0.0.1", "127.0.0.1"]);
    for _ in 0..5 {
        let response = middleware.check(&info());
        assert!(response.is_allowed());
        assert!(response.headers().is_none());
    }
}

#[test]
fn test_custom_error_message() {
    let limiter = build(RateLimiterBuilder::new().token_bucket(1, rate(0.001)));
    let mut middleware =
        RateLimitMiddleware::new(limiter).with_error_message("Custom rate limit message");

    // Use up token
    middleware.check(&info());

    // Next request should have custom message
    let response = middleware.check(&info());
    assert!(response.is_limited());
    assert_eq!(response.message(), Some("Custom rate limit message"));
}

#[test]
fn test_extract_request_info() {
    let headers = vec![
        ("X-API-Key".to_string(), "test_key".to_string()),
        ("Content-Type".to_string(), "application/json".to_string()),
    ];

    let info = Memory::extract_request_info(
        Some("10.0.0.1"),
        "/api/users",
        "POST",
        Some("user_123"),
        &headers,
    );

    assert_eq!(info.ip, Some("10.0.0.1".to_string()));
    assert_eq!(info.path, "/api/users");
    assert_eq!(info.method, "POST");
    assert_eq!(info.user_id, Some("user_123".to_string()));
    assert_eq!(info.api_key, Some("test_key".to_string()));
}

#[test]
fn the_first_header_with_an_api_key_counts() {
    let headers = vec![
        ("Accept".to_string(), "*/*".to_string()),
        ("AUTHORIZATION".to_string(), "Bearer x".to_string()),
        ("X-API-Key".to_string(), "k".to_string()),
    ];
    let info = Memory::extract_request_info(None, "/", "GET", None, &headers);
    assert_eq!(info.api_key, Some("Bearer x".to_string()));
    assert_eq!(info.ip, None);
    assert_eq!(info.user_id, None);
    assert_eq!(info.headers, headers);
    let info = Memory::extract_request_info(None, "/", "GET", None, &headers[..1]);
    assert_eq!(info.api_key, None);
}

#[test]
fn test_forwarded_ip_at_depth_selects_from_right() {
    let xff = "203.0.113.5, 70.41.3.18, 150.172.238.178";
    // depth 0: no proxy trusted, header ignored entirely.
    assert_eq!(forwarded_ip_at_depth::<Dotted>(xff, 0), None);
    // depth 1: rightmost hop (added by our proxy).
    assert_eq!(
        forwarded_ip_at_depth::<Dotted>(xff, 1),
        Some("150.172.238.178".to_string())
    );
    // depth 2: second from the right.
    assert_eq!(
        forwarded_ip_at_depth::<Dotted>(xff, 2),
        Some("70.41.3.18".to_string())
    );
    // depth 3: the originating client (leftmost of a 3-hop chain).
    assert_eq!(
        forwarded_ip_at_depth::<Dotted>(xff, 3),
        Some("203.0.113.5".to_string())
    );
    // depth beyond the number of hops trusts nothing.
    assert_eq!(forwarded_ip_at_depth::<Dotted>(xff, 4), None);
}

#[test]
fn hops_that_are_no_addresses_give_none() {
    assert_eq!(forwarded_ip_at_depth::<Dotted>("1.2.3.4, unknown", 1), None);
    assert_eq!(
        forwarded_ip_at_depth::<Dotted>("1.2.3.4,, ,5.6.7.8 ,", 2),
        Some("1.2.3.4".to_string())
    );
    assert_eq!(forwarded_ip_at_depth::<Dotted>("", 1), None);
}

#[test]
fn addresses_are_read_from_trusted_headers() {
    let forwarded = head(&[("X-Forwarded-For", "1.1.1.1"), ("X-Real-IP", "2.2.2.2")]);
    assert_eq!(client_ip::<Dotted>(&forwarded.headers, 0), None);
    assert_eq!(client_ip::<Dotted>(&forwarded.headers, 1), Some("1.1.1.1".to_string()));
    assert_eq!(client_ip::<Dotted>(&forwarded.headers, 2), Some("2.2.2.2".to_string()));
    let real = head(&[("x-real-ip", " 2.2.2.2 ")]);
    assert_eq!(client_ip::<Dotted>(&real.headers, 1), Some("2.2.2.2".to_string()));
    assert_eq!(client_ip::<Dotted>(&[], 1), None);
}

#[test]
fn queries_are_taken_off() {
    assert_eq!(path_only("/a/b?c=d?e"), "/a/b");
    assert_eq!(path_only("/a"), "/a");
    assert_eq!(path_only("?x"), "");
    assert_eq!(path_only(""), "");
}

#[test]
fn test_multi_hop_xff_rate_limits_on_client() {
    let limiter = build(RateLimiterBuilder::new().token_bucket(1, rate(f64::EPSILON)));
    // Trust all 3 hops so the leftmost (originating client) is the key.
    let mut middleware = RateLimitMiddleware::new(limiter).with_trusted_proxy_depth(3);

    let request = head(&[(
        "x-forwarded-for",
        "203.0.113.5, 70.41.3.18, 150.172.238.178",
    )]);

    // First request consumes the single token -> allowed.
    let r1 = middleware.handle::<Dotted>(&request);
    assert_eq!(status(r1), 200);

    // Second request must be rate limited on the client's IP.
    let r2 = middleware.handle::<Dotted>(&request);
    assert_eq!(
        status(r2),
        429,
        "proxied client must be rate limited, not failed open"
    );
}

#[test]
fn test_spoofed_first_hop_shares_bucket_with_trusted_proxy() {
    let limiter = build(RateLimiterBuilder::new().token_bucket(1, rate(f64::EPSILON)));
    let mut middleware = RateLimitMiddleware::new(limiter).with_trusted_proxy_depth(1);

    // The leftmost hop changes; the rightmost (10.0.0.1) is the same both times.
    let r1 = middleware.handle::<Dotted>(&head(&[("x-forwarded-for", "203.0.113.1, 10.0.0.1")]));
    assert_eq!(status(r1), 200);

    let r2 = middleware.handle::<Dotted>(&head(&[("x-forwarded-for", "203.0.113.2, 10.0.0.1")]));
    assert_eq!(
        status(r2),
        429,
        "rotating the spoofable first hop must not mint a fresh bucket"
    );
}

#[test]
fn test_xff_ignored_when_no_trusted_proxy() {
    let middleware = RateLimitMiddleware::new(create_test_limiter());
    assert_eq!(middleware.trusted_proxy_depth(), 0);

    // Sanity: the selector itself refuses to trust anything at depth 0.
    assert_eq!(forwarded_ip_at_depth::<Dotted>("1.2.3.4, 5.6.7.8", 0), None);
}

#[test]
fn test_default_middleware_unkeyed_requests_are_allowed_and_counted() {
    let limiter = build(RateLimiterBuilder::new().token_bucket(1, rate(f64::EPSILON)));
    let mut middleware = RateLimitMiddleware::new(limiter);

    for expected in 1..=3u64 {
        let res = middleware.handle::<Dotted>(&head(&[]));
        assert_eq!(status(res), 200, "unkeyed requests are allowed by default");
        assert_eq!(middleware.unkeyed_allow_count(), expected);
    }
}

#[test]
fn test_unkeyed_deny_policy_rejects() {
    let limiter = build(RateLimiterBuilder::new().token_bucket(10, rate(1.0)));
    let mut middleware =
        RateLimitMiddleware::new(limiter).with_unkeyed_policy(UnkeyedRequestPolicy::Deny);

    let res = middleware.handle::<Dotted>(&head(&[]));

    assert_eq!(status(res), 429);
    assert_eq!(middleware.unkeyed_allow_count(), 0);
}

#[test]
fn test_extractor_header_is_available_from_request() {
    let limiter = build(RateLimiterBuilder::new().token_bucket(1, rate(f64::EPSILON)));
    let mut middleware = RateLimitMiddleware::new(limiter).with_extractor(KeyExtractor::ApiKey {
        header_name: "X-API-Key".to_string(),
    });

    let request = head(&[("x-api-key", "sk_live_abc")]);

    let r1 = middleware.handle::<Dotted>(&request);
    assert_eq!(status(r1), 200);

    let r2 = middleware.handle::<Dotted>(&request);
    assert_eq!(status(r2), 429, "the API key must key the bucket");
    assert_eq!(
        middleware.unkeyed_allow_count(),
        0,
        "the request was keyed, not bypassed"
    );
}

#[test]
fn untrusted_headers_give_no_key() {
    let limiter = build(RateLimiterBuilder::new().fixed_window(1, Duration::from_secs(60)));
    let mut middleware = RateLimitMiddleware::new(limiter);
    let request = head(&[("X-Forwarded-For", "1.2.3.4"), ("X-Real-IP", "1.2.3.4")]);
    for _ in 0..3 {
        assert_eq!(status(middleware.handle::<Dotted>(&request)), 200);
    }
    assert_eq!(middleware.unkeyed_allow_count(), 3);
}

#[test]
fn queries_do_not_make_new_keys() {
    let limiter = build(RateLimiterBuilder::new().fixed_window(1, Duration::from_secs(60)));
    let mut middleware =
        RateLimitMiddleware::new(limiter).with_extractor(KeyExtractor::user_id_and_path());
    let mut request = head(&[("X-User-Id", "u")]);
    assert_eq!(status(middleware.handle::<Dotted>(&request)), 200);
    request.target = "/api/test?x=1".to_string();
    assert_eq!(status(middleware.handle::<Dotted>(&request)), 429);
    request.target = "/api/other".to_string();
    assert_eq!(status(middleware.handle::<Dotted>(&request)), 200);
}

/// A store that always errors, used to exercise the fail-open/closed path.
struct ErrorStore;

impl RateLimitStore for ErrorStore {
    fn token_bucket_check(
        &mut self,
        _key: &str,
        _capacity: u64,
        _refill_rate: RefillRate,
    ) -> RateLimitResult<(bool, u64)> {
        Err(RateLimitError::store("store down"))
    }
    fn sliding_window_check(
        &mut self,
        _key: &str,
        _max_requests: u64,
        _window: Duration,
    ) -> RateLimitResult<(bool, u64)> {
        Err(RateLimitError::store("store down"))
    }
    fn fixed_window_check(
        &mut self,
        _key: &str,
        _max_requests: u64,
        _window: Duration,
    ) -> RateLimitResult<(bool, u64)> {
        Err(RateLimitError::store("store down"))
    }
    fn fixed_window_check_until(
        &mut self,
        _key: &str,
        _max_requests: u64,
        _window: Duration,
    ) -> RateLimitResult<((bool, u64), Option<Duration>)> {
        Err(RateLimitError::store("store down"))
    }
    fn reset(&mut self, _key: &str) -> RateLimitResult<()> {
        Ok(())
    }
    fn remaining(&mut self, _key: &str) -> RateLimitResult<u64> {
        Ok(0)
    }
    fn store_type(&self) -> &'static str {
        "error"
    }
}

fn failing(skip_on_error: bool) -> RateLimitMiddleware<ErrorStore, Floats> {
    let mut config = RateLimitConfig::default();
    config.skip_on_error = skip_on_error;
    RateLimitMiddleware::new(RateLimiter::new(ErrorStore, config.algorithm, config))
}

#[test]
fn test_skip_on_error_false_fails_closed() {
    let mut middleware = failing(false);

    let response = middleware.check(&info());
    assert!(
        response.is_limited(),
        "skip_on_error(false) must deny on store error"
    );
}

#[test]
fn test_skip_on_error_true_fails_open() {
    let mut middleware = failing(true);

    let response = middleware.check(&info());
    assert!(
        response.is_allowed(),
        "skip_on_error(true) must allow on store error"
    );
}

#[test]
fn test_skip_on_error_count_increments_on_backend_error() {
    let mut middleware = failing(true);

    assert_eq!(middleware.skip_on_error_count(), 0);

    let response = middleware.check(&info());
    assert!(response.is_allowed());
    assert_eq!(
        middleware.skip_on_error_count(),
        1,
        "a fail-open bypass must be counted"
    );

    // A second backend error increments the counter again.
    middleware.check(&info());
    assert_eq!(middleware.skip_on_error_count(), 2);
}

#[test]
fn errors_of_the_store_are_passed_on() {
    for algorithm in [
        Algorithm::token_bucket_default(),
        Algorithm::sliding_window_default(),
        Algorithm::fixed_window_default(),
    ] {
        let mut limiter =
            RateLimiter::<ErrorStore, Floats>::new(ErrorStore, algorithm, RateLimitConfig::default());
        assert!(matches!(
            limiter.check("k"),
            Err(RateLimitError::StoreError(reason)) if reason == "store down"
        ));
        assert!(limiter.reset("k").is_ok());
    }
    assert!(ErrorStore.cleanup().is_ok());
}

#[test]
fn test_response_methods() {
    let allowed = RateLimitCheckResponse::Allowed { headers: None };
    assert!(allowed.is_allowed());
    assert!(!allowed.is_limited());
    assert!(allowed.message().is_none());
    assert!(allowed.retry_after().is_none());

    let limited = RateLimitCheckResponse::Limited {
        headers: None,
        message: "Too many requests".to_string(),
        retry_after: Some(60),
    };
    assert!(!limited.is_allowed());
    assert!(limited.is_limited());
    assert_eq!(limited.message(), Some("Too many requests"));
    assert_eq!(limited.retry_after(), Some(60));
}

#[test]
fn denied_requests_are_told_about_the_limit() {
    let limiter = build(RateLimiterBuilder::new().sliding_window(1, Duration::from_secs(60)));
    let mut middleware = RateLimitMiddleware::new(limiter);
    let allowed = middleware.check(&info());
    let headers = allowed.headers().unwrap();
    assert_eq!((headers.limit, headers.remaining, headers.retry_after), (1, 0, None));
    let denied = middleware.check(&info());
    let headers = denied.headers().unwrap();
    assert_eq!((headers.limit, headers.remaining, headers.retry_after), (1, 0, Some(60)));
    assert_eq!(denied.retry_after(), Some(60));
    assert_eq!(denied.message(), Some("Rate limit exceeded"));
    assert_eq!(middleware.limiter().algorithm().limit(), 1);
}

#[test]
fn headers_can_be_left_out() {
    let limiter = build(RateLimiterBuilder::new().sliding_window(1, Duration::from_secs(60)));
    let mut middleware = RateLimitMiddleware::new(limiter).with_headers(false);
    assert!(middleware.check(&info()).headers().is_none());
    let denied = middleware.check(&info());
    assert!(denied.headers().is_none());
    assert_eq!(denied.retry_after(), Some(60));
}

fn pair(name: &str, value: &str) -> (String, String) {
    (name.to_string(), value.to_string())
}

#[test]
fn replies_are_json() {
    let response = RateLimitCheckResponse::Limited {
        headers: Some(RateLimitHeaders::denied(5, 99, 7)),
        message: "say \"no\"\\\n\t\u{1}\u{1f}\u{7f}\u{e4}/".to_string(),
        retry_after: Some(7),
    };
    match handle_response(&response) {
        Handling::Reply { status, body, headers } => {
            assert_eq!(status, 429);
            assert_eq!(
                body,
                "{\"error\":\"Too Many Requests\",\"message\":\"say \\\"no\\\"\\\\\\n\\t\\u0001\\u001f\u{7f}\u{e4}/\"}"
            );
            assert_eq!(
                headers,
                vec![
                    pair("Content-Type", "application/json"),
                    pair("Retry-After", "7"),
                    pair("X-RateLimit-Limit", "5"),
                    pair("X-RateLimit-Remaining", "0"),
                    pair("X-RateLimit-Reset", "99"),
                ]
            );
        }
        Handling::Forward { .. } => panic!("a denied request is replied to"),
    }
}

#[test]
fn replies_without_headers() {
    let response = RateLimitCheckResponse::Limited {
        headers: None,
        message: "\u{8}\u{c}\r".to_string(),
        retry_after: None,
    };
    match handle_response(&response) {
        Handling::Reply { body, headers, .. } => {
            assert_eq!(
                body,
                "{\"error\":\"Too Many Requests\",\"message\":\"\\b\\f\\r\"}"
            );
            assert_eq!(headers, vec![pair("Content-Type", "application/json")]);
        }
        Handling::Forward { .. } => panic!("a denied request is replied to"),
    }
}

#[test]
fn allowed_requests_are_handed_on() {
    let response = RateLimitCheckResponse::Allowed {
        headers: Some(RateLimitHeaders::allowed(5, 4, 99)),
    };
    match handle_response(&response) {
        Handling::Forward { headers } => assert_eq!(
            headers,
            vec![
                pair("X-RateLimit-Limit", "5"),
                pair("X-RateLimit-Remaining", "4"),
                pair("X-RateLimit-Reset", "99"),
            ]
        ),
        Handling::Reply { .. } => panic!("an allowed request is handed on"),
    }
    match handle_response(&RateLimitCheckResponse::Allowed { headers: None }) {
        Handling::Forward { headers } => assert!(headers.is_empty()),
        Handling::Reply { .. } => panic!("an allowed request is handed on"),
    }
    assert_eq!(UnkeyedRequestPolicy::default(), UnkeyedRequestPolicy::Allow);
}
