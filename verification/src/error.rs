//! Errors, and the headers that tell a client about its limit.

use crate::text::{decimal, decimal_text};
use crate::time::{debug_text, duration_nanos, duration_text, NANOS_PER_SEC};
use std::time::Duration;
use vstd::prelude::*;
use vstd::string::*;

verus! {

/// What rate limiting operations return.
pub type RateLimitResult<T> = Result<T, RateLimitError>;

/// What can go wrong with rate limiting.
#[derive(Debug)]
#[non_exhaustive]
pub enum RateLimitError {
    /// The limit is exceeded.
    LimitExceeded {
        /// How many requests remain: none.
        remaining: u64,
        /// The limit.
        limit: u64,
        /// When the limit resets, in seconds since the Unix epoch.
        reset_at: u64,
        /// How long to wait before trying again.
        retry_after: Duration,
    },
    /// The store failed.
    StoreError(String),
    /// An operation of the store took longer than its timeout.
    Timeout,
    /// The configuration is not usable.
    ConfigError(String),
    /// No key could be extracted.
    KeyExtractionError(String),
    /// The algorithm is not usable.
    InvalidAlgorithm(String),
    /// The Redis server or the connection to it failed.
    RedisError(String),
}

impl RateLimitError {
    /// What the error says of itself.
    pub open spec fn told(self) -> Seq<char> {
        match self {
            RateLimitError::LimitExceeded { retry_after, .. } => "Rate limit exceeded. Retry after "@
                + duration_text(duration_nanos(retry_after)),
            RateLimitError::StoreError(reason) => "Rate limit store error: "@ + reason@,
            RateLimitError::Timeout => "Rate limit store operation timed out"@,
            RateLimitError::ConfigError(reason) => "Rate limit configuration error: "@ + reason@,
            RateLimitError::KeyExtractionError(reason) => "Failed to extract rate limit key: "@
                + reason@,
            RateLimitError::InvalidAlgorithm(reason) => "Invalid algorithm configuration: "@
                + reason@,
            RateLimitError::RedisError(reason) => "Redis error: "@ + reason@,
        }
    }

    /// A failure of the store.
    pub fn store(msg: &str) -> (error: RateLimitError)
        ensures
            error matches RateLimitError::StoreError(reason) && reason@ == msg@,
    {
        RateLimitError::StoreError(msg.to_owned())
    }

    /// A fault of the configuration.
    pub fn config(msg: &str) -> (error: RateLimitError)
        ensures
            error matches RateLimitError::ConfigError(reason) && reason@ == msg@,
    {
        RateLimitError::ConfigError(msg.to_owned())
    }

    /// A key that could not be extracted.
    pub fn key_extraction(msg: &str) -> (error: RateLimitError)
        ensures
            error matches RateLimitError::KeyExtractionError(reason) && reason@ == msg@,
    {
        RateLimitError::KeyExtractionError(msg.to_owned())
    }

    /// A limit that is exceeded.
    pub fn limit_exceeded(limit: u64, reset_at: u64, retry_after: Duration) -> (error:
        RateLimitError)
        ensures
            error == (RateLimitError::LimitExceeded { remaining: 0, limit, reset_at, retry_after }),
    {
        RateLimitError::LimitExceeded { remaining: 0, limit, reset_at, retry_after }
    }

    /// Whether the error is that a limit is exceeded.
    pub fn is_limit_exceeded(&self) -> (exceeded: bool)
        ensures
            exceeded == (*self is LimitExceeded),
    {
        matches!(self, RateLimitError::LimitExceeded { .. })
    }

    /// How long to wait before trying again, where a limit is exceeded.
    pub fn retry_after(&self) -> (span: Option<Duration>)
        ensures
            span == match *self {
                RateLimitError::LimitExceeded { retry_after, .. } => Some(retry_after),
                _ => None,
            },
    {
        match self {
            RateLimitError::LimitExceeded { retry_after, .. } => Some(*retry_after),
            _ => None,
        }
    }

    /// The headers for a response, where a limit is exceeded.
    pub fn headers(&self) -> (headers: Option<RateLimitHeaders>)
        ensures
            headers == match *self {
                RateLimitError::LimitExceeded { remaining, limit, reset_at, retry_after } => Some(
                    RateLimitHeaders {
                        limit,
                        remaining,
                        reset: reset_at,
                        retry_after: Some(
                            (duration_nanos(retry_after) / NANOS_PER_SEC as nat) as u64,
                        ),
                    },
                ),
                _ => None,
            },
    {
        match self {
            RateLimitError::LimitExceeded { remaining, limit, reset_at, retry_after } => Some(
                RateLimitHeaders {
                    limit: *limit,
                    remaining: *remaining,
                    reset: *reset_at,
                    retry_after: Some(retry_after.as_secs()),
                },
            ),
            _ => None,
        }
    }

    /// What the error says of itself, for people to read.
    pub fn message(&self) -> (text: String)
        ensures
            text@ == self.told(),
    {
        match self {
            RateLimitError::LimitExceeded { retry_after, .. } => {
                let mut text = "Rate limit exceeded. Retry after ".to_owned();
                text.append(debug_text(retry_after).as_str());
                text
            },
            RateLimitError::StoreError(reason) => {
                let mut text = "Rate limit store error: ".to_owned();
                text.append(reason.as_str());
                text
            },
            RateLimitError::Timeout => "Rate limit store operation timed out".to_owned(),
            RateLimitError::ConfigError(reason) => {
                let mut text = "Rate limit configuration error: ".to_owned();
                text.append(reason.as_str());
                text
            },
            RateLimitError::KeyExtractionError(reason) => {
                let mut text = "Failed to extract rate limit key: ".to_owned();
                text.append(reason.as_str());
                text
            },
            RateLimitError::InvalidAlgorithm(reason) => {
                let mut text = "Invalid algorithm configuration: ".to_owned();
                text.append(reason.as_str());
                text
            },
            RateLimitError::RedisError(reason) => {
                let mut text = "Redis error: ".to_owned();
                text.append(reason.as_str());
                text
            },
        }
    }
}

/// The headers that tell a client about its limit.
#[derive(Clone, Copy, PartialEq, Eq, Structural, Debug)]
pub struct RateLimitHeaders {
    /// `X-RateLimit-Limit`: how many requests are allowed.
    pub limit: u64,
    /// `X-RateLimit-Remaining`: how many requests remain in the current window.
    pub remaining: u64,
    /// `X-RateLimit-Reset`: when the limit resets, in seconds since the Unix epoch.
    pub reset: u64,
    /// `Retry-After`: how many seconds to wait before trying again, where a request was denied.
    pub retry_after: Option<u64>,
}

/// The views of a list of header names and values.
pub open spec fn header_texts(pairs: Seq<(&'static str, String)>) -> Seq<(Seq<char>, Seq<char>)> {
    pairs.map_values(|pair: (&'static str, String)| (pair.0@, pair.1@))
}

impl RateLimitHeaders {
    /// The headers by name and value.
    pub open spec fn pairs(self) -> Seq<(Seq<char>, Seq<char>)> {
        let base = seq![
            ("X-RateLimit-Limit"@, decimal(self.limit as nat)),
            ("X-RateLimit-Remaining"@, decimal(self.remaining as nat)),
            ("X-RateLimit-Reset"@, decimal(self.reset as nat)),
        ];
        match self.retry_after {
            Some(retry) => base.push(("Retry-After"@, decimal(retry as nat))),
            None => base,
        }
    }

    /// The headers for an allowed request.
    pub fn allowed(limit: u64, remaining: u64, reset: u64) -> (headers: RateLimitHeaders)
        ensures
            headers == (RateLimitHeaders { limit, remaining, reset, retry_after: None }),
    {
        RateLimitHeaders { limit, remaining, reset, retry_after: None }
    }

    /// The headers for a denied request.
    pub fn denied(limit: u64, reset: u64, retry_after: u64) -> (headers: RateLimitHeaders)
        ensures
            headers == (RateLimitHeaders {
                limit,
                remaining: 0,
                reset,
                retry_after: Some(retry_after),
            }),
    {
        RateLimitHeaders { limit, remaining: 0, reset, retry_after: Some(retry_after) }
    }

    /// The headers by name and value.
    pub fn to_header_pairs(&self) -> (pairs: Vec<(&'static str, String)>)
        ensures
            header_texts(pairs@) == self.pairs(),
    {
        let mut pairs: Vec<(&'static str, String)> = Vec::new();
        pairs.push(("X-RateLimit-Limit", decimal_text(self.limit)));
        pairs.push(("X-RateLimit-Remaining", decimal_text(self.remaining)));
        pairs.push(("X-RateLimit-Reset", decimal_text(self.reset)));
        if let Some(retry) = self.retry_after {
            pairs.push(("Retry-After", decimal_text(retry)));
        }
        assert(header_texts(pairs@) =~= self.pairs());
        pairs
    }
}

} // verus!
