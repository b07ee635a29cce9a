//! Configuration, and the builder that checks it.

use crate::algorithms::Algorithm;
use crate::error::{RateLimitError, RateLimitResult};
use crate::limiter::RateLimiter;
use crate::stores::memory::fresh_store;
use crate::stores::redis::RedisView;
use crate::stores::{MemoryStore, RedisStore, StoreType};
use crate::text::{add_texts, copy_optional, copy_texts, has_text, optional_text, str_texts, texts};
use crate::time::{clock_started, duration_nanos, NANOS_PER_SEC};
use crate::tokens::{RefillRate, TokenArithmetic, TEN_BITS};
use std::time::Duration;
use vstd::prelude::*;

verus! {

/// What is wrong with the parameters of an algorithm, if anything.
pub open spec fn fault(algorithm: Algorithm) -> Option<Seq<char>> {
    match algorithm {
        Algorithm::TokenBucket { capacity, refill_rate } => if capacity == 0 {
            Some("TokenBucket capacity must be > 0"@)
        } else if !refill_rate.usable() {
            Some("TokenBucket refill_rate must be finite and > 0"@)
        } else {
            None
        },
        Algorithm::SlidingWindowLog { max_requests, window }
        | Algorithm::FixedWindow { max_requests, window } => if max_requests == 0 {
            Some("max_requests must be > 0"@)
        } else if duration_nanos(window) == 0 {
            Some("window must be > 0"@)
        } else {
            None
        },
    }
}

/// Whether an outcome is that the configuration was refused, for the given reason.
pub open spec fn refused<T>(outcome: RateLimitResult<T>, reason: Seq<char>) -> bool {
    outcome matches Err(RateLimitError::ConfigError(told)) && told@ == reason
}

/// Checks the parameters of an algorithm.
pub fn validate_algorithm(algorithm: &Algorithm) -> (outcome: RateLimitResult<()>)
    ensures
        match fault(*algorithm) {
            Some(reason) => refused(outcome, reason),
            None => outcome is Ok,
        },
{
    match algorithm {
        Algorithm::TokenBucket { capacity, refill_rate } => {
            if *capacity == 0 {
                return Err(RateLimitError::config("TokenBucket capacity must be > 0"));
            }
            if !refill_rate.is_usable() {
                return Err(
                    RateLimitError::config("TokenBucket refill_rate must be finite and > 0"),
                );
            }
        },
        Algorithm::SlidingWindowLog { max_requests, window }
        | Algorithm::FixedWindow { max_requests, window } => {
            if *max_requests == 0 {
                return Err(RateLimitError::config("max_requests must be > 0"));
            }
            if window.is_zero() {
                return Err(RateLimitError::config("window must be > 0"));
            }
        },
    }
    Ok(())
}

/// The configuration of a rate limiter.
#[derive(Debug)]
#[non_exhaustive]
pub struct RateLimitConfig {
    /// The algorithm.
    pub algorithm: Algorithm,
    /// The store.
    pub store_type: StoreType,
    /// What the keys of a shared store start with.
    pub key_prefix: String,
    /// Whether responses carry headers about the limit.
    pub include_headers: bool,
    /// Whether requests are let through where the store fails. This is the default: it favours
    /// availability. Where rate limiting is a control against abuse, `false` is the better choice.
    pub skip_on_error: bool,
    /// What a client that is denied is told.
    pub error_message: Option<String>,
    /// Keys that are never limited.
    pub bypass_keys: Vec<String>,
    /// How long an operation of a shared store may take.
    pub operation_timeout: Duration,
    /// How many reverse proxies in front of the application are trusted. The address of the client
    /// is read so many hops from the right of `X-Forwarded-For`; with none, the header is ignored,
    /// since clients can write it themselves.
    pub trusted_proxy_depth: usize,
}

/// The mathematical view of a [`RateLimitConfig`].
#[verifier::ext_equal]
pub struct ConfigView {
    /// See [`RateLimitConfig::algorithm`].
    pub algorithm: Algorithm,
    /// See [`RateLimitConfig::store_type`].
    pub store_type: StoreType,
    /// See [`RateLimitConfig::key_prefix`].
    pub key_prefix: Seq<char>,
    /// See [`RateLimitConfig::include_headers`].
    pub include_headers: bool,
    /// See [`RateLimitConfig::skip_on_error`].
    pub skip_on_error: bool,
    /// See [`RateLimitConfig::error_message`].
    pub error_message: Option<Seq<char>>,
    /// See [`RateLimitConfig::bypass_keys`].
    pub bypass_keys: Seq<Seq<char>>,
    /// See [`RateLimitConfig::operation_timeout`]; in nanoseconds.
    pub operation_timeout: nat,
    /// See [`RateLimitConfig::trusted_proxy_depth`].
    pub trusted_proxy_depth: usize,
}

impl View for RateLimitConfig {
    type V = ConfigView;

    open spec fn view(&self) -> ConfigView {
        ConfigView {
            algorithm: self.algorithm,
            store_type: self.store_type,
            key_prefix: self.key_prefix@,
            include_headers: self.include_headers,
            skip_on_error: self.skip_on_error,
            error_message: optional_text(self.error_message),
            bypass_keys: texts(self.bypass_keys@),
            operation_timeout: duration_nanos(self.operation_timeout),
            trusted_proxy_depth: self.trusted_proxy_depth,
        }
    }
}

/// A configuration with the given algorithm, and defaults for everything else.
pub open spec fn default_config(algorithm: Algorithm) -> ConfigView {
    ConfigView {
        algorithm,
        store_type: StoreType::Memory,
        key_prefix: "ratelimit"@,
        include_headers: true,
        skip_on_error: true,
        error_message: None,
        bypass_keys: Seq::empty(),
        operation_timeout: (3 * NANOS_PER_SEC) as nat,
        trusted_proxy_depth: 0,
    }
}

impl Clone for RateLimitConfig {
    fn clone(&self) -> (config: RateLimitConfig)
        ensures
            config@ == self@,
    {
        RateLimitConfig {
            algorithm: self.algorithm,
            store_type: self.store_type,
            key_prefix: self.key_prefix.clone(),
            include_headers: self.include_headers,
            skip_on_error: self.skip_on_error,
            error_message: copy_optional(&self.error_message),
            bypass_keys: copy_texts(&self.bypass_keys),
            operation_timeout: self.operation_timeout,
            trusted_proxy_depth: self.trusted_proxy_depth,
        }
    }
}

impl Default for RateLimitConfig {
    fn default() -> (config: RateLimitConfig)
        ensures
            config@ == default_config(
                Algorithm::TokenBucket {
                    capacity: 100,
                    refill_rate: RefillRate { bits: TEN_BITS },
                },
            ),
    {
        let config = RateLimitConfig {
            algorithm: Algorithm::token_bucket_default(),
            store_type: StoreType::Memory,
            key_prefix: "ratelimit".to_owned(),
            include_headers: true,
            skip_on_error: true,
            error_message: None,
            bypass_keys: Vec::new(),
            operation_timeout: Duration::from_secs(3),
            trusted_proxy_depth: 0,
        };
        assert(config@.bypass_keys =~= Seq::empty());
        config
    }
}

impl RateLimitConfig {
    /// A builder with defaults for everything but the algorithm.
    pub fn builder() -> (builder: RateLimiterBuilder)
        ensures
            builder@ == default_builder(),
    {
        RateLimiterBuilder::new()
    }

    /// Whether the key is never limited.
    pub fn should_bypass(&self, key: &str) -> (bypass: bool)
        ensures
            bypass == self@.bypass_keys.contains(key@),
    {
        has_text(&self.bypass_keys, key)
    }
}

/// Builds a rate limiter.
pub struct RateLimiterBuilder {
    algorithm: Option<Algorithm>,
    store_type: StoreType,
    key_prefix: String,
    include_headers: bool,
    skip_on_error: bool,
    error_message: Option<String>,
    bypass_keys: Vec<String>,
    operation_timeout: Duration,
    trusted_proxy_depth: usize,
    redis_url: Option<String>,
}

/// A builder, as contracts speak of it.
#[verifier::ext_equal]
pub struct BuilderView {
    /// The algorithm, once it is set.
    pub algorithm: Option<Algorithm>,
    /// The store.
    pub store_type: StoreType,
    /// See [`RateLimitConfig::key_prefix`].
    pub key_prefix: Seq<char>,
    /// See [`RateLimitConfig::include_headers`].
    pub include_headers: bool,
    /// See [`RateLimitConfig::skip_on_error`].
    pub skip_on_error: bool,
    /// See [`RateLimitConfig::error_message`].
    pub error_message: Option<Seq<char>>,
    /// See [`RateLimitConfig::bypass_keys`].
    pub bypass_keys: Seq<Seq<char>>,
    /// See [`RateLimitConfig::operation_timeout`]; in nanoseconds.
    pub operation_timeout: nat,
    /// See [`RateLimitConfig::trusted_proxy_depth`].
    pub trusted_proxy_depth: usize,
    /// Where the Redis server is, once that is set.
    pub redis_url: Option<Seq<char>>,
}

impl View for RateLimiterBuilder {
    type V = BuilderView;

    closed spec fn view(&self) -> BuilderView {
        BuilderView {
            algorithm: self.algorithm,
            store_type: self.store_type,
            key_prefix: self.key_prefix@,
            include_headers: self.include_headers,
            skip_on_error: self.skip_on_error,
            error_message: optional_text(self.error_message),
            bypass_keys: texts(self.bypass_keys@),
            operation_timeout: duration_nanos(self.operation_timeout),
            trusted_proxy_depth: self.trusted_proxy_depth,
            redis_url: optional_text(self.redis_url),
        }
    }
}

/// A builder on which nothing was set.
pub open spec fn default_builder() -> BuilderView {
    BuilderView {
        algorithm: None,
        store_type: StoreType::Memory,
        key_prefix: "ratelimit"@,
        include_headers: true,
        skip_on_error: true,
        error_message: None,
        bypass_keys: Seq::empty(),
        operation_timeout: (3 * NANOS_PER_SEC) as nat,
        trusted_proxy_depth: 0,
        redis_url: None,
    }
}

impl BuilderView {
    /// The configuration that was built up, with the given algorithm.
    pub open spec fn config(self, algorithm: Algorithm) -> ConfigView {
        ConfigView {
            algorithm,
            store_type: self.store_type,
            key_prefix: self.key_prefix,
            include_headers: self.include_headers,
            skip_on_error: self.skip_on_error,
            error_message: self.error_message,
            bypass_keys: self.bypass_keys,
            operation_timeout: self.operation_timeout,
            trusted_proxy_depth: self.trusted_proxy_depth,
        }
    }

    /// Why nothing can be built, if that is so.
    pub open spec fn fault(self) -> Option<Seq<char>> {
        match self.algorithm {
            None => Some("Algorithm must be specified"@),
            Some(algorithm) => if fault(algorithm) is Some {
                fault(algorithm)
            } else if self.store_type == StoreType::Redis && self.redis_url is None {
                Some("Redis URL must be specified for Redis store"@)
            } else {
                None
            },
        }
    }
}

/// Which store to open.
pub enum StorePlan {
    /// A store in memory.
    Memory,
    /// A Redis store.
    Redis(RedisStore),
}

impl RateLimiterBuilder {
    /// A builder with defaults for everything but the algorithm.
    pub fn new() -> (builder: RateLimiterBuilder)
        ensures
            builder@ == default_builder(),
    {
        let builder = RateLimiterBuilder {
            algorithm: None,
            store_type: StoreType::Memory,
            key_prefix: "ratelimit".to_owned(),
            include_headers: true,
            skip_on_error: true,
            error_message: None,
            bypass_keys: Vec::new(),
            operation_timeout: Duration::from_secs(3),
            trusted_proxy_depth: 0,
            redis_url: None,
        };
        assert(builder@.bypass_keys =~= Seq::empty());
        builder
    }

    /// Sets the algorithm.
    pub fn algorithm(self, algorithm: Algorithm) -> (builder: RateLimiterBuilder)
        ensures
            builder@ == (BuilderView { algorithm: Some(algorithm), ..self@ }),
    {
        let mut builder = self;
        builder.algorithm = Some(algorithm);
        builder
    }

    /// Sets the token bucket algorithm.
    pub fn token_bucket(self, capacity: u64, refill_rate: RefillRate) -> (builder:
        RateLimiterBuilder)
        ensures
            builder@ == (BuilderView {
                algorithm: Some(Algorithm::TokenBucket { capacity, refill_rate }),
                ..self@
            }),
    {
        self.algorithm(Algorithm::TokenBucket { capacity, refill_rate })
    }

    /// Sets the sliding window log algorithm.
    pub fn sliding_window(self, max_requests: u64, window: Duration) -> (builder:
        RateLimiterBuilder)
        ensures
            builder@ == (BuilderView {
                algorithm: Some(Algorithm::SlidingWindowLog { max_requests, window }),
                ..self@
            }),
    {
        self.algorithm(Algorithm::SlidingWindowLog { max_requests, window })
    }

    /// Sets the fixed window algorithm.
    pub fn fixed_window(self, max_requests: u64, window: Duration) -> (builder: RateLimiterBuilder)
        ensures
            builder@ == (BuilderView {
                algorithm: Some(Algorithm::FixedWindow { max_requests, window }),
                ..self@
            }),
    {
        self.algorithm(Algorithm::FixedWindow { max_requests, window })
    }

    /// Sets the store in memory.
    pub fn memory_store(self) -> (builder: RateLimiterBuilder)
        ensures
            builder@ == (BuilderView { store_type: StoreType::Memory, ..self@ }),
    {
        let mut builder = self;
        builder.store_type = StoreType::Memory;
        builder
    }

    /// Sets the Redis store on the given server.
    pub fn redis_store(self, url: &str) -> (builder: RateLimiterBuilder)
        ensures
            builder@ == (BuilderView {
                store_type: StoreType::Redis,
                redis_url: Some(url@),
                ..self@
            }),
    {
        let mut builder = self;
        builder.store_type = StoreType::Redis;
        builder.redis_url = Some(url.to_owned());
        builder
    }

    /// Sets what the keys of a shared store start with.
    pub fn key_prefix(self, prefix: &str) -> (builder: RateLimiterBuilder)
        ensures
            builder@ == (BuilderView { key_prefix: prefix@, ..self@ }),
    {
        let mut builder = self;
        builder.key_prefix = prefix.to_owned();
        builder
    }

    /// Sets whether responses carry headers about the limit.
    pub fn include_headers(self, included: bool) -> (builder: RateLimiterBuilder)
        ensures
            builder@ == (BuilderView { include_headers: included, ..self@ }),
    {
        let mut builder = self;
        builder.include_headers = included;
        builder
    }

    /// Sets whether requests are let through where the store fails.
    pub fn skip_on_error(self, skip: bool) -> (builder: RateLimiterBuilder)
        ensures
            builder@ == (BuilderView { skip_on_error: skip, ..self@ }),
    {
        let mut builder = self;
        builder.skip_on_error = skip;
        builder
    }

    /// Sets how long an operation of a shared store may take.
    pub fn operation_timeout(self, timeout: Duration) -> (builder: RateLimiterBuilder)
        ensures
            builder@ == (BuilderView { operation_timeout: duration_nanos(timeout), ..self@ }),
    {
        let mut builder = self;
        builder.operation_timeout = timeout;
        builder
    }

    /// Sets how many reverse proxies in front of the application are trusted.
    pub fn trusted_proxy_depth(self, depth: usize) -> (builder: RateLimiterBuilder)
        ensures
            builder@ == (BuilderView { trusted_proxy_depth: depth, ..self@ }),
    {
        let mut builder = self;
        builder.trusted_proxy_depth = depth;
        builder
    }

    /// Sets what a client that is denied is told.
    pub fn error_message(self, message: &str) -> (builder: RateLimiterBuilder)
        ensures
            builder@ == (BuilderView { error_message: Some(message@), ..self@ }),
    {
        let mut builder = self;
        builder.error_message = Some(message.to_owned());
        builder
    }

    /// Adds a key that is never limited.
    pub fn bypass_key(self, key: &str) -> (builder: RateLimiterBuilder)
        ensures
            builder@ == (BuilderView { bypass_keys: self@.bypass_keys.push(key@), ..self@ }),
    {
        let mut builder = self;
        builder.bypass_keys.push(key.to_owned());
        assert(builder@.bypass_keys =~= self@.bypass_keys.push(key@));
        builder
    }

    /// Adds keys that are never limited.
    pub fn bypass_keys(self, keys: &[&str]) -> (builder: RateLimiterBuilder)
        ensures
            builder@ == (BuilderView {
                bypass_keys: self@.bypass_keys + str_texts(keys@),
                ..self@
            }),
    {
        let mut builder = self;
        add_texts(&mut builder.bypass_keys, keys);
        builder
    }

    /// Checks what was built up: the configuration, and which store to open.
    pub fn plan(self) -> (outcome: RateLimitResult<(RateLimitConfig, StorePlan)>)
        ensures
            match self@.fault() {
                Some(reason) => refused(outcome, reason),
                None => {
                    &&& outcome is Ok
                    &&& outcome->Ok_0.0@ == self@.config(self@.algorithm->0)
                    &&& match outcome->Ok_0.1 {
                        StorePlan::Memory => self@.store_type == StoreType::Memory,
                        StorePlan::Redis(store) => self@.store_type == StoreType::Redis && store@
                            == (RedisView {
                            url: self@.redis_url->0,
                            prefix: self@.key_prefix,
                            operation_timeout: self@.operation_timeout,
                        }),
                    }
                },
            },
    {
        let algorithm = match self.algorithm {
            Some(algorithm) => algorithm,
            None => return Err(RateLimitError::config("Algorithm must be specified")),
        };
        match validate_algorithm(&algorithm) {
            Ok(()) => {},
            Err(error) => return Err(error),
        }
        let store = match self.store_type {
            StoreType::Memory => StorePlan::Memory,
            StoreType::Redis => match &self.redis_url {
                Some(url) => StorePlan::Redis(
                    RedisStore::with_prefix(
                        url.as_str(),
                        self.key_prefix.as_str(),
                    ).with_operation_timeout(self.operation_timeout),
                ),
                None => return Err(
                    RateLimitError::config("Redis URL must be specified for Redis store"),
                ),
            },
        };
        let config = RateLimitConfig {
            algorithm,
            store_type: self.store_type,
            key_prefix: self.key_prefix,
            include_headers: self.include_headers,
            skip_on_error: self.skip_on_error,
            error_message: self.error_message,
            bypass_keys: self.bypass_keys,
            operation_timeout: self.operation_timeout,
            trusted_proxy_depth: self.trusted_proxy_depth,
        };
        Ok((config, store))
    }

    /// Builds a limiter with an empty store in memory. This crate opens no connections, so a
    /// builder that asks for a Redis store is refused here: the caller opens the store that
    /// [`Self::plan`] names.
    pub fn build<A: TokenArithmetic>(self) -> (outcome: RateLimitResult<
        RateLimiter<MemoryStore<A>, A>,
    >)
        ensures
            match self@.fault() {
                Some(reason) => refused(outcome, reason),
                None => if self@.store_type == StoreType::Redis {
                    refused(
                        outcome,
                        "A Redis store needs a connection: open the store that `plan` names."@,
                    )
                } else {
                    &&& outcome is Ok
                    &&& outcome->Ok_0.kept()@ == fresh_store(outcome->Ok_0.kept()@.origin)
                    &&& clock_started(outcome->Ok_0.kept()@.origin)
                    &&& outcome->Ok_0.rule() == self@.algorithm->0
                    &&& outcome->Ok_0.settings() == self@.config(self@.algorithm->0)
                },
            },
    {
        match self.plan() {
            Err(error) => Err(error),
            Ok((config, StorePlan::Memory)) => {
                let algorithm = config.algorithm;
                Ok(RateLimiter::new(MemoryStore::new(), algorithm, config))
            },
            Ok((_, StorePlan::Redis(_))) => Err(
                RateLimitError::config(
                    "A Redis store needs a connection: open the store that `plan` names.",
                ),
            ),
        }
    }
}

impl Default for RateLimiterBuilder {
    fn default() -> (builder: RateLimiterBuilder)
        ensures
            builder@ == default_builder(),
    {
        RateLimiterBuilder::new()
    }
}

} // verus!
