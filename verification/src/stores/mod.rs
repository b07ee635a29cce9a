//! Stores: where the state of each key is kept.

pub mod laws;
pub mod memory;
pub mod redis;
pub mod redis_laws;

pub use memory::MemoryStore;
pub use redis::RedisStore;

use crate::error::RateLimitResult;
use crate::tokens::RefillRate;
use std::time::Duration;
use vstd::prelude::*;

verus! {

/// Which store keeps the state of the keys.
#[derive(Clone, Copy, PartialEq, Eq, Structural, Debug)]
pub enum StoreType {
    /// A store in memory, for a single instance.
    Memory,
    /// A Redis store, shared between instances.
    Redis,
}

impl Default for StoreType {
    fn default() -> (store_type: StoreType)
        ensures
            store_type == StoreType::Memory,
    {
        StoreType::Memory
    }
}

/// What a store offers.
///
/// The spec functions say what the operations of an implementation can do to the store and return.
/// Unless an implementation says more, that is anything.
pub trait RateLimitStore: Sized {
    /// Whether [`Self::token_bucket_check`] can turn `before` into `after` and return `outcome`.
    open spec fn bucket_checks(
        before: Self,
        after: Self,
        key: Seq<char>,
        capacity: u64,
        refill_rate: RefillRate,
        outcome: RateLimitResult<(bool, u64)>,
    ) -> bool {
        true
    }

    /// Whether [`Self::sliding_window_check`] can turn `before` into `after` and return `outcome`.
    open spec fn log_checks(
        before: Self,
        after: Self,
        key: Seq<char>,
        max_requests: u64,
        window: Duration,
        outcome: RateLimitResult<(bool, u64)>,
    ) -> bool {
        true
    }

    /// Whether [`Self::fixed_window_check`] can turn `before` into `after` and return `outcome`.
    open spec fn window_checks(
        before: Self,
        after: Self,
        key: Seq<char>,
        max_requests: u64,
        window: Duration,
        outcome: RateLimitResult<(bool, u64)>,
    ) -> bool {
        true
    }

    /// Whether [`Self::fixed_window_check_until`] can turn `before` into `after` and return
    /// `outcome`.
    open spec fn window_checks_until(
        before: Self,
        after: Self,
        key: Seq<char>,
        max_requests: u64,
        window: Duration,
        outcome: RateLimitResult<((bool, u64), Option<Duration>)>,
    ) -> bool {
        true
    }

    /// Whether [`Self::reset`] can turn `before` into `after` and return `outcome`.
    open spec fn resets(
        before: Self,
        after: Self,
        key: Seq<char>,
        outcome: RateLimitResult<()>,
    ) -> bool {
        true
    }

    /// Asks for a request under the token bucket algorithm: whether it is allowed, and how many
    /// whole tokens remain.
    fn token_bucket_check(&mut self, key: &str, capacity: u64, refill_rate: RefillRate) -> (outcome:
        RateLimitResult<(bool, u64)>)
        ensures
            Self::bucket_checks(*old(self), *final(self), key@, capacity, refill_rate, outcome),
    ;

    /// Asks for a request under the sliding window log algorithm: whether it is allowed, and how
    /// many requests remain.
    fn sliding_window_check(&mut self, key: &str, max_requests: u64, window: Duration) -> (outcome:
        RateLimitResult<(bool, u64)>)
        ensures
            Self::log_checks(*old(self), *final(self), key@, max_requests, window, outcome),
    ;

    /// Asks for a request under the fixed window algorithm: whether it is allowed, and how many
    /// requests remain.
    fn fixed_window_check(&mut self, key: &str, max_requests: u64, window: Duration) -> (outcome:
        RateLimitResult<(bool, u64)>)
        ensures
            Self::window_checks(*old(self), *final(self), key@, max_requests, window, outcome),
    ;

    /// As [`Self::fixed_window_check`], with how long it takes until the key's window is over. A
    /// store tells nothing of that where its windows follow one another from the Unix epoch on.
    fn fixed_window_check_until(
        &mut self,
        key: &str,
        max_requests: u64,
        window: Duration,
    ) -> (outcome: RateLimitResult<((bool, u64), Option<Duration>)>)
        ensures
            Self::window_checks_until(
                *old(self),
                *final(self),
                key@,
                max_requests,
                window,
                outcome,
            ),
    ;

    /// Forgets what the key has used up.
    fn reset(&mut self, key: &str) -> (outcome: RateLimitResult<()>)
        ensures
            Self::resets(*old(self), *final(self), key@, outcome),
    ;

    /// How many more requests the key would be allowed, as far as the store knows. A store may
    /// leave out the tokens that were added to a bucket since the key last asked.
    fn remaining(&mut self, key: &str) -> RateLimitResult<u64>;

    /// Forgets what is no longer needed. A store that forgets by itself has nothing to do.
    fn cleanup(&mut self) -> (outcome: RateLimitResult<()>)
        default_ensures
            *final(self) == *old(self),
            outcome == Ok::<(), crate::error::RateLimitError>(()),
    {
        Ok(())
    }

    /// The name of the store.
    fn store_type(&self) -> &'static str;
}

} // verus!
