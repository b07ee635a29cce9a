//! Rate limiting algorithms.

pub mod fixed_window;
pub mod laws;
pub mod rates;
pub mod runs;
pub mod sliding_window;
pub mod token_bucket;

pub use fixed_window::FixedWindow;
pub use sliding_window::SlidingWindowLog;
pub use token_bucket::TokenBucket;

use crate::table::{
    count_keys, evict_oldest_batch, has_key, held, stamp, without_oldest, Age, KeyState, KeyView,
    TableView,
};
use crate::text::{decimal, decimal_text};
use crate::time::{debug_text, duration_nanos, duration_text, NANOS_PER_SEC};
use crate::tokens::{RefillRate, TokenArithmetic, TEN_BITS};
use dashmap::DashMap;
use std::time::Duration;
use vstd::prelude::*;
use vstd::string::*;

verus! {

/// The fraction of the key cap that one eviction reclaims is one over this number.
pub const EVICTION_BATCH_DIVISOR: usize = 64;

/// How many keys a limiter retains unless it is told otherwise.
pub const DEFAULT_MAX_KEYS: usize = 100_000;

/// How many keys one eviction reclaims under the given cap.
pub open spec fn batch_size(max_keys: nat) -> nat {
    if max_keys < EVICTION_BATCH_DIVISOR {
        1
    } else {
        max_keys / EVICTION_BATCH_DIVISOR as nat
    }
}

/// How many keys one eviction reclaims under the given cap.
pub fn eviction_batch_size(max_keys: usize) -> (batch: usize)
    ensures
        batch == batch_size(max_keys as nat),
{
    let share: usize = max_keys / EVICTION_BATCH_DIVISOR;
    if share < 1 {
        1
    } else {
        share
    }
}

/// Whether `after` is `before` with the key's state replaced and, where a new key would have
/// exceeded the cap, without a batch of the oldest keys.
pub open spec fn admitted(
    before: TableView,
    after: TableView,
    key: Seq<char>,
    state: KeyView,
    max_keys: nat,
    by: Age,
) -> bool {
    &&& after.dom().finite()
    &&& after.contains_key(key)
    &&& after[key] == state
    &&& if before.contains_key(key) || before.len() < max_keys {
        after.remove(key) == before.remove(key)
    } else {
        without_oldest(before, after.remove(key), by, batch_size(max_keys))
    }
}

/// The table before a state is stored under the key: as it was, or without a batch of the oldest
/// keys where a new key would exceed the cap.
pub open spec fn room_made(
    before: TableView,
    after: TableView,
    key: Seq<char>,
    max_keys: nat,
    by: Age,
) -> bool {
    &&& after.dom().finite()
    &&& if before.contains_key(key) || before.len() < max_keys {
        after == before
    } else {
        without_oldest(before, after, by, batch_size(max_keys))
    }
}

/// Makes room for the key, if it is new and the map is full.
pub(crate) fn make_room(
    map: &mut DashMap<String, KeyState>,
    key: &str,
    max_keys: usize,
    by: Age,
)
    ensures
        room_made(held(*old(map)), held(*final(map)), key@, max_keys as nat, by),
{
    let len: usize = count_keys(map);
    if !has_key(map, key) && len >= max_keys {
        evict_oldest_batch(map, eviction_batch_size(max_keys), by);
    }
}

/// Storing a state after room was made admits the key.
pub(crate) proof fn lemma_admitted(
    before: TableView,
    room: TableView,
    key: Seq<char>,
    state: KeyView,
    max_keys: nat,
    by: Age,
)
    requires
        room_made(before, room, key, max_keys, by),
    ensures
        admitted(before, room.insert(key, state), key, state, max_keys, by),
        room.contains_key(key) == before.contains_key(key),
        before.contains_key(key) ==> room[key] == before[key],
{
    let after = room.insert(key, state);
    assert(after.remove(key) =~= room.remove(key));
    if !(before.contains_key(key) || before.len() < max_keys) {
        assert(!room.contains_key(key)) by {
            if room.contains_key(key) {
                assert(before.dom().contains(key));
            }
        }
        assert(room.remove(key) =~= room);
    }
}

/// The number of retained keys never grows past the cap, nor past what it was where it was above
/// the cap already.
pub proof fn law_keys_stay_capped(
    before: TableView,
    after: TableView,
    key: Seq<char>,
    state: KeyView,
    max_keys: nat,
    by: Age,
)
    requires
        before.dom().finite(),
        max_keys >= 1,
        admitted(before, after, key, state, max_keys, by),
    ensures
        after.dom().finite(),
        after.len() <= if before.len() > max_keys {
            before.len()
        } else {
            max_keys
        },
{
    let others = after.remove(key);
    assert(after.len() == others.len() + 1);
    if before.contains_key(key) {
        assert(before.remove(key).len() == before.len() - 1);
    } else if before.len() < max_keys {
        assert(before.remove(key) =~= before);
    }
}

/// A key that is younger than a key that an eviction kept is kept too.
pub proof fn law_recent_keys_survive(
    before: TableView,
    after: TableView,
    key: Seq<char>,
    state: KeyView,
    max_keys: nat,
    by: Age,
    kept: Seq<char>,
    other: Seq<char>,
)
    requires
        admitted(before, after, key, state, max_keys, by),
        kept != key,
        other != key,
        after.contains_key(kept),
        before.contains_key(other),
        stamp(before[other], by) is Some,
        stamp(before[kept], by) is Some ==> stamp(before[other], by)->0 > stamp(
            before[kept],
            by,
        )->0,
    ensures
        after.contains_key(other),
        after[other] == before[other],
{
    let others = after.remove(key);
    assert(others.contains_key(kept));
    if before.contains_key(key) || before.len() < max_keys {
        assert(before.remove(key).contains_key(other));
        assert(others.contains_key(other) && others[other] == before.remove(key)[other]);
    } else {
        if !others.contains_key(other) {
            assert(before.contains_key(other) && others.contains_key(kept));
        }
    }
}

/// A request of one key leaves what is remembered of another key as it was, unless the other key is
/// evicted to make room; and it does not bring other keys in.
pub proof fn law_other_keys_are_untouched(
    before: TableView,
    after: TableView,
    key: Seq<char>,
    state: KeyView,
    max_keys: nat,
    by: Age,
    other: Seq<char>,
)
    requires
        admitted(before, after, key, state, max_keys, by),
        other != key,
    ensures
        after.contains_key(other) ==> before.contains_key(other) && after[other] == before[other],
        before.contains_key(key) || before.len() < max_keys ==> after.contains_key(other)
            == before.contains_key(other),
{
    let others = after.remove(key);
    assert(others.contains_key(other) == after.contains_key(other));
    if before.contains_key(key) || before.len() < max_keys {
        assert(before.remove(key).contains_key(other) == before.contains_key(other));
        if before.contains_key(other) {
            assert(before.remove(key)[other] == before[other]);
            assert(others[other] == after[other]);
        }
    } else if others.contains_key(other) {
        assert(before.dom().contains(other)) by {
            assert(others.dom().contains(other));
        }
    }
}

/// An algorithm with its parameters.
#[derive(Clone, Copy, Debug)]
pub enum Algorithm {
    /// Tokens are added at a fixed rate and consumed by requests, with bursts up to the capacity.
    TokenBucket {
        /// The largest number of tokens.
        capacity: u64,
        /// Tokens added per second.
        refill_rate: RefillRate,
    },
    /// The time of each request in a sliding window is logged.
    SlidingWindowLog {
        /// The largest number of requests in a window.
        max_requests: u64,
        /// How long the window is.
        window: Duration,
    },
    /// Requests are counted per fixed window.
    FixedWindow {
        /// The largest number of requests in a window.
        max_requests: u64,
        /// How long a window is.
        window: Duration,
    },
}

impl Algorithm {
    /// How many requests a client can make at once, at most.
    pub open spec fn most(self) -> u64 {
        match self {
            Algorithm::TokenBucket { capacity, .. } => capacity,
            Algorithm::SlidingWindowLog { max_requests, .. } => max_requests,
            Algorithm::FixedWindow { max_requests, .. } => max_requests,
        }
    }

    /// Whether the text describes the algorithm. How the refill rate is rendered is up to the
    /// arithmetic.
    pub open spec fn described<A: TokenArithmetic>(self, text: Seq<char>) -> bool {
        match self {
            Algorithm::TokenBucket { capacity, refill_rate } => exists|rate: String| #[trigger]
                call_ensures(A::rate_text, (refill_rate,), rate) && text == "Token bucket: "@
                    + decimal(capacity as nat) + " capacity, "@ + rate@ + " tokens/sec refill"@,
            Algorithm::SlidingWindowLog { max_requests, window } => text == "Sliding window: "@
                + decimal(max_requests as nat) + " requests per "@ + duration_text(
                duration_nanos(window),
            ),
            Algorithm::FixedWindow { max_requests, window } => text == "Fixed window: "@ + decimal(
                max_requests as nat,
            ) + " requests per "@ + duration_text(duration_nanos(window)),
        }
    }

    /// A bucket of a hundred tokens, refilled with ten per second.
    pub fn token_bucket_default() -> (algorithm: Algorithm)
        ensures
            algorithm == (Algorithm::TokenBucket {
                capacity: 100,
                refill_rate: RefillRate { bits: TEN_BITS },
            }),
    {
        Algorithm::TokenBucket { capacity: 100, refill_rate: RefillRate::from_bits(TEN_BITS) }
    }

    /// A hundred requests in any minute.
    pub fn sliding_window_default() -> (algorithm: Algorithm)
        ensures
            algorithm matches Algorithm::SlidingWindowLog { max_requests, window }
                && max_requests == 100 && duration_nanos(window) == 60 * NANOS_PER_SEC,
    {
        Algorithm::SlidingWindowLog { max_requests: 100, window: Duration::from_secs(60) }
    }

    /// A hundred requests per minute.
    pub fn fixed_window_default() -> (algorithm: Algorithm)
        ensures
            algorithm matches Algorithm::FixedWindow { max_requests, window } && max_requests == 100
                && duration_nanos(window) == 60 * NANOS_PER_SEC,
    {
        Algorithm::FixedWindow { max_requests: 100, window: Duration::from_secs(60) }
    }

    /// The capacity of the bucket, or the limit of a window.
    pub fn limit(&self) -> (limit: u64)
        ensures
            limit == self.most(),
    {
        match self {
            Algorithm::TokenBucket { capacity, .. } => *capacity,
            Algorithm::SlidingWindowLog { max_requests, .. } => *max_requests,
            Algorithm::FixedWindow { max_requests, .. } => *max_requests,
        }
    }

    /// The algorithm and its parameters, for people to read.
    pub fn description<A: TokenArithmetic>(&self) -> (text: String)
        ensures
            self.described::<A>(text@),
    {
        match self {
            Algorithm::TokenBucket { capacity, refill_rate } => {
                let rate = A::rate_text(*refill_rate);
                let mut text = "Token bucket: ".to_owned();
                text.append(decimal_text(*capacity).as_str());
                text.append(" capacity, ");
                text.append(rate.as_str());
                text.append(" tokens/sec refill");
                assert(call_ensures(A::rate_text, (*refill_rate,), rate));
                text
            },
            Algorithm::SlidingWindowLog { max_requests, window } => {
                let mut text = "Sliding window: ".to_owned();
                text.append(decimal_text(*max_requests).as_str());
                text.append(" requests per ");
                text.append(debug_text(window).as_str());
                text
            },
            Algorithm::FixedWindow { max_requests, window } => {
                let mut text = "Fixed window: ".to_owned();
                text.append(decimal_text(*max_requests).as_str());
                text.append(" requests per ");
                text.append(debug_text(window).as_str());
                text
            },
        }
    }
}

/// What a rate limiting algorithm offers. Requests are told apart by their keys.
pub trait RateLimitAlgorithm {
    /// Asks for a request: whether it is allowed, and how many more would be.
    fn check(&mut self, key: &str) -> (bool, u64);

    /// Forgets what the key has used up.
    fn reset(&mut self, key: &str);

    /// How many more requests the key would be allowed now.
    fn remaining(&mut self, key: &str) -> u64;
}

} // verus!
