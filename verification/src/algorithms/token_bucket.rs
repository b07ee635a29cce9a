//! The token bucket algorithm.
//!
//! A bucket starts full with as many tokens as its capacity. Each request consumes a token, and
//! tokens are added at a constant rate; where there is no token, the request is denied.

use super::{admitted, lemma_admitted, make_room, RateLimitAlgorithm, DEFAULT_MAX_KEYS};
use crate::table::{
    count_keys, entry_or_insert, get_state, held, look_up, marked_view, new_table, put_state,
    Age, KeyState, KeyView, TableView,
};
use crate::time::{clock_says, clock_started, elapsed_between, elapsed_nanos, read_clock};
use crate::tokens::{
    has_token, holds_token, whole_part, whole_tokens, RefillRate, TokenArithmetic,
};
use dashmap::DashMap;
use std::marker::PhantomData;
use std::time::Instant;
use vstd::prelude::*;

verus! {

/// Whether `met` is the bucket that a request meets: the one found, or a full one from now on.
pub open spec fn bucket_met<A: TokenArithmetic>(
    found: Option<KeyView>,
    capacity: u64,
    now: u128,
    met: KeyView,
) -> bool {
    match found {
        Some(state) => met == state,
        None => call_ensures(A::full, (capacity,), met.level) && met == marked_view(met.level, now),
    }
}

/// Whether a bucket that was refilled to `refilled` is `after`, once a request came to `verdict`:
/// allowed where there is a token, which it consumes, and denied where there is none.
pub open spec fn token_spent<A: TokenArithmetic>(
    refilled: KeyView,
    after: KeyView,
    verdict: (bool, u64),
) -> bool {
    if holds_token(refilled.level) {
        &&& call_ensures(A::one_less, (refilled.level,), after.level)
        &&& after == (KeyView { level: after.level, ..refilled })
        &&& verdict == (true, whole_part(after.level))
    } else {
        after == refilled && verdict == (false, 0u64)
    }
}

/// Whether a bucket `met` is `refilled` once the tokens for the elapsed time were added.
pub open spec fn bucket_refilled<A: TokenArithmetic>(
    met: KeyView,
    capacity: u64,
    rate: RefillRate,
    now: u128,
    refilled: KeyView,
) -> bool {
    &&& call_ensures(
        A::refilled,
        (met.level, capacity, rate, elapsed_nanos(met.at, now)),
        refilled.level,
    )
    &&& refilled == (KeyView { level: refilled.level, at: now, seen: now, ..met })
}

/// Whether a request at `now` that meets the bucket `met` leaves it as `after` and comes to
/// `verdict`.
pub open spec fn bucket_step<A: TokenArithmetic>(
    met: KeyView,
    capacity: u64,
    rate: RefillRate,
    now: u128,
    after: KeyView,
    verdict: (bool, u64),
) -> bool {
    exists|refilled: KeyView|
        #![trigger token_spent::<A>(refilled, after, verdict)]
        bucket_refilled::<A>(met, capacity, rate, now, refilled) && token_spent::<A>(
            refilled,
            after,
            verdict,
        )
}

/// Adds the tokens for the time since the last refill.
pub fn refill<A: TokenArithmetic>(
    state: &mut KeyState,
    capacity: u64,
    rate: RefillRate,
    now: u128,
)
    ensures
        bucket_refilled::<A>(old(state)@, capacity, rate, now, final(state)@),
{
    let elapsed: u128 = elapsed_between(state.at, now);
    state.level = A::refilled(state.level, capacity, rate, elapsed);
    state.at = now;
    state.seen = now;
}

/// Consumes a token, if there is one.
pub fn spend<A: TokenArithmetic>(state: &mut KeyState) -> (verdict: (bool, u64))
    ensures
        token_spent::<A>(old(state)@, final(state)@, verdict),
{
    if has_token(state.level) {
        state.level = A::one_less(state.level);
        (true, whole_tokens(state.level))
    } else {
        (false, 0)
    }
}

/// Adds the tokens for the time since the last refill, then consumes one, if there is one.
pub fn take_token<A: TokenArithmetic>(
    state: &mut KeyState,
    capacity: u64,
    rate: RefillRate,
    now: u128,
) -> (verdict: (bool, u64))
    ensures
        bucket_step::<A>(old(state)@, capacity, rate, now, final(state)@, verdict),
{
    refill::<A>(state, capacity, rate, now);
    spend::<A>(state)
}

/// A token bucket limiter, as contracts speak of it.
#[verifier::ext_equal]
pub struct TokenBucketView {
    /// The largest number of tokens in a bucket.
    pub capacity: u64,
    /// Tokens added per second.
    pub rate: RefillRate,
    /// How many keys are retained.
    pub max_keys: nat,
    /// The buckets by key.
    pub table: TableView,
    /// When the limiter was made, by the monotonic clock.
    pub origin: Instant,
}

/// A token bucket rate limiter.
pub struct TokenBucket<A: TokenArithmetic> {
    capacity: u64,
    refill_rate: RefillRate,
    buckets: DashMap<String, KeyState>,
    max_keys: usize,
    origin: Instant,
    arithmetic: PhantomData<A>,
}

impl<A: TokenArithmetic> View for TokenBucket<A> {
    type V = TokenBucketView;

    closed spec fn view(&self) -> TokenBucketView {
        TokenBucketView {
            capacity: self.capacity,
            rate: self.refill_rate,
            max_keys: self.max_keys as nat,
            table: held(self.buckets),
            origin: self.origin,
        }
    }
}

impl TokenBucketView {
    /// Whether `after` is this limiter once a request of the key at `now` came to `verdict`.
    pub open spec fn acquires<A: TokenArithmetic>(
        self,
        after: TokenBucketView,
        key: Seq<char>,
        now: u128,
        verdict: (bool, u64),
    ) -> bool {
        &&& exists|met: KeyView|
            #![trigger bucket_met::<A>(look_up(self.table, key), self.capacity, now, met)]
            bucket_met::<A>(look_up(self.table, key), self.capacity, now, met) && bucket_step::<A>(
                met,
                self.capacity,
                self.rate,
                now,
                after.table[key],
                verdict,
            )
        &&& after.capacity == self.capacity
        &&& after.rate == self.rate
        &&& after.max_keys == self.max_keys
        &&& after.origin == self.origin
        &&& admitted(
            self.table,
            after.table,
            key,
            after.table[key],
            self.max_keys,
            Age::Mark,
        )
    }

    /// Whether `after` is this limiter once the key got a full bucket at `now`. A new key makes
    /// room as a request does.
    pub open spec fn refills<A: TokenArithmetic>(
        self,
        after: TokenBucketView,
        key: Seq<char>,
        now: u128,
    ) -> bool {
        &&& bucket_met::<A>(None, self.capacity, now, after.table[key])
        &&& after == (TokenBucketView { table: after.table, ..self })
        &&& admitted(
            self.table,
            after.table,
            key,
            after.table[key],
            self.max_keys,
            Age::Mark,
        )
    }

    /// Whether the key has `left` whole tokens at `now`, with those that were added since it last
    /// asked; a key that never asked has a full bucket.
    pub open spec fn leaves<A: TokenArithmetic>(
        self,
        key: Seq<char>,
        now: u128,
        left: u64,
    ) -> bool {
        match look_up(self.table, key) {
            Some(state) => exists|level: u64| #[trigger]
                call_ensures(
                    A::refilled,
                    (state.level, self.capacity, self.rate, elapsed_nanos(state.at, now)),
                    level,
                ) && left == whole_part(level),
            None => left == self.capacity,
        }
    }
}

impl<A: TokenArithmetic> TokenBucket<A> {
    /// A limiter whose buckets hold `capacity` tokens and are refilled at the given rate.
    pub fn new(capacity: u64, refill_rate: RefillRate) -> (limiter: TokenBucket<A>)
        requires
            capacity > 0,
            refill_rate.positive(),
        ensures
            limiter@ == (TokenBucketView {
                capacity,
                rate: refill_rate,
                max_keys: DEFAULT_MAX_KEYS as nat,
                table: Map::empty(),
                origin: limiter@.origin,
            }),
            clock_started(limiter@.origin),
    {
        TokenBucket {
            capacity,
            refill_rate,
            buckets: new_table(),
            max_keys: DEFAULT_MAX_KEYS,
            origin: Instant::now(),
            arithmetic: PhantomData,
        }
    }

    /// Retains at most `max_keys` keys, and at least one.
    pub fn with_max_keys(self, max_keys: usize) -> (limiter: TokenBucket<A>)
        ensures
            limiter@ == (TokenBucketView {
                max_keys: if max_keys < 1 {
                    1
                } else {
                    max_keys as nat
                },
                ..self@
            }),
    {
        let mut limiter = self;
        limiter.max_keys = if max_keys < 1 {
            1
        } else {
            max_keys
        };
        limiter
    }

    /// Asks for a request of the key at a time, in nanoseconds since the limiter was made.
    pub fn try_acquire_at(&mut self, key: &str, now: u128) -> (verdict: (bool, u64))
        ensures
            old(self)@.acquires::<A>(final(self)@, key@, now, verdict),
    {
        make_room(&mut self.buckets, key, self.max_keys, Age::Mark);
        let ghost room = held(self.buckets);
        let fresh = KeyState::marked(A::full(self.capacity), now);
        let mut state = entry_or_insert(&mut self.buckets, key.to_owned(), fresh);
        let ghost met = state@;
        let verdict = take_token::<A>(&mut state, self.capacity, self.refill_rate, now);
        put_state(&mut self.buckets, key.to_owned(), state);
        proof {
            lemma_admitted(
                old(self)@.table,
                room,
                key@,
                state@,
                self.max_keys as nat,
                Age::Mark,
            );
            let before = old(self)@;
            assert(held(self.buckets) =~= room.insert(key@, state@));
            assert(self@.table[key@] == state@);
            assert(bucket_met::<A>(look_up(before.table, key@), before.capacity, now, met));
            assert(bucket_step::<A>(met, before.capacity, before.rate, now, state@, verdict));
        }
        verdict
    }

    /// Asks for a request of the key.
    pub fn try_acquire(&mut self, key: &str) -> (verdict: (bool, u64))
        ensures
            exists|now: u128|
                clock_says(old(self)@.origin, now) && #[trigger] old(self)@.acquires::<A>(
                    final(self)@,
                    key@,
                    now,
                    verdict,
                ),
    {
        let now: u128 = read_clock(&self.origin);
        self.try_acquire_at(key, now)
    }

    /// The largest number of tokens in a bucket.
    pub fn capacity(&self) -> (capacity: u64)
        ensures
            capacity == self@.capacity,
    {
        self.capacity
    }

    /// Tokens added per second.
    pub fn refill_rate(&self) -> (rate: RefillRate)
        ensures
            rate == self@.rate,
    {
        self.refill_rate
    }

    /// How many keys are remembered.
    pub fn key_count(&self) -> (count: usize)
        ensures
            count == self@.table.len(),
    {
        count_keys(&self.buckets)
    }

    /// How many whole tokens the key has at a time, in nanoseconds since the limiter was made, with
    /// those that were added since it last asked.
    pub fn remaining_at(&self, key: &str, now: u128) -> (left: u64)
        ensures
            self@.leaves::<A>(key@, now, left),
    {
        match get_state(&self.buckets, key) {
            Some(state) => {
                let elapsed: u128 = elapsed_between(state.at, now);
                let level: u64 = A::refilled(
                    state.level,
                    self.capacity,
                    self.refill_rate,
                    elapsed,
                );
                assert(look_up(self@.table, key@) == Some(state@));
                assert(call_ensures(
                    A::refilled,
                    (state@.level, self@.capacity, self@.rate, elapsed_nanos(state@.at, now)),
                    level,
                ));
                whole_tokens(level)
            },
            None => self.capacity,
        }
    }

    /// Gives the key a full bucket at the given time.
    pub fn reset_at(&mut self, key: &str, now: u128)
        ensures
            old(self)@.refills::<A>(final(self)@, key@, now),
    {
        make_room(&mut self.buckets, key, self.max_keys, Age::Mark);
        let ghost room = held(self.buckets);
        let state = KeyState::marked(A::full(self.capacity), now);
        put_state(&mut self.buckets, key.to_owned(), state);
        proof {
            lemma_admitted(
                old(self)@.table,
                room,
                key@,
                state@,
                self.max_keys as nat,
                Age::Mark,
            );
        }
    }
}

impl<A: TokenArithmetic> RateLimitAlgorithm for TokenBucket<A> {
    fn check(&mut self, key: &str) -> (verdict: (bool, u64))
        ensures
            exists|now: u128|
                clock_says(old(self)@.origin, now) && #[trigger] old(self)@.acquires::<A>(
                    final(self)@,
                    key@,
                    now,
                    verdict,
                ),
    {
        self.try_acquire(key)
    }

    fn reset(&mut self, key: &str)
        ensures
            exists|now: u128|
                clock_says(old(self)@.origin, now) && #[trigger] old(self)@.refills::<A>(
                    final(self)@,
                    key@,
                    now,
                ),
    {
        let now: u128 = read_clock(&self.origin);
        self.reset_at(key, now);
    }

    fn remaining(&mut self, key: &str) -> (left: u64)
        ensures
            exists|now: u128|
                clock_says(old(self)@.origin, now) && #[trigger] old(self)@.leaves::<A>(
                    key@,
                    now,
                    left,
                ),
            final(self)@ == old(self)@,
    {
        let now: u128 = read_clock(&self.origin);
        self.remaining_at(key, now)
    }
}

} // verus!
