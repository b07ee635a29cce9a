//! The store in memory, for a single instance.
//!
//! Every key that a client comes with leaves an entry behind, and keys are derived from what
//! clients send. [`MemoryStore::cleanup`] keeps the store bounded: it forgets the keys that have
//! made no request for long and, where there is a cap, the oldest ones beyond it. It has to be
//! called periodically.

use super::RateLimitStore;
use crate::algorithms::fixed_window::{count_request, fixed_remaining, fixed_step};
use crate::algorithms::sliding_window::{log_request, sliding_step};
use crate::algorithms::token_bucket::{bucket_met, bucket_step, take_token};
use crate::algorithms::DEFAULT_MAX_KEYS;
use crate::error::RateLimitResult;
use crate::table::{
    cap_oldest, count_keys, drop_old, entry_or_insert, excess, fresh_part, get_state, held, look_up,
    marked_view, new_table, put_state, remove_key, without_oldest, Age, KeyState, KeyView,
    TableView,
};
use crate::time::{
    clock_says, clock_started, duration_nanos, elapsed_between, elapsed_nanos, read_clock, span_of,
    NANOS_PER_SEC,
};
use crate::tokens::{whole_part, whole_tokens, RefillRate, TokenArithmetic};
use dashmap::DashMap;
use std::marker::PhantomData;
use std::time::{Duration, Instant};
use vstd::prelude::*;

verus! {

/// After how many seconds without a request a key is forgotten, unless the store is told otherwise.
pub const DEFAULT_IDLE_TTL_SECS: u64 = 300;

/// A store in memory, as contracts speak of it.
#[verifier::ext_equal]
pub struct MemoryView {
    /// The token buckets by key.
    pub buckets: TableView,
    /// The sliding window logs by key.
    pub logs: TableView,
    /// The fixed windows by key.
    pub windows: TableView,
    /// After how long without a request a key is forgotten, in nanoseconds.
    pub idle_ttl: nat,
    /// How many keys per algorithm are retained, if that is limited.
    pub max_keys: Option<usize>,
    /// When the store was made, by the monotonic clock.
    pub origin: Instant,
}

/// An empty store in memory that was made at `origin`, as it is unless it is told otherwise.
pub open spec fn fresh_store(origin: Instant) -> MemoryView {
    MemoryView {
        buckets: Map::empty(),
        logs: Map::empty(),
        windows: Map::empty(),
        idle_ttl: (DEFAULT_IDLE_TTL_SECS * NANOS_PER_SEC) as nat,
        max_keys: Some(DEFAULT_MAX_KEYS),
        origin,
    }
}

/// How many of the times lie less than a window back.
pub open spec fn live_count(log: Seq<u128>, window: u128, now: u128) -> nat
    decreases log.len(),
{
    if log.len() == 0 {
        0
    } else {
        live_count(log.drop_last(), window, now) + if elapsed_nanos(log.last(), now) < window {
            1nat
        } else {
            0nat
        }
    }
}

/// A number less another, and zero where that is larger.
pub open spec fn less(limit: u64, used: nat) -> u64 {
    if used >= limit {
        0
    } else {
        (limit - used) as u64
    }
}

/// Whether `after` is what a cleanup leaves of `before`: keys that are no older than the idle time,
/// without the oldest beyond the cap. There are finitely many of either.
pub open spec fn cleaned_table(
    before: TableView,
    after: TableView,
    idle_by: Age,
    now: u128,
    ttl: u128,
    order_by: Age,
    max_keys: Option<usize>,
) -> bool {
    let fresh = fresh_part(before, idle_by, now, ttl);
    fresh.dom().finite() && capped(fresh, after, order_by, max_keys)
}

/// Whether `after` is `before` without its oldest keys beyond the cap.
pub open spec fn capped(
    before: TableView,
    after: TableView,
    by: Age,
    max_keys: Option<usize>,
) -> bool {
    match max_keys {
        Some(max) => without_oldest(before, after, by, excess(before.len(), max as nat)),
        None => after == before,
    }
}

impl MemoryView {
    /// Whether `after` is this store once a request of the key at `now` came to `verdict` under the
    /// token bucket algorithm.
    pub open spec fn takes_token<A: TokenArithmetic>(
        self,
        after: MemoryView,
        key: Seq<char>,
        capacity: u64,
        rate: RefillRate,
        now: u128,
        verdict: (bool, u64),
    ) -> bool {
        &&& exists|met: KeyView|
            #![trigger bucket_met::<A>(look_up(self.buckets, key), capacity, now, met)]
            bucket_met::<A>(look_up(self.buckets, key), capacity, now, met) && bucket_step::<A>(
                met,
                capacity,
                rate,
                now,
                after.buckets[key],
                verdict,
            )
        &&& after == (MemoryView {
            buckets: self.buckets.insert(key, after.buckets[key]),
            ..self
        })
    }

    /// The log that a request of the key meets: the key's own, or an empty one, with the limit and
    /// the window that the request asks for.
    pub open spec fn log_met(self, key: Seq<char>, limit: u64, window: nat) -> KeyView {
        let met = match look_up(self.logs, key) {
            Some(state) => state,
            None => marked_view(0, 0),
        };
        KeyView { limit, window: window as u128, ..met }
    }

    /// This store after a request of the key at `now` under the sliding window log algorithm, and
    /// what the request came to.
    pub open spec fn log_step(self, key: Seq<char>, limit: u64, window: nat, now: u128) -> (
        MemoryView,
        (bool, u64),
    ) {
        let (state, verdict) = sliding_step(
            self.log_met(key, limit, window),
            limit,
            window,
            now,
        );
        (MemoryView { logs: self.logs.insert(key, state), ..self }, verdict)
    }

    /// The window that a request of the key meets: the key's own, or an empty one from now on, with
    /// the limit and the length that the request asks for.
    pub open spec fn window_met(
        self,
        key: Seq<char>,
        limit: u64,
        window: nat,
        now: u128,
    ) -> KeyView {
        let met = match look_up(self.windows, key) {
            Some(state) => state,
            None => marked_view(0, now),
        };
        KeyView { limit, window: window as u128, ..met }
    }

    /// This store after a request of the key at `now` under the fixed window algorithm, and what
    /// the request came to.
    pub open spec fn window_step(self, key: Seq<char>, limit: u64, window: nat, now: u128) -> (
        MemoryView,
        (bool, u64),
    ) {
        let (state, verdict) = fixed_step(
            self.window_met(key, limit, window, now),
            limit,
            window,
            now,
        );
        (MemoryView { windows: self.windows.insert(key, state), ..self }, verdict)
    }

    /// This store without the key.
    pub open spec fn without(self, key: Seq<char>) -> MemoryView {
        MemoryView {
            buckets: self.buckets.remove(key),
            logs: self.logs.remove(key),
            windows: self.windows.remove(key),
            ..self
        }
    }

    /// How many more requests the key has left. Where it has a bucket, these are the whole tokens
    /// that its last request left in it: how fast a bucket is refilled is up to each request, so
    /// the store adds none for the answer. Else it is what is left at `now` of the key's fixed
    /// window, else what is left of its sliding window. A key that the store does not know has
    /// none.
    pub open spec fn left(self, key: Seq<char>, now: u128) -> u64 {
        if self.buckets.contains_key(key) {
            whole_part(self.buckets[key].level)
        } else if self.windows.contains_key(key) {
            let state = self.windows[key];
            fixed_remaining(state, state.limit, state.window as nat, now)
        } else if self.logs.contains_key(key) {
            let state = self.logs[key];
            less(state.limit, live_count(state.log, state.window, now))
        } else {
            0
        }
    }

    /// Whether `after` is this store once idle keys and those beyond the cap were forgotten at
    /// `now`. A key is idle where its last request lies the idle time back. Beyond the cap go, of
    /// buckets, those whose last request lies farthest back; of logs, those whose last allowed
    /// request does; of fixed windows, those that started first.
    pub open spec fn cleaned(self, after: MemoryView, now: u128) -> bool {
        let ttl = self.idle_ttl as u128;
        let max = self.max_keys;
        &&& after.idle_ttl == self.idle_ttl
        &&& after.max_keys == self.max_keys
        &&& after.origin == self.origin
        &&& cleaned_table(self.buckets, after.buckets, Age::Mark, now, ttl, Age::Mark, max)
        &&& cleaned_table(self.logs, after.logs, Age::SeenLog, now, ttl, Age::Log, max)
        &&& cleaned_table(self.windows, after.windows, Age::Seen, now, ttl, Age::Mark, max)
    }

    /// How long it takes from `now` on until the key's fixed window, of the given length, is over.
    pub open spec fn window_left(self, key: Seq<char>, window: nat, now: u128) -> nat {
        let elapsed = elapsed_nanos(self.windows[key].at, now);
        if elapsed >= window {
            0
        } else {
            (window - elapsed) as nat
        }
    }
}

/// A store in memory.
pub struct MemoryStore<A: TokenArithmetic> {
    token_buckets: DashMap<String, KeyState>,
    sliding_logs: DashMap<String, KeyState>,
    fixed_windows: DashMap<String, KeyState>,
    idle_ttl: Duration,
    max_keys: Option<usize>,
    origin: Instant,
    arithmetic: PhantomData<A>,
}

impl<A: TokenArithmetic> View for MemoryStore<A> {
    type V = MemoryView;

    closed spec fn view(&self) -> MemoryView {
        MemoryView {
            buckets: held(self.token_buckets),
            logs: held(self.sliding_logs),
            windows: held(self.fixed_windows),
            idle_ttl: duration_nanos(self.idle_ttl),
            max_keys: self.max_keys,
            origin: self.origin,
        }
    }
}

/// Counts the times that lie less than a window back.
fn count_live(state: &KeyState, now: u128) -> (count: u64)
    ensures
        count as nat == live_count(state@.log, state@.window, now),
{
    let mut count: u64 = 0;
    let mut i: usize = 0;
    assert(state.log@.take(0) =~= Seq::empty());
    while i < state.log.len()
        invariant
            i <= state.log@.len(),
            count <= i,
            count as nat == live_count(state.log@.take(i as int), state.window, now),
        decreases state.log@.len() - i,
    {
        assert(state.log@.take(i + 1).drop_last() =~= state.log@.take(i as int));
        if elapsed_between(state.log[i], now) < state.window {
            count = count + 1;
        }
        i += 1;
    }
    assert(state.log@.take(i as int) =~= state.log@);
    count
}

impl<A: TokenArithmetic> MemoryStore<A> {
    /// An empty store that forgets keys after five idle minutes and retains a hundred thousand keys
    /// per algorithm.
    pub fn new() -> (store: MemoryStore<A>)
        ensures
            store@ == fresh_store(store@.origin),
            clock_started(store@.origin),
    {
        MemoryStore {
            token_buckets: new_table(),
            sliding_logs: new_table(),
            fixed_windows: new_table(),
            idle_ttl: Duration::from_secs(DEFAULT_IDLE_TTL_SECS),
            max_keys: Some(DEFAULT_MAX_KEYS),
            origin: Instant::now(),
            arithmetic: PhantomData,
        }
    }

    /// Sets after how long without a request [`Self::cleanup`] forgets a key. It should be a few
    /// windows at least, so that clients are not forgotten amid one.
    pub fn with_idle_ttl(self, idle_ttl: Duration) -> (store: MemoryStore<A>)
        ensures
            store@ == (MemoryView { idle_ttl: duration_nanos(idle_ttl), ..self@ }),
    {
        let mut store = self;
        store.idle_ttl = idle_ttl;
        store
    }

    /// Limits how many keys per algorithm [`Self::cleanup`] retains.
    pub fn with_max_keys(self, max_keys: usize) -> (store: MemoryStore<A>)
        ensures
            store@ == (MemoryView { max_keys: Some(max_keys), ..self@ }),
    {
        let mut store = self;
        store.max_keys = Some(max_keys);
        store
    }

    /// Takes the limit on the number of keys away. With keys that clients can choose, the store is
    /// then no longer bounded.
    pub fn without_max_keys(self) -> (store: MemoryStore<A>)
        ensures
            store@ == (MemoryView { max_keys: None, ..self@ }),
    {
        let mut store = self;
        store.max_keys = None;
        store
    }

    /// How many keys per algorithm are retained, if that is limited.
    pub fn max_keys(&self) -> (max_keys: Option<usize>)
        ensures
            max_keys == self@.max_keys,
    {
        self.max_keys
    }

    /// After how long without a request a key is forgotten.
    pub fn idle_ttl(&self) -> (idle_ttl: Duration)
        ensures
            duration_nanos(idle_ttl) == self@.idle_ttl,
    {
        self.idle_ttl
    }

    /// How many keys are remembered, counted per algorithm.
    pub fn key_count(&self) -> (count: usize)
        ensures
            count as nat == if self@.buckets.len() + self@.logs.len() + self@.windows.len()
                <= usize::MAX {
                self@.buckets.len() + self@.logs.len() + self@.windows.len()
            } else {
                usize::MAX as nat
            },
    {
        let buckets: usize = count_keys(&self.token_buckets);
        let logs: usize = count_keys(&self.sliding_logs);
        let windows: usize = count_keys(&self.fixed_windows);
        buckets.saturating_add(logs).saturating_add(windows)
    }

    /// Asks for a request of the key under the token bucket algorithm at a time, in nanoseconds
    /// since the store was made.
    pub fn token_bucket_check_at(
        &mut self,
        key: &str,
        capacity: u64,
        refill_rate: RefillRate,
        now: u128,
    ) -> (verdict: (bool, u64))
        ensures
            old(self)@.takes_token::<A>(final(self)@, key@, capacity, refill_rate, now, verdict),
    {
        let ghost before = self@;
        let fresh = KeyState::marked(A::full(capacity), now);
        let mut state = entry_or_insert(&mut self.token_buckets, key.to_owned(), fresh);
        let ghost met = state@;
        let verdict = take_token::<A>(&mut state, capacity, refill_rate, now);
        put_state(&mut self.token_buckets, key.to_owned(), state);
        proof {
            assert(self@.buckets =~= before.buckets.insert(key@, state@));
            assert(self@.buckets[key@] == state@);
            assert(bucket_met::<A>(look_up(before.buckets, key@), capacity, now, met));
            assert(bucket_step::<A>(met, capacity, refill_rate, now, state@, verdict));
        }
        verdict
    }

    /// Asks for a request of the key under the sliding window log algorithm at a time, in
    /// nanoseconds since the store was made.
    pub fn sliding_window_check_at(
        &mut self,
        key: &str,
        max_requests: u64,
        window: Duration,
        now: u128,
    ) -> (verdict: (bool, u64))
        ensures
            (final(self)@, verdict) == old(self)@.log_step(
                key@,
                max_requests,
                duration_nanos(window),
                now,
            ),
    {
        let ghost before = self@;
        let fresh = KeyState::marked(0, 0);
        let mut state = entry_or_insert(&mut self.sliding_logs, key.to_owned(), fresh);
        state.limit = max_requests;
        state.window = window.as_nanos();
        let verdict = log_request(&mut state, max_requests, window, now);
        put_state(&mut self.sliding_logs, key.to_owned(), state);
        assert(self@.logs =~= before.logs.insert(key@, state@));
        verdict
    }

    /// Asks for a request of the key under the fixed window algorithm at a time, in nanoseconds
    /// since the store was made.
    pub fn fixed_window_check_at(
        &mut self,
        key: &str,
        max_requests: u64,
        window: Duration,
        now: u128,
    ) -> (verdict: (bool, u64))
        ensures
            (final(self)@, verdict) == old(self)@.window_step(
                key@,
                max_requests,
                duration_nanos(window),
                now,
            ),
    {
        self.fixed_window_check_until_at(key, max_requests, window, now).0
    }

    /// As [`Self::fixed_window_check_at`], with how long it takes until the key's window is over.
    pub fn fixed_window_check_until_at(
        &mut self,
        key: &str,
        max_requests: u64,
        window: Duration,
        now: u128,
    ) -> (answer: ((bool, u64), Duration))
        ensures
            (final(self)@, answer.0) == old(self)@.window_step(
                key@,
                max_requests,
                duration_nanos(window),
                now,
            ),
            duration_nanos(answer.1) == final(self)@.window_left(
                key@,
                duration_nanos(window),
                now,
            ),
    {
        let ghost before = self@;
        let fresh = KeyState::marked(0, now);
        let mut state = entry_or_insert(&mut self.fixed_windows, key.to_owned(), fresh);
        state.limit = max_requests;
        state.window = window.as_nanos();
        let verdict = count_request(&mut state, max_requests, window, now);
        let left: u128 = state.window.saturating_sub(elapsed_between(state.at, now));
        put_state(&mut self.fixed_windows, key.to_owned(), state);
        assert(self@.windows =~= before.windows.insert(key@, state@));
        (verdict, span_of(left))
    }

    /// How many more requests the key has left at a time, in nanoseconds since the store was made.
    /// Of a bucket, it is what the last request left.
    pub fn remaining_at(&self, key: &str, now: u128) -> (left: u64)
        ensures
            left == self@.left(key@, now),
    {
        if let Some(state) = get_state(&self.token_buckets, key) {
            return whole_tokens(state.level);
        }
        if let Some(state) = get_state(&self.fixed_windows, key) {
            if elapsed_between(state.at, now) >= state.window {
                return state.limit;
            }
            return state.limit.saturating_sub(state.level);
        }
        if let Some(state) = get_state(&self.sliding_logs, key) {
            return state.limit.saturating_sub(count_live(&state, now));
        }
        0
    }

    /// Forgets, at a time in nanoseconds since the store was made, the keys that have been idle for
    /// too long, and the oldest ones beyond the cap.
    pub fn cleanup_at(&mut self, now: u128)
        ensures
            old(self)@.cleaned(final(self)@, now),
    {
        let ttl: u128 = self.idle_ttl.as_nanos();
        drop_old(&mut self.token_buckets, Age::Mark, now, ttl);
        drop_old(&mut self.sliding_logs, Age::SeenLog, now, ttl);
        drop_old(&mut self.fixed_windows, Age::Seen, now, ttl);
        if let Some(max) = self.max_keys {
            cap_oldest(&mut self.token_buckets, max, Age::Mark);
            cap_oldest(&mut self.sliding_logs, max, Age::Log);
            cap_oldest(&mut self.fixed_windows, max, Age::Mark);
        }
    }
}

impl<A: TokenArithmetic> Default for MemoryStore<A> {
    fn default() -> (store: MemoryStore<A>)
        ensures
            store@ == fresh_store(store@.origin),
            clock_started(store@.origin),
    {
        MemoryStore::new()
    }
}

impl<A: TokenArithmetic> RateLimitStore for MemoryStore<A> {
    open spec fn bucket_checks(
        before: Self,
        after: Self,
        key: Seq<char>,
        capacity: u64,
        refill_rate: RefillRate,
        outcome: RateLimitResult<(bool, u64)>,
    ) -> bool {
        &&& outcome is Ok
        &&& exists|now: u128|
            clock_says(before@.origin, now) && #[trigger] before@.takes_token::<A>(
                after@,
                key,
                capacity,
                refill_rate,
                now,
                outcome->Ok_0,
            )
    }

    open spec fn log_checks(
        before: Self,
        after: Self,
        key: Seq<char>,
        max_requests: u64,
        window: Duration,
        outcome: RateLimitResult<(bool, u64)>,
    ) -> bool {
        &&& outcome is Ok
        &&& exists|now: u128|
            clock_says(before@.origin, now) && (after@, outcome->Ok_0)
                == #[trigger] before@.log_step(key, max_requests, duration_nanos(window), now)
    }

    open spec fn window_checks(
        before: Self,
        after: Self,
        key: Seq<char>,
        max_requests: u64,
        window: Duration,
        outcome: RateLimitResult<(bool, u64)>,
    ) -> bool {
        &&& outcome is Ok
        &&& exists|now: u128|
            clock_says(before@.origin, now) && (after@, outcome->Ok_0)
                == #[trigger] before@.window_step(key, max_requests, duration_nanos(window), now)
    }

    open spec fn window_checks_until(
        before: Self,
        after: Self,
        key: Seq<char>,
        max_requests: u64,
        window: Duration,
        outcome: RateLimitResult<((bool, u64), Option<Duration>)>,
    ) -> bool {
        &&& outcome is Ok
        &&& outcome->Ok_0.1 is Some
        &&& exists|now: u128|
            clock_says(before@.origin, now) && (after@, outcome->Ok_0.0)
                == #[trigger] before@.window_step(key, max_requests, duration_nanos(window), now)
                && duration_nanos(outcome->Ok_0.1->0) == after@.window_left(
                key,
                duration_nanos(window),
                now,
            )
    }

    open spec fn resets(
        before: Self,
        after: Self,
        key: Seq<char>,
        outcome: RateLimitResult<()>,
    ) -> bool {
        outcome is Ok && after@ == before@.without(key)
    }

    fn token_bucket_check(&mut self, key: &str, capacity: u64, refill_rate: RefillRate) -> (outcome:
        RateLimitResult<(bool, u64)>) {
        let now: u128 = read_clock(&self.origin);
        let verdict = self.token_bucket_check_at(key, capacity, refill_rate, now);
        let outcome: RateLimitResult<(bool, u64)> = Ok(verdict);
        assert(old(self)@.takes_token::<A>(
            self@,
            key@,
            capacity,
            refill_rate,
            now,
            outcome->Ok_0,
        ));
        outcome
    }

    fn sliding_window_check(&mut self, key: &str, max_requests: u64, window: Duration) -> (outcome:
        RateLimitResult<(bool, u64)>) {
        let now: u128 = read_clock(&self.origin);
        let verdict = self.sliding_window_check_at(key, max_requests, window, now);
        Ok(verdict)
    }

    fn fixed_window_check(&mut self, key: &str, max_requests: u64, window: Duration) -> (outcome:
        RateLimitResult<(bool, u64)>) {
        let now: u128 = read_clock(&self.origin);
        let verdict = self.fixed_window_check_at(key, max_requests, window, now);
        Ok(verdict)
    }

    fn fixed_window_check_until(
        &mut self,
        key: &str,
        max_requests: u64,
        window: Duration,
    ) -> (outcome: RateLimitResult<((bool, u64), Option<Duration>)>) {
        let now: u128 = read_clock(&self.origin);
        let (verdict, left) = self.fixed_window_check_until_at(key, max_requests, window, now);
        Ok((verdict, Some(left)))
    }

    fn reset(&mut self, key: &str) -> (outcome: RateLimitResult<()>) {
        remove_key(&mut self.token_buckets, key);
        remove_key(&mut self.sliding_logs, key);
        remove_key(&mut self.fixed_windows, key);
        Ok(())
    }

    fn remaining(&mut self, key: &str) -> (left: RateLimitResult<u64>)
        ensures
            left is Ok,
            final(self)@ == old(self)@,
            exists|now: u128|
                clock_says(old(self)@.origin, now) && left->Ok_0 == #[trigger] old(self)@.left(
                    key@,
                    now,
                ),
    {
        let now: u128 = read_clock(&self.origin);
        let left: u64 = self.remaining_at(key, now);
        assert(left == old(self)@.left(key@, now));
        Ok(left)
    }

    fn cleanup(&mut self) -> (outcome: RateLimitResult<()>)
        ensures
            outcome is Ok,
            exists|now: u128|
                clock_says(old(self)@.origin, now) && #[trigger] old(self)@.cleaned(
                    final(self)@,
                    now,
                ),
    {
        let now: u128 = read_clock(&self.origin);
        self.cleanup_at(now);
        Ok(())
    }

    fn store_type(&self) -> (name: &'static str)
        ensures
            name@ == "memory"@,
    {
        "memory"
    }
}

} // verus!
