//! The sliding window log algorithm.
//!
//! The time of each allowed request is logged. A request is allowed where fewer than the limit are
//! logged in the window that ends with it; times that have left the window are dropped. This is
//! the most accurate of the algorithms, and the one that remembers most.

use super::{admitted, lemma_admitted, make_room, RateLimitAlgorithm, DEFAULT_MAX_KEYS};
use crate::table::{
    count_keys, entry_or_insert, get_state, held, look_up, marked_view, new_table, put_state,
    remove_key, Age, KeyState, KeyView, TableView,
};
use crate::time::{
    clock_says, clock_started, duration_nanos, elapsed_between, elapsed_nanos, read_clock,
};
use dashmap::DashMap;
use std::time::{Duration, Instant};
use vstd::prelude::*;

verus! {

/// A log without the times at its start that lie more than a window back.
pub open spec fn live_part(log: Seq<u128>, window: nat, now: u128) -> Seq<u128>
    decreases log.len(),
{
    if log.len() > 0 && elapsed_nanos(log.first(), now) > window {
        live_part(log.drop_first(), window, now)
    } else {
        log
    }
}

/// One request against a sliding window: the state after it, whether it is allowed, and how many
/// more are left.
pub open spec fn sliding_step(before: KeyView, limit: u64, window: nat, now: u128) -> (
    KeyView,
    (bool, u64),
) {
    let live = live_part(before.log, window, now);
    if live.len() < limit {
        (
            KeyView { seen: now, log: live.push(now), ..before },
            (true, (limit - live.len() - 1) as u64),
        )
    } else {
        (KeyView { seen: now, log: live, ..before }, (false, 0))
    }
}

/// How many requests a sliding window has left.
pub open spec fn sliding_remaining(before: KeyView, limit: u64, window: nat, now: u128) -> u64 {
    let live = live_part(before.log, window, now);
    if live.len() >= limit {
        0
    } else {
        (limit - live.len()) as u64
    }
}

/// Drops the times at the start of the log that lie more than a window back.
pub fn drop_expired(state: &mut KeyState, window: Duration, now: u128)
    ensures
        final(state)@ == (KeyView {
            log: live_part(old(state)@.log, duration_nanos(window), now),
            ..old(state)@
        }),
{
    let span: u128 = window.as_nanos();
    let ghost before = state@;
    while state.log.len() > 0 && elapsed_between(state.log[0], now) > span
        invariant
            span == duration_nanos(window),
            live_part(state.log@, span as nat, now) == live_part(before.log, span as nat, now),
            state@ == (KeyView { log: state.log@, ..before }),
        decreases state.log@.len(),
    {
        let ghost log = state.log@;
        let _ = state.log.pop_front();
        assert(state.log@ =~= log.drop_first());
    }
}

/// Logs a request against a sliding window, if it is allowed.
pub fn log_request(state: &mut KeyState, limit: u64, window: Duration, now: u128) -> (verdict: (
    bool,
    u64,
))
    ensures
        (final(state)@, verdict) == sliding_step(old(state)@, limit, duration_nanos(window), now),
{
    drop_expired(state, window, now);
    state.seen = now;
    let count: u64 = state.log.len() as u64;
    if count < limit {
        state.log.push_back(now);
        (true, limit - count - 1)
    } else {
        (false, 0)
    }
}

/// A sliding window limiter, as contracts speak of it.
#[verifier::ext_equal]
pub struct SlidingWindowView {
    /// The largest number of requests in a window.
    pub limit: u64,
    /// How long the window is, in nanoseconds.
    pub window: nat,
    /// How many keys are retained.
    pub max_keys: nat,
    /// The logs by key.
    pub table: TableView,
    /// When the limiter was made, by the monotonic clock.
    pub origin: Instant,
}

/// A sliding window log rate limiter.
pub struct SlidingWindowLog {
    max_requests: u64,
    window: Duration,
    logs: DashMap<String, KeyState>,
    max_keys: usize,
    origin: Instant,
}

impl View for SlidingWindowLog {
    type V = SlidingWindowView;

    closed spec fn view(&self) -> SlidingWindowView {
        SlidingWindowView {
            limit: self.max_requests,
            window: duration_nanos(self.window),
            max_keys: self.max_keys as nat,
            table: held(self.logs),
            origin: self.origin,
        }
    }
}

impl SlidingWindowView {
    /// The log that a request of the key meets: the key's own, or an empty one.
    pub open spec fn met_by(self, key: Seq<char>) -> KeyView {
        match look_up(self.table, key) {
            Some(state) => state,
            None => marked_view(0, 0),
        }
    }

    /// What a request of the key comes to.
    pub open spec fn step(self, key: Seq<char>, now: u128) -> (KeyView, (bool, u64)) {
        sliding_step(self.met_by(key), self.limit, self.window, now)
    }

    /// Whether `after` is this limiter once a request of the key at `now` came to `verdict`.
    pub open spec fn acquires(
        self,
        after: SlidingWindowView,
        key: Seq<char>,
        now: u128,
        verdict: (bool, u64),
    ) -> bool {
        let (state, outcome) = self.step(key, now);
        &&& verdict == outcome
        &&& after.limit == self.limit
        &&& after.window == self.window
        &&& after.max_keys == self.max_keys
        &&& after.origin == self.origin
        &&& admitted(self.table, after.table, key, state, self.max_keys, Age::Log)
    }

    /// This limiter once the key's log, if it has one, was cleaned at `now`.
    pub open spec fn cleaned(self, key: Seq<char>, now: u128) -> SlidingWindowView {
        match look_up(self.table, key) {
            Some(met) => {
                let state = KeyView { log: live_part(met.log, self.window, now), ..met };
                SlidingWindowView { table: self.table.insert(key, state), ..self }
            },
            None => self,
        }
    }

    /// How many requests the key has left.
    pub open spec fn left(self, key: Seq<char>, now: u128) -> u64 {
        sliding_remaining(self.met_by(key), self.limit, self.window, now)
    }
}

impl SlidingWindowLog {
    /// A limiter that allows `max_requests` in any window.
    pub fn new(max_requests: u64, window: Duration) -> (limiter: SlidingWindowLog)
        requires
            max_requests > 0,
            duration_nanos(window) > 0,
        ensures
            limiter@ == (SlidingWindowView {
                limit: max_requests,
                window: duration_nanos(window),
                max_keys: DEFAULT_MAX_KEYS as nat,
                table: Map::empty(),
                origin: limiter@.origin,
            }),
            clock_started(limiter@.origin),
    {
        SlidingWindowLog {
            max_requests,
            window,
            logs: new_table(),
            max_keys: DEFAULT_MAX_KEYS,
            origin: Instant::now(),
        }
    }

    /// Retains at most `max_keys` keys, and at least one.
    pub fn with_max_keys(self, max_keys: usize) -> (limiter: SlidingWindowLog)
        ensures
            limiter@ == (SlidingWindowView {
                max_keys: if max_keys < 1 {
                    1
                } else {
                    max_keys as nat
                },
                ..self@
            }),
    {
        let mut limiter = self;
        limiter.max_keys = if max_keys < 1 {
            1
        } else {
            max_keys
        };
        limiter
    }

    /// Cleans the key's log, if it has one, at the given time and counts what is left in it.
    fn clean_and_count(&mut self, key: &str, now: u128) -> (count: u64)
        ensures
            final(self)@ == old(self)@.cleaned(key@, now),
            count as nat == live_part(old(self)@.met_by(key@).log, old(self)@.window, now).len(),
    {
        match get_state(&self.logs, key) {
            Some(found) => {
                let mut state = found;
                drop_expired(&mut state, self.window, now);
                let count: u64 = state.log.len() as u64;
                put_state(&mut self.logs, key.to_owned(), state);
                count
            },
            None => 0,
        }
    }

    /// Asks for a request of the key at a time, in nanoseconds since the limiter was made.
    pub fn try_acquire_at(&mut self, key: &str, now: u128) -> (verdict: (bool, u64))
        ensures
            old(self)@.acquires(final(self)@, key@, now, verdict),
    {
        make_room(&mut self.logs, key, self.max_keys, Age::Log);
        let ghost room = held(self.logs);
        let fresh = KeyState::marked(0, 0);
        let mut state = entry_or_insert(&mut self.logs, key.to_owned(), fresh);
        let verdict = log_request(&mut state, self.max_requests, self.window, now);
        put_state(&mut self.logs, key.to_owned(), state);
        proof {
            lemma_admitted(
                old(self)@.table,
                room,
                key@,
                state@,
                self.max_keys as nat,
                Age::Log,
            );
            assert(held(self.logs) =~= room.insert(key@, state@));
        }
        verdict
    }

    /// Asks for a request of the key.
    pub fn try_acquire(&mut self, key: &str) -> (verdict: (bool, u64))
        ensures
            exists|now: u128|
                clock_says(old(self)@.origin, now) && #[trigger] old(self)@.acquires(
                    final(self)@,
                    key@,
                    now,
                    verdict,
                ),
    {
        let now: u128 = read_clock(&self.origin);
        self.try_acquire_at(key, now)
    }

    /// How many requests are allowed in a window.
    pub fn max_requests(&self) -> (max_requests: u64)
        ensures
            max_requests == self@.limit,
    {
        self.max_requests
    }

    /// How long the window is.
    pub fn window(&self) -> (window: Duration)
        ensures
            duration_nanos(window) == self@.window,
    {
        self.window
    }

    /// How many keys are remembered.
    pub fn key_count(&self) -> (count: usize)
        ensures
            count == self@.table.len(),
    {
        count_keys(&self.logs)
    }

    /// How many more requests the key would be allowed at the given time. The key's log is cleaned
    /// on the way; a key without one is not remembered.
    pub fn remaining_at(&mut self, key: &str, now: u128) -> (left: u64)
        ensures
            left == old(self)@.left(key@, now),
            final(self)@ == old(self)@.cleaned(key@, now),
    {
        let count: u64 = self.clean_and_count(key, now);
        self.max_requests.saturating_sub(count)
    }
}

impl RateLimitAlgorithm for SlidingWindowLog {
    fn check(&mut self, key: &str) -> (verdict: (bool, u64))
        ensures
            exists|now: u128|
                clock_says(old(self)@.origin, now) && #[trigger] old(self)@.acquires(
                    final(self)@,
                    key@,
                    now,
                    verdict,
                ),
    {
        self.try_acquire(key)
    }

    fn reset(&mut self, key: &str)
        ensures
            final(self)@ == (SlidingWindowView {
                table: old(self)@.table.remove(key@),
                ..old(self)@
            }),
    {
        remove_key(&mut self.logs, key);
    }

    fn remaining(&mut self, key: &str) -> (left: u64)
        ensures
            exists|now: u128|
                #![trigger old(self)@.cleaned(key@, now)]
                clock_says(old(self)@.origin, now) && left == old(self)@.left(key@, now)
                    && final(self)@ == old(self)@.cleaned(key@, now),
    {
        let now: u128 = read_clock(&self.origin);
        self.remaining_at(key, now)
    }
}

} // verus!
