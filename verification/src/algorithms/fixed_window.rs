//! The fixed window algorithm.
//!
//! Time is divided into windows, one after the other for each key; each request increments the
//! counter of the current window, and a request beyond the limit is denied. A client can make a
//! window's worth of requests at the end of one window and again at the start of the next: where
//! that is a concern, use the sliding window.

use super::{admitted, lemma_admitted, make_room, RateLimitAlgorithm, DEFAULT_MAX_KEYS};
use crate::table::{
    count_keys, entry_or_insert, get_state, held, look_up, marked_view, new_table, put_state,
    remove_key, Age, KeyState, KeyView, TableView,
};
use crate::time::{
    clock_says, clock_started, duration_nanos, elapsed_between, elapsed_nanos, read_clock, span_of,
};
use dashmap::DashMap;
use std::time::{Duration, Instant};
use vstd::prelude::*;

verus! {

/// Whether the window that started at `start` is over.
pub open spec fn window_over(start: u128, window: nat, now: u128) -> bool {
    elapsed_nanos(start, now) >= window
}

/// One request against a fixed window: the state after it, whether it is allowed, and how many
/// more are left. A window that is over is replaced by one that starts now.
pub open spec fn fixed_step(before: KeyView, limit: u64, window: nat, now: u128) -> (
    KeyView,
    (bool, u64),
) {
    let current = if window_over(before.at, window, now) {
        KeyView { level: 0, at: now, seen: now, ..before }
    } else {
        KeyView { seen: now, ..before }
    };
    if current.level < limit {
        (
            KeyView { level: (current.level + 1) as u64, ..current },
            (true, (limit - current.level - 1) as u64),
        )
    } else {
        (current, (false, 0))
    }
}

/// How many requests a fixed window has left: all of them once it is over.
pub open spec fn fixed_remaining(state: KeyView, limit: u64, window: nat, now: u128) -> u64 {
    if window_over(state.at, window, now) {
        limit
    } else if state.level >= limit {
        0
    } else {
        (limit - state.level) as u64
    }
}

/// Counts a request against a fixed window.
pub fn count_request(state: &mut KeyState, limit: u64, window: Duration, now: u128) -> (verdict: (
    bool,
    u64,
))
    ensures
        (final(state)@, verdict) == fixed_step(old(state)@, limit, duration_nanos(window), now),
{
    state.seen = now;
    if elapsed_between(state.at, now) >= window.as_nanos() {
        state.level = 0;
        state.at = now;
    }
    if state.level < limit {
        state.level = state.level + 1;
        (true, limit - state.level)
    } else {
        (false, 0)
    }
}

/// A fixed window limiter, as contracts speak of it.
#[verifier::ext_equal]
pub struct FixedWindowView {
    /// The largest number of requests in a window.
    pub limit: u64,
    /// How long a window is, in nanoseconds.
    pub window: nat,
    /// How many keys are retained.
    pub max_keys: nat,
    /// The windows by key.
    pub table: TableView,
    /// When the limiter was made, by the monotonic clock.
    pub origin: Instant,
}

/// A fixed window rate limiter.
pub struct FixedWindow {
    max_requests: u64,
    window: Duration,
    windows: DashMap<String, KeyState>,
    max_keys: usize,
    origin: Instant,
}

impl View for FixedWindow {
    type V = FixedWindowView;

    closed spec fn view(&self) -> FixedWindowView {
        FixedWindowView {
            limit: self.max_requests,
            window: duration_nanos(self.window),
            max_keys: self.max_keys as nat,
            table: held(self.windows),
            origin: self.origin,
        }
    }
}

impl FixedWindowView {
    /// The window that a request of the key meets: the key's own, or an empty one from now on.
    pub open spec fn met_by(self, key: Seq<char>, now: u128) -> KeyView {
        match look_up(self.table, key) {
            Some(state) => state,
            None => marked_view(0, now),
        }
    }

    /// What a request of the key comes to.
    pub open spec fn step(self, key: Seq<char>, now: u128) -> (KeyView, (bool, u64)) {
        fixed_step(self.met_by(key, now), self.limit, self.window, now)
    }

    /// How many requests the key has left.
    pub open spec fn left(self, key: Seq<char>, now: u128) -> u64 {
        match look_up(self.table, key) {
            Some(state) => fixed_remaining(state, self.limit, self.window, now),
            None => self.limit,
        }
    }

    /// How long it takes until the key's window is over; a whole window where none is running.
    pub open spec fn until_reset(self, key: Seq<char>, now: u128) -> nat {
        match look_up(self.table, key) {
            Some(state) if !window_over(state.at, self.window, now) => (self.window - elapsed_nanos(
                state.at,
                now,
            )) as nat,
            _ => self.window,
        }
    }

    /// Whether `after` is this limiter once a request of the key at `now` came to `verdict`.
    pub open spec fn acquires(
        self,
        after: FixedWindowView,
        key: Seq<char>,
        now: u128,
        verdict: (bool, u64),
    ) -> bool {
        let (state, outcome) = self.step(key, now);
        &&& verdict == outcome
        &&& after.limit == self.limit
        &&& after.window == self.window
        &&& after.max_keys == self.max_keys
        &&& after.origin == self.origin
        &&& admitted(self.table, after.table, key, state, self.max_keys, Age::Mark)
    }
}

impl FixedWindow {
    /// A limiter that allows `max_requests` per window.
    pub fn new(max_requests: u64, window: Duration) -> (limiter: FixedWindow)
        requires
            max_requests > 0,
            duration_nanos(window) > 0,
        ensures
            limiter@ == (FixedWindowView {
                limit: max_requests,
                window: duration_nanos(window),
                max_keys: DEFAULT_MAX_KEYS as nat,
                table: Map::empty(),
                origin: limiter@.origin,
            }),
            clock_started(limiter@.origin),
    {
        FixedWindow {
            max_requests,
            window,
            windows: new_table(),
            max_keys: DEFAULT_MAX_KEYS,
            origin: Instant::now(),
        }
    }

    /// Retains at most `max_keys` keys, and at least one.
    pub fn with_max_keys(self, max_keys: usize) -> (limiter: FixedWindow)
        ensures
            limiter@ == (FixedWindowView {
                max_keys: if max_keys < 1 {
                    1
                } else {
                    max_keys as nat
                },
                ..self@
            }),
    {
        let mut limiter = self;
        limiter.max_keys = if max_keys < 1 {
            1
        } else {
            max_keys
        };
        limiter
    }

    /// Asks for a request of the key at a time, in nanoseconds since the limiter was made.
    pub fn try_acquire_at(&mut self, key: &str, now: u128) -> (verdict: (bool, u64))
        ensures
            old(self)@.acquires(final(self)@, key@, now, verdict),
    {
        make_room(&mut self.windows, key, self.max_keys, Age::Mark);
        let ghost room = held(self.windows);
        let fresh = KeyState::marked(0, now);
        let mut state = entry_or_insert(&mut self.windows, key.to_owned(), fresh);
        let verdict = count_request(&mut state, self.max_requests, self.window, now);
        put_state(&mut self.windows, key.to_owned(), state);
        proof {
            lemma_admitted(
                old(self)@.table,
                room,
                key@,
                state@,
                self.max_keys as nat,
                Age::Mark,
            );
            assert(held(self.windows) =~= room.insert(key@, state@));
        }
        verdict
    }

    /// Asks for a request of the key.
    pub fn try_acquire(&mut self, key: &str) -> (verdict: (bool, u64))
        ensures
            exists|now: u128|
                clock_says(old(self)@.origin, now) && #[trigger] old(self)@.acquires(
                    final(self)@,
                    key@,
                    now,
                    verdict,
                ),
    {
        let now: u128 = read_clock(&self.origin);
        self.try_acquire_at(key, now)
    }

    /// How many requests are allowed per window.
    pub fn max_requests(&self) -> (max_requests: u64)
        ensures
            max_requests == self@.limit,
    {
        self.max_requests
    }

    /// How long a window is.
    pub fn window(&self) -> (window: Duration)
        ensures
            duration_nanos(window) == self@.window,
    {
        self.window
    }

    /// How many keys are remembered.
    pub fn key_count(&self) -> (count: usize)
        ensures
            count == self@.table.len(),
    {
        count_keys(&self.windows)
    }

    /// How long it takes, from the given time on, until the key's window is over.
    pub fn time_until_reset_at(&self, key: &str, now: u128) -> (span: Duration)
        ensures
            duration_nanos(span) == self@.until_reset(key@, now),
    {
        if let Some(state) = get_state(&self.windows, key) {
            let elapsed: u128 = elapsed_between(state.at, now);
            let window: u128 = self.window.as_nanos();
            if elapsed < window {
                return span_of(window - elapsed);
            }
        }
        self.window
    }

    /// How long it takes until the key's window is over.
    pub fn time_until_reset(&self, key: &str) -> (span: Duration)
        ensures
            exists|now: u128|
                clock_says(self@.origin, now) && duration_nanos(span)
                    == #[trigger] self@.until_reset(key@, now),
    {
        let now: u128 = read_clock(&self.origin);
        self.time_until_reset_at(key, now)
    }

    /// How many more requests the key would be allowed at the given time.
    pub fn remaining_at(&self, key: &str, now: u128) -> (left: u64)
        ensures
            left == self@.left(key@, now),
    {
        if let Some(state) = get_state(&self.windows, key) {
            if elapsed_between(state.at, now) >= self.window.as_nanos() {
                return self.max_requests;
            }
            return self.max_requests.saturating_sub(state.level);
        }
        self.max_requests
    }
}

impl RateLimitAlgorithm for FixedWindow {
    fn check(&mut self, key: &str) -> (verdict: (bool, u64))
        ensures
            exists|now: u128|
                clock_says(old(self)@.origin, now) && #[trigger] old(self)@.acquires(
                    final(self)@,
                    key@,
                    now,
                    verdict,
                ),
    {
        self.try_acquire(key)
    }

    fn reset(&mut self, key: &str)
        ensures
            final(self)@ == (FixedWindowView {
                table: old(self)@.table.remove(key@),
                ..old(self)@
            }),
    {
        remove_key(&mut self.windows, key);
    }

    fn remaining(&mut self, key: &str) -> (left: u64)
        ensures
            final(self)@ == old(self)@,
            exists|now: u128|
                clock_says(old(self)@.origin, now) && left == #[trigger] old(self)@.left(key@, now),
    {
        let now: u128 = read_clock(&self.origin);
        self.remaining_at(key, now)
    }
}

} // verus!
