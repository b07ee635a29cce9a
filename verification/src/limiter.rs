//! The rate limiter: a store, an algorithm, and what a client is told.

use crate::algorithms::Algorithm;
use crate::config::{default_builder, ConfigView, RateLimitConfig, RateLimiterBuilder};
use crate::error::{RateLimitError, RateLimitResult};
use crate::stores::RateLimitStore;
use crate::time::{clock_read, duration_nanos, unix_time, NANOS_PER_MILLI, NANOS_PER_SEC};
use crate::tokens::{RefillRate, TokenArithmetic};
use std::marker::PhantomData;
use std::time::Duration;
use vstd::arithmetic::div_mod::{
    lemma_div_by_multiple, lemma_fundamental_div_mod, lemma_mod_bound, lemma_mod_multiples_basic,
};
use vstd::prelude::*;

verus! {

/// What a request came to.
#[derive(Clone, Copy, Debug)]
pub struct RateLimitCheckResult {
    /// Whether the request is allowed.
    pub allowed: bool,
    /// How many requests remain in the current window.
    pub remaining: u64,
    /// How many requests are allowed.
    pub limit: u64,
    /// When the limit resets, in seconds since the Unix epoch.
    pub reset_at: u64,
    /// How long to wait before trying again, where the request is denied.
    pub retry_after: Option<Duration>,
}

impl RateLimitCheckResult {
    /// The request is allowed.
    pub fn allowed(remaining: u64, limit: u64, reset_at: u64) -> (result: RateLimitCheckResult)
        ensures
            result == (RateLimitCheckResult {
                allowed: true,
                remaining,
                limit,
                reset_at,
                retry_after: None,
            }),
    {
        RateLimitCheckResult { allowed: true, remaining, limit, reset_at, retry_after: None }
    }

    /// The request is denied.
    pub fn denied(limit: u64, reset_at: u64, retry_after: Duration) -> (result:
        RateLimitCheckResult)
        ensures
            result == (RateLimitCheckResult {
                allowed: false,
                remaining: 0,
                limit,
                reset_at,
                retry_after: Some(retry_after),
            }),
    {
        RateLimitCheckResult {
            allowed: false,
            remaining: 0,
            limit,
            reset_at,
            retry_after: Some(retry_after),
        }
    }
}

/// The sum of two numbers of seconds, and the largest number where it is too large.
pub open spec fn saturated_sum(a: u64, b: u64) -> u64 {
    if a + b > u64::MAX {
        u64::MAX
    } else {
        (a + b) as u64
    }
}

/// The whole seconds of a span.
pub open spec fn whole_secs(span: Duration) -> nat {
    duration_nanos(span) / NANOS_PER_SEC as nat
}

/// The whole milliseconds of a span.
pub open spec fn whole_millis(span: Duration) -> nat {
    duration_nanos(span) / NANOS_PER_MILLI as nat
}

/// Whether a result says of a request that `verdict` allows or denies.
pub open spec fn tells(
    result: RateLimitCheckResult,
    verdict: (bool, u64),
    limit: u64,
    reset_at: u64,
) -> bool {
    &&& result.allowed == verdict.0
    &&& result.remaining == if verdict.0 {
        verdict.1
    } else {
        0
    }
    &&& result.limit == limit
    &&& result.reset_at == reset_at
    &&& result.retry_after is None == verdict.0
}

/// Whether a bucket is full at `reset_at`, if no requests are made from `now` on. A bucket that is
/// not refilled never is.
pub open spec fn full_at<A: TokenArithmetic>(
    capacity: u64,
    rate: RefillRate,
    now: Duration,
    reset_at: u64,
) -> bool {
    if rate.usable() {
        exists|secs: u64| #[trigger]
            call_ensures(A::seconds_to_fill, (capacity, rate), secs) && reset_at == saturated_sum(
                whole_secs(now) as u64,
                secs,
            )
    } else {
        reset_at == u64::MAX
    }
}

/// Whether `span` is how long the next token takes. In a bucket that is not refilled that is the
/// longest span of whole seconds.
pub open spec fn next_token_after<A: TokenArithmetic>(rate: RefillRate, span: Duration) -> bool {
    if rate.usable() {
        call_ensures(A::time_per_token, (rate,), span)
    } else {
        duration_nanos(span) == u64::MAX * NANOS_PER_SEC
    }
}

/// Whether `result` tells what a request at `now`, the time since the Unix epoch, came to under the
/// token bucket algorithm.
pub open spec fn bucket_told<A: TokenArithmetic>(
    result: RateLimitCheckResult,
    verdict: (bool, u64),
    capacity: u64,
    rate: RefillRate,
    now: Duration,
) -> bool {
    &&& tells(result, verdict, capacity, result.reset_at)
    &&& full_at::<A>(capacity, rate, now, result.reset_at)
    &&& !verdict.0 ==> next_token_after::<A>(rate, result.retry_after->0)
}

/// Whether `result` tells what a request at `now`, the time since the Unix epoch, came to under the
/// sliding window log algorithm: the limit resets after a window, and a denied client waits so long
/// at most.
pub open spec fn log_told(
    result: RateLimitCheckResult,
    verdict: (bool, u64),
    max_requests: u64,
    window: Duration,
    now: Duration,
) -> bool {
    &&& tells(
        result,
        verdict,
        max_requests,
        saturated_sum(whole_secs(now) as u64, whole_secs(window) as u64),
    )
    &&& !verdict.0 ==> result.retry_after == Some(window)
}

/// The end of the window that is current at a time, where windows follow one another from the Unix
/// epoch on; all in milliseconds.
pub open spec fn window_end(window_ms: nat, now_ms: nat) -> nat {
    let length = window_length(window_ms);
    (now_ms - now_ms % length + length) as nat
}

/// The length of a window: one millisecond at least.
pub open spec fn window_length(window_ms: nat) -> nat {
    if window_ms < 1 {
        1
    } else {
        window_ms
    }
}

/// Whether `result` tells what a request at `now`, the time since the Unix epoch, came to under the
/// fixed window algorithm, where it takes `left` until the key's window is over: the limit resets,
/// and a denied client waits, until then.
pub open spec fn key_window_told(
    result: RateLimitCheckResult,
    verdict: (bool, u64),
    max_requests: u64,
    left: Duration,
    now: Duration,
) -> bool {
    &&& tells(
        result,
        verdict,
        max_requests,
        ((duration_nanos(now) + duration_nanos(left)) / NANOS_PER_SEC as nat) as u64,
    )
    &&& !verdict.0 ==> result.retry_after == Some(left)
}

/// Whether `result` tells what a request at `now`, the time since the Unix epoch, came to under the
/// fixed window algorithm, where windows follow one another from the Unix epoch on: the limit
/// resets, and a denied client waits, until the window is over.
pub open spec fn window_told(
    result: RateLimitCheckResult,
    verdict: (bool, u64),
    max_requests: u64,
    window: Duration,
    now: Duration,
) -> bool {
    let end = window_end(whole_millis(window), whole_millis(now));
    &&& tells(result, verdict, max_requests, (end / 1000) as u64)
    &&& !verdict.0 ==> duration_nanos(result.retry_after->0) == ((end - whole_millis(now)) as u64)
        * NANOS_PER_MILLI
}

/// Tells what a request at `now`, the time since the Unix epoch, came to under the token bucket
/// algorithm.
pub fn token_bucket_result<A: TokenArithmetic>(
    verdict: (bool, u64),
    capacity: u64,
    refill_rate: RefillRate,
    now: Duration,
) -> (result: RateLimitCheckResult)
    ensures
        bucket_told::<A>(result, verdict, capacity, refill_rate, now),
{
    let now_secs: u64 = now.as_secs();
    let reset_at: u64 = if refill_rate.is_usable() {
        let secs: u64 = A::seconds_to_fill(capacity, refill_rate);
        assert(call_ensures(A::seconds_to_fill, (capacity, refill_rate), secs));
        now_secs.saturating_add(secs)
    } else {
        u64::MAX
    };
    if verdict.0 {
        RateLimitCheckResult::allowed(verdict.1, capacity, reset_at)
    } else {
        let retry_after = if refill_rate.is_usable() {
            A::time_per_token(refill_rate)
        } else {
            Duration::from_secs(u64::MAX)
        };
        RateLimitCheckResult::denied(capacity, reset_at, retry_after)
    }
}

/// Tells what a request at `now`, the time since the Unix epoch, came to under the sliding window
/// log algorithm.
pub fn sliding_window_result(
    verdict: (bool, u64),
    max_requests: u64,
    window: Duration,
    now: Duration,
) -> (result: RateLimitCheckResult)
    ensures
        log_told(result, verdict, max_requests, window, now),
{
    let reset_at: u64 = now.as_secs().saturating_add(window.as_secs());
    if verdict.0 {
        RateLimitCheckResult::allowed(verdict.1, max_requests, reset_at)
    } else {
        RateLimitCheckResult::denied(max_requests, reset_at, window)
    }
}

/// Tells what a request at `now`, the time since the Unix epoch, came to under the fixed window
/// algorithm, where it takes `left` until the key's window is over.
pub fn key_window_result(
    verdict: (bool, u64),
    max_requests: u64,
    left: Duration,
    now: Duration,
) -> (result: RateLimitCheckResult)
    ensures
        key_window_told(result, verdict, max_requests, left, now),
{
    let reset_at: u64 = ((now.as_nanos() + left.as_nanos()) / NANOS_PER_SEC) as u64;
    if verdict.0 {
        RateLimitCheckResult::allowed(verdict.1, max_requests, reset_at)
    } else {
        RateLimitCheckResult::denied(max_requests, reset_at, left)
    }
}

/// Tells what a request at `now`, the time since the Unix epoch, came to under the fixed window
/// algorithm, where windows follow one another from the Unix epoch on.
pub fn fixed_window_result(
    verdict: (bool, u64),
    max_requests: u64,
    window: Duration,
    now: Duration,
) -> (result: RateLimitCheckResult)
    ensures
        window_told(result, verdict, max_requests, window, now),
{
    let now_ms: u128 = now.as_millis();
    let whole_ms: u128 = window.as_millis();
    let window_ms: u128 = if whole_ms < 1 {
        1
    } else {
        whole_ms
    };
    proof {
        law_window_end(whole_ms as nat, now_ms as nat);
        assert((now_ms / window_ms + 1) * window_ms == window_end(whole_ms as nat, now_ms as nat));
    }
    let end_ms: u128 = (now_ms / window_ms + 1) * window_ms;
    let reset_at: u64 = (end_ms / 1000) as u64;
    if verdict.0 {
        RateLimitCheckResult::allowed(verdict.1, max_requests, reset_at)
    } else {
        let retry_after = Duration::from_millis((end_ms - now_ms) as u64);
        RateLimitCheckResult::denied(max_requests, reset_at, retry_after)
    }
}

/// The current window ends after the present, and no more than a window after it, where a whole
/// number of windows has passed since the Unix epoch; from then on it is the next window.
pub proof fn law_window_end(window_ms: nat, now_ms: nat)
    ensures
        now_ms < window_end(window_ms, now_ms) <= now_ms + window_length(window_ms),
        window_end(window_ms, now_ms) == (now_ms / window_length(window_ms) + 1) * window_length(
            window_ms,
        ),
        window_end(window_ms, now_ms) % window_length(window_ms) == 0,
        window_end(window_ms, now_ms) / window_length(window_ms) == now_ms / window_length(
            window_ms,
        ) + 1,
{
    let length = window_length(window_ms);
    lemma_fundamental_div_mod(now_ms as int, length as int);
    lemma_mod_bound(now_ms as int, length as int);
    assert((now_ms / length + 1) * length == length * (now_ms / length) + length)
        by (nonlinear_arith);
    lemma_mod_multiples_basic((now_ms / length + 1) as int, length as int);
    lemma_div_by_multiple((now_ms / length + 1) as int, length as int);
}

/// A client that a fixed window denied is never told to wait longer than a window, nor not at all,
/// where windows follow one another from the Unix epoch on. This is of windows of a millisecond at
/// least whose milliseconds fit in 64 bits.
pub proof fn law_fixed_window_retry_is_bounded(
    result: RateLimitCheckResult,
    verdict: (bool, u64),
    max_requests: u64,
    window: Duration,
    now: Duration,
)
    requires
        window_told(result, verdict, max_requests, window, now),
        !verdict.0,
        1 <= whole_millis(window) <= u64::MAX,
    ensures
        0 < duration_nanos(result.retry_after->0) <= duration_nanos(window),
{
    law_window_end(whole_millis(window), whole_millis(now));
    let wait = window_end(whole_millis(window), whole_millis(now)) - whole_millis(now);
    assert(0 < wait <= whole_millis(window));
    lemma_fundamental_div_mod(duration_nanos(window) as int, NANOS_PER_MILLI as int);
    assert(wait * NANOS_PER_MILLI <= whole_millis(window) * NANOS_PER_MILLI);
}

/// The limit never resets in the past. This is of resets that fit in 64 bits of seconds.
pub proof fn law_reset_is_not_in_the_past<A: TokenArithmetic>(
    algorithm: Algorithm,
    verdict: (bool, u64),
    left: Option<Duration>,
    now: Duration,
    result: RateLimitCheckResult,
)
    requires
        result_told::<A>(algorithm, verdict, left, now, result),
        whole_secs(now) <= u64::MAX,
        algorithm matches Algorithm::FixedWindow { window, .. } ==> (match left {
            Some(left) => (duration_nanos(now) + duration_nanos(left)) / NANOS_PER_SEC as nat,
            None => window_end(whole_millis(window), whole_millis(now)) / 1000,
        }) <= u64::MAX,
    ensures
        result.reset_at >= whole_secs(now),
{
    if let Algorithm::FixedWindow { window, .. } = algorithm {
        law_window_end(whole_millis(window), whole_millis(now));
        assert(whole_secs(now) == whole_millis(now) / 1000);
    }
}

/// A result tells how long to wait exactly where the request is denied, and then that none remain.
pub proof fn law_denied_results_say_when_to_retry<A: TokenArithmetic>(
    algorithm: Algorithm,
    verdict: (bool, u64),
    left: Option<Duration>,
    now: Duration,
    result: RateLimitCheckResult,
)
    requires
        result_told::<A>(algorithm, verdict, left, now, result),
    ensures
        result.allowed == verdict.0,
        result.retry_after is Some == !result.allowed,
        !result.allowed ==> result.remaining == 0,
        result.limit == algorithm.most(),
{
}

/// What a store says of a request: whether it is allowed and how many remain, and, where it knows,
/// how long it takes until the key's fixed window is over.
pub type StoreAnswer = ((bool, u64), Option<Duration>);

/// What a store says of a request, without how long a window takes.
pub open spec fn untimed(outcome: RateLimitResult<StoreAnswer>) -> RateLimitResult<(bool, u64)> {
    match outcome {
        Ok(answer) => Ok(answer.0),
        Err(error) => Err(error),
    }
}

/// Whether `answer` is what a limiter with a store of the given kind says of a request of the key,
/// where the store goes from `before` to `after`. A key that is never limited is allowed without
/// asking the store. An error of the store is passed on.
pub open spec fn answers<S: RateLimitStore, A: TokenArithmetic>(
    before: S,
    after: S,
    algorithm: Algorithm,
    bypass_keys: Seq<Seq<char>>,
    key: Seq<char>,
    answer: RateLimitResult<RateLimitCheckResult>,
) -> bool {
    if bypass_keys.contains(key) {
        after == before && exempt_answer(algorithm, answer)
    } else {
        exists|outcome: RateLimitResult<StoreAnswer>|
            #![trigger store_asked(before, after, algorithm, key, outcome)]
            store_asked(before, after, algorithm, key, outcome) && answer_told::<A>(
                algorithm,
                outcome,
                answer,
            )
    }
}

/// Whether `answer` is what is said of a request of a key that is never limited.
pub open spec fn exempt_answer(
    algorithm: Algorithm,
    answer: RateLimitResult<RateLimitCheckResult>,
) -> bool {
    answer is Ok && exists|now: Duration| #[trigger]
        unix_clock_says(now) && answer->Ok_0 == exempt_told(algorithm, now)
}

/// What is said of a request of a key that is never limited: the whole limit remains, and there is
/// nothing to wait for.
pub open spec fn exempt_told(algorithm: Algorithm, now: Duration) -> RateLimitCheckResult {
    RateLimitCheckResult {
        allowed: true,
        remaining: algorithm.most(),
        limit: algorithm.most(),
        reset_at: whole_secs(now) as u64,
        retry_after: None,
    }
}

/// Whether the store can go from `before` to `after` and return `outcome` when it is asked for a
/// request of the key under the algorithm.
pub open spec fn store_asked<S: RateLimitStore>(
    before: S,
    after: S,
    algorithm: Algorithm,
    key: Seq<char>,
    outcome: RateLimitResult<StoreAnswer>,
) -> bool {
    match algorithm {
        Algorithm::TokenBucket { capacity, refill_rate } => {
            &&& outcome is Ok ==> outcome->Ok_0.1 is None
            &&& S::bucket_checks(before, after, key, capacity, refill_rate, untimed(outcome))
        },
        Algorithm::SlidingWindowLog { max_requests, window } => {
            &&& outcome is Ok ==> outcome->Ok_0.1 is None
            &&& S::log_checks(before, after, key, max_requests, window, untimed(outcome))
        },
        Algorithm::FixedWindow { max_requests, window } => S::window_checks_until(
            before,
            after,
            key,
            max_requests,
            window,
            outcome,
        ),
    }
}

/// Whether `answer` is what is said of a request of which the store said `outcome`.
pub open spec fn answer_told<A: TokenArithmetic>(
    algorithm: Algorithm,
    outcome: RateLimitResult<StoreAnswer>,
    answer: RateLimitResult<RateLimitCheckResult>,
) -> bool {
    match outcome {
        Err(error) => answer == Err::<RateLimitCheckResult, RateLimitError>(error),
        Ok((verdict, left)) => answer is Ok && exists|now: Duration|
            unix_clock_says(now) && #[trigger] result_told::<A>(
                algorithm,
                verdict,
                left,
                now,
                answer->Ok_0,
            ),
    }
}

/// Whether `result` tells what a request at `now`, the time since the Unix epoch, came to.
pub open spec fn result_told<A: TokenArithmetic>(
    algorithm: Algorithm,
    verdict: (bool, u64),
    left: Option<Duration>,
    now: Duration,
    result: RateLimitCheckResult,
) -> bool {
    match algorithm {
        Algorithm::TokenBucket { capacity, refill_rate } => bucket_told::<A>(
            result,
            verdict,
            capacity,
            refill_rate,
            now,
        ),
        Algorithm::SlidingWindowLog { max_requests, window } => log_told(
            result,
            verdict,
            max_requests,
            window,
            now,
        ),
        Algorithm::FixedWindow { max_requests, window } => match left {
            Some(left) => key_window_told(result, verdict, max_requests, left, now),
            None => window_told(result, verdict, max_requests, window, now),
        },
    }
}

/// Tells what a request at `now`, the time since the Unix epoch, came to, where the store said
/// `verdict` and, if it knows, how long it takes until the key's fixed window is over.
pub fn check_result<A: TokenArithmetic>(
    algorithm: &Algorithm,
    verdict: (bool, u64),
    left: Option<Duration>,
    now: Duration,
) -> (result: RateLimitCheckResult)
    ensures
        result_told::<A>(*algorithm, verdict, left, now, result),
{
    match algorithm {
        Algorithm::TokenBucket { capacity, refill_rate } => token_bucket_result::<A>(
            verdict,
            *capacity,
            *refill_rate,
            now,
        ),
        Algorithm::SlidingWindowLog { max_requests, window } => sliding_window_result(
            verdict,
            *max_requests,
            *window,
            now,
        ),
        Algorithm::FixedWindow { max_requests, window } => match left {
            Some(left) => key_window_result(verdict, *max_requests, left, now),
            None => fixed_window_result(verdict, *max_requests, *window, now),
        },
    }
}

/// Asks a store for a request of the key under the algorithm.
pub fn ask_store<S: RateLimitStore>(store: &mut S, algorithm: &Algorithm, key: &str) -> (outcome:
    RateLimitResult<StoreAnswer>)
    ensures
        store_asked(*old(store), *final(store), *algorithm, key@, outcome),
{
    match algorithm {
        Algorithm::TokenBucket { capacity, refill_rate } => match store.token_bucket_check(
            key,
            *capacity,
            *refill_rate,
        ) {
            Ok(verdict) => Ok((verdict, None)),
            Err(error) => Err(error),
        },
        Algorithm::SlidingWindowLog { max_requests, window } => match store.sliding_window_check(
            key,
            *max_requests,
            *window,
        ) {
            Ok(verdict) => Ok((verdict, None)),
            Err(error) => Err(error),
        },
        Algorithm::FixedWindow { max_requests, window } => store.fixed_window_check_until(
            key,
            *max_requests,
            *window,
        ),
    }
}

/// Tells what a request at `now`, the time since the Unix epoch, came to, where the store said
/// `outcome`. An error of the store is passed on.
pub fn store_answered<A: TokenArithmetic>(
    algorithm: &Algorithm,
    outcome: RateLimitResult<StoreAnswer>,
    now: Duration,
) -> (answer: RateLimitResult<RateLimitCheckResult>)
    ensures
        match outcome {
            Err(error) => answer == Err::<RateLimitCheckResult, RateLimitError>(error),
            Ok((verdict, left)) => answer is Ok && result_told::<A>(
                *algorithm,
                verdict,
                left,
                now,
                answer->Ok_0,
            ),
        },
{
    match outcome {
        Ok((verdict, left)) => Ok(check_result::<A>(algorithm, verdict, left, now)),
        Err(error) => Err(error),
    }
}

/// Tells what a request at `now`, the time since the Unix epoch, of a key that is never limited
/// came to.
pub fn exempt_result(algorithm: &Algorithm, now: Duration) -> (result: RateLimitCheckResult)
    ensures
        result == exempt_told(*algorithm, now),
{
    RateLimitCheckResult::allowed(algorithm.limit(), algorithm.limit(), now.as_secs())
}

/// Whether `now` is a reading of the system clock, as a time since the Unix epoch: zero where the
/// clock stands before it.
pub open spec fn unix_clock_says(now: Duration) -> bool {
    exists|span: Option<Duration>| #[trigger]
        clock_read(span) && match span {
            Some(told) => now == told,
            None => duration_nanos(now) == 0,
        }
}

/// The time since the Unix epoch, and zero where the system clock stands before it.
pub fn unix_now() -> (now: Duration)
    ensures
        unix_clock_says(now),
{
    match unix_time() {
        Some(now) => now,
        None => Duration::from_secs(0),
    }
}

/// A rate limiter.
pub struct RateLimiter<S: RateLimitStore, A: TokenArithmetic> {
    store: S,
    algorithm: Algorithm,
    config: RateLimitConfig,
    arithmetic: PhantomData<A>,
}

impl<S: RateLimitStore, A: TokenArithmetic> RateLimiter<S, A> {
    /// The store.
    pub closed spec fn kept(self) -> S {
        self.store
    }

    /// The algorithm.
    pub closed spec fn rule(self) -> Algorithm {
        self.algorithm
    }

    /// The configuration.
    pub closed spec fn settings(self) -> ConfigView {
        self.config@
    }

    /// A builder with defaults for everything but the algorithm.
    pub fn builder() -> (builder: RateLimiterBuilder)
        ensures
            builder@ == default_builder(),
    {
        RateLimiterBuilder::new()
    }

    /// A limiter that keeps its state in the given store.
    pub fn new(store: S, algorithm: Algorithm, config: RateLimitConfig) -> (limiter: RateLimiter<
        S,
        A,
    >)
        ensures
            limiter.kept() == store,
            limiter.rule() == algorithm,
            limiter.settings() == config@,
    {
        RateLimiter { store, algorithm, config, arithmetic: PhantomData }
    }

    /// Asks for a request of the key. A key that is never limited is allowed without asking the
    /// store.
    pub fn check(&mut self, key: &str) -> (answer: RateLimitResult<RateLimitCheckResult>)
        ensures
            answers::<S, A>(
                old(self).kept(),
                final(self).kept(),
                old(self).rule(),
                old(self).settings().bypass_keys,
                key@,
                answer,
            ),
            final(self).rule() == old(self).rule(),
            final(self).settings() == old(self).settings(),
    {
        let algorithm = self.algorithm;
        if self.config.should_bypass(key) {
            let now = unix_now();
            let answer: RateLimitResult<RateLimitCheckResult> = Ok(exempt_result(&algorithm, now));
            assert(unix_clock_says(now) && answer->Ok_0 == exempt_told(algorithm, now));
            return answer;
        }
        let outcome = ask_store(&mut self.store, &algorithm, key);
        assert(store_asked(old(self).kept(), self.kept(), algorithm, key@, outcome));
        let now = unix_now();
        let answer = store_answered::<A>(&algorithm, outcome, now);
        assert(answer_told::<A>(algorithm, outcome, answer)) by {
            if let Ok((verdict, left)) = outcome {
                assert(unix_clock_says(now) && result_told::<A>(
                    algorithm,
                    verdict,
                    left,
                    now,
                    answer->Ok_0,
                ));
            }
        }
        answer
    }

    /// The algorithm.
    pub fn algorithm(&self) -> (algorithm: &Algorithm)
        ensures
            *algorithm == self.rule(),
    {
        &self.algorithm
    }

    /// The configuration.
    pub fn config(&self) -> (config: &RateLimitConfig)
        ensures
            config@ == self.settings(),
    {
        &self.config
    }

    /// Forgets what the key has used up.
    pub fn reset(&mut self, key: &str) -> (outcome: RateLimitResult<()>)
        ensures
            S::resets(old(self).kept(), final(self).kept(), key@, outcome),
            final(self).rule() == old(self).rule(),
            final(self).settings() == old(self).settings(),
    {
        self.store.reset(key)
    }
}

} // verus!
