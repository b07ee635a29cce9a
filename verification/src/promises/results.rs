//! Results: when a limit resets, how long a denied client waits, and what the limiter asks of its
//! store.

use crate::algorithms::token_bucket::{bucket_met, bucket_refilled, bucket_step, token_spent};
use crate::algorithms::Algorithm;
use crate::error::{RateLimitError, RateLimitResult};
use crate::limiter::{
    answer_told, answers, exempt_told, law_window_end, result_told, store_asked, unix_clock_says,
    untimed, whole_millis, window_end, RateLimitCheckResult, StoreAnswer,
};
use crate::stores::{MemoryStore, RateLimitStore};
use crate::table::{look_up, KeyView};
use crate::time::{clock_read, clock_says, duration_nanos};
use crate::tokens::{RefillRate, TokenArithmetic};
use std::time::Duration;
use vstd::prelude::*;

verus! {

/// A result says what the store said: whether the request is allowed, and how many remain, which is
/// none where it is denied. It tells the limit of the algorithm, and how long to wait exactly where
/// the request is denied.
pub proof fn law_result_says_what_the_store_said<A: TokenArithmetic>(
    algorithm: Algorithm,
    verdict: (bool, u64),
    left: Option<Duration>,
    now: Duration,
    result: RateLimitCheckResult,
)
    requires
        result_told::<A>(algorithm, verdict, left, now, result),
    ensures
        result.allowed == verdict.0,
        verdict.0 ==> result.remaining == verdict.1 && result.retry_after is None,
        !verdict.0 ==> result.remaining == 0 && result.retry_after is Some,
        algorithm matches Algorithm::TokenBucket { capacity, .. } ==> result.limit == capacity,
        algorithm matches Algorithm::SlidingWindowLog { max_requests, .. } ==> result.limit
            == max_requests,
        algorithm matches Algorithm::FixedWindow { max_requests, .. } ==> result.limit
            == max_requests,
{
}

/// Under a token bucket the limit resets after the whole seconds that the bucket takes to fill, and
/// a denied client waits for one token. A bucket that is never refilled never resets.
pub proof fn law_bucket_resets_when_it_is_full<A: TokenArithmetic>(
    capacity: u64,
    rate: RefillRate,
    verdict: (bool, u64),
    left: Option<Duration>,
    now: Duration,
    result: RateLimitCheckResult,
)
    requires
        result_told::<A>(
            Algorithm::TokenBucket { capacity, refill_rate: rate },
            verdict,
            left,
            now,
            result,
        ),
        duration_nanos(now) / 1_000_000_000 <= u64::MAX,
    ensures
        rate.bits != 0 && rate.bits < 0x7ff0_0000_0000_0000 ==> exists|secs: u64| #[trigger]
            call_ensures(A::seconds_to_fill, (capacity, rate), secs) && (if duration_nanos(now)
                / 1_000_000_000 + secs <= u64::MAX {
                result.reset_at == duration_nanos(now) / 1_000_000_000 + secs
            } else {
                result.reset_at == u64::MAX
            }),
        rate.bits != 0 && rate.bits < 0x7ff0_0000_0000_0000 && !verdict.0 ==> call_ensures(
            A::time_per_token,
            (rate,),
            result.retry_after->0,
        ),
        !(rate.bits != 0 && rate.bits < 0x7ff0_0000_0000_0000) ==> result.reset_at == u64::MAX,
        !(rate.bits != 0 && rate.bits < 0x7ff0_0000_0000_0000) && !verdict.0 ==> duration_nanos(
            result.retry_after->0,
        ) == u64::MAX * 1_000_000_000,
{
}

/// Under a sliding window the limit resets after a window, in whole seconds, and a denied client
/// waits for a window.
pub proof fn law_sliding_window_resets_after_a_window<A: TokenArithmetic>(
    max_requests: u64,
    window: Duration,
    verdict: (bool, u64),
    left: Option<Duration>,
    now: Duration,
    result: RateLimitCheckResult,
)
    requires
        result_told::<A>(
            Algorithm::SlidingWindowLog { max_requests, window },
            verdict,
            left,
            now,
            result,
        ),
        duration_nanos(now) / 1_000_000_000 <= u64::MAX,
        duration_nanos(window) / 1_000_000_000 <= u64::MAX,
    ensures
        duration_nanos(now) / 1_000_000_000 + duration_nanos(window) / 1_000_000_000 <= u64::MAX
            ==> result.reset_at == duration_nanos(now) / 1_000_000_000 + duration_nanos(window)
            / 1_000_000_000,
        duration_nanos(now) / 1_000_000_000 + duration_nanos(window) / 1_000_000_000 > u64::MAX
            ==> result.reset_at == u64::MAX,
        !verdict.0 ==> result.retry_after == Some(window),
{
}

/// Under a fixed window whose end the store knows, the limit resets, and a denied client waits,
/// until then.
pub proof fn law_fixed_window_resets_at_the_known_end<A: TokenArithmetic>(
    max_requests: u64,
    window: Duration,
    verdict: (bool, u64),
    left: Duration,
    now: Duration,
    result: RateLimitCheckResult,
)
    requires
        result_told::<A>(
            Algorithm::FixedWindow { max_requests, window },
            verdict,
            Some(left),
            now,
            result,
        ),
        duration_nanos(now) + duration_nanos(left) < 0x1_0000_0000_0000_0000 * 1_000_000_000,
    ensures
        result.reset_at * 1_000_000_000 <= duration_nanos(now) + duration_nanos(left) < (
        result.reset_at + 1) * 1_000_000_000,
        !verdict.0 ==> result.retry_after == Some(left),
{
}

/// Under fixed windows that follow one another from the Unix epoch on, the limit resets, and a
/// denied client waits, until the end of the present one: the first time after now, in whole
/// milliseconds, that is a multiple of the window. A window under a millisecond counts as one. That
/// time is handed back, with the multiple.
pub proof fn law_fixed_window_resets_at_the_next_multiple<A: TokenArithmetic>(
    max_requests: u64,
    window: Duration,
    verdict: (bool, u64),
    now: Duration,
    result: RateLimitCheckResult,
) -> (end: (int, int))
    requires
        result_told::<A>(
            Algorithm::FixedWindow { max_requests, window },
            verdict,
            None,
            now,
            result,
        ),
        duration_nanos(window) <= u64::MAX * 1_000_000,
        duration_nanos(now) + duration_nanos(window) < u64::MAX * 1_000_000_000,
    ensures
        duration_nanos(window) >= 1_000_000 ==> end.0 == end.1 * (duration_nanos(window)
            / 1_000_000),
        duration_nanos(window) >= 1_000_000 ==> end.0 <= duration_nanos(now) / 1_000_000
            + duration_nanos(window) / 1_000_000,
        duration_nanos(window) < 1_000_000 ==> end.0 == duration_nanos(now) / 1_000_000 + 1,
        duration_nanos(now) / 1_000_000 < end.0,
        result.reset_at == end.0 / 1000,
        !verdict.0 ==> duration_nanos(result.retry_after->0) == (end.0 - duration_nanos(now)
            / 1_000_000) * 1_000_000,
{
    let window_ms = whole_millis(window);
    let now_ms = whole_millis(now);
    law_window_end(window_ms, now_ms);
    let end = window_end(window_ms, now_ms);
    if window_ms == 0 {
        (end as int, end as int)
    } else {
        (end as int, (now_ms / window_ms + 1) as int)
    }
}

/// A key that is never limited is told that all of the limit remain, and that it resets now.
pub proof fn law_exempt_keys_are_told_the_whole_limit(algorithm: Algorithm, now: Duration)
    requires
        duration_nanos(now) / 1_000_000_000 <= u64::MAX,
    ensures
        ({
            let result = exempt_told(algorithm, now);
            &&& result.allowed
            &&& result.remaining == result.limit
            &&& result.reset_at == duration_nanos(now) / 1_000_000_000
            &&& result.retry_after is None
            &&& algorithm matches Algorithm::TokenBucket { capacity, .. } ==> result.limit
                == capacity
            &&& algorithm matches Algorithm::SlidingWindowLog { max_requests, .. } ==> result.limit
                == max_requests
            &&& algorithm matches Algorithm::FixedWindow { max_requests, .. } ==> result.limit
                == max_requests
        }),
{
}

/// Whether a key is not in a list.
pub open spec fn not_listed(keys: Seq<Seq<char>>, key: Seq<char>) -> bool {
    forall|i: int| 0 <= i < keys.len() ==> #[trigger] keys[i] != key
}

/// A limiter asks its store once, for the very key and with the very numbers of its algorithm, and
/// tells what the store said as of the time that the system clock said; an error is passed on as it
/// is. What the store said is handed back.
pub proof fn law_store_is_asked_for_the_key<S: RateLimitStore, A: TokenArithmetic>(
    before: S,
    after: S,
    algorithm: Algorithm,
    bypass_keys: Seq<Seq<char>>,
    key: Seq<char>,
    answer: RateLimitResult<RateLimitCheckResult>,
) -> (outcome: RateLimitResult<StoreAnswer>)
    requires
        answers::<S, A>(before, after, algorithm, bypass_keys, key, answer),
        not_listed(bypass_keys, key),
    ensures
        algorithm matches Algorithm::TokenBucket { capacity, refill_rate } ==> S::bucket_checks(
            before,
            after,
            key,
            capacity,
            refill_rate,
            untimed(outcome),
        ),
        algorithm matches Algorithm::SlidingWindowLog { max_requests, window } ==> S::log_checks(
            before,
            after,
            key,
            max_requests,
            window,
            untimed(outcome),
        ),
        algorithm matches Algorithm::FixedWindow { max_requests, window }
            ==> S::window_checks_until(before, after, key, max_requests, window, outcome),
        outcome is Err ==> answer == Err::<RateLimitCheckResult, RateLimitError>(outcome->Err_0),
        outcome is Ok ==> answer is Ok && answer->Ok_0.allowed == outcome->Ok_0.0.0 && exists|
            now: Duration|
            unix_clock_says(now) && #[trigger] result_told::<A>(
                algorithm,
                outcome->Ok_0.0,
                outcome->Ok_0.1,
                now,
                answer->Ok_0,
            ),
{
    let outcome = choose|outcome: RateLimitResult<StoreAnswer>|
        #![trigger store_asked(before, after, algorithm, key, outcome)]
        store_asked(before, after, algorithm, key, outcome) && answer_told::<A>(
            algorithm,
            outcome,
            answer,
        );
    assert(store_asked(before, after, algorithm, key, outcome));
    outcome
}

/// A limiter with a store in memory that goes by fixed windows says of a request what the store
/// makes of it at the time that the clock says, for the very key, limit and length: what remains,
/// and how long the key's window still takes. That time is handed back.
pub proof fn law_limiter_goes_by_fixed_windows<A: TokenArithmetic>(
    before: MemoryStore<A>,
    after: MemoryStore<A>,
    max_requests: u64,
    window: Duration,
    bypass_keys: Seq<Seq<char>>,
    key: Seq<char>,
    answer: RateLimitResult<RateLimitCheckResult>,
) -> (now: u128)
    requires
        answers::<MemoryStore<A>, A>(
            before,
            after,
            Algorithm::FixedWindow { max_requests, window },
            bypass_keys,
            key,
            answer,
        ),
        not_listed(bypass_keys, key),
    ensures
        clock_says(before@.origin, now),
        answer is Ok,
        ({
            let (view, verdict) = before@.window_step(
                key,
                max_requests,
                duration_nanos(window),
                now,
            );
            &&& after@ == view
            &&& answer->Ok_0.allowed == verdict.0
            &&& answer->Ok_0.remaining == verdict.1
            &&& answer->Ok_0.limit == max_requests
            &&& verdict.0 ==> answer->Ok_0.retry_after is None
            &&& !verdict.0 ==> answer->Ok_0.retry_after is Some && duration_nanos(
                answer->Ok_0.retry_after->0,
            ) == view.window_left(key, duration_nanos(window), now)
        }),
{
    let algorithm = Algorithm::FixedWindow { max_requests, window };
    let told = law_store_is_asked_for_the_key::<MemoryStore<A>, A>(
        before,
        after,
        algorithm,
        bypass_keys,
        key,
        answer,
    );
    choose|now: u128|
        clock_says(before@.origin, now) && (after@, told->Ok_0.0) == #[trigger] before@.window_step(
            key,
            max_requests,
            duration_nanos(window),
            now,
        ) && duration_nanos(told->Ok_0.1->0) == after@.window_left(
            key,
            duration_nanos(window),
            now,
        )
}

/// A limiter with a store in memory that goes by sliding windows says of a request what the store
/// makes of it at the time that the clock says, for the very key, limit and length. That time is
/// handed back.
pub proof fn law_limiter_goes_by_sliding_windows<A: TokenArithmetic>(
    before: MemoryStore<A>,
    after: MemoryStore<A>,
    max_requests: u64,
    window: Duration,
    bypass_keys: Seq<Seq<char>>,
    key: Seq<char>,
    answer: RateLimitResult<RateLimitCheckResult>,
) -> (now: u128)
    requires
        answers::<MemoryStore<A>, A>(
            before,
            after,
            Algorithm::SlidingWindowLog { max_requests, window },
            bypass_keys,
            key,
            answer,
        ),
        not_listed(bypass_keys, key),
    ensures
        clock_says(before@.origin, now),
        answer is Ok,
        (after@, (answer->Ok_0.allowed, answer->Ok_0.remaining)) == before@.log_step(
            key,
            max_requests,
            duration_nanos(window),
            now,
        ),
        answer->Ok_0.limit == max_requests,
        answer->Ok_0.allowed ==> answer->Ok_0.retry_after is None,
        !answer->Ok_0.allowed ==> answer->Ok_0.retry_after == Some(window),
{
    let algorithm = Algorithm::SlidingWindowLog { max_requests, window };
    let told = law_store_is_asked_for_the_key::<MemoryStore<A>, A>(
        before,
        after,
        algorithm,
        bypass_keys,
        key,
        answer,
    );
    choose|now: u128|
        clock_says(before@.origin, now) && (after@, told->Ok_0.0) == #[trigger] before@.log_step(
            key,
            max_requests,
            duration_nanos(window),
            now,
        )
}

/// A limiter with a store in memory that goes by token buckets says of a request what the store
/// makes of it at the time that the clock says, for the very key, capacity and rate. That time is
/// handed back.
pub proof fn law_limiter_goes_by_token_buckets<A: TokenArithmetic>(
    before: MemoryStore<A>,
    after: MemoryStore<A>,
    capacity: u64,
    rate: RefillRate,
    bypass_keys: Seq<Seq<char>>,
    key: Seq<char>,
    answer: RateLimitResult<RateLimitCheckResult>,
) -> (now: u128)
    requires
        answers::<MemoryStore<A>, A>(
            before,
            after,
            Algorithm::TokenBucket { capacity, refill_rate: rate },
            bypass_keys,
            key,
            answer,
        ),
        not_listed(bypass_keys, key),
    ensures
        clock_says(before@.origin, now),
        answer is Ok,
        before@.takes_token::<A>(
            after@,
            key,
            capacity,
            rate,
            now,
            (answer->Ok_0.allowed, answer->Ok_0.remaining),
        ),
        answer->Ok_0.limit == capacity,
        answer->Ok_0.retry_after is None == answer->Ok_0.allowed,
{
    let algorithm = Algorithm::TokenBucket { capacity, refill_rate: rate };
    let told = law_store_is_asked_for_the_key::<MemoryStore<A>, A>(
        before,
        after,
        algorithm,
        bypass_keys,
        key,
        answer,
    );
    let now = choose|now: u128|
        clock_says(before@.origin, now) && #[trigger] before@.takes_token::<A>(
            after@,
            key,
            capacity,
            rate,
            now,
            told->Ok_0.0,
        );
    let verdict = told->Ok_0.0;
    let state = after@.buckets[key];
    let met = choose|met: KeyView|
        #![trigger bucket_met::<A>(look_up(before@.buckets, key), capacity, now, met)]
        bucket_met::<A>(look_up(before@.buckets, key), capacity, now, met) && bucket_step::<A>(
            met,
            capacity,
            rate,
            now,
            state,
            verdict,
        );
    let refilled = choose|refilled: KeyView|
        #![trigger token_spent::<A>(refilled, state, verdict)]
        bucket_refilled::<A>(met, capacity, rate, now, refilled) && token_spent::<A>(
            refilled,
            state,
            verdict,
        );
    assert(token_spent::<A>(refilled, state, verdict));
    assert(verdict == (answer->Ok_0.allowed, answer->Ok_0.remaining));
    now
}

/// The time since the Unix epoch is what the system clock was read as, and zero where that lies
/// before the epoch.
pub proof fn law_unix_time_is_what_the_clock_says(now: Duration) -> (span: Option<Duration>)
    requires
        unix_clock_says(now),
    ensures
        clock_read(span),
        span is Some ==> now == span->0,
        span is None ==> duration_nanos(now) == 0,
{
    choose|span: Option<Duration>| #[trigger]
        clock_read(span) && match span {
            Some(told) => now == told,
            None => duration_nanos(now) == 0,
        }
}

} // verus!
