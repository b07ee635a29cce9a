//! What holds of the store in memory, and of a limiter that uses it.

use super::memory::{cleaned_table, live_count, MemoryStore, MemoryView};
use super::RateLimitStore;
use crate::algorithms::fixed_window::window_over;
use crate::algorithms::laws::{
    ascending, counts_exactly, fixed_run, law_fixed_window_allows_limit,
    law_sliding_window_never_exceeds_limit, law_sliding_window_tells_what_remains,
    law_token_is_whole, lemma_one_at_once, recent_count, sliding_run,
};
use crate::algorithms::rates::{
    law_token_bucket_remaining_is_below_capacity, lemma_bound_grows, lemma_first_bound,
    lemma_rate_step, Measure,
};
use crate::algorithms::runs::{allowed_of, in_order, times_of, Asked};
use crate::algorithms::sliding_window::live_part;
use crate::algorithms::token_bucket::{bucket_met, bucket_refilled, bucket_step, token_spent};
use crate::algorithms::Algorithm;
use crate::config::fault;
use crate::error::RateLimitResult;
use crate::limiter::{
    answer_told, answers, result_told, store_asked, RateLimitCheckResult, StoreAnswer,
};
use crate::table::{
    fresh_part, is_fresh, look_up, not_after, stamp, Age, KeyView, TableView,
};
use crate::time::{clock_says, duration_nanos, elapsed_nanos};
use crate::tokens::{holds_token, whole_part, RefillRate, TokenArithmetic};
use std::time::Duration;
use vstd::prelude::*;

verus! {

/// After a cleanup, no algorithm has more keys than the cap.
pub proof fn law_cleanup_enforces_cap(before: MemoryView, after: MemoryView, now: u128, max: usize)
    requires
        before.cleaned(after, now),
        before.max_keys == Some(max),
    ensures
        after.buckets.len() <= max,
        after.logs.len() <= max,
        after.windows.len() <= max,
{
}

/// What of a table a cleanup keeps: only keys that are not idle, as they were; all of those where
/// they are no more than the cap; and none that is older than one that it forgets.
pub open spec fn kept_rightly(
    before: TableView,
    after: TableView,
    idle_by: Age,
    now: u128,
    ttl: u128,
    order_by: Age,
    max_keys: Option<usize>,
) -> bool {
    &&& forall|key: Seq<char>| #[trigger]
        after.contains_key(key) ==> before.contains_key(key) && is_fresh(
            before[key],
            idle_by,
            now,
            ttl,
        ) && after[key] == before[key]
    &&& (max_keys is None || fresh_part(before, idle_by, now, ttl).len() <= max_keys->0)
        ==> forall|key: Seq<char>| #[trigger]
        before.contains_key(key) && is_fresh(before[key], idle_by, now, ttl)
            ==> after.contains_key(key)
    &&& forall|gone: Seq<char>, kept: Seq<char>|
        #![trigger before.contains_key(gone), after.contains_key(kept)]
        before.contains_key(gone) && is_fresh(before[gone], idle_by, now, ttl)
            && !after.contains_key(gone) && after.contains_key(kept) ==> not_after(
            stamp(before[gone], order_by),
            stamp(before[kept], order_by),
        )
}

/// A cleanup forgets every idle key: a bucket or a fixed window whose last request lies the idle
/// time back, and a log without entries or whose last request does. It forgets keys that are not
/// idle only to enforce the cap, and then the oldest ones: by their last request, by the start of
/// the window, by the last allowed request.
pub proof fn law_cleanup_keeps_active_keys(before: MemoryView, after: MemoryView, now: u128)
    requires
        before.cleaned(after, now),
    ensures
        ({
            let ttl = before.idle_ttl as u128;
            let max = before.max_keys;
            &&& kept_rightly(before.buckets, after.buckets, Age::Mark, now, ttl, Age::Mark, max)
            &&& kept_rightly(before.logs, after.logs, Age::SeenLog, now, ttl, Age::Log, max)
            &&& kept_rightly(before.windows, after.windows, Age::Seen, now, ttl, Age::Mark, max)
        }),
{
    let ttl = before.idle_ttl as u128;
    let max = before.max_keys;
    lemma_kept_rightly(before.buckets, after.buckets, Age::Mark, now, ttl, Age::Mark, max);
    lemma_kept_rightly(before.logs, after.logs, Age::SeenLog, now, ttl, Age::Log, max);
    lemma_kept_rightly(before.windows, after.windows, Age::Seen, now, ttl, Age::Mark, max);
}

/// The same, for one table.
proof fn lemma_kept_rightly(
    before: TableView,
    after: TableView,
    idle_by: Age,
    now: u128,
    ttl: u128,
    order_by: Age,
    max_keys: Option<usize>,
)
    requires
        cleaned_table(before, after, idle_by, now, ttl, order_by, max_keys),
    ensures
        kept_rightly(before, after, idle_by, now, ttl, order_by, max_keys),
{
    let fresh = fresh_part(before, idle_by, now, ttl);
    assert forall|key: Seq<char>| #[trigger] after.contains_key(key) implies before.contains_key(
        key,
    ) && is_fresh(before[key], idle_by, now, ttl) && after[key] == before[key] by {
        assert(fresh.dom().contains(key));
    }
    if max_keys is None || fresh.len() <= max_keys->0 {
        if max_keys is Some {
            vstd::set_lib::lemma_subset_equality(after.dom(), fresh.dom());
        }
        assert forall|key: Seq<char>| #[trigger]
            before.contains_key(key) && is_fresh(
                before[key],
                idle_by,
                now,
                ttl,
            ) implies after.contains_key(key) by {
            assert(fresh.contains_key(key));
            assert(after.dom().contains(key));
        }
    }
    assert forall|gone: Seq<char>, kept: Seq<char>|
        #![trigger before.contains_key(gone), after.contains_key(kept)]
        before.contains_key(gone) && is_fresh(before[gone], idle_by, now, ttl)
            && !after.contains_key(gone) && after.contains_key(kept) implies not_after(
        stamp(before[gone], order_by),
        stamp(before[kept], order_by),
    ) by {
        assert(fresh.contains_key(gone));
        assert(fresh.contains_key(kept)) by {
            assert(fresh.dom().contains(kept));
        }
    }
}

/// A cleanup never forgets a key that asked less than the idle time ago, where its algorithm has no
/// more keys than the cap; and what the key used up still counts.
pub proof fn law_cleanup_spares_recent_windows(
    before: MemoryView,
    after: MemoryView,
    key: Seq<char>,
    now: u128,
)
    requires
        before.cleaned(after, now),
        before.windows.contains_key(key),
        elapsed_nanos(before.windows[key].seen, now) < before.idle_ttl as u128,
        before.max_keys is None || fresh_part(
            before.windows,
            Age::Seen,
            now,
            before.idle_ttl as u128,
        ).len() <= before.max_keys->0,
    ensures
        look_up(after.windows, key) == look_up(before.windows, key),
{
    law_cleanup_keeps_active_keys(before, after, now);
    assert(is_fresh(before.windows[key], Age::Seen, now, before.idle_ttl as u128));
    assert(before.windows.contains_key(key) && after.windows.contains_key(key));
}

/// A key that was reset is as if it had never made a request: nothing of it is left, and other keys
/// are untouched.
pub proof fn law_store_reset_forgets_key(before: MemoryView, key: Seq<char>, other: Seq<char>)
    requires
        other != key,
    ensures
        look_up(before.without(key).buckets, key) is None,
        look_up(before.without(key).logs, key) is None,
        look_up(before.without(key).windows, key) is None,
        look_up(before.without(key).buckets, other) == look_up(before.buckets, other),
        look_up(before.without(key).logs, other) == look_up(before.logs, other),
        look_up(before.without(key).windows, other) == look_up(before.windows, other),
{
}

/// A key that was reset has its whole limit again under the window algorithms.
pub proof fn law_store_reset_restores_limit(
    before: MemoryView,
    key: Seq<char>,
    limit: u64,
    window: nat,
    now: u128,
)
    requires
        limit > 0,
        window > 0,
    ensures
        before.without(key).log_step(key, limit, window, now).1 == (true, (limit - 1) as u64),
        before.without(key).window_step(key, limit, window, now).1 == (true, (limit - 1) as u64),
{
}

/// A request of one key leaves what the store remembers of every other key as it was, and what the
/// request comes to depends on what the store remembers of its own key alone.
pub proof fn law_store_keys_are_independent(
    a: MemoryView,
    b: MemoryView,
    key: Seq<char>,
    other: Seq<char>,
    limit: u64,
    window: nat,
    now: u128,
)
    requires
        other != key,
        look_up(a.logs, key) == look_up(b.logs, key),
        look_up(a.windows, key) == look_up(b.windows, key),
    ensures
        a.log_step(key, limit, window, now).1 == b.log_step(key, limit, window, now).1,
        a.window_step(key, limit, window, now).1 == b.window_step(key, limit, window, now).1,
        look_up(a.log_step(key, limit, window, now).0.logs, other) == look_up(a.logs, other),
        look_up(a.window_step(key, limit, window, now).0.windows, other) == look_up(
            a.windows,
            other,
        ),
{
}

/// The same for token buckets: other keys keep their buckets.
pub proof fn law_store_buckets_are_independent<A: TokenArithmetic>(
    before: MemoryView,
    after: MemoryView,
    key: Seq<char>,
    other: Seq<char>,
    capacity: u64,
    rate: RefillRate,
    now: u128,
    verdict: (bool, u64),
)
    requires
        other != key,
        before.takes_token::<A>(after, key, capacity, rate, now, verdict),
    ensures
        look_up(after.buckets, other) == look_up(before.buckets, other),
        after.logs == before.logs,
        after.windows == before.windows,
{
}

/// After a request against a fixed window, as many requests remain at that time as the verdict
/// said, unless the key has a token bucket as well.
pub proof fn law_store_fixed_remaining_agrees(
    before: MemoryView,
    key: Seq<char>,
    limit: u64,
    window: nat,
    now: u128,
)
    requires
        0 < window <= u128::MAX,
        !before.buckets.contains_key(key),
    ensures
        before.window_step(key, limit, window, now).0.left(key, now) == before.window_step(
            key,
            limit,
            window,
            now,
        ).1.1,
{
}

/// After a request under the token bucket algorithm, as many requests remain as the verdict said.
pub proof fn law_store_bucket_remaining_agrees<A: TokenArithmetic>(
    before: MemoryView,
    after: MemoryView,
    key: Seq<char>,
    capacity: u64,
    rate: RefillRate,
    now: u128,
    verdict: (bool, u64),
)
    requires
        before.takes_token::<A>(after, key, capacity, rate, now, verdict),
    ensures
        after.left(key, now) == verdict.1,
{
    let state = after.buckets[key];
    let met = choose|met: KeyView|
        #![trigger bucket_met::<A>(look_up(before.buckets, key), capacity, now, met)]
        bucket_met::<A>(look_up(before.buckets, key), capacity, now, met) && bucket_step::<A>(
            met,
            capacity,
            rate,
            now,
            state,
            verdict,
        );
    let refilled = choose|refilled: KeyView|
        #![trigger token_spent::<A>(refilled, state, verdict)]
        bucket_refilled::<A>(met, capacity, rate, now, refilled) && token_spent::<A>(
            refilled,
            state,
            verdict,
        );
    assert(token_spent::<A>(refilled, state, verdict));
    law_token_is_whole(refilled.level);
    assert(after.buckets.contains_key(key));
}

/// After a request against a sliding window in whose log times never go back, as many requests
/// remain at that time as the verdict said, unless a logged time lies a whole window back to the
/// nanosecond: such a request still counts when the next one is asked for, but not here.
pub proof fn law_store_sliding_remaining_agrees(
    before: MemoryView,
    key: Seq<char>,
    limit: u64,
    window: nat,
    now: u128,
)
    requires
        0 < window <= u128::MAX,
        !before.buckets.contains_key(key),
        !before.windows.contains_key(key),
        forall|i: int, j: int|
            0 <= i <= j < before.log_met(key, limit, window).log.len() ==> before.log_met(
                key,
                limit,
                window,
            ).log[i] <= before.log_met(key, limit, window).log[j],
        forall|i: int|
            0 <= i < before.log_met(key, limit, window).log.len() ==> elapsed_nanos(
                #[trigger] before.log_met(key, limit, window).log[i],
                now,
            ) != window,
    ensures
        before.log_step(key, limit, window, now).0.left(key, now) == before.log_step(
            key,
            limit,
            window,
            now,
        ).1.1,
{
    let log = before.log_met(key, limit, window).log;
    let live = live_part(log, window, now);
    lemma_live_all_count(log, window as u128, now);
    if live.len() < limit {
        assert(live.push(now).drop_last() =~= live);
    }
}

/// Of a log in whose order times never go back, the live part counts in full, unless a time lies a
/// whole window back.
proof fn lemma_live_all_count(log: Seq<u128>, window: u128, now: u128)
    requires
        forall|i: int, j: int| 0 <= i <= j < log.len() ==> log[i] <= log[j],
        forall|i: int| 0 <= i < log.len() ==> elapsed_nanos(#[trigger] log[i], now) != window,
    ensures
        live_count(live_part(log, window as nat, now), window, now) == live_part(
            log,
            window as nat,
            now,
        ).len(),
    decreases log.len(),
{
    if log.len() > 0 && elapsed_nanos(log.first(), now) > window {
        let rest = log.drop_first();
        assert forall|i: int, j: int| 0 <= i <= j < rest.len() implies rest[i] <= rest[j] by {
            assert(rest[i] == log[i + 1] && rest[j] == log[j + 1]);
        }
        assert forall|i: int| 0 <= i < rest.len() implies elapsed_nanos(#[trigger] rest[i], now)
            != window by {
            assert(rest[i] == log[i + 1]);
        }
        lemma_live_all_count(rest, window, now);
    } else {
        assert forall|i: int| 0 <= i < log.len() implies elapsed_nanos(#[trigger] log[i], now)
            < window by {
            assert(log[0] <= log[i]);
        }
        lemma_all_count(log, window, now);
    }
}

/// Times that all lie less than a window back all count.
proof fn lemma_all_count(log: Seq<u128>, window: u128, now: u128)
    requires
        forall|i: int| 0 <= i < log.len() ==> elapsed_nanos(#[trigger] log[i], now) < window,
    ensures
        live_count(log, window, now) == log.len(),
    decreases log.len(),
{
    if log.len() > 0 {
        let rest = log.drop_last();
        assert forall|i: int| 0 <= i < rest.len() implies elapsed_nanos(#[trigger] rest[i], now)
            < window by {
            assert(rest[i] == log[i]);
        }
        lemma_all_count(rest, window, now);
    }
}

/// Requests of one key against a sliding window of the store, one after the other: the store after
/// them, and the times of those that were allowed.
pub open spec fn log_run(
    before: MemoryView,
    key: Seq<char>,
    times: Seq<u128>,
    limit: u64,
    window: nat,
) -> (MemoryView, Seq<u128>)
    decreases times.len(),
{
    if times.len() == 0 {
        (before, Seq::empty())
    } else {
        let (mid, allowed) = log_run(before, key, times.drop_last(), limit, window);
        let (after, verdict) = mid.log_step(key, limit, window, times.last());
        (
            after,
            if verdict.0 {
                allowed.push(times.last())
            } else {
                allowed
            },
        )
    }
}

/// However many requests a key makes against a sliding window of the store, and whenever it makes
/// them: no more than `limit` of those allowed lie in the window that ends at any time from the
/// last request on.
pub proof fn law_store_sliding_never_exceeds_limit(
    before: MemoryView,
    key: Seq<char>,
    times: Seq<u128>,
    limit: u64,
    window: nat,
    now: u128,
)
    requires
        look_up(before.logs, key) is None,
        ascending(times),
        times.len() > 0 ==> times.last() <= now,
    ensures
        recent_count(log_run(before, key, times, limit, window).1, window, now) <= limit,
{
    let start = before.log_met(key, limit, window);
    lemma_log_run(before, key, times, limit, window);
    law_sliding_window_never_exceeds_limit(start, times, limit, window, now);
}

/// The store keeps the log of the key as the algorithm does.
proof fn lemma_log_run(
    before: MemoryView,
    key: Seq<char>,
    times: Seq<u128>,
    limit: u64,
    window: nat,
)
    ensures
        ({
            let run = sliding_run(before.log_met(key, limit, window), times, limit, window);
            let (after, allowed) = log_run(before, key, times, limit, window);
            &&& after.log_met(key, limit, window) == run.state
            &&& allowed == run.allowed
        }),
    decreases times.len(),
{
    if times.len() > 0 {
        lemma_log_run(before, key, times.drop_last(), limit, window);
    }
}

/// A request against a sliding window of the store is allowed where fewer than `limit` of the key's
/// earlier requests were allowed in the window that ends with it, and then as many remain as the
/// limit has beyond those and this one; denied requests do not count.
pub proof fn law_store_sliding_tells_what_remains(
    before: MemoryView,
    key: Seq<char>,
    times: Seq<u128>,
    limit: u64,
    window: nat,
)
    requires
        look_up(before.logs, key) is None,
        ascending(times),
        times.len() > 0,
    ensures
        ({
            let (mid, allowed) = log_run(before, key, times.drop_last(), limit, window);
            let count = recent_count(allowed, window, times.last());
            mid.log_step(key, limit, window, times.last()).1 == if count < limit {
                (true, (limit - count - 1) as u64)
            } else {
                (false, 0u64)
            }
        }),
{
    let start = before.log_met(key, limit, window);
    lemma_log_run(before, key, times.drop_last(), limit, window);
    law_sliding_window_tells_what_remains(start, times, limit, window);
}

/// Requests of one key against a fixed window of the store, one after the other: the store after
/// them, and what each came to.
pub open spec fn window_run(
    before: MemoryView,
    key: Seq<char>,
    times: Seq<u128>,
    limit: u64,
    window: nat,
) -> (MemoryView, Seq<(bool, u64)>)
    decreases times.len(),
{
    if times.len() == 0 {
        (before, Seq::empty())
    } else {
        let (mid, verdicts) = window_run(before, key, times.drop_last(), limit, window);
        let (after, verdict) = mid.window_step(key, limit, window, times.last());
        (after, verdicts.push(verdict))
    }
}

/// Of the requests that a new key makes within a fixed window of the store, the first `limit` are
/// allowed, with one less remaining each time, and all others are denied.
pub proof fn law_store_fixed_allows_limit(
    before: MemoryView,
    key: Seq<char>,
    times: Seq<u128>,
    limit: u64,
    window: nat,
    i: int,
)
    requires
        look_up(before.windows, key) is None,
        0 <= i < times.len(),
        forall|j: int| 0 <= j < times.len() ==> !window_over(times[0], window, #[trigger] times[j]),
    ensures
        window_run(before, key, times, limit, window).1.len() == times.len(),
        window_run(before, key, times, limit, window).1[i] == if i < limit {
            (true, (limit - i - 1) as u64)
        } else {
            (false, 0u64)
        },
{
    let start = before.window_met(key, limit, window, times[0]);
    lemma_window_run(before, key, times, limit, window);
    law_fixed_window_allows_limit(start, times, limit, window);
    assert(fixed_run(start, times, limit, window).verdicts[i] == window_run(
        before,
        key,
        times,
        limit,
        window,
    ).1[i]);
}

/// The store keeps the window of the key as the algorithm does.
proof fn lemma_window_run(
    before: MemoryView,
    key: Seq<char>,
    times: Seq<u128>,
    limit: u64,
    window: nat,
)
    requires
        times.len() > 0,
    ensures
        ({
            let start = before.window_met(key, limit, window, times[0]);
            let run = fixed_run(start, times, limit, window);
            let (after, verdicts) = window_run(before, key, times, limit, window);
            &&& look_up(after.windows, key) == Some(run.state)
            &&& run.state.limit == limit
            &&& run.state.window == window as u128
            &&& verdicts == run.verdicts
        }),
    decreases times.len(),
{
    reveal_with_fuel(fixed_run, 2);
    reveal_with_fuel(window_run, 2);
    let rest = times.drop_last();
    if rest.len() > 0 {
        assert(rest[0] == times[0]);
        lemma_window_run(before, key, rest, limit, window);
    } else {
        assert(times.last() == times[0]);
    }
}

/// Forgetting an idle bucket is not noticed by its client, where the bucket would have been
/// refilled to the brim by its next request: whatever a request can come to from the old bucket, it
/// can come to from the fresh one that it meets instead.
pub proof fn law_forgetting_full_bucket_is_unnoticed<A: TokenArithmetic>(
    idle: KeyView,
    fresh: KeyView,
    capacity: u64,
    rate: RefillRate,
    now: u128,
    after: KeyView,
    verdict: (bool, u64),
)
    requires
        idle.limit == 0,
        idle.window == 0,
        idle.log == Seq::<u128>::empty(),
        bucket_met::<A>(None, capacity, now, fresh),
        forall|level: u64| #[trigger]
            call_ensures(
                A::refilled,
                (idle.level, capacity, rate, elapsed_nanos(idle.at, now)),
                level,
            ) ==> call_ensures(A::refilled, (fresh.level, capacity, rate, 0u128), level),
        bucket_step::<A>(idle, capacity, rate, now, after, verdict),
    ensures
        bucket_step::<A>(fresh, capacity, rate, now, after, verdict),
{
    let refilled = choose|refilled: KeyView|
        #![trigger token_spent::<A>(refilled, after, verdict)]
        bucket_refilled::<A>(idle, capacity, rate, now, refilled) && token_spent::<A>(
            refilled,
            after,
            verdict,
        );
    assert(token_spent::<A>(refilled, after, verdict));
    assert(elapsed_nanos(fresh.at, now) == 0);
    assert(bucket_refilled::<A>(fresh, capacity, rate, now, refilled));
}

/// A limiter with a store in memory always gives an answer.
pub proof fn law_memory_limiter_never_fails<A: TokenArithmetic>(
    before: MemoryStore<A>,
    after: MemoryStore<A>,
    algorithm: Algorithm,
    bypass_keys: Seq<Seq<char>>,
    key: Seq<char>,
    answer: RateLimitResult<RateLimitCheckResult>,
)
    requires
        answers::<MemoryStore<A>, A>(before, after, algorithm, bypass_keys, key, answer),
    ensures
        answer is Ok,
        answer->Ok_0.limit == algorithm.most(),
        answer->Ok_0.retry_after is Some == !answer->Ok_0.allowed,
{
    if !bypass_keys.contains(key) {
        let _ = lemma_memory_asked::<A>(before, after, algorithm, bypass_keys, key, answer);
    }
}

/// What the store in memory said of a request that a limiter answered.
proof fn lemma_memory_asked<A: TokenArithmetic>(
    before: MemoryStore<A>,
    after: MemoryStore<A>,
    algorithm: Algorithm,
    bypass_keys: Seq<Seq<char>>,
    key: Seq<char>,
    answer: RateLimitResult<RateLimitCheckResult>,
) -> (told: StoreAnswer)
    requires
        answers::<MemoryStore<A>, A>(before, after, algorithm, bypass_keys, key, answer),
        !bypass_keys.contains(key),
    ensures
        store_asked(before, after, algorithm, key, Ok(told)),
        answer is Ok,
        exists|now: Duration| #[trigger]
            result_told::<A>(algorithm, told.0, told.1, now, answer->Ok_0),
        answer->Ok_0.allowed == told.0.0,
        answer->Ok_0.retry_after is Some == !told.0.0,
        told.0.0 ==> answer->Ok_0.remaining == told.0.1,
        answer->Ok_0.limit == algorithm.most(),
{
    let outcome = choose|outcome: RateLimitResult<StoreAnswer>|
        #![trigger store_asked(before, after, algorithm, key, outcome)]
        store_asked(before, after, algorithm, key, outcome) && answer_told::<A>(
            algorithm,
            outcome,
            answer,
        );
    assert(store_asked(before, after, algorithm, key, outcome));
    assert(outcome is Ok);
    outcome->Ok_0
}

/// A key that is never limited is allowed, whatever was asked before, and the store is not asked.
pub proof fn law_limiter_exempts_bypass_keys<S: RateLimitStore, A: TokenArithmetic>(
    before: S,
    after: S,
    algorithm: Algorithm,
    bypass_keys: Seq<Seq<char>>,
    key: Seq<char>,
    answer: RateLimitResult<RateLimitCheckResult>,
)
    requires
        answers::<S, A>(before, after, algorithm, bypass_keys, key, answer),
        bypass_keys.contains(key),
    ensures
        answer is Ok,
        answer->Ok_0.allowed,
        answer->Ok_0.retry_after is None,
        after == before,
{
}

/// A key that a fixed window of the store denied is allowed again as soon as the time has passed
/// that it takes until its window is over, if it asks no more until then.
pub proof fn law_store_fixed_allows_after_wait(
    before: MemoryView,
    key: Seq<char>,
    limit: u64,
    window: nat,
    now: u128,
    later: u128,
)
    requires
        limit > 0,
        window > 0,
        before.window_met(key, limit, window, now).at <= now,
        !before.window_step(key, limit, window, now).1.0,
        later >= now + before.window_step(key, limit, window, now).0.window_left(key, window, now),
    ensures
        before.window_step(key, limit, window, now).0.window_step(key, limit, window, later).1.0,
{
}

/// A client that a limiter with a store in memory denied under the fixed window algorithm is
/// allowed again as soon as the time has passed that it was told to wait, if it asks no more until
/// then. There is a reading of the clock at which it was denied, such that the same request is
/// allowed at any time that lies so much later; the clock does not go back, so the key's window did
/// not start after that reading.
pub proof fn law_limiter_allows_after_wait<A: TokenArithmetic>(
    before: MemoryStore<A>,
    after: MemoryStore<A>,
    max_requests: u64,
    window: Duration,
    bypass_keys: Seq<Seq<char>>,
    key: Seq<char>,
    answer: RateLimitResult<RateLimitCheckResult>,
)
    requires
        answers::<MemoryStore<A>, A>(
            before,
            after,
            Algorithm::FixedWindow { max_requests, window },
            bypass_keys,
            key,
            answer,
        ),
        fault(Algorithm::FixedWindow { max_requests, window }) is None,
        answer is Ok ==> !answer->Ok_0.allowed,
    ensures
        answer is Ok,
        answer->Ok_0.retry_after is Some,
        exists|now: u128| #[trigger]
            clock_says(before@.origin, now) && (before@.window_met(
                key,
                max_requests,
                duration_nanos(window),
                now,
            ).at <= now ==> forall|later: u128|
                later >= now + duration_nanos(answer->Ok_0.retry_after->0) ==> (
                #[trigger] after@.window_step(
                    key,
                    max_requests,
                    duration_nanos(window),
                    later,
                )).1.0),
{
    let algorithm = Algorithm::FixedWindow { max_requests, window };
    let told = lemma_memory_asked::<A>(before, after, algorithm, bypass_keys, key, answer);
    let length = duration_nanos(window);
    let now = choose|now: u128|
        clock_says(before@.origin, now) && (after@, told.0) == #[trigger] before@.window_step(
            key,
            max_requests,
            length,
            now,
        ) && duration_nanos(told.1->0) == after@.window_left(key, length, now);
    assert(clock_says(before@.origin, now));
    if before@.window_met(key, max_requests, length, now).at <= now {
        assert forall|later: u128|
            later >= now + duration_nanos(answer->Ok_0.retry_after->0) implies (
        #[trigger] after@.window_step(key, max_requests, length, later)).1.0 by {
            law_store_fixed_allows_after_wait(before@, key, max_requests, length, now, later);
        }
    }
}

/// A limiter with a store in memory that was asked to reset a key allows its next request, with all
/// others of the limit remaining, under the window algorithms.
pub proof fn law_limiter_reset_restores_limit<A: TokenArithmetic>(
    before: MemoryStore<A>,
    reset: MemoryStore<A>,
    after: MemoryStore<A>,
    algorithm: Algorithm,
    bypass_keys: Seq<Seq<char>>,
    key: Seq<char>,
    outcome: RateLimitResult<()>,
    answer: RateLimitResult<RateLimitCheckResult>,
)
    requires
        fault(algorithm) is None,
        algorithm !is TokenBucket,
        !bypass_keys.contains(key),
        <MemoryStore<A> as RateLimitStore>::resets(before, reset, key, outcome),
        answers::<MemoryStore<A>, A>(reset, after, algorithm, bypass_keys, key, answer),
    ensures
        answer is Ok,
        answer->Ok_0.allowed,
        answer->Ok_0.remaining == algorithm.most() - 1,
{
    let told = lemma_memory_asked::<A>(reset, after, algorithm, bypass_keys, key, answer);
    match algorithm {
        Algorithm::SlidingWindowLog { max_requests, window } => {
            let now = choose|now: u128|
                clock_says(reset@.origin, now) && (after@, told.0) == #[trigger] reset@.log_step(
                    key,
                    max_requests,
                    duration_nanos(window),
                    now,
                );
            law_store_reset_restores_limit(
                before@,
                key,
                max_requests,
                duration_nanos(window),
                now,
            );
        },
        Algorithm::FixedWindow { max_requests, window } => {
            let now = choose|now: u128|
                clock_says(reset@.origin, now) && (after@, told.0) == #[trigger] reset@.window_step(
                    key,
                    max_requests,
                    duration_nanos(window),
                    now,
                ) && duration_nanos(told.1->0) == after@.window_left(
                    key,
                    duration_nanos(window),
                    now,
                );
            law_store_reset_restores_limit(
                before@,
                key,
                max_requests,
                duration_nanos(window),
                now,
            );
        },
        Algorithm::TokenBucket { .. } => {},
    }
}

/// A limiter with a store in memory that was asked to reset a key allows its next request under the
/// token bucket algorithm, whatever the arithmetic returns for a full bucket that has had no time
/// to refill, as long as that holds a token.
pub proof fn law_limiter_reset_fills_bucket<A: TokenArithmetic>(
    before: MemoryStore<A>,
    reset: MemoryStore<A>,
    after: MemoryStore<A>,
    capacity: u64,
    rate: RefillRate,
    bypass_keys: Seq<Seq<char>>,
    key: Seq<char>,
    outcome: RateLimitResult<()>,
    answer: RateLimitResult<RateLimitCheckResult>,
)
    requires
        <MemoryStore<A> as RateLimitStore>::resets(before, reset, key, outcome),
        answers::<MemoryStore<A>, A>(
            reset,
            after,
            Algorithm::TokenBucket { capacity, refill_rate: rate },
            bypass_keys,
            key,
            answer,
        ),
        forall|full: u64, refilled: u64|
            call_ensures(A::full, (capacity,), full) && #[trigger] call_ensures(
                A::refilled,
                (full, capacity, rate, 0u128),
                refilled,
            ) ==> holds_token(refilled),
    ensures
        answer is Ok,
        answer->Ok_0.allowed,
{
    if !bypass_keys.contains(key) {
        let algorithm = Algorithm::TokenBucket { capacity, refill_rate: rate };
        let told = lemma_memory_asked::<A>(reset, after, algorithm, bypass_keys, key, answer);
        let verdict = told.0;
        let now = choose|now: u128|
            clock_says(reset@.origin, now) && #[trigger] reset@.takes_token::<A>(
                after@,
                key,
                capacity,
                rate,
                now,
                verdict,
            );
        let state = after@.buckets[key];
        let met = lemma_bucket_met::<A>(reset@, after@, key, capacity, rate, now, verdict);
        let refilled = choose|refilled: KeyView|
            #![trigger token_spent::<A>(refilled, state, verdict)]
            bucket_refilled::<A>(met, capacity, rate, now, refilled) && token_spent::<A>(
                refilled,
                state,
                verdict,
            );
        assert(token_spent::<A>(refilled, state, verdict));
        assert(look_up(reset@.buckets, key) is None);
        assert(elapsed_nanos(met.at, now) == 0);
        assert(call_ensures(A::refilled, (met.level, capacity, rate, 0u128), refilled.level));
    }
}

/// The bucket that a request met.
proof fn lemma_bucket_met<A: TokenArithmetic>(
    before: MemoryView,
    after: MemoryView,
    key: Seq<char>,
    capacity: u64,
    rate: RefillRate,
    now: u128,
    verdict: (bool, u64),
) -> (met: KeyView)
    requires
        before.takes_token::<A>(after, key, capacity, rate, now, verdict),
    ensures
        bucket_met::<A>(look_up(before.buckets, key), capacity, now, met),
        bucket_step::<A>(met, capacity, rate, now, after.buckets[key], verdict),
{
    choose|met: KeyView|
        #![trigger bucket_met::<A>(look_up(before.buckets, key), capacity, now, met)]
        bucket_met::<A>(look_up(before.buckets, key), capacity, now, met) && bucket_step::<A>(
            met,
            capacity,
            rate,
            now,
            after.buckets[key],
            verdict,
        )
}

/// Of the requests that a new key makes of the store at once under the token bucket algorithm, the
/// first ones up to the capacity are allowed, with one token less remaining each time, and all
/// others are denied; no other key is touched. This is of an arithmetic that counts up to the
/// capacity without rounding.
pub proof fn law_store_bucket_allows_burst<A: TokenArithmetic>(
    views: Seq<MemoryView>,
    verdicts: Seq<(bool, u64)>,
    key: Seq<char>,
    other: Seq<char>,
    capacity: u64,
    rate: RefillRate,
    now: u128,
    i: int,
)
    requires
        views.len() == verdicts.len() + 1,
        look_up(views[0].buckets, key) is None,
        other != key,
        forall|full: u64| #[trigger]
            call_ensures(A::full, (capacity,), full) ==> counts_exactly::<A>(capacity, rate, full),
        forall|j: int|
            0 <= j < verdicts.len() ==> views[j].takes_token::<A>(
                views[j + 1],
                key,
                capacity,
                rate,
                now,
                #[trigger] verdicts[j],
            ),
        0 <= i < verdicts.len(),
    ensures
        verdicts[i] == if i < capacity {
            (true, (capacity - i - 1) as u64)
        } else {
            (false, 0u64)
        },
        look_up(views[i + 1].buckets, other) == look_up(views[0].buckets, other),
{
    let _ = lemma_store_burst::<A>(views, verdicts, key, other, capacity, rate, now, i + 1);
}

/// What is left of a new key's bucket after `i` requests at once, and what the last came to. The
/// level of a full bucket is handed back.
proof fn lemma_store_burst<A: TokenArithmetic>(
    views: Seq<MemoryView>,
    verdicts: Seq<(bool, u64)>,
    key: Seq<char>,
    other: Seq<char>,
    capacity: u64,
    rate: RefillRate,
    now: u128,
    i: int,
) -> (full: u64)
    requires
        views.len() == verdicts.len() + 1,
        look_up(views[0].buckets, key) is None,
        other != key,
        forall|full: u64| #[trigger]
            call_ensures(A::full, (capacity,), full) ==> counts_exactly::<A>(capacity, rate, full),
        forall|j: int|
            0 <= j < verdicts.len() ==> views[j].takes_token::<A>(
                views[j + 1],
                key,
                capacity,
                rate,
                now,
                #[trigger] verdicts[j],
            ),
        0 <= i <= verdicts.len(),
    ensures
        look_up(views[i].buckets, other) == look_up(views[0].buckets, other),
        i > 0 ==> {
            let state = views[i].buckets[key];
            &&& views[i].buckets.contains_key(key)
            &&& counts_exactly::<A>(capacity, rate, full)
            &&& state.at == now
            &&& state.level <= full
            &&& whole_part(state.level) as int == if i < capacity {
                capacity - i
            } else {
                0
            }
            &&& verdicts[i - 1] == if i - 1 < capacity {
                (true, (capacity - i) as u64)
            } else {
                (false, 0u64)
            }
        },
    decreases i,
{
    if i == 0 {
        0
    } else {
        let earlier = lemma_store_burst::<A>(
            views,
            verdicts,
            key,
            other,
            capacity,
            rate,
            now,
            i - 1,
        );
        let from = views[i - 1];
        let to = views[i];
        assert(from.takes_token::<A>(to, key, capacity, rate, now, verdicts[i - 1]));
        let met = lemma_bucket_met::<A>(from, to, key, capacity, rate, now, verdicts[i - 1]);
        let full = if i - 1 > 0 {
            earlier
        } else {
            met.level
        };
        lemma_one_at_once::<A>(
            capacity,
            rate,
            now,
            full,
            met,
            to.buckets[key],
            verdicts[i - 1],
        );
        full
    }
}

/// After an allowed request against a token bucket of the store, fewer tokens remain than the
/// capacity. This is of an arithmetic that keeps to a measure of the levels.
pub proof fn law_store_bucket_remaining_is_below_capacity<A: TokenArithmetic>(
    measure: Measure,
    before: MemoryView,
    after: MemoryView,
    key: Seq<char>,
    capacity: u64,
    rate: RefillRate,
    now: u128,
    verdict: (bool, u64),
)
    requires
        measure.holds_of::<A>(capacity, rate),
        before.takes_token::<A>(after, key, capacity, rate, now, verdict),
        verdict.0,
    ensures
        verdict.1 < capacity,
{
    let met = lemma_bucket_met::<A>(before, after, key, capacity, rate, now, verdict);
    law_token_bucket_remaining_is_below_capacity::<A>(
        measure,
        capacity,
        rate,
        now,
        met,
        after.buckets[key],
        verdict,
    );
}

/// Whether a store went through the given states, one request after the other, where each request
/// of the key asks for a token and no other changes the key's bucket: those of other keys and those
/// under other algorithms do not.
pub open spec fn bucket_store_history<A: TokenArithmetic>(
    views: Seq<MemoryView>,
    asked: Seq<Asked>,
    key: Seq<char>,
    capacity: u64,
    rate: RefillRate,
) -> bool {
    &&& views.len() == asked.len() + 1
    &&& forall|i: int|
        0 <= i < asked.len() ==> if (#[trigger] asked[i]).key == key {
            views[i].takes_token::<A>(
                views[i + 1],
                key,
                capacity,
                rate,
                asked[i].at,
                asked[i].verdict,
            )
        } else {
            look_up(views[i + 1].buckets, key) == look_up(views[i].buckets, key)
        }
}

/// However often a key asks the store for a token, and whenever: of its requests between two times,
/// no more are allowed than the capacity and the tokens that were added from the one time to the
/// other, but for what rounding adds. This is of an arithmetic that keeps to a measure of the
/// levels.
pub proof fn law_store_bucket_never_exceeds_rate<A: TokenArithmetic>(
    measure: Measure,
    views: Seq<MemoryView>,
    asked: Seq<Asked>,
    key: Seq<char>,
    capacity: u64,
    rate: RefillRate,
)
    requires
        measure.holds_of::<A>(capacity, rate),
        bucket_store_history::<A>(views, asked, key, capacity, rate),
        in_order(asked),
        times_of(asked, key).len() > 0,
    ensures
        allowed_of(asked, key).len() * measure.token <= measure.bound(
            capacity,
            times_of(asked, key).last() - times_of(asked, key).first(),
            times_of(asked, key).len(),
        ),
{
    lemma_store_rate::<A>(measure, views, asked, key, capacity, rate);
}

/// The same, with what the bucket still holds.
proof fn lemma_store_rate<A: TokenArithmetic>(
    measure: Measure,
    views: Seq<MemoryView>,
    asked: Seq<Asked>,
    key: Seq<char>,
    capacity: u64,
    rate: RefillRate,
)
    requires
        measure.holds_of::<A>(capacity, rate),
        bucket_store_history::<A>(views, asked, key, capacity, rate),
        in_order(asked),
    ensures
        ({
            let times = times_of(asked, key);
            let bucket = look_up(views.last().buckets, key);
            &&& times.len() == 0 ==> allowed_of(asked, key).len() == 0
            &&& times.len() > 0 ==> {
                &&& times.last() <= asked.last().at
                &&& bucket is Some
                &&& bucket->0.at == times.last()
                &&& allowed_of(asked, key).len() * measure.token + (measure.worth)(bucket->0.level)
                    <= measure.bound(capacity, times.last() - times.first(), times.len())
            }
        }),
    decreases asked.len(),
{
    if asked.len() > 0 {
        let n = asked.len() as int - 1;
        let rest = asked.drop_last();
        let earlier = views.drop_last();
        let last = asked.last();
        let before = views[n];
        let after = views.last();
        assert forall|i: int| 0 <= i < rest.len() implies if (#[trigger] rest[i]).key == key {
            earlier[i].takes_token::<A>(
                earlier[i + 1],
                key,
                capacity,
                rate,
                rest[i].at,
                rest[i].verdict,
            )
        } else {
            look_up(earlier[i + 1].buckets, key) == look_up(earlier[i].buckets, key)
        } by {
            assert(rest[i] == asked[i]);
        }
        lemma_store_rate::<A>(measure, earlier, rest, key, capacity, rate);
        assert(earlier.last() == before);
        assert(asked[n] == last);
        let times = times_of(rest, key);
        if n > 0 {
            assert(rest.last() == asked[n - 1]);
        }
        if last.key == key {
            let met = lemma_bucket_met::<A>(
                before,
                after,
                key,
                capacity,
                rate,
                last.at,
                last.verdict,
            );
            let state = after.buckets[key];
            lemma_rate_step::<A>(measure, capacity, rate, last.at, met, state, last.verdict);
            assert(look_up(after.buckets, key) == Some(state));
            assert(times_of(asked, key) == times.push(last.at));
            lemma_first_bound(measure, capacity, last.verdict);
            if times.len() > 0 {
                assert(times.push(last.at).first() == times.first());
                lemma_bound_grows(
                    measure,
                    capacity,
                    times.last() - times.first(),
                    times.len(),
                    allowed_of(rest, key).len(),
                    last.verdict,
                    (measure.worth)(met.level),
                    (measure.worth)(state.level),
                    elapsed_nanos(met.at, last.at) as nat,
                );
            }
        }
    }
}

} // verus!
