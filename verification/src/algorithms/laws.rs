//! What holds of runs of requests, for each algorithm.

use super::fixed_window::{fixed_step, window_over, FixedWindowView};
use super::law_keys_stay_capped;
use super::sliding_window::{live_part, sliding_step, SlidingWindowView};
use super::token_bucket::{
    bucket_met, bucket_refilled, bucket_step, token_spent, TokenBucketView,
};
use crate::table::{look_up, Age, KeyView};
use crate::time::elapsed_nanos;
use crate::tokens::{
    holds_token, whole_part, RefillRate, TokenArithmetic, EXPONENT_BIAS, FRACTION_UNIT,
    INFINITY_BITS,
};
use vstd::arithmetic::power2::{
    lemma2_to64, lemma_pow2_pos, lemma_pow2_strictly_increases, lemma_pow2_unfold, pow2,
};
use vstd::prelude::*;

verus! {

/// Whether times never go back.
pub open spec fn ascending(times: Seq<u128>) -> bool {
    forall|i: int, j: int| 0 <= i <= j < times.len() ==> times[i] <= times[j]
}

/// A run of requests of one key: what is remembered after it, and what each came to.
#[verifier::ext_equal]
pub struct Run {
    /// The state after the last request.
    pub state: KeyView,
    /// What each request came to.
    pub verdicts: Seq<(bool, u64)>,
}

/// The requests at the given times against a fixed window, one after the other.
pub open spec fn fixed_run(start: KeyView, times: Seq<u128>, limit: u64, window: nat) -> Run
    decreases times.len(),
{
    if times.len() == 0 {
        Run { state: start, verdicts: Seq::empty() }
    } else {
        let before = fixed_run(start, times.drop_last(), limit, window);
        let (state, verdict) = fixed_step(before.state, limit, window, times.last());
        Run { state, verdicts: before.verdicts.push(verdict) }
    }
}

/// In a fixed window that starts with the first of the requests and is not over at any of them,
/// the first `limit` requests are allowed, with one less remaining each time, and all others are
/// denied.
pub proof fn law_fixed_window_allows_limit(
    start: KeyView,
    times: Seq<u128>,
    limit: u64,
    window: nat,
)
    requires
        times.len() > 0,
        window_over(start.at, window, times[0]) || (start.level == 0 && start.at == times[0]),
        forall|i: int| 0 <= i < times.len() ==> !window_over(times[0], window, #[trigger] times[i]),
    ensures
        fixed_run(start, times, limit, window).verdicts.len() == times.len(),
        forall|i: int|
            0 <= i < times.len() ==> #[trigger] fixed_run(start, times, limit, window).verdicts[i]
                == if i < limit {
                (true, (limit - i - 1) as u64)
            } else {
                (false, 0u64)
            },
{
    lemma_fixed_run(start, times, limit, window);
}

/// The verdicts of a run within one window, and the state that it leaves.
proof fn lemma_fixed_run(start: KeyView, times: Seq<u128>, limit: u64, window: nat)
    requires
        times.len() > 0,
        window_over(start.at, window, times[0]) || (start.level == 0 && start.at == times[0]),
        forall|i: int| 0 <= i < times.len() ==> !window_over(times[0], window, #[trigger] times[i]),
    ensures
        ({
            let run = fixed_run(start, times, limit, window);
            &&& run.verdicts.len() == times.len()
            &&& run.state.at == times[0]
            &&& run.state.level as int == if times.len() < limit {
                times.len() as int
            } else {
                limit as int
            }
            &&& forall|i: int|
                0 <= i < times.len() ==> #[trigger] run.verdicts[i] == if i < limit {
                    (true, (limit - i - 1) as u64)
                } else {
                    (false, 0u64)
                }
        }),
    decreases times.len(),
{
    reveal_with_fuel(fixed_run, 2);
    let rest = times.drop_last();
    if rest.len() == 0 {
        assert(!window_over(times[0], window, times[0]));
        assert(times.last() == times[0]);
    } else {
        assert(rest[0] == times[0]);
        assert forall|i: int| 0 <= i < rest.len() implies !window_over(
            rest[0],
            window,
            #[trigger] rest[i],
        ) by {
            assert(rest[i] == times[i]);
        }
        lemma_fixed_run(start, rest, limit, window);
        assert(!window_over(times[0], window, times[times.len() - 1]));
    }
}

/// A run of requests of one key: what is remembered after it, and the times of those that were
/// allowed.
#[verifier::ext_equal]
pub struct AllowedRun {
    /// The state after the last request.
    pub state: KeyView,
    /// When the allowed requests were made.
    pub allowed: Seq<u128>,
}

/// The requests at the given times against a sliding window, one after the other.
pub open spec fn sliding_run(
    start: KeyView,
    times: Seq<u128>,
    limit: u64,
    window: nat,
) -> AllowedRun
    decreases times.len(),
{
    if times.len() == 0 {
        AllowedRun { state: start, allowed: Seq::empty() }
    } else {
        let before = sliding_run(start, times.drop_last(), limit, window);
        let (state, verdict) = sliding_step(before.state, limit, window, times.last());
        AllowedRun {
            state,
            allowed: if verdict.0 {
                before.allowed.push(times.last())
            } else {
                before.allowed
            },
        }
    }
}

/// How many of the times lie no more than a window back.
pub open spec fn recent_count(times: Seq<u128>, window: nat, now: u128) -> nat
    decreases times.len(),
{
    if times.len() == 0 {
        0
    } else {
        recent_count(times.drop_first(), window, now) + if elapsed_nanos(times.first(), now)
            <= window {
            1nat
        } else {
            0nat
        }
    }
}

/// However many requests a key makes, and whenever it makes them, from an empty log on: no more
/// than `limit` of those allowed lie in the window that ends at any time from the last request on.
pub proof fn law_sliding_window_never_exceeds_limit(
    start: KeyView,
    times: Seq<u128>,
    limit: u64,
    window: nat,
    now: u128,
)
    requires
        start.log.len() == 0,
        ascending(times),
        times.len() > 0 ==> times.last() <= now,
    ensures
        recent_count(sliding_run(start, times, limit, window).allowed, window, now) <= limit,
{
    lemma_sliding_run(start, times, limit, window);
    let run = sliding_run(start, times, limit, window);
    let dropped = run.allowed.len() - run.state.log.len();
    assert forall|i: int| 0 <= i < dropped implies elapsed_nanos(
        #[trigger] run.allowed[i],
        now,
    ) > window by {
        assert(elapsed_nanos(run.allowed[i], times.last()) > window);
    }
    lemma_recent_skips(run.allowed, dropped, window, now);
    lemma_recent_at_most(run.state.log, window, now);
}

/// From an empty log on, a request is allowed exactly where fewer than `limit` requests were
/// allowed in the window that ends with it, and then as many remain as the limit has beyond those
/// and this one; denied requests do not count.
pub proof fn law_sliding_window_tells_what_remains(
    start: KeyView,
    times: Seq<u128>,
    limit: u64,
    window: nat,
)
    requires
        start.log.len() == 0,
        ascending(times),
        times.len() > 0,
    ensures
        ({
            let run = sliding_run(start, times.drop_last(), limit, window);
            let count = recent_count(run.allowed, window, times.last());
            sliding_step(run.state, limit, window, times.last()).1 == if count < limit {
                (true, (limit - count - 1) as u64)
            } else {
                (false, 0u64)
            }
        }),
{
    let earlier = times.drop_last();
    let now = times.last();
    lemma_sliding_run(start, earlier, limit, window);
    let run = sliding_run(start, earlier, limit, window);
    let dropped = run.allowed.len() - run.state.log.len();
    if earlier.len() > 0 {
        assert(earlier.last() == times[times.len() - 2]);
    }
    assert forall|i: int| 0 <= i < dropped implies elapsed_nanos(
        #[trigger] run.allowed[i],
        now,
    ) > window by {
        assert(elapsed_nanos(run.allowed[i], earlier.last()) > window);
    }
    lemma_recent_skips(run.allowed, dropped, window, now);
    assert(ascending(run.state.log)) by {
        assert(run.state.log =~= run.allowed.skip(dropped));
    }
    lemma_recent_is_live(run.state.log, window, now);
}

/// The log holds the last of the allowed times; those that it has dropped lie more than a window
/// before the last request.
proof fn lemma_sliding_run(start: KeyView, times: Seq<u128>, limit: u64, window: nat)
    requires
        start.log.len() == 0,
        ascending(times),
    ensures
        ({
            let run = sliding_run(start, times, limit, window);
            let dropped = run.allowed.len() - run.state.log.len();
            &&& run.state.log.len() <= limit
            &&& dropped >= 0
            &&& run.state.log == run.allowed.skip(dropped)
            &&& ascending(run.allowed)
            &&& times.len() == 0 ==> run.allowed.len() == 0
            &&& forall|i: int|
                0 <= i < run.allowed.len() ==> #[trigger] run.allowed[i] <= times.last()
            &&& forall|i: int|
                0 <= i < dropped ==> elapsed_nanos(#[trigger] run.allowed[i], times.last())
                    > window
        }),
    decreases times.len(),
{
    let run = sliding_run(start, times, limit, window);
    if times.len() == 0 {
        assert(run.state.log =~= run.allowed.skip(0));
    } else {
        let earlier = times.drop_last();
        let now = times.last();
        assert forall|i: int, j: int| 0 <= i <= j < earlier.len() implies earlier[i]
            <= earlier[j] by {
            assert(earlier[i] == times[i] && earlier[j] == times[j]);
        }
        lemma_sliding_run(start, earlier, limit, window);
        let before = sliding_run(start, earlier, limit, window);
        let live = live_part(before.state.log, window, now);
        lemma_live_part(before.state.log, window, now);
        let dropped_before = before.allowed.len() - before.state.log.len();
        let cut = before.state.log.len() - live.len();
        let dropped = dropped_before + cut;
        if earlier.len() > 0 {
            assert(earlier.last() == times[times.len() - 2]);
            assert(earlier.last() <= now);
        }
        assert forall|i: int| 0 <= i < dropped implies elapsed_nanos(
            #[trigger] before.allowed[i],
            now,
        ) > window by {
            if i >= dropped_before {
                assert(before.allowed[i] == before.state.log[i - dropped_before]);
            } else {
                assert(elapsed_nanos(before.allowed[i], earlier.last()) > window);
            }
        }
        if live.len() < limit {
            assert(run.allowed == before.allowed.push(now));
            assert(run.state.log == live.push(now));
            assert(live.push(now) =~= run.allowed.skip(dropped));
            assert forall|i: int| 0 <= i < dropped implies elapsed_nanos(
                #[trigger] run.allowed[i],
                now,
            ) > window by {
                assert(run.allowed[i] == before.allowed[i]);
            }
        } else {
            assert(run.state.log == live);
            assert(live =~= run.allowed.skip(dropped));
        }
    }
}

/// The live part of a log is what is left of it once times that lie more than a window back were
/// taken from its start.
proof fn lemma_live_part(log: Seq<u128>, window: nat, now: u128)
    ensures
        ({
            let live = live_part(log, window, now);
            let cut = log.len() - live.len();
            &&& cut >= 0
            &&& live == log.skip(cut)
            &&& forall|i: int|
                0 <= i < cut ==> elapsed_nanos(#[trigger] log[i], now) > window
        }),
    decreases log.len(),
{
    if log.len() > 0 && elapsed_nanos(log.first(), now) > window {
        let rest = log.drop_first();
        lemma_live_part(rest, window, now);
        let live = live_part(log, window, now);
        let cut = log.len() - live.len();
        assert(log.skip(cut) =~= rest.skip(cut - 1));
        assert forall|i: int| 0 <= i < cut implies elapsed_nanos(#[trigger] log[i], now)
            > window by {
            if i > 0 {
                assert(rest[i - 1] == log[i]);
            }
        }
    } else {
        assert(log.skip(0) =~= log);
    }
}

/// Times that lie more than a window back do not count as recent.
proof fn lemma_recent_skips(times: Seq<u128>, n: int, window: nat, now: u128)
    requires
        0 <= n <= times.len(),
        forall|i: int| 0 <= i < n ==> elapsed_nanos(#[trigger] times[i], now) > window,
    ensures
        recent_count(times, window, now) == recent_count(times.skip(n), window, now),
    decreases n,
{
    if n == 0 {
        assert(times.skip(0) =~= times);
    } else {
        let rest = times.drop_first();
        assert forall|i: int| 0 <= i < n - 1 implies elapsed_nanos(#[trigger] rest[i], now)
            > window by {
            assert(rest[i] == times[i + 1]);
        }
        assert(elapsed_nanos(times[0], now) > window);
        lemma_recent_skips(rest, n - 1, window, now);
        assert(rest.skip(n - 1) =~= times.skip(n));
    }
}

/// There are no more recent times than times.
proof fn lemma_recent_at_most(times: Seq<u128>, window: nat, now: u128)
    ensures
        recent_count(times, window, now) <= times.len(),
    decreases times.len(),
{
    if times.len() > 0 {
        lemma_recent_at_most(times.drop_first(), window, now);
    }
}

/// Of ascending times, the recent ones are the live part.
pub(crate) proof fn lemma_recent_is_live(times: Seq<u128>, window: nat, now: u128)
    requires
        ascending(times),
    ensures
        recent_count(times, window, now) == live_part(times, window, now).len(),
    decreases times.len(),
{
    if times.len() > 0 {
        let rest = times.drop_first();
        assert forall|i: int, j: int| 0 <= i <= j < rest.len() implies rest[i] <= rest[j] by {
            assert(rest[i] == times[i + 1] && rest[j] == times[j + 1]);
        }
        lemma_recent_is_live(rest, window, now);
        if elapsed_nanos(times.first(), now) <= window {
            if rest.len() > 0 {
                assert(times[0] <= times[1]);
                assert(rest.first() == times[1]);
                assert(live_part(rest, window, now) == rest);
            }
        }
    }
}

/// A key whose window was reset is allowed the whole limit again, whatever it used up before.
pub proof fn law_fixed_window_reset_restores_limit(
    before: FixedWindowView,
    key: Seq<char>,
    now: u128,
)
    requires
        before.limit > 0,
        before.window > 0,
    ensures
        ({
            let after = FixedWindowView { table: before.table.remove(key), ..before };
            &&& after.left(key, now) == before.limit
            &&& after.step(key, now).1 == (true, (before.limit - 1) as u64)
        }),
{
}

/// A key whose log was reset is allowed the whole limit again, whatever it used up before.
pub proof fn law_sliding_window_reset_restores_limit(
    before: SlidingWindowView,
    key: Seq<char>,
    now: u128,
)
    requires
        before.limit > 0,
    ensures
        ({
            let after = SlidingWindowView { table: before.table.remove(key), ..before };
            &&& after.left(key, now) == before.limit
            &&& after.step(key, now).1 == (true, (before.limit - 1) as u64)
        }),
{
}

/// What a request of one key comes to does not depend on what other keys have used up: it is the
/// same for any two fixed window limiters that agree on the limit, the window and the key's state.
pub proof fn law_fixed_window_keys_are_independent(
    a: FixedWindowView,
    b: FixedWindowView,
    key: Seq<char>,
    now: u128,
)
    requires
        a.limit == b.limit,
        a.window == b.window,
        look_up(a.table, key) == look_up(b.table, key),
    ensures
        a.step(key, now) == b.step(key, now),
        a.left(key, now) == b.left(key, now),
        a.until_reset(key, now) == b.until_reset(key, now),
{
}

/// What a request of one key comes to does not depend on what other keys have used up: it is the
/// same for any two sliding window limiters that agree on the limit, the window and the key's log.
pub proof fn law_sliding_window_keys_are_independent(
    a: SlidingWindowView,
    b: SlidingWindowView,
    key: Seq<char>,
    now: u128,
)
    requires
        a.limit == b.limit,
        a.window == b.window,
        look_up(a.table, key) == look_up(b.table, key),
    ensures
        a.step(key, now) == b.step(key, now),
        a.left(key, now) == b.left(key, now),
{
}

/// After an allowed request at some time, as many requests remain at that time as the verdict
/// said; after a denied one, none.
pub proof fn law_fixed_window_remaining_agrees(
    before: FixedWindowView,
    after: FixedWindowView,
    key: Seq<char>,
    now: u128,
    verdict: (bool, u64),
)
    requires
        before.window > 0,
        before.acquires(after, key, now, verdict),
    ensures
        after.left(key, now) == verdict.1,
{
}

/// After an allowed request at some time, as many requests remain at that time as the verdict
/// said; after a denied one, none.
pub proof fn law_sliding_window_remaining_agrees(
    before: SlidingWindowView,
    after: SlidingWindowView,
    key: Seq<char>,
    now: u128,
    verdict: (bool, u64),
)
    requires
        before.acquires(after, key, now, verdict),
    ensures
        after.left(key, now) == verdict.1,
{
    let met = before.met_by(key).log;
    let live = live_part(met, before.window, now);
    lemma_live_part(met, before.window, now);
    lemma_live_is_stable(met, before.window, now);
    if live.len() < before.limit {
        lemma_live_push(live, before.window, now);
    }
}

/// A live part is all live.
proof fn lemma_live_is_stable(log: Seq<u128>, window: nat, now: u128)
    ensures
        live_part(live_part(log, window, now), window, now) == live_part(log, window, now),
    decreases log.len(),
{
    if log.len() > 0 && elapsed_nanos(log.first(), now) > window {
        lemma_live_is_stable(log.drop_first(), window, now);
    }
}

/// A live log stays live when the present is added to it.
proof fn lemma_live_push(live: Seq<u128>, window: nat, now: u128)
    requires
        live_part(live, window, now) == live,
    ensures
        live_part(live.push(now), window, now) == live.push(now),
{
    if live.len() > 0 {
        assert(live.push(now).first() == live.first());
        if elapsed_nanos(live.first(), now) > window {
            lemma_live_part(live.drop_first(), window, now);
        }
    }
}

/// A level holds a token exactly where its integer part is one or more.
pub proof fn law_token_is_whole(level: u64)
    ensures
        holds_token(level) <==> whole_part(level) >= 1,
{
    let unit = FRACTION_UNIT as int;
    let exponent = level as int / unit - EXPONENT_BIAS as int;
    let significand = unit + level as int % unit;
    if level <= INFINITY_BITS && 0 <= exponent < 64 {
        lemma2_to64();
        lemma_pow2_unfold(64);
        lemma_pow2_pos(exponent as nat);
        if exponent < 63 {
            lemma_pow2_strictly_increases(exponent as nat, 63);
        }
        let scaled = significand * pow2(exponent as nat);
        assert(unit <= scaled <= (2 * unit - 1) * 0x8000_0000_0000_0000) by (nonlinear_arith)
            requires
                unit <= significand <= 2 * unit - 1,
                1 <= pow2(exponent as nat) <= 0x8000_0000_0000_0000,
                scaled == significand * pow2(exponent as nat),
                unit > 0,
        ;
        assert(1 <= scaled / unit <= u64::MAX);
    }
}

/// Whether an arithmetic counts tokens up to a capacity without rounding: a full bucket holds the
/// capacity, one less is one less, and nothing is added in no time.
pub open spec fn counts_exactly<A: TokenArithmetic>(
    capacity: u64,
    rate: RefillRate,
    full: u64,
) -> bool {
    &&& whole_part(full) == capacity
    &&& forall|level: u64, refilled: u64|
        level <= full && #[trigger] call_ensures(
            A::refilled,
            (level, capacity, rate, 0u128),
            refilled,
        ) ==> refilled == level
    &&& forall|level: u64, less: u64|
        level <= full && holds_token(level) && #[trigger] call_ensures(
            A::one_less,
            (level,),
            less,
        ) ==> less <= level && whole_part(less) + 1 == whole_part(level)
}

/// Under an arithmetic that counts up to the capacity without rounding, a full bucket allows as
/// many requests at once as its capacity, with one token less remaining each time, and denies all
/// others.
pub proof fn law_token_bucket_allows_burst<A: TokenArithmetic>(
    capacity: u64,
    rate: RefillRate,
    now: u128,
    states: Seq<KeyView>,
    verdicts: Seq<(bool, u64)>,
    i: int,
)
    requires
        states.len() == verdicts.len() + 1,
        bucket_met::<A>(None, capacity, now, states[0]),
        counts_exactly::<A>(capacity, rate, states[0].level),
        forall|j: int|
            0 <= j < verdicts.len() ==> bucket_step::<A>(
                states[j],
                capacity,
                rate,
                now,
                states[j + 1],
                #[trigger] verdicts[j],
            ),
        0 <= i < verdicts.len(),
    ensures
        verdicts[i] == if i < capacity {
            (true, (capacity - i - 1) as u64)
        } else {
            (false, 0u64)
        },
{
    lemma_burst::<A>(capacity, rate, now, states, verdicts, i);
    lemma_burst_step::<A>(capacity, rate, now, states, verdicts, i);
}

/// What is left of a full bucket after `i` requests at once.
proof fn lemma_burst<A: TokenArithmetic>(
    capacity: u64,
    rate: RefillRate,
    now: u128,
    states: Seq<KeyView>,
    verdicts: Seq<(bool, u64)>,
    i: int,
)
    requires
        states.len() == verdicts.len() + 1,
        bucket_met::<A>(None, capacity, now, states[0]),
        counts_exactly::<A>(capacity, rate, states[0].level),
        forall|j: int|
            0 <= j < verdicts.len() ==> bucket_step::<A>(
                states[j],
                capacity,
                rate,
                now,
                states[j + 1],
                #[trigger] verdicts[j],
            ),
        0 <= i < states.len(),
    ensures
        states[i].at == now,
        states[i].level <= states[0].level,
        whole_part(states[i].level) as int == if i < capacity {
            capacity - i
        } else {
            0
        },
    decreases i,
{
    if i > 0 {
        lemma_burst::<A>(capacity, rate, now, states, verdicts, i - 1);
        lemma_burst_step::<A>(capacity, rate, now, states, verdicts, i - 1);
    }
}

/// One of the requests in a burst.
proof fn lemma_burst_step<A: TokenArithmetic>(
    capacity: u64,
    rate: RefillRate,
    now: u128,
    states: Seq<KeyView>,
    verdicts: Seq<(bool, u64)>,
    i: int,
)
    requires
        states.len() == verdicts.len() + 1,
        counts_exactly::<A>(capacity, rate, states[0].level),
        0 <= i < verdicts.len(),
        bucket_step::<A>(states[i], capacity, rate, now, states[i + 1], verdicts[i]),
        states[i].at == now,
        states[i].level <= states[0].level,
        whole_part(states[i].level) as int == if i < capacity {
            capacity - i
        } else {
            0
        },
    ensures
        states[i + 1].at == now,
        states[i + 1].level <= states[0].level,
        whole_part(states[i + 1].level) as int == if i + 1 < capacity {
            capacity - i - 1
        } else {
            0
        },
        verdicts[i] == if i < capacity {
            (true, (capacity - i - 1) as u64)
        } else {
            (false, 0u64)
        },
{
    lemma_one_at_once::<A>(
        capacity,
        rate,
        now,
        states[0].level,
        states[i],
        states[i + 1],
        verdicts[i],
    );
}

/// A request that meets a bucket at the time of its last refill takes a whole token, if there is
/// one.
pub(crate) proof fn lemma_one_at_once<A: TokenArithmetic>(
    capacity: u64,
    rate: RefillRate,
    now: u128,
    full: u64,
    met: KeyView,
    after: KeyView,
    verdict: (bool, u64),
)
    requires
        counts_exactly::<A>(capacity, rate, full),
        bucket_step::<A>(met, capacity, rate, now, after, verdict),
        met.at == now,
        met.level <= full,
    ensures
        after.at == now,
        after.level <= full,
        whole_part(met.level) > 0 ==> whole_part(after.level) == whole_part(met.level) - 1
            && verdict == (true, whole_part(after.level)),
        whole_part(met.level) == 0 ==> whole_part(after.level) == 0 && verdict == (false, 0u64),
{
    let refilled = choose|refilled: KeyView|
        #![trigger token_spent::<A>(refilled, after, verdict)]
        bucket_refilled::<A>(met, capacity, rate, now, refilled) && token_spent::<A>(
            refilled,
            after,
            verdict,
        );
    assert(token_spent::<A>(refilled, after, verdict));
    assert(elapsed_nanos(met.at, now) == 0);
    assert(refilled.level == met.level);
    law_token_is_whole(met.level);
}

/// Asking what remains of a key under the sliding window algorithm brings no key in and takes none
/// away, and changes nothing of any other key.
pub proof fn law_sliding_window_remaining_keeps_keys(
    before: SlidingWindowView,
    key: Seq<char>,
    other: Seq<char>,
    now: u128,
)
    requires
        other != key,
    ensures
        before.cleaned(key, now).table.dom() == before.table.dom(),
        look_up(before.cleaned(key, now).table, other) == look_up(before.table, other),
        before.cleaned(key, now).left(key, now) == before.left(key, now),
{
    assert(before.cleaned(key, now).table.dom() =~= before.table.dom());
    if let Some(met) = look_up(before.table, key) {
        lemma_live_is_stable(met.log, before.window, now);
    }
}

/// A reset of a key under the token bucket algorithm never takes the number of retained keys past
/// the cap, nor past what it was where it was above the cap already.
pub proof fn law_token_bucket_reset_stays_capped<A: TokenArithmetic>(
    before: TokenBucketView,
    after: TokenBucketView,
    key: Seq<char>,
    now: u128,
)
    requires
        before.table.dom().finite(),
        before.max_keys >= 1,
        before.refills::<A>(after, key, now),
    ensures
        after.table.dom().finite(),
        after.table.len() <= if before.table.len() > before.max_keys {
            before.table.len()
        } else {
            before.max_keys
        },
{
    law_keys_stay_capped(
        before.table,
        after.table,
        key,
        after.table[key],
        before.max_keys,
        Age::Mark,
    );
}

/// A key whose bucket was reset meets a full bucket.
pub proof fn law_token_bucket_reset_fills<A: TokenArithmetic>(
    before: TokenBucketView,
    after: TokenBucketView,
    key: Seq<char>,
    now: u128,
)
    requires
        before.refills::<A>(after, key, now),
    ensures
        look_up(after.table, key) is Some,
        call_ensures(A::full, (before.capacity,), look_up(after.table, key)->0.level),
        look_up(after.table, key)->0.at == now,
{
}

/// At the time of a request, as many tokens remain after it as the verdict said. This is of an
/// arithmetic that keeps a level's whole tokens when it refills for no time.
pub proof fn law_token_bucket_remaining_agrees<A: TokenArithmetic>(
    before: TokenBucketView,
    after: TokenBucketView,
    key: Seq<char>,
    now: u128,
    verdict: (bool, u64),
    left: u64,
)
    requires
        before.acquires::<A>(after, key, now, verdict),
        after.leaves::<A>(key, now, left),
        forall|level: u64| #[trigger]
            call_ensures(
                A::refilled,
                (after.table[key].level, before.capacity, before.rate, 0u128),
                level,
            ) ==> whole_part(level) == whole_part(after.table[key].level),
    ensures
        left == verdict.1,
{
    let state = after.table[key];
    let met = choose|met: KeyView|
        #![trigger bucket_met::<A>(look_up(before.table, key), before.capacity, now, met)]
        bucket_met::<A>(look_up(before.table, key), before.capacity, now, met) && bucket_step::<A>(
            met,
            before.capacity,
            before.rate,
            now,
            state,
            verdict,
        );
    let refilled = choose|refilled: KeyView|
        #![trigger token_spent::<A>(refilled, state, verdict)]
        bucket_refilled::<A>(met, before.capacity, before.rate, now, refilled) && token_spent::<A>(
            refilled,
            state,
            verdict,
        );
    assert(token_spent::<A>(refilled, state, verdict));
    law_token_is_whole(refilled.level);
}

/// Whether an arithmetic refills a level alike each time.
pub open spec fn refills_alike<A: TokenArithmetic>(
    level: u64,
    capacity: u64,
    rate: RefillRate,
    elapsed: u128,
) -> bool {
    forall|a: u64, b: u64| #[trigger]
        call_ensures(A::refilled, (level, capacity, rate, elapsed), a) && #[trigger] call_ensures(
            A::refilled,
            (level, capacity, rate, elapsed),
            b,
        ) ==> a == b
}

/// A key that has asked before is allowed a request exactly where tokens remain for it at that
/// time. This is of an arithmetic that refills the same bucket alike each time.
pub proof fn law_token_bucket_remaining_foretells<A: TokenArithmetic>(
    before: TokenBucketView,
    after: TokenBucketView,
    key: Seq<char>,
    now: u128,
    verdict: (bool, u64),
    left: u64,
)
    requires
        look_up(before.table, key) is Some,
        before.leaves::<A>(key, now, left),
        before.acquires::<A>(after, key, now, verdict),
        refills_alike::<A>(
            before.table[key].level,
            before.capacity,
            before.rate,
            elapsed_nanos(before.table[key].at, now),
        ),
    ensures
        verdict.0 == (left > 0),
{
    let met = before.table[key];
    let state = after.table[key];
    assert(bucket_step::<A>(met, before.capacity, before.rate, now, state, verdict));
    let refilled = choose|refilled: KeyView|
        #![trigger token_spent::<A>(refilled, state, verdict)]
        bucket_refilled::<A>(met, before.capacity, before.rate, now, refilled) && token_spent::<A>(
            refilled,
            state,
            verdict,
        );
    assert(token_spent::<A>(refilled, state, verdict));
    law_token_is_whole(refilled.level);
}

} // verus!
