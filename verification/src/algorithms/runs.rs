//! What holds of limiters that many keys ask, for as long as a key is not evicted.

use super::fixed_window::{fixed_step, window_over, FixedWindowView};
use super::law_other_keys_are_untouched;
use super::laws::{
    ascending, counts_exactly, fixed_run, law_fixed_window_allows_limit,
    law_sliding_window_never_exceeds_limit, lemma_one_at_once, recent_count, sliding_run,
    AllowedRun,
};
use super::sliding_window::SlidingWindowView;
use super::token_bucket::{bucket_met, bucket_step, TokenBucketView};
use crate::table::{look_up, marked_view, Age, KeyView, TableView};
use crate::time::elapsed_nanos;
use crate::tokens::{whole_part, TokenArithmetic};
use vstd::prelude::*;

verus! {

/// A request: its key, its time, and what it came to.
pub struct Asked {
    /// The key.
    pub key: Seq<char>,
    /// The time.
    pub at: u128,
    /// What it came to.
    pub verdict: (bool, u64),
}

/// The times of the requests of a key.
pub open spec fn times_of(asked: Seq<Asked>, key: Seq<char>) -> Seq<u128>
    decreases asked.len(),
{
    if asked.len() == 0 {
        Seq::empty()
    } else if asked.last().key == key {
        times_of(asked.drop_last(), key).push(asked.last().at)
    } else {
        times_of(asked.drop_last(), key)
    }
}

/// The times of the allowed requests of a key.
pub open spec fn allowed_of(asked: Seq<Asked>, key: Seq<char>) -> Seq<u128>
    decreases asked.len(),
{
    if asked.len() == 0 {
        Seq::empty()
    } else if asked.last().key == key && asked.last().verdict.0 {
        allowed_of(asked.drop_last(), key).push(asked.last().at)
    } else {
        allowed_of(asked.drop_last(), key)
    }
}

/// What the requests of a key came to.
pub open spec fn verdicts_of(asked: Seq<Asked>, key: Seq<char>) -> Seq<(bool, u64)>
    decreases asked.len(),
{
    if asked.len() == 0 {
        Seq::empty()
    } else if asked.last().key == key {
        verdicts_of(asked.drop_last(), key).push(asked.last().verdict)
    } else {
        verdicts_of(asked.drop_last(), key)
    }
}

/// Whether requests came in the order of their times.
pub open spec fn in_order(asked: Seq<Asked>) -> bool {
    forall|i: int, j: int| 0 <= i <= j < asked.len() ==> asked[i].at <= asked[j].at
}

/// Whether a sliding window limiter went through the given states, one request after the other.
pub open spec fn sliding_history(views: Seq<SlidingWindowView>, asked: Seq<Asked>) -> bool {
    &&& views.len() == asked.len() + 1
    &&& forall|i: int|
        0 <= i < asked.len() ==> views[i].acquires(
            views[i + 1],
            (#[trigger] asked[i]).key,
            asked[i].at,
            asked[i].verdict,
        )
}

/// Whether a key that a limiter remembers is never evicted.
pub open spec fn retained(tables: Seq<TableView>, key: Seq<char>) -> bool {
    forall|i: int|
        0 <= i < tables.len() - 1 && (#[trigger] tables[i]).contains_key(key) ==> tables[i
            + 1].contains_key(key)
}

/// The tables of a sliding window limiter.
pub open spec fn sliding_tables(views: Seq<SlidingWindowView>) -> Seq<TableView> {
    views.map_values(|view: SlidingWindowView| view.table)
}

/// However many keys ask a sliding window limiter, and however often: of the requests that it
/// allows a key, no more than the limit lie in the window that ends at any time from the last
/// request on, as long as the key is not evicted.
pub proof fn law_sliding_window_limiter_never_exceeds_limit(
    views: Seq<SlidingWindowView>,
    asked: Seq<Asked>,
    key: Seq<char>,
    now: u128,
)
    requires
        sliding_history(views, asked),
        in_order(asked),
        !views[0].table.contains_key(key),
        retained(sliding_tables(views), key),
        asked.len() > 0 ==> asked.last().at <= now,
    ensures
        recent_count(allowed_of(asked, key), views[0].window, now) <= views[0].limit,
{
    let start = marked_view(0, 0);
    let times = times_of(asked, key);
    lemma_sliding_history(views, asked, key);
    lemma_times_in_order(asked, key);
    law_sliding_window_never_exceeds_limit(start, times, views[0].limit, views[0].window, now);
}

/// The times of one key are in order where all are, and none is later than the last of all.
pub(crate) proof fn lemma_times_in_order(asked: Seq<Asked>, key: Seq<char>)
    requires
        in_order(asked),
    ensures
        ascending(times_of(asked, key)),
        forall|i: int|
            0 <= i < times_of(asked, key).len() ==> #[trigger] times_of(asked, key)[i]
                <= asked.last().at,
        times_of(asked, key).len() > 0 ==> asked.len() > 0,
    decreases asked.len(),
{
    if asked.len() > 0 {
        let earlier = asked.drop_last();
        assert forall|i: int, j: int| 0 <= i <= j < earlier.len() implies earlier[i].at
            <= earlier[j].at by {
            assert(earlier[i] == asked[i] && earlier[j] == asked[j]);
        }
        lemma_times_in_order(earlier, key);
        if earlier.len() > 0 {
            assert(earlier.last() == asked[asked.len() - 2]);
            assert(earlier.last().at <= asked.last().at);
        }
    }
}

/// What a sliding window limiter remembers of a key is what the requests of that key alone left.
pub(crate) proof fn lemma_sliding_history(views: Seq<SlidingWindowView>, asked: Seq<Asked>, key: Seq<char>)
    requires
        sliding_history(views, asked),
        !views[0].table.contains_key(key),
        retained(sliding_tables(views), key),
    ensures
        views.last().limit == views[0].limit,
        views.last().window == views[0].window,
        ({
            let run = sliding_run(
                marked_view(0, 0),
                times_of(asked, key),
                views[0].limit,
                views[0].window,
            );
            views.last().met_by(key) == run.state && allowed_of(asked, key) == run.allowed
        }),
    decreases asked.len(),
{
    if asked.len() > 0 {
        let earlier = asked.drop_last();
        let before = views.drop_last();
        assert(sliding_history(before, earlier)) by {
            assert forall|i: int| 0 <= i < earlier.len() implies before[i].acquires(
                before[i + 1],
                (#[trigger] earlier[i]).key,
                earlier[i].at,
                earlier[i].verdict,
            ) by {
                assert(earlier[i] == asked[i]);
            }
        }
        assert(retained(sliding_tables(before), key)) by {
            let all = sliding_tables(views);
            let some = sliding_tables(before);
            assert forall|i: int|
                0 <= i < some.len() - 1 && (#[trigger] some[i]).contains_key(key) implies some[i
                + 1].contains_key(key) by {
                assert(some[i] == all[i] && some[i + 1] == all[i + 1]);
            }
        }
        lemma_sliding_history(before, earlier, key);
        let n = asked.len() - 1;
        let last = asked[n];
        let from = views[n];
        let to = views[n + 1];
        assert(before.last() == from && views.last() == to);
        assert(from.acquires(to, last.key, last.at, last.verdict));
        if last.key == key {
            assert(times_of(asked, key).drop_last() =~= times_of(earlier, key));
        } else {
            law_other_keys_are_untouched(
                from.table,
                to.table,
                last.key,
                from.step(last.key, last.at).0,
                from.max_keys,
                Age::Log,
                key,
            );
            let all = sliding_tables(views);
            assert(all[n] == from.table && all[n + 1] == to.table);
        }
    }
}

/// A run of requests of one key against a fixed window: what is remembered after it, and the times
/// of those that were allowed.
pub open spec fn fixed_allowed(
    start: KeyView,
    times: Seq<u128>,
    limit: u64,
    window: nat,
) -> AllowedRun
    decreases times.len(),
{
    if times.len() == 0 {
        AllowedRun { state: start, allowed: Seq::empty() }
    } else {
        let before = fixed_allowed(start, times.drop_last(), limit, window);
        let (state, verdict) = fixed_step(before.state, limit, window, times.last());
        AllowedRun {
            state,
            allowed: if verdict.0 {
                before.allowed.push(times.last())
            } else {
                before.allowed
            },
        }
    }
}

/// How many of the times lie less than a window back.
pub open spec fn within_count(times: Seq<u128>, window: nat, now: u128) -> nat
    decreases times.len(),
{
    if times.len() == 0 {
        0
    } else {
        within_count(times.drop_last(), window, now) + if elapsed_nanos(times.last(), now)
            < window {
            1nat
        } else {
            0nat
        }
    }
}

/// However many requests a key makes against a fixed window, and whenever it makes them: of those
/// allowed, no more than twice the limit lie less than a window before any time from the last
/// request on. That many can, at the end of one window and the start of the next.
pub proof fn law_fixed_window_at_most_doubles_limit(
    start: KeyView,
    times: Seq<u128>,
    limit: u64,
    window: nat,
    now: u128,
)
    requires
        start.level == 0,
        ascending(times),
        times.len() > 0 ==> start.at <= times[0] && times.last() <= now,
    ensures
        within_count(fixed_allowed(start, times, limit, window).allowed, window, now) <= 2 * limit,
{
    let run = fixed_allowed(start, times, limit, window);
    if times.len() > 0 {
        let (p, q) = lemma_fixed_split(start, times, limit, window);
        assert forall|i: int| 0 <= i < p implies elapsed_nanos(#[trigger] run.allowed[i], now)
            >= window by {
            assert(run.allowed[i] + window <= run.state.at);
        }
        lemma_within_at_most(run.allowed, p, window, now);
    }
}

/// The allowed requests fall into those of the current window, from `q` on, those of the one
/// before, from `p` on, and older ones, which lie a whole window before the current one.
proof fn lemma_fixed_split(start: KeyView, times: Seq<u128>, limit: u64, window: nat) -> (split: (
    int,
    int,
))
    requires
        start.level == 0,
        ascending(times),
        times.len() > 0 ==> start.at <= times[0],
    ensures
        ({
            let run = fixed_allowed(start, times, limit, window);
            let (p, q) = split;
            &&& 0 <= p <= q <= run.allowed.len()
            &&& q - p <= limit
            &&& run.allowed.len() - q == run.state.level
            &&& run.state.level <= limit
            &&& times.len() > 0 ==> run.state.at <= times.last()
            &&& times.len() == 0 ==> run.state.at == start.at
            &&& forall|i: int|
                0 <= i < run.allowed.len() ==> #[trigger] run.allowed[i] <= times.last()
            &&& forall|i: int| 0 <= i < q ==> #[trigger] run.allowed[i] <= run.state.at
            &&& forall|i: int| 0 <= i < p ==> #[trigger] run.allowed[i] + window <= run.state.at
        }),
    decreases times.len(),
{
    let run = fixed_allowed(start, times, limit, window);
    if times.len() == 0 {
        (0, 0)
    } else {
        let earlier = times.drop_last();
        let now = times.last();
        assert forall|i: int, j: int| 0 <= i <= j < earlier.len() implies earlier[i]
            <= earlier[j] by {
            assert(earlier[i] == times[i] && earlier[j] == times[j]);
        }
        if earlier.len() > 0 {
            assert(earlier[0] == times[0]);
            assert(earlier.last() == times[times.len() - 2]);
        }
        let (p, q) = lemma_fixed_split(start, earlier, limit, window);
        let before = fixed_allowed(start, earlier, limit, window);
        assert(before.state.at <= now) by {
            if earlier.len() == 0 {
                assert(times[0] == now);
            }
        }
        assert forall|i: int| 0 <= i < before.allowed.len() implies #[trigger] before.allowed[i]
            <= now by {
            assert(before.allowed[i] <= earlier.last());
        }
        if window_over(before.state.at, window, now) {
            let len = before.allowed.len() as int;
            assert forall|i: int| 0 <= i < q implies #[trigger] run.allowed[i] + window
                <= run.state.at by {
                assert(run.allowed[i] == before.allowed[i]);
            }
            assert forall|i: int| 0 <= i < len implies #[trigger] run.allowed[i]
                <= run.state.at by {
                assert(run.allowed[i] == before.allowed[i]);
            }
            (q, len)
        } else {
            assert forall|i: int| 0 <= i < q implies #[trigger] run.allowed[i]
                <= run.state.at by {
                assert(run.allowed[i] == before.allowed[i]);
            }
            assert forall|i: int| 0 <= i < p implies #[trigger] run.allowed[i] + window
                <= run.state.at by {
                assert(run.allowed[i] == before.allowed[i]);
            }
            (p, q)
        }
    }
}

/// Where the first `p` times lie a window back or more, the others are all that can lie within it.
proof fn lemma_within_at_most(times: Seq<u128>, p: int, window: nat, now: u128)
    requires
        0 <= p <= times.len(),
        forall|i: int| 0 <= i < p ==> elapsed_nanos(#[trigger] times[i], now) >= window,
    ensures
        within_count(times, window, now) <= times.len() - p,
    decreases times.len(),
{
    if times.len() > 0 {
        let rest = times.drop_last();
        assert forall|i: int| 0 <= i < p && i < rest.len() implies elapsed_nanos(
            #[trigger] rest[i],
            now,
        ) >= window by {
            assert(rest[i] == times[i]);
        }
        if p == times.len() {
            assert(elapsed_nanos(times[p - 1], now) >= window);
            lemma_within_at_most(rest, p - 1, window, now);
        } else {
            lemma_within_at_most(rest, p, window, now);
        }
    }
}

/// Whether a fixed window limiter went through the given states, one request after the other.
pub open spec fn fixed_history(views: Seq<FixedWindowView>, asked: Seq<Asked>) -> bool {
    &&& views.len() == asked.len() + 1
    &&& forall|i: int|
        0 <= i < asked.len() ==> views[i].acquires(
            views[i + 1],
            (#[trigger] asked[i]).key,
            asked[i].at,
            asked[i].verdict,
        )
}

/// The tables of a fixed window limiter.
pub open spec fn fixed_tables(views: Seq<FixedWindowView>) -> Seq<TableView> {
    views.map_values(|view: FixedWindowView| view.table)
}

/// However many keys ask a fixed window limiter, and however often: of the requests that it allows
/// a key, no more than twice the limit lie less than a window before any time from the last request
/// on, as long as the key is not evicted.
pub proof fn law_fixed_window_limiter_at_most_doubles_limit(
    views: Seq<FixedWindowView>,
    asked: Seq<Asked>,
    key: Seq<char>,
    now: u128,
)
    requires
        fixed_history(views, asked),
        in_order(asked),
        !views[0].table.contains_key(key),
        retained(fixed_tables(views), key),
        asked.len() > 0 ==> asked.last().at <= now,
    ensures
        within_count(allowed_of(asked, key), views[0].window, now) <= 2 * views[0].limit,
{
    let times = times_of(asked, key);
    let start = marked_view(
        0,
        if times.len() > 0 {
            times[0]
        } else {
            0
        },
    );
    lemma_fixed_history(views, asked, key);
    lemma_times_in_order(asked, key);
    law_fixed_window_at_most_doubles_limit(start, times, views[0].limit, views[0].window, now);
}

/// However many keys ask a fixed window limiter: of the requests that a new key makes before its
/// window is over, the first ones up to the limit are allowed, with one less remaining each time,
/// and all others are denied, as long as the key is not evicted.
pub proof fn law_fixed_window_limiter_allows_limit(
    views: Seq<FixedWindowView>,
    asked: Seq<Asked>,
    key: Seq<char>,
    i: int,
)
    requires
        fixed_history(views, asked),
        !views[0].table.contains_key(key),
        retained(fixed_tables(views), key),
        0 <= i < times_of(asked, key).len(),
        forall|j: int|
            0 <= j < times_of(asked, key).len() ==> !window_over(
                times_of(asked, key)[0],
                views[0].window,
                #[trigger] times_of(asked, key)[j],
            ),
    ensures
        verdicts_of(asked, key).len() == times_of(asked, key).len(),
        verdicts_of(asked, key)[i] == if i < views[0].limit {
            (true, (views[0].limit - i - 1) as u64)
        } else {
            (false, 0u64)
        },
{
    let times = times_of(asked, key);
    let start = marked_view(0, times[0]);
    lemma_fixed_history(views, asked, key);
    law_fixed_window_allows_limit(start, times, views[0].limit, views[0].window);
    assert(fixed_run(start, times, views[0].limit, views[0].window).verdicts[i] == verdicts_of(
        asked,
        key,
    )[i]);
}

/// What a fixed window limiter remembers of a key is what the requests of that key alone left.
pub(crate) proof fn lemma_fixed_history(views: Seq<FixedWindowView>, asked: Seq<Asked>, key: Seq<char>)
    requires
        fixed_history(views, asked),
        !views[0].table.contains_key(key),
        retained(fixed_tables(views), key),
    ensures
        views.last().limit == views[0].limit,
        views.last().window == views[0].window,
        ({
            let times = times_of(asked, key);
            let start = marked_view(
                0,
                if times.len() > 0 {
                    times[0]
                } else {
                    0
                },
            );
            let run = fixed_allowed(start, times, views[0].limit, views[0].window);
            &&& look_up(views.last().table, key) == if times.len() > 0 {
                Some(run.state)
            } else {
                None
            }
            &&& allowed_of(asked, key) == run.allowed
            &&& fixed_run(start, times, views[0].limit, views[0].window).state == run.state
            &&& fixed_run(start, times, views[0].limit, views[0].window).verdicts == verdicts_of(
                asked,
                key,
            )
        }),
    decreases asked.len(),
{
    if asked.len() > 0 {
        let earlier = asked.drop_last();
        let before = views.drop_last();
        assert(fixed_history(before, earlier)) by {
            assert forall|i: int| 0 <= i < earlier.len() implies before[i].acquires(
                before[i + 1],
                (#[trigger] earlier[i]).key,
                earlier[i].at,
                earlier[i].verdict,
            ) by {
                assert(earlier[i] == asked[i]);
            }
        }
        assert(retained(fixed_tables(before), key)) by {
            let all = fixed_tables(views);
            let some = fixed_tables(before);
            assert forall|i: int|
                0 <= i < some.len() - 1 && (#[trigger] some[i]).contains_key(key) implies some[i
                + 1].contains_key(key) by {
                assert(some[i] == all[i] && some[i + 1] == all[i + 1]);
            }
        }
        lemma_fixed_history(before, earlier, key);
        let n = asked.len() - 1;
        let last = asked[n];
        let from = views[n];
        let to = views[n + 1];
        assert(before.last() == from && views.last() == to);
        assert(from.acquires(to, last.key, last.at, last.verdict));
        let times = times_of(asked, key);
        let earlier_times = times_of(earlier, key);
        if last.key == key {
            assert(times.drop_last() =~= earlier_times);
            if earlier_times.len() > 0 {
                assert(times[0] == earlier_times[0]);
            } else {
                reveal_with_fuel(fixed_allowed, 2);
                reveal_with_fuel(fixed_run, 2);
                assert(times[0] == last.at);
            }
        } else {
            law_other_keys_are_untouched(
                from.table,
                to.table,
                last.key,
                from.step(last.key, last.at).0,
                from.max_keys,
                Age::Mark,
                key,
            );
            let all = fixed_tables(views);
            assert(all[n] == from.table && all[n + 1] == to.table);
        }
    }
}

/// Whether a token bucket limiter went through the given states, one request after the other.
pub open spec fn bucket_history<A: TokenArithmetic>(
    views: Seq<TokenBucketView>,
    asked: Seq<Asked>,
) -> bool {
    &&& views.len() == asked.len() + 1
    &&& forall|i: int|
        0 <= i < asked.len() ==> views[i].acquires::<A>(
            views[i + 1],
            (#[trigger] asked[i]).key,
            asked[i].at,
            asked[i].verdict,
        )
}

/// The tables of a token bucket limiter.
pub open spec fn bucket_tables(views: Seq<TokenBucketView>) -> Seq<TableView> {
    views.map_values(|view: TokenBucketView| view.table)
}

/// However many keys ask a token bucket limiter: of the requests that a new key makes at once, the
/// first ones up to the capacity are allowed, with one token less remaining each time, and all
/// others are denied, as long as the key is not evicted. This is of an arithmetic that counts up to
/// the capacity without rounding.
pub proof fn law_token_bucket_limiter_allows_burst<A: TokenArithmetic>(
    views: Seq<TokenBucketView>,
    asked: Seq<Asked>,
    key: Seq<char>,
    now: u128,
    i: int,
)
    requires
        bucket_history::<A>(views, asked),
        !views[0].table.contains_key(key),
        retained(bucket_tables(views), key),
        forall|full: u64| #[trigger]
            call_ensures(A::full, (views[0].capacity,), full) ==> counts_exactly::<A>(
                views[0].capacity,
                views[0].rate,
                full,
            ),
        forall|j: int|
            0 <= j < asked.len() && (#[trigger] asked[j]).key == key ==> asked[j].at == now,
        0 <= i < verdicts_of(asked, key).len(),
    ensures
        verdicts_of(asked, key)[i] == if i < views[0].capacity {
            (true, (views[0].capacity - i - 1) as u64)
        } else {
            (false, 0u64)
        },
{
    let _ = lemma_bucket_history::<A>(views, asked, key, now);
}

/// What is left of a new key's bucket after requests at once, and what they came to. The level of a
/// full bucket is handed back.
proof fn lemma_bucket_history<A: TokenArithmetic>(
    views: Seq<TokenBucketView>,
    asked: Seq<Asked>,
    key: Seq<char>,
    now: u128,
) -> (full: u64)
    requires
        bucket_history::<A>(views, asked),
        !views[0].table.contains_key(key),
        retained(bucket_tables(views), key),
        forall|full: u64| #[trigger]
            call_ensures(A::full, (views[0].capacity,), full) ==> counts_exactly::<A>(
                views[0].capacity,
                views[0].rate,
                full,
            ),
        forall|j: int|
            0 <= j < asked.len() && (#[trigger] asked[j]).key == key ==> asked[j].at == now,
    ensures
        views.last().capacity == views[0].capacity,
        views.last().rate == views[0].rate,
        ({
            let verdicts = verdicts_of(asked, key);
            let capacity = views[0].capacity;
            &&& look_up(views.last().table, key) is None <==> verdicts.len() == 0
            &&& verdicts.len() > 0 ==> {
                let state = look_up(views.last().table, key)->0;
                &&& counts_exactly::<A>(capacity, views[0].rate, full)
                &&& state.at == now
                &&& state.level <= full
                &&& whole_part(state.level) as int == if verdicts.len() < capacity {
                    capacity - verdicts.len()
                } else {
                    0
                }
            }
            &&& forall|i: int|
                0 <= i < verdicts.len() ==> #[trigger] verdicts[i] == if i < capacity {
                    (true, (capacity - i - 1) as u64)
                } else {
                    (false, 0u64)
                }
        }),
    decreases asked.len(),
{
    if asked.len() == 0 {
        0
    } else {
        let earlier = asked.drop_last();
        let before = views.drop_last();
        assert(bucket_history::<A>(before, earlier)) by {
            assert forall|i: int| 0 <= i < earlier.len() implies before[i].acquires::<A>(
                before[i + 1],
                (#[trigger] earlier[i]).key,
                earlier[i].at,
                earlier[i].verdict,
            ) by {
                assert(earlier[i] == asked[i]);
            }
        }
        assert(retained(bucket_tables(before), key)) by {
            let all = bucket_tables(views);
            let some = bucket_tables(before);
            assert forall|i: int|
                0 <= i < some.len() - 1 && (#[trigger] some[i]).contains_key(key) implies some[i
                + 1].contains_key(key) by {
                assert(some[i] == all[i] && some[i + 1] == all[i + 1]);
            }
        }
        assert forall|j: int|
            0 <= j < earlier.len() && (#[trigger] earlier[j]).key == key implies earlier[j].at
            == now by {
            assert(earlier[j] == asked[j]);
        }
        let full_before = lemma_bucket_history::<A>(before, earlier, key, now);
        let n = asked.len() - 1;
        let last = asked[n];
        let from = views[n];
        let to = views[n + 1];
        assert(before.last() == from && views.last() == to);
        assert(from.acquires::<A>(to, last.key, last.at, last.verdict));
        if last.key == key {
            let met = choose|met: KeyView|
                #![trigger bucket_met::<A>(look_up(from.table, key), from.capacity, now, met)]
                bucket_met::<A>(look_up(from.table, key), from.capacity, now, met) && bucket_step::<
                    A,
                >(met, from.capacity, from.rate, now, to.table[key], last.verdict);
            let full = if verdicts_of(earlier, key).len() > 0 {
                full_before
            } else {
                met.level
            };
            lemma_one_at_once::<A>(
                from.capacity,
                from.rate,
                now,
                full,
                met,
                to.table[key],
                last.verdict,
            );
            full
        } else {
            law_other_keys_are_untouched(
                from.table,
                to.table,
                last.key,
                to.table[last.key],
                from.max_keys,
                Age::Mark,
                key,
            );
            let all = bucket_tables(views);
            assert(all[n] == from.table && all[n + 1] == to.table);
            full_before
        }
    }
}

} // verus!
