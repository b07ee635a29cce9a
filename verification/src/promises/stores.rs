//! The store in memory: windows, logs, what remains, and what is forgotten.

use super::fixed_windows::{lemma_run_counts, lemma_run_prefix, lemma_window_counts};
use super::sliding_windows::{lemma_made_within, made_within};
use crate::algorithms::laws::{
    ascending, fixed_run, law_sliding_window_tells_what_remains, lemma_recent_is_live, sliding_run,
};
use crate::algorithms::runs::{
    allowed_of, in_order, lemma_times_in_order, times_of, verdicts_of, Asked,
};
use crate::error::RateLimitResult;
use crate::stores::memory::{cleaned_table, live_count, MemoryView};
use crate::stores::{MemoryStore, RateLimitStore};
use crate::table::{
    fresh_part, is_fresh, marked_view, not_after, stamp, Age, KeyView, TableView,
};
use crate::time::{clock_says, duration_nanos};
use crate::tokens::TokenArithmetic;
use std::time::Duration;
use vstd::prelude::*;

verus! {

/// A request of a key whose fixed window started a whole window ago, or longer, begins a new
/// window: it is allowed, and all but one of the limit remain. Nothing else changes.
pub proof fn law_store_window_ends_after_its_length(
    before: MemoryView,
    key: Seq<char>,
    limit: u64,
    window: nat,
    now: u128,
)
    requires
        limit > 0,
        before.windows.contains_key(key),
        now - before.windows[key].at >= window,
    ensures
        ({
            let (after, verdict) = before.window_step(key, limit, window, now);
            &&& verdict.0
            &&& verdict.1 == limit - 1
            &&& after.windows[key].at == now
            &&& after.windows[key].seen == now
            &&& after.windows[key].level == 1
            &&& after == (MemoryView {
                windows: before.windows.insert(key, after.windows[key]),
                ..before
            })
        }),
{
}

/// A request of a key whose fixed window started less than a window ago counts against that window:
/// it is allowed where fewer than the limit were, with one less remaining than before, and denied
/// otherwise. Nothing else changes.
pub proof fn law_store_window_lasts_its_length(
    before: MemoryView,
    key: Seq<char>,
    limit: u64,
    window: nat,
    now: u128,
)
    requires
        before.windows.contains_key(key),
        now - before.windows[key].at < window,
        window > 0,
    ensures
        ({
            let (after, verdict) = before.window_step(key, limit, window, now);
            let made = before.windows[key].level;
            &&& verdict.0 == (made < limit)
            &&& verdict.0 ==> verdict.1 + made + 1 == limit
            &&& !verdict.0 ==> verdict.1 == 0
            &&& after.windows[key].at == before.windows[key].at
            &&& after.windows[key].seen == now
            &&& after.windows[key].level == made + if verdict.0 {
                1int
            } else {
                0
            }
            &&& after == (MemoryView {
                windows: before.windows.insert(key, after.windows[key]),
                ..before
            })
        }),
{
}

/// The first request of a key begins its fixed window. The limit and the length that a request asks
/// for are remembered with it.
pub proof fn law_store_window_starts_with_first_request(
    before: MemoryView,
    key: Seq<char>,
    limit: u64,
    window: nat,
    now: u128,
)
    requires
        limit > 0,
        window <= u128::MAX,
    ensures
        ({
            let (after, verdict) = before.window_step(key, limit, window, now);
            &&& !before.windows.contains_key(key) ==> verdict == (true, (limit - 1) as u64)
            &&& !before.windows.contains_key(key) ==> after.windows[key].at == now
            &&& !before.windows.contains_key(key) ==> after.windows[key].level == 1
            &&& after.windows[key].seen == now
            &&& after.windows[key].limit == limit
            &&& after.windows[key].window == window
            &&& after == (MemoryView {
                windows: before.windows.insert(key, after.windows[key]),
                ..before
            })
        }),
{
}

/// What the store says a fixed window still takes leads to its end: to the time that lies a window
/// after its start. It takes nothing once that time has come.
pub proof fn law_store_window_left_leads_to_the_end(
    store: MemoryView,
    key: Seq<char>,
    window: nat,
    now: u128,
)
    requires
        store.windows.contains_key(key),
        store.windows[key].at <= now,
    ensures
        now - store.windows[key].at < window ==> now + store.window_left(key, window, now)
            == store.windows[key].at + window,
        now - store.windows[key].at >= window ==> store.window_left(key, window, now) == 0,
{
}

/// What remains of a key's fixed window foretells the next request, at any time, if that asks with
/// the same limit and length: it is allowed exactly where some remain, and then leaves one less.
pub proof fn law_store_fixed_remaining_foretells(
    store: MemoryView,
    key: Seq<char>,
    limit: u64,
    window: nat,
    now: u128,
)
    requires
        limit > 0,
        !store.buckets.contains_key(key),
        store.windows.contains_key(key),
        store.windows[key].limit == limit,
        store.windows[key].window == window,
    ensures
        ({
            let verdict = store.window_step(key, limit, window, now).1;
            &&& verdict.0 == (store.left(key, now) > 0)
            &&& verdict.0 ==> verdict.1 == store.left(key, now) - 1
            &&& now - store.windows[key].at >= window ==> store.left(key, now) == limit
            &&& store.left(key, now) <= limit
        }),
{
}

/// A key that the store does not know has nothing left.
pub proof fn law_store_knows_nothing_of_new_keys(store: MemoryView, key: Seq<char>, now: u128)
    requires
        !store.buckets.contains_key(key),
        !store.windows.contains_key(key),
        !store.logs.contains_key(key),
    ensures
        store.left(key, now) == 0,
{
}

/// Whether a store went through the given states, one request after the other, where each request
/// of the key goes against its sliding window and no other changes the key's log.
pub open spec fn log_store_history(
    views: Seq<MemoryView>,
    asked: Seq<Asked>,
    key: Seq<char>,
    limit: u64,
    window: nat,
) -> bool {
    &&& views.len() == asked.len() + 1
    &&& forall|i: int|
        0 <= i < asked.len() ==> if (#[trigger] asked[i]).key == key {
            (views[i + 1], asked[i].verdict) == views[i].log_step(key, limit, window, asked[i].at)
        } else {
            &&& views[i + 1].logs.contains_key(key) == views[i].logs.contains_key(key)
            &&& views[i + 1].logs[key] == views[i].logs[key]
        }
}

/// However many requests the store is asked for, and whenever: one against a key's sliding window
/// is allowed exactly where fewer than the limit of the key's earlier requests were allowed in the
/// window that ends with it, and then as many remain as the limit has beyond those and this one.
pub proof fn law_store_sliding_window_counts_allowed_requests(
    views: Seq<MemoryView>,
    asked: Seq<Asked>,
    limit: u64,
    window: nat,
)
    requires
        asked.len() > 0,
        log_store_history(views, asked, asked.last().key, limit, window),
        in_order(asked),
        !views[0].logs.contains_key(asked.last().key),
    ensures
        ({
            let last = asked.last();
            let allowed = allowed_of(asked.drop_last(), last.key);
            let count = made_within(allowed, window, last.at);
            &&& last.verdict.0 == (count < limit)
            &&& last.verdict.0 ==> last.verdict.1 + count + 1 == limit
            &&& !last.verdict.0 ==> last.verdict.1 == 0
        }),
{
    let last = asked.last();
    let key = last.key;
    let n = asked.len() - 1;
    let earlier = asked.drop_last();
    lemma_log_store_prefix(views, asked, key, limit, window);
    lemma_log_store(views.drop_last(), earlier, key, limit, window);
    lemma_times_in_order(asked, key);
    let times = times_of(asked, key);
    assert(times.drop_last() =~= times_of(earlier, key));
    assert(asked[n] == last);
    let start = KeyView { limit, window: window as u128, ..marked_view(0, 0) };
    law_sliding_window_tells_what_remains(start, times, limit, window);
    let run = sliding_run(start, times.drop_last(), limit, window);
    lemma_made_within(run.allowed, window, last.at);
    assert(views.drop_last().last() == views[n]);
    assert((views[n + 1], last.verdict) == views[n].log_step(key, limit, window, last.at));
}

/// All but the last request of a history are a history.
proof fn lemma_log_store_prefix(
    views: Seq<MemoryView>,
    asked: Seq<Asked>,
    key: Seq<char>,
    limit: u64,
    window: nat,
)
    requires
        asked.len() > 0,
        log_store_history(views, asked, key, limit, window),
    ensures
        log_store_history(views.drop_last(), asked.drop_last(), key, limit, window),
{
    let earlier = asked.drop_last();
    let before = views.drop_last();
    assert forall|i: int| 0 <= i < earlier.len() implies if (#[trigger] earlier[i]).key == key {
        (before[i + 1], earlier[i].verdict) == before[i].log_step(key, limit, window, earlier[i].at)
    } else {
        &&& before[i + 1].logs.contains_key(key) == before[i].logs.contains_key(key)
        &&& before[i + 1].logs[key] == before[i].logs[key]
    } by {
        assert(earlier[i] == asked[i]);
    }
}

/// What the store remembers of a key is what the requests of that key alone left.
proof fn lemma_log_store(
    views: Seq<MemoryView>,
    asked: Seq<Asked>,
    key: Seq<char>,
    limit: u64,
    window: nat,
)
    requires
        log_store_history(views, asked, key, limit, window),
        !views[0].logs.contains_key(key),
    ensures
        ({
            let start = KeyView { limit, window: window as u128, ..marked_view(0, 0) };
            let run = sliding_run(start, times_of(asked, key), limit, window);
            views.last().log_met(key, limit, window) == run.state && allowed_of(asked, key)
                == run.allowed
        }),
    decreases asked.len(),
{
    if asked.len() > 0 {
        let n = asked.len() - 1;
        let earlier = asked.drop_last();
        let before = views.drop_last();
        lemma_log_store_prefix(views, asked, key, limit, window);
        lemma_log_store(before, earlier, key, limit, window);
        assert(before.last() == views[n] && views.last() == views[n + 1]);
        assert(asked[n] == asked.last());
        if asked.last().key == key {
            assert(times_of(asked, key).drop_last() =~= times_of(earlier, key));
            assert((views[n + 1], asked[n].verdict) == views[n].log_step(
                key,
                limit,
                window,
                asked[n].at,
            ));
        }
    }
}

/// A request against a sliding window of the store changes nothing but the key's log, and remembers
/// the limit and the length that it asks for.
pub proof fn law_store_log_changes_nothing_else(
    before: MemoryView,
    key: Seq<char>,
    limit: u64,
    window: nat,
    now: u128,
)
    requires
        window <= u128::MAX,
    ensures
        ({
            let after = before.log_step(key, limit, window, now).0;
            &&& after.logs[key].seen == now
            &&& after.logs[key].limit == limit
            &&& after.logs[key].window == window
            &&& after == (MemoryView { logs: before.logs.insert(key, after.logs[key]), ..before })
        }),
{
}

/// What remains of a key's sliding window foretells the next request, if that asks with the same
/// limit and length: it is allowed exactly where some remain, and then leaves one less. This is of
/// times at which no logged request lies a window back to the nanosecond: such a request still
/// counts against the next one, and no longer counts in what remains.
pub proof fn law_store_sliding_remaining_foretells(
    store: MemoryView,
    key: Seq<char>,
    limit: u64,
    window: nat,
    now: u128,
)
    requires
        !store.buckets.contains_key(key),
        !store.windows.contains_key(key),
        store.logs.contains_key(key),
        store.logs[key].limit == limit,
        store.logs[key].window == window,
        ascending(store.logs[key].log),
        window > 0,
        forall|i: int|
            0 <= i < store.logs[key].log.len() ==> now - #[trigger] store.logs[key].log[i]
                != window,
    ensures
        ({
            let verdict = store.log_step(key, limit, window, now).1;
            &&& verdict.0 == (store.left(key, now) > 0)
            &&& verdict.0 ==> verdict.1 == store.left(key, now) - 1
            &&& store.left(key, now) <= limit
            &&& made_within(store.logs[key].log, window, now) < limit ==> store.left(key, now)
                + made_within(store.logs[key].log, window, now) == limit
            &&& made_within(store.logs[key].log, window, now) >= limit ==> store.left(key, now)
                == 0
        }),
{
    let log = store.logs[key].log;
    lemma_recent_is_live(log, window, now);
    lemma_made_within(log, window, now);
    lemma_counts_agree(log, window as u128, now);
}

/// Where no time lies a window back, those that lie less than a window back are those that lie no
/// more than a window back.
proof fn lemma_counts_agree(log: Seq<u128>, window: u128, now: u128)
    requires
        window > 0,
        forall|i: int| 0 <= i < log.len() ==> now - #[trigger] log[i] != window,
    ensures
        live_count(log, window, now) == made_within(log, window as nat, now),
    decreases log.len(),
{
    if log.len() > 0 {
        let rest = log.drop_last();
        assert forall|i: int| 0 <= i < rest.len() implies now - #[trigger] rest[i] != window by {
            assert(rest[i] == log[i]);
        }
        assert(now - log[log.len() - 1] != window);
        lemma_counts_agree(rest, window, now);
    }
}

/// A reset forgets the key, whatever it used, and no other.
pub proof fn law_store_reset_forgets_that_key_alone(
    before: MemoryView,
    key: Seq<char>,
    other: Seq<char>,
)
    requires
        other != key,
    ensures
        ({
            let after = before.without(key);
            &&& !after.buckets.contains_key(key)
            &&& !after.logs.contains_key(key)
            &&& !after.windows.contains_key(key)
            &&& after.buckets.contains_key(other) == before.buckets.contains_key(other)
            &&& after.logs.contains_key(other) == before.logs.contains_key(other)
            &&& after.windows.contains_key(other) == before.windows.contains_key(other)
            &&& before.buckets.contains_key(other) ==> after.buckets[other]
                == before.buckets[other]
            &&& before.logs.contains_key(other) ==> after.logs[other] == before.logs[other]
            &&& before.windows.contains_key(other) ==> after.windows[other]
                == before.windows[other]
            &&& after.idle_ttl == before.idle_ttl
            &&& after.max_keys == before.max_keys
            &&& after.origin == before.origin
        }),
{
}

/// A cleanup forgets every token bucket whose last request lies the idle time back, and keeps the
/// others as they are; it forgets others only down to the cap, and none of those is younger than
/// one that it keeps.
pub proof fn law_cleanup_forgets_idle_buckets(
    before: MemoryView,
    after: MemoryView,
    key: Seq<char>,
    kept: Seq<char>,
    now: u128,
)
    requires
        before.cleaned(after, now),
        before.idle_ttl <= u128::MAX,
        before.buckets.contains_key(key),
    ensures
        now - before.buckets[key].at >= before.idle_ttl ==> !after.buckets.contains_key(key),
        before.idle_ttl == 0 ==> !after.buckets.contains_key(key),
        after.buckets.contains_key(key) ==> after.buckets[key] == before.buckets[key],
        before.idle_ttl > 0 && now - before.buckets[key].at < before.idle_ttl
            && !after.buckets.contains_key(key) ==> before.max_keys is Some && after.buckets.len()
            == before.max_keys->0 && (
        after.buckets.contains_key(kept) ==> before.buckets.contains_key(kept)
            && before.buckets[key].at <= before.buckets[kept].at),
        before.max_keys is Some ==> after.buckets.len() <= before.max_keys->0,
{
    let ttl = before.idle_ttl as u128;
    let max = before.max_keys;
    lemma_cleaned_plainly(
        before.buckets,
        after.buckets,
        Age::Mark,
        now,
        ttl,
        Age::Mark,
        max,
        key,
        kept,
    );
}

/// A cleanup forgets every fixed window whose last request lies the idle time back, whenever the
/// window started, and keeps the others as they are; it forgets others only down to the cap, and
/// none of those started after one that it keeps.
pub proof fn law_cleanup_forgets_idle_windows(
    before: MemoryView,
    after: MemoryView,
    key: Seq<char>,
    kept: Seq<char>,
    now: u128,
)
    requires
        before.cleaned(after, now),
        before.idle_ttl <= u128::MAX,
        before.windows.contains_key(key),
    ensures
        now - before.windows[key].seen >= before.idle_ttl ==> !after.windows.contains_key(key),
        before.idle_ttl == 0 ==> !after.windows.contains_key(key),
        after.windows.contains_key(key) ==> after.windows[key] == before.windows[key],
        before.idle_ttl > 0 && now - before.windows[key].seen < before.idle_ttl
            && !after.windows.contains_key(key) ==> before.max_keys is Some && after.windows.len()
            == before.max_keys->0 && (
        after.windows.contains_key(kept) ==> before.windows.contains_key(kept)
            && before.windows[key].at <= before.windows[kept].at),
        before.max_keys is Some ==> after.windows.len() <= before.max_keys->0,
{
    let ttl = before.idle_ttl as u128;
    let max = before.max_keys;
    lemma_cleaned_plainly(
        before.windows,
        after.windows,
        Age::Seen,
        now,
        ttl,
        Age::Mark,
        max,
        key,
        kept,
    );
}

/// A cleanup forgets every log without entries and every log whose last request lies the idle time
/// back, and keeps the others as they are; it forgets others only down to the cap, and the last
/// entry of none of those is younger than that of one that it keeps.
pub proof fn law_cleanup_forgets_idle_logs(
    before: MemoryView,
    after: MemoryView,
    key: Seq<char>,
    kept: Seq<char>,
    now: u128,
)
    requires
        before.cleaned(after, now),
        before.idle_ttl <= u128::MAX,
        before.logs.contains_key(key),
    ensures
        now - before.logs[key].seen >= before.idle_ttl ==> !after.logs.contains_key(key),
        before.idle_ttl == 0 ==> !after.logs.contains_key(key),
        before.logs[key].log.len() == 0 ==> !after.logs.contains_key(key),
        after.logs.contains_key(key) ==> after.logs[key] == before.logs[key],
        before.idle_ttl > 0 && now - before.logs[key].seen < before.idle_ttl
            && before.logs[key].log.len() > 0
            && !after.logs.contains_key(key) ==> before.max_keys is Some && after.logs.len()
            == before.max_keys->0 && (after.logs.contains_key(kept) ==> before.logs.contains_key(
            kept,
        ) && before.logs[key].log.last() <= before.logs[kept].log.last()),
        before.max_keys is Some ==> after.logs.len() <= before.max_keys->0,
{
    let ttl = before.idle_ttl as u128;
    let max = before.max_keys;
    lemma_cleaned_plainly(
        before.logs,
        after.logs,
        Age::SeenLog,
        now,
        ttl,
        Age::Log,
        max,
        key,
        kept,
    );
}

/// A cleanup brings no key in, and leaves the settings of the store as they are.
pub proof fn law_cleanup_brings_nothing_in(
    before: MemoryView,
    after: MemoryView,
    key: Seq<char>,
    now: u128,
)
    requires
        before.cleaned(after, now),
    ensures
        after.buckets.contains_key(key) ==> before.buckets.contains_key(key),
        after.logs.contains_key(key) ==> before.logs.contains_key(key),
        after.windows.contains_key(key) ==> before.windows.contains_key(key),
        after.idle_ttl == before.idle_ttl,
        after.max_keys == before.max_keys,
        after.origin == before.origin,
{
    let ttl = before.idle_ttl as u128;
    let buckets = fresh_part(before.buckets, Age::Mark, now, ttl);
    let logs = fresh_part(before.logs, Age::SeenLog, now, ttl);
    let windows = fresh_part(before.windows, Age::Seen, now, ttl);
    assert(after.buckets.contains_key(key) ==> buckets.dom().contains(key));
    assert(after.logs.contains_key(key) ==> logs.dom().contains(key));
    assert(after.windows.contains_key(key) ==> windows.dom().contains(key));
}

/// What a cleanup does to a key of a table.
proof fn lemma_cleaned_plainly(
    before: TableView,
    after: TableView,
    idle_by: Age,
    now: u128,
    ttl: u128,
    order_by: Age,
    max_keys: Option<usize>,
    key: Seq<char>,
    kept: Seq<char>,
)
    requires
        cleaned_table(before, after, idle_by, now, ttl, order_by, max_keys),
        before.contains_key(key),
    ensures
        !is_fresh(before[key], idle_by, now, ttl) ==> !after.contains_key(key),
        after.contains_key(key) ==> after[key] == before[key],
        max_keys is Some ==> after.len() <= max_keys->0,
        is_fresh(before[key], idle_by, now, ttl) && !after.contains_key(key) ==> {
            &&& max_keys is Some
            &&& after.len() == max_keys->0
            &&& after.contains_key(kept) ==> before.contains_key(kept) && is_fresh(
                before[kept],
                idle_by,
                now,
                ttl,
            ) && not_after(
                stamp(before[key], order_by),
                stamp(before[kept], order_by),
            )
        },
{
    let fresh = fresh_part(before, idle_by, now, ttl);
    assert(after.contains_key(key) ==> fresh.dom().contains(key));
    assert(after.contains_key(kept) ==> fresh.dom().contains(kept));
    if is_fresh(before[key], idle_by, now, ttl) && !after.contains_key(key) {
        assert(fresh.contains_key(key));
        if fresh.len() <= max_keys->0 {
            vstd::set_lib::lemma_subset_equality(after.dom(), fresh.dom());
            assert(after.dom().contains(key));
        }
    }
}

/// A limit of zero allows nothing, under fixed and sliding windows.
pub proof fn law_store_zero_limits_deny(
    store: MemoryView,
    key: Seq<char>,
    window: nat,
    now: u128,
)
    ensures
        store.window_step(key, 0, window, now).1 == (false, 0u64),
        store.log_step(key, 0, window, now).1 == (false, 0u64),
{
}

/// How many of some times lie less than a window before `now`.
pub open spec fn made_inside(times: Seq<u128>, window: nat, now: u128) -> nat
    decreases times.len(),
{
    if times.len() == 0 {
        0
    } else {
        made_inside(times.drop_last(), window, now) + if now - times.last() < window {
            1nat
        } else {
            0
        }
    }
}

/// What remains of a key's sliding window is the limit that it last asked with, less its allowed
/// requests that lie less than a window back, and never below zero.
pub proof fn law_store_sliding_remaining_counts(store: MemoryView, key: Seq<char>, now: u128)
    requires
        !store.buckets.contains_key(key),
        !store.windows.contains_key(key),
        store.logs.contains_key(key),
        store.logs[key].window > 0,
    ensures
        ({
            let state = store.logs[key];
            let made = made_inside(state.log, state.window as nat, now);
            &&& made <= state.limit ==> store.left(key, now) + made == state.limit
            &&& made > state.limit ==> store.left(key, now) == 0
        }),
{
    lemma_made_inside(store.logs[key].log, store.logs[key].window, now);
}

/// Both ways to count times inside a window agree.
proof fn lemma_made_inside(log: Seq<u128>, window: u128, now: u128)
    requires
        window > 0,
    ensures
        live_count(log, window, now) == made_inside(log, window as nat, now),
    decreases log.len(),
{
    if log.len() > 0 {
        lemma_made_inside(log.drop_last(), window, now);
    }
}

/// Whether a store went through the given states, one request after the other, where each request
/// of the key goes against its fixed window and no other changes that.
pub open spec fn window_store_history(
    views: Seq<MemoryView>,
    asked: Seq<Asked>,
    key: Seq<char>,
    limit: u64,
    window: nat,
) -> bool {
    &&& views.len() == asked.len() + 1
    &&& forall|i: int|
        0 <= i < asked.len() ==> if (#[trigger] asked[i]).key == key {
            (views[i + 1], asked[i].verdict) == views[i].window_step(
                key,
                limit,
                window,
                asked[i].at,
            )
        } else {
            &&& views[i + 1].windows.contains_key(key) == views[i].windows.contains_key(key)
            &&& views[i + 1].windows[key] == views[i].windows[key]
        }
}

/// However many requests the store is asked for, and whenever: the first one against a key's fixed
/// window leaves all but one of the limit. After any request that leaves so many, the next ones
/// count down, to the limit and not beyond, until a whole window has passed since that request; and
/// the first one from then on leaves all but one of the limit again.
pub proof fn law_store_fixed_windows_follow_one_another(
    views: Seq<MemoryView>,
    asked: Seq<Asked>,
    key: Seq<char>,
    limit: u64,
    window: nat,
    first: int,
    i: int,
)
    requires
        window_store_history(views, asked, key, limit, window),
        in_order(asked),
        !views[0].windows.contains_key(key),
        limit > 0,
        window > 0,
        0 <= first < i < times_of(asked, key).len(),
        verdicts_of(asked, key)[first] == (true, (limit - 1) as u64),
        forall|j: int|
            first < j < i ==> #[trigger] times_of(asked, key)[j] < times_of(asked, key)[first]
                + window,
    ensures
        ({
            let times = times_of(asked, key);
            let verdicts = verdicts_of(asked, key);
            &&& verdicts.len() == times.len()
            &&& verdicts[0] == (true, (limit - 1) as u64)
            &&& times[i] >= times[first] + window ==> verdicts[i] == (true, (limit - 1) as u64)
            &&& times[i] < times[first] + window ==> verdicts[i] == if i - first < limit {
                (true, (limit - (i - first) - 1) as u64)
            } else {
                (false, 0u64)
            }
        }),
{
    let times = times_of(asked, key);
    let start = KeyView { limit, window: window as u128, ..marked_view(0, times[0]) };
    lemma_window_store(views, asked, key, limit, window);
    lemma_times_in_order(asked, key);
    lemma_run_prefix(start, times, limit, window, 0);
    lemma_run_prefix(start, times, limit, window, first);
    lemma_run_prefix(start, times, limit, window, i);
    lemma_run_counts(start, times, limit, window, first + 1);
    if first > 0 {
        lemma_run_counts(start, times, limit, window, first);
    }
    assert(times.take(0) =~= Seq::empty());
    lemma_window_counts(start, times, limit, window, first, i);
}

/// What the store remembers of a key's window is what the requests of that key alone left.
proof fn lemma_window_store(
    views: Seq<MemoryView>,
    asked: Seq<Asked>,
    key: Seq<char>,
    limit: u64,
    window: nat,
)
    requires
        window_store_history(views, asked, key, limit, window),
        !views[0].windows.contains_key(key),
    ensures
        ({
            let times = times_of(asked, key);
            let from = if times.len() > 0 {
                times[0]
            } else {
                0
            };
            let start = KeyView { limit, window: window as u128, ..marked_view(0, from) };
            let run = fixed_run(start, times, limit, window);
            &&& views.last().windows.contains_key(key) == (times.len() > 0)
            &&& times.len() > 0 ==> views.last().windows[key] == run.state
            &&& run.state.limit == limit
            &&& run.state.window == window as u128
            &&& verdicts_of(asked, key) == run.verdicts
        }),
    decreases asked.len(),
{
    if asked.len() > 0 {
        let n = asked.len() - 1;
        let earlier = asked.drop_last();
        let before = views.drop_last();
        assert forall|i: int| 0 <= i < earlier.len() implies if (#[trigger] earlier[i]).key == key {
            (before[i + 1], earlier[i].verdict) == before[i].window_step(
                key,
                limit,
                window,
                earlier[i].at,
            )
        } else {
            &&& before[i + 1].windows.contains_key(key) == before[i].windows.contains_key(key)
            &&& before[i + 1].windows[key] == before[i].windows[key]
        } by {
            assert(earlier[i] == asked[i]);
        }
        lemma_window_store(before, earlier, key, limit, window);
        assert(before.last() == views[n] && views.last() == views[n + 1]);
        assert(asked[n] == asked.last());
        let times = times_of(asked, key);
        let earlier_times = times_of(earlier, key);
        if asked.last().key == key {
            assert(times.drop_last() =~= earlier_times);
            assert((views[n + 1], asked[n].verdict) == views[n].window_step(
                key,
                limit,
                window,
                asked[n].at,
            ));
            assert(times.last() == asked[n].at);
            if earlier_times.len() > 0 {
                assert(times[0] == earlier_times[0]);
                let met = views[n].windows[key];
                assert(views[n].window_met(key, limit, window, asked[n].at) == met);
            } else {
                reveal_with_fuel(fixed_run, 2);
                assert(times[0] == asked[n].at);
            }
        } else {
            assert(times == earlier_times);
            assert(asked[n].key != key);
        }
    }
}

/// What the store in memory says of a request is what its step at the time that the clock says
/// comes to, for the very key and numbers; it never fails. That time is handed back.
pub proof fn law_store_goes_by_the_clock<A: TokenArithmetic>(
    before: MemoryStore<A>,
    after: MemoryStore<A>,
    key: Seq<char>,
    limit: u64,
    window: Duration,
    outcome: RateLimitResult<(bool, u64)>,
) -> (now: u128)
    requires
        <MemoryStore<A> as RateLimitStore>::window_checks(
            before,
            after,
            key,
            limit,
            window,
            outcome,
        ),
    ensures
        clock_says(before@.origin, now),
        outcome is Ok,
        (after@, outcome->Ok_0) == before@.window_step(key, limit, duration_nanos(window), now),
{
    choose|now: u128|
        clock_says(before@.origin, now) && (after@, outcome->Ok_0)
            == #[trigger] before@.window_step(key, limit, duration_nanos(window), now)
}

/// A reset of the store in memory never fails, and forgets the key.
pub proof fn law_store_resets_never_fail<A: TokenArithmetic>(
    before: MemoryStore<A>,
    after: MemoryStore<A>,
    key: Seq<char>,
    outcome: RateLimitResult<()>,
)
    requires
        <MemoryStore<A> as RateLimitStore>::resets(before, after, key, outcome),
    ensures
        outcome is Ok,
        !after@.buckets.contains_key(key),
        !after@.logs.contains_key(key),
        !after@.windows.contains_key(key),
        after@.buckets == before@.buckets.remove(key),
        after@.logs == before@.logs.remove(key),
        after@.windows == before@.windows.remove(key),
{
}

} // verus!
