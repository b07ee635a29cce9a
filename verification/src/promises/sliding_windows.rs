//! Sliding windows: of the requests that were allowed, those count that lie in the window that ends
//! with the present one.

use crate::algorithms::laws::{
    ascending, law_sliding_window_tells_what_remains, recent_count, sliding_run,
};
use crate::algorithms::runs::{
    allowed_of, in_order, lemma_sliding_history, lemma_times_in_order, retained, sliding_history,
    sliding_tables, times_of, Asked,
};
use crate::algorithms::sliding_window::{live_part, SlidingWindowView};
use crate::table::marked_view;
use vstd::prelude::*;

verus! {

/// How many of some times lie in the window that ends at `now`, its start among them.
pub open spec fn made_within(times: Seq<u128>, window: nat, now: u128) -> nat
    decreases times.len(),
{
    if times.len() == 0 {
        0
    } else {
        made_within(times.drop_last(), window, now) + if now - times.last() <= window {
            1nat
        } else {
            0
        }
    }
}

/// However many keys ask, and whenever: a request is allowed exactly where fewer than the limit of
/// the key's earlier requests were allowed in the window that ends with it, and then as many remain
/// as the limit has beyond those and this one. This is as long as the key is not evicted.
pub proof fn law_sliding_window_counts_allowed_requests(
    views: Seq<SlidingWindowView>,
    asked: Seq<Asked>,
)
    requires
        asked.len() > 0,
        sliding_history(views, asked),
        in_order(asked),
        !views[0].table.contains_key(asked.last().key),
        retained(sliding_tables(views), asked.last().key),
    ensures
        ({
            let last = asked.last();
            let allowed = allowed_of(asked.drop_last(), last.key);
            let count = made_within(allowed, views[0].window, last.at);
            &&& last.verdict.0 == (count < views[0].limit)
            &&& last.verdict.0 ==> last.verdict.1 + count + 1 == views[0].limit
            &&& !last.verdict.0 ==> last.verdict.1 == 0
        }),
{
    let last = asked.last();
    let key = last.key;
    let n = asked.len() - 1;
    let earlier = asked.drop_last();
    let before = views.drop_last();
    assert(sliding_history(before, earlier)) by {
        assert forall|i: int| 0 <= i < earlier.len() implies before[i].acquires(
            before[i + 1],
            (#[trigger] earlier[i]).key,
            earlier[i].at,
            earlier[i].verdict,
        ) by {
            assert(earlier[i] == asked[i]);
        }
    }
    assert(retained(sliding_tables(before), key)) by {
        let all = sliding_tables(views);
        let some = sliding_tables(before);
        assert forall|i: int|
            0 <= i < some.len() - 1 && (#[trigger] some[i]).contains_key(key) implies some[i
            + 1].contains_key(key) by {
            assert(some[i] == all[i] && some[i + 1] == all[i + 1]);
        }
    }
    lemma_sliding_history(before, earlier, key);
    lemma_times_in_order(asked, key);
    let times = times_of(asked, key);
    assert(times.drop_last() =~= times_of(earlier, key));
    assert(asked[n] == last);
    assert(before.last() == views[n]);
    assert(views[n].acquires(views[n + 1], last.key, last.at, last.verdict));
    let start = marked_view(0, 0);
    law_sliding_window_tells_what_remains(start, times, views[0].limit, views[0].window);
    let run = sliding_run(start, times.drop_last(), views[0].limit, views[0].window);
    lemma_made_within(run.allowed, views[0].window, last.at);
}

/// Both ways to count recent times agree.
pub(crate) proof fn lemma_made_within(times: Seq<u128>, window: nat, now: u128)
    ensures
        made_within(times, window, now) == recent_count(times, window, now),
    decreases times.len(),
{
    if times.len() == 1 {
        reveal_with_fuel(recent_count, 2);
        reveal_with_fuel(made_within, 2);
        assert(times.drop_last() =~= Seq::empty());
        assert(times.drop_first() =~= Seq::empty());
    } else if times.len() > 1 {
        let rest = times.drop_first();
        let front = times.drop_last();
        lemma_made_within(rest, window, now);
        lemma_made_within(front, window, now);
        lemma_made_within(rest.drop_last(), window, now);
        assert(front.drop_first() =~= rest.drop_last());
        assert(front.first() == times.first());
        assert(rest.last() == times.last());
    }
}

/// What remains foretells the next request, at any time: it is allowed exactly where some remain,
/// and then leaves one less. Never more than the limit remain, and all of them for a key that never
/// asked.
pub proof fn law_sliding_window_remaining_foretells(
    before: SlidingWindowView,
    after: SlidingWindowView,
    key: Seq<char>,
    now: u128,
    verdict: (bool, u64),
)
    requires
        before.acquires(after, key, now, verdict),
    ensures
        verdict.0 == (before.left(key, now) > 0),
        verdict.0 ==> verdict.1 == before.left(key, now) - 1,
        !verdict.0 ==> verdict.1 == 0,
        before.left(key, now) <= before.limit,
        !before.table.contains_key(key) ==> before.left(key, now) == before.limit,
{
}

/// Asking what remains changes nothing of what is answered later on, to this key or another.
pub proof fn law_sliding_window_remaining_changes_no_answer(
    before: SlidingWindowView,
    key: Seq<char>,
    other: Seq<char>,
    now: u128,
    later: u128,
)
    requires
        now <= later,
    ensures
        before.cleaned(key, now).limit == before.limit,
        before.cleaned(key, now).window == before.window,
        before.cleaned(key, now).max_keys == before.max_keys,
        before.cleaned(key, now).left(other, later) == before.left(other, later),
        before.cleaned(key, now).step(other, later).1 == before.step(other, later).1,
{
    if other == key && before.table.contains_key(key) {
        lemma_cleaned_early(before.table[key].log, before.window, now, later);
    }
}

/// A log that is cleaned twice is as if it was cleaned the second time only.
proof fn lemma_cleaned_early(log: Seq<u128>, window: nat, now: u128, later: u128)
    requires
        now <= later,
    ensures
        live_part(live_part(log, window, now), window, later) == live_part(log, window, later),
    decreases log.len(),
{
    if log.len() > 0 && now - log.first() > window {
        lemma_cleaned_early(log.drop_first(), window, now, later);
    }
}

/// A key that was denied a request under a sliding window is allowed one as soon as more than a
/// window has passed, if it asks no more until then, and then all but one of the limit remain.
pub proof fn law_sliding_window_is_free_after_a_window(
    before: SlidingWindowView,
    mid: SlidingWindowView,
    after: SlidingWindowView,
    key: Seq<char>,
    now: u128,
    later: u128,
    verdict: (bool, u64),
    later_verdict: (bool, u64),
)
    requires
        before.limit > 0,
        before.acquires(mid, key, now, verdict),
        mid.acquires(after, key, later, later_verdict),
        ascending(mid.table[key].log),
        mid.table[key].log.len() > 0 ==> mid.table[key].log.last() <= now,
        later - now > before.window,
    ensures
        later_verdict == (true, (before.limit - 1) as u64),
{
    lemma_all_expire(mid.table[key].log, before.window, later);
}

/// A log whose times all lie more than a window back is empty once it is cleaned.
proof fn lemma_all_expire(log: Seq<u128>, window: nat, now: u128)
    requires
        forall|i: int| 0 <= i < log.len() ==> now - #[trigger] log[i] > window,
    ensures
        live_part(log, window, now).len() == 0,
    decreases log.len(),
{
    if log.len() > 0 {
        let rest = log.drop_first();
        assert forall|i: int| 0 <= i < rest.len() implies now - #[trigger] rest[i] > window by {
            assert(rest[i] == log[i + 1]);
        }
        assert(now - log[0] > window);
        lemma_all_expire(rest, window, now);
    }
}

} // verus!
