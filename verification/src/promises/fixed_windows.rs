//! Fixed windows: so many requests per window, and all of them again in the next.

use crate::algorithms::fixed_window::{fixed_step, FixedWindowView};
use crate::algorithms::laws::fixed_run;
use crate::algorithms::runs::{
    fixed_history, fixed_tables, in_order, lemma_fixed_history, lemma_times_in_order, retained,
    times_of, verdicts_of, Asked,
};
use crate::table::{marked_view, KeyView};
use vstd::prelude::*;

verus! {

/// A request of a key whose window started a whole window ago, or longer, begins a new window: it
/// is allowed, and all but one of the limit remain.
pub proof fn law_window_ends_after_its_length(
    before: FixedWindowView,
    after: FixedWindowView,
    key: Seq<char>,
    now: u128,
    verdict: (bool, u64),
)
    requires
        before.limit > 0,
        before.acquires(after, key, now, verdict),
        before.table.contains_key(key),
        now - before.table[key].at >= before.window,
    ensures
        verdict.0,
        verdict.1 == before.limit - 1,
        after.table.contains_key(key),
        after.table[key].at == now,
        after.table[key].level == 1,
{
}

/// A request of a key whose window started less than a window ago counts against that window: it is
/// allowed where fewer than the limit were, with one less remaining than before, and denied
/// otherwise.
pub proof fn law_window_lasts_its_length(
    before: FixedWindowView,
    after: FixedWindowView,
    key: Seq<char>,
    now: u128,
    verdict: (bool, u64),
)
    requires
        before.acquires(after, key, now, verdict),
        before.table.contains_key(key),
        now - before.table[key].at < before.window,
        before.window > 0,
    ensures
        verdict.0 == (before.table[key].level < before.limit),
        verdict.0 ==> verdict.1 + before.table[key].level + 1 == before.limit,
        !verdict.0 ==> verdict.1 == 0,
        after.table.contains_key(key),
        after.table[key].at == before.table[key].at,
        after.table[key].level == before.table[key].level + if verdict.0 {
            1int
        } else {
            0
        },
{
}

/// The first request of a key begins its window.
pub proof fn law_window_starts_with_first_request(
    before: FixedWindowView,
    after: FixedWindowView,
    key: Seq<char>,
    now: u128,
    verdict: (bool, u64),
)
    requires
        before.limit > 0,
        before.acquires(after, key, now, verdict),
        !before.table.contains_key(key),
    ensures
        verdict.0,
        verdict.1 == before.limit - 1,
        after.table.contains_key(key),
        after.table[key].at == now,
        after.table[key].level == 1,
{
}

/// What remains foretells the next request, at any time: it is allowed exactly where some remain,
/// and then leaves one less. Never more than the limit remain.
pub proof fn law_fixed_window_remaining_foretells(
    before: FixedWindowView,
    after: FixedWindowView,
    key: Seq<char>,
    now: u128,
    verdict: (bool, u64),
)
    requires
        before.limit > 0,
        before.acquires(after, key, now, verdict),
    ensures
        verdict.0 == (before.left(key, now) > 0),
        verdict.0 ==> verdict.1 == before.left(key, now) - 1,
        !verdict.0 ==> verdict.1 == 0,
        before.left(key, now) <= before.limit,
{
}

/// All of the limit remain for a key that never asked, and for one whose window is over; in a
/// window, those remain that were not made in it.
pub proof fn law_fixed_window_remaining_is_what_was_not_made(
    limiter: FixedWindowView,
    key: Seq<char>,
    now: u128,
)
    requires
        limiter.window > 0,
    ensures
        !limiter.table.contains_key(key) ==> limiter.left(key, now) == limiter.limit,
        limiter.table.contains_key(key) && now - limiter.table[key].at >= limiter.window
            ==> limiter.left(key, now) == limiter.limit,
        limiter.table.contains_key(key) && now - limiter.table[key].at < limiter.window
            && limiter.table[key].level <= limiter.limit ==> limiter.left(key, now)
            + limiter.table[key].level == limiter.limit,
{
}

/// The time until a window is over leads to its end: to the time that lies a window after its
/// start. Where none is running it is a whole window.
pub proof fn law_time_until_reset_leads_to_the_end(
    limiter: FixedWindowView,
    key: Seq<char>,
    now: u128,
)
    requires
        limiter.window > 0,
    ensures
        limiter.table.contains_key(key) && limiter.table[key].at <= now && now
            - limiter.table[key].at < limiter.window ==> now + limiter.until_reset(key, now)
            == limiter.table[key].at + limiter.window,
        limiter.table.contains_key(key) && now - limiter.table[key].at >= limiter.window
            ==> limiter.until_reset(key, now) == limiter.window,
        !limiter.table.contains_key(key) ==> limiter.until_reset(key, now) == limiter.window,
        limiter.table.contains_key(key) && limiter.table[key].at > now ==> limiter.until_reset(
            key,
            now,
        ) == limiter.window,
        0 < limiter.until_reset(key, now) <= limiter.window,
{
}

/// However many keys ask, and whenever: the first request of a key leaves all but one of the limit.
/// After any request that leaves so many, the next ones count down, to the limit and not beyond,
/// until a whole window has passed since that request; and the first one from then on leaves all
/// but one of the limit again. This is as long as the key is not evicted.
pub proof fn law_fixed_windows_follow_one_another(
    views: Seq<FixedWindowView>,
    asked: Seq<Asked>,
    key: Seq<char>,
    first: int,
    i: int,
)
    requires
        fixed_history(views, asked),
        in_order(asked),
        !views[0].table.contains_key(key),
        retained(fixed_tables(views), key),
        views[0].limit > 0,
        views[0].window > 0,
        0 <= first < i < times_of(asked, key).len(),
        verdicts_of(asked, key)[first] == (true, (views[0].limit - 1) as u64),
        forall|j: int|
            first < j < i ==> #[trigger] times_of(asked, key)[j] < times_of(asked, key)[first]
                + views[0].window,
    ensures
        ({
            let times = times_of(asked, key);
            let verdicts = verdicts_of(asked, key);
            let limit = views[0].limit;
            &&& verdicts.len() == times.len()
            &&& verdicts[0] == (true, (limit - 1) as u64)
            &&& times[i] >= times[first] + views[0].window ==> verdicts[i] == (
                true,
                (limit - 1) as u64,
            )
            &&& times[i] < times[first] + views[0].window ==> verdicts[i] == if i - first < limit {
                (true, (limit - (i - first) - 1) as u64)
            } else {
                (false, 0u64)
            }
        }),
{
    let times = times_of(asked, key);
    let limit = views[0].limit;
    let window = views[0].window;
    let start = marked_view(0, times[0]);
    lemma_fixed_history(views, asked, key);
    lemma_times_in_order(asked, key);
    lemma_run_prefix(start, times, limit, window, 0);
    lemma_run_prefix(start, times, limit, window, first);
    lemma_run_prefix(start, times, limit, window, i);
    lemma_run_counts(start, times, limit, window, first + 1);
    if first > 0 {
        lemma_run_counts(start, times, limit, window, first);
    }
    assert(times.take(0) =~= Seq::empty());
    lemma_window_counts(start, times, limit, window, first, i);
}

/// What a request in a run comes to follows from what the ones before it left.
pub(crate) proof fn lemma_run_prefix(
    start: KeyView,
    times: Seq<u128>,
    limit: u64,
    window: nat,
    i: int,
)
    requires
        0 <= i < times.len(),
    ensures
        fixed_run(start, times, limit, window).verdicts.len() == times.len(),
        fixed_run(start, times, limit, window).verdicts[i] == fixed_step(
            fixed_run(start, times.take(i), limit, window).state,
            limit,
            window,
            times[i],
        ).1,
        fixed_run(start, times.take(i + 1), limit, window).state == fixed_step(
            fixed_run(start, times.take(i), limit, window).state,
            limit,
            window,
            times[i],
        ).0,
    decreases times.len(),
{
    let rest = times.drop_last();
    assert(times.take(i + 1).drop_last() =~= times.take(i));
    assert(times.take(i + 1).last() == times[i]);
    if rest.len() > 0 {
        lemma_run_prefix(start, rest, limit, window, 0);
    }
    if i < rest.len() {
        lemma_run_prefix(start, rest, limit, window, i);
        assert(rest.take(i) =~= times.take(i));
    } else {
        assert(times.take(i) =~= rest);
    }
}

/// A window in which something was asked has counted a request, and did not start after the last.
pub(crate) proof fn lemma_run_counts(
    start: KeyView,
    times: Seq<u128>,
    limit: u64,
    window: nat,
    n: int,
)
    requires
        limit > 0,
        window > 0,
        0 < n <= times.len(),
        start.level == 0,
        start.at == times[0],
        forall|i: int, j: int| 0 <= i <= j < times.len() ==> times[i] <= times[j],
    ensures
        fixed_run(start, times.take(n), limit, window).state.level >= 1,
        fixed_run(start, times.take(n), limit, window).state.at <= times[n - 1],
    decreases n,
{
    lemma_run_prefix(start, times, limit, window, n - 1);
    if n > 1 {
        lemma_run_counts(start, times, limit, window, n - 1);
        assert(times[n - 2] <= times[n - 1]);
    } else {
        assert(times.take(0) =~= Seq::empty());
    }
}

/// What is left of a window once `i - first` more requests were made in it.
pub(crate) proof fn lemma_window_counts(
    start: KeyView,
    times: Seq<u128>,
    limit: u64,
    window: nat,
    first: int,
    i: int,
)
    requires
        limit > 0,
        window > 0,
        0 <= first < i < times.len(),
        start.level == 0,
        start.at == times[0],
        forall|i: int, j: int| 0 <= i <= j < times.len() ==> times[i] <= times[j],
        fixed_run(start, times, limit, window).verdicts[first] == (true, (limit - 1) as u64),
        forall|j: int| first < j < i ==> #[trigger] times[j] < times[first] + window,
    ensures
        fixed_run(start, times.take(i), limit, window).state.at == times[first],
        fixed_run(start, times.take(i), limit, window).state.level as int == if i - first < limit {
            i - first
        } else {
            limit as int
        },
    decreases i,
{
    if i == first + 1 {
        lemma_run_prefix(start, times, limit, window, first);
        if first > 0 {
            lemma_run_counts(start, times, limit, window, first);
        } else {
            assert(times.take(0) =~= Seq::empty());
        }
    } else {
        lemma_window_counts(start, times, limit, window, first, i - 1);
        lemma_run_prefix(start, times, limit, window, i - 1);
        assert(times[first] <= times[i - 1]);
    }
}

} // verus!
