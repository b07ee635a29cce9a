//! Which keys a limiter forgets when it has too many: a batch of the oldest, and only where a new
//! key comes to a full limiter.

use crate::algorithms::fixed_window::FixedWindowView;
use crate::algorithms::sliding_window::SlidingWindowView;
use crate::algorithms::token_bucket::TokenBucketView;
use crate::algorithms::{admitted, batch_size};
use crate::table::{Age, KeyView, TableView};
use crate::tokens::TokenArithmetic;
use vstd::prelude::*;

verus! {

/// Whether all keys but the given one are as they were.
pub open spec fn others_stay(before: TableView, after: TableView, key: Seq<char>) -> bool {
    forall|other: Seq<char>|
        other != key ==> #[trigger] after.contains_key(other) == before.contains_key(other) && (
        before.contains_key(other) ==> after[other] == before[other])
}

/// Whether a new key took the place of a batch of others: as many as one in 64 of the cap, and one
/// at least. The others are as they were.
pub open spec fn batch_makes_way(
    before: TableView,
    after: TableView,
    key: Seq<char>,
    max_keys: nat,
) -> bool {
    &&& exists|batch: nat|
        after.len() + batch == before.len() + 1 && batch >= 1 && #[trigger] (64 * (batch + 1))
            > max_keys && (batch == 1 || 64 * batch <= max_keys)
    &&& forall|other: Seq<char>|
        other != key && #[trigger] after.contains_key(other) ==> before.contains_key(other)
            && after[other] == before[other]
}

/// A fixed window limiter forgets no other key where the asking key is known or there is room; else
/// it forgets a batch of those whose windows started first.
pub proof fn law_fixed_window_forgets_oldest(
    before: FixedWindowView,
    after: FixedWindowView,
    key: Seq<char>,
    now: u128,
    verdict: (bool, u64),
)
    requires
        before.table.dom().finite(),
        before.max_keys >= 1,
        before.acquires(after, key, now, verdict),
    ensures
        after.table.contains_key(key),
        before.table.contains_key(key) || before.table.len() < before.max_keys ==> others_stay(
            before.table,
            after.table,
            key,
        ),
        !before.table.contains_key(key) && before.table.len() >= before.max_keys
            ==> batch_makes_way(before.table, after.table, key, before.max_keys),
        forall|gone: Seq<char>, kept: Seq<char>|
            before.table.contains_key(gone) && !#[trigger] after.table.contains_key(gone) && kept
                != key && #[trigger] after.table.contains_key(kept) ==> before.table[gone].at
                <= before.table[kept].at,
{
    let state = before.step(key, now).0;
    lemma_admitted_plainly(before.table, after.table, key, state, before.max_keys, Age::Mark);
}

/// A sliding window limiter forgets no other key where the asking key is known or there is room;
/// else it forgets a batch of those that were last allowed a request longest ago, and first of all
/// those with no request that counts.
pub proof fn law_sliding_window_forgets_oldest(
    before: SlidingWindowView,
    after: SlidingWindowView,
    key: Seq<char>,
    now: u128,
    verdict: (bool, u64),
)
    requires
        before.table.dom().finite(),
        before.max_keys >= 1,
        before.acquires(after, key, now, verdict),
    ensures
        after.table.contains_key(key),
        before.table.contains_key(key) || before.table.len() < before.max_keys ==> others_stay(
            before.table,
            after.table,
            key,
        ),
        !before.table.contains_key(key) && before.table.len() >= before.max_keys
            ==> batch_makes_way(before.table, after.table, key, before.max_keys),
        forall|gone: Seq<char>, kept: Seq<char>|
            before.table.contains_key(gone) && !#[trigger] after.table.contains_key(gone) && kept
                != key && #[trigger] after.table.contains_key(kept)
                && before.table[gone].log.len() > 0 ==> before.table[kept].log.len() > 0
                && before.table[gone].log.last() <= before.table[kept].log.last(),
{
    let state = before.step(key, now).0;
    lemma_admitted_plainly(before.table, after.table, key, state, before.max_keys, Age::Log);
}

/// A token bucket limiter forgets no other key where the asking key is known or there is room; else
/// it forgets a batch of those that asked last longest ago.
pub proof fn law_token_bucket_forgets_oldest<A: TokenArithmetic>(
    before: TokenBucketView,
    after: TokenBucketView,
    key: Seq<char>,
    now: u128,
    verdict: (bool, u64),
)
    requires
        before.table.dom().finite(),
        before.max_keys >= 1,
        before.acquires::<A>(after, key, now, verdict) || before.refills::<A>(after, key, now),
    ensures
        after.table.contains_key(key),
        before.table.contains_key(key) || before.table.len() < before.max_keys ==> others_stay(
            before.table,
            after.table,
            key,
        ),
        !before.table.contains_key(key) && before.table.len() >= before.max_keys
            ==> batch_makes_way(before.table, after.table, key, before.max_keys),
        forall|gone: Seq<char>, kept: Seq<char>|
            before.table.contains_key(gone) && !#[trigger] after.table.contains_key(gone) && kept
                != key && #[trigger] after.table.contains_key(kept) ==> before.table[gone].at
                <= before.table[kept].at,
{
    let state = after.table[key];
    lemma_admitted_plainly(before.table, after.table, key, state, before.max_keys, Age::Mark);
}

/// What it comes to that a key is admitted.
proof fn lemma_admitted_plainly(
    before: TableView,
    after: TableView,
    key: Seq<char>,
    state: KeyView,
    max_keys: nat,
    by: Age,
)
    requires
        before.dom().finite(),
        max_keys >= 1,
        admitted(before, after, key, state, max_keys, by),
        by == Age::Mark || by == Age::Log,
    ensures
        after.contains_key(key),
        before.contains_key(key) || before.len() < max_keys ==> others_stay(before, after, key),
        !before.contains_key(key) && before.len() >= max_keys ==> batch_makes_way(
            before,
            after,
            key,
            max_keys,
        ),
        forall|gone: Seq<char>, kept: Seq<char>|
            before.contains_key(gone) && !#[trigger] after.contains_key(gone) && kept != key
                && #[trigger] after.contains_key(kept) ==> {
                &&& by == Age::Mark ==> before[gone].at <= before[kept].at
                &&& by == Age::Log && before[gone].log.len() > 0 ==> before[kept].log.len() > 0
                    && before[gone].log.last() <= before[kept].log.last()
            },
{
    let others = after.remove(key);
    assert(after.len() == others.len() + 1);
    assert forall|other: Seq<char>| other != key implies #[trigger] after.contains_key(other)
        == others.contains_key(other) && (after.contains_key(other) ==> after[other]
        == others[other]) by {
    }
    if before.contains_key(key) || before.len() < max_keys {
        assert(others == before.remove(key));
        assert forall|other: Seq<char>| other != key implies #[trigger] after.contains_key(other)
            == before.contains_key(other) && (before.contains_key(other) ==> after[other]
            == before[other]) by {
            assert(others.contains_key(other) == before.remove(key).contains_key(other));
            if before.contains_key(other) {
                assert(others[other] == before.remove(key)[other]);
            }
        }
    } else {
        let batch = batch_size(max_keys);
        assert(64 * (batch + 1) > max_keys);
        assert(batch <= before.len());
        assert forall|other: Seq<char>|
            other != key && #[trigger] after.contains_key(other) implies before.contains_key(other)
            && after[other] == before[other] by {
            assert(others.contains_key(other));
            assert(others.dom().contains(other));
        }
        assert forall|gone: Seq<char>, kept: Seq<char>|
            before.contains_key(gone) && !#[trigger] after.contains_key(gone) && kept != key
                && #[trigger] after.contains_key(kept) implies {
            &&& by == Age::Mark ==> before[gone].at <= before[kept].at
            &&& by == Age::Log && before[gone].log.len() > 0 ==> before[kept].log.len() > 0
                && before[gone].log.last() <= before[kept].log.last()
        } by {
            assert(before.contains_key(gone) && others.contains_key(kept));
        }
    }
}

} // verus!
