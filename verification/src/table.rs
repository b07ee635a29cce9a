//! The table of keys: what a limiter remembers of each key, and how it forgets the oldest.

use crate::time::{elapsed_between, elapsed_nanos};
use dashmap::DashMap;
use std::collections::VecDeque;
use vstd::prelude::*;
use vstd::seq_lib::*;

verus! {

/// What a limiter remembers of one key. Each algorithm reads the fields that it needs.
pub struct KeyState {
    /// The token level of a bucket, or the number of requests counted in a fixed window.
    pub level: u64,
    /// When the bucket was last refilled, or when the fixed window started.
    pub at: u128,
    /// When the key last asked for a request.
    pub seen: u128,
    /// The limit that was last asked for.
    pub limit: u64,
    /// The window that was last asked for, in nanoseconds.
    pub window: u128,
    /// The times of the requests that a sliding window has logged, oldest first.
    pub log: VecDeque<u128>,
}

/// The mathematical view of a [`KeyState`].
#[verifier::ext_equal]
pub struct KeyView {
    /// See [`KeyState::level`].
    pub level: u64,
    /// See [`KeyState::at`].
    pub at: u128,
    /// See [`KeyState::seen`].
    pub seen: u128,
    /// See [`KeyState::limit`].
    pub limit: u64,
    /// See [`KeyState::window`].
    pub window: u128,
    /// See [`KeyState::log`].
    pub log: Seq<u128>,
}

impl View for KeyState {
    type V = KeyView;

    open spec fn view(&self) -> KeyView {
        KeyView {
            level: self.level,
            at: self.at,
            seen: self.seen,
            limit: self.limit,
            window: self.window,
            log: self.log@,
        }
    }
}

/// A table of keys, as a map from each key to what is remembered of it.
pub type TableView = Map<Seq<char>, KeyView>;

/// Which time tells how old a key is.
#[derive(Clone, Copy, PartialEq, Eq, Structural, Debug)]
pub enum Age {
    /// The time in [`KeyState::at`]: the last request of a bucket, the start of a fixed window.
    Mark,
    /// The newest time in [`KeyState::log`]: the last allowed request.
    Log,
    /// The time in [`KeyState::seen`]: the last request.
    Seen,
    /// The time in [`KeyState::seen`] where the log has entries.
    SeenLog,
}

/// The time that tells how old a key is; nothing for a log without entries.
pub open spec fn stamp(state: KeyView, by: Age) -> Option<u128> {
    match by {
        Age::Mark => Some(state.at),
        Age::Log => if state.log.len() == 0 {
            None
        } else {
            Some(state.log.last())
        },
        Age::Seen => Some(state.seen),
        Age::SeenLog => if state.log.len() == 0 {
            None
        } else {
            Some(state.seen)
        },
    }
}

/// Whether a key is so young that less than `ttl` has passed since the time that tells its age.
pub open spec fn is_fresh(state: KeyView, by: Age, now: u128, ttl: u128) -> bool {
    match stamp(state, by) {
        Some(last) => elapsed_nanos(last, now) < ttl,
        None => false,
    }
}

impl KeyState {
    /// A state in which nothing is remembered but a level and a time.
    pub fn marked(level: u64, at: u128) -> (state: KeyState)
        ensures
            state@ == marked_view(level, at),
    {
        KeyState { level, at, seen: at, limit: 0, window: 0, log: VecDeque::new() }
    }

    /// A copy of the state.
    pub fn copy(&self) -> (state: KeyState)
        ensures
            state@ == self@,
    {
        let log = self.log.clone();
        assert(log@ =~= self.log@);
        KeyState {
            level: self.level,
            at: self.at,
            seen: self.seen,
            limit: self.limit,
            window: self.window,
            log,
        }
    }

    /// The time that tells how old the key is; nothing for a log without entries.
    pub fn stamp(&self, by: Age) -> (last: Option<u128>)
        ensures
            last == stamp(self@, by),
    {
        let len: usize = self.log.len();
        match by {
            Age::Mark => Some(self.at),
            Age::Log => {
                if len == 0 {
                    None
                } else {
                    Some(self.log[len - 1])
                }
            },
            Age::Seen => Some(self.seen),
            Age::SeenLog => {
                if len == 0 {
                    None
                } else {
                    Some(self.seen)
                }
            },
        }
    }

    /// Whether less than `ttl` has passed since the time that tells how old the key is.
    pub fn is_fresh(&self, by: Age, now: u128, ttl: u128) -> (fresh: bool)
        ensures
            fresh == is_fresh(self@, by, now, ttl),
    {
        match self.stamp(by) {
            Some(last) => elapsed_between(last, now) < ttl,
            None => false,
        }
    }
}

/// The view of [`KeyState::marked`].
pub open spec fn marked_view(level: u64, at: u128) -> KeyView {
    KeyView { level, at, seen: at, limit: 0, window: 0, log: Seq::empty() }
}

/// `dashmap::DashMap`, the concurrent hash map that holds the keys. Opaque: see [`held`].
#[verifier::external_type_specification]
#[verifier::external_body]
#[verifier::reject_recursive_types(K)]
#[verifier::reject_recursive_types(V)]
#[verifier::reject_recursive_types(S)]
pub struct ExDashMap<K, V, S>(DashMap<K, V, S>);

/// What a `DashMap` holds: each key, by its characters, with the state stored under it.
pub uninterp spec fn held(map: DashMap<String, KeyState>) -> Map<Seq<char>, KeyView>;

/// Whether a map has finitely many keys, `n` of them.
pub open spec fn counts(table: TableView, n: nat) -> bool {
    table.dom().finite() && table.len() == n
}

/// What is remembered of a key, if anything.
pub open spec fn look_up(table: TableView, key: Seq<char>) -> Option<KeyView> {
    if table.contains_key(key) {
        Some(table[key])
    } else {
        None
    }
}

/// `DashMap::new`: a map that holds nothing.
#[verifier::external_body]
pub(crate) fn new_table() -> (map: DashMap<String, KeyState>)
    ensures
        held(map) == TableView::empty(),
{
    DashMap::new()
}

/// `DashMap::len`: how many keys the map holds. There are finitely many.
#[verifier::external_body]
pub(crate) fn count_keys(map: &DashMap<String, KeyState>) -> (n: usize)
    ensures
        counts(held(*map), n as nat),
{
    map.len()
}

/// `DashMap::contains_key`: whether the map holds the key.
#[verifier::external_body]
pub(crate) fn has_key(map: &DashMap<String, KeyState>, key: &str) -> (found: bool)
    ensures
        found == held(*map).contains_key(key@),
{
    map.contains_key(key)
}

/// `DashMap::get`: a copy of what the map holds under the key, if it holds the key.
#[verifier::external_body]
pub(crate) fn get_state(map: &DashMap<String, KeyState>, key: &str) -> (state: Option<KeyState>)
    ensures
        state is Some == held(*map).contains_key(key@),
        state is Some ==> state->0@ == held(*map)[key@],
{
    map.get(key).map(|entry| entry.value().copy())
}

/// `DashMap::entry` and `Entry::or_insert`: stores the state under the key unless the map holds
/// the key already, and hands back a copy of what it then holds under it.
#[verifier::external_body]
pub(crate) fn entry_or_insert(
    map: &mut DashMap<String, KeyState>,
    key: String,
    fresh: KeyState,
) -> (state: KeyState)
    ensures
        held(*final(map)) == if held(*old(map)).contains_key(key@) {
            held(*old(map))
        } else {
            held(*old(map)).insert(key@, fresh@)
        },
        state@ == held(*final(map))[key@],
{
    map.entry(key).or_insert(fresh).value().copy()
}

/// `DashMap::insert`: stores the state under the key, in place of what was there.
#[verifier::external_body]
pub(crate) fn put_state(map: &mut DashMap<String, KeyState>, key: String, state: KeyState)
    ensures
        held(*final(map)) == held(*old(map)).insert(key@, state@),
{
    map.insert(key, state);
}

/// `DashMap::remove`: forgets the key.
#[verifier::external_body]
pub(crate) fn remove_key(map: &mut DashMap<String, KeyState>, key: &str)
    ensures
        held(*final(map)) == held(*old(map)).remove(key@),
{
    map.remove(key);
}

/// `DashMap::retain`: keeps the keys for which [`KeyState::is_fresh`] holds, as they are, and
/// forgets the others.
#[verifier::external_body]
pub(crate) fn retain_fresh(
    map: &mut DashMap<String, KeyState>,
    by: Age,
    now: u128,
    ttl: u128,
)
    ensures
        held(*final(map)) == fresh_part(held(*old(map)), by, now, ttl),
{
    map.retain(|_, state| state.is_fresh(by, now, ttl));
}

/// `DashMap::iter`: each key that the map holds, once, with the time that tells how old it is, in
/// an order that is not specified.
#[verifier::external_body]
pub(crate) fn list_keys(map: &DashMap<String, KeyState>, by: Age) -> (entries: Vec<
    (String, Option<u128>),
>)
    ensures
        lists(entries@, held(*map), by),
{
    map.iter().map(|entry| (entry.key().clone(), entry.value().stamp(by))).collect()
}

/// The part of a table whose keys are younger than `ttl`.
pub open spec fn fresh_part(table: TableView, by: Age, now: u128, ttl: u128) -> TableView {
    table.restrict(
        Set::new(
            |key: Seq<char>| table.contains_key(key) && is_fresh(table[key], by, now, ttl),
        ),
    )
}

/// Whether the entries are the keys of a table, each once, with the times that tell their ages.
pub open spec fn lists(
    entries: Seq<(String, Option<u128>)>,
    table: TableView,
    by: Age,
) -> bool {
    &&& counts(table, entries.len())
    &&& forall|i: int|
        0 <= i < entries.len() ==> table.contains_key((#[trigger] entries[i]).0@)
            && entries[i].1 == stamp(table[entries[i].0@], by)
    &&& forall|i: int, j: int|
        0 <= i < j < entries.len() ==> (#[trigger] entries[i]).0@ != (#[trigger] entries[j]).0@
}

/// Whether the first of two times that tell ages is no later than the second; a key without such a
/// time comes before all others.
pub open spec fn not_after(a: Option<u128>, b: Option<u128>) -> bool {
    match (a, b) {
        (None, _) => true,
        (Some(_), None) => false,
        (Some(x), Some(y)) => x <= y,
    }
}

/// `slice::sort_by_key` by the second component: the same entries, from the oldest on. Keys are
/// compared as std orders `Option<u128>`, with `None` first.
#[verifier::external_body]
fn sort_by_age(entries: &mut Vec<(String, Option<u128>)>)
    ensures
        final(entries)@.to_multiset() == old(entries)@.to_multiset(),
        forall|i: int, j: int|
            0 <= i < j < final(entries)@.len() ==> not_after(
                (#[trigger] final(entries)@[i]).1,
                (#[trigger] final(entries)@[j]).1,
            ),
{
    entries.sort_by_key(|entry| entry.1);
}

/// `slice::select_nth_unstable_by_key` by the second component: the same entries, in an order in
/// which none before `index` is younger than the one there, and none after it is older. It panics
/// where there is no such index.
#[verifier::external_body]
fn select_by_age(entries: &mut Vec<(String, Option<u128>)>, index: usize)
    requires
        index < old(entries)@.len(),
    ensures
        final(entries)@.to_multiset() == old(entries)@.to_multiset(),
        forall|i: int|
            0 <= i < index ==> not_after(
                (#[trigger] final(entries)@[i]).1,
                final(entries)@[index as int].1,
            ),
        forall|j: int|
            index < j < final(entries)@.len() ==> not_after(
                final(entries)@[index as int].1,
                (#[trigger] final(entries)@[j]).1,
            ),
{
    entries.select_nth_unstable_by_key(index, |entry| entry.1);
}

/// Whether `after` is `before` without `n` of its keys (or without all, where it has fewer), none
/// of which is younger than one that stayed.
pub open spec fn without_oldest(
    before: TableView,
    after: TableView,
    by: Age,
    n: nat,
) -> bool {
    &&& after.dom().finite()
    &&& after.dom().subset_of(before.dom())
    &&& forall|key: Seq<char>| #[trigger] after.contains_key(key) ==> after[key] == before[key]
    &&& after.len() == if n <= before.len() {
        before.len() - n
    } else {
        0
    }
    &&& forall|gone: Seq<char>, kept: Seq<char>|
        #![trigger before.contains_key(gone), after.contains_key(kept)]
        before.contains_key(gone) && !after.contains_key(gone) && after.contains_key(kept)
            ==> not_after(stamp(before[gone], by), stamp(before[kept], by))
}

/// Entries in another order list the same table.
proof fn lemma_lists_permuted(
    a: Seq<(String, Option<u128>)>,
    b: Seq<(String, Option<u128>)>,
    table: TableView,
    by: Age,
)
    requires
        lists(a, table, by),
        a.to_multiset() == b.to_multiset(),
    ensures
        lists(b, table, by),
{
    a.to_multiset_ensures();
    b.to_multiset_ensures();
    assert forall|i: int| 0 <= i < b.len() implies a.contains(#[trigger] b[i]) by {
        assert(b.contains(b[i]));
        assert(b.to_multiset().count(b[i]) > 0);
    }
    assert(a.no_duplicates()) by {
        assert forall|i: int, j: int| 0 <= i < a.len() && 0 <= j < a.len() && i != j implies a[i]
            != a[j] by {
            if i < j {
                assert(a[i].0@ != a[j].0@);
            } else {
                assert(a[j].0@ != a[i].0@);
            }
        }
    }
    a.lemma_multiset_has_no_duplicates();
    b.lemma_multiset_has_no_duplicates_conv();
    assert forall|i: int, j: int| 0 <= i < j < b.len() implies (#[trigger] b[i]).0@ != (
    #[trigger] b[j]).0@ by {
        assert(a.contains(b[i]) && a.contains(b[j]) && b[i] != b[j]);
        let x = choose|x: int| 0 <= x < a.len() && a[x] == b[i];
        let y = choose|y: int| 0 <= y < a.len() && a[y] == b[j];
        if x < y {
            assert(a[x].0@ != a[y].0@);
        } else {
            assert(a[y].0@ != a[x].0@);
        }
    }
    assert forall|i: int| 0 <= i < b.len() implies table.contains_key((#[trigger] b[i]).0@)
        && b[i].1 == stamp(table[b[i].0@], by) by {
        let x = choose|x: int| 0 <= x < a.len() && a[x] == b[i];
        assert(table.contains_key(a[x].0@));
    }
}

/// A list of all keys holds every key.
proof fn lemma_listed(
    entries: Seq<(String, Option<u128>)>,
    table: TableView,
    by: Age,
    key: Seq<char>,
)
    requires
        lists(entries, table, by),
        table.contains_key(key),
    ensures
        exists|i: int| 0 <= i < entries.len() && (#[trigger] entries[i]).0@ == key,
{
    let keys = entries.map_values(|e: (String, Option<u128>)| e.0@);
    assert(keys.no_duplicates()) by {
        assert forall|i: int, j: int| 0 <= i < keys.len() && 0 <= j < keys.len() && i
            != j implies keys[i] != keys[j] by {
            if i < j {
                assert(entries[i].0@ != entries[j].0@);
            } else {
                assert(entries[j].0@ != entries[i].0@);
            }
        }
    }
    keys.unique_seq_to_set();
    assert(keys.to_set().subset_of(table.dom())) by {
        assert forall|k: Seq<char>| keys.to_set().contains(k) implies table.dom().contains(k) by {
            let i = choose|i: int| 0 <= i < keys.len() && keys[i] == k;
            assert(table.contains_key(entries[i].0@));
        }
    }
    vstd::set_lib::lemma_subset_equality(keys.to_set(), table.dom());
    assert(keys.to_set().contains(key));
    let i = choose|i: int| 0 <= i < keys.len() && keys[i] == key;
    assert(entries[i].0@ == key);
}

/// Forgets the first `n` of the listed keys.
fn remove_first(
    map: &mut DashMap<String, KeyState>,
    entries: &Vec<(String, Option<u128>)>,
    n: usize,
    Ghost(by): Ghost<Age>,
)
    requires
        lists(entries@, held(*old(map)), by),
        n <= entries@.len(),
        forall|i: int, j: int|
            0 <= i < n <= j < entries@.len() ==> not_after(
                (#[trigger] entries@[i]).1,
                (#[trigger] entries@[j]).1,
            ),
    ensures
        without_oldest(held(*old(map)), held(*final(map)), by, n as nat),
{
    let ghost before = held(*map);
    let mut i: usize = 0;
    while i < n
        invariant
            i <= n <= entries@.len(),
            lists(entries@, before, by),
            held(*map).dom().finite(),
            held(*map).len() == before.len() - i,
            held(*map).dom().subset_of(before.dom()),
            forall|key: Seq<char>| #[trigger]
                held(*map).contains_key(key) ==> held(*map)[key] == before[key],
            forall|j: int|
                i <= j < entries@.len() ==> held(*map).contains_key((#[trigger] entries@[j]).0@),
            forall|j: int|
                0 <= j < i ==> !held(*map).contains_key((#[trigger] entries@[j]).0@),
        decreases n - i,
    {
        let ghost mid = held(*map);
        let key: &String = &entries[i].0;
        assert(mid.contains_key(entries@[i as int].0@));
        remove_key(map, key.as_str());
        i += 1;
    }
    proof {
        let after = held(*map);
        assert forall|gone: Seq<char>, kept: Seq<char>|
            #![trigger before.contains_key(gone), after.contains_key(kept)]
            before.contains_key(gone) && !after.contains_key(gone) && after.contains_key(
                kept,
            ) implies not_after(
            stamp(before[gone], by),
            stamp(before[kept], by),
        ) by {
            lemma_listed(entries@, before, by, gone);
            lemma_listed(entries@, before, by, kept);
            let x = choose|x: int| 0 <= x < entries@.len() && (#[trigger] entries@[x]).0@ == gone;
            let y = choose|y: int| 0 <= y < entries@.len() && (#[trigger] entries@[y]).0@ == kept;
            assert(x < n) by {
                if x >= n {
                    assert(after.contains_key(entries@[x].0@));
                }
            }
            assert(y >= n) by {
                if y < n {
                    assert(!after.contains_key(entries@[y].0@));
                }
            }
        }
    }
}

/// Forgets the `batch` oldest keys, or all where there are fewer. Keys without a time that tells
/// their age go first.
pub fn evict_oldest_batch(map: &mut DashMap<String, KeyState>, batch: usize, by: Age)
    ensures
        without_oldest(held(*old(map)), held(*final(map)), by, batch as nat),
{
    let mut entries = list_keys(map, by);
    if batch == 0 || entries.len() == 0 {
        return;
    }
    let ghost listed = entries@;
    let take: usize = if batch < entries.len() {
        batch
    } else {
        entries.len()
    };
    if take < entries.len() {
        select_by_age(&mut entries, take - 1);
        proof {
            lemma_lists_permuted(listed, entries@, held(*map), by);
            assert forall|i: int, j: int| 0 <= i < take <= j < entries@.len() implies not_after(
                (#[trigger] entries@[i]).1,
                (#[trigger] entries@[j]).1,
            ) by {
                assert(not_after(entries@[take - 1].1, entries@[j].1));
                if i < take - 1 {
                    assert(not_after(entries@[i].1, entries@[take - 1].1));
                }
            }
        }
    }
    remove_first(map, &entries, take, Ghost(by));
}

/// Forgets the oldest keys until at most `max` are left.
pub fn cap_oldest(map: &mut DashMap<String, KeyState>, max: usize, by: Age)
    ensures
        without_oldest(
            held(*old(map)),
            held(*final(map)),
            by,
            excess(held(*old(map)).len(), max as nat),
        ),
{
    let len: usize = count_keys(map);
    if len <= max {
        return;
    }
    let mut entries = list_keys(map, by);
    let ghost listed = entries@;
    sort_by_age(&mut entries);
    proof {
        lemma_lists_permuted(listed, entries@, held(*map), by);
    }
    remove_first(map, &entries, len - max, Ghost(by));
}

/// Forgets the keys that are `ttl` old or older. There are finitely many left.
pub(crate) fn drop_old(map: &mut DashMap<String, KeyState>, by: Age, now: u128, ttl: u128)
    ensures
        held(*final(map)) == fresh_part(held(*old(map)), by, now, ttl),
        held(*final(map)).dom().finite(),
{
    retain_fresh(map, by, now, ttl);
    let _ = count_keys(map);
}

/// By how much a number of keys exceeds a limit.
pub open spec fn excess(len: nat, max: nat) -> nat {
    if len > max {
        (len - max) as nat
    } else {
        0
    }
}

} // verus!
