//! What holds of the keys and counters that the Redis store uses on the server.

use super::redis::{
    count_verdict, counter_ttl, escaped, is_special, literal_of, millis_of, window_millis,
    RedisView, MILLIS_PER_SEC, TTL_SLACK_SECS,
};
use crate::limiter::{
    law_window_end, whole_millis, window_end, window_length, window_told, RateLimitCheckResult,
};
use crate::text::{
    decimal, is_digit, is_digits, lemma_decimal_is_digits, lemma_decimal_tells_apart,
};
use crate::time::duration_nanos;
use std::time::Duration;
use vstd::arithmetic::div_mod::{
    lemma_div_is_ordered, lemma_fundamental_div_mod, lemma_mod_bound,
};
use vstd::prelude::*;
use vstd::string::*;

verus! {

/// Whether a text is one of those that tell the kinds of keys apart.
pub open spec fn is_tag(tag: Seq<char>) -> bool {
    ||| tag == "tb:"@
    ||| tag == "sw:"@
    ||| tag == "swmax:"@
    ||| tag == "swseq:"@
    ||| tag == "fw:"@
    ||| tag == "fwmax:"@
    ||| tag == "fwcur:"@
}

/// Under one prefix, keys of different kinds never meet, whatever keys clients choose, and keys of
/// one kind meet only for the same client key.
pub proof fn law_redis_keys_do_not_meet(
    store: RedisView,
    tag: Seq<char>,
    key: Seq<char>,
    other_tag: Seq<char>,
    other_key: Seq<char>,
)
    requires
        is_tag(tag),
        is_tag(other_tag),
        store.key_of(tag + key) == store.key_of(other_tag + other_key),
    ensures
        tag == other_tag,
        key == other_key,
{
    reveal_strlit("tb:");
    reveal_strlit("sw:");
    reveal_strlit("swmax:");
    reveal_strlit("swseq:");
    reveal_strlit("fw:");
    reveal_strlit("fwmax:");
    reveal_strlit("fwcur:");
    let a = tag + key;
    let b = other_tag + other_key;
    let n = store.prefix.len() + 1;
    assert(store.key_of(a).skip(n as int) =~= a);
    assert(store.key_of(b).skip(n as int) =~= b);
    assert(a[0] == tag[0] && a[2] == tag[2]);
    assert(b[0] == other_tag[0] && b[2] == other_tag[2]);
    assert(tag =~= other_tag);
    assert(a.skip(tag.len() as int) =~= key);
    assert(b.skip(tag.len() as int) =~= other_key);
}

/// An escaped text, as a pattern, stands for that text.
pub proof fn law_redis_escaped_is_literal(text: Seq<char>)
    ensures
        literal_of(escaped(text)) == Some(text),
    decreases text.len(),
{
    if text.len() > 0 {
        let rest = text.drop_first();
        law_redis_escaped_is_literal(rest);
        if is_special(text.first()) {
            assert(escaped(text).skip(2) =~= escaped(rest));
        } else {
            assert(escaped(text).skip(1) =~= escaped(rest));
        }
        assert(seq![text.first()] + rest =~= text);
    }
}

/// A reset covers every counter that the fixed window operation can have made for the key: each
/// starts with the text that the pattern has before its asterisk, and a sweep that finds it removes
/// it.
pub proof fn law_redis_reset_covers_windows(
    store: RedisView,
    key: Seq<char>,
    window_id: nat,
    found: Seq<Seq<char>>,
)
    requires
        found.contains(store.window_key(key, window_id)),
    ensures
        store.window_pattern(key).last() == '*',
        literal_of(store.window_pattern(key).drop_last()) is Some,
        store.window_key(key, window_id) == literal_of(
            store.window_pattern(key).drop_last(),
        )->Some_0 + decimal(window_id),
        store.counters_among(key, found).contains(store.window_key(key, window_id)),
{
    let head = store.window_head(key);
    assert(store.window_pattern(key).drop_last() =~= escaped(head));
    law_redis_escaped_is_literal(head);
    lemma_window_key(store, key, window_id);
    lemma_decimal_is_digits(window_id);
    let full = store.window_key(key, window_id);
    assert(full.take(head.len() as int) =~= head);
    assert(full.skip(head.len() as int) =~= decimal(window_id));
    lemma_counters_among(store, key, found, full);
}

/// A counter is what all counters of the key start with, and the number of the window.
proof fn lemma_window_key(store: RedisView, key: Seq<char>, window_id: nat)
    ensures
        store.window_key(key, window_id) == store.window_head(key) + decimal(window_id),
{
    assert(store.window_key(key, window_id) =~= store.window_head(key) + decimal(window_id));
}

/// A sweep removes what it finds and what is a counter of the key, and nothing else.
pub(crate) proof fn lemma_counters_among(
    store: RedisView,
    key: Seq<char>,
    found: Seq<Seq<char>>,
    full: Seq<char>,
)
    ensures
        store.counters_among(key, found).contains(full) == (found.contains(full)
            && store.is_counter_of(key, full)),
    decreases found.len(),
{
    if found.len() > 0 {
        let earlier = found.drop_last();
        let kept = store.counters_among(key, earlier);
        lemma_counters_among(store, key, earlier, full);
        assert(found =~= earlier.push(found.last()));
        if found.last() == full {
            assert(found[found.len() - 1] == full);
            assert(kept.push(full)[kept.len() as int] == full);
        }
        if earlier.contains(full) {
            let i = choose|i: int| 0 <= i < earlier.len() && earlier[i] == full;
            assert(found[i] == full);
        }
        if kept.contains(full) {
            let i = choose|i: int| 0 <= i < kept.len() && kept[i] == full;
            assert(kept.push(found.last())[i] == full);
        }
        if kept.push(found.last()).contains(full) && found.last() != full {
            let i = choose|i: int|
                0 <= i < kept.push(found.last()).len() && kept.push(found.last())[i] == full;
            assert(kept[i] == full);
        }
    }
}

/// Two counters of fixed windows are the same only where they are of the same key and window.
pub proof fn law_redis_counters_do_not_meet(
    store: RedisView,
    key: Seq<char>,
    window_id: nat,
    other: Seq<char>,
    other_id: nat,
)
    requires
        store.window_key(key, window_id) == store.window_key(other, other_id),
    ensures
        key == other,
        window_id == other_id,
{
    let a = decimal(window_id);
    let b = decimal(other_id);
    lemma_decimal_is_digits(window_id);
    lemma_decimal_is_digits(other_id);
    lemma_window_key(store, key, window_id);
    lemma_window_key(store, other, other_id);
    lemma_heads_agree(store.window_head(key), a, store.window_head(other), b);
    lemma_head_tells_key(store, key, other);
    lemma_decimal_tells_apart(window_id, other_id);
}

/// A text that ends in a colon and then digits can be taken apart in one way only.
proof fn lemma_heads_agree(head: Seq<char>, a: Seq<char>, other: Seq<char>, b: Seq<char>)
    requires
        head.len() > 0 && head.last() == ':',
        other.len() > 0 && other.last() == ':',
        is_digits(a),
        is_digits(b),
        head + a == other + b,
    ensures
        head == other,
        a == b,
{
    let whole = head + a;
    assert(whole.len() == other.len() + b.len());
    if head.len() < other.len() {
        assert(whole[other.len() - 1] == ':');
        assert(a[other.len() - 1 - head.len()] == ':');
        assert(is_digit(a[other.len() - 1 - head.len()]));
    } else if other.len() < head.len() {
        assert((other + b)[head.len() - 1] == ':');
        assert(b[head.len() - 1 - other.len()] == ':');
        assert(is_digit(b[head.len() - 1 - other.len()]));
    }
    assert(whole.take(head.len() as int) =~= head);
    assert((other + b).take(head.len() as int) =~= other);
    assert(whole.skip(head.len() as int) =~= a);
    assert((other + b).skip(head.len() as int) =~= b);
}

/// Counters of different keys start differently.
proof fn lemma_head_tells_key(store: RedisView, key: Seq<char>, other: Seq<char>)
    requires
        store.window_head(key) == store.window_head(other),
    ensures
        key == other,
{
    assert(store.window_head(key).drop_last() =~= store.key_of("fw:"@ + key));
    assert(store.window_head(other).drop_last() =~= store.key_of("fw:"@ + other));
    law_redis_keys_do_not_meet(store, "fw:"@, key, "fw:"@, other);
}

/// A reset spares every other key, whatever the two keys hold: neither the counters of its fixed
/// windows nor the rest of its state are among the keys that a reset removes, be it as state of the
/// key or in a sweep.
pub proof fn law_redis_reset_spares_other_keys(
    store: RedisView,
    key: Seq<char>,
    other: Seq<char>,
    window_id: nat,
    found: Seq<Seq<char>>,
)
    requires
        other != key,
    ensures
        !store.counters_among(key, found).contains(store.window_key(other, window_id)),
        !store.state_keys(key).contains(store.window_key(other, window_id)),
        forall|full: Seq<char>| #[trigger]
            store.state_keys(other).contains(full) ==> !store.state_keys(key).contains(full)
                && !store.counters_among(key, found).contains(full),
{
    let counter = store.window_key(other, window_id);
    lemma_window_key(store, other, window_id);
    lemma_decimal_is_digits(window_id);
    lemma_counters_among(store, key, found, counter);
    let head = store.window_head(key);
    if store.is_counter_of(key, counter) {
        assert(head + counter.skip(head.len() as int) =~= counter);
        lemma_heads_agree(
            head,
            counter.skip(head.len() as int),
            store.window_head(other),
            decimal(window_id),
        );
        lemma_head_tells_key(store, key, other);
    }
    let suffix = other.push(':') + decimal(window_id);
    assert(counter =~= store.key_of("fw:"@ + suffix));
    if store.state_keys(key).contains(counter) {
        let tag = lemma_state_key(store, key, counter);
        law_redis_keys_do_not_meet(store, tag, key, "fw:"@, suffix);
        lemma_fixed_tag_is_own(tag);
    }
    assert forall|full: Seq<char>| #[trigger]
        store.state_keys(other).contains(full) implies !store.state_keys(key).contains(full)
        && !store.counters_among(key, found).contains(full) by {
        let tag = lemma_state_key(store, other, full);
        if store.state_keys(key).contains(full) {
            let own = lemma_state_key(store, key, full);
            law_redis_keys_do_not_meet(store, own, key, tag, other);
        }
        lemma_counters_among(store, key, found, full);
        if store.is_counter_of(key, full) {
            let rest = key.push(':') + full.skip(head.len() as int);
            assert(head + full.skip(head.len() as int) =~= full);
            assert(full =~= store.key_of("fw:"@ + rest));
            law_redis_keys_do_not_meet(store, tag, other, "fw:"@, rest);
            lemma_fixed_tag_is_own(tag);
        }
    }
}

/// Whether a text tells the kind of a state key.
spec fn is_state_tag(tag: Seq<char>) -> bool {
    ||| tag == "tb:"@
    ||| tag == "sw:"@
    ||| tag == "swmax:"@
    ||| tag == "swseq:"@
    ||| tag == "fwmax:"@
    ||| tag == "fwcur:"@
}

/// The tag of a state key.
proof fn lemma_state_key(store: RedisView, key: Seq<char>, full: Seq<char>) -> (tag: Seq<char>)
    requires
        store.state_keys(key).contains(full),
    ensures
        is_state_tag(tag),
        full == store.key_of(tag + key),
{
    let i = choose|i: int| 0 <= i < 6 && store.state_keys(key)[i] == full;
    if i == 0 {
        "tb:"@
    } else if i == 1 {
        "sw:"@
    } else if i == 2 {
        "swmax:"@
    } else if i == 3 {
        "swseq:"@
    } else if i == 4 {
        "fwmax:"@
    } else {
        "fwcur:"@
    }
}

/// No state key has the tag of a counter.
proof fn lemma_fixed_tag_is_own(tag: Seq<char>)
    requires
        is_state_tag(tag),
    ensures
        tag != "fw:"@,
{
    reveal_strlit("tb:");
    reveal_strlit("sw:");
    reveal_strlit("swmax:");
    reveal_strlit("swseq:");
    reveal_strlit("fw:");
    reveal_strlit("fwmax:");
    reveal_strlit("fwcur:");
    assert("fw:"@[0] == 'f' && "fw:"@.len() == 3);
}

/// A request that asked the fixed window operation.
#[verifier::ext_equal]
pub struct FixedCall {
    /// The key of the client.
    pub key: Seq<char>,
    /// The length of the window, in milliseconds.
    pub window_ms: u64,
    /// The time of the request, in milliseconds since the Unix epoch.
    pub now_ms: u64,
}

impl FixedCall {
    /// The number of the window that the request falls in.
    pub open spec fn window_id(self) -> nat {
        (self.now_ms / self.window_ms) as nat
    }
}

/// How many of some requests have counted on the given counter.
pub open spec fn counted_on(store: RedisView, calls: Seq<FixedCall>, counter: Seq<char>) -> nat
    decreases calls.len(),
{
    if calls.len() == 0 {
        0
    } else {
        counted_on(store, calls.drop_last(), counter) + if store.window_key(
            calls.last().key,
            calls.last().window_id(),
        ) == counter {
            1nat
        } else {
            0
        }
    }
}

/// How many of some requests were made with the key of the given one, in windows of the same length
/// and in the same one of them.
pub open spec fn made_in_window(calls: Seq<FixedCall>, call: FixedCall) -> nat
    decreases calls.len(),
{
    if calls.len() == 0 {
        0
    } else {
        made_in_window(calls.drop_last(), call) + if calls.last().key == call.key
            && calls.last().window_ms == call.window_ms && calls.last().window_id()
            == call.window_id() {
            1nat
        } else {
            0
        }
    }
}

/// Of the requests of a key that fall in one window, the first ones up to the limit are allowed,
/// with one less remaining each time, and all others are denied, whatever other keys ask in
/// between. This is of a server that replies with how many requests have counted on the counter,
/// the last one among them, and of a key that always asks with the same length of window.
pub proof fn law_redis_fixed_window_allows_limit(
    store: RedisView,
    earlier: Seq<FixedCall>,
    call: FixedCall,
    max_requests: u64,
    reply: i64,
)
    requires
        call.window_ms > 0,
        forall|i: int|
            0 <= i < earlier.len() && (#[trigger] earlier[i]).key == call.key
                ==> earlier[i].window_ms == call.window_ms,
        reply == counted_on(
            store,
            earlier.push(call),
            store.window_key(call.key, call.window_id()),
        ),
    ensures
        ({
            let made = made_in_window(earlier, call);
            count_verdict(reply, max_requests) == if made < max_requests {
                (true, (max_requests - made - 1) as u64)
            } else {
                (false, 0u64)
            }
        }),
{
    assert(earlier.push(call).drop_last() =~= earlier);
    lemma_counted_on(store, earlier, call);
}

/// A counter counts the requests of its key in its window.
proof fn lemma_counted_on(store: RedisView, calls: Seq<FixedCall>, call: FixedCall)
    requires
        forall|i: int|
            0 <= i < calls.len() && (#[trigger] calls[i]).key == call.key ==> calls[i].window_ms
                == call.window_ms,
    ensures
        counted_on(store, calls, store.window_key(call.key, call.window_id())) == made_in_window(
            calls,
            call,
        ),
    decreases calls.len(),
{
    if calls.len() > 0 {
        let last = calls.last();
        let rest = calls.drop_last();
        assert forall|i: int|
            0 <= i < rest.len() && (#[trigger] rest[i]).key == call.key implies rest[i].window_ms
            == call.window_ms by {
            assert(calls[i].key == call.key);
        }
        lemma_counted_on(store, rest, call);
        if store.window_key(last.key, last.window_id()) == store.window_key(
            call.key,
            call.window_id(),
        ) {
            law_redis_counters_do_not_meet(
                store,
                last.key,
                last.window_id(),
                call.key,
                call.window_id(),
            );
        }
    }
}

/// A counter outlives its window on the server, by the slack at least.
pub proof fn law_redis_counter_outlives_window(window_ms: u64)
    ensures
        counter_ttl(window_ms) * MILLIS_PER_SEC >= window_ms + TTL_SLACK_SECS * MILLIS_PER_SEC,
{
}

/// Two requests share a counter only where less than a window lies between them.
pub proof fn law_redis_counter_is_of_one_window(now_ms: u64, later_ms: u64, window_ms: u64)
    requires
        window_ms > 0,
        now_ms <= later_ms,
        now_ms / window_ms == later_ms / window_ms,
    ensures
        later_ms - now_ms < window_ms,
{
    lemma_fundamental_div_mod(now_ms as int, window_ms as int);
    lemma_fundamental_div_mod(later_ms as int, window_ms as int);
    lemma_mod_bound(now_ms as int, window_ms as int);
    lemma_mod_bound(later_ms as int, window_ms as int);
}

/// A client that a fixed window on the server denied falls into a later window as soon as the time
/// has passed that it was told to wait: on the counter of that window no request has counted up to
/// the denied one. This is of times whose milliseconds fit in 64 bits.
pub proof fn law_redis_window_is_new_after_wait(
    result: RateLimitCheckResult,
    verdict: (bool, u64),
    max_requests: u64,
    window: Duration,
    earlier: Duration,
    now: Duration,
    later: Duration,
)
    requires
        window_told(result, verdict, max_requests, window, now),
        !verdict.0,
        whole_millis(window) <= u64::MAX,
        whole_millis(later) <= u64::MAX,
        duration_nanos(earlier) <= duration_nanos(now),
        duration_nanos(later) >= duration_nanos(now) + duration_nanos(result.retry_after->0),
    ensures
        millis_of(earlier) / window_millis(window) < millis_of(later) / window_millis(window),
{
    let length = window_length(whole_millis(window));
    let end = window_end(whole_millis(window), whole_millis(now));
    law_window_end(whole_millis(window), whole_millis(now));
    assert(length == window_millis(window));
    assert(whole_millis(later) >= end);
    assert(whole_millis(earlier) <= whole_millis(now));
    lemma_div_is_ordered(end as int, whole_millis(later) as int, length as int);
    lemma_div_is_ordered(whole_millis(earlier) as int, whole_millis(now) as int, length as int);
}

} // verus!
