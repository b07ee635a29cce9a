//! The Redis store: which keys it uses on the server, and what numbers it sends and reads.

use super::texts::{law_decimal_stands_for_its_number, number_of};
use crate::stores::redis::{
    count_verdict, counter_ttl, millis_of, unsigned, window_millis, wrapped_difference, RedisView,
};
use crate::stores::redis_laws::lemma_counters_among;
use crate::text::{decimal, is_digit, is_digits};
use crate::time::duration_nanos;
use std::time::Duration;
use vstd::arithmetic::div_mod::{lemma_fundamental_div_mod, lemma_mod_bound};
use vstd::prelude::*;

verus! {

/// Every key on the server is the prefix, a colon and the suffix; that of a fixed window ends with
/// the client's key, a colon and the number of the window.
pub proof fn law_server_keys_hold_the_clients_key(
    store: RedisView,
    suffix: Seq<char>,
    key: Seq<char>,
    window_id: nat,
) -> (number: Seq<char>)
    ensures
        store.key_of(suffix) == store.prefix.push(':') + suffix,
        store.window_key(key, window_id) == (store.prefix.push(':') + "fw:"@ + key).push(':')
            + number,
        number_of(number) == window_id,
{
    law_decimal_stands_for_its_number(window_id);
    assert(store.window_key(key, window_id) =~= (store.prefix.push(':') + "fw:"@ + key).push(':')
        + decimal(window_id));
    decimal(window_id)
}

/// A reset removes the key's bucket, its log, and what belongs to its windows.
pub proof fn law_reset_removes_all_state(store: RedisView, key: Seq<char>)
    ensures
        ({
            let keys = store.state_keys(key);
            let head = store.prefix.push(':');
            &&& keys.contains(head + ("tb:"@ + key))
            &&& keys.contains(head + ("sw:"@ + key))
            &&& keys.contains(head + ("swmax:"@ + key))
            &&& keys.contains(head + ("swseq:"@ + key))
            &&& keys.contains(head + ("fwmax:"@ + key))
            &&& keys.contains(head + ("fwcur:"@ + key))
            &&& keys.len() == 6
        }),
{
    let keys = store.state_keys(key);
    let head = store.prefix.push(':');
    assert(keys[0] == head + ("tb:"@ + key));
    assert(keys[1] == head + ("sw:"@ + key));
    assert(keys[2] == head + ("swmax:"@ + key));
    assert(keys[3] == head + ("swseq:"@ + key));
    assert(keys[4] == head + ("fwmax:"@ + key));
    assert(keys[5] == head + ("fwcur:"@ + key));
}

/// The number of a fixed window is how many whole windows have passed since the Unix epoch, counted
/// in whole milliseconds. A window under a millisecond counts as one. This is of times and windows
/// whose milliseconds fit in 64 bits.
pub proof fn law_window_number_counts_whole_windows(now: Duration, window: Duration)
    requires
        duration_nanos(now) / 1_000_000 <= u64::MAX,
        duration_nanos(window) / 1_000_000 <= u64::MAX,
    ensures
        ({
            let number = millis_of(now) as int / window_millis(window) as int;
            let length = if duration_nanos(window) < 1_000_000 {
                1int
            } else {
                duration_nanos(window) as int / 1_000_000
            };
            number * length <= duration_nanos(now) as int / 1_000_000 < (number + 1) * length
        }),
{
    let now_ms = duration_nanos(now) as int / 1_000_000;
    let length = window_millis(window) as int;
    lemma_fundamental_div_mod(now_ms, length);
    lemma_mod_bound(now_ms, length);
    assert((now_ms / length + 1) * length == length * (now_ms / length) + length)
        by (nonlinear_arith);
    assert((now_ms / length) * length == length * (now_ms / length)) by (nonlinear_arith);
}

/// A counter is kept for its window and ten seconds, rounded up to a second.
pub proof fn law_counters_are_kept_a_while(window_ms: u64)
    ensures
        window_ms + 10_000 <= counter_ttl(window_ms) * 1000 < window_ms + 11_000,
{
}

/// A reply that is not negative is read as it is, and a negative one as a number beyond all limits.
pub proof fn law_replies_are_read_as_they_are(n: i64)
    ensures
        n >= 0 ==> unsigned(n) == n,
        n < 0 ==> unsigned(n) >= 0x8000_0000_0000_0000,
        unsigned(n) - n == 0 || unsigned(n) - n == 0x1_0000_0000_0000_0000,
{
}

/// The request that takes a counter to a number up to the limit is allowed, and the rest of the
/// limit remains; beyond the limit it is denied.
pub proof fn law_counter_is_held_against_the_limit(count: i64, max_requests: u64)
    requires
        count >= 0,
    ensures
        count_verdict(count, max_requests).0 == (count <= max_requests),
        count <= max_requests ==> count_verdict(count, max_requests).1 + count == max_requests,
        count > max_requests ==> count_verdict(count, max_requests).1 == 0,
{
}

/// A difference that fits in 64 bits is the difference; any other differs from it by a multiple of
/// `2^64`, and fits.
pub proof fn law_differences_wrap_around(a: i64, b: i64)
    ensures
        i64::MIN <= wrapped_difference(a, b) <= i64::MAX,
        i64::MIN <= a - b <= i64::MAX ==> wrapped_difference(a, b) == a - b,
        wrapped_difference(a, b) - (a - b) == 0 || wrapped_difference(a, b) - (a - b)
            == 0x1_0000_0000_0000_0000 || (a - b) - wrapped_difference(a, b)
            == 0x1_0000_0000_0000_0000,
{
}

/// A sweep removes, of the keys that it finds, exactly those that are what the key's counters start
/// with and then digits.
pub proof fn law_sweep_removes_exactly_the_counters(
    store: RedisView,
    key: Seq<char>,
    found: Seq<Seq<char>>,
    full: Seq<char>,
)
    ensures
        ({
            let head = (store.prefix.push(':') + "fw:"@ + key).push(':');
            store.counters_among(key, found).contains(full) == (found.contains(full) && full.len()
                > head.len() && full.take(head.len() as int) == head && forall|i: int|
                head.len() <= i < full.len() ==> 48 <= (#[trigger] full[i]) as u32 <= 57)
        }),
{
    let head = (store.prefix.push(':') + "fw:"@ + key).push(':');
    assert(head =~= store.window_head(key));
    lemma_counters_among(store, key, found, full);
    if full.len() >= head.len() {
        let rest = full.skip(head.len() as int);
        if is_digits(rest) {
            assert forall|i: int| head.len() <= i < full.len() implies 48 <= (
            #[trigger] full[i]) as u32 <= 57 by {
                assert(rest[i - head.len()] == full[i]);
                assert(is_digit(rest[i - head.len()]));
            }
        }
        if full.len() > head.len() && forall|i: int|
            head.len() <= i < full.len() ==> 48 <= (#[trigger] full[i]) as u32 <= 57 {
            assert forall|i: int| 0 <= i < rest.len() implies is_digit(#[trigger] rest[i]) by {
                assert(48 <= full[i + head.len()] as u32 <= 57);
            }
        }
        if head.is_prefix_of(full) {
            assert(full.take(head.len() as int) =~= head);
        }
        if full.take(head.len() as int) == head {
            assert(head.is_prefix_of(full));
        }
    }
}

} // verus!
