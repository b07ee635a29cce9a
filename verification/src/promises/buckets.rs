//! Token buckets: each request takes a token, and time gives them back.

use crate::algorithms::rates::Measure;
use crate::algorithms::token_bucket::{
    bucket_met, bucket_refilled, bucket_step, token_spent, TokenBucketView,
};
use crate::stores::memory::MemoryView;
use crate::table::{look_up, KeyView};
use crate::time::elapsed_nanos;
use crate::tokens::{holds_token, whole_part, RefillRate, TokenArithmetic};
use vstd::arithmetic::div_mod::{lemma_fundamental_div_mod, lemma_mod_bound};
use vstd::arithmetic::power2::{
    lemma2_to64, lemma_pow2_pos, lemma_pow2_strictly_increases, lemma_pow2_unfold, pow2,
};
use vstd::prelude::*;

verus! {

/// The whole tokens of a level are the integer part of the number that its bits stand for: with an
/// exponent and a fraction of 52 bits, that number is `(1 + fraction / 2^52) * 2^exponent`.
pub proof fn law_whole_tokens_are_the_integer_part(level: u64, exponent: nat, fraction: nat)
    requires
        fraction < 0x0010_0000_0000_0000,
        level == (exponent + 1023) * 0x0010_0000_0000_0000 + fraction,
        exponent < 64,
    ensures
        whole_part(level) as int * 0x0010_0000_0000_0000 <= (0x0010_0000_0000_0000 + fraction)
            * pow2(exponent),
        (0x0010_0000_0000_0000 + fraction) * pow2(exponent) < (whole_part(level) + 1)
            * 0x0010_0000_0000_0000,
{
    let unit: int = 0x0010_0000_0000_0000;
    assert(level as int / unit == exponent + 1023 && level as int % unit == fraction);
    let significand = unit + fraction;
    lemma2_to64();
    lemma_pow2_unfold(64);
    lemma_pow2_pos(exponent);
    if exponent < 63 {
        lemma_pow2_strictly_increases(exponent, 63);
    }
    let scaled = significand * pow2(exponent);
    assert(0 <= scaled <= (2 * unit - 1) * 0x8000_0000_0000_0000) by (nonlinear_arith)
        requires
            0 <= significand <= 2 * unit - 1,
            1 <= pow2(exponent) <= 0x8000_0000_0000_0000,
            scaled == significand * pow2(exponent),
            unit > 0,
    ;
    lemma_fundamental_div_mod(scaled, unit);
    lemma_mod_bound(scaled, unit);
    assert(0 <= scaled / unit <= u64::MAX);
}

/// Levels below one, negative levels and those that are no numbers hold no whole token; levels of
/// `2^64` and more hold as many as can be told.
pub proof fn law_whole_tokens_beyond_the_range(level: u64)
    ensures
        level < 0x3ff0_0000_0000_0000 ==> whole_part(level) == 0,
        level > 0x7ff0_0000_0000_0000 ==> whole_part(level) == 0,
        0x43f0_0000_0000_0000 <= level <= 0x7ff0_0000_0000_0000 ==> whole_part(level)
            == 0xffff_ffff_ffff_ffff,
        holds_token(level) == (0x3ff0_0000_0000_0000 <= level <= 0x7ff0_0000_0000_0000),
{
}

/// A rate is usable exactly where its bits stand for a number above zero that is finite.
pub proof fn law_usable_rates_are_finite_and_positive(rate: RefillRate)
    ensures
        rate.usable() == (rate.bits != 0 && rate.bits < 0x7ff0_0000_0000_0000),
{
}

/// A request of a key that has asked before meets its bucket with the tokens for exactly the time
/// since then: it is allowed where that holds a whole token, and takes one. The bucket is left with
/// the rest, as of now.
pub proof fn law_bucket_is_refilled_for_the_time_that_passed<A: TokenArithmetic>(
    before: TokenBucketView,
    after: TokenBucketView,
    key: Seq<char>,
    now: u128,
    verdict: (bool, u64),
) -> (refilled: u64)
    requires
        before.acquires::<A>(after, key, now, verdict),
        before.table.contains_key(key),
        before.table[key].at <= now,
    ensures
        call_ensures(
            A::refilled,
            (
                before.table[key].level,
                before.capacity,
                before.rate,
                (now - before.table[key].at) as u128,
            ),
            refilled,
        ),
        verdict.0 == (0x3ff0_0000_0000_0000 <= refilled <= 0x7ff0_0000_0000_0000),
        verdict.0 ==> call_ensures(A::one_less, (refilled,), after.table[key].level) && verdict.1
            == whole_part(after.table[key].level),
        !verdict.0 ==> after.table[key].level == refilled && verdict.1 == 0,
        after.table[key].at == now,
{
    let met = before.table[key];
    lemma_refilled::<A>(met, before.capacity, before.rate, now, after.table[key], verdict)
}

/// The first request of a key meets a full bucket.
pub proof fn law_bucket_starts_full<A: TokenArithmetic>(
    before: TokenBucketView,
    after: TokenBucketView,
    key: Seq<char>,
    now: u128,
    verdict: (bool, u64),
) -> (levels: (u64, u64))
    requires
        before.acquires::<A>(after, key, now, verdict),
        !before.table.contains_key(key),
    ensures
        call_ensures(A::full, (before.capacity,), levels.0),
        call_ensures(A::refilled, (levels.0, before.capacity, before.rate, 0u128), levels.1),
        verdict.0 == (0x3ff0_0000_0000_0000 <= levels.1 <= 0x7ff0_0000_0000_0000),
        verdict.0 ==> call_ensures(A::one_less, (levels.1,), after.table[key].level) && verdict.1
            == whole_part(after.table[key].level),
        !verdict.0 ==> after.table[key].level == levels.1 && verdict.1 == 0,
        after.table[key].at == now,
{
    let met = choose|met: KeyView|
        #![trigger bucket_met::<A>(look_up(before.table, key), before.capacity, now, met)]
        bucket_met::<A>(look_up(before.table, key), before.capacity, now, met) && bucket_step::<A>(
            met,
            before.capacity,
            before.rate,
            now,
            after.table[key],
            verdict,
        );
    let refilled = lemma_refilled::<A>(
        met,
        before.capacity,
        before.rate,
        now,
        after.table[key],
        verdict,
    );
    (met.level, refilled)
}

/// The level that a bucket is refilled to, and what comes of it.
proof fn lemma_refilled<A: TokenArithmetic>(
    met: KeyView,
    capacity: u64,
    rate: RefillRate,
    now: u128,
    after: KeyView,
    verdict: (bool, u64),
) -> (refilled: u64)
    requires
        bucket_step::<A>(met, capacity, rate, now, after, verdict),
        met.at <= now,
    ensures
        call_ensures(A::refilled, (met.level, capacity, rate, (now - met.at) as u128), refilled),
        verdict.0 == (0x3ff0_0000_0000_0000 <= refilled <= 0x7ff0_0000_0000_0000),
        verdict.0 ==> call_ensures(A::one_less, (refilled,), after.level) && verdict.1
            == whole_part(after.level),
        !verdict.0 ==> after.level == refilled && verdict.1 == 0,
        after.at == now,
{
    let refilled = choose|refilled: KeyView|
        #![trigger token_spent::<A>(refilled, after, verdict)]
        bucket_refilled::<A>(met, capacity, rate, now, refilled) && token_spent::<A>(
            refilled,
            after,
            verdict,
        );
    assert(token_spent::<A>(refilled, after, verdict));
    assert(elapsed_nanos(met.at, now) == (now - met.at) as u128);
    refilled.level
}

/// What remains in the bucket of a key that has asked before are the whole tokens that it holds
/// with those for exactly the time since then. A key that never asked has as many as the capacity.
pub proof fn law_bucket_remaining_counts_the_time_that_passed<A: TokenArithmetic>(
    limiter: TokenBucketView,
    key: Seq<char>,
    now: u128,
    left: u64,
)
    requires
        limiter.leaves::<A>(key, now, left),
    ensures
        !limiter.table.contains_key(key) ==> left == limiter.capacity,
        limiter.table.contains_key(key) && limiter.table[key].at <= now ==> exists|level: u64|
         #[trigger]
            call_ensures(
                A::refilled,
                (
                    limiter.table[key].level,
                    limiter.capacity,
                    limiter.rate,
                    (now - limiter.table[key].at) as u128,
                ),
                level,
            ) && left == whole_part(level),
{
    if limiter.table.contains_key(key) && limiter.table[key].at <= now {
        let state = limiter.table[key];
        assert(elapsed_nanos(state.at, now) == (now - state.at) as u128);
    }
}

/// Whether an arithmetic gives what a measure says: a refill adds what the time gives, up to the
/// capacity, less the slack at most, and a level that is worth a token holds one.
pub open spec fn gives<A: TokenArithmetic>(
    measure: Measure,
    capacity: u64,
    rate: RefillRate,
) -> bool {
    &&& forall|level: u64, elapsed: u128, refilled: u64| #[trigger]
        call_ensures(A::refilled, (level, capacity, rate, elapsed), refilled) ==> (measure.worth)(
            refilled,
        ) + measure.slack >= measure.token * capacity || (measure.worth)(refilled) + measure.slack
            >= (measure.worth)(level) + measure.gain * elapsed
    &&& forall|level: u64| #[trigger] (measure.worth)(level) >= measure.token ==> holds_token(level)
}

/// A key that waits, after any request, until a token has been added, is allowed its next request,
/// but for what rounding takes. This is of an arithmetic that gives what a measure says.
pub proof fn law_bucket_gives_a_token_after_a_while<A: TokenArithmetic>(
    measure: Measure,
    before: TokenBucketView,
    mid: TokenBucketView,
    after: TokenBucketView,
    key: Seq<char>,
    now: u128,
    later: u128,
    verdict: (bool, u64),
    later_verdict: (bool, u64),
)
    requires
        gives::<A>(measure, before.capacity, before.rate),
        before.acquires::<A>(mid, key, now, verdict),
        mid.acquires::<A>(after, key, later, later_verdict),
        now <= later,
        measure.gain * (later - now) >= measure.token + measure.slack,
        measure.token * before.capacity >= measure.token + measure.slack,
    ensures
        later_verdict.0,
{
    let met = mid.table[key];
    assert(met.at == now) by {
        if before.table.contains_key(key) {
            let from = before.table[key];
            lemma_stamped::<A>(from, before.capacity, before.rate, now, met, verdict);
        } else {
            let _ = law_bucket_starts_full::<A>(before, mid, key, now, verdict);
        }
    }
    let refilled = law_bucket_is_refilled_for_the_time_that_passed::<A>(
        mid,
        after,
        key,
        later,
        later_verdict,
    );
    assert((measure.worth)(refilled) >= measure.token);
}

/// A bucket bears the time of its last request.
proof fn lemma_stamped<A: TokenArithmetic>(
    met: KeyView,
    capacity: u64,
    rate: RefillRate,
    now: u128,
    after: KeyView,
    verdict: (bool, u64),
)
    requires
        bucket_step::<A>(met, capacity, rate, now, after, verdict),
    ensures
        after.at == now,
{
    let refilled = choose|refilled: KeyView|
        #![trigger token_spent::<A>(refilled, after, verdict)]
        bucket_refilled::<A>(met, capacity, rate, now, refilled) && token_spent::<A>(
            refilled,
            after,
            verdict,
        );
    assert(token_spent::<A>(refilled, after, verdict));
}

/// The store in memory treats the bucket of a key that has asked before in the same way, with the
/// capacity and the rate that the request asks for, and changes nothing else.
pub proof fn law_store_bucket_is_refilled_for_the_time_that_passed<A: TokenArithmetic>(
    before: MemoryView,
    after: MemoryView,
    key: Seq<char>,
    capacity: u64,
    rate: RefillRate,
    now: u128,
    verdict: (bool, u64),
) -> (refilled: u64)
    requires
        before.takes_token::<A>(after, key, capacity, rate, now, verdict),
        before.buckets.contains_key(key),
        before.buckets[key].at <= now,
    ensures
        call_ensures(
            A::refilled,
            (before.buckets[key].level, capacity, rate, (now - before.buckets[key].at) as u128),
            refilled,
        ),
        verdict.0 == (0x3ff0_0000_0000_0000 <= refilled <= 0x7ff0_0000_0000_0000),
        verdict.0 ==> call_ensures(A::one_less, (refilled,), after.buckets[key].level) && verdict.1
            == whole_part(after.buckets[key].level),
        !verdict.0 ==> after.buckets[key].level == refilled && verdict.1 == 0,
        after.buckets[key].at == now,
        after.buckets[key].seen == now,
        after.buckets == before.buckets.insert(key, after.buckets[key]),
        after.logs == before.logs,
        after.windows == before.windows,
{
    let met = before.buckets[key];
    let state = after.buckets[key];
    let refilled = choose|refilled: KeyView|
        #![trigger token_spent::<A>(refilled, state, verdict)]
        bucket_refilled::<A>(met, capacity, rate, now, refilled) && token_spent::<A>(
            refilled,
            state,
            verdict,
        );
    assert(token_spent::<A>(refilled, state, verdict));
    lemma_refilled::<A>(met, capacity, rate, now, state, verdict)
}

/// The first request of a key of the store meets a full bucket, and changes nothing else.
pub proof fn law_store_bucket_starts_full<A: TokenArithmetic>(
    before: MemoryView,
    after: MemoryView,
    key: Seq<char>,
    capacity: u64,
    rate: RefillRate,
    now: u128,
    verdict: (bool, u64),
) -> (levels: (u64, u64))
    requires
        before.takes_token::<A>(after, key, capacity, rate, now, verdict),
        !before.buckets.contains_key(key),
    ensures
        call_ensures(A::full, (capacity,), levels.0),
        call_ensures(A::refilled, (levels.0, capacity, rate, 0u128), levels.1),
        verdict.0 == (0x3ff0_0000_0000_0000 <= levels.1 <= 0x7ff0_0000_0000_0000),
        verdict.0 ==> call_ensures(A::one_less, (levels.1,), after.buckets[key].level) && verdict.1
            == whole_part(after.buckets[key].level),
        !verdict.0 ==> after.buckets[key].level == levels.1 && verdict.1 == 0,
        after.buckets[key].at == now,
        after.buckets == before.buckets.insert(key, after.buckets[key]),
        after.logs == before.logs,
        after.windows == before.windows,
{
    let met = choose|met: KeyView|
        #![trigger bucket_met::<A>(look_up(before.buckets, key), capacity, now, met)]
        bucket_met::<A>(look_up(before.buckets, key), capacity, now, met) && bucket_step::<A>(
            met,
            capacity,
            rate,
            now,
            after.buckets[key],
            verdict,
        );
    let refilled = lemma_refilled::<A>(met, capacity, rate, now, after.buckets[key], verdict);
    (met.level, refilled)
}

/// What the store tells remains in a bucket are the whole tokens that the last request left.
pub proof fn law_store_bucket_remaining_is_what_was_left(
    store: MemoryView,
    key: Seq<char>,
    now: u128,
    later: u128,
)
    requires
        store.buckets.contains_key(key),
    ensures
        store.left(key, now) == whole_part(store.buckets[key].level),
        store.left(key, later) == store.left(key, now),
{
}

/// A request at a time before the last one, which a clock that does not go back never gives, adds
/// no tokens.
pub proof fn law_bucket_is_not_refilled_backwards<A: TokenArithmetic>(
    before: TokenBucketView,
    after: TokenBucketView,
    key: Seq<char>,
    now: u128,
    verdict: (bool, u64),
) -> (refilled: u64)
    requires
        before.acquires::<A>(after, key, now, verdict),
        before.table.contains_key(key),
        before.table[key].at > now,
    ensures
        call_ensures(
            A::refilled,
            (before.table[key].level, before.capacity, before.rate, 0u128),
            refilled,
        ),
        verdict.0 == (0x3ff0_0000_0000_0000 <= refilled <= 0x7ff0_0000_0000_0000),
{
    let met = before.table[key];
    let state = after.table[key];
    let refilled = choose|refilled: KeyView|
        #![trigger token_spent::<A>(refilled, state, verdict)]
        bucket_refilled::<A>(met, before.capacity, before.rate, now, refilled) && token_spent::<A>(
            refilled,
            state,
            verdict,
        );
    assert(token_spent::<A>(refilled, state, verdict));
    assert(elapsed_nanos(met.at, now) == 0);
    refilled.level
}

} // verus!
