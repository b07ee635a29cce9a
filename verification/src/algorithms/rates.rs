//! How many requests a token bucket allows in a span of time.
//!
//! Levels are measured in small equal parts of a token, fine enough that the level of any bucket is
//! a whole number of them. An arithmetic may round: up to so many parts at each refill.

use super::laws::ascending;
use super::token_bucket::{bucket_refilled, bucket_step, token_spent};
use crate::table::KeyView;
use crate::time::elapsed_nanos;
use crate::tokens::{holds_token, whole_part, RefillRate, TokenArithmetic};
use vstd::prelude::*;

verus! {

/// How token levels are measured.
pub struct Measure {
    /// How many parts a level is worth: none where it is negative or no number.
    pub worth: spec_fn(u64) -> nat,
    /// How many parts a token has.
    pub token: nat,
    /// How many parts are added in a nanosecond.
    pub gain: nat,
    /// How many parts more than that rounding can add at a refill.
    pub slack: nat,
}

impl Measure {
    /// The worth of a full bucket.
    pub open spec fn most(self, capacity: u64) -> nat {
        self.token * capacity as nat
    }

    /// Whether an arithmetic keeps to the measure: a refill adds what the time gives, at most up to
    /// the capacity, and one less is less by a token.
    pub open spec fn holds_of<A: TokenArithmetic>(self, capacity: u64, rate: RefillRate) -> bool {
        &&& self.token > 0
        &&& forall|level: u64, elapsed: u128, refilled: u64| #[trigger]
            call_ensures(A::refilled, (level, capacity, rate, elapsed), refilled) ==> {
                &&& (self.worth)(refilled) <= self.most(capacity)
                &&& (self.worth)(refilled) <= (self.worth)(level) + self.gain * elapsed as nat
                    + self.slack
            }
        &&& forall|level: u64, less: u64|
            (self.worth)(level) <= self.most(capacity) && holds_token(level)
                && #[trigger] call_ensures(A::one_less, (level,), less) ==> {
                &&& (self.worth)(less) + self.token <= (self.worth)(level)
                &&& whole_part(less) as nat * self.token <= (self.worth)(less)
            }
    }

    /// What a request takes from a bucket.
    pub open spec fn taken(self, verdict: (bool, u64)) -> nat {
        if verdict.0 {
            self.token
        } else {
            0
        }
    }

    /// How many parts so many requests can have taken from a bucket at most, where the last comes
    /// the given span of nanoseconds after the first.
    pub open spec fn bound(self, capacity: u64, span: int, requests: nat) -> int {
        self.most(capacity) + self.gain * span + self.slack * requests
    }
}

/// How many of some requests are allowed.
pub open spec fn allowed_count(verdicts: Seq<(bool, u64)>) -> nat
    decreases verdicts.len(),
{
    if verdicts.len() == 0 {
        0
    } else {
        allowed_count(verdicts.drop_last()) + if verdicts.last().0 {
            1nat
        } else {
            0
        }
    }
}

/// After an allowed request, fewer tokens remain than the capacity.
pub proof fn law_token_bucket_remaining_is_below_capacity<A: TokenArithmetic>(
    measure: Measure,
    capacity: u64,
    rate: RefillRate,
    now: u128,
    met: KeyView,
    after: KeyView,
    verdict: (bool, u64),
)
    requires
        measure.holds_of::<A>(capacity, rate),
        bucket_step::<A>(met, capacity, rate, now, after, verdict),
        verdict.0,
    ensures
        verdict.1 < capacity,
{
    lemma_rate_step::<A>(measure, capacity, rate, now, met, after, verdict);
    assert(verdict.1 < capacity) by (nonlinear_arith)
        requires
            verdict.1 as nat * measure.token + measure.token <= measure.token * capacity as nat,
            measure.token > 0,
    ;
}

/// However often a key asks for a token, and whenever: of the requests between two times, no more
/// are allowed than the capacity and the tokens that were added from the one time to the other, but
/// for what rounding adds.
pub proof fn law_token_bucket_never_exceeds_rate<A: TokenArithmetic>(
    measure: Measure,
    capacity: u64,
    rate: RefillRate,
    states: Seq<KeyView>,
    times: Seq<u128>,
    verdicts: Seq<(bool, u64)>,
)
    requires
        measure.holds_of::<A>(capacity, rate),
        times.len() > 0,
        ascending(times),
        verdicts.len() == times.len(),
        states.len() == times.len() + 1,
        forall|i: int|
            0 <= i < times.len() ==> bucket_step::<A>(
                states[i],
                capacity,
                rate,
                #[trigger] times[i],
                states[i + 1],
                verdicts[i],
            ),
    ensures
        allowed_count(verdicts) * measure.token <= measure.bound(
            capacity,
            times.last() - times.first(),
            times.len(),
        ),
{
    lemma_rate_run::<A>(measure, capacity, rate, states, times, verdicts);
}

/// The same, with what the bucket still holds.
proof fn lemma_rate_run<A: TokenArithmetic>(
    measure: Measure,
    capacity: u64,
    rate: RefillRate,
    states: Seq<KeyView>,
    times: Seq<u128>,
    verdicts: Seq<(bool, u64)>,
)
    requires
        measure.holds_of::<A>(capacity, rate),
        times.len() > 0,
        ascending(times),
        verdicts.len() == times.len(),
        states.len() == times.len() + 1,
        forall|i: int|
            0 <= i < times.len() ==> bucket_step::<A>(
                states[i],
                capacity,
                rate,
                #[trigger] times[i],
                states[i + 1],
                verdicts[i],
            ),
    ensures
        states.last().at == times.last(),
        allowed_count(verdicts) * measure.token + (measure.worth)(states.last().level)
            <= measure.bound(capacity, times.last() - times.first(), times.len()),
    decreases times.len(),
{
    let n = times.len() as int - 1;
    let met = states[n];
    let after = states.last();
    let verdict = verdicts.last();
    assert(bucket_step::<A>(met, capacity, rate, times[n], states[n + 1], verdicts[n]));
    lemma_rate_step::<A>(measure, capacity, rate, times.last(), met, after, verdict);
    let earlier = allowed_count(verdicts.drop_last());
    if n == 0 {
        assert(earlier == 0);
        lemma_first_bound(measure, capacity, verdict);
    } else {
        let rest = times.drop_last();
        assert forall|i: int| 0 <= i < rest.len() implies bucket_step::<A>(
            states.drop_last()[i],
            capacity,
            rate,
            #[trigger] rest[i],
            states.drop_last()[i + 1],
            verdicts.drop_last()[i],
        ) by {
            assert(rest[i] == times[i]);
        }
        lemma_rate_run::<A>(
            measure,
            capacity,
            rate,
            states.drop_last(),
            rest,
            verdicts.drop_last(),
        );
        assert(states.drop_last().last() == met);
        assert(rest.last() == times[n - 1] && rest.first() == times.first());
        lemma_bound_grows(
            measure,
            capacity,
            rest.last() - times.first(),
            rest.len(),
            earlier,
            verdict,
            (measure.worth)(met.level),
            (measure.worth)(after.level),
            elapsed_nanos(met.at, times.last()) as nat,
        );
    }
}

/// A request takes its token from what the bucket held and what was added since.
pub(crate) proof fn lemma_rate_step<A: TokenArithmetic>(
    measure: Measure,
    capacity: u64,
    rate: RefillRate,
    now: u128,
    met: KeyView,
    after: KeyView,
    verdict: (bool, u64),
)
    requires
        measure.holds_of::<A>(capacity, rate),
        bucket_step::<A>(met, capacity, rate, now, after, verdict),
    ensures
        after.at == now,
        (measure.worth)(after.level) + measure.taken(verdict) <= measure.most(capacity),
        (measure.worth)(after.level) + measure.taken(verdict) <= (measure.worth)(met.level)
            + measure.gain * elapsed_nanos(met.at, now) as nat + measure.slack,
        verdict.0 ==> verdict.1 as nat * measure.token <= (measure.worth)(after.level),
{
    let refilled = choose|refilled: KeyView|
        #![trigger token_spent::<A>(refilled, after, verdict)]
        bucket_refilled::<A>(met, capacity, rate, now, refilled) && token_spent::<A>(
            refilled,
            after,
            verdict,
        );
    assert(token_spent::<A>(refilled, after, verdict));
    assert(call_ensures(
        A::refilled,
        (met.level, capacity, rate, elapsed_nanos(met.at, now)),
        refilled.level,
    ));
}

/// The bound of one request.
pub(crate) proof fn lemma_first_bound(measure: Measure, capacity: u64, verdict: (bool, u64))
    ensures
        (if verdict.0 {
            1nat
        } else {
            0
        }) * measure.token == measure.taken(verdict),
        measure.bound(capacity, 0, 1) == measure.most(capacity) + measure.slack,
{
    assert(measure.gain * 0 == 0 && measure.slack * 1 == measure.slack) by (nonlinear_arith);
    assert(1 * measure.token == measure.token && 0 * measure.token == 0) by (nonlinear_arith);
}

/// The bound grows with each request by what was added for it.
pub(crate) proof fn lemma_bound_grows(
    measure: Measure,
    capacity: u64,
    span: int,
    requests: nat,
    allowed: nat,
    verdict: (bool, u64),
    held: nat,
    left: nat,
    elapsed: nat,
)
    requires
        allowed * measure.token + held <= measure.bound(capacity, span, requests),
        left + measure.taken(verdict) <= held + measure.gain * elapsed + measure.slack,
    ensures
        (allowed + if verdict.0 {
            1nat
        } else {
            0
        }) * measure.token + left <= measure.bound(capacity, span + elapsed, requests + 1),
{
    assert(measure.gain * (span + elapsed) == measure.gain * span + measure.gain * elapsed)
        by (nonlinear_arith);
    assert(measure.slack * (requests + 1) == measure.slack * requests + measure.slack)
        by (nonlinear_arith);
    assert((allowed + 1) * measure.token == allowed * measure.token + measure.token)
        by (nonlinear_arith);
}

} // verus!
