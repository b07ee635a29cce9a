//! Calls: what is handed to a function is what comes back from it, or what it is kept for.
//!
//! These laws speak of what calls return, one after the other.

use super::redis::{
    law_server_keys_hold_the_clients_key, law_sweep_removes_exactly_the_counters,
    law_window_number_counts_whole_windows,
};
use super::requests::law_hops_are_counted_from_the_right;
use super::texts::{
    comma_joined, law_decimal_stands_for_its_number, law_pieces_between_commas_are_listed,
    number_of, pad,
};
use crate::algorithms::{Algorithm, FixedWindow, SlidingWindowLog, TokenBucket};
use crate::config::{RateLimitConfig, RateLimiterBuilder, StorePlan};
use crate::error::{RateLimitError, RateLimitHeaders, RateLimitResult};
use crate::extractor::{KeyExtractor, RequestInfo};
use crate::limiter::{RateLimitCheckResult, RateLimiter};
use crate::middleware::{RateLimitMiddleware, UnkeyedRequestPolicy};
use crate::request::forwarded_hop;
use crate::stores::redis::{
    operation_outcome, remaining_in_log, remaining_in_window, verdict_of_reply, FixedRequest,
    RemainingStep, SlidingRequest, SweepStep,
};
use crate::stores::redis_laws::lemma_counters_among;
use crate::stores::{MemoryStore, RateLimitStore, RedisStore};
use crate::text::{decimal_text, split_commas, texts};
use crate::time::duration_nanos;
use crate::tokens::{whole_part, RefillRate, TokenArithmetic};
use std::time::Duration;
use vstd::prelude::*;

verus! {

/// A new limiter has the limit and the window that it was made with and knows no key. It retains as
/// many keys as it is told to, and one at least.
pub proof fn law_window_limiters_keep_what_they_are_made_with(
    limit: u64,
    window: Duration,
    max_keys: usize,
    fixed: FixedWindow,
    capped_fixed: FixedWindow,
    sliding: SlidingWindowLog,
    capped_sliding: SlidingWindowLog,
)
    requires
        call_ensures(FixedWindow::new, (limit, window), fixed),
        call_ensures(FixedWindow::with_max_keys, (fixed, max_keys), capped_fixed),
        call_ensures(SlidingWindowLog::new, (limit, window), sliding),
        call_ensures(SlidingWindowLog::with_max_keys, (sliding, max_keys), capped_sliding),
    ensures
        fixed@.max_keys == 100_000 && sliding@.max_keys == 100_000,
        capped_fixed@.limit == limit && capped_sliding@.limit == limit,
        capped_fixed@.window == duration_nanos(window),
        capped_sliding@.window == duration_nanos(window),
        max_keys >= 1 ==> capped_fixed@.max_keys == max_keys,
        max_keys >= 1 ==> capped_sliding@.max_keys == max_keys,
        max_keys == 0 ==> capped_fixed@.max_keys == 1 && capped_sliding@.max_keys == 1,
        capped_fixed@.table.len() == 0 && capped_sliding@.table.len() == 0,
        forall|key: Seq<char>| !#[trigger] capped_fixed@.table.contains_key(key),
        forall|key: Seq<char>| !#[trigger] capped_sliding@.table.contains_key(key),
{
}

/// A new token bucket limiter has the capacity and the rate that it was made with and knows no key.
/// It retains as many keys as it is told to, and one at least.
pub proof fn law_bucket_limiters_keep_what_they_are_made_with<A: TokenArithmetic>(
    capacity: u64,
    rate: RefillRate,
    max_keys: usize,
    limiter: TokenBucket<A>,
    capped: TokenBucket<A>,
)
    requires
        call_ensures(TokenBucket::<A>::new, (capacity, rate), limiter),
        call_ensures(TokenBucket::<A>::with_max_keys, (limiter, max_keys), capped),
    ensures
        limiter@.max_keys == 100_000,
        capped@.capacity == capacity,
        capped@.rate == rate,
        max_keys >= 1 ==> capped@.max_keys == max_keys,
        max_keys == 0 ==> capped@.max_keys == 1,
        forall|key: Seq<char>| !#[trigger] capped@.table.contains_key(key),
{
}

/// A store in memory forgets idle keys after the time that it is told, and retains as many keys as
/// it is told.
pub proof fn law_stores_keep_what_they_are_told<A: TokenArithmetic>(
    store: MemoryStore<A>,
    idle_ttl: Duration,
    max_keys: usize,
    patient: MemoryStore<A>,
    capped: MemoryStore<A>,
    uncapped: MemoryStore<A>,
)
    requires
        call_ensures(MemoryStore::<A>::with_idle_ttl, (store, idle_ttl), patient),
        call_ensures(MemoryStore::<A>::with_max_keys, (patient, max_keys), capped),
        call_ensures(MemoryStore::<A>::without_max_keys, (capped,), uncapped),
    ensures
        patient@.idle_ttl == duration_nanos(idle_ttl),
        patient@.max_keys == store@.max_keys,
        capped@.idle_ttl == duration_nanos(idle_ttl),
        capped@.max_keys == Some(max_keys),
        uncapped@.max_keys is None,
        uncapped@.idle_ttl == duration_nanos(idle_ttl),
        uncapped@.buckets == store@.buckets,
        uncapped@.logs == store@.logs,
        uncapped@.windows == store@.windows,
{
}

/// A limiter that is built has the algorithm and the settings that were set, one after the other,
/// and its store is empty.
pub proof fn law_limiters_are_built_as_set<A: TokenArithmetic>(
    algorithm: Algorithm,
    exempt: &str,
    message: &str,
    depth: usize,
    headers: bool,
    skip: bool,
    steps: Seq<RateLimiterBuilder>,
    outcome: RateLimitResult<RateLimiter<MemoryStore<A>, A>>,
)
    requires
        steps.len() == 7,
        call_ensures(RateLimiterBuilder::new, (), steps[0]),
        call_ensures(RateLimiterBuilder::algorithm, (steps[0], algorithm), steps[1]),
        call_ensures(RateLimiterBuilder::bypass_key, (steps[1], exempt), steps[2]),
        call_ensures(RateLimiterBuilder::error_message, (steps[2], message), steps[3]),
        call_ensures(RateLimiterBuilder::trusted_proxy_depth, (steps[3], depth), steps[4]),
        call_ensures(RateLimiterBuilder::include_headers, (steps[4], headers), steps[5]),
        call_ensures(RateLimiterBuilder::skip_on_error, (steps[5], skip), steps[6]),
        call_ensures(RateLimiterBuilder::build::<A>, (steps[6],), outcome),
    ensures
        outcome is Ok == match algorithm {
            Algorithm::TokenBucket { capacity, refill_rate } => capacity > 0 && 0 < refill_rate.bits
                < 0x7ff0_0000_0000_0000,
            Algorithm::SlidingWindowLog { max_requests, window } => max_requests > 0
                && duration_nanos(window) > 0,
            Algorithm::FixedWindow { max_requests, window } => max_requests > 0 && duration_nanos(
                window,
            ) > 0,
        },
        outcome is Ok ==> {
            let limiter = outcome->Ok_0;
            &&& limiter.rule() == algorithm
            &&& limiter.settings().algorithm == algorithm
            &&& limiter.settings().bypass_keys == seq![exempt@]
            &&& limiter.settings().error_message == Some(message@)
            &&& limiter.settings().trusted_proxy_depth == depth
            &&& limiter.settings().include_headers == headers
            &&& limiter.settings().skip_on_error == skip
            &&& limiter.settings().key_prefix == "ratelimit"@
            &&& limiter.settings().operation_timeout == 3_000_000_000
            &&& forall|key: Seq<char>|
                !#[trigger] limiter.kept()@.buckets.contains_key(key)
                    && !limiter.kept()@.logs.contains_key(key)
                    && !limiter.kept()@.windows.contains_key(key)
        },
{
    if outcome is Ok {
        assert(outcome->Ok_0.settings().bypass_keys =~= seq![exempt@]);
    }
}

/// The three ways to name an algorithm set it with the very parameters.
pub proof fn law_algorithms_are_set_as_named(
    builder: RateLimiterBuilder,
    limit: u64,
    rate: RefillRate,
    window: Duration,
    bucket: RateLimiterBuilder,
    sliding: RateLimiterBuilder,
    fixed: RateLimiterBuilder,
)
    requires
        call_ensures(RateLimiterBuilder::token_bucket, (builder, limit, rate), bucket),
        call_ensures(RateLimiterBuilder::sliding_window, (builder, limit, window), sliding),
        call_ensures(RateLimiterBuilder::fixed_window, (builder, limit, window), fixed),
    ensures
        bucket@.algorithm == Some(Algorithm::TokenBucket { capacity: limit, refill_rate: rate }),
        sliding@.algorithm == Some(Algorithm::SlidingWindowLog { max_requests: limit, window }),
        fixed@.algorithm == Some(Algorithm::FixedWindow { max_requests: limit, window }),
        fixed@.bypass_keys == builder@.bypass_keys,
{
}

/// A key is exempt exactly where it is in the list of a configuration, letter by letter.
pub proof fn law_exempt_keys_are_those_listed(
    config: &RateLimitConfig,
    key: &str,
    exempt: bool,
)
    requires
        call_ensures(RateLimitConfig::should_bypass, (config, key), exempt),
    ensures
        exempt == exists|i: int|
            0 <= i < config.bypass_keys@.len() && (#[trigger] config.bypass_keys@[i])@ == key@,
{
    let listed = texts(config.bypass_keys@);
    if exempt {
        let i = choose|i: int| 0 <= i < listed.len() && listed[i] == key@;
        assert(config.bypass_keys@[i]@ == key@);
    }
    if exists|i: int|
        0 <= i < config.bypass_keys@.len() && (#[trigger] config.bypass_keys@[i])@ == key@ {
        let i = choose|i: int|
            0 <= i < config.bypass_keys@.len() && (#[trigger] config.bypass_keys@[i])@ == key@;
        assert(listed[i] == key@);
    }
}

/// A limiter has the store, the algorithm and the configuration that it was made with.
pub proof fn law_limiters_keep_their_store<S: RateLimitStore, A: TokenArithmetic>(
    store: S,
    algorithm: Algorithm,
    config: RateLimitConfig,
    limiter: RateLimiter<S, A>,
)
    requires
        call_ensures(RateLimiter::<S, A>::new, (store, algorithm, config), limiter),
    ensures
        limiter.kept() == store,
        limiter.rule() == algorithm,
        limiter.settings().bypass_keys == texts(config.bypass_keys@),
        limiter.settings().trusted_proxy_depth == config.trusted_proxy_depth,
        limiter.settings().include_headers == config.include_headers,
        limiter.settings().skip_on_error == config.skip_on_error,
{
}

/// A request carries what was said of it, each thing in full.
pub proof fn law_requests_carry_what_is_said(
    path: &str,
    method: &str,
    ip: &str,
    user: &str,
    name: &str,
    value: &str,
    steps: Seq<RequestInfo>,
)
    requires
        steps.len() == 4,
        call_ensures(RequestInfo::new, (path, method), steps[0]),
        call_ensures(RequestInfo::with_ip, (steps[0], ip), steps[1]),
        call_ensures(RequestInfo::with_user_id, (steps[1], user), steps[2]),
        call_ensures(RequestInfo::with_header, (steps[2], name, value), steps[3]),
    ensures
        steps[3]@.path == path@,
        steps[3]@.method == method@,
        steps[3]@.ip == Some(ip@),
        steps[3]@.user_id == Some(user@),
        steps[3]@.api_key is None,
        steps[3]@.headers == seq![(name@, value@)],
{
    assert(steps[3]@.headers =~= seq![(name@, value@)]);
}

/// The key that is derived from the address and the path is the address, a colon and the path; that
/// from the address alone is the address.
pub proof fn law_keys_are_derived_in_full(
    info: &RequestInfo,
    extractor: &KeyExtractor,
    key: Option<String>,
)
    requires
        call_ensures(KeyExtractor::extract, (extractor, info), key),
        info.ip is Some,
    ensures
        *extractor is Ip ==> key is Some && key->0@ == info.ip->0@,
        *extractor is IpAndPath ==> key is Some && key->0@ == info.ip->0@.push(':') + info.path@,
        *extractor is UserId && info.user_id is Some ==> key is Some && key->0@
            == info.user_id->0@,
        *extractor is UserIdAndPath && info.user_id is Some ==> key is Some && key->0@
            == info.user_id->0@.push(':') + info.path@,
{
}

/// The pieces between commas come back in order and in full.
pub proof fn law_split_gives_the_pieces(
    text: &str,
    parts: Seq<Seq<char>>,
    lefts: Seq<Seq<char>>,
    pieces: Seq<Seq<char>>,
    rights: Seq<Seq<char>>,
    depth: usize,
    split: Vec<String>,
    hop: Option<String>,
)
    requires
        pad(parts, lefts, pieces, rights),
        text@ == comma_joined(parts),
        call_ensures(split_commas, (text,), split),
        call_ensures(forwarded_hop, (text, depth), hop),
    ensures
        split@.len() == pieces.len(),
        forall|i: int| 0 <= i < pieces.len() ==> (#[trigger] split@[i])@ == pieces[i],
        1 <= depth <= pieces.len() ==> hop is Some && hop->0@ == pieces[pieces.len() - depth],
        depth == 0 || depth > pieces.len() ==> hop is None,
{
    law_pieces_between_commas_are_listed(parts, lefts, pieces, rights);
    law_hops_are_counted_from_the_right(parts, lefts, pieces, rights, depth as nat);
    assert(texts(split@).len() == split@.len());
    assert forall|i: int| 0 <= i < pieces.len() implies (#[trigger] split@[i])@ == pieces[i] by {
        assert(texts(split@)[i] == split@[i]@);
    }
}

/// A number in decimal stands for that number.
pub proof fn law_decimal_text_stands_for_its_number(n: u64, text: String)
    requires
        call_ensures(decimal_text, (n,), text),
    ensures
        number_of(text@) == n,
{
    law_decimal_stands_for_its_number(n as nat);
}

/// Headers and results hold the numbers that they are made of.
pub proof fn law_results_hold_their_numbers(
    limit: u64,
    remaining: u64,
    reset: u64,
    wait: u64,
    span: Duration,
    allowed: RateLimitHeaders,
    denied: RateLimitHeaders,
    result: RateLimitCheckResult,
    denial: RateLimitCheckResult,
)
    requires
        call_ensures(RateLimitHeaders::allowed, (limit, remaining, reset), allowed),
        call_ensures(RateLimitHeaders::denied, (limit, reset, wait), denied),
        call_ensures(RateLimitCheckResult::allowed, (remaining, limit, reset), result),
        call_ensures(RateLimitCheckResult::denied, (limit, reset, span), denial),
    ensures
        allowed.limit == limit && allowed.remaining == remaining && allowed.reset == reset,
        allowed.retry_after is None,
        denied.limit == limit && denied.remaining == 0 && denied.reset == reset,
        denied.retry_after == Some(wait),
        result.allowed && result.remaining == remaining && result.limit == limit,
        result.reset_at == reset && result.retry_after is None,
        !denial.allowed && denial.remaining == 0 && denial.limit == limit,
        denial.reset_at == reset && denial.retry_after == Some(span),
{
}

/// The headers of an error about an exceeded limit tell its numbers, and the whole seconds to wait.
pub proof fn law_error_headers_tell_the_limit(
    limit: u64,
    reset: u64,
    span: Duration,
    error: RateLimitError,
    headers: Option<RateLimitHeaders>,
    wait: Option<Duration>,
)
    requires
        call_ensures(RateLimitError::limit_exceeded, (limit, reset, span), error),
        call_ensures(RateLimitError::headers, (&error,), headers),
        call_ensures(RateLimitError::retry_after, (&error,), wait),
        duration_nanos(span) <= 18446744073709551615 * 1_000_000_000,
    ensures
        wait == Some(span),
        headers is Some,
        headers->0.limit == limit && headers->0.remaining == 0 && headers->0.reset == reset,
        headers->0.retry_after is Some,
        headers->0.retry_after->0 * 1_000_000_000 <= duration_nanos(span) < (
        headers->0.retry_after->0 + 1) * 1_000_000_000,
{
}

/// A Redis store has the server, the prefix and the timeout that it was made with.
pub proof fn law_redis_stores_keep_what_they_are_told(
    url: &str,
    prefix: &str,
    timeout: Duration,
    plain: RedisStore,
    prefixed: RedisStore,
    patient: RedisStore,
)
    requires
        call_ensures(RedisStore::new, (url,), plain),
        call_ensures(RedisStore::with_prefix, (url, prefix), prefixed),
        call_ensures(RedisStore::with_operation_timeout, (prefixed, timeout), patient),
    ensures
        plain@.url == url@ && plain@.prefix == "ratelimit"@,
        plain@.operation_timeout == 3_000_000_000,
        patient@.url == url@ && patient@.prefix == prefix@,
        patient@.operation_timeout == duration_nanos(timeout),
{
}

/// What the server is told of a request against a sliding window are the key's own entries, the
/// limit, the time in whole milliseconds, and a window before that. This is of times and windows
/// whose milliseconds fit in 63 bits.
pub proof fn law_server_is_told_the_sliding_window(
    store: &RedisStore,
    key: &str,
    max_requests: u64,
    window: Duration,
    now: Duration,
    request: SlidingRequest,
)
    requires
        call_ensures(RedisStore::sliding_request, (store, key, max_requests, window, now), request),
        duration_nanos(now) / 1_000_000 <= i64::MAX,
        duration_nanos(window) / 1_000_000 <= i64::MAX,
    ensures
        request.max_requests == max_requests,
        request.now * 1_000_000 <= duration_nanos(now) < (request.now + 1) * 1_000_000,
        (request.now - request.cutoff) * 1_000_000 <= duration_nanos(window) < (request.now
            - request.cutoff + 1) * 1_000_000,
        request.window_secs * 1_000_000_000 <= duration_nanos(window) < (request.window_secs + 1)
            * 1_000_000_000,
        request.key@ == store@.prefix.push(':') + ("sw:"@ + key@),
        request.limit_key@ == store@.prefix.push(':') + ("swmax:"@ + key@),
        request.sequence_key@ == store@.prefix.push(':') + ("swseq:"@ + key@),
{
}

/// What the server is told of a request against a fixed window are the counter of the key's window,
/// numbered by how many whole windows have passed since the Unix epoch, the limit, and how long to
/// keep the counter. This is of times and windows whose milliseconds fit in 64 bits.
pub proof fn law_server_is_told_the_fixed_window(
    store: &RedisStore,
    key: &str,
    max_requests: u64,
    window: Duration,
    now: Duration,
    request: FixedRequest,
) -> (number: Seq<char>)
    requires
        call_ensures(RedisStore::fixed_request, (store, key, max_requests, window, now), request),
        duration_nanos(now) / 1_000_000 <= u64::MAX,
        1 <= duration_nanos(window) / 1_000_000 <= u64::MAX,
    ensures
        request.max_requests == max_requests,
        request.window_id * (duration_nanos(window) / 1_000_000) <= duration_nanos(now) / 1_000_000
            < (request.window_id + 1) * (duration_nanos(window) / 1_000_000),
        request.key@ == (store@.prefix.push(':') + "fw:"@ + key@).push(':') + number,
        number_of(number) == request.window_id,
        request.limit_key@ == store@.prefix.push(':') + ("fwmax:"@ + key@),
        request.current_key@ == store@.prefix.push(':') + ("fwcur:"@ + key@),
        duration_nanos(window) / 1_000_000 + 10_000 <= request.ttl_secs * 1000 < duration_nanos(
            window,
        ) / 1_000_000 + 11_000,
{
    law_window_number_counts_whole_windows(now, window);
    law_server_keys_hold_the_clients_key(
        store@,
        Seq::empty(),
        key@,
        request.window_id as nat,
    )
}

/// What is read off the server's replies: a request is allowed where it replies one; what remains
/// is the limit less what was counted, and never below zero.
pub proof fn law_server_replies_are_read(
    reply: (i32, i64),
    verdict: (bool, u64),
    limit: u64,
    counted: Option<u64>,
    in_window: u64,
    logged: i64,
    in_log: u64,
)
    requires
        call_ensures(verdict_of_reply, (reply,), verdict),
        call_ensures(remaining_in_window, (limit, counted), in_window),
        call_ensures(remaining_in_log, (limit, logged), in_log),
        reply.1 >= 0,
        logged >= 0,
    ensures
        verdict.0 == (reply.0 == 1),
        verdict.1 == reply.1,
        counted is None ==> in_window == limit,
        counted is Some && counted->0 <= limit ==> in_window + counted->0 == limit,
        counted is Some && counted->0 > limit ==> in_window == 0,
        logged <= limit ==> in_log + logged == limit,
        logged > limit ==> in_log == 0,
{
}

/// An operation comes to what the server replied; to the failure that it told, with its reason; or
/// to a timeout where nothing arrived.
pub proof fn law_operations_come_to_the_reply(
    reply: Option<Result<u64, String>>,
    outcome: RateLimitResult<u64>,
)
    requires
        call_ensures(operation_outcome::<u64>, (reply,), outcome),
    ensures
        reply is None ==> outcome is Err && outcome->Err_0 is Timeout,
        reply is Some && reply->0 is Ok ==> outcome is Ok && outcome->Ok_0 == reply->0->Ok_0,
        reply is Some && reply->0 is Err ==> outcome is Err && (
        outcome->Err_0 matches RateLimitError::StoreError(told) && told@ == reply->0->Err_0@),
{
}

/// A fixed window limiter tells what remains at a time by when the key's window started: all of the
/// limit once that is a window ago, or where the key never asked; and the time until then leads to
/// the end of the window.
pub proof fn law_fixed_window_tells_by_the_start(
    limiter: &FixedWindow,
    key: &str,
    now: u128,
    left: u64,
    span: Duration,
)
    requires
        call_ensures(FixedWindow::remaining_at, (limiter, key, now), left),
        call_ensures(FixedWindow::time_until_reset_at, (limiter, key, now), span),
        limiter@.window > 0,
    ensures
        !limiter@.table.contains_key(key@) ==> left == limiter@.limit && duration_nanos(span)
            == limiter@.window,
        limiter@.table.contains_key(key@) && now - limiter@.table[key@].at >= limiter@.window
            ==> left == limiter@.limit && duration_nanos(span) == limiter@.window,
        limiter@.table.contains_key(key@) && 0 <= now - limiter@.table[key@].at < limiter@.window
            ==> now + duration_nanos(span) == limiter@.table[key@].at + limiter@.window,
        limiter@.table.contains_key(key@) && now - limiter@.table[key@].at < limiter@.window
            && limiter@.table[key@].level <= limiter@.limit ==> left + limiter@.table[key@].level
            == limiter@.limit,
{
}

/// A store in memory tells what remains of a fixed window in the same way, by the limit and the
/// length that the key last asked with.
pub proof fn law_store_tells_by_the_start<A: TokenArithmetic>(
    store: &MemoryStore<A>,
    key: &str,
    now: u128,
    left: u64,
)
    requires
        call_ensures(MemoryStore::<A>::remaining_at, (store, key, now), left),
        !store@.buckets.contains_key(key@),
        store@.windows.contains_key(key@),
        store@.windows[key@].window > 0,
    ensures
        now - store@.windows[key@].at >= store@.windows[key@].window ==> left
            == store@.windows[key@].limit,
        now - store@.windows[key@].at < store@.windows[key@].window && store@.windows[key@].level
            <= store@.windows[key@].limit ==> left + store@.windows[key@].level
            == store@.windows[key@].limit,
{
}

/// A middleware is made for a limiter, and does what it is told after that, each thing as told.
pub proof fn law_middlewares_do_as_they_are_told<S: RateLimitStore, A: TokenArithmetic>(
    limiter: RateLimiter<S, A>,
    depth: usize,
    extractor: KeyExtractor,
    headers: bool,
    message: &str,
    unkeyed: UnkeyedRequestPolicy,
    steps: Seq<RateLimitMiddleware<S, A>>,
)
    requires
        steps.len() == 6,
        call_ensures(RateLimitMiddleware::<S, A>::new, (limiter,), steps[0]),
        call_ensures(
            RateLimitMiddleware::<S, A>::with_trusted_proxy_depth,
            (steps[0], depth),
            steps[1],
        ),
        call_ensures(
            RateLimitMiddleware::<S, A>::with_extractor,
            (steps[1], extractor),
            steps[2],
        ),
        call_ensures(RateLimitMiddleware::<S, A>::with_headers, (steps[2], headers), steps[3]),
        call_ensures(
            RateLimitMiddleware::<S, A>::with_error_message,
            (steps[3], message),
            steps[4],
        ),
        call_ensures(
            RateLimitMiddleware::<S, A>::with_unkeyed_policy,
            (steps[4], unkeyed),
            steps[5],
        ),
    ensures
        steps[5].guard() == limiter,
        steps[5].policy().trusted_proxy_depth == depth,
        steps[5].policy().extractor == extractor,
        steps[5].policy().include_headers == headers,
        steps[5].policy().error_message == message@,
        steps[5].policy().unkeyed_policy == unkeyed,
        steps[5].policy().bypass_keys == limiter.settings().bypass_keys,
        steps[5].policy().skip_on_error == limiter.settings().skip_on_error,
{
}

/// Keys that are added to the exempt ones of a middleware are exempt, and those that were stay so.
pub proof fn law_exempt_keys_are_added<S: RateLimitStore, A: TokenArithmetic>(
    middleware: RateLimitMiddleware<S, A>,
    keys: &[&str],
    after: RateLimitMiddleware<S, A>,
    i: int,
)
    requires
        call_ensures(RateLimitMiddleware::<S, A>::with_bypass_keys, (middleware, keys), after),
    ensures
        after.guard() == middleware.guard(),
        after.policy().bypass_keys.len() == middleware.policy().bypass_keys.len() + keys@.len(),
        0 <= i < middleware.policy().bypass_keys.len() ==> after.policy().bypass_keys[i]
            == middleware.policy().bypass_keys[i],
        0 <= i < keys@.len() ==> after.policy().bypass_keys[middleware.policy().bypass_keys.len()
            + i] == keys@[i]@,
{
}

/// A builder that is told of a Redis store plans for that server, prefix and timeout.
pub proof fn law_redis_stores_are_planned_as_told(
    builder: RateLimiterBuilder,
    url: &str,
    prefix: &str,
    timeout: Duration,
    steps: Seq<RateLimiterBuilder>,
    outcome: RateLimitResult<(RateLimitConfig, StorePlan)>,
)
    requires
        steps.len() == 3,
        call_ensures(RateLimiterBuilder::redis_store, (builder, url), steps[0]),
        call_ensures(RateLimiterBuilder::key_prefix, (steps[0], prefix), steps[1]),
        call_ensures(RateLimiterBuilder::operation_timeout, (steps[1], timeout), steps[2]),
        call_ensures(RateLimiterBuilder::plan, (steps[2],), outcome),
        outcome is Ok,
    ensures
        outcome->Ok_0.1 matches StorePlan::Redis(store) && store@.url == url@ && store@.prefix
            == prefix@ && store@.operation_timeout == duration_nanos(timeout),
        outcome->Ok_0.0.key_prefix@ == prefix@,
        duration_nanos(outcome->Ok_0.0.operation_timeout) == duration_nanos(timeout),
        steps[2]@.algorithm == builder@.algorithm,
{
}

/// Whether a key on the server is a counter of a client's key is told by its text: what the
/// counters start with, and then digits.
pub proof fn law_counters_are_told_by_their_text(
    store: &RedisStore,
    key: &str,
    full: &str,
    own: bool,
)
    requires
        call_ensures(RedisStore::is_counter_of, (store, key, full), own),
    ensures
        ({
            let head = (store@.prefix.push(':') + "fw:"@ + key@).push(':');
            own == (full@.len() > head.len() && full@.take(head.len() as int) == head && forall|
                i: int,
            |
                head.len() <= i < full@.len() ==> 48 <= (#[trigger] full@[i]) as u32 <= 57)
        }),
{
    law_sweep_removes_exactly_the_counters(store@, key@, seq![full@], full@);
    lemma_counters_among(store@, key@, seq![full@], full@);
    assert(seq![full@].contains(full@)) by {
        assert(seq![full@][0] == full@);
    }
}

/// What to read next in order to know what remains: the token level is the answer where there is
/// one; else the counter of the current fixed window where both it and its limit are known; else
/// the log where its limit is known; else nothing remains.
pub proof fn law_remaining_is_read_step_by_step(
    store: &RedisStore,
    key: &str,
    level: u64,
    current: Option<u64>,
    limit: Option<u64>,
    log_limit: Option<u64>,
    first: RemainingStep,
    then: RemainingStep,
)
    requires
        call_ensures(RedisStore::remaining_after_tokens, (store, key, Some(level)), first),
        call_ensures(
            RedisStore::remaining_after_pointers,
            (store, key, current, limit, log_limit),
            then,
        ),
    ensures
        first == RemainingStep::Known(whole_part(level)),
        current is Some && limit is Some ==> (then matches RemainingStep::WindowCount {
            limit: most,
            ..
        } && most == limit->0),
        !(current is Some && limit is Some) && log_limit is Some ==> (
        then matches RemainingStep::LogCount { key: log, limit: most } && most == log_limit->0
            && log@ == store@.prefix.push(':') + ("sw:"@ + key@)),
        !(current is Some && limit is Some) && log_limit is None ==> then == RemainingStep::Known(
            0,
        ),
{
}

/// A sweep goes on where the server says, and is complete where it says zero.
pub proof fn law_sweeps_go_on_until_zero(
    store: &RedisStore,
    key: &str,
    cursor: u64,
    found: &Vec<String>,
    step: SweepStep,
)
    requires
        call_ensures(RedisStore::sweep_step, (store, key, cursor, found), step),
    ensures
        step.next is None == (cursor == 0),
        cursor != 0 ==> step.next == Some(cursor),
        texts(step.remove@) == store@.counters_among(key@, texts(found@)),
{
}

/// The bucket of a key on the server, and the keys that a reset removes, are named after the key.
pub proof fn law_server_keys_are_named_after_the_key(
    store: &RedisStore,
    key: &str,
    bucket: String,
    removed: Vec<String>,
)
    requires
        call_ensures(RedisStore::bucket_key, (store, key), bucket),
        call_ensures(RedisStore::reset_keys, (store, key), removed),
    ensures
        bucket@ == store@.prefix.push(':') + ("tb:"@ + key@),
        removed@.len() == 6,
        removed@[0]@ == bucket@,
        removed@[1]@ == store@.prefix.push(':') + ("sw:"@ + key@),
        removed@[2]@ == store@.prefix.push(':') + ("swmax:"@ + key@),
        removed@[3]@ == store@.prefix.push(':') + ("swseq:"@ + key@),
        removed@[4]@ == store@.prefix.push(':') + ("fwmax:"@ + key@),
        removed@[5]@ == store@.prefix.push(':') + ("fwcur:"@ + key@),
{
    let listed = texts(removed@);
    assert(listed.len() == removed@.len());
    assert(listed[0] == removed@[0]@ && listed[1] == removed@[1]@);
    assert(listed[2] == removed@[2]@ && listed[3] == removed@[3]@);
    assert(listed[4] == removed@[4]@ && listed[5] == removed@[5]@);
}

} // verus!
