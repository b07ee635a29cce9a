//! Settings: which parameters are accepted, and what a limiter is built with.

use crate::algorithms::Algorithm;
use crate::config::{default_builder, default_config, fault, BuilderView};
use crate::stores::memory::fresh_store;
use crate::stores::StoreType;
use crate::text::decimal;
use crate::time::{duration_nanos, duration_text};
use crate::tokens::TokenArithmetic;
use std::time::Instant;
use vstd::prelude::*;

verus! {

/// The parameters of an algorithm are accepted exactly where nothing in them is zero and the rate
/// is a finite number above zero.
pub proof fn law_usable_parameters_are_accepted(algorithm: Algorithm)
    ensures
        algorithm matches Algorithm::TokenBucket { capacity, refill_rate } ==> fault(
            algorithm,
        ) is None == (capacity > 0 && 0 < refill_rate.bits < 0x7ff0_0000_0000_0000),
        algorithm matches Algorithm::SlidingWindowLog { max_requests, window } ==> fault(
            algorithm,
        ) is None == (max_requests > 0 && duration_nanos(window) > 0),
        algorithm matches Algorithm::FixedWindow { max_requests, window } ==> fault(
            algorithm,
        ) is None == (max_requests > 0 && duration_nanos(window) > 0),
{
}

/// What is wrong with parameters is told: the first thing that is, in the order in which they are
/// given.
pub proof fn law_faults_name_the_parameter(algorithm: Algorithm)
    ensures
        algorithm matches Algorithm::TokenBucket { capacity, .. } && capacity == 0 ==> fault(
            algorithm,
        ) == Some("TokenBucket capacity must be > 0"@),
        algorithm matches Algorithm::TokenBucket { capacity, refill_rate } && capacity > 0 && !(0
            < refill_rate.bits < 0x7ff0_0000_0000_0000) ==> fault(algorithm) == Some(
            "TokenBucket refill_rate must be finite and > 0"@,
        ),
        algorithm matches Algorithm::SlidingWindowLog { max_requests, .. } && max_requests == 0
            ==> fault(algorithm) == Some("max_requests must be > 0"@),
        algorithm matches Algorithm::FixedWindow { max_requests, .. } && max_requests == 0
            ==> fault(algorithm) == Some("max_requests must be > 0"@),
        algorithm matches Algorithm::SlidingWindowLog { max_requests, window } && max_requests > 0
            && duration_nanos(window) == 0 ==> fault(algorithm) == Some("window must be > 0"@),
        algorithm matches Algorithm::FixedWindow { max_requests, window } && max_requests > 0
            && duration_nanos(window) == 0 ==> fault(algorithm) == Some("window must be > 0"@),
{
}

/// Something can be built exactly where an algorithm with usable parameters is set, and the place
/// of the server for a Redis store.
pub proof fn law_complete_builders_are_accepted(builder: BuilderView)
    ensures
        builder.fault() is None == (builder.algorithm is Some && fault(
            builder.algorithm->0,
        ) is None && (builder.store_type == StoreType::Memory || builder.redis_url is Some)),
        builder.algorithm is None ==> builder.fault() == Some("Algorithm must be specified"@),
        builder.algorithm is Some && fault(builder.algorithm->0) is Some ==> builder.fault()
            == fault(builder.algorithm->0),
{
}

/// What was set on a builder is in the configuration, as it was set.
pub proof fn law_configuration_is_what_was_set(builder: BuilderView, algorithm: Algorithm)
    ensures
        ({
            let config = builder.config(algorithm);
            &&& config.algorithm == algorithm
            &&& config.store_type == builder.store_type
            &&& config.key_prefix == builder.key_prefix
            &&& config.include_headers == builder.include_headers
            &&& config.skip_on_error == builder.skip_on_error
            &&& config.error_message == builder.error_message
            &&& config.bypass_keys == builder.bypass_keys
            &&& config.operation_timeout == builder.operation_timeout
            &&& config.trusted_proxy_depth == builder.trusted_proxy_depth
        }),
{
}

/// A builder on which only the algorithm was set gives the default configuration with that
/// algorithm: a store in memory, headers, failures let through, no exempt keys, three seconds for
/// an operation, and no trusted proxies.
pub proof fn law_builder_starts_from_the_defaults(algorithm: Algorithm)
    ensures
        default_builder().config(algorithm) == default_config(algorithm),
        default_builder().algorithm is None,
        default_builder().redis_url is None,
        default_config(algorithm).store_type == StoreType::Memory,
        default_config(algorithm).key_prefix == "ratelimit"@,
        default_config(algorithm).include_headers,
        default_config(algorithm).skip_on_error,
        default_config(algorithm).error_message is None,
        default_config(algorithm).bypass_keys.len() == 0,
        default_config(algorithm).operation_timeout == 3_000_000_000,
        default_config(algorithm).trusted_proxy_depth == 0,
{
}

/// A new store in memory knows no key, keeps idle keys for five minutes and a hundred thousand keys
/// per algorithm.
pub proof fn law_new_stores_are_empty(origin: Instant, key: Seq<char>)
    ensures
        ({
            let store = fresh_store(origin);
            &&& !store.buckets.contains_key(key)
            &&& !store.logs.contains_key(key)
            &&& !store.windows.contains_key(key)
            &&& store.idle_ttl == 300_000_000_000
            &&& store.max_keys == Some(100_000usize)
            &&& store.origin == origin
        }),
{
}

/// The limit of an algorithm is its capacity or its number of requests.
pub proof fn law_limit_is_the_parameter(algorithm: Algorithm)
    ensures
        algorithm matches Algorithm::TokenBucket { capacity, .. } ==> algorithm.most() == capacity,
        algorithm matches Algorithm::SlidingWindowLog { max_requests, .. } ==> algorithm.most()
            == max_requests,
        algorithm matches Algorithm::FixedWindow { max_requests, .. } ==> algorithm.most()
            == max_requests,
{
}

/// The description of an algorithm names it and tells its parameters.
pub proof fn law_description_tells_the_parameters<A: TokenArithmetic>(
    algorithm: Algorithm,
    text: Seq<char>,
)
    requires
        algorithm.described::<A>(text),
    ensures
        algorithm matches Algorithm::SlidingWindowLog { max_requests, window } ==> text
            == "Sliding window: "@ + decimal(max_requests as nat) + " requests per "@
            + duration_text(duration_nanos(window)),
        algorithm matches Algorithm::FixedWindow { max_requests, window } ==> text
            == "Fixed window: "@ + decimal(max_requests as nat) + " requests per "@ + duration_text(
            duration_nanos(window),
        ),
        algorithm matches Algorithm::TokenBucket { capacity, refill_rate } ==> exists|
            rate: String,
        | #[trigger]
            call_ensures(A::rate_text, (refill_rate,), rate) && text == "Token bucket: "@ + decimal(
                capacity as nat,
            ) + " capacity, "@ + rate@ + " tokens/sec refill"@,
{
}

} // verus!
