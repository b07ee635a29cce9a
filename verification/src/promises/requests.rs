//! Requests: the address of the client, the key, and what the limiter is asked for.

use super::results::{
    law_limiter_goes_by_fixed_windows, law_limiter_goes_by_sliding_windows,
    law_limiter_goes_by_token_buckets, not_listed,
};
use super::texts::{
    comma_joined, law_colon_keeps_both_sides, law_names_are_compared_letter_by_letter,
    law_pieces_between_commas_are_listed, pad, same_letter,
};
use crate::algorithms::Algorithm;
use crate::config::ConfigView;
use crate::error::RateLimitResult;
use crate::extractor::{first_header, first_key, KeyExtractor, KeyExtractorBuilder, RequestView};
use crate::limiter::{answers, RateLimitCheckResult};
use crate::middleware::{
    gathered, responds, DecisionView, PolicyView, RateLimitMiddleware, ResponseView,
    UnkeyedRequestPolicy,
};
use crate::request::{
    api_key_told, before_query, client_address, header_address, hop_at, reads, AddressFormat,
    HeadView,
};
use crate::stores::{MemoryStore, RateLimitStore};
use crate::text::{trimmed, unicode_lowercase};
use crate::tokens::TokenArithmetic;
use vstd::prelude::*;

verus! {

/// Whether two header names are the same, whatever the case of their ASCII letters.
pub open spec fn same_name(a: Seq<char>, b: Seq<char>) -> bool {
    a.len() == b.len() && forall|i: int| 0 <= i < a.len() ==> same_letter(#[trigger] a[i], b[i])
}

/// The hop at a depth is the piece that stands so far from the right of the header, whatever it
/// holds and however long it is. There is none at depth zero, nor beyond the first piece.
pub proof fn law_hops_are_counted_from_the_right(
    parts: Seq<Seq<char>>,
    lefts: Seq<Seq<char>>,
    pieces: Seq<Seq<char>>,
    rights: Seq<Seq<char>>,
    depth: nat,
)
    requires
        pad(parts, lefts, pieces, rights),
    ensures
        1 <= depth <= pieces.len() ==> hop_at(comma_joined(parts), depth) == Some(
            pieces[pieces.len() - depth],
        ),
        depth == 0 || depth > pieces.len() ==> hop_at(comma_joined(parts), depth) is None,
{
    law_pieces_between_commas_are_listed(parts, lefts, pieces, rights);
}

/// The value of a header is that of the first one with its name.
pub proof fn law_first_header_of_a_name_is_found(
    headers: Seq<(Seq<char>, Seq<char>)>,
    name: Seq<char>,
    i: int,
)
    requires
        0 <= i <= headers.len(),
        i < headers.len() ==> same_name(headers[i].0, name),
        forall|j: int| 0 <= j < i ==> !same_name(#[trigger] headers[j].0, name),
    ensures
        i < headers.len() ==> first_header(headers, name) == Some(headers[i].1),
        i == headers.len() ==> first_header(headers, name) is None,
    decreases headers.len(),
{
    if headers.len() > 0 {
        law_names_are_compared_letter_by_letter(headers[0].0, name);
        if i > 0 {
            assert(!same_name(headers[0].0, name));
            let rest = headers.drop_first();
            assert forall|j: int| 0 <= j < i - 1 implies !same_name(
                #[trigger] rest[j].0,
                name,
            ) by {
                assert(rest[j] == headers[j + 1]);
            }
            law_first_header_of_a_name_is_found(rest, name, i - 1);
        }
    }
}

/// The address of a client behind trusted proxies is read from the hop at their number, and from
/// `X-Real-IP` only where that spells none. What the hop was read as is handed back.
pub proof fn law_address_is_read_from_the_trusted_hop<F: AddressFormat>(
    headers: Seq<(Seq<char>, Seq<char>)>,
    parts: Seq<Seq<char>>,
    lefts: Seq<Seq<char>>,
    pieces: Seq<Seq<char>>,
    rights: Seq<Seq<char>>,
    depth: nat,
    address: Option<Seq<char>>,
) -> (read: Option<Seq<char>>)
    requires
        client_address::<F>(headers, depth, address),
        pad(parts, lefts, pieces, rights),
        first_header(headers, "x-forwarded-for"@) == Some(comma_joined(parts)),
        1 <= depth <= pieces.len(),
    ensures
        reads::<F>(pieces[pieces.len() - depth], read),
        read is Some ==> address == read,
        read is None && first_header(headers, "x-real-ip"@) is None ==> address is None,
        read is None && first_header(headers, "x-real-ip"@) is Some ==> reads::<F>(
            trimmed(first_header(headers, "x-real-ip"@)->0),
            address,
        ),
{
    law_hops_are_counted_from_the_right(parts, lefts, pieces, rights, depth);
    let read = choose|forwarded: Option<Seq<char>>|
        #![trigger header_address::<F>(headers, depth, forwarded)]
        header_address::<F>(headers, depth, forwarded) && if forwarded is Some {
            address == forwarded
        } else {
            match first_header(headers, "x-real-ip"@) {
                Some(told) => reads::<F>(trimmed(told), address),
                None => address is None,
            }
        };
    assert(header_address::<F>(headers, depth, read));
    read
}

/// Where no proxy is trusted, no address is read, whatever headers say.
pub proof fn law_no_address_without_trusted_proxies<F: AddressFormat>(
    headers: Seq<(Seq<char>, Seq<char>)>,
    address: Option<Seq<char>>,
)
    requires
        client_address::<F>(headers, 0, address),
    ensures
        address is None,
{
}

/// Where `X-Forwarded-For` has fewer hops than there are trusted proxies, the address is read from
/// `X-Real-IP`.
pub proof fn law_short_headers_are_passed_over<F: AddressFormat>(
    headers: Seq<(Seq<char>, Seq<char>)>,
    parts: Seq<Seq<char>>,
    lefts: Seq<Seq<char>>,
    pieces: Seq<Seq<char>>,
    rights: Seq<Seq<char>>,
    depth: nat,
    address: Option<Seq<char>>,
)
    requires
        client_address::<F>(headers, depth, address),
        pad(parts, lefts, pieces, rights),
        first_header(headers, "x-forwarded-for"@) == Some(comma_joined(parts)),
        depth > pieces.len(),
    ensures
        first_header(headers, "x-real-ip"@) is None ==> address is None,
        first_header(headers, "x-real-ip"@) is Some ==> reads::<F>(
            trimmed(first_header(headers, "x-real-ip"@)->0),
            address,
        ),
{
    law_hops_are_counted_from_the_right(parts, lefts, pieces, rights, depth);
}

/// Where `X-Forwarded-For` is missing, the address is read from `X-Real-IP`.
pub proof fn law_address_is_read_from_real_ip<F: AddressFormat>(
    headers: Seq<(Seq<char>, Seq<char>)>,
    depth: nat,
    address: Option<Seq<char>>,
)
    requires
        depth > 0,
        client_address::<F>(headers, depth, address),
        first_header(headers, "x-forwarded-for"@) is None,
    ensures
        first_header(headers, "x-real-ip"@) is None ==> address is None,
        first_header(headers, "x-real-ip"@) is Some ==> reads::<F>(
            trimmed(first_header(headers, "x-real-ip"@)->0),
            address,
        ),
{
}

/// The path of a target is what stands before its first question mark, or all of it where it has
/// none.
pub proof fn law_path_ends_at_the_query(target: Seq<char>)
    ensures
        before_query(target).len() <= target.len(),
        before_query(target) == target.take(before_query(target).len() as int),
        !before_query(target).contains('?'),
        before_query(target).len() < target.len() ==> target[before_query(target).len() as int]
            == '?',
    decreases target.len(),
{
    let path = before_query(target);
    if target.len() == 0 || target.first() == '?' {
        assert(path =~= target.take(0));
    } else {
        let rest = target.drop_first();
        law_path_ends_at_the_query(rest);
        let tail = before_query(rest);
        assert(path == seq![target.first()] + tail);
        assert(path =~= target.take(path.len() as int)) by {
            assert forall|i: int| 0 <= i < path.len() implies path[i] == target[i] by {
                if i > 0 {
                    assert(tail[i - 1] == rest.take(tail.len() as int)[i - 1]);
                }
            }
        }
        assert forall|i: int| 0 <= i < path.len() implies path[i] != '?' by {
            if i > 0 {
                assert(tail.contains(tail[i - 1]));
            }
        }
        if path.len() < target.len() {
            assert(rest[tail.len() as int] == target[path.len() as int]);
        }
    }
}

/// What is known of a request is what its head says: the method as it stands, the user and the API
/// key that headers carry, and the header that the extractor reads.
pub proof fn law_head_is_known_as_it_stands<F: AddressFormat>(
    head: HeadView,
    policy: PolicyView,
    info: RequestView,
)
    requires
        gathered::<F>(head, policy, info),
    ensures
        client_address::<F>(head.headers, policy.trusted_proxy_depth as nat, info.ip),
        info.path == before_query(head.target),
        info.method == head.method,
        info.user_id == first_header(head.headers, "x-user-id"@),
        first_header(head.headers, "x-api-key"@) is Some ==> info.api_key == first_header(
            head.headers,
            "x-api-key"@,
        ),
        first_header(head.headers, "x-api-key"@) is None ==> info.api_key == first_header(
            head.headers,
            "authorization"@,
        ),
        policy.extractor matches KeyExtractor::ApiKey { header_name } ==> first_header(
            info.headers,
            header_name@,
        ) == first_header(head.headers, header_name@),
        policy.extractor matches KeyExtractor::Header { name } ==> first_header(info.headers, name@)
            == first_header(head.headers, name@),
{
    reveal_with_fuel(first_header, 2);
    if let Some(name) = policy.extractor.header_read() {
        if let Some(value) = first_header(head.headers, name) {
            assert(info.headers.first() == (name, value));
        } else {
            assert(info.headers =~= Seq::empty());
        }
    }
}

/// The API key of a request is the value of the first header whose name is one of the two that
/// carry API keys.
pub proof fn law_first_api_key_is_taken(headers: Seq<(Seq<char>, Seq<char>)>, i: int)
    requires
        0 <= i <= headers.len(),
        i < headers.len() ==> unicode_lowercase(headers[i].0) == "x-api-key"@ || unicode_lowercase(
            headers[i].0,
        ) == "authorization"@,
        forall|j: int|
            0 <= j < i ==> unicode_lowercase(#[trigger] headers[j].0) != "x-api-key"@
                && unicode_lowercase(headers[j].0) != "authorization"@,
    ensures
        i < headers.len() ==> api_key_told(headers) == Some(headers[i].1),
        i == headers.len() ==> api_key_told(headers) is None,
    decreases headers.len(),
{
    if headers.len() > 0 && i > 0 {
        assert(unicode_lowercase(headers[0].0) != "x-api-key"@);
        let rest = headers.drop_first();
        assert forall|j: int| 0 <= j < i - 1 implies unicode_lowercase(#[trigger] rest[j].0)
            != "x-api-key"@ && unicode_lowercase(rest[j].0) != "authorization"@ by {
            assert(rest[j] == headers[j + 1]);
        }
        law_first_api_key_is_taken(rest, i - 1);
    }
}

/// A key is what the extractor reads, as it stands: the address, the user or the header, and where
/// the path is part of the key, a colon and the path after that. A request that lacks what the
/// extractor reads has no key.
pub proof fn law_key_is_what_is_read(extractor: KeyExtractor, info: RequestView)
    ensures
        extractor is Ip ==> extractor.extracted(info) == info.ip,
        extractor is UserId ==> extractor.extracted(info) == info.user_id,
        extractor matches KeyExtractor::ApiKey { header_name } ==> extractor.extracted(info)
            == first_header(info.headers, header_name@),
        extractor matches KeyExtractor::Header { name } ==> extractor.extracted(info)
            == first_header(info.headers, name@),
        extractor is IpAndPath ==> extractor.extracted(info) is Some == info.ip is Some && (
        info.ip is Some ==> extractor.extracted(info)->0 == info.ip->0.push(':') + info.path),
        extractor is UserIdAndPath ==> extractor.extracted(info) is Some == info.user_id is Some
            && (info.user_id is Some ==> extractor.extracted(info)->0 == info.user_id->0.push(':')
            + info.path),
{
}

/// Requests of one client for different paths have different keys, where the path is part of the
/// key; and so have requests of different clients for the same path.
pub proof fn law_keys_tell_paths_and_clients_apart(
    extractor: KeyExtractor,
    a: RequestView,
    b: RequestView,
)
    requires
        extractor is IpAndPath || extractor is UserIdAndPath,
        extractor.extracted(a) is Some,
        extractor.extracted(a) == extractor.extracted(b),
    ensures
        extractor is IpAndPath && a.ip == b.ip ==> a.path == b.path,
        extractor is IpAndPath && a.path == b.path ==> a.ip == b.ip,
        extractor is UserIdAndPath && a.user_id == b.user_id ==> a.path == b.path,
        extractor is UserIdAndPath && a.path == b.path ==> a.user_id == b.user_id,
{
    let first = if extractor is IpAndPath {
        (a.ip->0, b.ip->0)
    } else {
        (a.user_id->0, b.user_id->0)
    };
    law_colon_keeps_both_sides(first.0, a.path);
    law_colon_keeps_both_sides(first.1, b.path);
}

/// Of several extractors, the first that finds a key gives it; where none does there is none.
pub proof fn law_first_key_found_is_taken(
    extractors: Seq<KeyExtractor>,
    info: RequestView,
    i: int,
)
    requires
        0 <= i <= extractors.len(),
        i < extractors.len() ==> extractors[i].extracted(info) is Some,
        forall|j: int| 0 <= j < i ==> (#[trigger] extractors[j]).extracted(info) is None,
    ensures
        i < extractors.len() ==> first_key(extractors, info) == extractors[i].extracted(info),
        i == extractors.len() ==> first_key(extractors, info) is None,
    decreases extractors.len(),
{
    if extractors.len() > 0 && i > 0 {
        assert(extractors[0].extracted(info) is None);
        let rest = extractors.drop_first();
        assert forall|j: int| 0 <= j < i - 1 implies (#[trigger] rest[j]).extracted(
            info,
        ) is None by {
            assert(rest[j] == extractors[j + 1]);
        }
        law_first_key_found_is_taken(rest, info, i - 1);
    }
}

/// Where extractors that were put together find no key, it is the address of the client, if that is
/// fallen back to.
pub proof fn law_address_is_the_last_resort(
    builder: KeyExtractorBuilder,
    info: RequestView,
    i: int,
)
    requires
        0 <= i <= builder.tried().len(),
        i < builder.tried().len() ==> builder.tried()[i].extracted(info) is Some,
        forall|j: int| 0 <= j < i ==> (#[trigger] builder.tried()[j]).extracted(info) is None,
    ensures
        i < builder.tried().len() ==> builder.extracted(info) == builder.tried()[i].extracted(info),
        i == builder.tried().len() && builder.falls_back() ==> builder.extracted(info) == info.ip,
        i == builder.tried().len() && !builder.falls_back() ==> builder.extracted(info) is None,
{
    law_first_key_found_is_taken(builder.tried(), info, i);
}

/// The limiter is asked for exactly the key that the extractor found, unless that is exempt.
pub proof fn law_limiter_is_asked_for_the_key_found(
    policy: PolicyView,
    info: RequestView,
    key: Seq<char>,
)
    requires
        policy.extractor.extracted(info) == Some(key),
        not_listed(policy.bypass_keys, key),
    ensures
        policy.decided(info).1 == DecisionView::Ask(key),
        policy.decided(info).0 == policy,
{
}

/// Requests with different keys are never asked for under one key.
pub proof fn law_different_keys_are_asked_for_apart(
    policy: PolicyView,
    a: RequestView,
    b: RequestView,
)
    requires
        policy.extractor.extracted(a) is Some,
        policy.extractor.extracted(b) is Some,
        policy.extractor.extracted(a) != policy.extractor.extracted(b),
        policy.decided(a).1 is Ask,
    ensures
        policy.decided(a).1 != policy.decided(b).1,
{
}

/// A request is answered at once in two cases: its key is exempt, and then it is allowed; or it has
/// none, and then it is allowed and counted, or denied with the message of the policy, as the
/// policy says.
pub proof fn law_only_exempt_and_unkeyed_requests_are_answered_at_once(
    policy: PolicyView,
    info: RequestView,
    i: int,
)
    ensures
        0 <= i < policy.bypass_keys.len() && policy.extractor.extracted(info) == Some(
            policy.bypass_keys[i],
        ) ==> policy.decided(info) == (
            policy,
            DecisionView::Answer(ResponseView::Allowed { headers: None }),
        ),
        policy.extractor.extracted(info) is None && policy.unkeyed_policy
            == UnkeyedRequestPolicy::Allow ==> policy.decided(info).1 == DecisionView::Answer(
            ResponseView::Allowed { headers: None },
        ),
        policy.extractor.extracted(info) is None && policy.unkeyed_policy
            == UnkeyedRequestPolicy::Allow && policy.unkeyed_allow_count < u64::MAX
            ==> policy.decided(info).0 == (PolicyView {
            unkeyed_allow_count: (policy.unkeyed_allow_count + 1) as u64,
            ..policy
        }),
        policy.extractor.extracted(info) is None && policy.unkeyed_policy
            == UnkeyedRequestPolicy::Deny ==> policy.decided(info) == (
            policy,
            DecisionView::Answer(
                ResponseView::Limited {
                    headers: None,
                    message: policy.error_message,
                    retry_after: None,
                },
            ),
        ),
{
    if 0 <= i < policy.bypass_keys.len() {
        assert(policy.bypass_keys.contains(policy.bypass_keys[i]));
    }
}

/// A middleware asks its limiter for exactly the key that the extractor found, unless that is
/// exempt, and the client is answered what the limiter said. The answer of the limiter is handed
/// back.
pub proof fn law_client_is_answered_what_the_limiter_said<S: RateLimitStore, A: TokenArithmetic>(
    before: RateLimitMiddleware<S, A>,
    after: RateLimitMiddleware<S, A>,
    info: RequestView,
    response: ResponseView,
    key: Seq<char>,
) -> (answer: RateLimitResult<RateLimitCheckResult>)
    requires
        responds(before, after, info, response),
        before.policy().extractor.extracted(info) == Some(key),
        not_listed(before.policy().bypass_keys, key),
    ensures
        answers::<S, A>(
            before.guard().kept(),
            after.guard().kept(),
            before.guard().rule(),
            before.guard().settings().bypass_keys,
            key,
            answer,
        ),
        (after.policy(), response) == before.policy().answered(answer),
        answer is Ok ==> response is Allowed == answer->Ok_0.allowed,
        answer is Err ==> response is Allowed == before.policy().skip_on_error,
        after.guard().rule() == before.guard().rule(),
        after.guard().settings() == before.guard().settings(),
{
    let policy = before.policy();
    choose|answer: RateLimitResult<RateLimitCheckResult>|
        #![trigger policy.answered(answer)]
        answers::<S, A>(
            before.guard().kept(),
            after.guard().kept(),
            before.guard().rule(),
            before.guard().settings().bypass_keys,
            key,
            answer,
        ) && (after.policy(), response) == policy.answered(answer)
}

/// A middleware takes from the configuration what that says of replies, exempt keys, failures and
/// proxies; keys are addresses, and requests without one are let through.
pub proof fn law_policy_follows_configuration(config: ConfigView)
    ensures
        ({
            let policy = PolicyView::of_config(config);
            &&& policy.extractor is Ip
            &&& policy.include_headers == config.include_headers
            &&& config.error_message is Some ==> policy.error_message == config.error_message->0
            &&& config.error_message is None ==> policy.error_message == "Rate limit exceeded"@
            &&& policy.bypass_keys == config.bypass_keys
            &&& policy.skip_on_error == config.skip_on_error
            &&& policy.trusted_proxy_depth == config.trusted_proxy_depth
            &&& policy.unkeyed_policy is Allow
            &&& policy.skip_on_error_count == 0
            &&& policy.unkeyed_allow_count == 0
        }),
{
}

/// Clients are limited each on its own: however the request of one key was answered, the first
/// request of another key is allowed, under fixed and sliding windows of a store in memory.
pub proof fn law_keys_are_limited_apart<A: TokenArithmetic>(
    before: RateLimitMiddleware<MemoryStore<A>, A>,
    mid: RateLimitMiddleware<MemoryStore<A>, A>,
    after: RateLimitMiddleware<MemoryStore<A>, A>,
    first: RequestView,
    second: RequestView,
    response: ResponseView,
    second_response: ResponseView,
    key: Seq<char>,
    other: Seq<char>,
)
    requires
        responds(before, mid, first, response),
        responds(mid, after, second, second_response),
        before.policy().extractor.extracted(first) == Some(key),
        mid.policy().extractor.extracted(second) == Some(other),
        key != other,
        not_listed(before.policy().bypass_keys, key),
        before.guard().rule() !is TokenBucket,
        before.guard().rule().most() > 0,
        !before.guard().kept()@.windows.contains_key(other),
        !before.guard().kept()@.logs.contains_key(other),
    ensures
        second_response is Allowed,
{
    let answer = law_client_is_answered_what_the_limiter_said::<MemoryStore<A>, A>(
        before,
        mid,
        first,
        response,
        key,
    );
    let exempt = before.guard().settings().bypass_keys;
    let store = before.guard().kept();
    let then = mid.guard().kept();
    lemma_other_key_is_untouched::<A>(
        store,
        then,
        before.guard().rule(),
        exempt,
        key,
        other,
        answer,
    );
    if not_listed(mid.policy().bypass_keys, other) {
        let second_answer = law_client_is_answered_what_the_limiter_said::<MemoryStore<A>, A>(
            mid,
            after,
            second,
            second_response,
            other,
        );
        if exempt.contains(other) {
        } else {
            assert(not_listed(exempt, other)) by {
                assert forall|i: int| 0 <= i < exempt.len() implies #[trigger] exempt[i]
                    != other by {
                    assert(exempt.contains(exempt[i]));
                }
            }
            match before.guard().rule() {
                Algorithm::FixedWindow { max_requests, window } => {
                    let _ = law_limiter_goes_by_fixed_windows::<A>(
                        then,
                        after.guard().kept(),
                        max_requests,
                        window,
                        exempt,
                        other,
                        second_answer,
                    );
                },
                Algorithm::SlidingWindowLog { max_requests, window } => {
                    let _ = law_limiter_goes_by_sliding_windows::<A>(
                        then,
                        after.guard().kept(),
                        max_requests,
                        window,
                        exempt,
                        other,
                        second_answer,
                    );
                },
                Algorithm::TokenBucket { .. } => {},
            }
        }
    } else {
        let exempt_keys = mid.policy().bypass_keys;
        let i = choose|i: int| 0 <= i < exempt_keys.len() && exempt_keys[i] == other;
        assert(exempt_keys.contains(exempt_keys[i]));
    }
}

/// A request of one key leaves the windows and logs of another as they are.
proof fn lemma_other_key_is_untouched<A: TokenArithmetic>(
    before: MemoryStore<A>,
    after: MemoryStore<A>,
    algorithm: Algorithm,
    exempt: Seq<Seq<char>>,
    key: Seq<char>,
    other: Seq<char>,
    answer: RateLimitResult<RateLimitCheckResult>,
)
    requires
        answers::<MemoryStore<A>, A>(before, after, algorithm, exempt, key, answer),
        key != other,
    ensures
        after@.windows.contains_key(other) == before@.windows.contains_key(other),
        after@.logs.contains_key(other) == before@.logs.contains_key(other),
{
    if !exempt.contains(key) {
        assert(not_listed(exempt, key)) by {
            assert forall|i: int| 0 <= i < exempt.len() implies #[trigger] exempt[i] != key by {
                assert(exempt.contains(exempt[i]));
            }
        }
        match algorithm {
            Algorithm::FixedWindow { max_requests, window } => {
                let _ = law_limiter_goes_by_fixed_windows::<A>(
                    before,
                    after,
                    max_requests,
                    window,
                    exempt,
                    key,
                    answer,
                );
            },
            Algorithm::SlidingWindowLog { max_requests, window } => {
                let _ = law_limiter_goes_by_sliding_windows::<A>(
                    before,
                    after,
                    max_requests,
                    window,
                    exempt,
                    key,
                    answer,
                );
            },
            Algorithm::TokenBucket { capacity, refill_rate } => {
                let _ = law_limiter_goes_by_token_buckets::<A>(
                    before,
                    after,
                    capacity,
                    refill_rate,
                    exempt,
                    key,
                    answer,
                );
            },
        }
    }
}

} // verus!
