//! Replies: what a client is told of its limit, in headers and in the body.

use super::texts::{law_decimal_stands_for_its_number, number_of};
use crate::error::{RateLimitError, RateLimitHeaders, RateLimitResult};
use crate::json::{hex_digit, json_char, json_chars};
use crate::limiter::RateLimitCheckResult;
use crate::middleware::{handled, PolicyView, ResponseView};
use crate::time::{duration_nanos, duration_text};
use vstd::prelude::*;

verus! {

/// A client that is allowed a request is told the limit, what remains and when the limit resets, if
/// it is told anything, as the limiter said it.
pub proof fn law_allowed_clients_are_told_the_result(
    policy: PolicyView,
    result: RateLimitCheckResult,
)
    requires
        result.allowed,
    ensures
        policy.answered(Ok(result)).0 == policy,
        policy.answered(Ok(result)).1 is Allowed,
        !policy.include_headers ==> policy.answered(Ok(result)).1->Allowed_headers is None,
        policy.include_headers ==> {
            let told = policy.answered(Ok(result)).1->Allowed_headers;
            &&& told is Some
            &&& told->0.limit == result.limit
            &&& told->0.remaining == result.remaining
            &&& told->0.reset == result.reset_at
            &&& told->0.retry_after is None
        },
{
}

/// A client that is denied a request is told the message of the policy and the whole seconds to
/// wait; and, if it is told headers, the limit, that none remain and when the limit resets.
pub proof fn law_denied_clients_are_told_the_result(
    policy: PolicyView,
    result: RateLimitCheckResult,
)
    requires
        !result.allowed,
    ensures
        ({
            let response = policy.answered(Ok(result)).1;
            let told = response->Limited_headers;
            &&& policy.answered(Ok(result)).0 == policy
            &&& response is Limited
            &&& response->message == policy.error_message
            &&& response->retry_after is Some == result.retry_after is Some
            &&& result.retry_after is Some && duration_nanos(result.retry_after->0)
                <= 18446744073709551615 * 1_000_000_000 ==> response->retry_after->0
                * 1_000_000_000 <= duration_nanos(result.retry_after->0) < (response->retry_after->0
                + 1) * 1_000_000_000
            &&& told is Some == policy.include_headers
            &&& told is Some ==> {
                &&& told->0.limit == result.limit
                &&& told->0.remaining == 0
                &&& told->0.reset == result.reset_at
                &&& told->0.retry_after is Some
                &&& result.retry_after is Some ==> told->0.retry_after == response->retry_after
                &&& result.retry_after is None ==> told->0.retry_after == Some(1u64)
            }
        }),
{
}

/// Where the limiter fails, a client is let through without headers and that is counted, or it is
/// denied with the message of the policy, as the policy says.
pub proof fn law_failures_are_answered_as_the_policy_says(
    policy: PolicyView,
    answer: RateLimitResult<RateLimitCheckResult>,
)
    requires
        answer is Err,
    ensures
        policy.skip_on_error ==> policy.answered(answer).1 == (ResponseView::Allowed {
            headers: None,
        }),
        policy.skip_on_error && policy.skip_on_error_count < u64::MAX ==> policy.answered(answer).0
            == (PolicyView {
            skip_on_error_count: (policy.skip_on_error_count + 1) as u64,
            ..policy
        }),
        !policy.skip_on_error ==> policy.answered(answer) == (
            policy,
            ResponseView::Limited {
                headers: None,
                message: policy.error_message,
                retry_after: None,
            },
        ),
{
}

/// Whether a list of headers tells the limit, what remains and when the limit resets, in this order
/// from the given place on.
pub open spec fn tells_limit(
    headers: Seq<(Seq<char>, Seq<char>)>,
    at: int,
    limit: u64,
    remaining: u64,
    reset: u64,
) -> bool {
    &&& headers.len() >= at + 3
    &&& headers[at].0 == "X-RateLimit-Limit"@
    &&& number_of(headers[at].1) == limit
    &&& headers[at + 1].0 == "X-RateLimit-Remaining"@
    &&& number_of(headers[at + 1].1) == remaining
    &&& headers[at + 2].0 == "X-RateLimit-Reset"@
    &&& number_of(headers[at + 2].1) == reset
}

/// An allowed request is handed on. Its response gets the three headers about the limit, with the
/// numbers that the client is told, or none.
pub proof fn law_allowed_requests_are_handed_on(told: Option<RateLimitHeaders>)
    ensures
        ({
            let handling = handled(ResponseView::Allowed { headers: told });
            &&& handling is Forward
            &&& told is None ==> handling->Forward_headers.len() == 0
            &&& told is Some ==> handling->Forward_headers.len() == 3 && tells_limit(
                handling->Forward_headers,
                0,
                told->0.limit,
                told->0.remaining,
                told->0.reset,
            )
        }),
{
    if let Some(told) = told {
        law_decimal_stands_for_its_number(told.limit as nat);
        law_decimal_stands_for_its_number(told.remaining as nat);
        law_decimal_stands_for_its_number(told.reset as nat);
    }
}

/// A denied request is replied to with the status 429 and a JSON body. The headers tell the seconds
/// to wait where they are known, and the limit, that none remain and the reset where the client is
/// told of them.
pub proof fn law_denied_requests_are_replied_to_in_full(
    told: Option<RateLimitHeaders>,
    message: Seq<char>,
    retry_after: Option<u64>,
)
    ensures
        ({
            let handling = handled(ResponseView::Limited { headers: told, message, retry_after });
            let headers = handling->Reply_headers;
            let at = if retry_after is Some {
                2int
            } else {
                1
            };
            &&& handling is Reply
            &&& handling->status == 429
            &&& headers.len() == at + if told is Some {
                3int
            } else {
                0
            }
            &&& headers[0] == ("Content-Type"@, "application/json"@)
            &&& retry_after is Some ==> headers[1].0 == "Retry-After"@ && number_of(headers[1].1)
                == retry_after->0
            &&& told is Some ==> tells_limit(headers, at, told->0.limit, 0, told->0.reset)
        }),
{
    law_decimal_stands_for_its_number(0);
    if let Some(told) = told {
        law_decimal_stands_for_its_number(told.limit as nat);
        law_decimal_stands_for_its_number(told.reset as nat);
    }
    if let Some(secs) = retry_after {
        law_decimal_stands_for_its_number(secs as nat);
    }
}

/// The value of a hexadecimal digit in lower case.
pub open spec fn hex_value(c: char) -> int {
    if '0' <= c <= '9' {
        c as u32 - '0' as u32
    } else {
        c as u32 - 'a' as u32 + 10
    }
}

/// The text that the inside of a JSON string stands for: a backslash and what follows it stand for
/// one character, and every other character for itself.
pub open spec fn json_meaning(inside: Seq<char>) -> Seq<char>
    decreases inside.len(),
{
    if inside.len() == 0 {
        Seq::empty()
    } else if inside[0] != '\\' || inside.len() < 2 {
        seq![inside[0]] + json_meaning(inside.skip(1))
    } else if inside[1] == 'u' && inside.len() >= 6 {
        seq![
            ((hex_value(inside[2]) * 4096 + hex_value(inside[3]) * 256 + hex_value(inside[4]) * 16
                + hex_value(inside[5])) as u32) as char,
        ] + json_meaning(inside.skip(6))
    } else {
        let c = if inside[1] == 'b' {
            8u32 as char
        } else if inside[1] == 't' {
            '\t'
        } else if inside[1] == 'n' {
            '\n'
        } else if inside[1] == 'f' {
            12u32 as char
        } else if inside[1] == 'r' {
            '\r'
        } else {
            inside[1]
        };
        seq![c] + json_meaning(inside.skip(2))
    }
}

/// The body of a reply carries the message, whatever it holds: it is the body for an empty message,
/// with the inside of a JSON string that stands for the message between the last two quotes. There
/// is no control character in it. That inside is handed back.
pub proof fn law_body_carries_the_message(
    told: Option<RateLimitHeaders>,
    message: Seq<char>,
    retry_after: Option<u64>,
) -> (inside: Seq<char>)
    ensures
        ({
            let bare = handled(
                ResponseView::Limited { headers: None, message: Seq::empty(), retry_after: None },
            )->body;
            let body = handled(
                ResponseView::Limited { headers: told, message, retry_after },
            )->body;
            &&& bare.len() >= 2
            &&& body == bare.take(bare.len() - 2) + inside + bare.skip(bare.len() - 2)
            &&& bare.skip(bare.len() - 2) == seq!['"', '}']
        }),
        json_meaning(inside) == message,
        forall|i: int| 0 <= i < inside.len() ==> #[trigger] inside[i] as u32 >= 32,
{
    let inside = json_chars(message);
    let bare = handled(
        ResponseView::Limited { headers: None, message: Seq::empty(), retry_after: None },
    )->body;
    let body = handled(ResponseView::Limited { headers: told, message, retry_after })->body;
    assert(json_chars(Seq::<char>::empty()) =~= Seq::empty());
    assert(bare.skip(bare.len() - 2) =~= seq!['"', '}']);
    assert(body =~= bare.take(bare.len() - 2) + inside + bare.skip(bare.len() - 2));
    lemma_json_meaning(message);
    inside
}

/// What is written in a JSON string stands for what was to be written.
proof fn lemma_json_meaning(text: Seq<char>)
    ensures
        json_meaning(json_chars(text)) == text,
        forall|i: int| 0 <= i < json_chars(text).len() ==> #[trigger] json_chars(text)[i] as u32
            >= 32,
    decreases text.len(),
{
    if text.len() > 0 {
        let rest = text.drop_first();
        lemma_json_front(text);
        lemma_json_meaning(rest);
        let first = json_char(text.first());
        let tail = json_chars(rest);
        lemma_json_char(text.first(), tail);
        assert(seq![text.first()] + rest =~= text);
        assert forall|i: int| 0 <= i < json_chars(text).len() implies #[trigger] json_chars(
            text,
        )[i] as u32 >= 32 by {
            if i >= first.len() {
                assert(json_chars(text)[i] == tail[i - first.len()]);
            } else {
                assert(json_chars(text)[i] == first[i]);
            }
        }
    } else {
        assert(text =~= Seq::empty());
    }
}

/// What is written for a character stands for it, whatever follows.
proof fn lemma_json_char(c: char, tail: Seq<char>)
    ensures
        json_meaning(json_char(c) + tail) == seq![c] + json_meaning(tail),
        forall|i: int| 0 <= i < json_char(c).len() ==> #[trigger] json_char(c)[i] as u32 >= 32,
{
    let first = json_char(c);
    let all = first + tail;
    let code = c as nat;
    assert(all.skip(first.len() as int) =~= tail);
    assert(all[0] == first[0]);
    if first.len() == 1 {
        assert(c != '\\');
    } else if first.len() == 2 {
        assert(all[0] == '\\' && all[1] == first[1]);
        assert(all[1] != 'u');
    } else {
        assert(first.len() == 6 && code < 32);
        assert(all[0] == '\\' && all[1] == 'u' && all[2] == '0' && all[3] == '0');
        assert(all[4] == hex_digit(code / 16) && all[5] == hex_digit(code % 16));
        assert(hex_value(hex_digit(code / 16)) == code / 16);
        assert(hex_value(hex_digit(code % 16)) == code % 16);
        assert(hex_value(all[2]) == 0 && hex_value(all[3]) == 0);
        assert((code as u32) as char == c);
    }
}

/// The first character of a text is written first.
proof fn lemma_json_front(text: Seq<char>)
    requires
        text.len() > 0,
    ensures
        json_chars(text) == json_char(text.first()) + json_chars(text.drop_first()),
    decreases text.len(),
{
    reveal_with_fuel(json_chars, 2);
    let rest = text.drop_first();
    if text.len() > 1 {
        let front = text.drop_last();
        lemma_json_front(front);
        assert(front.drop_first() =~= rest.drop_last());
        assert(front.first() == text.first() && rest.last() == text.last());
        assert(json_chars(text) =~= json_char(text.first()) + (json_chars(rest.drop_last())
            + json_char(rest.last())));
    } else {
        assert(text.drop_last() =~= Seq::empty());
        assert(rest =~= Seq::empty());
        assert(json_chars(text) =~= json_char(text.first()) + json_chars(rest));
    }
}

/// Headers are told by their names and numbers, and the seconds to wait only where there are some
/// to tell.
pub proof fn law_header_pairs_tell_every_number(headers: RateLimitHeaders)
    ensures
        tells_limit(headers.pairs(), 0, headers.limit, headers.remaining, headers.reset),
        headers.retry_after is None ==> headers.pairs().len() == 3,
        headers.retry_after is Some ==> headers.pairs().len() == 4 && headers.pairs()[3].0
            == "Retry-After"@ && number_of(headers.pairs()[3].1) == headers.retry_after->0,
{
    law_decimal_stands_for_its_number(headers.limit as nat);
    law_decimal_stands_for_its_number(headers.remaining as nat);
    law_decimal_stands_for_its_number(headers.reset as nat);
    if let Some(retry) = headers.retry_after {
        law_decimal_stands_for_its_number(retry as nat);
    }
}

/// The message of an error ends with its reason, in full, whatever that is; and that of an exceeded
/// limit with how long to wait.
pub proof fn law_error_messages_carry_the_reason(error: RateLimitError, reason: Seq<char>)
    ensures
        error matches RateLimitError::StoreError(told) && told@ == reason ==> error.told()
            == "Rate limit store error: "@ + reason,
        error matches RateLimitError::ConfigError(told) && told@ == reason ==> error.told()
            == "Rate limit configuration error: "@ + reason,
        error matches RateLimitError::KeyExtractionError(told) && told@ == reason ==> error.told()
            == "Failed to extract rate limit key: "@ + reason,
        error matches RateLimitError::InvalidAlgorithm(told) && told@ == reason ==> error.told()
            == "Invalid algorithm configuration: "@ + reason,
        error matches RateLimitError::RedisError(told) && told@ == reason ==> error.told()
            == "Redis error: "@ + reason,
        error is Timeout ==> error.told() == "Rate limit store operation timed out"@,
        error matches RateLimitError::LimitExceeded { retry_after, .. } ==> error.told()
            == "Rate limit exceeded. Retry after "@ + duration_text(duration_nanos(retry_after)),
{
}

} // verus!
