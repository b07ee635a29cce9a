//! The middleware: which key a request has, whether it is limited, and what the client is answered.

use crate::config::{ConfigView, RateLimitConfig};
use crate::error::{RateLimitHeaders, RateLimitResult};
use crate::extractor::{
    first_header, headers_view, KeyExtractor, RequestInfo, RequestView,
};
use crate::json::{json_pair, pair_text};
use crate::limiter::{answers, whole_secs, RateLimitCheckResult, RateLimiter};
use crate::request::{
    api_key_told, before_query, client_address, client_ip, find_api_key, hop_at, known_of,
    law_forged_hops_do_not_matter, law_shared_hop_shares_address, reads, reads_alike, request_info,
    trusted_hop, with_headers, AddressFormat, HeadView, RequestHead,
};
use crate::stores::RateLimitStore;
use crate::text::{
    add_texts, comma_list, copy_texts, decimal, decimal_text, has_text, str_texts, texts,
};
use crate::tokens::TokenArithmetic;
use vstd::prelude::*;

verus! {

/// What becomes of a request of which no key is known.
///
/// This is not rare. The default key is the address of the client, and as long as no proxy is
/// trusted no address is known: then every request is without a key.
#[derive(Clone, Copy, PartialEq, Eq, Structural, Debug)]
pub enum UnkeyedRequestPolicy {
    /// The request is let through, and counted.
    Allow,
    /// The request is denied as if it had exceeded the limit.
    Deny,
}

impl Default for UnkeyedRequestPolicy {
    fn default() -> (policy: UnkeyedRequestPolicy)
        ensures
            policy == UnkeyedRequestPolicy::Allow,
    {
        UnkeyedRequestPolicy::Allow
    }
}

/// What a request is answered.
#[derive(Debug)]
pub enum RateLimitCheckResponse {
    /// The request is allowed.
    Allowed {
        /// The headers that tell the client about its limit, if any.
        headers: Option<RateLimitHeaders>,
    },
    /// The request is denied.
    Limited {
        /// The headers that tell the client about its limit, if any.
        headers: Option<RateLimitHeaders>,
        /// What the client is told.
        message: String,
        /// How many seconds to wait before trying again, if that is known.
        retry_after: Option<u64>,
    },
}

/// The mathematical view of a [`RateLimitCheckResponse`].
#[verifier::ext_equal]
pub enum ResponseView {
    /// See [`RateLimitCheckResponse::Allowed`].
    Allowed {
        /// The headers, if any.
        headers: Option<RateLimitHeaders>,
    },
    /// See [`RateLimitCheckResponse::Limited`].
    Limited {
        /// The headers, if any.
        headers: Option<RateLimitHeaders>,
        /// What the client is told.
        message: Seq<char>,
        /// How many seconds to wait before trying again, if that is known.
        retry_after: Option<u64>,
    },
}

impl View for RateLimitCheckResponse {
    type V = ResponseView;

    open spec fn view(&self) -> ResponseView {
        match *self {
            RateLimitCheckResponse::Allowed { headers } => ResponseView::Allowed { headers },
            RateLimitCheckResponse::Limited { headers, message, retry_after } =>
                ResponseView::Limited { headers, message: message@, retry_after },
        }
    }
}

impl RateLimitCheckResponse {
    /// Whether the request is allowed.
    pub fn is_allowed(&self) -> (allowed: bool)
        ensures
            allowed == (self@ is Allowed),
    {
        matches!(self, RateLimitCheckResponse::Allowed { .. })
    }

    /// Whether the request is denied.
    pub fn is_limited(&self) -> (limited: bool)
        ensures
            limited == (self@ is Limited),
    {
        matches!(self, RateLimitCheckResponse::Limited { .. })
    }

    /// The headers that tell the client about its limit, if any.
    pub fn headers(&self) -> (headers: Option<&RateLimitHeaders>)
        ensures
            ({
                let told = match self@ {
                    ResponseView::Allowed { headers } => headers,
                    ResponseView::Limited { headers, .. } => headers,
                };
                &&& headers is Some == told is Some
                &&& headers is Some ==> *headers->0 == told->0
            }),
    {
        match self {
            RateLimitCheckResponse::Allowed { headers } => headers.as_ref(),
            RateLimitCheckResponse::Limited { headers, .. } => headers.as_ref(),
        }
    }

    /// What the client is told, where the request is denied.
    pub fn message(&self) -> (message: Option<&str>)
        ensures
            match self@ {
                ResponseView::Limited { message: told, .. } => message is Some && message->0@
                    == told,
                ResponseView::Allowed { .. } => message is None,
            },
    {
        match self {
            RateLimitCheckResponse::Limited { message, .. } => Some(message.as_str()),
            _ => None,
        }
    }

    /// How many seconds to wait before trying again, where the request is denied and that is known.
    pub fn retry_after(&self) -> (secs: Option<u64>)
        ensures
            secs == match self@ {
                ResponseView::Limited { retry_after, .. } => retry_after,
                ResponseView::Allowed { .. } => None,
            },
    {
        match self {
            RateLimitCheckResponse::Limited { retry_after, .. } => *retry_after,
            _ => None,
        }
    }
}

/// A counter after one more event. It wraps around.
pub open spec fn counted(n: u64) -> u64 {
    if n == u64::MAX {
        0
    } else {
        (n + 1) as u64
    }
}

/// What is decided of a request before the limiter is asked.
#[verifier::ext_equal]
pub enum DecisionView {
    /// The request is answered at once.
    Answer(ResponseView),
    /// The limiter is asked for a request of the key.
    Ask(Seq<char>),
}

/// What is decided of a request before the limiter is asked.
pub enum Decision {
    /// The request is answered at once.
    Answer(RateLimitCheckResponse),
    /// The limiter is asked for a request of the key.
    Ask(String),
}

impl View for Decision {
    type V = DecisionView;

    open spec fn view(&self) -> DecisionView {
        match *self {
            Decision::Answer(response) => DecisionView::Answer(response@),
            Decision::Ask(key) => DecisionView::Ask(key@),
        }
    }
}

/// A policy, as contracts speak of it.
#[verifier::ext_equal]
pub struct PolicyView {
    /// How the key of a request is derived.
    pub extractor: KeyExtractor,
    /// Whether responses carry headers about the limit.
    pub include_headers: bool,
    /// What a client that is denied is told.
    pub error_message: Seq<char>,
    /// Keys that are never limited.
    pub bypass_keys: Seq<Seq<char>>,
    /// Whether requests are let through where the store fails.
    pub skip_on_error: bool,
    /// How many reverse proxies in front of the application are trusted.
    pub trusted_proxy_depth: usize,
    /// What becomes of a request without a key.
    pub unkeyed_policy: UnkeyedRequestPolicy,
    /// How many requests were let through because the store failed.
    pub skip_on_error_count: u64,
    /// How many requests were let through because they had no key.
    pub unkeyed_allow_count: u64,
}

impl PolicyView {
    /// The policy that a configuration asks for.
    pub open spec fn of_config(config: ConfigView) -> PolicyView {
        PolicyView {
            extractor: KeyExtractor::Ip,
            include_headers: config.include_headers,
            error_message: match config.error_message {
                Some(message) => message,
                None => "Rate limit exceeded"@,
            },
            bypass_keys: config.bypass_keys,
            skip_on_error: config.skip_on_error,
            trusted_proxy_depth: config.trusted_proxy_depth,
            unkeyed_policy: UnkeyedRequestPolicy::Allow,
            skip_on_error_count: 0,
            unkeyed_allow_count: 0,
        }
    }

    /// The answer to a request that is denied without the limiter having said so.
    pub open spec fn turned_away(self) -> ResponseView {
        ResponseView::Limited { headers: None, message: self.error_message, retry_after: None }
    }

    /// This policy after a decision on a request, and the decision.
    pub open spec fn decided(self, info: RequestView) -> (PolicyView, DecisionView) {
        match self.extractor.extracted(info) {
            None => match self.unkeyed_policy {
                UnkeyedRequestPolicy::Allow => (
                    PolicyView { unkeyed_allow_count: counted(self.unkeyed_allow_count), ..self },
                    DecisionView::Answer(ResponseView::Allowed { headers: None }),
                ),
                UnkeyedRequestPolicy::Deny => (self, DecisionView::Answer(self.turned_away())),
            },
            Some(key) => if self.bypass_keys.contains(key) {
                (self, DecisionView::Answer(ResponseView::Allowed { headers: None }))
            } else {
                (self, DecisionView::Ask(key))
            },
        }
    }

    /// This policy after the limiter answered, and what the request is answered.
    pub open spec fn answered(self, answer: RateLimitResult<RateLimitCheckResult>) -> (
        PolicyView,
        ResponseView,
    ) {
        match answer {
            Ok(result) => if result.allowed {
                (
                    self,
                    ResponseView::Allowed {
                        headers: if self.include_headers {
                            Some(
                                RateLimitHeaders {
                                    limit: result.limit,
                                    remaining: result.remaining,
                                    reset: result.reset_at,
                                    retry_after: None,
                                },
                            )
                        } else {
                            None
                        },
                    },
                )
            } else {
                (
                    self,
                    ResponseView::Limited {
                        headers: if self.include_headers {
                            Some(
                                RateLimitHeaders {
                                    limit: result.limit,
                                    remaining: 0,
                                    reset: result.reset_at,
                                    retry_after: Some(
                                        match result.retry_after {
                                            Some(span) => whole_secs(span) as u64,
                                            None => 1,
                                        },
                                    ),
                                },
                            )
                        } else {
                            None
                        },
                        message: self.error_message,
                        retry_after: match result.retry_after {
                            Some(span) => Some(whole_secs(span) as u64),
                            None => None,
                        },
                    },
                )
            },
            Err(_) => if self.skip_on_error {
                (
                    PolicyView { skip_on_error_count: counted(self.skip_on_error_count), ..self },
                    ResponseView::Allowed { headers: None },
                )
            } else {
                (self, self.turned_away())
            },
        }
    }
}

/// Whether `info` is what is known of a request with the given head under the policy.
pub open spec fn gathered<F: AddressFormat>(
    head: HeadView,
    policy: PolicyView,
    info: RequestView,
) -> bool {
    &&& client_address::<F>(head.headers, policy.trusted_proxy_depth as nat, info.ip)
    &&& info == known_of(head, policy.extractor, info.ip)
}

/// How requests are keyed and answered.
pub struct RequestPolicy {
    key_extractor: KeyExtractor,
    include_headers: bool,
    error_message: String,
    bypass_keys: Vec<String>,
    skip_on_error: bool,
    trusted_proxy_depth: usize,
    unkeyed_policy: UnkeyedRequestPolicy,
    skip_on_error_count: u64,
    unkeyed_allow_count: u64,
}

impl View for RequestPolicy {
    type V = PolicyView;

    closed spec fn view(&self) -> PolicyView {
        PolicyView {
            extractor: self.key_extractor,
            include_headers: self.include_headers,
            error_message: self.error_message@,
            bypass_keys: texts(self.bypass_keys@),
            skip_on_error: self.skip_on_error,
            trusted_proxy_depth: self.trusted_proxy_depth,
            unkeyed_policy: self.unkeyed_policy,
            skip_on_error_count: self.skip_on_error_count,
            unkeyed_allow_count: self.unkeyed_allow_count,
        }
    }
}

impl RequestPolicy {
    /// The policy that a configuration asks for. Keys are the addresses of clients.
    pub fn new(config: &RateLimitConfig) -> (policy: RequestPolicy)
        ensures
            policy@ == PolicyView::of_config(config@),
    {
        RequestPolicy {
            key_extractor: KeyExtractor::Ip,
            include_headers: config.include_headers,
            error_message: match &config.error_message {
                Some(message) => message.clone(),
                None => "Rate limit exceeded".to_owned(),
            },
            bypass_keys: copy_texts(&config.bypass_keys),
            skip_on_error: config.skip_on_error,
            trusted_proxy_depth: config.trusted_proxy_depth,
            unkeyed_policy: UnkeyedRequestPolicy::Allow,
            skip_on_error_count: 0,
            unkeyed_allow_count: 0,
        }
    }

    /// Sets what becomes of requests without a key.
    pub fn set_unkeyed_policy(&mut self, policy: UnkeyedRequestPolicy)
        ensures
            final(self)@ == (PolicyView { unkeyed_policy: policy, ..old(self)@ }),
    {
        self.unkeyed_policy = policy;
    }

    /// Sets how many reverse proxies in front of the application are trusted.
    pub fn set_trusted_proxy_depth(&mut self, depth: usize)
        ensures
            final(self)@ == (PolicyView { trusted_proxy_depth: depth, ..old(self)@ }),
    {
        self.trusted_proxy_depth = depth;
    }

    /// Sets how the key of a request is derived.
    pub fn set_extractor(&mut self, extractor: KeyExtractor)
        ensures
            final(self)@ == (PolicyView { extractor, ..old(self)@ }),
    {
        self.key_extractor = extractor;
    }

    /// Sets whether responses carry headers about the limit.
    pub fn set_headers(&mut self, included: bool)
        ensures
            final(self)@ == (PolicyView { include_headers: included, ..old(self)@ }),
    {
        self.include_headers = included;
    }

    /// Sets what a client that is denied is told.
    pub fn set_error_message(&mut self, message: &str)
        ensures
            final(self)@ == (PolicyView { error_message: message@, ..old(self)@ }),
    {
        self.error_message = message.to_owned();
    }

    /// Adds keys that are never limited.
    pub fn add_bypass_keys(&mut self, keys: &[&str])
        ensures
            final(self)@ == (PolicyView {
                bypass_keys: old(self)@.bypass_keys + str_texts(keys@),
                ..old(self)@
            }),
    {
        add_texts(&mut self.bypass_keys, keys);
    }

    /// How many requests were let through because the store failed.
    pub fn skip_on_error_count(&self) -> (count: u64)
        ensures
            count == self@.skip_on_error_count,
    {
        self.skip_on_error_count
    }

    /// How many requests were let through because they had no key.
    pub fn unkeyed_allow_count(&self) -> (count: u64)
        ensures
            count == self@.unkeyed_allow_count,
    {
        self.unkeyed_allow_count
    }

    /// How many reverse proxies in front of the application are trusted.
    pub fn trusted_proxy_depth(&self) -> (depth: usize)
        ensures
            depth == self@.trusted_proxy_depth,
    {
        self.trusted_proxy_depth
    }

    /// The answer to a request that is denied without the limiter having said so.
    fn turn_away(&self) -> (response: RateLimitCheckResponse)
        ensures
            response@ == self@.turned_away(),
    {
        RateLimitCheckResponse::Limited {
            headers: None,
            message: self.error_message.clone(),
            retry_after: None,
        }
    }

    /// Gathers what is known of a request, as far as the policy needs it.
    pub fn gather<F: AddressFormat>(&self, head: &RequestHead) -> (info: RequestInfo)
        ensures
            gathered::<F>(head@, self@, info@),
    {
        let address = client_ip::<F>(head.headers.as_slice(), self.trusted_proxy_depth);
        request_info(head, &self.key_extractor, address)
    }

    /// Decides what becomes of a request: it is answered at once where it has no key or its key is
    /// never limited; otherwise the limiter is to be asked.
    pub fn decide(&mut self, info: &RequestInfo) -> (decision: Decision)
        ensures
            (final(self)@, decision@) == old(self)@.decided(info@),
    {
        let key = match self.key_extractor.extract(info) {
            Some(key) => key,
            None => {
                return match self.unkeyed_policy {
                    UnkeyedRequestPolicy::Allow => {
                        self.unkeyed_allow_count = self.unkeyed_allow_count.wrapping_add(1);
                        Decision::Answer(RateLimitCheckResponse::Allowed { headers: None })
                    },
                    UnkeyedRequestPolicy::Deny => Decision::Answer(self.turn_away()),
                };
            },
        };
        if has_text(&self.bypass_keys, key.as_str()) {
            return Decision::Answer(RateLimitCheckResponse::Allowed { headers: None });
        }
        Decision::Ask(key)
    }

    /// Answers a request of which the limiter said the given thing.
    pub fn answer(&mut self, answer: &RateLimitResult<RateLimitCheckResult>) -> (response:
        RateLimitCheckResponse)
        ensures
            (final(self)@, response@) == old(self)@.answered(*answer),
    {
        match answer {
            Ok(result) => {
                if result.allowed {
                    let headers = if self.include_headers {
                        Some(
                            RateLimitHeaders::allowed(
                                result.limit,
                                result.remaining,
                                result.reset_at,
                            ),
                        )
                    } else {
                        None
                    };
                    RateLimitCheckResponse::Allowed { headers }
                } else {
                    let retry_after: Option<u64> = match result.retry_after {
                        Some(span) => Some(span.as_secs()),
                        None => None,
                    };
                    let headers = if self.include_headers {
                        Some(
                            RateLimitHeaders::denied(
                                result.limit,
                                result.reset_at,
                                retry_after.unwrap_or(1),
                            ),
                        )
                    } else {
                        None
                    };
                    RateLimitCheckResponse::Limited {
                        headers,
                        message: self.error_message.clone(),
                        retry_after,
                    }
                }
            },
            Err(_) => {
                if self.skip_on_error {
                    self.skip_on_error_count = self.skip_on_error_count.wrapping_add(1);
                    RateLimitCheckResponse::Allowed { headers: None }
                } else {
                    self.turn_away()
                }
            },
        }
    }
}

/// What to do with a request, as contracts speak of it.
#[verifier::ext_equal]
pub enum HandlingView {
    /// See [`Handling::Forward`].
    Forward {
        /// The headers to add to the response.
        headers: Seq<(Seq<char>, Seq<char>)>,
    },
    /// See [`Handling::Reply`].
    Reply {
        /// The status code.
        status: u16,
        /// The body.
        body: Seq<char>,
        /// The headers.
        headers: Seq<(Seq<char>, Seq<char>)>,
    },
}

/// What to do with a request.
pub enum Handling {
    /// Hand the request on, and add headers to the response.
    Forward {
        /// The headers to add to the response, by name and value.
        headers: Vec<(String, String)>,
    },
    /// Reply at once.
    Reply {
        /// The status code.
        status: u16,
        /// The body.
        body: String,
        /// The headers, by name and value.
        headers: Vec<(String, String)>,
    },
}

impl View for Handling {
    type V = HandlingView;

    open spec fn view(&self) -> HandlingView {
        match *self {
            Handling::Forward { headers } => HandlingView::Forward {
                headers: headers_view(headers@),
            },
            Handling::Reply { status, body, headers } => HandlingView::Reply {
                status,
                body: body@,
                headers: headers_view(headers@),
            },
        }
    }
}

/// The headers about the limit, where there are any.
pub open spec fn limit_headers(headers: Option<RateLimitHeaders>, remaining: nat) -> Seq<
    (Seq<char>, Seq<char>),
> {
    match headers {
        Some(told) => seq![
            ("X-RateLimit-Limit"@, decimal(told.limit as nat)),
            ("X-RateLimit-Remaining"@, decimal(remaining)),
            ("X-RateLimit-Reset"@, decimal(told.reset as nat)),
        ],
        None => Seq::empty(),
    }
}

/// What to do with a request that is answered so. One that is denied gets the status 429, a JSON
/// body, and is told when to try again where that is known.
pub open spec fn handled(response: ResponseView) -> HandlingView {
    match response {
        ResponseView::Allowed { headers } => HandlingView::Forward {
            headers: limit_headers(
                headers,
                match headers {
                    Some(told) => told.remaining as nat,
                    None => 0,
                },
            ),
        },
        ResponseView::Limited { headers, message, retry_after } => HandlingView::Reply {
            status: 429,
            body: json_pair("error"@, "Too Many Requests"@, "message"@, message),
            headers: seq![("Content-Type"@, "application/json"@)] + (match retry_after {
                Some(secs) => seq![("Retry-After"@, decimal(secs as nat))],
                None => Seq::empty(),
            }) + limit_headers(headers, 0),
        },
    }
}

/// Adds a header.
fn add_header(headers: &mut Vec<(String, String)>, name: &str, value: String)
    ensures
        headers_view(final(headers)@) == headers_view(old(headers)@).push((name@, value@)),
{
    let ghost before = headers_view(headers@);
    headers.push((name.to_owned(), value));
    assert(headers_view(headers@) =~= before.push((name@, value@)));
}

/// Adds the headers about the limit, where there are any.
fn add_limit_headers(
    headers: &mut Vec<(String, String)>,
    told: &Option<RateLimitHeaders>,
    remaining: u64,
)
    ensures
        headers_view(final(headers)@) == headers_view(old(headers)@) + limit_headers(
            *told,
            remaining as nat,
        ),
{
    let ghost before = headers_view(headers@);
    if let Some(told) = told {
        add_header(headers, "X-RateLimit-Limit", decimal_text(told.limit));
        add_header(headers, "X-RateLimit-Remaining", decimal_text(remaining));
        add_header(headers, "X-RateLimit-Reset", decimal_text(told.reset));
    }
    assert(headers_view(headers@) =~= before + limit_headers(*told, remaining as nat));
}

/// Tells what to do with a request that is answered so.
pub fn handle_response(response: &RateLimitCheckResponse) -> (handling: Handling)
    ensures
        handling@ == handled(response@),
{
    let mut headers: Vec<(String, String)> = Vec::new();
    assert(headers_view(headers@) =~= Seq::empty());
    match response {
        RateLimitCheckResponse::Allowed { headers: told } => {
            let remaining: u64 = match told {
                Some(told) => told.remaining,
                None => 0,
            };
            add_limit_headers(&mut headers, told, remaining);
            let handling = Handling::Forward { headers };
            assert(handling@ =~= handled(response@));
            handling
        },
        RateLimitCheckResponse::Limited { headers: told, message, retry_after } => {
            proof {
                reveal_strlit("error");
                reveal_strlit("message");
            }
            let body = pair_text("error", "Too Many Requests", "message", message.as_str());
            add_header(&mut headers, "Content-Type", "application/json".to_owned());
            if let Some(secs) = retry_after {
                add_header(&mut headers, "Retry-After", decimal_text(*secs));
            }
            add_limit_headers(&mut headers, told, 0);
            let handling = Handling::Reply { status: 429, body, headers };
            assert(handling@ =~= handled(response@));
            handling
        },
    }
}

/// The middleware: a limiter, and how requests are keyed and answered.
pub struct RateLimitMiddleware<S: RateLimitStore, A: TokenArithmetic> {
    limiter: RateLimiter<S, A>,
    policy: RequestPolicy,
}

/// Whether a request of which `info` is known is answered with `response`, and turns `before` into
/// `after`. The limiter is asked only where the request has a key that is not exempt.
pub open spec fn responds<S: RateLimitStore, A: TokenArithmetic>(
    before: RateLimitMiddleware<S, A>,
    after: RateLimitMiddleware<S, A>,
    info: RequestView,
    response: ResponseView,
) -> bool {
    let (policy, decision) = before.policy().decided(info);
    &&& after.guard().rule() == before.guard().rule()
    &&& after.guard().settings() == before.guard().settings()
    &&& match decision {
        DecisionView::Answer(told) => {
            &&& response == told
            &&& after.policy() == policy
            &&& after.guard() == before.guard()
        },
        DecisionView::Ask(key) => exists|answer: RateLimitResult<RateLimitCheckResult>|
            #![trigger policy.answered(answer)]
            answers::<S, A>(
                before.guard().kept(),
                after.guard().kept(),
                before.guard().rule(),
                before.guard().settings().bypass_keys,
                key,
                answer,
            ) && (after.policy(), response) == policy.answered(answer),
    }
}

impl<S: RateLimitStore, A: TokenArithmetic> RateLimitMiddleware<S, A> {
    /// The limiter.
    pub closed spec fn guard(self) -> RateLimiter<S, A> {
        self.limiter
    }

    /// How requests are keyed and answered.
    pub closed spec fn policy(self) -> PolicyView {
        self.policy@
    }

    /// A middleware for the given limiter, as its configuration asks for it. Keys are the addresses
    /// of clients.
    pub fn new(limiter: RateLimiter<S, A>) -> (middleware: RateLimitMiddleware<S, A>)
        ensures
            middleware.guard() == limiter,
            middleware.policy() == PolicyView::of_config(limiter.settings()),
    {
        let policy = RequestPolicy::new(limiter.config());
        RateLimitMiddleware { limiter, policy }
    }

    /// Sets what becomes of requests without a key.
    pub fn with_unkeyed_policy(self, policy: UnkeyedRequestPolicy) -> (middleware:
        RateLimitMiddleware<S, A>)
        ensures
            middleware.guard() == self.guard(),
            middleware.policy() == (PolicyView { unkeyed_policy: policy, ..self.policy() }),
    {
        let mut middleware = self;
        middleware.policy.set_unkeyed_policy(policy);
        middleware
    }

    /// Sets how many reverse proxies in front of the application are trusted.
    pub fn with_trusted_proxy_depth(self, depth: usize) -> (middleware: RateLimitMiddleware<S, A>)
        ensures
            middleware.guard() == self.guard(),
            middleware.policy() == (PolicyView { trusted_proxy_depth: depth, ..self.policy() }),
    {
        let mut middleware = self;
        middleware.policy.set_trusted_proxy_depth(depth);
        middleware
    }

    /// Sets how the key of a request is derived.
    pub fn with_extractor(self, extractor: KeyExtractor) -> (middleware: RateLimitMiddleware<S, A>)
        ensures
            middleware.guard() == self.guard(),
            middleware.policy() == (PolicyView { extractor, ..self.policy() }),
    {
        let mut middleware = self;
        middleware.policy.set_extractor(extractor);
        middleware
    }

    /// Sets whether responses carry headers about the limit.
    pub fn with_headers(self, included: bool) -> (middleware: RateLimitMiddleware<S, A>)
        ensures
            middleware.guard() == self.guard(),
            middleware.policy() == (PolicyView { include_headers: included, ..self.policy() }),
    {
        let mut middleware = self;
        middleware.policy.set_headers(included);
        middleware
    }

    /// Sets what a client that is denied is told.
    pub fn with_error_message(self, message: &str) -> (middleware: RateLimitMiddleware<S, A>)
        ensures
            middleware.guard() == self.guard(),
            middleware.policy() == (PolicyView { error_message: message@, ..self.policy() }),
    {
        let mut middleware = self;
        middleware.policy.set_error_message(message);
        middleware
    }

    /// Adds keys that are never limited.
    pub fn with_bypass_keys(self, keys: &[&str]) -> (middleware: RateLimitMiddleware<S, A>)
        ensures
            middleware.guard() == self.guard(),
            middleware.policy() == (PolicyView {
                bypass_keys: self.policy().bypass_keys + str_texts(keys@),
                ..self.policy()
            }),
    {
        let mut middleware = self;
        middleware.policy.add_bypass_keys(keys);
        middleware
    }

    /// Answers a request of which `info` is known.
    pub fn check(&mut self, info: &RequestInfo) -> (response: RateLimitCheckResponse)
        ensures
            responds(*old(self), *final(self), info@, response@),
    {
        match self.policy.decide(info) {
            Decision::Answer(response) => response,
            Decision::Ask(key) => {
                let answer = self.limiter.check(key.as_str());
                let ghost policy = self.policy@;
                let response = self.policy.answer(&answer);
                assert((self.policy@, response@) == policy.answered(answer));
                response
            },
        }
    }

    /// Handles a request: it is handed on where it is allowed, and replied to where it is denied.
    pub fn handle<F: AddressFormat>(&mut self, head: &RequestHead) -> (handling: Handling)
        ensures
            exists|info: RequestView, response: ResponseView|
                #![trigger responds(*old(self), *final(self), info, response)]
                gathered::<F>(head@, old(self).policy(), info) && responds(
                    *old(self),
                    *final(self),
                    info,
                    response,
                ) && handling@ == handled(response),
    {
        let info = self.policy.gather::<F>(head);
        let response = self.check(&info);
        handle_response(&response)
    }

    /// Gathers what is known of a request, with all of its headers. The API key is the value of the
    /// first header whose name is, in lower case, one of those that carry API keys.
    pub fn extract_request_info(
        ip: Option<&str>,
        path: &str,
        method: &str,
        user_id: Option<&str>,
        headers: &[(String, String)],
    ) -> (info: RequestInfo)
        ensures
            info@ == (RequestView {
                ip: match ip {
                    Some(ip) => Some(ip@),
                    None => None,
                },
                path: path@,
                method: method@,
                user_id: match user_id {
                    Some(user_id) => Some(user_id@),
                    None => None,
                },
                api_key: api_key_told(headers_view(headers@)),
                headers: headers_view(headers@),
            }),
    {
        let mut info = RequestInfo::new(path, method);
        if let Some(ip) = ip {
            info = info.with_ip(ip);
        }
        if let Some(user_id) = user_id {
            info = info.with_user_id(user_id);
        }
        info = with_headers(info, headers);
        assert(info@.headers =~= headers_view(headers@));
        if let Some(key) = find_api_key(headers) {
            info = info.with_api_key(key.as_str());
        }
        info
    }

    /// The limiter.
    pub fn limiter(&self) -> (limiter: &RateLimiter<S, A>)
        ensures
            *limiter == self.guard(),
    {
        &self.limiter
    }

    /// How many reverse proxies in front of the application are trusted.
    pub fn trusted_proxy_depth(&self) -> (depth: usize)
        ensures
            depth == self.policy().trusted_proxy_depth,
    {
        self.policy.trusted_proxy_depth()
    }

    /// How many requests were let through because the store failed. A growing number says that
    /// nothing is limited while the store is down.
    pub fn skip_on_error_count(&self) -> (count: u64)
        ensures
            count == self.policy().skip_on_error_count,
    {
        self.policy.skip_on_error_count()
    }

    /// How many requests were let through because they had no key. A growing number says that such
    /// requests are not limited at all.
    pub fn unkeyed_allow_count(&self) -> (count: u64)
        ensures
            count == self.policy().unkeyed_allow_count,
    {
        self.policy.unkeyed_allow_count()
    }
}

/// A request whose key is exempt is never denied, and the limiter is not asked for it.
pub proof fn law_exempt_keys_are_never_limited<S: RateLimitStore, A: TokenArithmetic>(
    before: RateLimitMiddleware<S, A>,
    after: RateLimitMiddleware<S, A>,
    info: RequestView,
    response: ResponseView,
)
    requires
        responds(before, after, info, response),
        before.policy().extractor.extracted(info) is Some,
        before.policy().bypass_keys.contains(before.policy().extractor.extracted(info)->0),
    ensures
        response == (ResponseView::Allowed { headers: None }),
        after.guard() == before.guard(),
        after.policy() == before.policy(),
{
}

/// A request without a key is let through and counted, or denied, as the policy says; the limiter
/// is not asked for it.
pub proof fn law_unkeyed_requests_follow_policy<S: RateLimitStore, A: TokenArithmetic>(
    before: RateLimitMiddleware<S, A>,
    after: RateLimitMiddleware<S, A>,
    info: RequestView,
    response: ResponseView,
)
    requires
        responds(before, after, info, response),
        before.policy().extractor.extracted(info) is None,
    ensures
        after.guard() == before.guard(),
        before.policy().unkeyed_policy == UnkeyedRequestPolicy::Allow ==> response is Allowed
            && after.policy().unkeyed_allow_count == counted(before.policy().unkeyed_allow_count),
        before.policy().unkeyed_policy == UnkeyedRequestPolicy::Deny ==> response is Limited
            && after.policy() == before.policy(),
{
}

/// Where the store fails, a request is let through and counted if the policy skips errors, and
/// denied otherwise.
pub proof fn law_store_failures_follow_policy(
    policy: PolicyView,
    answer: RateLimitResult<RateLimitCheckResult>,
)
    requires
        answer is Err,
    ensures
        policy.skip_on_error ==> policy.answered(answer).1 is Allowed && policy.answered(
            answer,
        ).0.skip_on_error_count == counted(policy.skip_on_error_count),
        !policy.skip_on_error ==> policy.answered(answer).1 is Limited && policy.answered(answer).0
            == policy,
{
}

/// Where the limiter answers, the request is allowed exactly where the limiter allows it, and
/// nothing is counted as let through.
pub proof fn law_limiter_decides(policy: PolicyView, result: RateLimitCheckResult)
    ensures
        policy.answered(Ok(result)).1 is Allowed <==> result.allowed,
        policy.answered(Ok(result)).0 == policy,
{
}

/// The counters go up by requests that were let through unchecked and by nothing else, and nothing
/// else of the policy ever changes.
pub proof fn law_counters_count_what_was_let_through<S: RateLimitStore, A: TokenArithmetic>(
    before: RateLimitMiddleware<S, A>,
    after: RateLimitMiddleware<S, A>,
    info: RequestView,
    response: ResponseView,
)
    requires
        responds(before, after, info, response),
    ensures
        after.policy() == (PolicyView {
            skip_on_error_count: after.policy().skip_on_error_count,
            unkeyed_allow_count: after.policy().unkeyed_allow_count,
            ..before.policy()
        }),
        after.policy() != before.policy() ==> response == (ResponseView::Allowed { headers: None }),
{
}

/// A denied request is replied to with the status 429, and an allowed one is handed on.
pub proof fn law_denied_requests_are_replied_to(response: ResponseView)
    ensures
        response is Limited <==> handled(response) is Reply,
        response is Limited ==> handled(response)->status == 429,
{
}

/// With the address of the client as the key, and no proxy trusted, no request has a key, whatever
/// headers it carries.
pub proof fn law_untrusted_headers_give_no_key<F: AddressFormat>(
    head: HeadView,
    address: Option<Seq<char>>,
)
    requires
        client_address::<F>(head.headers, 0, address),
    ensures
        KeyExtractor::Ip.extracted(known_of(head, KeyExtractor::Ip, address)) is None,
        KeyExtractor::IpAndPath.extracted(known_of(head, KeyExtractor::IpAndPath, address)) is None,
{
}

/// Requests that come through one trusted hop share a key: keyed by the address of the client they
/// have the same key, and keyed by the address and the path they have it where they ask for the
/// same path. Where the hop spells no address, `X-Real-IP` is read in its place, and has to be the
/// same.
pub proof fn law_shared_hop_shares_key<F: AddressFormat>(
    policy: PolicyView,
    head: HeadView,
    other: HeadView,
    info: RequestView,
    other_info: RequestView,
)
    requires
        reads_alike::<F>(),
        gathered::<F>(head, policy, info),
        gathered::<F>(other, policy, other_info),
        trusted_hop(head.headers, policy.trusted_proxy_depth as nat) is Some,
        trusted_hop(other.headers, policy.trusted_proxy_depth as nat) == trusted_hop(
            head.headers,
            policy.trusted_proxy_depth as nat,
        ),
        reads::<F>(trusted_hop(head.headers, policy.trusted_proxy_depth as nat)->0, None)
            ==> first_header(head.headers, "x-real-ip"@) == first_header(
            other.headers,
            "x-real-ip"@,
        ),
    ensures
        policy.extractor is Ip ==> policy.extractor.extracted(info) == policy.extractor.extracted(
            other_info,
        ),
        policy.extractor is IpAndPath && before_query(head.target) == before_query(other.target)
            ==> policy.extractor.extracted(info) == policy.extractor.extracted(other_info),
        policy.extractor is Ip ==> policy.decided(info) == policy.decided(other_info),
{
    law_shared_hop_shares_address::<F>(
        head.headers,
        other.headers,
        policy.trusted_proxy_depth as nat,
        info.ip,
        other_info.ip,
    );
}

/// A client that is keyed by its address cannot get another key by writing hops of its own to the
/// left of those that trusted proxies append.
pub proof fn law_forged_hops_give_no_new_key<F: AddressFormat>(
    policy: PolicyView,
    head: HeadView,
    other: HeadView,
    info: RequestView,
    other_info: RequestView,
    forged: Seq<char>,
    other_forged: Seq<char>,
    appended: Seq<char>,
)
    requires
        reads_alike::<F>(),
        policy.extractor is Ip,
        gathered::<F>(head, policy, info),
        gathered::<F>(other, policy, other_info),
        0 < policy.trusted_proxy_depth <= comma_list(appended).len(),
        first_header(head.headers, "x-forwarded-for"@) == Some(forged.push(',') + appended),
        first_header(other.headers, "x-forwarded-for"@) == Some(
            other_forged.push(',') + appended,
        ),
        reads::<F>(hop_at(appended, policy.trusted_proxy_depth as nat)->0, None) ==> first_header(
            head.headers,
            "x-real-ip"@,
        ) == first_header(other.headers, "x-real-ip"@),
    ensures
        policy.extractor.extracted(info) == policy.extractor.extracted(other_info),
        policy.decided(info) == policy.decided(other_info),
{
    let depth = policy.trusted_proxy_depth as nat;
    law_forged_hops_do_not_matter(forged, appended, depth);
    law_forged_hops_do_not_matter(other_forged, appended, depth);
    law_shared_hop_shares_key::<F>(policy, head, other, info, other_info);
}

} // verus!
