//! The Redis store, shared between instances.
//!
//! What the store asks the server for, and what it makes of the replies. The operations themselves
//! run on the server, as scripts, so that they are atomic; sending them and waiting for the replies
//! is up to the caller.

use crate::error::{RateLimitError, RateLimitResult};
use crate::text::{
    chars_of, colon_joined, decimal, decimal_text, is_digit, is_digits, join_colon, texts,
};
use crate::time::{duration_nanos, NANOS_PER_MILLI, NANOS_PER_SEC};
use crate::tokens::{whole_part, whole_tokens};
use std::time::Duration;
use vstd::prelude::*;
use vstd::string::*;

verus! {

/// How many seconds an operation may take, unless the store is told otherwise.
pub const DEFAULT_OPERATION_TIMEOUT_SECS: u64 = 3;

/// How many seconds a key outlives its window on the server.
pub const TTL_SLACK_SECS: u64 = 10;

/// Milliseconds in a second.
pub const MILLIS_PER_SEC: u64 = 1000;

/// A Redis store, as contracts speak of it.
#[verifier::ext_equal]
pub struct RedisView {
    /// Where the server is.
    pub url: Seq<char>,
    /// What every key on the server starts with.
    pub prefix: Seq<char>,
    /// How long an operation may take, in nanoseconds.
    pub operation_timeout: nat,
}

impl RedisView {
    /// The key on the server with the given suffix.
    pub open spec fn key_of(self, suffix: Seq<char>) -> Seq<char> {
        colon_joined(self.prefix, suffix)
    }

    /// The counter of the fixed window with the given number.
    pub open spec fn window_key(self, key: Seq<char>, window_id: nat) -> Seq<char> {
        self.key_of(colon_joined("fw:"@ + key, decimal(window_id)))
    }

    /// What the counters of all fixed windows of the key start with.
    pub open spec fn window_head(self, key: Seq<char>) -> Seq<char> {
        self.key_of("fw:"@ + key).push(':')
    }

    /// The pattern of the keys on the server that start like the counters of the key.
    pub open spec fn window_pattern(self, key: Seq<char>) -> Seq<char> {
        escaped(self.window_head(key)).push('*')
    }

    /// Whether a key on the server is the counter of a fixed window of the key.
    pub open spec fn is_counter_of(self, key: Seq<char>, full: Seq<char>) -> bool {
        let head = self.window_head(key);
        head.is_prefix_of(full) && is_digits(full.skip(head.len() as int))
    }

    /// Those of some keys on the server that are counters of fixed windows of the key.
    pub open spec fn counters_among(self, key: Seq<char>, found: Seq<Seq<char>>) -> Seq<Seq<char>>
        decreases found.len(),
    {
        if found.len() == 0 {
            Seq::empty()
        } else {
            let earlier = self.counters_among(key, found.drop_last());
            if self.is_counter_of(key, found.last()) {
                earlier.push(found.last())
            } else {
                earlier
            }
        }
    }

    /// The keys on the server that hold the state of the key, but for the counters of its fixed
    /// windows.
    pub open spec fn state_keys(self, key: Seq<char>) -> Seq<Seq<char>> {
        seq![
            self.key_of("tb:"@ + key),
            self.key_of("sw:"@ + key),
            self.key_of("swmax:"@ + key),
            self.key_of("swseq:"@ + key),
            self.key_of("fwmax:"@ + key),
            self.key_of("fwcur:"@ + key),
        ]
    }
}

/// Whether a character means something other than itself in a pattern.
pub open spec fn is_special(c: char) -> bool {
    c == '*' || c == '?' || c == '[' || c == ']' || c == '\\'
}

/// The pattern that matches a text and nothing else: each special character has a backslash before
/// it.
pub open spec fn escaped(text: Seq<char>) -> Seq<char>
    decreases text.len(),
{
    if text.len() == 0 {
        Seq::empty()
    } else if is_special(text.first()) {
        seq!['\\', text.first()] + escaped(text.drop_first())
    } else {
        seq![text.first()] + escaped(text.drop_first())
    }
}

/// The one text that a pattern matches: a backslash takes the meaning from the character after it,
/// and any other character stands for itself. A pattern with a special character that has kept its
/// meaning stands for no single text.
pub open spec fn literal_of(pattern: Seq<char>) -> Option<Seq<char>>
    decreases pattern.len(),
{
    if pattern.len() == 0 {
        Some(Seq::empty())
    } else if pattern[0] == '\\' && pattern.len() > 1 {
        match literal_of(pattern.skip(2)) {
            Some(rest) => Some(seq![pattern[1]] + rest),
            None => None,
        }
    } else if is_special(pattern[0]) {
        None
    } else {
        match literal_of(pattern.skip(1)) {
            Some(rest) => Some(seq![pattern[0]] + rest),
            None => None,
        }
    }
}

/// Computes [`escaped`].
pub fn escape(text: &str) -> (pattern: String)
    ensures
        pattern@ == escaped(text@),
{
    let chars = chars_of(text);
    let mut pattern = String::new();
    let mut i: usize = 0;
    assert(chars@.skip(0) =~= text@);
    assert(Seq::<char>::empty() + escaped(text@) =~= escaped(text@));
    while i < chars.len()
        invariant
            i <= chars@.len(),
            pattern@ + escaped(chars@.skip(i as int)) == escaped(text@),
        decreases chars@.len() - i,
    {
        let c = chars[i];
        let ghost before = pattern@;
        let ghost rest = chars@.skip(i as int);
        assert(rest.drop_first() =~= chars@.skip(i + 1));
        if c == '*' || c == '?' || c == '[' || c == ']' || c == '\\' {
            pattern.push('\\');
        }
        pattern.push(c);
        assert(pattern@ + escaped(chars@.skip(i + 1)) =~= before + escaped(rest));
        i += 1;
    }
    assert(pattern@ + Seq::<char>::empty() =~= pattern@);
    pattern
}

/// Whole milliseconds of a span, in 64 bits.
pub open spec fn millis_of(span: Duration) -> u64 {
    (duration_nanos(span) / NANOS_PER_MILLI as nat) as u64
}

/// Whole milliseconds of a window, at least one.
pub open spec fn window_millis(window: Duration) -> u64 {
    if millis_of(window) < 1 {
        1
    } else {
        millis_of(window)
    }
}

/// After how many seconds the server forgets the counter of a window of so many milliseconds: the
/// window, rounded up to seconds, and some slack.
pub open spec fn counter_ttl(window_ms: u64) -> int {
    (window_ms + MILLIS_PER_SEC - 1) / MILLIS_PER_SEC as int + TTL_SLACK_SECS
}

/// What the sliding window operation is told.
pub struct SlidingRequest {
    /// The key of the log.
    pub key: String,
    /// The key under which the limit is kept.
    pub limit_key: String,
    /// The key of the counter that tells requests in the same millisecond apart.
    pub sequence_key: String,
    /// How many requests are allowed in a window.
    pub max_requests: u64,
    /// The time of the request, in milliseconds since the Unix epoch.
    pub now: i64,
    /// The time up to which logged requests are dropped, in milliseconds since the Unix epoch.
    pub cutoff: i64,
    /// The whole seconds of the window.
    pub window_secs: u64,
}

/// What the fixed window operation is told.
pub struct FixedRequest {
    /// The key of the counter.
    pub key: String,
    /// The key under which the limit is kept.
    pub limit_key: String,
    /// The key under which the number of the current window is kept.
    pub current_key: String,
    /// How many requests are allowed per window.
    pub max_requests: u64,
    /// The number of the window, counted from the Unix epoch.
    pub window_id: u64,
    /// After how many seconds the server forgets the counter.
    pub ttl_secs: i64,
}

/// What to read next in order to know how many requests remain, or the answer.
pub enum RemainingStep {
    /// Read the token level of a bucket.
    Tokens {
        /// The key of the bucket.
        key: String,
    },
    /// Read the number of the current fixed window and the two limits.
    Pointers {
        /// The key under which the number of the current fixed window is kept.
        current_key: String,
        /// The key under which the limit of the fixed window is kept.
        limit_key: String,
        /// The key under which the limit of the sliding window is kept.
        log_limit_key: String,
    },
    /// Read the counter of a fixed window.
    WindowCount {
        /// The key of the counter.
        key: String,
        /// The limit of the window.
        limit: u64,
    },
    /// Count the entries of a log.
    LogCount {
        /// The key of the log.
        key: String,
        /// The limit of the window.
        limit: u64,
    },
    /// So many requests remain.
    Known(u64),
}

/// What a step of a sweep over the keys of the server comes to.
pub struct SweepStep {
    /// The keys to be removed.
    pub remove: Vec<String>,
    /// Where to go on, or nothing where the sweep is complete.
    pub next: Option<u64>,
}

/// What a Redis store was told.
pub struct RedisStore {
    url: String,
    prefix: String,
    operation_timeout: Duration,
}

impl View for RedisStore {
    type V = RedisView;

    closed spec fn view(&self) -> RedisView {
        RedisView {
            url: self.url@,
            prefix: self.prefix@,
            operation_timeout: duration_nanos(self.operation_timeout),
        }
    }
}

impl RedisStore {
    /// A store on the given server, with keys that start with `ratelimit`.
    pub fn new(url: &str) -> (store: RedisStore)
        ensures
            store@ == (RedisView {
                url: url@,
                prefix: "ratelimit"@,
                operation_timeout: (DEFAULT_OPERATION_TIMEOUT_SECS * NANOS_PER_SEC) as nat,
            }),
    {
        RedisStore {
            url: url.to_owned(),
            prefix: "ratelimit".to_owned(),
            operation_timeout: Duration::from_secs(DEFAULT_OPERATION_TIMEOUT_SECS),
        }
    }

    /// A store on the given server, with keys that start with the given prefix.
    pub fn with_prefix(url: &str, prefix: &str) -> (store: RedisStore)
        ensures
            store@ == (RedisView {
                url: url@,
                prefix: prefix@,
                operation_timeout: (DEFAULT_OPERATION_TIMEOUT_SECS * NANOS_PER_SEC) as nat,
            }),
    {
        let mut store = RedisStore::new(url);
        store.prefix = prefix.to_owned();
        store
    }

    /// Sets how long an operation may take.
    pub fn with_operation_timeout(self, timeout: Duration) -> (store: RedisStore)
        ensures
            store@ == (RedisView { operation_timeout: duration_nanos(timeout), ..self@ }),
    {
        let mut store = self;
        store.operation_timeout = timeout;
        store
    }

    /// Where the server is.
    pub fn url(&self) -> (url: &str)
        ensures
            url@ == self@.url,
    {
        self.url.as_str()
    }

    /// How long an operation may take.
    pub fn operation_timeout(&self) -> (timeout: Duration)
        ensures
            duration_nanos(timeout) == self@.operation_timeout,
    {
        self.operation_timeout
    }

    /// The key on the server with the given suffix.
    pub fn key(&self, suffix: &str) -> (key: String)
        ensures
            key@ == self@.key_of(suffix@),
    {
        join_colon(self.prefix.as_str(), suffix)
    }

    /// The key on the server whose suffix is a tag and a key.
    fn tagged_key(&self, tag: &str, key: &str) -> (full: String)
        ensures
            full@ == self@.key_of(tag@ + key@),
    {
        let mut suffix = tag.to_owned();
        suffix.append(key);
        self.key(suffix.as_str())
    }

    /// The counter of the fixed window with the given number.
    pub fn window_key(&self, key: &str, window_id: u64) -> (full: String)
        ensures
            full@ == self@.window_key(key@, window_id as nat),
    {
        let mut suffix = "fw:".to_owned();
        suffix.append(key);
        let suffix = join_colon(suffix.as_str(), decimal_text(window_id).as_str());
        self.key(suffix.as_str())
    }

    /// The key of the bucket that the token bucket operation works on.
    pub fn bucket_key(&self, key: &str) -> (full: String)
        ensures
            full@ == self@.key_of("tb:"@ + key@),
    {
        self.tagged_key("tb:", key)
    }

    /// What the sliding window operation is told of a request at `now`, the time since the Unix
    /// epoch. A cutoff that does not fit in 64 bits wraps around.
    pub fn sliding_request(
        &self,
        key: &str,
        max_requests: u64,
        window: Duration,
        now: Duration,
    ) -> (request: SlidingRequest)
        ensures
            request.key@ == self@.key_of("sw:"@ + key@),
            request.limit_key@ == self@.key_of("swmax:"@ + key@),
            request.sequence_key@ == self@.key_of("swseq:"@ + key@),
            request.max_requests == max_requests,
            request.now == (duration_nanos(now) / NANOS_PER_MILLI as nat) as i64,
            request.cutoff == wrapped_difference(
                request.now,
                (duration_nanos(window) / NANOS_PER_MILLI as nat) as i64,
            ),
            request.window_secs == duration_nanos(window) / NANOS_PER_SEC as nat,
    {
        let window_ms: i64 = window.as_millis() as i64;
        let now_ms: i64 = now.as_millis() as i64;
        SlidingRequest {
            key: self.tagged_key("sw:", key),
            limit_key: self.tagged_key("swmax:", key),
            sequence_key: self.tagged_key("swseq:", key),
            max_requests,
            now: now_ms,
            cutoff: now_ms.wrapping_sub(window_ms),
            window_secs: window.as_secs(),
        }
    }

    /// What the fixed window operation is told of a request at `now`, the time since the Unix
    /// epoch. The counter outlives its window, rounded up to seconds, by ten seconds.
    pub fn fixed_request(
        &self,
        key: &str,
        max_requests: u64,
        window: Duration,
        now: Duration,
    ) -> (request: FixedRequest)
        ensures
            request.window_id == millis_of(now) / window_millis(window),
            request.key@ == self@.window_key(key@, request.window_id as nat),
            request.limit_key@ == self@.key_of("fwmax:"@ + key@),
            request.current_key@ == self@.key_of("fwcur:"@ + key@),
            request.max_requests == max_requests,
            request.ttl_secs == counter_ttl(window_millis(window)),
    {
        let whole_ms: u64 = window.as_millis() as u64;
        let window_ms: u64 = if whole_ms < 1 {
            1
        } else {
            whole_ms
        };
        let now_ms: u64 = now.as_millis() as u64;
        let window_id: u64 = now_ms / window_ms;
        let window_secs: u64 = (window_ms - 1) / MILLIS_PER_SEC + 1;
        FixedRequest {
            key: self.window_key(key, window_id),
            limit_key: self.tagged_key("fwmax:", key),
            current_key: self.tagged_key("fwcur:", key),
            max_requests,
            window_id,
            ttl_secs: (window_secs + TTL_SLACK_SECS) as i64,
        }
    }

    /// The keys to remove where a key is reset, but for the counters of its fixed windows.
    pub fn reset_keys(&self, key: &str) -> (keys: Vec<String>)
        ensures
            texts(keys@) == self@.state_keys(key@),
    {
        let mut keys: Vec<String> = Vec::new();
        keys.push(self.tagged_key("tb:", key));
        keys.push(self.tagged_key("sw:", key));
        keys.push(self.tagged_key("swmax:", key));
        keys.push(self.tagged_key("swseq:", key));
        keys.push(self.tagged_key("fwmax:", key));
        keys.push(self.tagged_key("fwcur:", key));
        assert(texts(keys@) =~= self@.state_keys(key@));
        keys
    }

    /// What the counters of all fixed windows of the key start with.
    fn window_head(&self, key: &str) -> (head: String)
        ensures
            head@ == self@.window_head(key@),
    {
        let mut head = self.tagged_key("fw:", key);
        head.push(':');
        head
    }

    /// The pattern of the keys to sweep where a key is reset. Whatever is special in the prefix or
    /// in the key is escaped.
    pub fn reset_pattern(&self, key: &str) -> (pattern: String)
        ensures
            pattern@ == self@.window_pattern(key@),
    {
        let mut pattern = escape(self.window_head(key).as_str());
        pattern.push('*');
        pattern
    }

    /// Whether a key on the server is the counter of a fixed window of the key.
    pub fn is_counter_of(&self, key: &str, full: &str) -> (own: bool)
        ensures
            own == self@.is_counter_of(key@, full@),
    {
        let head = chars_of(self.window_head(key).as_str());
        let chars = chars_of(full);
        if chars.len() <= head.len() {
            return false;
        }
        let mut i: usize = 0;
        while i < head.len()
            invariant
                i <= head@.len() < chars@.len(),
                head@ == self@.window_head(key@),
                chars@ == full@,
                head@.take(i as int) == chars@.take(i as int),
            decreases head@.len() - i,
        {
            if chars[i] != head[i] {
                proof {
                    assert(full@.take(head@.len() as int)[i as int] != head@[i as int]);
                }
                return false;
            }
            assert(head@.take(i + 1) =~= chars@.take(i + 1));
            i += 1;
        }
        assert(head@.take(i as int) =~= head@);
        while i < chars.len()
            invariant
                head@.len() <= i <= chars@.len(),
                head@ == self@.window_head(key@),
                chars@ == full@,
                head@.len() < chars@.len(),
                head@.is_prefix_of(full@),
                forall|j: int| head@.len() <= j < i ==> is_digit(#[trigger] chars@[j]),
            decreases chars@.len() - i,
        {
            let code: u32 = chars[i] as u32;
            if code < 48 || code > 57 {
                proof {
                    assert(!is_digit(full@.skip(head@.len() as int)[i - head@.len()]));
                }
                return false;
            }
            i += 1;
        }
        true
    }

    /// What to do once the server replied to a step of a sweep for a key with some keys and a
    /// cursor: those that are counters of the key are removed, and a cursor of zero says that the
    /// sweep is complete.
    pub fn sweep_step(&self, key: &str, cursor: u64, found: &Vec<String>) -> (step: SweepStep)
        ensures
            texts(step.remove@) == self@.counters_among(key@, texts(found@)),
            step.next == if cursor == 0 {
                None
            } else {
                Some(cursor)
            },
    {
        let mut remove: Vec<String> = Vec::new();
        let mut i: usize = 0;
        assert(texts(found@).take(0) =~= Seq::empty());
        assert(texts(remove@) =~= Seq::empty());
        while i < found.len()
            invariant
                i <= found@.len(),
                texts(remove@) == self@.counters_among(key@, texts(found@).take(i as int)),
            decreases found@.len() - i,
        {
            let ghost before = texts(remove@);
            let ghost seen = texts(found@).take(i + 1);
            assert(seen.drop_last() =~= texts(found@).take(i as int));
            assert(seen.last() == found@[i as int]@);
            if self.is_counter_of(key, found[i].as_str()) {
                remove.push(found[i].clone());
                assert(texts(remove@) =~= before.push(found@[i as int]@));
            }
            i += 1;
        }
        assert(texts(found@).take(i as int) =~= texts(found@));
        SweepStep {
            remove,
            next: if cursor == 0 {
                None
            } else {
                Some(cursor)
            },
        }
    }

    /// What to read first in order to know how many requests remain: the token level.
    pub fn remaining_start(&self, key: &str) -> (step: RemainingStep)
        ensures
            step matches RemainingStep::Tokens { key: full } && full@ == self@.key_of(
                "tb:"@ + key@,
            ),
    {
        RemainingStep::Tokens { key: self.tagged_key("tb:", key) }
    }

    /// What to do once the token level was read: its whole part is the answer. Where there is no
    /// bucket, the windows are next.
    pub fn remaining_after_tokens(&self, key: &str, level: Option<u64>) -> (step: RemainingStep)
        ensures
            match level {
                Some(level) => step == RemainingStep::Known(whole_part(level)),
                None => step matches RemainingStep::Pointers {
                    current_key,
                    limit_key,
                    log_limit_key,
                } && current_key@ == self@.key_of("fwcur:"@ + key@) && limit_key@ == self@.key_of(
                    "fwmax:"@ + key@,
                ) && log_limit_key@ == self@.key_of("swmax:"@ + key@),
            },
    {
        match level {
            Some(level) => RemainingStep::Known(whole_tokens(level)),
            None => RemainingStep::Pointers {
                current_key: self.tagged_key("fwcur:", key),
                limit_key: self.tagged_key("fwmax:", key),
                log_limit_key: self.tagged_key("swmax:", key),
            },
        }
    }

    /// What to do once the number of the current fixed window and the limits were read: count in
    /// the fixed window where there is one, else in the log where there is one; a key that the
    /// server does not know has no requests left.
    pub fn remaining_after_pointers(
        &self,
        key: &str,
        current: Option<u64>,
        limit: Option<u64>,
        log_limit: Option<u64>,
    ) -> (step: RemainingStep)
        ensures
            match (current, limit, log_limit) {
                (Some(window_id), Some(limit), _) => step matches RemainingStep::WindowCount {
                    key: full,
                    limit: most,
                } && full@ == self@.window_key(key@, window_id as nat) && most == limit,
                (_, _, Some(limit)) => step matches RemainingStep::LogCount {
                    key: full,
                    limit: most,
                } && full@ == self@.key_of("sw:"@ + key@) && most == limit,
                _ => step == RemainingStep::Known(0),
            },
    {
        if let (Some(window_id), Some(limit)) = (current, limit) {
            return RemainingStep::WindowCount { key: self.window_key(key, window_id), limit };
        }
        match log_limit {
            Some(limit) => RemainingStep::LogCount { key: self.tagged_key("sw:", key), limit },
            None => RemainingStep::Known(0),
        }
    }

    /// The name of the store.
    pub fn store_type(&self) -> (name: &'static str)
        ensures
            name@ == "redis"@,
    {
        "redis"
    }
}

/// The difference of two numbers, wrapped around where it does not fit in 64 bits.
pub open spec fn wrapped_difference(a: i64, b: i64) -> int {
    if a - b > i64::MAX {
        a - b - 0x1_0000_0000_0000_0000
    } else if a - b < i64::MIN {
        a - b + 0x1_0000_0000_0000_0000
    } else {
        a - b
    }
}

/// How many requests remain in a fixed window with the given counter. A counter that the server has
/// forgotten counts nothing.
pub fn remaining_in_window(limit: u64, count: Option<u64>) -> (left: u64)
    ensures
        left as int == match count {
            Some(count) => if count >= limit {
                0
            } else {
                limit - count
            },
            None => limit as int,
        },
{
    limit.saturating_sub(count.unwrap_or(0))
}

/// A signed number read as an unsigned one: negative numbers come out huge.
pub open spec fn unsigned(n: i64) -> int {
    if n >= 0 {
        n as int
    } else {
        n + 0x1_0000_0000_0000_0000
    }
}

/// Computes [`unsigned`].
pub fn to_unsigned(n: i64) -> (m: u64)
    ensures
        m == unsigned(n),
{
    assert(n < 0 ==> n as u64 == n + 0x1_0000_0000_0000_0000) by (bit_vector);
    n as u64
}

/// How many requests remain in a sliding window with so many log entries.
pub fn remaining_in_log(limit: u64, count: i64) -> (left: u64)
    ensures
        left as int == if unsigned(count) >= limit {
            0
        } else {
            limit - unsigned(count)
        },
{
    limit.saturating_sub(to_unsigned(count))
}

/// What the token bucket and the sliding window operation make of a request: the server replies
/// with one where it is allowed, and with how many requests remain.
pub fn verdict_of_reply(reply: (i32, i64)) -> (verdict: (bool, u64))
    ensures
        verdict.0 == (reply.0 == 1),
        verdict.1 == unsigned(reply.1),
{
    (reply.0 == 1, to_unsigned(reply.1))
}

/// What a fixed window makes of the request that took its counter to the given number.
pub open spec fn count_verdict(count: i64, max_requests: u64) -> (bool, u64) {
    if unsigned(count) <= max_requests {
        (true, (max_requests - unsigned(count)) as u64)
    } else {
        (false, 0)
    }
}

/// What the fixed window operation makes of a request: the server replies with the counter.
pub fn verdict_of_count(count: i64, max_requests: u64) -> (verdict: (bool, u64))
    ensures
        verdict == count_verdict(count, max_requests),
{
    let count: u64 = to_unsigned(count);
    if count <= max_requests {
        (true, max_requests - count)
    } else {
        (false, 0)
    }
}

/// What an operation comes to: nothing arrived in time, or the server failed, or it replied.
pub fn operation_outcome<T>(reply: Option<Result<T, String>>) -> (outcome: RateLimitResult<T>)
    ensures
        match reply {
            None => outcome is Err && outcome->Err_0 == RateLimitError::Timeout,
            Some(Err(reason)) => outcome matches Err(RateLimitError::StoreError(told)) && told@
                == reason@,
            Some(Ok(value)) => outcome matches Ok(told) && told == value,
        },
{
    match reply {
        None => Err(RateLimitError::Timeout),
        Some(Err(reason)) => Err(RateLimitError::store(reason.as_str())),
        Some(Ok(value)) => Ok(value),
    }
}

} // verus!
