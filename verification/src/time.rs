//! Spans of time and the clocks they are read from.
//!
//! Every instant that the limiters remember is a number of nanoseconds since the limiter was
//! made, read off the monotonic clock. Reset times are seconds since the Unix epoch, read off
//! the system clock.

use std::time::{Duration, Instant, SystemTime, SystemTimeError};
use vstd::prelude::*;

verus! {

/// Nanoseconds in a second.
pub const NANOS_PER_SEC: u128 = 1_000_000_000;

/// Nanoseconds in a millisecond.
pub const NANOS_PER_MILLI: u128 = 1_000_000;

/// The longest span that a `Duration` can hold, in nanoseconds.
pub const MAX_NANOS: u128 = 18_446_744_073_709_551_615_999_999_999;

/// `std::time::Instant`, a reading of the monotonic clock. Opaque: it is only carried.
#[verifier::external_type_specification]
#[verifier::external_body]
pub struct ExInstant(Instant);

/// `std::time::SystemTime`, a reading of the system clock. Opaque: it is only carried.
#[verifier::external_type_specification]
#[verifier::external_body]
pub struct ExSystemTime(SystemTime);

/// `std::time::SystemTimeError`, the error of a reading that lies before the epoch. Opaque.
#[verifier::external_type_specification]
#[verifier::external_body]
pub struct ExSystemTimeError(SystemTimeError);

/// The length of a span in nanoseconds, as `Duration::as_nanos` counts it.
pub uninterp spec fn duration_nanos(span: Duration) -> nat;

/// The text of a span of so many nanoseconds, as `{:?}` renders a `Duration`.
pub uninterp spec fn duration_text(nanos: nat) -> Seq<char>;

/// `Duration::as_nanos`: the whole span in nanoseconds, at most `Duration::MAX`.
pub assume_specification[ Duration::as_nanos ](span: &Duration) -> (nanos: u128)
    ensures
        nanos == duration_nanos(*span),
        nanos <= MAX_NANOS,
;

/// `Duration::as_millis`: the whole milliseconds of the span, at most those of `Duration::MAX`.
pub assume_specification[ Duration::as_millis ](span: &Duration) -> (millis: u128)
    ensures
        millis == duration_nanos(*span) / NANOS_PER_MILLI as nat,
        millis <= MAX_NANOS / NANOS_PER_MILLI,
;

/// `Duration::as_secs`: the whole seconds of the span.
pub assume_specification[ Duration::as_secs ](span: &Duration) -> (secs: u64)
    ensures
        secs == duration_nanos(*span) / NANOS_PER_SEC as nat,
;

/// `Duration::is_zero`: whether the span is empty.
pub assume_specification[ Duration::is_zero ](span: &Duration) -> (zero: bool)
    ensures
        zero == (duration_nanos(*span) == 0),
;

/// `Duration::from_secs`: a span of so many seconds.
pub assume_specification[ Duration::from_secs ](secs: u64) -> (span: Duration)
    ensures
        duration_nanos(span) == secs * NANOS_PER_SEC,
;

/// `Duration::from_millis`: a span of so many milliseconds.
pub assume_specification[ Duration::from_millis ](millis: u64) -> (span: Duration)
    ensures
        duration_nanos(span) == millis * NANOS_PER_MILLI,
;

/// `Duration::new`: a span of seconds and nanoseconds. It panics only where the nanoseconds
/// carry into seconds that are already at their maximum, which a proper fraction never does.
pub assume_specification[ Duration::new ](secs: u64, nanos: u32) -> (span: Duration)
    requires
        nanos < NANOS_PER_SEC,
    ensures
        duration_nanos(span) == secs * NANOS_PER_SEC + nanos,
;

/// `Instant::now`: the monotonic clock, now. Nothing is said of the reading.
pub assume_specification[ Instant::now ]() -> (instant: Instant);

/// `Instant::elapsed`: the time since the instant was read. Nothing is said of how long it is.
pub assume_specification[ Instant::elapsed ](since: &Instant) -> (span: Duration);

/// `SystemTime::now`: the system clock, now. Nothing is said of the reading.
pub assume_specification[ SystemTime::now ]() -> (reading: SystemTime);

/// `SystemTime::duration_since` the Unix epoch: an error where the reading lies before it.
/// Nothing is said of how long the span is, since it rests on how the clock is set.
#[verifier::external_body]
fn since_epoch(reading: SystemTime) -> (span: Result<Duration, SystemTimeError>)
{
    reading.duration_since(std::time::UNIX_EPOCH)
}

/// `{:?}` on a `Duration`: the text that std renders for the span. It is a function of the length
/// of the span alone; which digits and which unit it shows is left to std.
#[verifier::external_body]
pub(crate) fn debug_text(span: &Duration) -> (text: String)
    ensures
        text@ == duration_text(duration_nanos(*span)),
{
    format!("{:?}", span)
}

/// Whether `span` is a reading of the system clock: what [`since_epoch`] returned for what
/// `SystemTime::now` returned, or nothing where that was an error.
pub closed spec fn clock_read(span: Option<Duration>) -> bool {
    exists|reading: SystemTime, since: Result<Duration, SystemTimeError>|
        #![trigger call_ensures(since_epoch, (reading,), since)]
        call_ensures(SystemTime::now, (), reading) && call_ensures(since_epoch, (reading,), since)
            && span == match since {
            Ok(span) => Some(span),
            Err(_) => None,
        }
}

/// The time since the Unix epoch, or nothing where the system clock stands before it.
pub(crate) fn unix_time() -> (span: Option<Duration>)
    ensures
        clock_read(span),
{
    match since_epoch(SystemTime::now()) {
        Ok(span) => Some(span),
        Err(_) => None,
    }
}

/// The span of so many nanoseconds.
pub fn span_of(nanos: u128) -> (span: Duration)
    requires
        nanos <= MAX_NANOS,
    ensures
        duration_nanos(span) == nanos,
{
    Duration::new((nanos / NANOS_PER_SEC) as u64, (nanos % NANOS_PER_SEC) as u32)
}

/// Whether a clock that was started at `origin` says `now`, in nanoseconds: whether that is what
/// `Instant::elapsed` returned for it.
pub open spec fn clock_says(origin: Instant, now: u128) -> bool {
    exists|reading: Duration| #[trigger]
        call_ensures(Instant::elapsed, (&origin,), reading) && now == duration_nanos(reading)
}

/// Reads a clock that was started at `origin`, in nanoseconds.
pub(crate) fn read_clock(origin: &Instant) -> (now: u128)
    ensures
        clock_says(*origin, now),
{
    let reading = origin.elapsed();
    assert(call_ensures(Instant::elapsed, (origin,), reading));
    reading.as_nanos()
}

/// Whether an instant was read off the monotonic clock: whether it is what `Instant::now` returned.
pub open spec fn clock_started(origin: Instant) -> bool {
    call_ensures(Instant::now, (), origin)
}

/// How long after `start` the instant `now` lies, and zero where it lies before.
pub open spec fn elapsed_nanos(start: u128, now: u128) -> u128 {
    if now >= start {
        (now - start) as u128
    } else {
        0
    }
}

/// Computes [`elapsed_nanos`].
pub fn elapsed_between(start: u128, now: u128) -> (nanos: u128)
    ensures
        nanos == elapsed_nanos(start, now),
{
    if now >= start {
        now - start
    } else {
        0
    }
}

/// What a clock says is what `Instant::elapsed` returned for its start, to the nanosecond.
pub proof fn law_clock_says_what_has_elapsed(origin: Instant, now: u128) -> (reading: Duration)
    requires
        clock_says(origin, now),
    ensures
        call_ensures(Instant::elapsed, (&origin,), reading),
        duration_nanos(reading) == now,
{
    choose|reading: Duration| #[trigger]
        call_ensures(Instant::elapsed, (&origin,), reading) && now == duration_nanos(reading)
}

/// What the system clock was read as is what `SystemTime::now` returned, as a span since the Unix
/// epoch where it does not lie before that.
proof fn law_system_clock_is_read_as_it_is(span: Option<Duration>) -> (read: (
    SystemTime,
    Result<Duration, SystemTimeError>,
))
    requires
        clock_read(span),
    ensures
        call_ensures(SystemTime::now, (), read.0),
        call_ensures(since_epoch, (read.0,), read.1),
        read.1 is Ok ==> span == Some(read.1->Ok_0),
        read.1 is Err ==> span is None,
{
    let (reading, since) = choose|
        reading: SystemTime,
        since: Result<Duration, SystemTimeError>,
    |
        #![trigger call_ensures(since_epoch, (reading,), since)]
        call_ensures(SystemTime::now, (), reading) && call_ensures(since_epoch, (reading,), since)
            && span == match since {
            Ok(span) => Some(span),
            Err(_) => None,
        };
    (reading, since)
}

} // verus!
