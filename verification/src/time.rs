//! Points in time and the spans between them, to the nanosecond.
use vstd::prelude::*;

verus! {

/// The first second that the calendar holds, counted from the Unix epoch.
pub const MIN_SECS: i64 = -8_334_601_228_800;

/// The last second that the calendar holds, counted from the Unix epoch.
pub const MAX_SECS: i64 = 8_210_266_876_799;

/// The longest span in whole seconds, in either direction.
pub const MAX_SPAN_SECS: i64 = 9_223_372_036_854_775;

/// A point in time in UTC: whole seconds since the Unix epoch, and the nanoseconds
/// past them.
#[derive(Clone, Copy, Debug, PartialEq, Eq, Structural)]
pub struct Timestamp {
    pub secs: i64,
    pub nanos: u32,
}

/// A span of time, positive or negative: whole seconds, rounded towards zero, and
/// the nanoseconds left over, with the same sign.
#[derive(Clone, Copy, Debug, PartialEq, Eq, Structural)]
pub struct Span {
    pub secs: i64,
    pub nanos: i32,
}

/// How long to wait.
#[derive(Clone, Copy, Debug, PartialEq, Eq, Structural)]
pub struct Pause {
    pub secs: u64,
    pub nanos: u32,
}

impl Timestamp {
    /// The nanoseconds stay below a second and the seconds within the calendar.
    pub open spec fn wf(self) -> bool {
        MIN_SECS <= self.secs <= MAX_SECS && self.nanos < 1_000_000_000
    }

    /// Nanoseconds since the Unix epoch.
    pub open spec fn total(self) -> int {
        self.secs * 1_000_000_000 + self.nanos
    }
}

impl Default for Timestamp {
    /// The Unix epoch, which stands for a lease that does not expire.
    fn default() -> (r: Timestamp)
        ensures
            r == (Timestamp { secs: 0, nanos: 0 }),
    {
        Timestamp { secs: 0, nanos: 0 }
    }
}

impl Span {
    /// The parts agree in sign.
    pub open spec fn wf(self) -> bool {
        &&& -1_000_000_000 < self.nanos < 1_000_000_000
        &&& self.secs > 0 ==> self.nanos >= 0
        &&& self.secs < 0 ==> self.nanos <= 0
    }

    /// The span in nanoseconds.
    pub open spec fn total(self) -> int {
        self.secs * 1_000_000_000 + self.nanos
    }
}

impl Pause {
    /// The pause in nanoseconds.
    pub open spec fn total(self) -> int {
        self.secs * 1_000_000_000 + self.nanos
    }
}

/// Whether a span of so many nanoseconds can be held: at most the number of
/// milliseconds that fit a 64-bit signed integer.
pub open spec fn span_in_range(nanos: int) -> bool {
    -9_223_372_036_854_775_807 * 1_000_000 <= nanos <= 9_223_372_036_854_775_807 * 1_000_000
}

/// Whether the time `secs` seconds after `at` is within the calendar.
pub open spec fn seconds_later_in_range(at: Timestamp, secs: i64) -> bool {
    at.wf() && MIN_SECS <= at.secs + secs <= MAX_SECS
}

/// The time `secs` seconds after `at`.
pub open spec fn seconds_later(at: Timestamp, secs: i64) -> Timestamp {
    Timestamp { secs: (at.secs + secs) as i64, nanos: at.nanos }
}

/// `chrono::DateTime<Utc> + chrono::TimeDelta::seconds(..)`: moves the point in
/// time by whole seconds and keeps the nanoseconds.
#[verifier::external_body]
fn chrono_add_seconds(at: Timestamp, secs: i64) -> (r: Timestamp)
    requires
        seconds_later_in_range(at, secs),
    ensures
        r == seconds_later(at, secs),
{
    let from = chrono::DateTime::<chrono::Utc>::from_timestamp(at.secs, at.nanos).unwrap();
    let to = from + chrono::TimeDelta::seconds(secs);
    Timestamp { secs: to.timestamp(), nanos: to.timestamp_subsec_nanos() }
}

/// `chrono::DateTime<Utc> - chrono::DateTime<Utc>`: the span from the second point
/// in time to the first.
#[verifier::external_body]
fn chrono_since(later: Timestamp, earlier: Timestamp) -> (r: Span)
    requires
        later.wf(),
        earlier.wf(),
    ensures
        r.wf(),
        r.total() == later.total() - earlier.total(),
{
    let to = chrono::DateTime::<chrono::Utc>::from_timestamp(later.secs, later.nanos).unwrap();
    let from = chrono::DateTime::<chrono::Utc>::from_timestamp(earlier.secs, earlier.nanos).unwrap();
    let span = to - from;
    Span { secs: span.num_seconds(), nanos: span.subsec_nanos() }
}

/// `chrono::TimeDelta - chrono::TimeDelta::minutes(..)`: the span shortened by whole
/// minutes.
#[verifier::external_body]
fn chrono_minus_minutes(span: Span, minutes: i64) -> (r: Span)
    requires
        span.wf(),
        span_in_range(span.total()),
        -MAX_SPAN_SECS <= minutes * 60 <= MAX_SPAN_SECS,
        span_in_range(span.total() - minutes * 60 * 1_000_000_000),
    ensures
        r.wf(),
        r.total() == span.total() - minutes * 60 * 1_000_000_000,
{
    let whole = chrono::TimeDelta::seconds(span.secs);
    let part = chrono::TimeDelta::nanoseconds(span.nanos as i64);
    let left = whole + part - chrono::TimeDelta::minutes(minutes);
    Span { secs: left.num_seconds(), nanos: left.subsec_nanos() }
}

/// Whether the time `secs` seconds after `at` is within the calendar.
pub fn expiry_in_range(at: Timestamp, secs: i64) -> (r: bool)
    ensures
        r == seconds_later_in_range(at, secs),
{
    let sum: i128 = at.secs as i128 + secs as i128;
    at.secs >= MIN_SECS && at.secs <= MAX_SECS && at.nanos < 1_000_000_000 && sum
        >= MIN_SECS as i128 && sum <= MAX_SECS as i128
}

/// When something that lives for `ttl` seconds from `now` expires.
pub fn expiry(now: Timestamp, ttl: i64) -> (r: Timestamp)
    requires
        seconds_later_in_range(now, ttl),
    ensures
        r == seconds_later(now, ttl),
        r.wf(),
{
    chrono_add_seconds(now, ttl)
}

/// Whether a margin of so many minutes can be taken off the time that is left from
/// `now` until `expiration`.
pub open spec fn margin_in_range(expiration: Timestamp, now: Timestamp, minutes: i64) -> bool {
    &&& expiration.wf()
    &&& now.wf()
    &&& -MAX_SPAN_SECS <= minutes * 60 <= MAX_SPAN_SECS
    &&& span_in_range(expiration.total() - now.total() - minutes * 60 * 1_000_000_000)
}

/// Whether a margin of so many minutes can be taken off the time that is left from
/// `now` until `expiration`.
pub fn margin_fits(expiration: Timestamp, now: Timestamp, minutes: i64) -> (r: bool)
    ensures
        r == margin_in_range(expiration, now, minutes),
{
    if !expiry_in_range(expiration, 0) || !expiry_in_range(now, 0) {
        return false;
    }
    let margin: i128 = minutes as i128 * 60;
    let left: i128 = (expiration.secs as i128 - now.secs as i128 - margin) * 1_000_000_000
        + expiration.nanos as i128 - now.nanos as i128;
    let longest: i128 = 9_223_372_036_854_775_807_000_000;
    margin >= -(MAX_SPAN_SECS as i128) && margin <= MAX_SPAN_SECS as i128 && left >= -longest
        && left <= longest
}

/// How long it is until `minutes` minutes before `expiration`; nothing where that
/// moment has passed.
pub fn time_until(expiration: Timestamp, now: Timestamp, minutes: i64) -> (r: Pause)
    requires
        margin_in_range(expiration, now, minutes),
    ensures
        r.nanos < 1_000_000_000,
        r.total() == ({
            let left = expiration.total() - now.total() - minutes * 60 * 1_000_000_000;
            if left < 0 {
                0
            } else {
                left
            }
        }),
{
    let left: Span = chrono_since(expiration, now);
    let left: Span = chrono_minus_minutes(left, minutes);
    if left.secs < 0 || left.nanos < 0 {
        Pause { secs: 0, nanos: 0 }
    } else {
        Pause { secs: left.secs as u64, nanos: left.nanos as u32 }
    }
}

} // verus!
