//! Instants as plain numbers, and the timestamps that serve as probe tokens.

use vstd::prelude::*;

verus! {

/// An instant on the calendar: whole seconds since the start of 1970 in UTC,
/// and the nanoseconds past that second.
#[derive(Clone, Copy, Debug, PartialEq, Eq, Structural)]
pub struct Instant {
    pub secs: i64,
    pub nanos: u32,
}

/// What the two clocks of the machine show at one moment. The monotonic clock
/// counts nanoseconds from an arbitrary start and never runs backwards; it
/// measures silence. The calendar clock stamps the probes.
#[derive(Clone, Copy, Debug, PartialEq, Eq, Structural)]
pub struct Clock {
    pub monotonic: u64,
    pub calendar: Instant,
}

pub const NANOS_PER_SEC: u64 = 1_000_000_000;

/// The nanoseconds from `from` to `to`; negative where `to` is the earlier.
/// An instant within a leap second has a billion nanoseconds or more, and
/// they count as time past the start of its second.
pub open spec fn nanos_between(from: Instant, to: Instant) -> int {
    (to.secs - from.secs) * 1_000_000_000 + (to.nanos - from.nanos)
}

/// The time a probe took that was stamped `sent` and whose answer arrived at
/// `now`, in nanoseconds: none if the stamp lies in the future, and the largest
/// number that fits if the time is longer than that.
pub open spec fn round_trip_of(sent: Instant, now: Instant) -> Option<u64> {
    let d = nanos_between(sent, now);
    if d < 0 {
        None
    } else if d > u64::MAX {
        Some(u64::MAX)
    } else {
        Some(d as u64)
    }
}

/// Executable form of [`round_trip_of`].
pub fn round_trip(sent: Instant, now: Instant) -> (r: Option<u64>)
    ensures
        r == round_trip_of(sent, now),
{
    let secs: i128 = now.secs as i128 - sent.secs as i128;
    let nanos: i128 = now.nanos as i128 - sent.nanos as i128;
    let d: i128 = secs * 1_000_000_000 + nanos;
    if d < 0 {
        None
    } else if d > u64::MAX as i128 {
        Some(u64::MAX)
    } else {
        Some(d as u64)
    }
}

/// The nanoseconds that the monotonic clock has advanced from `since` to
/// `now`; zero where it has not advanced.
pub open spec fn silence(since: u64, now: u64) -> u64 {
    if now >= since {
        (now - since) as u64
    } else {
        0
    }
}

/// Executable form of [`silence`].
pub fn silence_between(since: u64, now: u64) -> (r: u64)
    ensures
        r == silence(since, now),
{
    if now >= since {
        now - since
    } else {
        0
    }
}

/// The instant that the text `s` denotes when it is read as an RFC 3339
/// timestamp, as `chrono` reads it; none where it is not such a timestamp.
pub uninterp spec fn rfc3339_instant(s: Seq<char>) -> Option<Instant>;

/// The RFC 3339 text of an instant in UTC, with three decimals of the second
/// and `Z` for the zone, as `chrono` writes it; none where `chrono` has no
/// date for the instant.
pub uninterp spec fn rfc3339_millis(secs: i64, nanos: u32) -> Option<Seq<char>>;

/// `chrono::DateTime::parse_from_rfc3339`. The result is the parsed instant as
/// seconds and nanoseconds of the second in UTC, and is a function of the
/// text alone.
#[verifier::external_body]
pub(crate) fn parse_rfc3339(s: &str) -> (r: Option<Instant>)
    ensures
        r == rfc3339_instant(s@),
{
    match chrono::DateTime::parse_from_rfc3339(s) {
        Ok(d) => Some(Instant { secs: d.timestamp(), nanos: d.timestamp_subsec_nanos() }),
        Err(_) => None,
    }
}

/// `chrono::DateTime::to_rfc3339_opts` with millisecond precision and `Z`, on
/// the date that `chrono::DateTime::from_timestamp` makes of the instant. The
/// result is a function of the instant alone.
#[verifier::external_body]
pub(crate) fn format_rfc3339_millis(at: Instant) -> (r: Option<String>)
    ensures
        match r {
            Some(s) => rfc3339_millis(at.secs, at.nanos) == Some(s@),
            None => rfc3339_millis(at.secs, at.nanos) is None,
        },
{
    match chrono::DateTime::from_timestamp(at.secs, at.nanos) {
        Some(d) => Some(d.to_rfc3339_opts(chrono::SecondsFormat::Millis, true)),
        None => None,
    }
}

} // verus!
