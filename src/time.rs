//! Moments in time as plain numbers, their order, and how long ago one was.

use vstd::prelude::*;
use crate::text::{decimal_digits, decimal_text};

verus! {

/// A moment in UTC: whole seconds since the Unix epoch and the nanoseconds
/// into that second.
#[derive(Clone, Copy, Debug, PartialEq, Eq, Structural)]
pub struct Timestamp {
    pub seconds: i64,
    pub nanos: u32,
}

impl Timestamp {
    /// `self` is not later than `other`.
    pub open spec fn spec_le(self, other: Timestamp) -> bool {
        self.seconds < other.seconds || (self.seconds == other.seconds && self.nanos <= other.nanos)
    }

    /// The later of the two moments (`self` when they are equal).
    pub open spec fn spec_later(self, other: Timestamp) -> Timestamp {
        if self.spec_le(other) && self != other {
            other
        } else {
            self
        }
    }

    /// `self` is not later than `other`.
    pub fn is_not_after(&self, other: &Timestamp) -> (r: bool)
        ensures
            r == self.spec_le(*other),
    {
        self.seconds < other.seconds || (self.seconds == other.seconds && self.nanos <= other.nanos)
    }

    /// The later of the two moments.
    pub fn later(self, other: Timestamp) -> (r: Timestamp)
        ensures
            r == self.spec_later(other),
            self.spec_le(r),
            other.spec_le(r),
    {
        if self.is_not_after(&other) && self != other {
            other
        } else {
            self
        }
    }
}

/// Whole seconds from `from` to `to`, rounded down.
pub open spec fn elapsed_seconds(from: Timestamp, to: Timestamp) -> int {
    to.seconds - from.seconds - (if to.nanos < from.nanos { 1int } else { 0int })
}

/// Names the RFC 3339 text that chrono writes for a moment.
pub uninterp spec fn rfc3339_text(seconds: int, nanos: int) -> Seq<char>;

/// Relies on `std::time::SystemTime::now` and `SystemTime::duration_since`
/// the Unix epoch, which fails for a clock set before the epoch (then
/// nothing is returned); `Duration::subsec_nanos` is below one billion.
#[verifier::external_body]
pub(crate) fn current_time() -> (r: Option<Timestamp>)
    ensures
        r matches Some(t) ==> t.nanos < 1_000_000_000,
{
    match std::time::SystemTime::now().duration_since(std::time::UNIX_EPOCH) {
        Ok(d) => Some(Timestamp { seconds: d.as_secs() as i64, nanos: d.subsec_nanos() }),
        Err(_) => None,
    }
}

/// The time now, or the epoch when the clock reads before it.
pub fn now_or_epoch() -> (r: Timestamp)
    ensures
        r.nanos < 1_000_000_000,
{
    match current_time() {
        Some(t) => t,
        None => Timestamp { seconds: 0, nanos: 0 },
    }
}

/// A moment well inside chrono's range of dates (years -262143 to 262142),
/// with its nanoseconds within one second.
pub open spec fn in_chrono_range(t: Timestamp) -> bool {
    -8_000_000_000_000 <= t.seconds <= 8_000_000_000_000 && t.nanos < 1_000_000_000
}

/// Relies on `chrono::DateTime::from_timestamp`, which gives nothing only for
/// a moment outside chrono's range of dates or with nanoseconds of two
/// seconds or more, and on `DateTime::to_rfc3339` for the text.
#[verifier::external_body]
pub(crate) fn rfc3339(t: Timestamp) -> (r: Option<String>)
    ensures
        r matches Some(s) ==> s@ == rfc3339_text(t.seconds as int, t.nanos as int),
        in_chrono_range(t) ==> r is Some,
{
    match chrono::DateTime::from_timestamp(t.seconds, t.nanos) {
        Some(d) => Some(d.to_rfc3339()),
        None => None,
    }
}

/// How a span of `secs` seconds in the past reads.
pub open spec fn elapsed_text(secs: int) -> Seq<char> {
    if secs < 60 {
        "just now"@
    } else if secs / 60 < 60 {
        decimal_digits((secs / 60) as nat) + " minutes ago"@
    } else if secs / 3600 < 24 {
        decimal_digits((secs / 3600) as nat) + " hours ago"@
    } else if secs / 86400 < 7 {
        decimal_digits((secs / 86400) as nat) + " days ago"@
    } else if secs / 604800 < 4 {
        decimal_digits((secs / 604800) as nat) + " weeks ago"@
    } else {
        decimal_digits((secs / 86400 / 30) as nat) + " months ago"@
    }
}

fn count_with_unit(n: i128, unit: &str) -> (r: String)
    requires
        0 <= n <= u64::MAX,
    ensures
        r@ == decimal_digits(n as nat) + unit@,
{
    let mut s = decimal_text(n as u64);
    s.append(unit);
    s
}

/// How long ago `dt` was, seen at `now`.
pub fn format_relative_time_at(dt: Timestamp, now: Timestamp) -> (r: String)
    ensures
        r@ == elapsed_text(elapsed_seconds(dt, now)),
{
    let borrow: i128 = if now.nanos < dt.nanos { 1 } else { 0 };
    let secs: i128 = now.seconds as i128 - dt.seconds as i128 - borrow;
    if secs < 60 {
        String::from_str("just now")
    } else if secs / 60 < 60 {
        count_with_unit(secs / 60, " minutes ago")
    } else if secs / 3600 < 24 {
        count_with_unit(secs / 3600, " hours ago")
    } else if secs / 86400 < 7 {
        count_with_unit(secs / 86400, " days ago")
    } else if secs / 604800 < 4 {
        count_with_unit(secs / 604800, " weeks ago")
    } else {
        count_with_unit(secs / 86400 / 30, " months ago")
    }
}

/// How long ago `dt` was, seen from the system clock.
pub fn format_relative_time(dt: Timestamp) -> (r: String)
    ensures
        exists|now: Timestamp| r@ == elapsed_text(elapsed_seconds(dt, now)),
{
    format_relative_time_at(dt, now_or_epoch())
}

} // verus!
