//! Points in time, held as milliseconds since the Unix epoch, within the
//! range that ISO 8601 timestamps support (years -9999 to 9999).

use vstd::prelude::*;

verus! {

/// Earliest supported instant: -9999-01-01T00:00:00.000Z.
pub const MIN_MILLIS: i64 = -377705116800000i64;

/// Latest supported instant: 9999-12-31T23:59:59.999Z.
pub const MAX_MILLIS: i64 = 253402300799999i64;

/// Milliseconds in one second.
pub const MILLIS_PER_SECOND: i64 = 1000i64;

/// Milliseconds in one week.
pub const MILLIS_PER_WEEK: i64 = 604800000i64;

/// A point in time.
#[derive(Clone, Copy, PartialEq, Eq, Structural)]
pub struct Timestamp {
    /// Milliseconds since 1970-01-01T00:00:00Z.
    pub millis: i64,
}

impl Timestamp {
    /// Whether the instant lies in the supported range.
    pub open spec fn in_range(self) -> bool {
        MIN_MILLIS <= self.millis <= MAX_MILLIS
    }

    /// `self + millis`, or `None` when the sum leaves the supported range.
    pub fn checked_add_millis(self, millis: i64) -> (r: Option<Timestamp>)
        requires
            self.in_range(),
        ensures
            match r {
                Some(t) => t.millis == self.millis + millis && t.in_range(),
                None => !(MIN_MILLIS <= self.millis + millis <= MAX_MILLIS),
            },
    {
        if millis > MAX_MILLIS - self.millis || millis < MIN_MILLIS - self.millis {
            None
        } else {
            Some(Timestamp { millis: self.millis + millis })
        }
    }

    /// `self + seconds`, or `None` when the sum leaves the supported range.
    pub fn checked_add_seconds(self, seconds: i64) -> (r: Option<Timestamp>)
        requires
            self.in_range(),
        ensures
            match r {
                Some(t) => t.millis == self.millis + seconds * 1000 && t.in_range(),
                None => !(MIN_MILLIS <= self.millis + seconds * 1000 <= MAX_MILLIS),
            },
    {
        if seconds > 1000000000000i64 || seconds < -1000000000000i64 {
            return None;
        }
        self.checked_add_millis(seconds * MILLIS_PER_SECOND)
    }

    /// Whether `self` is at or before `other`.
    pub fn is_at_or_before(self, other: Timestamp) -> (r: bool)
        ensures
            r == (self.millis <= other.millis),
    {
        self.millis <= other.millis
    }
}

/// The current time (`iso8601_timestamp::Timestamp::now_utc`) in
/// milliseconds since the epoch. Nothing is stated of which instant it is,
/// only that it is not before the epoch (the outside function panics on a
/// clock set before it) and lies in the supported range (that of the `time`
/// crate's dates, which the sum of the epoch and the elapsed time stays in).
#[verifier::external_body]
pub(crate) fn now_utc() -> (r: Timestamp)
    ensures
        0 <= r.millis,
        r.in_range(),
{
    #[allow(deprecated)]
    let millis = iso8601_timestamp::Timestamp::now_utc().to_unix_timestamp_ms();
    Timestamp { millis }
}

/// Whether the instant lies in the supported range.
pub fn in_supported_range(t: Timestamp) -> (r: bool)
    ensures
        r == t.in_range(),
{
    MIN_MILLIS <= t.millis && t.millis <= MAX_MILLIS
}

/// The current time in full ISO 8601 form with milliseconds
/// (`iso8601_timestamp::Timestamp::now_utc().format()`). Nothing is stated of
/// which instant it names.
#[verifier::external_body]
pub(crate) fn now_iso8601() -> (r: String) {
    iso8601_timestamp::Timestamp::now_utc().format().to_string()
}

/// The current time in short ISO 8601 form with milliseconds
/// (`iso8601_timestamp::Timestamp::now_utc().format_short()`). Nothing is
/// stated of which instant it names.
#[verifier::external_body]
pub(crate) fn now_iso8601_short() -> (r: String) {
    iso8601_timestamp::Timestamp::now_utc().format_short().to_string()
}

/// The whole seconds since the Unix epoch of an instant at or after it.
pub open spec fn whole_seconds(t: Timestamp) -> int {
    t.millis / MILLIS_PER_SECOND
}

/// Whole seconds since the Unix epoch by the system clock: those of an
/// instant that the clock gave, at or after the epoch and in the supported
/// range.
pub(crate) fn unix_seconds_now() -> (r: u64)
    ensures
        exists|t: Timestamp| 0 <= t.millis && t.in_range() && #[trigger] whole_seconds(t) == r,
{
    let t = now_utc();
    let r = (t.millis / MILLIS_PER_SECOND) as u64;
    assert(whole_seconds(t) == r);
    r
}

} // verus!
