//! Points in time and spans of time, to the nanosecond.
use vstd::prelude::*;

verus! {

/// Nanoseconds in a second.
pub const NANOS_PER_SECOND: i128 = 1_000_000_000;

/// Nanoseconds in a day.
pub const NANOS_PER_DAY: i128 = 86_400_000_000_000;

/// A signed span of time, in nanoseconds.
#[derive(Debug, Clone, Copy, PartialEq, Eq, Structural)]
pub struct Duration {
    pub nanos: i128,
}

/// The whole days of a span, rounded towards zero.
pub open spec fn whole_days_of(nanos: int) -> int {
    if nanos < 0 {
        -((-nanos) / (NANOS_PER_DAY as int))
    } else {
        nanos / (NANOS_PER_DAY as int)
    }
}

/// The whole seconds of a span, rounded towards zero.
pub open spec fn whole_seconds_of(nanos: int) -> int {
    if nanos < 0 {
        -((-nanos) / (NANOS_PER_SECOND as int))
    } else {
        nanos / (NANOS_PER_SECOND as int)
    }
}

impl Duration {
    /// A span of whole days.
    pub fn days(n: i64) -> (r: Duration)
        ensures
            r.nanos == n * NANOS_PER_DAY,
    {
        assert(-9_223_372_036_854_775_808 * NANOS_PER_DAY <= n * NANOS_PER_DAY
            <= 9_223_372_036_854_775_807 * NANOS_PER_DAY);
        Duration { nanos: n as i128 * NANOS_PER_DAY }
    }

    /// A span of whole seconds.
    pub fn seconds(n: i64) -> (r: Duration)
        ensures
            r.nanos == n * NANOS_PER_SECOND,
    {
        Duration { nanos: n as i128 * NANOS_PER_SECOND }
    }

    /// The whole days of the span, rounded towards zero.
    pub fn whole_days(&self) -> (r: i128)
        requires
            self.nanos > i128::MIN,
        ensures
            r == whole_days_of(self.nanos as int),
            r > i128::MIN,
    {
        if self.nanos < 0 {
            let days: u128 = ((-self.nanos) as u128) / 86_400_000_000_000u128;
            -(days as i128)
        } else {
            (self.nanos as u128 / 86_400_000_000_000u128) as i128
        }
    }

    /// The whole seconds of the span, rounded towards zero.
    pub fn whole_seconds(&self) -> (r: i128)
        requires
            self.nanos > i128::MIN,
        ensures
            r == whole_seconds_of(self.nanos as int),
            r > i128::MIN,
    {
        if self.nanos < 0 {
            let seconds: u128 = ((-self.nanos) as u128) / 1_000_000_000u128;
            -(seconds as i128)
        } else {
            (self.nanos as u128 / 1_000_000_000u128) as i128
        }
    }
}

/// A point in time: nanoseconds since 1970-01-01T00:00:00Z.
#[derive(Debug, Clone, Copy, PartialEq, Eq, Structural)]
pub struct Timestamp {
    pub nanos: i128,
}

/// The last nanosecond of the year 9999.
pub const MAX_TIMESTAMP_NANOS: i128 = 253_402_300_799_999_999_999;

/// The first nanosecond of the year -9999.
pub const MIN_TIMESTAMP_NANOS: i128 = -377_705_203_200_000_000_000;

impl Timestamp {
    /// Within the years -9999 to 9999.
    pub open spec fn valid(self) -> bool {
        MIN_TIMESTAMP_NANOS <= self.nanos <= MAX_TIMESTAMP_NANOS
    }

    /// The start of Unix time.
    pub fn epoch() -> (r: Timestamp)
        ensures
            r.nanos == 0,
            r.valid(),
    {
        Timestamp { nanos: 0 }
    }

    /// The point in time at a number of seconds since the epoch; the epoch
    /// itself where that is beyond the year 9999.
    pub fn from_unix_seconds(seconds: u64) -> (r: Timestamp)
        ensures
            r == timestamp_at(seconds as int),
            r.valid(),
    {
        if seconds <= 253_402_300_799 {
            Timestamp { nanos: seconds as i128 * NANOS_PER_SECOND }
        } else {
            Timestamp { nanos: 0 }
        }
    }

    /// The span from `earlier` to this point.
    pub fn since(&self, earlier: Timestamp) -> (r: Duration)
        requires
            self.valid(),
            earlier.valid(),
        ensures
            r.nanos == self.nanos - earlier.nanos,
    {
        Duration { nanos: self.nanos - earlier.nanos }
    }

    /// The point a span later.
    pub fn plus(&self, span: Duration) -> (r: Timestamp)
        requires
            i128::MIN <= self.nanos + span.nanos <= i128::MAX,
        ensures
            r.nanos == self.nanos + span.nanos,
    {
        Timestamp { nanos: self.nanos + span.nanos }
    }
}

/// The point in time at a number of seconds since the epoch, the epoch itself
/// where that number is out of range.
pub open spec fn timestamp_at(seconds: int) -> Timestamp {
    if 0 <= seconds <= 253_402_300_799 {
        Timestamp { nanos: (seconds * NANOS_PER_SECOND) as i128 }
    } else {
        Timestamp { nanos: 0 }
    }
}

} // verus!
