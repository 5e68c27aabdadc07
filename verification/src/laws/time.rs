//! What points and spans of time promise.
use vstd::prelude::*;

use crate::calendar::{days_in_month, encodable, Date};
use crate::clock::{timestamp_at, whole_days_of, whole_seconds_of, Timestamp};

verus! {

/// A number of seconds since the epoch is that many thousand million
/// nanoseconds; beyond the year 9999 it is taken for the epoch.
pub proof fn seconds_are_counted_from_the_epoch(seconds: int)
    ensures
        0 <= seconds <= 253_402_300_799 ==> timestamp_at(seconds).nanos == seconds * 1_000_000_000,
        !(0 <= seconds <= 253_402_300_799) ==> timestamp_at(seconds).nanos == 0,
{
}

/// The whole days and seconds of a span are rounded towards zero, alike before
/// and after it.
pub proof fn spans_are_rounded_towards_zero(whole: int, part: int)
    requires
        whole >= 0,
    ensures
        0 <= part < 86_400_000_000_000 ==> whole_days_of(whole * 86_400_000_000_000 + part)
            == whole && whole_days_of(-(whole * 86_400_000_000_000 + part)) == -whole,
        0 <= part < 1_000_000_000 ==> whole_seconds_of(whole * 1_000_000_000 + part) == whole
            && whole_seconds_of(-(whole * 1_000_000_000 + part)) == -whole,
{
}

/// The months have their days, and February one more in leap years.
pub proof fn months_have_their_days(year: int)
    ensures
        days_in_month(year, 1) == 31 && days_in_month(year, 3) == 31 && days_in_month(year, 5)
            == 31 && days_in_month(year, 7) == 31 && days_in_month(year, 8) == 31
            && days_in_month(year, 10) == 31 && days_in_month(year, 12) == 31,
        days_in_month(year, 4) == 30 && days_in_month(year, 6) == 30 && days_in_month(year, 9)
            == 30 && days_in_month(year, 11) == 30,
        year % 400 == 0 || (year % 4 == 0 && year % 100 != 0) ==> days_in_month(year, 2) == 29,
        !(year % 400 == 0 || (year % 4 == 0 && year % 100 != 0)) ==> days_in_month(year, 2) == 28,
{
}

/// Within a day the seconds are counted from midnight.
pub proof fn seconds_of_a_day(d: Date)
    ensures
        d.unix_seconds() == 86_400 * d.day_number() + 3_600 * d.hour + 60 * d.minute + d.second,
        d.valid() ==> d.hour <= 23 && d.minute <= 59 && d.second <= 59,
{
}

/// What can be written is what is from 1970 to 9999.
pub proof fn years_1970_to_9999_can_be_written(t: Timestamp)
    ensures
        encodable(t) <==> 0 <= t.nanos <= 253_402_300_799_999_999_999,
{
}

/// A journal that is kept for a year or longer is kept long enough, and no other.
pub proof fn journal_is_kept_for_a_year(
    retention: crate::clock::Duration,
    r: Result<(), String>,
)
    requires
        call_ensures(crate::profile::check_audit_retention, (retention,), r),
    ensures
        r is Ok <==> retention.nanos >= 365 * 24 * 3600 * 1_000_000_000,
{
}

/// A certificate may live as long as it is allowed to, and no longer.
pub proof fn life_is_no_longer_than_allowed(
    subject: &str,
    not_before: crate::clock::Timestamp,
    not_after: crate::clock::Timestamp,
    max: crate::clock::Duration,
    r: Result<(), String>,
)
    requires
        call_ensures(
            crate::profile::check_certificate_lifetime,
            (subject, not_before, not_after, max),
            r,
        ),
    ensures
        r is Ok <==> not_before.nanos + max.nanos >= not_after.nanos,
{
}

/// Each kind of certificate has its longest life: in months of thirty days for
/// those of units, of responders and of internal ends, in years of 365 days for
/// those of authorities.
pub proof fn longest_lives()
    ensures
        crate::profile::MAX_END_ENTITY_LIFETIME_DAYS == 39 * 30,
        crate::profile::MAX_OCSP_LIFETIME_DAYS == 6 * 30,
        crate::profile::MAX_INTERNAL_LIFETIME_DAYS == 6 * 30,
        crate::profile::MAX_ISSUING_CA_LIFETIME_DAYS == 15 * 365,
        crate::profile::MAX_ROOT_CA_LIFETIME_DAYS == 25 * 365,
{
}

/// A point in time is one from the start of the year -9999 to the last nanosecond
/// of the year 9999, both included.
pub proof fn points_in_time_have_bounds(t: Timestamp)
    ensures
        t.valid() <==> -377_705_203_200 * 1_000_000_000 <= t.nanos < 253_402_300_800
            * 1_000_000_000,
{
}

} // verus!
