//! Points in time as dates of the calendar, and their encoding.
use vstd::prelude::*;

use der::asn1::GeneralizedTime;
use der::Encode;

use crate::asn1::{tlv, TAG_GENERALIZED_TIME};
use crate::clock::{Timestamp, MAX_TIMESTAMP_NANOS};

verus! {

/// A date and a time of day, to the second.
#[derive(Debug, Clone, Copy, PartialEq, Eq, Structural)]
pub struct Date {
    pub year: u16,
    pub month: u8,
    pub day: u8,
    pub hour: u8,
    pub minute: u8,
    pub second: u8,
}

/// A year with a 29 February.
pub open spec fn leap(year: int) -> bool {
    year % 4 == 0 && (year % 100 != 0 || year % 400 == 0)
}

/// How many days a month has.
pub open spec fn days_in_month(year: int, month: int) -> int {
    if month == 2 {
        if leap(year) {
            29
        } else {
            28
        }
    } else if month == 4 || month == 6 || month == 9 || month == 11 {
        30
    } else {
        31
    }
}

/// How many days of a year are before a month.
pub open spec fn days_before_month(year: int, month: int) -> int
    decreases month,
{
    if month <= 1 {
        0
    } else {
        days_before_month(year, month - 1) + days_in_month(year, month - 1)
    }
}

/// How many days are before a year, since the start of the year 1.
pub open spec fn days_before_year(year: int) -> int {
    365 * (year - 1) + (year - 1) / 4 - (year - 1) / 100 + (year - 1) / 400
}

impl Date {
    /// A date of the years that an encoding can carry, from 1970 to 9999.
    pub open spec fn valid(self) -> bool {
        &&& 1970 <= self.year <= 9999
        &&& 1 <= self.month <= 12
        &&& 1 <= self.day <= days_in_month(self.year as int, self.month as int)
        &&& self.hour < 24
        &&& self.minute < 60
        &&& self.second < 60
    }

    /// The day, counted from 1 January 1970.
    pub open spec fn day_number(self) -> int {
        days_before_year(self.year as int) - days_before_year(1970) + days_before_month(
            self.year as int,
            self.month as int,
        ) + self.day - 1
    }

    /// The second, counted from the start of 1970.
    pub open spec fn unix_seconds(self) -> int {
        self.day_number() * 86400 + self.hour * 3600 + self.minute * 60 + self.second
    }

    /// `YYYYMMDDHHMMSSZ`.
    pub open spec fn text(self) -> Seq<u8> {
        two_digits(self.year as int / 100) + two_digits(self.year as int % 100) + two_digits(
            self.month as int,
        ) + two_digits(self.day as int) + two_digits(self.hour as int) + two_digits(
            self.minute as int,
        ) + two_digits(self.second as int) + seq![90u8]
    }

    /// The encoding as a `GeneralizedTime`.
    pub open spec fn encoding(self) -> Seq<u8> {
        tlv(TAG_GENERALIZED_TIME, self.text())
    }
}

/// Two decimal digits.
pub open spec fn two_digits(n: int) -> Seq<u8> {
    seq![(48 + n / 10) as u8, (48 + n % 10) as u8]
}

/// `OffsetDateTime::from_unix_timestamp`, and the parts of the date in UTC.
#[verifier::external_body]
fn date_at(seconds: i64) -> (r: Date)
    requires
        0 <= seconds <= 253_402_300_799,
    ensures
        r.valid(),
        r.unix_seconds() == seconds,
{
    let t = time::OffsetDateTime::from_unix_timestamp(seconds).expect("date");
    Date {
        year: t.year() as u16,
        month: u8::from(t.month()),
        day: t.day(),
        hour: t.hour(),
        minute: t.minute(),
        second: t.second(),
    }
}

/// `DateTime::new`, then the DER of a `GeneralizedTime`: every date of the years
/// 1970 to 9999 can be encoded.
#[verifier::external_body]
fn encode_date(d: Date) -> (r: Vec<u8>)
    requires
        d.valid(),
    ensures
        r@ == d.encoding(),
{
    let t = der::DateTime::new(d.year, d.month, d.day, d.hour, d.minute, d.second).expect("date");
    GeneralizedTime::from_date_time(t).to_der().expect("GeneralizedTime")
}

/// The date of a point in time.
pub open spec fn is_date_of(d: Date, t: Timestamp) -> bool {
    d.valid() && d.unix_seconds() == t.nanos as int / 1_000_000_000
}

/// A point in time that an encoding can carry.
pub open spec fn encodable(t: Timestamp) -> bool {
    0 <= t.nanos <= MAX_TIMESTAMP_NANOS
}

/// The encoding of a point in time, to the second.
pub open spec fn time_encoding(t: Timestamp) -> Seq<u8> {
    (choose|d: Date| is_date_of(d, t)).encoding()
}

/// Encodes a point in time, rounded down to the second, as a `GeneralizedTime`;
/// nothing before 1970 or after 9999.
pub fn encode_time(t: Timestamp) -> (r: Option<Vec<u8>>)
    ensures
        match r {
            Some(bytes) => encodable(t) && bytes@ == time_encoding(t) && bytes@.len() == 17
                && exists|d: Date| #[trigger] is_date_of(d, t) && bytes@ == d.encoding(),
            None => !encodable(t),
        },
{
    if t.nanos < 0 || t.nanos > MAX_TIMESTAMP_NANOS {
        return None;
    }
    let seconds: i64 = (t.nanos as u128 / 1_000_000_000u128) as i64;
    let d = date_at(seconds);
    proof {
        assert(is_date_of(d, t));
        let chosen = choose|d: Date| is_date_of(d, t);
        dates_are_unique(d, chosen);
        assert(d.encoding().len() == 17);
    }
    Some(encode_date(d))
}

proof fn year_grows(year: int)
    requires
        year >= 1,
    ensures
        days_before_year(year + 1) == days_before_year(year) + if leap(year) {
            366int
        } else {
            365int
        },
{
    step_by_4(year - 1);
    step_by_100(year - 1);
    step_by_400(year - 1);
    assert(year % 400 == 0 ==> year % 100 == 0);
    assert(year % 100 == 0 ==> year % 4 == 0);
}

proof fn step_by_4(n: int)
    requires
        n >= 0,
    ensures
        (n + 1) / 4 == n / 4 + if (n + 1) % 4 == 0 {
            1int
        } else {
            0int
        },
{
}

proof fn step_by_100(n: int)
    requires
        n >= 0,
    ensures
        (n + 1) / 100 == n / 100 + if (n + 1) % 100 == 0 {
            1int
        } else {
            0int
        },
{
}

proof fn step_by_400(n: int)
    requires
        n >= 0,
    ensures
        (n + 1) / 400 == n / 400 + if (n + 1) % 400 == 0 {
            1int
        } else {
            0int
        },
{
}

proof fn years_grow(a: int, b: int)
    requires
        1 <= a < b,
    ensures
        days_before_year(a + 1) <= days_before_year(b),
    decreases b - a,
{
    if a + 1 < b {
        years_grow(a, b - 1);
        year_grows(b - 1);
    }
}

proof fn months_grow(year: int, a: int, b: int)
    requires
        1 <= a < b <= 13,
    ensures
        days_before_month(year, a) + days_in_month(year, a) <= days_before_month(year, b),
    decreases b - a,
{
    if a + 1 < b {
        months_grow(year, a, b - 1);
    }
}

proof fn year_is_full(year: int)
    ensures
        days_before_month(year, 13) == if leap(year) {
            366int
        } else {
            365int
        },
{
    reveal_with_fuel(days_before_month, 14);
}

proof fn earlier_day(a: Date, b: Date)
    requires
        a.valid(),
        b.valid(),
        a.year < b.year || (a.year == b.year && (a.month < b.month || (a.month == b.month && a.day
            < b.day))),
    ensures
        a.day_number() < b.day_number(),
{
    let ya = a.year as int;
    months_nonnegative(b.year as int, b.month as int);
    if a.year < b.year {
        years_grow(ya, b.year as int);
        year_grows(ya);
        year_is_full(ya);
        months_grow(ya, a.month as int, 13);
    } else if a.month < b.month {
        months_grow(ya, a.month as int, b.month as int);
    }
}

proof fn months_nonnegative(year: int, month: int)
    ensures
        days_before_month(year, month) >= 0,
    decreases month,
{
    if month > 1 {
        months_nonnegative(year, month - 1);
    }
}

/// A second belongs to one date.
pub proof fn dates_are_unique(a: Date, b: Date)
    requires
        a.valid(),
        b.valid(),
        a.unix_seconds() == b.unix_seconds(),
    ensures
        a == b,
{
    let sa = a.hour * 3600 + a.minute * 60 + a.second;
    let sb = b.hour * 3600 + b.minute * 60 + b.second;
    assert(0 <= sa < 86400 && 0 <= sb < 86400);
    assert(a.day_number() == b.day_number());
    if a.year != b.year || a.month != b.month || a.day != b.day {
        if a.year < b.year || (a.year == b.year && (a.month < b.month || (a.month == b.month
            && a.day < b.day))) {
            earlier_day(a, b);
        } else {
            earlier_day(b, a);
        }
    }
}

/// The day after a day: the next of the month, else the first of the next month,
/// else New Year's Day.
pub open spec fn tomorrow(d: Date) -> Date {
    if d.day < days_in_month(d.year as int, d.month as int) {
        Date { day: (d.day + 1) as u8, ..d }
    } else if d.month < 12 {
        Date { month: (d.month + 1) as u8, day: 1, ..d }
    } else {
        Date { year: (d.year + 1) as u16, month: 1, day: 1, ..d }
    }
}

/// Days are counted one by one, from 1 January 1970: every fourth year has 366
/// of them, but for three in four of those that a hundred divides.
pub proof fn days_are_counted_one_by_one(d: Date)
    requires
        d.valid(),
    ensures
        d.year == 1970 && d.month == 1 && d.day == 1 ==> d.day_number() == 0,
        tomorrow(d).day_number() == d.day_number() + 1,
        d.day_number() >= 0,
        d.month == 2 && d.day == 29 ==> d.year % 4 == 0 && (d.year % 100 == 0 ==> d.year % 400
            == 0),
{
    reveal_with_fuel(days_before_month, 2);
    let first = Date { year: 1970, month: 1, day: 1, ..d };
    if d.year != 1970 || d.month != 1 || d.day != 1 {
        earlier_day(first, d);
    }
    let y = d.year as int;
    if d.day == days_in_month(y, d.month as int) {
        if d.month == 12 {
            year_grows(y);
            year_is_full(y);
            reveal_with_fuel(days_before_month, 2);
            assert(days_before_month(y, 13) == days_before_month(y, 12) + 31);
        } else {
            assert(days_before_month(y, d.month + 1) == days_before_month(y, d.month as int)
                + days_in_month(y, d.month as int));
        }
    }
}

proof fn day_exists(n: int) -> (d: Date)
    requires
        0 <= n < 2_932_897,
    ensures
        d.valid(),
        d.day_number() == n,
    decreases n,
{
    if n == 0 {
        let d = Date { year: 1970, month: 1, day: 1, hour: 0, minute: 0, second: 0 };
        days_are_counted_one_by_one(d);
        d
    } else {
        let d = day_exists(n - 1);
        days_are_counted_one_by_one(d);
        let next = tomorrow(d);
        if d.year == 9999 && d.month == 12 && d.day == 31 {
            reveal_with_fuel(days_before_month, 13);
            assert(d.day_number() == 2_932_896);
        }
        next
    }
}

/// Every second of the years 1970 to 9999 has a date.
pub proof fn every_second_has_a_date(t: Timestamp)
    requires
        0 <= t.nanos <= 253_402_300_799_999_999_999,
    ensures
        exists|d: Date| is_date_of(d, t),
{
    let seconds = t.nanos as int / 1_000_000_000;
    let day = seconds / 86400;
    let rest = seconds % 86400;
    let d = day_exists(day);
    let full = Date {
        hour: (rest / 3600) as u8,
        minute: (rest % 3600 / 60) as u8,
        second: (rest % 60) as u8,
        ..d
    };
    assert(rest % 3600 % 60 == rest % 60);
    assert(full.day_number() == day);
    assert(is_date_of(full, t));
}

/// The text of a date says which date it is.
pub proof fn encodings_are_unique(a: Date, b: Date)
    requires
        a.valid(),
        b.valid(),
        a.encoding() == b.encoding(),
    ensures
        a == b,
{
    let x = a.encoding();
    let y = b.encoding();
    assert forall|i: int| 0 <= i < 15 implies a.text()[i] == b.text()[i] by {
        assert(x[i + 2] == y[i + 2]);
        assert(x[i + 2] == a.text()[i]);
        assert(y[i + 2] == b.text()[i]);
    }
    let ta = a.text();
    let tb = b.text();
    assert(ta[0] == tb[0] && ta[1] == tb[1] && ta[2] == tb[2] && ta[3] == tb[3]);
    assert(ta[4] == tb[4] && ta[5] == tb[5] && ta[6] == tb[6] && ta[7] == tb[7]);
    assert(ta[8] == tb[8] && ta[9] == tb[9] && ta[10] == tb[10] && ta[11] == tb[11]);
    assert(ta[12] == tb[12] && ta[13] == tb[13]);
}

} // verus!
