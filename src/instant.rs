//! Civil instants: a calendar date and a time of day, with no time zone.

use vstd::prelude::*;
use crate::calendar::{
    lemma_months_span_bounds, lemma_months_span_split, month_length, months_span, year_length,
};
use crate::calendar::get_month_size;
use chrono::{NaiveDate, NaiveDateTime};
use vstd::arithmetic::div_mod::{lemma_fundamental_div_mod, lemma_fundamental_div_mod_converse};

verus! {

/// A date of the proleptic Gregorian calendar and a time of day, to the second.
#[derive(Clone, Copy, Debug, PartialEq, Eq, Structural)]
pub struct CivilInstant {
    pub year: i32,
    pub month: u32,
    pub day: u32,
    pub hour: u32,
    pub minute: u32,
    pub second: u32,
}

/// The first and the last year that an instant may have.
pub const MIN_YEAR: i32 = 0;
pub const MAX_YEAR: i32 = 9999;

/// Whether the six fields name an existing date and time of day.
pub open spec fn valid_fields(year: int, month: int, day: int, hour: int, minute: int, second: int) -> bool {
    &&& MIN_YEAR <= year <= MAX_YEAR
    &&& 1 <= month <= 12
    &&& 1 <= day <= month_length(month, year)
    &&& 0 <= hour < 24
    &&& 0 <= minute < 60
    &&& 0 <= second < 60
}

impl CivilInstant {
    pub open spec fn valid(&self) -> bool {
        valid_fields(self.year as int, self.month as int, self.day as int, self.hour as int,
            self.minute as int, self.second as int)
    }

    /// The instant with these fields, if they name an existing date and time of day.
    pub fn from_fields(year: i32, month: u32, day: u32, hour: u32, minute: u32, second: u32) -> (r: Option<CivilInstant>)
        ensures
            r is Some <==> valid_fields(year as int, month as int, day as int, hour as int, minute as int, second as int),
            r matches Some(c) ==> c == (CivilInstant { year, month, day, hour, minute, second }),
    {
        if year < MIN_YEAR || year > MAX_YEAR || month < 1 || month > 12 || hour >= 24 || minute >= 60 || second >= 60 {
            return None;
        }
        let size = get_month_size(month as i32, year);
        if day < 1 || day > size as u32 {
            return None;
        }
        Some(CivilInstant { year, month, day, hour, minute, second })
    }
}

/// Builds the instant `y`-`m`-`d` `h`:`min`:`s`.
pub fn dt(y: i32, m: u32, d: u32, h: u32, min: u32, s: u32) -> (r: CivilInstant)
    requires
        valid_fields(y as int, m as int, d as int, h as int, min as int, s as int),
    ensures
        r == (CivilInstant { year: y, month: m, day: d, hour: h, minute: min, second: s }),
        r.valid(),
{
    CivilInstant { year: y, month: m, day: d, hour: h, minute: min, second: s }
}

/// The days from 0001-01-01 to the first day of `year`, counted negative before it.
pub open spec fn days_before_year(year: int) -> int {
    365 * (year - 1) + (year - 1) / 4 - (year - 1) / 100 + (year - 1) / 400
}

/// The number of the day of `c`, where 0001-01-01 is day 1.
pub open spec fn day_number(c: CivilInstant) -> int {
    days_before_year(c.year as int) + months_span(1, c.month as int, c.year as int) + c.day
}

/// The seconds from 0001-01-01T00:00:00 to `c`, on a scale of days of 86400 seconds.
pub open spec fn timestamp(c: CivilInstant) -> int {
    day_number(c) * 86400 + c.hour * 3600 + c.minute * 60 + c.second
}

/// The seconds that pass from `from` to `to`, negative where `to` comes first.
pub open spec fn elapsed(from: CivilInstant, to: CivilInstant) -> int {
    timestamp(to) - timestamp(from)
}

pub proof fn lemma_timestamp_bounds(c: CivilInstant)
    requires
        c.valid(),
    ensures
        -366 * 86400 <= timestamp(c) <= 3_700_000 * 86400,
{
    lemma_months_span_bounds(1, c.month as int, c.year as int);
    let y = c.year as int;
    assert(-366 <= days_before_year(y) <= 3_660_000) by (nonlinear_arith)
        requires 0 <= y <= 9999;
}

/// Relies on chrono's `NaiveDateTime::signed_duration_since` and
/// `TimeDelta::num_seconds`: the seconds between two dates and times of the
/// proleptic Gregorian calendar, with days of 86400 seconds.
#[verifier::external_body]
pub(crate) fn seconds_between(from: CivilInstant, to: CivilInstant) -> (r: i64)
    requires
        from.valid(),
        to.valid(),
    ensures
        r == elapsed(from, to),
{
    let a: NaiveDateTime = NaiveDate::from_ymd_opt(from.year, from.month, from.day).unwrap()
        .and_hms_opt(from.hour, from.minute, from.second).unwrap();
    let b: NaiveDateTime = NaiveDate::from_ymd_opt(to.year, to.month, to.day).unwrap()
        .and_hms_opt(to.hour, to.minute, to.second).unwrap();
    b.signed_duration_since(a).num_seconds()
}

/// Whether `a` comes strictly before `b`: the fields compared from the year down.
pub open spec fn earlier(a: CivilInstant, b: CivilInstant) -> bool {
    if a.year != b.year {
        a.year < b.year
    } else if a.month != b.month {
        a.month < b.month
    } else if a.day != b.day {
        a.day < b.day
    } else if a.hour != b.hour {
        a.hour < b.hour
    } else if a.minute != b.minute {
        a.minute < b.minute
    } else {
        a.second < b.second
    }
}

impl CivilInstant {
    /// Whether this instant comes strictly after `other`.
    pub fn is_after(&self, other: &CivilInstant) -> (r: bool)
        ensures
            r == earlier(*other, *self),
    {
        if self.year != other.year {
            self.year > other.year
        } else if self.month != other.month {
            self.month > other.month
        } else if self.day != other.day {
            self.day > other.day
        } else if self.hour != other.hour {
            self.hour > other.hour
        } else if self.minute != other.minute {
            self.minute > other.minute
        } else {
            self.second > other.second
        }
    }
}

proof fn lemma_quotient_step(y: int, d: int)
    requires
        d > 0,
    ensures
        y / d - (y - 1) / d == if y % d == 0 { 1int } else { 0 },
{
    let q = (y - 1) / d;
    let r = (y - 1) % d;
    assert(y - 1 == q * d + r) by {
        lemma_fundamental_div_mod(y - 1, d);
    }
    if r == d - 1 {
        assert(y == (q + 1) * d + 0) by (nonlinear_arith)
            requires y - 1 == q * d + r, r == d - 1;
        lemma_fundamental_div_mod_converse(y, d, q + 1, 0);
    } else {
        lemma_fundamental_div_mod_converse(y, d, q, r + 1);
    }
}

pub proof fn lemma_days_before_next_year(y: int)
    ensures
        days_before_year(y + 1) == days_before_year(y) + year_length(y),
{
    lemma_quotient_step(y, 4);
    lemma_quotient_step(y, 100);
    lemma_quotient_step(y, 400);
}

proof fn lemma_days_before_year_grows(a: int, b: int)
    requires
        a <= b,
    ensures
        days_before_year(a) <= days_before_year(b),
    decreases b - a,
{
    if a < b {
        lemma_days_before_year_grows(a, b - 1);
        lemma_days_before_next_year(b - 1);
    }
}

proof fn lemma_day_number_within_year(c: CivilInstant)
    requires
        c.valid(),
    ensures
        days_before_year(c.year as int) < day_number(c) <= days_before_year(c.year as int + 1),
{
    let y = c.year as int;
    let m = c.month as int;
    lemma_months_span_split(1, m + 1, 13, y);
    lemma_months_span_bounds(m + 1, 13, y);
    lemma_months_span_bounds(1, m, y);
    reveal_with_fuel(months_span, 13);
    lemma_days_before_next_year(y);
}

/// Instants ordered field by field, from the year down, are ordered in time.
pub proof fn lemma_earlier_is_chronological(a: CivilInstant, b: CivilInstant)
    requires
        a.valid(),
        b.valid(),
        earlier(a, b),
    ensures
        timestamp(a) < timestamp(b),
        elapsed(a, b) > 0,
{
    if a.year != b.year {
        lemma_day_number_within_year(a);
        lemma_day_number_within_year(b);
        lemma_days_before_year_grows(a.year as int + 1, b.year as int);
    } else if a.month != b.month {
        let y = a.year as int;
        lemma_months_span_split(1, a.month as int + 1, b.month as int, y);
        lemma_months_span_bounds(a.month as int + 1, b.month as int, y);
    }
}

} // verus!
