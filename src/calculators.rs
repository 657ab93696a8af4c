//! Differences between two civil instants: totals in one unit, and the
//! fractions that make up a largest-unit-first breakdown.

use vstd::prelude::*;
use crate::calendar::{
    days_in_a_year, get_month_size, get_year_months, lemma_months_span_bounds,
    lemma_months_span_split, lemma_year_of_months, month_length, months_span, year_length,
};
use crate::instant::{
    day_number, earlier, elapsed, lemma_days_before_next_year, lemma_earlier_is_chronological,
    lemma_timestamp_bounds, seconds_between, CivilInstant,
};
use vstd::arithmetic::div_mod::lemma_fundamental_div_mod_converse;

verus! {

pub open spec fn abs(x: int) -> int {
    if x < 0 { -x } else { x }
}

/// The earlier of two instants: `a` unless `b` comes strictly before it.
pub open spec fn earlier_of(a: CivilInstant, b: CivilInstant) -> CivilInstant {
    if earlier(b, a) { b } else { a }
}

/// The later of two instants: `b` unless it comes strictly before `a`.
pub open spec fn later_of(a: CivilInstant, b: CivilInstant) -> CivilInstant {
    if earlier(b, a) { a } else { b }
}

// When a larger unit has not completed because the smaller one below it has
// not yet come round to where it started, going from `from` to `to`.

pub open spec fn minute_partial(from: CivilInstant, to: CivilInstant) -> bool {
    to.minute == from.minute && to.second < from.second
}

pub open spec fn hour_partial(from: CivilInstant, to: CivilInstant) -> bool {
    (to.hour == from.hour && to.minute < from.minute) || minute_partial(from, to)
}

pub open spec fn day_partial(from: CivilInstant, to: CivilInstant) -> bool {
    (to.day == from.day && to.hour < from.hour) || hour_partial(from, to)
}

pub open spec fn month_partial(from: CivilInstant, to: CivilInstant) -> bool {
    to.day < from.day || day_partial(from, to)
}

pub open spec fn year_partial(from: CivilInstant, to: CivilInstant) -> bool {
    to.month < from.month || month_partial(from, to)
}

// Every total and fraction below is taken from the earlier of its two
// instants to the later one, so neither depends on their order.

/// The whole years between `a` and `b`: the difference of their years, less
/// one where the years differ and the later instant has not come round to the
/// earlier one's point in its year.
pub open spec fn years_total(a: CivilInstant, b: CivilInstant) -> int {
    let lo = earlier_of(a, b);
    let hi = later_of(a, b);
    (hi.year - lo.year) - if hi.year != lo.year && year_partial(lo, hi) { 1int } else { 0 }
}

/// The whole months between `a` and `b`: the difference of their months, less
/// one where the later day of month has not caught up with the earlier.
pub open spec fn months_total(a: CivilInstant, b: CivilInstant) -> int {
    let lo = earlier_of(a, b);
    let hi = later_of(a, b);
    (hi.year - lo.year) * 12 + hi.month - lo.month - if lo.day > hi.day { 1int } else { 0 }
}

pub open spec fn seconds_total(from: CivilInstant, to: CivilInstant) -> int {
    abs(elapsed(from, to))
}

pub open spec fn minutes_total(from: CivilInstant, to: CivilInstant) -> int {
    seconds_total(from, to) / 60
}

pub open spec fn hours_total(from: CivilInstant, to: CivilInstant) -> int {
    seconds_total(from, to) / 3600
}

pub open spec fn days_total(from: CivilInstant, to: CivilInstant) -> int {
    seconds_total(from, to) / 86400
}

pub open spec fn weeks_total(from: CivilInstant, to: CivilInstant) -> int {
    seconds_total(from, to) / 604800
}

/// The months left over after the whole years: the whole months, less one
/// more where the month has not completed (never below zero), modulo 12.
pub open spec fn months_fraction(a: CivilInstant, b: CivilInstant) -> int {
    let months = months_total(a, b);
    let partial = month_partial(earlier_of(a, b), later_of(a, b));
    (if partial && months > 0 { months - 1 } else { months }) % 12
}

/// Whether the month changes once, to the next one, from `from` to `to`.
pub open spec fn crosses_one_month(from: CivilInstant, to: CivilInstant) -> bool {
    abs(to.month - from.month) == 1 || to.month - from.month == -11
}

/// The days of a span that ends one day short of a full year: the total less
/// the rest of the starting year's months (December aside) and the months of
/// the ending year before the ending month.
pub open spec fn days_near_year_end(from: CivilInstant, to: CivilInstant) -> int {
    days_total(to, from) - (months_span(from.month as int, 12, from.year as int)
        + months_span(1, to.month as int, to.year as int)) - 1
}

/// The days left over after the whole months. With `lo` the earlier instant
/// and `hi` the later: where the month changes once, the total days modulo the
/// length of `lo`'s month; where the span crosses into the next year and ends
/// one day short of `lo`'s year, the days past the months on either side of
/// the new year; where the total exceeds `lo`'s month, the difference of the
/// days of month; else the total days.
pub open spec fn days_fraction(a: CivilInstant, b: CivilInstant) -> int {
    let lo = earlier_of(a, b);
    let hi = later_of(a, b);
    let size = month_length(lo.month as int, lo.year as int);
    if crosses_one_month(lo, hi) {
        days_total(lo, hi) % size
    } else if hi.year == lo.year + 1 && year_length(lo.year as int) - days_total(lo, hi) == 1 {
        days_near_year_end(lo, hi)
    } else if days_total(lo, hi) > size {
        abs(hi.day - lo.day)
    } else {
        days_total(lo, hi)
    }
}

/// The hours left over after the whole days: the difference of the hours, less
/// one where the hour has not completed, modulo 24.
pub open spec fn hours_fraction(a: CivilInstant, b: CivilInstant) -> int {
    let lo = earlier_of(a, b);
    let hi = later_of(a, b);
    (hi.hour - lo.hour - if hour_partial(lo, hi) { 1int } else { 0 }) % 24
}

/// The minutes left over after the whole hours.
pub open spec fn minutes_fraction(from: CivilInstant, to: CivilInstant) -> int {
    minutes_total(from, to) % 60
}

/// The seconds left over after the whole minutes.
pub open spec fn seconds_fraction(from: CivilInstant, to: CivilInstant) -> int {
    seconds_total(from, to) % 60
}

fn abs_diff(a: i64, b: i64) -> (r: i64)
    requires
        -0x1000_0000_0000 <= a <= 0x1000_0000_0000,
        -0x1000_0000_0000 <= b <= 0x1000_0000_0000,
    ensures
        r == abs(a - b),
{
    if a < b { b - a } else { a - b }
}

/// The absolute number of seconds between the two instants.
fn seconds_apart(from: CivilInstant, to: CivilInstant) -> (r: i64)
    requires
        from.valid(),
        to.valid(),
    ensures
        r == seconds_total(from, to),
        0 <= r <= 4_000_000 * 86400,
{
    proof {
        lemma_timestamp_bounds(from);
        lemma_timestamp_bounds(to);
    }
    let s = seconds_between(from, to);
    if s < 0 { -s } else { s }
}

/// The two instants, the earlier first.
fn ordered(a: CivilInstant, b: CivilInstant) -> (r: (CivilInstant, CivilInstant))
    ensures
        r.0 == earlier_of(a, b),
        r.1 == later_of(a, b),
{
    if a.is_after(&b) { (b, a) } else { (a, b) }
}

/// The whole years between the two instants, in either order.
pub fn num_years(from: CivilInstant, to: CivilInstant) -> (r: i64)
    requires
        from.valid(),
        to.valid(),
    ensures
        r == years_total(from, to),
        r >= 0,
{
    let (lo, hi) = ordered(from, to);
    let years = hi.year as i64 - lo.year as i64;
    if years > 0 && year_is_partial(lo, hi) {
        return years - 1;
    }
    years
}

/// The whole months between the two instants, in either order.
pub fn num_months_total(from: CivilInstant, to: CivilInstant) -> (r: i64)
    requires
        from.valid(),
        to.valid(),
    ensures
        r == months_total(from, to),
        r >= 0,
{
    let (lo, hi) = ordered(from, to);
    let mut value = (hi.year as i64 * 12 + hi.month as i64) - (lo.year as i64 * 12 + lo.month as i64);
    if lo.day > hi.day {
        value = value - 1;
    }
    value
}

pub fn num_weeks_total(from: CivilInstant, to: CivilInstant) -> (r: i64)
    requires
        from.valid(),
        to.valid(),
    ensures
        r == weeks_total(from, to),
{
    seconds_apart(from, to) / 604800
}

pub fn num_days_total(from: CivilInstant, to: CivilInstant) -> (r: i64)
    requires
        from.valid(),
        to.valid(),
    ensures
        r == days_total(from, to),
        0 <= r <= 4_000_000,
{
    seconds_apart(from, to) / 86400
}

pub fn num_hours_total(from: CivilInstant, to: CivilInstant) -> (r: i64)
    requires
        from.valid(),
        to.valid(),
    ensures
        r == hours_total(from, to),
{
    seconds_apart(from, to) / 3600
}

pub fn num_minutes_total(from: CivilInstant, to: CivilInstant) -> (r: i64)
    requires
        from.valid(),
        to.valid(),
    ensures
        r == minutes_total(from, to),
{
    seconds_apart(from, to) / 60
}

pub fn num_seconds_total(from: CivilInstant, to: CivilInstant) -> (r: i64)
    requires
        from.valid(),
        to.valid(),
    ensures
        r == seconds_total(from, to),
{
    seconds_apart(from, to)
}

fn minute_is_partial(from: CivilInstant, to: CivilInstant) -> (r: bool)
    ensures
        r == minute_partial(from, to),
{
    to.minute == from.minute && to.second < from.second
}

fn hour_is_partial(from: CivilInstant, to: CivilInstant) -> (r: bool)
    ensures
        r == hour_partial(from, to),
{
    to.hour == from.hour && to.minute < from.minute || minute_is_partial(from, to)
}

fn day_is_partial(from: CivilInstant, to: CivilInstant) -> (r: bool)
    ensures
        r == day_partial(from, to),
{
    to.day == from.day && to.hour < from.hour || hour_is_partial(from, to)
}

fn month_is_partial(from: CivilInstant, to: CivilInstant) -> (r: bool)
    ensures
        r == month_partial(from, to),
{
    to.day < from.day || day_is_partial(from, to)
}

fn year_is_partial(from: CivilInstant, to: CivilInstant) -> (r: bool)
    ensures
        r == year_partial(from, to),
{
    to.month < from.month || month_is_partial(from, to)
}

/// The months left over after the whole years, in the breakdown.
pub fn num_months_fraction(from: CivilInstant, to: CivilInstant) -> (r: i64)
    requires
        from.valid(),
        to.valid(),
    ensures
        r == months_fraction(from, to),
        0 <= r < 12,
{
    let (lo, hi) = ordered(from, to);
    let mut months = num_months_total(from, to);
    if month_is_partial(lo, hi) && months > 0 {
        months = months - 1;
    }
    months % 12
}

/// The days of a span that ends one day short of a full year.
fn days_passed_in_year(from: CivilInstant, to: CivilInstant) -> (r: i64)
    requires
        from.valid(),
        to.valid(),
    ensures
        r == days_near_year_end(from, to),
{
    let from_month_sizes = get_year_months(from.year);
    let to_month_sizes = get_year_months(to.year);
    let from_month = (from.month - 1) as usize;
    let to_month = (to.month - 1) as usize;

    let mut from_sum: i64 = 0;
    let mut i: usize = from_month;
    while i < 11
        invariant
            from_month <= i <= 11,
            from_month == from.month - 1,
            from_month_sizes@.len() == 12,
            forall|k: int| 0 <= k < 12 ==> #[trigger] from_month_sizes@[k] == month_length(k + 1, from.year as int),
            from_sum == months_span(from.month as int, i + 1, from.year as int),
            0 <= from_sum <= 31 * i,
        decreases 11 - i,
    {
        from_sum = from_sum + from_month_sizes[i] as i64;
        i = i + 1;
    }

    let mut to_sum: i64 = 0;
    let mut j: usize = 0;
    while j < to_month
        invariant
            0 <= j <= to_month,
            to_month == to.month - 1,
            to_month < 12,
            to_month_sizes@.len() == 12,
            forall|k: int| 0 <= k < 12 ==> #[trigger] to_month_sizes@[k] == month_length(k + 1, to.year as int),
            to_sum == months_span(1, j + 1, to.year as int),
            0 <= to_sum <= 31 * j,
        decreases to_month - j,
    {
        to_sum = to_sum + to_month_sizes[j] as i64;
        j = j + 1;
    }

    num_days_total(to, from) - (from_sum + to_sum) - 1
}

/// The days left over after the whole months, in the breakdown.
pub fn num_days_fraction(from: CivilInstant, to: CivilInstant) -> (r: i64)
    requires
        from.valid(),
        to.valid(),
    ensures
        r == days_fraction(from, to),
        0 <= r <= 31,
{
    proof {
        lemma_days_fraction_bounds(from, to);
    }
    let (lo, hi) = ordered(from, to);
    let from_month = lo.month as i64;
    let to_month = hi.month as i64;
    let goes_over_month = abs_diff(to_month, from_month) == 1 || to_month - from_month == -11;
    let goes_over_new_year = hi.year as i64 == lo.year as i64 + 1;
    let from_month_size = get_month_size(lo.month as i32, lo.year) as i64;
    let total = num_days_total(lo, hi);

    if goes_over_month {
        total % from_month_size
    } else if goes_over_new_year && days_in_a_year(lo.year) as i64 - total == 1 {
        days_passed_in_year(lo, hi)
    } else if total > from_month_size {
        abs_diff(hi.day as i64, lo.day as i64)
    } else {
        total
    }
}

/// The hours left over after the whole days, in the breakdown.
pub fn num_hours_fraction(from: CivilInstant, to: CivilInstant) -> (r: i64)
    requires
        from.valid(),
        to.valid(),
    ensures
        r == hours_fraction(from, to),
        0 <= r < 24,
{
    let (lo, hi) = ordered(from, to);
    let mut hours = hi.hour as i64 - lo.hour as i64;
    if hour_is_partial(lo, hi) {
        hours = hours - 1;
    }
    if hours < 0 { hours + 24 } else { hours }
}

/// The minutes left over after the whole hours, in the breakdown.
pub fn num_minutes_fraction(from: CivilInstant, to: CivilInstant) -> (r: i64)
    requires
        from.valid(),
        to.valid(),
    ensures
        r == minutes_fraction(from, to),
        0 <= r < 60,
{
    num_minutes_total(from, to) % 60
}

/// The seconds left over after the whole minutes, in the breakdown.
pub fn num_seconds_fraction(from: CivilInstant, to: CivilInstant) -> (r: i64)
    requires
        from.valid(),
        to.valid(),
    ensures
        r == seconds_fraction(from, to),
        0 <= r < 60,
{
    num_seconds_total(from, to) % 60
}

/// No whole month and no whole year lies between an instant and itself.
pub proof fn lemma_identity(x: CivilInstant)
    ensures
        months_total(x, x) == 0,
        years_total(x, x) == 0,
{
}

/// No total and no fraction depends on the order of the two instants.
pub proof fn lemma_totals_symmetric(a: CivilInstant, b: CivilInstant)
    ensures
        seconds_total(a, b) == seconds_total(b, a),
        minutes_total(a, b) == minutes_total(b, a),
        hours_total(a, b) == hours_total(b, a),
        days_total(a, b) == days_total(b, a),
        weeks_total(a, b) == weeks_total(b, a),
        months_total(a, b) == months_total(b, a),
        years_total(a, b) == years_total(b, a),
        months_fraction(a, b) == months_fraction(b, a),
        days_fraction(a, b) == days_fraction(b, a),
        hours_fraction(a, b) == hours_fraction(b, a),
        minutes_fraction(a, b) == minutes_fraction(b, a),
        seconds_fraction(a, b) == seconds_fraction(b, a),
{
    if !earlier(a, b) && !earlier(b, a) {
        assert(a == b);
    }
}

/// The months before month `m` of two years differ by at most the leap day.
proof fn lemma_leading_months_gap(m: int, y1: int, y2: int)
    requires
        1 <= m <= 13,
    ensures
        months_span(1, m, y1) - months_span(1, m, y2)
            == if m > 2 { month_length(2, y1) - month_length(2, y2) } else { 0 },
    decreases m,
{
    if m > 1 {
        lemma_leading_months_gap(m - 1, y1, y2);
    }
}

/// The seconds of `c` since the start of its day.
pub open spec fn second_of_day(c: CivilInstant) -> int {
    c.hour * 3600 + c.minute * 60 + c.second
}

/// From an instant to one no earlier, the whole days are the difference of the
/// day numbers, less one where the later time of day is the smaller.
proof fn lemma_days_between_ordered(lo: CivilInstant, hi: CivilInstant)
    requires
        lo.valid(),
        hi.valid(),
        !earlier(hi, lo),
    ensures
        days_total(lo, hi) == day_number(hi) - day_number(lo)
            - if second_of_day(hi) < second_of_day(lo) { 1int } else { 0 },
{
    if earlier(lo, hi) {
        lemma_earlier_is_chronological(lo, hi);
    } else {
        assert(lo == hi);
    }
    let dd = day_number(hi) - day_number(lo);
    let sd = second_of_day(hi) - second_of_day(lo);
    assert(elapsed(lo, hi) == dd * 86400 + sd);
    if sd >= 0 {
        lemma_fundamental_div_mod_converse(elapsed(lo, hi), 86400, dd, sd);
    } else {
        lemma_fundamental_div_mod_converse(elapsed(lo, hi), 86400, dd - 1, sd + 86400);
    }
}

/// Across one new year and one day short of a full year, the days past the
/// months on either side come to 28, 29 or 30.
proof fn lemma_year_end_days(lo: CivilInstant, hi: CivilInstant)
    requires
        lo.valid(),
        hi.valid(),
        !earlier(hi, lo),
        !crosses_one_month(lo, hi),
        hi.year == lo.year + 1,
        year_length(lo.year as int) - days_total(lo, hi) == 1,
    ensures
        28 <= days_near_year_end(lo, hi) <= 30,
{
    let y = lo.year as int;
    assert(days_total(hi, lo) == days_total(lo, hi));
    lemma_days_between_ordered(lo, hi);
    lemma_days_before_next_year(y);
    lemma_months_span_split(1, lo.month as int, 13, y);
    lemma_months_span_split(lo.month as int, 12, 13, y);
    lemma_year_of_months(y);
    lemma_leading_months_gap(lo.month as int, y, y + 1);
    lemma_leading_months_gap(hi.month as int, y, y + 1);
    if hi.month > lo.month {
        lemma_months_span_split(1, lo.month as int, hi.month as int, y + 1);
        lemma_months_span_bounds(lo.month as int, hi.month as int, y + 1);
    } else if hi.month < lo.month {
        lemma_months_span_split(1, hi.month as int, lo.month as int, y);
        lemma_months_span_bounds(hi.month as int, lo.month as int, y);
    }
}

/// The days left over after the whole months lie between 0 and 31.
pub proof fn lemma_days_fraction_bounds(a: CivilInstant, b: CivilInstant)
    requires
        a.valid(),
        b.valid(),
    ensures
        0 <= days_fraction(a, b) <= 31,
{
    let lo = earlier_of(a, b);
    let hi = later_of(a, b);
    if !crosses_one_month(lo, hi) && hi.year == lo.year + 1
        && year_length(lo.year as int) - days_total(lo, hi) == 1 {
        lemma_year_end_days(lo, hi);
    }
}

} // verus!
