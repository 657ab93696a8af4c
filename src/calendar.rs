//! The proleptic Gregorian calendar: leap years and month lengths.

use vstd::prelude::*;

verus! {

/// A year is leap when divisible by 4, and either not by 100 or also by 400.
pub open spec fn leap(year: int) -> bool {
    year % 4 == 0 && (year % 100 != 0 || year % 400 == 0)
}

/// The number of days of `month` (1 to 12) in `year`.
pub open spec fn month_length(month: int, year: int) -> int {
    if month == 2 {
        if leap(year) { 29 } else { 28 }
    } else if month == 4 || month == 6 || month == 9 || month == 11 {
        30
    } else {
        31
    }
}

/// The number of days of `year`.
pub open spec fn year_length(year: int) -> int {
    if leap(year) { 366 } else { 365 }
}

/// The days of the months `lo`, `lo + 1`, ..., `hi - 1` of `year`, added up.
pub open spec fn months_span(lo: int, hi: int, year: int) -> int
    decreases hi - lo,
{
    if hi <= lo {
        0
    } else {
        months_span(lo, hi - 1, year) + month_length(hi - 1, year)
    }
}

pub proof fn lemma_months_span_bounds(lo: int, hi: int, year: int)
    requires
        lo <= hi,
    ensures
        28 * (hi - lo) <= months_span(lo, hi, year) <= 31 * (hi - lo),
    decreases hi - lo,
{
    if lo < hi {
        lemma_months_span_bounds(lo, hi - 1, year);
    }
}

pub proof fn lemma_months_span_split(lo: int, mid: int, hi: int, year: int)
    requires
        lo <= mid <= hi,
    ensures
        months_span(lo, hi, year) == months_span(lo, mid, year) + months_span(mid, hi, year),
    decreases hi - mid,
{
    if mid < hi {
        lemma_months_span_split(lo, mid, hi - 1, year);
    }
}

/// A year's days are its twelve months' days, December's 31 last.
pub proof fn lemma_year_of_months(year: int)
    ensures
        year_length(year) == months_span(1, 13, year),
        months_span(12, 13, year) == 31,
{
    reveal_with_fuel(months_span, 13);
}

/// Whether `year` is a leap year.
#[verifier::spinoff_prover]
pub fn is_leap_year(year: i32) -> (r: bool)
    ensures
        r == leap(year as int),
{
    year % 4 == 0 && (year % 100 != 0 || (year % 100 == 0 && year % 400 == 0))
}

/// The twelve month lengths of `year`, January first.
pub fn get_year_months(year: i32) -> (r: Vec<i32>)
    ensures
        r@.len() == 12,
        forall|i: int| 0 <= i < 12 ==> #[trigger] r@[i] == month_length(i + 1, year as int),
{
    let feb: i32 = if is_leap_year(year) { 29 } else { 28 };
    vec![31, feb, 31, 30, 31, 30, 31, 31, 30, 31, 30, 31]
}

/// The number of days of `month` (1 to 12) in `year`.
pub fn get_month_size(month: i32, year: i32) -> (r: i32)
    requires
        1 <= month <= 12,
    ensures
        r == month_length(month as int, year as int),
        month == 2 ==> (r == 29 <==> leap(year as int)),
        28 <= r <= 31,
{
    let months = get_year_months(year);
    months[(month - 1) as usize]
}

/// The number of days of `year`.
pub fn days_in_a_year(year: i32) -> (r: i32)
    ensures
        r == year_length(year as int),
        r == months_span(1, 13, year as int),
{
    proof {
        reveal_with_fuel(months_span, 13);
    }
    if is_leap_year(year) {
        366
    } else {
        365
    }
}

} // verus!
