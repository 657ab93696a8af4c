//! The parser: a string and the instant "now" give a civil instant. Candidate
//! formats are tried in a fixed order, times of day first, then dates, then
//! dates with times, and the first that matches wins.

use vstd::prelude::*;
use crate::instant::{CivilInstant, valid_fields};
use chrono::{Datelike, NaiveDate, NaiveDateTime, NaiveTime, Timelike};
use chrono::format::ParseErrorKind;

verus! {

/// Why a string could not be read as an instant.
#[derive(Clone, Copy, Debug, PartialEq, Eq, Structural)]
pub enum ParseFailure {
    /// A field lies outside its range.
    OutOfRange,
    /// The fields name no date and time.
    Impossible,
    /// The fields do not determine a date and time.
    NotEnough,
    /// A character does not fit the format.
    Invalid,
    /// The text ended early.
    TooShort,
    /// Text is left over after the format.
    TooLong,
    /// The format itself is wrong.
    BadFormat,
}

/// A string that no candidate format reads, with the reason why the last one failed.
#[derive(Debug)]
pub struct ParseError {
    pub input: String,
    pub reason: ParseFailure,
}

/// A description of each failure for people.
pub open spec fn failure_text(f: ParseFailure) -> Seq<char> {
    match f {
        ParseFailure::OutOfRange => "a field is out of range"@,
        ParseFailure::Impossible => "no date and time has these fields"@,
        ParseFailure::NotEnough => "not enough fields for a date and time"@,
        ParseFailure::Invalid => "unexpected characters"@,
        ParseFailure::TooShort => "the input ends too early"@,
        ParseFailure::TooLong => "trailing input"@,
        ParseFailure::BadFormat => "bad format"@,
    }
}

impl ParseFailure {
    /// A description of the failure for people.
    pub fn description(&self) -> (r: &'static str)
        ensures
            r@ == failure_text(*self),
    {
        match self {
            ParseFailure::OutOfRange => "a field is out of range",
            ParseFailure::Impossible => "no date and time has these fields",
            ParseFailure::NotEnough => "not enough fields for a date and time",
            ParseFailure::Invalid => "unexpected characters",
            ParseFailure::TooShort => "the input ends too early",
            ParseFailure::TooLong => "trailing input",
            ParseFailure::BadFormat => "bad format",
        }
    }
}

/// What chrono's `NaiveTime::parse_from_str` reads from a string by a format:
/// the hour, minute, second and nanosecond, or nothing where the string does
/// not match. A leap second reads as second 59 with a nanosecond of a billion
/// or more.
pub uninterp spec fn time_read(s: Seq<char>, fmt: Seq<char>) -> Option<(u32, u32, u32, u32)>;

/// What chrono's `NaiveDate::parse_from_str` reads from a string by a format:
/// the year, month and day, or nothing where the string does not match.
pub uninterp spec fn date_read(s: Seq<char>, fmt: Seq<char>) -> Option<(i32, u32, u32)>;

/// What chrono's `NaiveDateTime::parse_from_str` reads from a string by a
/// format: year, month, day, hour, minute, second and nanosecond, or the kind
/// of error where the string does not match.
pub uninterp spec fn datetime_read(s: Seq<char>, fmt: Seq<char>) -> Result<(i32, u32, u32, u32, u32, u32, u32), ParseFailure>;

/// Relies on chrono's `NaiveTime::parse_from_str` and the `Timelike` getters:
/// the result depends on the string and the format alone.
#[verifier::external_body]
fn read_time(s: &str, fmt: &str) -> (r: Option<(u32, u32, u32, u32)>)
    ensures
        r == time_read(s@, fmt@),
{
    NaiveTime::parse_from_str(s, fmt).ok().map(|t| (t.hour(), t.minute(), t.second(), t.nanosecond()))
}

/// Relies on chrono's `NaiveDate::parse_from_str` and the `Datelike` getters:
/// the result depends on the string and the format alone.
#[verifier::external_body]
fn read_date(s: &str, fmt: &str) -> (r: Option<(i32, u32, u32)>)
    ensures
        r == date_read(s@, fmt@),
{
    NaiveDate::parse_from_str(s, fmt).ok().map(|d| (d.year(), d.month(), d.day()))
}

/// Relies on chrono's `NaiveDateTime::parse_from_str`, the `Datelike` and
/// `Timelike` getters, and `ParseError::kind`: the result, and the kind of
/// error, depend on the string and the format alone.
#[verifier::external_body]
fn read_datetime(s: &str, fmt: &str) -> (r: Result<(i32, u32, u32, u32, u32, u32, u32), ParseFailure>)
    ensures
        r == datetime_read(s@, fmt@),
{
    match NaiveDateTime::parse_from_str(s, fmt) {
        Ok(t) => Ok((t.year(), t.month(), t.day(), t.hour(), t.minute(), t.second(), t.nanosecond())),
        Err(e) => Err(match e.kind() {
            ParseErrorKind::OutOfRange => ParseFailure::OutOfRange,
            ParseErrorKind::Impossible => ParseFailure::Impossible,
            ParseErrorKind::NotEnough => ParseFailure::NotEnough,
            ParseErrorKind::Invalid => ParseFailure::Invalid,
            ParseErrorKind::TooShort => ParseFailure::TooShort,
            ParseErrorKind::TooLong => ParseFailure::TooLong,
            _ => ParseFailure::BadFormat,
        }),
    }
}

/// How many candidate formats each tier has.
pub const TIME_FORMATS: usize = 2;
pub const DATE_FORMATS: usize = 14;
pub const DATETIME_FORMATS: usize = 32;

/// The candidate formats for a time of day, in the order they are tried.
pub open spec fn time_format(k: int) -> Seq<char> {
    if k == 0 {
        "%T"@
    } else {
        "%R"@
    }
}

/// The candidate formats for a date, in the order they are tried.
pub open spec fn date_format(k: int) -> Seq<char> {
    if k == 0 {
        "%Y-%m-%d"@
    } else if k == 1 {
        "%Y/%m/%d"@
    } else if k == 2 {
        "%Y.%m.%d"@
    } else if k == 3 {
        "%d-%m-%Y"@
    } else if k == 4 {
        "%d/%m/%Y"@
    } else if k == 5 {
        "%d.%m.%Y"@
    } else if k == 6 {
        "%Y %B %d"@
    } else if k == 7 {
        "%d %B %Y"@
    } else if k == 8 {
        "%Y-%B-%d"@
    } else if k == 9 {
        "%d-%B-%Y"@
    } else if k == 10 {
        "%Y/%B/%d"@
    } else if k == 11 {
        "%d/%B/%Y"@
    } else if k == 12 {
        "%Y.%B.%d"@
    } else {
        "%d.%B.%Y"@
    }
}

/// The candidate formats for a date with a time, in the order they are tried.
pub open spec fn datetime_format(k: int) -> Seq<char> {
    if k == 0 {
        "%d %B %Y %H:%M:%S"@
    } else if k == 1 {
        "%Y %B %d %H:%M:%S"@
    } else if k == 2 {
        "%d %B %Y %H:%M"@
    } else if k == 3 {
        "%Y %B %d %H:%M"@
    } else if k == 4 {
        "%Y-%m-%d %H:%M:%S"@
    } else if k == 5 {
        "%Y-%m-%d %H:%M"@
    } else if k == 6 {
        "%d-%m-%Y %H:%M:%S"@
    } else if k == 7 {
        "%d-%m-%Y %H:%M"@
    } else if k == 8 {
        "%Y.%m.%d %H:%M:%S"@
    } else if k == 9 {
        "%Y.%m.%d %H:%M"@
    } else if k == 10 {
        "%d.%m.%Y %H:%M:%S"@
    } else if k == 11 {
        "%d.%m.%Y %H:%M"@
    } else if k == 12 {
        "%Y/%m/%d %H:%M:%S"@
    } else if k == 13 {
        "%Y/%m/%d %H:%M"@
    } else if k == 14 {
        "%d/%m/%Y %H:%M:%S"@
    } else if k == 15 {
        "%d/%m/%Y %H:%M"@
    } else if k == 16 {
        "%Y-%m-%dT%H:%M:%S"@
    } else if k == 17 {
        "%Y-%m-%dT%H:%M"@
    } else if k == 18 {
        "%d-%m-%YT%H:%M:%S"@
    } else if k == 19 {
        "%d-%m-%YT%H:%M"@
    } else if k == 20 {
        "%Y.%m.%dT%H:%M:%S"@
    } else if k == 21 {
        "%Y.%m.%dT%H:%M"@
    } else if k == 22 {
        "%d.%m.%YT%H:%M:%S"@
    } else if k == 23 {
        "%d.%m.%YT%H:%M"@
    } else if k == 24 {
        "%Y/%m/%dT%H:%M:%S"@
    } else if k == 25 {
        "%Y/%m/%dT%H:%M"@
    } else if k == 26 {
        "%d/%m/%YT%H:%M:%S"@
    } else if k == 27 {
        "%d/%m/%YT%H:%M"@
    } else if k == 28 {
        "%d %B %YT%H:%M:%S"@
    } else if k == 29 {
        "%Y %B %dT%H:%M:%S"@
    } else if k == 30 {
        "%d %B %YT%H:%M"@
    } else {
        "%Y %B %dT%H:%M"@
    }
}

fn time_format_at(k: usize) -> (r: &'static str)
    requires
        k < TIME_FORMATS,
    ensures
        r@ == time_format(k as int),
{
    match k {
        0 => "%T",
        _ => "%R",
    }
}

fn date_format_at(k: usize) -> (r: &'static str)
    requires
        k < DATE_FORMATS,
    ensures
        r@ == date_format(k as int),
{
    match k {
        0 => "%Y-%m-%d",
        1 => "%Y/%m/%d",
        2 => "%Y.%m.%d",
        3 => "%d-%m-%Y",
        4 => "%d/%m/%Y",
        5 => "%d.%m.%Y",
        6 => "%Y %B %d",
        7 => "%d %B %Y",
        8 => "%Y-%B-%d",
        9 => "%d-%B-%Y",
        10 => "%Y/%B/%d",
        11 => "%d/%B/%Y",
        12 => "%Y.%B.%d",
        _ => "%d.%B.%Y",
    }
}

fn datetime_format_at(k: usize) -> (r: &'static str)
    requires
        k < DATETIME_FORMATS,
    ensures
        r@ == datetime_format(k as int),
{
    match k {
        0 => "%d %B %Y %H:%M:%S",
        1 => "%Y %B %d %H:%M:%S",
        2 => "%d %B %Y %H:%M",
        3 => "%Y %B %d %H:%M",
        4 => "%Y-%m-%d %H:%M:%S",
        5 => "%Y-%m-%d %H:%M",
        6 => "%d-%m-%Y %H:%M:%S",
        7 => "%d-%m-%Y %H:%M",
        8 => "%Y.%m.%d %H:%M:%S",
        9 => "%Y.%m.%d %H:%M",
        10 => "%d.%m.%Y %H:%M:%S",
        11 => "%d.%m.%Y %H:%M",
        12 => "%Y/%m/%d %H:%M:%S",
        13 => "%Y/%m/%d %H:%M",
        14 => "%d/%m/%Y %H:%M:%S",
        15 => "%d/%m/%Y %H:%M",
        16 => "%Y-%m-%dT%H:%M:%S",
        17 => "%Y-%m-%dT%H:%M",
        18 => "%d-%m-%YT%H:%M:%S",
        19 => "%d-%m-%YT%H:%M",
        20 => "%Y.%m.%dT%H:%M:%S",
        21 => "%Y.%m.%dT%H:%M",
        22 => "%d.%m.%YT%H:%M:%S",
        23 => "%d.%m.%YT%H:%M",
        24 => "%Y/%m/%dT%H:%M:%S",
        25 => "%Y/%m/%dT%H:%M",
        26 => "%d/%m/%YT%H:%M:%S",
        27 => "%d/%m/%YT%H:%M",
        28 => "%d %B %YT%H:%M:%S",
        29 => "%Y %B %dT%H:%M:%S",
        30 => "%d %B %YT%H:%M",
        _ => "%Y %B %dT%H:%M",
    }
}

/// The instant with these fields, where they name an existing date and time.
pub open spec fn instant_of(year: int, month: int, day: int, hour: int, minute: int, second: int) -> Option<CivilInstant> {
    if valid_fields(year, month, day, hour, minute, second) {
        Some(CivilInstant {
            year: year as i32,
            month: month as u32,
            day: day as u32,
            hour: hour as u32,
            minute: minute as u32,
            second: second as u32,
        })
    } else {
        None
    }
}

/// A nanosecond field that stands for a leap second, a 60th second.
pub const LEAP_NANOS: u32 = 1_000_000_000;

/// A time of day read as hour, minute, second and nanosecond, on `now`'s date.
/// A leap second is out of range.
pub open spec fn instant_at_time(t: (u32, u32, u32, u32), now: CivilInstant) -> Option<CivilInstant> {
    if t.3 >= LEAP_NANOS {
        None
    } else {
        instant_of(now.year as int, now.month as int, now.day as int, t.0 as int, t.1 as int, t.2 as int)
    }
}

/// A date read as year, month and day, at `now`'s time of day.
pub open spec fn instant_on_date(d: (i32, u32, u32), now: CivilInstant) -> Option<CivilInstant> {
    instant_of(d.0 as int, d.1 as int, d.2 as int, now.hour as int, now.minute as int, now.second as int)
}

/// A date and time read as year, month, day, hour, minute, second and
/// nanosecond. A leap second is out of range.
pub open spec fn instant_of_datetime(t: (i32, u32, u32, u32, u32, u32, u32)) -> Option<CivilInstant> {
    if t.6 >= LEAP_NANOS {
        None
    } else {
        instant_of(t.0 as int, t.1 as int, t.2 as int, t.3 as int, t.4 as int, t.5 as int)
    }
}

/// What the `k`-th time format gives.
pub open spec fn time_candidate(raw: Seq<char>, now: CivilInstant, k: int) -> Option<CivilInstant> {
    match time_read(raw, time_format(k)) {
        Some(t) => instant_at_time(t, now),
        None => None,
    }
}

/// What the `k`-th date format gives.
pub open spec fn date_candidate(raw: Seq<char>, now: CivilInstant, k: int) -> Option<CivilInstant> {
    match date_read(raw, date_format(k)) {
        Some(d) => instant_on_date(d, now),
        None => None,
    }
}

/// What the `k`-th date-and-time format gives.
pub open spec fn datetime_candidate(raw: Seq<char>, k: int) -> Option<CivilInstant> {
    match datetime_read(raw, datetime_format(k)) {
        Ok(t) => instant_of_datetime(t),
        Err(_) => None,
    }
}

/// Why the `k`-th date-and-time format gives no instant, where it gives none:
/// chrono's kind of error, or a field out of range.
pub open spec fn datetime_failure(raw: Seq<char>, k: int) -> ParseFailure {
    match datetime_read(raw, datetime_format(k)) {
        Ok(_) => ParseFailure::OutOfRange,
        Err(f) => f,
    }
}

/// The first time format from the `k`-th on that gives an instant.
pub open spec fn first_time(raw: Seq<char>, now: CivilInstant, k: int) -> Option<CivilInstant>
    decreases TIME_FORMATS - k,
{
    if k >= TIME_FORMATS || k < 0 {
        None
    } else if time_candidate(raw, now, k) is Some {
        time_candidate(raw, now, k)
    } else {
        first_time(raw, now, k + 1)
    }
}

/// The first date format from the `k`-th on that gives an instant.
pub open spec fn first_date(raw: Seq<char>, now: CivilInstant, k: int) -> Option<CivilInstant>
    decreases DATE_FORMATS - k,
{
    if k >= DATE_FORMATS || k < 0 {
        None
    } else if date_candidate(raw, now, k) is Some {
        date_candidate(raw, now, k)
    } else {
        first_date(raw, now, k + 1)
    }
}

/// The first date-and-time format from the `k`-th on that gives an instant.
pub open spec fn first_datetime(raw: Seq<char>, k: int) -> Option<CivilInstant>
    decreases DATETIME_FORMATS - k,
{
    if k >= DATETIME_FORMATS || k < 0 {
        None
    } else if datetime_candidate(raw, k) is Some {
        datetime_candidate(raw, k)
    } else {
        first_datetime(raw, k + 1)
    }
}

/// The instant that `raw` stands for, given `now`: the first tier that reads it wins.
pub open spec fn parsed(raw: Seq<char>, now: CivilInstant) -> Option<CivilInstant> {
    if first_time(raw, now, 0) is Some {
        first_time(raw, now, 0)
    } else if first_date(raw, now, 0) is Some {
        first_date(raw, now, 0)
    } else {
        first_datetime(raw, 0)
    }
}

/// The instant for a time of day read as hour, minute, second and nanosecond,
/// on `now`'s date; none for a leap second or a field out of range.
pub fn time_instant(t: (u32, u32, u32, u32), now: CivilInstant) -> (r: Option<CivilInstant>)
    ensures
        r == instant_at_time(t, now),
{
    if t.3 >= LEAP_NANOS {
        None
    } else {
        CivilInstant::from_fields(now.year, now.month, now.day, t.0, t.1, t.2)
    }
}

/// The instant for a date read as year, month and day, at `now`'s time of
/// day; none for a field out of range.
pub fn date_instant(d: (i32, u32, u32), now: CivilInstant) -> (r: Option<CivilInstant>)
    ensures
        r == instant_on_date(d, now),
{
    CivilInstant::from_fields(d.0, d.1, d.2, now.hour, now.minute, now.second)
}

/// The instant for a date and time read as year, month, day, hour, minute,
/// second and nanosecond; none for a leap second or a field out of range.
pub fn datetime_instant(t: (i32, u32, u32, u32, u32, u32, u32)) -> (r: Option<CivilInstant>)
    ensures
        r == instant_of_datetime(t),
{
    if t.6 >= LEAP_NANOS {
        None
    } else {
        CivilInstant::from_fields(t.0, t.1, t.2, t.3, t.4, t.5)
    }
}

/// Reads `arg` as a time of day, on `now`'s date.
fn try_parse_times(arg: &str, now: CivilInstant) -> (r: Option<CivilInstant>)
    ensures
        r == first_time(arg@, now, 0),
        r matches Some(c) ==> c.valid(),
{
    let mut k: usize = 0;
    while k < TIME_FORMATS
        invariant
            k <= TIME_FORMATS,
            first_time(arg@, now, 0) == first_time(arg@, now, k as int),
        decreases TIME_FORMATS - k,
    {
        if let Some(t) = read_time(arg, time_format_at(k)) {
            let found = time_instant(t, now);
            if found.is_some() {
                return found;
            }
        }
        k = k + 1;
    }
    None
}

/// Reads `arg` as a date, at `now`'s time of day.
fn try_parse_dates(arg: &str, now: CivilInstant) -> (r: Option<CivilInstant>)
    ensures
        r == first_date(arg@, now, 0),
        r matches Some(c) ==> c.valid(),
{
    let mut k: usize = 0;
    while k < DATE_FORMATS
        invariant
            k <= DATE_FORMATS,
            first_date(arg@, now, 0) == first_date(arg@, now, k as int),
        decreases DATE_FORMATS - k,
    {
        if let Some(d) = read_date(arg, date_format_at(k)) {
            let found = date_instant(d, now);
            if found.is_some() {
                return found;
            }
        }
        k = k + 1;
    }
    None
}

/// Reads `arg` as a date with a time of day; where no format reads it, the
/// reason why the last one failed.
fn try_parse_datetimes(arg: &str) -> (r: Result<CivilInstant, ParseFailure>)
    ensures
        match r {
            Ok(c) => first_datetime(arg@, 0) == Some(c) && c.valid(),
            Err(f) => first_datetime(arg@, 0) is None
                && f == datetime_failure(arg@, DATETIME_FORMATS - 1),
        },
{
    let mut last = ParseFailure::NotEnough;
    let mut k: usize = 0;
    while k < DATETIME_FORMATS
        invariant
            k <= DATETIME_FORMATS,
            first_datetime(arg@, 0) == first_datetime(arg@, k as int),
            k > 0 ==> last == datetime_failure(arg@, k - 1),
        decreases DATETIME_FORMATS - k,
    {
        match read_datetime(arg, datetime_format_at(k)) {
            Ok(t) => match datetime_instant(t) {
                Some(c) => return Ok(c),
                None => last = ParseFailure::OutOfRange,
            },
            Err(f) => last = f,
        }
        k = k + 1;
    }
    Err(last)
}

/// Reads `arg` as an instant: as a time of day on `now`'s date, else as a date
/// at `now`'s time of day, else as a date with a time. Fails where none of the
/// candidate formats reads it to a valid instant, with the input and the
/// reason why the last candidate failed.
pub fn try_parse_all_formats(arg: &str, now: CivilInstant) -> (r: Result<CivilInstant, ParseError>)
    ensures
        match r {
            Ok(c) => parsed(arg@, now) == Some(c) && c.valid(),
            Err(e) => parsed(arg@, now) is None && e.input@ == arg@
                && e.reason == datetime_failure(arg@, DATETIME_FORMATS - 1),
        },
{
    if let Some(c) = try_parse_times(arg, now) {
        return Ok(c);
    }
    if let Some(c) = try_parse_dates(arg, now) {
        return Ok(c);
    }
    match try_parse_datetimes(arg) {
        Ok(c) => Ok(c),
        Err(failure) => Err(ParseError { input: arg.to_owned(), reason: failure }),
    }
}

} // verus!
