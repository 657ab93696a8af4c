use since::instant::{dt, CivilInstant};
use since::parsers::try_parse_all_formats as parse;
use chrono::{Datelike, Local, Timelike};

/// The current local time as a civil instant.
fn current_instant() -> CivilInstant {
    let n = Local::now();
    dt(n.year(), n.month(), n.day(), n.hour(), n.minute(), n.second())
}

// Shorthands that fill in missing date or time fields from `now`, as the
// parser does.
fn local_time(h: u32, m: u32, s: u32, now: CivilInstant) -> CivilInstant {
    dt(now.year, now.month, now.day, h, m, s)
}

fn local_date(y: i32, m: u32, d: u32, now: CivilInstant) -> CivilInstant {
    dt(y, m, d, now.hour, now.minute, now.second)
}

//
// TIMES
//
#[test]
fn tests_test_valid_time_formats_return_correct_datetimes() {
    let now = current_instant();

    assert_eq!(parse("15:00", now).unwrap(), local_time(15, 0, 0, now));
    assert_eq!(parse("15:00:34", now).unwrap(), local_time(15, 0, 34, now));
}

#[test]
fn tests_test_invalid_time_formats_return_errors() {
    let now = current_instant();

    assert!(parse("15.00", now).is_err());
    assert!(parse("15:00.0", now).is_err());
    assert!(parse("T15:00", now).is_err());
    assert!(parse("15:00T", now).is_err());
}

#[test]
fn tests_test_invalid_time_values_return_errors() {
    let now = current_instant();

    assert!(parse("f0:f0", now).is_err());
    assert!(parse("24:00", now).is_err());
    assert!(parse("24:01", now).is_err());
    assert!(parse("15:60", now).is_err());
    assert!(parse("-15:30", now).is_err());
    assert!(parse("15:-30", now).is_err());
}

//
// DATES
//
#[test]
fn tests_test_valid_date_formats_return_correct_datetimes() {
    let now = current_instant();
    let christmas = local_date(2018, 12, 24, now);

    assert_eq!(parse("2018-12-24", now).unwrap(), christmas);
    assert_eq!(parse("2018/12/24", now).unwrap(), christmas);
    assert_eq!(parse("2018.12.24", now).unwrap(), christmas);
    assert_eq!(parse("24-12-2018", now).unwrap(), christmas);
    assert_eq!(parse("24/12/2018", now).unwrap(), christmas);
    assert_eq!(parse("24.12.2018", now).unwrap(), christmas);
    assert_eq!(parse("2018 Dec 24", now).unwrap(), christmas);
    assert_eq!(parse("2018 December 24", now).unwrap(), christmas);
    assert_eq!(parse("24 Dec 2018", now).unwrap(), christmas);

    assert_eq!(
        parse("24.12.9999", now).unwrap(),
        local_date(9999, 12, 24, now)
    );
}

#[test]
fn tests_test_invalid_date_formats_return_errors() {
    let now = current_instant();

    // Different separators
    assert!(parse("2018|12|24", now).is_err());
    assert!(parse("2018:12:24", now).is_err());

    // No spaces supported without %B
    assert!(parse("2018 12 24", now).is_err());
    assert!(parse("24 12 2018", now).is_err());

    // Invalid shorthands
    assert!(parse("24 Decem 24", now).is_err());
    assert!(parse("24 De 24", now).is_err());
}

#[test]
fn tests_test_invalid_date_values_return_errors() {
    let now = current_instant();

    assert!(parse("f0.12.2018", now).is_err());
    assert!(parse("-24.12.2018", now).is_err());

    assert!(parse("24.24.2018", now).is_err());
    assert!(parse("44.12.2018", now).is_err());

    // Years have four digits at most.
    assert!(parse("24.12.10000", now).is_err());
}

//
// DATETIMES
//
#[test]
fn tests_test_valid_datetime_formats_return_correct_datetimes() {
    let now = current_instant();
    let christmas = dt(2018, 12, 24, 15, 30, 45);
    let secondless = dt(2018, 12, 24, 15, 30, 0);

    // List copied straight from parsers.rs
    assert_eq!(parse("24 December 2018 15:30:45", now).unwrap(), christmas);
    assert_eq!(parse("2018 Dec 24 15:30:45", now).unwrap(), christmas);
    assert_eq!(parse("24 Dec 2018 15:30", now).unwrap(), secondless);
    assert_eq!(parse("2018 December 24 15:30", now).unwrap(), secondless);
    // Dashes
    assert_eq!(parse("2018-12-24 15:30:45", now).unwrap(), christmas);
    assert_eq!(parse("2018-12-24 15:30", now).unwrap(), secondless);
    assert_eq!(parse("24-12-2018 15:30:45", now).unwrap(), christmas);
    assert_eq!(parse("24-12-2018 15:30", now).unwrap(), secondless);
    // Dots
    assert_eq!(parse("2018.12.24 15:30:45", now).unwrap(), christmas);
    assert_eq!(parse("2018.12.24 15:30", now).unwrap(), secondless);
    assert_eq!(parse("24.12.2018 15:30:45", now).unwrap(), christmas);
    assert_eq!(parse("24.12.2018 15:30", now).unwrap(), secondless);
    // Slashes
    assert_eq!(parse("2018/12/24 15:30:45", now).unwrap(), christmas);
    assert_eq!(parse("2018/12/24 15:30", now).unwrap(), secondless);
    assert_eq!(parse("24/12/2018 15:30:45", now).unwrap(), christmas);
    assert_eq!(parse("24/12/2018 15:30", now).unwrap(), secondless);
    // Dashes, dots & slashes, but with a T
    assert_eq!(parse("2018-12-24T15:30:45", now).unwrap(), christmas);
    assert_eq!(parse("2018-12-24T15:30", now).unwrap(), secondless);
    assert_eq!(parse("24-12-2018T15:30:45", now).unwrap(), christmas);
    assert_eq!(parse("24-12-2018T15:30", now).unwrap(), secondless);
    assert_eq!(parse("2018.12.24T15:30:45", now).unwrap(), christmas);
    assert_eq!(parse("2018.12.24T15:30", now).unwrap(), secondless);
    assert_eq!(parse("24.12.2018T15:30:45", now).unwrap(), christmas);
    assert_eq!(parse("24.12.2018T15:30", now).unwrap(), secondless);
    assert_eq!(parse("2018/12/24T15:30:45", now).unwrap(), christmas);
    assert_eq!(parse("2018/12/24T15:30", now).unwrap(), secondless);
    assert_eq!(parse("24/12/2018T15:30:45", now).unwrap(), christmas);
    assert_eq!(parse("24/12/2018T15:30", now).unwrap(), secondless);

    // Limits
    assert_eq!(
        parse("0-12-24T15:30:45", now).unwrap(),
        dt(0, 12, 24, 15, 30, 45)
    );
    assert_eq!(
        parse("9999-12-24T15:30:45", now).unwrap(),
        dt(9999, 12, 24, 15, 30, 45)
    );
}

#[test]
fn tests_test_invalid_datetime_formats_return_errors() {
    let now = current_instant();

    // Only specific separators allowed
    assert!(parse("2018-12-24-15:00:00", now).is_err());
    assert!(parse("2018-12-24|15:00:00", now).is_err());

    // The time never comes before the date.
    assert!(parse("15:00:00 2018-12-24", now).is_err());
}

#[test]
fn tests_test_invalid_datetime_values_return_errors() {
    let now = current_instant();

    // Invalid time values
    assert!(parse("2018-12-24 f0:f0", now).is_err());
    assert!(parse("2018-12-24 24:00", now).is_err());
    assert!(parse("2018-12-24 24:01", now).is_err());
    assert!(parse("2018-12-24 15:60", now).is_err());
    assert!(parse("2018-12-24 -15:30", now).is_err());
    assert!(parse("2018-12-24 15:-30", now).is_err());

    // Invalid date values
    assert!(parse("f0.12.2018 15:00", now).is_err());
    assert!(parse("-24.12.2018 15:00", now).is_err());
    assert!(parse("24.24.2018 15:00", now).is_err());
    assert!(parse("44.12.2018 15:00", now).is_err());

    // Limits
    assert!(parse("-1-24-24 15:00:00", now).is_err());
    assert!(parse("10000-24-24 15:00:00", now).is_err());
}
