use since::calculators::{
    num_days_fraction, num_days_total, num_hours_fraction, num_hours_total, num_minutes_fraction,
    num_minutes_total, num_months_fraction, num_months_total, num_seconds_fraction,
    num_seconds_total, num_weeks_total, num_years,
};
use since::calendar::{days_in_a_year, get_month_size, get_year_months, is_leap_year};
use since::formatters::{get_epoch_output, get_output, get_shorthand_output};
use since::instant::{dt, CivilInstant};
use since::parsers::try_parse_all_formats as parse;
use since::parsers::{date_instant, datetime_instant, time_instant, ParseFailure};
use since::subcommands::Filter;
use since::text::{decimal_string, same_text};

fn christmas_eve() -> CivilInstant {
    dt(2019, 12, 24, 20, 15, 30)
}

#[test]
fn month_lengths_follow_the_gregorian_calendar() {
    assert_eq!(get_month_size(2, 2000), 29);
    assert_eq!(get_month_size(2, 1900), 28);
    assert_eq!(get_month_size(2, 2024), 29);
    assert_eq!(get_month_size(2, 2023), 28);
    assert_eq!(get_month_size(4, 2023), 30);
    assert_eq!(get_month_size(12, 0), 31);
    assert_eq!(get_year_months(2020), vec![31, 29, 31, 30, 31, 30, 31, 31, 30, 31, 30, 31]);
    assert_eq!(get_year_months(2019), vec![31, 28, 31, 30, 31, 30, 31, 31, 30, 31, 30, 31]);
}

#[test]
fn leap_years_follow_the_four_hundred_year_rule() {
    assert!(is_leap_year(0));
    assert!(is_leap_year(2000));
    assert!(is_leap_year(2024));
    assert!(!is_leap_year(1900));
    assert!(!is_leap_year(2019));
    assert_eq!(days_in_a_year(2000), 366);
    assert_eq!(days_in_a_year(2100), 365);
}

#[test]
fn an_instant_is_zero_months_and_years_from_itself() {
    let x = christmas_eve();
    assert_eq!(num_months_total(x, x), 0);
    assert_eq!(num_years(x, x), 0);
    assert_eq!(get_output(x, x, Filter::Auto), "0 seconds");
}

#[test]
fn uniform_totals_do_not_depend_on_order() {
    let a = dt(2018, 3, 7, 4, 5, 6);
    let b = christmas_eve();
    assert_eq!(num_seconds_total(a, b), num_seconds_total(b, a));
    assert_eq!(num_minutes_total(a, b), num_minutes_total(b, a));
    assert_eq!(num_hours_total(a, b), num_hours_total(b, a));
    assert_eq!(num_days_total(a, b), num_days_total(b, a));
    assert_eq!(num_weeks_total(a, b), num_weeks_total(b, a));
    for filter in [Filter::Years, Filter::Months, Filter::Weeks, Filter::Days, Filter::Auto] {
        assert_eq!(get_output(a, b, filter), get_output(b, a, filter));
    }
}

#[test]
fn totals_are_exact() {
    let a = christmas_eve();
    let b = dt(2020, 1, 1, 0, 0, 0);
    assert_eq!(num_seconds_total(a, b), 618270);
    assert_eq!(num_minutes_total(a, b), 10304);
    assert_eq!(num_hours_total(a, b), 171);
    assert_eq!(num_days_total(a, b), 7);
    assert_eq!(num_weeks_total(a, b), 1);
    assert_eq!(get_output(b, a, Filter::Seconds), "618270");
    assert_eq!(get_output(a, b, Filter::Hours), "171");
}

#[test]
fn a_year_boundary_that_is_not_reached_takes_one_off() {
    // The day of month of the later instant has not caught up.
    assert_eq!(num_months_total(dt(2019, 1, 20, 0, 0, 0), dt(2019, 3, 10, 0, 0, 0)), 1);
    // Within one year there is no boundary to take off.
    assert_eq!(num_years(dt(2019, 1, 20, 0, 0, 0), dt(2019, 3, 10, 0, 0, 0)), 0);
    assert_eq!(num_years(dt(2019, 12, 24, 10, 15, 31), christmas_eve()), 0);
    assert_eq!(get_output(dt(2019, 1, 20, 0, 0, 0), dt(2019, 3, 10, 0, 0, 0), Filter::Years), "0");
    assert_eq!(num_years(dt(2018, 12, 24, 20, 15, 31), christmas_eve()), 0);
    assert_eq!(num_years(dt(2018, 12, 24, 20, 15, 29), christmas_eve()), 1);
}

#[test]
fn calendar_totals_do_not_depend_on_order() {
    let a = dt(2018, 12, 24, 20, 15, 31);
    let b = christmas_eve();
    assert_eq!(num_years(a, b), 0);
    assert_eq!(num_years(b, a), 0);
    let c = dt(2019, 1, 31, 0, 0, 0);
    let d = dt(2019, 3, 1, 0, 0, 0);
    assert_eq!(num_months_total(c, d), 1);
    assert_eq!(num_months_total(d, c), 1);
    assert_eq!(num_days_fraction(d, c), num_days_fraction(c, d));
    assert_eq!(num_hours_fraction(b, a), num_hours_fraction(a, b));
    assert_eq!(num_months_fraction(b, a), num_months_fraction(a, b));
}

#[test]
fn fractions_stay_in_range() {
    // A month that has not completed leaves no month.
    assert_eq!(num_months_fraction(dt(2019, 11, 26, 20, 15, 30), christmas_eve()), 0);
    // A span within one year is not taken for one short of a year.
    assert_eq!(num_days_fraction(dt(2019, 1, 1, 0, 0, 0), dt(2019, 12, 31, 0, 0, 0)), 30);
    assert_eq!(
        get_output(dt(2019, 1, 1, 0, 0, 0), dt(2019, 12, 31, 0, 0, 0), Filter::Auto),
        "11 months, 30 days"
    );
    // The hours go by the clock, not by whether the days are adjacent.
    assert_eq!(num_hours_fraction(dt(2019, 12, 23, 10, 0, 0), dt(2019, 12, 24, 20, 0, 0)), 10);
    assert_eq!(
        get_output(dt(2019, 12, 23, 10, 0, 0), dt(2019, 12, 24, 20, 0, 0), Filter::Auto),
        "1 days, 10 hours"
    );
    assert_eq!(num_hours_fraction(dt(2019, 12, 23, 22, 0, 0), dt(2019, 12, 24, 2, 0, 0)), 4);
    assert_eq!(
        get_output(christmas_eve(), dt(2019, 12, 24, 21, 15, 29), Filter::Auto),
        "59 minutes, 59 seconds"
    );
}

#[test]
fn fractions_of_a_breakdown() {
    let from = dt(2019, 8, 21, 18, 0, 0);
    let to = christmas_eve();
    assert_eq!(num_months_fraction(from, to), 4);
    assert_eq!(num_days_fraction(from, to), 3);
    assert_eq!(num_hours_fraction(from, to), 2);
    assert_eq!(num_minutes_fraction(from, to), 15);
    assert_eq!(num_seconds_fraction(from, to), 30);

    let short_of_a_year = dt(2018, 12, 24, 20, 15, 31);
    assert_eq!(num_months_fraction(short_of_a_year, to), 11);
    assert_eq!(num_days_fraction(short_of_a_year, to), 29);
    assert_eq!(num_hours_fraction(short_of_a_year, to), 23);
}

#[test]
fn shorthand_scenario_over_four_months() {
    assert_eq!(
        get_output(dt(2019, 8, 21, 18, 0, 0), christmas_eve(), Filter::Auto),
        "4 months, 3 days, 2 hours"
    );
}

#[test]
fn shorthand_scenario_around_a_full_year() {
    let now = christmas_eve();
    assert_eq!(get_output(dt(2018, 12, 24, 20, 15, 29), now, Filter::Auto), "1 years, 1 seconds");
    assert_eq!(
        get_output(dt(2018, 12, 24, 20, 15, 31), now, Filter::Auto),
        "11 months, 29 days, 23 hours"
    );
}

#[test]
fn shorthand_keeps_at_most_three_components() {
    let now = christmas_eve();
    let samples = [
        dt(2014, 8, 21, 18, 0, 0),
        dt(2001, 2, 3, 4, 5, 6),
        dt(2019, 12, 23, 20, 15, 31),
        dt(0, 1, 1, 0, 0, 0),
        now,
    ];
    for from in samples {
        let out = get_output(from, now, Filter::Auto);
        assert!(out.split(", ").count() <= 3, "{}", out);
        assert!(out.matches(',').count() <= 2, "{}", out);
    }
    assert_eq!(get_output(dt(2014, 8, 21, 18, 0, 0), now, Filter::Auto), "5 years, 4 months, 3 days");
}

#[test]
fn epoch_counts() {
    let now = christmas_eve();
    assert_eq!(get_epoch_output(now, Filter::Seconds), "1577218530");
    assert_eq!(get_epoch_output(now, Filter::Auto), "1577218530");
    assert_eq!(get_epoch_output(now, Filter::Days), "18254");
    assert_eq!(get_epoch_output(now, Filter::Weeks), "2607");
    assert_eq!(get_epoch_output(now, Filter::Hours), "438116");
    assert_eq!(get_epoch_output(now, Filter::Minutes), "26286975");
    assert_eq!(get_epoch_output(now, Filter::Years), "49");
    assert_eq!(get_epoch_output(now, Filter::Months), "599");
}

#[test]
fn epoch_counts_before_the_epoch_round_toward_zero() {
    let now = dt(1969, 12, 31, 12, 0, 0);
    assert_eq!(get_epoch_output(now, Filter::Seconds), "-43200");
    assert_eq!(get_epoch_output(now, Filter::Days), "0");
    assert_eq!(get_epoch_output(now, Filter::Hours), "-12");
    assert_eq!(get_epoch_output(now, Filter::Years), "0");
}

#[test]
fn parse_scenarios() {
    let now = christmas_eve();
    assert_eq!(parse("15:00", now).unwrap(), dt(2019, 12, 24, 15, 0, 0));
    assert!(parse("24:00", now).is_err());
    assert_eq!(parse("2018-12-24", now).unwrap(), dt(2018, 12, 24, 20, 15, 30));
    assert!(parse("2018 12 24", now).is_err());
    assert_eq!(parse("24 December 2018 15:30:45", now).unwrap(), dt(2018, 12, 24, 15, 30, 45));
    assert!(parse("15:00:00 2018-12-24", now).is_err());
}

#[test]
fn parse_accepts_month_names_with_any_separator() {
    let now = christmas_eve();
    assert_eq!(parse("2018-Dec-24", now).unwrap(), dt(2018, 12, 24, 20, 15, 30));
    assert_eq!(parse("24.December.2018", now).unwrap(), dt(2018, 12, 24, 20, 15, 30));
    assert_eq!(parse("24 Dec 2018T15:30", now).unwrap(), dt(2018, 12, 24, 15, 30, 0));
}

#[test]
fn parse_rejects_days_past_the_end_of_the_month_and_years_out_of_range() {
    let now = christmas_eve();
    assert_eq!(parse("2020-02-29", now).unwrap(), dt(2020, 2, 29, 20, 15, 30));
    assert!(parse("2019-02-29", now).is_err());
    assert!(parse("-5-12-24 15:00:00", now).is_err());
    assert!(parse("-5-12-24", now).is_err());
}

#[test]
fn parse_rejects_a_sixtieth_second() {
    let now = christmas_eve();
    assert!(parse("15:00:60", now).is_err());
    assert!(parse("2018-12-24 23:59:60", now).is_err());
    assert_eq!(parse("2018-12-24 23:59:59", now).unwrap(), dt(2018, 12, 24, 23, 59, 59));
}

#[test]
fn parse_errors_carry_the_input() {
    let err = parse("not a date", christmas_eve()).unwrap_err();
    assert_eq!(err.input, "not a date");
    assert_eq!(err.reason, ParseFailure::Invalid);
    assert_eq!(err.reason.description(), "unexpected characters");
    // The last candidate reads a minute of 60.
    let err = parse("2018 Dec 24T15:60", christmas_eve()).unwrap_err();
    assert_eq!(err.reason, ParseFailure::OutOfRange);
}

#[test]
fn filters_round_trip_through_their_names() {
    for filter in [
        Filter::Years,
        Filter::Months,
        Filter::Weeks,
        Filter::Days,
        Filter::Hours,
        Filter::Minutes,
        Filter::Seconds,
        Filter::Auto,
    ] {
        assert_eq!(Filter::from_str(filter.as_str()), filter);
    }
    assert_eq!(Filter::Weeks.as_str(), "weeks");
    assert_eq!(Filter::from_str("fortnights"), Filter::Auto);
    assert_eq!(Filter::from_str("year"), Filter::Auto);
}

#[test]
fn decimal_numerals() {
    assert_eq!(decimal_string(0), "0");
    assert_eq!(decimal_string(-1), "-1");
    assert_eq!(decimal_string(1234567890), "1234567890");
    assert_eq!(decimal_string(i64::MIN), "-9223372036854775808");
    assert!(same_text("days", "days"));
    assert!(!same_text("days", "day"));
    assert!(!same_text("days", "daze"));
}

#[test]
fn fields_read_become_instants() {
    let now = christmas_eve();
    assert_eq!(time_instant((15, 0, 34, 0), now), Some(dt(2019, 12, 24, 15, 0, 34)));
    assert_eq!(time_instant((23, 59, 59, 1_000_000_000), now), None);
    assert_eq!(time_instant((24, 0, 0, 0), now), None);
    assert_eq!(date_instant((2018, 12, 24), now), Some(dt(2018, 12, 24, 20, 15, 30)));
    assert_eq!(date_instant((2019, 2, 29), now), None);
    assert_eq!(date_instant((10000, 1, 1), now), None);
    assert_eq!(
        datetime_instant((2018, 12, 24, 15, 30, 45, 0)),
        Some(dt(2018, 12, 24, 15, 30, 45))
    );
    assert_eq!(datetime_instant((2018, 12, 24, 23, 59, 59, 1_000_000_000)), None);
    assert_eq!(datetime_instant((-1, 12, 24, 15, 0, 0, 0)), None);
}

#[test]
fn shorthand_in_either_order() {
    let from = dt(2019, 8, 21, 18, 0, 0);
    assert_eq!(get_shorthand_output(from, christmas_eve()), "4 months, 3 days, 2 hours");
    assert_eq!(get_shorthand_output(christmas_eve(), from), "4 months, 3 days, 2 hours");
}
