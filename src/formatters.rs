//! The text of a difference: a total in the unit asked for, or a breakdown of
//! at most three components, largest unit first.

use vstd::prelude::*;
use crate::calculators::{
    days_fraction, days_total, lemma_days_fraction_bounds, hours_fraction, hours_total, minutes_fraction, minutes_total,
    months_fraction, months_total, seconds_fraction, seconds_total, weeks_total, years_total,
    num_days_fraction, num_days_total, num_hours_fraction, num_hours_total, num_minutes_fraction,
    num_minutes_total, num_months_fraction, num_months_total, num_seconds_fraction,
    num_seconds_total, num_weeks_total, num_years,
};
use crate::instant::{CivilInstant, dt, earlier, elapsed, lemma_timestamp_bounds, seconds_between};
use crate::subcommands::Filter;
use crate::text::{
    comma_count, decimal, decimal_string, join, lemma_comma_count_add, lemma_comma_free,
    lemma_decimal_comma_free, lemma_join_commas,
};

verus! {

/// One component of a breakdown, such as `3 days`.
pub open spec fn entry(n: int, unit: Seq<char>) -> Seq<char> {
    decimal(n) + " "@ + unit
}

pub open spec fn views(v: Seq<String>) -> Seq<Seq<char>> {
    v.map_values(|s: String| s@)
}

/// Every nonzero component of the breakdown, largest unit first; the seconds
/// stand alone where all are zero.
pub open spec fn breakdown(from: CivilInstant, to: CivilInstant) -> Seq<Seq<char>> {
    let e0 = Seq::<Seq<char>>::empty();
    let e1 = if years_total(from, to) > 0 { e0.push(entry(years_total(from, to), "years"@)) } else { e0 };
    let e2 = if months_fraction(from, to) > 0 { e1.push(entry(months_fraction(from, to), "months"@)) } else { e1 };
    let e3 = if days_fraction(from, to) > 0 { e2.push(entry(days_fraction(from, to), "days"@)) } else { e2 };
    let e4 = if hours_fraction(from, to) > 0 { e3.push(entry(hours_fraction(from, to), "hours"@)) } else { e3 };
    let e5 = if minutes_fraction(from, to) > 0 { e4.push(entry(minutes_fraction(from, to), "minutes"@)) } else { e4 };
    if seconds_fraction(from, to) > 0 || e5.len() == 0 {
        e5.push(entry(seconds_fraction(from, to), "seconds"@))
    } else {
        e5
    }
}

/// The first three components of the breakdown at most.
pub open spec fn shown(from: CivilInstant, to: CivilInstant) -> Seq<Seq<char>> {
    let b = breakdown(from, to);
    if b.len() <= 3 { b } else { b.take(3) }
}

/// The shorthand text of the difference from `from` to `to`.
pub open spec fn shorthand(from: CivilInstant, to: CivilInstant) -> Seq<char> {
    join(shown(from, to))
}

/// The text for the ordered pair `from`, `to` under `filter`.
pub open spec fn output_text(from: CivilInstant, to: CivilInstant, filter: Filter) -> Seq<char> {
    match filter {
        Filter::Years => decimal(years_total(from, to)),
        Filter::Months => decimal(months_total(from, to)),
        Filter::Weeks => decimal(weeks_total(from, to)),
        Filter::Days => decimal(days_total(from, to)),
        Filter::Hours => decimal(hours_total(from, to)),
        Filter::Minutes => decimal(minutes_total(from, to)),
        Filter::Seconds => decimal(seconds_total(from, to)),
        Filter::Auto => shorthand(from, to),
    }
}

/// The text for two instants in either order: they are put in order first.
pub open spec fn output_for(from: CivilInstant, to: CivilInstant, filter: Filter) -> Seq<char> {
    if earlier(to, from) { output_text(to, from, filter) } else { output_text(from, to, filter) }
}

/// 1970-01-01T00:00:00.
pub open spec fn epoch() -> CivilInstant {
    CivilInstant { year: 1970, month: 1, day: 1, hour: 0, minute: 0, second: 0 }
}

/// The quotient of `a` by `n` (positive), rounded toward zero as Rust's `/` does.
pub open spec fn trunc_div(a: int, n: int) -> int {
    if a >= 0 { a / n } else { -((-a) / n) }
}

/// The seconds from the epoch to `now`.
pub open spec fn epoch_seconds(now: CivilInstant) -> int {
    elapsed(epoch(), now)
}

/// The count since the epoch under `filter`: years and months by the calendar,
/// the other units by days of 86400 seconds, and seconds where no unit is asked.
pub open spec fn epoch_total(now: CivilInstant, filter: Filter) -> int {
    match filter {
        Filter::Years => years_total(epoch(), now),
        Filter::Months => months_total(epoch(), now),
        Filter::Weeks => trunc_div(epoch_seconds(now), 604800),
        Filter::Days => trunc_div(epoch_seconds(now), 86400),
        Filter::Hours => trunc_div(epoch_seconds(now), 3600),
        Filter::Minutes => trunc_div(epoch_seconds(now), 60),
        Filter::Seconds => epoch_seconds(now),
        Filter::Auto => epoch_seconds(now),
    }
}

/// The difference between the two instants under `filter`, in either order:
/// a total in the unit asked for, or the shorthand breakdown.
pub fn get_output(from: CivilInstant, to: CivilInstant, filter: Filter) -> (r: String)
    requires
        from.valid(),
        to.valid(),
    ensures
        r@ == output_for(from, to, filter),
        filter == Filter::Auto ==> comma_count(r@) <= 2,
{
    let mut from = from;
    let mut to = to;
    if from.is_after(&to) {
        let earlier_one = to;
        to = from;
        from = earlier_one;
    }
    proof {
        lemma_shorthand_at_most_three(from, to);
    }
    match filter {
        Filter::Years => decimal_string(num_years(from, to)),
        Filter::Months => decimal_string(num_months_total(from, to)),
        Filter::Weeks => decimal_string(num_weeks_total(from, to)),
        Filter::Days => decimal_string(num_days_total(from, to)),
        Filter::Hours => decimal_string(num_hours_total(from, to)),
        Filter::Minutes => decimal_string(num_minutes_total(from, to)),
        Filter::Seconds => decimal_string(num_seconds_total(from, to)),
        Filter::Auto => get_shorthand_output(from, to),
    }
}

fn push_entry(output: &mut Vec<String>, n: i64, unit: &str)
    ensures
        views(final(output)@) == views(old(output)@).push(entry(n as int, unit@)),
{
    let mut text = decimal_string(n);
    proof {
        reveal_strlit(" ");
    }
    text.append(" ");
    text.append(unit);
    output.push(text);
    proof {
        assert(views(final(output)@) =~= views(old(output)@).push(entry(n as int, unit@)));
    }
}

/// The first `count` strings of `parts`, each after the first preceded by `", "`.
fn join_first(parts: &Vec<String>, count: usize) -> (r: String)
    requires
        count <= parts@.len(),
    ensures
        r@ == join(views(parts@).take(count as int)),
{
    let mut out = String::new();
    let mut i: usize = 0;
    proof {
        reveal_strlit(", ");
        assert(views(parts@).take(0) =~= Seq::<Seq<char>>::empty());
    }
    while i < count
        invariant
            count <= parts@.len(),
            0 <= i <= count,
            out@ == join(views(parts@).take(i as int)),
        decreases count - i,
    {
        let ghost before = views(parts@).take(i as int);
        let ghost after = views(parts@).take(i + 1);
        proof {
            assert(after.drop_last() =~= before);
        }
        if i > 0 {
            out.append(", ");
        }
        out.append(parts[i].as_str());
        proof {
            if i == 0 {
                assert(out@ =~= after[0]);
            } else {
                assert(out@ =~= join(before) + ", "@ + after.last());
            }
        }
        i = i + 1;
    }
    out
}

/// The breakdown of the difference between the two instants, in either
/// order: every nonzero component from years down to seconds, of which the
/// first three, or `0 seconds` where all are zero.
pub fn get_shorthand_output(from: CivilInstant, to: CivilInstant) -> (r: String)
    requires
        from.valid(),
        to.valid(),
    ensures
        r@ == shorthand(from, to),
        comma_count(r@) <= 2,
{
    proof {
        lemma_shorthand_at_most_three(from, to);
    }
    proof {
        reveal_strlit("years");
        reveal_strlit("months");
        reveal_strlit("days");
        reveal_strlit("hours");
        reveal_strlit("minutes");
        reveal_strlit("seconds");
    }
    let mut output: Vec<String> = Vec::new();
    let years = num_years(from, to);
    let months = num_months_fraction(from, to);
    let days = num_days_fraction(from, to);
    let hours = num_hours_fraction(from, to);
    let mins = num_minutes_fraction(from, to);
    let seconds = num_seconds_fraction(from, to);

    proof {
        assert(views(output@) =~= Seq::<Seq<char>>::empty());
    }
    if years > 0 {
        push_entry(&mut output, years, "years");
    }
    if months > 0 {
        push_entry(&mut output, months, "months");
    }
    if days > 0 {
        push_entry(&mut output, days, "days");
    }
    if hours > 0 {
        push_entry(&mut output, hours, "hours");
    }
    if mins > 0 {
        push_entry(&mut output, mins, "minutes");
    }
    if seconds > 0 || output.len() == 0 {
        push_entry(&mut output, seconds, "seconds");
    }
    assert(views(output@) == breakdown(from, to));

    let precision: usize = if output.len() < 3 { output.len() } else { 3 };
    proof {
        assert(views(output@).take(output@.len() as int) =~= views(output@));
    }
    join_first(&output, precision)
}

fn div_toward_zero(a: i64, n: i64) -> (r: i64)
    requires
        n > 0,
        a > i64::MIN,
    ensures
        r == trunc_div(a as int, n as int),
{
    if a >= 0 { a / n } else { -((-a) / n) }
}

/// The count since 1970-01-01T00:00:00 under `filter`, as text.
pub fn get_epoch_output(now: CivilInstant, filter: Filter) -> (r: String)
    requires
        now.valid(),
    ensures
        r@ == decimal(epoch_total(now, filter)),
        filter == Filter::Days ==> r@ == decimal(trunc_div(epoch_seconds(now), 86400)),
{
    let epoch_date = dt(1970, 1, 1, 0, 0, 0);
    proof {
        lemma_timestamp_bounds(epoch_date);
        lemma_timestamp_bounds(now);
    }
    let epoch = seconds_between(epoch_date, now);
    let output: i64 = match filter {
        Filter::Years => num_years(epoch_date, now),
        Filter::Months => num_months_total(epoch_date, now),
        Filter::Weeks => div_toward_zero(epoch, 604800),
        Filter::Days => div_toward_zero(epoch, 86400),
        Filter::Hours => div_toward_zero(epoch, 3600),
        Filter::Minutes => div_toward_zero(epoch, 60),
        Filter::Seconds => epoch,
        Filter::Auto => epoch,
    };
    decimal_string(output)
}

/// Every part holds no comma.
pub open spec fn comma_free_parts(parts: Seq<Seq<char>>) -> bool {
    forall|i: int| 0 <= i < parts.len() ==> comma_count(#[trigger] parts[i]) == 0
}

proof fn lemma_entry_comma_free(n: int, unit: Seq<char>)
    requires
        comma_count(unit) == 0,
    ensures
        comma_count(entry(n, unit)) == 0,
{
    reveal_strlit(" ");
    lemma_decimal_comma_free(n);
    lemma_comma_free(" "@);
    lemma_comma_count_add(decimal(n), " "@);
    lemma_comma_count_add(decimal(n) + " "@, unit);
}

proof fn lemma_push_comma_free(parts: Seq<Seq<char>>, n: int, unit: Seq<char>)
    requires
        comma_free_parts(parts),
        comma_count(unit) == 0,
    ensures
        comma_free_parts(parts.push(entry(n, unit))),
{
    lemma_entry_comma_free(n, unit);
    let p = parts.push(entry(n, unit));
    assert forall|i: int| 0 <= i < p.len() implies comma_count(#[trigger] p[i]) == 0 by {
        if i < parts.len() {
            assert(p[i] == parts[i]);
        }
    }
}

/// The shorthand text has one to three components, so at most two commas.
pub proof fn lemma_shorthand_at_most_three(from: CivilInstant, to: CivilInstant)
    ensures
        1 <= shown(from, to).len() <= 3,
        comma_count(shorthand(from, to)) <= 2,
{
    reveal_strlit("years");
    reveal_strlit("months");
    reveal_strlit("days");
    reveal_strlit("hours");
    reveal_strlit("minutes");
    reveal_strlit("seconds");
    lemma_comma_free("years"@);
    lemma_comma_free("months"@);
    lemma_comma_free("days"@);
    lemma_comma_free("hours"@);
    lemma_comma_free("minutes"@);
    lemma_comma_free("seconds"@);
    let e0 = Seq::<Seq<char>>::empty();
    let e1 = if years_total(from, to) > 0 { e0.push(entry(years_total(from, to), "years"@)) } else { e0 };
    let e2 = if months_fraction(from, to) > 0 { e1.push(entry(months_fraction(from, to), "months"@)) } else { e1 };
    let e3 = if days_fraction(from, to) > 0 { e2.push(entry(days_fraction(from, to), "days"@)) } else { e2 };
    let e4 = if hours_fraction(from, to) > 0 { e3.push(entry(hours_fraction(from, to), "hours"@)) } else { e3 };
    let e5 = if minutes_fraction(from, to) > 0 { e4.push(entry(minutes_fraction(from, to), "minutes"@)) } else { e4 };
    if years_total(from, to) > 0 {
        lemma_push_comma_free(e0, years_total(from, to), "years"@);
    }
    if months_fraction(from, to) > 0 {
        lemma_push_comma_free(e1, months_fraction(from, to), "months"@);
    }
    if days_fraction(from, to) > 0 {
        lemma_push_comma_free(e2, days_fraction(from, to), "days"@);
    }
    if hours_fraction(from, to) > 0 {
        lemma_push_comma_free(e3, hours_fraction(from, to), "hours"@);
    }
    if minutes_fraction(from, to) > 0 {
        lemma_push_comma_free(e4, minutes_fraction(from, to), "minutes"@);
    }
    if seconds_fraction(from, to) > 0 || e5.len() == 0 {
        lemma_push_comma_free(e5, seconds_fraction(from, to), "seconds"@);
    }
    let b = breakdown(from, to);
    assert(comma_free_parts(b));
    let s = shown(from, to);
    assert forall|i: int| 0 <= i < s.len() implies comma_count(#[trigger] s[i]) == 0 by {
        assert(s[i] == b[i]);
    }
    lemma_join_commas(s);
}

/// The output does not depend on the order in which the two instants come.
pub proof fn lemma_output_symmetric(a: CivilInstant, b: CivilInstant, filter: Filter)
    ensures
        output_for(a, b, filter) == output_for(b, a, filter),
{
    if !earlier(a, b) && !earlier(b, a) {
        assert(a == b);
    }
}

/// Every component of the breakdown lies in its range, so the shorthand text
/// leaves out exactly the components that are zero.
pub proof fn lemma_breakdown_components_in_range(a: CivilInstant, b: CivilInstant)
    requires
        a.valid(),
        b.valid(),
    ensures
        years_total(a, b) >= 0,
        0 <= months_fraction(a, b) < 12,
        0 <= days_fraction(a, b) <= 31,
        0 <= hours_fraction(a, b) < 24,
        0 <= minutes_fraction(a, b) < 60,
        0 <= seconds_fraction(a, b) < 60,
{
    lemma_days_fraction_bounds(a, b);
}

} // verus!
