//! The unit that the output is given in.

use vstd::prelude::*;
use crate::text::same_text;

verus! {

/// The unit that a difference is asked for in, or `Auto` for the breakdown.
#[derive(Clone, Copy, Debug, PartialEq, Eq, Structural)]
pub enum Filter {
    Years,
    Months,
    Weeks,
    Days,
    Hours,
    Minutes,
    Seconds,
    Auto,
}

/// The name of each filter on the command line.
pub open spec fn filter_name(f: Filter) -> Seq<char> {
    match f {
        Filter::Years => "years"@,
        Filter::Months => "months"@,
        Filter::Weeks => "weeks"@,
        Filter::Days => "days"@,
        Filter::Hours => "hours"@,
        Filter::Minutes => "minutes"@,
        Filter::Seconds => "seconds"@,
        Filter::Auto => "NOT_SUBCMD"@,
    }
}

/// The filter that a command-line name stands for: `Auto` for any other name.
pub open spec fn filter_named(s: Seq<char>) -> Filter {
    if s == "years"@ {
        Filter::Years
    } else if s == "months"@ {
        Filter::Months
    } else if s == "weeks"@ {
        Filter::Weeks
    } else if s == "days"@ {
        Filter::Days
    } else if s == "hours"@ {
        Filter::Hours
    } else if s == "minutes"@ {
        Filter::Minutes
    } else if s == "seconds"@ {
        Filter::Seconds
    } else {
        Filter::Auto
    }
}

impl Filter {
    /// The command-line name of the filter.
    pub fn as_str(&self) -> (r: &'static str)
        ensures
            r@ == filter_name(*self),
    {
        match self {
            Filter::Years => "years",
            Filter::Months => "months",
            Filter::Weeks => "weeks",
            Filter::Days => "days",
            Filter::Hours => "hours",
            Filter::Minutes => "minutes",
            Filter::Seconds => "seconds",
            Filter::Auto => "NOT_SUBCMD",
        }
    }

    /// The filter named `s` on the command line; `Auto` for any other text.
    pub fn from_str(s: &str) -> (r: Filter)
        ensures
            r == filter_named(s@),
    {
        if same_text(s, "years") {
            Filter::Years
        } else if same_text(s, "months") {
            Filter::Months
        } else if same_text(s, "weeks") {
            Filter::Weeks
        } else if same_text(s, "days") {
            Filter::Days
        } else if same_text(s, "hours") {
            Filter::Hours
        } else if same_text(s, "minutes") {
            Filter::Minutes
        } else if same_text(s, "seconds") {
            Filter::Seconds
        } else {
            Filter::Auto
        }
    }
}

/// Reading back the name of a filter gives the same filter.
pub proof fn lemma_filter_name_round_trip(f: Filter)
    ensures
        filter_named(filter_name(f)) == f,
{
    reveal_strlit("years");
    reveal_strlit("months");
    reveal_strlit("weeks");
    reveal_strlit("days");
    reveal_strlit("hours");
    reveal_strlit("minutes");
    reveal_strlit("seconds");
    reveal_strlit("NOT_SUBCMD");
    let names = seq!["years"@, "months"@, "weeks"@, "days"@, "hours"@, "minutes"@, "seconds"@,
        "NOT_SUBCMD"@];
    assert forall|i: int, j: int| 0 <= i < j < 8 implies names[i] != names[j] by {
        assert(names[i].len() != names[j].len() || names[i][0] != names[j][0]
            || names[i][1] != names[j][1]);
    }
}

} // verus!
