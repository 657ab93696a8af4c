//! Calendar-aware differences between two civil instants: a forgiving parser
//! for date and time strings, exact totals in one unit, and a human-readable
//! breakdown of at most three components.

pub mod calendar;
pub mod instant;
pub mod parsers;
pub mod calculators;
pub mod formatters;
pub mod subcommands;
pub mod text;
