//! Rate and gauge derivation over a rolling window, for a monitor that polls
//! the statistics of a running mail filter.
//!
//! A counter turns the raw values of successive reports into readings, a
//! series keeps the newest readings of one counter, and the statistics hold
//! one series for each tracked metric and feed them from a report.
//!
//! All arithmetic is exact: raw values are integers, and a derived value is
//! the ratio of an integer to a positive integer. Doubles that a report holds
//! are taken in by their bit patterns.

pub mod value;
pub mod counters;
pub mod series;
pub mod json;
pub mod samples;
pub mod report;
pub mod stats;
pub mod plot;
pub mod poll;
