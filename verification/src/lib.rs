//! Habit tracking: timestamped habit events and the statistics derived from
//! them (daily, weekly and monthly rollups, a trend, a streak and short
//! insights), with every function's behaviour stated as a contract.
//!
//! Every day in this crate is a day of the UTC calendar: an event belongs to
//! the day on which its instant falls in UTC, and so do the hour and the
//! weekday by which the insights group events. A caller that thinks in local
//! time converts before it asks.
//!
//! The statistics hold no floating-point numbers. A mean is given as a sum
//! and a count, a percentage as the two counts it is the ratio of, so that
//! every figure is exact and the caller divides.
//!
//! - `calendar`: days, weekdays and instants.
//! - `models`: the records.
//! - `summary`: what the statistics are, as functions of a sequence of events.
//! - `tally`: counting events by category, hour and weekday.
//! - `statistics`, `streak`, `insights`: the computations.
//! - `intake`: making events out of text.
//! - `theorems`: what holds of the statistics whatever the events.

pub mod calendar;
pub mod insights;
pub mod intake;
pub mod models;
pub mod statistics;
pub mod streak;
pub mod summary;
pub mod tally;
pub mod text;
pub mod theorems;
