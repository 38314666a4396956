//! Schedule compilation and evaluation for experiment control variables.
//!
//! A timetable document declares, for each named control variable, either a
//! fixed constant, a type-level default, or a periodic cycle of breakpoints.
//! This crate compiles those declarations (together with the experiment's
//! start date, timezone and start offset) into resolved schedules, and answers
//! point-in-time and batch queries against them. Instants and durations are
//! measured in milliseconds (instants since the Unix epoch, UTC).

pub mod lunaluz;
pub mod schedules;
pub mod server;
pub mod values;
