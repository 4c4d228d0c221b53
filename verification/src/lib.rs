//! A daily work journal: projects, task entries and a single running clock.
//!
//! The [`db`] module holds the store with its constraints; [`services`]
//! holds the operations on it: the clock, projects, task entries, the
//! journal of a day and the report of a range of days; [`cli`] turns
//! commands into operations and answers into text. [`formatting`] reads and
//! writes durations, dates and times, [`time`] holds the two measures of
//! time, and [`clock_trait`] the source of the current time.
//!
//! Every operation either applies in full or leaves the store as it was.

pub mod cli;
pub mod clock_trait;
pub mod db;
pub mod error;
pub mod formatting;
pub mod models;
pub mod services;
pub mod text;
pub mod time;
