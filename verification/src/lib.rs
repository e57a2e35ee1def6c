//! Projection of cron schedules: when an expression fires, from a given start.
//!
//! [`parse_cron`] reads an expression; [`next_fire`] and [`next_fire_in`] step through its
//! fire times, in UTC or by the wall clock of an IANA zone. [`CronFireTimes`] is the table
//! function over them: it takes a call's arguments apart and streams the rows in batches.
//! [`laws`] states what holds of every series, and [`call_laws`] what a call promises.

pub mod arguments;
pub mod calendar;
pub mod call_laws;
pub mod function;
pub mod laws;
pub mod producer;
pub mod scan;
pub mod schedule;
pub mod table;
pub mod zone;

pub use chrono_tz::Tz;
pub use croner::errors::CronError;
pub use function::CronFireTimes;
pub use schedule::{checked_next_fire_in, next_fire, next_fire_in, parse_cron, YEAR_CAP};
