//! The line of microseconds on which schedules are projected, and where the
//! calendar's years begin on it.
//!
//! An instant is a number of microseconds since 1970-01-01 00:00:00 UTC. A wall
//! clock is counted in the same way: it is the instant at which a clock in UTC
//! would show that date and time. Both read the proleptic Gregorian calendar.

use chrono::{DateTime, Utc};
use vstd::prelude::*;

verus! {

/// Microseconds in a second.
pub const MICROS_PER_SECOND: i64 = 1_000_000;

/// The first microsecond of January 1 of `year`.
pub open spec fn year_start(year: int) -> int {
    let before = year - 1;
    (365 * before + before / 4 - before / 100 + before / 400 - 719162) * 86_400_000_000
}

/// `micros` falls in the calendar year `year`.
pub open spec fn in_year(year: int, micros: int) -> bool {
    year_start(year) <= micros < year_start(year + 1)
}

/// `micros` falls in the years that a `chrono` date can hold.
pub open spec fn representable(micros: int) -> bool {
    year_start(-262143) <= micros < year_start(262143)
}

/// The whole second that `micros` falls in.
pub open spec fn second_of(micros: int) -> int {
    micros / 1_000_000
}

/// The seconds from midnight to `micros`.
pub open spec fn second_of_day(micros: int) -> int {
    second_of(micros) % 86_400
}

/// The day that `micros` falls in.
pub open spec fn day_of(micros: int) -> int {
    second_of(micros) / 86_400
}

/// The part of a second that `micros` is past its second.
pub open spec fn fraction_of(micros: int) -> int {
    micros % 1_000_000
}

/// Whether `DateTime::<Utc>::from_timestamp_micros` knows the instant. `chrono`
/// documents `None` for a number of microseconds out of the range of its dates,
/// and its dates run from the first day of year -262143 to the last of 262142.
#[verifier::external_body]
pub(crate) fn instant_exists(micros: i64) -> (r: bool)
    ensures
        r == representable(micros as int),
{
    DateTime::<Utc>::from_timestamp_micros(micros).is_some()
}

/// Later years begin later.
pub proof fn lemma_year_start_grows(a: int, b: int)
    requires
        a < b,
    ensures
        year_start(a) < year_start(b),
{
}

/// A time of year `year` lies in `limit` or later exactly when its year does.
pub proof fn lemma_year_bound(year: int, micros: int, limit: int)
    requires
        in_year(year, micros),
    ensures
        year >= limit <==> micros >= year_start(limit),
{
    if year >= limit {
        if year > limit {
            lemma_year_start_grows(limit, year);
        }
    } else if year + 1 < limit {
        lemma_year_start_grows(year + 1, limit);
    }
}

} // verus!
