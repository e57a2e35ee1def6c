//! Time zones: the offset of a zone's wall clock from UTC.

use chrono::{DateTime, Offset, TimeZone, Utc};
use chrono_tz::{ParseError, Tz};
use vstd::prelude::*;

use crate::calendar;

verus! {

#[verifier::external_type_specification]
#[verifier::external_body]
pub struct ExTz(Tz);

#[verifier::external_type_specification]
#[verifier::external_body]
pub struct ExParseError(ParseError);

/// What `Tz::from_str` makes of a zone's name: the IANA zone of that name, or
/// `None` where there is none.
pub uninterp spec fn zone_named(name: Seq<char>) -> Option<Tz>;

/// What `Tz::offset_from_utc_datetime` gives at an instant: how many seconds the
/// zone's wall clock is ahead of UTC there.
pub uninterp spec fn zone_offset(tz: Tz, micros: int) -> int;

/// The wall clock at an instant. No zone is UTC.
pub open spec fn wall(zone: Option<Tz>, micros: int) -> int {
    match zone {
        None => micros,
        Some(tz) => micros + zone_offset(tz, micros) * calendar::MICROS_PER_SECOND,
    }
}

/// The zone's clocks never show the wall clock `local`: they were put forward over it.
pub open spec fn in_gap(zone: Option<Tz>, local: int) -> bool {
    forall|micros: int|
        calendar::representable(micros) ==> #[trigger] wall(zone, micros) != local
}

/// The zone's clocks have not shown the same before the instant. Where they are put back,
/// they show an hour twice.
pub open spec fn first_shown(zone: Option<Tz>, micros: int) -> bool {
    forall|other: int|
        calendar::representable(other) && #[trigger] wall(zone, other) == wall(zone, micros)
            ==> micros <= other
}

/// The zone's clocks are `ahead` seconds ahead of UTC at every instant.
pub open spec fn always_ahead(zone: Option<Tz>, ahead: int) -> bool {
    forall|micros: int|
        calendar::representable(micros) ==> #[trigger] wall(zone, micros) == micros + ahead
            * calendar::MICROS_PER_SECOND
}

/// Before the instant `from`, the zone's clocks have shown the second of the wall clock
/// `local` already. That is said only of an instant in an hour that they show again.
pub open spec fn shown_before(zone: Option<Tz>, local: int, from: int) -> bool {
    &&& !first_shown(zone, from)
    &&& exists|micros: int|
        calendar::representable(micros) && micros < from && calendar::second_of(
            #[trigger] wall(zone, micros),
        ) == calendar::second_of(local)
}

/// The wall clock `local` lies in a gap, which ends at the wall clock `end`, two hours later at
/// most.
pub open spec fn gap_ends(zone: Option<Tz>, local: int, end: int) -> bool {
    &&& local < end <= local + 7200 * calendar::MICROS_PER_SECOND
    &&& forall|t: int| local <= t < end ==> #[trigger] in_gap(zone, t)
    &&& !in_gap(zone, end)
}

/// Before the instant `from`, the zone's clocks have shown a second from the wall clock `local`
/// to the wall clock `end` already. That is said only of an instant in an hour that they show
/// again.
pub open spec fn shown_between(zone: Option<Tz>, local: int, end: int, from: int) -> bool {
    &&& !first_shown(zone, from)
    &&& exists|micros: int|
        calendar::representable(micros) && micros < from && calendar::second_of(local)
            <= calendar::second_of(#[trigger] wall(zone, micros)) <= calendar::second_of(end)
}

/// More than two hours from the wall clock `local` on lie in a gap.
pub open spec fn is_long_gap(zone: Option<Tz>, local: int) -> bool {
    &&& local < calendar::year_start(5001)
    &&& forall|t: int|
        local <= t <= local + 7201 * calendar::MICROS_PER_SECOND ==> #[trigger] in_gap(zone, t)
}

/// The wall clock at an instant stays within the dates that `chrono` can hold.
pub open spec fn has_wall_clock(zone: Option<Tz>, micros: int) -> bool {
    calendar::representable(micros) ==> calendar::representable(wall(zone, micros))
}

/// `Tz::from_str`: the IANA zone that bears the name. There is one named UTC, whose
/// clocks show UTC.
#[verifier::external_body]
pub(crate) fn parse_zone(name: &str) -> (r: Result<Tz, ParseError>)
    ensures
        match r {
            Ok(tz) => zone_named(name@) == Some(tz),
            Err(_) => zone_named(name@) is None,
        },
        name@ == "UTC"@ ==> r is Ok && always_ahead(Some(r->Ok_0), 0),
{
    name.parse::<Tz>()
}

/// `Tz::offset_from_utc_datetime`, as seconds ahead of UTC. A `chrono` offset is
/// less than a day in either direction.
#[verifier::external_body]
pub(crate) fn offset_seconds(tz: Tz, micros: i64) -> (r: i32)
    requires
        calendar::representable(micros as int),
    ensures
        r == zone_offset(tz, micros as int),
        -86_400 < r < 86_400,
{
    let instant = DateTime::<Utc>::from_timestamp_micros(micros).unwrap();
    tz.offset_from_utc_datetime(&instant.naive_utc()).fix().local_minus_utc()
}

/// The wall clock at an instant, less than a day from it in either direction.
pub fn wall_clock(micros: i64, tz: Tz) -> (r: i64)
    requires
        calendar::representable(micros as int),
    ensures
        r == wall(Some(tz), micros as int),
        -86_400 * calendar::MICROS_PER_SECOND < r - micros < 86_400 * calendar::MICROS_PER_SECOND,
{
    let ahead: i64 = offset_seconds(tz, micros) as i64;
    micros + ahead * calendar::MICROS_PER_SECOND
}

/// Whether the zone has a wall clock to show at the instant. Only within a day of
/// the ends of the calendar can it lack one.
pub fn wall_clock_exists(micros: i64, tz: Tz) -> (r: bool)
    ensures
        r == has_wall_clock(Some(tz), micros as int),
{
    if calendar::instant_exists(micros) {
        calendar::instant_exists(wall_clock(micros, tz))
    } else {
        true
    }
}

} // verus!
