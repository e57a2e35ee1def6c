//! Cron schedules: parsing an expression, and the next time that a schedule fires.
//!
//! Times go in and come out as microseconds since the Unix epoch. A schedule fires
//! either in UTC ([`next_fire`]) or by the wall clock of an IANA zone
//! ([`next_fire_in`]); what is returned is the instant in both cases.

use chrono::{DateTime, Datelike, Utc};
use chrono_tz::Tz;
use croner::errors::CronError;
use croner::parser::{CronParser, Seconds};
use croner::Cron;
use vstd::prelude::*;

use crate::calendar;
use crate::zone;

verus! {

/// Fire times in this year or later are past the end of every series. `croner`
/// itself searches the calendar up to year 5000; this keeps an unbounded series
/// comfortably finite.
pub const YEAR_CAP: i32 = 4096;

#[verifier::external_type_specification]
#[verifier::external_body]
pub struct ExCron(Cron);

#[verifier::external_type_specification]
#[verifier::external_body]
pub struct ExCronError(CronError);

/// How a parser takes the field of seconds that may lead an expression.
pub enum SecondsField {
    /// Five fields mean second zero.
    Optional,
    /// There must be at least six fields.
    Required,
    /// There must be five fields.
    Disallowed,
}

/// What `croner`'s parser makes of an expression.
pub uninterp spec fn parsed(seconds: SecondsField, expr: Seq<char>) -> Result<Cron, CronError>;

/// The text with which `croner` shows an error.
pub uninterp spec fn error_text(error: CronError) -> Seq<char>;

/// The instant at which `Cron::find_next_occurrence` ends its search from the
/// instant `from`, by the wall clock of `zone`; `None` where it reports an error.
pub uninterp spec fn found(cron: Cron, from: int, inclusive: bool, zone: Option<Tz>) -> Option<
    int,
>;

/// The schedule names the wall clock `local`: a search in UTC that may stay where
/// it starts stays there.
pub open spec fn fires_at(cron: Cron, local: int) -> bool {
    found(cron, local, true, None) == Some(local)
}

/// A number below a hundred in decimal digits, without a leading zero.
pub open spec fn numeral(n: nat) -> Seq<char> {
    if n < 10 {
        seq![(48 + n) as char]
    } else {
        seq![(48 + n / 10) as char, (48 + n % 10) as char]
    }
}

/// The expression for a time of every day: the minute, the hour and three stars.
pub open spec fn daily_text(minute: nat, hour: nat) -> Seq<char> {
    numeral(minute) + " "@ + numeral(hour) + " * * *"@
}

/// The schedule names a time of every day from year 1 to year 5000, and nothing else.
pub open spec fn fires_daily(cron: Cron, minute: nat, hour: nat) -> bool {
    forall|t: int| #[trigger]
        fires_at(cron, t) <==> {
            &&& calendar::year_start(1) <= t < calendar::year_start(5001)
            &&& calendar::second_of_day(t) == hour * 3600 + minute * 60
        }
}

/// A field of an expression: some ASCII characters, none of them a space.
pub open spec fn is_field(text: Seq<char>) -> bool {
    &&& text.len() > 0
    &&& forall|i: int| 0 <= i < text.len() ==> 33 <= #[trigger] text[i] as u32 <= 126
}

/// An expression of five fields that begins with a minute and an hour as numbers.
pub open spec fn time_text(
    minute: nat,
    hour: nat,
    day: Seq<char>,
    month: Seq<char>,
    weekday: Seq<char>,
) -> Seq<char> {
    numeral(minute) + " "@ + numeral(hour) + " "@ + day + " "@ + month + " "@ + weekday
}

/// The expression states the second, the minute and the hour as numbers, whatever it says of the
/// days; a second that is left out is zero.
pub open spec fn states_time(expr: Seq<char>, second: nat, minute: nat, hour: nat) -> bool {
    exists|day: Seq<char>, month: Seq<char>, weekday: Seq<char>|
        {
            let text = #[trigger] time_text(minute, hour, day, month, weekday);
            &&& is_field(day) && is_field(month) && is_field(weekday)
            &&& {
                ||| second == 0 && expr == text
                ||| expr == numeral(second) + " "@ + text
                ||| exists|year: Seq<char>| #[trigger]
                    is_field(year) && expr == numeral(second) + " "@ + text + " "@ + year
            }
        }
}

/// The schedule was read from an expression that states its time of day as numbers.
pub open spec fn has_fixed_time(cron: Cron) -> bool {
    exists|expr: Seq<char>, second: nat, minute: nat, hour: nat|
        {
            &&& #[trigger] states_time(expr, second, minute, hour)
            &&& second < 60 && minute < 60 && hour < 24
            &&& parsed(SecondsField::Optional, expr) == Ok::<Cron, CronError>(cron)
        }
}

/// The schedule names a wall clock on the day of `local`.
pub open spec fn names_day(cron: Cron, local: int) -> bool {
    exists|t: int| #[trigger]
        fires_at(cron, t) && calendar::day_of(t) == calendar::day_of(local)
}

/// The fixed time `t` of a schedule lies in a gap of at most two hours, which ends at the wall
/// clock `end` on a day that the schedule names: the schedule fires right behind the gap for it.
pub open spec fn owes(cron: Cron, zone: Option<Tz>, t: int, end: int) -> bool {
    &&& has_fixed_time(cron)
    &&& fires_at(cron, t)
    &&& zone::gap_ends(zone, t, end)
    &&& names_day(cron, end)
}

/// The first wall clock that a search from `from` may end at. One that may not stay
/// where it starts begins a second later.
pub open spec fn search_start(from: int, inclusive: bool, zone: Option<Tz>) -> int {
    zone::wall(zone, from) + if inclusive {
        0
    } else {
        calendar::MICROS_PER_SECOND as int
    }
}

/// `fire` is where a search from `from` may end.
///
/// - Its wall clock is not before the start of the search, lies in a year from 1 to 5000,
///   and is one that the schedule names, unless it stands right behind a gap.
/// - In the seconds passed over, every wall clock that the schedule names lies in a gap. A fixed
///   time in a gap of at most two hours is passed over only up to the end of the gap, if that is
///   on a day that the schedule names.
/// - The schedule goes by whole seconds: it names all of the second that `fire` falls in, or
///   nothing of it. The fraction of a second at `from` is kept or dropped.
/// - It is the first instant at which the zone's clocks show that wall clock. Such instants
///   come in the order of their wall clocks, so it is not before `from` if `from` is one.
#[verifier::opaque]
pub open spec fn is_occurrence(
    cron: Cron,
    from: int,
    inclusive: bool,
    zone: Option<Tz>,
    fire: int,
) -> bool {
    let start = search_start(from, inclusive, zone);
    let local = zone::wall(zone, fire);
    &&& calendar::representable(fire)
    &&& start <= local
    &&& calendar::year_start(1) <= local < calendar::year_start(5001)
    &&& fires_at(cron, local) || start < local && zone::in_gap(
        zone,
        local - calendar::MICROS_PER_SECOND,
    )
    &&& forall|t: int|
        calendar::second_of(start) <= calendar::second_of(t) < calendar::second_of(local)
            && #[trigger] fires_at(cron, t) ==> zone::in_gap(zone, t)
    &&& forall|t: int, end: int| #[trigger]
        owes(cron, zone, t, end) && calendar::second_of(start) <= calendar::second_of(t)
            ==> calendar::second_of(local) <= calendar::second_of(end)
    &&& forall|t: int|
        calendar::second_of(t) == calendar::second_of(local) ==> #[trigger] fires_at(cron, t)
            == fires_at(cron, local)
    &&& calendar::fraction_of(fire) == calendar::fraction_of(from) || calendar::fraction_of(fire)
        == 0
    &&& zone::first_shown(zone, fire)
    &&& zone::first_shown(zone, from) ==> from <= fire && (!inclusive ==> from < fire)
}

/// All that the schedule names is one time of day.
pub open spec fn one_time_of_day(cron: Cron) -> bool {
    forall|a: int, b: int| #[trigger]
        fires_at(cron, a) && #[trigger] fires_at(cron, b) ==> calendar::second_of_day(a)
            == calendar::second_of_day(b)
}

/// Of the wall clocks from `start` on and before `until`, all that the schedule names lie in a
/// gap, and it fires for none of them right behind the gap.
pub open spec fn is_clear(cron: Cron, zone: Option<Tz>, start: int, until: int) -> bool {
    &&& forall|t: int|
        calendar::second_of(start) <= calendar::second_of(t) && t < until && #[trigger] fires_at(
            cron,
            t,
        ) ==> zone::in_gap(zone, t)
    &&& forall|t: int, end: int|
        calendar::second_of(start) <= calendar::second_of(t) && end < until ==> !#[trigger] owes(
            cron,
            zone,
            t,
            end,
        )
}

/// A search from `from` has nowhere to end: there is nothing from its start up to year 5000. Or,
/// by a schedule with one time of day, there is nothing up to a gap of more than two hours, and
/// there it gives up.
#[verifier::opaque]
pub open spec fn is_dead_end(cron: Cron, from: int, inclusive: bool, zone: Option<Tz>) -> bool {
    let start = search_start(from, inclusive, zone);
    ||| is_clear(cron, zone, start, calendar::year_start(5000))
    ||| one_time_of_day(cron) && exists|local: int| #[trigger]
        zone::is_long_gap(zone, local) && start <= local && is_clear(cron, zone, start, local)
}

/// A fire time on the wall clock `local`, found by a search that started at the wall clock
/// `start`, is due: the schedule names `local`, or it names a wall clock between the two. The
/// second is a wall clock in a gap, which the fire time makes up for. `croner` also ends a search
/// for one fixed time of day right behind a gap that it comes to before that time; there nothing
/// is due.
pub open spec fn due(cron: Cron, start: int, local: int) -> bool {
    fires_at(cron, local) || (found(cron, start, true, None) matches Some(named) && named < local)
}

/// The first fire time, of those found one after the other by searches from `from` on, that is
/// due and not before the instant `bound`; `None` where a search fails, or comes to
/// [`YEAR_CAP`], before that.
pub open spec fn first_due(
    cron: Cron,
    from: int,
    inclusive: bool,
    zone: Option<Tz>,
    bound: int,
) -> Option<int>
    decreases calendar::year_start(YEAR_CAP as int) - zone::wall(zone, from),
{
    match found(cron, from, inclusive, zone) {
        Some(fire) => {
            let local = zone::wall(zone, fire);
            if local >= calendar::year_start(YEAR_CAP as int) {
                None
            } else if bound <= fire && due(cron, search_start(from, inclusive, zone), local) {
                Some(fire)
            } else if zone::wall(zone, from) < local {
                first_due(cron, fire, false, zone, bound)
            } else {
                None
            }
        },
        None => None,
    }
}

/// The schedule names the wall clock at `from`, which is before [`YEAR_CAP`].
pub open spec fn names_start(cron: Cron, from: int, zone: Option<Tz>) -> bool {
    let here = zone::wall(zone, from);
    &&& fires_at(cron, here)
    &&& here < calendar::year_start(YEAR_CAP as int)
}

/// The next fire time from the instant `from`, by the wall clock of `zone`: `from` itself where
/// it may fire and the schedule names its wall clock, and else the first one that is due, at
/// `from` or later, or strictly later without `inclusive`. From an instant out of the calendar's
/// range there is none.
pub open spec fn next_of(cron: Cron, from: int, inclusive: bool, zone: Option<Tz>) -> Option<int> {
    if !calendar::representable(from) {
        None
    } else if inclusive && names_start(cron, from, zone) {
        Some(from)
    } else {
        first_due(
            cron,
            from,
            inclusive,
            zone,
            if inclusive {
                from
            } else {
                from + 1
            },
        )
    }
}

/// The schedule names a wall clock of the common era in a gap, from `start` on and before
/// `local`.
pub open spec fn gap_hides(cron: Cron, zone: Option<Tz>, start: int, local: int) -> bool {
    exists|t: int|
        start <= t < local && calendar::year_start(1) <= t && #[trigger] fires_at(cron, t)
            && zone::in_gap(zone, t)
}

/// `fire` is a next fire time from `from`.
///
/// - It is not before `from`, and later without `inclusive`.
/// - Its wall clock is not before the start of the search, and lies in a year from 1 to
///   [`YEAR_CAP`], exclusive.
/// - The schedule names its wall clock; or it stands right behind a gap, and the schedule names
///   a wall clock in a gap since the start of the search.
/// - In the seconds passed over, every wall clock that the schedule names lies in a gap, or has
///   been shown before `from`. A fixed time in a gap of at most two hours is made up for: the
///   fire time is not behind the end of the gap, if that is on a day that the schedule names and
///   was not shown before `from`.
/// - The fraction of a second at `from` is kept or dropped.
/// - It is the first instant at which the zone's clocks show that wall clock, or `from` itself.
#[verifier::opaque]
pub open spec fn is_next(
    cron: Cron,
    from: int,
    inclusive: bool,
    zone: Option<Tz>,
    fire: int,
) -> bool {
    let start = search_start(from, inclusive, zone);
    let local = zone::wall(zone, fire);
    &&& calendar::representable(fire)
    &&& from <= fire
    &&& !inclusive ==> from < fire
    &&& start <= local
    &&& calendar::year_start(1) <= local < calendar::year_start(YEAR_CAP as int)
    &&& fires_at(cron, local) || zone::in_gap(zone, local - calendar::MICROS_PER_SECOND)
        && gap_hides(cron, zone, start, local)
    &&& forall|t: int|
        calendar::second_of(start) <= calendar::second_of(t) < calendar::second_of(local)
            && #[trigger] fires_at(cron, t) ==> zone::in_gap(zone, t) || zone::shown_before(
            zone,
            t,
            from,
        )
    &&& forall|t: int, end: int| #[trigger]
        owes(cron, zone, t, end) && calendar::second_of(start) <= calendar::second_of(t)
            ==> calendar::second_of(local) <= calendar::second_of(end) || zone::shown_between(
            zone,
            t,
            end,
            from,
        )
    &&& calendar::fraction_of(fire) == calendar::fraction_of(from) || calendar::fraction_of(fire)
        == 0
    &&& zone::first_shown(zone, fire) || fire == from
}

/// Of the wall clocks from `start` on and before `until`, all that the schedule names lie in a
/// gap or have been shown before `from`; and what it fires for right behind a gap has been made
/// up for before `from`.
pub open spec fn is_spent(
    cron: Cron,
    zone: Option<Tz>,
    from: int,
    start: int,
    until: int,
) -> bool {
    &&& forall|t: int|
        calendar::second_of(start) <= calendar::second_of(t) && t < until && #[trigger] fires_at(
            cron,
            t,
        ) ==> zone::in_gap(zone, t) || zone::shown_before(zone, t, from)
    &&& forall|t: int, end: int|
        calendar::second_of(start) <= calendar::second_of(t) && end < until && #[trigger] owes(
            cron,
            zone,
            t,
            end,
        ) ==> zone::shown_between(zone, t, end, from)
}

/// From `from` on there is no next fire time: nothing is left up to [`YEAR_CAP`]. Or, by a
/// schedule with one time of day, nothing is left up to a gap of more than two hours, and there
/// the lookup ends.
#[verifier::opaque]
pub open spec fn is_end(cron: Cron, from: int, inclusive: bool, zone: Option<Tz>) -> bool {
    let start = search_start(from, inclusive, zone);
    calendar::representable(from) ==> {
        ||| is_spent(cron, zone, from, start, calendar::year_start(YEAR_CAP as int))
        ||| one_time_of_day(cron) && exists|local: int| #[trigger]
            zone::is_long_gap(zone, local) && start <= local && is_spent(
                cron,
                zone,
                from,
                start,
                local,
            )
    }
}

/// An optional instant, moved back.
pub open spec fn moved_back(instant: Option<int>, by: int) -> Option<int> {
    match instant {
        Some(micros) => Some(micros - by),
        None => None,
    }
}

/// Where the zone's clocks are always as much ahead of UTC, the next fire time is that of the
/// wall clocks in UTC, moved back by as much.
#[verifier::opaque]
pub open spec fn is_shifted(cron: Cron, from: int, inclusive: bool, zone: Option<Tz>) -> bool {
    calendar::representable(from) ==> forall|ahead: int| #[trigger]
        zone::always_ahead(zone, ahead) ==> next_of(cron, from, inclusive, zone) == moved_back(
            next_of(cron, from + ahead * calendar::MICROS_PER_SECOND, inclusive, None),
            ahead * calendar::MICROS_PER_SECOND,
        )
}

/// What `croner` finds is handed on. In UTC that is all there is to it, up to [`YEAR_CAP`]. In a
/// zone, a start that may fire and whose wall clock the schedule names comes first; and what is
/// found must not be before `from`, and the schedule must name a wall clock from the start of the
/// search up to there.
#[verifier::opaque]
pub open spec fn hands_on(cron: Cron, from: int, inclusive: bool, zone: Option<Tz>) -> bool {
    let start = search_start(from, inclusive, zone);
    let next = next_of(cron, from, inclusive, zone);
    calendar::representable(from) ==> {
        &&& inclusive && names_start(cron, from, zone) ==> next == Some(from)
        &&& forall|fire: int, t: int|
            found(cron, from, inclusive, zone) == Some(fire) && #[trigger] zone::wall(zone, fire)
                < calendar::year_start(YEAR_CAP as int) && from <= fire && (!inclusive ==> from
                < fire) && (inclusive ==> !names_start(cron, from, zone)) && #[trigger] fires_at(
                cron,
                t,
            ) && calendar::second_of(start) <= calendar::second_of(t) <= calendar::second_of(
                zone::wall(zone, fire),
            ) ==> next == Some(fire)
        &&& zone is None ==> next == match found(cron, from, inclusive, None) {
            Some(fire) => if fire < calendar::year_start(YEAR_CAP as int) {
                Some(fire)
            } else {
                None
            },
            None => None,
        }
    }
}

/// What a lookup of the next fire time establishes.
pub open spec fn is_sound(cron: Cron, from: int, inclusive: bool, zone: Option<Tz>) -> bool {
    &&& match next_of(cron, from, inclusive, zone) {
        Some(fire) => is_next(cron, from, inclusive, zone, fire),
        None => is_end(cron, from, inclusive, zone),
    }
    &&& is_shifted(cron, from, inclusive, zone)
    &&& hands_on(cron, from, inclusive, zone)
}

/// The integer of an optional machine integer.
pub open spec fn opt_int(value: Option<i64>) -> Option<int> {
    match value {
        Some(n) => Some(n as int),
        None => None,
    }
}

/// What a lookup of the next fire time that came back with `next` states of it.
pub open spec fn is_lookup(
    cron: Cron,
    from: int,
    inclusive: bool,
    zone: Option<Tz>,
    next: Option<i64>,
) -> bool {
    &&& opt_int(next) == next_of(cron, from, inclusive, zone)
    &&& is_sound(cron, from, inclusive, zone)
}

/// `CronParser::parse`, with the parser's setting for the field of seconds. A minute and an hour
/// as numbers, before three stars, are a time of every day. Which other expressions it takes, and
/// what it reads from them, is `croner`'s to say.
#[verifier::external_body]
fn parse_pattern(seconds: SecondsField, expr: &str) -> (r: Result<Cron, CronError>)
    ensures
        r == parsed(seconds, expr@),
        forall|minute: nat, hour: nat|
            seconds is Optional && minute < 60 && hour < 24 && expr@ == #[trigger] daily_text(
                minute,
                hour,
            ) ==> r is Ok && fires_daily(r->Ok_0, minute, hour),
{
    let seconds = match seconds {
        SecondsField::Optional => Seconds::Optional,
        SecondsField::Required => Seconds::Required,
        SecondsField::Disallowed => Seconds::Disallowed,
    };
    CronParser::builder().seconds(seconds).build().parse(expr)
}

/// `CronError`'s `Display`.
#[verifier::external_body]
pub(crate) fn describe(error: &CronError) -> (r: String)
    ensures
        r@ == error_text(*error),
{
    error.to_string()
}

/// `Cron::find_next_occurrence` in UTC: the year that was found, and the instant.
///
/// The search moves the clock forward only, and past a time only when a field of
/// the pattern fails there; the fields are read in whole seconds. It ends at a time that matches
/// the pattern; a pattern matches in the years from 1 to 5000. It fails when it has to move on
/// in year 5000.
#[verifier::external_body]
fn find_next_utc(cron: &Cron, from_micros: i64, inclusive: bool) -> (r: Result<
    (i32, i64),
    CronError,
>)
    requires
        calendar::representable(from_micros as int),
    ensures
        match r {
            Ok((year, fire)) => {
                &&& found(*cron, from_micros as int, inclusive, None) == Some(fire as int)
                &&& calendar::in_year(year as int, fire as int)
                &&& is_occurrence(*cron, from_micros as int, inclusive, None, fire as int)
            },
            Err(_) => {
                &&& found(*cron, from_micros as int, inclusive, None) is None
                &&& is_dead_end(*cron, from_micros as int, inclusive, None)
            },
        },
{
    let from = DateTime::<Utc>::from_timestamp_micros(from_micros).unwrap();
    cron.find_next_occurrence(&from, inclusive).map(
        |next| (next.year(), next.timestamp_micros()),
    )
}

/// `Cron::find_next_occurrence` by the wall clock of a zone: the year that was found, and
/// the instant.
///
/// The search moves the wall clock as it does in UTC. By a schedule with one fixed time of day,
/// read from a second, a minute and an hour as numbers, a wall clock in a gap is answered with the
/// first one behind the gap, if the pattern matches the date there, whether the schedule names it
/// or the search only comes by there on its way; in a gap of more than two hours the search gives
/// up. By another schedule the gap is passed over. Of two instants with one wall
/// clock the earlier is taken. In a zone without changes of its offset it is the search in UTC,
/// from the wall clock and back. It panics where the zone has no wall clock at the start.
#[verifier::external_body]
fn find_next_local(cron: &Cron, from_micros: i64, inclusive: bool, tz: Tz) -> (r: Result<
    (i32, i64),
    CronError,
>)
    requires
        calendar::representable(from_micros as int),
        calendar::representable(zone::wall(Some(tz), from_micros as int)),
    ensures
        match r {
            Ok((year, fire)) => {
                &&& found(*cron, from_micros as int, inclusive, Some(tz)) == Some(fire as int)
                &&& calendar::in_year(year as int, zone::wall(Some(tz), fire as int))
                &&& is_occurrence(*cron, from_micros as int, inclusive, Some(tz), fire as int)
            },
            Err(_) => {
                &&& found(*cron, from_micros as int, inclusive, Some(tz)) is None
                &&& is_dead_end(*cron, from_micros as int, inclusive, Some(tz))
            },
        },
        forall|ahead: int| #[trigger]
            zone::always_ahead(Some(tz), ahead) ==> found(
                *cron,
                from_micros + ahead * calendar::MICROS_PER_SECOND,
                inclusive,
                None,
            ) == match r {
                Ok((_, fire)) => Some(fire + ahead * calendar::MICROS_PER_SECOND),
                Err(_) => None,
            },
{
    let from = DateTime::<Utc>::from_timestamp_micros(from_micros).unwrap().with_timezone(&tz);
    cron.find_next_occurrence(&from, inclusive).map(
        |next| (next.year(), next.timestamp_micros()),
    )
}

/// Parse a cron expression.
///
/// Standard five-field (`min hour dom month dow`), six-field (leading `seconds`) and
/// seven-field (trailing `year`) expressions are all taken by one parser.
pub fn parse_cron(expr: &str) -> (r: Result<Cron, CronError>)
    ensures
        r == parsed(SecondsField::Optional, expr@),
        forall|minute: nat, hour: nat|
            minute < 60 && hour < 24 && expr@ == #[trigger] daily_text(minute, hour) ==> r is Ok
                && fires_daily(r->Ok_0, minute, hour),
{
    parse_pattern(SecondsField::Optional, expr)
}

/// The instant that a search found, given the year of its wall clock: `None` where the
/// search failed or the year is [`YEAR_CAP`] or later.
pub fn next_in_zone(outcome: Result<(i32, i64), CronError>) -> (r: Option<i64>)
    ensures
        r == match outcome {
            Ok((year, fire)) => if year < YEAR_CAP {
                Some(fire)
            } else {
                None
            },
            Err(_) => None,
        },
{
    match outcome {
        Ok((year, fire)) => {
            if year >= YEAR_CAP {
                return None;
            }
            Some(fire)
        },
        Err(_) => None,
    }
}

/// Whether a fire time on the wall clock `local` is due, as [`due`] says.
fn is_due(cron: &Cron, start: i64, local: i64) -> (r: bool)
    requires
        calendar::representable(start as int),
        calendar::representable(local as int),
    ensures
        r == due(*cron, start as int, local as int),
        r && !fires_at(*cron, local as int) ==> exists|named: int| #[trigger]
            is_occurrence(*cron, start as int, true, None, named) && named < local,
        !r && local < calendar::year_start(YEAR_CAP as int) ==> forall|t: int|
            calendar::second_of(start as int) <= calendar::second_of(t) <= calendar::second_of(
                local as int,
            ) ==> !#[trigger] fires_at(*cron, t),
{
    match find_next_utc(cron, local, true) {
        Ok((_, named)) => {
            if named == local {
                return true;
            }
        },
        Err(_) => {},
    }
    match find_next_utc(cron, start, true) {
        Ok((_, named)) => {
            proof {
                if named >= local && local < calendar::year_start(YEAR_CAP as int) {
                    lemma_none_between(*cron, start as int, local as int);
                }
            }
            named < local
        },
        Err(_) => {
            proof {
                if local < calendar::year_start(YEAR_CAP as int) {
                    lemma_none_between(*cron, start as int, local as int);
                }
            }
            false
        },
    }
}

/// The next fire time at or after `from_micros`, computed in UTC.
///
/// With `inclusive`, `from_micros` itself fires if it matches the schedule; without,
/// the fire time is strictly after it, so that stepping through a series never emits
/// an instant twice. `None` when there is no further occurrence, when the search
/// fails, or when the next occurrence lies in [`YEAR_CAP`] or later.
pub fn next_fire(cron: &Cron, from_micros: i64, inclusive: bool) -> (r: Option<i64>)
    ensures
        is_lookup(*cron, from_micros as int, inclusive, None, r),
        r matches Some(fire) ==> from_micros <= fire && (!inclusive ==> from_micros < fire),
{
    if !calendar::instant_exists(from_micros) {
        proof {
            lemma_out_of_range(*cron, from_micros as int, inclusive, None);
        }
        return None;
    }
    let outcome = find_next_utc(cron, from_micros, inclusive);
    proof {
        lemma_utc(*cron, from_micros as int, inclusive);
        reveal(is_next);
        if let Ok((year, fire)) = outcome {
            calendar::lemma_year_bound(year as int, fire as int, YEAR_CAP as int);
        }
    }
    next_in_zone(outcome)
}

/// The next fire time at or after `from_micros`, computed in the IANA zone `tz`: the
/// schedule names wall clocks of the zone, across changes of its offset; the instant
/// is returned.
///
/// `inclusive` and `None` mean what they do in [`next_fire`]. A wall clock that comes twice fires
/// the first time, unless the second is `from_micros` itself. The zone must have a wall clock at
/// `from_micros`; [`checked_next_fire_in`] takes every instant.
pub fn next_fire_in(cron: &Cron, from_micros: i64, inclusive: bool, tz: Tz) -> (r: Option<i64>)
    requires
        zone::has_wall_clock(Some(tz), from_micros as int),
    ensures
        is_lookup(*cron, from_micros as int, inclusive, Some(tz), r),
        r matches Some(fire) ==> from_micros <= fire && (!inclusive ==> from_micros < fire),
        inclusive && calendar::representable(from_micros as int) && names_start(
            *cron,
            from_micros as int,
            Some(tz),
        ) ==> r == Some(from_micros),
{
    let ghost from = from_micros as int;
    let ghost zone = Some(tz);
    if !calendar::instant_exists(from_micros) {
        proof {
            lemma_out_of_range(*cron, from, inclusive, zone);
        }
        return None;
    }
    let here = zone::wall_clock(from_micros, tz);
    if inclusive {
        let named = next_fire(cron, here, true);
        if named == Some(here) {
            proof {
                lemma_start_fires(*cron, from, tz);
            }
            return Some(from_micros);
        }
        proof {
            lemma_start_is_named(*cron, here as int, opt_int(named));
        }
    }
    let bound: i64 = if inclusive {
        from_micros
    } else {
        from_micros + 1
    };
    let mut at = from_micros;
    let mut local = here;
    let mut may_stay = inclusive;
    let ghost mut first = true;
    proof {
        lemma_starts(*cron, from, inclusive, zone);
    }
    loop
        invariant
            zone == Some(tz),
            from == from_micros,
            here == zone::wall(zone, from),
            -86_400 * calendar::MICROS_PER_SECOND < here - from < 86_400
                * calendar::MICROS_PER_SECOND,
            calendar::representable(from),
            bound == if inclusive {
                from
            } else {
                from + 1
            },
            inclusive ==> !names_start(*cron, from, zone),
            local == zone::wall(zone, at as int),
            calendar::representable(at as int),
            calendar::representable(local as int),
            first ==> at == from && may_stay == inclusive,
            !first ==> {
                &&& !may_stay
                &&& is_shifted(*cron, from, inclusive, zone)
                &&& hands_on(*cron, from, inclusive, zone)
            },
            is_under_way(*cron, from, inclusive, zone, at as int, may_stay, bound as int),
        decreases calendar::year_start(YEAR_CAP as int) - local,
    {
        let outcome = find_next_local(cron, at, may_stay, tz);
        proof {
            if first {
                lemma_shifted(*cron, from, inclusive, tz);
            }
            if let Ok((year, fire)) = outcome {
                calendar::lemma_year_bound(
                    year as int,
                    zone::wall(zone, fire as int),
                    YEAR_CAP as int,
                );
            }
        }
        let Some(fire) = next_in_zone(outcome) else {
            proof {
                lemma_ended(*cron, from, inclusive, zone, at as int, may_stay, bound as int);
                if first {
                    lemma_hands_on(*cron, from, inclusive, tz);
                }
            }
            return None;
        };
        proof {
            lemma_moves_on(*cron, from, inclusive, zone, at as int, may_stay, fire as int);
        }
        let start: i64 = if may_stay {
            local
        } else {
            local + calendar::MICROS_PER_SECOND
        };
        let found_at = zone::wall_clock(fire, tz);
        if bound <= fire && is_due(cron, start, found_at) {
            proof {
                lemma_accepted(
                    *cron,
                    from,
                    inclusive,
                    zone,
                    at as int,
                    may_stay,
                    bound as int,
                    fire as int,
                );
                if first {
                    lemma_hands_on(*cron, from, inclusive, tz);
                }
            }
            return Some(fire);
        }
        proof {
            lemma_rejected(
                *cron,
                from,
                inclusive,
                zone,
                at as int,
                may_stay,
                bound as int,
                fire as int,
            );
            if first {
                lemma_hands_on(*cron, from, inclusive, tz);
            }
            first = false;
        }
        at = fire;
        local = found_at;
        may_stay = false;
    }
}

/// [`next_fire_in`] from any instant: `None` where the zone has no wall clock there.
pub fn checked_next_fire_in(cron: &Cron, from_micros: i64, inclusive: bool, tz: Tz) -> (r: Option<
    Option<i64>,
>)
    ensures
        r is Some <==> zone::has_wall_clock(Some(tz), from_micros as int),
        r matches Some(next) ==> {
            &&& is_lookup(*cron, from_micros as int, inclusive, Some(tz), next)
            &&& next matches Some(fire) ==> from_micros <= fire && (!inclusive ==> from_micros
                < fire)
        },
{
    if zone::wall_clock_exists(from_micros, tz) {
        Some(next_fire_in(cron, from_micros, inclusive, tz))
    } else {
        None
    }
}

/// A lookup from `from` has come to the instant `at`, with what is left to do, and has left out
/// nothing that it should have found.
#[verifier::opaque]
spec fn is_under_way(
    cron: Cron,
    from: int,
    inclusive: bool,
    zone: Option<Tz>,
    at: int,
    may_stay: bool,
    bound: int,
) -> bool {
    let start = search_start(from, inclusive, zone);
    let there = search_start(at, may_stay, zone);
    &&& next_of(cron, from, inclusive, zone) == first_due(cron, at, may_stay, zone, bound)
    &&& calendar::representable(at)
    &&& start <= there
    &&& zone::first_shown(zone, at) || at == from
    &&& zone::first_shown(zone, from) ==> from <= at
    &&& !inclusive ==> !may_stay
    &&& calendar::fraction_of(at) == calendar::fraction_of(from) || calendar::fraction_of(at) == 0
    &&& forall|t: int|
        calendar::second_of(start) <= calendar::second_of(t) < calendar::second_of(there)
            && #[trigger] fires_at(cron, t) ==> zone::in_gap(zone, t) || zone::shown_before(
            zone,
            t,
            from,
        )
    &&& forall|t: int, end: int| #[trigger]
        owes(cron, zone, t, end) && calendar::second_of(start) <= calendar::second_of(t)
            < calendar::second_of(there) ==> zone::shown_between(zone, t, end, from)
}

/// In UTC no wall clock lies in a gap, and each is shown once.
pub proof fn lemma_utc_clocks(from: int, t: int)
    ensures
        calendar::representable(t) ==> !zone::in_gap(None, t),
        zone::first_shown(None, from),
        calendar::representable(from) ==> forall|local: int|
            from <= local ==> !#[trigger] zone::is_long_gap(None, local),
{
    assert(zone::wall(None, t) == t);
    if calendar::representable(from) {
        assert forall|local: int| from <= local implies !#[trigger] zone::is_long_gap(
            None,
            local,
        ) by {
            if local < calendar::year_start(5001) {
                assert(zone::wall(None, local) == local);
                assert(!zone::in_gap(None, local));
            }
        }
    }
}

/// What a lookup from an instant out of range states.
proof fn lemma_out_of_range(cron: Cron, from: int, inclusive: bool, zone: Option<Tz>)
    requires
        !calendar::representable(from),
    ensures
        is_sound(cron, from, inclusive, zone),
{
    reveal(is_end);
    reveal(is_shifted);
    reveal(hands_on);
}

/// What the search from `start` leaves unnamed, where a fire time on the wall clock `local` is
/// not due.
proof fn lemma_none_between(cron: Cron, start: int, local: int)
    requires
        calendar::representable(start),
        calendar::representable(local),
        local < calendar::year_start(YEAR_CAP as int),
        !fires_at(cron, local),
        match found(cron, start, true, None) {
            Some(named) => is_occurrence(cron, start, true, None, named) && named >= local,
            None => is_dead_end(cron, start, true, None),
        },
    ensures
        forall|t: int|
            calendar::second_of(start) <= calendar::second_of(t) <= calendar::second_of(local)
                ==> !#[trigger] fires_at(cron, t),
{
    reveal(is_occurrence);
    reveal(is_dead_end);
    lemma_utc_clocks(start, start);
    assert(calendar::year_start(YEAR_CAP as int) < calendar::year_start(5000));
    assert(calendar::year_start(5000) % 1_000_000 == 0);
    assert(calendar::year_start(YEAR_CAP as int) % 1_000_000 == 0);
    assert(calendar::year_start(-262143) % 1_000_000 == 0);
    if let Some(named) = found(cron, start, true, None) {
        lemma_utc_clocks(start, named - calendar::MICROS_PER_SECOND);
    }
    assert forall|t: int|
        calendar::second_of(start) <= calendar::second_of(t) <= calendar::second_of(
            local,
        ) implies !#[trigger] fires_at(cron, t) by {
        lemma_utc_clocks(start, t);
    }
}

/// In UTC the next fire time is where one search ends, up to [`YEAR_CAP`].
proof fn lemma_utc(cron: Cron, from: int, inclusive: bool)
    requires
        calendar::representable(from),
        match found(cron, from, inclusive, None) {
            Some(fire) => is_occurrence(cron, from, inclusive, None, fire),
            None => is_dead_end(cron, from, inclusive, None),
        },
    ensures
        next_of(cron, from, inclusive, None) == match found(cron, from, inclusive, None) {
            Some(fire) => if fire < calendar::year_start(YEAR_CAP as int) {
                Some(fire)
            } else {
                None
            },
            None => None,
        },
        is_sound(cron, from, inclusive, None),
{
    let start = search_start(from, inclusive, None);
    reveal(is_occurrence);
    reveal(is_dead_end);
    reveal(is_next);
    reveal(is_end);
    reveal(is_shifted);
    reveal(hands_on);
    lemma_utc_clocks(from, from);
    if let Some(fire) = found(cron, from, inclusive, None) {
        lemma_utc_clocks(fire, fire - calendar::MICROS_PER_SECOND);
        assert(fires_at(cron, fire));
    } else {
        assert(calendar::year_start(YEAR_CAP as int) < calendar::year_start(5000));
        assert(is_clear(cron, None, start, calendar::year_start(5000)));
    }
    assert forall|ahead: int| #[trigger] zone::always_ahead(None, ahead) implies ahead == 0 by {
        assert(zone::wall(None, 0) == 0);
        assert(calendar::representable(0));
    }
}

/// A start that may fire, and whose wall clock the schedule names.
proof fn lemma_start_fires(cron: Cron, from: int, tz: Tz)
    requires
        calendar::representable(from),
        ({
            let here = zone::wall(Some(tz), from);
            &&& next_of(cron, here, true, None) == Some(here)
            &&& is_next(cron, here, true, None, here)
        }),
    ensures
        next_of(cron, from, true, Some(tz)) == Some(from),
        is_sound(cron, from, true, Some(tz)),
{
    reveal(is_next);
    reveal(is_shifted);
    reveal(hands_on);
    let here = zone::wall(Some(tz), from);
    lemma_utc_clocks(here, here - calendar::MICROS_PER_SECOND);
}

/// In UTC, a lookup that may stay does so where the schedule names the start.
proof fn lemma_start_is_named(cron: Cron, here: int, next: Option<int>)
    requires
        calendar::representable(here),
        next == next_of(cron, here, true, None),
        next != Some(here),
    ensures
        !names_start(cron, here, None),
{
}

/// A lookup is under way from its start.
proof fn lemma_starts(cron: Cron, from: int, inclusive: bool, zone: Option<Tz>)
    requires
        calendar::representable(from),
        inclusive ==> !names_start(cron, from, zone),
    ensures
        is_under_way(
            cron,
            from,
            inclusive,
            zone,
            from,
            inclusive,
            if inclusive {
                from
            } else {
                from + 1
            },
        ),
{
    reveal(is_under_way);
}

/// A lookup whose last search failed, or came to [`YEAR_CAP`].
proof fn lemma_ended(
    cron: Cron,
    from: int,
    inclusive: bool,
    zone: Option<Tz>,
    at: int,
    may_stay: bool,
    bound: int,
)
    requires
        is_under_way(cron, from, inclusive, zone, at, may_stay, bound),
        match found(cron, at, may_stay, zone) {
            Some(fire) => {
                &&& is_occurrence(cron, at, may_stay, zone, fire)
                &&& zone::wall(zone, fire) >= calendar::year_start(YEAR_CAP as int)
            },
            None => is_dead_end(cron, at, may_stay, zone),
        },
    ensures
        next_of(cron, from, inclusive, zone) is None,
        is_end(cron, from, inclusive, zone),
{
    reveal(is_under_way);
    reveal(is_occurrence);
    reveal(is_dead_end);
    reveal(is_end);
    let start = search_start(from, inclusive, zone);
    let there = search_start(at, may_stay, zone);
    assert(calendar::year_start(YEAR_CAP as int) < calendar::year_start(5000));
    if found(cron, at, may_stay, zone) is None && !is_clear(
        cron,
        zone,
        there,
        calendar::year_start(5000),
    ) {
        let local = choose|local: int| #[trigger]
            zone::is_long_gap(zone, local) && there <= local && is_clear(cron, zone, there, local);
        assert(is_spent(cron, zone, from, start, local));
        assert(zone::is_long_gap(zone, local) && start <= local);
    }
    assert(calendar::year_start(YEAR_CAP as int) % 1_000_000 == 0);
}

/// A search moves the wall clock on, unless it may stay.
proof fn lemma_moves_on(
    cron: Cron,
    from: int,
    inclusive: bool,
    zone: Option<Tz>,
    at: int,
    may_stay: bool,
    fire: int,
)
    requires
        is_occurrence(cron, at, may_stay, zone, fire),
        zone::wall(zone, fire) < calendar::year_start(YEAR_CAP as int),
        may_stay ==> at == from && inclusive && !names_start(cron, from, zone),
    ensures
        zone::wall(zone, at) < zone::wall(zone, fire),
        search_start(at, may_stay, zone) <= zone::wall(zone, fire),
        calendar::representable(fire),
        calendar::representable(zone::wall(zone, fire)),
{
    reveal(is_occurrence);
}

/// A lookup whose last search found a fire time that is due and not too early.
proof fn lemma_accepted(
    cron: Cron,
    from: int,
    inclusive: bool,
    zone: Option<Tz>,
    at: int,
    may_stay: bool,
    bound: int,
    fire: int,
)
    requires
        is_under_way(cron, from, inclusive, zone, at, may_stay, bound),
        found(cron, at, may_stay, zone) == Some(fire),
        is_occurrence(cron, at, may_stay, zone, fire),
        zone::wall(zone, fire) < calendar::year_start(YEAR_CAP as int),
        bound == if inclusive {
            from
        } else {
            from + 1
        },
        bound <= fire,
        ({
            let start = search_start(at, may_stay, zone);
            let local = zone::wall(zone, fire);
            &&& due(cron, start, local)
            &&& !fires_at(cron, local) ==> exists|named: int| #[trigger]
                is_occurrence(cron, start, true, None, named) && named < local
        }),
    ensures
        next_of(cron, from, inclusive, zone) == Some(fire),
        is_next(cron, from, inclusive, zone, fire),
{
    reveal(is_under_way);
    reveal(is_occurrence);
    reveal(is_next);
    let start = search_start(at, may_stay, zone);
    let local = zone::wall(zone, fire);
    if !fires_at(cron, local) {
        let named = choose|named: int| #[trigger]
            is_occurrence(cron, start, true, None, named) && named < local;
        lemma_utc_clocks(named, named - calendar::MICROS_PER_SECOND);
        assert(fires_at(cron, named));
        assert(calendar::second_of(named) != calendar::second_of(local));
        assert(zone::in_gap(zone, named));
        assert(gap_hides(cron, zone, search_start(from, inclusive, zone), local));
    }
}

/// A lookup goes on from a fire time that is not due or too early.
proof fn lemma_rejected(
    cron: Cron,
    from: int,
    inclusive: bool,
    zone: Option<Tz>,
    at: int,
    may_stay: bool,
    bound: int,
    fire: int,
)
    requires
        is_under_way(cron, from, inclusive, zone, at, may_stay, bound),
        found(cron, at, may_stay, zone) == Some(fire),
        is_occurrence(cron, at, may_stay, zone, fire),
        zone::wall(zone, at) < zone::wall(zone, fire) < calendar::year_start(YEAR_CAP as int),
        bound == if inclusive {
            from
        } else {
            from + 1
        },
        !(bound <= fire && due(
            cron,
            search_start(at, may_stay, zone),
            zone::wall(zone, fire),
        )),
        bound <= fire ==> forall|t: int|
            calendar::second_of(search_start(at, may_stay, zone)) <= calendar::second_of(t)
                <= calendar::second_of(zone::wall(zone, fire)) ==> !#[trigger] fires_at(cron, t),
    ensures
        is_under_way(cron, from, inclusive, zone, fire, false, bound),
{
    reveal(is_under_way);
    reveal(is_occurrence);
    let start = search_start(from, inclusive, zone);
    let local = zone::wall(zone, fire);
    let there = local + calendar::MICROS_PER_SECOND;
    assert(calendar::second_of(there) == calendar::second_of(local) + 1);
    assert forall|t: int|
        calendar::second_of(start) <= calendar::second_of(t) < calendar::second_of(there)
            && #[trigger] fires_at(cron, t) implies zone::in_gap(zone, t) || zone::shown_before(
        zone,
        t,
        from,
    ) by {
        if calendar::second_of(t) == calendar::second_of(local) {
            assert(fires_at(cron, local));
            assert(fire < from);
        }
    }
    assert forall|t: int, end: int| #[trigger]
        owes(cron, zone, t, end) && calendar::second_of(start) <= calendar::second_of(t)
            < calendar::second_of(there) implies zone::shown_between(zone, t, end, from) by {
        if calendar::second_of(search_start(at, may_stay, zone)) <= calendar::second_of(t) {
            assert(fires_at(cron, t));
            assert(fire < from);
        }
    }
}

/// What the first search of a lookup in a zone came to.
proof fn lemma_hands_on(cron: Cron, from: int, inclusive: bool, tz: Tz)
    requires
        inclusive ==> !names_start(cron, from, Some(tz)),
        found(cron, from, inclusive, Some(tz)) matches Some(fire) ==> {
            let local = zone::wall(Some(tz), fire);
            ||| local >= calendar::year_start(YEAR_CAP as int)
            ||| next_of(cron, from, inclusive, Some(tz)) == Some(fire)
            ||| fire < if inclusive {
                from
            } else {
                from + 1
            }
            ||| forall|t: int|
                calendar::second_of(search_start(from, inclusive, Some(tz)))
                    <= calendar::second_of(t) <= calendar::second_of(local)
                    ==> !#[trigger] fires_at(cron, t)
        },
    ensures
        hands_on(cron, from, inclusive, Some(tz)),
{
    reveal(hands_on);
}

/// A lookup in a zone whose offset never changes, from its first search.
proof fn lemma_shifted(cron: Cron, from: int, inclusive: bool, tz: Tz)
    requires
        calendar::representable(from),
        calendar::representable(zone::wall(Some(tz), from)),
        -86_400 * calendar::MICROS_PER_SECOND < zone::wall(Some(tz), from) - from < 86_400
            * calendar::MICROS_PER_SECOND,
        found(cron, from, inclusive, Some(tz)) matches Some(fire) ==> is_occurrence(
            cron,
            from,
            inclusive,
            Some(tz),
            fire,
        ),
        forall|ahead: int| #[trigger]
            zone::always_ahead(Some(tz), ahead) ==> found(
                cron,
                from + ahead * calendar::MICROS_PER_SECOND,
                inclusive,
                None,
            ) == match found(cron, from, inclusive, Some(tz)) {
                Some(fire) => Some(fire + ahead * calendar::MICROS_PER_SECOND),
                None => None,
            },
    ensures
        is_shifted(cron, from, inclusive, Some(tz)),
{
    reveal(is_shifted);
    reveal(is_occurrence);
    let zone = Some(tz);
    assert forall|ahead: int| #[trigger] zone::always_ahead(zone, ahead) implies next_of(
        cron,
        from,
        inclusive,
        zone,
    ) == moved_back(
        next_of(cron, from + ahead * calendar::MICROS_PER_SECOND, inclusive, None),
        ahead * calendar::MICROS_PER_SECOND,
    ) by {
        let by = ahead * calendar::MICROS_PER_SECOND;
        assert(zone::wall(zone, from) == from + by);
        assert(zone::first_shown(zone, from));
        if let Some(fire) = found(cron, from, inclusive, zone) {
            let before = fire - calendar::MICROS_PER_SECOND;
            assert(zone::wall(zone, fire) == fire + by);
            assert(zone::wall(zone, before) == before + by);
            assert(fires_at(cron, fire + by));
        }
    }
}

} // verus!
