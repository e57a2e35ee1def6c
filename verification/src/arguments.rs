//! The arguments of a call, and what they mean: the schedule, the start, the optional
//! end, and the session's zone.

use chrono_tz::Tz;
use croner::Cron;
use vstd::prelude::*;
use vstd::string::StringExecFns;

use crate::schedule;
use crate::zone;

verus! {

/// The session setting that carries the name of an IANA zone.
pub const SETTING_TIMEZONE: &'static str = "TimeZone";

/// An input that the function does not accept.
#[derive(Debug)]
pub struct ValueError {
    /// What is wrong with it.
    pub message: String,
}

/// The unit that a timestamp counts in.
#[derive(Clone, Copy, Debug)]
pub enum TimeUnit {
    /// Seconds.
    Second,
    /// Milliseconds.
    Millisecond,
    /// Microseconds.
    Microsecond,
    /// Nanoseconds.
    Nanosecond,
}

/// The type of an argument, as far as the function tells types apart.
#[derive(Clone, Copy, Debug)]
pub enum ArgType {
    /// An 8-bit integer.
    Int8,
    /// A 16-bit integer.
    Int16,
    /// A 32-bit integer.
    Int32,
    /// A 64-bit integer.
    Int64,
    /// An unsigned 8-bit integer.
    UInt8,
    /// An unsigned 16-bit integer.
    UInt16,
    /// An unsigned 32-bit integer.
    UInt32,
    /// An unsigned 64-bit integer.
    UInt64,
    /// A timestamp; `zoned` where its type carries a zone.
    Timestamp { unit: TimeUnit, zoned: bool },
    /// Any other type.
    Other,
}

/// An argument of a call.
#[derive(Debug)]
pub struct Argument {
    /// Its type.
    pub arg_type: ArgType,
    /// Its type as a message shows it.
    pub type_text: String,
    /// Its value as a number, where it has one.
    pub number: Option<i64>,
    /// Its value in microseconds since the epoch, where it is a timestamp in
    /// microseconds.
    pub micros: Option<i64>,
}

/// The arguments of a call. One that is absent, or `NULL` where `NULL` counts as
/// absent, is `None`.
#[derive(Debug)]
pub struct Arguments {
    /// The cron expression, first by position.
    pub cron: Option<String>,
    /// The start, second by position.
    pub start: Option<Argument>,
    /// The end, by name.
    pub end: Option<Argument>,
}

/// What the optional end of a series means.
#[derive(Clone, Copy, Debug)]
pub enum End {
    /// That many occurrences.
    Count(i64),
    /// Every occurrence strictly before an instant.
    Until(i64),
    /// No end of its own.
    Unbounded,
}

impl ArgType {
    /// One of the integer types.
    pub open spec fn is_integer(self) -> bool {
        match self {
            ArgType::Timestamp { .. } | ArgType::Other => false,
            _ => true,
        }
    }
}

/// The meaning of the end, or what is wrong with it.
pub open spec fn end_meaning(end: Option<Argument>) -> Result<End, Seq<char>> {
    match end {
        None => Ok(End::Unbounded),
        Some(arg) => if arg.arg_type.is_integer() {
            match arg.number {
                None => Err("cron_fire_times: 'end' count is not readable"@),
                Some(n) => if n < 0 {
                    Err("cron_fire_times: 'end' count must be non-negative"@)
                } else {
                    Ok(End::Count(n))
                },
            }
        } else {
            match arg.arg_type {
                ArgType::Timestamp { unit: TimeUnit::Microsecond, .. } => match arg.micros {
                    None => Err("cron_fire_times: could not read 'end' timestamp"@),
                    Some(micros) => Ok(End::Until(micros)),
                },
                _ => Err(
                    "cron_fire_times: 'end' must be an integer count or a microsecond timestamp, got "@
                        + arg.type_text@,
                ),
            }
        },
    }
}

/// The schedule that the cron expression states, or what is wrong with it.
pub open spec fn cron_meaning(cron: Option<String>) -> Result<Cron, Seq<char>> {
    match cron {
        None => Err("cron_fire_times: a cron expression is required"@),
        Some(expr) => match schedule::parsed(schedule::SecondsField::Optional, expr@) {
            Ok(cron) => Ok(cron),
            Err(error) => Err(
                "cron_fire_times: invalid cron expression '"@ + expr@ + "': "@
                    + schedule::error_text(error),
            ),
        },
    }
}

/// Whether the start carries a zone, or what is wrong with it.
pub open spec fn start_zoned(start: Option<Argument>) -> Result<bool, Seq<char>> {
    match start {
        None => Err("cron_fire_times: a start timestamp is required"@),
        Some(arg) => match arg.arg_type {
            ArgType::Timestamp { zoned, .. } => Ok(zoned),
            _ => Err(
                "cron_fire_times: 'start' must be a TIMESTAMP or TIMESTAMPTZ, got "@
                    + arg.type_text@,
            ),
        },
    }
}

/// The instant of the start, or what is wrong with it.
pub open spec fn start_instant(start: Option<Argument>) -> Result<i64, Seq<char>> {
    match start {
        None => Err("cron_fire_times: a start timestamp is required"@),
        Some(arg) => match arg.arg_type {
            ArgType::Timestamp { unit: TimeUnit::Microsecond, .. } => match arg.micros {
                Some(micros) => Ok(micros),
                None => Err("cron_fire_times: 'start' must be a microsecond timestamp"@),
            },
            _ => Err("cron_fire_times: 'start' must be a microsecond timestamp"@),
        },
    }
}

/// The zone to fire in under a session setting; `None` is UTC.
pub open spec fn session_zone(setting: Option<String>) -> Option<Tz> {
    match setting {
        Some(name) => zone::zone_named(name@),
        None => None,
    }
}

/// The setting says UTC: it is absent, names no IANA zone, or names the one that is UTC.
pub open spec fn means_utc(setting: Option<String>) -> bool {
    session_zone(setting) is None || (setting matches Some(name) && name@ == "UTC"@)
}

/// `outcome` is the value that `meaning` gives, or an error with the message it gives.
pub open spec fn answers<T>(outcome: Result<T, ValueError>, meaning: Result<T, Seq<char>>) -> bool {
    match outcome {
        Ok(value) => meaning == Ok::<T, Seq<char>>(value),
        Err(error) => meaning == Err::<T, Seq<char>>(error.message@),
    }
}

/// The error with a given message.
pub fn err(message: &str) -> (r: ValueError)
    ensures
        r.message@ == message@,
{
    ValueError { message: message.to_owned() }
}

/// The error whose message ends in what was got in place of what was wanted.
fn err_got(wanted: &str, got: &String) -> (r: ValueError)
    ensures
        r.message@ == wanted@ + got@,
{
    ValueError { message: wanted.to_owned().concat(got.as_str()) }
}

/// The meaning of the optional end, by the type of the argument: an integer is a
/// count, a timestamp in microseconds an upper bound.
pub fn resolve_end(args: &Arguments) -> (r: Result<End, ValueError>)
    ensures
        answers(r, end_meaning(args.end)),
{
    let Some(arg) = &args.end else {
        return Ok(End::Unbounded);
    };
    match arg.arg_type {
        ArgType::Int8
        | ArgType::Int16
        | ArgType::Int32
        | ArgType::Int64
        | ArgType::UInt8
        | ArgType::UInt16
        | ArgType::UInt32
        | ArgType::UInt64 => {
            let Some(n) = arg.number else {
                return Err(err("cron_fire_times: 'end' count is not readable"));
            };
            if n < 0 {
                return Err(err("cron_fire_times: 'end' count must be non-negative"));
            }
            Ok(End::Count(n))
        },
        ArgType::Timestamp { unit: TimeUnit::Microsecond, .. } => {
            let Some(micros) = arg.micros else {
                return Err(err("cron_fire_times: could not read 'end' timestamp"));
            };
            Ok(End::Until(micros))
        },
        _ => Err(
            err_got(
                "cron_fire_times: 'end' must be an integer count or a microsecond timestamp, got ",
                &arg.type_text,
            ),
        ),
    }
}

/// The schedule of the cron expression.
pub fn read_cron(args: &Arguments) -> (r: Result<Cron, ValueError>)
    ensures
        answers(r, cron_meaning(args.cron)),
        forall|minute: nat, hour: nat|
            minute < 60 && hour < 24 && (args.cron matches Some(expr) && expr@
                == #[trigger] schedule::daily_text(minute, hour)) ==> r is Ok
                && schedule::fires_daily(r->Ok_0, minute, hour),
{
    let Some(expr) = &args.cron else {
        return Err(err("cron_fire_times: a cron expression is required"));
    };
    match schedule::parse_cron(expr.as_str()) {
        Ok(cron) => Ok(cron),
        Err(error) => {
            let reason = schedule::describe(&error);
            let message = "cron_fire_times: invalid cron expression '".to_owned().concat(
                expr.as_str(),
            ).concat("': ").concat(reason.as_str());
            Err(ValueError { message })
        },
    }
}

/// Whether the start is a `TIMESTAMPTZ`, which decides the type of the output column
/// and whether the schedule fires by a zone's wall clock.
pub fn start_has_tz(args: &Arguments) -> (r: Result<bool, ValueError>)
    ensures
        answers(r, start_zoned(args.start)),
{
    let Some(arg) = &args.start else {
        return Err(err("cron_fire_times: a start timestamp is required"));
    };
    match arg.arg_type {
        ArgType::Timestamp { zoned: true, .. } => Ok(true),
        ArgType::Timestamp { zoned: false, .. } => Ok(false),
        _ => Err(
            err_got(
                "cron_fire_times: 'start' must be a TIMESTAMP or TIMESTAMPTZ, got ",
                &arg.type_text,
            ),
        ),
    }
}

/// The start in microseconds since the epoch.
pub fn read_start_micros(args: &Arguments) -> (r: Result<i64, ValueError>)
    ensures
        answers(r, start_instant(args.start)),
{
    let Some(arg) = &args.start else {
        return Err(err("cron_fire_times: a start timestamp is required"));
    };
    match arg.arg_type {
        ArgType::Timestamp { unit: TimeUnit::Microsecond, .. } => match arg.micros {
            Some(micros) => Ok(micros),
            None => Err(err("cron_fire_times: 'start' must be a microsecond timestamp")),
        },
        _ => Err(err("cron_fire_times: 'start' must be a microsecond timestamp")),
    }
}

/// The IANA zone that the session's setting names. `None` is UTC: there is no setting,
/// or it names no IANA zone (a fixed offset, for one).
pub fn resolve_session_tz(setting: &Option<String>) -> (r: Option<Tz>)
    ensures
        r == session_zone(*setting),
        means_utc(*setting) ==> zone::always_ahead(r, 0),
        (setting matches Some(name) && name@ == "UTC"@) ==> r is Some,
{
    match setting {
        Some(name) => match zone::parse_zone(name.as_str()) {
            Ok(tz) => Some(tz),
            Err(_) => None,
        },
        None => None,
    }
}

} // verus!
