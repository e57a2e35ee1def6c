//! The table function `cron_fire_times(cron, start[, end := …])`.
//!
//! Its rows are `seq BIGINT, fire_time TIMESTAMP|TIMESTAMPTZ`. A `TIMESTAMP` start fires
//! in plain wall-clock time and gives a naive `fire_time`; a `TIMESTAMPTZ` start fires in
//! the session's zone and gives a `TIMESTAMPTZ`. The optional `end` is a count, an upper
//! bound, or left out.

use std::sync::Arc;

use arrow_schema::Schema;
use vstd::prelude::*;

use crate::arguments::{self, Arguments, End, ValueError};
use crate::producer::FireProducer;
use crate::scan::{Scan, MIN_BATCH};
use crate::schedule;
use crate::table;
use crate::zone;

verus! {

/// The position of a parameter that is passed by name.
pub const BY_NAME: i32 = -1;

/// The table function.
pub struct CronFireTimes;

/// What a catalog shows of a function.
pub struct FunctionMetadata {
    /// What the function does.
    pub description: &'static str,
    /// The categories that it is filed under.
    pub categories: Vec<&'static str>,
}

/// A constant parameter of a function.
pub struct ArgSpec {
    /// Its name.
    pub name: &'static str,
    /// Its position, or [`BY_NAME`].
    pub position: i32,
    /// The type that it is declared with.
    pub arrow_type: &'static str,
    /// What it is for.
    pub doc: &'static str,
}

/// How many rows a call gives, as far as it is known in advance.
#[derive(Clone, Copy, Debug)]
pub struct TableCardinality {
    /// The number expected.
    pub estimate: Option<i64>,
    /// The number never exceeded.
    pub max: Option<i64>,
}

/// What a call is bound to.
pub struct BindResponse {
    /// The schema of the rows.
    pub output_schema: Arc<Schema>,
    /// Data to carry over to the scan; there is none.
    pub opaque_data: Vec<u8>,
}

/// Whether the rows of a call carry a zone, or the first thing wrong with the call.
pub open spec fn bind_meaning(args: Arguments) -> Result<bool, Seq<char>> {
    match arguments::cron_meaning(args.cron) {
        Err(message) => Err(message),
        Ok(_) => match arguments::end_meaning(args.end) {
            Err(message) => Err(message),
            Ok(_) => match arguments::start_zoned(args.start) {
                Err(message) => Err(message),
                Ok(with_tz) => match arguments::start_instant(args.start) {
                    Err(message) => Err(message),
                    Ok(_) => Ok(with_tz),
                },
            },
        },
    }
}

/// The scan that a call starts, or the first thing wrong with the call.
pub open spec fn scan_meaning(args: Arguments, time_zone: Option<String>) -> Result<
    Scan,
    Seq<char>,
> {
    match arguments::cron_meaning(args.cron) {
        Err(message) => Err(message),
        Ok(cron) => match arguments::start_instant(args.start) {
            Err(message) => Err(message),
            Ok(start) => match arguments::start_zoned(args.start) {
                Err(message) => Err(message),
                Ok(with_tz) => match arguments::end_meaning(args.end) {
                    Err(message) => Err(message),
                    Ok(end) => Ok(
                        Scan {
                            cron,
                            cursor: start as int,
                            inclusive: true,
                            seq: 0,
                            remaining: match end {
                                End::Count(n) => Some(n as int),
                                _ => None,
                            },
                            until: match end {
                                End::Until(bound) => Some(bound as int),
                                _ => None,
                            },
                            zone: if with_tz {
                                arguments::session_zone(time_zone)
                            } else {
                                None
                            },
                            batch_size: MIN_BATCH as nat,
                            with_tz,
                            done: false,
                        },
                    ),
                },
            },
        },
    }
}

/// The number of rows that a call announces: known where the end is a count.
pub open spec fn cardinality_meaning(args: Arguments) -> Option<TableCardinality> {
    match arguments::end_meaning(args.end) {
        Ok(End::Count(n)) => Some(TableCardinality { estimate: Some(n), max: Some(n) }),
        _ => None,
    }
}

impl CronFireTimes {
    /// The function's name in SQL.
    pub fn name(&self) -> (r: &'static str)
        ensures
            r == "cron_fire_times",
    {
        "cron_fire_times"
    }

    /// What a catalog shows of the function.
    pub fn metadata(&self) -> (r: FunctionMetadata)
        ensures
            r.description
                == "Project the timestamps at which a cron expression will fire, starting from a given timestamp",
            r.categories@ == seq!["generator"],
    {
        FunctionMetadata {
            description:
                "Project the timestamps at which a cron expression will fire, starting from a given timestamp",
            categories: vec!["generator"],
        }
    }

    /// The function's parameters. `start` and `end` are declared `any`: their types are
    /// looked at when a call is bound.
    pub fn argument_specs(&self) -> (r: Vec<ArgSpec>)
        ensures
            r@ == seq![
                ArgSpec {
                    name: "cron",
                    position: 0,
                    arrow_type: "varchar",
                    doc: "Cron expression: 5-field, or 6/7-field with leading seconds / trailing year",
                },
                ArgSpec {
                    name: "start",
                    position: 1,
                    arrow_type: "any",
                    doc: "Start timestamp (TIMESTAMP or TIMESTAMPTZ); lower bound, an exactly-matching start fires",
                },
                ArgSpec {
                    name: "end",
                    position: BY_NAME,
                    arrow_type: "any",
                    doc: "Optional bound: an integer occurrence count, or a timestamp upper bound. Omitted streams until year 4096.",
                },
            ],
    {
        vec![
            ArgSpec {
                name: "cron",
                position: 0,
                arrow_type: "varchar",
                doc: "Cron expression: 5-field, or 6/7-field with leading seconds / trailing year",
            },
            ArgSpec {
                name: "start",
                position: 1,
                arrow_type: "any",
                doc: "Start timestamp (TIMESTAMP or TIMESTAMPTZ); lower bound, an exactly-matching start fires",
            },
            ArgSpec {
                name: "end",
                position: BY_NAME,
                arrow_type: "any",
                doc: "Optional bound: an integer occurrence count, or a timestamp upper bound. Omitted streams until year 4096.",
            },
        ]
    }

    /// Bind a call: everything is looked at here, so that bad input surfaces before the
    /// scan.
    pub fn on_bind(&self, args: &Arguments) -> (r: Result<BindResponse, ValueError>)
        ensures
            match r {
                Ok(bound) => {
                    &&& bind_meaning(*args) is Ok
                    &&& table::schema_columns(*bound.output_schema) == table::output_columns(
                        bind_meaning(*args)->Ok_0,
                    )
                    &&& bound.opaque_data@ == Seq::<u8>::empty()
                },
                Err(error) => bind_meaning(*args) == Err::<bool, Seq<char>>(error.message@),
            },
    {
        match arguments::read_cron(args) {
            Ok(_) => {},
            Err(error) => return Err(error),
        }
        match arguments::resolve_end(args) {
            Ok(_) => {},
            Err(error) => return Err(error),
        }
        let with_tz = match arguments::start_has_tz(args) {
            Ok(with_tz) => with_tz,
            Err(error) => return Err(error),
        };
        match arguments::read_start_micros(args) {
            Ok(_) => {},
            Err(error) => return Err(error),
        }
        Ok(BindResponse { output_schema: table::build_schema(with_tz), opaque_data: Vec::new() })
    }

    /// The number of rows of a call: known where the end is a count.
    pub fn cardinality(&self, args: &Arguments) -> (r: Option<TableCardinality>)
        ensures
            r == cardinality_meaning(*args),
    {
        match arguments::resolve_end(args) {
            Ok(End::Count(n)) => Some(TableCardinality { estimate: Some(n), max: Some(n) }),
            _ => None,
        }
    }

    /// The producer of a call's rows, under the session's time zone. Only a `TIMESTAMPTZ`
    /// start goes by that zone; a naive one has none.
    pub fn producer(&self, args: &Arguments, time_zone: &Option<String>) -> (r: Result<
        FireProducer,
        ValueError,
    >)
        ensures
            match r {
                Ok(producer) => {
                    &&& producer.wf()
                    &&& scan_meaning(*args, *time_zone) == Ok::<Scan, Seq<char>>(producer@)
                    &&& forall|minute: nat, hour: nat|
                        minute < 60 && hour < 24 && (args.cron matches Some(expr) && expr@
                            == #[trigger] schedule::daily_text(minute, hour))
                            ==> schedule::fires_daily(producer@.cron, minute, hour)
                    &&& arguments::means_utc(*time_zone) ==> zone::always_ahead(producer@.zone, 0)
                },
                Err(error) => scan_meaning(*args, *time_zone) == Err::<Scan, Seq<char>>(
                    error.message@,
                ),
            },
    {
        let cron = match arguments::read_cron(args) {
            Ok(cron) => cron,
            Err(error) => return Err(error),
        };
        let start: i64 = match arguments::read_start_micros(args) {
            Ok(start) => start,
            Err(error) => return Err(error),
        };
        let with_tz = match arguments::start_has_tz(args) {
            Ok(with_tz) => with_tz,
            Err(error) => return Err(error),
        };
        let (remaining, until): (Option<i64>, Option<i64>) = match arguments::resolve_end(args) {
            Ok(End::Count(n)) => (Some(n), None),
            Ok(End::Until(bound)) => (None, Some(bound)),
            Ok(End::Unbounded) => (None, None),
            Err(error) => return Err(error),
        };
        let tz = if with_tz {
            arguments::resolve_session_tz(time_zone)
        } else {
            None
        };
        Ok(FireProducer::new(cron, start, remaining, until, tz, with_tz))
    }
}

} // verus!
