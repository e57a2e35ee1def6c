use arrow_schema::{DataType, Schema, TimeUnit as ArrowUnit};
use crontimes::arguments::{
    read_cron, read_start_micros, resolve_end, resolve_session_tz, start_has_tz, ArgType,
    Argument, Arguments, End, TimeUnit, SETTING_TIMEZONE,
};
use crontimes::table::{build_schema, TZ_UTC};
use crontimes::{CronFireTimes, Tz};

fn timestamp(unit: TimeUnit, zoned: bool, micros: Option<i64>) -> Argument {
    Argument {
        arg_type: ArgType::Timestamp { unit, zoned },
        type_text: "Timestamp".to_string(),
        number: None,
        micros,
    }
}

fn integer(arg_type: ArgType, number: Option<i64>) -> Argument {
    Argument { arg_type, type_text: "Int".to_string(), number, micros: None }
}

fn other(type_text: &str) -> Argument {
    Argument {
        arg_type: ArgType::Other,
        type_text: type_text.to_string(),
        number: None,
        micros: None,
    }
}

fn call(cron: &str, start: Option<Argument>, end: Option<Argument>) -> Arguments {
    Arguments { cron: Some(cron.to_string()), start, end }
}

fn daily(end: Option<Argument>) -> Arguments {
    call("0 9 * * *", Some(timestamp(TimeUnit::Microsecond, false, Some(0))), end)
}

fn end_error(end: Argument) -> String {
    resolve_end(&daily(Some(end))).unwrap_err().message
}

fn fire_type(schema: &Schema) -> DataType {
    assert_eq!(schema.fields().len(), 2);
    assert_eq!(schema.field(0).name(), "seq");
    assert_eq!(schema.field(0).data_type(), &DataType::Int64);
    assert!(!schema.field(0).is_nullable());
    assert_eq!(schema.field(1).name(), "fire_time");
    assert!(!schema.field(1).is_nullable());
    schema.field(1).data_type().clone()
}

#[test]
fn every_integer_type_is_a_count() {
    let types = [
        ArgType::Int8,
        ArgType::Int16,
        ArgType::Int32,
        ArgType::Int64,
        ArgType::UInt8,
        ArgType::UInt16,
        ArgType::UInt32,
        ArgType::UInt64,
    ];
    for arg_type in types {
        let end = resolve_end(&daily(Some(integer(arg_type, Some(5)))));
        assert!(matches!(end, Ok(End::Count(5))));
    }
    assert!(matches!(
        resolve_end(&daily(Some(integer(ArgType::Int64, Some(0))))),
        Ok(End::Count(0))
    ));
}

#[test]
fn a_timestamp_end_is_a_bound_and_none_is_unbounded() {
    for zoned in [false, true] {
        let end = timestamp(TimeUnit::Microsecond, zoned, Some(-7));
        assert!(matches!(resolve_end(&daily(Some(end))), Ok(End::Until(-7))));
    }
    assert!(matches!(resolve_end(&daily(None)), Ok(End::Unbounded)));
}

#[test]
fn bad_ends_are_refused() {
    assert_eq!(
        end_error(integer(ArgType::Int64, Some(-1))),
        "cron_fire_times: 'end' count must be non-negative"
    );
    assert_eq!(
        end_error(integer(ArgType::Int64, None)),
        "cron_fire_times: 'end' count is not readable"
    );
    assert_eq!(
        end_error(timestamp(TimeUnit::Microsecond, true, None)),
        "cron_fire_times: could not read 'end' timestamp"
    );
    assert_eq!(
        end_error(other("Utf8")),
        "cron_fire_times: 'end' must be an integer count or a microsecond timestamp, got Utf8"
    );
    assert_eq!(
        end_error(timestamp(TimeUnit::Nanosecond, false, None)),
        "cron_fire_times: 'end' must be an integer count or a microsecond timestamp, got Timestamp"
    );
}

#[test]
fn cron_expressions_are_read_or_refused() {
    assert!(read_cron(&daily(None)).is_ok());
    let missing = Arguments { cron: None, start: None, end: None };
    assert_eq!(
        read_cron(&missing).unwrap_err().message,
        "cron_fire_times: a cron expression is required"
    );
    assert_eq!(
        read_cron(&call("99 * * * *", None, None)).unwrap_err().message,
        "cron_fire_times: invalid cron expression '99 * * * *': Component error: Number out of bounds."
    );
    assert_eq!(
        read_cron(&call("", None, None)).unwrap_err().message,
        "cron_fire_times: invalid cron expression '': CronPattern cannot be an empty string."
    );
}

#[test]
fn the_type_of_the_start_tells_zoned_from_naive() {
    for unit in [
        TimeUnit::Second,
        TimeUnit::Millisecond,
        TimeUnit::Microsecond,
        TimeUnit::Nanosecond,
    ] {
        for zoned in [false, true] {
            let args = call("* * * * *", Some(timestamp(unit, zoned, None)), None);
            assert_eq!(start_has_tz(&args).unwrap(), zoned);
        }
    }
    assert_eq!(
        start_has_tz(&call("* * * * *", None, None)).unwrap_err().message,
        "cron_fire_times: a start timestamp is required"
    );
    assert_eq!(
        start_has_tz(&call("* * * * *", Some(other("Date32")), None)).unwrap_err().message,
        "cron_fire_times: 'start' must be a TIMESTAMP or TIMESTAMPTZ, got Date32"
    );
}

#[test]
fn the_start_is_read_in_microseconds() {
    let args = call("* * * * *", Some(timestamp(TimeUnit::Microsecond, true, Some(42))), None);
    assert_eq!(read_start_micros(&args).unwrap(), 42);
    assert_eq!(
        read_start_micros(&call("* * * * *", None, None)).unwrap_err().message,
        "cron_fire_times: a start timestamp is required"
    );
    let coarse = call("* * * * *", Some(timestamp(TimeUnit::Second, true, None)), None);
    assert_eq!(
        read_start_micros(&coarse).unwrap_err().message,
        "cron_fire_times: 'start' must be a microsecond timestamp"
    );
}

#[test]
fn a_start_is_read_by_its_type() {
    let message = "cron_fire_times: 'start' must be a microsecond timestamp";
    let mut typed = other("Utf8");
    typed.micros = Some(42);
    assert_eq!(
        read_start_micros(&call("* * * * *", Some(typed), None)).unwrap_err().message,
        message
    );
    let coarse = timestamp(TimeUnit::Nanosecond, true, Some(42));
    assert_eq!(
        read_start_micros(&call("* * * * *", Some(coarse), None)).unwrap_err().message,
        message
    );
}

#[test]
fn the_session_zone_falls_back_to_utc() {
    assert_eq!(SETTING_TIMEZONE, "TimeZone");
    assert_eq!(
        resolve_session_tz(&Some("America/New_York".to_string())),
        Some(Tz::America__New_York)
    );
    assert_eq!(resolve_session_tz(&Some("+05:00".to_string())), None);
    assert_eq!(resolve_session_tz(&Some("Mars/Olympus".to_string())), None);
    assert_eq!(resolve_session_tz(&None), None);
}

#[test]
fn the_schema_carries_utc_for_a_zoned_start_only() {
    assert_eq!(TZ_UTC, "UTC");
    assert_eq!(
        fire_type(&build_schema(true)),
        DataType::Timestamp(ArrowUnit::Microsecond, Some("UTC".into()))
    );
    assert_eq!(
        fire_type(&build_schema(false)),
        DataType::Timestamp(ArrowUnit::Microsecond, None)
    );
}

#[test]
fn the_function_describes_itself() {
    assert_eq!(CronFireTimes.name(), "cron_fire_times");
    let metadata = CronFireTimes.metadata();
    assert_eq!(
        metadata.description,
        "Project the timestamps at which a cron expression will fire, starting from a given timestamp"
    );
    assert_eq!(metadata.categories, vec!["generator"]);
    let specs = CronFireTimes.argument_specs();
    let shown: Vec<(&str, i32, &str)> =
        specs.iter().map(|spec| (spec.name, spec.position, spec.arrow_type)).collect();
    assert_eq!(shown, vec![("cron", 0, "varchar"), ("start", 1, "any"), ("end", -1, "any")]);
    assert_eq!(
        specs[1].doc,
        "Start timestamp (TIMESTAMP or TIMESTAMPTZ); lower bound, an exactly-matching start fires"
    );
}

#[test]
fn binding_checks_cron_then_end_then_start() {
    let bad_all = call("x", None, Some(other("Utf8")));
    let message = CronFireTimes.on_bind(&bad_all).err().unwrap().message;
    assert!(message.starts_with("cron_fire_times: invalid cron expression 'x': "));
    let bad_end = call("* * * * *", None, Some(integer(ArgType::Int8, Some(-3))));
    assert_eq!(
        CronFireTimes.on_bind(&bad_end).err().unwrap().message,
        "cron_fire_times: 'end' count must be non-negative"
    );
    let bad_start = call("* * * * *", None, None);
    assert_eq!(
        CronFireTimes.on_bind(&bad_start).err().unwrap().message,
        "cron_fire_times: a start timestamp is required"
    );
}

#[test]
fn binding_announces_the_schema() {
    for zoned in [false, true] {
        let start = timestamp(TimeUnit::Microsecond, zoned, Some(0));
        let bound = CronFireTimes.on_bind(&call("* * * * *", Some(start), None)).ok().unwrap();
        assert_eq!(bound.output_schema, build_schema(zoned));
        assert!(bound.opaque_data.is_empty());
    }
}

#[test]
fn only_a_count_has_a_cardinality() {
    let counted = CronFireTimes
        .cardinality(&daily(Some(integer(ArgType::Int32, Some(12)))))
        .unwrap();
    assert_eq!(counted.estimate, Some(12));
    assert_eq!(counted.max, Some(12));
    assert!(CronFireTimes.cardinality(&daily(None)).is_none());
    let bounded = daily(Some(timestamp(TimeUnit::Microsecond, false, Some(0))));
    assert!(CronFireTimes.cardinality(&bounded).is_none());
    assert!(CronFireTimes.cardinality(&daily(Some(other("Utf8")))).is_none());
}

#[test]
fn a_start_that_does_not_count_in_microseconds_is_refused_at_bind() {
    for unit in [TimeUnit::Second, TimeUnit::Millisecond, TimeUnit::Nanosecond] {
        for zoned in [false, true] {
            let coarse = call("0 9 * * *", Some(timestamp(unit, zoned, None)), None);
            let message = "cron_fire_times: 'start' must be a microsecond timestamp";
            assert_eq!(CronFireTimes.on_bind(&coarse).err().unwrap().message, message);
            assert_eq!(CronFireTimes.producer(&coarse, &None).err().unwrap().message, message);
        }
    }
}
