use arrow_array::cast::AsArray;
use arrow_array::types::{Int64Type, TimestampMicrosecondType};
use arrow_schema::{DataType, TimeUnit as ArrowUnit};
use chrono::{TimeZone, Utc};
use chrono_tz::America::New_York;
use crontimes::arguments::{ArgType, Argument, Arguments, TimeUnit};
use crontimes::producer::FireProducer;
use crontimes::scan::{MAX_BATCH, MIN_BATCH};
use crontimes::table::{build_schema, FireBatch};
use crontimes::{next_fire_in, parse_cron, CronFireTimes};

const SECOND_US: i64 = 1_000_000;
const HOUR_US: i64 = 3_600_000_000;
const DAY_US: i64 = 24 * HOUR_US;

fn micros(y: i32, mo: u32, d: u32, h: u32, mi: u32, s: u32) -> i64 {
    Utc.with_ymd_and_hms(y, mo, d, h, mi, s)
        .unwrap()
        .timestamp_micros()
}

fn instant(micros: i64, zoned: bool) -> Argument {
    Argument {
        arg_type: ArgType::Timestamp { unit: TimeUnit::Microsecond, zoned },
        type_text: "Timestamp".to_string(),
        number: None,
        micros: Some(micros),
    }
}

fn count(n: i64) -> Argument {
    Argument {
        arg_type: ArgType::Int64,
        type_text: "Int64".to_string(),
        number: Some(n),
        micros: None,
    }
}

fn producer(
    cron: &str,
    start: i64,
    zoned: bool,
    end: Option<Argument>,
    zone: Option<&str>,
) -> FireProducer {
    let args = Arguments {
        cron: Some(cron.to_string()),
        start: Some(instant(start, zoned)),
        end,
    };
    let zone = zone.map(|name| name.to_string());
    CronFireTimes.producer(&args, &zone).ok().unwrap()
}

fn rows_of(batch: &FireBatch) -> Vec<(i64, i64)> {
    let seqs = batch.record.column(0).as_primitive::<Int64Type>();
    let fires = batch.record.column(1).as_primitive::<TimestampMicrosecondType>();
    seqs.values().iter().copied().zip(fires.values().iter().copied()).collect()
}

fn next(producer: &mut FireProducer) -> Option<Vec<(i64, i64)>> {
    producer.next_batch().unwrap().map(|batch| rows_of(&batch))
}

fn all(mut producer: FireProducer) -> Vec<(i64, i64)> {
    let mut rows = Vec::new();
    while let Some(batch) = next(&mut producer) {
        rows.extend(batch);
    }
    rows
}

fn fires(producer: FireProducer) -> Vec<i64> {
    all(producer).into_iter().map(|(_, fire)| fire).collect()
}

#[test]
fn the_next_five_daily_fires() {
    let start = micros(2026, 6, 18, 0, 0, 0);
    let rows = all(producer("0 9 * * *", start, false, Some(count(5)), None));
    let first = micros(2026, 6, 18, 9, 0, 0);
    let expected: Vec<(i64, i64)> = (0..5).map(|i| (i, first + i * DAY_US)).collect();
    assert_eq!(rows, expected);
}

#[test]
fn a_zoned_start_fires_by_the_session_wall_clock() {
    // Daily noon in New York over the spring-forward of 2026-03-08.
    let start = New_York.with_ymd_and_hms(2026, 3, 6, 0, 0, 0).unwrap().timestamp_micros();
    let zone = Some("America/New_York");
    let rows = fires(producer("0 12 * * *", start, true, Some(count(4)), zone));
    assert_eq!(
        rows,
        vec![
            micros(2026, 3, 6, 17, 0, 0),
            micros(2026, 3, 7, 17, 0, 0),
            micros(2026, 3, 8, 16, 0, 0),
            micros(2026, 3, 9, 16, 0, 0),
        ]
    );
}

#[test]
fn a_naive_start_ignores_the_session_zone() {
    let start = micros(2026, 3, 6, 0, 0, 0);
    let zone = Some("America/New_York");
    let in_zone = fires(producer("0 12 * * *", start, false, Some(count(4)), zone));
    let without = fires(producer("0 12 * * *", start, false, Some(count(4)), None));
    assert_eq!(in_zone, without);
    assert_eq!(in_zone[0], micros(2026, 3, 6, 12, 0, 0));
}

#[test]
fn a_zoned_start_without_a_session_zone_fires_in_utc() {
    let start = micros(2026, 3, 6, 0, 0, 0);
    for zone in [None, Some("+05:00")] {
        let rows = fires(producer("0 12 * * *", start, true, Some(count(2)), zone));
        assert_eq!(rows, vec![micros(2026, 3, 6, 12, 0, 0), micros(2026, 3, 7, 12, 0, 0)]);
    }
}

#[test]
fn no_session_zone_is_the_zone_utc() {
    let start = micros(2026, 6, 18, 9, 0, 0) + 250_000;
    let utc = all(producer("*/15 * * * *", start, true, Some(count(50)), Some("UTC")));
    assert_eq!(utc.len(), 50);
    for zone in [None, Some("+05:00")] {
        assert_eq!(all(producer("*/15 * * * *", start, true, Some(count(50)), zone)), utc);
    }
}

#[test]
fn a_series_from_a_repeated_hour_starts_there() {
    // 06:30Z is the second 01:30 of 2026-11-01 in New York.
    let start = micros(2026, 11, 1, 6, 30, 0);
    let zone = Some("America/New_York");
    assert_eq!(
        fires(producer("*/30 * * * *", start, true, Some(count(3)), zone)),
        vec![start, start + HOUR_US / 2, start + HOUR_US]
    );
    assert_eq!(
        fires(producer("*/30 * * * *", start + SECOND_US, true, Some(count(2)), zone)),
        vec![start + HOUR_US / 2, start + HOUR_US]
    );
}

#[test]
fn rows_are_the_next_fires_one_after_the_other() {
    let cron = parse_cron("0 2 * * *").unwrap();
    let start = micros(2026, 3, 1, 0, 0, 0);
    let rows = fires(producer("0 2 * * *", start, true, Some(count(300)), Some("America/New_York")));
    let mut next = next_fire_in(&cron, start, true, New_York);
    for fire in rows {
        assert_eq!(Some(fire), next);
        next = next_fire_in(&cron, fire, false, New_York);
    }
}

#[test]
fn a_bound_is_exclusive() {
    // Weekday noons from Thursday 2026-06-18 up to Tuesday noon.
    let start = micros(2026, 6, 18, 0, 0, 0);
    let bound = micros(2026, 6, 23, 12, 0, 0);
    let rows = all(producer("0 12 * * 1-5", start, true, Some(instant(bound, true)), None));
    assert_eq!(
        rows,
        vec![
            (0, micros(2026, 6, 18, 12, 0, 0)),
            (1, micros(2026, 6, 19, 12, 0, 0)),
            (2, micros(2026, 6, 22, 12, 0, 0)),
        ]
    );
    let none = all(producer("0 12 * * 1-5", start, false, Some(instant(start, false)), None));
    assert!(none.is_empty());
}

#[test]
fn half_minutes_from_a_matching_start() {
    let start = micros(2026, 6, 18, 9, 0, 0);
    let rows = fires(producer("*/30 * * * * *", start, false, Some(count(4)), None));
    let expected: Vec<i64> = (0..4).map(|i| start + i * 30 * SECOND_US).collect();
    assert_eq!(rows, expected);
}

#[test]
fn a_count_of_zero_gives_no_rows() {
    let mut empty = producer("* * * * *", 0, false, Some(count(0)), None);
    assert!(next(&mut empty).is_none());
    assert!(next(&mut empty).is_none());
}

#[test]
fn batches_double_and_number_on() {
    let start = micros(2026, 6, 18, 0, 0, 0);
    let mut seconds = producer("* * * * * *", start, false, None, None);
    let mut size = MIN_BATCH;
    let mut expected: i64 = 0;
    for _ in 0..7 {
        let rows = next(&mut seconds).unwrap();
        assert_eq!(rows.len(), size);
        for (seq, fire) in rows {
            assert_eq!(seq, expected);
            assert_eq!(fire, start + expected * SECOND_US);
            expected += 1;
        }
        size = (size * 2).min(MAX_BATCH);
    }
    assert_eq!(size, 65536);
}

#[test]
fn a_count_that_fills_the_first_batch_ends_there() {
    let exact = MIN_BATCH as i64;
    let mut full = producer("* * * * * *", 0, false, Some(count(exact)), None);
    assert_eq!(next(&mut full).unwrap().len(), MIN_BATCH);
    assert!(next(&mut full).is_none());
    let mut longer = producer("* * * * * *", 0, false, Some(count(exact + 3)), None);
    assert_eq!(next(&mut longer).unwrap().len(), MIN_BATCH);
    let rest = next(&mut longer).unwrap();
    assert_eq!(
        rest,
        vec![
            (exact, exact * SECOND_US),
            (exact + 1, (exact + 1) * SECOND_US),
            (exact + 2, (exact + 2) * SECOND_US),
        ]
    );
    assert!(next(&mut longer).is_none());
    assert!(next(&mut longer).is_none());
}

#[test]
fn an_unbounded_series_ends_at_the_cap() {
    let start = micros(4095, 12, 29, 6, 0, 0);
    let rows = all(producer("0 0 * * *", start, false, None, None));
    assert_eq!(
        rows,
        vec![(0, micros(4095, 12, 30, 0, 0, 0)), (1, micros(4095, 12, 31, 0, 0, 0))]
    );
}

#[test]
fn nothing_is_missed_and_nothing_comes_twice() {
    let start = micros(2026, 6, 18, 0, 0, 0);
    let rows = fires(producer("*/15 * * * *", start, false, Some(count(10)), None));
    let expected: Vec<i64> = (0..10).map(|i| start + i * 15 * 60 * SECOND_US).collect();
    assert_eq!(rows, expected);
    // The repeated hour of 2026-11-01 in New York.
    let start = New_York.with_ymd_and_hms(2026, 11, 1, 0, 30, 0).unwrap().timestamp_micros();
    let zone = Some("America/New_York");
    let rows = fires(producer("*/30 * * * *", start, true, Some(count(6)), zone));
    for pair in rows.windows(2) {
        assert!(pair[0] < pair[1]);
    }
}

#[test]
fn batches_carry_the_announced_schema() {
    for zoned in [false, true] {
        let mut rows = producer("* * * * *", 0, zoned, Some(count(3)), None);
        let batch = rows.next_batch().unwrap().unwrap();
        assert_eq!(batch.record.schema(), build_schema(zoned));
        assert_eq!(batch.record.num_rows(), 3);
        let zone = if zoned { Some("UTC".into()) } else { None };
        assert_eq!(
            batch.record.column(1).data_type(),
            &DataType::Timestamp(ArrowUnit::Microsecond, zone)
        );
    }
}

#[test]
fn a_start_without_a_wall_clock_is_reported() {
    let earliest = chrono::DateTime::<Utc>::MIN_UTC.timestamp_micros();
    let zone = Some("America/New_York");
    let mut missing = producer("0 0 * * *", earliest, true, Some(count(1)), zone);
    assert!(missing.checked_next_batch().is_none());
    assert!(missing.checked_next_batch().is_none());
    let mut utc = producer("0 0 * * *", earliest, true, Some(count(1)), None);
    let batch = utc.checked_next_batch().unwrap().unwrap().unwrap();
    assert_eq!(rows_of(&batch), vec![(0, micros(1, 1, 1, 0, 0, 0))]);
    assert!(utc.checked_next_batch().unwrap().unwrap().is_none());
}

#[test]
fn a_start_out_of_range_gives_no_rows() {
    let zone = Some("America/New_York");
    let mut late = producer("* * * * *", i64::MAX, true, None, zone);
    assert!(late.checked_next_batch().unwrap().unwrap().is_none());
}
