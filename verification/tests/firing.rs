use chrono::{TimeZone, Utc};
use chrono_tz::America::{New_York, Sao_Paulo};
use chrono_tz::Asia::Tokyo;
use chrono_tz::Etc::GMTPlus5;
use chrono_tz::Pacific::Apia;
use chrono_tz::UTC;
use crontimes::schedule::next_in_zone;
use crontimes::zone::wall_clock_exists;
use crontimes::{checked_next_fire_in, next_fire, next_fire_in, parse_cron, CronError, YEAR_CAP};

const SECOND_US: i64 = 1_000_000;
const HOUR_US: i64 = 3_600_000_000;
const DAY_US: i64 = 24 * HOUR_US;

fn micros(y: i32, mo: u32, d: u32, h: u32, mi: u32, s: u32) -> i64 {
    Utc.with_ymd_and_hms(y, mo, d, h, mi, s)
        .unwrap()
        .timestamp_micros()
}

fn new_york(y: i32, mo: u32, d: u32, h: u32, mi: u32, s: u32) -> i64 {
    New_York
        .with_ymd_and_hms(y, mo, d, h, mi, s)
        .unwrap()
        .timestamp_micros()
}

/// The last microsecond that a `chrono` date can hold.
fn latest() -> i64 {
    chrono::DateTime::<Utc>::MAX_UTC.timestamp_micros()
}

/// The first microsecond that a `chrono` date can hold.
fn earliest() -> i64 {
    chrono::DateTime::<Utc>::MIN_UTC.timestamp_micros()
}

#[test]
fn daily_schedule_is_inclusive_of_a_matching_start() {
    let cron = parse_cron("0 9 * * *").unwrap();
    let start = micros(2026, 6, 18, 9, 0, 0); // exactly 09:00 — a match

    // inclusive => start itself fires.
    let first = next_fire(&cron, start, true).unwrap();
    assert_eq!(first, start);

    // exclusive stepping yields the following days at 09:00.
    let second = next_fire(&cron, first, false).unwrap();
    assert_eq!(second, micros(2026, 6, 19, 9, 0, 0));
    let third = next_fire(&cron, second, false).unwrap();
    assert_eq!(third, micros(2026, 6, 20, 9, 0, 0));
}

#[test]
fn start_between_fires_advances_to_next() {
    let cron = parse_cron("0 9 * * *").unwrap();
    let start = micros(2026, 6, 18, 12, 0, 0); // past 09:00 today

    // Even inclusive, the next match is tomorrow 09:00.
    let next = next_fire(&cron, start, true).unwrap();
    assert_eq!(next, micros(2026, 6, 19, 9, 0, 0));
}

#[test]
fn six_field_seconds_expression_steps_by_thirty_seconds() {
    let cron = parse_cron("*/30 * * * * *").unwrap();
    let start = micros(2026, 6, 18, 9, 0, 0);
    let a = next_fire(&cron, start, true).unwrap();
    assert_eq!(a, start);
    let b = next_fire(&cron, a, false).unwrap();
    assert_eq!(b, micros(2026, 6, 18, 9, 0, 30));
    let c = next_fire(&cron, b, false).unwrap();
    assert_eq!(c, micros(2026, 6, 18, 9, 1, 0));
}

#[test]
fn weekday_only_skips_weekend() {
    // Noon on weekdays (Mon-Fri). 2026-06-19 is a Friday; next is Mon 2026-06-22.
    let cron = parse_cron("0 12 * * 1-5").unwrap();
    let friday_noon = micros(2026, 6, 19, 12, 0, 0);
    let next = next_fire(&cron, friday_noon, false).unwrap();
    assert_eq!(next, micros(2026, 6, 22, 12, 0, 0));
}

#[test]
fn year_cap_terminates_the_series() {
    // Yearly on Jan 1. Stepping from mid-4095 would land on 4096-01-01, which
    // is at/after YEAR_CAP, so the series ends.
    let cron = parse_cron("0 0 1 1 *").unwrap();
    let start = micros(4095, 6, 1, 0, 0, 0);
    assert!(next_fire(&cron, start, false).is_none());
}

#[test]
fn invalid_expression_is_an_error() {
    assert!(parse_cron("not a cron expression").is_err());
    assert!(parse_cron("99 * * * *").is_err());
}

#[test]
fn utc_firing_has_no_dst_shift() {
    // Across the US spring-forward weekend, UTC noons stay exactly 24h apart.
    let cron = parse_cron("0 12 * * *").unwrap();
    let f1 = next_fire(&cron, micros(2026, 3, 7, 0, 0, 0), true).unwrap();
    let f2 = next_fire(&cron, f1, false).unwrap();
    assert_eq!(f2 - f1, 24 * HOUR_US);
}

#[test]
fn dst_aware_firing_tracks_local_wall_clock() {
    // Daily noon in America/New_York. DST begins Sun 2026-03-08, so "noon
    // local" jumps from 17:00Z (EST, UTC-5) to 16:00Z (EDT, UTC-4).
    let cron = parse_cron("0 12 * * *").unwrap();
    let start = New_York
        .with_ymd_and_hms(2026, 3, 7, 0, 0, 0)
        .unwrap()
        .timestamp_micros();

    let f1 = next_fire_in(&cron, start, true, New_York).unwrap();
    assert_eq!(
        f1,
        New_York
            .with_ymd_and_hms(2026, 3, 7, 12, 0, 0)
            .unwrap()
            .timestamp_micros()
    );

    let f2 = next_fire_in(&cron, f1, false, New_York).unwrap();
    assert_eq!(
        f2,
        New_York
            .with_ymd_and_hms(2026, 3, 8, 12, 0, 0)
            .unwrap()
            .timestamp_micros()
    );

    // Consecutive local noons are 23h apart, not 24h, because 2026-03-08 lost an
    // hour to spring-forward.
    assert_eq!(f2 - f1, 23 * HOUR_US);
}

#[test]
fn dst_fall_back_lengthens_the_day() {
    // Fall-back is Sun 2026-11-01: the local day gains an hour, so noon→noon
    // spans 25h.
    let cron = parse_cron("0 12 * * *").unwrap();
    let start = New_York
        .with_ymd_and_hms(2026, 10, 31, 0, 0, 0)
        .unwrap()
        .timestamp_micros();
    let f1 = next_fire_in(&cron, start, true, New_York).unwrap();
    let f2 = next_fire_in(&cron, f1, false, New_York).unwrap();
    assert_eq!(f2 - f1, 25 * HOUR_US);
}

#[test]
fn all_three_field_counts_parse() {
    assert!(parse_cron("30 9 * * *").is_ok());
    assert!(parse_cron("15 30 9 * * *").is_ok());
    assert!(parse_cron("15 30 9 * * * 2027").is_ok());
    assert!(parse_cron("9 * * *").is_err());
    assert!(parse_cron("15 30 9 * * * 2027 1").is_err());
    assert!(matches!(parse_cron("  "), Err(CronError::EmptyPattern)));
}

#[test]
fn leading_seconds_and_trailing_year_are_read() {
    let cron = parse_cron("15 30 9 * * * 2027").unwrap();
    let first = next_fire(&cron, micros(2026, 6, 18, 0, 0, 0), true).unwrap();
    assert_eq!(first, micros(2027, 1, 1, 9, 30, 15));
    let last = micros(2027, 12, 31, 9, 30, 15);
    assert_eq!(next_fire(&cron, last, true), Some(last));
    assert_eq!(next_fire(&cron, last, false), None);
}

#[test]
fn an_impossible_date_never_fires() {
    let cron = parse_cron("0 0 30 2 *").unwrap();
    assert_eq!(next_fire(&cron, micros(2026, 1, 1, 0, 0, 0), true), None);
}

#[test]
fn the_last_fire_before_the_cap_is_kept() {
    let cron = parse_cron("0 0 * * *").unwrap();
    let last = micros(4095, 12, 31, 0, 0, 0);
    assert_eq!(next_fire(&cron, last - DAY_US, false), Some(last));
    assert_eq!(next_fire(&cron, last, false), None);
    assert_eq!(next_fire(&cron, micros(4096, 1, 1, 0, 0, 0), true), None);
}

#[test]
fn the_cap_goes_by_the_wall_clock() {
    // 4096 begins in Tokyo nine hours before it does in UTC, and five hours after
    // in New York.
    let cron = parse_cron("0 0 * * *").unwrap();
    let eve = micros(4095, 12, 31, 12, 0, 0);
    assert_eq!(next_fire_in(&cron, eve, true, Tokyo), None);
    let hourly = parse_cron("0 * * * *").unwrap();
    let after = micros(4096, 1, 1, 1, 0, 0);
    assert_eq!(next_fire_in(&hourly, after, true, New_York), Some(after));
    assert_eq!(next_fire(&hourly, after, true), None);
}

#[test]
fn a_capped_outcome_is_dropped() {
    assert_eq!(next_in_zone(Ok((YEAR_CAP - 1, 7))), Some(7));
    assert_eq!(next_in_zone(Ok((YEAR_CAP, 7))), None);
    assert_eq!(next_in_zone(Ok((-5, -7))), Some(-7));
    assert_eq!(next_in_zone(Err(CronError::InvalidTime)), None);
}

#[test]
fn an_exclusive_lookup_moves_on_by_a_second_or_more() {
    let cron = parse_cron("* * * * * *").unwrap();
    let from = micros(2026, 6, 18, 9, 0, 0) + 250_000;
    assert_eq!(next_fire(&cron, from, true), Some(from));
    assert_eq!(next_fire(&cron, from, false), Some(from + SECOND_US));
}

#[test]
fn a_start_before_the_common_era_fires_in_year_one() {
    let cron = parse_cron("0 0 * * *").unwrap();
    let first = micros(1, 1, 1, 0, 0, 0);
    assert_eq!(next_fire(&cron, earliest(), true), Some(first));
    assert_eq!(next_fire(&cron, first - DAY_US, true), Some(first));
}

#[test]
fn an_instant_out_of_range_has_no_next_fire() {
    let cron = parse_cron("* * * * *").unwrap();
    assert_eq!(next_fire(&cron, i64::MAX, true), None);
    assert_eq!(next_fire(&cron, i64::MIN, true), None);
    assert_eq!(next_fire(&cron, latest(), true), None);
    assert_eq!(next_fire_in(&cron, i64::MAX, true, New_York), None);
    assert_eq!(checked_next_fire_in(&cron, i64::MIN, true, New_York), Some(None));
}

#[test]
fn a_wall_clock_can_be_missing_at_the_ends_of_the_calendar() {
    let cron = parse_cron("0 0 * * *").unwrap();
    // New York is behind UTC, Tokyo ahead of it.
    assert!(!wall_clock_exists(earliest(), New_York));
    assert!(wall_clock_exists(earliest(), Tokyo));
    assert!(wall_clock_exists(latest(), New_York));
    assert!(!wall_clock_exists(latest(), Tokyo));
    assert!(wall_clock_exists(0, Tokyo));
    assert!(wall_clock_exists(i64::MAX, Tokyo));
    assert_eq!(checked_next_fire_in(&cron, earliest(), true, New_York), None);
    let start = micros(2026, 6, 18, 0, 0, 0);
    assert_eq!(
        checked_next_fire_in(&cron, start, true, Tokyo),
        Some(next_fire_in(&cron, start, true, Tokyo))
    );
}

#[test]
fn a_fixed_time_in_a_gap_fires_right_behind_it() {
    // 02:30 does not exist in New York on 2026-03-08; 03:00 EDT is the first wall
    // clock behind the gap.
    let cron = parse_cron("30 2 * * *").unwrap();
    let first = next_fire_in(&cron, new_york(2026, 3, 8, 0, 0, 0), true, New_York).unwrap();
    assert_eq!(first, new_york(2026, 3, 8, 3, 0, 0));
    let second = next_fire_in(&cron, first, false, New_York).unwrap();
    assert_eq!(second, new_york(2026, 3, 9, 2, 30, 0));
}

#[test]
fn an_interval_passes_over_a_gap() {
    let cron = parse_cron("*/30 * * * *").unwrap();
    let last = new_york(2026, 3, 8, 1, 30, 0);
    assert_eq!(
        next_fire_in(&cron, last, false, New_York),
        Some(new_york(2026, 3, 8, 3, 0, 0))
    );
}

#[test]
fn a_start_in_the_second_pass_of_an_hour_is_a_lower_bound() {
    // 01:30 comes twice in New York on 2026-11-01, at 05:30Z and at 06:30Z.
    let cron = parse_cron("30 1 * * *").unwrap();
    let first_pass = micros(2026, 11, 1, 5, 30, 0);
    let second_pass = micros(2026, 11, 1, 6, 30, 0);
    let next_day = new_york(2026, 11, 2, 1, 30, 0);
    // A start that matches fires, in either pass; a series from before fires once.
    assert_eq!(next_fire_in(&cron, first_pass, true, New_York), Some(first_pass));
    assert_eq!(next_fire_in(&cron, second_pass, true, New_York), Some(second_pass));
    assert_eq!(next_fire_in(&cron, first_pass, false, New_York), Some(next_day));
    assert_eq!(next_fire_in(&cron, second_pass, false, New_York), Some(next_day));
    // Another start in the second pass does not reach back into the first.
    assert_eq!(
        next_fire_in(&cron, second_pass - 20 * 60 * SECOND_US, true, New_York),
        Some(next_day)
    );
    let quarters = parse_cron("*/15 * * * *").unwrap();
    let start = second_pass - 20 * 60 * SECOND_US;
    assert_eq!(
        next_fire_in(&quarters, start, true, New_York),
        Some(new_york(2026, 11, 1, 2, 0, 0))
    );
    let seconds = parse_cron("* * * * * *").unwrap();
    assert_eq!(
        next_fire_in(&seconds, start, false, New_York),
        Some(new_york(2026, 11, 1, 2, 0, 0))
    );
}

#[test]
fn a_fixed_time_fires_at_no_gap_that_does_not_hide_it() {
    // Clocks in Sao Paulo go from midnight to 01:00 on 2018-11-04.
    let daily = parse_cron("0 9 * * *").unwrap();
    let before = Sao_Paulo.with_ymd_and_hms(2018, 11, 3, 9, 0, 0).unwrap().timestamp_micros();
    let after = Sao_Paulo.with_ymd_and_hms(2018, 11, 4, 9, 0, 0).unwrap().timestamp_micros();
    assert_eq!(next_fire_in(&daily, before, false, Sao_Paulo), Some(after));
    assert_eq!(after - before, 23 * HOUR_US);
    // Midnight itself is hidden, and made up for.
    let midnight = parse_cron("0 0 * * *").unwrap();
    let one = Sao_Paulo.with_ymd_and_hms(2018, 11, 4, 1, 0, 0).unwrap().timestamp_micros();
    assert_eq!(next_fire_in(&midnight, before, false, Sao_Paulo), Some(one));
    // In New York 01:30 stands before the gap of 2026-03-08, and fires once that day.
    let early = parse_cron("30 1 * * *").unwrap();
    assert_eq!(
        next_fire_in(&early, new_york(2026, 3, 8, 1, 30, 0), false, New_York),
        Some(new_york(2026, 3, 9, 1, 30, 0))
    );
}

#[test]
fn a_long_gap_ends_a_fixed_time() {
    // Apia had no 2011-12-30.
    let daily = parse_cron("0 9 * * *").unwrap();
    let before = Apia.with_ymd_and_hms(2011, 12, 29, 9, 0, 0).unwrap().timestamp_micros();
    assert_eq!(next_fire_in(&daily, before, false, Apia), None);
    let hourly = parse_cron("0 * * * *").unwrap();
    let late = Apia.with_ymd_and_hms(2011, 12, 29, 23, 0, 0).unwrap().timestamp_micros();
    assert_eq!(next_fire_in(&hourly, late, false, Apia), Some(late + HOUR_US));
}

#[test]
fn a_constant_offset_shifts() {
    // Five hours behind UTC, always.
    for expr in ["0 9 * * *", "*/7 * * * *", "0 0 30 2 *", "59 59 23 31 12 * 4095"] {
        let cron = parse_cron(expr).unwrap();
        for start in [DAY_US, micros(2026, 6, 18, 9, 0, 0) + 250_000, micros(4095, 12, 31, 20, 0, 0)] {
            for inclusive in [false, true] {
                assert_eq!(
                    next_fire_in(&cron, start, inclusive, GMTPlus5),
                    next_fire(&cron, start - 5 * HOUR_US, inclusive).map(|fire| fire + 5 * HOUR_US)
                );
                assert_eq!(
                    next_fire_in(&cron, start, inclusive, UTC),
                    next_fire(&cron, start, inclusive)
                );
            }
        }
    }
}

#[test]
fn lookups_from_whole_seconds_agree() {
    let cron = parse_cron("*/20 */7 3-9 * * *").unwrap();
    let start = micros(2026, 6, 18, 2, 59, 30);
    let mut last = None;
    for i in 0..200 {
        let from = start + i * SECOND_US;
        let staying = next_fire(&cron, from, true).unwrap();
        let moving = next_fire(&cron, from, false);
        assert_eq!(moving, next_fire(&cron, from + SECOND_US, true));
        assert!(staying == from || Some(staying) == moving);
        assert_eq!(staying % SECOND_US, 0);
        assert!(last.map_or(true, |before| before <= staying));
        last = Some(staying);
    }
    // A fraction of a second is kept, or dropped with the month.
    let from = micros(2026, 6, 18, 9, 59, 0) + 250_000;
    assert_eq!(next_fire(&cron, from, true), Some(micros(2026, 6, 19, 3, 0, 0) + 250_000));
    let yearly = parse_cron("0 0 1 1 *").unwrap();
    assert_eq!(next_fire(&yearly, from, true), Some(micros(2027, 1, 1, 0, 0, 0)));
}

#[test]
fn a_time_of_every_day_is_read_from_its_numbers() {
    let midnight = micros(2026, 6, 18, 0, 0, 0);
    for hour in 0..24 {
        for minute in 0..60 {
            let cron = parse_cron(&format!("{minute} {hour} * * *")).unwrap();
            let fire = midnight + hour * HOUR_US + minute * 60 * SECOND_US;
            assert_eq!(next_fire(&cron, midnight, true), Some(fire));
            assert_eq!(next_fire(&cron, fire, false), Some(fire + DAY_US));
        }
    }
}

#[test]
fn only_a_long_gap_that_is_reached_ends_a_fixed_time() {
    // The day that Apia skipped, 2011-12-30, is years ahead of the first of these starts.
    let daily = parse_cron("0 9 * * *").unwrap();
    let early = Apia.with_ymd_and_hms(2009, 6, 1, 9, 0, 0).unwrap().timestamp_micros();
    assert_eq!(next_fire_in(&daily, early, false, Apia), Some(early + DAY_US));
    let yearly = parse_cron("0 9 1 6 *").unwrap();
    let next = Apia.with_ymd_and_hms(2012, 6, 1, 9, 0, 0).unwrap().timestamp_micros();
    let before = Apia.with_ymd_and_hms(2011, 6, 1, 9, 0, 0).unwrap().timestamp_micros();
    assert_eq!(next_fire_in(&yearly, before, false, Apia), Some(next));
}
