//! What a call promises, in terms of its own arguments: which calls are accepted, what each
//! argument does to the rows, and what each batch holds.

use vstd::prelude::*;

use crate::arguments::{self, ArgType, Argument, Arguments};
use crate::calendar;
use crate::function;
use crate::laws;
use crate::producer;
use crate::scan::{Row, Scan};
use crate::schedule;
use crate::table::{self, FireBatch};
use crate::zone;

verus! {

/// The argument is of one of the integer types.
pub open spec fn is_integer(arg: Argument) -> bool {
    ||| arg.arg_type is Int8
    ||| arg.arg_type is Int16
    ||| arg.arg_type is Int32
    ||| arg.arg_type is Int64
    ||| arg.arg_type is UInt8
    ||| arg.arg_type is UInt16
    ||| arg.arg_type is UInt32
    ||| arg.arg_type is UInt64
}

/// The argument is a timestamp that counts in microseconds.
pub open spec fn in_micros(arg: Argument) -> bool {
    arg.arg_type matches ArgType::Timestamp { unit, .. } && unit is Microsecond
}

/// The argument is a timestamp with a zone.
pub open spec fn is_zoned(arg: Argument) -> bool {
    arg.arg_type matches ArgType::Timestamp { zoned, .. } && zoned
}

/// The end is the number `n`, given as an integer.
pub open spec fn ends_after(args: Arguments, n: int) -> bool {
    args.end matches Some(arg) && is_integer(arg) && arg.number is Some && arg.number->Some_0 == n
}

/// The end is the instant `micros`, given as a timestamp.
pub open spec fn ends_before(args: Arguments, micros: int) -> bool {
    args.end matches Some(arg) && in_micros(arg) && arg.micros is Some && arg.micros->Some_0
        == micros
}

/// The start is the instant `micros`, given as a timestamp.
pub open spec fn starts_at(args: Arguments, micros: int) -> bool {
    args.start matches Some(arg) && in_micros(arg) && arg.micros is Some && arg.micros->Some_0
        == micros
}

/// The parser reads the schedule from the whole of the cron expression.
pub open spec fn goes_by(args: Arguments, cron: croner::Cron) -> bool {
    args.cron matches Some(expr) && schedule::parsed(schedule::SecondsField::Optional, expr@)
        == Ok::<croner::Cron, croner::errors::CronError>(cron)
}

/// The zone that a call fires in: none for a naive start, and the session's for another.
pub open spec fn fires_in(args: Arguments, time_zone: Option<String>) -> Option<chrono_tz::Tz> {
    if args.start matches Some(arg) && is_zoned(arg) && time_zone is Some {
        zone::zone_named(time_zone->Some_0@)
    } else {
        None
    }
}

/// A call is accepted exactly where its cron expression parses as a whole, its start is a
/// timestamp in microseconds, and its end is absent, an integer that is not negative, or a
/// timestamp in microseconds. It is so both when it is bound and when it is scanned.
pub proof fn law_accepted_calls(args: Arguments, time_zone: Option<String>)
    ensures
        ({
            let accepted = {
                &&& args.cron is Some
                &&& schedule::parsed(schedule::SecondsField::Optional, args.cron->Some_0@) is Ok
                &&& args.start matches Some(arg) && in_micros(arg) && arg.micros is Some
                &&& args.end matches Some(arg) ==> {
                    ||| is_integer(arg) && arg.number is Some && arg.number->Some_0 >= 0
                    ||| in_micros(arg) && arg.micros is Some
                }
            };
            &&& function::bind_meaning(args) is Ok <==> accepted
            &&& function::scan_meaning(args, time_zone) is Ok <==> accepted
        }),
{
}

/// An accepted call goes by the schedule that is read from the whole expression, from the value
/// of its start on, which itself may fire; in the session's zone if the start has a zone, and in
/// none if not.
pub proof fn law_start_and_schedule(args: Arguments, time_zone: Option<String>)
    requires
        function::scan_meaning(args, time_zone) is Ok,
    ensures
        ({
            let scan = function::scan_meaning(args, time_zone)->Ok_0;
            &&& goes_by(args, scan.cron)
            &&& starts_at(args, scan.cursor)
            &&& scan.inclusive
            &&& scan.seq == 0
            &&& !scan.done
            &&& scan.batch_size == 2048
            &&& scan.zone == fires_in(args, time_zone)
            &&& scan.with_tz == is_zoned(args.start->Some_0)
        }),
{
}

/// The end of a call is the end of its series: without one there is neither a count nor a bound,
/// an integer is the count, and a timestamp is the bound.
pub proof fn law_end(args: Arguments, time_zone: Option<String>)
    requires
        function::scan_meaning(args, time_zone) is Ok,
    ensures
        ({
            let scan = function::scan_meaning(args, time_zone)->Ok_0;
            &&& args.end is None ==> scan.remaining is None && scan.until is None
            &&& forall|n: int| #[trigger]
                ends_after(args, n) ==> scan.remaining == Some(n) && scan.until is None
            &&& forall|micros: int| #[trigger]
                ends_before(args, micros) ==> scan.remaining is None && scan.until == Some(micros)
        }),
{
}

/// The rows of a call are the fire times of the schedule, one after the other from the start, and
/// numbered from zero. No row fires at the bound or later, and there are no more than the count.
/// Where there are fewer rows than asked for, the count is reached, or the next fire time is not
/// before the bound, or the schedule has none: so without an end the series goes on as long as
/// the schedule does.
pub proof fn law_rows_of_a_call(args: Arguments, time_zone: Option<String>, limit: nat)
    requires
        function::scan_meaning(args, time_zone) is Ok,
    ensures
        ({
            let scan = function::scan_meaning(args, time_zone)->Ok_0;
            let rows = scan.rows(limit);
            let cron = schedule::parsed(
                schedule::SecondsField::Optional,
                args.cron->Some_0@,
            )->Ok_0;
            let start = args.start->Some_0.micros->Some_0 as int;
            let zone = fires_in(args, time_zone);
            let further = if rows.len() == 0 {
                schedule::next_of(cron, start, true, zone)
            } else {
                schedule::next_of(cron, rows.last().fire, false, zone)
            };
            &&& rows.len() <= limit
            &&& forall|i: int| #![trigger rows[i]] 0 <= i < rows.len() ==> rows[i].seq == i
            &&& rows.len() > 0 ==> schedule::next_of(cron, start, true, zone) == Some(rows[0].fire)
            &&& forall|i: int| #![trigger rows[i]]
                0 < i < rows.len() ==> schedule::next_of(cron, rows[i - 1].fire, false, zone)
                    == Some(rows[i].fire)
            &&& forall|n: int| #[trigger] ends_after(args, n) ==> rows.len() <= n
            &&& forall|micros: int| #[trigger]
                ends_before(args, micros) ==> forall|i: int| #![trigger rows[i]]
                    0 <= i < rows.len() ==> rows[i].fire < micros
            &&& rows.len() < limit ==> {
                ||| further is None
                ||| ends_after(args, rows.len() as int)
                ||| exists|micros: int| #[trigger]
                    ends_before(args, micros) && further->Some_0 >= micros
            }
        }),
{
    let scan = function::scan_meaning(args, time_zone)->Ok_0;
    let rows = scan.rows(limit);
    law_rows_of_a_scan(scan, limit);
    law_end(args, time_zone);
    if args.end is Some {
        let arg = args.end->Some_0;
        if is_integer(arg) {
            assert(ends_after(args, arg.number->Some_0 as int));
        } else {
            assert(ends_before(args, arg.micros->Some_0 as int));
        }
    }
}

/// The rows of a scan are the fire times of its schedule, one after the other from its cursor,
/// numbered on from its number, up to its count and its bound. Where there are fewer than asked
/// for, one of the two is reached, or the schedule has no next fire time.
pub proof fn law_rows_of_a_scan(scan: Scan, limit: nat)
    requires
        !scan.done,
        scan.remaining matches Some(left) ==> left >= 0,
    ensures
        ({
            let rows = scan.rows(limit);
            let further = if rows.len() == 0 {
                schedule::next_of(scan.cron, scan.cursor, scan.inclusive, scan.zone)
            } else {
                schedule::next_of(scan.cron, rows.last().fire, false, scan.zone)
            };
            &&& rows.len() <= limit
            &&& forall|i: int| #![trigger rows[i]]
                0 <= i < rows.len() ==> rows[i].seq == scan.seq + i
            &&& rows.len() > 0 ==> schedule::next_of(
                scan.cron,
                scan.cursor,
                scan.inclusive,
                scan.zone,
            ) == Some(rows[0].fire)
            &&& forall|i: int| #![trigger rows[i]]
                0 < i < rows.len() ==> schedule::next_of(
                    scan.cron,
                    rows[i - 1].fire,
                    false,
                    scan.zone,
                ) == Some(rows[i].fire)
            &&& scan.remaining matches Some(left) ==> rows.len() <= left
            &&& scan.until matches Some(bound) ==> forall|i: int| #![trigger rows[i]]
                0 <= i < rows.len() ==> rows[i].fire < bound
            &&& rows.len() < limit ==> {
                ||| further is None
                ||| scan.remaining == Some(rows.len() as int)
                ||| scan.until matches Some(bound) && further->Some_0 >= bound
            }
        }),
    decreases limit,
{
    let rows = scan.rows(limit);
    if limit > 0 {
        if let Some(fire) = scan.next() {
            let further = scan.after(fire);
            let rest = further.rows((limit - 1) as nat);
            law_rows_of_a_scan(further, (limit - 1) as nat);
            assert(rows == seq![Row { seq: scan.seq, fire }] + rest);
            assert forall|i: int| #![trigger rows[i]]
                0 < i < rows.len() implies rows[i].seq == scan.seq + i && schedule::next_of(
                scan.cron,
                rows[i - 1].fire,
                false,
                scan.zone,
            ) == Some(rows[i].fire) && (scan.until matches Some(bound) ==> rows[i].fire < bound) by {
                assert(rows[i] == rest[i - 1]);
                if i > 1 {
                    assert(rows[i - 1] == rest[i - 2]);
                }
            }
            if rest.len() > 0 {
                assert(rows.last() == rest.last());
            }
        }
    }
}

/// The values of a batch are fire times of the schedule, one after the other from the cursor,
/// beside their numbers, up to the count and the bound; there is at least one, and no more than
/// the batch has room for. Where there is room left, the count or the bound is reached, or the
/// schedule has no next fire time. The columns are `seq` and `fire_time`, which carries UTC or no
/// zone.
pub proof fn law_values_of_a_batch(before: Scan, batch: FireBatch)
    requires
        before.wf(),
        producer::is_batch(before, Ok(Some(batch))),
    ensures
        ({
            let seqs = table::batch_seqs(batch);
            let fires = table::batch_fires(batch);
            let columns = table::batch_columns(batch);
            let further = schedule::next_of(before.cron, fires.last() as int, false, before.zone);
            &&& 0 < fires.len() <= before.batch_size
            &&& seqs.len() == fires.len()
            &&& forall|i: int| #![trigger seqs[i]]
                0 <= i < seqs.len() ==> seqs[i] == before.seq + i
            &&& schedule::next_of(before.cron, before.cursor, before.inclusive, before.zone)
                == Some(fires[0] as int)
            &&& forall|i: int| #![trigger fires[i]]
                0 < i < fires.len() ==> schedule::next_of(
                    before.cron,
                    fires[i - 1] as int,
                    false,
                    before.zone,
                ) == Some(fires[i] as int)
            &&& before.remaining matches Some(left) ==> fires.len() <= left
            &&& before.until matches Some(bound) ==> forall|i: int| #![trigger fires[i]]
                0 <= i < fires.len() ==> fires[i] < bound
            &&& fires.len() < before.batch_size ==> {
                ||| further is None
                ||| before.remaining == Some(fires.len() as int)
                ||| before.until matches Some(bound) && further->Some_0 >= bound
            }
            &&& columns.len() == 2
            &&& columns[0].name == "seq"@ && columns[0].kind is Int64 && !columns[0].nullable
            &&& columns[1].name == "fire_time"@ && !columns[1].nullable
            &&& before.with_tz ==> columns[1].kind == table::ColumnKind::Timestamp(Some("UTC"@))
            &&& !before.with_tz ==> columns[1].kind == table::ColumnKind::Timestamp(None)
        }),
{
    let rows = before.batch();
    let fires = table::batch_fires(batch);
    let seqs = table::batch_seqs(batch);
    law_rows_of_a_scan(before, before.batch_size);
    assert(fires[0] == rows[0].fire);
    assert(fires.last() == rows.last().fire);
    assert forall|i: int| #![trigger seqs[i]] 0 <= i < seqs.len() implies seqs[i] == before.seq
        + i by {
        let row = rows[i];
    }
    assert forall|i: int| #![trigger fires[i]]
        0 <= i < fires.len() implies fires[i] == rows[i].fire && (0 < i ==> schedule::next_of(
        before.cron,
        fires[i - 1] as int,
        false,
        before.zone,
    ) == Some(fires[i] as int)) by {
        let row = rows[i];
        if i > 0 {
            let previous = rows[i - 1];
        }
    }
}

/// There is no batch only where the series has ended: it was known to, the count is used up, the
/// schedule has no next fire time, or that is not before the bound. A call for a batch never
/// fails.
pub proof fn law_no_batch_at_the_end_only(
    before: Scan,
    outcome: Result<Option<FireBatch>, arrow_schema::ArrowError>,
)
    requires
        before.wf(),
        producer::is_batch(before, outcome),
    ensures
        outcome is Ok,
        outcome->Ok_0 is None ==> {
            let next = schedule::next_of(
                before.cron,
                before.cursor,
                before.inclusive,
                before.zone,
            );
            ||| before.done
            ||| before.remaining == Some(0int)
            ||| next is None
            ||| before.until matches Some(bound) && next->Some_0 >= bound
        },
{
    if !before.done {
        law_rows_of_a_scan(before, before.batch_size);
    }
}

/// Behind a batch the scan goes on from the last value, with the next number and what is left of
/// the count; the schedule, the zone, the bound and the kind of table stay. It is known to have
/// ended only where the batch has room left. The next batch may hold twice as many rows, and no
/// more than 65536.
pub proof fn law_scan_goes_on_from_a_batch(before: Scan, batch: FireBatch)
    requires
        before.wf(),
        producer::is_batch(before, Ok(Some(batch))),
    ensures
        ({
            let fires = table::batch_fires(batch);
            let after = before.after_batch();
            &&& after.cursor == fires.last()
            &&& !after.inclusive
            &&& after.seq == before.seq + fires.len()
            &&& before.remaining matches Some(left) ==> after.remaining == Some(left - fires.len())
            &&& before.remaining is None ==> after.remaining is None
            &&& after.cron == before.cron
            &&& after.zone == before.zone
            &&& after.until == before.until
            &&& after.with_tz == before.with_tz
            &&& after.done <==> fires.len() < before.batch_size
            &&& after.batch_size == 2 * before.batch_size || after.batch_size == 65536
                && before.batch_size <= 65536 <= 2 * before.batch_size
        }),
{
    let rows = before.batch();
    let fires = table::batch_fires(batch);
    laws::lemma_behind_rows(before, before.batch_size);
    assert(fires.last() == rows.last().fire);
}

/// The values of a batch are in strictly increasing order, none is before the cursor, and each
/// has a wall clock that the schedule names; or it stands right behind a gap, and since the value
/// before it the schedule names a wall clock in a gap.
pub proof fn law_values_follow_the_schedule(before: Scan, batch: FireBatch)
    requires
        producer::is_batch(before, Ok(Some(batch))),
    ensures
        ({
            let fires = table::batch_fires(batch);
            &&& forall|i: int, j: int| #![trigger fires[i], fires[j]]
                0 <= i < j < fires.len() ==> fires[i] < fires[j]
            &&& forall|i: int| #![trigger fires[i]]
                0 <= i < fires.len() ==> {
                    let local = zone::wall(before.zone, fires[i] as int);
                    &&& before.cursor <= fires[i]
                    &&& !before.inclusive ==> before.cursor < fires[i]
                    &&& calendar::year_start(1) <= local < calendar::year_start(4096)
                    &&& !schedule::fires_at(before.cron, local) ==> {
                        &&& zone::in_gap(before.zone, local - 1_000_000)
                        &&& exists|t: int| #[trigger]
                            schedule::fires_at(before.cron, t) && t < local && zone::in_gap(
                                before.zone,
                                t,
                            ) && zone::wall(
                                before.zone,
                                if i == 0 {
                                    before.cursor
                                } else {
                                    fires[i - 1] as int
                                },
                            ) <= t
                    }
                }
        }),
{
    let rows = before.batch();
    let fires = table::batch_fires(batch);
    laws::law_lookups_give_rows(before, before.batch_size);
    laws::law_rows_increase(before, rows);
    laws::law_rows_before_the_cap(before, rows);
    laws::law_wall_clocks_match(before, rows);
    assert forall|i: int, j: int| #![trigger fires[i], fires[j]]
        0 <= i < j < fires.len() implies fires[i] < fires[j] by {
        let row = rows[i];
        let other = rows[j];
    }
    assert forall|i: int| #![trigger fires[i]] 0 <= i < fires.len() implies {
        let local = zone::wall(before.zone, fires[i] as int);
        &&& before.cursor <= fires[i]
        &&& !before.inclusive ==> before.cursor < fires[i]
        &&& calendar::year_start(1) <= local < calendar::year_start(4096)
        &&& !schedule::fires_at(before.cron, local) ==> {
            &&& zone::in_gap(before.zone, local - 1_000_000)
            &&& exists|t: int| #[trigger]
                schedule::fires_at(before.cron, t) && t < local && zone::in_gap(before.zone, t)
                    && zone::wall(
                    before.zone,
                    if i == 0 {
                        before.cursor
                    } else {
                        fires[i - 1] as int
                    },
                ) <= t
        }
    } by {
        let row = rows[i];
        if i > 0 {
            let previous = rows[i - 1];
        }
    }
}

/// The values of a batch leave nothing out: every wall clock that the schedule names, from the
/// first one that may fire up to that of the last value, falls in the second of a value, or in a
/// gap, or was shown before the cursor in an hour that is shown again.
pub proof fn law_values_leave_nothing_out(before: Scan, batch: FireBatch, t: int)
    requires
        producer::is_batch(before, Ok(Some(batch))),
        schedule::fires_at(before.cron, t),
        ({
            let last = zone::wall(before.zone, table::batch_fires(batch).last() as int);
            let here = zone::wall(before.zone, before.cursor);
            &&& before.inclusive ==> calendar::second_of(here) <= calendar::second_of(t)
            &&& !before.inclusive ==> calendar::second_of(here) < calendar::second_of(t)
            &&& calendar::second_of(t) <= calendar::second_of(last)
        }),
    ensures
        ({
            let fires = table::batch_fires(batch);
            ||| exists|i: int| #![trigger fires[i]]
                0 <= i < fires.len() && calendar::second_of(
                    zone::wall(before.zone, fires[i] as int),
                ) == calendar::second_of(t)
            ||| zone::in_gap(before.zone, t)
            ||| !zone::first_shown(before.zone, before.cursor) && exists|shown: int|
                calendar::representable(shown) && shown < before.cursor && calendar::second_of(
                    #[trigger] zone::wall(before.zone, shown),
                ) == calendar::second_of(t)
        }),
{
    let rows = before.batch();
    let fires = table::batch_fires(batch);
    laws::law_lookups_give_rows(before, before.batch_size);
    assert(fires.last() == rows.last().fire);
    laws::law_nothing_is_missed(before, rows, t);
    if laws::in_a_row(before, rows, t) {
        let i = choose|i: int| #![trigger rows[i]]
            0 <= i < rows.len() && calendar::second_of(zone::wall(before.zone, rows[i].fire))
                == calendar::second_of(t);
        let row = rows[i];
        assert(fires[i] == row.fire);
    }
}

/// A batch makes up for every fixed time that a gap of at most two hours hides, up to its last
/// value: one of the values has a wall clock from the hidden time to the end of the gap, if that
/// is on a day that the schedule names. It is so from every cursor that is not in an hour shown
/// again.
pub proof fn law_values_make_up_for_hidden_times(
    before: Scan,
    batch: FireBatch,
    t: int,
    end: int,
)
    requires
        producer::is_batch(before, Ok(Some(batch))),
        zone::first_shown(before.zone, before.cursor),
        schedule::owes(before.cron, before.zone, t, end),
        ({
            let last = zone::wall(before.zone, table::batch_fires(batch).last() as int);
            let here = zone::wall(before.zone, before.cursor);
            &&& before.inclusive ==> calendar::second_of(here) <= calendar::second_of(t)
            &&& !before.inclusive ==> calendar::second_of(here) < calendar::second_of(t)
            &&& calendar::second_of(t) <= calendar::second_of(last)
        }),
    ensures
        ({
            let fires = table::batch_fires(batch);
            exists|i: int| #![trigger fires[i]]
                0 <= i < fires.len() && calendar::second_of(t) <= calendar::second_of(
                    zone::wall(before.zone, fires[i] as int),
                ) <= calendar::second_of(end)
        }),
{
    let rows = before.batch();
    let fires = table::batch_fires(batch);
    laws::law_lookups_give_rows(before, before.batch_size);
    assert(fires.last() == rows.last().fire);
    laws::law_hidden_times_have_rows(before, rows, t, end);
    let i = choose|i: int| #![trigger rows[i]]
        0 <= i < rows.len() && calendar::second_of(t) <= calendar::second_of(
            zone::wall(before.zone, rows[i].fire),
        ) <= calendar::second_of(end);
    let row = rows[i];
    assert(fires[i] == row.fire);
}

/// The announced number of rows is that of an integer end which is not negative, and no call
/// gives more; with any other end no number is announced.
pub proof fn law_announced_number(args: Arguments, time_zone: Option<String>, limit: nat)
    ensures
        ({
            let announced = function::cardinality_meaning(args);
            &&& forall|n: i64| #[trigger]
                ends_after(args, n as int) && n >= 0 ==> announced == Some(
                    function::TableCardinality { estimate: Some(n), max: Some(n) },
                )
            &&& announced is Some ==> exists|n: i64| #[trigger] ends_after(args, n as int) && n >= 0
            &&& announced is Some && function::scan_meaning(args, time_zone) is Ok ==> {
                let rows = function::scan_meaning(args, time_zone)->Ok_0.rows(limit);
                let most = announced->Some_0.max;
                most is Some && rows.len() <= most->Some_0
            }
        }),
{
    if function::cardinality_meaning(args) is Some {
        let n = args.end->Some_0.number->Some_0;
        assert(ends_after(args, n as int));
        if function::scan_meaning(args, time_zone) is Ok {
            law_rows_of_a_call(args, time_zone, limit);
        }
    }
}

/// A call is bound to the columns `seq` and `fire_time`; the second carries UTC exactly where the
/// start has a zone.
pub proof fn law_bound_columns(args: Arguments)
    requires
        function::bind_meaning(args) is Ok,
    ensures
        ({
            let columns = table::output_columns(function::bind_meaning(args)->Ok_0);
            &&& columns.len() == 2
            &&& columns[0].name == "seq"@ && columns[0].kind is Int64 && !columns[0].nullable
            &&& columns[1].name == "fire_time"@ && !columns[1].nullable
            &&& columns[1].kind == table::ColumnKind::Timestamp(
                if is_zoned(args.start->Some_0) {
                    Some("UTC"@)
                } else {
                    None
                },
            )
        }),
{
}

/// Whether a start has a zone goes by its type, whatever unit it counts in; an argument that is no
/// timestamp is refused.
pub proof fn law_zone_of_a_start(args: Arguments)
    ensures
        args.start matches Some(arg) ==> {
            let outcome = arguments::start_zoned(args.start);
            &&& outcome is Ok <==> arg.arg_type is Timestamp
            &&& outcome is Ok ==> outcome->Ok_0 == is_zoned(arg)
        },
{
}

/// An answer is the value that is meant, or an error with the message that is meant.
pub proof fn law_answers<T>(
    outcome: Result<T, arguments::ValueError>,
    meaning: Result<T, Seq<char>>,
)
    requires
        arguments::answers(outcome, meaning),
    ensures
        outcome is Ok <==> meaning is Ok,
        outcome is Ok ==> outcome->Ok_0 == meaning->Ok_0,
        outcome is Err ==> outcome->Err_0.message@ == meaning->Err_0,
{
}

/// A zone has a wall clock at every instant of which both the date in UTC and the local date are
/// dates that can be held, and at every instant out of range; only where the local date alone is
/// out of range it has none.
pub proof fn law_wall_clocks_exist(zone: Option<chrono_tz::Tz>, micros: int)
    ensures
        ({
            let first = calendar::year_start(-262143);
            let last = calendar::year_start(262143);
            let local = zone::wall(zone, micros);
            zone::has_wall_clock(zone, micros) <==> {
                ||| micros < first
                ||| micros >= last
                ||| first <= local < last
            }
        }),
{
}

/// What is wrong with the end of a call.
pub open spec fn end_fault(args: Arguments) -> Option<Seq<char>> {
    if args.end is None {
        None
    } else {
        let arg = args.end->Some_0;
        if is_integer(arg) && arg.number is None {
            Some("cron_fire_times: 'end' count is not readable"@)
        } else if is_integer(arg) && arg.number->Some_0 < 0 {
            Some("cron_fire_times: 'end' count must be non-negative"@)
        } else if is_integer(arg) {
            None
        } else if in_micros(arg) && arg.micros is None {
            Some("cron_fire_times: could not read 'end' timestamp"@)
        } else if in_micros(arg) {
            None
        } else {
            Some(
                "cron_fire_times: 'end' must be an integer count or a microsecond timestamp, got "@
                    + arg.type_text@,
            )
        }
    }
}

/// A refused call is told what is wrong: first of its cron expression, which is quoted whole; and
/// then, when it is bound, of its end before its start, and when it is scanned, of its start
/// before its end.
pub proof fn law_refusals(args: Arguments, time_zone: Option<String>)
    ensures
        ({
            let bound = function::bind_meaning(args);
            let scan = function::scan_meaning(args, time_zone);
            let required = "cron_fire_times: a start timestamp is required"@;
            let coarse = "cron_fire_times: 'start' must be a microsecond timestamp"@;
            &&& args.cron is None ==> {
                &&& bound is Err && bound->Err_0 == "cron_fire_times: a cron expression is required"@
                &&& scan is Err && scan->Err_0 == "cron_fire_times: a cron expression is required"@
            }
            &&& args.cron matches Some(expr) ==> {
                let outcome = schedule::parsed(schedule::SecondsField::Optional, expr@);
                let message = "cron_fire_times: invalid cron expression '"@ + expr@ + "': "@
                    + schedule::error_text(outcome->Err_0);
                let readable = args.start matches Some(arg) && in_micros(arg) && arg.micros is Some;
                &&& outcome is Err ==> {
                    &&& bound is Err && bound->Err_0 == message
                    &&& scan is Err && scan->Err_0 == message
                }
                &&& outcome is Ok && end_fault(args) is Some ==> bound is Err && bound->Err_0
                    == end_fault(args)->Some_0
                &&& outcome is Ok && end_fault(args) is Some && readable ==> scan is Err
                    && scan->Err_0 == end_fault(args)->Some_0
                &&& outcome is Ok && args.start is None ==> {
                    &&& scan is Err && scan->Err_0 == required
                    &&& end_fault(args) is None ==> bound is Err && bound->Err_0 == required
                }
                &&& outcome is Ok && args.start is Some && !readable ==> {
                    &&& scan is Err && scan->Err_0 == coarse
                    &&& end_fault(args) is None ==> bound is Err && bound->Err_0
                        == if args.start->Some_0.arg_type is Timestamp {
                        coarse
                    } else {
                        "cron_fire_times: 'start' must be a TIMESTAMP or TIMESTAMPTZ, got "@
                            + args.start->Some_0.type_text@
                    }
                }
            }
        }),
{
}

/// Two calls that differ in their ends only go through the same series: the rows of the one with
/// an end are the first rows of the one without.
pub proof fn law_an_end_only_cuts(args: Arguments, time_zone: Option<String>, limit: nat)
    requires
        function::scan_meaning(args, time_zone) is Ok,
    ensures
        ({
            let open = Arguments { end: None, ..args };
            let rows = function::scan_meaning(args, time_zone)->Ok_0.rows(limit);
            &&& function::scan_meaning(open, time_zone) is Ok
            &&& rows == function::scan_meaning(open, time_zone)->Ok_0.rows(limit).take(
                rows.len() as int,
            )
        }),
{
    let open = Arguments { end: None, ..args };
    let scan = function::scan_meaning(args, time_zone)->Ok_0;
    let whole = function::scan_meaning(open, time_zone)->Ok_0;
    law_end(args, time_zone);
    law_end(open, time_zone);
    assert(whole == (Scan { remaining: None, until: None, ..scan }));
    if args.end is Some {
        let arg = args.end->Some_0;
        if is_integer(arg) {
            let n = arg.number->Some_0 as nat;
            assert(ends_after(args, n as int));
            laws::law_count_cuts(scan, n, limit);
            if n < limit {
                laws::law_rows_split(whole, n, (limit - n) as nat);
                laws::law_short_means_ended(whole, n);
                if whole.rows(n).len() < n {
                    laws::lemma_ended(whole.advanced(n), (limit - n) as nat);
                }
            }
            assert(scan.rows(limit) =~= whole.rows(limit).take(scan.rows(limit).len() as int));
        } else {
            let micros = arg.micros->Some_0 as int;
            assert(ends_before(args, micros));
            laws::law_bound_cuts(scan, micros, limit);
        }
    } else {
        assert(whole.rows(limit) =~= whole.rows(limit).take(whole.rows(limit).len() as int));
    }
}

} // verus!
