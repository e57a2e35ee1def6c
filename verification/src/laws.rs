//! What holds of every series, however it is asked for.

use vstd::prelude::*;

use crate::arguments::{self, Arguments};
use crate::calendar;
use crate::function;
use crate::scan::{Row, Scan, MAX_BATCH, MIN_BATCH};
use crate::schedule;
use crate::zone;

verus! {

/// Taking rows in two goes gives the same rows, and leaves the scan at the same place, as
/// taking them at once.
pub proof fn law_rows_split(scan: Scan, first: nat, second: nat)
    ensures
        scan.rows(first + second) == scan.rows(first) + scan.advanced(first).rows(second),
        scan.advanced(first + second) == scan.advanced(first).advanced(second),
    decreases first,
{
    if first == 0 {
        assert(scan.rows(0) + scan.rows(second) =~= scan.rows(second));
    } else {
        match scan.next() {
            Some(fire) => {
                let rest = (first - 1) as nat;
                let row = seq![Row { seq: scan.seq, fire }];
                law_rows_split(scan.after(fire), rest, second);
                assert((first + second - 1) as nat == rest + second);
                assert(row + (scan.after(fire).rows(rest) + scan.advanced(first).rows(second))
                    =~= (row + scan.after(fire).rows(rest)) + scan.advanced(first).rows(second));
            },
            None => {
                lemma_ended(scan, second);
                lemma_ended(scan, first + second);
                lemma_ended(scan, first);
            },
        }
    }
}

/// A scan with no next row has no rows, and stays where it is.
pub proof fn lemma_ended(scan: Scan, limit: nat)
    requires
        scan.next() is None,
    ensures
        scan.rows(limit) == Seq::<Row>::empty(),
        scan.advanced(limit) == scan,
{
}

/// The rows are no more than asked for; where they are fewer, there is no next one.
pub proof fn law_short_means_ended(scan: Scan, limit: nat)
    ensures
        scan.rows(limit).len() <= limit,
        scan.rows(limit).len() < limit ==> scan.advanced(limit).next() is None,
    decreases limit,
{
    if limit > 0 {
        if let Some(fire) = scan.next() {
            law_short_means_ended(scan.after(fire), (limit - 1) as nat);
        }
    }
}

/// The rows are numbered one by one from the scan's own number.
pub proof fn law_numbered(scan: Scan, limit: nat)
    ensures
        forall|i: int| #![trigger scan.rows(limit)[i]]
            0 <= i < scan.rows(limit).len() ==> scan.rows(limit)[i].seq == scan.seq + i,
    decreases limit,
{
    if limit > 0 {
        if let Some(fire) = scan.next() {
            let rest = scan.after(fire).rows((limit - 1) as nat);
            law_numbered(scan.after(fire), (limit - 1) as nat);
            assert forall|i: int| #![trigger scan.rows(limit)[i]]
                0 <= i < scan.rows(limit).len() implies scan.rows(limit)[i].seq == scan.seq + i by {
                if i > 0 {
                    assert(scan.rows(limit)[i] == rest[i - 1]);
                }
            }
        }
    }
}

/// The rows of a call are numbered from zero, through all of its batches.
pub proof fn law_numbered_from_zero(scan: Scan, count: nat)
    requires
        scan.seq == 0,
    ensures
        forall|i: int| #![trigger scan.batches(count)[i]]
            0 <= i < scan.batches(count).len() ==> scan.batches(count)[i].seq == i,
{
    law_batches_are_the_series(scan, count);
    law_numbered(scan, scan.room(count));
}

/// A series with a count is the series without one, cut off behind that many rows.
pub proof fn law_count_cuts(scan: Scan, count: nat, limit: nat)
    ensures
        (Scan { remaining: Some(count as int), ..scan }).rows(limit) == (Scan {
            remaining: None,
            ..scan
        }).rows(if limit < count {
            limit
        } else {
            count
        }),
    decreases limit,
{
    let counted = Scan { remaining: Some(count as int), ..scan };
    let plain = Scan { remaining: None, ..scan };
    if limit > 0 && count > 0 {
        if let Some(fire) = plain.next() {
            let further = scan.after(fire);
            law_count_cuts(further, (count - 1) as nat, (limit - 1) as nat);
            assert(counted.after(fire) == (Scan { remaining: Some(count - 1), ..further }));
            assert(plain.after(fire) == (Scan { remaining: None, ..further }));
        }
    }
}

/// A series with an upper bound is the series without one, cut off before the first fire
/// time that is not before the bound.
pub proof fn law_bound_cuts(scan: Scan, bound: int, limit: nat)
    ensures
        ({
            let bounded = (Scan { until: Some(bound), ..scan }).rows(limit);
            let plain = (Scan { until: None, ..scan }).rows(limit);
            &&& bounded.len() <= plain.len()
            &&& bounded == plain.take(bounded.len() as int)
            &&& bounded.len() < plain.len() ==> plain[bounded.len() as int].fire >= bound
            &&& forall|i: int| #![trigger bounded[i]]
                0 <= i < bounded.len() ==> bounded[i].fire < bound
        }),
    decreases limit,
{
    let bounded = Scan { until: Some(bound), ..scan };
    let plain = Scan { until: None, ..scan };
    if limit > 0 {
        if let Some(fire) = plain.next() {
            let further = scan.after(fire);
            let rest = (limit - 1) as nat;
            law_bound_cuts(further, bound, rest);
            assert(bounded.after(fire) == (Scan { until: Some(bound), ..further }));
            assert(plain.after(fire) == (Scan { until: None, ..further }));
            if fire < bound {
                let b = bounded.after(fire).rows(rest);
                let p = plain.after(fire).rows(rest);
                let row = seq![Row { seq: scan.seq, fire }];
                assert(bounded.rows(limit) == row + b);
                assert(plain.rows(limit) == row + p);
                assert(row + b =~= (row + p).take((row + b).len() as int));
                assert forall|i: int| #![trigger bounded.rows(limit)[i]]
                    0 <= i < bounded.rows(limit).len() implies bounded.rows(limit)[i].fire < bound by {
                    if i > 0 {
                        assert(bounded.rows(limit)[i] == b[i - 1]);
                    }
                }
            } else {
                assert(bounded.rows(limit) =~= plain.rows(limit).take(0));
            }
        } else {
            assert(bounded.rows(limit) =~= plain.rows(limit).take(0));
        }
    } else {
        assert(bounded.rows(limit) =~= plain.rows(limit).take(0));
    }
}

/// Rows and their end do not depend on the size of a batch.
proof fn lemma_size_is_free(scan: Scan, size: nat, limit: nat)
    ensures
        (Scan { batch_size: size, ..scan }).rows(limit) == scan.rows(limit),
        (Scan { batch_size: size, ..scan }).advanced(limit) == (Scan {
            batch_size: size,
            ..scan.advanced(limit)
        }),
    decreases limit,
{
    let other = Scan { batch_size: size, ..scan };
    if limit > 0 {
        if let Some(fire) = scan.next() {
            assert(other.after(fire) == (Scan { batch_size: size, ..scan.after(fire) }));
            lemma_size_is_free(scan.after(fire), size, (limit - 1) as nat);
        }
    }
}

/// Batches cut a series into pieces and change nothing else: the rows of any number of
/// batches are the rows taken at once, as many as the batches have room for.
pub proof fn law_batches_are_the_series(scan: Scan, count: nat)
    ensures
        scan.batches(count) == scan.rows(scan.room(count)),
        ({
            let whole = scan.advanced(scan.room(count));
            let pieces = scan.after_batches(count);
            pieces == (Scan { batch_size: pieces.batch_size, done: pieces.done, ..whole })
        }),
        scan.after_batches(count).done ==> scan.advanced(scan.room(count)).next() is None,
        scan.done ==> scan.after_batches(count).done,
    decreases count,
{
    if count > 0 {
        let before = (count - 1) as nat;
        let here = scan.after_batches(before);
        let whole = scan.advanced(scan.room(before));
        let size = here.batch_size;
        law_batches_are_the_series(scan, before);
        law_rows_split(scan, scan.room(before), size);
        if here.done {
            lemma_ended(whole, size);
            lemma_ended(here, size);
        } else {
            if whole.done {
                lemma_done_stays(scan, scan.room(before));
            }
            assert(here == (Scan { batch_size: size, ..whole }));
            lemma_size_is_free(whole, size, size);
            law_short_means_ended(whole, size);
        }
    }
}

/// A scan is done behind its rows exactly when it was before them.
proof fn lemma_done_stays(scan: Scan, limit: nat)
    ensures
        scan.advanced(limit).done == scan.done,
    decreases limit,
{
    if limit > 0 {
        if let Some(fire) = scan.next() {
            lemma_done_stays(scan.after(fire), (limit - 1) as nat);
        }
    }
}

/// A scan that has given an empty batch gives empty batches from there on.
pub proof fn law_exhausted_for_good(scan: Scan)
    requires
        scan.wf(),
        scan.batch().len() == 0,
    ensures
        scan.after_batch().done,
        scan.after_batch().batch().len() == 0,
        scan.after_batch().after_batch() == scan.after_batch(),
{
}

/// No batch holds more than [`MAX_BATCH`] rows, and the batches of a scan that is not done
/// have had room for `MIN_BATCH`, twice that, and so on up to [`MAX_BATCH`].
pub proof fn law_batches_grow(scan: Scan, count: nat)
    requires
        scan.wf(),
        scan.batch_size == MIN_BATCH,
    ensures
        scan.after_batches(count).batch().len() <= MAX_BATCH,
        !scan.after_batches(count).done ==> scan.after_batches(count).batch_size == if count < 5 {
            MIN_BATCH * vstd::arithmetic::power2::pow2(count)
        } else {
            MAX_BATCH as int
        },
{
    lemma_sizes(scan, count);
    law_short_means_ended(scan.after_batches(count), scan.after_batches(count).batch_size);
}

/// The sizes of the batches, as [`law_batches_grow`] states them.
proof fn lemma_sizes(scan: Scan, count: nat)
    requires
        scan.wf(),
        scan.batch_size == MIN_BATCH,
    ensures
        MIN_BATCH <= scan.after_batches(count).batch_size <= MAX_BATCH,
        !scan.after_batches(count).done ==> scan.after_batches(count).batch_size == if count < 5 {
            MIN_BATCH * vstd::arithmetic::power2::pow2(count)
        } else {
            MAX_BATCH as int
        },
    decreases count,
{
    vstd::arithmetic::power2::lemma2_to64();
    if count > 0 {
        let here = scan.after_batches((count - 1) as nat);
        lemma_sizes(scan, (count - 1) as nat);
        lemma_keeps_size(here, here.batch_size);
    }
}

/// Taking rows leaves the size of the next batch, the schedule, the zone, the bound and the
/// kind of table as they are.
proof fn lemma_keeps_size(scan: Scan, limit: nat)
    ensures
        scan.advanced(limit).batch_size == scan.batch_size,
        scan.advanced(limit).cron == scan.cron,
        scan.advanced(limit).zone == scan.zone,
        scan.advanced(limit).until == scan.until,
        scan.advanced(limit).with_tz == scan.with_tz,
    decreases limit,
{
    if limit > 0 {
        if let Some(fire) = scan.next() {
            lemma_keeps_size(scan.after(fire), (limit - 1) as nat);
        }
    }
}

/// Every batch of a scan goes by the same schedule, zone and bound and has the same columns.
pub proof fn law_batches_are_alike(scan: Scan, count: nat)
    ensures
        scan.after_batches(count).cron == scan.cron,
        scan.after_batches(count).zone == scan.zone,
        scan.after_batches(count).until == scan.until,
        scan.after_batches(count).with_tz == scan.with_tz,
    decreases count,
{
    if count > 0 {
        let here = scan.after_batches((count - 1) as nat);
        law_batches_are_alike(scan, (count - 1) as nat);
        lemma_keeps_size(here, here.batch_size);
    }
}

/// Each row's wall clock is at least a second later than that of the row before it, so no
/// instant is emitted twice; and none is before the wall clock of the start.
pub proof fn law_rows_move_on(scan: Scan, rows: Seq<Row>)
    requires
        scan.yields(rows),
    ensures
        forall|i: int, j: int| #![trigger rows[i], rows[j]]
            0 <= i < j < rows.len() ==> {
                &&& zone::wall(scan.zone, rows[i].fire) + (j - i) * calendar::MICROS_PER_SECOND
                    <= zone::wall(scan.zone, rows[j].fire)
                &&& rows[i].fire != rows[j].fire
            },
        forall|i: int| #![trigger rows[i]]
            0 <= i < rows.len() ==> schedule::search_start(scan.cursor, scan.inclusive, scan.zone)
                + i * calendar::MICROS_PER_SECOND <= zone::wall(scan.zone, rows[i].fire),
{
    assert forall|i: int, j: int| #![trigger rows[i], rows[j]]
        0 <= i < j < rows.len() implies {
        &&& zone::wall(scan.zone, rows[i].fire) + (j - i) * calendar::MICROS_PER_SECOND
            <= zone::wall(scan.zone, rows[j].fire)
        &&& rows[i].fire != rows[j].fire
    } by {
        lemma_apart(scan, rows, i, j);
    }
    assert forall|i: int| #![trigger rows[i]] 0 <= i < rows.len() implies schedule::search_start(
        scan.cursor,
        scan.inclusive,
        scan.zone,
    ) + i * calendar::MICROS_PER_SECOND <= zone::wall(scan.zone, rows[i].fire) by {
        lemma_moves_on(scan, rows, 0);
        if i > 0 {
            lemma_apart(scan, rows, 0, i);
        }
    }
}

/// Two rows are as many seconds apart on the wall clock as there are rows from one to the
/// other, or more.
proof fn lemma_apart(scan: Scan, rows: Seq<Row>, i: int, j: int)
    requires
        scan.yields(rows),
        0 <= i < j < rows.len(),
    ensures
        zone::wall(scan.zone, rows[i].fire) + (j - i) * calendar::MICROS_PER_SECOND <= zone::wall(
            scan.zone,
            rows[j].fire,
        ),
    decreases j - i,
{
    lemma_moves_on(scan, rows, j);
    if i < j - 1 {
        lemma_apart(scan, rows, i, j - 1);
    }
}

/// What is known of the row at `i`.
proof fn lemma_row(scan: Scan, rows: Seq<Row>, i: int)
    requires
        scan.yields(rows),
        0 <= i < rows.len(),
    ensures
        schedule::is_next(
            scan.cron,
            scan.sought_from(rows, i),
            scan.inclusive && i == 0,
            scan.zone,
            rows[i].fire,
        ),
{
    reveal(Scan::yields);
    let row = rows[i];
}

/// A row's wall clock is not before the start of the search for it.
proof fn lemma_moves_on(scan: Scan, rows: Seq<Row>, i: int)
    requires
        scan.yields(rows),
        0 <= i < rows.len(),
    ensures
        schedule::search_start(scan.sought_from(rows, i), scan.inclusive && i == 0, scan.zone)
            <= zone::wall(scan.zone, rows[i].fire),
{
    lemma_row(scan, rows, i);
    reveal(schedule::is_next);
}

/// The rows are in strictly increasing order of time, and none is before the start, in every
/// zone and from every start.
pub proof fn law_rows_increase(scan: Scan, rows: Seq<Row>)
    requires
        scan.yields(rows),
    ensures
        forall|i: int, j: int| #![trigger rows[i], rows[j]]
            0 <= i < j < rows.len() ==> rows[i].fire < rows[j].fire,
        forall|i: int| #![trigger rows[i]]
            0 <= i < rows.len() ==> scan.cursor <= rows[i].fire && (!scan.inclusive ==> scan.cursor
                < rows[i].fire),
{
    assert forall|i: int, j: int| #![trigger rows[i], rows[j]]
        0 <= i < j < rows.len() implies rows[i].fire < rows[j].fire by {
        lemma_later(scan, rows, i, j);
    }
    assert forall|i: int| #![trigger rows[i]] 0 <= i < rows.len() implies scan.cursor
        <= rows[i].fire && (!scan.inclusive ==> scan.cursor < rows[i].fire) by {
        lemma_row(scan, rows, 0);
        reveal(schedule::is_next);
        if i > 0 {
            lemma_later(scan, rows, 0, i);
        }
    }
}

/// A row is later than any before it.
proof fn lemma_later(scan: Scan, rows: Seq<Row>, i: int, j: int)
    requires
        scan.yields(rows),
        0 <= i < j < rows.len(),
    ensures
        rows[i].fire < rows[j].fire,
    decreases j - i,
{
    assert(rows[j - 1].fire < rows[j].fire) by {
        lemma_row(scan, rows, j);
        reveal(schedule::is_next);
    }
    if i < j - 1 {
        lemma_later(scan, rows, i, j - 1);
    }
}

/// In UTC the rows are in strictly increasing order of time, at least a second apart, and
/// none is before the start.
pub proof fn law_utc_rows_increase(scan: Scan, rows: Seq<Row>)
    requires
        scan.zone is None,
        scan.yields(rows),
    ensures
        forall|i: int, j: int| #![trigger rows[i], rows[j]]
            0 <= i < j < rows.len() ==> rows[i].fire + calendar::MICROS_PER_SECOND
                <= rows[j].fire,
        forall|i: int| #![trigger rows[i]]
            0 <= i < rows.len() ==> scan.cursor <= rows[i].fire && (!scan.inclusive ==> scan.cursor
                + calendar::MICROS_PER_SECOND <= rows[i].fire),
{
    law_rows_move_on(scan, rows);
}

/// Every row fires before [`schedule::YEAR_CAP`] on its wall clock, in a year of the common
/// era.
pub proof fn law_rows_before_the_cap(scan: Scan, rows: Seq<Row>)
    requires
        scan.yields(rows),
    ensures
        forall|i: int| #![trigger rows[i]]
            0 <= i < rows.len() ==> calendar::year_start(1) <= zone::wall(scan.zone, rows[i].fire)
                < calendar::year_start(schedule::YEAR_CAP as int),
{
    assert forall|i: int| #![trigger rows[i]] 0 <= i < rows.len() implies calendar::year_start(1)
        <= zone::wall(scan.zone, rows[i].fire) < calendar::year_start(
        schedule::YEAR_CAP as int,
    ) by {
        lemma_row(scan, rows, i);
        reveal(schedule::is_next);
    }
}

/// Every series is finite, bounded or not: there are no more rows than seconds from the
/// start's wall clock to [`schedule::YEAR_CAP`].
pub proof fn law_series_are_finite(scan: Scan, rows: Seq<Row>)
    requires
        scan.yields(rows),
        rows.len() > 0,
    ensures
        (rows.len() - 1) * calendar::MICROS_PER_SECOND < calendar::year_start(
            schedule::YEAR_CAP as int,
        ) - zone::wall(scan.zone, scan.cursor),
{
    law_rows_move_on(scan, rows);
    law_rows_before_the_cap(scan, rows);
    let last = rows[rows.len() - 1];
}

/// Every row's wall clock is one that the schedule names, whatever the zone's offset is then. The
/// one exception stands right behind a gap in the zone's clocks, and makes up for a wall clock in
/// a gap that the schedule names. In UTC there are no gaps.
pub proof fn law_wall_clocks_match(scan: Scan, rows: Seq<Row>)
    requires
        scan.yields(rows),
    ensures
        forall|i: int| #![trigger rows[i]]
            0 <= i < rows.len() ==> {
                let local = zone::wall(scan.zone, rows[i].fire);
                let start = schedule::search_start(
                    scan.sought_from(rows, i),
                    scan.inclusive && i == 0,
                    scan.zone,
                );
                ||| schedule::fires_at(scan.cron, local)
                ||| {
                    &&& zone::in_gap(scan.zone, local - calendar::MICROS_PER_SECOND)
                    &&& schedule::gap_hides(scan.cron, scan.zone, start, local)
                }
            },
        scan.zone is None ==> forall|i: int| #![trigger rows[i]]
            0 <= i < rows.len() ==> schedule::fires_at(scan.cron, rows[i].fire),
{
    assert forall|i: int| #![trigger rows[i]] 0 <= i < rows.len() implies {
        let local = zone::wall(scan.zone, rows[i].fire);
        let start = schedule::search_start(
            scan.sought_from(rows, i),
            scan.inclusive && i == 0,
            scan.zone,
        );
        &&& schedule::fires_at(scan.cron, local) || zone::in_gap(
            scan.zone,
            local - calendar::MICROS_PER_SECOND,
        ) && schedule::gap_hides(scan.cron, scan.zone, start, local)
        &&& scan.zone is None ==> schedule::fires_at(scan.cron, rows[i].fire)
    } by {
        lemma_row(scan, rows, i);
        lemma_named(
            scan.cron,
            scan.sought_from(rows, i),
            scan.inclusive && i == 0,
            scan.zone,
            rows[i].fire,
        );
    }
}

/// The part of [`law_wall_clocks_match`] that one lookup gives.
proof fn lemma_named(
    cron: croner::Cron,
    from: int,
    inclusive: bool,
    zone: Option<chrono_tz::Tz>,
    fire: int,
)
    requires
        schedule::is_next(cron, from, inclusive, zone, fire),
    ensures
        ({
            let local = zone::wall(zone, fire);
            let start = schedule::search_start(from, inclusive, zone);
            &&& schedule::fires_at(cron, local) || zone::in_gap(
                zone,
                local - calendar::MICROS_PER_SECOND,
            ) && schedule::gap_hides(cron, zone, start, local)
            &&& zone is None ==> schedule::fires_at(cron, fire)
        }),
{
    reveal(schedule::is_next);
    if zone is None {
        schedule::lemma_utc_clocks(fire, fire - calendar::MICROS_PER_SECOND);
    }
}

/// Noon stays noon: where none of the wall clocks that a schedule names lies in a gap of the
/// zone, every row's wall clock is one that the schedule names, whatever changes of the offset
/// lie between the rows.
pub proof fn law_times_outside_gaps_are_kept(scan: Scan, rows: Seq<Row>)
    requires
        scan.yields(rows),
        forall|t: int| #[trigger]
            schedule::fires_at(scan.cron, t) && calendar::year_start(1) <= t
                < calendar::year_start(schedule::YEAR_CAP as int) ==> !zone::in_gap(scan.zone, t),
    ensures
        forall|i: int| #![trigger rows[i]]
            0 <= i < rows.len() ==> schedule::fires_at(
                scan.cron,
                zone::wall(scan.zone, rows[i].fire),
            ),
{
    assert forall|i: int| #![trigger rows[i]] 0 <= i < rows.len() implies schedule::fires_at(
        scan.cron,
        zone::wall(scan.zone, rows[i].fire),
    ) by {
        lemma_row(scan, rows, i);
        reveal(schedule::is_next);
    }
}

/// A time of every day is kept: where no gap of the zone covers it on any day, every row's wall
/// clock shows that time, whatever changes of the offset lie between the rows; on the second
/// where the start is a whole second.
pub proof fn law_daily_rows_keep_their_time(
    scan: Scan,
    rows: Seq<Row>,
    minute: nat,
    hour: nat,
)
    requires
        scan.yields(rows),
        schedule::fires_daily(scan.cron, minute, hour),
        no_gap_covers(scan.zone, minute, hour),
    ensures
        forall|i: int| #![trigger rows[i]]
            0 <= i < rows.len() ==> {
                let local = zone::wall(scan.zone, rows[i].fire);
                &&& calendar::second_of_day(local) == hour * 3600 + minute * 60
                &&& calendar::fraction_of(scan.cursor) == 0 ==> calendar::fraction_of(local) == 0
            },
{
    law_times_outside_gaps_are_kept(scan, rows);
    assert forall|i: int| #![trigger rows[i]] 0 <= i < rows.len() implies {
        let local = zone::wall(scan.zone, rows[i].fire);
        &&& calendar::second_of_day(local) == hour * 3600 + minute * 60
        &&& calendar::fraction_of(scan.cursor) == 0 ==> calendar::fraction_of(local) == 0
    } by {
        lemma_fraction(scan, rows, i);
        let local = zone::wall(scan.zone, rows[i].fire);
        assert(schedule::fires_at(scan.cron, local));
    }
}

/// On every day before [`schedule::YEAR_CAP`] the zone's clocks show the time of day.
pub open spec fn no_gap_covers(zone: Option<chrono_tz::Tz>, minute: nat, hour: nat) -> bool {
    forall|t: int|
        calendar::year_start(1) <= t < calendar::year_start(schedule::YEAR_CAP as int)
            && calendar::second_of_day(t) == hour * 3600 + minute * 60 ==> !#[trigger] zone::in_gap(
            zone,
            t,
        )
}

/// From a whole second, the rows' wall clocks are whole seconds.
proof fn lemma_fraction(scan: Scan, rows: Seq<Row>, i: int)
    requires
        scan.yields(rows),
        0 <= i < rows.len(),
    ensures
        calendar::fraction_of(scan.cursor) == 0 ==> calendar::fraction_of(rows[i].fire) == 0
            && calendar::fraction_of(zone::wall(scan.zone, rows[i].fire)) == 0,
    decreases i,
{
    lemma_row(scan, rows, i);
    reveal(schedule::is_next);
    if i > 0 {
        lemma_fraction(scan, rows, i - 1);
    }
}

/// A lookup for a time of every day finds that time on the wall clock, whatever changes of the
/// offset lie before it, where no gap of the zone covers it on any day.
pub proof fn law_daily_lookup_keeps_its_time(
    cron: croner::Cron,
    from: int,
    inclusive: bool,
    zone: Option<chrono_tz::Tz>,
    next: Option<i64>,
    minute: nat,
    hour: nat,
)
    requires
        schedule::is_lookup(cron, from, inclusive, zone, next),
        next is Some,
        schedule::fires_daily(cron, minute, hour),
        no_gap_covers(zone, minute, hour),
    ensures
        ({
            let local = zone::wall(zone, next->Some_0 as int);
            &&& calendar::second_of_day(local) == hour * 3600 + minute * 60
            &&& calendar::fraction_of(from) == 0 ==> calendar::fraction_of(local) == 0
        }),
{
    reveal(schedule::is_next);
}

/// The rows leave nothing out: every wall clock that the schedule names, from the first one
/// that may fire up to the last row's, falls in the second of a row or in a gap, or was shown
/// before the start already. The last is so only of a start in an hour that the zone's clocks
/// show again, and in UTC there are no gaps.
pub proof fn law_nothing_is_missed(scan: Scan, rows: Seq<Row>, t: int)
    requires
        scan.yields(rows),
        rows.len() > 0,
        schedule::fires_at(scan.cron, t),
        calendar::second_of(schedule::search_start(scan.cursor, scan.inclusive, scan.zone))
            <= calendar::second_of(t) <= calendar::second_of(
            zone::wall(scan.zone, rows.last().fire),
        ),
    ensures
        in_a_row(scan, rows, t) || zone::in_gap(scan.zone, t) || zone::shown_before(
            scan.zone,
            t,
            scan.cursor,
        ),
        zone::first_shown(scan.zone, scan.cursor) ==> in_a_row(scan, rows, t) || zone::in_gap(
            scan.zone,
            t,
        ),
        scan.zone is None && calendar::representable(t) ==> in_a_row(scan, rows, t),
{
    lemma_not_missed(scan, rows, t, rows.len() - 1);
    if scan.zone is None {
        schedule::lemma_utc_clocks(scan.cursor, t);
    }
}

/// The wall clock `t` falls in the second of one of the rows.
pub open spec fn in_a_row(scan: Scan, rows: Seq<Row>, t: int) -> bool {
    exists|i: int| #![trigger rows[i]]
        0 <= i < rows.len() && calendar::second_of(zone::wall(scan.zone, rows[i].fire))
            == calendar::second_of(t)
}

/// [`law_nothing_is_missed`] up to the row at `last`.
proof fn lemma_not_missed(scan: Scan, rows: Seq<Row>, t: int, last: int)
    requires
        scan.yields(rows),
        0 <= last < rows.len(),
        schedule::fires_at(scan.cron, t),
        calendar::second_of(schedule::search_start(scan.cursor, scan.inclusive, scan.zone))
            <= calendar::second_of(t) <= calendar::second_of(
            zone::wall(scan.zone, rows[last].fire),
        ),
    ensures
        in_a_row(scan, rows, t) || zone::in_gap(scan.zone, t) || zone::shown_before(
            scan.zone,
            t,
            scan.cursor,
        ),
    decreases last,
{
    let local = zone::wall(scan.zone, rows[last].fire);
    if calendar::second_of(t) < calendar::second_of(local) {
        let from = scan.sought_from(rows, last);
        let inclusive = scan.inclusive && last == 0;
        if last > 0 && calendar::second_of(t) <= calendar::second_of(
            zone::wall(scan.zone, rows[last - 1].fire),
        ) {
            lemma_not_missed(scan, rows, t, last - 1);
        } else {
            lemma_row(scan, rows, last);
            lemma_passed_over(scan.cron, from, inclusive, scan.zone, rows[last].fire, t);
            lemma_sought_from(scan, rows, last);
        }
    }
}

/// A row is sought from the start, or from the first instant with its wall clock.
proof fn lemma_sought_from(scan: Scan, rows: Seq<Row>, i: int)
    requires
        scan.yields(rows),
        0 <= i < rows.len(),
    ensures
        scan.sought_from(rows, i) == scan.cursor || zone::first_shown(
            scan.zone,
            scan.sought_from(rows, i),
        ),
{
    if i > 0 {
        lemma_row(scan, rows, i - 1);
        reveal(schedule::is_next);
    }
}

/// The part of [`law_nothing_is_missed`] that one lookup gives.
proof fn lemma_passed_over(
    cron: croner::Cron,
    from: int,
    inclusive: bool,
    zone: Option<chrono_tz::Tz>,
    fire: int,
    t: int,
)
    requires
        schedule::is_next(cron, from, inclusive, zone, fire),
        schedule::fires_at(cron, t),
        calendar::second_of(schedule::search_start(from, inclusive, zone)) <= calendar::second_of(
            t,
        ) < calendar::second_of(zone::wall(zone, fire)),
    ensures
        zone::in_gap(zone, t) || zone::shown_before(zone, t, from),
{
    reveal(schedule::is_next);
}

/// The rows make up for every fixed time that a gap of at most two hours hides, from the first
/// wall clock that may fire up to the last row's: one of them has a wall clock from the hidden
/// time to the end of the gap, if that is on a day that the schedule names. The start must not be
/// in an hour that the zone's clocks show again.
pub proof fn law_hidden_times_have_rows(scan: Scan, rows: Seq<Row>, t: int, end: int)
    requires
        scan.yields(rows),
        rows.len() > 0,
        zone::first_shown(scan.zone, scan.cursor),
        schedule::owes(scan.cron, scan.zone, t, end),
        calendar::second_of(schedule::search_start(scan.cursor, scan.inclusive, scan.zone))
            <= calendar::second_of(t) <= calendar::second_of(
            zone::wall(scan.zone, rows.last().fire),
        ),
    ensures
        exists|i: int| #![trigger rows[i]]
            0 <= i < rows.len() && calendar::second_of(t) <= calendar::second_of(
                zone::wall(scan.zone, rows[i].fire),
            ) <= calendar::second_of(end),
{
    lemma_made_up(scan, rows, t, end, rows.len() - 1);
}

/// [`law_hidden_times_have_rows`] up to the row at `last`.
proof fn lemma_made_up(scan: Scan, rows: Seq<Row>, t: int, end: int, last: int)
    requires
        scan.yields(rows),
        0 <= last < rows.len(),
        zone::first_shown(scan.zone, scan.cursor),
        schedule::owes(scan.cron, scan.zone, t, end),
        calendar::second_of(schedule::search_start(scan.cursor, scan.inclusive, scan.zone))
            <= calendar::second_of(t) <= calendar::second_of(
            zone::wall(scan.zone, rows[last].fire),
        ),
    ensures
        exists|i: int| #![trigger rows[i]]
            0 <= i < rows.len() && calendar::second_of(t) <= calendar::second_of(
                zone::wall(scan.zone, rows[i].fire),
            ) <= calendar::second_of(end),
    decreases last,
{
    if last > 0 && calendar::second_of(t) <= calendar::second_of(
        zone::wall(scan.zone, rows[last - 1].fire),
    ) {
        lemma_made_up(scan, rows, t, end, last - 1);
    } else {
        lemma_row(scan, rows, last);
        lemma_sought_from(scan, rows, last);
        lemma_not_behind(
            scan.cron,
            scan.sought_from(rows, last),
            scan.inclusive && last == 0,
            scan.zone,
            rows[last].fire,
            t,
            end,
        );
    }
}

/// The part of [`law_hidden_times_have_rows`] that one lookup gives.
proof fn lemma_not_behind(
    cron: croner::Cron,
    from: int,
    inclusive: bool,
    zone: Option<chrono_tz::Tz>,
    fire: int,
    t: int,
    end: int,
)
    requires
        schedule::is_next(cron, from, inclusive, zone, fire),
        schedule::owes(cron, zone, t, end),
        calendar::second_of(schedule::search_start(from, inclusive, zone)) <= calendar::second_of(
            t,
        ),
    ensures
        calendar::second_of(zone::wall(zone, fire)) <= calendar::second_of(end)
            || zone::shown_between(zone, t, end, from),
{
    reveal(schedule::is_next);
}

/// A fixed time that a gap hides is made up for: where an expression states the time of day as
/// numbers, and a wall clock `t` that the schedule names, not before the start of a lookup, lies
/// in a gap that ends at the wall clock `end`, two hours later at most and on a day that the
/// schedule names, what the lookup finds is not behind the second of `end`. So it is found at
/// all, unless it would be in [`schedule::YEAR_CAP`], or a gap of more than two hours comes
/// first. The start must not be in an hour that the zone's clocks show again.
pub proof fn law_hidden_time_is_made_up(
    expr: Seq<char>,
    second: nat,
    minute: nat,
    hour: nat,
    cron: croner::Cron,
    from: int,
    inclusive: bool,
    zone: Option<chrono_tz::Tz>,
    next: Option<i64>,
    t: int,
    end: int,
)
    requires
        schedule::parsed(schedule::SecondsField::Optional, expr) == Ok::<
            croner::Cron,
            croner::errors::CronError,
        >(cron),
        schedule::states_time(expr, second, minute, hour),
        second < 60,
        minute < 60,
        hour < 24,
        schedule::is_lookup(cron, from, inclusive, zone, next),
        calendar::representable(from),
        zone::first_shown(zone, from),
        schedule::fires_at(cron, t),
        calendar::second_of(zone::wall(zone, from)) + if inclusive {
            0int
        } else {
            1int
        } <= calendar::second_of(t),
        t < end <= t + 7_200_000_000,
        forall|u: int| t <= u < end ==> #[trigger] zone::in_gap(zone, u),
        !zone::in_gap(zone, end),
        schedule::names_day(cron, end),
    ensures
        next matches Some(fire) ==> calendar::second_of(zone::wall(zone, fire as int))
            <= calendar::second_of(end),
        next is None ==> end >= calendar::year_start(4096) || exists|local: int| #[trigger]
            zone::is_long_gap(zone, local) && zone::wall(zone, from) <= local <= end,
{
    assert(schedule::has_fixed_time(cron));
    assert(schedule::owes(cron, zone, t, end));
    if let Some(fire) = next {
        lemma_not_behind(cron, from, inclusive, zone, fire as int, t, end);
    } else {
        reveal(schedule::is_end);
    }
}

/// A minute and an hour as numbers, before three stars, state the time of day.
pub proof fn law_daily_text_states_its_time(minute: nat, hour: nat)
    ensures
        schedule::states_time(schedule::daily_text(minute, hour), 0, minute, hour),
{
    reveal_strlit(" ");
    reveal_strlit("*");
    reveal_strlit(" * * *");
    assert(schedule::is_field("*"@));
    assert(schedule::daily_text(minute, hour) =~= schedule::time_text(
        minute,
        hour,
        "*"@,
        "*"@,
        "*"@,
    ));
}

/// In UTC a lookup is the search itself, up to [`schedule::YEAR_CAP`].
pub proof fn law_utc_lookup_is_the_search(
    cron: croner::Cron,
    from: int,
    inclusive: bool,
    next: Option<i64>,
)
    requires
        schedule::is_lookup(cron, from, inclusive, None, next),
        calendar::representable(from),
    ensures
        match next {
            Some(fire) => {
                &&& schedule::found(cron, from, inclusive, None) == Some(fire as int)
                &&& fire < calendar::year_start(4096)
            },
            None => schedule::found(cron, from, inclusive, None) matches Some(fire) ==> fire
                >= calendar::year_start(4096),
        },
{
    reveal(schedule::hands_on);
}

/// In a zone a lookup hands on what the search finds. It does so wherever that is not before the
/// start, lies before [`schedule::YEAR_CAP`], and the schedule names some wall clock `t` from the
/// start of the search up to there, be it the one that is found or one that a gap hides. Only a
/// start that may fire, and whose wall clock the schedule names, comes before it.
pub proof fn law_search_is_handed_on(
    cron: croner::Cron,
    from: int,
    inclusive: bool,
    zone: Option<chrono_tz::Tz>,
    next: Option<i64>,
    found: int,
    t: int,
)
    requires
        schedule::is_lookup(cron, from, inclusive, zone, next),
        calendar::representable(from),
        schedule::found(cron, from, inclusive, zone) == Some(found),
        from <= found,
        !inclusive ==> from < found,
        zone::wall(zone, found) < calendar::year_start(4096),
        schedule::fires_at(cron, t),
        calendar::second_of(zone::wall(zone, from)) + if inclusive {
            0int
        } else {
            1int
        } <= calendar::second_of(t) <= calendar::second_of(zone::wall(zone, found)),
    ensures
        next is Some,
        inclusive && schedule::fires_at(cron, zone::wall(zone, from)) && zone::wall(zone, from)
            < calendar::year_start(4096) ==> next->Some_0 == from,
        !(inclusive && schedule::fires_at(cron, zone::wall(zone, from)) && zone::wall(zone, from)
            < calendar::year_start(4096)) ==> next->Some_0 == found,
{
    reveal(schedule::hands_on);
    let local = zone::wall(zone, found);
}

/// A lookup finds nothing only where there is nothing to find, in every zone. Each wall clock `t`
/// that the schedule names, from the start on and before [`schedule::YEAR_CAP`], lies in a gap or
/// was shown before the start in an hour that is shown again. The one other ground is a gap of
/// more than two hours, not behind `t`, and then all that the schedule names is one time of day.
pub proof fn law_nothing_found_in_a_zone(
    cron: croner::Cron,
    from: int,
    inclusive: bool,
    zone: Option<chrono_tz::Tz>,
    next: Option<i64>,
    t: int,
)
    requires
        schedule::is_lookup(cron, from, inclusive, zone, next),
        next is None,
        calendar::representable(from),
        schedule::fires_at(cron, t),
        calendar::second_of(zone::wall(zone, from)) + if inclusive {
            0int
        } else {
            1int
        } <= calendar::second_of(t),
        t < calendar::year_start(4096),
    ensures
        ({
            ||| zone::in_gap(zone, t)
            ||| !zone::first_shown(zone, from) && exists|shown: int|
                calendar::representable(shown) && shown < from && calendar::second_of(
                    #[trigger] zone::wall(zone, shown),
                ) == calendar::second_of(t)
            ||| {
                &&& forall|a: int, b: int| #[trigger]
                    schedule::fires_at(cron, a) && #[trigger] schedule::fires_at(cron, b)
                        ==> calendar::second_of_day(a) == calendar::second_of_day(b)
                &&& exists|local: int| #[trigger]
                    zone::is_long_gap(zone, local) && zone::wall(zone, from) <= local <= t
            }
        }),
{
    reveal(schedule::is_end);
}

/// Where a scan stands behind its rows.
pub proof fn lemma_behind_rows(scan: Scan, limit: nat)
    ensures
        ({
            let rows = scan.rows(limit);
            let there = scan.advanced(limit);
            &&& rows.len() == 0 ==> there == scan
            &&& rows.len() > 0 ==> there.cursor == rows.last().fire && !there.inclusive
            &&& there.seq == scan.seq + rows.len()
            &&& there.remaining == match scan.remaining {
                Some(left) => Some(left - rows.len()),
                None => None,
            }
            &&& there.cron == scan.cron
            &&& there.zone == scan.zone
            &&& there.until == scan.until
            &&& there.with_tz == scan.with_tz
            &&& there.done == scan.done
        }),
    decreases limit,
{
    if limit > 0 {
        if let Some(fire) = scan.next() {
            lemma_behind_rows(scan.after(fire), (limit - 1) as nat);
        }
    }
}

/// A start whose wall clock the schedule names fires, and fires once, in every zone: it is the
/// first row and no other.
pub proof fn law_matching_start_fires_once(scan: Scan, limit: nat)
    requires
        scan.looked_up(limit),
        limit > 0,
        scan.inclusive,
        !scan.done,
        scan.remaining != Some(0int),
        scan.until matches Some(bound) ==> scan.cursor < bound,
        calendar::representable(scan.cursor),
        schedule::fires_at(scan.cron, zone::wall(scan.zone, scan.cursor)),
        zone::wall(scan.zone, scan.cursor) < calendar::year_start(4096),
    ensures
        scan.rows(limit).len() > 0,
        scan.rows(limit)[0].fire == scan.cursor,
        forall|i: int| #![trigger scan.rows(limit)[i]]
            0 < i < scan.rows(limit).len() ==> scan.rows(limit)[i].fire > scan.cursor,
{
    law_lookups_give_rows(scan, limit);
    law_rows_increase(scan, scan.rows(limit));
    let first = scan.rows(limit)[0];
}

/// A start whose wall clock the schedule does not name does not fire, in any zone: the first row
/// is strictly after it.
pub proof fn law_other_start_does_not_fire(scan: Scan, rows: Seq<Row>)
    requires
        scan.yields(rows),
        rows.len() > 0,
        !schedule::fires_at(scan.cron, zone::wall(scan.zone, scan.cursor)),
    ensures
        rows[0].fire > scan.cursor,
{
    lemma_row(scan, rows, 0);
    reveal(schedule::is_next);
}

/// The first row fires at the next fire time from the start, and each later row at the next fire
/// time from the row before it.
pub proof fn law_rows_are_next_fires(scan: Scan, limit: nat)
    ensures
        forall|i: int| #![trigger scan.rows(limit)[i]]
            0 <= i < scan.rows(limit).len() ==> schedule::next_of(
                scan.cron,
                scan.sought_from(scan.rows(limit), i),
                scan.inclusive && i == 0,
                scan.zone,
            ) == Some(scan.rows(limit)[i].fire),
    decreases limit,
{
    if limit > 0 {
        if let Some(fire) = scan.next() {
            let further = scan.after(fire);
            let rest = further.rows((limit - 1) as nat);
            let rows = scan.rows(limit);
            law_rows_are_next_fires(further, (limit - 1) as nat);
            assert forall|i: int| #![trigger rows[i]]
                0 <= i < rows.len() implies schedule::next_of(
                scan.cron,
                scan.sought_from(rows, i),
                scan.inclusive && i == 0,
                scan.zone,
            ) == Some(rows[i].fire) by {
                if i > 0 {
                    assert(rows[i] == rest[i - 1]);
                    assert(scan.sought_from(rows, i) == further.sought_from(rest, i - 1));
                }
            }
        }
    }
}

/// The rows whose lookups are sound follow one another.
pub proof fn law_lookups_give_rows(scan: Scan, limit: nat)
    requires
        scan.looked_up(limit),
    ensures
        scan.yields(scan.rows(limit)),
    decreases limit,
{
    let rows = scan.rows(limit);
    reveal(Scan::yields);
    if limit > 0 {
        if let Some(fire) = scan.next() {
            let further = scan.after(fire);
            let rest = further.rows((limit - 1) as nat);
            law_lookups_give_rows(further, (limit - 1) as nat);
            assert forall|i: int| #![trigger rows[i]]
                0 <= i < rows.len() implies schedule::is_next(
                scan.cron,
                scan.sought_from(rows, i),
                scan.inclusive && i == 0,
                scan.zone,
                rows[i].fire,
            ) by {
                if i > 0 {
                    assert(rows[i] == rest[i - 1]);
                    assert(scan.sought_from(rows, i) == further.sought_from(rest, i - 1));
                }
            }
        }
    }
}

/// A series that neither a count nor a bound has ended ends where the schedule does: from the
/// last row on there is no next fire time. Only a schedule with one time of day may end sooner, at
/// the first gap of more than two hours that it comes to.
pub proof fn law_series_run_to_the_end(scan: Scan, limit: nat)
    requires
        scan.looked_up(limit),
        !scan.done,
        scan.remaining is None,
        scan.until is None,
        scan.rows(limit).len() < limit,
    ensures
        ({
            let there = scan.advanced(limit);
            schedule::is_end(there.cron, there.cursor, there.inclusive, there.zone)
        }),
    decreases limit,
{
    if let Some(fire) = scan.next() {
        law_series_run_to_the_end(scan.after(fire), (limit - 1) as nat);
    }
}

/// A lookup that finds nothing has nothing to find before [`schedule::YEAR_CAP`], in every zone,
/// where the schedule has more than one time of day: what it names lies in a gap, or was shown
/// before the start.
pub proof fn law_several_times_of_day_do_not_end_early(
    cron: croner::Cron,
    from: int,
    inclusive: bool,
    zone: Option<chrono_tz::Tz>,
    next: Option<i64>,
    t: int,
)
    requires
        schedule::is_lookup(cron, from, inclusive, zone, next),
        next is None,
        calendar::representable(from),
        !schedule::one_time_of_day(cron),
        schedule::fires_at(cron, t),
        calendar::second_of(schedule::search_start(from, inclusive, zone)) <= calendar::second_of(
            t,
        ),
        t < calendar::year_start(schedule::YEAR_CAP as int),
    ensures
        zone::in_gap(zone, t) || zone::shown_before(zone, t, from),
{
    reveal(schedule::is_end);
}

/// A lookup that may stay where it starts stays exactly when the schedule names the wall clock
/// of the start, before [`schedule::YEAR_CAP`].
pub proof fn law_inclusive_lookup_stays(
    cron: croner::Cron,
    from: i64,
    zone: Option<chrono_tz::Tz>,
    next: Option<i64>,
)
    requires
        schedule::is_lookup(cron, from as int, true, zone, next),
        calendar::representable(from as int),
    ensures
        next == Some(from) <==> schedule::fires_at(cron, zone::wall(zone, from as int))
            && zone::wall(zone, from as int) < calendar::year_start(4096),
{
    reveal(schedule::is_next);
}

/// Between its start and what it finds a lookup leaves nothing out: in the seconds that it
/// passes over, every wall clock that the schedule names lies in a gap or was shown before the
/// start, and in UTC there is none.
pub proof fn law_lookup_misses_nothing(
    cron: croner::Cron,
    from: int,
    inclusive: bool,
    zone: Option<chrono_tz::Tz>,
    next: Option<i64>,
    t: int,
)
    requires
        schedule::is_lookup(cron, from, inclusive, zone, next),
        next is Some,
        schedule::fires_at(cron, t),
        calendar::second_of(zone::wall(zone, from)) + if inclusive {
            0int
        } else {
            1int
        } <= calendar::second_of(t) < calendar::second_of(
            zone::wall(zone, next->Some_0 as int),
        ),
    ensures
        zone::in_gap(zone, t) || exists|shown: int|
            calendar::representable(shown) && shown < from && calendar::second_of(
                #[trigger] zone::wall(zone, shown),
            ) == calendar::second_of(t),
        zone::first_shown(zone, from) ==> zone::in_gap(zone, t),
        zone is None ==> !calendar::representable(t),
{
    lemma_passed_over(cron, from, inclusive, zone, next->Some_0 as int, t);
    if zone is None {
        schedule::lemma_utc_clocks(from, t);
    }
}

/// A lookup in UTC that finds nothing has nothing to find: the schedule names no time from its
/// start up to [`schedule::YEAR_CAP`].
pub proof fn law_nothing_found_means_none(
    cron: croner::Cron,
    from: int,
    inclusive: bool,
    next: Option<i64>,
    t: int,
)
    requires
        schedule::is_lookup(cron, from, inclusive, None, next),
        next is None,
        calendar::representable(from),
        calendar::second_of(schedule::search_start(from, inclusive, None)) <= calendar::second_of(
            t,
        ),
        t < calendar::year_start(schedule::YEAR_CAP as int),
    ensures
        !schedule::fires_at(cron, t),
{
    lemma_none(cron, from, inclusive, t);
}

/// [`law_nothing_found_means_none`], of the next fire time itself.
proof fn lemma_none(cron: croner::Cron, from: int, inclusive: bool, t: int)
    requires
        schedule::is_sound(cron, from, inclusive, None),
        schedule::next_of(cron, from, inclusive, None) is None,
        calendar::representable(from),
        calendar::second_of(schedule::search_start(from, inclusive, None)) <= calendar::second_of(
            t,
        ),
        t < calendar::year_start(schedule::YEAR_CAP as int),
    ensures
        !schedule::fires_at(cron, t),
{
    reveal(schedule::is_end);
    assert(calendar::year_start(-262143) % 1_000_000 == 0);
    schedule::lemma_utc_clocks(from, t);
}

/// What a lookup finds, in every zone. It is not before the start, and strictly later where the
/// start may not fire. Its wall clock lies before year 4096, and is one that the schedule names;
/// or it stands right behind a gap, and between the start of the lookup and there the schedule
/// names a wall clock in a gap. The zone's clocks have not shown it before, unless it is the start
/// itself. It keeps the start's fraction of a second, or drops it.
pub proof fn law_found_time(
    cron: croner::Cron,
    from: int,
    inclusive: bool,
    zone: Option<chrono_tz::Tz>,
    next: Option<i64>,
)
    requires
        schedule::is_lookup(cron, from, inclusive, zone, next),
        next is Some,
    ensures
        ({
            let fire = next->Some_0 as int;
            let here = zone::wall(zone, from);
            let local = zone::wall(zone, fire);
            let step = if inclusive {
                0int
            } else {
                1_000_000int
            };
            &&& from <= fire
            &&& !inclusive ==> from < fire
            &&& here + step <= local
            &&& calendar::year_start(1) <= local < calendar::year_start(4096)
            &&& !schedule::fires_at(cron, local) ==> {
                &&& zone::in_gap(zone, local - 1_000_000)
                &&& exists|t: int| #[trigger]
                    schedule::fires_at(cron, t) && here + step <= t < local && zone::in_gap(zone, t)
            }
            &&& fire != from ==> forall|other: int|
                calendar::representable(other) && #[trigger] zone::wall(zone, other) == local
                    ==> fire <= other
            &&& fire % 1_000_000 == from % 1_000_000 || fire % 1_000_000 == 0
        }),
{
    reveal(schedule::is_next);
}

/// A lookup that may not stay where it starts is strictly later, in every zone, and moves the
/// wall clock on by a second or more.
pub proof fn law_exclusive_lookup_moves_on(
    cron: croner::Cron,
    from: int,
    zone: Option<chrono_tz::Tz>,
    next: Option<i64>,
)
    requires
        schedule::is_lookup(cron, from, false, zone, next),
        next is Some,
    ensures
        zone::wall(zone, from) + calendar::MICROS_PER_SECOND <= zone::wall(
            zone,
            next->Some_0 as int,
        ),
        next->Some_0 > from,
{
    reveal(schedule::is_next);
}

/// From a whole second, a lookup in UTC finds the earliest fire time: it fires, on a whole
/// second before [`schedule::YEAR_CAP`], it is not before the start, and no whole second between
/// the two fires.
pub proof fn law_lookup_is_earliest(
    cron: croner::Cron,
    from: int,
    inclusive: bool,
    next: Option<i64>,
)
    requires
        schedule::is_lookup(cron, from, inclusive, None, next),
        next is Some,
        calendar::fraction_of(from) == 0,
    ensures
        ({
            let fire = next->Some_0 as int;
            &&& calendar::fraction_of(fire) == 0
            &&& from <= fire
            &&& !inclusive ==> from < fire
            &&& schedule::fires_at(cron, fire)
            &&& schedule::next_of(cron, fire, true, None) == Some(fire)
            &&& fire < calendar::year_start(schedule::YEAR_CAP as int)
            &&& forall|t: int|
                calendar::fraction_of(t) == 0 && from <= t < fire && (!inclusive ==> from < t)
                    ==> !#[trigger] schedule::fires_at(cron, t)
        }),
{
    let fire = next->Some_0 as int;
    lemma_earliest(cron, from, inclusive, fire);
}

/// [`law_lookup_is_earliest`], of the next fire time itself.
proof fn lemma_earliest(cron: croner::Cron, from: int, inclusive: bool, fire: int)
    requires
        schedule::is_next(cron, from, inclusive, None, fire),
        schedule::next_of(cron, from, inclusive, None) == Some(fire),
        calendar::fraction_of(from) == 0,
    ensures
        calendar::fraction_of(fire) == 0,
        from <= fire,
        !inclusive ==> from + calendar::MICROS_PER_SECOND <= fire,
        schedule::fires_at(cron, fire),
        schedule::next_of(cron, fire, true, None) == Some(fire),
        fire < calendar::year_start(schedule::YEAR_CAP as int),
        forall|t: int|
            calendar::fraction_of(t) == 0 && from <= t < fire && (!inclusive ==> from < t)
                ==> !#[trigger] schedule::fires_at(cron, t),
{
    lemma_named(cron, from, inclusive, None, fire);
    reveal(schedule::is_next);
    assert forall|t: int|
        calendar::fraction_of(t) == 0 && from <= t < fire && (!inclusive ==> from
            < t) implies !#[trigger] schedule::fires_at(cron, t) by {
        schedule::lemma_utc_clocks(from, t);
    }
}

/// From a whole second, a lookup in UTC that may not stay is the lookup that may, a second
/// later.
pub proof fn law_exclusive_is_a_second_later(
    cron: croner::Cron,
    from: int,
    next: Option<i64>,
    later: Option<i64>,
)
    requires
        schedule::is_lookup(cron, from, false, None, next),
        schedule::is_lookup(cron, from + calendar::MICROS_PER_SECOND, true, None, later),
        calendar::representable(from),
        calendar::representable(from + calendar::MICROS_PER_SECOND),
        calendar::fraction_of(from) == 0,
    ensures
        next == later,
{
    lemma_same(cron, from, false, from + calendar::MICROS_PER_SECOND, true);
}

/// From a whole second, whether a lookup in UTC may stay matters only where the start itself
/// fires; and where it may not stay, it does not.
pub proof fn law_staying_matters_on_a_match_only(
    cron: croner::Cron,
    from: i64,
    staying: Option<i64>,
    moving: Option<i64>,
)
    requires
        schedule::is_lookup(cron, from as int, true, None, staying),
        schedule::is_lookup(cron, from as int, false, None, moving),
        calendar::representable(from as int),
        calendar::fraction_of(from as int) == 0,
    ensures
        staying == Some(from) || staying == moving,
        moving != Some(from),
{
    reveal(schedule::is_next);
    if staying != Some(from) {
        lemma_same(cron, from as int, true, from as int, false);
    }
}

/// Lookups in UTC from whole seconds keep the order of their starts, and a start between another
/// and what it finds finds the same.
pub proof fn law_lookups_keep_order(
    cron: croner::Cron,
    from: int,
    other: int,
    inclusive: bool,
    next: Option<i64>,
    further: Option<i64>,
)
    requires
        schedule::is_lookup(cron, from, inclusive, None, next),
        schedule::is_lookup(cron, other, inclusive, None, further),
        from <= other,
        calendar::fraction_of(from) == 0,
        calendar::fraction_of(other) == 0,
        next is Some,
        further is Some,
    ensures
        next->Some_0 <= further->Some_0,
        other < next->Some_0 ==> further == next,
{
    lemma_earliest(cron, from, inclusive, next->Some_0 as int);
    lemma_earliest(cron, other, inclusive, further->Some_0 as int);
}

/// Two lookups in UTC from whole seconds find the same where they seek from the same second on,
/// but for a start that does not fire.
proof fn lemma_same(cron: croner::Cron, from: int, inclusive: bool, other: int, may_stay: bool)
    requires
        schedule::is_sound(cron, from, inclusive, None),
        schedule::is_sound(cron, other, may_stay, None),
        calendar::representable(from),
        calendar::representable(other),
        calendar::fraction_of(from) == 0,
        calendar::fraction_of(other) == 0,
        ({
            let a = schedule::search_start(from, inclusive, None);
            let b = schedule::search_start(other, may_stay, None);
            a == b || a == from && b == from + calendar::MICROS_PER_SECOND
                && schedule::next_of(cron, from, true, None) != Some(from)
        }),
    ensures
        schedule::next_of(cron, from, inclusive, None) == schedule::next_of(
            cron,
            other,
            may_stay,
            None,
        ),
{
    let a = schedule::next_of(cron, from, inclusive, None);
    let b = schedule::next_of(cron, other, may_stay, None);
    if let Some(fire) = a {
        lemma_earliest(cron, from, inclusive, fire);
        if b is None {
            lemma_none(cron, other, may_stay, fire);
        }
    }
    if let Some(fire) = b {
        lemma_earliest(cron, other, may_stay, fire);
        if a is None {
            lemma_none(cron, from, inclusive, fire);
        }
    }
}

/// A zone whose clocks are always as much ahead of UTC fires as UTC does, by its wall clock: what
/// is found is what a lookup in UTC finds from the wall clock of the start, moved back to the
/// instant.
pub proof fn law_constant_offset_shifts(
    cron: croner::Cron,
    from: int,
    inclusive: bool,
    zone: Option<chrono_tz::Tz>,
    ahead: int,
    next: Option<i64>,
    shifted: Option<i64>,
)
    requires
        zone::always_ahead(zone, ahead),
        calendar::representable(from),
        schedule::is_lookup(cron, from, inclusive, zone, next),
        schedule::is_lookup(
            cron,
            from + ahead * calendar::MICROS_PER_SECOND,
            inclusive,
            None,
            shifted,
        ),
    ensures
        next is Some <==> shifted is Some,
        next is Some ==> next->Some_0 + ahead * calendar::MICROS_PER_SECOND == shifted->Some_0,
{
    reveal(schedule::is_shifted);
}

/// Firing in a zone that is UTC is firing without a zone.
pub proof fn law_utc_zone_is_no_zone(
    cron: croner::Cron,
    from: int,
    inclusive: bool,
    zone: Option<chrono_tz::Tz>,
    next: Option<i64>,
    plain: Option<i64>,
)
    requires
        zone::always_ahead(zone, 0),
        schedule::is_lookup(cron, from, inclusive, zone, next),
        schedule::is_lookup(cron, from, inclusive, None, plain),
    ensures
        next == plain,
{
    lemma_utc_zone(cron, from, inclusive, zone);
}

/// [`law_utc_zone_is_no_zone`], of the next fire time itself.
proof fn lemma_utc_zone(
    cron: croner::Cron,
    from: int,
    inclusive: bool,
    zone: Option<chrono_tz::Tz>,
)
    requires
        zone::always_ahead(zone, 0),
        schedule::is_shifted(cron, from, inclusive, zone),
    ensures
        schedule::next_of(cron, from, inclusive, zone) == schedule::next_of(
            cron,
            from,
            inclusive,
            None,
        ),
{
    reveal(schedule::is_shifted);
}

/// The rows of a scan in a zone that is UTC are those of the scan without a zone.
pub proof fn law_utc_scan_is_no_zone_scan(scan: Scan, limit: nat)
    requires
        zone::always_ahead(scan.zone, 0),
        scan.looked_up(limit),
    ensures
        scan.rows(limit) == (Scan { zone: None, ..scan }).rows(limit),
    decreases limit,
{
    let plain = Scan { zone: None, ..scan };
    if limit > 0 && !scan.done && scan.remaining != Some(0int) {
        lemma_utc_zone(scan.cron, scan.cursor, scan.inclusive, scan.zone);
        if let Some(fire) = scan.next() {
            assert(plain.after(fire) == (Scan { zone: None, ..scan.after(fire) }));
            law_utc_scan_is_no_zone_scan(scan.after(fire), (limit - 1) as nat);
        }
    }
}

/// An upper bound leaves no earlier fire time out: of the series without the bound, the
/// bounded one has every row that fires before it.
pub proof fn law_bound_is_complete(scan: Scan, bound: int, limit: nat, i: int)
    requires
        ({
            let plain = Scan { until: None, ..scan };
            &&& plain.yields(plain.rows(limit))
            &&& 0 <= i < plain.rows(limit).len()
            &&& plain.rows(limit)[i].fire < bound
        }),
    ensures
        ({
            let plain = (Scan { until: None, ..scan }).rows(limit);
            let bounded = (Scan { until: Some(bound), ..scan }).rows(limit);
            &&& i < bounded.len()
            &&& bounded[i] == plain[i]
        }),
{
    let plain = Scan { until: None, ..scan };
    let bounded = (Scan { until: Some(bound), ..scan }).rows(limit);
    law_bound_cuts(scan, bound, limit);
    if i >= bounded.len() {
        law_rows_increase(plain, plain.rows(limit));
        let cut = plain.rows(limit)[bounded.len() as int];
    } else {
        assert(bounded[i] == plain.rows(limit).take(bounded.len() as int)[i]);
    }
}

/// Where the lookups of every batch are sound, so are those of the whole series.
pub proof fn law_batches_follow_on(scan: Scan, count: nat)
    requires
        forall|k: nat| #![trigger scan.after_batches(k)]
            k < count ==> scan.after_batches(k).looked_up(scan.after_batches(k).batch_size),
    ensures
        scan.looked_up(scan.room(count)),
        scan.yields(scan.batches(count)),
    decreases count,
{
    law_batches_are_the_series(scan, count);
    if count > 0 {
        let before = (count - 1) as nat;
        let here = scan.after_batches(before);
        let whole = scan.advanced(scan.room(before));
        let size = here.batch_size;
        law_batches_follow_on(scan, before);
        law_batches_are_the_series(scan, before);
        assert(here.looked_up(size));
        if scan.done {
        } else if here.done {
            lemma_done_is_short(scan, before);
            lemma_ended_is_looked_up(scan, scan.room(before), scan.room(count));
        } else {
            lemma_done_stays(scan, scan.room(before));
            assert(here == (Scan { batch_size: size, ..whole }));
            lemma_size_is_not_looked_up(whole, size, size);
            lemma_looked_up_splits(scan, scan.room(before), size);
        }
    }
    law_lookups_give_rows(scan, scan.room(count));
}

/// A scan that its batches have ended has had room for more rows than there are.
proof fn lemma_done_is_short(scan: Scan, count: nat)
    requires
        !scan.done,
        scan.after_batches(count).done,
    ensures
        scan.batches(count).len() < scan.room(count),
    decreases count,
{
    let before = (count - 1) as nat;
    let here = scan.after_batches(before);
    law_short_means_ended(here, here.batch_size);
    if here.done {
        lemma_done_is_short(scan, before);
    } else {
        law_batches_are_the_series(scan, before);
        law_short_means_ended(scan, scan.room(before));
    }
}

/// Where the lookups came to the end, there are no more.
proof fn lemma_ended_is_looked_up(scan: Scan, limit: nat, more: nat)
    requires
        scan.looked_up(limit),
        scan.rows(limit).len() < limit,
    ensures
        scan.looked_up(more),
    decreases limit,
{
    if more > 0 {
        if let Some(fire) = scan.next() {
            lemma_ended_is_looked_up(scan.after(fire), (limit - 1) as nat, (more - 1) as nat);
        }
    }
}

/// Lookups do not depend on the size of a batch.
proof fn lemma_size_is_not_looked_up(scan: Scan, size: nat, limit: nat)
    requires
        (Scan { batch_size: size, ..scan }).looked_up(limit),
    ensures
        scan.looked_up(limit),
    decreases limit,
{
    let other = Scan { batch_size: size, ..scan };
    if limit > 0 {
        if let Some(fire) = scan.next() {
            assert(other.after(fire) == (Scan { batch_size: size, ..scan.after(fire) }));
            lemma_size_is_not_looked_up(scan.after(fire), size, (limit - 1) as nat);
        }
    }
}

/// Lookups in two goes.
proof fn lemma_looked_up_splits(scan: Scan, first: nat, second: nat)
    requires
        scan.looked_up(first),
        scan.advanced(first).looked_up(second),
    ensures
        scan.looked_up(first + second),
    decreases first,
{
    if first > 0 {
        if let Some(fire) = scan.next() {
            lemma_looked_up_splits(scan.after(fire), (first - 1) as nat, second);
        }
    }
}

/// A call that is accepted starts at row zero, may fire at its start, and starts a
/// well-formed scan.
pub proof fn law_calls_start_well_formed(args: Arguments, time_zone: Option<String>)
    requires
        function::scan_meaning(args, time_zone) is Ok,
    ensures
        ({
            let scan = function::scan_meaning(args, time_zone)->Ok_0;
            &&& scan.wf()
            &&& scan.seq == 0
            &&& scan.inclusive
            &&& !scan.done
            &&& scan.batch_size == MIN_BATCH
        }),
{
}

/// A naive start ignores the session's zone entirely, and fires in UTC.
pub proof fn law_naive_start_ignores_the_zone(
    args: Arguments,
    time_zone: Option<String>,
    other: Option<String>,
)
    requires
        arguments::start_zoned(args.start) == Ok::<bool, Seq<char>>(false),
    ensures
        function::scan_meaning(args, time_zone) == function::scan_meaning(args, other),
        function::scan_meaning(args, time_zone) matches Ok(scan) ==> scan.zone is None
            && !scan.with_tz,
{
}

/// A start with a zone fires in the session's zone; without a setting, or with one that names
/// no IANA zone, it fires in UTC.
pub proof fn law_zoned_start_goes_by_the_session(args: Arguments, time_zone: Option<String>)
    requires
        arguments::start_zoned(args.start) == Ok::<bool, Seq<char>>(true),
        function::scan_meaning(args, time_zone) is Ok,
    ensures
        ({
            let scan = function::scan_meaning(args, time_zone)->Ok_0;
            &&& scan.with_tz
            &&& time_zone matches Some(name) ==> scan.zone == zone::zone_named(name@)
            &&& time_zone is None ==> scan.zone is None
        }),
{
}

/// Without a setting, or with one that names no IANA zone, a call gives the rows that it gives
/// under the setting UTC.
pub proof fn law_no_session_zone_is_utc(
    args: Arguments,
    time_zone: Option<String>,
    utc: Option<String>,
    limit: nat,
)
    requires
        time_zone matches Some(name) ==> zone::zone_named(name@) is None,
        utc matches Some(name) ==> zone::always_ahead(zone::zone_named(name@), 0),
        function::scan_meaning(args, utc) matches Ok(scan) ==> scan.looked_up(limit),
    ensures
        match (function::scan_meaning(args, time_zone), function::scan_meaning(args, utc)) {
            (Ok(plain), Ok(scan)) => plain.rows(limit) == scan.rows(limit),
            (Err(message), Err(other)) => message == other,
            _ => false,
        },
{
    if let Ok(scan) = function::scan_meaning(args, utc) {
        let plain = function::scan_meaning(args, time_zone)->Ok_0;
        assert(plain == (Scan { zone: None, ..scan }));
        if scan.zone is Some {
            law_utc_scan_is_no_zone_scan(scan, limit);
        }
    }
}

/// Bad input surfaces when a call is bound: the scan starts exactly where the call can be bound,
/// under the schema that was announced.
pub proof fn law_bound_calls_scan(args: Arguments, time_zone: Option<String>)
    ensures
        function::bind_meaning(args) is Ok <==> function::scan_meaning(args, time_zone) is Ok,
        function::scan_meaning(args, time_zone) matches Ok(scan) ==> function::bind_meaning(args)
            == Ok::<bool, Seq<char>>(scan.with_tz),
{
}

/// A count promises the number of rows: no call gives more, and none gives fewer before the
/// schedule itself has no further fire time.
pub proof fn law_count_is_kept(args: Arguments, time_zone: Option<String>, limit: nat)
    requires
        function::scan_meaning(args, time_zone) is Ok,
        arguments::end_meaning(args.end) is Ok,
        arguments::end_meaning(args.end)->Ok_0 is Count,
    ensures
        ({
            let scan = function::scan_meaning(args, time_zone)->Ok_0;
            let count = arguments::end_meaning(args.end)->Ok_0->Count_0;
            let rows = scan.rows(limit);
            let there = scan.advanced(limit);
            &&& rows.len() <= count
            &&& rows.len() < count && rows.len() < limit ==> schedule::next_of(
                there.cron,
                there.cursor,
                there.inclusive,
                there.zone,
            ) is None
        }),
{
    let scan = function::scan_meaning(args, time_zone)->Ok_0;
    law_short_means_ended(scan, limit);
    lemma_counts_down(scan, limit);
    lemma_keeps_size(scan, limit);
    lemma_done_stays(scan, limit);
}

/// Each row takes one off the count.
proof fn lemma_counts_down(scan: Scan, limit: nat)
    requires
        scan.remaining matches Some(left) && left >= 0,
    ensures
        scan.rows(limit).len() <= scan.remaining->Some_0,
        scan.advanced(limit).remaining == Some(scan.remaining->Some_0 - scan.rows(limit).len()),
    decreases limit,
{
    if limit > 0 {
        if let Some(fire) = scan.next() {
            lemma_counts_down(scan.after(fire), (limit - 1) as nat);
        }
    }
}

} // verus!
