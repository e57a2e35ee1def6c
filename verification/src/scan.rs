//! The series of rows that a call stands for, as a state that moves on row by row.

use chrono_tz::Tz;
use croner::Cron;
use vstd::prelude::*;

use crate::calendar;
use crate::schedule;
use crate::zone;

verus! {

/// Rows in the first batch: a cheap start, with little beyond what a small query asks.
pub const MIN_BATCH: usize = 2048;

/// Rows in the largest batch. Batches double up to this size, so that long scans
/// spread the cost of a batch over more rows.
pub const MAX_BATCH: usize = 65536;

/// How far a scan of a series has come.
pub struct Scan {
    /// The schedule.
    pub cron: Cron,
    /// The instant from which the next fire time is sought: the start, then the last
    /// fire time.
    pub cursor: int,
    /// Whether the cursor itself may fire. Only the start may.
    pub inclusive: bool,
    /// The number of the next row.
    pub seq: int,
    /// The rows that are left, where they are counted.
    pub remaining: Option<int>,
    /// The instant that every fire time stays before, where there is one.
    pub until: Option<int>,
    /// The zone whose wall clock the schedule goes by; `None` is UTC.
    pub zone: Option<Tz>,
    /// The rows in the next batch, at most.
    pub batch_size: nat,
    /// Whether the column of fire times carries a zone.
    pub with_tz: bool,
    /// Whether the series is known to have ended.
    pub done: bool,
}

/// A row of the table.
pub struct Row {
    /// Its number in the series, from zero.
    pub seq: int,
    /// The instant at which the schedule fires.
    pub fire: int,
}

impl Scan {
    /// The next row's fire time, where the series goes on: the next one of the schedule,
    /// unless the count is used up or it is not before the bound.
    pub open spec fn next(self) -> Option<int> {
        if self.done || self.remaining == Some(0int) {
            None
        } else {
            match schedule::next_of(self.cron, self.cursor, self.inclusive, self.zone) {
                Some(fire) => if self.until matches Some(bound) && fire >= bound {
                    None
                } else {
                    Some(fire)
                },
                None => None,
            }
        }
    }

    /// The scan behind a row that fires at `fire`.
    pub open spec fn after(self, fire: int) -> Scan {
        Scan {
            cursor: fire,
            inclusive: false,
            seq: self.seq + 1,
            remaining: match self.remaining {
                Some(left) => Some(left - 1),
                None => None,
            },
            ..self
        }
    }

    /// The next rows, `limit` of them at most.
    pub open spec fn rows(self, limit: nat) -> Seq<Row>
        decreases limit,
    {
        if limit == 0 {
            Seq::empty()
        } else {
            match self.next() {
                Some(fire) => seq![Row { seq: self.seq, fire }] + self.after(fire).rows(
                    (limit - 1) as nat,
                ),
                None => Seq::empty(),
            }
        }
    }

    /// The scan behind those rows.
    pub open spec fn advanced(self, limit: nat) -> Scan
        decreases limit,
    {
        if limit == 0 {
            self
        } else {
            match self.next() {
                Some(fire) => self.after(fire).advanced((limit - 1) as nat),
                None => self,
            }
        }
    }

    /// The rows of the next batch.
    pub open spec fn batch(self) -> Seq<Row> {
        self.rows(self.batch_size)
    }

    /// The scan behind the next batch. A batch that is not full ends the series; the one
    /// to follow may hold twice as many rows, up to [`MAX_BATCH`].
    pub open spec fn after_batch(self) -> Scan {
        if self.done {
            self
        } else {
            Scan {
                batch_size: if 2 * self.batch_size < MAX_BATCH {
                    2 * self.batch_size
                } else {
                    MAX_BATCH as nat
                },
                done: self.batch().len() < self.batch_size,
                ..self.advanced(self.batch_size)
            }
        }
    }

    /// The scan behind the next `count` batches.
    pub open spec fn after_batches(self, count: nat) -> Scan
        decreases count,
    {
        if count == 0 {
            self
        } else {
            self.after_batches((count - 1) as nat).after_batch()
        }
    }

    /// The rows of the next `count` batches, one batch after the other.
    pub open spec fn batches(self, count: nat) -> Seq<Row>
        decreases count,
    {
        if count == 0 {
            Seq::empty()
        } else {
            self.batches((count - 1) as nat) + self.after_batches((count - 1) as nat).batch()
        }
    }

    /// The rows that the next `count` batches have room for.
    pub open spec fn room(self, count: nat) -> nat
        decreases count,
    {
        if count == 0 {
            0
        } else {
            self.room((count - 1) as nat) + self.after_batches((count - 1) as nat).batch_size
        }
    }

    /// What holds of a scan wherever it stands: the numbers are in their ranges, and a
    /// cursor behind the first row is a fire time, at least as many seconds into the
    /// calendar as rows went before it.
    pub open spec fn wf(self) -> bool {
        &&& MIN_BATCH <= self.batch_size <= MAX_BATCH
        &&& self.seq >= 0
        &&& self.remaining matches Some(left) ==> left >= 0
        &&& self.inclusive ==> self.seq == 0
        &&& !self.inclusive ==> {
            let local = zone::wall(self.zone, self.cursor);
            &&& self.seq > 0
            &&& calendar::representable(self.cursor)
            &&& calendar::year_start(-262143) + (self.seq - 1) * calendar::MICROS_PER_SECOND
                <= local
            &&& local < calendar::year_start(schedule::YEAR_CAP as int)
        }
    }

    /// The zone has a wall clock at the cursor.
    pub open spec fn has_wall_clock(self) -> bool {
        zone::has_wall_clock(self.zone, self.cursor)
    }

    /// The lookups for the next rows, `limit` of them at most, and for the end where it comes
    /// before, establish what [`schedule::is_sound`] says.
    pub open spec fn looked_up(self, limit: nat) -> bool
        decreases limit,
    {
        limit == 0 || self.done || self.remaining == Some(0int) || {
            &&& schedule::is_sound(self.cron, self.cursor, self.inclusive, self.zone)
            &&& self.next() matches Some(fire) ==> self.after(fire).looked_up((limit - 1) as nat)
        }
    }

    /// A scan stays well formed behind its next row.
    pub proof fn lemma_step(self, fire: int)
        requires
            self.wf(),
            self.has_wall_clock(),
            self.next() == Some(fire),
            schedule::is_next(self.cron, self.cursor, self.inclusive, self.zone, fire),
        ensures
            self.after(fire).wf(),
            self.after(fire).has_wall_clock(),
            0 <= self.seq < i64::MAX,
    {
        reveal(schedule::is_next);
    }

    /// The instant that the row at `i` was sought from.
    pub open spec fn sought_from(self, rows: Seq<Row>, i: int) -> int {
        if i == 0 {
            self.cursor
        } else {
            rows[i - 1].fire
        }
    }

    /// Each of the rows fires at a next fire time from the row before it; the first one at a
    /// next fire time from the cursor.
    #[verifier::opaque]
    pub open spec fn yields(self, rows: Seq<Row>) -> bool {
        forall|i: int| #![trigger rows[i]]
            0 <= i < rows.len() ==> schedule::is_next(
                self.cron,
                self.sought_from(rows, i),
                self.inclusive && i == 0,
                self.zone,
                rows[i].fire,
            )
    }
}

} // verus!
