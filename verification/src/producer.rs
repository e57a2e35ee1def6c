//! The scan that fills batch after batch with fire times.

use std::sync::Arc;

use arrow_schema::{ArrowError, Schema};
use chrono_tz::Tz;
use croner::Cron;
use vstd::prelude::*;

use crate::scan::{Row, Scan, MAX_BATCH, MIN_BATCH};
use crate::schedule;
use crate::table::{self, FireBatch, FireColumn, SeqColumn};
use crate::zone;

verus! {

/// Streams fire times in batches, moving a cursor through the schedule. It stops at the
/// count, the upper bound, the year cap, or where the schedule has no further
/// occurrence, whichever comes first.
pub struct FireProducer {
    cron: Cron,
    /// The start, then the last fire time emitted.
    cursor: i64,
    /// True for the very first lookup only, so that a start that matches fires once.
    inclusive: bool,
    /// The number of the next row, continuous across batches.
    seq: i64,
    /// The rows that are left, where they are counted.
    remaining: Option<i64>,
    /// The exclusive upper bound, where there is one.
    until: Option<i64>,
    /// The IANA zone to fire in; `None` fires in UTC.
    tz: Option<Tz>,
    /// The rows in the next batch, at most; grows toward [`MAX_BATCH`].
    batch_size: usize,
    schema: Arc<Schema>,
    with_tz: bool,
    done: bool,
}

/// The two columns hold the rows, in order.
pub open spec fn hold(seqs: Seq<i64>, fires: Seq<i64>, rows: Seq<Row>) -> bool {
    &&& seqs.len() == rows.len()
    &&& fires.len() == rows.len()
    &&& forall|i: int| #![trigger rows[i]]
        0 <= i < rows.len() ==> seqs[i] == rows[i].seq && fires[i] == rows[i].fire
}

/// What a call for the next batch of `before` that came back with `outcome` gives: the
/// rows of the batch, under the table's schema, or nothing where there are none.
pub open spec fn is_batch(before: Scan, outcome: Result<Option<FireBatch>, ArrowError>) -> bool {
    &&& before.looked_up(before.batch_size)
    &&& match outcome {
        Ok(Some(batch)) => {
            &&& before.batch().len() > 0
            &&& table::batch_columns(batch) == table::output_columns(before.with_tz)
            &&& hold(table::batch_seqs(batch), table::batch_fires(batch), before.batch())
        },
        Ok(None) => before.batch().len() == 0,
        Err(_) => false,
    }
}

impl View for FireProducer {
    type V = Scan;

    closed spec fn view(&self) -> Scan {
        Scan {
            cron: self.cron,
            cursor: self.cursor as int,
            inclusive: self.inclusive,
            seq: self.seq as int,
            remaining: schedule::opt_int(self.remaining),
            until: schedule::opt_int(self.until),
            zone: self.tz,
            batch_size: self.batch_size as nat,
            with_tz: self.with_tz,
            done: self.done,
        }
    }
}

impl FireProducer {
    /// The scan is well formed, and the schema is the table's.
    pub closed spec fn wf(&self) -> bool {
        &&& self@.wf()
        &&& table::schema_columns(*self.schema) == table::output_columns(self.with_tz)
    }

    /// What is known of every well-formed producer: its scan is well formed.
    pub proof fn lemma_wf(&self)
        requires
            self.wf(),
        ensures
            self@.wf(),
    {
    }

    /// A producer at the start of a series.
    pub(crate) fn new(
        cron: Cron,
        start: i64,
        remaining: Option<i64>,
        until: Option<i64>,
        tz: Option<Tz>,
        with_tz: bool,
    ) -> (r: Self)
        requires
            remaining matches Some(n) ==> n >= 0,
        ensures
            r.wf(),
            r@ == (Scan {
                cron,
                cursor: start as int,
                inclusive: true,
                seq: 0,
                remaining: schedule::opt_int(remaining),
                until: schedule::opt_int(until),
                zone: tz,
                batch_size: MIN_BATCH as nat,
                with_tz,
                done: false,
            }),
    {
        FireProducer {
            cron,
            cursor: start,
            inclusive: true,
            seq: 0,
            remaining,
            until,
            tz,
            batch_size: MIN_BATCH,
            schema: table::build_schema(with_tz),
            with_tz,
            done: false,
        }
    }

    /// The next batch of rows, or `None` when the series is exhausted.
    ///
    /// The zone must have a wall clock at the cursor; [`Self::checked_next_batch`] takes
    /// every producer.
    pub fn next_batch(&mut self) -> (r: Result<Option<FireBatch>, ArrowError>)
        requires
            old(self).wf(),
            old(self)@.has_wall_clock(),
        ensures
            final(self).wf(),
            final(self)@ == old(self)@.after_batch(),
            final(self)@.has_wall_clock(),
            is_batch(old(self)@, r),
    {
        if self.done {
            assert(old(self)@.batch() =~= Seq::empty());
            return Ok(None);
        }
        let cap = self.batch_size;
        // Grow the next batch: a cheap first batch, big ones in a long scan.
        self.batch_size = if cap * 2 < MAX_BATCH {
            cap * 2
        } else {
            MAX_BATCH
        };

        let mut seqs = SeqColumn::with_capacity(cap);
        let mut fires = FireColumn::with_capacity(cap);
        let mut n: usize = 0;
        let ghost before = old(self)@;
        let ghost size = self.batch_size;
        let ghost mut rows = Seq::<Row>::empty();
        let ghost mut scan = before;

        while n < cap
            invariant_except_break
                !self.done,
            invariant
                n <= cap,
                cap == before.batch_size,
                cap <= MAX_BATCH,
                MIN_BATCH <= size <= MAX_BATCH,
                table::schema_columns(*self.schema) == table::output_columns(before.with_tz),
                !scan.done,
                before.has_wall_clock(),
                scan.wf(),
                scan.has_wall_clock(),
                self@ == (Scan { batch_size: size as nat, done: self.done, ..scan }),
                rows.len() == n,
                hold(table::seq_values(seqs), table::fire_values(fires), rows),
                scan.looked_up((cap - n) as nat) ==> before.looked_up(cap as nat),
                scan.with_tz == before.with_tz,
                before.rows(cap as nat) == rows + scan.rows((cap - n) as nat),
                before.advanced(cap as nat) == scan.advanced((cap - n) as nat),
            ensures
                rows == before.rows(cap as nat),
                scan == before.advanced(cap as nat),
                self.done == (n < cap),
                before.looked_up(cap as nat),
            decreases cap - n,
        {
            if self.remaining == Some(0i64) {
                self.done = true;
                break;
            }
            let next = self.lookup();
            let Some(fire) = next else {
                self.done = true;
                break;
            };
            if let Some(bound) = self.until {
                if fire >= bound {
                    self.done = true;
                    break;
                }
            }
            proof {
                scan.lemma_step(fire as int);
            }
            seqs.append_value(self.seq);
            fires.append_value(fire);
            proof {
                let row = Row { seq: scan.seq, fire: fire as int };
                let next = scan.after(fire as int);
                let rest = next.rows((cap - n - 1) as nat);
                assert(rows + (seq![row] + rest) =~= rows.push(row) + rest);
                rows = rows.push(row);
                scan = next;
            }

            self.seq = self.seq + 1;
            self.cursor = fire;
            self.inclusive = false;
            if let Some(left) = self.remaining {
                self.remaining = Some(left - 1);
            }
            n = n + 1;
        }

        if n == 0 {
            return Ok(None);
        }
        let zone = table::fire_zone(self.with_tz);
        let batch = table::finish_batch(self.schema.clone(), seqs, fires, zone);
        match batch {
            Ok(batch) => Ok(Some(batch)),
            Err(error) => Err(error),
        }
    }

    /// [`Self::next_batch`] of any producer: `None`, and no change, where the zone has no
    /// wall clock at the cursor.
    pub fn checked_next_batch(&mut self) -> (r: Option<Result<Option<FireBatch>, ArrowError>>)
        requires
            old(self).wf(),
        ensures
            final(self).wf(),
            r is Some <==> old(self)@.has_wall_clock(),
            match r {
                Some(outcome) => {
                    &&& final(self)@ == old(self)@.after_batch()
                    &&& final(self)@.has_wall_clock()
                    &&& is_batch(old(self)@, outcome)
                },
                None => final(self)@ == old(self)@,
            },
    {
        let exists = match self.tz {
            Some(tz) => zone::wall_clock_exists(self.cursor, tz),
            None => true,
        };
        if exists {
            Some(self.next_batch())
        } else {
            None
        }
    }

    /// The next fire time of the schedule from the cursor.
    fn lookup(&self) -> (r: Option<i64>)
        requires
            self@.has_wall_clock(),
        ensures
            schedule::is_lookup(self@.cron, self@.cursor, self@.inclusive, self@.zone, r),
    {
        match self.tz {
            Some(tz) => schedule::next_fire_in(&self.cron, self.cursor, self.inclusive, tz),
            None => schedule::next_fire(&self.cron, self.cursor, self.inclusive),
        }
    }
}

} // verus!
