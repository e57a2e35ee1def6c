//! The Arrow side of the table: its schema, the columns being filled, and the
//! finished record batch.

use std::sync::Arc;

use arrow_array::builder::{Int64Builder, TimestampMicrosecondBuilder};
use arrow_array::RecordBatch;
use arrow_schema::{ArrowError, DataType, Field, Schema, TimeUnit};
use vstd::prelude::*;

verus! {

/// The zone that a `TIMESTAMPTZ` column carries.
pub const TZ_UTC: &'static str = "UTC";

#[verifier::external_type_specification]
#[verifier::external_body]
pub struct ExSchema(Schema);

#[verifier::external_type_specification]
#[verifier::external_body]
pub struct ExField(Field);

#[verifier::external_type_specification]
#[verifier::external_body]
pub struct ExArrowError(ArrowError);

/// The type of a column, as far as this table tells types apart.
pub enum ColumnKind {
    /// 64-bit integers.
    Int64,
    /// Timestamps in microseconds, with the zone that the column carries.
    Timestamp(Option<Seq<char>>),
    /// Any other type.
    Other,
}

/// A column as a schema declares it.
pub struct Column {
    /// The column's name.
    pub name: Seq<char>,
    /// The type of its values.
    pub kind: ColumnKind,
    /// Whether it may hold nulls.
    pub nullable: bool,
}

/// The column that a field declares.
pub uninterp spec fn field_column(field: Field) -> Column;

/// The columns that a schema declares, in order.
pub uninterp spec fn schema_columns(schema: Schema) -> Seq<Column>;

/// A column of integers that is being filled.
#[verifier::external_body]
pub struct SeqColumn {
    builder: Int64Builder,
}

/// The values appended to a column of integers so far.
pub uninterp spec fn seq_values(column: SeqColumn) -> Seq<i64>;

/// A column of timestamps that is being filled.
#[verifier::external_body]
pub struct FireColumn {
    builder: TimestampMicrosecondBuilder,
}

/// The values appended to a column of timestamps so far.
pub uninterp spec fn fire_values(column: FireColumn) -> Seq<i64>;

/// A finished batch of rows. The record batch is open to whoever sends it on.
#[verifier::external_body]
pub struct FireBatch {
    pub record: RecordBatch,
}

/// The values of a batch's first column.
pub uninterp spec fn batch_seqs(batch: FireBatch) -> Seq<i64>;

/// The values of a batch's second column.
pub uninterp spec fn batch_fires(batch: FireBatch) -> Seq<i64>;

/// The columns that a batch's schema declares.
pub uninterp spec fn batch_columns(batch: FireBatch) -> Seq<Column>;

/// The columns of the table: `seq`, and `fire_time` with or without a zone.
pub open spec fn output_columns(with_tz: bool) -> Seq<Column> {
    seq![
        Column { name: "seq"@, kind: ColumnKind::Int64, nullable: false },
        Column {
            name: "fire_time"@,
            kind: ColumnKind::Timestamp(output_zone(with_tz)),
            nullable: false,
        },
    ]
}

/// The zone that the column of fire times carries.
pub open spec fn output_zone(with_tz: bool) -> Option<Seq<char>> {
    if with_tz {
        Some(TZ_UTC@)
    } else {
        None
    }
}

/// The characters of an optional zone.
pub open spec fn zone_view(zone: Option<&str>) -> Option<Seq<char>> {
    match zone {
        Some(name) => Some(name@),
        None => None,
    }
}

/// `Field::new` for a column of 64-bit integers.
#[verifier::external_body]
fn int64_field(name: &str, nullable: bool) -> (r: Field)
    ensures
        field_column(r) == (Column { name: name@, kind: ColumnKind::Int64, nullable }),
{
    Field::new(name, DataType::Int64, nullable)
}

/// `Field::new` for a column of timestamps in microseconds.
#[verifier::external_body]
fn timestamp_field(name: &str, zone: Option<&str>, nullable: bool) -> (r: Field)
    ensures
        field_column(r) == (Column {
            name: name@,
            kind: ColumnKind::Timestamp(zone_view(zone)),
            nullable,
        }),
{
    Field::new(name, DataType::Timestamp(TimeUnit::Microsecond, zone.map(Arc::from)), nullable)
}

/// `Schema::new` from two fields, which it keeps in order.
#[verifier::external_body]
fn two_column_schema(first: Field, second: Field) -> (r: Schema)
    ensures
        schema_columns(r) == seq![field_column(first), field_column(second)],
{
    Schema::new(vec![first, second])
}

impl SeqColumn {
    /// `Int64Builder::with_capacity`: an empty column. The allocation fails beyond the
    /// bytes that an address can reach.
    #[verifier::external_body]
    pub(crate) fn with_capacity(capacity: usize) -> (r: Self)
        requires
            capacity * 8 <= isize::MAX,
        ensures
            seq_values(r) == Seq::<i64>::empty(),
    {
        SeqColumn { builder: Int64Builder::with_capacity(capacity) }
    }

    /// `Int64Builder::append_value`: one more value at the end, which is no null.
    #[verifier::external_body]
    pub(crate) fn append_value(&mut self, value: i64)
        requires
            (seq_values(*old(self)).len() + 1) * 16 <= isize::MAX,
        ensures
            seq_values(*final(self)) == seq_values(*old(self)).push(value),
    {
        self.builder.append_value(value)
    }
}

impl FireColumn {
    /// `TimestampMicrosecondBuilder::with_capacity`: an empty column. The allocation
    /// fails beyond the bytes that an address can reach.
    #[verifier::external_body]
    pub(crate) fn with_capacity(capacity: usize) -> (r: Self)
        requires
            capacity * 8 <= isize::MAX,
        ensures
            fire_values(r) == Seq::<i64>::empty(),
    {
        FireColumn { builder: TimestampMicrosecondBuilder::with_capacity(capacity) }
    }

    /// `TimestampMicrosecondBuilder::append_value`: one more value at the end, which is
    /// no null.
    #[verifier::external_body]
    pub(crate) fn append_value(&mut self, value: i64)
        requires
            (fire_values(*old(self)).len() + 1) * 16 <= isize::MAX,
        ensures
            fire_values(*final(self)) == fire_values(*old(self)).push(value),
    {
        self.builder.append_value(value)
    }
}

/// `RecordBatch::try_new` over the two finished columns, of which the second is given
/// the zone. It succeeds when the columns are equally long and the schema declares two
/// columns of their types, and keeps the schema and the values.
#[verifier::external_body]
pub(crate) fn finish_batch(
    schema: Arc<Schema>,
    seqs: SeqColumn,
    fires: FireColumn,
    zone: Option<&str>,
) -> (r: Result<FireBatch, ArrowError>)
    ensures
        r is Ok <==> {
            &&& seq_values(seqs).len() == fire_values(fires).len()
            &&& schema_columns(*schema).len() == 2
            &&& schema_columns(*schema)[0].kind == ColumnKind::Int64
            &&& schema_columns(*schema)[1].kind == ColumnKind::Timestamp(zone_view(zone))
        },
        r matches Ok(batch) ==> {
            &&& batch_seqs(batch) == seq_values(seqs)
            &&& batch_fires(batch) == fire_values(fires)
            &&& batch_columns(batch) == schema_columns(*schema)
        },
{
    let mut seqs = seqs;
    let mut fires = fires;
    let fire_times = fires.builder.finish().with_timezone_opt(zone);
    RecordBatch::try_new(schema, vec![Arc::new(seqs.builder.finish()), Arc::new(fire_times)]).map(
        |record| FireBatch { record },
    )
}

/// The schema of the table: `seq BIGINT` and `fire_time`, a `TIMESTAMPTZ` in UTC or a
/// naive `TIMESTAMP`.
pub fn build_schema(with_tz: bool) -> (r: Arc<Schema>)
    ensures
        schema_columns(*r) == output_columns(with_tz),
{
    let zone = fire_zone(with_tz);
    let seq = int64_field("seq", false);
    let fire_time = timestamp_field("fire_time", zone, false);
    Arc::new(two_column_schema(seq, fire_time))
}

/// The zone that the column of fire times carries.
pub(crate) fn fire_zone(with_tz: bool) -> (r: Option<&'static str>)
    ensures
        zone_view(r) == output_zone(with_tz),
{
    if with_tz {
        Some(TZ_UTC)
    } else {
        None
    }
}

} // verus!
