//! DBISAM/Arrow to PostgreSQL type mapping.
//!
//! The Arrow types the DBISAM protocol client emits are Utf8, Int32, Int64,
//! Float64, Decimal128 (Currency), Boolean, Date32, Time64 (µs),
//! Timestamp (µs) and Binary. Memo and binary Blob both arrive as Binary and
//! are told apart by the DBISAM type tag in the field metadata. A type whose
//! values are never decoded (every value would read as NULL) gets no
//! PostgreSQL type, so the importer skips its table instead of declaring an
//! all-NULL column.

use vstd::prelude::*;
use crate::text::str_eq;

verus! {

/// The unit of an Arrow time or timestamp type.
#[derive(Debug, Clone, Copy, PartialEq, Eq, Structural)]
pub enum TimeUnit {
    Second,
    Millisecond,
    Microsecond,
    Nanosecond,
}

/// The Arrow data type of a result column, as far as the mapping reads it.
#[derive(Debug, Clone, Copy, PartialEq, Eq, Structural)]
pub enum DataType {
    Utf8,
    Boolean,
    Int32,
    Int64,
    Float64,
    Decimal128,
    Date32,
    Time64(TimeUnit),
    Timestamp(TimeUnit),
    Binary,
    LargeBinary,
    /// Any other Arrow type.
    Other,
}

/// A result column: its name, Arrow type, and the DBISAM type tag carried in
/// the field metadata (absent when the metadata has none).
#[derive(Debug, Clone, PartialEq)]
pub struct Field {
    pub name: String,
    pub data_type: DataType,
    pub dbisam_type: Option<String>,
}

/// The field is tagged as a DBISAM Memo (text held as a blob).
pub open spec fn is_memo(f: Field) -> bool {
    match f.dbisam_type {
        Some(t) => t@ == "memo"@,
        None => false,
    }
}

/// Whether the field is tagged as a DBISAM Memo.
pub fn field_is_memo(f: &Field) -> (r: bool)
    ensures
        r == is_memo(*f),
{
    match &f.dbisam_type {
        Some(t) => str_eq(t.as_str(), "memo"),
        None => false,
    }
}

/// The PostgreSQL type name for a result column, or `None` for an Arrow type
/// that is not mapped.
pub open spec fn spec_arrow_pg_type(f: Field) -> Option<Seq<char>> {
    match f.data_type {
        DataType::Utf8 => Some("text"@),
        DataType::Boolean => Some("boolean"@),
        DataType::Int32 => Some("integer"@),
        DataType::Int64 => Some("bigint"@),
        DataType::Float64 => Some("double precision"@),
        DataType::Decimal128 => Some("numeric"@),
        DataType::Date32 => Some("date"@),
        DataType::Time64(TimeUnit::Microsecond) => Some("time"@),
        DataType::Timestamp(TimeUnit::Microsecond) => Some("timestamp"@),
        DataType::Time64(_) => None,
        DataType::Timestamp(_) => None,
        DataType::Binary => if is_memo(f) {
            Some("text"@)
        } else {
            Some("bytea"@)
        },
        DataType::LargeBinary => None,
        DataType::Other => None,
    }
}

/// PostgreSQL type name for a result column, used for `CREATE FOREIGN TABLE`
/// DDL. Memo maps to `text`, other blobs to `bytea`; `None` for an Arrow type
/// whose values are never decoded (large binary, times and timestamps in a
/// unit other than microseconds, anything unlisted): the importer then skips
/// the table rather than declare an all-NULL column.
pub fn arrow_pg_type(field: &Field) -> (r: Option<&'static str>)
    ensures
        match r {
            Some(t) => spec_arrow_pg_type(*field) == Some(t@),
            None => spec_arrow_pg_type(*field) is None,
        },
        spec_cell_kind(*field) == CellKind::Null ==> r is None,
{
    match field.data_type {
        DataType::Utf8 => Some("text"),
        DataType::Boolean => Some("boolean"),
        DataType::Int32 => Some("integer"),
        DataType::Int64 => Some("bigint"),
        DataType::Float64 => Some("double precision"),
        DataType::Decimal128 => Some("numeric"),
        DataType::Date32 => Some("date"),
        DataType::Time64(TimeUnit::Microsecond) => Some("time"),
        DataType::Timestamp(TimeUnit::Microsecond) => Some("timestamp"),
        DataType::Time64(_) => None,
        DataType::Timestamp(_) => None,
        DataType::Binary => {
            if field_is_memo(field) {
                Some("text")
            } else {
                Some("bytea")
            }
        },
        DataType::LargeBinary => None,
        DataType::Other => None,
    }
}

/// Days between the Unix epoch (Arrow's Date32 origin, 1970-01-01) and the
/// Postgres epoch (2000-01-01).
pub const UNIX_TO_PG_EPOCH_DAYS: i32 = 10957;

/// Microseconds between the Unix and Postgres epochs.
pub const UNIX_TO_PG_EPOCH_MICROS: i64 = 10957 * 86400 * 1000000;

/// Arrow days-since-1970 as Postgres days-since-2000.
pub fn pg_date_days(unix_days: i32) -> (r: i32)
    requires
        unix_days >= i32::MIN + UNIX_TO_PG_EPOCH_DAYS,
    ensures
        r == unix_days - UNIX_TO_PG_EPOCH_DAYS,
{
    unix_days - UNIX_TO_PG_EPOCH_DAYS
}

/// Arrow microseconds-since-1970 as Postgres microseconds-since-2000.
pub fn pg_timestamp_micros(unix_micros: i64) -> (r: i64)
    requires
        unix_micros >= i64::MIN + UNIX_TO_PG_EPOCH_MICROS,
    ensures
        r == unix_micros - UNIX_TO_PG_EPOCH_MICROS,
{
    unix_micros - UNIX_TO_PG_EPOCH_MICROS
}

/// How one value of a result column becomes a Postgres cell.
#[derive(Debug, Clone, Copy, PartialEq, Eq, Structural)]
pub enum CellKind {
    /// Utf8 as `text`.
    Text,
    /// Boolean as `boolean`.
    Bool,
    /// Int32 as `integer`.
    I32,
    /// Int64 as `bigint`.
    I64,
    /// Float64 as `double precision`.
    F64,
    /// Decimal128 (DBISAM Currency) as `numeric`, through the decimal's own
    /// string form, without a float round trip.
    Numeric,
    /// Date32 shifted from the Unix to the Postgres epoch, as `date`.
    Date,
    /// Timestamp in microseconds, shifted from the Unix to the Postgres epoch.
    Timestamp,
    /// Time64 (µs since midnight) as `time`.
    Time,
    /// A Memo blob: Win-1252 bytes decoded to `text`.
    MemoText,
    /// Any other blob: the raw bytes as `bytea`.
    Bytea,
    /// Not converted: every value reads as NULL.
    Null,
}

/// The conversion used for the values of a column.
pub open spec fn spec_cell_kind(f: Field) -> CellKind {
    match f.data_type {
        DataType::Utf8 => CellKind::Text,
        DataType::Boolean => CellKind::Bool,
        DataType::Int32 => CellKind::I32,
        DataType::Int64 => CellKind::I64,
        DataType::Float64 => CellKind::F64,
        DataType::Decimal128 => CellKind::Numeric,
        DataType::Date32 => CellKind::Date,
        DataType::Timestamp(TimeUnit::Microsecond) => CellKind::Timestamp,
        DataType::Time64(TimeUnit::Microsecond) => CellKind::Time,
        DataType::Timestamp(_) => CellKind::Null,
        DataType::Time64(_) => CellKind::Null,
        DataType::Binary => if is_memo(f) {
            CellKind::MemoText
        } else {
            CellKind::Bytea
        },
        DataType::LargeBinary => CellKind::Null,
        DataType::Other => CellKind::Null,
    }
}

/// Chooses how the values of a column become Postgres cells.
pub fn cell_kind(field: &Field) -> (r: CellKind)
    ensures
        r == spec_cell_kind(*field),
{
    match field.data_type {
        DataType::Utf8 => CellKind::Text,
        DataType::Boolean => CellKind::Bool,
        DataType::Int32 => CellKind::I32,
        DataType::Int64 => CellKind::I64,
        DataType::Float64 => CellKind::F64,
        DataType::Decimal128 => CellKind::Numeric,
        DataType::Date32 => CellKind::Date,
        DataType::Timestamp(TimeUnit::Microsecond) => CellKind::Timestamp,
        DataType::Time64(TimeUnit::Microsecond) => CellKind::Time,
        DataType::Timestamp(_) => CellKind::Null,
        DataType::Time64(_) => CellKind::Null,
        DataType::Binary => {
            if field_is_memo(field) {
                CellKind::MemoText
            } else {
                CellKind::Bytea
            }
        },
        DataType::LargeBinary => CellKind::Null,
        DataType::Other => CellKind::Null,
    }
}

/// The Postgres type of the cells a conversion produces.
pub open spec fn kind_pg_type(k: CellKind) -> Option<Seq<char>> {
    match k {
        CellKind::Text => Some("text"@),
        CellKind::Bool => Some("boolean"@),
        CellKind::I32 => Some("integer"@),
        CellKind::I64 => Some("bigint"@),
        CellKind::F64 => Some("double precision"@),
        CellKind::Numeric => Some("numeric"@),
        CellKind::Date => Some("date"@),
        CellKind::Timestamp => Some("timestamp"@),
        CellKind::Time => Some("time"@),
        CellKind::MemoText => Some("text"@),
        CellKind::Bytea => Some("bytea"@),
        CellKind::Null => None,
    }
}

/// Imported DDL and scanned cells agree: the type that `IMPORT FOREIGN
/// SCHEMA` declares for a column is the type of the cells a scan produces
/// for it, and a column whose values would all read as NULL is not mapped
/// (the importer skips its table).
pub proof fn lemma_declared_type_matches_cells(f: Field)
    ensures
        spec_arrow_pg_type(f) == kind_pg_type(spec_cell_kind(f)),
        spec_cell_kind(f) == CellKind::Null ==> spec_arrow_pg_type(f) is None,
{
}

/// Each conversion reads the Arrow array its column's type stores: a text
/// column is read as text, each numeric, boolean, date and time type as
/// itself, and a blob is decoded as Memo text exactly when the column is
/// Binary and tagged `memo` (otherwise its bytes are kept). Only large
/// binary, non-microsecond times and timestamps, and unlisted types are not
/// converted.
pub proof fn lemma_cell_kind_reads_its_type(f: Field)
    ensures
        (spec_cell_kind(f) == CellKind::Text) <==> f.data_type == DataType::Utf8,
        (spec_cell_kind(f) == CellKind::Bool) <==> f.data_type == DataType::Boolean,
        (spec_cell_kind(f) == CellKind::I32) <==> f.data_type == DataType::Int32,
        (spec_cell_kind(f) == CellKind::I64) <==> f.data_type == DataType::Int64,
        (spec_cell_kind(f) == CellKind::F64) <==> f.data_type == DataType::Float64,
        (spec_cell_kind(f) == CellKind::Numeric) <==> f.data_type == DataType::Decimal128,
        (spec_cell_kind(f) == CellKind::Date) <==> f.data_type == DataType::Date32,
        (spec_cell_kind(f) == CellKind::Timestamp) <==> f.data_type == DataType::Timestamp(
            TimeUnit::Microsecond,
        ),
        (spec_cell_kind(f) == CellKind::Time) <==> f.data_type == DataType::Time64(
            TimeUnit::Microsecond,
        ),
        (spec_cell_kind(f) == CellKind::MemoText) <==> (f.data_type == DataType::Binary && (
        f.dbisam_type matches Some(t) && t@ == "memo"@)),
        (spec_cell_kind(f) == CellKind::Bytea) <==> (f.data_type == DataType::Binary && !(
        f.dbisam_type matches Some(t) && t@ == "memo"@)),
        (spec_cell_kind(f) == CellKind::Null) <==> (f.data_type == DataType::LargeBinary
            || f.data_type == DataType::Other || (f.data_type is Timestamp && f.data_type
            != DataType::Timestamp(TimeUnit::Microsecond)) || (f.data_type is Time64
            && f.data_type != DataType::Time64(TimeUnit::Microsecond))),
{
}

} // verus!
