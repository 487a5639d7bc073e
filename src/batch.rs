//! Record batches: equal-length columns of values, each value possibly absent.

use vstd::prelude::*;
use crate::types::LogicalType;

verus! {

/// The values of one column, stored as the columnar format lays them out; `None` marks an
/// absent value.
///
/// Timestamps, 64-bit dates and times and durations are stored as `Int64`; 32-bit dates
/// and times as `Int32`. Floating-point columns hold IEEE-754 bit patterns: `Float32` holds
/// single-precision ones, half-precision columns included (already widened), and `Float64`
/// double-precision ones.
#[derive(Clone, Debug)]
pub enum ColumnValues {
    /// A column of the given length whose every value is absent.
    Null(usize),
    Boolean(Vec<Option<bool>>),
    Int8(Vec<Option<i8>>),
    Int16(Vec<Option<i16>>),
    Int32(Vec<Option<i32>>),
    Int64(Vec<Option<i64>>),
    UInt8(Vec<Option<u8>>),
    UInt16(Vec<Option<u16>>),
    UInt32(Vec<Option<u32>>),
    Float32(Vec<Option<u32>>),
    Float64(Vec<Option<u64>>),
    Bytes(Vec<Option<Vec<u8>>>),
    Text(Vec<Option<String>>),
}

/// A column of a batch: its declared logical type and its values.
#[derive(Clone, Debug)]
pub struct Column {
    pub data_type: LogicalType,
    pub values: ColumnValues,
}

/// A set of columns that all hold `num_rows` values.
#[derive(Clone, Debug)]
pub struct RecordBatch {
    pub columns: Vec<Column>,
    pub num_rows: usize,
}

impl ColumnValues {
    /// The number of values held.
    pub open spec fn spec_len(self) -> nat {
        match self {
            ColumnValues::Null(n) => n as nat,
            ColumnValues::Boolean(xs) => xs@.len(),
            ColumnValues::Int8(xs) => xs@.len(),
            ColumnValues::Int16(xs) => xs@.len(),
            ColumnValues::Int32(xs) => xs@.len(),
            ColumnValues::Int64(xs) => xs@.len(),
            ColumnValues::UInt8(xs) => xs@.len(),
            ColumnValues::UInt16(xs) => xs@.len(),
            ColumnValues::UInt32(xs) => xs@.len(),
            ColumnValues::Float32(xs) => xs@.len(),
            ColumnValues::Float64(xs) => xs@.len(),
            ColumnValues::Bytes(xs) => xs@.len(),
            ColumnValues::Text(xs) => xs@.len(),
        }
    }

    /// Whether the value at `row` is absent.
    pub open spec fn is_null_at(self, row: int) -> bool {
        match self {
            ColumnValues::Null(_) => true,
            ColumnValues::Boolean(xs) => xs@[row] is None,
            ColumnValues::Int8(xs) => xs@[row] is None,
            ColumnValues::Int16(xs) => xs@[row] is None,
            ColumnValues::Int32(xs) => xs@[row] is None,
            ColumnValues::Int64(xs) => xs@[row] is None,
            ColumnValues::UInt8(xs) => xs@[row] is None,
            ColumnValues::UInt16(xs) => xs@[row] is None,
            ColumnValues::UInt32(xs) => xs@[row] is None,
            ColumnValues::Float32(xs) => xs@[row] is None,
            ColumnValues::Float64(xs) => xs@[row] is None,
            ColumnValues::Bytes(xs) => xs@[row] is None,
            ColumnValues::Text(xs) => xs@[row] is None,
        }
    }

    /// The number of values held.
    pub fn len(&self) -> (r: usize)
        ensures
            r == self.spec_len(),
    {
        match self {
            ColumnValues::Null(n) => *n,
            ColumnValues::Boolean(xs) => xs.len(),
            ColumnValues::Int8(xs) => xs.len(),
            ColumnValues::Int16(xs) => xs.len(),
            ColumnValues::Int32(xs) => xs.len(),
            ColumnValues::Int64(xs) => xs.len(),
            ColumnValues::UInt8(xs) => xs.len(),
            ColumnValues::UInt16(xs) => xs.len(),
            ColumnValues::UInt32(xs) => xs.len(),
            ColumnValues::Float32(xs) => xs.len(),
            ColumnValues::Float64(xs) => xs.len(),
            ColumnValues::Bytes(xs) => xs.len(),
            ColumnValues::Text(xs) => xs.len(),
        }
    }
}

/// Whether values stored as `v` are the layout of logical type `t`.
pub open spec fn storage_fits(t: LogicalType, v: ColumnValues) -> bool {
    match t {
        LogicalType::Null => v is Null,
        LogicalType::Boolean => v is Boolean,
        LogicalType::Int8 => v is Int8,
        LogicalType::Int16 => v is Int16,
        LogicalType::Int32 | LogicalType::Date32 | LogicalType::Time32(_) => v is Int32,
        LogicalType::Int64 | LogicalType::Date64 | LogicalType::Time64(_)
        | LogicalType::Timestamp(_, _) | LogicalType::Duration(_) => v is Int64,
        LogicalType::UInt8 => v is UInt8,
        LogicalType::UInt16 => v is UInt16,
        LogicalType::UInt32 => v is UInt32,
        LogicalType::Float16 | LogicalType::Float32 => v is Float32,
        LogicalType::Float64 => v is Float64,
        LogicalType::Binary | LogicalType::LargeBinary | LogicalType::FixedSizeBinary(_) => v is Bytes,
        LogicalType::Utf8 | LogicalType::LargeUtf8 => v is Text,
        _ => false,
    }
}

/// Whether values stored as `v` are the layout of logical type `t`.
pub fn storage_fits_exec(t: LogicalType, v: &ColumnValues) -> (r: bool)
    ensures
        r == storage_fits(t, *v),
{
    match t {
        LogicalType::Null => matches!(v, ColumnValues::Null(_)),
        LogicalType::Boolean => matches!(v, ColumnValues::Boolean(_)),
        LogicalType::Int8 => matches!(v, ColumnValues::Int8(_)),
        LogicalType::Int16 => matches!(v, ColumnValues::Int16(_)),
        LogicalType::Int32 | LogicalType::Date32 | LogicalType::Time32(_) => matches!(v, ColumnValues::Int32(_)),
        LogicalType::Int64 | LogicalType::Date64 | LogicalType::Time64(_)
        | LogicalType::Timestamp(_, _) | LogicalType::Duration(_) => matches!(v, ColumnValues::Int64(_)),
        LogicalType::UInt8 => matches!(v, ColumnValues::UInt8(_)),
        LogicalType::UInt16 => matches!(v, ColumnValues::UInt16(_)),
        LogicalType::UInt32 => matches!(v, ColumnValues::UInt32(_)),
        LogicalType::Float16 | LogicalType::Float32 => matches!(v, ColumnValues::Float32(_)),
        LogicalType::Float64 => matches!(v, ColumnValues::Float64(_)),
        LogicalType::Binary | LogicalType::LargeBinary | LogicalType::FixedSizeBinary(_) => matches!(v, ColumnValues::Bytes(_)),
        LogicalType::Utf8 | LogicalType::LargeUtf8 => matches!(v, ColumnValues::Text(_)),
        _ => false,
    }
}

} // verus!
