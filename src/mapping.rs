//! The type mapper: which wire type each logical type is written as.

use vstd::prelude::*;
use crate::types::{Error, Field, LogicalType, PostgresField, Schema, TimeUnit, WireType};

verus! {

/// The wire type that values of logical type `t` are written as, or `None` where `t` has no
/// encoding.
///
/// Unsigned 64-bit integers are rejected: no PostgreSQL integer type holds all of them.
/// Durations are accepted in microseconds only, 32-bit times in seconds or milliseconds and
/// 64-bit times in microseconds or nanoseconds.
pub open spec fn wire_type_of(t: LogicalType) -> Option<WireType> {
    match t {
        LogicalType::Null => Some(WireType::Int2),
        LogicalType::Boolean => Some(WireType::Bool),
        LogicalType::Int8 => Some(WireType::Int2),
        LogicalType::Int16 => Some(WireType::Int2),
        LogicalType::Int32 => Some(WireType::Int4),
        LogicalType::Int64 => Some(WireType::Int8),
        LogicalType::UInt8 => Some(WireType::Int2),
        LogicalType::UInt16 => Some(WireType::Int4),
        LogicalType::UInt32 => Some(WireType::Int8),
        LogicalType::Float16 => Some(WireType::Float4),
        LogicalType::Float32 => Some(WireType::Float4),
        LogicalType::Float64 => Some(WireType::Float8),
        LogicalType::Timestamp(_, tz) => if tz {
            Some(WireType::TimestampTz)
        } else {
            Some(WireType::Timestamp)
        },
        LogicalType::Date32 => Some(WireType::Date),
        LogicalType::Date64 => Some(WireType::Date),
        LogicalType::Time32(u) => if u == TimeUnit::Second || u == TimeUnit::Millisecond {
            Some(WireType::Time)
        } else {
            None
        },
        LogicalType::Time64(u) => if u == TimeUnit::Microsecond || u == TimeUnit::Nanosecond {
            Some(WireType::Time)
        } else {
            None
        },
        LogicalType::Duration(u) => if u == TimeUnit::Microsecond {
            Some(WireType::Interval)
        } else {
            None
        },
        LogicalType::Binary => Some(WireType::Bytea),
        LogicalType::LargeBinary => Some(WireType::Bytea),
        LogicalType::FixedSizeBinary(_) => Some(WireType::Bytea),
        LogicalType::Utf8 => Some(WireType::Text),
        LogicalType::LargeUtf8 => Some(WireType::Text),
        _ => None,
    }
}

/// Whether every column of `s` has a wire encoding.
pub open spec fn schema_supported(s: Seq<(Seq<char>, LogicalType)>) -> bool {
    forall|i: int| 0 <= i < s.len() ==> (#[trigger] wire_type_of(s[i].1)) is Some
}

/// The field descriptors of a schema whose every column has a wire encoding.
pub open spec fn descriptors_of(s: Seq<(Seq<char>, LogicalType)>) -> Seq<
    (Seq<char>, LogicalType, WireType),
> {
    s.map_values(|c: (Seq<char>, LogicalType)| (c.0, c.1, wire_type_of(c.1)->0))
}

/// Whether column `j` is the first column of `s` without a wire encoding.
pub open spec fn first_unsupported(s: Seq<(Seq<char>, LogicalType)>, j: int) -> bool {
    &&& 0 <= j < s.len()
    &&& wire_type_of(s[j].1) is None
    &&& forall|i: int| 0 <= i < j ==> (#[trigger] wire_type_of(s[i].1)) is Some
}

/// The wire type of column `col_name` of logical type `tp`, or its rejection.
pub fn wire_type_for(col_name: &String, tp: LogicalType) -> (r: Result<WireType, Error>)
    ensures
        match r {
            Ok(w) => wire_type_of(tp) == Some(w),
            Err(e) => wire_type_of(tp) is None && e.is_type_unsupported(col_name@, tp),
        },
{
    let w = match tp {
        LogicalType::Null => WireType::Int2,
        LogicalType::Boolean => WireType::Bool,
        LogicalType::Int8 => WireType::Int2,
        LogicalType::Int16 => WireType::Int2,
        LogicalType::Int32 => WireType::Int4,
        LogicalType::Int64 => WireType::Int8,
        LogicalType::UInt8 => WireType::Int2,
        LogicalType::UInt16 => WireType::Int4,
        LogicalType::UInt32 => WireType::Int8,
        LogicalType::Float16 => WireType::Float4,
        LogicalType::Float32 => WireType::Float4,
        LogicalType::Float64 => WireType::Float8,
        LogicalType::Timestamp(_, true) => WireType::TimestampTz,
        LogicalType::Timestamp(_, false) => WireType::Timestamp,
        LogicalType::Date32 => WireType::Date,
        LogicalType::Date64 => WireType::Date,
        LogicalType::Time32(TimeUnit::Second) => WireType::Time,
        LogicalType::Time32(TimeUnit::Millisecond) => WireType::Time,
        LogicalType::Time64(TimeUnit::Microsecond) => WireType::Time,
        LogicalType::Time64(TimeUnit::Nanosecond) => WireType::Time,
        LogicalType::Duration(TimeUnit::Microsecond) => WireType::Interval,
        LogicalType::Binary => WireType::Bytea,
        LogicalType::LargeBinary => WireType::Bytea,
        LogicalType::FixedSizeBinary(_) => WireType::Bytea,
        LogicalType::Utf8 => WireType::Text,
        LogicalType::LargeUtf8 => WireType::Text,
        _ => {
            return Err(Error::TypeUnsupported { column: col_name.clone(), data_type: tp });
        },
    };
    Ok(w)
}

/// The field descriptors of `schema`, in column order, or the rejection of its first column
/// that has no wire encoding. No descriptor is produced unless every column has one.
pub fn map_schema(schema: &Schema) -> (r: Result<Vec<PostgresField>, Error>)
    ensures
        match r {
            Ok(fields) => schema_supported(schema@) && fields@.map_values(|f: PostgresField| f@)
                == descriptors_of(schema@),
            Err(e) => exists|j: int|
                first_unsupported(schema@, j) && e.is_type_unsupported(#[trigger] schema@[j].0, schema@[j].1),
        },
{
    let n = schema.fields.len();
    let mut out: Vec<PostgresField> = Vec::new();
    let mut i: usize = 0;
    while i < n
        invariant
            n == schema.fields@.len(),
            i <= n,
            out@.len() == i,
            forall|k: int| 0 <= k < i ==> (#[trigger] wire_type_of(schema@[k].1)) is Some,
            forall|k: int|
                0 <= k < i ==> (#[trigger] out@[k])@ == (
                    schema@[k].0,
                    schema@[k].1,
                    wire_type_of(schema@[k].1)->0,
                ),
        decreases n - i,
    {
        let f: &Field = &schema.fields[i];
        match wire_type_for(&f.name, f.data_type) {
            Ok(w) => {
                out.push(PostgresField { name: f.name.clone(), logical_type: f.data_type, wire_type: w });
            },
            Err(e) => {
                assert(schema@[i as int] == f@);
                assert(first_unsupported(schema@, i as int));
                assert(e.is_type_unsupported(schema@[i as int].0, schema@[i as int].1));
                return Err(e);
            },
        }
        i = i + 1;
    }
    assert(out@.map_values(|f: PostgresField| f@) =~= descriptors_of(schema@));
    Ok(out)
}

} // verus!
