//! Properties that hold of every stream the encoder writes.

use vstd::prelude::*;
use vstd::utf8::{decode_utf8, encode_utf8_decode_utf8};
use crate::batch::{storage_fits, Column, ColumnValues};
use crate::encoder::{
    footer_bytes, header_bytes, row_bytes, row_fields, ArrowToPostgresBinaryEncoder, Descriptor,
};
use crate::mapping::descriptors_of;
use crate::temporal::{units_per_second, EPOCH_2000_DAYS, EPOCH_2000_MICROS};
use crate::types::{LogicalType, Schema, TimeUnit};
use crate::value::{field_bytes, null_field, payload_of};
use crate::wire::{
    be_bytes, be_signed, be_signed_value, be_value, fits_signed, lemma_be_bytes_len,
    lemma_be_round_trip, lemma_be_signed_round_trip, lemma_pow256_widths, pow256,
};

verus! {

/// The number a non-absent value at `row` stands for: an integer as itself, a Boolean as 1 or
/// 0, a floating-point number as its bit pattern, a temporal value as its stored count.
pub open spec fn stored_number(v: ColumnValues, row: int) -> int {
    match v {
        ColumnValues::Boolean(xs) => if xs@[row]->0 { 1 } else { 0 },
        ColumnValues::Int8(xs) => xs@[row]->0 as int,
        ColumnValues::Int16(xs) => xs@[row]->0 as int,
        ColumnValues::Int32(xs) => xs@[row]->0 as int,
        ColumnValues::Int64(xs) => xs@[row]->0 as int,
        ColumnValues::UInt8(xs) => xs@[row]->0 as int,
        ColumnValues::UInt16(xs) => xs@[row]->0 as int,
        ColumnValues::UInt32(xs) => xs@[row]->0 as int,
        ColumnValues::Float32(xs) => xs@[row]->0 as int,
        ColumnValues::Float64(xs) => xs@[row]->0 as int,
        _ => 0,
    }
}

/// How a reader of the stream recovers the stored number of a column of logical type `t`
/// from a payload `p`.
pub open spec fn decoded_number(t: LogicalType, p: Seq<u8>) -> int {
    match t {
        LogicalType::Boolean => p[0] as int,
        LogicalType::Float16 | LogicalType::Float32 | LogicalType::Float64 => be_value(p) as int,
        LogicalType::Timestamp(u, _) => (be_signed_value(p) + EPOCH_2000_MICROS) / (1_000_000int
            / units_per_second(u)),
        LogicalType::Date32 => be_signed_value(p) + EPOCH_2000_DAYS,
        LogicalType::Time32(u) | LogicalType::Time64(u) => be_signed_value(p) / (1_000_000int
            / units_per_second(u)),
        _ => be_signed_value(p),
    }
}

/// Whether the payload of logical type `t` holds its stored number exactly: every numeric type
/// with a wire encoding, but for 64-bit dates and nanosecond timestamps and times, whose
/// encodings drop a finer part.
pub open spec fn exact_numeric(t: LogicalType) -> bool {
    match t {
        LogicalType::Boolean | LogicalType::Int8 | LogicalType::Int16 | LogicalType::Int32
        | LogicalType::Int64 | LogicalType::UInt8 | LogicalType::UInt16 | LogicalType::UInt32
        | LogicalType::Float16 | LogicalType::Float32 | LogicalType::Float64
        | LogicalType::Date32 => true,
        LogicalType::Timestamp(u, _) => u != TimeUnit::Nanosecond,
        LogicalType::Time32(u) => u == TimeUnit::Second || u == TimeUnit::Millisecond,
        LogicalType::Time64(u) => u == TimeUnit::Microsecond,
        LogicalType::Duration(u) => u == TimeUnit::Microsecond,
        _ => false,
    }
}

/// A field written for a value is its payload's length as a 4-byte integer, then the payload.
pub proof fn law_field_layout(t: LogicalType, v: ColumnValues, row: int)
    requires
        0 <= row < v.spec_len(),
        !v.is_null_at(row),
        field_bytes(t, v, row) is Some,
    ensures
        payload_of(t, v, row) matches Some(p) && field_bytes(t, v, row)->0.len() == 4 + p.len()
            && be_signed_value(field_bytes(t, v, row)->0.subrange(0, 4)) == p.len()
            && field_bytes(t, v, row)->0.subrange(4, 4 + p.len() as int) == p,
{
    lemma_pow256_widths();
    let p = payload_of(t, v, row)->0;
    let f = field_bytes(t, v, row)->0;
    lemma_be_signed_round_trip(p.len() as int, 4);
    assert(f.subrange(0, 4) =~= be_signed(p.len() as int, 4));
    assert(f.subrange(4, 4 + p.len() as int) =~= p);
}

proof fn lemma_int32_round_trip(t: LogicalType, v: ColumnValues, row: int)
    requires
        v is Int32,
        storage_fits(t, v),
        exact_numeric(t),
        0 <= row < v.spec_len(),
        !v.is_null_at(row),
        payload_of(t, v, row) is Some,
    ensures
        decoded_number(t, payload_of(t, v, row)->0) == stored_number(v, row),
{
    lemma_pow256_widths();
    let x = stored_number(v, row);
    match t {
        LogicalType::Date32 => lemma_be_signed_round_trip(x - EPOCH_2000_DAYS, 4),
        LogicalType::Time32(u) => if u == TimeUnit::Second {
            lemma_be_signed_round_trip(x * 1_000_000, 8);
            assert((x * 1_000_000) / 1_000_000 == x) by (nonlinear_arith);
        } else {
            lemma_be_signed_round_trip(x * 1_000, 8);
            assert((x * 1_000) / 1_000 == x) by (nonlinear_arith);
        },
        _ => lemma_be_signed_round_trip(x, 4),
    }
}

proof fn lemma_int64_round_trip(t: LogicalType, v: ColumnValues, row: int)
    requires
        v is Int64,
        storage_fits(t, v),
        exact_numeric(t),
        0 <= row < v.spec_len(),
        !v.is_null_at(row),
        payload_of(t, v, row) is Some,
    ensures
        decoded_number(t, payload_of(t, v, row)->0) == stored_number(v, row),
{
    lemma_pow256_widths();
    let x = stored_number(v, row);
    match t {
        LogicalType::Timestamp(u, _) => if u == TimeUnit::Second {
            lemma_be_signed_round_trip(x * 1_000_000 - EPOCH_2000_MICROS, 8);
            assert((x * 1_000_000) / 1_000_000 == x) by (nonlinear_arith);
        } else if u == TimeUnit::Millisecond {
            lemma_be_signed_round_trip(x * 1_000 - EPOCH_2000_MICROS, 8);
            assert((x * 1_000) / 1_000 == x) by (nonlinear_arith);
        } else {
            lemma_be_signed_round_trip(x - EPOCH_2000_MICROS, 8);
        },
        LogicalType::Time64(u) => {
            assert(u == TimeUnit::Microsecond);
            lemma_be_signed_round_trip(x, 8);
            assert(x / 1 == x);
        },
        _ => lemma_be_signed_round_trip(x, 8),
    }
}

/// Reading a numeric value back from its payload gives the stored number, for every logical
/// type whose encoding keeps it whole.
pub proof fn law_numeric_round_trip(t: LogicalType, v: ColumnValues, row: int)
    requires
        storage_fits(t, v),
        exact_numeric(t),
        0 <= row < v.spec_len(),
        !v.is_null_at(row),
        payload_of(t, v, row) is Some,
    ensures
        decoded_number(t, payload_of(t, v, row)->0) == stored_number(v, row),
{
    lemma_pow256_widths();
    match v {
        ColumnValues::Int8(xs) => {
            lemma_be_signed_round_trip(xs@[row]->0 as int, 2);
            assert(decoded_number(t, payload_of(t, v, row)->0) == stored_number(v, row));
        },
        ColumnValues::Int16(xs) => {
            lemma_be_signed_round_trip(xs@[row]->0 as int, 2);
            assert(decoded_number(t, payload_of(t, v, row)->0) == stored_number(v, row));
        },
        ColumnValues::UInt8(xs) => {
            lemma_be_signed_round_trip(xs@[row]->0 as int, 2);
            assert(decoded_number(t, payload_of(t, v, row)->0) == stored_number(v, row));
        },
        ColumnValues::UInt16(xs) => {
            lemma_be_signed_round_trip(xs@[row]->0 as int, 4);
            assert(decoded_number(t, payload_of(t, v, row)->0) == stored_number(v, row));
        },
        ColumnValues::UInt32(xs) => {
            lemma_be_signed_round_trip(xs@[row]->0 as int, 8);
            assert(decoded_number(t, payload_of(t, v, row)->0) == stored_number(v, row));
        },
        ColumnValues::Float32(xs) => {
            lemma_be_round_trip(xs@[row]->0 as nat, 4);
            assert(decoded_number(t, payload_of(t, v, row)->0) == stored_number(v, row));
        },
        ColumnValues::Float64(xs) => {
            lemma_be_round_trip(xs@[row]->0 as nat, 8);
            assert(decoded_number(t, payload_of(t, v, row)->0) == stored_number(v, row));
        },
        ColumnValues::Int32(_) => lemma_int32_round_trip(t, v, row),
        ColumnValues::Int64(_) => lemma_int64_round_trip(t, v, row),
        _ => {},
    }
}

/// Binary values travel verbatim, and text values as their UTF-8 bytes, which decode back to
/// the text.
pub proof fn law_bytes_round_trip(t: LogicalType, v: ColumnValues, row: int)
    requires
        storage_fits(t, v),
        0 <= row < v.spec_len(),
        !v.is_null_at(row),
    ensures
        v matches ColumnValues::Bytes(xs) ==> payload_of(t, v, row) == Some(xs@[row]->0@),
        v matches ColumnValues::Text(xs) ==> payload_of(t, v, row) matches Some(p) && decode_utf8(p)
            == xs@[row]->0@,
{
    if let ColumnValues::Text(xs) = v {
        encode_utf8_decode_utf8(xs@[row]->0@);
    }
}

/// In a one-column batch each row's tuple is the field count 1 as 2 bytes, then that column's
/// field.
pub proof fn law_single_column_tuple(fields: Seq<Descriptor>, cols: Seq<Column>, row: int)
    requires
        fields.len() == 1,
        cols.len() == 1,
    ensures
        row_bytes(fields, cols, row) == match field_bytes(fields[0].1, cols[0].values, row) {
            Some(f) => Some(seq![0x00u8, 0x01u8] + f),
            None => None::<Seq<u8>>,
        },
{
    reveal_with_fuel(be_bytes, 3);
    assert(be_bytes(1, 2) =~= seq![0x00u8, 0x01u8]);
    assert(cols.len() % 65536 == 1);
    assert(row_fields(fields, cols, row, 0) == Some(Seq::<u8>::empty()));
    if let Some(f) = field_bytes(fields[0].1, cols[0].values, row) {
        assert(Seq::<u8>::empty() + f =~= f);
    }
}

/// An absent value is written as exactly four bytes equal to −1, whatever the column's type.
pub proof fn law_null_field(t: LogicalType, v: ColumnValues, row: int)
    requires
        0 <= row < v.spec_len(),
        v.is_null_at(row),
    ensures
        field_bytes(t, v, row) == Some(seq![0xffu8, 0xffu8, 0xffu8, 0xffu8]),
        be_signed_value(null_field()) == -1,
{
    lemma_pow256_widths();
    reveal_with_fuel(be_bytes, 5);
    assert(null_field() =~= seq![0xffu8, 0xffu8, 0xffu8, 0xffu8]);
    lemma_be_signed_round_trip(-1, 4);
}

/// The header is 19 bytes: the 11-byte signature, then two 4-byte zero fields.
pub proof fn law_header()
    ensures
        header_bytes().len() == 19,
        header_bytes().subrange(0, 11) == seq![
            0x50u8, 0x47u8, 0x43u8, 0x4fu8, 0x50u8, 0x59u8, 0x0au8, 0xffu8, 0x0du8, 0x0au8, 0x00u8,
        ],
        be_signed_value(header_bytes().subrange(11, 15)) == 0,
        be_signed_value(header_bytes().subrange(15, 19)) == 0,
{
    lemma_pow256_widths();
    reveal_with_fuel(be_bytes, 5);
    assert(header_bytes().subrange(0, 11) =~= seq![
        0x50u8, 0x47u8, 0x43u8, 0x4fu8, 0x50u8, 0x59u8, 0x0au8, 0xffu8, 0x0du8, 0x0au8, 0x00u8,
    ]);
    assert(header_bytes().subrange(11, 15) =~= be_signed(0, 4));
    assert(header_bytes().subrange(15, 19) =~= be_signed(0, 4));
    lemma_be_signed_round_trip(0, 4);
}

/// The footer is exactly 2 bytes equal to −1.
pub proof fn law_footer()
    ensures
        footer_bytes() == seq![0xffu8, 0xffu8],
        be_signed_value(footer_bytes()) == -1,
{
    lemma_pow256_widths();
    reveal_with_fuel(be_bytes, 3);
    assert(footer_bytes() =~= seq![0xffu8, 0xffu8]);
    lemma_be_signed_round_trip(-1, 2);
}

/// Two encoders built from the same schema hold identical field descriptors.
pub proof fn law_mapping_deterministic(
    a: ArrowToPostgresBinaryEncoder,
    b: ArrowToPostgresBinaryEncoder,
    schema: Schema,
)
    requires
        a.descriptors() == descriptors_of(schema@),
        b.descriptors() == descriptors_of(schema@),
    ensures
        a.descriptors() == b.descriptors(),
{
}

/// An 8-bit unsigned value `x` travels as the 2-byte signed integer `x`, which is never
/// negative.
pub proof fn law_unsigned_widening(v: ColumnValues, row: int)
    requires
        v is UInt8,
        0 <= row < v.spec_len(),
        !v.is_null_at(row),
    ensures
        payload_of(LogicalType::UInt8, v, row) == Some(be_signed(stored_number(v, row), 2)),
        fits_signed(stored_number(v, row), 2),
        be_signed_value(payload_of(LogicalType::UInt8, v, row)->0) == stored_number(v, row),
        be_signed_value(payload_of(LogicalType::UInt8, v, row)->0) >= 0,
{
    lemma_pow256_widths();
    lemma_be_signed_round_trip(stored_number(v, row), 2);
}

} // verus!
