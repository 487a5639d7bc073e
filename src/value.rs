//! The value serializer: one length-prefixed field per (column, row).

use vstd::prelude::*;
use vstd::utf8::encode_utf8;
use crate::batch::ColumnValues;
use crate::temporal::{
    date32_payload, date64_payload, encode_date32, encode_date64, encode_time, encode_timestamp,
    time_payload, timestamp_payload,
};
use crate::types::{Error, LogicalType};
use crate::wire::{be_bytes, be_signed, encode_be, encode_signed, lemma_pow256_widths};

verus! {

/// The four bytes that stand for an absent value: the length −1 and no payload.
pub open spec fn null_field() -> Seq<u8> {
    be_signed(-1, 4)
}

/// The payload of the value at `row` of a column of logical type `t` stored as `v`, or `None`
/// where the value is absent or has no representation in its wire type.
pub open spec fn payload_of(t: LogicalType, v: ColumnValues, row: int) -> Option<Seq<u8>> {
    match v {
        ColumnValues::Null(_) => None,
        ColumnValues::Boolean(xs) => match xs@[row] {
            Some(b) => Some(seq![if b { 1u8 } else { 0u8 }]),
            None => None,
        },
        ColumnValues::Int8(xs) => match xs@[row] {
            Some(x) => Some(be_signed(x as int, 2)),
            None => None,
        },
        ColumnValues::Int16(xs) => match xs@[row] {
            Some(x) => Some(be_signed(x as int, 2)),
            None => None,
        },
        ColumnValues::Int32(xs) => match xs@[row] {
            Some(x) => match t {
                LogicalType::Date32 => date32_payload(x as int),
                LogicalType::Time32(u) => time_payload(u, x as int),
                _ => Some(be_signed(x as int, 4)),
            },
            None => None,
        },
        ColumnValues::Int64(xs) => match xs@[row] {
            Some(x) => match t {
                LogicalType::Timestamp(u, _) => timestamp_payload(u, x as int),
                LogicalType::Date64 => date64_payload(x as int),
                LogicalType::Time64(u) => time_payload(u, x as int),
                _ => Some(be_signed(x as int, 8)),
            },
            None => None,
        },
        ColumnValues::UInt8(xs) => match xs@[row] {
            Some(x) => Some(be_signed(x as int, 2)),
            None => None,
        },
        ColumnValues::UInt16(xs) => match xs@[row] {
            Some(x) => Some(be_signed(x as int, 4)),
            None => None,
        },
        ColumnValues::UInt32(xs) => match xs@[row] {
            Some(x) => Some(be_signed(x as int, 8)),
            None => None,
        },
        ColumnValues::Float32(xs) => match xs@[row] {
            Some(x) => Some(be_bytes(x as nat, 4)),
            None => None,
        },
        ColumnValues::Float64(xs) => match xs@[row] {
            Some(x) => Some(be_bytes(x as nat, 8)),
            None => None,
        },
        ColumnValues::Bytes(xs) => match xs@[row] {
            Some(x) => Some(x@),
            None => None,
        },
        ColumnValues::Text(xs) => match xs@[row] {
            Some(x) => Some(encode_utf8(x@)),
            None => None,
        },
    }
}

/// The largest payload length that a field's 4-byte length can state.
pub open spec fn max_field_len() -> nat {
    0x7fff_ffff
}

/// The bytes of the field for the value at `row` of a column of logical type `t` stored as
/// `v`: `null_field()` for an absent value, else the payload's length and the payload; `None`
/// where the value cannot be written.
pub open spec fn field_bytes(t: LogicalType, v: ColumnValues, row: int) -> Option<Seq<u8>> {
    if v.is_null_at(row) {
        Some(null_field())
    } else {
        match payload_of(t, v, row) {
            Some(p) => if p.len() <= max_field_len() {
                Some(be_signed(p.len() as int, 4) + p)
            } else {
                None
            },
            None => None,
        }
    }
}

/// Appends the bytes of `b` to `out`.
pub fn append_slice(out: &mut Vec<u8>, b: &[u8])
    ensures
        final(out)@ == old(out)@ + b@,
{
    let mut i: usize = 0;
    while i < b.len()
        invariant
            i <= b@.len(),
            out@ == old(out)@ + b@.subrange(0, i as int),
        decreases b@.len() - i,
    {
        out.push(b[i]);
        i = i + 1;
        assert(out@ =~= old(out)@ + b@.subrange(0, i as int));
    }
    assert(b@.subrange(0, i as int) =~= b@);
}

/// The payload of the value at `row`, or `None` where it is absent or cannot be converted.
fn value_payload(t: LogicalType, v: &ColumnValues, row: usize) -> (r: Option<Vec<u8>>)
    requires
        row < v.spec_len(),
    ensures
        r matches Some(p) ==> payload_of(t, *v, row as int) == Some(p@),
        r is None ==> payload_of(t, *v, row as int) is None,
{
    proof {
        lemma_pow256_widths();
    }
    match v {
        ColumnValues::Null(_) => None,
        ColumnValues::Boolean(xs) => match xs[row] {
            Some(b) => Some(if b { vec![1u8] } else { vec![0u8] }),
            None => None,
        },
        ColumnValues::Int8(xs) => match xs[row] {
            Some(x) => Some(encode_signed(x as i64, 2)),
            None => None,
        },
        ColumnValues::Int16(xs) => match xs[row] {
            Some(x) => Some(encode_signed(x as i64, 2)),
            None => None,
        },
        ColumnValues::Int32(xs) => match xs[row] {
            Some(x) => match t {
                LogicalType::Date32 => encode_date32(x),
                LogicalType::Time32(u) => encode_time(u, x as i64),
                _ => Some(encode_signed(x as i64, 4)),
            },
            None => None,
        },
        ColumnValues::Int64(xs) => match xs[row] {
            Some(x) => match t {
                LogicalType::Timestamp(u, _) => encode_timestamp(u, x),
                LogicalType::Date64 => encode_date64(x),
                LogicalType::Time64(u) => encode_time(u, x),
                _ => Some(encode_signed(x, 8)),
            },
            None => None,
        },
        ColumnValues::UInt8(xs) => match xs[row] {
            Some(x) => Some(encode_signed(x as i64, 2)),
            None => None,
        },
        ColumnValues::UInt16(xs) => match xs[row] {
            Some(x) => Some(encode_signed(x as i64, 4)),
            None => None,
        },
        ColumnValues::UInt32(xs) => match xs[row] {
            Some(x) => Some(encode_signed(x as i64, 8)),
            None => None,
        },
        ColumnValues::Float32(xs) => match xs[row] {
            Some(x) => Some(encode_be(x as u64, 4)),
            None => None,
        },
        ColumnValues::Float64(xs) => match xs[row] {
            Some(x) => Some(encode_be(x, 8)),
            None => None,
        },
        ColumnValues::Bytes(xs) => match &xs[row] {
            Some(x) => {
                let mut p: Vec<u8> = Vec::new();
                append_slice(&mut p, x.as_slice());
                Some(p)
            },
            None => None,
        },
        ColumnValues::Text(xs) => match &xs[row] {
            Some(x) => {
                let mut p: Vec<u8> = Vec::new();
                append_slice(&mut p, x.as_str().as_bytes());
                Some(p)
            },
            None => None,
        },
    }
}

/// Appends to `out` the field for the value at `row` of column `name`, of logical type `t`
/// and stored as `v`. On failure `out` is left in an unspecified state.
pub fn write_field(name: &String, t: LogicalType, v: &ColumnValues, row: usize, out: &mut Vec<u8>) -> (r: Result<(), Error>)
    requires
        row < v.spec_len(),
    ensures
        match r {
            Ok(_) => field_bytes(t, *v, row as int) matches Some(f) && final(out)@ == old(out)@ + f,
            Err(e) => field_bytes(t, *v, row as int) is None && (e.is_conversion_failure(name@)
                || (payload_of(t, *v, row as int) matches Some(p) && e.is_too_large(name@, p.len()))),
        },
{
    proof {
        lemma_pow256_widths();
    }
    if is_null_at_exec(v, row) {
        let minus_one = encode_signed(-1, 4);
        append_slice(out, minus_one.as_slice());
        return Ok(());
    }
    match value_payload(t, v, row) {
        None => Err(Error::ValueConversionFailed { field: name.clone() }),
        Some(p) => {
            if p.len() > 0x7fff_ffff {
                return Err(Error::FieldTooLarge { field: name.clone(), size: p.len() });
            }
            let len = encode_signed(p.len() as i64, 4);
            append_slice(out, len.as_slice());
            append_slice(out, p.as_slice());
            assert(out@ =~= old(out)@ + (len@ + p@));
            Ok(())
        },
    }
}

/// Whether the value at `row` is absent.
pub fn is_null_at_exec(v: &ColumnValues, row: usize) -> (r: bool)
    requires
        row < v.spec_len(),
    ensures
        r == v.is_null_at(row as int),
{
    match v {
        ColumnValues::Null(_) => true,
        ColumnValues::Boolean(xs) => xs[row].is_none(),
        ColumnValues::Int8(xs) => xs[row].is_none(),
        ColumnValues::Int16(xs) => xs[row].is_none(),
        ColumnValues::Int32(xs) => xs[row].is_none(),
        ColumnValues::Int64(xs) => xs[row].is_none(),
        ColumnValues::UInt8(xs) => xs[row].is_none(),
        ColumnValues::UInt16(xs) => xs[row].is_none(),
        ColumnValues::UInt32(xs) => xs[row].is_none(),
        ColumnValues::Float32(xs) => xs[row].is_none(),
        ColumnValues::Float64(xs) => xs[row].is_none(),
        ColumnValues::Bytes(xs) => xs[row].is_none(),
        ColumnValues::Text(xs) => xs[row].is_none(),
    }
}

} // verus!
