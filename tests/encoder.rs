use bytes::BytesMut;
use pgpq::{
    ArrowToPostgresBinaryEncoder, Column, ColumnValues, EncoderState, Error, Field, LogicalType,
    RecordBatch, Schema, TimeUnit, WireType,
};

const HEADER: [u8; 19] = [
    0x50, 0x47, 0x43, 0x4f, 0x50, 0x59, 0x0a, 0xff, 0x0d, 0x0a, 0x00, 0, 0, 0, 0, 0, 0, 0, 0,
];

fn one_column_schema(data_type: LogicalType) -> Schema {
    Schema { fields: vec![Field { name: "col0".to_string(), data_type }] }
}

fn one_column_batch(data_type: LogicalType, values: ColumnValues, num_rows: usize) -> RecordBatch {
    RecordBatch { columns: vec![Column { data_type, values }], num_rows }
}

/// Encodes one batch of a one-column schema and returns the bytes between header and footer.
fn encode_body(data_type: LogicalType, values: ColumnValues, num_rows: usize) -> Result<Vec<u8>, Error> {
    let mut enc = ArrowToPostgresBinaryEncoder::try_new(&one_column_schema(data_type)).unwrap();
    let mut buf = BytesMut::new();
    enc.write_header(&mut buf);
    enc.write_batch(&one_column_batch(data_type, values, num_rows), &mut buf)?;
    enc.write_footer(&mut buf).unwrap();
    assert_eq!(&buf[..19], &HEADER[..]);
    assert_eq!(&buf[buf.len() - 2..], &[0xff, 0xff][..]);
    Ok(buf[19..buf.len() - 2].to_vec())
}

/// The tuple of a one-column row holding `payload`.
fn tuple(payload: &[u8]) -> Vec<u8> {
    let mut out = vec![0x00, 0x01];
    out.extend_from_slice(&(payload.len() as i32).to_be_bytes());
    out.extend_from_slice(payload);
    out
}

const NULL_TUPLE: [u8; 6] = [0x00, 0x01, 0xff, 0xff, 0xff, 0xff];

#[test]
fn int32_nullable_rows() {
    let body = encode_body(
        LogicalType::Int32,
        ColumnValues::Int32(vec![Some(1), None, Some(-5)]),
        3,
    )
    .unwrap();
    let mut expected = tuple(&[0x00, 0x00, 0x00, 0x01]);
    expected.extend_from_slice(&NULL_TUPLE);
    expected.extend(tuple(&[0xff, 0xff, 0xff, 0xfb]));
    assert_eq!(body, expected);
}

#[test]
fn utf8_row() {
    let body = encode_body(LogicalType::Utf8, ColumnValues::Text(vec![Some("hi".to_string())]), 1).unwrap();
    assert_eq!(body, vec![0x00, 0x01, 0x00, 0x00, 0x00, 0x02, 0x68, 0x69]);
}

#[test]
fn duration_microseconds_row() {
    let body = encode_body(
        LogicalType::Duration(TimeUnit::Microsecond),
        ColumnValues::Int64(vec![Some(1_000_000)]),
        1,
    )
    .unwrap();
    assert_eq!(body, tuple(&[0x00, 0x00, 0x00, 0x00, 0x00, 0x0f, 0x42, 0x40]));
}

#[test]
fn struct_column_is_rejected() {
    let schema = Schema {
        fields: vec![
            Field { name: "a".to_string(), data_type: LogicalType::Int32 },
            Field { name: "nested".to_string(), data_type: LogicalType::Struct },
            Field { name: "c".to_string(), data_type: LogicalType::List },
        ],
    };
    let err = ArrowToPostgresBinaryEncoder::try_new(&schema).unwrap_err();
    assert_eq!(
        err,
        Error::TypeUnsupported { column: "nested".to_string(), data_type: LogicalType::Struct }
    );
}

#[test]
fn batch_before_header_fails() {
    let mut enc = ArrowToPostgresBinaryEncoder::try_new(&one_column_schema(LogicalType::Int32)).unwrap();
    let mut buf = BytesMut::new();
    let batch = one_column_batch(LogicalType::Int32, ColumnValues::Int32(vec![Some(1)]), 1);
    let err = enc.write_batch(&batch, &mut buf).unwrap_err();
    assert_eq!(err, Error::InvalidState { expected: EncoderState::Encoding, found: EncoderState::Created });
    assert!(buf.is_empty());
    assert_eq!(enc.state(), EncoderState::Created);
}

#[test]
fn header_is_nineteen_bytes() {
    let mut enc = ArrowToPostgresBinaryEncoder::try_new(&one_column_schema(LogicalType::Boolean)).unwrap();
    let mut buf = BytesMut::new();
    buf.extend_from_slice(b"xy");
    enc.write_header(&mut buf);
    assert_eq!(buf.len(), 21);
    assert_eq!(&buf[2..], &HEADER[..]);
    assert_eq!(enc.state(), EncoderState::Encoding);
}

#[test]
fn footer_is_minus_one() {
    let mut enc = ArrowToPostgresBinaryEncoder::try_new(&one_column_schema(LogicalType::Boolean)).unwrap();
    let mut buf = BytesMut::new();
    enc.write_header(&mut buf);
    enc.write_footer(&mut buf).unwrap();
    assert_eq!(buf.len(), 21);
    assert_eq!(&buf[19..], &[0xff, 0xff][..]);
    assert_eq!(enc.state(), EncoderState::Finished);
}

#[test]
fn footer_before_header_fails() {
    let mut enc = ArrowToPostgresBinaryEncoder::try_new(&one_column_schema(LogicalType::Boolean)).unwrap();
    let mut buf = BytesMut::new();
    let err = enc.write_footer(&mut buf).unwrap_err();
    assert_eq!(err, Error::InvalidState { expected: EncoderState::Encoding, found: EncoderState::Created });
    assert!(buf.is_empty());
}

#[test]
fn no_write_after_footer() {
    let mut enc = ArrowToPostgresBinaryEncoder::try_new(&one_column_schema(LogicalType::Int16)).unwrap();
    let mut buf = BytesMut::new();
    enc.write_header(&mut buf);
    enc.write_footer(&mut buf).unwrap();
    let batch = one_column_batch(LogicalType::Int16, ColumnValues::Int16(vec![Some(7)]), 1);
    let err = enc.write_batch(&batch, &mut buf).unwrap_err();
    assert_eq!(err, Error::InvalidState { expected: EncoderState::Encoding, found: EncoderState::Finished });
    let err = enc.write_footer(&mut buf).unwrap_err();
    assert_eq!(err, Error::InvalidState { expected: EncoderState::Encoding, found: EncoderState::Finished });
    assert_eq!(buf.len(), 21);
}

#[test]
fn mapping_is_deterministic() {
    let schema = Schema {
        fields: vec![
            Field { name: "t".to_string(), data_type: LogicalType::Timestamp(TimeUnit::Millisecond, true) },
            Field { name: "u".to_string(), data_type: LogicalType::UInt16 },
            Field { name: "s".to_string(), data_type: LogicalType::LargeUtf8 },
        ],
    };
    let a = ArrowToPostgresBinaryEncoder::try_new(&schema).unwrap();
    let b = ArrowToPostgresBinaryEncoder::try_new(&schema).unwrap();
    assert_eq!(a.fields(), b.fields());
    let wire: Vec<WireType> = a.fields().iter().map(|f| f.wire_type).collect();
    assert_eq!(wire, vec![WireType::TimestampTz, WireType::Int4, WireType::Text]);
    assert_eq!(a.fields()[2].name, "s");
    assert_eq!(a.fields()[0].logical_type, LogicalType::Timestamp(TimeUnit::Millisecond, true));
}

#[test]
fn type_mapping_table() {
    let cases = vec![
        (LogicalType::Null, WireType::Int2),
        (LogicalType::Boolean, WireType::Bool),
        (LogicalType::Int8, WireType::Int2),
        (LogicalType::Int16, WireType::Int2),
        (LogicalType::Int32, WireType::Int4),
        (LogicalType::Int64, WireType::Int8),
        (LogicalType::UInt8, WireType::Int2),
        (LogicalType::UInt16, WireType::Int4),
        (LogicalType::UInt32, WireType::Int8),
        (LogicalType::Float16, WireType::Float4),
        (LogicalType::Float32, WireType::Float4),
        (LogicalType::Float64, WireType::Float8),
        (LogicalType::Timestamp(TimeUnit::Second, false), WireType::Timestamp),
        (LogicalType::Timestamp(TimeUnit::Nanosecond, true), WireType::TimestampTz),
        (LogicalType::Date32, WireType::Date),
        (LogicalType::Date64, WireType::Date),
        (LogicalType::Time32(TimeUnit::Second), WireType::Time),
        (LogicalType::Time32(TimeUnit::Millisecond), WireType::Time),
        (LogicalType::Time64(TimeUnit::Microsecond), WireType::Time),
        (LogicalType::Time64(TimeUnit::Nanosecond), WireType::Time),
        (LogicalType::Duration(TimeUnit::Microsecond), WireType::Interval),
        (LogicalType::Binary, WireType::Bytea),
        (LogicalType::LargeBinary, WireType::Bytea),
        (LogicalType::FixedSizeBinary(3), WireType::Bytea),
        (LogicalType::Utf8, WireType::Text),
        (LogicalType::LargeUtf8, WireType::Text),
    ];
    for (logical, wire) in cases {
        let enc = ArrowToPostgresBinaryEncoder::try_new(&one_column_schema(logical)).unwrap();
        assert_eq!(enc.fields()[0].wire_type, wire);
    }
}

#[test]
fn unsupported_types_are_rejected() {
    let cases = vec![
        LogicalType::UInt64,
        LogicalType::Duration(TimeUnit::Millisecond),
        LogicalType::Duration(TimeUnit::Second),
        LogicalType::Duration(TimeUnit::Nanosecond),
        LogicalType::Time32(TimeUnit::Microsecond),
        LogicalType::Time64(TimeUnit::Second),
        LogicalType::List,
        LogicalType::FixedSizeList,
        LogicalType::LargeList,
        LogicalType::Struct,
        LogicalType::Dictionary,
        LogicalType::Decimal128,
        LogicalType::Decimal256,
        LogicalType::Other,
    ];
    for logical in cases {
        let err = ArrowToPostgresBinaryEncoder::try_new(&one_column_schema(logical)).unwrap_err();
        assert_eq!(err, Error::TypeUnsupported { column: "col0".to_string(), data_type: logical });
    }
}

#[test]
fn uint8_widens_to_int2() {
    let body = encode_body(LogicalType::UInt8, ColumnValues::UInt8(vec![Some(255), Some(0), Some(128)]), 3).unwrap();
    let mut expected = tuple(&[0x00, 0xff]);
    expected.extend(tuple(&[0x00, 0x00]));
    expected.extend(tuple(&[0x00, 0x80]));
    assert_eq!(body, expected);
}

#[test]
fn uint16_and_uint32_widen() {
    let body = encode_body(LogicalType::UInt16, ColumnValues::UInt16(vec![Some(65535)]), 1).unwrap();
    assert_eq!(body, tuple(&[0x00, 0x00, 0xff, 0xff]));
    let body = encode_body(LogicalType::UInt32, ColumnValues::UInt32(vec![Some(u32::MAX)]), 1).unwrap();
    assert_eq!(body, tuple(&[0x00, 0x00, 0x00, 0x00, 0xff, 0xff, 0xff, 0xff]));
}

#[test]
fn signed_integers() {
    let body = encode_body(LogicalType::Int8, ColumnValues::Int8(vec![Some(-1), Some(0), Some(1)]), 3).unwrap();
    let mut expected = tuple(&[0xff, 0xff]);
    expected.extend(tuple(&[0x00, 0x00]));
    expected.extend(tuple(&[0x00, 0x01]));
    assert_eq!(body, expected);
    let body = encode_body(LogicalType::Int16, ColumnValues::Int16(vec![Some(i16::MIN)]), 1).unwrap();
    assert_eq!(body, tuple(&[0x80, 0x00]));
    let body = encode_body(LogicalType::Int64, ColumnValues::Int64(vec![Some(i64::MIN), Some(i64::MAX)]), 2).unwrap();
    let mut expected = tuple(&[0x80, 0, 0, 0, 0, 0, 0, 0]);
    expected.extend(tuple(&[0x7f, 0xff, 0xff, 0xff, 0xff, 0xff, 0xff, 0xff]));
    assert_eq!(body, expected);
}

#[test]
fn booleans() {
    let body = encode_body(LogicalType::Boolean, ColumnValues::Boolean(vec![Some(true), Some(false), None]), 3).unwrap();
    let mut expected = tuple(&[0x01]);
    expected.extend(tuple(&[0x00]));
    expected.extend_from_slice(&NULL_TUPLE);
    assert_eq!(body, expected);
}

#[test]
fn floats_as_bit_patterns() {
    let body = encode_body(LogicalType::Float32, ColumnValues::Float32(vec![Some(1.5f32.to_bits())]), 1).unwrap();
    assert_eq!(body, tuple(&[0x3f, 0xc0, 0x00, 0x00]));
    let body = encode_body(LogicalType::Float64, ColumnValues::Float64(vec![Some((-2.25f64).to_bits())]), 1).unwrap();
    assert_eq!(body, tuple(&[0xc0, 0x02, 0, 0, 0, 0, 0, 0]));
    let body = encode_body(LogicalType::Float16, ColumnValues::Float32(vec![Some(1.0f32.to_bits())]), 1).unwrap();
    assert_eq!(body, tuple(&[0x3f, 0x80, 0x00, 0x00]));
}

#[test]
fn null_fields_for_every_type() {
    let cases = vec![
        (LogicalType::Null, ColumnValues::Null(1)),
        (LogicalType::Boolean, ColumnValues::Boolean(vec![None])),
        (LogicalType::Int64, ColumnValues::Int64(vec![None])),
        (LogicalType::Float64, ColumnValues::Float64(vec![None])),
        (LogicalType::Timestamp(TimeUnit::Second, true), ColumnValues::Int64(vec![None])),
        (LogicalType::Date32, ColumnValues::Int32(vec![None])),
        (LogicalType::Binary, ColumnValues::Bytes(vec![None])),
        (LogicalType::Utf8, ColumnValues::Text(vec![None])),
    ];
    for (logical, values) in cases {
        assert_eq!(encode_body(logical, values, 1).unwrap(), NULL_TUPLE.to_vec());
    }
}

#[test]
fn timestamps_in_each_unit() {
    let epoch = [0xff, 0xfc, 0xa2, 0xfe, 0xc4, 0xc8, 0x20, 0x00];
    let body = encode_body(LogicalType::Timestamp(TimeUnit::Second, false), ColumnValues::Int64(vec![Some(0)]), 1).unwrap();
    assert_eq!(body, tuple(&epoch));
    let body = encode_body(
        LogicalType::Timestamp(TimeUnit::Second, true),
        ColumnValues::Int64(vec![Some(1675210660)]),
        1,
    )
    .unwrap();
    assert_eq!(body, tuple(&[0x00, 0x02, 0x96, 0x97, 0x25, 0x18, 0x51, 0x00]));
    let body = encode_body(
        LogicalType::Timestamp(TimeUnit::Millisecond, false),
        ColumnValues::Int64(vec![Some(1675210660123)]),
        1,
    )
    .unwrap();
    assert_eq!(body, tuple(&[0x00, 0x02, 0x96, 0x97, 0x25, 0x1a, 0x31, 0x78]));
    let body = encode_body(
        LogicalType::Timestamp(TimeUnit::Microsecond, false),
        ColumnValues::Int64(vec![Some(946_684_800_000_000)]),
        1,
    )
    .unwrap();
    assert_eq!(body, tuple(&[0, 0, 0, 0, 0, 0, 0, 0]));
}

#[test]
fn nanosecond_timestamps_cut_toward_zero() {
    let body = encode_body(
        LogicalType::Timestamp(TimeUnit::Nanosecond, false),
        ColumnValues::Int64(vec![Some(-1), Some(1999)]),
        2,
    )
    .unwrap();
    let mut expected = tuple(&[0xff, 0xfc, 0xa2, 0xfe, 0xc4, 0xc8, 0x20, 0x00]);
    expected.extend(tuple(&[0xff, 0xfc, 0xa2, 0xfe, 0xc4, 0xc8, 0x20, 0x02]));
    assert_eq!(body, expected);
}

#[test]
fn timestamp_out_of_range_fails() {
    let err = encode_body(
        LogicalType::Timestamp(TimeUnit::Second, false),
        ColumnValues::Int64(vec![Some(i64::MAX)]),
        1,
    )
    .unwrap_err();
    assert_eq!(err, Error::ValueConversionFailed { field: "col0".to_string() });
}

#[test]
fn dates() {
    let body = encode_body(LogicalType::Date32, ColumnValues::Int32(vec![Some(0), Some(10957)]), 2).unwrap();
    let mut expected = tuple(&[0xff, 0xff, 0xd5, 0x33]);
    expected.extend(tuple(&[0, 0, 0, 0]));
    assert_eq!(body, expected);
    let body = encode_body(LogicalType::Date64, ColumnValues::Int64(vec![Some(86_400_000), Some(-1)]), 2).unwrap();
    let mut expected = tuple(&[0xff, 0xff, 0xd5, 0x34]);
    expected.extend(tuple(&[0xff, 0xff, 0xd5, 0x32]));
    assert_eq!(body, expected);
}

#[test]
fn date_out_of_range_fails() {
    let err = encode_body(LogicalType::Date32, ColumnValues::Int32(vec![Some(i32::MAX)]), 1).unwrap_err();
    assert_eq!(err, Error::ValueConversionFailed { field: "col0".to_string() });
}

#[test]
fn times_of_day() {
    let one_second = [0, 0, 0, 0, 0, 0x0f, 0x42, 0x40];
    let cases = vec![
        (LogicalType::Time32(TimeUnit::Second), ColumnValues::Int32(vec![Some(1)])),
        (LogicalType::Time32(TimeUnit::Millisecond), ColumnValues::Int32(vec![Some(1_000)])),
        (LogicalType::Time64(TimeUnit::Microsecond), ColumnValues::Int64(vec![Some(1_000_000)])),
        (LogicalType::Time64(TimeUnit::Nanosecond), ColumnValues::Int64(vec![Some(1_000_000_999)])),
    ];
    for (logical, values) in cases {
        assert_eq!(encode_body(logical, values, 1).unwrap(), tuple(&one_second));
    }
}

#[test]
fn time_outside_a_day_fails() {
    let err = encode_body(LogicalType::Time32(TimeUnit::Second), ColumnValues::Int32(vec![Some(86_400)]), 1).unwrap_err();
    assert_eq!(err, Error::ValueConversionFailed { field: "col0".to_string() });
    let err = encode_body(LogicalType::Time64(TimeUnit::Microsecond), ColumnValues::Int64(vec![Some(-1)]), 1).unwrap_err();
    assert_eq!(err, Error::ValueConversionFailed { field: "col0".to_string() });
}

#[test]
fn binary_and_text_verbatim() {
    let body = encode_body(LogicalType::Binary, ColumnValues::Bytes(vec![Some(vec![0, 1, 0xfe]), Some(vec![])]), 2).unwrap();
    let mut expected = tuple(&[0, 1, 0xfe]);
    expected.extend(tuple(&[]));
    assert_eq!(body, expected);
    let body = encode_body(LogicalType::FixedSizeBinary(2), ColumnValues::Bytes(vec![Some(vec![9, 8])]), 1).unwrap();
    assert_eq!(body, tuple(&[9, 8]));
    let body = encode_body(LogicalType::LargeUtf8, ColumnValues::Text(vec![Some("é!".to_string())]), 1).unwrap();
    assert_eq!(body, tuple(&[0xc3, 0xa9, 0x21]));
}

#[test]
fn several_columns_and_batches() {
    let schema = Schema {
        fields: vec![
            Field { name: "a".to_string(), data_type: LogicalType::Int16 },
            Field { name: "b".to_string(), data_type: LogicalType::Utf8 },
        ],
    };
    let mut enc = ArrowToPostgresBinaryEncoder::try_new(&schema).unwrap();
    let mut buf = BytesMut::new();
    enc.write_header(&mut buf);
    for (n, s) in [(1i16, "x"), (2i16, "yz")] {
        let batch = RecordBatch {
            columns: vec![
                Column { data_type: LogicalType::Int16, values: ColumnValues::Int16(vec![Some(n)]) },
                Column { data_type: LogicalType::Utf8, values: ColumnValues::Text(vec![Some(s.to_string())]) },
            ],
            num_rows: 1,
        };
        enc.write_batch(&batch, &mut buf).unwrap();
    }
    enc.write_footer(&mut buf).unwrap();
    let expected: Vec<u8> = vec![
        0x00, 0x02, 0, 0, 0, 2, 0x00, 0x01, 0, 0, 0, 1, b'x',
        0x00, 0x02, 0, 0, 0, 2, 0x00, 0x02, 0, 0, 0, 2, b'y', b'z',
    ];
    assert_eq!(&buf[19..buf.len() - 2], &expected[..]);
}

#[test]
fn empty_batch_writes_nothing() {
    let body = encode_body(LogicalType::Int32, ColumnValues::Int32(vec![]), 0).unwrap();
    assert!(body.is_empty());
}

#[test]
fn column_count_mismatch_fails() {
    let mut enc = ArrowToPostgresBinaryEncoder::try_new(&one_column_schema(LogicalType::Int32)).unwrap();
    let mut buf = BytesMut::new();
    enc.write_header(&mut buf);
    let batch = RecordBatch { columns: vec![], num_rows: 0 };
    let err = enc.write_batch(&batch, &mut buf).unwrap_err();
    assert_eq!(err, Error::ColumnCountMismatch { expected: 1, found: 0 });
    assert_eq!(buf.len(), 19);
}

#[test]
fn column_type_or_length_mismatch_fails() {
    let mut enc = ArrowToPostgresBinaryEncoder::try_new(&one_column_schema(LogicalType::Int32)).unwrap();
    let mut buf = BytesMut::new();
    enc.write_header(&mut buf);
    let wrong_type = one_column_batch(LogicalType::Int64, ColumnValues::Int64(vec![Some(1)]), 1);
    let err = enc.write_batch(&wrong_type, &mut buf).unwrap_err();
    assert_eq!(err, Error::ColumnMismatch { field: "col0".to_string() });
    let wrong_storage = one_column_batch(LogicalType::Int32, ColumnValues::Int64(vec![Some(1)]), 1);
    assert!(enc.write_batch(&wrong_storage, &mut buf).is_err());
    let wrong_length = one_column_batch(LogicalType::Int32, ColumnValues::Int32(vec![Some(1)]), 2);
    let err = enc.write_batch(&wrong_length, &mut buf).unwrap_err();
    assert_eq!(err, Error::ColumnMismatch { field: "col0".to_string() });
    assert_eq!(buf.len(), 19);
}

#[test]
fn failed_batch_leaves_buffer_untouched() {
    let mut enc = ArrowToPostgresBinaryEncoder::try_new(&one_column_schema(LogicalType::Date32)).unwrap();
    let mut buf = BytesMut::new();
    enc.write_header(&mut buf);
    let batch = one_column_batch(LogicalType::Date32, ColumnValues::Int32(vec![Some(1), Some(i32::MIN)]), 2);
    let err = enc.write_batch(&batch, &mut buf).unwrap_err();
    assert_eq!(err, Error::ValueConversionFailed { field: "col0".to_string() });
    assert_eq!(buf.len(), 19);
    assert_eq!(enc.state(), EncoderState::Encoding);
}

