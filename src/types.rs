//! The logical column types of a schema, the wire types they map to, and the errors of the
//! encoder.

use vstd::prelude::*;

verus! {

/// The resolution of a temporal column's stored integer.
#[derive(Clone, Copy, Debug, PartialEq, Eq, Structural)]
pub enum TimeUnit {
    Second,
    Millisecond,
    Microsecond,
    Nanosecond,
}

/// The logical type of a column, as the columnar source declares it.
///
/// The list, struct, dictionary and decimal variants, `UInt64` and `Other` (any type not named
/// here) are never encoded: the type mapper rejects them.
#[derive(Clone, Copy, Debug, PartialEq, Eq, Structural)]
pub enum LogicalType {
    /// A column whose every value is absent.
    Null,
    Boolean,
    Int8,
    Int16,
    Int32,
    Int64,
    UInt8,
    UInt16,
    UInt32,
    UInt64,
    Float16,
    Float32,
    Float64,
    /// An integer count of the unit since the Unix epoch; the flag says whether the column
    /// carries a time zone.
    Timestamp(TimeUnit, bool),
    /// Days since the Unix epoch.
    Date32,
    /// Milliseconds since the Unix epoch.
    Date64,
    /// A time of day as a 32-bit count of seconds or milliseconds since midnight.
    Time32(TimeUnit),
    /// A time of day as a 64-bit count of microseconds or nanoseconds since midnight.
    Time64(TimeUnit),
    Duration(TimeUnit),
    Binary,
    LargeBinary,
    /// Byte strings that all have the given width.
    FixedSizeBinary(i32),
    Utf8,
    LargeUtf8,
    List,
    FixedSizeList,
    LargeList,
    Struct,
    Dictionary,
    Decimal128,
    Decimal256,
    Other,
}

/// The PostgreSQL type whose binary layout a column's values take on the wire.
#[derive(Clone, Copy, Debug, PartialEq, Eq, Structural)]
pub enum WireType {
    Bool,
    Int2,
    Int4,
    Int8,
    Float4,
    Float8,
    Timestamp,
    TimestampTz,
    Date,
    Time,
    Interval,
    Bytea,
    Text,
}

/// The lifecycle of an encoder: header, then any number of batches, then footer.
#[derive(Clone, Copy, Debug, PartialEq, Eq, Structural)]
pub enum EncoderState {
    Created,
    Encoding,
    Finished,
}

/// Why an encoder refused a schema, a call or a value.
#[derive(Clone, Debug, PartialEq, Eq)]
pub enum Error {
    /// The named column has a logical type that has no wire encoding.
    TypeUnsupported { column: String, data_type: LogicalType },
    /// A value of the named field has no representation in its wire type.
    ValueConversionFailed { field: String },
    /// A value of the named field encodes to more bytes than a field length can state.
    FieldTooLarge { field: String, size: usize },
    /// The call is not allowed in the encoder's current state.
    InvalidState { expected: EncoderState, found: EncoderState },
    /// A batch holds another number of columns than the schema.
    ColumnCountMismatch { expected: usize, found: usize },
    /// A column of a batch disagrees with the schema in type, or with the batch in length.
    ColumnMismatch { field: String },
}

/// A named, typed column of a schema.
#[derive(Clone, Debug)]
pub struct Field {
    pub name: String,
    pub data_type: LogicalType,
}

/// The ordered columns that every batch handed to one encoder has.
#[derive(Clone, Debug)]
pub struct Schema {
    pub fields: Vec<Field>,
}

/// A column of the schema together with the wire type that its values are written as.
#[derive(Clone, Debug, PartialEq, Eq)]
pub struct PostgresField {
    pub name: String,
    pub logical_type: LogicalType,
    pub wire_type: WireType,
}

impl View for Field {
    type V = (Seq<char>, LogicalType);

    open spec fn view(&self) -> (Seq<char>, LogicalType) {
        (self.name@, self.data_type)
    }
}

impl View for Schema {
    type V = Seq<(Seq<char>, LogicalType)>;

    open spec fn view(&self) -> Seq<(Seq<char>, LogicalType)> {
        self.fields@.map_values(|f: Field| f@)
    }
}

impl View for PostgresField {
    type V = (Seq<char>, LogicalType, WireType);

    open spec fn view(&self) -> (Seq<char>, LogicalType, WireType) {
        (self.name@, self.logical_type, self.wire_type)
    }
}

impl Error {
    /// Whether this is the rejection of column `column` for its type `t`.
    pub open spec fn is_type_unsupported(self, column: Seq<char>, t: LogicalType) -> bool {
        match self {
            Error::TypeUnsupported { column: c, data_type } => c@ == column && data_type == t,
            _ => false,
        }
    }

    /// Whether this is a failure to convert a value of field `field`.
    pub open spec fn is_conversion_failure(self, field: Seq<char>) -> bool {
        match self {
            Error::ValueConversionFailed { field: f } => f@ == field,
            _ => false,
        }
    }

    /// Whether this is the refusal of a value of field `field` that encodes to `size` bytes.
    pub open spec fn is_too_large(self, field: Seq<char>, size: nat) -> bool {
        match self {
            Error::FieldTooLarge { field: f, size: s } => f@ == field && s == size,
            _ => false,
        }
    }

    /// Whether this is the refusal of a batch whose column for field `field` disagrees.
    pub open spec fn is_column_mismatch(self, field: Seq<char>) -> bool {
        match self {
            Error::ColumnMismatch { field: f } => f@ == field,
            _ => false,
        }
    }

    /// Whether this is the refusal of a call made in state `found` that needs `expected`.
    pub open spec fn is_invalid_state(self, expected: EncoderState, found: EncoderState) -> bool {
        self == (Error::InvalidState { expected, found })
    }
}

} // verus!
