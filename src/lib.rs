//! Encoding of columnar record batches into the PostgreSQL `COPY ... WITH (FORMAT binary)`
//! wire stream.

pub mod batch;
pub mod encoder;
pub mod external;
pub mod laws;
pub mod mapping;
pub mod temporal;
pub mod types;
pub mod value;
pub mod wire;

pub use batch::{Column, ColumnValues, RecordBatch};
pub use encoder::ArrowToPostgresBinaryEncoder;
pub use types::{EncoderState, Error, Field, LogicalType, PostgresField, Schema, TimeUnit, WireType};
