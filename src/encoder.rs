//! The encoder: a stream state machine that writes the header, the tuples of any number of
//! batches, and the footer.

use vstd::prelude::*;
use crate::batch::{storage_fits, storage_fits_exec, Column, RecordBatch};
use crate::external::{append_bytes, buffer_bytes};
use crate::mapping::{descriptors_of, first_unsupported, map_schema, schema_supported};
use crate::types::{EncoderState, Error, LogicalType, PostgresField, Schema, WireType};
use crate::value::{append_slice, field_bytes, write_field};
use crate::wire::{be_bytes, be_signed, encode_be, encode_signed, lemma_pow256_widths};

verus! {

/// A field descriptor: column name, logical type and wire type.
pub type Descriptor = (Seq<char>, LogicalType, WireType);

/// The 19 bytes that open a stream: the signature `PGCOPY\n\xff\r\n\0`, then a zero flags
/// field and a zero header-extension length, each of 4 bytes.
pub open spec fn header_bytes() -> Seq<u8> {
    seq![
        0x50u8, 0x47u8, 0x43u8, 0x4fu8, 0x50u8, 0x59u8, 0x0au8, 0xffu8, 0x0du8, 0x0au8, 0x00u8,
        0u8, 0u8, 0u8, 0u8,
        0u8, 0u8, 0u8, 0u8,
    ]
}

/// The 2 bytes that close a stream: −1 as a 2-byte integer.
pub open spec fn footer_bytes() -> Seq<u8> {
    be_signed(-1, 2)
}

/// Whether column `c` of a batch of `n` rows agrees with descriptor `f`.
pub open spec fn column_fits(f: Descriptor, c: Column, n: nat) -> bool {
    &&& c.data_type == f.1
    &&& storage_fits(f.1, c.values)
    &&& c.values.spec_len() == n
}

/// Whether every column of `b` agrees with the descriptor at its place.
pub open spec fn batch_fits(fields: Seq<Descriptor>, b: RecordBatch) -> bool {
    &&& b.columns@.len() == fields.len()
    &&& forall|i: int|
        0 <= i < fields.len() ==> column_fits(fields[i], #[trigger] b.columns@[i], b.num_rows as nat)
}

/// The fields of the first `k` columns of row `row`, or `None` where one cannot be written.
pub open spec fn row_fields(fields: Seq<Descriptor>, cols: Seq<Column>, row: int, k: nat) -> Option<Seq<u8>>
    decreases k,
{
    if k == 0 {
        Some(Seq::empty())
    } else {
        match row_fields(fields, cols, row, (k - 1) as nat) {
            Some(a) => match field_bytes(fields[k - 1].1, cols[k - 1].values, row) {
                Some(b) => Some(a + b),
                None => None,
            },
            None => None,
        }
    }
}

/// The tuple of row `row`: the field count as 2 bytes, then every field.
pub open spec fn row_bytes(fields: Seq<Descriptor>, cols: Seq<Column>, row: int) -> Option<Seq<u8>> {
    match row_fields(fields, cols, row, cols.len()) {
        Some(a) => Some(be_bytes(cols.len() % 65536, 2) + a),
        None => None,
    }
}

/// The tuples of the first `n` rows, in order.
pub open spec fn rows_bytes(fields: Seq<Descriptor>, cols: Seq<Column>, n: nat) -> Option<Seq<u8>>
    decreases n,
{
    if n == 0 {
        Some(Seq::empty())
    } else {
        match rows_bytes(fields, cols, (n - 1) as nat) {
            Some(a) => match row_bytes(fields, cols, n - 1) {
                Some(b) => Some(a + b),
                None => None,
            },
            None => None,
        }
    }
}

/// The tuples of every row of batch `b`, or `None` where some value cannot be written.
pub open spec fn batch_bytes(fields: Seq<Descriptor>, b: RecordBatch) -> Option<Seq<u8>> {
    rows_bytes(fields, b.columns@, b.num_rows as nat)
}

proof fn lemma_row_fields_stays_failed(fields: Seq<Descriptor>, cols: Seq<Column>, row: int, k: nat, m: nat)
    requires
        k <= m,
        row_fields(fields, cols, row, k) is None,
    ensures
        row_fields(fields, cols, row, m) is None,
    decreases m,
{
    if k < m {
        lemma_row_fields_stays_failed(fields, cols, row, k, (m - 1) as nat);
    }
}

proof fn lemma_rows_stay_failed(fields: Seq<Descriptor>, cols: Seq<Column>, k: nat, m: nat)
    requires
        k <= m,
        rows_bytes(fields, cols, k) is None,
    ensures
        rows_bytes(fields, cols, m) is None,
    decreases m,
{
    if k < m {
        lemma_rows_stay_failed(fields, cols, k, (m - 1) as nat);
    }
}

/// Writes batches of one schema as a PostgreSQL binary `COPY` stream.
#[derive(Debug)]
pub struct ArrowToPostgresBinaryEncoder {
    fields: Vec<PostgresField>,
    state: EncoderState,
}

impl ArrowToPostgresBinaryEncoder {
    /// The field descriptors, one per schema column, in order.
    pub closed spec fn descriptors(&self) -> Seq<Descriptor> {
        self.fields@.map_values(|f: PostgresField| f@)
    }

    /// The lifecycle state.
    pub closed spec fn spec_state(&self) -> EncoderState {
        self.state
    }

    /// An encoder for batches of `schema`, in state `Created`; the rejection of the first
    /// column without a wire encoding, where there is one.
    pub fn try_new(schema: &Schema) -> (r: Result<ArrowToPostgresBinaryEncoder, Error>)
        ensures
            match r {
                Ok(enc) => schema_supported(schema@) && enc.descriptors() == descriptors_of(schema@)
                    && enc.spec_state() == EncoderState::Created,
                Err(e) => exists|j: int|
                    first_unsupported(schema@, j) && e.is_type_unsupported(
                        #[trigger] schema@[j].0,
                        schema@[j].1,
                    ),
            },
    {
        match map_schema(schema) {
            Ok(fields) => Ok(ArrowToPostgresBinaryEncoder { fields, state: EncoderState::Created }),
            Err(e) => Err(e),
        }
    }

    /// The field descriptors, one per schema column, in order.
    pub fn fields(&self) -> (r: &Vec<PostgresField>)
        ensures
            r@.map_values(|f: PostgresField| f@) == self.descriptors(),
    {
        &self.fields
    }

    /// The lifecycle state.
    pub fn state(&self) -> (r: EncoderState)
        ensures
            r == self.spec_state(),
    {
        self.state
    }

    /// Appends the stream header to `out` and moves to `Encoding`.
    pub fn write_header(&mut self, out: &mut bytes::BytesMut)
        requires
            old(self).spec_state() == EncoderState::Created,
        ensures
            final(self).spec_state() == EncoderState::Encoding,
            final(self).descriptors() == old(self).descriptors(),
            buffer_bytes(*final(out)) == buffer_bytes(*old(out)) + header_bytes(),
    {
        let header: Vec<u8> = vec![
            0x50u8, 0x47u8, 0x43u8, 0x4fu8, 0x50u8, 0x59u8, 0x0au8, 0xffu8, 0x0du8, 0x0au8, 0x00u8,
            0u8, 0u8, 0u8, 0u8,
            0u8, 0u8, 0u8, 0u8,
        ];
        assert(header@ =~= header_bytes());
        append_bytes(out, header.as_slice());
        self.state = EncoderState::Encoding;
    }

    /// Appends to `out` one tuple per row of `batch`, in row order, each holding one field per
    /// column in schema order.
    ///
    /// Fails, leaving `out` as it was, outside state `Encoding`, when the batch's columns do
    /// not agree with the schema in number, type or length, and when a value cannot be
    /// written.
    pub fn write_batch(&mut self, batch: &RecordBatch, out: &mut bytes::BytesMut) -> (r: Result<(), Error>)
        ensures
            final(self).descriptors() == old(self).descriptors(),
            final(self).spec_state() == old(self).spec_state(),
            old(self).spec_state() != EncoderState::Encoding ==> (r matches Err(e)
                && e.is_invalid_state(EncoderState::Encoding, old(self).spec_state())),
            old(self).spec_state() == EncoderState::Encoding && batch.columns@.len()
                != old(self).descriptors().len() ==> r == Err::<(), Error>(
                Error::ColumnCountMismatch {
                    expected: old(self).descriptors().len() as usize,
                    found: batch.columns@.len() as usize,
                },
            ),
            old(self).spec_state() == EncoderState::Encoding ==> (r is Ok <==> (batch_fits(
                old(self).descriptors(),
                *batch,
            ) && batch_bytes(old(self).descriptors(), *batch) is Some)),
            old(self).spec_state() == EncoderState::Encoding && batch.columns@.len()
                == old(self).descriptors().len() && !batch_fits(old(self).descriptors(), *batch)
                ==> (r matches Err(e) && exists|i: int|
                0 <= i < batch.columns@.len() && !column_fits(
                    old(self).descriptors()[i],
                    #[trigger] batch.columns@[i],
                    batch.num_rows as nat,
                ) && e.is_column_mismatch(old(self).descriptors()[i].0)),
            old(self).spec_state() == EncoderState::Encoding && batch_fits(
                old(self).descriptors(),
                *batch,
            ) && batch_bytes(old(self).descriptors(), *batch) is None ==> (r matches Err(e) && (
            e is ValueConversionFailed || e is FieldTooLarge)),
            r is Ok ==> buffer_bytes(*final(out)) == buffer_bytes(*old(out)) + batch_bytes(
                old(self).descriptors(),
                *batch,
            )->0,
            r is Err ==> buffer_bytes(*final(out)) == buffer_bytes(*old(out)),
    {
        if self.state != EncoderState::Encoding {
            return Err(Error::InvalidState { expected: EncoderState::Encoding, found: self.state });
        }
        let ghost fields = self.descriptors();
        let n_cols = self.fields.len();
        if batch.columns.len() != n_cols {
            return Err(Error::ColumnCountMismatch { expected: n_cols, found: batch.columns.len() });
        }
        let n_rows = batch.num_rows;
        let mut c: usize = 0;
        while c < n_cols
            invariant
                n_cols == self.fields@.len(),
                n_cols == batch.columns@.len(),
                fields == self.descriptors(),
                self.state == EncoderState::Encoding,
                n_rows == batch.num_rows,
                c <= n_cols,
                forall|i: int| 0 <= i < c ==> column_fits(fields[i], #[trigger] batch.columns@[i], n_rows as nat),
            decreases n_cols - c,
        {
            let f = &self.fields[c];
            let col = &batch.columns[c];
            assert(fields[c as int] == f@);
            if col.data_type != f.logical_type || !storage_fits_exec(f.logical_type, &col.values)
                || col.values.len() != n_rows {
                let e = Error::ColumnMismatch { field: f.name.clone() };
                assert(!column_fits(fields[c as int], batch.columns@[c as int], n_rows as nat));
                return Err(e);
            }
            c = c + 1;
        }
        proof {
            lemma_pow256_widths();
        }
        let count_prefix = encode_be((n_cols % 65536) as u64, 2);
        let mut body: Vec<u8> = Vec::new();
        let mut row: usize = 0;
        while row < n_rows
            invariant
                n_cols == self.fields@.len(),
                n_cols == batch.columns@.len(),
                fields == self.descriptors(),
                self.state == EncoderState::Encoding,
                n_rows == batch.num_rows,
                batch_fits(fields, *batch),
                row <= n_rows,
                count_prefix@ == be_bytes(n_cols as nat % 65536, 2),
                rows_bytes(fields, batch.columns@, row as nat) == Some(body@),
            decreases n_rows - row,
        {
            let mut tuple: Vec<u8> = Vec::new();
            append_slice(&mut tuple, count_prefix.as_slice());
            let mut c: usize = 0;
            while c < n_cols
                invariant
                    n_cols == self.fields@.len(),
                    n_cols == batch.columns@.len(),
                    fields == self.descriptors(),
                    self.state == EncoderState::Encoding,
                self.state == EncoderState::Encoding,
                    n_rows == batch.num_rows,
                    batch_fits(fields, *batch),
                    row < n_rows,
                    c <= n_cols,
                    row_fields(fields, batch.columns@, row as int, c as nat) matches Some(a)
                        && tuple@ == count_prefix@ + a,
                decreases n_cols - c,
            {
                let f = &self.fields[c];
                let col = &batch.columns[c];
                assert(fields[c as int] == f@);
                assert(column_fits(fields[c as int], batch.columns@[c as int], n_rows as nat));
                let ghost before = tuple@;
                match write_field(&f.name, f.logical_type, &col.values, row, &mut tuple) {
                    Ok(_) => {},
                    Err(e) => {
                        proof {
                            lemma_row_fields_stays_failed(fields, batch.columns@, row as int, (c + 1) as nat, n_cols as nat);
                            lemma_rows_stay_failed(fields, batch.columns@, (row + 1) as nat, n_rows as nat);
                        }
                        return Err(e);
                    },
                }
                c = c + 1;
                assert(tuple@ =~= count_prefix@ + row_fields(fields, batch.columns@, row as int, c as nat)->0);
            }
            body.append(&mut tuple);
            row = row + 1;
        }
        append_bytes(out, body.as_slice());
        Ok(())
    }

    /// Appends the stream footer to `out` and moves to `Finished`; fails, leaving `out` and the
    /// state as they were, outside state `Encoding`.
    pub fn write_footer(&mut self, out: &mut bytes::BytesMut) -> (r: Result<(), Error>)
        ensures
            final(self).descriptors() == old(self).descriptors(),
            old(self).spec_state() == EncoderState::Encoding ==> r is Ok && final(self).spec_state()
                == EncoderState::Finished && buffer_bytes(*final(out)) == buffer_bytes(*old(out))
                + footer_bytes(),
            old(self).spec_state() != EncoderState::Encoding ==> (r matches Err(e)
                && e.is_invalid_state(EncoderState::Encoding, old(self).spec_state()))
                && final(self).spec_state() == old(self).spec_state() && buffer_bytes(*final(out))
                == buffer_bytes(*old(out)),
    {
        if self.state != EncoderState::Encoding {
            return Err(Error::InvalidState { expected: EncoderState::Encoding, found: self.state });
        }
        proof {
            lemma_pow256_widths();
        }
        let footer = encode_signed(-1, 2);
        append_bytes(out, footer.as_slice());
        self.state = EncoderState::Finished;
        Ok(())
    }
}

} // verus!
