//! The calls that this library makes into outside crates, with what it relies on of each.

use vstd::prelude::*;

verus! {

#[verifier::external_type_specification]
#[verifier::external_body]
pub struct ExBytesMut(bytes::BytesMut);

/// The bytes held by an output buffer, in order.
pub uninterp spec fn buffer_bytes(b: bytes::BytesMut) -> Seq<u8>;

/// Relies on `bytes::BytesMut::extend_from_slice`: it appends the slice, growing the buffer
/// as needed, and leaves the bytes already held untouched.
#[verifier::external_body]
pub(crate) fn append_bytes(buf: &mut bytes::BytesMut, data: &[u8])
    ensures
        buffer_bytes(*final(buf)) == buffer_bytes(*old(buf)) + data@,
{
    buf.extend_from_slice(data)
}

/// Whether chrono can represent the instant `secs` seconds and `nanos` nanoseconds after the
/// Unix epoch.
pub uninterp spec fn chrono_instant_exists(secs: i64, nanos: u32) -> bool;

/// Relies on `chrono::DateTime::from_timestamp`: it returns `Some` exactly when the instant
/// lies within chrono's calendar range and `nanos` is a valid sub-second part.
#[verifier::external_body]
pub(crate) fn instant_exists(secs: i64, nanos: u32) -> (r: bool)
    ensures
        r == chrono_instant_exists(secs, nanos),
{
    chrono::DateTime::from_timestamp(secs, nanos).is_some()
}

} // verus!
