//! The byte buffer of the `bytebuffer` crate, as the binary layout uses it:
//! a buffer that only grows at its end, in big-endian order.
use vstd::prelude::*;
use bytebuffer::ByteBuffer;
use crate::bytes::{be_bytes, twos64};

verus! {

#[verifier::external_type_specification]
#[verifier::external_body]
pub struct ExByteBuffer(ByteBuffer);

/// The bytes that a buffer holds.
pub uninterp spec fn buffer_data(b: ByteBuffer) -> Seq<u8>;

/// The buffer writes at its end, in big-endian order, with no partial byte
/// pending.
pub uninterp spec fn buffer_appends(b: ByteBuffer) -> bool;

/// Relies on ByteBuffer::new: an empty buffer, big-endian, cursors at zero.
#[verifier::external_body]
pub(crate) fn new_buffer() -> (r: ByteBuffer)
    ensures
        buffer_data(r) == Seq::<u8>::empty(),
        buffer_appends(r),
{
    ByteBuffer::new()
}

/// Relies on ByteBuffer::write_u8: the byte is written at the write cursor.
#[verifier::external_body]
pub(crate) fn put_u8(b: &mut ByteBuffer, v: u8)
    requires
        buffer_appends(*old(b)),
    ensures
        buffer_appends(*final(b)),
        buffer_data(*final(b)) == buffer_data(*old(b)).push(v),
{
    b.write_u8(v)
}

/// Relies on ByteBuffer::write_u32: four bytes in the buffer's (big-endian)
/// order, written at the write cursor.
#[verifier::external_body]
pub(crate) fn put_u32(b: &mut ByteBuffer, v: u32)
    requires
        buffer_appends(*old(b)),
    ensures
        buffer_appends(*final(b)),
        buffer_data(*final(b)) == buffer_data(*old(b)) + be_bytes(v as nat, 4),
{
    b.write_u32(v)
}

/// Relies on ByteBuffer::write_i64: the value's two's complement pattern as
/// eight bytes in the buffer's (big-endian) order, written at the write cursor.
#[verifier::external_body]
pub(crate) fn put_i64(b: &mut ByteBuffer, v: i64)
    requires
        buffer_appends(*old(b)),
    ensures
        buffer_appends(*final(b)),
        buffer_data(*final(b)) == buffer_data(*old(b)) + be_bytes(twos64(v), 8),
{
    b.write_i64(v)
}

/// Relies on ByteBuffer::write_bytes: the bytes are written at the write cursor.
#[verifier::external_body]
pub(crate) fn put_bytes(b: &mut ByteBuffer, v: &[u8])
    requires
        buffer_appends(*old(b)),
    ensures
        buffer_appends(*final(b)),
        buffer_data(*final(b)) == buffer_data(*old(b)) + v@,
{
    b.write_bytes(v)
}

/// Relies on ByteBuffer::into_vec: the bytes that the buffer holds.
#[verifier::external_body]
pub(crate) fn buffer_into_vec(b: ByteBuffer) -> (r: Vec<u8>)
    ensures
        r@ == buffer_data(b),
{
    b.into_vec()
}

} // verus!
