//! The writer of a client: woken to write what is queued for a
//! connection, and told when to end.

use vstd::prelude::*;
use vstd::slice::slice_subrange;

verus! {

/// What the writer is told.
#[derive(Debug, Clone, Copy, PartialEq, Eq, Structural)]
pub enum WriteLoopEvent {
    /// Bytes are queued for this connection.
    Flush(u64),
    /// The client is disposed.
    Close,
}

/// How many events may wait for the writer.
pub const WRITE_SIGNAL_CAPACITY: usize = 1024;

/// The most that is written to the socket at once: one mebibyte.
pub const WRITE_CHUNK_SIZE: usize = 1048576;

/// Where the piece of a payload of `len` bytes ends that starts at
/// `written`.
pub open spec fn write_chunk_end(len: int, written: int) -> int {
    if len - written > WRITE_CHUNK_SIZE {
        written + WRITE_CHUNK_SIZE
    } else {
        len
    }
}

/// The next piece of `payload` to write, when `written` bytes of it are
/// written: at most one mebibyte, and less only at the end. Nothing is left
/// when the piece is empty.
pub fn next_write_chunk(payload: &[u8], written: usize) -> (res: &[u8])
    ensures
        written <= payload@.len() ==> res@ == payload@.subrange(
            written as int,
            write_chunk_end(payload@.len() as int, written as int),
        ),
        written < payload@.len() ==> 0 < res@.len() <= WRITE_CHUNK_SIZE,
        written >= payload@.len() ==> res@.len() == 0,
{
    let len: usize = payload.len();
    if written >= len {
        let res = slice_subrange(payload, len, len);
        assert(written == len ==> res@ =~= payload@.subrange(
            written as int,
            write_chunk_end(payload@.len() as int, written as int),
        ));
        return res;
    }
    let end: usize = if len - written > WRITE_CHUNK_SIZE {
        written + WRITE_CHUNK_SIZE
    } else {
        len
    };
    slice_subrange(payload, written, end)
}

/// The pieces of a payload, written one behind the other from `written`
/// on, are the payload from there on.
pub open spec fn chunks_from(payload: Seq<u8>, written: int) -> Seq<u8>
    decreases payload.len() - written,
{
    if 0 <= written < payload.len() {
        let end = write_chunk_end(payload.len() as int, written);
        payload.subrange(written, end) + chunks_from(payload, end)
    } else {
        Seq::empty()
    }
}

/// Writing a payload piece by piece writes the payload, whole and in
/// order.
pub proof fn lemma_chunks_cover_payload(payload: Seq<u8>, written: int)
    requires
        0 <= written <= payload.len(),
    ensures
        chunks_from(payload, written) == payload.skip(written),
    decreases payload.len() - written,
{
    if written < payload.len() {
        let end = write_chunk_end(payload.len() as int, written);
        lemma_chunks_cover_payload(payload, end);
        assert(payload.subrange(written, end) + payload.skip(end) =~= payload.skip(written));
    } else {
        assert(payload.skip(written) =~= Seq::<u8>::empty());
    }
}

} // verus!
