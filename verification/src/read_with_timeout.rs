//! The steps between the socket and the parser: taking in what a read
//! from the socket gave, and taking lines and skips off the buffer while
//! telling when more bytes are needed.

use vstd::prelude::*;
use std::time::Duration;
use crate::error::HttpParseError;
use crate::tcp_buffer::{TcpBuffer, crlf_at, no_crlf, no_crlf_before};

verus! {

/// How a read from the socket ended.
pub enum ReadOutcome<'a> {
    /// Nothing arrived in the time given.
    TimedOut(Duration),
    /// The socket reported an error.
    Failed(String),
    /// These bytes arrived; none means that the peer has closed.
    Data(&'a [u8]),
}

/// How much room the buffer has for the next read from the socket. A
/// buffer that is full of live bytes cannot take a response in: the head or
/// line being read is larger than the buffer.
pub fn get_write_room(tcp_buffer: &mut TcpBuffer) -> (res: Result<usize, HttpParseError>)
    requires
        old(tcp_buffer).wf(),
    ensures
        final(tcp_buffer).wf(),
        final(tcp_buffer).capacity() == old(tcp_buffer).capacity(),
        final(tcp_buffer).live() == old(tcp_buffer).live(),
        res is Err <==> old(tcp_buffer).live().len() == old(tcp_buffer).capacity(),
        res matches Err(e) ==> (e matches HttpParseError::InvalidHttpPayload(reason) && reason@
            == "buffer exhausted"@),
        res matches Ok(room) ==> room > 0 && room == final(tcp_buffer).capacity() - final(
            tcp_buffer
        ).read_index(),
{
    match tcp_buffer.get_write_buf() {
        Some(room) => Ok(room),
        None => Err(HttpParseError::InvalidHttpPayload("buffer exhausted".to_owned())),
    }
}

/// Takes the outcome of one read from the socket into the buffer. Bytes
/// that arrived become live behind the live ones. No bytes mean that the
/// peer has closed the connection. Bytes beyond the room that the buffer
/// has are refused.
pub fn read_to_buffer(tcp_buffer: &mut TcpBuffer, outcome: ReadOutcome<'_>) -> (res: Result<
    (),
    HttpParseError,
>)
    requires
        old(tcp_buffer).wf(),
    ensures
        final(tcp_buffer).wf(),
        final(tcp_buffer).capacity() == old(tcp_buffer).capacity(),
        match outcome {
            ReadOutcome::TimedOut(d) => res == Err::<(), HttpParseError>(
                HttpParseError::ReadingTimeout(d),
            ),
            ReadOutcome::Failed(why) => res == Err::<(), HttpParseError>(
                HttpParseError::Error(why),
            ),
            ReadOutcome::Data(data) => if data@.len() == 0 {
                res == Err::<(), HttpParseError>(HttpParseError::Disconnected)
            } else if data@.len() > old(tcp_buffer).capacity() - old(tcp_buffer).read_index() {
                res matches Err(e) && e is Error
            } else {
                res is Ok && final(tcp_buffer).live() == old(tcp_buffer).live() + data@
            },
        },
        res is Err ==> final(tcp_buffer).live() == old(tcp_buffer).live(),
{
    proof {
        tcp_buffer.lemma_live();
    }
    match outcome {
        ReadOutcome::TimedOut(d) => Err(HttpParseError::ReadingTimeout(d)),
        ReadOutcome::Failed(why) => Err(HttpParseError::Error(why)),
        ReadOutcome::Data(data) => {
            if data.len() == 0 {
                return Err(HttpParseError::Disconnected);
            }
            if data.len() > tcp_buffer.get_free_tail_size() {
                return Err(HttpParseError::Error("Read beyond the write buffer".to_owned()));
            }
            tcp_buffer.add_read_amount(data);
            Ok(())
        },
    }
}

/// Takes the outcome of one read from the socket into `buffer_to_write`,
/// from `pos` on, and returns the position behind the bytes taken in. The
/// buffer is full when that position is its length. No bytes mean that the
/// peer has closed the connection; more bytes than the buffer has room for
/// behind `pos` are refused.
pub fn read_exact(buffer_to_write: &mut Vec<u8>, pos: usize, outcome: ReadOutcome<'_>) -> (res:
    Result<usize, HttpParseError>)
    requires
        pos <= old(buffer_to_write)@.len(),
    ensures
        final(buffer_to_write)@.len() == old(buffer_to_write)@.len(),
        match outcome {
            ReadOutcome::TimedOut(d) => res == Err::<usize, HttpParseError>(
                HttpParseError::ReadingTimeout(d),
            ),
            ReadOutcome::Failed(why) => res == Err::<usize, HttpParseError>(
                HttpParseError::Error(why),
            ),
            ReadOutcome::Data(data) => if data@.len() == 0 {
                res == Err::<usize, HttpParseError>(HttpParseError::Disconnected)
            } else if data@.len() > old(buffer_to_write)@.len() - pos {
                res matches Err(e) && e is Error
            } else {
                &&& res == Ok::<usize, HttpParseError>((pos + data@.len()) as usize)
                &&& final(buffer_to_write)@ == old(buffer_to_write)@.take(pos as int) + data@ + old(
                    buffer_to_write,
                )@.skip(pos + data@.len())
            },
        },
        res is Err ==> final(buffer_to_write)@ == old(buffer_to_write)@,
{
    match outcome {
        ReadOutcome::TimedOut(d) => Err(HttpParseError::ReadingTimeout(d)),
        ReadOutcome::Failed(why) => Err(HttpParseError::Error(why)),
        ReadOutcome::Data(data) => {
            let n: usize = data.len();
            let len: usize = buffer_to_write.len();
            if n == 0 {
                return Err(HttpParseError::Disconnected);
            }
            if n > len - pos {
                return Err(HttpParseError::Error("Read beyond the buffer".to_owned()));
            }
            let mut i: usize = 0;
            while i < n
                invariant
                    i <= n,
                    n == data@.len(),
                    len == buffer_to_write@.len(),
                    len == old(buffer_to_write)@.len(),
                    pos + n <= len,
                    forall|j: int| 0 <= j < pos ==> buffer_to_write@[j] == old(buffer_to_write)@[j],
                    forall|j: int| 0 <= j < i ==> buffer_to_write@[pos + j] == data@[j],
                    forall|j: int|
                        pos + i <= j < len ==> buffer_to_write@[j] == old(buffer_to_write)@[j],
                decreases n - i,
            {
                buffer_to_write.set(pos + i, data[i]);
                i += 1;
            }
            assert(buffer_to_write@ =~= old(buffer_to_write)@.take(pos as int) + data@ + old(
                buffer_to_write,
            )@.skip(pos + data@.len()));
            Ok(pos + n)
        },
    }
}

/// Skips `size_to_skip` live bytes, or asks for more bytes with nothing
/// changed when fewer are live.
pub fn skip_exactly(tcp_buffer: &mut TcpBuffer, size_to_skip: usize) -> (res: Result<
    (),
    HttpParseError,
>)
    requires
        old(tcp_buffer).wf(),
    ensures
        final(tcp_buffer).wf(),
        final(tcp_buffer).capacity() == old(tcp_buffer).capacity(),
        res is Ok <==> size_to_skip <= old(tcp_buffer).live().len(),
        res is Ok ==> final(tcp_buffer).live() == old(tcp_buffer).live().skip(size_to_skip as int),
        res matches Err(e) ==> e is GetMoreData && *final(tcp_buffer) == *old(tcp_buffer),
{
    tcp_buffer.skip_exactly(size_to_skip)
}

/// Takes the first line off the buffer and hands it to `conversion`, whose
/// result is the result. Asks for more bytes, with nothing changed, when no
/// whole line is live.
pub fn read_until_crlf<TResult, F: Fn(&[u8]) -> Result<TResult, HttpParseError>>(
    tcp_buffer: &mut TcpBuffer,
    conversion: F,
) -> (res: Result<TResult, HttpParseError>)
    requires
        old(tcp_buffer).wf(),
        forall|line: &[u8]| call_requires(conversion, (line,)),
    ensures
        final(tcp_buffer).wf(),
        final(tcp_buffer).capacity() == old(tcp_buffer).capacity(),
        no_crlf(old(tcp_buffer).live()) ==> {
            &&& res matches Err(e) && e is GetMoreData
            &&& *final(tcp_buffer) == *old(tcp_buffer)
        },
        !no_crlf(old(tcp_buffer).live()) ==> exists|line: &[u8]|
            {
                &&& crlf_at(old(tcp_buffer).live(), line@.len() as int)
                &&& no_crlf_before(old(tcp_buffer).live(), line@.len() as int)
                &&& line@ == old(tcp_buffer).live().take(line@.len() as int)
                &&& final(tcp_buffer).live() == old(tcp_buffer).live().skip(line@.len() as int + 2)
                &&& #[trigger] call_ensures(conversion, (line,), res)
            },
{
    match tcp_buffer.read_until_crlf() {
        Some(line) => conversion(line),
        None => Err(HttpParseError::GetMoreData),
    }
}

} // verus!
