//! The reader of a connection: it takes bytes from the socket into its
//! buffer and turns them into responses, one after the other.

use vstd::prelude::*;
use crate::body_reader::{
    chunk_outcome, read_chunked_body, read_full_body, BodyReader, ChunkEvent, ChunkOutcome,
    ChunkState, ChunkedBodyReader, ChunksReadingMode, FullBodyReader,
};
use crate::error::HttpParseError;
use crate::headers_reader::{
    head_outcome, read_headers, BodyFraming, HeadOutcome, HeadState, HeadersReader, ResponseHead,
};
use crate::read_with_timeout::{get_write_room, read_to_buffer, ReadOutcome};
use crate::tcp_buffer::{TcpBuffer, BUFFER_SIZE};

verus! {

/// What the reader is reading.
#[derive(Debug, Clone, Copy, PartialEq, Eq, Structural)]
pub enum ReadPhase {
    /// The head of the next response.
    Head,
    /// A body of known length.
    FullBody,
    /// A chunked body.
    ChunkedBody,
    /// Nothing any more: the connection was handed over to a web socket.
    Upgraded,
}

/// What the reader has found, or what it needs.
#[derive(Debug)]
pub enum ReadLoopEvent {
    /// More bytes are needed from the socket.
    ReadMore,
    /// A response with its whole body, empty or not, for the caller that
    /// has waited longest.
    Response { head: ResponseHead, body: Vec<u8> },
    /// The head of a chunked response, for the caller that has waited
    /// longest; its body follows chunk by chunk.
    ChunkedResponse { head: ResponseHead },
    /// One chunk of the body of the chunked response.
    Frame(Vec<u8>),
    /// The body of the chunked response is complete.
    EndOfBody,
    /// A response that switches to a web socket, for the caller that has
    /// waited longest, who also gets the read half of the stream. The reader
    /// is done.
    Upgrade { head: ResponseHead },
    /// The connection is of no use any more.
    Failed(HttpParseError),
    /// The reader was done before.
    Stopped,
}

/// The reader of one connection.
pub struct ReadLoop {
    tcp_buffer: TcpBuffer,
    phase: ReadPhase,
    headers: HeadersReader,
    pending_head: Option<ResponseHead>,
    full_body: FullBodyReader,
    chunks: ChunkedBodyReader,
}

impl ReadLoop {
    /// The buffer is in order, and while a body of known length is read its
    /// head is kept and bytes of it are still to come.
    pub closed spec fn wf(&self) -> bool {
        &&& self.tcp_buffer.wf()
        &&& (self.phase is FullBody ==> self.pending_head is Some && self.full_body.remaining()
            > 0)
    }

    /// What the reader is reading.
    pub closed spec fn phase(&self) -> ReadPhase {
        self.phase
    }

    /// The bytes received and not yet read.
    pub closed spec fn live(&self) -> Seq<u8> {
        self.tcp_buffer.live()
    }

    /// How many bytes the buffer holds at most.
    pub closed spec fn capacity(&self) -> nat {
        self.tcp_buffer.capacity()
    }

    /// How many bytes the buffer takes from the next read.
    pub closed spec fn write_room(&self) -> int {
        self.tcp_buffer.capacity() - self.tcp_buffer.read_index()
    }

    /// What is read of the head of the next response.
    pub closed spec fn head_state(&self) -> HeadState {
        self.headers@
    }

    /// The head of the response whose body is being read by length.
    pub closed spec fn pending_head(&self) -> Option<ResponseHead> {
        self.pending_head
    }

    /// What has arrived of the body that is being read by length.
    pub closed spec fn body_collected(&self) -> Seq<u8> {
        self.full_body.collected()
    }

    /// How much is still to come of the body that is being read by length.
    pub closed spec fn body_remaining(&self) -> nat {
        self.full_body.remaining()
    }

    /// Where the reading of the chunked body stands.
    pub closed spec fn chunk_state(&self) -> ChunkState {
        self.chunks@
    }

    /// A reader at the start of a connection, with a buffer of the usual
    /// size.
    pub fn new() -> (res: Self)
        ensures
            res.wf(),
            res.phase() is Head,
            res.live() == Seq::<u8>::empty(),
            res.capacity() == BUFFER_SIZE,
            res.head_state() == HeadState::initial(),
    {
        Self::with_buffer(TcpBuffer::new())
    }

    /// A reader at the start of a connection that reads from `tcp_buffer`.
    pub fn with_buffer(tcp_buffer: TcpBuffer) -> (res: Self)
        requires
            tcp_buffer.wf(),
        ensures
            res.wf(),
            res.phase() is Head,
            res.live() == tcp_buffer.live(),
            res.capacity() == tcp_buffer.capacity(),
            res.head_state() == HeadState::initial(),
    {
        Self {
            tcp_buffer,
            phase: ReadPhase::Head,
            headers: HeadersReader::new(),
            pending_head: None,
            full_body: FullBodyReader::new(0),
            chunks: ChunkedBodyReader::new(),
        }
    }

    /// Whether no byte is waiting to be read.
    pub fn is_empty(&self) -> (res: bool)
        requires
            self.wf(),
        ensures
            res == (self.live().len() == 0),
    {
        self.tcp_buffer.is_empty()
    }

    /// How much room the buffer has for the next read from the socket.
    pub fn get_write_room(&mut self) -> (res: Result<usize, HttpParseError>)
        requires
            old(self).wf(),
        ensures
            final(self).wf(),
            final(self).live() == old(self).live(),
            final(self).capacity() == old(self).capacity(),
            final(self).phase() == old(self).phase(),
            final(self).head_state() == old(self).head_state(),
            final(self).pending_head() == old(self).pending_head(),
            final(self).body_collected() == old(self).body_collected(),
            final(self).body_remaining() == old(self).body_remaining(),
            final(self).chunk_state() == old(self).chunk_state(),
            res is Err <==> old(self).live().len() == old(self).capacity(),
            res matches Err(e) ==> (e matches HttpParseError::InvalidHttpPayload(reason) && reason@
                == "buffer exhausted"@),
            res matches Ok(room) ==> room > 0 && room == final(self).write_room(),
    {
        get_write_room(&mut self.tcp_buffer)
    }

    /// Takes the outcome of one read from the socket, made after
    /// `get_write_room` with no more bytes than it allowed.
    pub fn read_to_buffer(&mut self, outcome: ReadOutcome<'_>) -> (res: Result<(), HttpParseError>)
        requires
            old(self).wf(),
        ensures
            final(self).wf(),
            final(self).capacity() == old(self).capacity(),
            final(self).phase() == old(self).phase(),
            final(self).head_state() == old(self).head_state(),
            final(self).pending_head() == old(self).pending_head(),
            final(self).body_collected() == old(self).body_collected(),
            final(self).body_remaining() == old(self).body_remaining(),
            final(self).chunk_state() == old(self).chunk_state(),
            match outcome {
                ReadOutcome::TimedOut(d) => res == Err::<(), HttpParseError>(
                    HttpParseError::ReadingTimeout(d),
                ),
                ReadOutcome::Failed(why) => res == Err::<(), HttpParseError>(
                    HttpParseError::Error(why),
                ),
                ReadOutcome::Data(data) => if data@.len() == 0 {
                    res == Err::<(), HttpParseError>(HttpParseError::Disconnected)
                } else if data@.len() > old(self).write_room() {
                    res matches Err(e) && e is Error
                } else {
                    res is Ok
                },
            },
            res is Ok ==> (outcome matches ReadOutcome::Data(data) && final(self).live() == old(self).live() + data@),
            res is Err ==> final(self).live() == old(self).live(),
    {
        read_to_buffer(&mut self.tcp_buffer, outcome)
    }

    /// Takes what is live of a body of known length.
    fn read_body(&mut self) -> (res: ReadLoopEvent)
        requires
            old(self).wf(),
            old(self).phase() is FullBody,
        ensures
            final(self).wf(),
            final(self).capacity() == old(self).capacity(),
            final(self).head_state() == old(self).head_state(),
            final(self).chunk_state() == old(self).chunk_state(),
            if old(self).body_remaining() <= old(self).live().len() {
                &&& res matches ReadLoopEvent::Response { head, body }
                &&& Some(head) == old(self).pending_head()
                &&& body@ == old(self).body_collected() + old(self).live().take(
                    old(self).body_remaining() as int,
                )
                &&& final(self).live() == old(self).live().skip(old(self).body_remaining() as int)
                &&& final(self).phase() is Head
            } else {
                &&& res is ReadMore
                &&& final(self).phase() is FullBody
                &&& final(self).pending_head() == old(self).pending_head()
                &&& final(self).body_collected() == old(self).body_collected() + old(self).live()
                &&& final(self).body_remaining() == old(self).body_remaining() - old(self).live().len()
                &&& final(self).live() == Seq::<u8>::empty()
            },
    {
        match read_full_body(&mut self.tcp_buffer, &mut self.full_body) {
            Ok(body) => {
                self.phase = ReadPhase::Head;
                let head = self.pending_head.take().unwrap();
                ReadLoopEvent::Response { head, body }
            },
            Err(_) => ReadLoopEvent::ReadMore,
        }
    }
}

/// Reads on from the buffer until there is something to hand out or more
/// bytes are needed.
///
/// While a head is read: a line that is no status line or header fails the
/// connection; a head that ends within the live bytes starts its body. A
/// body of known length is handed out with its head once it is whole, at
/// once when its length is zero. A chunked response is handed out as soon
/// as its head is read, and its chunks follow one by one. A response that
/// switches to a web socket is handed out with no body, and the reader
/// stops.
pub fn read_loop(state: &mut ReadLoop) -> (res: ReadLoopEvent)
    requires
        old(state).wf(),
    ensures
        final(state).wf(),
        final(state).capacity() == old(state).capacity(),
        match old(state).phase() {
            ReadPhase::Upgraded => res is Stopped && final(state).phase() is Upgraded
                && final(state).live() == old(state).live(),
            ReadPhase::Head => match head_outcome(old(state).head_state(), old(state).live()) {
                HeadOutcome::Failed => res matches ReadLoopEvent::Failed(e)
                    && e is InvalidHttpPayload,
                HeadOutcome::NeedMore(st, left) => {
                    &&& res is ReadMore
                    &&& final(state).phase() is Head
                    &&& final(state).head_state() == st
                    &&& final(state).live() == left
                },
                HeadOutcome::Done(st, left) => {
                    &&& final(state).head_state() == HeadState::initial()
                    &&& match st.framing() {
                        BodyFraming::LengthBased(size) => if size <= left.len() {
                            &&& res matches ReadLoopEvent::Response { head, body }
                            &&& Some((head.status, head.version)) == st.status
                            &&& head.header_list() == st.headers
                            &&& body@ == left.take(size as int)
                            &&& final(state).live() == left.skip(size as int)
                            &&& final(state).phase() is Head
                        } else {
                            &&& res is ReadMore
                            &&& final(state).phase() is FullBody
                            &&& final(state).pending_head() matches Some(head)
                            &&& Some((head.status, head.version)) == st.status
                            &&& head.header_list() == st.headers
                            &&& final(state).body_collected() == left
                            &&& final(state).body_remaining() == size - left.len()
                            &&& final(state).live() == Seq::<u8>::empty()
                        },
                        BodyFraming::Chunked => {
                            &&& res matches ReadLoopEvent::ChunkedResponse { head }
                            &&& Some((head.status, head.version)) == st.status
                            &&& head.header_list() == st.headers
                            &&& final(state).phase() is ChunkedBody
                            &&& final(state).chunk_state() == (ChunkState {
                                mode: ChunksReadingMode::WaitingFroChunkSize,
                                partial: Seq::empty(),
                            })
                            &&& final(state).live() == left
                        },
                        BodyFraming::WebSocketUpgrade => {
                            &&& res matches ReadLoopEvent::Upgrade { head }
                            &&& Some((head.status, head.version)) == st.status
                            &&& head.header_list() == st.headers
                            &&& final(state).phase() is Upgraded
                            &&& final(state).live() == left
                        },
                    }
                },
            },
            ReadPhase::FullBody => if old(state).body_remaining() <= old(state).live().len() {
                &&& res matches ReadLoopEvent::Response { head, body }
                &&& Some(head) == old(state).pending_head()
                &&& body@ == old(state).body_collected() + old(state).live().take(
                    old(state).body_remaining() as int,
                )
                &&& final(state).live() == old(state).live().skip(
                    old(state).body_remaining() as int,
                )
                &&& final(state).phase() is Head
                &&& final(state).head_state() == old(state).head_state()
            } else {
                &&& res is ReadMore
                &&& final(state).phase() is FullBody
                &&& final(state).pending_head() == old(state).pending_head()
                &&& final(state).body_collected() == old(state).body_collected() + old(state).live()
                &&& final(state).body_remaining() == old(state).body_remaining() - old(state).live().len()
                &&& final(state).live() == Seq::<u8>::empty()
            },
            ReadPhase::ChunkedBody => match chunk_outcome(
                old(state).chunk_state(),
                old(state).live(),
            ) {
                ChunkOutcome::Failed => res matches ReadLoopEvent::Failed(e)
                    && e is InvalidHttpPayload,
                ChunkOutcome::NeedMore(st, left) => {
                    &&& res is ReadMore
                    &&& final(state).phase() is ChunkedBody
                    &&& final(state).chunk_state() == st
                    &&& final(state).live() == left
                },
                ChunkOutcome::Frame(bytes, st, left) => {
                    &&& res matches ReadLoopEvent::Frame(frame) && frame@ == bytes
                    &&& final(state).phase() is ChunkedBody
                    &&& final(state).chunk_state() == st
                    &&& final(state).live() == left
                },
                ChunkOutcome::End(st, left) => {
                    &&& res is EndOfBody
                    &&& final(state).phase() is Head
                    &&& final(state).head_state() == old(state).head_state()
                    &&& final(state).live() == left
                },
            },
        },
{
    match state.phase {
        ReadPhase::Upgraded => ReadLoopEvent::Stopped,
        ReadPhase::Head => {
            match read_headers(&mut state.tcp_buffer, &mut state.headers) {
                Ok(BodyReader::LengthBased { head, body_size }) => {
                    if body_size == 0 {
                        proof {
                            let left = state.tcp_buffer.live();
                            assert(left.take(0) =~= Seq::<u8>::empty());
                            assert(left.skip(0) =~= left);
                        }
                        return ReadLoopEvent::Response { head, body: Vec::new() };
                    }
                    state.pending_head = Some(head);
                    state.full_body = FullBodyReader::new(body_size);
                    state.phase = ReadPhase::FullBody;
                    proof {
                        let left = state.tcp_buffer.live();
                        assert(Seq::<u8>::empty() + left.take(body_size as int) =~= left.take(
                            body_size as int,
                        ));
                        assert(Seq::<u8>::empty() + left =~= left);
                    }
                    state.read_body()
                },
                Ok(BodyReader::Chunked { head }) => {
                    state.chunks = ChunkedBodyReader::new();
                    state.phase = ReadPhase::ChunkedBody;
                    ReadLoopEvent::ChunkedResponse { head }
                },
                Ok(BodyReader::WebSocketUpgrade(mut builder)) => {
                    state.phase = ReadPhase::Upgraded;
                    ReadLoopEvent::Upgrade { head: builder.take_upgrade_response() }
                },
                Err(HttpParseError::GetMoreData) => ReadLoopEvent::ReadMore,
                Err(e) => ReadLoopEvent::Failed(e),
            }
        },
        ReadPhase::FullBody => state.read_body(),
        ReadPhase::ChunkedBody => {
            match read_chunked_body(&mut state.tcp_buffer, &mut state.chunks) {
                Ok(ChunkEvent::Frame(frame)) => ReadLoopEvent::Frame(frame),
                Ok(ChunkEvent::End) => {
                    state.phase = ReadPhase::Head;
                    ReadLoopEvent::EndOfBody
                },
                Err(HttpParseError::GetMoreData) => ReadLoopEvent::ReadMore,
                Err(e) => ReadLoopEvent::Failed(e),
            }
        },
    }
}

} // verus!
