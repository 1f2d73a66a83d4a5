//! The body of a response: taken whole when its length is known, taken
//! chunk by chunk when it is chunked, and not taken at all when the
//! connection switches to a web socket.

use vstd::prelude::*;
use crate::byte_utils::append;
use crate::error::HttpParseError;
use crate::headers_reader::{BodyFraming, DetectedBodySize, ResponseHead};
use crate::tcp_buffer::{crlf, is_first_line, lemma_line_then_rest, no_crlf, TcpBuffer};

verus! {

/// The head of a response that switches protocols, held until it is handed
/// to the caller together with the stream.
#[derive(Debug)]
pub struct WebSocketUpgradeBuilder {
    head: Option<ResponseHead>,
}

impl WebSocketUpgradeBuilder {
    /// The head, while it was not taken.
    pub closed spec fn pending(&self) -> Option<ResponseHead> {
        self.head
    }

    /// A builder that holds `head`.
    pub fn new(head: ResponseHead) -> (res: Self)
        ensures
            res.pending() == Some(head),
    {
        Self { head: Some(head) }
    }

    /// Hands the head out, once.
    pub fn take_upgrade_response(&mut self) -> (res: ResponseHead)
        requires
            old(self).pending() is Some,
        ensures
            Some(res) == old(self).pending(),
            final(self).pending() is None,
    {
        self.head.take().unwrap()
    }
}

/// The head of a response together with the way its body is to be read.
#[derive(Debug)]
pub enum BodyReader {
    LengthBased { head: ResponseHead, body_size: usize },
    Chunked { head: ResponseHead },
    WebSocketUpgrade(WebSocketUpgradeBuilder),
}

impl BodyReader {
    /// The head is there to be handed out.
    pub open spec fn wf(&self) -> bool {
        self matches BodyReader::WebSocketUpgrade(builder) ==> builder.pending() is Some
    }

    /// The head of the response.
    pub open spec fn head(&self) -> ResponseHead {
        match self {
            BodyReader::LengthBased { head, .. } => *head,
            BodyReader::Chunked { head } => *head,
            BodyReader::WebSocketUpgrade(builder) => builder.pending().unwrap(),
        }
    }

    /// How the body is framed.
    pub open spec fn framing(&self) -> BodyFraming {
        match self {
            BodyReader::LengthBased { body_size, .. } => BodyFraming::LengthBased(*body_size),
            BodyReader::Chunked { .. } => BodyFraming::Chunked,
            BodyReader::WebSocketUpgrade(_) => BodyFraming::WebSocketUpgrade,
        }
    }

    /// Joins a head with what its header lines said about framing. A head
    /// that said nothing has a body of length zero.
    pub fn from_head(head: ResponseHead, detected: DetectedBodySize) -> (res: Self)
        ensures
            res.wf(),
            res.head() == head,
            res.framing() == match detected {
                DetectedBodySize::Unknown => BodyFraming::LengthBased(0),
                DetectedBodySize::Known(size) => BodyFraming::LengthBased(size),
                DetectedBodySize::Chunked => BodyFraming::Chunked,
                DetectedBodySize::WebSocketUpgrade => BodyFraming::WebSocketUpgrade,
            },
    {
        match detected {
            DetectedBodySize::Unknown => BodyReader::LengthBased { head, body_size: 0 },
            DetectedBodySize::Known(body_size) => BodyReader::LengthBased { head, body_size },
            DetectedBodySize::Chunked => BodyReader::Chunked { head },
            DetectedBodySize::WebSocketUpgrade => BodyReader::WebSocketUpgrade(
                WebSocketUpgradeBuilder::new(head),
            ),
        }
    }
}

/// How many chunks of a chunked body may wait for the caller to take them
/// before the reader waits for the caller.
pub const CHUNKS_CHANNEL_CAPACITY: usize = 1024;

/// True for the digits of base sixteen, in either case.
pub open spec fn is_hex(b: u8) -> bool {
    48 <= b <= 57 || 97 <= b <= 102 || 65 <= b <= 70
}

/// What a digit of base sixteen counts.
pub open spec fn hex_digit(b: u8) -> nat {
    if 48 <= b <= 57 {
        (b - 48) as nat
    } else if 97 <= b <= 102 {
        (b - 87) as nat
    } else {
        (b - 55) as nat
    }
}

/// How many digits of base sixteen stand at the start of `s`.
pub open spec fn hex_run_len(s: Seq<u8>) -> nat
    decreases s.len(),
{
    if s.len() > 0 && is_hex(s[0]) {
        1 + hex_run_len(s.skip(1))
    } else {
        0
    }
}

/// The number that the digits of `s` write in base sixteen.
pub open spec fn hex_value(s: Seq<u8>) -> nat
    decreases s.len(),
{
    if s.len() == 0 {
        0
    } else {
        hex_value(s.drop_last()) * 16 + hex_digit(s.last())
    }
}

/// The size that a chunk-size line announces: the number written by the
/// digits of base sixteen at its start. What follows them is not looked at.
pub open spec fn chunk_size_of(line: Seq<u8>) -> nat {
    hex_value(line.take(hex_run_len(line) as int))
}

/// True when a chunk-size line starts with a digit and announces a size
/// that fits the machine word.
pub open spec fn is_chunk_size_line(line: Seq<u8>) -> bool {
    hex_run_len(line) > 0 && chunk_size_of(line) <= usize::MAX
}

/// Behind `i` digits, the run of digits at the start of `s` goes on as the
/// run at the start of what follows them.
proof fn lemma_hex_run(s: Seq<u8>, i: int)
    requires
        0 <= i <= s.len(),
        forall|j: int| 0 <= j < i ==> is_hex(s[j]),
    ensures
        hex_run_len(s) == i + hex_run_len(s.skip(i)),
        hex_run_len(s) <= s.len(),
    decreases i,
{
    if i == 0 {
        assert(s.skip(0) =~= s);
        lemma_hex_run_bound(s);
    } else {
        lemma_hex_run(s, i - 1);
        let t = s.skip(i - 1);
        assert(t[0] == s[i - 1]);
        assert(t.skip(1) =~= s.skip(i));
        lemma_hex_run_bound(s.skip(i));
    }
}

/// The run of digits at the start of `s` is no longer than `s`.
proof fn lemma_hex_run_bound(s: Seq<u8>)
    ensures
        hex_run_len(s) <= s.len(),
    decreases s.len(),
{
    if s.len() > 0 && is_hex(s[0]) {
        lemma_hex_run_bound(s.skip(1));
    }
}

/// What `b` counts as a digit of base sixteen, if it is one.
fn hex_digit_of(b: u8) -> (res: Option<u8>)
    ensures
        res.is_some() == is_hex(b),
        res matches Some(d) ==> d == hex_digit(b) && d < 16,
{
    if 48 <= b && b <= 57 {
        Some(b - 48)
    } else if 97 <= b && b <= 102 {
        Some(b - 87)
    } else if 65 <= b && b <= 70 {
        Some(b - 55)
    } else {
        None
    }
}

/// Reads the size off a chunk-size line, given without its line break.
pub fn parse_chunk_size(src: &[u8]) -> (res: Result<usize, HttpParseError>)
    ensures
        res.is_ok() <==> is_chunk_size_line(src@),
        res matches Ok(size) ==> size == chunk_size_of(src@),
        res matches Err(e) ==> e is InvalidHttpPayload,
{
    let n: usize = src.len();
    let mut value: usize = 0;
    let mut i: usize = 0;
    let mut overflow: bool = false;
    let mut in_run: bool = true;
    while in_run && i < n
        invariant
            i <= n,
            n == src@.len(),
            forall|j: int| 0 <= j < i ==> is_hex(src@[j]),
            !in_run ==> i < n && !is_hex(src@[i as int]),
            !overflow ==> value == hex_value(src@.take(i as int)),
            overflow ==> hex_value(src@.take(i as int)) > usize::MAX,
        decreases n - i + if in_run { 1int } else { 0int },
    {
        match hex_digit_of(src[i]) {
            Some(d) => {
                let digit: usize = d as usize;
                proof {
                    let next = src@.take(i + 1);
                    assert(next.drop_last() =~= src@.take(i as int));
                    assert(next.last() == src@[i as int]);
                }
                if overflow || value > (usize::MAX - digit) / 16 {
                    overflow = true;
                } else {
                    value = value * 16 + digit;
                }
                i += 1;
            },
            None => {
                in_run = false;
            },
        }
    }
    proof {
        lemma_hex_run(src@, i as int);
        if i < n {
            assert(src@.skip(i as int)[0] == src@[i as int]);
        }
        assert(hex_run_len(src@) == i);
    }
    if i == 0 {
        return Err(HttpParseError::InvalidHttpPayload("Invalid chunk size".to_owned()));
    }
    if overflow {
        return Err(HttpParseError::InvalidHttpPayload("Can not parse chunk size".to_owned()));
    }
    Ok(value)
}

/// Where the reading of a chunked body stands.
#[derive(Debug, Clone, Copy, PartialEq, Eq, Structural)]
pub enum ChunksReadingMode {
    /// The next line announces the size of a chunk.
    WaitingFroChunkSize,
    /// So many bytes of the current chunk are still to come.
    ReadingChunk(usize),
    /// The two bytes behind a chunk are to be skipped.
    WaitingForSeparator,
    /// The last chunk was announced; the body ends with the next empty
    /// line.
    WaitingForEnd,
}

/// What one step of reading a chunked body delivers.
#[derive(Debug, PartialEq, Eq)]
pub enum ChunkEvent {
    /// One whole chunk.
    Frame(Vec<u8>),
    /// The body is complete.
    End,
}

/// The mode of reading together with the part of the current chunk that has
/// arrived.
pub struct ChunkState {
    pub mode: ChunksReadingMode,
    pub partial: Seq<u8>,
}

/// How far the live bytes take the reading of a chunked body, up to the
/// next chunk or the end.
pub enum ChunkOutcome {
    /// A chunk-size line does not start with a size that fits.
    Failed,
    /// The live bytes ran out; reading goes on from this state and these
    /// bytes.
    NeedMore(ChunkState, Seq<u8>),
    /// A chunk is complete.
    Frame(Seq<u8>, ChunkState, Seq<u8>),
    /// The end of the body was reached.
    End(ChunkState, Seq<u8>),
}

/// How many bytes of the live ones go into a chunk that still wants
/// `remaining`.
pub open spec fn chunk_part_len(remaining: usize, live: Seq<u8>) -> int {
    if remaining <= live.len() {
        remaining as int
    } else {
        live.len() as int
    }
}

/// Reads a chunked body off `live` until a chunk is complete, the body
/// ends, a size line is refused, or the live bytes run out. A size line of
/// zero announces the end; the lines between it and the next empty line are
/// passed over.
pub open spec fn chunk_outcome(st: ChunkState, live: Seq<u8>) -> ChunkOutcome
    decreases live.len(),
{
    match st.mode {
        ChunksReadingMode::WaitingFroChunkSize => {
            if exists|n: int| is_first_line(live, n) {
                let n = choose|n: int| is_first_line(live, n);
                let line = live.take(n);
                let rest = live.skip(n + 2);
                if !is_chunk_size_line(line) {
                    ChunkOutcome::Failed
                } else if chunk_size_of(line) == 0 {
                    chunk_outcome(
                        ChunkState { mode: ChunksReadingMode::WaitingForEnd, partial: Seq::empty() },
                        rest,
                    )
                } else {
                    chunk_outcome(
                        ChunkState {
                            mode: ChunksReadingMode::ReadingChunk(chunk_size_of(line) as usize),
                            partial: Seq::empty(),
                        },
                        rest,
                    )
                }
            } else {
                ChunkOutcome::NeedMore(st, live)
            }
        },
        ChunksReadingMode::ReadingChunk(remaining) => {
            if live.len() == 0 {
                ChunkOutcome::NeedMore(st, live)
            } else {
                let k = chunk_part_len(remaining, live);
                if k == remaining {
                    ChunkOutcome::Frame(
                        st.partial + live.take(k),
                        ChunkState {
                            mode: ChunksReadingMode::WaitingForSeparator,
                            partial: Seq::empty(),
                        },
                        live.skip(k),
                    )
                } else {
                    ChunkOutcome::NeedMore(
                        ChunkState {
                            mode: ChunksReadingMode::ReadingChunk((remaining - k) as usize),
                            partial: st.partial + live,
                        },
                        Seq::empty(),
                    )
                }
            }
        },
        ChunksReadingMode::WaitingForSeparator => {
            if live.len() < 2 {
                ChunkOutcome::NeedMore(st, live)
            } else {
                chunk_outcome(
                    ChunkState {
                        mode: ChunksReadingMode::WaitingFroChunkSize,
                        partial: Seq::empty(),
                    },
                    live.skip(2),
                )
            }
        },
        ChunksReadingMode::WaitingForEnd => {
            if exists|n: int| is_first_line(live, n) {
                let n = choose|n: int| is_first_line(live, n);
                let rest = live.skip(n + 2);
                if n == 0 {
                    ChunkOutcome::End(
                        ChunkState {
                            mode: ChunksReadingMode::WaitingFroChunkSize,
                            partial: Seq::empty(),
                        },
                        rest,
                    )
                } else {
                    chunk_outcome(st, rest)
                }
            } else {
                ChunkOutcome::NeedMore(st, live)
            }
        },
    }
}

/// Reads a chunked body chunk by chunk, across deliveries of bytes.
pub struct ChunkedBodyReader {
    mode: ChunksReadingMode,
    chunk: Vec<u8>,
}

impl View for ChunkedBodyReader {
    type V = ChunkState;

    closed spec fn view(&self) -> ChunkState {
        ChunkState { mode: self.mode, partial: self.chunk@ }
    }
}

impl ChunkedBodyReader {
    /// A reader at the start of a body.
    pub fn new() -> (res: Self)
        ensures
            res@ == (ChunkState { mode: ChunksReadingMode::WaitingFroChunkSize, partial: Seq::empty() }),
    {
        Self { mode: ChunksReadingMode::WaitingFroChunkSize, chunk: Vec::new() }
    }

    /// Where the reading stands.
    pub fn mode(&self) -> (res: ChunksReadingMode)
        ensures
            res == self@.mode,
    {
        self.mode
    }
}

/// Reads a chunked body off the buffer up to the next chunk or the end of
/// the body. `GetMoreData` when the live bytes run out first: `reader` then
/// holds where to go on. A size line that is no size gives
/// `InvalidHttpPayload`.
pub fn read_chunked_body(tcp_buffer: &mut TcpBuffer, reader: &mut ChunkedBodyReader) -> (res: Result<
    ChunkEvent,
    HttpParseError,
>)
    requires
        old(tcp_buffer).wf(),
    ensures
        final(tcp_buffer).wf(),
        final(tcp_buffer).capacity() == old(tcp_buffer).capacity(),
        match chunk_outcome(old(reader)@, old(tcp_buffer).live()) {
            ChunkOutcome::Failed => res matches Err(e) && e is InvalidHttpPayload,
            ChunkOutcome::NeedMore(st, left) => {
                &&& res matches Err(e) && e is GetMoreData
                &&& final(reader)@ == st
                &&& final(tcp_buffer).live() == left
            },
            ChunkOutcome::Frame(bytes, st, left) => {
                &&& res matches Ok(ChunkEvent::Frame(frame)) && frame@ == bytes
                &&& final(reader)@ == st
                &&& final(tcp_buffer).live() == left
            },
            ChunkOutcome::End(st, left) => {
                &&& res matches Ok(ChunkEvent::End)
                &&& final(reader)@ == st
                &&& final(tcp_buffer).live() == left
            },
        },
{
    loop
        invariant
            tcp_buffer.wf(),
            tcp_buffer.capacity() == old(tcp_buffer).capacity(),
            chunk_outcome(reader@, tcp_buffer.live()) == chunk_outcome(
                old(reader)@,
                old(tcp_buffer).live(),
            ),
        decreases tcp_buffer.live().len(),
    {
        let ghost live = tcp_buffer.live();
        match reader.mode {
            ChunksReadingMode::WaitingFroChunkSize => {
                let line = match tcp_buffer.read_until_crlf() {
                    Some(line) => line,
                    None => {
                        assert(!exists|n: int| is_first_line(live, n));
                        return Err(HttpParseError::GetMoreData);
                    },
                };
                proof {
                    let n = choose|n: int| is_first_line(live, n);
                    assert(is_first_line(live, line@.len() as int));
                    assert(n == line@.len());
                }
                let size: usize = match parse_chunk_size(line) {
                    Ok(size) => size,
                    Err(e) => {
                        return Err(e);
                    },
                };
                reader.chunk = Vec::new();
                if size == 0 {
                    reader.mode = ChunksReadingMode::WaitingForEnd;
                } else {
                    reader.mode = ChunksReadingMode::ReadingChunk(size);
                }
            },
            ChunksReadingMode::ReadingChunk(remaining) => {
                let part = match tcp_buffer.get_as_much_as_possible(remaining) {
                    Some(part) => part,
                    None => {
                        return Err(HttpParseError::GetMoreData);
                    },
                };
                let taken: usize = part.len();
                append(&mut reader.chunk, part);
                if taken == remaining {
                    let mut frame: Vec<u8> = Vec::new();
                    std::mem::swap(&mut frame, &mut reader.chunk);
                    reader.mode = ChunksReadingMode::WaitingForSeparator;
                    return Ok(ChunkEvent::Frame(frame));
                }
                reader.mode = ChunksReadingMode::ReadingChunk(remaining - taken);
                proof {
                    assert(live.take(taken as int) =~= live);
                    assert(tcp_buffer.live() =~= Seq::<u8>::empty());
                }
                return Err(HttpParseError::GetMoreData);
            },
            ChunksReadingMode::WaitingForSeparator => {
                match tcp_buffer.skip_exactly(2) {
                    Ok(()) => {
                        reader.mode = ChunksReadingMode::WaitingFroChunkSize;
                        reader.chunk = Vec::new();
                    },
                    Err(e) => {
                        return Err(e);
                    },
                }
            },
            ChunksReadingMode::WaitingForEnd => {
                let line = match tcp_buffer.read_until_crlf() {
                    Some(line) => line,
                    None => {
                        assert(!exists|n: int| is_first_line(live, n));
                        return Err(HttpParseError::GetMoreData);
                    },
                };
                proof {
                    let n = choose|n: int| is_first_line(live, n);
                    assert(is_first_line(live, line@.len() as int));
                    assert(n == line@.len());
                }
                if line.len() == 0 {
                    reader.mode = ChunksReadingMode::WaitingFroChunkSize;
                    reader.chunk = Vec::new();
                    return Ok(ChunkEvent::End);
                }
            },
        }
    }
}

/// Collects a body of known length across deliveries of bytes.
pub struct FullBodyReader {
    body: Vec<u8>,
    remaining: usize,
}

impl FullBodyReader {
    /// The part of the body that has arrived.
    pub closed spec fn collected(&self) -> Seq<u8> {
        self.body@
    }

    /// How many bytes of the body are still to come.
    pub closed spec fn remaining(&self) -> nat {
        self.remaining as nat
    }

    /// A reader for a body of `body_size` bytes.
    pub fn new(body_size: usize) -> (res: Self)
        ensures
            res.collected() == Seq::<u8>::empty(),
            res.remaining() == body_size,
    {
        Self { body: Vec::new(), remaining: body_size }
    }
}

/// Takes the body of a response off the buffer. When the live bytes hold
/// all that is still to come, the whole body is returned, the bytes behind
/// it stay live, and `reader` is spent. When they do not, every live byte
/// goes into the body and `GetMoreData` is returned. A body of length zero
/// is returned at once and the buffer is not touched.
pub fn read_full_body(tcp_buffer: &mut TcpBuffer, reader: &mut FullBodyReader) -> (res: Result<
    Vec<u8>,
    HttpParseError,
>)
    requires
        old(tcp_buffer).wf(),
    ensures
        final(tcp_buffer).wf(),
        final(tcp_buffer).capacity() == old(tcp_buffer).capacity(),
        res.is_ok() <==> old(reader).remaining() <= old(tcp_buffer).live().len(),
        res matches Ok(body) ==> {
            &&& body@ == old(reader).collected() + old(tcp_buffer).live().take(
                old(reader).remaining() as int,
            )
            &&& final(tcp_buffer).live() == old(tcp_buffer).live().skip(
                old(reader).remaining() as int,
            )
            &&& final(reader).remaining() == 0
            &&& final(reader).collected() == Seq::<u8>::empty()
            &&& (old(reader).remaining() == 0 ==> *final(tcp_buffer) == *old(tcp_buffer))
        },
        res matches Err(e) ==> {
            &&& e is GetMoreData
            &&& final(reader).collected() == old(reader).collected() + old(tcp_buffer).live()
            &&& final(reader).remaining() == old(reader).remaining() - old(tcp_buffer).live().len()
            &&& final(tcp_buffer).live() == Seq::<u8>::empty()
        },
{
    let ghost live = tcp_buffer.live();
    if reader.remaining > 0 {
        let part = match tcp_buffer.get_as_much_as_possible(reader.remaining) {
            Some(part) => part,
            None => {
                assert(reader.collected() + live =~= reader.collected());
                return Err(HttpParseError::GetMoreData);
            },
        };
        let taken: usize = part.len();
        append(&mut reader.body, part);
        reader.remaining = reader.remaining - taken;
        if reader.remaining > 0 {
            proof {
                assert(live.take(taken as int) =~= live);
                assert(tcp_buffer.live() =~= Seq::<u8>::empty());
            }
            return Err(HttpParseError::GetMoreData);
        }
    } else {
        assert(live.take(0) =~= Seq::<u8>::empty());
        assert(live.skip(0) =~= live);
        assert(reader.collected() + live.take(0) =~= reader.collected());
    }
    let mut body: Vec<u8> = Vec::new();
    std::mem::swap(&mut body, &mut reader.body);
    Ok(body)
}

/// The state at the start of a chunked body, and between two chunks.
pub open spec fn at_chunk_size() -> ChunkState {
    ChunkState { mode: ChunksReadingMode::WaitingFroChunkSize, partial: Seq::empty() }
}

/// A chunk that is live as a whole is handed out as it was sent: behind a
/// size line that announces its length, the bytes of the chunk are the
/// frame, and what follows them is left.
pub proof fn lemma_chunk_read_whole(size_line: Seq<u8>, payload: Seq<u8>, rest: Seq<u8>)
    requires
        no_crlf(size_line),
        is_chunk_size_line(size_line),
        chunk_size_of(size_line) == payload.len(),
        payload.len() > 0,
    ensures
        chunk_outcome(at_chunk_size(), size_line + crlf() + payload + rest) == ChunkOutcome::Frame(
            payload,
            ChunkState { mode: ChunksReadingMode::WaitingForSeparator, partial: Seq::empty() },
            rest,
        ),
{
    let live = size_line + crlf() + payload + rest;
    let behind = payload + rest;
    lemma_line_then_rest(size_line, behind);
    assert(live =~= size_line + crlf() + behind);
    let n = choose|n: int| is_first_line(live, n);
    assert(is_first_line(live, size_line.len() as int));
    assert(n == size_line.len());
    let size = payload.len() as usize;
    assert(behind.take(size as int) =~= payload);
    assert(behind.skip(size as int) =~= rest);
    assert(Seq::<u8>::empty() + payload =~= payload);
    assert(live.take(n) =~= size_line);
    assert(live.skip(n + 2) =~= behind);
    let reading = ChunkState { mode: ChunksReadingMode::ReadingChunk(size), partial: Seq::empty() };
    assert(chunk_outcome(reading, behind) == ChunkOutcome::Frame(
        payload,
        ChunkState { mode: ChunksReadingMode::WaitingForSeparator, partial: Seq::empty() },
        rest,
    ));
}

/// The two bytes behind a chunk are passed over, and the next chunk is
/// read.
pub proof fn lemma_chunk_separator_skipped(rest: Seq<u8>)
    ensures
        chunk_outcome(
            ChunkState { mode: ChunksReadingMode::WaitingForSeparator, partial: Seq::empty() },
            crlf() + rest,
        ) == chunk_outcome(at_chunk_size(), rest),
{
    assert((crlf() + rest).skip(2) =~= rest);
}

/// A size line that announces zero ends the body: the empty line behind it
/// is consumed, and what follows is left for the next response.
pub proof fn lemma_last_chunk_ends_body(size_line: Seq<u8>, rest: Seq<u8>)
    requires
        no_crlf(size_line),
        is_chunk_size_line(size_line),
        chunk_size_of(size_line) == 0,
    ensures
        chunk_outcome(at_chunk_size(), size_line + crlf() + crlf() + rest) == ChunkOutcome::End(
            at_chunk_size(),
            rest,
        ),
{
    let live = size_line + crlf() + crlf() + rest;
    let behind = crlf() + rest;
    lemma_line_then_rest(size_line, behind);
    assert(live =~= size_line + crlf() + behind);
    let n = choose|n: int| is_first_line(live, n);
    assert(is_first_line(live, size_line.len() as int));
    assert(n == size_line.len());
    let none = Seq::<u8>::empty();
    lemma_line_then_rest(none, rest);
    assert(behind =~= none + crlf() + rest);
    let m = choose|m: int| is_first_line(behind, m);
    assert(is_first_line(behind, 0));
    assert(m == 0);
    assert(behind.skip(2) =~= rest);
    assert(live.take(n) =~= size_line);
    assert(live.skip(n + 2) =~= behind);
    let ending = ChunkState { mode: ChunksReadingMode::WaitingForEnd, partial: Seq::empty() };
    assert(chunk_outcome(ending, behind) == ChunkOutcome::End(at_chunk_size(), rest));
}

} // verus!
