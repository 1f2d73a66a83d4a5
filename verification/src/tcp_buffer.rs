//! A fixed-capacity read buffer that hands out lines, skips and chunks of
//! what a socket delivered, and moves unread bytes to the front when the tail
//! is used up.

use vstd::prelude::*;
use vstd::slice::slice_subrange;
use crate::error::HttpParseError;

verus! {

/// Capacity of a buffer made by [`TcpBuffer::new`].
pub const BUFFER_SIZE: usize = 65535;

/// True when the two bytes at `i` and `i + 1` of `s` are a carriage return
/// and a line feed.
pub open spec fn crlf_at(s: Seq<u8>, i: int) -> bool {
    0 <= i && i + 1 < s.len() && s[i] == 13u8 && s[i + 1] == 10u8
}

/// True when no line break starts at an index below `n` of `s`.
pub open spec fn no_crlf_before(s: Seq<u8>, n: int) -> bool {
    forall|j: int| 0 <= j < n ==> !crlf_at(s, j)
}

/// True when `s` holds no line break at all.
pub open spec fn no_crlf(s: Seq<u8>) -> bool {
    no_crlf_before(s, s.len() as int)
}

/// The read buffer of a connection. The bytes between `consumed_pos` and
/// `read_pos` are live: received and not yet handed out.
pub struct TcpBuffer {
    buffer: Vec<u8>,
    pub read_pos: usize,
    pub consumed_pos: usize,
}

impl TcpBuffer {
    /// The positions are ordered and inside the storage.
    pub closed spec fn wf(&self) -> bool {
        self.consumed_pos <= self.read_pos <= self.buffer@.len()
    }

    /// Number of bytes the buffer can hold.
    pub closed spec fn capacity(&self) -> nat {
        self.buffer@.len()
    }

    /// The whole storage, live or not.
    pub closed spec fn storage(&self) -> Seq<u8> {
        self.buffer@
    }

    /// Index in the storage where the next received byte goes.
    pub closed spec fn read_index(&self) -> nat {
        self.read_pos as nat
    }

    /// Index in the storage of the oldest byte not yet handed out.
    pub closed spec fn consumed_index(&self) -> nat {
        self.consumed_pos as nat
    }

    /// The bytes that were received and not yet handed out, oldest first.
    pub closed spec fn live(&self) -> Seq<u8> {
        self.buffer@.subrange(self.consumed_pos as int, self.read_pos as int)
    }

    /// The live bytes are the storage between the two positions.
    pub proof fn lemma_live(&self)
        requires
            self.wf(),
        ensures
            self.consumed_index() <= self.read_index() <= self.capacity(),
            self.live() == self.storage().subrange(
                self.consumed_index() as int,
                self.read_index() as int,
            ),
            self.live().len() == self.read_index() - self.consumed_index(),
    {
    }

    /// An empty buffer of `BUFFER_SIZE` bytes.
    pub fn new() -> (res: Self)
        ensures
            res.wf(),
            res.capacity() == BUFFER_SIZE,
            res.read_index() == 0,
            res.consumed_index() == 0,
            res.live() == Seq::<u8>::empty(),
    {
        Self::with_capacity(BUFFER_SIZE)
    }

    /// An empty buffer of `size` bytes.
    pub fn with_capacity(size: usize) -> (res: Self)
        ensures
            res.wf(),
            res.capacity() == size,
            res.read_index() == 0,
            res.consumed_index() == 0,
            res.live() == Seq::<u8>::empty(),
    {
        let mut buffer: Vec<u8> = Vec::new();
        buffer.resize(size, 0u8);
        let res = Self { buffer, read_pos: 0, consumed_pos: 0 };
        assert(res.live() =~= Seq::<u8>::empty());
        res
    }

    /// Whether nothing is waiting to be handed out.
    pub fn is_empty(&self) -> (res: bool)
        requires
            self.wf(),
        ensures
            res == (self.live().len() == 0),
            res == (self.read_index() == self.consumed_index()),
    {
        self.read_pos == self.consumed_pos
    }

    /// How many bytes the buffer can hold.
    pub fn get_total_buffer_size(&self) -> (res: usize)
        ensures
            res == self.capacity(),
    {
        self.buffer.len()
    }

    /// How many bytes fit behind the live ones without moving them.
    pub fn get_free_tail_size(&self) -> (res: usize)
        requires
            self.wf(),
        ensures
            res == self.capacity() - self.read_index(),
    {
        self.buffer.len() - self.read_pos
    }

    /// Moves the live bytes to the front of the storage, keeping their order.
    fn compact(&mut self)
        requires
            old(self).wf(),
        ensures
            final(self).wf(),
            final(self).capacity() == old(self).capacity(),
            final(self).consumed_index() == 0,
            final(self).read_index() == old(self).read_index() - old(self).consumed_index(),
            final(self).live() == old(self).live(),
    {
        let size: usize = self.read_pos - self.consumed_pos;
        let from: usize = self.consumed_pos;
        let mut moved: usize = 0;
        while moved < size
            invariant
                moved <= size,
                size == old(self).read_pos - old(self).consumed_pos,
                from == old(self).consumed_pos,
                from + size <= self.buffer@.len(),
                self.buffer@.len() == old(self).buffer@.len(),
                forall|j: int| 0 <= j < moved ==> self.buffer@[j] == old(self).buffer@[from + j],
                forall|j: int| moved + from <= j < self.buffer@.len() ==> self.buffer@[j] == old(self).buffer@[j],
            decreases size - moved,
        {
            let b: u8 = self.buffer[from + moved];
            self.buffer.set(moved, b);
            moved += 1;
        }
        self.consumed_pos = 0;
        self.read_pos = size;
        assert(self.live() =~= old(self).live());
    }

    /// Returns how many bytes the free tail of the storage can take from the
    /// next read from the socket. A tail that is not used up is left as it
    /// is. When the tail is used up and bytes were consumed, the live bytes
    /// are first moved to the front. `None` when the live bytes fill the
    /// whole storage.
    pub fn get_write_buf(&mut self) -> (res: Option<usize>)
        requires
            old(self).wf(),
        ensures
            final(self).wf(),
            final(self).capacity() == old(self).capacity(),
            final(self).live() == old(self).live(),
            res.is_none() <==> old(self).live().len() == old(self).capacity(),
            res.is_none() ==> *final(self) == *old(self),
            res matches Some(room) ==> {
                &&& room > 0
                &&& room == final(self).capacity() - final(self).read_index()
                &&& (old(self).read_index() < old(self).capacity() ==> *final(self) == *old(self))
                &&& (old(self).read_index() == old(self).capacity() ==> final(self).consumed_index() == 0 && final(self).read_index() == old(self).live().len())
            },
    {
        if self.read_pos == self.buffer.len() {
            if self.consumed_pos == 0 {
                return None;
            }
            self.compact();
        }
        Some(self.buffer.len() - self.read_pos)
    }

    /// Takes in the bytes that a read from the socket delivered: they are
    /// stored behind the live bytes and become live themselves.
    pub fn add_read_amount(&mut self, data: &[u8])
        requires
            old(self).wf(),
            data@.len() <= old(self).capacity() - old(self).read_index(),
        ensures
            final(self).wf(),
            final(self).capacity() == old(self).capacity(),
            final(self).consumed_index() == old(self).consumed_index(),
            final(self).read_index() == old(self).read_index() + data@.len(),
            final(self).live() == old(self).live() + data@,
    {
        let n: usize = data.len();
        let base: usize = self.read_pos;
        let cap: usize = self.buffer.len();
        let mut i: usize = 0;
        while i < n
            invariant
                i <= n,
                cap == self.buffer@.len(),
                n == data@.len(),
                base == old(self).read_pos,
                base + n <= self.buffer@.len(),
                self.buffer@.len() == old(self).buffer@.len(),
                self.read_pos == old(self).read_pos,
                self.consumed_pos == old(self).consumed_pos,
                forall|j: int| 0 <= j < base ==> self.buffer@[j] == old(self).buffer@[j],
                forall|j: int| 0 <= j < i ==> self.buffer@[base + j] == data@[j],
            decreases n - i,
        {
            self.buffer.set(base + i, data[i]);
            i += 1;
        }
        self.read_pos = base + n;
        assert(self.live() =~= old(self).live() + data@);
    }

    /// The first line of the live bytes, without its line break, when a line
    /// break has arrived; the line and its break are then consumed. `None`,
    /// with nothing changed, when no line break is live yet.
    pub fn read_until_crlf(&mut self) -> (res: Option<&[u8]>)
        requires
            old(self).wf(),
        ensures
            final(self).wf(),
            final(self).capacity() == old(self).capacity(),
            final(self).storage() == old(self).storage(),
            final(self).read_index() == old(self).read_index(),
            res.is_none() <==> no_crlf(old(self).live()),
            res.is_none() ==> *final(self) == *old(self),
            res matches Some(line) ==> {
                &&& crlf_at(old(self).live(), line@.len() as int)
                &&& no_crlf_before(old(self).live(), line@.len() as int)
                &&& line@ == old(self).live().take(line@.len() as int)
                &&& no_crlf(line@)
                &&& final(self).live() == old(self).live().skip(line@.len() as int + 2)
                &&& final(self).consumed_index() == old(self).consumed_index() + line@.len() + 2
            },
    {
        let start: usize = self.consumed_pos;
        let mut pos: usize = start;
        while self.read_pos - pos > 1
            invariant
                self.wf(),
                *self == *old(self),
                start == self.consumed_pos,
                start <= pos,
                pos <= self.read_pos,
                no_crlf_before(self.live(), pos - start),
            decreases self.read_pos - pos,
        {
            if self.buffer[pos] == 13u8 && self.buffer[pos + 1] == 10u8 {
                self.consumed_pos = pos + 2;
                let line = slice_subrange(self.buffer.as_slice(), start, pos);
                proof {
                    assert(line@ =~= old(self).live().take(pos - start));
                    assert(self.live() =~= old(self).live().skip(pos - start + 2));
                    assert(crlf_at(old(self).live(), pos - start));
                    assert(no_crlf(line@)) by {
                        assert forall|j: int| 0 <= j < line@.len() implies !crlf_at(line@, j) by {
                            if crlf_at(line@, j) {
                                assert(crlf_at(old(self).live(), j));
                            }
                        }
                    }
                }
                return Some(line);
            }
            assert(!crlf_at(self.live(), pos - start));
            pos += 1;
        }
        None
    }

    /// Consumes `size_to_skip` live bytes when that many are live; asks for
    /// more data, with nothing changed, when they are not.
    pub fn skip_exactly(&mut self, size_to_skip: usize) -> (res: Result<(), HttpParseError>)
        requires
            old(self).wf(),
        ensures
            final(self).wf(),
            final(self).capacity() == old(self).capacity(),
            res.is_ok() <==> size_to_skip <= old(self).live().len(),
            res.is_ok() ==> final(self).live() == old(self).live().skip(size_to_skip as int)
                && final(self).read_index() == old(self).read_index()
                && final(self).consumed_index() == old(self).consumed_index() + size_to_skip,
            res.is_err() ==> res == Err::<(), HttpParseError>(HttpParseError::GetMoreData)
                && *final(self) == *old(self),
    {
        if size_to_skip > self.read_pos - self.consumed_pos {
            return Err(HttpParseError::GetMoreData);
        }
        self.consumed_pos += size_to_skip;
        assert(self.live() =~= old(self).live().skip(size_to_skip as int));
        Ok(())
    }

    /// Hands out the oldest live bytes, at most `max_size` of them, and
    /// consumes them. `None` exactly when nothing is live.
    pub fn get_as_much_as_possible(&mut self, max_size: usize) -> (res: Option<&[u8]>)
        requires
            old(self).wf(),
        ensures
            final(self).wf(),
            final(self).capacity() == old(self).capacity(),
            final(self).read_index() == old(self).read_index(),
            res.is_none() <==> old(self).live().len() == 0,
            res.is_none() ==> *final(self) == *old(self),
            res matches Some(out) ==> {
                &&& out@.len() == if max_size <= old(self).live().len() {
                    max_size as int
                } else {
                    old(self).live().len() as int
                }
                &&& out@ == old(self).live().take(out@.len() as int)
                &&& final(self).live() == old(self).live().skip(out@.len() as int)
                &&& final(self).consumed_index() == old(self).consumed_index() + out@.len()
            },
    {
        if self.read_pos == self.consumed_pos {
            return None;
        }
        let has_amount: usize = self.read_pos - self.consumed_pos;
        let amount: usize = if has_amount >= max_size { max_size } else { has_amount };
        let start: usize = self.consumed_pos;
        self.consumed_pos = start + amount;
        let out = slice_subrange(self.buffer.as_slice(), start, start + amount);
        proof {
            assert(out@ =~= old(self).live().take(amount as int));
            assert(self.live() =~= old(self).live().skip(amount as int));
        }
        Some(out)
    }

    /// The live bytes, left in place.
    pub fn get_buf(&self) -> (res: &[u8])
        requires
            self.wf(),
        ensures
            res@ == self.live(),
    {
        slice_subrange(self.buffer.as_slice(), self.consumed_pos, self.read_pos)
    }
}

/// One step in the life of a buffer, as far as its live bytes go: bytes
/// arrive from the socket, or a caller takes at most so many of them.
pub enum BufferStep {
    Commit(Seq<u8>),
    Take(nat),
}

/// How many bytes a take of at most `k` hands out of `live`.
pub open spec fn take_len(live: Seq<u8>, k: nat) -> int {
    if k <= live.len() {
        k as int
    } else {
        live.len() as int
    }
}

/// The live bytes after `steps`, starting from an empty buffer.
pub open spec fn live_after(steps: Seq<BufferStep>) -> Seq<u8>
    decreases steps.len(),
{
    if steps.len() == 0 {
        Seq::empty()
    } else {
        let before = live_after(steps.drop_last());
        match steps.last() {
            BufferStep::Commit(data) => before + data,
            BufferStep::Take(k) => before.skip(take_len(before, k)),
        }
    }
}

/// Everything that arrived during `steps`, in order.
pub open spec fn committed(steps: Seq<BufferStep>) -> Seq<u8>
    decreases steps.len(),
{
    if steps.len() == 0 {
        Seq::empty()
    } else {
        match steps.last() {
            BufferStep::Commit(data) => committed(steps.drop_last()) + data,
            BufferStep::Take(_) => committed(steps.drop_last()),
        }
    }
}

/// Everything that was handed out during `steps`, in order.
pub open spec fn taken(steps: Seq<BufferStep>) -> Seq<u8>
    decreases steps.len(),
{
    if steps.len() == 0 {
        Seq::empty()
    } else {
        let before = live_after(steps.drop_last());
        match steps.last() {
            BufferStep::Commit(_) => taken(steps.drop_last()),
            BufferStep::Take(k) => taken(steps.drop_last()) + before.take(take_len(before, k)),
        }
    }
}

/// No byte is lost, duplicated or reordered: after any run of arrivals and
/// takes, what was handed out followed by what is still live is exactly what
/// arrived. Moving the live bytes to the front does not show here, since
/// `get_write_buf` leaves `live()` as it was.
pub proof fn lemma_taken_and_live_are_committed(steps: Seq<BufferStep>)
    ensures
        taken(steps) + live_after(steps) == committed(steps),
        live_after(steps).len() == 0 ==> taken(steps) == committed(steps),
    decreases steps.len(),
{
    if steps.len() == 0 {
        assert(taken(steps) + live_after(steps) =~= committed(steps));
    } else {
        let init = steps.drop_last();
        lemma_taken_and_live_are_committed(init);
        let before = live_after(init);
        match steps.last() {
            BufferStep::Commit(data) => {
                assert(taken(init) + (before + data) =~= (taken(init) + before) + data);
            },
            BufferStep::Take(k) => {
                let n = take_len(before, k);
                assert((taken(init) + before.take(n)) + before.skip(n) =~= taken(init) + before);
            },
        }
    }
    if live_after(steps).len() == 0 {
        assert(taken(steps) + live_after(steps) =~= taken(steps));
    }
}

/// The two bytes of a line break.
pub open spec fn crlf() -> Seq<u8> {
    seq![13u8, 10u8]
}

/// True when the first line break of `s` starts at `n`.
pub open spec fn is_first_line(s: Seq<u8>, n: int) -> bool {
    crlf_at(s, n) && no_crlf_before(s, n)
}

/// The lines of `lines`, each followed by a line break.
pub open spec fn framed(lines: Seq<Seq<u8>>) -> Seq<u8>
    decreases lines.len(),
{
    if lines.len() == 0 {
        Seq::empty()
    } else {
        lines[0] + crlf() + framed(lines.skip(1))
    }
}

/// The lines that reading line by line takes out of `s`, until no line break
/// is left.
pub open spec fn drained(s: Seq<u8>) -> Seq<Seq<u8>>
    decreases s.len(),
{
    if exists|n: int| is_first_line(s, n) {
        let n = choose|n: int| is_first_line(s, n);
        seq![s.take(n)] + drained(s.skip(n + 2))
    } else {
        Seq::empty()
    }
}

/// A sequence has at most one first line break.
pub proof fn lemma_first_line_unique(s: Seq<u8>, n: int, m: int)
    requires
        is_first_line(s, n),
        is_first_line(s, m),
    ensures
        n == m,
{
}

/// A line without a line break inside, followed by a line break and
/// anything else, is found again whole: the first line break is the one
/// behind it, and what follows is left for the next read.
pub proof fn lemma_line_then_rest(line: Seq<u8>, rest: Seq<u8>)
    requires
        no_crlf(line),
    ensures
        is_first_line(line + crlf() + rest, line.len() as int),
        (line + crlf() + rest).take(line.len() as int) == line,
        (line + crlf() + rest).skip(line.len() as int + 2) == rest,
{
    let s = line + crlf() + rest;
    let n = line.len() as int;
    assert(s[n] == 13u8 && s[n + 1] == 10u8);
    assert forall|j: int| 0 <= j < n implies !crlf_at(s, j) by {
        if crlf_at(s, j) {
            if j + 1 < n {
                assert(crlf_at(line, j));
            }
        }
    }
    assert(s.take(n) =~= line);
    assert(s.skip(n + 2) =~= rest);
}

/// Framing by line breaks is lossless: reading line by line from the framed
/// form of any lines that hold no line break gives back exactly those lines,
/// in order.
pub proof fn lemma_crlf_framing_lossless(lines: Seq<Seq<u8>>)
    requires
        forall|i: int| 0 <= i < lines.len() ==> no_crlf(#[trigger] lines[i]),
    ensures
        drained(framed(lines)) == lines,
    decreases lines.len(),
{
    let s = framed(lines);
    if lines.len() == 0 {
        assert(!exists|n: int| is_first_line(s, n));
        assert(drained(s) =~= lines);
    } else {
        let tail = lines.skip(1);
        assert forall|i: int| 0 <= i < tail.len() implies no_crlf(#[trigger] tail[i]) by {
            assert(tail[i] == lines[i + 1]);
        }
        lemma_crlf_framing_lossless(tail);
        lemma_line_then_rest(lines[0], framed(tail));
        let n = choose|n: int| is_first_line(s, n);
        lemma_first_line_unique(s, n, lines[0].len() as int);
        assert(drained(s) =~= seq![lines[0]] + tail);
        assert(seq![lines[0]] + tail =~= lines);
    }
}

} // verus!
