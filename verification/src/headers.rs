//! Request headers kept in their wire form: each header is written once, as
//! `name: value` followed by a line break, and can be read back in order.

use vstd::prelude::*;
use vstd::slice::slice_subrange;
use vstd::string::StringSliceAdditionalSpecFns;
use vstd::utf8::valid_utf8;
use crate::byte_utils::{append, find_byte_pos, index_of, lemma_index_of, lemma_index_of_is, str_from_utf8};

verus! {

/// The wire form of one header.
pub open spec fn header_line(name: Seq<u8>, value: Seq<u8>) -> Seq<u8> {
    name + seq![58u8, 32u8] + value + seq![13u8, 10u8]
}

/// Anything that can write its headers, in wire form, behind what a buffer
/// already holds.
pub trait MyHttpClientHeaders {
    /// The headers in wire form.
    spec fn wire(&self) -> Seq<u8>;

    /// Writes the headers behind what `buf` holds.
    fn copy_to(&self, buf: &mut Vec<u8>)
        ensures
            final(buf)@ == old(buf)@ + self.wire(),
    ;
}

/// Where the value of a header lies in the bytes it was written to.
pub struct HeaderValuePosition {
    pub start: usize,
    pub end: usize,
}

/// Writes one header behind what `dest` holds and tells where its value
/// lies.
pub fn write_header(dest: &mut Vec<u8>, name: &str, value: &str) -> (res: HeaderValuePosition)
    ensures
        final(dest)@ == old(dest)@ + header_line(name.spec_bytes(), value.spec_bytes()),
        res.start == old(dest)@.len() + name.spec_bytes().len() + 2,
        res.end == res.start + value.spec_bytes().len(),
        final(dest)@.subrange(res.start as int, res.end as int) == value.spec_bytes(),
{
    append(dest, name.as_bytes());
    dest.push(58u8);
    dest.push(32u8);
    let start: usize = dest.len();
    append(dest, value.as_bytes());
    let end: usize = dest.len();
    dest.push(13u8);
    dest.push(10u8);
    proof {
        assert(dest@ =~= old(dest)@ + header_line(name.spec_bytes(), value.spec_bytes()));
        assert(dest@.subrange(start as int, end as int) =~= value.spec_bytes());
    }
    HeaderValuePosition { start, end }
}

/// Headers of a request, collected in their wire form.
pub struct MyHttpClientHeadersBuilder {
    headers: Vec<u8>,
}

impl MyHttpClientHeadersBuilder {
    /// The headers written so far, in wire form.
    pub closed spec fn bytes(&self) -> Seq<u8> {
        self.headers@
    }

    /// No headers yet.
    pub fn new() -> (res: Self)
        ensures
            res.bytes() == Seq::<u8>::empty(),
    {
        Self { headers: Vec::new() }
    }

    /// Writes one more header behind the others.
    pub fn add_header(&mut self, name: &str, value: &str) -> (res: HeaderValuePosition)
        ensures
            final(self).bytes() == old(self).bytes() + header_line(
                name.spec_bytes(),
                value.spec_bytes(),
            ),
            res.start == old(self).bytes().len() + name.spec_bytes().len() + 2,
            res.end == res.start + value.spec_bytes().len(),
            final(self).bytes().subrange(res.start as int, res.end as int) == value.spec_bytes(),
    {
        write_header(&mut self.headers, name, value)
    }

    /// The text at a position that `add_header` returned. Nothing when the
    /// position does not lie inside the headers or does not hold text.
    pub fn get_value(&self, value_position: &HeaderValuePosition) -> (res: Option<&str>)
        ensures
            res.is_some() <==> value_position.start <= value_position.end <= self.bytes().len()
                && valid_utf8(
                self.bytes().subrange(value_position.start as int, value_position.end as int),
            ),
            res matches Some(s) ==> s.spec_bytes() == self.bytes().subrange(
                value_position.start as int,
                value_position.end as int,
            ),
    {
        if value_position.start > value_position.end || value_position.end > self.headers.len() {
            return None;
        }
        str_from_utf8(
            slice_subrange(self.headers.as_slice(), value_position.start, value_position.end),
        )
    }

    /// Reads the headers back, first to last.
    pub fn iter(&self) -> (res: MyHttpClientHeadersBuilderIterator<'_>)
        ensures
            res.wf(),
            res.remaining() == self.bytes(),
    {
        MyHttpClientHeadersBuilderIterator::new(self.headers.as_slice())
    }

    /// All the headers as one text. Nothing when they do not hold text.
    pub fn as_str(&self) -> (res: Option<&str>)
        ensures
            res.is_some() <==> valid_utf8(self.bytes()),
            res matches Some(s) ==> s.spec_bytes() == self.bytes(),
    {
        str_from_utf8(self.headers.as_slice())
    }
}

impl MyHttpClientHeaders for MyHttpClientHeadersBuilder {
    open spec fn wire(&self) -> Seq<u8> {
        self.bytes()
    }

    fn copy_to(&self, buf: &mut Vec<u8>) {
        append(buf, self.headers.as_slice());
    }
}

/// The first header of `s` in wire form: its name, its value and how many
/// bytes it takes. The name ends at the first colon, the value starts two
/// bytes behind the colon and ends at the next carriage return, and two more
/// bytes are taken for the line break. Nothing when a colon or a carriage
/// return is missing, or when name or value is not text.
pub open spec fn next_header(s: Seq<u8>) -> Option<(Seq<u8>, Seq<u8>, int)> {
    let colon = index_of(s, 58u8, 0);
    let end = index_of(s, 13u8, colon + 2);
    if colon >= s.len() || end >= s.len() {
        None
    } else if !valid_utf8(s.subrange(0, colon)) || !valid_utf8(s.subrange(colon + 2, end)) {
        None
    } else {
        Some(
            (
                s.subrange(0, colon),
                s.subrange(colon + 2, end),
                if end + 2 <= s.len() {
                    end + 2
                } else {
                    s.len() as int
                },
            ),
        )
    }
}

/// Reads headers in wire form one after the other.
pub struct MyHttpClientHeadersBuilderIterator<'s> {
    itm: &'s [u8],
    pos: usize,
}

impl<'s> MyHttpClientHeadersBuilderIterator<'s> {
    /// The position lies inside the bytes.
    pub closed spec fn wf(&self) -> bool {
        self.pos <= self.itm@.len()
    }

    /// The bytes not yet read.
    pub closed spec fn remaining(&self) -> Seq<u8> {
        self.itm@.skip(self.pos as int)
    }

    /// A reader at the start of `itm`.
    pub fn new(itm: &'s [u8]) -> (res: Self)
        ensures
            res.wf(),
            res.remaining() == itm@,
    {
        let res = Self { itm, pos: 0 };
        assert(res.remaining() =~= itm@);
        res
    }

    /// The next header, as name and value, and nothing when no whole header
    /// is left; from then on nothing is left at all.
    pub fn next(&mut self) -> (res: Option<(&'s str, &'s str)>)
        requires
            old(self).wf(),
        ensures
            final(self).wf(),
            res.is_some() <==> next_header(old(self).remaining()).is_some(),
            res.is_none() ==> final(self).remaining() == Seq::<u8>::empty(),
            res matches Some((name, value)) ==> {
                let (n, v, used) = next_header(old(self).remaining()).unwrap();
                &&& name.spec_bytes() == n
                &&& value.spec_bytes() == v
                &&& final(self).remaining() == old(self).remaining().skip(used)
            },
    {
        let len: usize = self.itm.len();
        let start: usize = self.pos;
        let ghost rem = self.remaining();
        let colon: usize = match find_byte_pos(self.itm, 58u8, start) {
            Some(at) => at,
            None => len,
        };
        proof {
            lemma_index_of(self.itm@, 58u8, start as int);
            lemma_index_of_is(rem, 58u8, 0, colon - start);
        }
        if colon == len || len - colon < 2 {
            proof {
                if colon < len {
                    lemma_index_of(rem, 13u8, colon - start + 2);
                }
            }
            self.pos = len;
            assert(self.remaining() =~= Seq::<u8>::empty());
            return None;
        }
        let value_start: usize = colon + 2;
        let end: usize = match find_byte_pos(self.itm, 13u8, value_start) {
            Some(at) => at,
            None => len,
        };
        proof {
            lemma_index_of(self.itm@, 13u8, value_start as int);
            lemma_index_of_is(rem, 13u8, value_start - start, end - start);
        }
        if end == len {
            self.pos = len;
            assert(self.remaining() =~= Seq::<u8>::empty());
            return None;
        }
        let name_bytes = slice_subrange(self.itm, start, colon);
        let value_bytes = slice_subrange(self.itm, value_start, end);
        proof {
            assert(name_bytes@ =~= rem.subrange(0, colon - start));
            assert(value_bytes@ =~= rem.subrange(value_start - start, end - start));
        }
        let name = str_from_utf8(name_bytes);
        let value = str_from_utf8(value_bytes);
        match (name, value) {
            (Some(name), Some(value)) => {
                self.pos = if len - end >= 2 { end + 2 } else { len };
                proof {
                    let used = next_header(rem).unwrap().2;
                    assert(self.remaining() =~= rem.skip(used));
                }
                Some((name, value))
            },
            _ => {
                self.pos = len;
                assert(self.remaining() =~= Seq::<u8>::empty());
                None
            },
        }
    }
}

/// The wire form of a list of headers, in order.
pub open spec fn headers_wire(list: Seq<(Seq<u8>, Seq<u8>)>) -> Seq<u8>
    decreases list.len(),
{
    if list.len() == 0 {
        Seq::empty()
    } else {
        header_line(list[0].0, list[0].1) + headers_wire(list.skip(1))
    }
}

/// The headers that reading one after another takes out of `s`.
pub open spec fn headers_read(s: Seq<u8>) -> Seq<(Seq<u8>, Seq<u8>)>
    decreases s.len(),
{
    match next_header(s) {
        Some((name, value, used)) => if 0 < used <= s.len() {
            seq![(name, value)] + headers_read(s.skip(used))
        } else {
            Seq::empty()
        },
        None => Seq::empty(),
    }
}

/// True when a header can be written and read back: name and value are
/// text, the name holds no colon and the value no carriage return.
pub open spec fn readable_header(name: Seq<u8>, value: Seq<u8>) -> bool {
    &&& valid_utf8(name)
    &&& valid_utf8(value)
    &&& forall|i: int| 0 <= i < name.len() ==> name[i] != 58u8
    &&& forall|i: int| 0 <= i < value.len() ==> value[i] != 13u8
}

/// One header in wire form, followed by anything, is read back as it was
/// written, and what follows is left.
pub proof fn lemma_header_line_read_back(name: Seq<u8>, value: Seq<u8>, rest: Seq<u8>)
    requires
        readable_header(name, value),
    ensures
        next_header(header_line(name, value) + rest) == Some(
            (name, value, header_line(name, value).len() as int),
        ),
        (header_line(name, value) + rest).skip(header_line(name, value).len() as int) == rest,
{
    let s = header_line(name, value) + rest;
    let colon = name.len() as int;
    let end = colon + 2 + value.len();
    assert(s[colon] == 58u8);
    assert forall|j: int| 0 <= j < colon implies s[j] != 58u8 by {
        assert(s[j] == name[j]);
    }
    lemma_index_of_is(s, 58u8, 0, colon);
    assert(s[end] == 13u8);
    assert forall|j: int| colon + 2 <= j < end implies s[j] != 13u8 by {
        assert(s[j] == value[j - colon - 2]);
    }
    lemma_index_of_is(s, 13u8, colon + 2, end);
    assert(s.subrange(0, colon) =~= name);
    assert(s.subrange(colon + 2, end) =~= value);
    assert(s.skip(header_line(name, value).len() as int) =~= rest);
}

/// Writing headers and reading them back gives the same headers in the same
/// order, for every list of headers that can be read back one by one.
pub proof fn lemma_headers_round_trip(list: Seq<(Seq<u8>, Seq<u8>)>)
    requires
        forall|i: int| 0 <= i < list.len() ==> readable_header((#[trigger] list[i]).0, list[i].1),
    ensures
        headers_read(headers_wire(list)) == list,
    decreases list.len(),
{
    let s = headers_wire(list);
    if list.len() == 0 {
        lemma_index_of(s, 58u8, 0);
        assert(headers_read(s) =~= list);
    } else {
        let tail = list.skip(1);
        assert forall|i: int| 0 <= i < tail.len() implies readable_header(
            (#[trigger] tail[i]).0,
            tail[i].1,
        ) by {
            assert(tail[i] == list[i + 1]);
        }
        lemma_headers_round_trip(tail);
        lemma_header_line_read_back(list[0].0, list[0].1, headers_wire(tail));
        assert(headers_read(s) =~= seq![list[0]] + tail);
        assert(seq![list[0]] + tail =~= list);
    }
}

} // verus!
