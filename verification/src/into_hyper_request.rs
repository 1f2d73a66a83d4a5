//! Reading a request back from its wire form: the method, the target and
//! the headers, as plain bytes for whoever builds another kind of request
//! from them.

use vstd::prelude::*;
use vstd::slice::{slice_subrange, slice_to_vec};
use crate::byte_utils::{
    eq_ignore_case, find_byte_pos, index_of, lemma_index_of, same_ignoring_case, trim, trimmed,
};
use crate::tcp_buffer::crlf_at;

verus! {

/// Index of the first line break of `s` that starts at or behind `from`, or
/// the length of `s` when there is none.
pub open spec fn next_crlf(s: Seq<u8>, from: int) -> int
    decreases s.len() - from,
{
    if from < 0 || from + 1 >= s.len() {
        s.len() as int
    } else if s[from] == 13u8 && s[from + 1] == 10u8 {
        from
    } else {
        next_crlf(s, from + 1)
    }
}

/// What `next_crlf` finds is a line break, and the first one.
pub proof fn lemma_next_crlf(s: Seq<u8>, from: int)
    requires
        0 <= from,
    ensures
        next_crlf(s, from) < s.len() ==> from <= next_crlf(s, from) && crlf_at(
            s,
            next_crlf(s, from),
        ),
        next_crlf(s, from) <= s.len(),
        forall|j: int| from <= j < next_crlf(s, from) ==> !crlf_at(s, j),
    decreases s.len() - from,
{
    if from + 1 < s.len() && !(s[from] == 13u8 && s[from + 1] == 10u8) {
        lemma_next_crlf(s, from + 1);
    }
}

/// Position of the first line break of `slice` that starts at or behind
/// `from_index`.
pub fn find_next_cl_cr(slice: &[u8], from_index: usize) -> (res: Option<usize>)
    ensures
        res is Some <==> next_crlf(slice@, from_index as int) < slice@.len(),
        res matches Some(i) ==> i == next_crlf(slice@, from_index as int) && from_index <= i
            && crlf_at(slice@, i as int),
{
    proof {
        lemma_next_crlf(slice@, from_index as int);
    }
    let len: usize = slice.len();
    let mut i: usize = from_index;
    while i < len && len - i > 1
        invariant
            from_index <= i,
            len == slice@.len(),
            next_crlf(slice@, i as int) == next_crlf(slice@, from_index as int),
        decreases len - i,
    {
        if slice[i] == 13u8 && slice[i + 1] == 10u8 {
            return Some(i);
        }
        i += 1;
    }
    None
}

/// The part of a header line before its first colon; the whole line when
/// it has none.
pub open spec fn name_part(line: Seq<u8>) -> Seq<u8> {
    line.subrange(0, index_of(line, 58u8, 0))
}

/// The part of a header line behind its first colon; nothing when it has
/// none.
pub open spec fn value_part(line: Seq<u8>) -> Seq<u8> {
    let colon = index_of(line, 58u8, 0);
    if colon < line.len() {
        line.subrange(colon + 1, line.len() as int)
    } else {
        Seq::empty()
    }
}

/// Splits a header line at its first colon.
pub fn extract_name_and_value(line: &[u8]) -> (res: (&[u8], &[u8]))
    ensures
        res.0@ == name_part(line@),
        res.1@ == value_part(line@),
{
    proof {
        lemma_index_of(line@, 58u8, 0);
    }
    let len: usize = line.len();
    match find_byte_pos(line, 58u8, 0) {
        Some(at) => (slice_subrange(line, 0, at), slice_subrange(line, at + 1, len)),
        None => {
            let name = slice_subrange(line, 0, len);
            let value = slice_subrange(line, len, len);
            assert(value@ =~= Seq::<u8>::empty());
            (name, value)
        },
    }
}

/// The method of a request line: what stands before the first space.
pub open spec fn method_part(line: Seq<u8>) -> Seq<u8> {
    line.subrange(0, index_of(line, 32u8, 0))
}

/// The target of a request line: what stands between the first space and
/// the next, or the end of the line. Only meant for lines with a space.
pub open spec fn uri_part(line: Seq<u8>) -> Seq<u8> {
    let first = index_of(line, 32u8, 0);
    line.subrange(first + 1, index_of(line, 32u8, first + 1))
}

/// Method and target of a request line. Nothing when the line holds no
/// space, and so no target.
pub fn extract_http_method_and_uri(line: &[u8]) -> (res: Option<(&[u8], &[u8])>)
    ensures
        res is Some <==> index_of(line@, 32u8, 0) < line@.len(),
        res matches Some((method, uri)) ==> method@ == method_part(line@) && uri@ == uri_part(
            line@,
        ),
{
    proof {
        lemma_index_of(line@, 32u8, 0);
    }
    let len: usize = line.len();
    let first: usize = match find_byte_pos(line, 32u8, 0) {
        Some(at) => at,
        None => {
            return None;
        },
    };
    proof {
        lemma_index_of(line@, 32u8, first + 1);
    }
    let second: usize = match find_byte_pos(line, 32u8, first + 1) {
        Some(at) => at,
        None => len,
    };
    Some((slice_subrange(line, 0, first), slice_subrange(line, first + 1, second)))
}

/// Names and values of a list of headers.
pub open spec fn pairs_view(headers: Seq<(Vec<u8>, Vec<u8>)>) -> Seq<(Seq<u8>, Seq<u8>)> {
    headers.map_values(|h: (Vec<u8>, Vec<u8>)| (h.0@, h.1@))
}

/// The headers that stand in `s` from `from` on, one per line that ends
/// with a line break: name and value as split at the first colon, each
/// without the white space around it.
pub open spec fn header_lines_from(s: Seq<u8>, from: int) -> Seq<(Seq<u8>, Seq<u8>)>
    decreases s.len() - from,
{
    let end = next_crlf(s, from);
    if from < 0 || end < from || end + 2 > s.len() {
        Seq::empty()
    } else {
        let line = s.subrange(from, end);
        seq![(trimmed(name_part(line)), trimmed(value_part(line)))] + header_lines_from(s, end + 2)
    }
}

/// Method, target and headers of a request.
#[derive(Debug, Clone, PartialEq, Eq)]
pub struct RequestParts {
    pub method: Vec<u8>,
    pub uri: Vec<u8>,
    pub headers: Vec<(Vec<u8>, Vec<u8>)>,
}

/// Reads the request line and the headers of a request back from their
/// wire form. Nothing when the request line does not end with a line break
/// or holds no space.
pub fn build_h1_headers(headers: &[u8]) -> (res: Option<RequestParts>)
    ensures
        res is Some <==> next_crlf(headers@, 0) < headers@.len() && index_of(
            headers@.subrange(0, next_crlf(headers@, 0)),
            32u8,
            0,
        ) < next_crlf(headers@, 0),
        res matches Some(parts) ==> {
            let line = headers@.subrange(0, next_crlf(headers@, 0));
            &&& parts.method@ == method_part(line)
            &&& parts.uri@ == uri_part(line)
            &&& pairs_view(parts.headers@) == header_lines_from(
                headers@,
                next_crlf(headers@, 0) + 2,
            )
        },
{
    let len: usize = headers.len();
    let line_end: usize = match find_next_cl_cr(headers, 0) {
        Some(at) => at,
        None => {
            return None;
        },
    };
    let (method, uri) = match extract_http_method_and_uri(slice_subrange(headers, 0, line_end)) {
        Some(found) => found,
        None => {
            return None;
        },
    };
    let mut list: Vec<(Vec<u8>, Vec<u8>)> = Vec::new();
    let mut index: usize = line_end + 2;
    assert(pairs_view(list@) =~= Seq::empty());
    let mut more: bool = true;
    while more
        invariant
            len == headers@.len(),
            index <= len,
            !more ==> next_crlf(headers@, index as int) >= len,
            header_lines_from(headers@, line_end + 2) == pairs_view(list@) + header_lines_from(
                headers@,
                index as int,
            ),
        decreases len - index + if more { 1int } else { 0int },
    {
        proof {
            lemma_next_crlf(headers@, index as int);
        }
        match find_next_cl_cr(headers, index) {
            Some(end) => {
                let (name, value) = extract_name_and_value(slice_subrange(headers, index, end));
                let ghost before = list@;
                let pair = (slice_to_vec(trim(name)), slice_to_vec(trim(value)));
                list.push(pair);
                proof {
                    let item = (pair.0@, pair.1@);
                    assert(pairs_view(list@) =~= pairs_view(before).push(item));
                    assert(pairs_view(before).push(item) + header_lines_from(headers@, end + 2)
                        =~= pairs_view(before) + (seq![item] + header_lines_from(
                        headers@,
                        end + 2,
                    )));
                }
                index = end + 2;
            },
            None => {
                more = false;
            },
        }
    }
    proof {
        assert(header_lines_from(headers@, index as int) =~= Seq::empty());
        assert(pairs_view(list@) + Seq::empty() =~= pairs_view(list@));
    }
    Some(RequestParts { method: slice_to_vec(method), uri: slice_to_vec(uri), headers: list })
}

/// The header name `host`.
pub open spec fn host_name() -> Seq<u8> {
    seq![104u8, 111u8, 115u8, 116u8]
}

fn is_host(name: &[u8]) -> (res: bool)
    ensures
        res == same_ignoring_case(name@, host_name()),
{
    let lit: [u8; 4] = [104u8, 111u8, 115u8, 116u8];
    assert(lit@ =~= host_name());
    eq_ignore_case(name, lit.as_slice())
}

/// The headers that stand in `s` from `from` on, as `header_lines_from`
/// gives them, but for those named `host`.
pub open spec fn other_lines_from(s: Seq<u8>, from: int) -> Seq<(Seq<u8>, Seq<u8>)>
    decreases s.len() - from,
{
    let end = next_crlf(s, from);
    if from < 0 || end < from || end + 2 > s.len() {
        Seq::empty()
    } else {
        let line = s.subrange(from, end);
        if same_ignoring_case(name_part(line), host_name()) {
            other_lines_from(s, end + 2)
        } else {
            seq![(trimmed(name_part(line)), trimmed(value_part(line)))] + other_lines_from(
                s,
                end + 2,
            )
        }
    }
}

/// The value of the last header named `host` that stands in `s` from
/// `from` on, without the white space around it.
pub open spec fn host_from(s: Seq<u8>, from: int) -> Option<Seq<u8>>
    decreases s.len() - from,
{
    let end = next_crlf(s, from);
    if from < 0 || end < from || end + 2 > s.len() {
        None
    } else {
        let line = s.subrange(from, end);
        match host_from(s, end + 2) {
            Some(later) => Some(later),
            None => if same_ignoring_case(name_part(line), host_name()) {
                Some(trimmed(value_part(line)))
            } else {
                None
            },
        }
    }
}

/// The later of two hosts, where there is a later one.
pub open spec fn later_host(earlier: Option<Seq<u8>>, later: Option<Seq<u8>>) -> Option<Seq<u8>> {
    match later {
        Some(host) => Some(host),
        None => earlier,
    }
}

/// The view of a host that may be missing.
pub open spec fn host_view(host: Option<Vec<u8>>) -> Option<Seq<u8>> {
    match host {
        Some(bytes) => Some(bytes@),
        None => None,
    }
}

/// Method, target and headers of a request for a protocol that carries the
/// host in the target: the `host` header is taken out of the headers.
#[derive(Debug, Clone, PartialEq, Eq)]
pub struct H2RequestParts {
    pub method: Vec<u8>,
    pub uri: Vec<u8>,
    pub is_https: bool,
    pub host: Option<Vec<u8>>,
    pub headers: Vec<(Vec<u8>, Vec<u8>)>,
}

/// Reads the request line and the headers of a request back from their
/// wire form, the `host` header apart from the others; of several the last
/// one counts. Nothing when the request line does not end with a line break
/// or holds no space.
pub fn build_h2_headers(headers: &[u8], is_https: bool) -> (res: Option<H2RequestParts>)
    ensures
        res is Some <==> next_crlf(headers@, 0) < headers@.len() && index_of(
            headers@.subrange(0, next_crlf(headers@, 0)),
            32u8,
            0,
        ) < next_crlf(headers@, 0),
        res matches Some(parts) ==> {
            let line = headers@.subrange(0, next_crlf(headers@, 0));
            &&& parts.method@ == method_part(line)
            &&& parts.uri@ == uri_part(line)
            &&& parts.is_https == is_https
            &&& host_view(parts.host) == host_from(headers@, next_crlf(headers@, 0) + 2)
            &&& pairs_view(parts.headers@) == other_lines_from(
                headers@,
                next_crlf(headers@, 0) + 2,
            )
        },
{
    let len: usize = headers.len();
    let line_end: usize = match find_next_cl_cr(headers, 0) {
        Some(at) => at,
        None => {
            return None;
        },
    };
    let (method, uri) = match extract_http_method_and_uri(slice_subrange(headers, 0, line_end)) {
        Some(found) => found,
        None => {
            return None;
        },
    };
    let mut list: Vec<(Vec<u8>, Vec<u8>)> = Vec::new();
    let mut host: Option<Vec<u8>> = None;
    let mut index: usize = line_end + 2;
    assert(pairs_view(list@) =~= Seq::empty());
    let mut more: bool = true;
    while more
        invariant
            len == headers@.len(),
            index <= len,
            !more ==> next_crlf(headers@, index as int) >= len,
            other_lines_from(headers@, line_end + 2) == pairs_view(list@) + other_lines_from(
                headers@,
                index as int,
            ),
            host_from(headers@, line_end + 2) == later_host(
                host_view(host),
                host_from(headers@, index as int),
            ),
        decreases len - index + if more { 1int } else { 0int },
    {
        proof {
            lemma_next_crlf(headers@, index as int);
        }
        match find_next_cl_cr(headers, index) {
            Some(end) => {
                let (name, value) = extract_name_and_value(slice_subrange(headers, index, end));
                if is_host(name) {
                    host = Some(slice_to_vec(trim(value)));
                } else {
                    let ghost before = list@;
                    let pair = (slice_to_vec(trim(name)), slice_to_vec(trim(value)));
                    list.push(pair);
                    proof {
                        let item = (pair.0@, pair.1@);
                        assert(pairs_view(list@) =~= pairs_view(before).push(item));
                        assert(pairs_view(before).push(item) + other_lines_from(headers@, end + 2)
                            =~= pairs_view(before) + (seq![item] + other_lines_from(
                            headers@,
                            end + 2,
                        )));
                    }
                }
                index = end + 2;
            },
            None => {
                more = false;
            },
        }
    }
    proof {
        assert(other_lines_from(headers@, index as int) =~= Seq::empty());
        assert(pairs_view(list@) + Seq::empty() =~= pairs_view(list@));
    }
    Some(
        H2RequestParts {
            method: slice_to_vec(method),
            uri: slice_to_vec(uri),
            is_https,
            host,
            headers: list,
        },
    )
}

} // verus!
