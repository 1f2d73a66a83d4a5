//! The head of an HTTP/1.1 response: the status line, the header lines and
//! the decision how the bytes behind the head are framed.

use vstd::prelude::*;
use vstd::slice::{slice_subrange, slice_to_vec};
use vstd::utf8::{
    is_leading_byte_width_1, partial_valid_utf8, partial_valid_utf8_extend_ascii_block, valid_utf8,
};
use crate::byte_utils::{
    decimal_digits, decimal_value, eq_ignore_case, find_byte_pos, index_of, is_decimal, is_digit,
    lemma_decimal_round_trip, lemma_index_of, lemma_index_of_is, parse_decimal,
    same_ignoring_case, str_from_utf8, trim, trim_end, trim_start, trimmed, unsigned_part,
};
use crate::error::HttpParseError;
use crate::body_reader::BodyReader;
use crate::tcp_buffer::{
    crlf, framed, is_first_line, lemma_line_then_rest, no_crlf, TcpBuffer,
};

verus! {

/// The header name `content-length`.
pub open spec fn content_length_name() -> Seq<u8> {
    seq![99u8, 111u8, 110u8, 116u8, 101u8, 110u8, 116u8, 45u8, 108u8, 101u8, 110u8, 103u8, 116u8, 104u8]
}

/// The header name `transfer-encoding`.
pub open spec fn transfer_encoding_name() -> Seq<u8> {
    seq![116u8, 114u8, 97u8, 110u8, 115u8, 102u8, 101u8, 114u8, 45u8, 101u8, 110u8, 99u8, 111u8, 100u8, 105u8, 110u8, 103u8]
}

/// The header value `chunked`.
pub open spec fn chunked_value() -> Seq<u8> {
    seq![99u8, 104u8, 117u8, 110u8, 107u8, 101u8, 100u8]
}

/// The header name `upgrade`.
pub open spec fn upgrade_name() -> Seq<u8> {
    seq![117u8, 112u8, 103u8, 114u8, 97u8, 100u8, 101u8]
}

/// The header value `websocket`.
pub open spec fn websocket_value() -> Seq<u8> {
    seq![119u8, 101u8, 98u8, 115u8, 111u8, 99u8, 107u8, 101u8, 116u8]
}

/// The version token `HTTP/1.0`.
pub open spec fn http_10_token() -> Seq<u8> {
    seq![72u8, 84u8, 84u8, 80u8, 47u8, 49u8, 46u8, 48u8]
}

/// The version token `HTTP/1.1`.
pub open spec fn http_11_token() -> Seq<u8> {
    seq![72u8, 84u8, 84u8, 80u8, 47u8, 49u8, 46u8, 49u8]
}

fn is_content_length(src: &[u8]) -> (res: bool)
    ensures
        res == same_ignoring_case(src@, content_length_name()),
{
    let lit: [u8; 14] = [99u8, 111u8, 110u8, 116u8, 101u8, 110u8, 116u8, 45u8, 108u8, 101u8, 110u8, 103u8, 116u8, 104u8];
    assert(lit@ =~= content_length_name());
    eq_ignore_case(src, lit.as_slice())
}

fn is_transfer_encoding(src: &[u8]) -> (res: bool)
    ensures
        res == same_ignoring_case(src@, transfer_encoding_name()),
{
    let lit: [u8; 17] = [116u8, 114u8, 97u8, 110u8, 115u8, 102u8, 101u8, 114u8, 45u8, 101u8, 110u8, 99u8, 111u8, 100u8, 105u8, 110u8, 103u8];
    assert(lit@ =~= transfer_encoding_name());
    eq_ignore_case(src, lit.as_slice())
}

fn is_chunked(src: &[u8]) -> (res: bool)
    ensures
        res == same_ignoring_case(src@, chunked_value()),
{
    let lit: [u8; 7] = [99u8, 104u8, 117u8, 110u8, 107u8, 101u8, 100u8];
    assert(lit@ =~= chunked_value());
    eq_ignore_case(src, lit.as_slice())
}

fn is_upgrade(src: &[u8]) -> (res: bool)
    ensures
        res == same_ignoring_case(src@, upgrade_name()),
{
    let lit: [u8; 7] = [117u8, 112u8, 103u8, 114u8, 97u8, 100u8, 101u8];
    assert(lit@ =~= upgrade_name());
    eq_ignore_case(src, lit.as_slice())
}

fn is_websocket(src: &[u8]) -> (res: bool)
    ensures
        res == same_ignoring_case(src@, websocket_value()),
{
    let lit: [u8; 9] = [119u8, 101u8, 98u8, 115u8, 111u8, 99u8, 107u8, 101u8, 116u8];
    assert(lit@ =~= websocket_value());
    eq_ignore_case(src, lit.as_slice())
}

fn is_http_10(src: &[u8]) -> (res: bool)
    ensures
        res == (src@ == http_10_token()),
{
    let lit: [u8; 8] = [72u8, 84u8, 84u8, 80u8, 47u8, 49u8, 46u8, 48u8];
    assert(lit@ =~= http_10_token());
    if src.len() != 8 {
        return false;
    }
    let mut i: usize = 0;
    while i < 8
        invariant
            i <= 8,
            src@.len() == 8,
            lit@ == http_10_token(),
            forall|j: int| 0 <= j < i ==> src@[j] == lit@[j],
        decreases 8 - i,
    {
        if src[i] != lit[i] {
            return false;
        }
        i += 1;
    }
    assert(src@ =~= http_10_token());
    true
}

fn is_http_11(src: &[u8]) -> (res: bool)
    ensures
        res == (src@ == http_11_token()),
{
    let lit: [u8; 8] = [72u8, 84u8, 84u8, 80u8, 47u8, 49u8, 46u8, 49u8];
    assert(lit@ =~= http_11_token());
    if src.len() != 8 {
        return false;
    }
    let mut i: usize = 0;
    while i < 8
        invariant
            i <= 8,
            src@.len() == 8,
            lit@ == http_11_token(),
            forall|j: int| 0 <= j < i ==> src@[j] == lit@[j],
        decreases 8 - i,
    {
        if src[i] != lit[i] {
            return false;
        }
        i += 1;
    }
    assert(src@ =~= http_11_token());
    true
}

/// The protocol versions a response may announce.
#[derive(Debug, Clone, Copy, PartialEq, Eq, Structural)]
pub enum HttpVersion {
    Http10,
    Http11,
}

/// What one header line says about the framing of the body.
#[derive(Debug, Clone, Copy, PartialEq, Eq, Structural)]
pub enum DetectedBodySize {
    Unknown,
    Known(usize),
    Chunked,
    WebSocketUpgrade,
}

impl DetectedBodySize {
    /// Whether the line said nothing about framing.
    pub fn is_unknown(&self) -> (res: bool)
        ensures
            res == (self is Unknown),
    {
        match self {
            DetectedBodySize::Unknown => true,
            _ => false,
        }
    }

    /// The framing after one more header line: a line that says something
    /// about framing replaces what earlier lines said, any other line leaves
    /// it.
    pub open spec fn overridden_by(self, later: DetectedBodySize) -> DetectedBodySize {
        if later is Unknown {
            self
        } else {
            later
        }
    }
}

/// One header of a response: name and value as they stood on the wire, the
/// value without the white space around it.
#[derive(Debug, Clone, PartialEq, Eq)]
pub struct ResponseHeader {
    pub name: Vec<u8>,
    pub value: Vec<u8>,
}

impl View for ResponseHeader {
    type V = (Seq<u8>, Seq<u8>);

    open spec fn view(&self) -> (Seq<u8>, Seq<u8>) {
        (self.name@, self.value@)
    }
}

/// Names and values of a list of headers.
pub open spec fn headers_view(headers: Seq<ResponseHeader>) -> Seq<(Seq<u8>, Seq<u8>)> {
    headers.map_values(|h: ResponseHeader| h@)
}

/// Status, version and headers of a response, the headers in wire order.
#[derive(Debug)]
pub struct ResponseHead {
    pub status: u16,
    pub version: HttpVersion,
    pub headers: Vec<ResponseHeader>,
}

impl ResponseHead {
    /// Names and values of the headers, in wire order.
    pub open spec fn header_list(&self) -> Seq<(Seq<u8>, Seq<u8>)> {
        headers_view(self.headers@)
    }
}

/// How the bytes behind the head of a response are to be read.
#[derive(Debug, Clone, Copy, PartialEq, Eq, Structural)]
pub enum BodyFraming {
    LengthBased(usize),
    Chunked,
    WebSocketUpgrade,
}

/// The status code that three digits write, the first of them not zero.
pub open spec fn status_code_of(token: Seq<u8>) -> Option<u16> {
    if token.len() == 3 && 49 <= token[0] <= 57 && is_digit(token[1]) && is_digit(token[2]) {
        Some(((token[0] - 48) * 100 + (token[1] - 48) * 10 + (token[2] - 48)) as u16)
    } else {
        None
    }
}

/// `http::StatusCode::from_bytes`, then `as_u16`: the number of a status
/// code written as exactly three ASCII digits of which the first is not
/// zero, and nothing for any other bytes.
#[verifier::external_body]
fn status_code_from_bytes(src: &[u8]) -> (res: Option<u16>)
    ensures
        res == status_code_of(src@),
{
    match http::StatusCode::from_bytes(src) {
        Ok(code) => Some(code.as_u16()),
        Err(_) => None,
    }
}

/// True for the bytes a header value may hold: tab, and everything from
/// space upwards but the delete character.
pub open spec fn header_value_byte(b: u8) -> bool {
    (b >= 32 && b != 127) || b == 9
}

/// True when every byte of `value` may stand in a header value.
pub open spec fn header_value_ok(value: Seq<u8>) -> bool {
    forall|i: int| 0 <= i < value.len() ==> header_value_byte(#[trigger] value[i])
}

/// `http::HeaderValue::from_bytes`: whether the bytes are accepted as a
/// header value, which they are when none of them is a control character
/// other than tab.
#[verifier::external_body]
fn header_value_accepted(value: &[u8]) -> (res: bool)
    ensures
        res == header_value_ok(value@),
{
    http::HeaderValue::from_bytes(value).is_ok()
}

/// The first token of a status line: what stands before the first space.
pub open spec fn version_token(line: Seq<u8>) -> Seq<u8> {
    line.subrange(0, index_of(line, 32u8, 0))
}

/// The second token of a status line: what stands between the first space
/// and the next, or the end of the line. Only meant for lines with a space.
pub open spec fn status_token(line: Seq<u8>) -> Seq<u8> {
    let first = index_of(line, 32u8, 0);
    line.subrange(first + 1, index_of(line, 32u8, first + 1))
}

/// The version a token names.
pub open spec fn version_of(token: Seq<u8>) -> Option<HttpVersion> {
    if token == http_10_token() {
        Some(HttpVersion::Http10)
    } else if token == http_11_token() {
        Some(HttpVersion::Http11)
    } else {
        None
    }
}

/// Status and version that a status line gives, when it is one: text whose
/// first token names a supported version and whose second token is a status
/// code. What follows the second token is not looked at.
pub open spec fn status_line(line: Seq<u8>) -> Option<(u16, HttpVersion)> {
    if !valid_utf8(line) || version_of(version_token(line)).is_none() || index_of(line, 32u8, 0)
        >= line.len() {
        None
    } else {
        match status_code_of(status_token(line)) {
            Some(code) => Some((code, version_of(version_token(line)).unwrap())),
            None => None,
        }
    }
}

/// The error for bytes that are no response, with the reason.
fn invalid_payload(reason: &str) -> (res: HttpParseError)
    ensures
        res is InvalidHttpPayload,
{
    HttpParseError::InvalidHttpPayload(reason.to_owned())
}

/// Reads the first line of a response, given without its line break.
pub fn parse_http_response_first_line(src: &[u8]) -> (res: Result<(u16, HttpVersion), HttpParseError>)
    ensures
        res.is_ok() <==> status_line(src@).is_some(),
        res matches Ok(found) ==> Some(found) == status_line(src@),
        res matches Err(e) ==> e is InvalidHttpPayload,
{
    if str_from_utf8(src).is_none() {
        return Err(
            invalid_payload("Invalid HTTP first line. Can not convert payload to UTF8 string"),
        );
    }
    let len: usize = src.len();
    proof {
        lemma_index_of(src@, 32u8, 0);
    }
    let first: usize = match find_byte_pos(src, 32u8, 0) {
        Some(at) => at,
        None => len,
    };
    let token = slice_subrange(src, 0, first);
    let version = if is_http_10(token) {
        HttpVersion::Http10
    } else if is_http_11(token) {
        HttpVersion::Http11
    } else {
        return Err(invalid_payload("Not supported HTTP protocol"));
    };
    if first == len {
        return Err(invalid_payload("Invalid Http First Line"));
    }
    proof {
        lemma_index_of(src@, 32u8, first + 1);
    }
    let second: usize = match find_byte_pos(src, 32u8, first + 1) {
        Some(at) => at,
        None => len,
    };
    match status_code_from_bytes(slice_subrange(src, first + 1, second)) {
        Some(code) => Ok((code, version)),
        None => Err(invalid_payload("Invalid HTTP status code")),
    }
}

/// What the name and the trimmed value of a header say about framing.
/// Only meant for a `content-length` whose value is a number.
pub open spec fn framing_signal(name: Seq<u8>, value: Seq<u8>) -> DetectedBodySize {
    if same_ignoring_case(name, upgrade_name()) && same_ignoring_case(value, websocket_value()) {
        DetectedBodySize::WebSocketUpgrade
    } else if same_ignoring_case(name, transfer_encoding_name()) && same_ignoring_case(
        value,
        chunked_value(),
    ) {
        DetectedBodySize::Chunked
    } else if same_ignoring_case(name, content_length_name()) {
        DetectedBodySize::Known(decimal_value(unsigned_part(value)) as usize)
    } else {
        DetectedBodySize::Unknown
    }
}

/// The name of a header line: what stands before the first colon.
pub open spec fn header_name(line: Seq<u8>) -> Seq<u8> {
    line.subrange(0, index_of(line, 58u8, 0))
}

/// The value of a header line: what stands behind the first colon, without
/// the white space around it. Only meant for lines with a colon.
pub open spec fn header_value(line: Seq<u8>) -> Seq<u8> {
    trimmed(line.subrange(index_of(line, 58u8, 0) + 1, line.len() as int))
}

/// True when a line is a header: it has a colon, name and value are text,
/// the value holds no control character but tab, and a `content-length` is
/// a number that fits the machine word.
pub open spec fn is_header_line(line: Seq<u8>) -> bool {
    let colon = index_of(line, 58u8, 0);
    &&& colon < line.len()
    &&& valid_utf8(header_name(line))
    &&& valid_utf8(line.subrange(colon + 1, line.len() as int))
    &&& header_value_ok(header_value(line))
    &&& (same_ignoring_case(header_name(line), content_length_name()) ==> is_decimal(
        header_value(line),
    ))
}

/// Reads one header line, given without its line break: the header, and
/// what it says about the framing of the body.
pub fn parse_http_header(src: &[u8]) -> (res: Result<(ResponseHeader, DetectedBodySize), HttpParseError>)
    ensures
        res.is_ok() <==> is_header_line(src@),
        res matches Ok((header, signal)) ==> {
            &&& header.name@ == header_name(src@)
            &&& header.value@ == header_value(src@)
            &&& signal == framing_signal(header_name(src@), header_value(src@))
        },
        res matches Err(e) ==> e is InvalidHttpPayload,
{
    proof {
        lemma_index_of(src@, 58u8, 0);
    }
    let colon: usize = match find_byte_pos(src, 58u8, 0) {
        Some(at) => at,
        None => {
            return Err(
                invalid_payload("Can not find separator between HTTP header and Http response"),
            );
        },
    };
    let name = slice_subrange(src, 0, colon);
    if str_from_utf8(name).is_none() {
        return Err(
            invalid_payload("Invalid HTTP header name. Can not convert payload to UTF8 string"),
        );
    }
    let len: usize = src.len();
    let raw_value = slice_subrange(src, colon + 1, len);
    if str_from_utf8(raw_value).is_none() {
        return Err(invalid_payload("Invalid HTTP value. Can not convert payload to UTF8 string"));
    }
    let value = trim(raw_value);
    let mut signal = DetectedBodySize::Unknown;
    if is_content_length(name) {
        match parse_decimal(value) {
            Some(size) => {
                signal = DetectedBodySize::Known(size);
            },
            None => {
                return Err(invalid_payload("Invalid Content-Length value"));
            },
        }
    }
    if is_transfer_encoding(name) && is_chunked(value) {
        signal = DetectedBodySize::Chunked;
    }
    if is_upgrade(name) && is_websocket(value) {
        signal = DetectedBodySize::WebSocketUpgrade;
    }
    if !header_value_accepted(value) {
        return Err(invalid_payload("Invalid Header value"));
    }
    Ok((ResponseHeader { name: slice_to_vec(name), value: slice_to_vec(value) }, signal))
}

/// What is known of the head of a response while its lines arrive.
pub struct HeadState {
    pub status: Option<(u16, HttpVersion)>,
    pub headers: Seq<(Seq<u8>, Seq<u8>)>,
    pub detected: DetectedBodySize,
}

impl HeadState {
    /// Nothing read yet.
    pub open spec fn initial() -> HeadState {
        HeadState { status: None, headers: Seq::empty(), detected: DetectedBodySize::Unknown }
    }

    /// The framing that the header lines read so far call for: by length
    /// zero when none of them said anything.
    pub open spec fn framing(self) -> BodyFraming {
        match self.detected {
            DetectedBodySize::Unknown => BodyFraming::LengthBased(0),
            DetectedBodySize::Known(size) => BodyFraming::LengthBased(size),
            DetectedBodySize::Chunked => BodyFraming::Chunked,
            DetectedBodySize::WebSocketUpgrade => BodyFraming::WebSocketUpgrade,
        }
    }

    /// The state after one more line, when the line is acceptable. The first
    /// line is the status line; every later one is a header.
    pub open spec fn after_line(self, line: Seq<u8>) -> Option<HeadState> {
        if self.status is None {
            match status_line(line) {
                Some(found) => Some(HeadState { status: Some(found), ..self }),
                None => None,
            }
        } else if is_header_line(line) {
            Some(
                HeadState {
                    headers: self.headers.push((header_name(line), header_value(line))),
                    detected: self.detected.overridden_by(
                        framing_signal(header_name(line), header_value(line)),
                    ),
                    ..self
                },
            )
        } else {
            None
        }
    }
}

/// How far the live bytes take the reading of a head.
pub enum HeadOutcome {
    /// A line is neither a status line nor a header.
    Failed,
    /// Every whole line was taken in; the head goes on behind the bytes left.
    NeedMore(HeadState, Seq<u8>),
    /// The empty line was reached; the bytes left belong to the body.
    Done(HeadState, Seq<u8>),
}

/// Reads whole lines off `live` until the head ends, a line is refused, or
/// no whole line is left.
pub open spec fn head_outcome(st: HeadState, live: Seq<u8>) -> HeadOutcome
    decreases live.len(),
{
    if exists|n: int| is_first_line(live, n) {
        let n = choose|n: int| is_first_line(live, n);
        let line = live.take(n);
        let rest = live.skip(n + 2);
        if st.status is Some && line.len() == 0 {
            HeadOutcome::Done(st, rest)
        } else {
            match st.after_line(line) {
                Some(next) => head_outcome(next, rest),
                None => HeadOutcome::Failed,
            }
        }
    } else {
        HeadOutcome::NeedMore(st, live)
    }
}

/// The head of a response as far as it was read, kept between two
/// deliveries of bytes.
pub struct HeadersReader {
    status: Option<(u16, HttpVersion)>,
    headers: Vec<ResponseHeader>,
    detected: DetectedBodySize,
}

impl View for HeadersReader {
    type V = HeadState;

    closed spec fn view(&self) -> HeadState {
        HeadState {
            status: self.status,
            headers: headers_view(self.headers@),
            detected: self.detected,
        }
    }
}

impl HeadersReader {
    /// A reader that has read nothing yet.
    pub fn new() -> (res: Self)
        ensures
            res@ == HeadState::initial(),
    {
        let res = Self { status: None, headers: Vec::new(), detected: DetectedBodySize::Unknown };
        assert(headers_view(res.headers@) =~= Seq::empty());
        res
    }
}

/// Reads the head of a response off the buffer, as far as the live bytes
/// go. Whole lines are consumed one by one. When the empty line is reached,
/// the head and its framing are returned and `reader` is ready for the next
/// response. When the live bytes end first, `GetMoreData` is returned and
/// `reader` keeps what was read. A line that is neither status line nor
/// header gives `InvalidHttpPayload`.
pub fn read_headers(tcp_buffer: &mut TcpBuffer, reader: &mut HeadersReader) -> (res: Result<
    BodyReader,
    HttpParseError,
>)
    requires
        old(tcp_buffer).wf(),
    ensures
        final(tcp_buffer).wf(),
        final(tcp_buffer).capacity() == old(tcp_buffer).capacity(),
        match head_outcome(old(reader)@, old(tcp_buffer).live()) {
            HeadOutcome::Failed => res matches Err(e) && e is InvalidHttpPayload,
            HeadOutcome::NeedMore(st, left) => {
                &&& res matches Err(e) && e is GetMoreData
                &&& final(reader)@ == st
                &&& final(tcp_buffer).live() == left
            },
            HeadOutcome::Done(st, left) => {
                &&& res matches Ok(body_reader)
                &&& body_reader.wf()
                &&& body_reader.framing() == st.framing()
                &&& Some((body_reader.head().status, body_reader.head().version)) == st.status
                &&& body_reader.head().header_list() == st.headers
                &&& final(reader)@ == HeadState::initial()
                &&& final(tcp_buffer).live() == left
            },
        },
{
    loop
        invariant
            tcp_buffer.wf(),
            tcp_buffer.capacity() == old(tcp_buffer).capacity(),
            head_outcome(reader@, tcp_buffer.live()) == head_outcome(
                old(reader)@,
                old(tcp_buffer).live(),
            ),
        decreases tcp_buffer.live().len(),
    {
        let ghost live = tcp_buffer.live();
        let ghost st = reader@;
        let line = match tcp_buffer.read_until_crlf() {
            Some(line) => line,
            None => {
                assert(!exists|n: int| is_first_line(live, n));
                return Err(HttpParseError::GetMoreData);
            },
        };
        proof {
            let n = choose|n: int| is_first_line(live, n);
            assert(is_first_line(live, line@.len() as int));
            assert(n == line@.len());
        }
        match reader.status {
            None => {
                match parse_http_response_first_line(line) {
                    Ok(found) => {
                        reader.status = Some(found);
                        assert(reader@ == st.after_line(line@).unwrap());
                    },
                    Err(e) => {
                        return Err(e);
                    },
                }
            },
            Some((status, version)) => {
                if line.len() == 0 {
                    let mut headers: Vec<ResponseHeader> = Vec::new();
                    std::mem::swap(&mut headers, &mut reader.headers);
                    let detected = reader.detected;
                    reader.status = None;
                    reader.detected = DetectedBodySize::Unknown;
                    assert(headers_view(reader.headers@) =~= Seq::empty());
                    let head = ResponseHead { status, version, headers };
                    return Ok(BodyReader::from_head(head, detected));
                }
                match parse_http_header(line) {
                    Ok((header, signal)) => {
                        let ghost before = reader.headers@;
                        reader.headers.push(header);
                        if !signal.is_unknown() {
                            reader.detected = signal;
                        }
                        proof {
                            assert(headers_view(reader.headers@) =~= headers_view(before).push(
                                header@,
                            ));
                            assert(reader@ == st.after_line(line@).unwrap());
                        }
                    },
                    Err(e) => {
                        return Err(e);
                    },
                }
            },
        }
    }
}

/// The framing that a run of header lines calls for, given what stood
/// before and what each of the lines says.
pub open spec fn framing_after(start: DetectedBodySize, signals: Seq<DetectedBodySize>)
    -> DetectedBodySize
    decreases signals.len(),
{
    if signals.len() == 0 {
        start
    } else {
        framing_after(start.overridden_by(signals[0]), signals.skip(1))
    }
}

/// Header lines that say nothing about framing leave it as it was.
pub proof fn lemma_silent_headers_keep_framing(
    start: DetectedBodySize,
    signals: Seq<DetectedBodySize>,
)
    requires
        forall|j: int| 0 <= j < signals.len() ==> signals[j] is Unknown,
    ensures
        framing_after(start, signals) == start,
    decreases signals.len(),
{
    if signals.len() > 0 {
        lemma_silent_headers_keep_framing(start, signals.skip(1));
    }
}

/// The later framing header wins: when the header at `at` says something
/// about framing and no header behind it does, the framing is what that
/// header says, whatever stood before it.
pub proof fn lemma_later_framing_wins(
    start: DetectedBodySize,
    signals: Seq<DetectedBodySize>,
    at: int,
)
    requires
        0 <= at < signals.len(),
        !(signals[at] is Unknown),
        forall|j: int| at < j < signals.len() ==> signals[j] is Unknown,
    ensures
        framing_after(start, signals) == signals[at],
    decreases at,
{
    let tail = signals.skip(1);
    if at == 0 {
        lemma_silent_headers_keep_framing(signals[0], tail);
    } else {
        lemma_later_framing_wins(start.overridden_by(signals[0]), tail, at - 1);
    }
}

/// With no framing header at all, the body is framed by length zero.
pub proof fn lemma_no_framing_header(signals: Seq<DetectedBodySize>)
    requires
        forall|j: int| 0 <= j < signals.len() ==> signals[j] is Unknown,
    ensures
        (HeadState {
            detected: framing_after(DetectedBodySize::Unknown, signals),
            ..HeadState::initial()
        }).framing() == BodyFraming::LengthBased(0),
{
    lemma_silent_headers_keep_framing(DetectedBodySize::Unknown, signals);
}

/// The state after a run of header lines, each of them acceptable.
pub open spec fn after_lines(st: HeadState, lines: Seq<Seq<u8>>) -> HeadState
    decreases lines.len(),
{
    if lines.len() == 0 {
        st
    } else {
        after_lines(st.after_line(lines[0]).unwrap(), lines.skip(1))
    }
}

/// What a header line says about framing.
pub open spec fn line_signal(line: Seq<u8>) -> DetectedBodySize {
    framing_signal(header_name(line), header_value(line))
}

/// Name and value of a header line.
pub open spec fn line_header(line: Seq<u8>) -> (Seq<u8>, Seq<u8>) {
    (header_name(line), header_value(line))
}

/// Reading header lines keeps every header, in order, and frames the body
/// as the last line that speaks of framing says.
pub proof fn lemma_after_header_lines(st: HeadState, lines: Seq<Seq<u8>>)
    requires
        st.status is Some,
        forall|i: int| 0 <= i < lines.len() ==> is_header_line(#[trigger] lines[i]),
    ensures
        after_lines(st, lines).status == st.status,
        after_lines(st, lines).headers == st.headers + lines.map_values(
            |l: Seq<u8>| line_header(l),
        ),
        after_lines(st, lines).detected == framing_after(
            st.detected,
            lines.map_values(|l: Seq<u8>| line_signal(l)),
        ),
    decreases lines.len(),
{
    let headers = lines.map_values(|l: Seq<u8>| line_header(l));
    let signals = lines.map_values(|l: Seq<u8>| line_signal(l));
    if lines.len() == 0 {
        assert(st.headers + headers =~= st.headers);
    } else {
        let next = st.after_line(lines[0]).unwrap();
        let tail = lines.skip(1);
        assert forall|i: int| 0 <= i < tail.len() implies is_header_line(#[trigger] tail[i]) by {
            assert(tail[i] == lines[i + 1]);
        }
        lemma_after_header_lines(next, tail);
        assert(tail.map_values(|l: Seq<u8>| line_signal(l)) =~= signals.skip(1));
        assert(next.headers + tail.map_values(|l: Seq<u8>| line_header(l)) =~= st.headers
            + headers);
    }
}

/// The head of a response is read whole: behind a status line that was
/// taken in, header lines that are acceptable and hold no line break,
/// followed by the empty line and anything else, are all taken in, and what
/// follows the empty line is left for the body.
pub proof fn lemma_head_read_whole(st: HeadState, lines: Seq<Seq<u8>>, rest: Seq<u8>)
    requires
        st.status is Some,
        forall|i: int|
            0 <= i < lines.len() ==> is_header_line(#[trigger] lines[i]) && no_crlf(lines[i]),
    ensures
        head_outcome(st, framed(lines) + crlf() + rest) == HeadOutcome::Done(
            after_lines(st, lines),
            rest,
        ),
    decreases lines.len(),
{
    let live = framed(lines) + crlf() + rest;
    if lines.len() == 0 {
        let none = Seq::<u8>::empty();
        lemma_line_then_rest(none, rest);
        assert(live =~= none + crlf() + rest);
        let n = choose|n: int| is_first_line(live, n);
        assert(is_first_line(live, 0));
        assert(n == 0);
    } else {
        let tail = lines.skip(1);
        let behind = framed(tail) + crlf() + rest;
        assert forall|i: int| 0 <= i < tail.len() implies is_header_line(#[trigger] tail[i])
            && no_crlf(tail[i]) by {
            assert(tail[i] == lines[i + 1]);
        }
        lemma_line_then_rest(lines[0], behind);
        assert(live =~= lines[0] + crlf() + behind);
        let n = choose|n: int| is_first_line(live, n);
        assert(is_first_line(live, lines[0].len() as int));
        assert(n == lines[0].len());
        lemma_index_of(lines[0], 58u8, 0);
        assert(lines[0].len() > 0);
        lemma_head_read_whole(st.after_line(lines[0]).unwrap(), tail, rest);
    }
}

/// The status line is read first: an acceptable status line without a line
/// break inside, followed by a line break, is taken in, and reading goes on
/// behind it.
pub proof fn lemma_status_line_read_first(line: Seq<u8>, rest: Seq<u8>)
    requires
        status_line(line) is Some,
        no_crlf(line),
    ensures
        head_outcome(HeadState::initial(), line + crlf() + rest) == head_outcome(
            HeadState::initial().after_line(line).unwrap(),
            rest,
        ),
{
    let live = line + crlf() + rest;
    lemma_line_then_rest(line, rest);
    let n = choose|n: int| is_first_line(live, n);
    assert(is_first_line(live, line.len() as int));
    assert(n == line.len());
}

/// A whole head on the wire is read whole: an acceptable status line,
/// acceptable header lines, none of them with a line break inside, and the
/// empty line give the status, every header in order and the framing that
/// the headers call for; what follows the empty line is left for the body.
pub proof fn lemma_response_head_read_whole(
    status: Seq<u8>,
    lines: Seq<Seq<u8>>,
    rest: Seq<u8>,
)
    requires
        status_line(status) is Some,
        no_crlf(status),
        forall|i: int|
            0 <= i < lines.len() ==> is_header_line(#[trigger] lines[i]) && no_crlf(lines[i]),
    ensures
        head_outcome(HeadState::initial(), status + crlf() + framed(lines) + crlf() + rest)
            == HeadOutcome::Done(
            HeadState {
                status: status_line(status),
                headers: lines.map_values(|l: Seq<u8>| line_header(l)),
                detected: framing_after(
                    DetectedBodySize::Unknown,
                    lines.map_values(|l: Seq<u8>| line_signal(l)),
                ),
            },
            rest,
        ),
{
    let first = HeadState::initial().after_line(status).unwrap();
    let behind = framed(lines) + crlf() + rest;
    lemma_status_line_read_first(status, behind);
    assert(status + crlf() + framed(lines) + crlf() + rest =~= status + crlf() + behind);
    lemma_head_read_whole(first, lines, rest);
    lemma_after_header_lines(first, lines);
    assert(first.headers + lines.map_values(|l: Seq<u8>| line_header(l)) =~= lines.map_values(
        |l: Seq<u8>| line_header(l),
    ));
}

/// Bytes below 128 are text.
pub proof fn lemma_ascii_is_text(s: Seq<u8>)
    requires
        forall|i: int| 0 <= i < s.len() ==> s[i] < 128,
    ensures
        valid_utf8(s),
{
    assert(s.subrange(0, 0) =~= Seq::<u8>::empty());
    assert(partial_valid_utf8(s, 0));
    assert forall|i: int| 0 <= 0 <= i < s.len() <= s.len() implies #[trigger] is_leading_byte_width_1(
        s[i],
    ) by {
        assert(s[i] < 128);
    }
    partial_valid_utf8_extend_ascii_block(s, 0, s.len() as int);
    assert(s.subrange(0, s.len() as int) =~= s);
}

/// The length that a request or response announces is the length that is
/// read: the header that writes a length in base ten under the name
/// `content-length` is an acceptable header line, and it frames the body by
/// that length.
pub proof fn lemma_content_length_read_back(n: nat)
    requires
        n <= usize::MAX,
    ensures
        is_header_line(content_length_name() + seq![58u8, 32u8] + decimal_digits(n)),
        line_signal(content_length_name() + seq![58u8, 32u8] + decimal_digits(n))
            == DetectedBodySize::Known(n as usize),
        line_header(content_length_name() + seq![58u8, 32u8] + decimal_digits(n)) == (
            content_length_name(),
            decimal_digits(n),
        ),
{
    let name = content_length_name();
    let digits = decimal_digits(n);
    let line = name + seq![58u8, 32u8] + digits;
    lemma_decimal_round_trip(n);
    assert(line[14] == 58u8);
    assert forall|j: int| 0 <= j < 14 implies line[j] != 58u8 by {
        assert(line[j] == name[j]);
    }
    lemma_index_of_is(line, 58u8, 0, 14);
    assert(header_name(line) =~= name);
    let raw = line.subrange(15, line.len() as int);
    assert(raw =~= seq![32u8] + digits);
    assert(raw.skip(1) =~= digits);
    assert(is_digit(digits[0]));
    assert(is_digit(digits.last()));
    assert(trim_start(digits) == digits);
    assert(trim_start(raw) == digits);
    assert(trim_end(digits) == digits);
    assert(header_value(line) == digits);
    assert forall|i: int| 0 <= i < name.len() implies name[i] < 128 by {}
    lemma_ascii_is_text(name);
    assert forall|i: int| 0 <= i < raw.len() implies raw[i] < 128 by {
        if i > 0 {
            assert(raw[i] == digits[i - 1]);
            assert(is_digit(digits[i - 1]));
        }
    }
    lemma_ascii_is_text(raw);
    assert forall|i: int| 0 <= i < digits.len() implies header_value_byte(#[trigger] digits[i]) by {
        assert(is_digit(digits[i]));
    }
    assert(same_ignoring_case(name, content_length_name()));
}

} // verus!
