//! A request in its wire form: the request line and the headers as one
//! run of bytes, and the body.

use vstd::prelude::*;
use vstd::string::StringSliceAdditionalSpecFns;
use crate::byte_utils::{append, decimal_digits, format_decimal};
use crate::headers::{header_line, MyHttpClientHeaders};
use crate::headers_reader::{content_length_name, http_10_token, http_11_token, HttpVersion};
use crate::tcp_buffer::crlf;

verus! {

/// The text that names a version on the wire.
pub open spec fn version_text(version: HttpVersion) -> Seq<u8> {
    match version {
        HttpVersion::Http10 => http_10_token(),
        HttpVersion::Http11 => http_11_token(),
    }
}

/// The first line of a request: method, target and version, a space
/// between them and a line break behind.
pub open spec fn request_line(method: Seq<u8>, target: Seq<u8>, version: HttpVersion) -> Seq<u8> {
    method + seq![32u8] + target + seq![32u8] + version_text(version) + crlf()
}

/// The header that announces the length of a body, and nothing for an empty
/// body.
pub open spec fn content_length_header(body: Seq<u8>) -> Seq<u8> {
    if body.len() > 0 {
        header_line(content_length_name(), decimal_digits(body.len()))
    } else {
        Seq::empty()
    }
}

/// A whole request on the wire: the request line, the headers in the order
/// given, the length of the body when there is one, an empty line, and the
/// body.
pub open spec fn request_wire(
    method: Seq<u8>,
    target: Seq<u8>,
    version: HttpVersion,
    headers: Seq<u8>,
    body: Seq<u8>,
) -> Seq<u8> {
    request_line(method, target, version) + headers + content_length_header(body) + crlf() + body
}

/// Writes the text of `version` behind what `dest` holds.
fn push_version(dest: &mut Vec<u8>, version: HttpVersion)
    ensures
        final(dest)@ == old(dest)@ + version_text(version),
{
    // "HTTP/1."
    dest.push(72u8);
    dest.push(84u8);
    dest.push(84u8);
    dest.push(80u8);
    dest.push(47u8);
    dest.push(49u8);
    dest.push(46u8);
    match version {
        HttpVersion::Http10 => dest.push(48u8),
        HttpVersion::Http11 => dest.push(49u8),
    }
    assert(dest@ =~= old(dest)@ + version_text(version));
}

/// The request line for a method, a target and a version.
pub fn create_headers(method: &str, path_and_query: &str, version: HttpVersion) -> (res: Vec<u8>)
    ensures
        res@ == request_line(method.spec_bytes(), path_and_query.spec_bytes(), version),
{
    let mut headers: Vec<u8> = Vec::new();
    append(&mut headers, method.as_bytes());
    headers.push(32u8);
    append(&mut headers, path_and_query.as_bytes());
    headers.push(32u8);
    push_version(&mut headers, version);
    headers.push(13u8);
    headers.push(10u8);
    assert(headers@ =~= request_line(method.spec_bytes(), path_and_query.spec_bytes(), version));
    headers
}

/// Writes the header that announces a body of `len` bytes.
fn push_content_length(dest: &mut Vec<u8>, len: usize)
    requires
        len > 0,
    ensures
        final(dest)@ == old(dest)@ + header_line(content_length_name(), decimal_digits(len as nat)),
{
    let name: [u8; 14] = [
        99u8,
        111u8,
        110u8,
        116u8,
        101u8,
        110u8,
        116u8,
        45u8,
        108u8,
        101u8,
        110u8,
        103u8,
        116u8,
        104u8,
    ];
    assert(name@ =~= content_length_name());
    append(dest, name.as_slice());
    dest.push(58u8);
    dest.push(32u8);
    let digits = format_decimal(len);
    append(dest, digits.as_slice());
    dest.push(13u8);
    dest.push(10u8);
    assert(dest@ =~= old(dest)@ + header_line(content_length_name(), decimal_digits(len as nat)));
}

/// A request: request line and headers in wire form, and the body.
#[derive(Clone, Debug)]
pub struct MyHttpRequest {
    pub headers: Vec<u8>,
    pub body: Vec<u8>,
}

impl MyHttpRequest {
    /// The request as it goes over the wire.
    pub open spec fn wire(&self) -> Seq<u8> {
        self.headers@ + crlf() + self.body@
    }

    /// A request with the headers of `headers_src`, in their order. A body
    /// that is not empty gets its length announced behind them.
    pub fn new<Headers: MyHttpClientHeaders>(
        method: &str,
        path_and_query: &str,
        version: HttpVersion,
        headers_src: &Headers,
        body: Vec<u8>,
    ) -> (res: Self)
        ensures
            res.body@ == body@,
            res.headers@ == request_line(method.spec_bytes(), path_and_query.spec_bytes(), version)
                + headers_src.wire() + content_length_header(body@),
            res.wire() == request_wire(
                method.spec_bytes(),
                path_and_query.spec_bytes(),
                version,
                headers_src.wire(),
                body@,
            ),
    {
        let mut headers = create_headers(method, path_and_query, version);
        headers_src.copy_to(&mut headers);
        if body.len() > 0 {
            push_content_length(&mut headers, body.len());
        } else {
            assert(headers@ + content_length_header(body@) =~= headers@);
        }
        Self { headers, body }
    }

    /// Writes the request behind what `writer` holds: request line and
    /// headers, an empty line, the body.
    pub fn write_to(&self, writer: &mut Vec<u8>)
        ensures
            final(writer)@ == old(writer)@ + self.wire(),
    {
        append(writer, self.headers.as_slice());
        writer.push(13u8);
        writer.push(10u8);
        append(writer, self.body.as_slice());
        assert(writer@ =~= old(writer)@ + self.wire());
    }
}

/// Builds an HTTP/1.1 request header by header.
pub struct MyHttpRequestBuilder {
    headers: Vec<u8>,
}

impl MyHttpRequestBuilder {
    /// Request line and headers written so far.
    pub closed spec fn bytes(&self) -> Seq<u8> {
        self.headers@
    }

    /// Starts a request with its request line.
    pub fn new(method: &str, path_and_query: &str) -> (res: Self)
        ensures
            res.bytes() == request_line(
                method.spec_bytes(),
                path_and_query.spec_bytes(),
                HttpVersion::Http11,
            ),
    {
        Self { headers: create_headers(method, path_and_query, HttpVersion::Http11) }
    }

    /// Writes one more header behind the others.
    pub fn append_header(&mut self, name: &str, value: &str)
        ensures
            final(self).bytes() == old(self).bytes() + header_line(
                name.spec_bytes(),
                value.spec_bytes(),
            ),
    {
        append(&mut self.headers, name.as_bytes());
        self.headers.push(58u8);
        self.headers.push(32u8);
        append(&mut self.headers, value.as_bytes());
        self.headers.push(13u8);
        self.headers.push(10u8);
        assert(self.headers@ =~= old(self).headers@ + header_line(
            name.spec_bytes(),
            value.spec_bytes(),
        ));
    }

    /// The request with `body`, whose length is announced when it is not
    /// empty.
    pub fn build_with_body(self, body: Vec<u8>) -> (res: MyHttpRequest)
        ensures
            res.headers@ == self.bytes() + content_length_header(body@),
            res.body@ == body@,
    {
        let mut headers = self.headers;
        if body.len() > 0 {
            push_content_length(&mut headers, body.len());
        } else {
            assert(headers@ + content_length_header(body@) =~= headers@);
        }
        MyHttpRequest { headers, body }
    }

    /// The request without a body.
    pub fn build(self) -> (res: MyHttpRequest)
        ensures
            res.headers@ == self.bytes(),
            res.body@ == Seq::<u8>::empty(),
    {
        MyHttpRequest { headers: self.headers, body: Vec::new() }
    }
}

} // verus!
