use my_http_client::error::{HttpParseError, MyHttpClientError};
use my_http_client::headers::MyHttpClientHeadersBuilder;
use my_http_client::headers_reader::HttpVersion;
use my_http_client::into_hyper_request::{
    build_h1_headers, build_h2_headers, extract_http_method_and_uri, extract_name_and_value,
    find_next_cl_cr,
};
use my_http_client::body_reader::CHUNKS_CHANNEL_CAPACITY;
use my_http_client::my_http_client::{
    next_connection_id, send_payload, ClientStep, HttpTask, SendAttempt, CONNECT_TIMEOUT_SECS,
    READ_FROM_STREAM_TIMEOUT_SECS, SEND_TO_SOCKET_TIMEOUT_SECS,
};
use my_http_client::my_http_request::{create_headers, MyHttpRequest, MyHttpRequestBuilder};
use my_http_client::write_loop::{
    next_write_chunk, WriteLoopEvent, WRITE_CHUNK_SIZE, WRITE_SIGNAL_CAPACITY,
};
use std::time::Duration;

#[test]
fn request_layout_with_body() {
    let mut headers = MyHttpClientHeadersBuilder::new();
    headers.add_header("content-type", "application/json");
    headers.add_header("accept-language", "en-US");
    let req = MyHttpRequest::new(
        "POST",
        "/test?aaa=12",
        HttpVersion::Http11,
        &headers,
        vec![0u8, 1u8, 2u8],
    );
    let mut wire = Vec::new();
    req.write_to(&mut wire);
    let mut expected = b"POST /test?aaa=12 HTTP/1.1\r\ncontent-type: application/json\r\naccept-language: en-US\r\ncontent-length: 3\r\n\r\n".to_vec();
    expected.extend_from_slice(&[0, 1, 2]);
    assert_eq!(wire, expected);
}

#[test]
fn request_layout_without_body() {
    let headers = MyHttpClientHeadersBuilder::new();
    let req = MyHttpRequest::new("GET", "/", HttpVersion::Http10, &headers, Vec::new());
    let mut wire = b"x".to_vec();
    req.write_to(&mut wire);
    assert_eq!(wire, b"xGET / HTTP/1.0\r\n\r\n".to_vec());
}

#[test]
fn request_line_is_written() {
    assert_eq!(create_headers("PUT", "/a b", HttpVersion::Http11), b"PUT /a b HTTP/1.1\r\n".to_vec());
}

#[test]
fn content_length_is_the_exact_length() {
    let headers = MyHttpClientHeadersBuilder::new();
    let req = MyHttpRequest::new("POST", "/", HttpVersion::Http11, &headers, vec![7u8; 1234]);
    assert_eq!(req.headers, b"POST / HTTP/1.1\r\ncontent-length: 1234\r\n".to_vec());
    assert_eq!(req.body.len(), 1234);
}

#[test]
fn builder_writes_headers_in_order() {
    let mut builder = MyHttpRequestBuilder::new("GET", "/path?q=1");
    builder.append_header("Host", "example.org");
    builder.append_header("Accept", "*/*");
    let req = builder.build();
    let mut wire = Vec::new();
    req.write_to(&mut wire);
    assert_eq!(
        wire,
        b"GET /path?q=1 HTTP/1.1\r\nHost: example.org\r\nAccept: */*\r\n\r\n".to_vec()
    );
}

#[test]
fn builder_announces_the_body() {
    let mut builder = MyHttpRequestBuilder::new("POST", "/");
    builder.append_header("Host", "h");
    let req = builder.build_with_body(b"hello".to_vec());
    let mut wire = Vec::new();
    req.write_to(&mut wire);
    assert_eq!(wire, b"POST / HTTP/1.1\r\nHost: h\r\ncontent-length: 5\r\n\r\nhello".to_vec());
    let empty = MyHttpRequestBuilder::new("POST", "/").build_with_body(Vec::new());
    assert_eq!(empty.headers, b"POST / HTTP/1.1\r\n".to_vec());
}

#[test]
fn only_a_lost_connection_is_retried() {
    assert!(MyHttpClientError::Disconnected.is_retirable());
    assert!(!MyHttpClientError::Disposed.is_retirable());
    assert!(!MyHttpClientError::UpgradedToWebSocket.is_retirable());
    assert!(!MyHttpClientError::RequestTimeout(Duration::from_secs(1)).is_retirable());
    assert!(!MyHttpClientError::CanNotConnectToRemoteHost("x".into()).is_retirable());
    assert!(!MyHttpClientError::CanNotExecuteRequest("x".into()).is_retirable());
    assert!(!MyHttpClientError::InvalidHttpHandshake("x".into()).is_retirable());
    assert!(MyHttpClientError::UpgradedToWebSocket.is_web_socket_upgraded());
    assert!(!MyHttpClientError::Disconnected.is_web_socket_upgraded());
}

#[test]
fn parse_errors_tell_their_kind() {
    assert!(HttpParseError::GetMoreData.get_more_data());
    assert!(!HttpParseError::Disconnected.get_more_data());
    assert_eq!(HttpParseError::InvalidHttpPayload("why".into()).as_invalid_payload(), Some("why"));
    assert_eq!(HttpParseError::Error("why".into()).as_invalid_payload(), None);
    assert_eq!(HttpParseError::GetMoreData.as_invalid_payload(), None);
}

#[test]
fn client_steps_follow_the_attempt() {
    assert!(matches!(
        send_payload(SendAttempt::Refused(MyHttpClientError::Disconnected)),
        ClientStep::Reconnect
    ));
    assert!(matches!(
        send_payload(SendAttempt::Failed(MyHttpClientError::Disconnected)),
        ClientStep::Reconnect
    ));
    assert!(matches!(
        send_payload(SendAttempt::Refused(MyHttpClientError::UpgradedToWebSocket)),
        ClientStep::Fail(MyHttpClientError::UpgradedToWebSocket)
    ));
    assert!(matches!(
        send_payload(SendAttempt::Refused(MyHttpClientError::Disposed)),
        ClientStep::Fail(MyHttpClientError::Disposed)
    ));
    assert!(matches!(
        send_payload(SendAttempt::Failed(MyHttpClientError::CanNotExecuteRequest("bad".into()))),
        ClientStep::Fail(MyHttpClientError::CanNotExecuteRequest(why)) if why == "bad"
    ));
    let d = Duration::from_millis(250);
    assert!(matches!(
        send_payload(SendAttempt::TimedOut(d, 8)),
        ClientStep::Abort(8, MyHttpClientError::RequestTimeout(t)) if t == d
    ));
    assert!(matches!(
        send_payload(SendAttempt::Completed(HttpTask::Response, 4)),
        ClientStep::Deliver
    ));
    assert!(matches!(
        send_payload(SendAttempt::Completed(HttpTask::WebsocketUpgrade, 4)),
        ClientStep::Upgrade(4)
    ));
}

#[test]
fn connection_ids_grow_by_one() {
    let mut counter = 0u64;
    assert_eq!(next_connection_id(&mut counter), 0);
    assert_eq!(next_connection_id(&mut counter), 1);
    assert_eq!(counter, 2);
    let mut last = u64::MAX;
    assert_eq!(next_connection_id(&mut last), u64::MAX);
    assert_eq!(last, 0);
}

#[test]
fn payload_is_written_in_pieces_of_one_mebibyte() {
    assert_eq!(WRITE_CHUNK_SIZE, 1024 * 1024);
    let payload: Vec<u8> = (0..(2 * WRITE_CHUNK_SIZE + 10)).map(|i| (i % 251) as u8).collect();
    let mut written = 0usize;
    let mut sizes = Vec::new();
    let mut out: Vec<u8> = Vec::new();
    loop {
        let chunk = next_write_chunk(&payload, written);
        if chunk.is_empty() {
            break;
        }
        sizes.push(chunk.len());
        out.extend_from_slice(chunk);
        written += chunk.len();
    }
    assert_eq!(sizes, vec![WRITE_CHUNK_SIZE, WRITE_CHUNK_SIZE, 10]);
    assert_eq!(out, payload);
    assert!(next_write_chunk(&payload, payload.len() + 5).is_empty());
    assert!(next_write_chunk(b"", 0).is_empty());
    assert_ne!(WriteLoopEvent::Flush(1), WriteLoopEvent::Close);
}

#[test]
fn request_is_read_back_from_its_wire_form() {
    let mut headers = MyHttpClientHeadersBuilder::new();
    headers.add_header("content-type", "application/json");
    headers.add_header("accept-language", "en-US");
    headers.add_header("host", "tokio.rs");
    let req = MyHttpRequest::new(
        "POST",
        "/test?aaa=12",
        HttpVersion::Http11,
        &headers,
        vec![0u8, 1u8, 2u8],
    );
    let h1 = build_h1_headers(&req.headers).unwrap();
    assert_eq!(h1.method, b"POST".to_vec());
    assert_eq!(h1.uri, b"/test?aaa=12".to_vec());
    let pair = |n: &str, v: &str| (n.as_bytes().to_vec(), v.as_bytes().to_vec());
    assert_eq!(
        h1.headers,
        vec![
            pair("content-type", "application/json"),
            pair("accept-language", "en-US"),
            pair("host", "tokio.rs"),
            pair("content-length", "3"),
        ]
    );
    let h2 = build_h2_headers(&req.headers, true).unwrap();
    assert_eq!(h2.method, b"POST".to_vec());
    assert_eq!(h2.uri, b"/test?aaa=12".to_vec());
    assert!(h2.is_https);
    assert_eq!(h2.host, Some(b"tokio.rs".to_vec()));
    assert_eq!(
        h2.headers,
        vec![
            pair("content-type", "application/json"),
            pair("accept-language", "en-US"),
            pair("content-length", "3"),
        ]
    );
    assert!(build_h1_headers(b"GET / HTTP/1.1").is_none());
    assert!(build_h1_headers(b"GET\r\n").is_none());
    assert!(build_h1_headers(b"").is_none());
    assert!(build_h2_headers(b"", false).is_none());
    let last = build_h2_headers(b"GET / HTTP/1.1\r\nHost: a\r\nX: 1\r\nHOST:  b \r\nrest", false)
        .unwrap();
    assert_eq!(last.host, Some(b"b".to_vec()));
    assert_eq!(last.headers, vec![pair("X", "1")]);
    assert_eq!(find_next_cl_cr(b"ab\r\ncd\r\n", 0), Some(2));
    assert_eq!(find_next_cl_cr(b"ab\r\ncd\r\n", 3), Some(6));
    assert_eq!(find_next_cl_cr(b"ab\r\ncd\r\n", 7), None);
    assert_eq!(find_next_cl_cr(b"", 0), None);
    assert_eq!(find_next_cl_cr(b"\r", 0), None);
    assert_eq!(extract_name_and_value(b"a: b:c"), (&b"a"[..], &b" b:c"[..]));
    assert_eq!(extract_name_and_value(b"abc"), (&b"abc"[..], &b""[..]));
    assert_eq!(
        extract_http_method_and_uri(b"GET /x HTTP/1.1"),
        Some((&b"GET"[..], &b"/x"[..]))
    );
    assert_eq!(extract_http_method_and_uri(b"GET /x"), Some((&b"GET"[..], &b"/x"[..])));
    assert_eq!(extract_http_method_and_uri(b"GET"), None);
}

#[test]
fn test_converting() {
    let mut headers = MyHttpClientHeadersBuilder::new();
    headers.add_header("content-type", "application/json");
    headers.add_header("accept-language", "en-US");
    let request_builder = MyHttpRequest::new(
        "POST",
        "/test?aaa=12",
        HttpVersion::Http11,
        &headers,
        vec![0u8, 1u8, 2u8],
    );

    let body = build_h1_headers(&request_builder.headers);

    println!("{:?}", body);
    assert!(body.is_some());
}

#[test]
fn test_converting_to_h2() {
    let mut headers = MyHttpClientHeadersBuilder::new();
    headers.add_header("content-type", "application/json");
    headers.add_header("accept-language", "en-US");
    headers.add_header("host", "tokio.rs");
    let request_builder = MyHttpRequest::new(
        "POST",
        "/test?aaa=12",
        HttpVersion::Http11,
        &headers,
        vec![0u8, 1u8, 2u8],
    );

    let body = build_h2_headers(&request_builder.headers, true);

    println!("{:?}", body);
    assert_eq!(body.unwrap().host, Some(b"tokio.rs".to_vec()));
}

#[test]
fn limits_of_the_client() {
    assert_eq!(SEND_TO_SOCKET_TIMEOUT_SECS, 30);
    assert_eq!(CONNECT_TIMEOUT_SECS, 5);
    assert_eq!(READ_FROM_STREAM_TIMEOUT_SECS, 120);
    assert_eq!(CHUNKS_CHANNEL_CAPACITY, 1024);
    assert_eq!(WRITE_SIGNAL_CAPACITY, 1024);
}
