use my_http_client::body_reader::{
    parse_chunk_size, read_chunked_body, read_full_body, BodyReader, ChunkEvent,
    ChunkedBodyReader, ChunksReadingMode, FullBodyReader, WebSocketUpgradeBuilder,
};
use my_http_client::error::HttpParseError;
use my_http_client::headers_reader::{
    parse_http_header, parse_http_response_first_line, read_headers, DetectedBodySize,
    HeadersReader, HttpVersion, ResponseHead, ResponseHeader,
};
use my_http_client::read_loop::{read_loop, ReadLoop, ReadLoopEvent};
use my_http_client::read_with_timeout::{read_exact, read_until_crlf, skip_exactly, ReadOutcome};
use my_http_client::tcp_buffer::TcpBuffer;

fn header(name: &str, value: &str) -> ResponseHeader {
    ResponseHeader { name: name.as_bytes().to_vec(), value: value.as_bytes().to_vec() }
}

/// Feeds `wire` to a reader `step` bytes at a time and collects what it
/// hands out.
fn drive(wire: &[u8], step: usize, capacity: usize) -> Vec<ReadLoopEvent> {
    let mut state = ReadLoop::with_buffer(TcpBuffer::with_capacity(capacity));
    let mut events = Vec::new();
    let mut fed = 0usize;
    loop {
        match read_loop(&mut state) {
            ReadLoopEvent::ReadMore => {
                if fed == wire.len() {
                    match state.read_to_buffer(ReadOutcome::Data(&[])) {
                        Err(e) => events.push(ReadLoopEvent::Failed(e)),
                        Ok(()) => panic!("no bytes must not be taken for data"),
                    }
                    return events;
                }
                let room = match state.get_write_room() {
                    Ok(room) => room,
                    Err(e) => {
                        events.push(ReadLoopEvent::Failed(e));
                        return events;
                    }
                };
                let n = room.min(step).min(wire.len() - fed);
                state.read_to_buffer(ReadOutcome::Data(&wire[fed..fed + n])).unwrap();
                fed += n;
            }
            ReadLoopEvent::Failed(e) => {
                events.push(ReadLoopEvent::Failed(e));
                return events;
            }
            ReadLoopEvent::Stopped => return events,
            other => events.push(other),
        }
    }
}

fn assert_hello_response(events: &[ReadLoopEvent]) {
    assert_eq!(events.len(), 2);
    match &events[0] {
        ReadLoopEvent::Response { head, body } => {
            assert_eq!(head.status, 200);
            assert_eq!(head.version, HttpVersion::Http11);
            assert_eq!(head.headers, vec![header("Content-Length", "5")]);
            assert_eq!(body.as_slice(), b"hello");
            assert_eq!(body.len(), 5);
        }
        other => panic!("unexpected {:?}", other),
    }
    assert!(matches!(&events[1], ReadLoopEvent::Failed(HttpParseError::Disconnected)));
}

#[test]
fn scenario_length_delimited_200() {
    let wire = b"HTTP/1.1 200 OK\r\nContent-Length: 5\r\n\r\nhello";
    assert_hello_response(&drive(wire, 1024, 65535));
}

#[test]
fn scenario_empty_body() {
    let events = drive(b"HTTP/1.1 204 No Content\r\n\r\n", 1024, 65535);
    assert_eq!(events.len(), 2);
    match &events[0] {
        ReadLoopEvent::Response { head, body } => {
            assert_eq!(head.status, 204);
            assert!(head.headers.is_empty());
            assert!(body.is_empty());
        }
        other => panic!("unexpected {:?}", other),
    }
}

#[test]
fn scenario_chunked() {
    let wire =
        b"HTTP/1.1 200 OK\r\nTransfer-Encoding: chunked\r\n\r\n5\r\nHello\r\n6\r\n World\r\n0\r\n\r\n";
    for step in [1usize, 2, 3, 7, 1024] {
        let events = drive(wire, step, 64);
        assert_eq!(events.len(), 5, "step {}", step);
        match &events[0] {
            ReadLoopEvent::ChunkedResponse { head } => {
                assert_eq!(head.status, 200);
                assert_eq!(head.headers, vec![header("Transfer-Encoding", "chunked")]);
            }
            other => panic!("unexpected {:?}", other),
        }
        assert!(matches!(&events[1], ReadLoopEvent::Frame(f) if f.as_slice() == b"Hello"));
        assert!(matches!(&events[2], ReadLoopEvent::Frame(f) if f.as_slice() == b" World"));
        assert!(matches!(&events[3], ReadLoopEvent::EndOfBody));
        assert!(matches!(&events[4], ReadLoopEvent::Failed(HttpParseError::Disconnected)));
    }
}

#[test]
fn scenario_web_socket_upgrade() {
    let wire = b"HTTP/1.1 101 Switching Protocols\r\nUpgrade: websocket\r\nConnection: Upgrade\r\n\r\n";
    let events = drive(wire, 1024, 65535);
    assert_eq!(events.len(), 1);
    match &events[0] {
        ReadLoopEvent::Upgrade { head } => {
            assert_eq!(head.status, 101);
            assert_eq!(
                head.headers,
                vec![header("Upgrade", "websocket"), header("Connection", "Upgrade")]
            );
        }
        other => panic!("unexpected {:?}", other),
    }
}

#[test]
fn scenario_split_header_bytes() {
    let wire = b"HTTP/1.1 200 OK\r\nContent-Length: 5\r\n\r\nhello";
    assert_hello_response(&drive(wire, 1, 65535));
    assert_hello_response(&drive(wire, 1, 40));
    assert_hello_response(&drive(wire, 3, 20));
}

#[test]
fn scenario_server_closes_mid_body() {
    let events = drive(b"HTTP/1.1 200 OK\r\nContent-Length: 10\r\n\r\nhello", 1024, 65535);
    assert_eq!(events.len(), 1);
    assert!(matches!(&events[0], ReadLoopEvent::Failed(HttpParseError::Disconnected)));
}

#[test]
fn two_responses_on_one_connection() {
    let wire = b"HTTP/1.1 200 OK\r\ncontent-length: 2\r\n\r\nabHTTP/1.0 404 Not Found\r\n\r\n";
    for step in [1usize, 5, 1024] {
        let events = drive(wire, step, 64);
        assert_eq!(events.len(), 3);
        assert!(matches!(&events[0], ReadLoopEvent::Response { head, body }
            if head.status == 200 && body.as_slice() == b"ab"));
        assert!(matches!(&events[1], ReadLoopEvent::Response { head, body }
            if head.status == 404 && head.version == HttpVersion::Http10 && body.is_empty()));
    }
}

#[test]
fn body_larger_than_the_buffer_is_read_in_parts() {
    let mut wire = b"HTTP/1.1 200 OK\r\nContent-Length: 100\r\n\r\n".to_vec();
    let body: Vec<u8> = (0u8..100).collect();
    wire.extend_from_slice(&body);
    let events = drive(&wire, 1024, 48);
    assert!(matches!(&events[0], ReadLoopEvent::Response { body: b, .. } if *b == body));
}

#[test]
fn head_larger_than_the_buffer_fails() {
    let wire = b"HTTP/1.1 200 OK\r\nX-Long: aaaaaaaaaaaaaaaaaaaaaaaaaaaaaaaaaaaaaaaaaaaaaaaa\r\n\r\n";
    let events = drive(wire, 1024, 32);
    assert_eq!(events.len(), 1);
    assert!(matches!(&events[0], ReadLoopEvent::Failed(HttpParseError::InvalidHttpPayload(_))));
}

#[test]
fn framing_later_header_wins() {
    let upgrade = b"HTTP/1.1 101 S\r\nContent-Length: 5\r\nUpgrade: websocket\r\n\r\n";
    assert!(matches!(&drive(upgrade, 1024, 256)[0], ReadLoopEvent::Upgrade { .. }));
    let chunked = b"HTTP/1.1 200 OK\r\nContent-Length: 5\r\nTransfer-Encoding: chunked\r\n\r\n0\r\n\r\n";
    assert!(matches!(&drive(chunked, 1024, 256)[0], ReadLoopEvent::ChunkedResponse { .. }));
    let length = b"HTTP/1.1 200 OK\r\nTransfer-Encoding: chunked\r\nContent-Length: 1\r\n\r\nx";
    assert!(matches!(&drive(length, 1024, 256)[0], ReadLoopEvent::Response { body, .. }
        if body.as_slice() == b"x"));
    let other = b"HTTP/1.1 200 OK\r\nUpgrade: h2c\r\nTransfer-Encoding: gzip\r\n\r\n";
    assert!(matches!(&drive(other, 1024, 256)[0], ReadLoopEvent::Response { body, .. }
        if body.is_empty()));
}

#[test]
fn chunked_trailers_are_passed_over() {
    let wire = b"HTTP/1.1 200 OK\r\nTransfer-Encoding: chunked\r\n\r\n3;ext=1\r\nabc\r\n0\r\nX-T: 1\r\n\r\nHTTP/1.1 204 N\r\n\r\n";
    let events = drive(wire, 4, 64);
    assert!(matches!(&events[1], ReadLoopEvent::Frame(f) if f.as_slice() == b"abc"));
    assert!(matches!(&events[2], ReadLoopEvent::EndOfBody));
    assert!(matches!(&events[3], ReadLoopEvent::Response { head, .. } if head.status == 204));
}

#[test]
fn first_line_is_parsed() {
    assert!(matches!(
        parse_http_response_first_line(b"HTTP/1.1 200 OK"),
        Ok((200, HttpVersion::Http11))
    ));
    assert!(matches!(
        parse_http_response_first_line(b"HTTP/1.0 404 Not Found"),
        Ok((404, HttpVersion::Http10))
    ));
    assert!(matches!(parse_http_response_first_line(b"HTTP/1.1 999"), Ok((999, _))));
    assert!(matches!(parse_http_response_first_line(b"HTTP/1.1 100 "), Ok((100, _))));
}

#[test]
fn first_line_is_refused() {
    for line in [
        &b"HTTP/2 200 OK"[..],
        b"http/1.1 200 OK",
        b"HTTP/1.1",
        b"HTTP/1.1 ",
        b"HTTP/1.1  200 OK",
        b"HTTP/1.1 20 OK",
        b"HTTP/1.1 2000 OK",
        b"HTTP/1.1 099 OK",
        b"HTTP/1.1 2x0 OK",
        b"HTTP/1.1 200 \xff",
        b"",
    ] {
        assert!(
            matches!(
                parse_http_response_first_line(line),
                Err(HttpParseError::InvalidHttpPayload(_))
            ),
            "{:?}",
            line
        );
    }
}

#[test]
fn header_line_is_parsed() {
    let (h, d) = parse_http_header(b"Content-Type:  text/plain \t").unwrap();
    assert_eq!(h, header("Content-Type", "text/plain"));
    assert_eq!(d, DetectedBodySize::Unknown);
    let (h, d) = parse_http_header(b"CONTENT-LENGTH: 42").unwrap();
    assert_eq!(h, header("CONTENT-LENGTH", "42"));
    assert_eq!(d, DetectedBodySize::Known(42));
    let (_, d) = parse_http_header(b"transfer-encoding: CHUNKED").unwrap();
    assert_eq!(d, DetectedBodySize::Chunked);
    let (_, d) = parse_http_header(b"Transfer-Encoding: gzip, chunked").unwrap();
    assert_eq!(d, DetectedBodySize::Unknown);
    let (_, d) = parse_http_header(b"upgrade:WebSocket").unwrap();
    assert_eq!(d, DetectedBodySize::WebSocketUpgrade);
    let (h, d) = parse_http_header(b"X: a:b").unwrap();
    assert_eq!(h, header("X", "a:b"));
    assert!(d.is_unknown());
    let (h, _) = parse_http_header(b":").unwrap();
    assert_eq!(h, header("", ""));
}

#[test]
fn header_line_is_refused() {
    for line in [
        &b"no separator"[..],
        b"",
        b"Content-Length: abc",
        b"Content-Length: ",
        b"Content-Length: 99999999999999999999999999",
        b"X: a\x01b",
        b"X: a\x7fb",
        b"\xff: a",
        b"X: \xff",
    ] {
        assert!(
            matches!(parse_http_header(line), Err(HttpParseError::InvalidHttpPayload(_))),
            "{:?}",
            line
        );
    }
}

#[test]
fn read_headers_keeps_its_place_across_deliveries() {
    let mut buf = TcpBuffer::with_capacity(128);
    let mut reader = HeadersReader::new();
    buf.add_read_amount(b"HTTP/1.1 200 OK\r\nA: 1\r\nB");
    assert!(matches!(read_headers(&mut buf, &mut reader), Err(HttpParseError::GetMoreData)));
    assert_eq!(buf.get_buf(), b"B");
    buf.add_read_amount(b": 2\r\n\r\nbody");
    match read_headers(&mut buf, &mut reader) {
        Ok(BodyReader::LengthBased { head, body_size }) => {
            assert_eq!(body_size, 0);
            assert_eq!(head.status, 200);
            assert_eq!(head.headers, vec![header("A", "1"), header("B", "2")]);
        }
        other => panic!("unexpected {:?}", other),
    }
    assert_eq!(buf.get_buf(), b"body");
}

#[test]
fn chunk_size_is_parsed() {
    assert!(matches!(parse_chunk_size(b"0"), Ok(0)));
    assert!(matches!(parse_chunk_size(b"5"), Ok(5)));
    assert!(matches!(parse_chunk_size(b"1aF"), Ok(0x1af)));
    assert!(matches!(parse_chunk_size(b"10;name=value"), Ok(16)));
    assert!(matches!(parse_chunk_size(b"A g"), Ok(10)));
    assert!(matches!(parse_chunk_size(b"ffffffffffffffff"), Ok(usize::MAX)));
}

#[test]
fn chunk_size_is_refused() {
    assert!(matches!(parse_chunk_size(b""), Err(HttpParseError::InvalidHttpPayload(_))));
    assert!(matches!(parse_chunk_size(b";5"), Err(HttpParseError::InvalidHttpPayload(_))));
    assert!(matches!(parse_chunk_size(b" 5"), Err(HttpParseError::InvalidHttpPayload(_))));
    assert!(matches!(parse_chunk_size(b"g"), Err(HttpParseError::InvalidHttpPayload(_))));
    assert!(matches!(
        parse_chunk_size(b"10000000000000000"),
        Err(HttpParseError::InvalidHttpPayload(_))
    ));
}

#[test]
fn chunked_reader_steps_through_its_modes() {
    let mut buf = TcpBuffer::with_capacity(64);
    let mut reader = ChunkedBodyReader::new();
    assert_eq!(reader.mode(), ChunksReadingMode::WaitingFroChunkSize);
    buf.add_read_amount(b"4\r\nab");
    assert!(matches!(read_chunked_body(&mut buf, &mut reader), Err(HttpParseError::GetMoreData)));
    assert_eq!(reader.mode(), ChunksReadingMode::ReadingChunk(2));
    buf.add_read_amount(b"cd\r");
    assert_eq!(
        read_chunked_body(&mut buf, &mut reader).unwrap(),
        ChunkEvent::Frame(b"abcd".to_vec())
    );
    assert_eq!(reader.mode(), ChunksReadingMode::WaitingForSeparator);
    assert!(matches!(read_chunked_body(&mut buf, &mut reader), Err(HttpParseError::GetMoreData)));
    buf.add_read_amount(b"\n0\r\n");
    assert!(matches!(read_chunked_body(&mut buf, &mut reader), Err(HttpParseError::GetMoreData)));
    assert_eq!(reader.mode(), ChunksReadingMode::WaitingForEnd);
    buf.add_read_amount(b"\r\nnext");
    assert_eq!(read_chunked_body(&mut buf, &mut reader).unwrap(), ChunkEvent::End);
    assert_eq!(reader.mode(), ChunksReadingMode::WaitingFroChunkSize);
    assert_eq!(buf.get_buf(), b"next");
}

#[test]
fn chunked_reader_refuses_a_bad_size() {
    let mut buf = TcpBuffer::with_capacity(64);
    let mut reader = ChunkedBodyReader::new();
    buf.add_read_amount(b"zz\r\n");
    assert!(matches!(
        read_chunked_body(&mut buf, &mut reader),
        Err(HttpParseError::InvalidHttpPayload(_))
    ));
}

#[test]
fn full_body_reader_collects_across_deliveries() {
    let mut buf = TcpBuffer::with_capacity(4);
    let mut reader = FullBodyReader::new(6);
    buf.add_read_amount(b"abcd");
    assert!(matches!(read_full_body(&mut buf, &mut reader), Err(HttpParseError::GetMoreData)));
    assert!(buf.is_empty());
    assert_eq!(buf.get_write_buf(), Some(4));
    buf.add_read_amount(b"efgh");
    assert_eq!(read_full_body(&mut buf, &mut reader).unwrap(), b"abcdef".to_vec());
    assert_eq!(buf.get_buf(), b"gh");
}

#[test]
fn full_body_of_length_zero_does_not_touch_the_buffer() {
    let mut buf = TcpBuffer::with_capacity(4);
    buf.add_read_amount(b"ab");
    let mut reader = FullBodyReader::new(0);
    assert_eq!(read_full_body(&mut buf, &mut reader).unwrap(), Vec::<u8>::new());
    assert_eq!(buf.get_buf(), b"ab");
    assert_eq!(buf.consumed_pos, 0);
}

#[test]
fn upgrade_builder_hands_the_head_out() {
    let head = ResponseHead { status: 101, version: HttpVersion::Http11, headers: vec![] };
    let mut builder = WebSocketUpgradeBuilder::new(head);
    let taken = builder.take_upgrade_response();
    assert_eq!(taken.status, 101);
}

#[test]
fn body_reader_from_head_follows_the_signal() {
    let head = || ResponseHead { status: 200, version: HttpVersion::Http11, headers: vec![] };
    assert!(matches!(
        BodyReader::from_head(head(), DetectedBodySize::Unknown),
        BodyReader::LengthBased { body_size: 0, .. }
    ));
    assert!(matches!(
        BodyReader::from_head(head(), DetectedBodySize::Known(9)),
        BodyReader::LengthBased { body_size: 9, .. }
    ));
    assert!(matches!(
        BodyReader::from_head(head(), DetectedBodySize::Chunked),
        BodyReader::Chunked { .. }
    ));
    assert!(matches!(
        BodyReader::from_head(head(), DetectedBodySize::WebSocketUpgrade),
        BodyReader::WebSocketUpgrade(_)
    ));
}

#[test]
fn read_outcomes_map_to_errors() {
    let mut state = ReadLoop::with_buffer(TcpBuffer::with_capacity(4));
    let d = std::time::Duration::from_secs(3);
    assert!(matches!(
        state.read_to_buffer(ReadOutcome::TimedOut(d)),
        Err(HttpParseError::ReadingTimeout(t)) if t == d
    ));
    assert!(matches!(
        state.read_to_buffer(ReadOutcome::Failed("reset".to_string())),
        Err(HttpParseError::Error(why)) if why == "reset"
    ));
    assert!(matches!(
        state.read_to_buffer(ReadOutcome::Data(b"")),
        Err(HttpParseError::Disconnected)
    ));
    assert!(matches!(
        state.read_to_buffer(ReadOutcome::Data(b"12345")),
        Err(HttpParseError::Error(_))
    ));
    assert!(state.is_empty());
    assert!(state.read_to_buffer(ReadOutcome::Data(b"1234")).is_ok());
    assert!(matches!(
        state.get_write_room(),
        Err(HttpParseError::InvalidHttpPayload(why)) if why == "buffer exhausted"
    ));
}

#[test]
fn reader_stops_after_an_upgrade() {
    let mut state = ReadLoop::new();
    state.get_write_room().unwrap();
    state
        .read_to_buffer(ReadOutcome::Data(b"HTTP/1.1 101 S\r\nUpgrade: websocket\r\n\r\nframe"))
        .unwrap();
    assert!(matches!(read_loop(&mut state), ReadLoopEvent::Upgrade { .. }));
    assert!(matches!(read_loop(&mut state), ReadLoopEvent::Stopped));
    assert!(matches!(read_loop(&mut state), ReadLoopEvent::Stopped));
}

#[test]
fn line_helper_converts_the_first_line() {
    let mut buf = TcpBuffer::with_capacity(64);
    buf.add_read_amount(b"1f\r\nrest");
    assert!(matches!(read_until_crlf(&mut buf, parse_chunk_size), Ok(31)));
    assert_eq!(buf.get_buf(), b"rest");
    assert!(matches!(
        read_until_crlf(&mut buf, parse_chunk_size),
        Err(HttpParseError::GetMoreData)
    ));
    assert_eq!(buf.get_buf(), b"rest");
    buf.add_read_amount(b"\r\n");
    assert!(matches!(
        read_until_crlf(&mut buf, parse_chunk_size),
        Err(HttpParseError::InvalidHttpPayload(_))
    ));
}

#[test]
fn skip_helper_waits_for_all_the_bytes() {
    let mut buf = TcpBuffer::with_capacity(64);
    buf.add_read_amount(b"\r");
    assert!(matches!(skip_exactly(&mut buf, 2), Err(HttpParseError::GetMoreData)));
    buf.add_read_amount(b"\nx");
    assert!(skip_exactly(&mut buf, 2).is_ok());
    assert_eq!(buf.get_buf(), b"x");
}

#[test]
fn read_exact_fills_the_buffer_read_by_read() {
    let mut dst = vec![0u8; 5];
    let pos = read_exact(&mut dst, 0, ReadOutcome::Data(b"he")).unwrap();
    assert_eq!(pos, 2);
    assert_eq!(dst, b"he\0\0\0".to_vec());
    let pos = read_exact(&mut dst, pos, ReadOutcome::Data(b"llo")).unwrap();
    assert_eq!(pos, 5);
    assert_eq!(dst, b"hello".to_vec());
    assert!(matches!(
        read_exact(&mut dst, 4, ReadOutcome::Data(b"xy")),
        Err(HttpParseError::Error(_))
    ));
    assert!(matches!(
        read_exact(&mut dst, 4, ReadOutcome::Data(b"")),
        Err(HttpParseError::Disconnected)
    ));
    let d = std::time::Duration::from_secs(1);
    assert!(matches!(
        read_exact(&mut dst, 0, ReadOutcome::TimedOut(d)),
        Err(HttpParseError::ReadingTimeout(_))
    ));
    assert!(matches!(
        read_exact(&mut dst, 0, ReadOutcome::Failed("io".into())),
        Err(HttpParseError::Error(why)) if why == "io"
    ));
    assert_eq!(dst, b"hello".to_vec());
}
