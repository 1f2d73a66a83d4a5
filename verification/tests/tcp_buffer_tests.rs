use my_http_client::error::HttpParseError;
use my_http_client::tcp_buffer::{TcpBuffer, BUFFER_SIZE};

#[test]
fn new_buffer_is_empty_and_of_the_usual_size() {
    let buf = TcpBuffer::new();
    assert!(buf.is_empty());
    assert_eq!(buf.get_total_buffer_size(), 65535);
    assert_eq!(BUFFER_SIZE, 65535);
    assert_eq!(buf.read_pos, 0);
    assert_eq!(buf.consumed_pos, 0);
    assert_eq!(buf.get_buf(), b"");
}

#[test]
fn write_room_is_the_free_tail() {
    let mut buf = TcpBuffer::with_capacity(8);
    assert_eq!(buf.get_write_buf(), Some(8));
    buf.add_read_amount(b"abc");
    assert_eq!(buf.get_write_buf(), Some(5));
    assert_eq!(buf.get_buf(), b"abc");
    assert_eq!(buf.read_pos, 3);
}

#[test]
fn full_buffer_with_nothing_consumed_has_no_room() {
    let mut buf = TcpBuffer::with_capacity(4);
    buf.add_read_amount(b"abcd");
    assert_eq!(buf.get_write_buf(), None);
    assert_eq!(buf.get_buf(), b"abcd");
}

#[test]
fn compaction_preserves_live_bytes() {
    let mut buf = TcpBuffer::with_capacity(6);
    buf.add_read_amount(b"abcdef");
    assert_eq!(buf.get_as_much_as_possible(4), Some(&b"abcd"[..]));
    assert_eq!(buf.consumed_pos, 4);
    assert_eq!(buf.get_write_buf(), Some(4));
    assert_eq!(buf.consumed_pos, 0);
    assert_eq!(buf.read_pos, 2);
    assert_eq!(buf.get_buf(), b"ef");
    buf.add_read_amount(b"ghij");
    assert_eq!(buf.get_buf(), b"efghij");
    assert_eq!(buf.get_write_buf(), None);
}

#[test]
fn all_consumed_resets_the_positions() {
    let mut buf = TcpBuffer::with_capacity(4);
    buf.add_read_amount(b"abcd");
    assert!(buf.skip_exactly(4).is_ok());
    assert!(buf.is_empty());
    assert_eq!(buf.get_write_buf(), Some(4));
    assert_eq!(buf.read_pos, 0);
    assert_eq!(buf.consumed_pos, 0);
}

#[test]
fn taken_bytes_are_the_committed_bytes() {
    let mut buf = TcpBuffer::with_capacity(7);
    let input: Vec<u8> = (0u8..200).collect();
    let mut fed = 0usize;
    let mut out: Vec<u8> = Vec::new();
    let mut take = 1usize;
    while out.len() < input.len() {
        if let Some(room) = buf.get_write_buf() {
            let n = room.min(input.len() - fed).min(5);
            if n > 0 {
                buf.add_read_amount(&input[fed..fed + n]);
                fed += n;
            }
        }
        if let Some(part) = buf.get_as_much_as_possible(take) {
            assert!(!part.is_empty());
            assert!(part.len() <= take);
            out.extend_from_slice(part);
        }
        take = take % 4 + 1;
    }
    assert_eq!(out, input);
    assert!(buf.is_empty());
}

#[test]
fn read_until_crlf_returns_lines_in_order() {
    let mut buf = TcpBuffer::with_capacity(64);
    buf.add_read_amount(b"first\r\n\r\nthird\rx\n\r\nrest");
    assert_eq!(buf.read_until_crlf(), Some(&b"first"[..]));
    assert_eq!(buf.read_until_crlf(), Some(&b""[..]));
    assert_eq!(buf.read_until_crlf(), Some(&b"third\rx\n"[..]));
    assert_eq!(buf.read_until_crlf(), None);
    assert_eq!(buf.get_buf(), b"rest");
}

#[test]
fn read_until_crlf_on_a_miss_changes_nothing() {
    let mut buf = TcpBuffer::with_capacity(16);
    assert_eq!(buf.read_until_crlf(), None);
    buf.add_read_amount(b"abc\r");
    assert_eq!(buf.read_until_crlf(), None);
    assert_eq!(buf.consumed_pos, 0);
    assert_eq!(buf.get_buf(), b"abc\r");
    buf.add_read_amount(b"\n");
    assert_eq!(buf.read_until_crlf(), Some(&b"abc"[..]));
    assert!(buf.is_empty());
}

#[test]
fn skip_exactly_needs_all_the_bytes() {
    let mut buf = TcpBuffer::with_capacity(16);
    buf.add_read_amount(b"abc");
    assert!(matches!(buf.skip_exactly(4), Err(HttpParseError::GetMoreData)));
    assert_eq!(buf.get_buf(), b"abc");
    assert!(buf.skip_exactly(2).is_ok());
    assert_eq!(buf.get_buf(), b"c");
    assert!(buf.skip_exactly(0).is_ok());
    assert!(buf.skip_exactly(1).is_ok());
    assert!(buf.is_empty());
}

#[test]
fn get_as_much_as_possible_is_bounded_both_ways() {
    let mut buf = TcpBuffer::with_capacity(16);
    assert_eq!(buf.get_as_much_as_possible(3), None);
    buf.add_read_amount(b"hello");
    assert_eq!(buf.get_as_much_as_possible(3), Some(&b"hel"[..]));
    assert_eq!(buf.get_as_much_as_possible(3), Some(&b"lo"[..]));
    assert_eq!(buf.get_as_much_as_possible(3), None);
}

#[test]
fn free_tail_shrinks_as_bytes_arrive() {
    let mut buf = TcpBuffer::with_capacity(10);
    assert_eq!(buf.get_free_tail_size(), 10);
    buf.add_read_amount(b"1234");
    assert_eq!(buf.get_free_tail_size(), 6);
}

#[test]
fn tail_that_is_not_used_up_is_left_in_place() {
    let mut buf = TcpBuffer::with_capacity(8);
    buf.add_read_amount(b"abcd");
    assert_eq!(buf.get_as_much_as_possible(2), Some(&b"ab"[..]));
    assert_eq!(buf.get_write_buf(), Some(4));
    assert_eq!(buf.consumed_pos, 2);
    assert_eq!(buf.read_pos, 4);
    buf.add_read_amount(b"efgh");
    assert_eq!(buf.get_write_buf(), Some(2));
    assert_eq!(buf.consumed_pos, 0);
    assert_eq!(buf.read_pos, 6);
    assert_eq!(buf.get_buf(), b"cdefgh");
}

#[test]
fn buffer_without_storage_has_no_room() {
    let mut buf = TcpBuffer::with_capacity(0);
    assert_eq!(buf.get_write_buf(), None);
    assert!(buf.is_empty());
    assert_eq!(buf.read_until_crlf(), None);
}
