use my_http_client::headers::{
    write_header, MyHttpClientHeaders, MyHttpClientHeadersBuilder,
    MyHttpClientHeadersBuilderIterator,
};

#[test]
fn test_iterators() {
    let mut headers = MyHttpClientHeadersBuilder::new();

    headers.add_header("Content-Type", "text/plain");
    headers.add_header("Content-Length", "123");

    let mut iter = headers.iter();
    let (name, value) = iter.next().unwrap();
    assert_eq!(name, "Content-Type");
    assert_eq!(value, "text/plain");

    let (name, value) = iter.next().unwrap();
    assert_eq!(name, "Content-Length");
    assert_eq!(value, "123");

    assert!(iter.next().is_none());
}

#[test]
fn write_header_layout_and_position() {
    let mut dest = b"GET / HTTP/1.1\r\n".to_vec();
    let pos = write_header(&mut dest, "Host", "example.org");
    assert_eq!(dest, b"GET / HTTP/1.1\r\nHost: example.org\r\n".to_vec());
    assert_eq!(pos.start, 22);
    assert_eq!(pos.end, 33);
    assert_eq!(&dest[pos.start..pos.end], b"example.org");
}

#[test]
fn get_value_returns_the_value_written() {
    let mut headers = MyHttpClientHeadersBuilder::new();
    let first = headers.add_header("a", "one");
    let second = headers.add_header("b", "two");
    assert_eq!(headers.get_value(&first), Some("one"));
    assert_eq!(headers.get_value(&second), Some("two"));
    assert_eq!(headers.as_str(), Some("a: one\r\nb: two\r\n"));
}

#[test]
fn get_value_outside_the_headers_is_none() {
    let mut headers = MyHttpClientHeadersBuilder::new();
    let mut pos = headers.add_header("a", "one");
    pos.end = 100;
    assert_eq!(headers.get_value(&pos), None);
    pos.end = 1;
    pos.start = 2;
    assert_eq!(headers.get_value(&pos), None);
}

#[test]
fn get_value_that_cuts_a_character_is_none() {
    let mut headers = MyHttpClientHeadersBuilder::new();
    let mut pos = headers.add_header("a", "\u{e9}");
    assert_eq!(headers.get_value(&pos), Some("\u{e9}"));
    pos.end -= 1;
    assert_eq!(headers.get_value(&pos), None);
}

#[test]
fn copy_to_appends_the_wire_form() {
    let mut headers = MyHttpClientHeadersBuilder::new();
    headers.add_header("x", "1");
    let mut buf = b"start".to_vec();
    headers.copy_to(&mut buf);
    assert_eq!(buf, b"startx: 1\r\n".to_vec());
}

#[test]
fn round_trip_of_many_headers() {
    let list = [
        ("Accept", "*/*"),
        ("X-Colon", "a:b:c"),
        ("Empty", ""),
        ("Na\u{ef}ve", "caf\u{e9}"),
    ];
    let mut headers = MyHttpClientHeadersBuilder::new();
    for (n, v) in list.iter() {
        headers.add_header(n, v);
    }
    let mut iter = headers.iter();
    for (n, v) in list.iter() {
        assert_eq!(iter.next(), Some((*n, *v)));
    }
    assert_eq!(iter.next(), None);
    assert_eq!(iter.next(), None);
}

#[test]
fn iterator_on_an_unfinished_header_ends() {
    let mut iter = MyHttpClientHeadersBuilderIterator::new(b"a: 1\r\nb: 2");
    assert_eq!(iter.next(), Some(("a", "1")));
    assert_eq!(iter.next(), None);
    assert_eq!(iter.next(), None);
}

#[test]
fn iterator_on_a_colon_at_the_end_ends() {
    let mut iter = MyHttpClientHeadersBuilderIterator::new(b"a:");
    assert_eq!(iter.next(), None);
    assert_eq!(iter.next(), None);
}

#[test]
fn iterator_refuses_bytes_that_are_no_text() {
    let mut iter = MyHttpClientHeadersBuilderIterator::new(b"a: \xff\r\nb: 2\r\n");
    assert_eq!(iter.next(), None);
    assert_eq!(iter.next(), None);
}

#[test]
fn iterator_takes_a_carriage_return_at_the_very_end() {
    let mut iter = MyHttpClientHeadersBuilderIterator::new(b"a: 1\r");
    assert_eq!(iter.next(), Some(("a", "1")));
    assert_eq!(iter.next(), None);
}
