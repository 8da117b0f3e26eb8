use route_resolver::request::{
    decode_text, parse_request_line, parse_request_path, path_of_target, RequestLine,
};

#[test]
fn request_line_is_split_into_its_tokens() {
    let buffer = b"GET /about HTTP/1.1\r\nHost: localhost\r\n\r\n";
    assert_eq!(
        parse_request_line(buffer),
        Some(RequestLine { method: b"GET", target: b"/about", version: b"HTTP/1.1" })
    );
}

#[test]
fn request_line_alone_is_enough() {
    let buffer = b"POST / X\r\n";
    assert_eq!(
        parse_request_line(buffer),
        Some(RequestLine { method: b"POST", target: b"/", version: b"X" })
    );
}

#[test]
fn unfinished_request_line_is_not_read() {
    assert_eq!(parse_request_line(b""), None);
    assert_eq!(parse_request_line(b"GET"), None);
    assert_eq!(parse_request_line(b"GET /about"), None);
    assert_eq!(parse_request_line(b"GET /about HTTP/1.1"), None);
    assert_eq!(parse_request_line(b"GET /about HTTP/1.1\r"), None);
}

#[test]
fn malformed_request_line_is_not_read() {
    assert_eq!(parse_request_line(b"GET /about HTTP/1.1\n"), None);
    assert_eq!(parse_request_line(b"GET  /about HTTP/1.1\r\n"), None);
    assert_eq!(parse_request_line(b" GET /about HTTP/1.1\r\n"), None);
    assert_eq!(parse_request_line(b"GET /about\r\n"), None);
    assert_eq!(parse_request_line(b"GET /about HTTP/1.1 \r\n"), None);
    assert_eq!(parse_request_line(b"GET /a b HTTP/1.1\r\n"), None);
    assert_eq!(parse_request_line(b"\r\nGET /about HTTP/1.1\r\n"), None);
    assert_eq!(parse_request_line(b"GET /about HTTP/1.1\r\r\n"), None);
}

#[test]
fn query_is_cut_off_the_target() {
    assert_eq!(path_of_target(b"/about"), b"/about");
    assert_eq!(path_of_target(b"/about?x=1"), b"/about");
    assert_eq!(path_of_target(b"/about?x=1?y=2"), b"/about");
    assert_eq!(path_of_target(b"?x=1"), b"");
    assert_eq!(path_of_target(b""), b"");
}

#[test]
fn text_is_read_from_utf8_only() {
    assert_eq!(decode_text(b"/about"), Some("/about"));
    assert_eq!(decode_text("/caf\u{e9}".as_bytes()), Some("/café"));
    assert_eq!(decode_text(b""), Some(""));
    assert_eq!(decode_text(&[0x2f, 0xff]), None);
    assert_eq!(decode_text(&[0x2f, 0xc3]), None);
}

#[test]
fn request_path_is_the_target_without_query() {
    assert_eq!(parse_request_path(b"GET /blog/posts?page=2 HTTP/1.1\r\n\r\n"), Some("/blog/posts"));
    assert_eq!(parse_request_path(b"GET / HTTP/1.1\r\n"), Some("/"));
    assert_eq!(parse_request_path(b"GET ?q HTTP/1.1\r\n"), Some(""));
}

#[test]
fn request_without_readable_path_has_none() {
    assert_eq!(parse_request_path(b"GET /about HTTP/1.1"), None);
    assert_eq!(parse_request_path(b"GET /\xff HTTP/1.1\r\n"), None);
    assert_eq!(parse_request_path(b""), None);
}
