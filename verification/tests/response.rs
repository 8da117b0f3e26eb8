use route_resolver::pages::{
    not_found, not_found_page, server_error, server_error_page, PAGE_CLOSING, PAGE_OPENING,
};
use route_resolver::path::RoutePath;
use route_resolver::response::{decimal_text, Response, Status};

#[test]
fn decimal_text_writes_numbers() {
    assert_eq!(decimal_text(0), "0");
    assert_eq!(decimal_text(7), "7");
    assert_eq!(decimal_text(10), "10");
    assert_eq!(decimal_text(1024), "1024");
    assert_eq!(decimal_text(9_876_543_210), "9876543210");
    assert_eq!(decimal_text(usize::MAX), usize::MAX.to_string());
}

#[test]
fn status_has_code_and_line() {
    assert_eq!(Status::Success.code(), 200);
    assert_eq!(Status::NotFound.code(), 404);
    assert_eq!(Status::InternalServerError.code(), 500);
    assert_eq!(Status::Success.line(), "HTTP/1.1 200 OK\r\n");
    assert_eq!(Status::NotFound.line(), "HTTP/1.1 404 Not Found\r\n");
    assert_eq!(Status::InternalServerError.line(), "HTTP/1.1 500 Internal Server Error\r\n");
}

#[test]
fn response_is_head_then_body() {
    let response = Response { status: Status::Success, body: b"<h1>About Us</h1>".to_vec() };
    assert_eq!(
        response.to_bytes(),
        b"HTTP/1.1 200 OK\r\nContent-Length: 17\r\n\r\n<h1>About Us</h1>".to_vec()
    );
}

#[test]
fn empty_body_has_length_zero() {
    let response = Response { status: Status::NotFound, body: Vec::new() };
    assert_eq!(response.to_bytes(), b"HTTP/1.1 404 Not Found\r\nContent-Length: 0\r\n\r\n".to_vec());
}

#[test]
fn content_length_counts_bytes() {
    let body = "é".repeat(600).into_bytes();
    let response = Response { status: Status::InternalServerError, body: body.clone() };
    let mut expected = b"HTTP/1.1 500 Internal Server Error\r\nContent-Length: 1200\r\n\r\n".to_vec();
    expected.extend_from_slice(&body);
    assert_eq!(response.to_bytes(), expected);
}

#[test]
fn body_bytes_are_sent_as_they_are() {
    let body: Vec<u8> = (0..=255).collect();
    let response = Response { status: Status::Success, body: body.clone() };
    let bytes = response.to_bytes();
    assert!(bytes.starts_with(b"HTTP/1.1 200 OK\r\nContent-Length: 256\r\n\r\n"));
    assert!(bytes.ends_with(&body));
}

#[test]
fn not_found_page_links_to_the_suggestion() {
    let offered = RoutePath::new("/about");
    let text = not_found_page(Some(&offered));
    assert_eq!(
        text,
        format!(
            "{}<h1>404 Not Found</h1><p>Did you mean <a href=\"/about\">/about</a>?</p>{}",
            PAGE_OPENING, PAGE_CLOSING
        )
    );
}

#[test]
fn not_found_page_without_suggestion_apologizes() {
    let text = not_found_page(None);
    assert_eq!(
        text,
        format!(
            "{}<h1>404 Not Found</h1><p>Sorry, we couldn't find the page you were looking for.</p>{}",
            PAGE_OPENING, PAGE_CLOSING
        )
    );
}

#[test]
fn pages_are_whole_documents() {
    for text in [not_found_page(None), server_error_page()] {
        assert!(text.starts_with("<!DOCTYPE html>\n"));
        assert!(text.contains("<title>Simple Blog</title>"));
        assert!(text.trim_end().ends_with("</html>"));
    }
}

#[test]
fn not_found_response_carries_the_page() {
    let offered = RoutePath::new("/contact");
    let response = not_found(Some(&offered));
    assert_eq!(response.status, Status::NotFound);
    assert_eq!(response.body, not_found_page(Some(&offered)).into_bytes());
    let response = not_found(None);
    assert_eq!(response.status, Status::NotFound);
    assert_eq!(response.body, not_found_page(None).into_bytes());
}

#[test]
fn server_error_response_carries_its_page() {
    let response = server_error();
    assert_eq!(response.status, Status::InternalServerError);
    assert_eq!(response.body, server_error_page().into_bytes());
    assert!(server_error_page().contains("<h1>500 Internal Server Error</h1>"));
}
