use httplite::Request;

#[test]
fn url_of_plain_get() {
    let r = Request::new("GET /foo/bar HTTP/1.1\r\nHost: example\r\n\r\n".to_string());
    assert_eq!(r.url(), "/foo/bar");
}

#[test]
fn url_of_empty_buffer() {
    let r = Request::new(String::new());
    assert_eq!(r.url(), "/");
}

#[test]
fn url_missing_second_token() {
    let r = Request::new("GET\r\nHost: example\r\n".to_string());
    assert_eq!(r.url(), "/");
}

#[test]
fn url_ignores_later_lines() {
    let r = Request::new("GET /a HTTP/1.1\r\nX: /other\r\n".to_string());
    assert_eq!(r.url(), "/a");
}

#[test]
fn url_with_repeated_spaces() {
    let r = Request::new("GET   /spaced \t HTTP/1.1\r\n".to_string());
    assert_eq!(r.url(), "/spaced");
}

#[test]
fn url_without_line_terminator() {
    let r = Request::new("POST /x HTTP/1.1".to_string());
    assert_eq!(r.url(), "/x");
}

#[test]
fn url_of_padded_read_buffer() {
    // A fixed-size read hands over the request followed by the unwritten
    // tail of the buffer; parsing stops at the first line regardless.
    let r = Request::new("GET /a HTTP/1.1\r\n\u{0}\u{0}\u{0}\u{0}".to_string());
    assert_eq!(r.url(), "/a");
}

#[test]
fn method_of_post() {
    let r = Request::new("POST /x HTTP/1.1\r\nHost: example\r\n\r\n".to_string());
    assert_eq!(r.method(), "POST");
}

#[test]
fn method_of_empty_buffer() {
    let r = Request::new(String::new());
    assert_eq!(r.method(), "GET");
}

#[test]
fn method_of_blank_first_line() {
    let r = Request::new("   \r\nGET /x HTTP/1.1\r\n".to_string());
    assert_eq!(r.method(), "GET");
    assert_eq!(r.url(), "/");
}
