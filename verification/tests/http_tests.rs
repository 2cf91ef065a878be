use httplite::json_response;
use httplite::listen_addr;
use httplite::not_found_response;
use httplite::text_response;
use httplite::Request;
use httplite::RouteTable;

#[test]
fn print_text_output_is_byte_exact() {
    assert_eq!(
        text_response("hello"),
        "HTTP/1.1 200 OK\r\nContent-Type: text/plain\r\n\r\nhello"
    );
}

#[test]
fn text_response_of_empty_body() {
    assert_eq!(text_response(""), "HTTP/1.1 200 OK\r\nContent-Type: text/plain\r\n\r\n");
}

#[test]
fn json_response_is_byte_exact() {
    assert_eq!(
        json_response("{\"a\":1}"),
        "HTTP/1.1 200 OK\r\nContent-Type: application/json\r\n\r\n{\"a\":1}"
    );
}

#[test]
fn not_found_keeps_ok_status_line() {
    assert_eq!(
        not_found_response(),
        "HTTP/1.1 200 OK\r\nContent-Type: text/plain\r\n\r\n404 Not Found"
    );
}

#[test]
fn listen_addr_expands_port_shorthand() {
    assert_eq!(listen_addr(":8080"), "127.0.0.1:8080");
}

#[test]
fn listen_addr_keeps_full_address() {
    assert_eq!(listen_addr("0.0.0.0:80"), "0.0.0.0:80");
    assert_eq!(listen_addr("localhost:3000"), "localhost:3000");
    assert_eq!(listen_addr(""), "");
}

#[test]
fn ping_request_round_trip() {
    // The verified half of serving one connection: parse the raw request,
    // dispatch its URL, and format what the selected handler replies.
    let mut t: RouteTable<&str> = RouteTable::new();
    t.add_route("/ping", "pong");
    let request = Request::new("GET /ping HTTP/1.1\r\n\r\n".to_string());
    assert_eq!(request.method(), "GET");
    let body = t.dispatch(request.url()).copied().unwrap();
    assert_eq!(
        text_response(body),
        "HTTP/1.1 200 OK\r\nContent-Type: text/plain\r\n\r\npong"
    );
}

#[test]
fn dispatch_request_parses_and_selects() {
    let mut t: RouteTable<i32> = RouteTable::new();
    t.add_route("/ping", 1);
    t.add_route("/", 2);
    let ping = Request::new("GET /ping HTTP/1.1\r\n\r\n".to_string());
    assert_eq!(t.dispatch_request(&ping), Some(&1));
    let other = Request::new("GET /other HTTP/1.1\r\n\r\n".to_string());
    assert_eq!(t.dispatch_request(&other), Some(&2));
    // An empty buffer parses to the default URL `/`, which `/` matches.
    let empty = Request::new(String::new());
    assert_eq!(t.dispatch_request(&empty), Some(&2));
}

#[test]
fn unrouted_request_gets_not_found() {
    let t: RouteTable<&str> = RouteTable::new();
    let request = Request::new("GET /missing HTTP/1.1\r\n\r\n".to_string());
    assert!(t.dispatch(request.url()).is_none());
    assert!(not_found_response().ends_with("404 Not Found"));
}
