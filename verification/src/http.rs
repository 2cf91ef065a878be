//! Response formatting and listen-address resolution.
//!
//! A response always begins `HTTP/1.1 200 OK\r\n`, carries exactly one
//! `Content-Type` header, a blank line, and then the body verbatim. The
//! status line is `200 OK` even for the not-found fallback body; only the
//! body text distinguishes that case.

use vstd::prelude::*;

verus! {

/// The complete plain-text response for a body: status line, one
/// `Content-Type: text/plain` header, a blank line, then the body verbatim.
pub open spec fn spec_text_response(body: Seq<char>) -> Seq<char> {
    "HTTP/1.1 200 OK\r\nContent-Type: text/plain\r\n\r\n"@ + body
}

/// The complete JSON response for a body: status line, one
/// `Content-Type: application/json` header, a blank line, then the body.
pub open spec fn spec_json_response(body: Seq<char>) -> Seq<char> {
    "HTTP/1.1 200 OK\r\nContent-Type: application/json\r\n\r\n"@ + body
}

/// The address a server with the given address string binds to: a string
/// starting with `:` is shorthand for that port on the loopback address;
/// anything else is taken as a full `host:port` pair, unchanged.
pub open spec fn spec_listen_addr(addr: Seq<char>) -> Seq<char> {
    if addr.len() > 0 && addr[0] == ':' {
        "127.0.0.1"@ + addr
    } else {
        addr
    }
}

/// Renders the minimal plain-text response around `text`, byte for byte.
pub fn text_response(text: &str) -> (r: String)
    ensures
        r@ == spec_text_response(text@),
{
    let mut r = String::from_str("HTTP/1.1 200 OK\r\nContent-Type: text/plain\r\n\r\n");
    r.append(text);
    r
}

/// Renders the minimal JSON response around an already-rendered JSON body.
pub fn json_response(body: &str) -> (r: String)
    ensures
        r@ == spec_json_response(body@),
{
    let mut r = String::from_str("HTTP/1.1 200 OK\r\nContent-Type: application/json\r\n\r\n");
    r.append(body);
    r
}

/// The fallback response written when no route matches: the usual `200 OK`
/// plain-text framing around the body `404 Not Found`.
pub fn not_found_response() -> (r: String)
    ensures
        r@ == spec_text_response("404 Not Found"@),
{
    text_response("404 Not Found")
}

/// Resolves the address string the server was created with to the address
/// it binds to, turning a `:port` shorthand into `127.0.0.1:port`.
pub fn listen_addr(addr: &str) -> (r: String)
    ensures
        r@ == spec_listen_addr(addr@),
{
    let n = addr.unicode_len();
    if n > 0 && addr.get_char(0) == ':' {
        let mut r = String::from_str("127.0.0.1");
        r.append(addr);
        r
    } else {
        addr.to_owned()
    }
}

} // verus!
