//! A minimal embeddable HTTP server core.
//!
//! The verified library holds the pieces of the server that are pure logic:
//! parsing the request line of a raw buffer (`Request`), selecting a handler
//! by prefix match over a route table (`RouteTable`), formatting minimal
//! HTTP/1.1 responses, and a small JSON-rendering convenience (`ToJson`).
//! The surrounding TCP accept loop, which is all I/O, lives outside the
//! library and drives these functions.

pub mod http;
pub mod json;
pub mod request;
pub mod routes;

pub use json::json_object_body;
pub use json::JsonObject;
pub use json::ToJson;
pub use request::Request;
pub use routes::RouteTable;
pub use http::listen_addr;
pub use http::not_found_response;
pub use http::json_response;
pub use http::text_response;
