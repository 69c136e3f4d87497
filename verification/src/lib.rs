//! A minimal server-side HTTP/1.x message layer.
//!
//! The crate parses raw request text into a structured [`http_request::HttpRequest`],
//! decides a status and page for it, and serializes an
//! [`http_response::HttpResponse`] back into wire text.  All of the protocol
//! logic is verified; reading from and writing to sockets is left to the
//! program around the library.

pub mod error;
pub mod headers;
pub mod http_request;
pub mod http_response;
pub mod server;
pub mod text;
