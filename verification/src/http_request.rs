//! The request vocabulary: method, protocol version, and the request record.

use vstd::prelude::*;
use vstd::string::*;

use crate::error::{ParseError, ParseErrorView};
use crate::headers::Headers;

verus! {

/// The mathematical image of a request.  The headers are the mapping
/// they denote: their entry order does not matter for a request.
pub ghost struct RequestView {
    pub method: HttpMethod,
    pub path: Seq<char>,
    pub protocol: HttpProtocol,
    pub headers: Map<Seq<char>, Seq<char>>,
}

/// A parsed request: method, path taken verbatim from the request line,
/// protocol, and the header set.  Built once per connection and never
/// mutated afterwards.
#[derive(Debug, Clone, PartialEq, Eq)]
pub struct HttpRequest {
    pub method: HttpMethod,
    pub path: String,
    pub protocol: HttpProtocol,
    pub headers: Headers,
}

impl View for HttpRequest {
    type V = RequestView;

    open spec fn view(&self) -> RequestView {
        RequestView {
            method: self.method,
            path: self.path@,
            protocol: self.protocol,
            headers: self.headers.as_map(),
        }
    }
}

/// The supported request methods, a closed set.
#[derive(Debug, Copy, Clone, Eq, PartialEq, Hash, Structural)]
pub enum HttpMethod {
    Get,
    Post,
}

/// Which method, if any, a request-line token denotes: exactly `"GET"`
/// and `"POST"` are supported, case-sensitively.
pub open spec fn spec_parse_method(t: Seq<char>) -> Option<HttpMethod> {
    if t == "GET"@ {
        Some(HttpMethod::Get)
    } else if t == "POST"@ {
        Some(HttpMethod::Post)
    } else {
        None
    }
}

impl HttpMethod {
    /// Converts a request-line token into a method by exact match;
    /// any other token fails with `UnsupportedMethod` carrying the token.
    pub fn parse(token: &str) -> (r: Result<HttpMethod, ParseError>)
        ensures
            match spec_parse_method(token@) {
                Some(m) => r == Ok::<HttpMethod, ParseError>(m),
                None => r matches Err(e) && e@ == ParseErrorView::UnsupportedMethod(token@),
            },
    {
        let t = String::from_str(token);
        if t == String::from_str("GET") {
            Ok(HttpMethod::Get)
        } else if t == String::from_str("POST") {
            Ok(HttpMethod::Post)
        } else {
            Err(ParseError::UnsupportedMethod(t))
        }
    }
}

/// The supported protocol versions, a closed set.
#[derive(Debug, Copy, Clone, Eq, PartialEq, Hash, Structural)]
pub enum HttpProtocol {
    Http11,
    Http2,
}

/// Which protocol version, if any, a request-line token denotes: exactly
/// `"HTTP/1.1"` and `"HTTP/2"` are supported, case-sensitively.
pub open spec fn spec_parse_protocol(t: Seq<char>) -> Option<HttpProtocol> {
    if t == "HTTP/1.1"@ {
        Some(HttpProtocol::Http11)
    } else if t == "HTTP/2"@ {
        Some(HttpProtocol::Http2)
    } else {
        None
    }
}

/// The wire token of a protocol version, used when a response echoes the
/// request's version back.
pub open spec fn protocol_text(p: HttpProtocol) -> Seq<char> {
    match p {
        HttpProtocol::Http11 => "HTTP/1.1"@,
        HttpProtocol::Http2 => "HTTP/2"@,
    }
}

impl HttpProtocol {
    /// Converts a request-line token into a protocol version by exact match;
    /// any other token fails with `UnsupportedProtocol` carrying the token.
    pub fn parse(token: &str) -> (r: Result<HttpProtocol, ParseError>)
        ensures
            match spec_parse_protocol(token@) {
                Some(p) => r == Ok::<HttpProtocol, ParseError>(p),
                None => r matches Err(e) && e@ == ParseErrorView::UnsupportedProtocol(token@),
            },
    {
        let t = String::from_str(token);
        if t == String::from_str("HTTP/1.1") {
            Ok(HttpProtocol::Http11)
        } else if t == String::from_str("HTTP/2") {
            Ok(HttpProtocol::Http2)
        } else {
            Err(ParseError::UnsupportedProtocol(t))
        }
    }

    /// The wire token of this protocol version.
    pub fn render(&self) -> (r: String)
        ensures
            r@ == protocol_text(*self),
    {
        match self {
            HttpProtocol::Http11 => String::from_str("HTTP/1.1"),
            HttpProtocol::Http2 => String::from_str("HTTP/2"),
        }
    }
}

/// Parsing is a left inverse of rendering: every representable protocol
/// version parses back from its own wire token.
pub proof fn lemma_protocol_parse_render(p: HttpProtocol)
    ensures
        spec_parse_protocol(protocol_text(p)) == Some(p),
{
    reveal_strlit("HTTP/1.1");
    reveal_strlit("HTTP/2");
    assert("HTTP/1.1"@.len() == 8);
    assert("HTTP/2"@.len() == 6);
}

/// Rendering is a left inverse of parsing: every token that parses as a
/// protocol version is rendered back unchanged.
pub proof fn lemma_protocol_render_parse(s: Seq<char>)
    requires
        spec_parse_protocol(s) is Some,
    ensures
        protocol_text(spec_parse_protocol(s).unwrap()) == s,
{
}

} // verus!
