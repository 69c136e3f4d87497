//! The response vocabulary and its serialization to wire text.

use vstd::prelude::*;
use vstd::string::*;
use vstd::utf8::encode_utf8;

use crate::headers::{
    lemma_header_map_contains, spec_render_headers, Headers,
};
use crate::http_request::{protocol_text, HttpProtocol};
use crate::text::{dec_digits, render_usize};

verus! {

/// The response statuses in scope, a closed set.
#[derive(Debug, Copy, Clone, Eq, PartialEq, Hash, Structural)]
pub enum HttpStatus {
    Okay,
    NotFound,
}

/// The status line text of a status: its code and fixed reason phrase.
pub open spec fn status_text(s: HttpStatus) -> Seq<char> {
    match s {
        HttpStatus::Okay => "200 OK"@,
        HttpStatus::NotFound => "404 Not Found"@,
    }
}

impl HttpStatus {
    /// The code and reason phrase of this status.
    pub fn render(&self) -> (r: String)
        ensures
            r@ == status_text(*self),
    {
        match self {
            HttpStatus::Okay => String::from_str("200 OK"),
            HttpStatus::NotFound => String::from_str("404 Not Found"),
        }
    }
}

/// The mathematical image of a response.  The headers keep their entry
/// order, since the rendered text lists them in that order.
pub ghost struct ResponseView {
    pub status: HttpStatus,
    pub protocol: HttpProtocol,
    pub headers: Seq<(Seq<char>, Seq<char>)>,
    pub data: Seq<char>,
}

/// A response: status, protocol, headers and body, built once and then
/// serialized.
#[derive(Debug, Clone)]
pub struct HttpResponse {
    pub status: HttpStatus,
    pub protocol: HttpProtocol,
    pub headers: Headers,
    pub data: String,
}

impl View for HttpResponse {
    type V = ResponseView;

    open spec fn view(&self) -> ResponseView {
        ResponseView {
            status: self.status,
            protocol: self.protocol,
            headers: self.headers@,
            data: self.data@,
        }
    }
}

/// The value of the `Content-Length` header for a body: the decimal
/// numeral of the body's length in UTF-8 bytes.
pub open spec fn content_length_text(data: Seq<char>) -> Seq<char> {
    dec_digits(encode_utf8(data).len() as nat)
}

/// The wire text of a response: the status line, the header lines, a
/// blank line, and the body, all CRLF-separated.
pub open spec fn spec_render_response(v: ResponseView) -> Seq<char> {
    protocol_text(v.protocol) + " "@ + status_text(v.status) + "\r\n"@ + spec_render_headers(
        v.headers,
    ) + "\r\n\r\n"@ + v.data
}

impl HttpResponse {
    /// Builds a response around an HTML body: alongside the given status
    /// and protocol it sets exactly `Content-Type: text/html` and a
    /// `Content-Length` of the body's byte length, the framing every
    /// HTML response is owed.
    pub fn from_html(status: HttpStatus, protocol: HttpProtocol, data: String) -> (r:
        HttpResponse)
        ensures
            r.status == status,
            r.protocol == protocol,
            r.data@ == data@,
            r.headers.wf(),
            r.headers@ == seq![
                ("Content-Type"@, "text/html"@),
                ("Content-Length"@, content_length_text(data@)),
            ],
    {
        let bytes = data.as_str().as_bytes();
        let len = bytes.len();
        proof {
            assert(bytes@.len() == encode_utf8(data@).len());
        }
        let mut headers = Headers::new();
        let ghost e0 = headers@;
        headers.insert(String::from_str("Content-Type"), String::from_str("text/html"));
        proof {
            reveal_strlit("Content-Type");
            reveal_strlit("Content-Length");
            assert("Content-Type"@.len() == 12);
            assert("Content-Length"@.len() == 14);
            lemma_header_map_contains(headers@, "Content-Length"@);
            assert(headers@[0].0 == "Content-Type"@);
        }
        headers.insert(String::from_str("Content-Length"), render_usize(len));
        proof {
            assert(headers@ =~= seq![
                ("Content-Type"@, "text/html"@),
                ("Content-Length"@, content_length_text(data@)),
            ]);
        }
        HttpResponse { status, protocol, headers, data }
    }

    /// The full wire text of this response: status line, headers, blank
    /// line, body.
    pub fn status_headers_and_data(&self) -> (r: String)
        ensures
            r@ == spec_render_response(self@),
    {
        let mut out = self.protocol.render();
        out.append(" ");
        let st = self.status.render();
        out.append(st.as_str());
        out.append("\r\n");
        let hs = self.headers.render();
        out.append(hs.as_str());
        out.append("\r\n\r\n");
        out.append(self.data.as_str());
        proof {
            assert(out@ =~= spec_render_response(self@));
        }
        out
    }
}

/// Serialization is a function of a response's logical content alone:
/// two responses that agree on status, protocol, headers (with their
/// order) and body render to identical text, so rendering the same
/// logical response twice gives byte-identical output.
pub proof fn lemma_render_deterministic(a: HttpResponse, b: HttpResponse)
    requires
        a@ == b@,
    ensures
        spec_render_response(a@) == spec_render_response(b@),
{
}

} // verus!
