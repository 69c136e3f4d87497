//! The typed failures of request parsing.
//!
//! Every malformed input is mapped to one of these values; parsing never
//! panics.  I/O failures while reading a connection happen outside the
//! library and are handled by the caller.

use vstd::prelude::*;

verus! {

/// Why a request could not be parsed.
///
/// The token that made a method or protocol unsupported is kept in the
/// error for diagnostics.  A header line whose colon is followed only by
/// whitespace is accepted with an empty value, so `MissingHeaderValue`
/// is part of the taxonomy but is never produced by [`crate::server::parse_request`].
#[derive(Debug, Clone, PartialEq, Eq)]
pub enum ParseError {
    /// The byte stream held no request line at all.
    EmptyRequest,
    /// The request line held no token for the method.
    MissingMethod,
    /// The method token is not one of the supported methods.
    UnsupportedMethod(String),
    /// The request line held no token for the path.
    MissingPath,
    /// The request line held no token for the protocol version.
    MissingProtocol,
    /// The protocol token is not one of the supported versions.
    UnsupportedProtocol(String),
    /// A header line holds no colon, so no name can be split off.
    MissingHeaderName,
    /// A header line names a header but its value is wholly missing.
    MissingHeaderValue(String),
}

/// The mathematical image of a [`ParseError`]: the same cases, with the
/// offending tokens as character sequences.
pub ghost enum ParseErrorView {
    EmptyRequest,
    MissingMethod,
    UnsupportedMethod(Seq<char>),
    MissingPath,
    MissingProtocol,
    UnsupportedProtocol(Seq<char>),
    MissingHeaderName,
    MissingHeaderValue(Seq<char>),
}

impl View for ParseError {
    type V = ParseErrorView;

    open spec fn view(&self) -> ParseErrorView {
        match self {
            ParseError::EmptyRequest => ParseErrorView::EmptyRequest,
            ParseError::MissingMethod => ParseErrorView::MissingMethod,
            ParseError::UnsupportedMethod(t) => ParseErrorView::UnsupportedMethod(t@),
            ParseError::MissingPath => ParseErrorView::MissingPath,
            ParseError::MissingProtocol => ParseErrorView::MissingProtocol,
            ParseError::UnsupportedProtocol(t) => ParseErrorView::UnsupportedProtocol(t@),
            ParseError::MissingHeaderName => ParseErrorView::MissingHeaderName,
            ParseError::MissingHeaderValue(n) => ParseErrorView::MissingHeaderValue(n@),
        }
    }
}

} // verus!
