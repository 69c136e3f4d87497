use web_server::error::ParseError;
use web_server::http_request::{HttpMethod, HttpProtocol};
use web_server::server::parse_request;

#[test]
fn method_parse_supported_tokens() {
    assert_eq!(HttpMethod::parse("GET").unwrap(), HttpMethod::Get);
    assert_eq!(HttpMethod::parse("POST").unwrap(), HttpMethod::Post);
}

#[test]
fn method_parse_rejects_other_tokens() {
    assert_eq!(
        HttpMethod::parse("FOO").unwrap_err(),
        ParseError::UnsupportedMethod("FOO".to_string())
    );
    assert_eq!(
        HttpMethod::parse("get").unwrap_err(),
        ParseError::UnsupportedMethod("get".to_string())
    );
    assert_eq!(
        HttpMethod::parse("").unwrap_err(),
        ParseError::UnsupportedMethod("".to_string())
    );
}

#[test]
fn protocol_round_trip() {
    for token in ["HTTP/1.1", "HTTP/2"] {
        let parsed = HttpProtocol::parse(token).unwrap();
        assert_eq!(parsed.render(), token);
    }
}

#[test]
fn protocol_parse_after_render() {
    for protocol in [HttpProtocol::Http11, HttpProtocol::Http2] {
        assert_eq!(HttpProtocol::parse(&protocol.render()).unwrap(), protocol);
    }
}

#[test]
fn protocol_parse_rejects_other_tokens() {
    assert_eq!(
        HttpProtocol::parse("HTTP/1.0").unwrap_err(),
        ParseError::UnsupportedProtocol("HTTP/1.0".to_string())
    );
}

#[test]
fn parse_simple_request_with_host_header() {
    let req = parse_request("GET / HTTP/1.1\r\nHost: x\r\n\r\n").unwrap();
    assert_eq!(req.method, HttpMethod::Get);
    assert_eq!(req.path, "/");
    assert_eq!(req.protocol, HttpProtocol::Http11);
    assert_eq!(req.headers.len(), 1);
    assert_eq!(req.headers.get("Host").unwrap().as_str(), "x");
}

#[test]
fn parse_request_without_headers() {
    let req = parse_request("GET / HTTP/1.1\r\n\r\n").unwrap();
    assert_eq!(req.method, HttpMethod::Get);
    assert_eq!(req.path, "/");
    assert_eq!(req.protocol, HttpProtocol::Http11);
    assert_eq!(req.headers.len(), 0);
}

#[test]
fn parse_request_ending_at_stream_end() {
    // A header section closed by the end of the stream instead of a
    // blank line is accepted identically.
    let req = parse_request("GET /page HTTP/2\r\nHost: y").unwrap();
    assert_eq!(req.method, HttpMethod::Get);
    assert_eq!(req.path, "/page");
    assert_eq!(req.protocol, HttpProtocol::Http2);
    assert_eq!(req.headers.get("Host").unwrap().as_str(), "y");
}

#[test]
fn parse_empty_stream_fails() {
    assert_eq!(parse_request("").unwrap_err(), ParseError::EmptyRequest);
}

#[test]
fn parse_unsupported_method_token() {
    assert_eq!(
        parse_request("FOO / HTTP/1.1\r\n\r\n").unwrap_err(),
        ParseError::UnsupportedMethod("FOO".to_string())
    );
}

#[test]
fn parse_blank_request_line_has_no_method() {
    assert_eq!(parse_request("\r\n\r\n").unwrap_err(), ParseError::MissingMethod);
    assert_eq!(parse_request("\n").unwrap_err(), ParseError::MissingMethod);
}

#[test]
fn parse_request_line_missing_pieces() {
    assert_eq!(parse_request("GET\r\n\r\n").unwrap_err(), ParseError::MissingPath);
    assert_eq!(parse_request("GET /\r\n\r\n").unwrap_err(), ParseError::MissingProtocol);
    assert_eq!(
        parse_request("GET / HTTP/9.9\r\n\r\n").unwrap_err(),
        ParseError::UnsupportedProtocol("HTTP/9.9".to_string())
    );
}

#[test]
fn parse_header_line_without_colon_fails() {
    assert_eq!(
        parse_request("GET / HTTP/1.1\r\nnocolon\r\n\r\n").unwrap_err(),
        ParseError::MissingHeaderName
    );
}

#[test]
fn parse_extra_request_line_tokens_are_ignored() {
    let req = parse_request("GET / HTTP/1.1 ignored extra\r\n\r\n").unwrap();
    assert_eq!(req.method, HttpMethod::Get);
    assert_eq!(req.path, "/");
    assert_eq!(req.protocol, HttpProtocol::Http11);
}

#[test]
fn parse_accepts_bare_line_feeds() {
    let req = parse_request("POST /submit HTTP/2\nHost: z\n\n").unwrap();
    assert_eq!(req.method, HttpMethod::Post);
    assert_eq!(req.path, "/submit");
    assert_eq!(req.protocol, HttpProtocol::Http2);
    assert_eq!(req.headers.get("Host").unwrap().as_str(), "z");
}

#[test]
fn parse_trims_header_values() {
    let req = parse_request("GET / HTTP/1.1\r\nHost:   spaced out \r\n\r\n").unwrap();
    assert_eq!(req.headers.get("Host").unwrap().as_str(), "spaced out");
}

#[test]
fn parse_accepts_empty_header_value() {
    let req = parse_request("GET / HTTP/1.1\r\nX-Empty:\r\n\r\n").unwrap();
    assert_eq!(req.headers.get("X-Empty").unwrap().as_str(), "");
}

#[test]
fn parse_splits_header_on_first_colon() {
    let req = parse_request("GET / HTTP/1.1\r\nA: b:c\r\n\r\n").unwrap();
    assert_eq!(req.headers.get("A").unwrap().as_str(), "b:c");
}

#[test]
fn parse_last_header_value_wins() {
    let req = parse_request("GET / HTTP/1.1\r\nHost: first\r\nHost: second\r\n\r\n").unwrap();
    assert_eq!(req.headers.len(), 1);
    assert_eq!(req.headers.get("Host").unwrap().as_str(), "second");
}

#[test]
fn parse_request_line_alone_with_terminator() {
    let req = parse_request("POST /x HTTP/1.1\r\n").unwrap();
    assert_eq!(req.method, HttpMethod::Post);
    assert_eq!(req.path, "/x");
    assert_eq!(req.headers.len(), 0);
}

#[test]
fn parse_header_names_are_case_sensitive() {
    let req = parse_request("GET / HTTP/1.1\r\nhost: a\r\nHost: b\r\n\r\n").unwrap();
    assert_eq!(req.headers.len(), 2);
    assert_eq!(req.headers.get("host").unwrap().as_str(), "a");
    assert_eq!(req.headers.get("Host").unwrap().as_str(), "b");
}

#[test]
fn parse_stops_at_blank_line() {
    let req = parse_request("GET / HTTP/1.1\r\nHost: x\r\n\r\nnot-a-header\r\n").unwrap();
    assert_eq!(req.headers.len(), 1);
    assert!(req.headers.get("not-a-header").is_none());
}
