use web_server::headers::Headers;
use web_server::http_request::{HttpMethod, HttpProtocol};
use web_server::http_response::{HttpResponse, HttpStatus};
use web_server::server::{parse_request, route, Page};

#[test]
fn status_reason_phrases() {
    assert_eq!(HttpStatus::Okay.render(), "200 OK");
    assert_eq!(HttpStatus::NotFound.render(), "404 Not Found");
}

#[test]
fn from_html_sets_framing_headers() {
    let resp = HttpResponse::from_html(HttpStatus::Okay, HttpProtocol::Http11, "<p>hi</p>".to_string());
    assert_eq!(resp.headers.len(), 2);
    assert_eq!(resp.headers.get("Content-Type").unwrap().as_str(), "text/html");
    assert_eq!(resp.headers.get("Content-Length").unwrap().as_str(), "9");
    assert_eq!(resp.data, "<p>hi</p>");
}

#[test]
fn from_html_content_length_counts_bytes() {
    let resp = HttpResponse::from_html(HttpStatus::Okay, HttpProtocol::Http11, "".to_string());
    assert_eq!(resp.headers.get("Content-Length").unwrap().as_str(), "0");

    // A multi-byte character counts with its UTF-8 length.
    let resp = HttpResponse::from_html(HttpStatus::Okay, HttpProtocol::Http11, "é".to_string());
    assert_eq!(resp.headers.get("Content-Length").unwrap().as_str(), "2");

    let body = "x".repeat(123);
    let resp = HttpResponse::from_html(HttpStatus::Okay, HttpProtocol::Http11, body);
    assert_eq!(resp.headers.get("Content-Length").unwrap().as_str(), "123");
}

#[test]
fn rendered_response_has_exact_wire_form() {
    let resp = HttpResponse::from_html(HttpStatus::Okay, HttpProtocol::Http11, "<p>hi</p>".to_string());
    let wire = resp.status_headers_and_data();
    assert_eq!(wire.split("\r\n").next().unwrap(), "HTTP/1.1 200 OK");
    assert!(wire.contains("\r\nContent-Length: 9\r\n"));
    assert!(wire.contains("\r\nContent-Type: text/html\r\n"));
    assert_eq!(wire.split("\r\n\r\n").nth(1).unwrap(), "<p>hi</p>");
}

#[test]
fn rendered_response_echoes_protocol_and_status() {
    let resp = HttpResponse::from_html(HttpStatus::NotFound, HttpProtocol::Http2, "gone".to_string());
    let wire = resp.status_headers_and_data();
    assert_eq!(wire.split("\r\n").next().unwrap(), "HTTP/2 404 Not Found");
    assert_eq!(wire.split("\r\n\r\n").nth(1).unwrap(), "gone");
}

#[test]
fn header_insert_get_and_overwrite() {
    let mut headers = Headers::new();
    assert_eq!(headers.len(), 0);
    assert!(headers.get("A").is_none());
    headers.insert("A".to_string(), "1".to_string());
    headers.insert("B".to_string(), "2".to_string());
    assert_eq!(headers.len(), 2);
    assert_eq!(headers.get("A").unwrap().as_str(), "1");
    headers.insert("A".to_string(), "3".to_string());
    assert_eq!(headers.len(), 2);
    assert_eq!(headers.get("A").unwrap().as_str(), "3");
    assert_eq!(headers.get("B").unwrap().as_str(), "2");
}

#[test]
fn rendered_headers_keep_insertion_order() {
    let mut headers = Headers::new();
    headers.insert("A".to_string(), "1".to_string());
    headers.insert("B".to_string(), "2".to_string());
    let resp = HttpResponse {
        status: HttpStatus::Okay,
        protocol: HttpProtocol::Http11,
        headers,
        data: "".to_string(),
    };
    assert_eq!(resp.status_headers_and_data(), "HTTP/1.1 200 OK\r\nA: 1\r\nB: 2\r\n\r\n");
}

#[test]
fn routing_table() {
    assert_eq!(route(HttpMethod::Get, "/"), (Page::Hello, HttpStatus::Okay));
    assert_eq!(route(HttpMethod::Get, "/missing"), (Page::Missing, HttpStatus::NotFound));
    assert_eq!(route(HttpMethod::Post, "/"), (Page::Missing, HttpStatus::NotFound));
    assert_eq!(route(HttpMethod::Post, "/anything"), (Page::Missing, HttpStatus::NotFound));
}

#[test]
fn same_request_renders_byte_identical_responses() {
    let raw = "GET / HTTP/1.1\r\nHost: x\r\n\r\n";
    let mut outputs: Vec<String> = Vec::new();
    for _ in 0..2 {
        let req = parse_request(raw).unwrap();
        let (page, status) = route(req.method, &req.path);
        assert_eq!(page, Page::Hello);
        let body = "<html>hello</html>".to_string();
        let resp = HttpResponse::from_html(status, req.protocol, body);
        outputs.push(resp.status_headers_and_data());
    }
    assert_eq!(outputs[0], outputs[1]);
}
