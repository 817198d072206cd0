//! Wire-level behavior: line reading, request parsing, decimal rendering,
//! response serialization, and the serialize/re-parse round trip.

use tinyhttp::error::HttpError;
use tinyhttp::handlers::{handle, Config, HandlerOutcome};
use tinyhttp::headers::HeaderMap;
use tinyhttp::lines::read_http_request;
use tinyhttp::numeral::u64_to_dec;
use tinyhttp::request::{read_request, split_header_line, split_spaces, HttpMethod};
use tinyhttp::response::{serialize_response, HttpResponse, StatusCode};

fn b(s: &str) -> Vec<u8> {
    s.as_bytes().to_vec()
}

#[test]
fn reads_lines_until_empty_line() {
    let data = b("GET / HTTP/1.1\r\nHost: x\r\n\r\nleftover");
    let lines = read_http_request(&data).unwrap();
    assert_eq!(lines, vec![b("GET / HTTP/1.1"), b("Host: x")]);
}

#[test]
fn empty_header_block() {
    let data = b("\r\n");
    let lines = read_http_request(&data).unwrap();
    assert!(lines.is_empty());
}

#[test]
fn line_without_crlf_is_malformed() {
    let data = b("GET / HTTP/1.1");
    assert_eq!(read_http_request(&data), Err(HttpError::MalformedLine));
}

#[test]
fn lone_lf_is_malformed() {
    let data = b("GET / HTTP/1.1\n\r\n");
    assert_eq!(read_http_request(&data), Err(HttpError::MalformedLine));
}

#[test]
fn missing_terminating_empty_line_is_malformed() {
    let data = b("GET / HTTP/1.1\r\nHost: x\r\n");
    assert_eq!(read_http_request(&data), Err(HttpError::MalformedLine));
}

#[test]
fn carriage_return_inside_line_is_kept() {
    let data = b("a\rb\r\n\r\n");
    let lines = read_http_request(&data).unwrap();
    assert_eq!(lines, vec![b("a\rb")]);
}

#[test]
fn splits_start_line_on_single_spaces() {
    assert_eq!(
        split_spaces(&b("GET /echo/a HTTP/1.1")),
        vec![b("GET"), b("/echo/a"), b("HTTP/1.1")]
    );
    assert_eq!(split_spaces(&b("a  b")), vec![b("a"), b(""), b("b")]);
    assert_eq!(split_spaces(&b("")), vec![b("")]);
}

#[test]
fn splits_header_line_at_first_separator() {
    assert_eq!(split_header_line(&b("Host: x: y")), Some((b("Host"), b("x: y"))));
    assert_eq!(split_header_line(&b("no separator")), None);
    assert_eq!(split_header_line(&b("colon:nospace")), None);
}

#[test]
fn parses_request_with_headers() {
    let lines = vec![b("GET /user-agent HTTP/1.1"), b("Host: x"), b("User-Agent: curl")];
    let req = read_request(lines).unwrap();
    assert_eq!(req.method, HttpMethod::Get);
    assert_eq!(req.path, b("/user-agent"));
    assert_eq!(req.version, b("HTTP/1.1"));
    assert_eq!(req.headers.get(&b("Host")), Some(&b("x")));
    assert_eq!(req.headers.get(&b("User-Agent")), Some(&b("curl")));
}

#[test]
fn duplicate_header_last_wins() {
    let lines = vec![b("GET / HTTP/1.1"), b("A: one"), b("A: two")];
    let req = read_request(lines).unwrap();
    assert_eq!(req.headers.get(&b("A")), Some(&b("two")));
    assert_eq!(req.headers.len(), 1);
}

#[test]
fn header_line_without_separator_is_dropped() {
    let lines = vec![b("GET / HTTP/1.1"), b("weird line"), b("Host: x")];
    let req = read_request(lines).unwrap();
    assert_eq!(req.headers.len(), 1);
    assert_eq!(req.headers.get(&b("Host")), Some(&b("x")));
}

#[test]
fn short_start_line_is_rejected() {
    let lines = vec![b("GET /")];
    assert!(matches!(read_request(lines), Err(HttpError::MissingStartLineField)));
    let lines = vec![b("GET")];
    assert!(matches!(read_request(lines), Err(HttpError::MissingStartLineField)));
}

#[test]
fn unsupported_method_is_rejected() {
    let lines = vec![b("PUT / HTTP/1.1")];
    assert!(matches!(read_request(lines), Err(HttpError::UnsupportedMethod)));
    let lines = vec![b("get / HTTP/1.1")];
    assert!(matches!(read_request(lines), Err(HttpError::UnsupportedMethod)));
}

#[test]
fn method_is_judged_before_arity() {
    assert!(matches!(read_request(vec![b("PUT")]), Err(HttpError::UnsupportedMethod)));
}

#[test]
fn empty_header_block_has_no_start_line() {
    assert!(matches!(read_request(vec![]), Err(HttpError::MissingStartLine)));
}

#[test]
fn renders_decimal() {
    assert_eq!(u64_to_dec(0), b("0"));
    assert_eq!(u64_to_dec(7), b("7"));
    assert_eq!(u64_to_dec(10), b("10"));
    assert_eq!(u64_to_dec(12345), b("12345"));
}

#[test]
fn header_map_replaces_on_insert() {
    let mut headers = HeaderMap::new();
    headers.insert(b("A"), b("1"));
    headers.insert(b("B"), b("2"));
    headers.insert(b("A"), b("3"));
    assert_eq!(headers.len(), 2);
    assert_eq!(headers.get(&b("A")), Some(&b("3")));
    assert_eq!(headers.get(&b("B")), Some(&b("2")));
    assert_eq!(headers.get(&b("C")), None);
}

#[test]
fn serializes_exact_bytes() {
    let resp = HttpResponse {
        version: b("HTTP/1.1"),
        code: StatusCode::Okay,
        headers: HeaderMap::new(),
        content: Vec::new(),
    };
    let resp = resp.with_content(&b("hi"));
    assert_eq!(
        serialize_response(&resp),
        b("HTTP/1.1 200 OK\r\nContent-Type: text/plain\r\nContent-Length: 2\r\n\r\nhi")
    );
}

#[test]
fn serializes_empty_response() {
    let resp = HttpResponse {
        version: b("HTTP/1.1"),
        code: StatusCode::NotFound,
        headers: HeaderMap::new(),
        content: Vec::new(),
    };
    assert_eq!(serialize_response(&resp), b("HTTP/1.1 404 Not Found\r\n\r\n"));
}

#[test]
fn serialize_then_reparse_round_trip() {
    let resp = HttpResponse {
        version: b("HTTP/1.1"),
        code: StatusCode::Okay,
        headers: HeaderMap::new(),
        content: Vec::new(),
    };
    let resp = resp.with_binary_content(b("body bytes"));
    let wire = serialize_response(&resp);
    let lines = read_http_request(&wire).unwrap();
    assert_eq!(lines[0], b("HTTP/1.1 200 OK"));
    let mut reparsed = HeaderMap::new();
    for line in &lines[1..] {
        if let Some((k, v)) = split_header_line(line) {
            reparsed.insert(k, v);
        }
    }
    assert_eq!(reparsed.len(), 2);
    assert_eq!(reparsed.get(&b("Content-Type")), Some(&b("application/octet-stream")));
    assert_eq!(reparsed.get(&b("Content-Length")), Some(&b("10")));
    assert!(wire.ends_with(b"body bytes"));
}

#[test]
fn full_pipeline_echo() {
    let wire_in = b("GET /echo/hey HTTP/1.1\r\nHost: x\r\n\r\n");
    let lines = read_http_request(&wire_in).unwrap();
    let req = read_request(lines).unwrap();
    let outcome = handle(req, &Config { directory: None });
    let resp = match outcome {
        HandlerOutcome::Done(resp) => resp,
        HandlerOutcome::ReadFile { .. } => panic!("echo needs no file"),
    };
    assert_eq!(
        serialize_response(&resp),
        b("HTTP/1.1 200 OK\r\nContent-Type: text/plain\r\nContent-Length: 3\r\n\r\nhey")
    );
}
