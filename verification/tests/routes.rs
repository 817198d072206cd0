//! Route-level behavior: each handler's status, headers and body on
//! concrete requests.

use tinyhttp::handlers::{
    finish_files, handle, handle_echo, handle_get, handle_post, handle_user_agent, parse_config,
    Config, HandlerOutcome,
};
use tinyhttp::headers::HeaderMap;
use tinyhttp::request::{HttpMethod, HttpRequest};
use tinyhttp::response::{HttpResponse, StatusCode};

fn b(s: &str) -> Vec<u8> {
    s.as_bytes().to_vec()
}

fn get_request(path: &str) -> HttpRequest {
    HttpRequest {
        method: HttpMethod::Get,
        path: b(path),
        version: b("HTTP/1.1"),
        headers: HeaderMap::new(),
    }
}

fn done(outcome: HandlerOutcome) -> HttpResponse {
    match outcome {
        HandlerOutcome::Done(resp) => resp,
        HandlerOutcome::ReadFile { .. } => panic!("expected a finished response"),
    }
}

#[test]
fn root_returns_200_empty() {
    let mut req = get_request("/");
    req.headers.insert(b("Host"), b("example"));
    req.headers.insert(b("Accept"), b("*/*"));
    let resp = done(handle(req, &Config { directory: None }));
    assert_eq!(resp.code, StatusCode::Okay);
    assert_eq!(resp.version, b("HTTP/1.1"));
    assert!(resp.content.is_empty());
    assert_eq!(resp.headers.len(), 0);
}

#[test]
fn echo_body_and_content_length() {
    let resp = handle_echo(get_request("/echo/abc"));
    assert_eq!(resp.code, StatusCode::Okay);
    assert_eq!(resp.content, b("abc"));
    assert_eq!(resp.headers.get(&b("Content-Length")), Some(&b("3")));
    assert_eq!(resp.headers.get(&b("Content-Type")), Some(&b("text/plain")));
}

#[test]
fn echo_keeps_embedded_slashes() {
    let resp = done(handle_get(get_request("/echo/a/b c"), &Config { directory: None }));
    assert_eq!(resp.code, StatusCode::Okay);
    assert_eq!(resp.content, b("a/b c"));
    assert_eq!(resp.headers.get(&b("Content-Length")), Some(&b("5")));
}

#[test]
fn echo_empty_message() {
    let resp = handle_echo(get_request("/echo/"));
    assert_eq!(resp.code, StatusCode::Okay);
    assert!(resp.content.is_empty());
    assert_eq!(resp.headers.get(&b("Content-Length")), Some(&b("0")));
}

#[test]
fn echo_without_prefix_is_bad_request() {
    let resp = handle_echo(get_request("/other"));
    assert_eq!(resp.code, StatusCode::BadRequest);
    assert!(resp.content.is_empty());
}

#[test]
fn user_agent_present() {
    let mut req = get_request("/user-agent");
    req.headers.insert(b("User-Agent"), b("foo"));
    let resp = handle_user_agent(req);
    assert_eq!(resp.code, StatusCode::Okay);
    assert_eq!(resp.content, b("foo"));
    assert_eq!(resp.headers.get(&b("Content-Length")), Some(&b("3")));
    assert_eq!(resp.headers.get(&b("Content-Type")), Some(&b("text/plain")));
}

#[test]
fn user_agent_absent_is_bad_request() {
    let resp = handle_user_agent(get_request("/user-agent"));
    assert_eq!(resp.code, StatusCode::BadRequest);
    assert!(resp.content.is_empty());
}

#[test]
fn user_agent_lookup_is_case_sensitive() {
    let mut req = get_request("/user-agent");
    req.headers.insert(b("user-agent"), b("foo"));
    let resp = handle_user_agent(req);
    assert_eq!(resp.code, StatusCode::BadRequest);
}

#[test]
fn files_resolves_name_under_base_directory() {
    let config = Config { directory: Some(b("/srv/base")) };
    match handle(get_request("/files/name.txt"), &config) {
        HandlerOutcome::ReadFile { version, filename } => {
            assert_eq!(version, b("HTTP/1.1"));
            assert_eq!(filename, b("/srv/base/name.txt"));
        },
        HandlerOutcome::Done(_) => panic!("expected a file read"),
    }
}

#[test]
fn files_found_returns_bytes_with_length() {
    let content = vec![0u8, 159, 146, 150];
    let resp = finish_files(b("HTTP/1.1"), Some(content.clone()));
    assert_eq!(resp.code, StatusCode::Okay);
    assert_eq!(resp.content, content);
    assert_eq!(resp.headers.get(&b("Content-Length")), Some(&b("4")));
    assert_eq!(
        resp.headers.get(&b("Content-Type")),
        Some(&b("application/octet-stream"))
    );
}

#[test]
fn files_missing_is_not_found() {
    let resp = finish_files(b("HTTP/1.1"), None);
    assert_eq!(resp.code, StatusCode::NotFound);
    assert!(resp.content.is_empty());
}

#[test]
fn files_without_base_directory_is_server_error() {
    let resp = done(handle(get_request("/files/name.txt"), &Config { directory: None }));
    assert_eq!(resp.code, StatusCode::InternalServerError);
    assert!(resp.content.is_empty());
}

#[test]
fn post_any_path_is_not_found() {
    for path in ["/", "/echo/abc", "/user-agent", "/files/x", "/nope"] {
        let req = HttpRequest {
            method: HttpMethod::Post,
            path: b(path),
            version: b("HTTP/1.1"),
            headers: HeaderMap::new(),
        };
        let resp = done(handle(req, &Config { directory: Some(b("/srv")) }));
        assert_eq!(resp.code, StatusCode::NotFound);
        assert!(resp.content.is_empty());
    }
}

#[test]
fn post_handler_is_not_found() {
    let req = HttpRequest {
        method: HttpMethod::Post,
        path: b("/"),
        version: b("HTTP/1.0"),
        headers: HeaderMap::new(),
    };
    let resp = handle_post(req);
    assert_eq!(resp.code, StatusCode::NotFound);
    assert_eq!(resp.version, b("HTTP/1.0"));
}

#[test]
fn unknown_get_path_is_not_found() {
    let resp = done(handle_get(get_request("/nope"), &Config { directory: None }));
    assert_eq!(resp.code, StatusCode::NotFound);
    assert!(resp.content.is_empty());
    assert_eq!(resp.headers.len(), 0);
}

#[test]
fn parse_config_reads_directory_flag() {
    let args = vec![b("server"), b("--directory"), b("/srv/files")];
    let config = parse_config(&args);
    assert_eq!(config.directory, Some(b("/srv/files")));
}

#[test]
fn parse_config_without_flag_is_empty() {
    assert_eq!(parse_config(&vec![b("server")]).directory, None);
    assert_eq!(parse_config(&vec![b("server"), b("-d"), b("/srv")]).directory, None);
    assert_eq!(
        parse_config(&vec![b("server"), b("--directory"), b("/srv"), b("extra")]).directory,
        None
    );
}
