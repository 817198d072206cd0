//! The router and the route handlers. Dispatch for GET is first match over
//! an ordered list: exact `/`, exact `/user-agent`, prefix `/echo/`, prefix
//! `/files/`, then the not-found fallback; every POST is not found.
//!
//! Handlers are pure: the one route that needs the filesystem returns the
//! resolved file name as a `ReadFile` outcome, and the caller hands the
//! bytes it read (or the absence of them) to `finish_files`.

use vstd::prelude::*;
use crate::bytes::{
    bytes_eq, directory_flag, echo_prefix, files_prefix, push_all, root_path,
    spec_directory_flag, spec_echo_prefix, spec_files_prefix, spec_root_path,
    spec_user_agent_path, spec_user_agent_key, spec_content_length_key, spec_content_type_key,
    spec_octet_stream, spec_text_plain, starts_with, strip_prefix, user_agent_key,
    user_agent_path,
};
use crate::headers::HeaderMap;
use crate::numeral::spec_dec;
use crate::request::{HttpMethod, HttpRequest};
use crate::response::{HttpResponse, StatusCode};

verus! {

/// The startup configuration: an optional base directory for the
/// static-file route, fixed before any connection is handled.
#[derive(Clone)]
pub struct Config {
    pub directory: Option<Vec<u8>>,
}

impl Default for Config {
    fn default() -> (r: Config)
        ensures
            r.directory is None,
    {
        Config { directory: None }
    }
}

/// The base directory named by the command line: exactly three arguments
/// with `--directory` as the second select the third.
pub open spec fn spec_parse_config(args: Seq<Seq<u8>>) -> Option<Seq<u8>> {
    if args.len() == 3 && args[1] == spec_directory_flag() {
        Some(args[2])
    } else {
        None
    }
}

/// Reads the configuration out of the command-line arguments.
pub fn parse_config(args: &Vec<Vec<u8>>) -> (r: Config)
    ensures
        match r.directory {
            Some(d) => spec_parse_config(args@.map_values(|a: Vec<u8>| a@)) == Some(d@),
            None => spec_parse_config(args@.map_values(|a: Vec<u8>| a@)) is None,
        },
{
    let ghost argsv = args@.map_values(|a: Vec<u8>| a@);
    if args.len() == 3 {
        let flag = directory_flag();
        if bytes_eq(&args[1], &flag) {
            proof {
                assert(argsv[1] == args@[1]@);
                assert(argsv[2] == args@[2]@);
            }
            let d: Vec<u8> = vstd::slice::slice_to_vec(args[2].as_slice());
            return Config { directory: Some(d) };
        }
        proof {
            assert(argsv[1] == args@[1]@);
        }
        return Config { directory: None };
    }
    Config { directory: None }
}

/// What a handler decided: a finished response, or an order to read a file
/// and finish with its bytes.
pub enum HandlerOutcome {
    Done(HttpResponse),
    ReadFile { version: Vec<u8>, filename: Vec<u8> },
}

/// `r` answers `version` with `code`, an empty body and no headers.
pub open spec fn resp_empty(r: HttpResponse, version: Seq<u8>, code: StatusCode) -> bool {
    &&& r.version@ == version
    &&& r.code == code
    &&& r.content@ == Seq::<u8>::empty()
    &&& r.headers@ == Map::<Seq<u8>, Seq<u8>>::empty()
    &&& r.wf()
}

/// `r` answers `version` with `code` and `body` as plain text: the body
/// bytes themselves, `Content-Type: text/plain`, and `Content-Length`
/// equal to the byte length of the body.
pub open spec fn resp_text(r: HttpResponse, version: Seq<u8>, code: StatusCode, body: Seq<u8>) -> bool {
    &&& r.version@ == version
    &&& r.code == code
    &&& r.content@ == body
    &&& r.headers@ == Map::<Seq<u8>, Seq<u8>>::empty().insert(
        spec_content_type_key(),
        spec_text_plain(),
    ).insert(spec_content_length_key(), spec_dec(body.len()))
    &&& r.wf()
}

/// `r` answers `version` with status 200 and `body` as a binary file:
/// `Content-Type: application/octet-stream` and `Content-Length` equal to
/// the byte length of the body.
pub open spec fn resp_binary(r: HttpResponse, version: Seq<u8>, body: Seq<u8>) -> bool {
    &&& r.version@ == version
    &&& r.code == StatusCode::Okay
    &&& r.content@ == body
    &&& r.headers@ == Map::<Seq<u8>, Seq<u8>>::empty().insert(
        spec_content_type_key(),
        spec_octet_stream(),
    ).insert(spec_content_length_key(), spec_dec(body.len()))
    &&& r.wf()
}

/// What the static-file route decides. With no base directory configured
/// it is a server misconfiguration, 500, whatever the path. Otherwise the
/// file to read is the base directory, a slash, and the path after
/// `/files/`; a path without that prefix is a 400.
pub open spec fn spec_files_outcome(req: HttpRequest, config: Config, r: HandlerOutcome) -> bool {
    match config.directory {
        None => r matches HandlerOutcome::Done(resp) && resp_empty(
            resp,
            req.version@,
            StatusCode::InternalServerError,
        ),
        Some(d) => {
            if spec_files_prefix().is_prefix_of(req.path@) {
                r matches HandlerOutcome::ReadFile { version, filename } && version@
                    == req.version@ && filename@ == d@ + seq![47u8] + req.path@.skip(
                    spec_files_prefix().len() as int,
                )
            } else {
                r matches HandlerOutcome::Done(resp) && resp_empty(
                    resp,
                    req.version@,
                    StatusCode::BadRequest,
                )
            }
        },
    }
}

/// What a GET decides, route by route in dispatch order.
pub open spec fn spec_get_outcome(req: HttpRequest, config: Config, r: HandlerOutcome) -> bool {
    if req.path@ == spec_root_path() {
        r matches HandlerOutcome::Done(resp) && resp_empty(resp, req.version@, StatusCode::Okay)
    } else if req.path@ == spec_user_agent_path() {
        r matches HandlerOutcome::Done(resp) && (if req.headers@.contains_key(
            spec_user_agent_key(),
        ) {
            resp_text(
                resp,
                req.version@,
                StatusCode::Okay,
                req.headers@[spec_user_agent_key()],
            )
        } else {
            resp_empty(resp, req.version@, StatusCode::BadRequest)
        })
    } else if spec_echo_prefix().is_prefix_of(req.path@) {
        r matches HandlerOutcome::Done(resp) && resp_text(
            resp,
            req.version@,
            StatusCode::Okay,
            req.path@.skip(spec_echo_prefix().len() as int),
        )
    } else if spec_files_prefix().is_prefix_of(req.path@) {
        spec_files_outcome(req, config, r)
    } else {
        r matches HandlerOutcome::Done(resp) && resp_empty(resp, req.version@, StatusCode::NotFound)
    }
}

/// Dispatches a parsed request: GET routes by path, POST is always not
/// found, whatever the path.
pub fn handle(req: HttpRequest, config: &Config) -> (r: HandlerOutcome)
    requires
        req.wf(),
    ensures
        req.method == HttpMethod::Get ==> spec_get_outcome(req, *config, r),
        req.method == HttpMethod::Post ==> (r matches HandlerOutcome::Done(resp) && resp_empty(
            resp,
            req.version@,
            StatusCode::NotFound,
        )),
{
    match req.method {
        HttpMethod::Get => handle_get(req, config),
        HttpMethod::Post => HandlerOutcome::Done(handle_post(req)),
    }
}

/// Routes a GET: exact `/`, exact `/user-agent`, prefix `/echo/`, prefix
/// `/files/`, first match wins, else not found with an empty body.
pub fn handle_get(req: HttpRequest, config: &Config) -> (r: HandlerOutcome)
    requires
        req.wf(),
    ensures
        spec_get_outcome(req, *config, r),
{
    let root = root_path();
    if bytes_eq(&req.path, &root) {
        let resp = HttpResponse::default().in_response_to(&req).with_code(StatusCode::Okay);
        return HandlerOutcome::Done(resp);
    }
    let uap = user_agent_path();
    if bytes_eq(&req.path, &uap) {
        return HandlerOutcome::Done(handle_user_agent(req));
    }
    let ep = echo_prefix();
    if starts_with(&req.path, &ep) {
        return HandlerOutcome::Done(handle_echo(req));
    }
    let fp = files_prefix();
    if starts_with(&req.path, &fp) {
        return handle_files(req, config);
    }
    let resp = HttpResponse::default().in_response_to(&req).with_code(StatusCode::NotFound);
    HandlerOutcome::Done(resp)
}

/// Every POST path is not found: there are no POST routes.
pub fn handle_post(req: HttpRequest) -> (r: HttpResponse)
    ensures
        resp_empty(r, req.version@, StatusCode::NotFound),
{
    HttpResponse::default().in_response_to(&req).with_code(StatusCode::NotFound)
}

/// Echoes the remainder of the path after `/echo/`, verbatim, slashes
/// included, as a text body. A path without the prefix (unreachable
/// through the router) is a 400.
pub fn handle_echo(req: HttpRequest) -> (r: HttpResponse)
    requires
        req.wf(),
    ensures
        spec_echo_prefix().is_prefix_of(req.path@) ==> resp_text(
            r,
            req.version@,
            StatusCode::Okay,
            req.path@.skip(spec_echo_prefix().len() as int),
        ),
        !spec_echo_prefix().is_prefix_of(req.path@) ==> resp_empty(
            r,
            req.version@,
            StatusCode::BadRequest,
        ),
{
    let ep = echo_prefix();
    match strip_prefix(&req.path, &ep) {
        Some(msg) => HttpResponse::default().in_response_to(&req).with_code(
            StatusCode::Okay,
        ).with_content(&msg),
        None => HttpResponse::default().in_response_to(&req).with_code(StatusCode::BadRequest),
    }
}

/// Answers with the `User-Agent` header's value as a text body, looked up
/// by exact bytes; without the header, a 400 with an empty body.
pub fn handle_user_agent(req: HttpRequest) -> (r: HttpResponse)
    requires
        req.wf(),
    ensures
        req.headers@.contains_key(spec_user_agent_key()) ==> resp_text(
            r,
            req.version@,
            StatusCode::Okay,
            req.headers@[spec_user_agent_key()],
        ),
        !req.headers@.contains_key(spec_user_agent_key()) ==> resp_empty(
            r,
            req.version@,
            StatusCode::BadRequest,
        ),
{
    let ua = user_agent_key();
    match req.headers.get(&ua) {
        Some(v) => {
            let body: Vec<u8> = vstd::slice::slice_to_vec(v.as_slice());
            HttpResponse::default().in_response_to(&req).with_code(StatusCode::Okay).with_content(
                &body,
            )
        },
        None => HttpResponse::default().in_response_to(&req).with_code(StatusCode::BadRequest),
    }
}

/// The static-file route up to the filesystem's edge: 500 with no base
/// directory, 400 when the prefix cannot be stripped, else the resolved
/// file name to read. The name is joined verbatim; nothing sanitizes `..`
/// segments away.
pub fn handle_files(req: HttpRequest, config: &Config) -> (r: HandlerOutcome)
    requires
        req.wf(),
    ensures
        spec_files_outcome(req, *config, r),
{
    let rsp = HttpResponse::default().in_response_to(&req);
    match &config.directory {
        None => HandlerOutcome::Done(rsp.with_code(StatusCode::InternalServerError)),
        Some(dir) => {
            let fp = files_prefix();
            match strip_prefix(&req.path, &fp) {
                None => HandlerOutcome::Done(rsp.with_code(StatusCode::BadRequest)),
                Some(name) => {
                    let mut filename: Vec<u8> = vstd::slice::slice_to_vec(dir.as_slice());
                    filename.push(47u8);
                    push_all(&mut filename, &name);
                    proof {
                        assert(filename@ =~= dir@ + seq![47u8] + name@);
                    }
                    HandlerOutcome::ReadFile { version: rsp.version, filename }
                },
            }
        },
    }
}

/// Finishes the static-file route with what the filesystem gave: the raw
/// bytes as a 200 with binary content headers, or a 404 with an empty body
/// when the file could not be read, whatever the reason.
pub fn finish_files(version: Vec<u8>, content: Option<Vec<u8>>) -> (r: HttpResponse)
    ensures
        match content {
            Some(c) => resp_binary(r, version@, c@),
            None => resp_empty(r, version@, StatusCode::NotFound),
        },
{
    let base = HttpResponse {
        version,
        code: StatusCode::NotFound,
        headers: HeaderMap::new(),
        content: Vec::new(),
    };
    match content {
        Some(c) => base.with_code(StatusCode::Okay).with_binary_content(c),
        None => base,
    }
}

} // verus!
