//! The request parser: turns the line sequence of the line reader into a
//! structured request, or rejects it.
//!
//! The start line splits on single spaces into method, path and version;
//! the method must be exactly `GET` or `POST`. Every later line that holds
//! the separator `": "` becomes a header, a later duplicate name winning;
//! lines without the separator are dropped silently.

use vstd::prelude::*;
use crate::bytes::{bytes_eq, method_get, method_post, spec_method_get, spec_method_post};
use crate::error::HttpError;
use crate::headers::HeaderMap;

verus! {

#[derive(PartialEq, Eq, Structural, Clone, Copy, Debug)]
pub enum HttpMethod {
    Get,
    Post,
}

/// A parsed request. The version is echoed verbatim and never validated;
/// header lookup elsewhere is by exact bytes.
pub struct HttpRequest {
    pub method: HttpMethod,
    pub path: Vec<u8>,
    pub version: Vec<u8>,
    pub headers: HeaderMap,
}

/// The abstract value of a request.
pub struct ReqModel {
    pub method: HttpMethod,
    pub path: Seq<u8>,
    pub version: Seq<u8>,
    pub headers: Map<Seq<u8>, Seq<u8>>,
}

impl HttpRequest {
    pub open spec fn wf(&self) -> bool {
        self.headers.wf()
    }
}

impl View for HttpRequest {
    type V = ReqModel;

    open spec fn view(&self) -> ReqModel {
        ReqModel {
            method: self.method,
            path: self.path@,
            version: self.version@,
            headers: self.headers@,
        }
    }
}

/// Splits on every single space byte, as splitting a string on `" "` does:
/// consecutive spaces yield empty tokens, and the result always holds at
/// least one token.
pub open spec fn spec_split_sp(s: Seq<u8>) -> Seq<Seq<u8>>
    decreases s.len(),
{
    if s.len() == 0 {
        seq![Seq::empty()]
    } else if s[0] == 32 {
        seq![Seq::<u8>::empty()] + spec_split_sp(s.skip(1))
    } else {
        let rest = spec_split_sp(s.skip(1));
        seq![seq![s[0]] + rest[0]] + rest.skip(1)
    }
}

pub proof fn lemma_split_sp_len(s: Seq<u8>)
    ensures
        spec_split_sp(s).len() >= 1,
    decreases s.len(),
{
    if s.len() > 0 {
        lemma_split_sp_len(s.skip(1));
    }
}

/// Splits the whole line on single spaces.
pub fn split_spaces(line: &Vec<u8>) -> (r: Vec<Vec<u8>>)
    ensures
        r@.map_values(|t: Vec<u8>| t@) == spec_split_sp(line@),
{
    let mut toks: Vec<Vec<u8>> = Vec::new();
    let mut cur: Vec<u8> = Vec::new();
    let mut i: usize = 0;
    proof {
        assert(line@.skip(0) =~= line@);
        lemma_split_sp_len(line@);
        let s0 = spec_split_sp(line@);
        assert(toks@.map_values(|t: Vec<u8>| t@) + seq![cur@ + s0[0]] + s0.skip(1) =~= s0);
    }
    while i < line.len()
        invariant
            0 <= i <= line@.len(),
            spec_split_sp(line@.skip(i as int)).len() >= 1,
            spec_split_sp(line@) == toks@.map_values(|t: Vec<u8>| t@) + seq![
                cur@ + spec_split_sp(line@.skip(i as int))[0],
            ] + spec_split_sp(line@.skip(i as int)).skip(1),
        decreases line@.len() - i,
    {
        let ghost s = spec_split_sp(line@.skip(i as int));
        let ghost toksv = toks@.map_values(|t: Vec<u8>| t@);
        let ghost curv = cur@;
        proof {
            assert(line@.skip(i as int).skip(1) =~= line@.skip(i + 1));
            lemma_split_sp_len(line@.skip(i + 1));
        }
        let ghost s2 = spec_split_sp(line@.skip(i + 1));
        let b: u8 = line[i];
        proof {
            assert(line@.skip(i as int)[0] == b);
        }
        if b == 32 {
            toks.push(cur);
            cur = Vec::new();
            proof {
                assert(s == seq![Seq::<u8>::empty()] + s2);
                assert(s[0] =~= Seq::<u8>::empty());
                assert(curv + s[0] =~= curv);
                assert(s.skip(1) =~= s2);
                assert(toks@.map_values(|t: Vec<u8>| t@) =~= toksv.push(curv));
                assert(cur@ + s2[0] =~= s2[0]);
                assert(toksv + seq![curv] + s2 =~= toksv.push(curv) + seq![s2[0]] + s2.skip(1));
            }
        } else {
            cur.push(b);
            proof {
                assert(s == seq![seq![b] + s2[0]] + s2.skip(1));
                assert(s[0] == seq![b] + s2[0]);
                assert(cur@ + s2[0] =~= curv + s[0]);
                assert(s.skip(1) =~= s2.skip(1));
            }
        }
        i += 1;
    }
    let ghost toksv = toks@.map_values(|t: Vec<u8>| t@);
    proof {
        assert(line@.skip(line@.len() as int) =~= Seq::<u8>::empty());
        let s_end = spec_split_sp(Seq::<u8>::empty());
        assert(s_end == seq![Seq::<u8>::empty()]);
        assert(cur@ + s_end[0] =~= cur@);
        assert(toksv + seq![cur@ + s_end[0]] + s_end.skip(1) =~= toksv.push(cur@));
    }
    toks.push(cur);
    proof {
        assert(toks@.map_values(|t: Vec<u8>| t@) =~= toksv.push(cur@));
    }
    toks
}

/// Splits a header line at the first `": "` into name and value; `None`
/// when the line holds no such separator.
pub open spec fn spec_split_header(line: Seq<u8>) -> Option<(Seq<u8>, Seq<u8>)>
    decreases line.len(),
{
    if line.len() >= 2 && line[0] == 58 && line[1] == 32 {
        Some((Seq::empty(), line.skip(2)))
    } else if line.len() == 0 {
        None
    } else {
        match spec_split_header(line.skip(1)) {
            None => None,
            Some(p) => Some((seq![line[0]] + p.0, p.1)),
        }
    }
}

/// Where the first `": "` of `line` sits at `j`, the split happens there.
pub proof fn lemma_split_header_at(line: Seq<u8>, j: int)
    requires
        0 <= j,
        j + 2 <= line.len(),
        line[j] == 58,
        line[j + 1] == 32,
        forall|k: int| #![trigger line[k]] 0 <= k < j ==> !(line[k] == 58 && line[k + 1] == 32),
    ensures
        spec_split_header(line) == Some((line.subrange(0, j), line.skip(j + 2))),
    decreases j,
{
    if j == 0 {
        assert(line.subrange(0, 0) =~= Seq::<u8>::empty());
    } else {
        let rest = line.skip(1);
        assert(rest[j - 1] == 58 && rest[j] == 32);
        assert(forall|k: int| #![trigger rest[k]] 0 <= k < j - 1 ==> !(rest[k] == 58 && rest[k + 1] == 32));
        lemma_split_header_at(rest, j - 1);
        assert(!(line[0] == 58 && line[1] == 32));
        assert(seq![line[0]] + rest.subrange(0, j - 1) =~= line.subrange(0, j));
        assert(rest.skip(j + 1) =~= line.skip(j + 2));
    }
}

/// A line without `": "` anywhere does not split.
pub proof fn lemma_split_header_none(line: Seq<u8>)
    requires
        forall|k: int| #![trigger line[k]] 0 <= k && k + 2 <= line.len() ==> !(line[k] == 58 && line[k + 1] == 32),
    ensures
        spec_split_header(line) is None,
    decreases line.len(),
{
    if line.len() > 0 {
        let rest = line.skip(1);
        assert(forall|k: int| #![trigger rest[k]] 0 <= k && k + 2 <= rest.len() ==> !(rest[k] == 58 && rest[k + 1] == 32));
        lemma_split_header_none(rest);
    }
}

/// Splits a header line at the first `": "`.
pub fn split_header_line(line: &Vec<u8>) -> (r: Option<(Vec<u8>, Vec<u8>)>)
    ensures
        match r {
            Some(kv) => spec_split_header(line@) == Some((kv.0@, kv.1@)),
            None => spec_split_header(line@) is None,
        },
{
    let n: usize = line.len();
    if n < 2 {
        proof {
            lemma_split_header_none(line@);
        }
        return None;
    }
    let mut j: usize = 0;
    while j <= n - 2 && !(line[j] == 58 && line[j + 1] == 32)
        invariant
            n == line@.len(),
            2 <= n,
            0 <= j,
            j <= n - 1,
            forall|k: int| #![trigger line@[k]] 0 <= k < j ==> !(line@[k] == 58 && line@[k + 1] == 32),
        decreases n - j,
    {
        j += 1;
    }
    if j > n - 2 {
        proof {
            lemma_split_header_none(line@);
        }
        return None;
    }
    proof {
        lemma_split_header_at(line@, j as int);
    }
    let k_slice: &[u8] = vstd::slice::slice_subrange(line.as_slice(), 0, j);
    let v_slice: &[u8] = vstd::slice::slice_subrange(line.as_slice(), j + 2, n);
    let key: Vec<u8> = vstd::slice::slice_to_vec(k_slice);
    let val: Vec<u8> = vstd::slice::slice_to_vec(v_slice);
    proof {
        assert(line@.subrange(j + 2, n as int) =~= line@.skip(j + 2));
    }
    Some((key, val))
}

/// The header map described by a sequence of header lines: each line that
/// splits at `": "` contributes its pair, later lines winning; lines that
/// do not split are dropped.
pub open spec fn spec_headers_of(lines: Seq<Seq<u8>>) -> Map<Seq<u8>, Seq<u8>>
    decreases lines.len(),
{
    if lines.len() == 0 {
        Map::empty()
    } else {
        let m = spec_headers_of(lines.drop_last());
        match spec_split_header(lines.last()) {
            None => m,
            Some(kv) => m.insert(kv.0, kv.1),
        }
    }
}

/// What parsing a line sequence yields: the request model, or the exact
/// error. The method token is judged before the start line's arity, as the
/// token order of the start line is consumed left to right.
pub open spec fn spec_parse_request(lines: Seq<Seq<u8>>) -> Result<ReqModel, HttpError> {
    if lines.len() == 0 {
        Err(HttpError::MissingStartLine)
    } else {
        let toks = spec_split_sp(lines[0]);
        if toks[0] != spec_method_get() && toks[0] != spec_method_post() {
            Err(HttpError::UnsupportedMethod)
        } else if toks.len() < 3 {
            Err(HttpError::MissingStartLineField)
        } else {
            Ok(
                ReqModel {
                    method: if toks[0] == spec_method_get() {
                        HttpMethod::Get
                    } else {
                        HttpMethod::Post
                    },
                    path: toks[1],
                    version: toks[2],
                    headers: spec_headers_of(lines.skip(1)),
                },
            )
        }
    }
}

/// Parses the header-block lines into a request: exactly the value of
/// `spec_parse_request`, with a well-formed header map on success.
pub fn read_request(lines: Vec<Vec<u8>>) -> (r: Result<HttpRequest, HttpError>)
    ensures
        match r {
            Ok(req) => spec_parse_request(lines@.map_values(|l: Vec<u8>| l@)) == Ok::<
                ReqModel,
                HttpError,
            >(req@) && req.wf(),
            Err(e) => spec_parse_request(lines@.map_values(|l: Vec<u8>| l@)) == Err::<
                ReqModel,
                HttpError,
            >(e),
        },
{
    let ghost linesv = lines@.map_values(|l: Vec<u8>| l@);
    if lines.len() == 0 {
        return Err(HttpError::MissingStartLine);
    }
    let toks: Vec<Vec<u8>> = split_spaces(&lines[0]);
    let ghost toksv = spec_split_sp(linesv[0]);
    proof {
        assert(lines@[0]@ == linesv[0]);
        lemma_split_sp_len(linesv[0]);
        assert(toks@.map_values(|t: Vec<u8>| t@)[0] == toksv[0]);
    }
    let get_bytes = method_get();
    let post_bytes = method_post();
    let is_get = bytes_eq(&toks[0], &get_bytes);
    let is_post = bytes_eq(&toks[0], &post_bytes);
    if !is_get && !is_post {
        return Err(HttpError::UnsupportedMethod);
    }
    let method = if is_get {
        HttpMethod::Get
    } else {
        HttpMethod::Post
    };
    if toks.len() < 3 {
        return Err(HttpError::MissingStartLineField);
    }
    proof {
        assert(toks@.map_values(|t: Vec<u8>| t@)[1] == toksv[1]);
        assert(toks@.map_values(|t: Vec<u8>| t@)[2] == toksv[2]);
    }
    let path: Vec<u8> = vstd::slice::slice_to_vec(toks[1].as_slice());
    let version: Vec<u8> = vstd::slice::slice_to_vec(toks[2].as_slice());
    let mut headers = HeaderMap::new();
    let mut idx: usize = 1;
    proof {
        assert(linesv.subrange(1, 1) =~= Seq::<Seq<u8>>::empty());
    }
    while idx < lines.len()
        invariant
            1 <= idx <= lines@.len(),
            linesv == lines@.map_values(|l: Vec<u8>| l@),
            headers.wf(),
            headers@ == spec_headers_of(linesv.subrange(1, idx as int)),
        decreases lines@.len() - idx,
    {
        let ghost prefix = linesv.subrange(1, idx as int);
        proof {
            assert(lines@[idx as int]@ == linesv[idx as int]);
            assert(linesv.subrange(1, idx + 1).drop_last() =~= prefix);
            assert(linesv.subrange(1, idx + 1).last() == linesv[idx as int]);
        }
        match split_header_line(&lines[idx]) {
            Some(kv) => {
                headers.insert(kv.0, kv.1);
            },
            None => {},
        }
        idx += 1;
    }
    proof {
        assert(linesv.subrange(1, linesv.len() as int) =~= linesv.skip(1));
    }
    Ok(HttpRequest { method, path, version, headers })
}

/// A start line with fewer than three space-separated tokens never parses:
/// the request is rejected before any routing, so the connection closes
/// with no response bytes written.
pub proof fn lemma_short_start_line_rejected(lines: Seq<Seq<u8>>)
    requires
        lines.len() > 0,
        spec_split_sp(lines[0]).len() < 3,
    ensures
        spec_parse_request(lines) is Err,
{
}

} // verus!
