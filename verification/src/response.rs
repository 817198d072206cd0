//! Responses: a fixed set of status codes, builder methods, and the
//! serializer that renders a response into wire bytes.

use vstd::prelude::*;
use crate::bytes::{
    content_length_key, content_type_key, crlf, header_sep, octet_stream, push_all,
    spec_content_length_key, spec_content_type_key, spec_crlf, spec_header_sep,
    spec_octet_stream, spec_text_plain, text_plain,
};
use crate::headers::HeaderMap;
use crate::numeral::{spec_dec, u64_to_dec};
use crate::request::HttpRequest;

verus! {

/// The status codes the routes can produce, each a fixed code and reason
/// phrase pair.
#[derive(PartialEq, Eq, Structural, Clone, Copy, Debug)]
pub enum StatusCode {
    Okay,
    BadRequest,
    NotFound,
    InternalServerError,
}

impl StatusCode {
    /// The status-line text of the code: `"200 OK"` and its kin.
    pub open spec fn spec_phrase(self) -> Seq<u8> {
        match self {
            StatusCode::Okay => seq![50u8, 48u8, 48u8, 32u8, 79u8, 75u8],
            StatusCode::BadRequest => seq![
                52u8, 48u8, 48u8, 32u8, 66u8, 97u8, 100u8, 32u8, 82u8, 101u8, 113u8, 117u8,
                101u8, 115u8, 116u8,
            ],
            StatusCode::NotFound => seq![
                52u8, 48u8, 52u8, 32u8, 78u8, 111u8, 116u8, 32u8, 70u8, 111u8, 117u8, 110u8,
                100u8,
            ],
            StatusCode::InternalServerError => seq![
                53u8, 48u8, 48u8, 32u8, 73u8, 110u8, 116u8, 101u8, 114u8, 110u8, 97u8, 108u8,
                32u8, 83u8, 101u8, 114u8, 118u8, 101u8, 114u8, 32u8, 69u8, 114u8, 114u8, 111u8,
                114u8,
            ],
        }
    }

    pub fn phrase(&self) -> (r: Vec<u8>)
        ensures
            r@ == self.spec_phrase(),
    {
        match self {
            StatusCode::Okay => {
                let v: Vec<u8> = vec![50u8, 48u8, 48u8, 32u8, 79u8, 75u8];
                proof {
                    assert(v@ =~= self.spec_phrase());
                }
                v
            },
            StatusCode::BadRequest => {
                let v: Vec<u8> = vec![
                    52u8, 48u8, 48u8, 32u8, 66u8, 97u8, 100u8, 32u8, 82u8, 101u8, 113u8, 117u8,
                    101u8, 115u8, 116u8,
                ];
                proof {
                    assert(v@ =~= self.spec_phrase());
                }
                v
            },
            StatusCode::NotFound => {
                let v: Vec<u8> = vec![
                    52u8, 48u8, 52u8, 32u8, 78u8, 111u8, 116u8, 32u8, 70u8, 111u8, 117u8, 110u8,
                    100u8,
                ];
                proof {
                    assert(v@ =~= self.spec_phrase());
                }
                v
            },
            StatusCode::InternalServerError => {
                let v: Vec<u8> = vec![
                    53u8, 48u8, 48u8, 32u8, 73u8, 110u8, 116u8, 101u8, 114u8, 110u8, 97u8,
                    108u8, 32u8, 83u8, 101u8, 114u8, 118u8, 101u8, 114u8, 32u8, 69u8, 114u8,
                    114u8, 111u8, 114u8,
                ];
                proof {
                    assert(v@ =~= self.spec_phrase());
                }
                v
            },
        }
    }
}

/// A response under construction or ready to serialize.
pub struct HttpResponse {
    pub version: Vec<u8>,
    pub code: StatusCode,
    pub headers: HeaderMap,
    pub content: Vec<u8>,
}

impl HttpResponse {
    pub open spec fn wf(&self) -> bool {
        self.headers.wf()
    }
}

impl Default for HttpResponse {
    /// An empty response: no version, no headers, no content. The status
    /// starts as `NotFound` only as a placeholder; every handler sets the
    /// code before the response leaves it.
    fn default() -> (r: HttpResponse)
        ensures
            r.version@ == Seq::<u8>::empty(),
            r.code == StatusCode::NotFound,
            r.headers@ == Map::<Seq<u8>, Seq<u8>>::empty(),
            r.headers.entries_view() == Seq::<(Seq<u8>, Seq<u8>)>::empty(),
            r.content@ == Seq::<u8>::empty(),
            r.wf(),
    {
        HttpResponse {
            version: Vec::new(),
            code: StatusCode::NotFound,
            headers: HeaderMap::new(),
            content: Vec::new(),
        }
    }
}

impl HttpResponse {
    /// Copies the request's version into the response, leaving the rest.
    pub fn in_response_to(self, req: &HttpRequest) -> (r: HttpResponse)
        ensures
            r.version@ == req.version@,
            r.code == self.code,
            r.headers == self.headers,
            r.content == self.content,
    {
        HttpResponse {
            version: vstd::slice::slice_to_vec(req.version.as_slice()),
            code: self.code,
            headers: self.headers,
            content: self.content,
        }
    }

    /// Sets the status code, leaving the rest.
    pub fn with_code(self, code: StatusCode) -> (r: HttpResponse)
        ensures
            r.version == self.version,
            r.code == code,
            r.headers == self.headers,
            r.content == self.content,
    {
        HttpResponse { version: self.version, code, headers: self.headers, content: self.content }
    }

    /// Sets a text body: the content bytes, `Content-Type: text/plain`, and
    /// `Content-Length` in decimal.
    pub fn with_content(self, content: &Vec<u8>) -> (r: HttpResponse)
        requires
            self.wf(),
        ensures
            r.version == self.version,
            r.code == self.code,
            r.content@ == content@,
            r.headers@ == self.headers@.insert(spec_content_type_key(), spec_text_plain()).insert(
                spec_content_length_key(),
                spec_dec(content@.len() as nat),
            ),
            r.wf(),
    {
        let mut headers = self.headers;
        headers.insert(content_type_key(), text_plain());
        headers.insert(content_length_key(), u64_to_dec(content.len() as u64));
        HttpResponse {
            version: self.version,
            code: self.code,
            headers,
            content: vstd::slice::slice_to_vec(content.as_slice()),
        }
    }

    /// Sets a binary body: the content bytes,
    /// `Content-Type: application/octet-stream`, and `Content-Length` in
    /// decimal.
    pub fn with_binary_content(self, content: Vec<u8>) -> (r: HttpResponse)
        requires
            self.wf(),
        ensures
            r.version == self.version,
            r.code == self.code,
            r.content@ == content@,
            r.headers@ == self.headers@.insert(spec_content_type_key(), spec_octet_stream()).insert(
                spec_content_length_key(),
                spec_dec(content@.len() as nat),
            ),
            r.wf(),
    {
        let mut headers = self.headers;
        headers.insert(content_type_key(), octet_stream());
        headers.insert(content_length_key(), u64_to_dec(content.len() as u64));
        HttpResponse { version: self.version, code: self.code, headers, content }
    }
}

/// One serialized header line: `name`, `": "`, value, CRLF.
pub open spec fn spec_header_line(e: (Seq<u8>, Seq<u8>)) -> Seq<u8> {
    e.0 + spec_header_sep() + e.1 + spec_crlf()
}

/// The serialized header block, one line per entry, in entry order.
pub open spec fn spec_serialize_headers(es: Seq<(Seq<u8>, Seq<u8>)>) -> Seq<u8>
    decreases es.len(),
{
    if es.len() == 0 {
        Seq::empty()
    } else {
        spec_header_line(es[0]) + spec_serialize_headers(es.skip(1))
    }
}

pub proof fn lemma_serialize_headers_snoc(es: Seq<(Seq<u8>, Seq<u8>)>, e: (Seq<u8>, Seq<u8>))
    ensures
        spec_serialize_headers(es.push(e)) == spec_serialize_headers(es) + spec_header_line(e),
    decreases es.len(),
{
    if es.len() == 0 {
        assert(es.push(e)[0] == e);
        assert(es.push(e).skip(1) =~= es);
        assert(spec_serialize_headers(es.push(e)) == spec_header_line(e) + spec_serialize_headers(
            es,
        ));
        assert(spec_header_line(e) + spec_serialize_headers(es) =~= spec_serialize_headers(es)
            + spec_header_line(e));
    } else {
        assert(es.push(e).skip(1) =~= es.skip(1).push(e));
        lemma_serialize_headers_snoc(es.skip(1), e);
        assert(es.push(e)[0] == es[0]);
        assert(spec_header_line(es[0]) + (spec_serialize_headers(es.skip(1))
            + spec_header_line(e)) =~= (spec_header_line(es[0]) + spec_serialize_headers(
            es.skip(1),
        )) + spec_header_line(e));
    }
}

/// The wire form of a response: version, space, status phrase, CRLF, the
/// header lines in entry order, an empty line, then the raw content with
/// no trailing terminator.
pub open spec fn spec_serialize(resp: HttpResponse) -> Seq<u8> {
    resp.version@ + seq![32u8] + resp.code.spec_phrase() + spec_crlf() + spec_serialize_headers(
        resp.headers.entries_view(),
    ) + spec_crlf() + resp.content@
}

/// Renders the response into its exact wire bytes.
pub fn serialize_response(resp: &HttpResponse) -> (r: Vec<u8>)
    ensures
        r@ == spec_serialize(*resp),
{
    let mut out: Vec<u8> = Vec::new();
    push_all(&mut out, &resp.version);
    out.push(32u8);
    let ph = resp.code.phrase();
    push_all(&mut out, &ph);
    let crlf_bytes = crlf();
    push_all(&mut out, &crlf_bytes);
    let ghost head = resp.version@ + seq![32u8] + resp.code.spec_phrase() + spec_crlf();
    proof {
        assert(out@ =~= head);
        assert(resp.headers.entries_view().take(0) =~= Seq::<(Seq<u8>, Seq<u8>)>::empty());
        assert(out@ =~= head + spec_serialize_headers(resp.headers.entries_view().take(0)));
    }
    let ghost ev = resp.headers.entries_view();
    let sep = header_sep();
    let mut i: usize = 0;
    while i < resp.headers.entries.len()
        invariant
            0 <= i <= ev.len(),
            ev == resp.headers.entries_view(),
            sep@ == spec_header_sep(),
            crlf_bytes@ == spec_crlf(),
            out@ == head + spec_serialize_headers(ev.take(i as int)),
        decreases ev.len() - i,
    {
        let ghost before = out@;
        push_all(&mut out, &resp.headers.entries[i].0);
        push_all(&mut out, &sep);
        push_all(&mut out, &resp.headers.entries[i].1);
        push_all(&mut out, &crlf_bytes);
        proof {
            assert(ev[i as int] == (resp.headers.entries@[i as int].0@, resp.headers.entries@[
                i as int].1@));
            assert(out@ =~= before + spec_header_line(ev[i as int]));
            assert(ev.take(i + 1) =~= ev.take(i as int).push(ev[i as int]));
            lemma_serialize_headers_snoc(ev.take(i as int), ev[i as int]);
            assert(out@ =~= head + spec_serialize_headers(ev.take(i + 1)));
        }
        i += 1;
    }
    proof {
        assert(ev.take(ev.len() as int) =~= ev);
    }
    push_all(&mut out, &crlf_bytes);
    push_all(&mut out, &resp.content);
    proof {
        assert(out@ =~= spec_serialize(*resp));
    }
    out
}

} // verus!
