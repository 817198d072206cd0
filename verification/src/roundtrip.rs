//! Symmetry between the serializer and the line reader: re-reading a
//! serialized response with the line reader yields the start line, one
//! line per header entry, and the body bytes untouched; re-splitting the
//! header lines yields the response's header map exactly.
//!
//! This holds for every response whose version and header entries keep
//! away from the framing bytes: no LF anywhere in them, and no `": "`
//! inside a header name. The serializer does not escape, so a value that
//! embeds a CRLF really does break framing; such responses are excluded
//! here and are never built by the handlers.

use vstd::prelude::*;
use crate::bytes::{spec_crlf, spec_header_sep};
use crate::headers::map_of_entries;
use crate::lines::{spec_read_lines, spec_take_line};
use crate::request::{spec_headers_of, spec_split_header, lemma_split_header_at};
use crate::response::{
    HttpResponse, spec_header_line, spec_serialize, spec_serialize_headers,
};

verus! {

/// No LF byte anywhere in `s`.
pub open spec fn lf_free(s: Seq<u8>) -> bool {
    forall|k: int| 0 <= k < s.len() ==> s[k] != 10
}

/// No `": "` pair anywhere in `s`.
pub open spec fn sep_free(s: Seq<u8>) -> bool {
    forall|k: int| #![trigger s[k]] 0 <= k && k + 2 <= s.len() ==> !(s[k] == 58 && s[k + 1] == 32)
}

/// A header entry that survives framing: name and value without LF, and a
/// name without the separator.
pub open spec fn entry_clean(e: (Seq<u8>, Seq<u8>)) -> bool {
    lf_free(e.0) && lf_free(e.1) && sep_free(e.0)
}

/// The serialized form of one header entry without its terminator.
pub open spec fn spec_entry_line(e: (Seq<u8>, Seq<u8>)) -> Seq<u8> {
    e.0 + spec_header_sep() + e.1
}

/// A block of lines, each terminated by CRLF.
pub open spec fn spec_lines_block(lines: Seq<Seq<u8>>) -> Seq<u8>
    decreases lines.len(),
{
    if lines.len() == 0 {
        Seq::empty()
    } else {
        lines[0] + spec_crlf() + spec_lines_block(lines.skip(1))
    }
}

/// An LF-free line followed by CRLF and anything else reads back as
/// exactly that line, leaving the rest.
pub proof fn lemma_take_line_framed(line: Seq<u8>, rest: Seq<u8>)
    requires
        lf_free(line),
    ensures
        spec_take_line(line + spec_crlf() + rest) == Some((line, rest)),
    decreases line.len(),
{
    let data = line + spec_crlf() + rest;
    if line.len() == 0 {
        assert(data[0] == 13 && data[1] == 10);
        assert(data.skip(2) =~= rest);
        assert(line =~= Seq::<u8>::empty());
    } else {
        assert(data[0] == line[0]);
        assert(data[0] != 10);
        if line.len() == 1 {
            assert(data[1] == 13);
        } else {
            assert(data[1] == line[1]);
        }
        assert(!(data[0] == 13 && data.len() >= 2 && data[1] == 10));
        let tail = line.skip(1);
        assert(lf_free(tail));
        lemma_take_line_framed(tail, rest);
        assert(data.skip(1) =~= tail + spec_crlf() + rest);
        assert(seq![line[0]] + tail =~= line);
    }
}

/// A block of nonempty, LF-free lines followed by the empty line and a
/// body reads back as exactly those lines and that body.
pub proof fn lemma_read_lines_framed(lines: Seq<Seq<u8>>, body: Seq<u8>)
    requires
        forall|i: int| 0 <= i < lines.len() ==> (#[trigger] lines[i]).len() > 0 && lf_free(
            lines[i],
        ),
    ensures
        spec_read_lines(spec_lines_block(lines) + spec_crlf() + body) == Some((lines, body)),
    decreases lines.len(),
{
    let data = spec_lines_block(lines) + spec_crlf() + body;
    if lines.len() == 0 {
        assert(data =~= Seq::<u8>::empty() + spec_crlf() + body);
        lemma_take_line_framed(Seq::<u8>::empty(), body);
        assert(spec_take_line(data) == Some((Seq::<u8>::empty(), body)));
        assert(lines =~= Seq::<Seq<u8>>::empty());
    } else {
        let tail = lines.skip(1);
        let rest = spec_lines_block(tail) + spec_crlf() + body;
        assert(data =~= lines[0] + spec_crlf() + rest);
        lemma_take_line_framed(lines[0], rest);
        assert(spec_take_line(data) == Some((lines[0], rest)));
        assert(lines[0].len() > 0);
        assert(forall|i: int| 0 <= i < tail.len() ==> (#[trigger] tail[i]).len() > 0 && lf_free(
            tail[i],
        ));
        lemma_read_lines_framed(tail, body);
        assert(seq![lines[0]] + tail =~= lines);
    }
}

/// The serialized header block is the line block of the entry lines.
pub proof fn lemma_serialize_headers_as_block(es: Seq<(Seq<u8>, Seq<u8>)>)
    ensures
        spec_serialize_headers(es) == spec_lines_block(
            es.map_values(|e: (Seq<u8>, Seq<u8>)| spec_entry_line(e)),
        ),
    decreases es.len(),
{
    let lines = es.map_values(|e: (Seq<u8>, Seq<u8>)| spec_entry_line(e));
    if es.len() == 0 {
        assert(lines.len() == 0);
    } else {
        lemma_serialize_headers_as_block(es.skip(1));
        assert(lines[0] == spec_entry_line(es[0]));
        assert(lines.skip(1) =~= es.skip(1).map_values(
            |e: (Seq<u8>, Seq<u8>)| spec_entry_line(e),
        ));
        assert(spec_header_line(es[0]) =~= spec_entry_line(es[0]) + spec_crlf());
        assert(spec_header_line(es[0]) + spec_serialize_headers(es.skip(1)) =~= lines[0]
            + spec_crlf() + spec_lines_block(lines.skip(1)));
    }
}

/// A clean entry's line splits back into exactly the entry.
pub proof fn lemma_entry_line_splits(e: (Seq<u8>, Seq<u8>))
    requires
        entry_clean(e),
    ensures
        spec_split_header(spec_entry_line(e)) == Some(e),
{
    let line = spec_entry_line(e);
    let j = e.0.len() as int;
    assert(line[j] == 58 && line[j + 1] == 32);
    assert forall|k: int| #![trigger line[k]] 0 <= k < j implies !(line[k] == 58 && line[k + 1]
        == 32) by {
        assert(line[k] == e.0[k]);
        if k + 1 < j {
            assert(line[k + 1] == e.0[k + 1]);
        } else {
            assert(line[k + 1] == 58);
        }
    }
    lemma_split_header_at(line, j);
    assert(line.subrange(0, j) =~= e.0);
    assert(line.skip(j + 2) =~= e.1);
}

/// Re-splitting the entry lines of clean entries rebuilds their map.
pub proof fn lemma_headers_of_entry_lines(es: Seq<(Seq<u8>, Seq<u8>)>)
    requires
        forall|i: int| 0 <= i < es.len() ==> entry_clean(#[trigger] es[i]),
    ensures
        spec_headers_of(es.map_values(|e: (Seq<u8>, Seq<u8>)| spec_entry_line(e)))
            == map_of_entries(es),
    decreases es.len(),
{
    let lines = es.map_values(|e: (Seq<u8>, Seq<u8>)| spec_entry_line(e));
    if es.len() > 0 {
        assert(lines.drop_last() =~= es.drop_last().map_values(
            |e: (Seq<u8>, Seq<u8>)| spec_entry_line(e),
        ));
        assert(forall|i: int|
            0 <= i < es.drop_last().len() ==> entry_clean(#[trigger] es.drop_last()[i]));
        lemma_headers_of_entry_lines(es.drop_last());
        assert(es[es.len() - 1] == es.last());
        lemma_entry_line_splits(es.last());
        assert(lines.last() == spec_entry_line(es.last()));
    }
}

/// Round trip: reading the serialized bytes of a response back with the
/// line reader yields the start line and one line per header entry,
/// leaves the body bytes identical, and re-splitting the header lines
/// yields the response's header map — the same header set, order aside.
pub proof fn lemma_serialize_roundtrip(resp: HttpResponse)
    requires
        lf_free(resp.version@),
        forall|i: int|
            0 <= i < resp.headers.entries_view().len() ==> entry_clean(
                #[trigger] resp.headers.entries_view()[i],
            ),
    ensures
        ({
            let start = resp.version@ + seq![32u8] + resp.code.spec_phrase();
            &&& spec_read_lines(spec_serialize(resp)) matches Some(p)
            &&& p.1 == resp.content@
            &&& p.0.len() == 1 + resp.headers.entries_view().len()
            &&& p.0[0] == start
            &&& spec_headers_of(p.0.skip(1)) == resp.headers@
        }),
{
    let ev = resp.headers.entries_view();
    let hdr_lines = ev.map_values(|e: (Seq<u8>, Seq<u8>)| spec_entry_line(e));
    let start = resp.version@ + seq![32u8] + resp.code.spec_phrase();
    let all_lines = seq![start] + hdr_lines;
    lemma_phrase_no_lf(resp.code);
    assert(start.len() > 0);
    assert forall|k: int| 0 <= k < start.len() implies start[k] != 10 by {
        if k < resp.version@.len() {
            assert(start[k] == resp.version@[k]);
        } else if k == resp.version@.len() {
            assert(start[k] == 32);
        } else {
            assert(start[k] == resp.code.spec_phrase()[k - resp.version@.len() - 1]);
        }
    }
    assert forall|i: int| 0 <= i < all_lines.len() implies (#[trigger] all_lines[i]).len() > 0
        && lf_free(all_lines[i]) by {
        if i > 0 {
            let e = ev[i - 1];
            let line = spec_entry_line(e);
            assert(all_lines[i] == line);
            assert(entry_clean(e));
            assert(line.len() >= 2);
            assert forall|k: int| 0 <= k < line.len() implies line[k] != 10 by {
                if k < e.0.len() {
                    assert(line[k] == e.0[k]);
                } else if k == e.0.len() {
                    assert(line[k] == 58);
                } else if k == e.0.len() + 1 {
                    assert(line[k] == 32);
                } else {
                    assert(line[k] == e.1[k - e.0.len() - 2]);
                }
            }
        }
    }
    lemma_serialize_headers_as_block(ev);
    assert(all_lines[0] == start);
    assert(all_lines.skip(1) =~= hdr_lines);
    assert(spec_lines_block(all_lines) == start + spec_crlf() + spec_lines_block(hdr_lines));
    assert(spec_serialize(resp) =~= spec_lines_block(all_lines) + spec_crlf() + resp.content@);
    lemma_read_lines_framed(all_lines, resp.content@);
    assert(spec_read_lines(spec_serialize(resp)) == Some((all_lines, resp.content@)));
    assert(all_lines.skip(1) =~= hdr_lines);
    lemma_headers_of_entry_lines(ev);
}

/// No status phrase holds an LF byte, and none is empty.
pub proof fn lemma_phrase_no_lf(c: crate::response::StatusCode)
    ensures
        c.spec_phrase().len() > 0,
        lf_free(c.spec_phrase()),
{
    let p = c.spec_phrase();
    assert forall|k: int| 0 <= k < p.len() implies p[k] != 10 by {
        match c {
            crate::response::StatusCode::Okay => {
                assert(p =~= seq![50u8, 48u8, 48u8, 32u8, 79u8, 75u8]);
            },
            crate::response::StatusCode::BadRequest => {},
            crate::response::StatusCode::NotFound => {},
            crate::response::StatusCode::InternalServerError => {},
        }
    }
}

} // verus!
