//! The line reader: splits the header block of a byte stream into
//! CRLF-terminated lines, up to and including the empty line that ends the
//! block. Bytes after the empty line are left untouched.

use vstd::prelude::*;
use crate::error::HttpError;

verus! {

/// Takes one line off the front of `data`: the bytes before the first LF,
/// which must be preceded by a CR; both terminator bytes are consumed and
/// stripped. `None` when there is no LF, or the byte before the first LF is
/// not a CR.
pub open spec fn spec_take_line(data: Seq<u8>) -> Option<(Seq<u8>, Seq<u8>)>
    decreases data.len(),
{
    if data.len() == 0 {
        None
    } else if data[0] == 10 {
        None
    } else if data[0] == 13 && data.len() >= 2 && data[1] == 10 {
        Some((Seq::empty(), data.skip(2)))
    } else {
        match spec_take_line(data.skip(1)) {
            None => None,
            Some(p) => Some((seq![data[0]] + p.0, p.1)),
        }
    }
}

/// A taken line and its terminator account for the consumed bytes.
pub proof fn lemma_take_line_len(data: Seq<u8>)
    ensures
        spec_take_line(data) matches Some(p) ==> p.0.len() + 2 + p.1.len() == data.len(),
    decreases data.len(),
{
    if data.len() > 0 && data[0] != 10 && !(data[0] == 13 && data.len() >= 2 && data[1] == 10) {
        lemma_take_line_len(data.skip(1));
    }
}

#[via_fn]
proof fn spec_read_lines_decreases(data: Seq<u8>) {
    lemma_take_line_len(data);
}

/// Reads lines until the empty line that terminates the header block. The
/// empty line is consumed but not yielded; the bytes after it are returned
/// unread. `None` when any line is malformed or the data ends before the
/// terminating empty line.
pub open spec fn spec_read_lines(data: Seq<u8>) -> Option<(Seq<Seq<u8>>, Seq<u8>)>
    decreases data.len(),
    via spec_read_lines_decreases
{
    match spec_take_line(data) {
        None => None,
        Some(p) => {
            if p.0.len() == 0 {
                Some((Seq::empty(), p.1))
            } else {
                match spec_read_lines(p.1) {
                    None => None,
                    Some(q) => Some((seq![p.0] + q.0, q.1)),
                }
            }
        },
    }
}

/// Where the first LF of `data` sits at `j`, the first line is decided
/// there: content up to the CR before it, or a malformed line.
proof fn lemma_take_line_at(data: Seq<u8>, j: int)
    requires
        0 <= j < data.len(),
        data[j] == 10,
        forall|k: int| 0 <= k < j ==> data[k] != 10,
    ensures
        spec_take_line(data) == if j >= 1 && data[j - 1] == 13 {
            Some((data.subrange(0, j - 1), data.skip(j + 1)))
        } else {
            None::<(Seq<u8>, Seq<u8>)>
        },
    decreases j,
{
    if j == 0 {
    } else if data[0] == 13 && data.len() >= 2 && data[1] == 10 {
        assert(j == 1);
        assert(data.subrange(0, 0) =~= Seq::<u8>::empty());
    } else {
        let rest = data.skip(1);
        assert(forall|k: int| 0 <= k < j - 1 ==> rest[k] != 10);
        assert(rest[j - 1] == 10);
        lemma_take_line_at(rest, j - 1);
        if j >= 2 && data[j - 1] == 13 {
            assert(rest[j - 2] == 13);
            assert(seq![data[0]] + rest.subrange(0, j - 2) =~= data.subrange(0, j - 1));
            assert(rest.skip(j) =~= data.skip(j + 1));
        } else {
            assert(!(j - 1 >= 1 && rest[j - 2] == 13));
        }
    }
}

/// Data without any LF holds no complete line.
proof fn lemma_take_line_no_lf(data: Seq<u8>)
    requires
        forall|k: int| 0 <= k < data.len() ==> data[k] != 10,
    ensures
        spec_take_line(data) is None,
    decreases data.len(),
{
    if data.len() > 0 {
        lemma_take_line_no_lf(data.skip(1));
    }
}

/// Reads the header lines off `data`: each line up to and including a CRLF,
/// terminator stripped, stopping at (and consuming) the empty line. A line
/// without the CRLF terminator, or data that ends before the empty line, is
/// a `MalformedLine` failure.
pub fn read_http_request(data: &Vec<u8>) -> (r: Result<Vec<Vec<u8>>, HttpError>)
    ensures
        match r {
            Ok(lines) => spec_read_lines(data@) matches Some(p) && lines@.map_values(
                |l: Vec<u8>| l@,
            ) == p.0,
            Err(e) => spec_read_lines(data@) is None && e == HttpError::MalformedLine,
        },
{
    let mut lines: Vec<Vec<u8>> = Vec::new();
    let mut i: usize = 0;
    proof {
        assert(data@.skip(0) =~= data@);
        assert(lines@.map_values(|l: Vec<u8>| l@) =~= Seq::<Seq<u8>>::empty());
    }
    loop
        invariant
            0 <= i <= data@.len(),
            spec_read_lines(data@) == (match spec_read_lines(data@.skip(i as int)) {
                None => None::<(Seq<Seq<u8>>, Seq<u8>)>,
                Some(q) => Some((lines@.map_values(|l: Vec<u8>| l@) + q.0, q.1)),
            }),
        decreases data@.len() - i,
    {
        let ghost rest = data@.skip(i as int);
        let n: usize = data.len();
        let mut j: usize = i;
        while j < n && data[j] != 10
            invariant
                i <= j <= n,
                n == data@.len(),
                forall|k: int| i <= k < j ==> data@[k] != 10,
            decreases n - j,
        {
            j += 1;
        }
        if j == n {
            proof {
                assert(forall|k: int| 0 <= k < rest.len() ==> rest[k] != 10);
                lemma_take_line_no_lf(rest);
            }
            return Err(HttpError::MalformedLine);
        }
        proof {
            assert(rest[j - i] == 10);
            assert(forall|k: int| 0 <= k < j - i ==> rest[k] != 10);
            lemma_take_line_at(rest, j - i);
        }
        if j == i || data[j - 1] != 13 {
            return Err(HttpError::MalformedLine);
        }
        proof {
            assert(rest[j - i - 1] == 13);
            assert(rest.subrange(0, j - i - 1) =~= data@.subrange(i as int, j - 1));
            assert(rest.skip(j - i + 1) =~= data@.skip(j + 1));
        }
        if j == i + 1 {
            // The empty line: end of the header block.
            proof {
                assert(data@.subrange(i as int, j - 1).len() == 0);
                assert(lines@.map_values(|l: Vec<u8>| l@) + Seq::<Seq<u8>>::empty() =~= lines@.map_values(
                    |l: Vec<u8>| l@,
                ));
            }
            return Ok(lines);
        }
        let line_slice: &[u8] = vstd::slice::slice_subrange(data.as_slice(), i, j - 1);
        let line: Vec<u8> = vstd::slice::slice_to_vec(line_slice);
        proof {
            assert(line@ == data@.subrange(i as int, j - 1));
            assert(line@.len() > 0);
        }
        let ghost old_lines = lines@.map_values(|l: Vec<u8>| l@);
        lines.push(line);
        proof {
            assert(lines@.map_values(|l: Vec<u8>| l@) =~= old_lines.push(line@));
            if spec_read_lines(data@.skip(j + 1)) is Some {
                let q = spec_read_lines(data@.skip(j + 1)).unwrap();
                assert(old_lines + (seq![line@] + q.0) =~= old_lines.push(line@) + q.0);
            }
        }
        i = j + 1;
    }
}

} // verus!
