//! Protocol-parse failures. Any of these aborts the connection before a
//! response exists, so none of them carries data: the connection is simply
//! dropped without writing bytes.

use vstd::prelude::*;

verus! {

#[derive(PartialEq, Eq, Structural, Clone, Copy, Debug)]
pub enum HttpError {
    /// A header line did not end in CRLF, or the stream ended mid-line.
    MalformedLine,
    /// The header block held no line at all, so there is no start line.
    MissingStartLine,
    /// The start line held fewer than three space-separated tokens.
    MissingStartLineField,
    /// The method token was neither `GET` nor `POST`.
    UnsupportedMethod,
}

} // verus!
