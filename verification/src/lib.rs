//! A verified core of a minimal HTTP/1.1 server: CRLF line reading, request
//! parsing, route dispatch, and response serialization, all over plain byte
//! vectors. Listening, reading and writing sockets, and the filesystem stay
//! outside; they hand this crate bytes and take bytes back.

pub mod bytes;
pub mod error;
pub mod handlers;
pub mod headers;
pub mod lines;
pub mod numeral;
pub mod request;
pub mod response;
pub mod roundtrip;
