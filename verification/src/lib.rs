//! Core logic of a small HTTP/1.1 GET client: URL parsing, response framing
//! (fixed `Content-Length` or chunked transfer encoding), body decoding, and
//! the statistics computed over a run of repeated requests.

pub mod codec;
pub mod request;
pub mod response;
pub mod scan;
pub mod stats;
pub mod url;
