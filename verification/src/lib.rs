//! A minimal, verified HTTP/1.1 request core.
//!
//! The crate turns a raw request byte stream into a structured request,
//! routes it to one of a fixed set of handlers, and formats the wire-level
//! response.  Transport and filesystem access live outside the library; the
//! library consumes and produces plain byte vectors.

pub mod bytes;
pub mod handlers;
pub mod laws;
pub mod request;
pub mod router;
pub mod utf8;
pub mod wire;
