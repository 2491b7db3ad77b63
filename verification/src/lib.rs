//! A verified HTTP/1.1 request/response engine.
//!
//! The engine reads one request from the bytes of a connection, routes it,
//! builds the response, negotiates gzip, and serialises the response to
//! wire bytes. It does no I/O: a caller owns the socket and the file store
//! and is driven by the state machine in [`connection`].

pub mod connection;
pub mod decimal;
pub mod encoding;
pub mod error;
pub mod handlers;
pub mod headers;
pub mod request;
pub mod response;
pub mod router;
pub mod text;
pub mod theorems;
