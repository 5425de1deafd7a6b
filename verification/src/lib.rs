//! A minimal HTTP/1.1 server core: a closed model of protocol versions,
//! methods and status codes, structured request/response messages with a
//! verified text parser and serializer, a verified first-in-first-out task
//! dispatch model for a fixed-size worker pool, and the per-connection
//! decision logic that turns raw request lines into a response.
//!
//! Socket and file input/output live outside this library; it works on plain
//! lines of text and hands back plain values.

pub mod handler;
pub mod http;
pub mod message;
pub mod pool;
pub mod text;
