//! Dispatch of one inbound HTTP request to a prompt-generation backend.
//!
//! The crate decides; it performs no I/O. A driver hands it what the
//! transport delivered and carries out what it is told: open the body, read
//! once more, invoke the backend, or emit a response.

pub mod dispatch;
pub mod emit;
pub mod failure;
pub mod ingest;
pub mod prompt;
pub mod request;
pub mod response;
pub mod route;
