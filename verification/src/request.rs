//! The inbound request as the dispatcher sees it.

use vstd::prelude::*;

verus! {

/// HTTP verb of an inbound request.
#[derive(Debug, Clone, PartialEq, Eq)]
pub enum Method {
    Get,
    Head,
    Post,
    Put,
    Delete,
    Connect,
    Options,
    Trace,
    Patch,
    /// Any verb outside the standard set, by name.
    Other(String),
}

/// What one blocking read attempt on the body stream gave.
#[derive(Debug, Clone, PartialEq, Eq)]
pub enum ReadOutcome {
    /// Bytes in arrival order. A zero-length chunk marks the end of input.
    Chunk(Vec<u8>),
    /// The explicit stream-closed signal.
    Closed,
    /// Any other failure, with its cause.
    Failed(String),
}

impl ReadOutcome {
    /// A clean end of input: a zero-length read or the closed signal.
    pub open spec fn is_end(self) -> bool {
        match self {
            ReadOutcome::Chunk(bytes) => bytes@.len() == 0,
            ReadOutcome::Closed => true,
            ReadOutcome::Failed(_) => false,
        }
    }

    /// A read that delivered at least one byte.
    pub open spec fn is_data(self) -> bool {
        self matches ReadOutcome::Chunk(bytes) && bytes@.len() > 0
    }

    /// The bytes a read delivered; none unless it is a chunk.
    pub open spec fn data(self) -> Seq<u8> {
        match self {
            ReadOutcome::Chunk(bytes) => bytes@,
            _ => Seq::empty(),
        }
    }
}

/// The body of a recorded request.
#[derive(Debug, Clone, PartialEq, Eq)]
pub enum RequestBody {
    /// The body cannot be consumed, or its stream cannot be had.
    Unavailable,
    /// What successive read attempts on the stream give, in order. A stream
    /// that has nothing further recorded is closed.
    Stream(Vec<ReadOutcome>),
}

/// A recorded inbound request: everything dispatch reads of it.
#[derive(Debug, Clone, PartialEq, Eq)]
pub struct InboundRequest {
    pub method: Method,
    pub path_with_query: Option<String>,
    pub body: RequestBody,
}

} // verus!
