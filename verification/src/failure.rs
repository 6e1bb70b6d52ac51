//! The failures of dispatch, and the status that answers each.

use vstd::prelude::*;
use crate::response::{
    bad_request, empty_response, method_not_allowed, OutboundResponse, STATUS_BAD_REQUEST,
    STATUS_METHOD_NOT_ALLOWED,
};

verus! {

/// Why a request was not handed to the backend. Each is decided where it is
/// detected, is never retried, and ends in exactly one response.
#[derive(Debug, Clone, PartialEq, Eq)]
pub enum Failure {
    /// Method or path is not the recognised route, or the path is missing.
    RouteUnmatched,
    /// The body could not be consumed, or its stream could not be had.
    BodyConsume,
    /// A read on the body stream failed; the cause as the transport gave it.
    StreamRead(String),
    /// The body is not UTF-8; the number of leading bytes that are.
    InvalidEncoding(usize),
}

/// A failure as a mathematical value.
pub enum FailureModel {
    RouteUnmatched,
    BodyConsume,
    StreamRead(Seq<char>),
    InvalidEncoding(nat),
}

impl View for Failure {
    type V = FailureModel;

    open spec fn view(&self) -> FailureModel {
        match self {
            Failure::RouteUnmatched => FailureModel::RouteUnmatched,
            Failure::BodyConsume => FailureModel::BodyConsume,
            Failure::StreamRead(cause) => FailureModel::StreamRead(cause@),
            Failure::InvalidEncoding(at) => FailureModel::InvalidEncoding(*at as nat),
        }
    }
}

/// The status that answers a failure: 405 for a routing failure, 400 for
/// every failure of the body.
pub open spec fn status_of(failure: FailureModel) -> u16 {
    match failure {
        FailureModel::RouteUnmatched => STATUS_METHOD_NOT_ALLOWED,
        _ => STATUS_BAD_REQUEST,
    }
}

impl Failure {
    /// The status that answers this failure.
    pub fn status(&self) -> (code: u16)
        ensures
            code == status_of(self@),
    {
        match self {
            Failure::RouteUnmatched => STATUS_METHOD_NOT_ALLOWED,
            _ => STATUS_BAD_REQUEST,
        }
    }

    /// The terminal response to this failure: its status, no header, an
    /// empty body.
    pub fn response(&self) -> (response: OutboundResponse)
        ensures
            response@ == empty_response(status_of(self@)),
    {
        match self {
            Failure::RouteUnmatched => method_not_allowed(),
            _ => bad_request(),
        }
    }
}

} // verus!
