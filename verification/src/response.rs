//! Outbound responses, and the fixed responses that answer a failure.

use vstd::prelude::*;
use vstd::slice::slice_to_vec;
use vstd::utf8::encode_utf8;

verus! {

/// Status of a successful answer.
pub const STATUS_OK: u16 = 200;

/// Status of a request whose body cannot be turned into a prompt.
pub const STATUS_BAD_REQUEST: u16 = 400;

/// Status of a request outside the one recognised route.
pub const STATUS_METHOD_NOT_ALLOWED: u16 = 405;

/// One response header.
#[derive(Debug, Clone, PartialEq, Eq)]
pub struct Header {
    pub name: String,
    pub value: String,
}

impl View for Header {
    type V = (Seq<char>, Seq<char>);

    open spec fn view(&self) -> (Seq<char>, Seq<char>) {
        (self.name@, self.value@)
    }
}

/// The headers of a response, each as name and value.
pub open spec fn header_views(headers: Seq<Header>) -> Seq<(Seq<char>, Seq<char>)> {
    Seq::new(headers.len(), |i: int| headers[i]@)
}

/// How the body of a response comes to be.
#[derive(Debug, Clone, PartialEq, Eq)]
pub enum ResponseBody {
    /// The whole payload, known before any byte is written.
    Buffered(Vec<u8>),
    /// Written chunk by chunk by the backend, straight into the body.
    Streamed,
}

/// A response body as a mathematical value.
pub enum BodyView {
    Buffered(Seq<u8>),
    Streamed,
}

impl View for ResponseBody {
    type V = BodyView;

    open spec fn view(&self) -> BodyView {
        match self {
            ResponseBody::Buffered(bytes) => BodyView::Buffered(bytes@),
            ResponseBody::Streamed => BodyView::Streamed,
        }
    }
}

/// A response before it is handed to the transport.
#[derive(Debug, Clone, PartialEq, Eq)]
pub struct OutboundResponse {
    pub status: u16,
    pub headers: Vec<Header>,
    pub body: ResponseBody,
}

/// A response as a mathematical value.
pub struct ResponseView {
    pub status: u16,
    pub headers: Seq<(Seq<char>, Seq<char>)>,
    pub body: BodyView,
}

impl View for OutboundResponse {
    type V = ResponseView;

    open spec fn view(&self) -> ResponseView {
        ResponseView {
            status: self.status,
            headers: header_views(self.headers@),
            body: self.body@,
        }
    }
}

/// The response with the given status, no header and an empty body.
pub open spec fn empty_response(status: u16) -> ResponseView {
    ResponseView {
        status,
        headers: Seq::empty(),
        body: BodyView::Buffered(Seq::empty()),
    }
}

/// The response that carries a text payload: one header, `content-type:
/// text/plain`, and the payload's UTF-8 bytes as body.
pub open spec fn buffered_response(status: u16, payload: Seq<char>) -> ResponseView {
    ResponseView {
        status,
        headers: seq![("content-type"@, "text/plain"@)],
        body: BodyView::Buffered(encode_utf8(payload)),
    }
}

/// The response whose body the backend writes: status 200, no header.
pub open spec fn streamed_response() -> ResponseView {
    ResponseView { status: STATUS_OK, headers: Seq::empty(), body: BodyView::Streamed }
}

/// Builds the response of the error path: the given status, no header, no
/// body content.
pub fn respond(status: u16) -> (response: OutboundResponse)
    ensures
        response@ == empty_response(status),
{
    let response = OutboundResponse {
        status,
        headers: Vec::new(),
        body: ResponseBody::Buffered(Vec::new()),
    };
    assert(header_views(response.headers@) =~= Seq::empty());
    response
}

/// The terminal response to a body that is absent, unreadable or not UTF-8.
pub fn bad_request() -> (response: OutboundResponse)
    ensures
        response@ == empty_response(STATUS_BAD_REQUEST),
{
    respond(STATUS_BAD_REQUEST)
}

/// The terminal response to a request outside the recognised route.
pub fn method_not_allowed() -> (response: OutboundResponse)
    ensures
        response@ == empty_response(STATUS_METHOD_NOT_ALLOWED),
{
    respond(STATUS_METHOD_NOT_ALLOWED)
}

/// Builds the response of the buffered path from a status and a text payload.
pub fn buffered(status: u16, payload: &str) -> (response: OutboundResponse)
    ensures
        response@ == buffered_response(status, payload@),
{
    let mut headers: Vec<Header> = Vec::new();
    headers.push(Header { name: "content-type".to_owned(), value: "text/plain".to_owned() });
    let response = OutboundResponse {
        status,
        headers,
        body: ResponseBody::Buffered(slice_to_vec(payload.as_bytes())),
    };
    assert(header_views(response.headers@) =~= seq![("content-type"@, "text/plain"@)]);
    response
}

/// Builds the response of the streaming path.
pub fn streamed() -> (response: OutboundResponse)
    ensures
        response@ == streamed_response(),
{
    let response = OutboundResponse {
        status: STATUS_OK,
        headers: Vec::new(),
        body: ResponseBody::Streamed,
    };
    assert(header_views(response.headers@) =~= Seq::empty());
    response
}

} // verus!
