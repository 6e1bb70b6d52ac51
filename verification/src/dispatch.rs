//! Dispatch of one request, from the routing decision to the point where
//! the backend is invoked or an error response is due.
//!
//! Dispatch is a state machine that a driver runs: each step names the one
//! thing to do next, and the driver reports back what came of it.

use vstd::prelude::*;
use vstd::utf8::{decode_utf8, valid_utf8};
use crate::failure::{status_of, Failure, FailureModel};
use crate::ingest::{
    drained, gathered, lemma_stop_index, step_of, stops_at, BodyReader, ReadStep, StepView, READ_LIMIT,
};
use crate::prompt::{extract_prompt, extracted, prompt_of, valid_prefix_len};
use crate::request::{InboundRequest, Method, ReadOutcome, RequestBody};
use crate::response::{empty_response, BodyView, OutboundResponse, ResponseView};
use crate::route::{path_text, route, route_of, route_path, Route};

verus! {

/// How dispatch ends.
#[derive(Debug, Clone, PartialEq, Eq)]
pub enum Decision {
    /// Invoke the backend with this prompt.
    Invoke { prompt: String },
    /// Emit this response and stop; the failure says why.
    Reject { failure: Failure, response: OutboundResponse },
}

/// The end of dispatch as a mathematical value.
pub enum DecisionView {
    Invoke { prompt: Seq<char> },
    Reject { failure: FailureModel, response: ResponseView },
}

impl View for Decision {
    type V = DecisionView;

    open spec fn view(&self) -> DecisionView {
        match self {
            Decision::Invoke { prompt } => DecisionView::Invoke { prompt: prompt@ },
            Decision::Reject { failure, response } => DecisionView::Reject {
                failure: failure@,
                response: response@,
            },
        }
    }
}

/// The rejection that a failure causes: the response with the failure's
/// status, no header and an empty body.
pub open spec fn rejection(failure: FailureModel) -> DecisionView {
    DecisionView::Reject { failure, response: empty_response(status_of(failure)) }
}

/// The decision that an extraction leads to.
pub open spec fn conclusion(extraction: Result<Seq<char>, FailureModel>) -> DecisionView {
    match extraction {
        Ok(prompt) => DecisionView::Invoke { prompt },
        Err(failure) => rejection(failure),
    }
}

/// The decision on a whole request: off the route it is rejected with 405
/// whatever its body holds; on the route the body decides.
pub open spec fn decide(method: Method, path: Option<Seq<char>>, body: RequestBody) -> DecisionView {
    match route_of(method, path) {
        Route::Matched => conclusion(extracted(body)),
        _ => rejection(FailureModel::RouteUnmatched),
    }
}

/// Dispatch waits for the body stream to be opened.
pub struct AwaitingBody {
    sealed: (),
}

/// Dispatch waits for the outcome of a read.
pub struct Reading {
    reader: BodyReader,
}

/// Where dispatch stands, and what the driver does next.
pub enum Dispatch {
    /// Consume the body and take its stream, then report `opened` or
    /// `unavailable`.
    OpenBody(AwaitingBody),
    /// Make one blocking read of at most `limit` bytes, then report what was
    /// `received`.
    Read(Reading),
    /// Dispatch has ended.
    Done(Decision),
}

/// A state of dispatch as a mathematical value; a reading state is the
/// bytes accumulated so far.
pub enum DispatchView {
    OpenBody,
    Read(Seq<u8>),
    Done(DecisionView),
}

impl View for Dispatch {
    type V = DispatchView;

    open spec fn view(&self) -> DispatchView {
        match self {
            Dispatch::OpenBody(_) => DispatchView::OpenBody,
            Dispatch::Read(reading) => DispatchView::Read(reading.bytes()),
            Dispatch::Done(decision) => DispatchView::Done(decision@),
        }
    }
}

/// The state that follows a read outcome when `bytes` have been
/// accumulated.
pub open spec fn after_read(bytes: Seq<u8>, outcome: ReadOutcome) -> DispatchView {
    match step_of(bytes, outcome) {
        StepView::More(longer) => DispatchView::Read(longer),
        StepView::Ended(all) => DispatchView::Done(conclusion(prompt_of(all))),
        StepView::Failed(failure) => DispatchView::Done(rejection(failure)),
    }
}

fn reject(failure: Failure) -> (decision: Decision)
    ensures
        decision@ == rejection(failure@),
{
    let response = failure.response();
    Decision::Reject { failure, response }
}

/// Starts dispatch with the routing decision: a request on the route has
/// its body opened, any other is rejected.
pub fn begin(method: &Method, path: Option<&str>) -> (next: Dispatch)
    ensures
        next@ == if route_of(*method, path_text(path)) == Route::Matched {
            DispatchView::OpenBody
        } else {
            DispatchView::Done(rejection(FailureModel::RouteUnmatched))
        },
{
    match route(method, path) {
        Route::Matched => Dispatch::OpenBody(AwaitingBody { sealed: () }),
        _ => Dispatch::Done(reject(Failure::RouteUnmatched)),
    }
}

impl AwaitingBody {
    /// The body stream is in hand: reading starts with nothing accumulated.
    pub fn opened(self) -> (next: Dispatch)
        ensures
            next@ == DispatchView::Read(Seq::<u8>::empty()),
    {
        Dispatch::Read(Reading { reader: BodyReader::new() })
    }

    /// The body could not be consumed, or its stream could not be had.
    pub fn unavailable(self) -> (next: Dispatch)
        ensures
            next@ == DispatchView::Done(rejection(FailureModel::BodyConsume)),
    {
        Dispatch::Done(reject(Failure::BodyConsume))
    }
}

impl Reading {
    /// The bytes accumulated so far, in arrival order.
    pub closed spec fn bytes(&self) -> Seq<u8> {
        self.reader.bytes()
    }

    /// The most bytes that the next read may ask for.
    pub fn limit(&self) -> (limit: u64)
        ensures
            limit == READ_LIMIT,
    {
        READ_LIMIT
    }

    /// Takes the outcome of the read. Data goes into the buffer and another
    /// read follows; a clean end turns the buffer into the prompt; a failed
    /// read, or a buffer that is not UTF-8, ends in a rejection.
    pub fn received(self, outcome: &ReadOutcome) -> (next: Dispatch)
        ensures
            next@ == after_read(self.bytes(), *outcome),
    {
        match self.reader.accept(outcome) {
            ReadStep::More(reader) => Dispatch::Read(Reading { reader }),
            ReadStep::Ended(bytes) => match extract_prompt(bytes) {
                Ok(prompt) => Dispatch::Done(Decision::Invoke { prompt }),
                Err(failure) => Dispatch::Done(reject(failure)),
            },
            ReadStep::Failed(failure) => Dispatch::Done(reject(failure)),
        }
    }
}

/// The text of the path a recorded request carries.
pub open spec fn request_path(request: InboundRequest) -> Option<Seq<char>> {
    match request.path_with_query {
        None => None,
        Some(text) => Some(text@),
    }
}

/// How many steps a state is from the end of dispatch, at most, with
/// `unread` outcomes left in the script.
spec fn steps_left(state: DispatchView, unread: int) -> int {
    match state {
        DispatchView::OpenBody => unread + 3,
        DispatchView::Read(_) => unread + 2,
        DispatchView::Done(_) => 0,
    }
}

/// What holds of a state of dispatch that was reached by replaying the
/// first `read` outcomes of a recorded request.
spec fn replayed(request: InboundRequest, state: DispatchView, read: int) -> bool {
    let on_route = route_of(request.method, request_path(request)) == Route::Matched;
    match state {
        DispatchView::OpenBody => on_route && read == 0,
        DispatchView::Read(bytes) => {
            &&& on_route
            &&& request.body matches RequestBody::Stream(script)
            &&& 0 <= read <= script@.len()
            &&& forall|i: int| 0 <= i < read ==> (#[trigger] script@[i]).is_data()
            &&& bytes == gathered(script@, read)
        },
        DispatchView::Done(decision) => decision == decide(
            request.method,
            request_path(request),
            request.body,
        ),
    }
}

/// Handles a recorded request: runs dispatch from the routing decision on,
/// replaying the recorded body where dispatch asks for it, and returns how
/// it ends.
pub fn handle_request(request: &InboundRequest) -> (decision: Decision)
    ensures
        decision@ == decide(request.method, request_path(*request), request.body),
{
    let path = match &request.path_with_query {
        Some(text) => Some(text.as_str()),
        None => None,
    };
    let mut state = begin(&request.method, path);
    let mut read: usize = 0;
    loop
        invariant
            replayed(*request, state@, read as int),
            request.body matches RequestBody::Stream(script) ==> read <= script@.len(),
        decreases
            steps_left(
                state@,
                match request.body {
                    RequestBody::Stream(script) => script@.len() - read,
                    RequestBody::Unavailable => 0,
                },
            ),
    {
        match state {
            Dispatch::Done(decision) => {
                return decision;
            },
            Dispatch::OpenBody(awaiting) => {
                state = match &request.body {
                    RequestBody::Unavailable => awaiting.unavailable(),
                    RequestBody::Stream(_) => awaiting.opened(),
                };
            },
            Dispatch::Read(reading) => {
                match &request.body {
                    RequestBody::Stream(script) => {
                        if read < script.len() {
                            proof {
                                if !script@[read as int].is_data() {
                                    lemma_stop_index(script@, read as int);
                                }
                            }
                            state = reading.received(&script[read]);
                            read += 1;
                        } else {
                            proof {
                                lemma_stop_index(script@, read as int);
                            }
                            state = reading.received(&ReadOutcome::Closed);
                        }
                    },
                    RequestBody::Unavailable => {
                        // Nothing is recorded to read: the stream is closed.
                        state = reading.received(&ReadOutcome::Closed);
                    },
                }
            },
        }
    }
}

/// Off the route every request is answered alike: any method but `POST`,
/// any path but the recognised one, and a missing path lead to status 405
/// with no header and an empty body, whatever the body of the request
/// holds.
pub proof fn lemma_off_route_is_405(method: Method, path: Option<Seq<char>>, body: RequestBody)
    requires
        !(method is Post) || path != Some(route_path()),
    ensures
        decide(method, path, body) == (DecisionView::Reject {
            failure: FailureModel::RouteUnmatched,
            response: ResponseView {
                status: 405,
                headers: Seq::empty(),
                body: BodyView::Buffered(Seq::empty()),
            },
        }),
{
}

/// On the route, a body whose bytes are not valid UTF-8 is answered with
/// status 400, no header and an empty body.
pub proof fn lemma_invalid_encoding_is_400(
    method: Method,
    path: Option<Seq<char>>,
    script: Vec<ReadOutcome>,
    bytes: Seq<u8>,
)
    requires
        method is Post,
        path == Some(route_path()),
        drained(script@) == Ok::<Seq<u8>, FailureModel>(bytes),
        !valid_utf8(bytes),
    ensures
        decide(method, path, RequestBody::Stream(script)) == (DecisionView::Reject {
            failure: FailureModel::InvalidEncoding(valid_prefix_len(bytes) as nat),
            response: ResponseView {
                status: 400,
                headers: Seq::empty(),
                body: BodyView::Buffered(Seq::empty()),
            },
        }),
{
}

/// On the route, a body that cannot be opened or whose stream fails is
/// answered with status 400, no header and an empty body.
pub proof fn lemma_unreadable_body_is_400(
    method: Method,
    path: Option<Seq<char>>,
    body: RequestBody,
)
    requires
        method is Post,
        path == Some(route_path()),
        body is Unavailable || (body matches RequestBody::Stream(script) && drained(script@) is Err),
    ensures
        decide(method, path, body) matches DecisionView::Reject { failure, response }
            && !(failure is RouteUnmatched) && response == (ResponseView {
            status: 400,
            headers: Seq::empty(),
            body: BodyView::Buffered(Seq::empty()),
        }),
{
}

/// On the route, a body whose bytes are valid UTF-8, the empty body among
/// them, leads to the backend being invoked with the decoded text as
/// prompt.
pub proof fn lemma_valid_body_is_invoked(
    method: Method,
    path: Option<Seq<char>>,
    script: Vec<ReadOutcome>,
    bytes: Seq<u8>,
)
    requires
        method is Post,
        path == Some(route_path()),
        drained(script@) == Ok::<Seq<u8>, FailureModel>(bytes),
        valid_utf8(bytes),
    ensures
        decide(method, path, RequestBody::Stream(script)) == (DecisionView::Invoke {
            prompt: decode_utf8(bytes),
        }),
        bytes.len() == 0 ==> decide(method, path, RequestBody::Stream(script))
            == (DecisionView::Invoke { prompt: Seq::empty() }),
{
}

} // verus!
