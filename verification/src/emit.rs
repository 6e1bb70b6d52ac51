//! Emission of a response as a sequence of transport operations.
//!
//! The plan fixes the order: the response is committed once, then a
//! buffered body is written in chunks of bounded size and completed, or a
//! streamed body is handed to the backend. A driver performs the operations
//! in order and stops at the first that fails: once the commit is made the
//! status cannot be amended.

use vstd::prelude::*;
use vstd::slice::{slice_subrange, slice_to_vec};
use vstd::utf8::{decode_utf8, encode_utf8, encode_utf8_decode_utf8};
use crate::response::{
    buffered_response, empty_response, header_views, streamed_response, BodyView, Header,
    OutboundResponse, ResponseBody, ResponseView,
};

verus! {

/// The most bytes that one write hands to the transport.
pub const WRITE_LIMIT: usize = 4096;

/// One operation on the transport.
#[derive(Debug, Clone, PartialEq, Eq)]
pub enum TransportOp {
    /// Commit status and headers. This is done once and cannot be undone.
    Commit { status: u16, headers: Vec<Header> },
    /// Write one chunk to the body and flush it.
    Write { chunk: Vec<u8> },
    /// Signal that the body is complete, with no trailers.
    Finish,
    /// Hand the writable body to the backend, which writes and completes it.
    HandOver,
}

/// A transport operation as a mathematical value.
pub enum OpView {
    Commit { status: u16, headers: Seq<(Seq<char>, Seq<char>)> },
    Write { chunk: Seq<u8> },
    Finish,
    HandOver,
}

impl View for TransportOp {
    type V = OpView;

    open spec fn view(&self) -> OpView {
        match self {
            TransportOp::Commit { status, headers } => OpView::Commit {
                status: *status,
                headers: header_views(headers@),
            },
            TransportOp::Write { chunk } => OpView::Write { chunk: chunk@ },
            TransportOp::Finish => OpView::Finish,
            TransportOp::HandOver => OpView::HandOver,
        }
    }
}

/// The operations of a plan, each as a mathematical value.
pub open spec fn op_views(plan: Seq<TransportOp>) -> Seq<OpView> {
    Seq::new(plan.len(), |i: int| plan[i]@)
}

/// The number of chunks that a payload of `len` bytes is written in: as few
/// as the write limit allows, none for an empty payload.
pub open spec fn chunk_count(len: int) -> int {
    (len + WRITE_LIMIT - 1) / (WRITE_LIMIT as int)
}

/// The chunk of `payload` at `index`: the bytes from `index` times the write
/// limit up to the next multiple of it, or to the end of the payload.
pub open spec fn chunk_at(payload: Seq<u8>, index: int) -> Seq<u8> {
    let start = index * WRITE_LIMIT;
    let end = if start + WRITE_LIMIT < payload.len() {
        start + WRITE_LIMIT
    } else {
        payload.len() as int
    };
    payload.subrange(start, end)
}

/// The operations that deliver a body: one write per chunk, in the order of
/// the payload, and the completion; or the hand-over to the backend.
pub open spec fn body_ops(body: BodyView) -> Seq<OpView> {
    match body {
        BodyView::Buffered(payload) => Seq::new(
            chunk_count(payload.len() as int) as nat,
            |i: int| OpView::Write { chunk: chunk_at(payload, i) },
        ).push(OpView::Finish),
        BodyView::Streamed => seq![OpView::HandOver],
    }
}

/// The plan that emits a response: the commit of status and headers, then
/// the operations that deliver the body.
pub open spec fn plan_of(response: ResponseView) -> Seq<OpView> {
    seq![OpView::Commit { status: response.status, headers: response.headers }] + body_ops(
        response.body,
    )
}

/// The bytes that the first `count` operations of a plan write to the body,
/// in order.
pub open spec fn written(plan: Seq<OpView>, count: int) -> Seq<u8>
    decreases count,
{
    if count <= 0 {
        Seq::empty()
    } else {
        written(plan, count - 1) + match plan[count - 1] {
            OpView::Write { chunk } => chunk,
            _ => Seq::empty(),
        }
    }
}

/// Plans the emission of a response.
pub fn emit(response: OutboundResponse) -> (plan: Vec<TransportOp>)
    ensures
        op_views(plan@) == plan_of(response@),
{
    let ghost target = plan_of(response@);
    let OutboundResponse { status, headers, body } = response;
    let mut plan: Vec<TransportOp> = Vec::new();
    plan.push(TransportOp::Commit { status, headers });
    match body {
        ResponseBody::Streamed => {
            plan.push(TransportOp::HandOver);
        },
        ResponseBody::Buffered(payload) => {
            let bytes = payload.as_slice();
            let mut start: usize = 0;
            while start < bytes.len()
                invariant
                    bytes@ == payload@,
                    start <= bytes@.len(),
                    start == bytes@.len() || start == (plan@.len() - 1) * WRITE_LIMIT,
                    1 <= plan@.len() <= chunk_count(bytes@.len() as int) + 1,
                    start == bytes@.len() ==> plan@.len() == chunk_count(bytes@.len() as int) + 1,
                    target.len() == chunk_count(bytes@.len() as int) + 2,
                    target == plan_of(response@),
                    response@.body == BodyView::Buffered(payload@),
                    forall|i: int| 0 <= i < plan@.len() ==> (#[trigger] plan@[i])@ == target[i],
                decreases bytes@.len() - start,
            {
                let end = if bytes.len() - start > WRITE_LIMIT {
                    start + WRITE_LIMIT
                } else {
                    bytes.len()
                };
                let chunk = slice_to_vec(slice_subrange(bytes, start, end));
                plan.push(TransportOp::Write { chunk });
                start = end;
            }
            plan.push(TransportOp::Finish);
        },
    }
    assert(op_views(plan@) =~= target);
    plan
}

/// The state of an emission as a mathematical value: the plan, how many of
/// its operations were performed, and whether one of them failed.
pub struct EmitterView {
    pub plan: Seq<OpView>,
    pub performed: int,
    pub aborted: bool,
}

impl EmitterView {
    /// An operation is due: none has failed and the plan is not exhausted.
    pub open spec fn pending(self) -> bool {
        !self.aborted && 0 <= self.performed < self.plan.len()
    }

    /// Every operation of the plan was performed.
    pub open spec fn complete(self) -> bool {
        !self.aborted && self.performed == self.plan.len()
    }

    /// The state after the due operation was reported. Success moves on to
    /// the next operation; a failure aborts the emission for good. With no
    /// operation due, a report changes nothing.
    pub open spec fn after(self, succeeded: bool) -> EmitterView {
        if !self.pending() {
            self
        } else if succeeded {
            EmitterView { performed: self.performed + 1, ..self }
        } else {
            EmitterView { aborted: true, ..self }
        }
    }
}

/// An emission in progress. It hands out the operations of a plan one at a
/// time, each after the one before it succeeded, and none after a failure.
pub struct Emitter {
    plan: Vec<TransportOp>,
    performed: usize,
    aborted: bool,
}

impl View for Emitter {
    type V = EmitterView;

    closed spec fn view(&self) -> EmitterView {
        EmitterView {
            plan: op_views(self.plan@),
            performed: self.performed as int,
            aborted: self.aborted,
        }
    }
}

impl Emitter {
    /// Starts the emission of a response: its plan, with nothing performed.
    pub fn new(response: OutboundResponse) -> (emitter: Emitter)
        ensures
            emitter@ == (EmitterView {
                plan: plan_of(response@),
                performed: 0,
                aborted: false,
            }),
    {
        Emitter { plan: emit(response), performed: 0, aborted: false }
    }

    /// The operation to perform next, if one is due.
    pub fn current(&self) -> (op: Option<&TransportOp>)
        ensures
            (op is Some) == self@.pending(),
            op matches Some(due) ==> due@ == self@.plan[self@.performed],
    {
        if !self.aborted && self.performed < self.plan.len() {
            Some(&self.plan[self.performed])
        } else {
            None
        }
    }

    /// Takes the report on the operation that was due.
    pub fn report(&mut self, succeeded: bool)
        ensures
            final(self)@ == old(self)@.after(succeeded),
    {
        if !self.aborted && self.performed < self.plan.len() {
            if succeeded {
                self.performed = self.performed + 1;
            } else {
                self.aborted = true;
            }
        }
    }

    /// Whether every operation of the plan was performed.
    pub fn is_complete(&self) -> (complete: bool)
        ensures
            complete == self@.complete(),
    {
        !self.aborted && self.performed == self.plan.len()
    }

    /// Whether an operation failed and the emission was given up.
    pub fn is_aborted(&self) -> (aborted: bool)
        ensures
            aborted == self@.aborted,
    {
        self.aborted
    }
}

/// After a failure nothing more is due, whatever is reported from then on,
/// and the emission never completes.
pub proof fn lemma_abort_is_final(state: EmitterView, succeeded: bool)
    requires
        state.aborted,
    ensures
        state.after(succeeded) == state,
        !state.pending(),
        !state.complete(),
{
}

/// The writes of a plan deliver the payload front to back: after the commit
/// and `writes` chunks, the first `writes` times the write limit bytes of
/// the payload have been written, or all of it.
proof fn lemma_written_prefix(response: ResponseView, payload: Seq<u8>, writes: int)
    requires
        response.body == BodyView::Buffered(payload),
        0 <= writes <= chunk_count(payload.len() as int),
    ensures
        written(plan_of(response), 1 + writes) == payload.subrange(
            0,
            if writes * WRITE_LIMIT < payload.len() {
                writes * WRITE_LIMIT
            } else {
                payload.len() as int
            },
        ),
    decreases writes,
{
    let plan = plan_of(response);
    if writes == 0 {
        assert(written(plan, 0) =~= Seq::<u8>::empty());
        assert(written(plan, 1) =~= payload.subrange(0, 0));
    } else {
        lemma_written_prefix(response, payload, writes - 1);
        assert(plan[writes] == OpView::Write { chunk: chunk_at(payload, writes - 1) });
        let before = (writes - 1) * WRITE_LIMIT;
        let after = if writes * WRITE_LIMIT < payload.len() {
            writes * WRITE_LIMIT
        } else {
            payload.len() as int
        };
        assert(before < payload.len());
        assert(payload.subrange(0, before) + payload.subrange(before, after)
            =~= payload.subrange(0, after));
    }
}

/// Emission round trip. The chunks that the plan of a buffered response
/// writes, concatenated in order, are exactly its payload, and no chunk is
/// empty or longer than the write limit.
pub proof fn lemma_emission_round_trip(response: ResponseView)
    requires
        response.body is Buffered,
    ensures
        written(plan_of(response), plan_of(response).len() as int) == response.body->Buffered_0,
        forall|i: int|
            0 <= i < plan_of(response).len() && (#[trigger] plan_of(response)[i]) is Write ==> 1
                <= plan_of(response)[i]->chunk.len() <= WRITE_LIMIT,
{
    let payload = response.body->Buffered_0;
    let plan = plan_of(response);
    let count = chunk_count(payload.len() as int);
    lemma_written_prefix(response, payload, count);
    assert(plan[count + 1] == OpView::Finish);
    assert(written(plan, count + 2) == written(plan, count + 1) + Seq::<u8>::empty());
    assert(payload.subrange(0, payload.len() as int) =~= payload);
    assert forall|i: int| 0 <= i < plan.len() && (#[trigger] plan[i]) is Write implies 1
        <= plan[i]->chunk.len() <= WRITE_LIMIT by {
        assert(plan[i] == OpView::Write { chunk: chunk_at(payload, i - 1) });
    }
}

/// The answer of the backend survives emission: the chunks written for the
/// buffered response to a text are, joined in order, the UTF-8 bytes of
/// that text, and decode to it.
pub proof fn lemma_answer_round_trip(status: u16, answer: Seq<char>)
    ensures
        written(
            plan_of(buffered_response(status, answer)),
            plan_of(buffered_response(status, answer)).len() as int,
        ) == encode_utf8(answer),
        decode_utf8(
            written(
                plan_of(buffered_response(status, answer)),
                plan_of(buffered_response(status, answer)).len() as int,
            ),
        ) == answer,
{
    lemma_emission_round_trip(buffered_response(status, answer));
    encode_utf8_decode_utf8(answer);
}

/// The error path: the response with a status and nothing else is
/// committed and its body completed at once, with no write in between.
pub proof fn lemma_error_path_plan(status: u16)
    ensures
        plan_of(empty_response(status)) == seq![
            OpView::Commit { status, headers: Seq::empty() },
            OpView::Finish,
        ],
{
    assert(plan_of(empty_response(status)) =~= seq![
        OpView::Commit { status, headers: Seq::empty() },
        OpView::Finish,
    ]);
}

/// The streaming path: status 200 is committed without headers and the
/// body is handed to the backend; the plan itself writes nothing.
pub proof fn lemma_streaming_path_plan()
    ensures
        plan_of(streamed_response()) == seq![
            OpView::Commit { status: 200, headers: Seq::empty() },
            OpView::HandOver,
        ],
{
    assert(plan_of(streamed_response()) =~= seq![
        OpView::Commit { status: 200, headers: Seq::empty() },
        OpView::HandOver,
    ]);
}

/// A plan commits exactly once, before anything else: its first operation
/// is the commit of the response's status and headers, and no later one is
/// a commit.
pub proof fn lemma_single_commit(response: ResponseView)
    ensures
        plan_of(response).len() >= 2,
        plan_of(response)[0] == (OpView::Commit {
            status: response.status,
            headers: response.headers,
        }),
        forall|i: int|
            1 <= i < plan_of(response).len() ==> !((#[trigger] plan_of(response)[i]) is Commit),
{
    let plan = plan_of(response);
    assert forall|i: int| 1 <= i < plan.len() implies !((#[trigger] plan[i]) is Commit) by {
        assert(plan[i] == body_ops(response.body)[i - 1]);
    }
}

/// A plan ends the body exactly once, with its last operation: the
/// completion of a buffered body, the hand-over of a streamed one. Before
/// it, after the commit, a buffered body has only writes.
pub proof fn lemma_body_ends_last(response: ResponseView)
    ensures
        plan_of(response).last() == match response.body {
            BodyView::Buffered(_) => OpView::Finish,
            BodyView::Streamed => OpView::HandOver,
        },
        forall|i: int|
            1 <= i < plan_of(response).len() - 1 ==> (#[trigger] plan_of(response)[i]) is Write,
{
    let plan = plan_of(response);
    assert forall|i: int| 1 <= i < plan.len() - 1 implies (#[trigger] plan[i]) is Write by {
        assert(plan[i] == body_ops(response.body)[i - 1]);
    }
}

} // verus!
