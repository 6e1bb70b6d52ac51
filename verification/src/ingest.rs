//! Draining the body stream into memory.
//!
//! The stream is a single-use sequence of read outcomes. Reading goes on
//! while reads deliver data and stops at the first outcome that does not: a
//! zero-length read and the closed signal both end the input cleanly, any
//! other failure ends it with an error.

use vstd::prelude::*;
use crate::failure::{Failure, FailureModel};
use crate::request::ReadOutcome;

verus! {

/// The most bytes that one read attempt asks of the stream.
pub const READ_LIMIT: u64 = 8192;

/// Reading stops at index `stop`: every earlier outcome delivered data, and
/// the outcome there, if the script reaches that far, did not.
pub open spec fn stops_at(script: Seq<ReadOutcome>, stop: int) -> bool {
    &&& 0 <= stop <= script.len()
    &&& forall|i: int| 0 <= i < stop ==> (#[trigger] script[i]).is_data()
    &&& stop < script.len() ==> !script[stop].is_data()
}

/// The index at which reading stops.
pub open spec fn stop_index(script: Seq<ReadOutcome>) -> int {
    choose|stop: int| stops_at(script, stop)
}

/// The bytes of the first `count` outcomes, in arrival order.
pub open spec fn gathered(script: Seq<ReadOutcome>, count: int) -> Seq<u8>
    decreases count,
{
    if count <= 0 {
        Seq::empty()
    } else {
        gathered(script, count - 1) + script[count - 1].data()
    }
}

/// What draining a stream gives: the bytes read before the stop, unless the
/// outcome at the stop is a failure. A script that ends without a stop is a
/// stream that closed.
pub open spec fn drained(script: Seq<ReadOutcome>) -> Result<Seq<u8>, FailureModel> {
    let stop = stop_index(script);
    if stop < script.len() && script[stop] is Failed {
        Err(FailureModel::StreamRead(script[stop]->Failed_0@))
    } else {
        Ok(gathered(script, stop))
    }
}

/// Accumulated bytes or a failure as a mathematical value.
pub open spec fn drain_view(result: Result<Vec<u8>, Failure>) -> Result<Seq<u8>, FailureModel> {
    match result {
        Ok(bytes) => Ok(bytes@),
        Err(failure) => Err(failure@),
    }
}

/// Reading stops at one index only: an index at which it stops is the stop
/// index.
pub proof fn lemma_stop_index(script: Seq<ReadOutcome>, stop: int)
    requires
        stops_at(script, stop),
    ensures
        stop_index(script) == stop,
{
    let chosen = stop_index(script);
    assert(stops_at(script, chosen));
    if stop < chosen {
        assert(script[stop].is_data());
    } else if chosen < stop {
        assert(script[chosen].is_data());
    }
}

/// The buffer of a body that is still being read.
pub struct BodyReader {
    buffer: Vec<u8>,
}

/// Where reading stands after one more outcome.
pub enum ReadStep {
    /// Data arrived; read again.
    More(BodyReader),
    /// The input ended cleanly; these are its bytes.
    Ended(Vec<u8>),
    /// The read failed.
    Failed(Failure),
}

/// A step of reading as a mathematical value.
pub enum StepView {
    More(Seq<u8>),
    Ended(Seq<u8>),
    Failed(FailureModel),
}

impl View for ReadStep {
    type V = StepView;

    open spec fn view(&self) -> StepView {
        match self {
            ReadStep::More(reader) => StepView::More(reader.bytes()),
            ReadStep::Ended(bytes) => StepView::Ended(bytes@),
            ReadStep::Failed(failure) => StepView::Failed(failure@),
        }
    }
}

/// The step that an outcome causes when `bytes` have been accumulated: data
/// is appended and reading goes on; a zero-length read or the closed signal
/// ends the input with what was accumulated; any other failure ends it with
/// that failure's cause.
pub open spec fn step_of(bytes: Seq<u8>, outcome: ReadOutcome) -> StepView {
    match outcome {
        ReadOutcome::Chunk(chunk) => if chunk@.len() == 0 {
            StepView::Ended(bytes)
        } else {
            StepView::More(bytes + chunk@)
        },
        ReadOutcome::Closed => StepView::Ended(bytes),
        ReadOutcome::Failed(cause) => StepView::Failed(FailureModel::StreamRead(cause@)),
    }
}

impl BodyReader {
    /// The bytes accumulated so far, in arrival order.
    pub closed spec fn bytes(&self) -> Seq<u8> {
        self.buffer@
    }

    /// A reader that has read nothing yet.
    pub fn new() -> (reader: BodyReader)
        ensures
            reader.bytes() == Seq::<u8>::empty(),
    {
        BodyReader { buffer: Vec::new() }
    }

    /// Takes the outcome of one read attempt.
    pub fn accept(self, outcome: &ReadOutcome) -> (step: ReadStep)
        ensures
            step@ == step_of(self.bytes(), *outcome),
    {
        match outcome {
            ReadOutcome::Chunk(chunk) => {
                if chunk.len() == 0 {
                    ReadStep::Ended(self.buffer)
                } else {
                    let mut buffer = self.buffer;
                    buffer.extend_from_slice(chunk.as_slice());
                    assert(buffer@ =~= self.buffer@ + chunk@);
                    ReadStep::More(BodyReader { buffer })
                }
            },
            ReadOutcome::Closed => ReadStep::Ended(self.buffer),
            ReadOutcome::Failed(cause) => ReadStep::Failed(Failure::StreamRead(cause.clone())),
        }
    }

    /// Ends the input here, as the closed signal would.
    pub fn finish(self) -> (bytes: Vec<u8>)
        ensures
            bytes@ == self.bytes(),
    {
        self.buffer
    }
}

/// Drains a recorded stream: feeds its outcomes to a reader, in order, until
/// reading stops.
pub fn drain(script: &Vec<ReadOutcome>) -> (result: Result<Vec<u8>, Failure>)
    ensures
        drain_view(result) == drained(script@),
{
    let mut reader = BodyReader::new();
    let mut i: usize = 0;
    while i < script.len()
        invariant
            i <= script@.len(),
            forall|j: int| 0 <= j < i ==> (#[trigger] script@[j]).is_data(),
            reader.bytes() == gathered(script@, i as int),
        decreases script@.len() - i,
    {
        match reader.accept(&script[i]) {
            ReadStep::More(next) => {
                reader = next;
                i += 1;
            },
            ReadStep::Ended(bytes) => {
                proof {
                    lemma_stop_index(script@, i as int);
                }
                return Ok(bytes);
            },
            ReadStep::Failed(failure) => {
                proof {
                    lemma_stop_index(script@, i as int);
                }
                return Err(failure);
            },
        }
    }
    proof {
        lemma_stop_index(script@, i as int);
    }
    Ok(reader.finish())
}

/// Cut points that rise from 0 to the length of `sent`: they part `sent`
/// into consecutive pieces, none of them empty.
pub open spec fn parts(sent: Seq<u8>, cuts: Seq<int>) -> bool {
    &&& cuts.len() >= 1
    &&& cuts[0] == 0
    &&& cuts[cuts.len() - 1] == sent.len()
    &&& forall|i: int| 0 <= i < cuts.len() - 1 ==> #[trigger] cuts[i] < cuts[i + 1]
}

/// A script delivers `sent` in the pieces that `cuts` marks: one chunk per
/// piece, in order, and then, if it goes on, a clean end of input.
pub open spec fn delivers(script: Seq<ReadOutcome>, sent: Seq<u8>, cuts: Seq<int>) -> bool {
    &&& cuts.len() - 1 <= script.len()
    &&& forall|i: int|
        0 <= i < cuts.len() - 1 ==> (#[trigger] script[i]) is Chunk && script[i].data()
            == sent.subrange(cuts[i], cuts[i + 1])
    &&& cuts.len() - 1 < script.len() ==> script[cuts.len() - 1].is_end()
}

proof fn lemma_cuts_in_range(sent: Seq<u8>, cuts: Seq<int>, i: int)
    requires
        parts(sent, cuts),
        0 <= i < cuts.len(),
    ensures
        0 <= cuts[i] <= sent.len(),
        i < cuts.len() - 1 ==> cuts[i + 1] <= sent.len(),
    decreases cuts.len() - i,
{
    if i < cuts.len() - 1 {
        lemma_cuts_in_range(sent, cuts, i + 1);
        assert(cuts[i] < cuts[i + 1]);
    }
    if i > 0 {
        lemma_cuts_rise(cuts, i);
    }
}

proof fn lemma_cuts_rise(cuts: Seq<int>, i: int)
    requires
        cuts.len() >= 1,
        cuts[0] == 0,
        forall|j: int| 0 <= j < cuts.len() - 1 ==> #[trigger] cuts[j] < cuts[j + 1],
        0 <= i < cuts.len(),
    ensures
        0 <= cuts[i],
    decreases i,
{
    if i > 0 {
        lemma_cuts_rise(cuts, i - 1);
        assert(cuts[i - 1] < cuts[i - 1 + 1]);
    }
}

proof fn lemma_gathered_pieces(
    script: Seq<ReadOutcome>,
    sent: Seq<u8>,
    cuts: Seq<int>,
    count: int,
)
    requires
        parts(sent, cuts),
        delivers(script, sent, cuts),
        0 <= count < cuts.len(),
    ensures
        gathered(script, count) == sent.subrange(0, cuts[count]),
    decreases count,
{
    if count == 0 {
        assert(gathered(script, 0) =~= sent.subrange(0, 0));
    } else {
        lemma_gathered_pieces(script, sent, cuts, count - 1);
        lemma_cuts_in_range(sent, cuts, count - 1);
        assert(script[count - 1].data() == sent.subrange(cuts[count - 1], cuts[count - 1 + 1]));
        assert(cuts[count - 1] < cuts[count - 1 + 1]);
        assert(sent.subrange(0, cuts[count - 1]) + sent.subrange(cuts[count - 1], cuts[count])
            =~= sent.subrange(0, cuts[count]));
    }
}

/// Ingestion round trip. However the transport parts the bytes that the
/// sender supplied into reads, draining gives back exactly those bytes: the
/// chunks are joined in arrival order, and reading ends cleanly at the
/// first zero-length read or closed signal, or where the stream has nothing
/// further. What the script holds after that is never read.
pub proof fn lemma_ingest_round_trip(script: Seq<ReadOutcome>, sent: Seq<u8>, cuts: Seq<int>)
    requires
        parts(sent, cuts),
        delivers(script, sent, cuts),
    ensures
        drained(script) == Ok::<Seq<u8>, FailureModel>(sent),
{
    let count = cuts.len() - 1;
    assert forall|i: int| 0 <= i < count implies (#[trigger] script[i]).is_data() by {
        lemma_cuts_in_range(sent, cuts, i);
        assert(cuts[i] < cuts[i + 1]);
    }
    lemma_stop_index(script, count);
    lemma_gathered_pieces(script, sent, cuts, count);
    assert(sent.subrange(0, sent.len() as int) =~= sent);
}

/// A failed read before any clean end fails the whole ingestion with that
/// read's cause, whatever was read before it.
pub proof fn lemma_ingest_failure(script: Seq<ReadOutcome>, at: int)
    requires
        0 <= at < script.len(),
        forall|i: int| 0 <= i < at ==> (#[trigger] script[i]).is_data(),
        script[at] is Failed,
    ensures
        drained(script) == Err::<Seq<u8>, FailureModel>(
            FailureModel::StreamRead(script[at]->Failed_0@),
        ),
{
    lemma_stop_index(script, at);
}

} // verus!
