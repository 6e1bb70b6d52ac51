//! Turning the bytes of a body into a prompt.

use vstd::prelude::*;
use vstd::utf8::{decode_utf8, encode_utf8, encode_utf8_decode_utf8, encode_utf8_valid_utf8, valid_utf8};
use crate::failure::{Failure, FailureModel};
use crate::ingest::{drain, drained};
use crate::request::{InboundRequest, RequestBody};

verus! {

/// `at` is the length of the longest prefix of `bytes` that is valid UTF-8.
pub open spec fn is_valid_up_to(bytes: Seq<u8>, at: int) -> bool {
    &&& 0 <= at <= bytes.len()
    &&& valid_utf8(bytes.subrange(0, at))
    &&& forall|longer: int|
        at < longer <= bytes.len() ==> !valid_utf8(#[trigger] bytes.subrange(0, longer))
}

/// The length of the longest prefix of `bytes` that is valid UTF-8.
pub open spec fn valid_prefix_len(bytes: Seq<u8>) -> int {
    choose|at: int| is_valid_up_to(bytes, at)
}

/// The prompt that a body's bytes stand for: their decoded text, or the
/// failure that names how far they are valid.
pub open spec fn prompt_of(bytes: Seq<u8>) -> Result<Seq<char>, FailureModel> {
    if valid_utf8(bytes) {
        Ok(decode_utf8(bytes))
    } else {
        Err(FailureModel::InvalidEncoding(valid_prefix_len(bytes) as nat))
    }
}

/// A prompt or a failure as a mathematical value.
pub open spec fn extraction_view(extraction: Result<String, Failure>) -> Result<
    Seq<char>,
    FailureModel,
> {
    match extraction {
        Ok(prompt) => Ok(prompt@),
        Err(failure) => Err(failure@),
    }
}

/// At most one index is the length of the longest valid prefix.
pub proof fn lemma_valid_up_to_unique(bytes: Seq<u8>, a: int, b: int)
    requires
        is_valid_up_to(bytes, a),
        is_valid_up_to(bytes, b),
    ensures
        a == b,
{
}

proof fn lemma_search_valid_prefix(bytes: Seq<u8>, from: int)
    requires
        0 <= from <= bytes.len(),
        forall|longer: int|
            from < longer <= bytes.len() ==> !valid_utf8(#[trigger] bytes.subrange(0, longer)),
    ensures
        exists|at: int| is_valid_up_to(bytes, at),
    decreases from,
{
    if valid_utf8(bytes.subrange(0, from)) {
        assert(is_valid_up_to(bytes, from));
    } else {
        assert(from > 0) by {
            if from == 0 {
                assert(bytes.subrange(0, 0).len() == 0);
            }
        }
        lemma_search_valid_prefix(bytes, from - 1);
    }
}

/// Every byte sequence has a longest prefix that is valid UTF-8, and
/// `valid_prefix_len` is its length. Where the whole sequence is valid that
/// is the length of the sequence.
pub proof fn lemma_valid_prefix_len(bytes: Seq<u8>)
    ensures
        is_valid_up_to(bytes, valid_prefix_len(bytes)),
        valid_utf8(bytes) <==> valid_prefix_len(bytes) == bytes.len(),
{
    lemma_search_valid_prefix(bytes, bytes.len() as int);
    assert(bytes.subrange(0, bytes.len() as int) =~= bytes);
}

/// Calls `String::from_utf8` and, where it refuses, reads the offset that
/// `Utf8Error::valid_up_to` reports. Trusted: on success the string's UTF-8
/// encoding is the given bytes; on refusal the bytes are not valid UTF-8 and
/// the offset is the greatest length at which a prefix of them is.
#[verifier::external_body]
fn decode_owned(bytes: Vec<u8>) -> (decoded: Result<String, usize>)
    ensures
        decoded matches Ok(text) ==> encode_utf8(text@) == bytes@,
        decoded matches Err(at) ==> !valid_utf8(bytes@) && is_valid_up_to(bytes@, at as int),
{
    match String::from_utf8(bytes) {
        Ok(text) => Ok(text),
        Err(refusal) => Err(refusal.utf8_error().valid_up_to()),
    }
}

/// Interprets the accumulated bytes of a body as UTF-8 text. An empty body
/// is the empty prompt.
pub fn extract_prompt(bytes: Vec<u8>) -> (extraction: Result<String, Failure>)
    ensures
        extraction_view(extraction) == prompt_of(bytes@),
{
    match decode_owned(bytes) {
        Ok(text) => {
            proof {
                encode_utf8_valid_utf8(text@);
                encode_utf8_decode_utf8(text@);
            }
            Ok(text)
        },
        Err(at) => {
            proof {
                lemma_valid_up_to_unique(bytes@, at as int, valid_prefix_len(bytes@));
            }
            Err(Failure::InvalidEncoding(at))
        },
    }
}

/// The prompt that a recorded body yields: none where the body is
/// unavailable or a read fails, else what the drained bytes stand for.
pub open spec fn extracted(body: RequestBody) -> Result<Seq<char>, FailureModel> {
    match body {
        RequestBody::Unavailable => Err(FailureModel::BodyConsume),
        RequestBody::Stream(script) => match drained(script@) {
            Ok(bytes) => prompt_of(bytes),
            Err(failure) => Err(failure),
        },
    }
}

/// Extracts the prompt of a recorded request: drains its body stream and
/// decodes what was read.
pub fn extract_prompt_from_request(request: &InboundRequest) -> (extraction: Result<
    String,
    Failure,
>)
    ensures
        extraction_view(extraction) == extracted(request.body),
{
    match &request.body {
        RequestBody::Unavailable => Err(Failure::BodyConsume),
        RequestBody::Stream(script) => match drain(script) {
            Ok(bytes) => extract_prompt(bytes),
            Err(failure) => Err(failure),
        },
    }
}

} // verus!
