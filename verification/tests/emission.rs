use openai_proxy::emit::{emit, Emitter, TransportOp, WRITE_LIMIT};
use openai_proxy::response::{
    buffered, respond, streamed, Header, OutboundResponse, ResponseBody,
};

fn pattern(len: usize) -> Vec<u8> {
    let mut bytes = Vec::new();
    for i in 0..len {
        bytes.push((i % 253) as u8);
    }
    bytes
}

fn with_payload(payload: Vec<u8>) -> OutboundResponse {
    OutboundResponse { status: 200, headers: vec![], body: ResponseBody::Buffered(payload) }
}

fn written(plan: &Vec<TransportOp>) -> Vec<u8> {
    let mut bytes = Vec::new();
    for op in plan.iter() {
        if let TransportOp::Write { chunk } = op {
            bytes.extend_from_slice(chunk);
        }
    }
    bytes
}

fn chunk_lengths(plan: &Vec<TransportOp>) -> Vec<usize> {
    let mut lengths = Vec::new();
    for op in plan.iter() {
        if let TransportOp::Write { chunk } = op {
            lengths.push(chunk.len());
        }
    }
    lengths
}

#[test]
fn write_limit_is_4096() {
    assert_eq!(WRITE_LIMIT, 4096);
}

#[test]
fn error_response_is_committed_and_finished() {
    assert_eq!(
        emit(respond(405)),
        vec![TransportOp::Commit { status: 405, headers: vec![] }, TransportOp::Finish]
    );
}

#[test]
fn streamed_response_is_committed_and_handed_over() {
    assert_eq!(
        emit(streamed()),
        vec![TransportOp::Commit { status: 200, headers: vec![] }, TransportOp::HandOver]
    );
}

#[test]
fn small_payload_is_one_write() {
    assert_eq!(
        emit(buffered(200, "hello")),
        vec![
            TransportOp::Commit {
                status: 200,
                headers: vec![Header {
                    name: "content-type".to_string(),
                    value: "text/plain".to_string(),
                }],
            },
            TransportOp::Write { chunk: b"hello".to_vec() },
            TransportOp::Finish,
        ]
    );
}

#[test]
fn empty_payload_has_no_write() {
    let plan = emit(buffered(200, ""));
    assert_eq!(plan.len(), 2);
    assert_eq!(plan[1], TransportOp::Finish);
}

#[test]
fn payload_at_the_limit_is_one_chunk() {
    let payload = pattern(4096);
    let plan = emit(with_payload(payload.clone()));
    assert_eq!(chunk_lengths(&plan), vec![4096]);
    assert_eq!(written(&plan), payload);
}

#[test]
fn payload_one_over_the_limit_is_two_chunks() {
    let payload = pattern(4097);
    let plan = emit(with_payload(payload.clone()));
    assert_eq!(chunk_lengths(&plan), vec![4096, 1]);
    assert_eq!(plan[1], TransportOp::Write { chunk: payload[..4096].to_vec() });
    assert_eq!(plan[2], TransportOp::Write { chunk: payload[4096..].to_vec() });
    assert_eq!(plan[3], TransportOp::Finish);
}

#[test]
fn ten_thousand_bytes_are_three_chunks() {
    let payload = pattern(10000);
    let plan = emit(with_payload(payload.clone()));
    assert_eq!(chunk_lengths(&plan), vec![4096, 4096, 1808]);
    assert_eq!(written(&plan), payload);
}

#[test]
fn chunks_round_trip_at_every_boundary() {
    for len in [0usize, 1, 4095, 4096, 4097, 8191, 8192, 8193, 12288, 20000] {
        let payload = pattern(len);
        let plan = emit(with_payload(payload.clone()));
        let lengths = chunk_lengths(&plan);
        assert_eq!(lengths.len(), (len + 4095) / 4096);
        for length in lengths.iter() {
            assert!(*length >= 1 && *length <= 4096);
        }
        assert_eq!(written(&plan), payload);
        assert_eq!(plan.len(), lengths.len() + 2);
    }
}

#[test]
fn plan_commits_once_and_first() {
    let plan = emit(buffered(200, &"x".repeat(9000)));
    assert!(matches!(plan[0], TransportOp::Commit { status: 200, .. }));
    for op in plan[1..].iter() {
        assert!(!matches!(op, TransportOp::Commit { .. }));
    }
    assert_eq!(plan[plan.len() - 1], TransportOp::Finish);
    for op in plan[1..plan.len() - 1].iter() {
        assert!(matches!(op, TransportOp::Write { .. }));
    }
}

#[test]
fn headers_pass_through_the_commit() {
    let headers = vec![
        Header { name: "a".to_string(), value: "1".to_string() },
        Header { name: "a".to_string(), value: "2".to_string() },
    ];
    let response =
        OutboundResponse { status: 201, headers: headers.clone(), body: ResponseBody::Streamed };
    assert_eq!(emit(response)[0], TransportOp::Commit { status: 201, headers });
}

#[test]
fn multibyte_answer_round_trips_through_chunks() {
    let answer = "日本語".repeat(1000);
    let plan = emit(buffered(200, &answer));
    assert_eq!(chunk_lengths(&plan), vec![4096, 4096, 808]);
    assert_eq!(String::from_utf8(written(&plan)), Ok(answer));
}

fn handed_out(emitter: &mut Emitter, reports: &[bool]) -> Vec<TransportOp> {
    let mut ops = Vec::new();
    let mut next = 0;
    loop {
        match emitter.current() {
            Some(op) => ops.push(op.clone()),
            None => break,
        }
        let succeeded = if next < reports.len() { reports[next] } else { true };
        next += 1;
        emitter.report(succeeded);
    }
    ops
}

#[test]
fn emitter_hands_out_the_plan_in_order() {
    let payload = pattern(9000);
    let mut emitter = Emitter::new(with_payload(payload.clone()));
    assert!(!emitter.is_complete());
    let ops = handed_out(&mut emitter, &[]);
    assert_eq!(ops, emit(with_payload(payload)));
    assert!(emitter.is_complete());
    assert!(!emitter.is_aborted());
    assert_eq!(emitter.current(), None);
}

#[test]
fn emitter_stops_at_the_first_failed_write() {
    let payload = pattern(9000);
    let plan = emit(with_payload(payload.clone()));
    let mut emitter = Emitter::new(with_payload(payload));
    let ops = handed_out(&mut emitter, &[true, true, false]);
    assert_eq!(ops, plan[..3].to_vec());
    assert!(emitter.is_aborted());
    assert!(!emitter.is_complete());
    assert_eq!(emitter.current(), None);
}

#[test]
fn emitter_stays_aborted_whatever_is_reported() {
    let mut emitter = Emitter::new(respond(400));
    emitter.report(false);
    assert!(emitter.is_aborted());
    emitter.report(true);
    emitter.report(true);
    assert!(emitter.is_aborted());
    assert!(!emitter.is_complete());
    assert_eq!(emitter.current(), None);
}

#[test]
fn emitter_ignores_reports_once_complete() {
    let mut emitter = Emitter::new(respond(405));
    assert_eq!(
        emitter.current(),
        Some(&TransportOp::Commit { status: 405, headers: vec![] })
    );
    emitter.report(true);
    assert_eq!(emitter.current(), Some(&TransportOp::Finish));
    emitter.report(true);
    assert!(emitter.is_complete());
    emitter.report(false);
    assert!(emitter.is_complete());
    assert!(!emitter.is_aborted());
}

#[test]
fn emitter_repeats_the_due_operation_until_reported() {
    let emitter = Emitter::new(streamed());
    assert_eq!(emitter.current(), emitter.current());
    assert_eq!(
        emitter.current(),
        Some(&TransportOp::Commit { status: 200, headers: vec![] })
    );
}
