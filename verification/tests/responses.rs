use openai_proxy::failure::Failure;
use openai_proxy::response::{
    bad_request, buffered, method_not_allowed, respond, streamed, Header, OutboundResponse,
    ResponseBody, STATUS_BAD_REQUEST, STATUS_METHOD_NOT_ALLOWED, STATUS_OK,
};

fn empty(status: u16) -> OutboundResponse {
    OutboundResponse { status, headers: vec![], body: ResponseBody::Buffered(vec![]) }
}

#[test]
fn status_codes_are_fixed() {
    assert_eq!(STATUS_OK, 200);
    assert_eq!(STATUS_BAD_REQUEST, 400);
    assert_eq!(STATUS_METHOD_NOT_ALLOWED, 405);
}

#[test]
fn respond_builds_an_empty_response() {
    assert_eq!(respond(418), empty(418));
    assert_eq!(respond(0), empty(0));
    assert_eq!(respond(65535), empty(65535));
}

#[test]
fn respond_is_the_same_every_time() {
    assert_eq!(respond(400), respond(400));
    assert_eq!(respond(400).headers, Vec::<Header>::new());
}

#[test]
fn bad_request_is_400_and_empty() {
    assert_eq!(bad_request(), empty(400));
}

#[test]
fn method_not_allowed_is_405_and_empty() {
    assert_eq!(method_not_allowed(), empty(405));
}

#[test]
fn buffered_response_carries_text_plain() {
    let response = buffered(200, "hello");
    assert_eq!(response.status, 200);
    assert_eq!(
        response.headers,
        vec![Header { name: "content-type".to_string(), value: "text/plain".to_string() }]
    );
    assert_eq!(response.body, ResponseBody::Buffered(b"hello".to_vec()));
}

#[test]
fn buffered_response_holds_the_utf8_bytes() {
    let response = buffered(200, "é日");
    assert_eq!(response.body, ResponseBody::Buffered(vec![0xC3, 0xA9, 0xE6, 0x97, 0xA5]));
}

#[test]
fn buffered_response_keeps_the_given_status() {
    assert_eq!(buffered(503, "").status, 503);
    assert_eq!(buffered(503, "").body, ResponseBody::Buffered(vec![]));
}

#[test]
fn streamed_response_is_200_without_headers() {
    assert_eq!(
        streamed(),
        OutboundResponse { status: 200, headers: vec![], body: ResponseBody::Streamed }
    );
}

#[test]
fn route_failure_is_answered_405() {
    assert_eq!(Failure::RouteUnmatched.status(), 405);
    assert_eq!(Failure::RouteUnmatched.response(), empty(405));
}

#[test]
fn body_failures_are_answered_400() {
    let failures = vec![
        Failure::BodyConsume,
        Failure::StreamRead("cause".to_string()),
        Failure::InvalidEncoding(3),
    ];
    for failure in failures.iter() {
        assert_eq!(failure.status(), 400);
        assert_eq!(failure.response(), empty(400));
    }
}
