//! The reference codec, the dispatcher, and the end-to-end scenarios that
//! run a request through extraction, dispatch, and response building.

use std::cell::Cell;

use connect_core::dispatch::dispatch;
use connect_core::extract::parse_connect_request;
use connect_core::message::{ConnectMessage, EchoMessage};
use connect_core::response::build_connect_response;
use connect_core::{Code, ConnectError, Encoding};

#[test]
fn echo_json_codec_round_trips() {
    let m = EchoMessage { data: vec![0xab, 0x01] };
    let encoded = m.encode_json().unwrap();
    assert_eq!(encoded, b"\"ab01\"".to_vec());
    let decoded = EchoMessage::decode_json(&encoded).unwrap();
    assert_eq!(decoded.data, vec![0xab, 0x01]);
    let re_encoded = decoded.encode_json().unwrap();
    assert_eq!(re_encoded, encoded);
}

#[test]
fn echo_proto_codec_round_trips() {
    let m = EchoMessage { data: vec![1, 2, 3] };
    let encoded = m.encode_proto().unwrap();
    assert_eq!(encoded, vec![1, 2, 3]);
    let decoded = EchoMessage::decode_proto(&encoded).unwrap();
    assert_eq!(decoded.data, vec![1, 2, 3]);
    let re_encoded = decoded.encode_proto().unwrap();
    assert_eq!(re_encoded, encoded);
}

#[test]
fn echo_json_codec_rejects_bad_payloads() {
    for bad in [&b""[..], b"ab01", b"\"ab0\"", b"\"zz\"", b"\"AB\""] {
        let e = EchoMessage::decode_json(bad).unwrap_err();
        assert!(matches!(e.code, Code::InvalidArgument));
    }
}

#[test]
fn dispatch_echoes_proto_post_byte_identical() {
    // A POST with Content-Type application/connect+proto and a known
    // binary message, through a no-op echo handler.
    let payload: Vec<u8> = vec![0x08, 0x96, 0x01];
    let req = parse_connect_request(
        "POST",
        Some("application/connect+proto"),
        None,
        None,
        None,
        payload.clone(),
    )
    .unwrap();
    let resp = dispatch(&req, |m: EchoMessage| Ok::<EchoMessage, ConnectError>(m)).unwrap();
    assert_eq!(resp.encoding, Encoding::Proto);
    assert_eq!(resp.message, payload);
    let (status, body, content_type) = build_connect_response(resp.message, resp.encoding);
    assert_eq!(status, 200);
    assert_eq!(body, payload);
    assert_eq!(content_type, "application/connect+proto");
}

#[test]
fn dispatch_mirrors_json_encoding() {
    let req = parse_connect_request(
        "POST",
        Some("application/connect+json"),
        None,
        None,
        None,
        b"\"ff00\"".to_vec(),
    )
    .unwrap();
    let resp = dispatch(&req, |m: EchoMessage| Ok::<EchoMessage, ConnectError>(m)).unwrap();
    assert_eq!(resp.encoding, Encoding::Json);
    assert_eq!(resp.message, b"\"ff00\"".to_vec());
}

#[test]
fn dispatch_decode_failure_never_invokes_handler() {
    let invoked = Cell::new(false);
    let req = parse_connect_request(
        "POST",
        Some("application/json"),
        None,
        None,
        None,
        b"not hex".to_vec(),
    )
    .unwrap();
    let e = dispatch(&req, |m: EchoMessage| {
        invoked.set(true);
        Ok::<EchoMessage, ConnectError>(m)
    })
    .unwrap_err();
    assert!(matches!(e.code, Code::InvalidArgument));
    assert!(!invoked.get());
}

#[test]
fn get_missing_message_never_invokes_handler() {
    // The request is rejected during extraction, before dispatch exists.
    let e = parse_connect_request(
        "GET",
        None,
        None,
        None,
        Some(b"encoding=json"),
        Vec::new(),
    )
    .unwrap_err();
    assert!(matches!(e.code, Code::InvalidArgument));
}

#[test]
fn handler_errors_pass_through_unmodified() {
    let req = parse_connect_request(
        "POST",
        Some("application/connect+proto"),
        None,
        None,
        None,
        vec![1],
    )
    .unwrap();
    let e = dispatch(&req, |_m: EchoMessage| {
        Err::<EchoMessage, ConnectError>(ConnectError::not_found("no such user"))
    })
    .unwrap_err();
    assert!(matches!(e.code, Code::NotFound));
    assert_eq!(e.message, "no such user");
}

#[test]
fn get_and_post_produce_identical_results_for_equivalent_input() {
    // The same payload once as a POST body and once as a percent-encoded
    // GET message, dispatched through the same echo handler.
    let payload = b"hi there".to_vec();
    let post_req = parse_connect_request(
        "POST",
        Some("application/connect+proto"),
        None,
        None,
        None,
        payload.clone(),
    )
    .unwrap();
    let get_req = parse_connect_request(
        "GET",
        None,
        None,
        None,
        Some(b"encoding=proto&message=hi%20there"),
        Vec::new(),
    )
    .unwrap();
    assert_eq!(post_req.encoding, get_req.encoding);
    assert_eq!(post_req.message, get_req.message);
    let post_resp =
        dispatch(&post_req, |m: EchoMessage| Ok::<EchoMessage, ConnectError>(m)).unwrap();
    let get_resp =
        dispatch(&get_req, |m: EchoMessage| Ok::<EchoMessage, ConnectError>(m)).unwrap();
    assert_eq!(post_resp.encoding, get_resp.encoding);
    assert_eq!(post_resp.message, get_resp.message);
}

#[test]
fn success_response_is_200_with_mirrored_content_type() {
    let (status, body, content_type) = build_connect_response(vec![1, 2], Encoding::Json);
    assert_eq!(status, 200);
    assert_eq!(body, vec![1, 2]);
    assert_eq!(content_type, "application/connect+json");
}
