//! The error translator: the full sixteen-row table, the inverse mapping,
//! and the JSON envelope.

use base64::engine::general_purpose::STANDARD_NO_PAD;
use base64::Engine;
use connect_core::error::{
    build_error_body, build_error_response, code_from_string, code_to_string,
    error_code_to_http_status,
};
use connect_core::{Code, ConnectError, ErrorDetail};

const TABLE: [(Code, u16, &str); 16] = [
    (Code::Canceled, 499, "canceled"),
    (Code::Unknown, 500, "unknown"),
    (Code::InvalidArgument, 400, "invalid_argument"),
    (Code::DeadlineExceeded, 504, "deadline_exceeded"),
    (Code::NotFound, 404, "not_found"),
    (Code::AlreadyExists, 409, "already_exists"),
    (Code::PermissionDenied, 403, "permission_denied"),
    (Code::ResourceExhausted, 429, "resource_exhausted"),
    (Code::FailedPrecondition, 400, "failed_precondition"),
    (Code::Aborted, 409, "aborted"),
    (Code::OutOfRange, 400, "out_of_range"),
    (Code::Unimplemented, 501, "unimplemented"),
    (Code::Internal, 500, "internal"),
    (Code::Unavailable, 503, "unavailable"),
    (Code::DataLoss, 500, "data_loss"),
    (Code::Unauthenticated, 401, "unauthenticated"),
];

#[test]
fn status_table_all_sixteen_codes() {
    for (code, status, _) in TABLE {
        assert_eq!(error_code_to_http_status(code), status);
    }
}

#[test]
fn string_table_all_sixteen_codes() {
    for (code, _, name) in TABLE {
        assert_eq!(code_to_string(code), name);
    }
}

#[test]
fn string_round_trip_all_sixteen_codes() {
    for (code, _, name) in TABLE {
        assert_eq!(code_from_string(name), Some(code));
        assert_eq!(code_from_string(code_to_string(code)), Some(code));
    }
}

#[test]
fn unknown_strings_name_no_code() {
    assert_eq!(code_from_string(""), None);
    assert_eq!(code_from_string("cancelled"), None);
    assert_eq!(code_from_string("Canceled"), None);
    assert_eq!(code_from_string("internal_error"), None);
}

#[test]
fn error_body_all_sixteen_codes() {
    for (code, _, name) in TABLE {
        let body = build_error_body(&ConnectError::new(code, "boom"));
        let expected = format!("{{\"code\":\"{}\",\"message\":\"boom\"}}", name);
        assert_eq!(body, expected.into_bytes());
    }
}

#[test]
fn error_body_escapes_message() {
    let body = build_error_body(&ConnectError::internal("a\"b\\c\nd"));
    assert_eq!(
        body,
        b"{\"code\":\"internal\",\"message\":\"a\\\"b\\\\c\\u000ad\"}".to_vec()
    );
}

#[test]
fn error_body_keeps_non_ascii() {
    let body = build_error_body(&ConnectError::new(Code::Unknown, "héllo"));
    let expected = format!("{{\"code\":\"unknown\",\"message\":\"{}\"}}", "héllo");
    assert_eq!(body, expected.into_bytes());
}

#[test]
fn error_body_omits_details_when_empty() {
    let e = ConnectError::new(Code::NotFound, "gone");
    assert!(e.details.is_empty());
    let body = build_error_body(&e);
    assert!(!String::from_utf8(body).unwrap().contains("details"));
}

#[test]
fn error_body_serializes_details_when_present() {
    let mut e = ConnectError::new(Code::FailedPrecondition, "held");
    e.details.push(ErrorDetail {
        type_url: "type.example.com/RetryInfo".to_string(),
        value: vec![1, 2, 3],
    });
    e.details.push(ErrorDetail {
        type_url: "type.example.com/DebugInfo".to_string(),
        value: vec![0xff],
    });
    let body = build_error_body(&e);
    let expected = format!(
        "{{\"code\":\"failed_precondition\",\"message\":\"held\",\"details\":[{{\"type\":\"type.example.com/RetryInfo\",\"value\":\"{}\"}},{{\"type\":\"type.example.com/DebugInfo\",\"value\":\"{}\"}}]}}",
        STANDARD_NO_PAD.encode([1u8, 2, 3]),
        STANDARD_NO_PAD.encode([0xffu8]),
    );
    assert_eq!(body, expected.into_bytes());
}

#[test]
fn error_response_parts() {
    let err = ConnectError::invalid_argument("bad input");
    let (status, body, content_type) = build_error_response(err);
    assert_eq!(status, 400);
    assert_eq!(
        body,
        b"{\"code\":\"invalid_argument\",\"message\":\"bad input\"}".to_vec()
    );
    assert_eq!(content_type, "application/json");
}

#[test]
fn constructors_set_code_message_and_empty_details() {
    let e = ConnectError::new(Code::Aborted, "a");
    assert!(matches!(e.code, Code::Aborted));
    assert_eq!(e.message, "a");
    assert!(e.details.is_empty());
    assert!(matches!(ConnectError::internal("x").code, Code::Internal));
    assert!(matches!(
        ConnectError::invalid_argument("x").code,
        Code::InvalidArgument
    ));
    assert!(matches!(ConnectError::not_found("x").code, Code::NotFound));
    assert!(matches!(
        ConnectError::unimplemented("x").code,
        Code::Unimplemented
    ));
}
