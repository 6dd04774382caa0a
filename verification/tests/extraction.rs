//! Encoding negotiation, percent and base64url decoding, query lookup,
//! and whole-request parsing.

use base64::engine::general_purpose::URL_SAFE_NO_PAD;
use base64::Engine;
use connect_core::extract::{
    extract_from_get_request, extract_from_post_request, parse_connect_request, parse_encoding,
    parse_timeout_value,
};
use connect_core::percent::percent_decode;
use connect_core::query::query_lookup;
use connect_core::{Code, Encoding, Method};

#[test]
fn negotiation_accepts_the_four_content_types() {
    assert_eq!(parse_encoding(Some("application/json")).unwrap(), Encoding::Json);
    assert_eq!(parse_encoding(Some("application/connect+json")).unwrap(), Encoding::Json);
    assert_eq!(parse_encoding(Some("application/proto")).unwrap(), Encoding::Proto);
    assert_eq!(parse_encoding(Some("application/connect+proto")).unwrap(), Encoding::Proto);
    assert_eq!(
        parse_encoding(Some("application/json; charset=utf-8")).unwrap(),
        Encoding::Json
    );
}

#[test]
fn negotiation_defaults_to_json_when_header_missing() {
    assert_eq!(parse_encoding(None).unwrap(), Encoding::Json);
}

#[test]
fn negotiation_rejects_unknown_content_type() {
    let e = parse_encoding(Some("text/html")).unwrap_err();
    assert!(matches!(e.code, Code::InvalidArgument));
    assert_eq!(e.message, "unsupported content type: text/html");
    let e = parse_encoding(Some("")).unwrap_err();
    assert!(matches!(e.code, Code::InvalidArgument));
}

#[test]
fn timeout_parses_digit_strings() {
    assert_eq!(parse_timeout_value("0").unwrap(), 0);
    assert_eq!(parse_timeout_value("123").unwrap(), 123);
    assert_eq!(parse_timeout_value("007").unwrap(), 7);
    assert_eq!(
        parse_timeout_value("18446744073709551615").unwrap(),
        u64::MAX
    );
}

#[test]
fn timeout_rejects_bad_values() {
    assert!(matches!(parse_timeout_value("").unwrap_err().code, Code::InvalidArgument));
    assert!(matches!(parse_timeout_value("12a").unwrap_err().code, Code::InvalidArgument));
    assert!(matches!(parse_timeout_value("-1").unwrap_err().code, Code::InvalidArgument));
    assert!(matches!(
        parse_timeout_value("18446744073709551616").unwrap_err().code,
        Code::InvalidArgument
    ));
}

#[test]
fn percent_decoding_handles_escapes_plus_and_errors() {
    assert_eq!(percent_decode(b"a%20b").unwrap(), b"a b".to_vec());
    assert_eq!(percent_decode(b"a+b").unwrap(), b"a b".to_vec());
    assert_eq!(percent_decode(b"%E4%B8%AD").unwrap(), vec![0xe4, 0xb8, 0xad]);
    assert_eq!(percent_decode(b"plain").unwrap(), b"plain".to_vec());
    assert!(percent_decode(b"%2").is_err());
    assert!(percent_decode(b"%zz").is_err());
}

#[test]
fn query_lookup_finds_first_match() {
    let q = b"encoding=json&message=abc&a=1&a=2&flag";
    assert_eq!(query_lookup(q, b"encoding").unwrap(), b"json".to_vec());
    assert_eq!(query_lookup(q, b"message").unwrap(), b"abc".to_vec());
    assert_eq!(query_lookup(q, b"a").unwrap(), b"1".to_vec());
    assert_eq!(query_lookup(q, b"flag").unwrap(), b"".to_vec());
    assert_eq!(query_lookup(q, b"missing"), None);
}

#[test]
fn get_extraction_percent_path() {
    let (enc, msg) = extract_from_get_request(Some(b"encoding=json&message=hello%21")).unwrap();
    assert_eq!(enc, Encoding::Json);
    assert_eq!(msg, b"hello!".to_vec());
}

#[test]
fn get_extraction_proto_encoding() {
    let (enc, msg) = extract_from_get_request(Some(b"encoding=proto&message=abc")).unwrap();
    assert_eq!(enc, Encoding::Proto);
    assert_eq!(msg, b"abc".to_vec());
}

#[test]
fn get_extraction_base64_flag() {
    let payload: Vec<u8> = vec![0x00, 0xff, 0x10];
    let encoded = URL_SAFE_NO_PAD.encode(&payload);
    let q = format!("encoding=proto&message={}&base64=1", encoded);
    let (enc, msg) = extract_from_get_request(Some(q.as_bytes())).unwrap();
    assert_eq!(enc, Encoding::Proto);
    assert_eq!(msg, payload);
}

#[test]
fn base64url_padding_edge_round_trip() {
    // Payload length 4 is congruent to 1 modulo 3, the case where padded
    // base64 would end in two `=` signs.
    let payload: Vec<u8> = vec![0xde, 0xad, 0xbe, 0xef];
    assert_eq!(payload.len() % 3, 1);
    let encoded = URL_SAFE_NO_PAD.encode(&payload);
    let q = format!("encoding=json&message={}&base64", encoded);
    let (enc, msg) = extract_from_get_request(Some(q.as_bytes())).unwrap();
    assert_eq!(enc, Encoding::Json);
    assert_eq!(msg, payload);
}

#[test]
fn get_extraction_rejects_bad_base64() {
    let e = extract_from_get_request(Some(b"encoding=json&message=a%2Bb&base64"))
        .unwrap_err();
    assert!(matches!(e.code, Code::InvalidArgument));
}

#[test]
fn get_extraction_missing_message_is_invalid_argument() {
    let e = extract_from_get_request(Some(b"encoding=json")).unwrap_err();
    assert!(matches!(e.code, Code::InvalidArgument));
}

#[test]
fn get_extraction_missing_encoding_is_invalid_argument() {
    let e = extract_from_get_request(Some(b"message=abc")).unwrap_err();
    assert!(matches!(e.code, Code::InvalidArgument));
    assert_eq!(e.message, "GET request missing 'encoding' parameter");
    let e = extract_from_get_request(Some(b"encoding=yaml&message=abc")).unwrap_err();
    assert!(matches!(e.code, Code::InvalidArgument));
    assert_eq!(e.message, "unsupported encoding: yaml");
}

#[test]
fn rejection_messages_name_verb_and_decode_stage() {
    let e = parse_connect_request("DELETE", None, None, None, None, Vec::new()).unwrap_err();
    assert_eq!(e.message, "unsupported HTTP method: DELETE");
    let e = extract_from_get_request(Some(b"encoding=json&message=%zz")).unwrap_err();
    assert_eq!(e.message, "url decode failed");
    let e = extract_from_get_request(Some(b"encoding=json&message=a%2Bb&base64")).unwrap_err();
    assert_eq!(e.message, "base64 decode failed");
}

#[test]
fn get_extraction_missing_query_is_invalid_argument() {
    let e = extract_from_get_request(None).unwrap_err();
    assert!(matches!(e.code, Code::InvalidArgument));
}

#[test]
fn post_extraction_passes_body_through() {
    let (enc, msg) =
        extract_from_post_request(Some("application/connect+proto"), vec![1, 2, 3]).unwrap();
    assert_eq!(enc, Encoding::Proto);
    assert_eq!(msg, vec![1, 2, 3]);
    let (enc, msg) = extract_from_post_request(None, vec![9]).unwrap();
    assert_eq!(enc, Encoding::Json);
    assert_eq!(msg, vec![9]);
}

#[test]
fn parse_request_post() {
    let req = parse_connect_request(
        "POST",
        Some("application/connect+json"),
        Some("250"),
        Some("1"),
        None,
        b"{}".to_vec(),
    )
    .unwrap();
    assert_eq!(req.method, Method::Post);
    assert_eq!(req.encoding, Encoding::Json);
    assert_eq!(req.message, b"{}".to_vec());
    assert_eq!(req.timeout_ms, Some(250));
    assert_eq!(req.protocol_version.as_deref(), Some("1"));
}

#[test]
fn parse_request_get() {
    let req = parse_connect_request(
        "GET",
        None,
        None,
        None,
        Some(b"encoding=proto&message=hi"),
        Vec::new(),
    )
    .unwrap();
    assert_eq!(req.method, Method::Get);
    assert_eq!(req.encoding, Encoding::Proto);
    assert_eq!(req.message, b"hi".to_vec());
    assert_eq!(req.timeout_ms, None);
    assert_eq!(req.protocol_version, None);
}

#[test]
fn parse_request_rejects_other_verbs() {
    let e = parse_connect_request("DELETE", None, None, None, None, Vec::new()).unwrap_err();
    assert!(matches!(e.code, Code::InvalidArgument));
    let e = parse_connect_request("get", None, None, None, None, Vec::new()).unwrap_err();
    assert!(matches!(e.code, Code::InvalidArgument));
}

#[test]
fn parse_request_rejects_bad_timeout() {
    let e = parse_connect_request(
        "POST",
        None,
        Some("soon"),
        None,
        None,
        Vec::new(),
    )
    .unwrap_err();
    assert!(matches!(e.code, Code::InvalidArgument));
}
