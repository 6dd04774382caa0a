//! The error translator: the fixed bijection between the sixteen canonical
//! codes, their HTTP status codes, and their canonical snake_case strings,
//! and the JSON error envelope `{"code": ..., "message": ...}` with a
//! `details` array exactly when the error carries details.
//!
//! Canceled maps to 499 and DeadlineExceeded to 504.

use vstd::prelude::*;
use vstd::string::StringSliceAdditionalSpecFns;

use crate::b64::{base64_encode, spec_base64_encoding};
use crate::hex::{hex_digit, spec_hex_digit};
use crate::text::{push_bytes, str_eq};
use crate::{Code, ConnectError, ErrorDetail, ErrorDetailModel};

verus! {

broadcast use vstd::string::group_string_axioms;

/// The canonical lowercase snake_case string of a code.
pub open spec fn spec_code_string(code: Code) -> Seq<char> {
    match code {
        Code::Canceled => "canceled"@,
        Code::Unknown => "unknown"@,
        Code::InvalidArgument => "invalid_argument"@,
        Code::DeadlineExceeded => "deadline_exceeded"@,
        Code::NotFound => "not_found"@,
        Code::AlreadyExists => "already_exists"@,
        Code::PermissionDenied => "permission_denied"@,
        Code::ResourceExhausted => "resource_exhausted"@,
        Code::FailedPrecondition => "failed_precondition"@,
        Code::Aborted => "aborted"@,
        Code::OutOfRange => "out_of_range"@,
        Code::Unimplemented => "unimplemented"@,
        Code::Internal => "internal"@,
        Code::Unavailable => "unavailable"@,
        Code::DataLoss => "data_loss"@,
        Code::Unauthenticated => "unauthenticated"@,
    }
}

/// The HTTP status of a code.
pub open spec fn spec_http_status(code: Code) -> u16 {
    match code {
        Code::Canceled => 499,
        Code::Unknown => 500,
        Code::InvalidArgument => 400,
        Code::DeadlineExceeded => 504,
        Code::NotFound => 404,
        Code::AlreadyExists => 409,
        Code::PermissionDenied => 403,
        Code::ResourceExhausted => 429,
        Code::FailedPrecondition => 400,
        Code::Aborted => 409,
        Code::OutOfRange => 400,
        Code::Unimplemented => 501,
        Code::Internal => 500,
        Code::Unavailable => 503,
        Code::DataLoss => 500,
        Code::Unauthenticated => 401,
    }
}

/// The canonical string for a code.
pub fn code_to_string(code: Code) -> (s: &'static str)
    ensures
        s@ == spec_code_string(code),
{
    match code {
        Code::Canceled => "canceled",
        Code::Unknown => "unknown",
        Code::InvalidArgument => "invalid_argument",
        Code::DeadlineExceeded => "deadline_exceeded",
        Code::NotFound => "not_found",
        Code::AlreadyExists => "already_exists",
        Code::PermissionDenied => "permission_denied",
        Code::ResourceExhausted => "resource_exhausted",
        Code::FailedPrecondition => "failed_precondition",
        Code::Aborted => "aborted",
        Code::OutOfRange => "out_of_range",
        Code::Unimplemented => "unimplemented",
        Code::Internal => "internal",
        Code::Unavailable => "unavailable",
        Code::DataLoss => "data_loss",
        Code::Unauthenticated => "unauthenticated",
    }
}

/// The HTTP status for a code.
pub fn error_code_to_http_status(code: Code) -> (s: u16)
    ensures
        s == spec_http_status(code),
{
    match code {
        Code::Canceled => 499,
        Code::Unknown => 500,
        Code::InvalidArgument => 400,
        Code::DeadlineExceeded => 504,
        Code::NotFound => 404,
        Code::AlreadyExists => 409,
        Code::PermissionDenied => 403,
        Code::ResourceExhausted => 429,
        Code::FailedPrecondition => 400,
        Code::Aborted => 409,
        Code::OutOfRange => 400,
        Code::Unimplemented => 501,
        Code::Internal => 500,
        Code::Unavailable => 503,
        Code::DataLoss => 500,
        Code::Unauthenticated => 401,
    }
}

/// The inverse of the code → string mapping: `Some(c)` exactly when `s` is
/// the canonical string of `c`, `None` when `s` names no code.
pub fn code_from_string(s: &str) -> (r: Option<Code>)
    ensures
        match r {
            Some(c) => spec_code_string(c) == s@,
            None => forall|c: Code| spec_code_string(c) != s@,
        },
{
    if str_eq(s, "canceled") {
        Some(Code::Canceled)
    } else if str_eq(s, "unknown") {
        Some(Code::Unknown)
    } else if str_eq(s, "invalid_argument") {
        Some(Code::InvalidArgument)
    } else if str_eq(s, "deadline_exceeded") {
        Some(Code::DeadlineExceeded)
    } else if str_eq(s, "not_found") {
        Some(Code::NotFound)
    } else if str_eq(s, "already_exists") {
        Some(Code::AlreadyExists)
    } else if str_eq(s, "permission_denied") {
        Some(Code::PermissionDenied)
    } else if str_eq(s, "resource_exhausted") {
        Some(Code::ResourceExhausted)
    } else if str_eq(s, "failed_precondition") {
        Some(Code::FailedPrecondition)
    } else if str_eq(s, "aborted") {
        Some(Code::Aborted)
    } else if str_eq(s, "out_of_range") {
        Some(Code::OutOfRange)
    } else if str_eq(s, "unimplemented") {
        Some(Code::Unimplemented)
    } else if str_eq(s, "internal") {
        Some(Code::Internal)
    } else if str_eq(s, "unavailable") {
        Some(Code::Unavailable)
    } else if str_eq(s, "data_loss") {
        Some(Code::DataLoss)
    } else if str_eq(s, "unauthenticated") {
        Some(Code::Unauthenticated)
    } else {
        assert forall|c: Code| spec_code_string(c) != s@ by {
            match c {
                Code::Canceled => assert(spec_code_string(c) != s@),
                Code::Unknown => assert(spec_code_string(c) != s@),
                Code::InvalidArgument => assert(spec_code_string(c) != s@),
                Code::DeadlineExceeded => assert(spec_code_string(c) != s@),
                Code::NotFound => assert(spec_code_string(c) != s@),
                Code::AlreadyExists => assert(spec_code_string(c) != s@),
                Code::PermissionDenied => assert(spec_code_string(c) != s@),
                Code::ResourceExhausted => assert(spec_code_string(c) != s@),
                Code::FailedPrecondition => assert(spec_code_string(c) != s@),
                Code::Aborted => assert(spec_code_string(c) != s@),
                Code::OutOfRange => assert(spec_code_string(c) != s@),
                Code::Unimplemented => assert(spec_code_string(c) != s@),
                Code::Internal => assert(spec_code_string(c) != s@),
                Code::Unavailable => assert(spec_code_string(c) != s@),
                Code::DataLoss => assert(spec_code_string(c) != s@),
                Code::Unauthenticated => assert(spec_code_string(c) != s@),
            }
        }
        None
    }
}

/// The code ↔ string mapping is injective, so together with
/// [`code_from_string`]'s contract it is a bijection between the sixteen
/// codes and their sixteen canonical strings.
pub proof fn lemma_code_string_injective(c1: Code, c2: Code)
    ensures
        spec_code_string(c1) == spec_code_string(c2) ==> c1 == c2,
{
    reveal_strlit("canceled");
    reveal_strlit("unknown");
    reveal_strlit("invalid_argument");
    reveal_strlit("deadline_exceeded");
    reveal_strlit("not_found");
    reveal_strlit("already_exists");
    reveal_strlit("permission_denied");
    reveal_strlit("resource_exhausted");
    reveal_strlit("failed_precondition");
    reveal_strlit("aborted");
    reveal_strlit("out_of_range");
    reveal_strlit("unimplemented");
    reveal_strlit("internal");
    reveal_strlit("unavailable");
    reveal_strlit("data_loss");
    reveal_strlit("unauthenticated");
    if spec_code_string(c1) == spec_code_string(c2) && c1 != c2 {
        assert(spec_code_string(c1)[0] == spec_code_string(c2)[0]);
        assert(spec_code_string(c1)[1] == spec_code_string(c2)[1]);
        assert(spec_code_string(c1).len() == spec_code_string(c2).len());
        assert(false);
    }
}

/// One byte of a JSON string body: quote and backslash are escaped, control
/// bytes become `\u00XX`, and every other byte (UTF-8 continuation bytes
/// included) passes through unchanged.
pub open spec fn spec_escape_byte(b: u8) -> Seq<u8> {
    if b == 0x22 {
        seq![0x5c as u8, 0x22 as u8]
    } else if b == 0x5c {
        seq![0x5c as u8, 0x5c as u8]
    } else if b < 0x20 {
        seq![0x5c as u8, 0x75 as u8, 0x30 as u8, 0x30 as u8, spec_hex_digit(b / 16), spec_hex_digit(b % 16)]
    } else {
        seq![b]
    }
}

/// The JSON string escaping of a whole byte sequence.
pub open spec fn spec_json_escaped(s: Seq<u8>) -> Seq<u8>
    decreases s.len(),
{
    if s.len() == 0 {
        Seq::empty()
    } else {
        spec_escape_byte(s[0]) + spec_json_escaped(s.skip(1))
    }
}

/// Escaping distributes over appending one byte at the end.
pub proof fn lemma_json_escaped_push(s: Seq<u8>, b: u8)
    ensures
        spec_json_escaped(s.push(b)) == spec_json_escaped(s) + spec_escape_byte(b),
    decreases s.len(),
{
    if s.len() == 0 {
        assert(s.push(b).skip(1) =~= Seq::<u8>::empty());
        assert(s.push(b)[0] == b);
        assert(spec_json_escaped(Seq::<u8>::empty()) =~= Seq::<u8>::empty());
        assert(spec_json_escaped(s) =~= Seq::<u8>::empty());
        assert(spec_json_escaped(s.push(b)) =~= spec_escape_byte(b) + spec_json_escaped(Seq::<u8>::empty()));
        assert(spec_json_escaped(s.push(b)) =~= spec_json_escaped(s) + spec_escape_byte(b));
    } else {
        assert(s.push(b).skip(1) =~= s.skip(1).push(b));
        lemma_json_escaped_push(s.skip(1), b);
        assert(spec_json_escaped(s.push(b)) =~= spec_json_escaped(s) + spec_escape_byte(b));
    }
}

/// Appends the JSON escaping of `msg` to `v`.
fn push_escaped(v: &mut Vec<u8>, msg: &[u8])
    ensures
        final(v)@ == old(v)@ + spec_json_escaped(msg@),
{
    let n = msg.len();
    let mut i: usize = 0;
    assert(msg@.subrange(0, 0) =~= Seq::<u8>::empty());
    assert(v@ =~= old(v)@ + spec_json_escaped(msg@.subrange(0, 0)));
    while i < n
        invariant
            i <= n,
            n == msg@.len(),
            v@ == old(v)@ + spec_json_escaped(msg@.subrange(0, i as int)),
        decreases n - i,
    {
        let b = msg[i];
        if b == 0x22 {
            v.push(0x5c);
            v.push(0x22);
        } else if b == 0x5c {
            v.push(0x5c);
            v.push(0x5c);
        } else if b < 0x20 {
            v.push(0x5c);
            v.push(0x75);
            v.push(0x30);
            v.push(0x30);
            v.push(hex_digit(b / 16));
            v.push(hex_digit(b % 16));
        } else {
            v.push(b);
        }
        proof {
            lemma_json_escaped_push(msg@.subrange(0, i as int), msg@[i as int]);
            assert(msg@.subrange(0, i + 1) =~= msg@.subrange(0, i as int).push(msg@[i as int]));
            assert(v@ =~= old(v)@ + spec_json_escaped(msg@.subrange(0, i + 1)));
        }
        i += 1;
    }
    assert(msg@.subrange(0, n as int) =~= msg@);
}

/// The JSON object of one error detail: the type URL as an escaped JSON
/// string, the value in unpadded standard base64.
pub open spec fn spec_detail_json(d: ErrorDetailModel) -> Seq<u8> {
    "{\"type\":\"".spec_bytes() + spec_json_escaped(vstd::utf8::encode_utf8(d.type_url))
        + "\",\"value\":\"".spec_bytes() + spec_base64_encoding(d.value) + "\"}".spec_bytes()
}

/// The comma-joined JSON objects of a detail list.
pub open spec fn spec_details_json(ds: Seq<ErrorDetailModel>) -> Seq<u8>
    decreases ds.len(),
{
    if ds.len() == 0 {
        Seq::empty()
    } else if ds.len() == 1 {
        spec_detail_json(ds[0])
    } else {
        spec_details_json(ds.drop_last()) + ",".spec_bytes() + spec_detail_json(ds.last())
    }
}

/// The exact bytes of the error envelope: code and message always, and a
/// `details` array exactly when the detail list is non-empty. The message
/// is given as its UTF-8 bytes.
pub open spec fn spec_error_body(code: Code, msg: Seq<u8>, details: Seq<ErrorDetailModel>) -> Seq<
    u8,
> {
    let head = "{\"code\":\"".spec_bytes() + vstd::utf8::encode_utf8(spec_code_string(code))
        + "\",\"message\":\"".spec_bytes() + spec_json_escaped(msg);
    if details.len() == 0 {
        head + "\"}".spec_bytes()
    } else {
        head + "\",\"details\":[".spec_bytes() + spec_details_json(details) + "]}".spec_bytes()
    }
}

/// Appends the JSON object of one detail to `v`.
fn push_detail(v: &mut Vec<u8>, d: &ErrorDetail)
    ensures
        final(v)@ == old(v)@ + spec_detail_json(d@),
{
    push_bytes(v, "{\"type\":\"".as_bytes());
    push_escaped(v, d.type_url.as_str().as_bytes());
    push_bytes(v, "\",\"value\":\"".as_bytes());
    let encoded = base64_encode(d.value.as_slice());
    push_bytes(v, encoded.as_slice());
    push_bytes(v, "\"}".as_bytes());
    assert(v@ =~= old(v)@ + spec_detail_json(d@));
}

/// Builds the JSON error envelope `{"code": <string>, "message": <string>}`,
/// with a `"details"` array present exactly when the error carries details.
pub fn build_error_body(error: &ConnectError) -> (b: Vec<u8>)
    ensures
        b@ == spec_error_body(
            error.code,
            vstd::utf8::encode_utf8(error.message@),
            error.details@.map_values(|d: ErrorDetail| d@),
        ),
{
    let ghost dv = error.details@.map_values(|d: ErrorDetail| d@);
    let mut v: Vec<u8> = Vec::new();
    push_bytes(&mut v, "{\"code\":\"".as_bytes());
    let cs = code_to_string(error.code);
    push_bytes(&mut v, cs.as_bytes());
    push_bytes(&mut v, "\",\"message\":\"".as_bytes());
    push_escaped(&mut v, error.message.as_str().as_bytes());
    let n = error.details.len();
    assert(dv.len() == n);
    if n == 0 {
        push_bytes(&mut v, "\"}".as_bytes());
        assert(v@ =~= spec_error_body(error.code, vstd::utf8::encode_utf8(error.message@), dv));
        return v;
    }
    push_bytes(&mut v, "\",\"details\":[".as_bytes());
    let ghost base = v@;
    let mut i: usize = 0;
    proof {
        assert(dv.take(0) =~= Seq::<ErrorDetailModel>::empty());
        assert(v@ =~= base + spec_details_json(dv.take(0)));
    }
    while i < n
        invariant
            i <= n,
            n == error.details@.len(),
            dv == error.details@.map_values(|d: ErrorDetail| d@),
            v@ == base + spec_details_json(dv.take(i as int)),
        decreases n - i,
    {
        if i > 0 {
            push_bytes(&mut v, ",".as_bytes());
        }
        assert(dv[i as int] == error.details@[i as int]@);
        push_detail(&mut v, &error.details[i]);
        proof {
            assert(dv.take(i + 1).drop_last() =~= dv.take(i as int));
            assert(dv.take(i + 1).last() == dv[i as int]);
            if i == 0 {
                assert(spec_details_json(dv.take(1)) == spec_detail_json(dv[0]));
            }
            assert(v@ =~= base + spec_details_json(dv.take(i + 1)));
        }
        i += 1;
    }
    assert(dv.take(n as int) =~= dv);
    push_bytes(&mut v, "]}".as_bytes());
    assert(v@ =~= spec_error_body(error.code, vstd::utf8::encode_utf8(error.message@), dv));
    v
}

/// Turns an error into the HTTP response that reports it: the status from
/// the fixed table, the JSON envelope as the body, and an
/// `application/json` content type.
pub fn build_error_response(error: ConnectError) -> (r: (u16, Vec<u8>, &'static str))
    ensures
        r.0 == spec_http_status(error.code),
        r.1@ == spec_error_body(
            error.code,
            vstd::utf8::encode_utf8(error.message@),
            error.details@.map_values(|d: ErrorDetail| d@),
        ),
        r.2@ == "application/json"@,
{
    let status = error_code_to_http_status(error.code);
    let body = build_error_body(&error);
    (status, body, "application/json")
}

} // verus!
