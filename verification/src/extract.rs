//! Request extraction: encoding negotiation from a Content-Type header or
//! an `encoding` query parameter, message extraction from a POST body or a
//! percent-/base64url-encoded GET query, and the timeout header.
//!
//! GET requests carry `?encoding=json|proto&message=<encoded>` and an
//! optional `base64` flag: with the flag the message value is
//! percent-decoded and then base64url-decoded (no padding); without it the
//! percent-decoded value is the message itself.

use vstd::prelude::*;
use vstd::string::{StringExecFns, StringSliceAdditionalSpecFns};

use crate::b64::{base64url_decode, spec_base64url_decoding};
use crate::percent::{percent_decode, spec_percent_decoding};
use crate::query::{query_lookup, spec_query_has_key, spec_query_lookup};
use crate::text::{ascii_lossy, spec_ascii_lossy, spec_starts_with, starts_with, str_eq};
use crate::{Code, ConnectError, ConnectRequest, ConnectRequestModel, Encoding, Method};

verus! {

broadcast use vstd::string::group_string_axioms;

/// The encoding named by a Content-Type value, by prefix match; `None`
/// when the value names neither wire encoding.
pub open spec fn spec_content_type_encoding(ct: Seq<char>) -> Option<Encoding> {
    if spec_starts_with(ct, "application/connect+json"@) || spec_starts_with(
        ct,
        "application/json"@,
    ) {
        Some(Encoding::Json)
    } else if spec_starts_with(ct, "application/connect+proto"@) || spec_starts_with(
        ct,
        "application/proto"@,
    ) {
        Some(Encoding::Proto)
    } else {
        None
    }
}

/// Negotiates the encoding of a POST request from its Content-Type header:
/// a missing header defaults to JSON, an unrecognized one is rejected with
/// a message naming the offending value.
pub fn parse_encoding(content_type: Option<&str>) -> (r: Result<Encoding, ConnectError>)
    ensures
        match content_type {
            None => r matches Ok(e) && e == Encoding::Json,
            Some(ct) => match spec_content_type_encoding(ct@) {
                Some(enc) => r matches Ok(e) && e == enc,
                None => r matches Err(e) && e.code == Code::InvalidArgument && e.message@
                    == "unsupported content type: "@ + ct@,
            },
        },
{
    match content_type {
        None => Ok(Encoding::Json),
        Some(ct) => {
            if starts_with(ct, "application/connect+json") || starts_with(ct, "application/json") {
                Ok(Encoding::Json)
            } else if starts_with(ct, "application/connect+proto") || starts_with(
                ct,
                "application/proto",
            ) {
                Ok(Encoding::Proto)
            } else {
                let mut m = String::from_str("unsupported content type: ");
                m.append(ct);
                Err(ConnectError::invalid_argument(m.as_str()))
            }
        },
    }
}

/// A nonempty string of decimal digits.
pub open spec fn spec_is_digits(s: Seq<char>) -> bool {
    s.len() > 0 && forall|i: int| 0 <= i < s.len() ==> '0' <= s[i] && s[i] <= '9'
}

/// The number a digit string denotes.
pub open spec fn spec_decimal_value(s: Seq<char>) -> nat
    decreases s.len(),
{
    if s.len() == 0 {
        0
    } else {
        spec_decimal_value(s.drop_last()) * 10 + (s.last() as u32 - 0x30) as nat
    }
}

/// A digit string denotes at least what any of its prefixes denotes.
proof fn lemma_decimal_value_monotonic(s: Seq<char>, k: int)
    requires
        0 <= k <= s.len(),
        forall|i: int| 0 <= i < s.len() ==> '0' <= s[i] && s[i] <= '9',
    ensures
        spec_decimal_value(s) >= spec_decimal_value(s.take(k)),
    decreases s.len() - k,
{
    if k < s.len() {
        lemma_decimal_value_monotonic(s, k + 1);
        assert(s.take(k + 1).drop_last() =~= s.take(k));
        assert(s.take(k + 1).last() == s[k]);
        let v = spec_decimal_value(s.take(k));
        assert(spec_decimal_value(s.take(k + 1)) == v * 10 + (s[k] as u32 - 0x30) as nat);
        assert(v * 10 >= v) by (nonlinear_arith);
    } else {
        assert(s.take(k) =~= s);
    }
}

/// Parses the value of the timeout header: accepted exactly when the value
/// is a digit string denoting a number that fits in 64 bits.
pub fn parse_timeout_value(v: &str) -> (r: Result<u64, ConnectError>)
    ensures
        match r {
            Ok(t) => spec_is_digits(v@) && t == spec_decimal_value(v@),
            Err(e) => e.code == Code::InvalidArgument && (!spec_is_digits(v@)
                || spec_decimal_value(v@) > u64::MAX),
        },
{
    let n = v.unicode_len();
    if n == 0 {
        return Err(ConnectError::invalid_argument("invalid timeout value"));
    }
    let mut acc: u64 = 0;
    let mut i: usize = 0;
    proof {
        assert(v@.take(0) =~= Seq::<char>::empty());
    }
    while i < n
        invariant
            i <= n,
            n == v@.len(),
            forall|j: int| 0 <= j < i ==> '0' <= v@[j] && v@[j] <= '9',
            acc == spec_decimal_value(v@.take(i as int)),
        decreases n - i,
    {
        let c = v.get_char(i);
        if c < '0' || c > '9' {
            assert(!spec_is_digits(v@));
            return Err(ConnectError::invalid_argument("invalid timeout value"));
        }
        let d: u8 = (c as u8) - 0x30;
        assert(d < 10 && d as nat == (c as u32 - 0x30) as nat);
        let ghost prefix = v@.take(i as int);
        proof {
            assert(v@.take(i + 1).drop_last() =~= prefix);
            assert(v@.take(i + 1).last() == v@[i as int]);
        }
        let next = match acc.checked_mul(10) {
            Some(x) => x.checked_add(d as u64),
            None => None,
        };
        match next {
            Some(x) => {
                acc = x;
            },
            None => {
                assert(spec_decimal_value(v@.take(i + 1)) > u64::MAX);
                proof {
                    if spec_is_digits(v@) {
                        lemma_decimal_value_monotonic(v@, i + 1);
                    }
                }
                return Err(ConnectError::invalid_argument("invalid timeout value"));
            },
        }
        i += 1;
    }
    assert(v@.take(n as int) =~= v@);
    Ok(acc)
}

/// The encoding a GET query declares in its `encoding` parameter.
pub open spec fn spec_get_encoding(q: Seq<u8>) -> Option<Encoding> {
    match spec_query_lookup(q, "encoding".spec_bytes()) {
        Some(v) => if v == "json".spec_bytes() {
            Some(Encoding::Json)
        } else if v == "proto".spec_bytes() {
            Some(Encoding::Proto)
        } else {
            None
        },
        None => None,
    }
}

/// The message bytes a GET query carries: the percent-decoded `message`
/// value, base64url-decoded when the `base64` flag is present.
pub open spec fn spec_get_message(q: Seq<u8>) -> Option<Seq<u8>> {
    match spec_query_lookup(q, "message".spec_bytes()) {
        Some(raw) => match spec_percent_decoding(raw) {
            Some(pd) => if spec_query_has_key(q, "base64".spec_bytes()) {
                spec_base64url_decoding(pd)
            } else {
                Some(pd)
            },
            None => None,
        },
        None => None,
    }
}

/// The message of the error a failing GET extraction reports, naming the
/// missing parameter, the unsupported encoding value, or the decode stage
/// that failed. Meaningful exactly when extraction fails.
pub open spec fn spec_get_error_message(q: Seq<u8>) -> Seq<char> {
    match spec_query_lookup(q, "encoding".spec_bytes()) {
        None => "GET request missing 'encoding' parameter"@,
        Some(v) => if v != "json".spec_bytes() && v != "proto".spec_bytes() {
            "unsupported encoding: "@ + spec_ascii_lossy(v)
        } else {
            match spec_query_lookup(q, "message".spec_bytes()) {
                None => "GET request missing 'message' parameter"@,
                Some(raw) => match spec_percent_decoding(raw) {
                    None => "url decode failed"@,
                    Some(_) => "base64 decode failed"@,
                },
            }
        },
    }
}

/// A GET query without a `message` parameter yields no message, so
/// request parsing rejects it as `InvalidArgument` — before any handler
/// could be selected or invoked.
pub proof fn lemma_get_missing_message(
    q: Seq<u8>,
    timeout: Option<Seq<char>>,
    protocol_version: Option<Seq<char>>,
    body: Seq<u8>,
)
    requires
        spec_query_lookup(q, "message".spec_bytes()) is None,
    ensures
        spec_get_message(q) is None,
        spec_parse_connect_request("GET"@, None, timeout, protocol_version, Some(q), body)
            == Err::<crate::ConnectRequestModel, Code>(Code::InvalidArgument),
{
    reveal_strlit("GET");
    reveal_strlit("POST");
    assert("GET"@ != "POST"@) by {
        assert("GET"@.len() == 3 && "POST"@.len() == 4);
    }
}

/// Extracts encoding and message bytes from the query string of a GET
/// request. Every failure — no query, no `encoding` or `message`
/// parameter, an unknown encoding name, or an undecodable value — is an
/// `InvalidArgument` error, and the handler is never reached.
pub fn extract_from_get_request(query: Option<&[u8]>) -> (r: Result<
    (Encoding, Vec<u8>),
    ConnectError,
>)
    ensures
        match query {
            None => r matches Err(e) && e.code == Code::InvalidArgument && e.message@
                == "GET request missing query parameters"@,
            Some(q) => match (spec_get_encoding(q@), spec_get_message(q@)) {
                (Some(enc), Some(m)) => r matches Ok(p) && p.0 == enc && p.1@ == m,
                _ => r matches Err(e) && e.code == Code::InvalidArgument && e.message@
                    == spec_get_error_message(q@),
            },
        },
{
    let q = match query {
        Some(q) => q,
        None => {
            return Err(ConnectError::invalid_argument("GET request missing query parameters"));
        },
    };
    let encv = match query_lookup(q, "encoding".as_bytes()) {
        Some(v) => v,
        None => {
            return Err(ConnectError::invalid_argument("GET request missing 'encoding' parameter"));
        },
    };
    let enc = if crate::text::bytes_eq(encv.as_slice(), "json".as_bytes()) {
        Encoding::Json
    } else if crate::text::bytes_eq(encv.as_slice(), "proto".as_bytes()) {
        Encoding::Proto
    } else {
        let mut m = String::from_str("unsupported encoding: ");
        let shown = ascii_lossy(encv.as_slice());
        m.append(shown.as_str());
        return Err(ConnectError::invalid_argument(m.as_str()));
    };
    let msgv = match query_lookup(q, "message".as_bytes()) {
        Some(v) => v,
        None => {
            return Err(ConnectError::invalid_argument("GET request missing 'message' parameter"));
        },
    };
    let pd = match percent_decode(msgv.as_slice()) {
        Ok(v) => v,
        Err(()) => {
            return Err(ConnectError::invalid_argument("url decode failed"));
        },
    };
    let message = match query_lookup(q, "base64".as_bytes()) {
        Some(_) => match base64url_decode(pd.as_slice()) {
            Ok(v) => v,
            Err(_) => {
                return Err(ConnectError::invalid_argument("base64 decode failed"));
            },
        },
        None => pd,
    };
    Ok((enc, message))
}

/// Extracts encoding and message bytes from a POST request whose body the
/// transport has already read in full: the body is the message, and the
/// Content-Type header names the encoding (JSON when absent).
pub fn extract_from_post_request(content_type: Option<&str>, body: Vec<u8>) -> (r: Result<
    (Encoding, Vec<u8>),
    ConnectError,
>)
    ensures
        match content_type {
            None => r matches Ok(p) && p.0 == Encoding::Json && p.1@ == body@,
            Some(ct) => match spec_content_type_encoding(ct@) {
                Some(enc) => r matches Ok(p) && p.0 == enc && p.1@ == body@,
                None => r matches Err(e) && e.code == Code::InvalidArgument && e.message@
                    == "unsupported content type: "@ + ct@,
            },
        },
{
    let enc = match parse_encoding(content_type) {
        Ok(e) => e,
        Err(e) => {
            return Err(e);
        },
    };
    Ok((enc, body))
}

/// The model of a parsed request, or the code of the error that rejects
/// it. The central specification of request parsing.
pub open spec fn spec_parse_connect_request(
    verb: Seq<char>,
    content_type: Option<Seq<char>>,
    timeout: Option<Seq<char>>,
    protocol_version: Option<Seq<char>>,
    query: Option<Seq<u8>>,
    body: Seq<u8>,
) -> Result<ConnectRequestModel, Code> {
    let method = if verb == "GET"@ {
        Some(Method::Get)
    } else if verb == "POST"@ {
        Some(Method::Post)
    } else {
        None::<Method>
    };
    match method {
        None => Err(Code::InvalidArgument),
        Some(m) => {
            let extracted = match m {
                Method::Post => match content_type {
                    None => Ok((Encoding::Json, body)),
                    Some(ct) => match spec_content_type_encoding(ct) {
                        Some(e) => Ok((e, body)),
                        None => Err(Code::InvalidArgument),
                    },
                },
                Method::Get => match query {
                    None => Err(Code::InvalidArgument),
                    Some(q) => match (spec_get_encoding(q), spec_get_message(q)) {
                        (Some(e), Some(msg)) => Ok((e, msg)),
                        _ => Err(Code::InvalidArgument),
                    },
                },
            };
            let timeout_ms = match timeout {
                None => Ok(None::<u64>),
                Some(t) => if spec_is_digits(t) && spec_decimal_value(t) <= u64::MAX {
                    Ok(Some(spec_decimal_value(t) as u64))
                } else {
                    Err(Code::InvalidArgument)
                },
            };
            match (extracted, timeout_ms) {
                (Ok((enc, msg)), Ok(tm)) => Ok(
                    (ConnectRequestModel {
                        message: msg,
                        encoding: enc,
                        method: m,
                        timeout_ms: tm,
                        protocol_version,
                    }),
                ),
                (Err(c), _) => Err(c),
                (_, Err(c)) => Err(c),
            }
        },
    }
}

/// The view of an optional string.
pub open spec fn opt_str_view(s: Option<&str>) -> Option<Seq<char>> {
    match s {
        Some(v) => Some(v@),
        None => None,
    }
}

/// The view of an optional byte slice.
pub open spec fn opt_bytes_view(s: Option<&[u8]>) -> Option<Seq<u8>> {
    match s {
        Some(v) => Some(v@),
        None => None,
    }
}

/// Builds a [`ConnectRequest`] from the plain values of an HTTP request:
/// the verb, the Content-Type, timeout and protocol-version header values,
/// the raw query string, and the fully read body. Returns exactly what
/// [`spec_parse_connect_request`] gives on the same inputs, with an error
/// carrying exactly the code it names; rejection messages name the
/// offending verb, content type, encoding value, or decode stage.
pub fn parse_connect_request(
    verb: &str,
    content_type: Option<&str>,
    timeout: Option<&str>,
    protocol_version: Option<&str>,
    query: Option<&[u8]>,
    body: Vec<u8>,
) -> (r: Result<ConnectRequest, ConnectError>)
    ensures
        match spec_parse_connect_request(
            verb@,
            opt_str_view(content_type),
            opt_str_view(timeout),
            opt_str_view(protocol_version),
            opt_bytes_view(query),
            body@,
        ) {
            Ok(model) => r matches Ok(req) && req@ == model,
            Err(c) => r matches Err(e) && e.code == c,
        },
        (verb@ != "GET"@ && verb@ != "POST"@) ==> (r matches Err(e) && e.message@
            == "unsupported HTTP method: "@ + verb@),
        verb@ == "GET"@ ==> match opt_bytes_view(query) {
            None => r matches Err(e) && e.message@ == "GET request missing query parameters"@,
            Some(q) => !(spec_get_encoding(q) is Some && spec_get_message(q) is Some) ==> (
            r matches Err(e) && e.message@ == spec_get_error_message(q)),
        },
        verb@ == "POST"@ ==> match opt_str_view(content_type) {
            Some(ct) => spec_content_type_encoding(ct) is None ==> (r matches Err(e) && e.message@
                == "unsupported content type: "@ + ct),
            None => true,
        },
{
    proof {
        reveal_strlit("GET");
        reveal_strlit("POST");
        assert("GET"@ != "POST"@) by {
            assert("GET"@.len() == 3 && "POST"@.len() == 4);
        }
    }
    let method = if str_eq(verb, "GET") {
        Method::Get
    } else if str_eq(verb, "POST") {
        Method::Post
    } else {
        let mut m = String::from_str("unsupported HTTP method: ");
        m.append(verb);
        return Err(ConnectError::invalid_argument(m.as_str()));
    };

    let extracted = match method {
        Method::Post => extract_from_post_request(content_type, body),
        Method::Get => extract_from_get_request(query),
    };
    let (encoding, message) = match extracted {
        Ok(p) => p,
        Err(e) => {
            return Err(e);
        },
    };

    let timeout_ms = match timeout {
        None => None,
        Some(t) => match parse_timeout_value(t) {
            Ok(v) => Some(v),
            Err(e) => {
                return Err(e);
            },
        },
    };

    let pv = match protocol_version {
        Some(s) => Some(s.to_owned()),
        None => None,
    };

    Ok(ConnectRequest { message, encoding, method, timeout_ms, protocol_version: pv })
}

} // verus!
