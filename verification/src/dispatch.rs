//! The dispatcher: decode the request message with the codec its encoding
//! selects, invoke the handler, and encode the typed response with the
//! same encoding — handler errors pass through unmodified, decode failures
//! are `InvalidArgument`, encode failures `Internal`, and the response
//! always mirrors the request's encoding.

use vstd::prelude::*;

use crate::extract::{
    spec_content_type_encoding, spec_get_encoding, spec_get_message, spec_parse_connect_request,
};
use crate::message::ConnectMessage;
use crate::{Code, ConnectError, ConnectRequest, ConnectResponse, Encoding};

verus! {

/// Runs one unary call: decode `req.message` under `req.encoding`, hand
/// the typed message to `handler`, and encode the handler's response under
/// the same encoding.
///
/// The outcome is a function of the request's encoding and message bytes
/// and of the handler's behaviour alone: undecodable bytes are refused as
/// `InvalidArgument` before the handler can run; a handler error is
/// returned unchanged; a handler response is re-encoded under the
/// request's own encoding, a failure to do so being `Internal`.
pub fn dispatch<Req: ConnectMessage, Resp: ConnectMessage, F: Fn(Req) -> Result<
    Resp,
    ConnectError,
>>(req: &ConnectRequest, handler: F) -> (r: Result<ConnectResponse, ConnectError>)
    requires
        forall|m: Req| #[trigger] call_requires(handler, (m,)),
    ensures
        r matches Ok(cr) ==> cr.encoding == req.encoding,
        match Req::decode_view(req.encoding, req.message@) {
            None => r matches Err(e) && e.code == Code::InvalidArgument,
            Some(mv) => exists|m: Req, out: Result<Resp, ConnectError>|
                {
                    &&& m@ == mv
                    &&& #[trigger] call_ensures(handler, (m,), out)
                    &&& match out {
                        Result::Err(he) => r matches Err(e) && e == he,
                        Result::Ok(resp_msg) => (r matches Ok(cr) && cr.encoding == req.encoding
                            && cr.message@ == Resp::encode_of(resp_msg@, req.encoding)) || (
                        r matches Err(e) && e.code == Code::Internal),
                    }
                },
        },
{
    let decoded = match req.encoding {
        Encoding::Json => Req::decode_json(req.message.as_slice()),
        Encoding::Proto => Req::decode_proto(req.message.as_slice()),
    };
    let msg = match decoded {
        Ok(m) => m,
        Err(e) => {
            return Err(e);
        },
    };
    let ghost mv = msg@;
    let out = handler(msg);
    match out {
        Err(he) => Err(he),
        Ok(resp_msg) => {
            let encoded = match req.encoding {
                Encoding::Json => resp_msg.encode_json(),
                Encoding::Proto => resp_msg.encode_proto(),
            };
            match encoded {
                Ok(v) => Ok(ConnectResponse { message: v, encoding: req.encoding }),
                Err(e) => Err(e),
            }
        },
    }
}

/// Decoding then re-encoding then decoding yields the same value: for
/// every encoding and every byte sequence a codec accepts, the decoded
/// value's own encoding decodes back to that value.
pub proof fn lemma_decode_encode_decode<M: ConnectMessage>(encoding: Encoding, bytes: Seq<u8>)
    ensures
        M::decode_view(encoding, bytes) matches Some(mv) ==> M::decode_view(
            encoding,
            M::encode_of(mv, encoding),
        ) == Some(mv),
{
    match M::decode_view(encoding, bytes) {
        Some(mv) => M::lemma_encode_decode(mv, encoding),
        None => {},
    }
}

/// Re-encoding reproduces canonical bytes: when the bytes are the encoding
/// of some value, the value they decode to encodes back to bytes identical
/// to the original. An echo handler therefore returns the very bytes it
/// was sent.
pub proof fn lemma_reencode_identity<M: ConnectMessage>(encoding: Encoding, v: M::V)
    ensures
        ({
            let bytes = M::encode_of(v, encoding);
            M::decode_view(encoding, bytes) matches Some(mv) && M::encode_of(mv, encoding)
                == bytes
        }),
{
    M::lemma_encode_decode(v, encoding);
}

/// A GET request and a POST request that carry the same message under the
/// same encoding parse to requests equal in method-independent content:
/// same message bytes, same encoding, same timeout and protocol version.
/// Together with [`dispatch`]'s contract — whose outcome depends on the
/// request only through its encoding and message — equivalent GET and
/// POST inputs to an idempotent method produce identical results.
pub proof fn lemma_get_post_equivalent(
    ct: Seq<char>,
    q: Seq<u8>,
    body: Seq<u8>,
    enc: Encoding,
    timeout: Option<Seq<char>>,
    protocol_version: Option<Seq<char>>,
)
    requires
        spec_content_type_encoding(ct) == Some(enc),
        spec_get_encoding(q) == Some(enc),
        spec_get_message(q) == Some(body),
    ensures
        ({
            let post = spec_parse_connect_request(
                "POST"@,
                Some(ct),
                timeout,
                protocol_version,
                None,
                body,
            );
            let get = spec_parse_connect_request(
                "GET"@,
                None,
                timeout,
                protocol_version,
                Some(q),
                Seq::empty(),
            );
            match (post, get) {
                (Ok(p), Ok(g)) => p.message == g.message && p.encoding == g.encoding
                    && p.timeout_ms == g.timeout_ms && p.protocol_version == g.protocol_version,
                (Err(cp), Err(cg)) => cp == cg,
                _ => false,
            }
        }),
{
    reveal_strlit("GET");
    reveal_strlit("POST");
    assert("GET"@ != "POST"@) by {
        assert("GET"@.len() == 3 && "POST"@.len() == 4);
    }
}

} // verus!
