//! Success responses: always HTTP 200, body as handed in, content type
//! mirroring the encoding the request arrived with.

use vstd::prelude::*;

use crate::Encoding;

verus! {

/// The Content-Type a successful response carries for an encoding.
pub open spec fn spec_response_content_type(encoding: Encoding) -> Seq<char> {
    match encoding {
        Encoding::Json => "application/connect+json"@,
        Encoding::Proto => "application/connect+proto"@,
    }
}

/// The Content-Type string for an encoding.
pub fn response_content_type(encoding: Encoding) -> (s: &'static str)
    ensures
        s@ == spec_response_content_type(encoding),
{
    match encoding {
        Encoding::Json => "application/connect+json",
        Encoding::Proto => "application/connect+proto",
    }
}

/// Turns an encoded message into the pieces of the HTTP response that
/// carries it: status 200, the message as the body, and the content type
/// that mirrors the encoding.
pub fn build_connect_response(message: Vec<u8>, encoding: Encoding) -> (r: (u16, Vec<u8>, &'static str))
    ensures
        r.0 == 200,
        r.1@ == message@,
        r.2@ == spec_response_content_type(encoding),
{
    let ct = response_content_type(encoding);
    (200, message, ct)
}

} // verus!
