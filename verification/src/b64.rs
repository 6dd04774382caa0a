//! The outside base64 coders the library leans on: base64url without
//! padding for GET message payloads, and the standard alphabet without
//! padding for error detail values.

use vstd::prelude::*;

verus! {

#[verifier::external_type_specification]
#[verifier::external_body]
pub struct ExDecodeError(base64::DecodeError);

/// What decoding a byte sequence as unpadded base64url yields: `Some`
/// bytes exactly when the input is valid, `None` otherwise. The decoder's
/// result is a function of the input alone.
pub uninterp spec fn spec_base64url_decoding(s: Seq<u8>) -> Option<Seq<u8>>;

/// Relies on base64's `Engine::decode` with the `URL_SAFE_NO_PAD` engine:
/// it decodes the base64url alphabet without padding, deterministically in
/// the input, and returns an error exactly on inputs that are not valid
/// unpadded base64url.
#[verifier::external_body]
pub(crate) fn base64url_decode(input: &[u8]) -> (r: Result<Vec<u8>, base64::DecodeError>)
    ensures
        match r {
            Ok(v) => spec_base64url_decoding(input@) == Some(v@),
            Err(_) => spec_base64url_decoding(input@) is None,
        },
{
    base64::Engine::decode(&base64::engine::general_purpose::URL_SAFE_NO_PAD, input)
}

/// What encoding a byte sequence as unpadded standard base64 yields. The
/// encoder's result is a function of the input alone, and encoding never
/// fails.
pub uninterp spec fn spec_base64_encoding(s: Seq<u8>) -> Seq<u8>;

/// Relies on base64's `Engine::encode` with the `STANDARD_NO_PAD` engine:
/// it encodes with the standard alphabet and no padding, deterministically
/// in the input, and returns for every input.
#[verifier::external_body]
pub(crate) fn base64_encode(input: &[u8]) -> (r: Vec<u8>)
    ensures
        r@ == spec_base64_encoding(input@),
{
    base64::Engine::encode(&base64::engine::general_purpose::STANDARD_NO_PAD, input).into_bytes()
}

} // verus!
