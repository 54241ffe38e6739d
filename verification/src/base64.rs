//! Base64 encoding and decoding, done by the `base64` crate through
//! trusted wrappers.  The results are named, not restated: `base64_of` and
//! `base64_decode_of` stand for what the STANDARD engine computes.

use vstd::prelude::*;

use crate::error::{Error, ErrorKind, PopResult};

verus! {

/// What the STANDARD base64 engine encodes a byte sequence to.
pub uninterp spec fn base64_of(b: Seq<u8>) -> Seq<char>;

/// What the STANDARD base64 engine decodes a byte sequence to: `None`
/// exactly on input it rejects.
pub uninterp spec fn base64_decode_of(s: Seq<u8>) -> Option<Seq<u8>>;

/// Declares `base64::DecodeError` so the decode wrapper can return it.
#[verifier::external_type_specification]
#[verifier::external_body]
pub struct ExDecodeError(base64::DecodeError);

/// Relies on `base64::engine::Engine::encode` with the STANDARD engine
/// (RFC 4648, with padding): the result depends on the input bytes alone,
/// an empty input encodes to an empty string, and every started group of
/// three input bytes becomes four characters.
#[verifier::external_body]
pub fn encode(encodable: &[u8]) -> (r: String)
    ensures
        r@ == base64_of(encodable@),
        encodable@.len() == 0 ==> r@.len() == 0,
        r@.len() == 4 * ((encodable@.len() + 2) / 3),
{
    base64::engine::Engine::encode(&base64::engine::general_purpose::STANDARD, encodable)
}

/// Relies on `base64::engine::Engine::decode` with the STANDARD engine:
/// the result depends on the input bytes alone, and decoding fails exactly
/// on input the engine rejects as not being canonical base64.
#[verifier::external_body]
fn decode_raw(decodable: &[u8]) -> (r: Result<Vec<u8>, base64::DecodeError>)
    ensures
        match r {
            Ok(v) => base64_decode_of(decodable@) == Some(v@),
            Err(e) => base64_decode_of(decodable@) is None,
        },
{
    base64::engine::Engine::decode(&base64::engine::general_purpose::STANDARD, decodable)
}

/// Decodes base64, turning the engine's error into this library's.
pub fn decode(decodable: &[u8]) -> (r: PopResult<Vec<u8>>)
    ensures
        r matches Ok(v) ==> base64_decode_of(decodable@) == Some(v@),
        r matches Err(e) ==> base64_decode_of(decodable@) is None && e.spec_kind()
            is DecodeBase64,
{
    match decode_raw(decodable) {
        Ok(v) => Ok(v),
        Err(_e) => Err(
            Error::new(ErrorKind::DecodeBase64, String::from_str("Failed to decode base64")),
        ),
    }
}

} // verus!
