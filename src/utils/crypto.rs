//! Base64 transport encoding of negotiation descriptors.
use vstd::prelude::*;

use vstd::string::StringSliceAdditionalSpecFns;
use vstd::utf8::{decode_utf8, valid_utf8};

verus! {

/// The standard, padded base64 text of `bytes`.
pub uninterp spec fn base64_of(bytes: Seq<u8>) -> Seq<char>;

/// The bytes that the standard, padded base64 text `text` stands for, if it
/// is well formed.
pub uninterp spec fn base64_decoded(text: Seq<u8>) -> Option<Seq<u8>>;

#[verifier::external_type_specification]
#[verifier::external_body]
pub struct ExDecodeError(base64::DecodeError);

/// Relies on `base64::Engine::encode` of `base64::prelude::BASE64_STANDARD`,
/// which panics only where the length of its output overflows `usize`.
#[verifier::external_body]
fn standard_encode(bytes: &[u8]) -> (r: String)
    requires
        bytes@.len() <= isize::MAX,
    ensures
        r@ == base64_of(bytes@),
{
    base64::Engine::encode(&base64::prelude::BASE64_STANDARD, bytes)
}

/// Relies on `base64::Engine::decode` of `base64::prelude::BASE64_STANDARD`:
/// `Ok` with the decoded bytes for well-formed input, a `DecodeError`
/// otherwise.
#[verifier::external_body]
fn standard_decode(text: &[u8]) -> (r: Result<Vec<u8>, base64::DecodeError>)
    ensures
        r is Ok <==> base64_decoded(text@) is Some,
        r is Ok ==> base64_decoded(text@) == Some(r->Ok_0@),
{
    base64::Engine::decode(&base64::prelude::BASE64_STANDARD, text)
}

/// Relies on `String::from_utf8`: it accepts exactly the valid UTF-8 byte
/// sequences, and the string holds the characters they encode.
#[verifier::external_body]
fn string_from_utf8(bytes: Vec<u8>) -> (r: Option<String>)
    ensures
        r is Some <==> valid_utf8(bytes@),
        r is Some ==> r->Some_0@ == decode_utf8(bytes@),
{
    String::from_utf8(bytes).ok()
}

/// Why a descriptor could not be decoded.
#[derive(Clone, Copy, Debug, PartialEq, Eq, Structural)]
pub enum CryptoError {
    InvalidBase64,
    InvalidUtf8,
}

/// The text that decoded bytes stand for, or why there is none.
pub open spec fn text_of(decoded: Option<Seq<u8>>) -> Result<Seq<char>, CryptoError> {
    match decoded {
        None => Err(CryptoError::InvalidBase64),
        Some(b) => if valid_utf8(b) {
            Ok(decode_utf8(b))
        } else {
            Err(CryptoError::InvalidUtf8)
        },
    }
}

/// The view of a decoding result.
pub open spec fn text_view(r: Result<String, CryptoError>) -> Result<Seq<char>, CryptoError> {
    match r {
        Ok(s) => Ok(s@),
        Err(e) => Err(e),
    }
}

/// The standard base64 text of the UTF-8 bytes of `input`.
pub fn encode_b64(input: &str) -> (r: String)
    requires
        input.spec_bytes().len() <= isize::MAX,
    ensures
        r@ == base64_of(input.spec_bytes()),
{
    standard_encode(input.as_bytes())
}

/// The text held by the bytes that base64 decoding gave, if any.
pub fn text_from_bytes(decoded: Option<Vec<u8>>) -> (r: Result<String, CryptoError>)
    ensures
        text_view(r) == text_of(
            match decoded {
                Some(b) => Some(b@),
                None => None,
            },
        ),
{
    match decoded {
        None => Err(CryptoError::InvalidBase64),
        Some(bytes) => match string_from_utf8(bytes) {
            Some(s) => Ok(s),
            None => Err(CryptoError::InvalidUtf8),
        },
    }
}

/// The text whose UTF-8 bytes the standard base64 text `input` encodes.
pub fn decode_b64(input: &str) -> (r: Result<String, CryptoError>)
    ensures
        text_view(r) == text_of(base64_decoded(input.spec_bytes())),
{
    let decoded = match standard_decode(input.as_bytes()) {
        Ok(bytes) => Some(bytes),
        Err(_) => None,
    };
    text_from_bytes(decoded)
}

} // verus!
