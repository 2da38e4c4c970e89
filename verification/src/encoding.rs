//! The transport encoding of policies and policy options.

use base64::Engine;
use vstd::prelude::*;
use vstd::utf8::{decode_utf8, valid_utf8};

verus! {

/// The error of the `base64` crate for a text that is no encoding.
#[verifier::external_type_specification]
#[verifier::external_body]
pub struct ExDecodeError(base64::DecodeError);

/// The base64 encoding, in the standard alphabet and with padding, of the
/// bytes of a text.
pub uninterp spec fn base64_standard(text: Seq<char>) -> Seq<char>;

/// The bytes that a text encodes in base64, in the standard alphabet and
/// with padding; none where the text is no such encoding.
pub uninterp spec fn base64_standard_decoded(text: Seq<char>) -> Option<Seq<u8>>;

/// Whether a character is of the standard base64 alphabet or the padding
/// character.
pub open spec fn is_base64_char(c: char) -> bool {
    ('A' <= c && c <= 'Z') || ('a' <= c && c <= 'z') || ('0' <= c && c <= '9') || c == '+' || c
        == '/' || c == '='
}

/// `encode` of the engine `base64::engine::general_purpose::STANDARD`.
/// The contract names the result and claims that it is made of characters
/// of the standard alphabet and of padding characters only.
#[verifier::external_body]
fn standard_encode(text: &str) -> (r: String)
    ensures
        r@ == base64_standard(text@),
        forall|i: int| 0 <= i < r@.len() ==> is_base64_char(#[trigger] r@[i]),
{
    base64::engine::general_purpose::STANDARD.encode(text)
}

/// `decode` of the engine `base64::engine::general_purpose::STANDARD`.
/// The contract names the bytes that come out, and claims that an error
/// comes out exactly where the text has no decoding.
#[verifier::external_body]
fn standard_decode(text: &str) -> (r: Result<Vec<u8>, base64::DecodeError>)
    ensures
        r matches Ok(bytes) ==> base64_standard_decoded(text@) == Some(bytes@),
        r is Err ==> base64_standard_decoded(text@) is None,
{
    base64::engine::general_purpose::STANDARD.decode(text)
}

/// `String::from_utf8`. The contract claims that a text comes out exactly
/// where the bytes are valid UTF-8, and that it is what the bytes decode
/// to.
#[verifier::external_body]
fn text_from_utf8(bytes: Vec<u8>) -> (r: Option<String>)
    ensures
        r is Some == valid_utf8(bytes@),
        r matches Some(text) ==> text@ == decode_utf8(bytes@),
{
    match String::from_utf8(bytes) {
        Ok(text) => Some(text),
        Err(_) => None,
    }
}

/// The text that a base64 text encodes: the decoding of its bytes as
/// UTF-8; none where the text is no base64 or its bytes are no UTF-8.
pub open spec fn decoded_text(encoded: Seq<char>) -> Option<Seq<char>> {
    match base64_standard_decoded(encoded) {
        Some(bytes) if valid_utf8(bytes) => Some(decode_utf8(bytes)),
        _ => None,
    }
}

/// Encodes a text for transport. The encoding holds no colon, so that
/// encoded texts can be joined with colons and split again.
pub fn encode(text: &str) -> (r: String)
    ensures
        r@ == base64_standard(text@),
        !r@.contains(':'),
{
    let r = standard_encode(text);
    assert forall|i: int| 0 <= i < r@.len() implies r@[i] != ':' by {
        assert(is_base64_char(r@[i]));
    }
    r
}

/// Decodes a text that was encoded for transport.
pub fn decode(encoded: &str) -> (r: Option<String>)
    ensures
        r is Some == decoded_text(encoded@) is Some,
        r matches Some(text) ==> decoded_text(encoded@) == Some(text@),
{
    match standard_decode(encoded) {
        Ok(bytes) => text_from_utf8(bytes),
        Err(_) => None,
    }
}

} // verus!
