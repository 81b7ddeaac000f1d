//! Base64 and UTF-8: how terminal bytes travel inside JSON.

use base64::Engine;
use vstd::prelude::*;
use vstd::utf8::*;

verus! {

/// The standard base64 text, with padding, of some bytes.
pub uninterp spec fn base64_text(bytes: Seq<u8>) -> Seq<char>;

/// The bytes that a standard base64 text with padding stands for, or `None` where it is not one.
pub uninterp spec fn base64_bytes(text: Seq<char>) -> Option<Seq<u8>>;

/// The text that replaces each malformed part of some bytes by U+FFFD and decodes the rest.
pub uninterp spec fn utf8_lossy(bytes: Seq<u8>) -> Seq<char>;

/// The base64 text of this many bytes fits into one string.
pub open spec fn fits_base64(length: nat) -> bool {
    (length + 2) / 3 * 4 <= isize::MAX
}

/// `base64::Engine::encode` of the engine `STANDARD` gives the base64 text, and the engine's
/// `decode` gives the bytes back. It panics where the length of the text overflows.
#[verifier::external_body]
pub(crate) fn encode_base64(bytes: &[u8]) -> (text: String)
    requires
        fits_base64(bytes@.len()),
    ensures
        text@ == base64_text(bytes@),
        base64_bytes(text@) == Some(bytes@),
{
    base64::engine::general_purpose::STANDARD.encode(bytes)
}

/// `base64::Engine::decode` of the engine `STANDARD` gives the bytes of a base64 text, or an
/// error. Which texts are base64, and of which bytes, is left to `base64_bytes`.
#[verifier::external_body]
pub(crate) fn decode_base64(text: &str) -> (bytes: Option<Vec<u8>>)
    ensures
        match bytes {
            Some(b) => base64_bytes(text@) == Some(b@),
            None => base64_bytes(text@) is None,
        },
{
    base64::engine::general_purpose::STANDARD.decode(text).ok()
}

/// `String::from_utf8` gives the text of bytes that are UTF-8, and an error for any others.
#[verifier::external_body]
pub(crate) fn utf8_text(bytes: Vec<u8>) -> (text: Option<String>)
    ensures
        text is Some <==> valid_utf8(bytes@),
        text is Some ==> text->Some_0@ == decode_utf8(bytes@),
{
    String::from_utf8(bytes).ok()
}

/// `String::from_utf8_lossy` gives the text of bytes that are UTF-8, and replaces what is
/// malformed in others. What it makes of malformed bytes is left to `utf8_lossy`.
#[verifier::external_body]
pub(crate) fn utf8_lossy_text(bytes: &[u8]) -> (text: String)
    ensures
        text@ == utf8_lossy(bytes@),
        valid_utf8(bytes@) ==> text@ == decode_utf8(bytes@),
{
    String::from_utf8_lossy(bytes).into_owned()
}

/// The text of bytes that are UTF-8.
pub open spec fn utf8_chars(bytes: Seq<u8>) -> Option<Seq<char>> {
    if valid_utf8(bytes) {
        Some(decode_utf8(bytes))
    } else {
        None
    }
}

} // verus!
