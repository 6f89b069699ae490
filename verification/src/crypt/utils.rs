//! Encodings: Base64 of the `base64` crate's standard engine, and UTF-8 of std.

use base64::engine::Engine;
use base64::prelude::BASE64_STANDARD;
use vstd::prelude::*;
use vstd::utf8::{decode_utf8, valid_utf8};

verus! {

/// Whether `c` belongs to the standard Base64 alphabet or is its padding `=`.
pub open spec fn is_base64_char(c: char) -> bool {
    let u = c as u32;
    ||| 65 <= u <= 90
    ||| 97 <= u <= 122
    ||| 48 <= u <= 57
    ||| c == '+'
    ||| c == '/'
    ||| c == '='
}

/// The longest input that `Engine::encode` can size its output for without overflow.
pub open spec fn base64_encodable(len: int) -> bool {
    len <= (usize::MAX / 4) * 3
}

/// The text that the standard Base64 engine (with padding) writes for `bytes`.
pub uninterp spec fn base64_standard_encode(bytes: Seq<u8>) -> Seq<char>;

/// What the standard Base64 engine decodes from the bytes of `text`: the bytes, or
/// the text of the `DecodeError`.
pub uninterp spec fn base64_standard_decode(text: Seq<char>) -> Result<Seq<u8>, Seq<char>>;

/// `BASE64_STANDARD.encode(bytes)`: four characters for every three bytes, the last
/// group padded with `=` (`encoded_len` with padding); the output uses only the
/// standard alphabet and `=`, and the same engine decodes it back to `bytes` (the
/// crate's round-trip).
#[verifier::external_body]
pub fn base64_encode(bytes: &[u8]) -> (text: String)
    requires
        base64_encodable(bytes@.len() as int),
    ensures
        text@ == base64_standard_encode(bytes@),
        text@.len() == 4 * ((bytes@.len() + 2) / 3),
        forall|k: int| 0 <= k < text@.len() ==> is_base64_char(#[trigger] text@[k]),
        base64_standard_decode(text@) is Ok && base64_standard_decode(text@)->Ok_0 == bytes@,
{
    BASE64_STANDARD.encode(bytes)
}

/// `BASE64_STANDARD.decode(text)`, with the error turned into its text.
#[verifier::external_body]
pub fn base64_decode(text: &str) -> (r: Result<Vec<u8>, String>)
    ensures
        r is Ok <==> base64_standard_decode(text@) is Ok,
        r matches Ok(b) ==> base64_standard_decode(text@)->Ok_0 == b@,
        r matches Err(e) ==> base64_standard_decode(text@)->Err_0 == e@,
{
    BASE64_STANDARD.decode(text).map_err(|e| e.to_string())
}

/// The text of the `FromUtf8Error` that `String::from_utf8` reports for `bytes`.
pub uninterp spec fn utf8_error_text(bytes: Seq<u8>) -> Seq<char>;

/// `String::from_utf8`, with the error turned into its text: succeeds exactly on
/// valid UTF-8, and then holds the characters that the bytes encode.
#[verifier::external_body]
pub(crate) fn string_from_utf8(bytes: Vec<u8>) -> (r: Result<String, String>)
    ensures
        r is Ok <==> valid_utf8(bytes@),
        r matches Ok(s) ==> s@ == decode_utf8(bytes@),
        r matches Err(e) ==> e@ == utf8_error_text(bytes@),
{
    String::from_utf8(bytes).map_err(|e| e.to_string())
}

/// The text that `String::from_utf8_lossy` makes of `bytes`.
pub uninterp spec fn utf8_lossy(bytes: Seq<u8>) -> Seq<char>;

/// `String::from_utf8_lossy`, owned: on valid UTF-8 it is the decoded text.
#[verifier::external_body]
pub(crate) fn string_from_utf8_lossy(bytes: &[u8]) -> (s: String)
    ensures
        s@ == utf8_lossy(bytes@),
        valid_utf8(bytes@) ==> s@ == decode_utf8(bytes@),
{
    String::from_utf8_lossy(bytes).into_owned()
}

} // verus!
