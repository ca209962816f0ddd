//! Values from outside: identifiers, the clock, and base64 text.

use vstd::prelude::*;

use base64::Engine;

verus! {

/// Whether `c` is a lower-case hexadecimal digit.
pub open spec fn lower_hex(c: char) -> bool {
    ('0' <= c && c <= '9') || ('a' <= c && c <= 'f')
}

/// The hyphenated form of a version seven UUID: thirty-six characters, hyphens
/// after the eighth, twelfth, sixteenth and twentieth digit, and the version
/// digit first in the third group.
pub open spec fn identifier_form(id: Seq<char>) -> bool {
    &&& id.len() == 36
    &&& id[8] == '-' && id[13] == '-' && id[18] == '-' && id[23] == '-'
    &&& forall|i: int|
        0 <= i < 36 && i != 8 && i != 13 && i != 18 && i != 23 ==> lower_hex(#[trigger] id[i])
    &&& id[14] == '7'
}

/// A fresh identifier: `uuid::Uuid::now_v7`, written with its `Display`. Which
/// identifier it is depends on the clock and on chance; only its form is
/// stated.
#[verifier::external_body]
pub fn new_id() -> (id: String)
    ensures
        identifier_form(id@),
{
    uuid::Uuid::now_v7().to_string()
}

/// The wall clock in milliseconds since the Unix epoch, from
/// `std::time::SystemTime`. Nothing is stated of the reading.
#[verifier::external_body]
pub fn now_ms() -> (now: i64) {
    std::time::SystemTime::now()
        .duration_since(std::time::UNIX_EPOCH)
        .unwrap_or_default()
        .as_millis() as i64
}

/// The standard padded base64 text of some bytes.
pub uninterp spec fn base64_text(data: Seq<u8>) -> Seq<char>;

/// What decoding a text as standard padded base64 gives: the bytes, or the
/// message of the decoder's error.
pub uninterp spec fn base64_decoding(text: Seq<char>) -> Result<Seq<u8>, Seq<char>>;

/// A decoding that gave bytes.
pub open spec fn good(data: Seq<u8>) -> Result<Seq<u8>, Seq<char>> {
    Ok(data)
}

/// A decoding that failed with a message.
pub open spec fn bad(message: Seq<char>) -> Result<Seq<u8>, Seq<char>> {
    Err(message)
}

/// `Engine::encode` of `base64::engine::general_purpose::STANDARD`. The result
/// is a function of the bytes alone, and decoding it gives them back.
#[verifier::external_body]
pub(crate) fn encode_base64(data: &[u8]) -> (text: String)
    ensures
        text@ == base64_text(data@),
        base64_decoding(text@) == good(data@),
{
    base64::engine::general_purpose::STANDARD.encode(data)
}

/// `Engine::decode` of `base64::engine::general_purpose::STANDARD`, with the
/// error written by its `Display`: a function of the text alone.
#[verifier::external_body]
pub(crate) fn decode_base64(text: &str) -> (decoded: Result<Vec<u8>, String>)
    ensures
        match decoded {
            Ok(data) => base64_decoding(text@) == good(data@),
            Err(message) => base64_decoding(text@) == bad(message@),
        },
{
    base64::engine::general_purpose::STANDARD.decode(text).map_err(|error| error.to_string())
}

} // verus!
