//! ASCII bytes as text. A proquint is written as bytes and handed out as a
//! string; this module holds the step between the two.

use vstd::prelude::*;
use vstd::string::StringSliceAdditionalSpecFns;
use vstd::utf8::{
    decode_utf8, encode_utf8, encode_utf8_decode_utf8, encode_utf8_valid_utf8, is_ascii_chars,
    is_ascii_chars_encode_utf8, valid_utf8,
};

verus! {

/// Every byte of `bytes` is an ASCII code.
pub open spec fn is_ascii_bytes(bytes: Seq<u8>) -> bool {
    forall|i: int| 0 <= i < bytes.len() ==> #[trigger] bytes[i] < 0x80
}

/// The text whose characters have the codes in `bytes`, one character for
/// each byte.
pub open spec fn ascii_text(bytes: Seq<u8>) -> Seq<char> {
    Seq::new(bytes.len(), |i: int| bytes[i] as char)
}

/// ASCII bytes are the UTF-8 encoding of the text with the same codes, and of
/// no other text.
pub proof fn lemma_ascii_bytes_are_utf8(bytes: Seq<u8>)
    requires
        is_ascii_bytes(bytes),
    ensures
        valid_utf8(bytes),
        encode_utf8(ascii_text(bytes)) == bytes,
        forall|text: Seq<char>| encode_utf8(text) == bytes ==> text == ascii_text(bytes),
{
    let chars = ascii_text(bytes);
    assert forall|i: int| 0 <= i < chars.len() implies '\0' <= #[trigger] chars[i] <= '\u{7f}'
        && chars[i] as u8 == bytes[i] by {
        let b = bytes[i];
        assert(b < 0x80);
        assert(chars[i] == b as char);
    }
    assert(is_ascii_chars(chars));
    is_ascii_chars_encode_utf8(chars);
    assert(encode_utf8(chars) =~= bytes);
    encode_utf8_valid_utf8(chars);
    encode_utf8_decode_utf8(chars);
    assert forall|text: Seq<char>| encode_utf8(text) == bytes implies text == chars by {
        encode_utf8_decode_utf8(text);
    }
}

/// `core::str::from_utf8`: the bytes are accepted exactly when they are valid
/// UTF-8, and the string slice returned is then a view of the same bytes.
/// The reason for a rejection is dropped.
#[verifier::external_body]
pub(crate) fn str_from_utf8<'a>(bytes: &'a [u8]) -> (text: Option<&'a str>)
    ensures
        text is Some <==> valid_utf8(bytes@),
        text matches Some(s) ==> s.spec_bytes() == bytes@,
{
    core::str::from_utf8(bytes).ok()
}

/// `String::from_utf8`: the vector is accepted exactly when its bytes are
/// valid UTF-8, and the string returned then owns the same bytes. The reason
/// for a rejection is dropped.
#[verifier::external_body]
pub(crate) fn string_from_utf8(bytes: Vec<u8>) -> (text: Option<String>)
    ensures
        text is Some <==> valid_utf8(bytes@),
        text matches Some(s) ==> encode_utf8(s@) == bytes@,
{
    String::from_utf8(bytes).ok()
}

/// Reads ASCII bytes as a string slice over the same memory.
pub fn ascii_str<'a>(bytes: &'a [u8]) -> (text: &'a str)
    requires
        is_ascii_bytes(bytes@),
    ensures
        text@ == ascii_text(bytes@),
{
    proof {
        lemma_ascii_bytes_are_utf8(bytes@);
    }
    match str_from_utf8(bytes) {
        Some(text) => text,
        None => vstd::pervasive::unreached(),
    }
}

/// Turns a vector of ASCII bytes into a string, without copying.
pub fn ascii_string(bytes: Vec<u8>) -> (text: String)
    requires
        is_ascii_bytes(bytes@),
    ensures
        text@ == ascii_text(bytes@),
{
    proof {
        lemma_ascii_bytes_are_utf8(bytes@);
    }
    match string_from_utf8(bytes) {
        Some(text) => text,
        None => vstd::pervasive::unreached(),
    }
}

} // verus!
