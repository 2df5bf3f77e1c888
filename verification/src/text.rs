//! Texts as strings: the decimal converter for callers that hold a `str` or
//! want a `String`, and the two conversions of the standard library that
//! stand between bytes and strings.

use vstd::prelude::*;
use vstd::string::StringSliceAdditionalSpecFns;
use vstd::utf8::{
    encode_utf8, encode_utf8_decode_utf8, encode_utf8_valid_utf8, is_ascii_chars,
    is_ascii_chars_encode_utf8, valid_utf8,
};

use crate::error::TokenError;
use crate::ui_amount::{
    amount_to_ui_amount_bytes, lemma_ui_amount_bytes, parse_ui_amount, ui_amount,
    ui_amount_bytes_to_amount,
};

verus! {

/// `core::str::from_utf8`, with its error dropped: the bytes are a string
/// exactly where they are valid UTF-8, and the string then has those bytes.
#[verifier::external_body]
pub(crate) fn text_of(bytes: &[u8]) -> (text: Option<&str>)
    ensures
        text is Some <==> valid_utf8(bytes@),
        text matches Some(s) ==> s.spec_bytes() == bytes@,
{
    core::str::from_utf8(bytes).ok()
}

/// `String::from_utf8`, with its error dropped: the bytes become a string
/// exactly where they are valid UTF-8, and the string then has those bytes.
#[verifier::external_body]
pub(crate) fn string_of(bytes: Vec<u8>) -> (text: Option<String>)
    ensures
        text is Some <==> valid_utf8(bytes@),
        text matches Some(s) ==> encode_utf8(s@) == bytes@,
{
    String::from_utf8(bytes).ok()
}

/// The characters of an ASCII text.
pub open spec fn ascii_chars(bytes: Seq<u8>) -> Seq<char> {
    Seq::new(bytes.len(), |i: int| bytes[i] as char)
}

/// Whether every byte of `bytes` is ASCII.
pub open spec fn is_ascii_bytes(bytes: Seq<u8>) -> bool {
    forall|i: int| 0 <= i < bytes.len() ==> #[trigger] bytes[i] < 128
}

/// ASCII bytes are the UTF-8 encoding of their characters.
pub proof fn lemma_ascii_is_utf8(bytes: Seq<u8>)
    requires
        is_ascii_bytes(bytes),
    ensures
        encode_utf8(ascii_chars(bytes)) == bytes,
        valid_utf8(bytes),
{
    let chars = ascii_chars(bytes);
    assert(is_ascii_chars(chars)) by {
        assert forall|i: int| 0 <= i < chars.len() implies '\0' <= #[trigger] chars[i]
            <= '\u{7f}' by {
            assert(bytes[i] < 128);
        }
    }
    is_ascii_chars_encode_utf8(chars);
    assert(encode_utf8(chars) =~= bytes) by {
        assert forall|i: int| 0 <= i < bytes.len() implies encode_utf8(chars)[i] == bytes[i] by {
            assert(chars[i] as u8 == encode_utf8(chars)[i]);
            assert(bytes[i] < 128);
        }
    }
    encode_utf8_valid_utf8(chars);
}

/// The text of an amount is ASCII.
pub proof fn lemma_ui_amount_is_ascii(raw: u64, decimals: u8)
    ensures
        is_ascii_bytes(ui_amount(raw, decimals)),
{
    lemma_ui_amount_bytes(raw, decimals);
}

/// The text of `raw` at `decimals` decimals, as a string.
pub fn amount_to_ui_amount(raw: u64, decimals: u8) -> (text: String)
    ensures
        text@ == ascii_chars(ui_amount(raw, decimals)),
{
    let bytes = amount_to_ui_amount_bytes(raw, decimals);
    proof {
        lemma_ui_amount_is_ascii(raw, decimals);
        lemma_ascii_is_utf8(bytes@);
    }
    let text = string_of(bytes).unwrap();
    proof {
        encode_utf8_decode_utf8(text@);
        encode_utf8_decode_utf8(ascii_chars(ui_amount(raw, decimals)));
    }
    text
}

/// Reads the raw amount that `text` denotes at `decimals` decimals.
///
/// Fails with `InvalidArgument` where `text` is no decimal number, or has
/// more than `decimals` digits behind the point, and with `Overflow` where
/// the amount lies beyond the range of a `u64`.
pub fn ui_amount_to_amount(text: &str, decimals: u8) -> (amount: Result<u64, TokenError>)
    ensures
        amount == parse_ui_amount(text.spec_bytes(), decimals),
{
    ui_amount_bytes_to_amount(text.as_bytes(), decimals)
}

} // verus!
