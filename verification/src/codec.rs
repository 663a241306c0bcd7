//! Decoding of the raw path segment of a request.

use vstd::prelude::*;
use vstd::utf8::{
    decode_utf8, encode_utf8, encode_utf8_decode_utf8, encode_utf8_valid_utf8, valid_utf8,
};
use crate::error::DecodeError;
use crate::text::{from_chars, to_chars};

verus! {

/// The value of a hexadecimal digit, in either case.
pub open spec fn hex_value(b: u8) -> Option<u8> {
    if 0x30 <= b <= 0x39 {
        Some((b - 0x30) as u8)
    } else if 0x41 <= b <= 0x46 {
        Some((b - 0x41 + 10) as u8)
    } else if 0x61 <= b <= 0x66 {
        Some((b - 0x61 + 10) as u8)
    } else {
        None
    }
}

/// Whether the bytes start with an escape: `%` and two hexadecimal digits.
pub open spec fn starts_with_escape(bytes: Seq<u8>) -> bool {
    &&& bytes.len() >= 3
    &&& bytes[0] == 0x25
    &&& hex_value(bytes[1]) is Some
    &&& hex_value(bytes[2]) is Some
}

/// The bytes with every escape replaced by the byte it stands for. A `%`
/// that does not start an escape stands for itself.
pub open spec fn percent_decoded(bytes: Seq<u8>) -> Seq<u8>
    decreases bytes.len(),
{
    if bytes.len() == 0 {
        Seq::empty()
    } else if starts_with_escape(bytes) {
        seq![(hex_value(bytes[1])->Some_0 * 16 + hex_value(bytes[2])->Some_0) as u8]
            + percent_decoded(bytes.skip(3))
    } else {
        seq![bytes[0]] + percent_decoded(bytes.skip(1))
    }
}

/// What decoding a raw segment gives: the text that its percent-decoded bytes
/// encode, if they are well-formed UTF-8.
pub open spec fn decoded(raw: Seq<char>) -> Result<Seq<char>, DecodeError> {
    let bytes = percent_decoded(encode_utf8(raw));
    if valid_utf8(bytes) {
        Ok(decode_utf8(bytes))
    } else {
        Err(DecodeError::InvalidEncoding)
    }
}

/// `core::str::Utf8Error`, which says where bytes stopped being UTF-8. The
/// library reads nothing from it.
#[verifier::external_type_specification]
#[verifier::external_body]
pub struct ExUtf8Error(core::str::Utf8Error);

/// `percent_encoding::percent_decode_str` followed by
/// `PercentDecode::decode_utf8`: the first replaces each `%` that two
/// hexadecimal digits follow by the byte they spell and leaves every other
/// byte as it is; the second succeeds exactly when the bytes so obtained are
/// well-formed UTF-8, and then gives the string made of those bytes.
#[verifier::external_body]
fn percent_decode_utf8(raw: &str) -> (res: Result<String, core::str::Utf8Error>)
    ensures
        res is Ok <==> valid_utf8(percent_decoded(encode_utf8(raw@))),
        res is Ok ==> encode_utf8(res->Ok_0@) == percent_decoded(encode_utf8(raw@)),
{
    match percent_encoding::percent_decode_str(raw).decode_utf8() {
        Ok(text) => Ok(text.into_owned()),
        Err(e) => Err(e),
    }
}

/// Decodes a percent-encoded segment into the path it spells. Bytes that are
/// not well-formed UTF-8 after decoding are refused, never replaced.
pub fn decode(raw: &str) -> (res: Result<String, DecodeError>)
    ensures
        (match decoded(raw@) {
            Ok(text) => res is Ok && res->Ok_0@ == text,
            Err(e) => res == Err::<String, _>(e),
        }),
{
    match percent_decode_utf8(raw) {
        Ok(text) => {
            proof {
                encode_utf8_decode_utf8(text@);
            }
            Ok(text)
        },
        Err(_) => Err(DecodeError::InvalidEncoding),
    }
}

/// The segment without one trailing separator, if it ends in one.
pub open spec fn without_trailing_separator(raw: Seq<char>) -> Seq<char> {
    if raw.len() > 0 && raw.last() == '/' {
        raw.drop_last()
    } else {
        raw
    }
}

/// Removes the separator that routing may have put at the end of a segment.
pub fn strip_trailing_separator(raw: &str) -> (out: String)
    ensures
        out@ == without_trailing_separator(raw@),
{
    let mut chars = to_chars(raw);
    let n: usize = chars.len();
    if n > 0 && chars[n - 1] == '/' {
        chars.pop();
    }
    from_chars(&chars)
}

/// Bytes without a `%` are left as they are.
pub proof fn lemma_plain_bytes_unchanged(bytes: Seq<u8>)
    requires
        !bytes.contains(0x25u8),
    ensures
        percent_decoded(bytes) == bytes,
    decreases bytes.len(),
{
    if bytes.len() > 0 {
        let rest = bytes.skip(1);
        assert(!rest.contains(0x25u8));
        lemma_plain_bytes_unchanged(rest);
    }
}

/// A segment whose encoding holds no `%` decodes to itself.
pub proof fn lemma_plain_segment_decodes_to_itself(raw: Seq<char>)
    requires
        !encode_utf8(raw).contains(0x25u8),
    ensures
        decoded(raw) == Ok::<Seq<char>, DecodeError>(raw),
{
    lemma_plain_bytes_unchanged(encode_utf8(raw));
    encode_utf8_valid_utf8(raw);
    encode_utf8_decode_utf8(raw);
}

} // verus!
