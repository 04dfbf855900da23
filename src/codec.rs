//! Hex, text and JSON stages of the transaction input wire format, each a call
//! into an outside crate with a contract.
use vstd::prelude::*;

verus! {

/// Value of an ASCII hex digit, either case.
pub open spec fn hex_digit_value(c: char) -> Option<nat> {
    if '0' <= c && c <= '9' {
        Some((c as nat - '0' as nat) as nat)
    } else if 'a' <= c && c <= 'f' {
        Some((c as nat - 'a' as nat + 10) as nat)
    } else if 'A' <= c && c <= 'F' {
        Some((c as nat - 'A' as nat + 10) as nat)
    } else {
        None
    }
}

/// Bytes that `s` spells in hex, two digits per byte, high digit first;
/// `None` for an odd length or a character that is not a hex digit.
pub open spec fn hex_decoded(s: Seq<char>) -> Option<Seq<u8>> {
    if s.len() % 2 == 1 || exists|i: int| 0 <= i < s.len() && hex_digit_value(s[i]) is None {
        None
    } else {
        Some(
            Seq::new(
                s.len() / 2,
                |i: int|
                    (hex_digit_value(s[2 * i]).unwrap() * 16 + hex_digit_value(
                        s[2 * i + 1],
                    ).unwrap()) as u8,
            ),
        )
    }
}

/// Lower-case hex digit for a value below 16.
pub open spec fn hex_digit(v: nat) -> char {
    if v < 10 {
        ('0' as nat + v) as char
    } else {
        ('a' as nat + v - 10) as char
    }
}

/// `b` in lower-case hex, two digits per byte, high digit first.
pub open spec fn hex_encoded(b: Seq<u8>) -> Seq<char>
    decreases b.len(),
{
    if b.len() == 0 {
        Seq::empty()
    } else {
        hex_encoded(b.drop_last()) + seq![
            hex_digit(b.last() as nat / 16),
            hex_digit(b.last() as nat % 16),
        ]
    }
}

/// The text that `b` holds as UTF-8, if it is valid UTF-8.
pub uninterp spec fn utf8_decoded(b: Seq<u8>) -> Option<Seq<char>>;

/// The string under the key `votecode` of the JSON object that `text` holds,
/// if `text` is a JSON document with such a member.
pub uninterp spec fn json_vote_code(text: Seq<char>) -> Option<Seq<char>>;

/// Bytes that `s` holds in base64 (standard alphabet, padded), if it is valid.
pub uninterp spec fn base64_decoded(s: Seq<char>) -> Option<Seq<u8>>;

/// Relies on `hex::decode`: an odd length or a non-hex character is an error,
/// and otherwise each pair of digits gives one byte, high digit first. A
/// non-ASCII character is an error whichever way the input is counted.
#[verifier::external_body]
pub(crate) fn decode_hex(s: &str) -> (r: Option<Vec<u8>>)
    ensures
        match r {
            Some(b) => hex_decoded(s@) == Some(b@),
            None => hex_decoded(s@) is None,
        },
{
    hex::decode(s).ok()
}

/// Relies on `hex::encode`: two lower-case digits per byte, high digit first.
#[verifier::external_body]
pub(crate) fn encode_hex(b: &[u8]) -> (r: String)
    ensures
        r@ == hex_encoded(b@),
{
    hex::encode(b)
}

/// Relies on `String::from_utf8`: the text of valid UTF-8, an error otherwise.
#[verifier::external_body]
pub(crate) fn utf8_text(b: Vec<u8>) -> (r: Option<String>)
    ensures
        match r {
            Some(t) => utf8_decoded(b@) == Some(t@),
            None => utf8_decoded(b@) is None,
        },
{
    String::from_utf8(b).ok()
}

/// Relies on `serde_json::from_str` into a `serde_json::Value`, of which the
/// member `votecode` is read as a string.
#[verifier::external_body]
pub(crate) fn vote_code_in_json(text: &str) -> (r: Option<String>)
    ensures
        match r {
            Some(c) => json_vote_code(text@) == Some(c@),
            None => json_vote_code(text@) is None,
        },
{
    let value: serde_json::Value = serde_json::from_str(text).ok()?;
    value.get("votecode")?.as_str().map(|c| c.to_string())
}

/// Relies on `base64::decode` (standard alphabet): the bytes, or an error.
#[verifier::external_body]
pub(crate) fn decode_base64(s: &str) -> (r: Option<Vec<u8>>)
    ensures
        match r {
            Some(b) => base64_decoded(s@) == Some(b@),
            None => base64_decoded(s@) is None,
        },
{
    base64::decode(s).ok()
}

/// The text that `encoded` holds as base64-encoded UTF-8, such as a poll's
/// serialized voter roster.
pub fn decode_base64_text(encoded: &str) -> (r: Option<String>)
    ensures
        match r {
            Some(t) => base64_decoded(encoded@) is Some && utf8_decoded(
                base64_decoded(encoded@).unwrap(),
            ) == Some(t@),
            None => base64_decoded(encoded@) is None || utf8_decoded(
                base64_decoded(encoded@).unwrap(),
            ) is None,
        },
{
    match decode_base64(encoded) {
        Some(bytes) => utf8_text(bytes),
        None => None,
    }
}

} // verus!
