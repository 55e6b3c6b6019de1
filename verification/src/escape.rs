//! The armour of a save: base64 with an end marker, percent-encoded.
//!
//! The two encodings are the work of the crates urlencoding and base64.
//! What percent-encoding writes is spelled out here; what the other calls
//! return is named, and the contracts of this module are stated over
//! those names.

use crate::error::Error;
use crate::text::{chars_of, push_range};
use base64::Engine;
use std::string::FromUtf8Error;
use vstd::prelude::*;
use vstd::utf8::{decode_utf8, encode_utf8, valid_utf8};

verus! {

/// The error of `String::from_utf8`.
#[verifier::external_type_specification]
#[verifier::external_body]
pub struct ExFromUtf8Error(FromUtf8Error);

/// The error of base64's decoders.
#[verifier::external_type_specification]
#[verifier::external_body]
pub struct ExDecodeError(base64::DecodeError);

/// `String::from_utf8` turns bytes that are UTF-8 into the string that
/// they encode, and fails on bytes that are not.
pub assume_specification[ String::from_utf8 ](vec: Vec<u8>) -> (r: Result<String, FromUtf8Error>)
    ensures
        match r {
            Ok(s) => valid_utf8(vec@) && s@ == decode_utf8(vec@),
            Err(_) => !valid_utf8(vec@),
        },
;

/// What `urlencoding::decode` makes of a text: the text with its
/// percent-escapes replaced, or nothing where the bytes that come out are
/// not UTF-8.
pub uninterp spec fn percent_decoded(text: Seq<char>) -> Option<Seq<char>>;

/// Whether percent-encoding leaves the byte `b` as it is: a letter or a
/// digit of ASCII, `-`, `.`, `_` or `~`.
pub open spec fn is_unreserved(b: u8) -> bool {
    ||| 0x30 <= b <= 0x39
    ||| 0x41 <= b <= 0x5a
    ||| 0x61 <= b <= 0x7a
    ||| b == 0x2d
    ||| b == 0x2e
    ||| b == 0x5f
    ||| b == 0x7e
}

/// The digit of base sixteen for `n`, with capitals for ten and above.
pub open spec fn hex_digit(n: int) -> char {
    if n < 10 {
        (0x30 + n) as char
    } else {
        (0x41 + n - 10) as char
    }
}

/// What percent-encoding writes for the byte `b`: the byte itself where
/// it is left as it is, else `%` and its two digits of base sixteen.
pub open spec fn percent_escape(b: u8) -> Seq<char> {
    if is_unreserved(b) {
        seq![b as char]
    } else {
        seq!['%', hex_digit(b as int / 16), hex_digit(b as int % 16)]
    }
}

/// What `urlencoding::encode` makes of the bytes of a text: what
/// percent-encoding writes for each byte, in order.
pub open spec fn percent_encoded(bytes: Seq<u8>) -> Seq<char>
    decreases bytes.len(),
{
    if bytes.len() == 0 {
        Seq::empty()
    } else {
        percent_encoded(bytes.drop_last()) + percent_escape(bytes.last())
    }
}

/// What the standard engine of base64 decodes a text to, or nothing where
/// it refuses the text.
pub uninterp spec fn base64_decoded(text: Seq<char>) -> Option<Seq<u8>>;

/// What the standard engine of base64 encodes bytes as.
pub uninterp spec fn base64_encoded(bytes: Seq<u8>) -> Seq<char>;

/// Calls `urlencoding::decode`. The contract names what it returns.
#[verifier::external_body]
fn percent_decode(text: &str) -> (r: Result<String, FromUtf8Error>)
    ensures
        match percent_decoded(text@) {
            Some(t) => r matches Ok(s) && s@ == t,
            None => r is Err,
        },
{
    urlencoding::decode(text).map(|decoded| decoded.into_owned())
}

/// Calls `urlencoding::encode`. The contract states what it returns, as
/// the crate documents it, and claims that `urlencoding::decode` turns
/// that back into the text: the encoder escapes every `%`, and every
/// escape that it writes is one that the decoder replaces by the byte it
/// was written for.
#[verifier::external_body]
fn percent_encode(text: &str) -> (r: String)
    ensures
        r@ == percent_encoded(encode_utf8(text@)),
        percent_decoded(r@) == Some(text@),
{
    urlencoding::encode(text).into_owned()
}

/// Calls `decode` of base64's standard engine. The contract names what it
/// returns.
#[verifier::external_body]
fn base64_decode(text: &str) -> (r: Result<Vec<u8>, base64::DecodeError>)
    ensures
        match base64_decoded(text@) {
            Some(bytes) => r matches Ok(v) && v@ == bytes,
            None => r is Err,
        },
{
    base64::prelude::BASE64_STANDARD.decode(text)
}

/// Calls `encode` of base64's standard engine. The contract names what it
/// returns and claims that the same engine decodes it to the bytes again.
/// The engine fails only where the length of its output overflows, which
/// needs more bytes than a slice can hold.
#[verifier::external_body]
fn base64_encode(bytes: &[u8]) -> (r: String)
    ensures
        r@ == base64_encoded(bytes@),
        base64_decoded(r@) == Some(bytes@),
{
    base64::prelude::BASE64_STANDARD.encode(bytes)
}

/// The marker that ends the armoured text.
pub open spec fn marker() -> Seq<char> {
    seq!['!', 'E', 'N', 'D', '!']
}

/// Whether `s` ends with the marker.
pub open spec fn ends_with_marker(s: Seq<char>) -> bool {
    s.len() >= 5 && s.skip(s.len() - 5) == marker()
}

/// `s` without the marker at its end, if it has one there.
pub open spec fn strip_marker_spec(s: Seq<char>) -> Seq<char> {
    if ends_with_marker(s) {
        s.take(s.len() - 5)
    } else {
        s
    }
}

/// What bytes give as a text: the text that they encode in UTF-8, and a
/// failure where they encode none.
pub open spec fn text_of_spec(bytes: Seq<u8>) -> Result<Seq<char>, Error> {
    if valid_utf8(bytes) {
        Ok(decode_utf8(bytes))
    } else {
        Err(Error::Utf8)
    }
}

/// What is under the armour of `text`, a text free of percent-escapes:
/// the marker at its end is dropped if there is one, what is left is
/// decoded as base64, and the bytes are read as UTF-8.
pub open spec fn unarmour_spec(text: Seq<char>) -> Result<Seq<char>, Error> {
    match base64_decoded(strip_marker_spec(text)) {
        Some(bytes) => text_of_spec(bytes),
        None => Err(Error::Base64),
    }
}

/// What decoding the armoured text `raw` gives.
pub open spec fn decode_spec(raw: Seq<char>) -> Result<Seq<char>, Error> {
    match percent_decoded(raw) {
        Some(text) => unarmour_spec(text),
        None => Err(Error::Utf8),
    }
}

/// The armoured form of `text`: its bytes in base64, then the marker, all
/// of it percent-encoded.
pub open spec fn encode_spec(text: Seq<char>) -> Seq<char> {
    percent_encoded(encode_utf8(base64_encoded(encode_utf8(text)) + marker()))
}

/// Drops the marker at the end of `text`, if it has one there.
pub fn strip_marker(text: &str) -> (r: String)
    ensures
        r@ == strip_marker_spec(text@),
{
    let chars = chars_of(text);
    let n: usize = chars.len();
    if n >= 5 && chars[n - 5] == '!' && chars[n - 4] == 'E' && chars[n - 3] == 'N' && chars[n - 2]
        == 'D' && chars[n - 1] == '!' {
        let mut r = String::new();
        push_range(&mut r, &chars, 0, n - 5);
        proof {
            assert(text@.skip(n - 5) =~= marker());
            assert(r@ =~= text@.take(n - 5));
        }
        r
    } else {
        proof {
            if n >= 5 && text@.skip(n - 5) == marker() {
                let tail = text@.skip(n - 5);
                assert(tail[0] == '!' && tail[1] == 'E' && tail[2] == 'N' && tail[3] == 'D'
                    && tail[4] == '!');
            }
        }
        text.to_owned()
    }
}

/// Reads bytes as a text in UTF-8.
pub fn text_of(bytes: Vec<u8>) -> (r: Result<String, Error>)
    ensures
        match text_of_spec(bytes@) {
            Ok(t) => r matches Ok(s) && s@ == t,
            Err(e) => r matches Err(f) && f == e,
        },
{
    match String::from_utf8(bytes) {
        Ok(text) => Ok(text),
        Err(_) => Err(Error::Utf8),
    }
}

/// Takes the armour off a text that is free of percent-escapes: drops the
/// end marker, which may be missing, decodes the rest as base64 and reads
/// the bytes as UTF-8.
pub fn unarmour(text: &str) -> (r: Result<String, Error>)
    ensures
        match unarmour_spec(text@) {
            Ok(t) => r matches Ok(s) && s@ == t,
            Err(e) => r matches Err(f) && f == e,
        },
{
    let stripped = strip_marker(text);
    match base64_decode(stripped.as_str()) {
        Ok(bytes) => text_of(bytes),
        Err(_) => Err(Error::Base64),
    }
}

/// Takes the armour off a save: replaces the percent-escapes, drops the
/// end marker, which may be missing, decodes the rest as base64 and reads
/// the bytes as UTF-8.
pub fn decode(value: &str) -> (r: Result<String, Error>)
    ensures
        match decode_spec(value@) {
            Ok(t) => r matches Ok(s) && s@ == t,
            Err(e) => r matches Err(f) && f == e,
        },
{
    match percent_decode(value) {
        Ok(text) => unarmour(text.as_str()),
        Err(_) => Err(Error::Utf8),
    }
}

/// Puts a text in armour: its bytes in base64, then the end marker,
/// always, and all of it percent-encoded. Decoding the result gives the
/// text back.
pub fn encode(value: &str) -> (r: String)
    ensures
        r@ == encode_spec(value@),
        decode_spec(r@) == Ok::<Seq<char>, Error>(value@),
{
    let mut armoured = base64_encode(value.as_bytes());
    let ghost inner = armoured@;
    proof {
        reveal_strlit("!END!");
        assert("!END!"@ =~= marker());
    }
    armoured.append("!END!");
    let r = percent_encode(armoured.as_str());
    proof {
        lemma_marker_appended(inner);
        vstd::utf8::encode_utf8_valid_utf8(value@);
        vstd::utf8::encode_utf8_decode_utf8(value@);
    }
    r
}

/// A text with the marker behind it, stripped of the marker, is the text.
pub proof fn lemma_marker_appended(text: Seq<char>)
    ensures
        strip_marker_spec(text + marker()) == text,
{
    let s = text + marker();
    assert(s.skip(s.len() - 5) =~= marker());
    assert(s.take(s.len() - 5) =~= text);
}

/// A text that does not end with the marker is under the same armour with
/// the marker behind it as without: what comes off is the same.
pub proof fn lemma_marker_optional(text: Seq<char>)
    requires
        !ends_with_marker(text),
    ensures
        unarmour_spec(text + marker()) == unarmour_spec(text),
{
    lemma_marker_appended(text);
}

} // verus!
