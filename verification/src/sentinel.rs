//! Fields that may be absent, each with the one text that stands for its
//! absence: the empty text, or the integer `-1`.

use crate::error::Error;
use crate::primitive::{
    decimal_digits, decode_i64, decode_i64_spec, decode_isize, decode_isize_spec, encode_u64,
    encode_usize, lemma_decimal_digits, lemma_digits_plain, lemma_signed_round_trip,
    signed_digits,
};
use crate::number::{
    decode_f64, decode_f64_spec, encode_f64, encode_f64_spec, lemma_number_not_empty,
    lemma_number_plain, lemma_number_round_trip, Number, NumberView,
};
use crate::primitive::{
    decode_unit_spec, decode_usize, decode_usize_spec, encode_unit_spec, lemma_usize_round_trip,
    Reserved,
};
use crate::text::{free_of, plain};
use vstd::prelude::*;

verus! {

/// The text of an optional string.
pub open spec fn optional_text(value: Option<String>) -> Option<Seq<char>> {
    match value {
        Some(s) => Some(s@),
        None => None,
    }
}

/// What decoding `s` gives where the empty text stands for absence, and
/// decoding it as what may be absent gives `inner`.
pub open spec fn none_as_empty_spec<T>(s: Seq<char>, inner: Result<T, Error>) -> Result<
    Option<T>,
    Error,
> {
    if s.len() == 0 {
        Ok(None)
    } else {
        match inner {
            Ok(v) => Ok(Some(v)),
            Err(e) => Err(e),
        }
    }
}

/// The text of `value` where the empty text stands for absence, and
/// `inner` is the text of what is present.
pub open spec fn none_as_empty_text<T>(value: Option<T>, inner: Seq<char>) -> Seq<char> {
    match value {
        Some(_) => inner,
        None => Seq::empty(),
    }
}

/// What decoding `s` as an optional string gives.
#[verifier::opaque]
pub open spec fn decode_optional_string_spec(s: Seq<char>) -> Result<Option<Seq<char>>, Error> {
    none_as_empty_spec(s, Ok::<Seq<char>, Error>(s))
}

/// The text of an optional string.
#[verifier::opaque]
pub open spec fn encode_optional_string_spec(value: Option<Seq<char>>) -> Seq<char> {
    none_as_empty_text(
        value,
        match value {
            Some(s) => s,
            None => Seq::empty(),
        },
    )
}

/// Decodes an optional string: the empty text is its absence, any other
/// text the string.
pub fn decode_optional_string(text: &str) -> (r: Result<Option<String>, Error>)
    ensures
        r matches Ok(o) && Ok::<Option<Seq<char>>, Error>(optional_text(o))
            == decode_optional_string_spec(text@),
{
    proof {
        reveal(decode_optional_string_spec);
    }
    if text.unicode_len() == 0 {
        Ok(None)
    } else {
        Ok(Some(text.to_owned()))
    }
}

/// Encodes an optional string: the string, or the empty text for its absence.
pub fn encode_optional_string(value: &Option<String>) -> (text: String)
    ensures
        text@ == encode_optional_string_spec(optional_text(*value)),
{
    proof {
        reveal(encode_optional_string_spec);
    }
    match value {
        Some(s) => s.clone(),
        None => String::new(),
    }
}

/// Decoding the text of an optional string gives it back, unless it is
/// present and empty.
pub proof fn lemma_optional_string_round_trip(value: Option<Seq<char>>)
    requires
        value matches Some(s) ==> s.len() > 0,
    ensures
        decode_optional_string_spec(encode_optional_string_spec(value)) == Ok::<
            Option<Seq<char>>,
            Error,
        >(value),
{
    reveal(decode_optional_string_spec);
    reveal(encode_optional_string_spec);
}

/// The text of an optional string is free of a character of which the
/// string, where it is present, is free.
pub proof fn lemma_optional_string_free_of(value: Option<Seq<char>>, d: char)
    requires
        value matches Some(s) ==> free_of(s, d),
    ensures
        free_of(encode_optional_string_spec(value), d),
{
    reveal(encode_optional_string_spec);
}

/// What decoding `s` gives as the optional payload of a building that has
/// no minigame of its own: none for the empty text, and else a payload
/// that is present and not read.
#[verifier::opaque]
pub open spec fn decode_optional_reserved_spec(s: Seq<char>) -> Result<Option<Reserved>, Error> {
    none_as_empty_spec(s, decode_unit_spec(s))
}

/// The text of such a payload: the empty text, present or not.
#[verifier::opaque]
pub open spec fn encode_optional_reserved_spec(value: Option<Reserved>) -> Seq<char> {
    none_as_empty_text(value, encode_unit_spec())
}

/// Decodes a payload that is not read: the empty text is its absence.
pub fn decode_optional_reserved(text: &str) -> (r: Result<Option<Reserved>, Error>)
    ensures
        r == decode_optional_reserved_spec(text@),
{
    proof {
        reveal(decode_optional_reserved_spec);
    }
    if text.unicode_len() == 0 {
        Ok(None)
    } else {
        Ok(Some(Reserved))
    }
}

/// Encodes a payload that is not read: the empty text, present or not.
pub fn encode_optional_reserved(value: &Option<Reserved>) -> (text: String)
    ensures
        text@ == encode_optional_reserved_spec(*value),
{
    proof {
        reveal(encode_optional_reserved_spec);
    }
    String::new()
}

/// Decoding the text of an absent payload gives its absence, and the text
/// is plain.
pub proof fn lemma_optional_reserved_round_trip(value: Option<Reserved>)
    requires
        value is None,
    ensures
        decode_optional_reserved_spec(encode_optional_reserved_spec(value)) == Ok::<
            Option<Reserved>,
            Error,
        >(value),
        plain(encode_optional_reserved_spec(value)),
{
    reveal(decode_optional_reserved_spec);
    reveal(encode_optional_reserved_spec);
}

/// The content of an optional number.
pub open spec fn optional_number(value: Option<Number>) -> Option<NumberView> {
    match value {
        Some(n) => Some(n@),
        None => None,
    }
}

/// What decoding `s` as a number that the empty text leaves out gives.
#[verifier::opaque]
pub open spec fn decode_number_or_empty_spec(s: Seq<char>) -> Result<Option<NumberView>, Error> {
    none_as_empty_spec(s, decode_f64_spec(s))
}

/// The text of a number that the empty text leaves out.
#[verifier::opaque]
pub open spec fn encode_number_or_empty_spec(value: Option<NumberView>) -> Seq<char> {
    none_as_empty_text(
        value,
        match value {
            Some(n) => encode_f64_spec(n),
            None => Seq::empty(),
        },
    )
}

/// Decodes an optional number: the empty text is its absence.
pub fn decode_number_or_empty(text: &str) -> (r: Result<Option<Number>, Error>)
    ensures
        match decode_number_or_empty_spec(text@) {
            Ok(v) => r matches Ok(x) && optional_number(x) == v,
            Err(e) => r matches Err(f) && f == e,
        },
{
    proof {
        reveal(decode_number_or_empty_spec);
    }
    if text.unicode_len() == 0 {
        Ok(None)
    } else {
        Ok(Some(decode_f64(text)?))
    }
}

/// Encodes an optional number: the number, or the empty text for its absence.
pub fn encode_number_or_empty(value: &Option<Number>) -> (text: String)
    ensures
        text@ == encode_number_or_empty_spec(optional_number(*value)),
{
    proof {
        reveal(encode_number_or_empty_spec);
    }
    match value {
        Some(n) => encode_f64(n),
        None => String::new(),
    }
}

/// Decoding the text of an optional number gives it back where the
/// number, if there is one, is canonical; the text is plain, and empty
/// only for an absent number.
pub proof fn lemma_number_or_empty_round_trip(value: Option<NumberView>)
    requires
        value matches Some(n) ==> n.canonical(),
    ensures
        decode_number_or_empty_spec(encode_number_or_empty_spec(value)) == Ok::<
            Option<NumberView>,
            Error,
        >(value),
        plain(encode_number_or_empty_spec(value)),
        value is Some ==> encode_number_or_empty_spec(value).len() > 0,
{
    reveal(decode_number_or_empty_spec);
    reveal(encode_number_or_empty_spec);
    match value {
        Some(n) => {
            lemma_number_round_trip(n);
            lemma_number_plain(n);
            lemma_number_not_empty(n);
        },
        None => {},
    }
}

/// What decoding `s` as an integer that the empty text leaves out gives.
#[verifier::opaque]
pub open spec fn decode_usize_or_empty_spec(s: Seq<char>) -> Result<Option<usize>, Error> {
    none_as_empty_spec(s, decode_usize_spec(s))
}

/// The text of an integer that the empty text leaves out.
#[verifier::opaque]
pub open spec fn encode_usize_or_empty_spec(value: Option<usize>) -> Seq<char> {
    none_as_empty_text(
        value,
        match value {
            Some(n) => decimal_digits(n as nat),
            None => Seq::empty(),
        },
    )
}

/// Decodes an optional integer: the empty text is its absence.
pub fn decode_usize_or_empty(text: &str) -> (r: Result<Option<usize>, Error>)
    ensures
        r == decode_usize_or_empty_spec(text@),
{
    proof {
        reveal(decode_usize_or_empty_spec);
    }
    if text.unicode_len() == 0 {
        Ok(None)
    } else {
        Ok(Some(decode_usize(text)?))
    }
}

/// Encodes an optional integer: the integer, or the empty text for its
/// absence.
pub fn encode_usize_or_empty(value: Option<usize>) -> (text: String)
    ensures
        text@ == encode_usize_or_empty_spec(value),
{
    proof {
        reveal(encode_usize_or_empty_spec);
    }
    match value {
        Some(n) => encode_usize(n),
        None => String::new(),
    }
}

/// Decoding the text of an optional integer gives it back; the text is
/// plain, and empty only for an absent integer.
pub proof fn lemma_usize_or_empty_round_trip(value: Option<usize>)
    ensures
        decode_usize_or_empty_spec(encode_usize_or_empty_spec(value)) == Ok::<
            Option<usize>,
            Error,
        >(value),
        plain(encode_usize_or_empty_spec(value)),
        value is Some ==> encode_usize_or_empty_spec(value).len() > 0,
{
    reveal(decode_usize_or_empty_spec);
    reveal(encode_usize_or_empty_spec);
    match value {
        Some(n) => {
            lemma_usize_round_trip(n);
            lemma_decimal_digits(n as nat);
        },
        None => {},
    }
}

/// What decoding `s` gives where a negative integer stands for absence.
#[verifier::opaque]
pub open spec fn decode_optional_u64_spec(s: Seq<char>) -> Result<Option<u64>, Error> {
    match decode_i64_spec(s) {
        Ok(n) => if n >= 0 {
            Ok(Some(n as u64))
        } else {
            Ok(None)
        },
        Err(e) => Err(e),
    }
}

/// The text of an optional integer where `-1` stands for absence.
#[verifier::opaque]
pub open spec fn encode_optional_u64_spec(value: Option<u64>) -> Seq<char> {
    match value {
        Some(n) => decimal_digits(n as nat),
        None => seq!['-', '1'],
    }
}

/// What decoding `s` gives where a negative integer stands for absence.
#[verifier::opaque]
pub open spec fn decode_optional_usize_spec(s: Seq<char>) -> Result<Option<usize>, Error> {
    match decode_isize_spec(s) {
        Ok(n) => if n >= 0 {
            Ok(Some(n as usize))
        } else {
            Ok(None)
        },
        Err(e) => Err(e),
    }
}

/// The text of an optional integer where `-1` stands for absence.
#[verifier::opaque]
pub open spec fn encode_optional_usize_spec(value: Option<usize>) -> Seq<char> {
    match value {
        Some(n) => decimal_digits(n as nat),
        None => seq!['-', '1'],
    }
}

/// Decodes an optional integer: a signed integer of 64 bits, which is the
/// value where it is not negative and stands for absence where it is.
pub fn decode_optional_u64(text: &str) -> (r: Result<Option<u64>, Error>)
    ensures
        r == decode_optional_u64_spec(text@),
{
    proof {
        reveal(decode_optional_u64_spec);
        reveal(decode_i64_spec);
    }
    match decode_i64(text) {
        Ok(n) => if n >= 0 {
            Ok(Some(n as u64))
        } else {
            Ok(None)
        },
        Err(e) => Err(e),
    }
}

/// Encodes an optional integer: its value, or `-1` for its absence.
pub fn encode_optional_u64(value: Option<u64>) -> (text: String)
    ensures
        text@ == encode_optional_u64_spec(value),
{
    proof {
        reveal(encode_optional_u64_spec);
    }
    match value {
        Some(n) => encode_u64(n),
        None => {
            let mut text = String::new();
            text.push('-');
            text.push('1');
            assert(text@ =~= seq!['-', '1']);
            text
        },
    }
}

/// Decodes an optional integer: a signed integer of the machine's word,
/// which is the value where it is not negative and stands for absence
/// where it is.
pub fn decode_optional_usize(text: &str) -> (r: Result<Option<usize>, Error>)
    ensures
        r == decode_optional_usize_spec(text@),
{
    proof {
        reveal(decode_optional_usize_spec);
        reveal(decode_isize_spec);
    }
    match decode_isize(text) {
        Ok(n) => if n >= 0 {
            Ok(Some(n as usize))
        } else {
            Ok(None)
        },
        Err(e) => Err(e),
    }
}

/// Encodes an optional integer: its value, or `-1` for its absence.
pub fn encode_optional_usize(value: Option<usize>) -> (text: String)
    ensures
        text@ == encode_optional_usize_spec(value),
{
    proof {
        reveal(encode_optional_usize_spec);
    }
    match value {
        Some(n) => encode_usize(n),
        None => {
            let mut text = String::new();
            text.push('-');
            text.push('1');
            assert(text@ =~= seq!['-', '1']);
            text
        },
    }
}

/// The text `-1` writes the integer minus one.
proof fn lemma_minus_one()
    ensures
        seq!['-', '1'] == signed_digits(-1),
{
    assert(decimal_digits(1) =~= seq!['1']);
    assert(seq!['-', '1'] =~= seq!['-'] + seq!['1']);
}

/// Decoding the text of an optional integer gives it back, unless it is
/// present and above the greatest signed integer of 64 bits; the text is
/// plain.
pub proof fn lemma_optional_u64_round_trip(value: Option<u64>)
    requires
        value matches Some(n) ==> n <= i64::MAX,
    ensures
        decode_optional_u64_spec(encode_optional_u64_spec(value)) == Ok::<Option<u64>, Error>(
            value,
        ),
        plain(encode_optional_u64_spec(value)),
{
    reveal(decode_optional_u64_spec);
    reveal(encode_optional_u64_spec);
    reveal(decode_i64_spec);
    match value {
        Some(n) => {
            lemma_signed_round_trip(n as int);
            lemma_decimal_digits(n as nat);
            lemma_digits_plain(decimal_digits(n as nat));
        },
        None => {
            lemma_minus_one();
            lemma_signed_round_trip(-1);
        },
    }
}

/// Decoding the text of an optional integer gives it back, unless it is
/// present and above the greatest signed integer of the machine's word;
/// the text is plain.
pub proof fn lemma_optional_usize_round_trip(value: Option<usize>)
    requires
        value matches Some(n) ==> n <= isize::MAX,
    ensures
        decode_optional_usize_spec(encode_optional_usize_spec(value)) == Ok::<
            Option<usize>,
            Error,
        >(value),
        plain(encode_optional_usize_spec(value)),
{
    reveal(decode_optional_usize_spec);
    reveal(encode_optional_usize_spec);
    reveal(decode_isize_spec);
    match value {
        Some(n) => {
            lemma_signed_round_trip(n as int);
            lemma_decimal_digits(n as nat);
            lemma_digits_plain(decimal_digits(n as nat));
        },
        None => {
            lemma_minus_one();
            lemma_signed_round_trip(-1);
        },
    }
}

} // verus!
