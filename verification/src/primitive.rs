//! The atoms of the format: flags, integers in base ten and plain strings.

use crate::error::Error;
use crate::text::{chars_of, plain};
use vstd::prelude::*;

verus! {

/// Whether `c` is one of the ten decimal digits.
pub open spec fn is_digit(c: char) -> bool {
    '0' <= c && c <= '9'
}

/// The number that the digit `c` stands for.
pub open spec fn digit_value(c: char) -> nat {
    (c as int - '0' as int) as nat
}

/// The digit that stands for `n`, a number below ten.
pub open spec fn digit_char(n: nat) -> char {
    ('0' as int + n as int) as char
}

/// Whether `s` holds decimal digits only.
pub open spec fn all_digits(s: Seq<char>) -> bool {
    forall|i: int| 0 <= i < s.len() ==> is_digit(#[trigger] s[i])
}

/// The number written by the digits `s` in base ten; zero for no digits.
pub open spec fn decimal_value(s: Seq<char>) -> nat
    decreases s.len(),
{
    if s.len() == 0 {
        0
    } else {
        decimal_value(s.drop_last()) * 10 + digit_value(s.last())
    }
}

/// The digits of `n` in base ten, without leading zeros; `0` for zero.
pub open spec fn decimal_digits(n: nat) -> Seq<char>
    decreases n,
{
    if n < 10 {
        seq![digit_char(n)]
    } else {
        decimal_digits(n / 10).push(digit_char(n % 10))
    }
}

/// The number that `s` writes as an unsigned integer: an optional `+` and
/// then one digit or more.
pub open spec fn unsigned_literal(s: Seq<char>) -> Option<nat> {
    let body = if s.len() > 0 && s[0] == '+' {
        s.drop_first()
    } else {
        s
    };
    if body.len() > 0 && all_digits(body) {
        Some(decimal_value(body))
    } else {
        None
    }
}

/// The number that `s` writes as a signed integer: an optional `+` or `-`
/// and then one digit or more.
pub open spec fn signed_literal(s: Seq<char>) -> Option<int> {
    let signed = s.len() > 0 && (s[0] == '+' || s[0] == '-');
    let body = if signed {
        s.drop_first()
    } else {
        s
    };
    if body.len() > 0 && all_digits(body) {
        if s[0] == '-' {
            Some(-(decimal_value(body) as int))
        } else {
            Some(decimal_value(body) as int)
        }
    } else {
        None
    }
}

/// The text of an integer: a `-` where it is negative, then the digits of
/// its magnitude.
pub open spec fn signed_digits(n: int) -> Seq<char> {
    if n < 0 {
        seq!['-'] + decimal_digits((-n) as nat)
    } else {
        decimal_digits(n as nat)
    }
}

/// What decoding `s` as a flag gives.
#[verifier::opaque]
pub open spec fn decode_bool_spec(s: Seq<char>) -> Result<bool, Error> {
    if s == seq!['0'] {
        Ok(false)
    } else if s == seq!['1'] {
        Ok(true)
    } else {
        Err(Error::Bool)
    }
}

/// The text of a flag.
#[verifier::opaque]
pub open spec fn encode_bool_spec(value: bool) -> Seq<char> {
    if value {
        seq!['1']
    } else {
        seq!['0']
    }
}

/// What decoding `s` as an integer of eight bits gives.
#[verifier::opaque]
pub open spec fn decode_u8_spec(s: Seq<char>) -> Result<u8, Error> {
    match unsigned_literal(s) {
        Some(n) => if n <= u8::MAX {
            Ok(n as u8)
        } else {
            Err(Error::Int)
        },
        None => Err(Error::Int),
    }
}

/// What decoding `s` as an unsigned integer of 64 bits gives.
#[verifier::opaque]
pub open spec fn decode_u64_spec(s: Seq<char>) -> Result<u64, Error> {
    match unsigned_literal(s) {
        Some(n) => if n <= u64::MAX {
            Ok(n as u64)
        } else {
            Err(Error::Int)
        },
        None => Err(Error::Int),
    }
}

/// What decoding `s` as an unsigned integer of the machine's word gives.
#[verifier::opaque]
pub open spec fn decode_usize_spec(s: Seq<char>) -> Result<usize, Error> {
    match unsigned_literal(s) {
        Some(n) => if n <= usize::MAX {
            Ok(n as usize)
        } else {
            Err(Error::Int)
        },
        None => Err(Error::Int),
    }
}

/// What decoding `s` as a signed integer of 64 bits gives.
#[verifier::opaque]
pub open spec fn decode_i64_spec(s: Seq<char>) -> Result<i64, Error> {
    match signed_literal(s) {
        Some(n) => if i64::MIN <= n <= i64::MAX {
            Ok(n as i64)
        } else {
            Err(Error::Int)
        },
        None => Err(Error::Int),
    }
}

/// What decoding `s` as a signed integer of the machine's word gives.
#[verifier::opaque]
pub open spec fn decode_isize_spec(s: Seq<char>) -> Result<isize, Error> {
    match signed_literal(s) {
        Some(n) => if isize::MIN <= n <= isize::MAX {
            Ok(n as isize)
        } else {
            Err(Error::Int)
        },
        None => Err(Error::Int),
    }
}

/// The digits of a number stand for it, and there is at least one.
pub proof fn lemma_decimal_digits(n: nat)
    ensures
        decimal_digits(n).len() >= 1,
        all_digits(decimal_digits(n)),
        decimal_value(decimal_digits(n)) == n,
        n > 0 ==> decimal_digits(n)[0] != '0',
    decreases n,
{
    let s = decimal_digits(n);
    if n < 10 {
        assert(s.drop_last() =~= Seq::<char>::empty());
        assert(decimal_value(s.drop_last()) == 0);
    } else {
        let t = decimal_digits(n / 10);
        lemma_decimal_digits(n / 10);
        assert(s.drop_last() =~= t);
        assert forall|i: int| 0 <= i < s.len() implies is_digit(#[trigger] s[i]) by {
            if i < t.len() {
                assert(s[i] == t[i]);
            }
        }
        assert(s[0] == t[0]);
    }
}

/// Digits are plain text.
pub proof fn lemma_digits_plain(s: Seq<char>)
    requires
        all_digits(s),
    ensures
        plain(s),
{
    assert forall|i: int| 0 <= i < s.len() implies !crate::text::is_delimiter(#[trigger] s[i]) by {
        assert(is_digit(s[i]));
    }
}

/// The text of a signed integer is plain.
pub proof fn lemma_signed_digits_plain(n: int)
    ensures
        plain(signed_digits(n)),
{
    let s = signed_digits(n);
    if n < 0 {
        lemma_decimal_digits((-n) as nat);
        let t = decimal_digits((-n) as nat);
        assert forall|i: int| 0 <= i < s.len() implies !crate::text::is_delimiter(
            #[trigger] s[i],
        ) by {
            if i > 0 {
                assert(s[i] == t[i - 1]);
                assert(is_digit(t[i - 1]));
            }
        }
    } else {
        lemma_decimal_digits(n as nat);
        lemma_digits_plain(s);
    }
}

/// A number's whole digits are worth at least as much as any of its
/// leading digits.
pub proof fn lemma_decimal_value_prefix(s: Seq<char>, k: int)
    requires
        0 <= k <= s.len(),
    ensures
        decimal_value(s.take(k)) <= decimal_value(s),
    decreases s.len(),
{
    if k == s.len() {
        assert(s.take(k) =~= s);
    } else {
        lemma_decimal_value_prefix(s.drop_last(), k);
        assert(s.drop_last().take(k) =~= s.take(k));
    }
}

/// Decoding the text of an unsigned integer gives the integer.
pub proof fn lemma_unsigned_round_trip(n: nat)
    ensures
        unsigned_literal(decimal_digits(n)) == Some(n),
{
    lemma_decimal_digits(n);
    let s = decimal_digits(n);
    assert(is_digit(s[0]));
}

/// Decoding the text of a signed integer gives the integer.
pub proof fn lemma_signed_round_trip(n: int)
    ensures
        signed_literal(signed_digits(n)) == Some(n),
{
    let s = signed_digits(n);
    if n < 0 {
        let m = (-n) as nat;
        lemma_decimal_digits(m);
        assert(s.drop_first() =~= decimal_digits(m));
    } else {
        lemma_decimal_digits(n as nat);
        assert(is_digit(s[0]));
    }
}

/// Decoding the text of an unsigned integer of 64 bits gives the integer,
/// and the text is plain.
pub proof fn lemma_u64_round_trip(value: u64)
    ensures
        decode_u64_spec(decimal_digits(value as nat)) == Ok::<u64, Error>(value),
        plain(decimal_digits(value as nat)),
{
    reveal(decode_u64_spec);
    lemma_unsigned_round_trip(value as nat);
    lemma_decimal_digits(value as nat);
    lemma_digits_plain(decimal_digits(value as nat));
}

/// Decoding the text of an unsigned integer of the machine's word gives
/// the integer, and the text is plain.
pub proof fn lemma_usize_round_trip(value: usize)
    ensures
        decode_usize_spec(decimal_digits(value as nat)) == Ok::<usize, Error>(value),
        plain(decimal_digits(value as nat)),
{
    reveal(decode_usize_spec);
    lemma_unsigned_round_trip(value as nat);
    lemma_decimal_digits(value as nat);
    lemma_digits_plain(decimal_digits(value as nat));
}

/// Decoding the text of an integer of eight bits gives the integer, and
/// the text is plain.
pub proof fn lemma_u8_round_trip(value: u8)
    ensures
        decode_u8_spec(decimal_digits(value as nat)) == Ok::<u8, Error>(value),
        plain(decimal_digits(value as nat)),
{
    reveal(decode_u8_spec);
    lemma_unsigned_round_trip(value as nat);
    lemma_decimal_digits(value as nat);
    lemma_digits_plain(decimal_digits(value as nat));
}

/// Decoding the text of a flag gives the flag, and the text is one plain
/// character.
pub proof fn lemma_bool_round_trip(value: bool)
    ensures
        decode_bool_spec(encode_bool_spec(value)) == Ok::<bool, Error>(value),
        plain(encode_bool_spec(value)),
        encode_bool_spec(value).len() == 1,
{
    reveal(decode_bool_spec);
    reveal(encode_bool_spec);
    assert(seq!['1'][0] != seq!['0'][0]);
}

/// A place that the format reserves: its text is not read when decoding
/// and is empty when encoding, so that the fields behind it keep their
/// places.
#[derive(Clone, Copy, Debug, PartialEq, Eq, Default)]
pub struct Reserved;

/// What decoding `s` as a reserved field gives: nothing, whatever the text.
pub open spec fn decode_unit_spec(s: Seq<char>) -> Result<Reserved, Error> {
    Ok(Reserved)
}

/// The text of a reserved field: the empty text.
pub open spec fn encode_unit_spec() -> Seq<char> {
    Seq::empty()
}

/// Decodes a reserved field: its text is neither read nor checked.
pub fn decode_unit(text: &str) -> (r: Result<Reserved, Error>)
    ensures
        r == decode_unit_spec(text@),
{
    Ok(Reserved)
}

/// Encodes a reserved field as the empty text, which keeps its place.
pub fn encode_unit() -> (text: String)
    ensures
        text@ == encode_unit_spec(),
{
    String::new()
}

/// What decoding `s` as a string gives: the text as it stands.
pub open spec fn decode_string_spec(s: Seq<char>) -> Result<Seq<char>, Error> {
    Ok(s)
}

/// The number that `s` writes where it holds one digit or more, digits
/// only, and the number is at most `max`.
pub open spec fn digits_within(s: Seq<char>, max: u64) -> Option<u64> {
    if s.len() > 0 && all_digits(s) && decimal_value(s) <= max {
        Some(decimal_value(s) as u64)
    } else {
        None
    }
}

/// Reads the digits of `chars` from `from` to the end as a number of at
/// most `max`.
pub(crate) fn parse_digits(chars: &Vec<char>, from: usize, max: u64) -> (r: Option<u64>)
    requires
        from <= chars.len(),
    ensures
        r == digits_within(chars@.subrange(from as int, chars.len() as int), max),
{
    let n: usize = chars.len();
    let ghost s = chars@.subrange(from as int, n as int);
    if from == n {
        return None;
    }
    let mut acc: u64 = 0;
    let mut i: usize = from;
    proof {
        assert(s.take(0) =~= Seq::<char>::empty());
    }
    while i < n
        invariant
            n == chars.len(),
            from <= i <= n,
            s == chars@.subrange(from as int, n as int),
            all_digits(s.take(i - from)),
            acc == decimal_value(s.take(i - from)),
            acc <= max,
        decreases n - i,
    {
        let c = chars[i];
        assert(c == s[i - from]);
        if !('0' <= c && c <= '9') {
            return None;
        }
        let d: u64 = (c as u32 - '0' as u32) as u64;
        proof {
            let next = s.take(i - from + 1);
            assert(next.drop_last() =~= s.take(i - from));
            assert(next.last() == c);
            assert(decimal_value(next) == acc * 10 + d);
            assert forall|j: int| 0 <= j < next.len() implies is_digit(#[trigger] next[j]) by {
                if j < i - from {
                    assert(next[j] == s.take(i - from)[j]);
                }
            }
            lemma_decimal_value_prefix(s, i - from + 1);
        }
        if d > max || acc > (max - d) / 10 {
            return None;
        }
        acc = acc * 10 + d;
        i += 1;
    }
    proof {
        assert(s.take(i - from) =~= s);
    }
    Some(acc)
}

/// Decodes a flag: `0` is false, `1` is true, and nothing else is a flag.
pub fn decode_bool(text: &str) -> (r: Result<bool, Error>)
    ensures
        r == decode_bool_spec(text@),
{
    proof {
        reveal(decode_bool_spec);
    }
    let chars = chars_of(text);
    if chars.len() == 1 && chars[0] == '0' {
        assert(chars@ =~= seq!['0']);
        Ok(false)
    } else if chars.len() == 1 && chars[0] == '1' {
        assert(chars@ =~= seq!['1']);
        Ok(true)
    } else {
        proof {
            if chars@ == seq!['0'] {
                assert(chars@[0] == '0');
            }
            if chars@ == seq!['1'] {
                assert(chars@[0] == '1');
            }
        }
        Err(Error::Bool)
    }
}

/// Encodes a flag as `0` or `1`.
pub fn encode_bool(value: bool) -> (text: String)
    ensures
        text@ == encode_bool_spec(value),
{
    proof {
        reveal(encode_bool_spec);
    }
    let mut text = String::new();
    if value {
        text.push('1');
    } else {
        text.push('0');
    }
    proof {
        assert(text@ =~= encode_bool_spec(value));
    }
    text
}

/// Reads `text` as an unsigned integer of at most `max`.
fn decode_unsigned(text: &str, max: u64) -> (r: Option<u64>)
    ensures
        r == match unsigned_literal(text@) {
            Some(n) => if n <= max {
                Some(n as u64)
            } else {
                None
            },
            None => None,
        },
{
    let chars = chars_of(text);
    let from: usize = if chars.len() > 0 && chars[0] == '+' {
        1
    } else {
        0
    };
    proof {
        if from == 1 {
            assert(chars@.subrange(1, chars.len() as int) =~= text@.drop_first());
        } else {
            assert(chars@.subrange(0, chars.len() as int) =~= text@);
        }
    }
    parse_digits(&chars, from, max)
}

/// Decodes an integer of eight bits, written in base ten.
pub fn decode_u8(text: &str) -> (r: Result<u8, Error>)
    ensures
        r == decode_u8_spec(text@),
{
    proof {
        reveal(decode_u8_spec);
    }
    match decode_unsigned(text, 255) {
        Some(n) => Ok(n as u8),
        None => Err(Error::Int),
    }
}

/// Decodes an unsigned integer of 64 bits, written in base ten.
pub fn decode_u64(text: &str) -> (r: Result<u64, Error>)
    ensures
        r == decode_u64_spec(text@),
{
    proof {
        reveal(decode_u64_spec);
    }
    match decode_unsigned(text, u64::MAX) {
        Some(n) => Ok(n),
        None => Err(Error::Int),
    }
}

/// Decodes an unsigned integer of the machine's word, written in base ten.
pub fn decode_usize(text: &str) -> (r: Result<usize, Error>)
    ensures
        r == decode_usize_spec(text@),
{
    proof {
        reveal(decode_usize_spec);
    }
    match decode_unsigned(text, usize::MAX as u64) {
        Some(n) => Ok(n as usize),
        None => Err(Error::Int),
    }
}

/// The integer of 64 bits that `s` writes, if it writes one.
pub open spec fn i64_literal(s: Seq<char>) -> Option<i64> {
    match signed_literal(s) {
        Some(n) => if i64::MIN <= n <= i64::MAX {
            Some(n as i64)
        } else {
            None
        },
        None => None,
    }
}

/// Reads the characters of `chars` from `from` to the end as a signed
/// integer of 64 bits.
pub(crate) fn parse_i64(chars: &Vec<char>, from: usize) -> (r: Option<i64>)
    requires
        from <= chars.len(),
    ensures
        r == i64_literal(chars@.skip(from as int)),
{
    let n: usize = chars.len();
    let ghost s = chars@.skip(from as int);
    let negative = from < n && chars[from] == '-';
    let start: usize = if from < n && (chars[from] == '+' || chars[from] == '-') {
        from + 1
    } else {
        from
    };
    proof {
        if start == from + 1 {
            assert(chars@.subrange(start as int, n as int) =~= s.drop_first());
        } else {
            assert(chars@.subrange(start as int, n as int) =~= s);
        }
    }
    let max: u64 = if negative {
        0x8000_0000_0000_0000
    } else {
        0x7fff_ffff_ffff_ffff
    };
    match parse_digits(chars, start, max) {
        Some(m) => {
            if negative {
                if m == 0x8000_0000_0000_0000 {
                    Some(i64::MIN)
                } else {
                    Some(-(m as i64))
                }
            } else {
                Some(m as i64)
            }
        },
        None => None,
    }
}

/// Decodes a signed integer of 64 bits, written in base ten.
pub fn decode_i64(text: &str) -> (r: Result<i64, Error>)
    ensures
        r == decode_i64_spec(text@),
{
    proof {
        reveal(decode_i64_spec);
    }
    let chars = chars_of(text);
    proof {
        assert(chars@.skip(0) =~= text@);
    }
    match parse_i64(&chars, 0) {
        Some(n) => Ok(n),
        None => Err(Error::Int),
    }
}

/// Decodes a signed integer of the machine's word, written in base ten.
pub fn decode_isize(text: &str) -> (r: Result<isize, Error>)
    ensures
        r == decode_isize_spec(text@),
{
    proof {
        reveal(decode_i64_spec);
        reveal(decode_isize_spec);
    }
    match decode_i64(text) {
        Ok(n) => {
            if isize::MIN as i64 <= n && n <= isize::MAX as i64 {
                Ok(n as isize)
            } else {
                Err(Error::Int)
            }
        },
        Err(e) => Err(e),
    }
}

/// Appends the digits of `value` to `out`.
pub(crate) fn push_digits(out: &mut String, value: u64)
    ensures
        final(out)@ == old(out)@ + decimal_digits(value as nat),
    decreases value,
{
    if value >= 10 {
        push_digits(out, value / 10);
    }
    let d: u8 = (value % 10) as u8;
    let c: char = (48u8 + d) as char;
    assert(c == digit_char((value % 10) as nat));
    out.push(c);
    proof {
        if value >= 10 {
            assert(final(out)@ =~= old(out)@ + decimal_digits(value as nat));
        } else {
            assert(final(out)@ =~= old(out)@ + decimal_digits(value as nat));
        }
    }
}

/// Encodes an unsigned integer of 64 bits in base ten.
pub fn encode_u64(value: u64) -> (text: String)
    ensures
        text@ == decimal_digits(value as nat),
{
    let mut text = String::new();
    push_digits(&mut text, value);
    proof {
        assert(text@ =~= decimal_digits(value as nat));
    }
    text
}

/// Encodes an integer of eight bits in base ten.
pub fn encode_u8(value: u8) -> (text: String)
    ensures
        text@ == decimal_digits(value as nat),
{
    encode_u64(value as u64)
}

/// Encodes an unsigned integer of the machine's word in base ten.
pub fn encode_usize(value: usize) -> (text: String)
    ensures
        text@ == decimal_digits(value as nat),
{
    encode_u64(value as u64)
}

/// Encodes a signed integer of 64 bits in base ten.
pub fn encode_i64(value: i64) -> (text: String)
    ensures
        text@ == signed_digits(value as int),
{
    let mut text = String::new();
    if value < 0 {
        text.push('-');
        let magnitude: u64 = if value == i64::MIN {
            0x8000_0000_0000_0000
        } else {
            (-value) as u64
        };
        push_digits(&mut text, magnitude);
    } else {
        push_digits(&mut text, value as u64);
    }
    proof {
        assert(text@ =~= signed_digits(value as int));
    }
    text
}

/// Decodes a string: the segment as it stands.
pub fn decode_string(text: &str) -> (r: Result<String, Error>)
    ensures
        r matches Ok(s) && Ok::<Seq<char>, Error>(s@) == decode_string_spec(text@),
{
    Ok(text.to_owned())
}

/// Encodes a string: the string as it stands.
pub fn encode_string(value: &String) -> (text: String)
    ensures
        text@ == value@,
{
    value.clone()
}

} // verus!
