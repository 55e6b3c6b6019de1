//! Numbers with a fraction or an exponent.
//!
//! A number is held as the exact decimal that its text writes: a sign, the
//! significant digits and a power of ten. Its text follows the rule of the
//! runtime that wrote the save: plain notation from `0.000001` up to, but
//! not including, `1e21`, and scientific notation with a signed exponent
//! beyond.

use crate::error::Error;
use crate::primitive::{
    all_digits, decimal_digits, i64_literal, is_digit, lemma_decimal_digits, lemma_digits_plain,
    parse_i64, push_digits, signed_literal,
};
use crate::text::{chars_of, is_delimiter, lemma_plain_concat, plain, push_range, same_text};
use vstd::prelude::*;

verus! {

/// A decimal number, an infinity, or the value that is not a number.
#[derive(Clone, Debug, PartialEq, Eq)]
pub enum Number {
    /// The number `d.ddd × 10^exponent`, negated where `negative` is set,
    /// with the decimal point behind the first of `digits`; zero where
    /// there are no digits.
    Finite { negative: bool, digits: String, exponent: i64 },
    /// An infinity.
    Infinite { negative: bool },
    /// The value that is not a number.
    NotANumber,
}

/// The mathematical content of a [`Number`].
pub enum NumberView {
    Finite { negative: bool, digits: Seq<char>, exponent: i64 },
    Infinite { negative: bool },
    NotANumber,
}

impl View for Number {
    type V = NumberView;

    open spec fn view(&self) -> NumberView {
        match *self {
            Number::Finite { negative, digits, exponent } => NumberView::Finite {
                negative,
                digits: digits@,
                exponent,
            },
            Number::Infinite { negative } => NumberView::Infinite { negative },
            Number::NotANumber => NumberView::NotANumber,
        }
    }
}

impl NumberView {
    /// Whether the number is in the one form that decoding yields: its
    /// digits are decimal digits that neither start nor end with a zero,
    /// and zero has the exponent zero.
    pub open spec fn canonical(self) -> bool {
        match self {
            NumberView::Finite { negative, digits, exponent } => {
                &&& all_digits(digits)
                &&& digits.len() == 0 ==> exponent == 0
                &&& digits.len() > 0 ==> digits[0] != '0' && digits.last() != '0'
            },
            _ => true,
        }
    }
}

/// The lower-case form of an upper-case Latin letter; any other character
/// as it is.
pub open spec fn lower(c: char) -> char {
    if 'A' <= c && c <= 'Z' {
        (c as int + 32) as char
    } else {
        c
    }
}

/// Whether `s` is the lower-case word `w`, whatever the case of its letters.
pub open spec fn is_word(s: Seq<char>, w: Seq<char>) -> bool {
    s.len() == w.len() && forall|i: int| 0 <= i < s.len() ==> lower(#[trigger] s[i]) == w[i]
}

/// The word `inf`.
pub open spec fn word_inf() -> Seq<char> {
    seq!['i', 'n', 'f']
}

/// The word `infinity`.
pub open spec fn word_infinity() -> Seq<char> {
    seq!['i', 'n', 'f', 'i', 'n', 'i', 't', 'y']
}

/// The word `nan`.
pub open spec fn word_nan() -> Seq<char> {
    seq!['n', 'a', 'n']
}

/// How many digits stand at the start of `s`.
pub open spec fn digit_run(s: Seq<char>) -> nat
    decreases s.len(),
{
    if s.len() > 0 && is_digit(s[0]) {
        1 + digit_run(s.drop_first())
    } else {
        0
    }
}

/// How many zeros stand at the start of `s`.
pub open spec fn leading_zeros(s: Seq<char>) -> nat
    decreases s.len(),
{
    if s.len() > 0 && s[0] == '0' {
        1 + leading_zeros(s.drop_first())
    } else {
        0
    }
}

/// How many zeros stand at the end of `s`.
pub open spec fn trailing_zeros(s: Seq<char>) -> nat
    decreases s.len(),
{
    if s.len() > 0 && s.last() == '0' {
        1 + trailing_zeros(s.drop_last())
    } else {
        0
    }
}

/// `n` zeros.
pub open spec fn zeros(n: nat) -> Seq<char> {
    Seq::new(n, |i: int| '0')
}

/// The number `0.ddd × 10^point`, where `ddd` are the digits `all`, in
/// canonical form; none where its exponent does not fit in 64 bits.
pub open spec fn scaled(negative: bool, all: Seq<char>, point: int) -> Option<NumberView> {
    let lead = leading_zeros(all);
    let rest = all.skip(lead as int);
    let digits = rest.take(rest.len() - trailing_zeros(rest));
    let exponent = point - lead - 1;
    if digits.len() == 0 {
        Some(NumberView::Finite { negative, digits, exponent: 0 })
    } else if i64::MIN <= exponent <= i64::MAX {
        Some(NumberView::Finite { negative, digits, exponent: exponent as i64 })
    } else {
        None
    }
}

/// The number that the unsigned text `b` writes: digits with at most one
/// point among them and at least one digit, then an optional `e` or `E`
/// with a signed integer of 64 bits.
pub open spec fn decimal_literal(b: Seq<char>, negative: bool) -> Option<NumberView> {
    let (whole, pointed, fraction) = layout(b);
    let tail = if pointed {
        whole + 1 + fraction
    } else {
        whole
    };
    if whole + fraction == 0 {
        None
    } else {
        match literal_power(b, tail) {
            Some(e) => scaled(negative, literal_digits(b, whole, pointed, fraction), whole + e),
            None => None,
        }
    }
}

/// The number that `s` writes: an optional sign, then `inf`, `infinity` or
/// `nan` in any case, or a decimal literal.
pub open spec fn number_literal(s: Seq<char>) -> Option<NumberView> {
    let negative = s.len() > 0 && s[0] == '-';
    let body = if s.len() > 0 && (s[0] == '+' || s[0] == '-') {
        s.drop_first()
    } else {
        s
    };
    if is_word(body, word_inf()) || is_word(body, word_infinity()) {
        Some(NumberView::Infinite { negative })
    } else if is_word(body, word_nan()) {
        Some(NumberView::NotANumber)
    } else {
        decimal_literal(body, negative)
    }
}

/// What decoding `s` as a number gives.
#[verifier::opaque]
pub open spec fn decode_f64_spec(s: Seq<char>) -> Result<NumberView, Error> {
    match number_literal(s) {
        Some(v) => Ok(v),
        None => Err(Error::Float),
    }
}

/// The text of the exponent `x` in scientific notation: `e`, its sign,
/// written also where it is positive, and its magnitude.
pub open spec fn exponent_text(x: int) -> Seq<char> {
    if x >= 0 {
        seq!['e', '+'] + decimal_digits(x as nat)
    } else {
        seq!['e', '-'] + decimal_digits((-x) as nat)
    }
}

/// The text of the magnitude `d.ddd × 10^x`.
pub open spec fn magnitude_text(digits: Seq<char>, x: int) -> Seq<char> {
    let k = digits.len() as int;
    if k == 0 {
        seq!['0']
    } else if x >= 21 || x < -6 {
        if k == 1 {
            digits + exponent_text(x)
        } else {
            digits.take(1) + seq!['.'] + digits.skip(1) + exponent_text(x)
        }
    } else if x < 0 {
        seq!['0', '.'] + zeros((-x - 1) as nat) + digits
    } else if x + 1 >= k {
        digits + zeros((x + 1 - k) as nat)
    } else {
        digits.take(x + 1) + seq!['.'] + digits.skip(x + 1)
    }
}

/// The text of a sign: `-` where it is negative, nothing where it is not.
pub open spec fn sign_text(negative: bool) -> Seq<char> {
    if negative {
        seq!['-']
    } else {
        Seq::<char>::empty()
    }
}

/// The text of a number.
#[verifier::opaque]
pub open spec fn encode_f64_spec(v: NumberView) -> Seq<char> {
    match v {
        NumberView::Finite { negative, digits, exponent } => sign_text(negative) + magnitude_text(
            digits,
            exponent as int,
        ),
        NumberView::Infinite { negative } => sign_text(negative) + seq![
            'I',
            'n',
            'f',
            'i',
            'n',
            'i',
            't',
            'y',
        ],
        NumberView::NotANumber => seq!['N', 'a', 'N'],
    }
}

/// The digits at the start of a text are digits, and what follows them is none.
pub proof fn lemma_digit_run(s: Seq<char>)
    ensures
        digit_run(s) <= s.len(),
        all_digits(s.take(digit_run(s) as int)),
        digit_run(s) < s.len() ==> !is_digit(s[digit_run(s) as int]),
    decreases s.len(),
{
    if s.len() > 0 && is_digit(s[0]) {
        let t = s.drop_first();
        lemma_digit_run(t);
        let n = digit_run(s) as int;
        assert forall|i: int| 0 <= i < n implies is_digit(#[trigger] s.take(n)[i]) by {
            if i > 0 {
                assert(s.take(n)[i] == t.take(n - 1)[i - 1]);
            }
        }
        if n < s.len() {
            assert(s[n] == t[n - 1]);
        }
    }
}

/// A count of leading digits after which no digit follows is the run of digits.
pub proof fn lemma_digit_run_is(s: Seq<char>, n: int)
    requires
        0 <= n <= s.len(),
        forall|i: int| 0 <= i < n ==> is_digit(#[trigger] s[i]),
        n < s.len() ==> !is_digit(s[n]),
    ensures
        digit_run(s) == n,
    decreases s.len(),
{
    if n > 0 {
        assert(is_digit(s[0]));
        let t = s.drop_first();
        assert forall|i: int| 0 <= i < n - 1 implies is_digit(#[trigger] t[i]) by {
            assert(t[i] == s[i + 1]);
        }
        lemma_digit_run_is(t, n - 1);
    }
}

/// A count of leading zeros after which no zero follows is the run of zeros.
pub proof fn lemma_leading_zeros_is(s: Seq<char>, n: int)
    requires
        0 <= n <= s.len(),
        forall|i: int| 0 <= i < n ==> #[trigger] s[i] == '0',
        n < s.len() ==> s[n] != '0',
    ensures
        leading_zeros(s) == n,
    decreases s.len(),
{
    if n > 0 {
        assert(s[0] == '0');
        let t = s.drop_first();
        assert forall|i: int| 0 <= i < n - 1 implies #[trigger] t[i] == '0' by {
            assert(t[i] == s[i + 1]);
        }
        lemma_leading_zeros_is(t, n - 1);
    }
}

/// A count of trailing zeros before which no zero stands is the run of zeros.
pub proof fn lemma_trailing_zeros_is(s: Seq<char>, n: int)
    requires
        0 <= n <= s.len(),
        forall|i: int| s.len() - n <= i < s.len() ==> #[trigger] s[i] == '0',
        n < s.len() ==> s[s.len() - n - 1] != '0',
    ensures
        trailing_zeros(s) == n,
    decreases s.len(),
{
    if n > 0 {
        assert(s[s.len() - 1] == '0');
        let t = s.drop_last();
        assert forall|i: int| t.len() - (n - 1) <= i < t.len() implies #[trigger] t[i] == '0' by {
            assert(t[i] == s[i]);
        }
        lemma_trailing_zeros_is(t, n - 1);
    }
}

/// What stays after the leading and trailing zeros of digits are dropped
/// is canonical.
pub proof fn lemma_scaled_canonical(negative: bool, all: Seq<char>, point: int)
    requires
        all_digits(all),
    ensures
        scaled(negative, all, point) matches Some(v) ==> v.canonical(),
{
    lemma_leading_zeros(all);
    let lead = leading_zeros(all);
    let rest = all.skip(lead as int);
    lemma_trailing_zeros(rest);
    let digits = rest.take(rest.len() - trailing_zeros(rest));
    assert forall|i: int| 0 <= i < digits.len() implies is_digit(#[trigger] digits[i]) by {
        assert(digits[i] == all[lead + i]);
    }
    if digits.len() > 0 {
        assert(digits[0] == all[lead as int]);
        assert(digits.last() == rest[rest.len() - trailing_zeros(rest) - 1]);
    }
}

/// The leading zeros of a text are zeros, and what follows them is none.
pub proof fn lemma_leading_zeros(s: Seq<char>)
    ensures
        leading_zeros(s) <= s.len(),
        forall|i: int| 0 <= i < leading_zeros(s) ==> #[trigger] s[i] == '0',
        leading_zeros(s) < s.len() ==> s[leading_zeros(s) as int] != '0',
    decreases s.len(),
{
    if s.len() > 0 && s[0] == '0' {
        let t = s.drop_first();
        lemma_leading_zeros(t);
        assert forall|i: int| 0 <= i < leading_zeros(s) implies #[trigger] s[i] == '0' by {
            if i > 0 {
                assert(s[i] == t[i - 1]);
            }
        }
        if leading_zeros(s) < s.len() {
            assert(s[leading_zeros(s) as int] == t[leading_zeros(t) as int]);
        }
    }
}

/// The trailing zeros of a text are zeros, and what stands before them is none.
pub proof fn lemma_trailing_zeros(s: Seq<char>)
    ensures
        trailing_zeros(s) <= s.len(),
        forall|i: int| s.len() - trailing_zeros(s) <= i < s.len() ==> #[trigger] s[i] == '0',
        trailing_zeros(s) < s.len() ==> s[s.len() - trailing_zeros(s) - 1] != '0',
    decreases s.len(),
{
    if s.len() > 0 && s.last() == '0' {
        let t = s.drop_last();
        lemma_trailing_zeros(t);
        assert forall|i: int| s.len() - trailing_zeros(s) <= i < s.len() implies #[trigger] s[i]
            == '0' by {
            if i < t.len() {
                assert(s[i] == t[i]);
            }
        }
        if trailing_zeros(s) < s.len() {
            assert(s[s.len() - trailing_zeros(s) - 1] == t[t.len() - trailing_zeros(t) - 1]);
        }
    }
}

/// Counts the digits of `chars` that follow one another from `from` on.
fn count_digits(chars: &Vec<char>, from: usize) -> (r: usize)
    requires
        from <= chars.len(),
    ensures
        r == digit_run(chars@.skip(from as int)),
        from + r <= chars.len(),
{
    let ghost s = chars@.skip(from as int);
    let mut i: usize = from;
    while i < chars.len() && '0' <= chars[i] && chars[i] <= '9'
        invariant
            from <= i <= chars.len(),
            s == chars@.skip(from as int),
            forall|j: int| 0 <= j < i - from ==> is_digit(#[trigger] s[j]),
        decreases chars.len() - i,
    {
        assert(s[i - from] == chars@[i as int]);
        i += 1;
    }
    proof {
        if i < chars.len() {
            assert(s[i - from] == chars@[i as int]);
        }
        lemma_digit_run_is(s, i - from);
    }
    i - from
}

/// Whether the characters of `chars` from `from` on are the lower-case
/// word `word`, whatever the case of their letters.
fn is_word_at(chars: &Vec<char>, from: usize, word: &Vec<char>) -> (r: bool)
    requires
        from <= chars.len(),
    ensures
        r == is_word(chars@.skip(from as int), word@),
{
    let ghost s = chars@.skip(from as int);
    if chars.len() - from != word.len() {
        return false;
    }
    let mut i: usize = 0;
    while i < word.len()
        invariant
            from <= chars.len(),
            chars.len() - from == word.len(),
            i <= word.len(),
            s == chars@.skip(from as int),
            forall|j: int| 0 <= j < i ==> lower(#[trigger] s[j]) == word@[j],
        decreases word.len() - i,
    {
        let c = chars[from + i];
        assert(c == s[i as int]);
        let l: char = if 'A' <= c && c <= 'Z' {
            ((c as u8) + 32) as char
        } else {
            c
        };
        if l != word[i] {
            return false;
        }
        i += 1;
    }
    true
}

/// Appends `n` zeros to `out`.
fn push_zeros(out: &mut String, n: usize)
    ensures
        final(out)@ == old(out)@ + zeros(n as nat),
{
    let mut i: usize = 0;
    proof {
        assert(out@ =~= old(out)@ + zeros(0));
    }
    while i < n
        invariant
            i <= n,
            out@ == old(out)@ + zeros(i as nat),
        decreases n - i,
    {
        out.push('0');
        proof {
            assert(out@ =~= old(out)@ + zeros((i + 1) as nat));
        }
        i += 1;
    }
}

/// Puts the number `0.ddd × 10^point`, where `ddd` are the digits `all`,
/// in canonical form.
fn scale(negative: bool, all: &Vec<char>, point: i128) -> (r: Option<Number>)
    requires
        all_digits(all@),
        -0x4000_0000_0000_0000_0000 <= point <= 0x4000_0000_0000_0000_0000,
    ensures
        match scaled(negative, all@, point as int) {
            Some(v) => r matches Some(n) && n@ == v && v.canonical(),
            None => r is None,
        },
{
    proof {
        lemma_scaled_canonical(negative, all@, point as int);
    }
    let m: usize = all.len();
    let mut lead: usize = 0;
    while lead < m && all[lead] == '0'
        invariant
            m == all.len(),
            lead <= m,
            forall|j: int| 0 <= j < lead ==> #[trigger] all@[j] == '0',
        decreases m - lead,
    {
        lead += 1;
    }
    proof {
        lemma_leading_zeros_is(all@, lead as int);
    }
    let ghost rest = all@.skip(lead as int);
    let mut end: usize = m;
    while end > lead && all[end - 1] == '0'
        invariant
            m == all.len(),
            lead <= end <= m,
            rest == all@.skip(lead as int),
            forall|j: int| end - lead <= j < m - lead ==> #[trigger] rest[j] == '0',
        decreases end,
    {
        proof {
            assert(rest[end - 1 - lead] == all@[end - 1]);
        }
        end -= 1;
    }
    proof {
        if end > lead {
            assert(rest[end - 1 - lead] == all@[end - 1]);
        }
        lemma_trailing_zeros_is(rest, m - end);
        assert(rest.take(rest.len() - trailing_zeros(rest)) =~= all@.subrange(
            lead as int,
            end as int,
        ));
    }
    let mut digits = String::new();
    push_range(&mut digits, all, lead, end);
    proof {
        assert(digits@ =~= all@.subrange(lead as int, end as int));
    }
    if end == lead {
        return Some(Number::Finite { negative, digits, exponent: 0 });
    }
    let exponent: i128 = point - lead as i128 - 1;
    if exponent < i64::MIN as i128 || exponent > i64::MAX as i128 {
        return None;
    }
    Some(Number::Finite { negative, digits, exponent: exponent as i64 })
}

/// Where the parts of a decimal literal stand in a text `b`: how many
/// digits come first, whether a point follows them, and how many digits
/// follow the point.
pub open spec fn layout(b: Seq<char>) -> (int, bool, int) {
    let whole = digit_run(b) as int;
    let pointed = whole < b.len() && b[whole] == '.';
    let fraction = if pointed {
        digit_run(b.skip(whole + 1)) as int
    } else {
        0
    };
    (whole, pointed, fraction)
}

/// Finds the parts of a decimal literal in `chars` from `start` on.
fn scan(chars: &Vec<char>, start: usize) -> (r: (usize, bool, usize))
    requires
        start <= chars.len(),
    ensures
        (r.0 as int, r.1, r.2 as int) == layout(chars@.skip(start as int)),
        start + r.0 + r.2 + (if r.1 { 1int } else { 0int }) <= chars.len(),
{
    let n: usize = chars.len();
    let ghost b = chars@.skip(start as int);
    let whole: usize = count_digits(chars, start);
    let dot: usize = start + whole;
    assert(dot < n ==> b[whole as int] == chars@[dot as int]);
    if dot < n && chars[dot] == '.' {
        assert(b.skip(whole + 1) =~= chars@.skip(dot + 1));
        let fraction: usize = count_digits(chars, dot + 1);
        (whole, true, fraction)
    } else {
        (whole, false, 0)
    }
}

/// The digits of a decimal literal in `b`, those before the point and
/// those behind it, where `b` is laid out as given.
pub open spec fn literal_digits(b: Seq<char>, whole: int, pointed: bool, fraction: int) -> Seq<
    char,
> {
    if pointed {
        b.subrange(0, whole) + b.subrange(whole + 1, whole + 1 + fraction)
    } else {
        b.subrange(0, whole)
    }
}

/// The digits of a decimal literal are digits.
proof fn lemma_literal_digits(b: Seq<char>)
    ensures
        all_digits(literal_digits(b, layout(b).0, layout(b).1, layout(b).2)),
        0 <= layout(b).0 <= b.len(),
        0 <= layout(b).2,
        layout(b).1 ==> layout(b).0 + 1 + layout(b).2 <= b.len(),
{
    lemma_digit_run(b);
    let (whole, pointed, fraction) = layout(b);
    let head = b.take(whole);
    let all = literal_digits(b, whole, pointed, fraction);
    if pointed {
        let rest = b.skip(whole + 1);
        lemma_digit_run(rest);
        let behind = rest.take(fraction);
        assert(b.subrange(whole + 1, whole + 1 + fraction) =~= behind);
        assert forall|i: int| 0 <= i < all.len() implies is_digit(#[trigger] all[i]) by {
            if i < whole {
                assert(all[i] == head[i]);
            } else {
                assert(all[i] == behind[i - whole]);
            }
        }
    } else {
        assert(all =~= head);
    }
}

/// Copies the digits of a decimal literal out of `chars`.
fn gather(chars: &Vec<char>, start: usize, whole: usize, pointed: bool, fraction: usize) -> (all:
    Vec<char>)
    requires
        start + whole + fraction + (if pointed { 1int } else { 0int }) <= chars.len(),
    ensures
        all@ == literal_digits(chars@.skip(start as int), whole as int, pointed, fraction as int),
{
    let ghost b = chars@.skip(start as int);
    let mut text = String::new();
    push_range(&mut text, chars, start, start + whole);
    assert(chars@.subrange(start as int, start + whole) =~= b.subrange(0, whole as int));
    if pointed {
        push_range(&mut text, chars, start + whole + 1, start + whole + 1 + fraction);
        assert(chars@.subrange(start + whole + 1, start + whole + 1 + fraction) =~= b.subrange(
            whole + 1,
            whole + 1 + fraction,
        ));
    }
    let all = chars_of(text.as_str());
    assert(all@ =~= literal_digits(b, whole as int, pointed, fraction as int));
    all
}

/// The power of ten that the text `b` writes from `tail` on: none where
/// nothing is left, else an `e` or `E` and a signed integer of 64 bits.
pub open spec fn literal_power(b: Seq<char>, tail: int) -> Option<i64> {
    if tail >= b.len() {
        Some(0i64)
    } else if b[tail] == 'e' || b[tail] == 'E' {
        i64_literal(b.skip(tail + 1))
    } else {
        None
    }
}

/// Reads the power of ten that `chars` writes from `tail` on.
fn parse_power(chars: &Vec<char>, start: usize, tail: usize) -> (r: Option<i64>)
    requires
        start <= tail <= chars.len(),
    ensures
        r == literal_power(chars@.skip(start as int), tail - start),
{
    let ghost b = chars@.skip(start as int);
    if tail == chars.len() {
        return Some(0);
    }
    assert(b[tail - start] == chars@[tail as int]);
    if chars[tail] == 'e' || chars[tail] == 'E' {
        assert(b.skip(tail - start + 1) =~= chars@.skip(tail + 1));
        parse_i64(chars, tail + 1)
    } else {
        None
    }
}

/// Reads the characters of `chars` from `start` on as a decimal literal.
fn parse_decimal(chars: &Vec<char>, start: usize, negative: bool) -> (r: Option<Number>)
    requires
        start <= chars.len(),
    ensures
        match decimal_literal(chars@.skip(start as int), negative) {
            Some(v) => r matches Some(n) && n@ == v && v.canonical(),
            None => r is None,
        },
{
    let (whole, pointed, fraction) = scan(chars, start);
    if whole + fraction == 0 {
        return None;
    }
    let tail: usize = if pointed {
        start + whole + 1 + fraction
    } else {
        start + whole
    };
    let power = match parse_power(chars, start, tail) {
        Some(e) => e,
        None => {
            return None;
        },
    };
    let all = gather(chars, start, whole, pointed, fraction);
    proof {
        lemma_literal_digits(chars@.skip(start as int));
    }
    scale(negative, &all, whole as i128 + power as i128)
}

/// Decodes a number.
///
/// The text is an optional sign and then `inf`, `infinity` or `nan` in any
/// case, or digits with at most one point among them, at least one digit,
/// and an optional exponent: `e` or `E` and a signed integer. The number
/// comes out in canonical form. A text of another shape is refused, and so
/// is one whose exponent, as written or in canonical form, does not fit in
/// 64 bits.
pub fn decode_f64(text: &str) -> (r: Result<Number, Error>)
    ensures
        match decode_f64_spec(text@) {
            Ok(v) => r matches Ok(n) && n@ == v && v.canonical(),
            Err(e) => r matches Err(f) && f == e,
        },
{
    proof {
        reveal(decode_f64_spec);
    }
    let chars = chars_of(text);
    let n: usize = chars.len();
    let negative = n > 0 && chars[0] == '-';
    let start: usize = if n > 0 && (chars[0] == '+' || chars[0] == '-') {
        1
    } else {
        0
    };
    proof {
        if start == 1 {
            assert(chars@.skip(1) =~= text@.drop_first());
        } else {
            assert(chars@.skip(0) =~= text@);
        }
    }
    let inf: Vec<char> = vec!['i', 'n', 'f'];
    let infinity: Vec<char> = vec!['i', 'n', 'f', 'i', 'n', 'i', 't', 'y'];
    let nan: Vec<char> = vec!['n', 'a', 'n'];
    proof {
        assert(inf@ =~= word_inf());
        assert(infinity@ =~= word_infinity());
        assert(nan@ =~= word_nan());
    }
    if is_word_at(&chars, start, &inf) || is_word_at(&chars, start, &infinity) {
        return Ok(Number::Infinite { negative });
    }
    if is_word_at(&chars, start, &nan) {
        return Ok(Number::NotANumber);
    }
    match parse_decimal(&chars, start, negative) {
        Some(number) => Ok(number),
        None => Err(Error::Float),
    }
}

/// Appends the exponent `x` of scientific notation to `out`.
fn push_exponent(out: &mut String, x: i64)
    ensures
        final(out)@ == old(out)@ + exponent_text(x as int),
{
    out.push('e');
    if x >= 0 {
        out.push('+');
        push_digits(out, x as u64);
    } else {
        out.push('-');
        let magnitude: u64 = if x == i64::MIN {
            0x8000_0000_0000_0000
        } else {
            (-x) as u64
        };
        push_digits(out, magnitude);
    }
    assert(final(out)@ =~= old(out)@ + exponent_text(x as int));
}

/// Appends the magnitude `d.ddd × 10^x` in scientific notation to `out`.
fn push_scientific(out: &mut String, d: &Vec<char>, x: i64)
    requires
        d.len() > 0,
        x >= 21 || x < -6,
    ensures
        final(out)@ == old(out)@ + magnitude_text(d@, x as int),
{
    let k: usize = d.len();
    push_range(out, d, 0, 1);
    if k > 1 {
        out.push('.');
        push_range(out, d, 1, k);
    }
    let ghost mantissa = out@;
    push_exponent(out, x);
    proof {
        if k == 1 {
            assert(d@.subrange(0, 1) =~= d@);
            assert(mantissa =~= old(out)@ + d@);
        } else {
            assert(mantissa =~= old(out)@ + (d@.take(1) + seq!['.'] + d@.skip(1)));
        }
        assert(final(out)@ =~= old(out)@ + magnitude_text(d@, x as int));
    }
}

/// Appends the magnitude `d.ddd × 10^x` in plain notation to `out`.
fn push_plain(out: &mut String, d: &Vec<char>, x: i64)
    requires
        d.len() > 0,
        -6 <= x <= 20,
    ensures
        final(out)@ == old(out)@ + magnitude_text(d@, x as int),
{
    let k: usize = d.len();
    if x < 0 {
        out.push('0');
        out.push('.');
        push_zeros(out, (-x - 1) as usize);
        push_range(out, d, 0, k);
        proof {
            assert(d@.subrange(0, k as int) =~= d@);
            assert(final(out)@ =~= old(out)@ + (seq!['0', '.'] + zeros((-x - 1) as nat) + d@));
        }
    } else if (x as usize) + 1 >= k {
        push_range(out, d, 0, k);
        push_zeros(out, (x as usize) + 1 - k);
        proof {
            assert(d@.subrange(0, k as int) =~= d@);
            assert(final(out)@ =~= old(out)@ + (d@ + zeros((x + 1 - k) as nat)));
        }
    } else {
        push_range(out, d, 0, (x as usize) + 1);
        out.push('.');
        push_range(out, d, (x as usize) + 1, k);
        proof {
            assert(final(out)@ =~= old(out)@ + (d@.take(x + 1) + seq!['.'] + d@.skip(x + 1)));
        }
    }
}

/// Encodes a number as the runtime that wrote the save prints it.
///
/// A magnitude from `0.000001` up to, but not including, `1e21` is written
/// in plain notation, with no digit more than the number has; any other in
/// scientific notation, with the sign of the exponent written also where
/// it is positive. Zero is `0`, an infinity `Infinity`, and what is not a
/// number `NaN`; a negative sign comes first.
pub fn encode_f64(value: &Number) -> (text: String)
    ensures
        text@ == encode_f64_spec(value@),
{
    proof {
        reveal(encode_f64_spec);
    }
    let mut text = String::new();
    match value {
        Number::NotANumber => {
            text.push('N');
            text.push('a');
            text.push('N');
            assert(text@ =~= encode_f64_spec(value@));
        },
        Number::Infinite { negative } => {
            if *negative {
                text.push('-');
            }
            text.push('I');
            text.push('n');
            text.push('f');
            text.push('i');
            text.push('n');
            text.push('i');
            text.push('t');
            text.push('y');
            assert(text@ =~= encode_f64_spec(value@));
        },
        Number::Finite { negative, digits, exponent } => {
            let d = chars_of(digits.as_str());
            let x: i64 = *exponent;
            if *negative {
                text.push('-');
            }
            assert(text@ =~= sign_text(*negative));
            if d.len() == 0 {
                text.push('0');
                assert(text@ =~= sign_text(*negative) + seq!['0']);
            } else if x >= 21 || x < -6 {
                push_scientific(&mut text, &d, x);
            } else {
                push_plain(&mut text, &d, x);
            }
        },
    }
    text
}

/// Whether `text` decodes to a number whose text it is: the check that a
/// text is in the form in which numbers are written.
pub fn check_inverse(text: &str) -> (r: Result<bool, Error>)
    ensures
        match decode_f64_spec(text@) {
            Ok(v) => r == Ok::<bool, Error>(encode_f64_spec(v) == text@),
            Err(e) => r == Err::<bool, Error>(e),
        },
{
    let number = decode_f64(text)?;
    Ok(same_text(encode_f64(&number).as_str(), text))
}

/// Digits followed by the end or by what is no digit are the leading digits.
proof fn lemma_digit_run_concat(a: Seq<char>, rest: Seq<char>)
    requires
        all_digits(a),
        rest.len() == 0 || !is_digit(rest[0]),
    ensures
        digit_run(a + rest) == a.len(),
{
    let s = a + rest;
    assert forall|i: int| 0 <= i < a.len() implies is_digit(#[trigger] s[i]) by {
        assert(s[i] == a[i]);
    }
    if rest.len() > 0 {
        assert(s[a.len() as int] == rest[0]);
    }
    lemma_digit_run_is(s, a.len() as int);
}

/// The exponent of scientific notation is read back as the power of ten.
proof fn lemma_exponent_text(x: i64)
    ensures
        exponent_text(x as int).len() >= 3,
        exponent_text(x as int)[0] == 'e',
        i64_literal(exponent_text(x as int).skip(1)) == Some(x),
        plain(exponent_text(x as int)),
{
    let t = exponent_text(x as int);
    let body = t.skip(1);
    if x >= 0 {
        let d = decimal_digits(x as nat);
        lemma_decimal_digits(x as nat);
        assert(body =~= seq!['+'] + d);
        assert(body.drop_first() =~= d);
        assert(signed_literal(body) == Some(x as int));
        lemma_digits_plain(d);
        lemma_plain_concat(seq!['e', '+'], d);
    } else {
        let d = decimal_digits((-x) as nat);
        lemma_decimal_digits((-x) as nat);
        assert(body =~= seq!['-'] + d);
        assert(body.drop_first() =~= d);
        assert(signed_literal(body) == Some(x as int));
        lemma_digits_plain(d);
        lemma_plain_concat(seq!['e', '-'], d);
    }
}

/// Canonical digits keep all their digits when zeros are dropped at both ends.
proof fn lemma_scaled_digits(negative: bool, digits: Seq<char>, before: nat, behind: nat, x: i64)
    requires
        all_digits(digits),
        digits.len() > 0,
        digits[0] != '0',
        digits.last() != '0',
    ensures
        scaled(negative, zeros(before) + digits + zeros(behind), x + before + 1) == Some(
            NumberView::Finite { negative, digits, exponent: x },
        ),
{
    let all = zeros(before) + digits + zeros(behind);
    assert(all[before as int] == digits[0]);
    lemma_leading_zeros_is(all, before as int);
    let rest = all.skip(before as int);
    assert(rest =~= digits + zeros(behind));
    assert(rest[digits.len() - 1] == digits.last());
    lemma_trailing_zeros_is(rest, behind as int);
    assert(rest.take(rest.len() - behind) =~= digits);
}

/// The text of a canonical magnitude in scientific notation writes that magnitude.
proof fn lemma_scientific_literal(negative: bool, digits: Seq<char>, x: i64)
    requires
        all_digits(digits),
        digits.len() > 0,
        digits[0] != '0',
        digits.last() != '0',
        x >= 21 || x < -6,
    ensures
        decimal_literal(magnitude_text(digits, x as int), negative) == Some(
            NumberView::Finite { negative, digits, exponent: x },
        ),
{
    let k = digits.len() as int;
    let m = magnitude_text(digits, x as int);
    let et = exponent_text(x as int);
    lemma_exponent_text(x);
    lemma_scaled_digits(negative, digits, 0, 0, x);
    assert(zeros(0) + digits + zeros(0) =~= digits);
    if k == 1 {
        assert(m == digits + et);
        lemma_digit_run_concat(digits, et);
        assert(m[1] == et[0]);
        assert(layout(m) == (1int, false, 0int));
        assert(m.skip(2) =~= et.skip(1));
        assert(literal_power(m, 1) == Some(x));
        assert(literal_digits(m, 1, false, 0) =~= digits);
    } else {
        let head = digits.take(1);
        let behind = digits.skip(1);
        assert(m == head + seq!['.'] + behind + et);
        assert(m =~= head + (seq!['.'] + behind + et));
        assert(all_digits(head)) by {
            assert forall|i: int| 0 <= i < head.len() implies is_digit(#[trigger] head[i]) by {
                assert(head[i] == digits[i]);
            }
        }
        lemma_digit_run_concat(head, seq!['.'] + behind + et);
        assert(m[1] == '.');
        assert(m.skip(2) =~= behind + et);
        assert(all_digits(behind)) by {
            assert forall|i: int| 0 <= i < behind.len() implies is_digit(#[trigger] behind[i]) by {
                assert(behind[i] == digits[i + 1]);
            }
        }
        lemma_digit_run_concat(behind, et);
        assert(layout(m) == (1int, true, k - 1));
        assert(m[k + 1] == et[0]);
        assert(m.skip(k + 2) =~= et.skip(1));
        assert(literal_power(m, k + 1) == Some(x));
        assert(literal_digits(m, 1, true, k - 1) =~= digits);
    }
}

/// The digits of a part of digits are digits.
proof fn lemma_all_digits_subrange(s: Seq<char>, from: int, to: int)
    requires
        all_digits(s),
        0 <= from <= to <= s.len(),
    ensures
        all_digits(s.subrange(from, to)),
{
    let t = s.subrange(from, to);
    assert forall|i: int| 0 <= i < t.len() implies is_digit(#[trigger] t[i]) by {
        assert(t[i] == s[from + i]);
    }
}

/// Digits and zeros in a row are digits.
proof fn lemma_all_digits_concat(a: Seq<char>, b: Seq<char>)
    requires
        all_digits(a),
        all_digits(b),
    ensures
        all_digits(a + b),
{
    let s = a + b;
    assert forall|i: int| 0 <= i < s.len() implies is_digit(#[trigger] s[i]) by {
        if i < a.len() {
            assert(s[i] == a[i]);
        } else {
            assert(s[i] == b[i - a.len()]);
        }
    }
}

/// The text of a canonical magnitude below one, in plain notation, writes
/// that magnitude.
proof fn lemma_small_literal(negative: bool, digits: Seq<char>, x: i64)
    requires
        all_digits(digits),
        digits.len() > 0,
        digits[0] != '0',
        digits.last() != '0',
        -6 <= x < 0,
    ensures
        decimal_literal(magnitude_text(digits, x as int), negative) == Some(
            NumberView::Finite { negative, digits, exponent: x },
        ),
{
    let m = magnitude_text(digits, x as int);
    let none = Seq::<char>::empty();
    let pad = zeros((-x - 1) as nat);
    let behind = pad + digits;
    assert(m =~= seq!['0'] + (seq!['.'] + behind));
    lemma_digit_run_concat(seq!['0'], seq!['.'] + behind);
    assert(m[1] == '.');
    assert(m.skip(2) =~= behind + none);
    lemma_all_digits_concat(pad, digits);
    lemma_digit_run_concat(behind, none);
    assert(layout(m) == (1int, true, behind.len() as int));
    assert(literal_power(m, 2 + behind.len() as int) == Some(0i64));
    assert(literal_digits(m, 1, true, behind.len() as int) =~= zeros((-x) as nat) + digits + zeros(
        0,
    ));
    lemma_scaled_digits(negative, digits, (-x) as nat, 0, x);
}

/// The text of a canonical whole magnitude, in plain notation, writes that
/// magnitude.
proof fn lemma_whole_literal(negative: bool, digits: Seq<char>, x: i64)
    requires
        all_digits(digits),
        digits.len() > 0,
        digits[0] != '0',
        digits.last() != '0',
        0 <= x <= 20,
        x + 1 >= digits.len(),
    ensures
        decimal_literal(magnitude_text(digits, x as int), negative) == Some(
            NumberView::Finite { negative, digits, exponent: x },
        ),
{
    let k = digits.len() as int;
    let m = magnitude_text(digits, x as int);
    let none = Seq::<char>::empty();
    let pad = zeros((x + 1 - k) as nat);
    assert(m =~= digits + pad + none);
    lemma_all_digits_concat(digits, pad);
    lemma_digit_run_concat(digits + pad, none);
    assert(layout(m) == (x + 1, false, 0int));
    assert(literal_power(m, x + 1) == Some(0i64));
    assert(literal_digits(m, x + 1, false, 0) =~= zeros(0) + digits + pad);
    lemma_scaled_digits(negative, digits, 0, (x + 1 - k) as nat, x);
}

/// The text of a canonical magnitude with the point among its digits
/// writes that magnitude.
proof fn lemma_pointed_literal(negative: bool, digits: Seq<char>, x: i64)
    requires
        all_digits(digits),
        digits.len() > 0,
        digits[0] != '0',
        digits.last() != '0',
        0 <= x <= 20,
        x + 1 < digits.len(),
    ensures
        decimal_literal(magnitude_text(digits, x as int), negative) == Some(
            NumberView::Finite { negative, digits, exponent: x },
        ),
{
    let k = digits.len() as int;
    let m = magnitude_text(digits, x as int);
    let none = Seq::<char>::empty();
    let head = digits.take(x + 1);
    let behind = digits.skip(x + 1);
    assert(m =~= head + (seq!['.'] + behind));
    lemma_all_digits_subrange(digits, 0, x + 1);
    lemma_digit_run_concat(head, seq!['.'] + behind);
    assert(m[x + 1] == '.');
    assert(m.skip(x + 2) =~= behind + none);
    lemma_all_digits_subrange(digits, x + 1, k);
    lemma_digit_run_concat(behind, none);
    assert(layout(m) == (x + 1, true, k - x - 1));
    assert(literal_power(m, k + 1) == Some(0i64));
    assert(literal_digits(m, x + 1, true, k - x - 1) =~= zeros(0) + digits + zeros(0));
    lemma_scaled_digits(negative, digits, 0, 0, x);
}

/// The text of a canonical magnitude starts with a digit and writes that
/// magnitude.
proof fn lemma_magnitude_literal(negative: bool, digits: Seq<char>, x: i64)
    requires
        (NumberView::Finite { negative, digits, exponent: x }).canonical(),
    ensures
        magnitude_text(digits, x as int).len() >= 1,
        is_digit(magnitude_text(digits, x as int)[0]),
        decimal_literal(magnitude_text(digits, x as int), negative) == Some(
            NumberView::Finite { negative, digits, exponent: x },
        ),
{
    let m = magnitude_text(digits, x as int);
    if digits.len() == 0 {
        let none = Seq::<char>::empty();
        assert(m =~= seq!['0'] + none);
        lemma_digit_run_concat(seq!['0'], none);
        assert(layout(m) == (1int, false, 0int));
        assert(literal_power(m, 1) == Some(0i64));
        assert(literal_digits(m, 1, false, 0) =~= seq!['0']);
        lemma_leading_zeros_is(seq!['0'], 1);
        assert(seq!['0'].skip(1) =~= none);
        assert(none.take(0) =~= none);
        assert(trailing_zeros(none) == 0);
        assert(digits =~= none);
    } else if x >= 21 || x < -6 {
        lemma_scientific_literal(negative, digits, x);
        assert(m[0] == digits[0]);
    } else if x < 0 {
        lemma_small_literal(negative, digits, x);
    } else if x + 1 >= digits.len() {
        lemma_whole_literal(negative, digits, x);
        assert(m[0] == digits[0]);
    } else {
        lemma_pointed_literal(negative, digits, x);
        assert(m[0] == digits[0]);
    }
}

/// A text that starts with a digit is none of the words for an infinity
/// or for what is not a number.
proof fn lemma_not_a_word(m: Seq<char>)
    requires
        m.len() >= 1,
        is_digit(m[0]),
    ensures
        !is_word(m, word_inf()),
        !is_word(m, word_infinity()),
        !is_word(m, word_nan()),
{
    assert(lower(m[0]) == m[0]);
    assert(word_inf()[0] == 'i');
    assert(word_infinity()[0] == 'i');
    assert(word_nan()[0] == 'n');
}

/// Decoding the text of a canonical decimal gives the decimal.
proof fn lemma_finite_round_trip(negative: bool, digits: Seq<char>, exponent: i64)
    requires
        (NumberView::Finite { negative, digits, exponent }).canonical(),
    ensures
        number_literal(sign_text(negative) + magnitude_text(digits, exponent as int)) == Some(
            NumberView::Finite { negative, digits, exponent },
        ),
{
    let m = magnitude_text(digits, exponent as int);
    let s = sign_text(negative) + m;
    lemma_magnitude_literal(negative, digits, exponent);
    lemma_not_a_word(m);
    if negative {
        assert(s[0] == '-');
        assert(s.drop_first() =~= m);
    } else {
        assert(s =~= m);
    }
}

/// Decoding the text of an infinity gives the infinity.
proof fn lemma_infinite_round_trip(negative: bool)
    ensures
        number_literal(sign_text(negative) + seq!['I', 'n', 'f', 'i', 'n', 'i', 't', 'y']) == Some(
            NumberView::Infinite { negative },
        ),
{
    let w = seq!['I', 'n', 'f', 'i', 'n', 'i', 't', 'y'];
    let s = sign_text(negative) + w;
    assert(is_word(w, word_infinity()));
    if negative {
        assert(s[0] == '-');
        assert(s.drop_first() =~= w);
    } else {
        assert(s =~= w);
    }
}

/// Decoding the text of what is not a number gives it back.
proof fn lemma_nan_round_trip()
    ensures
        number_literal(seq!['N', 'a', 'N']) == Some(NumberView::NotANumber),
{
    let s = seq!['N', 'a', 'N'];
    assert(s[0] == 'N');
    assert(lower(s[0]) == 'n');
    assert(word_inf()[0] == 'i');
    assert(is_word(s, word_nan()));
}

/// Decoding the text of a canonical number gives the number.
pub proof fn lemma_number_round_trip(v: NumberView)
    requires
        v.canonical(),
    ensures
        decode_f64_spec(encode_f64_spec(v)) == Ok::<NumberView, Error>(v),
{
    reveal(decode_f64_spec);
    reveal(encode_f64_spec);
    match v {
        NumberView::Finite { negative, digits, exponent } => {
            lemma_finite_round_trip(negative, digits, exponent);
        },
        NumberView::Infinite { negative } => {
            lemma_infinite_round_trip(negative);
        },
        NumberView::NotANumber => {
            lemma_nan_round_trip();
        },
    }
}

/// The text of a number is not empty.
pub proof fn lemma_number_not_empty(v: NumberView)
    ensures
        encode_f64_spec(v).len() > 0,
{
    reveal(encode_f64_spec);
    match v {
        NumberView::Finite { negative, digits, exponent } => {
            let x = exponent as int;
            let m = magnitude_text(digits, x);
            if digits.len() > 0 && !(x >= 21 || x < -6) && x >= 0 && x + 1 < digits.len() {
                assert(m.len() == digits.take(x + 1).len() + 1 + digits.skip(x + 1).len());
            }
            assert(m.len() > 0);
        },
        _ => {},
    }
}

/// The text of a canonical number is plain.
pub proof fn lemma_number_plain(v: NumberView)
    requires
        v.canonical(),
    ensures
        plain(encode_f64_spec(v)),
{
    reveal(encode_f64_spec);
    match v {
        NumberView::Finite { negative, digits, exponent } => {
            let x = exponent as int;
            let k = digits.len() as int;
            let m = magnitude_text(digits, x);
            lemma_digits_plain(digits);
            lemma_exponent_text(exponent);
            assert(plain(m)) by {
                assert forall|i: int| 0 <= i < m.len() implies !is_delimiter(#[trigger] m[i]) by {
                    if k == 0 {
                    } else if x >= 21 || x < -6 {
                        let et = exponent_text(x);
                        if k == 1 {
                            if i >= 1 {
                                assert(m[i] == et[i - 1]);
                            }
                        } else {
                            if i == 0 {
                                assert(m[i] == digits[0]);
                            } else if i == 1 {
                            } else if i <= k {
                                assert(m[i] == digits[i - 1]);
                            } else {
                                assert(m[i] == et[i - k - 1]);
                            }
                        }
                    } else if x < 0 {
                        if i >= 2 + (-x - 1) {
                            assert(m[i] == digits[i - 2 - (-x - 1)]);
                        }
                    } else if x + 1 >= k {
                        if i < k {
                            assert(m[i] == digits[i]);
                        }
                    } else {
                        if i <= x {
                            assert(m[i] == digits[i]);
                        } else if i > x + 1 {
                            assert(m[i] == digits[i - 1]);
                        }
                    }
                }
            }
            lemma_plain_concat(sign_text(negative), m);
        },
        NumberView::Infinite { negative } => {
            lemma_plain_concat(sign_text(negative), seq!['I', 'n', 'f', 'i', 'n', 'i', 't', 'y']);
        },
        NumberView::NotANumber => {},
    }
}

} // verus!
