//! Rows of flags: one character for each, `0` or `1`, with nothing between
//! them.

use crate::error::Error;
use crate::record::{
    first_failure, lemma_all_succeed, lemma_next_field, lemma_no_failure, none_fails,
};
use crate::text::{chars_of, is_delimiter, plain};
use vstd::prelude::*;

verus! {

/// How the flag at place `i` of `text` fails, if it does: for want of data
/// where the text has no such place, and as no flag where the character
/// there is neither `0` nor `1`.
pub open spec fn flag_failure(text: Seq<char>, i: int) -> Option<Error> {
    if i >= text.len() {
        Some(Error::InsufficientData)
    } else if text[i] == '0' || text[i] == '1' {
        None
    } else {
        Some(Error::Bool)
    }
}

/// The flags that the first `n` characters of `text` write, where none of
/// them fails.
pub open spec fn flags_of(text: Seq<char>, n: nat) -> Seq<bool> {
    Seq::new(n, |i: int| text[i] == '1')
}

/// What decoding the first `n` characters of `text` as flags gives: the
/// failure of the first that fails, or else the flags.
pub open spec fn decode_flags_spec(text: Seq<char>, n: nat) -> Result<Seq<bool>, Error> {
    match first_failure(|i: int| flag_failure(text, i), 0, n as int) {
        Some(e) => Err(e),
        None => Ok(flags_of(text, n)),
    }
}

/// The text of a row of flags: `1` for each that is set and `0` for each
/// that is not.
pub open spec fn encode_flags_spec(flags: Seq<bool>) -> Seq<char> {
    Seq::new(
        flags.len(),
        |i: int|
            if flags[i] {
                '1'
            } else {
                '0'
            },
    )
}

/// Decodes the first `n` characters of `text` as flags, in order; the
/// first that is no flag, or that is wanting, ends the decoding with its
/// error. Characters beyond are not read.
pub fn decode_flags(text: &str, n: usize) -> (r: Result<Vec<bool>, Error>)
    ensures
        match decode_flags_spec(text@, n as nat) {
            Ok(flags) => r matches Ok(v) && v@ == flags,
            Err(e) => r matches Err(f) && f == e,
        },
{
    let chars = chars_of(text);
    let ghost failure = |i: int| flag_failure(text@, i);
    let mut flags: Vec<bool> = Vec::new();
    let mut i: usize = 0;
    while i < n
        invariant
            i <= n,
            chars@ == text@,
            failure == (|i: int| flag_failure(text@, i)),
            none_fails(failure, i as int),
            flags@ == flags_of(text@, i as nat),
        decreases n - i,
    {
        proof {
            lemma_next_field(failure, n as int, i as int);
        }
        if i >= chars.len() {
            return Err(Error::InsufficientData);
        }
        let c = chars[i];
        if c == '1' {
            flags.push(true);
        } else if c == '0' {
            flags.push(false);
        } else {
            return Err(Error::Bool);
        }
        proof {
            assert(flags@ =~= flags_of(text@, (i + 1) as nat));
        }
        i += 1;
    }
    proof {
        lemma_no_failure(failure, n as int);
    }
    Ok(flags)
}

/// What decoding all of `text` as flags gives.
#[verifier::opaque]
pub open spec fn decode_all_flags_spec(text: Seq<char>) -> Result<Seq<bool>, Error> {
    decode_flags_spec(text, text.len())
}

/// Decodes all of `text` as flags; the first character that is no flag
/// ends the decoding.
pub fn decode_all_flags(text: &str) -> (r: Result<Vec<bool>, Error>)
    ensures
        match decode_all_flags_spec(text@) {
            Ok(flags) => r matches Ok(v) && v@ == flags,
            Err(e) => r matches Err(f) && f == e,
        },
{
    proof {
        reveal(decode_all_flags_spec);
    }
    decode_flags(text, text.unicode_len())
}

/// Decoding the text of flags gives the flags, and the text is plain.
pub proof fn lemma_all_flags_round_trip(flags: Seq<bool>)
    ensures
        decode_all_flags_spec(encode_flags_spec(flags)) == Ok::<Seq<bool>, Error>(flags),
        plain(encode_flags_spec(flags)),
{
    reveal(decode_all_flags_spec);
    lemma_flags_round_trip(flags, flags.len());
    assert(flags.take(flags.len() as int) =~= flags);
}

/// Encodes flags as a row of `0` and `1`.
pub fn encode_flags(flags: &Vec<bool>) -> (text: String)
    ensures
        text@ == encode_flags_spec(flags@),
{
    let mut text = String::new();
    let mut i: usize = 0;
    while i < flags.len()
        invariant
            i <= flags.len(),
            text@ == encode_flags_spec(flags@.take(i as int)),
        decreases flags.len() - i,
    {
        if flags[i] {
            text.push('1');
        } else {
            text.push('0');
        }
        proof {
            assert(text@ =~= encode_flags_spec(flags@.take(i + 1)));
        }
        i += 1;
    }
    proof {
        assert(flags@.take(i as int) =~= flags@);
    }
    text
}

/// Decoding the text of flags, as many as there are or fewer, gives the
/// first of them back; the text has one plain character for each flag.
pub proof fn lemma_flags_round_trip(flags: Seq<bool>, n: nat)
    requires
        n <= flags.len(),
    ensures
        decode_flags_spec(encode_flags_spec(flags), n) == Ok::<Seq<bool>, Error>(
            flags.take(n as int),
        ),
        encode_flags_spec(flags).len() == flags.len(),
        plain(encode_flags_spec(flags)),
{
    let text = encode_flags_spec(flags);
    let failure = |i: int| flag_failure(text, i);
    assert forall|j: int| 0 <= j < n implies (#[trigger] failure(j)) is None by {}
    lemma_no_failure(failure, n as int);
    assert(flags_of(text, n) =~= flags.take(n as int));
    assert forall|i: int| 0 <= i < text.len() implies !is_delimiter(#[trigger] text[i]) by {}
}

/// A text that decodes as `n` flags, cut off before the last of them,
/// fails for want of data.
pub proof fn lemma_flags_truncated(text: Seq<char>, n: nat, k: int)
    requires
        decode_flags_spec(text, n) is Ok,
        0 <= k < n,
    ensures
        decode_flags_spec(text.take(k), n) == Err::<Seq<bool>, Error>(Error::InsufficientData),
{
    let failure = |i: int| flag_failure(text, i);
    lemma_all_succeed(failure, 0, n as int);
    assert(failure(n - 1) is None);
    let cut = |i: int| flag_failure(text.take(k), i);
    assert forall|j: int| 0 <= j < k implies (#[trigger] cut(j)) is None by {
        assert(failure(j) is None);
    }
    lemma_next_field(cut, n as int, k);
}

} // verus!
