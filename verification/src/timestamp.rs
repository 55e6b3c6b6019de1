//! Instants, written as milliseconds since the start of 1970.

use crate::error::Error;
use crate::primitive::{
    decode_i64, decode_i64_spec, encode_i64, lemma_signed_digits_plain, lemma_signed_round_trip,
    signed_digits,
};
use crate::text::plain;
use vstd::prelude::*;

verus! {

/// Whether the calendar has an instant that lies `millis` milliseconds
/// from the start of 1970: what `DateTime::from_timestamp_millis` of
/// chrono decides.
pub uninterp spec fn instant_exists(millis: i64) -> bool;

/// Asks chrono's `DateTime::from_timestamp_millis` whether it has an
/// instant for `millis`; the contract gives that answer a name and claims
/// no more of it.
#[verifier::external_body]
fn has_instant(millis: i64) -> (r: bool)
    ensures
        r == instant_exists(millis),
{
    chrono::DateTime::from_timestamp_millis(millis).is_some()
}

/// An instant, to the millisecond.
#[derive(Clone, Copy, Debug, PartialEq, Eq, PartialOrd, Ord, Hash)]
pub struct Timestamp {
    millis: i64,
}

impl View for Timestamp {
    type V = i64;

    /// The milliseconds from the start of 1970 to this instant.
    closed spec fn view(&self) -> i64 {
        self.millis
    }
}

impl Timestamp {
    #[verifier::type_invariant]
    spec fn in_range(self) -> bool {
        instant_exists(self.millis)
    }

    /// The instant `millis` milliseconds from the start of 1970, where the
    /// calendar has one.
    pub fn from_millis(millis: i64) -> (r: Option<Timestamp>)
        ensures
            match r {
                Some(t) => t@ == millis && instant_exists(millis),
                None => !instant_exists(millis),
            },
    {
        if has_instant(millis) {
            Some(Timestamp { millis })
        } else {
            None
        }
    }

    /// The milliseconds from the start of 1970 to this instant.
    pub fn millis(&self) -> (millis: i64)
        ensures
            millis == self@,
            instant_exists(millis),
    {
        proof {
            use_type_invariant(self);
        }
        self.millis
    }

    /// What decoding `s` as an instant gives: the count of milliseconds.
    #[verifier::opaque]
    pub open spec fn decode_spec(s: Seq<char>) -> Result<i64, Error> {
        match decode_i64_spec(s) {
            Ok(millis) => if instant_exists(millis) {
                Ok(millis)
            } else {
                Err(Error::TimestampOutOfRange)
            },
            Err(e) => Err(e),
        }
    }

    /// The text of the instant that lies `millis` milliseconds from the
    /// start of 1970.
    pub open spec fn encode_spec(millis: i64) -> Seq<char> {
        signed_digits(millis as int)
    }

    /// Decodes an instant from a signed count of milliseconds.
    pub fn decode(text: &str) -> (r: Result<Timestamp, Error>)
        ensures
            match Self::decode_spec(text@) {
                Ok(millis) => r matches Ok(t) && t@ == millis,
                Err(e) => r matches Err(f) && f == e,
            },
    {
        proof {
            reveal(Timestamp::decode_spec);
            reveal(decode_i64_spec);
        }
        match decode_i64(text) {
            Ok(millis) => match Timestamp::from_millis(millis) {
                Some(t) => Ok(t),
                None => Err(Error::TimestampOutOfRange),
            },
            Err(e) => Err(e),
        }
    }

    /// Encodes an instant as its signed count of milliseconds.
    pub fn encode(&self) -> (text: String)
        ensures
            text@ == Self::encode_spec(self@),
    {
        encode_i64(self.millis)
    }

    /// Decoding the text of an instant gives the instant, and the text is plain.
    pub proof fn lemma_round_trip(millis: i64)
        requires
            instant_exists(millis),
        ensures
            Self::decode_spec(Self::encode_spec(millis)) == Ok::<i64, Error>(millis),
            plain(Self::encode_spec(millis)),
    {
        reveal(Timestamp::decode_spec);
        reveal(decode_i64_spec);
        lemma_signed_round_trip(millis as int);
        lemma_signed_digits_plain(millis as int);
    }
}

} // verus!
