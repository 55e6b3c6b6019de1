//! The details of a run: when it started, the bakery's name and seed, and
//! the looks of the player.

use crate::error::{Error, Failure};
use crate::primitive::{
    decimal_digits, decode_string, decode_string_spec, decode_usize, decode_usize_spec,
    encode_string, encode_usize, lemma_usize_round_trip,
};
use crate::record::{
    at, field_failure, first_failing, first_failure, lemma_all_succeed, lemma_next_field,
    lemma_no_failure, segment, under, unplaced,
};
use crate::text::{
    free_of, join, join_text, lemma_join_free_of, lemma_plain_free_of, lemma_split_join,
    lemma_split_truncated, same_text, split, split_text, texts,
};
use crate::timestamp::{instant_exists, Timestamp};
use vstd::prelude::*;

verus! {

/// The looks of the player: seven indices, parted by commas.
#[derive(Clone, Copy, Debug, PartialEq, Eq)]
pub struct YouAppearance {
    pub hair: usize,
    pub hair_color: usize,
    pub skin_color: usize,
    pub head_shape: usize,
    pub face: usize,
    pub extra_a: usize,
    pub extra_b: usize,
}

impl YouAppearance {
    /// The texts of the fields, in order.
    pub open spec fn segments(self) -> Seq<Seq<char>> {
        seq![
            decimal_digits(self.hair as nat),
            decimal_digits(self.hair_color as nat),
            decimal_digits(self.skin_color as nat),
            decimal_digits(self.head_shape as nat),
            decimal_digits(self.face as nat),
            decimal_digits(self.extra_a as nat),
            decimal_digits(self.extra_b as nat),
        ]
    }

    /// The text of the record: the texts of its fields, parted by `,`.
    #[verifier::opaque]
    pub open spec fn encode_spec(self) -> Seq<char> {
        join(self.segments(), ',')
    }

    /// The text of each field holds neither the delimiter of the record nor
    /// those of the records around it, and decodes to the field.
    proof fn lemma_fields(self)
        ensures
            forall|i: int| 0 <= i < 7 ==> free_of(#[trigger] self.segments()[i], ','),
            forall|i: int| 0 <= i < 7 ==> free_of(#[trigger] self.segments()[i], ';'),
            forall|i: int| 0 <= i < 7 ==> free_of(#[trigger] self.segments()[i], '|'),
            forall|i: int| 0 <= i < 7
                ==> (#[trigger] YouAppearance::failure(self.segments(), i)) is None,
            YouAppearance::assemble(self.segments()).hair == self.hair,
            YouAppearance::assemble(self.segments()).hair_color == self.hair_color,
            YouAppearance::assemble(self.segments()).skin_color == self.skin_color,
            YouAppearance::assemble(self.segments()).head_shape == self.head_shape,
            YouAppearance::assemble(self.segments()).face == self.face,
            YouAppearance::assemble(self.segments()).extra_a == self.extra_a,
            YouAppearance::assemble(self.segments()).extra_b == self.extra_b,
    {
        lemma_usize_round_trip(self.hair);
        lemma_usize_round_trip(self.hair_color);
        lemma_usize_round_trip(self.skin_color);
        lemma_usize_round_trip(self.head_shape);
        lemma_usize_round_trip(self.face);
        lemma_usize_round_trip(self.extra_a);
        lemma_usize_round_trip(self.extra_b);
        let segments = self.segments();
        lemma_plain_free_of(segments[0], ',');
        lemma_plain_free_of(segments[0], ';');
        lemma_plain_free_of(segments[0], '|');
        lemma_plain_free_of(segments[1], ',');
        lemma_plain_free_of(segments[1], ';');
        lemma_plain_free_of(segments[1], '|');
        lemma_plain_free_of(segments[2], ',');
        lemma_plain_free_of(segments[2], ';');
        lemma_plain_free_of(segments[2], '|');
        lemma_plain_free_of(segments[3], ',');
        lemma_plain_free_of(segments[3], ';');
        lemma_plain_free_of(segments[3], '|');
        lemma_plain_free_of(segments[4], ',');
        lemma_plain_free_of(segments[4], ';');
        lemma_plain_free_of(segments[4], '|');
        lemma_plain_free_of(segments[5], ',');
        lemma_plain_free_of(segments[5], ';');
        lemma_plain_free_of(segments[5], '|');
        lemma_plain_free_of(segments[6], ',');
        lemma_plain_free_of(segments[6], ';');
        lemma_plain_free_of(segments[6], '|');
        assert forall|i: int| 0 <= i < 7 implies YouAppearance::failure(segments, i) is None by {
            assert(i == 0 || i == 1 || i == 2 || i == 3 || i == 4 || i == 5 || i == 6);
        }
    }

    /// Decoding the text of a record gives the record, and the text holds none
    /// of the delimiters of the records around it.
    pub proof fn lemma_round_trip(self)
        ensures
            YouAppearance::decode_spec(self.encode_spec()) == Ok::<YouAppearance, Error>(self),
            free_of(self.encode_spec(), ';'),
            free_of(self.encode_spec(), '|'),
    {
        reveal(YouAppearance::decode_spec);
        reveal(YouAppearance::encode_spec);
        self.lemma_fields();
        let segments = self.segments();
        lemma_split_join(segments, ',');
        lemma_no_failure(|i: int| YouAppearance::failure(segments, i), 7);
        lemma_join_free_of(segments, ',', ';');
        lemma_join_free_of(segments, ',', '|');
    }

    /// The text of a record is one that encoding what it decodes to gives back.
    pub proof fn lemma_text_round_trip(self)
        ensures
            YouAppearance::decode_spec(self.encode_spec()) matches Ok(v) && v.encode_spec()
                == self.encode_spec(),
    {
        self.lemma_round_trip();
    }
}

impl YouAppearance {
    /// How field `i` fails on the given segments, if it does.
    pub open spec fn failure(segments: Seq<Seq<char>>, i: int) -> Option<Error> {
        field_failure(segments, i, decode_usize_spec(segments[i]))
    }

    /// The record that the segments hold, where no field fails.
    pub open spec fn assemble(segments: Seq<Seq<char>>) -> YouAppearance {
        YouAppearance {
            hair: decode_usize_spec(segments[0])->Ok_0,
            hair_color: decode_usize_spec(segments[1])->Ok_0,
            skin_color: decode_usize_spec(segments[2])->Ok_0,
            head_shape: decode_usize_spec(segments[3])->Ok_0,
            face: decode_usize_spec(segments[4])->Ok_0,
            extra_a: decode_usize_spec(segments[5])->Ok_0,
            extra_b: decode_usize_spec(segments[6])->Ok_0,
        }
    }

    /// What decoding `text` gives: the failure of the first field that fails,
    /// or else the record.
    #[verifier::opaque]
    pub open spec fn decode_spec(text: Seq<char>) -> Result<YouAppearance, Error> {
        let segments = split(text, ',');
        match first_failure(|i: int| Self::failure(segments, i), 0, 7) {
            Some(e) => Err(e),
            None => Ok(Self::assemble(segments)),
        }
    }

    /// Where decoding `text` fails: the position of the first field that fails
    /// and, where that field is itself a record, the place of the failure
    /// inside it; nothing where `text` decodes.
    #[verifier::opaque]
    pub open spec fn failing_path(text: Seq<char>) -> Seq<usize> {
        let segments = split(text, ',');
        match first_failing(|i: int| Self::failure(segments, i), 0, 7) {
            Some(i) => seq![i as usize],
            None => Seq::empty(),
        }
    }

    /// Decodes the record from its 7 fields, parted by `,`. The fields are read
    /// in order, and the first that fails ends the decoding with its error and
    /// its place; a field for which no segment is left fails for want of data.
    /// Segments beyond the last field are not read.
    pub fn decode_located(text: &str) -> (r: Result<YouAppearance, Failure>)
        ensures
            match Self::decode_spec(text@) {
                Ok(v) => r matches Ok(x) && x == v,
                Err(e) => r matches Err(f) && f.error == e && f.path@ == Self::failing_path(
                    text@,
                ),
            },
    {
        proof {
            reveal(YouAppearance::decode_spec);
            reveal(YouAppearance::failing_path);
        }
        let parts = split_text(text, ',');
        let ghost segments = texts(parts@);
        let ghost failure = |i: int| Self::failure(segments, i);
        proof {
            lemma_next_field(failure, 7, 0);
        }
        let hair = at(0, decode_usize(at(0, segment(&parts, 0))?))?;
        proof {
            lemma_next_field(failure, 7, 1);
        }
        let hair_color = at(1, decode_usize(at(1, segment(&parts, 1))?))?;
        proof {
            lemma_next_field(failure, 7, 2);
        }
        let skin_color = at(2, decode_usize(at(2, segment(&parts, 2))?))?;
        proof {
            lemma_next_field(failure, 7, 3);
        }
        let head_shape = at(3, decode_usize(at(3, segment(&parts, 3))?))?;
        proof {
            lemma_next_field(failure, 7, 4);
        }
        let face = at(4, decode_usize(at(4, segment(&parts, 4))?))?;
        proof {
            lemma_next_field(failure, 7, 5);
        }
        let extra_a = at(5, decode_usize(at(5, segment(&parts, 5))?))?;
        proof {
            lemma_next_field(failure, 7, 6);
        }
        let extra_b = at(6, decode_usize(at(6, segment(&parts, 6))?))?;
        proof {
            lemma_no_failure(failure, 7);
        }
        Ok(YouAppearance { hair, hair_color, skin_color, head_shape, face, extra_a, extra_b })
    }

    /// Decodes the record as `decode_located` does, without the place of a
    /// failure.
    pub fn decode(text: &str) -> (r: Result<YouAppearance, Error>)
        ensures
            r == Self::decode_spec(text@),
    {
        unplaced(Self::decode_located(text))
    }

    /// Encodes the record: the texts of its fields in order, parted by `,`.
    pub fn encode(&self) -> (text: String)
        ensures
            text@ == self.encode_spec(),
    {
        let mut parts: Vec<String> = Vec::new();
        parts.push(encode_usize(self.hair));
        parts.push(encode_usize(self.hair_color));
        parts.push(encode_usize(self.skin_color));
        parts.push(encode_usize(self.head_shape));
        parts.push(encode_usize(self.face));
        parts.push(encode_usize(self.extra_a));
        parts.push(encode_usize(self.extra_b));
        proof {
            reveal(YouAppearance::encode_spec);
            assert(texts(parts@) =~= self.segments());
        }
        join_text(&parts, ',')
    }

    /// Whether `text` decodes to a record whose text it is: the check that a
    /// text is in the form in which the record is written.
    pub fn check_inverse(text: &str) -> (r: Result<bool, Error>)
        ensures
            match Self::decode_spec(text@) {
                Ok(v) => r == Ok::<bool, Error>(v.encode_spec() == text@),
                Err(e) => r == Err::<bool, Error>(e),
            },
    {
        let value = Self::decode(text)?;
        Ok(same_text(value.encode().as_str(), text))
    }

    /// The name of the field at position `i`, the first being at 0.
    pub fn field_name(i: usize) -> (name: Option<&'static str>)
        ensures
            name is Some <==> i < 7,
            i == 0 ==> name == Some("hair"),
            i == 1 ==> name == Some("hair_color"),
            i == 2 ==> name == Some("skin_color"),
            i == 3 ==> name == Some("head_shape"),
            i == 4 ==> name == Some("face"),
            i == 5 ==> name == Some("extra_a"),
            i == 6 ==> name == Some("extra_b"),
    {
        if i == 0 {
            Some("hair")
        } else if i == 1 {
            Some("hair_color")
        } else if i == 2 {
            Some("skin_color")
        } else if i == 3 {
            Some("head_shape")
        } else if i == 4 {
            Some("face")
        } else if i == 5 {
            Some("extra_a")
        } else if i == 6 {
            Some("extra_b")
        } else {
            None
        }
    }

    /// A text that decodes, cut off at the end of one of its fields before the
    /// last, fails for want of data.
    pub proof fn lemma_truncated(text: Seq<char>, k: int)
        requires
            Self::decode_spec(text) is Ok,
            1 <= k < 7,
        ensures
            Self::decode_spec(join(split(text, ',').take(k), ',')) == Err::<YouAppearance, Error>(
                Error::InsufficientData,
            ),
    {
        reveal(YouAppearance::decode_spec);
        let segments = split(text, ',');
        let failure = |i: int| Self::failure(segments, i);
        lemma_all_succeed(failure, 0, 7);
        assert(failure(6) is None);
        lemma_split_truncated(text, ',', k);
        let kept = segments.take(k);
        let cut = |i: int| Self::failure(kept, i);
        assert forall|j: int| 0 <= j < k implies (#[trigger] cut(j)) is None by {
            assert(failure(j) is None);
            assert(kept[j] == segments[j]);
        }
        lemma_next_field(cut, 7, k);
    }
}

/// The details of a run: when the ascension, the legacy and the session
/// started, the name and the seed of the bakery, and the looks of the player.
#[derive(Clone, Debug, PartialEq, Eq)]
pub struct RunDetails {
    pub ascension_start: Timestamp,
    pub legacy_start: Timestamp,
    pub last_opened: Timestamp,
    pub bakery_name: String,
    pub seed: String,
    pub you_appearance: YouAppearance,
}

/// The mathematical content of [`RunDetails`]: texts in place of strings, and
/// plain values in place of what holds them.
pub struct RunDetailsView {
    pub ascension_start: i64,
    pub legacy_start: i64,
    pub last_opened: i64,
    pub bakery_name: Seq<char>,
    pub seed: Seq<char>,
    pub you_appearance: YouAppearance,
}

impl View for RunDetails {
    type V = RunDetailsView;

    open spec fn view(&self) -> RunDetailsView {
        RunDetailsView {
            ascension_start: self.ascension_start@,
            legacy_start: self.legacy_start@,
            last_opened: self.last_opened@,
            bakery_name: self.bakery_name@,
            seed: self.seed@,
            you_appearance: self.you_appearance,
        }
    }
}

impl RunDetailsView {
    /// Whether the record is one that decoding can yield, so that its text
    /// decodes to it again.
    pub open spec fn canonical(self) -> bool {
        &&& instant_exists(self.ascension_start)
        &&& instant_exists(self.legacy_start)
        &&& instant_exists(self.last_opened)
        &&& free_of(self.bakery_name, ';') && free_of(self.bakery_name, '|')
        &&& free_of(self.seed, ';') && free_of(self.seed, '|')
    }

    /// The texts of the fields, in order.
    pub open spec fn segments(self) -> Seq<Seq<char>> {
        seq![
            Timestamp::encode_spec(self.ascension_start),
            Timestamp::encode_spec(self.legacy_start),
            Timestamp::encode_spec(self.last_opened),
            self.bakery_name,
            self.seed,
            self.you_appearance.encode_spec(),
        ]
    }

    /// The text of the record: the texts of its fields, parted by `;`.
    #[verifier::opaque]
    pub open spec fn encode_spec(self) -> Seq<char> {
        join(self.segments(), ';')
    }

    /// The text of each field holds neither the delimiter of the record nor
    /// those of the records around it, and decodes to the field.
    proof fn lemma_fields(self)
        requires
            self.canonical(),
        ensures
            forall|i: int| 0 <= i < 6 ==> free_of(#[trigger] self.segments()[i], ';'),
            forall|i: int| 0 <= i < 6 ==> free_of(#[trigger] self.segments()[i], '|'),
            forall|i: int| 0 <= i < 6
                ==> (#[trigger] RunDetails::failure(self.segments(), i)) is None,
            RunDetails::assemble(self.segments()).ascension_start == self.ascension_start,
            RunDetails::assemble(self.segments()).legacy_start == self.legacy_start,
            RunDetails::assemble(self.segments()).last_opened == self.last_opened,
            RunDetails::assemble(self.segments()).bakery_name == self.bakery_name,
            RunDetails::assemble(self.segments()).seed == self.seed,
            RunDetails::assemble(self.segments()).you_appearance == self.you_appearance,
    {
        Timestamp::lemma_round_trip(self.ascension_start);
        Timestamp::lemma_round_trip(self.legacy_start);
        Timestamp::lemma_round_trip(self.last_opened);
        self.you_appearance.lemma_round_trip();
        let segments = self.segments();
        lemma_plain_free_of(segments[0], ';');
        lemma_plain_free_of(segments[0], '|');
        lemma_plain_free_of(segments[1], ';');
        lemma_plain_free_of(segments[1], '|');
        lemma_plain_free_of(segments[2], ';');
        lemma_plain_free_of(segments[2], '|');
        assert(free_of(segments[3], ';'));
        assert(free_of(segments[3], '|'));
        assert(free_of(segments[4], ';'));
        assert(free_of(segments[4], '|'));
        assert(free_of(segments[5], ';'));
        assert(free_of(segments[5], '|'));
        assert forall|i: int| 0 <= i < 6 implies RunDetails::failure(segments, i) is None by {
            assert(i == 0 || i == 1 || i == 2 || i == 3 || i == 4 || i == 5);
        }
    }

    /// Decoding the text of a record that is canonical gives the record, and
    /// the text holds none of the delimiters of the records around it.
    pub proof fn lemma_round_trip(self)
        requires
            self.canonical(),
        ensures
            RunDetails::decode_spec(self.encode_spec()) == Ok::<RunDetailsView, Error>(self),
            free_of(self.encode_spec(), '|'),
    {
        reveal(RunDetails::decode_spec);
        reveal(RunDetailsView::encode_spec);
        self.lemma_fields();
        let segments = self.segments();
        lemma_split_join(segments, ';');
        lemma_no_failure(|i: int| RunDetails::failure(segments, i), 6);
        lemma_join_free_of(segments, ';', '|');
    }

    /// The text of a record that is canonical is one that encoding what it
    /// decodes to gives back.
    pub proof fn lemma_text_round_trip(self)
        requires
            self.canonical(),
        ensures
            RunDetails::decode_spec(self.encode_spec()) matches Ok(v) && v.encode_spec()
                == self.encode_spec(),
    {
        self.lemma_round_trip();
    }
}

impl RunDetails {
    /// How field `i` fails on the given segments, if it does.
    pub open spec fn failure(segments: Seq<Seq<char>>, i: int) -> Option<Error> {
        if i == 0 || i == 1 || i == 2 {
            field_failure(segments, i, Timestamp::decode_spec(segments[i]))
        } else if i == 3 || i == 4 {
            field_failure(segments, i, decode_string_spec(segments[i]))
        } else {
            field_failure(segments, i, YouAppearance::decode_spec(segments[i]))
        }
    }

    /// The record that the segments hold, where no field fails.
    pub open spec fn assemble(segments: Seq<Seq<char>>) -> RunDetailsView {
        RunDetailsView {
            ascension_start: Timestamp::decode_spec(segments[0])->Ok_0,
            legacy_start: Timestamp::decode_spec(segments[1])->Ok_0,
            last_opened: Timestamp::decode_spec(segments[2])->Ok_0,
            bakery_name: decode_string_spec(segments[3])->Ok_0,
            seed: decode_string_spec(segments[4])->Ok_0,
            you_appearance: YouAppearance::decode_spec(segments[5])->Ok_0,
        }
    }

    /// What decoding `text` gives: the failure of the first field that fails,
    /// or else the record.
    #[verifier::opaque]
    pub open spec fn decode_spec(text: Seq<char>) -> Result<RunDetailsView, Error> {
        let segments = split(text, ';');
        match first_failure(|i: int| Self::failure(segments, i), 0, 6) {
            Some(e) => Err(e),
            None => Ok(Self::assemble(segments)),
        }
    }

    /// Where inside field `i` the failure of that field arose, if the field is
    /// itself a record.
    pub open spec fn failing_below(segments: Seq<Seq<char>>, i: int) -> Seq<usize> {
        if i >= segments.len() {
            Seq::empty()
        } else if i == 5 {
            YouAppearance::failing_path(segments[i])
        } else {
            Seq::empty()
        }
    }

    /// Where decoding `text` fails: the position of the first field that fails
    /// and, where that field is itself a record, the place of the failure
    /// inside it; nothing where `text` decodes.
    #[verifier::opaque]
    pub open spec fn failing_path(text: Seq<char>) -> Seq<usize> {
        let segments = split(text, ';');
        match first_failing(|i: int| Self::failure(segments, i), 0, 6) {
            Some(i) => seq![i as usize] + Self::failing_below(segments, i),
            None => Seq::empty(),
        }
    }

    /// Decodes the record from its 6 fields, parted by `;`. The fields are read
    /// in order, and the first that fails ends the decoding with its error and
    /// its place; a field for which no segment is left fails for want of data.
    /// Segments beyond the last field are not read.
    pub fn decode_located(text: &str) -> (r: Result<RunDetails, Failure>)
        ensures
            match Self::decode_spec(text@) {
                Ok(v) => r matches Ok(x) && x@ == v,
                Err(e) => r matches Err(f) && f.error == e && f.path@ == Self::failing_path(
                    text@,
                ),
            },
    {
        proof {
            reveal(RunDetails::decode_spec);
            reveal(RunDetails::failing_path);
        }
        let parts = split_text(text, ';');
        let ghost segments = texts(parts@);
        let ghost failure = |i: int| Self::failure(segments, i);
        proof {
            lemma_next_field(failure, 6, 0);
        }
        let ascension_start = at(0, Timestamp::decode(at(0, segment(&parts, 0))?))?;
        proof {
            lemma_next_field(failure, 6, 1);
        }
        let legacy_start = at(1, Timestamp::decode(at(1, segment(&parts, 1))?))?;
        proof {
            lemma_next_field(failure, 6, 2);
        }
        let last_opened = at(2, Timestamp::decode(at(2, segment(&parts, 2))?))?;
        proof {
            lemma_next_field(failure, 6, 3);
        }
        let bakery_name = at(3, decode_string(at(3, segment(&parts, 3))?))?;
        proof {
            lemma_next_field(failure, 6, 4);
        }
        let seed = at(4, decode_string(at(4, segment(&parts, 4))?))?;
        proof {
            lemma_next_field(failure, 6, 5);
        }
        let you_appearance = under(5, YouAppearance::decode_located(at(5, segment(&parts, 5))?))?;
        proof {
            lemma_no_failure(failure, 6);
        }
        Ok(
            RunDetails {
                ascension_start,
                legacy_start,
                last_opened,
                bakery_name,
                seed,
                you_appearance,
            },
        )
    }

    /// Decodes the record as `decode_located` does, without the place of a
    /// failure.
    pub fn decode(text: &str) -> (r: Result<RunDetails, Error>)
        ensures
            match Self::decode_spec(text@) {
                Ok(v) => r matches Ok(x) && x@ == v,
                Err(e) => r matches Err(f) && f == e,
            },
    {
        unplaced(Self::decode_located(text))
    }

    /// Encodes the record: the texts of its fields in order, parted by `;`.
    pub fn encode(&self) -> (text: String)
        ensures
            text@ == self@.encode_spec(),
    {
        let mut parts: Vec<String> = Vec::new();
        parts.push(self.ascension_start.encode());
        parts.push(self.legacy_start.encode());
        parts.push(self.last_opened.encode());
        parts.push(encode_string(&self.bakery_name));
        parts.push(encode_string(&self.seed));
        parts.push(self.you_appearance.encode());
        proof {
            reveal(RunDetailsView::encode_spec);
            assert(texts(parts@) =~= self@.segments());
        }
        join_text(&parts, ';')
    }

    /// Whether `text` decodes to a record whose text it is: the check that a
    /// text is in the form in which the record is written.
    pub fn check_inverse(text: &str) -> (r: Result<bool, Error>)
        ensures
            match Self::decode_spec(text@) {
                Ok(v) => r == Ok::<bool, Error>(v.encode_spec() == text@),
                Err(e) => r == Err::<bool, Error>(e),
            },
    {
        let value = Self::decode(text)?;
        Ok(same_text(value.encode().as_str(), text))
    }

    /// The name of the field at position `i`, the first being at 0.
    pub fn field_name(i: usize) -> (name: Option<&'static str>)
        ensures
            name is Some <==> i < 6,
            i == 0 ==> name == Some("ascension_start"),
            i == 1 ==> name == Some("legacy_start"),
            i == 2 ==> name == Some("last_opened"),
            i == 3 ==> name == Some("bakery_name"),
            i == 4 ==> name == Some("seed"),
            i == 5 ==> name == Some("you_appearance"),
    {
        if i == 0 {
            Some("ascension_start")
        } else if i == 1 {
            Some("legacy_start")
        } else if i == 2 {
            Some("last_opened")
        } else if i == 3 {
            Some("bakery_name")
        } else if i == 4 {
            Some("seed")
        } else if i == 5 {
            Some("you_appearance")
        } else {
            None
        }
    }

    /// A text that decodes, cut off at the end of one of its fields before the
    /// last, fails for want of data.
    pub proof fn lemma_truncated(text: Seq<char>, k: int)
        requires
            Self::decode_spec(text) is Ok,
            1 <= k < 6,
        ensures
            Self::decode_spec(join(split(text, ';').take(k), ';')) == Err::<RunDetailsView, Error>(
                Error::InsufficientData,
            ),
    {
        reveal(RunDetails::decode_spec);
        let segments = split(text, ';');
        let failure = |i: int| Self::failure(segments, i);
        lemma_all_succeed(failure, 0, 6);
        assert(failure(5) is None);
        lemma_split_truncated(text, ';', k);
        let kept = segments.take(k);
        let cut = |i: int| Self::failure(kept, i);
        assert forall|j: int| 0 <= j < k implies (#[trigger] cut(j)) is None by {
            assert(failure(j) is None);
            assert(kept[j] == segments[j]);
        }
        lemma_next_field(cut, 6, k);
    }
}
} // verus!
