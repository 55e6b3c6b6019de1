//! The buildings of the bakery.

use crate::error::{Error, Failure};
use crate::garden::{
    decode_optional_garden_located, decode_optional_garden_spec, encode_optional_garden,
    encode_optional_garden_spec, Garden, GardenView, lemma_optional_garden_round_trip,
    optional_garden, optional_garden_failing_path,
};
use crate::number::{
    decode_f64, decode_f64_spec, encode_f64, encode_f64_spec, lemma_number_plain,
    lemma_number_round_trip, Number, NumberView,
};
use crate::primitive::{
    decimal_digits, decode_bool, decode_bool_spec, decode_u64, decode_u64_spec, decode_usize,
    decode_usize_spec, encode_bool, encode_bool_spec, encode_u64, encode_usize,
    lemma_bool_round_trip, lemma_u64_round_trip, lemma_usize_round_trip, Reserved,
};
use crate::record::{
    at, field_failure, first_failing, first_failure, lemma_all_succeed, lemma_next_field,
    lemma_no_failure, segment, under, unplaced,
};
use crate::sentinel::{
    decode_optional_reserved, decode_optional_reserved_spec, encode_optional_reserved,
    encode_optional_reserved_spec, lemma_optional_reserved_round_trip,
};
use crate::text::{
    free_of, join, join_text, lemma_join_free_of, lemma_plain_free_of, lemma_split_join,
    lemma_split_truncated, same_text, split, split_text, texts,
};
use vstd::prelude::*;

verus! {

/// The state of the buildings of one kind: how many are owned and were
/// bought, what they produced, their level, the state of their minigame,
/// whether they are muted, and the most that were ever owned.
///
/// The payload `M` is the minigame. Of a building whose minigame this
/// library does not decode, the payload is [`Reserved`]: decoding tells
/// whether there is one, without reading it, and encoding writes none.
#[derive(Clone, Debug, PartialEq, Eq)]
pub struct BuildingDataEntry<M = Reserved> {
    pub amount_owned: u64,
    pub amount_bought: u64,
    pub cookies_produced: Number,
    pub level: usize,
    pub minigame_data: Option<M>,
    pub muted: bool,
    pub highest_amount: u64,
}

/// The mathematical content of a [`BuildingDataEntry`], with the content
/// of its minigame as the payload.
pub struct BuildingDataEntryView<M> {
    pub amount_owned: u64,
    pub amount_bought: u64,
    pub cookies_produced: NumberView,
    pub level: usize,
    pub minigame_data: Option<M>,
    pub muted: bool,
    pub highest_amount: u64,
}

impl View for BuildingDataEntry<Reserved> {
    type V = BuildingDataEntryView<Reserved>;

    open spec fn view(&self) -> BuildingDataEntryView<Reserved> {
        BuildingDataEntryView {
            amount_owned: self.amount_owned,
            amount_bought: self.amount_bought,
            cookies_produced: self.cookies_produced@,
            level: self.level,
            minigame_data: self.minigame_data,
            muted: self.muted,
            highest_amount: self.highest_amount,
        }
    }
}

impl View for BuildingDataEntry<Garden> {
    type V = BuildingDataEntryView<GardenView>;

    open spec fn view(&self) -> BuildingDataEntryView<GardenView> {
        BuildingDataEntryView {
            amount_owned: self.amount_owned,
            amount_bought: self.amount_bought,
            cookies_produced: self.cookies_produced@,
            level: self.level,
            minigame_data: optional_garden(self.minigame_data),
            muted: self.muted,
            highest_amount: self.highest_amount,
        }
    }
}

impl BuildingDataEntryView<Reserved> {
    /// Whether the record is one that decoding can yield, so that its text
    /// decodes to it again.
    pub open spec fn canonical(self) -> bool {
        &&& self.cookies_produced.canonical()
        &&& self.minigame_data is None
    }

    /// The texts of the fields, in order.
    pub open spec fn segments(self) -> Seq<Seq<char>> {
        seq![
            decimal_digits(self.amount_owned as nat),
            decimal_digits(self.amount_bought as nat),
            encode_f64_spec(self.cookies_produced),
            decimal_digits(self.level as nat),
            encode_optional_reserved_spec(self.minigame_data),
            encode_bool_spec(self.muted),
            decimal_digits(self.highest_amount as nat),
        ]
    }

    /// The text of the record: the texts of its fields, parted by `,`.
    pub open spec fn encode_spec(self) -> Seq<char> {
        join(self.segments(), ',')
    }

    /// The text of each field holds neither the delimiter of the record nor
    /// those of the records around it, and decodes to the field.
    proof fn lemma_fields(self)
        requires
            self.canonical(),
        ensures
            forall|i: int| 0 <= i < 7 ==> free_of(#[trigger] self.segments()[i], ','),
            forall|i: int| 0 <= i < 7 ==> free_of(#[trigger] self.segments()[i], ';'),
            forall|i: int| 0 <= i < 7 ==> free_of(#[trigger] self.segments()[i], '|'),
            forall|i: int| 0 <= i < 7
                ==> (#[trigger] BuildingDataEntry::<Reserved>::failure(self.segments(), i)) is None,
            BuildingDataEntry::<Reserved>::assemble(self.segments()).amount_owned
                == self.amount_owned,
            BuildingDataEntry::<Reserved>::assemble(self.segments()).amount_bought
                == self.amount_bought,
            BuildingDataEntry::<Reserved>::assemble(self.segments()).cookies_produced
                == self.cookies_produced,
            BuildingDataEntry::<Reserved>::assemble(self.segments()).level == self.level,
            BuildingDataEntry::<Reserved>::assemble(self.segments()).minigame_data
                == self.minigame_data,
            BuildingDataEntry::<Reserved>::assemble(self.segments()).muted == self.muted,
            BuildingDataEntry::<Reserved>::assemble(self.segments()).highest_amount
                == self.highest_amount,
    {
        lemma_u64_round_trip(self.amount_owned);
        lemma_u64_round_trip(self.amount_bought);
        lemma_number_round_trip(self.cookies_produced);
        lemma_number_plain(self.cookies_produced);
        lemma_usize_round_trip(self.level);
        lemma_optional_reserved_round_trip(self.minigame_data);
        lemma_bool_round_trip(self.muted);
        lemma_u64_round_trip(self.highest_amount);
        let segments = self.segments();
        lemma_plain_free_of(segments[0], ',');
        lemma_plain_free_of(segments[0], ';');
        lemma_plain_free_of(segments[0], '|');
        lemma_plain_free_of(segments[1], ',');
        lemma_plain_free_of(segments[1], ';');
        lemma_plain_free_of(segments[1], '|');
        lemma_plain_free_of(segments[2], ',');
        lemma_plain_free_of(segments[2], ';');
        lemma_plain_free_of(segments[2], '|');
        lemma_plain_free_of(segments[3], ',');
        lemma_plain_free_of(segments[3], ';');
        lemma_plain_free_of(segments[3], '|');
        lemma_plain_free_of(segments[4], ',');
        lemma_plain_free_of(segments[4], ';');
        lemma_plain_free_of(segments[4], '|');
        lemma_plain_free_of(segments[5], ',');
        lemma_plain_free_of(segments[5], ';');
        lemma_plain_free_of(segments[5], '|');
        lemma_plain_free_of(segments[6], ',');
        lemma_plain_free_of(segments[6], ';');
        lemma_plain_free_of(segments[6], '|');
        assert forall|i: int| 0 <= i < 7
            implies BuildingDataEntry::<Reserved>::failure(segments, i) is None by {
            assert(i == 0 || i == 1 || i == 2 || i == 3 || i == 4 || i == 5 || i == 6);
        }
    }

    /// Decoding the text of a record that is canonical gives the record, and
    /// the text holds none of the delimiters of the records around it.
    pub proof fn lemma_round_trip(self)
        requires
            self.canonical(),
        ensures
            BuildingDataEntry::<Reserved>::decode_spec(self.encode_spec())
                == Ok::<BuildingDataEntryView<Reserved>, Error>(self),
            free_of(self.encode_spec(), ';'),
            free_of(self.encode_spec(), '|'),
    {
        self.lemma_fields();
        let segments = self.segments();
        lemma_split_join(segments, ',');
        lemma_no_failure(|i: int| BuildingDataEntry::<Reserved>::failure(segments, i), 7);
        lemma_join_free_of(segments, ',', ';');
        lemma_join_free_of(segments, ',', '|');
    }

    /// The text of a record that is canonical is one that encoding what it
    /// decodes to gives back.
    pub proof fn lemma_text_round_trip(self)
        requires
            self.canonical(),
        ensures
            BuildingDataEntry::<Reserved>::decode_spec(self.encode_spec()) matches Ok(v)
                && v.encode_spec()
                == self.encode_spec(),
    {
        self.lemma_round_trip();
    }
}

impl BuildingDataEntry<Reserved> {
    /// How field `i` fails on the given segments, if it does.
    pub open spec fn failure(segments: Seq<Seq<char>>, i: int) -> Option<Error> {
        if i == 0 || i == 1 || i == 6 {
            field_failure(segments, i, decode_u64_spec(segments[i]))
        } else if i == 2 {
            field_failure(segments, i, decode_f64_spec(segments[i]))
        } else if i == 3 {
            field_failure(segments, i, decode_usize_spec(segments[i]))
        } else if i == 4 {
            field_failure(segments, i, decode_optional_reserved_spec(segments[i]))
        } else {
            field_failure(segments, i, decode_bool_spec(segments[i]))
        }
    }

    /// The record that the segments hold, where no field fails.
    pub open spec fn assemble(segments: Seq<Seq<char>>) -> BuildingDataEntryView<Reserved> {
        BuildingDataEntryView {
            amount_owned: decode_u64_spec(segments[0])->Ok_0,
            amount_bought: decode_u64_spec(segments[1])->Ok_0,
            cookies_produced: decode_f64_spec(segments[2])->Ok_0,
            level: decode_usize_spec(segments[3])->Ok_0,
            minigame_data: decode_optional_reserved_spec(segments[4])->Ok_0,
            muted: decode_bool_spec(segments[5])->Ok_0,
            highest_amount: decode_u64_spec(segments[6])->Ok_0,
        }
    }

    /// What decoding `text` gives: the failure of the first field that fails,
    /// or else the record.
    pub open spec fn decode_spec(text: Seq<char>) -> Result<BuildingDataEntryView<Reserved>, Error> {
        let segments = split(text, ',');
        match first_failure(|i: int| Self::failure(segments, i), 0, 7) {
            Some(e) => Err(e),
            None => Ok(Self::assemble(segments)),
        }
    }

    /// Where decoding `text` fails: the position of the first field that fails
    /// and, where that field is itself a record, the place of the failure
    /// inside it; nothing where `text` decodes.
    pub open spec fn failing_path(text: Seq<char>) -> Seq<usize> {
        let segments = split(text, ',');
        match first_failing(|i: int| Self::failure(segments, i), 0, 7) {
            Some(i) => seq![i as usize],
            None => Seq::empty(),
        }
    }

    /// Decodes the record from its 7 fields, parted by `,`. The fields are read
    /// in order, and the first that fails ends the decoding with its error and
    /// its place; a field for which no segment is left fails for want of data.
    /// Segments beyond the last field are not read.
    pub fn decode_located(text: &str) -> (r: Result<BuildingDataEntry<Reserved>, Failure>)
        ensures
            match Self::decode_spec(text@) {
                Ok(v) => r matches Ok(x) && x@ == v,
                Err(e) => r matches Err(f) && f.error == e && f.path@ == Self::failing_path(
                    text@,
                ),
            },
    {
        let parts = split_text(text, ',');
        let ghost segments = texts(parts@);
        let ghost failure = |i: int| Self::failure(segments, i);
        proof {
            lemma_next_field(failure, 7, 0);
        }
        let amount_owned = at(0, decode_u64(at(0, segment(&parts, 0))?))?;
        proof {
            lemma_next_field(failure, 7, 1);
        }
        let amount_bought = at(1, decode_u64(at(1, segment(&parts, 1))?))?;
        proof {
            lemma_next_field(failure, 7, 2);
        }
        let cookies_produced = at(2, decode_f64(at(2, segment(&parts, 2))?))?;
        proof {
            lemma_next_field(failure, 7, 3);
        }
        let level = at(3, decode_usize(at(3, segment(&parts, 3))?))?;
        proof {
            lemma_next_field(failure, 7, 4);
        }
        let minigame_data = at(4, decode_optional_reserved(at(4, segment(&parts, 4))?))?;
        proof {
            lemma_next_field(failure, 7, 5);
        }
        let muted = at(5, decode_bool(at(5, segment(&parts, 5))?))?;
        proof {
            lemma_next_field(failure, 7, 6);
        }
        let highest_amount = at(6, decode_u64(at(6, segment(&parts, 6))?))?;
        proof {
            lemma_no_failure(failure, 7);
        }
        Ok(
            BuildingDataEntry {
                amount_owned,
                amount_bought,
                cookies_produced,
                level,
                minigame_data,
                muted,
                highest_amount,
            },
        )
    }

    /// Decodes the record as `decode_located` does, without the place of a
    /// failure.
    pub fn decode(text: &str) -> (r: Result<BuildingDataEntry<Reserved>, Error>)
        ensures
            match Self::decode_spec(text@) {
                Ok(v) => r matches Ok(x) && x@ == v,
                Err(e) => r matches Err(f) && f == e,
            },
    {
        unplaced(Self::decode_located(text))
    }

    /// Encodes the record: the texts of its fields in order, parted by `,`.
    pub fn encode(&self) -> (text: String)
        ensures
            text@ == self@.encode_spec(),
    {
        let mut parts: Vec<String> = Vec::new();
        parts.push(encode_u64(self.amount_owned));
        parts.push(encode_u64(self.amount_bought));
        parts.push(encode_f64(&self.cookies_produced));
        parts.push(encode_usize(self.level));
        parts.push(encode_optional_reserved(&self.minigame_data));
        parts.push(encode_bool(self.muted));
        parts.push(encode_u64(self.highest_amount));
        proof {
            assert(texts(parts@) =~= self@.segments());
        }
        join_text(&parts, ',')
    }

    /// Whether `text` decodes to a record whose text it is: the check that a
    /// text is in the form in which the record is written.
    pub fn check_inverse(text: &str) -> (r: Result<bool, Error>)
        ensures
            match Self::decode_spec(text@) {
                Ok(v) => r == Ok::<bool, Error>(v.encode_spec() == text@),
                Err(e) => r == Err::<bool, Error>(e),
            },
    {
        let value = Self::decode(text)?;
        Ok(same_text(value.encode().as_str(), text))
    }

    /// The name of the field at position `i`, the first being at 0.
    pub fn field_name(i: usize) -> (name: Option<&'static str>)
        ensures
            name is Some <==> i < 7,
            i == 0 ==> name == Some("amount_owned"),
            i == 1 ==> name == Some("amount_bought"),
            i == 2 ==> name == Some("cookies_produced"),
            i == 3 ==> name == Some("level"),
            i == 4 ==> name == Some("minigame_data"),
            i == 5 ==> name == Some("muted"),
            i == 6 ==> name == Some("highest_amount"),
    {
        if i == 0 {
            Some("amount_owned")
        } else if i == 1 {
            Some("amount_bought")
        } else if i == 2 {
            Some("cookies_produced")
        } else if i == 3 {
            Some("level")
        } else if i == 4 {
            Some("minigame_data")
        } else if i == 5 {
            Some("muted")
        } else if i == 6 {
            Some("highest_amount")
        } else {
            None
        }
    }

    /// A text that decodes, cut off at the end of one of its fields before the
    /// last, fails for want of data.
    pub proof fn lemma_truncated(text: Seq<char>, k: int)
        requires
            Self::decode_spec(text) is Ok,
            1 <= k < 7,
        ensures
            Self::decode_spec(join(split(text, ',').take(k), ','))
                == Err::<BuildingDataEntryView<Reserved>, Error>(
                Error::InsufficientData,
            ),
    {
        let segments = split(text, ',');
        let failure = |i: int| Self::failure(segments, i);
        lemma_all_succeed(failure, 0, 7);
        assert(failure(6) is None);
        lemma_split_truncated(text, ',', k);
        let kept = segments.take(k);
        let cut = |i: int| Self::failure(kept, i);
        assert forall|j: int| 0 <= j < k implies (#[trigger] cut(j)) is None by {
            assert(failure(j) is None);
            assert(kept[j] == segments[j]);
        }
        lemma_next_field(cut, 7, k);
    }
}

impl BuildingDataEntryView<GardenView> {
    /// Whether the record is one that decoding can yield, so that its text
    /// decodes to it again.
    pub open spec fn canonical(self) -> bool {
        &&& self.cookies_produced.canonical()
        &&& (self.minigame_data matches Some(g) ==> g.canonical())
    }

    /// The texts of the fields, in order.
    pub open spec fn segments(self) -> Seq<Seq<char>> {
        seq![
            decimal_digits(self.amount_owned as nat),
            decimal_digits(self.amount_bought as nat),
            encode_f64_spec(self.cookies_produced),
            decimal_digits(self.level as nat),
            encode_optional_garden_spec(self.minigame_data),
            encode_bool_spec(self.muted),
            decimal_digits(self.highest_amount as nat),
        ]
    }

    /// The text of the record: the texts of its fields, parted by `,`.
    pub open spec fn encode_spec(self) -> Seq<char> {
        join(self.segments(), ',')
    }

    /// The text of each field holds neither the delimiter of the record nor
    /// those of the records around it, and decodes to the field.
    proof fn lemma_fields(self)
        requires
            self.canonical(),
        ensures
            forall|i: int| 0 <= i < 7 ==> free_of(#[trigger] self.segments()[i], ','),
            forall|i: int| 0 <= i < 7 ==> free_of(#[trigger] self.segments()[i], ';'),
            forall|i: int| 0 <= i < 7 ==> free_of(#[trigger] self.segments()[i], '|'),
            forall|i: int| 0 <= i < 7
                ==> (#[trigger] BuildingDataEntry::<Garden>::failure(self.segments(), i)) is None,
            BuildingDataEntry::<Garden>::assemble(self.segments()).amount_owned
                == self.amount_owned,
            BuildingDataEntry::<Garden>::assemble(self.segments()).amount_bought
                == self.amount_bought,
            BuildingDataEntry::<Garden>::assemble(self.segments()).cookies_produced
                == self.cookies_produced,
            BuildingDataEntry::<Garden>::assemble(self.segments()).level == self.level,
            BuildingDataEntry::<Garden>::assemble(self.segments()).minigame_data
                == self.minigame_data,
            BuildingDataEntry::<Garden>::assemble(self.segments()).muted == self.muted,
            BuildingDataEntry::<Garden>::assemble(self.segments()).highest_amount
                == self.highest_amount,
    {
        lemma_u64_round_trip(self.amount_owned);
        lemma_u64_round_trip(self.amount_bought);
        lemma_number_round_trip(self.cookies_produced);
        lemma_number_plain(self.cookies_produced);
        lemma_usize_round_trip(self.level);
        lemma_optional_garden_round_trip(self.minigame_data);
        lemma_bool_round_trip(self.muted);
        lemma_u64_round_trip(self.highest_amount);
        let segments = self.segments();
        lemma_plain_free_of(segments[0], ',');
        lemma_plain_free_of(segments[0], ';');
        lemma_plain_free_of(segments[0], '|');
        lemma_plain_free_of(segments[1], ',');
        lemma_plain_free_of(segments[1], ';');
        lemma_plain_free_of(segments[1], '|');
        lemma_plain_free_of(segments[2], ',');
        lemma_plain_free_of(segments[2], ';');
        lemma_plain_free_of(segments[2], '|');
        lemma_plain_free_of(segments[3], ',');
        lemma_plain_free_of(segments[3], ';');
        lemma_plain_free_of(segments[3], '|');
        assert(free_of(segments[4], ','));
        assert(free_of(segments[4], ';'));
        assert(free_of(segments[4], '|'));
        lemma_plain_free_of(segments[5], ',');
        lemma_plain_free_of(segments[5], ';');
        lemma_plain_free_of(segments[5], '|');
        lemma_plain_free_of(segments[6], ',');
        lemma_plain_free_of(segments[6], ';');
        lemma_plain_free_of(segments[6], '|');
        assert forall|i: int| 0 <= i < 7
            implies BuildingDataEntry::<Garden>::failure(segments, i) is None by {
            assert(i == 0 || i == 1 || i == 2 || i == 3 || i == 4 || i == 5 || i == 6);
        }
    }

    /// Decoding the text of a record that is canonical gives the record, and
    /// the text holds none of the delimiters of the records around it.
    pub proof fn lemma_round_trip(self)
        requires
            self.canonical(),
        ensures
            BuildingDataEntry::<Garden>::decode_spec(self.encode_spec())
                == Ok::<BuildingDataEntryView<GardenView>, Error>(self),
            free_of(self.encode_spec(), ';'),
            free_of(self.encode_spec(), '|'),
    {
        self.lemma_fields();
        let segments = self.segments();
        lemma_split_join(segments, ',');
        lemma_no_failure(|i: int| BuildingDataEntry::<Garden>::failure(segments, i), 7);
        lemma_join_free_of(segments, ',', ';');
        lemma_join_free_of(segments, ',', '|');
    }

    /// The text of a record that is canonical is one that encoding what it
    /// decodes to gives back.
    pub proof fn lemma_text_round_trip(self)
        requires
            self.canonical(),
        ensures
            BuildingDataEntry::<Garden>::decode_spec(self.encode_spec()) matches Ok(v)
                && v.encode_spec()
                == self.encode_spec(),
    {
        self.lemma_round_trip();
    }
}

impl BuildingDataEntry<Garden> {
    /// How field `i` fails on the given segments, if it does.
    pub open spec fn failure(segments: Seq<Seq<char>>, i: int) -> Option<Error> {
        if i == 0 || i == 1 || i == 6 {
            field_failure(segments, i, decode_u64_spec(segments[i]))
        } else if i == 2 {
            field_failure(segments, i, decode_f64_spec(segments[i]))
        } else if i == 3 {
            field_failure(segments, i, decode_usize_spec(segments[i]))
        } else if i == 4 {
            field_failure(segments, i, decode_optional_garden_spec(segments[i]))
        } else {
            field_failure(segments, i, decode_bool_spec(segments[i]))
        }
    }

    /// The record that the segments hold, where no field fails.
    pub open spec fn assemble(segments: Seq<Seq<char>>) -> BuildingDataEntryView<GardenView> {
        BuildingDataEntryView {
            amount_owned: decode_u64_spec(segments[0])->Ok_0,
            amount_bought: decode_u64_spec(segments[1])->Ok_0,
            cookies_produced: decode_f64_spec(segments[2])->Ok_0,
            level: decode_usize_spec(segments[3])->Ok_0,
            minigame_data: decode_optional_garden_spec(segments[4])->Ok_0,
            muted: decode_bool_spec(segments[5])->Ok_0,
            highest_amount: decode_u64_spec(segments[6])->Ok_0,
        }
    }

    /// What decoding `text` gives: the failure of the first field that fails,
    /// or else the record.
    pub open spec fn decode_spec(text: Seq<char>) -> Result<BuildingDataEntryView<GardenView>, Error> {
        let segments = split(text, ',');
        match first_failure(|i: int| Self::failure(segments, i), 0, 7) {
            Some(e) => Err(e),
            None => Ok(Self::assemble(segments)),
        }
    }

    /// Where inside field `i` the failure of that field arose, if the field is
    /// itself a record.
    pub open spec fn failing_below(segments: Seq<Seq<char>>, i: int) -> Seq<usize> {
        if i >= segments.len() {
            Seq::empty()
        } else if i == 4 {
            optional_garden_failing_path(segments[i])
        } else {
            Seq::empty()
        }
    }

    /// Where decoding `text` fails: the position of the first field that fails
    /// and, where that field is itself a record, the place of the failure
    /// inside it; nothing where `text` decodes.
    pub open spec fn failing_path(text: Seq<char>) -> Seq<usize> {
        let segments = split(text, ',');
        match first_failing(|i: int| Self::failure(segments, i), 0, 7) {
            Some(i) => seq![i as usize] + Self::failing_below(segments, i),
            None => Seq::empty(),
        }
    }

    /// Decodes the record from its 7 fields, parted by `,`. The fields are read
    /// in order, and the first that fails ends the decoding with its error and
    /// its place; a field for which no segment is left fails for want of data.
    /// Segments beyond the last field are not read.
    pub fn decode_located(text: &str) -> (r: Result<BuildingDataEntry<Garden>, Failure>)
        ensures
            match Self::decode_spec(text@) {
                Ok(v) => r matches Ok(x) && x@ == v,
                Err(e) => r matches Err(f) && f.error == e && f.path@ == Self::failing_path(
                    text@,
                ),
            },
    {
        let parts = split_text(text, ',');
        let ghost segments = texts(parts@);
        let ghost failure = |i: int| Self::failure(segments, i);
        proof {
            lemma_next_field(failure, 7, 0);
        }
        let amount_owned = at(0, decode_u64(at(0, segment(&parts, 0))?))?;
        proof {
            lemma_next_field(failure, 7, 1);
        }
        let amount_bought = at(1, decode_u64(at(1, segment(&parts, 1))?))?;
        proof {
            lemma_next_field(failure, 7, 2);
        }
        let cookies_produced = at(2, decode_f64(at(2, segment(&parts, 2))?))?;
        proof {
            lemma_next_field(failure, 7, 3);
        }
        let level = at(3, decode_usize(at(3, segment(&parts, 3))?))?;
        proof {
            lemma_next_field(failure, 7, 4);
        }
        let minigame_data = under(4, decode_optional_garden_located(at(4, segment(&parts, 4))?))?;
        proof {
            lemma_next_field(failure, 7, 5);
        }
        let muted = at(5, decode_bool(at(5, segment(&parts, 5))?))?;
        proof {
            lemma_next_field(failure, 7, 6);
        }
        let highest_amount = at(6, decode_u64(at(6, segment(&parts, 6))?))?;
        proof {
            lemma_no_failure(failure, 7);
        }
        Ok(
            BuildingDataEntry {
                amount_owned,
                amount_bought,
                cookies_produced,
                level,
                minigame_data,
                muted,
                highest_amount,
            },
        )
    }

    /// Decodes the record as `decode_located` does, without the place of a
    /// failure.
    pub fn decode(text: &str) -> (r: Result<BuildingDataEntry<Garden>, Error>)
        ensures
            match Self::decode_spec(text@) {
                Ok(v) => r matches Ok(x) && x@ == v,
                Err(e) => r matches Err(f) && f == e,
            },
    {
        unplaced(Self::decode_located(text))
    }

    /// Encodes the record: the texts of its fields in order, parted by `,`.
    pub fn encode(&self) -> (text: String)
        ensures
            text@ == self@.encode_spec(),
    {
        let mut parts: Vec<String> = Vec::new();
        parts.push(encode_u64(self.amount_owned));
        parts.push(encode_u64(self.amount_bought));
        parts.push(encode_f64(&self.cookies_produced));
        parts.push(encode_usize(self.level));
        parts.push(encode_optional_garden(&self.minigame_data));
        parts.push(encode_bool(self.muted));
        parts.push(encode_u64(self.highest_amount));
        proof {
            assert(texts(parts@) =~= self@.segments());
        }
        join_text(&parts, ',')
    }

    /// Whether `text` decodes to a record whose text it is: the check that a
    /// text is in the form in which the record is written.
    pub fn check_inverse(text: &str) -> (r: Result<bool, Error>)
        ensures
            match Self::decode_spec(text@) {
                Ok(v) => r == Ok::<bool, Error>(v.encode_spec() == text@),
                Err(e) => r == Err::<bool, Error>(e),
            },
    {
        let value = Self::decode(text)?;
        Ok(same_text(value.encode().as_str(), text))
    }

    /// The name of the field at position `i`, the first being at 0.
    pub fn field_name(i: usize) -> (name: Option<&'static str>)
        ensures
            name is Some <==> i < 7,
            i == 0 ==> name == Some("amount_owned"),
            i == 1 ==> name == Some("amount_bought"),
            i == 2 ==> name == Some("cookies_produced"),
            i == 3 ==> name == Some("level"),
            i == 4 ==> name == Some("minigame_data"),
            i == 5 ==> name == Some("muted"),
            i == 6 ==> name == Some("highest_amount"),
    {
        if i == 0 {
            Some("amount_owned")
        } else if i == 1 {
            Some("amount_bought")
        } else if i == 2 {
            Some("cookies_produced")
        } else if i == 3 {
            Some("level")
        } else if i == 4 {
            Some("minigame_data")
        } else if i == 5 {
            Some("muted")
        } else if i == 6 {
            Some("highest_amount")
        } else {
            None
        }
    }

    /// A text that decodes, cut off at the end of one of its fields before the
    /// last, fails for want of data.
    pub proof fn lemma_truncated(text: Seq<char>, k: int)
        requires
            Self::decode_spec(text) is Ok,
            1 <= k < 7,
        ensures
            Self::decode_spec(join(split(text, ',').take(k), ','))
                == Err::<BuildingDataEntryView<GardenView>, Error>(
                Error::InsufficientData,
            ),
    {
        let segments = split(text, ',');
        let failure = |i: int| Self::failure(segments, i);
        lemma_all_succeed(failure, 0, 7);
        assert(failure(6) is None);
        lemma_split_truncated(text, ',', k);
        let kept = segments.take(k);
        let cut = |i: int| Self::failure(kept, i);
        assert forall|j: int| 0 <= j < k implies (#[trigger] cut(j)) is None by {
            assert(failure(j) is None);
            assert(kept[j] == segments[j]);
        }
        lemma_next_field(cut, 7, k);
    }
}

/// What decoding `s` as the entry of a building whose minigame is not decoded gives.
#[verifier::opaque]
pub open spec fn decode_entry_spec(s: Seq<char>) -> Result<
    BuildingDataEntryView<Reserved>,
    Error,
> {
    BuildingDataEntry::<Reserved>::decode_spec(s)
}

/// The text of the entry of a building whose minigame is not decoded.
#[verifier::opaque]
pub open spec fn encode_entry_spec(entry: BuildingDataEntryView<Reserved>) -> Seq<char> {
    entry.encode_spec()
}

/// Where decoding `s` as the entry of a building whose minigame is not decoded fails.
#[verifier::opaque]
pub open spec fn entry_failing_path(s: Seq<char>) -> Seq<usize> {
    BuildingDataEntry::<Reserved>::failing_path(s)
}

/// Decodes the entry of a building whose minigame is not decoded, with the place of a failure.
pub fn decode_entry_located(text: &str) -> (r: Result<BuildingDataEntry<Reserved>, Failure>)
    ensures
        match decode_entry_spec(text@) {
            Ok(v) => r matches Ok(x) && x@ == v,
            Err(e) => r matches Err(f) && f.error == e && f.path@ == entry_failing_path(text@),
        },
{
    proof {
        reveal(decode_entry_spec);
        reveal(entry_failing_path);
    }
    BuildingDataEntry::<Reserved>::decode_located(text)
}

/// Decodes the entry of a building whose minigame is not decoded.
pub fn decode_entry(text: &str) -> (r: Result<BuildingDataEntry<Reserved>, Error>)
    ensures
        match decode_entry_spec(text@) {
            Ok(v) => r matches Ok(x) && x@ == v,
            Err(e) => r matches Err(f) && f == e,
        },
{
    unplaced(decode_entry_located(text))
}

/// Encodes the entry of a building whose minigame is not decoded.
pub fn encode_entry(entry: &BuildingDataEntry<Reserved>) -> (text: String)
    ensures
        text@ == encode_entry_spec(entry@),
{
    proof {
        reveal(encode_entry_spec);
    }
    entry.encode()
}

/// Decoding the text of such an entry that is canonical gives the entry,
/// and the text holds none of the delimiters of the records around it.
pub proof fn lemma_entry_round_trip(entry: BuildingDataEntryView<Reserved>)
    requires
        entry.canonical(),
    ensures
        decode_entry_spec(encode_entry_spec(entry)) == Ok::<
            BuildingDataEntryView<Reserved>,
            Error,
        >(entry),
        free_of(encode_entry_spec(entry), ';'),
        free_of(encode_entry_spec(entry), '|'),
{
    reveal(decode_entry_spec);
    reveal(encode_entry_spec);
    entry.lemma_round_trip();
}

/// What decoding `s` as the entry of the farms gives.
#[verifier::opaque]
pub open spec fn decode_farm_entry_spec(s: Seq<char>) -> Result<
    BuildingDataEntryView<GardenView>,
    Error,
> {
    BuildingDataEntry::<Garden>::decode_spec(s)
}

/// The text of the entry of the farms.
#[verifier::opaque]
pub open spec fn encode_farm_entry_spec(entry: BuildingDataEntryView<GardenView>) -> Seq<char> {
    entry.encode_spec()
}

/// Where decoding `s` as the entry of the farms fails.
#[verifier::opaque]
pub open spec fn farm_entry_failing_path(s: Seq<char>) -> Seq<usize> {
    BuildingDataEntry::<Garden>::failing_path(s)
}

/// Decodes the entry of the farms, with the place of a failure.
pub fn decode_farm_entry_located(text: &str) -> (r: Result<BuildingDataEntry<Garden>, Failure>)
    ensures
        match decode_farm_entry_spec(text@) {
            Ok(v) => r matches Ok(x) && x@ == v,
            Err(e) => r matches Err(f) && f.error == e && f.path@ == farm_entry_failing_path(text@),
        },
{
    proof {
        reveal(decode_farm_entry_spec);
        reveal(farm_entry_failing_path);
    }
    BuildingDataEntry::<Garden>::decode_located(text)
}

/// Decodes the entry of the farms.
pub fn decode_farm_entry(text: &str) -> (r: Result<BuildingDataEntry<Garden>, Error>)
    ensures
        match decode_farm_entry_spec(text@) {
            Ok(v) => r matches Ok(x) && x@ == v,
            Err(e) => r matches Err(f) && f == e,
        },
{
    unplaced(decode_farm_entry_located(text))
}

/// Encodes the entry of the farms.
pub fn encode_farm_entry(entry: &BuildingDataEntry<Garden>) -> (text: String)
    ensures
        text@ == encode_farm_entry_spec(entry@),
{
    proof {
        reveal(encode_farm_entry_spec);
    }
    entry.encode()
}

/// Decoding the text of such an entry that is canonical gives the entry,
/// and the text holds none of the delimiters of the records around it.
pub proof fn lemma_farm_entry_round_trip(entry: BuildingDataEntryView<GardenView>)
    requires
        entry.canonical(),
    ensures
        decode_farm_entry_spec(encode_farm_entry_spec(entry)) == Ok::<
            BuildingDataEntryView<GardenView>,
            Error,
        >(entry),
        free_of(encode_farm_entry_spec(entry), ';'),
        free_of(encode_farm_entry_spec(entry), '|'),
{
    reveal(decode_farm_entry_spec);
    reveal(encode_farm_entry_spec);
    entry.lemma_round_trip();
}

/// The buildings: one entry for each kind, parted by semicolons. The farms
/// alone carry a minigame that is decoded, the garden.
#[derive(Clone, Debug, PartialEq, Eq)]
pub struct BuildingData {
    pub cursors: BuildingDataEntry,
    pub grandmas: BuildingDataEntry,
    pub farms: BuildingDataEntry<Garden>,
    pub mines: BuildingDataEntry,
    pub factories: BuildingDataEntry,
    pub banks: BuildingDataEntry,
    pub temples: BuildingDataEntry,
    pub wizard_towers: BuildingDataEntry,
    pub shipments: BuildingDataEntry,
    pub alchemy_labs: BuildingDataEntry,
    pub portals: BuildingDataEntry,
    pub time_machines: BuildingDataEntry,
    pub antimatter_condensers: BuildingDataEntry,
    pub prisms: BuildingDataEntry,
    pub chancemakers: BuildingDataEntry,
    pub fractal_engines: BuildingDataEntry,
    pub javascript_consoles: BuildingDataEntry,
    pub idleverses: BuildingDataEntry,
    pub cortex_bakers: BuildingDataEntry,
    pub yous: BuildingDataEntry,
}

/// The mathematical content of [`BuildingData`]: texts in place of strings, and
/// plain values in place of what holds them.
pub struct BuildingDataView {
    pub cursors: BuildingDataEntryView<Reserved>,
    pub grandmas: BuildingDataEntryView<Reserved>,
    pub farms: BuildingDataEntryView<GardenView>,
    pub mines: BuildingDataEntryView<Reserved>,
    pub factories: BuildingDataEntryView<Reserved>,
    pub banks: BuildingDataEntryView<Reserved>,
    pub temples: BuildingDataEntryView<Reserved>,
    pub wizard_towers: BuildingDataEntryView<Reserved>,
    pub shipments: BuildingDataEntryView<Reserved>,
    pub alchemy_labs: BuildingDataEntryView<Reserved>,
    pub portals: BuildingDataEntryView<Reserved>,
    pub time_machines: BuildingDataEntryView<Reserved>,
    pub antimatter_condensers: BuildingDataEntryView<Reserved>,
    pub prisms: BuildingDataEntryView<Reserved>,
    pub chancemakers: BuildingDataEntryView<Reserved>,
    pub fractal_engines: BuildingDataEntryView<Reserved>,
    pub javascript_consoles: BuildingDataEntryView<Reserved>,
    pub idleverses: BuildingDataEntryView<Reserved>,
    pub cortex_bakers: BuildingDataEntryView<Reserved>,
    pub yous: BuildingDataEntryView<Reserved>,
}

impl View for BuildingData {
    type V = BuildingDataView;

    open spec fn view(&self) -> BuildingDataView {
        BuildingDataView {
            cursors: self.cursors@,
            grandmas: self.grandmas@,
            farms: self.farms@,
            mines: self.mines@,
            factories: self.factories@,
            banks: self.banks@,
            temples: self.temples@,
            wizard_towers: self.wizard_towers@,
            shipments: self.shipments@,
            alchemy_labs: self.alchemy_labs@,
            portals: self.portals@,
            time_machines: self.time_machines@,
            antimatter_condensers: self.antimatter_condensers@,
            prisms: self.prisms@,
            chancemakers: self.chancemakers@,
            fractal_engines: self.fractal_engines@,
            javascript_consoles: self.javascript_consoles@,
            idleverses: self.idleverses@,
            cortex_bakers: self.cortex_bakers@,
            yous: self.yous@,
        }
    }
}

impl BuildingDataView {
    /// Whether the record is one that decoding can yield, so that its text
    /// decodes to it again.
    pub open spec fn canonical(self) -> bool {
        &&& self.cursors.canonical()
        &&& self.grandmas.canonical()
        &&& self.farms.canonical()
        &&& self.mines.canonical()
        &&& self.factories.canonical()
        &&& self.banks.canonical()
        &&& self.temples.canonical()
        &&& self.wizard_towers.canonical()
        &&& self.shipments.canonical()
        &&& self.alchemy_labs.canonical()
        &&& self.portals.canonical()
        &&& self.time_machines.canonical()
        &&& self.antimatter_condensers.canonical()
        &&& self.prisms.canonical()
        &&& self.chancemakers.canonical()
        &&& self.fractal_engines.canonical()
        &&& self.javascript_consoles.canonical()
        &&& self.idleverses.canonical()
        &&& self.cortex_bakers.canonical()
        &&& self.yous.canonical()
    }

    /// The texts of the fields, in order.
    pub open spec fn segments(self) -> Seq<Seq<char>> {
        seq![
            encode_entry_spec(self.cursors),
            encode_entry_spec(self.grandmas),
            encode_farm_entry_spec(self.farms),
            encode_entry_spec(self.mines),
            encode_entry_spec(self.factories),
            encode_entry_spec(self.banks),
            encode_entry_spec(self.temples),
            encode_entry_spec(self.wizard_towers),
            encode_entry_spec(self.shipments),
            encode_entry_spec(self.alchemy_labs),
            encode_entry_spec(self.portals),
            encode_entry_spec(self.time_machines),
            encode_entry_spec(self.antimatter_condensers),
            encode_entry_spec(self.prisms),
            encode_entry_spec(self.chancemakers),
            encode_entry_spec(self.fractal_engines),
            encode_entry_spec(self.javascript_consoles),
            encode_entry_spec(self.idleverses),
            encode_entry_spec(self.cortex_bakers),
            encode_entry_spec(self.yous),
        ]
    }

    /// The text of the record: the texts of its fields, parted by `;`.
    #[verifier::opaque]
    pub open spec fn encode_spec(self) -> Seq<char> {
        join(self.segments(), ';')
    }

    /// What `lemma_round_trip` needs of fields 0 to 7: the text of each holds
    /// neither the delimiter of the record nor those of the records around it,
    /// and decodes to the field.
    proof fn lemma_fields_1(self)
        requires
            self.canonical(),
        ensures
            forall|i: int| 0 <= i < 8 ==> free_of(#[trigger] self.segments()[i], ';'),
            forall|i: int| 0 <= i < 8 ==> free_of(#[trigger] self.segments()[i], '|'),
            forall|i: int| 0 <= i < 8
                ==> (#[trigger] BuildingData::failure(self.segments(), i)) is None,
            BuildingData::assemble(self.segments()).cursors == self.cursors,
            BuildingData::assemble(self.segments()).grandmas == self.grandmas,
            BuildingData::assemble(self.segments()).farms == self.farms,
            BuildingData::assemble(self.segments()).mines == self.mines,
            BuildingData::assemble(self.segments()).factories == self.factories,
            BuildingData::assemble(self.segments()).banks == self.banks,
            BuildingData::assemble(self.segments()).temples == self.temples,
            BuildingData::assemble(self.segments()).wizard_towers == self.wizard_towers,
    {
        lemma_entry_round_trip(self.cursors);
        lemma_entry_round_trip(self.grandmas);
        lemma_farm_entry_round_trip(self.farms);
        lemma_entry_round_trip(self.mines);
        lemma_entry_round_trip(self.factories);
        lemma_entry_round_trip(self.banks);
        lemma_entry_round_trip(self.temples);
        lemma_entry_round_trip(self.wizard_towers);
        let segments = self.segments();
        assert(free_of(segments[0], ';'));
        assert(free_of(segments[0], '|'));
        assert(free_of(segments[1], ';'));
        assert(free_of(segments[1], '|'));
        assert(free_of(segments[2], ';'));
        assert(free_of(segments[2], '|'));
        assert(free_of(segments[3], ';'));
        assert(free_of(segments[3], '|'));
        assert(free_of(segments[4], ';'));
        assert(free_of(segments[4], '|'));
        assert(free_of(segments[5], ';'));
        assert(free_of(segments[5], '|'));
        assert(free_of(segments[6], ';'));
        assert(free_of(segments[6], '|'));
        assert(free_of(segments[7], ';'));
        assert(free_of(segments[7], '|'));
        assert forall|i: int| 0 <= i < 8 implies BuildingData::failure(segments, i) is None by {
            assert(i == 0 || i == 1 || i == 2 || i == 3 || i == 4 || i == 5 || i == 6 || i == 7);
        }
    }

    /// What `lemma_round_trip` needs of fields 8 to 15: the text of each holds
    /// neither the delimiter of the record nor those of the records around it,
    /// and decodes to the field.
    proof fn lemma_fields_2(self)
        requires
            self.canonical(),
        ensures
            forall|i: int| 8 <= i < 16 ==> free_of(#[trigger] self.segments()[i], ';'),
            forall|i: int| 8 <= i < 16 ==> free_of(#[trigger] self.segments()[i], '|'),
            forall|i: int| 8 <= i < 16
                ==> (#[trigger] BuildingData::failure(self.segments(), i)) is None,
            BuildingData::assemble(self.segments()).shipments == self.shipments,
            BuildingData::assemble(self.segments()).alchemy_labs == self.alchemy_labs,
            BuildingData::assemble(self.segments()).portals == self.portals,
            BuildingData::assemble(self.segments()).time_machines == self.time_machines,
            BuildingData::assemble(self.segments()).antimatter_condensers
                == self.antimatter_condensers,
            BuildingData::assemble(self.segments()).prisms == self.prisms,
            BuildingData::assemble(self.segments()).chancemakers == self.chancemakers,
            BuildingData::assemble(self.segments()).fractal_engines == self.fractal_engines,
    {
        lemma_entry_round_trip(self.shipments);
        lemma_entry_round_trip(self.alchemy_labs);
        lemma_entry_round_trip(self.portals);
        lemma_entry_round_trip(self.time_machines);
        lemma_entry_round_trip(self.antimatter_condensers);
        lemma_entry_round_trip(self.prisms);
        lemma_entry_round_trip(self.chancemakers);
        lemma_entry_round_trip(self.fractal_engines);
        let segments = self.segments();
        assert(free_of(segments[8], ';'));
        assert(free_of(segments[8], '|'));
        assert(free_of(segments[9], ';'));
        assert(free_of(segments[9], '|'));
        assert(free_of(segments[10], ';'));
        assert(free_of(segments[10], '|'));
        assert(free_of(segments[11], ';'));
        assert(free_of(segments[11], '|'));
        assert(free_of(segments[12], ';'));
        assert(free_of(segments[12], '|'));
        assert(free_of(segments[13], ';'));
        assert(free_of(segments[13], '|'));
        assert(free_of(segments[14], ';'));
        assert(free_of(segments[14], '|'));
        assert(free_of(segments[15], ';'));
        assert(free_of(segments[15], '|'));
        assert forall|i: int| 8 <= i < 16 implies BuildingData::failure(segments, i) is None by {
            assert(i == 8 || i == 9 || i == 10 || i == 11 || i == 12 || i == 13 || i == 14 || i
                == 15);
        }
    }

    /// What `lemma_round_trip` needs of fields 16 to 19: the text of each holds
    /// neither the delimiter of the record nor those of the records around it,
    /// and decodes to the field.
    proof fn lemma_fields_3(self)
        requires
            self.canonical(),
        ensures
            forall|i: int| 16 <= i < 20 ==> free_of(#[trigger] self.segments()[i], ';'),
            forall|i: int| 16 <= i < 20 ==> free_of(#[trigger] self.segments()[i], '|'),
            forall|i: int| 16 <= i < 20
                ==> (#[trigger] BuildingData::failure(self.segments(), i)) is None,
            BuildingData::assemble(self.segments()).javascript_consoles == self.javascript_consoles,
            BuildingData::assemble(self.segments()).idleverses == self.idleverses,
            BuildingData::assemble(self.segments()).cortex_bakers == self.cortex_bakers,
            BuildingData::assemble(self.segments()).yous == self.yous,
    {
        lemma_entry_round_trip(self.javascript_consoles);
        lemma_entry_round_trip(self.idleverses);
        lemma_entry_round_trip(self.cortex_bakers);
        lemma_entry_round_trip(self.yous);
        let segments = self.segments();
        assert(free_of(segments[16], ';'));
        assert(free_of(segments[16], '|'));
        assert(free_of(segments[17], ';'));
        assert(free_of(segments[17], '|'));
        assert(free_of(segments[18], ';'));
        assert(free_of(segments[18], '|'));
        assert(free_of(segments[19], ';'));
        assert(free_of(segments[19], '|'));
        assert forall|i: int| 16 <= i < 20 implies BuildingData::failure(segments, i) is None by {
            assert(i == 16 || i == 17 || i == 18 || i == 19);
        }
    }

    /// Decoding the text of a record that is canonical gives the record, and
    /// the text holds none of the delimiters of the records around it.
    pub proof fn lemma_round_trip(self)
        requires
            self.canonical(),
        ensures
            BuildingData::decode_spec(self.encode_spec()) == Ok::<BuildingDataView, Error>(self),
            free_of(self.encode_spec(), '|'),
    {
        reveal(BuildingData::decode_spec);
        reveal(BuildingDataView::encode_spec);
        self.lemma_fields_1();
        self.lemma_fields_2();
        self.lemma_fields_3();
        let segments = self.segments();
        lemma_split_join(segments, ';');
        lemma_no_failure(|i: int| BuildingData::failure(segments, i), 20);
        lemma_join_free_of(segments, ';', '|');
    }

    /// The text of a record that is canonical is one that encoding what it
    /// decodes to gives back.
    pub proof fn lemma_text_round_trip(self)
        requires
            self.canonical(),
        ensures
            BuildingData::decode_spec(self.encode_spec()) matches Ok(v) && v.encode_spec()
                == self.encode_spec(),
    {
        self.lemma_round_trip();
    }
}

impl BuildingData {
    /// How field `i` fails on the given segments, if it does.
    pub open spec fn failure(segments: Seq<Seq<char>>, i: int) -> Option<Error> {
        if i == 0 || i == 1 || i == 3 || i == 4 || i == 5 || i == 6 || i == 7 || i == 8 || i
            == 9 || i == 10 || i == 11 || i == 12 || i == 13 || i == 14 || i == 15 || i == 16
            || i == 17 || i == 18 || i == 19 {
            field_failure(segments, i, decode_entry_spec(segments[i]))
        } else {
            field_failure(segments, i, decode_farm_entry_spec(segments[i]))
        }
    }

    /// The record that the segments hold, where no field fails.
    pub open spec fn assemble(segments: Seq<Seq<char>>) -> BuildingDataView {
        BuildingDataView {
            cursors: decode_entry_spec(segments[0])->Ok_0,
            grandmas: decode_entry_spec(segments[1])->Ok_0,
            farms: decode_farm_entry_spec(segments[2])->Ok_0,
            mines: decode_entry_spec(segments[3])->Ok_0,
            factories: decode_entry_spec(segments[4])->Ok_0,
            banks: decode_entry_spec(segments[5])->Ok_0,
            temples: decode_entry_spec(segments[6])->Ok_0,
            wizard_towers: decode_entry_spec(segments[7])->Ok_0,
            shipments: decode_entry_spec(segments[8])->Ok_0,
            alchemy_labs: decode_entry_spec(segments[9])->Ok_0,
            portals: decode_entry_spec(segments[10])->Ok_0,
            time_machines: decode_entry_spec(segments[11])->Ok_0,
            antimatter_condensers: decode_entry_spec(segments[12])->Ok_0,
            prisms: decode_entry_spec(segments[13])->Ok_0,
            chancemakers: decode_entry_spec(segments[14])->Ok_0,
            fractal_engines: decode_entry_spec(segments[15])->Ok_0,
            javascript_consoles: decode_entry_spec(segments[16])->Ok_0,
            idleverses: decode_entry_spec(segments[17])->Ok_0,
            cortex_bakers: decode_entry_spec(segments[18])->Ok_0,
            yous: decode_entry_spec(segments[19])->Ok_0,
        }
    }

    /// What decoding `text` gives: the failure of the first field that fails,
    /// or else the record.
    #[verifier::opaque]
    pub open spec fn decode_spec(text: Seq<char>) -> Result<BuildingDataView, Error> {
        let segments = split(text, ';');
        match first_failure(|i: int| Self::failure(segments, i), 0, 20) {
            Some(e) => Err(e),
            None => Ok(Self::assemble(segments)),
        }
    }

    /// Where inside field `i` the failure of that field arose, if the field is
    /// itself a record.
    pub open spec fn failing_below(segments: Seq<Seq<char>>, i: int) -> Seq<usize> {
        if i >= segments.len() {
            Seq::empty()
        } else if i == 0 || i == 1 || i == 3 || i == 4 || i == 5 || i == 6 || i == 7 || i == 8
            || i == 9 || i == 10 || i == 11 || i == 12 || i == 13 || i == 14 || i == 15 || i
            == 16 || i == 17 || i == 18 || i == 19 {
            entry_failing_path(segments[i])
        } else if i == 2 {
            farm_entry_failing_path(segments[i])
        } else {
            Seq::empty()
        }
    }

    /// Where decoding `text` fails: the position of the first field that fails
    /// and, where that field is itself a record, the place of the failure
    /// inside it; nothing where `text` decodes.
    #[verifier::opaque]
    pub open spec fn failing_path(text: Seq<char>) -> Seq<usize> {
        let segments = split(text, ';');
        match first_failing(|i: int| Self::failure(segments, i), 0, 20) {
            Some(i) => seq![i as usize] + Self::failing_below(segments, i),
            None => Seq::empty(),
        }
    }

    /// Decodes the record from its 20 fields, parted by `;`. The fields are
    /// read in order, and the first that fails ends the decoding with its error
    /// and its place; a field for which no segment is left fails for want of
    /// data. Segments beyond the last field are not read.
    pub fn decode_located(text: &str) -> (r: Result<BuildingData, Failure>)
        ensures
            match Self::decode_spec(text@) {
                Ok(v) => r matches Ok(x) && x@ == v,
                Err(e) => r matches Err(f) && f.error == e && f.path@ == Self::failing_path(
                    text@,
                ),
            },
    {
        proof {
            reveal(BuildingData::decode_spec);
            reveal(BuildingData::failing_path);
        }
        let parts = split_text(text, ';');
        let ghost segments = texts(parts@);
        let ghost failure = |i: int| Self::failure(segments, i);
        proof {
            lemma_next_field(failure, 20, 0);
        }
        let cursors = under(0, decode_entry_located(at(0, segment(&parts, 0))?))?;
        proof {
            lemma_next_field(failure, 20, 1);
        }
        let grandmas = under(1, decode_entry_located(at(1, segment(&parts, 1))?))?;
        proof {
            lemma_next_field(failure, 20, 2);
        }
        let farms = under(2, decode_farm_entry_located(at(2, segment(&parts, 2))?))?;
        proof {
            lemma_next_field(failure, 20, 3);
        }
        let mines = under(3, decode_entry_located(at(3, segment(&parts, 3))?))?;
        proof {
            lemma_next_field(failure, 20, 4);
        }
        let factories = under(4, decode_entry_located(at(4, segment(&parts, 4))?))?;
        proof {
            lemma_next_field(failure, 20, 5);
        }
        let banks = under(5, decode_entry_located(at(5, segment(&parts, 5))?))?;
        proof {
            lemma_next_field(failure, 20, 6);
        }
        let temples = under(6, decode_entry_located(at(6, segment(&parts, 6))?))?;
        proof {
            lemma_next_field(failure, 20, 7);
        }
        let wizard_towers = under(7, decode_entry_located(at(7, segment(&parts, 7))?))?;
        proof {
            lemma_next_field(failure, 20, 8);
        }
        let shipments = under(8, decode_entry_located(at(8, segment(&parts, 8))?))?;
        proof {
            lemma_next_field(failure, 20, 9);
        }
        let alchemy_labs = under(9, decode_entry_located(at(9, segment(&parts, 9))?))?;
        proof {
            lemma_next_field(failure, 20, 10);
        }
        let portals = under(10, decode_entry_located(at(10, segment(&parts, 10))?))?;
        proof {
            lemma_next_field(failure, 20, 11);
        }
        let time_machines = under(11, decode_entry_located(at(11, segment(&parts, 11))?))?;
        proof {
            lemma_next_field(failure, 20, 12);
        }
        let antimatter_condensers = under(12, decode_entry_located(at(12, segment(&parts, 12))?))?;
        proof {
            lemma_next_field(failure, 20, 13);
        }
        let prisms = under(13, decode_entry_located(at(13, segment(&parts, 13))?))?;
        proof {
            lemma_next_field(failure, 20, 14);
        }
        let chancemakers = under(14, decode_entry_located(at(14, segment(&parts, 14))?))?;
        proof {
            lemma_next_field(failure, 20, 15);
        }
        let fractal_engines = under(15, decode_entry_located(at(15, segment(&parts, 15))?))?;
        proof {
            lemma_next_field(failure, 20, 16);
        }
        let javascript_consoles = under(16, decode_entry_located(at(16, segment(&parts, 16))?))?;
        proof {
            lemma_next_field(failure, 20, 17);
        }
        let idleverses = under(17, decode_entry_located(at(17, segment(&parts, 17))?))?;
        proof {
            lemma_next_field(failure, 20, 18);
        }
        let cortex_bakers = under(18, decode_entry_located(at(18, segment(&parts, 18))?))?;
        proof {
            lemma_next_field(failure, 20, 19);
        }
        let yous = under(19, decode_entry_located(at(19, segment(&parts, 19))?))?;
        proof {
            lemma_no_failure(failure, 20);
        }
        Ok(
            BuildingData {
                cursors,
                grandmas,
                farms,
                mines,
                factories,
                banks,
                temples,
                wizard_towers,
                shipments,
                alchemy_labs,
                portals,
                time_machines,
                antimatter_condensers,
                prisms,
                chancemakers,
                fractal_engines,
                javascript_consoles,
                idleverses,
                cortex_bakers,
                yous,
            },
        )
    }

    /// Decodes the record as `decode_located` does, without the place of a
    /// failure.
    pub fn decode(text: &str) -> (r: Result<BuildingData, Error>)
        ensures
            match Self::decode_spec(text@) {
                Ok(v) => r matches Ok(x) && x@ == v,
                Err(e) => r matches Err(f) && f == e,
            },
    {
        unplaced(Self::decode_located(text))
    }

    /// Encodes the record: the texts of its fields in order, parted by `;`.
    pub fn encode(&self) -> (text: String)
        ensures
            text@ == self@.encode_spec(),
    {
        let mut parts: Vec<String> = Vec::new();
        parts.push(encode_entry(&self.cursors));
        parts.push(encode_entry(&self.grandmas));
        parts.push(encode_farm_entry(&self.farms));
        parts.push(encode_entry(&self.mines));
        parts.push(encode_entry(&self.factories));
        parts.push(encode_entry(&self.banks));
        parts.push(encode_entry(&self.temples));
        parts.push(encode_entry(&self.wizard_towers));
        parts.push(encode_entry(&self.shipments));
        parts.push(encode_entry(&self.alchemy_labs));
        parts.push(encode_entry(&self.portals));
        parts.push(encode_entry(&self.time_machines));
        parts.push(encode_entry(&self.antimatter_condensers));
        parts.push(encode_entry(&self.prisms));
        parts.push(encode_entry(&self.chancemakers));
        parts.push(encode_entry(&self.fractal_engines));
        parts.push(encode_entry(&self.javascript_consoles));
        parts.push(encode_entry(&self.idleverses));
        parts.push(encode_entry(&self.cortex_bakers));
        parts.push(encode_entry(&self.yous));
        proof {
            reveal(BuildingDataView::encode_spec);
            assert(texts(parts@) =~= self@.segments());
        }
        join_text(&parts, ';')
    }

    /// Whether `text` decodes to a record whose text it is: the check that a
    /// text is in the form in which the record is written.
    pub fn check_inverse(text: &str) -> (r: Result<bool, Error>)
        ensures
            match Self::decode_spec(text@) {
                Ok(v) => r == Ok::<bool, Error>(v.encode_spec() == text@),
                Err(e) => r == Err::<bool, Error>(e),
            },
    {
        let value = Self::decode(text)?;
        Ok(same_text(value.encode().as_str(), text))
    }

    /// The name of the field at position `i`, the first being at 0.
    pub fn field_name(i: usize) -> (name: Option<&'static str>)
        ensures
            name is Some <==> i < 20,
            i == 0 ==> name == Some("cursors"),
            i == 1 ==> name == Some("grandmas"),
            i == 2 ==> name == Some("farms"),
            i == 3 ==> name == Some("mines"),
            i == 4 ==> name == Some("factories"),
            i == 5 ==> name == Some("banks"),
            i == 6 ==> name == Some("temples"),
            i == 7 ==> name == Some("wizard_towers"),
            i == 8 ==> name == Some("shipments"),
            i == 9 ==> name == Some("alchemy_labs"),
            i == 10 ==> name == Some("portals"),
            i == 11 ==> name == Some("time_machines"),
            i == 12 ==> name == Some("antimatter_condensers"),
            i == 13 ==> name == Some("prisms"),
            i == 14 ==> name == Some("chancemakers"),
            i == 15 ==> name == Some("fractal_engines"),
            i == 16 ==> name == Some("javascript_consoles"),
            i == 17 ==> name == Some("idleverses"),
            i == 18 ==> name == Some("cortex_bakers"),
            i == 19 ==> name == Some("yous"),
    {
        if i == 0 {
            Some("cursors")
        } else if i == 1 {
            Some("grandmas")
        } else if i == 2 {
            Some("farms")
        } else if i == 3 {
            Some("mines")
        } else if i == 4 {
            Some("factories")
        } else if i == 5 {
            Some("banks")
        } else if i == 6 {
            Some("temples")
        } else if i == 7 {
            Some("wizard_towers")
        } else if i == 8 {
            Some("shipments")
        } else if i == 9 {
            Some("alchemy_labs")
        } else if i == 10 {
            Some("portals")
        } else if i == 11 {
            Some("time_machines")
        } else if i == 12 {
            Some("antimatter_condensers")
        } else if i == 13 {
            Some("prisms")
        } else if i == 14 {
            Some("chancemakers")
        } else if i == 15 {
            Some("fractal_engines")
        } else if i == 16 {
            Some("javascript_consoles")
        } else if i == 17 {
            Some("idleverses")
        } else if i == 18 {
            Some("cortex_bakers")
        } else if i == 19 {
            Some("yous")
        } else {
            None
        }
    }

    /// A text that decodes, cut off at the end of one of its fields before the
    /// last, fails for want of data.
    pub proof fn lemma_truncated(text: Seq<char>, k: int)
        requires
            Self::decode_spec(text) is Ok,
            1 <= k < 20,
        ensures
            Self::decode_spec(join(split(text, ';').take(k), ';'))
                == Err::<BuildingDataView, Error>(
                Error::InsufficientData,
            ),
    {
        reveal(BuildingData::decode_spec);
        let segments = split(text, ';');
        let failure = |i: int| Self::failure(segments, i);
        lemma_all_succeed(failure, 0, 20);
        assert(failure(19) is None);
        lemma_split_truncated(text, ';', k);
        let kept = segments.take(k);
        let cut = |i: int| Self::failure(kept, i);
        assert forall|j: int| 0 <= j < k implies (#[trigger] cut(j)) is None by {
            assert(failure(j) is None);
            assert(kept[j] == segments[j]);
        }
        lemma_next_field(cut, 20, k);
    }
}
} // verus!
