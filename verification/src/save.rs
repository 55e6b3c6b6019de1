//! The save as a whole.

use crate::building::{BuildingData, BuildingDataView};
use crate::error::{Error, Failure};
use crate::game_version::{GameVersion, GameVersionView};
use crate::miscellaneous::{MiscellaneousGameData, MiscellaneousGameDataView};
use crate::preferences::Preferences;
use crate::primitive::{decode_unit, decode_unit_spec, encode_unit, encode_unit_spec, Reserved};
use crate::record::{
    at, field_failure, first_failing, first_failure, lemma_all_succeed, lemma_next_field,
    lemma_no_failure, segment, under, unplaced,
};
use crate::run_details::{RunDetails, RunDetailsView};
use crate::text::{
    free_of, join, join_text, lemma_plain_free_of, lemma_split_join, lemma_split_truncated,
    same_text, split, split_text, texts,
};
use crate::upgrades::{
    decode_upgrades, decode_upgrades_spec, encode_upgrades, encode_upgrades_spec,
    lemma_upgrades_round_trip, Upgrade,
};
use vstd::prelude::*;

verus! {

/// A save of the game: what is under the armour, field by field.
#[derive(Clone, Debug, PartialEq, Eq)]
pub struct Save {
    pub game_version: GameVersion,
    /// A reserved place: not read when decoding, empty when encoding.
    pub empty: Reserved,
    pub run_details: RunDetails,
    pub preferences: Preferences,
    pub miscellaneous_game_data: MiscellaneousGameData,
    pub building_data: BuildingData,
    pub upgrades: Vec<Upgrade>,
}

/// The mathematical content of [`Save`]: texts in place of strings, and plain
/// values in place of what holds them.
pub struct SaveView {
    pub game_version: GameVersionView,
    pub empty: Reserved,
    pub run_details: RunDetailsView,
    pub preferences: Preferences,
    pub miscellaneous_game_data: MiscellaneousGameDataView,
    pub building_data: BuildingDataView,
    pub upgrades: Seq<Upgrade>,
}

impl View for Save {
    type V = SaveView;

    open spec fn view(&self) -> SaveView {
        SaveView {
            game_version: self.game_version@,
            empty: self.empty,
            run_details: self.run_details@,
            preferences: self.preferences,
            miscellaneous_game_data: self.miscellaneous_game_data@,
            building_data: self.building_data@,
            upgrades: self.upgrades@,
        }
    }
}

impl SaveView {
    /// Whether the record is one that decoding can yield, so that its text
    /// decodes to it again.
    pub open spec fn canonical(self) -> bool {
        &&& self.game_version.canonical()
        &&& self.run_details.canonical()
        &&& self.miscellaneous_game_data.canonical()
        &&& self.building_data.canonical()
    }

    /// The texts of the fields, in order.
    pub open spec fn segments(self) -> Seq<Seq<char>> {
        seq![
            self.game_version.encode_spec(),
            encode_unit_spec(),
            self.run_details.encode_spec(),
            self.preferences.encode_spec(),
            self.miscellaneous_game_data.encode_spec(),
            self.building_data.encode_spec(),
            encode_upgrades_spec(self.upgrades),
        ]
    }

    /// The text of the record: the texts of its fields, parted by `|`.
    #[verifier::opaque]
    pub open spec fn encode_spec(self) -> Seq<char> {
        join(self.segments(), '|')
    }

    /// The text of each field holds neither the delimiter of the record nor
    /// those of the records around it, and decodes to the field.
    proof fn lemma_fields(self)
        requires
            self.canonical(),
        ensures
            forall|i: int| 0 <= i < 7 ==> free_of(#[trigger] self.segments()[i], '|'),
            forall|i: int| 0 <= i < 7 ==> (#[trigger] Save::failure(self.segments(), i)) is None,
            Save::assemble(self.segments()).game_version == self.game_version,
            Save::assemble(self.segments()).empty == self.empty,
            Save::assemble(self.segments()).run_details == self.run_details,
            Save::assemble(self.segments()).preferences == self.preferences,
            Save::assemble(self.segments()).miscellaneous_game_data == self.miscellaneous_game_data,
            Save::assemble(self.segments()).building_data == self.building_data,
            Save::assemble(self.segments()).upgrades == self.upgrades,
    {
        self.game_version.lemma_round_trip();
        self.run_details.lemma_round_trip();
        self.preferences.lemma_round_trip();
        self.miscellaneous_game_data.lemma_round_trip();
        self.building_data.lemma_round_trip();
        lemma_upgrades_round_trip(self.upgrades);
        let segments = self.segments();
        assert(free_of(segments[0], '|'));
        lemma_plain_free_of(segments[1], '|');
        assert(free_of(segments[2], '|'));
        lemma_plain_free_of(segments[3], '|');
        assert(free_of(segments[4], '|'));
        assert(free_of(segments[5], '|'));
        lemma_plain_free_of(segments[6], '|');
        assert forall|i: int| 0 <= i < 7 implies Save::failure(segments, i) is None by {
            assert(i == 0 || i == 1 || i == 2 || i == 3 || i == 4 || i == 5 || i == 6);
        }
    }

    /// Decoding the text of a record that is canonical gives the record, and
    /// the text holds none of the delimiters of the records around it.
    pub proof fn lemma_round_trip(self)
        requires
            self.canonical(),
        ensures
            Save::decode_spec(self.encode_spec()) == Ok::<SaveView, Error>(self),
    {
        reveal(Save::decode_spec);
        reveal(SaveView::encode_spec);
        self.lemma_fields();
        let segments = self.segments();
        lemma_split_join(segments, '|');
        lemma_no_failure(|i: int| Save::failure(segments, i), 7);
    }

    /// The text of a record that is canonical is one that encoding what it
    /// decodes to gives back.
    pub proof fn lemma_text_round_trip(self)
        requires
            self.canonical(),
        ensures
            Save::decode_spec(self.encode_spec()) matches Ok(v) && v.encode_spec()
                == self.encode_spec(),
    {
        self.lemma_round_trip();
    }
}

impl Save {
    /// How field `i` fails on the given segments, if it does.
    pub open spec fn failure(segments: Seq<Seq<char>>, i: int) -> Option<Error> {
        if i == 0 {
            field_failure(segments, i, GameVersion::decode_spec(segments[i]))
        } else if i == 1 {
            field_failure(segments, i, decode_unit_spec(segments[i]))
        } else if i == 2 {
            field_failure(segments, i, RunDetails::decode_spec(segments[i]))
        } else if i == 3 {
            field_failure(segments, i, Preferences::decode_spec(segments[i]))
        } else if i == 4 {
            field_failure(segments, i, MiscellaneousGameData::decode_spec(segments[i]))
        } else if i == 5 {
            field_failure(segments, i, BuildingData::decode_spec(segments[i]))
        } else {
            field_failure(segments, i, decode_upgrades_spec(segments[i]))
        }
    }

    /// The record that the segments hold, where no field fails.
    pub open spec fn assemble(segments: Seq<Seq<char>>) -> SaveView {
        SaveView {
            game_version: GameVersion::decode_spec(segments[0])->Ok_0,
            empty: Reserved,
            run_details: RunDetails::decode_spec(segments[2])->Ok_0,
            preferences: Preferences::decode_spec(segments[3])->Ok_0,
            miscellaneous_game_data: MiscellaneousGameData::decode_spec(segments[4])->Ok_0,
            building_data: BuildingData::decode_spec(segments[5])->Ok_0,
            upgrades: decode_upgrades_spec(segments[6])->Ok_0,
        }
    }

    /// What decoding `text` gives: the failure of the first field that fails,
    /// or else the record.
    #[verifier::opaque]
    pub open spec fn decode_spec(text: Seq<char>) -> Result<SaveView, Error> {
        let segments = split(text, '|');
        match first_failure(|i: int| Self::failure(segments, i), 0, 7) {
            Some(e) => Err(e),
            None => Ok(Self::assemble(segments)),
        }
    }

    /// Where inside field `i` the failure of that field arose, if the field is
    /// itself a record.
    pub open spec fn failing_below(segments: Seq<Seq<char>>, i: int) -> Seq<usize> {
        if i >= segments.len() {
            Seq::empty()
        } else if i == 0 {
            GameVersion::failing_path(segments[i])
        } else if i == 2 {
            RunDetails::failing_path(segments[i])
        } else if i == 4 {
            MiscellaneousGameData::failing_path(segments[i])
        } else if i == 5 {
            BuildingData::failing_path(segments[i])
        } else {
            Seq::empty()
        }
    }

    /// Where decoding `text` fails: the position of the first field that fails
    /// and, where that field is itself a record, the place of the failure
    /// inside it; nothing where `text` decodes.
    #[verifier::opaque]
    pub open spec fn failing_path(text: Seq<char>) -> Seq<usize> {
        let segments = split(text, '|');
        match first_failing(|i: int| Self::failure(segments, i), 0, 7) {
            Some(i) => seq![i as usize] + Self::failing_below(segments, i),
            None => Seq::empty(),
        }
    }

    /// Decodes the record from its 7 fields, parted by `|`. The fields are read
    /// in order, and the first that fails ends the decoding with its error and
    /// its place; a field for which no segment is left fails for want of data.
    /// Segments beyond the last field are not read.
    pub fn decode_located(text: &str) -> (r: Result<Save, Failure>)
        ensures
            match Self::decode_spec(text@) {
                Ok(v) => r matches Ok(x) && x@ == v,
                Err(e) => r matches Err(f) && f.error == e && f.path@ == Self::failing_path(
                    text@,
                ),
            },
    {
        proof {
            reveal(Save::decode_spec);
            reveal(Save::failing_path);
        }
        let parts = split_text(text, '|');
        let ghost segments = texts(parts@);
        let ghost failure = |i: int| Self::failure(segments, i);
        proof {
            lemma_next_field(failure, 7, 0);
        }
        let game_version = under(0, GameVersion::decode_located(at(0, segment(&parts, 0))?))?;
        proof {
            lemma_next_field(failure, 7, 1);
        }
        let empty = at(1, decode_unit(at(1, segment(&parts, 1))?))?;
        proof {
            lemma_next_field(failure, 7, 2);
        }
        let run_details = under(2, RunDetails::decode_located(at(2, segment(&parts, 2))?))?;
        proof {
            lemma_next_field(failure, 7, 3);
        }
        let preferences = at(3, Preferences::decode(at(3, segment(&parts, 3))?))?;
        proof {
            lemma_next_field(failure, 7, 4);
        }
        let miscellaneous_game_data = under(4, MiscellaneousGameData::decode_located(at(4, segment(&parts, 4))?))?;
        proof {
            lemma_next_field(failure, 7, 5);
        }
        let building_data = under(5, BuildingData::decode_located(at(5, segment(&parts, 5))?))?;
        proof {
            lemma_next_field(failure, 7, 6);
        }
        let upgrades = at(6, decode_upgrades(at(6, segment(&parts, 6))?))?;
        proof {
            lemma_no_failure(failure, 7);
        }
        Ok(
            Save {
                game_version,
                empty,
                run_details,
                preferences,
                miscellaneous_game_data,
                building_data,
                upgrades,
            },
        )
    }

    /// Decodes the record as `decode_located` does, without the place of a
    /// failure.
    pub fn decode(text: &str) -> (r: Result<Save, Error>)
        ensures
            match Self::decode_spec(text@) {
                Ok(v) => r matches Ok(x) && x@ == v,
                Err(e) => r matches Err(f) && f == e,
            },
    {
        unplaced(Self::decode_located(text))
    }

    /// Encodes the record: the texts of its fields in order, parted by `|`.
    pub fn encode(&self) -> (text: String)
        ensures
            text@ == self@.encode_spec(),
    {
        let mut parts: Vec<String> = Vec::new();
        parts.push(self.game_version.encode());
        parts.push(encode_unit());
        parts.push(self.run_details.encode());
        parts.push(self.preferences.encode());
        parts.push(self.miscellaneous_game_data.encode());
        parts.push(self.building_data.encode());
        parts.push(encode_upgrades(&self.upgrades));
        proof {
            reveal(SaveView::encode_spec);
            assert(texts(parts@) =~= self@.segments());
        }
        join_text(&parts, '|')
    }

    /// Whether `text` decodes to a record whose text it is: the check that a
    /// text is in the form in which the record is written.
    pub fn check_inverse(text: &str) -> (r: Result<bool, Error>)
        ensures
            match Self::decode_spec(text@) {
                Ok(v) => r == Ok::<bool, Error>(v.encode_spec() == text@),
                Err(e) => r == Err::<bool, Error>(e),
            },
    {
        let value = Self::decode(text)?;
        Ok(same_text(value.encode().as_str(), text))
    }

    /// The name of the field at position `i`, the first being at 0.
    pub fn field_name(i: usize) -> (name: Option<&'static str>)
        ensures
            name is Some <==> i < 7,
            i == 0 ==> name == Some("game_version"),
            i == 1 ==> name == Some("empty"),
            i == 2 ==> name == Some("run_details"),
            i == 3 ==> name == Some("preferences"),
            i == 4 ==> name == Some("miscellaneous_game_data"),
            i == 5 ==> name == Some("building_data"),
            i == 6 ==> name == Some("upgrades"),
    {
        if i == 0 {
            Some("game_version")
        } else if i == 1 {
            Some("empty")
        } else if i == 2 {
            Some("run_details")
        } else if i == 3 {
            Some("preferences")
        } else if i == 4 {
            Some("miscellaneous_game_data")
        } else if i == 5 {
            Some("building_data")
        } else if i == 6 {
            Some("upgrades")
        } else {
            None
        }
    }

    /// A text that decodes, cut off at the end of one of its fields before the
    /// last, fails for want of data.
    pub proof fn lemma_truncated(text: Seq<char>, k: int)
        requires
            Self::decode_spec(text) is Ok,
            1 <= k < 7,
        ensures
            Self::decode_spec(join(split(text, '|').take(k), '|')) == Err::<SaveView, Error>(
                Error::InsufficientData,
            ),
    {
        reveal(Save::decode_spec);
        let segments = split(text, '|');
        let failure = |i: int| Self::failure(segments, i);
        lemma_all_succeed(failure, 0, 7);
        assert(failure(6) is None);
        lemma_split_truncated(text, '|', k);
        let kept = segments.take(k);
        let cut = |i: int| Self::failure(kept, i);
        assert forall|j: int| 0 <= j < k implies (#[trigger] cut(j)) is None by {
            assert(failure(j) is None);
            assert(kept[j] == segments[j]);
        }
        lemma_next_field(cut, 7, k);
    }
}
} // verus!
