//! The version of the game that wrote a save.

use crate::error::{Error, Failure};
use crate::primitive::{decode_string, decode_string_spec, encode_string};
use crate::record::{
    at, field_failure, first_failing, first_failure, lemma_next_field, lemma_no_failure, segment,
    unplaced,
};
use crate::text::{
    free_of, join, join_text, lemma_join_free_of, lemma_split_join, same_text, split, split_text,
    texts,
};
use vstd::prelude::*;

verus! {

/// The version of the game that wrote the save.
#[derive(Clone, Debug, PartialEq, Eq)]
pub struct GameVersion {
    pub game_version: String,
}

/// The mathematical content of [`GameVersion`]: texts in place of strings, and
/// plain values in place of what holds them.
pub struct GameVersionView {
    pub game_version: Seq<char>,
}

impl View for GameVersion {
    type V = GameVersionView;

    open spec fn view(&self) -> GameVersionView {
        GameVersionView {
            game_version: self.game_version@,
        }
    }
}

impl GameVersionView {
    /// Whether the record is one that decoding can yield, so that its text
    /// decodes to it again.
    pub open spec fn canonical(self) -> bool {
        &&& free_of(self.game_version, ';') && free_of(self.game_version, '|')
    }

    /// The texts of the fields, in order.
    pub open spec fn segments(self) -> Seq<Seq<char>> {
        seq![
            self.game_version,
        ]
    }

    /// The text of the record: the texts of its fields, parted by `;`.
    #[verifier::opaque]
    pub open spec fn encode_spec(self) -> Seq<char> {
        join(self.segments(), ';')
    }

    /// The text of each field holds neither the delimiter of the record nor
    /// those of the records around it, and decodes to the field.
    proof fn lemma_fields(self)
        requires
            self.canonical(),
        ensures
            forall|i: int| 0 <= i < 1 ==> free_of(#[trigger] self.segments()[i], ';'),
            forall|i: int| 0 <= i < 1 ==> free_of(#[trigger] self.segments()[i], '|'),
            forall|i: int| 0 <= i < 1
                ==> (#[trigger] GameVersion::failure(self.segments(), i)) is None,
            GameVersion::assemble(self.segments()).game_version == self.game_version,
    {
        let segments = self.segments();
        assert(free_of(segments[0], ';'));
        assert(free_of(segments[0], '|'));
        assert forall|i: int| 0 <= i < 1 implies GameVersion::failure(segments, i) is None by {
            assert(i == 0);
        }
    }

    /// Decoding the text of a record that is canonical gives the record, and
    /// the text holds none of the delimiters of the records around it.
    pub proof fn lemma_round_trip(self)
        requires
            self.canonical(),
        ensures
            GameVersion::decode_spec(self.encode_spec()) == Ok::<GameVersionView, Error>(self),
            free_of(self.encode_spec(), '|'),
    {
        reveal(GameVersion::decode_spec);
        reveal(GameVersionView::encode_spec);
        self.lemma_fields();
        let segments = self.segments();
        lemma_split_join(segments, ';');
        lemma_no_failure(|i: int| GameVersion::failure(segments, i), 1);
        lemma_join_free_of(segments, ';', '|');
    }

    /// The text of a record that is canonical is one that encoding what it
    /// decodes to gives back.
    pub proof fn lemma_text_round_trip(self)
        requires
            self.canonical(),
        ensures
            GameVersion::decode_spec(self.encode_spec()) matches Ok(v) && v.encode_spec()
                == self.encode_spec(),
    {
        self.lemma_round_trip();
    }
}

impl GameVersion {
    /// How field `i` fails on the given segments, if it does.
    pub open spec fn failure(segments: Seq<Seq<char>>, i: int) -> Option<Error> {
        field_failure(segments, i, decode_string_spec(segments[i]))
    }

    /// The record that the segments hold, where no field fails.
    pub open spec fn assemble(segments: Seq<Seq<char>>) -> GameVersionView {
        GameVersionView {
            game_version: decode_string_spec(segments[0])->Ok_0,
        }
    }

    /// What decoding `text` gives: the failure of the first field that fails,
    /// or else the record.
    #[verifier::opaque]
    pub open spec fn decode_spec(text: Seq<char>) -> Result<GameVersionView, Error> {
        let segments = split(text, ';');
        match first_failure(|i: int| Self::failure(segments, i), 0, 1) {
            Some(e) => Err(e),
            None => Ok(Self::assemble(segments)),
        }
    }

    /// Where decoding `text` fails: the position of the first field that fails
    /// and, where that field is itself a record, the place of the failure
    /// inside it; nothing where `text` decodes.
    #[verifier::opaque]
    pub open spec fn failing_path(text: Seq<char>) -> Seq<usize> {
        let segments = split(text, ';');
        match first_failing(|i: int| Self::failure(segments, i), 0, 1) {
            Some(i) => seq![i as usize],
            None => Seq::empty(),
        }
    }

    /// Decodes the record from its field, parted by `;`. The fields are read in
    /// order, and the first that fails ends the decoding with its error and its
    /// place; a field for which no segment is left fails for want of data.
    /// Segments beyond the last field are not read.
    pub fn decode_located(text: &str) -> (r: Result<GameVersion, Failure>)
        ensures
            match Self::decode_spec(text@) {
                Ok(v) => r matches Ok(x) && x@ == v,
                Err(e) => r matches Err(f) && f.error == e && f.path@ == Self::failing_path(
                    text@,
                ),
            },
    {
        proof {
            reveal(GameVersion::decode_spec);
            reveal(GameVersion::failing_path);
        }
        let parts = split_text(text, ';');
        let ghost segments = texts(parts@);
        let ghost failure = |i: int| Self::failure(segments, i);
        proof {
            lemma_next_field(failure, 1, 0);
        }
        let game_version = at(0, decode_string(at(0, segment(&parts, 0))?))?;
        proof {
            lemma_no_failure(failure, 1);
        }
        Ok(GameVersion { game_version })
    }

    /// Decodes the record as `decode_located` does, without the place of a
    /// failure.
    pub fn decode(text: &str) -> (r: Result<GameVersion, Error>)
        ensures
            match Self::decode_spec(text@) {
                Ok(v) => r matches Ok(x) && x@ == v,
                Err(e) => r matches Err(f) && f == e,
            },
    {
        unplaced(Self::decode_located(text))
    }

    /// Encodes the record: the texts of its fields in order, parted by `;`.
    pub fn encode(&self) -> (text: String)
        ensures
            text@ == self@.encode_spec(),
    {
        let mut parts: Vec<String> = Vec::new();
        parts.push(encode_string(&self.game_version));
        proof {
            reveal(GameVersionView::encode_spec);
            assert(texts(parts@) =~= self@.segments());
        }
        join_text(&parts, ';')
    }

    /// Whether `text` decodes to a record whose text it is: the check that a
    /// text is in the form in which the record is written.
    pub fn check_inverse(text: &str) -> (r: Result<bool, Error>)
        ensures
            match Self::decode_spec(text@) {
                Ok(v) => r == Ok::<bool, Error>(v.encode_spec() == text@),
                Err(e) => r == Err::<bool, Error>(e),
            },
    {
        let value = Self::decode(text)?;
        Ok(same_text(value.encode().as_str(), text))
    }

    /// The name of the field at position `i`, the first being at 0.
    pub fn field_name(i: usize) -> (name: Option<&'static str>)
        ensures
            name is Some <==> i < 1,
            i == 0 ==> name == Some("game_version"),
    {
        if i == 0 {
            Some("game_version")
        } else {
            None
        }
    }

}
} // verus!
