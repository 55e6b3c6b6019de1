//! The garden, the minigame of the farms.
//!
//! Its text has three sections, parted by spaces: the scalar state, parted
//! by colons; one flag for each seed; and the plots of the farm, an
//! identifier and an age for each, all parted by colons. A plot with the
//! identifier zero is empty.

use crate::error::{Error, Failure};
use crate::flags::{
    decode_all_flags, decode_all_flags_spec, encode_flags, encode_flags_spec,
    lemma_all_flags_round_trip,
};
use crate::pairs::pair_up;
use crate::primitive::{
    decimal_digits, decode_bool, decode_bool_spec, decode_u64, decode_u64_spec, decode_usize,
    decode_usize_spec, encode_bool, encode_bool_spec, encode_u64, encode_usize,
    lemma_bool_round_trip, lemma_u64_round_trip, lemma_usize_round_trip,
};
use crate::record::{
    at, field_failure, first_failing, first_failure, lemma_all_succeed, lemma_next_field,
    lemma_no_failure, none_fails, segment, under, unplaced,
};
use crate::sentinel::{none_as_empty_spec, none_as_empty_text};
use crate::text::{
    free_of, is_delimiter, join, join_text, lemma_join_free_of, lemma_plain_free_of,
    lemma_split_join, lemma_split_truncated, plain, same_text, split, split_text, texts,
};
use crate::timestamp::{instant_exists, Timestamp};
use vstd::prelude::*;

verus! {

/// What grows on a plot of the farm.
#[derive(Clone, Copy, Debug, PartialEq, Eq)]
pub struct FarmGridData {
    /// Which plant it is; never zero, which stands for an empty plot.
    pub id: usize,
    /// How old the plant is.
    pub age: u64,
}

/// The plot that an identifier and an age describe: empty where the
/// identifier is zero.
pub open spec fn plot_of(id: usize, age: u64) -> Option<FarmGridData> {
    if id == 0 {
        None
    } else {
        Some(FarmGridData { id, age })
    }
}

/// The identifier that is written for a plot: zero for an empty one.
pub open spec fn plot_id(plot: Option<FarmGridData>) -> usize {
    match plot {
        Some(p) => p.id,
        None => 0,
    }
}

/// The age that is written for a plot: zero for an empty one.
pub open spec fn plot_age(plot: Option<FarmGridData>) -> u64 {
    match plot {
        Some(p) => p.age,
        None => 0,
    }
}

/// What decoding an identifier and an age as a plot gives: the failure of
/// the identifier, else that of the age, else the plot.
pub open spec fn decode_plot_spec(id: Seq<char>, age: Seq<char>) -> Result<
    Option<FarmGridData>,
    Error,
> {
    match decode_usize_spec(id) {
        Err(e) => Err(e),
        Ok(i) => match decode_u64_spec(age) {
            Err(e) => Err(e),
            Ok(a) => Ok(plot_of(i, a)),
        },
    }
}

/// Decodes a plot from its identifier and its age. The identifier zero
/// gives an empty plot, whatever the age, which is decoded all the same.
pub fn decode_plot(id: &str, age: &str) -> (r: Result<Option<FarmGridData>, Error>)
    ensures
        r == decode_plot_spec(id@, age@),
{
    let id = decode_usize(id)?;
    let age = decode_u64(age)?;
    if id == 0 {
        Ok(None)
    } else {
        Ok(Some(FarmGridData { id, age }))
    }
}

/// Encodes a plot as its identifier and its age; an empty plot as zero
/// and zero.
pub fn encode_plot(plot: &Option<FarmGridData>) -> (r: (String, String))
    ensures
        r.0@ == decimal_digits(plot_id(*plot) as nat),
        r.1@ == decimal_digits(plot_age(*plot) as nat),
{
    match plot {
        Some(p) => (encode_usize(p.id), encode_u64(p.age)),
        None => (encode_usize(0), encode_u64(0)),
    }
}

/// Decoding what a plot is encoded as gives the plot, unless it is a
/// plant with the identifier zero; an empty plot is written as `0` and `0`.
pub proof fn lemma_plot_round_trip(plot: Option<FarmGridData>)
    requires
        plot matches Some(p) ==> p.id != 0,
    ensures
        decode_plot_spec(
            decimal_digits(plot_id(plot) as nat),
            decimal_digits(plot_age(plot) as nat),
        ) == Ok::<Option<FarmGridData>, Error>(plot),
        plot is None ==> decimal_digits(plot_id(plot) as nat) == seq!['0'] && decimal_digits(
            plot_age(plot) as nat,
        ) == seq!['0'],
        plain(decimal_digits(plot_id(plot) as nat)),
        plain(decimal_digits(plot_age(plot) as nat)),
{
    lemma_usize_round_trip(plot_id(plot));
    lemma_u64_round_trip(plot_age(plot));
    assert(decimal_digits(0) =~= seq!['0']);
}

/// How pair `j` of the segments fails as a plot, if it does.
pub open spec fn plot_failure(segments: Seq<Seq<char>>, j: int) -> Option<Error> {
    match decode_plot_spec(segments[2 * j], segments[2 * j + 1]) {
        Ok(_) => None,
        Err(e) => Some(e),
    }
}

/// The plots that the pairs of segments write, where none of them fails.
pub open spec fn plots_of(segments: Seq<Seq<char>>, pairs: nat) -> Seq<Option<FarmGridData>> {
    Seq::new(pairs, |j: int| decode_plot_spec(segments[2 * j], segments[2 * j + 1])->Ok_0)
}

/// What decoding `s` as the plots of a farm gives. The text is cut at its
/// colons and the segments are taken two at a time; one that is left over
/// is not read.
#[verifier::opaque]
pub open spec fn decode_plots_spec(s: Seq<char>) -> Result<Seq<Option<FarmGridData>>, Error> {
    let segments = split(s, ':');
    let pairs = segments.len() / 2;
    match first_failure(|j: int| plot_failure(segments, j), 0, pairs as int) {
        Some(e) => Err(e),
        None => Ok(plots_of(segments, pairs)),
    }
}

/// The segments that write the plots: for each its identifier and its age.
pub open spec fn plot_segments(plots: Seq<Option<FarmGridData>>) -> Seq<Seq<char>> {
    Seq::new(
        2 * plots.len(),
        |i: int|
            if i % 2 == 0 {
                decimal_digits(plot_id(plots[i / 2]) as nat)
            } else {
                decimal_digits(plot_age(plots[i / 2]) as nat)
            },
    )
}

/// The text of the plots of a farm: their identifiers and ages, parted by
/// colons.
#[verifier::opaque]
pub open spec fn encode_plots_spec(plots: Seq<Option<FarmGridData>>) -> Seq<char> {
    join(plot_segments(plots), ':')
}

/// Whether no plot holds a plant with the identifier zero, which would be
/// read back as an empty plot.
pub open spec fn plots_canonical(plots: Seq<Option<FarmGridData>>) -> bool {
    forall|i: int| 0 <= i < plots.len() ==> ((#[trigger] plots[i]) matches Some(p) ==> p.id != 0)
}

/// Decodes the plots of a farm, pair by pair; the first pair that fails
/// ends the decoding with its error.
pub fn decode_plots(text: &str) -> (r: Result<Vec<Option<FarmGridData>>, Error>)
    ensures
        match decode_plots_spec(text@) {
            Ok(plots) => r matches Ok(v) && v@ == plots,
            Err(e) => r matches Err(f) && f == e,
        },
{
    proof {
        reveal(decode_plots_spec);
    }
    let parts = split_text(text, ':');
    let ghost segments = texts(parts@);
    let ghost failure = |j: int| plot_failure(segments, j);
    let pairs = pair_up(parts);
    let mut plots: Vec<Option<FarmGridData>> = Vec::new();
    let mut j: usize = 0;
    while j < pairs.len()
        invariant
            j <= pairs.len(),
            segments == split(text@, ':'),
            pairs@.len() == segments.len() / 2,
            forall|k: int|
                0 <= k < pairs@.len() ==> (#[trigger] pairs@[k]).0@ == segments[2 * k]
                    && pairs@[k].1@ == segments[2 * k + 1],
            failure == (|j: int| plot_failure(segments, j)),
            none_fails(failure, j as int),
            plots@ == plots_of(segments, j as nat),
        decreases pairs.len() - j,
    {
        proof {
            reveal(decode_plots_spec);
            lemma_next_field(failure, pairs.len() as int, j as int);
        }
        let plot = decode_plot(pairs[j].0.as_str(), pairs[j].1.as_str())?;
        plots.push(plot);
        proof {
            assert(plots@ =~= plots_of(segments, (j + 1) as nat));
        }
        j += 1;
    }
    proof {
        lemma_no_failure(failure, pairs.len() as int);
    }
    Ok(plots)
}

/// Encodes the plots of a farm: the identifier and the age of each, all
/// parted by colons, and `0:0` for an empty plot.
pub fn encode_plots(plots: &Vec<Option<FarmGridData>>) -> (text: String)
    ensures
        text@ == encode_plots_spec(plots@),
{
    proof {
        reveal(encode_plots_spec);
    }
    let mut parts: Vec<String> = Vec::new();
    let mut j: usize = 0;
    while j < plots.len()
        invariant
            j <= plots.len(),
            parts.len() == 2 * j,
            texts(parts@) == plot_segments(plots@.take(j as int)),
        decreases plots.len() - j,
    {
        let (id, age) = encode_plot(&plots[j]);
        let ghost before = texts(parts@);
        parts.push(id);
        parts.push(age);
        proof {
            let after = texts(parts@);
            let goal = plot_segments(plots@.take(j + 1));
            assert forall|i: int| 0 <= i < after.len() implies after[i] == goal[i] by {
                if i < 2 * j {
                    assert(after[i] == before[i]);
                    assert(plots@.take(j as int)[i / 2] == plots@.take(j + 1)[i / 2]);
                }
            }
            assert(after =~= goal);
        }
        j += 1;
    }
    proof {
        assert(plots@.take(j as int) =~= plots@);
    }
    join_text(&parts, ':')
}

/// Decoding the text of plots gives the plots, unless one holds a plant
/// with the identifier zero, and the text holds none of the delimiters of
/// the records around it.
pub proof fn lemma_plots_round_trip(plots: Seq<Option<FarmGridData>>)
    requires
        plots_canonical(plots),
    ensures
        decode_plots_spec(encode_plots_spec(plots)) == Ok::<Seq<Option<FarmGridData>>, Error>(
            plots,
        ),
        free_of(encode_plots_spec(plots), ' '),
        free_of(encode_plots_spec(plots), ','),
        free_of(encode_plots_spec(plots), ';'),
        free_of(encode_plots_spec(plots), '|'),
{
    reveal(decode_plots_spec);
    reveal(encode_plots_spec);
    let segments = plot_segments(plots);
    let text = join(segments, ':');
    assert forall|i: int| 0 <= i < segments.len() implies plain(#[trigger] segments[i]) by {
        lemma_plot_round_trip(plots[i / 2]);
    }
    assert forall|d: char| is_delimiter(d) && d != ':' implies free_of(text, d) by {
        assert forall|i: int| 0 <= i < segments.len() implies free_of(#[trigger] segments[i], d) by {
            lemma_plain_free_of(segments[i], d);
        }
        lemma_join_free_of(segments, ':', d);
    }
    assert(is_delimiter(' ') && is_delimiter(',') && is_delimiter(';') && is_delimiter('|'));
    if plots.len() == 0 {
        assert(text =~= Seq::<char>::empty());
        assert(split(text, ':') =~= seq![text]);
        assert(plots_of(split(text, ':'), 0) =~= plots);
    } else {
        assert forall|i: int| 0 <= i < segments.len() implies free_of(#[trigger] segments[i], ':') by {
            lemma_plain_free_of(segments[i], ':');
        }
        lemma_split_join(segments, ':');
        let failure = |j: int| plot_failure(segments, j);
        assert forall|j: int| 0 <= j < plots.len() implies (#[trigger] failure(j)) is None
            && decode_plot_spec(segments[2 * j], segments[2 * j + 1])->Ok_0 == plots[j] by {
            lemma_plot_round_trip(plots[j]);
            assert((2 * j) / 2 == j && (2 * j + 1) / 2 == j);
        }
        lemma_no_failure(failure, plots.len() as int);
        assert forall|j: int| 0 <= j < plots.len() implies plots_of(segments, plots.len())[j]
            == plots[j] by {
            assert(failure(j) is None);
        }
        assert(plots_of(segments, plots.len()) =~= plots);
    }
}

/// The scalar state of a garden: when it ticks next, its soil and when that may
/// change next, whether it is frozen, and how often it was harvested.
#[derive(Clone, Copy, Debug, PartialEq, Eq)]
pub struct GardenScalars {
    pub time_of_next_tick: Timestamp,
    pub soil_type: usize,
    pub time_of_next_soil_change: Timestamp,
    pub frozen_garden: bool,
    pub harvests_this_ascension: u64,
    pub total_harvests: u64,
}

/// The mathematical content of [`GardenScalars`]: texts in place of strings,
/// and plain values in place of what holds them.
pub struct GardenScalarsView {
    pub time_of_next_tick: i64,
    pub soil_type: usize,
    pub time_of_next_soil_change: i64,
    pub frozen_garden: bool,
    pub harvests_this_ascension: u64,
    pub total_harvests: u64,
}

impl View for GardenScalars {
    type V = GardenScalarsView;

    open spec fn view(&self) -> GardenScalarsView {
        GardenScalarsView {
            time_of_next_tick: self.time_of_next_tick@,
            soil_type: self.soil_type,
            time_of_next_soil_change: self.time_of_next_soil_change@,
            frozen_garden: self.frozen_garden,
            harvests_this_ascension: self.harvests_this_ascension,
            total_harvests: self.total_harvests,
        }
    }
}

impl GardenScalarsView {
    /// Whether the record is one that decoding can yield, so that its text
    /// decodes to it again.
    pub open spec fn canonical(self) -> bool {
        &&& instant_exists(self.time_of_next_tick)
        &&& instant_exists(self.time_of_next_soil_change)
    }

    /// The texts of the fields, in order.
    pub open spec fn segments(self) -> Seq<Seq<char>> {
        seq![
            Timestamp::encode_spec(self.time_of_next_tick),
            decimal_digits(self.soil_type as nat),
            Timestamp::encode_spec(self.time_of_next_soil_change),
            encode_bool_spec(self.frozen_garden),
            decimal_digits(self.harvests_this_ascension as nat),
            decimal_digits(self.total_harvests as nat),
        ]
    }

    /// The text of the record: the texts of its fields, parted by `:`.
    #[verifier::opaque]
    pub open spec fn encode_spec(self) -> Seq<char> {
        join(self.segments(), ':')
    }

    /// The text of each field holds neither the delimiter of the record nor
    /// those of the records around it, and decodes to the field.
    proof fn lemma_fields(self)
        requires
            self.canonical(),
        ensures
            forall|i: int| 0 <= i < 6 ==> free_of(#[trigger] self.segments()[i], ':'),
            forall|i: int| 0 <= i < 6 ==> free_of(#[trigger] self.segments()[i], ' '),
            forall|i: int| 0 <= i < 6 ==> free_of(#[trigger] self.segments()[i], ','),
            forall|i: int| 0 <= i < 6 ==> free_of(#[trigger] self.segments()[i], ';'),
            forall|i: int| 0 <= i < 6 ==> free_of(#[trigger] self.segments()[i], '|'),
            forall|i: int| 0 <= i < 6
                ==> (#[trigger] GardenScalars::failure(self.segments(), i)) is None,
            GardenScalars::assemble(self.segments()).time_of_next_tick == self.time_of_next_tick,
            GardenScalars::assemble(self.segments()).soil_type == self.soil_type,
            GardenScalars::assemble(self.segments()).time_of_next_soil_change
                == self.time_of_next_soil_change,
            GardenScalars::assemble(self.segments()).frozen_garden == self.frozen_garden,
            GardenScalars::assemble(self.segments()).harvests_this_ascension
                == self.harvests_this_ascension,
            GardenScalars::assemble(self.segments()).total_harvests == self.total_harvests,
    {
        Timestamp::lemma_round_trip(self.time_of_next_tick);
        lemma_usize_round_trip(self.soil_type);
        Timestamp::lemma_round_trip(self.time_of_next_soil_change);
        lemma_bool_round_trip(self.frozen_garden);
        lemma_u64_round_trip(self.harvests_this_ascension);
        lemma_u64_round_trip(self.total_harvests);
        let segments = self.segments();
        lemma_plain_free_of(segments[0], ':');
        lemma_plain_free_of(segments[0], ' ');
        lemma_plain_free_of(segments[0], ',');
        lemma_plain_free_of(segments[0], ';');
        lemma_plain_free_of(segments[0], '|');
        lemma_plain_free_of(segments[1], ':');
        lemma_plain_free_of(segments[1], ' ');
        lemma_plain_free_of(segments[1], ',');
        lemma_plain_free_of(segments[1], ';');
        lemma_plain_free_of(segments[1], '|');
        lemma_plain_free_of(segments[2], ':');
        lemma_plain_free_of(segments[2], ' ');
        lemma_plain_free_of(segments[2], ',');
        lemma_plain_free_of(segments[2], ';');
        lemma_plain_free_of(segments[2], '|');
        lemma_plain_free_of(segments[3], ':');
        lemma_plain_free_of(segments[3], ' ');
        lemma_plain_free_of(segments[3], ',');
        lemma_plain_free_of(segments[3], ';');
        lemma_plain_free_of(segments[3], '|');
        lemma_plain_free_of(segments[4], ':');
        lemma_plain_free_of(segments[4], ' ');
        lemma_plain_free_of(segments[4], ',');
        lemma_plain_free_of(segments[4], ';');
        lemma_plain_free_of(segments[4], '|');
        lemma_plain_free_of(segments[5], ':');
        lemma_plain_free_of(segments[5], ' ');
        lemma_plain_free_of(segments[5], ',');
        lemma_plain_free_of(segments[5], ';');
        lemma_plain_free_of(segments[5], '|');
        assert forall|i: int| 0 <= i < 6 implies GardenScalars::failure(segments, i) is None by {
            assert(i == 0 || i == 1 || i == 2 || i == 3 || i == 4 || i == 5);
        }
    }

    /// Decoding the text of a record that is canonical gives the record, and
    /// the text holds none of the delimiters of the records around it.
    pub proof fn lemma_round_trip(self)
        requires
            self.canonical(),
        ensures
            GardenScalars::decode_spec(self.encode_spec()) == Ok::<GardenScalarsView, Error>(self),
            free_of(self.encode_spec(), ' '),
            free_of(self.encode_spec(), ','),
            free_of(self.encode_spec(), ';'),
            free_of(self.encode_spec(), '|'),
    {
        reveal(GardenScalars::decode_spec);
        reveal(GardenScalarsView::encode_spec);
        self.lemma_fields();
        let segments = self.segments();
        lemma_split_join(segments, ':');
        lemma_no_failure(|i: int| GardenScalars::failure(segments, i), 6);
        lemma_join_free_of(segments, ':', ' ');
        lemma_join_free_of(segments, ':', ',');
        lemma_join_free_of(segments, ':', ';');
        lemma_join_free_of(segments, ':', '|');
    }

    /// The text of a record that is canonical is one that encoding what it
    /// decodes to gives back.
    pub proof fn lemma_text_round_trip(self)
        requires
            self.canonical(),
        ensures
            GardenScalars::decode_spec(self.encode_spec()) matches Ok(v) && v.encode_spec()
                == self.encode_spec(),
    {
        self.lemma_round_trip();
    }
}

impl GardenScalars {
    /// How field `i` fails on the given segments, if it does.
    pub open spec fn failure(segments: Seq<Seq<char>>, i: int) -> Option<Error> {
        if i == 0 || i == 2 {
            field_failure(segments, i, Timestamp::decode_spec(segments[i]))
        } else if i == 1 {
            field_failure(segments, i, decode_usize_spec(segments[i]))
        } else if i == 3 {
            field_failure(segments, i, decode_bool_spec(segments[i]))
        } else {
            field_failure(segments, i, decode_u64_spec(segments[i]))
        }
    }

    /// The record that the segments hold, where no field fails.
    pub open spec fn assemble(segments: Seq<Seq<char>>) -> GardenScalarsView {
        GardenScalarsView {
            time_of_next_tick: Timestamp::decode_spec(segments[0])->Ok_0,
            soil_type: decode_usize_spec(segments[1])->Ok_0,
            time_of_next_soil_change: Timestamp::decode_spec(segments[2])->Ok_0,
            frozen_garden: decode_bool_spec(segments[3])->Ok_0,
            harvests_this_ascension: decode_u64_spec(segments[4])->Ok_0,
            total_harvests: decode_u64_spec(segments[5])->Ok_0,
        }
    }

    /// What decoding `text` gives: the failure of the first field that fails,
    /// or else the record.
    #[verifier::opaque]
    pub open spec fn decode_spec(text: Seq<char>) -> Result<GardenScalarsView, Error> {
        let segments = split(text, ':');
        match first_failure(|i: int| Self::failure(segments, i), 0, 6) {
            Some(e) => Err(e),
            None => Ok(Self::assemble(segments)),
        }
    }

    /// Where decoding `text` fails: the position of the first field that fails
    /// and, where that field is itself a record, the place of the failure
    /// inside it; nothing where `text` decodes.
    #[verifier::opaque]
    pub open spec fn failing_path(text: Seq<char>) -> Seq<usize> {
        let segments = split(text, ':');
        match first_failing(|i: int| Self::failure(segments, i), 0, 6) {
            Some(i) => seq![i as usize],
            None => Seq::empty(),
        }
    }

    /// Decodes the record from its 6 fields, parted by `:`. The fields are read
    /// in order, and the first that fails ends the decoding with its error and
    /// its place; a field for which no segment is left fails for want of data.
    /// Segments beyond the last field are not read.
    pub fn decode_located(text: &str) -> (r: Result<GardenScalars, Failure>)
        ensures
            match Self::decode_spec(text@) {
                Ok(v) => r matches Ok(x) && x@ == v,
                Err(e) => r matches Err(f) && f.error == e && f.path@ == Self::failing_path(
                    text@,
                ),
            },
    {
        proof {
            reveal(GardenScalars::decode_spec);
            reveal(GardenScalars::failing_path);
        }
        let parts = split_text(text, ':');
        let ghost segments = texts(parts@);
        let ghost failure = |i: int| Self::failure(segments, i);
        proof {
            lemma_next_field(failure, 6, 0);
        }
        let time_of_next_tick = at(0, Timestamp::decode(at(0, segment(&parts, 0))?))?;
        proof {
            lemma_next_field(failure, 6, 1);
        }
        let soil_type = at(1, decode_usize(at(1, segment(&parts, 1))?))?;
        proof {
            lemma_next_field(failure, 6, 2);
        }
        let time_of_next_soil_change = at(2, Timestamp::decode(at(2, segment(&parts, 2))?))?;
        proof {
            lemma_next_field(failure, 6, 3);
        }
        let frozen_garden = at(3, decode_bool(at(3, segment(&parts, 3))?))?;
        proof {
            lemma_next_field(failure, 6, 4);
        }
        let harvests_this_ascension = at(4, decode_u64(at(4, segment(&parts, 4))?))?;
        proof {
            lemma_next_field(failure, 6, 5);
        }
        let total_harvests = at(5, decode_u64(at(5, segment(&parts, 5))?))?;
        proof {
            lemma_no_failure(failure, 6);
        }
        Ok(
            GardenScalars {
                time_of_next_tick,
                soil_type,
                time_of_next_soil_change,
                frozen_garden,
                harvests_this_ascension,
                total_harvests,
            },
        )
    }

    /// Decodes the record as `decode_located` does, without the place of a
    /// failure.
    pub fn decode(text: &str) -> (r: Result<GardenScalars, Error>)
        ensures
            match Self::decode_spec(text@) {
                Ok(v) => r matches Ok(x) && x@ == v,
                Err(e) => r matches Err(f) && f == e,
            },
    {
        unplaced(Self::decode_located(text))
    }

    /// Encodes the record: the texts of its fields in order, parted by `:`.
    pub fn encode(&self) -> (text: String)
        ensures
            text@ == self@.encode_spec(),
    {
        let mut parts: Vec<String> = Vec::new();
        parts.push(self.time_of_next_tick.encode());
        parts.push(encode_usize(self.soil_type));
        parts.push(self.time_of_next_soil_change.encode());
        parts.push(encode_bool(self.frozen_garden));
        parts.push(encode_u64(self.harvests_this_ascension));
        parts.push(encode_u64(self.total_harvests));
        proof {
            reveal(GardenScalarsView::encode_spec);
            assert(texts(parts@) =~= self@.segments());
        }
        join_text(&parts, ':')
    }

    /// Whether `text` decodes to a record whose text it is: the check that a
    /// text is in the form in which the record is written.
    pub fn check_inverse(text: &str) -> (r: Result<bool, Error>)
        ensures
            match Self::decode_spec(text@) {
                Ok(v) => r == Ok::<bool, Error>(v.encode_spec() == text@),
                Err(e) => r == Err::<bool, Error>(e),
            },
    {
        let value = Self::decode(text)?;
        Ok(same_text(value.encode().as_str(), text))
    }

    /// The name of the field at position `i`, the first being at 0.
    pub fn field_name(i: usize) -> (name: Option<&'static str>)
        ensures
            name is Some <==> i < 6,
            i == 0 ==> name == Some("time_of_next_tick"),
            i == 1 ==> name == Some("soil_type"),
            i == 2 ==> name == Some("time_of_next_soil_change"),
            i == 3 ==> name == Some("frozen_garden"),
            i == 4 ==> name == Some("harvests_this_ascension"),
            i == 5 ==> name == Some("total_harvests"),
    {
        if i == 0 {
            Some("time_of_next_tick")
        } else if i == 1 {
            Some("soil_type")
        } else if i == 2 {
            Some("time_of_next_soil_change")
        } else if i == 3 {
            Some("frozen_garden")
        } else if i == 4 {
            Some("harvests_this_ascension")
        } else if i == 5 {
            Some("total_harvests")
        } else {
            None
        }
    }

    /// A text that decodes, cut off at the end of one of its fields before the
    /// last, fails for want of data.
    pub proof fn lemma_truncated(text: Seq<char>, k: int)
        requires
            Self::decode_spec(text) is Ok,
            1 <= k < 6,
        ensures
            Self::decode_spec(join(split(text, ':').take(k), ':'))
                == Err::<GardenScalarsView, Error>(
                Error::InsufficientData,
            ),
    {
        reveal(GardenScalars::decode_spec);
        let segments = split(text, ':');
        let failure = |i: int| Self::failure(segments, i);
        lemma_all_succeed(failure, 0, 6);
        assert(failure(5) is None);
        lemma_split_truncated(text, ':', k);
        let kept = segments.take(k);
        let cut = |i: int| Self::failure(kept, i);
        assert forall|j: int| 0 <= j < k implies (#[trigger] cut(j)) is None by {
            assert(failure(j) is None);
            assert(kept[j] == segments[j]);
        }
        lemma_next_field(cut, 6, k);
    }
}

/// A garden as the format lays it out: three sections, parted by spaces.
#[derive(Clone, Debug, PartialEq, Eq)]
pub struct GardenSections {
    /// The scalar state, parted by colons.
    pub scalars: GardenScalars,
    /// For each seed, whether it is unlocked: a row of flags.
    pub unlocked_seeds: Vec<bool>,
    /// The plots of the farm, each an identifier and an age, all parted by
    /// colons.
    pub farm_grid_data: Vec<Option<FarmGridData>>,
}

/// The mathematical content of [`GardenSections`]: texts in place of strings,
/// and plain values in place of what holds them.
pub struct GardenSectionsView {
    pub scalars: GardenScalarsView,
    pub unlocked_seeds: Seq<bool>,
    pub farm_grid_data: Seq<Option<FarmGridData>>,
}

impl View for GardenSections {
    type V = GardenSectionsView;

    open spec fn view(&self) -> GardenSectionsView {
        GardenSectionsView {
            scalars: self.scalars@,
            unlocked_seeds: self.unlocked_seeds@,
            farm_grid_data: self.farm_grid_data@,
        }
    }
}

impl GardenSectionsView {
    /// Whether the record is one that decoding can yield, so that its text
    /// decodes to it again.
    pub open spec fn canonical(self) -> bool {
        &&& self.scalars.canonical()
        &&& plots_canonical(self.farm_grid_data)
    }

    /// The texts of the fields, in order.
    pub open spec fn segments(self) -> Seq<Seq<char>> {
        seq![
            self.scalars.encode_spec(),
            encode_flags_spec(self.unlocked_seeds),
            encode_plots_spec(self.farm_grid_data),
        ]
    }

    /// The text of the record: the texts of its fields, parted by `a space`.
    #[verifier::opaque]
    pub open spec fn encode_spec(self) -> Seq<char> {
        join(self.segments(), ' ')
    }

    /// The text of each field holds neither the delimiter of the record nor
    /// those of the records around it, and decodes to the field.
    proof fn lemma_fields(self)
        requires
            self.canonical(),
        ensures
            forall|i: int| 0 <= i < 3 ==> free_of(#[trigger] self.segments()[i], ' '),
            forall|i: int| 0 <= i < 3 ==> free_of(#[trigger] self.segments()[i], ','),
            forall|i: int| 0 <= i < 3 ==> free_of(#[trigger] self.segments()[i], ';'),
            forall|i: int| 0 <= i < 3 ==> free_of(#[trigger] self.segments()[i], '|'),
            forall|i: int| 0 <= i < 3
                ==> (#[trigger] GardenSections::failure(self.segments(), i)) is None,
            GardenSections::assemble(self.segments()).scalars == self.scalars,
            GardenSections::assemble(self.segments()).unlocked_seeds == self.unlocked_seeds,
            GardenSections::assemble(self.segments()).farm_grid_data == self.farm_grid_data,
    {
        self.scalars.lemma_round_trip();
        lemma_all_flags_round_trip(self.unlocked_seeds);
        lemma_plots_round_trip(self.farm_grid_data);
        let segments = self.segments();
        assert(free_of(segments[0], ' '));
        assert(free_of(segments[0], ','));
        assert(free_of(segments[0], ';'));
        assert(free_of(segments[0], '|'));
        lemma_plain_free_of(segments[1], ' ');
        lemma_plain_free_of(segments[1], ',');
        lemma_plain_free_of(segments[1], ';');
        lemma_plain_free_of(segments[1], '|');
        assert(free_of(segments[2], ' '));
        assert(free_of(segments[2], ','));
        assert(free_of(segments[2], ';'));
        assert(free_of(segments[2], '|'));
        assert forall|i: int| 0 <= i < 3 implies GardenSections::failure(segments, i) is None by {
            assert(i == 0 || i == 1 || i == 2);
        }
    }

    /// Decoding the text of a record that is canonical gives the record, and
    /// the text holds none of the delimiters of the records around it.
    pub proof fn lemma_round_trip(self)
        requires
            self.canonical(),
        ensures
            GardenSections::decode_spec(self.encode_spec())
                == Ok::<GardenSectionsView, Error>(self),
            free_of(self.encode_spec(), ','),
            free_of(self.encode_spec(), ';'),
            free_of(self.encode_spec(), '|'),
    {
        reveal(GardenSections::decode_spec);
        reveal(GardenSectionsView::encode_spec);
        self.lemma_fields();
        let segments = self.segments();
        lemma_split_join(segments, ' ');
        lemma_no_failure(|i: int| GardenSections::failure(segments, i), 3);
        lemma_join_free_of(segments, ' ', ',');
        lemma_join_free_of(segments, ' ', ';');
        lemma_join_free_of(segments, ' ', '|');
    }

    /// The text of a record that is canonical is one that encoding what it
    /// decodes to gives back.
    pub proof fn lemma_text_round_trip(self)
        requires
            self.canonical(),
        ensures
            GardenSections::decode_spec(self.encode_spec()) matches Ok(v) && v.encode_spec()
                == self.encode_spec(),
    {
        self.lemma_round_trip();
    }
}

impl GardenSections {
    /// How field `i` fails on the given segments, if it does.
    pub open spec fn failure(segments: Seq<Seq<char>>, i: int) -> Option<Error> {
        if i == 0 {
            field_failure(segments, i, GardenScalars::decode_spec(segments[i]))
        } else if i == 1 {
            field_failure(segments, i, decode_all_flags_spec(segments[i]))
        } else {
            field_failure(segments, i, decode_plots_spec(segments[i]))
        }
    }

    /// The record that the segments hold, where no field fails.
    pub open spec fn assemble(segments: Seq<Seq<char>>) -> GardenSectionsView {
        GardenSectionsView {
            scalars: GardenScalars::decode_spec(segments[0])->Ok_0,
            unlocked_seeds: decode_all_flags_spec(segments[1])->Ok_0,
            farm_grid_data: decode_plots_spec(segments[2])->Ok_0,
        }
    }

    /// What decoding `text` gives: the failure of the first field that fails,
    /// or else the record.
    #[verifier::opaque]
    pub open spec fn decode_spec(text: Seq<char>) -> Result<GardenSectionsView, Error> {
        let segments = split(text, ' ');
        match first_failure(|i: int| Self::failure(segments, i), 0, 3) {
            Some(e) => Err(e),
            None => Ok(Self::assemble(segments)),
        }
    }

    /// Where inside field `i` the failure of that field arose, if the field is
    /// itself a record.
    pub open spec fn failing_below(segments: Seq<Seq<char>>, i: int) -> Seq<usize> {
        if i >= segments.len() {
            Seq::empty()
        } else if i == 0 {
            GardenScalars::failing_path(segments[i])
        } else {
            Seq::empty()
        }
    }

    /// Where decoding `text` fails: the position of the first field that fails
    /// and, where that field is itself a record, the place of the failure
    /// inside it; nothing where `text` decodes.
    #[verifier::opaque]
    pub open spec fn failing_path(text: Seq<char>) -> Seq<usize> {
        let segments = split(text, ' ');
        match first_failing(|i: int| Self::failure(segments, i), 0, 3) {
            Some(i) => seq![i as usize] + Self::failing_below(segments, i),
            None => Seq::empty(),
        }
    }

    /// Decodes the record from its 3 fields, parted by `a space`. The fields
    /// are read in order, and the first that fails ends the decoding with its
    /// error and its place; a field for which no segment is left fails for want
    /// of data. Segments beyond the last field are not read.
    pub fn decode_located(text: &str) -> (r: Result<GardenSections, Failure>)
        ensures
            match Self::decode_spec(text@) {
                Ok(v) => r matches Ok(x) && x@ == v,
                Err(e) => r matches Err(f) && f.error == e && f.path@ == Self::failing_path(
                    text@,
                ),
            },
    {
        proof {
            reveal(GardenSections::decode_spec);
            reveal(GardenSections::failing_path);
        }
        let parts = split_text(text, ' ');
        let ghost segments = texts(parts@);
        let ghost failure = |i: int| Self::failure(segments, i);
        proof {
            lemma_next_field(failure, 3, 0);
        }
        let scalars = under(0, GardenScalars::decode_located(at(0, segment(&parts, 0))?))?;
        proof {
            lemma_next_field(failure, 3, 1);
        }
        let unlocked_seeds = at(1, decode_all_flags(at(1, segment(&parts, 1))?))?;
        proof {
            lemma_next_field(failure, 3, 2);
        }
        let farm_grid_data = at(2, decode_plots(at(2, segment(&parts, 2))?))?;
        proof {
            lemma_no_failure(failure, 3);
        }
        Ok(GardenSections { scalars, unlocked_seeds, farm_grid_data })
    }

    /// Decodes the record as `decode_located` does, without the place of a
    /// failure.
    pub fn decode(text: &str) -> (r: Result<GardenSections, Error>)
        ensures
            match Self::decode_spec(text@) {
                Ok(v) => r matches Ok(x) && x@ == v,
                Err(e) => r matches Err(f) && f == e,
            },
    {
        unplaced(Self::decode_located(text))
    }

    /// Encodes the record: the texts of its fields in order, parted by `a
    /// space`.
    pub fn encode(&self) -> (text: String)
        ensures
            text@ == self@.encode_spec(),
    {
        let mut parts: Vec<String> = Vec::new();
        parts.push(self.scalars.encode());
        parts.push(encode_flags(&self.unlocked_seeds));
        parts.push(encode_plots(&self.farm_grid_data));
        proof {
            reveal(GardenSectionsView::encode_spec);
            assert(texts(parts@) =~= self@.segments());
        }
        join_text(&parts, ' ')
    }

    /// Whether `text` decodes to a record whose text it is: the check that a
    /// text is in the form in which the record is written.
    pub fn check_inverse(text: &str) -> (r: Result<bool, Error>)
        ensures
            match Self::decode_spec(text@) {
                Ok(v) => r == Ok::<bool, Error>(v.encode_spec() == text@),
                Err(e) => r == Err::<bool, Error>(e),
            },
    {
        let value = Self::decode(text)?;
        Ok(same_text(value.encode().as_str(), text))
    }

    /// The name of the field at position `i`, the first being at 0.
    pub fn field_name(i: usize) -> (name: Option<&'static str>)
        ensures
            name is Some <==> i < 3,
            i == 0 ==> name == Some("scalars"),
            i == 1 ==> name == Some("unlocked_seeds"),
            i == 2 ==> name == Some("farm_grid_data"),
    {
        if i == 0 {
            Some("scalars")
        } else if i == 1 {
            Some("unlocked_seeds")
        } else if i == 2 {
            Some("farm_grid_data")
        } else {
            None
        }
    }

    /// A text that decodes, cut off at the end of one of its fields before the
    /// last, fails for want of data.
    pub proof fn lemma_truncated(text: Seq<char>, k: int)
        requires
            Self::decode_spec(text) is Ok,
            1 <= k < 3,
        ensures
            Self::decode_spec(join(split(text, ' ').take(k), ' '))
                == Err::<GardenSectionsView, Error>(
                Error::InsufficientData,
            ),
    {
        reveal(GardenSections::decode_spec);
        let segments = split(text, ' ');
        let failure = |i: int| Self::failure(segments, i);
        lemma_all_succeed(failure, 0, 3);
        assert(failure(2) is None);
        lemma_split_truncated(text, ' ', k);
        let kept = segments.take(k);
        let cut = |i: int| Self::failure(kept, i);
        assert forall|j: int| 0 <= j < k implies (#[trigger] cut(j)) is None by {
            assert(failure(j) is None);
            assert(kept[j] == segments[j]);
        }
        lemma_next_field(cut, 3, k);
    }
}

/// The state of the garden.
#[derive(Clone, Debug, PartialEq, Eq)]
pub struct Garden {
    pub time_of_next_tick: Timestamp,
    pub soil_type: usize,
    pub time_of_next_soil_change: Timestamp,
    pub frozen_garden: bool,
    pub harvests_this_ascension: u64,
    pub total_harvests: u64,
    /// For each seed, whether it is unlocked.
    pub unlocked_seeds: Vec<bool>,
    /// The plots of the farm; an empty plot is `None`.
    pub farm_grid_data: Vec<Option<FarmGridData>>,
}

/// The mathematical content of a [`Garden`]: sequences in place of
/// vectors, and counts of milliseconds in place of instants.
pub struct GardenView {
    pub time_of_next_tick: i64,
    pub soil_type: usize,
    pub time_of_next_soil_change: i64,
    pub frozen_garden: bool,
    pub harvests_this_ascension: u64,
    pub total_harvests: u64,
    pub unlocked_seeds: Seq<bool>,
    pub farm_grid_data: Seq<Option<FarmGridData>>,
}

impl View for Garden {
    type V = GardenView;

    open spec fn view(&self) -> GardenView {
        GardenView {
            time_of_next_tick: self.time_of_next_tick@,
            soil_type: self.soil_type,
            time_of_next_soil_change: self.time_of_next_soil_change@,
            frozen_garden: self.frozen_garden,
            harvests_this_ascension: self.harvests_this_ascension,
            total_harvests: self.total_harvests,
            unlocked_seeds: self.unlocked_seeds@,
            farm_grid_data: self.farm_grid_data@,
        }
    }
}

impl GardenView {
    /// The garden as the format lays it out.
    pub open spec fn sections(self) -> GardenSectionsView {
        GardenSectionsView {
            scalars: GardenScalarsView {
                time_of_next_tick: self.time_of_next_tick,
                soil_type: self.soil_type,
                time_of_next_soil_change: self.time_of_next_soil_change,
                frozen_garden: self.frozen_garden,
                harvests_this_ascension: self.harvests_this_ascension,
                total_harvests: self.total_harvests,
            },
            unlocked_seeds: self.unlocked_seeds,
            farm_grid_data: self.farm_grid_data,
        }
    }

    /// Whether the garden is one that decoding can yield: its instants
    /// exist, and no plot holds a plant with the identifier zero.
    pub open spec fn canonical(self) -> bool {
        self.sections().canonical()
    }

    /// The text of the garden: that of its three sections.
    #[verifier::opaque]
    pub open spec fn encode_spec(self) -> Seq<char> {
        self.sections().encode_spec()
    }

    /// Decoding the text of a canonical garden gives the garden; the text
    /// is not empty and holds none of the delimiters of the records around it.
    pub proof fn lemma_round_trip(self)
        requires
            self.canonical(),
        ensures
            Garden::decode_spec(self.encode_spec()) == Ok::<GardenView, Error>(self),
            self.encode_spec().len() > 0,
            free_of(self.encode_spec(), ','),
            free_of(self.encode_spec(), ';'),
            free_of(self.encode_spec(), '|'),
    {
        reveal(Garden::decode_spec);
        reveal(GardenView::encode_spec);
        reveal(GardenSectionsView::encode_spec);
        self.sections().lemma_round_trip();
        let segments = self.sections().segments();
        assert(join(segments, ' ') == segments[0] + seq![' '] + join(segments.drop_first(), ' '));
    }
}

impl Garden {
    /// The garden that three sections make up.
    pub open spec fn of_sections(sections: GardenSectionsView) -> GardenView {
        GardenView {
            time_of_next_tick: sections.scalars.time_of_next_tick,
            soil_type: sections.scalars.soil_type,
            time_of_next_soil_change: sections.scalars.time_of_next_soil_change,
            frozen_garden: sections.scalars.frozen_garden,
            harvests_this_ascension: sections.scalars.harvests_this_ascension,
            total_harvests: sections.scalars.total_harvests,
            unlocked_seeds: sections.unlocked_seeds,
            farm_grid_data: sections.farm_grid_data,
        }
    }

    /// What decoding `text` as a garden gives: the failure of its first
    /// section that fails, or else the garden that the sections make up.
    #[verifier::opaque]
    pub open spec fn decode_spec(text: Seq<char>) -> Result<GardenView, Error> {
        match GardenSections::decode_spec(text) {
            Ok(sections) => Ok(Self::of_sections(sections)),
            Err(e) => Err(e),
        }
    }

    /// Where decoding `text` as a garden fails: the position of the
    /// section, and in the first section that of the field.
    #[verifier::opaque]
    pub open spec fn failing_path(text: Seq<char>) -> Seq<usize> {
        GardenSections::failing_path(text)
    }

    /// Decodes a garden from its three sections, without the place of a
    /// failure.
    pub fn decode(text: &str) -> (r: Result<Garden, Error>)
        ensures
            match Self::decode_spec(text@) {
                Ok(v) => r matches Ok(x) && x@ == v,
                Err(e) => r matches Err(f) && f == e,
            },
    {
        unplaced(Self::decode_located(text))
    }

    /// Decodes a garden from its three sections.
    pub fn decode_located(text: &str) -> (r: Result<Garden, Failure>)
        ensures
            match Self::decode_spec(text@) {
                Ok(v) => r matches Ok(x) && x@ == v,
                Err(e) => r matches Err(f) && f.error == e && f.path@ == Self::failing_path(text@),
            },
    {
        proof {
            reveal(Garden::decode_spec);
            reveal(Garden::failing_path);
        }
        let sections = GardenSections::decode_located(text)?;
        let GardenSections { scalars, unlocked_seeds, farm_grid_data } = sections;
        Ok(
            Garden {
                time_of_next_tick: scalars.time_of_next_tick,
                soil_type: scalars.soil_type,
                time_of_next_soil_change: scalars.time_of_next_soil_change,
                frozen_garden: scalars.frozen_garden,
                harvests_this_ascension: scalars.harvests_this_ascension,
                total_harvests: scalars.total_harvests,
                unlocked_seeds,
                farm_grid_data,
            },
        )
    }

    /// Encodes a garden as its three sections, parted by spaces.
    pub fn encode(&self) -> (text: String)
        ensures
            text@ == self@.encode_spec(),
    {
        let scalars = GardenScalars {
            time_of_next_tick: self.time_of_next_tick,
            soil_type: self.soil_type,
            time_of_next_soil_change: self.time_of_next_soil_change,
            frozen_garden: self.frozen_garden,
            harvests_this_ascension: self.harvests_this_ascension,
            total_harvests: self.total_harvests,
        };
        let mut parts: Vec<String> = Vec::new();
        parts.push(scalars.encode());
        parts.push(encode_flags(&self.unlocked_seeds));
        parts.push(encode_plots(&self.farm_grid_data));
        proof {
            reveal(GardenView::encode_spec);
            reveal(GardenSectionsView::encode_spec);
            assert(texts(parts@) =~= self@.sections().segments());
        }
        join_text(&parts, ' ')
    }

    /// The text of a garden that decodes, cut off at the end of its first
    /// or its second section, fails for want of data.
    pub proof fn lemma_truncated(text: Seq<char>, k: int)
        requires
            Self::decode_spec(text) is Ok,
            1 <= k < 3,
        ensures
            Self::decode_spec(join(split(text, ' ').take(k), ' ')) == Err::<GardenView, Error>(
                Error::InsufficientData,
            ),
    {
        reveal(Garden::decode_spec);
        GardenSections::lemma_truncated(text, k);
    }
}

/// The content of an optional garden.
pub open spec fn optional_garden(value: Option<Garden>) -> Option<GardenView> {
    match value {
        Some(g) => Some(g@),
        None => None,
    }
}

/// What decoding `s` as an optional garden gives: none for the empty text.
#[verifier::opaque]
pub open spec fn decode_optional_garden_spec(s: Seq<char>) -> Result<Option<GardenView>, Error> {
    none_as_empty_spec(s, Garden::decode_spec(s))
}

/// The text of an optional garden: the empty text for none.
#[verifier::opaque]
pub open spec fn encode_optional_garden_spec(value: Option<GardenView>) -> Seq<char> {
    none_as_empty_text(
        value,
        match value {
            Some(g) => g.encode_spec(),
            None => Seq::empty(),
        },
    )
}

/// Where decoding `s` as an optional garden fails.
#[verifier::opaque]
pub open spec fn optional_garden_failing_path(s: Seq<char>) -> Seq<usize> {
    if s.len() == 0 {
        Seq::empty()
    } else {
        Garden::failing_path(s)
    }
}

/// Decodes an optional garden: the empty text is its absence.
pub fn decode_optional_garden_located(text: &str) -> (r: Result<Option<Garden>, Failure>)
    ensures
        match decode_optional_garden_spec(text@) {
            Ok(v) => r matches Ok(x) && optional_garden(x) == v,
            Err(e) => r matches Err(f) && f.error == e && f.path@ == optional_garden_failing_path(
                text@,
            ),
        },
{
    proof {
        reveal(decode_optional_garden_spec);
        reveal(optional_garden_failing_path);
    }
    if text.unicode_len() == 0 {
        Ok(None)
    } else {
        Ok(Some(Garden::decode_located(text)?))
    }
}

/// Decodes an optional garden as `decode_optional_garden_located` does,
/// without the place of a failure.
pub fn decode_optional_garden(text: &str) -> (r: Result<Option<Garden>, Error>)
    ensures
        match decode_optional_garden_spec(text@) {
            Ok(v) => r matches Ok(x) && optional_garden(x) == v,
            Err(e) => r matches Err(f) && f == e,
        },
{
    unplaced(decode_optional_garden_located(text))
}

/// Encodes an optional garden: the garden, or the empty text for its absence.
pub fn encode_optional_garden(value: &Option<Garden>) -> (text: String)
    ensures
        text@ == encode_optional_garden_spec(optional_garden(*value)),
{
    proof {
        reveal(encode_optional_garden_spec);
    }
    match value {
        Some(g) => g.encode(),
        None => String::new(),
    }
}

/// Decoding the text of an optional garden gives it back where the
/// garden, if there is one, is canonical; the text holds none of the
/// delimiters of the records around it.
pub proof fn lemma_optional_garden_round_trip(value: Option<GardenView>)
    requires
        value matches Some(g) ==> g.canonical(),
    ensures
        decode_optional_garden_spec(encode_optional_garden_spec(value)) == Ok::<
            Option<GardenView>,
            Error,
        >(value),
        free_of(encode_optional_garden_spec(value), ','),
        free_of(encode_optional_garden_spec(value), ';'),
        free_of(encode_optional_garden_spec(value), '|'),
{
    reveal(decode_optional_garden_spec);
    reveal(encode_optional_garden_spec);
    match value {
        Some(g) => {
            g.lemma_round_trip();
        },
        None => {},
    }
}

} // verus!
