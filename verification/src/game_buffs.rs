//! The buffs that are active in the game.
//!
//! Each buff is written as its effect, its full time and the time that is
//! left of it, then up to three arguments, all parted by commas; the
//! arguments at the end that a buff does not have are left out. A
//! semicolon ends each buff.

use crate::error::Error;
use crate::number::{Number, NumberView};
use crate::primitive::{
    decimal_digits, decode_u64, decode_u64_spec, decode_usize, decode_usize_spec, encode_u64,
    encode_usize, lemma_u64_round_trip, lemma_usize_round_trip,
};
use crate::record::{
    field_failure, first_failure, lemma_next_field, lemma_no_failure, none_fails, segment,
};
use crate::sentinel::{
    decode_number_or_empty, decode_number_or_empty_spec, decode_optional_string,
    decode_optional_string_spec, decode_usize_or_empty, decode_usize_or_empty_spec,
    encode_number_or_empty, encode_number_or_empty_spec, encode_optional_string,
    encode_optional_string_spec, encode_usize_or_empty, encode_usize_or_empty_spec,
    lemma_number_or_empty_round_trip, lemma_optional_string_free_of,
    lemma_optional_string_round_trip, lemma_usize_or_empty_round_trip, optional_number,
    optional_text,
};
use crate::text::{
    chars_of, free_of, join, join_text, lemma_join_free_of, lemma_join_push, lemma_plain_free_of,
    lemma_split_join, push_range, split, split_text, texts,
};
use vstd::prelude::*;

verus! {

/// A buff that is active.
#[derive(Clone, Debug, PartialEq, Eq)]
pub struct GameBuff {
    pub effect_id: usize,
    pub maximum_time: u64,
    pub time_remaining: u64,
    pub argument1: Option<Number>,
    pub argument2: Option<usize>,
    pub argument3: Option<String>,
}

/// The mathematical content of a [`GameBuff`].
pub struct GameBuffView {
    pub effect_id: usize,
    pub maximum_time: u64,
    pub time_remaining: u64,
    pub argument1: Option<NumberView>,
    pub argument2: Option<usize>,
    pub argument3: Option<Seq<char>>,
}

impl View for GameBuff {
    type V = GameBuffView;

    open spec fn view(&self) -> GameBuffView {
        GameBuffView {
            effect_id: self.effect_id,
            maximum_time: self.maximum_time,
            time_remaining: self.time_remaining,
            argument1: optional_number(self.argument1),
            argument2: self.argument2,
            argument3: optional_text(self.argument3),
        }
    }
}

/// What an argument at segment `i` decodes to, given what decoding that
/// segment gives: nothing where the buff has no such segment.
pub open spec fn argument<T>(segments: Seq<Seq<char>>, i: int, decoded: Result<
    Option<T>,
    Error,
>) -> Result<Option<T>, Error> {
    if i >= segments.len() {
        Ok(None)
    } else {
        decoded
    }
}

/// The failure in a result, if it is one.
pub open spec fn failure_of<T>(r: Result<T, Error>) -> Option<Error> {
    match r {
        Ok(_) => None,
        Err(e) => Some(e),
    }
}

impl GameBuffView {
    /// Whether the buff is one that decoding can yield: its first
    /// argument, if it has one, is canonical, and its third, if it has
    /// one, is not empty and holds no comma, semicolon or bar.
    pub open spec fn canonical(self) -> bool {
        &&& self.argument1 matches Some(n) ==> n.canonical()
        &&& self.argument3 matches Some(s) ==> s.len() > 0 && free_of(s, ',') && free_of(s, ';')
            && free_of(s, '|')
    }

    /// How many segments the buff is written with: three, and the
    /// arguments up to the last that it has.
    pub open spec fn arity(self) -> int {
        if self.argument3 is Some {
            6
        } else if self.argument2 is Some {
            5
        } else if self.argument1 is Some {
            4
        } else {
            3
        }
    }

    /// The texts of the three fields and the three arguments, in order.
    pub open spec fn all_segments(self) -> Seq<Seq<char>> {
        seq![
            decimal_digits(self.effect_id as nat),
            decimal_digits(self.maximum_time as nat),
            decimal_digits(self.time_remaining as nat),
            encode_number_or_empty_spec(self.argument1),
            encode_usize_or_empty_spec(self.argument2),
            encode_optional_string_spec(self.argument3),
        ]
    }

    /// The text of the buff, without the semicolon that ends it.
    #[verifier::opaque]
    pub open spec fn encode_spec(self) -> Seq<char> {
        join(self.all_segments().take(self.arity()), ',')
    }

    /// The texts of the fields and arguments hold no comma, semicolon or
    /// bar, and decode to the fields and arguments.
    proof fn lemma_fields(self)
        requires
            self.canonical(),
        ensures
            forall|i: int| 0 <= i < 6 ==> free_of(#[trigger] self.all_segments()[i], ','),
            forall|i: int| 0 <= i < 6 ==> free_of(#[trigger] self.all_segments()[i], ';'),
            forall|i: int| 0 <= i < 6 ==> free_of(#[trigger] self.all_segments()[i], '|'),
            decode_usize_spec(self.all_segments()[0]) == Ok::<usize, Error>(self.effect_id),
            decode_u64_spec(self.all_segments()[1]) == Ok::<u64, Error>(self.maximum_time),
            decode_u64_spec(self.all_segments()[2]) == Ok::<u64, Error>(self.time_remaining),
            decode_number_or_empty_spec(self.all_segments()[3]) == Ok::<
                Option<NumberView>,
                Error,
            >(self.argument1),
            decode_usize_or_empty_spec(self.all_segments()[4]) == Ok::<Option<usize>, Error>(
                self.argument2,
            ),
            decode_optional_string_spec(self.all_segments()[5]) == Ok::<
                Option<Seq<char>>,
                Error,
            >(self.argument3),
            self.all_segments()[0].len() > 0,
    {
        lemma_usize_round_trip(self.effect_id);
        lemma_u64_round_trip(self.maximum_time);
        lemma_u64_round_trip(self.time_remaining);
        lemma_number_or_empty_round_trip(self.argument1);
        lemma_usize_or_empty_round_trip(self.argument2);
        lemma_optional_string_round_trip(self.argument3);
        lemma_optional_string_free_of(self.argument3, ',');
        lemma_optional_string_free_of(self.argument3, ';');
        lemma_optional_string_free_of(self.argument3, '|');
        crate::primitive::lemma_decimal_digits(self.effect_id as nat);
        let segments = self.all_segments();
        lemma_plain_free_of(segments[0], ',');
        lemma_plain_free_of(segments[1], ',');
        lemma_plain_free_of(segments[2], ',');
        lemma_plain_free_of(segments[3], ',');
        lemma_plain_free_of(segments[4], ',');
        lemma_plain_free_of(segments[0], ';');
        lemma_plain_free_of(segments[1], ';');
        lemma_plain_free_of(segments[2], ';');
        lemma_plain_free_of(segments[3], ';');
        lemma_plain_free_of(segments[4], ';');
        lemma_plain_free_of(segments[0], '|');
        lemma_plain_free_of(segments[1], '|');
        lemma_plain_free_of(segments[2], '|');
        lemma_plain_free_of(segments[3], '|');
        lemma_plain_free_of(segments[4], '|');
    }

    /// Decoding the text of a canonical buff gives the buff; the text is
    /// not empty and holds neither a semicolon nor a bar.
    pub proof fn lemma_round_trip(self)
        requires
            self.canonical(),
        ensures
            GameBuff::decode_spec(self.encode_spec()) == Ok::<GameBuffView, Error>(self),
            self.encode_spec().len() > 0,
            free_of(self.encode_spec(), ';'),
            free_of(self.encode_spec(), '|'),
    {
        reveal(GameBuff::decode_spec);
        reveal(GameBuffView::encode_spec);
        reveal(encode_number_or_empty_spec);
        reveal(encode_usize_or_empty_spec);
        reveal(encode_optional_string_spec);
        reveal(decode_number_or_empty_spec);
        reveal(decode_usize_or_empty_spec);
        reveal(decode_optional_string_spec);
        self.lemma_fields();
        let all = self.all_segments();
        let segments = all.take(self.arity());
        assert forall|i: int| 0 <= i < segments.len() implies free_of(#[trigger] segments[i], ',')
            && free_of(segments[i], ';') && free_of(segments[i], '|') by {
            assert(segments[i] == all[i]);
        }
        lemma_split_join(segments, ',');
        lemma_join_free_of(segments, ',', ';');
        lemma_join_free_of(segments, ',', '|');
        let failure = |i: int| GameBuff::failure(segments, i);
        assert forall|i: int| 0 <= i < 6 implies (#[trigger] failure(i)) is None by {
            if i < segments.len() {
                assert(segments[i] == all[i]);
            }
        }
        lemma_no_failure(failure, 6);
        assert(segments[0] == all[0]);
        assert(segments[1] == all[1]);
        assert(segments[2] == all[2]);
        if self.arity() > 3 {
            assert(segments[3] == all[3]);
        }
        if self.arity() > 4 {
            assert(segments[4] == all[4]);
        }
        if self.arity() > 5 {
            assert(segments[5] == all[5]);
        }
        assert(GameBuff::assemble(segments) == self);
        assert(join(segments, ',') == segments[0] + seq![','] + join(segments.drop_first(), ','));
    }
}

impl GameBuff {
    /// How field or argument `i` fails on the given segments, if it does.
    /// A field that is wanting fails; an argument that is wanting does not.
    pub open spec fn failure(segments: Seq<Seq<char>>, i: int) -> Option<Error> {
        if i == 0 {
            field_failure(segments, i, decode_usize_spec(segments[i]))
        } else if i == 1 || i == 2 {
            field_failure(segments, i, decode_u64_spec(segments[i]))
        } else if i == 3 {
            failure_of(argument(segments, i, decode_number_or_empty_spec(segments[i])))
        } else if i == 4 {
            failure_of(argument(segments, i, decode_usize_or_empty_spec(segments[i])))
        } else {
            failure_of(argument(segments, i, decode_optional_string_spec(segments[i])))
        }
    }

    /// The buff that the segments hold, where nothing fails.
    pub open spec fn assemble(segments: Seq<Seq<char>>) -> GameBuffView {
        GameBuffView {
            effect_id: decode_usize_spec(segments[0])->Ok_0,
            maximum_time: decode_u64_spec(segments[1])->Ok_0,
            time_remaining: decode_u64_spec(segments[2])->Ok_0,
            argument1: argument(segments, 3, decode_number_or_empty_spec(segments[3]))->Ok_0,
            argument2: argument(segments, 4, decode_usize_or_empty_spec(segments[4]))->Ok_0,
            argument3: argument(segments, 5, decode_optional_string_spec(segments[5]))->Ok_0,
        }
    }

    /// What decoding `text` as a buff gives: the failure of the first
    /// field or argument that fails, or else the buff.
    #[verifier::opaque]
    pub open spec fn decode_spec(text: Seq<char>) -> Result<GameBuffView, Error> {
        let segments = split(text, ',');
        match first_failure(|i: int| Self::failure(segments, i), 0, 6) {
            Some(e) => Err(e),
            None => Ok(Self::assemble(segments)),
        }
    }

    /// Decodes a buff from its segments, parted by commas. The three
    /// fields must be there; an argument for which no segment is left, or
    /// whose segment is empty, is absent.
    pub fn decode(text: &str) -> (r: Result<GameBuff, Error>)
        ensures
            match Self::decode_spec(text@) {
                Ok(v) => r matches Ok(x) && x@ == v,
                Err(e) => r matches Err(f) && f == e,
            },
    {
        proof {
            reveal(GameBuff::decode_spec);
        }
        let parts = split_text(text, ',');
        let ghost segments = texts(parts@);
        let ghost failure = |i: int| Self::failure(segments, i);
        proof {
            lemma_next_field(failure, 6, 0);
        }
        let effect_id = decode_usize(segment(&parts, 0)?)?;
        proof {
            lemma_next_field(failure, 6, 1);
        }
        let maximum_time = decode_u64(segment(&parts, 1)?)?;
        proof {
            lemma_next_field(failure, 6, 2);
        }
        let time_remaining = decode_u64(segment(&parts, 2)?)?;
        proof {
            lemma_next_field(failure, 6, 3);
        }
        let argument1 = if parts.len() > 3 {
            decode_number_or_empty(parts[3].as_str())?
        } else {
            None
        };
        proof {
            lemma_next_field(failure, 6, 4);
        }
        let argument2 = if parts.len() > 4 {
            decode_usize_or_empty(parts[4].as_str())?
        } else {
            None
        };
        proof {
            lemma_next_field(failure, 6, 5);
        }
        let argument3 = if parts.len() > 5 {
            decode_optional_string(parts[5].as_str())?
        } else {
            None
        };
        proof {
            lemma_no_failure(failure, 6);
        }
        Ok(GameBuff { effect_id, maximum_time, time_remaining, argument1, argument2, argument3 })
    }

    /// Encodes a buff: its three fields, then its arguments up to the last
    /// that it has, an absent one among them as the empty text, all parted
    /// by commas.
    pub fn encode(&self) -> (text: String)
        ensures
            text@ == self@.encode_spec(),
    {
        let mut parts: Vec<String> = Vec::new();
        parts.push(encode_usize(self.effect_id));
        parts.push(encode_u64(self.maximum_time));
        parts.push(encode_u64(self.time_remaining));
        if self.argument1.is_some() || self.argument2.is_some() || self.argument3.is_some() {
            parts.push(encode_number_or_empty(&self.argument1));
        }
        if self.argument2.is_some() || self.argument3.is_some() {
            parts.push(encode_usize_or_empty(self.argument2));
        }
        if self.argument3.is_some() {
            parts.push(encode_optional_string(&self.argument3));
        }
        proof {
            reveal(GameBuffView::encode_spec);
            assert(texts(parts@) =~= self@.all_segments().take(self@.arity()));
        }
        join_text(&parts, ',')
    }
}

/// The contents of buffs.
pub open spec fn views(buffs: Seq<GameBuff>) -> Seq<GameBuffView> {
    Seq::new(buffs.len(), |i: int| buffs[i]@)
}

/// `s` without the characters `c` at its end.
pub open spec fn trim_end(s: Seq<char>, c: char) -> Seq<char>
    decreases s.len(),
{
    if s.len() > 0 && s.last() == c {
        trim_end(s.drop_last(), c)
    } else {
        s
    }
}

/// How buff `j` of the entries fails, if it does.
pub open spec fn buff_failure(entries: Seq<Seq<char>>, j: int) -> Option<Error> {
    failure_of(GameBuff::decode_spec(entries[j]))
}

/// The buffs that the entries write, where none of them fails.
pub open spec fn buffs_of(entries: Seq<Seq<char>>) -> Seq<GameBuffView> {
    Seq::new(entries.len(), |j: int| GameBuff::decode_spec(entries[j])->Ok_0)
}

/// What decoding `text` as buffs gives. The empty text holds no buff. Of
/// any other text the semicolons at the end are dropped and the rest is
/// cut at its semicolons; the first buff that fails ends the decoding.
#[verifier::opaque]
pub open spec fn decode_game_buffs_spec(text: Seq<char>) -> Result<Seq<GameBuffView>, Error> {
    if text.len() == 0 {
        Ok(Seq::empty())
    } else {
        let entries = split(trim_end(text, ';'), ';');
        match first_failure(|j: int| buff_failure(entries, j), 0, entries.len() as int) {
            Some(e) => Err(e),
            None => Ok(buffs_of(entries)),
        }
    }
}

/// The texts in a row, each with a `c` behind it.
pub open spec fn terminated(texts: Seq<Seq<char>>, c: char) -> Seq<char>
    decreases texts.len(),
{
    if texts.len() == 0 {
        Seq::empty()
    } else {
        terminated(texts.drop_last(), c) + texts.last() + seq![c]
    }
}

/// The texts of buffs.
pub open spec fn buff_texts(buffs: Seq<GameBuffView>) -> Seq<Seq<char>> {
    Seq::new(buffs.len(), |i: int| buffs[i].encode_spec())
}

/// The text of buffs: the text of each with a semicolon behind it.
#[verifier::opaque]
pub open spec fn encode_game_buffs_spec(buffs: Seq<GameBuffView>) -> Seq<char> {
    terminated(buff_texts(buffs), ';')
}

/// Drops the characters `c` at the end of `text`.
pub fn trim_end_text(text: &str, c: char) -> (r: String)
    ensures
        r@ == trim_end(text@, c),
{
    let chars = chars_of(text);
    let mut end: usize = chars.len();
    proof {
        assert(chars@.take(end as int) =~= text@);
    }
    while end > 0 && chars[end - 1] == c
        invariant
            end <= chars.len(),
            chars@ == text@,
            trim_end(text@, c) == trim_end(chars@.take(end as int), c),
        decreases end,
    {
        proof {
            assert(chars@.take(end as int).drop_last() =~= chars@.take(end - 1));
        }
        end -= 1;
    }
    let mut r = String::new();
    push_range(&mut r, &chars, 0, end);
    proof {
        assert(r@ =~= chars@.take(end as int));
    }
    r
}

/// Decodes the buffs that are active.
pub fn decode_game_buffs(text: &str) -> (r: Result<Vec<GameBuff>, Error>)
    ensures
        match decode_game_buffs_spec(text@) {
            Ok(v) => r matches Ok(x) && views(x@) == v,
            Err(e) => r matches Err(f) && f == e,
        },
{
    proof {
        reveal(decode_game_buffs_spec);
    }
    let mut buffs: Vec<GameBuff> = Vec::new();
    if text.unicode_len() == 0 {
        proof {
            assert(views(buffs@) =~= Seq::<GameBuffView>::empty());
        }
        return Ok(buffs);
    }
    let trimmed = trim_end_text(text, ';');
    let parts = split_text(trimmed.as_str(), ';');
    let ghost entries = texts(parts@);
    let ghost failure = |j: int| buff_failure(entries, j);
    let mut j: usize = 0;
    while j < parts.len()
        invariant
            j <= parts.len(),
            buffs.len() == j,
            text@.len() > 0,
            entries == texts(parts@),
            entries == split(trim_end(text@, ';'), ';'),
            failure == (|j: int| buff_failure(entries, j)),
            none_fails(failure, j as int),
            views(buffs@) == buffs_of(entries.take(j as int)),
        decreases parts.len() - j,
    {
        proof {
            reveal(decode_game_buffs_spec);
            lemma_next_field(failure, parts.len() as int, j as int);
        }
        let buff = GameBuff::decode(parts[j].as_str())?;
        let ghost before = views(buffs@);
        buffs.push(buff);
        proof {
            let after = views(buffs@);
            let goal = buffs_of(entries.take(j + 1));
            assert forall|k: int| 0 <= k < after.len() implies after[k] == goal[k] by {
                if k < j {
                    assert(after[k] == before[k]);
                    assert(entries.take(j as int)[k] == entries.take(j + 1)[k]);
                } else {
                    assert(entries.take(j + 1)[k] == entries[j as int]);
                }
            }
            assert(after =~= goal);
        }
        j += 1;
    }
    proof {
        lemma_no_failure(failure, parts.len() as int);
        assert(entries.take(j as int) =~= entries);
    }
    Ok(buffs)
}

/// Encodes the buffs that are active: each with a semicolon behind it.
pub fn encode_game_buffs(buffs: &Vec<GameBuff>) -> (text: String)
    ensures
        text@ == encode_game_buffs_spec(views(buffs@)),
{
    proof {
        reveal(encode_game_buffs_spec);
    }
    let mut text = String::new();
    let mut j: usize = 0;
    while j < buffs.len()
        invariant
            j <= buffs.len(),
            text@ == terminated(buff_texts(views(buffs@)).take(j as int), ';'),
        decreases buffs.len() - j,
    {
        proof {
            let all = buff_texts(views(buffs@));
            assert(all.take(j + 1).drop_last() =~= all.take(j as int));
            assert(all.take(j + 1).last() == buffs@[j as int]@.encode_spec());
        }
        let one = buffs[j].encode();
        text.append(one.as_str());
        text.push(';');
        j += 1;
    }
    proof {
        let all = buff_texts(views(buffs@));
        assert(all.take(j as int) =~= all);
    }
    text
}

/// Texts with a character behind each are the texts joined by that
/// character, with one more behind them.
proof fn lemma_terminated(texts: Seq<Seq<char>>, c: char)
    requires
        texts.len() >= 1,
    ensures
        terminated(texts, c) == join(texts, c) + seq![c],
        join(texts, c) == join(texts.drop_last(), c) + (if texts.len() == 1 {
            Seq::<char>::empty()
        } else {
            seq![c]
        }) + texts.last(),
    decreases texts.len(),
{
    let head = texts.drop_last();
    if texts.len() == 1 {
        assert(terminated(head, c) =~= Seq::<char>::empty());
        assert(join(head, c) =~= Seq::<char>::empty());
        assert(terminated(texts, c) =~= join(texts, c) + seq![c]);
        assert(join(texts, c) =~= join(head, c) + Seq::<char>::empty() + texts.last());
    } else {
        lemma_terminated(head, c);
        lemma_join_push(head, texts.last(), c);
        assert(head.push(texts.last()) =~= texts);
        assert(terminated(texts, c) =~= join(texts, c) + seq![c]);
    }
}

/// Decoding the text of canonical buffs gives the buffs.
pub proof fn lemma_game_buffs_round_trip(buffs: Seq<GameBuffView>)
    requires
        forall|i: int| 0 <= i < buffs.len() ==> (#[trigger] buffs[i]).canonical(),
    ensures
        decode_game_buffs_spec(encode_game_buffs_spec(buffs)) == Ok::<Seq<GameBuffView>, Error>(
            buffs,
        ),
{
    reveal(decode_game_buffs_spec);
    reveal(encode_game_buffs_spec);
    let entries = buff_texts(buffs);
    let text = terminated(entries, ';');
    if buffs.len() == 0 {
        assert(buffs =~= Seq::<GameBuffView>::empty());
    } else {
        lemma_terminated(entries, ';');
        let joined = join(entries, ';');
        let last = entries.last();
        assert forall|i: int| 0 <= i < entries.len() implies free_of(#[trigger] entries[i], ';')
            && GameBuff::decode_spec(entries[i]) == Ok::<GameBuffView, Error>(buffs[i])
            && entries[i].len() > 0 by {
            buffs[i].lemma_round_trip();
        }
        assert(free_of(last, ';'));
        assert(joined.len() > 0 && joined.last() == last.last());
        assert(text.drop_last() =~= joined);
        assert(trim_end(joined, ';') == joined);
        assert(trim_end(text, ';') == joined);
        lemma_split_join(entries, ';');
        let failure = |j: int| buff_failure(entries, j);
        assert forall|j: int| 0 <= j < entries.len() implies (#[trigger] failure(j)) is None by {
            assert(free_of(entries[j], ';'));
        }
        lemma_no_failure(failure, entries.len() as int);
        assert(buffs_of(entries) =~= buffs) by {
            assert forall|j: int| 0 <= j < buffs.len() implies buffs_of(entries)[j] == buffs[j] by {
                assert(free_of(entries[j], ';'));
            }
        }
    }
}

} // verus!
