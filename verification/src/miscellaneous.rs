//! The scalar state of the game, which is neither a building nor an upgrade.

use crate::error::{Error, Failure};
use crate::number::{
    decode_f64, decode_f64_spec, encode_f64, encode_f64_spec, lemma_number_plain,
    lemma_number_round_trip, Number, NumberView,
};
use crate::primitive::{
    decimal_digits, decode_bool, decode_bool_spec, decode_string, decode_string_spec, decode_u64,
    decode_u64_spec, decode_unit, decode_unit_spec, decode_usize, decode_usize_spec, encode_bool,
    encode_bool_spec, encode_string, encode_u64, encode_unit, encode_unit_spec, encode_usize,
    lemma_bool_round_trip, lemma_u64_round_trip, lemma_usize_round_trip, Reserved,
};
use crate::record::{
    at, field_failure, first_failing, first_failure, lemma_all_succeed, lemma_next_field,
    lemma_no_failure, segment, unplaced,
};
use crate::sentinel::{
    decode_optional_string, decode_optional_string_spec, decode_optional_u64,
    decode_optional_u64_spec, decode_optional_usize, decode_optional_usize_spec,
    encode_optional_string, encode_optional_string_spec, encode_optional_u64,
    encode_optional_u64_spec, encode_optional_usize, encode_optional_usize_spec,
    lemma_optional_string_free_of, lemma_optional_string_round_trip,
    lemma_optional_u64_round_trip, lemma_optional_usize_round_trip, optional_text,
};
use crate::text::{
    free_of, join, join_text, lemma_join_free_of, lemma_plain_free_of, lemma_split_join,
    lemma_split_truncated, same_text, split, split_text, texts,
};
use crate::timestamp::{instant_exists, Timestamp};
use vstd::prelude::*;

verus! {

/// The scalar state of the game: counts of cookies and clicks, the states of
/// seasons, research and the dragon, and the rest of what is neither a building
/// nor an upgrade.
#[derive(Clone, Debug, PartialEq, Eq)]
pub struct MiscellaneousGameData {
    pub cookies_in_bank: Number,
    pub cookies_baked: Number,
    pub cookie_clicks: u64,
    pub total_golden_cookie_clicks: u64,
    pub hand_made_cookies: Number,
    pub total_golden_cookies_missed: u64,
    pub background_type: usize,
    pub milk_type: usize,
    pub cookies_forfeited_by_ascending: Number,
    pub grandmapocalypse_stage: usize,
    pub elder_pledges_made: u64,
    pub time_left_in_elder_pledge: u64,
    pub currently_researching: usize,
    pub time_left_in_research: Option<u64>,
    pub ascensions: u64,
    pub golden_cookie_clicks: u64,
    pub cookies_sucked_by_wrinklers: Number,
    pub wrinklers_popped: u64,
    pub santa_level: usize,
    pub reindeer_clicked: u64,
    pub time_left_in_season: Option<u64>,
    pub season_switcher_uses: u64,
    pub current_season: Option<String>,
    pub cookies_contained_in_wrinklers: Number,
    pub number_of_wrinklers: u64,
    pub prestive_level: Number,
    pub heavenly_chips: Number,
    pub heavenly_chips_spent: Number,
    pub heavenly_cookies: String,
    pub ascension_mode: bool,
    pub permanent_upgrade_i: Option<usize>,
    pub permanent_upgrade_ii: Option<usize>,
    pub permanent_upgrade_iii: Option<usize>,
    pub permanent_upgrade_iv: Option<usize>,
    pub permanent_upgrade_v: Option<usize>,
    pub dragon_level: usize,
    pub dragon_aura: usize,
    pub dragon_aura_2: usize,
    pub golden_cookie_chime_type: usize,
    pub volume: u64,
    pub number_of_shiny_wrinklers: u64,
    pub cookies_in_shiny_wrinklers: Number,
    pub sugar_lumps: u64,
    pub total_sugar_lumps_made: u64,
    pub time_of_start_of_sugar_lump: Timestamp,
    pub time_of_last_minigame_refill: Timestamp,
    pub sugar_lump_type: usize,
    pub upgrades_in_vault: String,
    pub heralds: u64,
    /// A reserved place: not read when decoding, empty when encoding.
    pub to_do_0: Reserved,
    /// A reserved place: not read when decoding, empty when encoding.
    pub to_do_1: Reserved,
    /// A reserved place: not read when decoding, empty when encoding.
    pub to_do_2: Reserved,
    pub music_volume: u64,
    pub cookies_sent: Number,
    pub cookies_received: Number,
}

/// The mathematical content of [`MiscellaneousGameData`]: texts in place of
/// strings, and plain values in place of what holds them.
pub struct MiscellaneousGameDataView {
    pub cookies_in_bank: NumberView,
    pub cookies_baked: NumberView,
    pub cookie_clicks: u64,
    pub total_golden_cookie_clicks: u64,
    pub hand_made_cookies: NumberView,
    pub total_golden_cookies_missed: u64,
    pub background_type: usize,
    pub milk_type: usize,
    pub cookies_forfeited_by_ascending: NumberView,
    pub grandmapocalypse_stage: usize,
    pub elder_pledges_made: u64,
    pub time_left_in_elder_pledge: u64,
    pub currently_researching: usize,
    pub time_left_in_research: Option<u64>,
    pub ascensions: u64,
    pub golden_cookie_clicks: u64,
    pub cookies_sucked_by_wrinklers: NumberView,
    pub wrinklers_popped: u64,
    pub santa_level: usize,
    pub reindeer_clicked: u64,
    pub time_left_in_season: Option<u64>,
    pub season_switcher_uses: u64,
    pub current_season: Option<Seq<char>>,
    pub cookies_contained_in_wrinklers: NumberView,
    pub number_of_wrinklers: u64,
    pub prestive_level: NumberView,
    pub heavenly_chips: NumberView,
    pub heavenly_chips_spent: NumberView,
    pub heavenly_cookies: Seq<char>,
    pub ascension_mode: bool,
    pub permanent_upgrade_i: Option<usize>,
    pub permanent_upgrade_ii: Option<usize>,
    pub permanent_upgrade_iii: Option<usize>,
    pub permanent_upgrade_iv: Option<usize>,
    pub permanent_upgrade_v: Option<usize>,
    pub dragon_level: usize,
    pub dragon_aura: usize,
    pub dragon_aura_2: usize,
    pub golden_cookie_chime_type: usize,
    pub volume: u64,
    pub number_of_shiny_wrinklers: u64,
    pub cookies_in_shiny_wrinklers: NumberView,
    pub sugar_lumps: u64,
    pub total_sugar_lumps_made: u64,
    pub time_of_start_of_sugar_lump: i64,
    pub time_of_last_minigame_refill: i64,
    pub sugar_lump_type: usize,
    pub upgrades_in_vault: Seq<char>,
    pub heralds: u64,
    pub to_do_0: Reserved,
    pub to_do_1: Reserved,
    pub to_do_2: Reserved,
    pub music_volume: u64,
    pub cookies_sent: NumberView,
    pub cookies_received: NumberView,
}

impl View for MiscellaneousGameData {
    type V = MiscellaneousGameDataView;

    open spec fn view(&self) -> MiscellaneousGameDataView {
        MiscellaneousGameDataView {
            cookies_in_bank: self.cookies_in_bank@,
            cookies_baked: self.cookies_baked@,
            cookie_clicks: self.cookie_clicks,
            total_golden_cookie_clicks: self.total_golden_cookie_clicks,
            hand_made_cookies: self.hand_made_cookies@,
            total_golden_cookies_missed: self.total_golden_cookies_missed,
            background_type: self.background_type,
            milk_type: self.milk_type,
            cookies_forfeited_by_ascending: self.cookies_forfeited_by_ascending@,
            grandmapocalypse_stage: self.grandmapocalypse_stage,
            elder_pledges_made: self.elder_pledges_made,
            time_left_in_elder_pledge: self.time_left_in_elder_pledge,
            currently_researching: self.currently_researching,
            time_left_in_research: self.time_left_in_research,
            ascensions: self.ascensions,
            golden_cookie_clicks: self.golden_cookie_clicks,
            cookies_sucked_by_wrinklers: self.cookies_sucked_by_wrinklers@,
            wrinklers_popped: self.wrinklers_popped,
            santa_level: self.santa_level,
            reindeer_clicked: self.reindeer_clicked,
            time_left_in_season: self.time_left_in_season,
            season_switcher_uses: self.season_switcher_uses,
            current_season: optional_text(self.current_season),
            cookies_contained_in_wrinklers: self.cookies_contained_in_wrinklers@,
            number_of_wrinklers: self.number_of_wrinklers,
            prestive_level: self.prestive_level@,
            heavenly_chips: self.heavenly_chips@,
            heavenly_chips_spent: self.heavenly_chips_spent@,
            heavenly_cookies: self.heavenly_cookies@,
            ascension_mode: self.ascension_mode,
            permanent_upgrade_i: self.permanent_upgrade_i,
            permanent_upgrade_ii: self.permanent_upgrade_ii,
            permanent_upgrade_iii: self.permanent_upgrade_iii,
            permanent_upgrade_iv: self.permanent_upgrade_iv,
            permanent_upgrade_v: self.permanent_upgrade_v,
            dragon_level: self.dragon_level,
            dragon_aura: self.dragon_aura,
            dragon_aura_2: self.dragon_aura_2,
            golden_cookie_chime_type: self.golden_cookie_chime_type,
            volume: self.volume,
            number_of_shiny_wrinklers: self.number_of_shiny_wrinklers,
            cookies_in_shiny_wrinklers: self.cookies_in_shiny_wrinklers@,
            sugar_lumps: self.sugar_lumps,
            total_sugar_lumps_made: self.total_sugar_lumps_made,
            time_of_start_of_sugar_lump: self.time_of_start_of_sugar_lump@,
            time_of_last_minigame_refill: self.time_of_last_minigame_refill@,
            sugar_lump_type: self.sugar_lump_type,
            upgrades_in_vault: self.upgrades_in_vault@,
            heralds: self.heralds,
            to_do_0: self.to_do_0,
            to_do_1: self.to_do_1,
            to_do_2: self.to_do_2,
            music_volume: self.music_volume,
            cookies_sent: self.cookies_sent@,
            cookies_received: self.cookies_received@,
        }
    }
}

impl MiscellaneousGameDataView {
    /// Whether the record is one that decoding can yield, so that its text
    /// decodes to it again.
    pub open spec fn canonical(self) -> bool {
        &&& self.cookies_in_bank.canonical()
        &&& self.cookies_baked.canonical()
        &&& self.hand_made_cookies.canonical()
        &&& self.cookies_forfeited_by_ascending.canonical()
        &&& (self.time_left_in_research matches Some(n) ==> n <= i64::MAX)
        &&& self.cookies_sucked_by_wrinklers.canonical()
        &&& (self.time_left_in_season matches Some(n) ==> n <= i64::MAX)
        &&& (self.current_season matches Some(s) ==> s.len() > 0 && free_of(s, ';')
            && free_of(s, '|'))
        &&& self.cookies_contained_in_wrinklers.canonical()
        &&& self.prestive_level.canonical()
        &&& self.heavenly_chips.canonical()
        &&& self.heavenly_chips_spent.canonical()
        &&& free_of(self.heavenly_cookies, ';') && free_of(self.heavenly_cookies, '|')
        &&& (self.permanent_upgrade_i matches Some(n) ==> n <= isize::MAX)
        &&& (self.permanent_upgrade_ii matches Some(n) ==> n <= isize::MAX)
        &&& (self.permanent_upgrade_iii matches Some(n) ==> n <= isize::MAX)
        &&& (self.permanent_upgrade_iv matches Some(n) ==> n <= isize::MAX)
        &&& (self.permanent_upgrade_v matches Some(n) ==> n <= isize::MAX)
        &&& self.cookies_in_shiny_wrinklers.canonical()
        &&& instant_exists(self.time_of_start_of_sugar_lump)
        &&& instant_exists(self.time_of_last_minigame_refill)
        &&& free_of(self.upgrades_in_vault, ';') && free_of(self.upgrades_in_vault, '|')
        &&& self.cookies_sent.canonical()
        &&& self.cookies_received.canonical()
    }

    /// The texts of the fields, in order.
    pub open spec fn segments(self) -> Seq<Seq<char>> {
        seq![
            encode_f64_spec(self.cookies_in_bank),
            encode_f64_spec(self.cookies_baked),
            decimal_digits(self.cookie_clicks as nat),
            decimal_digits(self.total_golden_cookie_clicks as nat),
            encode_f64_spec(self.hand_made_cookies),
            decimal_digits(self.total_golden_cookies_missed as nat),
            decimal_digits(self.background_type as nat),
            decimal_digits(self.milk_type as nat),
            encode_f64_spec(self.cookies_forfeited_by_ascending),
            decimal_digits(self.grandmapocalypse_stage as nat),
            decimal_digits(self.elder_pledges_made as nat),
            decimal_digits(self.time_left_in_elder_pledge as nat),
            decimal_digits(self.currently_researching as nat),
            encode_optional_u64_spec(self.time_left_in_research),
            decimal_digits(self.ascensions as nat),
            decimal_digits(self.golden_cookie_clicks as nat),
            encode_f64_spec(self.cookies_sucked_by_wrinklers),
            decimal_digits(self.wrinklers_popped as nat),
            decimal_digits(self.santa_level as nat),
            decimal_digits(self.reindeer_clicked as nat),
            encode_optional_u64_spec(self.time_left_in_season),
            decimal_digits(self.season_switcher_uses as nat),
            encode_optional_string_spec(self.current_season),
            encode_f64_spec(self.cookies_contained_in_wrinklers),
            decimal_digits(self.number_of_wrinklers as nat),
            encode_f64_spec(self.prestive_level),
            encode_f64_spec(self.heavenly_chips),
            encode_f64_spec(self.heavenly_chips_spent),
            self.heavenly_cookies,
            encode_bool_spec(self.ascension_mode),
            encode_optional_usize_spec(self.permanent_upgrade_i),
            encode_optional_usize_spec(self.permanent_upgrade_ii),
            encode_optional_usize_spec(self.permanent_upgrade_iii),
            encode_optional_usize_spec(self.permanent_upgrade_iv),
            encode_optional_usize_spec(self.permanent_upgrade_v),
            decimal_digits(self.dragon_level as nat),
            decimal_digits(self.dragon_aura as nat),
            decimal_digits(self.dragon_aura_2 as nat),
            decimal_digits(self.golden_cookie_chime_type as nat),
            decimal_digits(self.volume as nat),
            decimal_digits(self.number_of_shiny_wrinklers as nat),
            encode_f64_spec(self.cookies_in_shiny_wrinklers),
            decimal_digits(self.sugar_lumps as nat),
            decimal_digits(self.total_sugar_lumps_made as nat),
            Timestamp::encode_spec(self.time_of_start_of_sugar_lump),
            Timestamp::encode_spec(self.time_of_last_minigame_refill),
            decimal_digits(self.sugar_lump_type as nat),
            self.upgrades_in_vault,
            decimal_digits(self.heralds as nat),
            encode_unit_spec(),
            encode_unit_spec(),
            encode_unit_spec(),
            decimal_digits(self.music_volume as nat),
            encode_f64_spec(self.cookies_sent),
            encode_f64_spec(self.cookies_received),
        ]
    }

    /// The text of the record: the texts of its fields, parted by `;`.
    #[verifier::opaque]
    pub open spec fn encode_spec(self) -> Seq<char> {
        join(self.segments(), ';')
    }

    /// What `lemma_round_trip` needs of fields 0 to 7: the text of each holds
    /// neither the delimiter of the record nor those of the records around it,
    /// and decodes to the field.
    proof fn lemma_fields_1(self)
        requires
            self.canonical(),
        ensures
            forall|i: int| 0 <= i < 8 ==> free_of(#[trigger] self.segments()[i], ';'),
            forall|i: int| 0 <= i < 8 ==> free_of(#[trigger] self.segments()[i], '|'),
            forall|i: int| 0 <= i < 8
                ==> (#[trigger] MiscellaneousGameData::failure(self.segments(), i)) is None,
            MiscellaneousGameData::assemble(self.segments()).cookies_in_bank
                == self.cookies_in_bank,
            MiscellaneousGameData::assemble(self.segments()).cookies_baked == self.cookies_baked,
            MiscellaneousGameData::assemble(self.segments()).cookie_clicks == self.cookie_clicks,
            MiscellaneousGameData::assemble(self.segments()).total_golden_cookie_clicks
                == self.total_golden_cookie_clicks,
            MiscellaneousGameData::assemble(self.segments()).hand_made_cookies
                == self.hand_made_cookies,
            MiscellaneousGameData::assemble(self.segments()).total_golden_cookies_missed
                == self.total_golden_cookies_missed,
            MiscellaneousGameData::assemble(self.segments()).background_type
                == self.background_type,
            MiscellaneousGameData::assemble(self.segments()).milk_type == self.milk_type,
    {
        lemma_number_round_trip(self.cookies_in_bank);
        lemma_number_plain(self.cookies_in_bank);
        lemma_number_round_trip(self.cookies_baked);
        lemma_number_plain(self.cookies_baked);
        lemma_u64_round_trip(self.cookie_clicks);
        lemma_u64_round_trip(self.total_golden_cookie_clicks);
        lemma_number_round_trip(self.hand_made_cookies);
        lemma_number_plain(self.hand_made_cookies);
        lemma_u64_round_trip(self.total_golden_cookies_missed);
        lemma_usize_round_trip(self.background_type);
        lemma_usize_round_trip(self.milk_type);
        let segments = self.segments();
        lemma_plain_free_of(segments[0], ';');
        lemma_plain_free_of(segments[0], '|');
        lemma_plain_free_of(segments[1], ';');
        lemma_plain_free_of(segments[1], '|');
        lemma_plain_free_of(segments[2], ';');
        lemma_plain_free_of(segments[2], '|');
        lemma_plain_free_of(segments[3], ';');
        lemma_plain_free_of(segments[3], '|');
        lemma_plain_free_of(segments[4], ';');
        lemma_plain_free_of(segments[4], '|');
        lemma_plain_free_of(segments[5], ';');
        lemma_plain_free_of(segments[5], '|');
        lemma_plain_free_of(segments[6], ';');
        lemma_plain_free_of(segments[6], '|');
        lemma_plain_free_of(segments[7], ';');
        lemma_plain_free_of(segments[7], '|');
        assert forall|i: int| 0 <= i < 8
            implies MiscellaneousGameData::failure(segments, i) is None by {
            assert(i == 0 || i == 1 || i == 2 || i == 3 || i == 4 || i == 5 || i == 6 || i == 7);
        }
    }

    /// What `lemma_round_trip` needs of fields 8 to 15: the text of each holds
    /// neither the delimiter of the record nor those of the records around it,
    /// and decodes to the field.
    proof fn lemma_fields_2(self)
        requires
            self.canonical(),
        ensures
            forall|i: int| 8 <= i < 16 ==> free_of(#[trigger] self.segments()[i], ';'),
            forall|i: int| 8 <= i < 16 ==> free_of(#[trigger] self.segments()[i], '|'),
            forall|i: int| 8 <= i < 16
                ==> (#[trigger] MiscellaneousGameData::failure(self.segments(), i)) is None,
            MiscellaneousGameData::assemble(self.segments()).cookies_forfeited_by_ascending
                == self.cookies_forfeited_by_ascending,
            MiscellaneousGameData::assemble(self.segments()).grandmapocalypse_stage
                == self.grandmapocalypse_stage,
            MiscellaneousGameData::assemble(self.segments()).elder_pledges_made
                == self.elder_pledges_made,
            MiscellaneousGameData::assemble(self.segments()).time_left_in_elder_pledge
                == self.time_left_in_elder_pledge,
            MiscellaneousGameData::assemble(self.segments()).currently_researching
                == self.currently_researching,
            MiscellaneousGameData::assemble(self.segments()).time_left_in_research
                == self.time_left_in_research,
            MiscellaneousGameData::assemble(self.segments()).ascensions == self.ascensions,
            MiscellaneousGameData::assemble(self.segments()).golden_cookie_clicks
                == self.golden_cookie_clicks,
    {
        lemma_number_round_trip(self.cookies_forfeited_by_ascending);
        lemma_number_plain(self.cookies_forfeited_by_ascending);
        lemma_usize_round_trip(self.grandmapocalypse_stage);
        lemma_u64_round_trip(self.elder_pledges_made);
        lemma_u64_round_trip(self.time_left_in_elder_pledge);
        lemma_usize_round_trip(self.currently_researching);
        lemma_optional_u64_round_trip(self.time_left_in_research);
        lemma_u64_round_trip(self.ascensions);
        lemma_u64_round_trip(self.golden_cookie_clicks);
        let segments = self.segments();
        lemma_plain_free_of(segments[8], ';');
        lemma_plain_free_of(segments[8], '|');
        lemma_plain_free_of(segments[9], ';');
        lemma_plain_free_of(segments[9], '|');
        lemma_plain_free_of(segments[10], ';');
        lemma_plain_free_of(segments[10], '|');
        lemma_plain_free_of(segments[11], ';');
        lemma_plain_free_of(segments[11], '|');
        lemma_plain_free_of(segments[12], ';');
        lemma_plain_free_of(segments[12], '|');
        lemma_plain_free_of(segments[13], ';');
        lemma_plain_free_of(segments[13], '|');
        lemma_plain_free_of(segments[14], ';');
        lemma_plain_free_of(segments[14], '|');
        lemma_plain_free_of(segments[15], ';');
        lemma_plain_free_of(segments[15], '|');
        assert forall|i: int| 8 <= i < 16
            implies MiscellaneousGameData::failure(segments, i) is None by {
            assert(i == 8 || i == 9 || i == 10 || i == 11 || i == 12 || i == 13 || i == 14 || i
                == 15);
        }
    }

    /// What `lemma_round_trip` needs of fields 16 to 23: the text of each holds
    /// neither the delimiter of the record nor those of the records around it,
    /// and decodes to the field.
    proof fn lemma_fields_3(self)
        requires
            self.canonical(),
        ensures
            forall|i: int| 16 <= i < 24 ==> free_of(#[trigger] self.segments()[i], ';'),
            forall|i: int| 16 <= i < 24 ==> free_of(#[trigger] self.segments()[i], '|'),
            forall|i: int| 16 <= i < 24
                ==> (#[trigger] MiscellaneousGameData::failure(self.segments(), i)) is None,
            MiscellaneousGameData::assemble(self.segments()).cookies_sucked_by_wrinklers
                == self.cookies_sucked_by_wrinklers,
            MiscellaneousGameData::assemble(self.segments()).wrinklers_popped
                == self.wrinklers_popped,
            MiscellaneousGameData::assemble(self.segments()).santa_level == self.santa_level,
            MiscellaneousGameData::assemble(self.segments()).reindeer_clicked
                == self.reindeer_clicked,
            MiscellaneousGameData::assemble(self.segments()).time_left_in_season
                == self.time_left_in_season,
            MiscellaneousGameData::assemble(self.segments()).season_switcher_uses
                == self.season_switcher_uses,
            MiscellaneousGameData::assemble(self.segments()).current_season == self.current_season,
            MiscellaneousGameData::assemble(self.segments()).cookies_contained_in_wrinklers
                == self.cookies_contained_in_wrinklers,
    {
        lemma_number_round_trip(self.cookies_sucked_by_wrinklers);
        lemma_number_plain(self.cookies_sucked_by_wrinklers);
        lemma_u64_round_trip(self.wrinklers_popped);
        lemma_usize_round_trip(self.santa_level);
        lemma_u64_round_trip(self.reindeer_clicked);
        lemma_optional_u64_round_trip(self.time_left_in_season);
        lemma_u64_round_trip(self.season_switcher_uses);
        lemma_optional_string_round_trip(self.current_season);
        lemma_optional_string_free_of(self.current_season, ';');
        lemma_optional_string_free_of(self.current_season, '|');
        lemma_number_round_trip(self.cookies_contained_in_wrinklers);
        lemma_number_plain(self.cookies_contained_in_wrinklers);
        let segments = self.segments();
        lemma_plain_free_of(segments[16], ';');
        lemma_plain_free_of(segments[16], '|');
        lemma_plain_free_of(segments[17], ';');
        lemma_plain_free_of(segments[17], '|');
        lemma_plain_free_of(segments[18], ';');
        lemma_plain_free_of(segments[18], '|');
        lemma_plain_free_of(segments[19], ';');
        lemma_plain_free_of(segments[19], '|');
        lemma_plain_free_of(segments[20], ';');
        lemma_plain_free_of(segments[20], '|');
        lemma_plain_free_of(segments[21], ';');
        lemma_plain_free_of(segments[21], '|');
        assert(free_of(segments[22], ';'));
        assert(free_of(segments[22], '|'));
        lemma_plain_free_of(segments[23], ';');
        lemma_plain_free_of(segments[23], '|');
        assert forall|i: int| 16 <= i < 24
            implies MiscellaneousGameData::failure(segments, i) is None by {
            assert(i == 16 || i == 17 || i == 18 || i == 19 || i == 20 || i == 21 || i == 22
                || i == 23);
        }
    }

    /// What `lemma_round_trip` needs of fields 24 to 31: the text of each holds
    /// neither the delimiter of the record nor those of the records around it,
    /// and decodes to the field.
    proof fn lemma_fields_4(self)
        requires
            self.canonical(),
        ensures
            forall|i: int| 24 <= i < 32 ==> free_of(#[trigger] self.segments()[i], ';'),
            forall|i: int| 24 <= i < 32 ==> free_of(#[trigger] self.segments()[i], '|'),
            forall|i: int| 24 <= i < 32
                ==> (#[trigger] MiscellaneousGameData::failure(self.segments(), i)) is None,
            MiscellaneousGameData::assemble(self.segments()).number_of_wrinklers
                == self.number_of_wrinklers,
            MiscellaneousGameData::assemble(self.segments()).prestive_level == self.prestive_level,
            MiscellaneousGameData::assemble(self.segments()).heavenly_chips == self.heavenly_chips,
            MiscellaneousGameData::assemble(self.segments()).heavenly_chips_spent
                == self.heavenly_chips_spent,
            MiscellaneousGameData::assemble(self.segments()).heavenly_cookies
                == self.heavenly_cookies,
            MiscellaneousGameData::assemble(self.segments()).ascension_mode == self.ascension_mode,
            MiscellaneousGameData::assemble(self.segments()).permanent_upgrade_i
                == self.permanent_upgrade_i,
            MiscellaneousGameData::assemble(self.segments()).permanent_upgrade_ii
                == self.permanent_upgrade_ii,
    {
        lemma_u64_round_trip(self.number_of_wrinklers);
        lemma_number_round_trip(self.prestive_level);
        lemma_number_plain(self.prestive_level);
        lemma_number_round_trip(self.heavenly_chips);
        lemma_number_plain(self.heavenly_chips);
        lemma_number_round_trip(self.heavenly_chips_spent);
        lemma_number_plain(self.heavenly_chips_spent);
        lemma_bool_round_trip(self.ascension_mode);
        lemma_optional_usize_round_trip(self.permanent_upgrade_i);
        lemma_optional_usize_round_trip(self.permanent_upgrade_ii);
        let segments = self.segments();
        lemma_plain_free_of(segments[24], ';');
        lemma_plain_free_of(segments[24], '|');
        lemma_plain_free_of(segments[25], ';');
        lemma_plain_free_of(segments[25], '|');
        lemma_plain_free_of(segments[26], ';');
        lemma_plain_free_of(segments[26], '|');
        lemma_plain_free_of(segments[27], ';');
        lemma_plain_free_of(segments[27], '|');
        assert(free_of(segments[28], ';'));
        assert(free_of(segments[28], '|'));
        lemma_plain_free_of(segments[29], ';');
        lemma_plain_free_of(segments[29], '|');
        lemma_plain_free_of(segments[30], ';');
        lemma_plain_free_of(segments[30], '|');
        lemma_plain_free_of(segments[31], ';');
        lemma_plain_free_of(segments[31], '|');
        assert forall|i: int| 24 <= i < 32
            implies MiscellaneousGameData::failure(segments, i) is None by {
            assert(i == 24 || i == 25 || i == 26 || i == 27 || i == 28 || i == 29 || i == 30
                || i == 31);
        }
    }

    /// What `lemma_round_trip` needs of fields 32 to 39: the text of each holds
    /// neither the delimiter of the record nor those of the records around it,
    /// and decodes to the field.
    proof fn lemma_fields_5(self)
        requires
            self.canonical(),
        ensures
            forall|i: int| 32 <= i < 40 ==> free_of(#[trigger] self.segments()[i], ';'),
            forall|i: int| 32 <= i < 40 ==> free_of(#[trigger] self.segments()[i], '|'),
            forall|i: int| 32 <= i < 40
                ==> (#[trigger] MiscellaneousGameData::failure(self.segments(), i)) is None,
            MiscellaneousGameData::assemble(self.segments()).permanent_upgrade_iii
                == self.permanent_upgrade_iii,
            MiscellaneousGameData::assemble(self.segments()).permanent_upgrade_iv
                == self.permanent_upgrade_iv,
            MiscellaneousGameData::assemble(self.segments()).permanent_upgrade_v
                == self.permanent_upgrade_v,
            MiscellaneousGameData::assemble(self.segments()).dragon_level == self.dragon_level,
            MiscellaneousGameData::assemble(self.segments()).dragon_aura == self.dragon_aura,
            MiscellaneousGameData::assemble(self.segments()).dragon_aura_2 == self.dragon_aura_2,
            MiscellaneousGameData::assemble(self.segments()).golden_cookie_chime_type
                == self.golden_cookie_chime_type,
            MiscellaneousGameData::assemble(self.segments()).volume == self.volume,
    {
        lemma_optional_usize_round_trip(self.permanent_upgrade_iii);
        lemma_optional_usize_round_trip(self.permanent_upgrade_iv);
        lemma_optional_usize_round_trip(self.permanent_upgrade_v);
        lemma_usize_round_trip(self.dragon_level);
        lemma_usize_round_trip(self.dragon_aura);
        lemma_usize_round_trip(self.dragon_aura_2);
        lemma_usize_round_trip(self.golden_cookie_chime_type);
        lemma_u64_round_trip(self.volume);
        let segments = self.segments();
        lemma_plain_free_of(segments[32], ';');
        lemma_plain_free_of(segments[32], '|');
        lemma_plain_free_of(segments[33], ';');
        lemma_plain_free_of(segments[33], '|');
        lemma_plain_free_of(segments[34], ';');
        lemma_plain_free_of(segments[34], '|');
        lemma_plain_free_of(segments[35], ';');
        lemma_plain_free_of(segments[35], '|');
        lemma_plain_free_of(segments[36], ';');
        lemma_plain_free_of(segments[36], '|');
        lemma_plain_free_of(segments[37], ';');
        lemma_plain_free_of(segments[37], '|');
        lemma_plain_free_of(segments[38], ';');
        lemma_plain_free_of(segments[38], '|');
        lemma_plain_free_of(segments[39], ';');
        lemma_plain_free_of(segments[39], '|');
        assert forall|i: int| 32 <= i < 40
            implies MiscellaneousGameData::failure(segments, i) is None by {
            assert(i == 32 || i == 33 || i == 34 || i == 35 || i == 36 || i == 37 || i == 38
                || i == 39);
        }
    }

    /// What `lemma_round_trip` needs of fields 40 to 47: the text of each holds
    /// neither the delimiter of the record nor those of the records around it,
    /// and decodes to the field.
    proof fn lemma_fields_6(self)
        requires
            self.canonical(),
        ensures
            forall|i: int| 40 <= i < 48 ==> free_of(#[trigger] self.segments()[i], ';'),
            forall|i: int| 40 <= i < 48 ==> free_of(#[trigger] self.segments()[i], '|'),
            forall|i: int| 40 <= i < 48
                ==> (#[trigger] MiscellaneousGameData::failure(self.segments(), i)) is None,
            MiscellaneousGameData::assemble(self.segments()).number_of_shiny_wrinklers
                == self.number_of_shiny_wrinklers,
            MiscellaneousGameData::assemble(self.segments()).cookies_in_shiny_wrinklers
                == self.cookies_in_shiny_wrinklers,
            MiscellaneousGameData::assemble(self.segments()).sugar_lumps == self.sugar_lumps,
            MiscellaneousGameData::assemble(self.segments()).total_sugar_lumps_made
                == self.total_sugar_lumps_made,
            MiscellaneousGameData::assemble(self.segments()).time_of_start_of_sugar_lump
                == self.time_of_start_of_sugar_lump,
            MiscellaneousGameData::assemble(self.segments()).time_of_last_minigame_refill
                == self.time_of_last_minigame_refill,
            MiscellaneousGameData::assemble(self.segments()).sugar_lump_type
                == self.sugar_lump_type,
            MiscellaneousGameData::assemble(self.segments()).upgrades_in_vault
                == self.upgrades_in_vault,
    {
        lemma_u64_round_trip(self.number_of_shiny_wrinklers);
        lemma_number_round_trip(self.cookies_in_shiny_wrinklers);
        lemma_number_plain(self.cookies_in_shiny_wrinklers);
        lemma_u64_round_trip(self.sugar_lumps);
        lemma_u64_round_trip(self.total_sugar_lumps_made);
        Timestamp::lemma_round_trip(self.time_of_start_of_sugar_lump);
        Timestamp::lemma_round_trip(self.time_of_last_minigame_refill);
        lemma_usize_round_trip(self.sugar_lump_type);
        let segments = self.segments();
        lemma_plain_free_of(segments[40], ';');
        lemma_plain_free_of(segments[40], '|');
        lemma_plain_free_of(segments[41], ';');
        lemma_plain_free_of(segments[41], '|');
        lemma_plain_free_of(segments[42], ';');
        lemma_plain_free_of(segments[42], '|');
        lemma_plain_free_of(segments[43], ';');
        lemma_plain_free_of(segments[43], '|');
        lemma_plain_free_of(segments[44], ';');
        lemma_plain_free_of(segments[44], '|');
        lemma_plain_free_of(segments[45], ';');
        lemma_plain_free_of(segments[45], '|');
        lemma_plain_free_of(segments[46], ';');
        lemma_plain_free_of(segments[46], '|');
        assert(free_of(segments[47], ';'));
        assert(free_of(segments[47], '|'));
        assert forall|i: int| 40 <= i < 48
            implies MiscellaneousGameData::failure(segments, i) is None by {
            assert(i == 40 || i == 41 || i == 42 || i == 43 || i == 44 || i == 45 || i == 46
                || i == 47);
        }
    }

    /// What `lemma_round_trip` needs of fields 48 to 54: the text of each holds
    /// neither the delimiter of the record nor those of the records around it,
    /// and decodes to the field.
    proof fn lemma_fields_7(self)
        requires
            self.canonical(),
        ensures
            forall|i: int| 48 <= i < 55 ==> free_of(#[trigger] self.segments()[i], ';'),
            forall|i: int| 48 <= i < 55 ==> free_of(#[trigger] self.segments()[i], '|'),
            forall|i: int| 48 <= i < 55
                ==> (#[trigger] MiscellaneousGameData::failure(self.segments(), i)) is None,
            MiscellaneousGameData::assemble(self.segments()).heralds == self.heralds,
            MiscellaneousGameData::assemble(self.segments()).to_do_0 == self.to_do_0,
            MiscellaneousGameData::assemble(self.segments()).to_do_1 == self.to_do_1,
            MiscellaneousGameData::assemble(self.segments()).to_do_2 == self.to_do_2,
            MiscellaneousGameData::assemble(self.segments()).music_volume == self.music_volume,
            MiscellaneousGameData::assemble(self.segments()).cookies_sent == self.cookies_sent,
            MiscellaneousGameData::assemble(self.segments()).cookies_received
                == self.cookies_received,
    {
        lemma_u64_round_trip(self.heralds);
        lemma_u64_round_trip(self.music_volume);
        lemma_number_round_trip(self.cookies_sent);
        lemma_number_plain(self.cookies_sent);
        lemma_number_round_trip(self.cookies_received);
        lemma_number_plain(self.cookies_received);
        let segments = self.segments();
        lemma_plain_free_of(segments[48], ';');
        lemma_plain_free_of(segments[48], '|');
        lemma_plain_free_of(segments[49], ';');
        lemma_plain_free_of(segments[49], '|');
        lemma_plain_free_of(segments[50], ';');
        lemma_plain_free_of(segments[50], '|');
        lemma_plain_free_of(segments[51], ';');
        lemma_plain_free_of(segments[51], '|');
        lemma_plain_free_of(segments[52], ';');
        lemma_plain_free_of(segments[52], '|');
        lemma_plain_free_of(segments[53], ';');
        lemma_plain_free_of(segments[53], '|');
        lemma_plain_free_of(segments[54], ';');
        lemma_plain_free_of(segments[54], '|');
        assert forall|i: int| 48 <= i < 55
            implies MiscellaneousGameData::failure(segments, i) is None by {
            assert(i == 48 || i == 49 || i == 50 || i == 51 || i == 52 || i == 53 || i == 54);
        }
    }

    /// Decoding the text of a record that is canonical gives the record, and
    /// the text holds none of the delimiters of the records around it.
    pub proof fn lemma_round_trip(self)
        requires
            self.canonical(),
        ensures
            MiscellaneousGameData::decode_spec(self.encode_spec())
                == Ok::<MiscellaneousGameDataView, Error>(self),
            free_of(self.encode_spec(), '|'),
    {
        reveal(MiscellaneousGameData::decode_spec);
        reveal(MiscellaneousGameDataView::encode_spec);
        self.lemma_fields_1();
        self.lemma_fields_2();
        self.lemma_fields_3();
        self.lemma_fields_4();
        self.lemma_fields_5();
        self.lemma_fields_6();
        self.lemma_fields_7();
        let segments = self.segments();
        lemma_split_join(segments, ';');
        lemma_no_failure(|i: int| MiscellaneousGameData::failure(segments, i), 55);
        lemma_join_free_of(segments, ';', '|');
    }

    /// The text of a record that is canonical is one that encoding what it
    /// decodes to gives back.
    pub proof fn lemma_text_round_trip(self)
        requires
            self.canonical(),
        ensures
            MiscellaneousGameData::decode_spec(self.encode_spec()) matches Ok(v) && v.encode_spec()
                == self.encode_spec(),
    {
        self.lemma_round_trip();
    }
}

impl MiscellaneousGameData {
    /// How field `i` fails on the given segments, if it does.
    pub open spec fn failure(segments: Seq<Seq<char>>, i: int) -> Option<Error> {
        if i == 0 || i == 1 || i == 4 || i == 8 || i == 16 || i == 23 || i == 25 || i == 26 || i
            == 27 || i == 41 || i == 53 || i == 54 {
            field_failure(segments, i, decode_f64_spec(segments[i]))
        } else if i == 2 || i == 3 || i == 5 || i == 10 || i == 11 || i == 14 || i == 15 || i
            == 17 || i == 19 || i == 21 || i == 24 || i == 39 || i == 40 || i == 42 || i == 43
            || i == 48 || i == 52 {
            field_failure(segments, i, decode_u64_spec(segments[i]))
        } else if i == 6 || i == 7 || i == 9 || i == 12 || i == 18 || i == 35 || i == 36 || i
            == 37 || i == 38 || i == 46 {
            field_failure(segments, i, decode_usize_spec(segments[i]))
        } else if i == 13 || i == 20 {
            field_failure(segments, i, decode_optional_u64_spec(segments[i]))
        } else if i == 22 {
            field_failure(segments, i, decode_optional_string_spec(segments[i]))
        } else if i == 28 || i == 47 {
            field_failure(segments, i, decode_string_spec(segments[i]))
        } else if i == 29 {
            field_failure(segments, i, decode_bool_spec(segments[i]))
        } else if i == 30 || i == 31 || i == 32 || i == 33 || i == 34 {
            field_failure(segments, i, decode_optional_usize_spec(segments[i]))
        } else if i == 44 || i == 45 {
            field_failure(segments, i, Timestamp::decode_spec(segments[i]))
        } else {
            field_failure(segments, i, decode_unit_spec(segments[i]))
        }
    }

    /// The record that the segments hold, where no field fails.
    pub open spec fn assemble(segments: Seq<Seq<char>>) -> MiscellaneousGameDataView {
        MiscellaneousGameDataView {
            cookies_in_bank: decode_f64_spec(segments[0])->Ok_0,
            cookies_baked: decode_f64_spec(segments[1])->Ok_0,
            cookie_clicks: decode_u64_spec(segments[2])->Ok_0,
            total_golden_cookie_clicks: decode_u64_spec(segments[3])->Ok_0,
            hand_made_cookies: decode_f64_spec(segments[4])->Ok_0,
            total_golden_cookies_missed: decode_u64_spec(segments[5])->Ok_0,
            background_type: decode_usize_spec(segments[6])->Ok_0,
            milk_type: decode_usize_spec(segments[7])->Ok_0,
            cookies_forfeited_by_ascending: decode_f64_spec(segments[8])->Ok_0,
            grandmapocalypse_stage: decode_usize_spec(segments[9])->Ok_0,
            elder_pledges_made: decode_u64_spec(segments[10])->Ok_0,
            time_left_in_elder_pledge: decode_u64_spec(segments[11])->Ok_0,
            currently_researching: decode_usize_spec(segments[12])->Ok_0,
            time_left_in_research: decode_optional_u64_spec(segments[13])->Ok_0,
            ascensions: decode_u64_spec(segments[14])->Ok_0,
            golden_cookie_clicks: decode_u64_spec(segments[15])->Ok_0,
            cookies_sucked_by_wrinklers: decode_f64_spec(segments[16])->Ok_0,
            wrinklers_popped: decode_u64_spec(segments[17])->Ok_0,
            santa_level: decode_usize_spec(segments[18])->Ok_0,
            reindeer_clicked: decode_u64_spec(segments[19])->Ok_0,
            time_left_in_season: decode_optional_u64_spec(segments[20])->Ok_0,
            season_switcher_uses: decode_u64_spec(segments[21])->Ok_0,
            current_season: decode_optional_string_spec(segments[22])->Ok_0,
            cookies_contained_in_wrinklers: decode_f64_spec(segments[23])->Ok_0,
            number_of_wrinklers: decode_u64_spec(segments[24])->Ok_0,
            prestive_level: decode_f64_spec(segments[25])->Ok_0,
            heavenly_chips: decode_f64_spec(segments[26])->Ok_0,
            heavenly_chips_spent: decode_f64_spec(segments[27])->Ok_0,
            heavenly_cookies: decode_string_spec(segments[28])->Ok_0,
            ascension_mode: decode_bool_spec(segments[29])->Ok_0,
            permanent_upgrade_i: decode_optional_usize_spec(segments[30])->Ok_0,
            permanent_upgrade_ii: decode_optional_usize_spec(segments[31])->Ok_0,
            permanent_upgrade_iii: decode_optional_usize_spec(segments[32])->Ok_0,
            permanent_upgrade_iv: decode_optional_usize_spec(segments[33])->Ok_0,
            permanent_upgrade_v: decode_optional_usize_spec(segments[34])->Ok_0,
            dragon_level: decode_usize_spec(segments[35])->Ok_0,
            dragon_aura: decode_usize_spec(segments[36])->Ok_0,
            dragon_aura_2: decode_usize_spec(segments[37])->Ok_0,
            golden_cookie_chime_type: decode_usize_spec(segments[38])->Ok_0,
            volume: decode_u64_spec(segments[39])->Ok_0,
            number_of_shiny_wrinklers: decode_u64_spec(segments[40])->Ok_0,
            cookies_in_shiny_wrinklers: decode_f64_spec(segments[41])->Ok_0,
            sugar_lumps: decode_u64_spec(segments[42])->Ok_0,
            total_sugar_lumps_made: decode_u64_spec(segments[43])->Ok_0,
            time_of_start_of_sugar_lump: Timestamp::decode_spec(segments[44])->Ok_0,
            time_of_last_minigame_refill: Timestamp::decode_spec(segments[45])->Ok_0,
            sugar_lump_type: decode_usize_spec(segments[46])->Ok_0,
            upgrades_in_vault: decode_string_spec(segments[47])->Ok_0,
            heralds: decode_u64_spec(segments[48])->Ok_0,
            to_do_0: Reserved,
            to_do_1: Reserved,
            to_do_2: Reserved,
            music_volume: decode_u64_spec(segments[52])->Ok_0,
            cookies_sent: decode_f64_spec(segments[53])->Ok_0,
            cookies_received: decode_f64_spec(segments[54])->Ok_0,
        }
    }

    /// What decoding `text` gives: the failure of the first field that fails,
    /// or else the record.
    #[verifier::opaque]
    pub open spec fn decode_spec(text: Seq<char>) -> Result<MiscellaneousGameDataView, Error> {
        let segments = split(text, ';');
        match first_failure(|i: int| Self::failure(segments, i), 0, 55) {
            Some(e) => Err(e),
            None => Ok(Self::assemble(segments)),
        }
    }

    /// Where decoding `text` fails: the position of the first field that fails
    /// and, where that field is itself a record, the place of the failure
    /// inside it; nothing where `text` decodes.
    #[verifier::opaque]
    pub open spec fn failing_path(text: Seq<char>) -> Seq<usize> {
        let segments = split(text, ';');
        match first_failing(|i: int| Self::failure(segments, i), 0, 55) {
            Some(i) => seq![i as usize],
            None => Seq::empty(),
        }
    }

    /// Decodes the record from its 55 fields, parted by `;`. The fields are
    /// read in order, and the first that fails ends the decoding with its error
    /// and its place; a field for which no segment is left fails for want of
    /// data. Segments beyond the last field are not read.
    pub fn decode_located(text: &str) -> (r: Result<MiscellaneousGameData, Failure>)
        ensures
            match Self::decode_spec(text@) {
                Ok(v) => r matches Ok(x) && x@ == v,
                Err(e) => r matches Err(f) && f.error == e && f.path@ == Self::failing_path(
                    text@,
                ),
            },
    {
        proof {
            reveal(MiscellaneousGameData::decode_spec);
            reveal(MiscellaneousGameData::failing_path);
        }
        let parts = split_text(text, ';');
        let ghost segments = texts(parts@);
        let ghost failure = |i: int| Self::failure(segments, i);
        proof {
            lemma_next_field(failure, 55, 0);
        }
        let cookies_in_bank = at(0, decode_f64(at(0, segment(&parts, 0))?))?;
        proof {
            lemma_next_field(failure, 55, 1);
        }
        let cookies_baked = at(1, decode_f64(at(1, segment(&parts, 1))?))?;
        proof {
            lemma_next_field(failure, 55, 2);
        }
        let cookie_clicks = at(2, decode_u64(at(2, segment(&parts, 2))?))?;
        proof {
            lemma_next_field(failure, 55, 3);
        }
        let total_golden_cookie_clicks = at(3, decode_u64(at(3, segment(&parts, 3))?))?;
        proof {
            lemma_next_field(failure, 55, 4);
        }
        let hand_made_cookies = at(4, decode_f64(at(4, segment(&parts, 4))?))?;
        proof {
            lemma_next_field(failure, 55, 5);
        }
        let total_golden_cookies_missed = at(5, decode_u64(at(5, segment(&parts, 5))?))?;
        proof {
            lemma_next_field(failure, 55, 6);
        }
        let background_type = at(6, decode_usize(at(6, segment(&parts, 6))?))?;
        proof {
            lemma_next_field(failure, 55, 7);
        }
        let milk_type = at(7, decode_usize(at(7, segment(&parts, 7))?))?;
        proof {
            lemma_next_field(failure, 55, 8);
        }
        let cookies_forfeited_by_ascending = at(8, decode_f64(at(8, segment(&parts, 8))?))?;
        proof {
            lemma_next_field(failure, 55, 9);
        }
        let grandmapocalypse_stage = at(9, decode_usize(at(9, segment(&parts, 9))?))?;
        proof {
            lemma_next_field(failure, 55, 10);
        }
        let elder_pledges_made = at(10, decode_u64(at(10, segment(&parts, 10))?))?;
        proof {
            lemma_next_field(failure, 55, 11);
        }
        let time_left_in_elder_pledge = at(11, decode_u64(at(11, segment(&parts, 11))?))?;
        proof {
            lemma_next_field(failure, 55, 12);
        }
        let currently_researching = at(12, decode_usize(at(12, segment(&parts, 12))?))?;
        proof {
            lemma_next_field(failure, 55, 13);
        }
        let time_left_in_research = at(13, decode_optional_u64(at(13, segment(&parts, 13))?))?;
        proof {
            lemma_next_field(failure, 55, 14);
        }
        let ascensions = at(14, decode_u64(at(14, segment(&parts, 14))?))?;
        proof {
            lemma_next_field(failure, 55, 15);
        }
        let golden_cookie_clicks = at(15, decode_u64(at(15, segment(&parts, 15))?))?;
        proof {
            lemma_next_field(failure, 55, 16);
        }
        let cookies_sucked_by_wrinklers = at(16, decode_f64(at(16, segment(&parts, 16))?))?;
        proof {
            lemma_next_field(failure, 55, 17);
        }
        let wrinklers_popped = at(17, decode_u64(at(17, segment(&parts, 17))?))?;
        proof {
            lemma_next_field(failure, 55, 18);
        }
        let santa_level = at(18, decode_usize(at(18, segment(&parts, 18))?))?;
        proof {
            lemma_next_field(failure, 55, 19);
        }
        let reindeer_clicked = at(19, decode_u64(at(19, segment(&parts, 19))?))?;
        proof {
            lemma_next_field(failure, 55, 20);
        }
        let time_left_in_season = at(20, decode_optional_u64(at(20, segment(&parts, 20))?))?;
        proof {
            lemma_next_field(failure, 55, 21);
        }
        let season_switcher_uses = at(21, decode_u64(at(21, segment(&parts, 21))?))?;
        proof {
            lemma_next_field(failure, 55, 22);
        }
        let current_season = at(22, decode_optional_string(at(22, segment(&parts, 22))?))?;
        proof {
            lemma_next_field(failure, 55, 23);
        }
        let cookies_contained_in_wrinklers = at(23, decode_f64(at(23, segment(&parts, 23))?))?;
        proof {
            lemma_next_field(failure, 55, 24);
        }
        let number_of_wrinklers = at(24, decode_u64(at(24, segment(&parts, 24))?))?;
        proof {
            lemma_next_field(failure, 55, 25);
        }
        let prestive_level = at(25, decode_f64(at(25, segment(&parts, 25))?))?;
        proof {
            lemma_next_field(failure, 55, 26);
        }
        let heavenly_chips = at(26, decode_f64(at(26, segment(&parts, 26))?))?;
        proof {
            lemma_next_field(failure, 55, 27);
        }
        let heavenly_chips_spent = at(27, decode_f64(at(27, segment(&parts, 27))?))?;
        proof {
            lemma_next_field(failure, 55, 28);
        }
        let heavenly_cookies = at(28, decode_string(at(28, segment(&parts, 28))?))?;
        proof {
            lemma_next_field(failure, 55, 29);
        }
        let ascension_mode = at(29, decode_bool(at(29, segment(&parts, 29))?))?;
        proof {
            lemma_next_field(failure, 55, 30);
        }
        let permanent_upgrade_i = at(30, decode_optional_usize(at(30, segment(&parts, 30))?))?;
        proof {
            lemma_next_field(failure, 55, 31);
        }
        let permanent_upgrade_ii = at(31, decode_optional_usize(at(31, segment(&parts, 31))?))?;
        proof {
            lemma_next_field(failure, 55, 32);
        }
        let permanent_upgrade_iii = at(32, decode_optional_usize(at(32, segment(&parts, 32))?))?;
        proof {
            lemma_next_field(failure, 55, 33);
        }
        let permanent_upgrade_iv = at(33, decode_optional_usize(at(33, segment(&parts, 33))?))?;
        proof {
            lemma_next_field(failure, 55, 34);
        }
        let permanent_upgrade_v = at(34, decode_optional_usize(at(34, segment(&parts, 34))?))?;
        proof {
            lemma_next_field(failure, 55, 35);
        }
        let dragon_level = at(35, decode_usize(at(35, segment(&parts, 35))?))?;
        proof {
            lemma_next_field(failure, 55, 36);
        }
        let dragon_aura = at(36, decode_usize(at(36, segment(&parts, 36))?))?;
        proof {
            lemma_next_field(failure, 55, 37);
        }
        let dragon_aura_2 = at(37, decode_usize(at(37, segment(&parts, 37))?))?;
        proof {
            lemma_next_field(failure, 55, 38);
        }
        let golden_cookie_chime_type = at(38, decode_usize(at(38, segment(&parts, 38))?))?;
        proof {
            lemma_next_field(failure, 55, 39);
        }
        let volume = at(39, decode_u64(at(39, segment(&parts, 39))?))?;
        proof {
            lemma_next_field(failure, 55, 40);
        }
        let number_of_shiny_wrinklers = at(40, decode_u64(at(40, segment(&parts, 40))?))?;
        proof {
            lemma_next_field(failure, 55, 41);
        }
        let cookies_in_shiny_wrinklers = at(41, decode_f64(at(41, segment(&parts, 41))?))?;
        proof {
            lemma_next_field(failure, 55, 42);
        }
        let sugar_lumps = at(42, decode_u64(at(42, segment(&parts, 42))?))?;
        proof {
            lemma_next_field(failure, 55, 43);
        }
        let total_sugar_lumps_made = at(43, decode_u64(at(43, segment(&parts, 43))?))?;
        proof {
            lemma_next_field(failure, 55, 44);
        }
        let time_of_start_of_sugar_lump = at(44, Timestamp::decode(at(44, segment(&parts, 44))?))?;
        proof {
            lemma_next_field(failure, 55, 45);
        }
        let time_of_last_minigame_refill = at(45, Timestamp::decode(at(45, segment(&parts, 45))?))?;
        proof {
            lemma_next_field(failure, 55, 46);
        }
        let sugar_lump_type = at(46, decode_usize(at(46, segment(&parts, 46))?))?;
        proof {
            lemma_next_field(failure, 55, 47);
        }
        let upgrades_in_vault = at(47, decode_string(at(47, segment(&parts, 47))?))?;
        proof {
            lemma_next_field(failure, 55, 48);
        }
        let heralds = at(48, decode_u64(at(48, segment(&parts, 48))?))?;
        proof {
            lemma_next_field(failure, 55, 49);
        }
        let to_do_0 = at(49, decode_unit(at(49, segment(&parts, 49))?))?;
        proof {
            lemma_next_field(failure, 55, 50);
        }
        let to_do_1 = at(50, decode_unit(at(50, segment(&parts, 50))?))?;
        proof {
            lemma_next_field(failure, 55, 51);
        }
        let to_do_2 = at(51, decode_unit(at(51, segment(&parts, 51))?))?;
        proof {
            lemma_next_field(failure, 55, 52);
        }
        let music_volume = at(52, decode_u64(at(52, segment(&parts, 52))?))?;
        proof {
            lemma_next_field(failure, 55, 53);
        }
        let cookies_sent = at(53, decode_f64(at(53, segment(&parts, 53))?))?;
        proof {
            lemma_next_field(failure, 55, 54);
        }
        let cookies_received = at(54, decode_f64(at(54, segment(&parts, 54))?))?;
        proof {
            lemma_no_failure(failure, 55);
        }
        Ok(
            MiscellaneousGameData {
                cookies_in_bank,
                cookies_baked,
                cookie_clicks,
                total_golden_cookie_clicks,
                hand_made_cookies,
                total_golden_cookies_missed,
                background_type,
                milk_type,
                cookies_forfeited_by_ascending,
                grandmapocalypse_stage,
                elder_pledges_made,
                time_left_in_elder_pledge,
                currently_researching,
                time_left_in_research,
                ascensions,
                golden_cookie_clicks,
                cookies_sucked_by_wrinklers,
                wrinklers_popped,
                santa_level,
                reindeer_clicked,
                time_left_in_season,
                season_switcher_uses,
                current_season,
                cookies_contained_in_wrinklers,
                number_of_wrinklers,
                prestive_level,
                heavenly_chips,
                heavenly_chips_spent,
                heavenly_cookies,
                ascension_mode,
                permanent_upgrade_i,
                permanent_upgrade_ii,
                permanent_upgrade_iii,
                permanent_upgrade_iv,
                permanent_upgrade_v,
                dragon_level,
                dragon_aura,
                dragon_aura_2,
                golden_cookie_chime_type,
                volume,
                number_of_shiny_wrinklers,
                cookies_in_shiny_wrinklers,
                sugar_lumps,
                total_sugar_lumps_made,
                time_of_start_of_sugar_lump,
                time_of_last_minigame_refill,
                sugar_lump_type,
                upgrades_in_vault,
                heralds,
                to_do_0,
                to_do_1,
                to_do_2,
                music_volume,
                cookies_sent,
                cookies_received,
            },
        )
    }

    /// Decodes the record as `decode_located` does, without the place of a
    /// failure.
    pub fn decode(text: &str) -> (r: Result<MiscellaneousGameData, Error>)
        ensures
            match Self::decode_spec(text@) {
                Ok(v) => r matches Ok(x) && x@ == v,
                Err(e) => r matches Err(f) && f == e,
            },
    {
        unplaced(Self::decode_located(text))
    }

    /// Encodes the record: the texts of its fields in order, parted by `;`.
    pub fn encode(&self) -> (text: String)
        ensures
            text@ == self@.encode_spec(),
    {
        let mut parts: Vec<String> = Vec::new();
        parts.push(encode_f64(&self.cookies_in_bank));
        parts.push(encode_f64(&self.cookies_baked));
        parts.push(encode_u64(self.cookie_clicks));
        parts.push(encode_u64(self.total_golden_cookie_clicks));
        parts.push(encode_f64(&self.hand_made_cookies));
        parts.push(encode_u64(self.total_golden_cookies_missed));
        parts.push(encode_usize(self.background_type));
        parts.push(encode_usize(self.milk_type));
        parts.push(encode_f64(&self.cookies_forfeited_by_ascending));
        parts.push(encode_usize(self.grandmapocalypse_stage));
        parts.push(encode_u64(self.elder_pledges_made));
        parts.push(encode_u64(self.time_left_in_elder_pledge));
        parts.push(encode_usize(self.currently_researching));
        parts.push(encode_optional_u64(self.time_left_in_research));
        parts.push(encode_u64(self.ascensions));
        parts.push(encode_u64(self.golden_cookie_clicks));
        parts.push(encode_f64(&self.cookies_sucked_by_wrinklers));
        parts.push(encode_u64(self.wrinklers_popped));
        parts.push(encode_usize(self.santa_level));
        parts.push(encode_u64(self.reindeer_clicked));
        parts.push(encode_optional_u64(self.time_left_in_season));
        parts.push(encode_u64(self.season_switcher_uses));
        parts.push(encode_optional_string(&self.current_season));
        parts.push(encode_f64(&self.cookies_contained_in_wrinklers));
        parts.push(encode_u64(self.number_of_wrinklers));
        parts.push(encode_f64(&self.prestive_level));
        parts.push(encode_f64(&self.heavenly_chips));
        parts.push(encode_f64(&self.heavenly_chips_spent));
        parts.push(encode_string(&self.heavenly_cookies));
        parts.push(encode_bool(self.ascension_mode));
        parts.push(encode_optional_usize(self.permanent_upgrade_i));
        parts.push(encode_optional_usize(self.permanent_upgrade_ii));
        parts.push(encode_optional_usize(self.permanent_upgrade_iii));
        parts.push(encode_optional_usize(self.permanent_upgrade_iv));
        parts.push(encode_optional_usize(self.permanent_upgrade_v));
        parts.push(encode_usize(self.dragon_level));
        parts.push(encode_usize(self.dragon_aura));
        parts.push(encode_usize(self.dragon_aura_2));
        parts.push(encode_usize(self.golden_cookie_chime_type));
        parts.push(encode_u64(self.volume));
        parts.push(encode_u64(self.number_of_shiny_wrinklers));
        parts.push(encode_f64(&self.cookies_in_shiny_wrinklers));
        parts.push(encode_u64(self.sugar_lumps));
        parts.push(encode_u64(self.total_sugar_lumps_made));
        parts.push(self.time_of_start_of_sugar_lump.encode());
        parts.push(self.time_of_last_minigame_refill.encode());
        parts.push(encode_usize(self.sugar_lump_type));
        parts.push(encode_string(&self.upgrades_in_vault));
        parts.push(encode_u64(self.heralds));
        parts.push(encode_unit());
        parts.push(encode_unit());
        parts.push(encode_unit());
        parts.push(encode_u64(self.music_volume));
        parts.push(encode_f64(&self.cookies_sent));
        parts.push(encode_f64(&self.cookies_received));
        proof {
            reveal(MiscellaneousGameDataView::encode_spec);
            assert(texts(parts@) =~= self@.segments());
        }
        join_text(&parts, ';')
    }

    /// Whether `text` decodes to a record whose text it is: the check that a
    /// text is in the form in which the record is written.
    pub fn check_inverse(text: &str) -> (r: Result<bool, Error>)
        ensures
            match Self::decode_spec(text@) {
                Ok(v) => r == Ok::<bool, Error>(v.encode_spec() == text@),
                Err(e) => r == Err::<bool, Error>(e),
            },
    {
        let value = Self::decode(text)?;
        Ok(same_text(value.encode().as_str(), text))
    }

    /// The name of the field at position `i`, the first being at 0.
    pub fn field_name(i: usize) -> (name: Option<&'static str>)
        ensures
            name is Some <==> i < 55,
            i == 0 ==> name == Some("cookies_in_bank"),
            i == 1 ==> name == Some("cookies_baked"),
            i == 2 ==> name == Some("cookie_clicks"),
            i == 3 ==> name == Some("total_golden_cookie_clicks"),
            i == 4 ==> name == Some("hand_made_cookies"),
            i == 5 ==> name == Some("total_golden_cookies_missed"),
            i == 6 ==> name == Some("background_type"),
            i == 7 ==> name == Some("milk_type"),
            i == 8 ==> name == Some("cookies_forfeited_by_ascending"),
            i == 9 ==> name == Some("grandmapocalypse_stage"),
            i == 10 ==> name == Some("elder_pledges_made"),
            i == 11 ==> name == Some("time_left_in_elder_pledge"),
            i == 12 ==> name == Some("currently_researching"),
            i == 13 ==> name == Some("time_left_in_research"),
            i == 14 ==> name == Some("ascensions"),
            i == 15 ==> name == Some("golden_cookie_clicks"),
            i == 16 ==> name == Some("cookies_sucked_by_wrinklers"),
            i == 17 ==> name == Some("wrinklers_popped"),
            i == 18 ==> name == Some("santa_level"),
            i == 19 ==> name == Some("reindeer_clicked"),
            i == 20 ==> name == Some("time_left_in_season"),
            i == 21 ==> name == Some("season_switcher_uses"),
            i == 22 ==> name == Some("current_season"),
            i == 23 ==> name == Some("cookies_contained_in_wrinklers"),
            i == 24 ==> name == Some("number_of_wrinklers"),
            i == 25 ==> name == Some("prestive_level"),
            i == 26 ==> name == Some("heavenly_chips"),
            i == 27 ==> name == Some("heavenly_chips_spent"),
            i == 28 ==> name == Some("heavenly_cookies"),
            i == 29 ==> name == Some("ascension_mode"),
            i == 30 ==> name == Some("permanent_upgrade_i"),
            i == 31 ==> name == Some("permanent_upgrade_ii"),
            i == 32 ==> name == Some("permanent_upgrade_iii"),
            i == 33 ==> name == Some("permanent_upgrade_iv"),
            i == 34 ==> name == Some("permanent_upgrade_v"),
            i == 35 ==> name == Some("dragon_level"),
            i == 36 ==> name == Some("dragon_aura"),
            i == 37 ==> name == Some("dragon_aura_2"),
            i == 38 ==> name == Some("golden_cookie_chime_type"),
            i == 39 ==> name == Some("volume"),
            i == 40 ==> name == Some("number_of_shiny_wrinklers"),
            i == 41 ==> name == Some("cookies_in_shiny_wrinklers"),
            i == 42 ==> name == Some("sugar_lumps"),
            i == 43 ==> name == Some("total_sugar_lumps_made"),
            i == 44 ==> name == Some("time_of_start_of_sugar_lump"),
            i == 45 ==> name == Some("time_of_last_minigame_refill"),
            i == 46 ==> name == Some("sugar_lump_type"),
            i == 47 ==> name == Some("upgrades_in_vault"),
            i == 48 ==> name == Some("heralds"),
            i == 49 ==> name == Some("to_do_0"),
            i == 50 ==> name == Some("to_do_1"),
            i == 51 ==> name == Some("to_do_2"),
            i == 52 ==> name == Some("music_volume"),
            i == 53 ==> name == Some("cookies_sent"),
            i == 54 ==> name == Some("cookies_received"),
    {
        if i == 0 {
            Some("cookies_in_bank")
        } else if i == 1 {
            Some("cookies_baked")
        } else if i == 2 {
            Some("cookie_clicks")
        } else if i == 3 {
            Some("total_golden_cookie_clicks")
        } else if i == 4 {
            Some("hand_made_cookies")
        } else if i == 5 {
            Some("total_golden_cookies_missed")
        } else if i == 6 {
            Some("background_type")
        } else if i == 7 {
            Some("milk_type")
        } else if i == 8 {
            Some("cookies_forfeited_by_ascending")
        } else if i == 9 {
            Some("grandmapocalypse_stage")
        } else if i == 10 {
            Some("elder_pledges_made")
        } else if i == 11 {
            Some("time_left_in_elder_pledge")
        } else if i == 12 {
            Some("currently_researching")
        } else if i == 13 {
            Some("time_left_in_research")
        } else if i == 14 {
            Some("ascensions")
        } else if i == 15 {
            Some("golden_cookie_clicks")
        } else if i == 16 {
            Some("cookies_sucked_by_wrinklers")
        } else if i == 17 {
            Some("wrinklers_popped")
        } else if i == 18 {
            Some("santa_level")
        } else if i == 19 {
            Some("reindeer_clicked")
        } else if i == 20 {
            Some("time_left_in_season")
        } else if i == 21 {
            Some("season_switcher_uses")
        } else if i == 22 {
            Some("current_season")
        } else if i == 23 {
            Some("cookies_contained_in_wrinklers")
        } else if i == 24 {
            Some("number_of_wrinklers")
        } else if i == 25 {
            Some("prestive_level")
        } else if i == 26 {
            Some("heavenly_chips")
        } else if i == 27 {
            Some("heavenly_chips_spent")
        } else if i == 28 {
            Some("heavenly_cookies")
        } else if i == 29 {
            Some("ascension_mode")
        } else if i == 30 {
            Some("permanent_upgrade_i")
        } else if i == 31 {
            Some("permanent_upgrade_ii")
        } else if i == 32 {
            Some("permanent_upgrade_iii")
        } else if i == 33 {
            Some("permanent_upgrade_iv")
        } else if i == 34 {
            Some("permanent_upgrade_v")
        } else if i == 35 {
            Some("dragon_level")
        } else if i == 36 {
            Some("dragon_aura")
        } else if i == 37 {
            Some("dragon_aura_2")
        } else if i == 38 {
            Some("golden_cookie_chime_type")
        } else if i == 39 {
            Some("volume")
        } else if i == 40 {
            Some("number_of_shiny_wrinklers")
        } else if i == 41 {
            Some("cookies_in_shiny_wrinklers")
        } else if i == 42 {
            Some("sugar_lumps")
        } else if i == 43 {
            Some("total_sugar_lumps_made")
        } else if i == 44 {
            Some("time_of_start_of_sugar_lump")
        } else if i == 45 {
            Some("time_of_last_minigame_refill")
        } else if i == 46 {
            Some("sugar_lump_type")
        } else if i == 47 {
            Some("upgrades_in_vault")
        } else if i == 48 {
            Some("heralds")
        } else if i == 49 {
            Some("to_do_0")
        } else if i == 50 {
            Some("to_do_1")
        } else if i == 51 {
            Some("to_do_2")
        } else if i == 52 {
            Some("music_volume")
        } else if i == 53 {
            Some("cookies_sent")
        } else if i == 54 {
            Some("cookies_received")
        } else {
            None
        }
    }

    /// A text that decodes, cut off at the end of one of its fields before the
    /// last, fails for want of data.
    pub proof fn lemma_truncated(text: Seq<char>, k: int)
        requires
            Self::decode_spec(text) is Ok,
            1 <= k < 55,
        ensures
            Self::decode_spec(join(split(text, ';').take(k), ';'))
                == Err::<MiscellaneousGameDataView, Error>(
                Error::InsufficientData,
            ),
    {
        reveal(MiscellaneousGameData::decode_spec);
        let segments = split(text, ';');
        let failure = |i: int| Self::failure(segments, i);
        lemma_all_succeed(failure, 0, 55);
        assert(failure(54) is None);
        lemma_split_truncated(text, ';', k);
        let kept = segments.take(k);
        let cut = |i: int| Self::failure(kept, i);
        assert forall|j: int| 0 <= j < k implies (#[trigger] cut(j)) is None by {
            assert(failure(j) is None);
            assert(kept[j] == segments[j]);
        }
        lemma_next_field(cut, 55, k);
    }
}
} // verus!
