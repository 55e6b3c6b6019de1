//! The preferences of the player.

use crate::error::Error;
use crate::flags::{
    decode_flags, encode_flags, encode_flags_spec, flag_failure, flags_of,
    lemma_flags_round_trip, lemma_flags_truncated,
};
use crate::record::first_failure;
use crate::text::plain;
use vstd::prelude::*;

verus! {

/// The preferences of the player: twenty-six flags, one character each,
/// with nothing between them.
#[derive(Clone, Copy, Debug, PartialEq, Eq)]
pub struct Preferences {
    pub particles: bool,
    pub numbers: bool,
    pub auto_save: bool,
    pub auto_update: bool,
    pub milk: bool,
    pub faancy_graphics: bool,
    pub closing_warning: bool,
    pub cursors: bool,
    pub defocus: bool,
    pub short_numbers: bool,
    pub fast_notes: bool,
    pub wobbly_cookie: bool,
    pub alt_font: bool,
    pub css_filters: bool,
    pub alt_cookie_sound: bool,
    pub icon_crates: bool,
    pub backup_warning: bool,
    pub extra_buttons: bool,
    pub lump_confirmation: bool,
    pub custom_grandmas: bool,
    pub sleep_mode: bool,
    pub enable_cloud_saving: bool,
    pub music_in_background: bool,
    pub scary_stuff_off: bool,
    pub fullscreen: bool,
    pub screan_reader: bool,
}

impl Preferences {
    /// The flag at place `i` of the format, the first being at place 0.
    #[verifier::opaque]
    pub open spec fn flag(self, i: int) -> bool {
        if i == 0 {
            self.particles
        } else if i == 1 {
            self.numbers
        } else if i == 2 {
            self.auto_save
        } else if i == 3 {
            self.auto_update
        } else if i == 4 {
            self.milk
        } else if i == 5 {
            self.faancy_graphics
        } else if i == 6 {
            self.closing_warning
        } else if i == 7 {
            self.cursors
        } else if i == 8 {
            self.defocus
        } else if i == 9 {
            self.short_numbers
        } else if i == 10 {
            self.fast_notes
        } else if i == 11 {
            self.wobbly_cookie
        } else if i == 12 {
            self.alt_font
        } else if i == 13 {
            self.css_filters
        } else if i == 14 {
            self.alt_cookie_sound
        } else if i == 15 {
            self.icon_crates
        } else if i == 16 {
            self.backup_warning
        } else if i == 17 {
            self.extra_buttons
        } else if i == 18 {
            self.lump_confirmation
        } else if i == 19 {
            self.custom_grandmas
        } else if i == 20 {
            self.sleep_mode
        } else if i == 21 {
            self.enable_cloud_saving
        } else if i == 22 {
            self.music_in_background
        } else if i == 23 {
            self.scary_stuff_off
        } else if i == 24 {
            self.fullscreen
        } else {
            self.screan_reader
        }
    }

    /// The flags in the order of the format.
    pub open spec fn flags(self) -> Seq<bool> {
        Seq::new(26, |i: int| self.flag(i))
    }

    /// The preferences that the first twenty-six characters of `text`
    /// write, where none of them fails.
    pub open spec fn of_text(text: Seq<char>) -> Preferences {
        Preferences {
            particles: text[0] == '1',
            numbers: text[1] == '1',
            auto_save: text[2] == '1',
            auto_update: text[3] == '1',
            milk: text[4] == '1',
            faancy_graphics: text[5] == '1',
            closing_warning: text[6] == '1',
            cursors: text[7] == '1',
            defocus: text[8] == '1',
            short_numbers: text[9] == '1',
            fast_notes: text[10] == '1',
            wobbly_cookie: text[11] == '1',
            alt_font: text[12] == '1',
            css_filters: text[13] == '1',
            alt_cookie_sound: text[14] == '1',
            icon_crates: text[15] == '1',
            backup_warning: text[16] == '1',
            extra_buttons: text[17] == '1',
            lump_confirmation: text[18] == '1',
            custom_grandmas: text[19] == '1',
            sleep_mode: text[20] == '1',
            enable_cloud_saving: text[21] == '1',
            music_in_background: text[22] == '1',
            scary_stuff_off: text[23] == '1',
            fullscreen: text[24] == '1',
            screan_reader: text[25] == '1',
        }
    }

    /// What decoding `text` gives: the failure of the first flag that
    /// fails, or else the preferences.
    #[verifier::opaque]
    pub open spec fn decode_spec(text: Seq<char>) -> Result<Preferences, Error> {
        match first_failure(|i: int| flag_failure(text, i), 0, 26) {
            Some(e) => Err(e),
            None => Ok(Self::of_text(text)),
        }
    }

    /// The text of the preferences: one character for each flag, in order.
    #[verifier::opaque]
    pub open spec fn encode_spec(self) -> Seq<char> {
        encode_flags_spec(self.flags())
    }

    /// The flag at place `i` of the format, the first being at place 0.
    fn flag_at(&self, i: usize) -> (flag: bool)
        requires
            i < 26,
        ensures
            flag == self.flag(i as int),
    {
        proof {
            reveal(Preferences::flag);
        }
        if i == 0 {
            self.particles
        } else if i == 1 {
            self.numbers
        } else if i == 2 {
            self.auto_save
        } else if i == 3 {
            self.auto_update
        } else if i == 4 {
            self.milk
        } else if i == 5 {
            self.faancy_graphics
        } else if i == 6 {
            self.closing_warning
        } else if i == 7 {
            self.cursors
        } else if i == 8 {
            self.defocus
        } else if i == 9 {
            self.short_numbers
        } else if i == 10 {
            self.fast_notes
        } else if i == 11 {
            self.wobbly_cookie
        } else if i == 12 {
            self.alt_font
        } else if i == 13 {
            self.css_filters
        } else if i == 14 {
            self.alt_cookie_sound
        } else if i == 15 {
            self.icon_crates
        } else if i == 16 {
            self.backup_warning
        } else if i == 17 {
            self.extra_buttons
        } else if i == 18 {
            self.lump_confirmation
        } else if i == 19 {
            self.custom_grandmas
        } else if i == 20 {
            self.sleep_mode
        } else if i == 21 {
            self.enable_cloud_saving
        } else if i == 22 {
            self.music_in_background
        } else if i == 23 {
            self.scary_stuff_off
        } else if i == 24 {
            self.fullscreen
        } else {
            self.screan_reader
        }
    }

    /// Decodes the preferences from their twenty-six flags. The flags are
    /// read in order, and the first that fails ends the decoding with its
    /// error; a flag for which no character is left fails for want of
    /// data. Characters beyond the last flag are not read.
    pub fn decode(text: &str) -> (r: Result<Preferences, Error>)
        ensures
            r == Self::decode_spec(text@),
    {
        proof {
            reveal(Preferences::decode_spec);
        }
        let flags = decode_flags(text, 26)?;
        proof {
            assert(flags@ == flags_of(text@, 26));
        }
        Ok(
            Preferences {
                particles: flags[0],
                numbers: flags[1],
                auto_save: flags[2],
                auto_update: flags[3],
                milk: flags[4],
                faancy_graphics: flags[5],
                closing_warning: flags[6],
                cursors: flags[7],
                defocus: flags[8],
                short_numbers: flags[9],
                fast_notes: flags[10],
                wobbly_cookie: flags[11],
                alt_font: flags[12],
                css_filters: flags[13],
                alt_cookie_sound: flags[14],
                icon_crates: flags[15],
                backup_warning: flags[16],
                extra_buttons: flags[17],
                lump_confirmation: flags[18],
                custom_grandmas: flags[19],
                sleep_mode: flags[20],
                enable_cloud_saving: flags[21],
                music_in_background: flags[22],
                scary_stuff_off: flags[23],
                fullscreen: flags[24],
                screan_reader: flags[25],
            },
        )
    }

    /// Encodes the preferences as their twenty-six flags.
    pub fn encode(&self) -> (text: String)
        ensures
            text@ == self.encode_spec(),
    {
        let mut flags: Vec<bool> = Vec::new();
        let mut i: usize = 0;
        while i < 26
            invariant
                i <= 26,
                flags@ == self.flags().take(i as int),
            decreases 26 - i,
        {
            flags.push(self.flag_at(i));
            proof {
                assert(flags@ =~= self.flags().take(i + 1));
            }
            i += 1;
        }
        proof {
            reveal(Preferences::encode_spec);
            assert(self.flags().take(26) =~= self.flags());
        }
        encode_flags(&flags)
    }

    /// Each character of the text of the preferences writes its flag.
    proof fn lemma_text(self)
        ensures
            self.encode_spec()[0] == '1' <==> self.particles,
            self.encode_spec()[1] == '1' <==> self.numbers,
            self.encode_spec()[2] == '1' <==> self.auto_save,
            self.encode_spec()[3] == '1' <==> self.auto_update,
            self.encode_spec()[4] == '1' <==> self.milk,
            self.encode_spec()[5] == '1' <==> self.faancy_graphics,
            self.encode_spec()[6] == '1' <==> self.closing_warning,
            self.encode_spec()[7] == '1' <==> self.cursors,
            self.encode_spec()[8] == '1' <==> self.defocus,
            self.encode_spec()[9] == '1' <==> self.short_numbers,
            self.encode_spec()[10] == '1' <==> self.fast_notes,
            self.encode_spec()[11] == '1' <==> self.wobbly_cookie,
            self.encode_spec()[12] == '1' <==> self.alt_font,
            self.encode_spec()[13] == '1' <==> self.css_filters,
            self.encode_spec()[14] == '1' <==> self.alt_cookie_sound,
            self.encode_spec()[15] == '1' <==> self.icon_crates,
            self.encode_spec()[16] == '1' <==> self.backup_warning,
            self.encode_spec()[17] == '1' <==> self.extra_buttons,
            self.encode_spec()[18] == '1' <==> self.lump_confirmation,
            self.encode_spec()[19] == '1' <==> self.custom_grandmas,
            self.encode_spec()[20] == '1' <==> self.sleep_mode,
            self.encode_spec()[21] == '1' <==> self.enable_cloud_saving,
            self.encode_spec()[22] == '1' <==> self.music_in_background,
            self.encode_spec()[23] == '1' <==> self.scary_stuff_off,
            self.encode_spec()[24] == '1' <==> self.fullscreen,
            self.encode_spec()[25] == '1' <==> self.screan_reader,
    {
        reveal(Preferences::flag);
        reveal(Preferences::encode_spec);
    }

    /// A text whose characters write the flags of the preferences, each
    /// at its place, writes the preferences.
    proof fn lemma_of_text(self, text: Seq<char>)
        requires
            text[0] == '1' <==> self.particles,
            text[1] == '1' <==> self.numbers,
            text[2] == '1' <==> self.auto_save,
            text[3] == '1' <==> self.auto_update,
            text[4] == '1' <==> self.milk,
            text[5] == '1' <==> self.faancy_graphics,
            text[6] == '1' <==> self.closing_warning,
            text[7] == '1' <==> self.cursors,
            text[8] == '1' <==> self.defocus,
            text[9] == '1' <==> self.short_numbers,
            text[10] == '1' <==> self.fast_notes,
            text[11] == '1' <==> self.wobbly_cookie,
            text[12] == '1' <==> self.alt_font,
            text[13] == '1' <==> self.css_filters,
            text[14] == '1' <==> self.alt_cookie_sound,
            text[15] == '1' <==> self.icon_crates,
            text[16] == '1' <==> self.backup_warning,
            text[17] == '1' <==> self.extra_buttons,
            text[18] == '1' <==> self.lump_confirmation,
            text[19] == '1' <==> self.custom_grandmas,
            text[20] == '1' <==> self.sleep_mode,
            text[21] == '1' <==> self.enable_cloud_saving,
            text[22] == '1' <==> self.music_in_background,
            text[23] == '1' <==> self.scary_stuff_off,
            text[24] == '1' <==> self.fullscreen,
            text[25] == '1' <==> self.screan_reader,
        ensures
            Self::of_text(text) == self,
    {
    }

    /// The text of the preferences decodes as twenty-six flags and is plain.
    proof fn lemma_flags(self)
        ensures
            first_failure(|i: int| flag_failure(self.encode_spec(), i), 0, 26) is None,
            plain(self.encode_spec()),
    {
        reveal(Preferences::encode_spec);
        lemma_flags_round_trip(self.flags(), 26);
    }

    /// Decoding the text of the preferences gives the preferences, and the
    /// text is plain.
    pub proof fn lemma_round_trip(self)
        ensures
            Self::decode_spec(self.encode_spec()) == Ok::<Preferences, Error>(self),
            plain(self.encode_spec()),
    {
        reveal(Preferences::decode_spec);
        self.lemma_text();
        self.lemma_of_text(self.encode_spec());
        self.lemma_flags();
    }

    /// A text that decodes, cut off before its last flag, fails for want
    /// of data.
    pub proof fn lemma_truncated(text: Seq<char>, k: int)
        requires
            Self::decode_spec(text) is Ok,
            0 <= k < 26,
        ensures
            Self::decode_spec(text.take(k)) == Err::<Preferences, Error>(Error::InsufficientData),
    {
        reveal(Preferences::decode_spec);
        lemma_flags_truncated(text, 26, k);
    }
}

} // verus!
