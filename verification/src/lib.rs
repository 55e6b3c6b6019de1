//! A codec for the saves of a browser game: from the armoured text that
//! the game exports to a typed record of the player's progress, and back.

pub mod automation;
pub mod building;
pub mod error;
pub mod escape;
pub mod flags;
pub mod game_buffs;
pub mod game_version;
pub mod garden;
pub mod miscellaneous;
pub mod number;
pub mod pairs;
pub mod preferences;
pub mod primitive;
pub mod record;
pub mod run_details;
pub mod save;
pub mod sentinel;
pub mod text;
pub mod timestamp;
pub mod upgrades;

pub use automation::{store_building, Building, Client, LocatorStrategy};
pub use building::{BuildingData, BuildingDataEntry};
pub use error::{Error, Failure};
pub use game_buffs::GameBuff;
pub use game_version::GameVersion;
pub use garden::{FarmGridData, Garden};
pub use miscellaneous::MiscellaneousGameData;
pub use number::Number;
pub use preferences::Preferences;
pub use primitive::Reserved;
pub use run_details::{RunDetails, YouAppearance};
pub use save::{Save, SaveView};
pub use timestamp::Timestamp;
pub use upgrades::Upgrade;
use vstd::prelude::*;

verus! {

/// What decoding the armoured text `raw` as a save gives: the failure of
/// the armour, else that of the first field that fails, else the save.
pub open spec fn decode_spec(raw: Seq<char>) -> Result<SaveView, Error> {
    match escape::decode_spec(raw) {
        Ok(text) => Save::decode_spec(text),
        Err(e) => Err(e),
    }
}

/// The armoured text of a save.
pub open spec fn encode_spec(save: SaveView) -> Seq<char> {
    escape::encode_spec(save.encode_spec())
}

/// Where decoding the armoured text `raw` fails: nowhere for a failure of
/// the armour, and else the place of the field that fails.
pub open spec fn failing_path(raw: Seq<char>) -> Seq<usize> {
    match escape::decode_spec(raw) {
        Ok(text) => Save::failing_path(text),
        Err(_) => Seq::empty(),
    }
}

/// Decodes a save from the armoured text that the game exports; a failure
/// comes with the place of the field that failed.
pub fn decode_located(value: &str) -> (r: Result<Save, Failure>)
    ensures
        match decode_spec(value@) {
            Ok(v) => r matches Ok(save) && save@ == v,
            Err(e) => r matches Err(f) && f.error == e && f.path@ == failing_path(value@),
        },
{
    match escape::decode(value) {
        Ok(text) => Save::decode_located(text.as_str()),
        Err(error) => Err(Failure { error, path: Vec::new() }),
    }
}

/// Decodes a save from the armoured text that the game exports. What
/// comes out depends on the text alone: decoding the same text again
/// gives a save with the same content, or the same failure.
pub fn decode(value: &str) -> (r: Result<Save, Error>)
    ensures
        match decode_spec(value@) {
            Ok(v) => r matches Ok(save) && save@ == v,
            Err(e) => r matches Err(f) && f == e,
        },
{
    record::unplaced(decode_located(value))
}

/// Encodes a save as the armoured text that the game imports. Decoding
/// the text of a save that is canonical gives the save back.
pub fn encode(value: &Save) -> (r: String)
    ensures
        r@ == encode_spec(value@),
        value@.canonical() ==> decode_spec(r@) == Ok::<SaveView, Error>(value@),
{
    let text = value.encode();
    proof {
        if value@.canonical() {
            value@.lemma_round_trip();
        }
    }
    escape::encode(text.as_str())
}

} // verus!
