use cookieclicker_save::building::{decode_entry, decode_farm_entry, encode_entry, BuildingData, BuildingDataEntry};
use cookieclicker_save::error::Error;
use cookieclicker_save::escape;
use cookieclicker_save::game_version::GameVersion;
use cookieclicker_save::garden::Garden;
use cookieclicker_save::miscellaneous::MiscellaneousGameData;
use cookieclicker_save::number::Number;
use cookieclicker_save::preferences::Preferences;
use cookieclicker_save::primitive::Reserved;
use cookieclicker_save::run_details::{RunDetails, YouAppearance};
use cookieclicker_save::save::Save;
use cookieclicker_save::{decode, encode};

const RUN_DETAILS: &str = "1715000000000;1714000000000;1716000000000;Sleepy Bumblebee, the 2nd;abcde;1,2,3,4,5,6,7";
const PREFERENCES: &str = "11111011001010010111010110";
const GARDEN: &str = "1715000000000:2:1715000600000:0:5:10 1011 1:5:0:0:3:7";
const UPGRADES: &str = "11100100";

fn miscellaneous() -> String {
    [
        "1234567.5", "3.1622776601683794e+21", "1000", "77", "12345", "3", "1", "2", "1e+21", "0", "4", "5",
        "6", "-1", "2", "70", "0.000001", "8", "14", "9", "1800", "3", "christmas", "1.5e-7", "10",
        "1000000000000000100", "17", "17.2", "heavenly", "0", "-1", "12", "-1", "345", "-1", "5", "1", "2",
        "0", "75", "1", "0", "100", "120", "1715000000000", "1715000000001", "0", "", "41", "", "", "", "50",
        "0", "2.5",
    ]
    .join(";")
}

fn buildings() -> String {
    let mut entries = Vec::new();
    for i in 0..20 {
        if i == 2 {
            entries.push(format!("30,31,5000.25,1,{},0,32", GARDEN));
        } else {
            entries.push(format!("{},{},{}.5,{},,{},{}", i + 10, i + 11, i * 1000, i % 3, i % 2, i + 12));
        }
    }
    entries.join(";")
}

fn sample() -> String {
    ["2.052", "", RUN_DETAILS, PREFERENCES, &miscellaneous(), &buildings(), UPGRADES].join("|")
}

#[test]
fn test_save() {
    let value = escape::decode(&escape::encode(&sample())).unwrap();
    assert!(Save::check_inverse(&value).unwrap());
}

#[test]
fn tests_test() {
    let value = escape::decode(&escape::encode(&sample())).unwrap();
    assert_eq!(Save::decode(&value).unwrap().encode(), value,);
}

#[test]
fn whole_round_trip() {
    let raw = escape::encode(&sample());
    let save = decode(&raw).unwrap();
    assert_eq!(encode(&save), raw);
    assert_eq!(decode(&encode(&save)), Ok(save.clone()));
    assert_eq!(decode(&raw), decode(&raw));
}

#[test]
fn decoded_fields() {
    let save = Save::decode(&sample()).unwrap();
    assert_eq!(save.game_version.game_version, "2.052");
    assert_eq!(save.empty, Reserved);
    assert_eq!(save.run_details.ascension_start.millis(), 1715000000000);
    assert_eq!(save.run_details.bakery_name, "Sleepy Bumblebee, the 2nd");
    assert_eq!(save.run_details.seed, "abcde");
    assert_eq!(
        save.run_details.you_appearance,
        YouAppearance { hair: 1, hair_color: 2, skin_color: 3, head_shape: 4, face: 5, extra_a: 6, extra_b: 7 }
    );
    assert!(save.preferences.particles);
    assert!(!save.preferences.faancy_graphics);
    assert!(!save.preferences.screan_reader);
    let misc = &save.miscellaneous_game_data;
    assert_eq!(misc.cookies_in_bank, Number::Finite { negative: false, digits: "12345675".to_string(), exponent: 6 });
    assert_eq!(misc.cookie_clicks, 1000);
    assert_eq!(misc.time_left_in_research, None);
    assert_eq!(misc.time_left_in_season, Some(1800));
    assert_eq!(misc.current_season, Some("christmas".to_string()));
    assert_eq!(misc.heavenly_cookies, "heavenly");
    assert!(!misc.ascension_mode);
    assert_eq!(misc.permanent_upgrade_i, None);
    assert_eq!(misc.permanent_upgrade_ii, Some(12));
    assert_eq!(misc.upgrades_in_vault, "");
    assert_eq!(misc.heralds, 41);
    assert_eq!(misc.music_volume, 50);
    assert_eq!(save.building_data.cursors.amount_owned, 10);
    assert_eq!(save.building_data.cursors.minigame_data, None);
    assert_eq!(save.building_data.farms.minigame_data, Some(Garden::decode(GARDEN).unwrap()));
    assert_eq!(save.building_data.yous.highest_amount, 31);
    assert!(save.building_data.grandmas.muted);
    assert_eq!(save.upgrades.len(), 4);
    assert!(save.upgrades[1].unlocked && !save.upgrades[1].bought);
}

#[test]
fn records_round_trip() {
    assert_eq!(GameVersion::decode("2.052").unwrap().encode(), "2.052");
    assert_eq!(RunDetails::decode(RUN_DETAILS).unwrap().encode(), RUN_DETAILS);
    assert_eq!(YouAppearance::decode("1,2,3,4,5,6,7").unwrap().encode(), "1,2,3,4,5,6,7");
    assert_eq!(Preferences::decode(PREFERENCES).unwrap().encode(), PREFERENCES);
    assert_eq!(MiscellaneousGameData::decode(&miscellaneous()).unwrap().encode(), miscellaneous());
    assert_eq!(BuildingData::decode(&buildings()).unwrap().encode(), buildings());
    assert_eq!(decode_entry("1,2,3.5,4,,0,5").map(|e| encode_entry(&e)), Ok("1,2,3.5,4,,0,5".to_string()));
}

#[test]
fn what_follows_the_last_field_is_not_read() {
    assert_eq!(GameVersion::decode("2.052;x;y").unwrap().encode(), "2.052");
    assert_eq!(YouAppearance::decode("1,2,3,4,5,6,7,8,9").unwrap().encode(), "1,2,3,4,5,6,7");
    assert_eq!(Preferences::decode(&format!("{}0101", PREFERENCES)).unwrap().encode(), PREFERENCES);
    let longer = format!("{}|1010|;;|", sample());
    assert_eq!(Save::decode(&longer).unwrap().encode(), sample());
}

#[test]
fn the_minigame_of_other_buildings_is_not_kept() {
    let entry: BuildingDataEntry = decode_entry("1,2,3,4,some payload,1,5").unwrap();
    assert_eq!(entry.minigame_data, Some(Reserved));
    assert_eq!(encode_entry(&entry), "1,2,3,4,,1,5");
    let farm = decode_farm_entry(&format!("1,2,3,4,{},1,5", GARDEN)).unwrap();
    assert_eq!(farm.minigame_data, Some(Garden::decode(GARDEN).unwrap()));
    assert_eq!(decode_farm_entry("1,2,3,4,,1,5").unwrap().minigame_data, None);
    assert_eq!(decode_farm_entry("1,2,3,4,x,1,5"), Err(Error::Int));
}

#[test]
fn insufficient_data() {
    let text = sample();
    let sections: Vec<&str> = text.split('|').collect();
    for k in 1..7 {
        assert_eq!(Save::decode(&sections[..k].join("|")), Err(Error::InsufficientData), "{}", k);
    }
    let fields: Vec<&str> = RUN_DETAILS.split(';').collect();
    for k in 1..6 {
        assert_eq!(RunDetails::decode(&fields[..k].join(";")), Err(Error::InsufficientData), "{}", k);
    }
    let misc = miscellaneous();
    let fields: Vec<&str> = misc.split(';').collect();
    for k in 1..55 {
        assert_eq!(
            MiscellaneousGameData::decode(&fields[..k].join(";")),
            Err(Error::InsufficientData),
            "{}",
            k
        );
    }
    let all = buildings();
    let entries: Vec<&str> = all.split(';').collect();
    for k in 1..20 {
        assert_eq!(BuildingData::decode(&entries[..k].join(";")), Err(Error::InsufficientData), "{}", k);
    }
    for k in 1..7 {
        let fields = ["1", "2", "3", "4", "5", "6", "7"];
        assert_eq!(YouAppearance::decode(&fields[..k].join(",")), Err(Error::InsufficientData));
        let fields = ["1", "2", "3.5", "4", "", "0", "5"];
        assert_eq!(decode_entry(&fields[..k].join(",")), Err(Error::InsufficientData));
    }
    for k in 0..26 {
        assert_eq!(Preferences::decode(&PREFERENCES[..k]), Err(Error::InsufficientData), "{}", k);
    }
}

#[test]
fn the_first_field_that_fails_decides() {
    assert_eq!(YouAppearance::decode("1,x"), Err(Error::Int));
    assert_eq!(YouAppearance::decode("1,2,3,4,5,6,-7"), Err(Error::Int));
    assert_eq!(RunDetails::decode("1;2;9223372036854775807;a;b"), Err(Error::TimestampOutOfRange));
    assert_eq!(RunDetails::decode("1;2;3;a;b;1,2,3"), Err(Error::InsufficientData));
    assert_eq!(Preferences::decode("112"), Err(Error::Bool));
    assert_eq!(MiscellaneousGameData::decode("1.5;x"), Err(Error::Float));
    assert_eq!(MiscellaneousGameData::decode("1.5;2.5;x"), Err(Error::Int));
    assert_eq!(MiscellaneousGameData::decode(""), Err(Error::Float));
    assert_eq!(Save::decode("2.052||x"), Err(Error::Int));
    assert_eq!(Save::decode(""), Err(Error::InsufficientData));
    assert_eq!(decode("%FF"), Err(Error::Utf8));
    assert_eq!(decode("!"), Err(Error::Base64));
    assert_eq!(decode(&escape::encode("2.052")), Err(Error::InsufficientData));
}

#[test]
fn error_messages() {
    assert_eq!(Error::Bool.message(), "must be \"0\" or \"1\"");
    assert_eq!(Error::InsufficientData.message(), "insufficient data");
    assert_eq!(Error::TimestampOutOfRange.message(), "timestamp out of range");
    for e in [Error::Base64, Error::Float, Error::Int, Error::Utf8] {
        assert!(!e.message().is_empty());
    }
}
