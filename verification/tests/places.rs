use cookieclicker_save::building::{decode_entry_located, decode_farm_entry_located, BuildingData};
use cookieclicker_save::error::{Error, Failure};
use cookieclicker_save::escape;
use cookieclicker_save::garden::{Garden, GardenScalars};
use cookieclicker_save::miscellaneous::MiscellaneousGameData;
use cookieclicker_save::number;
use cookieclicker_save::run_details::{RunDetails, YouAppearance};
use cookieclicker_save::save::Save;
use cookieclicker_save::{decode, decode_located};

fn failure(error: Error, path: &[usize]) -> Failure {
    Failure { error, path: path.to_vec() }
}

#[test]
fn the_place_of_a_failure_in_a_record() {
    assert_eq!(YouAppearance::decode_located("1,2,x"), Err(failure(Error::Int, &[2])));
    assert_eq!(YouAppearance::decode_located("1,2"), Err(failure(Error::InsufficientData, &[2])));
    assert_eq!(YouAppearance::decode_located(""), Err(failure(Error::Int, &[0])));
    assert!(YouAppearance::decode_located("1,2,3,4,5,6,7").is_ok());
    assert_eq!(MiscellaneousGameData::decode_located("1.5;2.5;x"), Err(failure(Error::Int, &[2])));
    assert_eq!(
        MiscellaneousGameData::decode_located("1.5;2.5;3;4;5e"),
        Err(failure(Error::Float, &[4]))
    );
}

#[test]
fn the_place_of_a_failure_in_a_nested_record() {
    assert_eq!(RunDetails::decode_located("1;2;3;a;b;1,2,x"), Err(failure(Error::Int, &[5, 2])));
    assert_eq!(
        RunDetails::decode_located("1;2;3;a;b;1,2,3"),
        Err(failure(Error::InsufficientData, &[5, 3]))
    );
    assert_eq!(RunDetails::decode_located("1;2;3;a;b"), Err(failure(Error::InsufficientData, &[5])));
    assert_eq!(
        RunDetails::decode_located("1;9223372036854775807"),
        Err(failure(Error::TimestampOutOfRange, &[1]))
    );
    assert_eq!(decode_entry_located("1,2,3,4,,2,5"), Err(failure(Error::Bool, &[5])));
    assert_eq!(
        decode_farm_entry_located("1,2,3,4,1:2:3:0:5:x 1 1:1,0,5"),
        Err(failure(Error::Int, &[4, 0, 5]))
    );
    assert_eq!(
        decode_farm_entry_located("1,2,3,4,1:2:3:0:5:6 12 1:1,0,5"),
        Err(failure(Error::Bool, &[4, 1]))
    );
    assert_eq!(
        Garden::decode_located("1:2:3:0:5:6 1 1:x"),
        Err(failure(Error::Int, &[2]))
    );
    assert_eq!(
        BuildingData::decode_located("1,2,3,4,,0,5;1,2,3,4,,0"),
        Err(failure(Error::InsufficientData, &[1, 6]))
    );
}

#[test]
fn the_place_of_a_failure_in_a_save() {
    assert_eq!(Save::decode_located("2.052||1;2;x"), Err(failure(Error::Int, &[2, 2])));
    assert_eq!(Save::decode_located("2.052"), Err(failure(Error::InsufficientData, &[1])));
    let raw = escape::encode("2.052||1;2;3;a;b;1,2,3,4,5,6,7|1111");
    assert_eq!(decode_located(&raw), Err(failure(Error::InsufficientData, &[3])));
    assert_eq!(decode(&raw), Err(Error::InsufficientData));
    assert_eq!(decode_located("%FF"), Err(failure(Error::Utf8, &[])));
    assert_eq!(decode_located("!"), Err(failure(Error::Base64, &[])));
}

#[test]
fn field_names() {
    assert_eq!(Save::field_name(0), Some("game_version"));
    assert_eq!(Save::field_name(1), Some("empty"));
    assert_eq!(Save::field_name(6), Some("upgrades"));
    assert_eq!(Save::field_name(7), None);
    assert_eq!(RunDetails::field_name(5), Some("you_appearance"));
    assert_eq!(YouAppearance::field_name(2), Some("skin_color"));
    assert_eq!(MiscellaneousGameData::field_name(2), Some("cookie_clicks"));
    assert_eq!(MiscellaneousGameData::field_name(54), Some("cookies_received"));
    assert_eq!(MiscellaneousGameData::field_name(55), None);
    assert_eq!(BuildingData::field_name(2), Some("farms"));
    assert_eq!(GardenScalars::field_name(3), Some("frozen_garden"));
}

#[test]
fn texts_in_the_form_in_which_they_are_written() {
    assert_eq!(number::check_inverse("17.2"), Ok(true));
    assert_eq!(number::check_inverse("3.1622776601683794e+21"), Ok(true));
    assert_eq!(number::check_inverse("17.20"), Ok(false));
    assert_eq!(number::check_inverse("1e3"), Ok(false));
    assert_eq!(number::check_inverse("x"), Err(Error::Float));
    assert_eq!(YouAppearance::check_inverse("1,2,3,4,5,6,7"), Ok(true));
    assert_eq!(YouAppearance::check_inverse("1,2,3,4,5,6,07"), Ok(false));
    assert_eq!(YouAppearance::check_inverse("1,2,3,4,5,6,7,8"), Ok(false));
    assert_eq!(YouAppearance::check_inverse("1,2,3"), Err(Error::InsufficientData));
    assert_eq!(RunDetails::check_inverse("1;2;3;a b;c;1,2,3,4,5,6,7"), Ok(true));
    assert_eq!(RunDetails::check_inverse("+1;2;3;a b;c;1,2,3,4,5,6,7"), Ok(false));
}
