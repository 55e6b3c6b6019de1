use cookieclicker_save::error::Error;
use cookieclicker_save::flags::{decode_all_flags, decode_flags, encode_flags};
use cookieclicker_save::garden::{
    decode_optional_garden, decode_plot, decode_plots, encode_optional_garden, encode_plot,
    encode_plots, FarmGridData, Garden, GardenScalars,
};
use cookieclicker_save::primitive::{decode_unit, encode_unit, Reserved};
use cookieclicker_save::sentinel::{
    decode_optional_reserved, decode_optional_string, decode_optional_u64, decode_optional_usize,
    encode_optional_reserved, encode_optional_string, encode_optional_u64, encode_optional_usize,
};
use cookieclicker_save::timestamp::Timestamp;
use cookieclicker_save::upgrades::{decode_upgrades, encode_upgrades, Upgrade};

#[test]
fn sentinel_negative() {
    assert_eq!(decode_optional_u64("-1"), Ok(None));
    assert_eq!(decode_optional_u64("5"), Ok(Some(5)));
    assert_eq!(decode_optional_u64("-7"), Ok(None));
    assert_eq!(decode_optional_u64("0"), Ok(Some(0)));
    assert_eq!(decode_optional_u64(""), Err(Error::Int));
    assert_eq!(decode_optional_u64("9223372036854775808"), Err(Error::Int));
    assert_eq!(encode_optional_u64(None), "-1");
    assert_eq!(encode_optional_u64(Some(5)), "5");
    assert_eq!(decode_optional_usize("-1"), Ok(None));
    assert_eq!(decode_optional_usize("12"), Ok(Some(12)));
    assert_eq!(decode_optional_usize("x"), Err(Error::Int));
    assert_eq!(encode_optional_usize(None), "-1");
    assert_eq!(encode_optional_usize(Some(12)), "12");
}

#[test]
fn sentinel_empty() {
    assert_eq!(decode_optional_string(""), Ok(None));
    assert_eq!(decode_optional_string("fools"), Ok(Some("fools".to_string())));
    assert_eq!(encode_optional_string(&None), "");
    assert_eq!(encode_optional_string(&Some("fools".to_string())), "fools");
    assert_eq!(decode_optional_reserved(""), Ok(None));
    assert_eq!(decode_optional_reserved("anything at all"), Ok(Some(Reserved)));
    assert_eq!(encode_optional_reserved(&None), "");
    assert_eq!(encode_optional_reserved(&Some(Reserved)), "");
}

#[test]
fn reserved_fields_are_not_read() {
    assert_eq!(decode_unit(""), Ok(Reserved));
    assert_eq!(decode_unit("whatever"), Ok(Reserved));
    assert_eq!(encode_unit(), "");
}

#[test]
fn timestamps() {
    let t = Timestamp::decode("1715000000123").unwrap();
    assert_eq!(t.millis(), 1715000000123);
    assert_eq!(t.encode(), "1715000000123");
    assert_eq!(Timestamp::decode("-1").unwrap().encode(), "-1");
    assert_eq!(Timestamp::decode("0").unwrap().millis(), 0);
    assert_eq!(Timestamp::decode("abc"), Err(Error::Int));
    assert_eq!(Timestamp::decode(""), Err(Error::Int));
    assert_eq!(Timestamp::decode("9223372036854775807"), Err(Error::TimestampOutOfRange));
    assert_eq!(Timestamp::decode("-9223372036854775808"), Err(Error::TimestampOutOfRange));
    assert_eq!(Timestamp::decode("9223372036854775808"), Err(Error::Int));
    assert!(Timestamp::from_millis(8210266876799999).is_some());
    assert!(Timestamp::from_millis(8210266876800000).is_none());
    assert!(Timestamp::from_millis(-8334601228800000).is_some());
    assert!(Timestamp::from_millis(-8334601315200001).is_none());
    assert_eq!(Timestamp::from_millis(42).unwrap().millis(), 42);
}

#[test]
fn absent_plots() {
    assert_eq!(decode_plot("0", "0"), Ok(None));
    assert_eq!(decode_plot("0", "17"), Ok(None));
    assert_eq!(decode_plot("3", "17"), Ok(Some(FarmGridData { id: 3, age: 17 })));
    assert_eq!(decode_plot("x", "17"), Err(Error::Int));
    assert_eq!(decode_plot("0", "x"), Err(Error::Int));
    assert_eq!(encode_plot(&None), ("0".to_string(), "0".to_string()));
    assert_eq!(
        encode_plot(&Some(FarmGridData { id: 3, age: 17 })),
        ("3".to_string(), "17".to_string())
    );
    assert_eq!(decode_plots("0:0"), Ok(vec![None]));
    assert_eq!(encode_plots(&vec![None]), "0:0");
    assert_eq!(encode_plots(&vec![None, None]), "0:0:0:0");
}

#[test]
fn plots() {
    let plots = vec![Some(FarmGridData { id: 1, age: 5 }), None, Some(FarmGridData { id: 3, age: 7 })];
    assert_eq!(encode_plots(&plots), "1:5:0:0:3:7");
    assert_eq!(decode_plots("1:5:0:0:3:7"), Ok(plots));
    assert_eq!(decode_plots(""), Ok(vec![]));
    assert_eq!(encode_plots(&vec![]), "");
    assert_eq!(decode_plots("1:5:"), Ok(vec![Some(FarmGridData { id: 1, age: 5 })]));
    assert_eq!(decode_plots("1:5:9"), Ok(vec![Some(FarmGridData { id: 1, age: 5 })]));
    assert_eq!(decode_plots("1:x:3:4"), Err(Error::Int));
    assert_eq!(decode_plots("1:2:3:"), Err(Error::Int));
}

#[test]
fn flags() {
    assert_eq!(decode_all_flags("1010"), Ok(vec![true, false, true, false]));
    assert_eq!(decode_all_flags(""), Ok(vec![]));
    assert_eq!(decode_all_flags("10x"), Err(Error::Bool));
    assert_eq!(decode_flags("1010", 2), Ok(vec![true, false]));
    assert_eq!(decode_flags("10", 3), Err(Error::InsufficientData));
    assert_eq!(decode_flags("1x", 3), Err(Error::Bool));
    assert_eq!(decode_flags("10x", 2), Ok(vec![true, false]));
    assert_eq!(encode_flags(&vec![true, true, false]), "110");
    assert_eq!(encode_flags(&vec![]), "");
}

#[test]
fn upgrades() {
    let upgrades = vec![
        Upgrade { unlocked: true, bought: true },
        Upgrade { unlocked: true, bought: false },
        Upgrade { unlocked: false, bought: true },
        Upgrade { unlocked: false, bought: false },
    ];
    assert_eq!(encode_upgrades(&upgrades), "11100100");
    assert_eq!(decode_upgrades("11100100"), Ok(upgrades));
    assert_eq!(decode_upgrades(""), Ok(vec![]));
    assert_eq!(encode_upgrades(&vec![]), "");
    assert_eq!(decode_upgrades("1"), Err(Error::InsufficientData));
    assert_eq!(decode_upgrades("110"), Err(Error::InsufficientData));
    assert_eq!(decode_upgrades("11x"), Err(Error::InsufficientData));
    assert_eq!(decode_upgrades("1x0"), Err(Error::Bool));
    assert_eq!(decode_upgrades("1é"), Err(Error::Bool));
    assert_eq!(decode_upgrades("12"), Err(Error::Bool));
}

fn garden() -> Garden {
    Garden {
        time_of_next_tick: Timestamp::from_millis(1715000000000).unwrap(),
        soil_type: 2,
        time_of_next_soil_change: Timestamp::from_millis(1715000600000).unwrap(),
        frozen_garden: false,
        harvests_this_ascension: 5,
        total_harvests: 10,
        unlocked_seeds: vec![true, false, true, true],
        farm_grid_data: vec![Some(FarmGridData { id: 1, age: 5 }), None, Some(FarmGridData { id: 3, age: 7 })],
    }
}

#[test]
fn gardens() {
    let text = "1715000000000:2:1715000600000:0:5:10 1011 1:5:0:0:3:7";
    assert_eq!(garden().encode(), text);
    assert_eq!(Garden::decode(text), Ok(garden()));
    assert_eq!(Garden::decode("1715000000000:2:1715000600000:0:5:10 1011"), Err(Error::InsufficientData));
    assert_eq!(Garden::decode("1715000000000:2:1715000600000:0:5:10"), Err(Error::InsufficientData));
    assert_eq!(Garden::decode("1715000000000:2:1715000600000:0:5 1011 1:5"), Err(Error::InsufficientData));
    assert_eq!(Garden::decode("1715000000000:2:1715000600000:2:5:10 1011 1:5"), Err(Error::Bool));
    assert_eq!(Garden::decode("1715000000000:2:1715000600000:0:5:10 1211 1:5"), Err(Error::Bool));
    assert_eq!(Garden::decode("9223372036854775807:2:1:0:5:10 1 1:5"), Err(Error::TimestampOutOfRange));
    assert_eq!(Garden::decode(""), Err(Error::Int));
    let empty = "1715000000000:2:1715000600000:1:0:0  ";
    let decoded = Garden::decode(empty).unwrap();
    assert!(decoded.unlocked_seeds.is_empty());
    assert!(decoded.farm_grid_data.is_empty());
    assert!(decoded.frozen_garden);
    assert_eq!(decoded.encode(), empty);
    assert_eq!(
        GardenScalars::decode("1:2:3:0:5:6:7:8").unwrap().encode(),
        "1:2:3:0:5:6"
    );
}

#[test]
fn optional_gardens() {
    assert_eq!(decode_optional_garden(""), Ok(None));
    assert_eq!(encode_optional_garden(&None), "");
    let text = "1715000000000:2:1715000600000:0:5:10 1011 1:5:0:0:3:7";
    assert_eq!(decode_optional_garden(text), Ok(Some(garden())));
    assert_eq!(encode_optional_garden(&Some(garden())), text);
    assert_eq!(decode_optional_garden("x"), Err(Error::Int));
}
