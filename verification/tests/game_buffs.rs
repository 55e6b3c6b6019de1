use cookieclicker_save::error::Error;
use cookieclicker_save::game_buffs::{decode_game_buffs, encode_game_buffs, trim_end_text, GameBuff};
use cookieclicker_save::number::Number;

fn number(digits: &str, exponent: i64) -> Number {
    Number::Finite { negative: false, digits: digits.to_string(), exponent }
}

fn buff(a1: Option<Number>, a2: Option<usize>, a3: Option<&str>) -> GameBuff {
    GameBuff {
        effect_id: 1,
        maximum_time: 200,
        time_remaining: 150,
        argument1: a1,
        argument2: a2,
        argument3: a3.map(|s| s.to_string()),
    }
}

#[test]
fn a_buff_is_written_up_to_its_last_argument() {
    assert_eq!(buff(None, None, None).encode(), "1,200,150");
    assert_eq!(buff(Some(number("7", 0)), None, None).encode(), "1,200,150,7");
    assert_eq!(buff(None, Some(3), None).encode(), "1,200,150,,3");
    assert_eq!(buff(None, None, Some("x")).encode(), "1,200,150,,,x");
    assert_eq!(buff(Some(number("15", 0)), Some(3), Some("x")).encode(), "1,200,150,1.5,3,x");
}

#[test]
fn a_buff_is_read_with_the_arguments_that_it_has() {
    assert_eq!(GameBuff::decode("1,200,150"), Ok(buff(None, None, None)));
    assert_eq!(GameBuff::decode("1,200,150,7"), Ok(buff(Some(number("7", 0)), None, None)));
    assert_eq!(GameBuff::decode("1,200,150,,3"), Ok(buff(None, Some(3), None)));
    assert_eq!(GameBuff::decode("1,200,150,,,x"), Ok(buff(None, None, Some("x"))));
    assert_eq!(GameBuff::decode("1,200,150,,,"), Ok(buff(None, None, None)));
    assert_eq!(GameBuff::decode("1,200,150,1.5,3,x,y"), Ok(buff(Some(number("15", 0)), Some(3), Some("x"))));
    assert_eq!(GameBuff::decode("1,200"), Err(Error::InsufficientData));
    assert_eq!(GameBuff::decode(""), Err(Error::Int));
    assert_eq!(GameBuff::decode("1,200,150,x"), Err(Error::Float));
    assert_eq!(GameBuff::decode("1,200,150,,x"), Err(Error::Int));
    assert_eq!(GameBuff::decode("1,-200,150"), Err(Error::Int));
}

#[test]
fn buffs() {
    let buffs = vec![buff(Some(number("7", 0)), None, None), buff(None, None, None)];
    assert_eq!(encode_game_buffs(&buffs), "1,200,150,7;1,200,150;");
    assert_eq!(decode_game_buffs("1,200,150,7;1,200,150;"), Ok(buffs.clone()));
    assert_eq!(decode_game_buffs("1,200,150,7;1,200,150"), Ok(buffs.clone()));
    assert_eq!(decode_game_buffs("1,200,150,7;1,200,150;;;"), Ok(buffs));
    assert_eq!(decode_game_buffs(""), Ok(vec![]));
    assert_eq!(encode_game_buffs(&vec![]), "");
    assert_eq!(decode_game_buffs(";"), Err(Error::Int));
    assert_eq!(decode_game_buffs("1,200,150;;2,3,4"), Err(Error::Int));
    assert_eq!(decode_game_buffs("1,200,150;2,3"), Err(Error::InsufficientData));
}

#[test]
fn trimming() {
    assert_eq!(trim_end_text("a;b;;", ';'), "a;b");
    assert_eq!(trim_end_text(";;", ';'), "");
    assert_eq!(trim_end_text("", ';'), "");
    assert_eq!(trim_end_text("a;b", ';'), "a;b");
}
