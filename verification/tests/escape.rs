use cookieclicker_save::error::Error;
use cookieclicker_save::escape::{decode, encode, strip_marker, text_of, unarmour};
use rand::distributions::DistString;

#[test]
fn escape_test() {
    let mut rng = rand::thread_rng();
    let value = rand::distributions::Standard.sample_string(&mut rng, 4096);
    assert_eq!(decode(&encode(&value)).unwrap(), value,);
}

#[test]
fn armour_of_a_known_text() {
    assert_eq!(encode("hello"), "aGVsbG8%3D%21END%21");
    assert_eq!(encode(""), "%21END%21");
    assert_eq!(encode("a|b;c"), "YXxiO2M%3D%21END%21");
    assert_eq!(decode("aGVsbG8%3D%21END%21"), Ok("hello".to_string()));
}

#[test]
fn the_marker_may_be_missing() {
    assert_eq!(decode("aGVsbG8%3D"), decode("aGVsbG8%3D%21END%21"));
    assert_eq!(decode("aGVsbG8%3D"), Ok("hello".to_string()));
    assert_eq!(decode("aGVsbG8="), Ok("hello".to_string()));
    assert_eq!(decode("aGVsbG8=!END!"), Ok("hello".to_string()));
    assert_eq!(unarmour("aGVsbG8="), unarmour("aGVsbG8=!END!"));
}

#[test]
fn encoding_always_appends_the_marker() {
    for text in ["", "x", "hello", "2.052||1;2", "!END!"] {
        assert!(encode(text).ends_with("%21END%21"), "{:?}", text);
    }
}

#[test]
fn one_marker_is_dropped() {
    assert_eq!(strip_marker("abc!END!"), "abc");
    assert_eq!(strip_marker("abc"), "abc");
    assert_eq!(strip_marker("!END!"), "");
    assert_eq!(strip_marker("END!"), "END!");
    assert_eq!(strip_marker("abc!END!!END!"), "abc!END!");
    assert_eq!(strip_marker("!END!abc"), "!END!abc");
    assert_eq!(decode("aGVsbG8%3D%21END%21%21END%21"), Err(Error::Base64));
}

#[test]
fn armour_errors() {
    assert_eq!(decode("%FF"), Err(Error::Utf8));
    assert_eq!(decode("!!!"), Err(Error::Base64));
    assert_eq!(decode("aGVsbG8"), Err(Error::Base64));
    assert_eq!(decode("%2Fw%3D%3D"), Err(Error::Utf8));
    assert_eq!(unarmour("/w=="), Err(Error::Utf8));
    assert_eq!(text_of(vec![0xff]), Err(Error::Utf8));
    assert_eq!(text_of(vec![0x68, 0x69]), Ok("hi".to_string()));
}

#[test]
fn percent_escapes_are_replaced() {
    assert_eq!(decode("aGk%3D"), Ok("hi".to_string()));
    assert_eq!(decode("aGk%3d"), Ok("hi".to_string()));
    assert_eq!(decode("%61Gk%3D"), Ok("hi".to_string()));
}

#[test]
fn text_beyond_ascii_survives_the_armour() {
    let text = "Bäckerei 🍪|1;2";
    assert_eq!(decode(&encode(text)), Ok(text.to_string()));
}
