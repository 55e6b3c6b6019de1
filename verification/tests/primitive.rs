use cookieclicker_save::error::Error;
use cookieclicker_save::number::{check_inverse, decode_f64, encode_f64, Number};
use cookieclicker_save::primitive::{
    decode_bool, decode_i64, decode_string, decode_u64, decode_u8, decode_usize, encode_bool,
    encode_i64, encode_string, encode_u64, encode_u8, encode_usize,
};

fn check(value: &str) {
    assert_eq!(encode_f64(&decode_f64(value).unwrap()), value);
}

#[test]
fn primitive_test_f64() {
    check("3.1622776601683794e+21");
    check("1000000000000000100");
    check("17");
    check("17.2");
}

#[test]
fn standard_test_f64() {
    assert!(check_inverse("3.1622776601683794e+21").unwrap());
    assert!(check_inverse("1000000000000000100").unwrap());
    assert!(check_inverse("17").unwrap());
    assert!(check_inverse("17.2").unwrap());
}

#[test]
fn number_forms() {
    check("0");
    check("-0");
    check("0.000001");
    check("1e-7");
    check("1.5e-7");
    check("999999999999999900000");
    check("1e+21");
    check("-2.5");
    check("123.456");
    check("0.5");
    check("100");
    check("Infinity");
    check("-Infinity");
    check("NaN");
}

#[test]
fn number_is_put_in_canonical_form() {
    assert_eq!(encode_f64(&decode_f64("1e3").unwrap()), "1000");
    assert_eq!(encode_f64(&decode_f64("+017.20").unwrap()), "17.2");
    assert_eq!(encode_f64(&decode_f64("0.0000001").unwrap()), "1e-7");
    assert_eq!(encode_f64(&decode_f64("1000000000000000000000").unwrap()), "1e+21");
    assert_eq!(encode_f64(&decode_f64(".5").unwrap()), "0.5");
    assert_eq!(encode_f64(&decode_f64("5.").unwrap()), "5");
    assert_eq!(encode_f64(&decode_f64("12E2").unwrap()), "1200");
    assert_eq!(encode_f64(&decode_f64("0e5").unwrap()), "0");
    assert_eq!(encode_f64(&decode_f64("inf").unwrap()), "Infinity");
    assert_eq!(encode_f64(&decode_f64("-INFINITY").unwrap()), "-Infinity");
    assert_eq!(encode_f64(&decode_f64("nan").unwrap()), "NaN");
    assert_eq!(
        decode_f64("17.2").unwrap(),
        Number::Finite { negative: false, digits: "172".to_string(), exponent: 1 }
    );
    assert_eq!(
        decode_f64("-0.00120").unwrap(),
        Number::Finite { negative: true, digits: "12".to_string(), exponent: -3 }
    );
}

#[test]
fn number_errors() {
    for text in ["", "+", "-", ".", "e5", "1e", "1e+", "1.2.3", "1,5", "0x10", " 1", "1 ", "in", "1e99999999999999999999"] {
        assert_eq!(decode_f64(text), Err(Error::Float), "{:?}", text);
    }
}

#[test]
fn boolean_strictness() {
    assert_eq!(decode_bool("0"), Ok(false));
    assert_eq!(decode_bool("1"), Ok(true));
    assert_eq!(decode_bool("2"), Err(Error::Bool));
    assert_eq!(decode_bool(""), Err(Error::Bool));
    assert_eq!(decode_bool("01"), Err(Error::Bool));
    assert_eq!(decode_bool("true"), Err(Error::Bool));
    assert_eq!(encode_bool(false), "0");
    assert_eq!(encode_bool(true), "1");
}

#[test]
fn integers() {
    assert_eq!(decode_u8("255"), Ok(255));
    assert_eq!(decode_u8("256"), Err(Error::Int));
    assert_eq!(decode_u64("0"), Ok(0));
    assert_eq!(decode_u64("+7"), Ok(7));
    assert_eq!(decode_u64("007"), Ok(7));
    assert_eq!(decode_u64("18446744073709551615"), Ok(u64::MAX));
    assert_eq!(decode_u64("18446744073709551616"), Err(Error::Int));
    assert_eq!(decode_u64("-1"), Err(Error::Int));
    assert_eq!(decode_u64(""), Err(Error::Int));
    assert_eq!(decode_u64("+"), Err(Error::Int));
    assert_eq!(decode_u64("1a"), Err(Error::Int));
    assert_eq!(decode_u64(" 1"), Err(Error::Int));
    assert_eq!(decode_usize("42"), Ok(42));
    assert_eq!(decode_i64("-9223372036854775808"), Ok(i64::MIN));
    assert_eq!(decode_i64("9223372036854775807"), Ok(i64::MAX));
    assert_eq!(decode_i64("9223372036854775808"), Err(Error::Int));
    assert_eq!(decode_i64("-9223372036854775809"), Err(Error::Int));
    assert_eq!(decode_i64("-"), Err(Error::Int));
    assert_eq!(decode_i64("-0"), Ok(0));
    assert_eq!(encode_u8(200), "200");
    assert_eq!(encode_u64(0), "0");
    assert_eq!(encode_u64(u64::MAX), "18446744073709551615");
    assert_eq!(encode_usize(1234567890), "1234567890");
    assert_eq!(encode_i64(i64::MIN), "-9223372036854775808");
    assert_eq!(encode_i64(-15), "-15");
    assert_eq!(encode_i64(15), "15");
}

#[test]
fn strings_are_taken_as_they_stand() {
    assert_eq!(decode_string("a b,c"), Ok("a b,c".to_string()));
    assert_eq!(decode_string(""), Ok(String::new()));
    assert_eq!(encode_string(&"héllo".to_string()), "héllo");
}
