use cookieclicker_save::number::{decode_f64, encode_f64};
use cookieclicker_save::primitive::{decode_i64, decode_isize, decode_u64, decode_u8, decode_usize};
use rand::{Rng, SeedableRng};

const TEXTS: &[&str] = &[
    "", "0", "00", "7", "+7", "-7", "+", "-", "++7", "+-7", "-+7", "--7", "007", "+007", "-007", "7 ", " 7",
    "7a", "a7", "7.0", "7e0", "0x7", "１", "٣", "255", "256", "-0", "+0", "65535", "4294967295",
    "4294967296", "9223372036854775807", "9223372036854775808", "-9223372036854775808",
    "-9223372036854775809", "18446744073709551615", "18446744073709551616",
    "000000000000000000000000000001", "99999999999999999999999999", "-99999999999999999999999999", "1_000",
    "1,000", "\t1", "1\n",
];

#[test]
fn integers_are_read_as_the_standard_library_reads_them() {
    for text in TEXTS {
        assert_eq!(decode_u8(text).ok(), text.parse::<u8>().ok(), "{:?}", text);
        assert_eq!(decode_u64(text).ok(), text.parse::<u64>().ok(), "{:?}", text);
        assert_eq!(decode_usize(text).ok(), text.parse::<usize>().ok(), "{:?}", text);
        assert_eq!(decode_i64(text).ok(), text.parse::<i64>().ok(), "{:?}", text);
        assert_eq!(decode_isize(text).ok(), text.parse::<isize>().ok(), "{:?}", text);
    }
}

#[test]
fn numbers_are_accepted_as_the_standard_library_accepts_them() {
    let texts = [
        "", "0", "-0", "+0", "1", "+1", "-1", "1.", ".1", "+.1", "-.1", "1.5", "01.50", ".", "+.", "-", "+", "e",
        "e5", ".e5", "1e", "1e+", "1e-", "1e5", "1E5", "1e+5", "1e-5", "1.e5", ".1e5", "1.5e+05", "1e5.5",
        "1.2.3", "1e5e5", "1 ", " 1", "1_0", "1,5", "0x10", "inf", "+inf", "-inf", "INF", "Inf", "infinity",
        "Infinity", "-INFINITY", "infinit", "infinityy", "in", "nan", "NaN", "+nan", "-nan", "NAN", "nana", "na",
        "1f", "1d", "١", "1e٥", "--1", "+-1", "1e--5", "1e+-5", "00", "0.0", "0e0", "0e-0", "-0.0e+0",
        "123456789012345678901234567890", "0.000000000000000000000000000001", "1e308", "1e309", "1e-324",
        "1e-400", "1e9223372036854775807", "1e-9223372036854775807",
    ];
    for text in texts {
        assert_eq!(decode_f64(text).is_ok(), text.parse::<f64>().is_ok(), "{:?}", text);
    }
}

// The text that the runtime of the game prints for a number, worked out
// with binary floating point.
fn printed(value: f64) -> String {
    if value.abs() >= 1e21 || value.abs() < 1e-6 {
        let exp = format!("{value:e}");
        let (m, e) = exp.split_once('e').unwrap_or((&exp, "0"));
        if e.starts_with(['+', '-']) {
            format!("{m}e{e}")
        } else {
            format!("{m}e+{e}")
        }
    } else {
        format!("{value}")
    }
}

fn check(value: f64) {
    let text = printed(value);
    let number = decode_f64(&text).unwrap();
    assert_eq!(encode_f64(&number), text, "{:?}", value);
    let plain = format!("{value:e}");
    assert_eq!(encode_f64(&decode_f64(&plain).unwrap()), text, "{:?}", value);
}

#[test]
fn numbers_are_printed_as_binary_floating_point_prints_them() {
    for value in [
        1.0, -1.0, 0.1, 0.5, 17.0, 17.2, 1e-6, 9.99e-7, 1e-7, 1.5e-7, 1e20, 1e21, 9.999999999999999e20,
        3.1622776601683794e21, 1000000000000000100.0, 123456789.125, 0.000123, 5e-324, 1.7976931348623157e308,
        2.2250738585072014e-308, 4503599627370496.0, 9007199254740993.0, 0.30000000000000004, 1e100, -2.5e-10,
        100.0, 1e3, 123e18, 0.000001234,
    ] {
        check(value);
    }
    let mut rng = rand::rngs::StdRng::seed_from_u64(0x5eed);
    for _ in 0..20000 {
        let value = f64::from_bits(rng.gen::<u64>());
        if value.is_finite() && value != 0.0 {
            check(value);
        }
    }
    for _ in 0..20000 {
        let value = rng.gen::<f64>() * 10f64.powi(rng.gen_range(-10..25));
        if value != 0.0 {
            check(value);
            check(-value);
        }
    }
}
