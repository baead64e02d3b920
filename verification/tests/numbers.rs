use engine3d::fixed::SCALE;
use engine3d::single::scalar_from_single;
use engine3d::text::{
    find_line_end, find_word_end, find_word_start, read_index, read_scalar, spells,
};

fn from_float(x: f32) -> Option<i32> {
    scalar_from_single(x.to_bits())
}

#[test]
fn single_precision_whole_numbers() {
    assert_eq!(from_float(0.0), Some(0));
    assert_eq!(from_float(-0.0), Some(0));
    assert_eq!(from_float(1.0), Some(SCALE));
    assert_eq!(from_float(-1.0), Some(-SCALE));
    assert_eq!(from_float(2.0), Some(2 * SCALE));
    assert_eq!(from_float(100.0), Some(100 * SCALE));
    assert_eq!(from_float(-32767.0), Some(-32767 * SCALE));
}

#[test]
fn single_precision_fractions_round_toward_zero() {
    assert_eq!(from_float(0.5), Some(SCALE / 2));
    assert_eq!(from_float(-0.25), Some(-SCALE / 4));
    assert_eq!(from_float(0.1), Some(6553));
    assert_eq!(from_float(-0.1), Some(-6553));
    assert_eq!(from_float(1.0 / 65536.0), Some(1));
    assert_eq!(from_float(1.9 / 65536.0), Some(1));
    assert_eq!(from_float(-1.9 / 65536.0), Some(-1));
    assert_eq!(from_float(0.9 / 65536.0), Some(0));
    assert_eq!(from_float(1e-30), Some(0));
    assert_eq!(from_float(f32::MIN_POSITIVE), Some(0));
    assert_eq!(from_float(1e-45), Some(0));
}

#[test]
fn single_precision_agrees_with_truncation() {
    let mut seed: u32 = 99;
    for _ in 0..2000 {
        seed = seed.wrapping_mul(1664525).wrapping_add(1013904223);
        let x = f32::from_bits(seed);
        let exact = (x as f64 * 65536.0).trunc();
        let expected = if x.is_finite() && exact.abs() <= i32::MAX as f64 {
            Some(exact as i32)
        } else {
            None
        };
        assert_eq!(scalar_from_single(seed), expected, "{} ({:#x})", x, seed);
    }
    for i in -400..400 {
        let x = i as f32 * 81.917;
        assert_eq!(from_float(x), Some((x as f64 * 65536.0).trunc() as i32));
    }
}

#[test]
fn single_precision_limits() {
    assert_eq!(from_float(32767.998), Some(2147483520));
    assert_eq!(from_float(-32767.998), Some(-2147483520));
    assert_eq!(from_float(32768.0), None);
    assert_eq!(from_float(-32768.0), None);
    assert_eq!(from_float(1e9), None);
    assert_eq!(from_float(f32::MAX), None);
    assert_eq!(from_float(f32::INFINITY), None);
    assert_eq!(from_float(f32::NEG_INFINITY), None);
    assert_eq!(from_float(f32::NAN), None);
    assert_eq!(scalar_from_single(0x7fc0_0001), None);
    assert_eq!(scalar_from_single(0xffff_ffff), None);
}

fn scalar(text: &str) -> Option<i32> {
    read_scalar(text.as_bytes())
}

#[test]
fn numerals_with_points_and_signs() {
    assert_eq!(scalar("0"), Some(0));
    assert_eq!(scalar("1"), Some(SCALE));
    assert_eq!(scalar("+1"), Some(SCALE));
    assert_eq!(scalar("-1"), Some(-SCALE));
    assert_eq!(scalar("1."), Some(SCALE));
    assert_eq!(scalar(".5"), Some(SCALE / 2));
    assert_eq!(scalar("-.5"), Some(-SCALE / 2));
    assert_eq!(scalar("0.5"), Some(SCALE / 2));
    assert_eq!(scalar("12.25"), Some(12 * SCALE + SCALE / 4));
    assert_eq!(scalar("-0.000000"), Some(0));
    assert_eq!(scalar("0.1"), Some(6553));
    assert_eq!(scalar("-0.1"), Some(-6553));
    assert_eq!(scalar("0.0000152587890625"), Some(1));
    assert_eq!(scalar("0.0000152587890624"), Some(0));
    assert_eq!(scalar("000000000000000001"), Some(SCALE));
}

#[test]
fn numerals_with_exponents() {
    assert_eq!(scalar("1e0"), Some(SCALE));
    assert_eq!(scalar("1e2"), Some(100 * SCALE));
    assert_eq!(scalar("1E2"), Some(100 * SCALE));
    assert_eq!(scalar("1e+2"), Some(100 * SCALE));
    assert_eq!(scalar("1e-2"), Some(655));
    assert_eq!(scalar("-2.5e-1"), Some(-SCALE / 4));
    assert_eq!(scalar("1.000000e+00"), Some(SCALE));
    assert_eq!(scalar("5.000000E-01"), Some(SCALE / 2));
    assert_eq!(scalar("0.0005e3"), Some(SCALE / 2));
    assert_eq!(scalar("500e-3"), Some(SCALE / 2));
    assert_eq!(scalar("0e9999"), Some(0));
    assert_eq!(scalar("1e-9999"), Some(0));
    assert_eq!(scalar("123456789012345678e-18"), Some(8090));
    assert_eq!(scalar("-0e-0"), Some(0));
}

#[test]
fn numerals_at_the_limits() {
    assert_eq!(scalar("32767"), Some(32767 * SCALE));
    assert_eq!(scalar("-32767"), Some(-32767 * SCALE));
    assert_eq!(scalar("32767.99998474122"), Some(i32::MAX));
    assert_eq!(scalar("-32767.99998474122"), Some(-i32::MAX));
    assert_eq!(scalar("32767.99998474121"), Some(i32::MAX - 1));
    assert_eq!(scalar("32767.9999847412109375"), None);
    assert_eq!(scalar("32768"), None);
    assert_eq!(scalar("-32768"), None);
    assert_eq!(scalar("3.2768e4"), None);
    assert_eq!(scalar("1e5"), None);
    assert_eq!(scalar("1e9999"), None);
    assert_eq!(scalar("327670e-1"), Some(32767 * SCALE));
}

#[test]
fn what_is_no_numeral() {
    for text in [
        "", "+", "-", ".", "-.", "e", "e5", "1e", "1e+", "1e-", ".e1", "1.2.3", "1,5", "abc",
        "1x", "x1", "--1", "+-1", "1e1e1", "1e1.5", "0x10", "inf", "-inf", "nan", "NaN",
        "1 ", " 1", "1e12345", "1234567890123456789", "0.1234567890123456789", "1_000",
    ] {
        assert_eq!(scalar(text), None, "{:?}", text);
    }
}

#[test]
fn indices_are_runs_of_digits() {
    assert_eq!(read_index(b"1"), Some(1));
    assert_eq!(read_index(b"0"), Some(0));
    assert_eq!(read_index(b"007"), Some(7));
    assert_eq!(read_index(b"123456789"), Some(123456789));
    assert_eq!(read_index(b"999999999"), Some(999999999));
    assert_eq!(read_index(b"1234567890"), None);
    assert_eq!(read_index(b""), None);
    assert_eq!(read_index(b"+1"), None);
    assert_eq!(read_index(b"-1"), None);
    assert_eq!(read_index(b"1/2/3"), None);
    assert_eq!(read_index(b"1.0"), None);
    assert_eq!(read_index(b"a"), None);
}

#[test]
fn lines_and_words() {
    let data = b"ab  cd\n\tx\r\n\nlast";
    assert_eq!(find_line_end(data, 0), 6);
    assert_eq!(find_line_end(data, 3), 6);
    assert_eq!(find_line_end(data, 6), 6);
    assert_eq!(find_line_end(data, 7), 10);
    assert_eq!(find_line_end(data, 11), 11);
    assert_eq!(find_line_end(data, 12), 16);
    assert_eq!(find_line_end(data, 16), 16);
    assert_eq!(find_word_start(data, 0, 6), 0);
    assert_eq!(find_word_end(data, 0, 6), 2);
    assert_eq!(find_word_start(data, 2, 6), 4);
    assert_eq!(find_word_end(data, 4, 6), 6);
    assert_eq!(find_word_start(data, 6, 6), 6);
    assert_eq!(find_word_start(data, 7, 10), 8);
    assert_eq!(find_word_end(data, 8, 10), 9);
    assert_eq!(find_word_start(data, 9, 10), 10);
    assert_eq!(find_word_end(data, 0, 1), 1);
    let spaces = b" \t\r\x0b\x0cz";
    assert_eq!(find_word_start(spaces, 0, 6), 5);
    assert!(spells(data, 0, 2, b"ab"));
    assert!(!spells(data, 0, 2, b"ac"));
    assert!(!spells(data, 0, 2, b"abc"));
    assert!(!spells(data, 0, 3, b"ab"));
    assert!(spells(data, 3, 3, b""));
}
