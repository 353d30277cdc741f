use waifucalc::number::{is_digit_char, parse_i32, render_integer};
use waifucalc::text::{chars_of, is_space_char, strip_line_end, trim_bounds};

#[test]
fn parse_i32_reads_plain_numbers() {
    assert_eq!(parse_i32("17"), Some(17));
    assert_eq!(parse_i32("0"), Some(0));
    assert_eq!(parse_i32("-5"), Some(-5));
    assert_eq!(parse_i32("+5"), Some(5));
    assert_eq!(parse_i32("007"), Some(7));
    assert_eq!(parse_i32("-0"), Some(0));
}

#[test]
fn parse_i32_holds_the_bounds_of_i32() {
    assert_eq!(parse_i32("2147483647"), Some(i32::MAX));
    assert_eq!(parse_i32("2147483648"), None);
    assert_eq!(parse_i32("-2147483648"), Some(i32::MIN));
    assert_eq!(parse_i32("-2147483649"), None);
    assert_eq!(parse_i32("99999999999999999999999999999999"), None);
    assert_eq!(parse_i32("00000000000000000000000000000001"), Some(1));
}

#[test]
fn parse_i32_refuses_what_is_no_number() {
    let refused =
        ["", "-", "+", " 1", "1 ", "1_000", "1e3", "0x10", "--1", "+-1", "abc", "1.0", "1-2"];
    for text in refused {
        assert_eq!(parse_i32(text), None, "{:?}", text);
    }
}

#[test]
fn parse_i32_agrees_with_the_standard_parser() {
    let samples = [
        "", "-", "+", "0", "-0", "+0", "17", "-17", "+17", "007", "2147483647", "2147483648",
        "-2147483648", "-2147483649", " 1", "1 ", "1_000", "1e3", "--1", "+-1", "-+1", "12a",
        "a12", "4294967296", "99999999999999999999", "\u{661}\u{665}", "1\n", "\t1", "1.5",
        "\u{663}",
    ];
    for text in samples {
        assert_eq!(parse_i32(text), text.parse::<i32>().ok(), "{:?}", text);
    }
    for value in -2000..=2000 {
        let text = format!("{}", value);
        assert_eq!(parse_i32(&text), Some(value));
    }
}

#[test]
fn render_integer_agrees_with_the_standard_formatter() {
    let samples = [
        0,
        1,
        -1,
        9,
        10,
        11,
        99,
        100,
        -100,
        12345,
        -12345,
        i32::MAX as i128,
        i32::MIN as i128,
        2_362_232_012,
        i64::MAX as i128,
        i64::MIN as i128,
        i128::MAX,
        i128::MIN,
        i128::MIN + 1,
    ];
    for value in samples {
        assert_eq!(render_integer(value), format!("{}", value));
    }
    for value in -1500..=1500 {
        assert_eq!(render_integer(value), format!("{}", value));
    }
    assert_eq!(render_integer(i128::MIN), "-170141183460469231731687303715884105728");
}

#[test]
fn rendered_numbers_parse_back() {
    for value in [0, 7, -7, 1000, -1000, i32::MAX, i32::MIN] {
        assert_eq!(parse_i32(&render_integer(value as i128)), Some(value));
    }
}

#[test]
fn digits_are_the_ten_ascii_digits() {
    for code in 0..=0x10FFFFu32 {
        if let Some(c) = char::from_u32(code) {
            assert_eq!(is_digit_char(c), c.is_ascii_digit(), "{:?}", c);
        }
    }
}

#[test]
fn white_space_agrees_with_the_standard_library() {
    for code in 0..=0x10FFFFu32 {
        if let Some(c) = char::from_u32(code) {
            assert_eq!(is_space_char(c), c.is_whitespace(), "{:?}", c);
        }
    }
}

#[test]
fn trim_bounds_agree_with_the_standard_library() {
    let samples = [
        "", " ", "   ", "a", " a", "a ", "  a b  ", "\t17\r\n", "\u{3000}x\u{a0}", "15-17 ",
        " \u{2003}h\u{2028}", "no space", "\n\n", " \u{feff} ",
    ];
    for text in samples {
        let chars = chars_of(text);
        let (from, to) = trim_bounds(&chars);
        let inner: String = chars[from..to].iter().collect();
        assert_eq!(inner, text.trim(), "{:?}", text);
    }
}

#[test]
fn strip_line_end_takes_one_line_feed() {
    assert_eq!(strip_line_end("abc\n"), "abc");
    assert_eq!(strip_line_end("abc"), "abc");
    assert_eq!(strip_line_end("abc\n\n"), "abc\n");
    assert_eq!(strip_line_end("\n"), "");
    assert_eq!(strip_line_end(""), "");
    assert_eq!(strip_line_end("abc\r\n"), "abc\r");
    assert_eq!(strip_line_end("\nabc"), "\nabc");
}

#[test]
fn chars_of_lists_every_character() {
    assert_eq!(chars_of(""), Vec::<char>::new());
    assert_eq!(chars_of("15-17"), vec!['1', '5', '-', '1', '7']);
    assert_eq!(chars_of("h\u{e9}\u{3000}"), vec!['h', '\u{e9}', '\u{3000}']);
}
