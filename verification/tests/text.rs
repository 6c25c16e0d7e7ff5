use throwscape::pattern::group;
use throwscape::text::{
    chars_of, digit_of, find_from, format_decimal, parse_decimal, same_text, split_first,
    starts_with, str_eq, trimmed_end, whitespace,
};

#[test]
fn equal_strings_are_told_from_unequal_ones() {
    assert!(str_eq("", ""));
    assert!(str_eq("GET", "GET"));
    assert!(!str_eq("GET", "GE"));
    assert!(!str_eq("GET", "GEt"));
    assert!(!str_eq("", "x"));
    assert!(str_eq("gr\u{fc}n", "gr\u{fc}n"));
    assert!(!str_eq("gr\u{fc}n", "grun"));
}

#[test]
fn characters_come_out_in_order() {
    assert_eq!(chars_of("a\u{e9}z"), vec!['a', '\u{e9}', 'z']);
    assert_eq!(chars_of(""), Vec::<char>::new());
}

#[test]
fn the_first_occurrence_is_found() {
    let chars = chars_of("a b c");
    assert_eq!(find_from(&chars, 0, ' '), 1);
    assert_eq!(find_from(&chars, 1, ' '), 1);
    assert_eq!(find_from(&chars, 2, ' '), 3);
    assert_eq!(find_from(&chars, 4, ' '), 5);
    assert_eq!(find_from(&chars, 5, ' '), 5);
    assert_eq!(find_from(&chars, 0, 'x'), 5);
}

#[test]
fn white_space_is_the_unicode_property() {
    for c in ['\t', '\n', '\u{b}', '\u{c}', '\r', ' ', '\u{85}', '\u{a0}', '\u{1680}', '\u{2000}',
        '\u{200a}', '\u{2028}', '\u{2029}', '\u{202f}', '\u{205f}', '\u{3000}']
    {
        assert!(whitespace(c), "{:?}", c);
    }
    for c in ['a', '0', '\u{8}', '\u{e}', '\u{1f}', '\u{200b}', '\u{feff}', '_', '\u{180e}'] {
        assert!(!whitespace(c), "{:?}", c);
    }
    let mut code: u32 = 0;
    while code < 0x3100 {
        if let Some(c) = char::from_u32(code) {
            assert_eq!(whitespace(c), c.is_whitespace(), "{:?}", c);
        }
        code += 1;
    }
}

#[test]
fn trailing_white_space_is_cut() {
    let chars = chars_of("ab \r\n");
    assert_eq!(trimmed_end(&chars, 0, 5), 2);
    assert_eq!(trimmed_end(&chars, 1, 3), 2);
    assert_eq!(trimmed_end(&chars, 2, 5), 2);
    assert_eq!(trimmed_end(&chars, 0, 2), 2);
    assert_eq!(trimmed_end(&chars, 5, 5), 5);
    let chars = chars_of(" a b");
    assert_eq!(trimmed_end(&chars, 0, 4), 4);
}

#[test]
fn prefixes_are_recognised() {
    assert!(starts_with("--port", "--"));
    assert!(starts_with("--", "--"));
    assert!(!starts_with("-", "--"));
    assert!(!starts_with("-x-", "--"));
    assert!(starts_with("abc", ""));
    assert!(starts_with("", ""));
}

#[test]
fn digits_have_their_values() {
    assert_eq!(digit_of('0'), Some(0));
    assert_eq!(digit_of('7'), Some(7));
    assert_eq!(digit_of('9'), Some(9));
    assert_eq!(digit_of('/'), None);
    assert_eq!(digit_of(':'), None);
    assert_eq!(digit_of('a'), None);
    assert_eq!(digit_of('\u{663}'), None);
}

#[test]
fn numbers_are_written_in_decimal() {
    assert_eq!(format_decimal(0), "0");
    assert_eq!(format_decimal(7), "7");
    assert_eq!(format_decimal(10), "10");
    assert_eq!(format_decimal(123), "123");
    assert_eq!(format_decimal(9007199254740993), "9007199254740993");
    assert_eq!(format_decimal(u64::MAX), "18446744073709551615");
}

#[test]
fn decimal_numbers_are_read() {
    assert_eq!(parse_decimal("0"), Some(0));
    assert_eq!(parse_decimal("007"), Some(7));
    assert_eq!(parse_decimal("+12"), Some(12));
    assert_eq!(parse_decimal("18446744073709551615"), Some(u64::MAX));
    assert_eq!(parse_decimal("18446744073709551616"), None);
    assert_eq!(parse_decimal("99999999999999999999999"), None);
    assert_eq!(parse_decimal(""), None);
    assert_eq!(parse_decimal("+"), None);
    assert_eq!(parse_decimal("-1"), None);
    assert_eq!(parse_decimal("++1"), None);
    assert_eq!(parse_decimal("1+"), None);
    assert_eq!(parse_decimal("12a"), None);
    assert_eq!(parse_decimal(" 1"), None);
    assert_eq!(parse_decimal("\u{661}"), None);
}

#[test]
fn what_is_written_is_read_back() {
    for n in [0u64, 1, 9, 10, 99, 100, 65535, 65536, 4294967296, u64::MAX - 1, u64::MAX] {
        assert_eq!(parse_decimal(&format_decimal(n)), Some(n));
        assert_eq!(format_decimal(n), n.to_string());
    }
}

#[test]
fn reading_agrees_with_the_standard_library() {
    for text in ["", "+", "-", "+0", "-0", "00", "1_0", "1e3", "٣", "18446744073709551615",
        "18446744073709551616", "+18446744073709551615", "0000000000000000000000001"]
    {
        assert_eq!(parse_decimal(text), text.parse::<u64>().ok(), "{:?}", text);
    }
}

#[test]
fn a_text_is_cut_at_the_first_mark() {
    assert_eq!(split_first("a?b?c", '?'), ("a", Some("b?c")));
    assert_eq!(split_first("abc", '?'), ("abc", None));
    assert_eq!(split_first("abc?", '?'), ("abc", Some("")));
    assert_eq!(split_first("?abc", '?'), ("", Some("abc")));
    assert_eq!(split_first("", '?'), ("", None));
    assert_eq!(split_first("\u{e9}:\u{e8}", ':'), ("\u{e9}", Some("\u{e8}")));
}

#[test]
fn optional_texts_are_compared() {
    assert!(same_text(None, None));
    assert!(same_text(Some("a"), Some("a")));
    assert!(same_text(Some(""), Some("")));
    assert!(!same_text(Some(""), None));
    assert!(!same_text(None, Some("a")));
    assert!(!same_text(Some("a"), Some("b")));
}

#[test]
fn a_group_is_found_by_its_index() {
    let groups = vec![Some(String::from("ab")), None, Some(String::new())];
    assert_eq!(group(&groups, 0), Some("ab"));
    assert_eq!(group(&groups, 1), None);
    assert_eq!(group(&groups, 2), Some(""));
    assert_eq!(group(&groups, 3), None);
    assert_eq!(group(&groups, usize::MAX), None);
}
