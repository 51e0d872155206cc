use cargo_tsn::text::{
    contains_str, decimal_i64, decimal_string, decimal_u64, ends_with_str, find_char, find_str,
    join_strings, lines_str, parse_usize, quote, quote_all, replace_str, rfind_char, split_char,
    starts_with_str, str_equal, trim,
};

#[test]
fn trim_removes_ascii_and_unicode_white_space() {
    assert_eq!(trim("  a b \t\n"), "a b");
    assert_eq!(trim("\u{3000}x\u{a0}"), "x");
    assert_eq!(trim(" \r\n "), "");
    assert_eq!(trim("plain"), "plain");
}

#[test]
fn searching_and_comparing_text() {
    assert!(str_equal("abc", "abc"));
    assert!(!str_equal("abc", "abd"));
    assert_eq!(find_str("hello world", "o w"), Some(4));
    assert_eq!(find_str("hello", "z"), None);
    assert_eq!(find_char("a_b_c", '_'), Some(1));
    assert_eq!(rfind_char("a_b_c", '_'), Some(3));
    assert_eq!(rfind_char("abc", '_'), None);
    assert!(contains_str("priority = 5", "priority ="));
    assert!(starts_with_str("&str", "&"));
    assert!(ends_with_str("main.ts", ".ts"));
    assert!(!ends_with_str("ts", "main.ts"));
}

#[test]
fn replace_takes_occurrences_from_the_left() {
    assert_eq!(replace_str("aaa", "aa", "b"), "ba");
    assert_eq!(replace_str("my-plugin-x", "-", "_"), "my_plugin_x");
    assert_eq!(replace_str("none", "-", "_"), "none");
}

#[test]
fn split_lines_and_join() {
    assert_eq!(split_char("a, b,,c", ','), vec!["a", " b", "", "c"]);
    assert_eq!(split_char("", ','), vec![""]);
    assert_eq!(lines_str("a\r\nb\n\nc\n"), vec!["a", "b", "", "c"]);
    assert_eq!(lines_str(""), Vec::<&str>::new());
    let parts = vec!["x".to_string(), "y".to_string(), "z".to_string()];
    assert_eq!(join_strings(&parts, ", "), "x, y, z");
    assert_eq!(join_strings(&vec![], ", "), "");
    assert_eq!(quote("http"), "\"http\"");
    assert_eq!(quote_all(&parts), vec!["\"x\"", "\"y\"", "\"z\""]);
}

#[test]
fn decimal_formatting() {
    assert_eq!(decimal_string(0), "0");
    assert_eq!(decimal_string(1907), "1907");
    assert_eq!(decimal_u64(u64::MAX), u64::MAX.to_string());
    assert_eq!(decimal_i64(-42), "-42");
    assert_eq!(decimal_i64(i64::MIN), i64::MIN.to_string());
    assert_eq!(decimal_i64(7), "7");
}

#[test]
fn usize_parsing_follows_str_parse() {
    assert_eq!(parse_usize("3"), Some(3));
    assert_eq!(parse_usize("+12"), Some(12));
    assert_eq!(parse_usize("007"), Some(7));
    assert_eq!(parse_usize(""), None);
    assert_eq!(parse_usize("+"), None);
    assert_eq!(parse_usize("-1"), None);
    assert_eq!(parse_usize("1a"), None);
    assert_eq!(parse_usize(" 1"), None);
    assert_eq!(parse_usize("99999999999999999999999"), None);
    assert_eq!(parse_usize(&usize::MAX.to_string()), Some(usize::MAX));
}

#[test]
fn printed_numbers_read_back() {
    for n in [0usize, 9, 10, 1234567, usize::MAX] {
        assert_eq!(parse_usize(&decimal_string(n)), Some(n));
    }
}

#[test]
fn white_space_is_the_unicode_set() {
    for c in ['\t', '\n', '\u{b}', '\u{c}', '\r', ' ', '\u{85}', '\u{a0}', '\u{1680}', '\u{2000}', '\u{200a}', '\u{2028}', '\u{2029}', '\u{202f}', '\u{205f}', '\u{3000}'] {
        assert_eq!(trim(&format!("{}x{}", c, c)), "x");
    }
    for c in ['\u{200b}', '\u{180e}', 'a', '\u{feff}'] {
        let s = format!("{}x", c);
        assert_eq!(trim(&s), s.as_str());
        assert_eq!(trim(&s), s.trim());
    }
}
