use claude_view_server::dates::{days_from_civil, decimal_chars, decimal_string, parse_date_to_ts, parse_i32, parse_u32};
use claude_view_server::plugins::validate_plugin_name;
use claude_view_server::text::{
    chars_eq, chars_of, concat3, contains_chars, copy_str, ends_with_chars, lower_chars,
    slice_chars, split_chars, starts_with_chars, str_is,
    str_lt, string_of, strip_prefixes_chars, strip_suffixes_chars, trim_chars,
};

fn cs(s: &str) -> Vec<char> {
    s.chars().collect()
}

#[test]
fn decimal_forms() {
    assert_eq!(decimal_string(0), "0");
    assert_eq!(decimal_string(7), "7");
    assert_eq!(decimal_string(1024), "1024");
    assert_eq!(decimal_string(u64::MAX), "18446744073709551615");
    assert_eq!(decimal_chars(305), cs("305"));
}

#[test]
fn decimal_forms_parse_back() {
    for n in [0u32, 9, 10, 4294967295, 123456] {
        assert_eq!(parse_u32(&decimal_chars(n as u64)), Some(n));
    }
}

#[test]
fn integer_parsing() {
    assert_eq!(parse_u32(&cs("+42")), Some(42));
    assert_eq!(parse_u32(&cs("4294967296")), None);
    assert_eq!(parse_u32(&cs("-1")), None);
    assert_eq!(parse_u32(&cs("")), None);
    assert_eq!(parse_u32(&cs("1a")), None);
    assert_eq!(parse_i32(&cs("-2147483648")), Some(i32::MIN));
    assert_eq!(parse_i32(&cs("2147483648")), None);
    assert_eq!(parse_i32(&cs("+7")), Some(7));
    assert_eq!(parse_i32(&cs("-")), None);
}

#[test]
fn consecutive_days_differ_by_one() {
    assert_eq!(days_from_civil(1970, 1, 1), 0);
    assert_eq!(days_from_civil(2024, 2, 29) + 1, days_from_civil(2024, 3, 1));
    assert_eq!(days_from_civil(2024, 3, 14) + 1, days_from_civil(2024, 3, 15));
    assert_eq!(days_from_civil(1969, 12, 31), -1);
    let start = parse_date_to_ts("2024-03-15", false).unwrap();
    let end = parse_date_to_ts("2024-03-15", true).unwrap();
    assert_eq!(end, start + 86399);
}

#[test]
fn string_helpers() {
    assert_eq!(string_of(&chars_of("añb")), "añb");
    assert_eq!(copy_str("x"), "x");
    assert_eq!(lower_chars("ÀbC"), cs("àbc"));
    assert!(chars_eq(&cs("ab"), &cs("ab")));
    assert!(!chars_eq(&cs("ab"), &cs("abc")));
    assert!(contains_chars(&cs("hello world"), &cs("o w")));
    assert!(contains_chars(&cs("abc"), &cs("")));
    assert!(!contains_chars(&cs("abc"), &cs("abcd")));
    assert!(starts_with_chars(&cs("prefix-x"), &cs("prefix")));
    assert!(!starts_with_chars(&cs("pre"), &cs("prefix")));
    assert!(ends_with_chars(&cs("file.git"), &cs(".git")));
    assert_eq!(slice_chars(&cs("abcdef"), 1, 4), cs("bcd"));
    assert_eq!(strip_prefixes_chars(&cs("ababc"), &cs("ab")), cs("c"));
    assert_eq!(strip_prefixes_chars(&cs("abc"), &cs("")), cs("abc"));
    assert_eq!(strip_suffixes_chars(&cs("x.git.git"), &cs(".git")), cs("x"));
    assert_eq!(trim_chars(&cs(" \t a b \n")), cs("a b"));
    assert_eq!(trim_chars(&cs("   ")), cs(""));
    let parts = split_chars(&cs("a,,b,"), ',');
    assert_eq!(parts, vec![cs("a"), cs(""), cs("b"), cs("")]);
    assert_eq!(split_chars(&cs(""), ','), vec![cs("")]);
    assert_eq!(concat3("a", "b", "c"), "abc");
    assert!(str_is("same", "same"));
    assert!(!str_is("same", "Same"));
    assert_eq!(trim_chars(&cs("\u{00A0}x y\u{2003}")), cs("x y"));
    assert!(validate_plugin_name("caf\u{e9}-plugin").is_err());
    assert!(validate_plugin_name("Cafe-9.x@m_k").is_ok());
    assert!(validate_plugin_name("a/b").is_err());
}

#[test]
fn string_order() {
    assert!(str_lt("a", "b"));
    assert!(str_lt("", "a"));
    assert!(str_lt("ab", "abc"));
    assert!(str_lt("Z", "a"));
    assert!(!str_lt("b", "a"));
    assert!(!str_lt("same", "same"));
    assert_eq!(str_lt("é", "z"), "é" < "z");
}
