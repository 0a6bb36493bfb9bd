use mop::num::{i32_to_string, parse_i32, parse_u32, u32_to_string};
use mop::text::{contains_str, prefix, replace_all, str_eq};

#[test]
fn replace_all_replaces_every_occurrence() {
    assert_eq!(replace_all("a-b-c", "-", "+"), "a+b+c");
    assert_eq!(replace_all("./%artist - %title", "%artist", "Queen"), "./Queen - %title");
    assert_eq!(replace_all("nothing here", "%x", "y"), "nothing here");
    assert_eq!(replace_all("", "ab", "c"), "");
}

#[test]
fn replace_all_resumes_after_each_match() {
    assert_eq!(replace_all("aaa", "aa", "b"), "ba");
    assert_eq!(replace_all("abab", "ab", "ab!"), "ab!ab!");
    assert_eq!(replace_all("x", "x", ""), "");
}

#[test]
fn replace_all_agrees_with_std() {
    let cases = [("héllo wörld", "ö", "oe"), ("%%%", "%%", "%"), ("a/b/c", "/", "%2F")];
    for (s, from, to) in cases {
        assert_eq!(replace_all(s, from, to), s.replace(from, to));
    }
}

#[test]
fn contains_str_finds_substrings() {
    assert!(contains_str("https://musicbrainz.org/ws/2/artist", "musicbrainz.org"));
    assert!(contains_str("abc", ""));
    assert!(!contains_str("abc", "abcd"));
    assert!(!contains_str("abc", "cb"));
}

#[test]
fn str_eq_and_prefix() {
    assert!(str_eq("Official", "Official"));
    assert!(!str_eq("Official", "official"));
    assert_eq!(prefix("1999-05-01", 4), "1999");
    assert_eq!(prefix("é123", 2), "é1");
}

#[test]
fn numbers_print_as_to_string_does() {
    assert_eq!(u32_to_string(0), "0");
    assert_eq!(u32_to_string(4294967295), "4294967295");
    assert_eq!(i32_to_string(-45), "-45");
    assert_eq!(i32_to_string(1969), "1969");
    assert_eq!(i32_to_string(i32::MIN), i32::MIN.to_string());
}

#[test]
fn numbers_parse_as_parse_does() {
    assert_eq!(parse_i32("+12"), Some(12));
    assert_eq!(parse_i32("-2147483648"), Some(i32::MIN));
    assert_eq!(parse_i32("2147483647"), Some(i32::MAX));
    assert_eq!(parse_i32("2147483648"), None);
    assert_eq!(parse_i32(""), None);
    assert_eq!(parse_i32("-"), None);
    assert_eq!(parse_i32("12a"), None);
    assert_eq!(parse_i32(" 12"), None);
    assert_eq!(parse_i32("0012"), Some(12));
    assert_eq!(parse_u32("-0"), None);
    assert_eq!(parse_u32("+7"), Some(7));
    assert_eq!(parse_u32("4294967295"), Some(u32::MAX));
    assert_eq!(parse_u32("4294967296"), None);
    for s in ["100", "-1", "+0", "99999999999", "٣"] {
        assert_eq!(parse_i32(s), s.parse::<i32>().ok());
        assert_eq!(parse_u32(s), s.parse::<u32>().ok());
    }
}

#[test]
fn printed_numbers_parse_back() {
    for x in [0, 1, -1, 1800, -2147483648, 2147483647] {
        assert_eq!(parse_i32(&i32_to_string(x)), Some(x));
    }
    for n in [0u32, 9, 10, 4294967295] {
        assert_eq!(parse_u32(&u32_to_string(n)), Some(n));
    }
}
