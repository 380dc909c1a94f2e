use alzed::text::{
    decimal_text, is_whitespace, join, parse_size, preview, text_eq, trim, truncate, uri_basename,
};

#[test]
fn whitespace_is_what_unicode_says() {
    let mut code: u32 = 0;
    while code <= 0x10ffff {
        if let Some(c) = char::from_u32(code) {
            assert_eq!(is_whitespace(c), c.is_whitespace());
        }
        code += 1;
    }
}

#[test]
fn trim_takes_space_off_both_ends() {
    assert_eq!(trim("  download-symbols\r\n"), "download-symbols");
    assert_eq!(trim("a b"), "a b");
    assert_eq!(trim(" \t\n"), "");
    assert_eq!(trim("\u{3000}x\u{a0}"), "x");
}

#[test]
fn numerals_are_written_and_read() {
    assert_eq!(decimal_text(0), "0");
    assert_eq!(decimal_text(900_000_000), "900000000");
    assert_eq!(decimal_text(u64::MAX), "18446744073709551615");
    assert_eq!(parse_size("0042"), Some(42));
    assert_eq!(parse_size("+7"), Some(7));
    assert_eq!(parse_size("+"), None);
    assert_eq!(parse_size(""), None);
    assert_eq!(parse_size("-0"), None);
    assert_eq!(parse_size("1 2"), None);
    assert_eq!(parse_size(&decimal_text(usize::MAX as u64)), Some(usize::MAX));
    assert_eq!(parse_size("18446744073709551616"), None);
}

#[test]
fn text_is_compared_by_characters() {
    assert!(text_eq("caf\u{e9}", "caf\u{e9}"));
    assert!(!text_eq("caf\u{e9}", "cafe\u{301}"));
    assert!(!text_eq("a", "ab"));
    assert!(text_eq("", ""));
}

#[test]
fn join_puts_the_separator_between() {
    let lines = vec!["a".to_string(), "".to_string(), "c".to_string()];
    assert_eq!(join(&lines, "\n"), "a\n\nc");
    assert_eq!(join(&vec!["only".to_string()], "\n"), "only");
    assert_eq!(join(&Vec::new(), "\n"), "");
}

#[test]
fn truncate_cuts_at_a_number_of_bytes() {
    assert_eq!(truncate("abcdef", 6), "abcdef");
    assert_eq!(truncate("abcdef", 3), "abc\u{2026}");
    assert_eq!(truncate("\u{e9}\u{e9}\u{e9}", 4), "\u{e9}\u{e9}\u{2026}");
    assert_eq!(truncate("abc", 0), "\u{2026}");
    assert_eq!(truncate("", 0), "");
}

#[test]
fn previews_cut_between_characters() {
    assert_eq!(preview("abc", 3), "abc");
    assert_eq!(preview("abcd", 3), "abc\u{2026}");
    assert_eq!(preview("a\u{20ac}b", 3), "a\u{2026}");
    assert_eq!(preview("a\u{20ac}b", 4), "a\u{20ac}\u{2026}");
    assert_eq!(preview("\u{1f600}", 3), "\u{2026}");
    assert_eq!(preview("", 0), "");
}

#[test]
fn uri_basename_is_the_last_part_that_is_not_empty() {
    assert_eq!(uri_basename("file:///home/me/proj"), "proj");
    assert_eq!(uri_basename("file:///home/me/proj/"), "proj");
    assert_eq!(uri_basename("file:///home/me/proj//"), "proj");
    assert_eq!(uri_basename("file:///"), "file:");
    assert_eq!(uri_basename("plain"), "plain");
    assert_eq!(uri_basename("///"), "///");
    assert_eq!(uri_basename(""), "");
}
