use morpho_engine::text::{
    ascii_lowercase, contains, dec_string, eq_ignore_ascii_case, last_segment, parse_u32, push_dec_i64, push_padded,
    replace_char, starts_with, trim, trim_start, trim_start_char,
};

#[test]
fn text_helpers() {
    assert_eq!(ascii_lowercase("MiXeD-Ä"), "mixed-Ä");
    assert!(eq_ignore_ascii_case("PNG", "png"));
    assert!(!eq_ignore_ascii_case("png", "pn"));
    assert_eq!(trim("\u{3000} a b \n"), "a b");
    assert_eq!(trim_start("  x "), "x ");
    assert_eq!(trim_start_char("...md", '.'), "md");
    assert!(starts_with("doc-1", "doc-"));
    assert!(!starts_with("do", "doc"));
    assert!(contains("arial-boldmt", "bold"));
    assert!(!contains("arial", "bold"));
    assert_eq!(last_segment("a-b-12", '-'), "12");
    assert_eq!(last_segment("plain", '-'), "plain");
    assert_eq!(last_segment("trail-", '-'), "");
    assert_eq!(replace_char(r"a\b\c", '\\', '/'), "a/b/c");
}

#[test]
fn numbers() {
    assert_eq!(parse_u32("42"), Some(42));
    assert_eq!(parse_u32("+7"), Some(7));
    assert_eq!(parse_u32("007"), Some(7));
    assert_eq!(parse_u32("4294967295"), Some(u32::MAX));
    assert_eq!(parse_u32("4294967296"), None);
    assert_eq!(parse_u32(""), None);
    assert_eq!(parse_u32("+"), None);
    assert_eq!(parse_u32("-1"), None);
    assert_eq!(parse_u32("1a"), None);
    assert_eq!(dec_string(0), "0");
    assert_eq!(dec_string(u64::MAX), "18446744073709551615");
    let mut s = String::new();
    push_dec_i64(&mut s, -305);
    assert_eq!(s, "-305");
    let mut t = String::new();
    push_padded(&mut t, 7, 3);
    push_padded(&mut t, 12345, 2);
    assert_eq!(t, "00712345");
}
