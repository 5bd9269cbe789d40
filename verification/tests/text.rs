use zeroclaw::text::{
    clean_setting, concatenate, debug_quote, decimal_string, decode_utf8_lossy, decode_utf8_strict,
    is_whitespace, json_quote, parse_u64, parse_usize, to_lowercase, trim, trim_end,
    truncate_with_ellipsis,
};

#[test]
fn trims_unicode_whitespace() {
    assert_eq!(trim("  \t hello world \n"), "hello world");
    assert_eq!(trim("\u{3000}x\u{2009}"), "x");
    assert_eq!(trim("   "), "");
    assert_eq!(trim(""), "");
    assert_eq!(trim_end("  ab  "), "  ab");
    assert!(is_whitespace('\u{85}'));
    assert!(!is_whitespace('\u{200b}'));
    assert!(!is_whitespace('a'));
}

#[test]
fn clean_setting_drops_blank_values() {
    assert_eq!(clean_setting(None), None);
    assert_eq!(clean_setting(Some("  ")), None);
    assert_eq!(clean_setting(Some(" py ")), Some("py".to_string()));
}

#[test]
fn formats_decimals() {
    assert_eq!(decimal_string(0), "0");
    assert_eq!(decimal_string(9573), "9573");
    assert_eq!(decimal_string(u64::MAX), "18446744073709551615");
}

#[test]
fn parses_unsigned_numbers_like_std() {
    for s in ["0", "42", "+42", "", "+", "-1", " 5", "5 ", "1_0", "007", "18446744073709551615", "18446744073709551616", "٣"] {
        assert_eq!(parse_u64(s), s.parse::<u64>().ok(), "input {:?}", s);
        assert_eq!(parse_usize(s), s.parse::<usize>().ok(), "input {:?}", s);
    }
}

#[test]
fn truncates_with_ellipsis() {
    assert_eq!(truncate_with_ellipsis("hello world", 5), "hello...");
    assert_eq!(truncate_with_ellipsis("ab   cd", 4), "ab...");
    assert_eq!(truncate_with_ellipsis("short", 10), "short");
    assert_eq!(truncate_with_ellipsis("exact", 5), "exact");
    assert_eq!(truncate_with_ellipsis("日本語テキスト", 3), "日本語...");
}

#[test]
fn concatenates() {
    assert_eq!(concatenate("ab", "cd"), "abcd");
    assert_eq!(concatenate("", ""), "");
}

#[test]
fn std_bridges_transform_their_input() {
    assert_eq!(to_lowercase("MemPalace ÄÖ"), "mempalace äö");
    assert_eq!(decode_utf8_lossy(b"ok\xffok"), "ok\u{fffd}ok");
    assert_eq!(decode_utf8_strict(b"caf\xc3\xa9".to_vec()), Some("café".to_string()));
    assert_eq!(decode_utf8_strict(vec![0xc3]), None);
    assert_eq!(json_quote("a\"b\n"), Some("\"a\\\"b\\n\"".to_string()));
    assert_eq!(debug_quote("say \"hi\""), "\"say \\\"hi\\\"\"");
}
