use bms_briefing_parser::text::{
    after_first_str, contains, first_word_str, lines, parse_i32, parse_usize, split, splitn,
    tokens, trim_matches, trim_str, Strip,
};

#[test]
fn split_keeps_empty_pieces() {
    assert_eq!(split("a\t\tb\t", '\t'), vec!["a", "", "b", ""]);
    assert_eq!(split("", '\t'), vec![""]);
}

#[test]
fn lines_like_std() {
    assert_eq!(lines("a\r\nb\n\nc\n"), vec!["a", "b", "", "c"]);
    assert!(lines("").is_empty());
    assert_eq!(lines("x\r"), vec!["x\r"]);
}

#[test]
fn trims() {
    assert_eq!(trim_str(" \t a b \u{a0}"), "a b");
    assert_eq!(trim_matches("--Flight- ", Strip::SpaceOrDash), "Flight");
    assert_eq!(trim_matches("::Tower:", Strip::Colon), "Tower");
    assert_eq!(trim_matches("(Strike)", Strip::Parens), "Strike");
}

#[test]
fn tokens_trim_and_drop_blanks() {
    assert_eq!(tokens("\t a \t\t b\t"), vec!["a", "b"]);
}

#[test]
fn splitn_and_after_first() {
    assert_eq!(splitn("a\tb\tc\td\te\tf", 5, '\t'), vec!["a", "b", "c", "d", "e\tf"]);
    assert_eq!(after_first_str("Active: M1: x", ':'), " M1: x");
    assert_eq!(after_first_str("none", ':'), "none");
}

#[test]
fn words_and_substrings() {
    assert_eq!(first_word_str("  4711 (x)"), Some("4711"));
    assert_eq!(first_word_str("   "), None);
    assert!(contains("VIPER1*", "VIPER1"));
    assert!(!contains("VIPER", "VIPER1"));
    assert!(contains("abc", ""));
}

#[test]
fn integers_like_std() {
    assert_eq!(parse_usize("270"), Some(270));
    assert_eq!(parse_usize("+7"), Some(7));
    assert_eq!(parse_usize("-7"), None);
    assert_eq!(parse_usize(""), None);
    assert_eq!(parse_usize("12.5"), None);
    assert_eq!(parse_usize("18446744073709551615"), Some(usize::MAX));
    assert_eq!(parse_usize("18446744073709551616"), None);
    assert_eq!(parse_i32("-2147483648"), Some(i32::MIN));
    assert_eq!(parse_i32("2147483647"), Some(i32::MAX));
    assert_eq!(parse_i32("2147483648"), None);
    assert_eq!(parse_i32("-"), None);
    assert_eq!(parse_i32("+"), None);
}
