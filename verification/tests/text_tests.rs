use soroban_pulse::text::{
    has_prefix, occurs, same_text, split_on, trim,
    trim_start_matches,
};

#[test]
fn split_keeps_empty_pieces() {
    assert_eq!(split_on("", ','), vec![""]);
    assert_eq!(split_on("a,,b,", ','), vec!["a", "", "b", ""]);
    assert_eq!(split_on("abc", ','), vec!["abc"]);
}

#[test]
fn trim_removes_unicode_white_space() {
    assert_eq!(trim("  a b \t\n"), "a b");
    assert_eq!(trim("\u{3000}x\u{a0}"), "x");
    assert_eq!(trim("   "), "");
    assert_eq!(trim("\u{2028}x\u{200b}"), "x\u{200b}");
}

#[test]
fn prefix_and_occurrence() {
    assert!(has_prefix("$.token", "$."));
    assert!(!has_prefix("$", "$."));
    assert!(occurs("ABC;DEF", ";"));
    assert!(!occurs("ABC", "ABCD"));
    assert!(occurs("ABC", ""));
    assert!(same_text("é", "é"));
    assert!(!same_text("ab", "abc"));
}

#[test]
fn trim_start_matches_strips_every_leading_copy() {
    assert_eq!(trim_start_matches("$.$.token", "$."), "token");
    assert_eq!(trim_start_matches("token", "$."), "token");
    assert_eq!(trim_start_matches("$.", "$."), "");
}
