use loan_calendar::text::{
    join, same_text, starts_with, take_chars, trim_end_matches, trim_matches,
};

#[test]
fn take_chars_counts_characters() {
    assert_eq!(take_chars("hello", 3), "hel");
    assert_eq!(take_chars("hello", 5), "hello");
    assert_eq!(take_chars("hello", 50), "hello");
    assert_eq!(take_chars("hello", 0), "");
    assert_eq!(take_chars("", 3), "");
    assert_eq!(take_chars("予約有り", 2), "予約");
    assert_eq!(take_chars("aé\u{10FFFF}z", 3), "aé\u{10FFFF}");
}

#[test]
fn trim_end_matches_removes_the_whole_run_at_the_end_only() {
    assert_eq!(trim_end_matches("ABC===", '='), "ABC");
    assert_eq!(trim_end_matches("ABC", '='), "ABC");
    assert_eq!(trim_end_matches("=A=B=", '='), "=A=B");
    assert_eq!(trim_end_matches("===", '='), "");
    assert_eq!(trim_end_matches("", '='), "");
    assert_eq!(trim_end_matches("予約==", '='), "予約");
}

#[test]
fn trim_matches_removes_the_runs_at_both_ends() {
    assert_eq!(trim_matches("\"3141\"", '"'), "3141");
    assert_eq!(trim_matches("\"\"31\"41\"\"\"", '"'), "31\"41");
    assert_eq!(trim_matches("3141", '"'), "3141");
    assert_eq!(trim_matches("\"3141", '"'), "3141");
    assert_eq!(trim_matches("3141\"", '"'), "3141");
    assert_eq!(trim_matches("\"\"\"", '"'), "");
    assert_eq!(trim_matches("\"", '"'), "");
    assert_eq!(trim_matches("", '"'), "");
}

#[test]
fn same_text_compares_character_by_character() {
    assert!(same_text("予約有", "予約有"));
    assert!(!same_text("予約有", "予約"));
    assert!(!same_text("a", "A"));
    assert!(same_text("", ""));
}

#[test]
fn join_puts_the_second_behind_the_first() {
    assert_eq!(join("ab", "cd"), "abcd");
    assert_eq!(join("", "cd"), "cd");
    assert_eq!(join("ab", ""), "ab");
}

#[test]
fn starts_with_looks_at_the_start_only() {
    assert!(starts_with("[予約有] Sample", "[予約有] "));
    assert!(starts_with("abc", "abc"));
    assert!(starts_with("abc", "ab"));
    assert!(starts_with("abc", ""));
    assert!(starts_with("", ""));
    assert!(!starts_with("abc", "bc"));
    assert!(!starts_with("ab", "abc"));
    assert!(!starts_with("", "a"));
    assert!(!starts_with("Sample [予約有] ", "[予約有] "));
    assert!(!starts_with("予約", "予約有"));
}
