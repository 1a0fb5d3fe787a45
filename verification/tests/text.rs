use locaryn_plugin_voice_tts::text::{blank, sorted_unique, split_lines, trim};

#[test]
fn trimming_removes_unicode_white_space_at_both_ends() {
    assert_eq!(trim("  a b \t\n"), "a b");
    assert_eq!(trim("\u{3000}nom\u{a0}"), "nom");
    assert_eq!(trim(""), "");
    assert!(blank(" \r\n\u{2003}"));
    assert!(!blank(" x "));
}

#[test]
fn lines_split_like_str_lines() {
    assert_eq!(split_lines("a\nb\r\nc"), vec!["a", "b", "c"]);
    assert_eq!(split_lines("a\n"), vec!["a"]);
    assert_eq!(split_lines("\n\nx"), vec!["", "", "x"]);
    assert_eq!(split_lines("a\r"), vec!["a\r"]);
    assert!(split_lines("").is_empty());
    let s = "l1\r\n\nl3\n  \nend";
    let expected: Vec<&str> = s.lines().collect();
    assert_eq!(split_lines(s), expected);
}

#[test]
fn sorting_orders_like_string_comparison() {
    let v: Vec<String> = ["b", "é", "a", "B", "ab", "a"].iter().map(|s| s.to_string()).collect();
    let mut expected = v.clone();
    expected.sort();
    expected.dedup();
    assert_eq!(sorted_unique(v), expected);
}
