use expansion::text::{find_close, find_pat_first, has_prefix, replace_first_in, rfind_char, to_decimal};
use expansion::words::{find_sep, find_space, join_from, split_spaces, split_words};

fn strings(parts: &[&str]) -> Vec<String> {
    parts.iter().map(|p| String::from(*p)).collect()
}

#[test]
fn decimal_rendering_is_plain_base_ten() {
    assert_eq!(to_decimal(0), "0");
    assert_eq!(to_decimal(7), "7");
    assert_eq!(to_decimal(10), "10");
    assert_eq!(to_decimal(12345), "12345");
    assert_eq!(to_decimal(1000), "1000");
}

#[test]
fn replace_first_touches_only_the_first_occurrence() {
    assert_eq!(replace_first_in("x %{prompt} y %{prompt}", "%{prompt}", "A"), "x A y %{prompt}");
    assert_eq!(replace_first_in("no marker here", "%{prompt}", "A"), "no marker here");
    assert_eq!(replace_first_in("%{prompt}", "%{prompt}", ""), "");
}

#[test]
fn find_pat_first_returns_the_leftmost_occurrence() {
    assert_eq!(find_pat_first("abcabc", "bc"), Some(1));
    assert_eq!(find_pat_first("abcabc", "zz"), None);
    assert_eq!(find_pat_first("abc", "abcd"), None);
}

#[test]
fn prefix_test_is_exact() {
    assert!(has_prefix("/a/b/c", "/a/b"));
    assert!(!has_prefix("/a/bc", "/a/bz"));
    assert!(has_prefix("x", ""));
    assert!(!has_prefix("", "x"));
}

#[test]
fn rfind_char_finds_the_last_occurrence() {
    assert_eq!(rfind_char("/a/b/c.rs", '/'), Some(4));
    assert_eq!(rfind_char("abc", '/'), None);
}

#[test]
fn find_close_finds_the_first_close_brace() {
    assert_eq!(find_close("ab}c}", 0), Some(2));
    assert_eq!(find_close("ab}c}", 3), Some(4));
    assert_eq!(find_close("abc", 0), None);
}

#[test]
fn words_split_on_whitespace_runs() {
    assert_eq!(split_words("prompt enter  name"), strings(&["prompt", "enter", "name"]));
    assert_eq!(split_words("  \t "), strings(&[]));
    assert_eq!(split_words("one"), strings(&["one"]));
}

#[test]
fn word_separator_search_skips_the_word() {
    assert_eq!(find_sep("ab cd", 0), 2);
    assert_eq!(find_sep("abcd", 0), 4);
    assert_eq!(find_space("ab cd", 3), 5);
}

#[test]
fn join_inserts_single_spaces() {
    assert_eq!(join_from(&strings(&["a", "b", "c"]), 0), "a b c");
    assert_eq!(join_from(&strings(&["a", "b", "c"]), 1), "b c");
    assert_eq!(join_from(&strings(&["a"]), 1), "");
    assert_eq!(join_from(&strings(&[]), 0), "");
}

#[test]
fn space_split_keeps_empty_fields() {
    assert_eq!(split_spaces("a  b"), strings(&["a", "", "b"]));
    assert_eq!(split_spaces(""), strings(&[""]));
    assert_eq!(split_spaces(" x "), strings(&["", "x", ""]));
}
