use crabsync::cli::{
    added_message, after_remove_attempt, list_lines, removal_order, removed_message, source_for,
    RemoveStep,
};
use crabsync::config::{tag_pairs, Pair, PairSource};
use crabsync::text::{chars_of, join_strings, repeat_str, str_contains, to_decimal};

#[test]
fn substring_search() {
    assert!(str_contains("hello world", "lo w"));
    assert!(str_contains("abc", ""));
    assert!(!str_contains("abc", "abcd"));
    assert!(!str_contains("aab", "abb"));
    assert!(str_contains("aab", "ab"));
}

#[test]
fn join_repeat_decimal() {
    let parts = vec!["a".to_string(), "b".to_string(), "c".to_string()];
    assert_eq!(join_strings(&parts, "/"), "a/b/c");
    assert_eq!(join_strings(&Vec::new(), "/"), "");
    assert_eq!(repeat_str("  ", 3), "      ");
    assert_eq!(to_decimal(0), "0");
    assert_eq!(to_decimal(7), "7");
    assert_eq!(to_decimal(1234), "1234");
}

#[test]
fn char_helpers() {
    assert_eq!(chars_of("h\u{e9}!"), vec!['h', '\u{e9}', '!']);
}

#[test]
fn cli_messages() {
    assert_eq!(source_for(true), PairSource::Global);
    assert_eq!(source_for(false), PairSource::Local);
    assert_eq!(
        added_message(&"p".to_string(), &"./d".to_string(), &"u@s:/b".to_string(), false),
        "added pair 'p' to local config: ./d -> u@s:/b"
    );
    assert_eq!(removed_message(&"p".to_string(), PairSource::Global), "removed pair 'p' from global config");
    assert_eq!(removal_order(true), vec![PairSource::Global]);
    assert_eq!(removal_order(false), vec![PairSource::Local, PairSource::Global]);
}

#[test]
fn cli_list_lines() {
    assert_eq!(list_lines(&Vec::new()), vec!["no pairs configured".to_string()]);
    let p = |n: &str| Pair { name: n.into(), local: "/l".into(), remote: "r:/x".into() };
    let all = tag_pairs(vec![p("a")], vec![p("a")]);
    assert_eq!(
        list_lines(&all),
        vec!["a: /l -> r:/x [local]".to_string(), "a: /l -> r:/x [global] (shadowed)".to_string()]
    );
}

#[test]
fn remove_falls_back_to_global() {
    assert_eq!(after_remove_attempt(false, 0, true), RemoveStep::Removed(PairSource::Local));
    assert_eq!(after_remove_attempt(false, 0, false), RemoveStep::Retry(PairSource::Global));
    assert_eq!(after_remove_attempt(false, 1, true), RemoveStep::Removed(PairSource::Global));
    assert_eq!(after_remove_attempt(false, 1, false), RemoveStep::GiveUp);
    assert_eq!(after_remove_attempt(true, 0, true), RemoveStep::Removed(PairSource::Global));
    assert_eq!(after_remove_attempt(true, 0, false), RemoveStep::GiveUp);
}
