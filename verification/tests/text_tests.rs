use g13_nexus::str_map::{same_text, StrMap};
use g13_nexus::text::{
    chars_of, concatenated, ends_with, join_strings, remove_all_occurrences, split_first_two_lines,
    starts_with, string_from_chars, string_from_range,
};

#[test]
fn chars_and_back() {
    let c = chars_of("héllo");
    assert_eq!(c, vec!['h', 'é', 'l', 'l', 'o']);
    assert_eq!(string_from_chars(&c), "héllo");
    assert_eq!(string_from_range(&c, 1, 3), "él");
    assert_eq!(string_from_chars(&vec![]), "");
}

#[test]
fn prefixes_and_suffixes() {
    assert!(starts_with("MACRO:G1", "MACRO:"));
    assert!(!starts_with("MACR", "MACRO:"));
    assert!(starts_with("x", ""));
    assert!(ends_with("a.json", ".json"));
    assert!(!ends_with("json", ".json"));
}

#[test]
fn removing_occurrences() {
    assert_eq!(remove_all_occurrences("a.json.json", ".json"), "a");
    assert_eq!(remove_all_occurrences("abc", ".json"), "abc");
    assert_eq!(remove_all_occurrences("aaa", "aa"), "a");
}

#[test]
fn joining() {
    let parts = vec!["G1".to_string(), "G2".to_string(), "G3".to_string()];
    assert_eq!(join_strings(&parts, ","), "G1,G2,G3");
    assert_eq!(join_strings(&parts, " -> "), "G1 -> G2 -> G3");
    assert_eq!(join_strings(&vec![], ","), "");
    assert_eq!(join_strings(&vec!["x".to_string()], ","), "x");
}

#[test]
fn concatenating() {
    assert_eq!(concatenated("ab", "cd"), "abcd");
}

#[test]
fn splitting_lines() {
    assert_eq!(split_first_two_lines("M1\n[ACTIVE]"), ("M1".to_string(), Some("[ACTIVE]".to_string())));
    assert_eq!(split_first_two_lines("M2"), ("M2".to_string(), None));
    assert_eq!(split_first_two_lines("a\nb\nc"), ("a".to_string(), Some("b".to_string())));
    assert_eq!(split_first_two_lines("a\n"), ("a".to_string(), Some("".to_string())));
}

#[test]
fn comparing_text() {
    assert!(same_text("MR", "MR"));
    assert!(!same_text("MR", "M"));
    assert!(!same_text("ab", "ba"));
}

#[test]
fn string_map_insert_get_take() {
    let mut m: StrMap<String> = StrMap::new();
    m.insert("G1".to_string(), "KEY_A".to_string());
    m.insert("G2".to_string(), "KEY_B".to_string());
    m.insert("G1".to_string(), "KEY_C".to_string());
    assert_eq!(m.get("G1"), Some(&"KEY_C".to_string()));
    assert_eq!(m.entries().len(), 2);
    assert!(m.contains_key("G2"));
    assert_eq!(m.take("G2"), Some("KEY_B".to_string()));
    assert_eq!(m.take("G2"), None);
    m.remove("G1");
    assert!(m.entries().is_empty());
}
