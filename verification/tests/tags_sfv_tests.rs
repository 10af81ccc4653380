use bulwark_ext_filter::decision::{Decision, MASS_SCALE};
use bulwark_ext_filter::sfv::{serialize_decision_sfv, serialize_tags_sfv};
use bulwark_ext_filter::tags::{insert_tag, merge_tags, str_eq, str_le};

#[test]
fn string_order_is_lexicographic() {
    assert!(str_le("a", "b"));
    assert!(!str_le("b", "a"));
    assert!(str_le("a", "a"));
    assert!(str_le("a", "ab"));
    assert!(!str_le("ab", "a"));
    assert!(str_le("", "a"));
}

#[test]
fn string_equality_by_contents() {
    assert!(str_eq("abc", "abc"));
    assert!(!str_eq("abc", "abd"));
    assert!(!str_eq("abc", "ab"));
}

#[test]
fn insert_keeps_tags_sorted_and_unique() {
    let mut ts: Vec<String> = Vec::new();
    insert_tag(&mut ts, &"b".to_string());
    insert_tag(&mut ts, &"a".to_string());
    insert_tag(&mut ts, &"c".to_string());
    insert_tag(&mut ts, &"a".to_string());
    assert_eq!(ts, vec!["a".to_string(), "b".to_string(), "c".to_string()]);
}

#[test]
fn merge_unions_tag_sets() {
    let mut ts: Vec<String> = Vec::new();
    merge_tags(&mut ts, &vec!["b".to_string(), "a".to_string()]);
    merge_tags(&mut ts, &vec!["a".to_string(), "c".to_string()]);
    assert_eq!(ts, vec!["a".to_string(), "b".to_string(), "c".to_string()]);
}

#[test]
fn tags_serialize_sorted_comma_separated() {
    let ts = vec!["a".to_string(), "b".to_string(), "c".to_string()];
    assert_eq!(serialize_tags_sfv(&ts), "a, b, c");
}

#[test]
fn empty_and_single_tag_lists() {
    assert_eq!(serialize_tags_sfv(&Vec::new()), "");
    assert_eq!(serialize_tags_sfv(&vec!["only".to_string()]), "only");
}

#[test]
fn decision_serializes_with_six_fraction_digits() {
    let full = Decision { accept: MASS_SCALE, restrict: 0, unknown: 0 };
    assert_eq!(
        serialize_decision_sfv(&full),
        "accept=1.000000, restrict=0.000000, unknown=0.000000"
    );
    let ignorant = Decision { accept: 0, restrict: 0, unknown: MASS_SCALE };
    assert_eq!(
        serialize_decision_sfv(&ignorant),
        "accept=0.000000, restrict=0.000000, unknown=1.000000"
    );
    let mixed = Decision { accept: 722_222, restrict: 222_222, unknown: 55_556 };
    assert_eq!(
        serialize_decision_sfv(&mixed),
        "accept=0.722222, restrict=0.222222, unknown=0.055556"
    );
}
