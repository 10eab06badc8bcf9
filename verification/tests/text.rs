use llmman_launch::json::Json;
use llmman_launch::text::{contains, is_whitespace, trim_text};
use llmman_launch::value::{compact_json, from_value, parse_json, pretty_json, to_value};

#[test]
fn white_space_is_what_the_standard_library_takes_for_it() {
    for c in '\0'..=char::MAX {
        assert_eq!(is_whitespace(c), c.is_whitespace(), "{c:?}");
    }
}

#[test]
fn trimming_takes_white_space_off_both_ends() {
    for text in ["", " ", "a", " a ", "\u{3000}a b\n", "\u{200b}a"] {
        assert_eq!(trim_text(text), text.trim());
    }
}

#[test]
fn a_part_of_a_text_is_found_anywhere_in_it() {
    assert!(contains("xaaab", "aab"));
    assert!(contains("abc", ""));
    assert!(!contains("ab", "abc"));
    assert!(!contains("a-b", "ab"));
}

#[test]
fn documents_come_and_go_through_serde_json() {
    let text = r#"{"b":[1,-2,0.5,null,true,"x\"y"],"a":{"c":{}}}"#;
    let value: serde_json::Value = serde_json::from_str(text).unwrap();
    let doc = from_value(value.clone());
    assert_eq!(to_value(&doc), value);
    assert_eq!(to_value(&doc.clone()), value);
    assert_eq!(
        compact_json(&doc),
        r#"{"a":{"c":{}},"b":[1,-2,0.5,null,true,"x\"y"]}"#
    );
    let read = parse_json(&pretty_json(&doc)).unwrap();
    assert!(read.equals(&doc));
    assert!(pretty_json(&doc).contains("\n  \"a\": {"));
    assert!(parse_json("{").is_none());
}

#[test]
fn documents_are_compared_field_by_field() {
    let doc = |text: &str| parse_json(text).unwrap();
    assert!(doc(r#"{"a":1,"b":2}"#).equals(&doc(r#"{"b":2,"a":1}"#)));
    assert!(!doc(r#"{"a":1}"#).equals(&doc(r#"{"a":1,"b":2}"#)));
    assert!(!doc(r#"{"a":1,"b":2}"#).equals(&doc(r#"{"a":1}"#)));
    assert!(!doc("[1]").equals(&doc("[2]")));
    assert!(!doc("1").equals(&doc("1.0")));
    assert!(doc("1.5").equals(&doc("1.5")));
    assert!(!doc("null").equals(&doc("false")));
    // The first field of a name counts.
    let twice = Json::Object(vec![
        ("a".to_string(), Json::Bool(true)),
        ("a".to_string(), Json::Null),
    ]);
    assert!(twice.equals(&doc(r#"{"a":true}"#)));
    assert_eq!(to_value(&twice), to_value(&doc(r#"{"a":true}"#)));
    assert!(matches!(twice.get("a"), Some(Json::Bool(true))));
}
