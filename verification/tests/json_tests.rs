use mocks::json::{Json, JsonMap};
use mocks::text::{chars_of, find_last, has_part, has_prefix, has_suffix, order_of, same_chars, KeyOrder};

fn chars(text: &str) -> Vec<char> {
    text.chars().collect()
}

#[test]
fn objects_hold_their_members_in_key_order() {
    let value = Json::object(vec![
        ("title", Json::text("A")),
        ("id", Json::number("1")),
        ("views", Json::number("5")),
    ]);
    let members = value.as_object().unwrap();
    assert_eq!(members.len(), 3);
    assert_eq!(members.key_at(0), "id");
    assert_eq!(members.key_at(1), "title");
    assert_eq!(members.key_at(2), "views");
    assert_eq!(*members.value_at(1), Json::text("A"));
    assert_eq!(value, Json::parse(r#"{"views": 5, "id": 1, "title": "A"}"#).unwrap());
}

#[test]
fn a_key_that_is_set_twice_keeps_the_last_value() {
    let value = Json::object(vec![("a", Json::number("1")), ("a", Json::number("2"))]);
    assert_eq!(value.as_object().unwrap().len(), 1);
    assert_eq!(*value.get("a").unwrap(), Json::number("2"));
    assert_eq!(Json::parse(r#"{"a": 1, "a": 2}"#).unwrap(), value);
}

#[test]
fn keys_are_ordered_by_character_code() {
    let value = Json::parse(r#"{"é": 1, "z": 2, "Z": 3, "": 4, "za": 5}"#).unwrap();
    let members = value.as_object().unwrap();
    let keys: Vec<String> = (0..members.len()).map(|i| members.key_at(i).clone()).collect();
    assert_eq!(keys, vec!["", "Z", "z", "za", "é"]);
    assert_eq!(members.find("za"), Some(3));
    assert_eq!(members.find("zb"), None);
}

#[test]
fn insert_replaces_or_adds() {
    let mut members = JsonMap::new();
    assert_eq!(members.len(), 0);
    members.insert("b".to_string(), Json::Bool(true));
    members.insert("a".to_string(), Json::Null);
    members.insert("b".to_string(), Json::Bool(false));
    assert_eq!(members.len(), 2);
    assert_eq!(members.get("b"), Some(&Json::Bool(false)));
    assert_eq!(members.get("a"), Some(&Json::Null));
    assert_eq!(members.get("c"), None);
    assert_eq!(members.key_at(0), "a");
}

#[test]
fn extend_is_a_shallow_merge_in_which_the_other_wins() {
    let mut left = JsonMap::from_pairs(vec![
        ("a", Json::number("1")),
        ("n", Json::parse(r#"{"x": 1, "y": 2}"#).unwrap()),
    ]);
    let right = JsonMap::from_pairs(vec![
        ("n", Json::parse(r#"{"x": 9}"#).unwrap()),
        ("z", Json::Null),
    ]);
    left.extend(&right);
    assert_eq!(
        Json::Object(left),
        Json::parse(r#"{"a": 1, "n": {"x": 9}, "z": null}"#).unwrap()
    );
}

#[test]
fn a_copy_equals_the_value_it_was_made_of() {
    let value = Json::parse(r#"{"a": [1, "two", {"three": [true, null]}], "b": {"c": 1.5}}"#).unwrap();
    assert_eq!(value.duplicate(), value);
    assert_eq!(value.clone(), value);
    let members = value.as_object().unwrap();
    assert_eq!(Json::Object(members.clone()), value);
}

#[test]
fn accessors_tell_the_shapes_apart() {
    let array = Json::array(vec![Json::Null]);
    assert!(array.is_array());
    assert!(!array.is_object());
    assert_eq!(array.as_array().unwrap().len(), 1);
    assert!(array.as_object().is_none());
    assert!(array.get("id").is_none());
    let object = Json::object(Vec::new());
    assert!(object.is_object());
    assert!(object.as_array().is_none());
    assert!(!Json::text("x").is_array());
    assert!(!Json::text("x").is_object());
}

#[test]
fn numbers_are_held_by_their_canonical_text() {
    let value = Json::parse(r#"[1, -3, 1.5, 1e2, 0.10, 18446744073709551615]"#).unwrap();
    let items = value.as_array().unwrap();
    assert_eq!(items[0], Json::number("1"));
    assert_eq!(items[1], Json::number("-3"));
    assert_eq!(items[2], Json::number("1.5"));
    assert_eq!(items[3], Json::number("100.0"));
    assert_eq!(items[4], Json::number("0.1"));
    assert_eq!(items[5], Json::number("18446744073709551615"));
}

#[test]
fn parse_reads_every_kind_of_value() {
    assert_eq!(Json::parse("null").unwrap(), Json::Null);
    assert_eq!(Json::parse("true").unwrap(), Json::Bool(true));
    assert_eq!(Json::parse(r#""a\nb""#).unwrap(), Json::text("a\nb"));
    assert_eq!(
        Json::parse(" [ 1 , [ ] ] ").unwrap(),
        Json::array(vec![Json::number("1"), Json::array(Vec::new())])
    );
}

#[test]
fn parse_hands_back_the_message_of_the_parser() {
    assert_eq!(
        Json::parse("{").unwrap_err(),
        "EOF while parsing an object at line 1 column 1"
    );
    assert_eq!(Json::parse("").unwrap_err(), "EOF while parsing a value at line 1 column 0");
    assert!(Json::parse("[1,]").is_err());
    assert!(Json::parse("{} x").is_err());
}

#[test]
fn pretty_writes_two_spaces_of_indent() {
    let value = Json::parse(r#"{"posts":[{"id":1,"title":"t"}],"profile":{},"list":[]}"#).unwrap();
    assert_eq!(
        value.pretty().unwrap(),
        "{\n  \"list\": [],\n  \"posts\": [\n    {\n      \"id\": 1,\n      \"title\": \"t\"\n    }\n  ],\n  \"profile\": {}\n}"
    );
    assert_eq!(Json::text("a\"b").pretty().unwrap(), "\"a\\\"b\"");
    assert_eq!(Json::number("1.5").pretty().unwrap(), "1.5");
}

#[test]
fn pretty_and_parse_give_the_value_back() {
    let value = Json::parse(r#"{"a": [1, "two", {"three": [true, null]}], "b": {"c": -1.5e3}}"#).unwrap();
    assert_eq!(Json::parse(&value.pretty().unwrap()).unwrap(), value);
}

#[test]
fn pretty_refuses_a_number_that_is_none() {
    let value = Json::array(vec![Json::number("abc")]);
    assert!(value.pretty().is_err());
    let value = Json::object(vec![("n", Json::number("1 2"))]);
    assert!(value.pretty().is_err());
}

#[test]
fn keys_are_compared_by_their_characters() {
    assert_eq!(order_of(&chars("a"), &chars("b")), KeyOrder::Before);
    assert_eq!(order_of(&chars("b"), &chars("a")), KeyOrder::After);
    assert_eq!(order_of(&chars("ab"), &chars("ab")), KeyOrder::Same);
    assert_eq!(order_of(&chars("a"), &chars("ab")), KeyOrder::Before);
    assert_eq!(order_of(&chars("ab"), &chars("a")), KeyOrder::After);
    assert_eq!(order_of(&chars(""), &chars("")), KeyOrder::Same);
    assert_eq!(order_of(&chars("z"), &chars("é")), KeyOrder::Before);
    assert_eq!(chars_of("héllo"), chars("héllo"));
}

#[test]
fn text_searches_agree_with_std() {
    let cases = [
        ("hello world", "hello"),
        ("hello world", "world"),
        ("hello world", "o w"),
        ("hello", "hello"),
        ("hello", "hello!"),
        ("hello", ""),
        ("", ""),
        ("", "a"),
        ("aaa", "aa"),
        ("abcabd", "abd"),
        ("naïve café", "ï"),
    ];
    for (text, part) in cases {
        assert_eq!(has_prefix(&chars(text), &chars(part)), text.starts_with(part));
        assert_eq!(has_suffix(&chars(text), &chars(part)), text.ends_with(part));
        assert_eq!(has_part(&chars(text), &chars(part)), text.contains(part));
        assert_eq!(same_chars(&chars(text), &chars(part)), text == part);
    }
    assert_eq!(find_last(&chars("api/v1/posts"), '/'), Some(6));
    assert_eq!(find_last(&chars("posts"), '/'), None);
    assert_eq!(find_last(&chars("/"), '/'), Some(0));
}
