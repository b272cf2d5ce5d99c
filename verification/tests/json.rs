use chain_gateway::json::{JsonNumber, JsonValue};
use chain_gateway::text::str_eq;

#[test]
fn builders_make_the_documents_they_name() {
    assert_eq!(JsonValue::text("a"), JsonValue::Text("a".to_string()));
    assert_eq!(JsonValue::unsigned(7), JsonValue::Number(JsonNumber::Unsigned(7)));
    assert_eq!(JsonValue::integer(7), JsonValue::Number(JsonNumber::Unsigned(7)));
    assert_eq!(JsonValue::integer(0), JsonValue::Number(JsonNumber::Unsigned(0)));
    assert_eq!(JsonValue::integer(-7), JsonValue::Number(JsonNumber::Negative(-7)));
    assert_eq!(JsonValue::integer(i64::MIN), JsonValue::Number(JsonNumber::Negative(i64::MIN)));
    assert_eq!(
        JsonValue::array(vec![JsonValue::Null, JsonValue::Bool(true)]),
        JsonValue::Array(vec![JsonValue::Null, JsonValue::Bool(true)])
    );
    assert_eq!(JsonValue::empty_object(), JsonValue::Object(Vec::new()));
    assert_eq!(
        JsonValue::object1("k", JsonValue::Null).with_member("l", JsonValue::Bool(false)),
        JsonValue::Object(vec![
            ("k".to_string(), JsonValue::Null),
            ("l".to_string(), JsonValue::Bool(false)),
        ])
    );
}

#[test]
fn member_gives_the_value_under_the_key() {
    let object = JsonValue::object1("a", JsonValue::unsigned(1))
        .with_member("b", JsonValue::unsigned(2))
        .with_member("a", JsonValue::unsigned(3));
    assert_eq!(object.member("a"), Some(&JsonValue::unsigned(3)));
    assert_eq!(object.member("b"), Some(&JsonValue::unsigned(2)));
    assert_eq!(object.member("c"), None);
    assert_eq!(object.member(""), None);
    assert_eq!(JsonValue::Null.member("a"), None);
    assert_eq!(JsonValue::array(vec![JsonValue::Null]).member("a"), None);
    assert_eq!(JsonValue::text("a").member("a"), None);
}

#[test]
fn readers_tell_the_kinds_apart() {
    let items = vec![JsonValue::Null];
    assert_eq!(JsonValue::array(vec![JsonValue::Null]).as_array(), Some(&items));
    assert_eq!(JsonValue::Null.as_array(), None);
    assert_eq!(JsonValue::empty_object().as_array(), None);
    assert_eq!(JsonValue::text("x").as_text(), Some("x"));
    assert_eq!(JsonValue::unsigned(1).as_text(), None);
    assert_eq!(JsonValue::unsigned(1).as_u64(), Some(1));
    assert_eq!(JsonValue::integer(-1).as_u64(), None);
    assert_eq!(JsonValue::Number(JsonNumber::Decimal("1.0".to_string())).as_u64(), None);
    assert_eq!(JsonValue::text("1").as_u64(), None);
}

#[test]
fn texts_are_compared_by_their_characters() {
    assert!(str_eq("", ""));
    assert!(str_eq("abc", "abc"));
    assert!(!str_eq("abc", "abd"));
    assert!(!str_eq("abc", "ab"));
}
