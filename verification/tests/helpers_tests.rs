//! Tests for the helper compute cores: marker tokens, JSON serialization,
//! and structural equality.

use dotprompt::helpers::{
    history_marker, media_marker, role_marker, section_marker, value_to_json, values_equal,
};
use dotprompt::value::Val;

#[test]
fn test_role_marker_system() {
    assert_eq!(role_marker("system"), "<<<dotprompt:role:system>>>");
}

#[test]
fn test_role_marker_user() {
    assert_eq!(role_marker("user"), "<<<dotprompt:role:user>>>");
}

#[test]
fn test_role_marker_model() {
    assert_eq!(role_marker("model"), "<<<dotprompt:role:model>>>");
}

#[test]
fn test_history_marker_token() {
    assert_eq!(history_marker(), "<<<dotprompt:history>>>");
}

#[test]
fn test_section_marker_token() {
    assert_eq!(section_marker("examples"), "<<<dotprompt:section examples>>>");
}

#[test]
fn test_media_marker_url_only() {
    assert_eq!(
        media_marker("https://example.com/image.png", None),
        "<<<dotprompt:media:url https://example.com/image.png>>>"
    );
}

#[test]
fn test_media_marker_url_and_content_type() {
    assert_eq!(
        media_marker("https://example.com/image.png", Some("image/png")),
        "<<<dotprompt:media:url https://example.com/image.png image/png>>>"
    );
}

fn obj(entries: Vec<(&str, Val)>) -> Val {
    Val::Obj(entries.into_iter().map(|(k, v)| (k.to_string(), v)).collect())
}

#[test]
fn test_json_basic_object() {
    let v = obj(vec![("foo", Val::Str("bar".to_string()))]);
    assert_eq!(value_to_json(&v), r#"{"foo":"bar"}"#);
}

#[test]
fn test_json_nested_objects() {
    let v = obj(vec![(
        "outer",
        obj(vec![("inner", obj(vec![("value", Val::Num("42".to_string()))]))]),
    )]);
    assert_eq!(value_to_json(&v), r#"{"outer":{"inner":{"value":42}}}"#);
}

#[test]
fn test_json_array() {
    let v = Val::Arr(vec![
        Val::Num("1".to_string()),
        Val::Num("2".to_string()),
        Val::Num("3".to_string()),
    ]);
    assert_eq!(value_to_json(&v), "[1,2,3]");
}

#[test]
fn test_json_empty_object_and_array() {
    assert_eq!(value_to_json(&Val::Obj(Vec::new())), "{}");
    assert_eq!(value_to_json(&Val::Arr(Vec::new())), "[]");
}

#[test]
fn test_json_scalars() {
    assert_eq!(value_to_json(&Val::Null), "null");
    assert_eq!(value_to_json(&Val::Bool(true)), "true");
    assert_eq!(value_to_json(&Val::Bool(false)), "false");
}

#[test]
fn test_json_escapes_quotes_and_controls() {
    let v = Val::Str("a\"b\\c\nd\te\u{1}".to_string());
    assert_eq!(value_to_json(&v), "\"a\\\"b\\\\c\\nd\\te\\u0001\"");
}

#[test]
fn test_values_equal_int_values() {
    let a = Val::Num("1".to_string());
    let b = Val::Num("1".to_string());
    let c = Val::Num("2".to_string());
    assert!(values_equal(&a, &b));
    assert!(!values_equal(&a, &c));
}

#[test]
fn test_values_equal_type_safety_int_vs_string() {
    // a number is never equal to its string form
    let n = Val::Num("5".to_string());
    let s = Val::Str("5".to_string());
    assert!(!values_equal(&n, &s));
}

#[test]
fn test_values_equal_null_comparison() {
    assert!(values_equal(&Val::Null, &Val::Null));
    assert!(!values_equal(&Val::Null, &Val::Num("0".to_string())));
}

#[test]
fn test_values_equal_structures() {
    let a = obj(vec![("k", Val::Arr(vec![Val::Bool(true)]))]);
    let b = obj(vec![("k", Val::Arr(vec![Val::Bool(true)]))]);
    let c = obj(vec![("k", Val::Arr(vec![Val::Bool(false)]))]);
    assert!(values_equal(&a, &b));
    assert!(!values_equal(&a, &c));
}
