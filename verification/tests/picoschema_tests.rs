//! Tests for the picoschema compiler.

use dotprompt::error::DotpromptError;
use dotprompt::picoschema::picoschema_to_json_schema;
use dotprompt::value::Val;

fn get<'a>(v: &'a Val, key: &str) -> Option<&'a Val> {
    match v {
        Val::Obj(entries) => entries.iter().find(|(k, _)| k == key).map(|(_, v)| v),
        _ => None,
    }
}

fn type_is(v: &Val, expected: &str) -> bool {
    matches!(get(v, "type"), Some(Val::Str(s)) if s == expected)
}

#[test]
fn test_primitive_types() {
    let schema = picoschema_to_json_schema(&Val::Str("string".to_string()))
        .expect("conversion should succeed");
    assert!(type_is(&schema, "string"));
}

#[test]
fn test_array_syntax() {
    let schema = picoschema_to_json_schema(&Val::Str("string[]".to_string()))
        .expect("conversion should succeed");
    assert!(type_is(&schema, "array"));
    let items = get(&schema, "items").expect("array schema should have items");
    assert!(type_is(items, "string"));
}

#[test]
fn test_union_syntax() {
    let schema = picoschema_to_json_schema(&Val::Str("string | null".to_string()))
        .expect("conversion should succeed");
    match get(&schema, "anyOf") {
        Some(Val::Arr(items)) => {
            assert_eq!(items.len(), 2);
            assert!(type_is(&items[0], "string"));
            assert!(type_is(&items[1], "null"));
        },
        other => panic!("expected an anyOf list, got {other:?}"),
    }
}

#[test]
fn test_object_schema() {
    let input = Val::Obj(vec![
        ("name".to_string(), Val::Str("string".to_string())),
        ("age".to_string(), Val::Str("number".to_string())),
    ]);
    let schema = picoschema_to_json_schema(&input).expect("conversion should succeed");
    assert!(type_is(&schema, "object"));
    let props = get(&schema, "properties").expect("object schema should have properties");
    assert!(type_is(get(props, "name").unwrap(), "string"));
    assert!(type_is(get(props, "age").unwrap(), "number"));
}

#[test]
fn test_already_expanded_schema_is_unchanged() {
    let input = Val::Obj(vec![("type".to_string(), Val::Str("custom".to_string()))]);
    let schema = picoschema_to_json_schema(&input).expect("conversion should succeed");
    assert_eq!(schema, input);
}

#[test]
fn test_unknown_token_fails_naming_it() {
    let err = picoschema_to_json_schema(&Val::Str("  wobble  ".to_string()))
        .expect_err("unknown shorthand should fail");
    match err {
        DotpromptError::PicoschemaError(msg) => {
            assert_eq!(msg, "unknown picoschema type: wobble");
        },
        other => panic!("expected a picoschema error, got {other:?}"),
    }
}

#[test]
fn test_nested_array_of_union() {
    let schema = picoschema_to_json_schema(&Val::Str("string | null[]".to_string()))
        .expect("conversion should succeed");
    // the [] binds first: an array whose items are the union
    assert!(type_is(&schema, "array"));
    let items = get(&schema, "items").expect("items");
    assert!(get(items, "anyOf").is_some());
}

#[test]
fn test_non_string_scalars_pass_through() {
    let schema = picoschema_to_json_schema(&Val::Bool(true)).expect("conversion should succeed");
    assert_eq!(schema, Val::Bool(true));
}
