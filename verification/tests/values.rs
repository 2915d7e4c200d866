use crawler_core::jsonval::{json_to_string, JsonValue};
use crawler_core::value::ExtractValueData;

#[test]
fn test_truthiness_table() {
    assert!(!ExtractValueData::Null.is_truthy());
    assert!(!ExtractValueData::String("".to_string()).is_truthy());
    assert!(ExtractValueData::String("x".to_string()).is_truthy());
    assert!(!ExtractValueData::Array(vec![]).is_truthy());
    assert!(!ExtractValueData::Json(JsonValue::Null).is_truthy());
    assert!(!ExtractValueData::Json(JsonValue::Bool(false)).is_truthy());
    assert!(!ExtractValueData::Json(JsonValue::Str("".to_string())).is_truthy());
    assert!(!ExtractValueData::Json(JsonValue::Arr(vec![])).is_truthy());
    assert!(ExtractValueData::Json(JsonValue::Num("0".to_string())).is_truthy());
    assert!(ExtractValueData::Json(JsonValue::Obj(vec![])).is_truthy());
    assert!(ExtractValueData::Json(JsonValue::Bool(true)).is_truthy());
    assert!(ExtractValueData::Html("<p/>".to_string()).is_truthy());
}

#[test]
fn test_emptiness() {
    assert!(ExtractValueData::Null.is_empty());
    assert!(ExtractValueData::String("".to_string()).is_empty());
    assert!(!ExtractValueData::String("a".to_string()).is_empty());
    assert!(ExtractValueData::Array(vec![]).is_empty());
    assert!(ExtractValueData::Json(JsonValue::Null).is_empty());
    assert!(!ExtractValueData::Json(JsonValue::Bool(false)).is_empty());
}

#[test]
fn test_value_json_round() {
    let v = ExtractValueData::Array(vec![
        ExtractValueData::String("a".to_string()),
        ExtractValueData::Html("<b>x</b>".to_string()),
        ExtractValueData::Null,
    ]);
    let j = v.to_owned_json();
    assert_eq!(
        json_to_string(&j),
        "[\"a\",\"<b>x</b>\",null]"
    );
    let back = ExtractValueData::from_json(&j);
    assert!(matches!(back, ExtractValueData::Array(ref items) if items.len() == 3));
}

#[test]
fn test_json_serializer_escapes() {
    let j = JsonValue::Obj(vec![
        ("k\"1".to_string(), JsonValue::Str("a\\b\n".to_string())),
        ("n".to_string(), JsonValue::Num("42".to_string())),
        ("t".to_string(), JsonValue::Bool(true)),
    ]);
    assert_eq!(json_to_string(&j), "{\"k\\\"1\":\"a\\\\b\\n\",\"n\":42,\"t\":true}");
}
