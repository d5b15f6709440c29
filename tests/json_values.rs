use higher_order_choice::json::{json_values_eq, numbers_equal, JsonValue};
use higher_order_choice::path::{resolve_path, PathSegment};

fn num(x: f64) -> JsonValue {
    JsonValue::Number(x.to_bits(), x.to_string())
}

fn text(s: &str) -> JsonValue {
    JsonValue::String(s.to_string())
}

fn obj(fields: Vec<(&str, JsonValue)>) -> JsonValue {
    JsonValue::Object(fields.into_iter().map(|(k, v)| (k.to_string(), v)).collect())
}

fn name(s: &str) -> PathSegment {
    PathSegment::Name(s.to_string())
}

#[test]
fn numbers_compare_by_value() {
    assert!(numbers_equal(1.0f64.to_bits(), 1.0f64.to_bits()));
    assert!(numbers_equal(0.0f64.to_bits(), (-0.0f64).to_bits()));
    assert!(!numbers_equal(f64::NAN.to_bits(), f64::NAN.to_bits()));
    assert!(!numbers_equal(1.0f64.to_bits(), 2.0f64.to_bits()));
    assert!(json_values_eq(&num(0.0), &num(-0.0)));
    assert!(!json_values_eq(&num(0.5), &num(0.25)));
}

#[test]
fn objects_compare_regardless_of_field_order() {
    let a = obj(vec![("x", num(1.0)), ("y", text("on"))]);
    let b = obj(vec![("y", text("on")), ("x", num(1.0))]);
    let c = obj(vec![("y", text("off")), ("x", num(1.0))]);
    let d = obj(vec![("x", num(1.0))]);
    assert!(json_values_eq(&a, &b));
    assert!(!json_values_eq(&a, &c));
    assert!(!json_values_eq(&a, &d));
    assert!(!json_values_eq(&d, &a));
}

#[test]
fn arrays_compare_element_by_element() {
    let a = JsonValue::Array(vec![num(1.0), JsonValue::Null, JsonValue::Bool(true)]);
    let b = JsonValue::Array(vec![num(1.0), JsonValue::Null, JsonValue::Bool(true)]);
    let c = JsonValue::Array(vec![num(1.0), JsonValue::Bool(true), JsonValue::Null]);
    let d = JsonValue::Array(vec![num(1.0)]);
    assert!(json_values_eq(&a, &b));
    assert!(!json_values_eq(&a, &c));
    assert!(!json_values_eq(&a, &d));
}

#[test]
fn values_of_different_kinds_differ() {
    assert!(!json_values_eq(&JsonValue::Null, &JsonValue::Bool(false)));
    assert!(!json_values_eq(&text("1"), &num(1.0)));
    assert!(!json_values_eq(&JsonValue::Array(vec![]), &obj(vec![])));
    assert!(json_values_eq(&JsonValue::Null, &JsonValue::Null));
}

#[test]
fn paths_skip_their_first_segment() {
    let doc = obj(vec![(
        "video",
        obj(vec![("sizes", JsonValue::Array(vec![num(10.0), num(20.0)]))]),
    )]);
    let path = vec![name("settings_schema"), name("video"), name("sizes"), PathSegment::Index(1)];
    let found = resolve_path(&doc, &path).expect("path resolves");
    assert!(json_values_eq(found, &num(20.0)));

    let past_end = vec![name("settings_schema"), name("video"), name("sizes"), PathSegment::Index(2)];
    assert!(resolve_path(&doc, &past_end).is_none());
    let missing = vec![name("settings_schema"), name("audio")];
    assert!(resolve_path(&doc, &missing).is_none());
    let index_into_object = vec![name("settings_schema"), PathSegment::Index(0)];
    assert!(resolve_path(&doc, &index_into_object).is_none());
}

#[test]
fn deep_copy_keeps_the_value() {
    let v = obj(vec![("a", JsonValue::Array(vec![text("x"), num(3.5)])), ("b", JsonValue::Null)]);
    let c = v.deep_copy();
    assert!(json_values_eq(&v, &c));
    assert_eq!(format!("{:?}", v), format!("{:?}", c));
}
