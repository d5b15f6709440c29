use higher_order_choice::control::Control;
use higher_order_choice::json::{json_values_eq, JsonValue};
use higher_order_choice::path::{PathSegment, PathValuePair};
use higher_order_choice::schema::{
    HigherOrderChoiceOption, HigherOrderChoiceSchema, PresetModifier, PresetModifierOperation,
};
use settings_schema::ChoiceControlType;

fn num(x: f64) -> JsonValue {
    JsonValue::Number(x.to_bits(), x.to_string())
}

fn text(s: &str) -> JsonValue {
    JsonValue::String(s.to_string())
}

fn obj(fields: Vec<(&str, JsonValue)>) -> JsonValue {
    JsonValue::Object(fields.into_iter().map(|(k, v)| (k.to_string(), v)).collect())
}

fn field_path(field: &str) -> Vec<PathSegment> {
    vec![
        PathSegment::Name("settings_schema".to_string()),
        PathSegment::Name(field.to_string()),
    ]
}

fn assign(field: &str, value: JsonValue) -> PresetModifier {
    PresetModifier {
        target_path: field_path(field),
        operation: PresetModifierOperation::Assign(value),
    }
}

fn option(name: &str, modifiers: Vec<PresetModifier>) -> HigherOrderChoiceOption {
    HigherOrderChoiceOption { display_name: name.to_string(), modifiers }
}

fn schema(options: Vec<HigherOrderChoiceOption>, default: &str) -> HigherOrderChoiceSchema {
    HigherOrderChoiceSchema {
        name: "preset".to_string(),
        strings: vec![],
        flags: vec![],
        options,
        default_option_display_name: default.to_string(),
        gui: ChoiceControlType::ButtonGroup,
    }
}

fn a_or_b() -> Control {
    Control::new(schema(
        vec![
            option("A", vec![assign("x", num(1.0))]),
            option("B", vec![assign("x", num(2.0))]),
        ],
        "A",
    ))
}

fn pair_is(pair: &PathValuePair, field: &str, value: &JsonValue) {
    assert_eq!(format!("{:?}", pair.path), format!("{:?}", field_path(field)));
    assert!(json_values_eq(&pair.value, value));
}

#[test]
fn new_control_shows_no_selection() {
    let c = a_or_b();
    assert_eq!(c.selection(), "");
    assert_eq!(c.default_option(), "A");
    assert_eq!(c.option_names(), vec!["A".to_string(), "B".to_string()]);
    assert_eq!(c.name(), "preset");
    assert_eq!(c.help(), &None);
    assert_eq!(c.notice(), &None);
    assert!(!c.steamvr_restart_flag());
    assert!(!c.real_time_flag());
    assert!(matches!(c.gui(), ChoiceControlType::ButtonGroup));
}

#[test]
fn new_reads_strings_and_flags() {
    let mut s = schema(vec![option("A", vec![])], "A");
    s.strings = vec![
        ("display_name".to_string(), "Preset".to_string()),
        ("help".to_string(), "Pick one".to_string()),
        ("notice".to_string(), "Careful".to_string()),
    ];
    s.flags = vec!["real-time".to_string(), "steamvr-restart".to_string()];
    let c = Control::new(s);
    assert_eq!(c.name(), "Preset");
    assert_eq!(c.help(), &Some("Pick one".to_string()));
    assert_eq!(c.notice(), &Some("Careful".to_string()));
    assert!(c.steamvr_restart_flag());
    assert!(c.real_time_flag());

    let mut s = schema(vec![option("A", vec![])], "A");
    s.flags = vec!["real-time".to_string()];
    let c = Control::new(s);
    assert!(!c.steamvr_restart_flag());
    assert!(c.real_time_flag());
}

#[test]
fn resync_selects_the_matching_option() {
    let mut c = a_or_b();
    c.update_session_settings(&obj(vec![("x", num(1.0))]));
    assert_eq!(c.selection(), "A");
    c.update_session_settings(&obj(vec![("x", num(2.0))]));
    assert_eq!(c.selection(), "B");
    c.update_session_settings(&obj(vec![("x", num(3.0))]));
    assert_eq!(c.selection(), "");
    c.update_session_settings(&obj(vec![]));
    assert_eq!(c.selection(), "");
}

#[test]
fn partial_match_is_not_a_match() {
    let mut c = Control::new(schema(
        vec![option("C", vec![assign("x", num(1.0)), assign("y", text("on"))])],
        "C",
    ));
    c.update_session_settings(&obj(vec![("x", num(1.0)), ("y", text("off"))]));
    assert_eq!(c.selection(), "");
    c.update_session_settings(&obj(vec![("y", text("on")), ("x", num(1.0))]));
    assert_eq!(c.selection(), "C");
}

#[test]
fn resync_twice_gives_the_same_selection() {
    let mut c = a_or_b();
    let doc = obj(vec![("x", num(2.0))]);
    c.update_session_settings(&doc);
    let first = c.selection().clone();
    c.update_session_settings(&doc);
    assert_eq!(c.selection(), &first);
    assert_eq!(first, "B");
}

#[test]
fn earlier_option_wins_when_both_match() {
    let mut c = Control::new(schema(
        vec![
            option("Low", vec![assign("x", num(1.0))]),
            option("Any", vec![]),
            option("Also low", vec![assign("x", num(1.0))]),
        ],
        "Any",
    ));
    c.update_session_settings(&obj(vec![("x", num(1.0))]));
    assert_eq!(c.selection(), "Low");
    c.update_session_settings(&obj(vec![("x", num(5.0))]));
    assert_eq!(c.selection(), "Any");
}

#[test]
fn no_interaction_returns_no_pairs() {
    let mut c = a_or_b();
    assert!(c.apply_choice(None).is_empty());
    assert_eq!(c.selection(), "");
    c.update_session_settings(&obj(vec![("x", num(2.0))]));
    assert!(c.apply_choice(None).is_empty());
    assert_eq!(c.selection(), "B");
}

#[test]
fn picking_an_option_returns_its_pairs() {
    let mut c = Control::new(schema(
        vec![
            option("A", vec![assign("x", num(1.0))]),
            option("C", vec![assign("x", num(1.0)), assign("y", text("on"))]),
        ],
        "A",
    ));
    let pairs = c.apply_choice(Some("C".to_string()));
    assert_eq!(pairs.len(), 2);
    pair_is(&pairs[0], "x", &num(1.0));
    pair_is(&pairs[1], "y", &text("on"));
    assert_eq!(c.selection(), "C");

    let pairs = c.apply_choice(Some("A".to_string()));
    assert_eq!(pairs.len(), 1);
    pair_is(&pairs[0], "x", &num(1.0));
    assert_eq!(c.selection(), "A");
}
