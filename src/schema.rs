//! The schema from which a preset control is built.
use vstd::prelude::*;

use crate::json::JsonValue;
use crate::path::PathSegment;

verus! {

/// Declares settings_schema::ChoiceControlType (a dropdown or a row of
/// buttons: how the choice among the options is drawn). The library only
/// carries a value of it through to whatever draws the choice.
#[verifier::external_type_specification]
#[verifier::external_body]
pub struct ExChoiceControlType(settings_schema::ChoiceControlType);

/// What an option does to the value at a path.
#[derive(Debug)]
pub enum PresetModifierOperation {
    /// Write this value.
    Assign(JsonValue),
}

/// One effect of an option: an operation on the value at a path.
#[derive(Debug)]
pub struct PresetModifier {
    pub target_path: Vec<PathSegment>,
    pub operation: PresetModifierOperation,
}

/// A named option with its effects, in order.
#[derive(Debug)]
pub struct HigherOrderChoiceOption {
    pub display_name: String,
    pub modifiers: Vec<PresetModifier>,
}

/// The description of a preset control.
#[derive(Debug)]
pub struct HigherOrderChoiceSchema {
    pub name: String,
    /// Keyed display strings ("display_name", "help", "notice").
    pub strings: Vec<(String, String)>,
    pub flags: Vec<String>,
    pub options: Vec<HigherOrderChoiceOption>,
    pub default_option_display_name: String,
    pub gui: settings_schema::ChoiceControlType,
}

} // verus!
