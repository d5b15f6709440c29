//! The preset control: which option the session document currently matches,
//! and which pairs to write when the user picks an option.
use vstd::prelude::*;

use crate::json::{Json, JsonValue};
use crate::path::{Modifier, PathValuePair, copy_path, copy_pairs, modifier_holds, pair_holds, pairs_view};
use crate::schema::{HigherOrderChoiceOption, HigherOrderChoiceSchema, PresetModifier, PresetModifierOperation};

verus! {

/// The model of an option: its display name and its pairs, in order.
pub type OptionModel = (Seq<char>, Seq<Modifier>);

/// The model of a control.
pub ghost struct ControlModel {
    pub name: Seq<char>,
    pub help: Option<Seq<char>>,
    pub notice: Option<Seq<char>>,
    pub steamvr_restart_flag: bool,
    pub real_time_flag: bool,
    /// The options in the order the schema lists them.
    pub options: Seq<OptionModel>,
    /// The option that the choice shows when nothing else was picked.
    pub default_option: Seq<char>,
    /// The displayed option; empty when no option matches.
    pub selection: Seq<char>,
}

/// Every pair of the option holds in the document.
pub open spec fn option_matches(doc: Json, mods: Seq<Modifier>) -> bool {
    forall|k: int| 0 <= k < mods.len() ==> modifier_holds(doc, #[trigger] mods[k])
}

/// The name of the first option from index `i` on that matches `doc`, or the
/// empty string when none does.
pub open spec fn selected_from(options: Seq<OptionModel>, doc: Json, i: int) -> Seq<char>
    decreases options.len() - i,
{
    if i < 0 || i >= options.len() {
        Seq::empty()
    } else if option_matches(doc, options[i].1) {
        options[i].0
    } else {
        selected_from(options, doc, i + 1)
    }
}

/// The option that a document selects: the first that matches it, or none.
pub open spec fn resync_selection(options: Seq<OptionModel>, doc: Json) -> Seq<char> {
    selected_from(options, doc, 0)
}

/// No two options share a display name.
pub open spec fn names_distinct(options: Seq<OptionModel>) -> bool {
    forall|i: int, j: int|
        0 <= i < options.len() && 0 <= j < options.len() && i != j ==> options[i].0 != options[j].0
}

/// Some option is named `name`.
pub open spec fn has_option(options: Seq<OptionModel>, name: Seq<char>) -> bool {
    exists|i: int| 0 <= i < options.len() && options[i].0 == name
}

/// The pairs of the first option from index `i` on that is named `name`.
pub open spec fn modifiers_from(options: Seq<OptionModel>, name: Seq<char>, i: int) -> Seq<Modifier>
    decreases options.len() - i,
{
    if i < 0 || i >= options.len() {
        Seq::empty()
    } else if options[i].0 == name {
        options[i].1
    } else {
        modifiers_from(options, name, i + 1)
    }
}

/// The pairs of the option named `name`.
pub open spec fn modifiers_of(options: Seq<OptionModel>, name: Seq<char>) -> Seq<Modifier> {
    modifiers_from(options, name, 0)
}

/// The first string of the table under `key`, searching from index `i` on.
pub open spec fn string_from(strings: Seq<(String, String)>, key: Seq<char>, i: int) -> Option<Seq<char>>
    decreases strings.len() - i,
{
    if i < 0 || i >= strings.len() {
        None
    } else if strings[i].0@ == key {
        Some(strings[i].1@)
    } else {
        string_from(strings, key, i + 1)
    }
}

/// The string of the table under `key`.
pub open spec fn string_of(strings: Seq<(String, String)>, key: Seq<char>) -> Option<Seq<char>> {
    string_from(strings, key, 0)
}

/// The flag set holds `flag`.
pub open spec fn has_flag(flags: Seq<String>, flag: Seq<char>) -> bool {
    exists|i: int| 0 <= i < flags.len() && flags[i]@ == flag
}

/// The name shown for the control: the table's "display_name", else the
/// schema's own name.
pub open spec fn display_name_of(name: Seq<char>, strings: Seq<(String, String)>) -> Seq<char> {
    match string_of(strings, "display_name"@) {
        Some(s) => s,
        None => name,
    }
}

/// The pair that a schema modifier stands for.
pub open spec fn modifier_model(m: PresetModifier) -> Modifier {
    match m.operation {
        PresetModifierOperation::Assign(v) => (m.target_path@, v@),
    }
}

/// The model of a schema option.
pub open spec fn option_model(o: HigherOrderChoiceOption) -> OptionModel {
    (o.display_name@, o.modifiers@.map_values(|m: PresetModifier| modifier_model(m)))
}

/// The models of the schema's options, in order.
pub open spec fn options_model(options: Seq<HigherOrderChoiceOption>) -> Seq<OptionModel> {
    options.map_values(|o: HigherOrderChoiceOption| option_model(o))
}

/// The control that a schema describes, with nothing displayed as selected.
pub open spec fn control_of(schema: HigherOrderChoiceSchema) -> ControlModel {
    ControlModel {
        name: display_name_of(schema.name@, schema.strings@),
        help: string_of(schema.strings@, "help"@),
        notice: string_of(schema.strings@, "notice"@),
        steamvr_restart_flag: has_flag(schema.flags@, "steamvr-restart"@),
        real_time_flag: has_flag(schema.flags@, "real-time"@),
        options: options_model(schema.options@),
        default_option: schema.default_option_display_name@,
        selection: Seq::empty(),
    }
}

impl ControlModel {
    /// The options have distinct names and the default is one of them.
    pub open spec fn wf(self) -> bool {
        &&& names_distinct(self.options)
        &&& has_option(self.options, self.default_option)
    }

    /// This control once its selection is recomputed from `doc`.
    pub open spec fn resynced(self, doc: Json) -> ControlModel {
        ControlModel { selection: resync_selection(self.options, doc), ..self }
    }

    /// This control once the user has picked `name`.
    pub open spec fn picked(self, name: Seq<char>) -> ControlModel {
        ControlModel { selection: name, ..self }
    }
}

/// Option `k` matches `doc` and no earlier option does.
pub open spec fn first_match(options: Seq<OptionModel>, doc: Json, k: int) -> bool {
    &&& 0 <= k < options.len()
    &&& option_matches(doc, options[k].1)
    &&& forall|j: int| 0 <= j < k ==> !option_matches(doc, #[trigger] options[j].1)
}

proof fn lemma_selected_from(options: Seq<OptionModel>, doc: Json, i: int)
    requires
        0 <= i <= options.len(),
    ensures
        (exists|k: int|
            i <= k < options.len() && option_matches(doc, options[k].1) && selected_from(options, doc, i)
                == options[k].0 && forall|j: int|
                i <= j < k ==> !option_matches(doc, #[trigger] options[j].1)) || (selected_from(
            options,
            doc,
            i,
        ) == Seq::<char>::empty() && forall|j: int|
            i <= j < options.len() ==> !option_matches(doc, #[trigger] options[j].1)),
    decreases options.len() - i,
{
    if i < options.len() {
        if !option_matches(doc, options[i].1) {
            lemma_selected_from(options, doc, i + 1);
            if selected_from(options, doc, i + 1) == Seq::<char>::empty() && forall|j: int|
                i + 1 <= j < options.len() ==> !option_matches(doc, #[trigger] options[j].1) {
                assert forall|j: int| i <= j < options.len() implies !option_matches(
                    doc,
                    #[trigger] options[j].1,
                ) by {
                    if j > i {
                    }
                }
            } else {
                let k = choose|k: int|
                    i + 1 <= k < options.len() && option_matches(doc, options[k].1) && selected_from(
                        options,
                        doc,
                        i + 1,
                    ) == options[k].0 && forall|j: int|
                        i + 1 <= j < k ==> !option_matches(doc, #[trigger] options[j].1);
                assert forall|j: int| i <= j < k implies !option_matches(doc, #[trigger] options[j].1) by {
                    if j > i {
                    }
                }
            }
        }
    }
}

/// The option that a document selects is the first one, in schema order,
/// all of whose pairs hold in it; when no option matches, the selection is
/// empty.
pub proof fn resync_selects_first_match(options: Seq<OptionModel>, doc: Json)
    ensures
        (exists|k: int| first_match(options, doc, k) && resync_selection(options, doc) == options[k].0)
            || ((forall|k: int| 0 <= k < options.len() ==> !option_matches(doc, #[trigger] options[k].1))
            && resync_selection(options, doc) == Seq::<char>::empty()),
{
    lemma_selected_from(options, doc, 0);
    if exists|k: int|
        0 <= k < options.len() && option_matches(doc, options[k].1) && selected_from(options, doc, 0)
            == options[k].0 && forall|j: int| 0 <= j < k ==> !option_matches(doc, #[trigger] options[j].1) {
        let k = choose|k: int|
            0 <= k < options.len() && option_matches(doc, options[k].1) && selected_from(options, doc, 0)
                == options[k].0 && forall|j: int| 0 <= j < k ==> !option_matches(doc, #[trigger] options[j].1);
        assert(first_match(options, doc, k));
    }
}

/// Recomputing the selection twice from an unchanged document gives the
/// control the first recomputation gave it.
pub proof fn resync_is_idempotent(c: ControlModel, doc: Json)
    ensures
        c.resynced(doc).resynced(doc) == c.resynced(doc),
{
}

/// When two options both match a document, the later one is not selected:
/// the selection is an option no later than the earlier one.
pub proof fn earlier_option_wins(options: Seq<OptionModel>, doc: Json, i: int, j: int)
    requires
        names_distinct(options),
        0 <= i < j < options.len(),
        option_matches(doc, options[i].1),
        option_matches(doc, options[j].1),
    ensures
        exists|k: int| 0 <= k <= i && resync_selection(options, doc) == options[k].0,
        resync_selection(options, doc) != options[j].0,
{
    resync_selects_first_match(options, doc);
    let k = choose|k: int| first_match(options, doc, k) && resync_selection(options, doc) == options[k].0;
    assert(k <= i);
    assert(options[k].0 != options[j].0);
}

/// A preset control: a choice among named options, each standing for a list
/// of path/value pairs of the session document.
pub struct Control {
    name: String,
    help: Option<String>,
    notice: Option<String>,
    steamvr_restart_flag: bool,
    real_time_flag: bool,
    modifiers: Vec<(String, Vec<PathValuePair>)>,
    default_option: String,
    gui: settings_schema::ChoiceControlType,
    selection: String,
}

/// The model of an optional string.
pub open spec fn opt_string(s: Option<String>) -> Option<Seq<char>> {
    match s {
        Some(t) => Some(t@),
        None => None,
    }
}

impl View for Control {
    type V = ControlModel;

    closed spec fn view(&self) -> ControlModel {
        ControlModel {
            name: self.name@,
            help: opt_string(self.help),
            notice: opt_string(self.notice),
            steamvr_restart_flag: self.steamvr_restart_flag,
            real_time_flag: self.real_time_flag,
            options: self.modifiers@.map_values(
                |e: (String, Vec<PathValuePair>)| (e.0@, pairs_view(e.1@)),
            ),
            default_option: self.default_option@,
            selection: self.selection@,
        }
    }
}

/// The first string of the table under `key`, as `string_of` states it.
fn lookup_string(strings: &Vec<(String, String)>, key: &String) -> (r: Option<String>)
    ensures
        opt_string(r) == string_of(strings@, key@),
{
    let mut i: usize = 0;
    while i < strings.len()
        invariant
            0 <= i <= strings.len(),
            string_of(strings@, key@) == string_from(strings@, key@, i as int),
        decreases strings.len() - i,
    {
        if strings[i].0.eq(key) {
            return Some(strings[i].1.clone());
        }
        i = i + 1;
    }
    None
}

/// Whether the flag set holds `flag`.
fn contains_flag(flags: &Vec<String>, flag: &String) -> (r: bool)
    ensures
        r == has_flag(flags@, flag@),
{
    let mut i: usize = 0;
    while i < flags.len()
        invariant
            0 <= i <= flags.len(),
            forall|j: int| 0 <= j < i ==> flags[j]@ != flag@,
        decreases flags.len() - i,
    {
        if flags[i].eq(flag) {
            return true;
        }
        i = i + 1;
    }
    false
}

/// The pairs that an option's modifiers stand for.
fn option_pairs(o: &HigherOrderChoiceOption) -> (r: Vec<PathValuePair>)
    ensures
        pairs_view(r@) == option_model(*o).1,
{
    let ghost target = option_model(*o).1;
    let mut out: Vec<PathValuePair> = Vec::new();
    let mut i: usize = 0;
    while i < o.modifiers.len()
        invariant
            0 <= i <= o.modifiers.len(),
            target == option_model(*o).1,
            target.len() == o.modifiers.len(),
            out.len() == i,
            pairs_view(out@) == target.subrange(0, i as int),
        decreases o.modifiers.len() - i,
    {
        let m = &o.modifiers[i];
        let pair = match &m.operation {
            PresetModifierOperation::Assign(v) => PathValuePair {
                path: copy_path(&m.target_path),
                value: v.deep_copy(),
            },
        };
        assert(pair@ == modifier_model(*m));
        out.push(pair);
        i = i + 1;
        assert(pairs_view(out@) =~= target.subrange(0, i as int));
    }
    assert(pairs_view(out@) =~= target);
    out
}

/// Whether every pair holds in `doc`, as `option_matches` states it.
fn option_holds(doc: &JsonValue, pairs: &Vec<PathValuePair>) -> (r: bool)
    ensures
        r == option_matches(doc@, pairs_view(pairs@)),
{
    let mut i: usize = 0;
    while i < pairs.len()
        invariant
            0 <= i <= pairs.len(),
            forall|j: int| 0 <= j < i ==> modifier_holds(doc@, #[trigger] pairs_view(pairs@)[j]),
        decreases pairs.len() - i,
    {
        if !pair_holds(doc, &pairs[i]) {
            assert(!modifier_holds(doc@, pairs_view(pairs@)[i as int]));
            return false;
        }
        i = i + 1;
    }
    true
}

impl Control {
    /// Builds the control that `schema` describes, with no option displayed
    /// as selected.
    pub fn new(schema: HigherOrderChoiceSchema) -> (r: Control)
        requires
            names_distinct(options_model(schema.options@)),
            has_option(options_model(schema.options@), schema.default_option_display_name@),
        ensures
            r@ == control_of(schema),
            r@.wf(),
    {
        let name = match lookup_string(&schema.strings, &String::from_str("display_name")) {
            Some(s) => s,
            None => schema.name.clone(),
        };
        let help = lookup_string(&schema.strings, &String::from_str("help"));
        let notice = lookup_string(&schema.strings, &String::from_str("notice"));
        let steamvr_restart_flag = contains_flag(&schema.flags, &String::from_str("steamvr-restart"));
        let real_time_flag = contains_flag(&schema.flags, &String::from_str("real-time"));
        let ghost target = options_model(schema.options@);
        let mut modifiers: Vec<(String, Vec<PathValuePair>)> = Vec::new();
        let mut i: usize = 0;
        while i < schema.options.len()
            invariant
                0 <= i <= schema.options.len(),
                target == options_model(schema.options@),
                target.len() == schema.options.len(),
                modifiers.len() == i,
                forall|j: int|
                    0 <= j < i ==> (#[trigger] modifiers[j]).0@ == target[j].0 && pairs_view(
                        modifiers[j].1@,
                    ) == target[j].1,
            decreases schema.options.len() - i,
        {
            let o = &schema.options[i];
            modifiers.push((o.display_name.clone(), option_pairs(o)));
            i = i + 1;
        }
        let r = Control {
            name,
            help,
            notice,
            steamvr_restart_flag,
            real_time_flag,
            modifiers,
            default_option: schema.default_option_display_name.clone(),
            gui: schema.gui,
            selection: String::new(),
        };
        assert(r@.options =~= target);
        r
    }

    /// The name of the first option that matches `session`, or the empty
    /// name.
    fn matching_option(&self, session: &JsonValue) -> (r: String)
        ensures
            r@ == resync_selection(self@.options, session@),
    {
        let ghost options = self@.options;
        let mut i: usize = 0;
        while i < self.modifiers.len()
            invariant
                0 <= i <= self.modifiers.len(),
                options == self@.options,
                options.len() == self.modifiers.len(),
                resync_selection(options, session@) == selected_from(options, session@, i as int),
            decreases self.modifiers.len() - i,
        {
            if option_holds(session, &self.modifiers[i].1) {
                return self.modifiers[i].0.clone();
            }
            i = i + 1;
        }
        String::new()
    }

    /// Recomputes the displayed option from the session document: the first
    /// option, in schema order, all of whose pairs hold in `session`; none
    /// (the empty name) when no option matches.
    pub fn update_session_settings(&mut self, session: &JsonValue)
        ensures
            final(self)@ == old(self)@.resynced(session@),
    {
        self.selection = self.matching_option(session);
    }

    /// The index of the option named `name`.
    fn position_of(&self, name: &String) -> (r: usize)
        requires
            has_option(self@.options, name@),
        ensures
            r < self@.options.len(),
            self@.options[r as int].0 == name@,
            modifiers_of(self@.options, name@) == self@.options[r as int].1,
    {
        let ghost options = self@.options;
        let mut i: usize = 0;
        while i < self.modifiers.len()
            invariant
                0 <= i <= self.modifiers.len(),
                options == self@.options,
                options.len() == self.modifiers.len(),
                has_option(options, name@),
                forall|j: int| 0 <= j < i ==> options[j].0 != name@,
                modifiers_of(options, name@) == modifiers_from(options, name@, i as int),
            decreases self.modifiers.len() - i,
        {
            if self.modifiers[i].0.eq(name) {
                return i;
            }
            i = i + 1;
        }
        proof {
            let k = choose|k: int| 0 <= k < options.len() && options[k].0 == name@;
            assert(options[k].0 != name@);
        }
        0
    }

    /// What the choice reported this frame: `None` when the user changed
    /// nothing, or the name of the option the user picked. Records the pick
    /// as the displayed option and returns the pairs to write into the
    /// session document, in the option's order; nothing when nothing was
    /// picked.
    pub fn apply_choice(&mut self, response: Option<String>) -> (r: Vec<PathValuePair>)
        requires
            response matches Some(s) ==> has_option(old(self)@.options, s@),
        ensures
            response is None ==> r@.len() == 0 && final(self)@ == old(self)@,
            response matches Some(s) ==> pairs_view(r@) == modifiers_of(old(self)@.options, s@)
                && final(self)@ == old(self)@.picked(s@),
    {
        match response {
            Some(s) => {
                let k = self.position_of(&s);
                let r = copy_pairs(&self.modifiers[k].1);
                self.selection = s;
                r
            },
            None => Vec::new(),
        }
    }

    /// The name shown for the control.
    pub fn name(&self) -> (r: &String)
        ensures
            r@ == self@.name,
    {
        &self.name
    }

    /// The help text, if any.
    pub fn help(&self) -> (r: &Option<String>)
        ensures
            opt_string(*r) == self@.help,
    {
        &self.help
    }

    /// The notice shown under the control, if any.
    pub fn notice(&self) -> (r: &Option<String>)
        ensures
            opt_string(*r) == self@.notice,
    {
        &self.notice
    }

    /// Changing the control restarts the runtime being configured.
    pub fn steamvr_restart_flag(&self) -> (r: bool)
        ensures
            r == self@.steamvr_restart_flag,
    {
        self.steamvr_restart_flag
    }

    /// The control can be changed while streaming.
    pub fn real_time_flag(&self) -> (r: bool)
        ensures
            r == self@.real_time_flag,
    {
        self.real_time_flag
    }

    /// The displayed option; empty when no option matches.
    pub fn selection(&self) -> (r: &String)
        ensures
            r@ == self@.selection,
    {
        &self.selection
    }

    /// The option the choice falls back to.
    pub fn default_option(&self) -> (r: &String)
        ensures
            r@ == self@.default_option,
    {
        &self.default_option
    }

    /// How the choice is drawn.
    pub fn gui(&self) -> settings_schema::ChoiceControlType {
        self.gui
    }

    /// The names of the options, in schema order.
    pub fn option_names(&self) -> (r: Vec<String>)
        ensures
            r@.len() == self@.options.len(),
            forall|i: int| 0 <= i < r@.len() ==> r@[i]@ == self@.options[i].0,
    {
        let mut out: Vec<String> = Vec::new();
        let mut i: usize = 0;
        while i < self.modifiers.len()
            invariant
                0 <= i <= self.modifiers.len(),
                self@.options.len() == self.modifiers.len(),
                out@.len() == i,
                forall|j: int| 0 <= j < i ==> out@[j]@ == self@.options[j].0,
            decreases self.modifiers.len() - i,
        {
            out.push(self.modifiers[i].0.clone());
            i = i + 1;
        }
        out
    }
}

} // verus!
