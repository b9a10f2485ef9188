//! The state of the configuration editor and how it answers key presses and
//! the user's commands.
use vstd::prelude::*;
use crate::config::{ConfigView, G13Config};
use crate::str_map::{same_text, StrMap};
use crate::text::{chars_of, concatenated, has_prefix, join, join_strings, starts_with, views};

verus! {

/// What the editor holds, as mathematical values.
#[verifier::ext_equal]
pub struct AppView {
    pub config: ConfigView,
    pub profiles: Seq<Seq<char>>,
    pub selected_profile: Seq<char>,
    pub new_profile_name: Seq<char>,
    pub active_key: Seq<char>,
    pub edit_value: Seq<char>,
    pub active_m_slot: Seq<char>,
    pub is_recording: bool,
    pub is_macro_recording: bool,
    pub macro_target_key: Seq<char>,
    pub recorded_macro_steps: Seq<Seq<char>>,
    pub macros: Map<Seq<char>, Seq<Seq<char>>>,
}

/// The editor of the gameboard's configuration.
///
/// It holds the configuration being edited, the known profiles, the key
/// being configured and its pending binding, the active M slot, and the two
/// recordings: the on-device recording (toggled by `MR`, which files each
/// pressed key's binding under the active M slot in `macros`) and the macro
/// recording of the editor (which collects pressed keys as macro steps).
pub struct G13App {
    pub config: G13Config,
    pub profiles: Vec<String>,
    pub selected_profile: String,
    pub new_profile_name: String,
    pub active_key: String,
    pub edit_value: String,
    pub active_m_slot: String,
    pub is_recording: bool,
    pub is_macro_recording: bool,
    pub macro_target_key: String,
    pub recorded_macro_steps: Vec<String>,
    pub macros: StrMap<Vec<String>>,
}

impl View for G13App {
    type V = AppView;

    open spec fn view(&self) -> AppView {
        AppView {
            config: self.config@,
            profiles: views(self.profiles@),
            selected_profile: self.selected_profile@,
            new_profile_name: self.new_profile_name@,
            active_key: self.active_key@,
            edit_value: self.edit_value@,
            active_m_slot: self.active_m_slot@,
            is_recording: self.is_recording,
            is_macro_recording: self.is_macro_recording,
            macro_target_key: self.macro_target_key@,
            recorded_macro_steps: views(self.recorded_macro_steps@),
            macros: self.macros@.map_values(|v: Vec<String>| views(v@)),
        }
    }
}

/// The binding of `key` in `keys`, or `default` where it has none.
pub open spec fn binding_or(
    keys: Map<Seq<char>, Seq<char>>,
    key: Seq<char>,
    default: Seq<char>,
) -> Seq<char> {
    if keys.contains_key(key) {
        keys[key]
    } else {
        default
    }
}

/// The steps filed under `slot`, none where nothing is.
pub open spec fn steps_of(macros: Map<Seq<char>, Seq<Seq<char>>>, slot: Seq<char>) -> Seq<Seq<char>> {
    if macros.contains_key(slot) {
        macros[slot]
    } else {
        Seq::empty()
    }
}

/// The name of the key that toggles the on-device recording.
pub open spec fn record_key() -> Seq<char> {
    "MR"@
}

/// Whether a pressed key names an M slot: two bytes of text, the first `M`
/// (so the second character is an ASCII one).
pub open spec fn is_m_slot_name(s: Seq<char>) -> bool {
    s.len() == 2 && s[0] == 'M' && (s[1] as u32) < 128
}

/// The key under which the on-device recording files a step: the slot, `_`
/// and the pressed key.
pub open spec fn slot_key(slot: Seq<char>, pressed: Seq<char>) -> Seq<char> {
    slot + "_"@ + pressed
}

/// The editor after `step` was filed under `slot` by the on-device recording.
pub open spec fn after_filing(a: AppView, slot: Seq<char>, step: Seq<char>) -> AppView {
    AppView { macros: a.macros.insert(slot, steps_of(a.macros, slot).push(step)), ..a }
}

/// The editor after a key of the device was pressed.
///
/// Nothing happens for an empty name. While a macro is recorded, any key
/// but the macro's own key is added to the steps. Otherwise `MR` toggles the
/// on-device recording, an M slot key becomes the active slot, a key pressed
/// during the on-device recording has its binding (or, unbound, its name)
/// filed under the active slot, and any other key is selected for
/// configuration with its binding (empty if none) as the pending value.
pub open spec fn after_key_press(a: AppView, pressed: Seq<char>) -> AppView {
    if pressed.len() == 0 {
        a
    } else if a.is_macro_recording {
        if pressed != a.macro_target_key {
            AppView { recorded_macro_steps: a.recorded_macro_steps.push(pressed), ..a }
        } else {
            a
        }
    } else if pressed == record_key() {
        AppView { is_recording: !a.is_recording, ..a }
    } else if is_m_slot_name(pressed) {
        AppView { active_m_slot: pressed, ..a }
    } else if a.is_recording {
        after_filing(
            a,
            slot_key(a.active_m_slot, pressed),
            binding_or(a.config.keys, pressed, pressed),
        )
    } else {
        after_select_key(a, pressed)
    }
}

/// The editor after `key` was chosen for configuration: its binding (empty
/// if none) becomes the pending value.
pub open spec fn after_select_key(a: AppView, key: Seq<char>) -> AppView {
    AppView { active_key: key, edit_value: binding_or(a.config.keys, key, Seq::empty()), ..a }
}

/// The editor after the on-screen button of an M key or of `MR` was clicked:
/// `MR` toggles the on-device recording, a key starting with `M` becomes the
/// active slot, and the key is chosen for configuration.
pub open spec fn after_m_key_click(a: AppView, key: Seq<char>) -> AppView {
    let a1 = if key == record_key() {
        AppView { is_recording: !a.is_recording, ..a }
    } else if has_prefix(key, "M"@) {
        AppView { active_m_slot: key, ..a }
    } else {
        a
    };
    after_select_key(a1, key)
}

/// The editor after the pending value was saved as the configured key's
/// binding; no key is being configured any more.
pub open spec fn after_save_binding(a: AppView) -> AppView {
    AppView {
        config: ConfigView { keys: a.config.keys.insert(a.active_key, a.edit_value), ..a.config },
        active_key: Seq::empty(),
        ..a
    }
}

/// The editor after the configured key's binding was cleared; no key is
/// being configured any more.
pub open spec fn after_clear_binding(a: AppView) -> AppView {
    AppView {
        config: ConfigView { keys: a.config.keys.remove(a.active_key), ..a.config },
        active_key: Seq::empty(),
        ..a
    }
}

/// The editor after a macro recording was started for the configured key.
pub open spec fn after_start_macro(a: AppView) -> AppView {
    AppView {
        is_macro_recording: true,
        macro_target_key: a.active_key,
        recorded_macro_steps: Seq::empty(),
        ..a
    }
}

/// The binding that a recorded macro becomes: `MACRO:` and the steps,
/// separated by commas.
pub open spec fn macro_binding(steps: Seq<Seq<char>>) -> Seq<char> {
    "MACRO:"@ + join(steps, ","@)
}

/// The editor after the macro recording was stopped: the macro becomes the
/// pending value and the binding of the macro's key, and no key is being
/// configured any more.
pub open spec fn after_stop_macro(a: AppView) -> AppView {
    let binding = macro_binding(a.recorded_macro_steps);
    AppView {
        is_macro_recording: false,
        edit_value: binding,
        config: ConfigView { keys: a.config.keys.insert(a.macro_target_key, binding), ..a.config },
        active_key: Seq::empty(),
        ..a
    }
}

/// The editor after the edit was cancelled: no macro recording, no key being configured.
pub open spec fn after_cancel(a: AppView) -> AppView {
    AppView { is_macro_recording: false, active_key: Seq::empty(), ..a }
}

/// The editor after the user asked for a profile named by `new_profile_name`:
/// with a name given, the configuration takes that name, the name joins the
/// list of profiles unless it is there already, and the entry field empties.
pub open spec fn after_create_profile(a: AppView) -> AppView {
    if a.new_profile_name.len() == 0 {
        a
    } else {
        let name = a.new_profile_name;
        AppView {
            config: ConfigView { profile_name: name, ..a.config },
            profiles: if a.profiles.contains(name) {
                a.profiles
            } else {
                a.profiles.push(name)
            },
            new_profile_name: Seq::empty(),
            ..a
        }
    }
}

/// `s` without the elements equal to `x`, in the same order.
pub open spec fn without(s: Seq<Seq<char>>, x: Seq<char>) -> Seq<Seq<char>>
    decreases s.len(),
{
    if s.len() == 0 {
        s
    } else {
        let rest = without(s.drop_last(), x);
        if s.last() == x {
            rest
        } else {
            rest.push(s.last())
        }
    }
}

/// The editor after profile `name` was dropped from the list.
pub open spec fn after_forget_profile(a: AppView, name: Seq<char>) -> AppView {
    AppView { profiles: without(a.profiles, name), ..a }
}

/// The profile to switch to after `name` was dropped: the first one left.
pub open spec fn successor_profile(a: AppView, name: Seq<char>) -> Option<Seq<char>> {
    let rest = without(a.profiles, name);
    if rest.len() > 0 {
        Some(rest[0])
    } else {
        None
    }
}

/// The editor after profile `name` was loaded with configuration `config`.
pub open spec fn after_load_profile(a: AppView, name: Seq<char>, config: ConfigView) -> AppView {
    AppView { config, selected_profile: name, ..a }
}

/// The editor after profile `name` was chosen in the profile list.
pub open spec fn after_choose_profile(a: AppView, name: Seq<char>) -> AppView {
    AppView { selected_profile: name, ..a }
}

/// The editor as it starts: the given configuration and profiles, the
/// configuration's profile selected, slot `M1` active, nothing being
/// configured or recorded.
pub open spec fn initial_app(config: ConfigView, profiles: Seq<Seq<char>>) -> AppView {
    AppView {
        config,
        profiles,
        selected_profile: config.profile_name,
        new_profile_name: Seq::empty(),
        active_key: Seq::empty(),
        edit_value: Seq::empty(),
        active_m_slot: "M1"@,
        is_recording: false,
        is_macro_recording: false,
        macro_target_key: Seq::empty(),
        recorded_macro_steps: Seq::empty(),
        macros: Map::empty(),
    }
}

/// What a key's button shows of its binding: `Macro` for a recorded macro,
/// else the binding itself (empty if none).
pub open spec fn shown_binding(a: AppView, key: Seq<char>) -> Seq<char> {
    let b = binding_or(a.config.keys, key, Seq::empty());
    if has_prefix(b, "MACRO:"@) {
        "Macro"@
    } else {
        b
    }
}

/// The label of an M key's or `MR`'s button: the active slot is marked
/// `[ACTIVE]`, `MR` is marked `[REC]` while the on-device recording runs,
/// else the key's name, followed on a second line by what it shows of its
/// binding if that is not empty.
pub open spec fn m_key_label(a: AppView, key: Seq<char>) -> Seq<char> {
    if has_prefix(key, "M"@) && a.active_m_slot == key {
        key + "\n[ACTIVE]"@
    } else if key == record_key() && a.is_recording {
        "MR\n[REC]"@
    } else if shown_binding(a, key).len() == 0 {
        key
    } else {
        key + "\n"@ + shown_binding(a, key)
    }
}

/// How a button is filled.
#[derive(Clone, Copy, Debug, PartialEq, Eq, Structural)]
pub enum ButtonFill {
    /// The theme's plain fill.
    Plain,
    /// The fill of the key being configured or recorded for.
    Selected,
    /// The fill of `MR` while the on-device recording runs.
    Recording,
}

/// The fill of an M key's or `MR`'s button.
pub open spec fn m_key_fill(a: AppView, key: Seq<char>) -> ButtonFill {
    if key == record_key() && a.is_recording {
        ButtonFill::Recording
    } else if a.active_key == key {
        ButtonFill::Selected
    } else {
        ButtonFill::Plain
    }
}

/// Whether a key name is that of an M slot (two bytes, the first `M`).
fn names_m_slot(pressed: &str) -> (b: bool)
    ensures
        b == is_m_slot_name(pressed@),
{
    let c = chars_of(pressed);
    c.len() == 2 && c[0] == 'M' && (c[1] as u32) < 128
}

impl G13App {
    /// The binding of `key`, or a copy of `default` where it has none.
    fn binding_or(&self, key: &str, default: &str) -> (s: String)
        ensures
            s@ == binding_or(self.config@.keys, key@, default@),
    {
        match self.config.keys.get(key) {
            Some(v) => v.clone(),
            None => String::from_str(default),
        }
    }

    /// Files `step` under `slot` in the on-device recording.
    fn file_step(&mut self, slot: String, step: String)
        ensures
            final(self)@ == after_filing(old(self)@, slot@, step@),
    {
        let ghost m0 = self.macros@;
        let mut steps = match self.macros.take(slot.as_str()) {
            Some(v) => v,
            None => Vec::new(),
        };
        let ghost before = views(steps@);
        assert(before == steps_of(m0.map_values(|v: Vec<String>| views(v@)), slot@));
        steps.push(step);
        assert(views(steps@) =~= before.push(step@));
        let ghost steps_view = views(steps@);
        self.macros.insert(slot, steps);
        proof {
            let f = |v: Vec<String>| views(v@);
            assert(self.macros@ =~= m0.insert(slot@, steps));
            assert(self@.macros =~= m0.map_values(f).insert(slot@, steps_of(m0.map_values(f), slot@).push(step@)));
        }
        assert(self@ =~= after_filing(old(self)@, slot@, step@));
    }

    /// Answers a key pressed on the device (see `after_key_press`).
    pub fn handle_pressed_key(&mut self, pressed: String)
        ensures
            final(self)@ == after_key_press(old(self)@, pressed@),
    {
        if pressed.as_str().is_empty() {
            return;
        }
        if self.is_macro_recording {
            if !same_text(pressed.as_str(), self.macro_target_key.as_str()) {
                let ghost before = views(self.recorded_macro_steps@);
                self.recorded_macro_steps.push(pressed);
                assert(views(self.recorded_macro_steps@) =~= before.push(pressed@));
            }
        } else if same_text(pressed.as_str(), "MR") {
            self.is_recording = !self.is_recording;
        } else if names_m_slot(pressed.as_str()) {
            self.active_m_slot = pressed;
        } else if self.is_recording {
            let slot = concatenated(concatenated(self.active_m_slot.as_str(), "_").as_str(), pressed.as_str());
            let step = self.binding_or(pressed.as_str(), pressed.as_str());
            self.file_step(slot, step);
        } else {
            self.edit_value = self.binding_or(pressed.as_str(), "");
            self.active_key = pressed;
            proof {
                reveal_strlit("");
            }
        }
    }
}


/// Whether `v` holds a string with the characters of `s`.
pub fn contains_text(v: &Vec<String>, s: &str) -> (b: bool)
    ensures
        b == views(v@).contains(s@),
{
    let mut i: usize = 0;
    while i < v.len()
        invariant
            i <= v.len(),
            forall|j: int| 0 <= j < i ==> v@[j]@ != s@,
        decreases v.len() - i,
    {
        if same_text(v[i].as_str(), s) {
            assert(views(v@)[i as int] == s@);
            return true;
        }
        i = i + 1;
    }
    proof {
        if views(v@).contains(s@) {
            let j = choose|j: int| 0 <= j < views(v@).len() && views(v@)[j] == s@;
            assert(v@[j]@ == s@);
        }
    }
    false
}

/// The strings of `v` other than those with the characters of `x`, in order.
pub fn strings_without(v: &Vec<String>, x: &str) -> (out: Vec<String>)
    ensures
        views(out@) == without(views(v@), x@),
{
    let mut out: Vec<String> = Vec::new();
    let mut i: usize = 0;
    while i < v.len()
        invariant
            i <= v.len(),
            views(out@) == without(views(v@).take(i as int), x@),
        decreases v.len() - i,
    {
        let ghost taken = views(v@).take(i + 1);
        assert(taken.drop_last() =~= views(v@).take(i as int));
        assert(taken.last() == v@[i as int]@);
        if !same_text(v[i].as_str(), x) {
            let ghost before = views(out@);
            out.push(v[i].clone());
            assert(views(out@) =~= before.push(v@[i as int]@));
        }
        i = i + 1;
    }
    assert(views(v@).take(v.len() as int) =~= views(v@));
    out
}

impl G13App {
    /// The editor as it starts, on the given configuration and profiles.
    pub fn new(config: G13Config, profiles: Vec<String>) -> (app: Self)
        ensures
            app@ == initial_app(config@, views(profiles@)),
    {
        let selected_profile = config.profile_name.clone();
        let app = G13App {
            config,
            profiles,
            selected_profile,
            new_profile_name: String::new(),
            active_key: String::new(),
            edit_value: String::new(),
            active_m_slot: String::from_str("M1"),
            is_recording: false,
            is_macro_recording: false,
            macro_target_key: String::new(),
            recorded_macro_steps: Vec::new(),
            macros: StrMap::new(),
        };
        assert(app@.recorded_macro_steps =~= Seq::<Seq<char>>::empty());
        assert(app@.macros =~= Map::<Seq<char>, Seq<Seq<char>>>::empty());
        app
    }

    /// Chooses `key` for configuration, with its binding as the pending value.
    pub fn select_key(&mut self, key: &str)
        ensures
            final(self)@ == after_select_key(old(self)@, key@),
    {
        self.edit_value = self.binding_or(key, "");
        self.active_key = String::from_str(key);
        proof {
            reveal_strlit("");
        }
    }

    /// Answers a click on the on-screen button of an M key or of `MR`.
    pub fn click_m_key(&mut self, key: &str)
        ensures
            final(self)@ == after_m_key_click(old(self)@, key@),
    {
        proof {
            reveal_strlit("M");
        }
        if same_text(key, "MR") {
            self.is_recording = !self.is_recording;
        } else if starts_with(key, "M") {
            self.active_m_slot = String::from_str(key);
        }
        self.select_key(key);
    }

    /// Saves the pending value as the configured key's binding.
    pub fn save_binding(&mut self)
        ensures
            final(self)@ == after_save_binding(old(self)@),
    {
        let ghost k0 = self.config.keys@;
        self.config.keys.insert(self.active_key.clone(), self.edit_value.clone());
        self.active_key = String::new();
        assert(self@.config.keys =~= old(self)@.config.keys.insert(old(self)@.active_key, old(self)@.edit_value));
        assert(self@ =~= after_save_binding(old(self)@));
    }

    /// Clears the configured key's binding.
    pub fn clear_binding(&mut self)
        ensures
            final(self)@ == after_clear_binding(old(self)@),
    {
        self.config.keys.remove(self.active_key.as_str());
        self.active_key = String::new();
        assert(self@.config.keys =~= old(self)@.config.keys.remove(old(self)@.active_key));
        assert(self@ =~= after_clear_binding(old(self)@));
    }

    /// Starts recording a macro for the configured key.
    pub fn start_macro_recording(&mut self)
        ensures
            final(self)@ == after_start_macro(old(self)@),
    {
        self.is_macro_recording = true;
        self.macro_target_key = self.active_key.clone();
        self.recorded_macro_steps = Vec::new();
        assert(self@ =~= after_start_macro(old(self)@));
    }

    /// Stops the macro recording and binds the macro to its key.
    pub fn stop_macro_recording(&mut self)
        ensures
            final(self)@ == after_stop_macro(old(self)@),
    {
        self.is_macro_recording = false;
        let steps = join_strings(&self.recorded_macro_steps, ",");
        self.edit_value = concatenated("MACRO:", steps.as_str());
        self.config.keys.insert(self.macro_target_key.clone(), self.edit_value.clone());
        self.active_key = String::new();
        assert(self@.config.keys =~= old(self)@.config.keys.insert(
            old(self)@.macro_target_key,
            macro_binding(old(self)@.recorded_macro_steps),
        ));
        assert(self@ =~= after_stop_macro(old(self)@));
    }

    /// Cancels the edit: no macro recording, no key being configured.
    pub fn cancel_edit(&mut self)
        ensures
            final(self)@ == after_cancel(old(self)@),
    {
        self.is_macro_recording = false;
        self.active_key = String::new();
    }

    /// Creates the profile named by `new_profile_name`, if one is given;
    /// whether it did, in which case the configuration is to be saved.
    pub fn create_profile(&mut self) -> (created: bool)
        ensures
            created == (old(self)@.new_profile_name.len() > 0),
            final(self)@ == after_create_profile(old(self)@),
    {
        if self.new_profile_name.as_str().is_empty() {
            return false;
        }
        let name = self.new_profile_name.clone();
        self.config.profile_name = name.clone();
        if !contains_text(&self.profiles, name.as_str()) {
            let ghost before = views(self.profiles@);
            self.profiles.push(name);
            assert(views(self.profiles@) =~= before.push(old(self)@.new_profile_name));
        }
        self.new_profile_name = String::new();
        assert(self@ =~= after_create_profile(old(self)@));
        true
    }

    /// Marks profile `name` as chosen in the profile list; whether it was not
    /// the chosen one before, in which case it is to be loaded.
    pub fn choose_profile(&mut self, name: &str) -> (changed: bool)
        ensures
            changed == (old(self)@.selected_profile != name@),
            final(self)@ == after_choose_profile(old(self)@, name@),
    {
        let changed = !same_text(self.selected_profile.as_str(), name);
        self.selected_profile = String::from_str(name);
        changed
    }

    /// Takes the configuration `config` loaded for profile `name`.
    pub fn apply_loaded_profile(&mut self, name: &str, config: G13Config)
        ensures
            final(self)@ == after_load_profile(old(self)@, name@, config@),
    {
        self.config = config;
        self.selected_profile = String::from_str(name);
    }

    /// Whether a profile may be deleted: only while more than one is known.
    pub fn can_delete_profile(&self) -> (b: bool)
        ensures
            b == (self@.profiles.len() > 1),
    {
        self.profiles.len() > 1
    }

    /// Drops profile `name` from the list; the profile to switch to, the
    /// first one left, if any.
    pub fn forget_profile(&mut self, name: &str) -> (next: Option<String>)
        ensures
            final(self)@ == after_forget_profile(old(self)@, name@),
            match next {
                Some(n) => successor_profile(old(self)@, name@) == Some(n@),
                None => successor_profile(old(self)@, name@) is None,
            },
    {
        self.profiles = strings_without(&self.profiles, name);
        if self.profiles.len() > 0 {
            assert(views(self.profiles@)[0] == self.profiles@[0]@);
            Some(self.profiles[0].clone())
        } else {
            None
        }
    }

    /// What the button of `key` shows of its binding.
    pub fn display_binding(&self, key: &str) -> (s: String)
        ensures
            s@ == shown_binding(self@, key@),
    {
        proof {
            reveal_strlit("");
        }
        let binding = self.binding_or(key, "");
        assert(""@ =~= Seq::<char>::empty());
        assert(binding@ == binding_or(self@.config.keys, key@, Seq::empty()));
        if starts_with(binding.as_str(), "MACRO:") {
            String::from_str("Macro")
        } else {
            binding
        }
    }

    /// Whether the button of `key` is filled as selected: it is the key being
    /// configured, or the key whose macro is being recorded.
    pub fn key_highlighted(&self, key: &str) -> (b: bool)
        ensures
            b == (self@.active_key == key@ || (self@.is_macro_recording && self@.macro_target_key
                == key@)),
    {
        same_text(self.active_key.as_str(), key) || (self.is_macro_recording && same_text(
            self.macro_target_key.as_str(),
            key,
        ))
    }

    /// Whether the name on the button of `key` is emphasized: it is the key being configured.
    pub fn key_name_emphasized(&self, key: &str) -> (b: bool)
        ensures
            b == (self@.active_key == key@),
    {
        same_text(self.active_key.as_str(), key)
    }

    /// The fill of the button of an M key or of `MR`.
    pub fn m_key_fill(&self, key: &str) -> (f: ButtonFill)
        ensures
            f == m_key_fill(self@, key@),
    {
        if same_text(key, "MR") && self.is_recording {
            ButtonFill::Recording
        } else if same_text(self.active_key.as_str(), key) {
            ButtonFill::Selected
        } else {
            ButtonFill::Plain
        }
    }

    /// Whether the name on the button of an M key or of `MR` is emphasized: it
    /// is the key being configured, or `MR` while the on-device recording runs.
    pub fn m_key_name_emphasized(&self, key: &str) -> (b: bool)
        ensures
            b == (self@.active_key == key@ || (key@ == record_key() && self@.is_recording)),
    {
        same_text(self.active_key.as_str(), key) || (same_text(key, "MR") && self.is_recording)
    }

    /// The label of the button of an M key or of `MR`.
    pub fn m_key_label(&self, key: &str) -> (s: String)
        ensures
            s@ == m_key_label(self@, key@),
    {
        proof {
            reveal_strlit("M");
        }
        if starts_with(key, "M") && same_text(self.active_m_slot.as_str(), key) {
            concatenated(key, "\n[ACTIVE]")
        } else if same_text(key, "MR") && self.is_recording {
            String::from_str("MR\n[REC]")
        } else {
            let shown = self.display_binding(key);
            if shown.as_str().is_empty() {
                String::from_str(key)
            } else {
                concatenated(concatenated(key, "\n").as_str(), shown.as_str())
            }
        }
    }

    /// The title of the binding editor: `Configuring Key: ` and the key.
    pub fn configuring_title(&self) -> (s: String)
        ensures
            s@ == "Configuring Key: "@ + self@.active_key,
    {
        concatenated("Configuring Key: ", self.active_key.as_str())
    }

    /// The notice shown while a macro is recorded, naming the macro's key.
    pub fn recording_notice(&self) -> (s: String)
        ensures
            s@ == "Recording macro for ["@ + self@.macro_target_key
                + "]. Press keys on G13 hardware..."@,
    {
        concatenated(
            concatenated("Recording macro for [", self.macro_target_key.as_str()).as_str(),
            "]. Press keys on G13 hardware...",
        )
    }

    /// The steps recorded so far, joined by arrows.
    pub fn recorded_steps_text(&self) -> (s: String)
        ensures
            s@ == "Recorded Steps: ["@ + join(self@.recorded_macro_steps, " -> "@) + "]"@,
    {
        let steps = join_strings(&self.recorded_macro_steps, " -> ");
        concatenated(concatenated("Recorded Steps: [", steps.as_str()).as_str(), "]")
    }
}

/// The editor after the keys `presses` were pressed on the device, in order.
pub open spec fn after_key_presses(a: AppView, presses: Seq<Seq<char>>) -> AppView
    decreases presses.len(),
{
    if presses.len() == 0 {
        a
    } else {
        after_key_press(after_key_presses(a, presses.drop_last()), presses.last())
    }
}

/// The steps that a macro recording for `target` keeps of `presses`: every
/// press but the empty ones and those of `target` itself, in order.
pub open spec fn kept_steps(presses: Seq<Seq<char>>, target: Seq<char>) -> Seq<Seq<char>>
    decreases presses.len(),
{
    if presses.len() == 0 {
        Seq::empty()
    } else {
        let rest = kept_steps(presses.drop_last(), target);
        let p = presses.last();
        if p.len() == 0 || p == target {
            rest
        } else {
            rest.push(p)
        }
    }
}

proof fn lemma_presses_while_recording_macro(a: AppView, presses: Seq<Seq<char>>)
    requires
        a.is_macro_recording,
    ensures
        after_key_presses(a, presses) == (AppView {
            recorded_macro_steps: a.recorded_macro_steps + kept_steps(presses, a.macro_target_key),
            ..a
        }),
    decreases presses.len(),
{
    if presses.len() == 0 {
        assert(a.recorded_macro_steps + Seq::<Seq<char>>::empty() =~= a.recorded_macro_steps);
        assert(after_key_presses(a, presses) =~= (AppView {
            recorded_macro_steps: a.recorded_macro_steps + kept_steps(presses, a.macro_target_key),
            ..a
        }));
    } else {
        lemma_presses_while_recording_macro(a, presses.drop_last());
        let rest = kept_steps(presses.drop_last(), a.macro_target_key);
        let p = presses.last();
        if !(p.len() == 0 || p == a.macro_target_key) {
            assert((a.recorded_macro_steps + rest).push(p) =~= a.recorded_macro_steps + rest.push(p));
        }
        assert(after_key_presses(a, presses) =~= (AppView {
            recorded_macro_steps: a.recorded_macro_steps + kept_steps(presses, a.macro_target_key),
            ..a
        }));
    }
}

/// A saved binding is read back: after the pending value is saved, the
/// configured key is bound to it, choosing that key again offers it as the
/// pending value, and every other key keeps its binding.
pub proof fn law_saved_binding_is_read_back(a: AppView)
    ensures
        after_save_binding(a).config.keys.contains_key(a.active_key),
        after_save_binding(a).config.keys[a.active_key] == a.edit_value,
        after_select_key(after_save_binding(a), a.active_key).edit_value == a.edit_value,
        forall|k: Seq<char>|
            k != a.active_key ==> binding_or(after_save_binding(a).config.keys, k, Seq::empty())
                == binding_or(a.config.keys, k, Seq::empty()),
{
}

/// A cleared binding is gone: the configured key is unbound afterwards, its
/// button shows nothing, choosing it again offers an empty value, and every
/// other key keeps its binding.
pub proof fn law_cleared_binding_is_gone(a: AppView)
    ensures
        !after_clear_binding(a).config.keys.contains_key(a.active_key),
        shown_binding(after_clear_binding(a), a.active_key).len() == 0,
        after_select_key(after_clear_binding(a), a.active_key).edit_value.len() == 0,
        forall|k: Seq<char>|
            k != a.active_key ==> binding_or(after_clear_binding(a).config.keys, k, Seq::empty())
                == binding_or(a.config.keys, k, Seq::empty()),
{
    assert(!has_prefix(Seq::<char>::empty(), "MACRO:"@)) by {
        reveal_strlit("MACRO:");
    }
}

/// Keys pressed during a macro recording change nothing but the recorded
/// steps: the configuration, the key being configured, the M slot and the
/// on-device recording stay as they were.
pub proof fn law_macro_recording_only_records(a: AppView, pressed: Seq<char>)
    requires
        a.is_macro_recording,
    ensures
        after_key_press(a, pressed) == (AppView {
            recorded_macro_steps: after_key_press(a, pressed).recorded_macro_steps,
            ..a
        }),
{
}

/// A macro recording binds its key to what was pressed: starting it on the
/// configured key, pressing any keys, and stopping it binds that key to
/// `MACRO:` and the pressed keys (all but the macro's own key) separated by
/// commas, its button shows `Macro`, and no other binding changes.
pub proof fn law_macro_round_trip(a: AppView, presses: Seq<Seq<char>>)
    ensures
        ({
            let done = after_stop_macro(after_key_presses(after_start_macro(a), presses));
            &&& done.config.keys.contains_key(a.active_key)
            &&& done.config.keys[a.active_key] == macro_binding(kept_steps(presses, a.active_key))
            &&& shown_binding(done, a.active_key) == "Macro"@
            &&& !done.is_macro_recording
            &&& forall|k: Seq<char>|
                k != a.active_key ==> binding_or(done.config.keys, k, Seq::empty()) == binding_or(
                    a.config.keys,
                    k,
                    Seq::empty(),
                )
        }),
{
    let started = after_start_macro(a);
    lemma_presses_while_recording_macro(started, presses);
    assert(Seq::<Seq<char>>::empty() + kept_steps(presses, a.active_key) =~= kept_steps(
        presses,
        a.active_key,
    ));
    let b = macro_binding(kept_steps(presses, a.active_key));
    assert(has_prefix(b, "MACRO:"@)) by {
        assert(b.take("MACRO:"@.len() as int) =~= "MACRO:"@);
    }
}

/// Pressing `MR` twice, with no macro being recorded, leaves the editor as it was.
pub proof fn law_record_key_toggles_back(a: AppView)
    requires
        !a.is_macro_recording,
    ensures
        after_key_press(after_key_press(a, record_key()), record_key()) == a,
{
    reveal_strlit("MR");
    assert(after_key_press(after_key_press(a, record_key()), record_key()) =~= a);
}

/// A created profile is listed and in use, and creating one adds no
/// duplicate to a list that had none.
pub proof fn law_created_profile_is_listed(a: AppView)
    requires
        a.new_profile_name.len() > 0,
    ensures
        after_create_profile(a).profiles.contains(a.new_profile_name),
        after_create_profile(a).config.profile_name == a.new_profile_name,
        a.profiles.no_duplicates() ==> after_create_profile(a).profiles.no_duplicates(),
{
    let name = a.new_profile_name;
    if !a.profiles.contains(name) {
        assert(a.profiles.push(name)[a.profiles.len() as int] == name);
    }
}

proof fn lemma_without(s: Seq<Seq<char>>, x: Seq<char>)
    ensures
        !without(s, x).contains(x),
        forall|y: Seq<char>| y != x && s.contains(y) ==> #[trigger] without(s, x).contains(y),
        forall|y: Seq<char>| #[trigger] without(s, x).contains(y) ==> s.contains(y),
        s.no_duplicates() ==> without(s, x).len() + (if s.contains(x) { 1int } else { 0int }) == s.len(),
        s.no_duplicates() ==> without(s, x).no_duplicates(),
    decreases s.len(),
{
    if s.len() > 0 {
        let init = s.drop_last();
        let last = s.last();
        lemma_without(init, x);
        let rest = without(init, x);
        assert forall|y: Seq<char>| y != x && s.contains(y) implies #[trigger] without(s, x).contains(y) by {
            let i = choose|i: int| 0 <= i < s.len() && s[i] == y;
            if i < s.len() - 1 {
                assert(init[i] == y);
                assert(init.contains(y));
                assert(without(init, x).contains(y));
                if last != x {
                    let j = choose|j: int| 0 <= j < rest.len() && rest[j] == y;
                    assert(rest.push(last)[j] == y);
                }
            } else {
                assert(rest.push(last)[rest.len() as int] == y);
            }
        }
        assert forall|y: Seq<char>| #[trigger] without(s, x).contains(y) implies s.contains(y) by {
            let j = choose|j: int| 0 <= j < without(s, x).len() && without(s, x)[j] == y;
            if j < rest.len() {
                assert(rest[j] == y);
                assert(rest.contains(y));
                let i = choose|i: int| 0 <= i < init.len() && init[i] == y;
                assert(s[i] == y);
            } else {
                assert(s[s.len() - 1] == y);
            }
        }
        if s.no_duplicates() {
            assert(init.no_duplicates()) by {
                assert forall|i: int, j: int| 0 <= i < init.len() && 0 <= j < init.len() && i != j implies init[i] != init[j] by {
                    assert(s[i] != s[j]);
                }
            }
            assert(!init.contains(last)) by {
                if init.contains(last) {
                    let i = choose|i: int| 0 <= i < init.len() && init[i] == last;
                    assert(s[i] == s[s.len() - 1]);
                }
            }
            if last == x {
                assert(s.contains(x));
                assert(!init.contains(x));
            } else {
                assert(init.contains(x) == s.contains(x)) by {
                    if s.contains(x) {
                        let i = choose|i: int| 0 <= i < s.len() && s[i] == x;
                        assert(init[i] == x);
                    }
                }
                assert(!rest.contains(last)) by {
                    if rest.contains(last) {
                        assert(init.contains(last));
                    }
                }
                assert(rest.push(last).no_duplicates()) by {
                    assert forall|i: int, j: int| 0 <= i < rest.len() + 1 && 0 <= j < rest.len() + 1 && i != j implies rest.push(last)[i] != rest.push(last)[j] by {
                        if i < rest.len() && j < rest.len() {
                        } else if i < rest.len() {
                            assert(rest[i] != last) by {
                                if rest[i] == last {
                                    assert(rest.contains(last));
                                }
                            }
                        } else if j < rest.len() {
                            assert(rest[j] != last) by {
                                if rest[j] == last {
                                    assert(rest.contains(last));
                                }
                            }
                        }
                    }
                }
            }
        }
        if !without(s, x).contains(x) {
        } else {
            let j = choose|j: int| 0 <= j < without(s, x).len() && without(s, x)[j] == x;
            if j < rest.len() {
                assert(rest[j] == x);
                assert(rest.contains(x));
            }
        }
    }
}

/// Deleting a profile from a list of distinct profiles with more than one
/// (the only lists the editor deletes from) leaves a profile to switch to,
/// drops exactly the deleted one, and keeps every other profile.
pub proof fn law_deleting_leaves_a_profile(a: AppView, name: Seq<char>)
    requires
        a.profiles.len() > 1,
        a.profiles.no_duplicates(),
    ensures
        after_forget_profile(a, name).profiles.len() >= 1,
        successor_profile(a, name) is Some,
        !after_forget_profile(a, name).profiles.contains(name),
        forall|p: Seq<char>|
            p != name && a.profiles.contains(p) ==> #[trigger] after_forget_profile(
                a,
                name,
            ).profiles.contains(p),
{
    lemma_without(a.profiles, name);
}

/// Whether two editors agree on everything but the key being configured and
/// its pending value.
pub open spec fn same_but_selection(a: AppView, b: AppView) -> bool {
    &&& a.config == b.config
    &&& a.profiles == b.profiles
    &&& a.selected_profile == b.selected_profile
    &&& a.new_profile_name == b.new_profile_name
    &&& a.active_m_slot == b.active_m_slot
    &&& a.is_recording == b.is_recording
    &&& a.is_macro_recording == b.is_macro_recording
    &&& a.macro_target_key == b.macro_target_key
    &&& a.recorded_macro_steps == b.recorded_macro_steps
    &&& a.macros == b.macros
}

/// Pressing a two-byte key name that starts with `M`, other than `MR`, on the
/// device (with no macro being recorded) makes it the active slot and changes
/// nothing else; its button is then labelled as the active one.
pub proof fn law_pressed_slot_becomes_active(a: AppView, key: Seq<char>)
    requires
        !a.is_macro_recording,
        key.len() == 2,
        key[0] == 'M',
        (key[1] as u32) < 128,
        key != "MR"@,
    ensures
        after_key_press(a, key) == (AppView { active_m_slot: key, ..a }),
        m_key_label(after_key_press(a, key), key) == key + "\n[ACTIVE]"@,
{
    reveal_strlit("M");
    assert(key.take(1) =~= "M"@);
}

/// Pressing `MR` on the device (with no macro being recorded) flips the
/// on-device recording and changes nothing else.
pub proof fn law_record_key_flips_recording(a: AppView)
    requires
        !a.is_macro_recording,
    ensures
        after_key_press(a, "MR"@) == (AppView { is_recording: !a.is_recording, ..a }),
{
    reveal_strlit("MR");
}

/// Pressing any other key on the device, with neither recording running,
/// chooses it for configuration with its binding (empty if it has none) as
/// the pending value, and changes nothing else.
pub proof fn law_pressed_key_is_selected(a: AppView, key: Seq<char>)
    requires
        !a.is_macro_recording,
        !a.is_recording,
        key.len() > 0,
        key != "MR"@,
        !(key.len() == 2 && key[0] == 'M' && (key[1] as u32) < 128),
    ensures
        after_key_press(a, key).active_key == key,
        after_key_press(a, key).edit_value == (if a.config.keys.contains_key(key) {
            a.config.keys[key]
        } else {
            Seq::empty()
        }),
        same_but_selection(after_key_press(a, key), a),
{
}

/// While the on-device recording runs (and no macro is recorded), pressing
/// any other key on the device appends that key's binding (its name if it
/// has none) to the list filed under the active slot, `_` and the key; no
/// other list, binding or selection changes.
pub proof fn law_on_device_recording_files_binding(a: AppView, key: Seq<char>)
    requires
        !a.is_macro_recording,
        a.is_recording,
        key.len() > 0,
        key != "MR"@,
        !(key.len() == 2 && key[0] == 'M' && (key[1] as u32) < 128),
    ensures
        ({
            let slot = a.active_m_slot + "_"@ + key;
            let before = if a.macros.contains_key(slot) { a.macros[slot] } else { Seq::empty() };
            let step = if a.config.keys.contains_key(key) { a.config.keys[key] } else { key };
            &&& after_key_press(a, key).macros == a.macros.insert(slot, before.push(step))
            &&& after_key_press(a, key) == (AppView { macros: after_key_press(a, key).macros, ..a })
        }),
{
}

/// While a macro is recorded, a pressed key is appended to the steps unless
/// it is empty or the macro's own key.
pub proof fn law_macro_steps_grow_by_pressed_key(a: AppView, key: Seq<char>)
    requires
        a.is_macro_recording,
    ensures
        after_key_press(a, key).recorded_macro_steps == (if key.len() > 0 && key != a.macro_target_key {
            a.recorded_macro_steps.push(key)
        } else {
            a.recorded_macro_steps
        }),
{
}

/// Choosing a key for configuration offers its binding (empty if none) as
/// the pending value and changes nothing else.
pub proof fn law_selecting_offers_binding(a: AppView, key: Seq<char>)
    ensures
        after_select_key(a, key).active_key == key,
        after_select_key(a, key).edit_value == (if a.config.keys.contains_key(key) {
            a.config.keys[key]
        } else {
            Seq::empty()
        }),
        same_but_selection(after_select_key(a, key), a),
{
}

/// Saving binds the configured key to the pending value, keeps every other
/// binding and everything else, and ends the configuration of the key.
pub proof fn law_saving_binds_only_the_key(a: AppView)
    ensures
        after_save_binding(a).config.keys == a.config.keys.insert(a.active_key, a.edit_value),
        after_save_binding(a).config.profile_name == a.config.profile_name,
        after_save_binding(a).config.color == a.config.color,
        after_save_binding(a).config.profiles == a.config.profiles,
        after_save_binding(a).active_key.len() == 0,
        after_save_binding(a).edit_value == a.edit_value,
        after_save_binding(a).is_macro_recording == a.is_macro_recording,
        after_save_binding(a).is_recording == a.is_recording,
        after_save_binding(a).profiles == a.profiles,
        after_save_binding(a).macros == a.macros,
{
}

/// Clearing unbinds the configured key, keeps every other binding and
/// everything else, and ends the configuration of the key.
pub proof fn law_clearing_unbinds_only_the_key(a: AppView)
    ensures
        after_clear_binding(a).config.keys == a.config.keys.remove(a.active_key),
        after_clear_binding(a).config.profile_name == a.config.profile_name,
        after_clear_binding(a).config.color == a.config.color,
        after_clear_binding(a).config.profiles == a.config.profiles,
        after_clear_binding(a).active_key.len() == 0,
        after_clear_binding(a).edit_value == a.edit_value,
        after_clear_binding(a).is_macro_recording == a.is_macro_recording,
        after_clear_binding(a).profiles == a.profiles,
        after_clear_binding(a).macros == a.macros,
{
}

/// Starting a macro recording targets the configured key with no steps yet,
/// and changes no binding.
pub proof fn law_macro_starts_empty_on_configured_key(a: AppView)
    ensures
        after_start_macro(a).is_macro_recording,
        after_start_macro(a).macro_target_key == a.active_key,
        after_start_macro(a).recorded_macro_steps.len() == 0,
        after_start_macro(a).config == a.config,
        after_start_macro(a).active_key == a.active_key,
{
}

/// Stopping a macro recording binds its key to `MACRO:` and the steps joined
/// by commas, offers that as the pending value, ends the recording and the
/// configuration of the key, and changes no other binding.
pub proof fn law_macro_stop_binds_steps(a: AppView)
    ensures
        after_stop_macro(a).config.keys == a.config.keys.insert(
            a.macro_target_key,
            "MACRO:"@ + join(a.recorded_macro_steps, ","@),
        ),
        after_stop_macro(a).edit_value == "MACRO:"@ + join(a.recorded_macro_steps, ","@),
        !after_stop_macro(a).is_macro_recording,
        after_stop_macro(a).active_key.len() == 0,
        after_stop_macro(a).config.profile_name == a.config.profile_name,
        after_stop_macro(a).config.color == a.config.color,
        after_stop_macro(a).profiles == a.profiles,
        after_stop_macro(a).macros == a.macros,
{
}

/// Cancelling ends the macro recording and the configuration of the key and
/// changes no binding.
pub proof fn law_cancel_changes_no_binding(a: AppView)
    ensures
        !after_cancel(a).is_macro_recording,
        after_cancel(a).active_key.len() == 0,
        after_cancel(a).config == a.config,
        after_cancel(a).recorded_macro_steps == a.recorded_macro_steps,
{
}

/// Creating a profile renames the configuration in use and changes nothing
/// else of it: its bindings, colour and stored profiles stay; with no name
/// given nothing changes at all.
pub proof fn law_creating_keeps_the_configuration(a: AppView)
    ensures
        a.new_profile_name.len() > 0 ==> {
            &&& after_create_profile(a).config.profile_name == a.new_profile_name
            &&& after_create_profile(a).config.keys == a.config.keys
            &&& after_create_profile(a).config.color == a.config.color
            &&& after_create_profile(a).config.profiles == a.config.profiles
            &&& after_create_profile(a).new_profile_name.len() == 0
            &&& after_create_profile(a).profiles == (if a.profiles.contains(a.new_profile_name) {
                a.profiles
            } else {
                a.profiles.push(a.new_profile_name)
            })
            &&& after_create_profile(a).active_key == a.active_key
            &&& after_create_profile(a).selected_profile == a.selected_profile
            &&& after_create_profile(a).macros == a.macros
        },
        a.new_profile_name.len() == 0 ==> after_create_profile(a) == a,
{
}

/// Loading a profile puts its configuration in use as it is, bindings
/// included, whatever was bound before, and marks it selected; nothing else
/// of the editor changes.
pub proof fn law_loaded_profile_is_used(a: AppView, name: Seq<char>, c: ConfigView)
    ensures
        after_load_profile(a, name, c).config == c,
        after_load_profile(a, name, c).config.keys == c.keys,
        after_load_profile(a, name, c).selected_profile == name,
        after_load_profile(a, name, c) == (AppView { config: c, selected_profile: name, ..a }),
{
}

/// Choosing a profile in the list only marks it selected.
pub proof fn law_choosing_only_selects(a: AppView, name: Seq<char>)
    ensures
        after_choose_profile(a, name) == (AppView { selected_profile: name, ..a }),
{
}

proof fn lemma_first_kept(s: Seq<Seq<char>>, x: Seq<char>)
    ensures
        without(s, x).len() > 0 ==> exists|i: int|
            0 <= i < s.len() && s[i] == without(s, x)[0] && s[i] != x && (forall|j: int|
                0 <= j < i ==> #[trigger] s[j] == x),
        without(s, x).len() == 0 ==> forall|i: int| 0 <= i < s.len() ==> #[trigger] s[i] == x,
    decreases s.len(),
{
    if s.len() > 0 {
        let init = s.drop_last();
        lemma_first_kept(init, x);
        let rest = without(init, x);
        if rest.len() > 0 {
            let i = choose|i: int|
                0 <= i < init.len() && init[i] == rest[0] && init[i] != x && (forall|j: int|
                    0 <= j < i ==> #[trigger] init[j] == x);
            assert(s[i] == without(s, x)[0]);
            assert forall|j: int| 0 <= j < i implies #[trigger] s[j] == x by {
                assert(init[j] == x);
            }
        } else {
            assert forall|i: int| 0 <= i < init.len() implies #[trigger] s[i] == x by {
                assert(init[i] == x);
            }
            if s.last() != x {
                let i = s.len() - 1;
                assert(without(s, x)[0] == s.last());
                assert forall|j: int| 0 <= j < i implies #[trigger] s[j] == x by {
                    assert(init[j] == x);
                }
            }
        }
    }
}

/// Deleting a profile switches to the first profile of the list that is not
/// the deleted one, and to none exactly when every profile is the deleted one.
pub proof fn law_switch_to_first_profile_left(a: AppView, name: Seq<char>)
    ensures
        match successor_profile(a, name) {
            Some(p) => exists|i: int|
                0 <= i < a.profiles.len() && a.profiles[i] == p && p != name && (forall|j: int|
                    0 <= j < i ==> #[trigger] a.profiles[j] == name),
            None => forall|i: int| 0 <= i < a.profiles.len() ==> #[trigger] a.profiles[i] == name,
        },
{
    lemma_first_kept(a.profiles, name);
}

/// An empty key name changes nothing.
pub proof fn law_empty_press_changes_nothing(a: AppView)
    ensures
        after_key_press(a, Seq::empty()) == a,
{
}

/// Clicking the on-screen button of `MR` flips the on-device recording,
/// clicking that of a key starting with `M` makes it the active slot, and in
/// either case the key is chosen for configuration with its binding (empty
/// if none) as the pending value; nothing else changes.
pub proof fn law_m_key_click(a: AppView, key: Seq<char>)
    ensures
        after_m_key_click(a, key).active_key == key,
        after_m_key_click(a, key).edit_value == (if a.config.keys.contains_key(key) {
            a.config.keys[key]
        } else {
            Seq::empty()
        }),
        after_m_key_click(a, key).is_recording == (if key == "MR"@ {
            !a.is_recording
        } else {
            a.is_recording
        }),
        after_m_key_click(a, key).active_m_slot == (if key != "MR"@ && key.len() > 0 && key[0]
            == 'M' {
            key
        } else {
            a.active_m_slot
        }),
        after_m_key_click(a, key).config == a.config,
        after_m_key_click(a, key).macros == a.macros,
        after_m_key_click(a, key).is_macro_recording == a.is_macro_recording,
        after_m_key_click(a, key).profiles == a.profiles,
{
    reveal_strlit("M");
    if key.len() > 0 && key[0] == 'M' {
        assert(key.take(1) =~= "M"@);
    }
    if has_prefix(key, "M"@) {
        assert(key[0] == key.take(1)[0]);
    }
}

/// The editor starts on the given configuration and profiles with the
/// configuration's profile selected, slot `M1` active, and nothing being
/// configured, recorded or filed.
pub proof fn law_initial_editor(c: ConfigView, profiles: Seq<Seq<char>>)
    ensures
        initial_app(c, profiles).config == c,
        initial_app(c, profiles).profiles == profiles,
        initial_app(c, profiles).selected_profile == c.profile_name,
        initial_app(c, profiles).active_m_slot == seq!['M', '1'],
        initial_app(c, profiles).active_key.len() == 0,
        initial_app(c, profiles).edit_value.len() == 0,
        initial_app(c, profiles).new_profile_name.len() == 0,
        !initial_app(c, profiles).is_recording,
        !initial_app(c, profiles).is_macro_recording,
        initial_app(c, profiles).recorded_macro_steps.len() == 0,
        initial_app(c, profiles).macros == Map::<Seq<char>, Seq<Seq<char>>>::empty(),
{
    reveal_strlit("M1");
}

/// A key's button shows `Macro` for a binding that starts with `MACRO:`, and
/// otherwise the binding itself (nothing for an unbound key).
pub proof fn law_shown_binding(a: AppView, key: Seq<char>)
    ensures
        ({
            let b = if a.config.keys.contains_key(key) { a.config.keys[key] } else { Seq::empty() };
            shown_binding(a, key) == if b.len() >= 6 && b.take(6) == seq!['M', 'A', 'C', 'R', 'O', ':'] {
                seq!['M', 'a', 'c', 'r', 'o']
            } else {
                b
            }
        }),
{
    reveal_strlit("MACRO:");
    reveal_strlit("Macro");
    assert("MACRO:"@ =~= seq!['M', 'A', 'C', 'R', 'O', ':']);
    assert("Macro"@ =~= seq!['M', 'a', 'c', 'r', 'o']);
}

/// The label of an M key's or `MR`'s button: the active slot's name with
/// `[ACTIVE]` on a second line; `MR` with `[REC]` while the on-device
/// recording runs; otherwise the name, with what the button shows of the
/// binding on a second line when that is not empty.
pub proof fn law_m_key_label(a: AppView, key: Seq<char>)
    ensures
        key.len() > 0 && key[0] == 'M' && a.active_m_slot == key ==> m_key_label(a, key) == key
            + "\n[ACTIVE]"@,
        !(key.len() > 0 && key[0] == 'M' && a.active_m_slot == key) && key == "MR"@
            && a.is_recording ==> m_key_label(a, key) == "MR\n[REC]"@,
        !(key.len() > 0 && key[0] == 'M' && a.active_m_slot == key) && !(key == "MR"@
            && a.is_recording) ==> m_key_label(a, key) == if shown_binding(a, key).len() == 0 {
            key
        } else {
            key + "\n"@ + shown_binding(a, key)
        },
        m_key_fill(a, key) == if key == "MR"@ && a.is_recording {
            ButtonFill::Recording
        } else if a.active_key == key {
            ButtonFill::Selected
        } else {
            ButtonFill::Plain
        },
{
    reveal_strlit("M");
    if key.len() > 0 && key[0] == 'M' {
        assert(key.take(1) =~= "M"@);
    }
    if has_prefix(key, "M"@) {
        assert(key[0] == key.take(1)[0]);
    }
}
} // verus!
