//! The settings screen: context strategy, neurons and presets, generation
//! parameters, performance switches and features, with the search that
//! filters every section; and what each key does there.
use vstd::prelude::*;
use crate::chat::{fuzzy_match, fuzzy_matches};
use crate::config::{ctx_strategy_at, CtxStrategy, NeuronMode, NeuronPreset};
use crate::keys::{Key, KeyCode};
use crate::screen::Screen;
use crate::config::{ctx_strategy_index, ctx_strategy_named, neuron_mode_named};
use crate::nav::{nav_next, nav_prev, next_target, prev_target, snap_cursor, snap_target};
use crate::text::{chars_of, pop_char, popped, push_char, str_eq, string_from_chars, string_views, trim, trim_bounds, to_owned};

verus! {

broadcast use vstd::seq_lib::group_seq_properties;

/// What the settings screen holds besides the generation parameters.
pub struct Settings {
    pub ctx_strategy: CtxStrategy,
    /// Cursor in the context-strategy section.
    pub config_cursor: usize,
    /// 0 context, 1 neurons, 2 generation, 3 performance, 4 features.
    pub config_section: usize,
    pub neuron_cursor: usize,
    pub neuron_mode: NeuronMode,
    /// 0 manual, 1 smart, 2 presets, within the neurons section.
    pub neuron_sub_section: usize,
    pub neuron_presets: Vec<NeuronPreset>,
    pub active_preset: Option<String>,
    pub preset_cursor: usize,
    /// The name being typed for a new preset.
    pub preset_name_input: Option<String>,
    /// Neurons switched off (a set: order carries no meaning).
    pub disabled_neurons: Vec<String>,
    /// Smart mode: neurons loaded on demand (a set).
    pub on_demand_neurons: Vec<String>,
    pub ctx_pow2: bool,
    pub keep_alive: bool,
    pub warmup: bool,
    pub thinking: bool,
    pub param_cursor: usize,
    pub perf_cursor: usize,
    pub features_cursor: usize,
    /// The search that filters the section on show.
    pub config_search: String,
    pub username: String,
    pub username_editing: bool,
    /// The settings differ from what was last written to disk.
    pub config_dirty: bool,
}

/// A preset as plain values: its name and the neurons it enables.
pub type PresetView = (Seq<char>, Seq<Seq<char>>);

/// The settings as plain values.
pub struct SettingsView {
    pub ctx_strategy: CtxStrategy,
    pub config_cursor: usize,
    pub config_section: usize,
    pub neuron_cursor: usize,
    pub neuron_mode: NeuronMode,
    pub neuron_sub_section: usize,
    pub presets: Seq<PresetView>,
    pub active_preset: Option<Seq<char>>,
    pub preset_cursor: usize,
    pub preset_name_input: Option<Seq<char>>,
    pub disabled: Set<Seq<char>>,
    pub on_demand: Set<Seq<char>>,
    pub ctx_pow2: bool,
    pub keep_alive: bool,
    pub warmup: bool,
    pub thinking: bool,
    pub param_cursor: usize,
    pub perf_cursor: usize,
    pub features_cursor: usize,
    pub search: Seq<char>,
    pub username: Seq<char>,
    pub username_editing: bool,
    pub dirty: bool,
}

/// The views of presets.
pub open spec fn preset_views(ps: Seq<NeuronPreset>) -> Seq<PresetView> {
    ps.map_values(|p: NeuronPreset| (p.name@, string_views(p.enabled@)))
}

/// The view of an optional string.
pub open spec fn opt_view(o: Option<String>) -> Option<Seq<char>> {
    match o {
        Some(s) => Some(s@),
        None => None,
    }
}

/// The set a vector of strings stands for.
pub open spec fn name_set(v: Seq<String>) -> Set<Seq<char>> {
    string_views(v).to_set()
}

impl View for Settings {
    type V = SettingsView;

    open spec fn view(&self) -> SettingsView {
        SettingsView {
            ctx_strategy: self.ctx_strategy,
            config_cursor: self.config_cursor,
            config_section: self.config_section,
            neuron_cursor: self.neuron_cursor,
            neuron_mode: self.neuron_mode,
            neuron_sub_section: self.neuron_sub_section,
            presets: preset_views(self.neuron_presets@),
            active_preset: opt_view(self.active_preset),
            preset_cursor: self.preset_cursor,
            preset_name_input: opt_view(self.preset_name_input),
            disabled: name_set(self.disabled_neurons@),
            on_demand: name_set(self.on_demand_neurons@),
            ctx_pow2: self.ctx_pow2,
            keep_alive: self.keep_alive,
            warmup: self.warmup,
            thinking: self.thinking,
            param_cursor: self.param_cursor,
            perf_cursor: self.perf_cursor,
            features_cursor: self.features_cursor,
            search: self.config_search@,
            username: self.username@,
            username_editing: self.username_editing,
            dirty: self.config_dirty,
        }
    }
}

// ── stored settings ───────────────────────────────────────────────────────

/// The settings as a settings file holds them; `None` where it has no value.
pub struct StoredSettings {
    pub ctx_strategy: Option<String>,
    pub disabled_neurons: Vec<String>,
    pub on_demand_neurons: Vec<String>,
    pub ctx_pow2: Option<bool>,
    pub keep_alive: Option<bool>,
    pub warmup: Option<bool>,
    pub thinking: Option<bool>,
    pub neuron_mode: Option<String>,
    pub neuron_presets: Vec<NeuronPreset>,
    pub active_preset: Option<String>,
    pub username: Option<String>,
}

/// The stored context strategy: the one named, dynamic when none is.
pub open spec fn stored_strategy(n: Option<String>) -> CtxStrategy {
    match n {
        Some(n) => ctx_strategy_named(n@),
        None => CtxStrategy::Dynamic,
    }
}

/// The stored neuron mode: the one named, manual when none is.
pub open spec fn stored_mode(n: Option<String>) -> NeuronMode {
    match n {
        Some(n) => neuron_mode_named(n@),
        None => NeuronMode::Manual,
    }
}

/// A stored switch, or `default` when it is missing.
pub open spec fn stored_flag(b: Option<bool>, default: bool) -> bool {
    match b {
        Some(b) => b,
        None => default,
    }
}

// ── set operations on name vectors ────────────────────────────────────────

fn names_contain(v: &Vec<String>, name: &str) -> (b: bool)
    ensures
        b == name_set(v@).contains(name@),
{
    let mut i: usize = 0;
    while i < v.len()
        invariant
            i <= v@.len(),
            forall|j: int| 0 <= j < i ==> v@[j]@ != name@,
        decreases v.len() - i,
    {
        if str_eq(v[i].as_str(), name) {
            assert(string_views(v@)[i as int] == name@);
            return true;
        }
        i += 1;
    }
    assert(!string_views(v@).contains(name@)) by {
        if string_views(v@).contains(name@) {
            let k = choose|k: int| 0 <= k < string_views(v@).len() && string_views(v@)[k] == name@;
            assert(v@[k]@ == name@);
        }
    }
    false
}

fn names_remove(v: &mut Vec<String>, name: &str)
    ensures
        name_set(final(v)@) == name_set(old(v)@).remove(name@),
{
    let ghost ov = string_views(v@);
    let mut out: Vec<String> = Vec::new();
    let mut i: usize = 0;
    while i < v.len()
        invariant
            i <= v@.len(),
            ov == string_views(v@),
            forall|a: Seq<char>| string_views(out@).contains(a) <==> (ov.take(i as int).contains(a) && a != name@),
        decreases v.len() - i,
    {
        let keep = !str_eq(v[i].as_str(), name);
        if keep {
            let s = to_owned(v[i].as_str());
            proof {
                assert(string_views(out@.push(s)) =~= string_views(out@).push(s@));
            }
            out.push(s);
        }
        assert(ov.take(i + 1) =~= ov.take(i as int).push(ov[i as int]));
        i += 1;
    }
    assert(ov.take(ov.len() as int) =~= ov);
    assert(name_set(out@) =~= name_set(v@).remove(name@));
    *v = out;
}

fn names_insert(v: &mut Vec<String>, name: &str)
    ensures
        name_set(final(v)@) == name_set(old(v)@).insert(name@),
        string_views(old(v)@).no_duplicates() ==> string_views(final(v)@).no_duplicates(),
{
    if names_contain(v, name) {
        assert(name_set(v@).insert(name@) =~= name_set(v@));
        return;
    }
    let s = to_owned(name);
    proof {
        assert(string_views(v@.push(s)) =~= string_views(v@).push(s@));
    }
    v.push(s);
    assert(name_set(v@) =~= name_set(old(v)@).insert(name@));
    proof {
        assert(string_views(v@) =~= string_views(old(v)@).push(name@));
        assert(!string_views(old(v)@).contains(name@));
    }
}

/// The names of `v`, each once, in the order they first come.
fn names_deduped(v: &Vec<String>) -> (r: Vec<String>)
    ensures
        name_set(r@) == name_set(v@),
        string_views(r@).no_duplicates(),
{
    let mut out: Vec<String> = Vec::new();
    let mut i: usize = 0;
    assert(string_views(v@).take(0) =~= Seq::<Seq<char>>::empty());
    assert(name_set(out@) =~= Set::<Seq<char>>::empty());
    while i < v.len()
        invariant
            i <= v@.len(),
            name_set(out@) == string_views(v@).take(i as int).to_set(),
            string_views(out@).no_duplicates(),
        decreases v.len() - i,
    {
        names_insert(&mut out, v[i].as_str());
        proof {
            assert(string_views(v@).take(i + 1) =~= string_views(v@).take(i as int).push(v@[i as int]@));
            string_views(v@).take(i as int).lemma_push_to_set_commute(v@[i as int]@);
        }
        i += 1;
    }
    assert(string_views(v@).take(v@.len() as int) =~= string_views(v@));
    out
}

/// The membership of `name` in a set flipped.
pub open spec fn flipped(s: Set<Seq<char>>, name: Seq<char>) -> Set<Seq<char>> {
    if s.contains(name) { s.remove(name) } else { s.insert(name) }
}

// ── searching a section ───────────────────────────────────────────────────

/// The indices of `labels` that the search `q` matches, in order.
pub open spec fn matching(q: Seq<char>, labels: Seq<Seq<char>>) -> Seq<usize>
    decreases labels.len(),
{
    if labels.len() == 0 {
        seq![]
    } else {
        matching(q, labels.drop_last()) + if fuzzy_matches(q, labels.last()) {
            seq![(labels.len() - 1) as usize]
        } else {
            seq![]
        }
    }
}

/// The indices of the labels that the search matches.
pub fn matching_indices(q: &str, labels: &[String]) -> (r: Vec<usize>)
    ensures
        r@ == matching(q@, string_views(labels@)),
{
    let ghost lv = string_views(labels@);
    let mut r: Vec<usize> = Vec::new();
    let mut i: usize = 0;
    while i < labels.len()
        invariant
            i <= labels@.len(),
            lv == string_views(labels@),
            r@ == matching(q@, lv.take(i as int)),
        decreases labels.len() - i,
    {
        assert(lv.take(i + 1).drop_last() =~= lv.take(i as int));
        assert(lv.take(i + 1).last() == labels@[i as int]@);
        if fuzzy_match(q, labels[i].as_str()) {
            r.push(i);
        }
        i += 1;
    }
    assert(lv.take(labels@.len() as int) =~= lv);
    r
}

/// The rows of the context-strategy section.
pub open spec fn ctx_labels() -> Seq<Seq<char>> {
    seq!["Dynamic context"@, "Full context"@]
}

/// The rows of the generation section: the parameters' names.
pub open spec fn param_labels() -> Seq<Seq<char>> {
    seq!["temperature"@, "top_p"@, "repeat_penalty"@, "thinking_budget"@]
}

/// The rows of the performance section.
pub open spec fn perf_labels() -> Seq<Seq<char>> {
    seq!["Stable num_ctx"@, "Keep model alive"@, "Warm-up cache"@]
}

/// The switchable rows of the features section (the username row follows).
pub open spec fn feature_labels() -> Seq<Seq<char>> {
    seq!["Thinking"@]
}

/// The row of the username in the features section.
pub const USERNAME_ROW: usize = 1;

/// The labels of the context-strategy section.
pub fn ctx_label_list() -> (v: Vec<String>)
    ensures
        string_views(v@) == ctx_labels(),
{
    let v = vec![to_owned("Dynamic context"), to_owned("Full context")];
    assert(string_views(v@) =~= ctx_labels());
    v
}

/// The labels of the generation section.
pub fn param_label_list() -> (v: Vec<String>)
    ensures
        string_views(v@) == param_labels(),
{
    let v = vec![to_owned("temperature"), to_owned("top_p"), to_owned("repeat_penalty"), to_owned("thinking_budget")];
    assert(string_views(v@) =~= param_labels());
    v
}

/// The labels of the performance section.
pub fn perf_label_list() -> (v: Vec<String>)
    ensures
        string_views(v@) == perf_labels(),
{
    let v = vec![to_owned("Stable num_ctx"), to_owned("Keep model alive"), to_owned("Warm-up cache")];
    assert(string_views(v@) =~= perf_labels());
    v
}

/// The labels of the features section.
pub fn feature_label_list() -> (v: Vec<String>)
    ensures
        string_views(v@) == feature_labels(),
{
    let v = vec![to_owned("Thinking")];
    assert(string_views(v@) =~= feature_labels());
    v
}

// ── single settings ───────────────────────────────────────────────────────

/// `s` with performance switch `index` flipped (0 stable context size,
/// 1 keep alive, 2 warm-up), and marked unsaved.
pub open spec fn perf_toggled(s: SettingsView, index: usize) -> SettingsView {
    SettingsView {
        ctx_pow2: if index == 0 { !s.ctx_pow2 } else { s.ctx_pow2 },
        keep_alive: if index == 1 { !s.keep_alive } else { s.keep_alive },
        warmup: if index == 2 { !s.warmup } else { s.warmup },
        dirty: true,
        ..s
    }
}

/// `s` with feature `index` flipped (0 thinking), and marked unsaved.
pub open spec fn feature_toggled(s: SettingsView, index: usize) -> SettingsView {
    SettingsView { thinking: if index == 0 { !s.thinking } else { s.thinking }, dirty: true, ..s }
}

/// `s` with the neuron under the cursor switched on or off.
pub open spec fn neuron_toggled(s: SettingsView, names: Seq<Seq<char>>) -> SettingsView {
    if s.neuron_cursor < names.len() {
        SettingsView { disabled: flipped(s.disabled, names[s.neuron_cursor as int]), dirty: true, ..s }
    } else {
        s
    }
}

/// Smart mode's cycle for the neuron under the cursor: off, then loaded at
/// start, then loaded on demand, then off again.
pub open spec fn smart_cycled(s: SettingsView, names: Seq<Seq<char>>) -> SettingsView {
    if s.neuron_cursor < names.len() {
        let n = names[s.neuron_cursor as int];
        if s.disabled.contains(n) {
            SettingsView { disabled: s.disabled.remove(n), on_demand: s.on_demand.remove(n), dirty: true, ..s }
        } else if !s.on_demand.contains(n) {
            SettingsView { on_demand: s.on_demand.insert(n), dirty: true, ..s }
        } else {
            SettingsView { on_demand: s.on_demand.remove(n), disabled: s.disabled.insert(n), dirty: true, ..s }
        }
    } else {
        s
    }
}

/// `s` with the preset `name` made active, or no preset when it already was.
pub open spec fn preset_applied(s: SettingsView, name: Seq<char>) -> SettingsView {
    SettingsView {
        active_preset: if s.active_preset == Some(name) { None } else { Some(name) },
        dirty: true,
        ..s
    }
}

/// The first preset named `name`, if any.
pub open spec fn first_named(ps: Seq<PresetView>, name: Seq<char>) -> Option<int>
    decreases ps.len(),
{
    if ps.len() == 0 {
        None
    } else {
        match first_named(ps.drop_last(), name) {
            Some(i) => Some(i),
            None => if ps.last().0 == name { Some(ps.len() - 1) } else { None },
        }
    }
}

/// `first_named` finds the first preset of that name, or none is so named.
pub proof fn lemma_first_named(ps: Seq<PresetView>, name: Seq<char>)
    ensures
        match first_named(ps, name) {
            Some(i) => 0 <= i < ps.len() && ps[i].0 == name && forall|j: int| 0 <= j < i ==> ps[j].0 != name,
            None => forall|j: int| 0 <= j < ps.len() ==> ps[j].0 != name,
        },
    decreases ps.len(),
{
    if ps.len() > 0 {
        lemma_first_named(ps.drop_last(), name);
        assert forall|j: int| 0 <= j < ps.len() - 1 implies ps.drop_last()[j] == ps[j] by {}
    }
}

/// The neurons of `names` not switched off, in order.
pub open spec fn enabled_names(names: Seq<Seq<char>>, disabled: Set<Seq<char>>) -> Seq<Seq<char>> {
    names.filter(|n: Seq<char>| !disabled.contains(n))
}

/// `s` with the enabled neurons saved as preset `name`: replacing the list
/// of the first preset of that name, or added as a new preset.
pub open spec fn preset_saved(s: SettingsView, name: Seq<char>, names: Seq<Seq<char>>) -> SettingsView {
    let enabled = enabled_names(names, s.disabled);
    SettingsView {
        presets: match first_named(s.presets, name) {
            Some(i) => s.presets.update(i, (name, enabled)),
            None => s.presets.push((name, enabled)),
        },
        dirty: true,
        ..s
    }
}

/// `s` without the preset under the cursor (the last one when the cursor is
/// past the end); the active preset cleared when it is the one removed.
pub open spec fn preset_deleted(s: SettingsView) -> SettingsView {
    if s.presets.len() == 0 {
        s
    } else {
        let idx = if s.preset_cursor < s.presets.len() { s.preset_cursor as int } else { s.presets.len() - 1 };
        let name = s.presets[idx].0;
        let rest = s.presets.remove(idx);
        let last = if rest.len() > 0 { rest.len() - 1 } else { 0 };
        SettingsView {
            presets: rest,
            active_preset: if s.active_preset == Some(name) { None } else { s.active_preset },
            preset_cursor: if s.preset_cursor <= last { s.preset_cursor } else { last as usize },
            dirty: true,
            ..s
        }
    }
}

/// `s` with the trimmed `name` as username when it is not blank, editing
/// over, and marked unsaved.
pub open spec fn username_set(s: SettingsView, name: Seq<char>) -> SettingsView {
    SettingsView {
        username: if trim(name).len() > 0 { trim(name) } else { s.username },
        username_editing: false,
        dirty: true,
        ..s
    }
}

/// The chat's mode after the next press of the mode key: normal, then plan
/// mode, then auto-accept, then normal; with the label announced.
pub open spec fn next_mode(plan: bool, auto: bool) -> (bool, bool, Seq<char>) {
    match (plan, auto) {
        (false, false) => (true, false, "plan mode"@),
        (true, false) => (false, true, "auto-accept"@),
        _ => (false, false, "normal"@),
    }
}

/// The chat's mode after the mode key, and the label to announce.
pub fn cycle_mode(plan_mode: &mut bool, auto_accept: &mut bool) -> (label: String)
    ensures
        (*final(plan_mode), *final(auto_accept), label@) == next_mode(*old(plan_mode), *old(auto_accept)),
{
    if !*plan_mode && !*auto_accept {
        *plan_mode = true;
        to_owned("plan mode")
    } else if *plan_mode && !*auto_accept {
        *plan_mode = false;
        *auto_accept = true;
        to_owned("auto-accept")
    } else {
        *plan_mode = false;
        *auto_accept = false;
        to_owned("normal")
    }
}

impl Settings {
    /// Applies the strategy under the cursor.
    pub fn confirm_config(&mut self)
        ensures
            final(self)@ == (SettingsView {
                ctx_strategy: ctx_strategy_at(old(self).config_cursor),
                dirty: true,
                ..old(self)@
            }),
    {
        self.ctx_strategy = CtxStrategy::from_index(self.config_cursor);
        self.config_dirty = true;
    }

    /// Sets the username (trimmed; a blank name keeps the old one) and ends
    /// editing.
    pub fn set_username(&mut self, name: &str)
        ensures
            final(self)@ == username_set(old(self)@, name@),
    {
        let c = chars_of(name);
        let (a, b) = trim_bounds(c.as_slice());
        if a < b {
            self.username = string_from_chars(&c.as_slice()[a..b]);
        }
        self.username_editing = false;
        self.config_dirty = true;
    }

    /// Flips performance switch `index`.
    pub fn toggle_perf(&mut self, index: usize)
        ensures
            final(self)@ == perf_toggled(old(self)@, index),
    {
        if index == 0 {
            self.ctx_pow2 = !self.ctx_pow2;
        } else if index == 1 {
            self.keep_alive = !self.keep_alive;
        } else if index == 2 {
            self.warmup = !self.warmup;
        }
        self.config_dirty = true;
    }

    /// Flips feature `index`.
    pub fn toggle_feature(&mut self, index: usize)
        ensures
            final(self)@ == feature_toggled(old(self)@, index),
    {
        if index == 0 {
            self.thinking = !self.thinking;
        }
        self.config_dirty = true;
    }

    /// Switches the neuron under the cursor on or off; `names` are the
    /// loaded neurons' names.
    pub fn toggle_neuron(&mut self, names: &[String])
        ensures
            final(self)@ == neuron_toggled(old(self)@, string_views(names@)),
    {
        if self.neuron_cursor < names.len() {
            let name = names[self.neuron_cursor].as_str();
            if names_contain(&self.disabled_neurons, name) {
                names_remove(&mut self.disabled_neurons, name);
            } else {
                names_insert(&mut self.disabled_neurons, name);
            }
            self.config_dirty = true;
        }
    }

    /// Takes a session's options over the stored settings: its neuron mode,
    /// its preset (which also selects preset mode), and the neurons it
    /// switches off on top of those already off.
    pub fn apply_session(&mut self, mode: Option<NeuronMode>, preset: Option<String>, no_neurons: &Vec<String>)
        ensures
            final(self)@ == (SettingsView {
                neuron_mode: match preset {
                    Some(_) => NeuronMode::Presets,
                    None => match mode {
                        Some(m) => m,
                        None => old(self)@.neuron_mode,
                    },
                },
                active_preset: match preset {
                    Some(p) => Some(p@),
                    None => old(self)@.active_preset,
                },
                disabled: old(self)@.disabled + name_set(no_neurons@),
                ..old(self)@
            }),
    {
        if let Some(m) = mode {
            self.neuron_mode = m;
        }
        if let Some(p) = preset {
            self.neuron_mode = NeuronMode::Presets;
            self.active_preset = Some(p);
        }
        let ghost d0 = name_set(old(self).disabled_neurons@);
        let ghost s1 = self@;
        assert(name_set(no_neurons@.take(0)) =~= Set::<Seq<char>>::empty());
        assert(d0 + Set::<Seq<char>>::empty() =~= d0);
        let mut i: usize = 0;
        while i < no_neurons.len()
            invariant
                i <= no_neurons@.len(),
                self@ == (SettingsView { disabled: self@.disabled, ..s1 }),
                name_set(self.disabled_neurons@) == d0 + name_set(no_neurons@.take(i as int)),
            decreases no_neurons.len() - i,
        {
            names_insert(&mut self.disabled_neurons, no_neurons[i].as_str());
            proof {
                assert(string_views(no_neurons@.take(i + 1)) =~= string_views(no_neurons@.take(i as int)).push(no_neurons@[i as int]@));
                assert(name_set(no_neurons@.take(i + 1)) =~= name_set(no_neurons@.take(i as int)).insert(no_neurons@[i as int]@));
                assert(name_set(self.disabled_neurons@) =~= d0 + name_set(no_neurons@.take(i + 1)));
            }
            i += 1;
        }
        assert(no_neurons@.take(no_neurons@.len() as int) =~= no_neurons@);
        assert(name_set(self.disabled_neurons@) =~= old(self)@.disabled + name_set(no_neurons@));
    }

    /// Moves the neuron under the cursor on in smart mode's cycle; returns
    /// whether a neuron was under the cursor (the warm-up is then redone).
    pub fn cycle_neuron_smart_state(&mut self, names: &[String]) -> (acted: bool)
        ensures
            final(self)@ == smart_cycled(old(self)@, string_views(names@)),
            acted == (old(self).neuron_cursor < names@.len()),
    {
        if self.neuron_cursor >= names.len() {
            return false;
        }
        let name = names[self.neuron_cursor].as_str();
        let disabled = names_contain(&self.disabled_neurons, name);
        let on_demand = names_contain(&self.on_demand_neurons, name);
        if disabled {
            names_remove(&mut self.disabled_neurons, name);
            names_remove(&mut self.on_demand_neurons, name);
        } else if !on_demand {
            names_insert(&mut self.on_demand_neurons, name);
        } else {
            names_remove(&mut self.on_demand_neurons, name);
            names_insert(&mut self.disabled_neurons, name);
        }
        self.config_dirty = true;
        true
    }

    /// Sets how neurons are chosen (the warm-up is then redone).
    pub fn set_neuron_mode(&mut self, mode: NeuronMode)
        ensures
            final(self)@ == (SettingsView { neuron_mode: mode, dirty: true, ..old(self)@ }),
    {
        self.neuron_mode = mode;
        self.config_dirty = true;
    }

    /// Makes preset `name` active, or none when it already is (the warm-up
    /// is then redone).
    pub fn apply_preset(&mut self, name: &str)
        ensures
            final(self)@ == preset_applied(old(self)@, name@),
    {
        let same = match &self.active_preset {
            Some(p) => str_eq(p.as_str(), name),
            None => false,
        };
        if same {
            self.active_preset = None;
        } else {
            self.active_preset = Some(to_owned(name));
        }
        self.config_dirty = true;
    }

    /// Saves the enabled neurons (of those named `names`) as preset `name`.
    pub fn save_current_as_preset(&mut self, name: &str, names: &[String])
        ensures
            final(self)@ == preset_saved(old(self)@, name@, string_views(names@)),
    {
        let ghost nv = string_views(names@);
        let ghost pred = |n: Seq<char>| !name_set(self.disabled_neurons@).contains(n);
        let mut enabled: Vec<String> = Vec::new();
        let mut i: usize = 0;
        assert(nv.take(0).filter(pred) =~= Seq::<Seq<char>>::empty()) by {
            reveal(Seq::filter);
        }
        while i < names.len()
            invariant
                i <= names@.len(),
                nv == string_views(names@),
                pred == (|n: Seq<char>| !name_set(self.disabled_neurons@).contains(n)),
                string_views(enabled@) == nv.take(i as int).filter(pred),
            decreases names.len() - i,
        {
            proof {
                assert(nv.take(i + 1) =~= nv.take(i as int).push(nv[i as int]));
                nv.take(i as int).lemma_filter_push(nv[i as int], pred);
            }
            if !names_contain(&self.disabled_neurons, names[i].as_str()) {
                let s = to_owned(names[i].as_str());
                proof {
                    assert(string_views(enabled@.push(s)) =~= string_views(enabled@).push(s@));
                }
                enabled.push(s);
            }
            i += 1;
        }
        assert(nv.take(names@.len() as int) =~= nv);
        assert(pred == (|n: Seq<char>| !old(self)@.disabled.contains(n)));
        let found = find_named(&self.neuron_presets, name);
        let ghost old_ps = self.neuron_presets@;
        match found {
            Some(k) => {
                let p = NeuronPreset { name: to_owned(name), enabled };
                self.neuron_presets.set(k, p);
                assert(preset_views(self.neuron_presets@) =~= preset_views(old_ps).update(
                    k as int,
                    (name@, enabled_names(nv, old(self)@.disabled)),
                ));
            },
            None => {
                let p = NeuronPreset { name: to_owned(name), enabled };
                self.neuron_presets.push(p);
                assert(preset_views(self.neuron_presets@) =~= preset_views(old_ps).push(
                    (name@, enabled_names(nv, old(self)@.disabled)),
                ));
            },
        }
        self.config_dirty = true;
    }

    /// Removes the preset under the cursor.
    pub fn delete_preset(&mut self)
        ensures
            final(self)@ == preset_deleted(old(self)@),
    {
        let n = self.neuron_presets.len();
        if n == 0 {
            return;
        }
        let idx = if self.preset_cursor < n {
            self.preset_cursor
        } else {
            n - 1
        };
        let ghost old_ps = self.neuron_presets@;
        let removed = self.neuron_presets.remove(idx);
        assert(preset_views(self.neuron_presets@) =~= preset_views(old_ps).remove(idx as int));
        let was_active = match &self.active_preset {
            Some(p) => str_eq(p.as_str(), removed.name.as_str()),
            None => false,
        };
        if was_active {
            self.active_preset = None;
        }
        let m = self.neuron_presets.len();
        let last = if m > 0 {
            m - 1
        } else {
            0
        };
        if self.preset_cursor > last {
            self.preset_cursor = last;
        }
        self.config_dirty = true;
    }
}

/// The first preset named `name`.
fn find_named(ps: &Vec<NeuronPreset>, name: &str) -> (r: Option<usize>)
    ensures
        match r {
            Some(i) => first_named(preset_views(ps@), name@) == Some(i as int) && i < ps@.len(),
            None => first_named(preset_views(ps@), name@) is None,
        },
{
    let ghost pv = preset_views(ps@);
    proof {
        lemma_first_named(pv, name@);
    }
    let mut i: usize = 0;
    while i < ps.len()
        invariant
            i <= ps@.len(),
            pv == preset_views(ps@),
            forall|j: int| 0 <= j < i ==> pv[j].0 != name@,
            match first_named(pv, name@) {
                Some(k) => 0 <= k < pv.len() && pv[k].0 == name@ && forall|j: int| 0 <= j < k ==> pv[j].0 != name@,
                None => forall|j: int| 0 <= j < pv.len() ==> pv[j].0 != name@,
            },
        decreases ps.len() - i,
    {
        if str_eq(ps[i].name.as_str(), name) {
            assert(pv[i as int].0 == name@);
            return Some(i);
        }
        i += 1;
    }
    None
}

// ── what a key does ───────────────────────────────────────────────────────

/// Outside work a key on the settings screen asks for.
#[derive(Debug, Clone, Copy, PartialEq, Eq, Structural)]
pub enum ConfigEffect {
    Nothing,
    /// Leave the settings screen.
    Leave,
    /// Write the settings to disk now.
    Flush,
    /// The neuron selection changed: redo the warm-up.
    Warmup,
    /// Step the generation parameter under the cursor up (`true`) or down.
    ParamStep(bool),
    /// Reset the generation parameter under the cursor.
    ParamReset,
}

/// `s` with the neuron mode set and marked unsaved.
pub open spec fn mode_set(s: SettingsView, m: NeuronMode) -> SettingsView {
    SettingsView { neuron_mode: m, dirty: true, ..s }
}

/// Whether the key is Left or Right.
pub open spec fn is_left_right(key: Key) -> bool {
    key.code == KeyCode::Left || key.code == KeyCode::Right
}

/// The context-strategy section.
pub open spec fn ctx_step(s: SettingsView, key: Key) -> (SettingsView, ConfigEffect) {
    let f = matching(s.search, ctx_labels());
    match key.code {
        KeyCode::Up => (SettingsView { config_cursor: prev_target(s.config_cursor, f), ..s }, ConfigEffect::Nothing),
        KeyCode::Down => (SettingsView { config_cursor: next_target(s.config_cursor, f), ..s }, ConfigEffect::Nothing),
        KeyCode::Enter => (
            SettingsView { ctx_strategy: ctx_strategy_at(s.config_cursor), dirty: true, ..s },
            ConfigEffect::Flush,
        ),
        KeyCode::Backspace => (SettingsView { search: popped(s.search), ..s }, ConfigEffect::Nothing),
        KeyCode::Char(c) => {
            let q = s.search.push(c);
            (
                SettingsView { search: q, config_cursor: snap_target(s.config_cursor, matching(q, ctx_labels())), ..s },
                ConfigEffect::Nothing,
            )
        },
        _ => (s, ConfigEffect::Nothing),
    }
}

/// Typing the name of a new preset.
pub open spec fn preset_name_step(s: SettingsView, key: Key, names: Seq<Seq<char>>) -> (SettingsView, ConfigEffect) {
    let buf = s.preset_name_input.unwrap();
    match key.code {
        KeyCode::Enter => {
            let s1 = SettingsView { preset_name_input: None, ..s };
            if trim(buf).len() > 0 {
                (preset_saved(s1, trim(buf), names), ConfigEffect::Nothing)
            } else {
                (s1, ConfigEffect::Nothing)
            }
        },
        KeyCode::Esc => (SettingsView { preset_name_input: None, ..s }, ConfigEffect::Nothing),
        KeyCode::Backspace => (SettingsView { preset_name_input: Some(popped(buf)), ..s }, ConfigEffect::Nothing),
        KeyCode::Char(c) => (SettingsView { preset_name_input: Some(buf.push(c)), ..s }, ConfigEffect::Nothing),
        _ => (s, ConfigEffect::Nothing),
    }
}

/// The neurons sub-section after Left or Right.
pub open spec fn sub_after(sub: usize, key: Key) -> usize {
    match key.code {
        KeyCode::Left => if sub >= 1 { (sub - 1) as usize } else { 0 },
        KeyCode::Right => if sub + 1 <= 2 { (sub + 1) as usize } else { 2 },
        _ => sub,
    }
}

/// The manual sub-section: pick neurons one by one.
pub open spec fn manual_step(s: SettingsView, key: Key, names: Seq<Seq<char>>) -> (SettingsView, ConfigEffect) {
    let f = matching(s.search, names);
    let r = match key.code {
        KeyCode::Up => (SettingsView { neuron_cursor: prev_target(s.neuron_cursor, f), ..s }, ConfigEffect::Nothing),
        KeyCode::Down => (SettingsView { neuron_cursor: next_target(s.neuron_cursor, f), ..s }, ConfigEffect::Nothing),
        KeyCode::Enter | KeyCode::Char(' ') => {
            let t = neuron_toggled(s, names);
            (if t.neuron_mode != NeuronMode::Manual { mode_set(t, NeuronMode::Manual) } else { t }, ConfigEffect::Warmup)
        },
        KeyCode::Backspace => (SettingsView { search: popped(s.search), ..s }, ConfigEffect::Nothing),
        KeyCode::Char(c) => {
            let q = s.search.push(c);
            (
                SettingsView { search: q, neuron_cursor: snap_target(s.neuron_cursor, matching(q, names)), ..s },
                ConfigEffect::Nothing,
            )
        },
        _ => (s, ConfigEffect::Nothing),
    };
    if is_left_right(key) {
        (mode_set(r.0, NeuronMode::Manual), ConfigEffect::Warmup)
    } else {
        r
    }
}

/// The presets sub-section: row 0 is the empty preset, then the saved
/// presets, then a row to add one.
pub open spec fn presets_step(s: SettingsView, key: Key) -> (SettingsView, ConfigEffect) {
    let lr = is_left_right(key);
    let s0 = if lr { mode_set(s, NeuronMode::Presets) } else { s };
    let e0 = if lr { ConfigEffect::Warmup } else { ConfigEffect::Nothing };
    let new_idx = s.presets.len() + 1;
    let cur = s0.preset_cursor;
    match key.code {
        KeyCode::Up => (SettingsView { preset_cursor: if cur > 0 { (cur - 1) as usize } else { cur }, ..s0 }, e0),
        KeyCode::Down => (
            SettingsView { preset_cursor: if cur + 1 <= new_idx { (cur + 1) as usize } else { new_idx as usize }, ..s0 },
            e0,
        ),
        KeyCode::Enter | KeyCode::Char(' ') => if cur == 0 {
            (preset_applied(s0, "__pure__"@), ConfigEffect::Warmup)
        } else if cur == new_idx {
            (SettingsView { preset_name_input: Some(Seq::empty()), ..s0 }, e0)
        } else if cur - 1 < s0.presets.len() {
            (preset_applied(s0, s0.presets[cur - 1].0), ConfigEffect::Warmup)
        } else {
            (s0, e0)
        },
        KeyCode::Char('n') => (SettingsView { preset_name_input: Some(Seq::empty()), ..s0 }, e0),
        KeyCode::Char('d') | KeyCode::Delete => if 0 < cur <= s0.presets.len() {
            (preset_deleted(SettingsView { preset_cursor: (cur - 1) as usize, ..s0 }), e0)
        } else {
            (s0, e0)
        },
        _ => (s0, e0),
    }
}

/// The neurons section.
pub open spec fn neuron_step(s: SettingsView, key: Key, names: Seq<Seq<char>>) -> (SettingsView, ConfigEffect) {
    if s.preset_name_input is Some {
        preset_name_step(s, key, names)
    } else {
        let s1 = SettingsView { neuron_sub_section: sub_after(s.neuron_sub_section, key), ..s };
        if s1.neuron_sub_section == 0 {
            manual_step(s1, key, names)
        } else if s1.neuron_sub_section == 1 {
            if is_left_right(key) {
                (mode_set(s1, NeuronMode::Smart), ConfigEffect::Warmup)
            } else {
                (s1, ConfigEffect::Nothing)
            }
        } else {
            presets_step(s1, key)
        }
    }
}

/// The generation section.
pub open spec fn param_step(s: SettingsView, key: Key) -> (SettingsView, ConfigEffect) {
    let f = matching(s.search, param_labels());
    match key.code {
        KeyCode::Up => (SettingsView { param_cursor: prev_target(s.param_cursor, f), ..s }, ConfigEffect::Nothing),
        KeyCode::Down => (SettingsView { param_cursor: next_target(s.param_cursor, f), ..s }, ConfigEffect::Nothing),
        KeyCode::Left | KeyCode::Char('-') => (SettingsView { dirty: true, ..s }, ConfigEffect::ParamStep(false)),
        KeyCode::Right | KeyCode::Char('+') | KeyCode::Char('=') => (
            SettingsView { dirty: true, ..s },
            ConfigEffect::ParamStep(true),
        ),
        KeyCode::Char('r') => (SettingsView { dirty: true, ..s }, ConfigEffect::ParamReset),
        KeyCode::Backspace => if s.search.len() > 0 {
            (SettingsView { search: popped(s.search), ..s }, ConfigEffect::Nothing)
        } else {
            (SettingsView { dirty: true, ..s }, ConfigEffect::ParamReset)
        },
        KeyCode::Char(c) => {
            let q = s.search.push(c);
            (
                SettingsView { search: q, param_cursor: snap_target(s.param_cursor, matching(q, param_labels())), ..s },
                ConfigEffect::Nothing,
            )
        },
        _ => (s, ConfigEffect::Nothing),
    }
}

/// The performance section.
pub open spec fn perf_step(s: SettingsView, key: Key) -> (SettingsView, ConfigEffect) {
    let f = matching(s.search, perf_labels());
    match key.code {
        KeyCode::Up => (SettingsView { perf_cursor: prev_target(s.perf_cursor, f), ..s }, ConfigEffect::Nothing),
        KeyCode::Down => (SettingsView { perf_cursor: next_target(s.perf_cursor, f), ..s }, ConfigEffect::Nothing),
        KeyCode::Enter | KeyCode::Char(' ') => (perf_toggled(s, s.perf_cursor), ConfigEffect::Nothing),
        KeyCode::Backspace => (SettingsView { search: popped(s.search), ..s }, ConfigEffect::Nothing),
        KeyCode::Char(c) => {
            let q = s.search.push(c);
            (
                SettingsView { search: q, perf_cursor: snap_target(s.perf_cursor, matching(q, perf_labels())), ..s },
                ConfigEffect::Nothing,
            )
        },
        _ => (s, ConfigEffect::Nothing),
    }
}

/// The features section; below the switches, the username row.
pub open spec fn features_step(s: SettingsView, key: Key) -> (SettingsView, ConfigEffect) {
    if s.username_editing {
        match key.code {
            KeyCode::Enter => (username_set(s, s.username), ConfigEffect::Flush),
            KeyCode::Esc => (SettingsView { username_editing: false, ..s }, ConfigEffect::Nothing),
            KeyCode::Backspace => (SettingsView { username: popped(s.username), ..s }, ConfigEffect::Nothing),
            KeyCode::Char(c) => (SettingsView { username: s.username.push(c), ..s }, ConfigEffect::Nothing),
            _ => (s, ConfigEffect::Nothing),
        }
    } else {
        let f = matching(s.search, feature_labels());
        let last = if f.len() > 0 { f.last() } else { 0usize };
        let fc = s.features_cursor;
        match key.code {
            KeyCode::Up => (
                SettingsView { features_cursor: if fc == USERNAME_ROW { last } else { prev_target(fc, f) }, ..s },
                ConfigEffect::Nothing,
            ),
            KeyCode::Down => (
                SettingsView { features_cursor: if fc == last { USERNAME_ROW } else { next_target(fc, f) }, ..s },
                ConfigEffect::Nothing,
            ),
            KeyCode::Enter | KeyCode::Char(' ') => if fc == USERNAME_ROW {
                (SettingsView { username_editing: true, ..s }, ConfigEffect::Nothing)
            } else {
                (feature_toggled(s, fc), ConfigEffect::Nothing)
            },
            KeyCode::Backspace => (SettingsView { search: popped(s.search), ..s }, ConfigEffect::Nothing),
            KeyCode::Char(c) => {
                let q = s.search.push(c);
                (
                    SettingsView { search: q, features_cursor: snap_target(fc, matching(q, feature_labels())), ..s },
                    ConfigEffect::Nothing,
                )
            },
            _ => (s, ConfigEffect::Nothing),
        }
    }
}

/// What a key does on the settings screen (after the help popup had its
/// turn): Esc leaves, Tab moves to the next section and clears the search,
/// other keys go to the section on show; `names` are the neurons' names.
pub open spec fn config_step(s: SettingsView, key: Key, names: Seq<Seq<char>>) -> (SettingsView, ConfigEffect) {
    match key.code {
        KeyCode::Esc => (s, ConfigEffect::Leave),
        KeyCode::Tab => (
            SettingsView { config_section: ((s.config_section + 1) % 5) as usize, search: Seq::empty(), ..s },
            ConfigEffect::Nothing,
        ),
        _ => if s.config_section == 0 {
            ctx_step(s, key)
        } else if s.config_section == 1 {
            neuron_step(s, key, names)
        } else if s.config_section == 2 {
            param_step(s, key)
        } else if s.config_section == 3 {
            perf_step(s, key)
        } else {
            features_step(s, key)
        },
    }
}

/// The settings the keys can reach from `s`: counters below `usize::MAX`.
pub open spec fn settings_in_range(s: SettingsView) -> bool {
    &&& s.config_section < usize::MAX
    &&& s.neuron_sub_section < usize::MAX
    &&& s.preset_cursor < usize::MAX
    &&& s.presets.len() < usize::MAX
}

impl Settings {
    fn key_ctx(&mut self, key: Key)
        ensures
            final(self)@ == ctx_step(old(self)@, key).0,
    {
        let labels = ctx_label_list();
        let f = matching_indices(self.config_search.as_str(), labels.as_slice());
        match key.code {
            KeyCode::Up => nav_prev(&mut self.config_cursor, f.as_slice()),
            KeyCode::Down => nav_next(&mut self.config_cursor, f.as_slice()),
            KeyCode::Enter => self.confirm_config(),
            KeyCode::Backspace => pop_char(&mut self.config_search),
            KeyCode::Char(c) => {
                push_char(&mut self.config_search, c);
                let g = matching_indices(self.config_search.as_str(), labels.as_slice());
                snap_cursor(&mut self.config_cursor, g.as_slice());
            },
            _ => {},
        }
    }

    fn key_preset_name(&mut self, key: Key, names: &[String])
        requires
            old(self).preset_name_input is Some,
        ensures
            final(self)@ == preset_name_step(old(self)@, key, string_views(names@)).0,
    {
        match key.code {
            KeyCode::Enter => {
                let buf = match &self.preset_name_input {
                    Some(b) => to_owned(b.as_str()),
                    None => String::new(),
                };
                self.preset_name_input = None;
                let c = chars_of(buf.as_str());
                let (a, b) = trim_bounds(c.as_slice());
                if a < b {
                    let t = string_from_chars(&c.as_slice()[a..b]);
                    self.save_current_as_preset(t.as_str(), names);
                }
            },
            KeyCode::Esc => {
                self.preset_name_input = None;
            },
            KeyCode::Backspace => {
                let mut b = match &self.preset_name_input {
                    Some(b) => to_owned(b.as_str()),
                    None => String::new(),
                };
                pop_char(&mut b);
                self.preset_name_input = Some(b);
            },
            KeyCode::Char(c) => {
                let mut b = match &self.preset_name_input {
                    Some(b) => to_owned(b.as_str()),
                    None => String::new(),
                };
                push_char(&mut b, c);
                self.preset_name_input = Some(b);
            },
            _ => {},
        }
    }

    fn key_manual(&mut self, key: Key, names: &[String]) -> (e: ConfigEffect)
        ensures
            (final(self)@, e) == manual_step(old(self)@, key, string_views(names@)),
    {
        let f = matching_indices(self.config_search.as_str(), names);
        let mut e = ConfigEffect::Nothing;
        match key.code {
            KeyCode::Up => nav_prev(&mut self.neuron_cursor, f.as_slice()),
            KeyCode::Down => nav_next(&mut self.neuron_cursor, f.as_slice()),
            KeyCode::Enter | KeyCode::Char(' ') => {
                self.toggle_neuron(names);
                if self.neuron_mode != NeuronMode::Manual {
                    self.set_neuron_mode(NeuronMode::Manual);
                }
                e = ConfigEffect::Warmup;
            },
            KeyCode::Backspace => pop_char(&mut self.config_search),
            KeyCode::Char(c) => {
                push_char(&mut self.config_search, c);
                let g = matching_indices(self.config_search.as_str(), names);
                snap_cursor(&mut self.neuron_cursor, g.as_slice());
            },
            _ => {},
        }
        if key.code == KeyCode::Left || key.code == KeyCode::Right {
            self.set_neuron_mode(NeuronMode::Manual);
            e = ConfigEffect::Warmup;
        }
        e
    }

    fn key_presets(&mut self, key: Key) -> (e: ConfigEffect)
        requires
            old(self).preset_cursor < usize::MAX,
            old(self).neuron_presets@.len() < usize::MAX,
        ensures
            (final(self)@, e) == presets_step(old(self)@, key),
    {
        let mut e = ConfigEffect::Nothing;
        if key.code == KeyCode::Left || key.code == KeyCode::Right {
            self.set_neuron_mode(NeuronMode::Presets);
            e = ConfigEffect::Warmup;
        }
        let new_idx = self.neuron_presets.len() + 1;
        match key.code {
            KeyCode::Up => {
                if self.preset_cursor > 0 {
                    self.preset_cursor -= 1;
                }
            },
            KeyCode::Down => {
                let next = self.preset_cursor + 1;
                self.preset_cursor = if next <= new_idx {
                    next
                } else {
                    new_idx
                };
            },
            KeyCode::Enter | KeyCode::Char(' ') => {
                if self.preset_cursor == 0 {
                    self.apply_preset("__pure__");
                    e = ConfigEffect::Warmup;
                } else if self.preset_cursor == new_idx {
                    self.preset_name_input = Some(String::new());
                } else if self.preset_cursor - 1 < self.neuron_presets.len() {
                    let name = to_owned(self.neuron_presets[self.preset_cursor - 1].name.as_str());
                    self.apply_preset(name.as_str());
                    e = ConfigEffect::Warmup;
                }
            },
            KeyCode::Char('n') => {
                self.preset_name_input = Some(String::new());
            },
            KeyCode::Char('d') | KeyCode::Delete => {
                if self.preset_cursor > 0 && self.preset_cursor <= self.neuron_presets.len() {
                    self.preset_cursor -= 1;
                    self.delete_preset();
                }
            },
            _ => {},
        }
        e
    }

    fn move_sub_section(&mut self, key: Key)
        requires
            old(self).neuron_sub_section < usize::MAX,
        ensures
            final(self)@ == (SettingsView { neuron_sub_section: sub_after(old(self).neuron_sub_section, key), ..old(self)@ }),
    {
        match key.code {
            KeyCode::Left => {
                self.neuron_sub_section = if self.neuron_sub_section >= 1 {
                    self.neuron_sub_section - 1
                } else {
                    0
                };
            },
            KeyCode::Right => {
                let next = self.neuron_sub_section + 1;
                self.neuron_sub_section = if next <= 2 {
                    next
                } else {
                    2
                };
            },
            _ => {},
        }
    }

    fn key_neurons(&mut self, key: Key, names: &[String]) -> (e: ConfigEffect)
        requires
            old(self).neuron_sub_section < usize::MAX,
            old(self).preset_cursor < usize::MAX,
            old(self).neuron_presets@.len() < usize::MAX,
        ensures
            (final(self)@, e) == neuron_step(old(self)@, key, string_views(names@)),
    {
        if self.preset_name_input.is_some() {
            self.key_preset_name(key, names);
            return ConfigEffect::Nothing;
        }
        self.move_sub_section(key);
        if self.neuron_sub_section == 0 {
            self.key_manual(key, names)
        } else if self.neuron_sub_section == 1 {
            if key.code == KeyCode::Left || key.code == KeyCode::Right {
                self.set_neuron_mode(NeuronMode::Smart);
                ConfigEffect::Warmup
            } else {
                ConfigEffect::Nothing
            }
        } else {
            assert(preset_views(self.neuron_presets@).len() == self.neuron_presets@.len());
            self.key_presets(key)
        }
    }

    fn key_params(&mut self, key: Key) -> (e: ConfigEffect)
        ensures
            (final(self)@, e) == param_step(old(self)@, key),
    {
        let labels = param_label_list();
        let f = matching_indices(self.config_search.as_str(), labels.as_slice());
        match key.code {
            KeyCode::Up => {
                nav_prev(&mut self.param_cursor, f.as_slice());
                ConfigEffect::Nothing
            },
            KeyCode::Down => {
                nav_next(&mut self.param_cursor, f.as_slice());
                ConfigEffect::Nothing
            },
            KeyCode::Left | KeyCode::Char('-') => {
                self.config_dirty = true;
                ConfigEffect::ParamStep(false)
            },
            KeyCode::Right | KeyCode::Char('+') | KeyCode::Char('=') => {
                self.config_dirty = true;
                ConfigEffect::ParamStep(true)
            },
            KeyCode::Char('r') => {
                self.config_dirty = true;
                ConfigEffect::ParamReset
            },
            KeyCode::Backspace => {
                if !self.config_search.as_str().is_empty() {
                    pop_char(&mut self.config_search);
                    ConfigEffect::Nothing
                } else {
                    self.config_dirty = true;
                    ConfigEffect::ParamReset
                }
            },
            KeyCode::Char(c) => {
                push_char(&mut self.config_search, c);
                let g = matching_indices(self.config_search.as_str(), labels.as_slice());
                snap_cursor(&mut self.param_cursor, g.as_slice());
                ConfigEffect::Nothing
            },
            _ => ConfigEffect::Nothing,
        }
    }

    fn key_perf(&mut self, key: Key)
        ensures
            final(self)@ == perf_step(old(self)@, key).0,
    {
        let labels = perf_label_list();
        let f = matching_indices(self.config_search.as_str(), labels.as_slice());
        match key.code {
            KeyCode::Up => nav_prev(&mut self.perf_cursor, f.as_slice()),
            KeyCode::Down => nav_next(&mut self.perf_cursor, f.as_slice()),
            KeyCode::Enter | KeyCode::Char(' ') => {
                let i = self.perf_cursor;
                self.toggle_perf(i);
            },
            KeyCode::Backspace => pop_char(&mut self.config_search),
            KeyCode::Char(c) => {
                push_char(&mut self.config_search, c);
                let g = matching_indices(self.config_search.as_str(), labels.as_slice());
                snap_cursor(&mut self.perf_cursor, g.as_slice());
            },
            _ => {},
        }
    }

    fn key_features(&mut self, key: Key) -> (e: ConfigEffect)
        ensures
            (final(self)@, e) == features_step(old(self)@, key),
    {
        if self.username_editing {
            match key.code {
                KeyCode::Enter => {
                    let name = to_owned(self.username.as_str());
                    self.set_username(name.as_str());
                    return ConfigEffect::Flush;
                },
                KeyCode::Esc => {
                    self.username_editing = false;
                },
                KeyCode::Backspace => pop_char(&mut self.username),
                KeyCode::Char(c) => push_char(&mut self.username, c),
                _ => {},
            }
            return ConfigEffect::Nothing;
        }
        let labels = feature_label_list();
        let f = matching_indices(self.config_search.as_str(), labels.as_slice());
        let last = if f.len() > 0 {
            f[f.len() - 1]
        } else {
            0
        };
        match key.code {
            KeyCode::Up => {
                if self.features_cursor == USERNAME_ROW {
                    self.features_cursor = last;
                } else {
                    nav_prev(&mut self.features_cursor, f.as_slice());
                }
            },
            KeyCode::Down => {
                if self.features_cursor == last {
                    self.features_cursor = USERNAME_ROW;
                } else {
                    nav_next(&mut self.features_cursor, f.as_slice());
                }
            },
            KeyCode::Enter | KeyCode::Char(' ') => {
                if self.features_cursor == USERNAME_ROW {
                    self.username_editing = true;
                } else {
                    let i = self.features_cursor;
                    self.toggle_feature(i);
                }
            },
            KeyCode::Backspace => pop_char(&mut self.config_search),
            KeyCode::Char(c) => {
                push_char(&mut self.config_search, c);
                let g = matching_indices(self.config_search.as_str(), labels.as_slice());
                snap_cursor(&mut self.features_cursor, g.as_slice());
            },
            _ => {},
        }
        ConfigEffect::Nothing
    }

    /// Applies a key on the settings screen (after the help popup had its
    /// turn); `names` are the loaded neurons' names. Returns the outside
    /// work the key asks for.
    pub fn handle_key(&mut self, key: Key, names: &[String]) -> (e: ConfigEffect)
        requires
            settings_in_range(old(self)@),
        ensures
            (final(self)@, e) == config_step(old(self)@, key, string_views(names@)),
    {
        match key.code {
            KeyCode::Esc => ConfigEffect::Leave,
            KeyCode::Tab => {
                self.config_section = (self.config_section + 1) % 5;
                self.config_search = String::new();
                ConfigEffect::Nothing
            },
            _ => {
                if self.config_section == 0 {
                    self.key_ctx(key);
                    if key.code == KeyCode::Enter {
                        ConfigEffect::Flush
                    } else {
                        ConfigEffect::Nothing
                    }
                } else if self.config_section == 1 {
                    assert(preset_views(self.neuron_presets@).len() == self.neuron_presets@.len());
                    self.key_neurons(key, names)
                } else if self.config_section == 2 {
                    self.key_params(key)
                } else if self.config_section == 3 {
                    self.key_perf(key);
                    ConfigEffect::Nothing
                } else {
                    self.key_features(key)
                }
            },
        }
    }
}

// ── opening and leaving the screen ────────────────────────────────────────

impl Settings {
    /// The settings as loaded from disk, with every cursor at the top and
    /// the strategy cursor on the strategy in use.
    pub fn new(
        ctx_strategy: CtxStrategy,
        neuron_mode: NeuronMode,
        neuron_presets: Vec<NeuronPreset>,
        active_preset: Option<String>,
        disabled_neurons: Vec<String>,
        on_demand_neurons: Vec<String>,
        ctx_pow2: bool,
        keep_alive: bool,
        warmup: bool,
        thinking: bool,
        username: String,
    ) -> (s: Self)
        ensures
            s@ == (SettingsView {
                ctx_strategy,
                config_cursor: ctx_strategy_index(ctx_strategy),
                config_section: 0,
                neuron_cursor: 0,
                neuron_mode,
                neuron_sub_section: 0,
                presets: preset_views(neuron_presets@),
                active_preset: opt_view(active_preset),
                preset_cursor: 0,
                preset_name_input: None,
                disabled: name_set(disabled_neurons@),
                on_demand: name_set(on_demand_neurons@),
                ctx_pow2,
                keep_alive,
                warmup,
                thinking,
                param_cursor: 0,
                perf_cursor: 0,
                features_cursor: 0,
                search: Seq::empty(),
                username: username@,
                username_editing: false,
                dirty: false,
            }),
            settings_wf(s@),
            s.disabled_neurons == disabled_neurons,
            s.on_demand_neurons == on_demand_neurons,
    {
        let config_cursor = ctx_strategy.index();
        Settings {
            ctx_strategy,
            config_cursor,
            config_section: 0,
            neuron_cursor: 0,
            neuron_mode,
            neuron_sub_section: 0,
            neuron_presets,
            active_preset,
            preset_cursor: 0,
            preset_name_input: None,
            disabled_neurons,
            on_demand_neurons,
            ctx_pow2,
            keep_alive,
            warmup,
            thinking,
            param_cursor: 0,
            perf_cursor: 0,
            features_cursor: 0,
            config_search: String::new(),
            username,
            username_editing: false,
            config_dirty: false,
        }
    }

    /// The settings a settings file stored (`f`), each missing value
    /// taken as its default: the dynamic strategy, manual neurons, context
    /// sizes rounded to powers of two, no keep-alive, warm-up and thinking
    /// on, and the login name `login` for a missing or empty user name. The
    /// neuron lists keep each name once.
    pub fn from_stored(f: StoredSettings, login: String) -> (s: Self)
        ensures
            s@ == (SettingsView {
                ctx_strategy: stored_strategy(f.ctx_strategy),
                config_cursor: ctx_strategy_index(stored_strategy(f.ctx_strategy)),
                config_section: 0,
                neuron_cursor: 0,
                neuron_mode: stored_mode(f.neuron_mode),
                neuron_sub_section: 0,
                presets: preset_views(f.neuron_presets@),
                active_preset: opt_view(f.active_preset),
                preset_cursor: 0,
                preset_name_input: None,
                disabled: name_set(f.disabled_neurons@),
                on_demand: name_set(f.on_demand_neurons@),
                ctx_pow2: stored_flag(f.ctx_pow2, true),
                keep_alive: stored_flag(f.keep_alive, false),
                warmup: stored_flag(f.warmup, true),
                thinking: stored_flag(f.thinking, true),
                param_cursor: 0,
                perf_cursor: 0,
                features_cursor: 0,
                search: Seq::empty(),
                username: match f.username {
                    Some(u) => if u@.len() > 0 { u@ } else { login@ },
                    None => login@,
                },
                username_editing: false,
                dirty: false,
            }),
            settings_wf(s@),
            string_views(s.disabled_neurons@).no_duplicates(),
            string_views(s.on_demand_neurons@).no_duplicates(),
    {
        let ctx = match &f.ctx_strategy {
            Some(n) => CtxStrategy::from_str(n.as_str()),
            None => CtxStrategy::Dynamic,
        };
        let mode = match &f.neuron_mode {
            Some(n) => NeuronMode::from_str(n.as_str()),
            None => NeuronMode::Manual,
        };
        let disabled = names_deduped(&f.disabled_neurons);
        let on_demand = names_deduped(&f.on_demand_neurons);
        let username = match f.username {
            Some(u) => if u.as_str().is_empty() {
                login
            } else {
                u
            },
            None => login,
        };
        Settings::new(
            ctx,
            mode,
            f.neuron_presets,
            f.active_preset,
            disabled,
            on_demand,
            match f.ctx_pow2 {
                Some(b) => b,
                None => true,
            },
            match f.keep_alive {
                Some(b) => b,
                None => false,
            },
            match f.warmup {
                Some(b) => b,
                None => true,
            },
            match f.thinking {
                Some(b) => b,
                None => true,
            },
            username,
        )
    }

    /// The settings key: from the model list into the settings (cursor on
    /// the strategy in use, first section), from the settings back to the
    /// model list (the settings are then written out), from chat or the
    /// remote-connect screen to chat.
    pub fn toggle_config(&mut self, screen: Screen) -> (next: Screen)
        ensures
            next == match screen {
                Screen::Config => Screen::ModelSelect,
                Screen::ModelSelect => Screen::Config,
                _ => Screen::Chat,
            },
            final(self)@ == if screen == Screen::ModelSelect {
                SettingsView {
                    config_cursor: ctx_strategy_index(old(self).ctx_strategy),
                    config_section: 0,
                    ..old(self)@
                }
            } else {
                old(self)@
            },
    {
        match screen {
            Screen::Config => Screen::ModelSelect,
            Screen::ModelSelect => {
                self.config_cursor = self.ctx_strategy.index();
                self.config_section = 0;
                Screen::Config
            },
            _ => Screen::Chat,
        }
    }
}

// ── laws ──────────────────────────────────────────────────────────────────

/// Switching the neuron under the cursor twice leaves the switched-off set
/// as it was.
pub proof fn lemma_toggle_neuron_twice(s: SettingsView, names: Seq<Seq<char>>)
    ensures
        neuron_toggled(neuron_toggled(s, names), names).disabled == s.disabled,
{
    if s.neuron_cursor < names.len() {
        let n = names[s.neuron_cursor as int];
        if s.disabled.contains(n) {
            assert(s.disabled.remove(n).insert(n) =~= s.disabled);
        } else {
            assert(s.disabled.insert(n).remove(n) =~= s.disabled);
        }
    }
}

/// In smart mode a neuron comes back to its state after three turns of the
/// cycle (off, loaded at start, loaded on demand), from any state the cycle
/// reaches: not both switched off and on demand.
pub proof fn lemma_smart_cycle_three(s: SettingsView, names: Seq<Seq<char>>)
    requires
        s.neuron_cursor < names.len() ==> !(s.disabled.contains(names[s.neuron_cursor as int])
            && s.on_demand.contains(names[s.neuron_cursor as int])),
    ensures
        smart_cycled(smart_cycled(smart_cycled(s, names), names), names).disabled == s.disabled,
        smart_cycled(smart_cycled(smart_cycled(s, names), names), names).on_demand == s.on_demand,
{
    if s.neuron_cursor < names.len() {
        let n = names[s.neuron_cursor as int];
        if s.disabled.contains(n) {
            assert(s.disabled.remove(n).insert(n) =~= s.disabled);
            assert(s.on_demand.remove(n).insert(n).remove(n) =~= s.on_demand);
        } else if !s.on_demand.contains(n) {
            assert(s.disabled.insert(n).remove(n) =~= s.disabled);
            assert(s.on_demand.insert(n).remove(n).remove(n) =~= s.on_demand);
        } else {
            assert(s.disabled.insert(n).remove(n) =~= s.disabled);
            assert(s.on_demand.remove(n).insert(n) =~= s.on_demand);
        }
    }
}

/// Applying the same preset twice leaves no preset active when one other
/// than it was, and it back when it was.
pub proof fn lemma_apply_preset_twice(s: SettingsView, name: Seq<char>)
    ensures
        preset_applied(preset_applied(s, name), name).active_preset == if s.active_preset == Some(name) {
            Some(name)
        } else {
            None
        },
{
}

/// Flipping a performance switch twice leaves every switch as it was.
pub proof fn lemma_toggle_perf_twice(s: SettingsView, index: usize)
    ensures
        perf_toggled(perf_toggled(s, index), index).ctx_pow2 == s.ctx_pow2,
        perf_toggled(perf_toggled(s, index), index).keep_alive == s.keep_alive,
        perf_toggled(perf_toggled(s, index), index).warmup == s.warmup,
{
}

/// Three presses of the mode key come back to the starting mode, from any
/// mode the key reaches (plan mode and auto-accept are never both on).
pub proof fn lemma_mode_cycle_three(plan: bool, auto: bool)
    requires
        !(plan && auto),
    ensures
        ({
            let a = next_mode(plan, auto);
            let b = next_mode(a.0, a.1);
            let c = next_mode(b.0, b.1);
            c.0 == plan && c.1 == auto
        }),
        !(next_mode(plan, auto).0 && next_mode(plan, auto).1),
{
}

/// No two presets share a name.
pub open spec fn names_unique(ps: Seq<PresetView>) -> bool {
    forall|i: int, j: int| 0 <= i < j < ps.len() ==> ps[i].0 != ps[j].0
}

/// Saving a preset keeps preset names unique: a name already taken has its
/// list replaced.
pub proof fn lemma_save_keeps_names_unique(s: SettingsView, name: Seq<char>, names: Seq<Seq<char>>)
    requires
        names_unique(s.presets),
    ensures
        names_unique(preset_saved(s, name, names).presets),
        preset_saved(s, name, names).presets.len() <= s.presets.len() + 1,
{
    let ps = s.presets;
    let enabled = enabled_names(names, s.disabled);
    lemma_first_named(ps, name);
    match first_named(ps, name) {
        Some(k) => {
            let q = ps.update(k, (name, enabled));
            assert forall|i: int, j: int| 0 <= i < j < q.len() implies q[i].0 != q[j].0 by {
                assert(ps[k].0 == name);
                if i == k {
                    assert(ps[j].0 != ps[k].0);
                } else if j == k {
                    assert(ps[i].0 != ps[k].0);
                }
            }
        },
        None => {
            let q = ps.push((name, enabled));
            assert forall|i: int, j: int| 0 <= i < j < q.len() implies q[i].0 != q[j].0 by {
                if j == ps.len() {
                    assert(!(0 <= i < ps.len() && ps[i].0 == name));
                }
            }
        },
    }
}

/// The settings screen's section, neuron sub-section and preset cursor stay
/// within their ranges whatever key is pressed.
pub open spec fn settings_wf(s: SettingsView) -> bool {
    &&& s.config_section < 5
    &&& s.neuron_sub_section <= 2
    &&& s.preset_cursor <= s.presets.len() + 1
}

/// Saving a preset never shortens the list of presets and touches nothing
/// but the presets and the unsaved mark.
pub proof fn lemma_preset_saved_grows(s: SettingsView, name: Seq<char>, names: Seq<Seq<char>>)
    ensures
        preset_saved(s, name, names).presets.len() >= s.presets.len(),
        preset_saved(s, name, names).preset_cursor == s.preset_cursor,
{
    lemma_first_named(s.presets, name);
}

/// A key in the neurons section keeps the sub-section and the preset
/// cursor in range.
#[verifier::rlimit(40)]
pub proof fn lemma_neuron_step_keeps_ranges(s: SettingsView, key: Key, names: Seq<Seq<char>>)
    requires
        settings_wf(s),
    ensures
        settings_wf(neuron_step(s, key, names).0),
{
    if s.preset_name_input is Some {
        let buf = s.preset_name_input.unwrap();
        let s1 = SettingsView { preset_name_input: None, ..s };
        lemma_preset_saved_grows(s1, trim(buf), names);
    } else {
        let s1 = SettingsView { neuron_sub_section: sub_after(s.neuron_sub_section, key), ..s };
        if s1.neuron_sub_section >= 2 {
            let lr = is_left_right(key);
            let s0 = if lr { mode_set(s1, NeuronMode::Presets) } else { s1 };
            let cur = s0.preset_cursor;
            if 0 < cur <= s0.presets.len() {
                let d = SettingsView { preset_cursor: (cur - 1) as usize, ..s0 };
                assert(settings_wf(preset_deleted(d)));
            }
        }
    }
}

/// Every key keeps the settings screen's ranges.
pub proof fn lemma_config_step_keeps_ranges(s: SettingsView, key: Key, names: Seq<Seq<char>>)
    requires
        settings_wf(s),
    ensures
        settings_wf(config_step(s, key, names).0),
{
    if key.code != KeyCode::Esc && key.code != KeyCode::Tab && s.config_section == 1 {
        lemma_neuron_step_keeps_ranges(s, key, names);
    }
}

} // verus!
