//! The system message of a conversation: the runtime context, the enabled
//! neurons (some loaded on demand in smart mode), and the pinned files.
use vstd::prelude::*;
use crate::config::{NeuronMode, NeuronPreset};
use crate::meta::join;
use crate::pinned::{pinned_files_section, pinned_section, PinnedFile};
use crate::synapse::{picked, tool_context, tool_context_of, Neuron};
use crate::text::{chars_of, chars_eq, extend_chars, extend_str, string_from_chars, string_views};

verus! {

/// The preset named `p`, the first of that name.
pub open spec fn preset_index(presets: Seq<NeuronPreset>, p: Seq<char>) -> Option<int> {
    if exists|i: int| 0 <= i < presets.len() && presets[i].name@ == p {
        Some(
            choose|i: int|
                0 <= i < presets.len() && presets[i].name@ == p && forall|j: int|
                    0 <= j < i ==> presets[j].name@ != p,
        )
    } else {
        None
    }
}

/// How neurons are picked: by a preset's list, or by not being disabled.
pub enum Selection {
    /// No neuron at all (the `__pure__` preset).
    Nothing,
    /// The neurons a preset lists.
    Listed(Seq<Seq<char>>),
    /// Every neuron not disabled.
    NotDisabled,
}

/// How the enabled neurons are picked in `mode`.
pub open spec fn selection(
    mode: NeuronMode,
    active_preset: Option<Seq<char>>,
    presets: Seq<NeuronPreset>,
) -> Selection {
    match (mode, active_preset) {
        (NeuronMode::Presets, Some(p)) => if p == "__pure__"@ {
            Selection::Nothing
        } else {
            match preset_index(presets, p) {
                Some(i) => Selection::Listed(string_views(presets[i].enabled@)),
                None => Selection::NotDisabled,
            }
        },
        _ => Selection::NotDisabled,
    }
}

/// Whether a neuron named `name` is enabled under `sel`.
pub open spec fn selected_name(sel: Selection, disabled: Seq<Seq<char>>, name: Seq<char>) -> bool {
    match sel {
        Selection::Nothing => false,
        Selection::Listed(l) => l.contains(name),
        Selection::NotDisabled => !disabled.contains(name),
    }
}

/// The predicate on neurons of `selected_name`.
pub open spec fn enabled_pred(sel: Selection, disabled: Seq<Seq<char>>) -> spec_fn(Neuron) -> bool {
    |n: Neuron| selected_name(sel, disabled, n.name@)
}

/// The neurons enabled in `mode`, in order.
pub open spec fn enabled_neurons(
    ns: Seq<Neuron>,
    mode: NeuronMode,
    active_preset: Option<Seq<char>>,
    presets: Seq<NeuronPreset>,
    disabled: Seq<Seq<char>>,
) -> Seq<Neuron> {
    ns.filter(enabled_pred(selection(mode, active_preset, presets), disabled))
}

/// `sub` is `s` with some of its items left out, the rest in their order:
/// `idx` gives the position in `s` of each item of `sub`.
pub open spec fn picks_in_order<A>(s: Seq<A>, sub: Seq<A>, idx: Seq<int>) -> bool {
    &&& idx.len() == sub.len()
    &&& forall|k: int| 0 <= k < idx.len() ==> 0 <= #[trigger] idx[k] < s.len() && s[idx[k]] == sub[k]
    &&& forall|k1: int, k2: int| 0 <= k1 < k2 < idx.len() ==> idx[k1] < idx[k2]
}

proof fn lemma_filter_in_order<A>(s: Seq<A>, pred: spec_fn(A) -> bool)
    ensures
        exists|idx: Seq<int>| picks_in_order(s, s.filter(pred), idx),
    decreases s.len(),
{
    reveal(Seq::filter);
    if s.len() == 0 {
        assert(picks_in_order(s, s.filter(pred), Seq::<int>::empty()));
    } else {
        lemma_filter_in_order(s.drop_last(), pred);
        let idx0 = choose|idx: Seq<int>| picks_in_order(s.drop_last(), s.drop_last().filter(pred), idx);
        if pred(s.last()) {
            let idx = idx0.push(s.len() - 1);
            assert(picks_in_order(s, s.filter(pred), idx));
        } else {
            assert(picks_in_order(s, s.filter(pred), idx0));
        }
    }
}

/// The neurons in effect keep the order of `ns` and leave some out: none
/// under the `__pure__` preset; under another preset that exists, those it
/// lists; in the other modes, those not disabled.
pub proof fn lemma_enabled_neurons(
    ns: Seq<Neuron>,
    mode: NeuronMode,
    active_preset: Option<Seq<char>>,
    presets: Seq<NeuronPreset>,
    disabled: Seq<Seq<char>>,
)
    ensures
        exists|idx: Seq<int>| picks_in_order(ns, enabled_neurons(ns, mode, active_preset, presets, disabled), idx),
        mode == NeuronMode::Presets && active_preset == Some("__pure__"@) ==> enabled_neurons(
            ns,
            mode,
            active_preset,
            presets,
            disabled,
        ).len() == 0,
        mode == NeuronMode::Presets && active_preset is Some && active_preset->0 != "__pure__"@ && preset_index(
            presets,
            active_preset->0,
        ) is Some ==> enabled_neurons(ns, mode, active_preset, presets, disabled) == ns.filter(
            |n: Neuron| string_views(presets[preset_index(presets, active_preset->0)->0].enabled@).contains(n.name@),
        ),
        mode != NeuronMode::Presets ==> enabled_neurons(ns, mode, active_preset, presets, disabled) == ns.filter(
            |n: Neuron| !disabled.contains(n.name@),
        ),
{
    let sel = selection(mode, active_preset, presets);
    lemma_filter_in_order(ns, enabled_pred(sel, disabled));
    let idx = choose|idx: Seq<int>| picks_in_order(ns, ns.filter(enabled_pred(sel, disabled)), idx);
    assert(enabled_neurons(ns, mode, active_preset, presets, disabled) == ns.filter(enabled_pred(sel, disabled)));
    assert(picks_in_order(ns, enabled_neurons(ns, mode, active_preset, presets, disabled), idx));
    if mode == NeuronMode::Presets && active_preset == Some("__pure__"@) {
        let e = enabled_neurons(ns, mode, active_preset, presets, disabled);
        ns.filter_lemma(enabled_pred(sel, disabled));
        if e.len() > 0 {
            assert(enabled_pred(sel, disabled)(e[0]));
        }
    }
    if mode == NeuronMode::Presets && active_preset is Some {
        let p = active_preset->0;
        if p != "__pure__"@ && preset_index(presets, p) is Some {
            let i = preset_index(presets, p)->0;
            assert(enabled_pred(sel, disabled) =~= (|n: Neuron| string_views(presets[i].enabled@).contains(n.name@)));
        }
    }
    if mode != NeuronMode::Presets {
        assert(enabled_pred(sel, disabled) =~= (|n: Neuron| !disabled.contains(n.name@)));
    }
}

/// The neurons of `ns` named in `on_demand` (`wanted`) or not (`!wanted`).
pub open spec fn demand_pred(on_demand: Seq<Seq<char>>, wanted: bool) -> spec_fn(Neuron) -> bool {
    |n: Neuron| on_demand.contains(n.name@) == wanted
}

/// One manifest line for an on-demand neuron.
pub open spec fn manifest_line(n: Neuron) -> Seq<char> {
    "- **"@ + n.name@ + "**"@ + (if n.description@.len() > 0 {
        " — "@ + n.description@
    } else {
        Seq::empty()
    }) + "\n"@
}

/// The manifest of the on-demand neurons `ns`.
pub open spec fn manifest(ns: Seq<Neuron>) -> Seq<char>
    decreases ns.len(),
{
    if ns.len() == 0 {
        "## On-demand neurons\nNot currently loaded. Request one with `<load_neuron>Name</load_neuron>` when you need it:\n"@
    } else {
        manifest(ns.drop_last()) + manifest_line(ns.last())
    }
}

/// The parts of the system message, in order: the runtime context, the
/// neurons (in smart mode those loaded at start, then the manifest of those
/// loaded on demand), and the pinned files; empty parts left out.
pub open spec fn prompt_parts(
    runtime_context: Seq<char>,
    enabled: Seq<Neuron>,
    mode: NeuronMode,
    on_demand: Seq<Seq<char>>,
    pinned: Seq<PinnedFile>,
) -> Seq<Seq<char>> {
    let rc = if runtime_context.len() > 0 { seq![runtime_context] } else { seq![] };
    let ns = if mode == NeuronMode::Smart {
        let initial = tool_context(enabled.filter(demand_pred(on_demand, false)));
        let later = enabled.filter(demand_pred(on_demand, true));
        (if initial.len() > 0 { seq![initial] } else { seq![] }) + if later.len() > 0 {
            seq![manifest(later)]
        } else {
            seq![]
        }
    } else {
        let ctx = tool_context(enabled);
        if ctx.len() > 0 { seq![ctx] } else { seq![] }
    };
    let pf = if pinned.len() > 0 { seq![pinned_section(pinned)] } else { seq![] };
    rc + ns + pf
}

/// The system message: its parts separated by rules.
pub open spec fn system_message(
    runtime_context: Seq<char>,
    enabled: Seq<Neuron>,
    mode: NeuronMode,
    on_demand: Seq<Seq<char>>,
    pinned: Seq<PinnedFile>,
) -> Seq<char> {
    join(prompt_parts(runtime_context, enabled, mode, on_demand, pinned), "\n\n---\n\n"@)
}

fn names_contain(names: &[String], name: &str) -> (b: bool)
    ensures
        b == string_views(names@).contains(name@),
{
    let n = chars_of(name);
    let mut i: usize = 0;
    while i < names.len()
        invariant
            i <= names@.len(),
            n@ == name@,
            forall|j: int| 0 <= j < i ==> names@[j]@ != name@,
        decreases names.len() - i,
    {
        let c = chars_of(names[i].as_str());
        if chars_eq(c.as_slice(), n.as_slice()) {
            assert(string_views(names@)[i as int] == name@);
            return true;
        }
        i += 1;
    }
    proof {
        if string_views(names@).contains(name@) {
            let k = choose|k: int| 0 <= k < string_views(names@).len() && string_views(names@)[k] == name@;
            assert(names@[k]@ == name@);
        }
    }
    false
}

fn find_preset(presets: &[NeuronPreset], p: &str) -> (r: Option<usize>)
    ensures
        match r {
            Some(i) => preset_index(presets@, p@) == Some(i as int) && i < presets@.len(),
            None => preset_index(presets@, p@) is None,
        },
{
    let pc = chars_of(p);
    let mut i: usize = 0;
    while i < presets.len()
        invariant
            i <= presets@.len(),
            pc@ == p@,
            forall|j: int| 0 <= j < i ==> presets@[j].name@ != p@,
        decreases presets.len() - i,
    {
        let c = chars_of(presets[i].name.as_str());
        if chars_eq(c.as_slice(), pc.as_slice()) {
            proof {
                let k = choose|k: int|
                    0 <= k < presets@.len() && presets@[k].name@ == p@ && forall|j: int|
                        0 <= j < k ==> presets@[j].name@ != p@;
                if k < i {
                    assert(presets@[k].name@ != p@);
                } else if k > i {
                    assert(presets@[i as int].name@ != p@);
                }
            }
            return Some(i);
        }
        i += 1;
    }
    None
}

proof fn lemma_filter_step(ns: Seq<Neuron>, i: int, pred: spec_fn(Neuron) -> bool)
    requires
        0 <= i < ns.len(),
    ensures
        ns.take(i + 1).filter(pred) == if pred(ns[i]) {
            ns.take(i).filter(pred).push(ns[i])
        } else {
            ns.take(i).filter(pred)
        },
{
    assert(ns.take(i + 1) =~= ns.take(i).push(ns[i]));
    ns.take(i).lemma_filter_push(ns[i], pred);
}

/// The positions of the neurons enabled in `mode`, split by whether they
/// are loaded on demand.
fn pick_enabled(
    neurons: &[Neuron],
    sel_nothing: bool,
    listed: Option<&Vec<String>>,
    disabled: &[String],
    on_demand: &[String],
    split: bool,
    wanted: bool,
) -> (r: Vec<usize>)
    requires
        sel_nothing ==> listed is None,
    ensures
        forall|k: int| 0 <= k < r@.len() ==> r@[k] < neurons@.len(),
        forall|k1: int, k2: int| 0 <= k1 < k2 < r@.len() ==> r@[k1] < r@[k2],
        ({
            let sel = if sel_nothing {
                Selection::Nothing
            } else {
                match listed {
                    Some(l) => Selection::Listed(string_views(l@)),
                    None => Selection::NotDisabled,
                }
            };
            let en = neurons@.filter(enabled_pred(sel, string_views(disabled@)));
            picked(neurons@, r@) == if split {
                en.filter(demand_pred(string_views(on_demand@), wanted))
            } else {
                en
            }
        }),
{
    let ghost sel = if sel_nothing {
        Selection::Nothing
    } else {
        match listed {
            Some(l) => Selection::Listed(string_views(l@)),
            None => Selection::NotDisabled,
        }
    };
    let ghost ep = enabled_pred(sel, string_views(disabled@));
    let ghost dp = demand_pred(string_views(on_demand@), wanted);
    let mut r: Vec<usize> = Vec::new();
    let mut i: usize = 0;
    assert(neurons@.take(0).filter(ep) =~= Seq::<Neuron>::empty()) by {
        reveal(Seq::filter);
    }
    assert(neurons@.take(0).filter(ep).filter(dp) =~= Seq::<Neuron>::empty()) by {
        reveal(Seq::filter);
    }
    while i < neurons.len()
        invariant
            i <= neurons@.len(),
            forall|k: int| 0 <= k < r@.len() ==> r@[k] < i,
            forall|k1: int, k2: int| 0 <= k1 < k2 < r@.len() ==> r@[k1] < r@[k2],
            ep == enabled_pred(sel, string_views(disabled@)),
            dp == demand_pred(string_views(on_demand@), wanted),
            sel == (if sel_nothing {
                Selection::Nothing
            } else {
                match listed {
                    Some(l) => Selection::Listed(string_views(l@)),
                    None => Selection::NotDisabled,
                }
            }),
            picked(neurons@, r@) == if split {
                neurons@.take(i as int).filter(ep).filter(dp)
            } else {
                neurons@.take(i as int).filter(ep)
            },
        decreases neurons.len() - i,
    {
        let name = neurons[i].name.as_str();
        let en = if sel_nothing {
            false
        } else {
            match listed {
                Some(l) => names_contain(l.as_slice(), name),
                None => !names_contain(disabled, name),
            }
        };
        let dm = if split {
            names_contain(on_demand, name) == wanted
        } else {
            true
        };
        assert(en == ep(neurons@[i as int]));
        proof {
            lemma_filter_step(neurons@, i as int, ep);
            let f = neurons@.take(i as int).filter(ep);
            if en {
                f.lemma_filter_push(neurons@[i as int], dp);
            }
        }
        if en && dm {
            proof {
                assert(picked(neurons@, r@.push(i)) =~= picked(neurons@, r@).push(neurons@[i as int]));
            }
            r.push(i);
        }
        i += 1;
    }
    assert(neurons@.take(neurons@.len() as int) =~= neurons@);
    r
}

fn append_manifest(out: &mut Vec<char>, neurons: &[Neuron], pick: &[usize])
    requires
        forall|k: int| 0 <= k < pick@.len() ==> pick@[k] < neurons@.len(),
    ensures
        final(out)@ == old(out)@ + manifest(picked(neurons@, pick@)),
{
    let ghost start = old(out)@;
    let ghost sel = picked(neurons@, pick@);
    extend_str(out, "## On-demand neurons\nNot currently loaded. Request one with `<load_neuron>Name</load_neuron>` when you need it:\n");
    let mut i: usize = 0;
    assert(sel.take(0) =~= Seq::<Neuron>::empty());
    while i < pick.len()
        invariant
            i <= pick@.len(),
            sel == picked(neurons@, pick@),
            forall|k: int| 0 <= k < pick@.len() ==> pick@[k] < neurons@.len(),
            out@ == start + manifest(sel.take(i as int)),
        decreases pick.len() - i,
    {
        let n = &neurons[pick[i]];
        assert(sel.take(i + 1).drop_last() =~= sel.take(i as int));
        extend_str(out, "- **");
        extend_str(out, n.name.as_str());
        extend_str(out, "**");
        if !n.description.as_str().is_empty() {
            extend_str(out, " — ");
            extend_str(out, n.description.as_str());
        }
        extend_str(out, "\n");
        i += 1;
    }
    assert(sel.take(pick@.len() as int) =~= sel);
}

/// The positions of the neurons enabled under the neuron settings, in
/// order.
pub fn effective_enabled_neurons(
    neurons: &[Neuron],
    mode: NeuronMode,
    active_preset: Option<&str>,
    presets: &[NeuronPreset],
    disabled: &[String],
) -> (r: Vec<usize>)
    ensures
        forall|k: int| 0 <= k < r@.len() ==> r@[k] < neurons@.len(),
        forall|k1: int, k2: int| 0 <= k1 < k2 < r@.len() ==> r@[k1] < r@[k2],
        picked(neurons@, r@) == enabled_neurons(
            neurons@,
            mode,
            match active_preset {
                Some(p) => Some(p@),
                None => None,
            },
            presets@,
            string_views(disabled@),
        ),
{
    let ghost ap = match active_preset {
        Some(p) => Some(p@),
        None => None,
    };
    let mut nothing = false;
    let mut listed: Option<&Vec<String>> = None;
    if mode == NeuronMode::Presets {
        if let Some(p) = active_preset {
            let pure = chars_of("__pure__");
            let pc = chars_of(p);
            if chars_eq(pc.as_slice(), pure.as_slice()) {
                nothing = true;
            } else {
                match find_preset(presets, p) {
                    Some(i) => {
                        listed = Some(&presets[i].enabled);
                    },
                    None => {},
                }
            }
        }
    }
    proof {
        let sel = if nothing {
            Selection::Nothing
        } else {
            match listed {
                Some(l) => Selection::Listed(string_views(l@)),
                None => Selection::NotDisabled,
            }
        };
        assert(sel == selection(mode, ap, presets@));
    }
    let none: Vec<String> = Vec::new();
    pick_enabled(neurons, nothing, listed, disabled, none.as_slice(), false, false)
}

/// Builds the system message from the runtime context, the neurons and the
/// neuron settings, and the pinned files.
pub fn full_system_prompt(
    runtime_context: &str,
    neurons: &[Neuron],
    mode: NeuronMode,
    active_preset: Option<&str>,
    presets: &[NeuronPreset],
    disabled: &[String],
    on_demand: &[String],
    pinned: &Vec<PinnedFile>,
) -> (s: String)
    ensures
        s@ == system_message(
            runtime_context@,
            enabled_neurons(
                neurons@,
                mode,
                match active_preset {
                    Some(p) => Some(p@),
                    None => None,
                },
                presets@,
                string_views(disabled@),
            ),
            mode,
            string_views(on_demand@),
            pinned@,
        ),
{
    let ghost ap = match active_preset {
        Some(p) => Some(p@),
        None => None,
    };
    let mut nothing = false;
    let mut listed: Option<&Vec<String>> = None;
    if mode == NeuronMode::Presets {
        if let Some(p) = active_preset {
            let pure = chars_of("__pure__");
            let pc = chars_of(p);
            if chars_eq(pc.as_slice(), pure.as_slice()) {
                nothing = true;
            } else {
                match find_preset(presets, p) {
                    Some(i) => {
                        listed = Some(&presets[i].enabled);
                    },
                    None => {},
                }
            }
        }
    }
    proof {
        let sel = if nothing {
            Selection::Nothing
        } else {
            match listed {
                Some(l) => Selection::Listed(string_views(l@)),
                None => Selection::NotDisabled,
            }
        };
        assert(sel == selection(mode, ap, presets@));
    }
    let mut parts: Vec<Vec<char>> = Vec::new();
    let ghost rc = if runtime_context@.len() > 0 { seq![runtime_context@] } else { Seq::<Seq<char>>::empty() };
    if !runtime_context.is_empty() {
        parts.push(chars_of(runtime_context));
    }
    assert(crate::text::views(parts@) =~= rc);
    let ghost en = enabled_neurons(neurons@, mode, ap, presets@, string_views(disabled@));
    if mode == NeuronMode::Smart {
        let first = pick_enabled(neurons, nothing, listed, disabled, on_demand, true, false);
        let later = pick_enabled(neurons, nothing, listed, disabled, on_demand, true, true);
        let ctx = tool_context_of(neurons, first.as_slice());
        if !ctx.as_str().is_empty() {
            let c = chars_of(ctx.as_str());
            proof {
                assert(crate::text::views(parts@.push(c)) =~= crate::text::views(parts@).push(c@));
            }
            parts.push(c);
        }
        if later.len() > 0 {
            let mut m: Vec<char> = Vec::new();
            append_manifest(&mut m, neurons, later.as_slice());
            proof {
                assert(crate::text::views(parts@.push(m)) =~= crate::text::views(parts@).push(m@));
            }
            parts.push(m);
        }
    } else {
        let all = pick_enabled(neurons, nothing, listed, disabled, on_demand, false, false);
        let ctx = tool_context_of(neurons, all.as_slice());
        if !ctx.as_str().is_empty() {
            let c = chars_of(ctx.as_str());
            proof {
                assert(crate::text::views(parts@.push(c)) =~= crate::text::views(parts@).push(c@));
            }
            parts.push(c);
        }
    }
    if pinned.len() > 0 {
        let sec = pinned_files_section(pinned);
        let c = chars_of(sec.as_str());
        proof {
            assert(crate::text::views(parts@.push(c)) =~= crate::text::views(parts@).push(c@));
        }
        parts.push(c);
    }
    assert(crate::text::views(parts@) =~= prompt_parts(runtime_context@, en, mode, string_views(on_demand@), pinned@));
    let mut out: Vec<char> = Vec::new();
    let sep = chars_of("\n\n---\n\n");
    crate::meta::join_into(&mut out, &parts, sep.as_slice());
    assert(Seq::<char>::empty() + join(crate::text::views(parts@), sep@) =~= join(crate::text::views(parts@), sep@));
    string_from_chars(out.as_slice())
}

} // verus!
