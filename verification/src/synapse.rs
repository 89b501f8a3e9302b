//! Neurons: bundles of instructions ("thoughts") and tools ("synapses") that
//! are described to the model in its system message.
use vstd::prelude::*;
use crate::meta::{
    header_lookup, header_text, join, join_into, lines, split_meta, split_meta_exec,
};
use crate::text::{
    chars_of, extend_chars, extend_str, string_from_chars, string_views, trim, trim_bounds,
    trimmed_nonempty, trimmed_nonempty_exec, views,
};

verus! {

/// What a synapse does when triggered.
#[derive(Clone)]
pub enum SynapseKind {
    Tool { command: String, usage: String, example: String },
}

/// A tool a neuron offers, invoked as `<tool>trigger args</tool>`.
#[derive(Clone)]
pub struct Synapse {
    pub trigger: String,
    pub description: String,
    pub kind: SynapseKind,
}

/// A neuron: instructions and tools loaded together.
#[derive(Clone)]
pub struct Neuron {
    pub name: String,
    pub description: String,
    /// Passthrough: any trigger runs as a shell command.
    pub shell: bool,
    /// Concatenated thoughts, injected into the system message.
    pub system_prompt: String,
    /// Few-shot example from the neuron definition's body.
    pub example: String,
    pub synapses: Vec<Synapse>,
}

/// A synapse as plain text: (trigger, description, command, usage, example).
pub type SynapseView = (Seq<char>, Seq<char>, Seq<char>, Seq<char>, Seq<char>);

pub open spec fn synapse_view(s: Synapse) -> SynapseView {
    match s.kind {
        SynapseKind::Tool { command, usage, example } => (
            s.trigger@,
            s.description@,
            command@,
            usage@,
            example@,
        ),
    }
}

pub open spec fn synapse_views(s: Seq<Synapse>) -> Seq<SynapseView> {
    s.map_values(|x: Synapse| synapse_view(x))
}

/// The synapse a definition describes: it needs a non-empty `trigger` and
/// `kind = tool`; the usage defaults to the trigger.
pub open spec fn synapse_of(src: Seq<char>) -> Option<SynapseView> {
    let ls = lines(split_meta(src).0);
    let trigger = header_text(ls, "trigger"@);
    let usage = header_text(ls, "usage"@);
    if trigger.len() == 0 {
        None
    } else if header_text(ls, "kind"@) != "tool"@ {
        None
    } else {
        Some(
            (
                trigger,
                header_text(ls, "description"@),
                header_text(ls, "command"@),
                if usage.len() == 0 {
                    trigger
                } else {
                    usage
                },
                split_meta(src).1,
            ),
        )
    }
}

/// The synapses that the definitions in `srcs` describe, in order.
pub open spec fn synapses_of(srcs: Seq<Seq<char>>) -> Seq<SynapseView>
    decreases srcs.len(),
{
    if srcs.len() == 0 {
        seq![]
    } else {
        synapses_of(srcs.drop_last()) + match synapse_of(srcs.last()) {
            Some(s) => seq![s],
            None => seq![],
        }
    }
}

pub open spec fn str_views(s: Seq<&str>) -> Seq<Seq<char>> {
    s.map_values(|x: &str| x@)
}

fn lookup_text(ls: &Vec<Vec<char>>, key: &str) -> (v: Vec<char>)
    ensures
        v@ == header_text(views(ls@), key@),
{
    let k = chars_of(key);
    match header_lookup(ls, k.as_slice()) {
        Some(v) => v,
        None => Vec::new(),
    }
}

/// Parses a synapse definition.
pub fn parse_synapse(src: &str) -> (r: Option<Synapse>)
    ensures
        match r {
            Some(s) => synapse_of(src@) == Some(synapse_view(s)),
            None => synapse_of(src@) is None,
        },
{
    let (ls, body) = split_meta_exec(src);
    let trigger = lookup_text(&ls, "trigger");
    if trigger.len() == 0 {
        return None;
    }
    let kind = lookup_text(&ls, "kind");
    let tool = chars_of("tool");
    if !crate::text::chars_eq(kind.as_slice(), tool.as_slice()) {
        return None;
    }
    let command = lookup_text(&ls, "command");
    let description = lookup_text(&ls, "description");
    let usage = lookup_text(&ls, "usage");
    let usage = if usage.len() == 0 {
        string_from_chars(trigger.as_slice())
    } else {
        string_from_chars(usage.as_slice())
    };
    Some(
        Synapse {
            trigger: string_from_chars(trigger.as_slice()),
            description: string_from_chars(description.as_slice()),
            kind: SynapseKind::Tool {
                command: string_from_chars(command.as_slice()),
                usage,
                example: string_from_chars(body.as_slice()),
            },
        },
    )
}

/// Parses a neuron definition from its metadata, its thoughts (in order)
/// and its synapse definitions. Empty thoughts are skipped; the others are
/// trimmed and joined by newlines into the system prompt.
pub fn parse_neuron(meta_src: &str, thoughts: &[&str], synapse_srcs: &[&str]) -> (n: Neuron)
    ensures
        ({
            let ls = lines(split_meta(meta_src@).0);
            &&& n.name@ == header_text(ls, "name"@)
            &&& n.description@ == header_text(ls, "description"@)
            &&& n.shell == (header_text(ls, "shell"@) == "true"@)
            &&& n.example@ == split_meta(meta_src@).1
            &&& n.system_prompt@ == join(trimmed_nonempty(str_views(thoughts@)), seq!['\n'])
            &&& synapse_views(n.synapses@) == synapses_of(str_views(synapse_srcs@))
        }),
{
    let (ls, body) = split_meta_exec(meta_src);
    let name = lookup_text(&ls, "name");
    let description = lookup_text(&ls, "description");
    let shell_v = lookup_text(&ls, "shell");
    let tr = chars_of("true");
    let shell = crate::text::chars_eq(shell_v.as_slice(), tr.as_slice());
    // thoughts, as char vectors
    let mut tv: Vec<Vec<char>> = Vec::new();
    let mut i: usize = 0;
    while i < thoughts.len()
        invariant
            i <= thoughts@.len(),
            views(tv@) == str_views(thoughts@).take(i as int),
        decreases thoughts.len() - i,
    {
        let c = chars_of(thoughts[i]);
        proof {
            assert(views(tv@.push(c)) =~= views(tv@).push(c@));
            assert(str_views(thoughts@).take(i + 1) =~= str_views(thoughts@).take(i as int).push(
                thoughts@[i as int]@,
            ));
        }
        tv.push(c);
        i += 1;
    }
    assert(str_views(thoughts@).take(thoughts@.len() as int) =~= str_views(thoughts@));
    let kept = trimmed_nonempty_exec(&tv);
    let mut kv: Vec<Vec<char>> = Vec::new();
    let mut j: usize = 0;
    while j < kept.len()
        invariant
            j <= kept@.len(),
            views(kv@) == string_views(kept@).take(j as int),
        decreases kept.len() - j,
    {
        let c = chars_of(kept[j].as_str());
        proof {
            assert(views(kv@.push(c)) =~= views(kv@).push(c@));
            assert(string_views(kept@).take(j + 1) =~= string_views(kept@).take(j as int).push(
                kept@[j as int]@,
            ));
        }
        kv.push(c);
        j += 1;
    }
    assert(string_views(kept@).take(kept@.len() as int) =~= string_views(kept@));
    let mut sp: Vec<char> = Vec::new();
    let nl = vec!['\n'];
    join_into(&mut sp, &kv, nl.as_slice());
    assert(views(tv@) == str_views(thoughts@));
    assert(views(kv@) == string_views(kept@));
    assert(nl@ == seq!['\n']);
    assert(sp@ =~= join(trimmed_nonempty(str_views(thoughts@)), seq!['\n']));
    // synapses
    let mut syn: Vec<Synapse> = Vec::new();
    let mut k: usize = 0;
    while k < synapse_srcs.len()
        invariant
            k <= synapse_srcs@.len(),
            synapse_views(syn@) == synapses_of(str_views(synapse_srcs@).take(k as int)),
        decreases synapse_srcs.len() - k,
    {
        let ghost pre = str_views(synapse_srcs@).take(k + 1);
        assert(pre.drop_last() =~= str_views(synapse_srcs@).take(k as int));
        assert(pre.last() == synapse_srcs@[k as int]@);
        match parse_synapse(synapse_srcs[k]) {
            Some(s) => {
                proof {
                    assert(synapse_views(syn@.push(s)) =~= synapse_views(syn@).push(synapse_view(s)));
                }
                syn.push(s);
            },
            None => {
                assert(synapses_of(pre) =~= synapses_of(pre.drop_last()));
            },
        }
        k += 1;
    }
    assert(str_views(synapse_srcs@).take(synapse_srcs@.len() as int) =~= str_views(synapse_srcs@));
    Neuron {
        name: string_from_chars(name.as_slice()),
        description: string_from_chars(description.as_slice()),
        shell,
        system_prompt: string_from_chars(sp.as_slice()),
        example: string_from_chars(body.as_slice()),
        synapses: syn,
    }
}

/// A neuron is described to the model when it is a shell passthrough, has
/// instructions, or has tools.
pub open spec fn is_active(n: Neuron) -> bool {
    n.shell || n.system_prompt@.len() > 0 || n.synapses@.len() > 0
}

/// The active neurons among `ns`, in order.
pub open spec fn active_neurons(ns: Seq<Neuron>) -> Seq<Neuron>
    decreases ns.len(),
{
    if ns.len() == 0 {
        seq![]
    } else {
        active_neurons(ns.drop_last()) + if is_active(ns.last()) {
            seq![ns.last()]
        } else {
            seq![]
        }
    }
}

pub open spec fn neuron_names(ns: Seq<Neuron>) -> Seq<Seq<char>> {
    ns.map_values(|n: Neuron| n.name@)
}

/// The usage lines of the synapses `ss`.
pub open spec fn usage_lines(ss: Seq<Synapse>) -> Seq<char>
    decreases ss.len(),
{
    if ss.len() == 0 {
        Seq::empty()
    } else {
        usage_lines(ss.drop_last()) + "  - "@ + synapse_view(ss.last()).3 + ": "@ + ss.last().description@
            + "\n"@
    }
}

/// The paragraph that describes neuron `n`.
pub open spec fn neuron_section(n: Neuron) -> Seq<char> {
    "\n"@ + n.name@ + (if n.description@.len() > 0 {
        " — "@ + n.description@
    } else {
        Seq::empty()
    }) + ":\n"@ + (if n.shell {
        "  To run a Linux command, wrap it in a tool tag. For example: <tool>ls</tool> or <tool>cat README.md</tool>\n"@
    } else {
        Seq::empty()
    }) + usage_lines(n.synapses@) + (if n.system_prompt@.len() > 0 {
        "  "@ + trim(n.system_prompt@) + "\n"@
    } else {
        Seq::empty()
    })
}

/// The paragraphs of all neurons in `ns`.
pub open spec fn neuron_sections(ns: Seq<Neuron>) -> Seq<char>
    decreases ns.len(),
{
    if ns.len() == 0 {
        Seq::empty()
    } else {
        neuron_sections(ns.drop_last()) + neuron_section(ns.last())
    }
}

/// The non-empty examples of the synapses `ss`.
pub open spec fn synapse_examples(ss: Seq<Synapse>) -> Seq<Seq<char>>
    decreases ss.len(),
{
    if ss.len() == 0 {
        seq![]
    } else {
        synapse_examples(ss.drop_last()) + if synapse_view(ss.last()).4.len() > 0 {
            seq![synapse_view(ss.last()).4]
        } else {
            seq![]
        }
    }
}

/// The non-empty examples of the neurons `ns`: each neuron's own, then its
/// synapses'.
pub open spec fn neuron_examples(ns: Seq<Neuron>) -> Seq<Seq<char>>
    decreases ns.len(),
{
    if ns.len() == 0 {
        seq![]
    } else {
        neuron_examples(ns.drop_last()) + (if ns.last().example@.len() > 0 {
            seq![ns.last().example@]
        } else {
            seq![]
        }) + synapse_examples(ns.last().synapses@)
    }
}

/// The system message that describes the active neurons of `ns`; empty
/// when none is active.
pub open spec fn tool_context(ns: Seq<Neuron>) -> Seq<char> {
    let act = active_neurons(ns);
    let ex = neuron_examples(act);
    if act.len() == 0 {
        Seq::empty()
    } else {
        "Loaded neurons: "@ + join(neuron_names(act), ", "@) + "\n\nEach neuron is described below:\n"@
            + neuron_sections(act) + "\nWhen you need to run a command, output it on its own line wrapped in tool tags.\nYou will receive the result under \"Tool result:\" and can then continue.\n"@ + if ex.len() > 0 {
            "\n"@ + join(ex, "\n"@)
        } else {
            Seq::empty()
        }
    }
}

fn append_usage_lines(out: &mut Vec<char>, ss: &Vec<Synapse>)
    ensures
        final(out)@ == old(out)@ + usage_lines(ss@),
{
    let ghost start = out@;
    let mut i: usize = 0;
    while i < ss.len()
        invariant
            i <= ss@.len(),
            out@ == start + usage_lines(ss@.take(i as int)),
        decreases ss.len() - i,
    {
        let ghost pre = ss@.take(i + 1);
        assert(pre.drop_last() =~= ss@.take(i as int));
        let s = &ss[i];
        match &s.kind {
            SynapseKind::Tool { usage, .. } => {
                extend_str(out, "  - ");
                extend_str(out, usage.as_str());
                extend_str(out, ": ");
                extend_str(out, s.description.as_str());
                extend_str(out, "\n");
            },
        }
        i += 1;
    }
    assert(ss@.take(ss@.len() as int) =~= ss@);
}

fn append_section(out: &mut Vec<char>, n: &Neuron)
    ensures
        final(out)@ == old(out)@ + neuron_section(*n),
{
    extend_str(out, "\n");
    extend_str(out, n.name.as_str());
    if !n.description.as_str().is_empty() {
        extend_str(out, " — ");
        extend_str(out, n.description.as_str());
    }
    extend_str(out, ":\n");
    if n.shell {
        extend_str(out, "  To run a Linux command, wrap it in a tool tag. For example: <tool>ls</tool> or <tool>cat README.md</tool>\n");
    }
    append_usage_lines(out, &n.synapses);
    if !n.system_prompt.as_str().is_empty() {
        extend_str(out, "  ");
        let sp = chars_of(n.system_prompt.as_str());
        let (a, b) = trim_bounds(sp.as_slice());
        extend_chars(out, &sp[a..b]);
        extend_str(out, "\n");
    }
}

fn neuron_is_active(n: &Neuron) -> (b: bool)
    ensures
        b == is_active(*n),
{
    n.shell || !n.system_prompt.as_str().is_empty() || n.synapses.len() > 0
}

fn collect_examples(ex: &mut Vec<Vec<char>>, n: &Neuron)
    ensures
        views(final(ex)@) == views(old(ex)@) + (if n.example@.len() > 0 {
            seq![n.example@]
        } else {
            seq![]
        }) + synapse_examples(n.synapses@),
{
    if !n.example.as_str().is_empty() {
        let e = chars_of(n.example.as_str());
        proof {
            assert(views(ex@.push(e)) =~= views(ex@).push(e@));
        }
        ex.push(e);
    }
    let ghost mid = views(ex@);
    let mut i: usize = 0;
    while i < n.synapses.len()
        invariant
            i <= n.synapses@.len(),
            views(ex@) == mid + synapse_examples(n.synapses@.take(i as int)),
        decreases n.synapses.len() - i,
    {
        let ghost pre = n.synapses@.take(i + 1);
        assert(pre.drop_last() =~= n.synapses@.take(i as int));
        match &n.synapses[i].kind {
            SynapseKind::Tool { example, .. } => {
                if !example.as_str().is_empty() {
                    let e = chars_of(example.as_str());
                    proof {
                        assert(views(ex@.push(e)) =~= views(ex@).push(e@));
                    }
                    ex.push(e);
                }
            },
        }
        i += 1;
    }
    assert(n.synapses@.take(n.synapses@.len() as int) =~= n.synapses@);
}

/// The neurons of `ns` at the positions `pick`, in that order.
pub open spec fn picked(ns: Seq<Neuron>, pick: Seq<usize>) -> Seq<Neuron> {
    pick.map_values(|k: usize| ns[k as int])
}

/// The system message for the neurons of `neurons` at the positions
/// `pick`.
pub fn tool_context_of(neurons: &[Neuron], pick: &[usize]) -> (s: String)
    requires
        forall|k: int| 0 <= k < pick@.len() ==> pick@[k] < neurons@.len(),
    ensures
        s@ == tool_context(picked(neurons@, pick@)),
{
    let ghost sel = picked(neurons@, pick@);
    let mut names: Vec<Vec<char>> = Vec::new();
    let mut sections: Vec<char> = Vec::new();
    let mut ex: Vec<Vec<char>> = Vec::new();
    let mut count: usize = 0;
    let mut i: usize = 0;
    while i < pick.len()
        invariant
            i <= pick@.len(),
            sel == picked(neurons@, pick@),
            forall|k: int| 0 <= k < pick@.len() ==> pick@[k] < neurons@.len(),
            count == active_neurons(sel.take(i as int)).len(),
            views(names@) == neuron_names(active_neurons(sel.take(i as int))),
            sections@ == neuron_sections(active_neurons(sel.take(i as int))),
            views(ex@) == neuron_examples(active_neurons(sel.take(i as int))),
            count <= i,
        decreases pick.len() - i,
    {
        let ghost pre = sel.take(i + 1);
        assert(pre.drop_last() =~= sel.take(i as int));
        assert(pre.last() == neurons@[pick@[i as int] as int]);
        let n = &neurons[pick[i]];
        if neuron_is_active(n) {
            let ghost act = active_neurons(sel.take(i as int));
            assert(active_neurons(pre) =~= act.push(*n));
            assert(act.push(*n).drop_last() =~= act);
            let nm = chars_of(n.name.as_str());
            proof {
                assert(views(names@.push(nm)) =~= views(names@).push(nm@));
                assert(neuron_names(act.push(*n)) =~= neuron_names(act).push(n.name@));
            }
            names.push(nm);
            append_section(&mut sections, n);
            collect_examples(&mut ex, n);
            count += 1;
        } else {
            assert(active_neurons(pre) =~= active_neurons(sel.take(i as int)));
        }
        i += 1;
    }
    assert(sel.take(pick@.len() as int) =~= sel);
    if count == 0 {
        return String::new();
    }
    let mut out: Vec<char> = Vec::new();
    extend_str(&mut out, "Loaded neurons: ");
    let sep = chars_of(", ");
    join_into(&mut out, &names, sep.as_slice());
    extend_str(&mut out, "\n\nEach neuron is described below:\n");
    extend_chars(&mut out, sections.as_slice());
    extend_str(&mut out, "\nWhen you need to run a command, output it on its own line wrapped in tool tags.\nYou will receive the result under \"Tool result:\" and can then continue.\n");
    if ex.len() > 0 {
        extend_str(&mut out, "\n");
        let nl = chars_of("\n");
        join_into(&mut out, &ex, nl.as_slice());
    }
    string_from_chars(out.as_slice())
}

/// Builds the system message that lists the active neurons, their tools,
/// their instructions and their examples.
pub fn build_tool_context(neurons: &[Neuron]) -> (s: String)
    ensures
        s@ == tool_context(neurons@),
{
    let mut all: Vec<usize> = Vec::new();
    let mut i: usize = 0;
    while i < neurons.len()
        invariant
            i <= neurons@.len(),
            all@.len() == i,
            forall|k: int| 0 <= k < i ==> all@[k] == k,
        decreases neurons.len() - i,
    {
        all.push(i);
        i += 1;
    }
    assert(picked(neurons@, all@) =~= neurons@);
    tool_context_of(neurons, all.as_slice())
}

} // verus!
