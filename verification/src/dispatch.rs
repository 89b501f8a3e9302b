//! Which tool a call runs: a built-in tool, the first neuron synapse with
//! that trigger, the shell of a passthrough neuron, or none; the label the
//! chat shows for it; and the text a tool's output adds to the reply.
use vstd::prelude::*;
use crate::message::{
    attachment_views, message_views, plain_message, Attachment, AttachmentKind, AttachmentView, Message,
    MessageView, Role,
};
use crate::synapse::{Neuron, SynapseKind};
use crate::text::byte_len;
use crate::text::{extend_str, str_eq, string_from_chars, to_owned};
use crate::tools::builtin_tool;

verus! {

/// What runs a tool call.
#[derive(Debug, Clone, Copy, PartialEq, Eq, Structural)]
pub enum ToolTarget {
    Builtin,
    /// Synapse `.1` of neuron `.0`.
    Synapse(usize, usize),
    /// The shell, on behalf of passthrough neuron `.0`.
    Shell(usize),
    Unknown,
}

/// Neuron `n` has a synapse triggered by `cmd`: the first such, if any.
pub open spec fn synapse_in(n: Neuron, cmd: Seq<char>) -> Option<int> {
    if exists|j: int| 0 <= j < n.synapses@.len() && n.synapses@[j].trigger@ == cmd {
        Some(
            choose|j: int|
                0 <= j < n.synapses@.len() && n.synapses@[j].trigger@ == cmd && forall|k: int|
                    0 <= k < j ==> n.synapses@[k].trigger@ != cmd,
        )
    } else {
        None
    }
}

/// The first neuron with a synapse triggered by `cmd`.
pub open spec fn neuron_with_synapse(ns: Seq<Neuron>, cmd: Seq<char>) -> Option<int> {
    if exists|i: int| 0 <= i < ns.len() && synapse_in(ns[i], cmd) is Some {
        Some(
            choose|i: int|
                0 <= i < ns.len() && synapse_in(ns[i], cmd) is Some && forall|k: int|
                    0 <= k < i ==> synapse_in(ns[k], cmd) is None,
        )
    } else {
        None
    }
}

/// The first passthrough neuron.
pub open spec fn shell_neuron(ns: Seq<Neuron>) -> Option<int> {
    if exists|i: int| 0 <= i < ns.len() && ns[i].shell {
        Some(choose|i: int| 0 <= i < ns.len() && ns[i].shell && forall|k: int| 0 <= k < i ==> !ns[k].shell)
    } else {
        None
    }
}

/// What runs the command word `cmd`: built-ins first, then the first
/// synapse with that trigger, then a passthrough neuron's shell.
pub open spec fn target_of(ns: Seq<Neuron>, cmd: Seq<char>) -> ToolTarget {
    if builtin_tool(cmd) {
        ToolTarget::Builtin
    } else {
        match neuron_with_synapse(ns, cmd) {
            Some(i) => ToolTarget::Synapse(i as usize, synapse_in(ns[i], cmd).unwrap() as usize),
            None => match shell_neuron(ns) {
                Some(i) => ToolTarget::Shell(i as usize),
                None => ToolTarget::Unknown,
            },
        }
    }
}

fn find_synapse(n: &Neuron, cmd: &str) -> (r: Option<usize>)
    ensures
        match r {
            Some(j) => synapse_in(*n, cmd@) == Some(j as int) && j < n.synapses@.len(),
            None => synapse_in(*n, cmd@) is None,
        },
{
    let mut j: usize = 0;
    while j < n.synapses.len()
        invariant
            j <= n.synapses@.len(),
            forall|k: int| 0 <= k < j ==> n.synapses@[k].trigger@ != cmd@,
        decreases n.synapses.len() - j,
    {
        if str_eq(n.synapses[j].trigger.as_str(), cmd) {
            proof {
                let c = choose|c: int|
                    0 <= c < n.synapses@.len() && n.synapses@[c].trigger@ == cmd@ && forall|k: int|
                        0 <= k < c ==> n.synapses@[k].trigger@ != cmd@;
                assert(n.synapses@[j as int].trigger@ == cmd@);
                if c < j {
                } else if c > j {
                }
            }
            return Some(j);
        }
        j += 1;
    }
    None
}

/// Decides what runs the command word `cmd`.
pub fn resolve_tool(neurons: &[Neuron], cmd: &str) -> (t: ToolTarget)
    ensures
        t == target_of(neurons@, cmd@),
        t matches ToolTarget::Synapse(i, j) ==> i < neurons@.len() && j < neurons@[i as int].synapses@.len(),
        t matches ToolTarget::Shell(i) ==> i < neurons@.len(),
{
    if crate::tools::is_builtin_tool(cmd) {
        return ToolTarget::Builtin;
    }
    let mut i: usize = 0;
    while i < neurons.len()
        invariant
            i <= neurons@.len(),
            !builtin_tool(cmd@),
            forall|k: int| 0 <= k < i ==> synapse_in(neurons@[k], cmd@) is None,
        decreases neurons.len() - i,
    {
        if let Some(j) = find_synapse(&neurons[i], cmd) {
            proof {
                let ns = neurons@;
                assert(synapse_in(ns[i as int], cmd@) is Some);
                assert(0 <= i < ns.len() && synapse_in(ns[i as int], cmd@) is Some && forall|k: int|
                    0 <= k < i ==> synapse_in(ns[k], cmd@) is None);
                let c = choose|c: int|
                    0 <= c < ns.len() && synapse_in(ns[c], cmd@) is Some && forall|k: int|
                        0 <= k < c ==> synapse_in(ns[k], cmd@) is None;
                if c < i {
                } else if c > i {
                    assert(synapse_in(ns[i as int], cmd@) is Some);
                }
                assert(c == i);
                assert(neuron_with_synapse(ns, cmd@) == Some(i as int));
            }
            return ToolTarget::Synapse(i, j);
        }
        i += 1;
    }
    let mut s: usize = 0;
    while s < neurons.len()
        invariant
            s <= neurons@.len(),
            !builtin_tool(cmd@),
            neuron_with_synapse(neurons@, cmd@) is None,
            forall|k: int| 0 <= k < s ==> !neurons@[k].shell,
        decreases neurons.len() - s,
    {
        if neurons[s].shell {
            proof {
                let ns = neurons@;
                assert(0 <= s < ns.len() && ns[s as int].shell && forall|k: int| 0 <= k < s ==> !ns[k].shell);
                let c = choose|c: int| 0 <= c < ns.len() && ns[c].shell && forall|k: int| 0 <= k < c ==> !ns[k].shell;
                if c < s {
                } else if c > s {
                }
                assert(shell_neuron(ns) == Some(s as int));
            }
            return ToolTarget::Shell(s);
        }
        s += 1;
    }
    ToolTarget::Unknown
}

/// The label the chat shows for a tool call run by `t`.
pub open spec fn label_of(ns: Seq<Neuron>, cmd: Seq<char>, t: ToolTarget) -> Seq<char> {
    match t {
        ToolTarget::Builtin => "built-in › "@ + cmd,
        ToolTarget::Synapse(i, j) => ns[i as int].name@ + " › "@ + ns[i as int].synapses@[j as int].trigger@,
        ToolTarget::Shell(i) => ns[i as int].name@ + " › "@ + cmd,
        ToolTarget::Unknown => cmd,
    }
}

/// The label for a tool call of command word `cmd` run by `t`.
pub fn tool_call_label(neurons: &[Neuron], cmd: &str, t: ToolTarget) -> (r: String)
    requires
        t matches ToolTarget::Synapse(i, j) ==> i < neurons@.len() && j < neurons@[i as int].synapses@.len(),
        t matches ToolTarget::Shell(i) ==> i < neurons@.len(),
    ensures
        r@ == label_of(neurons@, cmd@, t),
{
    let mut v: Vec<char> = Vec::new();
    match t {
        ToolTarget::Builtin => {
            extend_str(&mut v, "built-in › ");
            extend_str(&mut v, cmd);
        },
        ToolTarget::Synapse(i, j) => {
            extend_str(&mut v, neurons[i].name.as_str());
            extend_str(&mut v, " › ");
            extend_str(&mut v, neurons[i].synapses[j].trigger.as_str());
        },
        ToolTarget::Shell(i) => {
            extend_str(&mut v, neurons[i].name.as_str());
            extend_str(&mut v, " › ");
            extend_str(&mut v, cmd);
        },
        ToolTarget::Unknown => {
            extend_str(&mut v, cmd);
        },
    }
    string_from_chars(v.as_slice())
}

/// The command a synapse runs.
pub fn synapse_command(neurons: &[Neuron], i: usize, j: usize) -> (r: String)
    requires
        i < neurons@.len(),
        j < neurons@[i as int].synapses@.len(),
    ensures
        r@ == match neurons@[i as int].synapses@[j as int].kind {
            SynapseKind::Tool { command, .. } => command@,
        },
{
    match &neurons[i].synapses[j].kind {
        SynapseKind::Tool { command, .. } => to_owned(command.as_str()),
    }
}

/// The result of a call to an unknown tool.
pub fn unknown_tool(cmd: &str) -> (r: String)
    ensures
        r@ == "unknown tool: "@ + cmd@,
{
    let mut v: Vec<char> = Vec::new();
    extend_str(&mut v, "unknown tool: ");
    extend_str(&mut v, cmd);
    string_from_chars(v.as_slice())
}

/// What a tool's output adds to the text the model keeps of its reply.
pub fn tool_output_note(call: &str, result: &str) -> (r: String)
    ensures
        r@ == "\n[Tool output for: "@ + call@ + "]\n"@ + result@,
{
    let mut v: Vec<char> = Vec::new();
    extend_str(&mut v, "\n[Tool output for: ");
    extend_str(&mut v, call);
    extend_str(&mut v, "]\n");
    extend_str(&mut v, result);
    string_from_chars(v.as_slice())
}

/// The question asked before a destructive shell command runs.
pub fn destructive_question(call: &str) -> (r: String)
    ensures
        r@ == "Run destructive shell command? `"@ + call@ + "`"@,
{
    let mut v: Vec<char> = Vec::new();
    extend_str(&mut v, "Run destructive shell command? `");
    extend_str(&mut v, call);
    extend_str(&mut v, "`");
    string_from_chars(v.as_slice())
}

/// What an on-demand neuron brings into the conversation, and the text
/// the model reads for it.
pub fn neuron_loaded_texts(name: &str, system_prompt: &str) -> (r: (String, String))
    ensures
        r.0@ == "## Neuron: "@ + name@ + "\n\n"@ + system_prompt@,
        r.1@ == "Neuron loaded:\n"@ + r.0@,
{
    let mut v: Vec<char> = Vec::new();
    extend_str(&mut v, "## Neuron: ");
    extend_str(&mut v, name);
    extend_str(&mut v, "\n\n");
    extend_str(&mut v, system_prompt);
    let content = string_from_chars(v.as_slice());
    let mut w: Vec<char> = Vec::new();
    extend_str(&mut w, "Neuron loaded:\n");
    extend_str(&mut w, content.as_str());
    let llm = string_from_chars(w.as_slice());
    (content, llm)
}

/// The label of an on-demand neuron's entry in the chat.
pub fn neuron_label(name: &str) -> (r: String)
    ensures
        r@ == "Neuron › "@ + name@,
{
    let mut v: Vec<char> = Vec::new();
    extend_str(&mut v, "Neuron › ");
    extend_str(&mut v, name);
    string_from_chars(v.as_slice())
}

// ── running a tool call ───────────────────────────────────────────────────

/// How a tool call runs.
pub enum ToolRun {
    /// The built-in tool `cmd`, on the whole text after the command word.
    Builtin { cmd: String, args: String },
    /// The shell command `command`, with the call's arguments.
    Command { command: String, args: String },
    /// Nothing runs it; this is its output.
    Unknown(String),
}

/// `ToolRun` over plain sequences.
pub enum ToolRunView {
    Builtin(Seq<char>, Seq<char>),
    Command(Seq<char>, Seq<char>),
    Unknown(Seq<char>),
}

/// How a tool call runs, the label of its entry in the chat, and its
/// arguments.
pub struct ToolPlan {
    pub run: ToolRun,
    pub label: String,
    pub args: String,
}

pub struct ToolPlanView {
    pub run: ToolRunView,
    pub label: Seq<char>,
    pub args: Seq<char>,
}

impl ToolPlan {
    pub open spec fn view(&self) -> ToolPlanView {
        ToolPlanView {
            run: match self.run {
                ToolRun::Builtin { cmd, args } => ToolRunView::Builtin(cmd@, args@),
                ToolRun::Command { command, args } => ToolRunView::Command(command@, args@),
                ToolRun::Unknown(r) => ToolRunView::Unknown(r@),
            },
            label: self.label@,
            args: self.args@,
        }
    }
}

/// What the tool call `call` runs: its command word picks the target
/// (`target_of`); a built-in gets the whole text after the command word, a
/// synapse runs its command and the shell the command word, both with the
/// call's arguments; with no target the output says the tool is unknown.
pub open spec fn tool_plan(ns: Seq<Neuron>, call: Seq<char>) -> ToolPlanView {
    let (cmd, args) = crate::tools::tool_call_parts(call);
    let t = target_of(ns, cmd);
    ToolPlanView {
        run: match t {
            ToolTarget::Builtin => ToolRunView::Builtin(cmd, crate::tools::builtin_args(call)),
            ToolTarget::Synapse(i, j) => ToolRunView::Command(
                match ns[i as int].synapses@[j as int].kind {
                    SynapseKind::Tool { command, .. } => command@,
                },
                args,
            ),
            ToolTarget::Shell(_) => ToolRunView::Command(cmd, args),
            ToolTarget::Unknown => ToolRunView::Unknown("unknown tool: "@ + cmd),
        },
        label: label_of(ns, cmd, t),
        args,
    }
}

/// Decides how the tool call `call` runs.
pub fn plan_tool_call(neurons: &[Neuron], call: &str) -> (p: ToolPlan)
    ensures
        p.view() == tool_plan(neurons@, call@),
{
    let (cmd, args) = crate::tools::split_tool_call(call);
    let t = resolve_tool(neurons, cmd.as_str());
    let run = match t {
        ToolTarget::Builtin => ToolRun::Builtin { cmd: to_owned(cmd.as_str()), args: crate::tools::full_tool_args(call) },
        ToolTarget::Synapse(i, j) => ToolRun::Command { command: synapse_command(neurons, i, j), args: to_owned(args.as_str()) },
        ToolTarget::Shell(_) => ToolRun::Command { command: to_owned(cmd.as_str()), args: to_owned(args.as_str()) },
        ToolTarget::Unknown => ToolRun::Unknown(unknown_tool(cmd.as_str())),
    };
    let label = tool_call_label(neurons, cmd.as_str(), t);
    ToolPlan { run, label, args }
}

// ── tool output in the chat ───────────────────────────────────────────────

/// The folded entry that shows a tool's output `result`, labelled `label`,
/// with the file its arguments `args` name.
pub open spec fn tool_output_entry(result: Seq<char>, label: Seq<char>, args: Seq<char>) -> MessageView {
    MessageView {
        attachments: seq![
            AttachmentView {
                filename: crate::tools::tool_result_label(args),
                path: Seq::empty(),
                kind: AttachmentKind::Text,
                size: byte_len(result) as usize,
            },
        ],
        collapsed: true,
        ..plain_message(Role::Tool, crate::tools::tool_display_text(result), Seq::empty(), Some(label))
    }
}

/// What handing the output of the tool call `call` to the model does to
/// the chat `ms`: the reply that made the call (an empty one added first,
/// when the chat does not end with a reply) gets the output note in the
/// text the model reads, and the folded entry follows it.
pub open spec fn tool_result_added(
    ms: Seq<MessageView>,
    call: Seq<char>,
    result: Seq<char>,
    label: Seq<char>,
    args: Seq<char>,
) -> Seq<MessageView> {
    let base = if ms.len() > 0 && ms.last().role == Role::Assistant {
        ms
    } else {
        ms.push(plain_message(Role::Assistant, Seq::empty(), Seq::empty(), None))
    };
    let r = base.last();
    base.drop_last().push(MessageView { llm: r.llm + "\n[Tool output for: "@ + call + "]\n"@ + result, ..r }).push(
        tool_output_entry(result, label, args),
    )
}

/// Gives a tool's output to the model and shows it in the chat.
pub fn push_tool_result(messages: &mut Vec<Message>, call: &str, result: String, label: String, args: &str)
    ensures
        message_views(final(messages)@) == tool_result_added(
            message_views(old(messages)@),
            call@,
            result@,
            label@,
            args@,
        ),
{
    let n = messages.len();
    let owned = n > 0 && messages[n - 1].role == Role::Assistant;
    proof {
        if n > 0 {
            assert(message_views(messages@).last() == messages@[n - 1]@);
        }
    }
    if !owned {
        let e = Message::new(Role::Assistant, String::new(), String::new(), None);
        messages.push(e);
        proof {
            assert(message_views(messages@) =~= message_views(old(messages)@).push(e@));
        }
    }
    let ghost base = message_views(messages@);
    let mut last = messages.pop().unwrap();
    proof {
        assert(message_views(messages@) =~= base.drop_last());
    }
    let note = tool_output_note(call, result.as_str());
    let ghost before = last@;
    last.llm_content.append(note.as_str());
    proof {
        assert(last@.llm =~= before.llm + "\n[Tool output for: "@ + call@ + "]\n"@ + result@);
        assert(last@ == (MessageView { llm: before.llm + "\n[Tool output for: "@ + call@ + "]\n"@ + result@, ..before }));
    }
    messages.push(last);
    let size = result.as_str().len();
    let shown = crate::tools::tool_display(result.as_str());
    let mut m = Message::new(Role::Tool, shown, String::new(), Some(label));
    let a = Attachment { filename: crate::tools::tool_label(args), path: String::new(), kind: AttachmentKind::Text, size };
    m.attachments.push(a);
    m.tool_collapsed = true;
    proof {
        assert(attachment_views(m.attachments@) =~= seq![a@]);
        assert(m@ == tool_output_entry(result@, label@, args@));
    }
    messages.push(m);
    proof {
        assert(message_views(messages@) =~= tool_result_added(
            message_views(old(messages)@),
            call@,
            result@,
            label@,
            args@,
        ));
    }
}

// ── on-demand neurons ─────────────────────────────────────────────────────

/// The folded entry an on-demand neuron `name` brings into the chat: its
/// instructions shown, the model reading them as loaded, and the neuron
/// as the attachment.
pub open spec fn neuron_loaded_entry(name: Seq<char>, system_prompt: Seq<char>) -> MessageView {
    let content = "## Neuron: "@ + name + "\n\n"@ + system_prompt;
    MessageView {
        attachments: seq![
            AttachmentView { filename: name, path: Seq::empty(), kind: AttachmentKind::Text, size: byte_len(content) as usize },
        ],
        collapsed: true,
        ..plain_message(Role::Tool, content, "Neuron loaded:\n"@ + content, Some("Neuron › "@ + name))
    }
}

/// Loads the on-demand neuron `name` into the chat, and notes it as loaded.
pub fn load_neuron(messages: &mut Vec<Message>, injected: &mut Vec<String>, name: &str, system_prompt: &str)
    ensures
        message_views(final(messages)@) == message_views(old(messages)@).push(neuron_loaded_entry(name@, system_prompt@)),
        crate::text::string_views(final(injected)@) == crate::text::string_views(old(injected)@).push(name@),
{
    let (content, llm) = neuron_loaded_texts(name, system_prompt);
    let size = content.as_str().len();
    let mut m = Message::new(Role::Tool, content, llm, Some(neuron_label(name)));
    let a = Attachment { filename: to_owned(name), path: String::new(), kind: AttachmentKind::Text, size };
    m.attachments.push(a);
    m.tool_collapsed = true;
    proof {
        assert(attachment_views(m.attachments@) =~= seq![a@]);
        assert(m@ == neuron_loaded_entry(name@, system_prompt@));
    }
    messages.push(m);
    proof {
        assert(message_views(messages@) =~= message_views(old(messages)@).push(m@));
    }
    let n = to_owned(name);
    injected.push(n);
    proof {
        assert(crate::text::string_views(injected@) =~= crate::text::string_views(old(injected)@).push(name@));
    }
}

} // verus!
