//! What a streamed reply asks for once a chunk has been appended: a tool
//! call, a question, a patch, a mood, a file preview or an on-demand
//! neuron, checked in that order; and how its texts change with it.
use vstd::prelude::*;
use crate::reply::{
    cut_at_tag, cut_display_at, keep_through_tool_close, patch_rendered, preview_removed, remove_preview_tag,
    render_patch, through_tool_close,
};
use crate::tags::{
    ask_request, ask_view, extract_ask_tag, extract_load_neuron_tag, extract_mood_tag, extract_patch_tag,
    extract_preview_tag, extract_tool_call, load_neuron_name, preview_path, scan_text, strip_result, strip_tag, tag_body,
    AskKind, AskSpec,
};
use crate::text::{
    ascii_lower_chars, ascii_lower_str, chars_eq, chars_of, find, find_exec, str_eq, string_views,
    to_owned, trim,
};

verus! {

/// What the reply asks for.
pub enum ReplyEvent {
    /// Keep streaming.
    Continue,
    /// Run this tool call, then continue the reply.
    ToolCall(String),
    /// Ask the user, then continue.
    Ask(AskKind, String),
    /// Show this patch and ask whether to apply it.
    Patch(String),
    /// Load the neuron at this index, then continue the reply.
    LoadNeuron(usize),
}

/// `ReplyEvent` over plain values.
pub enum ReplyEventView {
    Continue,
    ToolCall(Seq<char>),
    Ask(AskSpec),
    Patch(Seq<char>),
    LoadNeuron(usize),
}

/// The reply after a chunk was taken in.
pub struct ReplyScan {
    /// The text shown.
    pub content: String,
    /// The text the model keeps of its reply.
    pub llm: String,
    pub thinking: String,
    /// The mood the reply set, if any.
    pub mood: Option<String>,
    /// The file the reply asked to preview, if any.
    pub preview: Option<String>,
    pub event: ReplyEvent,
}

/// `ReplyScan` over plain values.
pub struct ScanView {
    pub content: Seq<char>,
    pub llm: Seq<char>,
    pub thinking: Seq<char>,
    pub mood: Option<Seq<char>>,
    pub preview: Option<Seq<char>>,
    pub event: ReplyEventView,
}

/// The view of an event.
pub open spec fn event_view(e: ReplyEvent) -> ReplyEventView {
    match e {
        ReplyEvent::Continue => ReplyEventView::Continue,
        ReplyEvent::ToolCall(c) => ReplyEventView::ToolCall(c@),
        ReplyEvent::Ask(k, q) => ReplyEventView::Ask(ask_view(k, q@)),
        ReplyEvent::Patch(d) => ReplyEventView::Patch(d@),
        ReplyEvent::LoadNeuron(i) => ReplyEventView::LoadNeuron(i),
    }
}

/// The view of an optional string.
pub open spec fn opt_seq(o: Option<String>) -> Option<Seq<char>> {
    match o {
        Some(s) => Some(s@),
        None => None,
    }
}

/// The view of a scan.
pub open spec fn scan_view(r: ReplyScan) -> ScanView {
    ScanView {
        content: r.content@,
        llm: r.llm@,
        thinking: r.thinking@,
        mood: opt_seq(r.mood),
        preview: opt_seq(r.preview),
        event: event_view(r.event),
    }
}

/// `s` with the tag `name` removed, or unchanged without one.
pub open spec fn stripped(s: Seq<char>, name: Seq<char>) -> Seq<char> {
    match strip_result(s, name) {
        Some(x) => x,
        None => s,
    }
}

/// The first of `names` equal to `name` ignoring ASCII case.
pub open spec fn neuron_named(names: Seq<Seq<char>>, name: Seq<char>) -> Option<int>
    decreases names.len(),
{
    if names.len() == 0 {
        None
    } else {
        match neuron_named(names.drop_last(), name) {
            Some(i) => Some(i),
            None => if ascii_lower_str(names.last()) == ascii_lower_str(name) { Some(names.len() - 1) } else { None },
        }
    }
}

/// The reply after the mood, preview and neuron tags have been looked at
/// (when it asks for no tool, question or patch): the mood tag is taken
/// from the text, or else from the reasoning; the preview tag leaves the
/// text; a neuron not yet loaded is loaded by name.
pub open spec fn scan_rest(
    content: Seq<char>,
    llm: Seq<char>,
    thinking: Seq<char>,
    injected: Seq<Seq<char>>,
    names: Seq<Seq<char>>,
) -> ScanView {
    let (c1, t1, mood) = match tag_body(content, seq!['m', 'o', 'o', 'd']) {
        Some(b) => (stripped(content, seq!['m', 'o', 'o', 'd']), thinking, Some(trim(b))),
        None => match tag_body(thinking, seq!['m', 'o', 'o', 'd']) {
            Some(b) => (content, stripped(thinking, seq!['m', 'o', 'o', 'd']), Some(trim(b))),
            None => (content, thinking, None),
        },
    };
    let (c2, preview) = match preview_path(c1) {
        Some(p) => (preview_removed(c1), Some(p)),
        None => (c1, None),
    };
    let load = match tag_body(c2, load_neuron_name()) {
        Some(b) => if !injected.contains(trim(b)) {
            neuron_named(names, trim(b))
        } else {
            None
        },
        None => None,
    };
    match load {
        Some(i) => ScanView {
            content: stripped(c2, load_neuron_name()),
            llm,
            thinking: t1,
            mood,
            preview,
            event: ReplyEventView::LoadNeuron(i as usize),
        },
        None => ScanView { content: c2, llm, thinking: t1, mood, preview, event: ReplyEventView::Continue },
    }
}

/// What the reply asks for and how its texts change: a complete tool call
/// cuts the shown text before its tag and the model's text after it; a
/// question cuts the shown text before it; a patch is shown as a diff;
/// otherwise `scan_rest`. `injected` are the neurons loaded so far, `names`
/// those that can be loaded.
pub open spec fn scanned(
    content: Seq<char>,
    llm: Seq<char>,
    thinking: Seq<char>,
    injected: Seq<Seq<char>>,
    names: Seq<Seq<char>>,
) -> ScanView {
    match tag_body(content, seq!['t', 'o', 'o', 'l']) {
        Some(call) => {
            let found = find(scan_text(content), "<tool>"@) is Some;
            ScanView {
                content: cut_at_tag(content, "<tool>"@),
                llm: if found { through_tool_close(llm) } else { llm },
                thinking,
                mood: None,
                preview: None,
                event: ReplyEventView::ToolCall(call),
            }
        },
        None => match ask_request(content) {
            Some(a) => ScanView {
                content: cut_at_tag(content, "<ask"@),
                llm,
                thinking,
                mood: None,
                preview: None,
                event: ReplyEventView::Ask(a),
            },
            None => match tag_body(content, seq!['p', 'a', 't', 'c', 'h']) {
                Some(d) => ScanView {
                    content: patch_rendered(content, d),
                    llm,
                    thinking,
                    mood: None,
                    preview: None,
                    event: ReplyEventView::Patch(d),
                },
                None => scan_rest(content, llm, thinking, injected, names),
            },
        },
    }
}

fn tag_after_think(content: &str, open: &str) -> (b: bool)
    ensures
        b == (find(scan_text(content@), open@) is Some),
{
    let c = chars_of(content);
    let o = chars_of(open);
    let (rest, _) = crate::tags::reasoning_blanked_exec(c.as_slice());
    find_exec(rest.as_slice(), o.as_slice()).is_some()
}

fn names_hold(v: &[String], name: &str) -> (b: bool)
    ensures
        b == string_views(v@).contains(name@),
{
    let mut i: usize = 0;
    while i < v.len()
        invariant
            i <= v@.len(),
            forall|j: int| 0 <= j < i ==> v@[j]@ != name@,
        decreases v.len() - i,
    {
        if str_eq(v[i].as_str(), name) {
            assert(string_views(v@)[i as int] == name@);
            return true;
        }
        i += 1;
    }
    assert(!string_views(v@).contains(name@)) by {
        if string_views(v@).contains(name@) {
            let k = choose|k: int| 0 <= k < string_views(v@).len() && string_views(v@)[k] == name@;
            assert(v@[k]@ == name@);
        }
    }
    false
}

proof fn lemma_neuron_named(names: Seq<Seq<char>>, name: Seq<char>)
    ensures
        match neuron_named(names, name) {
            Some(i) => 0 <= i < names.len() && ascii_lower_str(names[i]) == ascii_lower_str(name) && forall|j: int|
                0 <= j < i ==> ascii_lower_str(names[j]) != ascii_lower_str(name),
            None => forall|j: int| 0 <= j < names.len() ==> ascii_lower_str(names[j]) != ascii_lower_str(name),
        },
    decreases names.len(),
{
    if names.len() > 0 {
        lemma_neuron_named(names.drop_last(), name);
        assert forall|j: int| 0 <= j < names.len() - 1 implies names.drop_last()[j] == names[j] by {}
    }
}

/// The first neuron whose name equals `name` ignoring ASCII case.
pub fn find_neuron(names: &[String], name: &str) -> (r: Option<usize>)
    ensures
        match r {
            Some(i) => neuron_named(string_views(names@), name@) == Some(i as int),
            None => neuron_named(string_views(names@), name@) is None,
        },
{
    let ghost nv = string_views(names@);
    proof {
        lemma_neuron_named(nv, name@);
    }
    let nc = chars_of(name);
    let lname = ascii_lower_chars(nc.as_slice());
    let mut i: usize = 0;
    while i < names.len()
        invariant
            i <= names@.len(),
            nv == string_views(names@),
            lname@ == ascii_lower_str(name@),
            forall|j: int| 0 <= j < i ==> ascii_lower_str(nv[j]) != ascii_lower_str(name@),
            match neuron_named(nv, name@) {
                Some(k) => 0 <= k < nv.len() && ascii_lower_str(nv[k]) == ascii_lower_str(name@) && forall|j: int|
                    0 <= j < k ==> ascii_lower_str(nv[j]) != ascii_lower_str(name@),
                None => forall|j: int| 0 <= j < nv.len() ==> ascii_lower_str(nv[j]) != ascii_lower_str(name@),
            },
        decreases names.len() - i,
    {
        let c = chars_of(names[i].as_str());
        let lc = ascii_lower_chars(c.as_slice());
        assert(nv[i as int] == c@);
        if chars_eq(lc.as_slice(), lname.as_slice()) {
            return Some(i);
        }
        i += 1;
    }
    None
}

fn scan_rest_exec(content: &str, llm: &str, thinking: &str, injected: &[String], names: &[String]) -> (r: ReplyScan)
    ensures
        scan_view(r) == scan_rest(content@, llm@, thinking@, string_views(injected@), string_views(names@)),
{
    let mut c1 = to_owned(content);
    let mut t1 = to_owned(thinking);
    let mood: Option<String> = match extract_mood_tag(content) {
        Some(m) => {
            strip_tag(&mut c1, "mood");
            proof {
                assert("mood"@ =~= seq!['m', 'o', 'o', 'd']) by {
                    reveal_strlit("mood");
                }
            }
            Some(m)
        },
        None => match extract_mood_tag(thinking) {
            Some(m) => {
                strip_tag(&mut t1, "mood");
                proof {
                    assert("mood"@ =~= seq!['m', 'o', 'o', 'd']) by {
                        reveal_strlit("mood");
                    }
                }
                Some(m)
            },
            None => None,
        },
    };
    let (c2, preview) = match extract_preview_tag(c1.as_str()) {
        Some(p) => (remove_preview_tag(c1.as_str()), Some(p)),
        None => (c1, None),
    };
    let load: Option<usize> = match extract_load_neuron_tag(c2.as_str()) {
        Some(b) => {
            if !names_hold(injected, b.as_str()) {
                find_neuron(names, b.as_str())
            } else {
                None
            }
        },
        None => None,
    };
    match load {
        Some(i) => {
            let mut c3 = c2;
            strip_tag(&mut c3, "load_neuron");
            proof {
                assert("load_neuron"@ =~= load_neuron_name()) by {
                    reveal_strlit("load_neuron");
                }
            }
            ReplyScan {
                content: c3,
                llm: to_owned(llm),
                thinking: t1,
                mood,
                preview,
                event: ReplyEvent::LoadNeuron(i),
            }
        },
        None => ReplyScan { content: c2, llm: to_owned(llm), thinking: t1, mood, preview, event: ReplyEvent::Continue },
    }
}

/// Looks at the reply after a chunk was appended: what it asks for and how
/// its shown text, its kept text and its reasoning change. `injected` are
/// the neurons loaded so far, `names` those that can be loaded.
pub fn scan_reply(content: &str, llm: &str, thinking: &str, injected: &[String], names: &[String]) -> (r: ReplyScan)
    ensures
        scan_view(r) == scanned(content@, llm@, thinking@, string_views(injected@), string_views(names@)),
{
    if let Some(call) = extract_tool_call(content) {
        let found = tag_after_think(content, "<tool>");
        let shown = cut_display_at(content, "<tool>");
        let kept = if found {
            keep_through_tool_close(llm)
        } else {
            to_owned(llm)
        };
        return ReplyScan {
            content: shown,
            llm: kept,
            thinking: to_owned(thinking),
            mood: None,
            preview: None,
            event: ReplyEvent::ToolCall(to_owned(call)),
        };
    }
    if let Some((kind, question)) = extract_ask_tag(content) {
        return ReplyScan {
            content: cut_display_at(content, "<ask"),
            llm: to_owned(llm),
            thinking: to_owned(thinking),
            mood: None,
            preview: None,
            event: ReplyEvent::Ask(kind, question),
        };
    }
    if let Some(diff) = extract_patch_tag(content) {
        return ReplyScan {
            content: render_patch(content, diff.as_str()),
            llm: to_owned(llm),
            thinking: to_owned(thinking),
            mood: None,
            preview: None,
            event: ReplyEvent::Patch(diff),
        };
    }
    scan_rest_exec(content, llm, thinking, injected, names)
}

// ── the server's reading of a reply ───────────────────────────────────────

/// What a reply streamed to a WebSocket client asks for.
pub enum ServerReplyEvent {
    Continue,
    ToolCall(String),
    LoadNeuron(usize),
    Ask(AskKind, String),
    Patch(String),
}

/// `ServerReplyEvent` over plain values.
pub enum ServerEventView {
    Continue,
    ToolCall(Seq<char>),
    LoadNeuron(usize),
    Ask(AskSpec),
    Patch(Seq<char>),
}

/// The reply after the server looked at it.
pub struct ServerScan {
    pub content: String,
    pub mood: Option<String>,
    pub preview: Option<String>,
    pub event: ServerReplyEvent,
}

/// `ServerScan` over plain values.
pub struct ServerScanView {
    pub content: Seq<char>,
    pub mood: Option<Seq<char>>,
    pub preview: Option<Seq<char>>,
    pub event: ServerEventView,
}

/// The view of a server scan.
pub open spec fn server_scan_view(r: ServerScan) -> ServerScanView {
    ServerScanView {
        content: r.content@,
        mood: opt_seq(r.mood),
        preview: opt_seq(r.preview),
        event: match r.event {
            ServerReplyEvent::Continue => ServerEventView::Continue,
            ServerReplyEvent::ToolCall(c) => ServerEventView::ToolCall(c@),
            ServerReplyEvent::LoadNeuron(i) => ServerEventView::LoadNeuron(i),
            ServerReplyEvent::Ask(k, q) => ServerEventView::Ask(ask_view(k, q@)),
            ServerReplyEvent::Patch(d) => ServerEventView::Patch(d@),
        },
    }
}

/// What the server (`server`) or the headless runner makes of a reply: a
/// tool call, a neuron to load, a question, a patch, in that order;
/// otherwise the mood tag leaves the text, and on the server the preview
/// tag too. `injected` are the neurons loaded so far, `names` those that
/// can be loaded.
pub open spec fn server_scanned(
    content: Seq<char>,
    injected: Seq<Seq<char>>,
    names: Seq<Seq<char>>,
    server: bool,
) -> ServerScanView {
    let load = match tag_body(content, load_neuron_name()) {
        Some(b) => if !injected.contains(trim(b)) { neuron_named(names, trim(b)) } else { None },
        None => None,
    };
    match tag_body(content, seq!['t', 'o', 'o', 'l']) {
        Some(call) => ServerScanView {
            content: cut_at_tag(content, "<tool>"@),
            mood: None,
            preview: None,
            event: ServerEventView::ToolCall(call),
        },
        None => match load {
            Some(i) => ServerScanView {
                content: stripped(content, load_neuron_name()),
                mood: None,
                preview: None,
                event: ServerEventView::LoadNeuron(i as usize),
            },
            None => match ask_request(content) {
                Some(a) => ServerScanView {
                    content: cut_at_tag(content, "<ask"@),
                    mood: None,
                    preview: None,
                    event: ServerEventView::Ask(a),
                },
                None => match tag_body(content, seq!['p', 'a', 't', 'c', 'h']) {
                    Some(d) => ServerScanView {
                        content: patch_rendered(content, d),
                        mood: None,
                        preview: None,
                        event: ServerEventView::Patch(d),
                    },
                    None => {
                        let (c1, mood) = match tag_body(content, seq!['m', 'o', 'o', 'd']) {
                            Some(b) => (stripped(content, seq!['m', 'o', 'o', 'd']), Some(trim(b))),
                            None => (content, None),
                        };
                        match if server { preview_path(c1) } else { None } {
                            Some(p) => ServerScanView {
                                content: preview_removed(c1),
                                mood,
                                preview: Some(p),
                                event: ServerEventView::Continue,
                            },
                            None => ServerScanView { content: c1, mood, preview: None, event: ServerEventView::Continue },
                        }
                    },
                },
            },
        },
    }
}

/// Looks at a reply as the server streams it to a client (`server`), or
/// as the headless runner prints it.
pub fn server_scan(content: &str, injected: &[String], names: &[String], server: bool) -> (r: ServerScan)
    ensures
        server_scan_view(r) == server_scanned(content@, string_views(injected@), string_views(names@), server),
{
    if let Some(call) = extract_tool_call(content) {
        return ServerScan {
            content: cut_display_at(content, "<tool>"),
            mood: None,
            preview: None,
            event: ServerReplyEvent::ToolCall(to_owned(call)),
        };
    }
    let load: Option<usize> = match extract_load_neuron_tag(content) {
        Some(b) => {
            if !names_hold(injected, b.as_str()) {
                find_neuron(names, b.as_str())
            } else {
                None
            }
        },
        None => None,
    };
    if let Some(i) = load {
        let mut c = to_owned(content);
        strip_tag(&mut c, "load_neuron");
        proof {
            assert("load_neuron"@ =~= load_neuron_name()) by {
                reveal_strlit("load_neuron");
            }
        }
        return ServerScan { content: c, mood: None, preview: None, event: ServerReplyEvent::LoadNeuron(i) };
    }
    if let Some((kind, question)) = extract_ask_tag(content) {
        return ServerScan {
            content: cut_display_at(content, "<ask"),
            mood: None,
            preview: None,
            event: ServerReplyEvent::Ask(kind, question),
        };
    }
    if let Some(diff) = extract_patch_tag(content) {
        return ServerScan {
            content: render_patch(content, diff.as_str()),
            mood: None,
            preview: None,
            event: ServerReplyEvent::Patch(diff),
        };
    }
    let mut c1 = to_owned(content);
    let mood = match extract_mood_tag(content) {
        Some(m) => {
            strip_tag(&mut c1, "mood");
            proof {
                assert("mood"@ =~= seq!['m', 'o', 'o', 'd']) by {
                    reveal_strlit("mood");
                }
            }
            Some(m)
        },
        None => None,
    };
    if !server {
        return ServerScan { content: c1, mood, preview: None, event: ServerReplyEvent::Continue };
    }
    match extract_preview_tag(c1.as_str()) {
        Some(p) => ServerScan {
            content: remove_preview_tag(c1.as_str()),
            mood,
            preview: Some(p),
            event: ServerReplyEvent::Continue,
        },
        None => ServerScan { content: c1, mood, preview: None, event: ServerReplyEvent::Continue },
    }
}

/// The answer the server gives on its own when told to say yes to
/// everything: `Yes` to a yes/no question, the first option of a choice,
/// nothing to a free-text question.
pub open spec fn auto_answer_text(kind: AskSpec) -> Seq<char> {
    match kind {
        AskSpec::Confirm(_) => "Yes"@,
        AskSpec::Choice(opts) => if opts.len() > 0 { opts[0] } else { Seq::empty() },
        AskSpec::Text(_) => Seq::empty(),
    }
}

/// The answer given on its own to a question of kind `kind`.
pub fn auto_answer(kind: &AskKind) -> (r: String)
    ensures
        r@ == auto_answer_text(ask_view(*kind, Seq::empty())),
{
    match kind {
        AskKind::Confirm => to_owned("Yes"),
        AskKind::Choice(opts) => {
            if opts.len() > 0 {
                to_owned(opts[0].as_str())
            } else {
                String::new()
            }
        },
        AskKind::Text => String::new(),
    }
}

/// Whether a client's answer accepts a patch: `Yes`, `yes` or `y`.
pub open spec fn accepts_patch(answer: Option<Seq<char>>) -> bool {
    match answer {
        Some(a) => a == "Yes"@ || a == "yes"@ || a == "y"@,
        None => false,
    }
}

/// Whether the answer a client sent accepts the patch.
pub fn patch_accepted(answer: Option<&str>) -> (b: bool)
    ensures
        b == accepts_patch(
            match answer {
                Some(a) => Some(a@),
                None => None,
            },
        ),
{
    match answer {
        Some(a) => str_eq(a, "Yes") || str_eq(a, "yes") || str_eq(a, "y"),
        None => false,
    }
}

// ── answers typed at the terminal ─────────────────────────────────────────

/// The answer to a yes/no question from a typed line: `Yes` for `y` or
/// `yes` in any case (spaces around ignored), else `No`.
pub open spec fn confirm_text(line: Seq<char>) -> Seq<char> {
    let l = crate::chat::unicode_lowercase(trim(line));
    if l == "y"@ || l == "yes"@ { "Yes"@ } else { "No"@ }
}

/// Reads a typed answer to a yes/no question.
pub fn confirm_answer(line: &str) -> (r: String)
    ensures
        r@ == confirm_text(line@),
{
    let t = crate::text::trim_str(line);
    let l = crate::chat::to_lowercase(t);
    if str_eq(l.as_str(), "y") || str_eq(l.as_str(), "yes") {
        to_owned("Yes")
    } else {
        to_owned("No")
    }
}

/// The option picked by a typed line: its number counted from 1 (1 when the
/// line is not a number), or nothing when no option has that number.
pub open spec fn choice_text(line: Seq<char>, options: Seq<Seq<char>>) -> Seq<char> {
    let n: int = match crate::tools::parsed_usize(trim(line)) {
        Some(n) => n as int,
        None => 1,
    };
    let i = if n >= 1 { n - 1 } else { 0 };
    if i < options.len() { options[i] } else { Seq::empty() }
}

/// Reads a typed choice among `options`.
pub fn choice_answer(line: &str, options: &[String]) -> (r: String)
    ensures
        r@ == choice_text(line@, string_views(options@)),
{
    let t = crate::text::trim_str(line);
    let n: usize = match crate::tools::parse_usize(t) {
        Some(n) => n,
        None => 1,
    };
    let i = if n >= 1 {
        n - 1
    } else {
        0
    };
    if i < options.len() {
        to_owned(options[i].as_str())
    } else {
        String::new()
    }
}

} // verus!
