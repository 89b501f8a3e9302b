//! The client side of a remote session: what each frame the server sends
//! does to the chat, and what the program around it has to do next (take a
//! time, stop or restart its clock, show models, drop the connection).
use vstd::prelude::*;
use crate::message::{
    message_views, plain_message, Attachment, AttachmentKind, AttachmentView, Message, MessageView, Role, TokenStats,
};
use crate::ollama::ModelEntry;
use crate::picker::{entry_views, EntryView, FilePickerEntry};
use crate::room::strip_trailing_slashes;
use crate::screen::StreamState;
use crate::tags::{ask_view, AskKind, AskSpec, InputRequest};
use crate::text::{
    byte_len, chars_of, extend_chars, extend_str, str_eq, string_from_chars, to_owned, trim, trim_end, trim_end_index,
    views, words, words_exec,
};
use crate::turns::bare_name;
use crate::chat::{at_paths, plain_words, split_at_paths};
use crate::meta::join;
use crate::paths::{file_name_of, path_file_name};
use crate::text::string_views;

verus! {

/// A stream state as the specifications see it.
pub enum StreamView {
    Idle,
    Streaming,
    Error(Seq<char>),
}

pub open spec fn stream_view(s: StreamState) -> StreamView {
    match s {
        StreamState::Idle => StreamView::Idle,
        StreamState::Streaming => StreamView::Streaming,
        StreamState::Error(e) => StreamView::Error(e@),
    }
}

pub open spec fn opt_seq(o: Option<String>) -> Option<Seq<char>> {
    match o {
        Some(s) => Some(s@),
        None => None,
    }
}

/// The chat a remote session changes.
pub struct RemoteState {
    pub messages: Vec<Message>,
    /// The question the model asked, if any.
    pub ask: Option<InputRequest>,
    /// The patch waiting for the user's answer.
    pub pending_patch: Option<String>,
    /// Another participant's reply as it streams: (who, text so far).
    pub room_live: Option<(String, String)>,
    pub mood: Option<String>,
    pub stream: StreamState,
    /// A directory listing for the file picker: (directory, entries).
    pub listing: Option<(String, Vec<FilePickerEntry>)>,
    /// The label a fresh reply carries (the model's identity).
    pub reply_label: Option<String>,
}

/// `RemoteState` over plain values.
pub struct RemoteView {
    pub messages: Seq<MessageView>,
    pub ask: Option<(Seq<char>, AskSpec)>,
    pub pending_patch: Option<Seq<char>>,
    pub room_live: Option<(Seq<char>, Seq<char>)>,
    pub mood: Option<Seq<char>>,
    pub stream: StreamView,
    pub listing: Option<(Seq<char>, Seq<EntryView>)>,
    pub reply_label: Option<Seq<char>>,
}

impl View for RemoteState {
    type V = RemoteView;

    open spec fn view(&self) -> RemoteView {
        RemoteView {
            messages: message_views(self.messages@),
            ask: match self.ask {
                Some(r) => Some((r.question@, ask_view(r.kind, r.question@))),
                None => None,
            },
            pending_patch: opt_seq(self.pending_patch),
            room_live: match self.room_live {
                Some((u, t)) => Some((u@, t@)),
                None => None,
            },
            mood: opt_seq(self.mood),
            stream: stream_view(self.stream),
            listing: match self.listing {
                Some((d, es)) => Some((d@, entry_views(es@))),
                None => None,
            },
            reply_label: opt_seq(self.reply_label),
        }
    }
}

impl RemoteState {
    /// No question is pending while a reply streams.
    pub open spec fn wf(&self) -> bool {
        self.stream is Streaming ==> self.ask is None
    }

    /// Whether the state is well-formed.
    pub fn ready(&self) -> (b: bool)
        ensures
            b == self.wf(),
    {
        match self.stream {
            StreamState::Streaming => self.ask.is_none(),
            _ => true,
        }
    }
}

/// What the server of a remote session sent (the reply's rate, a float,
/// stays with the caller).
pub enum ClientFrame {
    Models(Vec<ModelEntry>),
    Connected { model: String, room_id: String, session_id: String, username: String, user_session_id: String },
    WarmupStart,
    WarmupDone,
    Token(String),
    ThinkingStart,
    Thinking(String),
    ThinkingEnd,
    Tool { command: String, label: String, result: String },
    LoadNeuron(String),
    Ask { kind: String, question: String, options: Vec<String> },
    Patch(String),
    Mood(String),
    RoomUpdate(Vec<Message>),
    RoomToken { user: String, content: String },
    FilePreview { path: String, content: String },
    LsResult { path: String, entries: Vec<(String, bool)> },
    Done { tokens: u64, prompt_eval: u64 },
    Error(String),
    Disconnected,
    Unknown,
}

/// `ClientFrame` over plain values.
pub enum FrameView {
    Models(Seq<ModelEntry>),
    Connected { model: Seq<char>, room_id: Seq<char>, session_id: Seq<char>, username: Seq<char>, user_session_id: Seq<char> },
    WarmupStart,
    WarmupDone,
    Token(Seq<char>),
    ThinkingStart,
    Thinking(Seq<char>),
    ThinkingEnd,
    Tool { command: Seq<char>, label: Seq<char>, result: Seq<char> },
    LoadNeuron(Seq<char>),
    Ask { kind: Seq<char>, question: Seq<char>, options: Seq<Seq<char>> },
    Patch(Seq<char>),
    Mood(Seq<char>),
    RoomUpdate(Seq<MessageView>),
    RoomToken { user: Seq<char>, content: Seq<char> },
    FilePreview { path: Seq<char>, content: Seq<char> },
    LsResult { path: Seq<char>, entries: Seq<(Seq<char>, bool)> },
    Done { tokens: u64, prompt_eval: u64 },
    Error(Seq<char>),
    Disconnected,
    Unknown,
}

impl View for ClientFrame {
    type V = FrameView;

    open spec fn view(&self) -> FrameView {
        match self {
            ClientFrame::Models(es) => FrameView::Models(es@),
            ClientFrame::Connected { model, room_id, session_id, username, user_session_id } => FrameView::Connected {
                model: model@,
                room_id: room_id@,
                session_id: session_id@,
                username: username@,
                user_session_id: user_session_id@,
            },
            ClientFrame::WarmupStart => FrameView::WarmupStart,
            ClientFrame::WarmupDone => FrameView::WarmupDone,
            ClientFrame::Token(s) => FrameView::Token(s@),
            ClientFrame::ThinkingStart => FrameView::ThinkingStart,
            ClientFrame::Thinking(s) => FrameView::Thinking(s@),
            ClientFrame::ThinkingEnd => FrameView::ThinkingEnd,
            ClientFrame::Tool { command, label, result } => FrameView::Tool {
                command: command@,
                label: label@,
                result: result@,
            },
            ClientFrame::LoadNeuron(n) => FrameView::LoadNeuron(n@),
            ClientFrame::Ask { kind, question, options } => FrameView::Ask {
                kind: kind@,
                question: question@,
                options: options@.map_values(|o: String| o@),
            },
            ClientFrame::Patch(d) => FrameView::Patch(d@),
            ClientFrame::Mood(m) => FrameView::Mood(m@),
            ClientFrame::RoomUpdate(ms) => FrameView::RoomUpdate(message_views(ms@)),
            ClientFrame::RoomToken { user, content } => FrameView::RoomToken { user: user@, content: content@ },
            ClientFrame::FilePreview { path, content } => FrameView::FilePreview { path: path@, content: content@ },
            ClientFrame::LsResult { path, entries } => FrameView::LsResult {
                path: path@,
                entries: entries@.map_values(|e: (String, bool)| (e.0@, e.1)),
            },
            ClientFrame::Done { tokens, prompt_eval } => FrameView::Done { tokens: *tokens, prompt_eval: *prompt_eval },
            ClientFrame::Error(e) => FrameView::Error(e@),
            ClientFrame::Disconnected => FrameView::Disconnected,
            ClientFrame::Unknown => FrameView::Unknown,
        }
    }
}

/// The identities a `connected` frame hands over; each is `None` when the
/// server left it empty.
pub struct Identity {
    pub model: String,
    pub room_id: Option<String>,
    pub session_id: Option<String>,
    pub user_session_id: Option<String>,
    /// The user's name without its `#id` suffix.
    pub username: Option<String>,
}

pub struct IdentityView {
    pub model: Seq<char>,
    pub room_id: Option<Seq<char>>,
    pub session_id: Option<Seq<char>>,
    pub user_session_id: Option<Seq<char>>,
    pub username: Option<Seq<char>>,
}

/// What the caller does after a frame.
pub struct FrameFollowUp {
    /// Record how long the model reasoned into the message at this index.
    pub stamp_reply: Option<usize>,
    /// The reasoning just ended: note the time, unless already noted.
    pub mark_thinking_end: bool,
    /// A fresh reply started: restart the reply clock.
    pub restart_clock: bool,
    /// The reply stopped: stop the reply clock.
    pub stop_clock: bool,
    /// Fill in the rate and timings of the stats of the message at this index.
    pub time_stats: Option<usize>,
    pub scroll_to_end: bool,
    pub reset_ask_cursor: bool,
    /// The connection is gone.
    pub disconnect: bool,
    /// The server's warm-up started (`true`) or ended.
    pub warmup: Option<bool>,
    /// Show these models to pick from.
    pub models: Option<Vec<ModelEntry>>,
    pub identity: Option<Identity>,
    /// Show this file (path, content) in the panel.
    pub preview: Option<(String, String)>,
}

pub struct FollowUpView {
    pub stamp_reply: Option<usize>,
    pub mark_thinking_end: bool,
    pub restart_clock: bool,
    pub stop_clock: bool,
    pub time_stats: Option<usize>,
    pub scroll_to_end: bool,
    pub reset_ask_cursor: bool,
    pub disconnect: bool,
    pub warmup: Option<bool>,
    pub models: Option<Seq<ModelEntry>>,
    pub identity: Option<IdentityView>,
    pub preview: Option<(Seq<char>, Seq<char>)>,
}

impl View for FrameFollowUp {
    type V = FollowUpView;

    open spec fn view(&self) -> FollowUpView {
        FollowUpView {
            stamp_reply: self.stamp_reply,
            mark_thinking_end: self.mark_thinking_end,
            restart_clock: self.restart_clock,
            stop_clock: self.stop_clock,
            time_stats: self.time_stats,
            scroll_to_end: self.scroll_to_end,
            reset_ask_cursor: self.reset_ask_cursor,
            disconnect: self.disconnect,
            warmup: self.warmup,
            models: match self.models {
                Some(m) => Some(m@),
                None => None,
            },
            identity: match self.identity {
                Some(i) => Some(
                    IdentityView {
                        model: i.model@,
                        room_id: opt_seq(i.room_id),
                        session_id: opt_seq(i.session_id),
                        user_session_id: opt_seq(i.user_session_id),
                        username: opt_seq(i.username),
                    },
                ),
                None => None,
            },
            preview: match self.preview {
                Some((p, c)) => Some((p@, c@)),
                None => None,
            },
        }
    }
}

// ── what a frame does ─────────────────────────────────────────────────────

/// Nothing to do.
pub open spec fn quiet() -> FollowUpView {
    FollowUpView {
        stamp_reply: None,
        mark_thinking_end: false,
        restart_clock: false,
        stop_clock: false,
        time_stats: None,
        scroll_to_end: false,
        reset_ask_cursor: false,
        disconnect: false,
        warmup: None,
        models: None,
        identity: None,
        preview: None,
    }
}

/// The chat ends with a reply of the model.
pub open spec fn is_reply(ms: Seq<MessageView>) -> bool {
    ms.len() > 0 && ms.last().role == Role::Assistant
}

/// `ms` with its last message replaced by `m`.
pub open spec fn with_last(ms: Seq<MessageView>, m: MessageView) -> Seq<MessageView> {
    ms.drop_last().push(m)
}

/// The index of the reply to stamp, when the chat ends with one.
pub open spec fn reply_index(ms: Seq<MessageView>) -> Option<usize> {
    if is_reply(ms) {
        Some((ms.len() - 1) as usize)
    } else {
        None
    }
}

/// An empty reply of the model carrying `label`.
pub open spec fn fresh_reply(label: Option<Seq<char>>) -> MessageView {
    plain_message(Role::Assistant, Seq::empty(), Seq::empty(), label)
}

/// The second word of a command (what it acts on), or `.`.
pub open spec fn second_word(s: Seq<char>) -> Seq<char> {
    if words(s).len() > 1 {
        words(s)[1]
    } else {
        "."@
    }
}

/// The folded entry showing a tool's output.
pub open spec fn tool_entry(command: Seq<char>, label: Seq<char>, result: Seq<char>) -> MessageView {
    MessageView {
        role: Role::Tool,
        content: result,
        llm: Seq::empty(),
        images: Seq::empty(),
        attachments: seq![
            AttachmentView {
                filename: second_word(command),
                path: Seq::empty(),
                kind: AttachmentKind::Text,
                size: byte_len(result) as usize,
            },
        ],
        thinking: Seq::empty(),
        thinking_ms: None,
        stats: None,
        label: Some(
            if label.len() == 0 {
                command
            } else {
                label
            },
        ),
        collapsed: true,
    }
}

/// The entry marking a neuron the server loaded.
pub open spec fn neuron_entry(name: Seq<char>) -> MessageView {
    MessageView {
        attachments: seq![AttachmentView { filename: name, path: Seq::empty(), kind: AttachmentKind::Text, size: 0 }],
        ..plain_message(Role::Tool, Seq::empty(), Seq::empty(), Some("Neuron › "@ + name))
    }
}

/// The question a frame asks: yes/no for `confirm`, a choice among
/// `options` for `choice`, free text otherwise.
pub open spec fn ask_of(kind: Seq<char>, question: Seq<char>, options: Seq<Seq<char>>) -> (Seq<char>, AskSpec) {
    (
        question,
        if kind == "confirm"@ {
            AskSpec::Confirm(question)
        } else if kind == "choice"@ {
            AskSpec::Choice(options)
        } else {
            AskSpec::Text(question)
        },
    )
}

/// The reply text with a patch appended as a diff block.
pub open spec fn with_patch(content: Seq<char>, diff: Seq<char>) -> Seq<char> {
    (if content.len() > 0 {
        content + "\n"@
    } else {
        content
    }) + "```diff\n"@ + trim(diff) + "\n```"@
}

/// The live reply after a token of `user`: appended when the same user
/// streams, else started afresh.
pub open spec fn live_after(live: Option<(Seq<char>, Seq<char>)>, user: Seq<char>, content: Seq<char>) -> Option<(Seq<char>, Seq<char>)> {
    match live {
        Some((u, t)) => if u == user {
            Some((u, t + content))
        } else {
            Some((user, content))
        },
        None => Some((user, content)),
    }
}

/// The listing is of the working directory itself.
pub open spec fn at_top(path: Seq<char>) -> bool {
    path.len() == 0 || path == "."@
}

/// What is prefixed to the names of a listing of `path`.
pub open spec fn listing_base(path: Seq<char>) -> Seq<char> {
    if at_top(path) {
        Seq::empty()
    } else {
        strip_trailing_slashes(path) + "/"@
    }
}

/// Hidden names (starting with `.`) are not listed.
pub open spec fn hidden(name: Seq<char>) -> bool {
    name.len() > 0 && name[0] == '.'
}

/// The entries for the names of a server listing, in its order.
pub open spec fn listed(base: Seq<char>, es: Seq<(Seq<char>, bool)>) -> Seq<EntryView>
    decreases es.len(),
{
    if es.len() == 0 {
        seq![]
    } else {
        let (name, is_dir) = es.last();
        listed(base, es.drop_last()) + if hidden(name) {
            seq![]
        } else if is_dir {
            seq![EntryView::Dir(base + name)]
        } else {
            seq![EntryView::File(base + name)]
        }
    }
}

/// The file picker's listing for a server listing of `path`: the parent
/// (below the top), then the visible entries, with their paths from the
/// top.
pub open spec fn remote_listing(path: Seq<char>, es: Seq<(Seq<char>, bool)>) -> Seq<EntryView> {
    (if at_top(path) {
        seq![]
    } else {
        seq![EntryView::Parent]
    }) + listed(listing_base(path), es)
}

pub open spec fn nonempty(s: Seq<char>) -> Option<Seq<char>> {
    if s.len() > 0 {
        Some(s)
    } else {
        None
    }
}

/// What a frame does to the chat, and what the caller does next.
pub open spec fn frame_step(st: RemoteView, f: FrameView) -> (RemoteView, FollowUpView) {
    let ms = st.messages;
    let q = quiet();
    match f {
        FrameView::Models(es) => (st, FollowUpView { models: Some(es), ..q }),
        FrameView::Connected { model, room_id, session_id, username, user_session_id } => (
            RemoteView {
                stream: if st.stream is Streaming {
                    StreamView::Idle
                } else {
                    st.stream
                },
                ..st
            },
            FollowUpView {
                identity: Some(
                    IdentityView {
                        model,
                        room_id: nonempty(room_id),
                        session_id: nonempty(session_id),
                        user_session_id: nonempty(user_session_id),
                        username: if username.len() > 0 {
                            Some(bare_name(username))
                        } else {
                            None
                        },
                    },
                ),
                ..q
            },
        ),
        FrameView::WarmupStart => (st, FollowUpView { warmup: Some(true), ..q }),
        FrameView::WarmupDone => (st, FollowUpView { warmup: Some(false), ..q }),
        FrameView::ThinkingStart => (st, q),
        FrameView::Unknown => (st, q),
        FrameView::Token(s) => if is_reply(ms) {
            let l = ms.last();
            (
                RemoteView { messages: with_last(ms, MessageView { content: l.content + s, llm: l.llm + s, ..l }), ..st },
                FollowUpView {
                    mark_thinking_end: s.len() > 0 && l.content.len() == 0 && l.thinking.len() > 0,
                    ..q
                },
            )
        } else {
            (st, q)
        },
        FrameView::Thinking(s) => if is_reply(ms) {
            let l = ms.last();
            (RemoteView { messages: with_last(ms, MessageView { thinking: l.thinking + s, ..l }), ..st }, q)
        } else {
            (st, q)
        },
        FrameView::ThinkingEnd => (st, FollowUpView { mark_thinking_end: true, ..q }),
        FrameView::Tool { command, label, result } => {
            let ms1 = if is_reply(ms) {
                with_last(
                    ms,
                    MessageView {
                        llm: ms.last().llm + "\n[Tool output for: "@ + command + "]\n"@ + result,
                        ..ms.last()
                    },
                )
            } else {
                ms
            };
            (
                RemoteView {
                    messages: ms1.push(tool_entry(command, label, result)).push(fresh_reply(st.reply_label)),
                    ..st
                },
                FollowUpView { stamp_reply: reply_index(ms), restart_clock: true, scroll_to_end: true, ..q },
            )
        },
        FrameView::LoadNeuron(name) => (
            RemoteView { messages: ms.push(neuron_entry(name)).push(fresh_reply(st.reply_label)), ..st },
            FollowUpView { stamp_reply: reply_index(ms), restart_clock: true, scroll_to_end: true, ..q },
        ),
        FrameView::Ask { kind, question, options } => (
            RemoteView {
                messages: if is_reply(ms) {
                    with_last(ms, MessageView { content: trim_end(ms.last().content), ..ms.last() })
                } else {
                    ms
                },
                ask: Some(ask_of(kind, question, options)),
                stream: StreamView::Idle,
                ..st
            },
            FollowUpView { stamp_reply: reply_index(ms), stop_clock: true, reset_ask_cursor: true, ..q },
        ),
        FrameView::Patch(diff) => (
            RemoteView {
                messages: if is_reply(ms) {
                    with_last(ms, MessageView { content: with_patch(ms.last().content, diff), ..ms.last() })
                } else {
                    ms
                },
                pending_patch: Some(diff),
                ask: Some(("Apply this patch?"@, AskSpec::Confirm("Apply this patch?"@))),
                stream: StreamView::Idle,
                ..st
            },
            FollowUpView { stamp_reply: reply_index(ms), stop_clock: true, reset_ask_cursor: true, ..q },
        ),
        FrameView::Mood(m) => (RemoteView { mood: Some(m), ..st }, q),
        FrameView::RoomUpdate(new) => (
            RemoteView { messages: ms + new, room_live: None, ..st },
            FollowUpView { scroll_to_end: true, ..q },
        ),
        FrameView::RoomToken { user, content } => (
            RemoteView { room_live: live_after(st.room_live, user, content), ..st },
            FollowUpView { scroll_to_end: true, ..q },
        ),
        FrameView::FilePreview { path, content } => (st, FollowUpView { preview: Some((path, content)), ..q }),
        FrameView::LsResult { path, entries } => (
            RemoteView { listing: Some((path, remote_listing(path, entries))), ..st },
            q,
        ),
        FrameView::Done { tokens, prompt_eval } => (
            RemoteView {
                messages: if is_reply(ms) {
                    with_last(
                        ms,
                        MessageView {
                            stats: Some(
                                TokenStats {
                                    response_tokens: tokens,
                                    prompt_eval_count: prompt_eval,
                                    tps_tenths: 0,
                                    thinking_ms: None,
                                    wall_ms: 0,
                                },
                            ),
                            ..ms.last()
                        },
                    )
                } else {
                    ms
                },
                stream: StreamView::Idle,
                ..st
            },
            FollowUpView { time_stats: reply_index(ms), stop_clock: true, ..q },
        ),
        FrameView::Error(e) => (RemoteView { stream: StreamView::Error(e), ..st }, FollowUpView { stop_clock: true, ..q }),
        FrameView::Disconnected => (
            RemoteView { stream: StreamView::Error("Remote server disconnected"@), ..st },
            FollowUpView { disconnect: true, ..q },
        ),
    }
}

// ── doing it ──────────────────────────────────────────────────────────────

fn no_follow_up() -> (a: FrameFollowUp)
    ensures
        a@ == quiet(),
{
    FrameFollowUp {
        stamp_reply: None,
        mark_thinking_end: false,
        restart_clock: false,
        stop_clock: false,
        time_stats: None,
        scroll_to_end: false,
        reset_ask_cursor: false,
        disconnect: false,
        warmup: None,
        models: None,
        identity: None,
        preview: None,
    }
}

fn copy_opt(o: &Option<String>) -> (r: Option<String>)
    ensures
        opt_seq(r) == opt_seq(*o),
{
    match o {
        Some(s) => Some(to_owned(s.as_str())),
        None => None,
    }
}

fn nonempty_exec(s: String) -> (r: Option<String>)
    ensures
        opt_seq(r) == nonempty(s@),
{
    if s.as_str().is_empty() {
        None
    } else {
        Some(s)
    }
}

fn ends_in_reply(st: &RemoteState) -> (b: bool)
    ensures
        b == is_reply(st@.messages),
{
    let n = st.messages.len();
    if n == 0 {
        false
    } else {
        proof {
            assert(st@.messages.last() == st.messages@[n - 1]@);
        }
        st.messages[n - 1].role == Role::Assistant
    }
}

/// Pops the last message (the chat ends with one).
fn pop_last(st: &mut RemoteState) -> (m: Message)
    requires
        old(st).messages@.len() > 0,
    ensures
        m@ == old(st)@.messages.last(),
        final(st)@ == (RemoteView { messages: old(st)@.messages.drop_last(), ..old(st)@ }),
        final(st).stream == old(st).stream,
        final(st).ask == old(st).ask,
{
    let m = st.messages.pop().unwrap();
    proof {
        assert(message_views(st.messages@) =~= message_views(old(st).messages@).drop_last());
    }
    m
}

fn push_message(st: &mut RemoteState, m: Message)
    ensures
        final(st)@ == (RemoteView { messages: old(st)@.messages.push(m@), ..old(st)@ }),
        final(st).stream == old(st).stream,
        final(st).ask == old(st).ask,
{
    st.messages.push(m);
    proof {
        assert(message_views(st.messages@) =~= message_views(old(st).messages@).push(m@));
    }
}

fn fresh_reply_exec(st: &RemoteState) -> (m: Message)
    ensures
        m@ == fresh_reply(st@.reply_label),
{
    Message::new(Role::Assistant, String::new(), String::new(), copy_opt(&st.reply_label))
}

fn second_word_exec(s: &str) -> (r: String)
    ensures
        r@ == second_word(s@),
{
    let cs = chars_of(s);
    let ws = words_exec(cs.as_slice());
    if ws.len() > 1 {
        proof {
            assert(views(ws@)[1] == ws@[1]@);
        }
        string_from_chars(ws[1].as_slice())
    } else {
        to_owned(".")
    }
}

fn tool_entry_exec(command: &str, label: String, result: String) -> (m: Message)
    ensures
        m@ == tool_entry(command@, label@, result@),
{
    let size = result.as_str().len();
    let shown = if label.as_str().is_empty() {
        to_owned(command)
    } else {
        label
    };
    let mut m = Message::new(Role::Tool, result, String::new(), Some(shown));
    let a = Attachment { filename: second_word_exec(command), path: String::new(), kind: AttachmentKind::Text, size };
    m.attachments.push(a);
    m.tool_collapsed = true;
    proof {
        assert(crate::message::attachment_views(m.attachments@) =~= seq![a@]);
    }
    m
}

fn neuron_entry_exec(name: String) -> (m: Message)
    ensures
        m@ == neuron_entry(name@),
{
    let label = crate::dispatch::neuron_label(name.as_str());
    let mut m = Message::new(Role::Tool, String::new(), String::new(), Some(label));
    let a = Attachment { filename: name, path: String::new(), kind: AttachmentKind::Text, size: 0 };
    m.attachments.push(a);
    proof {
        assert(crate::message::attachment_views(m.attachments@) =~= seq![a@]);
    }
    m
}

fn patch_text(content: &str, diff: &str) -> (r: String)
    ensures
        r@ == with_patch(content@, diff@),
{
    let mut v = chars_of(content);
    proof {
        reveal_strlit("\n");
    }
    if v.len() > 0 {
        v.push('\n');
    }
    extend_str(&mut v, "```diff\n");
    extend_str(&mut v, crate::text::trim_str(diff));
    extend_str(&mut v, "\n```");
    string_from_chars(v.as_slice())
}

fn trimmed_end(s: &str) -> (r: String)
    ensures
        r@ == trim_end(s@),
{
    let cs = chars_of(s);
    let j = trim_end_index(cs.as_slice(), cs.len());
    assert(cs@.take(cs@.len() as int) =~= cs@);
    string_from_chars(&cs.as_slice()[0..j])
}

fn base_exec(path: &str) -> (r: Vec<char>)
    ensures
        r@ == listing_base(path@),
{
    let cs = chars_of(path);
    if cs.len() == 0 || str_eq(path, ".") {
        return Vec::new();
    }
    let mut n = cs.len();
    assert(cs@.take(n as int) =~= cs@);
    while n > 0 && cs[n - 1] == '/'
        invariant
            n <= cs@.len(),
            strip_trailing_slashes(cs@.take(n as int)) == strip_trailing_slashes(cs@),
        decreases n,
    {
        assert(cs@.take(n as int).drop_last() =~= cs@.take(n - 1));
        n = n - 1;
    }
    assert(cs@.take(cs@.len() as int) =~= cs@);
    let mut v: Vec<char> = Vec::new();
    extend_chars(&mut v, &cs.as_slice()[0..n]);
    v.push('/');
    proof {
        reveal_strlit("/");
        assert(v@ =~= cs@.take(n as int) + "/"@);
        assert(cs@.take(n as int) =~= cs@.subrange(0, n as int));
        assert(strip_trailing_slashes(cs@.take(n as int)) == cs@.take(n as int));
    }
    v
}

fn listing_exec(path: &str, entries: &Vec<(String, bool)>) -> (r: Vec<FilePickerEntry>)
    ensures
        entry_views(r@) == remote_listing(path@, entries@.map_values(|e: (String, bool)| (e.0@, e.1))),
{
    let ghost es = entries@.map_values(|e: (String, bool)| (e.0@, e.1));
    let base = base_exec(path);
    let mut out: Vec<FilePickerEntry> = Vec::new();
    if !(path.is_empty() || str_eq(path, ".")) {
        out.push(FilePickerEntry::Parent);
    }
    let ghost head = entry_views(out@);
    assert(head == if at_top(path@) { seq![] } else { seq![EntryView::Parent] });
    let mut i: usize = 0;
    while i < entries.len()
        invariant
            i <= entries@.len(),
            es == entries@.map_values(|e: (String, bool)| (e.0@, e.1)),
            base@ == listing_base(path@),
            entry_views(out@) == head + listed(base@, es.take(i as int)),
        decreases entries.len() - i,
    {
        let name = &entries[i].0;
        let is_dir = entries[i].1;
        let nc = chars_of(name.as_str());
        proof {
            assert(es.take(i + 1).drop_last() =~= es.take(i as int));
            assert(es.take(i + 1).last() == (name@, is_dir));
        }
        if !(nc.len() > 0 && nc[0] == '.') {
            let mut full = base.clone();
            extend_chars(&mut full, nc.as_slice());
            let s = string_from_chars(full.as_slice());
            let e = if is_dir {
                FilePickerEntry::Dir(s)
            } else {
                FilePickerEntry::File(s)
            };
            let ghost before = out@;
            let ghost ev = e.view();
            out.push(e);
            proof {
                assert(entry_views(out@) =~= entry_views(before).push(ev));
            }
        }
        assert(entry_views(out@) =~= head + listed(base@, es.take(i + 1)));
        i += 1;
    }
    assert(es.take(entries@.len() as int) =~= es);
    out
}

fn step_token(st: &mut RemoteState, s: String, thinking: bool) -> (a: FrameFollowUp)
    requires
        old(st).wf(),
    ensures
        final(st).wf(),
        (final(st)@, a@) == frame_step(old(st)@, if thinking { FrameView::Thinking(s@) } else { FrameView::Token(s@) }),
{
    let mut a = no_follow_up();
    if ends_in_reply(st) {
        let mut m = pop_last(st);
        if thinking {
            m.thinking.append(s.as_str());
        } else {
            a.mark_thinking_end = !s.as_str().is_empty() && m.content.as_str().is_empty() && !m.thinking.as_str().is_empty();
            m.content.append(s.as_str());
            m.llm_content.append(s.as_str());
        }
        push_message(st, m);
    }
    a
}

fn step_tool(st: &mut RemoteState, command: String, label: String, result: String) -> (a: FrameFollowUp)
    requires
        old(st).wf(),
    ensures
        final(st).wf(),
        (final(st)@, a@) == frame_step(old(st)@, FrameView::Tool { command: command@, label: label@, result: result@ }),
{
    let mut a = no_follow_up();
    if ends_in_reply(st) {
        a.stamp_reply = Some(st.messages.len() - 1);
        let mut m = pop_last(st);
        let note = crate::dispatch::tool_output_note(command.as_str(), result.as_str());
        let ghost l = m@;
        m.llm_content.append(note.as_str());
        proof {
            assert(m.llm_content@ =~= l.llm + "\n[Tool output for: "@ + command@ + "]\n"@ + result@);
        }
        push_message(st, m);
    }
    let t = tool_entry_exec(command.as_str(), label, result);
    push_message(st, t);
    let r = fresh_reply_exec(st);
    push_message(st, r);
    a.restart_clock = true;
    a.scroll_to_end = true;
    a
}

fn step_neuron(st: &mut RemoteState, name: String) -> (a: FrameFollowUp)
    requires
        old(st).wf(),
    ensures
        final(st).wf(),
        (final(st)@, a@) == frame_step(old(st)@, FrameView::LoadNeuron(name@)),
{
    let mut a = no_follow_up();
    if ends_in_reply(st) {
        a.stamp_reply = Some(st.messages.len() - 1);
    }
    let t = neuron_entry_exec(name);
    push_message(st, t);
    let r = fresh_reply_exec(st);
    push_message(st, r);
    a.restart_clock = true;
    a.scroll_to_end = true;
    a
}

fn step_ask(st: &mut RemoteState, kind: String, question: String, options: Vec<String>) -> (a: FrameFollowUp)
    ensures
        final(st).wf(),
        (final(st)@, a@) == frame_step(
            old(st)@,
            FrameView::Ask { kind: kind@, question: question@, options: options@.map_values(|o: String| o@) },
        ),
{
    let mut a = no_follow_up();
    if ends_in_reply(st) {
        a.stamp_reply = Some(st.messages.len() - 1);
        let mut m = pop_last(st);
        m.content = trimmed_end(m.content.as_str());
        push_message(st, m);
    }
    let k = if str_eq(kind.as_str(), "confirm") {
        AskKind::Confirm
    } else if str_eq(kind.as_str(), "choice") {
        AskKind::Choice(options)
    } else {
        AskKind::Text
    };
    st.ask = Some(InputRequest { question, kind: k });
    st.stream = StreamState::Idle;
    a.stop_clock = true;
    a.reset_ask_cursor = true;
    a
}

fn step_patch(st: &mut RemoteState, diff: String) -> (a: FrameFollowUp)
    ensures
        final(st).wf(),
        (final(st)@, a@) == frame_step(old(st)@, FrameView::Patch(diff@)),
{
    let mut a = no_follow_up();
    if ends_in_reply(st) {
        a.stamp_reply = Some(st.messages.len() - 1);
        let mut m = pop_last(st);
        m.content = patch_text(m.content.as_str(), diff.as_str());
        push_message(st, m);
    }
    st.pending_patch = Some(diff);
    let q = to_owned("Apply this patch?");
    st.ask = Some(InputRequest { question: q, kind: AskKind::Confirm });
    st.stream = StreamState::Idle;
    a.stop_clock = true;
    a.reset_ask_cursor = true;
    a
}

fn step_done(st: &mut RemoteState, tokens: u64, prompt_eval: u64) -> (a: FrameFollowUp)
    ensures
        final(st).wf(),
        (final(st)@, a@) == frame_step(old(st)@, FrameView::Done { tokens, prompt_eval }),
{
    let mut a = no_follow_up();
    if ends_in_reply(st) {
        a.time_stats = Some(st.messages.len() - 1);
        let mut m = pop_last(st);
        m.stats = Some(
            TokenStats { response_tokens: tokens, prompt_eval_count: prompt_eval, tps_tenths: 0, thinking_ms: None, wall_ms: 0 },
        );
        push_message(st, m);
    }
    st.stream = StreamState::Idle;
    a.stop_clock = true;
    a
}

fn step_room(st: &mut RemoteState, new: Vec<Message>) -> (a: FrameFollowUp)
    requires
        old(st).wf(),
    ensures
        final(st).wf(),
        (final(st)@, a@) == frame_step(old(st)@, FrameView::RoomUpdate(message_views(new@))),
{
    let mut a = no_follow_up();
    let ghost old_ms = st.messages@;
    let mut new = new;
    let ghost nv = new@;
    st.messages.append(&mut new);
    proof {
        assert(message_views(st.messages@) =~= message_views(old_ms) + message_views(nv));
    }
    st.room_live = None;
    a.scroll_to_end = true;
    a
}

fn step_room_token(st: &mut RemoteState, user: String, content: String) -> (a: FrameFollowUp)
    requires
        old(st).wf(),
    ensures
        final(st).wf(),
        (final(st)@, a@) == frame_step(old(st)@, FrameView::RoomToken { user: user@, content: content@ }),
{
    let mut a = no_follow_up();
    let live = st.room_live.take();
    st.room_live = match live {
        Some((u, t)) => if str_eq(u.as_str(), user.as_str()) {
            let mut t = t;
            t.append(content.as_str());
            Some((u, t))
        } else {
            Some((user, content))
        },
        None => Some((user, content)),
    };
    a.scroll_to_end = true;
    a
}

fn step_connected(
    st: &mut RemoteState,
    model: String,
    room_id: String,
    session_id: String,
    username: String,
    user_session_id: String,
) -> (a: FrameFollowUp)
    requires
        old(st).wf(),
    ensures
        final(st).wf(),
        (final(st)@, a@) == frame_step(
            old(st)@,
            FrameView::Connected {
                model: model@,
                room_id: room_id@,
                session_id: session_id@,
                username: username@,
                user_session_id: user_session_id@,
            },
        ),
{
    let mut a = no_follow_up();
    if let StreamState::Streaming = st.stream {
        st.stream = StreamState::Idle;
    }
    let name = if username.as_str().is_empty() {
        None
    } else {
        Some(crate::turns::bare_username(username.as_str()))
    };
    a.identity = Some(
        Identity {
            model,
            room_id: nonempty_exec(room_id),
            session_id: nonempty_exec(session_id),
            user_session_id: nonempty_exec(user_session_id),
            username: name,
        },
    );
    a
}

/// Applies one frame of the remote session to the chat and says what the
/// caller does next.
pub fn apply_frame(st: &mut RemoteState, frame: ClientFrame) -> (a: FrameFollowUp)
    requires
        old(st).wf(),
    ensures
        final(st).wf(),
        (final(st)@, a@) == frame_step(old(st)@, frame@),
{
    match frame {
        ClientFrame::Models(es) => {
            let mut a = no_follow_up();
            a.models = Some(es);
            a
        },
        ClientFrame::Connected { model, room_id, session_id, username, user_session_id } => step_connected(
            st,
            model,
            room_id,
            session_id,
            username,
            user_session_id,
        ),
        ClientFrame::WarmupStart => {
            let mut a = no_follow_up();
            a.warmup = Some(true);
            a
        },
        ClientFrame::WarmupDone => {
            let mut a = no_follow_up();
            a.warmup = Some(false);
            a
        },
        ClientFrame::ThinkingStart => no_follow_up(),
        ClientFrame::Unknown => no_follow_up(),
        ClientFrame::Token(s) => step_token(st, s, false),
        ClientFrame::Thinking(s) => step_token(st, s, true),
        ClientFrame::ThinkingEnd => {
            let mut a = no_follow_up();
            a.mark_thinking_end = true;
            a
        },
        ClientFrame::Tool { command, label, result } => step_tool(st, command, label, result),
        ClientFrame::LoadNeuron(name) => step_neuron(st, name),
        ClientFrame::Ask { kind, question, options } => step_ask(st, kind, question, options),
        ClientFrame::Patch(diff) => step_patch(st, diff),
        ClientFrame::Mood(m) => {
            st.mood = Some(m);
            no_follow_up()
        },
        ClientFrame::RoomUpdate(new) => step_room(st, new),
        ClientFrame::RoomToken { user, content } => step_room_token(st, user, content),
        ClientFrame::FilePreview { path, content } => {
            let mut a = no_follow_up();
            a.preview = Some((path, content));
            a
        },
        ClientFrame::LsResult { path, entries } => {
            let l = listing_exec(path.as_str(), &entries);
            st.listing = Some((path, l));
            no_follow_up()
        },
        ClientFrame::Done { tokens, prompt_eval } => step_done(st, tokens, prompt_eval),
        ClientFrame::Error(e) => {
            st.stream = StreamState::Error(e);
            let mut a = no_follow_up();
            a.stop_clock = true;
            a
        },
        ClientFrame::Disconnected => {
            st.stream = StreamState::Error(to_owned("Remote server disconnected"));
            let mut a = no_follow_up();
            a.disconnect = true;
            a
        },
    }
}

// ── sending a message ─────────────────────────────────────────────────────

/// The attachment entry a remote message shows for the path `p`: its file
/// name (or the path itself), the path, and no size yet.
pub open spec fn path_attachment(p: Seq<char>) -> AttachmentView {
    AttachmentView {
        filename: match path_file_name(p) {
            Some(f) => f,
            None => p,
        },
        path: p,
        kind: AttachmentKind::Text,
        size: 0,
    }
}

/// What a message typed as `raw` sends to the server: its words other than
/// the `@path`s (all of `raw` when no other word is left), and the paths.
pub open spec fn remote_message(raw: Seq<char>) -> (Seq<char>, Seq<Seq<char>>) {
    let text = join(plain_words(words(raw)), seq![' ']);
    (if text.len() == 0 { raw } else { text }, at_paths(words(raw)))
}

/// The chat after sending `raw` as `user_label`: the user's message, with
/// an entry for each `@path`, and an empty reply; the reply streams.
pub open spec fn remote_sent(v: RemoteView, raw: Seq<char>, user_label: Seq<char>) -> RemoteView {
    let user = MessageView {
        attachments: at_paths(words(raw)).map_values(|p: Seq<char>| path_attachment(p)),
        ..plain_message(Role::User, raw, raw, Some(user_label))
    };
    RemoteView { messages: v.messages.push(user).push(fresh_reply(v.reply_label)), stream: StreamView::Streaming, ..v }
}

/// Puts the message `raw` of `user_label` into the chat of a remote
/// session; returns the text and paths to send.
pub fn send_remote(st: &mut RemoteState, raw: &str, user_label: String) -> (r: (String, Vec<String>))
    ensures
        final(st)@ == remote_sent(old(st)@, raw@, user_label@),
        (r.0@, string_views(r.1@)) == remote_message(raw@),
{
    let (text, paths) = split_at_paths(raw);
    let mut atts: Vec<Attachment> = Vec::new();
    let mut i: usize = 0;
    while i < paths.len()
        invariant
            i <= paths@.len(),
            crate::message::attachment_views(atts@) == string_views(paths@).take(i as int).map_values(
                |p: Seq<char>| path_attachment(p),
            ),
        decreases paths.len() - i,
    {
        let p = &paths[i];
        let filename = match file_name_of(p.as_str()) {
            Some(f) => f,
            None => to_owned(p.as_str()),
        };
        let a = Attachment { filename, path: to_owned(p.as_str()), kind: AttachmentKind::Text, size: 0 };
        let ghost before = atts@;
        atts.push(a);
        proof {
            assert(string_views(paths@)[i as int] == paths@[i as int]@);
            assert(crate::message::attachment_views(atts@) =~= crate::message::attachment_views(before).push(a@));
            assert(string_views(paths@).take(i + 1) =~= string_views(paths@).take(i as int).push(
                paths@[i as int]@,
            ));
        }
        i += 1;
    }
    proof {
        assert(string_views(paths@).take(paths@.len() as int) =~= string_views(paths@));
    }
    let mut user = Message::new(Role::User, to_owned(raw), to_owned(raw), Some(user_label));
    user.attachments = atts;
    let ghost um = user@;
    push_message(st, user);
    let reply = fresh_reply_exec(st);
    push_message(st, reply);
    st.stream = StreamState::Streaming;
    proof {
        assert(st@.messages =~= old(st)@.messages.push(um).push(fresh_reply(old(st)@.reply_label)));
    }
    let content = if text.as_str().is_empty() {
        to_owned(raw)
    } else {
        text
    };
    (content, paths)
}

} // verus!
