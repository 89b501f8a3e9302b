//! The decisions of a WebSocket chat session: what each incoming frame and
//! request means, which model a session runs, and the texts it exchanges.
use vstd::prelude::*;
use crate::frames::{OP_CLOSE, OP_PING, OP_TEXT};
use crate::text::{
    chars_eq, chars_of, extend_str, find, find_exec, slice_to_vec, starts_with, starts_with_exec,
    string_from_chars, string_views, trim, trim_bounds,
};
use crate::prompt::{decimal, u64_to_decimal};

verus! {

// ── frames ────────────────────────────────────────────────────────────────

/// What the server does with a received frame.
#[derive(PartialEq, Eq, Structural, Clone, Copy, Debug)]
pub enum FrameAction {
    /// Answer with a close frame and end the session.
    Close,
    /// Answer with a pong carrying the same payload.
    Pong,
    /// Read the payload as a JSON request.
    Text,
    /// Drop the frame.
    Ignore,
}

/// The action for a frame with opcode `op`.
pub open spec fn action_for(op: u8) -> FrameAction {
    if op == OP_CLOSE {
        FrameAction::Close
    } else if op == OP_PING {
        FrameAction::Pong
    } else if op == OP_TEXT {
        FrameAction::Text
    } else {
        FrameAction::Ignore
    }
}

/// What to do with a received frame.
pub fn frame_action(opcode: u8) -> (a: FrameAction)
    ensures
        a == action_for(opcode),
{
    if opcode == OP_CLOSE {
        FrameAction::Close
    } else if opcode == OP_PING {
        FrameAction::Pong
    } else if opcode == OP_TEXT {
        FrameAction::Text
    } else {
        FrameAction::Ignore
    }
}

/// The requests a client sends, by their `type` field.
#[derive(PartialEq, Eq, Structural, Clone, Copy, Debug)]
pub enum ClientRequest {
    Message,
    Pin,
    Unpin,
    Ls,
    Ping,
    SelectModel,
    Other,
}

/// The request named by the `type` field `t`.
pub open spec fn request_for(t: Option<Seq<char>>) -> ClientRequest {
    match t {
        Some(s) => if s == "message"@ {
            ClientRequest::Message
        } else if s == "pin"@ {
            ClientRequest::Pin
        } else if s == "unpin"@ {
            ClientRequest::Unpin
        } else if s == "ls"@ {
            ClientRequest::Ls
        } else if s == "ping"@ {
            ClientRequest::Ping
        } else if s == "select_model"@ {
            ClientRequest::SelectModel
        } else {
            ClientRequest::Other
        },
        None => ClientRequest::Other,
    }
}

fn is_lit(s: &str, lit: &str) -> (b: bool)
    ensures
        b == (s@ == lit@),
{
    let a = chars_of(s);
    let l = chars_of(lit);
    chars_eq(a.as_slice(), l.as_slice())
}

/// The request a client frame's `type` field names.
pub fn client_request(t: Option<&str>) -> (r: ClientRequest)
    ensures
        r == request_for(
            match t {
                Some(s) => Some(s@),
                None => None,
            },
        ),
{
    match t {
        Some(s) => if is_lit(s, "message") {
            ClientRequest::Message
        } else if is_lit(s, "pin") {
            ClientRequest::Pin
        } else if is_lit(s, "unpin") {
            ClientRequest::Unpin
        } else if is_lit(s, "ls") {
            ClientRequest::Ls
        } else if is_lit(s, "ping") {
            ClientRequest::Ping
        } else if is_lit(s, "select_model") {
            ClientRequest::SelectModel
        } else {
            ClientRequest::Other
        },
        None => ClientRequest::Other,
    }
}

/// The events the server sends, by their `type` field, as the remote
/// client reads them.
#[derive(PartialEq, Eq, Structural, Clone, Copy, Debug)]
pub enum ServerEvent {
    Connected,
    Token,
    ThinkingStart,
    Thinking,
    ThinkingEnd,
    Tool,
    LoadNeuron,
    Ask,
    Patch,
    Mood,
    FilePreview,
    Models,
    LsResult,
    Done,
    WarmupStart,
    WarmupDone,
    Error,
    Unknown,
}

/// The event named by the `type` field `t`.
pub open spec fn event_for(t: Option<Seq<char>>) -> ServerEvent {
    match t {
        Some(s) => if s == "connected"@ {
            ServerEvent::Connected
        } else if s == "token"@ {
            ServerEvent::Token
        } else if s == "thinking_start"@ {
            ServerEvent::ThinkingStart
        } else if s == "thinking"@ {
            ServerEvent::Thinking
        } else if s == "thinking_end"@ {
            ServerEvent::ThinkingEnd
        } else if s == "tool"@ {
            ServerEvent::Tool
        } else if s == "load_neuron"@ {
            ServerEvent::LoadNeuron
        } else if s == "ask"@ {
            ServerEvent::Ask
        } else if s == "patch"@ {
            ServerEvent::Patch
        } else if s == "mood"@ {
            ServerEvent::Mood
        } else if s == "file_preview"@ {
            ServerEvent::FilePreview
        } else if s == "models"@ {
            ServerEvent::Models
        } else if s == "ls_result"@ {
            ServerEvent::LsResult
        } else if s == "done"@ {
            ServerEvent::Done
        } else if s == "warmup_start"@ {
            ServerEvent::WarmupStart
        } else if s == "warmup_done"@ {
            ServerEvent::WarmupDone
        } else if s == "error"@ {
            ServerEvent::Error
        } else {
            ServerEvent::Unknown
        },
        None => ServerEvent::Unknown,
    }
}

/// The event a server frame's `type` field names.
pub fn server_event(t: Option<&str>) -> (e: ServerEvent)
    ensures
        e == event_for(
            match t {
                Some(s) => Some(s@),
                None => None,
            },
        ),
{
    match t {
        Some(s) => if is_lit(s, "connected") {
            ServerEvent::Connected
        } else if is_lit(s, "token") {
            ServerEvent::Token
        } else if is_lit(s, "thinking_start") {
            ServerEvent::ThinkingStart
        } else if is_lit(s, "thinking") {
            ServerEvent::Thinking
        } else if is_lit(s, "thinking_end") {
            ServerEvent::ThinkingEnd
        } else if is_lit(s, "tool") {
            ServerEvent::Tool
        } else if is_lit(s, "load_neuron") {
            ServerEvent::LoadNeuron
        } else if is_lit(s, "ask") {
            ServerEvent::Ask
        } else if is_lit(s, "patch") {
            ServerEvent::Patch
        } else if is_lit(s, "mood") {
            ServerEvent::Mood
        } else if is_lit(s, "file_preview") {
            ServerEvent::FilePreview
        } else if is_lit(s, "models") {
            ServerEvent::Models
        } else if is_lit(s, "ls_result") {
            ServerEvent::LsResult
        } else if is_lit(s, "done") {
            ServerEvent::Done
        } else if is_lit(s, "warmup_start") {
            ServerEvent::WarmupStart
        } else if is_lit(s, "warmup_done") {
            ServerEvent::WarmupDone
        } else if is_lit(s, "error") {
            ServerEvent::Error
        } else {
            ServerEvent::Unknown
        },
        None => ServerEvent::Unknown,
    }
}

// ── messages ──────────────────────────────────────────────────────────────

/// The `@path` references for the attached paths, space-separated.
pub open spec fn attach_refs(paths: Seq<Seq<char>>) -> Seq<char>
    decreases paths.len(),
{
    if paths.len() == 0 {
        Seq::empty()
    } else if paths.len() == 1 {
        seq!['@'] + paths[0]
    } else {
        attach_refs(paths.drop_last()) + seq![' ', '@'] + paths.last()
    }
}

/// The chat input a `message` request makes: its trimmed content, then the
/// references to the attached paths; nothing for blank content.
pub open spec fn message_text(content: Seq<char>, attach: Seq<Seq<char>>) -> Option<Seq<char>> {
    let c = trim(content);
    if c.len() == 0 {
        None
    } else if attach.len() == 0 {
        Some(c)
    } else {
        Some(c + seq![' '] + attach_refs(attach))
    }
}

/// The chat input for a `message` request with the given content and
/// attached paths.
pub fn message_input(content: &str, attach: &Vec<String>) -> (r: Option<String>)
    ensures
        match r {
            Some(s) => message_text(content@, string_views(attach@)) == Some(s@),
            None => message_text(content@, string_views(attach@)) is None,
        },
{
    let cs = chars_of(content);
    let (a, b) = trim_bounds(cs.as_slice());
    if a == b {
        return None;
    }
    let mut out = slice_to_vec(cs.as_slice(), a, b);
    if attach.len() == 0 {
        return Some(string_from_chars(out.as_slice()));
    }
    out.push(' ');
    let ghost head = out@;
    let ghost av = string_views(attach@);
    let mut i: usize = 0;
    while i < attach.len()
        invariant
            i <= attach@.len(),
            attach@.len() > 0,
            av == string_views(attach@),
            out@ == head + attach_refs(av.take(i as int)),
        decreases attach.len() - i,
    {
        proof {
            assert(av.take(i + 1).drop_last() =~= av.take(i as int));
            assert(av[i as int] == attach@[i as int]@);
        }
        if i > 0 {
            out.push(' ');
        } else {
            assert(av.take(0) =~= Seq::<Seq<char>>::empty());
        }
        out.push('@');
        extend_str(&mut out, attach[i].as_str());
        assert(out@ =~= head + attach_refs(av.take(i + 1)));
        i += 1;
    }
    assert(av.take(attach@.len() as int) =~= av);
    Some(string_from_chars(out.as_slice()))
}

// ── models ────────────────────────────────────────────────────────────────

/// Which model a session runs.
pub enum ModelChoice {
    /// The named model.
    Use(String),
    /// Send the list and let the client pick.
    AskClient,
    /// The requested model is not installed.
    NotFound(String),
    /// No model is installed.
    NoModels,
}

/// A model choice as the specifications see it.
pub enum ModelChoiceView {
    Use(Seq<char>),
    AskClient,
    NotFound(Seq<char>),
    NoModels,
}

impl ModelChoice {
    pub open spec fn view(&self) -> ModelChoiceView {
        match self {
            ModelChoice::Use(m) => ModelChoiceView::Use(m@),
            ModelChoice::AskClient => ModelChoiceView::AskClient,
            ModelChoice::NotFound(m) => ModelChoiceView::NotFound(m@),
            ModelChoice::NoModels => ModelChoiceView::NoModels,
        }
    }
}

/// The model a session runs, given the installed models, the one asked for
/// in the URL, and whether the client is the terminal client (which picks
/// from a list when none was asked for).
pub open spec fn model_choice(models: Seq<Seq<char>>, requested: Option<Seq<char>>, tui_client: bool) -> ModelChoiceView {
    match requested {
        None => if tui_client {
            if models.len() == 0 { ModelChoiceView::NoModels } else { ModelChoiceView::AskClient }
        } else if models.len() == 0 {
            ModelChoiceView::NoModels
        } else {
            ModelChoiceView::Use(models[0])
        },
        Some(m) => if models.contains(m) {
            ModelChoiceView::Use(m)
        } else {
            ModelChoiceView::NotFound(m)
        },
    }
}

fn contains_name(models: &Vec<String>, name: &str) -> (b: bool)
    ensures
        b == string_views(models@).contains(name@),
{
    let mut i: usize = 0;
    while i < models.len()
        invariant
            i <= models@.len(),
            forall|j: int| 0 <= j < i ==> models@[j]@ != name@,
        decreases models.len() - i,
    {
        if is_lit(models[i].as_str(), name) {
            assert(string_views(models@)[i as int] == name@);
            return true;
        }
        i += 1;
    }
    proof {
        if string_views(models@).contains(name@) {
            let k = choose|k: int| 0 <= k < string_views(models@).len() && string_views(models@)[k] == name@;
            assert(models@[k]@ == name@);
        }
    }
    false
}

/// Decides which model a session runs.
pub fn choose_model(models: &Vec<String>, requested: Option<&str>, tui_client: bool) -> (c: ModelChoice)
    ensures
        c.view() == model_choice(
            string_views(models@),
            match requested {
                Some(s) => Some(s@),
                None => None,
            },
            tui_client,
        ),
{
    match requested {
        None => {
            if models.len() == 0 {
                ModelChoice::NoModels
            } else if tui_client {
                ModelChoice::AskClient
            } else {
                let first = String::from_str(models[0].as_str());
                assert(string_views(models@)[0] == models@[0]@);
                ModelChoice::Use(first)
            }
        },
        Some(m) => if contains_name(models, m) {
            ModelChoice::Use(String::from_str(m))
        } else {
            ModelChoice::NotFound(String::from_str(m))
        },
    }
}

/// The context size shown to the client: kibi-tokens, or `?` when unknown.
pub open spec fn context_text(ctx: Option<u64>) -> Seq<char> {
    match ctx {
        Some(n) => decimal((n / 1024) as nat) + seq!['k'],
        None => seq!['?'],
    }
}

/// The context size as the `connected` event reports it.
pub fn context_label(ctx: Option<u64>) -> (r: String)
    ensures
        r@ == context_text(ctx),
{
    match ctx {
        Some(n) => {
            let d = u64_to_decimal(n / 1024);
            let mut v = chars_of(d.as_str());
            v.push('k');
            string_from_chars(v.as_slice())
        },
        None => {
            let v = vec!['?'];
            string_from_chars(v.as_slice())
        },
    }
}

// ── presence ──────────────────────────────────────────────────────────────

/// The room notice shown when `user` joins, and the line the model reads.
pub open spec fn join_texts(user: Seq<char>) -> (Seq<char>, Seq<char>) {
    ("**"@ + user + "** se unió a la sala."@, user + " joined the room."@)
}

/// The room notice shown when `user` leaves, and the line the model reads.
pub open spec fn leave_texts(user: Seq<char>) -> (Seq<char>, Seq<char>) {
    ("**"@ + user + "** salió de la sala."@, user + " left the room."@)
}

/// The texts announcing that `user` joined the room.
pub fn join_notice(user: &str) -> (r: (String, String))
    ensures
        (r.0@, r.1@) == join_texts(user@),
{
    let mut a: Vec<char> = Vec::new();
    extend_str(&mut a, "**");
    extend_str(&mut a, user);
    extend_str(&mut a, "** se unió a la sala.");
    let mut b: Vec<char> = Vec::new();
    extend_str(&mut b, user);
    extend_str(&mut b, " joined the room.");
    assert(Seq::<char>::empty() + user@ =~= user@);
    (string_from_chars(a.as_slice()), string_from_chars(b.as_slice()))
}

/// The texts announcing that `user` left the room.
pub fn leave_notice(user: &str) -> (r: (String, String))
    ensures
        (r.0@, r.1@) == leave_texts(user@),
{
    let mut a: Vec<char> = Vec::new();
    extend_str(&mut a, "**");
    extend_str(&mut a, user);
    extend_str(&mut a, "** salió de la sala.");
    let mut b: Vec<char> = Vec::new();
    extend_str(&mut b, user);
    extend_str(&mut b, " left the room.");
    assert(Seq::<char>::empty() + user@ =~= user@);
    (string_from_chars(a.as_slice()), string_from_chars(b.as_slice()))
}

// ── the remote client's URL ───────────────────────────────────────────────

/// The host and request path of a `ws://` URL: the authority up to the
/// first `/`, and the rest as the path (`/ws` without one).
pub open spec fn ws_target(url: Seq<char>) -> Option<(Seq<char>, Seq<char>)> {
    if !starts_with(url, "ws://"@) {
        None
    } else {
        let rest = url.skip("ws://"@.len() as int);
        match find(rest, seq!['/']) {
            Some(i) => Some((rest.take(i), seq!['/'] + rest.skip(i + 1))),
            None => Some((rest, "/ws"@)),
        }
    }
}

/// Splits a `ws://` URL into host and path; `None` for another scheme.
pub fn parse_ws_url(url: &str) -> (r: Option<(String, String)>)
    ensures
        match r {
            Some((h, p)) => ws_target(url@) == Some((h@, p@)),
            None => ws_target(url@) is None,
        },
{
    let c = chars_of(url);
    let scheme = chars_of("ws://");
    if !starts_with_exec(c.as_slice(), scheme.as_slice()) {
        return None;
    }
    let n = c.len();
    let k = scheme.len();
    assert(crate::text::matches_at(url@, scheme@, 0));
    let rest = slice_to_vec(c.as_slice(), k, n);
    assert(rest@ =~= url@.skip("ws://"@.len() as int));
    let m = rest.len();
    let slash = vec!['/'];
    assert(slash@ == seq!['/']);
    match find_exec(rest.as_slice(), slash.as_slice()) {
        Some(i) => {
            let host = slice_to_vec(rest.as_slice(), 0, i);
            let mut path = vec!['/'];
            let tail = slice_to_vec(rest.as_slice(), i + 1, m);
            crate::text::extend_chars(&mut path, tail.as_slice());
            assert(host@ =~= rest@.take(i as int));
            assert(path@ =~= seq!['/'] + rest@.skip(i + 1));
            Some((string_from_chars(host.as_slice()), string_from_chars(path.as_slice())))
        },
        None => Some((string_from_chars(rest.as_slice()), String::from_str("/ws"))),
    }
}

/// The HTTP request that upgrades the client's connection.
pub open spec fn upgrade_text(path: Seq<char>, host: Seq<char>, key: Seq<char>) -> Seq<char> {
    "GET "@ + path + " HTTP/1.1\r\nHost: "@ + host + "\r\nUpgrade: websocket\r\nConnection: Upgrade\r\nSec-WebSocket-Key: "@
        + key + "\r\nSec-WebSocket-Version: 13\r\n\r\n"@
}

/// The client's upgrade request for `path` on `host` with the key `key`.
pub fn upgrade_request(path: &str, host: &str, key: &str) -> (r: String)
    ensures
        r@ == upgrade_text(path@, host@, key@),
{
    let mut v: Vec<char> = Vec::new();
    extend_str(&mut v, "GET ");
    extend_str(&mut v, path);
    extend_str(&mut v, " HTTP/1.1\r\nHost: ");
    extend_str(&mut v, host);
    extend_str(&mut v, "\r\nUpgrade: websocket\r\nConnection: Upgrade\r\nSec-WebSocket-Key: ");
    extend_str(&mut v, key);
    extend_str(&mut v, "\r\nSec-WebSocket-Version: 13\r\n\r\n");
    assert(v@ =~= upgrade_text(path@, host@, key@));
    string_from_chars(v.as_slice())
}

/// The server's answer accepting an upgrade with the accept key `accept`.
pub open spec fn switching_text(accept: Seq<char>) -> Seq<char> {
    "HTTP/1.1 101 Switching Protocols\r\nUpgrade: websocket\r\nConnection: Upgrade\r\nSec-WebSocket-Accept: "@
        + accept + "\r\n\r\n"@
}

/// The server's response to an upgrade request.
pub fn switching_response(accept: &str) -> (r: String)
    ensures
        r@ == switching_text(accept@),
{
    let mut v: Vec<char> = Vec::new();
    extend_str(
        &mut v,
        "HTTP/1.1 101 Switching Protocols\r\nUpgrade: websocket\r\nConnection: Upgrade\r\nSec-WebSocket-Accept: ",
    );
    extend_str(&mut v, accept);
    extend_str(&mut v, "\r\n\r\n");
    string_from_chars(v.as_slice())
}

} // verus!
