//! The model list and the remote-connect screen: searching and picking a
//! model, the join-room dialog, and editing the server URL.
use vstd::prelude::*;
use crate::keys::{Key, KeyCode};
use crate::nav::{nav_next, nav_prev, next_target, prev_target, snap_cursor, snap_target, word_left, word_left_at, word_right, word_right_target};
use crate::settings::{matching, matching_indices, opt_view};
use crate::text::{
    chars_of, extend_chars, extend_str, pop_char, popped, push_char, starts_with, starts_with_exec, string_from_chars,
    trim, trim_bounds, to_owned,
};

verus! {

/// What the model list and the remote-connect screen hold.
pub struct ModelPicker {
    pub model_cursor: usize,
    pub model_search: String,
    /// The room id being typed in the join-room dialog, while it is open.
    pub join_room_input: Option<String>,
    pub remote_url: String,
    /// Cursor in `remote_url`, as a char index.
    pub remote_url_cursor: usize,
    /// A connection attempt is under way.
    pub remote_connecting: bool,
    pub remote_connect_error: Option<String>,
}

/// The model list and remote-connect state as plain values.
pub struct ModelPickerView {
    pub cursor: usize,
    pub search: Seq<char>,
    pub join: Option<Seq<char>>,
    pub url: Seq<char>,
    pub url_cursor: usize,
    pub connecting: bool,
    pub error: Option<Seq<char>>,
}

impl View for ModelPicker {
    type V = ModelPickerView;

    open spec fn view(&self) -> ModelPickerView {
        ModelPickerView {
            cursor: self.model_cursor,
            search: self.model_search@,
            join: opt_view(self.join_room_input),
            url: self.remote_url@,
            url_cursor: self.remote_url_cursor,
            connecting: self.remote_connecting,
            error: opt_view(self.remote_connect_error),
        }
    }
}

/// The URL cursor lies within the URL.
pub open spec fn picker_wf(p: ModelPickerView) -> bool {
    p.url_cursor <= p.url.len()
}

/// Outside work a key on these screens asks for.
#[derive(Debug, Clone, Copy, PartialEq, Eq, Structural)]
pub enum PickEffect {
    Nothing,
    /// Open or leave the settings screen.
    ToggleConfig,
    /// Show the remote-connect screen.
    OpenRemoteScreen,
    /// Back to the model list.
    BackToModels,
    /// Drop the remote session and list the local models.
    SwitchToLocal,
    /// Start a chat with the model under the cursor, locally.
    SelectLocal,
    /// Ask the remote server for the model under the cursor.
    SelectRemote,
    /// Connect to the WebSocket server at the URL.
    StartRemoteConnect,
    /// List the models of the Ollama server at the URL.
    StartRemoteOllama,
}

/// `s` without the trailing occurrences of `c` (`str::trim_end_matches`).
pub open spec fn strip_trailing(s: Seq<char>, c: char) -> Seq<char>
    decreases s.len(),
{
    if s.len() > 0 && s.last() == c {
        strip_trailing(s.drop_last(), c)
    } else {
        s
    }
}

/// The indices `0..n`.
pub open spec fn all_indices(n: nat) -> Seq<usize> {
    Seq::new(n, |i: int| i as usize)
}

/// The join-room dialog: Enter joins room `uuid` on the server of the
/// current URL.
pub open spec fn join_step(p: ModelPickerView, key: Key) -> (ModelPickerView, PickEffect) {
    let buf = p.join.unwrap();
    match key.code {
        KeyCode::Esc => (ModelPickerView { join: None, ..p }, PickEffect::Nothing),
        KeyCode::Enter => {
            let uuid = trim(buf);
            let closed = ModelPickerView { join: None, ..p };
            if uuid.len() > 0 && p.url.len() > 0 {
                (
                    ModelPickerView { url: strip_trailing(p.url, '/') + "/id/"@ + uuid, error: None, ..closed },
                    PickEffect::StartRemoteConnect,
                )
            } else {
                (closed, PickEffect::Nothing)
            }
        },
        KeyCode::Backspace => (ModelPickerView { join: Some(popped(buf)), ..p }, PickEffect::Nothing),
        KeyCode::Char(c) => (ModelPickerView { join: Some(buf.push(c)), ..p }, PickEffect::Nothing),
        _ => (p, PickEffect::Nothing),
    }
}

/// What a key does on the model list (after the help popup had its turn);
/// `names` are the models' names, `remote` whether a remote session is
/// open.
pub open spec fn model_step(p: ModelPickerView, key: Key, names: Seq<Seq<char>>, remote: bool) -> (ModelPickerView, PickEffect) {
    if p.join is Some {
        join_step(p, key)
    } else {
        match key.code {
            KeyCode::Tab => (p, PickEffect::ToggleConfig),
            KeyCode::Char('r') if key.ctrl => (ModelPickerView { error: None, ..p }, PickEffect::OpenRemoteScreen),
            KeyCode::Char('j') if key.ctrl => (ModelPickerView { join: Some(Seq::empty()), ..p }, PickEffect::Nothing),
            KeyCode::Esc => if remote {
                (p, PickEffect::SwitchToLocal)
            } else if p.search.len() > 0 {
                (
                    ModelPickerView { search: Seq::empty(), cursor: snap_target(p.cursor, all_indices(names.len())), ..p },
                    PickEffect::Nothing,
                )
            } else {
                (p, PickEffect::Nothing)
            },
            _ => if names.len() == 0 {
                (p, PickEffect::Nothing)
            } else {
                let f = matching(p.search, names);
                match key.code {
                    KeyCode::Up => (ModelPickerView { cursor: prev_target(p.cursor, f), ..p }, PickEffect::Nothing),
                    KeyCode::Down => (ModelPickerView { cursor: next_target(p.cursor, f), ..p }, PickEffect::Nothing),
                    KeyCode::Enter => (p, if remote { PickEffect::SelectRemote } else { PickEffect::SelectLocal }),
                    KeyCode::Backspace => {
                        let q = popped(p.search);
                        (ModelPickerView { search: q, cursor: snap_target(p.cursor, matching(q, names)), ..p }, PickEffect::Nothing)
                    },
                    KeyCode::Char(c) => {
                        let q = p.search.push(c);
                        (ModelPickerView { search: q, cursor: snap_target(p.cursor, matching(q, names)), ..p }, PickEffect::Nothing)
                    },
                    _ => (p, PickEffect::Nothing),
                }
            },
        }
    }
}

/// What a key does on the remote-connect screen: nothing while connecting;
/// Enter connects to a `ws://` server or lists an Ollama server's models;
/// other keys edit the URL.
pub open spec fn remote_step(p: ModelPickerView, key: Key) -> (ModelPickerView, PickEffect) {
    let cur = p.url_cursor;
    let len = p.url.len();
    if p.connecting {
        (p, PickEffect::Nothing)
    } else {
        match key.code {
            KeyCode::Tab => (p, PickEffect::ToggleConfig),
            KeyCode::Esc => (ModelPickerView { error: None, ..p }, PickEffect::BackToModels),
            KeyCode::Enter => {
                let u = trim(p.url);
                if u.len() == 0 {
                    (p, PickEffect::Nothing)
                } else if starts_with(u, "ws://"@) {
                    (ModelPickerView { error: None, ..p }, PickEffect::StartRemoteConnect)
                } else {
                    (ModelPickerView { error: None, ..p }, PickEffect::StartRemoteOllama)
                }
            },
            KeyCode::Backspace => if cur > 0 {
                (ModelPickerView { url: p.url.remove(cur - 1), url_cursor: (cur - 1) as usize, ..p }, PickEffect::Nothing)
            } else {
                (p, PickEffect::Nothing)
            },
            KeyCode::Delete => if cur < len {
                (ModelPickerView { url: p.url.remove(cur as int), ..p }, PickEffect::Nothing)
            } else {
                (p, PickEffect::Nothing)
            },
            KeyCode::Left => (
                ModelPickerView {
                    url_cursor: if key.ctrl {
                        choose|r: usize| word_left_at(p.url, cur as int, r as int)
                    } else if cur > 0 {
                        (cur - 1) as usize
                    } else {
                        cur
                    },
                    ..p
                },
                PickEffect::Nothing,
            ),
            KeyCode::Right => (
                ModelPickerView {
                    url_cursor: if key.ctrl {
                        word_right_target(p.url, cur as int) as usize
                    } else if cur < len {
                        (cur + 1) as usize
                    } else {
                        cur
                    },
                    ..p
                },
                PickEffect::Nothing,
            ),
            KeyCode::Home => (ModelPickerView { url_cursor: 0, ..p }, PickEffect::Nothing),
            KeyCode::End => (ModelPickerView { url_cursor: len as usize, ..p }, PickEffect::Nothing),
            KeyCode::Char(c) if !key.ctrl => (
                ModelPickerView { url: p.url.insert(cur as int, c), url_cursor: (cur + 1) as usize, ..p },
                PickEffect::Nothing,
            ),
            _ => (p, PickEffect::Nothing),
        }
    }
}

/// The word-left target is unique.
proof fn lemma_word_left_unique(s: Seq<char>, cur: int, r1: int, r2: int)
    requires
        word_left_at(s, cur, r1),
        word_left_at(s, cur, r2),
    ensures
        r1 == r2,
{
    if r1 < r2 {
        assert(s[r2 - 1] == ' ');
    } else if r2 < r1 {
        assert(s[r1 - 1] == ' ');
    }
}

/// `s` with trailing `c` removed.
fn strip_trailing_exec(s: &[char], c: char) -> (r: Vec<char>)
    ensures
        r@ == strip_trailing(s@, c),
{
    let mut n = s.len();
    assert(s@.take(n as int) =~= s@);
    while n > 0 && s[n - 1] == c
        invariant
            n <= s@.len(),
            strip_trailing(s@.take(n as int), c) == strip_trailing(s@, c),
        decreases n,
    {
        assert(s@.take(n as int).drop_last() =~= s@.take(n - 1));
        n -= 1;
    }
    assert(s@.take(n as int) =~= s@.subrange(0, n as int));
    let mut v: Vec<char> = Vec::new();
    extend_chars(&mut v, &s[0..n]);
    v
}

impl ModelPicker {
    fn key_join(&mut self, key: Key) -> (e: PickEffect)
        requires
            old(self).join_room_input is Some,
        ensures
            (final(self)@, e) == join_step(old(self)@, key),
    {
        let buf = match &self.join_room_input {
            Some(b) => to_owned(b.as_str()),
            None => String::new(),
        };
        match key.code {
            KeyCode::Esc => {
                self.join_room_input = None;
                PickEffect::Nothing
            },
            KeyCode::Enter => {
                self.join_room_input = None;
                let c = chars_of(buf.as_str());
                let (a, b) = trim_bounds(c.as_slice());
                let url = chars_of(self.remote_url.as_str());
                if a < b && url.len() > 0 {
                    let mut v = strip_trailing_exec(url.as_slice(), '/');
                    extend_str(&mut v, "/id/");
                    extend_chars(&mut v, &c.as_slice()[a..b]);
                    self.remote_url = string_from_chars(v.as_slice());
                    self.remote_connect_error = None;
                    PickEffect::StartRemoteConnect
                } else {
                    PickEffect::Nothing
                }
            },
            KeyCode::Backspace => {
                let mut b = buf;
                pop_char(&mut b);
                self.join_room_input = Some(b);
                PickEffect::Nothing
            },
            KeyCode::Char(ch) => {
                let mut b = buf;
                push_char(&mut b, ch);
                self.join_room_input = Some(b);
                PickEffect::Nothing
            },
            _ => PickEffect::Nothing,
        }
    }

    fn key_models(&mut self, key: Key, names: &[String], remote: bool) -> (e: PickEffect)
        requires
            names@.len() > 0,
        ensures
            ({
                let f = matching(old(self)@.search, crate::text::string_views(names@));
                let p = old(self)@;
                let nv = crate::text::string_views(names@);
                (final(self)@, e) == match key.code {
                    KeyCode::Up => (ModelPickerView { cursor: prev_target(p.cursor, f), ..p }, PickEffect::Nothing),
                    KeyCode::Down => (ModelPickerView { cursor: next_target(p.cursor, f), ..p }, PickEffect::Nothing),
                    KeyCode::Enter => (p, if remote { PickEffect::SelectRemote } else { PickEffect::SelectLocal }),
                    KeyCode::Backspace => {
                        let q = popped(p.search);
                        (ModelPickerView { search: q, cursor: snap_target(p.cursor, matching(q, nv)), ..p }, PickEffect::Nothing)
                    },
                    KeyCode::Char(c) => {
                        let q = p.search.push(c);
                        (ModelPickerView { search: q, cursor: snap_target(p.cursor, matching(q, nv)), ..p }, PickEffect::Nothing)
                    },
                    _ => (p, PickEffect::Nothing),
                }
            }),
    {
        let f = matching_indices(self.model_search.as_str(), names);
        match key.code {
            KeyCode::Up => {
                nav_prev(&mut self.model_cursor, f.as_slice());
                PickEffect::Nothing
            },
            KeyCode::Down => {
                nav_next(&mut self.model_cursor, f.as_slice());
                PickEffect::Nothing
            },
            KeyCode::Enter => if remote {
                PickEffect::SelectRemote
            } else {
                PickEffect::SelectLocal
            },
            KeyCode::Backspace => {
                pop_char(&mut self.model_search);
                let g = matching_indices(self.model_search.as_str(), names);
                snap_cursor(&mut self.model_cursor, g.as_slice());
                PickEffect::Nothing
            },
            KeyCode::Char(c) => {
                push_char(&mut self.model_search, c);
                let g = matching_indices(self.model_search.as_str(), names);
                snap_cursor(&mut self.model_cursor, g.as_slice());
                PickEffect::Nothing
            },
            _ => PickEffect::Nothing,
        }
    }

    /// Applies a key on the model list (after the help popup had its
    /// turn); `names` are the models' names, `remote` whether a remote
    /// session is open. Returns the outside work the key asks for.
    pub fn model_key(&mut self, key: Key, names: &[String], remote: bool) -> (e: PickEffect)
        ensures
            (final(self)@, e) == model_step(old(self)@, key, crate::text::string_views(names@), remote),
    {
        if self.join_room_input.is_some() {
            return self.key_join(key);
        }
        match key.code {
            KeyCode::Tab => {
                return PickEffect::ToggleConfig;
            },
            KeyCode::Char('r') if key.ctrl => {
                self.remote_connect_error = None;
                return PickEffect::OpenRemoteScreen;
            },
            KeyCode::Char('j') if key.ctrl => {
                self.join_room_input = Some(String::new());
                return PickEffect::Nothing;
            },
            KeyCode::Esc => {
                if remote {
                    return PickEffect::SwitchToLocal;
                }
                if !self.model_search.as_str().is_empty() {
                    self.model_search = String::new();
                    let mut all: Vec<usize> = Vec::new();
                    let mut i: usize = 0;
                    while i < names.len()
                        invariant
                            i <= names@.len(),
                            all@ == all_indices(i as nat),
                        decreases names.len() - i,
                    {
                        all.push(i);
                        assert(all@ =~= all_indices((i + 1) as nat));
                        i += 1;
                    }
                    assert(crate::text::string_views(names@).len() == names@.len());
                    snap_cursor(&mut self.model_cursor, all.as_slice());
                }
                return PickEffect::Nothing;
            },
            _ => {},
        }
        if names.len() == 0 {
            return PickEffect::Nothing;
        }
        self.key_models(key, names, remote)
    }

    /// Applies a key on the remote-connect screen. Returns the outside work
    /// the key asks for.
    pub fn remote_key(&mut self, key: Key) -> (e: PickEffect)
        requires
            picker_wf(old(self)@),
        ensures
            (final(self)@, e) == remote_step(old(self)@, key),
            picker_wf(final(self)@),
    {
        if self.remote_connecting {
            return PickEffect::Nothing;
        }
        let url = chars_of(self.remote_url.as_str());
        let len = url.len();
        let cur = self.remote_url_cursor;
        match key.code {
            KeyCode::Tab => PickEffect::ToggleConfig,
            KeyCode::Esc => {
                self.remote_connect_error = None;
                PickEffect::BackToModels
            },
            KeyCode::Enter => {
                let (a, b) = trim_bounds(url.as_slice());
                if a == b {
                    return PickEffect::Nothing;
                }
                self.remote_connect_error = None;
                let ws = chars_of("ws://");
                let u = &url.as_slice()[a..b];
                if starts_with_exec(u, ws.as_slice()) {
                    PickEffect::StartRemoteConnect
                } else {
                    PickEffect::StartRemoteOllama
                }
            },
            KeyCode::Backspace => {
                if cur > 0 {
                    let mut v = url;
                    v.remove(cur - 1);
                    self.remote_url = string_from_chars(v.as_slice());
                    self.remote_url_cursor = cur - 1;
                }
                PickEffect::Nothing
            },
            KeyCode::Delete => {
                if cur < len {
                    let mut v = url;
                    v.remove(cur);
                    self.remote_url = string_from_chars(v.as_slice());
                }
                PickEffect::Nothing
            },
            KeyCode::Left => {
                if key.ctrl {
                    let r = word_left(self.remote_url.as_str(), cur);
                    proof {
                        let c = choose|x: usize| word_left_at(old(self)@.url, cur as int, x as int);
                        lemma_word_left_unique(old(self)@.url, cur as int, r as int, c as int);
                    }
                    self.remote_url_cursor = r;
                } else if cur > 0 {
                    self.remote_url_cursor = cur - 1;
                }
                PickEffect::Nothing
            },
            KeyCode::Right => {
                if key.ctrl {
                    let r = word_right(self.remote_url.as_str(), cur);
                    proof {
                        crate::nav::lemma_word_right_bound(old(self)@.url, cur as int);
                    }
                    self.remote_url_cursor = r;
                } else if cur < len {
                    self.remote_url_cursor = cur + 1;
                }
                PickEffect::Nothing
            },
            KeyCode::Home => {
                self.remote_url_cursor = 0;
                PickEffect::Nothing
            },
            KeyCode::End => {
                self.remote_url_cursor = len;
                PickEffect::Nothing
            },
            KeyCode::Char(c) => {
                if key.ctrl {
                    return PickEffect::Nothing;
                }
                let mut v = url;
                v.insert(cur, c);
                let n2 = v.len();
                assert(n2 == len + 1);
                self.remote_url = string_from_chars(v.as_slice());
                self.remote_url_cursor = cur + 1;
                PickEffect::Nothing
            },
            _ => {
                PickEffect::Nothing
            },
        }
    }
}

} // verus!
