//! A shared chat room: the messages every participant sees, and the reply
//! being generated right now.
use vstd::prelude::*;
use crate::text::{chars_of, extend_str, find, find_exec, slice_to_vec, string_from_chars};

verus! {

/// The state a room shares between its participants. Messages are only
/// ever appended; every change of them bumps `version`, every streamed
/// token bumps `live_token_version`.
pub struct RoomState<M> {
    pub messages: Vec<M>,
    pub version: u64,
    /// The tokens of the reply being generated (cleared when it completes).
    pub live_tokens: String,
    pub live_token_version: u64,
    /// Who is generating the live reply.
    pub live_user: String,
}

impl<M> RoomState<M> {
    /// An empty room.
    pub fn new() -> (r: Self)
        ensures
            r.messages@.len() == 0,
            r.version == 0,
            r.live_tokens@.len() == 0,
            r.live_token_version == 0,
            r.live_user@.len() == 0,
    {
        RoomState {
            messages: Vec::new(),
            version: 0,
            live_tokens: String::new(),
            live_token_version: 0,
            live_user: String::new(),
        }
    }

    /// Streams one token of the live reply of `user`.
    pub fn push_token(&mut self, token: &str, user: String)
        requires
            old(self).live_token_version < u64::MAX,
        ensures
            final(self).live_tokens@ == old(self).live_tokens@ + token@,
            final(self).live_token_version == old(self).live_token_version + 1,
            final(self).live_user == user,
            final(self).messages == old(self).messages,
            final(self).version == old(self).version,
    {
        self.live_tokens.append(token);
        self.live_token_version = self.live_token_version + 1;
        self.live_user = user;
    }

    /// Appends the messages of a finished turn and clears the live reply.
    pub fn complete_turn(&mut self, new: Vec<M>)
        requires
            old(self).version < u64::MAX,
        ensures
            final(self).messages@ == old(self).messages@ + new@,
            final(self).version == old(self).version + 1,
            final(self).live_tokens@.len() == 0,
            final(self).live_token_version == 0,
            final(self).live_user@.len() == 0,
    {
        let mut new = new;
        self.messages.append(&mut new);
        self.version = self.version + 1;
        self.live_tokens = String::new();
        self.live_token_version = 0;
        self.live_user = String::new();
    }

    /// Appends a user's message as soon as it is sent; `user` starts the
    /// live reply.
    pub fn add_user_message(&mut self, new: Vec<M>, user: String)
        requires
            old(self).version < u64::MAX,
        ensures
            final(self).messages@ == old(self).messages@ + new@,
            final(self).version == old(self).version + 1,
            final(self).live_user == user,
            final(self).live_tokens == old(self).live_tokens,
            final(self).live_token_version == old(self).live_token_version,
    {
        let mut new = new;
        self.messages.append(&mut new);
        self.version = self.version + 1;
        self.live_user = user;
    }

    /// Posts a notice (someone joined or left).
    pub fn announce(&mut self, m: M)
        requires
            old(self).version < u64::MAX,
        ensures
            final(self).messages@ == old(self).messages@.push(m),
            final(self).version == old(self).version + 1,
            final(self).live_tokens == old(self).live_tokens,
            final(self).live_token_version == old(self).live_token_version,
            final(self).live_user == old(self).live_user,
    {
        self.messages.push(m);
        self.version = self.version + 1;
    }

    /// How many messages a participant that has seen `synced` of them has
    /// yet to receive.
    pub fn unseen(&self, synced: usize) -> (n: usize)
        ensures
            n == if self.messages@.len() > synced { self.messages@.len() - synced } else { 0 },
    {
        if self.messages.len() > synced {
            self.messages.len() - synced
        } else {
            0
        }
    }
}

/// What a participant's connection has passed on of a room: the version of
/// its messages, the version of its live tokens, and how many chars of the
/// live reply it has sent.
pub struct RoomWatch {
    pub version: u64,
    pub token_version: u64,
    pub sent: usize,
}

/// What the connection passes on after a look at the room: new live tokens
/// (who, text), and the index from which messages it lacks are sent.
pub struct RoomNews {
    pub tokens: Option<(String, String)>,
    pub update_from: Option<usize>,
}

/// The connection's view after looking at the room `r`, whose chat it
/// holds `held` messages of, and what it passes on: live tokens past
/// `sent` when their version moved (none when nothing new was written);
/// when the messages' version moved, the messages past `held` (if any),
/// after which everything live so far counts as sent.
pub open spec fn room_look<M>(w: RoomWatch, r: RoomState<M>, held: int) -> (RoomWatch, Option<(Seq<char>, Seq<char>)>, Option<int>) {
    let live = r.live_tokens@;
    let (w1, tokens) = if r.live_token_version != w.token_version {
        (
            RoomWatch { version: w.version, token_version: r.live_token_version, sent: live.len() as usize },
            if w.sent < live.len() { Some((r.live_user@, live.skip(w.sent as int))) } else { None },
        )
    } else {
        (w, None)
    };
    if r.version != w1.version {
        (
            RoomWatch { version: r.version, token_version: r.live_token_version, sent: live.len() as usize },
            tokens,
            if r.messages@.len() > held { Some(held) } else { None },
        )
    } else {
        (w1, tokens, None)
    }
}

impl RoomWatch {
    /// A connection that has passed on all of `r` so far.
    pub fn of<M>(r: &RoomState<M>) -> (w: RoomWatch)
        ensures
            w == (RoomWatch { version: r.version, token_version: r.live_token_version, sent: r.live_tokens@.len() as usize }),
    {
        RoomWatch { version: r.version, token_version: r.live_token_version, sent: char_count(r.live_tokens.as_str()) }
    }

    /// Looks at the room `r`, of whose messages the connection holds `held`.
    pub fn look<M>(&mut self, r: &RoomState<M>, held: usize) -> (n: RoomNews)
        ensures
            ({
                let (w, t, u) = room_look(*old(self), *r, held as int);
                &&& *final(self) == w
                &&& match n.tokens {
                    Some((who, text)) => t == Some((who@, text@)),
                    None => t is None,
                }
                &&& match n.update_from {
                    Some(i) => u == Some(i as int),
                    None => u is None,
                }
            }),
    {
        let live = chars_of(r.live_tokens.as_str());
        let mut tokens: Option<(String, String)> = None;
        if r.live_token_version != self.token_version {
            if self.sent < live.len() {
                let rest = slice_to_vec(live.as_slice(), self.sent, live.len());
                assert(rest@ =~= r.live_tokens@.skip(self.sent as int));
                tokens = Some((clone_str(r.live_user.as_str()), string_from_chars(rest.as_slice())));
            }
            self.token_version = r.live_token_version;
            self.sent = live.len();
        }
        let mut update_from: Option<usize> = None;
        if r.version != self.version {
            if r.messages.len() > held {
                update_from = Some(held);
            }
            self.version = r.version;
            self.token_version = r.live_token_version;
            self.sent = live.len();
        }
        RoomNews { tokens, update_from }
    }
}

/// A connection that has passed on everything of a room passes on a token
/// streamed into it next, exactly, and no messages.
pub proof fn lemma_watch_passes_new_token<M>(r1: RoomState<M>, r2: RoomState<M>, held: int)
    requires
        r2.live_tokens@.len() <= usize::MAX,
        r2.live_tokens@.len() > r1.live_tokens@.len(),
        r2.live_tokens@.take(r1.live_tokens@.len() as int) == r1.live_tokens@,
        r2.live_token_version == r1.live_token_version + 1,
        r2.version == r1.version,
    ensures
        ({
            let w = RoomWatch { version: r1.version, token_version: r1.live_token_version, sent: r1.live_tokens@.len() as usize };
            let (w2, t, u) = room_look(w, r2, held);
            &&& t == Some((r2.live_user@, r2.live_tokens@.skip(r1.live_tokens@.len() as int)))
            &&& u is None
            &&& w2 == RoomWatch { version: r2.version, token_version: r2.live_token_version, sent: r2.live_tokens@.len() as usize }
        }),
{
}

fn char_count(s: &str) -> (n: usize)
    ensures
        n == s@.len(),
{
    chars_of(s).len()
}

fn clone_str(s: &str) -> (r: String)
    ensures
        r@ == s@,
{
    crate::text::to_owned(s)
}

/// The link other participants use to join the room `room_id`: under the
/// server the client connected to (its URL up to `/id/`, without trailing
/// `/`), else under the local server at `host:port`.
pub open spec fn share_link(remote_url: Seq<char>, local: Seq<char>, room_id: Seq<char>) -> Seq<char> {
    let base = if remote_url.len() > 0 {
        strip_trailing_slashes(match find(remote_url, "/id/"@) {
            Some(i) => remote_url.take(i),
            None => remote_url,
        })
    } else {
        "ws://"@ + local
    };
    base + "/id/"@ + room_id
}

/// `s` without trailing `/` characters.
pub open spec fn strip_trailing_slashes(s: Seq<char>) -> Seq<char>
    decreases s.len(),
{
    if s.len() > 0 && s.last() == '/' {
        strip_trailing_slashes(s.drop_last())
    } else {
        s
    }
}

/// The share link of a room, `local` being the embedded server's
/// `host:port`.
pub fn room_share_url(remote_url: &str, local: &str, room_id: &str) -> (r: String)
    ensures
        r@ == share_link(remote_url@, local@, room_id@),
{
    let mut v: Vec<char> = Vec::new();
    if remote_url.is_empty() {
        extend_str(&mut v, "ws://");
        extend_str(&mut v, local);
    } else {
        let c = chars_of(remote_url);
        let pat = chars_of("/id/");
        let end = match find_exec(c.as_slice(), pat.as_slice()) {
            Some(i) => i,
            None => c.len(),
        };
        let head = slice_to_vec(c.as_slice(), 0, end);
        let ghost cut = match find(remote_url@, "/id/"@) {
            Some(i) => remote_url@.take(i),
            None => remote_url@,
        };
        assert(head@ =~= cut);
        let mut n = head.len();
        assert(head@.take(n as int) =~= head@);
        while n > 0 && head[n - 1] == '/'
            invariant
                n <= head@.len(),
                strip_trailing_slashes(head@.take(n as int)) == strip_trailing_slashes(cut),
                head@ == cut,
            decreases n,
        {
            assert(head@.take(n as int).drop_last() =~= head@.take(n - 1));
            n -= 1;
        }
        let base = slice_to_vec(head.as_slice(), 0, n);
        assert(base@ =~= head@.take(n as int));
        v = base;
    }
    extend_str(&mut v, "/id/");
    extend_str(&mut v, room_id);
    string_from_chars(v.as_slice())
}

} // verus!
