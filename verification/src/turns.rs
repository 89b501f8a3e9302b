//! One turn of the conversation: what is kept of a sent message, what the
//! model is sent, how answers and declined commands are labelled, and the
//! URL a remote session opens.
use vstd::prelude::*;
use crate::config::NeuronMode;
use crate::message::{api_role_name, Role};
use crate::text::{
    chars_of, chars_eq, contains, contains_exec, extend_str, string_from_chars, string_views, trim,
    trim_bounds, words, words_exec, views,
};
use crate::meta::{join, join_into};

verus! {

// ── input history ─────────────────────────────────────────────────────────

/// Most entries the input history keeps.
pub const MAX_HISTORY: usize = 100;

/// The history after sending `raw`: unchanged when `raw` repeats the last
/// entry, else `raw` appended and the oldest entry dropped beyond 100.
pub open spec fn history_after(h: Seq<Seq<char>>, raw: Seq<char>) -> Seq<Seq<char>> {
    if h.len() > 0 && h.last() == raw {
        h
    } else if h.len() + 1 > MAX_HISTORY {
        h.push(raw).skip(1)
    } else {
        h.push(raw)
    }
}

/// Records a sent message in the input history.
pub fn push_history(history: &mut Vec<String>, raw: &str)
    ensures
        string_views(final(history)@) == history_after(string_views(old(history)@), raw@),
{
    let n = history.len();
    if n > 0 {
        let last = chars_of(history[n - 1].as_str());
        let r = chars_of(raw);
        if chars_eq(last.as_slice(), r.as_slice()) {
            assert(string_views(history@).last() == history@[n - 1]@);
            return;
        }
    }
    let entry = String::from_str(raw);
    proof {
        assert(string_views(history@.push(entry)) =~= string_views(history@).push(raw@));
    }
    history.push(entry);
    if history.len() > MAX_HISTORY {
        let ghost before = history@;
        history.remove(0);
        assert(string_views(history@) =~= string_views(before).skip(1));
    }
}

/// After recording, the history ends with the message and holds at most 100
/// entries (when it held at most 100 before).
pub proof fn lemma_history_bounded(h: Seq<Seq<char>>, raw: Seq<char>)
    requires
        h.len() <= MAX_HISTORY,
    ensures
        history_after(h, raw).len() <= MAX_HISTORY,
        history_after(h, raw).len() > 0,
        history_after(h, raw).last() == raw,
{
}

// ── identities ────────────────────────────────────────────────────────────

/// `name#id`: a participant's name with the id of its session.
pub open spec fn tagged_name(name: Seq<char>, id: Seq<char>) -> Seq<char> {
    name + seq!['#'] + id
}

/// The user's full identity in a room: `username#session_id`.
pub fn display_username(username: &str, user_session_id: &str) -> (r: String)
    ensures
        r@ == tagged_name(username@, user_session_id@),
{
    let mut v: Vec<char> = Vec::new();
    extend_str(&mut v, username);
    v.push('#');
    extend_str(&mut v, user_session_id);
    string_from_chars(v.as_slice())
}

/// The identity shown on the model's replies: the model's name without its
/// tag, with the session id; none without a model.
pub open spec fn model_identity_text(model: Option<Seq<char>>, session_id: Seq<char>) -> Option<Seq<char>> {
    match model {
        Some(m) => if m.len() > 0 { Some(tagged_name(crate::chat::display_model_name(m), session_id)) } else { None },
        None => None,
    }
}

/// The identity shown on the model's replies.
pub fn model_identity(model: Option<&str>, session_id: &str) -> (r: Option<String>)
    ensures
        match r {
            Some(s) => model_identity_text(
                match model {
                    Some(m) => Some(m@),
                    None => None,
                },
                session_id@,
            ) == Some(s@),
            None => model_identity_text(
                match model {
                    Some(m) => Some(m@),
                    None => None,
                },
                session_id@,
            ) is None,
        },
{
    match model {
        Some(m) => {
            if m.is_empty() {
                None
            } else {
                Some(display_username(crate::chat::model_display_name(m), session_id))
            }
        },
        None => None,
    }
}

/// The name part of a room identity `name#id` (everything before the last
/// `#`), or all of it without `#`.
pub open spec fn bare_name(s: Seq<char>) -> Seq<char> {
    match crate::text::rfind(s, seq!['#']) {
        Some(i) => s.take(i),
        None => s,
    }
}

/// The user's name in an identity the server assigned.
pub fn bare_username(s: &str) -> (r: String)
    ensures
        r@ == bare_name(s@),
{
    let c = chars_of(s);
    let hash = vec!['#'];
    assert(hash@ =~= seq!['#']);
    match crate::text::rfind_exec(c.as_slice(), hash.as_slice()) {
        Some(i) => {
            assert(c@.subrange(0, i as int) =~= s@.take(i as int));
            string_from_chars(&c.as_slice()[0..i])
        },
        None => String::from_str(s),
    }
}

/// Whether the local model should answer a message: unless the message
/// mentions someone, and neither the user nor the local model is among
/// them.
pub open spec fn addressed_here(raw: Seq<char>, user: Seq<char>, model: Seq<char>) -> bool {
    crate::chat::mentions_in(words(raw)).len() == 0 || crate::chat::mentioned(user, raw) || crate::chat::mentioned(model, raw)
}

/// Whether the local model answers the message `raw` sent by `user`, with
/// `model` selected (none counts as the empty name).
pub fn answers_here(raw: &str, user: &str, model: Option<&str>) -> (b: bool)
    ensures
        b == addressed_here(
            raw@,
            user@,
            crate::chat::display_model_name(
                match model {
                    Some(m) => m@,
                    None => ""@,
                },
            ),
        ),
{
    let ms = crate::chat::extract_mentions(raw);
    if ms.len() == 0 {
        return true;
    }
    let m = match model {
        Some(m) => m,
        None => "",
    };
    let local = crate::chat::model_display_name(m);
    crate::chat::is_mentioned(user, raw) || crate::chat::is_mentioned(local, raw)
}

// ── what the model is sent ────────────────────────────────────────────────

/// The text the model receives for a user message: the pinned-file notes
/// first, a note on the file panel before that, and the plan-mode
/// instruction last.
pub open spec fn user_llm_text(base: Seq<char>, diff_note: Seq<char>, panel: Option<Seq<char>>, plan_mode: bool) -> Seq<char> {
    let a = if diff_note.len() > 0 { diff_note + "\n\n"@ + base } else { base };
    let b = match panel {
        Some(p) => "[UI context: the file panel is showing \""@ + p + "\"]\n\n"@ + a,
        None => a,
    };
    if plan_mode {
        b + "\n\n[PLAN MODE: Describe your plan step by step — which files, commands, and changes are involved. Do NOT emit <tool>, <patch>, or <ask> tags. Output the plan only.]"@
    } else {
        b
    }
}

/// Composes the text the model receives for a user message.
pub fn user_llm_content(base: &str, diff_note: &str, panel: Option<&str>, plan_mode: bool) -> (r: String)
    ensures
        r@ == user_llm_text(
            base@,
            diff_note@,
            match panel {
                Some(p) => Some(p@),
                None => None,
            },
            plan_mode,
        ),
{
    let mut v: Vec<char> = Vec::new();
    if let Some(p) = panel {
        extend_str(&mut v, "[UI context: the file panel is showing \"");
        extend_str(&mut v, p);
        extend_str(&mut v, "\"]\n\n");
    }
    if !diff_note.is_empty() {
        extend_str(&mut v, diff_note);
        extend_str(&mut v, "\n\n");
    }
    extend_str(&mut v, base);
    if plan_mode {
        extend_str(
            &mut v,
            "\n\n[PLAN MODE: Describe your plan step by step — which files, commands, and changes are involved. Do NOT emit <tool>, <patch>, or <ask> tags. Output the plan only.]",
        );
    }
    let ghost pv = match panel {
        Some(p) => Some(p@),
        None => None,
    };
    assert(v@ =~= user_llm_text(base@, diff_note@, pv, plan_mode));
    string_from_chars(v.as_slice())
}

/// The history sent to the model: the messages with text for it (every
/// user message counts), as (API role, text) pairs.
pub open spec fn api_history(msgs: Seq<(Role, Seq<char>)>) -> Seq<(Seq<char>, Seq<char>)>
    decreases msgs.len(),
{
    if msgs.len() == 0 {
        seq![]
    } else {
        let m = msgs.last();
        api_history(msgs.drop_last()) + if m.1.len() > 0 || m.0 == Role::User {
            seq![(api_role_name(m.0), m.1)]
        } else {
            seq![]
        }
    }
}

/// The views of (role, text) pairs.
pub open spec fn role_text_views(v: Seq<(Role, String)>) -> Seq<(Role, Seq<char>)> {
    v.map_values(|p: (Role, String)| (p.0, p.1@))
}

/// The views of pairs of strings.
pub open spec fn pair_views(v: Seq<(String, String)>) -> Seq<(Seq<char>, Seq<char>)> {
    v.map_values(|p: (String, String)| (p.0@, p.1@))
}

/// The chat history as the model receives it.
pub fn build_api_history(msgs: &Vec<(Role, String)>) -> (r: Vec<(String, String)>)
    ensures
        pair_views(r@) == api_history(role_text_views(msgs@)),
{
    let ghost mv = role_text_views(msgs@);
    let mut r: Vec<(String, String)> = Vec::new();
    let mut i: usize = 0;
    while i < msgs.len()
        invariant
            i <= msgs@.len(),
            mv == role_text_views(msgs@),
            pair_views(r@) == api_history(mv.take(i as int)),
        decreases msgs.len() - i,
    {
        let (role, text) = &msgs[i];
        assert(mv.take(i + 1).drop_last() =~= mv.take(i as int));
        assert(mv.take(i + 1).last() == (*role, text@));
        if !text.as_str().is_empty() || *role == Role::User {
            let name = role.to_api_str();
            let p = (String::from_str(name), String::from_str(text.as_str()));
            proof {
                assert(pair_views(r@.push(p)) =~= pair_views(r@).push((p.0@, p.1@)));
            }
            r.push(p);
        } else {
            assert(api_history(mv.take(i + 1)) =~= api_history(mv.take(i as int)));
        }
        i += 1;
    }
    assert(mv.take(msgs@.len() as int) =~= mv);
    r
}

// ── answers and declined commands ─────────────────────────────────────────

/// The label of the user's answer to a question.
pub open spec fn answer_label_text(question: Seq<char>) -> Seq<char> {
    if question.len() == 0 {
        "↩ User selection"@
    } else {
        "↩ "@ + question
    }
}

/// The label shown with the user's answer to `question`.
pub fn answer_label(question: &str) -> (r: String)
    ensures
        r@ == answer_label_text(question@),
{
    if question.is_empty() {
        return String::from_str("↩ User selection");
    }
    let mut v: Vec<char> = Vec::new();
    extend_str(&mut v, "↩ ");
    extend_str(&mut v, question);
    string_from_chars(v.as_slice())
}

/// The text the model reads for the user's answer.
pub fn user_response(response: &str) -> (r: String)
    ensures
        r@ == "User response: "@ + response@,
{
    let mut v: Vec<char> = Vec::new();
    extend_str(&mut v, "User response: ");
    extend_str(&mut v, response);
    string_from_chars(v.as_slice())
}

/// The label of a shell command the user declined: its first word, or `?`.
pub open spec fn declined_label_text(call: Seq<char>) -> Seq<char> {
    "⛔ "@ + if words(call).len() > 0 { words(call)[0] } else { seq!['?'] }
}

/// The label shown for a declined shell command.
pub fn declined_label(call: &str) -> (r: String)
    ensures
        r@ == declined_label_text(call@),
{
    let c = chars_of(call);
    let ws = words_exec(c.as_slice());
    let mut v: Vec<char> = Vec::new();
    extend_str(&mut v, "⛔ ");
    if ws.len() > 0 {
        assert(views(ws@)[0] == ws@[0]@);
        crate::text::extend_chars(&mut v, ws[0].as_slice());
    } else {
        v.push('?');
    }
    string_from_chars(v.as_slice())
}

/// What the remote client shows after answering a patch question.
pub open spec fn remote_patch_text(response: Seq<char>) -> Seq<char> {
    if response == "Yes"@ { "Patch applied on server."@ } else { "Patch declined."@ }
}

/// The status shown after answering a patch question on a remote session.
pub fn remote_patch_status(response: &str) -> (r: String)
    ensures
        r@ == remote_patch_text(response@),
{
    let y = chars_of("Yes");
    let c = chars_of(response);
    if chars_eq(c.as_slice(), y.as_slice()) {
        String::from_str("Patch applied on server.")
    } else {
        String::from_str("Patch declined.")
    }
}

// ── the remote session's URL ──────────────────────────────────────────────

/// The query parameters a terminal client sends for its neuron settings.
pub open spec fn session_params(mode: NeuronMode, preset: Option<Seq<char>>) -> Seq<Seq<char>> {
    seq!["client=tui"@] + match mode {
        NeuronMode::Presets => seq!["neuron_mode=presets"@] + match preset {
            Some(p) => seq!["preset="@ + p],
            None => seq![],
        },
        NeuronMode::Smart => seq!["neuron_mode=smart"@],
        NeuronMode::Manual => seq!["neuron_mode=manual"@],
    }
}

/// The URL the terminal client opens: the trimmed server URL with the
/// session parameters appended after `?` (or `&` when it has a query).
pub open spec fn session_url(url: Seq<char>, mode: NeuronMode, preset: Option<Seq<char>>) -> Seq<char> {
    let u = trim(url);
    u + (if contains(u, seq!['?']) { seq!['&'] } else { seq!['?'] }) + join(session_params(mode, preset), seq!['&'])
}

/// The URL for connecting to a remote server with the current settings.
pub fn remote_ws_url(remote_url: &str, mode: NeuronMode, active_preset: Option<&str>) -> (r: String)
    ensures
        r@ == session_url(
            remote_url@,
            mode,
            match active_preset {
                Some(p) => Some(p@),
                None => None,
            },
        ),
{
    let mut params: Vec<Vec<char>> = Vec::new();
    params.push(chars_of("client=tui"));
    match mode {
        NeuronMode::Presets => {
            params.push(chars_of("neuron_mode=presets"));
            if let Some(p) = active_preset {
                let mut v = chars_of("preset=");
                extend_str(&mut v, p);
                params.push(v);
            }
        },
        NeuronMode::Smart => params.push(chars_of("neuron_mode=smart")),
        NeuronMode::Manual => params.push(chars_of("neuron_mode=manual")),
    }
    let ghost pv = match active_preset {
        Some(p) => Some(p@),
        None => None,
    };
    assert(views(params@) =~= session_params(mode, pv));
    let c = chars_of(remote_url);
    let (a, b) = trim_bounds(c.as_slice());
    let mut out = crate::text::slice_to_vec(c.as_slice(), a, b);
    let q = vec!['?'];
    assert(q@ == seq!['?']);
    if contains_exec(out.as_slice(), q.as_slice()) {
        out.push('&');
    } else {
        out.push('?');
    }
    let amp = vec!['&'];
    assert(amp@ == seq!['&']);
    join_into(&mut out, &params, amp.as_slice());
    string_from_chars(out.as_slice())
}

// ── answering a question ──────────────────────────────────────────────────

/// What an answer to a pending question leads to.
#[derive(Debug, Clone, Copy, PartialEq, Eq, Structural)]
pub enum AnswerPlan {
    /// Remote session: report the patch answer and send it to the server.
    RemotePatch,
    /// Remote session: show the answer and send it to the server.
    RemoteAnswer,
    /// Run the held-back shell command.
    RunTool,
    /// Report the held-back shell command as declined.
    DeclineTool,
    ApplyPatch,
    DeclinePatch,
    /// Give the answer to the model and continue the reply.
    Answer,
    /// No question is pending.
    Nothing,
}

/// The plan for an answer: a remote session sends it on; locally a held
/// command comes first, then a patch, then the question; only the answer
/// `Yes` runs a command or applies a patch.
pub open spec fn answer_plan(remote: bool, pending_tool: bool, pending_patch: bool, has_ask: bool, yes: bool) -> AnswerPlan {
    if remote {
        if pending_patch { AnswerPlan::RemotePatch } else { AnswerPlan::RemoteAnswer }
    } else if pending_tool {
        if yes { AnswerPlan::RunTool } else { AnswerPlan::DeclineTool }
    } else if pending_patch {
        if yes { AnswerPlan::ApplyPatch } else { AnswerPlan::DeclinePatch }
    } else if has_ask {
        AnswerPlan::Answer
    } else {
        AnswerPlan::Nothing
    }
}

/// Decides what the answer `response` leads to.
pub fn plan_answer(remote: bool, pending_tool: bool, pending_patch: bool, has_ask: bool, response: &str) -> (p: AnswerPlan)
    ensures
        p == answer_plan(remote, pending_tool, pending_patch, has_ask, response@ == "Yes"@),
{
    let yes = crate::text::str_eq(response, "Yes");
    if remote {
        if pending_patch {
            AnswerPlan::RemotePatch
        } else {
            AnswerPlan::RemoteAnswer
        }
    } else if pending_tool {
        if yes {
            AnswerPlan::RunTool
        } else {
            AnswerPlan::DeclineTool
        }
    } else if pending_patch {
        if yes {
            AnswerPlan::ApplyPatch
        } else {
            AnswerPlan::DeclinePatch
        }
    } else if has_ask {
        AnswerPlan::Answer
    } else {
        AnswerPlan::Nothing
    }
}

// ── starting a reply ──────────────────────────────────────────────────────

/// Tokens estimated for texts of these byte lengths (four bytes a token).
pub open spec fn token_estimate(lens: Seq<usize>) -> nat
    decreases lens.len(),
{
    if lens.len() == 0 {
        0
    } else {
        token_estimate(lens.drop_last()) + (lens.last() / 4) as nat
    }
}

/// How far `p` is below `n`.
pub open spec fn gap(n: nat, p: nat) -> nat {
    if n > p { (n - p) as nat } else { 0 }
}

/// The first of `p`, `2p`, `4p`, … that is at least `n`.
pub open spec fn pow2_from(n: nat, p: nat) -> nat
    decreases gap(n, p),
{
    if p == 0 || p >= n {
        p
    } else {
        pow2_from(n, p * 2)
    }
}

/// The smallest power of two at least `n`.
pub open spec fn next_pow2(n: nat) -> nat {
    pow2_from(n, 1)
}

/// The context window requested when sized to the conversation: twice the
/// larger of the tokens used and the tokens estimated for the texts sent,
/// at least 8192, rounded up to a power of two when asked, and never above
/// the model's maximum.
pub open spec fn dynamic_ctx(max: u64, used: u64, lens: Seq<usize>, pow2: bool) -> nat {
    let est = token_estimate(lens);
    let base = if used >= est { used as nat } else { est };
    let needed = if base * 2 >= 8192 { base * 2 } else { 8192 };
    let rounded = if pow2 { next_pow2(needed) } else { needed };
    if rounded <= max { rounded } else { max as nat }
}

/// The base of `dynamic_ctx`.
pub open spec fn ctx_base(used: u64, lens: Seq<usize>) -> nat {
    let est = token_estimate(lens);
    if used >= est { used as nat } else { est }
}

/// The context window requested: the model's maximum with the full
/// strategy, `dynamic_ctx` otherwise; none when the maximum is unknown.
pub open spec fn context_size(full: bool, max: Option<u64>, used: u64, lens: Seq<usize>, pow2: bool) -> Option<nat> {
    match max {
        None => None,
        Some(m) => if full { Some(m as nat) } else { Some(dynamic_ctx(m, used, lens, pow2)) },
    }
}

proof fn lemma_estimate_mono(lens: Seq<usize>, i: int)
    requires
        0 <= i <= lens.len(),
    ensures
        token_estimate(lens.take(i)) <= token_estimate(lens),
    decreases lens.len(),
{
    if i < lens.len() {
        lemma_estimate_mono(lens.drop_last(), i);
        assert(lens.drop_last().take(i) =~= lens.take(i));
    } else {
        assert(lens.take(i) =~= lens);
    }
}

/// The context window to request; `lens` are the byte lengths of the texts
/// sent to the model.
pub fn num_ctx(full: bool, max: Option<u64>, used: u64, lens: &[usize], pow2: bool) -> (r: Option<u64>)
    requires
        !full && max is Some ==> ctx_base(used, lens@) * 2 <= u64::MAX,
        !full && max is Some && pow2 ==> ctx_base(used, lens@) * 2 <= 0x8000_0000_0000_0000,
    ensures
        match r {
            Some(v) => context_size(full, max, used, lens@, pow2) == Some(v as nat),
            None => context_size(full, max, used, lens@, pow2) is None,
        },
{
    let m = match max {
        None => return None,
        Some(m) => m,
    };
    if full {
        return Some(m);
    }
    let mut est: u64 = 0;
    let mut i: usize = 0;
    proof {
        lemma_estimate_mono(lens@, lens@.len() as int);
        assert(lens@.take(0) =~= Seq::<usize>::empty());
    }
    while i < lens.len()
        invariant
            i <= lens@.len(),
            est == token_estimate(lens@.take(i as int)),
            token_estimate(lens@) <= u64::MAX,
        decreases lens.len() - i,
    {
        proof {
            assert(lens@.take(i + 1).drop_last() =~= lens@.take(i as int));
            lemma_estimate_mono(lens@, i + 1);
        }
        est = est + (lens[i] / 4) as u64;
        i += 1;
    }
    assert(lens@.take(lens@.len() as int) =~= lens@);
    let base = if used >= est {
        used
    } else {
        est
    };
    let twice = base * 2;
    let needed = if twice >= 8192 {
        twice
    } else {
        8192
    };
    let rounded = if pow2 {
        let mut p: u64 = 1;
        while p < needed
            invariant
                1 <= p,
                needed <= 0x8000_0000_0000_0000,
                pow2_from(needed as nat, p as nat) == pow2_from(needed as nat, 1),
            decreases gap(needed as nat, p as nat),
        {
            p = p * 2;
        }
        p
    } else {
        needed
    };
    Some(if rounded <= m {
        rounded
    } else {
        m
    })
}

proof fn lemma_pow2_from_covers(n: nat, p: nat)
    requires
        p > 0,
    ensures
        pow2_from(n, p) >= n,
        pow2_from(n, p) >= p,
    decreases gap(n, p),
{
    if p < n {
        lemma_pow2_from_covers(n, p * 2);
    }
}

/// The window sized to the conversation never exceeds the model's maximum,
/// and is at least 8192 tokens when the model allows that many, and at
/// least twice the tokens used.
pub proof fn lemma_dynamic_ctx_bounds(m: u64, used: u64, lens: Seq<usize>, pow2: bool)
    ensures
        dynamic_ctx(m, used, lens, pow2) <= m,
        m >= 8192 ==> dynamic_ctx(m, used, lens, pow2) >= 8192,
        2 * used <= m ==> dynamic_ctx(m, used, lens, pow2) >= 2 * used,
{
    let est = token_estimate(lens);
    let base = if used >= est { used as nat } else { est };
    let needed: nat = if base * 2 >= 8192 { base * 2 } else { 8192 };
    lemma_pow2_from_covers(needed, 1);
}

/// The prompt that continues an open assistant turn after a tool result,
/// when the last message sent is the assistant's, no message carries an
/// image and the model's chat template is one of the known formats.
pub open spec fn continuation(
    history: Seq<(Seq<char>, Seq<char>)>,
    has_images: bool,
    template: Option<Seq<char>>,
    system: Seq<char>,
) -> Option<Seq<char>> {
    if history.len() > 0 && history.last().0 == "assistant"@ && !has_images {
        match template {
            Some(t) => match crate::prompt::template_format_of(t) {
                Some(f) => Some(
                    crate::prompt::raw_prompt(f, if system.len() == 0 { None } else { Some(system) }, history),
                ),
                None => None,
            },
            None => None,
        }
    } else {
        None
    }
}

/// The raw prompt for continuing the reply, if the reply continues.
pub fn continuation_prompt(history: &[(String, String)], has_images: bool, template: Option<&str>, system: &str) -> (r:
    Option<String>)
    ensures
        match r {
            Some(s) => continuation(
                crate::prompt::history_view(history@),
                has_images,
                match template {
                    Some(t) => Some(t@),
                    None => None,
                },
                system@,
            ) == Some(s@),
            None => continuation(
                crate::prompt::history_view(history@),
                has_images,
                match template {
                    Some(t) => Some(t@),
                    None => None,
                },
                system@,
            ) is None,
        },
{
    let n = history.len();
    if n == 0 || has_images {
        return None;
    }
    let last_assistant = crate::text::str_eq(history[n - 1].0.as_str(), "assistant");
    assert(crate::prompt::history_view(history@).last().0 == history@[n - 1].0@);
    if !last_assistant {
        return None;
    }
    let t = match template {
        Some(t) => t,
        None => return None,
    };
    match crate::prompt::detect_template_format(t) {
        Some(f) => {
            let sys = if system.is_empty() {
                None
            } else {
                Some(system)
            };
            Some(crate::prompt::build_raw_prompt(f, sys, history))
        },
        None => None,
    }
}

} // verus!
