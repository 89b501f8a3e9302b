//! Prompt building: the runtime-context paragraph and raw continuation
//! prompts in a model's own chat-template format.
use vstd::prelude::*;
use vstd::string::*;
use crate::text::{chars_of, contains, contains_exec, str_is, string_views};

verus! {

/// Where the model is running, which changes what it is told it can do.
pub enum RuntimeMode {
    Tui,
    Headless,
    Server { auto_yes: bool },
    WebSocket { auto_yes: bool },
    /// A WebSocket session whose client is the terminal UI itself.
    RemoteTui { auto_yes: bool },
}

/// The decimal digits of `n`.
pub open spec fn decimal(n: nat) -> Seq<char>
    decreases n,
{
    if n < 10 {
        seq![digit_char(n)]
    } else {
        decimal(n / 10) + seq![digit_char(n % 10)]
    }
}

/// The ASCII digit for `d < 10`.
pub open spec fn digit_char(d: nat) -> char {
    (48 + d) as char
}

/// The decimal text of `n` (`n.to_string()`).
pub fn u64_to_decimal(n: u64) -> (s: String)
    ensures
        s@ == decimal(n as nat),
{
    let mut acc: Vec<char> = Vec::new();
    let mut m = n;
    loop
        invariant_except_break
            decimal(n as nat) == decimal(m as nat) + acc@,
        ensures
            decimal(n as nat) == acc@,
        decreases m,
    {
        if m < 10 {
            let c = (48u8 + m as u8) as char;
            assert(c == digit_char(m as nat));
            let ghost prev = acc@;
            acc.insert(0, c);
            assert(acc@ =~= seq![c] + prev);
            break;
        }
        let c = (48u8 + (m % 10) as u8) as char;
        assert(c == digit_char((m % 10) as nat));
        let ghost prev = acc@;
        acc.insert(0, c);
        assert(acc@ =~= seq![c] + prev);
        assert(decimal(m as nat) + prev =~= decimal((m / 10) as nat) + acc@);
        m = m / 10;
    }
    crate::text::string_from_chars(acc.as_slice())
}

/// Chat-template families that raw prompts can be written in.
#[derive(Debug, Clone, Copy, PartialEq, Eq, Structural)]
pub enum TemplateFormat {
    /// qwen, deepseek, nemotron and most recent reasoning models.
    ChatML,
    /// llama 3.x.
    Llama3,
    /// gemma 2/3 (assistant role is `model`).
    Gemma,
}

/// The template family that a model's Go template string belongs to.
pub open spec fn template_format_of(t: Seq<char>) -> Option<TemplateFormat> {
    if contains(t, "<|im_start|>"@) {
        Some(TemplateFormat::ChatML)
    } else if contains(t, "<|start_header_id|>"@) {
        Some(TemplateFormat::Llama3)
    } else if contains(t, "<start_of_turn>"@) {
        Some(TemplateFormat::Gemma)
    } else {
        None
    }
}

/// Detects the template family from the template string of a model;
/// unknown formats give `None`.
pub fn detect_template_format(template: &str) -> (r: Option<TemplateFormat>)
    ensures
        r == template_format_of(template@),
{
    let t = chars_of(template);
    let im = chars_of("<|im_start|>");
    let hdr = chars_of("<|start_header_id|>");
    let sot = chars_of("<start_of_turn>");
    if contains_exec(t.as_slice(), im.as_slice()) {
        Some(TemplateFormat::ChatML)
    } else if contains_exec(t.as_slice(), hdr.as_slice()) {
        Some(TemplateFormat::Llama3)
    } else if contains_exec(t.as_slice(), sot.as_slice()) {
        Some(TemplateFormat::Gemma)
    } else {
        None
    }
}

/// (role, content) pairs by their views.
pub open spec fn history_view(h: Seq<(String, String)>) -> Seq<(Seq<char>, Seq<char>)> {
    h.map_values(|p: (String, String)| (p.0@, p.1@))
}

pub open spec fn assistant_name() -> Seq<char> {
    seq!['a', 's', 's', 'i', 's', 't', 'a', 'n', 't']
}

pub open spec fn user_name() -> Seq<char> {
    seq!['u', 's', 'e', 'r']
}

/// The last turn of the history is the assistant's.
pub open spec fn last_is_assistant(h: Seq<(Seq<char>, Seq<char>)>) -> bool {
    h.len() > 0 && h.last().0 == assistant_name()
}

/// The turn at index `i`, written in `fmt`; `body` is its content after any
/// system text was merged in. The last turn stays open when it is the
/// assistant's.
pub open spec fn turn_text(
    fmt: TemplateFormat,
    h: Seq<(Seq<char>, Seq<char>)>,
    i: int,
    body: Seq<char>,
) -> Seq<char> {
    turn_text_parts(fmt, h[i].0, body, i == h.len() - 1 && last_is_assistant(h))
}

/// Index of the first user turn among the first `n` turns.
pub open spec fn first_user_before(h: Seq<(Seq<char>, Seq<char>)>, n: int) -> Option<int>
    decreases n,
{
    if n <= 0 {
        None
    } else {
        match first_user_before(h, n - 1) {
            Some(j) => Some(j),
            None => if h[n - 1].0 == user_name() {
                Some(n - 1)
            } else {
                None
            },
        }
    }
}

/// The content of turn `i`; for Gemma the system text is merged into the
/// first user turn.
pub open spec fn turn_body(
    fmt: TemplateFormat,
    system: Option<Seq<char>>,
    h: Seq<(Seq<char>, Seq<char>)>,
    i: int,
) -> Seq<char> {
    match (fmt, system) {
        (TemplateFormat::Gemma, Some(sys)) => if first_user_before(h, h.len() as int) == Some(i) {
            sys + "\n\n"@ + h[i].1
        } else {
            h[i].1
        },
        _ => h[i].1,
    }
}

/// All turns before index `n`, written in `fmt`.
pub open spec fn turns(
    fmt: TemplateFormat,
    system: Option<Seq<char>>,
    h: Seq<(Seq<char>, Seq<char>)>,
    n: int,
) -> Seq<char>
    decreases n,
{
    if n <= 0 {
        Seq::empty()
    } else {
        turns(fmt, system, h, n - 1) + turn_text(fmt, h, n - 1, turn_body(fmt, system, h, n - 1))
    }
}

/// The raw prompt for `history` in `fmt`: the system turn, every turn, and
/// a fresh assistant header unless the last turn is the assistant's, which
/// is left open.
pub open spec fn raw_prompt(
    fmt: TemplateFormat,
    system: Option<Seq<char>>,
    h: Seq<(Seq<char>, Seq<char>)>,
) -> Seq<char> {
    let body = turns(fmt, system, h, h.len() as int);
    let lia = last_is_assistant(h);
    match fmt {
        TemplateFormat::ChatML => (match system {
            Some(sys) => "<|im_start|>system\n"@ + sys + "<|im_end|>\n"@,
            None => Seq::empty(),
        }) + body + (if lia {
            Seq::empty()
        } else {
            "<|im_start|>assistant\n"@
        }),
        TemplateFormat::Llama3 => "<|begin_of_text|>"@ + (match system {
            Some(sys) => "<|start_header_id|>system<|end_header_id|>\n\n"@ + sys + "<|eot_id|>"@,
            None => Seq::empty(),
        }) + body + (if lia {
            Seq::empty()
        } else {
            "<|start_header_id|>assistant<|end_header_id|>\n\n"@
        }),
        TemplateFormat::Gemma => (match system {
            Some(sys) => if first_user_before(h, h.len() as int) is None {
                "<start_of_turn>user\n"@ + sys + "<end_of_turn>\n"@
            } else {
                Seq::empty()
            },
            None => Seq::empty(),
        }) + body + (if lia {
            Seq::empty()
        } else {
            "<start_of_turn>model\n"@
        }),
    }
}

/// The header that opens an assistant turn in `fmt`.
pub open spec fn assistant_header(fmt: TemplateFormat) -> Seq<char> {
    match fmt {
        TemplateFormat::ChatML => "<|im_start|>assistant\n"@,
        TemplateFormat::Llama3 => "<|start_header_id|>assistant<|end_header_id|>\n\n"@,
        TemplateFormat::Gemma => "<start_of_turn>model\n"@,
    }
}

proof fn lemma_first_user_is_user(h: Seq<(Seq<char>, Seq<char>)>, n: int)
    requires
        n <= h.len(),
    ensures
        first_user_before(h, n) matches Some(j) ==> 0 <= j < n && h[j].0 == user_name(),
    decreases n,
{
    if n > 0 {
        lemma_first_user_is_user(h, n - 1);
    }
}

proof fn lemma_ends_with_tail(x: Seq<char>, p: Seq<char>)
    ensures
        crate::text::ends_with(x + p, p),
{
    assert((x + p).subrange(x.len() as int, (x + p).len() as int) =~= p);
}

/// A raw prompt always ends ready for the model to write: when the last
/// turn is the assistant's, with that turn's header and its content as it
/// is, nothing closing it; otherwise with a fresh assistant header.
pub proof fn lemma_prompt_ending(fmt: TemplateFormat, system: Option<Seq<char>>, h: Seq<(Seq<char>, Seq<char>)>)
    ensures
        last_is_assistant(h) ==> crate::text::ends_with(raw_prompt(fmt, system, h), assistant_header(fmt) + h.last().1),
        !last_is_assistant(h) ==> crate::text::ends_with(raw_prompt(fmt, system, h), assistant_header(fmt)),
{
    let n = h.len() as int;
    let p = raw_prompt(fmt, system, h);
    if last_is_assistant(h) {
        lemma_first_user_is_user(h, n);
        assert(assistant_name() != user_name()) by {
            assert(assistant_name().len() != user_name().len());
        }
        assert(turn_body(fmt, system, h, n - 1) == h[n - 1].1);
        let tail = assistant_header(fmt) + h.last().1;
        assert(turn_text(fmt, h, n - 1, h[n - 1].1) == tail);
        let pre = match fmt {
            TemplateFormat::ChatML => (match system {
                Some(sys) => "<|im_start|>system\n"@ + sys + "<|im_end|>\n"@,
                None => Seq::empty(),
            }),
            TemplateFormat::Llama3 => "<|begin_of_text|>"@ + (match system {
                Some(sys) => "<|start_header_id|>system<|end_header_id|>\n\n"@ + sys + "<|eot_id|>"@,
                None => Seq::empty(),
            }),
            TemplateFormat::Gemma => (match system {
                Some(sys) => if first_user_before(h, n) is None {
                    "<start_of_turn>user\n"@ + sys + "<end_of_turn>\n"@
                } else {
                    Seq::empty()
                },
                None => Seq::empty(),
            }),
        };
        let x = pre + turns(fmt, system, h, n - 1);
        assert(p =~= x + tail);
        lemma_ends_with_tail(x, tail);
    } else {
        let pre = match fmt {
            TemplateFormat::ChatML => (match system {
                Some(sys) => "<|im_start|>system\n"@ + sys + "<|im_end|>\n"@,
                None => Seq::empty(),
            }),
            TemplateFormat::Llama3 => "<|begin_of_text|>"@ + (match system {
                Some(sys) => "<|start_header_id|>system<|end_header_id|>\n\n"@ + sys + "<|eot_id|>"@,
                None => Seq::empty(),
            }),
            TemplateFormat::Gemma => (match system {
                Some(sys) => if first_user_before(h, n) is None {
                    "<start_of_turn>user\n"@ + sys + "<end_of_turn>\n"@
                } else {
                    Seq::empty()
                },
                None => Seq::empty(),
            }),
        };
        let x = pre + turns(fmt, system, h, n);
        assert(p =~= x + assistant_header(fmt));
        lemma_ends_with_tail(x, assistant_header(fmt));
    }
}

fn is_role(role: &String, assistant: bool) -> (b: bool)
    ensures
        b == (role@ == if assistant {
            assistant_name()
        } else {
            user_name()
        }),
{
    if assistant {
        let a = vec!['a', 's', 's', 'i', 's', 't', 'a', 'n', 't'];
        str_is(role.as_str(), a.as_slice())
    } else {
        let u = vec!['u', 's', 'e', 'r'];
        str_is(role.as_str(), u.as_slice())
    }
}

fn append_turn(
    s: &mut String,
    fmt: TemplateFormat,
    role: &String,
    body: &str,
    open_last: bool,
)
    ensures
        final(s)@ == old(s)@ + turn_text_parts(fmt, role@, body@, open_last),
{
    match fmt {
        TemplateFormat::ChatML => if open_last {
            s.append("<|im_start|>assistant\n");
            s.append(body);
        } else {
            s.append("<|im_start|>");
            s.append(role.as_str());
            s.append("\n");
            s.append(body);
            s.append("<|im_end|>\n");
        },
        TemplateFormat::Llama3 => if open_last {
            s.append("<|start_header_id|>assistant<|end_header_id|>\n\n");
            s.append(body);
        } else {
            s.append("<|start_header_id|>");
            s.append(role.as_str());
            s.append("<|end_header_id|>\n\n");
            s.append(body);
            s.append("<|eot_id|>");
        },
        TemplateFormat::Gemma => if open_last {
            s.append("<start_of_turn>model\n");
            s.append(body);
        } else {
            s.append("<start_of_turn>");
            if is_role(role, true) {
                proof {
                    reveal_strlit("model");
                }
                assert("model"@ =~= seq!['m', 'o', 'd', 'e', 'l']);
                s.append("model");
            } else {
                proof {
                    reveal_strlit("user");
                }
                assert("user"@ =~= user_name());
                s.append("user");
            }
            s.append("\n");
            s.append(body);
            s.append("<end_of_turn>\n");
        },
    }
}

/// `turn_text` by its parts.
pub open spec fn turn_text_parts(
    fmt: TemplateFormat,
    role: Seq<char>,
    body: Seq<char>,
    open_last: bool,
) -> Seq<char> {
    match fmt {
        TemplateFormat::ChatML => if open_last {
            "<|im_start|>assistant\n"@ + body
        } else {
            "<|im_start|>"@ + role + "\n"@ + body + "<|im_end|>\n"@
        },
        TemplateFormat::Llama3 => if open_last {
            "<|start_header_id|>assistant<|end_header_id|>\n\n"@ + body
        } else {
            "<|start_header_id|>"@ + role + "<|end_header_id|>\n\n"@ + body + "<|eot_id|>"@
        },
        TemplateFormat::Gemma => if open_last {
            "<start_of_turn>model\n"@ + body
        } else {
            "<start_of_turn>"@ + (if role == assistant_name() {
                seq!['m', 'o', 'd', 'e', 'l']
            } else {
                user_name()
            }) + "\n"@ + body + "<end_of_turn>\n"@
        },
    }
}

/// Builds a raw prompt for a raw-mode completion request, in the model's own
/// template format. When the last turn is the assistant's it is left open
/// (no closing token, no new header) so generation continues where it
/// stopped; otherwise all turns are closed and a fresh assistant turn opened.
/// Gemma has no system role: the system text is merged into the first user
/// turn, or sent as a bare user turn first when there is none.
pub fn build_raw_prompt(fmt: TemplateFormat, system: Option<&str>, history: &[(String, String)]) -> (s:
    String)
    ensures
        s@ == raw_prompt(
            fmt,
            match system {
                Some(x) => Some(x@),
                None => None,
            },
            history_view(history@),
        ),
{
    let ghost sys = match system {
        Some(x) => Some(x@),
        None => None,
    };
    let ghost h = history_view(history@);
    let n = history.len();
    let lia = n > 0 && is_role(&history[n - 1].0, true);
    assert(lia == last_is_assistant(h));
    let mut body = String::new();
    let mut consumed = system.is_none();
    let mut i: usize = 0;
    while i < n
        invariant
            n == history@.len(),
            h == history_view(history@),
            h.len() == n,
            lia == last_is_assistant(h),
            i <= n,
            body@ == turns(fmt, sys, h, i as int),
            fmt is Gemma ==> consumed == (sys is None || first_user_before(h, i as int) is Some),
            sys == match system {
                Some(x) => Some(x@),
                None => None::<Seq<char>>,
            },
        decreases n - i,
    {
        let role = &history[i].0;
        let content = &history[i].1;
        let open_last = i + 1 == n && lia;
        let is_user = is_role(role, false);
        proof {
            assert(h[i as int] == (role@, content@));
        }
        let merge = match fmt {
            TemplateFormat::Gemma => !consumed && is_user,
            _ => false,
        };
        if merge {
            consumed = true;
            let mut b = String::new();
            match system {
                Some(x) => b.append(x),
                None => {},
            }
            b.append("\n\n");
            b.append(content.as_str());
            assert(first_user_before(h, i + 1) == Some(i as int));
            proof {
                lemma_first_user_stable(h, i + 1, h.len() as int);
            }
            assert(turn_body(fmt, sys, h, i as int) == b@);
            append_turn(&mut body, fmt, role, b.as_str(), open_last);
            assert(body@ == turns(fmt, sys, h, i + 1));
        } else {
            proof {
                if fmt is Gemma && sys is Some {
                    if consumed {
                        lemma_first_user_stable(h, i as int, h.len() as int);
                        lemma_first_user_range(h, i as int);
                    } else {
                        assert(first_user_before(h, i + 1) is None);
                        lemma_first_user_not_before(h, i + 1, h.len() as int, i as int);
                    }
                }
            }
            assert(turn_body(fmt, sys, h, i as int) == content@);
            append_turn(&mut body, fmt, role, content.as_str(), open_last);
            assert(body@ == turns(fmt, sys, h, i + 1));
            assert(fmt is Gemma ==> consumed == (sys is None || first_user_before(h, i + 1) is Some));
        }
        i += 1;
    }
    let mut s = String::new();
    match fmt {
        TemplateFormat::ChatML => {
            match system {
                Some(x) => {
                    s.append("<|im_start|>system\n");
                    s.append(x);
                    s.append("<|im_end|>\n");
                },
                None => {},
            }
            s.append(body.as_str());
            if !lia {
                s.append("<|im_start|>assistant\n");
            }
        },
        TemplateFormat::Llama3 => {
            s.append("<|begin_of_text|>");
            match system {
                Some(x) => {
                    s.append("<|start_header_id|>system<|end_header_id|>\n\n");
                    s.append(x);
                    s.append("<|eot_id|>");
                },
                None => {},
            }
            s.append(body.as_str());
            if !lia {
                s.append("<|start_header_id|>assistant<|end_header_id|>\n\n");
            }
        },
        TemplateFormat::Gemma => {
            if !consumed {
                s.append("<start_of_turn>user\n");
                match system {
                    Some(x) => s.append(x),
                    None => {},
                }
                s.append("<end_of_turn>\n");
            }
            s.append(body.as_str());
            if !lia {
                s.append("<start_of_turn>model\n");
            }
        },
    }
    s
}

proof fn lemma_first_user_range(h: Seq<(Seq<char>, Seq<char>)>, n: int)
    ensures
        first_user_before(h, n) matches Some(j) ==> 0 <= j < n,
    decreases n,
{
    if n > 0 {
        lemma_first_user_range(h, n - 1);
    }
}

proof fn lemma_first_user_stable(h: Seq<(Seq<char>, Seq<char>)>, i: int, n: int)
    requires
        0 <= i <= n,
        first_user_before(h, i) is Some,
    ensures
        first_user_before(h, n) == first_user_before(h, i),
    decreases n - i,
{
    if i < n {
        lemma_first_user_stable(h, i, n - 1);
    }
}

proof fn lemma_first_user_not_before(h: Seq<(Seq<char>, Seq<char>)>, i: int, n: int, k: int)
    requires
        0 <= k < i <= n,
        first_user_before(h, i) is None,
    ensures
        first_user_before(h, n) != Some(k),
    decreases n - i,
{
    if i < n {
        if first_user_before(h, i + 1) is None {
            lemma_first_user_not_before(h, i + 1, n, k);
        } else {
            assert(first_user_before(h, i + 1) == Some(i));
            lemma_first_user_stable(h, i + 1, n);
        }
    }
}

/// The context-window label: thousands of tokens, or `unknown`.
pub open spec fn ctx_label(ctx_len: Option<u64>) -> Seq<char> {
    match ctx_len {
        Some(n) => decimal((n / 1024) as nat) + seq!['k'],
        None => "unknown"@,
    }
}

/// The note on confirmations for the modes that have one.
pub open spec fn mode_note(mode: RuntimeMode) -> Seq<char> {
    match mode {
        RuntimeMode::Server { auto_yes } => if auto_yes {
            "All confirmations are auto-accepted (`--yes` is active)."@
        } else {
            "`<ask>` prompts go to the server operator's terminal, not the remote client."@
        },
        RuntimeMode::WebSocket { auto_yes } => if auto_yes {
            "All confirmations are auto-accepted (`--yes` is active)."@
        } else {
            "`<ask>` prompts are sent to the client as structured frames — the client responds and the conversation continues. `<patch>` diffs are shown to the client for confirmation before being applied."@
        },
        RuntimeMode::RemoteTui { auto_yes } => if auto_yes {
            "All confirmations are auto-accepted (`--yes` is active)."@
        } else {
            ""@
        },
        _ => Seq::empty(),
    }
}

/// The mode line's label for `mode`.
pub open spec fn mode_head(mode: RuntimeMode) -> Seq<char> {
    match mode {
        RuntimeMode::Tui => "**interactive TUI** · Model: `"@,
        RuntimeMode::Headless => "**headless** (CLI) · Model: `"@,
        RuntimeMode::Server { .. } => "**server** (HTTP POST /chat) · Model: `"@,
        RuntimeMode::WebSocket { .. } => "**WebSocket session** · Model: `"@,
        RuntimeMode::RemoteTui { .. } => "**remote TUI** (WebSocket) · Model: `"@,
    }
}

/// The description of what `mode` offers.
pub open spec fn mode_body(mode: RuntimeMode) -> Seq<char> {
    match mode {
        RuntimeMode::Tui => "\n\nThe user is typing in the terminal UI. All features are available:\n- `<ask>` pauses the stream and shows an interactive widget — text input, yes/no, or choice list.\n- `<patch>` renders a colored diff and asks the user to confirm before applying.\n- The file panel on the right shows the currently open file (if any).\n- Pinned files are injected into every request and tracked for changes.\n- The user can switch models and toggle neurons from the settings screen.\n- Thinking blocks are rendered in a muted color with a 'thought for Xs' label."@,
        RuntimeMode::Headless => "\n\nRunning non-interactively from the shell. Responds once and exits. `<ask>` reads from stdin — use it only when operator input is genuinely required."@,
        RuntimeMode::Server { .. } => "\n\nThe remote client receives your response as a plain-text stream. Avoid `<ask>` when possible — the client cannot send mid-stream input. Use tools to gather missing information instead of asking. "@,
        RuntimeMode::WebSocket { .. } => "\n\nThe client is connected via WebSocket for a full multi-turn conversation. You have the same capabilities as the interactive TUI: tool execution, `<ask>`, `<patch>`, pinned files, and streaming. "@,
        RuntimeMode::RemoteTui { .. } => "\n\nThe user is running the cognilite terminal UI on a remote machine, connected via WebSocket. The client renders the full TUI — all interactive features work exactly as in local mode:\n- `<ask>` pauses the stream and shows an interactive widget — text input, yes/no, or choice list.\n- `<patch>` renders a colored diff and asks the user to confirm before applying on this server.\n- Tool results (`<tool>`) are displayed as styled bubbles in the chat.\n- Thinking blocks are rendered in a muted color with a 'thought for Xs' label.\n- Pinned files are tracked and changes are sent as diffs on each turn.\nUse all features freely — the client handles them identically to the local TUI. "@,
    }
}

/// The runtime-context paragraph put at the top of the system prompt.
pub open spec fn runtime_context(model: Seq<char>, ctx_len: Option<u64>, mode: RuntimeMode) -> Seq<
    char,
> {
    "## Runtime context\n\nMode: "@ + mode_head(mode) + model + "` · Context window: "@ + ctx_label(ctx_len) + mode_body(mode) + mode_note(mode)
}

fn append_ctx_label(s: &mut String, ctx_len: Option<u64>)
    ensures
        final(s)@ == old(s)@ + ctx_label(ctx_len),
{
    match ctx_len {
        Some(n) => {
            let d = u64_to_decimal(n / 1024);
            s.append(d.as_str());
            s.append("k");
            proof {
                reveal_strlit("k");
            }
            assert("k"@ =~= seq!['k']);
        },
        None => s.append("unknown"),
    }
}

/// Describes the runtime mode to the model: mode, model name, context window
/// and what the interface lets it do.
pub fn build_runtime_context(model: &str, ctx_len: Option<u64>, mode: RuntimeMode) -> (s: String)
    ensures
        s@ == runtime_context(model@, ctx_len, mode),
{
    let mut s = String::new();
    s.append("## Runtime context\n\nMode: ");
    match mode {
        RuntimeMode::Tui => {
            s.append("**interactive TUI** · Model: `");
            s.append(model);
            s.append("` · Context window: ");
            append_ctx_label(&mut s, ctx_len);
            s.append("\n\nThe user is typing in the terminal UI. All features are available:\n- `<ask>` pauses the stream and shows an interactive widget — text input, yes/no, or choice list.\n- `<patch>` renders a colored diff and asks the user to confirm before applying.\n- The file panel on the right shows the currently open file (if any).\n- Pinned files are injected into every request and tracked for changes.\n- The user can switch models and toggle neurons from the settings screen.\n- Thinking blocks are rendered in a muted color with a 'thought for Xs' label.");
        },
        RuntimeMode::Headless => {
            s.append("**headless** (CLI) · Model: `");
            s.append(model);
            s.append("` · Context window: ");
            append_ctx_label(&mut s, ctx_len);
            s.append("\n\nRunning non-interactively from the shell. Responds once and exits. `<ask>` reads from stdin — use it only when operator input is genuinely required.");
        },
        RuntimeMode::Server { auto_yes } => {
            s.append("**server** (HTTP POST /chat) · Model: `");
            s.append(model);
            s.append("` · Context window: ");
            append_ctx_label(&mut s, ctx_len);
            s.append("\n\nThe remote client receives your response as a plain-text stream. Avoid `<ask>` when possible — the client cannot send mid-stream input. Use tools to gather missing information instead of asking. ");
            if auto_yes {
                s.append("All confirmations are auto-accepted (`--yes` is active).");
            } else {
                s.append("`<ask>` prompts go to the server operator's terminal, not the remote client.");
            }
        },
        RuntimeMode::WebSocket { auto_yes } => {
            s.append("**WebSocket session** · Model: `");
            s.append(model);
            s.append("` · Context window: ");
            append_ctx_label(&mut s, ctx_len);
            s.append("\n\nThe client is connected via WebSocket for a full multi-turn conversation. You have the same capabilities as the interactive TUI: tool execution, `<ask>`, `<patch>`, pinned files, and streaming. ");
            if auto_yes {
                s.append("All confirmations are auto-accepted (`--yes` is active).");
            } else {
                s.append("`<ask>` prompts are sent to the client as structured frames — the client responds and the conversation continues. `<patch>` diffs are shown to the client for confirmation before being applied.");
            }
        },
        RuntimeMode::RemoteTui { auto_yes } => {
            s.append("**remote TUI** (WebSocket) · Model: `");
            s.append(model);
            s.append("` · Context window: ");
            append_ctx_label(&mut s, ctx_len);
            s.append("\n\nThe user is running the cognilite terminal UI on a remote machine, connected via WebSocket. The client renders the full TUI — all interactive features work exactly as in local mode:\n- `<ask>` pauses the stream and shows an interactive widget — text input, yes/no, or choice list.\n- `<patch>` renders a colored diff and asks the user to confirm before applying on this server.\n- Tool results (`<tool>`) are displayed as styled bubbles in the chat.\n- Thinking blocks are rendered in a muted color with a 'thought for Xs' label.\n- Pinned files are tracked and changes are sent as diffs on each turn.\nUse all features freely — the client handles them identically to the local TUI. ");
            if auto_yes {
                s.append("All confirmations are auto-accepted (`--yes` is active).");
            } else {
                s.append("");
            }
        },
    }
    s
}

} // verus!
