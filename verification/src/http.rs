//! The plain HTTP side of the server: reading the request line and the
//! headers, routing a request, the heads of its responses, the chunked
//! framing of a streamed body, and the command line of the headless run
//! that answers `POST /chat`.
use vstd::prelude::*;
use crate::text::{
    ascii_lower_chars, ascii_lower_str, chars_of, extend_chars, extend_str, find, find_exec, slice_to_vec, str_eq,
    string_from_chars, string_views, to_owned, trim, trim_bounds,
};

verus! {

// ── reading a request ─────────────────────────────────────────────────────

/// The method and the target of a request line (`GET /path HTTP/1.1`,
/// trimmed): the words before the first and second space; none without a
/// second word.
pub open spec fn request_parts(line: Seq<char>) -> Option<(Seq<char>, Seq<char>)> {
    let t = trim(line);
    match find(t, seq![' ']) {
        None => None,
        Some(i) => {
            let rest = t.skip(i + 1);
            Some(
                (
                    t.take(i),
                    match find(rest, seq![' ']) {
                        Some(j) => rest.take(j),
                        None => rest,
                    },
                ),
            )
        },
    }
}

/// Reads a request line into its method and target.
pub fn request_line(line: &str) -> (r: Option<(String, String)>)
    ensures
        match r {
            Some((m, p)) => request_parts(line@) == Some((m@, p@)),
            None => request_parts(line@) is None,
        },
{
    let c = chars_of(line);
    let (a, b) = trim_bounds(c.as_slice());
    let t = slice_to_vec(c.as_slice(), a, b);
    let sp = vec![' '];
    assert(sp@ =~= seq![' ']);
    let n = t.len();
    match find_exec(t.as_slice(), sp.as_slice()) {
        None => None,
        Some(i) => {
            let method = slice_to_vec(t.as_slice(), 0, i);
            let rest = slice_to_vec(t.as_slice(), i + 1, n);
            assert(method@ =~= t@.take(i as int));
            assert(rest@ =~= t@.skip(i + 1));
            let m = rest.len();
            let path = match find_exec(rest.as_slice(), sp.as_slice()) {
                Some(j) => {
                    let p = slice_to_vec(rest.as_slice(), 0, j);
                    assert(p@ =~= rest@.take(j as int));
                    p
                },
                None => rest,
            };
            Some((string_from_chars(method.as_slice()), string_from_chars(path.as_slice())))
        },
    }
}

/// A header line's name (lower-cased ASCII) and value, both trimmed; none
/// without a colon.
pub open spec fn header_parts(line: Seq<char>) -> Option<(Seq<char>, Seq<char>)> {
    let t = trim(line);
    match find(t, seq![':']) {
        None => None,
        Some(i) => Some((ascii_lower_str(trim(t.take(i))), trim(t.skip(i + 1)))),
    }
}

fn trimmed(v: &[char]) -> (r: Vec<char>)
    ensures
        r@ == trim(v@),
{
    let (a, b) = trim_bounds(v);
    slice_to_vec(v, a, b)
}

/// Reads a header line into its lower-cased name and its value.
pub fn header_line(line: &str) -> (r: Option<(String, String)>)
    ensures
        match r {
            Some((k, v)) => header_parts(line@) == Some((k@, v@)),
            None => header_parts(line@) is None,
        },
{
    let c = chars_of(line);
    let t = trimmed(c.as_slice());
    let colon = vec![':'];
    assert(colon@ =~= seq![':']);
    let n = t.len();
    match find_exec(t.as_slice(), colon.as_slice()) {
        None => None,
        Some(i) => {
            let before = slice_to_vec(t.as_slice(), 0, i);
            let after = slice_to_vec(t.as_slice(), i + 1, n);
            assert(before@ =~= t@.take(i as int));
            assert(after@ =~= t@.skip(i + 1));
            let k = trimmed(before.as_slice());
            let kl = ascii_lower_chars(k.as_slice());
            let v = trimmed(after.as_slice());
            Some((string_from_chars(kl.as_slice()), string_from_chars(v.as_slice())))
        },
    }
}

/// The body length a `content-length` value announces: the number, or 0
/// when it is not one.
pub fn content_length(value: &str) -> (n: usize)
    ensures
        n == match crate::tools::parsed_usize(value@) {
            Some(k) => k,
            None => 0,
        },
{
    match crate::tools::parse_usize(value) {
        Some(k) => k,
        None => 0,
    }
}

// ── routing ───────────────────────────────────────────────────────────────

/// Where a request goes.
#[derive(Debug, Clone, PartialEq, Eq)]
pub enum Route {
    /// A WebSocket session on this path (without its query).
    WebSocket(String),
    /// A chat request answered by a headless run.
    Chat,
    /// Anything else.
    NotFound,
}

/// `Route` over plain values.
pub enum RouteView {
    WebSocket(Seq<char>),
    Chat,
    NotFound,
}

/// A target without its query string.
pub open spec fn path_only(target: Seq<char>) -> Seq<char> {
    match find(target, seq!['?']) {
        Some(i) => target.take(i),
        None => target,
    }
}

/// The route of a request: WebSocket when it asks to upgrade (the
/// `upgrade` header is `websocket` in any ASCII case), the chat endpoint
/// for `POST /chat`, nothing else.
pub open spec fn route_of(method: Seq<char>, target: Seq<char>, upgrade: Option<Seq<char>>) -> RouteView {
    if upgrade matches Some(u) && ascii_lower_str(u) == "websocket"@ {
        RouteView::WebSocket(path_only(target))
    } else if method == "POST"@ && path_only(target) == "/chat"@ {
        RouteView::Chat
    } else {
        RouteView::NotFound
    }
}

fn path_only_exec(target: &str) -> (r: String)
    ensures
        r@ == path_only(target@),
{
    let c = chars_of(target);
    let q = vec!['?'];
    assert(q@ =~= seq!['?']);
    match find_exec(c.as_slice(), q.as_slice()) {
        Some(i) => string_from_chars(&c.as_slice()[0..i]),
        None => to_owned(target),
    }
}

/// Routes a request.
pub fn route(method: &str, target: &str, upgrade: Option<&str>) -> (r: Route)
    ensures
        match r {
            Route::WebSocket(p) => route_of(
                method@,
                target@,
                match upgrade {
                    Some(u) => Some(u@),
                    None => None,
                },
            ) == RouteView::WebSocket(p@),
            Route::Chat => route_of(
                method@,
                target@,
                match upgrade {
                    Some(u) => Some(u@),
                    None => None,
                },
            ) == RouteView::Chat,
            Route::NotFound => route_of(
                method@,
                target@,
                match upgrade {
                    Some(u) => Some(u@),
                    None => None,
                },
            ) == RouteView::NotFound,
        },
{
    let ws = match upgrade {
        Some(u) => {
            let uc = chars_of(u);
            let lower = ascii_lower_chars(uc.as_slice());
            let s = string_from_chars(lower.as_slice());
            str_eq(s.as_str(), "websocket")
        },
        None => false,
    };
    let p = path_only_exec(target);
    if ws {
        return Route::WebSocket(p);
    }
    if str_eq(method, "POST") && str_eq(p.as_str(), "/chat") {
        Route::Chat
    } else {
        Route::NotFound
    }
}

// ── responses ─────────────────────────────────────────────────────────────

/// The lower-case hexadecimal digits of `n`.
pub open spec fn hex(n: nat) -> Seq<char>
    decreases n,
{
    if n < 16 {
        seq![hex_digit(n)]
    } else {
        hex(n / 16) + seq![hex_digit(n % 16)]
    }
}

/// The hexadecimal digit for `d < 16`.
pub open spec fn hex_digit(d: nat) -> char {
    if d < 10 { (48 + d) as char } else { (87 + d) as char }
}

fn hex_digit_exec(d: usize) -> (c: char)
    requires
        d < 16,
    ensures
        c == hex_digit(d as nat),
{
    if d < 10 {
        (48u8 + d as u8) as char
    } else {
        (87u8 + d as u8) as char
    }
}

/// The size line of a chunk of `n` bytes in a chunked body: `n` in
/// hexadecimal, then CRLF.
pub fn chunk_size_line(n: usize) -> (r: String)
    ensures
        r@ == hex(n as nat) + "\r\n"@,
{
    let mut acc: Vec<char> = Vec::new();
    let mut m = n;
    loop
        invariant_except_break
            hex(n as nat) == hex(m as nat) + acc@,
        ensures
            hex(n as nat) == acc@,
        decreases m,
    {
        if m < 16 {
            let c = hex_digit_exec(m);
            let ghost prev = acc@;
            acc.insert(0, c);
            assert(acc@ =~= seq![c] + prev);
            break;
        }
        let c = hex_digit_exec(m % 16);
        let ghost prev = acc@;
        acc.insert(0, c);
        assert(acc@ =~= seq![c] + prev);
        assert(hex(m as nat) + prev =~= hex((m / 16) as nat) + acc@);
        m = m / 16;
    }
    extend_str(&mut acc, "\r\n");
    string_from_chars(acc.as_slice())
}

/// The head of a response with a body of `len` bytes.
pub open spec fn response_head_text(status: Seq<char>, len: nat) -> Seq<char> {
    "HTTP/1.1 "@ + status + "\r\nContent-Length: "@ + crate::prompt::decimal(len) + "\r\n\r\n"@
}

/// The head of a response of status `status` (such as `404 Not Found`)
/// with a body of `len` bytes.
pub fn response_head(status: &str, len: u64) -> (r: String)
    ensures
        r@ == response_head_text(status@, len as nat),
{
    let mut v: Vec<char> = Vec::new();
    extend_str(&mut v, "HTTP/1.1 ");
    extend_str(&mut v, status);
    extend_str(&mut v, "\r\nContent-Length: ");
    let d = crate::prompt::u64_to_decimal(len);
    extend_str(&mut v, d.as_str());
    extend_str(&mut v, "\r\n\r\n");
    string_from_chars(v.as_slice())
}

/// The head of the streamed answer to a chat request.
pub open spec fn stream_head_text() -> Seq<char> {
    "HTTP/1.1 200 OK\r\nContent-Type: text/plain; charset=utf-8\r\nTransfer-Encoding: chunked\r\nAccess-Control-Allow-Origin: *\r\n\r\n"@
}

/// The head of the streamed answer to a chat request.
pub fn stream_head() -> (r: String)
    ensures
        r@ == stream_head_text(),
{
    to_owned(
        "HTTP/1.1 200 OK\r\nContent-Type: text/plain; charset=utf-8\r\nTransfer-Encoding: chunked\r\nAccess-Control-Allow-Origin: *\r\n\r\n",
    )
}

// ── the headless run that answers a chat request ──────────────────────────

/// The options of a chat request, as plain text (numbers already written
/// out as the request gave them).
#[derive(Debug, Clone)]
pub struct ChatRequest {
    pub yes: bool,
    pub thinking: bool,
    pub model: Option<String>,
    pub neuron_mode: Option<String>,
    pub preset: Option<String>,
    pub ctx_strategy: Option<String>,
    pub temperature: Option<String>,
    pub top_p: Option<String>,
    pub repeat_penalty: Option<String>,
    pub no_neurons: Vec<String>,
    pub pin: Vec<String>,
    pub attach: Vec<String>,
    pub keep_alive: bool,
}

/// `[flag, v]` when `v` is present.
pub open spec fn opt_arg(flag: Seq<char>, v: Option<String>) -> Seq<Seq<char>> {
    match v {
        Some(x) => seq![flag, x@],
        None => seq![],
    }
}

/// `flag, v` for every `v` of `vs`.
pub open spec fn repeated_arg(flag: Seq<char>, vs: Seq<Seq<char>>) -> Seq<Seq<char>>
    decreases vs.len(),
{
    if vs.len() == 0 {
        seq![]
    } else {
        repeated_arg(flag, vs.drop_last()) + seq![flag, vs.last()]
    }
}

/// The arguments of the headless run for a chat request with `message`:
/// headless server mode, the Ollama URL, the message, then the request's
/// options in a fixed order.
pub open spec fn headless_argv(r: ChatRequest, url: Seq<char>, message: Seq<char>, thinking_server: bool) -> Seq<Seq<char>> {
    seq!["--headless"@, "--server-mode"@, "--ollama-url"@, url, "--message"@, message]
        + (if r.yes { seq!["--yes"@] } else { seq![] })
        + (if r.thinking { seq!["--thinking"@] } else { seq![] })
        + (if thinking_server { seq!["--thinking-stderr"@] } else { seq![] })
        + opt_arg("--model"@, r.model)
        + opt_arg("--neuron-mode"@, r.neuron_mode)
        + opt_arg("--preset"@, r.preset)
        + opt_arg("--ctx-strategy"@, r.ctx_strategy)
        + opt_arg("--temperature"@, r.temperature)
        + opt_arg("--top-p"@, r.top_p)
        + opt_arg("--repeat-penalty"@, r.repeat_penalty)
        + repeated_arg("--no-neuron"@, string_views(r.no_neurons@))
        + repeated_arg("--pin"@, string_views(r.pin@))
        + repeated_arg("--attach"@, string_views(r.attach@))
        + (if r.keep_alive { seq!["--keep-alive"@] } else { seq![] })
}

fn push_str(v: &mut Vec<String>, s: &str)
    ensures
        string_views(final(v)@) == string_views(old(v)@).push(s@),
{
    let x = to_owned(s);
    v.push(x);
    assert(string_views(v@) =~= string_views(old(v)@).push(s@));
}

fn push_opt(v: &mut Vec<String>, flag: &str, o: &Option<String>)
    ensures
        string_views(final(v)@) == string_views(old(v)@) + opt_arg(flag@, *o),
{
    match o {
        Some(x) => {
            push_str(v, flag);
            push_str(v, x.as_str());
            assert(string_views(v@) =~= string_views(old(v)@) + opt_arg(flag@, *o));
        },
        None => {
            assert(string_views(v@) =~= string_views(old(v)@) + opt_arg(flag@, *o));
        },
    }
}

fn push_each(v: &mut Vec<String>, flag: &str, xs: &Vec<String>)
    ensures
        string_views(final(v)@) == string_views(old(v)@) + repeated_arg(flag@, string_views(xs@)),
{
    let ghost xv = string_views(xs@);
    let mut i: usize = 0;
    assert(xv.take(0) =~= Seq::<Seq<char>>::empty());
    assert(string_views(v@) =~= string_views(old(v)@) + repeated_arg(flag@, xv.take(0)));
    while i < xs.len()
        invariant
            i <= xs@.len(),
            xv == string_views(xs@),
            string_views(v@) == string_views(old(v)@) + repeated_arg(flag@, xv.take(i as int)),
        decreases xs.len() - i,
    {
        assert(xv.take(i + 1).drop_last() =~= xv.take(i as int));
        assert(xv.take(i + 1).last() == xs@[i as int]@);
        push_str(v, flag);
        push_str(v, xs[i].as_str());
        i += 1;
    }
    assert(xv.take(xs@.len() as int) =~= xv);
}

/// The arguments of the headless run that answers a chat request.
pub fn build_argv(r: &ChatRequest, url: &str, message: &str, thinking_server: bool) -> (v: Vec<String>)
    ensures
        string_views(v@) == headless_argv(*r, url@, message@, thinking_server),
{
    let mut v: Vec<String> = Vec::new();
    push_str(&mut v, "--headless");
    push_str(&mut v, "--server-mode");
    push_str(&mut v, "--ollama-url");
    push_str(&mut v, url);
    push_str(&mut v, "--message");
    push_str(&mut v, message);
    let ghost base = string_views(v@);
    if r.yes {
        push_str(&mut v, "--yes");
    }
    let ghost a = string_views(v@);
    if r.thinking {
        push_str(&mut v, "--thinking");
    }
    let ghost b = string_views(v@);
    if thinking_server {
        push_str(&mut v, "--thinking-stderr");
    }
    let ghost c = string_views(v@);
    push_opt(&mut v, "--model", &r.model);
    push_opt(&mut v, "--neuron-mode", &r.neuron_mode);
    push_opt(&mut v, "--preset", &r.preset);
    push_opt(&mut v, "--ctx-strategy", &r.ctx_strategy);
    push_opt(&mut v, "--temperature", &r.temperature);
    push_opt(&mut v, "--top-p", &r.top_p);
    push_opt(&mut v, "--repeat-penalty", &r.repeat_penalty);
    push_each(&mut v, "--no-neuron", &r.no_neurons);
    push_each(&mut v, "--pin", &r.pin);
    push_each(&mut v, "--attach", &r.attach);
    let ghost d = string_views(v@);
    if r.keep_alive {
        push_str(&mut v, "--keep-alive");
    }
    assert(base =~= seq!["--headless"@, "--server-mode"@, "--ollama-url"@, url@, "--message"@, message@]);
    assert(a =~= base + (if r.yes { seq!["--yes"@] } else { Seq::<Seq<char>>::empty() }));
    assert(b =~= a + (if r.thinking { seq!["--thinking"@] } else { Seq::<Seq<char>>::empty() }));
    assert(c =~= b + (if thinking_server { seq!["--thinking-stderr"@] } else { Seq::<Seq<char>>::empty() }));
    assert(string_views(v@) =~= d + (if r.keep_alive { seq!["--keep-alive"@] } else { Seq::<Seq<char>>::empty() }));
    v
}

/// The trimmed message of a chat request, when it is not blank.
pub fn chat_message(message: Option<&str>) -> (r: Option<String>)
    ensures
        match r {
            Some(m) => message is Some && m@ == trim(message.unwrap()@) && m@.len() > 0,
            None => message is None || trim(message.unwrap()@).len() == 0,
        },
{
    match message {
        Some(m) => {
            let c = chars_of(m);
            let t = trimmed(c.as_slice());
            if t.len() > 0 {
                Some(string_from_chars(t.as_slice()))
            } else {
                None
            }
        },
        None => None,
    }
}

} // verus!
