//! Command-line handling: URL escaping, the server, headless and remote
//! options.
use vstd::prelude::*;
use crate::chat::{is_alphanumeric, unicode_alphanumeric};
use crate::config::{CtxStrategy, NeuronMode, ctx_strategy_named, neuron_mode_named};
use crate::meta::{join, join_into};
use crate::text::{
    chars_of, contains, contains_exec, extend_chars, extend_str, starts_with, starts_with_exec,
    str_eq, string_from_chars, string_views, views,
};

verus! {

// ── URL escaping ──────────────────────────────────────────────────────────

/// Upper-case hex digit for `v < 16`.
pub open spec fn hex_upper(v: int) -> char {
    if v < 10 {
        (48 + v) as char
    } else {
        (55 + v) as char
    }
}

/// `%XX` for every byte of `bytes`.
pub open spec fn percent_bytes(bytes: Seq<u8>) -> Seq<char>
    decreases bytes.len(),
{
    if bytes.len() == 0 {
        Seq::empty()
    } else {
        seq!['%', hex_upper(bytes[0] as int / 16), hex_upper(bytes[0] as int % 16)]
            + percent_bytes(bytes.drop_first())
    }
}

/// Chars kept as they are in a URL: alphanumerics (for ASCII, the letters
/// and digits) and `-_.~`.
pub open spec fn url_safe(c: char) -> bool {
    (if (c as u32) < 128 {
        crate::chat::is_ascii_alnum(c)
    } else {
        unicode_alphanumeric(c)
    }) || c == '-' || c == '_' || c == '.' || c == '~'
}

/// URL escaping of `s`: safe chars as they are, every other char as the
/// `%XX` escapes of its UTF-8 bytes.
pub open spec fn url_encoded(s: Seq<char>) -> Seq<char>
    decreases s.len(),
{
    if s.len() == 0 {
        Seq::empty()
    } else {
        url_encoded(s.drop_last()) + if url_safe(s.last()) {
            seq![s.last()]
        } else {
            percent_bytes(vstd::utf8::encode_scalar(s.last() as u32))
        }
    }
}

/// What the escaping makes of one char.
pub open spec fn url_encoded_char(c: char) -> Seq<char> {
    if url_safe(c) {
        seq![c]
    } else {
        percent_bytes(vstd::utf8::encode_scalar(c as u32))
    }
}

proof fn lemma_encoded_first(s: Seq<char>)
    requires
        s.len() > 0,
    ensures
        url_encoded(s) == url_encoded_char(s[0]) + url_encoded(s.drop_first()),
    decreases s.len(),
{
    if s.len() == 1 {
        assert(s.drop_last() =~= Seq::<char>::empty());
        assert(s.drop_first() =~= Seq::<char>::empty());
        assert(url_encoded(s) =~= url_encoded_char(s[0]) + url_encoded(s.drop_first()));
    } else {
        lemma_encoded_first(s.drop_last());
        assert(s.drop_last().drop_first() =~= s.drop_first().drop_last());
        assert(s.drop_first().last() == s.last());
        assert(url_encoded(s) =~= url_encoded_char(s[0]) + url_encoded(s.drop_first()));
    }
}

proof fn lemma_hex_roundtrip(v: int)
    requires
        0 <= v < 16,
    ensures
        crate::websocket::hex_value(hex_upper(v)) == Some(v as u32),
{
}

/// A char that escaping and decoding give back: an ASCII char, or one kept
/// as it is (a non-ASCII letter or digit).
pub open spec fn url_round_trips(c: char) -> bool {
    (c as u32) < 128 || url_safe(c)
}

proof fn lemma_decode_char(c: char, t: Seq<char>)
    requires
        url_round_trips(c),
    ensures
        crate::websocket::url_decoded(url_encoded_char(c) + t) == seq![c] + crate::websocket::url_decoded(t),
{
    let e = url_encoded_char(c) + t;
    if url_safe(c) {
        assert(e[0] == c);
        assert(e.drop_first() =~= t);
    } else {
        let v = c as u32;
        assert((v & 0x7F) == v) by (bit_vector)
            requires
                v < 128,
        ;
        let b = (v & 0x7F) as u8;
        assert(vstd::utf8::has_width_1_encoding(v));
        assert(vstd::utf8::leading_byte_width_1(v) == b);
        assert(vstd::utf8::encode_scalar(v) =~= seq![b]);
        assert(seq![b].drop_first() =~= Seq::<u8>::empty());
        assert(percent_bytes(Seq::<u8>::empty()) =~= Seq::<char>::empty());
        assert(percent_bytes(seq![b]) =~= seq!['%', hex_upper(b as int / 16), hex_upper(b as int % 16)]);
        lemma_hex_roundtrip(b as int / 16);
        lemma_hex_roundtrip(b as int % 16);
        assert(e[0] == '%');
        assert(e[1] == hex_upper(b as int / 16));
        assert(e[2] == hex_upper(b as int % 16));
        assert((b as int / 16) * 16 + b as int % 16 == b as int);
        assert(((b as u32) as char) == c);
        assert(e.skip(3) =~= t);
    }
}

proof fn lemma_decode_encoded(s: Seq<char>, t: Seq<char>)
    requires
        forall|i: int| 0 <= i < s.len() ==> url_round_trips(#[trigger] s[i]),
    ensures
        crate::websocket::url_decoded(url_encoded(s) + t) == s + crate::websocket::url_decoded(t),
    decreases s.len(),
{
    if s.len() == 0 {
        assert(url_encoded(s) + t =~= t);
        assert(s + crate::websocket::url_decoded(t) =~= crate::websocket::url_decoded(t));
    } else {
        lemma_encoded_first(s);
        let rest = s.drop_first();
        assert forall|i: int| 0 <= i < rest.len() implies url_round_trips(#[trigger] rest[i]) by {
            assert(rest[i] == s[i + 1]);
        }
        lemma_decode_encoded(rest, t);
        assert(url_encoded(s) + t =~= url_encoded_char(s[0]) + (url_encoded(rest) + t));
        assert(url_round_trips(s[0]));
        lemma_decode_char(s[0], url_encoded(rest) + t);
        assert(seq![s[0]] + (rest + crate::websocket::url_decoded(t)) =~= s + crate::websocket::url_decoded(t));
    }
}

/// Decoding a query value gives back the text it was escaped from, when
/// each of its chars is ASCII or a letter or digit. (Another non-ASCII
/// char is escaped byte by byte, and decoding reads each escaped byte as a
/// char of its own.)
pub proof fn lemma_url_roundtrip(s: Seq<char>)
    requires
        forall|i: int| 0 <= i < s.len() ==> url_round_trips(#[trigger] s[i]),
    ensures
        crate::websocket::url_decoded(url_encoded(s)) == s,
{
    lemma_decode_encoded(s, Seq::empty());
    assert(url_encoded(s) + Seq::<char>::empty() =~= url_encoded(s));
    assert(crate::websocket::url_decoded(Seq::<char>::empty()) =~= Seq::<char>::empty());
    assert(s + Seq::<char>::empty() =~= s);
}

fn hex_upper_exec(v: u8) -> (c: char)
    requires
        v < 16,
    ensures
        c == hex_upper(v as int),
{
    if v < 10 {
        (48u8 + v) as char
    } else {
        (55u8 + v) as char
    }
}

/// The UTF-8 bytes of `c`.
fn utf8_of(c: char) -> (b: Vec<u8>)
    ensures
        b@ == vstd::utf8::encode_scalar(c as u32),
{
    let v = c as u32;
    if v <= 0x7F {
        vec![(v & 0x7F) as u8]
    } else if v <= 0x7FF {
        vec![0xC0 | ((v >> 6) & 0x1F) as u8, 0x80 | (v & 0x3F) as u8]
    } else if v <= 0xFFFF {
        proof {
            vstd::utf8::char_is_scalar(c);
        }
        vec![0xE0 | ((v >> 12) & 0x0F) as u8, 0x80 | ((v >> 6) & 0x3F) as u8, 0x80 | (v & 0x3F) as u8]
    } else {
        vec![
            0xF0 | ((v >> 18) & 0x7) as u8,
            0x80 | ((v >> 12) & 0x3F) as u8,
            0x80 | ((v >> 6) & 0x3F) as u8,
            0x80 | (v & 0x3F) as u8,
        ]
    }
}

/// Escapes `s` for a URL query value.
pub fn url_encode(s: &str) -> (r: String)
    ensures
        r@ == url_encoded(s@),
{
    let cs = chars_of(s);
    let mut out: Vec<char> = Vec::new();
    let mut i: usize = 0;
    while i < cs.len()
        invariant
            i <= cs@.len(),
            cs@ == s@,
            out@ == url_encoded(cs@.take(i as int)),
        decreases cs.len() - i,
    {
        let c = cs[i];
        assert(cs@.take(i + 1).drop_last() =~= cs@.take(i as int));
        if is_alphanumeric(c) || c == '-' || c == '_' || c == '.' || c == '~' {
            out.push(c);
        } else {
            let bytes = utf8_of(c);
            let ghost start = out@;
            proof {
                lemma_percent_len(bytes@);
            }
            assert(percent_bytes(bytes@).take(0) =~= Seq::<char>::empty());
            let mut k: usize = 0;
            while k < bytes.len()
                invariant
                    k <= bytes@.len(),
                    out@ == start + percent_bytes(bytes@).take(3 * k),
                    percent_bytes(bytes@).len() == 3 * bytes@.len(),
                decreases bytes.len() - k,
            {
                let b = bytes[k];
                proof {
                    lemma_percent_at(bytes@, k as int);
                }
                out.push('%');
                out.push(hex_upper_exec(b / 16));
                out.push(hex_upper_exec(b % 16));
                assert(percent_bytes(bytes@).take(3 * k + 3) =~= percent_bytes(bytes@).take(3 * k)
                    + seq!['%', hex_upper(b as int / 16), hex_upper(b as int % 16)]);
                k += 1;
            }
            assert(percent_bytes(bytes@).take(3 * k) =~= percent_bytes(bytes@));
        }
        i += 1;
    }
    assert(cs@.take(cs@.len() as int) =~= cs@);
    string_from_chars(out.as_slice())
}

proof fn lemma_percent_len(bytes: Seq<u8>)
    ensures
        percent_bytes(bytes).len() == 3 * bytes.len(),
    decreases bytes.len(),
{
    if bytes.len() > 0 {
        lemma_percent_len(bytes.drop_first());
    }
}

proof fn lemma_percent_at(bytes: Seq<u8>, k: int)
    requires
        0 <= k < bytes.len(),
    ensures
        percent_bytes(bytes).len() == 3 * bytes.len(),
        percent_bytes(bytes).subrange(3 * k, 3 * k + 3) == seq![
            '%',
            hex_upper(bytes[k] as int / 16),
            hex_upper(bytes[k] as int % 16),
        ],
    decreases k,
{
    lemma_percent_len(bytes);
    lemma_percent_len(bytes.drop_first());
    if k > 0 {
        lemma_percent_at(bytes.drop_first(), k - 1);
        assert(percent_bytes(bytes).subrange(3 * k, 3 * k + 3) =~= percent_bytes(
            bytes.drop_first(),
        ).subrange(3 * (k - 1), 3 * (k - 1) + 3));
    } else {
        assert(percent_bytes(bytes).subrange(0, 3) =~= seq![
            '%',
            hex_upper(bytes[0] as int / 16),
            hex_upper(bytes[0] as int % 16),
        ]);
    }
}

// ── numbers ───────────────────────────────────────────────────────────────

/// The number that the decimal digits `s` spell.
pub open spec fn digits_value(s: Seq<char>) -> nat
    decreases s.len(),
{
    if s.len() == 0 {
        0
    } else {
        10 * digits_value(s.drop_last()) + ((s.last() as nat) - 48) as nat
    }
}

pub open spec fn all_digits(s: Seq<char>) -> bool {
    forall|k: int| 0 <= k < s.len() ==> '0' <= #[trigger] s[k] && s[k] <= '9'
}

/// `str::parse::<u16>`: an optional `+`, then at least one decimal digit,
/// with a value that fits.
pub open spec fn parsed_u16(s: Seq<char>) -> Option<u16> {
    let d = if s.len() > 0 && s[0] == '+' {
        s.skip(1)
    } else {
        s
    };
    if d.len() > 0 && all_digits(d) && digits_value(d) <= 65535 {
        Some(digits_value(d) as u16)
    } else {
        None
    }
}

proof fn lemma_digits_monotone(s: Seq<char>, i: int)
    requires
        0 <= i <= s.len(),
        all_digits(s),
    ensures
        digits_value(s.take(i)) <= digits_value(s),
    decreases s.len() - i,
{
    if i < s.len() {
        lemma_digits_monotone(s, i + 1);
        assert(s.take(i + 1).drop_last() =~= s.take(i));
    } else {
        assert(s.take(i) =~= s);
    }
}

/// Parses a port number.
pub fn parse_u16(s: &str) -> (r: Option<u16>)
    ensures
        r == parsed_u16(s@),
{
    let cs = chars_of(s);
    let start: usize = if cs.len() > 0 && cs[0] == '+' { 1 } else { 0 };
    let d = &cs[start..cs.len()];
    assert(d@ =~= if s@.len() > 0 && s@[0] == '+' {
        s@.skip(1)
    } else {
        s@
    });
    if d.len() == 0 {
        return None;
    }
    let mut acc: u32 = 0;
    let mut i: usize = 0;
    while i < d.len()
        invariant
            i <= d@.len(),
            acc == digits_value(d@.take(i as int)),
            acc <= 65535,
            d@.len() > 0,
            d@ == if s@.len() > 0 && s@[0] == '+' {
                s@.skip(1)
            } else {
                s@
            },
            forall|k: int| 0 <= k < i ==> '0' <= #[trigger] d@[k] && d@[k] <= '9',
        decreases d.len() - i,
    {
        let c = d[i];
        if !('0' <= c && c <= '9') {
            assert(!all_digits(d@));
            return None;
        }
        assert(d@.take(i + 1).drop_last() =~= d@.take(i as int));
        acc = acc * 10 + (c as u32 - 48);
        if acc > 65535 {
            proof {
                if all_digits(d@) {
                    lemma_digits_monotone(d@, i + 1);
                }
            }
            return None;
        }
        i += 1;
    }
    assert(d@.take(i as int) =~= d@);
    Some(acc as u16)
}

// ── server options ────────────────────────────────────────────────────────

/// The options (host, port, thinking) after scanning `a` from index `i`.
pub open spec fn server_scan(a: Seq<Seq<char>>, i: int, host: Seq<char>, port: u16, thinking: bool) -> (
    Seq<char>,
    u16,
    bool,
)
    decreases a.len() - i,
{
    if i < 0 || i >= a.len() {
        (host, port, thinking)
    } else if a[i] == "--host"@ {
        if i + 1 < a.len() {
            server_scan(a, i + 2, a[i + 1], port, thinking)
        } else {
            (host, port, thinking)
        }
    } else if a[i] == "--port"@ {
        if i + 1 < a.len() {
            server_scan(
                a,
                i + 2,
                host,
                match parsed_u16(a[i + 1]) {
                    Some(p) => p,
                    None => 8765u16,
                },
                thinking,
            )
        } else {
            (host, port, thinking)
        }
    } else if a[i] == "--thinking"@ {
        server_scan(a, i + 1, host, port, true)
    } else {
        server_scan(a, i + 1, host, port, thinking)
    }
}

/// Some argument equals `flag`.
pub open spec fn has_arg(a: Seq<Seq<char>>, flag: Seq<char>) -> bool {
    exists|k: int| 0 <= k < a.len() && #[trigger] a[k] == flag
}

fn has_arg_exec(argv: &[String], flag: &str) -> (b: bool)
    ensures
        b == has_arg(string_views(argv@), flag@),
{
    let mut i: usize = 0;
    while i < argv.len()
        invariant
            i <= argv@.len(),
            forall|k: int| 0 <= k < i ==> #[trigger] string_views(argv@)[k] != flag@,
        decreases argv.len() - i,
    {
        if str_eq(argv[i].as_str(), flag) {
            assert(string_views(argv@)[i as int] == flag@);
            return true;
        }
        i += 1;
    }
    false
}

/// `--server` mode options: host (default `0.0.0.0`), port (default 8765,
/// also for an unreadable value) and `--thinking`; `None` without
/// `--server`.
pub fn parse_server_args(argv: &[String]) -> (r: Option<(String, u16, bool)>)
    ensures
        match r {
            Some((h, p, t)) => has_arg(string_views(argv@), "--server"@) && (h@, p, t) == server_scan(
                string_views(argv@),
                0,
                "0.0.0.0"@,
                8765,
                false,
            ),
            None => !has_arg(string_views(argv@), "--server"@),
        },
{
    if !has_arg_exec(argv, "--server") {
        return None;
    }
    let ghost a = string_views(argv@);
    let mut host = String::from_str("0.0.0.0");
    let mut port: u16 = 8765;
    let mut thinking = false;
    let mut i: usize = 0;
    while i < argv.len()
        invariant
            a == string_views(argv@),
            server_scan(a, 0, "0.0.0.0"@, 8765, false) == server_scan(a, i as int, host@, port, thinking),
        decreases argv.len() - i,
    {
        let arg = argv[i].as_str();
        assert(a[i as int] == arg@);
        if i + 1 < argv.len() {
            assert(a[i + 1] == argv@[i + 1]@);
        }
        if str_eq(arg, "--host") {
            if i + 1 < argv.len() {
                host = String::from_str(argv[i + 1].as_str());
            }
            i = i + 1;
        } else if str_eq(arg, "--port") {
            if i + 1 < argv.len() {
                port = match parse_u16(argv[i + 1].as_str()) {
                    Some(p) => p,
                    None => 8765,
                };
            }
            i = i + 1;
        } else if str_eq(arg, "--thinking") {
            thinking = true;
        }
        if i < argv.len() {
            i = i + 1;
        }
    }
    Some((host, port, thinking))
}

/// The Ollama base URL: the value after the first `--ollama-url` that has
/// one, else `env_url` (the `OLLAMA_URL` variable), else the local default.
pub open spec fn ollama_url_of(a: Seq<Seq<char>>, env_url: Option<Seq<char>>) -> Seq<char> {
    if exists|k: int| 0 <= k && k + 1 < a.len() && #[trigger] a[k] == "--ollama-url"@ {
        a[(choose|k: int| 0 <= k && k + 1 < a.len() && #[trigger] a[k] == "--ollama-url"@ && forall|j: int|
            0 <= j < k ==> a[j] != "--ollama-url"@) + 1]
    } else {
        match env_url {
            Some(u) => u,
            None => "http://localhost:11434"@,
        }
    }
}

/// Picks the Ollama base URL from the arguments, the environment value, or
/// the default.
pub fn get_ollama_url(argv: &[String], env_url: Option<&str>) -> (u: String)
    ensures
        u@ == ollama_url_of(
            string_views(argv@),
            match env_url {
                Some(e) => Some(e@),
                None => None,
            },
        ),
{
    let ghost a = string_views(argv@);
    let mut i: usize = 0;
    while i < argv.len()
        invariant
            a == string_views(argv@),
            forall|j: int| 0 <= j < i && j + 1 < a.len() ==> #[trigger] a[j] != "--ollama-url"@,
        decreases argv.len() - i,
    {
        assert(a[i as int] == argv@[i as int]@);
        if i + 1 < argv.len() && str_eq(argv[i].as_str(), "--ollama-url") {
            proof {
                let k = choose|k: int|
                    0 <= k && k + 1 < a.len() && #[trigger] a[k] == "--ollama-url"@ && forall|j: int|
                        0 <= j < k ==> a[j] != "--ollama-url"@;
                assert(0 <= i && i + 1 < a.len() && a[i as int] == "--ollama-url"@);
                if k < i {
                    assert(a[k] != "--ollama-url"@);
                } else if k > i {
                    assert(a[i as int] != "--ollama-url"@);
                }
            }
            return String::from_str(argv[i + 1].as_str());
        }
        i += 1;
    }
    match env_url {
        Some(e) => String::from_str(e),
        None => String::from_str("http://localhost:11434"),
    }
}

// ── remote options ────────────────────────────────────────────────────────

/// The first index at or after `i` where `a` holds `flag`.
pub open spec fn first_index(a: Seq<Seq<char>>, flag: Seq<char>, i: int) -> Option<int>
    decreases a.len() - i,
{
    if i < 0 || i >= a.len() {
        None
    } else if a[i] == flag {
        Some(i)
    } else {
        first_index(a, flag, i + 1)
    }
}

/// The session parameters that the arguments from index `i` ask for, in
/// order; `headless` sessions take no preset or neuron mode.
pub open spec fn remote_params(a: Seq<Seq<char>>, i: int, headless: bool) -> Seq<Seq<char>>
    decreases a.len() - i,
{
    if i < 0 || i >= a.len() {
        seq![]
    } else if a[i] == "--thinking"@ {
        seq!["thinking=true"@] + remote_params(a, i + 1, headless)
    } else if a[i] == "--yes"@ || a[i] == "-y"@ {
        seq!["yes=true"@] + remote_params(a, i + 1, headless)
    } else if a[i] == "--model"@ || a[i] == "-m"@ {
        if i + 1 < a.len() {
            seq!["model="@ + a[i + 1]] + remote_params(a, i + 2, headless)
        } else {
            seq![]
        }
    } else if !headless && a[i] == "--preset"@ {
        if i + 1 < a.len() {
            seq!["preset="@ + a[i + 1]] + remote_params(a, i + 2, headless)
        } else {
            seq![]
        }
    } else if !headless && a[i] == "--neuron-mode"@ {
        if i + 1 < a.len() {
            seq!["neuron_mode="@ + a[i + 1]] + remote_params(a, i + 2, headless)
        } else {
            seq![]
        }
    } else if a[i] == "--username"@ {
        if i + 1 < a.len() {
            seq!["username="@ + url_encoded(a[i + 1])] + remote_params(a, i + 2, headless)
        } else {
            seq![]
        }
    } else {
        remote_params(a, i + 1, headless)
    }
}

/// Some parameter sets the user name.
pub open spec fn has_username_param(ps: Seq<Seq<char>>) -> bool {
    exists|k: int| 0 <= k < ps.len() && starts_with(#[trigger] ps[k], "username="@)
}

/// All parameters of a remote session: those the flags ask for, `client=tui`
/// for the terminal UI, and the configured user name when no
/// `--username` was given.
pub open spec fn all_remote_params(a: Seq<Seq<char>>, headless: bool, config_username: Seq<char>) -> Seq<
    Seq<char>,
> {
    let ps = remote_params(a, 0, headless) + if headless {
        seq![]
    } else {
        seq!["client=tui"@]
    };
    ps + if !has_username_param(ps) && config_username.len() > 0 {
        seq!["username="@ + url_encoded(config_username)]
    } else {
        seq![]
    }
}

/// The WebSocket URL of `--remote <url>` with the session parameters
/// appended as a query string.
pub open spec fn remote_url(a: Seq<Seq<char>>, headless: bool, config_username: Seq<char>) -> Option<
    Seq<char>,
> {
    match first_index(a, "--remote"@, 0) {
        None => None,
        Some(p) => if p + 1 < a.len() {
            let url = a[p + 1];
            Some(
                url + seq![
                    if contains(url, seq!['?']) {
                        '&'
                    } else {
                        '?'
                    },
                ] + join(all_remote_params(a, headless, config_username), seq!['&']),
            )
        } else {
            None
        },
    }
}

fn prefixed(prefix: &str, value: &str) -> (v: Vec<char>)
    ensures
        v@ == prefix@ + value@,
{
    let mut v: Vec<char> = Vec::new();
    extend_str(&mut v, prefix);
    extend_str(&mut v, value);
    v
}

fn build_remote_url(argv: &[String], headless: bool, config_username: &str) -> (r: Option<String>)
    ensures
        match r {
            Some(u) => remote_url(string_views(argv@), headless, config_username@) == Some(u@),
            None => remote_url(string_views(argv@), headless, config_username@) is None,
        },
{
    let ghost a = string_views(argv@);
    // position of --remote
    let mut p: usize = 0;
    while p < argv.len() && !str_eq(argv[p].as_str(), "--remote")
        invariant
            a == string_views(argv@),
            p <= argv@.len(),
            first_index(a, "--remote"@, 0) == first_index(a, "--remote"@, p as int),
        decreases argv.len() - p,
    {
        assert(a[p as int] == argv@[p as int]@);
        p += 1;
    }
    if p == argv.len() {
        return None;
    }
    assert(a[p as int] == argv@[p as int]@);
    if p + 1 >= argv.len() {
        return None;
    }
    assert(a[p + 1] == argv@[p + 1]@);
    let url = argv[p + 1].as_str();
    // flags
    let mut ps: Vec<Vec<char>> = Vec::new();
    let mut i: usize = 0;
    while i < argv.len()
        invariant
            a == string_views(argv@),
            views(ps@) + remote_params(a, i as int, headless) == remote_params(a, 0, headless),
            first_index(a, "--remote"@, 0) == Some(p as int),
            p + 1 < a.len(),
            a[p + 1] == url@,
        decreases argv.len() - i,
    {
        let arg = argv[i].as_str();
        assert(a[i as int] == arg@);
        if i + 1 < argv.len() {
            assert(a[i + 1] == argv@[i + 1]@);
        }
        let ghost before = views(ps@);
        if str_eq(arg, "--thinking") {
            ps.push(chars_of("thinking=true"));
            assert(views(ps@) =~= before.push("thinking=true"@));
            assert(views(ps@) + remote_params(a, i + 1, headless) =~= before + remote_params(a, i as int, headless));
            i += 1;
        } else if str_eq(arg, "--yes") || str_eq(arg, "-y") {
            ps.push(chars_of("yes=true"));
            assert(views(ps@) =~= before.push("yes=true"@));
            assert(views(ps@) + remote_params(a, i + 1, headless) =~= before + remote_params(a, i as int, headless));
            i += 1;
        } else if str_eq(arg, "--model") || str_eq(arg, "-m") || (!headless && (str_eq(arg, "--preset")
            || str_eq(arg, "--neuron-mode"))) || str_eq(arg, "--username") {
            if i + 1 >= argv.len() {
                assert(remote_params(a, i as int, headless) =~= Seq::<Seq<char>>::empty());
                assert(views(ps@) + Seq::<Seq<char>>::empty() =~= views(ps@));
                return finish_remote(argv, url, ps, headless, config_username);
            }
            let val = argv[i + 1].as_str();
            let item = if str_eq(arg, "--model") || str_eq(arg, "-m") {
                prefixed("model=", val)
            } else if !headless && str_eq(arg, "--preset") {
                prefixed("preset=", val)
            } else if !headless && str_eq(arg, "--neuron-mode") {
                prefixed("neuron_mode=", val)
            } else {
                let enc = url_encode(val);
                prefixed("username=", enc.as_str())
            };
            ps.push(item);
            assert(views(ps@) =~= before.push(item@));
            assert(views(ps@) + remote_params(a, i + 2, headless) =~= before + remote_params(a, i as int, headless));
            i += 2;
        } else {
            i += 1;
        }
    }
    assert(remote_params(a, i as int, headless) =~= Seq::<Seq<char>>::empty());
    assert(views(ps@) + Seq::<Seq<char>>::empty() =~= views(ps@));
    finish_remote(argv, url, ps, headless, config_username)
}

fn finish_remote(
    argv: &[String],
    url: &str,
    ps: Vec<Vec<char>>,
    headless: bool,
    config_username: &str,
) -> (r: Option<String>)
    requires
        views(ps@) == remote_params(string_views(argv@), 0, headless),
        first_index(string_views(argv@), "--remote"@, 0) matches Some(p) && p + 1 < argv@.len()
            && string_views(argv@)[p + 1] == url@,
    ensures
        match r {
            Some(u) => remote_url(string_views(argv@), headless, config_username@) == Some(u@),
            None => remote_url(string_views(argv@), headless, config_username@) is None,
        },
{
    let mut ps = ps;
    if !headless {
        let ghost before = views(ps@);
        ps.push(chars_of("client=tui"));
        assert(views(ps@) =~= before.push("client=tui"@));
    }
    let ghost mid = views(ps@);
    assert(mid =~= remote_params(string_views(argv@), 0, headless) + if headless {
        seq![]
    } else {
        seq!["client=tui"@]
    });
    let up = chars_of("username=");
    let mut has_user = false;
    let mut k: usize = 0;
    while k < ps.len()
        invariant
            k <= ps@.len(),
            views(ps@) == mid,
            up@ == "username="@,
            has_user == exists|j: int| 0 <= j < k && starts_with(#[trigger] mid[j], "username="@),
        decreases ps.len() - k,
    {
        assert(mid[k as int] == ps@[k as int]@);
        if starts_with_exec(ps[k].as_slice(), up.as_slice()) {
            has_user = true;
        }
        k += 1;
    }
    assert(mid.len() == k);
    let ghost spec_has = has_username_param(mid);
    assert(has_user == spec_has);
    if !has_user && !config_username.is_empty() {
        let enc = url_encode(config_username);
        let item = prefixed("username=", enc.as_str());
        proof {
            assert(views(ps@.push(item)) =~= mid.push(item@));
        }
        ps.push(item);
    } else {
        assert(mid + Seq::<Seq<char>>::empty() =~= mid);
    }
    assert(all_remote_params(string_views(argv@), headless, config_username@) == mid + if !spec_has
        && config_username@.len() > 0 {
        seq!["username="@ + url_encoded(config_username@)]
    } else {
        Seq::<Seq<char>>::empty()
    });
    assert(views(ps@) == all_remote_params(string_views(argv@), headless, config_username@));
    let mut out: Vec<char> = Vec::new();
    extend_str(&mut out, url);
    let uc = chars_of(url);
    let q = vec!['?'];
    assert(q@ == seq!['?']);
    out.push(if contains_exec(uc.as_slice(), q.as_slice()) { '&' } else { '?' });
    let amp = vec!['&'];
    assert(amp@ == seq!['&']);
    join_into(&mut out, &ps, amp.as_slice());
    Some(string_from_chars(out.as_slice()))
}

/// The WebSocket URL for `--remote <url>`, with `thinking`, `yes`, `model`,
/// `preset`, `neuron_mode` and `username` taken from the flags, `client=tui`,
/// and `config_username` (from the configuration file) when no
/// `--username` is given. `None` without a URL after `--remote`.
pub fn parse_remote_arg(argv: &[String], config_username: &str) -> (r: Option<String>)
    ensures
        match r {
            Some(u) => remote_url(string_views(argv@), false, config_username@) == Some(u@),
            None => remote_url(string_views(argv@), false, config_username@) is None,
        },
{
    build_remote_url(argv, false, config_username)
}

/// Like `parse_remote_arg` for headless mode: no `client=tui`, and no
/// preset or neuron mode.
pub fn parse_remote_arg_headless(argv: &[String], config_username: &str) -> (r: Option<String>)
    ensures
        match r {
            Some(u) => remote_url(string_views(argv@), true, config_username@) == Some(u@),
            None => remote_url(string_views(argv@), true, config_username@) is None,
        },
{
    build_remote_url(argv, true, config_username)
}

// ── headless options ──────────────────────────────────────────────────────

/// Options of a one-shot headless run. The sampling parameters are kept as
/// the text given on the command line; reading them as numbers is left to
/// the caller.
pub struct HeadlessArgs {
    pub message: Option<String>,
    pub model: Option<String>,
    pub neuron_mode: Option<NeuronMode>,
    pub preset: Option<String>,
    pub no_neurons: Vec<String>,
    pub temperature: Option<String>,
    pub top_p: Option<String>,
    pub repeat_penalty: Option<String>,
    pub ctx_strategy: Option<CtxStrategy>,
    pub keep_alive: bool,
    pub pin: Vec<String>,
    pub attach: Vec<String>,
    /// Auto-confirm every confirmation prompt.
    pub yes: bool,
    /// Stream thinking content.
    pub thinking: bool,
    pub thinking_stderr: bool,
    pub server_mode: bool,
    pub username: Option<String>,
}

/// `HeadlessArgs` over plain sequences.
pub struct HeadlessView {
    pub message: Option<Seq<char>>,
    pub model: Option<Seq<char>>,
    pub neuron_mode: Option<NeuronMode>,
    pub preset: Option<Seq<char>>,
    pub no_neurons: Seq<Seq<char>>,
    pub temperature: Option<Seq<char>>,
    pub top_p: Option<Seq<char>>,
    pub repeat_penalty: Option<Seq<char>>,
    pub ctx_strategy: Option<CtxStrategy>,
    pub keep_alive: bool,
    pub pin: Seq<Seq<char>>,
    pub attach: Seq<Seq<char>>,
    pub yes: bool,
    pub thinking: bool,
    pub thinking_stderr: bool,
    pub server_mode: bool,
    pub username: Option<Seq<char>>,
}

pub open spec fn sview(o: Option<String>) -> Option<Seq<char>> {
    match o {
        Some(s) => Some(s@),
        None => None,
    }
}

impl HeadlessArgs {
    pub open spec fn view(&self) -> HeadlessView {
        HeadlessView {
            message: sview(self.message),
            model: sview(self.model),
            neuron_mode: self.neuron_mode,
            preset: sview(self.preset),
            no_neurons: string_views(self.no_neurons@),
            temperature: sview(self.temperature),
            top_p: sview(self.top_p),
            repeat_penalty: sview(self.repeat_penalty),
            ctx_strategy: self.ctx_strategy,
            keep_alive: self.keep_alive,
            pin: string_views(self.pin@),
            attach: string_views(self.attach@),
            yes: self.yes,
            thinking: self.thinking,
            thinking_stderr: self.thinking_stderr,
            server_mode: self.server_mode,
            username: sview(self.username),
        }
    }

    /// No options set.
    pub fn default() -> (h: Self)
        ensures
            h.view() == headless_default(),
    {
        let h = HeadlessArgs {
            message: None,
            model: None,
            neuron_mode: None,
            preset: None,
            no_neurons: Vec::new(),
            temperature: None,
            top_p: None,
            repeat_penalty: None,
            ctx_strategy: None,
            keep_alive: false,
            pin: Vec::new(),
            attach: Vec::new(),
            yes: false,
            thinking: false,
            thinking_stderr: false,
            server_mode: false,
            username: None,
        };
        assert(h.view().no_neurons =~= Seq::<Seq<char>>::empty());
        assert(h.view().pin =~= Seq::<Seq<char>>::empty());
        assert(h.view().attach =~= Seq::<Seq<char>>::empty());
        h
    }
}

pub open spec fn headless_default() -> HeadlessView {
    HeadlessView {
        message: None,
        model: None,
        neuron_mode: None,
        preset: None,
        no_neurons: seq![],
        temperature: None,
        top_p: None,
        repeat_penalty: None,
        ctx_strategy: None,
        keep_alive: false,
        pin: seq![],
        attach: seq![],
        yes: false,
        thinking: false,
        thinking_stderr: false,
        server_mode: false,
        username: None,
    }
}

/// Flags that take the next argument as their value.
pub open spec fn headless_value_flag(f: Seq<char>) -> bool {
    ||| f == "--ollama-url"@
    ||| f == "--host"@
    ||| f == "--port"@
    ||| f == "--message"@
    ||| f == "--model"@
    ||| f == "-m"@
    ||| f == "--neuron-mode"@
    ||| f == "--preset"@
    ||| f == "--no-neuron"@
    ||| f == "--temperature"@
    ||| f == "--top-p"@
    ||| f == "--repeat-penalty"@
    ||| f == "--ctx-strategy"@
    ||| f == "--pin"@
    ||| f == "--attach"@
    ||| f == "--username"@
}

/// The options after flag `f` with value `v`.
pub open spec fn headless_set(st: HeadlessView, f: Seq<char>, v: Seq<char>) -> HeadlessView {
    if f == "--message"@ {
        HeadlessView { message: Some(v), ..st }
    } else if f == "--model"@ || f == "-m"@ {
        HeadlessView { model: Some(v), ..st }
    } else if f == "--neuron-mode"@ {
        HeadlessView { neuron_mode: Some(neuron_mode_named(v)), ..st }
    } else if f == "--preset"@ {
        HeadlessView { preset: Some(v), ..st }
    } else if f == "--no-neuron"@ {
        HeadlessView { no_neurons: st.no_neurons.push(v), ..st }
    } else if f == "--temperature"@ {
        HeadlessView { temperature: Some(v), ..st }
    } else if f == "--top-p"@ {
        HeadlessView { top_p: Some(v), ..st }
    } else if f == "--repeat-penalty"@ {
        HeadlessView { repeat_penalty: Some(v), ..st }
    } else if f == "--ctx-strategy"@ {
        HeadlessView { ctx_strategy: Some(ctx_strategy_named(v)), ..st }
    } else if f == "--pin"@ {
        HeadlessView { pin: st.pin.push(v), ..st }
    } else if f == "--attach"@ {
        HeadlessView { attach: st.attach.push(v), ..st }
    } else if f == "--username"@ {
        HeadlessView { username: Some(v), ..st }
    } else {
        st
    }
}

/// The options after switch `f` (a flag without value, or a bare word).
pub open spec fn headless_switch(st: HeadlessView, f: Seq<char>) -> HeadlessView {
    if f == "--headless"@ || f == "--server"@ {
        st
    } else if f == "--keep-alive"@ {
        HeadlessView { keep_alive: true, ..st }
    } else if f == "--yes"@ || f == "-y"@ {
        HeadlessView { yes: true, ..st }
    } else if f == "--thinking"@ {
        HeadlessView { thinking: true, ..st }
    } else if f == "--thinking-stderr"@ {
        HeadlessView { thinking_stderr: true, ..st }
    } else if f == "--server-mode"@ {
        HeadlessView { server_mode: true, ..st }
    } else if !starts_with(f, seq!['-']) {
        HeadlessView { message: Some(f), ..st }
    } else {
        st
    }
}

/// The options after scanning the arguments from index `i`.
pub open spec fn headless_scan(a: Seq<Seq<char>>, i: int, st: HeadlessView) -> HeadlessView
    decreases a.len() - i,
{
    if i < 0 || i >= a.len() {
        st
    } else if headless_value_flag(a[i]) {
        if i + 1 < a.len() {
            headless_scan(a, i + 2, headless_set(st, a[i], a[i + 1]))
        } else {
            st
        }
    } else {
        headless_scan(a, i + 1, headless_switch(st, a[i]))
    }
}

fn is_value_flag(f: &str) -> (b: bool)
    ensures
        b == headless_value_flag(f@),
{
    str_eq(f, "--ollama-url") || str_eq(f, "--host") || str_eq(f, "--port") || str_eq(f, "--message")
        || str_eq(f, "--model") || str_eq(f, "-m") || str_eq(f, "--neuron-mode") || str_eq(
        f,
        "--preset",
    ) || str_eq(f, "--no-neuron") || str_eq(f, "--temperature") || str_eq(f, "--top-p") || str_eq(
        f,
        "--repeat-penalty",
    ) || str_eq(f, "--ctx-strategy") || str_eq(f, "--pin") || str_eq(f, "--attach") || str_eq(
        f,
        "--username",
    )
}

fn push_string(v: &mut Vec<String>, s: &str)
    ensures
        string_views(final(v)@) == string_views(old(v)@).push(s@),
{
    let x = String::from_str(s);
    v.push(x);
    assert(string_views(v@) =~= string_views(old(v)@).push(s@));
}

fn apply_value(h: &mut HeadlessArgs, f: &str, v: &str)
    ensures
        final(h).view() == headless_set(old(h).view(), f@, v@),
{
    if str_eq(f, "--message") {
        h.message = Some(String::from_str(v));
    } else if str_eq(f, "--model") || str_eq(f, "-m") {
        h.model = Some(String::from_str(v));
    } else if str_eq(f, "--neuron-mode") {
        h.neuron_mode = Some(NeuronMode::from_str(v));
    } else if str_eq(f, "--preset") {
        h.preset = Some(String::from_str(v));
    } else if str_eq(f, "--no-neuron") {
        push_string(&mut h.no_neurons, v);
    } else if str_eq(f, "--temperature") {
        h.temperature = Some(String::from_str(v));
    } else if str_eq(f, "--top-p") {
        h.top_p = Some(String::from_str(v));
    } else if str_eq(f, "--repeat-penalty") {
        h.repeat_penalty = Some(String::from_str(v));
    } else if str_eq(f, "--ctx-strategy") {
        h.ctx_strategy = Some(CtxStrategy::from_str(v));
    } else if str_eq(f, "--pin") {
        push_string(&mut h.pin, v);
    } else if str_eq(f, "--attach") {
        push_string(&mut h.attach, v);
    } else if str_eq(f, "--username") {
        h.username = Some(String::from_str(v));
    }
}

fn apply_switch(h: &mut HeadlessArgs, f: &str)
    ensures
        final(h).view() == headless_switch(old(h).view(), f@),
{
    let dash = vec!['-'];
    assert(dash@ == seq!['-']);
    if str_eq(f, "--headless") || str_eq(f, "--server") {
    } else if str_eq(f, "--keep-alive") {
        h.keep_alive = true;
    } else if str_eq(f, "--yes") || str_eq(f, "-y") {
        h.yes = true;
    } else if str_eq(f, "--thinking") {
        h.thinking = true;
    } else if str_eq(f, "--thinking-stderr") {
        h.thinking_stderr = true;
    } else if str_eq(f, "--server-mode") {
        h.server_mode = true;
    } else if !starts_with_exec(chars_of(f).as_slice(), dash.as_slice()) {
        h.message = Some(String::from_str(f));
    }
}

/// Headless options (`--headless`); `None` without `--headless`.
pub fn parse_headless_args(argv: &[String]) -> (r: Option<HeadlessArgs>)
    ensures
        match r {
            Some(h) => has_arg(string_views(argv@), "--headless"@) && h.view() == headless_scan(
                string_views(argv@),
                0,
                headless_default(),
            ),
            None => !has_arg(string_views(argv@), "--headless"@),
        },
{
    if !has_arg_exec(argv, "--headless") {
        return None;
    }
    let ghost a = string_views(argv@);
    let mut h = HeadlessArgs::default();
    let mut i: usize = 0;
    while i < argv.len()
        invariant
            a == string_views(argv@),
            has_arg(a, "--headless"@),
            headless_scan(a, 0, headless_default()) == headless_scan(a, i as int, h.view()),
        decreases argv.len() - i,
    {
        let arg = argv[i].as_str();
        assert(a[i as int] == arg@);
        if is_value_flag(arg) {
            if i + 1 >= argv.len() {
                return Some(h);
            }
            assert(a[i + 1] == argv@[i + 1]@);
            apply_value(&mut h, arg, argv[i + 1].as_str());
            i += 2;
        } else {
            apply_switch(&mut h, arg);
            i += 1;
        }
    }
    Some(h)
}

} // verus!
