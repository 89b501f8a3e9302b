//! Tag parsing for the chat protocol: the model writes `<tool>`, `<ask>`,
//! `<patch>`, `<preview .../>`, `<mood>` and `<load_neuron>` tags into its
//! output; these functions find them, ignoring `<think>`/`<thought>` reasoning blocks and
//! text inside triple-backtick code fences.
use vstd::prelude::*;
use vstd::string::*;
use crate::text::{
    chars_of, find_from, split_char, split_char_exec, string_from_chars, trim, trim_bounds, trim_end,
    trim_end_index, trimmed_nonempty, trimmed_nonempty_exec, to_owned, contains, count_matches,
    count_matches_exec, extend_chars, find, find_from_exec, lemma_find_from_spec, substr, find_exec,
};

verus! {

/// The kind of input the model asks the user for.
#[derive(Debug, Clone, PartialEq)]
pub enum AskKind {
    /// Free text.
    Text,
    /// Yes / no.
    Confirm,
    /// One of the listed options.
    Choice(Vec<String>),
}

/// A pending request for user input.
#[derive(Debug, Clone)]
pub struct InputRequest {
    pub question: String,
    pub kind: AskKind,
}

/// What an `<ask>` tag requests, over plain sequences.
pub enum AskSpec {
    Text(Seq<char>),
    Confirm(Seq<char>),
    Choice(Seq<Seq<char>>),
}

/// The request that the pair `(kind, question)` stands for.
pub open spec fn ask_view(kind: AskKind, question: Seq<char>) -> AskSpec {
    match kind {
        AskKind::Text => AskSpec::Text(question),
        AskKind::Confirm => AskSpec::Confirm(question),
        AskKind::Choice(opts) => AskSpec::Choice(opts@.map_values(|o: String| o@)),
    }
}

// ── fixed patterns ────────────────────────────────────────────────────────

pub open spec fn think_open() -> Seq<char> {
    seq!['<', 't', 'h', 'i', 'n', 'k', '>']
}

pub open spec fn think_close() -> Seq<char> {
    seq!['<', '/', 't', 'h', 'i', 'n', 'k', '>']
}

pub open spec fn thought_open() -> Seq<char> {
    seq!['<', 't', 'h', 'o', 'u', 'g', 'h', 't', '>']
}

pub open spec fn thought_close() -> Seq<char> {
    seq!['<', '/', 't', 'h', 'o', 'u', 'g', 'h', 't', '>']
}

pub open spec fn fence() -> Seq<char> {
    seq!['`', '`', '`']
}

pub open spec fn tag_open(name: Seq<char>) -> Seq<char> {
    seq!['<'] + name + seq!['>']
}

pub open spec fn tag_close(name: Seq<char>) -> Seq<char> {
    seq!['<', '/'] + name + seq!['>']
}

pub open spec fn ask_prefix() -> Seq<char> {
    seq!['<', 'a', 's', 'k']
}

pub open spec fn ask_close() -> Seq<char> {
    seq!['<', '/', 'a', 's', 'k', '>']
}

pub open spec fn confirm_attr() -> Seq<char> {
    seq!['t', 'y', 'p', 'e', '=', '"', 'c', 'o', 'n', 'f', 'i', 'r', 'm', '"']
}

pub open spec fn choice_attr() -> Seq<char> {
    seq!['t', 'y', 'p', 'e', '=', '"', 'c', 'h', 'o', 'i', 'c', 'e', '"']
}

pub open spec fn preview_prefix() -> Seq<char> {
    seq!['<', 'p', 'r', 'e', 'v', 'i', 'e', 'w']
}

pub open spec fn self_close() -> Seq<char> {
    seq!['/', '>']
}

pub open spec fn path_attr() -> Seq<char> {
    seq!['p', 'a', 't', 'h', '=', '"']
}

fn think_open_exec() -> (v: Vec<char>)
    ensures v@ == think_open(),
{
    vec!['<', 't', 'h', 'i', 'n', 'k', '>']
}

fn think_close_exec() -> (v: Vec<char>)
    ensures v@ == think_close(),
{
    vec!['<', '/', 't', 'h', 'i', 'n', 'k', '>']
}

fn fence_exec() -> (v: Vec<char>)
    ensures v@ == fence(),
{
    vec!['`', '`', '`']
}

fn tag_pattern(name: &[char], closing: bool) -> (v: Vec<char>)
    ensures
        v@ == if closing { tag_close(name@) } else { tag_open(name@) },
{
    let mut v: Vec<char> = Vec::new();
    v.push('<');
    if closing {
        v.push('/');
    }
    extend_chars(&mut v, name);
    v.push('>');
    v
}

// ── specifications ────────────────────────────────────────────────────────

/// `n` blanks.
pub open spec fn blanks(n: int) -> Seq<char> {
    Seq::new(n as nat, |_i: int| ' ')
}

/// The earliest opening reasoning tag of `s`: its index, and whether it is
/// `<think>` (else `<thought>`).
pub open spec fn first_block_open(s: Seq<char>) -> Option<(int, bool)> {
    match (find(s, think_open()), find(s, thought_open())) {
        (None, None) => None,
        (Some(i), None) => Some((i, true)),
        (None, Some(j)) => Some((j, false)),
        (Some(i), Some(j)) => if i <= j {
            Some((i, true))
        } else {
            Some((j, false))
        },
    }
}

/// The earliest closing reasoning tag of `s`: its index and its length.
pub open spec fn first_block_close(s: Seq<char>) -> Option<(int, int)> {
    match (find(s, think_close()), find(s, thought_close())) {
        (None, None) => None,
        (Some(i), None) => Some((i, 8)),
        (None, Some(j)) => Some((j, 10)),
        (Some(i), Some(j)) => if i <= j {
            Some((i, 8))
        } else {
            Some((j, 10))
        },
    }
}

/// `s` with each reasoning block (`<think>…</think>` or
/// `<thought>…</thought>`, from an opening tag to the first closing tag of
/// its kind, tags included) read as blanks; a block that is never closed
/// blanks out the rest, and the flag says so.
pub open spec fn blocks_blanked(s: Seq<char>) -> (Seq<char>, bool)
    decreases s.len(),
{
    match first_block_open(s) {
        None => (s, false),
        Some((start, is_think)) => {
            let close = if is_think { think_close() } else { thought_close() };
            match find(s.skip(start), close) {
                None => (s.take(start) + blanks(s.len() - start), true),
                Some(e) => {
                    let k = start + e + close.len();
                    if 0 <= start && 0 <= e && k <= s.len() {
                        let r = blocks_blanked(s.skip(k));
                        (s.take(start) + blanks(k - start) + r.0, r.1)
                    } else {
                        (s, false)
                    }
                },
            }
        },
    }
}

/// Where a reasoning block that opened before `s` began (its opening tag
/// sent with the prompt) ends: just past the earliest closing tag, when no
/// opening tag comes before it.
pub open spec fn leading_block_end(s: Seq<char>) -> Option<int> {
    match first_block_close(s) {
        None => None,
        Some((c, l)) => match first_block_open(s) {
            Some((o, _)) => if o < c {
                None
            } else {
                Some(c + l)
            },
            None => Some(c + l),
        },
    }
}

/// `s` as tags are looked for in it, and whether a reasoning block is left
/// open: the text of every reasoning block, that which opened before `s`
/// included, reads as blanks; the text between blocks is kept.
pub open spec fn reasoning_blanked(s: Seq<char>) -> (Seq<char>, bool) {
    match leading_block_end(s) {
        Some(e) => if 0 <= e <= s.len() {
            let r = blocks_blanked(s.skip(e));
            (blanks(e) + r.0, r.1)
        } else {
            blocks_blanked(s)
        },
        None => blocks_blanked(s),
    }
}

/// The text in which tags are looked for: `content` with its reasoning
/// blocks blanked out, each position where it was.
pub open spec fn scan_text(content: Seq<char>) -> Seq<char> {
    reasoning_blanked(content).0
}

/// A reasoning block of `content` is opened and not closed: the model is
/// still reasoning, and no tag is taken from it.
pub open spec fn reasoning_open(content: Seq<char>) -> bool {
    reasoning_blanked(content).1
}

/// Text with no reasoning tag is scanned as it is.
pub proof fn lemma_scan_text_plain(s: Seq<char>)
    requires
        !contains(s, think_open()),
        !contains(s, thought_open()),
        !contains(s, think_close()),
        !contains(s, thought_close()),
    ensures
        scan_text(s) == s,
        !reasoning_open(s),
{
    lemma_find_from_spec(s, think_open(), 0);
    lemma_find_from_spec(s, thought_open(), 0);
    lemma_find_from_spec(s, think_close(), 0);
    lemma_find_from_spec(s, thought_close(), 0);
}

/// Position `pos` of `text` lies inside a code fence: an odd number of
/// triple backticks precede it.
pub open spec fn in_code_block(text: Seq<char>, pos: int) -> bool {
    count_matches(text.take(pos), fence()) % 2 == 1
}

/// Bounds, relative to the scanned part `scan`, of the body of the first
/// `<name>...</name>` pair; `None` when the open tag is missing or fenced,
/// the close tag is missing, or the first close tag comes before the body.
pub open spec fn tag_body_in(scan: Seq<char>, name: Seq<char>) -> Option<(int, int)> {
    match find(scan, tag_open(name)) {
        None => None,
        Some(t) => if in_code_block(scan, t) {
            None
        } else {
            let start = t + tag_open(name).len();
            match find(scan, tag_close(name)) {
                None => None,
                Some(e) => if e >= start {
                    Some((start, e))
                } else {
                    None
                },
            }
        },
    }
}

/// The body of the tag `name` in `content`, outside reasoning blocks and
/// fences; none while a reasoning block is open.
pub open spec fn tag_body(content: Seq<char>, name: Seq<char>) -> Option<Seq<char>> {
    if reasoning_open(content) {
        None
    } else {
        match tag_body_in(scan_text(content), name) {
            None => None,
            Some((s, e)) => Some(content.subrange(s, e)),
        }
    }
}

// ── executable scanning ──────────────────────────────────────────────────

fn first_block_open_exec(s: &[char]) -> (r: Option<(usize, bool)>)
    ensures
        match r {
            Some((i, k)) => first_block_open(s@) == Some((i as int, k)) && i + (if k { 7int } else {
                9int
            }) <= s@.len(),
            None => first_block_open(s@) is None,
        },
{
    let o1 = think_open_exec();
    let o2 = vec!['<', 't', 'h', 'o', 'u', 'g', 'h', 't', '>'];
    assert(o2@ == thought_open());
    match (find_exec(s, o1.as_slice()), find_exec(s, o2.as_slice())) {
        (None, None) => None,
        (Some(i), None) => Some((i, true)),
        (None, Some(j)) => Some((j, false)),
        (Some(i), Some(j)) => if i <= j {
            Some((i, true))
        } else {
            Some((j, false))
        },
    }
}

fn first_block_close_exec(s: &[char]) -> (r: Option<(usize, usize)>)
    ensures
        match r {
            Some((i, l)) => first_block_close(s@) == Some((i as int, l as int)) && i + l <= s@.len(),
            None => first_block_close(s@) is None,
        },
{
    let c1 = think_close_exec();
    let c2 = vec!['<', '/', 't', 'h', 'o', 'u', 'g', 'h', 't', '>'];
    assert(c2@ == thought_close());
    match (find_exec(s, c1.as_slice()), find_exec(s, c2.as_slice())) {
        (None, None) => None,
        (Some(i), None) => Some((i, 8)),
        (None, Some(j)) => Some((j, 10)),
        (Some(i), Some(j)) => if i <= j {
            Some((i, 8))
        } else {
            Some((j, 10))
        },
    }
}

fn push_blanks(out: &mut Vec<char>, n: usize)
    ensures
        final(out)@ == old(out)@ + blanks(n as int),
{
    let ghost start = out@;
    let mut i: usize = 0;
    while i < n
        invariant
            i <= n,
            out@ == start + blanks(i as int),
        decreases n - i,
    {
        out.push(' ');
        i += 1;
        assert(out@ =~= start + blanks(i as int));
    }
}

/// `scan_text` and `reasoning_open` of `cs`.
pub(crate) fn reasoning_blanked_exec(cs: &[char]) -> (r: (Vec<char>, bool))
    ensures
        r.0@ == scan_text(cs@),
        r.1 == reasoning_open(cs@),
        r.0@.len() == cs@.len(),
{
    let n = cs.len();
    let mut out: Vec<char> = Vec::new();
    let mut p: usize = 0;
    match (first_block_close_exec(cs), first_block_open_exec(cs)) {
        (Some((c, l)), o) => {
            let lead = match o {
                Some((oi, _)) => oi >= c,
                None => true,
            };
            if lead {
                push_blanks(&mut out, c + l);
                p = c + l;
            }
        },
        _ => {},
    }
    assert(reasoning_blanked(cs@) == (out@ + blocks_blanked(cs@.skip(p as int)).0, blocks_blanked(
        cs@.skip(p as int),
    ).1)) by {
        if p == 0 {
            assert(cs@.skip(0) =~= cs@);
            assert(out@ =~= Seq::<char>::empty());
            assert(out@ + blocks_blanked(cs@).0 =~= blocks_blanked(cs@).0);
        }
    }
    let c1 = think_close_exec();
    let c2 = vec!['<', '/', 't', 'h', 'o', 'u', 'g', 'h', 't', '>'];
    assert(c2@ == thought_close());
    loop
        invariant
            p <= n == cs@.len(),
            out@.len() == p,
            c1@ == think_close(),
            c2@ == thought_close(),
            reasoning_blanked(cs@) == (out@ + blocks_blanked(cs@.skip(p as int)).0, blocks_blanked(
                cs@.skip(p as int),
            ).1),
        decreases n - p,
    {
        let rest = &cs[p..n];
        assert(rest@ =~= cs@.skip(p as int));
        match first_block_open_exec(rest) {
            None => {
                extend_chars(&mut out, rest);
                return (out, false);
            },
            Some((start, is_think)) => {
                let close = if is_think {
                    c1.as_slice()
                } else {
                    c2.as_slice()
                };
                let after = &rest[start..rest.len()];
                assert(after@ =~= rest@.skip(start as int));
                match find_exec(after, close) {
                    None => {
                        extend_chars(&mut out, &rest[0..start]);
                        push_blanks(&mut out, n - p - start);
                        assert(rest@.subrange(0, start as int) =~= rest@.take(start as int));
                        return (out, true);
                    },
                    Some(e) => {
                        let k = start + e + close.len();
                        extend_chars(&mut out, &rest[0..start]);
                        push_blanks(&mut out, k - start);
                        proof {
                            assert(rest@.subrange(0, start as int) =~= rest@.take(start as int));
                            assert(rest@.skip(k as int) =~= cs@.skip(p + k));
                        }
                        p = p + k;
                    },
                }
            },
        }
    }
}

fn code_block_exec(scan: &[char], pos: usize) -> (b: bool)
    requires
        pos <= scan@.len(),
    ensures
        b == in_code_block(scan@, pos as int),
{
    let f = fence_exec();
    let prefix = &scan[0..pos];
    assert(prefix@ =~= scan@.take(pos as int));
    let n = count_matches_exec(prefix, f.as_slice());
    n % 2 == 1
}

/// The text of `text` before byte offset `pos`.
pub open spec fn before_byte(text: Seq<char>, pos: int) -> Seq<char> {
    vstd::utf8::decode_utf8(vstd::utf8::encode_utf8(text).take(pos))
}

/// Returns true if byte offset `pos` falls inside a triple-backtick code
/// fence in `text`: an odd number of fences come before it.
pub fn is_in_code_block(text: &str, pos: usize) -> (b: bool)
    requires
        vstd::utf8::is_char_boundary(text.spec_bytes(), pos as int),
    ensures
        b == (count_matches(before_byte(text@, pos as int), fence()) % 2 == 1),
{
    let (head, _) = text.split_at(pos);
    proof {
        vstd::utf8::encode_utf8_decode_utf8(head@);
        assert(head.spec_bytes() =~= vstd::utf8::encode_utf8(text@).take(pos as int));
    }
    let cs = chars_of(head);
    assert(cs@.take(cs@.len() as int) =~= cs@);
    code_block_exec(cs.as_slice(), cs.len())
}

fn tag_body_in_exec(scan: &[char], name: &[char]) -> (r: Option<(usize, usize)>)
    ensures
        match r {
            Some((s, e)) => tag_body_in(scan@, name@) == Some((s as int, e as int)) && s <= e
                <= scan@.len(),
            None => tag_body_in(scan@, name@) is None,
        },
{
    let open = tag_pattern(name, false);
    let close = tag_pattern(name, true);
    let t = match find_from_exec(scan, open.as_slice(), 0) {
        Some(t) => t,
        None => return None,
    };
    if code_block_exec(scan, t) {
        return None;
    }
    let n = scan.len();
    assert(t + open@.len() <= n);
    let start = t + open.len();
    match find_from_exec(scan, close.as_slice(), 0) {
        Some(e) => if e >= start {
            Some((start, e))
        } else {
            None
        },
        None => None,
    }
}

fn extract_tag_in<'a>(content: &'a str, nm: &[char]) -> (r: Option<&'a str>)
    ensures
        match r {
            Some(s) => tag_body(content@, nm@) == Some(s@),
            None => tag_body(content@, nm@) is None,
        },
{
    let cs = chars_of(content);
    let (scan, open) = reasoning_blanked_exec(cs.as_slice());
    if open {
        return None;
    }
    match tag_body_in_exec(scan.as_slice(), nm) {
        Some((s, e)) => Some(substr(content, s, e)),
        None => None,
    }
}

/// Generic paired-tag extractor: the body of the first `<name>...</name>`
/// outside reasoning blocks and code fences.
pub fn extract_tag<'a>(content: &'a str, name: &str) -> (r: Option<&'a str>)
    ensures
        match r {
            Some(s) => tag_body(content@, name@) == Some(s@),
            None => tag_body(content@, name@) is None,
        },
{
    let nm = chars_of(name);
    extract_tag_in(content, nm.as_slice())
}

/// What stripping the tag `name` leaves of `c`: the first `<name>` outside
/// reasoning blocks, through the first `</name>` outside them after it, is
/// cut out, and the text before it loses its trailing whitespace; `None`
/// when either tag is missing.
pub open spec fn strip_result(c: Seq<char>, name: Seq<char>) -> Option<Seq<char>> {
    let m = scan_text(c);
    match find_from(m, tag_open(name), 0) {
        None => None,
        Some(o) => match find_from(m, tag_close(name), o) {
            None => None,
            Some(k) => {
                let before = trim_end(c.take(o));
                let after = c.skip(k + tag_close(name).len());
                Some(
                    if before.len() == 0 {
                        after
                    } else {
                        before + after
                    },
                )
            },
        },
    }
}

/// Strips a complete `<name>...</name>` tag from `content` (outside its
/// reasoning blocks), keeping the surrounding text. Returns whether a tag was
/// removed.
pub fn strip_tag(content: &mut String, name: &str) -> (found: bool)
    ensures
        found == strip_result(old(content)@, name@) is Some,
        found ==> strip_result(old(content)@, name@) == Some(final(content)@),
        !found ==> final(content)@ == old(content)@,
{
    let cs = chars_of(content.as_str());
    let nm = chars_of(name);
    let open = tag_pattern(nm.as_slice(), false);
    let close = tag_pattern(nm.as_slice(), true);
    let (m, _) = reasoning_blanked_exec(cs.as_slice());
    let o = match find_from_exec(m.as_slice(), open.as_slice(), 0) {
        Some(o) => o,
        None => return false,
    };
    let k = match find_from_exec(m.as_slice(), close.as_slice(), o) {
        Some(k) => k,
        None => return false,
    };
    let n = cs.len();
    assert(k + close@.len() <= n);
    let end = k + close.len();
    let bend = trim_end_index(cs.as_slice(), o);
    let mut out: Vec<char> = Vec::new();
    if bend > 0 {
        extend_chars(&mut out, &cs[0..bend]);
    }
    extend_chars(&mut out, &cs[end..n]);
    proof {
        let before = trim_end(cs@.take(o as int));
        assert(before =~= cs@.take(bend as int));
        assert(cs@.subrange(0, bend as int) =~= before);
        assert(cs@.subrange(end as int, n as int) =~= cs@.skip(end as int));
        if bend == 0 {
            assert(out@ =~= cs@.skip(end as int));
        }
    }
    *content = string_from_chars(out.as_slice());
    true
}

/// Detects a complete `<tool>...</tool>` tag outside think blocks and code
/// fences; returns the command.
pub fn extract_tool_call(content: &str) -> (r: Option<&str>)
    ensures
        match r {
            Some(s) => tag_body(content@, seq!['t', 'o', 'o', 'l']) == Some(s@),
            None => tag_body(content@, seq!['t', 'o', 'o', 'l']) is None,
        },
{
    let nm = vec!['t', 'o', 'o', 'l'];
    extract_tag_in(content, nm.as_slice())
}

/// Detects a complete `<patch>...</patch>` tag; returns the raw diff.
pub fn extract_patch_tag(content: &str) -> (r: Option<String>)
    ensures
        match r {
            Some(s) => tag_body(content@, seq!['p', 'a', 't', 'c', 'h']) == Some(s@),
            None => tag_body(content@, seq!['p', 'a', 't', 'c', 'h']) is None,
        },
{
    let nm = vec!['p', 'a', 't', 'c', 'h'];
    match extract_tag_in(content, nm.as_slice()) {
        Some(s) => Some(to_owned(s)),
        None => None,
    }
}

fn trimmed_string(s: &str) -> (r: String)
    ensures
        r@ == trim(s@),
{
    let cs = chars_of(s);
    let (a, b) = trim_bounds(cs.as_slice());
    string_from_chars(&cs[a..b])
}

/// Detects a complete `<mood>...</mood>` tag; returns its trimmed body.
pub fn extract_mood_tag(content: &str) -> (r: Option<String>)
    ensures
        match r {
            Some(s) => tag_body(content@, seq!['m', 'o', 'o', 'd']) matches Some(b) && s@ == trim(b),
            None => tag_body(content@, seq!['m', 'o', 'o', 'd']) is None,
        },
{
    let nm = vec!['m', 'o', 'o', 'd'];
    match extract_tag_in(content, nm.as_slice()) {
        Some(s) => Some(trimmed_string(s)),
        None => None,
    }
}

pub open spec fn load_neuron_name() -> Seq<char> {
    seq!['l', 'o', 'a', 'd', '_', 'n', 'e', 'u', 'r', 'o', 'n']
}

/// Detects a complete `<load_neuron>...</load_neuron>` tag; returns its
/// trimmed body.
pub fn extract_load_neuron_tag(content: &str) -> (r: Option<String>)
    ensures
        match r {
            Some(s) => tag_body(content@, load_neuron_name()) matches Some(b) && s@ == trim(b),
            None => tag_body(content@, load_neuron_name()) is None,
        },
{
    let nm = vec!['l', 'o', 'a', 'd', '_', 'n', 'e', 'u', 'r', 'o', 'n'];
    match extract_tag_in(content, nm.as_slice()) {
        Some(s) => Some(trimmed_string(s)),
        None => None,
    }
}

/// What the first `<ask ...>...</ask>` found in `scan` requests, its
/// question taken from `text` at the same place.
pub open spec fn ask_in(scan: Seq<char>, text: Seq<char>) -> Option<AskSpec> {
    match find(scan, ask_prefix()) {
        None => None,
        Some(open) => if in_code_block(scan, open) {
            None
        } else {
            match find_from(scan, seq!['>'], open) {
                None => None,
                Some(gt) => match find(scan, ask_close()) {
                    None => None,
                    Some(close) => if close < gt + 1 {
                        None
                    } else {
                        let tag_str = scan.subrange(open, gt + 1);
                        let inner = trim(text.subrange(gt + 1, close));
                        if contains(tag_str, confirm_attr()) {
                            Some(AskSpec::Confirm(inner))
                        } else if contains(tag_str, choice_attr()) {
                            let opts = trimmed_nonempty(split_char(inner, '|'));
                            if opts.len() == 0 {
                                None
                            } else {
                                Some(AskSpec::Choice(opts))
                            }
                        } else {
                            Some(AskSpec::Text(inner))
                        }
                    },
                },
            }
        },
    }
}

/// What the `<ask>` tag of `content` requests, outside reasoning blocks;
/// none while a reasoning block is open.
pub open spec fn ask_request(content: Seq<char>) -> Option<AskSpec> {
    if reasoning_open(content) {
        None
    } else {
        ask_in(scan_text(content), content)
    }
}

/// Detects `<ask>`, `<ask type="confirm">` and `<ask type="choice">` tags,
/// skipping think blocks and code fences. Returns the kind and the question
/// (empty for a choice, whose options are `|`-separated).
pub fn extract_ask_tag(content: &str) -> (r: Option<(AskKind, String)>)
    ensures
        match r {
            Some((k, q)) => ask_request(content@) == Some(ask_view(k, q@)) && (k is Choice ==> q@
                == Seq::<char>::empty()),
            None => ask_request(content@) is None,
        },
{
    let cs = chars_of(content);
    let (sv, open_block) = reasoning_blanked_exec(cs.as_slice());
    if open_block {
        return None;
    }
    let scan = sv.as_slice();
    let n = scan.len();
    let prefix = vec!['<', 'a', 's', 'k'];
    let open = match find_from_exec(scan, prefix.as_slice(), 0) {
        Some(o) => o,
        None => return None,
    };
    if code_block_exec(scan, open) {
        return None;
    }
    let gt_pat = vec!['>'];
    assert(gt_pat@ == seq!['>']);
    assert(prefix@ == ask_prefix());
    assert(find(scan@, ask_prefix()) == Some(open as int));
    assert(!in_code_block(scan@, open as int));
    let gt = match find_from_exec(scan, gt_pat.as_slice(), open) {
        Some(g) => g,
        None => {
            assert(find_from(scan@, seq!['>'], open as int) is None);
            assert(ask_in(scan@, cs@) is None);
            return None;
        },
    };
    let close_pat = vec!['<', '/', 'a', 's', 'k', '>'];
    let close = match find_from_exec(scan, close_pat.as_slice(), 0) {
        Some(c) => c,
        None => return None,
    };
    assert(gt + 1 <= n);
    if close < gt + 1 {
        return None;
    }
    let tag_str = &scan[open..gt + 1];
    let body = &cs[gt + 1..close];
    let (ia, ib) = trim_bounds(body);
    let inner = &body[ia..ib];
    assert(inner@ =~= trim(cs@.subrange(gt + 1, close as int)));
    let confirm = vec!['t', 'y', 'p', 'e', '=', '"', 'c', 'o', 'n', 'f', 'i', 'r', 'm', '"'];
    let choice = vec!['t', 'y', 'p', 'e', '=', '"', 'c', 'h', 'o', 'i', 'c', 'e', '"'];
    proof {
        lemma_find_from_spec(tag_str@, confirm@, 0);
        lemma_find_from_spec(tag_str@, choice@, 0);
    }
    if find_from_exec(tag_str, confirm.as_slice(), 0).is_some() {
        Some((AskKind::Confirm, string_from_chars(inner)))
    } else if find_from_exec(tag_str, choice.as_slice(), 0).is_some() {
        let parts = split_char_exec(inner, '|');
        let opts = trimmed_nonempty_exec(&parts);
        if opts.len() == 0 {
            return None;
        }
        let q = String::new();
        Some((AskKind::Choice(opts), q))
    } else {
        Some((AskKind::Text, string_from_chars(inner)))
    }
}

/// The path of the first `<preview path="..."/>` found in `scan`, taken
/// from `text` at the same place.
pub open spec fn preview_in(scan: Seq<char>, text: Seq<char>) -> Option<Seq<char>> {
    match find(scan, preview_prefix()) {
        None => None,
        Some(start) => if in_code_block(scan, start) {
            None
        } else {
            let tag_str = scan.skip(start);
            match find(tag_str, self_close()) {
                None => None,
                Some(end) => if end < 8 {
                    None
                } else {
                    let inner = tag_str.subrange(8, end);
                    match find(inner, path_attr()) {
                        None => None,
                        Some(p) => match find_from(inner, seq!['"'], p + 6) {
                            None => None,
                            Some(q) => Some(text.subrange(start + 8 + p + 6, start + 8 + q)),
                        },
                    }
                },
            }
        },
    }
}

/// The path of the `<preview path="..."/>` tag of `content`, outside
/// reasoning blocks and code fences; none while a reasoning block is open.
pub open spec fn preview_path(content: Seq<char>) -> Option<Seq<char>> {
    if reasoning_open(content) {
        None
    } else {
        preview_in(scan_text(content), content)
    }
}

/// Extracts the path from a `<preview path="..."/>` tag.
pub fn extract_preview_tag(content: &str) -> (r: Option<String>)
    ensures
        match r {
            Some(s) => preview_path(content@) == Some(s@),
            None => preview_path(content@) is None,
        },
{
    let cs = chars_of(content);
    let (sv, open_block) = reasoning_blanked_exec(cs.as_slice());
    if open_block {
        return None;
    }
    let scan = sv.as_slice();
    let pre = vec!['<', 'p', 'r', 'e', 'v', 'i', 'e', 'w'];
    let start = match find_from_exec(scan, pre.as_slice(), 0) {
        Some(s) => s,
        None => return None,
    };
    if code_block_exec(scan, start) {
        return None;
    }
    let tag_str = &scan[start..scan.len()];
    assert(tag_str@ =~= scan@.skip(start as int));
    let sc = vec!['/', '>'];
    let end = match find_from_exec(tag_str, sc.as_slice(), 0) {
        Some(e) => e,
        None => return None,
    };
    if end < 8 {
        return None;
    }
    let inner = &tag_str[8..end];
    let pa = vec!['p', 'a', 't', 'h', '=', '"'];
    let p = match find_from_exec(inner, pa.as_slice(), 0) {
        Some(p) => p,
        None => return None,
    };
    let n = inner.len();
    assert(p + 6 <= n);
    let quote = vec!['"'];
    assert(quote@ == seq!['"']);
    assert(pa@ == path_attr());
    assert(sc@ == self_close());
    assert(pre@ == preview_prefix());
    assert(find(scan@, preview_prefix()) == Some(start as int));
    assert(find(tag_str@, self_close()) == Some(end as int));
    assert(inner@ =~= tag_str@.subrange(8, end as int));
    assert(find(inner@, path_attr()) == Some(p as int));
    let q = match find_from_exec(inner, quote.as_slice(), p + 6) {
        Some(q) => q,
        None => {
            assert(preview_in(scan@, cs@) is None);
            return None;
        },
    };
    let path = &cs[start + 8 + p + 6..start + 8 + q];
    assert(preview_in(scan@, cs@) == Some(path@));
    Some(string_from_chars(path))
}

} // verus!
