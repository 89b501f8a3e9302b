//! Styled runs of text for the chat screen: inline markdown and `@path`
//! highlighting. The screen maps each style to its colours.
use vstd::prelude::*;
use crate::chat::{is_alphanumeric, palette, djb2, unicode_alphanumeric, username_color, Rgb};
use crate::text::{
    ascii_lower_chars, ascii_lower_str, chars_of, ends_with, extend_chars, find, find_exec,
    slice_to_vec, string_from_chars, trim_end,
};

verus! {

/// How a run of text is drawn.
#[derive(PartialEq, Eq, Structural, Clone, Copy, Debug)]
pub enum SpanStyle {
    /// No style at all.
    Raw,
    /// Body text.
    Plain,
    /// The accent colour (`@path` references).
    Accent,
    /// `**bold**` or `__bold__`.
    Bold,
    /// `*italic*` or `_italic_`.
    Italic,
    /// `` `inline code` ``.
    Code,
    /// A `#name` mention, bold in the user's colour.
    Mention(Rgb),
}

/// A run of text with its style.
pub struct StyledSpan {
    pub text: String,
    pub style: SpanStyle,
}

impl StyledSpan {
    /// The run as the specifications see it.
    pub open spec fn view(&self) -> (Seq<char>, SpanStyle) {
        (self.text@, self.style)
    }
}

/// The views of a sequence of runs.
pub open spec fn span_views(v: Seq<StyledSpan>) -> Seq<(Seq<char>, SpanStyle)> {
    v.map_values(|x: StyledSpan| x.view())
}

/// The pending body text `buf` as a run, if any.
pub open spec fn flush(buf: Seq<char>) -> Seq<(Seq<char>, SpanStyle)> {
    if buf.len() > 0 {
        seq![(buf, SpanStyle::Plain)]
    } else {
        seq![]
    }
}

fn push_span(out: &mut Vec<StyledSpan>, text: String, style: SpanStyle)
    ensures
        span_views(final(out)@) == span_views(old(out)@).push((text@, style)),
{
    let sp = StyledSpan { text, style };
    proof {
        assert(span_views(old(out)@.push(sp)) =~= span_views(old(out)@).push(sp.view()));
    }
    out.push(sp);
}

fn flush_exec(out: &mut Vec<StyledSpan>, buf: &mut Vec<char>)
    ensures
        span_views(final(out)@) == span_views(old(out)@) + flush(old(buf)@),
        final(buf)@ == Seq::<char>::empty(),
{
    if buf.len() > 0 {
        let t = string_from_chars(buf.as_slice());
        push_span(out, t, SpanStyle::Plain);
    } else {
        assert(span_views(out@) + Seq::<(Seq<char>, SpanStyle)>::empty() =~= span_views(out@));
    }
    *buf = Vec::new();
    assert(buf@ =~= Seq::<char>::empty());
}

// ── @path references ──────────────────────────────────────────────────────

/// The pieces of `s` each ending after a space, the last one possibly not
/// (`str::split_inclusive(' ')`).
pub open spec fn split_inclusive_space(s: Seq<char>) -> Seq<Seq<char>>
    decreases s.len(),
{
    if s.len() == 0 {
        seq![]
    } else {
        match find(s, seq![' ']) {
            Some(i) => if 0 <= i < s.len() {
                seq![s.take(i + 1)] + split_inclusive_space(s.skip(i + 1))
            } else {
                seq![s]
            },
            None => seq![s],
        }
    }
}

/// `w` is an `@path` reference: `@` and at least one more char.
pub open spec fn is_at_ref(w: Seq<char>) -> bool {
    w.len() > 1 && w[0] == '@'
}

/// The runs of the pieces `ps`, where `buf` is body text not yet emitted.
pub open spec fn ref_runs(ps: Seq<Seq<char>>, buf: Seq<char>) -> Seq<(Seq<char>, SpanStyle)>
    decreases ps.len(),
{
    if ps.len() == 0 {
        flush(buf)
    } else {
        let w = ps[0];
        let t = trim_end(w);
        if is_at_ref(t) {
            let space = if ends_with(w, seq![' ']) { seq![' '] } else { Seq::empty() };
            flush(buf) + seq![(t + space, SpanStyle::Accent)] + ref_runs(ps.drop_first(), Seq::empty())
        } else {
            ref_runs(ps.drop_first(), buf + w)
        }
    }
}

/// `text` with its `@path` references in the accent colour.
pub open spec fn ref_highlighted(text: Seq<char>) -> Seq<(Seq<char>, SpanStyle)> {
    let r = ref_runs(split_inclusive_space(text), Seq::empty());
    if r.len() == 0 {
        seq![(Seq::empty(), SpanStyle::Raw)]
    } else {
        r
    }
}

/// Runs of `text` with `@path` references highlighted.
pub fn highlight_at_refs(text: &str) -> (r: Vec<StyledSpan>)
    ensures
        span_views(r@) == ref_highlighted(text@),
{
    let sp = vec![' '];
    assert(sp@ == seq![' ']);
    let mut out: Vec<StyledSpan> = Vec::new();
    let mut buf: Vec<char> = Vec::new();
    let mut rest = chars_of(text);
    assert(span_views(out@) =~= Seq::<(Seq<char>, SpanStyle)>::empty());
    while rest.len() > 0
        invariant
            sp@ == seq![' '],
            span_views(out@) + ref_runs(split_inclusive_space(rest@), buf@) == ref_runs(
                split_inclusive_space(text@),
                Seq::empty(),
            ),
        decreases rest@.len(),
    {
        let n = rest.len();
        let end = match find_exec(rest.as_slice(), sp.as_slice()) {
            Some(i) => i + 1,
            None => n,
        };
        let w = slice_to_vec(rest.as_slice(), 0, end);
        let next = slice_to_vec(rest.as_slice(), end, n);
        proof {
            let ps = split_inclusive_space(rest@);
            assert(ps[0] == w@);
            assert(ps.drop_first() == split_inclusive_space(next@)) by {
                assert(next@ =~= rest@.skip(end as int));
                if end < n {
                    assert(ps =~= seq![w@] + split_inclusive_space(next@));
                } else {
                    assert(next@ =~= Seq::<char>::empty());
                }
            }
        }
        let te = crate::text::trim_end_index(w.as_slice(), w.len());
        let t = slice_to_vec(w.as_slice(), 0, te);
        assert(t@ =~= trim_end(w@)) by {
            assert(w@.take(w@.len() as int) =~= w@);
        }
        if t.len() > 1 && t[0] == '@' {
            flush_exec(&mut out, &mut buf);
            let mut run = t;
            proof {
                let wl = w@.len() as int;
                if wl > 0 {
                    let last = w@.subrange(wl - 1, wl);
                    assert(last =~= seq![w@[wl - 1]]);
                    if w@[wl - 1] == ' ' {
                        assert(last =~= seq![' ']);
                        assert(crate::text::matches_at(w@, seq![' '], wl - 1));
                    } else {
                        assert(last[0] != ' ');
                        assert(last != seq![' ']);
                        assert(!crate::text::matches_at(w@, seq![' '], wl - 1));
                    }
                }
                assert(ends_with(w@, seq![' ']) == (w@.len() > 0 && w@[w@.len() - 1] == ' '));
            }
            if w.len() > 0 && w[w.len() - 1] == ' ' {
                run.push(' ');
            }
            let ghost space = if ends_with(w@, seq![' ']) { seq![' '] } else { Seq::<char>::empty() };
            assert(run@ =~= trim_end(w@) + space);
            let s = string_from_chars(run.as_slice());
            push_span(&mut out, s, SpanStyle::Accent);
        } else {
            extend_chars(&mut buf, w.as_slice());
        }
        rest = next;
    }
    assert(split_inclusive_space(rest@) =~= Seq::<Seq<char>>::empty());
    flush_exec(&mut out, &mut buf);
    if out.len() == 0 {
        push_span(&mut out, String::new(), SpanStyle::Raw);
    }
    out
}

// ── inline markdown ───────────────────────────────────────────────────────

/// The colour of a user name given by its chars.
pub open spec fn name_color(name: Seq<char>) -> Rgb {
    palette((djb2(vstd::utf8::encode_utf8(name)) % 8) as int)
}

/// First index `k >= j` where `m` appears twice in a row, or the length of
/// `c` when there is none.
pub open spec fn pair_close(c: Seq<char>, m: char, j: int) -> int
    decreases c.len() - j,
{
    if 0 <= j && j + 1 < c.len() {
        if c[j] == m && c[j + 1] == m {
            j
        } else {
            pair_close(c, m, j + 1)
        }
    } else {
        c.len() as int
    }
}

/// First index `k >= j` holding `m`, or the length of `c`.
pub open spec fn char_close(c: Seq<char>, m: char, j: int) -> int
    decreases c.len() - j,
{
    if 0 <= j < c.len() {
        if c[j] == m {
            j
        } else {
            char_close(c, m, j + 1)
        }
    } else {
        c.len() as int
    }
}

/// `c` may continue a mention name.
pub open spec fn mention_char(c: char) -> bool {
    unicode_alphanumeric(c) || c == '_' || c == '-'
}

/// End of the mention name that starts at `start`, scanned from `j`; one
/// inner `#` is allowed once the name has begun.
pub open spec fn mention_end(c: Seq<char>, j: int, seen: bool, start: int) -> int
    decreases c.len() - j,
{
    if 0 <= j < c.len() {
        if mention_char(c[j]) {
            mention_end(c, j + 1, seen, start)
        } else if c[j] == '#' && !seen && j > start {
            mention_end(c, j + 1, true, start)
        } else {
            j
        }
    } else {
        j
    }
}

pub proof fn lemma_pair_close(c: Seq<char>, m: char, j: int)
    requires
        0 <= j,
    ensures
        j <= pair_close(c, m, j) || pair_close(c, m, j) == c.len(),
        pair_close(c, m, j) <= c.len(),
        pair_close(c, m, j) < c.len() ==> pair_close(c, m, j) + 1 < c.len(),
    decreases c.len() - j,
{
    if j + 1 < c.len() && !(c[j] == m && c[j + 1] == m) {
        lemma_pair_close(c, m, j + 1);
    }
}

pub proof fn lemma_char_close(c: Seq<char>, m: char, j: int)
    requires
        0 <= j,
    ensures
        j <= char_close(c, m, j) || char_close(c, m, j) == c.len(),
        char_close(c, m, j) <= c.len(),
    decreases c.len() - j,
{
    if j < c.len() && c[j] != m {
        lemma_char_close(c, m, j + 1);
    }
}

pub proof fn lemma_mention_end(c: Seq<char>, j: int, seen: bool, start: int)
    requires
        0 <= j <= c.len(),
    ensures
        j <= mention_end(c, j, seen, start) <= c.len(),
    decreases c.len() - j,
{
    if j < c.len() {
        if mention_char(c[j]) {
            lemma_mention_end(c, j + 1, seen, start);
        } else if c[j] == '#' && !seen && j > start {
            lemma_mention_end(c, j + 1, true, start);
        }
    }
}

/// The part of a mention name before its inner `#`.
pub open spec fn before_hash(name: Seq<char>) -> Seq<char> {
    match find(name, seq!['#']) {
        Some(i) => name.take(i),
        None => name,
    }
}

/// The runs of `c` from index `i`, where `buf` is body text not yet
/// emitted: `**bold**`/`__bold__`, `*italic*`/`_italic_` (not before a
/// space), `` `code` `` (each running to the end when unclosed), and
/// `#name` or `#name#session` mentions in the user's colour.
pub open spec fn md_runs(c: Seq<char>, i: int, buf: Seq<char>) -> Seq<(Seq<char>, SpanStyle)>
    decreases c.len() - i,
{
    if i < 0 || i >= c.len() {
        flush(buf)
    } else if i + 1 < c.len() && ((c[i] == '*' && c[i + 1] == '*') || (c[i] == '_' && c[i + 1] == '_')) {
        let k = pair_close(c, c[i], i + 2);
        proof {
            lemma_pair_close(c, c[i], i + 2);
        }
        let next = if k < c.len() { k + 2 } else { c.len() as int };
        flush(buf) + seq![(c.subrange(i + 2, k), SpanStyle::Bold)] + md_runs(c, next, Seq::empty())
    } else if (c[i] == '*' || c[i] == '_') && i + 1 < c.len() && c[i + 1] != ' ' {
        let k = char_close(c, c[i], i + 1);
        proof {
            lemma_char_close(c, c[i], i + 1);
        }
        let next = if k < c.len() { k + 1 } else { c.len() as int };
        flush(buf) + seq![(c.subrange(i + 1, k), SpanStyle::Italic)] + md_runs(c, next, Seq::empty())
    } else if c[i] == '`' {
        let k = char_close(c, '`', i + 1);
        proof {
            lemma_char_close(c, '`', i + 1);
        }
        let next = if k < c.len() { k + 1 } else { c.len() as int };
        flush(buf) + seq![(c.subrange(i + 1, k), SpanStyle::Code)] + md_runs(c, next, Seq::empty())
    } else if c[i] == '#' && mention_end(c, i + 1, false, i + 1) > i + 1 && c[mention_end(
        c,
        i + 1,
        false,
        i + 1,
    ) - 1] != '#' {
        let e = mention_end(c, i + 1, false, i + 1);
        proof {
            lemma_mention_end(c, i + 1, false, i + 1);
        }
        let name = c.subrange(i + 1, e);
        flush(buf) + seq![
            (seq!['#'] + name, SpanStyle::Mention(name_color(ascii_lower_str(before_hash(name))))),
        ] + md_runs(c, e, Seq::empty())
    } else {
        md_runs(c, i + 1, buf.push(c[i]))
    }
}

/// The runs of a line of markdown text.
pub open spec fn inline_runs(text: Seq<char>) -> Seq<(Seq<char>, SpanStyle)> {
    let r = md_runs(text, 0, Seq::empty());
    if r.len() == 0 {
        seq![(Seq::empty(), SpanStyle::Raw)]
    } else {
        r
    }
}

proof fn lemma_pair_close_at_end(c: Seq<char>, m: char, j: int, e: int)
    requires
        0 <= j <= e,
        e + 1 < c.len(),
        c[e] == m,
        c[e + 1] == m,
        forall|k: int| j <= k < e ==> c[k] != m,
    ensures
        pair_close(c, m, j) == e,
    decreases e - j,
{
    if j < e {
        lemma_pair_close_at_end(c, m, j + 1, e);
    }
}

/// Text with no `*` or `_` between a pair of `**` or of `__` is one bold
/// run: the two markers mean the same.
pub proof fn lemma_bold_markers(t: Seq<char>)
    requires
        forall|k: int| 0 <= k < t.len() ==> t[k] != '*' && t[k] != '_',
    ensures
        inline_runs(seq!['*', '*'] + t + seq!['*', '*']) == seq![(t, SpanStyle::Bold)],
        inline_runs(seq!['_', '_'] + t + seq!['_', '_']) == seq![(t, SpanStyle::Bold)],
{
    lemma_bold_pair(t, '*');
    lemma_bold_pair(t, '_');
}

proof fn lemma_bold_pair(t: Seq<char>, m: char)
    requires
        m == '*' || m == '_',
        forall|k: int| 0 <= k < t.len() ==> t[k] != '*' && t[k] != '_',
    ensures
        inline_runs(seq![m, m] + t + seq![m, m]) == seq![(t, SpanStyle::Bold)],
{
    let c = seq![m, m] + t + seq![m, m];
    let e: int = t.len() as int + 2;
    assert(c[0] == m && c[1] == m);
    assert(c[e] == m && c[e + 1] == m);
    assert forall|k: int| 2 <= k < e implies c[k] != m by {
        assert(c[k] == t[k - 2]);
    }
    lemma_pair_close_at_end(c, m, 2, e);
    assert(c.subrange(2, e) =~= t);
    assert(md_runs(c, c.len() as int, Seq::empty()) =~= Seq::<(Seq<char>, SpanStyle)>::empty());
    assert(flush(Seq::empty()) =~= Seq::<(Seq<char>, SpanStyle)>::empty());
    assert(md_runs(c, 0, Seq::empty()) =~= seq![(t, SpanStyle::Bold)]);
}

proof fn lemma_char_close_at_end(c: Seq<char>, m: char, j: int, e: int)
    requires
        0 <= j <= e,
        e < c.len(),
        c[e] == m,
        forall|k: int| j <= k < e ==> c[k] != m,
    ensures
        char_close(c, m, j) == e,
    decreases e - j,
{
    if j < e {
        lemma_char_close_at_end(c, m, j + 1, e);
    }
}

/// Text with no `*` or `_` that does not start with a space, between a
/// pair of `*` or of `_`, is one italic run: the two markers mean the same.
pub proof fn lemma_italic_markers(t: Seq<char>)
    requires
        t.len() > 0,
        t[0] != ' ',
        forall|k: int| 0 <= k < t.len() ==> t[k] != '*' && t[k] != '_',
    ensures
        inline_runs(seq!['*'] + t + seq!['*']) == seq![(t, SpanStyle::Italic)],
        inline_runs(seq!['_'] + t + seq!['_']) == seq![(t, SpanStyle::Italic)],
{
    lemma_italic_pair(t, '*');
    lemma_italic_pair(t, '_');
}

proof fn lemma_italic_pair(t: Seq<char>, m: char)
    requires
        m == '*' || m == '_',
        t.len() > 0,
        t[0] != ' ',
        forall|k: int| 0 <= k < t.len() ==> t[k] != '*' && t[k] != '_',
    ensures
        inline_runs(seq![m] + t + seq![m]) == seq![(t, SpanStyle::Italic)],
{
    let c = seq![m] + t + seq![m];
    let e: int = t.len() as int + 1;
    assert(c[0] == m && c[1] == t[0]);
    assert(c[e] == m);
    assert forall|k: int| 1 <= k < e implies c[k] != m by {
        assert(c[k] == t[k - 1]);
    }
    lemma_char_close_at_end(c, m, 1, e);
    assert(c.subrange(1, e) =~= t);
    assert(md_runs(c, c.len() as int, Seq::empty()) =~= Seq::<(Seq<char>, SpanStyle)>::empty());
    assert(flush(Seq::empty()) =~= Seq::<(Seq<char>, SpanStyle)>::empty());
    assert(md_runs(c, 0, Seq::empty()) =~= seq![(t, SpanStyle::Italic)]);
}

/// Text with no backtick between two backticks is one code run.
pub proof fn lemma_code_marker(t: Seq<char>)
    requires
        forall|k: int| 0 <= k < t.len() ==> t[k] != '`',
    ensures
        inline_runs(seq!['`'] + t + seq!['`']) == seq![(t, SpanStyle::Code)],
{
    let c = seq!['`'] + t + seq!['`'];
    let e: int = t.len() as int + 1;
    assert(c[0] == '`');
    assert(c[e] == '`');
    assert forall|k: int| 1 <= k < e implies c[k] != '`' by {
        assert(c[k] == t[k - 1]);
    }
    lemma_char_close_at_end(c, '`', 1, e);
    assert(c.subrange(1, e) =~= t);
    assert(md_runs(c, c.len() as int, Seq::empty()) =~= Seq::<(Seq<char>, SpanStyle)>::empty());
    assert(flush(Seq::empty()) =~= Seq::<(Seq<char>, SpanStyle)>::empty());
    assert(md_runs(c, 0, Seq::empty()) =~= seq![(t, SpanStyle::Code)]);
}

/// `c` holds none of the marker chars `*`, `_`, `` ` `` and `#`.
pub open spec fn no_markers(c: Seq<char>) -> bool {
    forall|k: int| 0 <= k < c.len() ==> (#[trigger] c[k] != '*') && c[k] != '_' && c[k] != '`' && c[k] != '#'
}

proof fn lemma_plain_from(c: Seq<char>, i: int, buf: Seq<char>)
    requires
        0 <= i <= c.len(),
        no_markers(c.subrange(i, c.len() as int)),
    ensures
        md_runs(c, i, buf) == flush(buf + c.subrange(i, c.len() as int)),
    decreases c.len() - i,
{
    if i < c.len() {
        assert(c.subrange(i, c.len() as int)[0] == c[i]);
        let r0 = c.subrange(i, c.len() as int);
        let r1 = c.subrange(i + 1, c.len() as int);
        assert forall|k: int| 0 <= k < r1.len() implies r1[k] == r0[k + 1] by {}
        assert(no_markers(r1));
        lemma_plain_from(c, i + 1, buf.push(c[i]));
        assert(buf.push(c[i]) + c.subrange(i + 1, c.len() as int) =~= buf + c.subrange(i, c.len() as int));
    } else {
        assert(buf + c.subrange(i, c.len() as int) =~= buf);
    }
}

/// Text with no marker char is one plain run (an empty line one empty
/// raw run).
pub proof fn lemma_plain_text(t: Seq<char>)
    requires
        no_markers(t),
    ensures
        inline_runs(t) == if t.len() > 0 {
            seq![(t, SpanStyle::Plain)]
        } else {
            seq![(Seq::<char>::empty(), SpanStyle::Raw)]
        },
{
    assert(t.subrange(0, t.len() as int) =~= t);
    lemma_plain_from(t, 0, Seq::empty());
    assert(Seq::<char>::empty() + t =~= t);
}

fn pair_close_exec(c: &[char], m: char, j: usize) -> (k: usize)
    requires
        j <= c@.len(),
    ensures
        k == pair_close(c@, m, j as int),
{
    let n = c.len();
    let mut k = j;
    while n > 0 && k < n - 1 && !(c[k] == m && c[k + 1] == m)
        invariant
            j <= k <= c@.len(),
            n == c@.len(),
            pair_close(c@, m, k as int) == pair_close(c@, m, j as int),
        decreases c@.len() - k,
    {
        k += 1;
    }
    if n > 0 && k < n - 1 {
        k
    } else {
        c.len()
    }
}

fn char_close_exec(c: &[char], m: char, j: usize) -> (k: usize)
    requires
        j <= c@.len(),
    ensures
        k == char_close(c@, m, j as int),
{
    let mut k = j;
    while k < c.len() && c[k] != m
        invariant
            j <= k <= c@.len(),
            char_close(c@, m, k as int) == char_close(c@, m, j as int),
        decreases c@.len() - k,
    {
        k += 1;
    }
    k
}

fn mention_end_exec(c: &[char], start: usize) -> (e: usize)
    requires
        start <= c@.len(),
    ensures
        e == mention_end(c@, start as int, false, start as int),
{
    let mut e = start;
    let mut seen = false;
    loop
        invariant
            start <= e <= c@.len(),
            seen ==> e > start,
            mention_end(c@, e as int, seen, start as int) == mention_end(c@, start as int, false, start as int),
        decreases c@.len() - e,
    {
        if e >= c.len() {
            return e;
        }
        let ch = c[e];
        if is_alphanumeric(ch) || ch == '_' || ch == '-' {
            e += 1;
        } else if ch == '#' && !seen && e > start {
            seen = true;
            e += 1;
        } else {
            return e;
        }
    }
}

fn mention_span(c: &[char], start: usize, e: usize) -> (sp: (String, SpanStyle))
    requires
        start <= e <= c@.len(),
    ensures
        sp.0@ == seq!['#'] + c@.subrange(start as int, e as int),
        sp.1 == SpanStyle::Mention(name_color(ascii_lower_str(before_hash(c@.subrange(start as int, e as int))))),
{
    let name = slice_to_vec(c, start, e);
    let hash = vec!['#'];
    assert(hash@ == seq!['#']);
    let base = match find_exec(name.as_slice(), hash.as_slice()) {
        Some(i) => slice_to_vec(name.as_slice(), 0, i),
        None => slice_to_vec(name.as_slice(), 0, name.len()),
    };
    assert(base@ =~= before_hash(name@));
    let lower = ascii_lower_chars(base.as_slice());
    let lower_s = string_from_chars(lower.as_slice());
    let color = username_color(lower_s.as_str());
    let mut text: Vec<char> = vec!['#'];
    extend_chars(&mut text, name.as_slice());
    (string_from_chars(text.as_slice()), SpanStyle::Mention(color))
}

/// Runs of a line of markdown text with inline formatting applied.
pub fn inline_md(text: &str) -> (r: Vec<StyledSpan>)
    ensures
        span_views(r@) == inline_runs(text@),
{
    let c = chars_of(text);
    let n = c.len();
    let mut out: Vec<StyledSpan> = Vec::new();
    let mut buf: Vec<char> = Vec::new();
    let mut i: usize = 0;
    assert(span_views(out@) =~= Seq::<(Seq<char>, SpanStyle)>::empty());
    while i < n
        invariant
            i <= n,
            n == c@.len(),
            c@ == text@,
            span_views(out@) + md_runs(c@, i as int, buf@) == md_runs(c@, 0, Seq::empty()),
        decreases n - i,
    {
        let ch = c[i];
        if i + 1 < n && ((ch == '*' && c[i + 1] == '*') || (ch == '_' && c[i + 1] == '_')) {
            proof {
                lemma_pair_close(c@, ch, i + 2);
            }
            let k = pair_close_exec(c.as_slice(), ch, i + 2);
            let next = if k < n {
                k + 2
            } else {
                n
            };
            flush_exec(&mut out, &mut buf);
            let inner = slice_to_vec(c.as_slice(), i + 2, k);
            push_span(&mut out, string_from_chars(inner.as_slice()), SpanStyle::Bold);
            i = next;
        } else if (ch == '*' || ch == '_') && i + 1 < n && c[i + 1] != ' ' {
            proof {
                lemma_char_close(c@, ch, i + 1);
            }
            let k = char_close_exec(c.as_slice(), ch, i + 1);
            let next = if k < n {
                k + 1
            } else {
                n
            };
            flush_exec(&mut out, &mut buf);
            let inner = slice_to_vec(c.as_slice(), i + 1, k);
            push_span(&mut out, string_from_chars(inner.as_slice()), SpanStyle::Italic);
            i = next;
        } else if ch == '`' {
            proof {
                lemma_char_close(c@, '`', i + 1);
            }
            let k = char_close_exec(c.as_slice(), '`', i + 1);
            let next = if k < n {
                k + 1
            } else {
                n
            };
            flush_exec(&mut out, &mut buf);
            let inner = slice_to_vec(c.as_slice(), i + 1, k);
            push_span(&mut out, string_from_chars(inner.as_slice()), SpanStyle::Code);
            i = next;
        } else {
            let mut done = false;
            if ch == '#' {
                proof {
                    lemma_mention_end(c@, i + 1, false, i + 1);
                }
                let e = mention_end_exec(c.as_slice(), i + 1);
                if e > i + 1 && c[e - 1] != '#' {
                    flush_exec(&mut out, &mut buf);
                    let (t, st) = mention_span(c.as_slice(), i + 1, e);
                    push_span(&mut out, t, st);
                    i = e;
                    done = true;
                }
            }
            if !done {
                buf.push(ch);
                i += 1;
            }
        }
    }
    flush_exec(&mut out, &mut buf);
    if out.len() == 0 {
        push_span(&mut out, String::new(), SpanStyle::Raw);
    }
    out
}

} // verus!
