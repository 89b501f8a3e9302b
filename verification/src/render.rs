//! Text layout for the chat screen: completion labels, wrapping of the
//! input box and of messages, and markdown line classification.
use vstd::prelude::*;
use crate::text::{
    chars_of, str_eq, contains, contains_exec, extend_chars, find, find_exec, starts_with, rfind, trim, trim_bounds, rfind_exec, slice_to_vec, split_char, split_char_exec,
    starts_with_exec, string_from_chars, string_views, substr, views, words, words_exec,
};
use crate::meta::{join, join_into, lines, lines_exec};
use crate::paths::{file_name_of, path_file_name};
use crate::tools::{basename, basename_exec};

verus! {

// ── completion labels ─────────────────────────────────────────────────────

/// `s` without all trailing `/` characters.
pub open spec fn strip_slashes(s: Seq<char>) -> Seq<char>
    decreases s.len(),
{
    if s.len() > 0 && s.last() == '/' {
        strip_slashes(s.drop_last())
    } else {
        s
    }
}

/// The label of a completion candidate: its last path component, with a
/// `/` kept for directories.
pub open spec fn display_label(c: Seq<char>) -> Seq<char> {
    let suffix = if c.len() > 0 && c.last() == '/' { seq!['/'] } else { Seq::empty() };
    basename(strip_slashes(c)) + suffix
}

/// The label shown for a completion candidate.
pub fn display_name(candidate: &str) -> (r: String)
    ensures
        r@ == display_label(candidate@),
{
    let cs = chars_of(candidate);
    let mut n = cs.len();
    assert(cs@.take(cs@.len() as int) =~= cs@);
    while n > 0 && cs[n - 1] == '/'
        invariant
            n <= cs@.len(),
            cs@ == candidate@,
            strip_slashes(cs@.take(n as int)) == strip_slashes(candidate@),
        decreases n,
    {
        assert(cs@.take(n as int).drop_last() =~= cs@.take(n - 1));
        n -= 1;
    }
    let t = slice_to_vec(cs.as_slice(), 0, n);
    assert(t@ =~= cs@.take(n as int));
    assert(strip_slashes(t@) == t@);
    let mut out = basename_exec(t.as_slice());
    if cs.len() > 0 && cs[cs.len() - 1] == '/' {
        out.push('/');
        assert(out@ =~= display_label(candidate@));
    } else {
        assert(out@ =~= display_label(candidate@));
    }
    string_from_chars(out.as_slice())
}

// ── the input box ─────────────────────────────────────────────────────────

/// Terminal rows a line of `len` chars takes at `w` columns (an empty line
/// takes one).
pub open spec fn rows_of(len: nat, w: nat) -> nat {
    if len == 0 {
        1
    } else {
        ((len + w - 1) / (w as int)) as nat
    }
}

/// Terminal rows the lines `ls` take at `w` columns.
pub open spec fn rows_sum(ls: Seq<Seq<char>>, w: nat) -> nat
    decreases ls.len(),
{
    if ls.len() == 0 {
        0
    } else {
        rows_sum(ls.drop_last(), w) + rows_of(ls.last().len(), w)
    }
}

/// The chars of the pieces `ls` plus one separator after each.
pub open spec fn chars_with_seps(ls: Seq<Seq<char>>) -> nat
    decreases ls.len(),
{
    if ls.len() == 0 {
        0
    } else {
        chars_with_seps(ls.drop_last()) + ls.last().len() + 1
    }
}

/// Where the cursor at char index `pos` of `input` shows, as (row, column),
/// when the box wraps at `w` columns.
pub open spec fn visual_cursor(input: Seq<char>, pos: nat, w: nat) -> (nat, nat) {
    if w == 0 {
        (0, 0)
    } else {
        let before = input.take(if pos < input.len() { pos as int } else { input.len() as int });
        let ls = split_char(before, '\n');
        let last = ls.last();
        (rows_sum(ls.drop_last(), w) + last.len() / w, last.len() % w)
    }
}

proof fn lemma_rows_le(len: nat, w: nat)
    requires
        w > 0,
    ensures
        rows_of(len, w) <= len + 1,
        len > 0 ==> rows_of(len, w) <= len,
{
    if len > 0 {
        assert(((len + w - 1) / (w as int)) <= len) by (nonlinear_arith)
            requires
                len > 0,
                w > 0,
        ;
    }
}

proof fn lemma_rows_sum_push(ls: Seq<Seq<char>>, x: Seq<char>, w: nat)
    ensures
        rows_sum(ls.push(x), w) == rows_sum(ls, w) + rows_of(x.len(), w),
        chars_with_seps(ls.push(x)) == chars_with_seps(ls) + x.len() + 1,
{
    assert(ls.push(x).drop_last() =~= ls);
}

proof fn lemma_rows_sum_bound(ls: Seq<Seq<char>>, w: nat)
    requires
        w > 0,
    ensures
        rows_sum(ls, w) <= chars_with_seps(ls),
    decreases ls.len(),
{
    if ls.len() > 0 {
        lemma_rows_sum_bound(ls.drop_last(), w);
        lemma_rows_le(ls.last().len(), w);
    }
}

proof fn lemma_split_chars(s: Seq<char>, c: char)
    ensures
        split_char(s, c).len() >= 1,
        chars_with_seps(split_char(s, c).drop_last()) + split_char(s, c).last().len() == s.len(),
    decreases s.len(),
{
    crate::text::lemma_find_from_spec(s, seq![c], 0);
    match crate::text::find(s, seq![c]) {
        None => {
            assert(split_char(s, c) =~= seq![s]);
            assert(split_char(s, c).drop_last() =~= Seq::<Seq<char>>::empty());
        },
        Some(i) => {
            if 0 <= i < s.len() {
                let rest = s.skip(i + 1);
                lemma_split_chars(rest, c);
                let tail = split_char(rest, c);
                let all = seq![s.take(i)] + tail;
                assert(split_char(s, c) == all);
                lemma_chars_with_seps_prepend(s.take(i), tail.drop_last());
                assert(all.drop_last() =~= seq![s.take(i)] + tail.drop_last());
            } else {
                assert(split_char(s, c) =~= seq![s]);
                assert(split_char(s, c).drop_last() =~= Seq::<Seq<char>>::empty());
            }
        },
    }
}

proof fn lemma_chars_with_seps_prepend(x: Seq<char>, ls: Seq<Seq<char>>)
    ensures
        chars_with_seps(seq![x] + ls) == x.len() + 1 + chars_with_seps(ls),
    decreases ls.len(),
{
    if ls.len() == 0 {
        assert(seq![x] + ls =~= seq![x]);
        assert(seq![x].drop_last() =~= Seq::<Seq<char>>::empty());
        assert(chars_with_seps(Seq::<Seq<char>>::empty()) == 0);
        assert(chars_with_seps(ls) == 0);
    } else {
        lemma_chars_with_seps_prepend(x, ls.drop_last());
        assert((seq![x] + ls).drop_last() =~= seq![x] + ls.drop_last());
        assert((seq![x] + ls).last() == ls.last());
    }
}

/// The (row, column) where the cursor at char index `cursor_pos` shows in
/// an input box `width` columns wide.
pub fn input_visual_cursor(input: &str, cursor_pos: usize, width: u16) -> (r: (usize, usize))
    ensures
        (r.0 as nat, r.1 as nat) == visual_cursor(input@, cursor_pos as nat, width as nat),
{
    if width == 0 {
        return (0, 0);
    }
    let w = width as usize;
    let cs = chars_of(input);
    let n = if cursor_pos < cs.len() {
        cursor_pos
    } else {
        cs.len()
    };
    let before = slice_to_vec(cs.as_slice(), 0, n);
    assert(before@ =~= input@.take(n as int));
    let ls = split_char_exec(before.as_slice(), '\n');
    let ghost sl = split_char(before@, '\n');
    proof {
        lemma_split_chars(before@, '\n');
    }
    let k = ls.len() - 1;
    let mut vrow: usize = 0;
    let mut i: usize = 0;
    assert(sl.drop_last().take(0) =~= Seq::<Seq<char>>::empty());
    while i < k
        invariant
            i <= k,
            k + 1 == ls@.len(),
            views(ls@) == sl,
            w == width as usize,
            w > 0,
            vrow == rows_sum(sl.drop_last().take(i as int), w as nat),
            chars_with_seps(sl.drop_last()) + sl.last().len() == before@.len(),
            before@.len() <= usize::MAX,
        decreases k - i,
    {
        let len = ls[i].len();
        proof {
            assert(views(ls@)[i as int] == ls@[i as int]@);
            assert(sl.drop_last().take(i + 1) =~= sl.drop_last().take(i as int).push(sl[i as int]));
            lemma_rows_sum_push(sl.drop_last().take(i as int), sl[i as int], w as nat);
            lemma_rows_sum_bound(sl.drop_last().take(i + 1), w as nat);
            lemma_chars_prefix(sl.drop_last(), i + 1);
            lemma_rows_le(len as nat, w as nat);
        }
        proof {
            lemma_ceil_div(len as int, w as int);
        }
        let rows = if len == 0 {
            1
        } else {
            len / w + if len % w == 0 {
                0
            } else {
                1
            }
        };
        vrow = vrow + rows;
        i += 1;
    }
    assert(sl.drop_last().take(k as int) =~= sl.drop_last());
    let last_len = ls[k].len();
    assert(views(ls@)[k as int] == ls@[k as int]@);
    proof {
        lemma_rows_sum_bound(sl.drop_last(), w as nat);
        assert(last_len / w <= last_len) by (nonlinear_arith)
            requires
                w > 0,
        ;
    }
    (vrow + last_len / w, last_len % w)
}

proof fn lemma_ceil_div(len: int, w: int)
    requires
        len >= 0,
        w > 0,
    ensures
        (len + w - 1) / w == len / w + (if len % w == 0 { 0int } else { 1 }),
        len > 0 ==> len / w + (if len % w == 0 { 0int } else { 1 }) <= len,
{
    let q = len / w;
    let r = len % w;
    vstd::arithmetic::div_mod::lemma_fundamental_div_mod(len, w);
    assert(0 <= r < w);
    assert(q >= 0) by (nonlinear_arith)
        requires
            len >= 0,
            w > 0,
            q == len / w,
    ;
    assert(w * q >= q) by (nonlinear_arith)
        requires
            w >= 1,
            q >= 0,
    ;
    if r == 0 {
        assert(len + w - 1 == q * w + (w - 1)) by (nonlinear_arith)
            requires
                len == w * q + r,
                r == 0,
        ;
        vstd::arithmetic::div_mod::lemma_fundamental_div_mod_converse(len + w - 1, w, q, w - 1);
    } else {
        assert(len + w - 1 == (q + 1) * w + (r - 1)) by (nonlinear_arith)
            requires
                len == w * q + r,
        ;
        vstd::arithmetic::div_mod::lemma_fundamental_div_mod_converse(len + w - 1, w, q + 1, r - 1);
    }
}

proof fn lemma_chars_prefix(ls: Seq<Seq<char>>, i: int)
    requires
        0 <= i <= ls.len(),
    ensures
        chars_with_seps(ls.take(i)) <= chars_with_seps(ls),
    decreases ls.len() - i,
{
    if i < ls.len() {
        lemma_chars_prefix(ls, i + 1);
        assert(ls.take(i + 1).drop_last() =~= ls.take(i));
    } else {
        assert(ls.take(i) =~= ls);
    }
}

/// Rows of one line as the input box counts them: `u16` arithmetic, the
/// count of a very long line truncated to 16 bits.
pub open spec fn rows_u16(len: nat, w: nat) -> nat {
    rows_of(len, w) % 65536
}

/// Sum of `rows_u16` over the lines `ls`.
pub open spec fn rows_u16_sum(ls: Seq<Seq<char>>, w: nat) -> nat
    decreases ls.len(),
{
    if ls.len() == 0 {
        0
    } else {
        rows_u16_sum(ls.drop_last(), w) + rows_u16(ls.last().len(), w)
    }
}

/// Rows the input box needs for `input` at `w` columns (at least one).
pub open spec fn input_rows(input: Seq<char>, w: nat) -> nat {
    if w == 0 {
        1
    } else {
        let r = rows_u16_sum(split_char(input, '\n'), w);
        if r > 1 { r } else { 1 }
    }
}

/// Rows the input box needs for `input` at `width` columns.
pub fn visual_line_count(input: &str, width: u16) -> (r: u16)
    requires
        width > 0 ==> rows_u16_sum(split_char(input@, '\n'), width as nat) <= u16::MAX,
    ensures
        r == input_rows(input@, width as nat),
{
    if width == 0 {
        return 1;
    }
    let w = width as usize;
    let cs = chars_of(input);
    let ls = split_char_exec(cs.as_slice(), '\n');
    let ghost sl = split_char(input@, '\n');
    let mut sum: u16 = 0;
    let mut i: usize = 0;
    assert(sl.take(0) =~= Seq::<Seq<char>>::empty());
    while i < ls.len()
        invariant
            i <= ls@.len(),
            views(ls@) == sl,
            w == width as usize,
            w > 0,
            sum == rows_u16_sum(sl.take(i as int), w as nat),
            rows_u16_sum(sl, w as nat) <= u16::MAX,
        decreases ls.len() - i,
    {
        let len = ls[i].len();
        proof {
            assert(views(ls@)[i as int] == ls@[i as int]@);
            assert(sl.take(i + 1).drop_last() =~= sl.take(i as int));
            lemma_u16_prefix(sl, i + 1, w as nat);
        }
        proof {
            lemma_ceil_div(len as int, w as int);
        }
        let rows: usize = if len == 0 {
            1
        } else {
            len / w + if len % w == 0 {
                0
            } else {
                1
            }
        };
        let item = (rows % 65536) as u16;
        sum = sum + item;
        i += 1;
    }
    assert(sl.take(ls@.len() as int) =~= sl);
    if sum > 1 {
        sum
    } else {
        1
    }
}

proof fn lemma_u16_prefix(ls: Seq<Seq<char>>, i: int, w: nat)
    requires
        0 <= i <= ls.len(),
    ensures
        rows_u16_sum(ls.take(i), w) <= rows_u16_sum(ls, w),
    decreases ls.len() - i,
{
    if i < ls.len() {
        lemma_u16_prefix(ls, i + 1, w);
        assert(ls.take(i + 1).drop_last() =~= ls.take(i));
    } else {
        assert(ls.take(i) =~= ls);
    }
}

// ── markdown lines ────────────────────────────────────────────────────────

/// Number of leading `#` characters of `s`.
pub open spec fn leading_hashes(s: Seq<char>) -> nat
    decreases s.len(),
{
    if s.len() > 0 && s[0] == '#' {
        1 + leading_hashes(s.drop_first())
    } else {
        0
    }
}

/// A heading line: its level (one to three `#` followed by a space) and
/// its text; level 0 and the whole line otherwise.
pub open spec fn heading(line: Seq<char>) -> (nat, Seq<char>) {
    let n = leading_hashes(line);
    if 0 < n <= 3 && n < line.len() && line[n as int] == ' ' {
        (n, line.skip(n as int + 1))
    } else {
        (0, line)
    }
}

proof fn lemma_hashes_bound(s: Seq<char>)
    ensures
        leading_hashes(s) <= s.len(),
    decreases s.len(),
{
    if s.len() > 0 && s[0] == '#' {
        lemma_hashes_bound(s.drop_first());
    }
}

/// The heading level of a markdown line and the text after its marker.
pub fn count_heading(line: &str) -> (r: (usize, &str))
    ensures
        (r.0 as nat, r.1@) == heading(line@),
{
    let cs = chars_of(line);
    let mut n: usize = 0;
    assert(line@.skip(0) =~= line@);
    while n < cs.len() && cs[n] == '#'
        invariant
            n <= cs@.len(),
            cs@ == line@,
            leading_hashes(line@) == n + leading_hashes(line@.skip(n as int)),
        decreases cs.len() - n,
    {
        assert(line@.skip(n as int).drop_first() =~= line@.skip(n + 1));
        n += 1;
    }
    proof {
        lemma_hashes_bound(line@);
    }
    let len = cs.len();
    if n > 0 && n <= 3 && n < len && cs[n] == ' ' {
        (n, substr(line, n + 1, len))
    } else {
        (0, line)
    }
}

/// Leading ASCII digits of `s`.
pub open spec fn leading_digits(s: Seq<char>) -> nat
    decreases s.len(),
{
    if s.len() > 0 && '0' <= s[0] && s[0] <= '9' {
        1 + leading_digits(s.drop_first())
    } else {
        0
    }
}

/// A list item line: its bullet as drawn and the item text; no bullet
/// and the whole line otherwise.
pub open spec fn list_item(line: Seq<char>) -> (Option<Seq<char>>, Seq<char>) {
    let d = leading_digits(line);
    if crate::text::starts_with(line, seq!['-', ' ']) || crate::text::starts_with(line, seq!['*', ' ']) {
        (Some("  • "@), line.skip(2))
    } else if crate::text::starts_with(line, seq![' ', ' ', '-', ' ']) || crate::text::starts_with(
        line,
        seq![' ', ' ', '*', ' '],
    ) {
        (Some("    ◦ "@), line.skip(4))
    } else if d > 0 && crate::text::starts_with(line.skip(d as int), seq!['.', ' ']) {
        (Some("  "@ + line.take(d as int) + ". "@), line.skip(d as int + 2))
    } else {
        (None, line)
    }
}

proof fn lemma_digits_bound(s: Seq<char>)
    ensures
        leading_digits(s) <= s.len(),
    decreases s.len(),
{
    if s.len() > 0 && '0' <= s[0] && s[0] <= '9' {
        lemma_digits_bound(s.drop_first());
    }
}

/// The bullet of a markdown list item and its text.
pub fn detect_list_item(line: &str) -> (r: (Option<String>, &str))
    ensures
        (match r.0 {
            Some(b) => Some(b@),
            None => None::<Seq<char>>,
        }, r.1@) == list_item(line@),
{
    let cs = chars_of(line);
    let len = cs.len();
    let dash = vec!['-', ' '];
    let star = vec!['*', ' '];
    let dash2 = vec![' ', ' ', '-', ' '];
    let star2 = vec![' ', ' ', '*', ' '];
    let dot = vec!['.', ' '];
    assert(dash@ == seq!['-', ' '] && star@ == seq!['*', ' ']);
    assert(dash2@ == seq![' ', ' ', '-', ' '] && star2@ == seq![' ', ' ', '*', ' ']);
    assert(dot@ == seq!['.', ' ']);
    if starts_with_exec(cs.as_slice(), dash.as_slice()) || starts_with_exec(cs.as_slice(), star.as_slice()) {
        return (Some(String::from_str("  • ")), substr(line, 2, len));
    }
    if starts_with_exec(cs.as_slice(), dash2.as_slice()) || starts_with_exec(cs.as_slice(), star2.as_slice()) {
        return (Some(String::from_str("    ◦ ")), substr(line, 4, len));
    }
    let mut d: usize = 0;
    assert(line@.skip(0) =~= line@);
    while d < len && '0' <= cs[d] && cs[d] <= '9'
        invariant
            d <= len,
            len == cs@.len(),
            cs@ == line@,
            leading_digits(line@) == d + leading_digits(line@.skip(d as int)),
        decreases len - d,
    {
        assert(line@.skip(d as int).drop_first() =~= line@.skip(d + 1));
        d += 1;
    }
    proof {
        lemma_digits_bound(line@);
    }
    if d > 0 {
        let after = slice_to_vec(cs.as_slice(), d, len);
        assert(after@ =~= line@.skip(d as int));
        if starts_with_exec(after.as_slice(), dot.as_slice()) {
            let mut b: Vec<char> = Vec::new();
            crate::text::extend_str(&mut b, "  ");
            extend_chars(&mut b, &cs.as_slice()[0..d]);
            crate::text::extend_str(&mut b, ". ");
            assert(cs@.subrange(0, d as int) =~= line@.take(d as int));
            return (Some(string_from_chars(b.as_slice())), substr(line, d + 2, len));
        }
    }
    (None, line)
}

// ── word wrap ─────────────────────────────────────────────────────────────

/// Greedy wrap of the words `ws` at `width` columns, where `cur` is the row
/// already begun.
pub open spec fn wrap_words(ws: Seq<Seq<char>>, cur: Seq<char>, width: nat) -> Seq<Seq<char>>
    decreases ws.len(),
{
    if ws.len() == 0 {
        if cur.len() > 0 {
            seq![cur]
        } else {
            seq![]
        }
    } else {
        let w = ws[0];
        if cur.len() > 0 && cur.len() + 1 + w.len() > width {
            seq![cur] + wrap_words(ws.drop_first(), w, width)
        } else if cur.len() > 0 {
            wrap_words(ws.drop_first(), cur + seq![' '] + w, width)
        } else {
            wrap_words(ws.drop_first(), w, width)
        }
    }
}

/// The rows of one line: an empty line stays one empty row.
pub open spec fn wrap_line(line: Seq<char>, width: nat) -> Seq<Seq<char>> {
    if line.len() == 0 {
        seq![Seq::empty()]
    } else {
        wrap_words(words(line), Seq::empty(), width)
    }
}

/// The rows of the lines `ls`, in order.
pub open spec fn wrap_lines(ls: Seq<Seq<char>>, width: nat) -> Seq<Seq<char>>
    decreases ls.len(),
{
    if ls.len() == 0 {
        seq![]
    } else {
        wrap_lines(ls.drop_last(), width) + wrap_line(ls.last(), width)
    }
}

/// `text` wrapped at `width` columns, word by word; at least one row.
pub open spec fn wrapped(text: Seq<char>, width: nat) -> Seq<Seq<char>> {
    if width == 0 {
        seq![text]
    } else {
        let r = wrap_lines(lines(text), width);
        if r.len() == 0 {
            seq![Seq::empty()]
        } else {
            r
        }
    }
}

fn wrap_line_into(out: &mut Vec<String>, line: &[char], width: usize)
    requires
        width > 0,
    ensures
        string_views(final(out)@) == string_views(old(out)@) + wrap_line(line@, width as nat),
{
    if line.len() == 0 {
        let e = String::new();
        proof {
            assert(string_views(old(out)@.push(e)) =~= string_views(old(out)@).push(e@));
        }
        out.push(e);
        return;
    }
    let ws = words_exec(line);
    let ghost wv = views(ws@);
    let mut cur: Vec<char> = Vec::new();
    let mut i: usize = 0;
    assert(wv.skip(0) =~= wv);
    while i < ws.len()
        invariant
            i <= ws@.len(),
            wv == views(ws@),
            width > 0,
            string_views(out@) + wrap_words(wv.skip(i as int), cur@, width as nat) == string_views(
                old(out)@,
            ) + wrap_words(wv, Seq::empty(), width as nat),
        decreases ws.len() - i,
    {
        let w = &ws[i];
        let wl = w.len();
        let cl = cur.len();
        proof {
            assert(wv[i as int] == ws@[i as int]@);
            assert(wv.skip(i as int)[0] == wv[i as int]);
            assert(wv.skip(i as int).drop_first() =~= wv.skip(i + 1));
        }
        let over = wl >= width || cl >= width - wl;
        assert(over == (cl + 1 + wl > width));
        if cl > 0 && over {
            let row = string_from_chars(cur.as_slice());
            proof {
                assert(string_views(out@.push(row)) =~= string_views(out@).push(row@));
                assert(string_views(out@).push(row@) + wrap_words(wv.skip(i + 1), wv[i as int], width as nat)
                    =~= string_views(out@) + (seq![cur@] + wrap_words(wv.skip(i + 1), wv[i as int], width as nat)));
            }
            out.push(row);
            cur = Vec::new();
            extend_chars(&mut cur, w.as_slice());
            assert(cur@ =~= wv[i as int]);
        } else if cl > 0 {
            let ghost before = cur@;
            cur.push(' ');
            extend_chars(&mut cur, w.as_slice());
            assert(cur@ =~= before + seq![' '] + wv[i as int]);
        } else {
            extend_chars(&mut cur, w.as_slice());
            assert(cur@ =~= wv[i as int]);
        }
        i += 1;
    }
    assert(wv.skip(i as int) =~= Seq::<Seq<char>>::empty());
    if cur.len() > 0 {
        let row = string_from_chars(cur.as_slice());
        proof {
            assert(string_views(out@.push(row)) =~= string_views(out@).push(row@));
        }
        out.push(row);
    } else {
        assert(string_views(out@) + Seq::<Seq<char>>::empty() =~= string_views(out@));
    }
}

/// `text` wrapped at `width` columns.
pub fn wrap_text(text: &str, width: usize) -> (r: Vec<String>)
    ensures
        string_views(r@) == wrapped(text@, width as nat),
{
    if width == 0 {
        let v = vec![String::from_str(text)];
        assert(string_views(v@) =~= seq![text@]);
        return v;
    }
    let cs = chars_of(text);
    let ls = lines_exec(cs.as_slice());
    let ghost lv = views(ls@);
    let mut out: Vec<String> = Vec::new();
    let mut i: usize = 0;
    assert(lv.take(0) =~= Seq::<Seq<char>>::empty());
    assert(string_views(out@) =~= Seq::<Seq<char>>::empty());
    while i < ls.len()
        invariant
            i <= ls@.len(),
            lv == views(ls@),
            width > 0,
            string_views(out@) == wrap_lines(lv.take(i as int), width as nat),
        decreases ls.len() - i,
    {
        proof {
            assert(lv[i as int] == ls@[i as int]@);
            assert(lv.take(i + 1).drop_last() =~= lv.take(i as int));
        }
        wrap_line_into(&mut out, ls[i].as_slice(), width);
        i += 1;
    }
    assert(lv.take(ls@.len() as int) =~= lv);
    if out.len() == 0 {
        let e = String::new();
        let v = vec![e];
        assert(string_views(v@) =~= seq![Seq::<char>::empty()]);
        return v;
    }
    out
}

// ── reasoning blocks ──────────────────────────────────────────────────────

/// `s` without its leading newlines.
pub open spec fn trim_newlines(s: Seq<char>) -> Seq<char>
    decreases s.len(),
{
    if s.len() > 0 && s[0] == '\n' {
        trim_newlines(s.drop_first())
    } else {
        s
    }
}

pub proof fn lemma_trim_newlines_len(s: Seq<char>)
    ensures
        trim_newlines(s).len() <= s.len(),
        trim_newlines(s) == s.skip(s.len() - trim_newlines(s).len()),
    decreases s.len(),
{
    if s.len() > 0 && s[0] == '\n' {
        lemma_trim_newlines_len(s.drop_first());
        assert(s.drop_first().skip(s.drop_first().len() - trim_newlines(s).len()) =~= s.skip(
            s.len() - trim_newlines(s).len(),
        ));
    } else {
        assert(s.skip(0) =~= s);
    }
}

/// The earliest reasoning tag in `s`: its index, and whether it is
/// `<think>` (else `<thought>`).
pub open spec fn earliest_think(s: Seq<char>) -> Option<(int, bool)> {
    match (find(s, "<think>"@), find(s, "<thought>"@)) {
        (None, None) => None,
        (Some(i), None) => Some((i, true)),
        (None, Some(j)) => Some((j, false)),
        (Some(i), Some(j)) => if i <= j { Some((i, true)) } else { Some((j, false)) },
    }
}

/// `s` without its reasoning blocks (`<think>…</think>`,
/// `<thought>…</thought>`) and the newlines right after each; an unclosed
/// block hides the rest.
pub open spec fn without_think(s: Seq<char>) -> Seq<char>
    decreases s.len(),
{
    match earliest_think(s) {
        None => s,
        Some((start, is_think)) => {
            let close = if is_think { "</think>"@ } else { "</thought>"@ };
            match find(s.skip(start), close) {
                None => s.take(start),
                Some(e) => {
                    let k = start + e + close.len();
                    if 0 <= start && 0 <= e && close.len() > 0 && k <= s.len() {
                        proof {
                            lemma_trim_newlines_len(s.skip(k));
                        }
                        s.take(start) + without_think(trim_newlines(s.skip(k)))
                    } else {
                        s.take(start)
                    }
                },
            }
        },
    }
}

/// `content` with its reasoning blocks removed, as the chat shows it.
pub fn strip_think_blocks(content: &str) -> (r: String)
    ensures
        r@ == without_think(content@),
{
    let open1 = chars_of("<think>");
    let open2 = chars_of("<thought>");
    let close1 = chars_of("</think>");
    let close2 = chars_of("</thought>");
    proof {
        reveal_strlit("</think>");
        reveal_strlit("</thought>");
    }
    let mut out: Vec<char> = Vec::new();
    let mut rest = chars_of(content);
    loop
        invariant
            open1@ == "<think>"@,
            open2@ == "<thought>"@,
            close1@ == "</think>"@,
            close2@ == "</thought>"@,
            close1@.len() == 8,
            close2@.len() == 10,
            out@ + without_think(rest@) == without_think(content@),
        decreases rest@.len(),
    {
        let a = find_exec(rest.as_slice(), open1.as_slice());
        let b = find_exec(rest.as_slice(), open2.as_slice());
        let (start, is_think) = match (a, b) {
            (None, None) => {
                extend_chars(&mut out, rest.as_slice());
                return string_from_chars(out.as_slice());
            },
            (Some(i), None) => (i, true),
            (None, Some(j)) => (j, false),
            (Some(i), Some(j)) => if i <= j {
                (i, true)
            } else {
                (j, false)
            },
        };
        assert(earliest_think(rest@) == Some((start as int, is_think)));
        let n = rest.len();
        let head = slice_to_vec(rest.as_slice(), 0, start);
        extend_chars(&mut out, head.as_slice());
        let after = slice_to_vec(rest.as_slice(), start, n);
        assert(after@ =~= rest@.skip(start as int));
        let close = if is_think {
            &close1
        } else {
            &close2
        };
        match find_exec(after.as_slice(), close.as_slice()) {
            None => {
                return string_from_chars(out.as_slice());
            },
            Some(e) => {
                let k = start + e + close.len();
                let tail = slice_to_vec(rest.as_slice(), k, n);
                assert(tail@ =~= rest@.skip(k as int));
                let mut z: usize = 0;
                let tn = tail.len();
                assert(tail@.skip(0) =~= tail@);
                while z < tn && tail[z] == '\n'
                    invariant
                        z <= tn,
                        tn == tail@.len(),
                        trim_newlines(tail@.skip(z as int)) == trim_newlines(tail@),
                    decreases tn - z,
                {
                    assert(tail@.skip(z as int).drop_first() =~= tail@.skip(z + 1));
                    z += 1;
                }
                let next = slice_to_vec(tail.as_slice(), z, tn);
                assert(next@ =~= tail@.skip(z as int));
                assert(trim_newlines(next@) == next@);
                proof {
                    lemma_trim_newlines_len(rest@.skip(k as int));
                }
                rest = next;
            },
        }
    }
}

// ── code blocks ───────────────────────────────────────────────────────────

/// A piece of a message: prose, or a fenced code block with its language.
pub enum ContentSegment {
    Text(String),
    Code { lang: String, content: String },
}

/// A piece of a message as the specifications see it.
pub enum SegmentView {
    Text(Seq<char>),
    Code(Seq<char>, Seq<char>),
}

impl ContentSegment {
    /// The segment as the specifications see it.
    pub open spec fn view(&self) -> SegmentView {
        match self {
            ContentSegment::Text(t) => SegmentView::Text(t@),
            ContentSegment::Code { lang, content } => SegmentView::Code(lang@, content@),
        }
    }
}

/// The views of a sequence of segments.
pub open spec fn segment_views(v: Seq<ContentSegment>) -> Seq<SegmentView> {
    v.map_values(|x: ContentSegment| x.view())
}

/// A code fence.
pub open spec fn fence() -> Seq<char> {
    seq!['`', '`', '`']
}

/// `s` without one leading newline.
pub open spec fn drop_newline(s: Seq<char>) -> Seq<char> {
    if s.len() > 0 && s[0] == '\n' { s.drop_first() } else { s }
}

/// The segments of `s`: text between fences, and each fenced block with
/// the language named on its opening line; an unclosed block runs to the
/// end.
pub open spec fn segments_of(s: Seq<char>) -> Seq<SegmentView>
    decreases s.len(),
{
    if s.len() == 0 {
        seq![]
    } else {
        match find(s, fence()) {
            None => seq![SegmentView::Text(s)],
            Some(start) => if 0 <= start && start + 3 <= s.len() {
                let pre = if start > 0 { seq![SegmentView::Text(s.take(start))] } else { seq![] };
                let r1 = s.skip(start + 3);
                let lang_end = match find(r1, seq!['\n']) {
                    Some(k) => if 0 <= k <= r1.len() { k } else { r1.len() as int },
                    None => r1.len() as int,
                };
                let lang = trim(r1.take(lang_end));
                let r2 = if lang_end < r1.len() { r1.skip(lang_end + 1) } else { Seq::empty() };
                match find(r2, fence()) {
                    Some(end) => if 0 <= end && end + 3 <= r2.len() {
                        pre + seq![SegmentView::Code(lang, r2.take(end))] + segments_of(
                            drop_newline(r2.skip(end + 3)),
                        )
                    } else {
                        pre + seq![SegmentView::Code(lang, r2)]
                    },
                    None => pre + seq![SegmentView::Code(lang, r2)],
                }
            } else {
                seq![SegmentView::Text(s)]
            },
        }
    }
}

proof fn lemma_no_fence_before(s: Seq<char>, i: int)
    requires
        find(s, fence()) == Some(i),
    ensures
        0 <= i && i + 3 <= s.len(),
        !contains(s.take(i), fence()),
{
    crate::text::lemma_find_from_spec(s, fence(), 0);
    if contains(s.take(i), fence()) {
        let j = choose|j: int| crate::text::matches_at(s.take(i), fence(), j);
        assert(s.subrange(j, j + 3) =~= s.take(i).subrange(j, j + 3));
        assert(crate::text::matches_at(s, fence(), j));
    }
}

proof fn lemma_no_fence(s: Seq<char>)
    requires
        find(s, fence()) is None,
    ensures
        !contains(s, fence()),
{
    crate::text::lemma_find_from_spec(s, fence(), 0);
}

/// No prose segment holds a code fence: every fence of a message opens or
/// closes one of its code blocks.
pub proof fn lemma_prose_has_no_fence(s: Seq<char>)
    ensures
        forall|k: int|
            0 <= k < segments_of(s).len() ==> (#[trigger] segments_of(s)[k] matches SegmentView::Text(x) ==> !contains(
                x,
                fence(),
            )),
    decreases s.len(),
{
    let segs = segments_of(s);
    if s.len() == 0 {
    } else {
        match find(s, fence()) {
            None => {
                lemma_no_fence(s);
            },
            Some(start) => {
                lemma_no_fence_before(s, start);
                let pre = if start > 0 { seq![SegmentView::Text(s.take(start))] } else { seq![] };
                let r1 = s.skip(start + 3);
                let lang_end = match find(r1, seq!['\n']) {
                    Some(k) => if 0 <= k <= r1.len() { k } else { r1.len() as int },
                    None => r1.len() as int,
                };
                let lang = trim(r1.take(lang_end));
                let r2 = if lang_end < r1.len() { r1.skip(lang_end + 1) } else { Seq::empty() };
                assert(r2.len() < s.len());
                match find(r2, fence()) {
                    Some(end) => if 0 <= end && end + 3 <= r2.len() {
                        let rest = drop_newline(r2.skip(end + 3));
                        assert(rest.len() < s.len());
                        lemma_prose_has_no_fence(rest);
                        let tail = segments_of(rest);
                        assert(segs == pre + seq![SegmentView::Code(lang, r2.take(end))] + tail);
                        assert forall|k: int|
                            0 <= k < segs.len() implies (#[trigger] segs[k] matches SegmentView::Text(x) ==> !contains(
                            x,
                            fence(),
                        )) by {
                            let m = pre.len() + 1;
                            if k >= m {
                                assert(segs[k] == tail[k - m]);
                            }
                        }
                    } else {
                    },
                    None => {
                    },
                }
            },
        }
    }
}

proof fn lemma_first_at(s: Seq<char>, p: Seq<char>, i: int)
    requires
        p.len() > 0,
        0 <= i,
        i + p.len() <= s.len(),
        s.subrange(i, i + p.len()) == p,
        forall|j: int| 0 <= j < i ==> s[j] != p[0],
    ensures
        find(s, p) == Some(i),
{
    assert forall|j: int| 0 <= j < i implies !#[trigger] crate::text::matches_at(s, p, j) by {
        if crate::text::matches_at(s, p, j) {
            assert(s.subrange(j, j + p.len())[0] == s[j]);
        }
    }
    crate::text::lemma_find_from_is(s, p, 0, i);
}

/// A message with no code fence is one prose segment; an empty one has
/// none.
pub proof fn lemma_plain_prose(s: Seq<char>)
    requires
        !contains(s, fence()),
    ensures
        segments_of(s) == (if s.len() > 0 {
            seq![SegmentView::Text(s)]
        } else {
            seq![]
        }),
{
    crate::text::lemma_find_from_spec(s, fence(), 0);
    if find(s, fence()) is Some {
        let i = find(s, fence())->0;
        assert(crate::text::matches_at(s, fence(), i));
    }
}

/// A message made of prose without backticks, then a closed code block
/// (a language line, then code without backticks), then the rest, splits
/// into that prose, that block, and the segments of the rest (after the
/// newline that ends the block's closing fence).
#[verifier::rlimit(60)]
pub proof fn lemma_closed_block(prose: Seq<char>, lang: Seq<char>, code: Seq<char>, rest: Seq<char>)
    requires
        forall|j: int| 0 <= j < prose.len() ==> prose[j] != '`',
        forall|j: int| 0 <= j < lang.len() ==> lang[j] != '\n',
        forall|j: int| 0 <= j < code.len() ==> code[j] != '`',
    ensures
        segments_of(prose + fence() + lang + seq!['\n'] + code + fence() + rest) == (if prose.len() > 0 {
            seq![SegmentView::Text(prose)]
        } else {
            seq![]
        }) + seq![SegmentView::Code(trim(lang), code)] + segments_of(drop_newline(rest)),
{
    let s = prose + fence() + lang + seq!['\n'] + code + fence() + rest;
    let start = prose.len() as int;
    assert(s.subrange(start, start + 3) =~= fence());
    assert forall|j: int| 0 <= j < start implies s[j] != fence()[0] by {
        assert(s[j] == prose[j]);
    }
    lemma_first_at(s, fence(), start);
    let r1 = s.skip(start + 3);
    assert(r1 =~= lang + seq!['\n'] + code + fence() + rest);
    let l = lang.len() as int;
    assert(r1.subrange(l, l + 1) =~= seq!['\n']);
    assert forall|j: int| 0 <= j < l implies r1[j] != seq!['\n'][0] by {
        assert(r1[j] == lang[j]);
    }
    lemma_first_at(r1, seq!['\n'], l);
    assert(r1.take(l) =~= lang);
    let r2 = r1.skip(l + 1);
    assert(r2 =~= code + fence() + rest);
    let e = code.len() as int;
    assert(r2.subrange(e, e + 3) =~= fence());
    assert forall|j: int| 0 <= j < e implies r2[j] != fence()[0] by {
        assert(r2[j] == code[j]);
    }
    lemma_first_at(r2, fence(), e);
    assert(r2.take(e) =~= code);
    assert(r2.skip(e + 3) =~= rest);
    assert(s.take(start) =~= prose);
}

/// Splits a message into prose and fenced code blocks.
pub fn parse_content_segments(content: &str) -> (r: Vec<ContentSegment>)
    ensures
        segment_views(r@) == segments_of(content@),
{
    let f = vec!['`', '`', '`'];
    let nl = vec!['\n'];
    assert(f@ == fence());
    assert(nl@ == seq!['\n']);
    let mut segs: Vec<ContentSegment> = Vec::new();
    let mut rest = chars_of(content);
    loop
        invariant
            f@ == fence(),
            nl@ == seq!['\n'],
            segment_views(segs@) + segments_of(rest@) == segments_of(content@),
        decreases rest@.len(),
    {
        if rest.len() == 0 {
            assert(segment_views(segs@) + Seq::<SegmentView>::empty() =~= segment_views(segs@));
            return segs;
        }
        let n = rest.len();
        match find_exec(rest.as_slice(), f.as_slice()) {
            None => {
                let seg = ContentSegment::Text(string_from_chars(rest.as_slice()));
                proof {
                    assert(segment_views(segs@.push(seg)) =~= segment_views(segs@).push(seg.view()));
                }
                segs.push(seg);
                return segs;
            },
            Some(start) => {
                let ghost pre_len = segs@.len();
                if start > 0 {
                    let t = slice_to_vec(rest.as_slice(), 0, start);
                    let seg = ContentSegment::Text(string_from_chars(t.as_slice()));
                    proof {
                        assert(segment_views(segs@.push(seg)) =~= segment_views(segs@).push(seg.view()));
                    }
                    segs.push(seg);
                }
                let r1 = slice_to_vec(rest.as_slice(), start + 3, n);
                assert(r1@ =~= rest@.skip(start + 3));
                let m = r1.len();
                let lang_end = match find_exec(r1.as_slice(), nl.as_slice()) {
                    Some(k) => k,
                    None => m,
                };
                let lraw = slice_to_vec(r1.as_slice(), 0, lang_end);
                let (la, lb) = trim_bounds(lraw.as_slice());
                let lang_v = slice_to_vec(lraw.as_slice(), la, lb);
                assert(lraw@ =~= r1@.take(lang_end as int));
                let r2 = if lang_end < m {
                    slice_to_vec(r1.as_slice(), lang_end + 1, m)
                } else {
                    Vec::new()
                };
                assert(r2@ =~= (if lang_end < m { r1@.skip(lang_end + 1) } else { Seq::<char>::empty() }));
                let k2 = r2.len();
                match find_exec(r2.as_slice(), f.as_slice()) {
                    Some(end) => {
                        let body = slice_to_vec(r2.as_slice(), 0, end);
                        let seg = ContentSegment::Code {
                            lang: string_from_chars(lang_v.as_slice()),
                            content: string_from_chars(body.as_slice()),
                        };
                        proof {
                            assert(segment_views(segs@.push(seg)) =~= segment_views(segs@).push(seg.view()));
                        }
                        segs.push(seg);
                        let mut next = slice_to_vec(r2.as_slice(), end + 3, k2);
                        assert(next@ =~= r2@.skip(end + 3));
                        if next.len() > 0 && next[0] == '\n' {
                            let l = next.len();
                            next = slice_to_vec(next.as_slice(), 1, l);
                        }
                        assert(next@ =~= drop_newline(r2@.skip(end + 3)));
                        rest = next;
                    },
                    None => {
                        let seg = ContentSegment::Code {
                            lang: string_from_chars(lang_v.as_slice()),
                            content: string_from_chars(r2.as_slice()),
                        };
                        proof {
                            assert(segment_views(segs@.push(seg)) =~= segment_views(segs@).push(seg.view()));
                        }
                        segs.push(seg);
                        return segs;
                    },
                }
            },
        }
    }
}

// ── @path references ──────────────────────────────────────────────────────

/// A word as the chat shows it: an `@path` reference shortened to its
/// file name.
pub open spec fn clean_word(w: Seq<char>) -> Seq<char> {
    if w.len() > 1 && w[0] == '@' {
        seq!['@'] + match path_file_name(w.skip(1)) {
            Some(f) => f,
            None => w.skip(1),
        }
    } else {
        w
    }
}

/// `text` with each `@path` reference shortened to `@file`.
pub open spec fn cleaned_refs(text: Seq<char>) -> Seq<char> {
    join(split_char(text, ' ').map_values(|w: Seq<char>| clean_word(w)), seq![' '])
}

fn clean_word_exec(w: &[char]) -> (r: Vec<char>)
    ensures
        r@ == clean_word(w@),
{
    let n = w.len();
    if n > 1 && w[0] == '@' {
        let path = slice_to_vec(w, 1, n);
        assert(path@ =~= w@.skip(1));
        let ps = string_from_chars(path.as_slice());
        let mut r: Vec<char> = vec!['@'];
        match file_name_of(ps.as_str()) {
            Some(f) => crate::text::extend_str(&mut r, f.as_str()),
            None => extend_chars(&mut r, path.as_slice()),
        }
        r
    } else {
        slice_to_vec(w, 0, n)
    }
}

/// Shortens `@/long/path/to/file.rs` references to `@file.rs`.
pub fn clean_at_refs(text: &str) -> (r: String)
    ensures
        r@ == cleaned_refs(text@),
{
    let cs = chars_of(text);
    let parts = split_char_exec(cs.as_slice(), ' ');
    let ghost pv = views(parts@);
    let mut words: Vec<Vec<char>> = Vec::new();
    let mut i: usize = 0;
    while i < parts.len()
        invariant
            i <= parts@.len(),
            pv == views(parts@),
            views(words@) == pv.take(i as int).map_values(|w: Seq<char>| clean_word(w)),
        decreases parts.len() - i,
    {
        let w = clean_word_exec(parts[i].as_slice());
        proof {
            assert(pv[i as int] == parts@[i as int]@);
            assert(views(words@.push(w)) =~= views(words@).push(w@));
            assert(pv.take(i + 1).map_values(|w: Seq<char>| clean_word(w)) =~= pv.take(i as int).map_values(
                |w: Seq<char>| clean_word(w),
            ).push(clean_word(pv[i as int])));
        }
        words.push(w);
        i += 1;
    }
    assert(pv.take(parts@.len() as int) =~= pv);
    let mut out: Vec<char> = Vec::new();
    let sep = vec![' '];
    assert(sep@ == seq![' ']);
    join_into(&mut out, &words, sep.as_slice());
    assert(Seq::<char>::empty() + join(views(words@), seq![' ']) =~= join(views(words@), seq![' ']));
    string_from_chars(out.as_slice())
}

// ── code blocks ───────────────────────────────────────────────────────────

/// How a line of a diff is drawn.
#[derive(PartialEq, Eq, Structural, Clone, Copy, Debug)]
pub enum DiffLine {
    /// `+` line (not `+++`).
    Added,
    /// `-` line (not `---`).
    Removed,
    /// `@@` hunk header.
    Hunk,
    /// `---` or `+++` file header.
    FileHeader,
    /// Any other line.
    Context,
}

/// The kind of the diff line `l`.
pub open spec fn diff_line_kind(l: Seq<char>) -> DiffLine {
    if starts_with(l, seq!['+']) && !starts_with(l, seq!['+', '+', '+']) {
        DiffLine::Added
    } else if starts_with(l, seq!['-']) && !starts_with(l, seq!['-', '-', '-']) {
        DiffLine::Removed
    } else if starts_with(l, seq!['@', '@']) {
        DiffLine::Hunk
    } else if starts_with(l, seq!['-', '-', '-']) || starts_with(l, seq!['+', '+', '+']) {
        DiffLine::FileHeader
    } else {
        DiffLine::Context
    }
}

/// How the diff line `line` is drawn.
pub fn classify_diff_line(line: &str) -> (k: DiffLine)
    ensures
        k == diff_line_kind(line@),
{
    let c = chars_of(line);
    let plus = vec!['+'];
    let plus3 = vec!['+', '+', '+'];
    let minus = vec!['-'];
    let minus3 = vec!['-', '-', '-'];
    let hunk = vec!['@', '@'];
    assert(plus@ == seq!['+'] && plus3@ == seq!['+', '+', '+']);
    assert(minus@ == seq!['-'] && minus3@ == seq!['-', '-', '-']);
    assert(hunk@ == seq!['@', '@']);
    let s = c.as_slice();
    if starts_with_exec(s, plus.as_slice()) && !starts_with_exec(s, plus3.as_slice()) {
        DiffLine::Added
    } else if starts_with_exec(s, minus.as_slice()) && !starts_with_exec(s, minus3.as_slice()) {
        DiffLine::Removed
    } else if starts_with_exec(s, hunk.as_slice()) {
        DiffLine::Hunk
    } else if starts_with_exec(s, minus3.as_slice()) || starts_with_exec(s, plus3.as_slice()) {
        DiffLine::FileHeader
    } else {
        DiffLine::Context
    }
}

/// A code block is drawn as a diff: tagged `diff`, or holding added and
/// removed lines and a hunk header.
pub open spec fn looks_like_diff(lang: Seq<char>, code: Seq<char>) -> bool {
    lang == "diff"@ || (contains(code, seq!['\n', '+']) && contains(code, seq!['\n', '-']) && contains(
        code,
        seq!['@', '@'],
    ))
}

/// Whether the code block `code` tagged `lang` is drawn as a diff.
pub fn is_diff_block(lang: &str, code: &str) -> (b: bool)
    ensures
        b == looks_like_diff(lang@, code@),
{
    let d = chars_of("diff");
    let l = chars_of(lang);
    if crate::text::chars_eq(l.as_slice(), d.as_slice()) {
        return true;
    }
    let c = chars_of(code);
    let np = vec!['\n', '+'];
    let nm = vec!['\n', '-'];
    let hh = vec!['@', '@'];
    assert(np@ == seq!['\n', '+'] && nm@ == seq!['\n', '-'] && hh@ == seq!['@', '@']);
    contains_exec(c.as_slice(), np.as_slice()) && contains_exec(c.as_slice(), nm.as_slice())
        && contains_exec(c.as_slice(), hh.as_slice())
}

/// The first `n` chars of `s`.
pub open spec fn clip(s: Seq<char>, n: nat) -> Seq<char> {
    if s.len() <= n { s } else { s.take(n as int) }
}

/// A code line cut to fit `width` columns after its four-column gutter.
pub fn clip_code_line(line: &str, width: usize) -> (r: String)
    ensures
        r@ == clip(line@, if width >= 4 { (width - 4) as nat } else { 0 }),
{
    let c = chars_of(line);
    let room = if width >= 4 {
        width - 4
    } else {
        0
    };
    let n = if c.len() <= room {
        c.len()
    } else {
        room
    };
    let v = slice_to_vec(c.as_slice(), 0, n);
    assert(v@ =~= clip(line@, room as nat));
    string_from_chars(v.as_slice())
}

// ── naming a code block's language ────────────────────────────────────────

/// The highlighter's name for a lower-cased language tag that is not a
/// file extension it knows; empty when the tag is not one of these.
pub open spec fn syntax_alias_of(l: Seq<char>) -> Seq<char> {
    if l == "rust"@ {
        "Rust"@
    } else if l == "python"@ || l == "py"@ {
        "Python"@
    } else if l == "javascript"@ {
        "JavaScript"@
    } else if l == "typescript"@ {
        "TypeScript"@
    } else if l == "bash"@ || l == "sh"@ || l == "shell"@ || l == "zsh"@ {
        "Bash"@
    } else if l == "c"@ {
        "C"@
    } else if l == "cpp"@ || l == "c++"@ {
        "C++"@
    } else if l == "java"@ {
        "Java"@
    } else if l == "go"@ || l == "golang"@ {
        "Go"@
    } else if l == "ruby"@ || l == "rb"@ {
        "Ruby"@
    } else if l == "html"@ {
        "HTML"@
    } else if l == "css"@ {
        "CSS"@
    } else if l == "json"@ {
        "JSON"@
    } else if l == "toml"@ {
        "TOML"@
    } else if l == "yaml"@ || l == "yml"@ {
        "YAML"@
    } else if l == "markdown"@ || l == "md"@ {
        "Markdown"@
    } else if l == "sql"@ {
        "SQL"@
    } else if l == "xml"@ {
        "XML"@
    } else if l == "lua"@ {
        "Lua"@
    } else if l == "haskell"@ || l == "hs"@ {
        "Haskell"@
    } else if l == "swift"@ {
        "Swift"@
    } else if l == "kotlin"@ || l == "kt"@ {
        "Kotlin"@
    } else if l == "scala"@ {
        "Scala"@
    } else if l == "perl"@ {
        "Perl"@
    } else {
        ""@
    }
}

/// A fence's language tag as the highlighter looks it up: trimmed, then
/// lower-cased.
pub fn syntax_key(lang: &str) -> (r: String)
    ensures
        r@ == crate::chat::unicode_lowercase(trim(lang@)),
{
    crate::chat::to_lowercase(crate::text::trim_str(lang))
}

/// The highlighter's name for the lower-cased language tag `l`.
pub fn syntax_alias(l: &str) -> (r: &'static str)
    ensures
        r@ == syntax_alias_of(l@),
{
    if str_eq(l, "rust") {
        "Rust"
    } else if str_eq(l, "python") || str_eq(l, "py") {
        "Python"
    } else if str_eq(l, "javascript") {
        "JavaScript"
    } else if str_eq(l, "typescript") {
        "TypeScript"
    } else if str_eq(l, "bash") || str_eq(l, "sh") || str_eq(l, "shell") || str_eq(l, "zsh") {
        "Bash"
    } else if str_eq(l, "c") {
        "C"
    } else if str_eq(l, "cpp") || str_eq(l, "c++") {
        "C++"
    } else if str_eq(l, "java") {
        "Java"
    } else if str_eq(l, "go") || str_eq(l, "golang") {
        "Go"
    } else if str_eq(l, "ruby") || str_eq(l, "rb") {
        "Ruby"
    } else if str_eq(l, "html") {
        "HTML"
    } else if str_eq(l, "css") {
        "CSS"
    } else if str_eq(l, "json") {
        "JSON"
    } else if str_eq(l, "toml") {
        "TOML"
    } else if str_eq(l, "yaml") || str_eq(l, "yml") {
        "YAML"
    } else if str_eq(l, "markdown") || str_eq(l, "md") {
        "Markdown"
    } else if str_eq(l, "sql") {
        "SQL"
    } else if str_eq(l, "xml") {
        "XML"
    } else if str_eq(l, "lua") {
        "Lua"
    } else if str_eq(l, "haskell") || str_eq(l, "hs") {
        "Haskell"
    } else if str_eq(l, "swift") {
        "Swift"
    } else if str_eq(l, "kotlin") || str_eq(l, "kt") {
        "Kotlin"
    } else if str_eq(l, "scala") {
        "Scala"
    } else if str_eq(l, "perl") {
        "Perl"
    } else {
        ""
    }
}


// ── highlighted pieces ────────────────────────────────────────────────────

/// `s` without the copies of `c` at its end.
pub open spec fn strip_trailing(s: Seq<char>, c: char) -> Seq<char>
    decreases s.len(),
{
    if s.len() > 0 && s.last() == c {
        strip_trailing(s.drop_last(), c)
    } else {
        s
    }
}

/// What a highlighted piece of a line shows: its text without the line
/// breaks at its end (newlines, then carriage returns); nothing when no
/// text is left.
pub open spec fn shown_piece_of(s: Seq<char>) -> Option<Seq<char>> {
    let t = strip_trailing(strip_trailing(s, '\n'), '\r');
    if t.len() == 0 {
        None
    } else {
        Some(t)
    }
}

fn strip_trailing_len(s: &[char], end: usize, c: char) -> (k: usize)
    requires
        end <= s@.len(),
    ensures
        k <= end,
        s@.take(k as int) == strip_trailing(s@.take(end as int), c),
{
    let mut k = end;
    while k > 0 && s[k - 1] == c
        invariant
            k <= end <= s@.len(),
            strip_trailing(s@.take(k as int), c) == strip_trailing(s@.take(end as int), c),
        decreases k,
    {
        assert(s@.take(k as int).drop_last() =~= s@.take(k - 1));
        k = k - 1;
    }
    k
}

/// The text that a highlighted piece shows, if any.
pub fn shown_piece(text: &str) -> (r: Option<String>)
    ensures
        match r {
            None => shown_piece_of(text@) is None,
            Some(t) => shown_piece_of(text@) == Some(t@),
        },
{
    let cs = chars_of(text);
    assert(cs@.take(cs@.len() as int) =~= cs@);
    let a = strip_trailing_len(cs.as_slice(), cs.len(), '\n');
    let b = strip_trailing_len(cs.as_slice(), a, '\r');
    if b == 0 {
        None
    } else {
        Some(string_from_chars(&cs.as_slice()[0..b]))
    }
}

} // verus!
