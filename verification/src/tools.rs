//! The built-in tools' text handling: argument parsing, edits, result
//! formatting and the guard on destructive shell commands.
use vstd::prelude::*;
use crate::text::{
    byte_len, char_width, char_width_exec, chars_eq, chars_of, extend_chars,
    lemma_encode_concat, prefix_bytes, find, find_from_exec, lemma_find_from_spec, lemma_find_from_is,
    matches_at, is_ws, char_is_ws, extend_str, rfind, rfind_exec, slice_to_vec, string_from_chars, trim,
    trim_bounds, views, words, words_exec,
};
use crate::meta::{join, join_into, lines, lines_exec};
use crate::prompt::{decimal, u64_to_decimal};
use crate::cli::{all_digits, digits_value};
use crate::paths::{file_name_of, path_file_name};

verus! {

// ── destructive shell commands ────────────────────────────────────────────

/// `c` separates two shell commands on one line.
pub open spec fn is_cmd_sep(c: char) -> bool {
    c == ';' || c == '|' || c == '&'
}

/// The pieces of `s` between command separators, where `cur` is a piece
/// already begun before `s` (`str::split` on `;`, `|`, `&`).
pub open spec fn segments_from(s: Seq<char>, cur: Seq<char>) -> Seq<Seq<char>>
    decreases s.len(),
{
    if s.len() == 0 {
        seq![cur]
    } else if is_cmd_sep(s[0]) {
        seq![cur] + segments_from(s.drop_first(), Seq::empty())
    } else {
        segments_from(s.drop_first(), cur.push(s[0]))
    }
}

/// The commands of a shell line, split at `;`, `|` and `&`.
pub open spec fn segments(s: Seq<char>) -> Seq<Seq<char>> {
    segments_from(s, Seq::empty())
}

/// The `i`th word of `ws`, or the empty word.
pub open spec fn word_at(ws: Seq<Seq<char>>, i: int) -> Seq<char> {
    if 0 <= i < ws.len() {
        ws[i]
    } else {
        Seq::empty()
    }
}

/// The last `/`-separated component of `p`.
pub open spec fn basename(p: Seq<char>) -> Seq<char> {
    match rfind(p, seq!['/']) {
        Some(i) => p.skip(i + 1),
        None => p,
    }
}

/// Programs that destroy or rewrite files.
pub open spec fn destructive_program(b: Seq<char>) -> bool {
    b == "rm"@ || b == "rmdir"@ || b == "mv"@ || b == "dd"@ || b == "mkfs"@ || b == "shred"@
        || b == "truncate"@ || b == "chmod"@ || b == "chown"@ || b == "chgrp"@
}

/// `git` subcommands that discard work.
pub open spec fn destructive_git(sub: Seq<char>) -> bool {
    sub == "rm"@ || sub == "mv"@ || sub == "clean"@ || sub == "reset"@ || sub == "checkout"@
}

/// One command is destructive: its program (after an optional `sudo`, by
/// base name) destroys files, or it is `git` with a discarding subcommand.
pub open spec fn segment_destructive(seg: Seq<char>) -> bool {
    let ws = words(seg);
    let skip: int = if ws.len() > 0 && ws[0] == "sudo"@ { 1 } else { 0 };
    let program = basename(word_at(ws, skip));
    destructive_program(program) || (program == "git"@ && destructive_git(word_at(ws, skip + 1)))
}

/// Some command of the shell line `call` is destructive.
pub open spec fn destructive_shell(call: Seq<char>) -> bool {
    exists|i: int| 0 <= i < segments(call).len() && segment_destructive(#[trigger] segments(call)[i])
}

proof fn lemma_segments_from_cmd(a: Seq<char>, sep: char, b: Seq<char>, cur: Seq<char>)
    requires
        is_cmd_sep(sep),
        forall|k: int| 0 <= k < a.len() ==> !is_cmd_sep(#[trigger] a[k]),
    ensures
        segments_from(a + seq![sep] + b, cur) == seq![cur + a] + segments(b),
    decreases a.len(),
{
    let s = a + seq![sep] + b;
    if a.len() == 0 {
        assert(s[0] == sep);
        assert(s.drop_first() =~= b);
        assert(cur + a =~= cur);
    } else {
        assert(s[0] == a[0]);
        assert(s.drop_first() =~= a.drop_first() + seq![sep] + b);
        assert forall|k: int| 0 <= k < a.drop_first().len() implies !is_cmd_sep(#[trigger] a.drop_first()[k]) by {
            assert(a.drop_first()[k] == a[k + 1]);
        }
        lemma_segments_from_cmd(a.drop_first(), sep, b, cur.push(a[0]));
        assert(cur.push(a[0]) + a.drop_first() =~= cur + a);
    }
}

/// A shell line is split into commands at every `;`, `|` and `&`: a
/// command followed by a separator is the first command of the line, and
/// the rest of the line gives the others.
pub proof fn lemma_shell_commands(a: Seq<char>, sep: char, b: Seq<char>)
    requires
        sep == ';' || sep == '|' || sep == '&',
        forall|k: int| 0 <= k < a.len() ==> a[k] != ';' && a[k] != '|' && a[k] != '&',
    ensures
        segments(a + seq![sep] + b) == seq![a] + segments(b),
        destructive_shell(b) ==> destructive_shell(a + seq![sep] + b),
{
    assert forall|k: int| 0 <= k < a.len() implies !is_cmd_sep(#[trigger] a[k]) by {}
    lemma_segments_from_cmd(a, sep, b, Seq::empty());
    assert(Seq::<char>::empty() + a =~= a);
    let all = a + seq![sep] + b;
    if destructive_shell(b) {
        let i = choose|i: int| 0 <= i < segments(b).len() && segment_destructive(#[trigger] segments(b)[i]);
        assert(segments(all)[i + 1] == segments(b)[i]);
    }
}

/// A command of a shell line that runs `git` (after an optional `sudo`,
/// by base name) with `rm`, `mv`, `clean`, `reset` or `checkout` makes the
/// line destructive; so does one whose program is `rm`, `rmdir`, `mv`,
/// `dd`, `mkfs`, `shred`, `truncate`, `chmod`, `chown` or `chgrp`.
pub proof fn lemma_destructive_commands(call: Seq<char>, i: int)
    requires
        0 <= i < segments(call).len(),
    ensures
        ({
            let ws = words(segments(call)[i]);
            let k: int = if ws.len() > 0 && ws[0] == "sudo"@ { 1 } else { 0 };
            let prog = basename(word_at(ws, k));
            let sub = word_at(ws, k + 1);
            (prog == "git"@ && (sub == "rm"@ || sub == "mv"@ || sub == "clean"@ || sub == "reset"@ || sub
                == "checkout"@)) ==> destructive_shell(call)
        }),
        ({
            let ws = words(segments(call)[i]);
            let k: int = if ws.len() > 0 && ws[0] == "sudo"@ { 1 } else { 0 };
            let prog = basename(word_at(ws, k));
            (prog == "rm"@ || prog == "rmdir"@ || prog == "mv"@ || prog == "dd"@ || prog == "mkfs"@ || prog
                == "shred"@ || prog == "truncate"@ || prog == "chmod"@ || prog == "chown"@ || prog == "chgrp"@)
                ==> destructive_shell(call)
        }),
{
    assert(segment_destructive(segments(call)[i]) ==> destructive_shell(call));
}

/// Whether `a` holds exactly the chars of the literal `lit`.
fn eq_lit(a: &[char], lit: &str) -> (r: bool)
    ensures
        r == (a@ == lit@),
{
    let l = chars_of(lit);
    chars_eq(a, l.as_slice())
}

fn segments_exec(s: &[char]) -> (segs: Vec<Vec<char>>)
    ensures
        views(segs@) == segments(s@),
{
    let mut segs: Vec<Vec<char>> = Vec::new();
    let mut cur: Vec<char> = Vec::new();
    let mut i: usize = 0;
    assert(s@.skip(0) =~= s@);
    while i < s.len()
        invariant
            i <= s@.len(),
            views(segs@) + segments_from(s@.skip(i as int), cur@) == segments(s@),
        decreases s.len() - i,
    {
        let c = s[i];
        let ghost rest = s@.skip(i as int);
        assert(rest[0] == c);
        assert(rest.drop_first() =~= s@.skip(i + 1));
        if c == ';' || c == '|' || c == '&' {
            proof {
                assert(views(segs@.push(cur)) =~= views(segs@).push(cur@));
                assert(views(segs@).push(cur@) + segments_from(s@.skip(i + 1), Seq::empty())
                    =~= views(segs@) + (seq![cur@] + segments_from(s@.skip(i + 1), Seq::empty())));
            }
            segs.push(cur);
            cur = Vec::new();
            assert(cur@ =~= Seq::<char>::empty());
        } else {
            cur.push(c);
        }
        i += 1;
    }
    assert(s@.skip(i as int) =~= Seq::<char>::empty());
    proof {
        assert(views(segs@.push(cur)) =~= views(segs@).push(cur@));
    }
    segs.push(cur);
    segs
}

pub fn basename_exec(p: &[char]) -> (b: Vec<char>)
    ensures
        b@ == basename(p@),
{
    let slash = vec!['/'];
    assert(slash@ == seq!['/']);
    let r = rfind_exec(p, slash.as_slice());
    match r {
        Some(i) => {
            assert(crate::text::matches_at(p@, slash@, i as int));
            assert(rfind(p@, seq!['/']) == Some(i as int));
            let n = p.len();
            let b = slice_to_vec(p, i + 1, n);
            assert(b@ =~= p@.skip(i + 1));
            b
        },
        None => {
            assert(rfind(p@, seq!['/']) is None);
            let b = slice_to_vec(p, 0, p.len());
            assert(b@ =~= p@);
            b
        },
    }
}

fn word_at_exec(ws: &Vec<Vec<char>>, i: usize) -> (w: Vec<char>)
    ensures
        w@ == word_at(views(ws@), i as int),
{
    let mut w: Vec<char> = Vec::new();
    if i < ws.len() {
        extend_chars(&mut w, ws[i].as_slice());
        assert(Seq::<char>::empty() + ws@[i as int]@ =~= ws@[i as int]@);
    } else {
        assert(w@ =~= Seq::<char>::empty());
    }
    w
}

fn segment_destructive_exec(seg: &[char]) -> (r: bool)
    ensures
        r == segment_destructive(seg@),
{
    let ws = words_exec(seg);
    let skip: usize = if ws.len() > 0 && eq_lit(ws[0].as_slice(), "sudo") {
        1
    } else {
        0
    };
    proof {
        if ws.len() > 0 {
            assert(views(ws@)[0] == ws@[0]@);
        }
    }
    let first = word_at_exec(&ws, skip);
    let program = basename_exec(first.as_slice());
    let p = program.as_slice();
    if eq_lit(p, "rm") || eq_lit(p, "rmdir") || eq_lit(p, "mv") || eq_lit(p, "dd") || eq_lit(p, "mkfs")
        || eq_lit(p, "shred") || eq_lit(p, "truncate") || eq_lit(p, "chmod") || eq_lit(p, "chown")
        || eq_lit(p, "chgrp") {
        return true;
    }
    if eq_lit(p, "git") {
        let next = word_at_exec(&ws, skip + 1);
        let n = next.as_slice();
        return eq_lit(n, "rm") || eq_lit(n, "mv") || eq_lit(n, "clean") || eq_lit(n, "reset")
            || eq_lit(n, "checkout");
    }
    false
}

/// Whether the shell line `call` runs a destructive command, which then
/// needs the user's confirmation.
pub fn is_destructive_shell(call: &str) -> (r: bool)
    ensures
        r == destructive_shell(call@),
{
    let cs = chars_of(call);
    let segs = segments_exec(cs.as_slice());
    let mut i: usize = 0;
    while i < segs.len()
        invariant
            i <= segs@.len(),
            views(segs@) == segments(call@),
            forall|j: int| 0 <= j < i ==> !segment_destructive(#[trigger] segments(call@)[j]),
        decreases segs.len() - i,
    {
        assert(views(segs@)[i as int] == segs@[i as int]@);
        if segment_destructive_exec(segs[i].as_slice()) {
            return true;
        }
        i += 1;
    }
    false
}

// ── search results ────────────────────────────────────────────────────────

/// Most result lines a search reports.
pub const MAX_GREP_RESULTS: usize = 100;

/// What a search reports for its raw output `out`: its first lines, with a
/// note when the cap was reached.
pub open spec fn search_report(out: Seq<char>) -> Seq<char> {
    if trim(out).len() == 0 {
        "No matches found."@
    } else {
        let ls = if lines(out).len() > MAX_GREP_RESULTS {
            lines(out).take(MAX_GREP_RESULTS as int)
        } else {
            lines(out)
        };
        join(ls, seq!['\n']) + (if ls.len() == MAX_GREP_RESULTS {
            "\n[truncated at 100 results]"@
        } else {
            Seq::empty()
        })
    }
}

/// The report of a search whose raw output is `output`.
pub fn truncate_results(output: &str) -> (r: String)
    ensures
        r@ == search_report(output@),
{
    let cs = chars_of(output);
    let (a, b) = trim_bounds(cs.as_slice());
    if a == b {
        return String::from_str("No matches found.");
    }
    let all = lines_exec(cs.as_slice());
    let mut ls: Vec<Vec<char>> = Vec::new();
    let mut i: usize = 0;
    while i < all.len() && i < MAX_GREP_RESULTS
        invariant
            i <= all@.len(),
            i <= MAX_GREP_RESULTS,
            views(ls@) == views(all@).take(i as int),
        decreases all.len() - i,
    {
        let mut line: Vec<char> = Vec::new();
        extend_chars(&mut line, all[i].as_slice());
        assert(Seq::<char>::empty() + all@[i as int]@ =~= all@[i as int]@);
        proof {
            assert(views(ls@.push(line)) =~= views(ls@).push(line@));
            assert(views(all@)[i as int] == all@[i as int]@);
        }
        ls.push(line);
        assert(views(ls@) =~= views(all@).take(i + 1));
        i += 1;
    }
    assert(views(all@).take(all@.len() as int) =~= views(all@));
    proof {
        let lo = lines(output@);
        assert(lo == views(all@));
        if lo.len() > MAX_GREP_RESULTS {
            assert(i == MAX_GREP_RESULTS);
        } else {
            assert(i == all@.len());
        }
    }
    let mut out: Vec<char> = Vec::new();
    let sep = vec!['\n'];
    assert(sep@ == seq!['\n']);
    join_into(&mut out, &ls, sep.as_slice());
    assert(Seq::<char>::empty() + join(views(ls@), seq!['\n']) =~= join(views(ls@), seq!['\n']));
    let ghost kept = if lines(output@).len() > MAX_GREP_RESULTS {
        lines(output@).take(MAX_GREP_RESULTS as int)
    } else {
        lines(output@)
    };
    assert(views(ls@) == kept);
    assert(views(ls@).len() == ls@.len());
    assert(trim(output@).len() != 0);
    assert(out@ == join(kept, seq!['\n']));
    if ls.len() == MAX_GREP_RESULTS {
        extend_str(&mut out, "\n[truncated at 100 results]");
        assert(out@ == join(kept, seq!['\n']) + "\n[truncated at 100 results]"@);
    } else {
        assert(out@ + Seq::<char>::empty() =~= out@);
        assert(kept.len() != MAX_GREP_RESULTS);
    }
    assert(out@ == search_report(output@));
    string_from_chars(out.as_slice())
}

// ── shell output cap ──────────────────────────────────────────────────────

/// Most lines of shell output handed to the model.
pub const MAX_OUTPUT_LINES: usize = 500;

/// Most bytes of shell output handed to the model.
pub const MAX_OUTPUT_BYTES: usize = 32768;

/// Chars of `s` up to and including its `n`th newline (all of `s` when it
/// has fewer).
pub open spec fn line_cut(s: Seq<char>, n: nat) -> nat
    decreases s.len(),
{
    if s.len() == 0 || n == 0 {
        0
    } else if s[0] == '\n' {
        1 + line_cut(s.drop_first(), (n - 1) as nat)
    } else {
        1 + line_cut(s.drop_first(), n)
    }
}

/// Chars of the longest prefix of `s` that fits in `budget` bytes.
pub open spec fn byte_cut(s: Seq<char>, budget: int) -> nat
    decreases s.len(),
{
    if s.len() == 0 || char_width(s[0]) > budget {
        0
    } else {
        1 + byte_cut(s.drop_first(), budget - char_width(s[0]))
    }
}

/// Chars of shell output kept when it is cut.
pub open spec fn output_cut(s: Seq<char>) -> nat {
    let l = line_cut(s, MAX_OUTPUT_LINES as nat);
    let b = byte_cut(s, MAX_OUTPUT_BYTES as int);
    if l < b { l } else { b }
}

/// `a - b`, or 0 when `b` exceeds `a`.
pub open spec fn sat_sub(a: nat, b: nat) -> nat {
    if a >= b { (a - b) as nat } else { 0 }
}

/// Shell output as handed to the model: whole when within both caps, else
/// its kept head and a note of what was cut.
pub open spec fn capped_output(s: Seq<char>) -> Seq<char> {
    if lines(s).len() <= MAX_OUTPUT_LINES && byte_len(s) <= MAX_OUTPUT_BYTES {
        s
    } else {
        let head = s.take(output_cut(s) as int);
        head + "\n[... truncated: "@ + decimal(sat_sub(lines(s).len(), lines(head).len()))
            + " more lines, "@ + decimal((byte_len(s) - byte_len(head)) as nat)
            + " more bytes — pipe to head/sed or use read_file with offset]"@
    }
}

proof fn lemma_width_pos(c: char)
    ensures
        char_width(c) >= 1,
{
}

/// The UTF-8 length of a prefix grows with every char.
proof fn lemma_prefix_bytes_step(s: Seq<char>, j: int)
    requires
        0 <= j < s.len(),
    ensures
        byte_len(s.take(j + 1)) == byte_len(s.take(j)) + char_width(s[j]),
        byte_len(s.take(j + 1)) > byte_len(s.take(j)),
{
    crate::text::lemma_encode_push(s.take(j), s[j]);
    assert(s.take(j).push(s[j]) =~= s.take(j + 1));
    lemma_width_pos(s[j]);
}

proof fn lemma_prefix_bytes_mono(s: Seq<char>, i: int, j: int)
    requires
        0 <= i <= j <= s.len(),
    ensures
        byte_len(s.take(i)) <= byte_len(s.take(j)),
        i < j ==> byte_len(s.take(i)) < byte_len(s.take(j)),
    decreases j - i,
{
    if i < j {
        lemma_prefix_bytes_mono(s, i, j - 1);
        lemma_prefix_bytes_step(s, j - 1);
    }
}

/// `byte_cut` keeps the longest prefix within the budget.
proof fn lemma_byte_cut_fits(s: Seq<char>, budget: int)
    requires
        budget >= 0,
    ensures
        byte_cut(s, budget) <= s.len(),
        byte_len(s.take(byte_cut(s, budget) as int)) <= budget,
        byte_cut(s, budget) < s.len() ==> byte_len(s.take(byte_cut(s, budget) as int + 1)) > budget,
    decreases s.len(),
{
    let k = byte_cut(s, budget);
    if s.len() == 0 {
        assert(s.take(0) =~= Seq::<char>::empty());
        assert(vstd::utf8::encode_utf8(Seq::<char>::empty()) =~= Seq::<u8>::empty());
    } else if char_width(s[0]) > budget {
        assert(s.take(0) =~= Seq::<char>::empty());
        assert(vstd::utf8::encode_utf8(Seq::<char>::empty()) =~= Seq::<u8>::empty());
        lemma_prefix_bytes_step(s, 0);
    } else {
        let w = char_width(s[0]);
        let r = s.drop_first();
        let k2 = byte_cut(r, budget - w);
        lemma_byte_cut_fits(r, budget - w);
        crate::text::lemma_encode_concat(seq![s[0]], r.take(k2 as int));
        assert(seq![s[0]] + r.take(k2 as int) =~= s.take(k as int));
        assert(seq![s[0]].drop_first() =~= Seq::<char>::empty());
        assert(vstd::utf8::encode_utf8(Seq::<char>::empty()) =~= Seq::<u8>::empty());
        assert(vstd::utf8::encode_utf8(seq![s[0]]) =~= vstd::utf8::encode_scalar(s[0] as u32)
            + vstd::utf8::encode_utf8(Seq::<char>::empty()));
        if k < s.len() {
            crate::text::lemma_encode_concat(seq![s[0]], r.take(k2 as int + 1));
            assert(seq![s[0]] + r.take(k2 as int + 1) =~= s.take(k as int + 1));
        }
    }
}

/// In bytes, the head kept of cut shell output ends at the last char
/// boundary within both caps: 32 KiB, and the bytes of the first 500 lines
/// (with their newlines); the note then counts the bytes after it.
pub proof fn lemma_output_cut_bytes(s: Seq<char>)
    ensures
        ({
            let k = output_cut(s) as int;
            let lines_bytes = byte_len(s.take(line_cut(s, MAX_OUTPUT_LINES as nat) as int));
            let limit = if lines_bytes < MAX_OUTPUT_BYTES { lines_bytes } else { MAX_OUTPUT_BYTES as nat };
            &&& k <= s.len()
            &&& byte_len(s.take(k)) <= limit
            &&& forall|j: int| k < j <= s.len() ==> byte_len(#[trigger] s.take(j)) > limit
        }),
{
    let l = line_cut(s, MAX_OUTPUT_LINES as nat) as int;
    let b = byte_cut(s, MAX_OUTPUT_BYTES as int) as int;
    lemma_line_cut_bound(s, MAX_OUTPUT_LINES as nat);
    lemma_byte_cut_fits(s, MAX_OUTPUT_BYTES as int);
    let k = output_cut(s) as int;
    let lb = byte_len(s.take(l));
    let limit = if lb < MAX_OUTPUT_BYTES { lb } else { MAX_OUTPUT_BYTES as nat };
    if l < b {
        lemma_prefix_bytes_mono(s, l, b);
        assert forall|j: int| k < j <= s.len() implies byte_len(#[trigger] s.take(j)) > limit by {
            lemma_prefix_bytes_mono(s, l, j);
        }
    } else {
        lemma_prefix_bytes_mono(s, b, l);
        assert forall|j: int| k < j <= s.len() implies byte_len(#[trigger] s.take(j)) > limit by {
            lemma_prefix_bytes_mono(s, b + 1, j);
        }
    }
}

/// Shell output within both caps is handed over whole. Otherwise what is
/// handed over is a head of it that ends at the last char boundary within
/// 32 KiB and within the bytes of its first 500 lines (newlines included),
/// then a note of how many lines and bytes follow that head.
pub proof fn lemma_truncate_output(s: Seq<char>)
    ensures
        lines(s).len() <= MAX_OUTPUT_LINES && byte_len(s) <= MAX_OUTPUT_BYTES ==> capped_output(s) == s,
        !(lines(s).len() <= MAX_OUTPUT_LINES && byte_len(s) <= MAX_OUTPUT_BYTES) ==> exists|k: int|
            {
                let head = #[trigger] s.take(k);
                let lines_bytes = byte_len(s.take(line_cut(s, MAX_OUTPUT_LINES as nat) as int));
                let limit = if lines_bytes < MAX_OUTPUT_BYTES { lines_bytes } else { MAX_OUTPUT_BYTES as nat };
                &&& 0 <= k <= s.len()
                &&& byte_len(head) <= limit
                &&& forall|j: int| k < j <= s.len() ==> byte_len(#[trigger] s.take(j)) > limit
                &&& capped_output(s) == head + "\n[... truncated: "@ + decimal(sat_sub(lines(s).len(), lines(head).len()))
                    + " more lines, "@ + decimal((byte_len(s) - byte_len(head)) as nat)
                    + " more bytes — pipe to head/sed or use read_file with offset]"@
            },
{
    lemma_output_cut_bytes(s);
    let k = output_cut(s) as int;
    let _ = s.take(k);
}

proof fn lemma_line_cut_bound(s: Seq<char>, n: nat)
    ensures
        line_cut(s, n) <= s.len(),
    decreases s.len(),
{
    if s.len() > 0 && n > 0 {
        if s[0] == '\n' {
            lemma_line_cut_bound(s.drop_first(), (n - 1) as nat);
        } else {
            lemma_line_cut_bound(s.drop_first(), n);
        }
    }
}

proof fn lemma_byte_cut_bound(s: Seq<char>, budget: int)
    ensures
        byte_cut(s, budget) <= s.len(),
    decreases s.len(),
{
    if s.len() > 0 && char_width(s[0]) <= budget {
        lemma_byte_cut_bound(s.drop_first(), budget - char_width(s[0]));
    }
}

fn line_cut_exec(s: &[char], n: usize) -> (k: usize)
    ensures
        k == line_cut(s@, n as nat),
{
    let mut i: usize = 0;
    let mut left: usize = n;
    assert(s@.skip(0) =~= s@);
    while i < s.len() && left > 0
        invariant
            i <= s@.len(),
            left <= n,
            line_cut(s@, n as nat) == i + line_cut(s@.skip(i as int), left as nat),
        decreases s.len() - i,
    {
        assert(s@.skip(i as int).drop_first() =~= s@.skip(i + 1));
        if s[i] == '\n' {
            left -= 1;
        }
        i += 1;
    }
    i
}

fn byte_cut_exec(s: &[char], budget: usize) -> (k: usize)
    ensures
        k == byte_cut(s@, budget as int),
{
    let mut i: usize = 0;
    let mut left: usize = budget;
    assert(s@.skip(0) =~= s@);
    loop
        invariant
            i <= s@.len(),
            left <= budget,
            byte_cut(s@, budget as int) == i + byte_cut(s@.skip(i as int), left as int),
        decreases s@.len() - i,
    {
        if i == s.len() {
            return i;
        }
        let w = char_width_exec(s[i]);
        assert(s@.skip(i as int)[0] == s@[i as int]);
        if w > left {
            return i;
        }
        assert(s@.skip(i as int).drop_first() =~= s@.skip(i + 1));
        left -= w;
        i += 1;
    }
}

/// Caps shell output at 500 lines or 32 KiB, whichever comes first, and
/// says how much was cut.
pub fn truncate_output(out: &str) -> (r: String)
    requires
        byte_len(out@) <= usize::MAX,
    ensures
        r@ == capped_output(out@),
{
    let cs = chars_of(out);
    let total_bytes = prefix_bytes(cs.as_slice(), cs.len());
    assert(cs@.take(cs@.len() as int) =~= cs@);
    let total_lines = lines_exec(cs.as_slice()).len();
    if total_lines <= MAX_OUTPUT_LINES && total_bytes <= MAX_OUTPUT_BYTES {
        return String::from_str(out);
    }
    let l = line_cut_exec(cs.as_slice(), MAX_OUTPUT_LINES);
    let b = byte_cut_exec(cs.as_slice(), MAX_OUTPUT_BYTES);
    let cut = if l < b {
        l
    } else {
        b
    };
    proof {
        lemma_line_cut_bound(out@, MAX_OUTPUT_LINES as nat);
        lemma_byte_cut_bound(out@, MAX_OUTPUT_BYTES as int);
    }
    let head = slice_to_vec(cs.as_slice(), 0, cut);
    assert(head@ =~= out@.take(cut as int));
    let head_lines = lines_exec(head.as_slice()).len();
    let head_bytes = prefix_bytes(cs.as_slice(), cut);
    proof {
        lemma_encode_concat(out@.take(cut as int), out@.skip(cut as int));
        assert(out@.take(cut as int) + out@.skip(cut as int) =~= out@);
    }
    let extra_lines = if total_lines >= head_lines {
        total_lines - head_lines
    } else {
        0
    };
    let mut r: Vec<char> = Vec::new();
    extend_chars(&mut r, head.as_slice());
    extend_str(&mut r, "\n[... truncated: ");
    let el = u64_to_decimal(extra_lines as u64);
    extend_str(&mut r, el.as_str());
    extend_str(&mut r, " more lines, ");
    let eb = u64_to_decimal((total_bytes - head_bytes) as u64);
    extend_str(&mut r, eb.as_str());
    extend_str(&mut r, " more bytes — pipe to head/sed or use read_file with offset]");
    assert(r@ =~= capped_output(out@));
    string_from_chars(r.as_slice())
}

// ── numbers ───────────────────────────────────────────────────────────────

/// `str::parse::<usize>`: an optional `+`, then at least one decimal digit,
/// with a value that fits.
pub open spec fn parsed_usize(s: Seq<char>) -> Option<usize> {
    let d = if s.len() > 0 && s[0] == '+' {
        s.skip(1)
    } else {
        s
    };
    if d.len() > 0 && all_digits(d) && digits_value(d) <= usize::MAX {
        Some(digits_value(d) as usize)
    } else {
        None
    }
}

proof fn lemma_digits_grow(s: Seq<char>, i: int)
    requires
        0 <= i <= s.len(),
        all_digits(s),
    ensures
        digits_value(s.take(i)) <= digits_value(s),
    decreases s.len() - i,
{
    if i < s.len() {
        lemma_digits_grow(s, i + 1);
        assert(s.take(i + 1).drop_last() =~= s.take(i));
    } else {
        assert(s.take(i) =~= s);
    }
}

proof fn lemma_step_fits(acc: int, d: int, m: int)
    by (nonlinear_arith)
    requires
        0 <= acc,
        0 <= d <= 9,
        d <= m,
    ensures
        acc <= (m - d) / 10 <==> acc * 10 + d <= m,
{
}

/// Parses a decimal `usize` as `str::parse` does.
pub fn parse_usize(s: &str) -> (r: Option<usize>)
    ensures
        r == parsed_usize(s@),
{
    let cs = chars_of(s);
    let start: usize = if cs.len() > 0 && cs[0] == '+' {
        1
    } else {
        0
    };
    let d = slice_to_vec(cs.as_slice(), start, cs.len());
    let ghost dv = if s@.len() > 0 && s@[0] == '+' {
        s@.skip(1)
    } else {
        s@
    };
    assert(d@ =~= dv);
    if d.len() == 0 {
        return None;
    }
    let mut acc: usize = 0;
    let mut i: usize = 0;
    while i < d.len()
        invariant
            i <= d@.len(),
            acc == digits_value(d@.take(i as int)),
            d@ == dv,
            d@.len() > 0,
            dv == (if s@.len() > 0 && s@[0] == '+' {
                s@.skip(1)
            } else {
                s@
            }),
            forall|k: int| 0 <= k < i ==> '0' <= #[trigger] d@[k] && d@[k] <= '9',
        decreases d.len() - i,
    {
        let c = d[i];
        if !('0' <= c && c <= '9') {
            assert(!all_digits(d@));
            return None;
        }
        assert(d@.take(i + 1).drop_last() =~= d@.take(i as int));
        let v = (c as u32 - 48) as usize;
        proof {
            lemma_step_fits(acc as int, v as int, usize::MAX as int);
        }
        if acc > (usize::MAX - v) / 10 {
            proof {
                if all_digits(d@) {
                    lemma_digits_grow(d@, i + 1);
                }
            }
            return None;
        }
        acc = acc * 10 + v;
        i += 1;
    }
    assert(d@.take(i as int) =~= d@);
    Some(acc)
}

/// `opt` parsed as a `usize`, when present and valid.
pub open spec fn parsed_arg(opt: Option<Seq<char>>) -> Option<usize> {
    match opt {
        Some(s) => parsed_usize(s),
        None => None,
    }
}

fn parse_arg(opt: &Option<String>) -> (r: Option<usize>)
    ensures
        r == parsed_arg(opt_view(*opt)),
{
    match opt {
        Some(s) => parse_usize(s.as_str()),
        None => None,
    }
}

/// The view of an optional string.
pub open spec fn opt_view(o: Option<String>) -> Option<Seq<char>> {
    match o {
        Some(s) => Some(s@),
        None => None,
    }
}

// ── read_file ─────────────────────────────────────────────────────────────

/// Most lines one `read_file` call returns.
pub const MAX_READ_LINES: usize = 500;

/// The arguments of `read_file`: a path, then optional first and last line
/// numbers (`splitn(3, ' ')` of the trimmed text); `None` without a path.
pub open spec fn read_args(args: Seq<char>) -> Option<(Seq<char>, Option<Seq<char>>, Option<Seq<char>>)> {
    let t = trim(args);
    let parts: (Seq<char>, Option<Seq<char>>, Option<Seq<char>>) = match find(t, seq![' ']) {
        None => (t, None, None),
        Some(i) => {
            let r = t.skip(i + 1);
            match find(r, seq![' ']) {
                None => (t.take(i), Some(r), None),
                Some(j) => (t.take(i), Some(r.take(j)), Some(r.skip(j + 1))),
            }
        },
    };
    if parts.0.len() == 0 {
        None
    } else {
        Some(parts)
    }
}

fn find_space(s: &[char]) -> (r: Option<usize>)
    ensures
        match r {
            Some(i) => find(s@, seq![' ']) == Some(i as int) && i < s@.len(),
            None => find(s@, seq![' ']) is None,
        },
{
    let sp = vec![' '];
    assert(sp@ == seq![' ']);
    proof {
        lemma_find_from_spec(s@, sp@, 0);
    }
    let r = find_from_exec(s, sp.as_slice(), 0);
    proof {
        if let Some(i) = r {
            lemma_find_from_is(s@, sp@, 0, i as int);
            assert(matches_at(s@, sp@, i as int));
        }
    }
    r
}

/// Splits the arguments of `read_file`.
pub fn split_read_args(args: &str) -> (r: Option<(String, Option<String>, Option<String>)>)
    ensures
        match r {
            Some((p, a, b)) => read_args(args@) == Some((p@, opt_view(a), opt_view(b))),
            None => read_args(args@) is None,
        },
{
    let cs = chars_of(args);
    let (ta, tb) = trim_bounds(cs.as_slice());
    let t = slice_to_vec(cs.as_slice(), ta, tb);
    let n = t.len();
    let (p, a, b) = match find_space(t.as_slice()) {
        None => (string_from_chars(t.as_slice()), None, None),
        Some(i) => {
            let r = slice_to_vec(t.as_slice(), i + 1, n);
            assert(r@ =~= t@.skip(i + 1));
            let m = r.len();
            match find_space(r.as_slice()) {
                None => {
                    let p = slice_to_vec(t.as_slice(), 0, i);
                    assert(p@ =~= t@.take(i as int));
                    (string_from_chars(p.as_slice()), Some(string_from_chars(r.as_slice())), None)
                },
                Some(j) => {
                    let p = slice_to_vec(t.as_slice(), 0, i);
                    let x = slice_to_vec(r.as_slice(), 0, j);
                    let y = slice_to_vec(r.as_slice(), j + 1, m);
                    assert(p@ =~= t@.take(i as int));
                    assert(x@ =~= r@.take(j as int));
                    assert(y@ =~= r@.skip(j + 1));
                    (
                        string_from_chars(p.as_slice()),
                        Some(string_from_chars(x.as_slice())),
                        Some(string_from_chars(y.as_slice())),
                    )
                },
            }
        },
    };
    if p.as_str().is_empty() {
        None
    } else {
        Some((p, a, b))
    }
}

/// `n` right-aligned in a field four characters wide (`{:4}`).
pub open spec fn pad4(n: nat) -> Seq<char> {
    let d = decimal(n);
    if d.len() < 4 {
        Seq::new((4 - d.len()) as nat, |i: int| ' ') + d
    } else {
        d
    }
}

/// `ls` with line numbers, the first numbered `first`.
pub open spec fn numbered(ls: Seq<Seq<char>>, first: nat) -> Seq<Seq<char>> {
    Seq::new(ls.len(), |i: int| pad4((first + i) as nat) + " | "@ + ls[i])
}

/// The first line index shown by `read_file`.
pub open spec fn window_start(total: nat, a: Option<Seq<char>>) -> nat {
    match parsed_arg(a) {
        Some(n) => {
            let s = sat_sub(n as nat, 1);
            if s < total { s } else { total }
        },
        None => 0,
    }
}

/// The line index just past the requested range of `read_file`.
pub open spec fn window_end(total: nat, a: Option<Seq<char>>, b: Option<Seq<char>>) -> nat {
    let e = match parsed_arg(b) {
        Some(n) => if (n as nat) < total { n as nat } else { total },
        None => total,
    };
    let s = window_start(total, a);
    if e > s { e } else { s }
}

/// The line index just past the lines `read_file` shows.
pub open spec fn window_cap(total: nat, a: Option<Seq<char>>, b: Option<Seq<char>>) -> nat {
    let s = window_start(total, a);
    let e = window_end(total, a, b);
    if e - s > MAX_READ_LINES { (s + MAX_READ_LINES) as nat } else { e }
}

/// What `read_file` returns for the file `label` holding `content`, asked
/// for lines from `a` to `b`: a header with the line count, the numbered
/// lines, and how to read on when the window was capped.
pub open spec fn read_listing(label: Seq<char>, content: Seq<char>, a: Option<Seq<char>>, b: Option<Seq<char>>) -> Seq<char> {
    let ls = lines(content);
    let total = ls.len();
    let s = window_start(total, a);
    let e = window_end(total, a, b);
    let c = window_cap(total, a, b);
    let body = join(numbered(ls.subrange(s as int, c as int), s + 1), seq!['\n']);
    let more = if c < e {
        "\n[... "@ + decimal((e - c) as nat) + " more lines — use: read_file "@ + label + " "@
            + decimal(c + 1) + " "@ + decimal(e) + "]"@
    } else {
        Seq::empty()
    };
    label + " ("@ + decimal(total) + " lines)\n"@ + body + more
}

/// `read_file` on a bare path: the path is all its arguments, and the
/// listing holds the header with the line count, the first 500 lines
/// numbered from 1, and, for a longer file, how to read on from line 501.
pub proof fn lemma_read_whole_file(p: Seq<char>, t: Seq<char>)
    requires
        p.len() > 0,
        trim(p) == p,
        forall|i: int| 0 <= i < p.len() ==> p[i] != ' ',
    ensures
        read_args(p) == Some((p, None::<Seq<char>>, None::<Seq<char>>)),
        ({
            let ls = lines(t);
            let n = ls.len();
            let shown: nat = if n > MAX_READ_LINES { MAX_READ_LINES as nat } else { n };
            read_listing(p, t, None, None) == p + " ("@ + decimal(n) + " lines)\n"@ + join(
                numbered(ls.take(shown as int), 1),
                seq!['\n'],
            ) + if n > MAX_READ_LINES {
                "\n[... "@ + decimal((n - MAX_READ_LINES) as nat) + " more lines — use: read_file "@ + p + " "@
                    + decimal(501) + " "@ + decimal(n) + "]"@
            } else {
                Seq::<char>::empty()
            }
        }),
{
    lemma_find_from_spec(p, seq![' '], 0);
    assert forall|j: int| 0 <= j implies !matches_at(p, seq![' '], j) by {
        if matches_at(p, seq![' '], j) {
            assert(p[j] == seq![' '][0]);
        }
    }
    let ls = lines(t);
    let n = ls.len();
    let shown: nat = if n > MAX_READ_LINES { MAX_READ_LINES as nat } else { n };
    assert(ls.subrange(0, shown as int) =~= ls.take(shown as int));
}

fn pad4_exec(n: u64) -> (r: Vec<char>)
    ensures
        r@ == pad4(n as nat),
{
    let d = u64_to_decimal(n);
    let dc = chars_of(d.as_str());
    let mut r: Vec<char> = Vec::new();
    let len = dc.len();
    if len < 4 {
        let mut k: usize = 0;
        while k < 4 - len
            invariant
                k <= 4 - len,
                len == dc@.len(),
                len < 4,
                r@ == Seq::new(k as nat, |i: int| ' '),
            decreases 4 - len - k,
        {
            r.push(' ');
            assert(r@ =~= Seq::new((k + 1) as nat, |i: int| ' '));
            k += 1;
        }
    } else {
        assert(r@ =~= Seq::<char>::empty());
    }
    extend_chars(&mut r, dc.as_slice());
    proof {
        if len >= 4 {
            assert(Seq::<char>::empty() + dc@ =~= dc@);
        }
    }
    r
}

fn read_window(total: usize, a: &Option<String>, b: &Option<String>) -> (w: (usize, usize, usize))
    ensures
        w.0 == window_start(total as nat, opt_view(*a)),
        w.1 == window_end(total as nat, opt_view(*a), opt_view(*b)),
        w.2 == window_cap(total as nat, opt_view(*a), opt_view(*b)),
        w.0 <= w.2 <= w.1 <= total,
{
    let start = match parse_arg(a) {
        Some(n) => {
            let s = if n > 0 {
                n - 1
            } else {
                0
            };
            if s < total {
                s
            } else {
                total
            }
        },
        None => 0,
    };
    let e0 = match parse_arg(b) {
        Some(n) => if n < total {
            n
        } else {
            total
        },
        None => total,
    };
    let end = if e0 > start {
        e0
    } else {
        start
    };
    let cap = if end - start > MAX_READ_LINES {
        start + MAX_READ_LINES
    } else {
        end
    };
    (start, end, cap)
}

fn numbered_rows(all: &Vec<Vec<char>>, start: usize, cap: usize) -> (rows: Vec<Vec<char>>)
    requires
        start <= cap <= all@.len(),
    ensures
        views(rows@) == numbered(views(all@).subrange(start as int, cap as int), (start + 1) as nat),
{
    let ghost ls = views(all@);
    let mut rows: Vec<Vec<char>> = Vec::new();
    let mut i: usize = start;
    while i < cap
        invariant
            start <= i <= cap <= all@.len(),
            ls == views(all@),
            views(rows@) == numbered(ls.subrange(start as int, i as int), (start + 1) as nat),
        decreases cap - i,
    {
        let mut row = pad4_exec((i + 1) as u64);
        extend_str(&mut row, " | ");
        extend_chars(&mut row, all[i].as_slice());
        proof {
            assert(ls[i as int] == all@[i as int]@);
            assert(views(rows@.push(row)) =~= views(rows@).push(row@));
            assert(numbered(ls.subrange(start as int, i + 1), (start + 1) as nat) =~= numbered(
                ls.subrange(start as int, i as int),
                (start + 1) as nat,
            ).push(row@));
        }
        rows.push(row);
        i += 1;
    }
    rows
}

fn more_note(label: &str, end: usize, cap: usize) -> (r: Vec<char>)
    requires
        cap < end,
    ensures
        r@ == "\n[... "@ + decimal((end - cap) as nat) + " more lines — use: read_file "@ + label@ + " "@
            + decimal((cap + 1) as nat) + " "@ + decimal(end as nat) + "]"@,
{
    let mut out: Vec<char> = Vec::new();
    extend_str(&mut out, "\n[... ");
    let m = u64_to_decimal((end - cap) as u64);
    extend_str(&mut out, m.as_str());
    extend_str(&mut out, " more lines — use: read_file ");
    extend_str(&mut out, label);
    extend_str(&mut out, " ");
    let c1 = u64_to_decimal((cap + 1) as u64);
    extend_str(&mut out, c1.as_str());
    extend_str(&mut out, " ");
    let en = u64_to_decimal(end as u64);
    extend_str(&mut out, en.as_str());
    extend_str(&mut out, "]");
    assert(out@ =~= "\n[... "@ + decimal((end - cap) as nat) + " more lines — use: read_file "@ + label@
        + " "@ + decimal((cap + 1) as nat) + " "@ + decimal(end as nat) + "]"@);
    out
}

/// The listing `read_file` returns for the file `label` holding `content`,
/// given its optional first and last line arguments.
pub fn render_read(label: &str, content: &str, a: Option<String>, b: Option<String>) -> (r: String)
    ensures
        r@ == read_listing(label@, content@, opt_view(a), opt_view(b)),
{
    let cs = chars_of(content);
    let all = lines_exec(cs.as_slice());
    let total = all.len();
    let (start, end, cap) = read_window(total, &a, &b);
    let rows = numbered_rows(&all, start, cap);
    let mut out: Vec<char> = Vec::new();
    extend_str(&mut out, label);
    extend_str(&mut out, " (");
    let t = u64_to_decimal(total as u64);
    extend_str(&mut out, t.as_str());
    extend_str(&mut out, " lines)\n");
    let ghost head = out@;
    assert(head =~= label@ + " ("@ + decimal(total as nat) + " lines)\n"@);
    let sep = vec!['\n'];
    assert(sep@ == seq!['\n']);
    join_into(&mut out, &rows, sep.as_slice());
    let ghost body = join(views(rows@), seq!['\n']);
    if cap < end {
        let note = more_note(label, end, cap);
        extend_chars(&mut out, note.as_slice());
    } else {
        assert(out@ + Seq::<char>::empty() =~= out@);
    }
    assert(lines(content@) == views(all@));
    string_from_chars(out.as_slice())
}

// ── write_file / edit_file ────────────────────────────────────────────────

/// The arguments of `write_file`: the trimmed path on the first line, and
/// everything after it as the content.
pub open spec fn write_args(args: Seq<char>) -> Option<(Seq<char>, Seq<char>)> {
    match find(args, seq!['\n']) {
        Some(i) => Some((trim(args.take(i)), args.skip(i + 1))),
        None => None,
    }
}

fn find_newline(s: &[char]) -> (r: Option<usize>)
    ensures
        match r {
            Some(i) => find(s@, seq!['\n']) == Some(i as int) && i < s@.len(),
            None => find(s@, seq!['\n']) is None,
        },
{
    let nl = vec!['\n'];
    assert(nl@ == seq!['\n']);
    proof {
        lemma_find_from_spec(s@, nl@, 0);
    }
    let r = find_from_exec(s, nl.as_slice(), 0);
    proof {
        if let Some(i) = r {
            lemma_find_from_is(s@, nl@, 0, i as int);
            assert(matches_at(s@, nl@, i as int));
        }
    }
    r
}

/// Splits the arguments of `write_file` into path and content; `None`
/// without a newline.
pub fn split_write_args(args: &str) -> (r: Option<(String, String)>)
    ensures
        match r {
            Some((p, c)) => write_args(args@) == Some((p@, c@)),
            None => write_args(args@) is None,
        },
{
    let cs = chars_of(args);
    let n = cs.len();
    match find_newline(cs.as_slice()) {
        None => None,
        Some(i) => {
            let first = slice_to_vec(cs.as_slice(), 0, i);
            let (a, b) = trim_bounds(first.as_slice());
            let path = slice_to_vec(first.as_slice(), a, b);
            let content = slice_to_vec(cs.as_slice(), i + 1, n);
            assert(first@ =~= args@.take(i as int));
            assert(content@ =~= args@.skip(i + 1));
            Some((string_from_chars(path.as_slice()), string_from_chars(content.as_slice())))
        },
    }
}

/// Why the arguments of `edit_file` were refused.
#[derive(PartialEq, Eq, Structural, Clone, Copy, Debug)]
pub enum EditError {
    /// No newline after the path.
    Usage,
    /// No `<<<FIND` marker line.
    MissingFind,
    /// No `<<<REPLACE` marker line.
    MissingReplace,
    /// The `<<<REPLACE` marker comes before the end of the `<<<FIND` one.
    ReplaceBeforeFind,
}

/// The arguments of `edit_file`: the trimmed path on the first line, then
/// the text between the `<<<FIND` and `<<<REPLACE` marker lines, and the
/// text after the latter.
pub open spec fn edit_args(args: Seq<char>) -> Result<(Seq<char>, Seq<char>, Seq<char>), EditError> {
    match find(args, seq!['\n']) {
        None => Err(EditError::Usage),
        Some(i) => {
            let rest = args.skip(i + 1);
            match find(rest, "<<<FIND\n"@) {
                None => Err(EditError::MissingFind),
                Some(f) => {
                    let fi = f + "<<<FIND\n"@.len();
                    match find(rest, "<<<REPLACE\n"@) {
                        None => Err(EditError::MissingReplace),
                        Some(ri) => if ri < fi {
                            Err(EditError::ReplaceBeforeFind)
                        } else {
                            Ok(
                                (
                                    trim(args.take(i)),
                                    rest.subrange(fi, ri),
                                    rest.skip(ri + "<<<REPLACE\n"@.len()),
                                ),
                            )
                        },
                    }
                },
            }
        },
    }
}

fn find_lit(s: &[char], lit: &str) -> (r: Option<usize>)
    ensures
        match r {
            Some(i) => find(s@, lit@) == Some(i as int) && i + lit@.len() <= s@.len(),
            None => find(s@, lit@) is None,
        },
{
    let p = chars_of(lit);
    proof {
        lemma_find_from_spec(s@, p@, 0);
    }
    let r = find_from_exec(s, p.as_slice(), 0);
    proof {
        if let Some(i) = r {
            lemma_find_from_is(s@, p@, 0, i as int);
            assert(matches_at(s@, p@, i as int));
        }
    }
    r
}

/// Splits the arguments of `edit_file` into path, text to find and its
/// replacement.
pub fn parse_edit(args: &str) -> (r: Result<(String, String, String), EditError>)
    ensures
        match r {
            Ok((p, o, n)) => edit_args(args@) == Ok::<(Seq<char>, Seq<char>, Seq<char>), EditError>((p@, o@, n@)),
            Err(e) => edit_args(args@) == Err::<(Seq<char>, Seq<char>, Seq<char>), EditError>(e),
        },
{
    let cs = chars_of(args);
    let n = cs.len();
    let i = match find_newline(cs.as_slice()) {
        None => return Err(EditError::Usage),
        Some(i) => i,
    };
    let rest = slice_to_vec(cs.as_slice(), i + 1, n);
    assert(rest@ =~= args@.skip(i + 1));
    let m = rest.len();
    let find_marker = chars_of("<<<FIND\n");
    let f = match find_lit(rest.as_slice(), "<<<FIND\n") {
        None => return Err(EditError::MissingFind),
        Some(f) => f,
    };
    let fi = f + find_marker.len();
    let replace_marker = chars_of("<<<REPLACE\n");
    let ri = match find_lit(rest.as_slice(), "<<<REPLACE\n") {
        None => return Err(EditError::MissingReplace),
        Some(ri) => ri,
    };
    if ri < fi {
        return Err(EditError::ReplaceBeforeFind);
    }
    let first = slice_to_vec(cs.as_slice(), 0, i);
    assert(first@ =~= args@.take(i as int));
    let (a, b) = trim_bounds(first.as_slice());
    let path = slice_to_vec(first.as_slice(), a, b);
    let old = slice_to_vec(rest.as_slice(), fi, ri);
    let new = slice_to_vec(rest.as_slice(), ri + replace_marker.len(), m);
    assert(new@ =~= rest@.skip(ri + "<<<REPLACE\n"@.len()));
    Ok((
        string_from_chars(path.as_slice()),
        string_from_chars(old.as_slice()),
        string_from_chars(new.as_slice()),
    ))
}

impl EditError {
    /// The message `edit_file` answers with.
    pub open spec fn text(self) -> Seq<char> {
        match self {
            EditError::Usage => "error: usage: edit_file <path>\\n<<<FIND\\n<old>\\n<<<REPLACE\\n<new>"@,
            EditError::MissingFind => "error: missing <<<FIND marker"@,
            EditError::MissingReplace => "error: missing <<<REPLACE marker"@,
            EditError::ReplaceBeforeFind => "error: <<<REPLACE must come after <<<FIND"@,
        }
    }

    /// The message `edit_file` answers with.
    pub fn message(&self) -> (r: String)
        ensures
            r@ == self.text(),
    {
        match self {
            EditError::Usage => String::from_str(
                "error: usage: edit_file <path>\\n<<<FIND\\n<old>\\n<<<REPLACE\\n<new>",
            ),
            EditError::MissingFind => String::from_str("error: missing <<<FIND marker"),
            EditError::MissingReplace => String::from_str("error: missing <<<REPLACE marker"),
            EditError::ReplaceBeforeFind => String::from_str(
                "error: <<<REPLACE must come after <<<FIND",
            ),
        }
    }
}

/// `content` with its first occurrence of `old` replaced by `new`
/// (`replacen(old, new, 1)`), or `None` when `old` does not occur.
pub open spec fn replaced_once(content: Seq<char>, old: Seq<char>, new: Seq<char>) -> Option<Seq<char>> {
    match find(content, old) {
        Some(i) => Some(content.take(i) + new + content.skip(i + old.len())),
        None => None,
    }
}

/// Applies one edit to a file's content; `None` when the text to find does
/// not occur.
pub fn apply_edit(content: &str, old: &str, new: &str) -> (r: Option<String>)
    ensures
        match r {
            Some(c) => replaced_once(content@, old@, new@) == Some(c@),
            None => replaced_once(content@, old@, new@) is None,
        },
{
    let cs = chars_of(content);
    let os = chars_of(old);
    let n = cs.len();
    match find_lit(cs.as_slice(), old) {
        None => None,
        Some(i) => {
            let mut out = slice_to_vec(cs.as_slice(), 0, i);
            extend_str(&mut out, new);
            let tail = slice_to_vec(cs.as_slice(), i + os.len(), n);
            extend_chars(&mut out, tail.as_slice());
            assert(out@ =~= content@.take(i as int) + new@ + content@.skip(i + old@.len()));
            Some(string_from_chars(out.as_slice()))
        },
    }
}

/// What `edit_file` answers about the file `p` once the edit is written.
pub fn edit_applied(p: &str) -> (r: String)
    ensures
        r@ == "Edit applied to "@ + p@,
{
    let mut v: Vec<char> = Vec::new();
    extend_str(&mut v, "Edit applied to ");
    extend_str(&mut v, p);
    string_from_chars(v.as_slice())
}

/// What `edit_file` answers when the text to find is not in the file `p`.
pub fn edit_not_found(p: &str) -> (r: String)
    ensures
        r@ == "error: old string not found in "@ + p@ + " — verify exact whitespace and newlines"@,
{
    let mut v: Vec<char> = Vec::new();
    extend_str(&mut v, "error: old string not found in ");
    extend_str(&mut v, p);
    extend_str(&mut v, " — verify exact whitespace and newlines");
    string_from_chars(v.as_slice())
}

proof fn lemma_first_newline(p: Seq<char>, x: Seq<char>)
    requires
        forall|i: int| 0 <= i < p.len() ==> p[i] != '\n',
        x.len() > 0,
        x[0] == '\n',
    ensures
        find(p + x, seq!['\n']) == Some(p.len() as int),
{
    let args = p + x;
    let n = p.len() as int;
    assert(matches_at(args, seq!['\n'], n)) by {
        assert(args.subrange(n, n + 1) =~= seq!['\n']);
    }
    assert forall|j: int| 0 <= j < n implies !#[trigger] matches_at(args, seq!['\n'], j) by {
        if matches_at(args, seq!['\n'], j) {
            assert(args.subrange(j, j + 1)[0] == args[j]);
            assert(args[j] == p[j]);
        }
    }
    lemma_find_from_is(args, seq!['\n'], 0, n);
}

#[verifier::rlimit(50)]
proof fn lemma_replace_marker(old: Seq<char>, new: Seq<char>)
    requires
        !crate::text::contains(old, "<<<REPLACE\n"@),
    ensures
        find("<<<FIND\n"@ + old + "<<<REPLACE\n"@ + new, "<<<REPLACE\n"@) == Some(8 + old.len() as int),
        find("<<<FIND\n"@ + old + "<<<REPLACE\n"@ + new, "<<<FIND\n"@) == Some(0int),
{
    reveal_strlit("<<<FIND\n");
    reveal_strlit("<<<REPLACE\n");
    let fm = "<<<FIND\n"@;
    let rm = "<<<REPLACE\n"@;
    let rest = fm + old + rm + new;
    assert(matches_at(rest, fm, 0)) by {
        assert(rest.subrange(0, 8) =~= fm);
    }
    lemma_find_from_is(rest, fm, 0, 0);
    let q: int = 8 + old.len() as int;
    assert(matches_at(rest, rm, q)) by {
        assert(rest.subrange(q, q + 11) =~= rm);
    }
    assert forall|j: int| 0 <= j < q implies !#[trigger] matches_at(rest, rm, j) by {
        if matches_at(rest, rm, j) {
            let w = rest.subrange(j, j + 11);
            assert(w == rm);
            if j < 8 {
                assert(w[7 - j] == rest[7]);
                assert(rest[7] == '\n');
            } else if j + 11 <= q {
                assert(old.subrange(j - 8, j - 8 + 11) =~= w);
                assert(matches_at(old, rm, j - 8));
            } else {
                let d = q - j;
                assert(w[d] == rest[q]);
                assert(rest[q] == '<');
                assert(w[d + 3] == rest[q + 3]);
                assert(rest[q + 3] == 'R');
            }
        }
    }
    lemma_find_from_is(rest, rm, 0, q);
}

/// `edit_file` called with a path, a text to find and its replacement in
/// the documented form reads them back as they were written, provided the
/// path has no surrounding whitespace and no newline and the text to find
/// holds no `<<<REPLACE` marker line; the edit then replaces the first
/// occurrence of that text, and only when there is one.
pub proof fn lemma_edit_file(p: Seq<char>, old: Seq<char>, new: Seq<char>, t: Seq<char>)
    requires
        trim(p) == p,
        forall|i: int| 0 <= i < p.len() ==> p[i] != '\n',
        !crate::text::contains(old, "<<<REPLACE\n"@),
    ensures
        edit_args(p + "\n"@ + "<<<FIND\n"@ + old + "<<<REPLACE\n"@ + new) == Ok::<
            (Seq<char>, Seq<char>, Seq<char>),
            EditError,
        >((p, old, new)),
        replaced_once(t, old, new) is Some <==> crate::text::contains(t, old),
        replaced_once(t, old, new) matches Some(r) ==> (find(t, old) matches Some(i) && r == t.take(i) + new
            + t.skip(i + old.len())),
{
    reveal_strlit("\n");
    reveal_strlit("<<<FIND\n");
    reveal_strlit("<<<REPLACE\n");
    let rest = "<<<FIND\n"@ + old + "<<<REPLACE\n"@ + new;
    let args = p + "\n"@ + "<<<FIND\n"@ + old + "<<<REPLACE\n"@ + new;
    let n = p.len() as int;
    assert(args =~= p + ("\n"@ + rest));
    lemma_first_newline(p, "\n"@ + rest);
    assert(args.skip(n + 1) =~= rest);
    assert(args.take(n) =~= p);
    lemma_replace_marker(old, new);
    let q: int = 8 + old.len() as int;
    assert(rest.subrange(8, q) =~= old);
    assert(rest.skip(q + 11) =~= new);
    lemma_find_from_spec(t, old, 0);
}

// ── grep_files / glob_files ───────────────────────────────────────────────

/// The arguments of `grep_files`: the pattern up to the first space, then
/// the trimmed search path (`.` when absent or blank).
pub open spec fn grep_args(args: Seq<char>) -> (Seq<char>, Seq<char>) {
    match find(args, seq![' ']) {
        None => (args, "."@),
        Some(i) => {
            let p = trim(args.skip(i + 1));
            (args.take(i), if p.len() == 0 { "."@ } else { p })
        },
    }
}

/// Splits the arguments of `grep_files` into pattern and search path.
pub fn split_grep_args(args: &str) -> (r: (String, String))
    ensures
        (r.0@, r.1@) == grep_args(args@),
{
    let cs = chars_of(args);
    let n = cs.len();
    match find_space(cs.as_slice()) {
        None => (String::from_str(args), String::from_str(".")),
        Some(i) => {
            let pat = slice_to_vec(cs.as_slice(), 0, i);
            let rest = slice_to_vec(cs.as_slice(), i + 1, n);
            assert(pat@ =~= args@.take(i as int));
            assert(rest@ =~= args@.skip(i + 1));
            let (a, b) = trim_bounds(rest.as_slice());
            let path = if a == b {
                String::from_str(".")
            } else {
                let t = slice_to_vec(rest.as_slice(), a, b);
                string_from_chars(t.as_slice())
            };
            (string_from_chars(pat.as_slice()), path)
        },
    }
}

/// The file-name pattern of `glob_files`: the last `/` component of the
/// trimmed argument.
pub fn glob_name(pattern: &str) -> (r: String)
    ensures
        r@ == basename(trim(pattern@)),
{
    let cs = chars_of(pattern);
    let (a, b) = trim_bounds(cs.as_slice());
    let t = slice_to_vec(cs.as_slice(), a, b);
    let base = basename_exec(t.as_slice());
    string_from_chars(base.as_slice())
}

// ── ordering of file lists ────────────────────────────────────────────────

/// `a` sorts strictly before `b` (the order of `str`, char by char).
pub open spec fn lex_lt(a: Seq<char>, b: Seq<char>) -> bool
    decreases a.len(),
{
    if a.len() == 0 {
        b.len() > 0
    } else if b.len() == 0 {
        false
    } else if a[0] != b[0] {
        a[0] < b[0]
    } else {
        lex_lt(a.drop_first(), b.drop_first())
    }
}

/// `a` sorts before `b` or equals it.
pub open spec fn lex_le(a: Seq<char>, b: Seq<char>) -> bool {
    a == b || lex_lt(a, b)
}

/// `s` is in ascending order.
pub open spec fn sorted_lex(s: Seq<Seq<char>>) -> bool {
    forall|i: int, j: int| 0 <= i < j < s.len() ==> lex_le(#[trigger] s[i], #[trigger] s[j])
}

/// Two different strings are ordered one way or the other.
pub proof fn lemma_lex_total(a: Seq<char>, b: Seq<char>)
    ensures
        a == b || lex_lt(a, b) || lex_lt(b, a),
    decreases a.len(),
{
    if a.len() > 0 && b.len() > 0 && a[0] == b[0] {
        lemma_lex_total(a.drop_first(), b.drop_first());
        if a.drop_first() == b.drop_first() {
            assert(a =~= seq![a[0]] + a.drop_first());
            assert(b =~= seq![b[0]] + b.drop_first());
        }
    } else if a.len() == 0 && b.len() == 0 {
        assert(a =~= b);
    }
}

/// The order is transitive.
pub proof fn lemma_lex_trans(a: Seq<char>, b: Seq<char>, c: Seq<char>)
    requires
        lex_lt(a, b),
        lex_lt(b, c),
    ensures
        lex_lt(a, c),
    decreases a.len(),
{
    if a.len() > 0 && b.len() > 0 && c.len() > 0 && a[0] == b[0] && b[0] == c[0] {
        lemma_lex_trans(a.drop_first(), b.drop_first(), c.drop_first());
    }
}

/// The order is irreflexive.
pub proof fn lemma_lex_irrefl(a: Seq<char>)
    ensures
        !lex_lt(a, a),
    decreases a.len(),
{
    if a.len() > 0 {
        lemma_lex_irrefl(a.drop_first());
    }
}

pub(crate) fn lex_lt_exec(a: &[char], b: &[char]) -> (r: bool)
    ensures
        r == lex_lt(a@, b@),
{
    let mut i: usize = 0;
    assert(a@.skip(0) =~= a@);
    assert(b@.skip(0) =~= b@);
    loop
        invariant
            i <= a@.len(),
            i <= b@.len(),
            lex_lt(a@, b@) == lex_lt(a@.skip(i as int), b@.skip(i as int)),
        decreases a@.len() - i,
    {
        if i == a.len() {
            return i < b.len();
        }
        if i == b.len() {
            return false;
        }
        assert(a@.skip(i as int)[0] == a@[i as int]);
        assert(b@.skip(i as int)[0] == b@[i as int]);
        if a[i] != b[i] {
            return a[i] < b[i];
        }
        assert(a@.skip(i as int).drop_first() =~= a@.skip(i + 1));
        assert(b@.skip(i as int).drop_first() =~= b@.skip(i + 1));
        i += 1;
    }
}

/// `v` in ascending order.
pub fn sort_lines(v: Vec<Vec<char>>) -> (r: Vec<Vec<char>>)
    ensures
        sorted_lex(views(r@)),
        views(r@).to_multiset() == views(v@).to_multiset(),
{
    let mut out: Vec<Vec<char>> = Vec::new();
    let mut i: usize = 0;
    assert(views(v@).take(0) =~= Seq::<Seq<char>>::empty());
    assert(views(out@) =~= Seq::<Seq<char>>::empty());
    while i < v.len()
        invariant
            i <= v@.len(),
            sorted_lex(views(out@)),
            views(out@).to_multiset() == views(v@).take(i as int).to_multiset(),
        decreases v.len() - i,
    {
        let mut x: Vec<char> = Vec::new();
        extend_chars(&mut x, v[i].as_slice());
        assert(x@ =~= v@[i as int]@);
        let mut p: usize = 0;
        while p < out.len() && !lex_lt_exec(x.as_slice(), out[p].as_slice())
            invariant
                p <= out@.len(),
                forall|k: int| 0 <= k < p ==> !lex_lt(x@, #[trigger] views(out@)[k]),
            decreases out.len() - p,
        {
            assert(views(out@)[p as int] == out@[p as int]@);
            p += 1;
        }
        let ghost old_out = views(out@);
        proof {
            if p < out@.len() {
                assert(views(out@)[p as int] == out@[p as int]@);
                assert(lex_lt(x@, old_out[p as int]));
            }
        }
        out.insert(p, x);
        proof {
            let nw = views(out@);
            assert(nw =~= old_out.insert(p as int, x@));
            assert forall|a: int, b: int| 0 <= a < b < nw.len() implies lex_le(
                #[trigger] nw[a],
                #[trigger] nw[b],
            ) by {
                if b == p {
                    assert(!lex_lt(x@, old_out[a]));
                    lemma_lex_total(x@, old_out[a]);
                } else if a == p {
                    assert(lex_lt(x@, old_out[p as int]));
                    assert(lex_le(old_out[p as int], old_out[b - 1]));
                    if old_out[p as int] != old_out[b - 1] {
                        lemma_lex_trans(x@, old_out[p as int], old_out[b - 1]);
                    }
                } else {
                    let a0 = if a < p { a } else { a - 1 };
                    let b0 = if b < p { b } else { b - 1 };
                    assert(nw[a] == old_out[a0]);
                    assert(nw[b] == old_out[b0]);
                }
            }
            vstd::seq_lib::to_multiset_insert(old_out, p as int, x@);
            assert(views(v@).take(i + 1) =~= views(v@).take(i as int).push(x@));
            vstd::seq_lib::to_multiset_build(views(v@).take(i as int), x@);
            assert(views(v@)[i as int] == v@[i as int]@);
        }
        i += 1;
    }
    assert(views(v@).take(v@.len() as int) =~= views(v@));
    out
}

/// What `glob_files` reports for the raw output `out` of the file search.
pub open spec fn glob_report(out: Seq<char>, r: Seq<char>) -> bool {
    if trim(out).len() == 0 {
        r == "No files matched."@
    } else {
        exists|ls: Seq<Seq<char>>|
            sorted_lex(ls) && ls.to_multiset() == lines(out).to_multiset() && r == join(ls, seq!['\n'])
    }
}

/// `s` has no newline.
pub open spec fn one_line(s: Seq<char>) -> bool {
    forall|i: int| 0 <= i < s.len() ==> s[i] != '\n'
}

proof fn lemma_no_newline_find(s: Seq<char>)
    requires
        one_line(s),
    ensures
        find(s, seq!['\n']) is None,
{
    lemma_find_from_spec(s, seq!['\n'], 0);
    if find(s, seq!['\n']) is Some {
        let k = find(s, seq!['\n'])->0;
        assert(s.subrange(k, k + 1)[0] == s[k]);
    }
}

proof fn lemma_lines_one_line(s: Seq<char>)
    ensures
        forall|i: int| 0 <= i < lines(s).len() ==> one_line(#[trigger] lines(s)[i]),
    decreases s.len(),
{
    if s.len() > 0 {
        lemma_find_from_spec(s, seq!['\n'], 0);
        match find(s, seq!['\n']) {
            None => {
                assert forall|j: int| 0 <= j < s.len() implies s[j] != '\n' by {
                    if s[j] == '\n' {
                        assert(s.subrange(j, j + 1) =~= seq!['\n']);
                        assert(matches_at(s, seq!['\n'], j));
                    }
                }
            },
            Some(k) => {
                if 0 <= k < s.len() {
                    lemma_lines_one_line(s.skip(k + 1));
                    assert forall|j: int| 0 <= j < k implies s.take(k)[j] != '\n' by {
                        if s[j] == '\n' {
                            assert(s.subrange(j, j + 1) =~= seq!['\n']);
                            assert(matches_at(s, seq!['\n'], j));
                        }
                    }
                    let l = lines(s);
                    assert forall|i: int| 0 <= i < l.len() implies one_line(#[trigger] l[i]) by {
                        if i > 0 {
                            assert(l[i] == lines(s.skip(k + 1))[i - 1]);
                        }
                    }
                } else {
                    assert forall|j: int| 0 <= j < s.len() implies s[j] != '\n' by {
                        if s[j] == '\n' {
                            assert(s.subrange(j, j + 1) =~= seq!['\n']);
                            assert(matches_at(s, seq!['\n'], j));
                        }
                    }
                }
            },
        }
    }
}

proof fn lemma_join_front(ls: Seq<Seq<char>>, sep: Seq<char>)
    requires
        ls.len() >= 2,
    ensures
        join(ls, sep) == ls[0] + sep + join(ls.drop_first(), sep),
    decreases ls.len(),
{
    if ls.len() == 2 {
        assert(ls.drop_last().len() == 1);
        assert(ls.drop_first().len() == 1);
        assert(join(ls.drop_last(), sep) == ls[0]);
        assert(join(ls.drop_first(), sep) == ls[1]);
    } else {
        lemma_join_front(ls.drop_last(), sep);
        assert(ls.drop_last().drop_first() =~= ls.drop_first().drop_last());
        assert(ls.drop_first().last() == ls.last());
        let jm = join(ls.drop_first().drop_last(), sep);
        assert(join(ls.drop_first(), sep) == jm + sep + ls.last());
        assert(join(ls, sep) == (ls[0] + sep + jm) + sep + ls.last());
        assert((ls[0] + sep + jm) + sep + ls.last() =~= ls[0] + sep + (jm + sep + ls.last()));
    }
}

/// Splitting lines joined by newlines at the newlines gives them back.
proof fn lemma_split_join(ls: Seq<Seq<char>>)
    requires
        ls.len() > 0,
        forall|i: int| 0 <= i < ls.len() ==> one_line(#[trigger] ls[i]),
    ensures
        crate::text::split_char(join(ls, seq!['\n']), '\n') == ls,
    decreases ls.len(),
{
    if ls.len() == 1 {
        assert(one_line(ls[0]));
        lemma_no_newline_find(ls[0]);
        assert(seq![ls[0]] =~= ls);
    } else {
        lemma_join_front(ls, seq!['\n']);
        let rest = ls.drop_first();
        assert forall|i: int| 0 <= i < rest.len() implies one_line(#[trigger] rest[i]) by {
            assert(rest[i] == ls[i + 1]);
        }
        lemma_split_join(rest);
        let j = join(ls, seq!['\n']);
        let n = ls[0].len() as int;
        assert(one_line(ls[0]));
        assert(matches_at(j, seq!['\n'], n)) by {
            assert(j.subrange(n, n + 1) =~= seq!['\n']);
        }
        assert forall|k: int| 0 <= k < n implies !#[trigger] matches_at(j, seq!['\n'], k) by {
            if matches_at(j, seq!['\n'], k) {
                assert(j.subrange(k, k + 1)[0] == j[k]);
                assert(j[k] == ls[0][k]);
            }
        }
        lemma_find_from_is(j, seq!['\n'], 0, n);
        assert(j.take(n) =~= ls[0]);
        assert(j.skip(n + 1) =~= join(rest, seq!['\n']));
        assert(seq![ls[0]] + rest =~= ls);
    }
}

/// The report of a file search names no files when the search printed
/// nothing; otherwise, split at its newlines, it is the search's lines in
/// ascending order.
pub proof fn lemma_glob_report(out: Seq<char>, r: Seq<char>)
    requires
        glob_report(out, r),
    ensures
        trim(out).len() == 0 ==> r == "No files matched."@,
        trim(out).len() != 0 ==> ({
            let ls = crate::text::split_char(r, '\n');
            &&& sorted_lex(ls)
            &&& ls.to_multiset() == lines(out).to_multiset()
        }),
{
    if out.len() == 0 {
        assert(trim(out) =~= Seq::<char>::empty());
    }
    if trim(out).len() != 0 {
        assert(out.len() > 0);
        assert(lines(out).len() > 0);
        let ls = choose|ls: Seq<Seq<char>>|
            sorted_lex(ls) && ls.to_multiset() == lines(out).to_multiset() && r == join(ls, seq!['\n']);
        lemma_lines_one_line(out);
        assert forall|i: int| 0 <= i < ls.len() implies one_line(#[trigger] ls[i]) by {
            ls.to_multiset_ensures();
            lines(out).to_multiset_ensures();
            assert(ls.to_multiset().count(ls[i]) > 0);
            assert(lines(out).contains(ls[i]));
        }
        ls.to_multiset_ensures();
        lines(out).to_multiset_ensures();
        assert(lines(out).to_multiset().count(lines(out)[0]) > 0);
        assert(ls.len() > 0) by {
            if ls.len() == 0 {
                assert(ls.to_multiset() =~= vstd::multiset::Multiset::empty());
            }
        }
        lemma_split_join(ls);
    }
}

/// The report of a file search: its lines in ascending order.
pub fn glob_listing(out: &str) -> (r: String)
    ensures
        glob_report(out@, r@),
{
    let cs = chars_of(out);
    let (a, b) = trim_bounds(cs.as_slice());
    if a == b {
        return String::from_str("No files matched.");
    }
    let ls = lines_exec(cs.as_slice());
    let sorted = sort_lines(ls);
    let mut r: Vec<char> = Vec::new();
    let sep = vec!['\n'];
    assert(sep@ == seq!['\n']);
    join_into(&mut r, &sorted, sep.as_slice());
    assert(Seq::<char>::empty() + join(views(sorted@), seq!['\n']) =~= join(views(sorted@), seq!['\n']));
    let s = string_from_chars(r.as_slice());
    assert(sorted_lex(views(sorted@)) && views(sorted@).to_multiset() == lines(out@).to_multiset()
        && s@ == join(views(sorted@), seq!['\n']));
    s
}

// ── tool calls ────────────────────────────────────────────────────────────

/// `s` without all leading `@` characters.
pub open spec fn strip_ats(s: Seq<char>) -> Seq<char>
    decreases s.len(),
{
    if s.len() > 0 && s[0] == '@' {
        strip_ats(s.drop_first())
    } else {
        s
    }
}

fn strip_ats_exec(s: &[char]) -> (r: Vec<char>)
    ensures
        r@ == strip_ats(s@),
{
    let mut i: usize = 0;
    let n = s.len();
    assert(s@.skip(0) =~= s@);
    while i < n && s[i] == '@'
        invariant
            i <= n,
            n == s@.len(),
            strip_ats(s@.skip(i as int)) == strip_ats(s@),
        decreases n - i,
    {
        assert(s@.skip(i as int).drop_first() =~= s@.skip(i + 1));
        i += 1;
    }
    let r = slice_to_vec(s, i, n);
    assert(r@ =~= s@.skip(i as int));
    r
}

/// The command word and the argument text of a tool call: split at the
/// first space, the arguments trimmed and without leading `@`.
pub open spec fn tool_call_parts(call: Seq<char>) -> (Seq<char>, Seq<char>) {
    match find(call, seq![' ']) {
        Some(i) => (call.take(i), strip_ats(trim(call.skip(i + 1)))),
        None => (call, Seq::empty()),
    }
}

/// Splits a tool call into its command word and arguments.
pub fn split_tool_call(call: &str) -> (r: (String, String))
    ensures
        (r.0@, r.1@) == tool_call_parts(call@),
{
    let cs = chars_of(call);
    let n = cs.len();
    match find_space(cs.as_slice()) {
        Some(i) => {
            let cmd = slice_to_vec(cs.as_slice(), 0, i);
            let rest = slice_to_vec(cs.as_slice(), i + 1, n);
            assert(cmd@ =~= call@.take(i as int));
            assert(rest@ =~= call@.skip(i + 1));
            let (a, b) = trim_bounds(rest.as_slice());
            let t = slice_to_vec(rest.as_slice(), a, b);
            let args = strip_ats_exec(t.as_slice());
            (string_from_chars(cmd.as_slice()), string_from_chars(args.as_slice()))
        },
        None => (String::from_str(call), String::new()),
    }
}

/// Index of the first whitespace char of `s`.
pub open spec fn first_ws(s: Seq<char>) -> Option<int> {
    if exists|i: int| 0 <= i < s.len() && is_ws(s[i]) {
        Some(choose|i: int| 0 <= i < s.len() && is_ws(s[i]) && forall|j: int| 0 <= j < i ==> !is_ws(s[j]))
    } else {
        None
    }
}

/// The whole argument text of a built-in tool call (possibly spanning
/// lines): everything after the first whitespace char, without leading
/// `@`.
pub open spec fn builtin_args(call: Seq<char>) -> Seq<char> {
    match first_ws(call) {
        Some(i) => strip_ats(call.skip(i + 1)),
        None => Seq::empty(),
    }
}

/// The argument text a built-in tool receives.
pub fn full_tool_args(call: &str) -> (r: String)
    ensures
        r@ == builtin_args(call@),
{
    let cs = chars_of(call);
    let n = cs.len();
    let mut i: usize = 0;
    while i < n && !char_is_ws(cs[i])
        invariant
            i <= n,
            n == cs@.len(),
            cs@ == call@,
            forall|j: int| 0 <= j < i ==> !is_ws(cs@[j]),
        decreases n - i,
    {
        i += 1;
    }
    if i == n {
        return String::new();
    }
    proof {
        let k = choose|k: int| 0 <= k < call@.len() && is_ws(call@[k]) && forall|j: int| 0 <= j < k ==> !is_ws(call@[j]);
        assert(0 <= i < call@.len() && is_ws(call@[i as int]));
        if k < i {
            assert(!is_ws(call@[k]));
        } else if k > i {
            assert(!is_ws(call@[i as int]));
        }
        assert(first_ws(call@) == Some(i as int));
    }
    let rest = slice_to_vec(cs.as_slice(), i + 1, n);
    assert(rest@ =~= call@.skip(i + 1));
    let r = strip_ats_exec(rest.as_slice());
    string_from_chars(r.as_slice())
}

/// The built-in tools, which run without a shell.
pub open spec fn builtin_tool(cmd: Seq<char>) -> bool {
    cmd == "read_file"@ || cmd == "write_file"@ || cmd == "edit_file"@ || cmd == "grep_files"@
        || cmd == "glob_files"@
}

/// Whether `cmd` names a built-in tool.
pub fn is_builtin_tool(cmd: &str) -> (b: bool)
    ensures
        b == builtin_tool(cmd@),
{
    let c = chars_of(cmd);
    let s = c.as_slice();
    eq_lit(s, "read_file") || eq_lit(s, "write_file") || eq_lit(s, "edit_file") || eq_lit(s, "grep_files")
        || eq_lit(s, "glob_files")
}

/// A tool call waits for the user's yes: a shell command that is
/// destructive, unless every call is accepted automatically.
pub open spec fn confirm_needed(call: Seq<char>, auto_accept: bool) -> bool {
    let c = trim(call);
    let cmd = match find(c, seq![' ']) {
        Some(i) => c.take(i),
        None => c,
    };
    !builtin_tool(cmd) && !auto_accept && destructive_shell(c)
}

/// Whether the tool call `call` needs the user's confirmation first.
pub fn needs_confirmation(call: &str, auto_accept: bool) -> (b: bool)
    ensures
        b == confirm_needed(call@, auto_accept),
{
    let cs = chars_of(call);
    let (a, b) = trim_bounds(cs.as_slice());
    let t = slice_to_vec(cs.as_slice(), a, b);
    let ts = string_from_chars(t.as_slice());
    let cmd = match find_space(t.as_slice()) {
        Some(i) => {
            let v = slice_to_vec(t.as_slice(), 0, i);
            assert(v@ =~= t@.take(i as int));
            string_from_chars(v.as_slice())
        },
        None => string_from_chars(t.as_slice()),
    };
    !is_builtin_tool(cmd.as_str()) && !auto_accept && is_destructive_shell(ts.as_str())
}

/// Lines of tool output shown in the chat.
pub const MAX_DISPLAY_LINES: usize = 15;

/// Tool output as the chat shows it: at most 15 lines, with a note of how
/// many more went to the model.
pub open spec fn tool_display_text(result: Seq<char>) -> Seq<char> {
    let ls = lines(result);
    if ls.len() > MAX_DISPLAY_LINES {
        join(ls.take(MAX_DISPLAY_LINES as int), seq!['\n']) + "\n[... "@ + decimal(
            (ls.len() - MAX_DISPLAY_LINES) as nat,
        ) + " more lines — full output sent to model]"@
    } else {
        result
    }
}

/// The part of a tool's output shown in the chat.
pub fn tool_display(result: &str) -> (r: String)
    ensures
        r@ == tool_display_text(result@),
{
    let cs = chars_of(result);
    let all = lines_exec(cs.as_slice());
    let count = all.len();
    if count <= MAX_DISPLAY_LINES {
        return String::from_str(result);
    }
    let mut head: Vec<Vec<char>> = Vec::new();
    let mut i: usize = 0;
    while i < MAX_DISPLAY_LINES
        invariant
            i <= MAX_DISPLAY_LINES < all@.len(),
            views(head@) == views(all@).take(i as int),
        decreases MAX_DISPLAY_LINES - i,
    {
        let line = slice_to_vec(all[i].as_slice(), 0, all[i].len());
        proof {
            assert(line@ =~= all@[i as int]@);
            assert(views(all@)[i as int] == all@[i as int]@);
            assert(views(head@.push(line)) =~= views(head@).push(line@));
        }
        head.push(line);
        assert(views(head@) =~= views(all@).take(i + 1));
        i += 1;
    }
    let mut out: Vec<char> = Vec::new();
    let sep = vec!['\n'];
    assert(sep@ == seq!['\n']);
    join_into(&mut out, &head, sep.as_slice());
    extend_str(&mut out, "\n[... ");
    let more = u64_to_decimal((count - MAX_DISPLAY_LINES) as u64);
    extend_str(&mut out, more.as_str());
    extend_str(&mut out, " more lines — full output sent to model]");
    assert(out@ =~= tool_display_text(result@));
    string_from_chars(out.as_slice())
}

/// The label of a tool result: the file name of its argument, else the
/// argument itself, or `.` without one.
pub open spec fn tool_result_label(args: Seq<char>) -> Seq<char> {
    match path_file_name(args) {
        Some(f) => f,
        None => if args.len() == 0 { seq!['.'] } else { args },
    }
}

/// The label shown with a tool's result.
pub fn tool_label(args: &str) -> (r: String)
    ensures
        r@ == tool_result_label(args@),
{
    match file_name_of(args) {
        Some(f) => f,
        None => if args.is_empty() {
            let v = vec!['.'];
            string_from_chars(v.as_slice())
        } else {
            String::from_str(args)
        },
    }
}

/// The shell line run for a synapse: its fixed command, then the call's
/// arguments after a space when there are any.
pub open spec fn shell_line(command: Seq<char>, args: Seq<char>) -> Seq<char> {
    if args.len() == 0 { command } else { command + seq![' '] + args }
}

/// The shell line run for a synapse command and its arguments.
pub fn command_line(command: &str, args: &str) -> (r: String)
    ensures
        r@ == shell_line(command@, args@),
{
    if args.is_empty() {
        return String::from_str(command);
    }
    let mut v: Vec<char> = Vec::new();
    extend_str(&mut v, command);
    v.push(' ');
    extend_str(&mut v, args);
    string_from_chars(v.as_slice())
}

/// What a shell command answers the model: its output capped, `error: `
/// and its error output (or its output) when it failed, `Done.` when it
/// succeeded silently.
pub open spec fn shell_answer(success: bool, stdout: Seq<char>, stderr: Seq<char>) -> Seq<char> {
    if !success {
        capped_output("error: "@ + if stderr.len() > 0 { stderr } else { stdout })
    } else if stdout.len() == 0 {
        "Done."@
    } else {
        capped_output(stdout)
    }
}

/// The answer of a finished shell command with the given exit status and
/// output.
pub fn command_outcome(success: bool, stdout: &str, stderr: &str) -> (r: String)
    requires
        byte_len(stdout@) + byte_len(stderr@) + 7 <= usize::MAX,
    ensures
        r@ == shell_answer(success, stdout@, stderr@),
{
    if !success {
        let mut v: Vec<char> = Vec::new();
        extend_str(&mut v, "error: ");
        if !stderr.is_empty() {
            extend_str(&mut v, stderr);
        } else {
            extend_str(&mut v, stdout);
        }
        let msg = string_from_chars(v.as_slice());
        proof {
            reveal_strlit("error: ");
            let m = if stderr@.len() > 0 { stderr@ } else { stdout@ };
            lemma_encode_concat("error: "@, m);
            assert(vstd::utf8::encode_utf8("error: "@).len() == 7) by {
                vstd::utf8::is_ascii_chars_encode_utf8("error: "@);
            }
        }
        truncate_output(msg.as_str())
    } else if stdout.is_empty() {
        String::from_str("Done.")
    } else {
        truncate_output(stdout)
    }
}

} // verus!
