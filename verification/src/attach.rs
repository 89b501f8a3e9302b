//! `@path` references in a user message and `@` path completion: which
//! files a message names, the text the model gets instead of them, and the
//! candidates offered while typing.
use vstd::prelude::*;
use crate::chat::{to_lowercase, unicode_lowercase};
use crate::paths::{components_of, path_components};
use crate::prompt::{decimal, u64_to_decimal};
use crate::text::{
    chars_of, ends_with, extend_chars, extend_str, find, find_exec, rfind, rfind_exec, slice_to_vec,
    starts_with, starts_with_exec, string_from_chars, string_views, trim, trim_bounds, trim_end,
    views, words, words_exec,
};
use crate::tools::{lex_le, sort_lines, sorted_lex};

verus! {

// ── resolving references ──────────────────────────────────────────────────

/// The path a reference names: `~` expanded to `home`, absolute paths as
/// they are, others under the working directory.
pub open spec fn resolved(raw: Seq<char>, wd: Seq<char>, home: Seq<char>) -> Seq<char> {
    if raw.len() > 0 && raw[0] == '~' {
        home + raw.skip(1)
    } else if raw.len() > 0 && raw[0] == '/' {
        raw
    } else if wd.len() > 0 && wd.last() == '/' {
        wd + raw
    } else {
        wd + seq!['/'] + raw
    }
}

/// Resolves a reference against the working directory `wd` and the home
/// directory `home`.
pub fn resolve_path(raw: &str, wd: &str, home: &str) -> (r: String)
    ensures
        r@ == resolved(raw@, wd@, home@),
{
    let c = chars_of(raw);
    let n = c.len();
    let mut v: Vec<char> = Vec::new();
    if n > 0 && c[0] == '~' {
        extend_str(&mut v, home);
        extend_chars(&mut v, &c.as_slice()[1..n]);
        assert(c@.subrange(1, n as int) =~= raw@.skip(1));
    } else if n > 0 && c[0] == '/' {
        extend_chars(&mut v, c.as_slice());
    } else {
        let w = chars_of(wd);
        extend_chars(&mut v, w.as_slice());
        if !(w.len() > 0 && w[w.len() - 1] == '/') {
            v.push('/');
        }
        extend_chars(&mut v, c.as_slice());
    }
    string_from_chars(v.as_slice())
}

/// The paths named by `@` words of `s`, in order, with repeats.
pub open spec fn at_words(ws: Seq<Seq<char>>) -> Seq<Seq<char>>
    decreases ws.len(),
{
    if ws.len() == 0 {
        seq![]
    } else {
        at_words(ws.drop_last()) + if ws.last().len() > 1 && ws.last()[0] == '@' {
            seq![ws.last().skip(1)]
        } else {
            seq![]
        }
    }
}

/// `rs` without the references whose resolved path (compared component by
/// component) repeats an earlier one.
pub open spec fn first_of_each(rs: Seq<Seq<char>>, wd: Seq<char>, home: Seq<char>) -> Seq<Seq<char>>
    decreases rs.len(),
{
    if rs.len() == 0 {
        seq![]
    } else {
        let prev = first_of_each(rs.drop_last(), wd, home);
        let key = path_components(resolved(rs.last(), wd, home));
        if exists|k: int|
            0 <= k < prev.len() && path_components(resolved(#[trigger] prev[k], wd, home)) == key {
            prev
        } else {
            prev.push(rs.last())
        }
    }
}

/// The files a message refers to with `@path`, each once.
pub open spec fn message_refs(input: Seq<char>, wd: Seq<char>, home: Seq<char>) -> Seq<Seq<char>> {
    first_of_each(at_words(words(input)), wd, home)
}

/// The `@path` references of a message, each file once.
pub fn attachment_refs(input: &str, wd: &str, home: &str) -> (r: Vec<String>)
    ensures
        string_views(r@) == message_refs(input@, wd@, home@),
{
    let c = chars_of(input);
    let ws = words_exec(c.as_slice());
    let ghost wv = views(ws@);
    let mut r: Vec<String> = Vec::new();
    let mut keys: Vec<Vec<String>> = Vec::new();
    let ghost mut raws: Seq<Seq<char>> = seq![];
    let mut i: usize = 0;
    while i < ws.len()
        invariant
            i <= ws@.len(),
            wv == views(ws@),
            raws == at_words(wv.take(i as int)),
            string_views(r@) == first_of_each(raws, wd@, home@),
            keys@.len() == r@.len(),
            forall|k: int|
                0 <= k < keys@.len() ==> string_views(#[trigger] keys@[k]@) == path_components(
                    resolved(r@[k]@, wd@, home@),
                ),
        decreases ws.len() - i,
    {
        let w = &ws[i];
        assert(wv[i as int] == w@);
        assert(wv.take(i + 1).drop_last() =~= wv.take(i as int));
        if w.len() > 1 && w[0] == '@' {
            let n = w.len();
            let raw_v = slice_to_vec(w.as_slice(), 1, n);
            assert(raw_v@ =~= w@.skip(1));
            let raw = string_from_chars(raw_v.as_slice());
            let full = resolve_path(raw.as_str(), wd, home);
            let key = components_of(full.as_str());
            let ghost prev = first_of_each(raws, wd@, home@);
            let mut seen = false;
            let mut k: usize = 0;
            while k < keys.len()
                invariant
                    k <= keys@.len(),
                    keys@.len() == r@.len(),
                    string_views(r@) == prev,
                    forall|j: int|
                        0 <= j < keys@.len() ==> string_views(#[trigger] keys@[j]@) == path_components(
                            resolved(r@[j]@, wd@, home@),
                        ),
                    seen <==> exists|j: int|
                        0 <= j < k && path_components(resolved(#[trigger] prev[j], wd@, home@))
                            == string_views(key@),
                decreases keys.len() - k,
            {
                assert(prev[k as int] == r@[k as int]@);
                if strings_eq(&keys[k], &key) {
                    seen = true;
                }
                k += 1;
            }
            proof {
                raws = raws.push(w@.skip(1));
                assert(raws.drop_last() == at_words(wv.take(i as int)));
                assert(at_words(wv.take(i + 1)) =~= raws);
                assert(raws.last() == raw@);
            }
            if !seen {
                proof {
                    assert(string_views(r@.push(raw)) =~= string_views(r@).push(raw@));
                }
                r.push(raw);
                keys.push(key);
            }
        } else {
            proof {
                assert(at_words(wv.take(i + 1)) =~= at_words(wv.take(i as int)));
            }
        }
        i += 1;
    }
    assert(wv.take(ws@.len() as int) =~= wv);
    r
}

fn strings_eq(a: &Vec<String>, b: &Vec<String>) -> (r: bool)
    ensures
        r == (string_views(a@) == string_views(b@)),
{
    if a.len() != b.len() {
        return false;
    }
    let mut i: usize = 0;
    while i < a.len()
        invariant
            i <= a@.len(),
            a@.len() == b@.len(),
            forall|k: int| 0 <= k < i ==> a@[k]@ == b@[k]@,
        decreases a.len() - i,
    {
        if !crate::text::str_eq(a[i].as_str(), b[i].as_str()) {
            assert(string_views(a@)[i as int] != string_views(b@)[i as int]);
            return false;
        }
        i += 1;
    }
    assert(string_views(a@) =~= string_views(b@));
    true
}

// ── the text the model gets ───────────────────────────────────────────────

/// `s` with every occurrence of the non-empty `p` removed, left to right.
pub open spec fn remove_all(s: Seq<char>, p: Seq<char>) -> Seq<char>
    decreases s.len(),
{
    match find(s, p) {
        Some(i) => if 0 <= i && p.len() > 0 && i + p.len() <= s.len() {
            s.take(i) + remove_all(s.skip(i + p.len()), p)
        } else {
            s
        },
        None => s,
    }
}

fn remove_all_exec(s: &[char], p: &[char]) -> (r: Vec<char>)
    requires
        p@.len() > 0,
    ensures
        r@ == remove_all(s@, p@),
{
    let mut out: Vec<char> = Vec::new();
    let mut rest = slice_to_vec(s, 0, s.len());
    assert(rest@ =~= s@);
    loop
        invariant
            p@.len() > 0,
            out@ + remove_all(rest@, p@) == remove_all(s@, p@),
        decreases rest@.len(),
    {
        match find_exec(rest.as_slice(), p) {
            None => {
                extend_chars(&mut out, rest.as_slice());
                return out;
            },
            Some(i) => {
                let n = rest.len();
                let head = slice_to_vec(rest.as_slice(), 0, i);
                extend_chars(&mut out, head.as_slice());
                let next = slice_to_vec(rest.as_slice(), i + p.len(), n);
                assert(next@ =~= rest@.skip(i + p@.len()));
                rest = next;
            },
        }
    }
}

/// The message text without its references, trimmed after each removal.
pub open spec fn text_without(input: Seq<char>, refs: Seq<Seq<char>>) -> Seq<char>
    decreases refs.len(),
{
    if refs.len() == 0 {
        input
    } else {
        trim(remove_all(text_without(input, refs.drop_last()), seq!['@'] + refs.last()))
    }
}

/// The message text without the references `refs`.
pub fn base_text(input: &str, refs: &Vec<String>) -> (r: String)
    ensures
        r@ == text_without(input@, string_views(refs@)),
{
    let mut cur = chars_of(input);
    let ghost rv = string_views(refs@);
    let mut i: usize = 0;
    assert(rv.take(0) =~= Seq::<Seq<char>>::empty());
    while i < refs.len()
        invariant
            i <= refs@.len(),
            rv == string_views(refs@),
            cur@ == text_without(input@, rv.take(i as int)),
        decreases refs.len() - i,
    {
        let mut pat: Vec<char> = Vec::new();
        pat.push('@');
        extend_str(&mut pat, refs[i].as_str());
        assert(rv.take(i + 1).drop_last() =~= rv.take(i as int));
        assert(rv[i as int] == refs@[i as int]@);
        assert(rv.take(i + 1).last() == rv[i as int]);
        assert(pat@ =~= seq!['@'] + rv[i as int]);
        let removed = remove_all_exec(cur.as_slice(), pat.as_slice());
        let (a, b) = trim_bounds(removed.as_slice());
        cur = slice_to_vec(removed.as_slice(), a, b);
        i += 1;
    }
    assert(rv.take(refs@.len() as int) =~= rv);
    string_from_chars(cur.as_slice())
}

/// The note for a reference to a missing file.
pub fn not_found_note(raw: &str) -> (r: String)
    ensures
        r@ == "[File not found: "@ + raw@ + "]"@,
{
    let mut v: Vec<char> = Vec::new();
    extend_str(&mut v, "[File not found: ");
    extend_str(&mut v, raw);
    extend_str(&mut v, "]");
    string_from_chars(v.as_slice())
}

/// The tokens left in a context window of `ctx` with `used` taken, if the
/// window is known.
pub open spec fn room_left(ctx: Option<u64>, used: u64) -> Option<u64> {
    match ctx {
        Some(c) => Some(if c >= used { (c - used) as u64 } else { 0 }),
        None => None,
    }
}

/// The note for a file of `size` bytes that does not fit, or `None` when
/// it fits (about four bytes per token; always fits in an unknown window).
pub open spec fn too_large_text(filename: Seq<char>, size: u64, ctx: Option<u64>, used: u64) -> Option<Seq<char>> {
    match room_left(ctx, used) {
        Some(remaining) => if size / 4 > remaining {
            Some(
                "["@ + filename + " is too large for the current context (~"@ + decimal((size / 4) as nat)
                    + " tokens needed, "@ + decimal(remaining as nat) + " remaining of "@ + decimal(
                    (ctx.unwrap() / 1000) as nat,
                ) + "k)]"@,
            )
        } else {
            None
        },
        None => None,
    }
}

/// Whether a file of `size` bytes fits in the context window; the note to
/// send instead when it does not.
pub fn too_large_note(filename: &str, size: u64, ctx: Option<u64>, used: u64) -> (r: Option<String>)
    ensures
        match r {
            Some(s) => too_large_text(filename@, size, ctx, used) == Some(s@),
            None => too_large_text(filename@, size, ctx, used) is None,
        },
{
    let c = match ctx {
        Some(c) => c,
        None => return None,
    };
    let remaining = if c >= used {
        c - used
    } else {
        0
    };
    let est = size / 4;
    if est <= remaining {
        return None;
    }
    let mut v: Vec<char> = Vec::new();
    extend_str(&mut v, "[");
    extend_str(&mut v, filename);
    extend_str(&mut v, " is too large for the current context (~");
    let e = u64_to_decimal(est);
    extend_str(&mut v, e.as_str());
    extend_str(&mut v, " tokens needed, ");
    let rm = u64_to_decimal(remaining);
    extend_str(&mut v, rm.as_str());
    extend_str(&mut v, " remaining of ");
    let k = u64_to_decimal(c / 1000);
    extend_str(&mut v, k.as_str());
    extend_str(&mut v, "k)]");
    Some(string_from_chars(v.as_slice()))
}

/// The block that carries a text file to the model.
pub open spec fn file_block(raw: Seq<char>, ext: Seq<char>, text: Seq<char>) -> Seq<char> {
    "<file_content path=\""@ + raw + "\">\n```"@ + ext + "\n"@ + trim_end(text) + "\n```\n</file_content>"@
}

/// The block for the text file referenced as `raw`, whose lower-cased
/// extension is `ext`.
pub fn file_content_block(raw: &str, ext: &str, text: &str) -> (r: String)
    ensures
        r@ == file_block(raw@, ext@, text@),
{
    let mut v: Vec<char> = Vec::new();
    extend_str(&mut v, "<file_content path=\"");
    extend_str(&mut v, raw);
    extend_str(&mut v, "\">\n```");
    extend_str(&mut v, ext);
    extend_str(&mut v, "\n");
    let t = chars_of(text);
    let j = crate::text::trim_end_index(t.as_slice(), t.len());
    assert(t@.take(t@.len() as int) =~= t@);
    extend_chars(&mut v, &t.as_slice()[0..j]);
    assert(t@.subrange(0, j as int) =~= t@.take(j as int));
    extend_str(&mut v, "\n```\n</file_content>");
    string_from_chars(v.as_slice())
}

// ── path completion ───────────────────────────────────────────────────────

/// The partial path after `@` split into the directory typed so far and the
/// start of a name, with a leading `~` expanded to `home`.
pub open spec fn completion_split(partial: Seq<char>, home: Seq<char>) -> (Seq<char>, Seq<char>) {
    let e = if partial == seq!['~'] || starts_with(partial, seq!['~', '/']) {
        home + partial.skip(1)
    } else {
        partial
    };
    if e.len() > 0 && e.last() == '/' {
        (e, Seq::empty())
    } else {
        match rfind(e, seq!['/']) {
            Some(i) => (e.take(i + 1), e.skip(i + 1)),
            None => (Seq::empty(), e),
        }
    }
}

/// Splits a partial path into the directory to list and the name prefix.
pub fn split_completion(partial: &str, home: &str) -> (r: (String, String))
    ensures
        (r.0@, r.1@) == completion_split(partial@, home@),
{
    let c = chars_of(partial);
    let n = c.len();
    let tilde_slash = vec!['~', '/'];
    assert(tilde_slash@ == seq!['~', '/']);
    let expand = (n == 1 && c[0] == '~') || starts_with_exec(c.as_slice(), tilde_slash.as_slice());
    proof {
        if n == 1 && c@[0] == '~' {
            assert(c@ =~= seq!['~']);
        }
        if c@ == seq!['~'] {
            assert(n == 1);
        }
    }
    let e: Vec<char> = if expand {
        let mut v = chars_of(home);
        extend_chars(&mut v, &c.as_slice()[1..n]);
        assert(c@.subrange(1, n as int) =~= partial@.skip(1));
        v
    } else {
        c
    };
    let m = e.len();
    if m > 0 && e[m - 1] == '/' {
        return (string_from_chars(e.as_slice()), String::new());
    }
    let slash = vec!['/'];
    assert(slash@ == seq!['/']);
    match rfind_exec(e.as_slice(), slash.as_slice()) {
        Some(i) => {
            assert(crate::text::matches_at(e@, slash@, i as int));
            let d = slice_to_vec(e.as_slice(), 0, i + 1);
            let p = slice_to_vec(e.as_slice(), i + 1, m);
            assert(p@ =~= e@.skip(i + 1));
            (string_from_chars(d.as_slice()), string_from_chars(p.as_slice()))
        },
        None => (String::new(), string_from_chars(e.as_slice())),
    }
}

/// The candidate for the entry `name` of the listed directory, if it is
/// offered: hidden entries only when the prefix starts with a dot; the
/// name must start with the prefix, in any case.
pub open spec fn candidate_for(dir: Seq<char>, prefix: Seq<char>, name: Seq<char>, is_dir: bool) -> Option<Seq<char>> {
    if name.len() > 0 && name[0] == '.' && !(prefix.len() > 0 && prefix[0] == '.') {
        None
    } else if !starts_with(unicode_lowercase(name), unicode_lowercase(prefix)) {
        None
    } else {
        Some(dir + name + if is_dir { seq!['/'] } else { Seq::empty() })
    }
}

/// The completion offered for a directory entry, if any.
pub fn completion_candidate(dir: &str, prefix: &str, name: &str, is_dir: bool) -> (r: Option<String>)
    ensures
        match r {
            Some(s) => candidate_for(dir@, prefix@, name@, is_dir) == Some(s@),
            None => candidate_for(dir@, prefix@, name@, is_dir) is None,
        },
{
    let nc = chars_of(name);
    let pc = chars_of(prefix);
    if nc.len() > 0 && nc[0] == '.' && !(pc.len() > 0 && pc[0] == '.') {
        return None;
    }
    let ln = to_lowercase(name);
    let lp = to_lowercase(prefix);
    let lnc = chars_of(ln.as_str());
    let lpc = chars_of(lp.as_str());
    if !starts_with_exec(lnc.as_slice(), lpc.as_slice()) {
        return None;
    }
    let mut v = chars_of(dir);
    extend_chars(&mut v, nc.as_slice());
    if is_dir {
        v.push('/');
    }
    Some(string_from_chars(v.as_slice()))
}

/// Candidates ordered as offered: directories (ending in `/`) first, each
/// group in ascending order.
pub open spec fn offered_order(r: Seq<Seq<char>>, v: Seq<Seq<char>>) -> bool {
    let is_dir = |s: Seq<char>| s.len() > 0 && s.last() == '/';
    let dirs = v.filter(is_dir);
    let files = v.filter(|s: Seq<char>| !is_dir(s));
    exists|d: Seq<Seq<char>>, f: Seq<Seq<char>>|
        r == d + f && sorted_lex(d) && sorted_lex(f) && d.to_multiset() == dirs.to_multiset()
            && f.to_multiset() == files.to_multiset()
}

/// Orders completion candidates: directories first, then files, each
/// group in ascending order.
pub fn order_completions(v: Vec<String>) -> (r: Vec<String>)
    ensures
        offered_order(string_views(r@), string_views(v@)),
{
    let ghost vv = string_views(v@);
    let ghost is_dir = |s: Seq<char>| s.len() > 0 && s.last() == '/';
    let ghost not_dir = |s: Seq<char>| !is_dir(s);
    let mut dirs: Vec<Vec<char>> = Vec::new();
    let mut files: Vec<Vec<char>> = Vec::new();
    let mut i: usize = 0;
    assert(vv.take(0).filter(is_dir) =~= Seq::<Seq<char>>::empty()) by {
        reveal(Seq::filter);
    }
    assert(vv.take(0).filter(not_dir) =~= Seq::<Seq<char>>::empty()) by {
        reveal(Seq::filter);
    }
    while i < v.len()
        invariant
            i <= v@.len(),
            vv == string_views(v@),
            is_dir == (|s: Seq<char>| s.len() > 0 && s.last() == '/'),
            not_dir == (|s: Seq<char>| !is_dir(s)),
            views(dirs@) == vv.take(i as int).filter(is_dir),
            views(files@) == vv.take(i as int).filter(not_dir),
        decreases v.len() - i,
    {
        let c = chars_of(v[i].as_str());
        proof {
            assert(vv[i as int] == c@);
            assert(vv.take(i + 1) =~= vv.take(i as int).push(c@));
            vv.take(i as int).lemma_filter_push(c@, is_dir);
            vv.take(i as int).lemma_filter_push(c@, not_dir);
        }
        let d = c.len() > 0 && c[c.len() - 1] == '/';
        if d {
            proof {
                assert(views(dirs@.push(c)) =~= views(dirs@).push(c@));
            }
            dirs.push(c);
        } else {
            proof {
                assert(views(files@.push(c)) =~= views(files@).push(c@));
            }
            files.push(c);
        }
        i += 1;
    }
    assert(vv.take(v@.len() as int) =~= vv);
    let sd = sort_lines(dirs);
    let sf = sort_lines(files);
    let mut r: Vec<String> = Vec::new();
    let mut k: usize = 0;
    while k < sd.len()
        invariant
            k <= sd@.len(),
            string_views(r@) == views(sd@).take(k as int),
        decreases sd.len() - k,
    {
        let s = string_from_chars(sd[k].as_slice());
        proof {
            assert(string_views(r@.push(s)) =~= string_views(r@).push(s@));
            assert(views(sd@).take(k + 1) =~= views(sd@).take(k as int).push(sd@[k as int]@));
        }
        r.push(s);
        k += 1;
    }
    let mut k: usize = 0;
    while k < sf.len()
        invariant
            k <= sf@.len(),
            string_views(r@) == views(sd@) + views(sf@).take(k as int),
        decreases sf.len() - k,
    {
        let s = string_from_chars(sf[k].as_slice());
        proof {
            assert(string_views(r@.push(s)) =~= string_views(r@).push(s@));
            assert(views(sf@).take(k + 1) =~= views(sf@).take(k as int).push(sf@[k as int]@));
        }
        r.push(s);
        k += 1;
    }
    assert(views(sd@).take(sd@.len() as int) =~= views(sd@));
    assert(views(sf@).take(sf@.len() as int) =~= views(sf@));
    r
}

} // verus!
