//! The `key = value` header format shared by neuron, synapse and behaviour
//! definitions: header lines, then optionally a line `---` followed by a
//! free-form body (a few-shot example).
use vstd::prelude::*;
use crate::text::{
    chars_of, extend_chars, find, find_from_exec, lemma_find_skip, slice_to_vec, trim, trim_bounds,
    views,
};

verus! {

/// The lines of `s` (`str::lines`): split at `\n`, a trailing `\r` dropped
/// from each, no empty last line after a final `\n`.
pub open spec fn lines(s: Seq<char>) -> Seq<Seq<char>>
    decreases s.len(),
{
    if s.len() == 0 {
        seq![]
    } else {
        match find(s, seq!['\n']) {
            None => seq![strip_cr(s)],
            Some(i) => if 0 <= i < s.len() {
                seq![strip_cr(s.take(i))] + lines(s.skip(i + 1))
            } else {
                seq![strip_cr(s)]
            },
        }
    }
}

/// `s` without one trailing carriage return.
pub open spec fn strip_cr(s: Seq<char>) -> Seq<char> {
    if s.len() > 0 && s.last() == '\r' {
        s.drop_last()
    } else {
        s
    }
}

fn strip_cr_exec(s: &[char], a: usize, b: usize) -> (v: Vec<char>)
    requires
        a <= b <= s@.len(),
    ensures
        v@ == strip_cr(s@.subrange(a as int, b as int)),
{
    if b > a && s[b - 1] == '\r' {
        assert(s@.subrange(a as int, b as int).drop_last() =~= s@.subrange(a as int, b - 1));
        slice_to_vec(s, a, b - 1)
    } else {
        slice_to_vec(s, a, b)
    }
}

/// The lines of `s`.
pub fn lines_exec(s: &[char]) -> (ls: Vec<Vec<char>>)
    ensures
        views(ls@) == lines(s@),
{
    let pat = vec!['\n'];
    let mut ls: Vec<Vec<char>> = Vec::new();
    let mut i: usize = 0;
    assert(s@.skip(0) =~= s@);
    loop
        invariant
            i <= s@.len(),
            pat@ == seq!['\n'],
            views(ls@) + lines(s@.skip(i as int)) == lines(s@),
        decreases s@.len() - i,
    {
        if i == s.len() {
            assert(lines(s@.skip(i as int)) =~= Seq::<Seq<char>>::empty());
            assert(views(ls@) + Seq::<Seq<char>>::empty() =~= views(ls@));
            return ls;
        }
        proof {
            lemma_find_skip(s@, pat@, i as int);
        }
        match find_from_exec(s, pat.as_slice(), i) {
            Some(k) => {
                let line = strip_cr_exec(s, i, k);
                proof {
                    let t = s@.skip(i as int);
                    assert(t.take(k - i) =~= s@.subrange(i as int, k as int));
                    assert(t.skip(k - i + 1) =~= s@.skip(k + 1));
                    assert(views(ls@.push(line)) =~= views(ls@).push(line@));
                    assert(views(ls@).push(line@) + lines(s@.skip(k + 1)) =~= views(ls@) + lines(t));
                }
                ls.push(line);
                let n = s.len();
                assert(k + 1 <= n);
                i = k + 1;
            },
            None => {
                let line = strip_cr_exec(s, i, s.len());
                proof {
                    assert(s@.subrange(i as int, s@.len() as int) =~= s@.skip(i as int));
                    assert(views(ls@.push(line)) =~= views(ls@).push(line@));
                }
                ls.push(line);
                return ls;
            },
        }
    }
}

/// `line` split at its first `=` into key and value.
pub open spec fn key_value(line: Seq<char>) -> Option<(Seq<char>, Seq<char>)> {
    match find(line, seq!['=']) {
        Some(i) => Some((line.take(i), line.skip(i + 1))),
        None => None,
    }
}

/// The trimmed value of the last header line whose trimmed key is `key`.
pub open spec fn header_value(ls: Seq<Seq<char>>, key: Seq<char>) -> Option<Seq<char>>
    decreases ls.len(),
{
    if ls.len() == 0 {
        None
    } else {
        match key_value(ls.last()) {
            Some((k, v)) => if trim(k) == key {
                Some(trim(v))
            } else {
                header_value(ls.drop_last(), key)
            },
            None => header_value(ls.drop_last(), key),
        }
    }
}

/// `header_value`, or the empty text when the key is absent.
pub open spec fn header_text(ls: Seq<Seq<char>>, key: Seq<char>) -> Seq<char> {
    match header_value(ls, key) {
        Some(v) => v,
        None => Seq::empty(),
    }
}

/// The header and the trimmed body of a definition: split at the first
/// `\n---\n`, or all of it (trimmed) as header and no body.
pub open spec fn split_meta(src: Seq<char>) -> (Seq<char>, Seq<char>) {
    match find(src, "\n---\n"@) {
        Some(i) => (src.take(i), trim(src.skip(i + 5))),
        None => (trim(src), Seq::empty()),
    }
}

/// Splits a definition into its header lines and its trimmed body.
pub fn split_meta_exec(src: &str) -> (r: (Vec<Vec<char>>, Vec<char>))
    ensures
        views(r.0@) == lines(split_meta(src@).0),
        r.1@ == split_meta(src@).1,
{
    let cs = chars_of(src);
    let sep = chars_of("\n---\n");
    proof {
        reveal_strlit("\n---\n");
    }
    match find_from_exec(cs.as_slice(), sep.as_slice(), 0) {
        Some(i) => {
            let n = cs.len();
            assert(i + 5 <= n);
            let head = &cs[0..i];
            let rest = &cs[i + 5..n];
            let (a, b) = trim_bounds(rest);
            assert(head@ =~= cs@.take(i as int));
            assert(rest@ =~= cs@.skip(i + 5));
            (lines_exec(head), slice_to_vec(rest, a, b))
        },
        None => {
            let (a, b) = trim_bounds(cs.as_slice());
            let head = &cs[a..b];
            (lines_exec(head), Vec::new())
        },
    }
}

/// Looks up `key` among header lines; the last matching line wins.
pub fn header_lookup(ls: &Vec<Vec<char>>, key: &[char]) -> (r: Option<Vec<char>>)
    ensures
        match r {
            Some(v) => header_value(views(ls@), key@) == Some(v@),
            None => header_value(views(ls@), key@) is None,
        },
{
    let mut i = ls.len();
    let eq = vec!['='];
    assert(views(ls@).take(i as int) =~= views(ls@));
    loop
        invariant
            i <= ls@.len(),
            eq@ == seq!['='],
            header_value(views(ls@), key@) == header_value(views(ls@).take(i as int), key@),
        decreases i,
    {
        if i == 0 {
            return None;
        }
        i -= 1;
        let line = ls[i].as_slice();
        proof {
            let vs = views(ls@).take(i + 1);
            assert(vs.last() == line@);
            assert(vs.drop_last() =~= views(ls@).take(i as int));
        }
        match find_from_exec(line, eq.as_slice(), 0) {
            Some(e) => {
                let n = line.len();
                assert(e + 1 <= n);
                let k = &line[0..e];
                let v = &line[e + 1..n];
                assert(k@ =~= line@.take(e as int));
                assert(v@ =~= line@.skip(e + 1));
                let (ka, kb) = trim_bounds(k);
                if crate::text::chars_eq(&k[ka..kb], key) {
                    let (va, vb) = trim_bounds(v);
                    return Some(slice_to_vec(v, va, vb));
                }
            },
            None => {},
        }
    }
}

/// `parts` joined with `sep` between consecutive parts.
pub open spec fn join(parts: Seq<Seq<char>>, sep: Seq<char>) -> Seq<char>
    decreases parts.len(),
{
    if parts.len() == 0 {
        Seq::empty()
    } else if parts.len() == 1 {
        parts[0]
    } else {
        join(parts.drop_last(), sep) + sep + parts.last()
    }
}

/// Appends `parts` joined with `sep` to `out`.
pub fn join_into(out: &mut Vec<char>, parts: &Vec<Vec<char>>, sep: &[char])
    ensures
        final(out)@ == old(out)@ + join(views(parts@), sep@),
{
    let ghost start = out@;
    let mut i: usize = 0;
    while i < parts.len()
        invariant
            i <= parts@.len(),
            out@ == start + join(views(parts@).take(i as int), sep@),
        decreases parts.len() - i,
    {
        let ghost vs = views(parts@).take(i + 1);
        assert(vs.drop_last() =~= views(parts@).take(i as int));
        assert(vs.last() == parts@[i as int]@);
        if i > 0 {
            extend_chars(out, sep);
        } else {
            assert(join(views(parts@).take(0), sep@) =~= Seq::<char>::empty());
        }
        extend_chars(out, parts[i].as_slice());
        i += 1;
    }
    assert(views(parts@).take(parts@.len() as int) =~= views(parts@));
}

} // verus!
