//! Character-level text primitives shared by the parsers of the library.
//!
//! Every string is modelled by its view, the sequence of its `char`s; every
//! position is a `char` index into that sequence.
use vstd::prelude::*;
use vstd::string::*;

verus! {

// ── specifications ────────────────────────────────────────────────────────

/// `p` occurs in `s` starting at index `i`.
pub open spec fn matches_at(s: Seq<char>, p: Seq<char>, i: int) -> bool {
    0 <= i && i + p.len() <= s.len() && s.subrange(i, i + p.len()) == p
}

/// `i` is the first index at or after `from` where `p` occurs in `s`.
pub open spec fn is_first_match_from(s: Seq<char>, p: Seq<char>, from: int, i: int) -> bool {
    &&& from <= i
    &&& matches_at(s, p, i)
    &&& forall|j: int| from <= j < i ==> !#[trigger] matches_at(s, p, j)
}

/// Index of the first occurrence of `p` in `s` at or after `from`.
pub open spec fn find_from(s: Seq<char>, p: Seq<char>, from: int) -> Option<int> {
    if exists|i: int| from <= i && #[trigger] matches_at(s, p, i) {
        Some(choose|i: int| is_first_match_from(s, p, from, i))
    } else {
        None
    }
}

/// Index of the first occurrence of `p` in `s` (`str::find`).
pub open spec fn find(s: Seq<char>, p: Seq<char>) -> Option<int> {
    find_from(s, p, 0)
}

/// `p` occurs somewhere in `s` (`str::contains`).
pub open spec fn contains(s: Seq<char>, p: Seq<char>) -> bool {
    exists|i: int| #[trigger] matches_at(s, p, i)
}

/// `i` is the last index where `p` occurs in `s`.
pub open spec fn is_last_match(s: Seq<char>, p: Seq<char>, i: int) -> bool {
    &&& matches_at(s, p, i)
    &&& forall|j: int| i < j ==> !#[trigger] matches_at(s, p, j)
}

/// Index of the last occurrence of `p` in `s` (`str::rfind`).
pub open spec fn rfind(s: Seq<char>, p: Seq<char>) -> Option<int> {
    if contains(s, p) {
        Some(choose|i: int| is_last_match(s, p, i))
    } else {
        None
    }
}

/// `s` begins with `p`.
pub open spec fn starts_with(s: Seq<char>, p: Seq<char>) -> bool {
    matches_at(s, p, 0)
}

/// `s` ends with `p`.
pub open spec fn ends_with(s: Seq<char>, p: Seq<char>) -> bool {
    p.len() <= s.len() && matches_at(s, p, s.len() - p.len())
}

/// Number of non-overlapping occurrences of `p` in `s`, scanning from the
/// left (`str::matches(p).count()`); `p` is not empty.
pub open spec fn count_matches(s: Seq<char>, p: Seq<char>) -> nat
    decreases s.len(),
{
    if p.len() == 0 {
        0
    } else {
        match find(s, p) {
            None => 0,
            Some(i) => if 0 <= i && i + p.len() <= s.len() {
                1 + count_matches(s.skip(i + p.len()), p)
            } else {
                0
            },
        }
    }
}

/// Unicode `White_Space`, as `char::is_whitespace` defines it.
pub open spec fn is_ws(c: char) -> bool {
    ||| ('\u{9}' <= c && c <= '\u{d}')
    ||| c == ' '
    ||| c == '\u{85}'
    ||| c == '\u{a0}'
    ||| c == '\u{1680}'
    ||| ('\u{2000}' <= c && c <= '\u{200a}')
    ||| c == '\u{2028}'
    ||| c == '\u{2029}'
    ||| c == '\u{202f}'
    ||| c == '\u{205f}'
    ||| c == '\u{3000}'
}

/// `s` without its leading whitespace.
pub open spec fn trim_start(s: Seq<char>) -> Seq<char>
    decreases s.len(),
{
    if s.len() > 0 && is_ws(s[0]) {
        trim_start(s.drop_first())
    } else {
        s
    }
}

/// `s` without its trailing whitespace.
pub open spec fn trim_end(s: Seq<char>) -> Seq<char>
    decreases s.len(),
{
    if s.len() > 0 && is_ws(s.last()) {
        trim_end(s.drop_last())
    } else {
        s
    }
}

/// `s` without leading and trailing whitespace (`str::trim`).
pub open spec fn trim(s: Seq<char>) -> Seq<char> {
    trim_end(trim_start(s))
}

// ── executable primitives ─────────────────────────────────────────────────

/// Whether `c` is whitespace.
pub fn char_is_ws(c: char) -> (b: bool)
    ensures
        b == is_ws(c),
{
    ('\u{9}' <= c && c <= '\u{d}') || c == ' ' || c == '\u{85}' || c == '\u{a0}'
        || c == '\u{1680}' || ('\u{2000}' <= c && c <= '\u{200a}') || c == '\u{2028}'
        || c == '\u{2029}' || c == '\u{202f}' || c == '\u{205f}' || c == '\u{3000}'
}

/// Collects the characters of `s` into a vector.
pub fn chars_of(s: &str) -> (v: Vec<char>)
    ensures
        v@ == s@,
{
    let mut v: Vec<char> = Vec::new();
    for c in it: s.chars()
        invariant
            v@ == it.seq().take(it.index() as int),
            it.seq() == s@,
    {
        v.push(c);
    }
    v
}

/// Whether `p` occurs in `s` at index `i`.
pub fn matches_at_exec(s: &[char], p: &[char], i: usize) -> (b: bool)
    ensures
        b == matches_at(s@, p@, i as int),
{
    if i > s.len() || p.len() > s.len() - i {
        return false;
    }
    let mut k: usize = 0;
    while k < p.len()
        invariant
            i + p.len() <= s.len(),
            k <= p.len(),
            forall|m: int| 0 <= m < k ==> s@[i + m] == p@[m],
        decreases p.len() - k,
    {
        if s[i + k] != p[k] {
            assert(s@.subrange(i as int, i + p.len())[k as int] != p@[k as int]);
            return false;
        }
        k += 1;
    }
    assert(s@.subrange(i as int, i + p.len()) =~= p@);
    true
}

pub proof fn lemma_find_from_is(s: Seq<char>, p: Seq<char>, from: int, i: int)
    requires
        is_first_match_from(s, p, from, i),
    ensures
        find_from(s, p, from) == Some(i),
{
    assert(from <= i && matches_at(s, p, i));
    let k = choose|k: int| is_first_match_from(s, p, from, k);
    assert(is_first_match_from(s, p, from, k));
    if k < i {
        assert(!matches_at(s, p, k));
    } else if i < k {
        assert(!matches_at(s, p, i));
    }
}

pub proof fn lemma_rfind_is(s: Seq<char>, p: Seq<char>, i: int)
    requires
        is_last_match(s, p, i),
    ensures
        rfind(s, p) == Some(i),
{
    assert(matches_at(s, p, i));
    let k = choose|k: int| is_last_match(s, p, k);
    assert(is_last_match(s, p, k));
    if k < i {
        assert(!matches_at(s, p, i));
    } else if i < k {
        assert(!matches_at(s, p, k));
    }
}

/// First occurrence of `p` in `s` at or after `from`.
pub fn find_from_exec(s: &[char], p: &[char], from: usize) -> (r: Option<usize>)
    ensures
        match r {
            Some(i) => find_from(s@, p@, from as int) == Some(i as int) && is_first_match_from(
                s@,
                p@,
                from as int,
                i as int,
            ),
            None => find_from(s@, p@, from as int) is None,
        },
{
    if p.len() > s.len() || from > s.len() - p.len() {
        assert forall|j: int| from <= j implies !#[trigger] matches_at(s@, p@, j) by {}
        return None;
    }
    let last = s.len() - p.len();
    let mut i = from;
    loop
        invariant
            from <= i <= last,
            last == s.len() - p.len(),
            forall|j: int| from <= j < i ==> !#[trigger] matches_at(s@, p@, j),
        ensures
            forall|j: int| from <= j <= last ==> !#[trigger] matches_at(s@, p@, j),
        decreases last - i,
    {
        if matches_at_exec(s, p, i) {
            proof {
                lemma_find_from_is(s@, p@, from as int, i as int);
            }
            return Some(i);
        }
        if i == last {
            break;
        }
        i += 1;
    }
    assert forall|j: int| from <= j implies !#[trigger] matches_at(s@, p@, j) by {}
    None
}

/// Last occurrence of `p` in `s`.
pub fn rfind_exec(s: &[char], p: &[char]) -> (r: Option<usize>)
    ensures
        match r {
            Some(i) => rfind(s@, p@) == Some(i as int) && is_last_match(s@, p@, i as int),
            None => rfind(s@, p@) is None && forall|j: int| !#[trigger] matches_at(s@, p@, j),
        },
{
    if p.len() > s.len() {
        assert forall|j: int| !#[trigger] matches_at(s@, p@, j) by {}
        return None;
    }
    let mut i = s.len() - p.len();
    loop
        invariant
            i <= s.len() - p.len(),
            p.len() <= s.len(),
            forall|j: int| i < j ==> !#[trigger] matches_at(s@, p@, j),
        ensures
            forall|j: int| 0 <= j ==> !#[trigger] matches_at(s@, p@, j),
        decreases i,
    {
        if matches_at_exec(s, p, i) {
            proof {
                lemma_rfind_is(s@, p@, i as int);
            }
            return Some(i);
        }
        if i == 0 {
            break;
        }
        i -= 1;
    }
    assert forall|j: int| !#[trigger] matches_at(s@, p@, j) by {}
    None
}


// ── lemmas about the specifications ──────────────────────────────────────

proof fn lemma_first_exists(s: Seq<char>, p: Seq<char>, from: int, i: int)
    requires
        from <= i,
        matches_at(s, p, i),
    ensures
        exists|k: int| is_first_match_from(s, p, from, k),
    decreases i - from,
{
    if exists|j: int| from <= j < i && #[trigger] matches_at(s, p, j) {
        let j = choose|j: int| from <= j < i && #[trigger] matches_at(s, p, j);
        lemma_first_exists(s, p, from, j);
    } else {
        assert(is_first_match_from(s, p, from, i));
    }
}

/// What `find_from` denotes: the first match at or after `from`, or none.
pub proof fn lemma_find_from_spec(s: Seq<char>, p: Seq<char>, from: int)
    ensures
        match find_from(s, p, from) {
            Some(k) => is_first_match_from(s, p, from, k),
            None => forall|j: int| from <= j ==> !#[trigger] matches_at(s, p, j),
        },
{
    if exists|i: int| from <= i && #[trigger] matches_at(s, p, i) {
        let i = choose|i: int| from <= i && #[trigger] matches_at(s, p, i);
        lemma_first_exists(s, p, from, i);
    }
}

proof fn lemma_last_exists(s: Seq<char>, p: Seq<char>, i: int)
    requires
        matches_at(s, p, i),
    ensures
        exists|k: int| is_last_match(s, p, k),
    decreases s.len() - i,
{
    if exists|j: int| i < j && #[trigger] matches_at(s, p, j) {
        let j = choose|j: int| i < j && #[trigger] matches_at(s, p, j);
        lemma_last_exists(s, p, j);
    } else {
        assert(is_last_match(s, p, i));
    }
}

/// What `rfind` denotes: the last match, or none.
pub proof fn lemma_rfind_spec(s: Seq<char>, p: Seq<char>)
    ensures
        match rfind(s, p) {
            Some(k) => is_last_match(s, p, k),
            None => forall|j: int| !#[trigger] matches_at(s, p, j),
        },
{
    if contains(s, p) {
        let i = choose|i: int| #[trigger] matches_at(s, p, i);
        lemma_last_exists(s, p, i);
    }
}

/// Matching inside a suffix is matching in the whole at a shifted index.
pub proof fn lemma_matches_skip(s: Seq<char>, p: Seq<char>, i: int, k: int)
    requires
        0 <= i <= s.len(),
    ensures
        matches_at(s.skip(i), p, k) <==> (0 <= k && matches_at(s, p, i + k)),
{
    if 0 <= k && k + p.len() <= s.len() - i {
        assert(s.skip(i).subrange(k, k + p.len()) =~= s.subrange(i + k, i + k + p.len()));
    }
}

/// Matching inside a prefix is matching in the whole, within the prefix.
pub proof fn lemma_matches_take(s: Seq<char>, p: Seq<char>, n: int, k: int)
    requires
        0 <= n <= s.len(),
    ensures
        matches_at(s.take(n), p, k) <==> (matches_at(s, p, k) && k + p.len() <= n),
{
    if 0 <= k && k + p.len() <= n {
        assert(s.take(n).subrange(k, k + p.len()) =~= s.subrange(k, k + p.len()));
    }
}

/// `find` in a suffix is `find_from` in the whole, shifted.
pub proof fn lemma_find_skip(s: Seq<char>, p: Seq<char>, i: int)
    requires
        0 <= i <= s.len(),
    ensures
        find(s.skip(i), p) == match find_from(s, p, i) {
            Some(k) => Some(k - i),
            None => None::<int>,
        },
{
    lemma_find_from_spec(s, p, i);
    match find_from(s, p, i) {
        Some(k) => {
            lemma_matches_skip(s, p, i, k - i);
            assert forall|j: int| 0 <= j < k - i implies !#[trigger] matches_at(s.skip(i), p, j) by {
                lemma_matches_skip(s, p, i, j);
            }
            lemma_find_from_is(s.skip(i), p, 0, k - i);
        },
        None => {
            assert forall|j: int| 0 <= j implies !#[trigger] matches_at(s.skip(i), p, j) by {
                lemma_matches_skip(s, p, i, j);
            }
            lemma_find_from_spec(s.skip(i), p, 0);
        },
    }
}

// ── counting ──────────────────────────────────────────────────────────────

/// Number of non-overlapping occurrences of the non-empty `p` in `s`.
pub fn count_matches_exec(s: &[char], p: &[char]) -> (n: usize)
    requires
        p@.len() > 0,
    ensures
        n == count_matches(s@, p@),
{
    let mut n: usize = 0;
    let mut i: usize = 0;
    assert(s@.skip(0) =~= s@);
    loop
        invariant
            i <= s.len(),
            p@.len() > 0,
            count_matches(s@, p@) == n + count_matches(s@.skip(i as int), p@),
            n <= i,
        decreases s.len() + 1 - i,
    {
        proof {
            lemma_find_skip(s@, p@, i as int);
        }
        match find_from_exec(s, p, i) {
            Some(k) => {
                proof {
                    assert(s@.skip(i as int).skip(k - i + p@.len()) =~= s@.skip(k + p@.len()));
                }
                n += 1;
                i = k + p.len();
            },
            None => {
                return n;
            },
        }
    }
}

// ── trimming ──────────────────────────────────────────────────────────────

proof fn lemma_trim_start_skip(s: Seq<char>, i: int)
    requires
        0 <= i < s.len(),
        is_ws(s[i]),
    ensures
        trim_start(s.skip(i)) == trim_start(s.skip(i + 1)),
{
    assert(s.skip(i).drop_first() =~= s.skip(i + 1));
}

proof fn lemma_trim_end_take(s: Seq<char>, j: int)
    requires
        0 < j <= s.len(),
        is_ws(s[j - 1]),
    ensures
        trim_end(s.take(j)) == trim_end(s.take(j - 1)),
{
    assert(s.take(j).drop_last() =~= s.take(j - 1));
}

/// Index of the first non-whitespace char of `s` (or its length).
pub fn trim_start_index(s: &[char]) -> (i: usize)
    ensures
        i <= s@.len(),
        trim_start(s@) == s@.skip(i as int),
        forall|k: int| 0 <= k < i ==> is_ws(#[trigger] s@[k]),
{
    let mut i: usize = 0;
    assert(s@.skip(0) =~= s@);
    while i < s.len() && char_is_ws(s[i])
        invariant
            i <= s@.len(),
            trim_start(s@) == trim_start(s@.skip(i as int)),
            forall|k: int| 0 <= k < i ==> is_ws(#[trigger] s@[k]),
        decreases s.len() - i,
    {
        proof {
            lemma_trim_start_skip(s@, i as int);
        }
        i += 1;
    }
    i
}

/// Index just past the last non-whitespace char of `s[..end]` (or 0).
pub fn trim_end_index(s: &[char], end: usize) -> (j: usize)
    requires
        end <= s@.len(),
    ensures
        j <= end,
        trim_end(s@.take(end as int)) == s@.take(j as int),
        forall|k: int| j <= k < end ==> is_ws(#[trigger] s@[k]),
{
    let mut j: usize = end;
    while j > 0 && char_is_ws(s[j - 1])
        invariant
            j <= end <= s@.len(),
            trim_end(s@.take(end as int)) == trim_end(s@.take(j as int)),
            forall|k: int| j <= k < end ==> is_ws(#[trigger] s@[k]),
        decreases j,
    {
        proof {
            lemma_trim_end_take(s@, j as int);
        }
        j -= 1;
    }
    j
}

/// Bounds `(a, b)` of `trim(s@)` inside `s`.
pub fn trim_bounds(s: &[char]) -> (r: (usize, usize))
    ensures
        r.0 <= r.1 <= s@.len(),
        trim(s@) == s@.subrange(r.0 as int, r.1 as int),
{
    let a = trim_start_index(s);
    let sub = &s[a..s.len()];
    let b = trim_end_index(sub, sub.len());
    assert(sub@ =~= s@.skip(a as int));
    assert(sub@.take(sub@.len() as int) =~= sub@);
    assert(sub@.take(b as int) =~= s@.subrange(a as int, a + b));
    (a, a + b)
}

/// Sub-slice of `s` between char indices `a` and `b`.
pub fn substr(s: &str, a: usize, b: usize) -> (r: &str)
    requires
        a <= b <= s@.len(),
    ensures
        r@ == s@.subrange(a as int, b as int),
{
    s.substring_char(a, b)
}

/// `s` trimmed of surrounding whitespace (`str::trim`).
pub fn trim_str(s: &str) -> (r: &str)
    ensures
        r@ == trim(s@),
{
    let cs = chars_of(s);
    let (a, b) = trim_bounds(cs.as_slice());
    s.substring_char(a, b)
}

// ── building strings ──────────────────────────────────────────────────────

/// Appends one char to a string (`String::push`).
#[verifier::external_body]
pub(crate) fn push_char(s: &mut String, c: char)
    ensures
        final(s)@ == old(s)@.push(c),
{
    s.push(c)
}

/// A string holding exactly the chars of `v`.
pub fn string_from_chars(v: &[char]) -> (s: String)
    ensures
        s@ == v@,
{
    let mut s = String::new();
    let mut i: usize = 0;
    while i < v.len()
        invariant
            i <= v@.len(),
            s@ == v@.take(i as int),
        decreases v.len() - i,
    {
        push_char(&mut s, v[i]);
        assert(v@.take(i + 1) =~= v@.take(i as int).push(v@[i as int]));
        i += 1;
    }
    assert(v@.take(v@.len() as int) =~= v@);
    s
}

/// The chars of `s` but the last (`String::pop`, result dropped).
pub open spec fn popped(s: Seq<char>) -> Seq<char> {
    if s.len() > 0 { s.drop_last() } else { s }
}

/// Removes the last char of `s`, if any.
pub fn pop_char(s: &mut String)
    ensures
        final(s)@ == popped(old(s)@),
{
    let c = chars_of(s.as_str());
    let n = c.len();
    if n > 0 {
        *s = string_from_chars(&c.as_slice()[0..n - 1]);
        assert(c@.subrange(0, n - 1) =~= old(s)@.drop_last());
    }
}

/// An owned copy of a string slice.
pub fn to_owned(s: &str) -> (r: String)
    ensures
        r@ == s@,
{
    String::from_str(s)
}

/// Appends the chars of `v` to the vector `out`.
pub fn extend_chars(out: &mut Vec<char>, v: &[char])
    ensures
        final(out)@ == old(out)@ + v@,
{
    let mut i: usize = 0;
    while i < v.len()
        invariant
            i <= v@.len(),
            out@ == old(out)@ + v@.take(i as int),
        decreases v.len() - i,
    {
        out.push(v[i]);
        assert(v@.take(i + 1) =~= v@.take(i as int).push(v@[i as int]));
        i += 1;
    }
    assert(v@.take(v@.len() as int) =~= v@);
}

/// Appends the chars of `s` to the vector `out`.
pub fn extend_str(out: &mut Vec<char>, s: &str)
    ensures
        final(out)@ == old(out)@ + s@,
{
    let cs = chars_of(s);
    extend_chars(out, cs.as_slice());
}


// ── splitting ─────────────────────────────────────────────────────────────

/// The pieces of `s` between occurrences of `c` (`str::split(c)`).
pub open spec fn split_char(s: Seq<char>, c: char) -> Seq<Seq<char>>
    decreases s.len(),
{
    match find(s, seq![c]) {
        None => seq![s],
        Some(i) => if 0 <= i < s.len() {
            seq![s.take(i)] + split_char(s.skip(i + 1), c)
        } else {
            seq![s]
        },
    }
}

/// The views of a vector of char vectors.
pub open spec fn views(v: Seq<Vec<char>>) -> Seq<Seq<char>> {
    v.map_values(|x: Vec<char>| x@)
}

/// The views of a vector of strings.
pub open spec fn string_views(v: Seq<String>) -> Seq<Seq<char>> {
    v.map_values(|x: String| x@)
}

/// A vector holding the chars of `s[a..b]`.
pub fn slice_to_vec(s: &[char], a: usize, b: usize) -> (v: Vec<char>)
    requires
        a <= b <= s@.len(),
    ensures
        v@ == s@.subrange(a as int, b as int),
{
    let mut v: Vec<char> = Vec::new();
    extend_chars(&mut v, &s[a..b]);
    v
}

/// The pieces of `s` between occurrences of `c`.
pub fn split_char_exec(s: &[char], c: char) -> (parts: Vec<Vec<char>>)
    ensures
        views(parts@) == split_char(s@, c),
{
    let pat = vec![c];
    let mut parts: Vec<Vec<char>> = Vec::new();
    let mut i: usize = 0;
    assert(s@.skip(0) =~= s@);
    assert(views(parts@) + split_char(s@.skip(0), c) =~= split_char(s@, c));
    loop
        invariant
            i <= s@.len(),
            pat@ == seq![c],
            views(parts@) + split_char(s@.skip(i as int), c) == split_char(s@, c),
        decreases s@.len() - i,
    {
        proof {
            lemma_find_skip(s@, pat@, i as int);
        }
        match find_from_exec(s, pat.as_slice(), i) {
            Some(k) => {
                let piece = slice_to_vec(s, i, k);
                proof {
                    let t = s@.skip(i as int);
                    assert(t.take(k - i) =~= piece@);
                    assert(t.skip(k - i + 1) =~= s@.skip(k + 1));
                    assert(views(parts@.push(piece)) =~= views(parts@).push(piece@));
                    assert(seq![piece@] + split_char(s@.skip(k + 1), c) =~= split_char(t, c));
                    assert(views(parts@).push(piece@) + split_char(s@.skip(k + 1), c) =~= views(parts@)
                        + split_char(t, c));
                }
                parts.push(piece);
                let n = s.len();
                assert(k + 1 <= n);
                i = k + 1;
            },
            None => {
                let piece = slice_to_vec(s, i, s.len());
                proof {
                    assert(piece@ =~= s@.skip(i as int));
                    assert(views(parts@.push(piece)) =~= views(parts@).push(piece@));
                }
                parts.push(piece);
                return parts;
            },
        }
    }
}

/// The trimmed, non-empty pieces among `parts`, in order.
pub open spec fn trimmed_nonempty(parts: Seq<Seq<char>>) -> Seq<Seq<char>>
    decreases parts.len(),
{
    if parts.len() == 0 {
        seq![]
    } else {
        let t = trim(parts[0]);
        (if t.len() > 0 {
            seq![t]
        } else {
            Seq::<Seq<char>>::empty()
        }) + trimmed_nonempty(parts.drop_first())
    }
}

/// The trimmed, non-empty pieces among `parts`, as strings.
pub fn trimmed_nonempty_exec(parts: &Vec<Vec<char>>) -> (r: Vec<String>)
    ensures
        string_views(r@) == trimmed_nonempty(views(parts@)),
{
    let mut r: Vec<String> = Vec::new();
    let mut i: usize = 0;
    assert(views(parts@).skip(0) =~= views(parts@));
    while i < parts.len()
        invariant
            i <= parts@.len(),
            string_views(r@) + trimmed_nonempty(views(parts@).skip(i as int)) == trimmed_nonempty(
                views(parts@),
            ),
        decreases parts.len() - i,
    {
        let part = parts[i].as_slice();
        let (a, b) = trim_bounds(part);
        proof {
            let ps = views(parts@).skip(i as int);
            assert(ps[0] == parts@[i as int]@);
            assert(ps.drop_first() =~= views(parts@).skip(i + 1));
        }
        if a < b {
            let t = string_from_chars(&part[a..b]);
            proof {
                assert(string_views(r@.push(t)) =~= string_views(r@).push(t@));
                let ps = views(parts@).skip(i as int);
                assert(string_views(r@).push(t@) + trimmed_nonempty(ps.drop_first()) =~= string_views(
                    r@,
                ) + trimmed_nonempty(ps));
            }
            r.push(t);
        } else {
            proof {
                let ps = views(parts@).skip(i as int);
                assert(string_views(r@) + trimmed_nonempty(ps.drop_first()) =~= string_views(r@)
                    + trimmed_nonempty(ps));
            }
        }
        i += 1;
    }
    assert(trimmed_nonempty(views(parts@).skip(i as int)) =~= Seq::<Seq<char>>::empty());
    assert(string_views(r@) + Seq::<Seq<char>>::empty() =~= string_views(r@));
    r
}


// ── comparing ─────────────────────────────────────────────────────────────

/// Whether two char slices are equal.
pub fn chars_eq(a: &[char], b: &[char]) -> (r: bool)
    ensures
        r == (a@ == b@),
{
    if a.len() != b.len() {
        return false;
    }
    let mut i: usize = 0;
    while i < a.len()
        invariant
            a@.len() == b@.len(),
            i <= a@.len(),
            forall|k: int| 0 <= k < i ==> a@[k] == b@[k],
        decreases a.len() - i,
    {
        if a[i] != b[i] {
            return false;
        }
        i += 1;
    }
    assert(a@ =~= b@);
    true
}

/// Whether the string `s` consists of exactly the chars of `lit`.
pub fn str_is(s: &str, lit: &[char]) -> (r: bool)
    ensures
        r == (s@ == lit@),
{
    let cs = chars_of(s);
    chars_eq(cs.as_slice(), lit)
}

/// Whether two strings are equal.
pub fn str_eq(a: &str, b: &str) -> (r: bool)
    ensures
        r == (a@ == b@),
{
    let ca = chars_of(a);
    let cb = chars_of(b);
    chars_eq(ca.as_slice(), cb.as_slice())
}

/// Whether `s` begins with the chars of `p`.
pub fn starts_with_exec(s: &[char], p: &[char]) -> (r: bool)
    ensures
        r == starts_with(s@, p@),
{
    matches_at_exec(s, p, 0)
}

/// Whether `s` ends with the chars of `p`.
pub fn ends_with_exec(s: &[char], p: &[char]) -> (r: bool)
    ensures
        r == ends_with(s@, p@),
{
    if p.len() > s.len() {
        return false;
    }
    matches_at_exec(s, p, s.len() - p.len())
}

/// Whether `p` occurs in `s`.
pub fn contains_exec(s: &[char], p: &[char]) -> (r: bool)
    ensures
        r == contains(s@, p@),
{
    proof {
        lemma_find_from_spec(s@, p@, 0);
    }
    find_from_exec(s, p, 0).is_some()
}


// ── words ─────────────────────────────────────────────────────────────────

/// The whitespace-separated words of `s`, where `cur` is a word already
/// begun before `s`.
pub open spec fn words_from(s: Seq<char>, cur: Seq<char>) -> Seq<Seq<char>>
    decreases s.len(),
{
    if s.len() == 0 {
        if cur.len() > 0 {
            seq![cur]
        } else {
            seq![]
        }
    } else if is_ws(s[0]) {
        (if cur.len() > 0 {
            seq![cur]
        } else {
            Seq::<Seq<char>>::empty()
        }) + words_from(s.drop_first(), Seq::empty())
    } else {
        words_from(s.drop_first(), cur.push(s[0]))
    }
}

/// The whitespace-separated words of `s` (`str::split_whitespace`).
pub open spec fn words(s: Seq<char>) -> Seq<Seq<char>> {
    words_from(s, Seq::empty())
}

/// The whitespace-separated words of `s`.
pub fn words_exec(s: &[char]) -> (ws: Vec<Vec<char>>)
    ensures
        views(ws@) == words(s@),
{
    let mut ws: Vec<Vec<char>> = Vec::new();
    let mut cur: Vec<char> = Vec::new();
    let mut i: usize = 0;
    assert(s@.skip(0) =~= s@);
    while i < s.len()
        invariant
            i <= s@.len(),
            views(ws@) + words_from(s@.skip(i as int), cur@) == words(s@),
        decreases s.len() - i,
    {
        let c = s[i];
        let ghost rest = s@.skip(i as int);
        assert(rest[0] == c);
        assert(rest.drop_first() =~= s@.skip(i + 1));
        if char_is_ws(c) {
            if cur.len() > 0 {
                proof {
                    assert(views(ws@.push(cur)) =~= views(ws@).push(cur@));
                    assert(views(ws@).push(cur@) + words_from(s@.skip(i + 1), Seq::empty()) =~= views(ws@)
                        + (seq![cur@] + words_from(s@.skip(i + 1), Seq::empty())));
                }
                ws.push(cur);
            } else {
                assert(Seq::<Seq<char>>::empty() + words_from(s@.skip(i + 1), Seq::empty())
                    =~= words_from(s@.skip(i + 1), Seq::empty()));
            }
            cur = Vec::new();
            assert(cur@ =~= Seq::<char>::empty());
        } else {
            cur.push(c);
        }
        i += 1;
    }
    assert(s@.skip(i as int) =~= Seq::<char>::empty());
    if cur.len() > 0 {
        proof {
            assert(views(ws@.push(cur)) =~= views(ws@).push(cur@));
        }
        ws.push(cur);
    } else {
        assert(views(ws@) + Seq::<Seq<char>>::empty() =~= views(ws@));
    }
    ws
}

// ── case ──────────────────────────────────────────────────────────────────

/// `c` with ASCII upper-case letters mapped to lower case.
pub open spec fn ascii_lower(c: char) -> char {
    if 'A' <= c && c <= 'Z' {
        ((c as u32) + 32) as char
    } else {
        c
    }
}

/// `s` with ASCII upper-case letters mapped to lower case.
pub open spec fn ascii_lower_str(s: Seq<char>) -> Seq<char> {
    s.map_values(|c: char| ascii_lower(c))
}

/// ASCII lower case of one char (`char::to_ascii_lowercase`).
pub fn ascii_lower_char(c: char) -> (r: char)
    ensures
        r == ascii_lower(c),
{
    if 'A' <= c && c <= 'Z' {
        let u = c as u32;
        ((u + 32) as u8) as char
    } else {
        c
    }
}

/// ASCII lower case of a char slice (`str::to_ascii_lowercase`).
pub fn ascii_lower_chars(s: &[char]) -> (r: Vec<char>)
    ensures
        r@ == ascii_lower_str(s@),
{
    let mut r: Vec<char> = Vec::new();
    let mut i: usize = 0;
    while i < s.len()
        invariant
            i <= s@.len(),
            r@ == ascii_lower_str(s@.take(i as int)),
        decreases s.len() - i,
    {
        r.push(ascii_lower_char(s[i]));
        assert(ascii_lower_str(s@.take(i + 1)) =~= ascii_lower_str(s@.take(i as int)).push(
            ascii_lower(s@[i as int]),
        ));
        i += 1;
    }
    assert(s@.take(s@.len() as int) =~= s@);
    r
}

// ── UTF-8 lengths ─────────────────────────────────────────────────────────

/// Number of UTF-8 bytes of `c`.
pub open spec fn char_width(c: char) -> nat {
    vstd::utf8::encode_scalar(c as u32).len()
}

pub proof fn lemma_encode_concat(a: Seq<char>, b: Seq<char>)
    ensures
        vstd::utf8::encode_utf8(a + b) == vstd::utf8::encode_utf8(a) + vstd::utf8::encode_utf8(b),
    decreases a.len(),
{
    if a.len() == 0 {
        assert(a + b =~= b);
    } else {
        assert((a + b).drop_first() =~= a.drop_first() + b);
        lemma_encode_concat(a.drop_first(), b);
    }
}

pub proof fn lemma_encode_push(a: Seq<char>, c: char)
    ensures
        vstd::utf8::encode_utf8(a.push(c)).len() == vstd::utf8::encode_utf8(a).len() + char_width(c),
{
    lemma_encode_concat(a, seq![c]);
    assert(a + seq![c] =~= a.push(c));
    assert(seq![c].drop_first() =~= Seq::<char>::empty());
    assert(vstd::utf8::encode_utf8(Seq::<char>::empty()) =~= Seq::<u8>::empty());
    assert(vstd::utf8::encode_utf8(seq![c]) =~= vstd::utf8::encode_scalar(c as u32)
        + vstd::utf8::encode_utf8(Seq::<char>::empty()));
}

pub fn char_width_exec(c: char) -> (w: usize)
    ensures
        w == char_width(c),
        1 <= w <= 4,
{
    proof {
        vstd::utf8::char_is_scalar(c);
    }
    let v = c as u32;
    if v <= 0x7F {
        1
    } else if v <= 0x7FF {
        2
    } else if v <= 0xFFFF {
        3
    } else {
        4
    }
}

/// Number of UTF-8 bytes of `s`.
pub open spec fn byte_len(s: Seq<char>) -> nat {
    vstd::utf8::encode_utf8(s).len()
}

/// Byte length of the first `k` chars of `s`.
pub fn prefix_bytes(s: &[char], k: usize) -> (b: usize)
    requires
        k <= s@.len(),
        byte_len(s@) <= usize::MAX,
    ensures
        b == byte_len(s@.take(k as int)),
{
    let mut i: usize = 0;
    let mut b: usize = 0;
    assert(s@.take(0) =~= Seq::<char>::empty());
    while i < k
        invariant
            i <= k <= s@.len(),
            b == byte_len(s@.take(i as int)),
            byte_len(s@) <= usize::MAX,
        decreases k - i,
    {
        proof {
            assert(s@.take(i + 1) =~= s@.take(i as int).push(s@[i as int]));
            lemma_encode_push(s@.take(i as int), s@[i as int]);
            lemma_encode_concat(s@.take(i + 1), s@.skip(i + 1));
            assert(s@.take(i + 1) + s@.skip(i + 1) =~= s@);
        }
        b = b + char_width_exec(s[i]);
        i += 1;
    }
    b
}

/// First occurrence of `p` in `s` (`str::find`).
pub fn find_exec(s: &[char], p: &[char]) -> (r: Option<usize>)
    ensures
        match r {
            Some(i) => find(s@, p@) == Some(i as int) && i + p@.len() <= s@.len(),
            None => find(s@, p@) is None,
        },
{
    proof {
        lemma_find_from_spec(s@, p@, 0);
    }
    let r = find_from_exec(s, p, 0);
    proof {
        if let Some(i) = r {
            lemma_find_from_is(s@, p@, 0, i as int);
            assert(matches_at(s@, p@, i as int));
        }
    }
    r
}

} // verus!
