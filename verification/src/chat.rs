//! Small text rules of the chat: model names, `#mentions`, `@path`
//! references, fuzzy search, attachment kinds, base64 and user colours.
use vstd::prelude::*;
use vstd::string::*;
use crate::message::AttachmentKind;
use crate::text::{
    ascii_lower_chars, ascii_lower_str, chars_eq, chars_of, contains, contains_exec, extend_chars,
    find, find_from_exec, lemma_find_from_spec, string_from_chars, string_views, substr, views,
    words, words_exec,
};
use crate::meta::{join, join_into};
use crate::paths::{extension_of, path_extension};

verus! {

// ── std character classes and case mapping ───────────────────────────────

/// Whether `c` is alphabetic or numeric in Unicode (`char::is_alphanumeric`).
pub uninterp spec fn unicode_alphanumeric(c: char) -> bool;

/// The Unicode lower-case mapping of `s` (`str::to_lowercase`).
pub uninterp spec fn unicode_lowercase(s: Seq<char>) -> Seq<char>;

/// ASCII letters and digits.
pub open spec fn is_ascii_alnum(c: char) -> bool {
    ('a' <= c && c <= 'z') || ('A' <= c && c <= 'Z') || ('0' <= c && c <= '9')
}

/// `char::is_alphanumeric`: named by `unicode_alphanumeric`; for ASCII it
/// holds exactly of letters and digits.
#[verifier::external_body]
pub(crate) fn is_alphanumeric(c: char) -> (b: bool)
    ensures
        b == unicode_alphanumeric(c),
        (c as u32) < 128 ==> (b == is_ascii_alnum(c)),
{
    c.is_alphanumeric()
}

/// `str::to_lowercase`: named by `unicode_lowercase`; an ASCII string
/// comes out with its upper-case letters in lower case and the rest as it
/// was.
#[verifier::external_body]
pub(crate) fn to_lowercase(s: &str) -> (r: String)
    ensures
        r@ == unicode_lowercase(s@),
        (forall|i: int| 0 <= i < s@.len() ==> (#[trigger] s@[i] as u32) < 128) ==> r@
            == crate::text::ascii_lower_str(s@),
{
    s.to_lowercase()
}

// ── model names ───────────────────────────────────────────────────────────

/// A model name without its version tag: the part before the first `:`.
pub open spec fn display_model_name(name: Seq<char>) -> Seq<char> {
    match find(name, seq![':']) {
        Some(i) => name.take(i),
        None => name,
    }
}

/// Strips the version tag from a model name: "qwen3.6:latest" → "qwen3.6".
pub fn model_display_name(name: &str) -> (r: &str)
    ensures
        r@ == display_model_name(name@),
{
    let cs = chars_of(name);
    let colon = vec![':'];
    assert(colon@ == seq![':']);
    match find_from_exec(cs.as_slice(), colon.as_slice(), 0) {
        Some(i) => {
            assert(name@.subrange(0, i as int) =~= name@.take(i as int));
            substr(name, 0, i)
        },
        None => name,
    }
}

// ── mentions ──────────────────────────────────────────────────────────────

/// Punctuation trimmed from both ends of a word before reading a mention.
pub open spec fn is_edge_punct(c: char) -> bool {
    c == '.' || c == ',' || c == '!' || c == '?' || c == ':' || c == ';'
}

pub open spec fn strip_punct_start(s: Seq<char>) -> Seq<char>
    decreases s.len(),
{
    if s.len() > 0 && is_edge_punct(s[0]) {
        strip_punct_start(s.drop_first())
    } else {
        s
    }
}

pub open spec fn strip_punct_end(s: Seq<char>) -> Seq<char>
    decreases s.len(),
{
    if s.len() > 0 && is_edge_punct(s.last()) {
        strip_punct_end(s.drop_last())
    } else {
        s
    }
}

/// Number of `c` in `s`.
pub open spec fn count_char(s: Seq<char>, c: char) -> nat
    decreases s.len(),
{
    if s.len() == 0 {
        0
    } else {
        count_char(s.drop_last(), c) + if s.last() == c {
            1nat
        } else {
            0nat
        }
    }
}

/// A char allowed in a mentioned name.
pub open spec fn is_name_char(c: char) -> bool {
    unicode_alphanumeric(c) || c == '_' || c == '-' || c == '#'
}

/// The mention a word makes: `#name` or `#name#id` (at most one inner `#`),
/// lower-cased, after edge punctuation is trimmed.
pub open spec fn mention_of(w: Seq<char>) -> Option<Seq<char>> {
    let t = strip_punct_end(strip_punct_start(w));
    if t.len() > 1 && t[0] == '#' {
        let name = t.skip(1);
        if count_char(name, '#') <= 1 && forall|k: int| 0 <= k < name.len() ==> is_name_char(
            #[trigger] name[k],
        ) {
            Some(ascii_lower_str(name))
        } else {
            None
        }
    } else {
        None
    }
}

/// The mentions made by the words `ws`, in order.
pub open spec fn mentions_in(ws: Seq<Seq<char>>) -> Seq<Seq<char>>
    decreases ws.len(),
{
    if ws.len() == 0 {
        seq![]
    } else {
        mentions_in(ws.drop_last()) + match mention_of(ws.last()) {
            Some(m) => seq![m],
            None => seq![],
        }
    }
}

fn edge_punct(c: char) -> (b: bool)
    ensures
        b == is_edge_punct(c),
{
    c == '.' || c == ',' || c == '!' || c == '?' || c == ':' || c == ';'
}

fn strip_punct_bounds(w: &[char]) -> (r: (usize, usize))
    ensures
        r.0 <= r.1 <= w@.len(),
        w@.subrange(r.0 as int, r.1 as int) == strip_punct_end(strip_punct_start(w@)),
{
    let mut a: usize = 0;
    assert(w@.skip(0) =~= w@);
    while a < w.len() && edge_punct(w[a])
        invariant
            a <= w@.len(),
            strip_punct_start(w@) == strip_punct_start(w@.skip(a as int)),
        decreases w.len() - a,
    {
        assert(w@.skip(a as int).drop_first() =~= w@.skip(a + 1));
        a += 1;
    }
    let mut b: usize = w.len();
    assert(w@.subrange(a as int, b as int) =~= w@.skip(a as int));
    while b > a && edge_punct(w[b - 1])
        invariant
            a <= b <= w@.len(),
            strip_punct_end(w@.skip(a as int)) == strip_punct_end(w@.subrange(a as int, b as int)),
            strip_punct_start(w@) == w@.skip(a as int),
        decreases b,
    {
        assert(w@.subrange(a as int, b as int).drop_last() =~= w@.subrange(a as int, b - 1));
        b -= 1;
    }
    (a, b)
}

fn mention_exec(w: &[char]) -> (r: Option<Vec<char>>)
    ensures
        match r {
            Some(m) => mention_of(w@) == Some(m@),
            None => mention_of(w@) is None,
        },
{
    let (a, b) = strip_punct_bounds(w);
    let t = &w[a..b];
    if !(t.len() > 1 && t[0] == '#') {
        return None;
    }
    let name = &t[1..t.len()];
    assert(name@ =~= t@.skip(1));
    let mut hashes: usize = 0;
    let mut i: usize = 0;
    while i < name.len()
        invariant
            i <= name@.len(),
            hashes == count_char(name@.take(i as int), '#'),
            hashes <= i,
            t@ == strip_punct_end(strip_punct_start(w@)),
            name@ == t@.skip(1),
            t@.len() > 1 && t@[0] == '#',
            forall|k: int| 0 <= k < i ==> is_name_char(#[trigger] name@[k]),
        decreases name.len() - i,
    {
        let c = name[i];
        assert(name@.take(i + 1).drop_last() =~= name@.take(i as int));
        if !(is_alphanumeric(c) || c == '_' || c == '-' || c == '#') {
            assert(!is_name_char(name@[i as int]));
            assert(t@ == strip_punct_end(strip_punct_start(w@)));
            assert(t@.skip(1) == name@);
            return None;
        }
        if c == '#' {
            hashes += 1;
        }
        i += 1;
    }
    assert(name@.take(i as int) =~= name@);
    assert(t@ == strip_punct_end(strip_punct_start(w@)));
    assert(t@.skip(1) == name@);
    if hashes > 1 {
        return None;
    }
    Some(ascii_lower_chars(name))
}

/// All `#name` / `#name#id` mentions in a message, lower-cased, in order.
pub fn extract_mentions(content: &str) -> (r: Vec<String>)
    ensures
        string_views(r@) == mentions_in(words(content@)),
{
    let cs = chars_of(content);
    let ws = words_exec(cs.as_slice());
    let mut r: Vec<String> = Vec::new();
    let mut i: usize = 0;
    while i < ws.len()
        invariant
            i <= ws@.len(),
            views(ws@) == words(content@),
            string_views(r@) == mentions_in(views(ws@).take(i as int)),
        decreases ws.len() - i,
    {
        let ghost pre = views(ws@).take(i + 1);
        assert(pre.drop_last() =~= views(ws@).take(i as int));
        assert(pre.last() == ws@[i as int]@);
        match mention_exec(ws[i].as_slice()) {
            Some(m) => {
                let s = string_from_chars(m.as_slice());
                proof {
                    assert(string_views(r@.push(s)) =~= string_views(r@).push(s@));
                }
                r.push(s);
            },
            None => {
                assert(mentions_in(pre) =~= mentions_in(pre.drop_last()));
            },
        }
        i += 1;
    }
    assert(views(ws@).take(ws@.len() as int) =~= views(ws@));
    r
}

/// `display_username` is mentioned in `content`: by its full lower-cased
/// form, or by `#all`.
pub open spec fn mentioned(display_username: Seq<char>, content: Seq<char>) -> bool {
    let ms = mentions_in(words(content));
    exists|k: int|
        0 <= k < ms.len() && (#[trigger] ms[k] == ascii_lower_str(display_username) || ms[k]
            == seq!['a', 'l', 'l'])
}

/// Whether `display_username` (e.g. "qwen3#a3f2") is mentioned in `content`;
/// only the full `#name#id` form counts, or the keyword `#all`.
pub fn is_mentioned(display_username: &str, content: &str) -> (b: bool)
    ensures
        b == mentioned(display_username@, content@),
{
    let du = chars_of(display_username);
    let full = ascii_lower_chars(du.as_slice());
    let ms = extract_mentions(content);
    let all = vec!['a', 'l', 'l'];
    assert(du@ == display_username@);
    let mut i: usize = 0;
    while i < ms.len()
        invariant
            i <= ms@.len(),
            string_views(ms@) == mentions_in(words(content@)),
            full@ == ascii_lower_str(display_username@),
            all@ == seq!['a', 'l', 'l'],
            forall|k: int|
                0 <= k < i ==> !(#[trigger] string_views(ms@)[k] == ascii_lower_str(
                    display_username@,
                ) || string_views(ms@)[k] == seq!['a', 'l', 'l']),
        decreases ms.len() - i,
    {
        let m = chars_of(ms[i].as_str());
        assert(string_views(ms@)[i as int] == m@);
        if chars_eq(m.as_slice(), full.as_slice()) || chars_eq(m.as_slice(), all.as_slice()) {
            let ghost ms_v = mentions_in(words(content@));
            assert(ms_v[i as int] == ascii_lower_str(display_username@) || ms_v[i as int] == seq![
                'a',
                'l',
                'l',
            ]);
            return true;
        }
        i += 1;
    }
    false
}

// ── fuzzy search ──────────────────────────────────────────────────────────

/// Every char of `s` is ASCII.
pub open spec fn all_ascii(s: Seq<char>) -> bool {
    forall|i: int| 0 <= i < s.len() ==> (#[trigger] s[i] as u32) < 128
}

/// The lower-case form of `s` (`str::to_lowercase`): for ASCII text its
/// upper-case letters in lower case, else as `unicode_lowercase` names it.
pub open spec fn text_lower(s: Seq<char>) -> Seq<char> {
    if all_ascii(s) {
        ascii_lower_str(s)
    } else {
        unicode_lowercase(s)
    }
}

/// `query` is empty, or its lower-case form occurs in that of `target`.
pub open spec fn fuzzy_matches(query: Seq<char>, target: Seq<char>) -> bool {
    query.len() == 0 || contains(text_lower(target), text_lower(query))
}

/// An ASCII query matches, whatever its case, every ASCII target that
/// holds it anywhere: at its start, its end or in between.
pub proof fn lemma_fuzzy_finds_infix(a: Seq<char>, q: Seq<char>, b: Seq<char>)
    requires
        all_ascii(a),
        all_ascii(q),
        all_ascii(b),
    ensures
        fuzzy_matches(q, a + q + b),
{
    let t = a + q + b;
    assert(all_ascii(t)) by {
        assert forall|i: int| 0 <= i < t.len() implies (#[trigger] t[i] as u32) < 128 by {
            if i < a.len() {
                assert(t[i] == a[i]);
            } else if i < a.len() + q.len() {
                assert(t[i] == q[i - a.len()]);
            } else {
                assert(t[i] == b[i - a.len() - q.len()]);
            }
        }
    }
    if q.len() > 0 {
        let lt = ascii_lower_str(t);
        let lq = ascii_lower_str(q);
        let i = a.len() as int;
        assert(lt.subrange(i, i + lq.len()) =~= lq);
        assert(crate::text::matches_at(lt, lq, i));
    }
}

proof fn lemma_lower_twice(x: Seq<char>)
    requires
        all_ascii(x),
    ensures
        all_ascii(ascii_lower_str(x)),
        ascii_lower_str(ascii_lower_str(x)) == ascii_lower_str(x),
        ascii_lower_str(x).len() == x.len(),
{
    let l = ascii_lower_str(x);
    assert forall|i: int| 0 <= i < l.len() implies (#[trigger] l[i] as u32) < 128 by {
        assert((x[i] as u32) < 128);
    }
    assert(ascii_lower_str(l) =~= l);
}

/// For ASCII text, case does not matter: a query and a target match
/// exactly when their lower-case forms do.
pub proof fn lemma_fuzzy_ignores_case(q: Seq<char>, t: Seq<char>)
    requires
        all_ascii(q),
        all_ascii(t),
    ensures
        fuzzy_matches(q, t) == fuzzy_matches(ascii_lower_str(q), ascii_lower_str(t)),
{
    lemma_lower_twice(q);
    lemma_lower_twice(t);
}

/// Case-insensitive substring match; an empty query matches everything.
pub fn fuzzy_match(query: &str, target: &str) -> (b: bool)
    ensures
        b == fuzzy_matches(query@, target@),
{
    if query.is_empty() {
        return true;
    }
    let t = to_lowercase(target);
    let q = to_lowercase(query);
    assert(t@ == text_lower(target@));
    assert(q@ == text_lower(query@));
    let tc = chars_of(t.as_str());
    let qc = chars_of(q.as_str());
    contains_exec(tc.as_slice(), qc.as_slice())
}

// ── @path references ──────────────────────────────────────────────────────

/// A word `@path` with a non-empty path names that path.
pub open spec fn at_path(w: Seq<char>) -> Option<Seq<char>> {
    if w.len() > 1 && w[0] == '@' {
        Some(w.skip(1))
    } else {
        None
    }
}

/// The words of `ws` that are not `@path` references.
pub open spec fn plain_words(ws: Seq<Seq<char>>) -> Seq<Seq<char>>
    decreases ws.len(),
{
    if ws.len() == 0 {
        seq![]
    } else {
        plain_words(ws.drop_last()) + if at_path(ws.last()) is Some {
            seq![]
        } else {
            seq![ws.last()]
        }
    }
}

/// The paths that the words of `ws` reference.
pub open spec fn at_paths(ws: Seq<Seq<char>>) -> Seq<Seq<char>>
    decreases ws.len(),
{
    if ws.len() == 0 {
        seq![]
    } else {
        at_paths(ws.drop_last()) + match at_path(ws.last()) {
            Some(p) => seq![p],
            None => seq![],
        }
    }
}

/// Splits `@path` tokens out of user input: the other words joined by single
/// spaces, and the paths in order.
pub fn split_at_paths(raw: &str) -> (r: (String, Vec<String>))
    ensures
        r.0@ == join(plain_words(words(raw@)), seq![' ']),
        string_views(r.1@) == at_paths(words(raw@)),
{
    let cs = chars_of(raw);
    let ws = words_exec(cs.as_slice());
    let mut kept: Vec<Vec<char>> = Vec::new();
    let mut paths: Vec<String> = Vec::new();
    let mut i: usize = 0;
    while i < ws.len()
        invariant
            i <= ws@.len(),
            views(ws@) == words(raw@),
            views(kept@) == plain_words(views(ws@).take(i as int)),
            string_views(paths@) == at_paths(views(ws@).take(i as int)),
        decreases ws.len() - i,
    {
        let ghost pre = views(ws@).take(i + 1);
        assert(pre.drop_last() =~= views(ws@).take(i as int));
        assert(pre.last() == ws@[i as int]@);
        let w = ws[i].as_slice();
        if w.len() > 1 && w[0] == '@' {
            let p = string_from_chars(&w[1..w.len()]);
            proof {
                assert(w@.subrange(1, w@.len() as int) =~= w@.skip(1));
                assert(string_views(paths@.push(p)) =~= string_views(paths@).push(p@));
                assert(plain_words(pre) =~= plain_words(pre.drop_last()));
            }
            paths.push(p);
        } else {
            let v = crate::text::slice_to_vec(w, 0, w.len());
            proof {
                assert(v@ =~= w@);
                assert(views(kept@.push(v)) =~= views(kept@).push(v@));
                assert(at_paths(pre) =~= at_paths(pre.drop_last()));
            }
            kept.push(v);
        }
        i += 1;
    }
    assert(views(ws@).take(ws@.len() as int) =~= views(ws@));
    let mut out: Vec<char> = Vec::new();
    let sp = vec![' '];
    assert(sp@ == seq![' ']);
    assert(views(kept@) == plain_words(words(raw@)));
    join_into(&mut out, &kept, sp.as_slice());
    (string_from_chars(out.as_slice()), paths)
}

// ── attachment kinds ──────────────────────────────────────────────────────

/// Extensions treated as images.
pub open spec fn image_exts() -> Seq<Seq<char>> {
    seq!["png"@, "jpg"@, "jpeg"@, "webp"@, "gif"@, "bmp"@]
}

/// The kind of a file with the given extension: an image for the image
/// extensions (in any case), text for every other extension, none without
/// one.
pub open spec fn kind_of_extension(ext: Option<Seq<char>>) -> Option<AttachmentKind> {
    match ext {
        None => None,
        Some(e) => if image_exts().contains(unicode_lowercase(e)) {
            Some(AttachmentKind::Image)
        } else {
            Some(AttachmentKind::Text)
        },
    }
}

/// The attachment kind of the file at `path`, from its extension.
pub fn file_kind(path: &str) -> (k: Option<AttachmentKind>)
    ensures
        k == kind_of_extension(path_extension(path@)),
{
    let ext = extension_of(path);
    let e = match &ext {
        Some(e) => e.as_str(),
        None => return None,
    };
    let lower = to_lowercase(e);
    let l = lower.as_str();
    proof {
        reveal_strlit("png");
        reveal_strlit("jpg");
        reveal_strlit("jpeg");
        reveal_strlit("webp");
        reveal_strlit("gif");
        reveal_strlit("bmp");
    }
    if crate::text::str_eq(l, "png") || crate::text::str_eq(l, "jpg") || crate::text::str_eq(l, "jpeg")
        || crate::text::str_eq(l, "webp") || crate::text::str_eq(l, "gif") || crate::text::str_eq(
        l,
        "bmp",
    ) {
        assert(image_exts().contains(l@)) by {
            if l@ == "png"@ {
                assert(image_exts()[0] == l@);
            } else if l@ == "jpg"@ {
                assert(image_exts()[1] == l@);
            } else if l@ == "jpeg"@ {
                assert(image_exts()[2] == l@);
            } else if l@ == "webp"@ {
                assert(image_exts()[3] == l@);
            } else if l@ == "gif"@ {
                assert(image_exts()[4] == l@);
            } else {
                assert(image_exts()[5] == l@);
            }
        }
        Some(AttachmentKind::Image)
    } else {
        assert(!image_exts().contains(l@)) by {
            if image_exts().contains(l@) {
                let k = choose|k: int| 0 <= k < 6 && image_exts()[k] == l@;
                assert(k == 0 || k == 1 || k == 2 || k == 3 || k == 4 || k == 5);
            }
        }
        Some(AttachmentKind::Text)
    }
}

// ── user colours ──────────────────────────────────────────────────────────

/// A 24-bit colour.
#[derive(Debug, Clone, Copy, PartialEq, Eq, Structural)]
pub struct Rgb {
    pub r: u8,
    pub g: u8,
    pub b: u8,
}

/// The djb2 hash (times 33 plus byte, wrapping, from 5381) of `bytes`.
pub open spec fn djb2(bytes: Seq<u8>) -> u64
    decreases bytes.len(),
{
    if bytes.len() == 0 {
        5381
    } else {
        vstd::wrapping::u64_specs::wrapping_add(
            vstd::wrapping::u64_specs::wrapping_mul(djb2(bytes.drop_last()), 33),
            bytes.last() as u64,
        )
    }
}

/// The palette of distinct hues that user names are coloured from.
pub open spec fn palette(i: int) -> Rgb {
    if i == 0 {
        Rgb { r: 166, g: 227, b: 161 }
    } else if i == 1 {
        Rgb { r: 137, g: 180, b: 250 }
    } else if i == 2 {
        Rgb { r: 249, g: 226, b: 175 }
    } else if i == 3 {
        Rgb { r: 250, g: 179, b: 135 }
    } else if i == 4 {
        Rgb { r: 243, g: 139, b: 168 }
    } else if i == 5 {
        Rgb { r: 116, g: 199, b: 236 }
    } else if i == 6 {
        Rgb { r: 148, g: 226, b: 213 }
    } else {
        Rgb { r: 180, g: 190, b: 254 }
    }
}

/// The colour of a user name: the palette entry picked by the djb2 hash of
/// its UTF-8 bytes.
pub open spec fn user_color(username: &str) -> Rgb {
    palette((djb2(username.spec_bytes()) % 8) as int)
}

/// Deterministic colour per user name.
pub fn username_color(username: &str) -> (c: Rgb)
    ensures
        c == user_color(username),
{
    let bytes = username.as_bytes();
    let mut h: u64 = 5381;
    let mut i: usize = 0;
    while i < bytes.len()
        invariant
            i <= bytes@.len(),
            h == djb2(bytes@.take(i as int)),
        decreases bytes.len() - i,
    {
        assert(bytes@.take(i + 1).drop_last() =~= bytes@.take(i as int));
        h = h.wrapping_mul(33).wrapping_add(bytes[i] as u64);
        i += 1;
    }
    assert(bytes@.take(i as int) =~= bytes@);
    let k = h % 8;
    if k == 0 {
        Rgb { r: 166, g: 227, b: 161 }
    } else if k == 1 {
        Rgb { r: 137, g: 180, b: 250 }
    } else if k == 2 {
        Rgb { r: 249, g: 226, b: 175 }
    } else if k == 3 {
        Rgb { r: 250, g: 179, b: 135 }
    } else if k == 4 {
        Rgb { r: 243, g: 139, b: 168 }
    } else if k == 5 {
        Rgb { r: 116, g: 199, b: 236 }
    } else if k == 6 {
        Rgb { r: 148, g: 226, b: 213 }
    } else {
        Rgb { r: 180, g: 190, b: 254 }
    }
}

} // verus!
