//! Deciding how much of a streaming reply can already be shown.
use vstd::prelude::*;
use vstd::string::StringSliceAdditionalSpecFns;
use crate::text::{
    chars_of, find, find_from_exec, lemma_find_from_spec,
    lemma_find_skip, lemma_matches_skip, matches_at, matches_at_exec, starts_with,
};

verus! {

/// Tags of the agent protocol that must not reach the screen.
pub open spec fn stop_tags() -> Seq<Seq<char>> {
    seq![
        "<tool>"@,
        "</tool>"@,
        "<load_neuron>"@,
        "</load_neuron>"@,
        "<ask"@,
        "</ask>"@,
        "<patch>"@,
        "</patch>"@,
        "<mood>"@,
        "</mood>"@,
    ]
}

/// `s` (the rest of the reply from a `<`) is a protocol tag or the start
/// of one.
pub open spec fn near_stop_tag(s: Seq<char>) -> bool {
    exists|k: int| 0 <= k < stop_tags().len() && (starts_with(#[trigger] stop_tags()[k], s) || starts_with(s, stop_tags()[k]))
}

/// A char that may follow `<` in a protocol tag.
pub open spec fn tag_letter(c: char) -> bool {
    c == 't' || c == 'l' || c == 'a' || c == 'p' || c == 'm' || c == '/'
}

/// Scanning `c` from `pos`: the index up to which the reply can be shown,
/// skipping completed reasoning blocks and stopping before an unfinished
/// one or before any protocol tag; `None` where the scan meets a `<`
/// followed by a non-ASCII char, on which it cannot go on.
pub open spec fn print_boundary(c: Seq<char>, pos: int) -> Option<int>
    decreases c.len() - pos,
{
    if pos < 0 || pos > c.len() {
        None
    } else {
        match find(c.skip(pos), seq!['<']) {
            None => Some(c.len() as int),
            Some(rel) => {
                let abs = pos + rel;
                if 0 <= rel && abs < c.len() {
                    let sl = c.skip(abs);
                    if starts_with(sl, "<think>"@) {
                        match find(sl, "</think>"@) {
                            Some(e) => if 0 <= e && "</think>"@.len() > 0 && abs + e + "</think>"@.len() <= c.len() {
                                print_boundary(c, abs + e + "</think>"@.len())
                            } else {
                                None
                            },
                            None => Some(abs),
                        }
                    } else if starts_with(sl, "<thought>"@) {
                        match find(sl, "</thought>"@) {
                            Some(e) => if 0 <= e && "</thought>"@.len() > 0 && abs + e + "</thought>"@.len()
                                <= c.len() {
                                print_boundary(c, abs + e + "</thought>"@.len())
                            } else {
                                None
                            },
                            None => Some(abs),
                        }
                    } else if sl.len() < 2 {
                        Some(abs)
                    } else if (sl[1] as u32) >= 128 {
                        None
                    } else if !tag_letter(sl[1]) {
                        print_boundary(c, abs + 1)
                    } else if near_stop_tag(sl) {
                        Some(abs)
                    } else {
                        print_boundary(c, abs + 1)
                    }
                } else {
                    None
                }
            },
        }
    }
}

fn near_stop_tag_exec(c: &[char], abs: usize) -> (b: bool)
    requires
        abs <= c@.len(),
    ensures
        b == near_stop_tag(c@.skip(abs as int)),
{
    let tags: [&str; 10] = [
        "<tool>",
        "</tool>",
        "<load_neuron>",
        "</load_neuron>",
        "<ask",
        "</ask>",
        "<patch>",
        "</patch>",
        "<mood>",
        "</mood>",
    ];
    let ghost sl = c@.skip(abs as int);
    let n = c.len();
    let s = crate::text::slice_to_vec(c, abs, n);
    assert(s@ =~= sl);
    let mut k: usize = 0;
    while k < 10
        invariant
            k <= 10,
            s@ == sl,
            sl == c@.skip(abs as int),
            forall|j: int| 0 <= j < 10 ==> (#[trigger] tags@[j])@ == stop_tags()[j],
            forall|j: int|
                0 <= j < k ==> !(starts_with(#[trigger] stop_tags()[j], sl) || starts_with(sl, stop_tags()[j])),
        decreases 10 - k,
    {
        let t = chars_of(tags[k]);
        if crate::text::starts_with_exec(t.as_slice(), s.as_slice())
            || crate::text::starts_with_exec(s.as_slice(), t.as_slice()) {
            assert(tags@[k as int]@ == stop_tags()[k as int]);
            assert(stop_tags()[k as int] == t@);
            assert(starts_with(stop_tags()[k as int], sl) || starts_with(sl, stop_tags()[k as int]));
            return true;
        }
        k += 1;
    }
    false
}

fn find_in_suffix(c: &[char], p: &[char], from: usize) -> (r: Option<usize>)
    requires
        from <= c@.len(),
    ensures
        match r {
            Some(i) => find(c@.skip(from as int), p@) == Some(i - from) && from <= i && i + p@.len()
                <= c@.len(),
            None => find(c@.skip(from as int), p@) is None,
        },
{
    proof {
        lemma_find_skip(c@, p@, from as int);
        lemma_find_from_spec(c@, p@, from as int);
    }
    let r = find_from_exec(c, p, from);
    proof {
        if let Some(i) = r {
            assert(matches_at(c@, p@, i as int));
        }
    }
    r
}

fn boundary_chars(content: &str, from: usize) -> (r: usize)
    requires
        print_boundary(content@, from as int) is Some,
    ensures
        Some(r as int) == print_boundary(content@, from as int),
        r <= content@.len(),
{
    let c = chars_of(content);
    let n = c.len();
    let lt = vec!['<'];
    let o1 = chars_of("<think>");
    let c1 = chars_of("</think>");
    let o2 = chars_of("<thought>");
    let c2 = chars_of("</thought>");
    proof {
        reveal_strlit("</think>");
        reveal_strlit("</thought>");
    }
    assert(lt@ == seq!['<']);
    let mut pos = from;
    loop
        invariant
            pos <= n,
            n == c@.len(),
            c@ == content@,
            lt@ == seq!['<'],
            o1@ == "<think>"@,
            c1@ == "</think>"@,
            o2@ == "<thought>"@,
            c2@ == "</thought>"@,
            c1@.len() == 8,
            c2@.len() == 10,
            print_boundary(content@, pos as int) == print_boundary(content@, from as int),
            print_boundary(content@, from as int) is Some,
        decreases n - pos,
    {
        let abs = match find_in_suffix(c.as_slice(), lt.as_slice(), pos) {
            None => return n,
            Some(i) => i,
        };
        let ghost sl = c@.skip(abs as int);
        proof {
            lemma_matches_skip(c@, o1@, abs as int, 0);
            lemma_matches_skip(c@, o2@, abs as int, 0);
        }
        if matches_at_exec(c.as_slice(), o1.as_slice(), abs) {
            match find_in_suffix(c.as_slice(), c1.as_slice(), abs) {
                Some(e) => {
                    pos = e + c1.len();
                    continue;
                },
                None => return abs,
            }
        }
        if matches_at_exec(c.as_slice(), o2.as_slice(), abs) {
            match find_in_suffix(c.as_slice(), c2.as_slice(), abs) {
                Some(e) => {
                    pos = e + c2.len();
                    continue;
                },
                None => return abs,
            }
        }
        if n - abs < 2 {
            return abs;
        }
        let second = c[abs + 1];
        assert(sl[1] == second);
        if !(second == 't' || second == 'l' || second == 'a' || second == 'p' || second == 'm'
            || second == '/') {
            pos = abs + 1;
            continue;
        }
        if near_stop_tag_exec(c.as_slice(), abs) {
            return abs;
        }
        pos = abs + 1;
    }
}

fn checked_boundary_chars(content: &str, from: usize) -> (r: Option<usize>)
    ensures
        match r {
            Some(i) => print_boundary(content@, from as int) == Some(i as int) && i <= content@.len(),
            None => print_boundary(content@, from as int) is None,
        },
{
    let c = chars_of(content);
    let n = c.len();
    let lt = vec!['<'];
    let o1 = chars_of("<think>");
    let c1 = chars_of("</think>");
    let o2 = chars_of("<thought>");
    let c2 = chars_of("</thought>");
    proof {
        reveal_strlit("</think>");
        reveal_strlit("</thought>");
    }
    assert(lt@ == seq!['<']);
    if from > n {
        return None;
    }
    let mut pos = from;
    loop
        invariant
            pos <= n,
            n == c@.len(),
            c@ == content@,
            lt@ == seq!['<'],
            o1@ == "<think>"@,
            c1@ == "</think>"@,
            o2@ == "<thought>"@,
            c2@ == "</thought>"@,
            c1@.len() == 8,
            c2@.len() == 10,
            print_boundary(content@, pos as int) == print_boundary(content@, from as int),
        decreases n - pos,
    {
        let abs = match find_in_suffix(c.as_slice(), lt.as_slice(), pos) {
            None => return Some(n),
            Some(i) => i,
        };
        let ghost sl = c@.skip(abs as int);
        proof {
            lemma_matches_skip(c@, o1@, abs as int, 0);
            lemma_matches_skip(c@, o2@, abs as int, 0);
        }
        if matches_at_exec(c.as_slice(), o1.as_slice(), abs) {
            match find_in_suffix(c.as_slice(), c1.as_slice(), abs) {
                Some(e) => {
                    pos = e + c1.len();
                    continue;
                },
                None => return Some(abs),
            }
        }
        if matches_at_exec(c.as_slice(), o2.as_slice(), abs) {
            match find_in_suffix(c.as_slice(), c2.as_slice(), abs) {
                Some(e) => {
                    pos = e + c2.len();
                    continue;
                },
                None => return Some(abs),
            }
        }
        if n - abs < 2 {
            return Some(abs);
        }
        let second = c[abs + 1];
        assert(sl[1] == second);
        if (second as u32) >= 128 {
            return None;
        }
        if !(second == 't' || second == 'l' || second == 'a' || second == 'p' || second == 'm'
            || second == '/') {
            pos = abs + 1;
            continue;
        }
        if near_stop_tag_exec(c.as_slice(), abs) {
            return Some(abs);
        }
        pos = abs + 1;
    }
}

// ── byte offsets ──────────────────────────────────────────────────────────

/// The number of chars of `s` that come before its byte offset `b`.
pub open spec fn char_count_at(s: Seq<char>, b: int) -> int {
    crate::tags::before_byte(s, b).len() as int
}

/// The byte offset up to which the reply `content` can be shown, scanning
/// from byte offset `from`: completed reasoning blocks are passed over, and
/// the scan stops before an unfinished one or before any protocol tag.
pub fn safe_print_boundary(content: &str, from: usize) -> (r: usize)
    requires
        vstd::utf8::is_char_boundary(content.spec_bytes(), from as int),
        print_boundary(content@, char_count_at(content@, from as int)) is Some,
    ensures
        print_boundary(content@, char_count_at(content@, from as int)) matches Some(k) && r
            == crate::text::byte_len(content@.take(k)),
{
    let k = char_index_at(content, from);
    let e = boundary_chars(content, k);
    bytes_before(content, e)
}

/// `safe_print_boundary` for every start: `None` exactly where the scan
/// cannot go on (a start that is no char boundary of `content`, or a `<`
/// followed by a non-ASCII char where the scan looks at it).
pub fn checked_print_boundary(content: &str, from: usize) -> (r: Option<usize>)
    ensures
        match r {
            Some(b) => vstd::utf8::is_char_boundary(content.spec_bytes(), from as int) && (print_boundary(
                content@,
                char_count_at(content@, from as int),
            ) matches Some(k) && b == crate::text::byte_len(content@.take(k))),
            None => !vstd::utf8::is_char_boundary(content.spec_bytes(), from as int) || print_boundary(
                content@,
                char_count_at(content@, from as int),
            ) is None,
        },
{
    if !content.is_char_boundary(from) {
        return None;
    }
    let k = char_index_at(content, from);
    match checked_boundary_chars(content, k) {
        Some(e) => Some(bytes_before(content, e)),
        None => None,
    }
}

fn char_index_at(content: &str, from: usize) -> (k: usize)
    requires
        vstd::utf8::is_char_boundary(content.spec_bytes(), from as int),
    ensures
        k == char_count_at(content@, from as int),
{
    let (head, _) = content.split_at(from);
    proof {
        vstd::utf8::encode_utf8_decode_utf8(head@);
        assert(head.spec_bytes() =~= vstd::utf8::encode_utf8(content@).take(from as int));
    }
    let cs = chars_of(head);
    cs.len()
}

fn bytes_before(content: &str, k: usize) -> (b: usize)
    requires
        k <= content@.len(),
    ensures
        b == crate::text::byte_len(content@.take(k as int)),
{
    let bytes = content.as_bytes();
    let _total = bytes.len();
    let cs = chars_of(content);
    crate::text::prefix_bytes(cs.as_slice(), k)
}

} // verus!
