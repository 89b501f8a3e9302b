//! Cursor movement over filtered lists and over the characters of a line.
use vstd::prelude::*;
use crate::text::{char_width_exec, lemma_encode_concat, lemma_encode_push};

verus! {

// ── filtered list navigation ──────────────────────────────────────────────

/// `i` is the first position of `x` in `s`.
pub open spec fn is_first_pos(s: Seq<usize>, x: usize, i: int) -> bool {
    &&& 0 <= i < s.len()
    &&& s[i] == x
    &&& forall|j: int| 0 <= j < i ==> s[j] != x
}

/// `x` occurs in `s`.
pub open spec fn occurs(s: Seq<usize>, x: usize) -> bool {
    exists|i: int| 0 <= i < s.len() && s[i] == x
}

/// The first position of `x` in `s`, if it occurs.
pub open spec fn first_pos(s: Seq<usize>, x: usize) -> Option<int> {
    if exists|i: int| is_first_pos(s, x, i) {
        Some(choose|i: int| is_first_pos(s, x, i))
    } else {
        None
    }
}

/// Where `nav_prev` moves `cursor` within `filtered`.
pub open spec fn prev_target(cursor: usize, filtered: Seq<usize>) -> usize {
    match first_pos(filtered, cursor) {
        Some(p) => if p > 0 { filtered[p - 1] } else { cursor },
        None => if filtered.len() > 0 { filtered.last() } else { cursor },
    }
}

/// Where `nav_next` moves `cursor` within `filtered`.
pub open spec fn next_target(cursor: usize, filtered: Seq<usize>) -> usize {
    match first_pos(filtered, cursor) {
        Some(p) => if p + 1 < filtered.len() { filtered[p + 1] } else { cursor },
        None => if filtered.len() > 0 { filtered[0] } else { cursor },
    }
}

/// Where `snap_cursor` moves `cursor` within `filtered`.
pub open spec fn snap_target(cursor: usize, filtered: Seq<usize>) -> usize {
    if occurs(filtered, cursor) {
        cursor
    } else if filtered.len() > 0 {
        filtered[0]
    } else {
        0
    }
}

proof fn lemma_first_pos_unique(s: Seq<usize>, x: usize, i: int)
    requires
        is_first_pos(s, x, i),
    ensures
        first_pos(s, x) == Some(i),
{
    let k = choose|k: int| is_first_pos(s, x, k);
    assert(is_first_pos(s, x, k));
    if k < i {
        assert(s[k] != x);
    } else if i < k {
        assert(s[i] != x);
    }
}

/// The first position of `x` in `s`, searched from the front.
fn position(s: &[usize], x: usize) -> (r: Option<usize>)
    ensures
        r matches Some(p) ==> first_pos(s@, x) == Some(p as int),
        r is None ==> first_pos(s@, x) is None && !occurs(s@, x),
{
    let mut i: usize = 0;
    while i < s.len()
        invariant
            i <= s@.len(),
            forall|j: int| 0 <= j < i ==> s@[j] != x,
        decreases s.len() - i,
    {
        if s[i] == x {
            proof {
                lemma_first_pos_unique(s@, x, i as int);
            }
            return Some(i);
        }
        i += 1;
    }
    proof {
        assert(!exists|k: int| is_first_pos(s@, x, k));
    }
    None
}

/// Moves `cursor` to the entry before it in `filtered`; a cursor outside
/// `filtered` jumps to its last entry.
pub fn nav_prev(cursor: &mut usize, filtered: &[usize])
    ensures
        *final(cursor) == prev_target(*old(cursor), filtered@),
{
    match position(filtered, *cursor) {
        Some(pos) => {
            if pos > 0 {
                *cursor = filtered[pos - 1];
            }
        },
        None => {
            if filtered.len() > 0 {
                *cursor = filtered[filtered.len() - 1];
            }
        },
    }
}

/// Moves `cursor` to the entry after it in `filtered`; a cursor outside
/// `filtered` jumps to its first entry.
pub fn nav_next(cursor: &mut usize, filtered: &[usize])
    ensures
        *final(cursor) == next_target(*old(cursor), filtered@),
{
    match position(filtered, *cursor) {
        Some(pos) => {
            if pos < filtered.len() - 1 {
                *cursor = filtered[pos + 1];
            }
        },
        None => {
            if filtered.len() > 0 {
                *cursor = filtered[0];
            }
        },
    }
}

/// Keeps `cursor` if `filtered` holds it, else moves it to the first entry
/// (or 0 when `filtered` is empty).
pub fn snap_cursor(cursor: &mut usize, filtered: &[usize])
    ensures
        *final(cursor) == snap_target(*old(cursor), filtered@),
{
    match position(filtered, *cursor) {
        Some(_) => {},
        None => {
            *cursor = if filtered.len() > 0 {
                filtered[0]
            } else {
                0
            };
        },
    }
}

/// A cursor that `filtered` holds stays in `filtered` under `nav_prev`,
/// `nav_next` and `snap_cursor`; a non-empty `filtered` always receives the
/// cursor.
pub proof fn lemma_nav_stays_in_list(cursor: usize, filtered: Seq<usize>)
    requires
        filtered.len() > 0,
    ensures
        occurs(filtered, prev_target(cursor, filtered)),
        occurs(filtered, next_target(cursor, filtered)),
        occurs(filtered, snap_target(cursor, filtered)),
{
    if exists|i: int| is_first_pos(filtered, cursor, i) {
        let p = choose|i: int| is_first_pos(filtered, cursor, i);
        assert(is_first_pos(filtered, cursor, p));
        assert(filtered[p] == cursor);
        if p > 0 {
            assert(filtered[p - 1] == prev_target(cursor, filtered));
        }
        if p + 1 < filtered.len() {
            assert(filtered[p + 1] == next_target(cursor, filtered));
        }
        assert(occurs(filtered, cursor));
    } else {
        assert(filtered[filtered.len() - 1] == prev_target(cursor, filtered));
        assert(filtered[0] == next_target(cursor, filtered));
    }
    if !occurs(filtered, cursor) {
        assert(filtered[0] == snap_target(cursor, filtered));
    }
}

/// Moving down then up through a list without repeats returns to the start,
/// unless the cursor was already on the last entry.
pub proof fn lemma_next_then_prev(cursor: usize, filtered: Seq<usize>, p: int)
    requires
        0 <= p < filtered.len() - 1,
        filtered[p] == cursor,
        forall|i: int, j: int| 0 <= i < j < filtered.len() ==> filtered[i] != filtered[j],
    ensures
        prev_target(next_target(cursor, filtered), filtered) == cursor,
{
    assert(is_first_pos(filtered, cursor, p));
    lemma_first_pos_unique(filtered, cursor, p);
    let n = filtered[p + 1];
    assert(is_first_pos(filtered, n, p + 1));
    lemma_first_pos_unique(filtered, n, p + 1);
}

// ── word motion within a line ─────────────────────────────────────────────

/// Where `word_left` lands from `cur` in `s`: the start of the word before
/// the cursor.
pub open spec fn word_left_at(s: Seq<char>, cur: int, r: int) -> bool {
    let start = if cur > 0 { cur - 1 } else { 0 };
    &&& 0 <= r <= start
    &&& (r == 0 || s[r - 1] == ' ')
    &&& forall|k: int| r <= k < start ==> s[k] != ' '
}

/// `i` advanced past the characters of `s` other than a space.
pub open spec fn skip_word(s: Seq<char>, i: int) -> int
    decreases s.len() - i,
{
    if 0 <= i < s.len() && s[i] != ' ' {
        skip_word(s, i + 1)
    } else {
        i
    }
}

/// `i` advanced past the spaces of `s`.
pub open spec fn skip_spaces(s: Seq<char>, i: int) -> int
    decreases s.len() - i,
{
    if 0 <= i < s.len() && s[i] == ' ' {
        skip_spaces(s, i + 1)
    } else {
        i
    }
}

/// Where `word_right` lands from `cur` in `s`: the start of the next word.
pub open spec fn word_right_target(s: Seq<char>, cur: int) -> int {
    skip_spaces(s, skip_word(s, cur))
}

proof fn lemma_skip_word_bound(s: Seq<char>, i: int)
    requires
        0 <= i <= s.len(),
    ensures
        i <= skip_word(s, i) <= s.len(),
    decreases s.len() - i,
{
    if i < s.len() && s[i] != ' ' {
        lemma_skip_word_bound(s, i + 1);
    }
}

proof fn lemma_skip_spaces_bound(s: Seq<char>, i: int)
    requires
        0 <= i <= s.len(),
    ensures
        i <= skip_spaces(s, i) <= s.len(),
    decreases s.len() - i,
{
    if i < s.len() && s[i] == ' ' {
        lemma_skip_spaces_bound(s, i + 1);
    }
}

/// From a position within `s`, the start of the next word lies at or after
/// it and within `s`.
pub proof fn lemma_word_right_bound(s: Seq<char>, cur: int)
    requires
        0 <= cur <= s.len(),
    ensures
        cur <= word_right_target(s, cur) <= s.len(),
{
    lemma_skip_word_bound(s, cur);
    lemma_skip_spaces_bound(s, skip_word(s, cur));
}

/// Index of the start of the word left of char index `cur` in `s`.
pub fn word_left(s: &str, cur: usize) -> (r: usize)
    requires
        cur <= s@.len() + 1,
    ensures
        word_left_at(s@, cur as int, r as int),
{
    let chars = crate::text::chars_of(s);
    let mut i: usize = if cur > 0 {
        cur - 1
    } else {
        0
    };
    let ghost start = i as int;
    while i > 0 && chars[i - 1] != ' '
        invariant
            0 <= i <= start,
            start <= chars@.len(),
            chars@ == s@,
            start == (if cur > 0 { cur - 1 } else { 0 }),
            forall|k: int| i <= k < start ==> chars@[k] != ' ',
        decreases i,
    {
        i -= 1;
    }
    i
}

/// Index of the start of the word right of char index `cur` in `s`.
pub fn word_right(s: &str, cur: usize) -> (r: usize)
    ensures
        r == word_right_target(s@, cur as int),
{
    let chars = crate::text::chars_of(s);
    let mut i: usize = cur;
    while i < chars.len() && chars[i] != ' '
        invariant
            cur <= i,
            chars@ == s@,
            skip_word(s@, i as int) == skip_word(s@, cur as int),
        decreases chars.len() - i,
    {
        i += 1;
    }
    let ghost mid = i as int;
    assert(skip_word(s@, i as int) == i);
    while i < chars.len() && chars[i] == ' '
        invariant
            mid <= i,
            chars@ == s@,
            skip_spaces(s@, i as int) == skip_spaces(s@, mid),
            mid == skip_word(s@, cur as int),
        decreases chars.len() - i,
    {
        i += 1;
    }
    i
}

// ── byte offsets ──────────────────────────────────────────────────────────

/// Byte offset of char index `char_idx` in `s`; the byte length of `s` when
/// the index is past the end.
pub fn char_to_byte(s: &str, char_idx: usize) -> (b: usize)
    requires
        vstd::utf8::encode_utf8(s@).len() <= usize::MAX,
    ensures
        char_idx <= s@.len() ==> b == vstd::utf8::encode_utf8(s@.take(char_idx as int)).len(),
        char_idx > s@.len() ==> b == vstd::utf8::encode_utf8(s@).len(),
{
    let chars = crate::text::chars_of(s);
    let n = if char_idx < chars.len() {
        char_idx
    } else {
        chars.len()
    };
    let mut i: usize = 0;
    let mut b: usize = 0;
    assert(s@.take(0) =~= Seq::<char>::empty());
    while i < n
        invariant
            i <= n <= chars@.len(),
            chars@ == s@,
            b == vstd::utf8::encode_utf8(s@.take(i as int)).len(),
            vstd::utf8::encode_utf8(s@).len() <= usize::MAX,
        decreases n - i,
    {
        proof {
            assert(s@.take(i + 1) =~= s@.take(i as int).push(s@[i as int]));
            lemma_encode_push(s@.take(i as int), s@[i as int]);
            lemma_encode_concat(s@.take(i + 1), s@.skip(i + 1));
            assert(s@.take(i + 1) + s@.skip(i + 1) =~= s@);
        }
        b = b + char_width_exec(chars[i]);
        i += 1;
    }
    if char_idx > chars.len() {
        assert(s@.take(n as int) =~= s@);
    }
    b
}

} // verus!
