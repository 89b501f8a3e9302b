//! Sizes and positions on the chat screen: how far the message pane is
//! scrolled, the rows the input box shows, and the heights of the input
//! box and the question widget.
use vstd::prelude::*;
use crate::text::{chars_of, slice_to_vec, split_char, split_char_exec, string_from_chars, string_views, views};

verus! {

/// `a - b`, or 0.
pub open spec fn sub_or_zero(a: int, b: int) -> int {
    if a >= b { a - b } else { 0 }
}

/// The scroll of the message pane after drawing: following new output it
/// shows the last lines; with a message selected in the history it moves
/// just enough to show that message's first line (one line of context
/// above when scrolling up); it never passes the last line.
pub open spec fn scroll_after(auto: bool, scroll: u16, sel: Option<u16>, total: u16, visible: u16) -> u16 {
    let last = sub_or_zero(total as int, 1);
    if auto {
        sub_or_zero(total as int, visible as int) as u16
    } else {
        let s2: int = match sel {
            Some(s) => if s < scroll {
                sub_or_zero(s as int, 1)
            } else if s >= scroll + visible {
                s + 1 - visible
            } else {
                scroll as int
            },
            None => scroll as int,
        };
        (if s2 <= last { s2 } else { last }) as u16
    }
}

/// The scroll of the message pane, given `total` lines of which `visible`
/// show, and the first line of the selected message, if any.
pub fn chat_scroll(auto: bool, scroll: u16, sel: Option<u16>, total: u16, visible: u16) -> (r: u16)
    requires
        !auto && sel is Some && sel.unwrap() >= scroll ==> scroll + visible <= u16::MAX && sel.unwrap() < u16::MAX,
    ensures
        r == scroll_after(auto, scroll, sel, total, visible),
{
    let last = total.saturating_sub(1);
    if auto {
        return total.saturating_sub(visible);
    }
    let s2 = match sel {
        Some(s) => {
            if s < scroll {
                s.saturating_sub(1)
            } else if s >= scroll + visible {
                s + 1 - visible
            } else {
                scroll
            }
        },
        None => scroll,
    };
    if s2 <= last {
        s2
    } else {
        last
    }
}

/// Following new output, the last line shows; otherwise the scroll stays
/// on a line; a selected line (of at least two visible) shows.
pub proof fn lemma_scroll_shows(auto: bool, scroll: u16, sel: Option<u16>, total: u16, visible: u16)
    ensures
        auto ==> scroll_after(auto, scroll, sel, total, visible) + visible >= total,
        !auto ==> scroll_after(auto, scroll, sel, total, visible) <= sub_or_zero(total as int, 1),
        !auto && visible >= 2 ==> (sel matches Some(s) && s < total ==> {
            let r = scroll_after(auto, scroll, sel, total, visible);
            r <= sel.unwrap() < r + visible
        }),
{
}

// ── the input box ─────────────────────────────────────────────────────────

/// A non-empty line cut into pieces of `w` chars.
pub open spec fn pieces(s: Seq<char>, w: nat) -> Seq<Seq<char>>
    decreases s.len(),
{
    if w == 0 || s.len() <= w {
        seq![s]
    } else {
        seq![s.take(w as int)] + pieces(s.skip(w as int), w)
    }
}

/// The rows a line of the input box takes at `w` columns (an empty line
/// takes one empty row).
pub open spec fn line_rows(s: Seq<char>, w: nat) -> Seq<Seq<char>> {
    pieces(s, w)
}

/// The rows of all the lines, in order.
pub open spec fn all_rows(lines: Seq<Seq<char>>, w: nat) -> Seq<Seq<char>>
    decreases lines.len(),
{
    if lines.len() == 0 {
        seq![]
    } else {
        all_rows(lines.drop_last(), w) + line_rows(lines.last(), w)
    }
}

/// The rows the input box shows for `input` at `width` columns (at least
/// one column).
pub open spec fn input_row_texts(input: Seq<char>, width: nat) -> Seq<Seq<char>> {
    all_rows(split_char(input, '\n'), if width == 0 { 1 } else { width })
}

fn line_pieces(s: &[char], w: usize) -> (r: Vec<Vec<char>>)
    requires
        w > 0,
    ensures
        views(r@) == pieces(s@, w as nat),
{
    let mut out: Vec<Vec<char>> = Vec::new();
    let mut start: usize = 0;
    let n = s.len();
    assert(s@.skip(0) =~= s@);
    assert(views(out@) =~= Seq::<Seq<char>>::empty());
    loop
        invariant
            w > 0,
            n == s@.len(),
            start <= n,
            views(out@) + pieces(s@.skip(start as int), w as nat) == pieces(s@, w as nat),
        decreases n - start,
    {
        let ghost rest = s@.skip(start as int);
        if n - start <= w {
            let piece = slice_to_vec(s, start, n);
            assert(piece@ =~= rest);
            proof {
                assert(views(out@.push(piece)) =~= views(out@).push(piece@));
                assert(views(out@) + pieces(rest, w as nat) =~= views(out@).push(piece@));
            }
            out.push(piece);
            return out;
        }
        let piece = slice_to_vec(s, start, start + w);
        assert(piece@ =~= rest.take(w as int));
        assert(rest.skip(w as int) =~= s@.skip(start + w));
        proof {
            assert(views(out@.push(piece)) =~= views(out@).push(piece@));
            assert(views(out@) + pieces(rest, w as nat) =~= views(out@).push(piece@) + pieces(rest.skip(w as int), w as nat));
        }
        out.push(piece);
        start = start + w;
    }
}

/// The rows the input box shows for `input` at `width` columns, each
/// holding at most `width` chars (one when `width` is 0).
pub fn input_rows_of(input: &str, width: u16) -> (r: Vec<String>)
    ensures
        string_views(r@) == input_row_texts(input@, width as nat),
{
    let w: usize = if width == 0 {
        1
    } else {
        width as usize
    };
    let cs = chars_of(input);
    let lines = split_char_exec(cs.as_slice(), '\n');
    let ghost lv = views(lines@);
    let mut r: Vec<String> = Vec::new();
    let mut i: usize = 0;
    assert(lv.take(0) =~= Seq::<Seq<char>>::empty());
    while i < lines.len()
        invariant
            w > 0,
            w == (if width == 0 { 1 } else { width as nat }),
            i <= lines@.len(),
            lv == views(lines@),
            lv == split_char(input@, '\n'),
            string_views(r@) == all_rows(lv.take(i as int), w as nat),
        decreases lines.len() - i,
    {
        let ps = line_pieces(lines[i].as_slice(), w);
        assert(lv.take(i + 1).drop_last() =~= lv.take(i as int));
        assert(lv.take(i + 1).last() == lines@[i as int]@);
        let ghost before = string_views(r@);
        let mut k: usize = 0;
        while k < ps.len()
            invariant
                k <= ps@.len(),
                string_views(r@) == before + views(ps@).take(k as int),
            decreases ps.len() - k,
        {
            let s = string_from_chars(ps[k].as_slice());
            proof {
                assert(string_views(r@.push(s)) =~= string_views(r@).push(s@));
                assert(views(ps@).take(k + 1) =~= views(ps@).take(k as int).push(ps@[k as int]@));
            }
            r.push(s);
            k += 1;
        }
        assert(views(ps@).take(ps@.len() as int) =~= views(ps@));
        i += 1;
    }
    assert(lv.take(lines@.len() as int) =~= lv);
    r
}

/// How many rows of the input box are scrolled away so that the cursor's
/// row shows, in a box `height` rows tall (borders included).
pub open spec fn input_skip(cursor_row: nat, height: nat) -> nat {
    let visible = sub_or_zero(height as int, 2);
    sub_or_zero(cursor_row as int, sub_or_zero(visible, 1)) as nat
}

/// The rows of the input box scrolled away.
pub fn input_scroll(cursor_row: usize, height: u16) -> (r: usize)
    ensures
        r as nat == input_skip(cursor_row as nat, height as nat),
{
    let visible = (height as usize).saturating_sub(2);
    cursor_row.saturating_sub(visible.saturating_sub(1))
}

/// The height of the input box: its rows and borders, at most 10.
pub open spec fn input_box_height(rows: u16) -> u16 {
    if rows + 2 <= 10 { (rows + 2) as u16 } else { 10 }
}

/// The height of the input box for `rows` rows of text.
pub fn input_height(rows: u16) -> (h: u16)
    ensures
        h == input_box_height(rows),
{
    if rows <= 8 {
        rows + 2
    } else {
        10
    }
}

/// The height of the question widget: none for a free-text question (the
/// input box asks it), one row for yes/no, the options (at most 8) and
/// borders for a choice.
pub open spec fn ask_box_height(kind: crate::chat_keys::AskMode) -> u16 {
    match kind {
        crate::chat_keys::AskMode::Confirm => 1,
        crate::chat_keys::AskMode::Choice(n) => ((if n <= 8 { n } else { 8 }) + 2) as u16,
        _ => 0,
    }
}

/// The height of the question widget.
pub fn ask_height(kind: crate::chat_keys::AskMode) -> (h: u16)
    ensures
        h == ask_box_height(kind),
{
    match kind {
        crate::chat_keys::AskMode::Confirm => 1,
        crate::chat_keys::AskMode::Choice(n) => {
            let m: u16 = if n <= 8 {
                n as u16
            } else {
                8
            };
            m + 2
        },
        _ => 0,
    }
}

/// Every row of the input box fits its width.
pub proof fn lemma_rows_fit(lines: Seq<Seq<char>>, w: nat)
    requires
        w > 0,
    ensures
        forall|i: int| 0 <= i < all_rows(lines, w).len() ==> #[trigger] all_rows(lines, w)[i].len() <= w,
    decreases lines.len(),
{
    if lines.len() > 0 {
        lemma_rows_fit(lines.drop_last(), w);
        lemma_pieces_fit(lines.last(), w);
        let a = all_rows(lines.drop_last(), w);
        let b = line_rows(lines.last(), w);
        assert forall|i: int| 0 <= i < all_rows(lines, w).len() implies #[trigger] all_rows(lines, w)[i].len() <= w by {
            if i < a.len() {
                assert(all_rows(lines, w)[i] == a[i]);
            } else {
                assert(all_rows(lines, w)[i] == b[i - a.len()]);
            }
        }
    }
}

proof fn lemma_pieces_fit(s: Seq<char>, w: nat)
    requires
        w > 0,
    ensures
        forall|i: int| 0 <= i < pieces(s, w).len() ==> #[trigger] pieces(s, w)[i].len() <= w,
    decreases s.len(),
{
    if s.len() > w {
        lemma_pieces_fit(s.skip(w as int), w);
        let rest = pieces(s.skip(w as int), w);
        assert forall|i: int| 0 <= i < pieces(s, w).len() implies #[trigger] pieces(s, w)[i].len() <= w by {
            if i > 0 {
                assert(pieces(s, w)[i] == rest[i - 1]);
            }
        }
    }
}

/// Joining the rows of a line gives the line back.
pub proof fn lemma_pieces_join(s: Seq<char>, w: nat)
    requires
        w > 0,
    ensures
        crate::meta::join(pieces(s, w), Seq::empty()) == s,
    decreases s.len(),
{
    if s.len() > w {
        lemma_pieces_join(s.skip(w as int), w);
        lemma_join_cons(s.take(w as int), pieces(s.skip(w as int), w));
        assert(s.take(w as int) + s.skip(w as int) =~= s);
    } else {
        assert(crate::meta::join(seq![s], Seq::empty()) == s) by {
            lemma_join_single(s);
        }
    }
}

proof fn lemma_join_single(s: Seq<char>)
    ensures
        crate::meta::join(seq![s], Seq::empty()) == s,
{
    reveal_with_fuel(crate::meta::join, 2);
    assert(seq![s].drop_last() =~= Seq::<Seq<char>>::empty());
}

proof fn lemma_join_cons(head: Seq<char>, rest: Seq<Seq<char>>)
    requires
        rest.len() > 0,
    ensures
        crate::meta::join(seq![head] + rest, Seq::empty()) == head + crate::meta::join(rest, Seq::empty()),
    decreases rest.len(),
{
    let whole = seq![head] + rest;
    if rest.len() == 1 {
        reveal_with_fuel(crate::meta::join, 3);
        assert(whole.drop_last() =~= seq![head]);
        assert(rest.drop_last() =~= Seq::<Seq<char>>::empty());
        lemma_join_single(head);
    } else {
        assert(whole.drop_last() =~= seq![head] + rest.drop_last());
        lemma_join_cons(head, rest.drop_last());
    }
}

} // verus!
