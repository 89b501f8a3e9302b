//! The multi-line input box: text, cursor (a char index), history and
//! completion popup, with readline-style editing.
use vstd::prelude::*;
use crate::chat::count_char;
use crate::text::{
    chars_of, contains, contains_exec, extend_chars, lemma_rfind_spec, rfind, rfind_exec,
    starts_with, starts_with_exec, string_from_chars, string_views, substr,
};
use crate::chat::{to_lowercase, unicode_lowercase};

verus! {

/// What a completion popup completes.
#[derive(Debug, Clone, Copy, PartialEq, Eq, Structural)]
pub enum CompletionKind {
    Path,
    Template,
}

/// An open completion popup.
#[derive(Debug)]
pub struct Completion {
    /// Completion strings (template names, or paths).
    pub candidates: Vec<String>,
    /// Selected index.
    pub cursor: usize,
    /// Char position of the trigger char (`@` or `/`) in the input.
    pub token_start: usize,
    pub kind: CompletionKind,
}

/// The editing state of the input box.
pub struct InputState {
    pub input: String,
    /// Cursor as a char index into `input`.
    pub cursor_pos: usize,
    pub input_history: Vec<String>,
    pub history_pos: Option<usize>,
    pub input_draft: String,
    pub completion: Option<Completion>,
}

// ── scanning specifications ───────────────────────────────────────────────

/// Start of the line containing position `i`: just after the last `\n`
/// before `i`, or 0.
pub open spec fn line_start(s: Seq<char>, i: int) -> int
    decreases i,
{
    if i > 0 && s[i - 1] != '\n' {
        line_start(s, i - 1)
    } else {
        i
    }
}

/// End of the line containing position `i`: the next `\n` at or after `i`,
/// or the end.
pub open spec fn line_end(s: Seq<char>, i: int) -> int
    decreases s.len() - i,
{
    if 0 <= i < s.len() && s[i] != '\n' {
        line_end(s, i + 1)
    } else {
        i
    }
}

/// Back from `i` over spaces (not newlines).
pub open spec fn back_spaces(s: Seq<char>, i: int) -> int
    decreases i,
{
    if i > 0 && s[i - 1] == ' ' {
        back_spaces(s, i - 1)
    } else {
        i
    }
}

/// Back from `i` over spaces and newlines.
pub open spec fn back_blanks(s: Seq<char>, i: int) -> int
    decreases i,
{
    if i > 0 && (s[i - 1] == ' ' || s[i - 1] == '\n') {
        back_blanks(s, i - 1)
    } else {
        i
    }
}

/// Back from `i` over word chars (neither space nor newline).
pub open spec fn back_word(s: Seq<char>, i: int) -> int
    decreases i,
{
    if i > 0 && s[i - 1] != ' ' && s[i - 1] != '\n' {
        back_word(s, i - 1)
    } else {
        i
    }
}

/// Forward from `i` over spaces and newlines.
pub open spec fn fwd_blanks(s: Seq<char>, i: int) -> int
    decreases s.len() - i,
{
    if 0 <= i < s.len() && (s[i] == ' ' || s[i] == '\n') {
        fwd_blanks(s, i + 1)
    } else {
        i
    }
}

/// Forward from `i` over word chars.
pub open spec fn fwd_word(s: Seq<char>, i: int) -> int
    decreases s.len() - i,
{
    if 0 <= i < s.len() && s[i] != ' ' && s[i] != '\n' {
        fwd_word(s, i + 1)
    } else {
        i
    }
}

/// `s` with the range `[a, b)` removed.
pub open spec fn cut(s: Seq<char>, a: int, b: int) -> Seq<char> {
    s.take(a) + s.skip(b)
}

/// `s` with `c` inserted at `i`.
pub open spec fn insert_at(s: Seq<char>, i: int, c: char) -> Seq<char> {
    s.take(i) + seq![c] + s.skip(i)
}

fn line_start_exec(s: &[char], i: usize) -> (r: usize)
    requires
        i <= s@.len(),
    ensures
        r == line_start(s@, i as int),
        r <= i,
{
    let mut j = i;
    while j > 0 && s[j - 1] != '\n'
        invariant
            j <= i <= s@.len(),
            line_start(s@, i as int) == line_start(s@, j as int),
        decreases j,
    {
        j -= 1;
    }
    j
}

fn line_end_exec(s: &[char], i: usize) -> (r: usize)
    requires
        i <= s@.len(),
    ensures
        r == line_end(s@, i as int),
        i <= r <= s@.len(),
{
    let mut j = i;
    while j < s.len() && s[j] != '\n'
        invariant
            i <= j <= s@.len(),
            line_end(s@, i as int) == line_end(s@, j as int),
        decreases s.len() - j,
    {
        j += 1;
    }
    j
}

fn back_spaces_exec(s: &[char], i: usize) -> (r: usize)
    requires
        i <= s@.len(),
    ensures
        r == back_spaces(s@, i as int),
        r <= i,
{
    let mut j = i;
    while j > 0 && s[j - 1] == ' '
        invariant
            j <= i <= s@.len(),
            back_spaces(s@, i as int) == back_spaces(s@, j as int),
        decreases j,
    {
        j -= 1;
    }
    j
}

fn back_blanks_exec(s: &[char], i: usize) -> (r: usize)
    requires
        i <= s@.len(),
    ensures
        r == back_blanks(s@, i as int),
        r <= i,
{
    let mut j = i;
    while j > 0 && (s[j - 1] == ' ' || s[j - 1] == '\n')
        invariant
            j <= i <= s@.len(),
            back_blanks(s@, i as int) == back_blanks(s@, j as int),
        decreases j,
    {
        j -= 1;
    }
    j
}

fn back_word_exec(s: &[char], i: usize) -> (r: usize)
    requires
        i <= s@.len(),
    ensures
        r == back_word(s@, i as int),
        r <= i,
{
    let mut j = i;
    while j > 0 && s[j - 1] != ' ' && s[j - 1] != '\n'
        invariant
            j <= i <= s@.len(),
            back_word(s@, i as int) == back_word(s@, j as int),
        decreases j,
    {
        j -= 1;
    }
    j
}

fn fwd_blanks_exec(s: &[char], i: usize) -> (r: usize)
    requires
        i <= s@.len(),
    ensures
        r == fwd_blanks(s@, i as int),
        i <= r <= s@.len(),
{
    let mut j = i;
    while j < s.len() && (s[j] == ' ' || s[j] == '\n')
        invariant
            i <= j <= s@.len(),
            fwd_blanks(s@, i as int) == fwd_blanks(s@, j as int),
        decreases s.len() - j,
    {
        j += 1;
    }
    j
}

fn fwd_word_exec(s: &[char], i: usize) -> (r: usize)
    requires
        i <= s@.len(),
    ensures
        r == fwd_word(s@, i as int),
        i <= r <= s@.len(),
{
    let mut j = i;
    while j < s.len() && s[j] != ' ' && s[j] != '\n'
        invariant
            i <= j <= s@.len(),
            fwd_word(s@, i as int) == fwd_word(s@, j as int),
        decreases s.len() - j,
    {
        j += 1;
    }
    j
}

fn cut_string(s: &[char], a: usize, b: usize) -> (r: String)
    requires
        a <= b <= s@.len(),
    ensures
        r@ == cut(s@, a as int, b as int),
{
    let mut v: Vec<char> = Vec::new();
    extend_chars(&mut v, &s[0..a]);
    extend_chars(&mut v, &s[b..s.len()]);
    assert(v@ =~= cut(s@, a as int, b as int));
    string_from_chars(v.as_slice())
}

fn count_newlines(s: &[char], n: usize) -> (r: usize)
    requires
        n <= s@.len(),
    ensures
        r == count_char(s@.take(n as int), '\n'),
        r <= n,
{
    let mut r: usize = 0;
    let mut i: usize = 0;
    while i < n
        invariant
            i <= n <= s@.len(),
            r == count_char(s@.take(i as int), '\n'),
            r <= i,
        decreases n - i,
    {
        assert(s@.take(i + 1).drop_last() =~= s@.take(i as int));
        if s[i] == '\n' {
            r += 1;
        }
        i += 1;
    }
    r
}

proof fn lemma_line_start_le(s: Seq<char>, i: int)
    requires
        0 <= i,
    ensures
        0 <= line_start(s, i) <= i,
    decreases i,
{
    if i > 0 && s[i - 1] != '\n' {
        lemma_line_start_le(s, i - 1);
    }
}

proof fn lemma_line_end_ge(s: Seq<char>, i: int)
    requires
        0 <= i <= s.len(),
    ensures
        i <= line_end(s, i) <= s.len(),
    decreases s.len() - i,
{
    if i < s.len() && s[i] != '\n' {
        lemma_line_end_ge(s, i + 1);
    }
}

proof fn lemma_line_end_newline(s: Seq<char>, i: int)
    requires
        0 <= i <= s.len(),
        line_end(s, i) < s.len(),
    ensures
        s[line_end(s, i)] == '\n',
    decreases s.len() - i,
{
    if i < s.len() && s[i] != '\n' {
        lemma_line_end_newline(s, i + 1);
    }
}

proof fn lemma_line_start_newline(s: Seq<char>, i: int)
    requires
        0 <= i <= s.len(),
        line_start(s, i) > 0,
    ensures
        s[line_start(s, i) - 1] == '\n',
    decreases i,
{
    if i > 0 && s[i - 1] != '\n' {
        lemma_line_start_newline(s, i - 1);
    }
}

// ── the editing operations ────────────────────────────────────────────────

impl InputState {
    /// The cursor is within the text, and an open popup has candidates.
    pub open spec fn wf(&self) -> bool {
        &&& self.cursor_pos <= self.input@.len()
        &&& self.completion matches Some(c) ==> c.candidates@.len() > 0 && c.cursor
            < c.candidates@.len()
        &&& self.history_pos matches Some(p) ==> p < self.input_history@.len()
    }

    /// An empty input box.
    pub fn new() -> (s: Self)
        ensures
            s.wf(),
            s.input@ == Seq::<char>::empty(),
            s.cursor_pos == 0,
            s.input_history@.len() == 0,
            s.history_pos is None,
            s.input_draft@ == Seq::<char>::empty(),
            s.completion is None,
    {
        InputState {
            input: String::new(),
            cursor_pos: 0,
            input_history: Vec::new(),
            history_pos: None,
            input_draft: String::new(),
            completion: None,
        }
    }

    /// Ctrl+K: deletes from the cursor to the end of the current line.
    pub fn input_kill_to_end(&mut self)
        requires
            old(self).wf(),
        ensures
            final(self).wf(),
            final(self).input_draft == old(self).input_draft,
            final(self).input@ == cut(
                old(self).input@,
                old(self).cursor_pos as int,
                line_end(old(self).input@, old(self).cursor_pos as int),
            ),
            final(self).cursor_pos == old(self).cursor_pos,
            final(self).completion == old(self).completion,
            final(self).input_history == old(self).input_history,
            final(self).history_pos == old(self).history_pos,
    {
        let s = chars_of(self.input.as_str());
        let e = line_end_exec(s.as_slice(), self.cursor_pos);
        self.input = cut_string(s.as_slice(), self.cursor_pos, e);
    }

    /// Ctrl+U: deletes from the start of the current line to the cursor.
    pub fn input_kill_to_start(&mut self)
        requires
            old(self).wf(),
        ensures
            final(self).wf(),
            final(self).input_draft == old(self).input_draft,
            final(self).input@ == cut(
                old(self).input@,
                line_start(old(self).input@, old(self).cursor_pos as int),
                old(self).cursor_pos as int,
            ),
            final(self).cursor_pos == line_start(old(self).input@, old(self).cursor_pos as int),
            final(self).completion is None,
            final(self).input_history == old(self).input_history,
            final(self).history_pos == old(self).history_pos,
    {
        let s = chars_of(self.input.as_str());
        let a = line_start_exec(s.as_slice(), self.cursor_pos);
        self.input = cut_string(s.as_slice(), a, self.cursor_pos);
        self.cursor_pos = a;
        self.completion = None;
    }

    /// Ctrl+W: deletes the word and the spaces immediately before the cursor
    /// (not across a line break).
    pub fn input_delete_word_before(&mut self)
        requires
            old(self).wf(),
        ensures
            final(self).wf(),
            final(self).input_draft == old(self).input_draft,
            old(self).cursor_pos == 0 ==> *final(self) == *old(self),
            old(self).cursor_pos > 0 ==> {
                let s = old(self).input@;
                let i = back_word(s, back_spaces(s, old(self).cursor_pos as int));
                &&& final(self).input@ == cut(s, i, old(self).cursor_pos as int)
                &&& final(self).cursor_pos == i
                &&& final(self).completion is None
                &&& final(self).input_history == old(self).input_history
                &&& final(self).history_pos == old(self).history_pos
            },
    {
        if self.cursor_pos == 0 {
            return;
        }
        let s = chars_of(self.input.as_str());
        let j = back_spaces_exec(s.as_slice(), self.cursor_pos);
        let i = back_word_exec(s.as_slice(), j);
        self.input = cut_string(s.as_slice(), i, self.cursor_pos);
        self.cursor_pos = i;
        self.completion = None;
    }

    /// Alt/Ctrl+Left: to the start of the previous word.
    pub fn input_move_word_left(&mut self)
        requires
            old(self).wf(),
        ensures
            final(self).wf(),
            final(self).input_draft == old(self).input_draft,
            final(self).input == old(self).input,
            final(self).cursor_pos == back_word(
                old(self).input@,
                back_blanks(old(self).input@, old(self).cursor_pos as int),
            ),
            final(self).completion == old(self).completion,
            final(self).input_history == old(self).input_history,
            final(self).history_pos == old(self).history_pos,
    {
        let s = chars_of(self.input.as_str());
        let j = back_blanks_exec(s.as_slice(), self.cursor_pos);
        self.cursor_pos = back_word_exec(s.as_slice(), j);
    }

    /// Alt/Ctrl+Right: to the end of the next word.
    pub fn input_move_word_right(&mut self)
        requires
            old(self).wf(),
        ensures
            final(self).wf(),
            final(self).input_draft == old(self).input_draft,
            final(self).input == old(self).input,
            final(self).cursor_pos == fwd_word(
                old(self).input@,
                fwd_blanks(old(self).input@, old(self).cursor_pos as int),
            ),
            final(self).completion == old(self).completion,
            final(self).input_history == old(self).input_history,
            final(self).history_pos == old(self).history_pos,
    {
        let s = chars_of(self.input.as_str());
        let j = fwd_blanks_exec(s.as_slice(), self.cursor_pos);
        self.cursor_pos = fwd_word_exec(s.as_slice(), j);
    }

    /// Inserts `c` at the cursor and moves past it.
    pub fn input_insert(&mut self, c: char)
        requires
            old(self).wf(),
        ensures
            final(self).wf(),
            final(self).input_draft == old(self).input_draft,
            final(self).input@ == insert_at(old(self).input@, old(self).cursor_pos as int, c),
            final(self).cursor_pos == old(self).cursor_pos + 1,
            final(self).completion == old(self).completion,
            final(self).input_history == old(self).input_history,
            final(self).history_pos == old(self).history_pos,
    {
        let s = chars_of(self.input.as_str());
        let mut v: Vec<char> = Vec::new();
        extend_chars(&mut v, &s[0..self.cursor_pos]);
        v.push(c);
        extend_chars(&mut v, &s[self.cursor_pos..s.len()]);
        assert(v@ =~= insert_at(s@, self.cursor_pos as int, c));
        let n = v.len();
        assert(self.cursor_pos + 1 <= n);
        self.input = string_from_chars(v.as_slice());
        self.cursor_pos = self.cursor_pos + 1;
    }

    /// Deletes the char before the cursor.
    pub fn input_backspace(&mut self)
        requires
            old(self).wf(),
        ensures
            final(self).wf(),
            final(self).input_draft == old(self).input_draft,
            old(self).cursor_pos == 0 ==> *final(self) == *old(self),
            old(self).cursor_pos > 0 ==> {
                &&& final(self).input@ == cut(
                    old(self).input@,
                    old(self).cursor_pos - 1,
                    old(self).cursor_pos as int,
                )
                &&& final(self).cursor_pos == old(self).cursor_pos - 1
                &&& final(self).completion == old(self).completion
                &&& final(self).input_history == old(self).input_history
                &&& final(self).history_pos == old(self).history_pos
            },
    {
        if self.cursor_pos == 0 {
            return;
        }
        let s = chars_of(self.input.as_str());
        self.input = cut_string(s.as_slice(), self.cursor_pos - 1, self.cursor_pos);
        self.cursor_pos = self.cursor_pos - 1;
    }

    /// Deletes the char under the cursor.
    pub fn input_delete(&mut self)
        requires
            old(self).wf(),
        ensures
            final(self).wf(),
            final(self).input_draft == old(self).input_draft,
            old(self).cursor_pos >= old(self).input@.len() ==> *final(self) == *old(self),
            old(self).cursor_pos < old(self).input@.len() ==> {
                &&& final(self).input@ == cut(
                    old(self).input@,
                    old(self).cursor_pos as int,
                    old(self).cursor_pos + 1,
                )
                &&& final(self).cursor_pos == old(self).cursor_pos
                &&& final(self).completion == old(self).completion
                &&& final(self).input_history == old(self).input_history
                &&& final(self).history_pos == old(self).history_pos
            },
    {
        let s = chars_of(self.input.as_str());
        if self.cursor_pos >= s.len() {
            return;
        }
        self.input = cut_string(s.as_slice(), self.cursor_pos, self.cursor_pos + 1);
    }

    /// One char left.
    pub fn input_move_left(&mut self)
        requires
            old(self).wf(),
        ensures
            final(self).wf(),
            final(self).input_draft == old(self).input_draft,
            final(self).input == old(self).input,
            final(self).cursor_pos == if old(self).cursor_pos > 0 {
                old(self).cursor_pos - 1
            } else {
                0
            },
            final(self).completion == old(self).completion,
            final(self).input_history == old(self).input_history,
            final(self).history_pos == old(self).history_pos,
    {
        if self.cursor_pos > 0 {
            self.cursor_pos = self.cursor_pos - 1;
        }
    }

    /// One char right.
    pub fn input_move_right(&mut self)
        requires
            old(self).wf(),
        ensures
            final(self).wf(),
            final(self).input_draft == old(self).input_draft,
            final(self).input == old(self).input,
            final(self).cursor_pos == if old(self).cursor_pos < old(self).input@.len() {
                old(self).cursor_pos + 1
            } else {
                old(self).cursor_pos as int
            },
            final(self).completion == old(self).completion,
            final(self).input_history == old(self).input_history,
            final(self).history_pos == old(self).history_pos,
    {
        let n = self.input.as_str().unicode_len();
        if self.cursor_pos < n {
            self.cursor_pos = self.cursor_pos + 1;
        }
    }

    /// To the start of the current line.
    pub fn input_home(&mut self)
        requires
            old(self).wf(),
        ensures
            final(self).wf(),
            final(self).input_draft == old(self).input_draft,
            final(self).input == old(self).input,
            final(self).cursor_pos == line_start(old(self).input@, old(self).cursor_pos as int),
            final(self).completion == old(self).completion,
            final(self).input_history == old(self).input_history,
            final(self).history_pos == old(self).history_pos,
    {
        let s = chars_of(self.input.as_str());
        self.cursor_pos = line_start_exec(s.as_slice(), self.cursor_pos);
    }

    /// To the end of the current line.
    pub fn input_end(&mut self)
        requires
            old(self).wf(),
        ensures
            final(self).wf(),
            final(self).input_draft == old(self).input_draft,
            final(self).input == old(self).input,
            final(self).cursor_pos == line_end(old(self).input@, old(self).cursor_pos as int),
            final(self).completion == old(self).completion,
            final(self).input_history == old(self).input_history,
            final(self).history_pos == old(self).history_pos,
    {
        let s = chars_of(self.input.as_str());
        self.cursor_pos = line_end_exec(s.as_slice(), self.cursor_pos);
    }

    /// Inserts a line break at the cursor.
    pub fn input_newline(&mut self)
        requires
            old(self).wf(),
        ensures
            final(self).wf(),
            final(self).input_draft == old(self).input_draft,
            final(self).input@ == insert_at(old(self).input@, old(self).cursor_pos as int, '\n'),
            final(self).cursor_pos == old(self).cursor_pos + 1,
            final(self).completion == old(self).completion,
            final(self).input_history == old(self).input_history,
            final(self).history_pos == old(self).history_pos,
    {
        self.input_insert('\n');
    }

    /// (row, col) of the cursor: newlines before it, and chars since the
    /// start of its line.
    pub fn cursor_row_col(&self) -> (rc: (usize, usize))
        requires
            self.wf(),
        ensures
            rc.0 == count_char(self.input@.take(self.cursor_pos as int), '\n'),
            rc.1 == self.cursor_pos - line_start(self.input@, self.cursor_pos as int),
    {
        let s = chars_of(self.input.as_str());
        let row = count_newlines(s.as_slice(), self.cursor_pos);
        let ls = line_start_exec(s.as_slice(), self.cursor_pos);
        (row, self.cursor_pos - ls)
    }

    /// Number of lines the input holds: its newlines plus one.
    pub fn input_line_count(&self) -> (n: usize)
        requires
            self.input@.len() < usize::MAX,
        ensures
            n == count_char(self.input@, '\n') + 1,
    {
        let s = chars_of(self.input.as_str());
        let n = count_newlines(s.as_slice(), s.len());
        assert(s@.take(s@.len() as int) =~= s@);
        n + 1
    }

    /// Up one line, keeping the column where the line is long enough.
    pub fn input_move_up(&mut self)
        requires
            old(self).wf(),
        ensures
            final(self).wf(),
            final(self).input_draft == old(self).input_draft,
            final(self).input == old(self).input,
            final(self).completion == old(self).completion,
            final(self).input_history == old(self).input_history,
            final(self).history_pos == old(self).history_pos,
            ({
                let s = old(self).input@;
                let c = old(self).cursor_pos as int;
                let ls = line_start(s, c);
                if ls == 0 {
                    final(self).cursor_pos == c
                } else {
                    let ps = line_start(s, ls - 1);
                    final(self).cursor_pos == ps + if c - ls < (ls - 1) - ps {
                        c - ls
                    } else {
                        (ls - 1) - ps
                    }
                }
            }),
    {
        let s = chars_of(self.input.as_str());
        let c = self.cursor_pos;
        let ls = line_start_exec(s.as_slice(), c);
        if ls == 0 {
            return;
        }
        let ps = line_start_exec(s.as_slice(), ls - 1);
        let col = c - ls;
        let plen = (ls - 1) - ps;
        self.cursor_pos = ps + if col < plen {
            col
        } else {
            plen
        };
    }

    /// Down one line, keeping the column where the line is long enough.
    pub fn input_move_down(&mut self)
        requires
            old(self).wf(),
        ensures
            final(self).wf(),
            final(self).input_draft == old(self).input_draft,
            final(self).input == old(self).input,
            final(self).completion == old(self).completion,
            final(self).input_history == old(self).input_history,
            final(self).history_pos == old(self).history_pos,
            ({
                let s = old(self).input@;
                let c = old(self).cursor_pos as int;
                let le = line_end(s, c);
                if le == s.len() {
                    final(self).cursor_pos == c
                } else {
                    let ns = le + 1;
                    let ne = line_end(s, ns);
                    let col = c - line_start(s, c);
                    final(self).cursor_pos == ns + if col < ne - ns {
                        col
                    } else {
                        ne - ns
                    }
                }
            }),
    {
        let s = chars_of(self.input.as_str());
        let c = self.cursor_pos;
        let le = line_end_exec(s.as_slice(), c);
        if le == s.len() {
            return;
        }
        let ns = le + 1;
        let ne = line_end_exec(s.as_slice(), ns);
        let col = c - line_start_exec(s.as_slice(), c);
        let nlen = ne - ns;
        self.cursor_pos = ns + if col < nlen {
            col
        } else {
            nlen
        };
    }

    /// Up in the history: the first step saves the draft and shows the
    /// newest entry; further steps go to older ones, stopping at the oldest.
    pub fn input_history_prev(&mut self)
        requires
            old(self).wf(),
        ensures
            final(self).wf(),
            history_prev_post(*old(self), *final(self)),
    {
        if self.input_history.len() == 0 {
            return;
        }
        let new_pos = match self.history_pos {
            None => {
                self.input_draft = self.input.clone();
                self.input_history.len() - 1
            },
            Some(p) => if p == 0 {
                0
            } else {
                p - 1
            },
        };
        self.history_pos = Some(new_pos);
        self.input = self.input_history[new_pos].clone();
        self.cursor_pos = self.input.as_str().unicode_len();
    }

    /// Down in the history: to newer entries, and past the newest back to
    /// the saved draft.
    pub fn input_history_next(&mut self)
        requires
            old(self).wf(),
        ensures
            final(self).wf(),
            history_next_post(*old(self), *final(self)),
    {
        let pos = match self.history_pos {
            Some(p) => p,
            None => return,
        };
        let len = self.input_history.len();
        if pos + 1 < len {
            let new_pos = pos + 1;
            self.history_pos = Some(new_pos);
            self.input = self.input_history[new_pos].clone();
        } else {
            self.history_pos = None;
            self.input = self.input_draft.clone();
        }
        self.cursor_pos = self.input.as_str().unicode_len();
    }

    /// Selects the next candidate, wrapping around.
    pub fn complete_next(&mut self)
        requires
            old(self).wf(),
        ensures
            final(self).wf(),
            final(self).input_draft == old(self).input_draft,
            final(self).input == old(self).input,
            final(self).cursor_pos == old(self).cursor_pos,
            old(self).completion is None ==> final(self).completion is None,
            old(self).completion matches Some(c) ==> final(self).completion matches Some(d) && d.cursor
                == (c.cursor + 1) % (c.candidates@.len() as int) && d.candidates == c.candidates
                && d.token_start == c.token_start && d.kind == c.kind,
            final(self).input_history == old(self).input_history,
            final(self).history_pos == old(self).history_pos,
    {
        match self.completion.take() {
            Some(mut c) => {
                let n = c.candidates.len();
                c.cursor = (c.cursor + 1) % n;
                self.completion = Some(c);
            },
            None => {},
        }
    }

    /// Selects the previous candidate, wrapping around.
    pub fn complete_prev(&mut self)
        requires
            old(self).wf(),
        ensures
            final(self).wf(),
            final(self).input_draft == old(self).input_draft,
            final(self).input == old(self).input,
            final(self).cursor_pos == old(self).cursor_pos,
            old(self).completion is None ==> final(self).completion is None,
            old(self).completion matches Some(c) ==> final(self).completion matches Some(d) && d.cursor
                == (if c.cursor == 0 {
                c.candidates@.len() - 1
            } else {
                c.cursor - 1
            }) && d.candidates == c.candidates && d.token_start == c.token_start && d.kind
                == c.kind,
            final(self).input_history == old(self).input_history,
            final(self).history_pos == old(self).history_pos,
    {
        match self.completion.take() {
            Some(mut c) => {
                if c.cursor == 0 {
                    c.cursor = c.candidates.len() - 1;
                } else {
                    c.cursor = c.cursor - 1;
                }
                self.completion = Some(c);
            },
            None => {},
        }
    }

    /// Closes the completion popup.
    pub fn complete_dismiss(&mut self)
        requires
            old(self).wf(),
        ensures
            final(self).wf(),
            final(self).input_draft == old(self).input_draft,
            final(self).completion is None,
            final(self).input == old(self).input,
            final(self).cursor_pos == old(self).cursor_pos,
            final(self).input_history == old(self).input_history,
            final(self).history_pos == old(self).history_pos,
    {
        self.completion = None;
    }
}

/// The `@` token that the cursor is in: the position of the last `@`
/// before the cursor and the text between them, when that text has no space
/// or newline.
pub open spec fn at_token(s: Seq<char>, cursor: int) -> Option<(int, Seq<char>)> {
    let before = s.take(cursor);
    match rfind(before, seq!['@']) {
        None => None,
        Some(a) => {
            let after = before.skip(a + 1);
            if contains(after, seq![' ']) || contains(after, seq!['\n']) {
                None
            } else {
                Some((a, after))
            }
        },
    }
}

/// The `/` token that the cursor is in, when it starts the input or a line.
pub open spec fn slash_token(s: Seq<char>, cursor: int) -> Option<(int, Seq<char>)> {
    let before = s.take(cursor);
    match rfind(before, seq!['/']) {
        None => None,
        Some(a) => {
            let after = before.skip(a + 1);
            if contains(after, seq![' ']) || contains(after, seq!['\n']) {
                None
            } else if a == 0 || before[a - 1] == '\n' {
                Some((a, after))
            } else {
                None
            }
        },
    }
}

/// The names of `templates` whose lower-case form starts with that of
/// `partial`, in order.
pub open spec fn template_matches(templates: Seq<(String, String)>, partial: Seq<char>) -> Seq<
    Seq<char>,
>
    decreases templates.len(),
{
    if templates.len() == 0 {
        seq![]
    } else {
        template_matches(templates.drop_last(), partial) + if starts_with(
            unicode_lowercase(templates.last().0@),
            unicode_lowercase(partial),
        ) {
            seq![templates.last().0@]
        } else {
            seq![]
        }
    }
}

fn token_before(s: &[char], cursor: usize, trigger: char, line_start_only: bool) -> (r: Option<
    (usize, Vec<char>),
>)
    requires
        cursor <= s@.len(),
        trigger == (if line_start_only {
            '/'
        } else {
            '@'
        }),
    ensures
        match r {
            Some((a, t)) => (if line_start_only {
                slash_token(s@, cursor as int)
            } else {
                at_token(s@, cursor as int)
            }) == Some((a as int, t@)) && a < cursor,
            None => (if line_start_only {
                slash_token(s@, cursor as int)
            } else {
                at_token(s@, cursor as int)
            }) is None,
        },
{
    let before = &s[0..cursor];
    assert(before@ =~= s@.take(cursor as int));
    let pat = vec![trigger];
    assert(pat@ == seq![trigger]);
    match rfind_exec(before, pat.as_slice()) {
        None => None,
        Some(a) => {
            let after = &before[a + 1..cursor];
            assert(after@ =~= before@.skip(a + 1));
            let sp = vec![' '];
            let nl = vec!['\n'];
            assert(sp@ == seq![' ']);
            assert(nl@ == seq!['\n']);
            if contains_exec(after, sp.as_slice()) || contains_exec(after, nl.as_slice()) {
                return None;
            }
            if line_start_only && !(a == 0 || before[a - 1] == '\n') {
                return None;
            }
            let mut t: Vec<char> = Vec::new();
            extend_chars(&mut t, after);
            Some((a, t))
        },
    }
}

impl InputState {
    /// The `@` token under the cursor: the char position of the `@` and the
    /// partial path after it.
    pub fn at_token_before_cursor(&self) -> (r: Option<(usize, String)>)
        requires
            self.wf(),
        ensures
            match r {
                Some((a, t)) => at_token(self.input@, self.cursor_pos as int) == Some((a as int, t@)),
                None => at_token(self.input@, self.cursor_pos as int) is None,
            },
    {
        let s = chars_of(self.input.as_str());
        match token_before(s.as_slice(), self.cursor_pos, '@', false) {
            Some((a, t)) => Some((a, string_from_chars(t.as_slice()))),
            None => None,
        }
    }

    /// The `/` token under the cursor, when it starts the input or a line.
    pub fn slash_token_before_cursor(&self) -> (r: Option<(usize, String)>)
        requires
            self.wf(),
        ensures
            match r {
                Some((a, t)) => slash_token(self.input@, self.cursor_pos as int) == Some(
                    (a as int, t@),
                ),
                None => slash_token(self.input@, self.cursor_pos as int) is None,
            },
    {
        let s = chars_of(self.input.as_str());
        match token_before(s.as_slice(), self.cursor_pos, '/', true) {
            Some((a, t)) => Some((a, string_from_chars(t.as_slice()))),
            None => None,
        }
    }

    /// Recomputes the completion popup for the token under the cursor: path
    /// completion for an `@` token (`path_candidates` are the completions
    /// of its partial path, listed by the caller), else template completion
    /// for a `/` token at line start. The selection is kept (clamped) while
    /// the same token stays open.
    pub fn update_completion(&mut self, path_candidates: Vec<String>, templates: &[(String, String)])
        requires
            old(self).wf(),
        ensures
            final(self).wf(),
            final(self).input_draft == old(self).input_draft,
            final(self).input == old(self).input,
            final(self).cursor_pos == old(self).cursor_pos,
            final(self).input_history == old(self).input_history,
            final(self).history_pos == old(self).history_pos,
            ({
                let s = old(self).input@;
                let cur = old(self).cursor_pos as int;
                match at_token(s, cur) {
                    Some((a, _)) if path_candidates@.len() > 0 => final(self).completion matches Some(c) && c.kind == CompletionKind::Path && c.token_start == a && c.candidates
                        == path_candidates && c.cursor == keep_cursor(
                        old(self).completion,
                        a,
                        CompletionKind::Path,
                        path_candidates@.len() as int,
                    ),
                    _ => match slash_token(s, cur) {
                        Some((a, partial)) if template_matches(templates@, partial).len() > 0 => final(self).completion matches Some(c) && c.kind == CompletionKind::Template
                            && c.token_start == a && string_views(c.candidates@)
                            == template_matches(templates@, partial) && c.cursor == keep_cursor(
                            old(self).completion,
                            a,
                            CompletionKind::Template,
                            template_matches(templates@, partial).len() as int,
                        ),
                        _ => final(self).completion is None,
                    },
                }
            }),
    {
        if let Some((at_pos, _partial)) = self.at_token_before_cursor() {
            if path_candidates.len() > 0 {
                let cursor = self.kept_cursor(at_pos, CompletionKind::Path, path_candidates.len());
                self.completion = Some(
                    Completion {
                        candidates: path_candidates,
                        cursor,
                        token_start: at_pos,
                        kind: CompletionKind::Path,
                    },
                );
                return;
            }
        }
        if let Some((slash_pos, partial)) = self.slash_token_before_cursor() {
            let pl = to_lowercase(partial.as_str());
            let plc = chars_of(pl.as_str());
            let mut cands: Vec<String> = Vec::new();
            let mut i: usize = 0;
            while i < templates.len()
                invariant
                    i <= templates@.len(),
                    plc@ == unicode_lowercase(partial@),
                    string_views(cands@) == template_matches(templates@.take(i as int), partial@),
                decreases templates.len() - i,
            {
                let ghost pre = templates@.take(i + 1);
                assert(pre.drop_last() =~= templates@.take(i as int));
                let nl = to_lowercase(templates[i].0.as_str());
                let nlc = chars_of(nl.as_str());
                if starts_with_exec(nlc.as_slice(), plc.as_slice()) {
                    let name = templates[i].0.clone();
                    proof {
                        assert(string_views(cands@.push(name)) =~= string_views(cands@).push(name@));
                    }
                    cands.push(name);
                } else {
                    assert(template_matches(pre, partial@) =~= template_matches(pre.drop_last(), partial@));
                }
                i += 1;
            }
            assert(templates@.take(templates@.len() as int) =~= templates@);
            if cands.len() > 0 {
                let cursor = self.kept_cursor(slash_pos, CompletionKind::Template, cands.len());
                self.completion = Some(
                    Completion { candidates: cands, cursor, token_start: slash_pos, kind: CompletionKind::Template },
                );
                return;
            }
        }
        self.completion = None;
    }

    fn kept_cursor(&self, token_start: usize, kind: CompletionKind, n: usize) -> (c: usize)
        requires
            n > 0,
        ensures
            c == keep_cursor(self.completion, token_start as int, kind, n as int),
            c < n,
    {
        match &self.completion {
            Some(c) => if c.token_start == token_start && c.kind == kind {
                if c.cursor < n - 1 {
                    c.cursor
                } else {
                    n - 1
                }
            } else {
                0
            },
            None => 0,
        }
    }

    /// Accepts the selected candidate: the token is replaced by the
    /// template's body, or by `@` and the path. Returns true when the
    /// accepted path is a directory (ends with `/`), so completion should be
    /// recomputed.
    pub fn complete_accept(&mut self, templates: &[(String, String)]) -> (refresh: bool)
        requires
            old(self).wf(),
            old(self).completion matches Some(c) ==> c.token_start <= old(self).cursor_pos,
        ensures
            final(self).wf(),
            final(self).input_draft == old(self).input_draft,
            final(self).completion is None,
            final(self).input_history == old(self).input_history,
            final(self).history_pos == old(self).history_pos,
            match old(self).completion {
                None => final(self).input == old(self).input && final(self).cursor_pos == old(self).cursor_pos && !refresh,
                Some(c) => {
                    let sel = c.candidates@[c.cursor as int]@;
                    let s = old(self).input@;
                    let a = c.token_start as int;
                    let b = old(self).cursor_pos as int;
                    match c.kind {
                        CompletionKind::Template => !refresh && match template_body(templates@, sel) {
                            Some(body) => final(self).input@ == s.take(a) + body + s.skip(b)
                                && final(self).cursor_pos == a + body.len(),
                            None => final(self).input == old(self).input && final(self).cursor_pos
                                == old(self).cursor_pos,
                        },
                        CompletionKind::Path => {
                            &&& final(self).input@ == s.take(a) + seq!['@'] + sel + s.skip(b)
                            &&& final(self).cursor_pos == a + 1 + sel.len()
                            &&& refresh == (sel.len() > 0 && sel.last() == '/')
                        },
                    }
                },
            },
    {
        let comp = match self.completion.take() {
            Some(c) => c,
            None => return false,
        };
        let s = chars_of(self.input.as_str());
        let sel = chars_of(comp.candidates[comp.cursor].as_str());
        let a = comp.token_start;
        let b = self.cursor_pos;
        let mut v: Vec<char> = Vec::new();
        extend_chars(&mut v, &s[0..a]);
        match comp.kind {
            CompletionKind::Template => {
                match find_template(templates, sel.as_slice()) {
                    Some(k) => {
                        let body = chars_of(templates[k].1.as_str());
                        extend_chars(&mut v, body.as_slice());
                        extend_chars(&mut v, &s[b..s.len()]);
                        let n = v.len();
                        assert(v@ =~= s@.take(a as int) + body@ + s@.skip(b as int));
                        assert(a + body@.len() <= n);
                        self.input = string_from_chars(v.as_slice());
                        self.cursor_pos = a + body.len();
                    },
                    None => {},
                }
                false
            },
            CompletionKind::Path => {
                v.push('@');
                extend_chars(&mut v, sel.as_slice());
                extend_chars(&mut v, &s[b..s.len()]);
                let n = v.len();
                assert(v@ =~= s@.take(a as int) + seq!['@'] + sel@ + s@.skip(b as int));
                assert(a + 1 + sel@.len() <= n);
                self.input = string_from_chars(v.as_slice());
                self.cursor_pos = a + 1 + sel.len();
                sel.len() > 0 && sel[sel.len() - 1] == '/'
            },
        }
    }
}

/// The selection kept when a popup for the same token and kind is
/// recomputed with `n` candidates: the old one clamped to the last, else 0.
pub open spec fn keep_cursor(old_comp: Option<Completion>, token_start: int, kind: CompletionKind, n: int) -> int {
    match old_comp {
        Some(c) => if c.token_start == token_start && c.kind == kind {
            if c.cursor < n - 1 {
                c.cursor as int
            } else {
                n - 1
            }
        } else {
            0
        },
        None => 0,
    }
}

/// The body of the first template named `name`.
pub open spec fn template_body(templates: Seq<(String, String)>, name: Seq<char>) -> Option<Seq<char>>
    decreases templates.len(),
{
    if templates.len() == 0 {
        None
    } else if templates[0].0@ == name {
        Some(templates[0].1@)
    } else {
        template_body(templates.drop_first(), name)
    }
}

fn find_template(templates: &[(String, String)], name: &[char]) -> (r: Option<usize>)
    ensures
        match r {
            Some(k) => k < templates@.len() && template_body(templates@, name@) == Some(
                templates@[k as int].1@,
            ),
            None => template_body(templates@, name@) is None,
        },
{
    let mut i: usize = 0;
    assert(templates@.skip(0) =~= templates@);
    while i < templates.len()
        invariant
            i <= templates@.len(),
            template_body(templates@, name@) == template_body(templates@.skip(i as int), name@),
        decreases templates.len() - i,
    {
        let ghost rest = templates@.skip(i as int);
        assert(rest[0] == templates@[i as int]);
        let n = chars_of(templates[i].0.as_str());
        if crate::text::chars_eq(n.as_slice(), name) {
            return Some(i);
        }
        assert(rest.drop_first() =~= templates@.skip(i + 1));
        i += 1;
    }
    None
}

/// What stepping back in the history does: nothing without history;
/// otherwise the first step saves the draft and shows the newest entry, and
/// later steps show older ones, stopping at the oldest.
pub open spec fn history_prev_post(a: InputState, b: InputState) -> bool {
    if a.input_history@.len() == 0 {
        b == a
    } else {
        let p = match a.history_pos {
            None => a.input_history@.len() - 1,
            Some(q) => if q == 0 {
                0
            } else {
                q - 1
            },
        };
        &&& b.history_pos matches Some(q) && q == p
        &&& b.input@ == a.input_history@[p]@
        &&& b.cursor_pos == b.input@.len()
        &&& b.input_draft == if a.history_pos is None {
            a.input
        } else {
            a.input_draft
        }
        &&& b.input_history == a.input_history
        &&& b.completion == a.completion
    }
}

/// What stepping forward in the history does: nothing outside the history;
/// otherwise a newer entry, or past the newest the saved draft.
pub open spec fn history_next_post(a: InputState, b: InputState) -> bool {
    match a.history_pos {
        None => b == a,
        Some(p) => {
            &&& if p + 1 < a.input_history@.len() {
                &&& b.history_pos matches Some(q) && q == p + 1
                &&& b.input@ == a.input_history@[p + 1]@
            } else {
                &&& b.history_pos is None
                &&& b.input@ == a.input_draft@
            }
            &&& b.cursor_pos == b.input@.len()
            &&& b.input_draft == a.input_draft
            &&& b.input_history == a.input_history
            &&& b.completion == a.completion
        },
    }
}

/// Stepping back into a non-empty history and forward again gives the
/// draft back, with the cursor at its end.
pub proof fn lemma_history_roundtrip(a: InputState, b: InputState, c: InputState)
    requires
        a.wf(),
        a.history_pos is None,
        a.input_history@.len() > 0,
        history_prev_post(a, b),
        history_next_post(b, c),
    ensures
        c.input@ == a.input@,
        c.cursor_pos == a.input@.len(),
        c.history_pos is None,
        c.input_history == a.input_history,
{
}

/// Inserting a char and deleting the char before the cursor leaves the text
/// as it was.
pub proof fn lemma_insert_then_backspace(s: Seq<char>, c: int, ch: char)
    requires
        0 <= c <= s.len(),
    ensures
        cut(insert_at(s, c, ch), c, c + 1) == s,
{
    assert(cut(insert_at(s, c, ch), c, c + 1) =~= s);
}

/// Inserting a char and deleting the char under the cursor after moving
/// back over it leaves the text as it was.
pub proof fn lemma_insert_then_delete(s: Seq<char>, c: int, ch: char)
    requires
        0 <= c <= s.len(),
    ensures
        insert_at(s, c, ch)[c] == ch,
        cut(insert_at(s, c, ch), c, c + 1) == s,
{
    assert(cut(insert_at(s, c, ch), c, c + 1) =~= s);
}

/// Killing to the start of the line only removes chars of the current line.
pub proof fn lemma_kill_to_start_in_line(s: Seq<char>, c: int)
    requires
        0 <= c <= s.len(),
    ensures
        forall|k: int| line_start(s, c) <= k < c ==> #[trigger] s[k] != '\n',
    decreases c,
{
    if c > 0 && s[c - 1] != '\n' {
        lemma_kill_to_start_in_line(s, c - 1);
    }
}

/// Killing to the end of the line only removes chars of the current line.
pub proof fn lemma_kill_to_end_in_line(s: Seq<char>, c: int)
    requires
        0 <= c <= s.len(),
    ensures
        forall|k: int| c <= k < line_end(s, c) ==> #[trigger] s[k] != '\n',
    decreases s.len() - c,
{
    if c < s.len() && s[c] != '\n' {
        lemma_kill_to_end_in_line(s, c + 1);
    }
}

} // verus!
