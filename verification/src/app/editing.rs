//! Editing text at a cursor. A cursor is a byte offset between two characters.

use vstd::prelude::*;

use crate::app::input_state::last_index;
use crate::input_wrap::{
    byte_offset_at_row_col, cursor_at, grid, index_at, lemma_byte_len_take, lemma_index_at,
    lemma_index_at_some, offset_at, chars_until, lemma_chars_until, wrap_content, wrapped_lines, Grid,
};
use crate::text::{
    byte_len, byte_length, chars_of, is_space, is_whitespace, lemma_byte_len_concat, string_of,
    utf8_size, utf8_width, views,
};
use crate::commands::completion::opt_string_view;

verus! {

// ── Positions ────────────────────────────────────────────────────────────────

/// The byte offset stands between two characters or at an end.
pub open spec fn on_boundary(text: Seq<char>, at: nat) -> bool {
    index_at(text, at) is Some
}

/// Whether a byte offset stands between two characters or at an end.
pub fn is_on_boundary(text: &str, at: usize) -> (r: bool)
    ensures
        r == on_boundary(text@, at as nat),
{
    let whole: usize = byte_length(text);
    let chars = chars_of(text);
    let ghost s = text@;
    let mut i: usize = 0;
    let mut b: usize = 0;
    assert(s.take(0) =~= seq![]);
    while i < chars.len() && b != at
        invariant
            chars@ == s,
            s == text@,
            whole == byte_len(s),
            i <= chars@.len(),
            b == byte_len(s.take(i as int)),
            b <= whole,
            forall|k: int| 0 <= k < i ==> byte_len(#[trigger] s.take(k)) != at,
        decreases chars.len() - i,
    {
        proof {
            assert(s.take(i + 1).drop_last() =~= s.take(i as int));
            assert(s.take(i + 1).last() == chars@[i as int]);
            lemma_byte_len_take(s, i + 1, s.len() as int);
            assert(s.take(s.len() as int) =~= s);
        }
        b += utf8_size(chars[i]);
        i += 1;
    }
    proof {
        lemma_index_at(s, i as int);
        lemma_index_at_some(s, at as nat);
    }
    b == at
}

/// The number of characters before a byte offset.
pub open spec fn position(text: Seq<char>, at: nat) -> int {
    index_at(text, at)->0 as int
}

/// The byte offset behind `k` characters.
pub open spec fn offset(text: Seq<char>, k: int) -> nat {
    byte_len(text.take(k))
}

/// Byte offsets and numbers of characters stand for each other.
pub proof fn lemma_position(text: Seq<char>, at: nat)
    requires
        on_boundary(text, at),
    ensures
        0 <= position(text, at) <= text.len(),
        offset(text, position(text, at)) == at,
        at <= byte_len(text),
        at == byte_len(text) <==> position(text, at) == text.len(),
{
    lemma_index_at_some(text, at);
    let k = position(text, at);
    lemma_byte_len_take(text, k, text.len() as int);
    assert(text.take(text.len() as int) =~= text);
}

/// The offset behind any number of characters is on a boundary.
pub proof fn lemma_offset(text: Seq<char>, k: int)
    requires
        0 <= k <= text.len(),
    ensures
        on_boundary(text, offset(text, k)),
        position(text, offset(text, k)) == k,
        offset(text, 0) == 0,
        offset(text, text.len() as int) == byte_len(text),
        k < text.len() ==> offset(text, k + 1) == offset(text, k) + utf8_width(text[k]),
{
    lemma_index_at(text, k);
    assert(text.take(0) =~= seq![]);
    assert(text.take(text.len() as int) =~= text);
    if k < text.len() {
        assert(text.take(k + 1).drop_last() =~= text.take(k));
    }
}

/// The number of characters before a byte offset.
pub(crate) fn index_of(text: &Vec<char>, at: usize) -> (r: usize)
    requires
        on_boundary(text@, at as nat),
    ensures
        r == position(text@, at as nat),
        r <= text@.len(),
{
    let ghost t = text@;
    let ghost k = position(t, at as nat);
    proof {
        lemma_position(t, at as nat);
        lemma_offset(t, 0);
    }
    let n: usize = text.len();
    let mut i: usize = 0;
    let mut bytes: usize = 0;
    while bytes < at
        invariant
            t == text@,
            n == t.len(),
            0 <= k <= t.len(),
            offset(t, k) == at,
            i <= k,
            bytes == offset(t, i as int),
        decreases at - bytes,
    {
        proof {
            lemma_byte_len_take(t, i as int, k);
            assert(i < k);
            lemma_byte_len_take(t, i + 1, k);
            lemma_offset(t, i as int);
        }
        bytes = bytes + utf8_size(text[i]);
        i += 1;
    }
    proof {
        lemma_byte_len_take(t, i as int, k);
    }
    i
}

/// The byte offset behind `k` characters.
fn offset_of(text: &Vec<char>, k: usize, whole: usize) -> (r: usize)
    requires
        k <= text@.len(),
        byte_len(text@) == whole,
    ensures
        r == offset(text@, k as int),
{
    let ghost t = text@;
    proof {
        lemma_offset(t, 0);
    }
    let mut i: usize = 0;
    let mut bytes: usize = 0;
    while i < k
        invariant
            t == text@,
            i <= k <= t.len(),
            byte_len(t) == whole,
            bytes == offset(t, i as int),
        decreases k - i,
    {
        proof {
            lemma_offset(t, i as int);
            lemma_byte_len_take(t, i + 1, t.len() as int);
            assert(t.take(t.len() as int) =~= t);
        }
        bytes = bytes + utf8_size(text[i]);
        i += 1;
    }
    bytes
}

/// The nearest boundary before a byte offset.
pub open spec fn boundary_before(text: Seq<char>, pos: nat) -> nat
    decreases pos,
{
    if pos == 0 {
        0
    } else if on_boundary(text, (pos - 1) as nat) {
        (pos - 1) as nat
    } else {
        boundary_before(text, (pos - 1) as nat)
    }
}

proof fn lemma_boundary_before(text: Seq<char>, pos: nat, b: nat)
    requires
        b < pos,
        on_boundary(text, b),
        forall|x: nat| b < x < pos ==> !on_boundary(text, x),
    ensures
        boundary_before(text, pos) == b,
    decreases pos,
{
    if b + 1 < pos {
        lemma_boundary_before(text, (pos - 1) as nat, b);
    }
}

proof fn lemma_no_boundary_between(text: Seq<char>, i: int, x: nat)
    requires
        0 <= i < text.len(),
        offset(text, i) < x < offset(text, i + 1),
    ensures
        !on_boundary(text, x),
{
    if on_boundary(text, x) {
        lemma_position(text, x);
        let k = position(text, x);
        if k <= i {
            lemma_byte_len_take(text, k, i);
        } else {
            lemma_byte_len_take(text, i + 1, k);
        }
    }
}

/// Before a boundary that is not the start, the nearest one is a character back.
pub proof fn lemma_step_back(text: Seq<char>, at: nat)
    requires
        on_boundary(text, at),
        at > 0,
    ensures
        position(text, at) > 0,
        boundary_before(text, at) == offset(text, position(text, at) - 1),
{
    lemma_position(text, at);
    let k = position(text, at);
    lemma_offset(text, 0);
    lemma_offset(text, k - 1);
    assert forall|x: nat| offset(text, k - 1) < x < at implies !on_boundary(text, x) by {
        lemma_no_boundary_between(text, k - 1, x);
    }
    lemma_boundary_before(text, at, offset(text, k - 1));
}

/// The nearest boundary before a byte offset, or the start.
pub fn prev_char_boundary(s: &str, pos: usize) -> (r: usize)
    ensures
        r == boundary_before(s@, pos as nat),
{
    if pos == 0 {
        return 0;
    }
    let chars = chars_of(s);
    let total: usize = byte_length(s);
    let ghost t = s@;
    let n: usize = chars.len();
    let mut i: usize = 0;
    let mut bytes: usize = 0;
    proof {
        lemma_offset(t, 0);
    }
    while i < n
        invariant
            t == chars@,
            t == s@,
            n == chars@.len(),
            i <= n,
            pos > 0,
            total == byte_len(t),
            bytes == offset(t, i as int),
            bytes < pos,
        decreases n - i,
    {
        proof {
            lemma_offset(t, i as int);
            lemma_byte_len_take(t, i + 1, n as int);
            assert(t.take(n as int) =~= t);
        }
        let next: usize = bytes + utf8_size(chars[i]);
        if next >= pos {
            proof {
                assert forall|x: nat| bytes < x < pos implies !on_boundary(t, x) by {
                    lemma_no_boundary_between(t, i as int, x);
                }
                lemma_boundary_before(t, pos as nat, bytes as nat);
            }
            return bytes;
        }
        bytes = next;
        i += 1;
    }
    proof {
        lemma_offset(t, n as int);
        assert forall|x: nat| bytes < x < pos implies !on_boundary(t, x) by {
            if on_boundary(t, x) {
                lemma_position(t, x);
            }
        }
        lemma_boundary_before(t, pos as nat, bytes as nat);
    }
    bytes
}

// ── Words ────────────────────────────────────────────────────────────────────

/// Back over spaces.
pub open spec fn back_spaces(text: Seq<char>, k: int) -> int
    decreases k,
{
    if 0 < k <= text.len() && text[k - 1] == ' ' {
        back_spaces(text, k - 1)
    } else {
        k
    }
}

/// Back over what is no space.
pub open spec fn back_word(text: Seq<char>, k: int) -> int
    decreases k,
{
    if 0 < k <= text.len() && text[k - 1] != ' ' {
        back_word(text, k - 1)
    } else {
        k
    }
}

/// Forward over spaces.
pub open spec fn over_spaces(text: Seq<char>, k: int) -> int
    decreases text.len() - k,
{
    if 0 <= k < text.len() && text[k] == ' ' {
        over_spaces(text, k + 1)
    } else {
        k
    }
}

/// Forward over what is no space.
pub open spec fn over_word(text: Seq<char>, k: int) -> int
    decreases text.len() - k,
{
    if 0 <= k < text.len() && text[k] != ' ' {
        over_word(text, k + 1)
    } else {
        k
    }
}

/// The start of the word before a position.
pub open spec fn word_left(text: Seq<char>, k: int) -> int {
    back_word(text, back_spaces(text, k))
}

/// The end of the word behind a position; the position itself where only spaces
/// follow.
pub open spec fn word_right(text: Seq<char>, k: int) -> int {
    let start = over_spaces(text, k);
    if start >= text.len() {
        k
    } else {
        over_word(text, start)
    }
}

fn find_word_left(text: &Vec<char>, from: usize) -> (r: usize)
    requires
        from <= text@.len(),
    ensures
        r == word_left(text@, from as int),
        r <= from,
{
    let mut k: usize = from;
    while k > 0 && text[k - 1] == ' '
        invariant
            k <= from <= text@.len(),
            back_spaces(text@, from as int) == back_spaces(text@, k as int),
        decreases k,
    {
        k -= 1;
    }
    let ghost mid = k as int;
    while k > 0 && text[k - 1] != ' '
        invariant
            k <= from <= text@.len(),
            mid == back_spaces(text@, from as int),
            back_word(text@, mid) == back_word(text@, k as int),
        decreases k,
    {
        k -= 1;
    }
    k
}

fn find_word_right(text: &Vec<char>, from: usize) -> (r: usize)
    requires
        from <= text@.len(),
    ensures
        r == word_right(text@, from as int),
        from <= r <= text@.len(),
{
    let n: usize = text.len();
    let mut k: usize = from;
    while k < n && text[k] == ' '
        invariant
            n == text@.len(),
            from <= k <= n,
            over_spaces(text@, from as int) == over_spaces(text@, k as int),
        decreases n - k,
    {
        k += 1;
    }
    if k >= n {
        return from;
    }
    let ghost mid = k as int;
    while k < n && text[k] != ' '
        invariant
            n == text@.len(),
            from <= k <= n,
            mid == over_spaces(text@, from as int),
            over_word(text@, mid) == over_word(text@, k as int),
        decreases n - k,
    {
        k += 1;
    }
    k
}

/// The byte offset of the start of the word before a cursor.
pub fn prev_word_boundary(s: &str, pos: usize) -> (r: usize)
    requires
        on_boundary(s@, pos as nat),
    ensures
        r == offset(s@, word_left(s@, position(s@, pos as nat))),
{
    let chars = chars_of(s);
    let k: usize = index_of(&chars, pos);
    let to: usize = find_word_left(&chars, k);
    offset_of(&chars, to, byte_length(s))
}

/// The byte offset of the end of the word behind a cursor.
pub fn next_word_boundary(s: &str, pos: usize) -> (r: usize)
    requires
        on_boundary(s@, pos as nat),
    ensures
        r == offset(s@, word_right(s@, position(s@, pos as nat))),
{
    let chars = chars_of(s);
    let k: usize = index_of(&chars, pos);
    let to: usize = find_word_right(&chars, k);
    offset_of(&chars, to, byte_length(s))
}

// ── Edits ────────────────────────────────────────────────────────────────────

/// A step of editing.
#[derive(Clone, Copy, Debug, PartialEq, Eq, Structural)]
pub enum InputEdit {
    Insert(char),
    Newline,
    Backspace,
    Delete,
    Left,
    Right,
    WordLeft,
    WordRight,
    LineStart,
    LineEnd,
    LineUp,
    LineDown,
    DeleteToEnd,
    DeleteToStart,
}

/// The cursor one visual row further up, if there is one.
pub open spec fn row_up(text: Seq<char>, cursor: nat, width: nat) -> Option<nat> {
    let at = cursor_at(text, width, cursor);
    if width > 0 && at.0 > 0 {
        Some(offset_at(text, width, (at.0 - 1) as nat, at.1))
    } else {
        None
    }
}

/// The cursor one visual row further down, if there is one.
pub open spec fn row_down(text: Seq<char>, cursor: nat, width: nat) -> Option<nat> {
    let at = cursor_at(text, width, cursor);
    if width > 0 && at.0 + 1 < wrapped_lines(text, width, cursor).len() {
        Some(offset_at(text, width, at.0 + 1, at.1))
    } else {
        None
    }
}

/// The text and the cursor after a step, in a box of `width` columns.
pub open spec fn edited(text: Seq<char>, cursor: nat, width: nat, op: InputEdit) -> (
    Seq<char>,
    nat,
) {
    let k = position(text, cursor);
    match op {
        InputEdit::Insert(c) => (text.insert(k, c), cursor + utf8_width(c)),
        InputEdit::Newline => (text.insert(k, '\n'), cursor + 1),
        InputEdit::Backspace => if k > 0 {
            (text.remove(k - 1), offset(text, k - 1))
        } else {
            (text, cursor)
        },
        InputEdit::Delete => if k < text.len() {
            (text.remove(k), cursor)
        } else {
            (text, cursor)
        },
        InputEdit::Left => (text, boundary_before(text, cursor)),
        InputEdit::Right => (
            text,
            if k < text.len() {
                offset(text, k + 1)
            } else {
                cursor
            },
        ),
        InputEdit::WordLeft => (text, offset(text, word_left(text, k))),
        InputEdit::WordRight => (text, offset(text, word_right(text, k))),
        InputEdit::LineStart => (text, 0),
        InputEdit::LineEnd => (text, byte_len(text)),
        InputEdit::LineUp => (
            text,
            match row_up(text, cursor, width) {
                Some(c) => c,
                None => cursor,
            },
        ),
        InputEdit::LineDown => (
            text,
            match row_down(text, cursor, width) {
                Some(c) => c,
                None => cursor,
            },
        ),
        InputEdit::DeleteToEnd => (text.take(k), cursor),
        InputEdit::DeleteToStart => (text.skip(k), 0),
    }
}

/// Puts a character in, and the cursor behind it.
fn insert_char(chars: &Vec<char>, k: usize, c: char) -> (r: (String, usize))
    requires
        k <= chars@.len(),
    ensures
        r.0@ == chars@.insert(k as int, c),
        r.1 == offset(chars@, k as int) + utf8_width(c),
{
    let mut out = string_of(chars, 0, k);
    assert(out@ =~= chars@.take(k as int));
    out.push(c);
    assert(out@.drop_last() =~= chars@.take(k as int));
    let cursor: usize = byte_length(out.as_str());
    let tail = string_of(chars, k, chars.len());
    out.append(tail.as_str());
    assert(out@ =~= chars@.insert(k as int, c));
    (out, cursor)
}

/// Takes a character out.
fn remove_char(chars: &Vec<char>, k: usize) -> (r: String)
    requires
        k < chars@.len(),
    ensures
        r@ == chars@.remove(k as int),
{
    let n: usize = chars.len();
    let mut out = string_of(chars, 0, k);
    let tail = string_of(chars, k + 1, n);
    out.append(tail.as_str());
    assert(out@ =~= chars@.remove(k as int));
    out
}

/// The cursor one visual row further up.
pub fn cursor_up(text: &str, cursor: usize, width: usize) -> (r: Option<usize>)
    ensures
        row_up(text@, cursor as nat, width as nat) == (match r {
            Some(c) => Some(c as nat),
            None => None,
        }),
{
    if width == 0 {
        return None;
    }
    let ws = wrap_content(text, width, cursor);
    if ws.cursor_row > 0 {
        Some(byte_offset_at_row_col(text, width, ws.cursor_row - 1, ws.cursor_col))
    } else {
        None
    }
}

/// The cursor one visual row further down.
pub fn cursor_down(text: &str, cursor: usize, width: usize) -> (r: Option<usize>)
    ensures
        row_down(text@, cursor as nat, width as nat) == (match r {
            Some(c) => Some(c as nat),
            None => None,
        }),
{
    if width == 0 {
        return None;
    }
    let ws = wrap_content(text, width, cursor);
    let n: usize = ws.lines.len();
    assert(views(ws.lines@).len() == n);
    if ws.cursor_row + 1 < n {
        Some(byte_offset_at_row_col(text, width, ws.cursor_row + 1, ws.cursor_col))
    } else {
        None
    }
}

/// Takes a step of editing.
pub fn apply_edit(text: &str, cursor: usize, width: usize, op: InputEdit) -> (r: (String, usize))
    requires
        on_boundary(text@, cursor as nat),
    ensures
        (r.0@, r.1 as nat) == edited(text@, cursor as nat, width as nat, op),
        on_boundary(r.0@, r.1 as nat),
{
    let chars = chars_of(text);
    let n: usize = chars.len();
    let total: usize = byte_length(text);
    let k: usize = index_of(&chars, cursor);
    proof {
        lemma_position(text@, cursor as nat);
        law_cursor_stays_between_characters(text@, cursor as nat, width as nat, op);
    }
    match op {
        InputEdit::Insert(c) => insert_char(&chars, k, c),
        InputEdit::Newline => insert_char(&chars, k, '\n'),
        InputEdit::Backspace => {
            if k > 0 {
                (remove_char(&chars, k - 1), offset_of(&chars, k - 1, total))
            } else {
                (text.to_owned(), cursor)
            }
        },
        InputEdit::Delete => {
            if k < n {
                (remove_char(&chars, k), cursor)
            } else {
                (text.to_owned(), cursor)
            }
        },
        InputEdit::Left => (text.to_owned(), prev_char_boundary(text, cursor)),
        InputEdit::Right => {
            if k < n {
                (text.to_owned(), offset_of(&chars, k + 1, total))
            } else {
                (text.to_owned(), cursor)
            }
        },
        InputEdit::WordLeft => (text.to_owned(), prev_word_boundary(text, cursor)),
        InputEdit::WordRight => (text.to_owned(), next_word_boundary(text, cursor)),
        InputEdit::LineStart => (text.to_owned(), 0),
        InputEdit::LineEnd => (text.to_owned(), total),
        InputEdit::LineUp => match cursor_up(text, cursor, width) {
            Some(c) => (text.to_owned(), c),
            None => (text.to_owned(), cursor),
        },
        InputEdit::LineDown => match cursor_down(text, cursor, width) {
            Some(c) => (text.to_owned(), c),
            None => (text.to_owned(), cursor),
        },
        InputEdit::DeleteToEnd => {
            let out = string_of(&chars, 0, k);
            assert(out@ =~= text@.take(k as int));
            (out, cursor)
        },
        InputEdit::DeleteToStart => {
            let out = string_of(&chars, k, n);
            assert(out@ =~= text@.skip(k as int));
            (out, 0)
        },
    }
}

// ── The cursor stays between characters ──────────────────────────────────────

/// A row of a grid is a stretch of the text, and its start is where it begins.
pub open spec fn row_from(s: Seq<char>, line: Seq<char>, start: nat, f: int) -> bool {
    &&& 0 <= f
    &&& f + line.len() <= s.len()
    &&& line == s.subrange(f, f + line.len())
    &&& start == byte_len(s.take(f))
}

/// A finished row of a grid is a stretch of the text.
pub open spec fn row_is_stretch(s: Seq<char>, g: Grid, r: int) -> bool {
    exists|f: int| row_from(s, g.lines[r], g.starts[r], f)
}

/// Every row of a grid is a stretch of the text.
pub open spec fn rows_are_stretches(s: Seq<char>, g: Grid) -> bool {
    &&& g.lines.len() == g.starts.len()
    &&& forall|r: int| 0 <= r < g.lines.len() ==> #[trigger] row_is_stretch(s, g, r)
    &&& row_from(s, g.last, g.start, s.len() - g.last.len())
}

proof fn lemma_rows_are_stretches(s: Seq<char>, width: nat)
    ensures
        rows_are_stretches(s, grid(s, width)),
    decreases s.len(),
{
    if s.len() == 0 {
        assert(s.take(0) =~= seq![]);
        assert(s.subrange(0, 0) =~= seq![]);
        assert(row_from(s, Grid::empty().last, Grid::empty().start, 0));
    } else {
        let init = s.drop_last();
        let c = s.last();
        let n = init.len() as int;
        lemma_rows_are_stretches(init, width);
        let g = grid(init, width);
        let at = byte_len(init);
        let g1 = g.before(c, width, at);
        let g2 = g1.put(c, width, at);
        assert(init.take(n) =~= init);
        assert(s.take(n) =~= init);
        assert(s.take(n + 1) =~= s);
        // The rows of `init` are rows of `s`.
        assert forall|line: Seq<char>, start: nat, f: int| #[trigger]
            row_from(init, line, start, f) implies row_from(s, line, start, f) by {
            assert(s.subrange(f, f + line.len()) =~= init.subrange(f, f + line.len()));
            assert(s.take(f) =~= init.take(f));
        }
        let f0 = n - g.last.len();
        assert(row_from(s, g.last, g.start, f0));
        assert(row_from(init, g1.last, g1.start, n - g1.last.len())) by {
            if g.overflows(c, width) {
                assert(init.subrange(n, n) =~= seq![]);
            }
        }
        let f1 = n - g1.last.len();
        assert(row_from(s, g1.last, g1.start, f1));
        assert forall|r: int| 0 <= r < g1.lines.len() implies #[trigger] row_is_stretch(
            s,
            g1,
            r,
        ) by {
            if r < g.lines.len() {
                assert(row_is_stretch(init, g, r));
                assert(g1.lines[r] == g.lines[r] && g1.starts[r] == g.starts[r]);
                let f = choose|f: int| row_from(init, g.lines[r], g.starts[r], f);
                assert(row_from(s, g1.lines[r], g1.starts[r], f));
            } else {
                assert(g1.lines[r] == g.last && g1.starts[r] == g.start);
                assert(row_from(s, g1.lines[r], g1.starts[r], f0));
            }
        }
        let res = grid(s, width);
        assert(res == g.put(c, width, at));
        if c == '\n' {
            assert(res == g1.broken(at + 1));
            assert forall|r: int| 0 <= r < res.lines.len() implies #[trigger] row_is_stretch(
                s,
                res,
                r,
            ) by {
                if r < g1.lines.len() {
                    assert(row_is_stretch(s, g1, r));
                    assert(res.lines[r] == g1.lines[r] && res.starts[r] == g1.starts[r]);
                    let f = choose|f: int| row_from(s, g1.lines[r], g1.starts[r], f);
                    assert(row_from(s, res.lines[r], res.starts[r], f));
                } else {
                    assert(row_from(s, res.lines[r], res.starts[r], f1));
                }
            }
            assert(s.subrange(n + 1, n + 1) =~= seq![]);
            assert(byte_len(s) == at + 1);
            assert(row_from(s, res.last, res.start, s.len() - res.last.len()));
        } else {
            assert(res == Grid { last: g1.last.push(c), ..g1 });
            assert forall|r: int| 0 <= r < res.lines.len() implies #[trigger] row_is_stretch(
                s,
                res,
                r,
            ) by {
                assert(row_is_stretch(s, g1, r));
                let f = choose|f: int| row_from(s, g1.lines[r], g1.starts[r], f);
                assert(row_from(s, res.lines[r], res.starts[r], f));
            }
            assert(g1.last.push(c) =~= s.subrange(f1, f1 + g1.last.len() + 1));
            assert(row_from(s, res.last, res.start, s.len() - res.last.len()));
        }
    }
}

/// The byte offset of a visual row and column stands between two characters.
pub proof fn lemma_offset_at_boundary(s: Seq<char>, width: nat, row: nat, col: nat)
    ensures
        on_boundary(s, offset_at(s, width, row, col)),
{
    let g = grid(s, width);
    lemma_rows_are_stretches(s, width);
    let lines = g.all_lines();
    let r = if row < lines.len() {
        row as int
    } else {
        lines.len() - 1
    };
    let line = lines[r];
    let start = g.all_starts()[r];
    assert(r < g.lines.len() ==> row_is_stretch(s, g, r));
    let f = if r < g.lines.len() {
        choose|f: int| row_from(s, g.lines[r], g.starts[r], f)
    } else {
        s.len() - g.last.len()
    };
    assert(row_from(s, line, start, f));
    let j = chars_until(line, col as int) as int;
    lemma_chars_until(line, col as int);
    assert(s.take(f + j) =~= s.take(f) + line.take(j));
    lemma_byte_len_concat(s.take(f), line.take(j));
    lemma_offset(s, f + j);
}

proof fn lemma_word_left(text: Seq<char>, k: int)
    requires
        0 <= k <= text.len(),
    ensures
        0 <= back_spaces(text, k) <= k,
        0 <= back_word(text, k) <= k,
    decreases k,
{
    if k > 0 {
        lemma_word_left(text, k - 1);
    }
}

proof fn lemma_word_right(text: Seq<char>, k: int)
    requires
        0 <= k <= text.len(),
    ensures
        k <= over_spaces(text, k) <= text.len(),
        k <= over_word(text, k) <= text.len(),
    decreases text.len() - k,
{
    if k < text.len() {
        lemma_word_right(text, k + 1);
    }
}

/// No step of editing leaves the cursor inside a character or off the text.
pub proof fn law_cursor_stays_between_characters(
    text: Seq<char>,
    cursor: nat,
    width: nat,
    op: InputEdit,
)
    requires
        on_boundary(text, cursor),
    ensures
        on_boundary(edited(text, cursor, width, op).0, edited(text, cursor, width, op).1),
{
    lemma_position(text, cursor);
    let k = position(text, cursor);
    let after = edited(text, cursor, width, op);
    match op {
        InputEdit::Insert(c) => {
            lemma_inserted(text, k, c);
        },
        InputEdit::Newline => {
            lemma_inserted(text, k, '\n');
        },
        InputEdit::Backspace => {
            if k > 0 {
                assert(text.remove(k - 1).take(k - 1) =~= text.take(k - 1));
                lemma_offset(text.remove(k - 1), k - 1);
            }
        },
        InputEdit::Delete => {
            if k < text.len() {
                assert(text.remove(k).take(k) =~= text.take(k));
                lemma_offset(text.remove(k), k);
            }
        },
        InputEdit::Left => {
            if cursor > 0 {
                lemma_step_back(text, cursor);
                lemma_offset(text, k - 1);
            }
        },
        InputEdit::Right => {
            if k < text.len() {
                lemma_offset(text, k + 1);
            }
        },
        InputEdit::WordLeft => {
            lemma_word_left(text, k);
            lemma_word_left(text, back_spaces(text, k));
            lemma_offset(text, word_left(text, k));
        },
        InputEdit::WordRight => {
            lemma_word_right(text, k);
            lemma_word_right(text, over_spaces(text, k));
            lemma_offset(text, word_right(text, k));
        },
        InputEdit::LineStart => {
            lemma_offset(text, 0);
        },
        InputEdit::LineEnd => {
            lemma_offset(text, text.len() as int);
        },
        InputEdit::LineUp => {
            let at = cursor_at(text, width, cursor);
            lemma_offset_at_boundary(text, width, (at.0 - 1) as nat, at.1);
        },
        InputEdit::LineDown => {
            let at = cursor_at(text, width, cursor);
            lemma_offset_at_boundary(text, width, at.0 + 1, at.1);
        },
        InputEdit::DeleteToEnd => {
            assert(text.take(k).take(k) =~= text.take(k));
            lemma_offset(text.take(k), k);
        },
        InputEdit::DeleteToStart => {
            lemma_offset(text.skip(k), 0);
        },
    }
}

/// A character put in moves the cursor behind it.
proof fn lemma_inserted(text: Seq<char>, k: int, c: char)
    requires
        0 <= k <= text.len(),
    ensures
        on_boundary(text.insert(k, c), offset(text, k) + utf8_width(c)),
        position(text.insert(k, c), offset(text, k) + utf8_width(c)) == k + 1,
        offset(text.insert(k, c), k) == offset(text, k),
{
    let t = text.insert(k, c);
    assert(t.take(k) =~= text.take(k));
    lemma_offset(t, k);
    lemma_offset(t, k + 1);
}

/// Backspace right behind a typed character undoes it.
pub proof fn law_backspace_undoes_insert(text: Seq<char>, cursor: nat, width: nat, c: char)
    requires
        on_boundary(text, cursor),
    ensures
        ({
            let typed = edited(text, cursor, width, InputEdit::Insert(c));
            edited(typed.0, typed.1, width, InputEdit::Backspace) == (text, cursor)
        }),
{
    lemma_position(text, cursor);
    let k = position(text, cursor);
    lemma_inserted(text, k, c);
    assert(text.insert(k, c).remove(k) =~= text);
}

/// Moving the cursor changes no text.
pub proof fn law_moves_keep_text(text: Seq<char>, cursor: nat, width: nat, op: InputEdit)
    ensures
        op is Left || op is Right || op is WordLeft || op is WordRight || op is LineStart
            || op is LineEnd || op is LineUp || op is LineDown ==> edited(
            text,
            cursor,
            width,
            op,
        ).0 == text,
{
}

/// One step to the right and one to the left lead back.
pub proof fn law_left_undoes_right(text: Seq<char>, cursor: nat, width: nat)
    requires
        on_boundary(text, cursor),
        cursor < byte_len(text),
    ensures
        edited(text, edited(text, cursor, width, InputEdit::Right).1, width, InputEdit::Left).1
            == cursor,
{
    lemma_position(text, cursor);
    let k = position(text, cursor);
    lemma_offset(text, k + 1);
    lemma_offset(text, k);
    lemma_step_back(text, offset(text, k + 1));
}

// ── What stands before the cursor ────────────────────────────────────────────

/// The start of the line that a position is on.
pub open spec fn line_start(text: Seq<char>, k: int) -> int
    decreases k,
{
    if 0 < k <= text.len() && text[k - 1] != '\n' {
        line_start(text, k - 1)
    } else {
        k
    }
}

/// The byte offset at which the cursor's line starts, and the line up to the
/// cursor.
pub fn command_line_at_cursor(text: &str, cursor: usize) -> (r: (usize, String))
    requires
        on_boundary(text@, cursor as nat),
    ensures
        ({
            let k = position(text@, cursor as nat);
            let start = line_start(text@, k);
            r.0 == offset(text@, start) && r.1@ == text@.subrange(start, k)
        }),
        on_boundary(text@, r.0 as nat),
        r.0 <= cursor,
{
    let chars = chars_of(text);
    let k: usize = index_of(&chars, cursor);
    let mut start: usize = k;
    while start > 0 && chars[start - 1] != '\n'
        invariant
            start <= k <= chars@.len(),
            line_start(chars@, k as int) == line_start(chars@, start as int),
        decreases start,
    {
        start -= 1;
    }
    proof {
        lemma_offset(text@, start as int);
        lemma_position(text@, cursor as nat);
        lemma_byte_len_take(text@, start as int, k as int);
    }
    (offset_of(&chars, start, byte_length(text)), string_of(&chars, start, k))
}

/// The name that is being typed behind an `@` at the cursor: the `@` starts a
/// word, and no white space follows it.
pub open spec fn mention(before: Seq<char>) -> Option<Seq<char>> {
    match last_index(before, '@') {
        None => None,
        Some(p) => if p > 0 && !is_space(before[p - 1]) {
            None
        } else if exists|i: int| p < i < before.len() && is_space(#[trigger] before[i]) {
            None
        } else {
            Some(before.skip(p + 1))
        },
    }
}

proof fn lemma_last_index_is(s: Seq<char>, c: char, p: int)
    requires
        0 <= p < s.len(),
        s[p] == c,
        forall|i: int| p < i < s.len() ==> #[trigger] s[i] != c,
    ensures
        last_index(s, c) == Some(p),
    decreases s.len(),
{
    if p < s.len() - 1 {
        assert(s.last() == s[s.len() - 1]);
        lemma_last_index_is(s.drop_last(), c, p);
    }
}

proof fn lemma_last_index_none(s: Seq<char>, c: char)
    requires
        forall|i: int| 0 <= i < s.len() ==> #[trigger] s[i] != c,
    ensures
        last_index(s, c) is None,
    decreases s.len(),
{
    if s.len() > 0 {
        assert(s.last() == s[s.len() - 1]);
        lemma_last_index_none(s.drop_last(), c);
    }
}

/// The mention that is being typed at the cursor.
pub fn at_mention_prefix(text: &str, cursor: usize) -> (r: Option<String>)
    requires
        on_boundary(text@, cursor as nat),
    ensures
        opt_string_view(r) == mention(text@.take(position(text@, cursor as nat))),
{
    let chars = chars_of(text);
    let k: usize = index_of(&chars, cursor);
    let ghost before = text@.take(k as int);
    let mut p: usize = k;
    let mut spaced = false;
    while p > 0 && chars[p - 1] != '@'
        invariant
            chars@ == text@,
            before == text@.take(k as int),
            p <= k <= chars@.len(),
            forall|i: int| p <= i < k ==> #[trigger] before[i] != '@',
            spaced == exists|i: int| p <= i < k && is_space(#[trigger] before[i]),
        decreases p,
    {
        assert(before[p - 1] == chars@[p - 1]);
        if is_whitespace(chars[p - 1]) {
            spaced = true;
        }
        p -= 1;
    }
    if p == 0 {
        proof {
            lemma_last_index_none(before, '@');
        }
        return None;
    }
    let at: usize = p - 1;
    proof {
        assert(before[at as int] == '@');
        lemma_last_index_is(before, '@', at as int);
    }
    if at > 0 && !is_whitespace(chars[at - 1]) {
        assert(before[at - 1] == chars@[at - 1]);
        return None;
    }
    assert(at > 0 ==> before[at - 1] == chars@[at - 1]);
    if spaced {
        return None;
    }
    let out = string_of(&chars, at + 1, k);
    assert(out@ =~= before.skip(at + 1));
    Some(out)
}

} // verus!
