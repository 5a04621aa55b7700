//! What editing promises: what a step does to the text before the cursor and to
//! the text behind it, and what becomes of an input that is sent.

use vstd::prelude::*;

use crate::app::editing::{
    edited, lemma_offset, lemma_step_back, offset, on_boundary, position, row_down, row_up,
    InputEdit,
};
use crate::app::front::{AppView, EffectView};
use crate::app::input_state::{AttachmentView, EditView, InputView};
use crate::app::steps_input::{
    attachment_texts, completed_command, full_text, is_meant, member_item, mention_items,
    without_slashes,
};
use crate::app::ui_state::{OverlayView, TeamEntryView};
use crate::chat::segment::{ContentView, MessageView, Role, SegmentView};
use crate::input_wrap::{char_cols, chars_until, cols, cursor_at, grid, offset_at, wrapped_lines};
use crate::text::{
    byte_len, has_prefix, is_space, join, lemma_trim_end_is_prefix, lemma_trim_start_is_suffix,
    lowercase, trim, trim_start, utf8_width,
};

verus! {

// ── Steps of editing ─────────────────────────────────────────────────────────

/// The end of a first part is a place between characters.
proof fn lemma_between(a: Seq<char>, b: Seq<char>)
    ensures
        on_boundary(a + b, byte_len(a)),
        position(a + b, byte_len(a)) == a.len(),
        offset(a + b, a.len() as int) == byte_len(a),
        (a + b).take(a.len() as int) == a,
        (a + b).skip(a.len() as int) == b,
{
    assert((a + b).take(a.len() as int) =~= a);
    assert((a + b).skip(a.len() as int) =~= b);
    lemma_offset(a + b, a.len() as int);
}

/// A character that is typed comes between what stands before the cursor and
/// what stands behind it, and the cursor stands behind it. A new line is such a
/// character.
pub proof fn law_typed_character_comes_at_the_cursor(
    a: Seq<char>,
    b: Seq<char>,
    width: nat,
    c: char,
)
    ensures
        edited(a + b, byte_len(a), width, InputEdit::Insert(c)) == (
            a + seq![c] + b,
            byte_len(a + seq![c]),
        ),
        edited(a + b, byte_len(a), width, InputEdit::Newline) == (
            a + seq!['\n'] + b,
            byte_len(a + seq!['\n']),
        ),
{
    lemma_between(a, b);
    assert((a + b).insert(a.len() as int, c) =~= a + seq![c] + b);
    assert((a + b).insert(a.len() as int, '\n') =~= a + seq!['\n'] + b);
    assert((a + seq![c]).drop_last() =~= a);
    assert((a + seq!['\n']).drop_last() =~= a);
}

/// Backspace takes the character before the cursor, delete the one behind it;
/// at an end there is none to take.
pub proof fn law_one_character_is_deleted(a: Seq<char>, b: Seq<char>, width: nat, c: char)
    ensures
        edited(a + seq![c] + b, byte_len(a + seq![c]), width, InputEdit::Backspace) == (
            a + b,
            byte_len(a),
        ),
        edited(b, 0, width, InputEdit::Backspace) == (b, 0nat),
        edited(a + (seq![c] + b), byte_len(a), width, InputEdit::Delete) == (a + b, byte_len(a)),
        edited(a, byte_len(a), width, InputEdit::Delete) == (a, byte_len(a)),
{
    let t = a + seq![c] + b;
    lemma_between(a + seq![c], b);
    assert(t.remove(a.len() as int) =~= a + b);
    assert(t.take(a.len() as int) =~= a);
    lemma_between(seq![], b);
    assert(Seq::<char>::empty() + b =~= b);
    lemma_between(a, seq![c] + b);
    assert((a + (seq![c] + b)).remove(a.len() as int) =~= a + b);
    lemma_between(a, seq![]);
    assert(a + Seq::<char>::empty() =~= a);
}

/// The cursor keys move over one character, or not at all at an end.
pub proof fn law_cursor_moves_over_one_character(
    a: Seq<char>,
    b: Seq<char>,
    width: nat,
    c: char,
)
    ensures
        edited(a + seq![c] + b, byte_len(a + seq![c]), width, InputEdit::Left) == (
            a + seq![c] + b,
            byte_len(a),
        ),
        edited(b, 0, width, InputEdit::Left) == (b, 0nat),
        edited(a + (seq![c] + b), byte_len(a), width, InputEdit::Right) == (
            a + (seq![c] + b),
            byte_len(a + seq![c]),
        ),
        edited(a, byte_len(a), width, InputEdit::Right) == (a, byte_len(a)),
{
    let t = a + seq![c] + b;
    lemma_between(a + seq![c], b);
    assert((a + seq![c]).drop_last() =~= a);
    assert(byte_len(a + seq![c]) == byte_len(a) + utf8_width(c));
    lemma_step_back(t, byte_len(a + seq![c]));
    assert(t.take(a.len() as int) =~= a);
    let u = a + (seq![c] + b);
    lemma_between(a, seq![c] + b);
    assert(u.take(a.len() as int + 1) =~= a + seq![c]);
    lemma_between(a, seq![]);
    assert(a + Seq::<char>::empty() =~= a);
}

/// Home leads to the start of the text and end to its end.
pub proof fn law_home_and_end_lead_to_the_ends(text: Seq<char>, cursor: nat, width: nat)
    ensures
        edited(text, cursor, width, InputEdit::LineStart) == (text, 0nat),
        edited(text, cursor, width, InputEdit::LineEnd) == (text, byte_len(text)),
{
}

/// To delete to the end keeps exactly what stands before the cursor, which stays
/// where it is; to delete to the start keeps exactly what stands behind it. What
/// the two leave is the whole text together.
pub proof fn law_deletion_splits_at_the_cursor(a: Seq<char>, b: Seq<char>, width: nat)
    ensures
        edited(a + b, byte_len(a), width, InputEdit::DeleteToEnd) == (a, byte_len(a)),
        edited(a + b, byte_len(a), width, InputEdit::DeleteToStart) == (b, 0nat),
        edited(a + b, byte_len(a), width, InputEdit::DeleteToEnd).0 + edited(
            a + b,
            byte_len(a),
            width,
            InputEdit::DeleteToStart,
        ).0 == a + b,
{
    lemma_between(a, b);
}

proof fn lemma_back_spaces(text: Seq<char>, from: int, k: int)
    requires
        0 <= from <= k <= text.len(),
        forall|i: int| from <= i < k ==> text[i] == ' ',
        from > 0 ==> text[from - 1] != ' ',
    ensures
        crate::app::editing::back_spaces(text, k) == from,
    decreases k,
{
    if from < k {
        lemma_back_spaces(text, from, k - 1);
    }
}

proof fn lemma_back_word(text: Seq<char>, from: int, k: int)
    requires
        0 <= from <= k <= text.len(),
        forall|i: int| from <= i < k ==> text[i] != ' ',
        from > 0 ==> text[from - 1] == ' ',
    ensures
        crate::app::editing::back_word(text, k) == from,
    decreases k,
{
    if from < k {
        lemma_back_word(text, from, k - 1);
    }
}

proof fn lemma_over_spaces(text: Seq<char>, k: int, to: int)
    requires
        0 <= k <= to <= text.len(),
        forall|i: int| k <= i < to ==> text[i] == ' ',
        to < text.len() ==> text[to] != ' ',
    ensures
        crate::app::editing::over_spaces(text, k) == to,
    decreases to - k,
{
    if k < to {
        lemma_over_spaces(text, k + 1, to);
    }
}

proof fn lemma_over_word(text: Seq<char>, k: int, to: int)
    requires
        0 <= k <= to <= text.len(),
        forall|i: int| k <= i < to ==> text[i] != ' ',
        to < text.len() ==> text[to] == ' ',
    ensures
        crate::app::editing::over_word(text, k) == to,
    decreases to - k,
{
    if k < to {
        lemma_over_word(text, k + 1, to);
    }
}

/// One word to the left leads over the spaces before the cursor to the start of
/// the word before them.
pub proof fn law_word_left_leads_to_a_start(
    p: Seq<char>,
    word: Seq<char>,
    spaces: Seq<char>,
    b: Seq<char>,
    width: nat,
)
    requires
        word.len() > 0,
        !word.contains(' '),
        forall|i: int| 0 <= i < spaces.len() ==> spaces[i] == ' ',
        p.len() > 0 ==> p.last() == ' ',
    ensures
        edited(p + word + spaces + b, byte_len(p + word + spaces), width, InputEdit::WordLeft) == (
            p + word + spaces + b,
            byte_len(p),
        ),
{
    let t = p + word + spaces + b;
    lemma_between(p + word + spaces, b);
    let k = (p + word + spaces).len() as int;
    let m = (p + word).len() as int;
    assert forall|i: int| p.len() <= i < m implies t[i] != ' ' by {
        assert(t[i] == word[i - p.len()]);
        assert(word.contains(word[i - p.len()]));
    }
    assert(t[m - 1] != ' ');
    lemma_back_spaces(t, m, k);
    lemma_back_word(t, p.len() as int, m);
    assert(t.take(p.len() as int) =~= p);
}

/// One word to the right leads over the spaces behind the cursor to the end of
/// the word behind them; where only spaces follow the cursor stays.
pub proof fn law_word_right_leads_to_an_end(
    a: Seq<char>,
    spaces: Seq<char>,
    word: Seq<char>,
    q: Seq<char>,
    width: nat,
)
    requires
        word.len() > 0,
        !word.contains(' '),
        forall|i: int| 0 <= i < spaces.len() ==> spaces[i] == ' ',
        q.len() > 0 ==> q[0] == ' ',
    ensures
        edited(a + (spaces + word + q), byte_len(a), width, InputEdit::WordRight) == (
            a + (spaces + word + q),
            byte_len(a + spaces + word),
        ),
        edited(a + spaces, byte_len(a), width, InputEdit::WordRight) == (a + spaces, byte_len(a)),
{
    let t = a + (spaces + word + q);
    lemma_between(a, spaces + word + q);
    let k = a.len() as int;
    let m = k + spaces.len();
    let e = m + word.len();
    assert forall|i: int| m <= i < e implies t[i] != ' ' by {
        assert(t[i] == word[i - m]);
        assert(word.contains(word[i - m]));
    }
    assert(e < t.len() ==> t[e] == q[0]);
    assert(t[m] != ' ');
    lemma_over_spaces(t, k, m);
    lemma_over_word(t, m, e);
    assert(t.take(e) =~= a + spaces + word);
    lemma_between(a, spaces);
    lemma_over_spaces(a + spaces, k, (a + spaces).len() as int);
}

proof fn lemma_cols_front(c: char, s: Seq<char>)
    ensures
        cols(seq![c] + s) == char_cols(c) + cols(s),
    decreases s.len(),
{
    let t = seq![c] + s;
    if s.len() == 0 {
        assert(t.drop_last() =~= seq![]);
        assert(t.last() == c);
        assert(cols(t.drop_last()) == 0);
    } else {
        lemma_cols_front(c, s.drop_last());
        assert(t.drop_last() =~= seq![c] + s.drop_last());
        assert(t.last() == s.last());
    }
}

proof fn lemma_walk(line: Seq<char>, target: int)
    ensures
        ({
            let j = chars_until(line, target) as int;
            &&& 0 <= j <= line.len()
            &&& j == line.len() || cols(line.take(j)) >= target
            &&& j > 0 ==> cols(line.take(j - 1)) < target
        }),
    decreases line.len(),
{
    let j = chars_until(line, target) as int;
    assert(line.take(0) =~= seq![]);
    if line.len() > 0 && target > 0 {
        let rest = line.skip(1);
        let left = target - char_cols(line[0]);
        lemma_walk(rest, left);
        lemma_cols_front(line[0], rest.take(j - 1));
        assert(line.take(j) =~= seq![line[0]] + rest.take(j - 1));
        if j > 1 {
            lemma_cols_front(line[0], rest.take(j - 2));
            assert(line.take(j - 1) =~= seq![line[0]] + rest.take(j - 2));
        }
    }
}

/// A byte offset is the first place in a line, which starts at `start`, that is
/// not left of a column, or the end of the line where it is shorter.
pub open spec fn lands_at(line: Seq<char>, start: nat, col: nat, at: nat) -> bool {
    exists|j: int|
        {
            &&& 0 <= j <= line.len()
            &&& at == start + byte_len(#[trigger] line.take(j))
            &&& j == line.len() || cols(line.take(j)) >= col
            &&& j > 0 ==> cols(line.take(j - 1)) < col
        }
}

/// In a wrapped text one line up leads into the row above, and one line down
/// into the row below: to the first place there that is not left of the column
/// the cursor was in, or to the end of the row where it is shorter. The text
/// stays.
pub proof fn law_rows_are_passed_one_by_one(text: Seq<char>, cursor: nat, width: nat)
    requires
        width > 0,
    ensures
        ({
            let at = cursor_at(text, width, cursor);
            let g = grid(text, width);
            &&& 0 < at.0 <= g.all_lines().len() ==> {
                &&& edited(text, cursor, width, InputEdit::LineUp).0 == text
                &&& lands_at(
                    g.all_lines()[at.0 - 1],
                    g.all_starts()[at.0 - 1],
                    at.1,
                    edited(text, cursor, width, InputEdit::LineUp).1,
                )
            }
            &&& at.0 + 1 < g.all_lines().len() ==> {
                &&& edited(text, cursor, width, InputEdit::LineDown).0 == text
                &&& lands_at(
                    g.all_lines()[at.0 as int + 1],
                    g.all_starts()[at.0 as int + 1],
                    at.1,
                    edited(text, cursor, width, InputEdit::LineDown).1,
                )
            }
        }),
{
    let at = cursor_at(text, width, cursor);
    let g = grid(text, width);
    assert(wrapped_lines(text, width, cursor).len() >= g.all_lines().len());
    if 0 < at.0 <= g.all_lines().len() {
        lemma_lands(text, width, (at.0 - 1) as nat, at.1);
    }
    if at.0 + 1 < g.all_lines().len() {
        lemma_lands(text, width, at.0 + 1, at.1);
    }
}

proof fn lemma_lands(text: Seq<char>, width: nat, row: nat, col: nat)
    requires
        row < grid(text, width).all_lines().len(),
    ensures
        lands_at(
            grid(text, width).all_lines()[row as int],
            grid(text, width).all_starts()[row as int],
            col,
            offset_at(text, width, row, col),
        ),
{
    let line = grid(text, width).all_lines()[row as int];
    lemma_walk(line, col as int);
    let j = chars_until(line, col as int) as int;
    assert(offset_at(text, width, row, col) == grid(text, width).all_starts()[row as int]
        + byte_len(line.take(j)));
}

// ── Wrapping ─────────────────────────────────────────────────────────────────

/// A new line character ends a row and is part of none; any other character
/// stands in the last row where it fits, and begins another one where it does
/// not.
pub proof fn law_rows_are_filled(s: Seq<char>, width: nat, c: char)
    ensures
        ({
            let before = grid(s, width).all_lines();
            let after = grid(s.push(c), width).all_lines();
            let fits = width == 0 || char_cols(c) == 0 || cols(before.last()) + char_cols(c)
                <= width;
            &&& c == '\n' ==> after == before.push(Seq::<char>::empty())
            &&& c != '\n' && fits ==> after == before.drop_last().push(before.last().push(c))
            &&& c != '\n' && !fits ==> after == before.push(seq![c])
        }),
        grid(Seq::<char>::empty(), width).all_lines() == seq![Seq::<char>::empty()],
{
    assert(s.push(c).drop_last() =~= s);
    let before = grid(s, width).all_lines();
    let after = grid(s.push(c), width).all_lines();
    assert(before.drop_last() =~= grid(s, width).lines);
    if c != '\n' && grid(s, width).overflows(c, width) {
        assert(after =~= before.push(seq![c]));
    } else if c != '\n' {
        assert(after =~= before.drop_last().push(before.last().push(c)));
    } else {
        assert(after =~= before.push(Seq::<char>::empty()));
    }
    assert(grid(Seq::<char>::empty(), width).all_lines() =~= seq![Seq::<char>::empty()]);
}

// ── The history ──────────────────────────────────────────────────────────────

/// A message that was sent is the newest of the history, trimmed, unless it is
/// empty or the newest already. At the limit the oldest one goes; no other
/// message changes.
pub proof fn law_sent_message_is_the_newest(v: InputView, text: Seq<char>)
    ensures
        trim(text).len() == 0 ==> v.remembered(text) == v,
        v.history.len() > 0 && v.history.last() == trim(text) ==> v.remembered(text) == v,
        trim(text).len() > 0 && (v.history.len() == 0 || v.history.last() != trim(text)) ==> {
            let h = v.remembered(text).history;
            &&& h.last() == trim(text)
            &&& v.history.len() < 100 ==> h == v.history + seq![trim(text)]
            &&& v.history.len() == 100 ==> h == v.history.subrange(1, 100) + seq![trim(text)]
            &&& v.remembered(text).history_idx is None
            &&& v.remembered(text).history_draft is None
        },
        v.remembered(text).buffer == v.buffer,
        v.remembered(text).attachments == v.attachments,
{
    let t = trim(text);
    if v.history.len() < 100 {
        assert(v.history.push(t) =~= v.history + seq![t]);
    }
    if v.history.len() == 100 {
        assert(v.history.skip(1).push(t) =~= v.history.subrange(1, 100) + seq![t]);
    }
}

/// Going back in the history shows the messages from the newest to the oldest,
/// one by one, and stops there; forward it goes the other way. What is shown
/// takes the place of the text, with the cursor at its end.
pub proof fn law_history_is_shown_one_by_one(v: InputView, i: usize)
    requires
        0 < v.history.len() <= usize::MAX,
        i < v.history.len(),
    ensures
        v.history_idx is None ==> {
            &&& v.showing_older().buffer == v.history.last()
            &&& v.showing_older().cursor == byte_len(v.history.last())
            &&& v.showing_older().history_idx == Some((v.history.len() - 1) as usize)
            &&& v.showing_older().history_draft == Some(v.buffer)
            &&& v.showing_newer() == v
        },
        v.history_idx == Some(i) && i > 0 ==> {
            &&& v.showing_older().buffer == v.history[i - 1]
            &&& v.showing_older().cursor == byte_len(v.history[i - 1])
            &&& v.showing_older().history_idx == Some((i - 1) as usize)
            &&& v.showing_older().history_draft == v.history_draft
        },
        v.history_idx == Some(0usize) ==> v.showing_older() == v,
        v.history_idx == Some(i) && i + 1 < v.history.len() ==> {
            &&& v.showing_newer().buffer == v.history[i + 1]
            &&& v.showing_newer().cursor == byte_len(v.history[i + 1])
            &&& v.showing_newer().history_idx == Some((i + 1) as usize)
        },
        v.history_idx == Some(i) && i + 1 == v.history.len() && v.history_draft is Some ==> {
            &&& v.showing_newer().buffer == v.history_draft->0
            &&& v.showing_newer().history_idx is None
        },
        v.showing_older().history == v.history,
        v.showing_newer().history == v.history,
        v.showing_older().attachments == v.attachments,
{
}

/// With no history there is nothing to show.
pub proof fn law_no_history_shows_nothing(v: InputView)
    requires
        v.history.len() == 0,
        v.history_idx is None,
    ensures
        v.showing_older() == v,
        v.showing_newer() == v,
{
}

// ── Typing ───────────────────────────────────────────────────────────────────

/// A step of editing changes the text and the cursor of the input as it changes
/// any text, and nothing else of it. Only at the first and the last row the
/// cursor keys lead through the history.
pub proof fn law_input_is_edited(v: AppView, op: InputEdit)
    requires
        op is LineUp ==> row_up(v.input.buffer, v.input.cursor, v.input_width()) is Some
            || v.input_width() == 0,
        op is LineDown ==> row_down(v.input.buffer, v.input.cursor, v.input_width()) is Some
            || v.input_width() == 0,
    ensures
        ({
            let e = edited(v.input.buffer, v.input.cursor, v.layout.input_inner_width as nat, op);
            let w = v.typed(op).app;
            &&& w.input.buffer == e.0
            &&& w.input.cursor == e.1
            &&& w.input.history == v.input.history
            &&& w.input.attachments == v.input.attachments
            &&& w.edit == v.edit
            &&& w.chat == v.chat
            &&& w.queue == v.queue
        }),
{
    reveal(InputView::after_edit);
}

/// At the first row one line up shows an older message, and at the last row one
/// line down a newer one.
pub proof fn law_rows_lead_into_the_history(v: AppView)
    requires
        v.layout.input_inner_width > 0,
    ensures
        cursor_at(v.input.buffer, v.layout.input_inner_width as nat, v.input.cursor).0 == 0
            ==> v.typed(InputEdit::LineUp).app.input == v.input.showing_older(),
        cursor_at(v.input.buffer, v.layout.input_inner_width as nat, v.input.cursor).0 + 1
            >= wrapped_lines(
            v.input.buffer,
            v.layout.input_inner_width as nat,
            v.input.cursor,
        ).len() ==> v.typed(InputEdit::LineDown).app.input == v.input.showing_newer(),
{
    reveal(InputView::after_edit);
}

/// What is typed while a message is edited in place goes into that text and not
/// into the input; a segment of the chat shows it at once, and a message of the
/// queue stays as it is until the edit is confirmed.
pub proof fn law_edited_text_is_typed(v: AppView, op: InputEdit, i: usize, text: Seq<char>)
    requires
        v.edit.message_index == Some(i),
        i < v.chat.segments.len(),
        v.chat.segments[i as int] == SegmentView::Message(
            MessageView { role: Role::User, content: ContentView::Text(text) },
        ),
    ensures
        ({
            let e = edited(v.edit.buffer, v.edit.cursor, v.layout.input_inner_width as nat, op);
            let r = v.edit_typed(op);
            &&& r.app.edit.buffer == e.0
            &&& r.app.edit.cursor == e.1
            &&& r.app.edit.original_text == v.edit.original_text
            &&& r.app.input == v.input
            &&& r.app.queue == v.queue
            &&& r.app.chat.segments == v.chat.segments.update(
                i as int,
                SegmentView::Message(
                    MessageView { role: Role::User, content: ContentView::Text(e.0) },
                ),
            )
            &&& r.effects == seq![EffectView::Rebuild, EffectView::Rerender]
        }),
        ({
            let q = AppView {
                edit: EditView { message_index: None, queue_index: Some(i), ..v.edit },
                ..v
            };
            let r = q.edit_typed(op);
            &&& r.app.queue == v.queue
            &&& r.app.chat == v.chat
            &&& r.app.input == v.input
            &&& r.effects.len() == 0
        }),
{
    assert(v.edit_typed(op).effects =~= seq![EffectView::Rebuild, EffectView::Rerender]);
}

/// The escape key empties the input where no edit is going on: no text, nothing
/// attached, nothing offered. The history stays.
pub proof fn law_escape_empties_the_input(v: AppView)
    requires
        v.edit.message_index is None,
        v.edit.queue_index is None,
    ensures
        ({
            let w = v.escaped().app;
            &&& w.input.buffer.len() == 0
            &&& w.input.cursor == 0
            &&& w.input.attachments.len() == 0
            &&& w.input.history_idx is None
            &&& w.input.history == v.input.history
            &&& w.ui.completion is None
            &&& w.chat == v.chat
            &&& w.queue == v.queue
            &&& v.escaped().effects.len() == 0
        }),
{
}

// ── Sending ──────────────────────────────────────────────────────────────────

/// What is trimmed off is white space, and nothing else: both ends of what is
/// left are solid.
pub proof fn law_only_white_space_is_trimmed(s: Seq<char>)
    ensures
        exists|a: int, b: int|
            #![trigger s.subrange(a, b)]
            {
                &&& 0 <= a <= b <= s.len()
                &&& trim(s) == s.subrange(a, b)
                &&& forall|i: int| 0 <= i < a || b <= i < s.len() ==> is_space(#[trigger] s[i])
                &&& a < b ==> !is_space(s[a]) && !is_space(s[b - 1])
            },
{
    lemma_trim_start_is_suffix(s);
    let t = trim_start(s);
    lemma_trim_end_is_prefix(t);
    let a0 = s.len() - t.len();
    let b0 = a0 + trim(s).len();
    lemma_skipped_is_space(s);
    assert(trim(s) =~= s.subrange(a0, b0));
    assert forall|i: int| 0 <= i < a0 || b0 <= i < s.len() implies is_space(#[trigger] s[i]) by {
        if i >= b0 {
            assert(t[i - a0] == s[i]);
        }
    }
    if trim(s).len() > 0 {
        assert(trim(s).last() == s[b0 - 1]);
        assert(t[0] == s[a0]);
        assert(!is_space(t[0]));
    }
}

proof fn lemma_skipped_is_space(s: Seq<char>)
    ensures
        forall|i: int| 0 <= i < s.len() - trim_start(s).len() ==> is_space(#[trigger] s[i]),
    decreases s.len(),
{
    if s.len() > 0 && is_space(s[0]) {
        lemma_skipped_is_space(s.skip(1));
        assert forall|i: int| 0 <= i < s.len() - trim_start(s).len() implies is_space(
            #[trigger] s[i],
        ) by {
            if i > 0 {
                assert(s.skip(1)[i - 1] == s[i]);
            }
        }
    }
}

/// An input that is sent leaves the box empty, is the newest of the history, and
/// is handed on trimmed. White space alone is not sent.
pub proof fn law_input_is_sent(v: AppView)
    requires
        v.input.attachments.len() == 0,
    ensures
        ({
            let r = v.submitted();
            &&& r.app.input.buffer.len() == 0
            &&& r.app.input.cursor == 0
            &&& r.app.input.attachments.len() == 0
            &&& r.app.ui.completion is None
            &&& r.app.chat == v.chat
            &&& r.app.queue == v.queue
            &&& trim(v.input.buffer).len() > 0 ==> {
                &&& r.effects == seq![EffectView::SubmitText(trim(v.input.buffer))]
                &&& r.app.input.history.last() == trim(v.input.buffer)
            }
            &&& trim(v.input.buffer).len() == 0 ==> {
                &&& r.effects.len() == 0
                &&& r.app.input.history == v.input.history
            }
        }),
{
    reveal(InputView::taken_out);
    let t = trim(v.input.buffer);
    if t.len() > 0 {
        lemma_trim_twice(v.input.buffer);
        assert(v.submitted().effects =~= seq![EffectView::SubmitText(t)]);
    }
}

proof fn lemma_trim_twice(s: Seq<char>)
    ensures
        trim(trim(s)) == trim(s),
{
    crate::text::lemma_trim_is_trimmed(s);
    crate::text::lemma_trim_fixpoint(trim(s));
}

/// What is attached stands in front of the text that is sent, one line for each
/// attachment, by its path; and it is attached no longer.
pub proof fn law_attachments_go_with_the_text(v: AppView, path: Seq<char>, image: bool)
    requires
        v.input.attachments == seq![
            if image {
                AttachmentView::Image(path)
            } else {
                AttachmentView::File(path)
            },
        ],
    ensures
        ({
            let r = v.submitted();
            let line = (if image {
                seq!['[', 'I', 'm', 'a', 'g', 'e', ':', ' ']
            } else {
                seq!['[', 'F', 'i', 'l', 'e', ':', ' ']
            }) + path + seq![']'];
            let text = trim(v.input.buffer);
            &&& text.len() > 0 ==> r.effects == seq![
                EffectView::SubmitText(line + seq!['\n'] + text),
            ]
            &&& text.len() == 0 ==> r.effects == seq![EffectView::SubmitText(line)]
            &&& r.app.input.attachments.len() == 0
            &&& r.app.input.buffer.len() == 0
        }),
{
    reveal(InputView::taken_out);
    reveal_strlit("[Image: ");
    reveal_strlit("[File: ");
    reveal_strlit("]");
    reveal_strlit("\n");
    assert("[Image: "@ =~= seq!['[', 'I', 'm', 'a', 'g', 'e', ':', ' ']);
    assert("[File: "@ =~= seq!['[', 'F', 'i', 'l', 'e', ':', ' ']);
    assert("]"@ =~= seq![']']);
    assert("\n"@ =~= seq!['\n']);
    let a = v.input.attachments;
    let line = (if image {
        seq!['[', 'I', 'm', 'a', 'g', 'e', ':', ' ']
    } else {
        seq!['[', 'F', 'i', 'l', 'e', ':', ' ']
    }) + path + seq![']'];
    assert(attachment_texts(a)[0] == line);
    assert(join(attachment_texts(a), "\n"@) == line);
    let text = trim(v.input.buffer);
    if text.len() > 0 {
        assert(v.submitted().effects =~= seq![EffectView::SubmitText(line + seq!['\n'] + text)]);
    } else {
        assert(v.submitted().effects =~= seq![EffectView::SubmitText(line)]);
    }
}

/// Of several attachments each has a line of its own, in order.
pub proof fn law_every_attachment_has_a_line(
    attachments: Seq<AttachmentView>,
    last: AttachmentView,
)
    requires
        attachments.len() > 0,
    ensures
        full_text(attachments.push(last), seq![]) == full_text(attachments, seq![]) + seq!['\n']
            + full_text(seq![last], seq![]),
{
    reveal_strlit("\n");
    assert("\n"@ =~= seq!['\n']);
    let all = attachment_texts(attachments.push(last));
    assert(all.drop_last() =~= attachment_texts(attachments));
    assert(attachment_texts(seq![last]) =~= seq![last.message_text()]);
    assert(join(seq![last.message_text()], "\n"@) == last.message_text());
}

// ── Completions ──────────────────────────────────────────────────────────────

/// The next completion and the one before are selected in turn, around the ends.
pub proof fn law_completions_are_selected_in_turn(v: AppView, o: OverlayView)
    requires
        v.ui.completion == Some(o),
        o.selected < o.items.len() <= usize::MAX,
    ensures
        ({
            let next = v.completion_next().app.ui.completion;
            &&& next is Some
            &&& next->0.items == o.items
            &&& o.selected + 1 < o.items.len() ==> next->0.selected == o.selected + 1
            &&& o.selected + 1 == o.items.len() ==> next->0.selected == 0
            &&& v.completion_next().effects.len() == 0
        }),
        ({
            let prev = v.completion_prev().ui.completion;
            &&& prev is Some
            &&& prev->0.items == o.items
            &&& o.selected > 0 ==> prev->0.selected == o.selected - 1
            &&& o.selected == 0 ==> prev->0.selected == o.items.len() - 1
        }),
        v.completion_next().app.input == v.input,
        v.completion_prev().input == v.input,
{
}

proof fn lemma_no_slashes(s: Seq<char>)
    ensures
        without_slashes(s).len() > 0 ==> without_slashes(s)[0] != '/',
        without_slashes(s).len() <= s.len(),
        without_slashes(s) == s.skip(s.len() - without_slashes(s).len()),
    decreases s.len(),
{
    if s.len() > 0 && s[0] == '/' {
        lemma_no_slashes(s.skip(1));
        assert(without_slashes(s) =~= s.skip(s.len() - without_slashes(s).len()));
    } else {
        assert(s.skip(0) =~= s);
    }
}

/// A completion of a command's name takes the place of what was typed of it,
/// behind one slash and before a space.
pub proof fn law_completed_name_takes_its_place(source: Seq<char>, value: Seq<char>)
    requires
        crate::commands::parser::parse_view(source) is PartialCommand,
        value.len() > 0,
        value[0] != '/',
    ensures
        completed_command(source, value) == Some(seq!['/'] + value + seq![' ']),
        completed_command(source, seq!['/'] + value) == Some(seq!['/'] + value + seq![' ']),
{
    reveal_strlit("/");
    reveal_strlit(" ");
    assert("/"@ =~= seq!['/']);
    assert(" "@ =~= seq![' ']);
    let w = seq!['/'] + value;
    assert(w.skip(1) =~= value);
    assert(without_slashes(w) == without_slashes(value));
    assert(without_slashes(value) == value);
}

/// A completion of a first argument stands behind the command, and a space
/// behind it.
pub proof fn law_completed_argument_takes_its_place(
    source: Seq<char>,
    command: Seq<char>,
    partial: Seq<char>,
    value: Seq<char>,
)
    requires
        crate::commands::parser::parse_view(source)
            == (crate::commands::parser::ParsedView::CompletingArgs {
            command,
            arg_index: 0,
            partial,
        }),
    ensures
        completed_command(source, value) == Some(
            seq!['/'] + command + seq![' '] + value + seq![' '],
        ),
{
    reveal_strlit("/");
    reveal_strlit(" ");
    assert("/"@ =~= seq!['/']);
    assert(" "@ =~= seq![' ']);
}

/// The members of the team that are offered behind an `@` are exactly those,
/// but for the user, whose names begin with what was typed, without regard to
/// case, in order.
pub proof fn law_members_are_offered_by_name(team: Seq<TeamEntryView>, partial: Seq<char>)
    ensures
        mention_items(team, partial).len() == team.filter(
            |e: TeamEntryView|
                !e.is_local && (partial.len() == 0 || lowercase(partial).is_prefix_of(
                    lowercase(e.name),
                )),
        ).len(),
        forall|i: int|
            0 <= i < mention_items(team, partial).len() ==> {
                let e = team.filter(
                    |e: TeamEntryView|
                        !e.is_local && (partial.len() == 0 || lowercase(partial).is_prefix_of(
                            lowercase(e.name),
                        )),
                )[i];
                let item = #[trigger] mention_items(team, partial)[i];
                &&& item.value == e.name
                &&& e.current_task matches Some(t) ==> item.description == Some(t)
                &&& item.display.len() > e.name.len()
                &&& item.display.subrange(1, e.name.len() as int + 1) == e.name
                &&& item.display[0] == '@'
            },
    decreases team.len(),
{
    reveal(Seq::filter);
    let meant = |e: TeamEntryView|
        !e.is_local && (partial.len() == 0 || lowercase(partial).is_prefix_of(lowercase(e.name)));
    if team.len() > 0 {
        let init = team.drop_last();
        law_members_are_offered_by_name(init, partial);
        let e = team.last();
        let p = lowercase(partial);
        let n = lowercase(e.name);
        assert(has_prefix(n, p) == p.is_prefix_of(n)) by {
            if p.len() <= n.len() {
                assert(n.take(p.len() as int) =~= n.subrange(0, p.len() as int));
            }
        }
        assert(is_meant(e, partial) == meant(e));
        if meant(e) {
            reveal_strlit("@");
            let item = member_item(e);
            assert(item.display.subrange(1, e.name.len() as int + 1) =~= e.name);
        }
    }
}

} // verus!
