//! Steps in the input: typing, the history, completions, sending.

use vstd::prelude::*;

use crate::app::chat_state::minus;
use crate::app::editing::{
    apply_edit, at_mention_prefix, command_line_at_cursor, cursor_down, cursor_up, edited,
    lemma_offset, lemma_offset_at_boundary, lemma_position, line_start, mention, offset, on_boundary,
    position, row_down, row_up, InputEdit,
};
use crate::app::front::{
    add_effect, add_when, effect_views, given, no_effects, nothing, one, App, AppView, Effect,
    EffectView, StepView,
};
use crate::app::input_state::{
    attachment_views, AttachmentView, EditView, InputAttachment, InputState,
    InputView,
};
use crate::app::ui_state::{
    offered, team_views, OverlayView, TeamEntryView, TeamPickerEntry, UiView,
};
use crate::commands::completion::{
    completions_for, item_views, lists, opt_string_view, CompletionItem, CompletionItemView,
    CompletionManager,
};
use crate::commands::parser::{parse, parse_view, ParsedCommand, ParsedView};
use crate::commands::registry::Command;
use crate::commands::CommandContext;
use crate::input_wrap::{
    adjust_scroll, byte_offset_at_row_col, cursor_at, offset_at, scrolled, wrap_content, wrapped_lines,
};
use crate::text::{
    byte_len, byte_length, chars_of, has_prefix, join, join_strings, lowercase, starts_with,
    string_of, to_lowercase, trim, trim_end, trim_end_str, trim_str, views,
};

verus! {

// ── Typing ───────────────────────────────────────────────────────────────────

impl InputView {
    /// The line of the cursor, up to the cursor.
    pub open spec fn command_line(self) -> Seq<char> {
        let k = position(self.buffer, self.cursor);
        self.buffer.subrange(line_start(self.buffer, k), k)
    }

    /// The text before the cursor.
    pub open spec fn before_cursor(self) -> Seq<char> {
        self.buffer.take(position(self.buffer, self.cursor))
    }

    /// Completions are to be offered: for a command, or for a name behind an
    /// `@`.
    #[verifier::opaque]
    pub open spec fn wants_completion(self) -> bool {
        ||| has_prefix(self.command_line(), "/"@)
        ||| has_prefix(self.buffer, "/"@)
        ||| mention(self.before_cursor()) is Some
    }

    /// With a text in place of the one that was there, and the cursor at its end.
    pub open spec fn with_text(self, text: Seq<char>) -> InputView {
        InputView { buffer: text, cursor: byte_len(text), scroll_offset: 0, ..self }
    }

    /// An older message shown, if there is one.
    pub open spec fn showing_older(self) -> InputView {
        match self.older() {
            (next, Some(text)) => next.with_text(text),
            (next, None) => next,
        }
    }

    /// A newer message shown, if there is one.
    pub open spec fn showing_newer(self) -> InputView {
        match self.newer() {
            (next, Some(text)) => next.with_text(text),
            (next, None) => next,
        }
    }

    /// After a step of editing. At the first and the last row the cursor keys
    /// lead through the history.
    #[verifier::opaque]
    pub open spec fn after_edit(self, op: InputEdit, width: nat) -> InputView {
        let e = edited(self.buffer, self.cursor, width, op);
        if op is LineUp && width > 0 && row_up(self.buffer, self.cursor, width) is None {
            self.showing_older()
        } else if op is LineDown && width > 0 && row_down(self.buffer, self.cursor, width) is None {
            self.showing_newer()
        } else {
            InputView { buffer: e.0, cursor: e.1, ..self }
        }
    }
}

impl AppView {
    /// The columns of the input.
    pub open spec fn input_width(self) -> nat {
        self.layout.input_inner_width as nat
    }

    /// With nothing offered.
    pub open spec fn unoffered(self) -> AppView {
        AppView { ui: UiView { completion: None, ..self.ui }, ..self }
    }

    /// After a step in the input.
    pub open spec fn typed(self, op: InputEdit) -> StepView {
        let input = self.input.after_edit(op, self.input_width());
        let next = AppView { input, ..self };
        if op is Insert || op is Backspace {
            if input.wants_completion() {
                StepView { app: next, effects: nothing() + one(EffectView::RefreshCompletions) }
            } else {
                StepView { app: next.unoffered(), effects: nothing() }
            }
        } else if op is Newline {
            StepView { app: next.unoffered(), effects: nothing() }
        } else {
            StepView { app: next, effects: nothing() }
        }
    }

    /// After a step in the text that is edited in place. A segment shows it at
    /// once.
    pub open spec fn edit_typed(self, op: InputEdit) -> StepView {
        let e = edited(self.edit.buffer, self.edit.cursor, self.input_width(), op);
        let next = AppView { edit: EditView { buffer: e.0, cursor: e.1, ..self.edit }, ..self };
        if self.edit.message_index is Some {
            StepView {
                app: next.edit_shown(),
                effects: nothing() + one(EffectView::Rebuild) + one(EffectView::Rerender),
            }
        } else {
            StepView { app: next, effects: nothing() }
        }
    }

    /// The input emptied.
    pub open spec fn input_cleared(self) -> AppView {
        AppView {
            input: InputView {
                buffer: seq![],
                cursor: 0,
                scroll_offset: 0,
                attachments: seq![],
                history_idx: None,
                history_draft: None,
                ..self.input
            },
            ..self
        }.unoffered()
    }

    /// The escape key in the input: it gives an edit up, or empties the input.
    pub open spec fn escaped(self) -> StepView {
        if self.edit.is_active() {
            self.edit_cancelled()
        } else {
            StepView { app: self.input_cleared(), effects: nothing() }
        }
    }
}

impl App {
    /// Whether completions are to be offered.
    pub fn should_show_completion(&self) -> (r: bool)
        requires
            on_boundary(self@.input.buffer, self@.input.cursor),
        ensures
            r == self@.input.wants_completion(),
    {
        reveal(InputView::wants_completion);
        let (_, line) = command_line_at_cursor(self.input.buffer.as_str(), self.input.cursor);
        if starts_with(line.as_str(), "/") || starts_with(self.input.buffer.as_str(), "/") {
            return true;
        }
        at_mention_prefix(self.input.buffer.as_str(), self.input.cursor).is_some()
    }

    fn set_input(&mut self, text: String)
        ensures
            final(self)@ == (AppView {
                input: old(self)@.input.with_text(text@),
                ..old(self)@
            }),
    {
        self.input.cursor = byte_length(text.as_str());
        self.input.buffer = text;
        self.input.scroll_offset = 0;
    }

    /// Shows an older message.
    pub fn show_older(&mut self)
        requires
            old(self)@.input.shown_exists(),
        ensures
            final(self)@ == (AppView { input: old(self)@.input.showing_older(), ..old(self)@ }),
    {
        if let Some(text) = self.input.history_up() {
            self.set_input(text);
        }
    }

    /// Shows a newer message.
    pub fn show_newer(&mut self)
        ensures
            final(self)@ == (AppView { input: old(self)@.input.showing_newer(), ..old(self)@ }),
    {
        if let Some(text) = self.input.history_down() {
            self.set_input(text);
        }
    }

    fn edit_input(&mut self, op: InputEdit)
        requires
            on_boundary(old(self)@.input.buffer, old(self)@.input.cursor),
            old(self)@.input.shown_exists(),
        ensures
            final(self)@ == (AppView {
                input: old(self)@.input.after_edit(op, old(self)@.input_width()),
                ..old(self)@
            }),
            !(op is LineUp) && !(op is LineDown) ==> on_boundary(
                final(self)@.input.buffer,
                final(self)@.input.cursor,
            ),
    {
        reveal(InputView::after_edit);
        let w: usize = self.layout.input_inner_width as usize;
        if w > 0 {
            if let InputEdit::LineUp = op {
                if cursor_up(self.input.buffer.as_str(), self.input.cursor, w).is_none() {
                    self.show_older();
                    return ;
                }
            }
            if let InputEdit::LineDown = op {
                if cursor_down(self.input.buffer.as_str(), self.input.cursor, w).is_none() {
                    self.show_newer();
                    return ;
                }
            }
        }
        let (text, cursor) = apply_edit(self.input.buffer.as_str(), self.input.cursor, w, op);
        self.input.buffer = text;
        self.input.cursor = cursor;
    }

    /// Takes a step in the input.
    pub fn type_input(&mut self, op: InputEdit) -> (r: Vec<Effect>)
        requires
            on_boundary(old(self)@.input.buffer, old(self)@.input.cursor),
            old(self)@.input.shown_exists(),
        ensures
            final(self)@ == old(self)@.typed(op).app,
            effect_views(r@) == old(self)@.typed(op).effects,
    {
        self.edit_input(op);
        let mut out = no_effects();
        match op {
            InputEdit::Insert(_) | InputEdit::Backspace => {
                if self.should_show_completion() {
                    add_effect(&mut out, Effect::RefreshCompletions);
                } else {
                    self.ui.completion = None;
                }
            },
            InputEdit::Newline => {
                self.ui.completion = None;
            },
            _ => {},
        }
        out
    }

    /// The text and the cursor that a step makes of what is edited in place.
    pub fn apply_input_to_edit(&self, op: InputEdit) -> (r: (String, usize))
        requires
            on_boundary(self@.edit.buffer, self@.edit.cursor),
        ensures
            (r.0@, r.1 as nat) == edited(
                self@.edit.buffer,
                self@.edit.cursor,
                self@.input_width(),
                op,
            ),
            on_boundary(r.0@, r.1 as nat),
    {
        apply_edit(
            self.edit.buffer.as_str(),
            self.edit.cursor,
            self.layout.input_inner_width as usize,
            op,
        )
    }

    /// Takes a step in the text that is edited in place.
    pub fn type_edit(&mut self, op: InputEdit) -> (r: Vec<Effect>)
        requires
            on_boundary(old(self)@.edit.buffer, old(self)@.edit.cursor),
        ensures
            final(self)@ == old(self)@.edit_typed(op).app,
            effect_views(r@) == old(self)@.edit_typed(op).effects,
    {
        let (text, cursor) = self.apply_input_to_edit(op);
        self.edit.buffer = text;
        self.edit.cursor = cursor;
        let mut out = no_effects();
        if self.edit.message_index.is_some() {
            self.update_editing_segment_live();
            add_effect(&mut out, Effect::Rebuild);
            add_effect(&mut out, Effect::Rerender);
        }
        out
    }

    fn clear_input(&mut self)
        ensures
            final(self)@ == old(self)@.input_cleared(),
    {
        self.input.buffer = String::new();
        self.input.cursor = 0;
        self.input.scroll_offset = 0;
        self.input.attachments = Vec::new();
        self.input.history_idx = None;
        self.input.history_draft = None;
        self.ui.completion = None;
        assert(self.input.buffer@ =~= seq![]);
        assert(attachment_views(self.input.attachments@) =~= seq![]);
    }

    /// Takes in the escape key in the input.
    pub fn escape(&mut self) -> (r: Vec<Effect>)
        ensures
            final(self)@ == old(self)@.escaped().app,
            effect_views(r@) == old(self)@.escaped().effects,
    {
        if self.edit.active() {
            self.cancel_edit()
        } else {
            self.clear_input();
            no_effects()
        }
    }
}

// ── Scrolling the input ──────────────────────────────────────────────────────

/// A scroll offset one page further up.
pub open spec fn page_up(offset: nat, height: nat) -> nat {
    minus(offset as int, height as int) as nat
}

/// A scroll offset one page further down, not past the last page.
pub open spec fn page_down(text: Seq<char>, offset: nat, width: nat, height: nat) -> nat {
    let max = minus(wrapped_lines(text, width, 0).len() as int, height as int);
    if width == 0 || height == 0 {
        offset
    } else if offset + height < max {
        offset + height
    } else {
        max as nat
    }
}

/// The cursor one row up in a box, or in the first row.
pub open spec fn wheel_up(text: Seq<char>, cursor: nat, width: nat) -> nat {
    let at = cursor_at(text, width, cursor);
    if width == 0 {
        cursor
    } else {
        offset_at(text, width, minus(at.0 as int, 1) as nat, at.1)
    }
}

/// The cursor one row down in a box, or in the last row.
pub open spec fn wheel_down(text: Seq<char>, cursor: nat, width: nat) -> nat {
    let at = cursor_at(text, width, cursor);
    let last = minus(wrapped_lines(text, width, cursor).len() as int, 1) as nat;
    if width == 0 {
        cursor
    } else {
        offset_at(
            text,
            width,
            if at.0 + 1 < last {
                at.0 + 1
            } else {
                last
            },
            at.1,
        )
    }
}

/// The scroll offset of a box in which the cursor can be seen. A text that does
/// not fit leaves a column to the scrollbar.
pub open spec fn box_scroll(text: Seq<char>, cursor: nat, offset: nat, width: nat, height: nat) -> nat {
    if width == 0 || height == 0 {
        offset
    } else {
        let w = if wrapped_lines(text, width, cursor).len() > height && width > 1 {
            (width - 1) as nat
        } else {
            width
        };
        scrolled(cursor_at(text, w, cursor).0, height, offset)
    }
}

fn next_page(text: &str, offset: usize, width: usize, height: usize) -> (r: usize)
    ensures
        r == page_down(text@, offset as nat, width as nat, height as nat),
{
    if width == 0 || height == 0 {
        return offset;
    }
    let ws = wrap_content(text, width, 0);
    assert(views(ws.lines@).len() == ws.lines@.len());
    let max: usize = ws.lines.len().saturating_sub(height);
    if offset < max && height < max - offset {
        offset + height
    } else {
        max
    }
}

fn row_above(text: &str, cursor: usize, width: usize) -> (r: usize)
    ensures
        r == wheel_up(text@, cursor as nat, width as nat),
{
    if width == 0 {
        return cursor;
    }
    let ws = wrap_content(text, width, cursor);
    byte_offset_at_row_col(text, width, ws.cursor_row.saturating_sub(1), ws.cursor_col)
}

fn row_below(text: &str, cursor: usize, width: usize) -> (r: usize)
    ensures
        r == wheel_down(text@, cursor as nat, width as nat),
{
    if width == 0 {
        return cursor;
    }
    let ws = wrap_content(text, width, cursor);
    assert(views(ws.lines@).len() == ws.lines@.len());
    let last: usize = ws.lines.len().saturating_sub(1);
    let row: usize = if ws.cursor_row < last {
        ws.cursor_row + 1
    } else {
        last
    };
    byte_offset_at_row_col(text, width, row, ws.cursor_col)
}

fn fit_box(text: &str, cursor: usize, offset: usize, width: usize, height: usize) -> (r: usize)
    ensures
        r == box_scroll(text@, cursor as nat, offset as nat, width as nat, height as nat),
{
    if width == 0 || height == 0 {
        return offset;
    }
    let ws = wrap_content(text, width, cursor);
    assert(views(ws.lines@).len() == ws.lines@.len());
    let mut to: usize = offset;
    if ws.lines.len() > height && width > 1 {
        let narrow = wrap_content(text, width - 1, cursor);
        adjust_scroll(narrow.cursor_row, height, &mut to);
    } else {
        adjust_scroll(ws.cursor_row, height, &mut to);
    }
    to
}

impl AppView {
    /// The box that is shown one page up.
    pub open spec fn paged_up(self) -> AppView {
        let h = self.layout.input_inner_height as nat;
        if self.edit.is_active() {
            AppView {
                edit: EditView { scroll_offset: page_up(self.edit.scroll_offset, h), ..self.edit },
                ..self
            }
        } else {
            AppView {
                input: InputView {
                    scroll_offset: page_up(self.input.scroll_offset, h),
                    ..self.input
                },
                ..self
            }
        }
    }

    /// The box that is shown one page down.
    pub open spec fn paged_down(self) -> AppView {
        let w = self.input_width();
        let h = self.layout.input_inner_height as nat;
        if self.edit.is_active() {
            AppView {
                edit: EditView {
                    scroll_offset: page_down(self.edit.buffer, self.edit.scroll_offset, w, h),
                    ..self.edit
                },
                ..self
            }
        } else {
            AppView {
                input: InputView {
                    scroll_offset: page_down(self.input.buffer, self.input.scroll_offset, w, h),
                    ..self.input
                },
                ..self
            }
        }
    }

    /// The wheel turned in the box that is shown.
    pub open spec fn wheeled(self, up: bool) -> AppView {
        let w = self.input_width();
        if self.edit.is_active() {
            AppView {
                edit: EditView {
                    cursor: if up {
                        wheel_up(self.edit.buffer, self.edit.cursor, w)
                    } else {
                        wheel_down(self.edit.buffer, self.edit.cursor, w)
                    },
                    ..self.edit
                },
                ..self
            }
        } else {
            AppView {
                input: InputView {
                    cursor: if up {
                        wheel_up(self.input.buffer, self.input.cursor, w)
                    } else {
                        wheel_down(self.input.buffer, self.input.cursor, w)
                    },
                    ..self.input
                },
                ..self
            }
        }
    }
}

impl App {
    /// Scrolls the box that is shown one page up.
    pub fn page_input_up(&mut self)
        ensures
            final(self)@ == old(self)@.paged_up(),
    {
        let h: usize = self.layout.input_inner_height as usize;
        if self.edit.active() {
            self.edit.scroll_offset = self.edit.scroll_offset.saturating_sub(h);
        } else {
            self.input.scroll_offset = self.input.scroll_offset.saturating_sub(h);
        }
    }

    /// Scrolls the box that is shown one page down.
    pub fn page_input_down(&mut self)
        ensures
            final(self)@ == old(self)@.paged_down(),
    {
        let w: usize = self.layout.input_inner_width as usize;
        let h: usize = self.layout.input_inner_height as usize;
        if self.edit.active() {
            self.edit.scroll_offset = next_page(
                self.edit.buffer.as_str(),
                self.edit.scroll_offset,
                w,
                h,
            );
        } else {
            self.input.scroll_offset = next_page(
                self.input.buffer.as_str(),
                self.input.scroll_offset,
                w,
                h,
            );
        }
    }

    /// Takes in a turn of the wheel in the box that is shown.
    pub fn wheel_input(&mut self, up: bool)
        ensures
            final(self)@ == old(self)@.wheeled(up),
    {
        let w: usize = self.layout.input_inner_width as usize;
        if self.edit.active() {
            self.edit.cursor = if up {
                row_above(self.edit.buffer.as_str(), self.edit.cursor, w)
            } else {
                row_below(self.edit.buffer.as_str(), self.edit.cursor, w)
            };
        } else {
            self.input.cursor = if up {
                row_above(self.input.buffer.as_str(), self.input.cursor, w)
            } else {
                row_below(self.input.buffer.as_str(), self.input.cursor, w)
            };
        }
    }

    /// Scrolls the input so that its cursor can be seen.
    pub fn adjust_input_scroll(&mut self)
        ensures
            final(self)@ == (AppView {
                input: InputView {
                    scroll_offset: box_scroll(
                        old(self)@.input.buffer,
                        old(self)@.input.cursor,
                        old(self)@.input.scroll_offset,
                        old(self)@.input_width(),
                        old(self)@.layout.input_inner_height as nat,
                    ),
                    ..old(self)@.input
                },
                ..old(self)@
            }),
    {
        self.input.scroll_offset = fit_box(
            self.input.buffer.as_str(),
            self.input.cursor,
            self.input.scroll_offset,
            self.layout.input_inner_width as usize,
            self.layout.input_inner_height as usize,
        );
    }

    /// Scrolls the text that is edited in place so that its cursor can be seen.
    pub fn adjust_edit_scroll(&mut self)
        ensures
            final(self)@ == (AppView {
                edit: EditView {
                    scroll_offset: box_scroll(
                        old(self)@.edit.buffer,
                        old(self)@.edit.cursor,
                        old(self)@.edit.scroll_offset,
                        old(self)@.input_width(),
                        old(self)@.layout.input_inner_height as nat,
                    ),
                    ..old(self)@.edit
                },
                ..old(self)@
            }),
    {
        self.edit.scroll_offset = fit_box(
            self.edit.buffer.as_str(),
            self.edit.cursor,
            self.edit.scroll_offset,
            self.layout.input_inner_width as usize,
            self.layout.input_inner_height as usize,
        );
    }
}

// ── Sending ──────────────────────────────────────────────────────────────────

/// The texts of attachments.
pub open spec fn attachment_texts(v: Seq<AttachmentView>) -> Seq<Seq<char>> {
    v.map_values(|a: AttachmentView| a.message_text())
}

/// A message with its attachments in front.
pub open spec fn full_text(attachments: Seq<AttachmentView>, text: Seq<char>) -> Seq<char> {
    let att = join(attachment_texts(attachments), "\n"@);
    if attachments.len() == 0 {
        text
    } else if text.len() == 0 {
        att
    } else {
        att + "\n"@ + text
    }
}

impl InputView {
    /// The input taken out, with its text in the history, and the message that
    /// it makes.
    #[verifier::opaque]
    pub open spec fn taken_out(self) -> (InputView, Option<Seq<char>>) {
        let text = trim(self.buffer);
        let emptied = InputView { buffer: seq![], cursor: 0, scroll_offset: 0, ..self };
        let full = full_text(self.attachments, text);
        if text.len() == 0 && self.attachments.len() == 0 {
            (emptied, None)
        } else {
            let sent = InputView { attachments: seq![], ..emptied };
            (
                if text.len() > 0 {
                    sent.remembered(text)
                } else {
                    sent
                },
                if full.len() > 0 {
                    Some(full)
                } else {
                    None
                },
            )
        }
    }
}

impl AppView {
    /// The input sent.
    pub open spec fn submitted(self) -> StepView {
        let taken = self.input.taken_out();
        StepView {
            app: AppView { input: taken.0, ..self }.unoffered(),
            effects: match taken.1 {
                Some(text) => nothing() + one(EffectView::SubmitText(text)),
                None => nothing(),
            },
        }
    }
}

fn attachments_text(attachments: &Vec<InputAttachment>) -> (r: String)
    ensures
        r@ == join(attachment_texts(attachment_views(attachments@)), "\n"@),
{
    let mut parts: Vec<String> = Vec::new();
    let mut i: usize = 0;
    while i < attachments.len()
        invariant
            i <= attachments@.len(),
            parts@.len() == i,
            forall|k: int|
                0 <= k < i ==> (#[trigger] parts@[k])@ == attachments@[k]@.message_text(),
        decreases attachments.len() - i,
    {
        parts.push(attachments[i].to_message_text());
        i += 1;
    }
    assert(views(parts@) =~= attachment_texts(attachment_views(attachments@)));
    join_strings(&parts, "\n")
}

impl InputState {
    /// Takes the message out.
    pub fn take_out(&mut self) -> (r: Option<String>)
        ensures
            final(self)@ == old(self)@.taken_out().0,
            opt_string_view(r) == old(self)@.taken_out().1,
    {
        reveal(InputView::taken_out);
        let text = trim_str(self.buffer.as_str()).to_owned();
        self.buffer = String::new();
        assert(self.buffer@ =~= seq![]);
        self.cursor = 0;
        self.scroll_offset = 0;
        assert(self@.attachments.len() == self.attachments@.len());
        if text.as_str().is_empty() && self.attachments.len() == 0 {
            return None;
        }
        let mut full = String::new();
        assert(full@ =~= seq![]);
        if self.attachments.len() > 0 {
            let att = attachments_text(&self.attachments);
            full.append(att.as_str());
            if !text.as_str().is_empty() {
                full.append("\n");
                full.append(text.as_str());
            }
        } else {
            full.append(text.as_str());
        }
        assert(full@ =~= full_text(old(self)@.attachments, text@));
        self.attachments = Vec::new();
        assert(attachment_views(self.attachments@) =~= seq![]);
        if !text.as_str().is_empty() {
            self.push_history(text.as_str());
        }
        if full.as_str().is_empty() {
            None
        } else {
            Some(full)
        }
    }
}

impl App {
    /// Sends the input.
    pub fn submit(&mut self) -> (r: Vec<Effect>)
        ensures
            final(self)@ == old(self)@.submitted().app,
            effect_views(r@) == old(self)@.submitted().effects,
    {
        self.ui.completion = None;
        let mut out = no_effects();
        if let Some(text) = self.input.take_out() {
            add_effect(&mut out, Effect::SubmitText(text));
        }
        out
    }
}

// ── Completions ──────────────────────────────────────────────────────────────

/// A text without the slashes at its start.
pub open spec fn without_slashes(s: Seq<char>) -> Seq<char>
    decreases s.len(),
{
    if s.len() > 0 && s[0] == '/' {
        without_slashes(s.skip(1))
    } else {
        s
    }
}

/// The end of a text's last space, counted from `k` down; the whole text where
/// it has none.
pub open spec fn up_to_last_space(s: Seq<char>, k: int) -> Seq<char>
    decreases k,
{
    if k <= 0 || k > s.len() {
        s
    } else if s[k - 1] == ' ' {
        s.take(k)
    } else {
        up_to_last_space(s, k - 1)
    }
}

/// A command with a completion put in.
pub open spec fn completed_command(source: Seq<char>, value: Seq<char>) -> Option<Seq<char>> {
    match parse_view(source) {
        ParsedView::PartialCommand { .. } => Some("/"@ + without_slashes(value) + " "@),
        ParsedView::CompletingArgs { command, arg_index, .. } => {
            let body = trim_end(source);
            Some(
                (if arg_index == 0 {
                    "/"@ + command + " "@
                } else {
                    up_to_last_space(body, body.len() as int)
                }) + value + " "@,
            )
        },
        _ => None,
    }
}

impl InputView {
    /// A command on a line of its own below the first is being typed.
    pub open spec fn is_multiline_command(self) -> bool {
        has_prefix(self.command_line(), "/"@) && line_start(
            self.buffer,
            position(self.buffer, self.cursor),
        ) > 0
    }

    /// The command that a completion belongs to.
    pub open spec fn completion_source(self) -> Seq<char> {
        if self.is_multiline_command() {
            self.command_line()
        } else {
            self.buffer
        }
    }

    /// With a completion put in, if there is a command to complete.
    #[verifier::opaque]
    pub open spec fn completed(self, value: Seq<char>) -> Option<InputView> {
        let k = position(self.buffer, self.cursor);
        let start = line_start(self.buffer, k);
        match completed_command(self.completion_source(), value) {
            Some(cmd) => Some(
                if self.is_multiline_command() {
                    InputView {
                        buffer: self.buffer.take(start) + cmd + self.buffer.skip(k),
                        cursor: byte_len(self.buffer.take(start) + cmd),
                        ..self
                    }
                } else {
                    InputView { buffer: cmd, cursor: byte_len(cmd), ..self }
                },
            ),
            None => None,
        }
    }
}

impl AppView {
    /// A completion put in. A command that is complete then is sent at once.
    #[verifier::opaque]
    pub open spec fn completion_put(self, value: Seq<char>) -> StepView {
        let put = self.input.completed(value);
        let next = match put {
            Some(input) => AppView { input, ..self },
            None => self,
        };
        if has_prefix(trim(next.input.buffer), "/"@) {
            next.submitted()
        } else {
            StepView {
                app: next,
                effects: nothing() + given(put is Some, EffectView::RefreshCompletions),
            }
        }
    }

    /// The selected completion put in.
    pub open spec fn completion_taken(self) -> StepView {
        match self.ui.completion {
            Some(o) => if o.selected < o.items.len() {
                self.unoffered().completion_put(o.items[o.selected as int].value)
            } else {
                StepView { app: self.unoffered(), effects: nothing() }
            },
            None => StepView { app: self, effects: nothing() },
        }
    }

    /// The next completion selected, or completions offered.
    pub open spec fn completion_next(self) -> StepView {
        match self.ui.completion {
            Some(o) => StepView {
                app: AppView {
                    ui: UiView {
                        completion: Some(
                            OverlayView {
                                selected: if o.selected + 1 < o.items.len() {
                                    (o.selected + 1) as usize
                                } else {
                                    0
                                },
                                ..o
                            },
                        ),
                        ..self.ui
                    },
                    ..self
                },
                effects: nothing(),
            },
            None => StepView {
                app: self,
                effects: nothing() + given(
                    self.input.wants_completion(),
                    EffectView::RefreshCompletions,
                ),
            },
        }
    }

    /// The completion before selected.
    pub open spec fn completion_prev(self) -> AppView {
        match self.ui.completion {
            Some(o) => AppView {
                ui: UiView {
                    completion: Some(
                        OverlayView {
                            selected: if o.selected > 0 {
                                (o.selected - 1) as usize
                            } else {
                                minus(o.items.len() as int, 1) as usize
                            },
                            ..o
                        },
                    ),
                    ..self.ui
                },
                ..self
            },
            None => self,
        }
    }
}

fn strip_slashes(s: &str) -> (r: String)
    ensures
        r@ == without_slashes(s@),
{
    let chars = chars_of(s);
    let n: usize = chars.len();
    let mut i: usize = 0;
    assert(s@.skip(0) =~= s@);
    while i < n && chars[i] == '/'
        invariant
            n == chars@.len(),
            chars@ == s@,
            i <= n,
            without_slashes(s@) == without_slashes(s@.skip(i as int)),
        decreases n - i,
    {
        assert(s@.skip(i as int)[0] == chars@[i as int]);
        assert(s@.skip(i as int).skip(1) =~= s@.skip(i + 1));
        i += 1;
    }
    let out = string_of(&chars, i, n);
    proof {
        assert(out@ =~= s@.skip(i as int));
        if i < n {
            assert(s@.skip(i as int)[0] == chars@[i as int]);
        }
    }
    out
}

fn cut_behind_last_space(s: &str) -> (r: String)
    ensures
        r@ == up_to_last_space(s@, s@.len() as int),
{
    let chars = chars_of(s);
    let n: usize = chars.len();
    let mut k: usize = n;
    while k > 0
        invariant
            n == chars@.len(),
            chars@ == s@,
            k <= n,
            up_to_last_space(s@, n as int) == up_to_last_space(s@, k as int),
        decreases k,
    {
        if chars[k - 1] == ' ' {
            let out = string_of(&chars, 0, k);
            assert(out@ =~= s@.take(k as int));
            return out;
        }
        k -= 1;
    }
    s.to_owned()
}

fn complete_command(source: &str, value: &str) -> (r: Option<String>)
    ensures
        opt_string_view(r) == completed_command(source@, value@),
{
    match parse(source) {
        ParsedCommand::PartialCommand { .. } => {
            let mut out = "/".to_owned();
            let name = strip_slashes(value);
            out.append(name.as_str());
            out.append(" ");
            Some(out)
        },
        ParsedCommand::CompletingArgs { command, arg_index, .. } => {
            let mut out = if arg_index == 0 {
                let mut p = "/".to_owned();
                p.append(command.as_str());
                p.append(" ");
                p
            } else {
                cut_behind_last_space(trim_end_str(source))
            };
            out.append(value);
            out.append(" ");
            Some(out)
        },
        _ => None,
    }
}

impl App {
    /// Puts a completion in, if there is a command to complete.
    pub fn apply_completion(&mut self, value: &str) -> (r: bool)
        requires
            on_boundary(old(self)@.input.buffer, old(self)@.input.cursor),
        ensures
            r == old(self)@.input.completed(value@) is Some,
            final(self)@ == (match old(self)@.input.completed(value@) {
                Some(input) => AppView { input, ..old(self)@ },
                None => old(self)@,
            }),
            on_boundary(final(self)@.input.buffer, final(self)@.input.cursor),
    {
        reveal(InputView::completed);
        let ghost v = self@.input;
        let ghost k = position(v.buffer, v.cursor);
        let ghost start = line_start(v.buffer, k);
        let (cmd_start, cmd_line) = command_line_at_cursor(
            self.input.buffer.as_str(),
            self.input.cursor,
        );
        proof {
            lemma_position(v.buffer, v.cursor);
            lemma_line_start(v.buffer, k);
            lemma_offset(v.buffer, start);
            lemma_offset(v.buffer, 0);
            crate::input_wrap::lemma_byte_len_take(v.buffer, 0, start);
        }
        let multi = starts_with(cmd_line.as_str(), "/") && cmd_start > 0;
        assert(multi == v.is_multiline_command());
        let made = if multi {
            complete_command(cmd_line.as_str(), value)
        } else {
            complete_command(self.input.buffer.as_str(), value)
        };
        match made {
            Some(cmd) => {
                if multi {
                    let chars = chars_of(self.input.buffer.as_str());
                    let n: usize = chars.len();
                    let line_len: usize = cmd_line.as_str().unicode_len();
                    let at: usize = char_index(&chars, self.input.cursor);
                    let first: usize = at - line_len;
                    let mut text = string_of(&chars, 0, first);
                    text.append(cmd.as_str());
                    assert(text@ =~= v.buffer.take(start) + cmd@);
                    let cursor: usize = byte_length(text.as_str());
                    let ghost head = text@;
                    let tail = string_of(&chars, at, n);
                    assert(tail@ =~= v.buffer.skip(k));
                    text.append(tail.as_str());
                    proof {
                        lemma_offset(text@, head.len() as int);
                        assert(text@.take(head.len() as int) =~= head);
                    }
                    self.input.buffer = text;
                    self.input.cursor = cursor;
                } else {
                    proof {
                        lemma_offset(cmd@, cmd@.len() as int);
                    }
                    self.input.cursor = byte_length(cmd.as_str());
                    self.input.buffer = cmd;
                }
                true
            },
            None => false,
        }
    }

    fn put_completion(&mut self, value: &str) -> (r: Vec<Effect>)
        requires
            on_boundary(old(self)@.input.buffer, old(self)@.input.cursor),
        ensures
            final(self)@ == old(self)@.completion_put(value@).app,
            effect_views(r@) == old(self)@.completion_put(value@).effects,
    {
        reveal(AppView::completion_put);
        let put = self.apply_completion(value);
        let command = starts_with(trim_str(self.input.buffer.as_str()), "/");
        if command {
            self.submit()
        } else {
            let mut out = no_effects();
            add_when(&mut out, put, Effect::RefreshCompletions);
            out
        }
    }

    /// Puts the selected completion in.
    pub fn take_completion(&mut self) -> (r: Vec<Effect>)
        requires
            on_boundary(old(self)@.input.buffer, old(self)@.input.cursor),
        ensures
            final(self)@ == old(self)@.completion_taken().app,
            effect_views(r@) == old(self)@.completion_taken().effects,
    {
        let overlay = self.ui.completion.take();
        match overlay {
            None => no_effects(),
            Some(o) => {
                assert(o@.items.len() == o.items@.len());
                if o.selected >= o.items.len() {
                    return no_effects();
                }
                assert(o@.items[o.selected as int] == o.items@[o.selected as int]@);
                self.put_completion(o.items[o.selected].value.as_str())
            },
        }
    }

    /// Selects the next completion, or offers completions.
    pub fn next_completion(&mut self) -> (r: Vec<Effect>)
        requires
            on_boundary(old(self)@.input.buffer, old(self)@.input.cursor),
        ensures
            final(self)@ == old(self)@.completion_next().app,
            effect_views(r@) == old(self)@.completion_next().effects,
    {
        let mut out = no_effects();
        let show = self.should_show_completion();
        let overlay = self.ui.completion.take();
        match overlay {
            Some(o) => {
                let mut o = o;
                let n: usize = o.items.len();
                assert(o@.items.len() == n);
                o.selected = if n > 0 && o.selected < n - 1 {
                    o.selected + 1
                } else {
                    0
                };
                self.ui.completion = Some(o);
            },
            None => {
                add_when(&mut out, show, Effect::RefreshCompletions);
            },
        }
        out
    }

    /// Selects the completion before.
    pub fn prev_completion(&mut self)
        ensures
            final(self)@ == old(self)@.completion_prev(),
    {
        let overlay = self.ui.completion.take();
        if let Some(o) = overlay {
            let mut o = o;
            let n: usize = o.items.len();
            assert(o@.items.len() == n);
            o.selected = if o.selected > 0 {
                o.selected - 1
            } else {
                n.saturating_sub(1)
            };
            self.ui.completion = Some(o);
        }
    }
}

/// The number of characters before a byte offset.
fn char_index(text: &Vec<char>, at: usize) -> (r: usize)
    requires
        on_boundary(text@, at as nat),
    ensures
        r == position(text@, at as nat),
        r <= text@.len(),
{
    crate::app::editing::index_of(text, at)
}

pub proof fn lemma_line_start(text: Seq<char>, k: int)
    requires
        0 <= k <= text.len(),
    ensures
        0 <= line_start(text, k) <= k,
    decreases k,
{
    if k > 0 {
        lemma_line_start(text, k - 1);
    }
}

// ── Names of the team ────────────────────────────────────────────────────────

/// A member of the team can be meant by the beginning of a name.
pub open spec fn is_meant(e: TeamEntryView, partial: Seq<char>) -> bool {
    !e.is_local && (partial.len() == 0 || has_prefix(lowercase(e.name), lowercase(partial)))
}

/// A member of the team as a completion.
pub open spec fn member_item(e: TeamEntryView) -> CompletionItemView {
    CompletionItemView {
        value: e.name,
        display: "@"@ + e.name + "  ["@ + e.role + "]"@,
        description: Some(
            match e.current_task {
                Some(t) => t,
                None => "idle"@,
            },
        ),
        score: 0,
    }
}

/// The members of the team that can be meant.
pub open spec fn mention_items(team: Seq<TeamEntryView>, partial: Seq<char>) -> Seq<
    CompletionItemView,
>
    decreases team.len(),
{
    if team.len() == 0 {
        seq![]
    } else {
        let init = mention_items(team.drop_last(), partial);
        if is_meant(team.last(), partial) {
            init.push(member_item(team.last()))
        } else {
            init
        }
    }
}

/// The completions for a name that is being typed: all members of the team but
/// the user whose names begin with it.
pub fn mention_completion_items(team: &Vec<TeamPickerEntry>, partial: &str) -> (r: Vec<
    CompletionItem,
>)
    ensures
        item_views(r@) == mention_items(team_views(team@), partial@),
{
    let ghost all = team_views(team@);
    let lower = to_lowercase(partial);
    let mut out: Vec<CompletionItem> = Vec::new();
    let mut i: usize = 0;
    assert(all.take(0) =~= seq![]);
    assert(item_views(out@) =~= seq![]);
    while i < team.len()
        invariant
            all == team_views(team@),
            lower@ == lowercase(partial@),
            i <= team@.len(),
            item_views(out@) == mention_items(all.take(i as int), partial@),
        decreases team.len() - i,
    {
        let e = &team[i];
        let ghost before = out@;
        let meant = !e.is_local && (partial.is_empty() || starts_with(
            to_lowercase(e.name.as_str()).as_str(),
            lower.as_str(),
        ));
        if meant {
            let mut display = "@".to_owned();
            display.append(e.name.as_str());
            display.append("  [");
            display.append(e.role.as_str());
            display.append("]");
            let description = match &e.current_task {
                Some(t) => Some(t.clone()),
                None => Some("idle".to_owned()),
            };
            let item = CompletionItem { value: e.name.clone(), display, description, score: 0 };
            out.push(item);
            assert(item_views(out@) =~= item_views(before).push(item@));
        }
        i += 1;
        proof {
            assert(all.take(i as int).drop_last() =~= all.take(i - 1));
            assert(all.take(i as int).last() == e@);
        }
    }
    assert(all.take(all.len() as int) =~= all);
    out
}

impl AppView {
    /// The members of the team that are offered.
    pub open spec fn offered_members(self) -> Seq<CompletionItemView> {
        match mention(self.input.before_cursor()) {
            Some(partial) => mention_items(self.ui.team, partial),
            None => seq![],
        }
    }

    /// The command that completions are offered for.
    pub open spec fn offered_source(self) -> Seq<char> {
        if has_prefix(self.input.command_line(), "/"@) {
            self.input.command_line()
        } else {
            self.input.buffer
        }
    }

    /// Some completions offered.
    pub open spec fn offering(self, items: Seq<CompletionItemView>) -> AppView {
        AppView { ui: UiView { completion: offered(items, self.ui.completion), ..self.ui }, ..self }
    }
}

impl App {
    /// Offers completions for what is being typed: names of the team behind an
    /// `@`, otherwise commands and their arguments.
    pub fn update_completion_overlay(&mut self, manager: &CompletionManager, ctx: &CommandContext)
        requires
            on_boundary(old(self)@.input.buffer, old(self)@.input.cursor),
        ensures
            old(self)@.offered_members().len() > 0 ==> final(self)@ == old(self)@.offering(
                old(self)@.offered_members(),
            ),
            old(self)@.offered_members().len() == 0 ==> forall|list: Seq<Command>| #[trigger]
                lists(list, manager.commands()) ==> final(self)@ == old(self)@.offering(
                    completions_for(parse_view(old(self)@.offered_source()), list, ctx@),
                ),
            old(self)@.offered_members().len() == 0 ==> exists|list: Seq<Command>|
                lists(list, manager.commands()),
    {
        if let Some(partial) = at_mention_prefix(self.input.buffer.as_str(), self.input.cursor) {
            let items = mention_completion_items(&self.ui.team_picker_entries, partial.as_str());
            assert(item_views(items@).len() == items@.len());
            if items.len() > 0 {
                self.ui.offer_completions(items);
                return ;
            }
        }
        let (_, line) = command_line_at_cursor(self.input.buffer.as_str(), self.input.cursor);
        let parsed = if starts_with(line.as_str(), "/") {
            parse(line.as_str())
        } else {
            parse(self.input.buffer.as_str())
        };
        let items = manager.get_completions(&parsed, ctx);
        self.ui.offer_completions(items);
    }
}

// ── Laws ─────────────────────────────────────────────────────────────────────

/// The wheel leaves the cursor between characters.
pub proof fn law_wheel_keeps_cursor_between_characters(text: Seq<char>, cursor: nat, width: nat)
    requires
        on_boundary(text, cursor),
    ensures
        on_boundary(text, wheel_up(text, cursor, width)),
        on_boundary(text, wheel_down(text, cursor, width)),
{
    let at = cursor_at(text, width, cursor);
    lemma_offset_at_boundary(text, width, minus(at.0 as int, 1) as nat, at.1);
    let last = minus(wrapped_lines(text, width, cursor).len() as int, 1) as nat;
    lemma_offset_at_boundary(
        text,
        width,
        if at.0 + 1 < last {
            at.0 + 1
        } else {
            last
        },
        at.1,
    );
}

/// The cursor of a box can be seen after it was scrolled to.
pub proof fn law_cursor_is_visible(
    text: Seq<char>,
    cursor: nat,
    offset: nat,
    width: nat,
    height: nat,
)
    requires
        width > 1,
        height > 0,
    ensures
        ({
            let w = if wrapped_lines(text, width, cursor).len() > height {
                (width - 1) as nat
            } else {
                width
            };
            let first = box_scroll(text, cursor, offset, width, height);
            first <= cursor_at(text, w, cursor).0 < first + height
        }),
{
}

/// What was sent is gone from the input, and the text can be found in the
/// history.
pub proof fn law_sent_text_is_remembered(v: AppView)
    requires
        v.input.history_ok(),
        trim(v.input.buffer).len() > 0,
    ensures
        v.submitted().app.input.buffer.len() == 0,
        v.submitted().app.input.attachments.len() == 0,
        v.submitted().app.input.history.last() == trim(v.input.buffer),
        v.submitted().app.input.history_ok(),
{
    reveal(InputView::taken_out);
    let t = trim(v.input.buffer);
    crate::text::lemma_trim_is_trimmed(v.input.buffer);
    crate::text::lemma_trim_fixpoint(t);
    crate::app::input_state::law_history_stays_ok(
        InputView {
            buffer: seq![],
            cursor: 0,
            scroll_offset: 0,
            attachments: seq![],
            ..v.input
        },
        t,
    );
}

} // verus!
