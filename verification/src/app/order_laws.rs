//! Every action leaves the state in order: the cursors between characters, and
//! what is selected in place.

use vstd::prelude::*;

use crate::app::dispatch::{
    Action, ChatAction, GlobalAction, InputAction, ListAction, PaneAction, QueueAction, SearchAction,
    TeamAction,
};
use crate::app::editing::{
    edited,     law_cursor_stays_between_characters, lemma_offset, lemma_position, line_start, on_boundary,
    position, InputEdit,
};
use crate::app::front::AppView;
use crate::app::input_state::{law_history_stays_ok, EditView, InputView};
use crate::app::queue_state::{law_selected_message_exists, plain_message, QueueView};
use crate::app::steps_input::{lemma_line_start, law_wheel_keeps_cursor_between_characters};
use crate::app::ui_state::{FocusPane, OverlayView};
use crate::text::{byte_len, trim};

verus! {

/// What is in the queue and in the list of completions can be counted.
pub open spec fn countable(v: AppView) -> bool {
    &&& v.queue.messages.len() < usize::MAX
    &&& v.ui.completion matches Some(o) ==> o.items.len() <= usize::MAX
}

/// The input is in order.
pub open spec fn input_ok(i: InputView) -> bool {
    on_boundary(i.buffer, i.cursor) && i.history_ok()
}

proof fn lemma_end(text: Seq<char>)
    ensures
        on_boundary(text, byte_len(text)),
        on_boundary(text, 0),
{
    lemma_offset(text, text.len() as int);
    lemma_offset(text, 0);
}

proof fn lemma_queue(q: QueueView, i: int, text: Seq<char>)
    requires
        q.selection_ok(),
        q.messages.len() < usize::MAX,
    ensures
        q.messages.len() > 0 ==> q.entered().selection_ok(),
        q.up().selection_ok(),
        q.down().selection_ok(),
        0 <= i < q.messages.len() ==> q.without(i).selection_ok(),
        q.messages.len() > 0 ==> q.advanced().selection_ok(),
        q.with_content(i, text).selection_ok(),
{
    law_selected_message_exists(q, i, plain_message(text), text);
}

// ── The input ────────────────────────────────────────────────────────────────

proof fn lemma_history(i: InputView)
    requires
        input_ok(i),
    ensures
        input_ok(i.showing_older()),
        input_ok(i.showing_newer()),
{
    lemma_end(i.showing_older().buffer);
    lemma_end(i.showing_newer().buffer);
}

proof fn lemma_edit(i: InputView, op: InputEdit, width: nat)
    requires
        input_ok(i),
    ensures
        input_ok(i.after_edit(op, width)),
{
    reveal(InputView::after_edit);
    lemma_history(i);
    law_cursor_stays_between_characters(i.buffer, i.cursor, width, op);
}

proof fn lemma_taken_out(i: InputView)
    requires
        input_ok(i),
    ensures
        input_ok(i.taken_out().0),
{
    reveal(InputView::taken_out);
    lemma_end(seq![]);
    let sent = InputView { buffer: seq![], cursor: 0, scroll_offset: 0, attachments: seq![], ..i };
    law_history_stays_ok(sent, trim(i.buffer));
}

proof fn lemma_completed(i: InputView, value: Seq<char>)
    requires
        input_ok(i),
    ensures
        i.completed(value) matches Some(n) ==> input_ok(n),
{
    reveal(InputView::completed);
    if let Some(n) = i.completed(value) {
        let k = position(i.buffer, i.cursor);
        let start = line_start(i.buffer, k);
        lemma_position(i.buffer, i.cursor);
        lemma_line_start(i.buffer, k);
        if i.is_multiline_command() {
            let cmd = crate::app::steps_input::completed_command(
                i.completion_source(),
                value,
            )->0;
            let head = i.buffer.take(start) + cmd;
            assert(n.buffer.take(head.len() as int) =~= head);
            lemma_offset(n.buffer, head.len() as int);
        } else {
            lemma_end(n.buffer);
        }
    }
}

proof fn lemma_put(v: AppView, value: Seq<char>)
    requires
        input_ok(v.input),
        v.ui.completion is None,
    ensures
        input_ok(v.completion_put(value).app.input),
        v.completion_put(value).app.edit == v.edit,
        v.completion_put(value).app.queue == v.queue,
        v.completion_put(value).app.ui.completion is None,
{
    reveal(AppView::completion_put);
    lemma_completed(v.input, value);
    lemma_taken_out(v.input);
    if let Some(n) = v.input.completed(value) {
        lemma_taken_out(n);
    }
}

proof fn lemma_dequeued(v: AppView)
    requires
        v.queue.selection_ok(),
        v.queue.messages.len() < usize::MAX,
    ensures
        v.dequeued().app.queue.selection_ok(),
        v.dequeued().app.input == v.input,
        v.dequeued().app.edit == v.edit,
        v.dequeued().app.ui.completion == v.ui.completion,
{
    lemma_queue(v.queue, 0, seq![]);
}

proof fn lemma_edit_ended(v: AppView)
    requires
        v.wf(),
        countable(v),
    ensures
        v.edit_confirmed().app.wf(),
        v.edit_cancelled().app.wf(),
{
    lemma_end(seq![]);
    let e = v.edit_confirmed().app;
    let c = v.edit_cancelled().app;
    match v.edit.queue_index {
        Some(i) => {
            let text = trim(v.edit.buffer);
            lemma_queue(v.queue, i as int, text);
            let after = AppView {
                queue: if text.len() > 0 {
                    v.queue.with_content(i as int, text)
                } else {
                    v.queue
                },
                ..v.unedited()
            }.off_edit();
            lemma_dequeued(after);
            if let Some(t) = v.edit.original_text {
                lemma_queue(v.queue, i as int, t);
                let back = AppView {
                    queue: v.queue.with_content(i as int, t),
                    ..v.unedited()
                }.off_edit();
                lemma_dequeued(back);
            } else {
                lemma_dequeued(v.unedited().off_edit());
            }
        },
        None => {},
    }
}

/// The parts of the state that have to be in order.
pub open spec fn parts_ok(input: InputView, edit: EditView, queue: QueueView, offered: Option<
    OverlayView,
>) -> bool {
    &&& input_ok(input)
    &&& on_boundary(edit.buffer, edit.cursor)
    &&& queue.selection_ok()
    &&& offered matches Some(o) ==> o.selection_ok()
}

proof fn lemma_parts(v: AppView)
    ensures
        v.wf() == parts_ok(v.input, v.edit, v.queue, v.ui.completion),
{
}

proof fn lemma_typed(v: AppView, op: InputEdit)
    ensures
        v.typed(op).app.input == v.input.after_edit(op, v.input_width()),
        v.typed(op).app.edit == v.edit,
        v.typed(op).app.queue == v.queue,
        v.typed(op).app.ui.completion == v.ui.completion || v.typed(op).app.ui.completion is None,
        v.edit_typed(op).app.input == v.input,
        v.edit_typed(op).app.queue == v.queue,
        v.edit_typed(op).app.ui.completion == v.ui.completion,
        (v.edit_typed(op).app.edit.buffer, v.edit_typed(op).app.edit.cursor) == edited(
            v.edit.buffer,
            v.edit.cursor,
            v.input_width(),
            op,
        ),
{
}

proof fn lemma_edit_step(v: AppView, op: InputEdit)
    requires
        v.wf(),
    ensures
        v.typed(op).app.wf(),
        v.edit_typed(op).app.wf(),
{
    lemma_parts(v);
    lemma_parts(v.typed(op).app);
    lemma_parts(v.edit_typed(op).app);
    lemma_typed(v, op);
    lemma_edit(v.input, op, v.input_width());
    law_cursor_stays_between_characters(v.edit.buffer, v.edit.cursor, v.input_width(), op);
}

proof fn lemma_wheel_step(v: AppView, up: bool)
    requires
        v.wf(),
    ensures
        v.wheeled(up).wf(),
        v.paged_up().wf(),
        v.paged_down().wf(),
{
    law_wheel_keeps_cursor_between_characters(v.input.buffer, v.input.cursor, v.input_width());
    law_wheel_keeps_cursor_between_characters(v.edit.buffer, v.edit.cursor, v.input_width());
}

proof fn lemma_send_step(v: AppView)
    requires
        v.wf(),
        countable(v),
    ensures
        v.submitted().app.wf(),
        v.escaped().app.wf(),
        (AppView { input: v.input.showing_older(), ..v }).wf(),
        (AppView { input: v.input.showing_newer(), ..v }).wf(),
{
    lemma_taken_out(v.input);
    lemma_history(v.input);
    lemma_end(seq![]);
    lemma_edit_ended(v);
}

proof fn lemma_completion_step(v: AppView)
    requires
        v.wf(),
        countable(v),
    ensures
        v.completion_next().app.wf(),
        v.completion_prev().wf(),
        v.completion_taken().app.wf(),
        v.unoffered().wf(),
{
    lemma_parts(v);
    lemma_parts(v.completion_taken().app);
    if let Some(o) = v.ui.completion {
        lemma_put(v.unoffered(), o.items[o.selected as int].value);
    }
}

proof fn lemma_input_step(v: AppView, a: InputAction)
    requires
        v.wf(),
        countable(v),
    ensures
        v.input_step(a).app.wf(),
{
    reveal(AppView::input_step);
    match a {
        InputAction::Edit(op) => lemma_edit_step(v, op),
        InputAction::PageUp | InputAction::PageDown | InputAction::ScrollUp => lemma_wheel_step(
            v,
            true,
        ),
        InputAction::ScrollDown => lemma_wheel_step(v, false),
        InputAction::HistoryUp | InputAction::HistoryDown => lemma_send_step(v),
        InputAction::Submit | InputAction::Escape => lemma_send_step(v),
        InputAction::EditMessageConfirm | InputAction::EditMessageCancel => lemma_edit_ended(v),
        InputAction::SubmitBufferToAgent => {},
        InputAction::CompletionNext | InputAction::CompletionPrev => lemma_completion_step(v),
        InputAction::CompletionSelect | InputAction::CompletionCancel => lemma_completion_step(v),
    }
}

// ── The other steps ──────────────────────────────────────────────────────────

/// The steps between the panes leave the input alone.
proof fn lemma_nav_leaves(v: AppView, a: PaneAction)
    requires
        a is NavUp || a is NavDown || a is NavLeft || a is NavRight,
    ensures
        v.pane_step(a).input == v.input,
        v.pane_step(a).edit == v.edit,
        v.pane_step(a).ui.completion == v.ui.completion,
        v.pane_step(a).queue == v.queue || (v.queue.messages.len() > 0 && v.pane_step(a).queue
            == v.queue.entered()),
{
    reveal(AppView::pane_step);
    match v.ui.focus {
        FocusPane::Chat => {},
        FocusPane::Input => {},
        FocusPane::Queue => {},
        FocusPane::ChatList => {},
        FocusPane::Peers => {},
    }
}

proof fn lemma_focus_leaves(v: AppView, a: PaneAction)
    requires
        a is FocusInput || a is FocusQueue || a is FocusChatList || a is ToggleChatList,
    ensures
        v.pane_step(a).input == v.input,
        v.pane_step(a).edit == v.edit,
        v.pane_step(a).ui.completion == v.ui.completion,
        v.pane_step(a).queue == v.queue || (v.queue.messages.len() > 0 && v.pane_step(a).queue
            == v.queue.entered()),
{
    reveal(AppView::pane_step);
}

proof fn lemma_size_leaves(v: AppView, a: PaneAction)
    requires
        a is ResizeChatListGrow || a is ResizeChatListShrink || a is ResizeInputGrow
            || a is ResizeInputShrink,
    ensures
        v.pane_step(a).input == v.input,
        v.pane_step(a).edit == v.edit,
        v.pane_step(a).ui.completion == v.ui.completion,
        v.pane_step(a).queue == v.queue || (v.queue.messages.len() > 0 && v.pane_step(a).queue
            == v.queue.entered()),
{
    reveal(AppView::pane_step);
}

proof fn lemma_pane_leaves(v: AppView, a: PaneAction)
    ensures
        v.pane_step(a).input == v.input,
        v.pane_step(a).edit == v.edit,
        v.pane_step(a).ui.completion == v.ui.completion,
        v.pane_step(a).queue == v.queue || (v.queue.messages.len() > 0 && v.pane_step(a).queue
            == v.queue.entered()),
{
    if a is NavUp || a is NavDown || a is NavLeft || a is NavRight {
        lemma_nav_leaves(v, a);
    } else if a is FocusInput || a is FocusQueue || a is FocusChatList || a is ToggleChatList {
        lemma_focus_leaves(v, a);
    } else {
        lemma_size_leaves(v, a);
    }
}

proof fn lemma_list_leaves(v: AppView, a: ListAction)
    ensures
        v.list_step(a).app.input == v.input,
        v.list_step(a).app.edit == v.edit,
        v.list_step(a).app.ui.completion == v.ui.completion,
        v.list_step(a).app.queue == v.queue,
{
    reveal(AppView::list_step);
}

proof fn lemma_search_leaves(v: AppView, a: SearchAction)
    ensures
        v.search_step(a).app.input == v.input,
        v.search_step(a).app.edit == v.edit,
        v.search_step(a).app.ui.completion == v.ui.completion,
        v.search_step(a).app.queue == v.queue,
{
    reveal(AppView::search_step);
}

proof fn lemma_global_leaves(v: AppView, a: GlobalAction)
    ensures
        v.global_step(a).app.input == v.input,
        v.global_step(a).app.edit == v.edit,
        v.global_step(a).app.ui.completion == v.ui.completion,
        v.global_step(a).app.queue.messages == v.queue.messages,
        v.global_step(a).app.queue.selected == v.queue.selected,
{
    reveal(AppView::global_step);
}

proof fn lemma_team_leaves(v: AppView, a: TeamAction)
    ensures
        v.team_step(a).input == v.input,
        v.team_step(a).edit == v.edit,
        v.team_step(a).ui.completion == v.ui.completion,
        v.team_step(a).queue == v.queue,
{
    reveal(AppView::team_step);
}

/// A step that changes the conversation leaves the input alone, and ends an edit
/// or begins one at the end of the text.
proof fn lemma_chat_edits(v: AppView, a: ChatAction)
    requires
        a is EditMessageAtCursor || a is DeleteChatSegment || a is RemoveChatSegment || a is RerunFromSegment,
    ensures
        v.chat_step(a).app.input == v.input,
        v.chat_step(a).app.ui.completion == v.ui.completion,
        v.chat_step(a).app.queue == v.queue,
        ({
            let e = v.chat_step(a).app.edit;
            e == v.edit || e == EditView::none() || e.cursor == byte_len(e.buffer)
        }),
{
    reveal(AppView::chat_step);
}

proof fn lemma_chat_shows(v: AppView, a: ChatAction)
    requires
        a is ChatHighlightDown || a is ChatHighlightUp || a is ShowChatHelp || a is ScrollUp
            || a is ScrollDown || a is ScrollPageUp || a is ScrollPageDown || a is ScrollTop
            || a is ScrollBottom || a is ToggleDelegateSummary || a is ChatScrollbarClick,
    ensures
        v.chat_step(a).app.input == v.input,
        v.chat_step(a).app.ui.completion == v.ui.completion,
        v.chat_step(a).app.queue == v.queue,
        v.chat_step(a).app.edit == v.edit,
{
    reveal(AppView::chat_step);
}

proof fn lemma_chat_copies(v: AppView, a: ChatAction)
    requires
        a is CopySegment || a is CopyAll || a is SelectionFinish,
    ensures
        v.chat_step(a).app.input == v.input,
        v.chat_step(a).app.ui.completion == v.ui.completion,
        v.chat_step(a).app.queue == v.queue,
        v.chat_step(a).app.edit == v.edit,
{
    reveal(AppView::chat_step);
}

proof fn lemma_fold_leaves(v: AppView, line: usize)
    ensures
        v.folded_at(line).app.input == v.input,
        v.folded_at(line).app.ui == v.ui,
        v.folded_at(line).app.queue == v.queue,
        v.folded_at(line).app.edit == v.edit,
{
}

proof fn lemma_selection_leaves(v: AppView, line: usize, col: u16)
    ensures
        v.selection_begun(line, col).input == v.input,
        v.selection_begun(line, col).ui.completion == v.ui.completion,
        v.selection_begun(line, col).queue == v.queue,
        v.selection_begun(line, col).edit == v.edit,
{
}

proof fn lemma_click_is(v: AppView, line: usize, col: u16)
    ensures
        v.chat_step(ChatAction::ChatContentClick { abs_line: line, inner_col: col })
            == v.content_clicked(line, col),
{
    reveal(AppView::chat_step);
}

proof fn lemma_chat_clicks(v: AppView, line: usize, col: u16)
    ensures
        ({
            let after = v.chat_step(
                ChatAction::ChatContentClick { abs_line: line, inner_col: col },
            ).app;
            after.input == v.input && after.ui.completion == v.ui.completion && after.queue
                == v.queue && after.edit == v.edit
        }),
{
    lemma_click_is(v, line, col);
    lemma_selection_leaves(v, line, col);
    lemma_fold_leaves(v.selection_begun(line, col), line);
}

proof fn lemma_drawn_leaves(v: AppView, line: usize, col: u16, row: u16)
    ensures
        v.selection_drawn(line, col, row).input == v.input,
        v.selection_drawn(line, col, row).ui == v.ui,
        v.selection_drawn(line, col, row).queue == v.queue,
        v.selection_drawn(line, col, row).edit == v.edit,
{
}

proof fn lemma_draw_is(v: AppView, line: usize, col: u16, row: u16)
    ensures
        v.chat_step(
            ChatAction::SelectionExtend { abs_line: line, inner_col: col, mouse_row: row },
        ).app == v.selection_drawn(line, col, row),
{
    reveal(AppView::chat_step);
}

proof fn lemma_chat_rests(v: AppView, a: ChatAction)
    requires
        a is SelectionClear || a is NvimScrollUp || a is NvimScrollDown,
    ensures
        v.chat_step(a).app.input == v.input,
        v.chat_step(a).app.ui.completion == v.ui.completion,
        v.chat_step(a).app.queue == v.queue,
        v.chat_step(a).app.edit == v.edit,
{
    reveal(AppView::chat_step);
}

proof fn lemma_chat_selects(v: AppView, a: ChatAction)
    requires
        a is CopySegment || a is CopyAll || a is ChatContentClick || a is SelectionExtend
            || a is SelectionFinish || a is SelectionClear || a is NvimScrollUp
            || a is NvimScrollDown,
    ensures
        v.chat_step(a).app.input == v.input,
        v.chat_step(a).app.ui.completion == v.ui.completion,
        v.chat_step(a).app.queue == v.queue,
        v.chat_step(a).app.edit == v.edit,
{
    if a is CopySegment || a is CopyAll || a is SelectionFinish {
        lemma_chat_copies(v, a);
    } else if let ChatAction::ChatContentClick { abs_line, inner_col } = a {
        lemma_chat_clicks(v, abs_line, inner_col);
    } else if let ChatAction::SelectionExtend { abs_line, inner_col, mouse_row } = a {
        lemma_draw_is(v, abs_line, inner_col, mouse_row);
        lemma_drawn_leaves(v, abs_line, inner_col, mouse_row);
    } else {
        lemma_chat_rests(v, a);
    }
}

proof fn lemma_queue_step(v: AppView, a: QueueAction)
    requires
        v.wf(),
        countable(v),
    ensures
        v.queue_step(a).app.wf(),
{
    reveal(AppView::queue_step);
    lemma_end(seq![]);
    match a {
        QueueAction::Click { index } => {
            if index < v.queue.messages.len() {
                lemma_end(v.queue.messages[index as int].content);
            }
        },
        _ => {
            lemma_queue(v.queue, 0, seq![]);
            if let Some(i) = v.queue.selected {
                lemma_end(v.queue.messages[i as int].content);
                lemma_queue(v.queue, i as int, seq![]);
                lemma_queue(
                    QueueView { abort_pending: false, ..v.queue },
                    i as int,
                    seq![],
                );
            }
        },
    }
}

proof fn lemma_other_step(v: AppView, a: Action)
    requires
        v.wf(),
        countable(v),
        !(a is Input) && !(a is Queue),
    ensures
        v.after(a).app.wf(),
{
    reveal(AppView::after);
    let after = v.after(a).app;
    lemma_parts(v);
    lemma_parts(after);
    lemma_end(seq![]);
    lemma_end(after.edit.buffer);
    lemma_queue(v.queue, 0, seq![]);
    match a {
        Action::Pane(p) => lemma_pane_leaves(v, p),
        Action::Global(g) => lemma_global_leaves(v, g),
        Action::List(l) => lemma_list_leaves(v, l),
        Action::Team(t) => lemma_team_leaves(v, t),
        Action::Search(s) => lemma_search_leaves(v, s),
        Action::Chat(c) => {
            if c is EditMessageAtCursor || c is DeleteChatSegment || c is RemoveChatSegment
                || c is RerunFromSegment {
                lemma_chat_edits(v, c);
            } else if c is CopySegment || c is CopyAll || c is ChatContentClick
                || c is SelectionExtend || c is SelectionFinish || c is SelectionClear
                || c is NvimScrollUp || c is NvimScrollDown {
                lemma_chat_selects(v, c);
            } else {
                lemma_chat_shows(v, c);
            }
        },
        _ => {},
    }
}

/// An action that has been taken leaves the state in order.
pub proof fn law_actions_keep_order(v: AppView, a: Action)
    requires
        v.wf(),
        countable(v),
    ensures
        v.after(a).app.wf(),
{
    match a {
        Action::Queue(q) => {
            reveal(AppView::after);
            lemma_queue_step(v, q);
        },
        Action::Input(i) => {
            reveal(AppView::after);
            lemma_input_step(v, i);
        },
        _ => lemma_other_step(v, a),
    }
}

} // verus!
