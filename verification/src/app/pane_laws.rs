//! What the panes promise: where the focus goes, what happens in the queue, in
//! the list of chats and in the team, how large the panes are, and how long a
//! notification stays.

use vstd::prelude::*;

use crate::app::chat_laws::{messages_in, spoken};
use crate::app::chat_state::ChatView;
use crate::app::dispatch::{Action, GlobalAction, ListAction, PaneAction, QueueAction, TeamAction};
use crate::app::event_laws::law_every_message_is_sent_again;
use crate::app::front::{AppView, EffectView, StepView};
use crate::app::input_state::EditView;
use crate::app::layout_cache::{LayoutCache, Rect, SplitPrefs};
use crate::app::queue_state::QueueView;
use crate::app::session_manager::{ChatStatus, EntryView, SessionId};
use crate::app::session_state::SessionStateView;
use crate::app::session_switch::{lemma_entry_id, lemma_with};
use crate::app::session_tree::ManagerView;
use crate::app::steps_panes::list_scroll;
use crate::app::ui_state::{
    fresh, member_with, next_of, offered, prev_of, ConfirmedAction, FocusPane, OverlayView,
    TeamEntryView, ToastView, UiView,
};
use crate::chat::segment_ops::range_with;
use crate::commands::completion::CompletionItemView;
use crate::commands::AgentMode;
use crate::style::Color;
use crate::text::byte_len;

verus! {

/// Nothing but the focus is changed, and nothing is to be done.
pub open spec fn only_focus(v: AppView, r: StepView, pane: FocusPane) -> bool {
    &&& r.app == AppView { ui: UiView { focus: pane, ..v.ui }, ..v }
    &&& r.effects.len() == 0
}

/// The queue has the focus; a row of it is selected, the first where none was.
pub open spec fn queue_focus(v: AppView, r: StepView) -> bool {
    &&& r.app == AppView {
        ui: UiView { focus: FocusPane::Queue, ..v.ui },
        queue: QueueView {
            selected: if v.queue.selected is Some {
                v.queue.selected
            } else {
                Some(0usize)
            },
            ..v.queue
        },
        ..v
    }
    &&& r.effects.len() == 0
}

/// The chat has the focus; the segment in the middle of the pane is highlighted,
/// and none where no segment is there.
pub open spec fn chat_focus(v: AppView, r: AppView) -> bool {
    let middle = v.chat.scroll_offset + v.layout.chat_height / 2;
    let ranges = v.chat.segment_line_ranges;
    &&& r == AppView {
        ui: UiView { focus: FocusPane::Chat, ..v.ui },
        chat: ChatView { focused_segment: r.chat.focused_segment, ..v.chat },
        ..v
    }
    &&& match r.chat.focused_segment {
        Some(i) => i < ranges.len() && ranges[i as int].0 <= middle < ranges[i as int].1,
        None => forall|k: int|
            0 <= k < ranges.len() ==> !((#[trigger] ranges[k]).0 <= middle < ranges[k].1),
    }
}

proof fn lemma_range(ranges: Seq<(usize, usize)>, line: int, i: int)
    requires
        ranges.len() <= usize::MAX,
        0 <= i <= ranges.len(),
    ensures
        match range_with(ranges, line, i) {
            Some(k) => i <= k < ranges.len() && ranges[k as int].0 <= line < ranges[k as int].1,
            None => forall|k: int|
                i <= k < ranges.len() ==> !((#[trigger] ranges[k]).0 <= line < ranges[k].1),
        },
    decreases ranges.len() - i,
{
    if i < ranges.len() && !(ranges[i].0 <= line < ranges[i].1) {
        lemma_range(ranges, line, i + 1);
    }
}

// ── The focus ────────────────────────────────────────────────────────────────

/// Up leads from one pane to the next: the chat is above the queue, and that is
/// above the input. An empty queue is passed over.
#[verifier::rlimit(40)]
pub proof fn law_focus_moves_up(v: AppView)
    requires
        v.chat.segment_line_ranges.len() <= usize::MAX,
    ensures
        ({
            let up = v.after(Action::Pane(PaneAction::NavUp));
            let waiting = v.queue.messages.len() > 0;
            &&& v.ui.focus == FocusPane::Input && waiting ==> queue_focus(v, up)
            &&& v.ui.focus == FocusPane::Input && !waiting ==> chat_focus(v, up.app)
            &&& v.ui.focus == FocusPane::Queue ==> chat_focus(v, up.app)
            &&& v.ui.focus == FocusPane::Chat || v.ui.focus == FocusPane::ChatList || v.ui.focus
                == FocusPane::Peers ==> up.app == v
            &&& up.effects.len() == 0
        }),
{
    reveal(AppView::after);
    reveal(AppView::pane_step);
    lemma_range(
        v.chat.segment_line_ranges,
        v.chat.scroll_offset + v.layout.chat_height / 2,
        0,
    );
}

/// Down leads back: from the chat to the queue, where there is one, and to the
/// input.
#[verifier::rlimit(40)]
pub proof fn law_focus_moves_down(v: AppView)
    ensures
        ({
            let down = v.after(Action::Pane(PaneAction::NavDown));
            let waiting = v.queue.messages.len() > 0;
            let above = v.ui.focus == FocusPane::Chat || v.ui.focus == FocusPane::ChatList;
            &&& above && waiting ==> queue_focus(v, down)
            &&& above && !waiting ==> only_focus(v, down, FocusPane::Input)
            &&& v.ui.focus == FocusPane::Queue ==> only_focus(v, down, FocusPane::Input)
            &&& v.ui.focus == FocusPane::Input || v.ui.focus == FocusPane::Peers ==> down.app == v
            &&& down.effects.len() == 0
        }),
{
    reveal(AppView::after);
    reveal(AppView::pane_step);
}

/// The list of chats is to the right, and it is shown when it gets the focus,
/// with the row of the active chat selected; to the left of it is the chat.
#[verifier::rlimit(40)]
pub proof fn law_focus_moves_left_and_right(v: AppView)
    requires
        v.chat.segment_line_ranges.len() <= usize::MAX,
    ensures
        ({
            let left = v.after(Action::Pane(PaneAction::NavLeft));
            let right = v.after(Action::Pane(PaneAction::NavRight));
            let there = v.after(Action::Pane(PaneAction::FocusChatList));
            &&& v.ui.focus == FocusPane::ChatList ==> chat_focus(v, left.app) && right.app == v
            &&& v.ui.focus != FocusPane::ChatList ==> left.app == v && right == there
            &&& there.app.ui == UiView { focus: FocusPane::ChatList, ..v.ui }
            &&& there.app.prefs == SplitPrefs { chat_list_visible: true, ..v.prefs }
            &&& there.app.sessions == v.sessions.synced()
            &&& there.app.chat == v.chat
            &&& there.app.input == v.input
            &&& there.app.queue == v.queue
            &&& there.effects.len() == 0
            &&& left.effects.len() == 0
        }),
{
    reveal(AppView::after);
    reveal(AppView::pane_step);
    lemma_range(
        v.chat.segment_line_ranges,
        v.chat.scroll_offset + v.layout.chat_height / 2,
        0,
    );
}

/// The focus goes to the input whenever it is asked for, and to the queue where
/// there is one.
#[verifier::rlimit(40)]
pub proof fn law_focus_goes_where_it_is_asked(v: AppView)
    ensures
        only_focus(v, v.after(Action::Pane(PaneAction::FocusInput)), FocusPane::Input),
        v.queue.messages.len() > 0 ==> queue_focus(
            v,
            v.after(Action::Pane(PaneAction::FocusQueue)),
        ),
        v.queue.messages.len() == 0 ==> v.after(Action::Pane(PaneAction::FocusQueue)).app == v,
        v.after(Action::Pane(PaneAction::FocusQueue)).effects.len() == 0,
        v.after(Action::NavPrefix).app == v,
        v.after(Action::NavPrefix).effects.len() == 0,
{
    reveal(AppView::after);
    reveal(AppView::pane_step);
}

/// The list of chats is hidden and shown in turn. Once it is hidden it does not
/// have the focus any more.
#[verifier::rlimit(40)]
pub proof fn law_list_is_hidden_and_shown(v: AppView)
    ensures
        ({
            let r = v.after(Action::Pane(PaneAction::ToggleChatList));
            &&& r.app.prefs == SplitPrefs {
                chat_list_visible: !v.prefs.chat_list_visible,
                ..v.prefs
            }
            &&& v.prefs.chat_list_visible && v.ui.focus == FocusPane::ChatList ==> r.app.ui
                == UiView { focus: FocusPane::Input, ..v.ui }
            &&& !(v.prefs.chat_list_visible && v.ui.focus == FocusPane::ChatList) ==> r.app.ui
                == v.ui
            &&& r.app == AppView { prefs: r.app.prefs, ui: r.app.ui, ..v }
            &&& r.effects.len() == 0
        }),
{
    reveal(AppView::after);
    reveal(AppView::pane_step);
}

// ── Sizes ────────────────────────────────────────────────────────────────────

/// The list of chats grows and shrinks by two columns and stays between fifteen
/// and sixty; the input grows and shrinks by one row and stays between three and
/// twenty. What grew shrinks to what it was, away from the bounds.
#[verifier::rlimit(40)]
pub proof fn law_panes_grow_and_shrink(v: AppView)
    ensures
        ({
            let w = v.prefs.chat_list_width;
            let h = v.prefs.input_height;
            let wider = v.after(Action::Pane(PaneAction::ResizeChatListGrow));
            let narrower = v.after(Action::Pane(PaneAction::ResizeChatListShrink));
            let higher = v.after(Action::Pane(PaneAction::ResizeInputGrow));
            let lower = v.after(Action::Pane(PaneAction::ResizeInputShrink));
            &&& w <= 58 ==> wider.app.prefs.chat_list_width == w + 2
            &&& w > 58 ==> wider.app.prefs.chat_list_width == 60
            &&& w >= 17 ==> narrower.app.prefs.chat_list_width == w - 2
            &&& w < 17 ==> narrower.app.prefs.chat_list_width == 15
            &&& h <= 19 ==> higher.app.prefs.input_height == h + 1
            &&& h > 19 ==> higher.app.prefs.input_height == 20
            &&& h >= 4 ==> lower.app.prefs.input_height == h - 1
            &&& h < 4 ==> lower.app.prefs.input_height == 3
            &&& wider.app == AppView {
                prefs: SplitPrefs { chat_list_width: wider.app.prefs.chat_list_width, ..v.prefs },
                ..v
            }
            &&& narrower.app == AppView {
                prefs: SplitPrefs {
                    chat_list_width: narrower.app.prefs.chat_list_width,
                    ..v.prefs
                },
                ..v
            }
            &&& higher.app == AppView {
                prefs: SplitPrefs { input_height: higher.app.prefs.input_height, ..v.prefs },
                ..v
            }
            &&& lower.app == AppView {
                prefs: SplitPrefs { input_height: lower.app.prefs.input_height, ..v.prefs },
                ..v
            }
            &&& wider.effects.len() == 0
            &&& narrower.effects.len() == 0
            &&& higher.effects.len() == 0
            &&& lower.effects.len() == 0
        }),
{
    reveal(AppView::after);
    reveal(AppView::pane_step);
}

/// A border that is dragged follows the mouse: the pane reaches from there to
/// its far edge, within its bounds.
pub proof fn law_border_follows_the_mouse(p: SplitPrefs, layout: LayoutCache, at: u16, grip: i16)
    requires
        at < 0x8000,
        0 <= at - grip <= i16::MAX,
    ensures
        ({
            let border = at - grip;
            let list = p.with_list_border(at, grip, layout);
            let width = layout.chat_list_pane.x + layout.chat_list_pane.width - border;
            let peers = p.with_peers_border(at, grip, layout);
            let height = layout.peers_pane.y + layout.peers_pane.height - border;
            let input = p.with_input_border(at, grip, layout);
            let rows = layout.input_pane.y + layout.input_pane.height - border;
            &&& 15 <= width <= 60 ==> list.chat_list_width == width
            &&& width < 15 ==> list.chat_list_width == 15
            &&& width > 60 ==> list.chat_list_width == 60
            &&& list == SplitPrefs { chat_list_width: list.chat_list_width, ..p }
            &&& 3 <= rows <= 20 ==> input.input_height == rows
            &&& rows < 3 ==> input.input_height == 3
            &&& rows > 20 ==> input.input_height == 20
            &&& input == SplitPrefs { input_height: input.input_height, ..p }
            &&& 5 <= height <= 30 ==> peers.peers_pane_height == height
            &&& height < 5 ==> peers.peers_pane_height == 5
            &&& height > 30 ==> peers.peers_pane_height == 30
            &&& peers == SplitPrefs { peers_pane_height: peers.peers_pane_height, ..p }
        }),
{
}

/// At first the list of chats is shown, and the panes have sizes that dragging
/// could give them.
pub proof fn law_panes_begin_within_bounds()
    ensures
        ({
            let p = SplitPrefs::initial();
            &&& p.chat_list_visible
            &&& p.chat_list_width == 32
            &&& p.peers_pane_height == 12
            &&& p.input_height == 5
            &&& 15 <= p.chat_list_width <= 60
            &&& 5 <= p.peers_pane_height <= 30
            &&& 3 <= p.input_height <= 20
        }),
{
}

// ── As a whole ───────────────────────────────────────────────────────────────

/// The help is shown and closed in turn.
#[verifier::rlimit(40)]
pub proof fn law_help_is_shown_and_closed(v: AppView)
    ensures
        ({
            let r = v.after(Action::Global(GlobalAction::Help));
            &&& r.app == AppView { ui: UiView { show_help: !v.ui.show_help, ..v.ui }, ..v }
            &&& r.effects.len() == 0
        }),
{
    reveal(AppView::after);
    reveal(AppView::global_step);
}

/// The pager opens at the current match of the search, and at none where there
/// is none; a task list opens in it, and closes it where it is open.
#[verifier::rlimit(40)]
pub proof fn law_pager_opens(v: AppView)
    ensures
        ({
            let open = v.after(Action::Global(GlobalAction::OpenPager));
            let tasks = v.after(Action::Global(GlobalAction::ToggleTaskList));
            &&& open.app == AppView { ui: UiView { pager_open: true, ..v.ui }, ..v }
            &&& v.ui.search.current < v.ui.search.matches.len() ==> open.effects == seq![
                EffectView::OpenPager(Some(v.ui.search.matches[v.ui.search.current as int])),
            ]
            &&& v.ui.search.current >= v.ui.search.matches.len() ==> open.effects == seq![
                EffectView::OpenPager(None),
            ]
            &&& tasks.app == AppView { ui: UiView { pager_open: !v.ui.pager_open, ..v.ui }, ..v }
            &&& v.ui.pager_open ==> tasks.effects.len() == 0
            &&& !v.ui.pager_open ==> tasks.effects.len() == 1 && tasks.effects[0] is OpenNotice
        }),
{
    reveal(AppView::after);
    reveal(AppView::global_step);
    let open = v.after(Action::Global(GlobalAction::OpenPager));
    if v.ui.search.current < v.ui.search.matches.len() {
        assert(open.effects =~= seq![
            EffectView::OpenPager(Some(v.ui.search.matches[v.ui.search.current as int])),
        ]);
    } else {
        assert(open.effects =~= seq![EffectView::OpenPager(None)]);
    }
}

/// The modes come one after the other: research, plan, agent and research again.
/// Where a node chooses the mode, it stays.
#[verifier::rlimit(40)]
pub proof fn law_modes_come_in_turn(v: AppView)
    ensures
        ({
            let r = v.after(Action::Global(GlobalAction::CycleMode));
            &&& v.is_node_proxy ==> r.app == v
            &&& !v.is_node_proxy ==> {
                &&& v.session.mode == AgentMode::Research ==> r.app.session.mode == AgentMode::Plan
                &&& v.session.mode == AgentMode::Plan ==> r.app.session.mode == AgentMode::Agent
                &&& v.session.mode == AgentMode::Agent ==> r.app.session.mode
                    == AgentMode::Research
            }
            &&& r.app == AppView {
                session: SessionStateView { mode: r.app.session.mode, ..v.session },
                ..v
            }
            &&& r.effects.len() == 0
        }),
{
    reveal(AppView::after);
    reveal(AppView::global_step);
}

/// A turn that is under way can be stopped, and what is queued waits then; while
/// there is none, nothing happens.
#[verifier::rlimit(40)]
pub proof fn law_turn_can_be_stopped(v: AppView)
    ensures
        ({
            let r = v.after(Action::Global(GlobalAction::InterruptAgent));
            &&& v.agent.busy ==> r.effects == seq![EffectView::Abort]
            &&& v.agent.busy ==> r.app == AppView {
                queue: QueueView { abort_pending: true, ..v.queue },
                ..v
            }
            &&& !v.agent.busy ==> r.effects.len() == 0 && r.app == v
        }),
{
    reveal(AppView::after);
    reveal(AppView::global_step);
    if v.agent.busy {
        assert(v.after(Action::Global(GlobalAction::InterruptAgent)).effects =~= seq![
            EffectView::Abort,
        ]);
    }
}

// ── The queue ────────────────────────────────────────────────────────────────

/// The selected message of the queue can be taken up for an edit: its text
/// stands in the box, with the cursor at the end. Nothing leaves the queue.
#[verifier::rlimit(40)]
pub proof fn law_selected_message_can_be_edited(v: AppView, i: usize)
    requires
        i < v.queue.messages.len(),
    ensures
        ({
            let text = v.queue.messages[i as int].content;
            let keyed = (AppView {
                queue: QueueView { selected: Some(i), ..v.queue },
                ..v
            }).after(Action::Queue(QueueAction::EditSelected));
            let clicked = v.after(Action::Queue(QueueAction::Click { index: i }));
            &&& keyed.app.edit == EditView {
                queue_index: Some(i),
                buffer: text,
                cursor: byte_len(text),
                original_text: Some(text),
                ..v.edit
            }
            &&& keyed.app.ui == UiView { focus: FocusPane::Input, ..v.ui }
            &&& keyed.app.queue == QueueView { selected: Some(i), ..v.queue }
            &&& keyed.app.chat == v.chat
            &&& keyed.app.input == v.input
            &&& keyed.effects.len() == 0
            &&& clicked.app.edit == keyed.app.edit
            &&& clicked.app.queue == keyed.app.queue
            &&& clicked.app.ui == keyed.app.ui
            &&& clicked.app.chat.segments == v.chat.segments
            &&& clicked.app.chat.selection_anchor is None
            &&& clicked.app.input == v.input
            &&& clicked.effects.len() == 0
        }),
{
    reveal(AppView::after);
    reveal(AppView::queue_step);
}

/// The selected message of the queue can be deleted: the others stay, in their
/// order. The one that comes next is selected, or else the last. An edit of the
/// deleted message ends with it, and the focus leaves a queue that got empty.
#[verifier::rlimit(40)]
pub proof fn law_selected_message_can_be_deleted(v: AppView, i: usize, k: int)
    requires
        v.queue.selected == Some(i),
        i < v.queue.messages.len() <= usize::MAX,
        0 <= k < v.queue.messages.len(),
    ensures
        ({
            let r = v.after(Action::Queue(QueueAction::Delete));
            let left = r.app.queue.messages;
            &&& left.len() == v.queue.messages.len() - 1
            &&& k < i ==> left[k] == v.queue.messages[k]
            &&& k > i ==> left[k - 1] == v.queue.messages[k]
            &&& left.len() == 0 ==> r.app.queue.selected is None
            &&& i < left.len() ==> r.app.queue.selected == Some(i)
            &&& 0 < left.len() <= i ==> r.app.queue.selected == Some((left.len() - 1) as usize)
            &&& r.app.queue.abort_pending == v.queue.abort_pending
            &&& v.edit.queue_index == Some(i) ==> r.app.edit == EditView::none()
            &&& v.edit.queue_index != Some(i) ==> r.app.edit == v.edit
            &&& left.len() == 0 && v.ui.focus == FocusPane::Queue ==> r.app.ui == UiView {
                focus: FocusPane::Input,
                ..v.ui
            }
            &&& !(left.len() == 0 && v.ui.focus == FocusPane::Queue) ==> r.app.ui == v.ui
            &&& r.app.chat == v.chat
            &&& r.app.input == v.input
            &&& r.effects.len() == 0
        }),
{
    reveal(AppView::after);
    reveal(AppView::queue_step);
}

/// The selected message of the queue can be sent while the agent is idle: it
/// leaves the queue and becomes the last message of the chat, and it goes out
/// with all messages that came before it. While the agent works, it waits.
#[verifier::rlimit(40)]
pub proof fn law_selected_message_can_be_sent(v: AppView, i: usize, k: int)
    requires
        v.queue.selected == Some(i),
        i < v.queue.messages.len() <= usize::MAX,
        0 <= k < v.queue.messages.len(),
    ensures
        ({
            let r = v.after(Action::Queue(QueueAction::SubmitSelected));
            let m = v.queue.messages[i as int];
            &&& v.agent.busy ==> r.app == v && r.effects.len() == 0
            &&& !v.agent.busy ==> {
                &&& r.effects == seq![
                    EffectView::SaveHistory,
                    EffectView::Rerender,
                    EffectView::ScrollToBottom,
                    EffectView::Resubmit(messages_in(v.chat.segments), m),
                ]
                &&& r.app.chat.segments == v.chat.segments.push(spoken(true, m.content))
                &&& r.app.chat.auto_scroll
                &&& r.app.queue.messages.len() == v.queue.messages.len() - 1
                &&& k < i ==> r.app.queue.messages[k] == v.queue.messages[k]
                &&& k > i ==> r.app.queue.messages[k - 1] == v.queue.messages[k]
                &&& !r.app.queue.abort_pending
                &&& r.app.input == v.input
            }
        }),
{
    reveal(AppView::after);
    reveal(AppView::queue_step);
    law_every_message_is_sent_again(v.chat.segments);
    let r = v.after(Action::Queue(QueueAction::SubmitSelected));
    if !v.agent.busy {
        assert(r.effects =~= seq![
            EffectView::SaveHistory,
            EffectView::Rerender,
            EffectView::ScrollToBottom,
            EffectView::Resubmit(messages_in(v.chat.segments), v.queue.messages[i as int]),
        ]);
    }
}

/// Without a selected message there is nothing to edit, to delete or to send.
#[verifier::rlimit(40)]
pub proof fn law_nothing_selected_nothing_done(v: AppView, a: QueueAction)
    requires
        v.queue.selected is None,
        a is EditSelected || a is Delete || a is SubmitSelected || a is ForceSubmit,
    ensures
        v.after(Action::Queue(a)).app == v,
        v.after(Action::Queue(a)).effects.len() == 0,
{
    reveal(AppView::after);
    reveal(AppView::queue_step);
}

/// The selection of the queue moves by a row, and stops at its ends; what is
/// forced out is the selected message.
#[verifier::rlimit(40)]
pub proof fn law_queue_keys_move_the_selection(v: AppView, i: usize)
    requires
        v.queue.selected == Some(i),
        i < v.queue.messages.len() <= usize::MAX,
    ensures
        ({
            let up = v.after(Action::Queue(QueueAction::NavUp));
            let down = v.after(Action::Queue(QueueAction::NavDown));
            let forced = v.after(Action::Queue(QueueAction::ForceSubmit));
            &&& up.app == AppView {
                queue: QueueView {
                    selected: Some(
                        if i > 0 {
                            (i - 1) as usize
                        } else {
                            0usize
                        },
                    ),
                    ..v.queue
                },
                ..v
            }
            &&& down.app == AppView {
                queue: QueueView {
                    selected: Some(
                        if i + 1 < v.queue.messages.len() {
                            (i + 1) as usize
                        } else {
                            i
                        },
                    ),
                    ..v.queue
                },
                ..v
            }
            &&& up.effects.len() == 0
            &&& down.effects.len() == 0
            &&& forced.app == v
            &&& forced.effects == seq![EffectView::ForceSubmit(i)]
        }),
{
    reveal(AppView::after);
    reveal(AppView::queue_step);
    assert(v.after(Action::Queue(QueueAction::ForceSubmit)).effects =~= seq![
        EffectView::ForceSubmit(i),
    ]);
}

// ── The list of chats ────────────────────────────────────────────────────────

/// The chat of the selected row is shown, unless it is shown already; the focus
/// goes to the input either way.
#[verifier::rlimit(40)]
pub proof fn law_selected_chat_is_shown(v: AppView)
    requires
        v.sessions.list_selected < v.sessions.rows().len(),
    ensures
        ({
            let id = v.sessions.rows()[v.sessions.list_selected as int].0;
            let r = v.after(Action::List(ListAction::Activate));
            &&& r.app == AppView { ui: UiView { focus: FocusPane::Input, ..v.ui }, ..v }
            &&& id != v.sessions.active_id ==> r.effects == seq![EffectView::SwitchSession(id)]
            &&& id == v.sessions.active_id ==> r.effects.len() == 0
        }),
{
    reveal(AppView::after);
    reveal(AppView::list_step);
    let id = v.sessions.rows()[v.sessions.list_selected as int].0;
    if id != v.sessions.active_id {
        assert(v.after(Action::List(ListAction::Activate)).effects =~= seq![
            EffectView::SwitchSession(id),
        ]);
    }
}

/// A list in a pane begins so that the selected entry can be seen: at the first
/// while the selected one fits, else so that it comes last. Two rows are the
/// border, and one more is a hint where the pane has the focus.
pub proof fn law_list_begins_at_the_top(pane: Rect, focused: bool, selected: int)
    requires
        pane.height >= 4,
        selected >= 0,
    ensures
        ({
            let rows: int = if focused {
                pane.height - 3
            } else {
                pane.height - 2
            };
            &&& selected < rows ==> list_scroll(pane, focused, selected) == 0
            &&& selected >= rows ==> list_scroll(pane, focused, selected) + rows == selected + 1
        }),
{
}

/// A click on a row of the list shows the chat that was drawn there, or the last
/// one where the click was below all of them.
#[verifier::rlimit(40)]
pub proof fn law_clicked_chat_is_shown(v: AppView, row: usize)
    requires
        0 < v.sessions.rows().len() <= usize::MAX,
        v.layout.chat_list_pane.height >= 4,
        row + v.sessions.list_selected + 1 <= usize::MAX,
    ensures
        ({
            let n = v.sessions.rows().len() as int;
            let first = list_scroll(
                v.layout.chat_list_pane,
                v.ui.focus == FocusPane::ChatList,
                v.sessions.list_selected as int,
            );
            let r = v.after(Action::List(ListAction::Click { inner_row: row }));
            let at = r.app.sessions.list_selected;
            let id = v.sessions.rows()[at as int].0;
            &&& at < n
            &&& row + first < n ==> at == row + first
            &&& row + first >= n ==> at == n - 1
            &&& r.app == AppView {
                sessions: ManagerView { list_selected: at, ..v.sessions },
                ui: UiView { focus: FocusPane::Input, ..v.ui },
                ..v
            }
            &&& id != v.sessions.active_id ==> r.effects == seq![EffectView::SwitchSession(id)]
            &&& id == v.sessions.active_id ==> r.effects.len() == 0
        }),
{
    reveal(AppView::after);
    reveal(AppView::list_step);
    let r = v.after(Action::List(ListAction::Click { inner_row: row }));
    let id = v.sessions.rows()[r.app.sessions.list_selected as int].0;
    if id != v.sessions.active_id {
        assert(r.effects =~= seq![EffectView::SwitchSession(id)]);
    }
}

/// Before the chat of the selected row is deleted, there is a question, with the
/// button that deletes it in focus. Nothing is deleted yet.
#[verifier::rlimit(40)]
pub proof fn law_deletion_is_asked_for(v: AppView)
    requires
        v.sessions.list_selected < v.sessions.rows().len(),
    ensures
        ({
            let id = v.sessions.rows()[v.sessions.list_selected as int].0;
            let r = v.after(Action::List(ListAction::DeleteChat));
            &&& r.effects.len() == 0
            &&& r.app == AppView {
                ui: UiView { confirm_modal: r.app.ui.confirm_modal, ..v.ui },
                ..v
            }
            &&& r.app.ui.confirm_modal matches Some(m) && m.action == Some(
                ConfirmedAction::DeleteChat(id),
            ) && m.focused_button == 0 && m.labels is Some
        }),
{
    reveal(AppView::after);
    reveal(AppView::list_step);
}

/// An archived chat is marked as such and its file is moved; all other chats
/// stay as they are.
#[verifier::rlimit(40)]
pub proof fn law_selected_chat_is_archived(v: AppView, other: SessionId)
    requires
        v.sessions.list_selected < v.sessions.rows().len(),
    ensures
        ({
            let id = v.sessions.rows()[v.sessions.list_selected as int].0;
            let r = v.after(Action::List(ListAction::ArchiveChat));
            &&& v.sessions.has(id) ==> {
                &&& r.app.sessions.has(id)
                &&& r.app.sessions.entry(id) == EntryView {
                    status: ChatStatus::Archived,
                    ..v.sessions.entry(id)
                }
                &&& v.sessions.entry(id).yaml_path is Some ==> r.effects == seq![
                    EffectView::ArchiveFile(v.sessions.entry(id).yaml_path->0),
                ]
                &&& v.sessions.entry(id).yaml_path is None ==> r.effects.len() == 0
            }
            &&& other != id ==> r.app.sessions.has(other) == v.sessions.has(other)
            &&& other != id && v.sessions.has(other) ==> r.app.sessions.entry(other)
                == v.sessions.entry(other)
            &&& r.app.sessions.active_id == v.sessions.active_id
            &&& r.app.chat == v.chat
            &&& r.app.input == v.input
        }),
{
    reveal(AppView::after);
    reveal(AppView::list_step);
    let id = v.sessions.rows()[v.sessions.list_selected as int].0;
    let r = v.after(Action::List(ListAction::ArchiveChat));
    if v.sessions.has(id) {
        lemma_entry_id(v.sessions, id);
        lemma_with(
            v.sessions,
            EntryView { status: ChatStatus::Archived, ..v.sessions.entry(id) },
            other,
        );
        if v.sessions.entry(id).yaml_path is Some {
            assert(r.effects =~= seq![
                EffectView::ArchiveFile(v.sessions.entry(id).yaml_path->0),
            ]);
        }
    }
}

/// A new chat is begun from the list, and its selection moves as its rows do.
#[verifier::rlimit(40)]
pub proof fn law_list_keys(v: AppView)
    ensures
        v.after(Action::List(ListAction::NewChat)).app == v,
        v.after(Action::List(ListAction::NewChat)).effects == seq![EffectView::NewSession],
        v.after(Action::List(ListAction::SelectNext)).app == (AppView {
            sessions: v.sessions.row_down(),
            ..v
        }),
        v.after(Action::List(ListAction::SelectPrev)).app == (AppView {
            sessions: v.sessions.row_up(),
            ..v
        }),
        v.after(Action::List(ListAction::SelectNext)).effects.len() == 0,
        v.after(Action::List(ListAction::SelectPrev)).effects.len() == 0,
{
    reveal(AppView::after);
    reveal(AppView::list_step);
    assert(v.after(Action::List(ListAction::NewChat)).effects =~= seq![EffectView::NewSession]);
}

// ── The team ─────────────────────────────────────────────────────────────────

/// A selection goes round: down from the last to the first and up from the first
/// to the last; without entries it stays.
pub proof fn law_selections_go_round(at: Option<usize>, len: usize)
    ensures
        len == 0 ==> next_of(at, 0) == at && prev_of(at, 0) == at,
        len > 0 ==> {
            &&& next_of(at, len as int) matches Some(i) && i < len
            &&& prev_of(at, len as int) matches Some(i) && i < len
            &&& at is None ==> next_of(at, len as int) == Some(0usize)
            &&& at is None ==> prev_of(at, len as int) == Some((len - 1) as usize)
            &&& at matches Some(i) ==> (i + 1 < len ==> next_of(at, len as int) == Some(
                (i + 1) as usize,
            ))
            &&& at == Some((len - 1) as usize) ==> next_of(at, len as int) == Some(0usize)
            &&& at matches Some(i) ==> (0 < i < len ==> prev_of(at, len as int) == Some(
                (i - 1) as usize,
            ))
            &&& at == Some(0usize) ==> prev_of(at, len as int) == Some((len - 1) as usize)
        },
{
}

/// In the picker the selection goes through the members of the team, and the
/// picked one is shown; then the picker closes.
#[verifier::rlimit(40)]
pub proof fn law_member_is_picked(v: AppView, i: usize)
    requires
        v.ui.show_team_picker,
        v.ui.picked == Some(i),
        i < v.ui.team.len() <= usize::MAX,
    ensures
        ({
            let next = v.after(Action::Team(TeamAction::PickerNext));
            let prev = v.after(Action::Team(TeamAction::PickerPrev));
            let picked = v.after(Action::Team(TeamAction::PickerSelect));
            let closed = v.after(Action::Team(TeamAction::PickerClose));
            &&& i + 1 < v.ui.team.len() ==> next.app.ui.picked == Some((i + 1) as usize)
            &&& i + 1 == v.ui.team.len() ==> next.app.ui.picked == Some(0usize)
            &&& i > 0 ==> prev.app.ui.picked == Some((i - 1) as usize)
            &&& i == 0 ==> prev.app.ui.picked == Some((v.ui.team.len() - 1) as usize)
            &&& next.app == AppView { ui: UiView { picked: next.app.ui.picked, ..v.ui }, ..v }
            &&& prev.app == AppView { ui: UiView { picked: prev.app.ui.picked, ..v.ui }, ..v }
            &&& picked.app == AppView {
                ui: UiView {
                    active_session_peer: Some(v.ui.team[i as int].peer_id),
                    show_team_picker: false,
                    ..v.ui
                },
                ..v
            }
            &&& closed.app == AppView { ui: UiView { show_team_picker: false, ..v.ui }, ..v }
            &&& next.effects.len() == 0
            &&& prev.effects.len() == 0
            &&& picked.effects.len() == 0
            &&& closed.effects.len() == 0
        }),
{
    reveal(AppView::after);
    reveal(AppView::team_step);
}

/// The picker opens and closes in turn, and closes the help. It shows the team;
/// without one it shows the user alone, in the current mode.
#[verifier::rlimit(40)]
pub proof fn law_picker_offers_the_team(v: AppView)
    ensures
        ({
            let r = v.after(Action::Team(TeamAction::OpenPicker));
            &&& r.app.ui.show_team_picker == !v.ui.show_team_picker
            &&& !r.app.ui.show_help
            &&& v.ui.team.len() > 0 ==> r.app.ui.team == v.ui.team
            &&& v.ui.team.len() == 0 ==> r.app.ui.team.len() == 1 && r.app.ui.team[0].is_local
                && r.app.ui.team[0].name == "local"@ && r.app.ui.team[0].role == (
            match v.session.mode {
                AgentMode::Research => "research"@,
                AgentMode::Plan => "plan"@,
                AgentMode::Agent => "agent"@,
            })
            &&& r.app == AppView {
                ui: UiView {
                    show_help: false,
                    team: r.app.ui.team,
                    show_team_picker: r.app.ui.show_team_picker,
                    ..v.ui
                },
                ..v
            }
            &&& r.effects.len() == 0
        }),
{
    reveal(AppView::after);
    reveal(AppView::team_step);
}

proof fn lemma_member(team: Seq<TeamEntryView>, peer: Seq<char>, i: int, k: int)
    requires
        0 <= i <= k < team.len(),
        team[k].peer_id == peer,
        forall|n: int| i <= n < k ==> (#[trigger] team[n]).peer_id != peer,
    ensures
        member_with(team, peer, i) == Some(k),
    decreases k - i,
{
    if i < k {
        lemma_member(team, peer, i + 1, k);
    }
}

/// From the session of one member the views of the team go to the next and to
/// the one before, and round at the ends. The session of a local member is the
/// local one.
#[verifier::rlimit(40)]
pub proof fn law_teammates_are_shown_in_turn(v: AppView, k: int)
    requires
        0 <= k < v.ui.team.len(),
        v.ui.active_session_peer == Some(v.ui.team[k].peer_id),
        forall|n: int| 0 <= n < k ==> (#[trigger] v.ui.team[n]).peer_id != v.ui.team[k].peer_id,
    ensures
        ({
            let n = v.ui.team.len() as int;
            let ahead = v.ui.team[if k + 1 < n {
                k + 1
            } else {
                0
            }];
            let behind = v.ui.team[if k > 0 {
                k - 1
            } else {
                n - 1
            }];
            let next = v.after(Action::Team(TeamAction::CycleForward));
            let prev = v.after(Action::Team(TeamAction::CycleBackward));
            &&& ahead.is_local ==> next.app.ui.active_session_peer is None
            &&& !ahead.is_local ==> next.app.ui.active_session_peer == Some(ahead.peer_id)
            &&& behind.is_local ==> prev.app.ui.active_session_peer is None
            &&& !behind.is_local ==> prev.app.ui.active_session_peer == Some(behind.peer_id)
            &&& next.app == AppView {
                ui: UiView { active_session_peer: next.app.ui.active_session_peer, ..v.ui },
                ..v
            }
            &&& prev.app == AppView {
                ui: UiView { active_session_peer: prev.app.ui.active_session_peer, ..v.ui },
                ..v
            }
        }),
{
    reveal(AppView::after);
    reveal(AppView::team_step);
    lemma_member(v.ui.team, v.ui.team[k].peer_id, 0, k);
}

// ── Notifications ────────────────────────────────────────────────────────────

/// A notification is shown for three seconds: those that are not older stay, in
/// their order, and the others go.
pub proof fn law_notifications_stay_three_seconds(toasts: Seq<ToastView>, now: u64)
    ensures
        fresh(toasts, now) == toasts.filter(|t: ToastView| now - t.born <= 3000),
    decreases toasts.len(),
{
    reveal(Seq::filter);
    let young = |t: ToastView| now - t.born <= 3000;
    if toasts.len() > 0 {
        law_notifications_stay_three_seconds(toasts.drop_last(), now);
        assert(toasts.filter(young) == {
            let sub = toasts.drop_last().filter(young);
            if young(toasts.last()) {
                sub.push(toasts.last())
            } else {
                sub
            }
        });
    } else {
        assert(toasts.filter(young) =~= seq![]);
    }
}

/// A notification comes behind those that are shown, at the time that it is.
/// There are at most five; the oldest makes room.
pub proof fn law_notification_comes_last(ui: UiView, message: Seq<char>, color: Color, born: u64)
    ensures
        ({
            let r = ui.notified(ToastView { message, color, born });
            let new = ToastView { message, color, born: ui.clock_ms };
            &&& ui.toasts.len() < 5 ==> r.toasts == ui.toasts.push(new)
            &&& ui.toasts.len() >= 5 ==> r.toasts == ui.toasts.subrange(
                1,
                ui.toasts.len() as int,
            ).push(new)
            &&& r == UiView { toasts: r.toasts, ..ui }
        }),
{
    if ui.toasts.len() >= 5 {
        assert(ui.toasts.skip(1) =~= ui.toasts.subrange(1, ui.toasts.len() as int));
    }
}

// ── Completions ──────────────────────────────────────────────────────────────

/// The completions that are offered are those that were found, with the earlier
/// selection as far as they go; without any, nothing is offered.
pub proof fn law_found_completions_are_offered(
    items: Seq<CompletionItemView>,
    before: Option<OverlayView>,
)
    requires
        items.len() <= usize::MAX,
    ensures
        items.len() == 0 ==> offered(items, before) is None,
        items.len() > 0 ==> {
            &&& offered(items, before) is Some
            &&& offered(items, before)->0.items == items
            &&& before is None ==> offered(items, before)->0.selected == 0
            &&& before matches Some(o) ==> (if o.selected < items.len() {
                offered(items, before)->0.selected == o.selected
            } else {
                offered(items, before)->0.selected == items.len() - 1
            })
        },
{
}

} // verus!
