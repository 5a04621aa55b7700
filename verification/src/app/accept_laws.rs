//! What can be taken in: which actions, clicks and reports are never turned away,
//! and on what the others depend; and what the state of the agent is in between.

use vstd::prelude::*;

use crate::app::agent_conn::AgentView;
use crate::app::agent_event::EventView;
use crate::app::dispatch::{Action, ChatAction, InputAction, ListAction};
use crate::app::editing::{on_boundary, InputEdit};
use crate::app::front::AppView;
use crate::app::hit_test::has_margin;
use crate::app::session_tree::ManagerView;
use crate::app::steps_panes::list_scroll;
use crate::app::term_mouse::MouseEvent;
use crate::app::ui_state::{FocusPane, UiView};

verus! {

/// Steps between the panes, in the queue, in the team and of the search are
/// always taken, and so are those that concern the whole front end.
pub proof fn law_most_actions_are_taken(v: AppView, a: Action)
    ensures
        a is NavPrefix || a is Pane || a is Global || a is Team || a is Queue || a is Search
            ==> v.takes(a),
        a matches Action::List(l) ==> (!(l is Click) ==> v.takes(a)),
        a matches Action::Chat(c) ==> (!(c is RemoveChatSegment) && !(c is SelectionExtend) && !(
        c is ScrollDown) && !(c is ScrollPageDown) ==> v.takes(a)),
        a matches Action::Input(i) ==> (!(i is Edit) && !(i is HistoryUp) && !(i is CompletionNext)
            && !(i is CompletionSelect) ==> v.takes(a)),
{
}

/// A click on the list is taken where its row can be counted; the chat scrolls
/// down as long as its lines can be counted; and what is typed is taken where
/// the cursor stands between two characters.
pub proof fn law_counted_actions_are_taken(v: AppView, row: usize, op: InputEdit)
    ensures
        ({
            let first = list_scroll(
                v.layout.chat_list_pane,
                v.ui.focus == FocusPane::ChatList,
                v.sessions.list_selected as int,
            );
            &&& v.sessions.list_selected < usize::MAX && row + first <= usize::MAX ==> v.takes(
                Action::List(ListAction::Click { inner_row: row }),
            )
            &&& v.chat.scroll_offset < u16::MAX ==> v.takes(Action::Chat(ChatAction::ScrollDown))
            &&& v.chat.scroll_offset + v.layout.chat_height / 2 <= u16::MAX ==> v.takes(
                Action::Chat(ChatAction::ScrollPageDown),
            )
            &&& v.nvim.bridge ==> v.takes(Action::Chat(ChatAction::ScrollDown))
            &&& v.chat.expand_level.len() == 0 ==> v.takes(
                Action::Chat(ChatAction::RemoveChatSegment),
            )
            &&& v.edit.message_index is Some && on_boundary(v.edit.buffer, v.edit.cursor)
                ==> v.takes(Action::Input(InputAction::Edit(op)))
            &&& !v.edit.is_active() && on_boundary(v.input.buffer, v.input.cursor)
                && v.input.history_idx is None ==> v.takes(Action::Input(InputAction::Edit(op)))
            &&& v.input.history_idx is None ==> v.takes(Action::Input(InputAction::HistoryUp))
            &&& on_boundary(v.input.buffer, v.input.cursor) ==> v.takes(
                Action::Input(InputAction::CompletionSelect),
            )
        }),
{
}

/// The wheel over an overlay is always taken, and on panes within the
/// coordinates so are the wheel over the input and letting go of a border.
pub proof fn law_mouse_is_taken(v: AppView, m: MouseEvent)
    ensures
        (m.kind is ScrollUp || m.kind is ScrollDown) && (v.ui.pager_open || v.ui.inspector_open)
            ==> v.takes_mouse(m),
        has_margin(v.layout) && m.kind is Other ==> v.takes_mouse(m),
        has_margin(v.layout) && m.kind is UpLeft ==> v.takes_mouse(m),
        has_margin(v.layout) && m.kind is ScrollUp ==> v.takes_mouse(m),
        has_margin(v.layout) && m.kind is ScrollDown && v.chat.scroll_offset < u16::MAX
            ==> v.takes_mouse(m),
{
}

/// Every report of the agent is taken but those of tokens that cannot be
/// counted.
pub proof fn law_reports_are_taken(v: AppView, e: EventView)
    ensures
        !(e is TokenUsage) && !(e is TurnComplete) && !(e is Aborted) ==> v.can_take(e),
        v.agent.total_output_tokens + v.agent.output_tokens <= u32::MAX && (e is TurnComplete
            || e is Aborted) ==> v.can_take(e),
        e matches EventView::TokenUsage {
            input,
            output_tokens,
            cache_read,
            cache_write,
            max_tokens,
            max_output_tokens,
            ..
        } ==> ((input + cache_read + cache_write) * 100 <= u32::MAX && v.agent.output_tokens
            + output_tokens <= u32::MAX && max_output_tokens == 0 && 0 < max_tokens <= u32::MAX
            ==> v.can_take(e)),
{
    match e {
        EventView::TokenUsage { max_tokens, max_output_tokens, .. } => {
            if max_output_tokens == 0 && 0 < max_tokens <= u32::MAX {
                vstd::arithmetic::div_mod::lemma_small_mod(max_tokens as nat, 0x1_0000_0000nat);
            }
        },
        _ => {},
    }
}

/// Once a request is handed over the agent works on it, where one is connected;
/// at rest it works on nothing and runs no tool. Nothing else changes.
pub proof fn law_agent_works_and_rests(v: AppView)
    ensures
        v.agent.connected ==> v.handed_over().agent.busy,
        !v.agent.connected ==> v.handed_over() == v,
        v.handed_over() == (AppView {
            agent: AgentView { busy: v.handed_over().agent.busy, ..v.agent },
            ..v
        }),
        !v.at_rest().agent.busy,
        v.at_rest().agent.current_tool is None,
        v.at_rest() == (AppView {
            agent: AgentView { busy: false, current_tool: None, ..v.agent },
            ..v
        }),
{
}

/// The animations go on frame by frame, and begin anew at the end.
pub proof fn law_animations_go_round(v: AppView)
    ensures
        v.agent.anim_frame < 255 ==> v.ticked().agent.anim_frame == v.agent.anim_frame + 1,
        v.agent.anim_frame == 255 ==> v.ticked().agent.anim_frame == 0,
        v.ticked() == (AppView {
            agent: AgentView { anim_frame: v.ticked().agent.anim_frame, ..v.agent },
            ..v
        }),
{
}

/// A question of the agent opens with the keyboard on it, and all else stays.
pub proof fn law_question_opens(v: AppView)
    ensures
        v.asked().ui.question_open,
        v.asked() == (AppView {
            ui: UiView { question_open: true, focus: FocusPane::Input, ..v.ui },
            ..v
        }),
{
}

/// A busy agent of any session but the active one works in the background.
pub proof fn law_background_work_is_noticed(m: ManagerView, i: int)
    requires
        0 <= i < m.entries.len(),
    ensures
        m.entries[i].busy && m.entries[i].id != m.active_id ==> m.works_behind(),
        (forall|k: int|
            0 <= k < m.entries.len() ==> !(#[trigger] m.entries[k]).busy || m.entries[k].id
                == m.active_id) ==> !m.works_behind(),
{
}

} // verus!
