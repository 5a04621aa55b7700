//! Tests of what the steps of the front end ask for, for callers that do not
//! know it already.

use vstd::prelude::*;

use crate::app::agent_conn::{input_budget, AgentConn, DEFAULT_INPUT_BUDGET};
use crate::app::agent_event::AgentEvent;
use crate::app::chat_state::{has_index, leaving, levels_can_move, ChatState};
use crate::app::dispatch::{Action, ChatAction, InputAction, ListAction};
use crate::app::editing::is_on_boundary;
use crate::app::front::App;
use crate::app::hit_test::has_margin;
use crate::app::layout_cache::{drag_fits, LayoutCache, Rect, ResizeDrag};
use crate::app::term_mouse::{can_follow, MouseEvent, MouseKind};
use crate::app::ui_state::ConfirmedAction;
use crate::input::{KeyCode, KeyEvent};

verus! {

impl Rect {
    /// Whether both far edges are coordinates.
    pub fn is_in_range(&self) -> (r: bool)
        ensures
            r == self.in_range(),
    {
        self.x as u32 + self.width as u32 <= u16::MAX as u32 && self.y as u32 + self.height as u32
            <= u16::MAX as u32
    }
}

impl LayoutCache {
    /// Whether every pane leaves room for the places next to it.
    pub fn leaves_margin(&self) -> (r: bool)
        ensures
            r == has_margin(*self),
    {
        self.chat_pane.is_in_range() && self.input_pane.is_in_range()
            && self.queue_pane.is_in_range() && self.chat_list_pane.is_in_range()
            && self.peers_pane.is_in_range() && self.chat_list_pane.x < u16::MAX
            && self.chat_list_pane.y < u16::MAX && self.peers_pane.y < u16::MAX
            && self.queue_pane.y < u16::MAX && self.chat_pane.y < u16::MAX
    }
}

impl ChatState {
    /// Whether the levels behind a segment can move up when it leaves.
    pub fn can_remove_segment(&self, idx: usize) -> (r: bool)
        ensures
            r == levels_can_move(self@.expand_level, leaving(self@.segments, idx)),
    {
        let removed = self.leaving_with(idx);
        let n: usize = removed.len();
        if n == 0 {
            return true;
        }
        let mut i: usize = 0;
        while i < self.expand_level.len()
            invariant
                removed@ == leaving(self@.segments, idx),
                n == removed@.len(),
                n > 0,
                i <= self.expand_level@.len(),
                forall|k: int|
                    0 <= k < i && !removed@.contains(self@.expand_level[k].0) && (
                    #[trigger] self@.expand_level[k]).0 > removed@[0] ==> self@.expand_level[k].0
                        >= n,
            decreases self.expand_level.len() - i,
        {
            let at: usize = self.expand_level[i].0;
            assert(self@.expand_level[i as int].0 == at);
            if at > removed[0] && at < n && !has_index(&removed, at) {
                return false;
            }
            i += 1;
        }
        true
    }
}

fn fits(pos: u16, anchor: i16) -> (r: bool)
    ensures
        r == drag_fits(pos, anchor),
{
    let signed: i32 = if pos < 0x8000 {
        pos as i32
    } else {
        pos as i32 - 0x10000
    };
    let border: i32 = signed - anchor as i32;
    -0x8000 <= border && border <= 0x7fff
}

/// Whether a border can follow a drag.
fn follows(layout: &LayoutCache, drag: ResizeDrag, m: MouseEvent) -> (r: bool)
    ensures
        r == can_follow(*layout, drag, m),
{
    match drag {
        ResizeDrag::ChatListWidth { anchor_offset } => fits(m.column, anchor_offset)
            && layout.chat_list_pane.is_in_range(),
        ResizeDrag::PeersSplit { anchor_offset } => fits(m.row, anchor_offset)
            && layout.peers_pane.is_in_range(),
        ResizeDrag::InputHeight { anchor_offset } => fits(m.row, anchor_offset)
            && layout.input_pane.is_in_range(),
    }
}

fn confirms(k: KeyCode) -> (r: bool)
    ensures
        r == (k is Enter || k == KeyCode::Char(' ')),
{
    match k {
        KeyCode::Enter | KeyCode::Char(' ') => true,
        _ => false,
    }
}

impl AgentConn {
    /// Whether the tokens of a call can be counted.
    pub fn accepts_usage(
        &self,
        input: u32,
        output: u32,
        cache_read: u32,
        cache_write: u32,
        max_tokens: usize,
        max_output_tokens: usize,
    ) -> (r: bool)
        ensures
            r == self@.can_count(
                input,
                output,
                cache_read,
                cache_write,
                max_tokens,
                max_output_tokens,
            ),
    {
        let total: u64 = input as u64 + cache_read as u64 + cache_write as u64;
        let budget: u64 = if max_output_tokens > 0 {
            max_tokens.saturating_sub(max_output_tokens) as u64
        } else if max_tokens > 0 {
            max_tokens as u64
        } else {
            DEFAULT_INPUT_BUDGET as u64
        };
        assert(budget % 0x1_0000_0000 == input_budget(max_tokens, max_output_tokens));
        total * 100 <= u32::MAX as u64 && (total == 0 || budget % 0x1_0000_0000 > 0)
            && output <= u32::MAX - self.output_tokens
    }
}

impl App {
    /// Whether an action can be taken in this state.
    pub fn accepts(&self, action: Action) -> (r: bool)
        ensures
            r == self@.takes(action),
    {
        match action {
            Action::List(ListAction::Click { inner_row }) => {
                self.sessions.list_selected < usize::MAX && inner_row <= usize::MAX
                    - self.chat_list_scroll_offset()
            },
            Action::Chat(a) => self.accepts_in_chat(a),
            Action::Input(a) => self.accepts_in_input(a),
            _ => true,
        }
    }

    fn accepts_in_input(&self, a: InputAction) -> (r: bool)
        ensures
            r == self@.takes_input(a),
    {
        let shown = match self.input.history_idx {
            Some(i) => i < self.input.history.len(),
            None => true,
        };
        match a {
            InputAction::Edit(_) => {
                if self.edit.active() {
                    is_on_boundary(self.edit.buffer.as_str(), self.edit.cursor)
                } else {
                    is_on_boundary(self.input.buffer.as_str(), self.input.cursor) && shown
                }
            },
            InputAction::HistoryUp => shown,
            InputAction::CompletionNext | InputAction::CompletionSelect => {
                is_on_boundary(self.input.buffer.as_str(), self.input.cursor)
            },
            _ => true,
        }
    }

    fn accepts_in_chat(&self, a: ChatAction) -> (r: bool)
        ensures
            r == self@.takes_chat(a),
    {
        match a {
            ChatAction::RemoveChatSegment => match self.chat.focused_segment {
                Some(i) => self.chat.can_remove_segment(i),
                None => true,
            },
            ChatAction::SelectionExtend { mouse_row, .. } => {
                let cp = self.layout.chat_pane;
                let top: u32 = cp.y as u32 + 1;
                let bottom: u32 = top + cp.height.saturating_sub(2) as u32;
                let row: u32 = mouse_row as u32;
                let scrolls = top + 2 <= row && bottom.saturating_sub(2) <= row;
                top + 2 <= u16::MAX as u32 && bottom <= u16::MAX as u32 && (!scrolls
                    || self.chat.scroll_offset < u16::MAX)
            },
            ChatAction::ScrollDown => self.nvim.bridge || self.chat.scroll_offset < u16::MAX,
            ChatAction::ScrollPageDown => self.nvim.bridge || self.chat.scroll_offset as u32 + (
            self.layout.chat_height / 2) as u32 <= u16::MAX as u32,
            _ => true,
        }
    }

    fn accepts_mapping(&self, m: MouseEvent) -> (r: bool)
        ensures
            r == (self@.can_map(m) && (self@.mouse_action(m) matches Some(a) ==> self@.takes(a))),
    {
        if !self.ui.pager_open {
            if !self.layout.leaves_margin() {
                return false;
            }
            if let MouseKind::DragLeft = m.kind {
                if self.nvim.disabled && self.chat.selection_anchor.is_some()
                    && self.layout.chat_pane.height < 3 {
                    return false;
                }
            }
        }
        match self.mouse_to_action(m) {
            Some(a) => self.accepts(a),
            None => true,
        }
    }

    /// Whether an event of the mouse can be taken in this state.
    pub fn accepts_mouse(&self, m: MouseEvent) -> (r: bool)
        ensures
            r == self@.takes_mouse(m),
    {
        let overlay = self.ui.inspector_open || self.ui.pager_open;
        match m.kind {
            MouseKind::ScrollUp | MouseKind::ScrollDown => overlay || self.accepts_mapping(m),
            MouseKind::DownLeft => self.layout.leaves_margin() && (self.grabs_border(m)
                || self.accepts_mapping(m)),
            MouseKind::DragLeft => match self.layout.resize_drag {
                Some(drag) => follows(&self.layout, drag, m),
                None => self.accepts_mapping(m),
            },
            MouseKind::UpLeft => self.layout.resize_drag.is_some() || self.accepts_mapping(m),
            MouseKind::Other => self.accepts_mapping(m),
        }
    }

    /// Whether the tokens of a report can be counted.
    pub fn accepts_event(&self, event: &AgentEvent) -> (r: bool)
        ensures
            r == self@.can_take(event@),
    {
        match event {
            AgentEvent::TokenUsage {
                input,
                output_tokens,
                cache_read,
                cache_write,
                max_tokens,
                max_output_tokens,
                ..
            } => self.agent.accepts_usage(
                *input,
                *output_tokens,
                *cache_read,
                *cache_write,
                *max_tokens,
                *max_output_tokens,
            ),
            AgentEvent::TurnComplete | AgentEvent::Aborted { .. } => {
                self.agent.total_output_tokens <= u32::MAX - self.agent.output_tokens
            },
            _ => true,
        }
    }

    /// Whether what a key asks of the question can be done.
    pub fn accepts_answer(&self, k: KeyEvent) -> (r: bool)
        ensures
            r == self@.can_answer(k),
    {
        match &self.ui.confirm_modal {
            Some(m) => match m.action {
                Some(ConfirmedAction::RemoveSegment(i)) => {
                    !confirms(k.code) || m.focused_button != 0 || self.chat.can_remove_segment(i)
                },
                _ => true,
            },
            None => true,
        }
    }
}

} // verus!
