//! The mouse: what lies under it, dragging the borders of the panes, and the
//! actions that clicks and the wheel are.

use vstd::prelude::*;

use crate::app::chat_state::minus;
use crate::app::dispatch::{
    doing, still, Action, ChatAction, InputAction, ListAction, QueueAction,
};
use crate::app::front::{
    add_effect, effect_views, no_effects, one, App, AppView, Effect, EffectView, StepView,
};
use crate::app::hit_test::{area_at, has_margin, hit_test, HitArea};
use crate::app::layout_cache::{drag_fits, LayoutCache, ResizeDrag, SplitPrefs};

verus! {

/// What the mouse did.
#[derive(Clone, Copy, Debug, PartialEq, Eq, Structural)]
pub enum MouseKind {
    /// The left button went down.
    DownLeft,
    /// The mouse moved with the left button down.
    DragLeft,
    /// The left button went up.
    UpLeft,
    ScrollUp,
    ScrollDown,
    /// Anything else.
    Other,
}

/// An event of the mouse, with its place.
#[derive(Clone, Copy, Debug, PartialEq, Eq, Structural)]
pub struct MouseEvent {
    pub kind: MouseKind,
    pub column: u16,
    pub row: u16,
}

// ── Actions ──────────────────────────────────────────────────────────────────

impl AppView {
    /// What lies under the mouse.
    pub open spec fn area_under(self, m: MouseEvent) -> HitArea {
        area_at(
            self.layout,
            m.column as int,
            m.row as int,
            self.chat.scroll_offset as int,
            self.chat.lines.len() as int,
            self.queue.messages.len() as int,
        )
    }

    /// The line of the chat that a selection is drawn to: the one under the
    /// mouse, or the nearest that can be seen.
    pub open spec fn drawn_line(self, m: MouseEvent) -> int {
        let top = self.layout.chat_pane.y + 1;
        let bottom = top + minus(self.layout.chat_pane.height as int, 2);
        let row = if m.row < top {
            top
        } else if m.row > bottom - 1 {
            bottom - 1
        } else {
            m.row as int
        };
        let line = row - top + self.chat.scroll_offset;
        let last = minus(self.chat.lines.len() as int, 1);
        if line < last {
            line
        } else {
            last
        }
    }

    /// The column of the chat that a selection is drawn to.
    pub open spec fn drawn_column(self, m: MouseEvent) -> int {
        let col = minus(m.column as int, self.layout.chat_pane.x as int);
        let last = minus(self.layout.chat_pane.width as int, 1);
        if col < last {
            col
        } else {
            last
        }
    }

    /// What a click is. Most of them are the front end's only where no editor
    /// shows the conversation.
    pub open spec fn click_action(self, area: HitArea) -> Option<Action> {
        match area {
            HitArea::ChatList { inner_row } => Some(Action::List(ListAction::Click { inner_row })),
            HitArea::ChatScrollbar { rel_row } if self.nvim.disabled => Some(
                Action::Chat(ChatAction::ChatScrollbarClick { rel_row }),
            ),
            HitArea::QueueItem { index } if self.nvim.disabled => Some(
                Action::Queue(QueueAction::Click { index }),
            ),
            HitArea::ChatContent { abs_line, inner_col } if self.nvim.disabled => Some(
                Action::Chat(ChatAction::ChatContentClick { abs_line, inner_col }),
            ),
            _ => if self.nvim.disabled {
                Some(Action::Chat(ChatAction::SelectionClear))
            } else {
                None
            },
        }
    }

    /// What a turn of the wheel is.
    pub open spec fn wheel_action(self, area: HitArea, up: bool) -> Action {
        if area is InputPane {
            Action::Input(
                if up {
                    InputAction::ScrollUp
                } else {
                    InputAction::ScrollDown
                },
            )
        } else {
            Action::Chat(
                match (self.nvim.bridge, up) {
                    (true, true) => ChatAction::NvimScrollUp,
                    (true, false) => ChatAction::NvimScrollDown,
                    (false, true) => ChatAction::ScrollUp,
                    (false, false) => ChatAction::ScrollDown,
                },
            )
        }
    }

    /// An event of the mouse can be mapped to an action: with the pager open it
    /// is none; else the panes are within the coordinates, and a selection that
    /// is drawn has a row to go to.
    pub open spec fn can_map(self, m: MouseEvent) -> bool {
        !self.ui.pager_open ==> {
            &&& has_margin(self.layout)
            &&& m.kind is DragLeft && self.nvim.disabled && self.chat.selection_anchor is Some
                ==> self.has_chat_row()
        }
    }

    /// The action that an event of the mouse is. While the pager is open it is
    /// none.
    pub open spec fn mouse_action(self, m: MouseEvent) -> Option<Action> {
        if self.ui.pager_open {
            None
        } else {
            match m.kind {
                MouseKind::DownLeft => self.click_action(self.area_under(m)),
                MouseKind::ScrollUp => Some(self.wheel_action(self.area_under(m), true)),
                MouseKind::ScrollDown => Some(self.wheel_action(self.area_under(m), false)),
                MouseKind::DragLeft => if self.nvim.disabled && self.chat.selection_anchor is Some {
                    Some(
                        Action::Chat(
                            ChatAction::SelectionExtend {
                                abs_line: self.drawn_line(m) as usize,
                                inner_col: self.drawn_column(m) as u16,
                                mouse_row: m.row,
                            },
                        ),
                    )
                } else {
                    None
                },
                MouseKind::UpLeft => if self.nvim.disabled && self.chat.is_selecting {
                    Some(Action::Chat(ChatAction::SelectionFinish))
                } else {
                    None
                },
                MouseKind::Other => None,
            }
        }
    }

    /// The chat has a row that a selection can be drawn to.
    pub open spec fn has_chat_row(self) -> bool {
        self.layout.chat_pane.height >= 3
    }
}

impl App {
    fn map_click(&self, area: HitArea) -> (r: Option<Action>)
        ensures
            r == self@.click_action(area),
    {
        if let HitArea::ChatList { inner_row } = area {
            return Some(Action::List(ListAction::Click { inner_row }));
        }
        if !self.nvim.disabled {
            return None;
        }
        Some(
            match area {
                HitArea::ChatScrollbar { rel_row } => Action::Chat(
                    ChatAction::ChatScrollbarClick { rel_row },
                ),
                HitArea::QueueItem { index } => Action::Queue(QueueAction::Click { index }),
                HitArea::ChatContent { abs_line, inner_col } => Action::Chat(
                    ChatAction::ChatContentClick { abs_line, inner_col },
                ),
                _ => Action::Chat(ChatAction::SelectionClear),
            },
        )
    }

    fn map_wheel(&self, area: HitArea, up: bool) -> (r: Action)
        ensures
            r == self@.wheel_action(area, up),
    {
        if let HitArea::InputPane = area {
            return Action::Input(
                if up {
                    InputAction::ScrollUp
                } else {
                    InputAction::ScrollDown
                },
            );
        }
        Action::Chat(
            if self.nvim.bridge {
                if up {
                    ChatAction::NvimScrollUp
                } else {
                    ChatAction::NvimScrollDown
                }
            } else {
                if up {
                    ChatAction::ScrollUp
                } else {
                    ChatAction::ScrollDown
                }
            },
        )
    }

    fn map_drag(&self, m: MouseEvent) -> (r: Action)
        requires
            has_margin(self@.layout),
            self@.has_chat_row(),
        ensures
            r == Action::Chat(
                (ChatAction::SelectionExtend {
                    abs_line: self@.drawn_line(m) as usize,
                    inner_col: self@.drawn_column(m) as u16,
                    mouse_row: m.row,
                }),
            ),
    {
        let cp = self.layout.chat_pane;
        let top: u16 = cp.y + 1;
        let bottom: u16 = top + (cp.height - 2);
        let row: u16 = if m.row < top {
            top
        } else if m.row > bottom - 1 {
            bottom - 1
        } else {
            m.row
        };
        let line: usize = (row - top) as usize + self.chat.scroll_offset as usize;
        let n: usize = self.chat.lines.len();
        assert(self@.chat.lines.len() == n);
        let last: usize = n.saturating_sub(1);
        let abs_line: usize = if line < last {
            line
        } else {
            last
        };
        let col: u16 = m.column.saturating_sub(cp.x);
        let last_col: u16 = cp.width.saturating_sub(1);
        let inner_col: u16 = if col < last_col {
            col
        } else {
            last_col
        };
        Action::Chat(ChatAction::SelectionExtend { abs_line, inner_col, mouse_row: m.row })
    }

    fn find_area(&self, m: MouseEvent) -> (r: HitArea)
        requires
            has_margin(self@.layout),
        ensures
            r == self@.area_under(m),
    {
        assert(self@.chat.lines.len() == self.chat.lines@.len());
        assert(self@.queue.messages.len() == self.queue.messages@.len());
        hit_test(
            &self.layout,
            m.column,
            m.row,
            self.chat.scroll_offset,
            self.chat.lines.len(),
            self.queue.messages.len(),
        )
    }

    /// Finds the action that an event of the mouse is. The state stays as it is.
    pub fn mouse_to_action(&self, m: MouseEvent) -> (r: Option<Action>)
        requires
            self@.can_map(m),
        ensures
            r == self@.mouse_action(m),
    {
        if self.ui.pager_open {
            return None;
        }
        match m.kind {
            MouseKind::DownLeft => self.map_click(self.find_area(m)),
            MouseKind::ScrollUp => Some(self.map_wheel(self.find_area(m), true)),
            MouseKind::ScrollDown => Some(self.map_wheel(self.find_area(m), false)),
            MouseKind::DragLeft => {
                if self.nvim.disabled && self.chat.selection_anchor.is_some() {
                    Some(self.map_drag(m))
                } else {
                    None
                }
            },
            MouseKind::UpLeft => {
                if self.nvim.disabled && self.chat.is_selecting {
                    Some(Action::Chat(ChatAction::SelectionFinish))
                } else {
                    None
                }
            },
            MouseKind::Other => None,
        }
    }
}

// ── Borders ──────────────────────────────────────────────────────────────────

/// The drag that begins on a border, with how far from the border it was
/// grabbed.
pub open spec fn grabbed(layout: LayoutCache, m: MouseEvent, area: HitArea) -> Option<ResizeDrag> {
    match area {
        HitArea::ChatListBorder => Some(
            ResizeDrag::ChatListWidth {
                anchor_offset: (m.column - layout.chat_list_pane.x) as i16,
            },
        ),
        HitArea::PeersSplitBorder => Some(
            ResizeDrag::PeersSplit { anchor_offset: (m.row - layout.peers_pane.y) as i16 },
        ),
        HitArea::InputBorder => Some(
            ResizeDrag::InputHeight { anchor_offset: (m.row - layout.input_pane.y) as i16 },
        ),
        _ => None,
    }
}

/// The sizes after a border was dragged to the mouse.
pub open spec fn dragged(
    prefs: SplitPrefs,
    drag: ResizeDrag,
    m: MouseEvent,
    layout: LayoutCache,
) -> SplitPrefs {
    match drag {
        ResizeDrag::ChatListWidth { anchor_offset } => prefs.with_list_border(
            m.column,
            anchor_offset,
            layout,
        ),
        ResizeDrag::PeersSplit { anchor_offset } => prefs.with_peers_border(
            m.row,
            anchor_offset,
            layout,
        ),
        ResizeDrag::InputHeight { anchor_offset } => prefs.with_input_border(
            m.row,
            anchor_offset,
            layout,
        ),
    }
}

/// The border can follow the mouse: it comes to a coordinate, and so does the far
/// edge of its pane.
pub open spec fn can_follow(layout: LayoutCache, drag: ResizeDrag, m: MouseEvent) -> bool {
    match drag {
        ResizeDrag::ChatListWidth { anchor_offset } => drag_fits(m.column, anchor_offset)
            && layout.chat_list_pane.in_range(),
        ResizeDrag::PeersSplit { anchor_offset } => drag_fits(m.row, anchor_offset)
            && layout.peers_pane.in_range(),
        ResizeDrag::InputHeight { anchor_offset } => drag_fits(m.row, anchor_offset)
            && layout.input_pane.in_range(),
    }
}

impl AppView {
    /// With a border held, or none.
    pub open spec fn holding(self, drag: Option<ResizeDrag>) -> AppView {
        AppView { layout: LayoutCache { resize_drag: drag, ..self.layout }, ..self }
    }

    /// The wheel belongs to the pager or to the inspector.
    pub open spec fn wheels_overlay(self, m: MouseEvent) -> bool {
        (m.kind is ScrollUp || m.kind is ScrollDown) && (self.ui.inspector_open
            || self.ui.pager_open)
    }

    /// What an event of the mouse does to a border, if it does anything.
    pub open spec fn border_step(self, m: MouseEvent) -> Option<AppView> {
        match m.kind {
            MouseKind::DownLeft => match grabbed(self.layout, m, self.area_under(m)) {
                Some(drag) => Some(self.holding(Some(drag))),
                None => None,
            },
            MouseKind::DragLeft => match self.layout.resize_drag {
                Some(drag) => Some(
                    AppView { prefs: dragged(self.prefs, drag, m, self.layout), ..self },
                ),
                None => None,
            },
            MouseKind::UpLeft => match self.layout.resize_drag {
                Some(_) => Some(self.holding(None)),
                None => None,
            },
            _ => None,
        }
    }

    /// After an event of the mouse: the overlays have the wheel, then come the
    /// borders, then the panes.
    #[verifier::opaque]
    pub open spec fn moused(self, m: MouseEvent) -> StepView {
        if self.wheels_overlay(m) {
            doing(self, EffectView::OverlayScroll(m.kind is ScrollUp))
        } else {
            match self.border_step(m) {
                Some(next) => still(next),
                None => match self.mouse_action(m) {
                    Some(a) => self.after(a),
                    None => still(self),
                },
            }
        }
    }

    /// What an event of the mouse does to a border can be done: a click can be
    /// located, and a border that is dragged can follow.
    pub open spec fn can_move_border(self, m: MouseEvent) -> bool {
        &&& m.kind is DownLeft ==> has_margin(self.layout)
        &&& m.kind is DragLeft ==> (self.layout.resize_drag matches Some(drag) ==> can_follow(
            self.layout,
            drag,
            m,
        ))
    }

    /// An event of the mouse can be taken in. The wheel over an overlay always
    /// can. Else the border can be moved; and where none is, the event can be
    /// mapped and the action taken.
    pub open spec fn takes_mouse(self, m: MouseEvent) -> bool {
        self.wheels_overlay(m) || {
            &&& self.can_move_border(m)
            &&& self.border_step(m) is None ==> {
                &&& self.can_map(m)
                &&& self.mouse_action(m) matches Some(a) ==> self.takes(a)
            }
        }
    }
}

fn grab(layout: &LayoutCache, m: MouseEvent, area: HitArea) -> (r: Option<ResizeDrag>)
    requires
        has_margin(*layout),
        area is ChatListBorder ==> -1 <= m.column - layout.chat_list_pane.x <= 1,
        area is PeersSplitBorder ==> -1 <= m.row - layout.peers_pane.y <= 1,
        area is InputBorder ==> -1 <= m.row - layout.input_pane.y <= 1,
    ensures
        r == grabbed(*layout, m, area),
{
    match area {
        HitArea::ChatListBorder => Some(
            ResizeDrag::ChatListWidth {
                anchor_offset: (m.column as i32 - layout.chat_list_pane.x as i32) as i16,
            },
        ),
        HitArea::PeersSplitBorder => Some(
            ResizeDrag::PeersSplit {
                anchor_offset: (m.row as i32 - layout.peers_pane.y as i32) as i16,
            },
        ),
        HitArea::InputBorder => Some(
            ResizeDrag::InputHeight {
                anchor_offset: (m.row as i32 - layout.input_pane.y as i32) as i16,
            },
        ),
        _ => None,
    }
}

impl App {
    fn drag_border(&mut self, drag: ResizeDrag, m: MouseEvent)
        requires
            can_follow(old(self)@.layout, drag, m),
        ensures
            final(self)@ == (AppView {
                prefs: dragged(old(self)@.prefs, drag, m, old(self)@.layout),
                ..old(self)@
            }),
    {
        match drag {
            ResizeDrag::ChatListWidth { anchor_offset } => {
                self.prefs.drag_chat_list_width(m.column, anchor_offset, &self.layout);
            },
            ResizeDrag::PeersSplit { anchor_offset } => {
                self.prefs.drag_peers_pane_height(m.row, anchor_offset, &self.layout);
            },
            ResizeDrag::InputHeight { anchor_offset } => {
                self.prefs.drag_input_height(m.row, anchor_offset, &self.layout);
            },
        }
    }

    /// Whether a click grabs a border.
    pub(crate) fn grabs_border(&self, m: MouseEvent) -> (r: bool)
        requires
            has_margin(self@.layout),
        ensures
            r == grabbed(self@.layout, m, self@.area_under(m)) is Some,
    {
        grab(&self.layout, m, self.find_area(m)).is_some()
    }

    fn move_border(&mut self, m: MouseEvent) -> (r: bool)
        requires
            old(self)@.can_move_border(m),
        ensures
            r == old(self)@.border_step(m) is Some,
            final(self)@ == (match old(self)@.border_step(m) {
                Some(next) => next,
                None => old(self)@,
            }),
    {
        match m.kind {
            MouseKind::DownLeft => {
                let area = self.find_area(m);
                if let Some(drag) = grab(&self.layout, m, area) {
                    self.layout.resize_drag = Some(drag);
                    return true;
                }
                false
            },
            MouseKind::DragLeft => {
                if let Some(drag) = self.layout.resize_drag {
                    self.drag_border(drag, m);
                    return true;
                }
                false
            },
            MouseKind::UpLeft => {
                if self.layout.resize_drag.is_some() {
                    self.layout.resize_drag = None;
                    return true;
                }
                false
            },
            _ => false,
        }
    }

    /// Takes in an event of the mouse.
    pub fn handle_mouse(&mut self, m: MouseEvent) -> (r: Vec<Effect>)
        requires
            old(self)@.takes_mouse(m),
        ensures
            final(self)@ == old(self)@.moused(m).app,
            effect_views(r@) == old(self)@.moused(m).effects,
    {
        reveal(AppView::moused);
        if self.ui.inspector_open || self.ui.pager_open {
            if let MouseKind::ScrollUp = m.kind {
                let mut out = no_effects();
                add_effect(&mut out, Effect::OverlayScroll(true));
                return out;
            }
            if let MouseKind::ScrollDown = m.kind {
                let mut out = no_effects();
                add_effect(&mut out, Effect::OverlayScroll(false));
                return out;
            }
        }
        if self.move_border(m) {
            return no_effects();
        }
        match self.mouse_to_action(m) {
            Some(a) => self.dispatch(a),
            None => no_effects(),
        }
    }
}

// ── Laws ─────────────────────────────────────────────────────────────────────

/// A border that is let go where it was grabbed has not moved: the sizes that
/// the panes have are those that they had.
pub proof fn law_released_border_stays(v: AppView, m: MouseEvent)
    requires
        v.area_under(m) is ChatListBorder,
        m.kind is DownLeft,
        has_margin(v.layout),
        m.column < 0x8000,
        v.layout.chat_list_pane.x < 0x8000,
        15 <= v.layout.chat_list_pane.width <= 60,
    ensures
        ({
            let held = v.border_step(m)->0;
            let moved = MouseEvent { kind: MouseKind::DragLeft, ..m };
            held.border_step(moved)->0.prefs.chat_list_width == v.layout.chat_list_pane.width
        }),
{
}

/// A selection is only ever drawn to a line that exists, where there are lines.
pub proof fn law_drawn_line_exists(v: AppView, m: MouseEvent)
    requires
        v.chat.lines.len() > 0,
        v.has_chat_row(),
    ensures
        0 <= v.drawn_line(m) < v.chat.lines.len(),
{
}

} // verus!
