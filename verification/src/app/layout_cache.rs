//! Sizes of the panes: what the user has chosen, and what the last frame had.

use vstd::prelude::*;

verus! {

pub const CHAT_LIST_MIN_WIDTH: u16 = 15;

pub const CHAT_LIST_MAX_WIDTH: u16 = 60;

pub const CHAT_LIST_DEFAULT_WIDTH: u16 = 32;

pub const PEERS_PANE_MIN_HEIGHT: u16 = 5;

pub const PEERS_PANE_MAX_HEIGHT: u16 = 30;

pub const PEERS_PANE_DEFAULT_HEIGHT: u16 = 12;

pub const INPUT_MIN_HEIGHT: u16 = 3;

pub const INPUT_MAX_HEIGHT: u16 = 20;

pub const INPUT_DEFAULT_HEIGHT: u16 = 5;

/// A rectangle of the terminal.
#[derive(Clone, Copy, Debug, PartialEq, Eq, Structural)]
pub struct Rect {
    pub x: u16,
    pub y: u16,
    pub width: u16,
    pub height: u16,
}

impl Rect {
    /// The rectangle without size at the origin.
    pub fn empty() -> (r: Rect)
        ensures
            r == (Rect { x: 0, y: 0, width: 0, height: 0 }),
    {
        Rect { x: 0, y: 0, width: 0, height: 0 }
    }

    /// Both far edges of the rectangle are coordinates.
    pub open spec fn in_range(self) -> bool {
        self.x + self.width <= u16::MAX && self.y + self.height <= u16::MAX
    }
}

/// The border that is being dragged. The anchor is how far from the border it
/// was grabbed.
#[derive(Clone, Copy, Debug, PartialEq, Eq, Structural)]
pub enum ResizeDrag {
    /// The border left of the chat list.
    ChatListWidth { anchor_offset: i16 },
    /// The border between the chats and the peers.
    PeersSplit { anchor_offset: i16 },
    /// The border above the input pane.
    InputHeight { anchor_offset: i16 },
}

/// The sizes that the user has chosen. They outlast every frame.
#[derive(Clone, Copy, Debug, PartialEq, Eq, Structural)]
pub struct SplitPrefs {
    /// The width of the chat list.
    pub chat_list_width: u16,
    /// The height of the peers pane.
    pub peers_pane_height: u16,
    /// The height of the input pane, with its borders.
    pub input_height: u16,
    /// Whether the chat list is shown.
    pub chat_list_visible: bool,
}

/// `n` as near as the bounds let it be.
pub open spec fn clamped(n: int, low: int, high: int) -> int {
    if n < low {
        low
    } else if n > high {
        high
    } else {
        n
    }
}

/// A coordinate read as a signed number of the same bits.
pub open spec fn as_signed(n: u16) -> int {
    if n < 0x8000 {
        n as int
    } else {
        n - 0x10000
    }
}

/// Where the border is while the mouse is at `pos`: never off the screen.
pub open spec fn border_at(pos: u16, anchor: i16) -> int {
    if as_signed(pos) - anchor < 0 {
        0
    } else {
        as_signed(pos) - anchor
    }
}

/// The border of a drag can be computed.
pub open spec fn drag_fits(pos: u16, anchor: i16) -> bool {
    i16::MIN <= as_signed(pos) - anchor <= i16::MAX
}

/// The size of a pane between a border and its far edge.
pub open spec fn size_behind(edge: int, border: int) -> int {
    if edge < border {
        0
    } else {
        edge - border
    }
}

fn clamp(n: u16, low: u16, high: u16) -> (r: u16)
    requires
        low <= high,
    ensures
        r == clamped(n as int, low as int, high as int),
{
    if n < low {
        low
    } else if n > high {
        high
    } else {
        n
    }
}

/// Where the border is while the mouse is at `pos`.
fn dragged_border(pos: u16, anchor: i16) -> (r: u16)
    requires
        drag_fits(pos, anchor),
    ensures
        r == border_at(pos, anchor),
{
    proof {
        assert(pos < 0x8000 ==> (#[verifier::truncate] (pos as i16)) == pos) by (bit_vector);
        assert(pos >= 0x8000 ==> (#[verifier::truncate] (pos as i16)) == pos - 0x10000)
            by (bit_vector);
    }
    let signed: i16 = #[verifier::truncate] (pos as i16);
    let moved: i16 = signed - anchor;
    if moved < 0 {
        0
    } else {
        moved as u16
    }
}

impl SplitPrefs {
    /// The sizes are within the bounds that dragging keeps.
    pub open spec fn in_bounds(self) -> bool {
        &&& CHAT_LIST_MIN_WIDTH <= self.chat_list_width <= CHAT_LIST_MAX_WIDTH
        &&& PEERS_PANE_MIN_HEIGHT <= self.peers_pane_height <= PEERS_PANE_MAX_HEIGHT
        &&& INPUT_MIN_HEIGHT <= self.input_height <= INPUT_MAX_HEIGHT
    }

    /// The default sizes.
    pub open spec fn initial() -> SplitPrefs {
        SplitPrefs {
            chat_list_width: CHAT_LIST_DEFAULT_WIDTH,
            peers_pane_height: PEERS_PANE_DEFAULT_HEIGHT,
            input_height: INPUT_DEFAULT_HEIGHT,
            chat_list_visible: true,
        }
    }

    /// The default sizes.
    pub fn new() -> (r: SplitPrefs)
        ensures
            r == SplitPrefs::initial(),
            r.in_bounds(),
    {
        SplitPrefs {
            chat_list_width: CHAT_LIST_DEFAULT_WIDTH,
            peers_pane_height: PEERS_PANE_DEFAULT_HEIGHT,
            input_height: INPUT_DEFAULT_HEIGHT,
            chat_list_visible: true,
        }
    }

    /// The width that the chat list takes up: nothing while it is hidden.
    pub fn effective_chat_list_width(&self) -> (r: u16)
        ensures
            r == (if self.chat_list_visible {
                self.chat_list_width
            } else {
                0
            }),
    {
        if self.chat_list_visible {
            self.chat_list_width
        } else {
            0
        }
    }

    /// The height that the peers pane takes up: nothing while it is hidden.
    pub fn effective_peers_pane_height(&self) -> (r: u16)
        ensures
            r == (if self.chat_list_visible {
                self.peers_pane_height
            } else {
                0
            }),
    {
        if self.chat_list_visible && self.peers_pane_height > 0 {
            self.peers_pane_height
        } else {
            0
        }
    }

    /// The width of the chat list with its border at the mouse.
    pub open spec fn with_list_border(self, col: u16, anchor: i16, layout: LayoutCache) -> SplitPrefs {
        SplitPrefs {
            chat_list_width: clamped(
                size_behind(
                    layout.chat_list_pane.x + layout.chat_list_pane.width,
                    border_at(col, anchor),
                ),
                CHAT_LIST_MIN_WIDTH as int,
                CHAT_LIST_MAX_WIDTH as int,
            ) as u16,
            ..self
        }
    }

    /// The height of the peers pane with its border at the mouse.
    pub open spec fn with_peers_border(self, row: u16, anchor: i16, layout: LayoutCache) -> SplitPrefs {
        SplitPrefs {
            peers_pane_height: clamped(
                size_behind(
                    layout.peers_pane.y + layout.peers_pane.height,
                    border_at(row, anchor),
                ),
                PEERS_PANE_MIN_HEIGHT as int,
                PEERS_PANE_MAX_HEIGHT as int,
            ) as u16,
            ..self
        }
    }

    /// The height of the input pane with its border at the mouse.
    pub open spec fn with_input_border(self, row: u16, anchor: i16, layout: LayoutCache) -> SplitPrefs {
        SplitPrefs {
            input_height: clamped(
                size_behind(
                    layout.input_pane.y + layout.input_pane.height,
                    border_at(row, anchor),
                ),
                INPUT_MIN_HEIGHT as int,
                INPUT_MAX_HEIGHT as int,
            ) as u16,
            ..self
        }
    }

    /// Changes the width of the chat list while its border is dragged.
    pub fn drag_chat_list_width(&mut self, col: u16, anchor: i16, layout: &LayoutCache)
        requires
            drag_fits(col, anchor),
            layout.chat_list_pane.in_range(),
        ensures
            *final(self) == old(self).with_list_border(col, anchor, *layout),
            old(self).in_bounds() ==> final(self).in_bounds(),
    {
        let border: u16 = dragged_border(col, anchor);
        let edge: u16 = layout.chat_list_pane.x + layout.chat_list_pane.width;
        let size: u16 = edge.saturating_sub(border);
        self.chat_list_width = clamp(size, CHAT_LIST_MIN_WIDTH, CHAT_LIST_MAX_WIDTH);
    }

    /// Changes the height of the peers pane while its border is dragged.
    pub fn drag_peers_pane_height(&mut self, row: u16, anchor: i16, layout: &LayoutCache)
        requires
            drag_fits(row, anchor),
            layout.peers_pane.in_range(),
        ensures
            *final(self) == old(self).with_peers_border(row, anchor, *layout),
            old(self).in_bounds() ==> final(self).in_bounds(),
    {
        let border: u16 = dragged_border(row, anchor);
        let edge: u16 = layout.peers_pane.y + layout.peers_pane.height;
        let size: u16 = edge.saturating_sub(border);
        self.peers_pane_height = clamp(size, PEERS_PANE_MIN_HEIGHT, PEERS_PANE_MAX_HEIGHT);
    }

    /// Changes the height of the input pane while its border is dragged.
    pub fn drag_input_height(&mut self, row: u16, anchor: i16, layout: &LayoutCache)
        requires
            drag_fits(row, anchor),
            layout.input_pane.in_range(),
        ensures
            *final(self) == old(self).with_input_border(row, anchor, *layout),
            old(self).in_bounds() ==> final(self).in_bounds(),
    {
        let border: u16 = dragged_border(row, anchor);
        let edge: u16 = layout.input_pane.y + layout.input_pane.height;
        let size: u16 = edge.saturating_sub(border);
        self.input_height = clamp(size, INPUT_MIN_HEIGHT, INPUT_MAX_HEIGHT);
    }

    /// The chat list two columns wider, up to its maximum.
    pub open spec fn list_grown(self) -> SplitPrefs {
        SplitPrefs {
            chat_list_width: (if self.chat_list_width + 2 > CHAT_LIST_MAX_WIDTH {
                CHAT_LIST_MAX_WIDTH as int
            } else {
                self.chat_list_width + 2
            }) as u16,
            ..self
        }
    }

    /// The chat list two columns narrower, down to its minimum.
    pub open spec fn list_shrunk(self) -> SplitPrefs {
        SplitPrefs {
            chat_list_width: (if self.chat_list_width - 2 < CHAT_LIST_MIN_WIDTH {
                CHAT_LIST_MIN_WIDTH as int
            } else {
                self.chat_list_width - 2
            }) as u16,
            ..self
        }
    }

    /// Makes the chat list two columns wider, up to its maximum.
    pub fn chat_list_grow(&mut self)
        ensures
            *final(self) == old(self).list_grown(),
            old(self).in_bounds() ==> final(self).in_bounds(),
    {
        self.chat_list_width = if self.chat_list_width >= CHAT_LIST_MAX_WIDTH - 2 {
            CHAT_LIST_MAX_WIDTH
        } else {
            self.chat_list_width + 2
        };
    }

    /// Makes the chat list two columns narrower, down to its minimum.
    pub fn chat_list_shrink(&mut self)
        ensures
            *final(self) == old(self).list_shrunk(),
            old(self).in_bounds() ==> final(self).in_bounds(),
    {
        self.chat_list_width = if self.chat_list_width <= CHAT_LIST_MIN_WIDTH + 2 {
            CHAT_LIST_MIN_WIDTH
        } else {
            self.chat_list_width - 2
        };
    }
}

/// The measurements of the last frame.
#[derive(Clone, Copy, Debug, PartialEq, Eq, Structural)]
pub struct LayoutCache {
    /// The rows inside the border of the chat pane.
    pub chat_height: u16,
    /// The columns inside the border of the chat pane.
    pub chat_inner_width: u16,
    /// The columns inside the border of the input pane.
    pub input_inner_width: u16,
    /// The rows inside the border of the input pane.
    pub input_inner_height: u16,
    pub chat_pane: Rect,
    pub input_pane: Rect,
    pub queue_pane: Rect,
    pub chat_list_pane: Rect,
    pub peers_pane: Rect,
    /// The border that is being dragged, if one is.
    pub resize_drag: Option<ResizeDrag>,
}

impl LayoutCache {
    /// The measurements before the first frame.
    pub open spec fn initial() -> LayoutCache {
        let none = Rect { x: 0, y: 0, width: 0, height: 0 };
        LayoutCache {
            chat_height: 24,
            chat_inner_width: 78,
            input_inner_width: 78,
            input_inner_height: 3,
            chat_pane: none,
            input_pane: none,
            queue_pane: none,
            chat_list_pane: none,
            peers_pane: none,
            resize_drag: None,
        }
    }

    /// The measurements before the first frame.
    pub fn new() -> (r: LayoutCache)
        ensures
            r == LayoutCache::initial(),
            r.in_range(),
    {
        LayoutCache {
            chat_height: 24,
            chat_inner_width: 78,
            input_inner_width: 78,
            input_inner_height: 3,
            chat_pane: Rect::empty(),
            input_pane: Rect::empty(),
            queue_pane: Rect::empty(),
            chat_list_pane: Rect::empty(),
            peers_pane: Rect::empty(),
            resize_drag: None,
        }
    }

    /// The far edges of all panes are coordinates.
    pub open spec fn in_range(self) -> bool {
        &&& self.chat_pane.in_range()
        &&& self.input_pane.in_range()
        &&& self.queue_pane.in_range()
        &&& self.chat_list_pane.in_range()
        &&& self.peers_pane.in_range()
    }
}

/// A drag that was grabbed on the border starts where the border is: the pane
/// keeps its size until the mouse moves.
pub proof fn law_drag_starts_at_border(click: u16, border: u16, edge: int)
    requires
        click < 0x8000,
        border < 0x8000,
        border <= edge,
    ensures
        border_at(click, (click - border) as i16) == border,
        size_behind(edge, border_at(click, (click - border) as i16)) == edge - border,
{
}

} // verus!
