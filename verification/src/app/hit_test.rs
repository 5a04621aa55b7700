//! Which part of the screen a coordinate belongs to.

use vstd::prelude::*;

use crate::app::layout_cache::{LayoutCache, Rect};

verus! {

/// The part of the screen that a coordinate falls into.
#[derive(Clone, Copy, Debug, PartialEq, Eq, Structural)]
pub enum HitArea {
    /// A row inside the chat list, counted below its border and without its
    /// scroll offset.
    ChatList { inner_row: usize },
    /// The scrollbar of the chat pane, at a row of the content.
    ChatScrollbar { rel_row: u16 },
    /// The content of the chat pane: the line, with the scroll offset in it, and
    /// the column.
    ChatContent { abs_line: usize, inner_col: u16 },
    /// The input pane.
    InputPane,
    /// An entry of the queue.
    QueueItem { index: usize },
    /// The border left of the chat list.
    ChatListBorder,
    /// The border between the chats and the peers.
    PeersSplitBorder,
    /// The border above the input pane.
    InputBorder,
    /// None of these.
    Outside,
}

/// At most one step away from an edge.
pub open spec fn near(pos: int, edge: int) -> bool {
    edge - 1 <= pos <= edge + 1
}

/// The column is one of the rectangle's.
pub open spec fn has_col(r: Rect, col: int) -> bool {
    r.x <= col < r.x + r.width
}

/// The row is one of the rectangle's.
pub open spec fn has_row(r: Rect, row: int) -> bool {
    r.y <= row < r.y + r.height
}

/// On or next to the border left of the chat list.
pub open spec fn on_list_border(layout: LayoutCache, col: int) -> bool {
    layout.chat_list_pane.width > 0 && near(col, layout.chat_list_pane.x as int)
}

/// On the border above the input pane or on the row before it.
pub open spec fn on_input_border(layout: LayoutCache, row: int) -> bool {
    layout.input_pane.height > 0 && layout.input_pane.y - 1 <= row <= layout.input_pane.y
}

/// On or next to the border between the chats and the peers.
pub open spec fn on_peers_border(layout: LayoutCache, col: int, row: int) -> bool {
    layout.peers_pane.height > 0 && layout.chat_list_pane.height > 0 && near(
        row,
        layout.peers_pane.y as int,
    ) && has_col(layout.chat_list_pane, col)
}

/// The number of rows inside a pane's border.
pub open spec fn inner_height(r: Rect) -> int {
    if r.height < 2 {
        0
    } else {
        r.height - 2
    }
}

/// What lies at a coordinate, where no border and no side pane does.
pub open spec fn chat_area_at(
    pane: Rect,
    col: int,
    row: int,
    scroll: int,
    total_lines: int,
) -> HitArea {
    let top = pane.y + 1;
    if top <= row < top + inner_height(pane) {
        let last = if pane.width < 1 {
            0
        } else {
            pane.width - 1
        };
        if col == pane.x + last && total_lines % 0x10000 > inner_height(pane) {
            HitArea::ChatScrollbar { rel_row: (row - top) as u16 }
        } else {
            let rel_col = if col < pane.x {
                0
            } else {
                col - pane.x
            };
            HitArea::ChatContent {
                abs_line: (row - top + scroll) as usize,
                inner_col: (if rel_col < last {
                    rel_col
                } else {
                    last
                }) as u16,
            }
        }
    } else {
        HitArea::Outside
    }
}

/// What lies at a coordinate: borders come before the panes that they bound.
pub open spec fn area_at(
    layout: LayoutCache,
    col: int,
    row: int,
    scroll: int,
    total_lines: int,
    queue_len: int,
) -> HitArea {
    let list = layout.chat_list_pane;
    let queue = layout.queue_pane;
    if on_list_border(layout, col) {
        HitArea::ChatListBorder
    } else if on_input_border(layout, row) {
        HitArea::InputBorder
    } else if on_peers_border(layout, col, row) {
        HitArea::PeersSplitBorder
    } else if list.width > 0 && has_col(list, col) && has_row(list, row) {
        HitArea::ChatList {
            inner_row: (if row > list.y {
                row - list.y - 1
            } else {
                0
            }) as usize,
        }
    } else if has_row(layout.input_pane, row) {
        HitArea::InputPane
    } else if has_row(queue, row) {
        if row > queue.y && row - queue.y - 1 < queue_len {
            HitArea::QueueItem { index: (row - queue.y - 1) as usize }
        } else {
            HitArea::Outside
        }
    } else {
        chat_area_at(layout.chat_pane, col, row, scroll, total_lines)
    }
}

/// The rectangles do not reach the last coordinate, so that the one behind each
/// edge is a coordinate too.
pub open spec fn has_margin(layout: LayoutCache) -> bool {
    &&& layout.in_range()
    &&& layout.chat_list_pane.x < u16::MAX
    &&& layout.chat_list_pane.y < u16::MAX
    &&& layout.peers_pane.y < u16::MAX
    &&& layout.queue_pane.y < u16::MAX
    &&& layout.chat_pane.y < u16::MAX
}

fn chat_hit(pane: Rect, col: u16, row: u16, scroll: u16, total_chat_lines: usize) -> (r: HitArea)
    requires
        pane.in_range(),
        pane.y < u16::MAX,
    ensures
        r == chat_area_at(pane, col as int, row as int, scroll as int, total_chat_lines as int),
{
    let content_start: u16 = pane.y + 1;
    let inner: u16 = pane.height.saturating_sub(2);
    let last: u16 = pane.width.saturating_sub(1);
    let scrollbar_col: u16 = pane.x + last;
    assert((#[verifier::truncate] (total_chat_lines as u16)) == total_chat_lines % 0x10000usize)
        by (bit_vector);
    let total_lines: u16 = #[verifier::truncate] (total_chat_lines as u16);
    if row >= content_start && row - content_start < inner {
        let rel_row: u16 = row - content_start;
        let abs_line: usize = rel_row as usize + scroll as usize;
        if col == scrollbar_col && inner > 0 && total_lines > inner {
            return HitArea::ChatScrollbar { rel_row };
        }
        let rel_col: u16 = col.saturating_sub(pane.x);
        let inner_col: u16 = if rel_col < last {
            rel_col
        } else {
            last
        };
        return HitArea::ChatContent { abs_line, inner_col };
    }
    HitArea::Outside
}

/// Finds what lies at a coordinate.
pub fn hit_test(
    layout: &LayoutCache,
    col: u16,
    row: u16,
    chat_scroll_offset: u16,
    total_chat_lines: usize,
    queue_len: usize,
) -> (r: HitArea)
    requires
        has_margin(*layout),
    ensures
        r == area_at(
            *layout,
            col as int,
            row as int,
            chat_scroll_offset as int,
            total_chat_lines as int,
            queue_len as int,
        ),
{
    let cl = layout.chat_list_pane;
    if cl.width > 0 && col >= cl.x.saturating_sub(1) && col <= cl.x + 1 {
        return HitArea::ChatListBorder;
    }
    let ip = layout.input_pane;
    if ip.height > 0 && row >= ip.y.saturating_sub(1) && row <= ip.y {
        return HitArea::InputBorder;
    }
    let pp = layout.peers_pane;
    if pp.height > 0 && cl.height > 0 && row >= pp.y.saturating_sub(1) && row <= pp.y + 1 && col
        >= cl.x && col < cl.x + cl.width {
        return HitArea::PeersSplitBorder;
    }
    if cl.width > 0 && col >= cl.x && col < cl.x + cl.width && row >= cl.y && row < cl.y
        + cl.height {
        let inner_row: usize = (row as usize).saturating_sub((cl.y + 1) as usize);
        return HitArea::ChatList { inner_row };
    }
    if row >= ip.y && row < ip.y + ip.height {
        return HitArea::InputPane;
    }
    let qp = layout.queue_pane;
    if qp.height > 0 && row >= qp.y && row < qp.y + qp.height {
        let inner_y: u16 = qp.y + 1;
        if row >= inner_y {
            let index: usize = (row - inner_y) as usize;
            if index < queue_len {
                return HitArea::QueueItem { index };
            }
        }
        return HitArea::Outside;
    }
    chat_hit(layout.chat_pane, col, row, chat_scroll_offset, total_chat_lines)
}

// ── Laws ─────────────────────────────────────────────────────────────────────

/// A hit on a queue entry names an entry that exists.
pub proof fn law_queue_hit_is_an_entry(
    layout: LayoutCache,
    col: u16,
    row: u16,
    scroll: u16,
    total_lines: usize,
    queue_len: usize,
)
    ensures
        area_at(
            layout,
            col as int,
            row as int,
            scroll as int,
            total_lines as int,
            queue_len as int,
        ) matches HitArea::QueueItem { index } ==> index < queue_len,
{
}

/// A hit in the chat content is at a visible line, and its column is inside the
/// pane.
pub proof fn law_content_hit_is_visible(
    layout: LayoutCache,
    col: u16,
    row: u16,
    scroll: u16,
    total_lines: usize,
    queue_len: usize,
)
    ensures
        area_at(
            layout,
            col as int,
            row as int,
            scroll as int,
            total_lines as int,
            queue_len as int,
        ) matches HitArea::ChatContent { abs_line, inner_col } ==> scroll <= abs_line < scroll
            + inner_height(layout.chat_pane) && (layout.chat_pane.width > 0 ==> inner_col
            < layout.chat_pane.width),
{
}

} // verus!
