//! The state of the chat pane.

use vstd::hash_map::StringHashMap;
use vstd::prelude::*;

use crate::chat::segment::{segment_views, ChatSegment, ContentView, MessageContent, Role, SegmentView};
use crate::chat::segment_ops::{
    range_with, segment_at_line, segment_tool_call_id, tool_call_id,
};
use crate::chat::tools::{get_paired_result_idx, is_paired};
use crate::style::{line_views, Line, SpanView};
use crate::text::{str_eq, text_map};

verus! {

// ── Expand levels ────────────────────────────────────────────────────────────

/// How much of a segment is shown: 0 is a line of summary, 1 a part, 2 all of it.
pub type ExpandLevel = u8;

/// The level that a segment has as long as nobody changed it: text of the user
/// and the assistant is shown, tool calls, their results and thoughts are
/// summed up.
pub open spec fn default_level(seg: SegmentView) -> u8 {
    match seg {
        SegmentView::Message(m) => match (m.role, m.content) {
            (Role::User, ContentView::Text(_)) => 2,
            (Role::Assistant, ContentView::Text(_)) => 2,
            _ => 0,
        },
        SegmentView::Thinking { .. } => 0,
        _ => 2,
    }
}

/// The level that a segment has as long as nobody changed it.
pub fn default_expand_level(seg: &ChatSegment) -> (r: ExpandLevel)
    ensures
        r == default_level(seg@),
{
    match seg {
        ChatSegment::Message(m) => match (&m.role, &m.content) {
            (Role::User, MessageContent::Text(_)) => 2,
            (Role::Assistant, MessageContent::Text(_)) => 2,
            _ => 0,
        },
        ChatSegment::Thinking { .. } => 0,
        _ => 2,
    }
}

/// The level that was set for a segment.
pub open spec fn level_at(levels: Seq<(usize, u8)>, i: int) -> Option<u8>
    decreases levels.len(),
{
    if levels.len() == 0 {
        None
    } else if levels.last().0 == i {
        Some(levels.last().1)
    } else {
        level_at(levels.drop_last(), i)
    }
}

/// The levels without that of a segment.
pub open spec fn without_level(levels: Seq<(usize, u8)>, i: int) -> Seq<(usize, u8)>
    decreases levels.len(),
{
    if levels.len() == 0 {
        seq![]
    } else {
        let init = without_level(levels.drop_last(), i);
        if levels.last().0 == i {
            init
        } else {
            init.push(levels.last())
        }
    }
}

/// The levels with that of a segment set.
pub open spec fn with_level(levels: Seq<(usize, u8)>, i: usize, level: u8) -> Seq<(usize, u8)> {
    without_level(levels, i as int).push((i, level))
}

/// The levels of the segments below an index.
pub open spec fn levels_below(levels: Seq<(usize, u8)>, n: int) -> Seq<(usize, u8)>
    decreases levels.len(),
{
    if levels.len() == 0 {
        seq![]
    } else {
        let init = levels_below(levels.drop_last(), n);
        if levels.last().0 < n {
            init.push(levels.last())
        } else {
            init
        }
    }
}

/// The levels after segments were taken out: those behind the first of them
/// move up by their number.
pub open spec fn levels_after(levels: Seq<(usize, u8)>, removed: Seq<usize>) -> Seq<(usize, u8)>
    decreases levels.len(),
{
    if levels.len() == 0 {
        seq![]
    } else {
        let init = levels_after(levels.drop_last(), removed);
        let (i, level) = levels.last();
        if removed.contains(i) {
            init
        } else if removed.len() > 0 && i > removed[0] {
            init.push(((i - removed.len()) as usize, level))
        } else {
            init.push((i, level))
        }
    }
}

/// The levels behind removed segments can move up.
pub open spec fn levels_can_move(levels: Seq<(usize, u8)>, removed: Seq<usize>) -> bool {
    forall|k: int|
        0 <= k < levels.len() && removed.len() > 0 && !removed.contains(levels[k].0) && (
        #[trigger] levels[k]).0 > removed[0] ==> levels[k].0 >= removed.len()
}

/// A level that was set is the one that is read, and no other changes.
pub proof fn law_level_is_kept(levels: Seq<(usize, u8)>, i: usize, level: u8, j: usize)
    ensures
        level_at(with_level(levels, i, level), j as int) == (if i == j {
            Some(level)
        } else {
            level_at(levels, j as int)
        }),
    decreases levels.len(),
{
    let kept = without_level(levels, i as int);
    assert(kept.push((i, level)).drop_last() =~= kept);
    if i != j {
        lemma_without_level(levels, i as int, j as int);
    }
}

proof fn lemma_without_level(levels: Seq<(usize, u8)>, i: int, j: int)
    requires
        i != j,
    ensures
        level_at(without_level(levels, i), j) == level_at(levels, j),
    decreases levels.len(),
{
    if levels.len() > 0 {
        lemma_without_level(levels.drop_last(), i, j);
        let init = without_level(levels.drop_last(), i);
        if levels.last().0 != i {
            assert(init.push(levels.last()).drop_last() =~= init);
        }
    }
}

fn find_level(levels: &Vec<(usize, u8)>, i: usize) -> (r: Option<u8>)
    ensures
        r == level_at(levels@, i as int),
{
    let mut n: usize = levels.len();
    assert(levels@.take(n as int) =~= levels@);
    while n > 0
        invariant
            n <= levels@.len(),
            level_at(levels@, i as int) == level_at(levels@.take(n as int), i as int),
        decreases n,
    {
        assert(levels@.take(n as int).drop_last() =~= levels@.take(n - 1));
        assert(levels@.take(n as int).last() == levels@[n - 1]);
        let (k, level) = levels[n - 1];
        if k == i {
            return Some(level);
        }
        n -= 1;
    }
    None
}

fn set_level(levels: &mut Vec<(usize, u8)>, i: usize, level: u8)
    ensures
        final(levels)@ == with_level(old(levels)@, i, level),
{
    let ghost all = levels@;
    let mut out: Vec<(usize, u8)> = Vec::new();
    let mut k: usize = 0;
    assert(all.take(0) =~= seq![]);
    while k < levels.len()
        invariant
            all == levels@,
            k <= levels@.len(),
            out@ == without_level(all.take(k as int), i as int),
        decreases levels.len() - k,
    {
        let pair = levels[k];
        if pair.0 != i {
            out.push(pair);
        }
        k += 1;
        assert(all.take(k as int).drop_last() =~= all.take(k - 1));
        assert(all.take(k as int).last() == pair);
    }
    assert(all.take(all.len() as int) =~= all);
    out.push((i, level));
    *levels = out;
}

fn keep_levels_below(levels: &mut Vec<(usize, u8)>, n: usize)
    ensures
        final(levels)@ == levels_below(old(levels)@, n as int),
{
    let ghost all = levels@;
    let mut out: Vec<(usize, u8)> = Vec::new();
    let mut k: usize = 0;
    assert(all.take(0) =~= seq![]);
    while k < levels.len()
        invariant
            all == levels@,
            k <= levels@.len(),
            out@ == levels_below(all.take(k as int), n as int),
        decreases levels.len() - k,
    {
        let pair = levels[k];
        if pair.0 < n {
            out.push(pair);
        }
        k += 1;
        assert(all.take(k as int).drop_last() =~= all.take(k - 1));
        assert(all.take(k as int).last() == pair);
    }
    assert(all.take(all.len() as int) =~= all);
    *levels = out;
}

pub(crate) fn has_index(v: &Vec<usize>, i: usize) -> (r: bool)
    ensures
        r == v@.contains(i),
{
    let mut k: usize = 0;
    while k < v.len()
        invariant
            k <= v@.len(),
            forall|j: int| 0 <= j < k ==> v@[j] != i,
        decreases v.len() - k,
    {
        if v[k] == i {
            assert(v@[k as int] == i);
            return true;
        }
        k += 1;
    }
    false
}

fn move_levels(levels: &mut Vec<(usize, u8)>, removed: &Vec<usize>)
    requires
        levels_can_move(old(levels)@, removed@),
    ensures
        final(levels)@ == levels_after(old(levels)@, removed@),
{
    let ghost all = levels@;
    let mut out: Vec<(usize, u8)> = Vec::new();
    let mut k: usize = 0;
    assert(all.take(0) =~= seq![]);
    while k < levels.len()
        invariant
            all == levels@,
            levels_can_move(all, removed@),
            k <= levels@.len(),
            out@ == levels_after(all.take(k as int), removed@),
        decreases levels.len() - k,
    {
        let (i, level) = levels[k];
        if !has_index(removed, i) {
            if removed.len() > 0 && i > removed[0] {
                assert(all[k as int].0 >= removed@.len());
                out.push((i - removed.len(), level));
            } else {
                out.push((i, level));
            }
        }
        k += 1;
        assert(all.take(k as int).drop_last() =~= all.take(k - 1));
        assert(all.take(k as int).last() == (i, level));
    }
    assert(all.take(all.len() as int) =~= all);
    *levels = out;
}

// ── The pane ─────────────────────────────────────────────────────────────────

/// The state of the chat pane.
pub struct ChatState {
    /// The rendered lines.
    pub lines: Vec<Line>,
    /// The conversation.
    pub segments: Vec<ChatSegment>,
    /// What the assistant has said of an answer that is not complete.
    pub streaming_buffer: String,
    /// What is being received is a thought.
    pub streaming_is_thinking: bool,
    /// For each segment the lines that it takes up: the first one, and the one
    /// behind the last.
    pub segment_line_ranges: Vec<(usize, usize)>,
    /// The topmost visible line.
    pub scroll_offset: u16,
    /// New content scrolls the pane to the bottom.
    pub auto_scroll: bool,
    /// The levels that were set, by segment.
    pub expand_level: Vec<(usize, ExpandLevel)>,
    /// The lines that carry a label for editing.
    pub edit_labels: Vec<usize>,
    /// The lines that carry a label for removing.
    pub remove_labels: Vec<usize>,
    /// The lines that carry a label for running again.
    pub rerun_labels: Vec<usize>,
    /// The lines that carry a label for copying.
    pub copy_labels: Vec<usize>,
    /// The highlighted segment.
    pub focused_segment: Option<usize>,
    /// The names of the tools, by call.
    pub tool_args: StringHashMap<String>,
    /// How long the finished calls took, in milliseconds.
    pub tool_durations: StringHashMap<u64>,
    /// What the running calls have put out.
    pub tool_streaming_content: StringHashMap<String>,
    /// Where a selection with the mouse began: the line and the column.
    pub selection_anchor: Option<(usize, u16)>,
    /// Where a selection with the mouse ends.
    pub selection_end: Option<(usize, u16)>,
    /// A selection is being drawn.
    pub is_selecting: bool,
}

pub struct ChatView {
    pub lines: Seq<Seq<SpanView>>,
    pub segments: Seq<SegmentView>,
    pub streaming_buffer: Seq<char>,
    pub streaming_is_thinking: bool,
    pub segment_line_ranges: Seq<(usize, usize)>,
    pub scroll_offset: u16,
    pub auto_scroll: bool,
    pub expand_level: Seq<(usize, u8)>,
    pub edit_labels: Seq<usize>,
    pub remove_labels: Seq<usize>,
    pub rerun_labels: Seq<usize>,
    pub copy_labels: Seq<usize>,
    pub focused_segment: Option<usize>,
    pub tool_args: Map<Seq<char>, Seq<char>>,
    pub tool_durations: Map<Seq<char>, u64>,
    pub tool_streaming_content: Map<Seq<char>, Seq<char>>,
    pub selection_anchor: Option<(usize, u16)>,
    pub selection_end: Option<(usize, u16)>,
    pub is_selecting: bool,
}

impl View for ChatState {
    type V = ChatView;

    open spec fn view(&self) -> ChatView {
        ChatView {
            lines: line_views(self.lines@),
            segments: segment_views(self.segments@),
            streaming_buffer: self.streaming_buffer@,
            streaming_is_thinking: self.streaming_is_thinking,
            segment_line_ranges: self.segment_line_ranges@,
            scroll_offset: self.scroll_offset,
            auto_scroll: self.auto_scroll,
            expand_level: self.expand_level@,
            edit_labels: self.edit_labels@,
            remove_labels: self.remove_labels@,
            rerun_labels: self.rerun_labels@,
            copy_labels: self.copy_labels@,
            focused_segment: self.focused_segment,
            tool_args: text_map(self.tool_args@),
            tool_durations: self.tool_durations@,
            tool_streaming_content: text_map(self.tool_streaming_content@),
            selection_anchor: self.selection_anchor,
            selection_end: self.selection_end,
            is_selecting: self.is_selecting,
        }
    }
}

/// The lower sixteen bits of a number.
pub open spec fn low16(n: int) -> u16 {
    (n % 0x10000) as u16
}

/// The lower sixteen bits of a number.
pub fn low_half(n: usize) -> (r: u16)
    ensures
        r == low16(n as int),
{
    assert((#[verifier::truncate] (n as u16)) == n % 0x10000usize) by (bit_vector);
    #[verifier::truncate] (n as u16)
}

/// A difference, or zero.
pub open spec fn minus(a: int, b: int) -> int {
    if a < b {
        0
    } else {
        a - b
    }
}

/// The indices of the segments that leave with a segment: itself and, where it
/// is a tool call or its result, all others of the same call, in order.
pub open spec fn removed_with(segs: Seq<SegmentView>, idx: int, n: int) -> Seq<usize>
    decreases n,
{
    if n <= 0 {
        seq![]
    } else {
        let init = removed_with(segs, idx, n - 1);
        let i = n - 1;
        if i == idx || (tool_call_id(segs[idx]) is Some && tool_call_id(segs[i]) == tool_call_id(
            segs[idx],
        )) {
            init.push(i as usize)
        } else {
            init
        }
    }
}

/// The indices that leave with a segment; an index without a segment leaves
/// alone.
pub open spec fn leaving(segs: Seq<SegmentView>, idx: usize) -> Seq<usize> {
    if idx < segs.len() {
        removed_with(segs, idx as int, segs.len() as int)
    } else {
        seq![idx]
    }
}

/// The segments, up to an index, that stay.
pub open spec fn staying(segs: Seq<SegmentView>, removed: Seq<usize>, n: int) -> Seq<SegmentView>
    decreases n,
{
    if n <= 0 {
        seq![]
    } else {
        let init = staying(segs, removed, n - 1);
        if removed.contains((n - 1) as usize) {
            init
        } else {
            init.push(segs[n - 1])
        }
    }
}

/// A segment that a click folds or unfolds.
pub open spec fn collapsible(seg: SegmentView) -> bool {
    match seg {
        SegmentView::Message(m) => match (m.role, m.content) {
            (Role::User, ContentView::Text(_)) => true,
            (Role::Assistant, ContentView::Text(_)) => true,
            (Role::Assistant, ContentView::ToolCall { .. }) => true,
            (Role::Tool, ContentView::ToolResult { .. }) => true,
            _ => false,
        },
        SegmentView::Thinking { .. } => true,
        _ => false,
    }
}

impl ChatView {
    /// The pane of a new conversation.
    pub open spec fn empty() -> ChatView {
        ChatView {
            lines: seq![],
            segments: seq![],
            streaming_buffer: seq![],
            streaming_is_thinking: false,
            segment_line_ranges: seq![],
            scroll_offset: 0,
            auto_scroll: true,
            expand_level: seq![],
            edit_labels: seq![],
            remove_labels: seq![],
            rerun_labels: seq![],
            copy_labels: seq![],
            focused_segment: None,
            tool_args: Map::empty(),
            tool_durations: Map::empty(),
            tool_streaming_content: Map::empty(),
            selection_anchor: None,
            selection_end: None,
            is_selecting: false,
        }
    }

    /// The level at which a segment is shown.
    pub open spec fn level(self, i: int) -> u8 {
        match level_at(self.expand_level, i) {
            Some(l) => l,
            None => default_level(self.segments[i]),
        }
    }

    /// The largest scroll offset.
    pub open spec fn max_scroll(self, height: u16) -> u16 {
        minus(low16(self.lines.len() as int) as int, height as int) as u16
    }

    /// Scrolled up.
    pub open spec fn up(self, n: u16) -> ChatView {
        ChatView {
            scroll_offset: minus(self.scroll_offset as int, n as int) as u16,
            auto_scroll: false,
            ..self
        }
    }

    /// Scrolled down: not past the bottom, where new content is followed again.
    pub open spec fn down(self, n: u16, height: u16) -> ChatView {
        let max = self.max_scroll(height);
        let to = if self.scroll_offset + n < max {
            (self.scroll_offset + n) as u16
        } else {
            max
        };
        ChatView { scroll_offset: to, auto_scroll: self.auto_scroll || to >= max, ..self }
    }

    /// Scrolled to the bottom.
    pub open spec fn at_bottom(self, height: u16) -> ChatView {
        ChatView { scroll_offset: self.max_scroll(height), ..self }
    }

    /// Scrolled so that a segment can be seen.
    pub open spec fn showing(self, i: int, height: u16) -> ChatView {
        if 0 <= i < self.segment_line_ranges.len() {
            let (start, end) = self.segment_line_ranges[i];
            let to = if low16(start as int) < self.scroll_offset {
                low16(start as int)
            } else if end > self.scroll_offset + height {
                low16(minus(end as int, height as int))
            } else {
                self.scroll_offset
            };
            ChatView { scroll_offset: to, auto_scroll: false, ..self }
        } else {
            self
        }
    }

    /// The segment in the middle of the pane highlighted.
    pub open spec fn focused_on_middle(self, height: u16) -> ChatView {
        ChatView {
            focused_segment: range_with(
                self.segment_line_ranges,
                self.scroll_offset + height / 2,
                0,
            ),
            ..self
        }
    }

    /// Without a selection.
    pub open spec fn unselected(self) -> ChatView {
        ChatView { selection_anchor: None, selection_end: None, is_selecting: false, ..self }
    }

    /// Cut off behind `n` segments.
    pub open spec fn cut(self, n: usize) -> ChatView {
        ChatView {
            segments: if n < self.segments.len() {
                self.segments.take(n as int)
            } else {
                self.segments
            },
            expand_level: levels_below(self.expand_level, n as int),
            ..self
        }
    }

    /// A segment taken out, with all that belongs to the same tool call.
    pub open spec fn without_segment(self, idx: usize) -> ChatView {
        let gone = leaving(self.segments, idx);
        ChatView {
            segments: staying(self.segments, gone, self.segments.len() as int),
            expand_level: levels_after(self.expand_level, gone),
            focused_segment: None,
            ..self
        }
    }

    /// The levels after a click on a segment: it folds or unfolds, and with a
    /// call its folded result unfolds too.
    pub open spec fn clicked_levels(self, i: usize) -> Seq<(usize, u8)> {
        let next = if self.level(i as int) == 0 {
            2u8
        } else {
            0u8
        };
        let first = with_level(self.expand_level, i, next);
        if next == 2 && is_paired(self.segments, i as int) && (ChatView {
            expand_level: first,
            ..self
        }).level(i + 1) == 0 {
            with_level(first, (i + 1) as usize, 2)
        } else {
            first
        }
    }

    /// The selection from its start to its end.
    pub open spec fn selection(self) -> Option<(usize, u16, usize, u16)> {
        match (self.selection_anchor, self.selection_end) {
            (Some(a), Some(e)) => if a.0 < e.0 || (a.0 == e.0 && a.1 <= e.1) {
                Some((a.0, a.1, e.0, e.1))
            } else {
                Some((e.0, e.1, a.0, a.1))
            },
            _ => None,
        }
    }
}

impl ChatState {
    /// The pane of a new conversation.
    pub fn new() -> (r: ChatState)
        ensures
            r@ == ChatView::empty(),
    {
        let r = ChatState {
            lines: Vec::new(),
            segments: Vec::new(),
            streaming_buffer: String::new(),
            streaming_is_thinking: false,
            segment_line_ranges: Vec::new(),
            scroll_offset: 0,
            auto_scroll: true,
            expand_level: Vec::new(),
            edit_labels: Vec::new(),
            remove_labels: Vec::new(),
            rerun_labels: Vec::new(),
            copy_labels: Vec::new(),
            focused_segment: None,
            tool_args: StringHashMap::new(),
            tool_durations: StringHashMap::new(),
            tool_streaming_content: StringHashMap::new(),
            selection_anchor: None,
            selection_end: None,
            is_selecting: false,
        };
        proof {
            let e = ChatView::empty();
            assert(r@.lines =~= e.lines);
            assert(r@.segments =~= e.segments);
            assert(r@.streaming_buffer =~= e.streaming_buffer);
            assert(r@.segment_line_ranges =~= e.segment_line_ranges);
            assert(r@.expand_level =~= e.expand_level);
            assert(r@.edit_labels =~= e.edit_labels);
            assert(r@.remove_labels =~= e.remove_labels);
            assert(r@.rerun_labels =~= e.rerun_labels);
            assert(r@.copy_labels =~= e.copy_labels);
            assert(r@.tool_args =~= e.tool_args);
            assert(r@.tool_durations =~= e.tool_durations);
            assert(r@.tool_streaming_content =~= e.tool_streaming_content);
        }
        r
    }

    /// The selection from its start to its end, if there is a complete one.
    pub fn normalized_selection(&self) -> (r: Option<(usize, u16, usize, u16)>)
        ensures
            r == self@.selection(),
    {
        match (self.selection_anchor, self.selection_end) {
            (Some((a_line, a_col)), Some((e_line, e_col))) => {
                if a_line < e_line || (a_line == e_line && a_col <= e_col) {
                    Some((a_line, a_col, e_line, e_col))
                } else {
                    Some((e_line, e_col, a_line, a_col))
                }
            },
            _ => None,
        }
    }

    /// The level at which a segment is shown.
    pub fn effective_expand_level(&self, idx: usize, seg: &ChatSegment) -> (r: ExpandLevel)
        ensures
            r == (match level_at(self@.expand_level, idx as int) {
                Some(l) => l,
                None => default_level(seg@),
            }),
    {
        match find_level(&self.expand_level, idx) {
            Some(level) => level,
            None => default_expand_level(seg),
        }
    }

    /// Sets the level of a segment.
    pub fn set_expand_level(&mut self, idx: usize, level: ExpandLevel)
        ensures
            final(self)@ == (ChatView {
                expand_level: with_level(old(self)@.expand_level, idx, level),
                ..old(self)@
            }),
    {
        set_level(&mut self.expand_level, idx, level);
    }

    /// The largest scroll offset.
    pub fn max_scroll(&self, height: u16) -> (r: u16)
        ensures
            r == self@.max_scroll(height),
    {
        let n: usize = self.lines.len();
        assert(self@.lines.len() == n);
        low_half(n).saturating_sub(height)
    }

    /// Scrolls up.
    pub fn scroll_up(&mut self, n: u16)
        ensures
            final(self)@ == old(self)@.up(n),
    {
        self.scroll_offset = self.scroll_offset.saturating_sub(n);
        self.auto_scroll = false;
    }

    /// Scrolls down, not past the bottom.
    pub fn scroll_down(&mut self, n: u16, height: u16)
        requires
            old(self).scroll_offset + n <= u16::MAX,
        ensures
            final(self)@ == old(self)@.down(n, height),
    {
        let max: u16 = self.max_scroll(height);
        let to: u16 = self.scroll_offset + n;
        self.scroll_offset = if to < max {
            to
        } else {
            max
        };
        if self.scroll_offset >= max {
            self.auto_scroll = true;
        }
    }

    /// Scrolls to the bottom, where new content is followed and the pane shows
    /// it itself.
    pub fn scroll_to_bottom(&mut self, has_bridge: bool, height: u16)
        ensures
            final(self)@ == (if !has_bridge && old(self)@.auto_scroll {
                old(self)@.at_bottom(height)
            } else {
                old(self)@
            }),
    {
        if !has_bridge && self.auto_scroll {
            self.scroll_offset = self.max_scroll(height);
        }
    }

    /// Scrolls so that a segment can be seen.
    pub fn scroll_chat_to_show_segment(&mut self, seg_idx: usize, height: u16)
        ensures
            final(self)@ == old(self)@.showing(seg_idx as int, height),
    {
        if seg_idx >= self.segment_line_ranges.len() {
            return ;
        }
        let (seg_start, seg_end) = self.segment_line_ranges[seg_idx];
        let start: u16 = low_half(seg_start);
        let h: usize = height as usize;
        if start < self.scroll_offset {
            self.scroll_offset = start;
        } else if seg_end > self.scroll_offset as usize + h {
            self.scroll_offset = low_half(seg_end.saturating_sub(h));
        }
        self.auto_scroll = false;
    }

    /// Highlights the segment in the middle of the pane.
    pub fn recompute_focused_segment(&mut self, height: u16)
        ensures
            final(self)@ == old(self)@.focused_on_middle(height),
    {
        let center: usize = self.scroll_offset as usize + height as usize / 2;
        self.focused_segment = segment_at_line(&self.segment_line_ranges, center);
    }

    /// Takes the selection back.
    pub fn clear_selection(&mut self)
        ensures
            final(self)@ == old(self)@.unselected(),
    {
        self.selection_anchor = None;
        self.selection_end = None;
        self.is_selecting = false;
    }

    /// Cuts the conversation off behind `n` segments.
    pub fn truncate(&mut self, n: usize)
        ensures
            final(self)@ == old(self)@.cut(n),
    {
        let ghost before = self.segments@;
        self.segments.truncate(n);
        keep_levels_below(&mut self.expand_level, n);
        proof {
            if n < before.len() {
                assert(segment_views(self.segments@) =~= segment_views(before).take(n as int));
            } else {
                assert(self.segments@ =~= before);
            }
        }
    }

    /// The result that follows the call of a segment.
    pub fn paired_result_for(&self, idx: usize) -> (r: Option<usize>)
        ensures
            r == (if is_paired(self@.segments, idx as int) {
                Some((idx + 1) as usize)
            } else {
                None
            }),
    {
        get_paired_result_idx(&self.segments, idx)
    }

    /// The indices that leave with a segment.
    pub fn leaving_with(&self, idx: usize) -> (r: Vec<usize>)
        ensures
            r@ == leaving(self@.segments, idx),
    {
        let ghost segs = self@.segments;
        let n: usize = self.segments.len();
        assert(segs.len() == n);
        let mut out: Vec<usize> = Vec::new();
        if idx >= n {
            out.push(idx);
            assert(out@ =~= seq![idx]);
            return out;
        }
        assert(segs[idx as int] == self.segments@[idx as int]@);
        let own = segment_tool_call_id(&self.segments[idx]);
        let mut i: usize = 0;
        while i < n
            invariant
                segs == self@.segments,
                n == self.segments@.len(),
                segs.len() == n,
                idx < n,
                i <= n,
                crate::text::opt_view(own) == tool_call_id(segs[idx as int]),
                out@ == removed_with(segs, idx as int, i as int),
            decreases n - i,
        {
            assert(segs[i as int] == self.segments@[i as int]@);
            let same = match (own, segment_tool_call_id(&self.segments[i])) {
                (Some(a), Some(b)) => str_eq(a, b),
                _ => false,
            };
            if i == idx || same {
                out.push(i);
            }
            i += 1;
        }
        out
    }

    /// Takes a segment out, with all that belongs to the same tool call.
    pub fn remove_segment(&mut self, idx: usize)
        requires
            levels_can_move(old(self)@.expand_level, leaving(old(self)@.segments, idx)),
        ensures
            final(self)@ == old(self)@.without_segment(idx),
    {
        let ghost segs = self@.segments;
        let gone = self.leaving_with(idx);
        let n: usize = self.segments.len();
        let mut out: Vec<ChatSegment> = Vec::new();
        let mut i: usize = 0;
        assert(segment_views(out@) =~= seq![]);
        while i < n
            invariant
                segs == segment_views(self.segments@),
                n == self.segments@.len(),
                i <= n,
                self@ == old(self)@,
                segment_views(out@) == staying(segs, gone@, i as int),
            decreases n - i,
        {
            if !has_index(&gone, i) {
                let copy = self.segments[i].clone();
                let ghost before = out@;
                assert(segs[i as int] == self.segments@[i as int]@);
                out.push(copy);
                assert(segment_views(out@) =~= segment_views(before).push(copy@));
            }
            i += 1;
        }
        self.segments = out;
        move_levels(&mut self.expand_level, &gone);
        self.focused_segment = None;
    }

    /// Folds or unfolds a segment, and with an unfolded call its result.
    pub fn click_segment(&mut self, i: usize)
        requires
            i < old(self).segments@.len(),
        ensures
            final(self)@ == (ChatView {
                expand_level: old(self)@.clicked_levels(i),
                ..old(self)@
            }),
    {
        let ghost v = self@;
        let n: usize = self.segments.len();
        assert(v.segments.len() == n);
        assert(v.segments[i as int] == self.segments@[i as int]@);
        let cur: u8 = self.effective_expand_level(i, &self.segments[i]);
        let next: u8 = if cur == 0 {
            2
        } else {
            0
        };
        self.set_expand_level(i, next);
        if next == 2 {
            if let Some(result) = self.paired_result_for(i) {
                assert(v.segments[result as int] == self.segments@[result as int]@);
                let level: u8 = self.effective_expand_level(result, &self.segments[result]);
                if level == 0 {
                    self.set_expand_level(result, 2);
                }
            }
        }
    }
}

/// Whether a click folds or unfolds a segment.
pub fn segment_is_collapsible(seg: &ChatSegment) -> (r: bool)
    ensures
        r == collapsible(seg@),
{
    match seg {
        ChatSegment::Message(m) => match (&m.role, &m.content) {
            (Role::User, MessageContent::Text(_)) => true,
            (Role::Assistant, MessageContent::Text(_)) => true,
            (Role::Assistant, MessageContent::ToolCall { .. }) => true,
            (Role::Tool, MessageContent::ToolResult { .. }) => true,
            _ => false,
        },
        ChatSegment::Thinking { .. } => true,
        _ => false,
    }
}

// ── Laws ─────────────────────────────────────────────────────────────────────

/// Scrolling never leaves the pane below the last page, and at the bottom new
/// content is followed again.
pub proof fn law_scroll_stays_in_range(v: ChatView, n: u16, height: u16)
    ensures
        v.down(n, height).scroll_offset <= v.max_scroll(height),
        v.down(n, height).scroll_offset == v.max_scroll(height) ==> v.down(n, height).auto_scroll,
        v.up(n).scroll_offset <= v.scroll_offset,
        !v.up(n).auto_scroll,
{
}

/// The start of a selection does not lie behind its end.
pub proof fn law_selection_is_ordered(v: ChatView)
    ensures
        v.selection() matches Some((a, b, c, d)) ==> a < c || (a == c && b <= d),
{
}

/// A segment that is scrolled to can be seen: its first line where it does not
/// fit, all of it where it does. It holds as long as lines are counted within
/// sixteen bits.
pub proof fn law_shown_segment_is_visible(v: ChatView, i: int, height: u16)
    requires
        0 <= i < v.segment_line_ranges.len(),
        v.segment_line_ranges[i].0 <= v.segment_line_ranges[i].1 <= 0xffff,
        height > 0,
    ensures
        ({
            let (start, end) = v.segment_line_ranges[i];
            let at = v.showing(i, height).scroll_offset;
            end - start <= height ==> at <= start && end <= at + height
        }),
{
}

/// With a tool call its result leaves the conversation, and the other way
/// round: no segment of the same call stays.
pub proof fn law_call_and_result_leave_together(segs: Seq<SegmentView>, idx: usize, i: int)
    requires
        idx < segs.len() <= usize::MAX,
        0 <= i < segs.len(),
    ensures
        leaving(segs, idx).contains(i as usize) <==> i == idx || (tool_call_id(segs[idx as int]) is Some
            && tool_call_id(segs[i]) == tool_call_id(segs[idx as int])),
{
    lemma_removed_with(segs, idx as int, segs.len() as int, i);
}

proof fn lemma_removed_with(segs: Seq<SegmentView>, idx: int, n: int, i: int)
    requires
        0 <= idx < segs.len() <= usize::MAX,
        0 <= i < segs.len(),
        0 <= n <= segs.len(),
    ensures
        removed_with(segs, idx, n).contains(i as usize) <==> i < n && (i == idx || (tool_call_id(
            segs[idx],
        ) is Some && tool_call_id(segs[i]) == tool_call_id(segs[idx]))),
    decreases n,
{
    if n > 0 {
        lemma_removed_with(segs, idx, n - 1, i);
        let init = removed_with(segs, idx, n - 1);
        let all = removed_with(segs, idx, n);
        if all != init {
            let x = (n - 1) as usize;
            assert(all == init.push(x));
            assert(all.last() == x);
            if init.contains(i as usize) {
                let k = choose|k: int| 0 <= k < init.len() && init[k] == i as usize;
                assert(all[k] == i as usize);
            }
            if all.contains(i as usize) && i != n - 1 {
                let k = choose|k: int| 0 <= k < all.len() && all[k] == i as usize;
                assert(init[k] == i as usize);
            }
        }
    }
}

} // verus!
