//! What can be done with the segments of a conversation.

use vstd::prelude::*;

use crate::chat::segment::{
    message_views, segment_views, todo_views, ChatSegment, ContentView, Message, MessageContent,
    MessageView, Role, SegmentView, TodoItem,
};
use crate::chat::tools::{call_id_of, result_id_of};
use crate::commands::completion::opt_string_view;
use crate::text::opt_view;

verus! {

// ── Copies ───────────────────────────────────────────────────────────────────

impl Clone for TodoItem {
    fn clone(&self) -> (r: Self)
        ensures
            r@ == self@,
    {
        TodoItem {
            id: self.id.clone(),
            content: self.content.clone(),
            status: self.status.clone(),
        }
    }
}

/// A copy of a todo list.
pub fn clone_todos(v: &Vec<TodoItem>) -> (r: Vec<TodoItem>)
    ensures
        todo_views(r@) == todo_views(v@),
{
    let mut out: Vec<TodoItem> = Vec::new();
    let mut i: usize = 0;
    while i < v.len()
        invariant
            i <= v@.len(),
            out@.len() == i,
            forall|k: int| 0 <= k < i ==> (#[trigger] out@[k])@ == v@[k]@,
        decreases v.len() - i,
    {
        out.push(v[i].clone());
        i += 1;
    }
    assert(todo_views(out@) =~= todo_views(v@));
    out
}

impl Clone for ChatSegment {
    fn clone(&self) -> (r: Self)
        ensures
            r@ == self@,
    {
        match self {
            ChatSegment::Message(m) => ChatSegment::Message(m.clone()),
            ChatSegment::ContextCompacted { tokens_before, tokens_after, strategy, turn } => {
                ChatSegment::ContextCompacted {
                    tokens_before: *tokens_before,
                    tokens_after: *tokens_after,
                    strategy: *strategy,
                    turn: *turn,
                }
            },
            ChatSegment::Error(e) => ChatSegment::Error(e.clone()),
            ChatSegment::Thinking { content } => ChatSegment::Thinking { content: content.clone() },
            ChatSegment::TodoUpdate(todos) => ChatSegment::TodoUpdate(clone_todos(todos)),
            ChatSegment::CollabEvent(line) => ChatSegment::CollabEvent(line.clone()),
            ChatSegment::DelegateSummary {
                to_name,
                task_title,
                duration_ms,
                status,
                result_preview,
                expanded,
            } => ChatSegment::DelegateSummary {
                to_name: to_name.clone(),
                task_title: task_title.clone(),
                duration_ms: *duration_ms,
                status: status.clone(),
                result_preview: result_preview.clone(),
                expanded: *expanded,
            },
        }
    }
}

/// A copy of a list of segments.
pub fn clone_segments(v: &Vec<ChatSegment>) -> (r: Vec<ChatSegment>)
    ensures
        segment_views(r@) == segment_views(v@),
{
    let mut out: Vec<ChatSegment> = Vec::new();
    let mut i: usize = 0;
    while i < v.len()
        invariant
            i <= v@.len(),
            out@.len() == i,
            forall|k: int| 0 <= k < i ==> (#[trigger] out@[k])@ == v@[k]@,
        decreases v.len() - i,
    {
        out.push(v[i].clone());
        i += 1;
    }
    assert(segment_views(out@) =~= segment_views(v@));
    out
}

/// Appends a segment.
pub fn push_segment(segments: &mut Vec<ChatSegment>, seg: ChatSegment)
    ensures
        segment_views(final(segments)@) == segment_views(old(segments)@).push(seg@),
        final(segments)@.len() == old(segments)@.len() + 1,
{
    segments.push(seg);
    assert(segment_views(segments@) =~= segment_views(old(segments)@).push(seg@));
}

// ── What a segment allows ────────────────────────────────────────────────────

/// The text of a message of the user or the assistant.
pub open spec fn editable_text(seg: SegmentView) -> Option<Seq<char>> {
    match seg {
        SegmentView::Message(m) => match (m.role, m.content) {
            (Role::User, ContentView::Text(t)) => Some(t),
            (Role::Assistant, ContentView::Text(t)) => Some(t),
            _ => None,
        },
        _ => None,
    }
}

/// A segment with its editable text replaced, if it has one.
pub open spec fn with_text(seg: SegmentView, text: Seq<char>) -> SegmentView {
    match seg {
        SegmentView::Message(m) => if editable_text(seg) is Some {
            SegmentView::Message(MessageView { content: ContentView::Text(text), ..m })
        } else {
            seg
        },
        _ => seg,
    }
}

/// Segments with the editable text of one of them replaced.
pub open spec fn with_text_at(segs: Seq<SegmentView>, i: int, text: Seq<char>) -> Seq<SegmentView> {
    if 0 <= i < segs.len() {
        segs.update(i, with_text(segs[i], text))
    } else {
        segs
    }
}

/// The text of the segment at an index, if it can be edited.
pub fn segment_editable_text(segments: &Vec<ChatSegment>, i: usize) -> (r: Option<String>)
    ensures
        opt_string_view(r) == (if i < segments@.len() {
            editable_text(segments@[i as int]@)
        } else {
            None
        }),
{
    if i >= segments.len() {
        return None;
    }
    match &segments[i] {
        ChatSegment::Message(m) => match (&m.role, &m.content) {
            (Role::User, MessageContent::Text(t)) => Some(t.clone()),
            (Role::Assistant, MessageContent::Text(t)) => Some(t.clone()),
            _ => None,
        },
        _ => None,
    }
}

/// Replaces the editable text of a segment.
pub fn set_segment_text(segments: &mut Vec<ChatSegment>, i: usize, text: &str)
    ensures
        segment_views(final(segments)@) == with_text_at(
            segment_views(old(segments)@),
            i as int,
            text@,
        ),
        final(segments)@.len() == old(segments)@.len(),
{
    let ghost before = segment_views(segments@);
    if i < segments.len() {
        assert(before[i as int] == segments@[i as int]@);
        let changed = match &segments[i] {
            ChatSegment::Message(m) => match (&m.role, &m.content) {
                (Role::User, MessageContent::Text(_)) => Some(Role::User),
                (Role::Assistant, MessageContent::Text(_)) => Some(Role::Assistant),
                _ => None,
            },
            _ => None,
        };
        if let Some(role) = changed {
            let m = Message { role, content: MessageContent::Text(text.to_owned()) };
            segments.set(i, ChatSegment::Message(m));
        }
    }
    assert(segment_views(segments@) =~= with_text_at(before, i as int, text@));
}

/// A segment that can be taken out of the conversation: a message or a thought.
pub open spec fn removable(seg: SegmentView) -> bool {
    seg is Message || seg is Thinking
}

/// Whether a segment can be taken out of the conversation.
pub fn segment_is_removable(seg: &ChatSegment) -> (r: bool)
    ensures
        r == removable(seg@),
{
    match seg {
        ChatSegment::Message(_) => true,
        ChatSegment::Thinking { .. } => true,
        _ => false,
    }
}

/// A segment from which the conversation can be run again: one that answers the
/// user.
pub open spec fn rerunnable(seg: SegmentView) -> bool {
    match seg {
        SegmentView::Message(m) => m.role is Assistant || m.role is Tool,
        _ => false,
    }
}

/// Whether the conversation can be run again from a segment.
pub fn segment_is_rerunnable(seg: &ChatSegment) -> (r: bool)
    ensures
        r == rerunnable(seg@),
{
    match seg {
        ChatSegment::Message(m) => match m.role {
            Role::Assistant => true,
            Role::Tool => true,
            _ => false,
        },
        _ => false,
    }
}

/// The call that a segment makes or answers.
pub open spec fn tool_call_id(seg: SegmentView) -> Option<Seq<char>> {
    if call_id_of(seg) is Some {
        call_id_of(seg)
    } else {
        result_id_of(seg)
    }
}

/// The call that a segment makes or answers.
pub fn segment_tool_call_id(seg: &ChatSegment) -> (r: Option<&str>)
    ensures
        opt_view(r) == tool_call_id(seg@),
{
    match seg {
        ChatSegment::Message(m) => match &m.content {
            MessageContent::ToolCall { tool_call_id, .. } => Some(tool_call_id.as_str()),
            MessageContent::ToolResult { tool_call_id, .. } => Some(tool_call_id.as_str()),
            _ => None,
        },
        _ => None,
    }
}

/// The messages among segments.
pub open spec fn messages_of(segs: Seq<SegmentView>) -> Seq<MessageView>
    decreases segs.len(),
{
    if segs.len() == 0 {
        seq![]
    } else {
        let init = messages_of(segs.drop_last());
        match segs.last() {
            SegmentView::Message(m) => init.push(m),
            _ => init,
        }
    }
}

/// The messages of a conversation, as they are sent to the agent again.
pub fn messages_for_resubmit(segments: &Vec<ChatSegment>) -> (r: Vec<Message>)
    ensures
        message_views(r@) == messages_of(segment_views(segments@)),
{
    let ghost segs = segment_views(segments@);
    let mut out: Vec<Message> = Vec::new();
    let mut i: usize = 0;
    assert(segs.take(0) =~= seq![]);
    assert(message_views(out@) =~= seq![]);
    while i < segments.len()
        invariant
            segs == segment_views(segments@),
            i <= segments@.len(),
            message_views(out@) == messages_of(segs.take(i as int)),
        decreases segments.len() - i,
    {
        let ghost before = out@;
        if let ChatSegment::Message(m) = &segments[i] {
            let copy = m.clone();
            out.push(copy);
            assert(message_views(out@) =~= message_views(before).push(copy@));
        }
        i += 1;
        proof {
            assert(segs.take(i as int).drop_last() =~= segs.take(i - 1));
            assert(segs.take(i as int).last() == segments@[i - 1]@);
        }
    }
    assert(segs.take(segs.len() as int) =~= segs);
    out
}

/// The segments of messages.
pub open spec fn as_message_segments(ms: Seq<MessageView>) -> Seq<SegmentView> {
    ms.map_values(|m: MessageView| SegmentView::Message(m))
}

/// Each message as a segment.
pub fn segments_of_messages(messages: &Vec<Message>) -> (r: Vec<ChatSegment>)
    ensures
        segment_views(r@) == as_message_segments(message_views(messages@)),
{
    let mut out: Vec<ChatSegment> = Vec::new();
    let mut i: usize = 0;
    while i < messages.len()
        invariant
            i <= messages@.len(),
            out@.len() == i,
            forall|k: int|
                0 <= k < i ==> (#[trigger] out@[k])@ == SegmentView::Message(messages@[k]@),
        decreases messages.len() - i,
    {
        out.push(ChatSegment::Message(messages[i].clone()));
        i += 1;
    }
    assert(segment_views(out@) =~= as_message_segments(message_views(messages@)));
    out
}

/// Messages sent again are those that the segments were made of.
pub proof fn law_messages_survive_as_segments(ms: Seq<MessageView>)
    ensures
        messages_of(as_message_segments(ms)) == ms,
    decreases ms.len(),
{
    let segs = as_message_segments(ms);
    if ms.len() == 0 {
        assert(segs =~= seq![]);
        assert(messages_of(segs) =~= ms);
    } else {
        law_messages_survive_as_segments(ms.drop_last());
        assert(segs.drop_last() =~= as_message_segments(ms.drop_last()));
        assert(segs.last() == SegmentView::Message(ms.last()));
        assert(ms.drop_last().push(ms.last()) =~= ms);
    }
}

// ── Lines ────────────────────────────────────────────────────────────────────

/// The first range, from index `i` on, that holds a line.
pub open spec fn range_with(ranges: Seq<(usize, usize)>, line: int, i: int) -> Option<usize>
    decreases ranges.len() - i,
{
    if i < 0 || i >= ranges.len() {
        None
    } else if ranges[i].0 <= line < ranges[i].1 {
        Some(i as usize)
    } else {
        range_with(ranges, line, i + 1)
    }
}

/// The segment that a line belongs to.
pub fn segment_at_line(ranges: &Vec<(usize, usize)>, line: usize) -> (r: Option<usize>)
    ensures
        r == range_with(ranges@, line as int, 0),
{
    let mut i: usize = 0;
    while i < ranges.len()
        invariant
            i <= ranges@.len(),
            range_with(ranges@, line as int, 0) == range_with(ranges@, line as int, i as int),
        decreases ranges.len() - i,
    {
        let (start, end) = ranges[i];
        if start <= line && line < end {
            return Some(i);
        }
        i += 1;
    }
    None
}

} // verus!
