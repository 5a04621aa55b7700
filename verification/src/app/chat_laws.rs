//! What the chat promises: what is edited, removed, run again, copied, scrolled
//! and folded, and what stays.

use vstd::prelude::*;

use crate::app::chat_state::{
    collapsible, default_level, law_level_is_kept, leaving, level_at, levels_after, levels_below,
    removed_with, staying, with_level, ChatView,
};
use crate::app::event_laws::law_every_message_is_sent_again;
use crate::app::front::{AppView, EffectView};
use crate::app::queue_state::QueuedView;
use crate::app::steps_chat::last_user_text;
use crate::app::ui_state::FocusPane;
use crate::chat::preview::{base64_text, segment_text};
use crate::chat::segment::{ContentView, MessageView, Role, SegmentView};
use crate::chat::segment_ops::{range_with, tool_call_id};
use crate::chat::tools::is_paired;
use crate::text::{byte_len, trim};

verus! {

/// A text of the user or of the assistant.
pub open spec fn spoken(user: bool, text: Seq<char>) -> SegmentView {
    SegmentView::Message(
        MessageView {
            role: if user {
                Role::User
            } else {
                Role::Assistant
            },
            content: ContentView::Text(text),
        },
    )
}

/// The messages of a conversation, in order.
pub open spec fn messages_in(segs: Seq<SegmentView>) -> Seq<MessageView> {
    segs.filter(|s: SegmentView| s is Message).map_values(|s: SegmentView| s->Message_0)
}

// ── Editing ──────────────────────────────────────────────────────────────────

/// A text of the user or of the assistant can be edited: it stands in the box
/// with the cursor at its end, and what it was is remembered. Nothing else can.
pub proof fn law_texts_can_be_edited(v: AppView, i: usize, user: bool, text: Seq<char>)
    requires
        v.chat.focused_segment == Some(i),
    ensures
        i < v.chat.segments.len() && v.chat.segments[i as int] == spoken(user, text) ==> {
            let r = v.editing_segment();
            &&& r.app.edit.message_index == Some(i)
            &&& r.app.edit.buffer == text
            &&& r.app.edit.cursor == byte_len(text)
            &&& r.app.edit.original_text == Some(text)
            &&& r.app.ui.focus == FocusPane::Input
            &&& r.app.chat.segments == v.chat.segments
            &&& r.app.input == v.input
            &&& r.effects == seq![EffectView::Rebuild, EffectView::Rerender]
        },
        i >= v.chat.segments.len() || !(v.chat.segments[i as int] is Message)
            || !(v.chat.segments[i as int]->Message_0.content is Text)
            || v.chat.segments[i as int]->Message_0.role is Tool
            || v.chat.segments[i as int]->Message_0.role is System ==> v.editing_segment().app == v
            && v.editing_segment().effects.len() == 0,
{
    if i < v.chat.segments.len() && v.chat.segments[i as int] == spoken(user, text) {
        let r = v.editing_segment();
        assert(r.app.chat.segments =~= v.chat.segments);
        assert(r.effects =~= seq![EffectView::Rebuild, EffectView::Rerender]);
    }
}

/// A question that was edited takes the place of the old one and of all that
/// followed it, and is asked with the whole conversation up to it. The changes
/// that waited go with it.
pub proof fn law_edited_question_is_asked_again(v: AppView, i: usize, text: Seq<char>)
    requires
        v.edit.queue_index is None,
        v.edit.message_index == Some(i),
        i < v.chat.segments.len(),
        v.chat.segments[i as int] == spoken(true, text),
        trim(v.edit.buffer).len() > 0,
    ensures
        ({
            let r = v.edit_confirmed();
            let said = v.chat.segments.subrange(0, i as int).push(
                spoken(true, trim(v.edit.buffer)),
            );
            &&& r.app.chat.segments == said
            &&& r.app.edit.message_index is None
            &&& r.app.edit.buffer.len() == 0
            &&& r.app.session.staged_model is None
            &&& r.app.session.staged_mode is None
            &&& r.effects == seq![
                EffectView::Rerender,
                EffectView::ScrollToBottom,
                EffectView::Resubmit(
                    messages_in(said),
                    QueuedView {
                        content: trim(v.edit.buffer),
                        model_transition: v.session.staged_model,
                        mode_transition: v.session.staged_mode,
                    },
                ),
            ]
        }),
{
    let said = v.chat.segments.subrange(0, i as int).push(spoken(true, trim(v.edit.buffer)));
    law_every_message_is_sent_again(said);
    assert(v.chat.segments.take(i as int) =~= v.chat.segments.subrange(0, i as int));
    assert(v.edit_confirmed().effects =~= seq![
        EffectView::Rerender,
        EffectView::ScrollToBottom,
        EffectView::Resubmit(
            messages_in(said),
            QueuedView {
                content: trim(v.edit.buffer),
                model_transition: v.session.staged_model,
                mode_transition: v.session.staged_mode,
            },
        ),
    ]);
}

/// An answer that was edited is changed in its place, and the conversation is
/// saved; nothing is sent.
pub proof fn law_edited_answer_is_changed(v: AppView, i: usize, text: Seq<char>)
    requires
        v.edit.queue_index is None,
        v.edit.message_index == Some(i),
        i < v.chat.segments.len(),
        v.chat.segments[i as int] == spoken(false, text),
        trim(v.edit.buffer).len() > 0,
    ensures
        ({
            let r = v.edit_confirmed();
            &&& r.app.chat.segments == v.chat.segments.update(
                i as int,
                spoken(false, trim(v.edit.buffer)),
            )
            &&& r.app.edit.message_index is None
            &&& r.effects == seq![
                EffectView::Rebuild,
                EffectView::Rerender,
                EffectView::SaveHistory,
            ]
        }),
{
    assert(v.edit_confirmed().effects =~= seq![
        EffectView::Rebuild,
        EffectView::Rerender,
        EffectView::SaveHistory,
    ]);
}

/// An edit that leaves nothing changes nothing and sends nothing.
pub proof fn law_empty_edit_changes_nothing(v: AppView, i: usize)
    requires
        v.edit.queue_index is None,
        v.edit.message_index == Some(i),
        trim(v.edit.buffer).len() == 0,
    ensures
        v.edit_confirmed().app.chat == v.chat,
        v.edit_confirmed().app.edit.message_index is None,
        v.edit_confirmed().effects.len() == 0,
{
}

/// An edit that is given up brings the old text back.
pub proof fn law_old_text_comes_back(v: AppView, i: usize, text: Seq<char>, old_text: Seq<char>)
    requires
        v.edit.queue_index is None,
        v.edit.message_index == Some(i),
        v.edit.original_text == Some(old_text),
        i < v.chat.segments.len(),
        v.chat.segments[i as int] == spoken(true, text),
    ensures
        ({
            let r = v.edit_cancelled();
            &&& r.app.chat.segments == v.chat.segments.update(i as int, spoken(true, old_text))
            &&& r.app.edit.message_index is None
            &&& r.app.edit.buffer.len() == 0
            &&& r.effects == seq![EffectView::Rebuild]
        }),
{
    assert(v.edit_cancelled().effects =~= seq![EffectView::Rebuild]);
}

/// A message of the queue that was edited has its new text, and keeps the
/// changes that go with it; an empty text changes nothing. An edit that is given
/// up brings the old text back. Either way the others stay, and while the agent
/// works nothing is sent.
pub proof fn law_queued_message_is_edited(v: AppView, i: usize, old_text: Seq<char>, k: int)
    requires
        v.agent.busy,
        v.edit.queue_index == Some(i),
        i < v.queue.messages.len(),
        0 <= k < v.queue.messages.len(),
        v.edit.original_text == Some(old_text),
    ensures
        ({
            let r = v.edit_confirmed();
            let text = trim(v.edit.buffer);
            &&& text.len() > 0 ==> r.app.queue.messages[i as int].content == text
            &&& text.len() == 0 ==> r.app.queue.messages == v.queue.messages
            &&& r.app.queue.messages[i as int].model_transition
                == v.queue.messages[i as int].model_transition
            &&& k != i ==> r.app.queue.messages[k] == v.queue.messages[k]
            &&& r.app.queue.messages.len() == v.queue.messages.len()
            &&& r.app.edit.queue_index is None
            &&& r.app.ui.focus == FocusPane::Queue
            &&& r.app.chat == v.chat
            &&& r.effects.len() == 0
        }),
        ({
            let r = v.edit_cancelled();
            &&& r.app.queue.messages[i as int].content == old_text
            &&& k != i ==> r.app.queue.messages[k] == v.queue.messages[k]
            &&& r.app.queue.messages.len() == v.queue.messages.len()
            &&& r.app.edit.queue_index is None
            &&& r.effects.len() == 0
        }),
{
}

/// Once nothing of the queue is being edited the message that waits longest is
/// sent, if the agent is idle; otherwise it waits on.
pub proof fn law_next_message_goes_when_it_may(v: AppView)
    ensures
        !v.agent.busy && v.edit.queue_index is None && v.queue.messages.len() > 0 ==> {
            let r = v.dequeued();
            &&& r.effects == seq![
                EffectView::Rerender,
                EffectView::ScrollToBottom,
                EffectView::Send(v.queue.messages[0]),
            ]
            &&& r.app.queue.messages == v.queue.messages.subrange(
                1,
                v.queue.messages.len() as int,
            )
            &&& r.app.chat.segments == v.chat.segments.push(
                spoken(true, v.queue.messages[0].content),
            )
            &&& r.app.chat.auto_scroll
        },
        v.agent.busy || v.edit.queue_index is Some || v.queue.messages.len() == 0 ==> v.dequeued().app
            == v && v.dequeued().effects.len() == 0,
{
    if !v.agent.busy && v.edit.queue_index is None && v.queue.messages.len() > 0 {
        assert(v.dequeued().effects =~= seq![
            EffectView::Rerender,
            EffectView::ScrollToBottom,
            EffectView::Send(v.queue.messages[0]),
        ]);
        assert(v.queue.messages.skip(1) =~= v.queue.messages.subrange(
            1,
            v.queue.messages.len() as int,
        ));
    }
}

// ── Removing ─────────────────────────────────────────────────────────────────

proof fn lemma_levels_below(levels: Seq<(usize, u8)>, n: int, k: int)
    ensures
        level_at(levels_below(levels, n), k) == (if k < n {
            level_at(levels, k)
        } else {
            None
        }),
    decreases levels.len(),
{
    if levels.len() > 0 {
        lemma_levels_below(levels.drop_last(), n, k);
        let init = levels_below(levels.drop_last(), n);
        if levels.last().0 < n {
            assert(init.push(levels.last()).drop_last() =~= init);
        }
    }
}

/// To cut the conversation off keeps exactly what stands before the highlighted
/// segment, as it is folded; nothing is highlighted then, and it is saved.
pub proof fn law_cut_keeps_what_came_before(v: AppView, i: usize, k: int)
    requires
        v.chat.focused_segment == Some(i),
        i < v.chat.segments.len(),
        0 <= k < i,
    ensures
        ({
            let r = v.cut_at_highlight();
            &&& r.app.chat.segments == v.chat.segments.subrange(0, i as int)
            &&& r.app.chat.focused_segment is None
            &&& r.app.chat.level(k) == v.chat.level(k)
            &&& r.effects == seq![EffectView::Rerender, EffectView::SaveHistory]
            &&& v.edit.message_index matches Some(e) ==> (if e >= i {
                r.app.edit.message_index is None
            } else {
                r.app.edit == v.edit
            })
        }),
{
    let r = v.cut_at_highlight();
    lemma_levels_below(v.chat.expand_level, i as int, k);
    assert(r.app.chat.segments =~= v.chat.segments.subrange(0, i as int));
    assert(r.effects =~= seq![EffectView::Rerender, EffectView::SaveHistory]);
}

/// What was folded behind the cut is forgotten, so that a segment that comes in
/// its place is shown as any new one is.
pub proof fn law_cut_forgets_the_levels_behind(c: ChatView, n: usize, k: int)
    ensures
        k >= n ==> level_at(c.cut(n).expand_level, k) is None,
        k < n ==> level_at(c.cut(n).expand_level, k) == level_at(c.expand_level, k),
{
    lemma_levels_below(c.expand_level, n as int, k);
}

proof fn lemma_levels_after(
    levels: Seq<(usize, u8)>,
    removed: Seq<usize>,
    first: usize,
    m: int,
    k: int,
)
    requires
        m >= 1,
        removed.len() == m,
        removed[0] == first,
        forall|x: usize| #[trigger] removed.contains(x) <==> first <= x < first + m,
        0 <= k,
    ensures
        level_at(levels_after(levels, removed), k) == level_at(
            levels,
            if k < first {
                k
            } else {
                k + m
            },
        ),
    decreases levels.len(),
{
    if levels.len() > 0 {
        let init = levels_after(levels.drop_last(), removed);
        let (i, level) = levels.last();
        lemma_levels_after(levels.drop_last(), removed, first, m, k);
        if removed.contains(i) {
        } else if i > first {
            let moved = ((i - m) as usize, level);
            assert(init.push(moved).drop_last() =~= init);
        } else {
            assert(init.push((i, level)).drop_last() =~= init);
        }
    }
}

/// Where neighbouring segments leave, those before them stay folded as they were,
/// and those behind them take their levels along.
pub proof fn law_levels_move_with_their_segments(
    c: ChatView,
    idx: usize,
    first: usize,
    m: int,
    k: int,
)
    requires
        m >= 1,
        leaving(c.segments, idx).len() == m,
        leaving(c.segments, idx)[0] == first,
        forall|x: usize| #[trigger]
            leaving(c.segments, idx).contains(x) <==> first <= x < first + m,
        0 <= k,
    ensures
        level_at(c.without_segment(idx).expand_level, k) == level_at(
            c.expand_level,
            if k < first {
                k
            } else {
                k + m
            },
        ),
{
    lemma_levels_after(c.expand_level, leaving(c.segments, idx), first, m, k);
}

/// Once a message of the queue is no longer edited, an idle agent gets the first
/// message of the queue, with its new text if that is the one; a busy agent gets
/// nothing, and the queue stays whole.
pub proof fn law_queue_goes_on_after_an_edit(v: AppView, i: usize, old_text: Seq<char>)
    requires
        v.edit.queue_index == Some(i),
        v.edit.original_text == Some(old_text),
        i < v.queue.messages.len(),
    ensures
        ({
            let text = trim(v.edit.buffer);
            let ms = v.queue.messages;
            let kept = ms.update(i as int, QueuedView { content: text, ..ms[i as int] });
            let back = ms.update(i as int, QueuedView { content: old_text, ..ms[i as int] });
            let new = if text.len() > 0 {
                kept
            } else {
                ms
            };
            let r = v.edit_confirmed();
            let c = v.edit_cancelled();
            &&& v.agent.busy ==> r.effects.len() == 0 && c.effects.len() == 0
            &&& v.agent.busy ==> r.app.queue.messages == new && c.app.queue.messages == back
            &&& !v.agent.busy ==> r.effects == seq![
                EffectView::Rerender,
                EffectView::ScrollToBottom,
                EffectView::Send(new[0]),
            ] && r.app.queue.messages == new.skip(1)
            &&& !v.agent.busy ==> c.effects == seq![
                EffectView::Rerender,
                EffectView::ScrollToBottom,
                EffectView::Send(back[0]),
            ] && c.app.queue.messages == back.skip(1)
            &&& r.app.edit.queue_index is None && c.app.edit.queue_index is None
        }),
{
    let r = v.edit_confirmed();
    let c = v.edit_cancelled();
    if !v.agent.busy {
        assert(r.effects.len() == 3);
        assert(c.effects.len() == 3);
        assert(r.effects =~= seq![
            EffectView::Rerender,
            EffectView::ScrollToBottom,
            EffectView::Send(r.effects[2]->Send_0),
        ]);
        assert(c.effects =~= seq![
            EffectView::Rerender,
            EffectView::ScrollToBottom,
            EffectView::Send(c.effects[2]->Send_0),
        ]);
    }
}

proof fn lemma_removed_alone(segs: Seq<SegmentView>, idx: int, n: int)
    requires
        0 <= idx < segs.len() <= usize::MAX,
        0 <= n <= segs.len(),
        tool_call_id(segs[idx]) is None,
    ensures
        n <= idx ==> removed_with(segs, idx, n) == Seq::<usize>::empty(),
        n > idx ==> removed_with(segs, idx, n) == seq![idx as usize],
    decreases n,
{
    if n > 0 {
        lemma_removed_alone(segs, idx, n - 1);
        assert(Seq::<usize>::empty().push(idx as usize) =~= seq![idx as usize]);
    }
}

proof fn lemma_staying_without(segs: Seq<SegmentView>, idx: int, n: int)
    requires
        0 <= idx < segs.len() <= usize::MAX,
        0 <= n <= segs.len(),
    ensures
        staying(segs, seq![idx as usize], n) == (if n <= idx {
            segs.subrange(0, n)
        } else {
            segs.subrange(0, n).remove(idx)
        }),
    decreases n,
{
    let one = seq![idx as usize];
    let got = staying(segs, one, n);
    if n == 0 {
        assert(got =~= segs.subrange(0, 0));
    } else {
        lemma_staying_without(segs, idx, n - 1);
        assert(one.contains((n - 1) as usize) == (n - 1 == idx)) by {
            if n - 1 == idx {
                assert(one[0] == (n - 1) as usize);
            }
        }
        if n <= idx {
            assert(got =~= segs.subrange(0, n));
        } else {
            assert(got =~= segs.subrange(0, n).remove(idx));
        }
    }
}

/// A segment that belongs to no tool call is taken out alone: all others stay,
/// in order. Nothing is highlighted then, and the conversation is saved.
pub proof fn law_segment_is_taken_out(v: AppView, i: usize)
    requires
        v.chat.focused_segment == Some(i),
        i < v.chat.segments.len() <= usize::MAX,
        tool_call_id(v.chat.segments[i as int]) is None,
    ensures
        ({
            let r = v.highlight_removed();
            &&& r.app.chat.segments == v.chat.segments.remove(i as int)
            &&& r.app.chat.focused_segment is None
            &&& r.effects == seq![EffectView::Rerender, EffectView::SaveHistory]
        }),
{
    let n = v.chat.segments.len() as int;
    lemma_removed_alone(v.chat.segments, i as int, n);
    lemma_staying_without(v.chat.segments, i as int, n);
    assert(v.chat.segments.subrange(0, n) =~= v.chat.segments);
    assert(v.highlight_removed().effects =~= seq![EffectView::Rerender, EffectView::SaveHistory]);
}

proof fn lemma_staying_is_filter(segs: Seq<SegmentView>, id: Seq<char>, removed: Seq<usize>, n: int)
    requires
        0 <= n <= segs.len() <= usize::MAX,
        forall|i: int|
            0 <= i < segs.len() ==> (removed.contains(i as usize) <==> #[trigger] tool_call_id(
                segs[i],
            ) == Some(id)),
    ensures
        staying(segs, removed, n) == segs.take(n).filter(
            |s: SegmentView| tool_call_id(s) != Some(id),
        ),
    decreases n,
{
    reveal(Seq::filter);
    if n == 0 {
        assert(segs.take(0) =~= seq![]);
    } else {
        lemma_staying_is_filter(segs, id, removed, n - 1);
        assert(segs.take(n).drop_last() =~= segs.take(n - 1));
        assert(segs.take(n).last() == segs[n - 1]);
        assert(removed.contains((n - 1) as usize) <==> tool_call_id(segs[n - 1]) == Some(id));
    }
    assert(staying(segs, removed, n) =~= segs.take(n).filter(
        |s: SegmentView| tool_call_id(s) != Some(id),
    ));
}

/// With a tool call, or with its result, exactly the segments of that call are
/// taken out; all others stay, in order.
pub proof fn law_call_is_taken_out_whole(v: AppView, i: usize, id: Seq<char>)
    requires
        v.chat.focused_segment == Some(i),
        i < v.chat.segments.len() <= usize::MAX,
        tool_call_id(v.chat.segments[i as int]) == Some(id),
    ensures
        v.highlight_removed().app.chat.segments == v.chat.segments.filter(
            |s: SegmentView| tool_call_id(s) != Some(id),
        ),
{
    let segs = v.chat.segments;
    let gone = leaving(segs, i);
    assert forall|k: int| 0 <= k < segs.len() implies (gone.contains(k as usize)
        <==> #[trigger] tool_call_id(segs[k]) == Some(id)) by {
        crate::app::chat_state::law_call_and_result_leave_together(segs, i, k);
    }
    lemma_staying_is_filter(segs, id, gone, segs.len() as int);
    assert(segs.take(segs.len() as int) =~= segs);
}

/// A segment belongs to a tool call if it makes the call or answers it.
pub proof fn law_calls_and_results_belong_to_a_call(role: Role, content: ContentView, seg: SegmentView)
    ensures
        content is ToolCall ==> tool_call_id(SegmentView::Message(MessageView { role, content }))
            == Some(content->ToolCall_tool_call_id),
        content is ToolResult ==> tool_call_id(SegmentView::Message(MessageView { role, content }))
            == Some(content->ToolResult_tool_call_id),
        content is Text || content is ContentParts ==> tool_call_id(
            SegmentView::Message(MessageView { role, content }),
        ) is None,
        !(seg is Message) ==> tool_call_id(seg) is None,
{
}

// ── Running again ────────────────────────────────────────────────────────────

proof fn lemma_last_question(segs: Seq<SegmentView>, n: int, q: int, text: Seq<char>)
    requires
        0 <= q < n <= segs.len(),
        segs[q] == spoken(true, text),
        forall|j: int|
            q < j < n ==> !(#[trigger] segs[j] is Message && segs[j]->Message_0.role is User
                && segs[j]->Message_0.content is Text),
    ensures
        last_user_text(segs, n) == Some(text),
    decreases n,
{
    if q < n - 1 {
        assert(!(segs[n - 1] is Message && segs[n - 1]->Message_0.role is User
            && segs[n - 1]->Message_0.content is Text));
        lemma_last_question(segs, n - 1, q, text);
    }
}

/// To run again from a segment drops it and all behind it, and asks the last
/// question before it again, together with every message that is left. The
/// question itself is not among them where it is the last of them.
pub proof fn law_last_question_is_asked_again(v: AppView, i: usize, q: int, text: Seq<char>)
    requires
        v.chat.focused_segment == Some(i),
        0 <= q < i < v.chat.segments.len(),
        v.chat.segments[q] == spoken(true, text),
        forall|j: int|
            q < j < i ==> !(#[trigger] v.chat.segments[j] is Message
                && v.chat.segments[j]->Message_0.role is User
                && v.chat.segments[j]->Message_0.content is Text),
    ensures
        ({
            let r = v.rerun();
            let left = v.chat.segments.subrange(0, i as int);
            let asked = QueuedView { content: text, model_transition: None, mode_transition: None };
            &&& r.app.chat.segments == left
            &&& r.app.chat.auto_scroll
            &&& r.app.chat.focused_segment is None
            &&& r.app.edit.message_index is None
            &&& q == i - 1 ==> r.effects == seq![
                EffectView::Rerender,
                EffectView::ScrollToBottom,
                EffectView::Resubmit(messages_in(v.chat.segments.subrange(0, q)), asked),
            ]
            &&& messages_in(left).len() > 0 && !(messages_in(left).last().role is User)
                ==> r.effects == seq![
                EffectView::Rerender,
                EffectView::ScrollToBottom,
                EffectView::Resubmit(messages_in(left), asked),
            ]
        }),
{
    let segs = v.chat.segments;
    let left = segs.subrange(0, i as int);
    let asked = QueuedView { content: text, model_transition: None, mode_transition: None };
    lemma_last_question(segs, i as int, q, text);
    assert(segs.take(i as int) =~= left);
    law_every_message_is_sent_again(left);
    let r = v.rerun();
    if q == i - 1 {
        let before = segs.subrange(0, q);
        law_every_message_is_sent_again(before);
        assert(left.drop_last() =~= before);
        assert(left.last() == segs[q]);
        let all = crate::chat::segment_ops::messages_of(left);
        assert(all.drop_last() =~= crate::chat::segment_ops::messages_of(before));
        assert(r.effects =~= seq![
            EffectView::Rerender,
            EffectView::ScrollToBottom,
            EffectView::Resubmit(messages_in(before), asked),
        ]);
    }
    if messages_in(left).len() > 0 && !(messages_in(left).last().role is User) {
        assert(r.effects =~= seq![
            EffectView::Rerender,
            EffectView::ScrollToBottom,
            EffectView::Resubmit(messages_in(left), asked),
        ]);
    }
}

/// Where nothing was asked before a segment nothing can be run again.
pub proof fn law_nothing_is_run_without_a_question(v: AppView, i: usize)
    requires
        v.chat.focused_segment == Some(i),
        i <= v.chat.segments.len(),
        forall|j: int|
            0 <= j < i ==> !(#[trigger] v.chat.segments[j] is Message
                && v.chat.segments[j]->Message_0.role is User
                && v.chat.segments[j]->Message_0.content is Text),
    ensures
        v.rerun().app == v,
        v.rerun().effects.len() == 0,
{
    lemma_no_question(v.chat.segments, i as int);
}

proof fn lemma_no_question(segs: Seq<SegmentView>, n: int)
    requires
        0 <= n <= segs.len(),
        forall|j: int|
            0 <= j < n ==> !(#[trigger] segs[j] is Message && segs[j]->Message_0.role is User
                && segs[j]->Message_0.content is Text),
    ensures
        last_user_text(segs, n) is None,
    decreases n,
{
    if n > 0 {
        assert(!(segs[n - 1] is Message && segs[n - 1]->Message_0.role is User
            && segs[n - 1]->Message_0.content is Text));
        lemma_no_question(segs, n - 1);
    }
}

// ── Copying ──────────────────────────────────────────────────────────────────

/// What is copied goes to the terminal's clipboard in its encoded form, and the
/// user is told so: a text as it is, a thought as it is, a result under the name
/// of its tool, an error under its label.
pub proof fn law_segments_are_copied(v: AppView, i: usize)
    requires
        v.chat.focused_segment == Some(i),
        i < v.chat.segments.len(),
    ensures
        ({
            let r = v.segment_copied();
            let seg = v.chat.segments[i as int];
            let text = segment_text(seg, v.chat.tool_args);
            &&& text.len() > 0 ==> r.effects == seq![
                EffectView::WriteTerminal("\x1b]52;c;"@ + base64_text(text) + "\x07"@),
            ]
            &&& text.len() == 0 ==> r.app == v && r.effects.len() == 0
            &&& text.len() > 0 ==> r.app.ui.toasts.len() > 0 && r.app.ui.toasts.last().message
                == "Copied to clipboard"@
            &&& r.app.chat == v.chat
            &&& seg is Message && seg->Message_0.content is Text ==> text
                == seg->Message_0.content->Text_0
            &&& seg is Thinking ==> text == seg->Thinking_content
            &&& seg is Error ==> text == "Error: "@ + seg->Error_0
            &&& seg is Message && seg->Message_0.content is ToolResult
                && v.chat.tool_args.contains_key(
                seg->Message_0.content->ToolResult_tool_call_id,
            ) ==> text == "Result: "@
                + v.chat.tool_args[seg->Message_0.content->ToolResult_tool_call_id] + "\n"@
                + seg->Message_0.content->ToolResult_content
            &&& seg is ContextCompacted || seg is CollabEvent ==> text.len() == 0
        }),
{
    let text = segment_text(v.chat.segments[i as int], v.chat.tool_args);
    if text.len() > 0 {
        assert(v.segment_copied().effects =~= seq![
            EffectView::WriteTerminal("\x1b]52;c;"@ + base64_text(text) + "\x07"@),
        ]);
    }
}

/// The whole conversation is copied as it is written in Markdown, and a
/// selection as it is shown; where there is nothing nothing is copied.
pub proof fn law_all_and_selections_are_copied(v: AppView)
    ensures
        v.chat.segments.len() > 0 ==> v.all_copied().effects == seq![
            EffectView::WriteTerminal(
                "\x1b]52;c;"@ + base64_text(
                    crate::chat::markdown::conversation_markdown(
                        v.chat.segments,
                        seq![],
                        v.chat.tool_args,
                    ),
                ) + "\x07"@,
            ),
        ],
        v.chat.segments.len() == 0 ==> v.all_copied().app == v && v.all_copied().effects.len() == 0,
        v.chat.selection_anchor is None || v.chat.selection_end is None ==> v.selection_copied().app
            == v && v.selection_copied().effects.len() == 0,
        v.selection_copied().app.chat == v.chat,
        ({
            let text = v.selected_text();
            text.len() > 0 ==> v.selection_copied().effects == seq![
                EffectView::WriteTerminal("\x1b]52;c;"@ + base64_text(text) + "\x07"@),
            ]
        }),
{
    reveal_strlit("");
    assert(""@ =~= Seq::<char>::empty());
    if v.chat.segments.len() > 0 {
        assert(v.all_copied().effects =~= seq![
            EffectView::WriteTerminal(
                "\x1b]52;c;"@ + base64_text(
                    crate::chat::markdown::conversation_markdown(
                        v.chat.segments,
                        seq![],
                        v.chat.tool_args,
                    ),
                ) + "\x07"@,
            ),
        ]);
    }
    let text = v.selected_text();
    if text.len() > 0 {
        assert(v.selection_copied().effects =~= seq![
            EffectView::WriteTerminal("\x1b]52;c;"@ + base64_text(text) + "\x07"@),
        ]);
    }
}

/// A selection goes from the earlier of its two ends to the later one.
pub proof fn law_selection_has_both_ends(v: ChatView, a: (usize, u16), b: (usize, u16))
    requires
        v.selection_anchor == Some(a),
        v.selection_end == Some(b),
    ensures
        a.0 < b.0 || (a.0 == b.0 && a.1 <= b.1) ==> v.selection() == Some((a.0, a.1, b.0, b.1)),
        b.0 < a.0 || (a.0 == b.0 && b.1 < a.1) ==> v.selection() == Some((b.0, b.1, a.0, a.1)),
{
}

// ── Moving ───────────────────────────────────────────────────────────────────

/// The highlight moves from segment to segment, not past the ends; where nothing
/// is highlighted it comes in at the first or at the last.
pub proof fn law_highlight_moves_by_one(v: AppView, i: usize)
    requires
        !v.nvim.bridge,
        0 < v.chat.segments.len() <= usize::MAX,
    ensures
        v.chat.focused_segment == Some(i) && i + 1 < v.chat.segments.len()
            ==> v.highlight_down().chat.focused_segment == Some((i + 1) as usize),
        v.chat.focused_segment == Some(i) && i + 1 == v.chat.segments.len()
            ==> v.highlight_down().chat.focused_segment == Some(i),
        v.chat.focused_segment == Some(i) && i > 0 ==> v.highlight_up().chat.focused_segment
            == Some((i - 1) as usize),
        v.chat.focused_segment == Some(0usize) ==> v.highlight_up().chat.focused_segment == Some(
            0usize,
        ),
        v.chat.focused_segment is None ==> v.highlight_down().chat.focused_segment == Some(0usize),
        v.chat.focused_segment is None ==> v.highlight_up().chat.focused_segment == Some(
            (v.chat.segments.len() - 1) as usize,
        ),
        v.highlight_down().chat.segments == v.chat.segments,
        v.highlight_up().chat.segments == v.chat.segments,
{
}

/// The chat scrolls by as many lines as it is told to, not past its ends; the
/// editor scrolls instead where it shows the conversation.
pub proof fn law_chat_scrolls_by_lines(v: AppView, n: u16, keys: Seq<char>)
    requires
        v.chat.lines.len() < 0x10000,
        v.layout.chat_height <= v.chat.lines.len(),
        v.chat.scroll_offset + n <= u16::MAX,
    ensures
        v.nvim.bridge ==> {
            &&& v.scrolled_up(n, keys).app == v
            &&& v.scrolled_up(n, keys).effects == seq![EffectView::EditorInput(keys)]
            &&& v.scrolled_down(n, keys).app == v
            &&& v.scrolled_down(n, keys).effects == seq![EffectView::EditorInput(keys)]
        },
        !v.nvim.bridge ==> {
            let last = v.chat.lines.len() - v.layout.chat_height;
            let up = v.scrolled_up(n, keys).app.chat;
            let down = v.scrolled_down(n, keys).app.chat;
            &&& n <= v.chat.scroll_offset ==> up.scroll_offset == v.chat.scroll_offset - n
            &&& n > v.chat.scroll_offset ==> up.scroll_offset == 0
            &&& !up.auto_scroll
            &&& v.chat.scroll_offset + n <= last ==> down.scroll_offset == v.chat.scroll_offset + n
            &&& v.chat.scroll_offset + n > last ==> down.scroll_offset == last
            &&& v.chat.scroll_offset + n >= last ==> down.auto_scroll
            &&& v.chat.scroll_offset + n < last ==> down.auto_scroll == v.chat.auto_scroll
            &&& up.lines == v.chat.lines
            &&& down.segments == v.chat.segments
        },
{
    if v.nvim.bridge {
        assert(v.scrolled_up(n, keys).effects =~= seq![EffectView::EditorInput(keys)]);
        assert(v.scrolled_down(n, keys).effects =~= seq![EffectView::EditorInput(keys)]);
    }
}

/// The top is the first line; the bottom is the last page, and there new content
/// is followed.
pub proof fn law_top_and_bottom_are_the_ends(v: AppView)
    requires
        v.chat.lines.len() < 0x10000,
    ensures
        !v.nvim.bridge ==> v.at_top().app.chat.scroll_offset == 0
            && !v.at_top().app.chat.auto_scroll,
        v.following().app.chat.auto_scroll,
        v.following().effects[0] == EffectView::ScrollToBottom,
        !v.nvim.bridge && v.chat.auto_scroll && v.layout.chat_height <= v.chat.lines.len()
            ==> v.settled().chat.scroll_offset + v.layout.chat_height == v.chat.lines.len(),
        !v.nvim.bridge && v.chat.auto_scroll && v.layout.chat_height > v.chat.lines.len()
            ==> v.settled().chat.scroll_offset == 0,
        v.nvim.bridge || !v.chat.auto_scroll ==> v.settled() == v,
{
}

/// A click at the top of the scrollbar leads to the top, and one at its bottom
/// to the bottom; between them the further down, the further down.
pub proof fn law_scrollbar_leads_there(v: AppView, row: u16, further: u16)
    requires
        v.layout.chat_pane.height >= 4,
        v.layout.chat_pane.height - 2 < v.chat.lines.len() < 0x10000,
        row <= further < v.layout.chat_pane.height - 2,
    ensures
        v.scrollbar_clicked(0).chat.scroll_offset == 0,
        v.scrollbar_clicked((v.layout.chat_pane.height - 3) as u16).chat.scroll_offset
            == v.chat.lines.len() - (v.layout.chat_pane.height - 2),
        v.scrollbar_clicked(row).chat.scroll_offset <= v.scrollbar_clicked(
            further,
        ).chat.scroll_offset,
        !v.scrollbar_clicked(row).chat.auto_scroll,
        v.scrollbar_clicked(row).chat.selection_anchor is None,
{
    let h = v.layout.chat_pane.height - 2;
    let rest = v.chat.lines.len() - h;
    let steps = h - 1;
    lemma_share_of_steps(0, rest, steps);
    lemma_share_of_steps(steps, rest, steps);
    lemma_share_of_steps(row as int, rest, steps);
    lemma_share_of_steps(further as int, rest, steps);
    assert(row * rest / steps <= further * rest / steps) by (nonlinear_arith)
        requires
            0 <= row <= further,
            rest > 0,
            steps > 0,
    ;
}

proof fn lemma_share_of_steps(row: int, rest: int, steps: int)
    requires
        0 <= row <= steps,
        0 < rest,
        0 < steps,
    ensures
        0 <= row * rest / steps <= rest,
        row == 0 ==> row * rest / steps == 0,
        row == steps ==> row * rest / steps == rest,
{
    assert(0 <= row * rest / steps <= rest) by (nonlinear_arith)
        requires
            0 <= row <= steps,
            0 < rest,
            0 < steps,
    ;
    if row == 0 {
        assert(0 * rest / steps == 0) by (nonlinear_arith)
            requires
                0 < steps,
        ;
    }
    if row == steps {
        assert(steps * rest / steps == rest) by (nonlinear_arith)
            requires
                0 < steps,
        ;
    }
}

// ── Folding ──────────────────────────────────────────────────────────────────

/// A click on a segment unfolds it where only a line of it is shown, and folds
/// it otherwise. With a call its folded result unfolds too; no other segment
/// changes.
pub proof fn law_click_folds_and_unfolds(v: ChatView, i: usize, k: usize)
    requires
        i < v.segments.len() <= usize::MAX,
        k < v.segments.len(),
    ensures
        ({
            let w = ChatView { expand_level: v.clicked_levels(i), ..v };
            let result = i + 1 < v.segments.len() && k == i + 1 && is_paired(v.segments, i as int);
            &&& v.level(i as int) == 0 ==> w.level(i as int) == 2
            &&& v.level(i as int) > 0 ==> w.level(i as int) == 0
            &&& k != i && !result ==> w.level(k as int) == v.level(k as int)
            &&& result && v.level(i as int) == 0 && v.level(k as int) == 0 ==> w.level(k as int)
                == 2
            &&& result && (v.level(i as int) > 0 || v.level(k as int) > 0) ==> w.level(k as int)
                == v.level(k as int)
        }),
{
    let next = if v.level(i as int) == 0 {
        2u8
    } else {
        0u8
    };
    let first = with_level(v.expand_level, i, next);
    law_level_is_kept(v.expand_level, i, next, i);
    law_level_is_kept(v.expand_level, i, next, k);
    if i + 1 < v.segments.len() {
        law_level_is_kept(v.expand_level, i, next, (i + 1) as usize);
        law_level_is_kept(first, (i + 1) as usize, 2, i);
        law_level_is_kept(first, (i + 1) as usize, 2, k);
    }
}

/// A click into the chat folds or unfolds the segment of the line, where that
/// can be folded, and shows it; a selection may begin there.
pub proof fn law_click_finds_its_segment(v: AppView, line: usize, col: u16, i: int)
    requires
        0 <= i < v.chat.segment_line_ranges.len() <= usize::MAX,
        v.chat.segment_line_ranges[i].0 <= line < v.chat.segment_line_ranges[i].1,
        forall|k: int|
            0 <= k < i ==> !((#[trigger] v.chat.segment_line_ranges[k]).0 <= line
                < v.chat.segment_line_ranges[k].1),
        i < v.chat.segments.len(),
    ensures
        ({
            let r = v.content_clicked(line, col);
            &&& r.app.chat.selection_anchor == Some((line, col))
            &&& r.app.chat.selection_end is None
            &&& !r.app.chat.is_selecting
            &&& r.app.ui.confirm_modal is None
            &&& r.app.chat.segments == v.chat.segments
            &&& collapsible(v.chat.segments[i]) ==> {
                &&& r.app.chat.expand_level == v.chat.clicked_levels(i as usize)
                &&& r.effects == seq![EffectView::Rebuild, EffectView::ShowSegment(i as usize)]
            }
            &&& !collapsible(v.chat.segments[i]) ==> {
                &&& r.app.chat.expand_level == v.chat.expand_level
                &&& r.effects.len() == 0
            }
        }),
{
    lemma_range_is(v.chat.segment_line_ranges, line as int, 0, i);
    let begun = v.selection_begun(line, col);
    assert(begun.chat.clicked_levels(i as usize) == v.chat.clicked_levels(i as usize)) by {
        assert(begun.chat.level(i) == v.chat.level(i));
        let next = if v.chat.level(i) == 0 {
            2u8
        } else {
            0u8
        };
        let first = with_level(v.chat.expand_level, i as usize, next);
        assert((ChatView { expand_level: first, ..begun.chat }).level(i + 1) == (ChatView {
            expand_level: first,
            ..v.chat
        }).level(i + 1));
    }
    if collapsible(v.chat.segments[i]) {
        assert(v.content_clicked(line, col).effects =~= seq![
            EffectView::Rebuild,
            EffectView::ShowSegment(i as usize),
        ]);
    }
}

proof fn lemma_range_is(ranges: Seq<(usize, usize)>, line: int, from: int, i: int)
    requires
        0 <= from <= i < ranges.len() <= usize::MAX,
        ranges[i].0 <= line < ranges[i].1,
        forall|k: int| from <= k < i ==> !((#[trigger] ranges[k]).0 <= line < ranges[k].1),
    ensures
        range_with(ranges, line, from) == Some(i as usize),
    decreases i - from,
{
    if from < i {
        assert(!(ranges[from].0 <= line < ranges[from].1));
        lemma_range_is(ranges, line, from + 1, i);
    }
}

/// What is said is shown in full at first, and what the tools and the thoughts
/// hold as one line. These can be folded and unfolded; notes and errors cannot.
pub proof fn law_first_folding(role: Role, content: ContentView, seg: SegmentView)
    ensures
        ({
            let m = SegmentView::Message(MessageView { role, content });
            let said = content is Text && (role is User || role is Assistant);
            &&& said ==> default_level(m) == 2 && collapsible(m)
            &&& content is ToolCall && role is Assistant ==> default_level(m) == 0 && collapsible(m)
            &&& content is ToolResult && role is Tool ==> default_level(m) == 0 && collapsible(m)
        }),
        seg is Thinking ==> default_level(seg) == 0 && collapsible(seg),
        seg is Error || seg is ContextCompacted || seg is TodoUpdate || seg is CollabEvent
            || seg is DelegateSummary ==> default_level(seg) == 2 && !collapsible(seg),
{
}

/// A selection that is drawn ends at the line and column it was drawn to, not
/// below the last line. Near the upper edge the chat scrolls up, near the lower
/// one down, and between them it stays.
pub proof fn law_selection_is_drawn(v: AppView, line: usize, col: u16, row: u16)
    requires
        v.can_draw(row),
        0 < v.chat.lines.len() < 0x10000,
        v.layout.chat_pane.height >= 2,
    ensures
        ({
            let w = v.selection_drawn(line, col, row).chat;
            let top = v.layout.chat_pane.y + 1;
            let bottom = top + v.layout.chat_pane.height - 2;
            &&& w.is_selecting
            &&& line < v.chat.lines.len() ==> w.selection_end == Some((line, col))
            &&& line >= v.chat.lines.len() ==> w.selection_end == Some(
                ((v.chat.lines.len() - 1) as usize, col),
            )
            &&& w.selection_anchor == v.chat.selection_anchor
            &&& row < top + 2 && v.chat.scroll_offset > 0 ==> w.scroll_offset
                == v.chat.scroll_offset - 1
            &&& top + 2 <= row < bottom - 2 ==> w.scroll_offset == v.chat.scroll_offset
            &&& top + 2 <= row && bottom - 2 <= row && v.chat.scroll_offset
                + v.layout.chat_height < v.chat.lines.len() ==> w.scroll_offset
                == v.chat.scroll_offset + 1
        }),
{
}

/// The summary of delegated work opens and closes in turn, and changes nothing
/// else; twice is as it was.
pub proof fn law_summary_opens_and_closes(v: AppView, i: usize)
    requires
        v.chat.focused_segment == Some(i),
        i < v.chat.segments.len(),
    ensures
        v.chat.segments[i as int] is DelegateSummary ==> {
            let r = v.summary_toggled();
            let was = v.chat.segments[i as int];
            let now = r.app.chat.segments[i as int];
            &&& now is DelegateSummary
            &&& now->DelegateSummary_expanded == !was->DelegateSummary_expanded
            &&& now->DelegateSummary_to_name == was->DelegateSummary_to_name
            &&& now->DelegateSummary_task_title == was->DelegateSummary_task_title
            &&& now->DelegateSummary_status == was->DelegateSummary_status
            &&& now->DelegateSummary_result_preview == was->DelegateSummary_result_preview
            &&& r.app.chat.segments == v.chat.segments.update(i as int, now)
            &&& r.effects == seq![EffectView::Rerender]
            &&& r.app.summary_toggled().app.chat.segments == v.chat.segments
        },
        !(v.chat.segments[i as int] is DelegateSummary) ==> v.summary_toggled().app == v,
{
    if v.chat.segments[i as int] is DelegateSummary {
        let r = v.summary_toggled();
        assert(r.effects =~= seq![EffectView::Rerender]);
        assert(r.app.summary_toggled().app.chat.segments =~= v.chat.segments);
    }
}

/// A new conversation has nothing in it and follows what comes.
pub proof fn law_new_conversation_is_empty()
    ensures
        ChatView::empty().segments.len() == 0,
        ChatView::empty().lines.len() == 0,
        ChatView::empty().streaming_buffer.len() == 0,
        ChatView::empty().auto_scroll,
        ChatView::empty().scroll_offset == 0,
        ChatView::empty().focused_segment is None,
        ChatView::empty().expand_level.len() == 0,
        ChatView::empty().selection_anchor is None,
{
}

} // verus!
