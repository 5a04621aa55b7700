//! What the sessions promise: what goes on in the background is kept, and the
//! list shows every session at its place.

use vstd::prelude::*;

use crate::app::agent_event::EventView;
use crate::app::front::{AppView, EffectView};
use crate::app::session_manager::{ChatStatus, EntryView, HeaderView, SessionId};
use crate::app::session_switch::{lemma_entry_id, lemma_stashed, lemma_with, LoadedView};
use crate::app::session_tree::{
    children_of, lemma_entry_index, lemma_parent_index, row_of, with_child, without_id,
    ManagerView,
};
use crate::app::ui_state::FocusPane;
use crate::chat::history::{segments_of, RecordView};
use crate::chat::segment::{ContentView, MessageView, Role, SegmentView};
use crate::commands::AgentMode;

verus! {

// ── In the background ────────────────────────────────────────────────────────

/// A complete answer of a session in the background is kept as the last message
/// of its conversation, and the session works.
pub proof fn law_background_answer_is_kept(e: EntryView, text: Seq<char>, now: i64)
    ensures
        ({
            let r = e.after_event(EventView::TextComplete(text), now);
            &&& r.busy
            &&& r.stored_chat is Some == e.stored_chat is Some
            &&& e.stored_chat matches Some(c) ==> {
                let d = r.stored_chat->0;
                &&& d.segments == c.segments.push(
                    SegmentView::Message(
                        MessageView { role: Role::Assistant, content: ContentView::Text(text) },
                    ),
                )
                &&& d.streaming_buffer == Seq::<char>::empty()
                &&& d.expand_level == c.expand_level
                &&& d.tool_args == c.tool_args
            }
            &&& r.id == e.id
            &&& r.title == e.title
            &&& r.status == e.status
            &&& r.stored_queue == e.stored_queue
            &&& r.stored_input_buffer == e.stored_input_buffer
            &&& r.yaml_path == e.yaml_path
            &&& r.has_agent == e.has_agent
        }),
{
}

/// A session that got an answer in the background shows it last when it is
/// shown again.
#[verifier::rlimit(40)]
pub proof fn law_background_answer_is_shown(
    v: AppView,
    id: SessionId,
    text: Seq<char>,
    loaded: LoadedView,
    t1: i64,
    t2: i64,
)
    requires
        v.sessions.has(v.sessions.active_id),
        v.sessions.has(id),
        id != v.sessions.active_id,
        v.sessions.entry(id).stored_chat is Some,
    ensures
        ({
            let w = AppView {
                sessions: v.sessions.with(
                    v.sessions.entry(id).after_event(EventView::TextComplete(text), t1),
                ),
                ..v
            };
            w.switched(id, loaded, t2).app.chat.segments == v.sessions.entry(
                id,
            ).stored_chat->0.segments.push(
                SegmentView::Message(
                    MessageView { role: Role::Assistant, content: ContentView::Text(text) },
                ),
            )
        }),
{
    let e = v.sessions.entry(id).after_event(EventView::TextComplete(text), t1);
    let w = AppView { sessions: v.sessions.with(e), ..v };
    lemma_entry_id(v.sessions, id);
    lemma_with(v.sessions, e, v.sessions.active_id);
    reveal(AppView::left);
    reveal(AppView::entered_session);
    lemma_stashed(w.sessions, w.live(), t2, id);
}

/// What the list says of a session in the background: it works while pieces come
/// and tools run, and rests when the turn has ended, was stopped or has failed.
pub proof fn law_background_work_is_shown(
    e: EntryView,
    piece: Seq<char>,
    id: Seq<char>,
    name: Seq<char>,
    arguments: Seq<char>,
    output: Seq<char>,
    is_error: bool,
    message: Seq<char>,
    now: i64,
)
    ensures
        e.after_event(EventView::TextDelta(piece), now) == (EntryView { busy: true, ..e }),
        e.after_event(EventView::ThinkingDelta(piece), now) == (EntryView { busy: true, ..e }),
        ({
            let r = e.after_event(EventView::ToolCallStarted { id, name, arguments }, now);
            &&& r.busy
            &&& r.current_tool == Some(name)
            &&& r.updated_at == now
            &&& r.stored_chat == e.stored_chat
            &&& r.status == e.status
            &&& r.title == e.title
            &&& r.after_event(
                EventView::ToolCallFinished { call_id: id, tool_name: name, output, is_error },
                now,
            ).current_tool is None
        }),
        e.current_tool != Some(name) ==> e.after_event(
            EventView::ToolCallFinished { call_id: id, tool_name: name, output, is_error },
            now,
        ) == e,
        ({
            let r = e.after_event(EventView::TurnComplete, now);
            &&& !r.busy
            &&& r.current_tool is None
            &&& r.status == ChatStatus::Completed
            &&& r.updated_at == now
            &&& r.stored_chat == e.stored_chat
            &&& r.title == e.title
        }),
        ({
            let r = e.after_event(EventView::Error(message), now);
            &&& !r.busy
            &&& r.current_tool is None
            &&& r.status == e.status
            &&& r.stored_chat == e.stored_chat
        }),
        ({
            let r = e.after_event(EventView::Aborted { partial_text: message }, now);
            &&& !r.busy
            &&& r.current_tool is None
            &&& r.status == e.status
            &&& r.stored_chat == e.stored_chat
        }),
{
}

/// The share of the context that is reported for a session in the background is
/// the one that the list shows, where the size of the context is known. Nothing
/// else changes with it.
pub proof fn law_background_share_is_shown(
    e: EntryView,
    input: u32,
    output_tokens: u32,
    cache_read: u32,
    cache_write: u32,
    max_tokens: usize,
    max_output_tokens: usize,
    share: u8,
    now: i64,
)
    ensures
        ({
            let r = e.after_event(
                EventView::TokenUsage {
                    input,
                    output_tokens,
                    cache_read,
                    cache_write,
                    max_tokens,
                    max_output_tokens,
                    share,
                },
                now,
            );
            &&& max_tokens > 0 ==> r == (EntryView { context_pct: share, ..e })
            &&& max_tokens == 0 ==> r == e
        }),
{
}

/// A new session has the identifier and the title it was given, nothing in it,
/// and no agent yet.
pub proof fn law_blank_session_has_nothing(id: SessionId, title: Seq<char>, now: i64)
    ensures
        ({
            let e = EntryView::blank(id, title, now);
            &&& e.id == id
            &&& e.title == title
            &&& e.status == ChatStatus::Active
            &&& e.created_at == now
            &&& e.updated_at == now
            &&& e.parent_id is None
            &&& e.yaml_path is None
            &&& e.stored_chat is None
            &&& e.stored_queue is None
            &&& e.stored_input_buffer is None
            &&& e.session_state is None
            &&& !e.has_agent
            &&& !e.busy
            &&& e.current_tool is None
            &&& e.total_output_tokens == 0
        }),
{
}

// ── Switching ────────────────────────────────────────────────────────────────

/// A session that is shown is the active one, with what was kept of it. An agent
/// is started for it only if it has none.
#[verifier::rlimit(40)]
pub proof fn law_switch_brings_what_was_kept(
    v: AppView,
    id: SessionId,
    loaded: LoadedView,
    now: i64,
)
    requires
        v.sessions.has(v.sessions.active_id),
        v.sessions.has(id),
        id != v.sessions.active_id,
    ensures
        ({
            let e = v.sessions.entry(id);
            let r = v.switched(id, loaded, now);
            let w = r.app;
            &&& w.sessions.active_id == id
            &&& e.stored_chat matches Some(c) ==> w.chat == c
            &&& e.stored_queue matches Some(q) ==> w.queue == q
            &&& e.stored_queue is None ==> w.queue.messages.len() == 0 && w.queue.selected is None
            &&& e.stored_input_buffer matches Some(b) ==> w.input.buffer == b
            &&& e.stored_input_buffer is None ==> w.input.buffer.len() == 0
            &&& e.stored_input_cursor matches Some(c) ==> w.input.cursor == c
            &&& e.session_state matches Some(s) ==> w.session == s
            &&& e.session_state is None ==> w.session.model_cfg == v.default_model
                && w.session.mode == AgentMode::Agent
            &&& w.yaml_path == e.yaml_path
            &&& w.jsonl_path == e.jsonl_path
            &&& e.stored_chat is Some ==> w.chat_title == e.title
            &&& w.agent.total_context_tokens == e.total_context_tokens
            &&& w.agent.total_output_tokens == e.total_output_tokens
            &&& w.agent.total_context_pct == e.total_context_pct
            &&& w.agent.cache_hit_pct == e.cache_hit_pct
            &&& e.has_agent ==> w.agent.busy == e.busy && w.agent.connected
            &&& !e.has_agent ==> !w.agent.busy
            &&& w.input.history == v.input.history
            &&& !e.has_agent ==> r.effects == seq![
                EffectView::SpawnAgent(id),
                EffectView::Rerender,
                EffectView::ScrollToBottom,
            ]
            &&& e.has_agent ==> r.effects == seq![EffectView::Rerender, EffectView::ScrollToBottom]
        }),
{
    reveal(AppView::left);
    reveal(AppView::entered_session);
    let e = v.sessions.entry(id);
    lemma_stashed(v.sessions, v.live(), now, id);
    let r = v.switched(id, loaded, now);
    if e.has_agent {
        assert(r.effects =~= seq![EffectView::Rerender, EffectView::ScrollToBottom]);
    } else {
        assert(r.effects =~= seq![
            EffectView::SpawnAgent(id),
            EffectView::Rerender,
            EffectView::ScrollToBottom,
        ]);
    }
}

/// A conversation that was read from outside is shown where none was kept: the
/// messages of a saved chat without those of the system, or what a subagent has
/// written as one answer.
#[verifier::rlimit(40)]
pub proof fn law_read_conversation_is_shown(
    v: AppView,
    id: SessionId,
    header: HeaderView,
    messages: Seq<MessageView>,
    text: Seq<char>,
    now: i64,
)
    requires
        v.sessions.has(v.sessions.active_id),
        v.sessions.has(id),
        id != v.sessions.active_id,
        v.sessions.entry(id).stored_chat is None,
    ensures
        ({
            let w = v.switched(id, LoadedView::Document { header, messages }, now).app;
            &&& w.chat.segments == messages.filter(
                |m: MessageView| !(m.role is System),
            ).map_values(|m: MessageView| SegmentView::Message(m))
            &&& w.chat_title == header.title
        }),
        v.switched(id, LoadedView::Nothing, now).app.chat.segments.len() == 0,
        text.len() == 0 ==> v.switched(id, LoadedView::Text(text), now).app.chat.segments.len()
            == 0,
        text.len() > 0 ==> v.switched(id, LoadedView::Text(text), now).app.chat.segments == seq![
            SegmentView::Message(
                MessageView { role: Role::Assistant, content: ContentView::Text(text) },
            ),
        ],
{
    reveal(AppView::left);
    reveal(AppView::entered_session);
    lemma_stashed(v.sessions, v.live(), now, id);
    lemma_document_segments(messages);
}

proof fn lemma_document_segments(messages: Seq<MessageView>)
    ensures
        segments_of(messages.map_values(|m: MessageView| RecordView::Message(m)))
            == messages.filter(|m: MessageView| !(m.role is System)).map_values(
            |m: MessageView| SegmentView::Message(m),
        ),
    decreases messages.len(),
{
    reveal(Seq::filter);
    let record = |m: MessageView| RecordView::Message(m);
    let said = |m: MessageView| !(m.role is System);
    let seg = |m: MessageView| SegmentView::Message(m);
    let all = messages.map_values(record);
    if messages.len() == 0 {
        assert(segments_of(all) =~= messages.filter(said).map_values(seg));
    } else {
        let init = messages.drop_last();
        lemma_document_segments(init);
        assert(all.drop_last() =~= init.map_values(record));
        assert(all.last() == record(messages.last()));
        if said(messages.last()) {
            assert(init.filter(said).push(messages.last()).map_values(seg) =~= init.filter(
                said,
            ).map_values(seg).push(seg(messages.last())));
        }
        assert(segments_of(all) =~= messages.filter(said).map_values(seg));
    }
}

/// A new session is on top of the list, has the input in focus and nothing in
/// it, and an agent is started for it.
#[verifier::rlimit(40)]
pub proof fn law_new_session_is_on_top(v: AppView, id: SessionId, path: Option<Seq<char>>, now: i64)
    requires
        v.sessions.has(v.sessions.active_id),
        id != v.sessions.active_id,
    ensures
        ({
            let r = v.renewed(id, path, now);
            let w = r.app;
            &&& w.sessions.active_id == id
            &&& w.sessions.order.len() > 0
            &&& w.sessions.order[0] == id
            &&& w.sessions.has(id)
            &&& w.ui.focus == FocusPane::Input
            &&& w.chat.segments.len() == 0
            &&& w.input.buffer.len() == 0
            &&& w.input.cursor == 0
            &&& w.queue.messages.len() == 0
            &&& w.yaml_path == path
            &&& w.jsonl_path is None
            &&& w.session.model_cfg == v.default_model
            &&& w.session.mode == AgentMode::Agent
            &&& !w.agent.busy
            &&& w.agent.total_output_tokens == 0
            &&& w.chat_title == w.sessions.entry(id).title
            &&& r.effects == seq![EffectView::SpawnAgent(id), EffectView::Rerender]
        }),
{
    reveal(AppView::left);
    reveal(AppView::renewed);
    let l = v.left(now);
    let e = EntryView::blank(id, "New chat"@, now);
    lemma_stashed(v.sessions, v.live(), now, id);
    lemma_with(l.sessions, e, v.sessions.active_id);
    let made = ManagerView { active_id: id, ..l.sessions.created(e) };
    assert(made.entries == l.sessions.with(e).entries);
    assert(made.has(id) && made.entry(id) == e);
    assert(v.renewed(id, path, now).effects =~= seq![
        EffectView::SpawnAgent(id),
        EffectView::Rerender,
    ]);
}

/// An agent that was started belongs to its session, and is the one that is
/// spoken to if the session is the active one.
pub proof fn law_started_agent_is_known(v: AppView, id: SessionId, other: SessionId)
    requires
        v.sessions.has(id),
        other != id,
    ensures
        ({
            let w = v.agent_started(id);
            &&& w.sessions.has(id)
            &&& w.sessions.entry(id).has_agent
            &&& w.sessions.entry(id).title == v.sessions.entry(id).title
            &&& w.sessions.has(other) == v.sessions.has(other)
            &&& v.sessions.has(other) ==> w.sessions.entry(other) == v.sessions.entry(other)
            &&& id == v.sessions.active_id ==> w.agent.connected
            &&& id != v.sessions.active_id ==> w.agent.connected == v.agent.connected
            &&& w.chat == v.chat
        }),
{
    lemma_entry_id(v.sessions, id);
    lemma_with(v.sessions, EntryView { has_agent: true, ..v.sessions.entry(id) }, other);
}

// ── The list ─────────────────────────────────────────────────────────────────

proof fn lemma_without_is_filter(ids: Seq<SessionId>, id: SessionId)
    ensures
        without_id(ids, id) == ids.filter(|x: SessionId| x != id),
    decreases ids.len(),
{
    reveal(Seq::filter);
    if ids.len() > 0 {
        lemma_without_is_filter(ids.drop_last(), id);
    }
    assert(without_id(ids, id) =~= ids.filter(|x: SessionId| x != id));
}

/// A session that is put on top of the list is its first entry, and all others
/// stay in their order. A subagent stays below its parent.
pub proof fn law_promotion_moves_one(m: ManagerView, id: SessionId)
    ensures
        m.has(id) && m.entry(id).parent_id is Some ==> m.promoted(id).order == m.order,
        m.has(id) && m.entry(id).parent_id is None ==> {
            &&& m.promoted(id).order[0] == id
            &&& m.promoted(id).order.subrange(1, m.promoted(id).order.len() as int)
                == m.order.filter(|x: SessionId| x != id)
        },
        m.promoted(id).entries == m.entries,
        m.promoted(id).children == m.children,
        m.promoted(id).active_id == m.active_id,
{
    lemma_without_is_filter(m.order, id);
    let rest = without_id(m.order, id);
    assert((seq![id] + rest).subrange(1, (seq![id] + rest).len() as int) =~= rest);
}

proof fn lemma_with_child(
    children: Seq<(SessionId, Seq<SessionId>)>,
    parent: SessionId,
    id: SessionId,
    other: SessionId,
)
    ensures
        children_of(with_child(children, parent, id), parent) == children_of(children, parent).push(
            id,
        ),
        other != parent ==> children_of(with_child(children, parent, id), other) == children_of(
            children,
            other,
        ),
{
    let after = with_child(children, parent, id);
    lemma_parent_index(children, parent, 0);
    lemma_parent_index(after, parent, 0);
    lemma_parent_index(children, other, 0);
    lemma_parent_index(after, other, 0);
    let i = match crate::app::session_tree::parent_index(children, parent, 0) {
        Some(i) => i,
        None => children.len() as int,
    };
    assert(after[i].0 == parent);
    assert(forall|k: int| 0 <= k < children.len() && k != i ==> after[k] == children[k]);
    assert(forall|k: int| 0 <= k < children.len() ==> (#[trigger] after[k]).0 == children[k].0);
    let p = crate::app::session_tree::parent_index(after, parent, 0);
    assert(p is Some);
    let j = p->0;
    if j < i {
        assert(after[j].0 == children[j].0);
        assert(children[j].0 == parent);
        assert(false);
    }
    if j > i {
        assert(after[i].0 != parent);
        assert(false);
    }
    assert(children_of(after, parent) =~= children_of(children, parent).push(id));
    if other != parent {
        let a = crate::app::session_tree::parent_index(children, other, 0);
        let b = crate::app::session_tree::parent_index(after, other, 0);
        if a is Some {
            assert(after[a->0].0 == other);
            assert(b is Some);
            if b->0 < a->0 {
                assert(after[b->0].0 == children[b->0].0);
            }
            if b->0 > a->0 {
                assert(after[a->0].0 != other);
            }
            assert(b == a);
            assert(after[a->0] == children[a->0]);
        } else if b is Some {
            if b->0 < children.len() {
                assert(after[b->0].0 == children[b->0].0);
                assert(children[b->0].0 != other);
            } else {
                assert(after[b->0].0 == parent);
            }
            assert(false);
        }
    }
}

/// A session without a parent that becomes known comes on top of the list, once;
/// one with a parent comes behind the others below it. No other list changes.
pub proof fn law_new_sessions_have_their_place(m: ManagerView, e: EntryView, other: SessionId)
    ensures
        e.parent_id is None && !m.order.contains(e.id) ==> {
            &&& m.registered(e).order[0] == e.id
            &&& m.registered(e).order.subrange(1, m.registered(e).order.len() as int) == m.order
        },
        e.parent_id is None && m.order.contains(e.id) ==> m.registered(e).order == m.order,
        e.parent_id is None ==> m.registered(e).children == m.children,
        e.parent_id matches Some(p) ==> {
            &&& m.registered(e).order == m.order
            &&& children_of(m.registered(e).children, p) == children_of(m.children, p).push(e.id)
            &&& other != p ==> children_of(m.registered(e).children, other) == children_of(
                m.children,
                other,
            )
        },
        m.registered(e).active_id == m.active_id,
        m.created(e).order[0] == e.id,
        m.created(e).order.subrange(1, m.created(e).order.len() as int) == m.order,
        m.created(e).children == m.children,
{
    assert((seq![e.id] + m.order).subrange(1, (seq![e.id] + m.order).len() as int) =~= m.order);
    if let Some(p) = e.parent_id {
        lemma_with_child(m.children, p, e.id, other);
    }
}

/// A session that is put below another is listed last there, whatever it says of
/// its parent, and is found as it was given.
pub proof fn law_child_session_has_its_place(
    m: ManagerView,
    parent: SessionId,
    e: EntryView,
    other: SessionId,
)
    ensures
        children_of(m.with_child_session(parent, e).children, parent) == children_of(
            m.children,
            parent,
        ).push(e.id),
        other != parent ==> children_of(m.with_child_session(parent, e).children, other)
            == children_of(m.children, other),
        m.with_child_session(parent, e).has(e.id),
        m.with_child_session(parent, e).entry(e.id) == e,
        m.with_child_session(parent, e).order == m.order,
{
    lemma_with_child(m.children, parent, e.id, other);
    lemma_with(m, e, other);
    assert(m.with_child_session(parent, e).entries == m.with(e).entries);
}

proof fn lemma_child_rows(m: ManagerView, ids: Seq<SessionId>, n: int)
    requires
        0 <= n <= ids.len(),
    ensures
        m.child_rows(ids, n) == ids.take(n).filter(|x: SessionId| m.has(x)).map_values(
            |x: SessionId| (x, 1u16),
        ),
    decreases n,
{
    reveal(Seq::filter);
    let known = |x: SessionId| m.has(x);
    let row = |x: SessionId| (x, 1u16);
    if n == 0 {
        assert(ids.take(0) =~= seq![]);
        assert(m.child_rows(ids, n) =~= ids.take(n).filter(known).map_values(row));
    } else {
        lemma_child_rows(m, ids, n - 1);
        assert(ids.take(n).drop_last() =~= ids.take(n - 1));
        assert(ids.take(n).last() == ids[n - 1]);
        let init = ids.take(n - 1).filter(known);
        if m.has(ids[n - 1]) {
            assert(init.push(ids[n - 1]).map_values(row) =~= init.map_values(row).push(
                row(ids[n - 1]),
            ));
        }
        assert(m.child_rows(ids, n) =~= ids.take(n).filter(known).map_values(row));
    }
}

/// The list has a row for each known session without a parent, in order, and
/// right below it a row for each of its known subagents, one step further in.
pub proof fn law_rows_follow_the_tree(m: ManagerView, i: int)
    requires
        0 <= i < m.order.len(),
        m.has(m.order[i]),
    ensures
        ({
            let kids = children_of(m.children, m.order[i]).filter(
                |x: SessionId| m.has(x),
            ).map_values(|x: SessionId| (x, 1u16));
            let at = m.rows_before(i).len() as int;
            &&& m.rows_before(i + 1).len() <= m.rows().len()
            &&& at + 1 + kids.len() == m.rows_before(i + 1).len()
            &&& m.rows()[at] == (m.order[i], 0u16)
            &&& m.rows().subrange(at + 1, at + 1 + kids.len()) == kids
        }),
{
    let kids = children_of(m.children, m.order[i]);
    lemma_child_rows(m, kids, kids.len() as int);
    assert(kids.take(kids.len() as int) =~= kids);
    lemma_rows_grow(m, i + 1, m.order.len() as int);
    let shown = kids.filter(|x: SessionId| m.has(x)).map_values(|x: SessionId| (x, 1u16));
    let at = m.rows_before(i).len() as int;
    let upto = m.rows_before(i + 1);
    assert(upto =~= m.rows_before(i).push((m.order[i], 0u16)) + shown);
    assert(upto[at] == (m.order[i], 0u16));
    assert(m.rows()[at] == upto[at]);
    assert(m.rows().subrange(at + 1, at + 1 + shown.len()) =~= shown) by {
        assert forall|k: int| 0 <= k < shown.len() implies m.rows()[at + 1 + k] == shown[k] by {
            assert(m.rows()[at + 1 + k] == upto[at + 1 + k]);
        }
    }
}

/// A session that is not known has no row.
pub proof fn law_unknown_sessions_have_no_row(m: ManagerView, i: int)
    requires
        0 <= i < m.order.len(),
        !m.has(m.order[i]),
    ensures
        m.rows_before(i + 1) == m.rows_before(i),
        m.rows_before(0).len() == 0,
        m.rows() == m.rows_before(m.order.len() as int),
{
}

proof fn lemma_rows_grow(m: ManagerView, a: int, b: int)
    requires
        0 <= a <= b,
    ensures
        m.rows_before(a).len() <= m.rows_before(b).len(),
        forall|k: int| 0 <= k < m.rows_before(a).len() ==> m.rows_before(b)[k] == m.rows_before(a)[k],
    decreases b - a,
{
    if a < b {
        lemma_rows_grow(m, a, b - 1);
    }
}

/// The row of the active session is the selected one, where it has a row.
pub proof fn law_active_row_is_selected(m: ManagerView, i: int)
    requires
        m.rows().len() <= usize::MAX,
        0 <= i < m.rows().len(),
        m.rows()[i].0 == m.active_id,
    ensures
        m.synced().list_selected < m.rows().len(),
        m.rows()[m.synced().list_selected as int].0 == m.active_id,
        m.synced().entries == m.entries,
        m.synced().order == m.order,
        m.synced().active_id == m.active_id,
{
    lemma_row_of(m.rows(), m.active_id, 0, i);
}

proof fn lemma_row_of(rows: Seq<(SessionId, u16)>, id: SessionId, from: int, i: int)
    requires
        0 <= from <= i < rows.len(),
        rows[i].0 == id,
    ensures
        row_of(rows, id, from) matches Some(k) && from <= k <= i && rows[k].0 == id,
    decreases i - from,
{
    if rows[from].0 != id {
        lemma_row_of(rows, id, from + 1, i);
    }
}

/// In the list one row up and one row down move the selection by one, not past
/// the ends.
pub proof fn law_list_selection_moves_by_one(m: ManagerView)
    requires
        m.list_selected < m.rows().len() <= usize::MAX,
    ensures
        m.list_selected > 0 ==> m.row_up().list_selected == m.list_selected - 1,
        m.list_selected == 0 ==> m.row_up().list_selected == 0,
        m.list_selected + 1 < m.rows().len() ==> m.row_down().list_selected == m.list_selected + 1,
        m.list_selected + 1 == m.rows().len() ==> m.row_down().list_selected == m.list_selected,
        m.row_up().active_id == m.active_id,
        m.row_down().active_id == m.active_id,
        m.row_up().entries == m.entries,
        m.row_down().entries == m.entries,
{
}

/// A saved chat that was not known becomes known with its title, its status, its
/// file and its time, at the end of the list.
pub proof fn law_saved_chat_becomes_known(m: ManagerView, h: HeaderView)
    requires
        !m.has(h.id),
    ensures
        ({
            let w = m.loaded(seq![h]);
            &&& w.has(h.id)
            &&& w.entry(h.id).id == h.id
            &&& w.entry(h.id).title == h.title
            &&& w.entry(h.id).status == h.status
            &&& w.entry(h.id).yaml_path == Some(h.path)
            &&& w.entry(h.id).updated_at == h.updated_at
            &&& w.entry(h.id).stored_chat is None
            &&& w.order == m.order.push(h.id)
            &&& w.active_id == m.active_id
        }),
{
    let one = seq![h];
    assert(one.drop_last() =~= seq![]);
    assert(m.loaded(one.drop_last()) == m);
    let w = m.loaded(one);
    assert(w.entries.last().id == h.id);
    lemma_entry_index(m.entries, h.id, 0);
    lemma_entry_index(w.entries, h.id, 0);
    let k = crate::app::session_tree::entry_index(w.entries, h.id, 0);
    assert(k is Some) by {
        assert(w.entries[m.entries.len() as int].id == h.id);
    }
    if k->0 < m.entries.len() {
        assert(w.entries[k->0] == m.entries[k->0]);
    }
}

/// Saved chats become known one after the other.
pub proof fn law_saved_chats_become_known_in_turn(
    m: ManagerView,
    headers: Seq<HeaderView>,
    h: HeaderView,
)
    ensures
        m.loaded(headers.push(h)) == m.loaded(headers).loaded(seq![h]),
        m.loaded(seq![]) == m,
{
    assert(headers.push(h).drop_last() =~= headers);
    let one = seq![h];
    assert(one.drop_last() =~= seq![]);
    assert(m.loaded(headers).loaded(one.drop_last()) == m.loaded(headers));
}

/// The file of a deleted session is deleted with it, behind those of its
/// subagents; where nothing can be deleted no file is.
pub proof fn law_file_goes_with_its_session(m: ManagerView, id: SessionId)
    ensures
        id == m.active_id || !m.has(id) ==> !m.deleted(id).1 && m.deleted(id).2.len() == 0
            && m.deleted(id).0 == m,
        id != m.active_id && m.has(id) ==> m.deleted(id).1,
        id != m.active_id && m.has(id) && m.entry(id).yaml_path is Some ==> {
            &&& m.deleted(id).2.len() > 0
            &&& m.deleted(id).2.last() == m.entry(id).yaml_path->0
        },
        id != m.active_id && m.has(id) && m.entry(id).yaml_path is None && m.orphans(id).len()
            == 0 ==> m.deleted(id).2.len() == 0,
{
}

} // verus!
