//! What a step leaves alone: of each report of the agent and of each step in the
//! conversation, what it changes, that it changes nothing else, and all that is
//! to be done for it.

use vstd::prelude::*;

use crate::app::agent_conn::AgentView;
use crate::app::agent_event::EventView;
use crate::app::chat_laws::spoken;
use crate::app::chat_state::{leaving, ChatView};
use crate::app::front::{AppView, EffectView};
use crate::app::input_state::EditView;
use crate::app::queue_state::QueuedView;
use crate::app::session_manager::{ChatStatus, EntryView, HeaderView, SessionId};
use crate::app::session_switch::{lemma_entry_id, lemma_stashed, lemma_with, LoadedView};
use crate::app::session_tree::ManagerView;
use crate::app::ui_state::{FocusPane, UiView};
use crate::chat::markdown::todos_markdown;
use crate::chat::segment::{SegmentView, TodoItemView};
use crate::text::trim;

verus! {

/// One thing to do where a condition holds, else none.
pub open spec fn where_so(c: bool, e: EffectView) -> Seq<EffectView> {
    if c {
        seq![e]
    } else {
        seq![]
    }
}

// ── Reports ──────────────────────────────────────────────────────────────────

/// A piece of an answer goes behind what was received, and what is drawn follows
/// it; only the counts of the agent change besides.
#[verifier::rlimit(40)]
pub proof fn law_piece_changes_what_is_received(v: AppView, d: Seq<char>)
    ensures
        ({
            let r = v.after_event(EventView::TextDelta(d));
            let a = r.app.agent;
            &&& r.app == AppView {
                chat: ChatView {
                    streaming_buffer: v.chat.streaming_buffer + d,
                    streaming_is_thinking: false,
                    ..v.chat
                },
                agent: AgentView {
                    streaming_tokens: a.streaming_tokens,
                    spinner_frame: a.spinner_frame,
                    ..v.agent
                },
                ..v
            }
            &&& r.effects == seq![EffectView::Rerender, EffectView::ScrollToBottom] + where_so(
                v.nvim.bridge,
                EffectView::EditorToBottom,
            ) + where_so(v.ui.pager_open, EffectView::RefreshPager)
        }),
        ({
            let r = v.after_event(EventView::ThinkingDelta(d));
            &&& r.app == AppView {
                chat: ChatView {
                    streaming_buffer: v.chat.streaming_buffer + d,
                    streaming_is_thinking: true,
                    ..v.chat
                },
                agent: AgentView { spinner_frame: r.app.agent.spinner_frame, ..v.agent },
                ..v
            }
            &&& r.effects == seq![EffectView::Rerender, EffectView::ScrollToBottom]
            &&& v.agent.spinner_frame < 255 ==> r.app.agent.spinner_frame == v.agent.spinner_frame
                + 1
            &&& v.agent.spinner_frame == 255 ==> r.app.agent.spinner_frame == 0
        }),
{
    reveal(AppView::after_text_delta);
    reveal(AppView::after_thought_delta);
    assert(v.after_event(EventView::TextDelta(d)).effects =~= seq![
        EffectView::Rerender,
        EffectView::ScrollToBottom,
    ] + where_so(v.nvim.bridge, EffectView::EditorToBottom) + where_so(
        v.ui.pager_open,
        EffectView::RefreshPager,
    ));
    assert(v.after_event(EventView::ThinkingDelta(d)).effects =~= seq![
        EffectView::Rerender,
        EffectView::ScrollToBottom,
    ]);
}

/// A complete answer or thought becomes the last segment, nothing is being
/// received any more, and nothing else changes.
#[verifier::rlimit(40)]
pub proof fn law_complete_text_changes_the_chat(v: AppView, t: Seq<char>)
    ensures
        ({
            let r = v.after_event(EventView::TextComplete(t));
            &&& r.app == AppView {
                chat: ChatView {
                    segments: v.chat.segments.push(spoken(false, t)),
                    streaming_buffer: seq![],
                    streaming_is_thinking: false,
                    ..v.chat
                },
                ..v
            }
            &&& r.effects == seq![
                EffectView::SaveHistory,
                EffectView::Rerender,
                EffectView::ScrollToBottom,
            ] + where_so(v.nvim.bridge, EffectView::EditorToBottom) + where_so(
                v.ui.pager_open,
                EffectView::RefreshPager,
            ) + where_so(v.nvim.bridge, EffectView::EditorModifiable)
        }),
        ({
            let r = v.after_event(EventView::ThinkingComplete(t));
            &&& r.app == AppView {
                chat: ChatView {
                    segments: v.chat.segments.push(SegmentView::Thinking { content: t }),
                    streaming_buffer: seq![],
                    streaming_is_thinking: false,
                    ..v.chat
                },
                ..v
            }
            &&& r.effects == seq![
                EffectView::SaveHistory,
                EffectView::Rerender,
                EffectView::ScrollToBottom,
            ] + where_so(v.nvim.bridge, EffectView::EditorToBottom)
        }),
{
    reveal(AppView::after_text);
    reveal(AppView::after_thought);
    assert(v.after_event(EventView::TextComplete(t)).effects =~= seq![
        EffectView::SaveHistory,
        EffectView::Rerender,
        EffectView::ScrollToBottom,
    ] + where_so(v.nvim.bridge, EffectView::EditorToBottom) + where_so(
        v.ui.pager_open,
        EffectView::RefreshPager,
    ) + where_so(v.nvim.bridge, EffectView::EditorModifiable));
    assert(v.after_event(EventView::ThinkingComplete(t)).effects =~= seq![
        EffectView::SaveHistory,
        EffectView::Rerender,
        EffectView::ScrollToBottom,
    ] + where_so(v.nvim.bridge, EffectView::EditorToBottom));
}

/// A call that begins or ends changes the conversation and what is known of the
/// running tools, and nothing else.
#[verifier::rlimit(40)]
pub proof fn law_calls_change_what_they_concern(
    v: AppView,
    id: Seq<char>,
    name: Seq<char>,
    text: Seq<char>,
    is_error: bool,
)
    ensures
        ({
            let todo = seq![
                EffectView::SaveHistory,
                EffectView::Rerender,
                EffectView::ScrollToBottom,
            ] + where_so(v.nvim.bridge, EffectView::EditorToBottom) + where_so(
                v.ui.pager_open,
                EffectView::RefreshPager,
            );
            let begun = v.after_event(
                EventView::ToolCallStarted { id, name, arguments: text },
            );
            let done = v.after_event(
                EventView::ToolCallFinished { call_id: id, tool_name: name, output: text, is_error },
            );
            &&& begun.app == AppView {
                chat: ChatView {
                    segments: begun.app.chat.segments,
                    tool_args: v.chat.tool_args.insert(id, name),
                    ..v.chat
                },
                agent: AgentView {
                    current_tool: Some(name),
                    tool_start_times: v.agent.tool_start_times.insert(id, v.ui.clock_ms),
                    ..v.agent
                },
                ..v
            }
            &&& begun.effects == todo
            &&& done.app == AppView {
                chat: ChatView {
                    segments: done.app.chat.segments,
                    tool_durations: done.app.chat.tool_durations,
                    ..v.chat
                },
                agent: AgentView {
                    current_tool: None,
                    tool_start_times: v.agent.tool_start_times.remove(id),
                    ..v.agent
                },
                needs_terminal_recover: true,
                ..v
            }
            &&& !v.agent.tool_start_times.dom().contains(id) ==> done.app.chat.tool_durations
                == v.chat.tool_durations
            &&& done.effects == todo
        }),
{
    reveal(AppView::after_call);
    reveal(AppView::after_result);
    let todo = seq![
        EffectView::SaveHistory,
        EffectView::Rerender,
        EffectView::ScrollToBottom,
    ] + where_so(v.nvim.bridge, EffectView::EditorToBottom) + where_so(
        v.ui.pager_open,
        EffectView::RefreshPager,
    );
    let begun = v.after_event(EventView::ToolCallStarted { id, name, arguments: text });
    let done = v.after_event(
        EventView::ToolCallFinished { call_id: id, tool_name: name, output: text, is_error },
    );
    assert(begun.effects =~= todo);
    assert(done.effects =~= todo);
    if !v.agent.tool_start_times.contains_key(id) {
        assert(v.agent.tool_start_times.remove(id) =~= v.agent.tool_start_times);
    }
}

/// An error, a todo list and a note add one segment each, and change nothing
/// else.
#[verifier::rlimit(40)]
pub proof fn law_notes_add_one_segment(
    v: AppView,
    message: Seq<char>,
    todos: Seq<TodoItemView>,
)
    ensures
        v.after_event(EventView::Error(message)).app == (AppView {
            chat: ChatView {
                segments: v.chat.segments.push(SegmentView::Error(message)),
                ..v.chat
            },
            ..v
        }),
        v.after_event(EventView::TodoUpdate(todos)).app == (AppView {
            chat: ChatView {
                segments: v.chat.segments.push(spoken(false, todos_markdown(todos))),
                ..v.chat
            },
            ..v
        }),
        v.after_event(EventView::TodoUpdate(todos)).effects == seq![
            EffectView::SaveHistory,
            EffectView::Rerender,
        ] + where_so(v.nvim.bridge, EffectView::EditorTodos),
        v.after_event(EventView::CollabEvent(message)).app == (AppView {
            chat: ChatView {
                segments: v.chat.segments.push(SegmentView::CollabEvent(message)),
                ..v.chat
            },
            ..v
        }),
{
    reveal(AppView::after_error);
    reveal(AppView::after_todos);
    reveal(AppView::after_note);
    assert(v.after_event(EventView::TodoUpdate(todos)).effects =~= seq![
        EffectView::SaveHistory,
        EffectView::Rerender,
    ] + where_so(v.nvim.bridge, EffectView::EditorTodos));
}

/// At the end of a turn the agent is idle, its tokens are carried over and its
/// tools are forgotten. Where nothing waits, the conversation, the queue and the
/// input stay as they are.
#[verifier::rlimit(40)]
pub proof fn law_end_of_a_turn_changes_the_agent(v: AppView)
    requires
        v.agent.total_output_tokens + v.agent.output_tokens <= u32::MAX,
    ensures
        ({
            let r = v.after_event(EventView::TurnComplete);
            let a = AgentView {
                busy: false,
                current_tool: None,
                total_context_tokens: v.agent.context_tokens,
                total_output_tokens: (v.agent.total_output_tokens + v.agent.output_tokens) as u32,
                context_tokens: 0,
                output_tokens: 0,
                streaming_tokens: 0,
                spinner_frame: 0,
                tool_start_times: Map::empty(),
                ..v.agent
            };
            let goes = v.edit.queue_index is None && !v.queue.abort_pending
                && v.queue.messages.len() > 0;
            let first = where_so(v.nvim.bridge, EffectView::EditorModifiable) + seq![
                EffectView::SaveHistory,
            ];
            &&& r.app.agent == a
            &&& !goes ==> r.app == AppView {
                chat: ChatView { tool_streaming_content: Map::empty(), ..v.chat },
                agent: a,
                ..v
            }
            &&& !goes ==> r.effects == first
            &&& goes ==> r.effects == first + seq![
                EffectView::SaveHistory,
                EffectView::Rerender,
                EffectView::ScrollToBottom,
                EffectView::Send(v.queue.messages[0]),
            ]
            &&& r.app.input == v.input
            &&& r.app.edit == v.edit
            &&& r.app.session == v.session
            &&& r.app.sessions == v.sessions
            &&& v.ui.focus != FocusPane::Queue ==> r.app.ui == v.ui
            &&& r.app.ui == UiView { focus: r.app.ui.focus, ..v.ui }
        }),
{
    reveal(AppView::after_turn);
    let r = v.after_event(EventView::TurnComplete);
    let goes = v.edit.queue_index is None && !v.queue.abort_pending && v.queue.messages.len() > 0;
    let first = where_so(v.nvim.bridge, EffectView::EditorModifiable) + seq![
        EffectView::SaveHistory,
    ];
    if goes {
        assert(r.effects =~= first + seq![
            EffectView::SaveHistory,
            EffectView::Rerender,
            EffectView::ScrollToBottom,
            EffectView::Send(v.queue.messages[0]),
        ]);
    } else {
        assert(r.effects =~= first);
    }
}

/// A turn that was stopped ends like another, and what was received is no longer
/// shown as such. What is being edited, typed and chosen stays.
#[verifier::rlimit(40)]
pub proof fn law_stopped_turn_changes_the_agent(v: AppView, partial_text: Seq<char>)
    requires
        v.agent.total_output_tokens + v.agent.output_tokens <= u32::MAX,
    ensures
        ({
            let r = v.after_event(EventView::Aborted { partial_text });
            &&& r.app.agent == v.after_event(EventView::TurnComplete).app.agent
            &&& r.app.input == v.input
            &&& r.app.edit == v.edit
            &&& r.app.session == v.session
            &&& r.app.sessions == v.sessions
            &&& r.app.ui == UiView { focus: r.app.ui.focus, ..v.ui }
            &&& v.queue.messages.len() == 0 || v.queue.abort_pending || v.edit.queue_index is Some
                ==> {
                &&& r.app.ui == v.ui
                &&& r.effects == where_so(v.nvim.bridge, EffectView::EditorModifiable) + seq![
                    EffectView::SaveHistory,
                    EffectView::Rerender,
                    EffectView::ScrollToBottom,
                ] + where_so(v.ui.pager_open, EffectView::RefreshPager)
            }
        }),
{
    reveal(AppView::after_turn);
    reveal(AppView::after_abort);
    let r = v.after_event(EventView::Aborted { partial_text });
    if v.queue.messages.len() == 0 || v.queue.abort_pending || v.edit.queue_index is Some {
        assert(r.effects =~= where_so(v.nvim.bridge, EffectView::EditorModifiable) + seq![
            EffectView::SaveHistory,
            EffectView::Rerender,
            EffectView::ScrollToBottom,
        ] + where_so(v.ui.pager_open, EffectView::RefreshPager));
    }
}

// ── Steps in the conversation ────────────────────────────────────────────────

/// What is edited is given up with the segment that it belongs to: where the
/// conversation is cut at it or before it, and where it leaves. An edit of
/// another segment goes on.
pub proof fn law_edit_ends_with_its_segment(v: AppView, i: usize)
    requires
        v.chat.focused_segment == Some(i),
    ensures
        ({
            let cut = v.cut_at_highlight().app;
            let out = v.highlight_removed().app;
            let gone = leaving(v.chat.segments, i);
            &&& v.edit.message_index matches Some(e) ==> (if e >= i {
                cut.edit == EditView::none()
            } else {
                cut.edit == v.edit
            })
            &&& v.edit.message_index is None ==> cut.edit == v.edit && out.edit == v.edit
            &&& v.edit.message_index matches Some(e) ==> (if gone.contains(e) {
                out.edit == EditView::none()
            } else {
                out.edit == v.edit
            })
            &&& cut == AppView { chat: cut.chat, edit: cut.edit, ..v }
            &&& out == AppView { chat: out.chat, edit: out.edit, ..v }
        }),
        ({
            let none = EditView::none();
            none.message_index is None && none.queue_index is None && none.original_text is None
                && none.buffer.len() == 0 && none.cursor == 0
        }),
{
}

/// An edit that is confirmed or given up is over.
pub proof fn law_edit_is_over(v: AppView)
    ensures
        v.edit.queue_index is Some || v.edit.message_index is Some ==> {
            &&& v.edit_confirmed().app.edit == EditView::none()
            &&& v.edit_cancelled().app.edit == EditView::none()
            &&& v.edit_confirmed().app.input == v.input
            &&& v.edit_cancelled().app.input == v.input
            &&& v.edit_confirmed().app.sessions == v.sessions
        },
        v.edit.queue_index is None && v.edit.message_index is None ==> v.edit_confirmed().app == v
            && v.edit_confirmed().effects.len() == 0,
{
}

/// What was chosen for the next message goes with the question that is asked
/// again, and is no longer waiting then.
pub proof fn law_choices_go_with_the_question(v: AppView, i: usize, text: Seq<char>)
    requires
        v.edit.queue_index is None,
        v.edit.message_index == Some(i),
        i < v.chat.segments.len(),
        v.chat.segments[i as int] == spoken(true, text),
        trim(v.edit.buffer).len() > 0,
    ensures
        ({
            let r = v.edit_confirmed();
            &&& r.effects.len() == 3
            &&& r.effects[2] is Resubmit
            &&& r.effects[2]->Resubmit_1 == QueuedView {
                content: trim(v.edit.buffer),
                model_transition: v.session.staged_model,
                mode_transition: v.session.staged_mode,
            }
            &&& r.app.session.staged_model is None
            &&& r.app.session.staged_mode is None
        }),
{
}

/// A text that is sent takes what was chosen along, and the chat follows it.
/// Nothing else changes.
#[verifier::rlimit(40)]
pub proof fn law_sending_changes_what_it_concerns(v: AppView, text: Seq<char>)
    ensures
        ({
            let r = v.sent(text);
            &&& r.app == AppView {
                chat: ChatView { auto_scroll: true, ..v.chat },
                session: r.app.session,
                queue: r.app.queue,
                ..v
            }
            &&& r.app.session.staged_model is None
            &&& r.app.session.staged_mode is None
            &&& !v.agent.busy ==> r.app.queue == v.queue && r.effects == where_so(
                v.nvim.bridge,
                EffectView::SyncBuffer,
            ) + seq![
                EffectView::Deliver(
                    QueuedView {
                        content: text,
                        model_transition: v.session.staged_model,
                        mode_transition: v.session.staged_mode,
                    },
                ),
            ]
            &&& v.agent.busy ==> r.effects.len() == 0 && r.app.queue.messages
                == v.queue.messages.push(
                QueuedView {
                    content: text,
                    model_transition: v.session.staged_model,
                    mode_transition: v.session.staged_mode,
                },
            )
        }),
{
    reveal(AppView::sent);
    if !v.agent.busy {
        assert(v.sent(text).effects =~= where_so(v.nvim.bridge, EffectView::SyncBuffer) + seq![
            EffectView::Deliver(
                QueuedView {
                    content: text,
                    model_transition: v.session.staged_model,
                    mode_transition: v.session.staged_mode,
                },
            ),
        ]);
    }
}

/// A delivery adds one segment and changes nothing else.
pub proof fn law_delivery_adds_one_segment(v: AppView, m: QueuedView)
    ensures
        v.delivered(m).app == (AppView {
            chat: ChatView { segments: v.chat.segments.push(spoken(true, m.content)), ..v.chat },
            ..v
        }),
{
}

// ── Sessions ─────────────────────────────────────────────────────────────────

/// Of a session in the background only the reports of its answer, its tools, its
/// turn and its tokens change anything; what is typed and queued for it is never
/// touched.
pub proof fn law_background_reports_change_little(e: EntryView, event: EventView, now: i64)
    ensures
        ({
            let r = e.after_event(event, now);
            &&& r == EntryView {
                busy: r.busy,
                current_tool: r.current_tool,
                status: r.status,
                updated_at: r.updated_at,
                context_pct: r.context_pct,
                stored_chat: r.stored_chat,
                ..e
            }
            &&& !(event is TextComplete) ==> r.stored_chat == e.stored_chat
            &&& !(event is TurnComplete) ==> r.status == e.status
            &&& !(event is TurnComplete) && !(event is ToolCallStarted) ==> r.updated_at
                == e.updated_at
            &&& !(event is TokenUsage) ==> r.context_pct == e.context_pct
            &&& event is ToolProgress || event is ContextCompacted || event is TodoUpdate
                || event is ThinkingComplete || event is ModeChanged || event is CollabEvent
                || event is DelegateSummary || event is Other ==> r == e
            &&& event matches EventView::TextComplete(text) ==> r.current_tool == e.current_tool
                && (e.stored_chat matches Some(c) ==> r.stored_chat == Some(
                ChatView {
                    segments: c.segments.push(spoken(false, text)),
                    streaming_buffer: seq![],
                    ..c
                },
            ))
        }),
{
}

/// A report belongs to its session: the active one takes part in it; one in the
/// background takes note of it, without a change on the screen; and no other
/// session is touched.
pub proof fn law_reports_belong_to_their_session(
    v: AppView,
    id: SessionId,
    other: SessionId,
    event: EventView,
    now: i64,
)
    requires
        v.sessions.has(id),
        other != id,
    ensures
        ({
            let r = v.after_session_event(id, event, now);
            &&& id == v.sessions.active_id ==> r == v.after_event(event)
            &&& id != v.sessions.active_id ==> {
                &&& r.effects.len() == 0
                &&& r.app == AppView { sessions: r.app.sessions, ..v }
                &&& r.app.sessions.active_id == v.sessions.active_id
                &&& r.app.sessions.order == v.sessions.order
                &&& r.app.sessions.has(id)
                &&& r.app.sessions.entry(id) == v.sessions.entry(id).after_event(event, now)
                &&& r.app.sessions.has(other) == v.sessions.has(other)
                &&& v.sessions.has(other) ==> r.app.sessions.entry(other) == v.sessions.entry(other)
            }
        }),
{
    lemma_entry_id(v.sessions, id);
    lemma_with(v.sessions, v.sessions.entry(id).after_event(event, now), other);
}

/// A report of a session that is not known changes nothing.
pub proof fn law_reports_of_nobody_are_dropped(
    v: AppView,
    id: SessionId,
    event: EventView,
    now: i64,
)
    requires
        !v.sessions.has(id),
        id != v.sessions.active_id,
    ensures
        v.after_session_event(id, event, now).app == v,
        v.after_session_event(id, event, now).effects.len() == 0,
{
}

/// A session that is archived or gets another title keeps all else, and so do
/// the others.
pub proof fn law_archived_and_titled_sessions_keep_the_rest(
    m: ManagerView,
    id: SessionId,
    other: SessionId,
    title: Seq<char>,
    now: i64,
)
    requires
        m.has(id),
        other != id,
    ensures
        m.archived(id).has(id),
        m.archived(id).entry(id) == (EntryView { status: ChatStatus::Archived, ..m.entry(id) }),
        m.archived(id).has(other) == m.has(other),
        m.has(other) ==> m.archived(id).entry(other) == m.entry(other),
        m.archived(id).order == m.order,
        m.titled(id, title, now).has(id),
        m.titled(id, title, now).entry(id) == (EntryView {
            title,
            updated_at: now,
            ..m.entry(id)
        }),
        m.titled(id, title, now).has(other) == m.has(other),
        m.has(other) ==> m.titled(id, title, now).entry(other) == m.entry(other),
        m.titled(id, title, now).order == m.order,
{
    lemma_entry_id(m, id);
    lemma_with(m, EntryView { status: ChatStatus::Archived, ..m.entry(id) }, other);
    lemma_with(m, EntryView { title, updated_at: now, ..m.entry(id) }, other);
}

/// The session of a saved chat knows what the chat says of itself and where its
/// file is; under another identifier the file is not its own. That of a subagent
/// knows its parent, its buffer and its task.
pub proof fn law_sessions_know_where_they_come_from(
    h: HeaderView,
    id: SessionId,
    title: Seq<char>,
    parent: SessionId,
    buffer: Option<Seq<char>>,
    prompt: Seq<char>,
    now: i64,
)
    ensures
        ({
            let e = EntryView::of_saved(h);
            &&& e.id == h.id
            &&& e.title == h.title
            &&& e.status == h.status
            &&& e.yaml_path == Some(h.path)
            &&& e.created_at == h.created_at
            &&& e.updated_at == h.updated_at
            &&& e.parent_id is None
            &&& e.stored_chat is None
            &&& !e.busy
        }),
        ({
            let e = EntryView::of_saved_into(h, id);
            &&& e.id == id
            &&& e.title == h.title
            &&& e.status == h.status
            &&& e.yaml_path is None
            &&& e.created_at == h.created_at
            &&& e.updated_at == h.updated_at
        }),
        ({
            let e = EntryView::of_subagent(id, title, parent, buffer, prompt, now);
            &&& e.id == id
            &&& e.title == title
            &&& e.parent_id == Some(parent)
            &&& e.buffer_handle == buffer
            &&& e.initial_prompt == Some(prompt)
            &&& e.created_at == now
            &&& e.updated_at == now
            &&& e.yaml_path is None
            &&& e.stored_chat is None
        }),
{
}

/// A conversation is read from outside only where none is kept.
pub proof fn law_kept_conversations_are_not_read(v: AppView, id: SessionId)
    ensures
        v.sessions.has(id) && v.sessions.entry(id).stored_chat is None ==> v.sources_of(id) == (
            v.sessions.entry(id).yaml_path,
            v.sessions.entry(id).buffer_handle,
        ),
        !v.sessions.has(id) || v.sessions.entry(id).stored_chat is Some ==> v.sources_of(id).0
            is None && v.sources_of(id).1 is None,
{
}

/// A session that becomes active brings its attachments and the place of its
/// cursor; nothing is being edited in it, and all that concerns the screen as a
/// whole stays.
#[verifier::rlimit(40)]
pub proof fn law_switch_leaves_the_screen(
    v: AppView,
    id: SessionId,
    loaded: LoadedView,
    now: i64,
)
    requires
        v.sessions.has(v.sessions.active_id),
        v.sessions.has(id),
        id != v.sessions.active_id,
    ensures
        ({
            let e = v.sessions.entry(id);
            let w = v.switched(id, loaded, now).app;
            &&& e.stored_input_attachments matches Some(a) ==> w.input.attachments == a
            &&& e.stored_input_attachments is None ==> w.input.attachments.len() == 0
            &&& e.stored_input_cursor is None ==> w.input.cursor == 0
            &&& w.edit == EditView::none()
            &&& w.prefs == v.prefs
            &&& w.layout == v.layout
            &&& w.nvim == v.nvim
            &&& w.default_model == v.default_model
            &&& w.is_node_proxy == v.is_node_proxy
        }),
{
    reveal(AppView::left);
    reveal(AppView::entered_session);
    lemma_stashed(v.sessions, v.live(), now, id);
}

} // verus!
