//! What the reports of the agent promise: which of them are kept in the
//! conversation, and as what.

use vstd::prelude::*;

use crate::app::agent_event::EventView;
use crate::app::agent_events::{behind_mark, index_or_len};
use crate::app::front::{AppView, EffectView};
use crate::chat::segment::{
    CompactionStrategyUsed, ContentView, FunctionCallView, MessageView, Role, SegmentView,
    TodoItemView,
};
use crate::chat::segment_ops::messages_of;
use crate::chat::tools::is_error_result;
use crate::commands::AgentMode;
use crate::text::{byte_len, has_prefix, lines};

verus! {

/// The messages that are sent again are exactly the messages of the
/// conversation, in order.
pub proof fn law_every_message_is_sent_again(segs: Seq<SegmentView>)
    ensures
        messages_of(segs) == segs.filter(|s: SegmentView| s is Message).map_values(
            |s: SegmentView| s->Message_0,
        ),
    decreases segs.len(),
{
    reveal(Seq::filter);
    let is_message = |s: SegmentView| s is Message;
    let message = |s: SegmentView| s->Message_0;
    if segs.len() > 0 {
        let init = segs.drop_last();
        law_every_message_is_sent_again(init);
        if segs.last() is Message {
            assert(init.filter(is_message).push(segs.last()).map_values(message) =~= init.filter(
                is_message,
            ).map_values(message).push(segs.last()->Message_0));
        }
    }
    assert(messages_of(segs) =~= segs.filter(is_message).map_values(message));
}

/// A complete answer is the last message of the conversation, and nothing is
/// being received any more. The conversation is saved and drawn.
#[verifier::rlimit(40)]
pub proof fn law_answer_is_kept(v: AppView, text: Seq<char>)
    ensures
        ({
            let r = v.after_event(EventView::TextComplete(text));
            &&& r.app.chat.segments == v.chat.segments.push(
                SegmentView::Message(
                    MessageView { role: Role::Assistant, content: ContentView::Text(text) },
                ),
            )
            &&& r.app.chat.streaming_buffer == Seq::<char>::empty()
            &&& !r.app.chat.streaming_is_thinking
            &&& r.app.agent == v.agent
            &&& r.effects[0] == EffectView::SaveHistory
            &&& r.effects[1] == EffectView::Rerender
            &&& r.effects[2] == EffectView::ScrollToBottom
            &&& v.nvim.bridge ==> r.effects.last() == EffectView::EditorModifiable
        }),
{
    reveal(AppView::after_text);
}

/// Pieces of an answer or of a thought are put together as they come, and are
/// told apart. They are no part of the conversation yet.
#[verifier::rlimit(40)]
pub proof fn law_pieces_are_put_together(v: AppView, a: Seq<char>, b: Seq<char>)
    ensures
        ({
            let one = v.after_event(EventView::TextDelta(a)).app;
            let both = one.after_event(EventView::TextDelta(b)).app;
            &&& one.chat.streaming_buffer == v.chat.streaming_buffer + a
            &&& both.chat.streaming_buffer == v.chat.streaming_buffer + (a + b)
            &&& !one.chat.streaming_is_thinking
            &&& both.chat.segments == v.chat.segments
            &&& v.after_event(EventView::TextDelta(a)).effects[0] == EffectView::Rerender
            &&& v.after_event(EventView::TextDelta(a)).effects[1] == EffectView::ScrollToBottom
        }),
        ({
            let one = v.after_event(EventView::ThinkingDelta(a)).app;
            let both = one.after_event(EventView::ThinkingDelta(b)).app;
            &&& one.chat.streaming_buffer == v.chat.streaming_buffer + a
            &&& both.chat.streaming_buffer == v.chat.streaming_buffer + (a + b)
            &&& one.chat.streaming_is_thinking
            &&& both.chat.segments == v.chat.segments
            &&& v.after_event(EventView::ThinkingDelta(a)).effects[0] == EffectView::Rerender
            &&& v.after_event(EventView::ThinkingDelta(a)).effects[1] == EffectView::ScrollToBottom
        }),
{
    reveal(AppView::after_text_delta);
    reveal(AppView::after_thought_delta);
    assert(v.chat.streaming_buffer + a + b =~= v.chat.streaming_buffer + (a + b));
}

/// A piece of an answer moves the spinner and counts a token for every four
/// bytes that have begun.
#[verifier::rlimit(40)]
pub proof fn law_pieces_are_counted(v: AppView, delta: Seq<char>)
    requires
        byte_len(delta) <= u32::MAX,
        v.agent.streaming_tokens + byte_len(delta) <= u32::MAX,
    ensures
        ({
            let a = v.after_event(EventView::TextDelta(delta)).app.agent;
            let tokens = a.streaming_tokens - v.agent.streaming_tokens;
            &&& byte_len(delta) <= 4 * tokens < byte_len(delta) + 4
            &&& a.spinner_frame == (if v.agent.spinner_frame == 255 {
                0
            } else {
                v.agent.spinner_frame + 1
            })
            &&& a.busy == v.agent.busy
            &&& a.output_tokens == v.agent.output_tokens
        }),
{
    reveal(AppView::after_text_delta);
}

/// A complete thought is kept as a thought behind the conversation, and nothing
/// is being received any more.
#[verifier::rlimit(40)]
pub proof fn law_thought_is_kept(v: AppView, content: Seq<char>)
    ensures
        ({
            let r = v.after_event(EventView::ThinkingComplete(content));
            &&& r.app.chat.segments == v.chat.segments.push(SegmentView::Thinking { content })
            &&& r.app.chat.streaming_buffer == Seq::<char>::empty()
            &&& !r.app.chat.streaming_is_thinking
            &&& r.effects[0] == EffectView::SaveHistory
            &&& r.effects[1] == EffectView::Rerender
            &&& r.effects[2] == EffectView::ScrollToBottom
        }),
{
    reveal(AppView::after_thought);
}

/// A call that was started is kept with its arguments, its name is known by its
/// identifier, and it is what the agent works on since now.
#[verifier::rlimit(40)]
pub proof fn law_call_is_kept(
    v: AppView,
    id: Seq<char>,
    name: Seq<char>,
    arguments: Seq<char>,
    other: Seq<char>,
)
    requires
        other != id,
    ensures
        ({
            let r = v.after_event(EventView::ToolCallStarted { id, name, arguments });
            &&& r.app.chat.segments == v.chat.segments.push(
                SegmentView::Message(
                    MessageView {
                        role: Role::Assistant,
                        content: ContentView::ToolCall {
                            tool_call_id: id,
                            function: FunctionCallView { name, arguments },
                        },
                    },
                ),
            )
            &&& r.app.chat.tool_args.contains_key(id)
            &&& r.app.chat.tool_args[id] == name
            &&& r.app.chat.tool_args.contains_key(other) == v.chat.tool_args.contains_key(other)
            &&& r.app.chat.tool_args[other] == v.chat.tool_args[other]
            &&& r.app.agent.current_tool == Some(name)
            &&& r.app.agent.tool_start_times.contains_key(id)
            &&& r.app.agent.tool_start_times[id] == v.ui.clock_ms
            &&& r.app.agent.tool_start_times.contains_key(other)
                == v.agent.tool_start_times.contains_key(other)
            &&& r.app.agent.tool_start_times[other] == v.agent.tool_start_times[other]
            &&& r.effects[0] == EffectView::SaveHistory
            &&& r.effects[1] == EffectView::Rerender
            &&& r.effects[2] == EffectView::ScrollToBottom
        }),
{
    reveal(AppView::after_call);
}

/// The result of a call is kept under the call's identifier. What went well is
/// kept as it was put out; what failed is marked, and so it is told from the
/// rest. No tool runs any more, and the terminal is to be set up again.
#[verifier::rlimit(40)]
pub proof fn law_result_is_kept(
    v: AppView,
    call_id: Seq<char>,
    tool_name: Seq<char>,
    output: Seq<char>,
    is_error: bool,
)
    ensures
        ({
            let r = v.after_event(
                EventView::ToolCallFinished { call_id, tool_name, output, is_error },
            );
            let new = r.app.chat.segments.last();
            &&& r.app.chat.segments == v.chat.segments.push(new)
            &&& new is Message
            &&& new->Message_0.role == Role::Tool
            &&& new->Message_0.content is ToolResult
            &&& new->Message_0.content->ToolResult_tool_call_id == call_id
            &&& !is_error ==> new->Message_0.content->ToolResult_content == output
            &&& is_error ==> new->Message_0.content->ToolResult_content
                == seq!['e', 'r', 'r', 'o', 'r', ':', ' '] + output
            &&& is_error ==> is_error_result(new)
            &&& r.app.agent.current_tool is None
            &&& r.app.agent.busy == v.agent.busy
            &&& r.app.needs_terminal_recover
            &&& r.effects[0] == EffectView::SaveHistory
            &&& r.effects[1] == EffectView::Rerender
            &&& r.effects[2] == EffectView::ScrollToBottom
        }),
{
    reveal(AppView::after_result);
    reveal_strlit("error: ");
    reveal_strlit("error:");
    assert("error: "@ =~= seq!['e', 'r', 'r', 'o', 'r', ':', ' ']);
    if is_error {
        assert(("error: "@ + output).take(6) =~= "error:"@);
    }
}

/// A result is that of a failed call exactly if it says so at its start.
pub proof fn law_failure_is_told_by_its_mark(id: Seq<char>, content: Seq<char>, role: Role)
    ensures
        is_error_result(
            SegmentView::Message(
                MessageView { role, content: ContentView::ToolResult { tool_call_id: id, content } },
            ),
        ) <==> content.len() >= 6 && content[0] == 'e' && content[1] == 'r' && content[2] == 'r'
            && content[3] == 'o' && content[4] == 'r' && content[5] == ':',
{
    reveal_strlit("error:");
    if content.len() >= 6 {
        assert(content.take(6) == "error:"@ <==> (forall|i: int|
            0 <= i < 6 ==> content.take(6)[i] == "error:"@[i])) by {
            if forall|i: int| 0 <= i < 6 ==> content.take(6)[i] == "error:"@[i] {
                assert(content.take(6) =~= "error:"@);
            }
        }
        if content[0] == 'e' && content[1] == 'r' && content[2] == 'r' && content[3] == 'o'
            && content[4] == 'r' && content[5] == ':' {
            assert(content.take(6) =~= "error:"@);
        } else {
            assert(content.take(6)[0] == content[0] && content.take(6)[1] == content[1]
                && content.take(6)[2] == content[2] && content.take(6)[3] == content[3]
                && content.take(6)[4] == content[4] && content.take(6)[5] == content[5]);
        }
    }
}

/// From the start of a call to its end the clock says how long it took, and the
/// time of its start is forgotten.
#[verifier::rlimit(40)]
pub proof fn law_calls_are_timed(
    v: AppView,
    w: AppView,
    id: Seq<char>,
    name: Seq<char>,
    arguments: Seq<char>,
    output: Seq<char>,
    is_error: bool,
)
    requires
        w.agent.tool_start_times == v.after_event(
            EventView::ToolCallStarted { id, name, arguments },
        ).app.agent.tool_start_times,
        w.ui.clock_ms >= v.ui.clock_ms,
    ensures
        ({
            let end = w.after_event(
                EventView::ToolCallFinished { call_id: id, tool_name: name, output, is_error },
            ).app;
            &&& end.chat.tool_durations.contains_key(id)
            &&& end.chat.tool_durations[id] == w.ui.clock_ms - v.ui.clock_ms
            &&& !end.agent.tool_start_times.contains_key(id)
        }),
{
    reveal(AppView::after_call);
    reveal(AppView::after_result);
}

/// What a tool says of itself is what the agent works on.
#[verifier::rlimit(40)]
pub proof fn law_progress_is_shown(v: AppView, call_id: Seq<char>, message: Seq<char>)
    requires
        !has_prefix(message, "[stream_buf:"@),
    ensures
        ({
            let r = v.after_event(EventView::ToolProgress { call_id, message });
            &&& r.app.agent.current_tool == Some(message)
            &&& r.app.chat == v.chat
            &&& r.effects == seq![EffectView::Rerender]
        }),
{
    reveal(AppView::after_progress);
    let r = v.after_event(EventView::ToolProgress { call_id, message });
    assert(r.effects =~= seq![EffectView::Rerender]);
}

proof fn lemma_index_skips(s: Seq<char>, c: char, i: int, at: int)
    requires
        0 <= i <= at < s.len(),
        s[at] == c,
        forall|k: int| i <= k < at ==> s[k] != c,
    ensures
        index_or_len(s, c, i) == at,
    decreases at - i,
{
    if i < at {
        lemma_index_skips(s, c, i + 1, at);
    }
}

/// What a running task has put out is kept under its call, and its buffer is
/// shown with the first line of it.
#[verifier::rlimit(40)]
pub proof fn law_task_output_is_kept(
    v: AppView,
    call_id: Seq<char>,
    buffer: Seq<char>,
    content: Seq<char>,
)
    requires
        !buffer.contains(']'),
    ensures
        ({
            let message = "[stream_buf:"@ + buffer + seq![']', ' '] + content;
            let r = v.after_event(EventView::ToolProgress { call_id, message });
            &&& r.app.chat.tool_streaming_content == v.chat.tool_streaming_content.insert(
                call_id,
                content,
            )
            &&& r.app.chat.segments == v.chat.segments
            &&& r.app.agent.current_tool == Some(
                seq!['t', 'a', 's', 'k', ' ', '['] + buffer + seq![']', ' '] + if lines(
                    content,
                ).len() > 0 {
                    lines(content)[0]
                } else {
                    seq!['r', 'u', 'n', 'n', 'i', 'n', 'g']
                },
            )
        }),
{
    reveal(AppView::after_progress);
    let rest = buffer + seq![']', ' '] + content;
    let message = "[stream_buf:"@ + buffer + seq![']', ' '] + content;
    assert(message =~= "[stream_buf:"@ + rest);
    crate::text::lemma_prefix_of_concat("[stream_buf:"@, rest);
    assert(message.take("[stream_buf:"@.len() as int) =~= "[stream_buf:"@);
    assert(message.skip("[stream_buf:"@.len() as int) =~= rest);
    let b = buffer.len() as int;
    assert forall|k: int| 0 <= k < b implies rest[k] != ']' by {
        assert(rest[k] == buffer[k]);
        assert(buffer.contains(buffer[k]));
    }
    assert(rest[b] == ']' && rest[b + 1] == ' ');
    lemma_index_skips(rest, ']', 0, b);
    assert(rest.skip(b + 2) =~= content);
    assert(rest.take(b) =~= buffer);
    assert(behind_mark(rest) == content);
    reveal_strlit("task [");
    reveal_strlit("] ");
    reveal_strlit("running");
    assert("task ["@ =~= seq!['t', 'a', 's', 'k', ' ', '[']);
    assert("] "@ =~= seq![']', ' ']);
    assert("running"@ =~= seq!['r', 'u', 'n', 'n', 'i', 'n', 'g']);
}

/// At the end of a turn the agent is idle, what its tools were putting out is
/// forgotten, and the conversation is saved. Where a message waits and may go,
/// the one that waited longest is shown as the user's and sent.
#[verifier::rlimit(40)]
pub proof fn law_turn_ends(v: AppView)
    ensures
        ({
            let r = v.after_event(EventView::TurnComplete);
            let goes = v.edit.queue_index is None && !v.queue.abort_pending
                && v.queue.messages.len() > 0;
            &&& !r.app.agent.busy
            &&& r.app.agent.current_tool is None
            &&& r.app.agent.output_tokens == 0
            &&& r.app.agent.streaming_tokens == 0
            &&& r.app.chat.tool_streaming_content == Map::<Seq<char>, Seq<char>>::empty()
            &&& r.effects.contains(EffectView::SaveHistory)
            &&& goes ==> {
                &&& r.effects.last() == EffectView::Send(v.queue.messages[0])
                &&& r.app.chat.segments == v.chat.segments.push(
                    SegmentView::Message(
                        MessageView {
                            role: Role::User,
                            content: ContentView::Text(v.queue.messages[0].content),
                        },
                    ),
                )
                &&& r.app.queue.messages == v.queue.messages.subrange(
                    1,
                    v.queue.messages.len() as int,
                )
                &&& r.app.chat.auto_scroll
            }
            &&& !goes ==> {
                &&& r.app.chat.segments == v.chat.segments
                &&& r.app.queue == v.queue
            }
        }),
{
    reveal(AppView::after_turn);
    let r = v.after_event(EventView::TurnComplete);
    let k: int = if v.nvim.bridge {
        1
    } else {
        0
    };
    assert(r.effects[k] == EffectView::SaveHistory);
    if v.queue.messages.len() > 0 {
        assert(v.queue.messages.skip(1) =~= v.queue.messages.subrange(
            1,
            v.queue.messages.len() as int,
        ));
    }
}

/// After an abort what was said of the answer stays in the conversation, the
/// agent is idle, and nothing is being received. Where a message waits and may
/// go, it is sent with every message of the conversation before it.
#[verifier::rlimit(40)]
pub proof fn law_abort_keeps_what_was_said(v: AppView, partial_text: Seq<char>)
    ensures
        ({
            let r = v.after_event(EventView::Aborted { partial_text });
            let said = if partial_text.len() > 0 {
                v.chat.segments.push(
                    SegmentView::Message(
                        MessageView {
                            role: Role::Assistant,
                            content: ContentView::Text(partial_text),
                        },
                    ),
                )
            } else {
                v.chat.segments
            };
            let goes = v.edit.queue_index is None && !v.queue.abort_pending
                && v.queue.messages.len() > 0;
            &&& !r.app.agent.busy
            &&& r.app.agent.current_tool is None
            &&& r.app.chat.streaming_buffer == Seq::<char>::empty()
            &&& !r.app.chat.streaming_is_thinking
            &&& r.effects.contains(EffectView::SaveHistory)
            &&& goes ==> {
                &&& r.app.chat.segments == said.push(
                    SegmentView::Message(
                        MessageView {
                            role: Role::User,
                            content: ContentView::Text(v.queue.messages[0].content),
                        },
                    ),
                )
                &&& r.effects.last() == EffectView::Resubmit(
                    said.filter(|s: SegmentView| s is Message).map_values(
                        |s: SegmentView| s->Message_0,
                    ),
                    v.queue.messages[0],
                )
                &&& r.app.queue.messages == v.queue.messages.subrange(
                    1,
                    v.queue.messages.len() as int,
                )
            }
            &&& !goes ==> {
                &&& r.app.chat.segments == said
                &&& r.app.queue == v.queue
                &&& forall|h, m| !r.effects.contains(EffectView::Resubmit(h, m))
            }
        }),
{
    reveal(AppView::after_abort);
    let r = v.after_event(EventView::Aborted { partial_text });
    let k: int = if v.nvim.bridge {
        1
    } else {
        0
    };
    assert(r.effects[k] == EffectView::SaveHistory);
    let said = if partial_text.len() > 0 {
        v.chat.segments.push(
            SegmentView::Message(
                MessageView { role: Role::Assistant, content: ContentView::Text(partial_text) },
            ),
        )
    } else {
        v.chat.segments
    };
    law_every_message_is_sent_again(said);
    let goes = v.edit.queue_index is None && !v.queue.abort_pending && v.queue.messages.len() > 0;
    if v.queue.messages.len() > 0 {
        assert(v.queue.messages.skip(1) =~= v.queue.messages.subrange(
            1,
            v.queue.messages.len() as int,
        ));
    }
    if !goes {
        assert forall|h, m| !r.effects.contains(EffectView::Resubmit(h, m)) by {
            if r.effects.contains(EffectView::Resubmit(h, m)) {
                let i = choose|i: int|
                    0 <= i < r.effects.len() && r.effects[i] == EffectView::Resubmit(h, m);
                assert(!(r.effects[i] is Resubmit));
            }
        }
    }
}

/// An error is shown behind the conversation as it was reported, and the agent
/// becomes idle once it is shown.
#[verifier::rlimit(40)]
pub proof fn law_error_is_shown(v: AppView, message: Seq<char>)
    ensures
        ({
            let r = v.after_event(EventView::Error(message));
            &&& r.app.chat.segments == v.chat.segments.push(SegmentView::Error(message))
            &&& r.effects == seq![
                EffectView::SaveHistory,
                EffectView::Rerender,
                EffectView::BecomeIdle,
            ]
        }),
{
    reveal(AppView::after_error);
    let r = v.after_event(EventView::Error(message));
    assert(r.effects =~= seq![
        EffectView::SaveHistory,
        EffectView::Rerender,
        EffectView::BecomeIdle,
    ]);
}

/// What is noted beside the conversation is kept behind it as it was reported:
/// a compacted context, an event of collaboration, and the summary of delegated
/// work, which is folded at first.
#[verifier::rlimit(40)]
pub proof fn law_notes_are_kept(
    v: AppView,
    tokens_before: usize,
    tokens_after: usize,
    strategy: CompactionStrategyUsed,
    turn: u32,
    line: Seq<char>,
    to_name: Seq<char>,
    task_title: Seq<char>,
    duration_ms: u64,
    status: Seq<char>,
    result_preview: Seq<char>,
)
    ensures
        v.after_event(
            EventView::ContextCompacted { tokens_before, tokens_after, strategy, turn },
        ).app.chat.segments == v.chat.segments.push(
            SegmentView::ContextCompacted { tokens_before, tokens_after, strategy, turn },
        ),
        v.after_event(EventView::CollabEvent(line)).app.chat.segments == v.chat.segments.push(
            SegmentView::CollabEvent(line),
        ),
        v.after_event(EventView::CollabEvent(line)).effects == seq![
            EffectView::SaveHistory,
            EffectView::Rerender,
            EffectView::ScrollToBottom,
        ],
        v.after_event(
            EventView::DelegateSummary { to_name, task_title, duration_ms, status, result_preview },
        ).app.chat.segments == v.chat.segments.push(
            SegmentView::DelegateSummary {
                to_name,
                task_title,
                duration_ms,
                status,
                result_preview,
                expanded: false,
            },
        ),
        v.after_event(
            EventView::ContextCompacted { tokens_before, tokens_after, strategy, turn },
        ).effects == seq![EffectView::SaveHistory, EffectView::Rerender],
{
    reveal(AppView::after_note);
    assert(v.after_event(EventView::CollabEvent(line)).effects =~= seq![
        EffectView::SaveHistory,
        EffectView::Rerender,
        EffectView::ScrollToBottom,
    ]);
    assert(v.after_event(
        EventView::ContextCompacted { tokens_before, tokens_after, strategy, turn },
    ).effects =~= seq![EffectView::SaveHistory, EffectView::Rerender]);
}

/// The todo list is shown as one text of the assistant that has a line for every
/// entry.
#[verifier::rlimit(40)]
pub proof fn law_todos_are_shown(v: AppView, todos: Seq<TodoItemView>)
    ensures
        ({
            let r = v.after_event(EventView::TodoUpdate(todos));
            let new = r.app.chat.segments.last();
            &&& r.app.chat.segments == v.chat.segments.push(new)
            &&& new is Message
            &&& new->Message_0.role == Role::Assistant
            &&& new->Message_0.content == ContentView::Text(
                crate::chat::markdown::todos_markdown(todos),
            )
            &&& r.effects[0] == EffectView::SaveHistory
            &&& r.effects[1] == EffectView::Rerender
        }),
{
    reveal(AppView::after_todos);
}

/// A change of the mode on the side of the agent is the mode of the session, and
/// changes nothing else.
pub proof fn law_mode_is_followed(v: AppView, mode: AgentMode)
    ensures
        ({
            let r = v.after_event(EventView::ModeChanged(mode));
            &&& r.app.session.mode == mode
            &&& r.app.session.staged_mode == v.session.staged_mode
            &&& r.app.session.model_cfg == v.session.model_cfg
            &&& r.app.chat == v.chat
            &&& r.app.agent == v.agent
            &&& r.effects.len() == 0
        }),
        v.after_event(EventView::Other).app == v,
        v.after_event(EventView::Other).effects.len() == 0,
{
}

/// The tokens of a call: a prompt that was counted replaces the one before, with
/// its parts from the cache and beside it, and its share of what a prompt may
/// have; an answer adds to the others of the turn.
#[verifier::rlimit(40)]
pub proof fn law_usage_is_counted(
    v: AppView,
    input: u32,
    output_tokens: u32,
    cache_read: u32,
    cache_write: u32,
    max_tokens: usize,
    max_output_tokens: usize,
    share: u8,
)
    requires
        v.can_take(
            EventView::TokenUsage {
                input,
                output_tokens,
                cache_read,
                cache_write,
                max_tokens,
                max_output_tokens,
                share,
            },
        ),
    ensures
        ({
            let r = v.after_event(
                EventView::TokenUsage {
                    input,
                    output_tokens,
                    cache_read,
                    cache_write,
                    max_tokens,
                    max_output_tokens,
                    share,
                },
            );
            let a = r.app.agent;
            let total = input + cache_read + cache_write;
            &&& a.output_tokens == v.agent.output_tokens + output_tokens
            &&& output_tokens > 0 ==> a.streaming_tokens == 0
            &&& output_tokens == 0 ==> a.streaming_tokens == v.agent.streaming_tokens
            &&& a.total_output_tokens == v.agent.total_output_tokens
            &&& a.busy == v.agent.busy
            &&& a.current_tool == v.agent.current_tool
            &&& total > 0 ==> {
                &&& a.context_tokens == total
                &&& a.total_context_tokens == total
                &&& a.max_tokens == max_tokens
                &&& a.max_output_tokens == max_output_tokens
                &&& a.total_context_pct == a.context_pct
                &&& a.cache_hit_pct == cache_read * 100 / total
                &&& max_output_tokens == 0 && 0 < max_tokens <= u32::MAX && total <= max_tokens ==> {
                    a.context_pct == total * 100 / max_tokens as int
                }
                &&& max_output_tokens == 0 && 0 < max_tokens <= u32::MAX && total > max_tokens ==> {
                    a.context_pct == 100
                }
                &&& 0 < max_output_tokens < max_tokens && max_tokens - max_output_tokens
                    <= u32::MAX && total <= max_tokens - max_output_tokens ==> a.context_pct == total
                    * 100 / (max_tokens - max_output_tokens)
            }
            &&& total == 0 ==> {
                &&& a.context_tokens == v.agent.context_tokens
                &&& a.total_context_tokens == v.agent.total_context_tokens
                &&& a.context_pct == v.agent.context_pct
            }
            &&& r.app.chat == v.chat
            &&& r.effects.len() == 0
        }),
{
    reveal(AppView::after_usage);
    let total = input + cache_read + cache_write;
    if total > 0 {
        lemma_share(cache_read as int, total);
        if max_output_tokens == 0 && 0 < max_tokens <= u32::MAX {
            lemma_share(total, max_tokens as int);
        }
        if 0 < max_output_tokens < max_tokens && max_tokens - max_output_tokens <= u32::MAX {
            lemma_share(total, max_tokens - max_output_tokens);
        }
    }
}

proof fn lemma_share(part: int, whole: int)
    requires
        0 <= part,
        0 < whole,
    ensures
        part <= whole ==> 0 <= part * 100 / whole <= 100,
        part > whole ==> part * 100 / whole >= 100,
        part == 0 ==> part * 100 / whole == 0,
{
    assert(part * 100 / whole >= 0) by (nonlinear_arith)
        requires
            0 <= part,
            0 < whole,
    ;
    if part <= whole {
        assert(part * 100 / whole <= 100) by (nonlinear_arith)
            requires
                0 <= part <= whole,
                0 < whole,
        ;
    } else {
        assert(part * 100 / whole >= 100) by (nonlinear_arith)
            requires
                part > whole,
                0 < whole,
        ;
    }
    if part == 0 {
        assert(0int / whole == 0) by (nonlinear_arith)
            requires
                0 < whole,
        ;
    }
}

/// The answers of a turn are added to those of the turns before, and the next
/// turn starts at nothing.
#[verifier::rlimit(40)]
pub proof fn law_turns_add_up(v: AppView, partial_text: Seq<char>)
    requires
        v.agent.total_output_tokens + v.agent.output_tokens <= u32::MAX,
    ensures
        ({
            let a = v.after_event(EventView::TurnComplete).app.agent;
            let b = v.after_event(EventView::Aborted { partial_text }).app.agent;
            &&& a == b
            &&& a.total_output_tokens == v.agent.total_output_tokens + v.agent.output_tokens
            &&& a.total_context_tokens == v.agent.context_tokens
            &&& a.context_tokens == 0
            &&& a.output_tokens == 0
            &&& a.connected == v.agent.connected
            &&& a.tool_start_times == Map::<Seq<char>, u64>::empty()
        }),
{
    reveal(AppView::after_turn);
    reveal(AppView::after_abort);
}

} // verus!
