//! What the reports of the agent change.

use vstd::prelude::*;

use crate::app::agent_conn::AgentView;
use crate::app::agent_event::{AgentEvent, EventView};
use crate::app::chat_state::ChatView;
use crate::app::front::{
    add_effect, add_when, assistant_segment, effect_views, no_effects, nothing, one, user_segment,
    given, App, AppView, Effect, EffectView, StepView,
};
use crate::app::session_manager::SessionId;
use crate::app::session_state::SessionStateView;
use crate::app::session_tree::entry_views;
use crate::app::ui_state::{FocusPane, UiView};
use crate::chat::markdown::{format_todos_markdown, todos_markdown};
use crate::chat::segment::{
    ChatSegment, ContentView, FunctionCall, FunctionCallView, Message, MessageContent, MessageView,
    Role, SegmentView,
};
use crate::chat::segment_ops::{messages_for_resubmit, messages_of, push_segment};
use crate::text::{
    after_prefix, byte_length, byte_len, chars_of, lines, lines_of, put_text, string_of,
    strip_prefix, text_map, utf8_size, utf8_width, views,
};

verus! {

// ── Progress of a tool ───────────────────────────────────────────────────────

/// The index of a character, from `i` on, or the length.
pub open spec fn index_or_len(s: Seq<char>, c: char, i: int) -> int
    decreases s.len() - i,
{
    if i < 0 || i >= s.len() {
        s.len() as int
    } else if s[i] == c {
        i
    } else {
        index_or_len(s, c, i + 1)
    }
}

/// What follows the mark of a buffer: everything behind the bracket and the
/// byte behind it.
pub open spec fn behind_mark(rest: Seq<char>) -> Seq<char> {
    let b = index_or_len(rest, ']', 0);
    if b + 1 < rest.len() && utf8_width(rest[b + 1]) == 1 {
        rest.skip(b + 2)
    } else {
        seq![]
    }
}

/// How a running task is shown: its buffer and the first line of what it says.
pub open spec fn task_label(rest: Seq<char>) -> Seq<char> {
    let content = behind_mark(rest);
    "task ["@ + rest.take(index_or_len(rest, ']', 0)) + "] "@ + if lines(content).len() > 0 {
        lines(content)[0]
    } else {
        "running"@
    }
}

/// Takes the progress of a task apart: how it is shown, and what it has put out.
pub fn split_progress(rest: &str) -> (r: (String, String))
    ensures
        r.0@ == task_label(rest@),
        r.1@ == behind_mark(rest@),
{
    let chars = chars_of(rest);
    let n: usize = chars.len();
    let mut b: usize = 0;
    while b < n && chars[b] != ']'
        invariant
            n == chars@.len(),
            chars@ == rest@,
            b <= n,
            index_or_len(rest@, ']', 0) == index_or_len(rest@, ']', b as int),
        decreases n - b,
    {
        b += 1;
    }
    let handle = string_of(&chars, 0, b);
    assert(handle@ =~= rest@.take(b as int));
    let content = if n > 1 && b < n - 1 && utf8_size(chars[b + 1]) == 1 {
        let t = string_of(&chars, b + 2, n);
        assert(t@ =~= rest@.skip(b + 2));
        t
    } else {
        let t = String::new();
        assert(t@ =~= seq![]);
        t
    };
    let all = lines_of(content.as_str());
    assert(views(all@).len() == all@.len());
    let mut label = "task [".to_owned();
    label.append(handle.as_str());
    label.append("] ");
    if all.len() > 0 {
        assert(views(all@)[0] == all@[0]@);
        label.append(all[0].as_str());
    } else {
        label.append("running");
    }
    (label, content)
}

// ── The steps ────────────────────────────────────────────────────────────────

/// A tool call of the assistant as a segment.
pub open spec fn call_segment(id: Seq<char>, name: Seq<char>, arguments: Seq<char>) -> SegmentView {
    SegmentView::Message(
        MessageView {
            role: Role::Assistant,
            content: ContentView::ToolCall {
                tool_call_id: id,
                function: FunctionCallView { name, arguments },
            },
        },
    )
}

/// The result of a tool call as a segment; that of a failed one is marked.
pub open spec fn result_segment(id: Seq<char>, output: Seq<char>, is_error: bool) -> SegmentView {
    SegmentView::Message(
        MessageView {
            role: Role::Tool,
            content: ContentView::ToolResult {
                tool_call_id: id,
                content: if is_error {
                    "error: "@ + output
                } else {
                    output
                },
            },
        },
    )
}

impl AppView {
    /// Nothing is being received.
    pub open spec fn received(self) -> AppView {
        AppView {
            chat: ChatView {
                streaming_buffer: seq![],
                streaming_is_thinking: false,
                ..self.chat
            },
            ..self
        }
    }

    /// After a piece of an answer.
    #[verifier::opaque]
    pub open spec fn after_text_delta(self, delta: Seq<char>) -> StepView {
        StepView {
            app: AppView {
                chat: ChatView {
                    streaming_is_thinking: false,
                    streaming_buffer: self.chat.streaming_buffer + delta,
                    ..self.chat
                },
                agent: self.agent.after_delta(byte_len(delta) as int),
                ..self
            },
            effects: nothing() + one(EffectView::Rerender) + one(EffectView::ScrollToBottom) + given(
                self.nvim.bridge,
                EffectView::EditorToBottom,
            ) + given(self.ui.pager_open, EffectView::RefreshPager),
        }
    }

    /// After a complete answer.
    #[verifier::opaque]
    pub open spec fn after_text(self, text: Seq<char>) -> StepView {
        StepView {
            app: self.with_segment(assistant_segment(text)).received(),
            effects: nothing() + one(EffectView::SaveHistory) + one(EffectView::Rerender) + one(
                EffectView::ScrollToBottom,
            ) + given(self.nvim.bridge, EffectView::EditorToBottom) + given(
                self.ui.pager_open,
                EffectView::RefreshPager,
            ) + given(self.nvim.bridge, EffectView::EditorModifiable),
        }
    }

    /// After a tool call was started.
    #[verifier::opaque]
    pub open spec fn after_call(self, id: Seq<char>, name: Seq<char>, arguments: Seq<char>) -> StepView {
        let shown = self.with_segment(call_segment(id, name, arguments));
        StepView {
            app: AppView {
                chat: ChatView {
                    tool_args: self.chat.tool_args.insert(id, name),
                    ..shown.chat
                },
                agent: AgentView {
                    current_tool: Some(name),
                    tool_start_times: self.agent.tool_start_times.insert(id, self.ui.clock_ms),
                    ..self.agent
                },
                ..shown
            },
            effects: nothing() + one(EffectView::SaveHistory) + one(EffectView::Rerender) + one(
                EffectView::ScrollToBottom,
            ) + given(self.nvim.bridge, EffectView::EditorToBottom) + given(
                self.ui.pager_open,
                EffectView::RefreshPager,
            ),
        }
    }

    /// With the time that a call took, where its start is known.
    pub open spec fn after_call_time(self, id: Seq<char>) -> AppView {
        if self.agent.tool_start_times.contains_key(id) {
            let start = self.agent.tool_start_times[id];
            AppView {
                chat: ChatView {
                    tool_durations: self.chat.tool_durations.insert(
                        id,
                        (if self.ui.clock_ms >= start {
                            self.ui.clock_ms - start
                        } else {
                            0
                        }) as u64,
                    ),
                    ..self.chat
                },
                agent: AgentView {
                    tool_start_times: self.agent.tool_start_times.remove(id),
                    ..self.agent
                },
                ..self
            }
        } else {
            self
        }
    }

    /// After a tool call was finished.
    #[verifier::opaque]
    pub open spec fn after_result(self, id: Seq<char>, output: Seq<char>, is_error: bool) -> StepView {
        let idle = AppView { agent: AgentView { current_tool: None, ..self.agent }, ..self };
        let shown = idle.after_call_time(id).with_segment(result_segment(id, output, is_error));
        StepView {
            app: AppView { needs_terminal_recover: true, ..shown },
            effects: nothing() + one(EffectView::SaveHistory) + one(EffectView::Rerender) + one(
                EffectView::ScrollToBottom,
            ) + given(self.nvim.bridge, EffectView::EditorToBottom) + given(
                self.ui.pager_open,
                EffectView::RefreshPager,
            ),
        }
    }

    /// After a tool reported its progress.
    #[verifier::opaque]
    pub open spec fn after_progress(self, id: Seq<char>, message: Seq<char>) -> StepView {
        let app = match after_prefix(message, "[stream_buf:"@) {
            Some(rest) => AppView {
                chat: ChatView {
                    tool_streaming_content: self.chat.tool_streaming_content.insert(
                        id,
                        behind_mark(rest),
                    ),
                    ..self.chat
                },
                agent: AgentView { current_tool: Some(task_label(rest)), ..self.agent },
                ..self
            },
            None => AppView {
                agent: AgentView { current_tool: Some(message), ..self.agent },
                ..self
            },
        };
        StepView { app, effects: nothing() + one(EffectView::Rerender) }
    }

    /// A message that waits may be sent now.
    pub open spec fn may_advance(self) -> bool {
        self.edit.queue_index is None && !self.queue.abort_pending && self.queue.messages.len() > 0
    }

    /// After a turn was complete: the next message that waits is sent, unless it
    /// is being edited or the turn before was aborted.
    #[verifier::opaque]
    pub open spec fn after_turn(self) -> StepView {
        let done = AppView {
            chat: ChatView { tool_streaming_content: Map::empty(), ..self.chat },
            agent: self.agent.after_turn(),
            ..self
        };
        let before = nothing() + given(self.nvim.bridge, EffectView::EditorModifiable) + one(
            EffectView::SaveHistory,
        );
        if done.may_advance() {
            StepView {
                app: done.advanced(),
                effects: before + one(EffectView::SaveHistory) + one(EffectView::Rerender) + one(
                    EffectView::ScrollToBottom,
                ) + one(EffectView::Send(done.queue.messages[0])),
            }
        } else {
            StepView { app: done, effects: before }
        }
    }

    /// After a turn was stopped: what was said stays, and the next message is
    /// sent with the whole conversation, unless nothing is to be sent by itself.
    #[verifier::opaque]
    pub open spec fn after_abort(self, partial: Seq<char>) -> StepView {
        let cleared = self.received();
        let shown = if partial.len() > 0 {
            cleared.with_segment(assistant_segment(partial))
        } else {
            cleared
        };
        let done = AppView { agent: self.agent.after_turn(), ..shown };
        let before = nothing() + given(self.nvim.bridge, EffectView::EditorModifiable) + one(
            EffectView::SaveHistory,
        ) + one(EffectView::Rerender) + one(EffectView::ScrollToBottom) + given(
            self.ui.pager_open,
            EffectView::RefreshPager,
        );
        if done.may_advance() {
            StepView {
                app: done.advanced(),
                effects: before + one(EffectView::SaveHistory) + one(EffectView::Rerender) + one(
                    EffectView::ScrollToBottom,
                ) + one(
                    EffectView::Resubmit(
                        messages_of(done.chat.segments),
                        done.queue.messages[0],
                    ),
                ),
            }
        } else {
            StepView { app: done, effects: before }
        }
    }

    /// After a note for the conversation, which may be scrolled to.
    #[verifier::opaque]
    pub open spec fn after_note(self, seg: SegmentView, scroll: bool) -> StepView {
        StepView {
            app: self.with_segment(seg),
            effects: nothing() + one(EffectView::SaveHistory) + one(EffectView::Rerender) + given(
                scroll,
                EffectView::ScrollToBottom,
            ),
        }
    }

    /// After the tokens of a call were reported.
    #[verifier::opaque]
    pub open spec fn after_usage(
        self,
        input: u32,
        output: u32,
        cache_read: u32,
        cache_write: u32,
        max_tokens: usize,
        max_output_tokens: usize,
    ) -> StepView {
        StepView {
            app: AppView {
                agent: self.agent.after_usage(
                    input,
                    output,
                    cache_read,
                    cache_write,
                    max_tokens,
                    max_output_tokens,
                ),
                ..self
            },
            effects: nothing(),
        }
    }

    /// After an error: the agent becomes idle once it is shown.
    #[verifier::opaque]
    pub open spec fn after_error(self, message: Seq<char>) -> StepView {
        StepView {
            app: self.with_segment(SegmentView::Error(message)),
            effects: nothing() + one(EffectView::SaveHistory) + one(EffectView::Rerender) + one(
                EffectView::BecomeIdle,
            ),
        }
    }

    /// After the todo list changed: it is shown as the assistant's.
    #[verifier::opaque]
    pub open spec fn after_todos(self, text: Seq<char>) -> StepView {
        StepView {
            app: self.with_segment(assistant_segment(text)),
            effects: nothing() + one(EffectView::SaveHistory) + one(EffectView::Rerender) + given(
                self.nvim.bridge,
                EffectView::EditorTodos,
            ),
        }
    }

    /// After a piece of a thought.
    #[verifier::opaque]
    pub open spec fn after_thought_delta(self, delta: Seq<char>) -> StepView {
        StepView {
            app: AppView {
                chat: ChatView {
                    streaming_is_thinking: true,
                    streaming_buffer: self.chat.streaming_buffer + delta,
                    ..self.chat
                },
                agent: self.agent.spun(),
                ..self
            },
            effects: nothing() + one(EffectView::Rerender) + one(EffectView::ScrollToBottom),
        }
    }

    /// After a complete thought.
    #[verifier::opaque]
    pub open spec fn after_thought(self, content: Seq<char>) -> StepView {
        StepView {
            app: self.received().with_segment(SegmentView::Thinking { content }),
            effects: nothing() + one(EffectView::SaveHistory) + one(EffectView::Rerender) + one(
                EffectView::ScrollToBottom,
            ) + given(self.nvim.bridge, EffectView::EditorToBottom),
        }
    }

    /// After a report of the agent.
    pub open spec fn after_event(self, event: EventView) -> StepView {
        match event {
            EventView::TextDelta(delta) => self.after_text_delta(delta),
            EventView::TextComplete(text) => self.after_text(text),
            EventView::ToolCallStarted { id, name, arguments } => self.after_call(
                id,
                name,
                arguments,
            ),
            EventView::ToolCallFinished { call_id, output, is_error, .. } => self.after_result(
                call_id,
                output,
                is_error,
            ),
            EventView::ToolProgress { call_id, message } => self.after_progress(call_id, message),
            EventView::ContextCompacted { tokens_before, tokens_after, strategy, turn } => {
                self.after_note(
                    SegmentView::ContextCompacted { tokens_before, tokens_after, strategy, turn },
                    false,
                )
            },
            EventView::TokenUsage {
                input,
                output_tokens,
                cache_read,
                cache_write,
                max_tokens,
                max_output_tokens,
                ..
            } => self.after_usage(
                input,
                output_tokens,
                cache_read,
                cache_write,
                max_tokens,
                max_output_tokens,
            ),
            EventView::TurnComplete => self.after_turn(),
            EventView::Aborted { partial_text } => self.after_abort(partial_text),
            EventView::Error(message) => self.after_error(message),
            EventView::TodoUpdate(todos) => self.after_todos(todos_markdown(todos)),
            EventView::ThinkingDelta(delta) => self.after_thought_delta(delta),
            EventView::ThinkingComplete(content) => self.after_thought(content),
            EventView::ModeChanged(mode) => StepView {
                app: AppView { session: SessionStateView { mode, ..self.session }, ..self },
                effects: nothing(),
            },
            EventView::CollabEvent(line) => self.after_note(SegmentView::CollabEvent(line), true),
            EventView::DelegateSummary {
                to_name,
                task_title,
                duration_ms,
                status,
                result_preview,
            } => self.after_note(
                SegmentView::DelegateSummary {
                    to_name,
                    task_title,
                    duration_ms,
                    status,
                    result_preview,
                    expanded: false,
                },
                true,
            ),
            EventView::Other => StepView { app: self, effects: nothing() },
        }
    }

    /// A report can be taken in: its tokens can be counted.
    pub open spec fn can_take(self, event: EventView) -> bool {
        match event {
            EventView::TokenUsage {
                input,
                output_tokens,
                cache_read,
                cache_write,
                max_tokens,
                max_output_tokens,
                ..
            } => self.agent.can_count(
                input,
                output_tokens,
                cache_read,
                cache_write,
                max_tokens,
                max_output_tokens,
            ),
            EventView::TurnComplete => self.agent.total_output_tokens + self.agent.output_tokens
                <= u32::MAX,
            EventView::Aborted { .. } => self.agent.total_output_tokens + self.agent.output_tokens
                <= u32::MAX,
            _ => true,
        }
    }
}

impl App {
    fn take_text_delta(&mut self, delta: &str) -> (r: Vec<Effect>)
        ensures
            final(self)@ == old(self)@.after_text_delta(delta@).app,
            effect_views(r@) == old(self)@.after_text_delta(delta@).effects,
    {
        reveal(AppView::after_text_delta);
        self.chat.streaming_is_thinking = false;
        self.agent.count_delta(byte_length(delta));
        self.chat.streaming_buffer.append(delta);
        let mut out = no_effects();
        add_effect(&mut out, Effect::Rerender);
        add_effect(&mut out, Effect::ScrollToBottom);
        add_when(&mut out, self.nvim.bridge, Effect::EditorToBottom);
        add_when(&mut out, self.ui.pager_open, Effect::RefreshPager);
        out
    }

    fn clear_received(&mut self)
        ensures
            final(self)@ == old(self)@.received(),
    {
        self.chat.streaming_buffer = String::new();
        self.chat.streaming_is_thinking = false;
        assert(self.chat.streaming_buffer@ =~= seq![]);
    }

    fn push(&mut self, seg: ChatSegment)
        ensures
            final(self)@ == old(self)@.with_segment(seg@),
    {
        push_segment(&mut self.chat.segments, seg);
    }

    fn take_text(&mut self, text: &str) -> (r: Vec<Effect>)
        ensures
            final(self)@ == old(self)@.after_text(text@).app,
            effect_views(r@) == old(self)@.after_text(text@).effects,
    {
        reveal(AppView::after_text);
        self.push(ChatSegment::Message(Message::assistant(text)));
        self.clear_received();
        let mut out = no_effects();
        add_effect(&mut out, Effect::SaveHistory);
        add_effect(&mut out, Effect::Rerender);
        add_effect(&mut out, Effect::ScrollToBottom);
        add_when(&mut out, self.nvim.bridge, Effect::EditorToBottom);
        add_when(&mut out, self.ui.pager_open, Effect::RefreshPager);
        add_when(&mut out, self.nvim.bridge, Effect::EditorModifiable);
        out
    }

    fn take_call(&mut self, id: &str, name: &str, arguments: &str) -> (r: Vec<Effect>)
        ensures
            final(self)@ == old(self)@.after_call(id@, name@, arguments@).app,
            effect_views(r@) == old(self)@.after_call(id@, name@, arguments@).effects,
    {
        reveal(AppView::after_call);
        put_text(&mut self.chat.tool_args, id, name);
        self.agent.current_tool = Some(name.to_owned());
        self.agent.tool_start_times.insert(id.to_owned(), self.ui.clock_ms);
        self.push(
            ChatSegment::Message(
                Message {
                    role: Role::Assistant,
                    content: MessageContent::ToolCall {
                        tool_call_id: id.to_owned(),
                        function: FunctionCall {
                            name: name.to_owned(),
                            arguments: arguments.to_owned(),
                        },
                    },
                },
            ),
        );
        let mut out = no_effects();
        add_effect(&mut out, Effect::SaveHistory);
        add_effect(&mut out, Effect::Rerender);
        add_effect(&mut out, Effect::ScrollToBottom);
        add_when(&mut out, self.nvim.bridge, Effect::EditorToBottom);
        add_when(&mut out, self.ui.pager_open, Effect::RefreshPager);
        out
    }

    /// Notes how long a call took, where its start is known.
    fn stop_clock(&mut self, id: &str)
        ensures
            final(self)@ == old(self)@.after_call_time(id@),
    {
        let started: Option<u64> = match self.agent.tool_start_times.get(id) {
            Some(t) => Some(*t),
            None => None,
        };
        if let Some(start) = started {
            self.agent.tool_start_times.remove(id);
            let elapsed: u64 = self.ui.clock_ms.saturating_sub(start);
            self.chat.tool_durations.insert(id.to_owned(), elapsed);
        }
    }

    fn take_result(&mut self, id: &str, output: &str, is_error: bool) -> (r: Vec<Effect>)
        ensures
            final(self)@ == old(self)@.after_result(id@, output@, is_error).app,
            effect_views(r@) == old(self)@.after_result(id@, output@, is_error).effects,
    {
        reveal(AppView::after_result);
        self.agent.current_tool = None;
        self.stop_clock(id);
        let mut text = String::new();
        if is_error {
            text.append("error: ");
        }
        text.append(output);
        assert(text@ =~= if is_error {
            "error: "@ + output@
        } else {
            output@
        });
        self.push(ChatSegment::Message(Message::tool_result(id, text.as_str())));
        self.needs_terminal_recover = true;
        let mut out = no_effects();
        add_effect(&mut out, Effect::SaveHistory);
        add_effect(&mut out, Effect::Rerender);
        add_effect(&mut out, Effect::ScrollToBottom);
        add_when(&mut out, self.nvim.bridge, Effect::EditorToBottom);
        add_when(&mut out, self.ui.pager_open, Effect::RefreshPager);
        out
    }

    fn take_progress(&mut self, id: &str, message: &str) -> (r: Vec<Effect>)
        ensures
            final(self)@ == old(self)@.after_progress(id@, message@).app,
            effect_views(r@) == old(self)@.after_progress(id@, message@).effects,
    {
        reveal(AppView::after_progress);
        match strip_prefix(message, "[stream_buf:") {
            Some(rest) => {
                let (label, content) = split_progress(rest);
                put_text(&mut self.chat.tool_streaming_content, id, content.as_str());
                self.agent.current_tool = Some(label);
            },
            None => {
                self.agent.current_tool = Some(message.to_owned());
            },
        }
        let mut out = no_effects();
        add_effect(&mut out, Effect::Rerender);
        out
    }

    fn take_turn_end(&mut self) -> (r: Vec<Effect>)
        requires
            old(self)@.can_take(EventView::TurnComplete),
        ensures
            final(self)@ == old(self)@.after_turn().app,
            effect_views(r@) == old(self)@.after_turn().effects,
    {
        reveal(AppView::after_turn);
        self.agent.end_turn();
        self.chat.tool_streaming_content.clear();
        assert(text_map(self.chat.tool_streaming_content@) =~= Map::empty());
        let mut out = no_effects();
        add_when(&mut out, self.nvim.bridge, Effect::EditorModifiable);
        add_effect(&mut out, Effect::SaveHistory);
        assert(self@.queue.messages.len() == self.queue.messages@.len());
        if self.edit.queue_index.is_none() && !self.queue.abort_pending
            && self.queue.messages.len() > 0 {
            let next = self.advance_queue();
            add_effect(&mut out, Effect::SaveHistory);
            add_effect(&mut out, Effect::Rerender);
            add_effect(&mut out, Effect::ScrollToBottom);
            add_effect(&mut out, Effect::Send(next));
        }
        out
    }

    fn take_abort(&mut self, partial: &str) -> (r: Vec<Effect>)
        requires
            old(self)@.can_take(EventView::Aborted { partial_text: partial@ }),
        ensures
            final(self)@ == old(self)@.after_abort(partial@).app,
            effect_views(r@) == old(self)@.after_abort(partial@).effects,
    {
        reveal(AppView::after_abort);
        self.clear_received();
        if !partial.is_empty() {
            self.push(ChatSegment::Message(Message::assistant(partial)));
        }
        self.agent.end_turn();
        let mut out = no_effects();
        add_when(&mut out, self.nvim.bridge, Effect::EditorModifiable);
        add_effect(&mut out, Effect::SaveHistory);
        add_effect(&mut out, Effect::Rerender);
        add_effect(&mut out, Effect::ScrollToBottom);
        add_when(&mut out, self.ui.pager_open, Effect::RefreshPager);
        assert(self@.queue.messages.len() == self.queue.messages@.len());
        if self.edit.queue_index.is_none() && !self.queue.abort_pending
            && self.queue.messages.len() > 0 {
            let history = messages_for_resubmit(&self.chat.segments);
            let next = self.advance_queue();
            add_effect(&mut out, Effect::SaveHistory);
            add_effect(&mut out, Effect::Rerender);
            add_effect(&mut out, Effect::ScrollToBottom);
            add_effect(&mut out, Effect::Resubmit(history, next));
        }
        out
    }

    fn take_note(&mut self, seg: ChatSegment, scroll: bool) -> (r: Vec<Effect>)
        ensures
            final(self)@ == old(self)@.after_note(seg@, scroll).app,
            effect_views(r@) == old(self)@.after_note(seg@, scroll).effects,
    {
        reveal(AppView::after_note);
        self.push(seg);
        let mut out = no_effects();
        add_effect(&mut out, Effect::SaveHistory);
        add_effect(&mut out, Effect::Rerender);
        add_when(&mut out, scroll, Effect::ScrollToBottom);
        out
    }

    fn take_error(&mut self, message: String) -> (r: Vec<Effect>)
        ensures
            final(self)@ == old(self)@.after_error(message@).app,
            effect_views(r@) == old(self)@.after_error(message@).effects,
    {
        reveal(AppView::after_error);
        self.push(ChatSegment::Error(message));
        let mut out = no_effects();
        add_effect(&mut out, Effect::SaveHistory);
        add_effect(&mut out, Effect::Rerender);
        add_effect(&mut out, Effect::BecomeIdle);
        out
    }

    fn take_todos(&mut self, text: &str) -> (r: Vec<Effect>)
        ensures
            final(self)@ == old(self)@.after_todos(text@).app,
            effect_views(r@) == old(self)@.after_todos(text@).effects,
    {
        reveal(AppView::after_todos);
        self.push(ChatSegment::Message(Message::assistant(text)));
        let mut out = no_effects();
        add_effect(&mut out, Effect::SaveHistory);
        add_effect(&mut out, Effect::Rerender);
        add_when(&mut out, self.nvim.bridge, Effect::EditorTodos);
        out
    }

    fn take_thought_delta(&mut self, delta: &str) -> (r: Vec<Effect>)
        ensures
            final(self)@ == old(self)@.after_thought_delta(delta@).app,
            effect_views(r@) == old(self)@.after_thought_delta(delta@).effects,
    {
        reveal(AppView::after_thought_delta);
        self.chat.streaming_is_thinking = true;
        self.agent.spin();
        self.chat.streaming_buffer.append(delta);
        let mut out = no_effects();
        add_effect(&mut out, Effect::Rerender);
        add_effect(&mut out, Effect::ScrollToBottom);
        out
    }

    fn take_thought(&mut self, content: String) -> (r: Vec<Effect>)
        ensures
            final(self)@ == old(self)@.after_thought(content@).app,
            effect_views(r@) == old(self)@.after_thought(content@).effects,
    {
        reveal(AppView::after_thought);
        self.clear_received();
        self.push(ChatSegment::Thinking { content });
        let mut out = no_effects();
        add_effect(&mut out, Effect::SaveHistory);
        add_effect(&mut out, Effect::Rerender);
        add_effect(&mut out, Effect::ScrollToBottom);
        add_when(&mut out, self.nvim.bridge, Effect::EditorToBottom);
        out
    }

    /// Takes in a report of the agent of the active session.
    pub fn handle_agent_event(&mut self, event: AgentEvent) -> (r: Vec<Effect>)
        requires
            old(self)@.can_take(event@),
        ensures
            final(self)@ == old(self)@.after_event(event@).app,
            effect_views(r@) == old(self)@.after_event(event@).effects,
    {
        match event {
            AgentEvent::TextDelta(delta) => self.take_text_delta(delta.as_str()),
            AgentEvent::TextComplete(text) => self.take_text(text.as_str()),
            AgentEvent::ToolCallStarted { id, name, arguments } => self.take_call(
                id.as_str(),
                name.as_str(),
                arguments.as_str(),
            ),
            AgentEvent::ToolCallFinished { call_id, tool_name: _, output, is_error } => {
                self.take_result(call_id.as_str(), output.as_str(), is_error)
            },
            AgentEvent::ToolProgress { call_id, message } => self.take_progress(
                call_id.as_str(),
                message.as_str(),
            ),
            AgentEvent::ContextCompacted { tokens_before, tokens_after, strategy, turn } => {
                self.take_note(
                    ChatSegment::ContextCompacted { tokens_before, tokens_after, strategy, turn },
                    false,
                )
            },
            AgentEvent::TokenUsage {
                input,
                output_tokens,
                cache_read,
                cache_write,
                max_tokens,
                max_output_tokens,
                share: _,
            } => {
                reveal(AppView::after_usage);
                self.agent.count_usage(
                    input,
                    output_tokens,
                    cache_read,
                    cache_write,
                    max_tokens,
                    max_output_tokens,
                );
                no_effects()
            },
            AgentEvent::TurnComplete => self.take_turn_end(),
            AgentEvent::Aborted { partial_text } => self.take_abort(partial_text.as_str()),
            AgentEvent::Error(message) => self.take_error(message),
            AgentEvent::TodoUpdate(todos) => {
                let text = format_todos_markdown(&todos);
                self.take_todos(text.as_str())
            },
            AgentEvent::ThinkingDelta(delta) => self.take_thought_delta(delta.as_str()),
            AgentEvent::ThinkingComplete(content) => self.take_thought(content),
            AgentEvent::ModeChanged(mode) => {
                self.session.mode = mode;
                no_effects()
            },
            AgentEvent::CollabEvent(line) => self.take_note(ChatSegment::CollabEvent(line), true),
            AgentEvent::DelegateSummary {
                to_name,
                task_title,
                duration_ms,
                status,
                result_preview,
            } => self.take_note(
                ChatSegment::DelegateSummary {
                    to_name,
                    task_title,
                    duration_ms,
                    status,
                    result_preview,
                    expanded: false,
                },
                true,
            ),
            AgentEvent::Other => no_effects(),
        }
    }

    /// Takes in a report of the agent of some session: the active one takes part
    /// in it, one in the background remembers what it needs.
    pub fn handle_session_event(&mut self, id: SessionId, event: AgentEvent, now: i64) -> (r: Vec<
        Effect,
    >)
        requires
            id == old(self).sessions.active_id ==> old(self)@.can_take(event@),
        ensures
            id == old(self)@.sessions.active_id ==> {
                &&& final(self)@ == old(self)@.after_event(event@).app
                &&& effect_views(r@) == old(self)@.after_event(event@).effects
            },
            id != old(self)@.sessions.active_id ==> {
                &&& effect_views(r@) == nothing()
                &&& final(self)@ == (AppView {
                    sessions: if old(self)@.sessions.has(id) {
                        old(self)@.sessions.with(
                            old(self)@.sessions.entry(id).after_event(event@, now),
                        )
                    } else {
                        old(self)@.sessions
                    },
                    ..old(self)@
                })
            },
            final(self)@ == old(self)@.after_session_event(id, event@, now).app,
            effect_views(r@) == old(self)@.after_session_event(id, event@, now).effects,
    {
        if id == self.sessions.active_id {
            return self.handle_agent_event(event);
        }
        if let Some(i) = self.sessions.find(id) {
            let ghost before = self.sessions.entries@;
            assert(entry_views(before)[i as int] == before[i as int]@);
            self.sessions.entries[i].apply_background_event(&event, now);
            assert(entry_views(self.sessions.entries@) =~= entry_views(before).update(
                i as int,
                before[i as int]@.after_event(event@, now),
            ));
        }
        no_effects()
    }

    /// A question of the agent was opened.
    pub fn handle_question_request(&mut self)
        ensures
            final(self)@ == (AppView {
                ui: UiView { question_open: true, focus: FocusPane::Input, ..old(self)@.ui },
                ..old(self)@
            }),
            final(self)@ == old(self)@.asked(),
    {
        self.ui.question_open = true;
        self.ui.focus = FocusPane::Input;
    }
}

impl AppView {
    /// After a report of the agent of some session.
    pub open spec fn after_session_event(self, id: SessionId, event: EventView, now: i64) -> StepView {
        if id == self.sessions.active_id {
            self.after_event(event)
        } else {
            StepView {
                app: AppView {
                    sessions: if self.sessions.has(id) {
                        self.sessions.with(self.sessions.entry(id).after_event(event, now))
                    } else {
                        self.sessions
                    },
                    ..self
                },
                effects: nothing(),
            }
        }
    }

    /// With a question of the agent open, and the keyboard with it.
    pub open spec fn asked(self) -> AppView {
        AppView { ui: UiView { question_open: true, focus: FocusPane::Input, ..self.ui }, ..self }
    }
}

// ── Laws ─────────────────────────────────────────────────────────────────────

/// Nothing that was said is lost: no report takes a segment away or changes one.
pub proof fn law_reports_keep_the_conversation(v: AppView, event: EventView)
    ensures
        v.chat.segments.len() <= v.after_event(event).app.chat.segments.len(),
        v.after_event(event).app.chat.segments.take(v.chat.segments.len() as int)
            == v.chat.segments,
{
    reveal(AppView::after_text_delta);
    reveal(AppView::after_text);
    reveal(AppView::after_call);
    reveal(AppView::after_result);
    reveal(AppView::after_progress);
    reveal(AppView::after_turn);
    reveal(AppView::after_abort);
    reveal(AppView::after_note);
    reveal(AppView::after_usage);
    reveal(AppView::after_error);
    reveal(AppView::after_todos);
    reveal(AppView::after_thought_delta);
    reveal(AppView::after_thought);
    let after = v.after_event(event).app.chat.segments;
    assert(after.take(v.chat.segments.len() as int) =~= v.chat.segments);
}

/// At the end of a turn no message is sent while one of the queue is being
/// edited or after the turn was aborted, and none leaves the queue.
pub proof fn law_edited_queue_waits(v: AppView)
    requires
        v.edit.queue_index is Some || v.queue.abort_pending,
    ensures
        v.after_turn().app.queue == v.queue,
        forall|m| !v.after_turn().effects.contains(EffectView::Send(m)),
{
    reveal(AppView::after_turn);
    let e = v.after_turn().effects;
    assert forall|m| !e.contains(EffectView::Send(m)) by {
        if e.contains(EffectView::Send(m)) {
            let i = choose|i: int| 0 <= i < e.len() && e[i] == EffectView::Send(m);
            assert(e[i] == EffectView::SaveHistory || e[i] == EffectView::EditorModifiable);
        }
    }
}

/// At the end of a turn the message that waited longest is shown as the user's
/// and sent.
pub proof fn law_next_message_is_sent(v: AppView)
    requires
        v.may_advance(),
    ensures
        v.after_turn().effects.last() == EffectView::Send(v.queue.messages[0]),
        v.after_turn().app.chat.segments.last() == user_segment(v.queue.messages[0].content),
        v.after_turn().app.queue.messages == v.queue.messages.skip(1),
        !v.after_turn().app.agent.busy,
{
    reveal(AppView::after_turn);
}

/// A report leaves the input and the sessions alone, and takes at most the first
/// message out of the queue.
pub proof fn lemma_reports_leave_the_input(v: AppView, event: EventView)
    ensures
        ({
            let after = v.after_event(event).app;
            &&& after.sessions == v.sessions
            &&& after.input == v.input
            &&& after.edit == v.edit
            &&& after.ui.completion == v.ui.completion
            &&& after.queue == v.queue || (v.queue.messages.len() > 0 && after.queue
                == v.queue.advanced())
        }),
{
    match event {
        EventView::TextDelta(_) => {
            reveal(AppView::after_text_delta);
        },
        EventView::TextComplete(_) => {
            reveal(AppView::after_text);
        },
        EventView::ToolCallStarted { .. } => {
            reveal(AppView::after_call);
        },
        EventView::ToolCallFinished { .. } => {
            reveal(AppView::after_result);
        },
        EventView::ToolProgress { .. } => {
            reveal(AppView::after_progress);
        },
        EventView::ContextCompacted { .. } => {
            reveal(AppView::after_note);
        },
        EventView::TokenUsage { .. } => {
            reveal(AppView::after_usage);
        },
        EventView::TurnComplete => {
            reveal(AppView::after_turn);
        },
        EventView::Aborted { .. } => {
            reveal(AppView::after_abort);
        },
        EventView::Error(_) => {
            reveal(AppView::after_error);
        },
        EventView::TodoUpdate(_) => {
            reveal(AppView::after_todos);
        },
        EventView::ThinkingDelta(_) => {
            reveal(AppView::after_thought_delta);
        },
        EventView::ThinkingComplete(_) => {
            reveal(AppView::after_thought);
        },
        EventView::CollabEvent(_) => {
            reveal(AppView::after_note);
        },
        EventView::DelegateSummary { .. } => {
            reveal(AppView::after_note);
        },
        _ => {},
    }
}

proof fn lemma_in_order(a: AppView, b: AppView)
    requires
        a.wf(),
        b.input == a.input,
        b.edit == a.edit,
        b.ui.completion == a.ui.completion,
        b.queue.selection_ok(),
    ensures
        b.wf(),
{
}

/// A report that has been taken in leaves the state in order.
pub proof fn law_reports_keep_order(v: AppView, event: EventView)
    requires
        v.wf(),
    ensures
        v.after_event(event).app.wf(),
{
    let after = v.after_event(event).app;
    assert(after.input == v.input && after.edit == v.edit && after.ui.completion
        == v.ui.completion && after.queue.selection_ok()) by {
        lemma_reports_leave_the_input(v, event);
    }
    lemma_in_order(v, after);
}

} // verus!
