//! What the agent reports.

use vstd::prelude::*;

use crate::chat::segment::{todo_views, CompactionStrategyUsed, TodoItem, TodoItemView};
use crate::commands::AgentMode;

verus! {

/// A report of the agent.
#[derive(Debug)]
pub enum AgentEvent {
    /// A piece of an answer.
    TextDelta(String),
    /// A complete answer.
    TextComplete(String),
    /// A piece of a thought.
    ThinkingDelta(String),
    /// A complete thought.
    ThinkingComplete(String),
    ToolCallStarted { id: String, name: String, arguments: String },
    ToolCallFinished { call_id: String, tool_name: String, output: String, is_error: bool },
    ToolProgress { call_id: String, message: String },
    ContextCompacted {
        tokens_before: usize,
        tokens_after: usize,
        strategy: CompactionStrategyUsed,
        turn: u32,
    },
    /// The tokens of a call. `share` is how much of the input budget the prompt
    /// takes up, in percent.
    TokenUsage {
        input: u32,
        output_tokens: u32,
        cache_read: u32,
        cache_write: u32,
        max_tokens: usize,
        max_output_tokens: usize,
        share: u8,
    },
    TurnComplete,
    Aborted { partial_text: String },
    Error(String),
    TodoUpdate(Vec<TodoItem>),
    ModeChanged(AgentMode),
    CollabEvent(String),
    DelegateSummary {
        to_name: String,
        task_title: String,
        duration_ms: u64,
        status: String,
        result_preview: String,
    },
    /// A report that changes nothing here.
    Other,
}

pub enum EventView {
    TextDelta(Seq<char>),
    TextComplete(Seq<char>),
    ThinkingDelta(Seq<char>),
    ThinkingComplete(Seq<char>),
    ToolCallStarted { id: Seq<char>, name: Seq<char>, arguments: Seq<char> },
    ToolCallFinished {
        call_id: Seq<char>,
        tool_name: Seq<char>,
        output: Seq<char>,
        is_error: bool,
    },
    ToolProgress { call_id: Seq<char>, message: Seq<char> },
    ContextCompacted {
        tokens_before: usize,
        tokens_after: usize,
        strategy: CompactionStrategyUsed,
        turn: u32,
    },
    TokenUsage {
        input: u32,
        output_tokens: u32,
        cache_read: u32,
        cache_write: u32,
        max_tokens: usize,
        max_output_tokens: usize,
        share: u8,
    },
    TurnComplete,
    Aborted { partial_text: Seq<char> },
    Error(Seq<char>),
    TodoUpdate(Seq<TodoItemView>),
    ModeChanged(AgentMode),
    CollabEvent(Seq<char>),
    DelegateSummary {
        to_name: Seq<char>,
        task_title: Seq<char>,
        duration_ms: u64,
        status: Seq<char>,
        result_preview: Seq<char>,
    },
    Other,
}

impl View for AgentEvent {
    type V = EventView;

    open spec fn view(&self) -> EventView {
        match *self {
            AgentEvent::TextDelta(t) => EventView::TextDelta(t@),
            AgentEvent::TextComplete(t) => EventView::TextComplete(t@),
            AgentEvent::ThinkingDelta(t) => EventView::ThinkingDelta(t@),
            AgentEvent::ThinkingComplete(t) => EventView::ThinkingComplete(t@),
            AgentEvent::ToolCallStarted { id, name, arguments } => EventView::ToolCallStarted {
                id: id@,
                name: name@,
                arguments: arguments@,
            },
            AgentEvent::ToolCallFinished { call_id, tool_name, output, is_error } => {
                EventView::ToolCallFinished {
                    call_id: call_id@,
                    tool_name: tool_name@,
                    output: output@,
                    is_error,
                }
            },
            AgentEvent::ToolProgress { call_id, message } => EventView::ToolProgress {
                call_id: call_id@,
                message: message@,
            },
            AgentEvent::ContextCompacted { tokens_before, tokens_after, strategy, turn } => {
                EventView::ContextCompacted { tokens_before, tokens_after, strategy, turn }
            },
            AgentEvent::TokenUsage {
                input,
                output_tokens,
                cache_read,
                cache_write,
                max_tokens,
                max_output_tokens,
                share,
            } => EventView::TokenUsage {
                input,
                output_tokens,
                cache_read,
                cache_write,
                max_tokens,
                max_output_tokens,
                share,
            },
            AgentEvent::TurnComplete => EventView::TurnComplete,
            AgentEvent::Aborted { partial_text } => EventView::Aborted {
                partial_text: partial_text@,
            },
            AgentEvent::Error(m) => EventView::Error(m@),
            AgentEvent::TodoUpdate(todos) => EventView::TodoUpdate(todo_views(todos@)),
            AgentEvent::ModeChanged(m) => EventView::ModeChanged(m),
            AgentEvent::CollabEvent(line) => EventView::CollabEvent(line@),
            AgentEvent::DelegateSummary {
                to_name,
                task_title,
                duration_ms,
                status,
                result_preview,
            } => EventView::DelegateSummary {
                to_name: to_name@,
                task_title: task_title@,
                duration_ms,
                status: status@,
                result_preview: result_preview@,
            },
            AgentEvent::Other => EventView::Other,
        }
    }
}

} // verus!
