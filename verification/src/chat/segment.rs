//! Messages and the segments that a conversation is shown in.

use vstd::prelude::*;

use crate::text::{clone_strings, views};

verus! {

/// Who speaks in a message.
#[derive(Clone, Copy, Debug, PartialEq, Eq, Structural)]
pub enum Role {
    System,
    User,
    Assistant,
    Tool,
}

/// The call of a tool: its name and its arguments, a JSON text.
#[derive(Debug, PartialEq, Eq)]
pub struct FunctionCall {
    pub name: String,
    pub arguments: String,
}

/// What a message holds.
#[derive(Debug, PartialEq, Eq)]
pub enum MessageContent {
    Text(String),
    ToolCall { tool_call_id: String, function: FunctionCall },
    ToolResult { tool_call_id: String, content: String },
    ContentParts(Vec<String>),
}

/// One message of a conversation.
#[derive(Debug, PartialEq, Eq)]
pub struct Message {
    pub role: Role,
    pub content: MessageContent,
}

pub struct FunctionCallView {
    pub name: Seq<char>,
    pub arguments: Seq<char>,
}

pub enum ContentView {
    Text(Seq<char>),
    ToolCall { tool_call_id: Seq<char>, function: FunctionCallView },
    ToolResult { tool_call_id: Seq<char>, content: Seq<char> },
    ContentParts(Seq<Seq<char>>),
}

pub struct MessageView {
    pub role: Role,
    pub content: ContentView,
}

impl View for FunctionCall {
    type V = FunctionCallView;

    open spec fn view(&self) -> FunctionCallView {
        FunctionCallView { name: self.name@, arguments: self.arguments@ }
    }
}

impl View for MessageContent {
    type V = ContentView;

    open spec fn view(&self) -> ContentView {
        match *self {
            MessageContent::Text(t) => ContentView::Text(t@),
            MessageContent::ToolCall { tool_call_id, function } => ContentView::ToolCall {
                tool_call_id: tool_call_id@,
                function: function@,
            },
            MessageContent::ToolResult { tool_call_id, content } => ContentView::ToolResult {
                tool_call_id: tool_call_id@,
                content: content@,
            },
            MessageContent::ContentParts(parts) => ContentView::ContentParts(views(parts@)),
        }
    }
}

impl View for Message {
    type V = MessageView;

    open spec fn view(&self) -> MessageView {
        MessageView { role: self.role, content: self.content@ }
    }
}

impl Clone for FunctionCall {
    fn clone(&self) -> (r: Self)
        ensures
            r@ == self@,
    {
        FunctionCall { name: self.name.clone(), arguments: self.arguments.clone() }
    }
}

impl Clone for MessageContent {
    fn clone(&self) -> (r: Self)
        ensures
            r@ == self@,
    {
        match self {
            MessageContent::Text(t) => MessageContent::Text(t.clone()),
            MessageContent::ToolCall { tool_call_id, function } => MessageContent::ToolCall {
                tool_call_id: tool_call_id.clone(),
                function: function.clone(),
            },
            MessageContent::ToolResult { tool_call_id, content } => MessageContent::ToolResult {
                tool_call_id: tool_call_id.clone(),
                content: content.clone(),
            },
            MessageContent::ContentParts(parts) => MessageContent::ContentParts(
                clone_strings(parts),
            ),
        }
    }
}

impl Clone for Message {
    fn clone(&self) -> (r: Self)
        ensures
            r@ == self@,
    {
        Message { role: self.role, content: self.content.clone() }
    }
}

impl Message {
    /// A text message of the user.
    pub fn user(text: &str) -> (r: Message)
        ensures
            r@ == (MessageView { role: Role::User, content: ContentView::Text(text@) }),
    {
        Message { role: Role::User, content: MessageContent::Text(text.to_owned()) }
    }

    /// A text message of the assistant.
    pub fn assistant(text: &str) -> (r: Message)
        ensures
            r@ == (MessageView { role: Role::Assistant, content: ContentView::Text(text@) }),
    {
        Message { role: Role::Assistant, content: MessageContent::Text(text.to_owned()) }
    }

    /// A text message of the system.
    pub fn system(text: &str) -> (r: Message)
        ensures
            r@ == (MessageView { role: Role::System, content: ContentView::Text(text@) }),
    {
        Message { role: Role::System, content: MessageContent::Text(text.to_owned()) }
    }

    /// The text of a text message.
    pub fn as_text(&self) -> (r: Option<&str>)
        ensures
            crate::text::opt_view(r) == match self@.content {
                ContentView::Text(t) => Some(t),
                _ => None,
            },
    {
        match &self.content {
            MessageContent::Text(t) => Some(t.as_str()),
            _ => None,
        }
    }
}

impl Message {
    /// The result of a tool call.
    pub fn tool_result(tool_call_id: &str, content: &str) -> (r: Message)
        ensures
            r@ == (MessageView {
                role: Role::Tool,
                content: ContentView::ToolResult { tool_call_id: tool_call_id@, content: content@ },
            }),
    {
        Message {
            role: Role::Tool,
            content: MessageContent::ToolResult {
                tool_call_id: tool_call_id.to_owned(),
                content: content.to_owned(),
            },
        }
    }
}

// ── Segments ─────────────────────────────────────────────────────────────────

/// How a context was compacted.
#[derive(Clone, Copy, Debug, PartialEq, Eq, Structural)]
pub enum CompactionStrategyUsed {
    Structured,
    Narrative,
    Emergency,
}

/// One entry of a todo list.
#[derive(Debug, PartialEq, Eq)]
pub struct TodoItem {
    pub id: String,
    pub content: String,
    pub status: String,
}

/// One piece of the conversation as it is shown.
#[derive(Debug, PartialEq, Eq)]
pub enum ChatSegment {
    Message(Message),
    ContextCompacted {
        tokens_before: usize,
        tokens_after: usize,
        strategy: CompactionStrategyUsed,
        turn: u32,
    },
    Error(String),
    Thinking { content: String },
    TodoUpdate(Vec<TodoItem>),
    /// A collaboration event, as the line that describes it.
    CollabEvent(String),
    DelegateSummary {
        to_name: String,
        task_title: String,
        duration_ms: u64,
        status: String,
        result_preview: String,
        expanded: bool,
    },
}

pub struct TodoItemView {
    pub id: Seq<char>,
    pub content: Seq<char>,
    pub status: Seq<char>,
}

pub enum SegmentView {
    Message(MessageView),
    ContextCompacted {
        tokens_before: usize,
        tokens_after: usize,
        strategy: CompactionStrategyUsed,
        turn: u32,
    },
    Error(Seq<char>),
    Thinking { content: Seq<char> },
    TodoUpdate(Seq<TodoItemView>),
    CollabEvent(Seq<char>),
    DelegateSummary {
        to_name: Seq<char>,
        task_title: Seq<char>,
        duration_ms: u64,
        status: Seq<char>,
        result_preview: Seq<char>,
        expanded: bool,
    },
}

impl View for TodoItem {
    type V = TodoItemView;

    open spec fn view(&self) -> TodoItemView {
        TodoItemView { id: self.id@, content: self.content@, status: self.status@ }
    }
}

/// The views of a list of todo items.
pub open spec fn todo_views(v: Seq<TodoItem>) -> Seq<TodoItemView> {
    v.map_values(|t: TodoItem| t@)
}

impl View for ChatSegment {
    type V = SegmentView;

    open spec fn view(&self) -> SegmentView {
        match *self {
            ChatSegment::Message(m) => SegmentView::Message(m@),
            ChatSegment::ContextCompacted { tokens_before, tokens_after, strategy, turn } => {
                SegmentView::ContextCompacted { tokens_before, tokens_after, strategy, turn }
            },
            ChatSegment::Error(e) => SegmentView::Error(e@),
            ChatSegment::Thinking { content } => SegmentView::Thinking { content: content@ },
            ChatSegment::TodoUpdate(todos) => SegmentView::TodoUpdate(todo_views(todos@)),
            ChatSegment::CollabEvent(line) => SegmentView::CollabEvent(line@),
            ChatSegment::DelegateSummary {
                to_name,
                task_title,
                duration_ms,
                status,
                result_preview,
                expanded,
            } => SegmentView::DelegateSummary {
                to_name: to_name@,
                task_title: task_title@,
                duration_ms,
                status: status@,
                result_preview: result_preview@,
                expanded,
            },
        }
    }
}

/// The views of a list of segments.
pub open spec fn segment_views(v: Seq<ChatSegment>) -> Seq<SegmentView> {
    v.map_values(|s: ChatSegment| s@)
}

/// The views of a list of messages.
pub open spec fn message_views(v: Seq<Message>) -> Seq<MessageView> {
    v.map_values(|m: Message| m@)
}

} // verus!
