//! All chat sessions: the active one, whose state is live, and those in the
//! background, whose state is kept here. The list beside the chat is a tree of
//! two levels: sessions, and the tasks of subagents below them.

use vstd::prelude::*;

use crate::app::agent_event::{AgentEvent, EventView};
use crate::app::chat_state::{ChatState, ChatView};
use crate::app::input_state::{attachment_views, AttachmentView, InputAttachment};
use crate::app::queue_state::{QueueState, QueueView};
use crate::app::session_state::{SessionState, SessionStateView};
use crate::chat::history::{conversation_records, record_views, records_of, ConversationRecord};
use crate::chat::segment::{ChatSegment, ContentView, Message, MessageView, Role, SegmentView};
use crate::chat::segment_ops::push_segment;
use crate::commands::completion::opt_string_view;
use crate::text::str_eq;

verus! {

/// What a session is known by.
#[derive(Clone, Copy, Debug, PartialEq, Eq, Hash, Structural)]
pub struct SessionId(pub u128);

/// Where a chat stands.
#[derive(Clone, Copy, Debug, PartialEq, Eq, Structural)]
pub enum ChatStatus {
    Active,
    Completed,
    Archived,
}

// ── One session ──────────────────────────────────────────────────────────────

/// A chat session. While it is the active one its chat, input and queue live
/// elsewhere; in the background they are kept here.
pub struct SessionEntry {
    pub id: SessionId,
    /// The session that a subagent works for.
    pub parent_id: Option<SessionId>,
    pub title: String,
    pub status: ChatStatus,
    /// The file behind the session.
    pub yaml_path: Option<String>,
    /// When it was created, in seconds.
    pub created_at: i64,
    /// When it was last changed, in seconds.
    pub updated_at: i64,
    pub stored_chat: Option<ChatState>,
    pub stored_input_buffer: Option<String>,
    pub stored_input_cursor: Option<usize>,
    pub stored_input_attachments: Option<Vec<InputAttachment>>,
    pub stored_queue: Option<QueueState>,
    pub session_state: Option<SessionState>,
    pub jsonl_path: Option<String>,
    /// The buffer that a subagent writes to.
    pub buffer_handle: Option<String>,
    /// What a subagent was asked.
    pub initial_prompt: Option<String>,
    /// An agent runs for the session.
    pub has_agent: bool,
    pub busy: bool,
    pub current_tool: Option<String>,
    pub context_pct: u8,
    pub total_context_tokens: u32,
    pub total_context_pct: u8,
    pub total_output_tokens: u32,
    pub cache_hit_pct: u8,
}

pub struct EntryView {
    pub id: SessionId,
    pub parent_id: Option<SessionId>,
    pub title: Seq<char>,
    pub status: ChatStatus,
    pub yaml_path: Option<Seq<char>>,
    pub created_at: i64,
    pub updated_at: i64,
    pub stored_chat: Option<ChatView>,
    pub stored_input_buffer: Option<Seq<char>>,
    pub stored_input_cursor: Option<usize>,
    pub stored_input_attachments: Option<Seq<AttachmentView>>,
    pub stored_queue: Option<QueueView>,
    pub session_state: Option<SessionStateView>,
    pub jsonl_path: Option<Seq<char>>,
    pub buffer_handle: Option<Seq<char>>,
    pub initial_prompt: Option<Seq<char>>,
    pub has_agent: bool,
    pub busy: bool,
    pub current_tool: Option<Seq<char>>,
    pub context_pct: u8,
    pub total_context_tokens: u32,
    pub total_context_pct: u8,
    pub total_output_tokens: u32,
    pub cache_hit_pct: u8,
}

/// The view of an optional chat.
pub open spec fn chat_view(o: Option<ChatState>) -> Option<ChatView> {
    match o {
        Some(c) => Some(c@),
        None => None,
    }
}

/// The view of an optional queue.
pub open spec fn queue_view(o: Option<QueueState>) -> Option<QueueView> {
    match o {
        Some(q) => Some(q@),
        None => None,
    }
}

/// The view of an optional session state.
pub open spec fn state_view(o: Option<SessionState>) -> Option<SessionStateView> {
    match o {
        Some(s) => Some(s@),
        None => None,
    }
}

/// The view of an optional list of attachments.
pub open spec fn opt_attachments(o: Option<Vec<InputAttachment>>) -> Option<Seq<AttachmentView>> {
    match o {
        Some(a) => Some(attachment_views(a@)),
        None => None,
    }
}

impl View for SessionEntry {
    type V = EntryView;

    open spec fn view(&self) -> EntryView {
        EntryView {
            id: self.id,
            parent_id: self.parent_id,
            title: self.title@,
            status: self.status,
            yaml_path: opt_string_view(self.yaml_path),
            created_at: self.created_at,
            updated_at: self.updated_at,
            stored_chat: chat_view(self.stored_chat),
            stored_input_buffer: opt_string_view(self.stored_input_buffer),
            stored_input_cursor: self.stored_input_cursor,
            stored_input_attachments: opt_attachments(self.stored_input_attachments),
            stored_queue: queue_view(self.stored_queue),
            session_state: state_view(self.session_state),
            jsonl_path: opt_string_view(self.jsonl_path),
            buffer_handle: opt_string_view(self.buffer_handle),
            initial_prompt: opt_string_view(self.initial_prompt),
            has_agent: self.has_agent,
            busy: self.busy,
            current_tool: opt_string_view(self.current_tool),
            context_pct: self.context_pct,
            total_context_tokens: self.total_context_tokens,
            total_context_pct: self.total_context_pct,
            total_output_tokens: self.total_output_tokens,
            cache_hit_pct: self.cache_hit_pct,
        }
    }
}

impl EntryView {
    /// A session with nothing kept.
    pub open spec fn blank(id: SessionId, title: Seq<char>, now: i64) -> EntryView {
        EntryView {
            id,
            parent_id: None,
            title,
            status: ChatStatus::Active,
            yaml_path: None,
            created_at: now,
            updated_at: now,
            stored_chat: None,
            stored_input_buffer: None,
            stored_input_cursor: None,
            stored_input_attachments: None,
            stored_queue: None,
            session_state: None,
            jsonl_path: None,
            buffer_handle: None,
            initial_prompt: None,
            has_agent: false,
            busy: false,
            current_tool: None,
            context_pct: 0,
            total_context_tokens: 0,
            total_context_pct: 0,
            total_output_tokens: 0,
            cache_hit_pct: 0,
        }
    }

    /// The session of a saved chat.
    pub open spec fn of_saved(h: HeaderView) -> EntryView {
        EntryView {
            status: h.status,
            yaml_path: Some(h.path),
            created_at: h.created_at,
            updated_at: h.updated_at,
            ..EntryView::blank(h.id, h.title, 0)
        }
    }

    /// The session of a saved chat under another identifier.
    pub open spec fn of_saved_into(h: HeaderView, id: SessionId) -> EntryView {
        EntryView {
            status: h.status,
            created_at: h.created_at,
            updated_at: h.updated_at,
            ..EntryView::blank(id, h.title, 0)
        }
    }

    /// The session of a subagent.
    pub open spec fn of_subagent(
        id: SessionId,
        title: Seq<char>,
        parent: SessionId,
        buffer: Option<Seq<char>>,
        prompt: Seq<char>,
        now: i64,
    ) -> EntryView {
        EntryView {
            parent_id: Some(parent),
            buffer_handle: buffer,
            initial_prompt: Some(prompt),
            ..EntryView::blank(id, title, now)
        }
    }

    /// After a report of the agent while the session is in the background. Only
    /// complete answers go into the chat; the rest is what the list shows.
    pub open spec fn after_event(self, event: EventView, now: i64) -> EntryView {
        match event {
            EventView::TextDelta(_) => EntryView { busy: true, ..self },
            EventView::ThinkingDelta(_) => EntryView { busy: true, ..self },
            EventView::TextComplete(text) => EntryView {
                stored_chat: match self.stored_chat {
                    Some(c) => Some(
                        ChatView {
                            segments: c.segments.push(
                                SegmentView::Message(
                                    MessageView {
                                        role: Role::Assistant,
                                        content: ContentView::Text(text),
                                    },
                                ),
                            ),
                            streaming_buffer: seq![],
                            ..c
                        },
                    ),
                    None => None,
                },
                busy: true,
                ..self
            },
            EventView::ToolCallStarted { name, .. } => EntryView {
                busy: true,
                current_tool: Some(name),
                updated_at: now,
                ..self
            },
            EventView::ToolCallFinished { tool_name, .. } => if self.current_tool == Some(
                tool_name,
            ) {
                EntryView { current_tool: None, ..self }
            } else {
                self
            },
            EventView::TurnComplete => EntryView {
                busy: false,
                current_tool: None,
                status: ChatStatus::Completed,
                updated_at: now,
                ..self
            },
            EventView::Aborted { .. } => EntryView { busy: false, current_tool: None, ..self },
            EventView::Error(_) => EntryView { busy: false, current_tool: None, ..self },
            EventView::TokenUsage { max_tokens, share, .. } => if max_tokens > 0 {
                EntryView { context_pct: share, ..self }
            } else {
                self
            },
            _ => self,
        }
    }
}

/// What is known of a chat without its conversation.
#[derive(Debug)]
pub struct ChatHeader {
    pub id: SessionId,
    pub title: String,
    pub status: ChatStatus,
    pub path: String,
    pub created_at: i64,
    pub updated_at: i64,
}

pub struct HeaderView {
    pub id: SessionId,
    pub title: Seq<char>,
    pub status: ChatStatus,
    pub path: Seq<char>,
    pub created_at: i64,
    pub updated_at: i64,
}

impl View for ChatHeader {
    type V = HeaderView;

    open spec fn view(&self) -> HeaderView {
        HeaderView {
            id: self.id,
            title: self.title@,
            status: self.status,
            path: self.path@,
            created_at: self.created_at,
            updated_at: self.updated_at,
        }
    }
}

/// The views of chat headers.
pub open spec fn header_views(v: Seq<ChatHeader>) -> Seq<HeaderView> {
    v.map_values(|h: ChatHeader| h@)
}

/// A saved chat: its header and its conversation.
#[derive(Debug)]
pub struct ChatDocument {
    pub id: SessionId,
    pub title: String,
    pub model: Option<String>,
    pub mode: Option<String>,
    pub status: ChatStatus,
    pub created_at: i64,
    pub updated_at: i64,
    pub records: Vec<ConversationRecord>,
}

impl SessionEntry {
    /// A new session that no file stands behind.
    pub fn new_blank(id: SessionId, title: &str, now: i64) -> (r: SessionEntry)
        ensures
            r@ == EntryView::blank(id, title@, now),
    {
        SessionEntry {
            id,
            parent_id: None,
            title: title.to_owned(),
            status: ChatStatus::Active,
            yaml_path: None,
            created_at: now,
            updated_at: now,
            stored_chat: None,
            stored_input_buffer: None,
            stored_input_cursor: None,
            stored_input_attachments: None,
            stored_queue: None,
            session_state: None,
            jsonl_path: None,
            buffer_handle: None,
            initial_prompt: None,
            has_agent: false,
            busy: false,
            current_tool: None,
            context_pct: 0,
            total_context_tokens: 0,
            total_context_pct: 0,
            total_output_tokens: 0,
            cache_hit_pct: 0,
        }
    }

    /// The session of a saved chat, which keeps its identifier and its file.
    pub fn from_document(doc: &ChatHeader) -> (r: SessionEntry)
        ensures
            r@ == (EntryView {
                status: doc.status,
                yaml_path: Some(doc.path@),
                created_at: doc.created_at,
                updated_at: doc.updated_at,
                ..EntryView::blank(doc.id, doc.title@, 0)
            }),
            r@ == EntryView::of_saved(doc@),
    {
        let mut r = SessionEntry::new_blank(doc.id, doc.title.as_str(), 0);
        r.status = doc.status;
        r.yaml_path = Some(doc.path.clone());
        r.created_at = doc.created_at;
        r.updated_at = doc.updated_at;
        r
    }

    /// The session of a saved chat under an identifier that is in use already.
    /// The file is chosen elsewhere.
    pub fn from_document_into(doc: &ChatHeader, id: SessionId) -> (r: SessionEntry)
        ensures
            r@ == (EntryView {
                status: doc.status,
                created_at: doc.created_at,
                updated_at: doc.updated_at,
                ..EntryView::blank(id, doc.title@, 0)
            }),
            r@ == EntryView::of_saved_into(doc@, id),
    {
        let mut r = SessionEntry::new_blank(id, doc.title.as_str(), 0);
        r.status = doc.status;
        r.created_at = doc.created_at;
        r.updated_at = doc.updated_at;
        r
    }

    /// The session of a subagent.
    pub fn new_subagent(
        id: SessionId,
        title: &str,
        parent_id: SessionId,
        buffer_handle: Option<String>,
        prompt: String,
        now: i64,
    ) -> (r: SessionEntry)
        ensures
            r@ == (EntryView {
                parent_id: Some(parent_id),
                buffer_handle: opt_string_view(buffer_handle),
                initial_prompt: Some(prompt@),
                ..EntryView::blank(id, title@, now)
            }),
            r@ == EntryView::of_subagent(
                id,
                title@,
                parent_id,
                opt_string_view(buffer_handle),
                prompt@,
                now,
            ),
    {
        let mut r = SessionEntry::new_blank(id, title, now);
        r.parent_id = Some(parent_id);
        r.buffer_handle = buffer_handle;
        r.initial_prompt = Some(prompt);
        r
    }

    /// The document in which a chat is saved: the conversation without the
    /// system's messages, and the time of its creation kept.
    pub fn to_document(
        &self,
        chat: &ChatState,
        model: Option<String>,
        mode: Option<String>,
        now: i64,
    ) -> (r: ChatDocument)
        ensures
            r.id == self.id,
            r.title@ == self@.title,
            r.model == model,
            r.mode == mode,
            r.status == self.status,
            r.created_at == self.created_at,
            r.updated_at == now,
            record_views(r.records@) == records_of(chat@.segments, false),
    {
        ChatDocument {
            id: self.id,
            title: self.title.clone(),
            model,
            mode,
            status: self.status,
            created_at: self.created_at,
            updated_at: now,
            records: conversation_records(&chat.segments, false),
        }
    }

    /// Takes in a report of the agent while the session is in the background.
    pub fn apply_background_event(&mut self, event: &AgentEvent, now: i64)
        ensures
            final(self)@ == old(self)@.after_event(event@, now),
    {
        match event {
            AgentEvent::TextDelta(_) => {
                self.busy = true;
            },
            AgentEvent::ThinkingDelta(_) => {
                self.busy = true;
            },
            AgentEvent::TextComplete(text) => {
                let stored = self.stored_chat.take();
                if let Some(chat) = stored {
                    let mut chat = chat;
                    push_segment(
                        &mut chat.segments,
                        ChatSegment::Message(Message::assistant(text.as_str())),
                    );
                    chat.streaming_buffer = String::new();
                    assert(chat.streaming_buffer@ =~= seq![]);
                    self.stored_chat = Some(chat);
                }
                self.busy = true;
            },
            AgentEvent::ToolCallStarted { name, .. } => {
                self.busy = true;
                self.current_tool = Some(name.clone());
                self.updated_at = now;
            },
            AgentEvent::ToolCallFinished { tool_name, .. } => {
                let same = match &self.current_tool {
                    Some(t) => str_eq(t.as_str(), tool_name.as_str()),
                    None => false,
                };
                if same {
                    self.current_tool = None;
                }
            },
            AgentEvent::TurnComplete => {
                self.busy = false;
                self.current_tool = None;
                self.status = ChatStatus::Completed;
                self.updated_at = now;
            },
            AgentEvent::Aborted { .. } => {
                self.busy = false;
                self.current_tool = None;
            },
            AgentEvent::Error(_) => {
                self.busy = false;
                self.current_tool = None;
            },
            AgentEvent::TokenUsage { max_tokens, share, .. } => {
                if *max_tokens > 0 {
                    self.context_pct = *share;
                }
            },
            _ => {},
        }
    }
}

} // verus!
