//! Saving: what is written of the active session, and where.

use vstd::prelude::*;

use crate::app::front::{App, AppView};
use crate::app::session_manager::{ChatDocument, ChatStatus, SessionId};
use crate::app::steps_panes::{mode_name, mode_text};
use crate::chat::history::{
    conversation_records, messages_from_records, record_messages, record_views, records_of,
    ConversationRecord, RecordView,
};
use crate::chat::markdown::{conversation_markdown, format_conversation};
use crate::chat::segment::{message_views, Message, MessageView};
use crate::commands::completion::opt_string_view;
use crate::commands::skill::clone_option;

verus! {

/// What is written of the active session.
#[derive(Debug)]
pub struct SavePlan {
    /// The log and what goes into it.
    pub jsonl_path: Option<String>,
    pub records: Vec<ConversationRecord>,
    /// The file of the chat, where it has one, and what goes into it.
    pub yaml_path: Option<String>,
    pub document: ChatDocument,
    /// The messages for the history, which is written where there are some.
    pub messages: Vec<Message>,
}

pub struct DocumentView {
    pub id: SessionId,
    pub title: Seq<char>,
    pub model: Option<Seq<char>>,
    pub mode: Option<Seq<char>>,
    pub status: ChatStatus,
    pub created_at: i64,
    pub updated_at: i64,
    pub records: Seq<RecordView>,
}

impl View for ChatDocument {
    type V = DocumentView;

    open spec fn view(&self) -> DocumentView {
        DocumentView {
            id: self.id,
            title: self.title@,
            model: opt_string_view(self.model),
            mode: opt_string_view(self.mode),
            status: self.status,
            created_at: self.created_at,
            updated_at: self.updated_at,
            records: record_views(self.records@),
        }
    }
}

pub struct SaveView {
    pub jsonl_path: Option<Seq<char>>,
    pub records: Seq<RecordView>,
    pub yaml_path: Option<Seq<char>>,
    pub document: DocumentView,
    pub messages: Seq<MessageView>,
}

impl View for SavePlan {
    type V = SaveView;

    open spec fn view(&self) -> SaveView {
        SaveView {
            jsonl_path: opt_string_view(self.jsonl_path),
            records: record_views(self.records@),
            yaml_path: opt_string_view(self.yaml_path),
            document: self.document@,
            messages: message_views(self.messages@),
        }
    }
}

impl AppView {
    /// The document in which the active session is saved. A session that is
    /// known keeps its title, its status and the time of its creation.
    pub open spec fn document(self, now: i64) -> DocumentView {
        let id = self.sessions.active_id;
        let model = Some(self.session.model_display);
        let mode = Some(mode_name(self.session.mode));
        if self.sessions.has(id) {
            let e = self.sessions.entry(id);
            DocumentView {
                id: e.id,
                title: e.title,
                model,
                mode,
                status: e.status,
                created_at: e.created_at,
                updated_at: now,
                records: records_of(self.chat.segments, false),
            }
        } else {
            DocumentView {
                id,
                title: self.chat_title,
                model,
                mode,
                status: ChatStatus::Active,
                created_at: now,
                updated_at: now,
                records: records_of(self.chat.segments, true),
            }
        }
    }

    /// What is written of the active session: nothing where it has nothing that
    /// lasts.
    pub open spec fn save(self, now: i64) -> Option<SaveView> {
        let records = records_of(self.chat.segments, true);
        if records.len() == 0 {
            None
        } else {
            Some(
                SaveView {
                    jsonl_path: self.jsonl_path,
                    records,
                    yaml_path: self.yaml_path,
                    document: self.document(now),
                    messages: record_messages(records),
                },
            )
        }
    }
}

impl App {
    fn make_document(&self, now: i64) -> (r: ChatDocument)
        ensures
            r@ == self@.document(now),
    {
        let id = self.sessions.active_id;
        let model = Some(self.session.model_display.clone());
        let mode = Some(mode_text(self.session.mode).to_owned());
        match self.sessions.get(id) {
            Some(e) => e.to_document(&self.chat, model, mode, now),
            None => ChatDocument {
                id,
                title: self.chat_title.clone(),
                model,
                mode,
                status: ChatStatus::Active,
                created_at: now,
                updated_at: now,
                records: conversation_records(&self.chat.segments, true),
            },
        }
    }

    /// What is to be written of the active session.
    pub fn plan_save(&self, now: i64) -> (r: Option<SavePlan>)
        ensures
            self@.save(now) == (match r {
                Some(p) => Some(p@),
                None => None,
            }),
    {
        let records = conversation_records(&self.chat.segments, true);
        assert(record_views(records@).len() == records@.len());
        if records.len() == 0 {
            return None;
        }
        let messages = messages_from_records(&records);
        Some(
            SavePlan {
                jsonl_path: clone_option(&self.jsonl_path),
                records,
                yaml_path: clone_option(&self.yaml_path),
                document: self.make_document(now),
                messages,
            },
        )
    }

    /// The conversation as the editor shows it.
    pub fn editor_text(&self) -> (r: String)
        ensures
            r@ == conversation_markdown(
                self@.chat.segments,
                self@.chat.streaming_buffer,
                self@.chat.tool_args,
            ),
    {
        format_conversation(
            &self.chat.segments,
            self.chat.streaming_buffer.as_str(),
            &self.chat.tool_args,
        )
    }
}

/// What was written in the log comes back as the conversation, as far as it
/// lasts.
pub proof fn law_saved_log_comes_back(v: AppView, now: i64)
    requires
        v.save(now) is Some,
    ensures
        crate::chat::history::segments_of(v.save(now)->0.records) == crate::chat::history::kept(
            v.chat.segments,
        ),
{
    crate::chat::history::law_saved_conversation_comes_back(v.chat.segments, true);
}

} // verus!
