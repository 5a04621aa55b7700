//! Changing the session: what the active one leaves behind, and what the other
//! one brings.

use vstd::prelude::*;

use crate::app::agent_conn::{AgentConn, AgentView};
use crate::app::chat_state::{ChatState, ChatView};
use crate::app::front::{
    add_effect, add_when, assistant_segment, effect_views, given, no_effects, nothing, one, App,
    AppView, Effect, EffectView, StepView,
};
use crate::app::input_state::{
    attachment_views, AttachmentView, EditView, InputAttachment, InputState, InputView,
};
use crate::app::queue_state::{QueueState, QueueView};
use crate::app::session_manager::{
    chat_view, opt_attachments, queue_view, state_view, ChatHeader, EntryView, HeaderView,
    SessionEntry, SessionId,
};
use crate::app::session_state::{SessionState, SessionStateView};
use crate::app::session_tree::{entry_views, ManagerView, SessionManager};
use crate::app::ui_state::FocusPane;
use crate::chat::history::{segments_from_messages, segments_of, RecordView};
use crate::chat::segment::{
    message_views, segment_views, ChatSegment, Message, MessageView, SegmentView,
};
use crate::commands::completion::opt_string_view;
use crate::commands::skill::clone_option;
use crate::commands::AgentMode;

verus! {

// ── What a session leaves behind ─────────────────────────────────────────────

/// The state of the active session, as it is kept while another one is active.
pub struct Live {
    pub chat: ChatState,
    pub input_buffer: String,
    pub input_cursor: usize,
    pub input_attachments: Vec<InputAttachment>,
    pub queue: QueueState,
    pub session: SessionState,
    pub jsonl_path: Option<String>,
    pub yaml_path: Option<String>,
    pub title: String,
    pub busy: bool,
    pub current_tool: Option<String>,
    pub context_pct: u8,
    pub total_context_tokens: u32,
    pub total_context_pct: u8,
    pub total_output_tokens: u32,
    pub cache_hit_pct: u8,
}

pub struct LiveView {
    pub chat: ChatView,
    pub input_buffer: Seq<char>,
    pub input_cursor: usize,
    pub input_attachments: Seq<AttachmentView>,
    pub queue: QueueView,
    pub session: SessionStateView,
    pub jsonl_path: Option<Seq<char>>,
    pub yaml_path: Option<Seq<char>>,
    pub title: Seq<char>,
    pub busy: bool,
    pub current_tool: Option<Seq<char>>,
    pub context_pct: u8,
    pub total_context_tokens: u32,
    pub total_context_pct: u8,
    pub total_output_tokens: u32,
    pub cache_hit_pct: u8,
}

impl View for Live {
    type V = LiveView;

    open spec fn view(&self) -> LiveView {
        LiveView {
            chat: self.chat@,
            input_buffer: self.input_buffer@,
            input_cursor: self.input_cursor,
            input_attachments: attachment_views(self.input_attachments@),
            queue: self.queue@,
            session: self.session@,
            jsonl_path: opt_string_view(self.jsonl_path),
            yaml_path: opt_string_view(self.yaml_path),
            title: self.title@,
            busy: self.busy,
            current_tool: opt_string_view(self.current_tool),
            context_pct: self.context_pct,
            total_context_tokens: self.total_context_tokens,
            total_context_pct: self.total_context_pct,
            total_output_tokens: self.total_output_tokens,
            cache_hit_pct: self.cache_hit_pct,
        }
    }
}

impl EntryView {
    /// With the state that a session leaves behind.
    pub open spec fn stashed(self, live: LiveView, now: i64) -> EntryView {
        EntryView {
            stored_chat: Some(live.chat),
            stored_input_buffer: Some(live.input_buffer),
            stored_input_cursor: Some(live.input_cursor),
            stored_input_attachments: Some(live.input_attachments),
            stored_queue: Some(live.queue),
            session_state: Some(live.session),
            jsonl_path: live.jsonl_path,
            yaml_path: live.yaml_path,
            title: live.title,
            busy: live.busy,
            current_tool: live.current_tool,
            context_pct: live.context_pct,
            total_context_tokens: live.total_context_tokens,
            total_context_pct: live.total_context_pct,
            total_output_tokens: live.total_output_tokens,
            cache_hit_pct: live.cache_hit_pct,
            updated_at: now,
            ..self
        }
    }

    /// With nothing kept any more.
    pub open spec fn unstashed(self) -> EntryView {
        EntryView {
            stored_chat: None,
            stored_input_buffer: None,
            stored_input_cursor: None,
            stored_input_attachments: None,
            stored_queue: None,
            session_state: None,
            ..self
        }
    }

    /// With what a saved chat says of itself.
    pub open spec fn refreshed(self, h: HeaderView) -> EntryView {
        EntryView {
            title: h.title,
            status: h.status,
            created_at: h.created_at,
            updated_at: h.updated_at,
            ..self
        }
    }
}

impl ManagerView {
    /// With the state that the active session leaves behind.
    #[verifier::opaque]
    pub open spec fn stashed(self, live: LiveView, now: i64) -> ManagerView {
        if self.has(self.active_id) {
            self.with(self.entry(self.active_id).stashed(live, now))
        } else {
            self
        }
    }

    /// A session, or a blank one where there is none.
    pub open spec fn entry_or_blank(self, id: SessionId) -> EntryView {
        if self.has(id) {
            self.entry(id)
        } else {
            EntryView::blank(id, "Chat"@, 0)
        }
    }
}

impl SessionEntry {
    fn stash(&mut self, live: Live, now: i64)
        ensures
            final(self)@ == old(self)@.stashed(live@, now),
    {
        self.stored_chat = Some(live.chat);
        self.stored_input_buffer = Some(live.input_buffer);
        self.stored_input_cursor = Some(live.input_cursor);
        self.stored_input_attachments = Some(live.input_attachments);
        self.stored_queue = Some(live.queue);
        self.session_state = Some(live.session);
        self.jsonl_path = live.jsonl_path;
        self.yaml_path = live.yaml_path;
        self.title = live.title;
        self.busy = live.busy;
        self.current_tool = live.current_tool;
        self.context_pct = live.context_pct;
        self.total_context_tokens = live.total_context_tokens;
        self.total_context_pct = live.total_context_pct;
        self.total_output_tokens = live.total_output_tokens;
        self.cache_hit_pct = live.cache_hit_pct;
        self.updated_at = now;
    }
}

/// What was kept of a session.
pub struct Stored {
    pub chat: Option<ChatState>,
    pub input_buffer: Option<String>,
    pub input_cursor: Option<usize>,
    pub input_attachments: Option<Vec<InputAttachment>>,
    pub queue: Option<QueueState>,
    pub session: Option<SessionState>,
}

impl Stored {
    /// It is what a session has kept.
    pub open spec fn is_of(self, e: EntryView) -> bool {
        &&& chat_view(self.chat) == e.stored_chat
        &&& opt_string_view(self.input_buffer) == e.stored_input_buffer
        &&& self.input_cursor == e.stored_input_cursor
        &&& opt_attachments(self.input_attachments) == e.stored_input_attachments
        &&& queue_view(self.queue) == e.stored_queue
        &&& state_view(self.session) == e.session_state
    }
}

impl SessionEntry {
    fn unstash(&mut self) -> (r: Stored)
        ensures
            r.is_of(old(self)@),
            final(self)@ == old(self)@.unstashed(),
    {
        let r = Stored {
            chat: self.stored_chat.take(),
            input_buffer: self.stored_input_buffer.take(),
            input_cursor: self.stored_input_cursor,
            input_attachments: self.stored_input_attachments.take(),
            queue: self.stored_queue.take(),
            session: self.session_state.take(),
        };
        self.stored_input_cursor = None;
        r
    }

    fn refresh(&mut self, h: &ChatHeader)
        ensures
            final(self)@ == old(self)@.refreshed(h@),
    {
        self.title = h.title.clone();
        self.status = h.status;
        self.created_at = h.created_at;
        self.updated_at = h.updated_at;
    }
}

impl SessionManager {
    fn take_entry(&mut self, i: usize) -> (r: SessionEntry)
        requires
            i < old(self).entries@.len(),
        ensures
            r@ == old(self)@.entries[i as int],
            final(self).entries@.len() == old(self).entries@.len(),
            forall|e: EntryView| #[trigger]
                final(self)@.entries.update(i as int, e) == old(self)@.entries.update(i as int, e),
            final(self)@.order == old(self)@.order,
            final(self)@.children == old(self)@.children,
            final(self)@.active_id == old(self)@.active_id,
            final(self)@.list_selected == old(self)@.list_selected,
    {
        let mut e = SessionEntry::new_blank(SessionId(0), "", 0);
        let ghost before = self.entries@;
        assert(entry_views(before)[i as int] == before[i as int]@);
        core::mem::swap(&mut e, &mut self.entries[i]);
        proof {
            assert forall|x: EntryView| #[trigger]
                self@.entries.update(i as int, x) == old(self)@.entries.update(i as int, x) by {
                assert(self@.entries.update(i as int, x) =~= old(self)@.entries.update(
                    i as int,
                    x,
                ));
            }
        }
        e
    }

    fn put_back(&mut self, i: usize, e: SessionEntry)
        requires
            i < old(self)@.entries.len(),
        ensures
            final(self)@ == (ManagerView {
                entries: old(self)@.entries.update(i as int, e@),
                ..old(self)@
            }),
    {
        let ghost before = self.entries@;
        assert(entry_views(before).len() == before.len());
        self.entries.set(i, e);
        assert(entry_views(self.entries@) =~= entry_views(before).update(i as int, e@));
    }

    fn stash_active(&mut self, live: Live, now: i64)
        ensures
            final(self)@ == old(self)@.stashed(live@, now),
    {
        reveal(ManagerView::stashed);
        if let Some(i) = self.find(self.active_id) {
            let mut e = self.take_entry(i);
            e.stash(live, now);
            self.put_back(i, e);
        }
    }
}

impl AppView {
    /// The file and the buffer of a session whose conversation is not kept here.
    pub open spec fn sources_of(self, id: SessionId) -> (Option<Seq<char>>, Option<Seq<char>>) {
        if self.sessions.has(id) && self.sessions.entry(id).stored_chat is None {
            (self.sessions.entry(id).yaml_path, self.sessions.entry(id).buffer_handle)
        } else {
            (None, None)
        }
    }

    /// The state of the active session.
    pub open spec fn live(self) -> LiveView {
        LiveView {
            chat: self.chat,
            input_buffer: self.input.buffer,
            input_cursor: self.input.cursor as usize,
            input_attachments: self.input.attachments,
            queue: self.queue,
            session: self.session,
            jsonl_path: self.jsonl_path,
            yaml_path: self.yaml_path,
            title: self.chat_title,
            busy: self.agent.busy,
            current_tool: self.agent.current_tool,
            context_pct: self.agent.context_pct,
            total_context_tokens: self.agent.total_context_tokens,
            total_context_pct: self.agent.total_context_pct,
            total_output_tokens: self.agent.total_output_tokens,
            cache_hit_pct: self.agent.cache_hit_pct,
        }
    }

    /// Without the conversation, the input and the queue of the active session,
    /// which are kept with it.
    #[verifier::opaque]
    pub open spec fn left(self, now: i64) -> AppView {
        AppView {
            chat: ChatView::empty(),
            input: InputView {
                buffer: seq![],
                cursor: 0,
                scroll_offset: 0,
                attachments: seq![],
                ..self.input
            },
            queue: QueueView::empty(),
            session: SessionStateView::fresh(self.default_model, AgentMode::Agent),
            edit: EditView::none(),
            sessions: self.sessions.stashed(self.live(), now),
            ..self
        }
    }
}

impl App {
    fn take_live(&mut self) -> (r: Live)
        ensures
            r@ == old(self)@.live(),
            final(self)@ == (AppView {
                chat: ChatView::empty(),
                input: (InputView {
                    buffer: seq![],
                    cursor: 0,
                    scroll_offset: 0,
                    attachments: seq![],
                    ..old(self)@.input
                }),
                queue: QueueView::empty(),
                session: SessionStateView::fresh(old(self)@.default_model, AgentMode::Agent),
                ..old(self)@
            }),
    {
        let mut chat = ChatState::new();
        core::mem::swap(&mut chat, &mut self.chat);
        let mut queue = QueueState::new();
        core::mem::swap(&mut queue, &mut self.queue);
        let mut session = SessionState::new(self.default_model.clone(), AgentMode::Agent);
        core::mem::swap(&mut session, &mut self.session);
        let mut input_buffer = String::new();
        assert(input_buffer@ =~= seq![]);
        core::mem::swap(&mut input_buffer, &mut self.input.buffer);
        let mut input_attachments: Vec<InputAttachment> = Vec::new();
        assert(attachment_views(input_attachments@) =~= seq![]);
        core::mem::swap(&mut input_attachments, &mut self.input.attachments);
        let input_cursor: usize = self.input.cursor;
        self.input.cursor = 0;
        self.input.scroll_offset = 0;
        Live {
            chat,
            input_buffer,
            input_cursor,
            input_attachments,
            queue,
            session,
            jsonl_path: clone_option(&self.jsonl_path),
            yaml_path: clone_option(&self.yaml_path),
            title: self.chat_title.clone(),
            busy: self.agent.busy,
            current_tool: clone_option(&self.agent.current_tool),
            context_pct: self.agent.context_pct,
            total_context_tokens: self.agent.total_context_tokens,
            total_context_pct: self.agent.total_context_pct,
            total_output_tokens: self.agent.total_output_tokens,
            cache_hit_pct: self.agent.cache_hit_pct,
        }
    }

    /// Keeps the state of the active session with it.
    fn save_active_to_session_entry(&mut self, now: i64)
        ensures
            final(self)@ == old(self)@.left(now),
    {
        reveal(AppView::left);
        let live = self.take_live();
        self.sessions.stash_active(live, now);
        self.edit.clear();
    }
}

// ── A new session ────────────────────────────────────────────────────────────

impl AppView {
    /// A new session active, with nothing in it.
    #[verifier::opaque]
    pub open spec fn renewed(self, id: SessionId, path: Option<Seq<char>>, now: i64) -> StepView {
        let l = self.left(now);
        StepView {
            app: AppView {
                sessions: (ManagerView {
                    active_id: id,
                    ..l.sessions.created(EntryView::blank(id, "New chat"@, now))
                }).promoted(id).synced(),
                agent: AgentView::idle(),
                input: InputView::empty(),
                jsonl_path: None,
                chat_title: "New chat"@,
                yaml_path: path,
                ..l
            }.focused(FocusPane::Input),
            effects: nothing() + one(EffectView::SpawnAgent(id)) + one(EffectView::Rerender),
        }
    }

    /// An agent was started for a session.
    pub open spec fn agent_started(self, id: SessionId) -> AppView {
        AppView {
            agent: AgentView {
                connected: self.agent.connected || id == self.sessions.active_id,
                ..self.agent
            },
            sessions: if self.sessions.has(id) {
                self.sessions.with(EntryView { has_agent: true, ..self.sessions.entry(id) })
            } else {
                self.sessions
            },
            ..self
        }
    }
}

impl App {
    /// Makes a new session active; `path` is the file that it will be saved in.
    pub fn new_session(&mut self, id: SessionId, path: Option<String>, now: i64) -> (r: Vec<Effect>)
        ensures
            final(self)@ == old(self)@.renewed(id, opt_string_view(path), now).app,
            effect_views(r@) == old(self)@.renewed(id, opt_string_view(path), now).effects,
    {
        reveal(AppView::renewed);
        self.save_active_to_session_entry(now);
        self.sessions.create_session(id, "New chat", now);
        self.sessions.active_id = id;
        self.sessions.promote_to_top(id);
        self.sessions.sync_list_selection_to_active();
        self.agent = AgentConn::new();
        self.input = InputState::new();
        self.jsonl_path = None;
        self.chat_title = "New chat".to_owned();
        self.yaml_path = path;
        self.ui.focus = FocusPane::Input;
        let mut out = no_effects();
        add_effect(&mut out, Effect::SpawnAgent(id));
        add_effect(&mut out, Effect::Rerender);
        out
    }

    /// Takes note that an agent was started for a session.
    pub fn agent_spawned(&mut self, id: SessionId)
        ensures
            final(self)@ == old(self)@.agent_started(id),
    {
        if id == self.sessions.active_id {
            self.agent.connected = true;
        }
        if let Some(i) = self.sessions.find(id) {
            let mut e = self.sessions.take_entry(i);
            e.has_agent = true;
            self.sessions.put_back(i, e);
        }
    }
}

// ── Another session ──────────────────────────────────────────────────────────

/// A conversation that was read from outside for a session that has none here.
pub enum Loaded {
    /// There is none.
    Nothing,
    /// The saved chat of the session.
    Document { header: ChatHeader, messages: Vec<Message> },
    /// What a subagent has written.
    Text(String),
}

pub enum LoadedView {
    Nothing,
    Document { header: HeaderView, messages: Seq<MessageView> },
    Text(Seq<char>),
}

impl View for Loaded {
    type V = LoadedView;

    open spec fn view(&self) -> LoadedView {
        match *self {
            Loaded::Nothing => LoadedView::Nothing,
            Loaded::Document { header, messages } => LoadedView::Document {
                header: header@,
                messages: message_views(messages@),
            },
            Loaded::Text(t) => LoadedView::Text(t@),
        }
    }
}

impl LoadedView {
    /// The segments of the conversation.
    pub open spec fn segments(self) -> Seq<SegmentView> {
        match self {
            LoadedView::Nothing => seq![],
            LoadedView::Document { messages, .. } => segments_of(
                messages.map_values(|m: MessageView| RecordView::Message(m)),
            ),
            LoadedView::Text(t) => if t.len() == 0 {
                seq![]
            } else {
                seq![assistant_segment(t)]
            },
        }
    }
}

impl EntryView {
    /// The conversation of a session: the one that was kept, or the one that was
    /// read from outside.
    pub open spec fn shown_chat(self, loaded: LoadedView) -> ChatView {
        match self.stored_chat {
            Some(c) => c,
            None => ChatView { segments: loaded.segments(), ..ChatView::empty() },
        }
    }

    /// What remains of a session once it is active.
    pub open spec fn activated(self, loaded: LoadedView) -> EntryView {
        match loaded {
            LoadedView::Document { header, .. } if self.stored_chat is None => self.refreshed(
                header,
            ).unstashed(),
            _ => self.unstashed(),
        }
    }
}

impl AgentView {
    /// The agent of a session that is becoming active. One that has yet to be
    /// started is idle.
    pub open spec fn switched(self, e: EntryView, known: bool) -> AgentView {
        if known && e.has_agent {
            AgentView {
                connected: true,
                busy: e.busy,
                total_context_tokens: e.total_context_tokens,
                total_context_pct: e.total_context_pct,
                total_output_tokens: e.total_output_tokens,
                cache_hit_pct: e.cache_hit_pct,
                ..self
            }
        } else if known {
            AgentView {
                busy: false,
                current_tool: e.current_tool,
                context_pct: e.context_pct,
                total_context_tokens: e.total_context_tokens,
                total_context_pct: e.total_context_pct,
                total_output_tokens: e.total_output_tokens,
                cache_hit_pct: e.cache_hit_pct,
                ..self
            }
        } else {
            AgentView { busy: false, current_tool: None, ..self }
        }
    }
}

impl AppView {
    /// A session that is becoming active with what was kept of it.
    #[verifier::opaque]
    pub open spec fn entered_session(self, id: SessionId, loaded: LoadedView) -> AppView {
        let known = self.sessions.has(id);
        let e = self.sessions.entry_or_blank(id);
        let after = e.activated(loaded);
        AppView {
            chat: e.shown_chat(loaded),
            session: match e.session_state {
                Some(s) => s,
                None => SessionStateView::fresh(self.default_model, AgentMode::Agent),
            },
            agent: self.agent.switched(e, known),
            chat_title: after.title,
            yaml_path: e.yaml_path,
            jsonl_path: e.jsonl_path,
            input: InputView {
                buffer: match e.stored_input_buffer {
                    Some(b) => b,
                    None => seq![],
                },
                cursor: match e.stored_input_cursor {
                    Some(c) => c as nat,
                    None => 0,
                },
                scroll_offset: 0,
                attachments: match e.stored_input_attachments {
                    Some(a) => a,
                    None => seq![],
                },
                ..self.input
            },
            queue: match e.stored_queue {
                Some(q) => q,
                None => QueueView::empty(),
            },
            sessions: (ManagerView {
                active_id: id,
                ..if known {
                    self.sessions.with(after)
                } else {
                    self.sessions
                }
            }).synced(),
            ..self
        }
    }

    /// Another session active.
    pub open spec fn switched(self, id: SessionId, loaded: LoadedView, now: i64) -> StepView {
        let l = self.left(now);
        StepView {
            app: l.entered_session(id, loaded),
            effects: nothing() + given(
                !(l.sessions.has(id) && l.sessions.entry(id).has_agent),
                EffectView::SpawnAgent(id),
            ) + one(EffectView::Rerender) + one(EffectView::ScrollToBottom),
        }
    }
}

fn loaded_segments(loaded: &Loaded) -> (r: Vec<ChatSegment>)
    ensures
        segment_views(r@) == loaded@.segments(),
{
    match loaded {
        Loaded::Nothing => {
            let r: Vec<ChatSegment> = Vec::new();
            assert(segment_views(r@) =~= seq![]);
            r
        },
        Loaded::Document { messages, .. } => segments_from_messages(messages),
        Loaded::Text(t) => {
            let mut r: Vec<ChatSegment> = Vec::new();
            if !t.as_str().is_empty() {
                let seg = ChatSegment::Message(Message::assistant(t.as_str()));
                r.push(seg);
                assert(segment_views(r@) =~= seq![seg@]);
            } else {
                assert(segment_views(r@) =~= seq![]);
            }
            r
        },
    }
}

impl App {
    fn restore(&mut self, stored: Stored, loaded: &Loaded, e: Ghost<EntryView>)
        requires
            stored.is_of(e@),
        ensures
            final(self)@ == (AppView {
                chat: e@.shown_chat(loaded@),
                session: (match e@.session_state {
                    Some(s) => s,
                    None => SessionStateView::fresh(old(self)@.default_model, AgentMode::Agent),
                }),
                input: (InputView {
                    buffer: (match e@.stored_input_buffer {
                        Some(b) => b,
                        None => seq![],
                    }),
                    cursor: (match e@.stored_input_cursor {
                        Some(c) => c as nat,
                        None => 0,
                    }),
                    scroll_offset: 0,
                    attachments: (match e@.stored_input_attachments {
                        Some(a) => a,
                        None => seq![],
                    }),
                    ..old(self)@.input
                }),
                queue: (match e@.stored_queue {
                    Some(q) => q,
                    None => QueueView::empty(),
                }),
                ..old(self)@
            }),
    {
        self.chat = match stored.chat {
            Some(c) => c,
            None => {
                let mut c = ChatState::new();
                c.segments = loaded_segments(loaded);
                c
            },
        };
        self.session = match stored.session {
            Some(s) => s,
            None => SessionState::new(self.default_model.clone(), AgentMode::Agent),
        };
        self.input.buffer = match stored.input_buffer {
            Some(b) => b,
            None => {
                let b = String::new();
                assert(b@ =~= seq![]);
                b
            },
        };
        self.input.cursor = match stored.input_cursor {
            Some(c) => c,
            None => 0,
        };
        self.input.scroll_offset = 0;
        self.input.attachments = match stored.input_attachments {
            Some(a) => a,
            None => {
                let a: Vec<InputAttachment> = Vec::new();
                assert(attachment_views(a@) =~= seq![]);
                a
            },
        };
        self.queue = match stored.queue {
            Some(q) => q,
            None => QueueState::new(),
        };
    }

    fn take_metrics(&mut self, e: &SessionEntry)
        ensures
            final(self)@ == (AppView {
                agent: old(self)@.agent.switched(e@, true),
                ..old(self)@
            }),
    {
        if e.has_agent {
            self.agent.connected = true;
            self.agent.busy = e.busy;
        } else {
            self.agent.busy = false;
            self.agent.current_tool = clone_option(&e.current_tool);
            self.agent.context_pct = e.context_pct;
        }
        self.agent.total_context_tokens = e.total_context_tokens;
        self.agent.total_context_pct = e.total_context_pct;
        self.agent.total_output_tokens = e.total_output_tokens;
        self.agent.cache_hit_pct = e.cache_hit_pct;
    }

    fn enter_known(&mut self, i: usize, id: SessionId, loaded: &Loaded)
        requires
            i < old(self).sessions.entries@.len(),
            crate::app::session_tree::entry_index(old(self)@.sessions.entries, id, 0) == Some(
                i as int,
            ),
            old(self)@.sessions.entries[i as int].id == id,
        ensures
            final(self)@ == old(self)@.entered_session(id, loaded@),
    {
        reveal(AppView::entered_session);
        let mut e = self.sessions.take_entry(i);
        let ghost ev = e@;
        if let Loaded::Document { header, .. } = loaded {
            if e.stored_chat.is_none() {
                e.refresh(header);
            }
        }
        self.take_metrics(&e);
        let stored = e.unstash();
        self.chat_title = e.title.clone();
        self.yaml_path = clone_option(&e.yaml_path);
        self.jsonl_path = clone_option(&e.jsonl_path);
        assert(e@ == ev.activated(loaded@));
        self.restore(stored, loaded, Ghost(ev));
        self.sessions.put_back(i, e);
        self.sessions.active_id = id;
        self.sessions.sync_list_selection_to_active();
    }

    fn enter_unknown(&mut self, id: SessionId, loaded: &Loaded)
        requires
            !old(self)@.sessions.has(id),
        ensures
            final(self)@ == old(self)@.entered_session(id, loaded@),
    {
        reveal(AppView::entered_session);
        let mut e = SessionEntry::new_blank(id, "Chat", 0);
        let ghost ev = e@;
        if let Loaded::Document { header, .. } = loaded {
            e.refresh(header);
        }
        let stored = e.unstash();
        self.agent.busy = false;
        self.agent.current_tool = None;
        self.chat_title = e.title.clone();
        self.yaml_path = None;
        self.jsonl_path = None;
        self.restore(stored, loaded, Ghost(ev));
        self.sessions.active_id = id;
        self.sessions.sync_list_selection_to_active();
    }

    /// The file and the buffer that the conversation of a session can be read
    /// from, where none is kept here; the file comes first.
    pub fn chat_sources(&self, id: SessionId) -> (r: (Option<String>, Option<String>))
        ensures
            (opt_string_view(r.0), opt_string_view(r.1)) == (if self@.sessions.has(id)
                && self@.sessions.entry(id).stored_chat is None {
                (self@.sessions.entry(id).yaml_path, self@.sessions.entry(id).buffer_handle)
            } else {
                (None, None)
            }),
            (opt_string_view(r.0), opt_string_view(r.1)) == self@.sources_of(id),
    {
        match self.sessions.get(id) {
            Some(e) => {
                if e.stored_chat.is_some() {
                    (None, None)
                } else {
                    (clone_option(&e.yaml_path), clone_option(&e.buffer_handle))
                }
            },
            None => (None, None),
        }
    }

    /// Makes another session active. `loaded` is its conversation, where it had
    /// to be read from outside.
    pub fn switch_session(&mut self, id: SessionId, loaded: Loaded, now: i64) -> (r: Vec<Effect>)
        ensures
            final(self)@ == old(self)@.switched(id, loaded@, now).app,
            effect_views(r@) == old(self)@.switched(id, loaded@, now).effects,
    {
        self.save_active_to_session_entry(now);
        let has_agent = match self.sessions.get(id) {
            Some(e) => e.has_agent,
            None => false,
        };
        match self.sessions.find(id) {
            Some(i) => {
                proof {
                    crate::app::session_tree::lemma_entry_index(self@.sessions.entries, id, 0);
                }
                self.enter_known(i, id, &loaded);
            },
            None => {
                self.enter_unknown(id, &loaded);
            },
        }
        let mut out = no_effects();
        add_when(&mut out, !has_agent, Effect::SpawnAgent(id));
        add_effect(&mut out, Effect::Rerender);
        add_effect(&mut out, Effect::ScrollToBottom);
        out
    }
}

// ── Laws ─────────────────────────────────────────────────────────────────────

/// A session that was changed is found as it was given, and no other one
/// changes.
pub proof fn lemma_with(m: ManagerView, e: EntryView, other: SessionId)
    ensures
        m.with(e).has(e.id),
        m.with(e).entry(e.id) == e,
        other != e.id ==> m.with(e).has(other) == m.has(other),
        other != e.id && m.has(other) ==> m.with(e).entry(other) == m.entry(other),
{
    crate::app::session_tree::law_registered_session_is_found(m, e, other);
    assert(m.with(e).entries == m.registered(e).entries);
}

pub proof fn lemma_entry_id(m: ManagerView, id: SessionId)
    requires
        m.has(id),
    ensures
        m.entry(id).id == id,
{
    crate::app::session_tree::lemma_entry_index(m.entries, id, 0);
}

pub proof fn lemma_stashed(m: ManagerView, live: LiveView, now: i64, other: SessionId)
    requires
        m.has(m.active_id),
    ensures
        m.stashed(live, now).has(m.active_id),
        m.stashed(live, now).entry(m.active_id) == m.entry(m.active_id).stashed(live, now),
        other != m.active_id ==> m.stashed(live, now).has(other) == m.has(other),
        other != m.active_id && m.has(other) ==> m.stashed(live, now).entry(other) == m.entry(
            other,
        ),
        m.stashed(live, now).active_id == m.active_id,
{
    reveal(ManagerView::stashed);
    lemma_entry_id(m, m.active_id);
    lemma_with(m, m.entry(m.active_id).stashed(live, now), other);
}

/// After a switch the session that was left is kept as it was.
proof fn lemma_left_is_kept(v: AppView, id: SessionId, loaded: LoadedView, now: i64)
    requires
        v.sessions.has(v.sessions.active_id),
        v.sessions.has(id),
        id != v.sessions.active_id,
    ensures
        ({
            let w = v.switched(id, loaded, now).app;
            &&& w.sessions.active_id == id
            &&& w.sessions.has(id)
            &&& w.sessions.has(v.sessions.active_id)
            &&& w.sessions.entry(v.sessions.active_id) == v.sessions.entry(
                v.sessions.active_id,
            ).stashed(v.live(), now)
            &&& w.default_model == v.default_model
            &&& w.input.history == v.input.history
        }),
{
    reveal(AppView::left);
    reveal(AppView::entered_session);
    let a = v.sessions.active_id;
    let l = v.left(now);
    lemma_stashed(v.sessions, v.live(), now, id);
    let e = l.sessions.entry(id);
    lemma_entry_id(l.sessions, id);
    lemma_with(l.sessions, e.activated(loaded), a);
    let w = v.switched(id, loaded, now).app;
    assert(w.sessions.entries == l.sessions.with(e.activated(loaded)).entries);
}

/// A session that is left and shown again is as it was: its conversation, its
/// input, its queue, its model and mode, its title and its files.
pub proof fn law_switch_there_and_back(
    v: AppView,
    other: SessionId,
    there: LoadedView,
    back: LoadedView,
    t1: i64,
    t2: i64,
)
    requires
        v.sessions.has(v.sessions.active_id),
        v.sessions.has(other),
        other != v.sessions.active_id,
        v.input.cursor <= usize::MAX,
    ensures
        ({
            let w = v.switched(other, there, t1).app.switched(v.sessions.active_id, back, t2).app;
            &&& w.sessions.active_id == v.sessions.active_id
            &&& w.chat == v.chat
            &&& w.input.buffer == v.input.buffer
            &&& w.input.cursor == v.input.cursor
            &&& w.input.attachments == v.input.attachments
            &&& w.input.history == v.input.history
            &&& w.queue == v.queue
            &&& w.session == v.session
            &&& w.chat_title == v.chat_title
            &&& w.yaml_path == v.yaml_path
            &&& w.jsonl_path == v.jsonl_path
            &&& w.agent.total_context_tokens == v.agent.total_context_tokens
            &&& w.agent.total_output_tokens == v.agent.total_output_tokens
            &&& v.sessions.entry(v.sessions.active_id).has_agent ==> w.agent.busy == v.agent.busy
        }),
{
    let a = v.sessions.active_id;
    let u = v.switched(other, there, t1).app;
    lemma_left_is_kept(v, other, there, t1);
    let l = u.left(t2);
    assert(l.sessions.has(a) && l.sessions.entry(a) == v.sessions.entry(a).stashed(v.live(), t1))
        by {
        reveal(AppView::left);
        lemma_stashed(u.sessions, u.live(), t2, a);
    }
    assert(l.input.history == v.input.history) by {
        reveal(AppView::left);
    }
    lemma_entry_id(v.sessions, a);
    reveal(AppView::entered_session);
}

/// A new session does not touch the one that was active: it can be shown again
/// with everything that it had.
pub proof fn law_new_session_keeps_the_old(v: AppView, id: SessionId, path: Option<Seq<char>>, now: i64)
    requires
        v.sessions.has(v.sessions.active_id),
        id != v.sessions.active_id,
    ensures
        ({
            let w = v.renewed(id, path, now).app;
            &&& w.sessions.active_id == id
            &&& w.sessions.has(v.sessions.active_id)
            &&& w.sessions.entry(v.sessions.active_id) == v.sessions.entry(
                v.sessions.active_id,
            ).stashed(v.live(), now)
            &&& w.chat == ChatView::empty()
            &&& w.queue == QueueView::empty()
            &&& w.input == InputView::empty()
        }),
{
    reveal(AppView::left);
    reveal(AppView::renewed);
    let a = v.sessions.active_id;
    let l = v.left(now);
    lemma_stashed(v.sessions, v.live(), now, id);
    lemma_with(l.sessions, EntryView::blank(id, "New chat"@, now), a);
    let w = v.renewed(id, path, now).app;
    assert(w.sessions.entries == l.sessions.with(EntryView::blank(id, "New chat"@, now)).entries);
}

} // verus!
