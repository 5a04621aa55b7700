//! The state at the start, and the first things to do.

use vstd::prelude::*;

use crate::app::agent_conn::{AgentConn, AgentView};
use crate::app::chat_state::{
    default_expand_level, default_level, with_level, ChatState, ChatView,
};
use crate::app::front::{
    add_effect, add_when, effect_views, given, no_effects, nothing, one, user_segment, App, AppView,
    Effect, EffectView, NvimState, StepView,
};
use crate::app::input_state::{EditState, EditView, InputState, InputView};
use crate::app::layout_cache::{LayoutCache, SplitPrefs};
use crate::app::queue_state::{
    plain_message, queued_views, ModelConfig, QueueState, QueueView, QueuedMessage,
};
use crate::app::session_manager::{header_views, ChatHeader, EntryView, SessionEntry, SessionId};
use crate::app::session_state::{SessionState, SessionStateView};
use crate::app::session_tree::{newest_first, ManagerView, SessionManager};
use crate::app::ui_state::{UiState, UiView};
use crate::chat::history::{
    record_views, segments_from_messages, segments_from_records, segments_of, ConversationRecord,
    RecordView,
};
use crate::chat::segment::{
    message_views, segment_views, ChatSegment, Message, MessageView, SegmentView,
};
use crate::chat::segment_ops::{messages_for_resubmit, messages_of};
use crate::commands::completion::opt_string_view;
use crate::commands::AgentMode;

verus! {

/// A node that the front end is connected to in place of an agent of its own.
#[derive(Debug)]
pub struct NodeBackend {
    /// The address of the node, such as `wss://127.0.0.1:18790/ws`.
    pub url: String,
    /// The token for the node.
    pub token: String,
    /// Certificates are not checked.
    pub insecure: bool,
}

/// A saved chat that was read from its file.
#[derive(Debug)]
pub struct SavedChat {
    pub header: ChatHeader,
    pub messages: Vec<Message>,
}

/// What the front end starts with.
#[derive(Debug)]
pub struct AppOptions {
    pub mode: AgentMode,
    /// The model of the first session.
    pub model: ModelConfig,
    /// The model of later sessions.
    pub default_model: ModelConfig,
    pub initial_prompt: Option<String>,
    /// A conversation to go on with.
    pub initial_history: Vec<ChatSegment>,
    /// The conversation of the log, where there is one that can be read.
    pub logged: Option<Vec<ConversationRecord>>,
    /// The chat that was asked for, where it can be read.
    pub document: Option<SavedChat>,
    /// All saved chats.
    pub saved: Vec<ChatHeader>,
    pub no_nvim: bool,
    pub jsonl_path: Option<String>,
    pub jsonl_load_path: Option<String>,
    /// The log that is kept without being asked for.
    pub auto_log_path: Option<String>,
    pub output_chat_path: Option<String>,
    pub chat_path: Option<String>,
    /// The file of a new chat.
    pub new_chat_path: Option<String>,
    pub initial_queue: Vec<QueuedMessage>,
    pub node_backend: Option<NodeBackend>,
    /// The identifier of the first session.
    pub id: SessionId,
    /// The time, in seconds.
    pub now: i64,
}

/// The first of two that there is.
pub open spec fn first_of<T>(a: Option<T>, b: Option<T>) -> Option<T> {
    if a is Some {
        a
    } else {
        b
    }
}

fn or_else(a: Option<String>, b: Option<String>) -> (r: Option<String>)
    ensures
        opt_string_view(r) == first_of(opt_string_view(a), opt_string_view(b)),
{
    match a {
        Some(x) => Some(x),
        None => b,
    }
}

/// Messages as the segments of a conversation.
pub open spec fn conversation_of(messages: Seq<MessageView>) -> Seq<SegmentView> {
    segments_of(messages.map_values(|m: MessageView| RecordView::Message(m)))
}

/// The first `n` segments at their usual level, as far as that is the lowest.
pub open spec fn folded_levels(segs: Seq<SegmentView>, n: int) -> Seq<(usize, u8)>
    decreases n,
{
    if n <= 0 {
        seq![]
    } else if default_level(segs[n - 1]) == 0 {
        with_level(folded_levels(segs, n - 1), (n - 1) as usize, 0)
    } else {
        folded_levels(segs, n - 1)
    }
}

impl AppOptions {
    /// The conversation that is known without the chat that was asked for: the
    /// log comes before the given one.
    pub open spec fn known(self) -> Seq<SegmentView> {
        match self.logged {
            Some(r) => segments_of(record_views(r@)),
            None => segment_views(self.initial_history@),
        }
    }

    /// The chat that was asked for is shown: nothing else is known.
    pub open spec fn shows_document(self) -> bool {
        self.known().len() == 0 && self.document is Some
    }

    /// The conversation at the start.
    pub open spec fn conversation(self) -> Seq<SegmentView> {
        if self.shows_document() {
            conversation_of(message_views(self.document->0.messages@))
        } else {
            self.known()
        }
    }

    /// The title at the start.
    pub open spec fn title(self) -> Seq<char> {
        if self.shows_document() {
            self.document->0.header.title@
        } else {
            "New chat"@
        }
    }

    /// The first session.
    pub open spec fn first_entry(self) -> EntryView {
        if self.shows_document() {
            let h = self.document->0.header@;
            EntryView {
                status: h.status,
                created_at: h.created_at,
                updated_at: h.updated_at,
                ..EntryView::blank(self.id, h.title, 0)
            }
        } else {
            EntryView::blank(self.id, "New chat"@, self.now)
        }
    }

    /// The sessions at the start: the first one on top of the saved ones.
    pub open spec fn sessions(self) -> ManagerView {
        (ManagerView {
            entries: seq![],
            order: seq![self.id],
            children: seq![],
            active_id: self.id,
            list_selected: 0,
        }).registered(self.first_entry()).loaded(newest_first(header_views(self.saved@))).promoted(
            self.id,
        )
    }

    /// The queue at the start: what was given, and the prompt behind it.
    pub open spec fn queue(self) -> QueueView {
        QueueView {
            messages: queued_views(self.initial_queue@) + match self.initial_prompt {
                Some(p) => seq![plain_message(p@)],
                None => seq![],
            },
            selected: None,
            abort_pending: false,
        }
    }
}

impl AppView {
    /// The state at the start.
    pub open spec fn initial(opts: AppOptions) -> AppView {
        let segs = opts.conversation();
        AppView {
            chat: ChatView {
                segments: segs,
                expand_level: if opts.no_nvim {
                    folded_levels(segs, segs.len() as int)
                } else {
                    seq![]
                },
                ..ChatView::empty()
            },
            input: InputView::empty(),
            edit: EditView::none(),
            queue: opts.queue(),
            ui: UiView::initial(),
            agent: AgentView::idle(),
            nvim: NvimState { disabled: opts.no_nvim, bridge: false },
            prefs: SplitPrefs::initial(),
            layout: LayoutCache::initial(),
            sessions: opts.sessions(),
            session: SessionStateView::fresh(opts.model@, opts.mode),
            default_model: opts.default_model@,
            is_node_proxy: opts.node_backend is Some,
            needs_terminal_recover: false,
            chat_title: opts.title(),
            yaml_path: first_of(
                opt_string_view(opts.output_chat_path),
                first_of(opt_string_view(opts.chat_path), opt_string_view(opts.new_chat_path)),
            ),
            jsonl_path: first_of(
                opt_string_view(opts.jsonl_path),
                first_of(opt_string_view(opts.jsonl_load_path), opt_string_view(opts.auto_log_path)),
            ),
        }
    }
}

fn starting_chat(segments: Vec<ChatSegment>, folded: bool) -> (r: ChatState)
    ensures
        r@ == (ChatView {
            segments: segment_views(segments@),
            expand_level: (if folded {
                folded_levels(segment_views(segments@), segments@.len() as int)
            } else {
                seq![]
            }),
            ..ChatView::empty()
        }),
{
    let ghost segs = segment_views(segments@);
    let mut chat = ChatState::new();
    chat.segments = segments;
    if folded {
        let n: usize = chat.segments.len();
        let mut i: usize = 0;
        while i < n
            invariant
                i <= n,
                n == segs.len(),
                chat@ == (ChatView {
                    segments: segs,
                    expand_level: folded_levels(segs, i as int),
                    ..ChatView::empty()
                }),
            decreases n - i,
        {
            assert(chat@.segments.len() == chat.segments@.len());
            assert(chat@.segments[i as int] == chat.segments@[i as int]@);
            if default_expand_level(&chat.segments[i]) == 0 {
                chat.set_expand_level(i, 0);
            }
            i += 1;
        }
    }
    chat
}

fn starting_queue(given_messages: Vec<QueuedMessage>, prompt: Option<String>) -> (r: QueueState)
    ensures
        r@ == (QueueView {
            messages: queued_views(given_messages@) + (match prompt {
                Some(p) => seq![plain_message(p@)],
                None => seq![],
            }),
            selected: None,
            abort_pending: false,
        }),
{
    let mut q = QueueState::new();
    let ghost before = given_messages@;
    q.messages = given_messages;
    match prompt {
        Some(p) => {
            let m = QueuedMessage::plain(p);
            q.messages.push(m);
            assert(queued_views(q.messages@) =~= queued_views(before) + seq![m@]);
        },
        None => {
            assert(queued_views(q.messages@) =~= queued_views(before) + seq![]);
        },
    }
    q
}

fn starting_sessions(entry: SessionEntry, id: SessionId, saved: Vec<ChatHeader>, now: i64) -> (r:
    SessionManager)
    ensures
        r@ == (ManagerView {
            entries: seq![],
            order: seq![id],
            children: seq![],
            active_id: id,
            list_selected: 0,
        }).registered(entry@).loaded(newest_first(header_views(saved@))).promoted(id),
{
    let (manager, _) = SessionManager::new(id, now);
    let mut m = manager;
    m.register(entry);
    m.load_from_disk(saved);
    m.promote_to_top(id);
    m
}

impl App {
    /// The state at the start.
    pub fn new(opts: AppOptions) -> (r: App)
        ensures
            r@ == AppView::initial(opts),
    {
        let ghost o = opts;
        let known = match &opts.logged {
            Some(records) => segments_from_records(records),
            None => crate::chat::segment_ops::clone_segments(&opts.initial_history),
        };
        assert(segment_views(known@).len() == known@.len());
        let (segments, chat_title, entry) = match opts.document {
            Some(doc) if known.len() == 0 => (
                segments_from_messages(&doc.messages),
                doc.header.title.clone(),
                SessionEntry::from_document_into(&doc.header, opts.id),
            ),
            _ => (
                known,
                "New chat".to_owned(),
                SessionEntry::new_blank(opts.id, "New chat", opts.now),
            ),
        };
        assert(segment_views(segments@) == o.conversation());
        assert(segment_views(segments@).len() == segments@.len());
        let is_node_proxy = opts.node_backend.is_some();
        App {
            chat: starting_chat(segments, opts.no_nvim),
            input: InputState::new(),
            edit: EditState::new(),
            queue: starting_queue(opts.initial_queue, opts.initial_prompt),
            ui: UiState::new(),
            agent: AgentConn::new(),
            nvim: NvimState::new(opts.no_nvim),
            prefs: SplitPrefs::new(),
            layout: LayoutCache::new(),
            sessions: starting_sessions(entry, opts.id, opts.saved, opts.now),
            session: SessionState::new(opts.model, opts.mode),
            default_model: opts.default_model,
            is_node_proxy,
            needs_terminal_recover: false,
            chat_title,
            yaml_path: or_else(
                opts.output_chat_path,
                or_else(opts.chat_path, opts.new_chat_path),
            ),
            jsonl_path: or_else(
                opts.jsonl_path,
                or_else(opts.jsonl_load_path, opts.auto_log_path),
            ),
        }
    }
}

// ── The first things to do ───────────────────────────────────────────────────

impl AppView {
    /// Once an agent is connected: a node is asked for its peers, and the agent
    /// gets to know the conversation so far.
    pub open spec fn agent_ready(self) -> StepView {
        let ms = messages_of(self.chat.segments);
        let some = self.chat.segments.len() > 0;
        StepView {
            app: self.agent_started(self.sessions.active_id),
            effects: nothing() + given(self.is_node_proxy, EffectView::ListPeers) + given(
                some && ms.len() > 0,
                EffectView::LoadHistory(ms),
            ) + given(some, EffectView::Rerender) + given(some, EffectView::ScrollToBottom),
        }
    }

    /// Once the editor runs: it shows the conversation so far.
    pub open spec fn editor_ready(self) -> StepView {
        let some = self.chat.segments.len() > 0;
        StepView {
            app: AppView { nvim: NvimState { bridge: true, ..self.nvim }, ..self },
            effects: nothing() + given(some, EffectView::Rerender) + given(
                some,
                EffectView::ScrollToBottom,
            ),
        }
    }

    /// The first message of the queue sent.
    pub open spec fn first_sent(self) -> StepView {
        if self.queue.messages.len() == 0 {
            StepView { app: self, effects: nothing() }
        } else {
            let m = self.queue.messages[0];
            StepView {
                app: AppView { queue: self.queue.advanced(), ..self }.with_segment(
                    user_segment(m.content),
                ),
                effects: nothing() + one(EffectView::Rerender) + one(EffectView::Send(m)),
            }
        }
    }
}

impl App {
    /// Takes note that an agent is connected.
    pub fn connect_agent(&mut self) -> (r: Vec<Effect>)
        ensures
            final(self)@ == old(self)@.agent_ready().app,
            effect_views(r@) == old(self)@.agent_ready().effects,
    {
        assert(self@.chat.segments.len() == self.chat.segments@.len());
        let some = self.chat.segments.len() > 0;
        let messages = messages_for_resubmit(&self.chat.segments);
        assert(message_views(messages@).len() == messages@.len());
        let known = some && messages.len() > 0;
        self.agent_spawned(self.sessions.active_id);
        let mut out = no_effects();
        add_when(&mut out, self.is_node_proxy, Effect::ListPeers);
        add_when(&mut out, known, Effect::LoadHistory(messages));
        add_when(&mut out, some, Effect::Rerender);
        add_when(&mut out, some, Effect::ScrollToBottom);
        out
    }

    /// Takes note that the editor runs.
    pub fn connect_editor(&mut self) -> (r: Vec<Effect>)
        ensures
            final(self)@ == old(self)@.editor_ready().app,
            effect_views(r@) == old(self)@.editor_ready().effects,
    {
        assert(self@.chat.segments.len() == self.chat.segments@.len());
        let some = self.chat.segments.len() > 0;
        self.nvim.bridge = true;
        let mut out = no_effects();
        add_when(&mut out, some, Effect::Rerender);
        add_when(&mut out, some, Effect::ScrollToBottom);
        out
    }

    /// Sends the first message of the queue.
    pub fn send_first(&mut self) -> (r: Vec<Effect>)
        ensures
            final(self)@ == old(self)@.first_sent().app,
            effect_views(r@) == old(self)@.first_sent().effects,
    {
        let mut out = no_effects();
        if let Some(m) = self.queue.take_next() {
            self.push_user_segment(m.content.as_str());
            add_effect(&mut out, Effect::Rerender);
            add_effect(&mut out, Effect::Send(m));
        }
        out
    }
}

// ── Laws ─────────────────────────────────────────────────────────────────────

/// The front end starts in order.
pub proof fn law_start_is_in_order(opts: AppOptions)
    ensures
        AppView::initial(opts).wf(),
{
    crate::app::editing::lemma_offset(seq![], 0);
}

/// Folding at the start shows every segment at its usual level.
pub proof fn law_start_shows_usual_levels(segs: Seq<SegmentView>, n: int, i: int)
    requires
        0 <= n <= segs.len() <= usize::MAX,
        0 <= i < segs.len(),
    ensures
        crate::app::chat_state::level_at(folded_levels(segs, n), i) matches Some(l) ==> l
            == default_level(segs[i]),
    decreases n,
{
    if n > 0 {
        law_start_shows_usual_levels(segs, n - 1, i);
        if default_level(segs[n - 1]) == 0 {
            crate::app::chat_state::law_level_is_kept(
                folded_levels(segs, n - 1),
                (n - 1) as usize,
                0,
                i as usize,
            );
        }
    }
}

} // verus!
