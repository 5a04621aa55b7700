//! The state of the front end as a whole, and what it asks of the terminal, the
//! agent and the disk. Every step takes an event, changes the state and returns
//! the things to do, in order.

use vstd::prelude::*;

use crate::app::agent_conn::{AgentConn, AgentView};
use crate::app::chat_state::{ChatState, ChatView};
use crate::app::editing::on_boundary;
use crate::app::input_state::{EditState, EditView, InputState, InputView};
use crate::app::layout_cache::{LayoutCache, SplitPrefs};
use crate::app::queue_state::{
    ModelConfig, ModelView, QueueState, QueueView, QueuedMessage, QueuedView,
};
use crate::app::session_manager::SessionId;
use crate::app::session_state::{SessionState, SessionStateView};
use crate::app::session_tree::{ManagerView, SessionManager};
use crate::app::ui_state::{FocusPane, Toast, UiState, UiView};
use crate::chat::segment::{message_views, ChatSegment, Message, MessageView, SegmentView};
use crate::chat::segment_ops::push_segment;
use crate::commands::completion::opt_string_view;
use crate::commands::{ImmediateAction, ImmediateActionView};

verus! {

/// The editor that may show the conversation.
#[derive(Clone, Copy, Debug, PartialEq, Eq, Structural)]
pub struct NvimState {
    /// The editor was switched off.
    pub disabled: bool,
    /// The editor runs and shows the conversation.
    pub bridge: bool,
}

impl NvimState {
    /// The editor before it was started.
    pub fn new(disabled: bool) -> (r: NvimState)
        ensures
            r == (NvimState { disabled, bridge: false }),
    {
        NvimState { disabled, bridge: false }
    }
}

/// The state of the front end.
pub struct App {
    pub chat: ChatState,
    pub input: InputState,
    pub edit: EditState,
    pub queue: QueueState,
    pub ui: UiState,
    pub agent: AgentConn,
    pub nvim: NvimState,
    pub prefs: SplitPrefs,
    pub layout: LayoutCache,
    pub sessions: SessionManager,
    pub session: SessionState,
    /// The model of new sessions.
    pub default_model: ModelConfig,
    /// A node owns the model and the mode.
    pub is_node_proxy: bool,
    /// The terminal may have been disturbed by a tool.
    pub needs_terminal_recover: bool,
    pub chat_title: String,
    pub yaml_path: Option<String>,
    pub jsonl_path: Option<String>,
}

pub struct AppView {
    pub chat: ChatView,
    pub input: InputView,
    pub edit: EditView,
    pub queue: QueueView,
    pub ui: UiView,
    pub agent: AgentView,
    pub nvim: NvimState,
    pub prefs: SplitPrefs,
    pub layout: LayoutCache,
    pub sessions: ManagerView,
    pub session: SessionStateView,
    pub default_model: ModelView,
    pub is_node_proxy: bool,
    pub needs_terminal_recover: bool,
    pub chat_title: Seq<char>,
    pub yaml_path: Option<Seq<char>>,
    pub jsonl_path: Option<Seq<char>>,
}

impl View for App {
    type V = AppView;

    open spec fn view(&self) -> AppView {
        AppView {
            chat: self.chat@,
            input: self.input@,
            edit: self.edit@,
            queue: self.queue@,
            ui: self.ui@,
            agent: self.agent@,
            nvim: self.nvim,
            prefs: self.prefs,
            layout: self.layout,
            sessions: self.sessions@,
            session: self.session@,
            default_model: self.default_model@,
            is_node_proxy: self.is_node_proxy,
            needs_terminal_recover: self.needs_terminal_recover,
            chat_title: self.chat_title@,
            yaml_path: opt_string_view(self.yaml_path),
            jsonl_path: opt_string_view(self.jsonl_path),
        }
    }
}

impl AppView {
    /// Cursors stand between characters, and what is selected exists.
    pub open spec fn wf(self) -> bool {
        &&& on_boundary(self.input.buffer, self.input.cursor)
        &&& on_boundary(self.edit.buffer, self.edit.cursor)
        &&& self.input.history_ok()
        &&& self.queue.selection_ok()
        &&& self.ui.completion matches Some(o) ==> o.selection_ok()
    }
}

// ── What is to be done ───────────────────────────────────────────────────────

/// A thing to do outside the state.
#[derive(Debug)]
pub enum Effect {
    /// Hand the conversation to the editor, if it runs, and draw it again.
    Rerender,
    /// Draw the conversation again.
    Rebuild,
    /// Scroll to the bottom, where new content is followed.
    ScrollToBottom,
    /// Scroll the editor to the bottom.
    EditorToBottom,
    /// Hand keys to the editor.
    EditorInput(String),
    /// Let the editor's text be changed.
    EditorModifiable,
    /// Let the editor show its todo list again.
    EditorTodos,
    /// Save the conversation.
    SaveHistory,
    /// Show the drawn conversation in the pager.
    RefreshPager,
    /// Send a message to the agent.
    Send(QueuedMessage),
    /// Send a conversation and a message to the agent.
    Resubmit(Vec<Message>, QueuedMessage),
    /// Show a message of the user and send it, with the whole conversation.
    Deliver(QueuedMessage),
    /// Stop the turn that is being worked on.
    Abort,
    /// Send a message that waits before all others.
    ForceSubmit(usize),
    /// The agent works on nothing any more.
    BecomeIdle,
    /// Take in a text that the user has sent.
    SubmitText(String),
    /// Send a text, once everything before was done.
    SendText(String),
    /// Take in the text of the editor.
    SubmitBuffer,
    /// Take over what was changed in the editor.
    SyncBuffer,
    /// Offer completions for what is being typed.
    RefreshCompletions,
    /// Scroll to a segment that was folded or unfolded, and highlight it.
    ShowSegment(usize),
    /// Write to the terminal.
    WriteTerminal(String),
    /// Show another session.
    SwitchSession(SessionId),
    /// Show a new session.
    NewSession,
    /// Take a session out.
    DeleteSession(SessionId),
    /// Start an agent for a session.
    SpawnAgent(SessionId),
    /// Let the agent know the conversation so far.
    LoadHistory(Vec<Message>),
    /// Ask the node for its peers.
    ListPeers,
    /// Give the editor a size.
    EditorResize(u16, u16),
    /// Mark a saved chat as archived.
    ArchiveFile(String),
    /// Delete a saved chat.
    DeleteFile(String),
    /// Open the pager, at a line if there is one to go to.
    OpenPager(Option<usize>),
    /// Open the pager with a text.
    OpenNotice(String),
    /// Scroll the pager to a line.
    PagerTo(usize),
    /// Scroll the inspector to a line.
    InspectorTo(usize),
    /// Scroll the pager or the inspector by some lines.
    OverlayScroll(bool),
    /// Search in the lines of the inspector.
    SearchInspector,
    /// Use another model from the next message on.
    StageModel(String),
    /// Do what a command asks for.
    Immediate(ImmediateAction),
}

pub enum EffectView {
    Rerender,
    Rebuild,
    ScrollToBottom,
    EditorToBottom,
    EditorInput(Seq<char>),
    EditorModifiable,
    EditorTodos,
    SaveHistory,
    RefreshPager,
    Send(QueuedView),
    Resubmit(Seq<MessageView>, QueuedView),
    Deliver(QueuedView),
    Abort,
    ForceSubmit(usize),
    BecomeIdle,
    SubmitText(Seq<char>),
    SendText(Seq<char>),
    SubmitBuffer,
    SyncBuffer,
    RefreshCompletions,
    ShowSegment(usize),
    WriteTerminal(Seq<char>),
    SwitchSession(SessionId),
    NewSession,
    DeleteSession(SessionId),
    SpawnAgent(SessionId),
    LoadHistory(Seq<MessageView>),
    ListPeers,
    EditorResize(u16, u16),
    ArchiveFile(Seq<char>),
    DeleteFile(Seq<char>),
    OpenPager(Option<usize>),
    OpenNotice(Seq<char>),
    PagerTo(usize),
    InspectorTo(usize),
    OverlayScroll(bool),
    SearchInspector,
    StageModel(Seq<char>),
    Immediate(ImmediateActionView),
}

impl View for Effect {
    type V = EffectView;

    open spec fn view(&self) -> EffectView {
        match *self {
            Effect::Rerender => EffectView::Rerender,
            Effect::Rebuild => EffectView::Rebuild,
            Effect::ScrollToBottom => EffectView::ScrollToBottom,
            Effect::EditorToBottom => EffectView::EditorToBottom,
            Effect::EditorInput(k) => EffectView::EditorInput(k@),
            Effect::EditorModifiable => EffectView::EditorModifiable,
            Effect::EditorTodos => EffectView::EditorTodos,
            Effect::SaveHistory => EffectView::SaveHistory,
            Effect::RefreshPager => EffectView::RefreshPager,
            Effect::Send(m) => EffectView::Send(m@),
            Effect::Resubmit(h, m) => EffectView::Resubmit(message_views(h@), m@),
            Effect::Deliver(m) => EffectView::Deliver(m@),
            Effect::Abort => EffectView::Abort,
            Effect::ForceSubmit(i) => EffectView::ForceSubmit(i),
            Effect::BecomeIdle => EffectView::BecomeIdle,
            Effect::SubmitText(t) => EffectView::SubmitText(t@),
            Effect::SendText(t) => EffectView::SendText(t@),
            Effect::SubmitBuffer => EffectView::SubmitBuffer,
            Effect::SyncBuffer => EffectView::SyncBuffer,
            Effect::RefreshCompletions => EffectView::RefreshCompletions,
            Effect::ShowSegment(i) => EffectView::ShowSegment(i),
            Effect::WriteTerminal(t) => EffectView::WriteTerminal(t@),
            Effect::SwitchSession(id) => EffectView::SwitchSession(id),
            Effect::NewSession => EffectView::NewSession,
            Effect::DeleteSession(id) => EffectView::DeleteSession(id),
            Effect::SpawnAgent(id) => EffectView::SpawnAgent(id),
            Effect::LoadHistory(h) => EffectView::LoadHistory(message_views(h@)),
            Effect::ListPeers => EffectView::ListPeers,
            Effect::EditorResize(w, h) => EffectView::EditorResize(w, h),
            Effect::ArchiveFile(p) => EffectView::ArchiveFile(p@),
            Effect::DeleteFile(p) => EffectView::DeleteFile(p@),
            Effect::OpenPager(l) => EffectView::OpenPager(l),
            Effect::OpenNotice(t) => EffectView::OpenNotice(t@),
            Effect::PagerTo(l) => EffectView::PagerTo(l),
            Effect::InspectorTo(l) => EffectView::InspectorTo(l),
            Effect::OverlayScroll(up) => EffectView::OverlayScroll(up),
            Effect::SearchInspector => EffectView::SearchInspector,
            Effect::StageModel(m) => EffectView::StageModel(m@),
            Effect::Immediate(a) => EffectView::Immediate(a@),
        }
    }
}

/// The views of things to do.
pub open spec fn effect_views(v: Seq<Effect>) -> Seq<EffectView> {
    v.map_values(|e: Effect| e@)
}

/// Nothing to do.
pub open spec fn nothing() -> Seq<EffectView> {
    seq![]
}

/// One thing to do.
pub open spec fn one(e: EffectView) -> Seq<EffectView> {
    seq![e]
}

/// One thing to do under a condition.
pub open spec fn given(c: bool, e: EffectView) -> Seq<EffectView> {
    if c {
        seq![e]
    } else {
        seq![]
    }
}

/// Things to do, none at first.
pub fn no_effects() -> (r: Vec<Effect>)
    ensures
        effect_views(r@) == nothing(),
{
    let r: Vec<Effect> = Vec::new();
    assert(effect_views(r@) =~= nothing());
    r
}

/// Adds a thing to do.
pub fn add_effect(v: &mut Vec<Effect>, e: Effect)
    ensures
        effect_views(final(v)@) == effect_views(old(v)@) + one(e@),
{
    v.push(e);
    assert(effect_views(v@) =~= effect_views(old(v)@) + one(e@));
}

/// Adds a thing to do under a condition.
pub fn add_when(v: &mut Vec<Effect>, c: bool, e: Effect)
    ensures
        effect_views(final(v)@) == effect_views(old(v)@) + given(c, e@),
{
    if c {
        v.push(e);
    }
    assert(effect_views(v@) =~= effect_views(old(v)@) + given(c, e@));
}

/// The state after a step and the things to do.
pub struct StepView {
    pub app: AppView,
    pub effects: Seq<EffectView>,
}

// ── Common steps ─────────────────────────────────────────────────────────────

/// A text message of the user as a segment.
pub open spec fn user_segment(text: Seq<char>) -> SegmentView {
    SegmentView::Message(
        MessageView {
            role: crate::chat::segment::Role::User,
            content: crate::chat::segment::ContentView::Text(text),
        },
    )
}

/// A text message of the assistant as a segment.
pub open spec fn assistant_segment(text: Seq<char>) -> SegmentView {
    SegmentView::Message(
        MessageView {
            role: crate::chat::segment::Role::Assistant,
            content: crate::chat::segment::ContentView::Text(text),
        },
    )
}

impl AppView {
    /// With a segment behind the others.
    pub open spec fn with_segment(self, seg: SegmentView) -> AppView {
        AppView {
            chat: ChatView { segments: self.chat.segments.push(seg), ..self.chat },
            ..self
        }
    }

    /// A request handed to the agent, which works on it where one is connected.
    pub open spec fn handed_over(self) -> AppView {
        AppView {
            agent: AgentView { busy: self.agent.busy || self.agent.connected, ..self.agent },
            ..self
        }
    }

    /// With nothing that the agent works on.
    pub open spec fn at_rest(self) -> AppView {
        AppView { agent: AgentView { busy: false, current_tool: None, ..self.agent }, ..self }
    }

    /// At the next frame of the animations.
    pub open spec fn ticked(self) -> AppView {
        AppView {
            agent: AgentView {
                anim_frame: ((self.agent.anim_frame + 1) % 0x100) as u8,
                ..self.agent
            },
            ..self
        }
    }

    /// With the pane in focus.
    pub open spec fn focused(self, pane: FocusPane) -> AppView {
        AppView { ui: UiView { focus: pane, ..self.ui }, ..self }
    }

    /// With the focus off the queue where it is empty.
    pub open spec fn off_empty_queue(self) -> AppView {
        if self.queue.messages.len() == 0 && self.ui.focus == FocusPane::Queue {
            self.focused(FocusPane::Input)
        } else {
            self
        }
    }

    /// With the next message taken out of the queue and shown in the chat,
    /// which follows it.
    pub open spec fn advanced(self) -> AppView {
        let next = self.queue.messages[0];
        let shown = (AppView { queue: self.queue.advanced(), ..self }).off_empty_queue().with_segment(
            user_segment(next.content),
        );
        AppView { chat: ChatView { auto_scroll: true, ..shown.chat }, ..shown }
    }

    /// With a notification in the usual colour.
    pub open spec fn informed(self, text: Seq<char>) -> AppView {
        AppView {
            ui: self.ui.notified(
                crate::app::ui_state::ToastView {
                    message: text,
                    color: crate::style::Color::Cyan,
                    born: 0,
                },
            ),
            ..self
        }
    }
}

impl App {
    /// Shows a message of the user.
    pub fn push_user_segment(&mut self, text: &str)
        ensures
            final(self)@ == old(self)@.with_segment(user_segment(text@)),
    {
        push_segment(&mut self.chat.segments, ChatSegment::Message(Message::user(text)));
    }

    /// Takes the focus off the queue where it is empty.
    pub fn leave_empty_queue(&mut self)
        ensures
            final(self)@ == old(self)@.off_empty_queue(),
    {
        assert(self@.queue.messages.len() == self.queue.messages@.len());
        if self.queue.messages.len() == 0 && self.ui.focus == FocusPane::Queue {
            self.ui.focus = FocusPane::Input;
        }
    }

    /// Takes the next message out of the queue and shows it in the chat.
    pub fn advance_queue(&mut self) -> (r: QueuedMessage)
        requires
            old(self)@.queue.messages.len() > 0,
        ensures
            final(self)@ == old(self)@.advanced(),
            r@ == old(self)@.queue.messages[0],
    {
        match self.queue.take_next() {
            Some(next) => {
                self.leave_empty_queue();
                self.push_user_segment(next.content.as_str());
                self.chat.auto_scroll = true;
                next
            },
            None => QueuedMessage::plain(String::new()),
        }
    }

    /// Shows a notification.
    pub fn inform(&mut self, text: &str)
        ensures
            final(self)@ == old(self)@.informed(text@),
    {
        self.ui.push_toast(Toast::info(text.to_owned()));
    }

    /// A request was handed to the agent, as far as one is connected.
    pub fn mark_sent(&mut self)
        ensures
            final(self)@ == (AppView {
                agent: AgentView {
                    busy: old(self).agent.busy || old(self).agent.connected,
                    ..old(self)@.agent
                },
                ..old(self)@
            }),
            final(self)@ == old(self)@.handed_over(),
    {
        if self.agent.connected {
            self.agent.busy = true;
        }
    }

    /// The agent works on nothing any more.
    pub fn become_idle(&mut self)
        ensures
            final(self)@ == (AppView {
                agent: AgentView { busy: false, current_tool: None, ..old(self)@.agent },
                ..old(self)@
            }),
            final(self)@ == old(self)@.at_rest(),
    {
        self.agent.busy = false;
        self.agent.current_tool = None;
    }

    /// Moves the animations on.
    pub fn tick(&mut self)
        ensures
            final(self)@ == (AppView {
                agent: AgentView {
                    anim_frame: ((old(self).agent.anim_frame + 1) % 0x100) as u8,
                    ..old(self)@.agent
                },
                ..old(self)@
            }),
            final(self)@ == old(self)@.ticked(),
    {
        self.agent.anim_frame = if self.agent.anim_frame < 255 {
            self.agent.anim_frame + 1
        } else {
            0
        };
    }
}

} // verus!
