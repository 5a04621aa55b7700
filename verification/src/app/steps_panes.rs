//! Steps between the panes: focus, the queue, the list of chats, the team.

use vstd::prelude::*;

use crate::app::chat_state::{minus, ChatView};
use crate::app::front::{
    add_effect, add_when, effect_views, given, no_effects, nothing, one, App, AppView, Effect,
    EffectView, StepView,
};
use crate::app::input_state::EditView;
use crate::app::layout_cache::{Rect, SplitPrefs};
use crate::app::queue_state::QueueView;
use crate::app::session_manager::{ChatStatus, EntryView, SessionId};
use crate::app::session_tree::ManagerView;
use crate::app::ui_state::{
    AgentPickerStatus, ConfirmModal, ConfirmView, ConfirmedAction, FocusPane, TeamEntryView,
    TeamPickerEntry, UiView,
};
use crate::chat::segment_ops::{messages_for_resubmit, messages_of};
use crate::commands::skill::clone_option;
use crate::commands::AgentMode;
use crate::text::byte_len;
use crate::text::byte_length;

verus! {

// ── Focus ────────────────────────────────────────────────────────────────────

impl AppView {
    /// The segment in the middle of the chat highlighted, and the chat in focus.
    pub open spec fn in_chat(self) -> AppView {
        AppView { chat: self.chat.focused_on_middle(self.layout.chat_height), ..self }.focused(
            FocusPane::Chat,
        )
    }

    /// The queue in focus, with a row selected.
    pub open spec fn in_queue(self) -> AppView {
        AppView { queue: self.queue.entered(), ..self }.focused(FocusPane::Queue)
    }

    /// The list of chats shown and in focus, at the active session.
    pub open spec fn in_chat_list(self) -> AppView {
        AppView {
            prefs: SplitPrefs { chat_list_visible: true, ..self.prefs },
            sessions: self.sessions.synced(),
            ..self
        }.focused(FocusPane::ChatList)
    }

    /// One pane up: from the input to the queue, if there is one, and to the
    /// chat.
    pub open spec fn nav_up(self) -> AppView {
        match self.ui.focus {
            FocusPane::Input => if self.queue.messages.len() > 0 {
                self.in_queue()
            } else {
                self.in_chat()
            },
            FocusPane::Queue => self.in_chat(),
            _ => self,
        }
    }

    /// One pane down.
    pub open spec fn nav_down(self) -> AppView {
        match self.ui.focus {
            FocusPane::Chat | FocusPane::ChatList => if self.queue.messages.len() > 0 {
                self.in_queue()
            } else {
                self.focused(FocusPane::Input)
            },
            FocusPane::Queue => self.focused(FocusPane::Input),
            _ => self,
        }
    }

    /// From the list of chats to the chat.
    pub open spec fn nav_left(self) -> AppView {
        if self.ui.focus == FocusPane::ChatList {
            self.in_chat()
        } else {
            self
        }
    }

    /// To the list of chats.
    pub open spec fn nav_right(self) -> AppView {
        if self.ui.focus == FocusPane::ChatList {
            self
        } else {
            self.in_chat_list()
        }
    }

    /// To the queue, if there is one.
    pub open spec fn to_queue(self) -> AppView {
        if self.queue.messages.len() > 0 {
            self.in_queue()
        } else {
            self
        }
    }

    /// The list of chats shown or hidden; a hidden list has no focus.
    pub open spec fn chat_list_toggled(self) -> AppView {
        let shown = !self.prefs.chat_list_visible;
        let toggled = AppView {
            prefs: SplitPrefs { chat_list_visible: shown, ..self.prefs },
            ..self
        };
        if !shown && self.ui.focus == FocusPane::ChatList {
            toggled.focused(FocusPane::Input)
        } else {
            toggled
        }
    }
}

impl App {
    fn enter_chat(&mut self)
        ensures
            final(self)@ == old(self)@.in_chat(),
    {
        self.ui.focus = FocusPane::Chat;
        self.chat.recompute_focused_segment(self.layout.chat_height);
    }

    fn enter_queue(&mut self)
        ensures
            final(self)@ == old(self)@.in_queue(),
    {
        self.queue.enter();
        self.ui.focus = FocusPane::Queue;
    }

    /// Goes to the list of chats.
    pub fn enter_chat_list(&mut self)
        ensures
            final(self)@ == old(self)@.in_chat_list(),
    {
        self.prefs.chat_list_visible = true;
        self.ui.focus = FocusPane::ChatList;
        self.sessions.sync_list_selection_to_active();
    }

    /// Goes one pane up.
    pub fn focus_up(&mut self)
        ensures
            final(self)@ == old(self)@.nav_up(),
    {
        assert(self@.queue.messages.len() == self.queue.messages@.len());
        match self.ui.focus {
            FocusPane::Input => {
                if self.queue.messages.len() > 0 {
                    self.enter_queue();
                } else {
                    self.enter_chat();
                }
            },
            FocusPane::Queue => {
                self.enter_chat();
            },
            _ => {},
        }
    }

    /// Goes one pane down.
    pub fn focus_down(&mut self)
        ensures
            final(self)@ == old(self)@.nav_down(),
    {
        assert(self@.queue.messages.len() == self.queue.messages@.len());
        match self.ui.focus {
            FocusPane::Chat | FocusPane::ChatList => {
                if self.queue.messages.len() > 0 {
                    self.enter_queue();
                } else {
                    self.ui.focus = FocusPane::Input;
                }
            },
            FocusPane::Queue => {
                self.ui.focus = FocusPane::Input;
            },
            _ => {},
        }
    }

    /// Goes from the list of chats to the chat.
    pub fn focus_left(&mut self)
        ensures
            final(self)@ == old(self)@.nav_left(),
    {
        if self.ui.focus == FocusPane::ChatList {
            self.enter_chat();
        }
    }

    /// Goes to the list of chats.
    pub fn focus_right(&mut self)
        ensures
            final(self)@ == old(self)@.nav_right(),
    {
        if self.ui.focus != FocusPane::ChatList {
            self.enter_chat_list();
        }
    }

    /// Goes to the queue, if there is one.
    pub fn focus_queue(&mut self)
        ensures
            final(self)@ == old(self)@.to_queue(),
    {
        assert(self@.queue.messages.len() == self.queue.messages@.len());
        if self.queue.messages.len() > 0 {
            self.enter_queue();
        }
    }

    /// Shows or hides the list of chats.
    pub fn toggle_chat_list(&mut self)
        ensures
            final(self)@ == old(self)@.chat_list_toggled(),
    {
        self.prefs.chat_list_visible = !self.prefs.chat_list_visible;
        if !self.prefs.chat_list_visible && self.ui.focus == FocusPane::ChatList {
            self.ui.focus = FocusPane::Input;
        }
    }
}

// ── The queue ────────────────────────────────────────────────────────────────

impl AppView {
    /// A message of the queue being edited in the input.
    pub open spec fn editing_queued(self, i: usize) -> AppView {
        let text = self.queue.messages[i as int].content;
        AppView {
            edit: EditView {
                queue_index: Some(i),
                cursor: byte_len(text),
                original_text: Some(text),
                buffer: text,
                ..self.edit
            },
            ..self
        }.focused(FocusPane::Input)
    }

    /// The selected message being edited, if there is one.
    pub open spec fn editing_selected(self) -> AppView {
        match self.queue.selected {
            Some(i) => if i < self.queue.messages.len() {
                self.editing_queued(i)
            } else {
                self
            },
            None => self,
        }
    }

    /// The selected message deleted, and its edit ended.
    pub open spec fn queued_deleted(self) -> AppView {
        match self.queue.selected {
            Some(i) => if i < self.queue.messages.len() {
                let stopped = if self.edit.queue_index == Some(i) {
                    AppView { edit: EditView::none(), ..self }
                } else {
                    self
                };
                (AppView { queue: self.queue.without(i as int), ..stopped }).off_empty_queue()
            } else {
                self
            },
            None => self,
        }
    }

    /// The selected message sent with the whole conversation, while the agent is
    /// idle.
    pub open spec fn queued_submitted(self) -> StepView {
        match self.queue.selected {
            Some(i) => if !self.agent.busy && i < self.queue.messages.len() {
                let m = self.queue.messages[i as int];
                let taken = (AppView {
                    queue: QueueView { abort_pending: false, ..self.queue }.without(i as int),
                    ..self
                }).off_empty_queue();
                let shown = taken.with_segment(crate::app::front::user_segment(m.content));
                StepView {
                    app: AppView {
                        chat: ChatView { auto_scroll: true, ..shown.chat },
                        ..shown
                    },
                    effects: nothing() + one(EffectView::SaveHistory) + one(EffectView::Rerender)
                        + one(EffectView::ScrollToBottom) + one(
                        EffectView::Resubmit(messages_of(self.chat.segments), m),
                    ),
                }
            } else {
                StepView { app: self, effects: nothing() }
            },
            None => StepView { app: self, effects: nothing() },
        }
    }

    /// A click on a message of the queue.
    pub open spec fn queue_clicked(self, i: usize) -> AppView {
        let plain = AppView { chat: self.chat.unselected(), ..self };
        if i < self.queue.messages.len() {
            (AppView {
                queue: QueueView { selected: Some(i), ..self.queue },
                ..plain
            }).editing_queued(i)
        } else {
            plain
        }
    }
}

impl App {
    /// Edits a message of the queue in the input.
    pub fn edit_queued(&mut self, i: usize)
        requires
            i < old(self).queue.messages@.len(),
        ensures
            final(self)@ == old(self)@.editing_queued(i),
    {
        assert(self@.queue.messages[i as int] == self.queue.messages@[i as int]@);
        let text = self.queue.messages[i].content.clone();
        self.edit.queue_index = Some(i);
        self.edit.cursor = byte_length(text.as_str());
        self.edit.original_text = Some(text.clone());
        self.edit.buffer = text;
        self.ui.focus = FocusPane::Input;
    }

    /// Edits the selected message of the queue.
    pub fn edit_selected(&mut self)
        ensures
            final(self)@ == old(self)@.editing_selected(),
    {
        assert(self@.queue.messages.len() == self.queue.messages@.len());
        if let Some(i) = self.queue.selected {
            if i < self.queue.messages.len() {
                self.edit_queued(i);
            }
        }
    }

    /// Deletes the selected message of the queue.
    pub fn delete_queued(&mut self)
        ensures
            final(self)@ == old(self)@.queued_deleted(),
    {
        assert(self@.queue.messages.len() == self.queue.messages@.len());
        if let Some(i) = self.queue.selected {
            if i < self.queue.messages.len() {
                if self.edit.queue_index == Some(i) {
                    self.edit.clear();
                }
                let _ = self.queue.take(i);
                self.leave_empty_queue();
            }
        }
    }

    /// Sends the selected message of the queue, while the agent is idle.
    pub fn submit_selected(&mut self) -> (r: Vec<Effect>)
        ensures
            final(self)@ == old(self)@.queued_submitted().app,
            effect_views(r@) == old(self)@.queued_submitted().effects,
    {
        let mut out = no_effects();
        assert(self@.queue.messages.len() == self.queue.messages@.len());
        if let Some(i) = self.queue.selected {
            if !self.agent.busy && i < self.queue.messages.len() {
                self.queue.abort_pending = false;
                let m = self.queue.take(i);
                self.leave_empty_queue();
                let history = messages_for_resubmit(&self.chat.segments);
                self.push_user_segment(m.content.as_str());
                self.chat.auto_scroll = true;
                add_effect(&mut out, Effect::SaveHistory);
                add_effect(&mut out, Effect::Rerender);
                add_effect(&mut out, Effect::ScrollToBottom);
                add_effect(&mut out, Effect::Resubmit(history, m));
            }
        }
        out
    }

    /// Takes in a click on a message of the queue.
    pub fn click_queue(&mut self, i: usize)
        ensures
            final(self)@ == old(self)@.queue_clicked(i),
    {
        assert(self@.queue.messages.len() == self.queue.messages@.len());
        self.chat.clear_selection();
        if i < self.queue.messages.len() {
            self.queue.selected = Some(i);
            self.edit_queued(i);
        }
    }
}

// ── Sizes ────────────────────────────────────────────────────────────────────

impl AppView {
    /// The input one row higher, up to its maximum.
    pub open spec fn input_grown(self) -> AppView {
        AppView {
            prefs: SplitPrefs {
                input_height: (if self.prefs.input_height + 1 > 20 {
                    20
                } else {
                    self.prefs.input_height + 1
                }) as u16,
                ..self.prefs
            },
            ..self
        }
    }

    /// The input one row lower, down to its minimum.
    pub open spec fn input_shrunk(self) -> AppView {
        AppView {
            prefs: SplitPrefs {
                input_height: (if self.prefs.input_height - 1 < 3 {
                    3
                } else {
                    self.prefs.input_height - 1
                }) as u16,
                ..self.prefs
            },
            ..self
        }
    }
}

impl App {
    /// Makes the input one row higher.
    pub fn grow_input(&mut self)
        ensures
            final(self)@ == old(self)@.input_grown(),
    {
        self.prefs.input_height = if self.prefs.input_height >= 20 {
            20
        } else {
            self.prefs.input_height + 1
        };
    }

    /// Makes the input one row lower.
    pub fn shrink_input(&mut self)
        ensures
            final(self)@ == old(self)@.input_shrunk(),
    {
        self.prefs.input_height = if self.prefs.input_height <= 3 {
            3
        } else {
            self.prefs.input_height - 1
        };
    }
}

// ── The list of chats ────────────────────────────────────────────────────────

/// The first visible entry of a list in a pane, so that the selected one can be
/// seen. A focused pane keeps a row for a hint.
pub open spec fn list_scroll(pane: Rect, focused: bool, selected: int) -> int {
    let hint: int = if focused && pane.height >= 3 {
        1
    } else {
        0
    };
    let visible = minus(pane.height as int, 2 + hint);
    if selected >= visible {
        selected + 1 - visible
    } else {
        0
    }
}

fn first_visible(pane: Rect, focused: bool, selected: usize) -> (r: usize)
    requires
        selected < usize::MAX,
    ensures
        r == list_scroll(pane, focused, selected as int),
{
    let hint: usize = if focused && pane.height >= 3 {
        1
    } else {
        0
    };
    let visible: usize = (pane.height as usize).saturating_sub(2 + hint);
    if selected >= visible {
        selected + 1 - visible
    } else {
        0
    }
}

/// The question whether to delete a chat.
pub open spec fn delete_question(title: Seq<char>, is_active: bool) -> Seq<char> {
    "Delete \""@ + title + if is_active {
        "\"? You will be switched to another chat."@
    } else {
        "\"?"@
    }
}

impl AppView {
    /// The first visible entry of the list of chats.
    pub open spec fn chat_list_scroll(self) -> int {
        list_scroll(
            self.layout.chat_list_pane,
            self.ui.focus == FocusPane::ChatList,
            self.sessions.list_selected as int,
        )
    }

    /// The session of the selected row.
    pub open spec fn selected_session(self) -> Option<SessionId> {
        if self.sessions.list_selected < self.sessions.rows().len() {
            Some(self.sessions.rows()[self.sessions.list_selected as int].0)
        } else {
            None
        }
    }

    /// The selected session shown.
    pub open spec fn list_activated(self) -> StepView {
        match self.selected_session() {
            Some(id) => StepView {
                app: self.focused(FocusPane::Input),
                effects: nothing() + given(
                    id != self.sessions.active_id,
                    EffectView::SwitchSession(id),
                ),
            },
            None => StepView { app: self, effects: nothing() },
        }
    }

    /// A click on a row of the list: the row as it was drawn, or the last.
    pub open spec fn list_clicked(self, inner_row: usize) -> StepView {
        let rows = self.sessions.rows();
        let at = inner_row + self.chat_list_scroll();
        let last = minus(rows.len() as int, 1);
        let i = if at < last {
            at
        } else {
            last
        };
        StepView {
            app: AppView {
                sessions: ManagerView { list_selected: i as usize, ..self.sessions },
                ..self
            }.focused(FocusPane::Input),
            effects: if i < rows.len() {
                nothing() + given(
                    rows[i].0 != self.sessions.active_id,
                    EffectView::SwitchSession(rows[i].0),
                )
            } else {
                nothing()
            },
        }
    }

    /// The question whether to delete the selected chat.
    pub open spec fn delete_asked(self) -> AppView {
        match self.selected_session() {
            Some(id) => AppView {
                ui: UiView {
                    confirm_modal: Some(
                        ConfirmView {
                            title: "Delete chat"@,
                            message: delete_question(
                                if self.sessions.has(id) {
                                    self.sessions.entry(id).title
                                } else {
                                    "Untitled"@
                                },
                                id == self.sessions.active_id,
                            ),
                            labels: Some((" Delete "@, " Cancel "@)),
                            focused_button: 0,
                            action: Some(ConfirmedAction::DeleteChat(id)),
                            border_color: None,
                        },
                    ),
                    ..self.ui
                },
                ..self
            },
            None => self,
        }
    }

    /// The selected chat archived.
    pub open spec fn list_archived(self) -> StepView {
        match self.selected_session() {
            Some(id) => StepView {
                app: AppView {
                    sessions: if self.sessions.has(id) {
                        self.sessions.with(
                            EntryView {
                                status: ChatStatus::Archived,
                                ..self.sessions.entry(id)
                            },
                        )
                    } else {
                        self.sessions
                    },
                    ..self
                }.informed("Chat archived"@),
                effects: if self.sessions.has(id) {
                    match self.sessions.entry(id).yaml_path {
                        Some(p) => nothing() + one(EffectView::ArchiveFile(p)),
                        None => nothing(),
                    }
                } else {
                    nothing()
                },
            },
            None => StepView { app: self, effects: nothing() },
        }
    }
}

impl App {
    /// The first visible entry of the list of chats.
    pub fn chat_list_scroll_offset(&self) -> (r: usize)
        requires
            self.sessions.list_selected < usize::MAX,
        ensures
            r == self@.chat_list_scroll(),
    {
        first_visible(
            self.layout.chat_list_pane,
            self.ui.focus == FocusPane::ChatList,
            self.sessions.list_selected,
        )
    }

    /// The first visible entry of the list of peers.
    pub fn peers_scroll_offset(&self) -> (r: usize)
        requires
            self.ui.peers_selected < usize::MAX,
        ensures
            r == list_scroll(
                self@.layout.peers_pane,
                self@.ui.focus == FocusPane::Peers,
                self@.ui.peers_selected as int,
            ),
    {
        first_visible(
            self.layout.peers_pane,
            self.ui.focus == FocusPane::Peers,
            self.ui.peers_selected,
        )
    }

    fn session_of_row(&self) -> (r: Option<SessionId>)
        ensures
            r == self@.selected_session(),
    {
        let rows = self.sessions.tree_rows();
        if self.sessions.list_selected < rows.len() {
            Some(rows[self.sessions.list_selected].0)
        } else {
            None
        }
    }

    /// Shows the selected session.
    pub fn activate_row(&mut self) -> (r: Vec<Effect>)
        ensures
            final(self)@ == old(self)@.list_activated().app,
            effect_views(r@) == old(self)@.list_activated().effects,
    {
        let mut out = no_effects();
        if let Some(id) = self.session_of_row() {
            add_when(&mut out, id != self.sessions.active_id, Effect::SwitchSession(id));
            self.ui.focus = FocusPane::Input;
        }
        out
    }

    /// Takes in a click on a row of the list of chats.
    pub fn click_row(&mut self, inner_row: usize) -> (r: Vec<Effect>)
        requires
            old(self).sessions.list_selected < usize::MAX,
            inner_row + old(self)@.chat_list_scroll() <= usize::MAX,
        ensures
            final(self)@ == old(self)@.list_clicked(inner_row).app,
            effect_views(r@) == old(self)@.list_clicked(inner_row).effects,
    {
        let mut out = no_effects();
        let at: usize = inner_row + self.chat_list_scroll_offset();
        let rows = self.sessions.tree_rows();
        let last: usize = rows.len().saturating_sub(1);
        let i: usize = if at < last {
            at
        } else {
            last
        };
        self.sessions.list_selected = i;
        if i < rows.len() {
            let id = rows[i].0;
            add_when(&mut out, id != self.sessions.active_id, Effect::SwitchSession(id));
        }
        self.ui.focus = FocusPane::Input;
        out
    }

    /// Asks whether to delete the selected chat.
    pub fn ask_delete(&mut self)
        ensures
            final(self)@ == old(self)@.delete_asked(),
    {
        if let Some(id) = self.session_of_row() {
            let is_active = id == self.sessions.active_id;
            let mut message = "Delete \"".to_owned();
            match self.sessions.get(id) {
                Some(e) => {
                    message.append(e.title.as_str());
                },
                None => {
                    message.append("Untitled");
                },
            }
            if is_active {
                message.append("\"? You will be switched to another chat.");
            } else {
                message.append("\"?");
            }
            let modal = ConfirmModal::question(
                "Delete chat",
                message,
                ConfirmedAction::DeleteChat(id),
                " Delete ",
                " Cancel ",
            );
            self.ui.confirm_modal = Some(modal);
        }
    }

    /// Archives the selected chat.
    pub fn archive_row(&mut self) -> (r: Vec<Effect>)
        ensures
            final(self)@ == old(self)@.list_archived().app,
            effect_views(r@) == old(self)@.list_archived().effects,
    {
        let mut out = no_effects();
        if let Some(id) = self.session_of_row() {
            let path = match self.sessions.get(id) {
                Some(e) => clone_option(&e.yaml_path),
                None => None,
            };
            self.sessions.archive(id);
            if let Some(p) = path {
                add_effect(&mut out, Effect::ArchiveFile(p));
            }
            self.inform("Chat archived");
        }
        out
    }
}

// ── The team ─────────────────────────────────────────────────────────────────

/// The name of a mode.
pub open spec fn mode_name(m: AgentMode) -> Seq<char> {
    match m {
        AgentMode::Research => "research"@,
        AgentMode::Plan => "plan"@,
        AgentMode::Agent => "agent"@,
    }
}

/// The name of a mode.
pub fn mode_text(m: AgentMode) -> (r: &'static str)
    ensures
        r@ == mode_name(m),
{
    match m {
        AgentMode::Research => "research",
        AgentMode::Plan => "plan",
        AgentMode::Agent => "agent",
    }
}

/// The user alone, as a team.
pub open spec fn local_member(mode: AgentMode) -> TeamEntryView {
    TeamEntryView {
        name: "local"@,
        role: mode_name(mode),
        peer_id: seq![],
        status: AgentPickerStatus::Active,
        current_task: None,
        is_local: true,
    }
}

impl AppView {
    /// The team picker opened or closed. Without a team it offers the user alone.
    pub open spec fn team_picker_toggled(self) -> AppView {
        AppView {
            ui: UiView {
                show_help: false,
                team: if self.ui.team.len() == 0 {
                    seq![local_member(self.session.mode)]
                } else {
                    self.ui.team
                },
                show_team_picker: !self.ui.show_team_picker,
                ..self.ui
            },
            ..self
        }
    }

    /// The session of the picked member shown.
    pub open spec fn team_picked(self) -> AppView {
        if self.ui.show_team_picker {
            AppView {
                ui: UiView {
                    active_session_peer: self.ui.picked_peer(),
                    show_team_picker: false,
                    ..self.ui
                },
                ..self
            }
        } else {
            self
        }
    }
}

impl App {
    /// Opens or closes the team picker.
    pub fn open_team_picker(&mut self)
        ensures
            final(self)@ == old(self)@.team_picker_toggled(),
    {
        self.ui.show_help = false;
        assert(self@.ui.team.len() == self.ui.team_picker_entries@.len());
        if self.ui.team_picker_entries.len() == 0 {
            let peer_id = String::new();
            assert(peer_id@ =~= seq![]);
            let me = TeamPickerEntry {
                name: "local".to_owned(),
                role: mode_text(self.session.mode).to_owned(),
                peer_id,
                status: AgentPickerStatus::Active,
                current_task: None,
                is_local: true,
            };
            self.ui.team_picker_entries.push(me);
            assert(crate::app::ui_state::team_views(self.ui.team_picker_entries@) =~= seq![me@]);
        }
        self.ui.toggle_team_picker();
    }

    /// Shows the session of the picked member.
    pub fn pick_member(&mut self)
        ensures
            final(self)@ == old(self)@.team_picked(),
    {
        if self.ui.show_team_picker {
            let peer = match self.ui.team_picker_selected_peer() {
                Some(p) => Some(p.to_owned()),
                None => None,
            };
            self.ui.active_session_peer = peer;
            self.ui.show_team_picker = false;
        }
    }
}

// ── Laws ─────────────────────────────────────────────────────────────────────

/// The selected entry of a list is always among those that can be seen, as long
/// as there is a row for one.
pub proof fn law_selected_entry_is_visible(pane: Rect, focused: bool, selected: int)
    requires
        selected >= 0,
        pane.height >= 4,
    ensures
        ({
            let hint: int = if focused { 1 } else { 0 };
            let first = list_scroll(pane, focused, selected);
            first <= selected < first + pane.height - 2 - hint
        }),
{
}

/// A message that is being edited can be found in the queue.
pub proof fn law_edited_message_exists(v: AppView, i: usize)
    requires
        i < v.queue.messages.len(),
    ensures
        v.queue_clicked(i).edit.queue_index == Some(i),
        v.queue_clicked(i).queue.messages == v.queue.messages,
        v.queue_clicked(i).edit.buffer == v.queue.messages[i as int].content,
        v.queue_clicked(i).ui.focus == FocusPane::Input,
{
}

} // verus!
