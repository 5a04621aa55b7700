//! Actions: what a key or the mouse asks for, and the step that each of them is.

use vstd::prelude::*;

use crate::app::chat_state::ChatView;
use crate::app::editing::{on_boundary, InputEdit};
use crate::app::front::{
    add_effect, add_when, effect_views, given, no_effects, nothing, one, App, AppView, Effect,
    EffectView, StepView,
};
use crate::app::input_state::EditView;
use crate::app::queue_state::QueueView;
use crate::app::session_state::{next_mode, SessionStateView};
use crate::app::ui_state::{next_of, prev_of, ConfirmModal, ConfirmView, FocusPane, UiView};
use crate::chat::segment_ops::{editable_text, with_text_at};
use crate::style::Color;

verus! {

/// The shortcuts of the chat pane.
pub const CHAT_HELP_MESSAGE: &'static str =
    "Navigation\n  j / k       Move highlight down / up\n\nActions (apply to the highlighted message)\n  e / Enter   Edit message\n  y           Copy segment to clipboard\n  Y           Copy all to clipboard\n  x           Remove segment\n  d           Truncate chat from here\n  r           Rerun from this segment\n\nScrolling\n  ^u / ^d     Page up / down\n  g / G       Top / bottom\n\nOther\n  /           Search\n  q           Focus queue panel\n  Space       Toggle delegate summary\n  ?           Show this help";

/// What is shown in place of a task list.
pub const NO_TASK_LIST: &'static str =
    "Task list is not available in this session.\nConnect to a team-enabled sven node to see task details.";

/// A step between the panes, or in their sizes.
#[derive(Clone, Copy, Debug, PartialEq, Eq, Structural)]
pub enum PaneAction {
    FocusInput,
    NavUp,
    NavDown,
    NavLeft,
    NavRight,
    FocusQueue,
    FocusChatList,
    ToggleChatList,
    ResizeChatListGrow,
    ResizeChatListShrink,
    ResizeInputGrow,
    ResizeInputShrink,
}

/// A step that concerns the front end as a whole.
#[derive(Clone, Copy, Debug, PartialEq, Eq, Structural)]
pub enum GlobalAction {
    Help,
    OpenPager,
    ToggleTaskList,
    CycleMode,
    InterruptAgent,
}

/// A step in the list of chats.
#[derive(Clone, Copy, Debug, PartialEq, Eq, Structural)]
pub enum ListAction {
    SelectNext,
    SelectPrev,
    Activate,
    Click { inner_row: usize },
    NewChat,
    DeleteChat,
    ArchiveChat,
}

/// A step in the team.
#[derive(Clone, Copy, Debug, PartialEq, Eq, Structural)]
pub enum TeamAction {
    OpenPicker,
    PickerNext,
    PickerPrev,
    PickerSelect,
    PickerClose,
    CycleForward,
    CycleBackward,
}

/// A step in the queue.
#[derive(Clone, Copy, Debug, PartialEq, Eq, Structural)]
pub enum QueueAction {
    NavUp,
    NavDown,
    EditSelected,
    Delete,
    ForceSubmit,
    SubmitSelected,
    Click { index: usize },
}

/// A step in the chat.
#[derive(Clone, Copy, Debug, PartialEq, Eq, Structural)]
pub enum ChatAction {
    EditMessageAtCursor,
    DeleteChatSegment,
    RemoveChatSegment,
    CopySegment,
    CopyAll,
    RerunFromSegment,
    ChatHighlightDown,
    ChatHighlightUp,
    ShowChatHelp,
    ScrollUp,
    ScrollDown,
    ScrollPageUp,
    ScrollPageDown,
    ScrollTop,
    ScrollBottom,
    ToggleDelegateSummary,
    ChatScrollbarClick { rel_row: u16 },
    ChatContentClick { abs_line: usize, inner_col: u16 },
    SelectionExtend { abs_line: usize, inner_col: u16, mouse_row: u16 },
    SelectionFinish,
    SelectionClear,
    NvimScrollUp,
    NvimScrollDown,
}

/// A step of the search.
#[derive(Clone, Copy, Debug, PartialEq, Eq, Structural)]
pub enum SearchAction {
    Open,
    Close,
    Input(char),
    Backspace,
    NextMatch,
    PrevMatch,
}

/// A step in the input.
#[derive(Clone, Copy, Debug, PartialEq, Eq, Structural)]
pub enum InputAction {
    Edit(InputEdit),
    PageUp,
    PageDown,
    ScrollUp,
    ScrollDown,
    HistoryUp,
    HistoryDown,
    Submit,
    Escape,
    EditMessageConfirm,
    EditMessageCancel,
    SubmitBufferToAgent,
    CompletionNext,
    CompletionPrev,
    CompletionSelect,
    CompletionCancel,
}

/// What a key or the mouse asks for.
#[derive(Clone, Copy, Debug, PartialEq, Eq, Structural)]
pub enum Action {
    /// The first key of a chord.
    NavPrefix,
    Pane(PaneAction),
    Global(GlobalAction),
    List(ListAction),
    Team(TeamAction),
    Queue(QueueAction),
    Chat(ChatAction),
    Search(SearchAction),
    Input(InputAction),
}

/// A state with nothing to do.
pub open spec fn still(app: AppView) -> StepView {
    StepView { app, effects: nothing() }
}

/// A state with one thing to do.
pub open spec fn doing(app: AppView, e: EffectView) -> StepView {
    StepView { app, effects: nothing() + one(e) }
}

fn doing_one(e: Effect) -> (r: Vec<Effect>)
    ensures
        effect_views(r@) == nothing() + one(e@),
{
    let mut out = no_effects();
    add_effect(&mut out, e);
    out
}

// ── Panes ────────────────────────────────────────────────────────────────────

impl AppView {
    /// With the focus, overlays and notifications changed.
    pub open spec fn with_ui(self, ui: UiView) -> AppView {
        AppView { ui, ..self }
    }

    /// The turn of the agent stopped, where there is one; the queue waits then.
    pub open spec fn interrupted(self) -> StepView {
        if self.agent.busy {
            doing(
                AppView { queue: QueueView { abort_pending: true, ..self.queue }, ..self },
                EffectView::Abort,
            )
        } else {
            still(self)
        }
    }

    /// The next mode chosen, unless a node chooses it.
    pub open spec fn mode_cycled(self) -> AppView {
        if self.is_node_proxy {
            self
        } else {
            AppView {
                session: SessionStateView { mode: next_mode(self.session.mode), ..self.session },
                ..self
            }
        }
    }

    /// The task list opened in the pager, or the pager closed.
    pub open spec fn task_list_toggled(self) -> StepView {
        if self.ui.pager_open {
            still(self.with_ui(UiView { pager_open: false, ..self.ui }))
        } else {
            doing(
                self.with_ui(UiView { pager_open: true, ..self.ui }),
                EffectView::OpenNotice(NO_TASK_LIST@),
            )
        }
    }

    /// A step between the panes, or in their sizes.
    #[verifier::opaque]
    pub open spec fn pane_step(self, a: PaneAction) -> AppView {
        match a {
            PaneAction::FocusInput => self.focused(FocusPane::Input),
            PaneAction::NavUp => self.nav_up(),
            PaneAction::NavDown => self.nav_down(),
            PaneAction::NavLeft => self.nav_left(),
            PaneAction::NavRight => self.nav_right(),
            PaneAction::FocusQueue => self.to_queue(),
            PaneAction::FocusChatList => self.in_chat_list(),
            PaneAction::ToggleChatList => self.chat_list_toggled(),
            PaneAction::ResizeChatListGrow => AppView { prefs: self.prefs.list_grown(), ..self },
            PaneAction::ResizeChatListShrink => AppView { prefs: self.prefs.list_shrunk(), ..self },
            PaneAction::ResizeInputGrow => self.input_grown(),
            PaneAction::ResizeInputShrink => self.input_shrunk(),
        }
    }

    /// A step that concerns the front end as a whole.
    #[verifier::opaque]
    pub open spec fn global_step(self, a: GlobalAction) -> StepView {
        match a {
            GlobalAction::Help => still(
                self.with_ui(UiView { show_help: !self.ui.show_help, ..self.ui }),
            ),
            GlobalAction::OpenPager => doing(
                self.with_ui(UiView { pager_open: true, ..self.ui }),
                EffectView::OpenPager(self.ui.search.at()),
            ),
            GlobalAction::ToggleTaskList => self.task_list_toggled(),
            GlobalAction::CycleMode => still(self.mode_cycled()),
            GlobalAction::InterruptAgent => self.interrupted(),
        }
    }

    /// A step in the list of chats.
    #[verifier::opaque]
    pub open spec fn list_step(self, a: ListAction) -> StepView {
        match a {
            ListAction::SelectNext => still(
                AppView { sessions: self.sessions.row_down(), ..self },
            ),
            ListAction::SelectPrev => still(AppView { sessions: self.sessions.row_up(), ..self }),
            ListAction::Activate => self.list_activated(),
            ListAction::Click { inner_row } => self.list_clicked(inner_row),
            ListAction::NewChat => doing(self, EffectView::NewSession),
            ListAction::DeleteChat => still(self.delete_asked()),
            ListAction::ArchiveChat => self.list_archived(),
        }
    }

    /// A step in the team.
    #[verifier::opaque]
    pub open spec fn team_step(self, a: TeamAction) -> AppView {
        match a {
            TeamAction::OpenPicker => self.team_picker_toggled(),
            TeamAction::PickerNext => self.with_ui(
                UiView { picked: next_of(self.ui.picked, self.ui.team.len() as int), ..self.ui },
            ),
            TeamAction::PickerPrev => self.with_ui(
                UiView { picked: prev_of(self.ui.picked, self.ui.team.len() as int), ..self.ui },
            ),
            TeamAction::PickerSelect => self.team_picked(),
            TeamAction::PickerClose => self.with_ui(
                UiView { show_team_picker: false, ..self.ui },
            ),
            TeamAction::CycleForward => self.with_ui(self.ui.cycled_forward()),
            TeamAction::CycleBackward => self.with_ui(self.ui.cycled_backward()),
        }
    }

    /// A step in the list of chats can be taken: the row of a click can be
    /// counted.
    pub open spec fn takes_list(self, a: ListAction) -> bool {
        a matches ListAction::Click { inner_row } ==> {
            &&& self.sessions.list_selected < usize::MAX
            &&& inner_row + self.chat_list_scroll() <= usize::MAX
        }
    }
}

impl App {
    fn interrupt(&mut self) -> (r: Vec<Effect>)
        ensures
            final(self)@ == old(self)@.interrupted().app,
            effect_views(r@) == old(self)@.interrupted().effects,
    {
        if self.agent.busy {
            self.queue.abort_pending = true;
            doing_one(Effect::Abort)
        } else {
            no_effects()
        }
    }

    fn cycle_mode(&mut self)
        ensures
            final(self)@ == old(self)@.mode_cycled(),
    {
        if !self.is_node_proxy {
            self.session.cycle_mode();
        }
    }

    fn toggle_task_list(&mut self) -> (r: Vec<Effect>)
        ensures
            final(self)@ == old(self)@.task_list_toggled().app,
            effect_views(r@) == old(self)@.task_list_toggled().effects,
    {
        if self.ui.pager_open {
            self.ui.pager_open = false;
            no_effects()
        } else {
            self.ui.pager_open = true;
            doing_one(Effect::OpenNotice(NO_TASK_LIST.to_owned()))
        }
    }

    /// Takes a step between the panes, or in their sizes.
    pub fn dispatch_pane(&mut self, a: PaneAction)
        ensures
            final(self)@ == old(self)@.pane_step(a),
    {
        reveal(AppView::pane_step);
        match a {
            PaneAction::FocusInput => {
                self.ui.focus = FocusPane::Input;
            },
            PaneAction::NavUp => self.focus_up(),
            PaneAction::NavDown => self.focus_down(),
            PaneAction::NavLeft => self.focus_left(),
            PaneAction::NavRight => self.focus_right(),
            PaneAction::FocusQueue => self.focus_queue(),
            PaneAction::FocusChatList => self.enter_chat_list(),
            PaneAction::ToggleChatList => self.toggle_chat_list(),
            PaneAction::ResizeChatListGrow => self.prefs.chat_list_grow(),
            PaneAction::ResizeChatListShrink => self.prefs.chat_list_shrink(),
            PaneAction::ResizeInputGrow => self.grow_input(),
            PaneAction::ResizeInputShrink => self.shrink_input(),
        }
    }

    /// Takes a step that concerns the front end as a whole.
    pub fn dispatch_global(&mut self, a: GlobalAction) -> (r: Vec<Effect>)
        ensures
            final(self)@ == old(self)@.global_step(a).app,
            effect_views(r@) == old(self)@.global_step(a).effects,
    {
        reveal(AppView::global_step);
        match a {
            GlobalAction::Help => {
                self.ui.show_help = !self.ui.show_help;
                no_effects()
            },
            GlobalAction::OpenPager => {
                let line = self.ui.search.current_line();
                self.ui.pager_open = true;
                doing_one(Effect::OpenPager(line))
            },
            GlobalAction::ToggleTaskList => self.toggle_task_list(),
            GlobalAction::CycleMode => {
                self.cycle_mode();
                no_effects()
            },
            GlobalAction::InterruptAgent => self.interrupt(),
        }
    }

    /// Takes a step in the list of chats.
    pub fn dispatch_list(&mut self, a: ListAction) -> (r: Vec<Effect>)
        requires
            old(self)@.takes_list(a),
        ensures
            final(self)@ == old(self)@.list_step(a).app,
            effect_views(r@) == old(self)@.list_step(a).effects,
    {
        reveal(AppView::list_step);
        match a {
            ListAction::SelectNext => {
                self.sessions.select_next();
                no_effects()
            },
            ListAction::SelectPrev => {
                self.sessions.select_prev();
                no_effects()
            },
            ListAction::Activate => self.activate_row(),
            ListAction::Click { inner_row } => self.click_row(inner_row),
            ListAction::NewChat => doing_one(Effect::NewSession),
            ListAction::DeleteChat => {
                self.ask_delete();
                no_effects()
            },
            ListAction::ArchiveChat => self.archive_row(),
        }
    }

    /// Takes a step in the team.
    pub fn dispatch_team(&mut self, a: TeamAction)
        ensures
            final(self)@ == old(self)@.team_step(a),
    {
        reveal(AppView::team_step);
        match a {
            TeamAction::OpenPicker => self.open_team_picker(),
            TeamAction::PickerNext => self.ui.team_picker_next(),
            TeamAction::PickerPrev => self.ui.team_picker_prev(),
            TeamAction::PickerSelect => self.pick_member(),
            TeamAction::PickerClose => {
                self.ui.show_team_picker = false;
            },
            TeamAction::CycleForward => {
                let _ = self.ui.cycle_teammate_view_forward();
            },
            TeamAction::CycleBackward => {
                let _ = self.ui.cycle_teammate_view_backward();
            },
        }
    }
}

// ── The queue ────────────────────────────────────────────────────────────────

impl AppView {
    /// A step in the queue.
    #[verifier::opaque]
    pub open spec fn queue_step(self, a: QueueAction) -> StepView {
        match a {
            QueueAction::NavUp => still(AppView { queue: self.queue.up(), ..self }),
            QueueAction::NavDown => still(AppView { queue: self.queue.down(), ..self }),
            QueueAction::EditSelected => still(self.editing_selected()),
            QueueAction::Delete => still(self.queued_deleted()),
            QueueAction::ForceSubmit => match self.queue.selected {
                Some(i) => doing(self, EffectView::ForceSubmit(i)),
                None => still(self),
            },
            QueueAction::SubmitSelected => self.queued_submitted(),
            QueueAction::Click { index } => still(self.queue_clicked(index)),
        }
    }
}

impl App {
    /// Takes a step in the queue.
    pub fn dispatch_queue(&mut self, a: QueueAction) -> (r: Vec<Effect>)
        ensures
            final(self)@ == old(self)@.queue_step(a).app,
            effect_views(r@) == old(self)@.queue_step(a).effects,
    {
        reveal(AppView::queue_step);
        match a {
            QueueAction::NavUp => {
                self.queue.select_up();
                no_effects()
            },
            QueueAction::NavDown => {
                self.queue.select_down();
                no_effects()
            },
            QueueAction::EditSelected => {
                self.edit_selected();
                no_effects()
            },
            QueueAction::Delete => {
                self.delete_queued();
                no_effects()
            },
            QueueAction::ForceSubmit => match self.queue.selected {
                Some(i) => doing_one(Effect::ForceSubmit(i)),
                None => no_effects(),
            },
            QueueAction::SubmitSelected => self.submit_selected(),
            QueueAction::Click { index } => {
                self.click_queue(index);
                no_effects()
            },
        }
    }
}

// ── The chat ─────────────────────────────────────────────────────────────────

impl AppView {
    /// The shortcuts of the chat shown.
    pub open spec fn chat_help_shown(self) -> AppView {
        self.with_ui(
            UiView {
                confirm_modal: Some(
                    ConfirmView {
                        title: "Chat shortcuts"@,
                        message: CHAT_HELP_MESSAGE@,
                        labels: None,
                        focused_button: 0,
                        action: None,
                        border_color: Some(Color::Green),
                    },
                ),
                ..self.ui
            },
        )
    }

    /// Keys handed to the editor, where it shows the conversation.
    pub open spec fn editor_scrolled(self, keys: Seq<char>) -> StepView {
        StepView {
            app: self,
            effects: nothing() + given(self.nvim.bridge, EffectView::EditorInput(keys)),
        }
    }

    /// A step in the chat.
    #[verifier::opaque]
    pub open spec fn chat_step(self, a: ChatAction) -> StepView {
        match a {
            ChatAction::EditMessageAtCursor => self.editing_segment(),
            ChatAction::DeleteChatSegment => self.cut_at_highlight(),
            ChatAction::RemoveChatSegment => self.highlight_removed(),
            ChatAction::CopySegment => self.segment_copied(),
            ChatAction::CopyAll => self.all_copied(),
            ChatAction::RerunFromSegment => self.rerun(),
            ChatAction::ChatHighlightDown => still(self.highlight_down()),
            ChatAction::ChatHighlightUp => still(self.highlight_up()),
            ChatAction::ShowChatHelp => still(self.chat_help_shown()),
            ChatAction::ScrollUp => self.scrolled_up(1, "<C-y>"@),
            ChatAction::ScrollDown => self.scrolled_down(1, "<C-e>"@),
            ChatAction::ScrollPageUp => self.scrolled_up(self.layout.chat_height / 2, "<C-u>"@),
            ChatAction::ScrollPageDown => self.scrolled_down(
                self.layout.chat_height / 2,
                "<C-d>"@,
            ),
            ChatAction::ScrollTop => self.at_top(),
            ChatAction::ScrollBottom => self.following(),
            ChatAction::ToggleDelegateSummary => self.summary_toggled(),
            ChatAction::ChatScrollbarClick { rel_row } => still(self.scrollbar_clicked(rel_row)),
            ChatAction::ChatContentClick { abs_line, inner_col } => self.content_clicked(
                abs_line,
                inner_col,
            ),
            ChatAction::SelectionExtend { abs_line, inner_col, mouse_row } => still(
                self.selection_drawn(abs_line, inner_col, mouse_row),
            ),
            ChatAction::SelectionFinish => self.selection_copied(),
            ChatAction::SelectionClear => still(
                AppView { chat: self.chat.unselected(), ..self },
            ),
            ChatAction::NvimScrollUp => self.editor_scrolled("<C-y>"@),
            ChatAction::NvimScrollDown => self.editor_scrolled("<C-e>"@),
        }
    }

    /// A step in the chat can be taken: what is taken out leaves the folding of
    /// the rest countable, and the lines scrolled by can be counted.
    pub open spec fn takes_chat(self, a: ChatAction) -> bool {
        match a {
            ChatAction::RemoveChatSegment => self.can_remove(),
            ChatAction::SelectionExtend { mouse_row, .. } => self.can_draw(mouse_row),
            ChatAction::ScrollDown => self.nvim.bridge || self.chat.scroll_offset < u16::MAX,
            ChatAction::ScrollPageDown => self.nvim.bridge || self.chat.scroll_offset
                + self.layout.chat_height / 2 <= u16::MAX,
            _ => true,
        }
    }
}

impl App {
    fn show_chat_help(&mut self)
        ensures
            final(self)@ == old(self)@.chat_help_shown(),
    {
        let modal = ConfirmModal::info_with_border(
            "Chat shortcuts",
            CHAT_HELP_MESSAGE,
            Color::Green,
        );
        self.ui.confirm_modal = Some(modal);
    }

    fn scroll_editor(&self, keys: &str) -> (r: Vec<Effect>)
        ensures
            effect_views(r@) == self@.editor_scrolled(keys@).effects,
    {
        let mut out = no_effects();
        add_when(&mut out, self.nvim.bridge, Effect::EditorInput(keys.to_owned()));
        out
    }

    /// Takes a step in the chat.
    pub fn dispatch_chat(&mut self, a: ChatAction) -> (r: Vec<Effect>)
        requires
            old(self)@.takes_chat(a),
        ensures
            final(self)@ == old(self)@.chat_step(a).app,
            effect_views(r@) == old(self)@.chat_step(a).effects,
    {
        reveal(AppView::chat_step);
        match a {
            ChatAction::EditMessageAtCursor => self.edit_segment(),
            ChatAction::DeleteChatSegment => self.cut_conversation(),
            ChatAction::RemoveChatSegment => self.remove_highlighted(),
            ChatAction::CopySegment => self.copy_segment_to_clipboard(),
            ChatAction::CopyAll => self.copy_all_to_clipboard(),
            ChatAction::RerunFromSegment => self.rerun_from_highlight(),
            ChatAction::ChatHighlightDown => {
                self.move_highlight_down();
                no_effects()
            },
            ChatAction::ChatHighlightUp => {
                self.move_highlight_up();
                no_effects()
            },
            ChatAction::ShowChatHelp => {
                self.show_chat_help();
                no_effects()
            },
            ChatAction::ScrollUp => self.scroll_up(1, "<C-y>"),
            ChatAction::ScrollDown => self.scroll_down(1, "<C-e>"),
            ChatAction::ScrollPageUp => self.scroll_up(self.layout.chat_height / 2, "<C-u>"),
            ChatAction::ScrollPageDown => self.scroll_down(self.layout.chat_height / 2, "<C-d>"),
            ChatAction::ScrollTop => self.scroll_to_top(),
            ChatAction::ScrollBottom => self.follow(),
            ChatAction::ToggleDelegateSummary => self.toggle_summary(),
            ChatAction::ChatScrollbarClick { rel_row } => {
                self.click_scrollbar(rel_row);
                no_effects()
            },
            ChatAction::ChatContentClick { abs_line, inner_col } => self.click_content(
                abs_line,
                inner_col,
            ),
            ChatAction::SelectionExtend { abs_line, inner_col, mouse_row } => {
                self.draw_selection(abs_line, inner_col, mouse_row);
                no_effects()
            },
            ChatAction::SelectionFinish => self.copy_selection_to_clipboard(),
            ChatAction::SelectionClear => {
                self.chat.clear_selection();
                no_effects()
            },
            ChatAction::NvimScrollUp => self.scroll_editor("<C-y>"),
            ChatAction::NvimScrollDown => self.scroll_editor("<C-e>"),
        }
    }
}

// ── The search ───────────────────────────────────────────────────────────────

impl AppView {
    /// A step of the search.
    #[verifier::opaque]
    pub open spec fn search_step(self, a: SearchAction) -> StepView {
        match a {
            SearchAction::Open => still(self.search_opened()),
            SearchAction::Close => self.search_closed(),
            SearchAction::Input(c) => self.search_typed(c),
            SearchAction::Backspace => self.search_shortened(),
            SearchAction::NextMatch => self.search_next(),
            SearchAction::PrevMatch => self.search_prev(),
        }
    }
}

impl App {
    /// Takes a step of the search.
    pub fn dispatch_search(&mut self, a: SearchAction) -> (r: Vec<Effect>)
        ensures
            final(self)@ == old(self)@.search_step(a).app,
            effect_views(r@) == old(self)@.search_step(a).effects,
    {
        reveal(AppView::search_step);
        match a {
            SearchAction::Open => {
                self.open_search();
                no_effects()
            },
            SearchAction::Close => self.close_search(),
            SearchAction::Input(c) => self.type_search(c),
            SearchAction::Backspace => self.shorten_search(),
            SearchAction::NextMatch => self.next_match(),
            SearchAction::PrevMatch => self.prev_match(),
        }
    }
}

// ── The input ────────────────────────────────────────────────────────────────

impl AppView {
    /// A step in the input. What is edited in place takes the keys, where there
    /// is something.
    #[verifier::opaque]
    pub open spec fn input_step(self, a: InputAction) -> StepView {
        match a {
            InputAction::Edit(op) => if self.edit.is_active() {
                self.edit_typed(op)
            } else {
                self.typed(op)
            },
            InputAction::PageUp => still(self.paged_up()),
            InputAction::PageDown => still(self.paged_down()),
            InputAction::ScrollUp => still(self.wheeled(true)),
            InputAction::ScrollDown => still(self.wheeled(false)),
            InputAction::HistoryUp => still(
                AppView { input: self.input.showing_older(), ..self },
            ),
            InputAction::HistoryDown => still(
                AppView { input: self.input.showing_newer(), ..self },
            ),
            InputAction::Submit => self.submitted(),
            InputAction::Escape => self.escaped(),
            InputAction::EditMessageConfirm => self.edit_confirmed(),
            InputAction::EditMessageCancel => self.edit_cancelled(),
            InputAction::SubmitBufferToAgent => StepView {
                app: self,
                effects: nothing() + given(
                    !self.agent.busy && self.nvim.bridge,
                    EffectView::SubmitBuffer,
                ),
            },
            InputAction::CompletionNext => self.completion_next(),
            InputAction::CompletionPrev => still(self.completion_prev()),
            InputAction::CompletionSelect => self.completion_taken(),
            InputAction::CompletionCancel => still(self.unoffered()),
        }
    }

    /// A step in the input can be taken: where it depends on a cursor, that
    /// stands between characters; and where it goes on from a message of the
    /// history, that exists.
    pub open spec fn takes_input(self, a: InputAction) -> bool {
        match a {
            InputAction::Edit(_) => if self.edit.is_active() {
                on_boundary(self.edit.buffer, self.edit.cursor)
            } else {
                on_boundary(self.input.buffer, self.input.cursor) && self.input.shown_exists()
            },
            InputAction::HistoryUp => self.input.shown_exists(),
            InputAction::CompletionNext | InputAction::CompletionSelect => on_boundary(
                self.input.buffer,
                self.input.cursor,
            ),
            _ => true,
        }
    }
}

impl App {
    fn submit_buffer_if_idle(&self) -> (r: Vec<Effect>)
        ensures
            effect_views(r@) == nothing() + given(
                !self@.agent.busy && self@.nvim.bridge,
                EffectView::SubmitBuffer,
            ),
    {
        let mut out = no_effects();
        add_when(&mut out, !self.agent.busy && self.nvim.bridge, Effect::SubmitBuffer);
        out
    }

    /// Takes a step in the input.
    pub fn dispatch_input(&mut self, a: InputAction) -> (r: Vec<Effect>)
        requires
            old(self)@.takes_input(a),
        ensures
            final(self)@ == old(self)@.input_step(a).app,
            effect_views(r@) == old(self)@.input_step(a).effects,
    {
        reveal(AppView::input_step);
        match a {
            InputAction::Edit(op) => {
                if self.edit.active() {
                    self.type_edit(op)
                } else {
                    self.type_input(op)
                }
            },
            InputAction::PageUp => {
                self.page_input_up();
                no_effects()
            },
            InputAction::PageDown => {
                self.page_input_down();
                no_effects()
            },
            InputAction::ScrollUp => {
                self.wheel_input(true);
                no_effects()
            },
            InputAction::ScrollDown => {
                self.wheel_input(false);
                no_effects()
            },
            InputAction::HistoryUp => {
                self.show_older();
                no_effects()
            },
            InputAction::HistoryDown => {
                self.show_newer();
                no_effects()
            },
            InputAction::Submit => self.submit(),
            InputAction::Escape => self.escape(),
            InputAction::EditMessageConfirm => self.confirm_edit(),
            InputAction::EditMessageCancel => self.cancel_edit(),
            InputAction::SubmitBufferToAgent => self.submit_buffer_if_idle(),
            InputAction::CompletionNext => self.next_completion(),
            InputAction::CompletionPrev => {
                self.prev_completion();
                no_effects()
            },
            InputAction::CompletionSelect => self.take_completion(),
            InputAction::CompletionCancel => {
                self.ui.completion = None;
                no_effects()
            },
        }
    }
}

// ── All of them ──────────────────────────────────────────────────────────────

impl AppView {
    /// The step that an action is.
    #[verifier::opaque]
    pub open spec fn after(self, a: Action) -> StepView {
        match a {
            Action::NavPrefix => still(self),
            Action::Pane(p) => still(self.pane_step(p)),
            Action::Global(g) => self.global_step(g),
            Action::List(l) => self.list_step(l),
            Action::Team(t) => still(self.team_step(t)),
            Action::Queue(q) => self.queue_step(q),
            Action::Chat(c) => self.chat_step(c),
            Action::Search(s) => self.search_step(s),
            Action::Input(i) => self.input_step(i),
        }
    }

    /// An action can be taken.
    pub open spec fn takes(self, a: Action) -> bool {
        match a {
            Action::List(l) => self.takes_list(l),
            Action::Chat(c) => self.takes_chat(c),
            Action::Input(i) => self.takes_input(i),
            _ => true,
        }
    }
}

impl App {
    /// Takes the step that an action is.
    pub fn dispatch(&mut self, action: Action) -> (r: Vec<Effect>)
        requires
            old(self)@.takes(action),
        ensures
            final(self)@ == old(self)@.after(action).app,
            effect_views(r@) == old(self)@.after(action).effects,
    {
        reveal(AppView::after);
        match action {
            Action::NavPrefix => no_effects(),
            Action::Pane(p) => {
                self.dispatch_pane(p);
                no_effects()
            },
            Action::Global(g) => self.dispatch_global(g),
            Action::List(l) => self.dispatch_list(l),
            Action::Team(t) => {
                self.dispatch_team(t);
                no_effects()
            },
            Action::Queue(q) => self.dispatch_queue(q),
            Action::Chat(c) => self.dispatch_chat(c),
            Action::Search(s) => self.dispatch_search(s),
            Action::Input(i) => self.dispatch_input(i),
        }
    }
}

// ── Laws ─────────────────────────────────────────────────────────────────────

impl AppView {
    /// What a list of actions leads to, and all there is to do for them.
    pub open spec fn after_all(self, actions: Seq<Action>) -> StepView
        decreases actions.len(),
    {
        if actions.len() == 0 {
            still(self)
        } else {
            let before = self.after_all(actions.drop_last());
            let next = before.app.after(actions.last());
            StepView { app: next.app, effects: before.effects + next.effects }
        }
    }

    /// `text` is edited in segment `i`, and nothing else is changed from `self`
    /// but the focus.
    spec fn edits_only(self, next: AppView, i: usize, text: Seq<char>) -> bool {
        &&& next.edit.message_index == Some(i)
        &&& next.edit.queue_index is None
        &&& next.edit.original_text == Some(text)
        &&& next == AppView {
            edit: next.edit,
            chat: ChatView {
                segments: with_text_at(self.chat.segments, i as int, next.edit.buffer),
                ..self.chat
            },
            ..self.focused(FocusPane::Input)
        }
    }
}

/// All there is to do is to draw: nothing is sent, saved or started.
pub open spec fn only_draws(effects: Seq<EffectView>) -> bool {
    forall|i: int|
        0 <= i < effects.len() ==> (#[trigger] effects[i]) is Rebuild || effects[i] is Rerender
}

/// The keys of an edit: the highlighted segment is taken up, and then typed in.
pub open spec fn edit_keys(ops: Seq<InputEdit>) -> Seq<Action> {
    seq![Action::Chat(ChatAction::EditMessageAtCursor)] + ops.map_values(
        |op: InputEdit| Action::Input(InputAction::Edit(op)),
    )
}

proof fn lemma_draws_more(a: Seq<EffectView>, b: Seq<EffectView>)
    requires
        only_draws(a),
        only_draws(b),
    ensures
        only_draws(a + b),
{
    assert forall|i: int| 0 <= i < (a + b).len() implies (#[trigger] (a + b)[i]) is Rebuild || (a
        + b)[i] is Rerender by {
        if i < a.len() {
            assert((a + b)[i] == a[i]);
        } else {
            assert((a + b)[i] == b[i - a.len()]);
        }
    }
}

proof fn lemma_step_edit(v: AppView)
    ensures
        v.after(Action::Chat(ChatAction::EditMessageAtCursor)) == v.editing_segment(),
{
    reveal(AppView::after);
    reveal(AppView::chat_step);
}

proof fn lemma_step_typed(v: AppView, op: InputEdit)
    requires
        v.edit.is_active(),
    ensures
        v.after(Action::Input(InputAction::Edit(op))) == v.edit_typed(op),
{
    reveal(AppView::after);
    reveal(AppView::input_step);
}

proof fn lemma_step_cancel(v: AppView, cancel: InputAction)
    requires
        v.edit.is_active(),
        v.edit.queue_index is None,
        cancel is EditMessageCancel || cancel is Escape,
    ensures
        v.after(Action::Input(cancel)) == v.segment_edit_cancelled(),
{
    reveal(AppView::after);
    reveal(AppView::input_step);
}

proof fn lemma_edit_keys(v: AppView, i: usize, ops: Seq<InputEdit>)
    requires
        v.edit.queue_index is None,
        v.chat.focused_segment == Some(i),
        i < v.chat.segments.len(),
        editable_text(v.chat.segments[i as int]) is Some,
    ensures
        v.edits_only(
            v.after_all(edit_keys(ops)).app,
            i,
            editable_text(v.chat.segments[i as int]).unwrap(),
        ),
        only_draws(v.after_all(edit_keys(ops)).effects),
    decreases ops.len(),
{
    let keys = edit_keys(ops);
    let text = editable_text(v.chat.segments[i as int]).unwrap();
    if ops.len() == 0 {
        lemma_step_edit(v);
        reveal_with_fuel(AppView::after_all, 2);
        assert(keys =~= seq![Action::Chat(ChatAction::EditMessageAtCursor)]);
        assert(keys.drop_last() =~= seq![]);
    } else {
        lemma_edit_keys(v, i, ops.drop_last());
        assert(keys.drop_last() =~= edit_keys(ops.drop_last()));
        assert(keys.last() == Action::Input(InputAction::Edit(ops.last())));
        let before = v.after_all(edit_keys(ops.drop_last()));
        lemma_step_typed(before.app, ops.last());
        let next = before.app.after(keys.last());
        assert(with_text_at(
            with_text_at(v.chat.segments, i as int, before.app.edit.buffer),
            i as int,
            next.app.edit.buffer,
        ) =~= with_text_at(v.chat.segments, i as int, next.app.edit.buffer));
        assert(only_draws(next.effects));
        lemma_draws_more(before.effects, next.effects);
    }
}

/// An edit of a message that is given up, by its own key or by escape, leaves
/// no trace, whatever was typed meanwhile: the conversation reads as before,
/// the input box and the queue are untouched, nothing was sent, and the edit is
/// over. Only the focus is on the input now.
pub proof fn law_cancelled_edit_changes_nothing(
    v: AppView,
    i: usize,
    ops: Seq<InputEdit>,
    cancel: InputAction,
)
    requires
        v.edit.queue_index is None,
        v.chat.focused_segment == Some(i),
        i < v.chat.segments.len(),
        editable_text(v.chat.segments[i as int]) is Some,
        cancel is EditMessageCancel || cancel is Escape,
    ensures
        v.after_all(edit_keys(ops).push(Action::Input(cancel))).app == (AppView {
            edit: EditView::none(),
            ..v.focused(FocusPane::Input)
        }),
        only_draws(v.after_all(edit_keys(ops).push(Action::Input(cancel))).effects),
{
    lemma_edit_keys(v, i, ops);
    let keys = edit_keys(ops).push(Action::Input(cancel));
    assert(keys.drop_last() =~= edit_keys(ops));
    let before = v.after_all(edit_keys(ops));
    lemma_step_cancel(before.app, cancel);
    let next = before.app.after(Action::Input(cancel));
    let text = editable_text(v.chat.segments[i as int]).unwrap();
    assert(with_text_at(
        with_text_at(v.chat.segments, i as int, before.app.edit.buffer),
        i as int,
        text,
    ) =~= v.chat.segments);
    assert(only_draws(next.effects));
    lemma_draws_more(before.effects, next.effects);
}

} // verus!
