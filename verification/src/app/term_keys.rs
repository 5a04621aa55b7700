//! Keys: which part of the front end takes them, and what they do in the
//! modals.

use vstd::prelude::*;

use crate::app::chat_state::ChatView;
use crate::app::dispatch::{doing, still, Action, InputAction, TeamAction};
use crate::app::editing::{apply_edit, edited, is_on_boundary, on_boundary, InputEdit};
use crate::app::front::{
    add_effect, effect_views, no_effects, nothing, one, App, AppView, Effect, EffectView, StepView,
};
use crate::app::session_manager::SessionId;
use crate::app::ui_state::{
    confirm_view, ConfirmModal, ConfirmView, ConfirmedAction, FocusPane, UiView,
};
use crate::input::{is_reserved, is_reserved_key, nvim_notation, to_nvim_notation, KeyCode, KeyEvent};
use crate::text::views;

verus! {

// ── Routing ──────────────────────────────────────────────────────────────────

/// Where the keys are looked up.
#[derive(Clone, Copy, Debug, PartialEq, Eq, Structural)]
pub struct KeyContext {
    pub in_search: bool,
    pub in_input: bool,
    pub pending_nav: bool,
    pub in_edit_mode: bool,
    pub in_queue: bool,
    pub in_chat_list: bool,
}

/// The part of the front end that takes a key.
#[derive(Debug)]
pub enum KeyRoute {
    /// The help closes.
    CloseHelp,
    /// The team picker, with the step that the key is there.
    Team(Option<TeamAction>),
    /// The question of the agent.
    Question,
    /// The question of the front end.
    Confirm,
    /// The inspector; its search where one is active.
    Inspector { in_search: bool },
    /// The pager; its search where one is active.
    Pager { in_search: bool },
    /// The editor, with the key as it writes it.
    Editor(String),
    /// The list of completions.
    Completion(InputAction),
    /// The key map.
    Mapped(KeyContext),
}

pub enum RouteView {
    CloseHelp,
    Team(Option<TeamAction>),
    Question,
    Confirm,
    Inspector { in_search: bool },
    Pager { in_search: bool },
    Editor(Seq<char>),
    Completion(InputAction),
    Mapped(KeyContext),
}

impl View for KeyRoute {
    type V = RouteView;

    open spec fn view(&self) -> RouteView {
        match *self {
            KeyRoute::CloseHelp => RouteView::CloseHelp,
            KeyRoute::Team(a) => RouteView::Team(a),
            KeyRoute::Question => RouteView::Question,
            KeyRoute::Confirm => RouteView::Confirm,
            KeyRoute::Inspector { in_search } => RouteView::Inspector { in_search },
            KeyRoute::Pager { in_search } => RouteView::Pager { in_search },
            KeyRoute::Editor(keys) => RouteView::Editor(keys@),
            KeyRoute::Completion(a) => RouteView::Completion(a),
            KeyRoute::Mapped(c) => RouteView::Mapped(c),
        }
    }
}

/// What a key does in the team picker.
pub open spec fn team_key(k: KeyEvent) -> Option<TeamAction> {
    match k.code {
        KeyCode::Esc => Some(TeamAction::PickerClose),
        KeyCode::Down => Some(TeamAction::PickerNext),
        KeyCode::Up => Some(TeamAction::PickerPrev),
        KeyCode::Enter => Some(TeamAction::PickerSelect),
        KeyCode::Char(c) => if c == 'q' {
            Some(TeamAction::PickerClose)
        } else if c == 'j' {
            Some(TeamAction::PickerNext)
        } else if c == 'k' {
            Some(TeamAction::PickerPrev)
        } else if c == 'a' && k.modifiers.control {
            Some(TeamAction::PickerClose)
        } else {
            None
        },
        _ => None,
    }
}

/// What a key does in the list of completions. Enter with a modifier is left to
/// the input.
pub open spec fn completion_key(k: KeyEvent) -> Option<InputAction> {
    match k.code {
        KeyCode::Enter => if !k.modifiers.shift && !k.modifiers.control && !k.modifiers.alt {
            Some(InputAction::CompletionSelect)
        } else {
            None
        },
        KeyCode::Esc => Some(InputAction::CompletionCancel),
        KeyCode::Down => Some(InputAction::CompletionNext),
        KeyCode::Up => Some(InputAction::CompletionPrev),
        KeyCode::Tab => if !k.modifiers.shift {
            Some(InputAction::CompletionNext)
        } else {
            None
        },
        KeyCode::BackTab => Some(InputAction::CompletionPrev),
        _ => None,
    }
}

/// What a key does in the team picker.
pub fn map_team_key(k: KeyEvent) -> (r: Option<TeamAction>)
    ensures
        r == team_key(k),
{
    match k.code {
        KeyCode::Esc => Some(TeamAction::PickerClose),
        KeyCode::Down => Some(TeamAction::PickerNext),
        KeyCode::Up => Some(TeamAction::PickerPrev),
        KeyCode::Enter => Some(TeamAction::PickerSelect),
        KeyCode::Char(c) => {
            if c == 'q' {
                Some(TeamAction::PickerClose)
            } else if c == 'j' {
                Some(TeamAction::PickerNext)
            } else if c == 'k' {
                Some(TeamAction::PickerPrev)
            } else if c == 'a' && k.modifiers.control {
                Some(TeamAction::PickerClose)
            } else {
                None
            }
        },
        _ => None,
    }
}

/// What a key does in the list of completions.
pub fn map_completion_key(k: KeyEvent) -> (r: Option<InputAction>)
    ensures
        r == completion_key(k),
{
    match k.code {
        KeyCode::Enter => {
            if !k.modifiers.shift && !k.modifiers.control && !k.modifiers.alt {
                Some(InputAction::CompletionSelect)
            } else {
                None
            }
        },
        KeyCode::Esc => Some(InputAction::CompletionCancel),
        KeyCode::Down => Some(InputAction::CompletionNext),
        KeyCode::Up => Some(InputAction::CompletionPrev),
        KeyCode::Tab => {
            if !k.modifiers.shift {
                Some(InputAction::CompletionNext)
            } else {
                None
            }
        },
        KeyCode::BackTab => Some(InputAction::CompletionPrev),
        _ => None,
    }
}

impl AppView {
    /// Where keys are looked up.
    pub open spec fn key_context(self) -> KeyContext {
        KeyContext {
            in_search: self.ui.search.active,
            in_input: self.ui.focus == FocusPane::Input,
            pending_nav: self.ui.pending_nav,
            in_edit_mode: self.edit.is_active(),
            in_queue: self.ui.focus == FocusPane::Queue,
            in_chat_list: self.ui.focus == FocusPane::ChatList,
        }
    }

    /// Keys go to the editor: it shows the conversation, which has the focus.
    pub open spec fn keys_to_editor(self) -> bool {
        self.ui.focus == FocusPane::Chat && !self.ui.search.active && !self.ui.pending_nav
            && self.nvim.bridge
    }

    /// Keys go to the list of completions.
    pub open spec fn keys_to_completions(self) -> bool {
        self.ui.completion is Some && self.ui.focus == FocusPane::Input && !self.ui.search.active
            && !self.ui.pending_nav
    }

    /// The part of the front end that takes a key: the overlays come first, the
    /// topmost before the others, then the editor, the completions and the key
    /// map.
    pub open spec fn route(self, k: KeyEvent) -> RouteView {
        if self.ui.show_help {
            RouteView::CloseHelp
        } else if self.ui.show_team_picker {
            RouteView::Team(team_key(k))
        } else if self.ui.question_open {
            RouteView::Question
        } else if self.ui.confirm_modal is Some {
            RouteView::Confirm
        } else if self.ui.inspector_open {
            RouteView::Inspector { in_search: self.ui.search.active }
        } else if self.ui.pager_open {
            RouteView::Pager { in_search: self.ui.search.active }
        } else if self.keys_to_editor() && !is_reserved(k) && nvim_notation(k) is Some {
            RouteView::Editor(nvim_notation(k)->0)
        } else if self.keys_to_completions() && completion_key(k) is Some {
            RouteView::Completion(completion_key(k)->0)
        } else {
            RouteView::Mapped(self.key_context())
        }
    }

    /// A key that the key map knows taken, or one that it does not know.
    pub open spec fn key_mapped(self, a: Option<Action>) -> StepView {
        let plain = self.with_ui(UiView { pending_nav: false, ..self.ui });
        match a {
            Some(Action::NavPrefix) => still(
                self.with_ui(UiView { pending_nav: true, ..self.ui }),
            ),
            Some(action) => plain.after(action),
            None => still(plain),
        }
    }

    /// A key taken by the part that needs nothing more to do so.
    pub open spec fn key_taken(self, r: RouteView) -> StepView {
        match r {
            RouteView::CloseHelp => still(self.with_ui(UiView { show_help: false, ..self.ui })),
            RouteView::Team(Some(a)) => self.after(Action::Team(a)),
            RouteView::Editor(keys) => doing(self, EffectView::EditorInput(keys)),
            RouteView::Completion(a) => self.with_ui(
                UiView { pending_nav: false, ..self.ui },
            ).after(Action::Input(a)),
            _ => still(self),
        }
    }
}

impl App {
    /// Finds the part of the front end that takes a key.
    pub fn route_key(&self, k: KeyEvent) -> (r: KeyRoute)
        ensures
            r@ == self@.route(k),
    {
        if self.ui.show_help {
            return KeyRoute::CloseHelp;
        }
        if self.ui.show_team_picker {
            return KeyRoute::Team(map_team_key(k));
        }
        if self.ui.question_open {
            return KeyRoute::Question;
        }
        if self.ui.confirm_modal.is_some() {
            return KeyRoute::Confirm;
        }
        let in_search = self.ui.search.active;
        if self.ui.inspector_open {
            return KeyRoute::Inspector { in_search };
        }
        if self.ui.pager_open {
            return KeyRoute::Pager { in_search };
        }
        let in_input = self.ui.focus == FocusPane::Input;
        let pending_nav = self.ui.pending_nav;
        if self.ui.focus == FocusPane::Chat && !in_search && !pending_nav && self.nvim.bridge
            && !is_reserved_key(&k) {
            if let Some(keys) = to_nvim_notation(&k) {
                return KeyRoute::Editor(keys);
            }
        }
        if self.ui.completion.is_some() && in_input && !in_search && !pending_nav {
            if let Some(a) = map_completion_key(k) {
                return KeyRoute::Completion(a);
            }
        }
        KeyRoute::Mapped(
            KeyContext {
                in_search,
                in_input,
                pending_nav,
                in_edit_mode: self.edit.active(),
                in_queue: self.ui.focus == FocusPane::Queue,
                in_chat_list: self.ui.focus == FocusPane::ChatList,
            },
        )
    }

    /// Takes a key that the key map was asked for.
    pub fn press_mapped(&mut self, a: Option<Action>) -> (r: Vec<Effect>)
        requires
            a matches Some(action) ==> old(self)@.with_ui(
                (UiView { pending_nav: false, ..old(self)@.ui }),
            ).takes(action),
        ensures
            final(self)@ == old(self)@.key_mapped(a).app,
            effect_views(r@) == old(self)@.key_mapped(a).effects,
    {
        match a {
            Some(Action::NavPrefix) => {
                self.ui.pending_nav = true;
                no_effects()
            },
            Some(action) => {
                self.ui.pending_nav = false;
                self.dispatch(action)
            },
            None => {
                self.ui.pending_nav = false;
                no_effects()
            },
        }
    }

    /// Takes a key where nothing more is needed to do so.
    pub fn press_routed(&mut self, route: KeyRoute) -> (r: Vec<Effect>)
        requires
            route matches KeyRoute::Completion(a) ==> old(self)@.takes_input(a),
        ensures
            final(self)@ == old(self)@.key_taken(route@).app,
            effect_views(r@) == old(self)@.key_taken(route@).effects,
    {
        match route {
            KeyRoute::CloseHelp => {
                self.ui.show_help = false;
                no_effects()
            },
            KeyRoute::Team(Some(a)) => self.dispatch(Action::Team(a)),
            KeyRoute::Editor(keys) => {
                let mut out = no_effects();
                add_effect(&mut out, Effect::EditorInput(keys));
                out
            },
            KeyRoute::Completion(a) => {
                self.ui.pending_nav = false;
                self.dispatch(Action::Input(a))
            },
            _ => no_effects(),
        }
    }
}

// ── The question of the front end ────────────────────────────────────────────

/// The first session of a list that is another one.
pub open spec fn other_session(order: Seq<SessionId>, id: SessionId, i: int) -> Option<SessionId>
    decreases order.len() - i,
{
    if i < 0 || i >= order.len() {
        None
    } else if order[i] != id {
        Some(order[i])
    } else {
        other_session(order, id, i + 1)
    }
}

/// The other button of a question; a notice has one only.
pub open spec fn other_button(m: ConfirmView) -> usize {
    if m.action is Some && m.focused_button == 0 {
        1
    } else {
        0
    }
}

/// What a key makes of a question, and what is to be done.
pub open spec fn answered(m: ConfirmView, k: KeyCode) -> (
    Option<ConfirmView>,
    Option<ConfirmedAction>,
) {
    match k {
        KeyCode::Esc => (None, None),
        KeyCode::Left | KeyCode::Right | KeyCode::Tab | KeyCode::BackTab => (
            Some(ConfirmView { focused_button: other_button(m), ..m }),
            None,
        ),
        KeyCode::Enter | KeyCode::Char(' ') => (
            None,
            if m.focused_button == 0 {
                m.action
            } else {
                None
            },
        ),
        _ => (Some(m), None),
    }
}

fn answer(m: ConfirmModal, k: KeyCode) -> (r: (Option<ConfirmModal>, Option<ConfirmedAction>))
    ensures
        (confirm_view(r.0), r.1) == answered(m@, k),
{
    let mut m = m;
    match k {
        KeyCode::Esc => (None, None),
        KeyCode::Left | KeyCode::Right | KeyCode::Tab | KeyCode::BackTab => {
            m.focused_button = if m.action.is_some() && m.focused_button == 0 {
                1
            } else {
                0
            };
            (Some(m), None)
        },
        KeyCode::Enter | KeyCode::Char(' ') => {
            if m.focused_button == 0 {
                (None, m.action)
            } else {
                (None, None)
            }
        },
        _ => (Some(m), None),
    }
}

impl AppView {
    /// What was asked about done.
    #[verifier::opaque]
    pub open spec fn confirmed(self, a: ConfirmedAction) -> StepView {
        match a {
            ConfirmedAction::RemoveSegment(i) => AppView {
                chat: ChatView { focused_segment: Some(i), ..self.chat },
                ..self
            }.highlight_removed(),
            ConfirmedAction::DeleteChat(id) => StepView {
                app: self,
                effects: (if id == self.sessions.active_id {
                    nothing() + one(
                        match other_session(self.sessions.order, id, 0) {
                            Some(other) => EffectView::SwitchSession(other),
                            None => EffectView::NewSession,
                        },
                    )
                } else {
                    nothing()
                }) + one(EffectView::DeleteSession(id)),
            },
        }
    }

    /// A key in the question.
    pub open spec fn confirm_pressed(self, k: KeyEvent) -> StepView {
        match self.ui.confirm_modal {
            Some(m) => {
                let (rest, action) = answered(m, k.code);
                let next = self.with_ui(UiView { confirm_modal: rest, ..self.ui });
                match action {
                    Some(a) => next.confirmed(a),
                    None => still(next),
                }
            },
            None => still(self),
        }
    }

    /// What a key asks of the question can be done: where it confirms that a
    /// segment leaves, the levels behind it can move up.
    pub open spec fn can_answer(self, k: KeyEvent) -> bool {
        self.ui.confirm_modal matches Some(m) ==> (answered(m, k.code).1 matches Some(
            ConfirmedAction::RemoveSegment(i),
        ) ==> crate::app::chat_state::levels_can_move(
            self.chat.expand_level,
            crate::app::chat_state::leaving(self.chat.segments, i),
        ))
    }

    /// A session taken out, and its files with it.
    pub open spec fn session_deleted(self, id: SessionId) -> StepView {
        let d = self.sessions.deleted(id);
        let after = AppView { sessions: d.0, ..self };
        StepView {
            app: if d.1 {
                after.informed("Chat deleted"@)
            } else {
                after
            },
            effects: d.2.map_values(|p: Seq<char>| EffectView::DeleteFile(p)),
        }
    }
}

fn find_other_session(order: &Vec<SessionId>, id: SessionId) -> (r: Option<SessionId>)
    ensures
        r == other_session(order@, id, 0),
{
    let mut i: usize = 0;
    while i < order.len()
        invariant
            i <= order@.len(),
            other_session(order@, id, 0) == other_session(order@, id, i as int),
        decreases order.len() - i,
    {
        if order[i] != id {
            return Some(order[i]);
        }
        i += 1;
    }
    None
}

impl App {
    fn confirm(&mut self, a: ConfirmedAction) -> (r: Vec<Effect>)
        requires
            a matches ConfirmedAction::RemoveSegment(i) ==> crate::app::chat_state::levels_can_move(
                old(self)@.chat.expand_level,
                crate::app::chat_state::leaving(old(self)@.chat.segments, i),
            ),
        ensures
            final(self)@ == old(self)@.confirmed(a).app,
            effect_views(r@) == old(self)@.confirmed(a).effects,
    {
        reveal(AppView::confirmed);
        match a {
            ConfirmedAction::RemoveSegment(i) => {
                self.chat.focused_segment = Some(i);
                self.remove_highlighted()
            },
            ConfirmedAction::DeleteChat(id) => {
                let mut out = no_effects();
                if id == self.sessions.active_id {
                    match find_other_session(&self.sessions.display_order, id) {
                        Some(other) => {
                            add_effect(&mut out, Effect::SwitchSession(other));
                        },
                        None => {
                            add_effect(&mut out, Effect::NewSession);
                        },
                    }
                }
                add_effect(&mut out, Effect::DeleteSession(id));
                out
            },
        }
    }

    /// Takes a key in the question of the front end.
    pub fn handle_confirm_modal_key(&mut self, k: KeyEvent) -> (r: Vec<Effect>)
        requires
            old(self)@.can_answer(k),
        ensures
            final(self)@ == old(self)@.confirm_pressed(k).app,
            effect_views(r@) == old(self)@.confirm_pressed(k).effects,
    {
        let modal = self.ui.confirm_modal.take();
        match modal {
            None => no_effects(),
            Some(m) => {
                let (rest, action) = answer(m, k.code);
                self.ui.confirm_modal = rest;
                match action {
                    Some(a) => self.confirm(a),
                    None => no_effects(),
                }
            },
        }
    }

    /// Takes a session out.
    pub fn delete_session(&mut self, id: SessionId) -> (r: Vec<Effect>)
        ensures
            final(self)@ == old(self)@.session_deleted(id).app,
            effect_views(r@) == old(self)@.session_deleted(id).effects,
    {
        let mut files: Vec<String> = Vec::new();
        let ghost want = self@.sessions.deleted(id).2;
        let gone = self.sessions.delete(id, &mut files);
        assert(views(files@) =~= want);
        if gone {
            self.inform("Chat deleted");
        }
        let mut out = no_effects();
        let mut i: usize = 0;
        assert(want.take(0).map_values(|p: Seq<char>| EffectView::DeleteFile(p)) =~= nothing());
        while i < files.len()
            invariant
                views(files@) == want,
                i <= files@.len(),
                effect_views(out@) == want.take(i as int).map_values(
                    |p: Seq<char>| EffectView::DeleteFile(p),
                ),
            decreases files.len() - i,
        {
            assert(want[i as int] == files@[i as int]@);
            add_effect(&mut out, Effect::DeleteFile(files[i].clone()));
            i += 1;
            assert(effect_views(out@) =~= want.take(i as int).map_values(
                |p: Seq<char>| EffectView::DeleteFile(p),
            ));
        }
        assert(want.take(want.len() as int) =~= want);
        out
    }
}

// ── The question of the agent ────────────────────────────────────────────────

/// The answer that is being given to the question of an agent. Behind the
/// options comes an entry for a text of one's own.
#[derive(Debug)]
pub struct QuestionForm {
    /// The question that is being answered.
    pub current_q: usize,
    /// How many options each question has.
    pub option_counts: Vec<usize>,
    /// The option with the focus.
    pub focused_option: usize,
    /// No option is chosen.
    pub none_chosen: bool,
    /// There is a text of one's own.
    pub other_has_text: bool,
    /// The text of one's own is being written.
    pub other_selected: bool,
    pub other_input: String,
    /// The byte offset of the cursor in it.
    pub other_cursor: usize,
}

pub struct FormView {
    pub current_q: usize,
    pub option_counts: Seq<usize>,
    pub focused_option: usize,
    pub none_chosen: bool,
    pub other_has_text: bool,
    pub other_selected: bool,
    pub other_input: Seq<char>,
    pub other_cursor: nat,
}

impl View for QuestionForm {
    type V = FormView;

    open spec fn view(&self) -> FormView {
        FormView {
            current_q: self.current_q,
            option_counts: self.option_counts@,
            focused_option: self.focused_option,
            none_chosen: self.none_chosen,
            other_has_text: self.other_has_text,
            other_selected: self.other_selected,
            other_input: self.other_input@,
            other_cursor: self.other_cursor as nat,
        }
    }
}

/// What a key asks of the question.
#[derive(Clone, Copy, Debug, PartialEq, Eq, Structural)]
pub enum FormCommand {
    Nothing,
    /// Close it without an answer.
    Cancel,
    /// Give up the text of one's own.
    CancelOtherEdit,
    /// Write a text of one's own.
    ActivateOther,
    /// Stop writing it.
    DeactivateOther,
    /// Choose an option, or no longer.
    ToggleOption(usize),
    /// Choose an option, and answer the question.
    ToggleAndSubmit(usize),
    /// Answer the question.
    Submit,
    GoBack,
    FocusPrev,
    FocusNext,
    SelectFocused,
    /// Change the text of one's own.
    EditOther(InputEdit),
}

impl FormView {
    /// The number of options of the question.
    pub open spec fn options(self) -> int {
        if self.current_q < self.option_counts.len() {
            self.option_counts[self.current_q as int] as int
        } else {
            0
        }
    }

    /// What a digit asks for: the option of that number.
    pub open spec fn numbered(self, i: int) -> FormCommand {
        if self.current_q >= self.option_counts.len() {
            FormCommand::Nothing
        } else if i == self.options() {
            FormCommand::ActivateOther
        } else if i < self.options() {
            FormCommand::ToggleOption(i as usize)
        } else {
            FormCommand::Nothing
        }
    }

    /// What a key asks for while an option is chosen.
    pub open spec fn choosing(self, k: KeyCode) -> FormCommand {
        match k {
            KeyCode::Esc => FormCommand::Cancel,
            KeyCode::Enter => if self.focused_option == self.options() && !self.other_has_text {
                FormCommand::ActivateOther
            } else if self.focused_option < self.options() && self.none_chosen {
                FormCommand::ToggleAndSubmit(self.focused_option)
            } else {
                FormCommand::Submit
            },
            KeyCode::Up => if self.focused_option == 0 {
                FormCommand::GoBack
            } else {
                FormCommand::FocusPrev
            },
            KeyCode::Down => FormCommand::FocusNext,
            KeyCode::Char(c) => if c == ' ' {
                FormCommand::SelectFocused
            } else if '1' <= c <= '9' {
                self.numbered(c as int - '1' as int)
            } else {
                FormCommand::Nothing
            },
            _ => FormCommand::Nothing,
        }
    }

    /// What a key asks for while a text of one's own is written.
    pub open spec fn writing(self, k: KeyCode) -> FormCommand {
        match k {
            KeyCode::Esc => FormCommand::CancelOtherEdit,
            KeyCode::Enter => FormCommand::DeactivateOther,
            KeyCode::Char(c) => FormCommand::EditOther(InputEdit::Insert(c)),
            KeyCode::Backspace => FormCommand::EditOther(InputEdit::Backspace),
            KeyCode::Delete => FormCommand::EditOther(InputEdit::Delete),
            KeyCode::Left => FormCommand::EditOther(InputEdit::Left),
            KeyCode::Right => FormCommand::EditOther(InputEdit::Right),
            KeyCode::Home => FormCommand::EditOther(InputEdit::LineStart),
            KeyCode::End => FormCommand::EditOther(InputEdit::LineEnd),
            _ => FormCommand::Nothing,
        }
    }

    /// What a key asks for.
    pub open spec fn command(self, k: KeyCode) -> FormCommand {
        if self.other_selected {
            self.writing(k)
        } else {
            self.choosing(k)
        }
    }

    /// With the text of one's own changed as a command says.
    pub open spec fn with_edit(self, c: FormCommand) -> FormView {
        match c {
            FormCommand::EditOther(op) => {
                let e = edited(self.other_input, self.other_cursor, 0, op);
                FormView { other_input: e.0, other_cursor: e.1, ..self }
            },
            _ => self,
        }
    }
}

impl QuestionForm {
    fn option_count(&self) -> (r: usize)
        ensures
            r == self@.options(),
    {
        if self.current_q < self.option_counts.len() {
            self.option_counts[self.current_q]
        } else {
            0
        }
    }

    fn choose_by_number(&self, i: usize) -> (r: FormCommand)
        ensures
            r == self@.numbered(i as int),
    {
        let n: usize = self.option_count();
        if self.current_q >= self.option_counts.len() {
            FormCommand::Nothing
        } else if i == n {
            FormCommand::ActivateOther
        } else if i < n {
            FormCommand::ToggleOption(i)
        } else {
            FormCommand::Nothing
        }
    }

    fn choose_key(&self, k: KeyCode) -> (r: FormCommand)
        ensures
            r == self@.choosing(k),
    {
        match k {
            KeyCode::Esc => FormCommand::Cancel,
            KeyCode::Enter => {
                let n: usize = self.option_count();
                if self.focused_option == n && !self.other_has_text {
                    FormCommand::ActivateOther
                } else if self.focused_option < n && self.none_chosen {
                    FormCommand::ToggleAndSubmit(self.focused_option)
                } else {
                    FormCommand::Submit
                }
            },
            KeyCode::Up => {
                if self.focused_option == 0 {
                    FormCommand::GoBack
                } else {
                    FormCommand::FocusPrev
                }
            },
            KeyCode::Down => FormCommand::FocusNext,
            KeyCode::Char(c) => {
                if c == ' ' {
                    FormCommand::SelectFocused
                } else if '1' <= c && c <= '9' {
                    let i: usize = (c as u32 - '1' as u32) as usize;
                    self.choose_by_number(i)
                } else {
                    FormCommand::Nothing
                }
            },
            _ => FormCommand::Nothing,
        }
    }

    fn write_key(&self, k: KeyCode) -> (r: FormCommand)
        ensures
            r == self@.writing(k),
    {
        match k {
            KeyCode::Esc => FormCommand::CancelOtherEdit,
            KeyCode::Enter => FormCommand::DeactivateOther,
            KeyCode::Char(c) => FormCommand::EditOther(InputEdit::Insert(c)),
            KeyCode::Backspace => FormCommand::EditOther(InputEdit::Backspace),
            KeyCode::Delete => FormCommand::EditOther(InputEdit::Delete),
            KeyCode::Left => FormCommand::EditOther(InputEdit::Left),
            KeyCode::Right => FormCommand::EditOther(InputEdit::Right),
            KeyCode::Home => FormCommand::EditOther(InputEdit::LineStart),
            KeyCode::End => FormCommand::EditOther(InputEdit::LineEnd),
            _ => FormCommand::Nothing,
        }
    }

    fn find_command(&self, k: KeyCode) -> (r: FormCommand)
        ensures
            r == self@.command(k),
    {
        if self.other_selected {
            self.write_key(k)
        } else {
            self.choose_key(k)
        }
    }

    /// Whether the form can take a key: what changes the text of one's own needs
    /// its cursor between two characters.
    pub fn accepts_modal_key(&self, k: KeyEvent) -> (r: bool)
        ensures
            r == (self@.command(k.code) is EditOther ==> on_boundary(
                self@.other_input,
                self@.other_cursor,
            )),
    {
        match self.find_command(k.code) {
            FormCommand::EditOther(_) => is_on_boundary(
                self.other_input.as_str(),
                self.other_cursor,
            ),
            _ => true,
        }
    }

    /// Takes a key: a text of one's own is changed at once, and the rest is said
    /// in the command.
    pub fn handle_modal_key(&mut self, k: KeyEvent) -> (r: FormCommand)
        requires
            old(self)@.command(k.code) is EditOther ==> on_boundary(
                old(self)@.other_input,
                old(self)@.other_cursor,
            ),
        ensures
            r == old(self)@.command(k.code),
            final(self)@ == old(self)@.with_edit(r),
            on_boundary(old(self)@.other_input, old(self)@.other_cursor) ==> on_boundary(
                final(self)@.other_input,
                final(self)@.other_cursor,
            ),
    {
        let c = self.find_command(k.code);
        if let FormCommand::EditOther(op) = c {
            let (text, cursor) = apply_edit(self.other_input.as_str(), self.other_cursor, 0, op);
            self.other_input = text;
            self.other_cursor = cursor;
        }
        c
    }
}

// ── Laws ─────────────────────────────────────────────────────────────────────

/// While an overlay is open no key reaches what lies under it: neither the
/// editor, nor the completions, nor the key map.
pub proof fn law_overlays_take_the_keys(v: AppView, k: KeyEvent)
    requires
        v.ui.show_help || v.ui.show_team_picker || v.ui.question_open || v.ui.confirm_modal is Some
            || v.ui.inspector_open || v.ui.pager_open,
    ensures
        !(v.route(k) is Editor),
        !(v.route(k) is Completion),
        !(v.route(k) is Mapped),
{
}

/// A reserved key never reaches the editor.
pub proof fn law_reserved_keys_stay(v: AppView, k: KeyEvent)
    requires
        is_reserved(k),
    ensures
        !(v.route(k) is Editor),
{
}

/// While a text of one's own is written every character goes into it, digits
/// and spaces too.
pub proof fn law_characters_are_written(f: FormView, c: char)
    requires
        f.other_selected,
    ensures
        f.command(KeyCode::Char(c)) == FormCommand::EditOther(InputEdit::Insert(c)),
{
}

/// A session that was taken out by confirmation is not the active one any more:
/// another one is shown first.
pub proof fn law_active_chat_is_left_first(v: AppView)
    ensures
        ({
            let e = v.confirmed(ConfirmedAction::DeleteChat(v.sessions.active_id)).effects;
            e.len() == 2 && (e[0] is SwitchSession || e[0] is NewSession) && e[1]
                == EffectView::DeleteSession(v.sessions.active_id)
        }),
{
    reveal(AppView::confirmed);
}

} // verus!
