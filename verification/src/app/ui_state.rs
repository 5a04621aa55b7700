//! Focus, overlays and notifications.

use vstd::prelude::*;

use crate::app::session_manager::SessionId;
use crate::chat::search::{SearchState, SearchView};
use crate::commands::completion::{item_views, opt_string_view, CompletionItem, CompletionItemView};
use crate::style::Color;
use crate::text::{opt_view, str_eq};

verus! {

// ── Focus ────────────────────────────────────────────────────────────────────

/// The pane that has the keyboard.
#[derive(Clone, Copy, Debug, PartialEq, Eq, Structural)]
pub enum FocusPane {
    Chat,
    Input,
    /// The panel with the messages that wait.
    Queue,
    /// The list of chats.
    ChatList,
    /// The list of peers.
    Peers,
}

// ── Toasts ───────────────────────────────────────────────────────────────────

/// How long a toast is shown, in milliseconds.
pub const TOAST_LIFETIME_MS: u64 = 3000;

/// How many toasts are shown at a time.
pub const TOAST_CAP: usize = 5;

/// A short notification.
#[derive(Debug, PartialEq, Eq)]
pub struct Toast {
    pub message: String,
    pub color: Color,
    /// When it came up, in milliseconds.
    pub born: u64,
}

pub struct ToastView {
    pub message: Seq<char>,
    pub color: Color,
    pub born: u64,
}

impl View for Toast {
    type V = ToastView;

    open spec fn view(&self) -> ToastView {
        ToastView { message: self.message@, color: self.color, born: self.born }
    }
}

impl ToastView {
    /// It has been shown for longer than its time.
    pub open spec fn expired(self, now: u64) -> bool {
        now - self.born > TOAST_LIFETIME_MS
    }
}

impl Toast {
    /// A notification in a colour. It gets its time when it comes up.
    pub fn new(message: String, color: Color) -> (r: Toast)
        ensures
            r@ == (ToastView { message: message@, color, born: 0 }),
    {
        Toast { message, color, born: 0 }
    }

    pub fn info(message: String) -> (r: Toast)
        ensures
            r@ == (ToastView { message: message@, color: Color::Cyan, born: 0 }),
    {
        Toast::new(message, Color::Cyan)
    }

    pub fn success(message: String) -> (r: Toast)
        ensures
            r@ == (ToastView { message: message@, color: Color::Green, born: 0 }),
    {
        Toast::new(message, Color::Green)
    }

    pub fn warning(message: String) -> (r: Toast)
        ensures
            r@ == (ToastView { message: message@, color: Color::Yellow, born: 0 }),
    {
        Toast::new(message, Color::Yellow)
    }

    pub fn error(message: String) -> (r: Toast)
        ensures
            r@ == (ToastView { message: message@, color: Color::Red, born: 0 }),
    {
        Toast::new(message, Color::Red)
    }

    /// Whether it has been shown for longer than its time.
    pub fn is_expired(&self, now: u64) -> (r: bool)
        ensures
            r == self@.expired(now),
    {
        now >= self.born && now - self.born > TOAST_LIFETIME_MS
    }
}

/// The views of toasts.
pub open spec fn toast_views(v: Seq<Toast>) -> Seq<ToastView> {
    v.map_values(|t: Toast| t@)
}

/// The toasts that are still shown.
pub open spec fn fresh(toasts: Seq<ToastView>, now: u64) -> Seq<ToastView>
    decreases toasts.len(),
{
    if toasts.len() == 0 {
        seq![]
    } else {
        let init = fresh(toasts.drop_last(), now);
        if toasts.last().expired(now) {
            init
        } else {
            init.push(toasts.last())
        }
    }
}

/// The toasts with one more; the oldest goes where there are too many.
pub open spec fn with_toast(toasts: Seq<ToastView>, t: ToastView) -> Seq<ToastView> {
    if toasts.len() >= TOAST_CAP {
        toasts.skip(1).push(t)
    } else {
        toasts.push(t)
    }
}

// ── The team ─────────────────────────────────────────────────────────────────

/// What an agent of the team is doing.
#[derive(Clone, Copy, Debug, PartialEq, Eq, Structural)]
pub enum AgentPickerStatus {
    Active,
    Idle,
    Offline,
}

/// A member of the team in the picker.
#[derive(Debug, PartialEq, Eq)]
pub struct TeamPickerEntry {
    pub name: String,
    pub role: String,
    pub peer_id: String,
    pub status: AgentPickerStatus,
    pub current_task: Option<String>,
    pub is_local: bool,
}

pub struct TeamEntryView {
    pub name: Seq<char>,
    pub role: Seq<char>,
    pub peer_id: Seq<char>,
    pub status: AgentPickerStatus,
    pub current_task: Option<Seq<char>>,
    pub is_local: bool,
}

impl View for TeamPickerEntry {
    type V = TeamEntryView;

    open spec fn view(&self) -> TeamEntryView {
        TeamEntryView {
            name: self.name@,
            role: self.role@,
            peer_id: self.peer_id@,
            status: self.status,
            current_task: opt_string_view(self.current_task),
            is_local: self.is_local,
        }
    }
}

/// The views of the team.
pub open spec fn team_views(v: Seq<TeamPickerEntry>) -> Seq<TeamEntryView> {
    v.map_values(|e: TeamPickerEntry| e@)
}

/// The selection of a list.
#[derive(Clone, Copy, Debug, PartialEq, Eq, Structural)]
pub struct ListState {
    pub index: Option<usize>,
}

impl ListState {
    /// The selected index.
    pub fn selected(&self) -> (r: Option<usize>)
        ensures
            r == self.index,
    {
        self.index
    }
}

/// The selection of the team picker.
#[derive(Clone, Copy, Debug, PartialEq, Eq, Structural)]
pub struct TeamPickerState {
    pub list_state: ListState,
}

/// The selection moved down by one, from the last to the first.
pub open spec fn next_of(selected: Option<usize>, len: int) -> Option<usize> {
    if len == 0 {
        selected
    } else {
        match selected {
            Some(i) => if i + 1 < len {
                Some((i + 1) as usize)
            } else {
                Some(0)
            },
            None => Some(0),
        }
    }
}

/// The selection moved up by one, from the first to the last.
pub open spec fn prev_of(selected: Option<usize>, len: int) -> Option<usize> {
    if len == 0 {
        selected
    } else {
        match selected {
            Some(i) => if 0 < i < len {
                Some((i - 1) as usize)
            } else {
                Some((len - 1) as usize)
            },
            None => Some((len - 1) as usize),
        }
    }
}

/// Moves a selection down by one.
pub fn select_next(selected: Option<usize>, len: usize) -> (r: Option<usize>)
    ensures
        r == next_of(selected, len as int),
{
    if len == 0 {
        return selected;
    }
    match selected {
        Some(i) => {
            if i < len - 1 {
                Some(i + 1)
            } else {
                Some(0)
            }
        },
        None => Some(0),
    }
}

/// Moves a selection up by one.
pub fn select_prev(selected: Option<usize>, len: usize) -> (r: Option<usize>)
    ensures
        r == prev_of(selected, len as int),
{
    if len == 0 {
        return selected;
    }
    match selected {
        Some(i) => {
            if i > 0 && i < len {
                Some(i - 1)
            } else {
                Some(len - 1)
            }
        },
        None => Some(len - 1),
    }
}

/// A selection moved down and up again is where it was.
pub proof fn law_selection_wraps(i: usize, len: int)
    requires
        i < len <= usize::MAX,
    ensures
        prev_of(next_of(Some(i), len), len) == Some(i),
        next_of(prev_of(Some(i), len), len) == Some(i),
{
}

// ── Modals ───────────────────────────────────────────────────────────────────

/// What happens when a question is confirmed.
#[derive(Clone, Copy, Debug, PartialEq, Eq, Structural)]
pub enum ConfirmedAction {
    RemoveSegment(usize),
    DeleteChat(SessionId),
}

/// A question with two buttons, or a notice with one.
#[derive(Debug, PartialEq, Eq)]
pub struct ConfirmModal {
    pub title: String,
    pub message: String,
    /// The labels of the buttons, where they are not the usual ones.
    pub labels: Option<(String, String)>,
    /// The first button confirms.
    pub focused_button: usize,
    pub action: Option<ConfirmedAction>,
    pub border_color: Option<Color>,
}

pub struct ConfirmView {
    pub title: Seq<char>,
    pub message: Seq<char>,
    pub labels: Option<(Seq<char>, Seq<char>)>,
    pub focused_button: usize,
    pub action: Option<ConfirmedAction>,
    pub border_color: Option<Color>,
}

impl View for ConfirmModal {
    type V = ConfirmView;

    open spec fn view(&self) -> ConfirmView {
        ConfirmView {
            title: self.title@,
            message: self.message@,
            labels: match self.labels {
                Some(l) => Some((l.0@, l.1@)),
                None => None,
            },
            focused_button: self.focused_button,
            action: self.action,
            border_color: self.border_color,
        }
    }
}

impl ConfirmModal {
    /// The question whether to do something.
    pub fn question(title: &str, message: String, action: ConfirmedAction, yes: &str, no: &str) -> (r:
        ConfirmModal)
        ensures
            r@ == (ConfirmView {
                title: title@,
                message: message@,
                labels: Some((yes@, no@)),
                focused_button: 0,
                action: Some(action),
                border_color: None,
            }),
    {
        ConfirmModal {
            title: title.to_owned(),
            message,
            labels: Some((yes.to_owned(), no.to_owned())),
            focused_button: 0,
            action: Some(action),
            border_color: None,
        }
    }

    /// A notice with a coloured border.
    pub fn info_with_border(title: &str, message: &str, color: Color) -> (r: ConfirmModal)
        ensures
            r@ == (ConfirmView {
                title: title@,
                message: message@,
                labels: None,
                focused_button: 0,
                action: None,
                border_color: Some(color),
            }),
    {
        ConfirmModal {
            title: title.to_owned(),
            message: message.to_owned(),
            labels: None,
            focused_button: 0,
            action: None,
            border_color: Some(color),
        }
    }
}

/// The list of completions.
#[derive(Debug, PartialEq, Eq)]
pub struct CompletionOverlay {
    pub items: Vec<CompletionItem>,
    pub selected: usize,
}

pub struct OverlayView {
    pub items: Seq<CompletionItemView>,
    pub selected: usize,
}

impl View for CompletionOverlay {
    type V = OverlayView;

    open spec fn view(&self) -> OverlayView {
        OverlayView { items: item_views(self.items@), selected: self.selected }
    }
}

impl OverlayView {
    /// What is selected exists.
    pub open spec fn selection_ok(self) -> bool {
        self.selected < self.items.len()
    }
}

/// The view of an optional list of completions.
pub open spec fn overlay_view(o: Option<CompletionOverlay>) -> Option<OverlayView> {
    match o {
        Some(c) => Some(c@),
        None => None,
    }
}

/// The view of an optional modal.
pub open spec fn confirm_view(o: Option<ConfirmModal>) -> Option<ConfirmView> {
    match o {
        Some(c) => Some(c@),
        None => None,
    }
}

/// A list of completions with the earlier selection, as far as the list goes;
/// none where there is nothing to offer.
pub open spec fn offered(items: Seq<CompletionItemView>, before: Option<OverlayView>) -> Option<
    OverlayView,
> {
    let at = match before {
        Some(o) => o.selected as int,
        None => 0,
    };
    if items.len() == 0 {
        None
    } else {
        Some(
            OverlayView {
                items,
                selected: (if at < items.len() {
                    at
                } else {
                    items.len() - 1
                }) as usize,
            },
        )
    }
}

// ── The state ────────────────────────────────────────────────────────────────

/// Focus, overlays and notifications.
pub struct UiState {
    pub focus: FocusPane,
    pub show_help: bool,
    pub search: SearchState,
    /// The pager is open.
    pub pager_open: bool,
    /// The inspector is open.
    pub inspector_open: bool,
    pub completion: Option<CompletionOverlay>,
    /// A question of the agent is open.
    pub question_open: bool,
    pub confirm_modal: Option<ConfirmModal>,
    /// The first key of a chord was pressed.
    pub pending_nav: bool,
    /// The notifications, the newest last.
    pub toasts: Vec<Toast>,
    pub show_team_picker: bool,
    pub team_picker_entries: Vec<TeamPickerEntry>,
    pub team_picker_state: TeamPickerState,
    pub team_name: Option<String>,
    /// The peer whose session is shown; `None` is the local one.
    pub active_session_peer: Option<String>,
    /// The selected peer.
    pub peers_selected: usize,
    /// The time, in milliseconds.
    pub clock_ms: u64,
}

pub struct UiView {
    pub focus: FocusPane,
    pub show_help: bool,
    pub search: SearchView,
    pub pager_open: bool,
    pub inspector_open: bool,
    pub completion: Option<OverlayView>,
    pub question_open: bool,
    pub confirm_modal: Option<ConfirmView>,
    pub pending_nav: bool,
    pub toasts: Seq<ToastView>,
    pub show_team_picker: bool,
    pub team: Seq<TeamEntryView>,
    pub picked: Option<usize>,
    pub team_name: Option<Seq<char>>,
    pub active_session_peer: Option<Seq<char>>,
    pub peers_selected: usize,
    pub clock_ms: u64,
}

impl View for UiState {
    type V = UiView;

    open spec fn view(&self) -> UiView {
        UiView {
            focus: self.focus,
            show_help: self.show_help,
            search: self.search@,
            pager_open: self.pager_open,
            inspector_open: self.inspector_open,
            completion: overlay_view(self.completion),
            question_open: self.question_open,
            confirm_modal: confirm_view(self.confirm_modal),
            pending_nav: self.pending_nav,
            toasts: toast_views(self.toasts@),
            show_team_picker: self.show_team_picker,
            team: team_views(self.team_picker_entries@),
            picked: self.team_picker_state.list_state.index,
            team_name: opt_string_view(self.team_name),
            active_session_peer: opt_string_view(self.active_session_peer),
            peers_selected: self.peers_selected,
            clock_ms: self.clock_ms,
        }
    }
}

/// The index of the team member with a peer identifier, from `i` on.
pub open spec fn member_with(team: Seq<TeamEntryView>, peer: Seq<char>, i: int) -> Option<int>
    decreases team.len() - i,
{
    if i < 0 || i >= team.len() {
        None
    } else if team[i].peer_id == peer {
        Some(i)
    } else {
        member_with(team, peer, i + 1)
    }
}

impl UiView {
    /// The state at the start.
    pub open spec fn initial() -> UiView {
        UiView {
            focus: FocusPane::Input,
            show_help: false,
            search: SearchView::idle(),
            pager_open: false,
            inspector_open: false,
            completion: None,
            question_open: false,
            confirm_modal: None,
            pending_nav: false,
            toasts: seq![],
            show_team_picker: false,
            team: seq![],
            picked: Some(0),
            team_name: None,
            active_session_peer: None,
            peers_selected: 0,
            clock_ms: 0,
        }
    }

    /// With a notification.
    pub open spec fn notified(self, t: ToastView) -> UiView {
        UiView {
            toasts: with_toast(self.toasts, ToastView { born: self.clock_ms, ..t }),
            ..self
        }
    }

    /// The member of the team whose session is shown; the first one where none
    /// of them has it.
    pub open spec fn viewed(self) -> int {
        match self.active_session_peer {
            Some(p) => match member_with(self.team, p, 0) {
                Some(i) => i,
                None => 0,
            },
            None => 0,
        }
    }

    /// The session of a member shown; that of a local member is the local one.
    pub open spec fn viewing(self, i: int) -> UiView {
        UiView {
            active_session_peer: if self.team[i].is_local {
                None
            } else {
                Some(self.team[i].peer_id)
            },
            ..self
        }
    }

    /// The session of the next member shown.
    pub open spec fn cycled_forward(self) -> UiView {
        if self.team.len() == 0 {
            self
        } else if self.viewed() + 1 < self.team.len() {
            self.viewing(self.viewed() + 1)
        } else {
            self.viewing(0)
        }
    }

    /// The session of the member before shown.
    pub open spec fn cycled_backward(self) -> UiView {
        if self.team.len() == 0 {
            self
        } else if self.viewed() == 0 {
            self.viewing(self.team.len() - 1)
        } else {
            self.viewing(self.viewed() - 1)
        }
    }

    /// The peer that is selected in the picker.
    pub open spec fn picked_peer(self) -> Option<Seq<char>> {
        match self.picked {
            Some(i) => if i < self.team.len() {
                Some(self.team[i as int].peer_id)
            } else {
                None
            },
            None => None,
        }
    }
}

impl UiState {
    /// The state at the start.
    pub fn new() -> (r: UiState)
        ensures
            r@ == UiView::initial(),
    {
        let r = UiState {
            focus: FocusPane::Input,
            show_help: false,
            search: SearchState::default(),
            pager_open: false,
            inspector_open: false,
            completion: None,
            question_open: false,
            confirm_modal: None,
            pending_nav: false,
            toasts: Vec::new(),
            show_team_picker: false,
            team_picker_entries: Vec::new(),
            team_picker_state: TeamPickerState { list_state: ListState { index: Some(0) } },
            team_name: None,
            active_session_peer: None,
            peers_selected: 0,
            clock_ms: 0,
        };
        assert(r@.toasts =~= seq![]);
        assert(r@.team =~= seq![]);
        r
    }

    /// Shows a notification. At most a few are shown; the oldest goes.
    pub fn push_toast(&mut self, toast: Toast)
        ensures
            final(self)@ == old(self)@.notified(toast@),
    {
        let ghost before = self.toasts@;
        let mut toast = toast;
        toast.born = self.clock_ms;
        if self.toasts.len() >= TOAST_CAP {
            let _ = self.toasts.remove(0);
            self.toasts.push(toast);
            assert(toast_views(self.toasts@) =~= toast_views(before).skip(1).push(toast@));
        } else {
            self.toasts.push(toast);
            assert(toast_views(self.toasts@) =~= toast_views(before).push(toast@));
        }
    }

    /// Takes down the notifications whose time is over.
    pub fn prune_toasts(&mut self)
        ensures
            final(self)@ == (UiView {
                toasts: fresh(old(self)@.toasts, old(self).clock_ms),
                ..old(self)@
            }),
    {
        let ghost all = toast_views(self.toasts@);
        let now: u64 = self.clock_ms;
        let mut out: Vec<Toast> = Vec::new();
        let mut i: usize = 0;
        assert(all.take(0) =~= seq![]);
        assert(toast_views(out@) =~= seq![]);
        while i < self.toasts.len()
            invariant
                self@ == old(self)@,
                all == toast_views(self.toasts@),
                i <= self.toasts@.len(),
                toast_views(out@) == fresh(all.take(i as int), now),
            decreases self.toasts.len() - i,
        {
            let ghost before = out@;
            if !self.toasts[i].is_expired(now) {
                let t = Toast {
                    message: self.toasts[i].message.clone(),
                    color: self.toasts[i].color,
                    born: self.toasts[i].born,
                };
                out.push(t);
                assert(toast_views(out@) =~= toast_views(before).push(t@));
            }
            i += 1;
            proof {
                assert(all.take(i as int).drop_last() =~= all.take(i - 1));
                assert(all.take(i as int).last() == self.toasts@[i - 1]@);
            }
        }
        assert(all.take(all.len() as int) =~= all);
        self.toasts = out;
    }

    /// Opens or closes the team picker.
    pub fn toggle_team_picker(&mut self)
        ensures
            final(self)@ == (UiView {
                show_team_picker: !old(self).show_team_picker,
                ..old(self)@
            }),
    {
        self.show_team_picker = !self.show_team_picker;
    }

    /// Selects the next member in the team picker.
    pub fn team_picker_next(&mut self)
        ensures
            final(self)@ == (UiView {
                picked: next_of(old(self)@.picked, old(self)@.team.len() as int),
                ..old(self)@
            }),
    {
        assert(self@.team.len() == self.team_picker_entries@.len());
        let index = select_next(
            self.team_picker_state.list_state.index,
            self.team_picker_entries.len(),
        );
        self.team_picker_state = TeamPickerState { list_state: ListState { index } };
    }

    /// Selects the member before in the team picker.
    pub fn team_picker_prev(&mut self)
        ensures
            final(self)@ == (UiView {
                picked: prev_of(old(self)@.picked, old(self)@.team.len() as int),
                ..old(self)@
            }),
    {
        assert(self@.team.len() == self.team_picker_entries@.len());
        let index = select_prev(
            self.team_picker_state.list_state.index,
            self.team_picker_entries.len(),
        );
        self.team_picker_state = TeamPickerState { list_state: ListState { index } };
    }

    /// The peer that is selected in the team picker.
    pub fn team_picker_selected_peer(&self) -> (r: Option<&str>)
        ensures
            opt_view(r) == self@.picked_peer(),
    {
        assert(self@.team.len() == self.team_picker_entries@.len());
        match self.team_picker_state.list_state.index {
            Some(i) => {
                if i < self.team_picker_entries.len() {
                    assert(self@.team[i as int] == self.team_picker_entries@[i as int]@);
                    Some(self.team_picker_entries[i].peer_id.as_str())
                } else {
                    None
                }
            },
            None => None,
        }
    }

    fn viewed_index(&self) -> (r: usize)
        ensures
            r == self@.viewed(),
            self.team_picker_entries@.len() > 0 ==> r < self.team_picker_entries@.len(),
    {
        let ghost team = self@.team;
        assert(team.len() == self.team_picker_entries@.len());
        match &self.active_session_peer {
            Some(peer) => {
                let n: usize = self.team_picker_entries.len();
                let mut i: usize = 0;
                while i < n
                    invariant
                        n == self.team_picker_entries@.len(),
                        team == self@.team,
                        team.len() == n,
                        i <= n,
                        self@.active_session_peer == Some(peer@),
                        member_with(team, peer@, 0) == member_with(team, peer@, i as int),
                    decreases n - i,
                {
                    assert(team[i as int] == self.team_picker_entries@[i as int]@);
                    if str_eq(self.team_picker_entries[i].peer_id.as_str(), peer.as_str()) {
                        return i;
                    }
                    i += 1;
                }
                0
            },
            None => 0,
        }
    }

    fn show_member(&mut self, i: usize)
        requires
            i < old(self).team_picker_entries@.len(),
        ensures
            final(self)@ == old(self)@.viewing(i as int),
    {
        assert(self@.team[i as int] == self.team_picker_entries@[i as int]@);
        if self.team_picker_entries[i].is_local {
            self.active_session_peer = None;
        } else {
            self.active_session_peer = Some(self.team_picker_entries[i].peer_id.clone());
        }
    }

    /// The peer whose session is shown.
    fn shown_peer(&self) -> (r: Option<&str>)
        ensures
            opt_view(r) == self@.active_session_peer,
    {
        match &self.active_session_peer {
            Some(p) => Some(p.as_str()),
            None => None,
        }
    }

    /// Shows the session of the next member of the team, from the last the first
    /// again. Returns the peer whose session is shown, `None` for the local one
    /// or without a team.
    pub fn cycle_teammate_view_forward(&mut self) -> (r: Option<&str>)
        ensures
            final(self)@ == old(self)@.cycled_forward(),
            opt_view(r) == (if old(self)@.team.len() == 0 {
                None
            } else {
                old(self)@.cycled_forward().active_session_peer
            }),
    {
        let n: usize = self.team_picker_entries.len();
        assert(self@.team.len() == n);
        if n == 0 {
            return None;
        }
        let current: usize = self.viewed_index();
        if current + 1 < n {
            self.show_member(current + 1);
        } else {
            self.show_member(0);
        }
        self.shown_peer()
    }

    /// Shows the session of the member before, from the first the last.
    pub fn cycle_teammate_view_backward(&mut self) -> (r: Option<&str>)
        ensures
            final(self)@ == old(self)@.cycled_backward(),
            opt_view(r) == (if old(self)@.team.len() == 0 {
                None
            } else {
                old(self)@.cycled_backward().active_session_peer
            }),
    {
        let n: usize = self.team_picker_entries.len();
        assert(self@.team.len() == n);
        if n == 0 {
            return None;
        }
        let current: usize = self.viewed_index();
        if current == 0 {
            self.show_member(n - 1);
        } else {
            self.show_member(current - 1);
        }
        self.shown_peer()
    }

    /// Offers completions, with the earlier selection as far as they go.
    pub fn offer_completions(&mut self, items: Vec<CompletionItem>)
        ensures
            final(self)@ == (UiView {
                completion: offered(item_views(items@), old(self)@.completion),
                ..old(self)@
            }),
    {
        let n: usize = items.len();
        assert(item_views(items@).len() == n);
        if n == 0 {
            self.completion = None;
            return ;
        }
        let before: usize = match &self.completion {
            Some(o) => o.selected,
            None => 0,
        };
        let selected: usize = if before < n {
            before
        } else {
            n - 1
        };
        self.completion = Some(CompletionOverlay { items, selected });
    }
}

// ── Laws ─────────────────────────────────────────────────────────────────────

/// There are never more than a few notifications, and the newest is the last.
pub proof fn law_toasts_are_few(v: UiView, t: ToastView)
    requires
        v.toasts.len() <= TOAST_CAP,
    ensures
        v.notified(t).toasts.len() <= TOAST_CAP,
        v.notified(t).toasts.last().message == t.message,
{
}

/// A notification is taken down after its time and not before.
pub proof fn law_toast_lives_its_time(toasts: Seq<ToastView>, now: u64)
    ensures
        forall|i: int|
            0 <= i < fresh(toasts, now).len() ==> !(#[trigger] fresh(toasts, now)[i]).expired(now),
        (forall|i: int| 0 <= i < toasts.len() ==> !(#[trigger] toasts[i]).expired(now)) ==> fresh(
            toasts,
            now,
        ) == toasts,
    decreases toasts.len(),
{
    if toasts.len() > 0 {
        let init = toasts.drop_last();
        law_toast_lives_its_time(init, now);
        assert forall|i: int| 0 <= i < fresh(toasts, now).len() implies !(#[trigger] fresh(
            toasts,
            now,
        )[i]).expired(now) by {
            if i < fresh(init, now).len() {
                assert(fresh(toasts, now)[i] == fresh(init, now)[i]);
            }
        }
        if forall|i: int| 0 <= i < toasts.len() ==> !(#[trigger] toasts[i]).expired(now) {
            assert forall|i: int| 0 <= i < init.len() implies !(#[trigger] init[i]).expired(
                now,
            ) by {
                assert(init[i] == toasts[i]);
            }
            assert(!toasts[toasts.len() - 1].expired(now));
            assert(init.push(toasts.last()) =~= toasts);
        }
    }
}

/// A team that can be cycled through: the local member comes first, and no two
/// members are the same peer.
pub open spec fn is_team(team: Seq<TeamEntryView>) -> bool {
    &&& team.len() > 0
    &&& team[0].is_local
    &&& forall|i: int| 0 < i < team.len() ==> !(#[trigger] team[i]).is_local
    &&& forall|i: int, j: int|
        0 <= i < j < team.len() ==> (#[trigger] team[i]).peer_id != (#[trigger] team[j]).peer_id
}

proof fn lemma_member_with(team: Seq<TeamEntryView>, k: int, i: int)
    requires
        is_team(team),
        0 <= i <= k < team.len(),
    ensures
        member_with(team, team[k].peer_id, i) == Some(k),
    decreases k - i,
{
    if i < k {
        lemma_member_with(team, k, i + 1);
    }
}

proof fn lemma_viewing(v: UiView, k: int)
    requires
        is_team(v.team),
        0 <= k < v.team.len(),
    ensures
        v.viewing(k).viewed() == k,
        v.viewing(k).team == v.team,
{
    lemma_member_with(v.team, k, 0);
}

/// Cycling forward and backward again shows the same session as before.
pub proof fn law_cycling_back_undoes_forward(v: UiView, k: int)
    requires
        is_team(v.team),
        0 <= k < v.team.len(),
        v.active_session_peer == v.viewing(k).active_session_peer,
    ensures
        v.cycled_forward().cycled_backward().active_session_peer == v.active_session_peer,
        v.cycled_backward().cycled_forward().active_session_peer == v.active_session_peer,
{
    lemma_viewing(v, k);
    assert(v.viewed() == k);
    let n = v.team.len() as int;
    let f = if k + 1 < n {
        k + 1
    } else {
        0
    };
    let b = if k == 0 {
        n - 1
    } else {
        k - 1
    };
    lemma_viewing(v, f);
    lemma_viewing(v, b);
}

} // verus!
