//! Everything that happens leaves the whole state in order: what is shown, and
//! what the sessions in the background keep.

use vstd::prelude::*;

use crate::app::agent_event::EventView;
use crate::app::agent_events::{law_reports_keep_order, lemma_reports_leave_the_input};
use crate::app::chat_state::ChatView;
use crate::app::dispatch::{
    Action, ChatAction, GlobalAction, InputAction, ListAction, PaneAction, QueueAction, SearchAction,
    TeamAction,
};
use crate::app::editing::{lemma_offset, lemma_position, on_boundary, position, InputEdit};
use crate::app::frame::Panes;
use crate::app::front::AppView;
use crate::app::order_laws::{countable, law_actions_keep_order};
use crate::app::queue_state::{law_selected_message_exists, QueuedView};
use crate::app::session_manager::{header_views, ChatStatus, EntryView, HeaderView, SessionId};
use crate::app::session_switch::LoadedView;
use crate::app::session_tree::{
    law_registered_session_is_found, lemma_deleted_only_removes, lemma_entry_index, newest_first,
    ManagerView,
};
use crate::app::startup::{law_start_is_in_order, AppOptions};
use crate::app::steps_paste::{brought, paste_parts};
use crate::app::steps_search::PagerAction;
use crate::app::term_keys::{answered, RouteView};
use crate::app::term_mouse::MouseEvent;
use crate::app::ui_state::{ConfirmedAction, UiView};
use crate::commands::completion::CompletionItemView;
use crate::commands::registry::Command;
use crate::input::KeyEvent;
use crate::style::SpanView;

verus! {

// ── What a session keeps ─────────────────────────────────────────────────────

/// What a session has kept of its input and its queue is in order.
pub open spec fn kept_ok(e: EntryView) -> bool {
    &&& on_boundary(
        match e.stored_input_buffer {
            Some(b) => b,
            None => seq![],
        },
        match e.stored_input_cursor {
            Some(c) => c as nat,
            None => 0,
        },
    )
    &&& e.stored_queue matches Some(q) ==> q.selection_ok()
}

impl ManagerView {
    /// The sessions are in order: no two have the same identifier, and what each
    /// has kept is in order.
    pub open spec fn sessions_ok(self) -> bool {
        &&& self.ids_distinct()
        &&& forall|i: int| 0 <= i < self.entries.len() ==> kept_ok(#[trigger] self.entries[i])
    }
}

impl AppView {
    /// The whole state is in order.
    pub open spec fn in_order(self) -> bool {
        self.wf() && self.sessions.sessions_ok()
    }
}

proof fn lemma_nothing_kept(e: EntryView)
    requires
        e.stored_input_buffer is None,
        e.stored_input_cursor is None,
        e.stored_queue is None,
    ensures
        kept_ok(e),
{
    lemma_offset(seq![], 0);
}

proof fn lemma_with(m: ManagerView, e: EntryView)
    requires
        m.sessions_ok(),
        kept_ok(e),
    ensures
        m.with(e).sessions_ok(),
{
    law_registered_session_is_found(m, e, e.id);
    assert(m.with(e).entries == m.registered(e).entries);
    lemma_entry_index(m.entries, e.id, 0);
    let after = m.with(e).entries;
    assert forall|i: int| 0 <= i < after.len() implies kept_ok(#[trigger] after[i]) by {
        assert(after[i] == e || (i < m.entries.len() && after[i] == m.entries[i]));
    }
}

proof fn lemma_entry_ok(m: ManagerView, id: SessionId)
    requires
        m.sessions_ok(),
        m.has(id),
    ensures
        kept_ok(m.entry(id)),
        m.entry(id).id == id,
{
    lemma_entry_index(m.entries, id, 0);
}

// ── The start ────────────────────────────────────────────────────────────────

proof fn lemma_loaded(m: ManagerView, headers: Seq<HeaderView>)
    requires
        m.sessions_ok(),
    ensures
        m.loaded(headers).sessions_ok(),
    decreases headers.len(),
{
    if headers.len() > 0 {
        lemma_loaded(m, headers.drop_last());
        let init = m.loaded(headers.drop_last());
        let h = headers.last();
        if !init.has(h.id) {
            lemma_entry_index(init.entries, h.id, 0);
            let after = m.loaded(headers).entries;
            lemma_nothing_kept(after.last());
            assert forall|i: int| 0 <= i < after.len() implies kept_ok(#[trigger] after[i]) by {
                assert(i == after.len() - 1 || after[i] == init.entries[i]);
            }
        }
    }
}

/// The front end starts with everything in order.
pub proof fn law_start_is_all_in_order(opts: AppOptions)
    ensures
        AppView::initial(opts).in_order(),
{
    law_start_is_in_order(opts);
    let empty = ManagerView {
        entries: seq![],
        order: seq![opts.id],
        children: seq![],
        active_id: opts.id,
        list_selected: 0,
    };
    let first = opts.first_entry();
    lemma_nothing_kept(first);
    lemma_with(empty, first);
    assert(empty.with(first).entries == empty.registered(first).entries);
    lemma_loaded(
        empty.registered(first),
        newest_first(header_views(opts.saved@)),
    );
}

// ── Actions ──────────────────────────────────────────────────────────────────

proof fn lemma_archived(v: AppView)
    requires
        v.sessions.sessions_ok(),
    ensures
        v.list_archived().app.sessions.sessions_ok(),
{
    if let Some(id) = v.selected_session() {
        if v.sessions.has(id) {
            lemma_entry_ok(v.sessions, id);
            lemma_with(
                v.sessions,
                EntryView {
                    status: ChatStatus::Archived,
                    ..v.sessions.entry(id)
                },
            );
        }
    }
}

proof fn lemma_list_sessions(v: AppView, a: ListAction)
    requires
        v.sessions.sessions_ok(),
    ensures
        v.list_step(a).app.sessions.sessions_ok(),
{
    reveal(AppView::list_step);
    lemma_archived(v);
}

proof fn lemma_pane_sessions(v: AppView, a: PaneAction)
    ensures
        v.pane_step(a).sessions.entries == v.sessions.entries,
{
    reveal(AppView::pane_step);
}

proof fn lemma_plain_sessions(v: AppView, g: GlobalAction, t: TeamAction, s: SearchAction)
    ensures
        v.global_step(g).app.sessions == v.sessions,
        v.team_step(t).sessions == v.sessions,
        v.search_step(s).app.sessions == v.sessions,
{
    reveal(AppView::global_step);
    reveal(AppView::team_step);
    reveal(AppView::search_step);
}

proof fn lemma_chat_sessions(v: AppView, a: ChatAction)
    ensures
        v.chat_step(a).app.sessions == v.sessions,
{
    reveal(AppView::chat_step);
}

proof fn lemma_queue_sessions(v: AppView, a: QueueAction)
    ensures
        v.queue_step(a).app.sessions == v.sessions,
{
    reveal(AppView::queue_step);
}

proof fn lemma_typing_sessions(v: AppView, op: InputEdit, up: bool)
    ensures
        v.typed(op).app.sessions == v.sessions,
        v.edit_typed(op).app.sessions == v.sessions,
        v.wheeled(up).sessions == v.sessions,
        v.paged_up().sessions == v.sessions,
        v.paged_down().sessions == v.sessions,
{
}

proof fn lemma_edit_sessions(v: AppView)
    ensures
        v.edit_confirmed().app.sessions == v.sessions,
        v.edit_cancelled().app.sessions == v.sessions,
{
}

proof fn lemma_leaving_sessions(v: AppView)
    ensures
        v.submitted().app.sessions == v.sessions,
        v.escaped().app.sessions == v.sessions,
{
    lemma_edit_sessions(v);
}

proof fn lemma_completion_sessions(v: AppView)
    ensures
        v.completion_next().app.sessions == v.sessions,
        v.completion_prev().sessions == v.sessions,
        v.completion_taken().app.sessions == v.sessions,
        v.unoffered().sessions == v.sessions,
{
    reveal(AppView::completion_put);
}

proof fn lemma_input_sessions(v: AppView, a: InputAction)
    ensures
        v.input_step(a).app.sessions == v.sessions,
{
    reveal(AppView::input_step);
    match a {
        InputAction::Edit(op) => lemma_typing_sessions(v, op, true),
        InputAction::ScrollDown => lemma_typing_sessions(v, InputEdit::Newline, false),
        InputAction::PageUp | InputAction::PageDown | InputAction::ScrollUp => {
            lemma_typing_sessions(v, InputEdit::Newline, true)
        },
        InputAction::Submit | InputAction::Escape => lemma_leaving_sessions(v),
        InputAction::EditMessageConfirm | InputAction::EditMessageCancel => lemma_edit_sessions(v),
        InputAction::CompletionNext | InputAction::CompletionPrev => lemma_completion_sessions(v),
        InputAction::CompletionSelect | InputAction::CompletionCancel => {
            lemma_completion_sessions(v)
        },
        _ => {},
    }
}

proof fn lemma_action_sessions(v: AppView, a: Action)
    requires
        v.sessions.sessions_ok(),
    ensures
        v.after(a).app.sessions.sessions_ok(),
{
    reveal(AppView::after);
    match a {
        Action::NavPrefix => {},
        Action::Pane(p) => lemma_pane_sessions(v, p),
        Action::Global(g) => lemma_plain_sessions(v, g, TeamAction::PickerNext, SearchAction::Open),
        Action::List(l) => lemma_list_sessions(v, l),
        Action::Team(t) => lemma_plain_sessions(v, GlobalAction::Help, t, SearchAction::Open),
        Action::Queue(q) => lemma_queue_sessions(v, q),
        Action::Chat(c) => lemma_chat_sessions(v, c),
        Action::Search(s) => lemma_plain_sessions(v, GlobalAction::Help, TeamAction::PickerNext, s),
        Action::Input(i) => lemma_input_sessions(v, i),
    }
}

/// An action leaves everything in order, in the background too.
pub proof fn law_actions_keep_all_in_order(v: AppView, a: Action)
    requires
        v.in_order(),
        countable(v),
    ensures
        v.after(a).app.in_order(),
{
    law_actions_keep_order(v, a);
    lemma_action_sessions(v, a);
}

// ── Keys and the mouse ───────────────────────────────────────────────────────

proof fn lemma_with_ui(v: AppView, ui: UiView)
    requires
        v.in_order(),
        countable(v),
        ui.completion == v.ui.completion,
    ensures
        v.with_ui(ui).in_order(),
        countable(v.with_ui(ui)),
{
}

proof fn lemma_removed(v: AppView)
    requires
        v.in_order(),
    ensures
        v.highlight_removed().app.in_order(),
{
    lemma_offset(seq![], 0);
}

proof fn lemma_confirmed(v: AppView, a: ConfirmedAction)
    requires
        v.in_order(),
    ensures
        v.confirmed(a).app.in_order(),
{
    reveal(AppView::confirmed);
    if let ConfirmedAction::RemoveSegment(i) = a {
        lemma_removed(
            AppView {
                chat: ChatView { focused_segment: Some(i), ..v.chat },
                ..v
            },
        );
    }
}

/// A key leaves everything in order, whichever part takes it.
pub proof fn law_keys_keep_all_in_order(v: AppView, k: KeyEvent, a: Option<Action>, r: RouteView)
    requires
        v.in_order(),
        countable(v),
    ensures
        v.key_mapped(a).app.in_order(),
        v.key_taken(r).app.in_order(),
        v.confirm_pressed(k).app.in_order(),
{
    let plain = UiView { pending_nav: false, ..v.ui };
    lemma_with_ui(v, plain);
    lemma_with_ui(v, UiView { pending_nav: true, ..v.ui });
    lemma_with_ui(v, UiView { show_help: false, ..v.ui });
    if let Some(action) = a {
        law_actions_keep_all_in_order(v.with_ui(plain), action);
    }
    match r {
        RouteView::Team(Some(t)) => law_actions_keep_all_in_order(v, Action::Team(t)),
        RouteView::Completion(i) => law_actions_keep_all_in_order(
            v.with_ui(plain),
            Action::Input(i),
        ),
        _ => {},
    }
    if let Some(m) = v.ui.confirm_modal {
        let (rest, action) = answered(m, k.code);
        let ui = UiView { confirm_modal: rest, ..v.ui };
        lemma_with_ui(v, ui);
        if let Some(c) = action {
            lemma_confirmed(v.with_ui(ui), c);
        }
    }
}

/// An event of the mouse leaves everything in order.
pub proof fn law_mouse_keeps_all_in_order(v: AppView, m: MouseEvent)
    requires
        v.in_order(),
        countable(v),
    ensures
        v.moused(m).app.in_order(),
{
    reveal(AppView::moused);
    if let Some(a) = v.mouse_action(m) {
        law_actions_keep_all_in_order(v, a);
    }
}

// ── Reports ──────────────────────────────────────────────────────────────────

/// A report of an agent leaves everything in order, whether it is the active one
/// or one in the background.
pub proof fn law_reports_keep_all_in_order(v: AppView, id: SessionId, event: EventView, now: i64)
    requires
        v.in_order(),
    ensures
        v.after_event(event).app.in_order(),
        v.sessions.has(id) ==> v.sessions.with(
            v.sessions.entry(id).after_event(event, now),
        ).sessions_ok(),
{
    law_reports_keep_order(v, event);
    lemma_reports_leave_the_input(v, event);
    if v.sessions.has(id) {
        lemma_entry_ok(v.sessions, id);
        lemma_with(v.sessions, v.sessions.entry(id).after_event(event, now));
    }
}

// ── Sessions ─────────────────────────────────────────────────────────────────

proof fn lemma_left(v: AppView, now: i64)
    requires
        v.in_order(),
        v.input.cursor <= usize::MAX,
    ensures
        v.left(now).in_order(),
        v.left(now).ui == v.ui,
{
    reveal(AppView::left);
    reveal(ManagerView::stashed);
    lemma_offset(seq![], 0);
    let m = v.sessions;
    if m.has(m.active_id) {
        lemma_entry_ok(m, m.active_id);
        lemma_with(m, m.entry(m.active_id).stashed(v.live(), now));
    }
}

proof fn lemma_entered(v: AppView, id: SessionId, loaded: LoadedView)
    requires
        v.in_order(),
    ensures
        v.entered_session(id, loaded).in_order(),
{
    reveal(AppView::entered_session);
    let e = v.sessions.entry_or_blank(id);
    if v.sessions.has(id) {
        lemma_entry_ok(v.sessions, id);
        lemma_nothing_kept(e.activated(loaded));
        lemma_with(v.sessions, e.activated(loaded));
    } else {
        lemma_nothing_kept(e);
    }
}

/// Showing another session leaves everything in order.
pub proof fn law_switch_keeps_all_in_order(v: AppView, id: SessionId, loaded: LoadedView, now: i64)
    requires
        v.in_order(),
        v.input.cursor <= usize::MAX,
    ensures
        v.switched(id, loaded, now).app.in_order(),
{
    lemma_left(v, now);
    lemma_entered(v.left(now), id, loaded);
}

/// A new session leaves everything in order.
pub proof fn law_new_session_keeps_all_in_order(
    v: AppView,
    id: SessionId,
    path: Option<Seq<char>>,
    now: i64,
)
    requires
        v.in_order(),
        v.input.cursor <= usize::MAX,
    ensures
        v.renewed(id, path, now).app.in_order(),
{
    reveal(AppView::renewed);
    lemma_left(v, now);
    lemma_offset(seq![], 0);
    let l = v.left(now);
    let e = EntryView::blank(id, "New chat"@, now);
    lemma_nothing_kept(e);
    lemma_with(l.sessions, e);
    assert(l.sessions.created(e).entries == l.sessions.with(e).entries);
}

/// Taking a session out, and starting an agent for one, leave everything in
/// order.
pub proof fn law_session_changes_keep_all_in_order(v: AppView, id: SessionId)
    requires
        v.in_order(),
    ensures
        v.session_deleted(id).app.in_order(),
        v.agent_started(id).in_order(),
        v.agent_ready().app.in_order(),
        v.editor_ready().app.in_order(),
{
    let m = v.sessions;
    lemma_deleted_only_removes(m, id);
    let after = m.deleted(id).0.entries;
    assert forall|i: int| 0 <= i < after.len() implies kept_ok(#[trigger] after[i]) by {
        assert(m.entries.contains(after[i]));
        let k = choose|k: int| 0 <= k < m.entries.len() && m.entries[k] == after[i];
        assert(kept_ok(m.entries[k]));
    }
    if m.has(id) {
        lemma_entry_ok(m, id);
        lemma_with(m, EntryView { has_agent: true, ..m.entry(id) });
    }
    let active = m.active_id;
    if m.has(active) {
        lemma_entry_ok(m, active);
        lemma_with(m, EntryView { has_agent: true, ..m.entry(active) });
    }
}

// ── Texts ────────────────────────────────────────────────────────────────────

/// A paste leaves everything in order.
pub proof fn law_paste_keeps_all_in_order(v: AppView, text: Seq<char>, found: Seq<Option<Seq<char>>>)
    requires
        v.in_order(),
    ensures
        v.pasted(text, found).app.in_order(),
{
    let parts = paste_parts(text);
    let p = brought(parts, found, parts.len() as int);
    let i = v.input;
    let k = position(i.buffer, i.cursor);
    lemma_position(i.buffer, i.cursor);
    let head = i.buffer.take(k) + p.text;
    let whole = i.with_paste(p).buffer;
    assert(whole.take(head.len() as int) =~= head);
    lemma_offset(whole, head.len() as int);
}

proof fn lemma_sent(v: AppView, text: Seq<char>)
    requires
        v.in_order(),
        countable(v),
    ensures
        v.sent(text).app.in_order(),
{
    reveal(AppView::sent);
    let m = QueuedView {
        content: text,
        model_transition: v.session.staged_model,
        mode_transition: v.session.staged_mode,
    };
    law_selected_message_exists(v.queue, 0, m, text);
}

/// A text that is entered, a message that is delivered, and the text of the
/// editor leave everything in order.
pub proof fn law_sending_keeps_all_in_order(
    v: AppView,
    text: Seq<char>,
    commands: Map<Seq<char>, Command>,
    m: QueuedView,
)
    requires
        v.in_order(),
        countable(v),
    ensures
        v.entered(text, commands).app.in_order(),
        v.delivered(m).app.in_order(),
        v.first_sent().app.in_order(),
        v.buffer_synced(text).in_order(),
        v.buffer_submitted(text).app.in_order(),
{
    reveal(AppView::commanded);
    reveal(AppView::buffer_submitted);
    lemma_sent(v, text);
    law_selected_message_exists(v.queue, 0, m, text);
}

/// Completions that are offered leave everything in order.
pub proof fn law_offers_keep_all_in_order(v: AppView, items: Seq<CompletionItemView>)
    requires
        v.in_order(),
        items.len() <= usize::MAX,
    ensures
        v.offering(items).in_order(),
{
}

// ── Showing ──────────────────────────────────────────────────────────────────

/// A frame, another size of the terminal, and a search in an overlay leave
/// everything in order.
pub proof fn law_showing_keeps_all_in_order(
    v: AppView,
    p: Panes,
    a: PagerAction,
    lines: Seq<Seq<SpanView>>,
)
    requires
        v.in_order(),
    ensures
        v.before_frame(p).in_order(),
        v.resized(p).app.in_order(),
        v.pager_acted(a).app.in_order(),
        v.inspector_acted(a).app.in_order(),
        v.inspector_searched(lines).app.in_order(),
{
}

} // verus!
