//! What the keys and the mouse promise: who takes them, what they ask for, and
//! what lies under the mouse.

use vstd::prelude::*;

use crate::app::chat_state::ChatView;
use crate::app::dispatch::{Action, ChatAction, InputAction, ListAction, QueueAction, TeamAction};
use crate::app::edit_laws::law_typed_character_comes_at_the_cursor;
use crate::app::editing::{edited, InputEdit};
use crate::app::front::{AppView, EffectView};
use crate::app::hit_test::{area_at, HitArea};
use crate::app::layout_cache::{LayoutCache, ResizeDrag};
use crate::app::session_manager::SessionId;
use crate::app::term_keys::{
    answered, completion_key, other_session, team_key, FormCommand, FormView, KeyContext,
    RouteView,
};
use crate::app::term_mouse::{MouseEvent, MouseKind};
use crate::app::ui_state::{ConfirmView, ConfirmedAction, FocusPane, UiView};
use crate::input::{is_reserved, nvim_notation, KeyCode, KeyEvent, KeyModifiers};
use crate::text::byte_len;

verus! {

// ── Actions ──────────────────────────────────────────────────────────────────

/// Each action on the messages of the chat is the step that it is named after.
#[verifier::spinoff_prover]
#[verifier::rlimit(40)]
pub proof fn law_chat_actions_are_steps(v: AppView)
    ensures
        v.after(Action::Chat(ChatAction::EditMessageAtCursor)) == v.editing_segment(),
        v.after(Action::Chat(ChatAction::DeleteChatSegment)) == v.cut_at_highlight(),
        v.after(Action::Chat(ChatAction::RemoveChatSegment)) == v.highlight_removed(),
        v.after(Action::Chat(ChatAction::CopySegment)) == v.segment_copied(),
        v.after(Action::Chat(ChatAction::CopyAll)) == v.all_copied(),
        v.after(Action::Chat(ChatAction::RerunFromSegment)) == v.rerun(),
        v.after(Action::Chat(ChatAction::ChatHighlightDown)).app == v.highlight_down(),
        v.after(Action::Chat(ChatAction::ChatHighlightUp)).app == v.highlight_up(),
        v.after(Action::Chat(ChatAction::ToggleDelegateSummary)) == v.summary_toggled(),
{
    reveal(AppView::after);
    reveal(AppView::chat_step);
}

/// Each way to scroll the chat is the step that it is named after. A page is half
/// the height of the pane.
#[verifier::spinoff_prover]
#[verifier::rlimit(40)]
pub proof fn law_scroll_actions_are_steps(v: AppView, row: u16)
    ensures
        v.after(Action::Chat(ChatAction::ScrollUp)) == v.scrolled_up(1, "<C-y>"@),
        v.after(Action::Chat(ChatAction::ScrollDown)) == v.scrolled_down(1, "<C-e>"@),
        v.after(Action::Chat(ChatAction::ScrollPageUp)) == v.scrolled_up(
            v.layout.chat_height / 2,
            "<C-u>"@,
        ),
        v.after(Action::Chat(ChatAction::ScrollPageDown)) == v.scrolled_down(
            v.layout.chat_height / 2,
            "<C-d>"@,
        ),
        v.after(Action::Chat(ChatAction::ScrollTop)) == v.at_top(),
        v.after(Action::Chat(ChatAction::ScrollBottom)) == v.following(),
        v.after(Action::Chat(ChatAction::ChatScrollbarClick { rel_row: row })).app
            == v.scrollbar_clicked(row),
{
    reveal(AppView::after);
    reveal(AppView::chat_step);
}

/// Each step of a selection is the one that it is named after; without a
/// selection there is neither an end nor an anchor of one.
#[verifier::spinoff_prover]
#[verifier::rlimit(40)]
pub proof fn law_selection_actions_are_steps(v: AppView, line: usize, col: u16, mouse_row: u16)
    ensures
        v.after(Action::Chat(ChatAction::ChatContentClick { abs_line: line, inner_col: col }))
            == v.content_clicked(line, col),
        v.after(
            Action::Chat(
                ChatAction::SelectionExtend { abs_line: line, inner_col: col, mouse_row },
            ),
        ).app == v.selection_drawn(line, col, mouse_row),
        v.after(Action::Chat(ChatAction::SelectionFinish)) == v.selection_copied(),
        v.after(Action::Chat(ChatAction::SelectionClear)).app == (AppView {
            chat: ChatView {
                selection_anchor: None,
                selection_end: None,
                is_selecting: false,
                ..v.chat
            },
            ..v
        }),
        v.after(Action::Chat(ChatAction::SelectionClear)).effects.len() == 0,
{
    reveal(AppView::after);
    reveal(AppView::chat_step);
}

/// The editor is scrolled by the keys that it knows for that, where it shows the
/// conversation.
#[verifier::rlimit(40)]
pub proof fn law_editor_is_scrolled_by_keys(v: AppView)
    ensures
        v.after(Action::Chat(ChatAction::NvimScrollUp)).app == v,
        v.after(Action::Chat(ChatAction::NvimScrollDown)).app == v,
        v.nvim.bridge ==> v.after(Action::Chat(ChatAction::NvimScrollUp)).effects == seq![
            EffectView::EditorInput("<C-y>"@),
        ],
        v.nvim.bridge ==> v.after(Action::Chat(ChatAction::NvimScrollDown)).effects == seq![
            EffectView::EditorInput("<C-e>"@),
        ],
        !v.nvim.bridge ==> v.after(Action::Chat(ChatAction::NvimScrollUp)).effects.len() == 0,
        !v.nvim.bridge ==> v.after(Action::Chat(ChatAction::NvimScrollDown)).effects.len() == 0,
{
    reveal(AppView::after);
    reveal(AppView::chat_step);
    if v.nvim.bridge {
        assert(v.after(Action::Chat(ChatAction::NvimScrollUp)).effects =~= seq![
            EffectView::EditorInput("<C-y>"@),
        ]);
        assert(v.after(Action::Chat(ChatAction::NvimScrollDown)).effects =~= seq![
            EffectView::EditorInput("<C-e>"@),
        ]);
    }
}

/// The shortcuts of the chat are shown as a notice: it has nothing to confirm.
#[verifier::rlimit(40)]
pub proof fn law_shortcuts_are_shown(v: AppView)
    ensures
        ({
            let r = v.after(Action::Chat(ChatAction::ShowChatHelp));
            &&& r.app.ui.confirm_modal matches Some(m) && m.action is None && m.title
                == "Chat shortcuts"@ && m.focused_button == 0
            &&& r.app == AppView {
                ui: UiView { confirm_modal: r.app.ui.confirm_modal, ..v.ui },
                ..v
            }
            &&& r.effects.len() == 0
        }),
{
    reveal(AppView::after);
    reveal(AppView::chat_step);
}

/// Each action of the input is the step that it is named after; what is typed
/// goes into the text that is edited in place, where there is one.
#[verifier::rlimit(40)]
pub proof fn law_input_actions_are_steps(v: AppView, op: InputEdit)
    ensures
        v.edit.is_active() ==> v.after(Action::Input(InputAction::Edit(op))) == v.edit_typed(op),
        !v.edit.is_active() ==> v.after(Action::Input(InputAction::Edit(op))) == v.typed(op),
        v.after(Action::Input(InputAction::PageUp)).app == v.paged_up(),
        v.after(Action::Input(InputAction::PageDown)).app == v.paged_down(),
        v.after(Action::Input(InputAction::ScrollUp)).app == v.wheeled(true),
        v.after(Action::Input(InputAction::ScrollDown)).app == v.wheeled(false),
        v.after(Action::Input(InputAction::HistoryUp)).app == (AppView {
            input: v.input.showing_older(),
            ..v
        }),
        v.after(Action::Input(InputAction::HistoryDown)).app == (AppView {
            input: v.input.showing_newer(),
            ..v
        }),
        v.after(Action::Input(InputAction::Submit)) == v.submitted(),
        v.after(Action::Input(InputAction::Escape)) == v.escaped(),
        v.after(Action::Input(InputAction::EditMessageConfirm)) == v.edit_confirmed(),
        v.after(Action::Input(InputAction::EditMessageCancel)) == v.edit_cancelled(),
        v.after(Action::Input(InputAction::SubmitBufferToAgent)).app == v,
        v.nvim.bridge && !v.agent.busy ==> v.after(
            Action::Input(InputAction::SubmitBufferToAgent),
        ).effects == seq![EffectView::SubmitBuffer],
        !v.nvim.bridge || v.agent.busy ==> v.after(
            Action::Input(InputAction::SubmitBufferToAgent),
        ).effects.len() == 0,
        v.after(Action::Input(InputAction::CompletionNext)) == v.completion_next(),
        v.after(Action::Input(InputAction::CompletionPrev)).app == v.completion_prev(),
        v.after(Action::Input(InputAction::CompletionSelect)) == v.completion_taken(),
        v.after(Action::Input(InputAction::CompletionCancel)).app == (AppView {
            ui: UiView { completion: None, ..v.ui },
            ..v
        }),
{
    reveal(AppView::after);
    reveal(AppView::input_step);
    if v.nvim.bridge && !v.agent.busy {
        assert(v.after(Action::Input(InputAction::SubmitBufferToAgent)).effects =~= seq![
            EffectView::SubmitBuffer,
        ]);
    }
}

// ── Keys for the editor ──────────────────────────────────────────────────────

/// A character is written for the editor as it is, in brackets with the control
/// or the alt key, and as a capital with the shift key where it is a letter.
pub proof fn law_characters_are_written_for_the_editor(c: char, m: KeyModifiers)
    ensures
        ({
            let r = nvim_notation(KeyEvent { code: KeyCode::Char(c), modifiers: m });
            &&& m.control ==> r == Some(seq!['<', 'C', '-', c, '>'])
            &&& !m.control && m.alt ==> r == Some(seq!['<', 'A', '-', c, '>'])
            &&& !m.control && !m.alt && !m.shift ==> r == Some(seq![c])
            &&& !m.control && !m.alt && m.shift && !crate::input::is_letter(c) ==> r == Some(
                seq![c],
            )
            &&& !m.control && !m.alt && m.shift && crate::input::is_letter(c) ==> r == Some(
                crate::input::char_uppercase(c),
            )
        }),
{
    reveal_strlit("<C-");
    reveal_strlit("<A-");
    reveal_strlit(">");
    assert("<C-"@ + seq![c] + ">"@ =~= seq!['<', 'C', '-', c, '>']);
    assert("<A-"@ + seq![c] + ">"@ =~= seq!['<', 'A', '-', c, '>']);
}

/// Two keys that differ are not written alike, where they are named keys: each
/// has a name of its own.
pub proof fn law_named_keys_have_their_names(m: KeyModifiers)
    ensures
        nvim_notation(KeyEvent { code: KeyCode::Esc, modifiers: m }) == Some("<Esc>"@),
        nvim_notation(KeyEvent { code: KeyCode::Backspace, modifiers: m }) == Some("<BS>"@),
        nvim_notation(KeyEvent { code: KeyCode::Delete, modifiers: m }) == Some("<Del>"@),
        nvim_notation(KeyEvent { code: KeyCode::Up, modifiers: m }) == Some("<Up>"@),
        nvim_notation(KeyEvent { code: KeyCode::Down, modifiers: m }) == Some("<Down>"@),
        nvim_notation(KeyEvent { code: KeyCode::Left, modifiers: m }) == Some("<Left>"@),
        nvim_notation(KeyEvent { code: KeyCode::Right, modifiers: m }) == Some("<Right>"@),
        nvim_notation(KeyEvent { code: KeyCode::Home, modifiers: m }) == Some("<Home>"@),
        nvim_notation(KeyEvent { code: KeyCode::End, modifiers: m }) == Some("<End>"@),
        nvim_notation(KeyEvent { code: KeyCode::PageUp, modifiers: m }) == Some("<PageUp>"@),
        nvim_notation(KeyEvent { code: KeyCode::PageDown, modifiers: m }) == Some("<PageDown>"@),
        nvim_notation(KeyEvent { code: KeyCode::Enter, modifiers: m }) == Some(
            if m.control {
                "<C-CR>"@
            } else if m.shift {
                "<S-CR>"@
            } else {
                "<CR>"@
            },
        ),
        nvim_notation(KeyEvent { code: KeyCode::Tab, modifiers: m }) == Some(
            if m.shift {
                "<S-Tab>"@
            } else {
                "<Tab>"@
            },
        ),
        nvim_notation(KeyEvent { code: KeyCode::BackTab, modifiers: m }) is None,
        nvim_notation(KeyEvent { code: KeyCode::Other, modifiers: m }) is None,
{
}

/// The keys that the editor never gets: the prefix of the panes, the pager and
/// submit with the control key alone, help, mode and search without any.
pub proof fn law_front_end_keeps_its_keys(k: KeyEvent)
    ensures
        ({
            let m = k.modifiers;
            let bare = !m.shift && !m.control && !m.alt && !m.other;
            let control = !m.shift && m.control && !m.alt && !m.other;
            is_reserved(k) <==> (control && (k.code == KeyCode::Char('w') || k.code
                == KeyCode::Char('t') || k.code == KeyCode::Enter)) || (bare && (k.code
                == KeyCode::F(1) || k.code == KeyCode::F(4) || k.code == KeyCode::Char('/')))
        }),
{
}

// ── Who takes a key ──────────────────────────────────────────────────────────

/// The topmost overlay takes a key: the help closes with any, then come the
/// team, the question of the agent, that of the front end, the inspector and
/// the pager.
pub proof fn law_topmost_overlay_takes_the_key(v: AppView, k: KeyEvent)
    ensures
        ({
            let ui = v.ui;
            let r = v.route(k);
            &&& r is CloseHelp <==> ui.show_help
            &&& r is Team <==> !ui.show_help && ui.show_team_picker
            &&& r is Question <==> !ui.show_help && !ui.show_team_picker && ui.question_open
            &&& r is Confirm <==> !ui.show_help && !ui.show_team_picker && !ui.question_open
                && ui.confirm_modal is Some
            &&& r is Inspector <==> !ui.show_help && !ui.show_team_picker && !ui.question_open
                && ui.confirm_modal is None && ui.inspector_open
            &&& r is Pager <==> !ui.show_help && !ui.show_team_picker && !ui.question_open
                && ui.confirm_modal is None && !ui.inspector_open && ui.pager_open
            &&& r matches RouteView::Inspector { in_search } ==> in_search == ui.search.active
            &&& r matches RouteView::Pager { in_search } ==> in_search == ui.search.active
            &&& r matches RouteView::Team(a) ==> a == team_key(k)
        }),
{
}

/// Without an overlay, the editor takes the keys that are not kept from it while
/// it shows the chat and that has the focus; the list of completions takes those
/// that it knows while the input has the focus; the key map takes all others,
/// and it is told where the focus is.
pub proof fn law_plain_keys_go_to_the_focus(v: AppView, k: KeyEvent)
    requires
        !v.ui.show_help,
        !v.ui.show_team_picker,
        !v.ui.question_open,
        v.ui.confirm_modal is None,
        !v.ui.inspector_open,
        !v.ui.pager_open,
    ensures
        ({
            let plain = !v.ui.search.active && !v.ui.pending_nav;
            let editor = plain && v.ui.focus == FocusPane::Chat && v.nvim.bridge && !is_reserved(k)
                && nvim_notation(k) is Some;
            let list = plain && v.ui.focus == FocusPane::Input && v.ui.completion is Some
                && completion_key(k) is Some;
            &&& editor ==> v.route(k) == RouteView::Editor(nvim_notation(k)->0)
            &&& list ==> v.route(k) == RouteView::Completion(completion_key(k)->0)
            &&& !editor && !list ==> v.route(k) == RouteView::Mapped(
                KeyContext {
                    in_search: v.ui.search.active,
                    in_input: v.ui.focus == FocusPane::Input,
                    pending_nav: v.ui.pending_nav,
                    in_edit_mode: v.edit.message_index is Some || v.edit.queue_index is Some,
                    in_queue: v.ui.focus == FocusPane::Queue,
                    in_chat_list: v.ui.focus == FocusPane::ChatList,
                },
            )
        }),
{
}

/// In the team picker the arrows and the letters beside them move, enter picks,
/// and escape, the letter of leaving and the shortcut of the picker close it.
pub proof fn law_keys_of_the_picker(k: KeyEvent)
    ensures
        team_key(k) == Some(TeamAction::PickerNext) <==> k.code == KeyCode::Down || k.code
            == KeyCode::Char('j'),
        team_key(k) == Some(TeamAction::PickerPrev) <==> k.code == KeyCode::Up || k.code
            == KeyCode::Char('k'),
        team_key(k) == Some(TeamAction::PickerSelect) <==> k.code == KeyCode::Enter,
        team_key(k) == Some(TeamAction::PickerClose) <==> k.code == KeyCode::Esc || k.code
            == KeyCode::Char('q') || (k.code == KeyCode::Char('a') && k.modifiers.control),
        team_key(k) is Some ==> team_key(k) == Some(TeamAction::PickerNext) || team_key(k) == Some(
            TeamAction::PickerPrev,
        ) || team_key(k) == Some(TeamAction::PickerSelect) || team_key(k) == Some(
            TeamAction::PickerClose,
        ),
{
}

/// In the list of completions the arrows and the tabulator move, enter without a
/// modifier takes, and escape gives up.
pub proof fn law_keys_of_the_completions(k: KeyEvent)
    ensures
        completion_key(k) == Some(InputAction::CompletionNext) <==> k.code == KeyCode::Down || (
        k.code == KeyCode::Tab && !k.modifiers.shift),
        completion_key(k) == Some(InputAction::CompletionPrev) <==> k.code == KeyCode::Up || k.code
            == KeyCode::BackTab,
        completion_key(k) == Some(InputAction::CompletionSelect) <==> k.code == KeyCode::Enter
            && !k.modifiers.shift && !k.modifiers.control && !k.modifiers.alt,
        completion_key(k) == Some(InputAction::CompletionCancel) <==> k.code == KeyCode::Esc,
        completion_key(k) matches Some(a) ==> a is CompletionNext || a is CompletionPrev
            || a is CompletionSelect || a is CompletionCancel,
{
}

/// The first key of a chord is remembered, and nothing else happens; the next
/// key ends the chord, and what it asks for is done. A key without a meaning
/// ends it too.
pub proof fn law_chords_have_two_keys(v: AppView, a: Action)
    ensures
        v.key_mapped(Some(Action::NavPrefix)).app == (AppView {
            ui: UiView { pending_nav: true, ..v.ui },
            ..v
        }),
        v.key_mapped(Some(Action::NavPrefix)).effects.len() == 0,
        !(a is NavPrefix) ==> v.key_mapped(Some(a)) == (AppView {
            ui: UiView { pending_nav: false, ..v.ui },
            ..v
        }).after(a),
        v.key_mapped(None).app == (AppView { ui: UiView { pending_nav: false, ..v.ui }, ..v }),
        v.key_mapped(None).effects.len() == 0,
{
}

/// A key that was routed is taken there: the help closes, the picker and the
/// completions do their step, and the editor gets its key.
pub proof fn law_routed_keys_are_taken(v: AppView, t: TeamAction, a: InputAction, keys: Seq<char>)
    ensures
        v.key_taken(RouteView::CloseHelp).app == (AppView {
            ui: UiView { show_help: false, ..v.ui },
            ..v
        }),
        v.key_taken(RouteView::CloseHelp).effects.len() == 0,
        v.key_taken(RouteView::Team(Some(t))) == v.after(Action::Team(t)),
        v.key_taken(RouteView::Team(None)).app == v,
        v.key_taken(RouteView::Editor(keys)).app == v,
        v.key_taken(RouteView::Editor(keys)).effects == seq![EffectView::EditorInput(keys)],
        v.key_taken(RouteView::Completion(a)) == (AppView {
            ui: UiView { pending_nav: false, ..v.ui },
            ..v
        }).after(Action::Input(a)),
{
    assert(v.key_taken(RouteView::Editor(keys)).effects =~= seq![EffectView::EditorInput(keys)]);
}

// ── The question of the front end ────────────────────────────────────────────

/// What was asked about is done if and only if enter or the space bar is pressed
/// on the first button; both close the question on either button, and so does
/// escape.
pub proof fn law_question_is_confirmed_on_purpose(m: ConfirmView, k: KeyCode)
    ensures
        ({
            let press = k == KeyCode::Enter || k == KeyCode::Char(' ');
            let (rest, done) = answered(m, k);
            &&& done == if press && m.focused_button == 0 {
                m.action
            } else {
                None
            }
            &&& rest is None <==> press || k == KeyCode::Esc
        }),
{
}

/// The arrows and the tabulator lead from one button of a question to the other
/// and back; a notice has one button only. All other keys change nothing.
pub proof fn law_buttons_change_in_turn(m: ConfirmView, k: KeyCode)
    requires
        !(k == KeyCode::Enter || k == KeyCode::Char(' ') || k == KeyCode::Esc),
    ensures
        ({
            let moves = k == KeyCode::Left || k == KeyCode::Right || k == KeyCode::Tab || k
                == KeyCode::BackTab;
            let r = answered(m, k).0;
            &&& r is Some
            &&& r->0 == ConfirmView { focused_button: r->0.focused_button, ..m }
            &&& !moves ==> r->0.focused_button == m.focused_button
            &&& moves && m.action is None ==> r->0.focused_button == 0
            &&& moves && m.action is Some && m.focused_button == 0 ==> r->0.focused_button == 1
            &&& moves && m.action is Some && m.focused_button != 0 ==> r->0.focused_button == 0
        }),
{
}

/// A key in the question changes nothing but the question, unless it confirms;
/// then the question is closed before what was asked about is done.
pub proof fn law_question_takes_its_keys(v: AppView, k: KeyEvent, m: ConfirmView)
    requires
        v.ui.confirm_modal == Some(m),
    ensures
        ({
            let r = v.confirm_pressed(k);
            let press = k.code == KeyCode::Enter || k.code == KeyCode::Char(' ');
            let closed = AppView { ui: UiView { confirm_modal: None, ..v.ui }, ..v };
            &&& press && m.focused_button == 0 && m.action is Some ==> r == closed.confirmed(
                m.action->0,
            )
            &&& !(press && m.focused_button == 0 && m.action is Some) ==> {
                &&& r.app == AppView { ui: UiView { confirm_modal: r.app.ui.confirm_modal, ..v.ui }, ..v }
                &&& r.effects.len() == 0
                &&& press || k.code == KeyCode::Esc ==> r.app.ui.confirm_modal is None
                &&& !press && k.code != KeyCode::Esc ==> r.app.ui.confirm_modal is Some
            }
        }),
{
}

proof fn lemma_other(order: Seq<SessionId>, id: SessionId, i: int)
    requires
        0 <= i <= order.len(),
    ensures
        match other_session(order, id, i) {
            Some(other) => other != id && order.contains(other),
            None => forall|k: int| i <= k < order.len() ==> #[trigger] order[k] == id,
        },
    decreases order.len() - i,
{
    if i < order.len() {
        if order[i] == id {
            lemma_other(order, id, i + 1);
        } else {
            assert(order.contains(order[i]));
        }
    }
}

/// A chat whose deletion was confirmed is deleted. If it is the active one,
/// another of the list is shown first, or a new one where there is no other. The
/// conversation on the screen stays as it is.
#[verifier::rlimit(40)]
pub proof fn law_confirmed_chat_is_deleted(v: AppView, id: SessionId)
    ensures
        ({
            let r = v.confirmed(ConfirmedAction::DeleteChat(id));
            &&& r.app == v
            &&& r.effects.len() > 0
            &&& r.effects.last() == EffectView::DeleteSession(id)
            &&& id != v.sessions.active_id ==> r.effects.len() == 1
            &&& id == v.sessions.active_id ==> r.effects.len() == 2 && match r.effects[0] {
                EffectView::SwitchSession(other) => other != id && v.sessions.order.contains(other),
                EffectView::NewSession => forall|k: int|
                    0 <= k < v.sessions.order.len() ==> #[trigger] v.sessions.order[k] == id,
                _ => false,
            }
        }),
{
    reveal(AppView::confirmed);
    lemma_other(v.sessions.order, id, 0);
}

/// A segment whose removal was confirmed is the one that is removed.
#[verifier::rlimit(40)]
pub proof fn law_confirmed_segment_is_removed(v: AppView, i: usize)
    ensures
        v.confirmed(ConfirmedAction::RemoveSegment(i)) == (AppView {
            chat: ChatView { focused_segment: Some(i), ..v.chat },
            ..v
        }).highlight_removed(),
{
    reveal(AppView::confirmed);
}

/// A deleted chat is no longer among the sessions, its file is deleted, and it
/// is said so; the active chat cannot be deleted.
pub proof fn law_deleted_chat_goes_with_its_file(v: AppView, id: SessionId)
    ensures
        ({
            let r = v.session_deleted(id);
            &&& id == v.sessions.active_id || !v.sessions.has(id) ==> r.app == v && r.effects.len()
                == 0
            &&& id != v.sessions.active_id && v.sessions.has(id) ==> {
                &&& r.app.ui.toasts.len() > 0
                &&& r.app.ui.toasts.last().message == "Chat deleted"@
                &&& v.sessions.entry(id).yaml_path is Some ==> r.effects.len() > 0
                    && r.effects.last() == EffectView::DeleteFile(
                    v.sessions.entry(id).yaml_path->0,
                )
            }
            &&& r.app.chat == v.chat
            &&& r.app.input == v.input
            &&& r.app.queue == v.queue
        }),
{
}

// ── The question of the agent ────────────────────────────────────────────────

/// A digit stands for the option of that number, and for a text of one's own
/// behind the last; a digit past that stands for nothing.
pub proof fn law_digits_choose_options(f: FormView, n: int)
    requires
        !f.other_selected,
        f.current_q < f.option_counts.len(),
        1 <= n <= 9,
    ensures
        ({
            let count = f.option_counts[f.current_q as int];
            let c = f.command(KeyCode::Char(('0' as int + n) as char));
            &&& n <= count ==> c == FormCommand::ToggleOption((n - 1) as usize)
            &&& n == count + 1 ==> c == FormCommand::ActivateOther
            &&& n > count + 1 ==> c == FormCommand::Nothing
        }),
{
}

/// Enter answers the question; on an option while none is chosen it chooses that
/// one first, and on the entry for a text of one's own it begins one where there
/// is none. Escape closes the question.
pub proof fn law_enter_answers(f: FormView)
    requires
        !f.other_selected,
        f.current_q < f.option_counts.len(),
    ensures
        ({
            let count = f.option_counts[f.current_q as int];
            let c = f.command(KeyCode::Enter);
            &&& f.focused_option < count && f.none_chosen ==> c == FormCommand::ToggleAndSubmit(
                f.focused_option,
            )
            &&& f.focused_option < count && !f.none_chosen ==> c == FormCommand::Submit
            &&& f.focused_option == count && !f.other_has_text ==> c == FormCommand::ActivateOther
            &&& f.focused_option == count && f.other_has_text ==> c == FormCommand::Submit
            &&& f.focused_option > count ==> c == FormCommand::Submit
            &&& f.command(KeyCode::Esc) == FormCommand::Cancel
            &&& f.command(KeyCode::Down) == FormCommand::FocusNext
            &&& f.focused_option > 0 ==> f.command(KeyCode::Up) == FormCommand::FocusPrev
            &&& f.focused_option == 0 ==> f.command(KeyCode::Up) == FormCommand::GoBack
            &&& f.command(KeyCode::Char(' ')) == FormCommand::SelectFocused
        }),
{
}

/// While a text of one's own is written, enter ends the writing and escape gives
/// it up; both leave the question open.
pub proof fn law_own_text_ends(f: FormView)
    requires
        f.other_selected,
    ensures
        f.command(KeyCode::Enter) == FormCommand::DeactivateOther,
        f.command(KeyCode::Esc) == FormCommand::CancelOtherEdit,
        f.command(KeyCode::Backspace) == FormCommand::EditOther(InputEdit::Backspace),
        f.command(KeyCode::Delete) == FormCommand::EditOther(InputEdit::Delete),
        f.command(KeyCode::Left) == FormCommand::EditOther(InputEdit::Left),
        f.command(KeyCode::Right) == FormCommand::EditOther(InputEdit::Right),
        f.command(KeyCode::Home) == FormCommand::EditOther(InputEdit::LineStart),
        f.command(KeyCode::End) == FormCommand::EditOther(InputEdit::LineEnd),
        f.command(KeyCode::Up) == FormCommand::Nothing,
        f.command(KeyCode::Tab) == FormCommand::Nothing,
{
}

/// A key that changes the text of one's own changes that as it would the input,
/// and nothing else; every other key leaves the form as it is.
pub proof fn law_own_text_is_edited(f: FormView, op: InputEdit, c: FormCommand)
    ensures
        f.with_edit(FormCommand::EditOther(op)) == (FormView {
            other_input: edited(f.other_input, f.other_cursor, 0, op).0,
            other_cursor: edited(f.other_input, f.other_cursor, 0, op).1,
            ..f
        }),
        !(c is EditOther) ==> f.with_edit(c) == f,
{
}

/// A character that is written goes in at the cursor.
pub proof fn law_own_text_is_written(f: FormView, a: Seq<char>, b: Seq<char>, c: char)
    requires
        f.other_selected,
        f.other_input == a + b,
        f.other_cursor == byte_len(a),
    ensures
        f.with_edit(f.command(KeyCode::Char(c))).other_input == a.push(c) + b,
        f.with_edit(f.command(KeyCode::Char(c))).other_cursor == byte_len(a.push(c)),
{
    law_typed_character_comes_at_the_cursor(a, b, 0, c);
    assert(a.push(c).drop_last() =~= a);
}

// ── The mouse ────────────────────────────────────────────────────────────────

/// A point on a border is the border: one step to either side of the edge of the
/// list of chats and of that between chats and peers, and on the edge of the
/// input or one row above it.
pub proof fn law_borders_are_wide(l: LayoutCache, col: int, row: int, s: int, t: int, q: int)
    ensures
        ({
            let r = area_at(l, col, row, s, t, q);
            let list = l.chat_list_pane;
            let at_list = list.width > 0 && list.x - 1 <= col <= list.x + 1;
            let at_input = l.input_pane.height > 0 && l.input_pane.y - 1 <= row <= l.input_pane.y;
            let at_peers = l.peers_pane.height > 0 && list.height > 0 && l.peers_pane.y - 1 <= row
                <= l.peers_pane.y + 1 && list.x <= col < list.x + list.width;
            &&& r == HitArea::ChatListBorder <==> at_list
            &&& r == HitArea::InputBorder <==> !at_list && at_input
            &&& r == HitArea::PeersSplitBorder <==> !at_list && !at_input && at_peers
        }),
{
}

/// A point away from the borders belongs to the pane that it is in: to a row of
/// the list of chats, to the input, or to a message of the queue.
pub proof fn law_points_belong_to_their_panes(
    l: LayoutCache,
    col: u16,
    row: u16,
    s: int,
    t: int,
    q: usize,
)
    requires
        !(l.chat_list_pane.width > 0 && l.chat_list_pane.x - 1 <= col <= l.chat_list_pane.x + 1),
        !(l.input_pane.height > 0 && l.input_pane.y - 1 <= row <= l.input_pane.y),
        !(l.peers_pane.y - 1 <= row <= l.peers_pane.y + 1),
    ensures
        ({
            let r = area_at(l, col as int, row as int, s, t, q as int);
            let list = l.chat_list_pane;
            let in_list = list.x <= col < list.x + list.width && list.y <= row < list.y
                + list.height;
            let in_input = l.input_pane.y <= row < l.input_pane.y + l.input_pane.height;
            let in_queue = l.queue_pane.y <= row < l.queue_pane.y + l.queue_pane.height;
            &&& in_list && row > list.y ==> r == HitArea::ChatList {
                inner_row: (row - list.y - 1) as usize,
            }
            &&& in_list && row == list.y ==> r == HitArea::ChatList { inner_row: 0 }
            &&& !in_list && in_input ==> r == HitArea::InputPane
            &&& !in_list && !in_input && in_queue ==> {
                let index = row - l.queue_pane.y - 1;
                &&& 0 <= index < q ==> r == HitArea::QueueItem { index: index as usize }
                &&& !(0 <= index < q) ==> r == HitArea::Outside
            }
        }),
{
}

/// A point inside the border of the chat belongs to the line that is drawn
/// there; the last column is the scrollbar where there are more lines than rows.
pub proof fn law_points_of_the_chat(
    l: LayoutCache,
    col: u16,
    row: u16,
    scroll: u16,
    lines: usize,
    q: usize,
)
    requires
        l.chat_list_pane.width == 0,
        l.peers_pane.height == 0,
        l.queue_pane.height == 0,
        l.input_pane.height == 0,
        l.chat_pane.width >= 3,
        l.chat_pane.height >= 3,
        lines < 0x10000,
    ensures
        ({
            let r = area_at(l, col as int, row as int, scroll as int, lines as int, q as int);
            let p = l.chat_pane;
            let inside = p.y < row < p.y + p.height - 1;
            &&& inside && p.x <= col < p.x + p.width - 1 ==> r == HitArea::ChatContent {
                abs_line: (row - p.y - 1 + scroll) as usize,
                inner_col: (col - p.x) as u16,
            }
            &&& inside && col == p.x + p.width - 1 && lines > p.height - 2 ==> r
                == HitArea::ChatScrollbar { rel_row: (row - p.y - 1) as u16 }
            &&& !inside ==> r == HitArea::Outside
        }),
{
}

/// A click does what lies under it: a row of the list, and where no editor shows
/// the chat also the scrollbar, a message of the queue and a line of the chat.
/// Elsewhere it ends a selection.
pub proof fn law_clicks_do_what_lies_there(v: AppView, row: usize, rel: u16, line: usize, col: u16)
    ensures
        v.click_action(HitArea::ChatList { inner_row: row }) == Some(
            Action::List(ListAction::Click { inner_row: row }),
        ),
        v.nvim.disabled ==> {
            &&& v.click_action(HitArea::ChatScrollbar { rel_row: rel }) == Some(
                Action::Chat(ChatAction::ChatScrollbarClick { rel_row: rel }),
            )
            &&& v.click_action(HitArea::QueueItem { index: row }) == Some(
                Action::Queue(QueueAction::Click { index: row }),
            )
            &&& v.click_action(HitArea::ChatContent { abs_line: line, inner_col: col }) == Some(
                Action::Chat(ChatAction::ChatContentClick { abs_line: line, inner_col: col }),
            )
            &&& v.click_action(HitArea::InputPane) == Some(
                Action::Chat(ChatAction::SelectionClear),
            )
            &&& v.click_action(HitArea::Outside) == Some(Action::Chat(ChatAction::SelectionClear))
        },
        !v.nvim.disabled ==> {
            &&& v.click_action(HitArea::ChatScrollbar { rel_row: rel }) is None
            &&& v.click_action(HitArea::QueueItem { index: row }) is None
            &&& v.click_action(HitArea::ChatContent { abs_line: line, inner_col: col }) is None
            &&& v.click_action(HitArea::InputPane) is None
            &&& v.click_action(HitArea::Outside) is None
        },
{
}

/// The wheel scrolls what lies under it, in its own direction: the input, else
/// the chat, or the editor that shows it. Over an overlay it scrolls that.
#[verifier::rlimit(40)]
pub proof fn law_wheel_scrolls_what_lies_there(v: AppView, m: MouseEvent)
    requires
        m.kind is ScrollUp || m.kind is ScrollDown,
    ensures
        ({
            let up = m.kind is ScrollUp;
            let overlay = v.ui.inspector_open || v.ui.pager_open;
            let r = v.moused(m);
            &&& overlay ==> r.app == v && r.effects == seq![EffectView::OverlayScroll(up)]
            &&& !overlay && v.area_under(m) is InputPane ==> r == v.after(
                Action::Input(
                    if up {
                        InputAction::ScrollUp
                    } else {
                        InputAction::ScrollDown
                    },
                ),
            )
            &&& !overlay && !(v.area_under(m) is InputPane) && v.nvim.bridge ==> r == v.after(
                Action::Chat(
                    if up {
                        ChatAction::NvimScrollUp
                    } else {
                        ChatAction::NvimScrollDown
                    },
                ),
            )
            &&& !overlay && !(v.area_under(m) is InputPane) && !v.nvim.bridge ==> r == v.after(
                Action::Chat(
                    if up {
                        ChatAction::ScrollUp
                    } else {
                        ChatAction::ScrollDown
                    },
                ),
            )
        }),
{
    reveal(AppView::moused);
    if v.ui.inspector_open || v.ui.pager_open {
        assert(v.moused(m).effects =~= seq![EffectView::OverlayScroll(m.kind is ScrollUp)]);
    }
}

/// A border that is pressed is held by the place where it was grabbed; while it
/// is held it follows the mouse, and it is let go with the button. Nothing else
/// happens meanwhile.
#[verifier::rlimit(40)]
pub proof fn law_borders_are_dragged(v: AppView, m: MouseEvent, drag: ResizeDrag)
    ensures
        ({
            let down = MouseEvent { kind: MouseKind::DownLeft, ..m };
            let moved = MouseEvent { kind: MouseKind::DragLeft, ..m };
            let up = MouseEvent { kind: MouseKind::UpLeft, ..m };
            let held = AppView {
                layout: LayoutCache { resize_drag: Some(drag), ..v.layout },
                ..v
            };
            &&& v.area_under(down) is ChatListBorder ==> v.moused(down).app == AppView {
                layout: LayoutCache {
                    resize_drag: Some(
                        ResizeDrag::ChatListWidth {
                            anchor_offset: (m.column - v.layout.chat_list_pane.x) as i16,
                        },
                    ),
                    ..v.layout
                },
                ..v
            }
            &&& v.area_under(down) is PeersSplitBorder ==> v.moused(down).app == AppView {
                layout: LayoutCache {
                    resize_drag: Some(
                        ResizeDrag::PeersSplit {
                            anchor_offset: (m.row - v.layout.peers_pane.y) as i16,
                        },
                    ),
                    ..v.layout
                },
                ..v
            }
            &&& v.area_under(down) is InputBorder ==> v.moused(down).app == AppView {
                layout: LayoutCache {
                    resize_drag: Some(
                        ResizeDrag::InputHeight {
                            anchor_offset: (m.row - v.layout.input_pane.y) as i16,
                        },
                    ),
                    ..v.layout
                },
                ..v
            }
            &&& drag matches ResizeDrag::ChatListWidth { anchor_offset } ==> held.moused(moved).app
                == AppView {
                prefs: v.prefs.with_list_border(m.column, anchor_offset, held.layout),
                ..held
            }
            &&& drag matches ResizeDrag::PeersSplit { anchor_offset } ==> held.moused(moved).app
                == AppView {
                prefs: v.prefs.with_peers_border(m.row, anchor_offset, held.layout),
                ..held
            }
            &&& drag matches ResizeDrag::InputHeight { anchor_offset } ==> held.moused(moved).app
                == AppView {
                prefs: v.prefs.with_input_border(m.row, anchor_offset, held.layout),
                ..held
            }
            &&& held.moused(moved).effects.len() == 0
            &&& held.moused(up).app == AppView {
                layout: LayoutCache { resize_drag: None, ..v.layout },
                ..v
            }
            &&& held.moused(up).effects.len() == 0
        }),
{
    reveal(AppView::moused);
}

/// Away from the borders a click is what lies under it, a drag draws a selection
/// that was begun, and letting go copies one that was drawn. With the pager open
/// none of this happens.
#[verifier::rlimit(40)]
pub proof fn law_mouse_acts_on_the_panes(v: AppView, m: MouseEvent)
    requires
        v.layout.resize_drag is None,
        !(v.area_under(m) is ChatListBorder),
        !(v.area_under(m) is PeersSplitBorder),
        !(v.area_under(m) is InputBorder),
    ensures
        ({
            let r = v.moused(m);
            &&& m.kind is Other ==> r.app == v && r.effects.len() == 0
            &&& v.ui.pager_open && (m.kind is DownLeft || m.kind is DragLeft || m.kind is UpLeft)
                ==> r.app == v && r.effects.len() == 0
            &&& !v.ui.pager_open && m.kind is DownLeft ==> match v.click_action(v.area_under(m)) {
                Some(a) => r == v.after(a),
                None => r.app == v && r.effects.len() == 0,
            }
            &&& !v.ui.pager_open && m.kind is DragLeft && v.nvim.disabled
                && v.chat.selection_anchor is Some ==> r == v.after(
                Action::Chat(
                    ChatAction::SelectionExtend {
                        abs_line: v.drawn_line(m) as usize,
                        inner_col: v.drawn_column(m) as u16,
                        mouse_row: m.row,
                    },
                ),
            )
            &&& !v.ui.pager_open && m.kind is DragLeft && !(v.nvim.disabled
                && v.chat.selection_anchor is Some) ==> r.app == v && r.effects.len() == 0
            &&& !v.ui.pager_open && m.kind is UpLeft && v.nvim.disabled && v.chat.is_selecting
                ==> r == v.after(Action::Chat(ChatAction::SelectionFinish))
            &&& !v.ui.pager_open && m.kind is UpLeft && !(v.nvim.disabled && v.chat.is_selecting)
                ==> r.app == v && r.effects.len() == 0
        }),
{
    reveal(AppView::moused);
}

/// A selection is drawn to the line and the column under the mouse while that is
/// inside the chat, and to the nearest line that can be seen otherwise.
pub proof fn law_selection_follows_the_mouse(v: AppView, m: MouseEvent)
    requires
        v.layout.chat_pane.height >= 3,
        v.chat.lines.len() > 0,
    ensures
        ({
            let p = v.layout.chat_pane;
            let top = p.y + 1;
            let bottom = p.y + p.height - 2;
            let last = v.chat.lines.len() - 1;
            let line = v.drawn_line(m);
            let col = v.drawn_column(m);
            &&& top <= m.row <= bottom && m.row - top + v.chat.scroll_offset <= last ==> line
                == m.row - top + v.chat.scroll_offset
            &&& m.row < top && v.chat.scroll_offset <= last ==> line == v.chat.scroll_offset
            &&& m.row > bottom && bottom - top + v.chat.scroll_offset <= last ==> line == bottom
                - top + v.chat.scroll_offset
            &&& top <= m.row <= bottom && m.row - top + v.chat.scroll_offset > last ==> line
                == last
            &&& p.x <= m.column < p.x + p.width ==> col == m.column - p.x
            &&& m.column < p.x ==> col == 0
            &&& p.width > 0 && m.column >= p.x + p.width ==> col == p.width - 1
        }),
{
}

} // verus!
