//! Focus, overlays and notifications.

use sven_tui::app::ui_state::{
    select_next, select_prev, AgentPickerStatus, ConfirmModal, ConfirmedAction, TeamPickerEntry,
    Toast, UiState,
};
use sven_tui::commands::completion::CompletionItem;
use sven_tui::style::Color;

fn entry(name: &str, peer: &str, local: bool) -> TeamPickerEntry {
    TeamPickerEntry {
        name: name.to_string(),
        role: "teammate".to_string(),
        peer_id: peer.to_string(),
        status: AgentPickerStatus::Active,
        current_task: None,
        is_local: local,
    }
}

fn ui_with_team() -> UiState {
    let mut ui = UiState::new();
    ui.team_picker_entries = vec![
        entry("alice", "peer-alice", true),
        entry("bob", "peer-bob", false),
        entry("carol", "peer-carol", false),
    ];
    ui
}

fn item(value: &str) -> CompletionItem {
    CompletionItem { value: value.into(), display: value.into(), description: None, score: 0 }
}

// ── The team picker ──────────────────────────────────────────────────────────

#[test]
fn toggle_team_picker_flips_visibility() {
    let mut ui = UiState::new();
    assert!(!ui.show_team_picker);
    ui.toggle_team_picker();
    assert!(ui.show_team_picker);
    ui.toggle_team_picker();
    assert!(!ui.show_team_picker);
}

#[test]
fn cycle_forward_empty_returns_none() {
    let mut ui = UiState::new();
    assert!(ui.cycle_teammate_view_forward().is_none());
}

#[test]
fn cycle_forward_from_lead_goes_to_bob() {
    let mut ui = ui_with_team();
    let peer = ui.cycle_teammate_view_forward();
    assert_eq!(peer, Some("peer-bob"));
    assert_eq!(ui.active_session_peer.as_deref(), Some("peer-bob"));
}

#[test]
fn cycle_forward_from_bob_goes_to_carol() {
    let mut ui = ui_with_team();
    ui.active_session_peer = Some("peer-bob".to_string());
    let peer = ui.cycle_teammate_view_forward();
    assert_eq!(peer, Some("peer-carol"));
}

#[test]
fn cycle_forward_from_carol_wraps_to_lead() {
    let mut ui = ui_with_team();
    ui.active_session_peer = Some("peer-carol".to_string());
    let peer = ui.cycle_teammate_view_forward();
    assert!(peer.is_none());
    assert!(ui.active_session_peer.is_none());
}

#[test]
fn cycle_backward_empty_returns_none() {
    let mut ui = UiState::new();
    assert!(ui.cycle_teammate_view_backward().is_none());
}

#[test]
fn cycle_backward_from_lead_goes_to_carol() {
    let mut ui = ui_with_team();
    let peer = ui.cycle_teammate_view_backward();
    assert_eq!(peer, Some("peer-carol"));
}

#[test]
fn cycle_backward_from_bob_goes_to_lead() {
    let mut ui = ui_with_team();
    ui.active_session_peer = Some("peer-bob".to_string());
    let peer = ui.cycle_teammate_view_backward();
    assert!(peer.is_none());
    assert!(ui.active_session_peer.is_none());
}

#[test]
fn team_picker_next_advances_selection() {
    let mut ui = ui_with_team();
    ui.team_picker_next();
    assert_eq!(ui.team_picker_state.list_state.selected(), Some(1));
}

#[test]
fn team_picker_prev_wraps_to_last() {
    let mut ui = ui_with_team();
    ui.team_picker_prev();
    assert_eq!(
        ui.team_picker_state.list_state.selected(),
        Some(ui.team_picker_entries.len() - 1)
    );
}

#[test]
fn team_picker_selected_peer_returns_correct_id() {
    let mut ui = ui_with_team();
    ui.team_picker_next();
    assert_eq!(ui.team_picker_selected_peer(), Some("peer-bob"));
}

#[test]
fn cycling_forward_and_back_returns_to_the_member() {
    let mut ui = ui_with_team();
    ui.active_session_peer = Some("peer-bob".to_string());
    ui.cycle_teammate_view_forward();
    ui.cycle_teammate_view_backward();
    assert_eq!(ui.active_session_peer.as_deref(), Some("peer-bob"));
}

#[test]
fn selection_moves_and_wraps() {
    assert_eq!(select_next(Some(2), 3), Some(0));
    assert_eq!(select_prev(Some(0), 3), Some(2));
    assert_eq!(select_next(None, 3), Some(0));
    assert_eq!(select_prev(None, 3), Some(2));
    assert_eq!(select_next(Some(1), 0), Some(1));
}

// ── Notifications ────────────────────────────────────────────────────────────

#[test]
fn push_toast_caps_at_five() {
    let mut ui = UiState::new();
    for i in 0..7 {
        ui.push_toast(Toast::info(format!("msg {i}")));
    }
    assert_eq!(ui.toasts.len(), 5);
    assert_eq!(ui.toasts.last().unwrap().message, "msg 6");
}

#[test]
fn toasts_go_after_three_seconds() {
    let mut ui = UiState::new();
    ui.clock_ms = 10_000;
    ui.push_toast(Toast::info("early".into()));
    ui.clock_ms = 12_000;
    ui.push_toast(Toast::info("late".into()));
    ui.clock_ms = 13_000;
    ui.prune_toasts();
    assert_eq!(ui.toasts.len(), 2);
    ui.clock_ms = 13_001;
    ui.prune_toasts();
    assert_eq!(ui.toasts.len(), 1);
    assert_eq!(ui.toasts[0].message, "late");
}

#[test]
fn toasts_have_the_colour_of_their_kind() {
    assert_eq!(Toast::info("a".into()).color, Color::Cyan);
    assert_eq!(Toast::success("a".into()).color, Color::Green);
    assert_eq!(Toast::warning("a".into()).color, Color::Yellow);
    assert_eq!(Toast::error("a".into()).color, Color::Red);
    assert!(Toast::info("a".into()).is_expired(3001));
    assert!(!Toast::info("a".into()).is_expired(3000));
}

// ── Completions and questions ────────────────────────────────────────────────

#[test]
fn offering_keeps_the_selection_within_the_list() {
    let mut ui = UiState::new();
    ui.offer_completions(vec![item("a"), item("b"), item("c")]);
    assert_eq!(ui.completion.as_ref().unwrap().selected, 0);
    ui.completion.as_mut().unwrap().selected = 2;
    ui.offer_completions(vec![item("a"), item("b")]);
    assert_eq!(ui.completion.as_ref().unwrap().selected, 1);
    ui.offer_completions(vec![]);
    assert!(ui.completion.is_none());
}

#[test]
fn a_notice_has_nothing_to_confirm() {
    let n = ConfirmModal::info_with_border("Title", "Text", Color::Green);
    assert_eq!(n.action, None);
    assert_eq!(n.border_color, Some(Color::Green));
    let q = ConfirmModal::question(
        "T",
        "M".into(),
        ConfirmedAction::RemoveSegment(4),
        " Yes ",
        " No ",
    );
    assert_eq!(q.action, Some(ConfirmedAction::RemoveSegment(4)));
    assert_eq!(q.labels, Some((" Yes ".to_string(), " No ".to_string())));
    assert_eq!(q.focused_button, 0);
}
