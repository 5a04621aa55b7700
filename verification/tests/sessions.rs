//! Sessions, keys, the mouse, frames, the display and what is saved.

use sven_tui::app::agent_event::AgentEvent;
use sven_tui::app::dispatch::{Action, ListAction, PaneAction};
use sven_tui::app::display::{draw_segment, SegmentFace, SegmentPlan};
use sven_tui::app::editing::InputEdit;
use sven_tui::app::file_watcher::{check_for_changes, FileChangeEvent, WatchReport};
use sven_tui::app::frame::{InputEditMode, Panes, Screen};
use sven_tui::app::front::{App, Effect};
use sven_tui::app::hit_test::{hit_test, HitArea};
use sven_tui::app::layout_cache::{LayoutCache, Rect, ResizeDrag};
use sven_tui::app::queue_state::{ModelConfig, QueuedMessage};
use sven_tui::app::session_manager::{ChatHeader, ChatStatus, SessionEntry, SessionId};
use sven_tui::app::session_switch::Loaded;
use sven_tui::app::startup::AppOptions;
use sven_tui::app::term_keys::{FormCommand, KeyRoute, QuestionForm};
use sven_tui::app::term_mouse::{MouseEvent, MouseKind};
use sven_tui::app::ui_state::{ConfirmModal, ConfirmedAction, FocusPane};
use sven_tui::chat::history::{segments_from_records, ConversationRecord};
use sven_tui::chat::preview::osc52_copy;
use sven_tui::chat::segment::{
    ChatSegment, CompactionStrategyUsed, FunctionCall, Message, MessageContent, Role,
};
use sven_tui::chat::tools::ToolTheme;
use sven_tui::commands::AgentMode;
use sven_tui::input::{KeyCode, KeyEvent, KeyModifiers};
use sven_tui::style::{Color, Line, Span};

fn app() -> App {
    let model = |name: &str| ModelConfig { provider: "openai".into(), name: name.into() };
    let mut app = App::new(AppOptions {
        mode: AgentMode::Agent,
        model: model("first"),
        default_model: model("later"),
        initial_prompt: None,
        initial_history: vec![],
        logged: None,
        document: None,
        saved: vec![],
        no_nvim: true,
        jsonl_path: None,
        jsonl_load_path: None,
        auto_log_path: None,
        output_chat_path: None,
        chat_path: None,
        new_chat_path: Some("/chats/1.yaml".into()),
        initial_queue: vec![],
        node_backend: None,
        id: SessionId(1),
        now: 100,
    });
    app.connect_agent();
    app
}

fn user(text: &str) -> ChatSegment {
    ChatSegment::Message(Message::user(text))
}

fn key(code: KeyCode) -> KeyEvent {
    KeyEvent { code, modifiers: KeyModifiers::none() }
}

fn rect(x: u16, y: u16, width: u16, height: u16) -> Rect {
    Rect { x, y, width, height }
}

fn panes() -> Panes {
    Panes {
        chat: rect(0, 1, 60, 12),
        input: rect(0, 15, 60, 5),
        queue: rect(0, 13, 60, 2),
        chat_list: rect(60, 1, 20, 10),
        peers: rect(60, 11, 20, 9),
    }
}

fn mouse(kind: MouseKind, column: u16, row: u16) -> MouseEvent {
    MouseEvent { kind, column, row }
}

fn lines(n: usize) -> Vec<Line> {
    (0..n).map(|i| Line { spans: vec![Span::raw(&format!("line {i}"))] }).collect()
}

// ── Sessions ─────────────────────────────────────────────────────────────────

#[test]
fn a_new_session_leaves_the_old_one_as_it_is() {
    let mut app = app();
    app.chat.segments.push(user("kept"));
    app.dispatch(Action::Input(sven_tui::app::dispatch::InputAction::Edit(InputEdit::Insert('d'))));
    let e = app.new_session(SessionId(2), Some("/chats/2.yaml".into()), 200);
    assert!(matches!(e[0], Effect::SpawnAgent(SessionId(2))));
    assert_eq!(app.sessions.active_id, SessionId(2));
    assert!(app.chat.segments.is_empty());
    assert_eq!(app.input.buffer, "");
    assert_eq!(app.session.model_display, "openai/later");
    assert_eq!(app.sessions.display_order[0], SessionId(2));
    app.agent_spawned(SessionId(2));
    let e = app.switch_session(SessionId(1), Loaded::Nothing, 300);
    assert!(!e.iter().any(|x| matches!(x, Effect::SpawnAgent(_))));
    assert_eq!(app.chat.segments, vec![user("kept")]);
    assert_eq!(app.input.buffer, "d");
    assert_eq!(app.input.cursor, 1);
    assert_eq!(app.session.model_display, "openai/first");
    assert_eq!(app.yaml_path.as_deref(), Some("/chats/1.yaml"));
}

#[test]
fn a_session_without_an_agent_gets_one() {
    let mut app = app();
    app.sessions.create_session(SessionId(5), "Other", 10);
    let e = app.switch_session(SessionId(5), Loaded::Nothing, 20);
    assert!(matches!(e[0], Effect::SpawnAgent(SessionId(5))));
    assert!(matches!(e[1], Effect::Rerender));
    assert!(matches!(e[2], Effect::ScrollToBottom));
    assert_eq!(app.chat_title, "Other");
}

#[test]
fn a_saved_chat_is_read_when_it_is_entered() {
    let mut app = app();
    let header = |title: &str| ChatHeader {
        id: SessionId(7),
        title: title.into(),
        status: ChatStatus::Active,
        path: "/chats/7.yaml".into(),
        created_at: 1,
        updated_at: 2,
    };
    app.sessions.load_from_disk(vec![header("Saved")]);
    assert_eq!(app.chat_sources(SessionId(7)).0.as_deref(), Some("/chats/7.yaml"));
    assert_eq!(app.chat_sources(SessionId(8)), (None, None));
    app.switch_session(
        SessionId(7),
        Loaded::Document {
            header: header("Renamed"),
            messages: vec![Message::system("rules"), Message::user("hi")],
        },
        20,
    );
    assert_eq!(app.chat.segments, vec![user("hi")]);
    assert_eq!(app.chat_title, "Renamed");
    app.switch_session(SessionId(1), Loaded::Nothing, 30);
    assert_eq!(app.chat_sources(SessionId(7)), (None, None));
}

#[test]
fn the_text_of_a_subagent_is_shown() {
    let mut app = app();
    app.sessions.create_session(SessionId(4), "Sub", 10);
    app.switch_session(SessionId(4), Loaded::Text("done".into()), 20);
    assert_eq!(app.chat.segments, vec![ChatSegment::Message(Message::assistant("done"))]);
}

#[test]
fn a_background_session_follows_its_agent() {
    let mut app = app();
    app.sessions.create_session(SessionId(2), "Other", 10);
    app.handle_session_event(SessionId(2), AgentEvent::TextDelta("x".into()), 20);
    assert!(app.sessions.get(SessionId(2)).unwrap().busy);
    assert!(app.is_animated());
    app.handle_session_event(SessionId(2), AgentEvent::TurnComplete, 30);
    assert!(!app.sessions.get(SessionId(2)).unwrap().busy);
    assert!(!app.is_animated());
}

#[test]
fn a_chat_is_deleted_when_the_question_is_answered() {
    let mut app = app();
    app.sessions.create_session(SessionId(2), "Other", 10);
    app.sessions.sync_list_selection_to_active();
    app.dispatch(Action::List(ListAction::DeleteChat));
    let m = app.ui.confirm_modal.as_ref().unwrap();
    assert_eq!(m.action, Some(ConfirmedAction::DeleteChat(SessionId(1))));
    assert!(matches!(app.route_key(key(KeyCode::Enter)), KeyRoute::Confirm));
    let focused = m.focused_button;
    if focused != 0 {
        app.handle_confirm_modal_key(key(KeyCode::Tab));
    }
    let e = app.handle_confirm_modal_key(key(KeyCode::Enter));
    assert!(app.ui.confirm_modal.is_none());
    assert!(matches!(e[0], Effect::SwitchSession(SessionId(2))));
    assert!(matches!(e[1], Effect::DeleteSession(SessionId(1))));
    app.switch_session(SessionId(2), Loaded::Nothing, 20);
    let e = app.delete_session(SessionId(1));
    assert!(matches!(&e[0], Effect::DeleteFile(p) if p == "/chats/1.yaml"));
    assert!(app.sessions.get(SessionId(1)).is_none());
    assert_eq!(app.ui.toasts.last().unwrap().message, "Chat deleted");
}

#[test]
fn a_session_goes_with_all_its_subagents() {
    let mut app = app();
    let sub = |id, parent| SessionEntry::new_subagent(
        SessionId(id),
        "Sub",
        SessionId(parent),
        None,
        "go".into(),
        20,
    );
    app.sessions.create_session(SessionId(2), "Other", 10);
    app.sessions.add_child_session(SessionId(2), sub(3, 2));
    app.sessions.add_child_session(SessionId(3), sub(4, 3));
    app.sessions.add_child_session(SessionId(1), sub(5, 1));
    app.sessions.get_mut(SessionId(3)).unwrap().yaml_path = Some("/chats/3.yaml".into());
    let mut files = Vec::new();
    assert!(!app.sessions.delete(SessionId(1), &mut files));
    assert!(app.sessions.delete(SessionId(2), &mut files));
    assert_eq!(files, ["/chats/3.yaml"]);
    for gone in [2, 3, 4] {
        assert!(app.sessions.get(SessionId(gone)).is_none());
    }
    for kept in [1, 5] {
        assert!(app.sessions.get(SessionId(kept)).is_some());
    }
    assert_eq!(app.sessions.tree_rows(), [(SessionId(1), 0), (SessionId(5), 1)]);
}

#[test]
fn questions_can_be_declined() {
    let mut app = app();
    app.ui.confirm_modal = Some(ConfirmModal::question(
        "Remove",
        "Sure?".into(),
        ConfirmedAction::RemoveSegment(0),
        "Remove",
        "Cancel",
    ));
    app.ui.confirm_modal.as_mut().unwrap().focused_button = 0;
    app.chat.segments.push(user("kept"));
    app.handle_confirm_modal_key(key(KeyCode::Right));
    assert_eq!(app.ui.confirm_modal.as_ref().unwrap().focused_button, 1);
    assert!(app.handle_confirm_modal_key(key(KeyCode::Enter)).is_empty());
    assert!(app.ui.confirm_modal.is_none());
    assert_eq!(app.chat.segments.len(), 1);
}

#[test]
fn the_list_is_walked_and_archived() {
    let mut app = app();
    app.sessions.create_session(SessionId(2), "Other", 10);
    app.sessions.sync_list_selection_to_active();
    let at = app.sessions.list_selected;
    app.dispatch(Action::List(ListAction::SelectPrev));
    app.dispatch(Action::List(ListAction::SelectNext));
    assert_eq!(app.sessions.list_selected, at);
    let rows = app.sessions.tree_rows();
    assert_eq!(rows.len(), 2);
    app.dispatch(Action::List(ListAction::ArchiveChat));
    assert_eq!(app.sessions.get(SessionId(1)).unwrap().status, ChatStatus::Archived);
    let e = app.dispatch(Action::List(ListAction::NewChat));
    assert!(matches!(e[0], Effect::NewSession));
}

// ── Keys ─────────────────────────────────────────────────────────────────────

#[test]
fn overlays_take_the_keys() {
    let mut app = app();
    let k = key(KeyCode::Char('x'));
    assert!(matches!(app.route_key(k), KeyRoute::Mapped(c) if c.in_input && !c.in_search));
    app.ui.pager_open = true;
    assert!(matches!(app.route_key(k), KeyRoute::Pager { in_search: false }));
    app.ui.inspector_open = true;
    app.ui.search.active = true;
    assert!(matches!(app.route_key(k), KeyRoute::Inspector { in_search: true }));
    app.ui.question_open = true;
    assert!(matches!(app.route_key(k), KeyRoute::Question));
    app.ui.show_team_picker = true;
    assert!(matches!(app.route_key(k), KeyRoute::Team(None)));
    app.ui.show_help = true;
    assert!(matches!(app.route_key(k), KeyRoute::CloseHelp));
    app.press_routed(KeyRoute::CloseHelp);
    assert!(!app.ui.show_help);
}

#[test]
fn the_editor_gets_the_keys_of_the_chat() {
    let mut app = app();
    app.connect_editor();
    app.ui.focus = FocusPane::Chat;
    let route = app.route_key(key(KeyCode::Char('j')));
    assert!(matches!(&route, KeyRoute::Editor(k) if k == "j"));
    let e = app.press_routed(route);
    assert!(matches!(&e[0], Effect::EditorInput(k) if k == "j"));
    let reserved = KeyEvent { code: KeyCode::Char('w'), modifiers: KeyModifiers::control() };
    assert!(matches!(app.route_key(reserved), KeyRoute::Mapped(_)));
}

#[test]
fn a_prefix_waits_for_the_next_key() {
    let mut app = app();
    app.press_mapped(Some(Action::NavPrefix));
    assert!(app.ui.pending_nav);
    app.press_mapped(Some(Action::Pane(PaneAction::NavUp)));
    assert!(!app.ui.pending_nav);
    assert_eq!(app.ui.focus, FocusPane::Chat);
    app.press_mapped(Some(Action::NavPrefix));
    assert!(app.press_mapped(None).is_empty());
    assert!(!app.ui.pending_nav);
}

#[test]
fn the_form_of_a_question_takes_keys() {
    let mut f = QuestionForm {
        current_q: 0,
        option_counts: vec![2],
        focused_option: 0,
        none_chosen: true,
        other_has_text: false,
        other_selected: false,
        other_input: String::new(),
        other_cursor: 0,
    };
    assert_eq!(f.handle_modal_key(key(KeyCode::Char('1'))), FormCommand::ToggleOption(0));
    assert_eq!(f.handle_modal_key(key(KeyCode::Char('3'))), FormCommand::ActivateOther);
    assert_eq!(f.handle_modal_key(key(KeyCode::Char('4'))), FormCommand::Nothing);
    assert_eq!(f.handle_modal_key(key(KeyCode::Enter)), FormCommand::ToggleAndSubmit(0));
    assert_eq!(f.handle_modal_key(key(KeyCode::Up)), FormCommand::GoBack);
    assert_eq!(f.handle_modal_key(key(KeyCode::Esc)), FormCommand::Cancel);
    f.focused_option = 2;
    assert_eq!(f.handle_modal_key(key(KeyCode::Enter)), FormCommand::ActivateOther);
    f.other_selected = true;
    f.handle_modal_key(key(KeyCode::Char('é')));
    f.handle_modal_key(key(KeyCode::Char('!')));
    assert_eq!((f.other_input.as_str(), f.other_cursor), ("é!", 3));
    f.handle_modal_key(key(KeyCode::Home));
    f.handle_modal_key(key(KeyCode::Delete));
    assert_eq!((f.other_input.as_str(), f.other_cursor), ("!", 0));
    assert_eq!(f.handle_modal_key(key(KeyCode::Enter)), FormCommand::DeactivateOther);
    assert_eq!(f.handle_modal_key(key(KeyCode::Esc)), FormCommand::CancelOtherEdit);
    f.other_input = "é".into();
    f.other_cursor = 1;
    assert!(!f.accepts_modal_key(key(KeyCode::Char('x'))));
    assert!(f.accepts_modal_key(key(KeyCode::Enter)));
    assert_eq!(f.handle_modal_key(key(KeyCode::Enter)), FormCommand::DeactivateOther);
}

// ── The mouse ────────────────────────────────────────────────────────────────

#[test]
fn places_on_the_screen_are_told_apart() {
    let mut l = LayoutCache::new();
    let p = panes();
    sven_tui::app::frame::measure(&mut l, &p);
    l.chat_list_pane = p.chat_list;
    l.peers_pane = p.peers;
    assert_eq!(hit_test(&l, 60, 5, 0, 50, 1), HitArea::ChatListBorder);
    assert_eq!(hit_test(&l, 70, 4, 0, 50, 1), HitArea::ChatList { inner_row: 2 });
    assert_eq!(hit_test(&l, 70, 11, 0, 50, 1), HitArea::PeersSplitBorder);
    assert_eq!(hit_test(&l, 5, 15, 0, 50, 1), HitArea::InputBorder);
    assert_eq!(hit_test(&l, 5, 17, 0, 50, 1), HitArea::InputPane);
    assert!(matches!(
        hit_test(&l, 5, 4, 7, 50, 1),
        HitArea::ChatContent { abs_line: 9, .. }
    ));
}

#[test]
fn the_border_follows_the_mouse_until_it_is_let_go() {
    let mut app = app();
    app.prefs.chat_list_width = 20;
    app.prepare_frame(&panes());
    app.handle_mouse(mouse(MouseKind::DownLeft, 60, 5));
    assert_eq!(app.layout.resize_drag, Some(ResizeDrag::ChatListWidth { anchor_offset: 0 }));
    app.handle_mouse(mouse(MouseKind::DragLeft, 50, 5));
    assert_eq!(app.prefs.chat_list_width, 30);
    app.handle_mouse(mouse(MouseKind::UpLeft, 50, 5));
    assert_eq!(app.layout.resize_drag, None);
    app.handle_mouse(mouse(MouseKind::DragLeft, 20, 5));
    assert_eq!(app.prefs.chat_list_width, 30);
}

#[test]
fn a_selection_is_drawn_over_the_chat() {
    let mut app = app();
    app.chat.lines = lines(6);
    app.prepare_frame(&panes());
    app.handle_mouse(mouse(MouseKind::DownLeft, 5, 3));
    assert!(app.chat.selection_anchor.is_some());
    app.handle_mouse(mouse(MouseKind::DragLeft, 9, 200));
    assert_eq!(app.chat.selection_end.map(|e| e.0), Some(5));
    assert!(app.chat.is_selecting);
    let e = app.handle_mouse(mouse(MouseKind::UpLeft, 9, 200));
    assert!(matches!(&e[0], Effect::WriteTerminal(_)));
}

#[test]
fn the_wheel_scrolls_what_lies_under_it() {
    let mut app = app();
    app.chat.lines = lines(50);
    app.prepare_frame(&panes());
    app.handle_mouse(mouse(MouseKind::ScrollDown, 5, 5));
    assert!(app.chat.scroll_offset > 0);
    app.ui.pager_open = true;
    let e = app.handle_mouse(mouse(MouseKind::ScrollDown, 5, 5));
    assert!(matches!(e[0], Effect::OverlayScroll(false)));
}

// ── Frames ───────────────────────────────────────────────────────────────────

#[test]
fn the_input_grows_with_its_text() {
    let mut app = app();
    assert_eq!(app.desired_input_height(80, 40), 5);
    app.input.buffer = "a\nb\nc\nd\ne".into();
    assert_eq!(app.desired_input_height(80, 40), 7);
    app.input.buffer = "\n".repeat(100);
    assert_eq!(app.desired_input_height(80, 40), 20);
    assert_eq!(app.desired_input_height(80, 4), 3);
}

#[test]
fn what_is_edited_does_not_count_on_a_new_size() {
    let mut app = app();
    app.input.buffer = "a\nb\nc\nd\ne".into();
    app.edit.message_index = Some(0);
    app.edit.buffer = "a\nb\nc\nd\ne\nf\ng".into();
    assert_eq!(app.desired_input_height(80, 40), 9);
    assert_eq!(app.resized_input_height(80, 40), 7);
    assert_eq!(app.resized_input_height(80, 4), 3);
}

#[test]
fn the_chat_is_measured_before_there_was_a_frame() {
    let mut app = app();
    app.chat.lines = lines(30);
    app.measure_chat(&panes());
    assert_eq!(app.layout.chat_height, 10);
    app.scroll_to_bottom();
    assert_eq!(app.chat.scroll_offset, 20);
    let mut flat = panes();
    flat.chat.height = 1;
    app.measure_chat(&flat);
    assert_eq!(app.layout.chat_height, 1);
}

#[test]
fn a_frame_is_measured_before_it_is_drawn() {
    let mut app = app();
    app.chat.lines = lines(30);
    app.chat.scroll_offset = 400;
    app.needs_terminal_recover = true;
    assert!(app.prepare_frame(&panes()));
    assert!(!app.prepare_frame(&panes()));
    assert_eq!(app.layout.chat_height, 10);
    assert_eq!(app.layout.chat_inner_width, 60);
    assert_eq!(app.layout.input_inner_width, 58);
    assert_eq!(app.chat.scroll_offset, 20);
}

#[test]
fn a_frame_shows_what_the_state_says() {
    let mut app = app();
    let p = app.plan_frame(&panes());
    assert_eq!(p.screen, Screen::Panes);
    assert!(p.show_welcome);
    assert_eq!(p.model_label, "openai/first");
    assert_eq!(p.edit_mode, InputEditMode::Normal);
    assert!(p.input_focused && p.show_chat_list);
    app.chat.segments.push(user("q"));
    app.is_node_proxy = true;
    app.ui.pager_open = true;
    app.queue.push(QueuedMessage::plain("m".into()));
    let p = app.plan_frame(&panes());
    assert_eq!(p.screen, Screen::Pager);
    assert!(!p.show_welcome);
    assert_eq!(p.model_label, "node");
    app.ui.inspector_open = true;
    assert_eq!(app.plan_frame(&panes()).screen, Screen::Inspector);
}

#[test]
fn another_size_is_passed_on() {
    let mut app = app();
    app.ui.pager_open = true;
    let e = app.handle_resize(&panes());
    assert!(matches!(e[0], Effect::Rerender));
    assert!(matches!(e[1], Effect::RefreshPager));
    app.connect_editor();
    let e = app.handle_resize(&panes());
    assert!(matches!(e[0], Effect::EditorResize(58, 10)));
}

// ── The display ──────────────────────────────────────────────────────────────

#[test]
fn segments_are_put_together() {
    let mut app = app();
    app.chat.segments = vec![user("q"), ChatSegment::Message(Message::assistant("a"))];
    let plans = app.chat.plan_display(true);
    assert!(matches!(&plans[0], SegmentPlan::Markdown(t) if t.contains("q")));
    let theme = ToolTheme { bar: Color::Cyan, error: Color::Red };
    let parts: Vec<Vec<Line>> = app
        .chat
        .segments
        .iter()
        .zip(plans.iter())
        .map(|(s, p)| draw_segment(s, p, &SegmentFace::Rendered(lines(2)), "|", theme))
        .collect();
    assert_eq!(parts[0].len(), 2);
    assert!(parts[0][0].spans[0].content.starts_with('|'));
    app.chat.build_display_from_segments(true, parts, lines(1), 10);
    assert_eq!(app.chat.lines.len(), 5);
    assert_eq!(app.chat.segment_line_ranges, vec![(0, 2), (2, 4)]);
    assert_eq!(app.chat.edit_labels, vec![0, 2]);
    assert_eq!(app.chat.copy_labels, vec![0, 2]);
}

#[test]
fn what_is_received_is_shown_below() {
    let mut app = app();
    assert_eq!(app.chat.plan_streaming_tail("T", "_"), None);
    app.chat.streaming_buffer = "some  text".into();
    assert_eq!(app.chat.plan_streaming_tail("T", "_").unwrap(), "**Agent:** some  text_");
    let drawn = app.chat.draw_streaming_tail(&lines(1), "|");
    assert_eq!(drawn[0].spans[0].content, "|");
    assert_eq!(drawn[0].spans[0].style.fg, Some(Color::Blue));
    app.chat.streaming_is_thinking = true;
    let drawn = app.chat.draw_streaming_tail(&lines(1), "|");
    assert_eq!(drawn[0].spans[0].style.fg, Some(Color::Magenta));
    assert_eq!(
        app.chat.plan_streaming_tail("T", "_").unwrap(),
        "T **Seasoning**  _  `some text`"
    );
}

// ── Saving and watching ──────────────────────────────────────────────────────

#[test]
fn a_saved_log_is_read_back() {
    let mut app = app();
    app.jsonl_path = Some("/log.jsonl".into());
    app.chat.segments = vec![
        user("q"),
        ChatSegment::Thinking { content: "hm".into() },
        ChatSegment::Message(Message {
            role: Role::Assistant,
            content: MessageContent::ToolCall {
                tool_call_id: "c".into(),
                function: FunctionCall { name: "read".into(), arguments: "{}".into() },
            },
        }),
        ChatSegment::Message(Message::tool_result("c", "ok")),
        ChatSegment::ContextCompacted {
            tokens_before: 9,
            tokens_after: 3,
            strategy: CompactionStrategyUsed::Narrative,
            turn: 2,
        },
    ];
    let plan = app.plan_save(500).unwrap();
    assert_eq!(plan.jsonl_path.as_deref(), Some("/log.jsonl"));
    assert_eq!(plan.yaml_path.as_deref(), Some("/chats/1.yaml"));
    assert_eq!(plan.document.updated_at, 500);
    assert_eq!(plan.document.model.as_deref(), Some("openai/first"));
    assert_eq!(plan.document.mode.as_deref(), Some("agent"));
    assert_eq!(segments_from_records(&plan.records), app.chat.segments);
}

#[test]
fn an_empty_conversation_is_not_saved() {
    assert!(app().plan_save(1).is_none());
    let records = vec![ConversationRecord::Message(Message::system("rules"))];
    assert!(segments_from_records(&records).is_empty());
}

#[test]
fn changes_of_a_watched_file_are_reported() {
    assert_eq!(check_for_changes(&vec![]), None);
    assert_eq!(check_for_changes(&vec![WatchReport::Other]), None);
    assert_eq!(
        check_for_changes(&vec![
            WatchReport::Other,
            WatchReport::Modified(vec!["/a/chat.md".into()]),
        ]),
        Some(FileChangeEvent::Modified("/a/chat.md".into()))
    );
    assert_eq!(
        check_for_changes(&vec![WatchReport::Failed("gone".into())]),
        Some(FileChangeEvent::Error("gone".into()))
    );
}

#[test]
fn clipboard_texts_are_encoded() {
    assert_eq!(osc52_copy("Hello"), "\u{1b}]52;c;SGVsbG8=\u{7}");
}
