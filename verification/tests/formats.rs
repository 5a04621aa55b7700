//! Texts and measures: exact values for what is written, read and cut.

use sven_tui::app::agent_event::AgentEvent;
use sven_tui::app::dispatch::{Action, ChatAction, InputAction, ListAction};
use sven_tui::app::editing::{is_on_boundary, InputEdit};
use sven_tui::app::front::App;
use sven_tui::app::layout_cache::{Rect, ResizeDrag};
use sven_tui::app::queue_state::ModelConfig;
use sven_tui::app::session_manager::SessionId;
use sven_tui::app::startup::AppOptions;
use sven_tui::app::term_mouse::{MouseEvent, MouseKind};
use sven_tui::app::ui_state::{ConfirmModal, ConfirmedAction};
use sven_tui::chat::markdown::{
    arguments_preview, collapsed_preview, format_todos_markdown, message_to_markdown,
    segment_to_markdown, JsonMember,
};
use sven_tui::chat::parse::parse_markdown_to_messages;
use sven_tui::chat::preview::{
    extract_selection_text, segment_short_preview, truncate_to_width, truncate_to_width_exact,
};
use sven_tui::chat::segment::{
    ChatSegment, CompactionStrategyUsed, FunctionCall, Message, MessageContent, Role, TodoItem,
};
use sven_tui::chat::tools::{get_paired_result_idx, result_is_error};
use sven_tui::commands::mcp::{
    discover_mcp_prompts, McpPromptArgInfo, McpPromptCommand, McpPromptInfo,
};
use sven_tui::commands::registry::CommandRegistry;
use sven_tui::commands::{AgentMode, ImmediateAction, SlashCommand};
use sven_tui::input::{to_nvim_notation, KeyCode, KeyEvent, KeyModifiers};
use sven_tui::input_wrap::wrap_content;
use sven_tui::style::{Line, Span};
use sven_tui::StringHashMap;

fn call(arguments: &str) -> Message {
    Message {
        role: Role::Assistant,
        content: MessageContent::ToolCall {
            tool_call_id: "c1".into(),
            function: FunctionCall { name: "read".into(), arguments: arguments.into() },
        },
    }
}

fn app() -> App {
    let model = |name: &str| ModelConfig { provider: "p".into(), name: name.into() };
    App::new(AppOptions {
        mode: AgentMode::Agent,
        model: model("m"),
        default_model: model("m"),
        initial_prompt: None,
        initial_history: vec![],
        logged: None,
        document: None,
        saved: vec![],
        no_nvim: true,
        jsonl_path: None,
        jsonl_load_path: None,
        auto_log_path: None,
        output_chat_path: None,
        chat_path: None,
        new_chat_path: None,
        initial_queue: vec![],
        node_backend: None,
        id: SessionId(1),
        now: 0,
    })
}

// ── Markdown ─────────────────────────────────────────────────────────────────

#[test]
fn arguments_are_indented_where_they_are_json() {
    let names = StringHashMap::new();
    assert_eq!(
        message_to_markdown(&call("{\"a\":1}"), &names),
        "\n**Agent:tool_call:c1**\n🔧 **Tool Call: read**\n```json\n{\n  \"a\": 1\n}\n```\n"
    );
    assert_eq!(
        message_to_markdown(&call("not json"), &names),
        "\n**Agent:tool_call:c1**\n🔧 **Tool Call: read**\n```json\nnot json\n```\n"
    );
}

#[test]
fn a_result_names_its_tool() {
    let mut names = StringHashMap::new();
    let m = Message::tool_result("c1", "ok");
    assert!(message_to_markdown(&m, &names).contains("Tool Response: tool**"));
    names.insert("c1".into(), "read".into());
    assert!(message_to_markdown(&m, &names).contains("Tool Response: read**"));
}

#[test]
fn todos_are_written_with_their_state_in_capitals() {
    let todo = TodoItem { id: "7".into(), content: "Ship".into(), status: "in_progress".into() };
    assert_eq!(
        format_todos_markdown(&vec![todo]),
        "\n**Todo List Updated:**\n\n- **IN_PROGRESS**: Ship (id: 7)\n\n"
    );
    assert_eq!(format_todos_markdown(&vec![]), "\n**Todo List Updated:**\n\n\n");
}

#[test]
fn compaction_is_noted() {
    let names = StringHashMap::new();
    let seg = |strategy, turn| ChatSegment::ContextCompacted {
        tokens_before: 1200,
        tokens_after: 300,
        strategy,
        turn,
    };
    assert_eq!(
        segment_to_markdown(&seg(CompactionStrategyUsed::Structured, 0), &names),
        "\n---\n*Context compacted (structured): 1200 → 300 tokens*\n\n"
    );
    assert_eq!(
        segment_to_markdown(&seg(CompactionStrategyUsed::Emergency, 3), &names),
        "\n---\n*⚠ Context emergency-compacted: 1200 → 300 tokens · tool round 3*\n\n"
    );
}

#[test]
fn folded_calls_show_two_arguments() {
    let names = StringHashMap::new();
    let seg = ChatSegment::Message(call("{\"a\": [\"q\", true], \"b\": \"q\"}"));
    assert!(collapsed_preview(&seg, &names).contains("`a=[\"q\",true] b=q`"));
    let seg = ChatSegment::Message(call("{\"a\":\"x\",\"b\":2,\"c\":3}"));
    assert_eq!(
        collapsed_preview(&seg, &names),
        "\n**Agent:tool_call:c1**\n🔧 **Tool Call: read** `a=x b=2` ▶ click to expand\n"
    );
    let members = Some(Some(vec![("k".to_string(), JsonMember::Text("v".repeat(50)))]));
    assert_eq!(arguments_preview(&members, ""), format!("k={}", "v".repeat(40)));
    let members = Some(Some(vec![
        ("a".to_string(), JsonMember::Other("[\"x\",1]".to_string())),
        ("b".to_string(), JsonMember::Text("x y".to_string())),
        ("c".to_string(), JsonMember::Other("null".to_string())),
    ]));
    assert_eq!(arguments_preview(&members, ""), "a=[\"x\",1] b=x y");
    assert_eq!(arguments_preview(&Some(None), "[1]"), "[1]");
    assert_eq!(arguments_preview(&None, &"z".repeat(70)), "z".repeat(60));
}

#[test]
fn folded_texts_show_their_first_line() {
    let names = StringHashMap::new();
    let seg = ChatSegment::Message(Message::user("  first \nsecond"));
    assert_eq!(
        collapsed_preview(&seg, &names),
        "\n**User:** `first…` ▶ click to expand\n"
    );
}

#[test]
fn broken_markdown_is_refused() {
    assert_eq!(
        parse_markdown_to_messages("**Agent:tool_call:c1**\n🔧 **Tool Call: read**\n```json\n{}"),
        Err("Unclosed code block".to_string())
    );
    assert_eq!(
        parse_markdown_to_messages("**Agent:tool_call:c1**\n```json\n{}\n```"),
        Err("Could not find tool name in previous lines".to_string())
    );
    assert!(parse_markdown_to_messages("**Agent:tool_call:c1\n").is_err());
    assert!(parse_markdown_to_messages("**Tool:c1\n").is_err());
}

// ── Widths ───────────────────────────────────────────────────────────────────

#[test]
fn wide_characters_take_two_columns() {
    assert_eq!(truncate_to_width_exact("日本語", 4), "日本");
    assert_eq!(truncate_to_width_exact("日本語", 5), "日本");
    assert_eq!(truncate_to_width("日本語", 6), "日本語");
    assert_eq!(truncate_to_width("日本語", 5), "日本…");
    assert_eq!(truncate_to_width("abcdef", 4), "abc…");
    let w = wrap_content("日本語", 4, 9);
    assert_eq!(w.lines, vec!["日本", "語"]);
    assert_eq!((w.cursor_row, w.cursor_col), (1, 2));
}

#[test]
fn short_previews_are_quoted() {
    let seg = ChatSegment::Message(Message::user("hello\nthere"));
    assert_eq!(segment_short_preview(Some(&seg)), "\"hello\"");
    let long = ChatSegment::Message(Message::user(&"語".repeat(40)));
    assert_eq!(
        segment_short_preview(Some(&long)),
        format!("\"{}…\"", "語".repeat(30))
    );
}

#[test]
fn a_selection_is_cut_out_of_the_lines() {
    let line = |t: &str| Line { spans: vec![Span::raw(t)] };
    let lines = vec![line("first line"), line("second line"), line("third")];
    assert_eq!(extract_selection_text(&lines, 0, 6, 1, 6), "line\nsecond");
    assert_eq!(extract_selection_text(&lines, 1, 0, 9, 3), "second line\nthird");
    assert_eq!(extract_selection_text(&vec![], 0, 0, 0, 5), "");
}

// ── Keys ─────────────────────────────────────────────────────────────────────

#[test]
fn shifted_letters_are_capitals() {
    let k = |c| KeyEvent { code: KeyCode::Char(c), modifiers: KeyModifiers::shift() };
    assert_eq!(to_nvim_notation(&k('a')).as_deref(), Some("A"));
    assert_eq!(to_nvim_notation(&k('ß')).as_deref(), Some("SS"));
    assert_eq!(to_nvim_notation(&k('1')).as_deref(), Some("1"));
}

// ── Tools ────────────────────────────────────────────────────────────────────

#[test]
fn calls_and_results_are_paired() {
    let segs = vec![
        ChatSegment::Message(call("{}")),
        ChatSegment::Message(Message::tool_result("c1", "ok")),
        ChatSegment::Message(Message::tool_result("c2", "error: no")),
    ];
    assert_eq!(get_paired_result_idx(&segs, 0), Some(1));
    assert_eq!(get_paired_result_idx(&segs, 1), None);
    assert!(!result_is_error(&segs[0]));
    assert!(result_is_error(&segs[2]));
}

// ── Prompts of servers ───────────────────────────────────────────────────────

fn prompt() -> McpPromptInfo {
    McpPromptInfo {
        slash_path: "files/summary".into(),
        description: "Sums up".into(),
        arguments: vec![McpPromptArgInfo { name: "path".into(), description: "".into() }],
        server_name: "files".into(),
        prompt_name: "summary".into(),
    }
}

#[test]
fn prompts_become_commands() {
    let found = discover_mcp_prompts(vec![prompt()]);
    assert_eq!(found.len(), 1);
    assert_eq!(found[0].name(), "files/summary");
    let mut registry = CommandRegistry::empty();
    registry.discover_mcp_prompts(vec![prompt()]);
    let r = registry.get("files/summary").unwrap().execute(vec!["a.txt".into(), "b".into()]);
    assert_eq!(
        r.immediate_action,
        Some(ImmediateAction::FetchPrompt {
            server: "files".into(),
            prompt: "summary".into(),
            arguments: vec![("path".into(), "a.txt".into())],
        })
    );
}

#[test]
fn answers_of_servers_are_sent() {
    let c = McpPromptCommand::from_info(prompt());
    assert_eq!(c.prompt_result(Ok("text".into())).message_to_send.as_deref(), Some("text"));
    assert_eq!(c.prompt_result(Ok("".into())).message_to_send, None);
    assert_eq!(
        c.prompt_result(Err("down".into())).message_to_send.as_deref(),
        Some("Error fetching MCP prompt `files/summary`: down")
    );
}

// ── What can be taken ────────────────────────────────────────────────────────

#[test]
fn what_cannot_be_counted_is_refused() {
    let mut app = app();
    let usage = |input| AgentEvent::TokenUsage {
        input,
        output_tokens: 0,
        cache_read: 0,
        cache_write: 0,
        max_tokens: 0,
        max_output_tokens: 0,
        share: 0,
    };
    assert!(app.accepts_event(&usage(1000)));
    assert!(!app.accepts_event(&usage(u32::MAX)));
    app.agent.total_output_tokens = u32::MAX;
    assert!(app.accepts_event(&AgentEvent::TurnComplete));
    app.agent.output_tokens = 1;
    assert!(!app.accepts_event(&AgentEvent::TurnComplete));
    assert!(app.accepts_event(&AgentEvent::Other));
    app.chat.scroll_offset = u16::MAX;
    assert!(!app.accepts(Action::Chat(ChatAction::ScrollDown)));
    assert!(app.accepts(Action::Chat(ChatAction::ScrollUp)));
    assert!(!app.accepts(Action::List(ListAction::Click { inner_row: usize::MAX }))
        || app.chat_list_scroll_offset() == 0);
}

#[test]
fn levels_have_to_stay_countable() {
    let mut app = app();
    app.chat.segments = vec![
        ChatSegment::Message(call("{}")),
        ChatSegment::Message(Message::user("between")),
        ChatSegment::Message(Message::tool_result("c1", "ok")),
    ];
    assert!(app.chat.can_remove_segment(0));
    app.chat.set_expand_level(1, 0);
    assert!(!app.chat.can_remove_segment(0));
    assert!(app.chat.can_remove_segment(1));
    app.ui.confirm_modal = Some(ConfirmModal::question(
        "Remove",
        "Sure?".into(),
        ConfirmedAction::RemoveSegment(0),
        "Yes",
        "No",
    ));
    let key = |code| KeyEvent { code, modifiers: KeyModifiers::none() };
    assert!(!app.accepts_answer(key(KeyCode::Enter)));
    assert!(!app.accepts_answer(key(KeyCode::Char(' '))));
    assert!(app.accepts_answer(key(KeyCode::Esc)));
    assert!(app.accepts_answer(key(KeyCode::Tab)));
    assert!(app.accepts_answer(key(KeyCode::Right)));
    assert!(app.accepts_answer(key(KeyCode::Char('x'))));
    app.handle_confirm_modal_key(key(KeyCode::Tab));
    assert!(app.accepts_answer(key(KeyCode::Enter)));
    app.handle_confirm_modal_key(key(KeyCode::Enter));
    assert!(app.ui.confirm_modal.is_none());
    assert_eq!(app.chat.segments.len(), 3);
}

#[test]
fn a_cursor_inside_a_character_stops_what_edits_there() {
    assert!(is_on_boundary("", 0));
    assert!(!is_on_boundary("", 1));
    assert!(is_on_boundary("aé", 1));
    assert!(!is_on_boundary("aé", 2));
    assert!(is_on_boundary("aé", 3));
    assert!(!is_on_boundary("aé", 4));
    let mut app = app();
    app.input.buffer = "é".into();
    app.input.cursor = 1;
    let insert = Action::Input(InputAction::Edit(InputEdit::Insert('x')));
    assert!(!app.accepts(insert));
    assert!(!app.accepts(Action::Input(InputAction::CompletionSelect)));
    assert!(app.accepts(Action::Input(InputAction::HistoryUp)));
    assert!(app.accepts(Action::Chat(ChatAction::ScrollUp)));
    app.input.cursor = 2;
    assert!(app.accepts(insert));
    app.dispatch(insert);
    assert_eq!(app.input.buffer, "éx");
}

#[test]
fn panes_off_the_screen_take_no_mouse() {
    let mut app = app();
    let m = MouseEvent { kind: MouseKind::DownLeft, column: 3, row: 3 };
    assert!(app.accepts_mouse(m));
    app.layout.chat_pane = Rect { x: u16::MAX, y: 0, width: 2, height: 2 };
    assert!(!app.accepts_mouse(m));
    app.ui.pager_open = true;
    assert!(app.accepts_mouse(MouseEvent { kind: MouseKind::ScrollUp, column: 3, row: 3 }));
}

#[test]
fn a_chat_without_a_row_stops_only_the_selection() {
    let mut app = app();
    app.chat.selection_anchor = Some((0, 0));
    app.layout.chat_pane = Rect { x: 0, y: 1, width: 40, height: 2 };
    let at = |kind| MouseEvent { kind, column: 3, row: 2 };
    assert!(!app.accepts_mouse(at(MouseKind::DragLeft)));
    for kind in [
        MouseKind::ScrollUp,
        MouseKind::ScrollDown,
        MouseKind::DownLeft,
        MouseKind::UpLeft,
        MouseKind::Other,
    ] {
        assert!(app.accepts_mouse(at(kind)));
    }
    app.chat.selection_anchor = None;
    assert!(app.accepts_mouse(at(MouseKind::DragLeft)));
    app.handle_mouse(at(MouseKind::DragLeft));
    assert_eq!(app.chat.selection_end, None);
    app.chat.selection_anchor = Some((0, 0));
    app.chat.is_selecting = true;
    assert!(app.accepts_mouse(at(MouseKind::UpLeft)));
    app.handle_mouse(at(MouseKind::UpLeft));
    assert_eq!(app.chat.selection_anchor, Some((0, 0)));
    app.layout.chat_pane.height = 3;
    assert!(app.accepts_mouse(at(MouseKind::DragLeft)));
}

#[test]
fn only_a_selection_that_scrolls_down_needs_lines_to_count() {
    let mut app = app();
    app.layout.chat_pane = Rect { x: 0, y: 0, width: 40, height: 12 };
    app.chat.scroll_offset = u16::MAX;
    let draw = |mouse_row| {
        Action::Chat(ChatAction::SelectionExtend { abs_line: 0, inner_col: 0, mouse_row })
    };
    assert!(app.accepts(draw(2)));
    assert!(app.accepts(draw(8)));
    assert!(!app.accepts(draw(9)));
    app.chat.scroll_offset = u16::MAX - 1;
    assert!(app.accepts(draw(9)));
}

#[test]
fn a_border_follows_although_a_selection_has_no_row() {
    let mut app = app();
    app.chat.selection_anchor = Some((0, 0));
    app.layout.chat_pane = Rect { x: 0, y: 1, width: 40, height: 2 };
    app.layout.chat_list_pane = Rect { x: 40, y: 1, width: 40, height: 10 };
    app.layout.resize_drag = Some(ResizeDrag::ChatListWidth { anchor_offset: 0 });
    let m = MouseEvent { kind: MouseKind::DragLeft, column: 50, row: 2 };
    assert!(app.accepts_mouse(m));
    app.handle_mouse(m);
    assert_eq!(app.prefs.chat_list_width, 30);
}

#[test]
fn a_session_can_be_changed_in_place() {
    let mut app = app();
    app.sessions.get_mut(SessionId(1)).unwrap().title = "Renamed".into();
    assert_eq!(app.sessions.get(SessionId(1)).unwrap().title, "Renamed");
    assert!(app.sessions.get_mut(SessionId(9)).is_none());
}
