//! The front end as a whole: starting, typing, sending, the queue, the chat.

use std::sync::Arc;

use sven_tui::app::agent_event::AgentEvent;
use sven_tui::app::dispatch::{
    Action, ChatAction, GlobalAction, InputAction, PaneAction, QueueAction, SearchAction, TeamAction,
    CHAT_HELP_MESSAGE,
};
use sven_tui::app::editing::InputEdit;
use sven_tui::app::front::{App, Effect};
use sven_tui::app::input_state::InputState;
use sven_tui::app::queue_state::{ModelConfig, QueuedMessage};
use sven_tui::app::session_manager::{ChatHeader, ChatStatus, SessionId};
use sven_tui::app::startup::{AppOptions, NodeBackend, SavedChat};
use sven_tui::app::steps_paste::{paste_candidate, paste_lines};
use sven_tui::app::ui_state::{AgentPickerStatus, FocusPane, TeamPickerEntry};
use sven_tui::chat::history::ConversationRecord;
use sven_tui::chat::segment::{ChatSegment, FunctionCall, Message, MessageContent, Role};
use sven_tui::commands::completion::CompletionManager;
use sven_tui::commands::registry::CommandRegistry;
use sven_tui::commands::skill::SkillInfo;
use sven_tui::commands::{AgentMode, CommandContext, ImmediateAction};
use sven_tui::style::{Line, Span};

fn model(name: &str) -> ModelConfig {
    ModelConfig { provider: "openai".into(), name: name.into() }
}

fn options() -> AppOptions {
    AppOptions {
        mode: AgentMode::Agent,
        model: model("first"),
        default_model: model("later"),
        initial_prompt: None,
        initial_history: vec![],
        logged: None,
        document: None,
        saved: vec![],
        no_nvim: true,
        jsonl_path: None,
        jsonl_load_path: None,
        auto_log_path: None,
        output_chat_path: None,
        chat_path: None,
        new_chat_path: None,
        initial_queue: vec![],
        node_backend: None,
        id: SessionId(1),
        now: 100,
    }
}

fn app() -> App {
    let mut app = App::new(options());
    app.agent.connected = true;
    app
}

fn header(id: u128, title: &str, updated_at: i64) -> ChatHeader {
    ChatHeader {
        id: SessionId(id),
        title: title.into(),
        status: ChatStatus::Active,
        path: format!("/chats/{id}.yaml"),
        created_at: 1,
        updated_at,
    }
}

fn user(text: &str) -> ChatSegment {
    ChatSegment::Message(Message::user(text))
}

fn agent(text: &str) -> ChatSegment {
    ChatSegment::Message(Message::assistant(text))
}

fn call(id: &str, name: &str) -> ChatSegment {
    ChatSegment::Message(Message {
        role: Role::Assistant,
        content: MessageContent::ToolCall {
            tool_call_id: id.into(),
            function: FunctionCall { name: name.into(), arguments: "{}".into() },
        },
    })
}

fn result(id: &str, text: &str) -> ChatSegment {
    ChatSegment::Message(Message::tool_result(id, text))
}

fn text_of(seg: &ChatSegment) -> &str {
    match seg {
        ChatSegment::Message(m) => m.as_text().unwrap_or(""),
        _ => "",
    }
}

fn lines(texts: &[&str]) -> Vec<Line> {
    texts.iter().map(|t| Line { spans: vec![Span::raw(t)] }).collect()
}

fn input(app: &mut App, op: InputEdit) -> Vec<Effect> {
    app.dispatch(Action::Input(InputAction::Edit(op)))
}

fn type_text(app: &mut App, text: &str) {
    for c in text.chars() {
        input(app, InputEdit::Insert(c));
    }
}

fn chat(app: &mut App, a: ChatAction) -> Vec<Effect> {
    app.dispatch(Action::Chat(a))
}

fn context() -> CommandContext {
    CommandContext {
        providers: vec![],
        catalog: vec![],
        drivers: vec![],
        mcp_servers: vec![],
        current_model_provider: "openai".into(),
        current_model_name: "first".into(),
    }
}

// ── Starting ─────────────────────────────────────────────────────────────────

#[test]
fn starts_with_an_empty_new_chat() {
    let app = App::new(options());
    assert!(app.chat.segments.is_empty());
    assert_eq!(app.chat_title, "New chat");
    assert_eq!(app.session.model_display, "openai/first");
    assert_eq!(app.ui.focus, FocusPane::Input);
    assert_eq!(app.sessions.active_id, SessionId(1));
    assert!(!app.is_node_proxy);
    assert_eq!(app.prefs.input_height, 5);
}

#[test]
fn the_log_comes_before_the_saved_chat() {
    let mut o = options();
    o.logged = Some(vec![
        ConversationRecord::Message(Message::system("rules")),
        ConversationRecord::Message(Message::user("logged")),
    ]);
    o.document = Some(SavedChat {
        header: header(9, "Saved", 5),
        messages: vec![Message::user("saved")],
    });
    let app = App::new(o);
    assert_eq!(app.chat.segments.len(), 1);
    assert_eq!(text_of(&app.chat.segments[0]), "logged");
    assert_eq!(app.chat_title, "New chat");
}

#[test]
fn the_saved_chat_is_shown_where_nothing_else_is_known() {
    let mut o = options();
    o.document = Some(SavedChat {
        header: header(9, "Saved", 5),
        messages: vec![Message::system("rules"), Message::user("saved")],
    });
    o.saved = vec![header(9, "Saved", 5), header(8, "Newer", 7)];
    o.chat_path = Some("/chats/9.yaml".into());
    o.new_chat_path = Some("/chats/1.yaml".into());
    let app = App::new(o);
    assert_eq!(app.chat.segments.len(), 1);
    assert_eq!(app.chat_title, "Saved");
    assert_eq!(app.yaml_path.as_deref(), Some("/chats/9.yaml"));
    assert_eq!(
        app.sessions.display_order,
        vec![SessionId(1), SessionId(8), SessionId(9)]
    );
    assert_eq!(app.sessions.get(SessionId(1)).unwrap().title, "Saved");
}

#[test]
fn the_paths_have_an_order() {
    let mut o = options();
    o.output_chat_path = Some("out".into());
    o.chat_path = Some("in".into());
    o.jsonl_load_path = Some("load".into());
    o.auto_log_path = Some("auto".into());
    let app = App::new(o);
    assert_eq!(app.yaml_path.as_deref(), Some("out"));
    assert_eq!(app.jsonl_path.as_deref(), Some("load"));
}

#[test]
fn tools_are_folded_at_the_start_unless_an_editor_shows_them() {
    let mut o = options();
    o.initial_history = vec![user("q"), call("c1", "read"), result("c1", "ok"), agent("a")];
    let app = App::new(o);
    assert_eq!(app.chat.effective_expand_level(0, &app.chat.segments[0]), 2);
    assert_eq!(app.chat.effective_expand_level(1, &app.chat.segments[1]), 0);
    assert_eq!(app.chat.expand_level, vec![(1, 0), (2, 0)]);
    let mut o = options();
    o.no_nvim = false;
    o.initial_history = vec![call("c1", "read")];
    assert!(App::new(o).chat.expand_level.is_empty());
}

#[test]
fn a_node_is_asked_for_its_peers_and_the_agent_gets_the_history() {
    let mut o = options();
    o.node_backend = Some(NodeBackend {
        url: "wss://127.0.0.1:18790/ws".into(),
        token: "t".into(),
        insecure: true,
    });
    o.initial_history = vec![user("q")];
    let mut app = App::new(o);
    assert!(app.is_node_proxy);
    let e = app.connect_agent();
    assert!(matches!(e[0], Effect::ListPeers));
    assert!(matches!(&e[1], Effect::LoadHistory(h) if h.len() == 1));
    assert!(matches!(e[2], Effect::Rerender));
    assert!(matches!(e[3], Effect::ScrollToBottom));
    assert!(app.agent.connected);
    assert!(app.sessions.get(SessionId(1)).unwrap().has_agent);
    assert!(App::new(options()).connect_agent().is_empty());
}

#[test]
fn the_prompt_is_sent_behind_the_given_messages() {
    let mut o = options();
    o.initial_queue = vec![QueuedMessage::plain("one".into())];
    o.initial_prompt = Some("two".into());
    let mut app = App::new(o);
    let e = app.send_first();
    assert!(matches!(e[0], Effect::Rerender));
    assert!(matches!(&e[1], Effect::Send(m) if m.content == "one"));
    assert_eq!(text_of(&app.chat.segments[0]), "one");
    assert_eq!(app.queue.messages.len(), 1);
    app.send_first();
    assert!(app.send_first().is_empty());
}

// ── Typing and sending ───────────────────────────────────────────────────────

#[test]
fn a_typed_text_is_sent_and_remembered() {
    let mut app = app();
    type_text(&mut app, " hello ");
    let e = app.dispatch(Action::Input(InputAction::Submit));
    assert_eq!(e.len(), 1);
    assert!(matches!(&e[0], Effect::SubmitText(t) if t == "hello"));
    assert_eq!(app.input.buffer, "");
    assert_eq!(app.input.cursor, 0);
    assert_eq!(app.input.history, vec!["hello".to_string()]);
    assert!(app.dispatch(Action::Input(InputAction::Submit)).is_empty());
}

#[test]
fn the_history_is_reached_with_the_cursor_keys() {
    let mut app = app();
    type_text(&mut app, "one");
    app.dispatch(Action::Input(InputAction::Submit));
    type_text(&mut app, "draft");
    input(&mut app, InputEdit::LineUp);
    assert_eq!(app.input.buffer, "one");
    assert_eq!(app.input.cursor, 3);
    input(&mut app, InputEdit::LineDown);
    assert_eq!(app.input.buffer, "draft");
    app.dispatch(Action::Input(InputAction::HistoryUp));
    assert_eq!(app.input.buffer, "one");
}

#[test]
fn an_idle_agent_gets_the_message_at_once() {
    let registry = CommandRegistry::with_builtins();
    let mut app = app();
    app.chat.segments.push(user("before"));
    let (e, quit) = app.submit_user_input("hello", &registry);
    assert!(!quit);
    assert_eq!(e.len(), 1);
    let m = match e.into_iter().next().unwrap() {
        Effect::Deliver(m) => m,
        other => panic!("{other:?}"),
    };
    let e = app.deliver(m);
    assert_eq!(text_of(&app.chat.segments[1]), "hello");
    assert!(matches!(e[0], Effect::Rerender));
    assert!(matches!(e[1], Effect::ScrollToBottom));
    assert!(matches!(&e[2], Effect::Resubmit(h, m) if h.len() == 1 && m.content == "hello"));
    app.mark_sent();
    assert!(app.agent.busy);
}

#[test]
fn a_busy_agent_lets_messages_wait() {
    let registry = CommandRegistry::with_builtins();
    let mut app = app();
    app.agent.busy = true;
    assert!(app.submit_user_input("one", &registry).0.is_empty());
    assert!(app.submit_user_input("two", &registry).0.is_empty());
    assert_eq!(app.queue.messages.len(), 2);
    assert_eq!(app.queue.selected, Some(1));
    let e = app.handle_agent_event(AgentEvent::TurnComplete);
    assert!(e.iter().any(|x| matches!(x, Effect::Send(m) if m.content == "one")));
    assert_eq!(app.queue.messages.len(), 1);
    assert_eq!(text_of(app.chat.segments.last().unwrap()), "one");
}

#[test]
fn staged_changes_go_with_one_message() {
    let registry = CommandRegistry::with_builtins();
    let mut app = app();
    app.agent.busy = true;
    app.session.stage_model(model("other"), true);
    let (e, _) = app.submit_user_input("/mode plan ", &registry);
    assert!(e.is_empty());
    assert_eq!(app.session.mode, AgentMode::Agent);
    app.submit_user_input("one", &registry);
    app.submit_user_input("two", &registry);
    let first = &app.queue.messages[0];
    assert_eq!(first.mode_transition, Some(AgentMode::Plan));
    assert_eq!(first.model_transition.as_ref().unwrap().display_label(), "openai/other");
    let second = &app.queue.messages[1];
    assert_eq!(second.mode_transition, None);
    assert!(second.model_transition.is_none());
}

#[test]
fn commands_are_carried_out() {
    let registry = CommandRegistry::with_builtins();
    let mut app = app();
    assert!(app.submit_user_input("/quit", &registry).1);
    let (e, quit) = app.submit_user_input("/clear", &registry);
    assert!(!quit);
    assert!(matches!(e[0], Effect::Immediate(ImmediateAction::ClearChat)));
    let (e, _) = app.submit_user_input("/model openai/x ", &registry);
    assert!(matches!(&e[0], Effect::StageModel(m) if m == "openai/x"));
    let (e, _) = app.submit_user_input("/mode research ", &registry);
    assert!(e.is_empty());
    assert_eq!(app.session.mode, AgentMode::Research);
}

#[test]
fn enter_completes_the_argument() {
    let registry = CommandRegistry::with_builtins();
    let mut app = app();
    let (e, _) = app.submit_user_input("/mode plan", &registry);
    assert!(e.is_empty());
    assert_eq!(app.session.mode, AgentMode::Plan);
    let (e, _) = app.submit_user_input("/model \"my provider\"", &registry);
    assert!(matches!(&e[0], Effect::StageModel(m) if m == "my provider"));
    assert!(app.queue.messages.is_empty());
}

#[test]
fn unknown_commands_are_passed_over() {
    let registry = CommandRegistry::with_builtins();
    let mut app = app();
    assert!(app.submit_user_input("/nothing", &registry).0.is_empty());
    assert!(app.submit_user_input("/nothing at all", &registry).0.is_empty());
    assert!(app.submit_user_input("/", &registry).0.is_empty());
    assert!(!app.submit_user_input("/", &registry).1);
    assert!(app.chat.segments.is_empty());
}

#[test]
fn the_message_of_a_command_is_sent() {
    let mut registry = CommandRegistry::with_builtins();
    registry.register_commands(&vec![SkillInfo {
        command: "greet".into(),
        description: "Greets".into(),
        content: "Say hello".into(),
        skill_dir: "/skills/greet".into(),
    }]);
    let mut app = app();
    let (e, quit) = app.submit_user_input("/greet Bob", &registry);
    assert!(!quit);
    assert_eq!(e.len(), 1);
    assert!(matches!(&e[0], Effect::SendText(t) if t.contains("Say hello") && t.contains("Bob")));
}

#[test]
fn escape_empties_the_input() {
    let mut app = app();
    type_text(&mut app, "text");
    app.dispatch(Action::Input(InputAction::Escape));
    assert_eq!(app.input.buffer, "");
    assert_eq!(app.input.cursor, 0);
}

#[test]
fn pages_and_the_wheel_move_the_input() {
    let mut app = app();
    app.layout.input_inner_width = 10;
    app.layout.input_inner_height = 2;
    type_text(&mut app, "a");
    for _ in 0..5 {
        input(&mut app, InputEdit::Newline);
        input(&mut app, InputEdit::Insert('b'));
    }
    app.dispatch(Action::Input(InputAction::PageDown));
    assert_eq!(app.input.scroll_offset, 2);
    app.dispatch(Action::Input(InputAction::PageDown));
    app.dispatch(Action::Input(InputAction::PageDown));
    assert_eq!(app.input.scroll_offset, 4);
    app.dispatch(Action::Input(InputAction::PageUp));
    assert_eq!(app.input.scroll_offset, 2);
    let end = app.input.cursor;
    app.dispatch(Action::Input(InputAction::ScrollUp));
    assert_eq!(app.input.cursor, end - 2);
    app.dispatch(Action::Input(InputAction::ScrollDown));
    assert_eq!(app.input.cursor, end);
    app.adjust_input_scroll();
    assert_eq!(app.input.scroll_offset, 4);
}

// ── Completions ──────────────────────────────────────────────────────────────

#[test]
fn completions_are_offered_and_taken() {
    let registry = Arc::new(CommandRegistry::with_builtins());
    let manager = CompletionManager::new(registry);
    let mut app = app();
    type_text(&mut app, "/qui");
    let e = input(&mut app, InputEdit::Insert('t'));
    assert!(matches!(e[0], Effect::RefreshCompletions));
    app.update_completion_overlay(&manager, &context());
    let overlay = app.ui.completion.as_ref().unwrap();
    assert_eq!(overlay.items[0].value, "quit");
    let e = app.dispatch(Action::Input(InputAction::CompletionSelect));
    assert!(matches!(&e[0], Effect::SubmitText(t) if t == "/quit"));
    assert!(app.ui.completion.is_none());
    assert_eq!(app.input.buffer, "");
}

#[test]
fn completions_wrap_and_can_be_dismissed() {
    let registry = Arc::new(CommandRegistry::with_builtins());
    let manager = CompletionManager::new(registry);
    let mut app = app();
    type_text(&mut app, "/");
    app.update_completion_overlay(&manager, &context());
    let n = app.ui.completion.as_ref().unwrap().items.len();
    assert!(n > 2);
    app.dispatch(Action::Input(InputAction::CompletionPrev));
    assert_eq!(app.ui.completion.as_ref().unwrap().selected, n - 1);
    app.dispatch(Action::Input(InputAction::CompletionNext));
    assert_eq!(app.ui.completion.as_ref().unwrap().selected, 0);
    app.dispatch(Action::Input(InputAction::CompletionCancel));
    assert!(app.ui.completion.is_none());
    let e = app.dispatch(Action::Input(InputAction::CompletionNext));
    assert!(matches!(e[0], Effect::RefreshCompletions));
}

#[test]
fn a_command_below_other_lines_is_completed_in_place() {
    let mut app = app();
    app.input.buffer = "first\n/mo\nlast".into();
    app.input.cursor = 9;
    assert!(app.apply_completion("mode"));
    assert_eq!(app.input.buffer, "first\n/mode \nlast");
    assert_eq!(app.input.cursor, 12);
}

#[test]
fn an_argument_is_completed() {
    let mut app = app();
    app.input.buffer = "/model op".into();
    app.input.cursor = 9;
    assert!(app.apply_completion("openai/x"));
    assert_eq!(app.input.buffer, "/model openai/x ");
    app.input.buffer = "/cmd one tw".into();
    app.input.cursor = 11;
    assert!(app.apply_completion("two"));
    assert_eq!(app.input.buffer, "/cmd one two ");
    app.input.buffer = "plain".into();
    app.input.cursor = 5;
    assert!(!app.apply_completion("x"));
    assert_eq!(app.input.buffer, "plain");
}

#[test]
fn names_of_the_team_are_offered() {
    let registry = Arc::new(CommandRegistry::with_builtins());
    let manager = CompletionManager::new(registry);
    let mut app = app();
    for (name, local) in [("Me", true), ("Alice", false), ("Bob", false)] {
        app.ui.team_picker_entries.push(TeamPickerEntry {
            name: name.into(),
            role: "dev".into(),
            peer_id: name.into(),
            status: AgentPickerStatus::Idle,
            current_task: if name == "Bob" { Some("build".into()) } else { None },
            is_local: local,
        });
    }
    type_text(&mut app, "hey @al");
    app.update_completion_overlay(&manager, &context());
    let items = &app.ui.completion.as_ref().unwrap().items;
    assert_eq!(items.len(), 1);
    assert_eq!(items[0].display, "@Alice  [dev]");
    assert_eq!(items[0].description.as_deref(), Some("idle"));
    app.dispatch(Action::Input(InputAction::Escape));
    type_text(&mut app, "@");
    app.update_completion_overlay(&manager, &context());
    let items = &app.ui.completion.as_ref().unwrap().items;
    assert_eq!(items.len(), 2);
    assert_eq!(items[1].description.as_deref(), Some("build"));
}

// ── Pasting ──────────────────────────────────────────────────────────────────

#[test]
fn images_are_attached_and_text_is_put_in() {
    let mut app = app();
    type_text(&mut app, "ab");
    input(&mut app, InputEdit::Left);
    let e = app.paste(
        "one\r\n/tmp/shot.PNG\rtwo",
        &vec![None, Some("/tmp/shot.PNG".into()), None],
    );
    assert!(e.is_empty());
    assert_eq!(app.input.buffer, "aone\ntwob");
    assert_eq!(app.input.cursor, 8);
    assert_eq!(app.input.attachments.len(), 1);
    let e = app.dispatch(Action::Input(InputAction::Submit));
    assert!(
        matches!(&e[0], Effect::SubmitText(t) if t == "[Image: /tmp/shot.PNG]\naone\ntwob")
    );
}

#[test]
fn a_path_of_another_file_is_text() {
    let mut app = app();
    app.paste("/tmp/main.rs", &vec![Some("/tmp/main.rs".into())]);
    assert_eq!(app.input.buffer, "/tmp/main.rs");
    assert!(app.input.attachments.is_empty());
}

#[test]
fn candidates_lose_their_wrapping() {
    let home = Some("/home/me".to_string());
    assert_eq!(paste_candidate(" file:///a/b.png ", &home), "/a/b.png");
    assert_eq!(paste_candidate("\"/a b.png\"", &home), "/a b.png");
    assert_eq!(paste_candidate("'x'", &home), "x");
    assert_eq!(paste_candidate("\"x'", &home), "\"x'");
    assert_eq!(paste_candidate("~/x.png", &home), "/home/me/x.png");
    assert_eq!(paste_candidate("~/x.png", &None), "~/x.png");
    assert_eq!(paste_lines("a\r\nb\rc\nd"), vec!["a", "b", "c", "d"]);
}

// ── The chat ─────────────────────────────────────────────────────────────────

#[test]
fn an_edit_is_shown_live_and_can_be_cancelled() {
    let mut app = app();
    app.chat.segments = vec![user("question"), agent("answer")];
    app.chat.focused_segment = Some(0);
    let e = chat(&mut app, ChatAction::EditMessageAtCursor);
    assert!(!e.is_empty());
    assert_eq!(app.edit.buffer, "question");
    assert_eq!(app.ui.focus, FocusPane::Input);
    input(&mut app, InputEdit::Insert('!'));
    assert_eq!(text_of(&app.chat.segments[0]), "question!");
    app.dispatch(Action::Input(InputAction::Escape));
    assert_eq!(text_of(&app.chat.segments[0]), "question");
    assert!(!app.edit.active());
}

#[test]
fn a_confirmed_question_is_asked_again() {
    let mut app = app();
    app.chat.segments = vec![user("one"), agent("a"), user("two"), agent("b")];
    app.chat.focused_segment = Some(2);
    chat(&mut app, ChatAction::EditMessageAtCursor);
    input(&mut app, InputEdit::Insert('?'));
    let e = app.dispatch(Action::Input(InputAction::EditMessageConfirm));
    assert_eq!(app.chat.segments.len(), 3);
    assert_eq!(text_of(&app.chat.segments[2]), "two?");
    assert!(e.iter().any(|x| matches!(x, Effect::Resubmit(_, m) if m.content == "two?")));
}

#[test]
fn an_edited_answer_is_saved() {
    let mut app = app();
    app.chat.segments = vec![user("one"), agent("a")];
    app.chat.focused_segment = Some(1);
    chat(&mut app, ChatAction::EditMessageAtCursor);
    input(&mut app, InputEdit::Insert('b'));
    let e = app.dispatch(Action::Input(InputAction::EditMessageConfirm));
    assert_eq!(text_of(&app.chat.segments[1]), "ab");
    assert!(matches!(e.last().unwrap(), Effect::SaveHistory));
}

#[test]
fn a_call_and_its_result_leave_together() {
    let mut app = app();
    app.chat.segments = vec![user("q"), call("c", "read"), result("c", "ok"), agent("a")];
    app.chat.focused_segment = Some(1);
    chat(&mut app, ChatAction::RemoveChatSegment);
    assert_eq!(app.chat.segments.len(), 2);
    assert_eq!(text_of(&app.chat.segments[1]), "a");
    assert_eq!(app.chat.focused_segment, None);
}

#[test]
fn the_conversation_is_cut_and_run_again() {
    let mut app = app();
    app.chat.segments = vec![user("one"), agent("a"), user("two"), agent("b")];
    app.chat.focused_segment = Some(3);
    let e = chat(&mut app, ChatAction::RerunFromSegment);
    assert_eq!(app.chat.segments.len(), 3);
    assert!(
        matches!(e.last().unwrap(), Effect::Resubmit(h, m) if h.len() == 2 && m.content == "two")
    );
    app.chat.focused_segment = Some(1);
    chat(&mut app, ChatAction::DeleteChatSegment);
    assert_eq!(app.chat.segments.len(), 1);
}

#[test]
fn what_came_before_the_segment_stays_when_it_is_run_again() {
    let mut app = app();
    app.chat.segments = vec![user("q"), agent("a1"), agent("a2")];
    app.chat.focused_segment = Some(2);
    let e = chat(&mut app, ChatAction::RerunFromSegment);
    assert_eq!(app.chat.segments, vec![user("q"), agent("a1")]);
    assert_eq!(app.chat.focused_segment, None);
    match e.last().unwrap() {
        Effect::Resubmit(h, m) => {
            assert_eq!(*h, vec![Message::user("q"), Message::assistant("a1")]);
            assert_eq!(m.content, "q");
        }
        other => panic!("{other:?}"),
    }
    app.chat.focused_segment = Some(0);
    assert!(chat(&mut app, ChatAction::RerunFromSegment).is_empty());
    assert_eq!(app.chat.segments.len(), 2);
}

#[test]
fn a_cancelled_edit_leaves_no_trace() {
    for cancel in [InputAction::EditMessageCancel, InputAction::Escape] {
        let mut app = app();
        type_text(&mut app, "being written");
        app.chat.segments = vec![user("question"), agent("answer")];
        app.chat.focused_segment = Some(0);
        let mut done = chat(&mut app, ChatAction::EditMessageAtCursor);
        for op in [InputEdit::Insert('!'), InputEdit::DeleteToStart, InputEdit::Insert('x')] {
            done.extend(input(&mut app, op));
        }
        assert_eq!(text_of(&app.chat.segments[0]), "x");
        done.extend(app.dispatch(Action::Input(cancel)));
        assert_eq!(app.chat.segments, vec![user("question"), agent("answer")]);
        assert_eq!(app.input.buffer, "being written");
        assert!(!app.edit.active());
        assert_eq!(app.edit.buffer, "");
        assert!(done.iter().all(|e| matches!(e, Effect::Rebuild | Effect::Rerender)));
    }
}

#[test]
fn the_draft_comes_back_after_any_walk_through_the_history() {
    let mut input = InputState::new();
    for text in ["one", "two", "three"] {
        input.push_history(text);
    }
    for k in 1..=3 {
        input.buffer = "draft".into();
        for j in 0..k {
            let shown = input.history_up().unwrap();
            assert_eq!(shown, ["three", "two", "one"][j]);
            input.buffer = shown;
        }
        for _ in 1..k {
            input.buffer = input.history_down().unwrap();
        }
        assert_eq!(input.history_down(), Some("draft".to_string()));
        assert_eq!(input.history_idx, None);
        assert_eq!(input.history_down(), None);
        assert_eq!(input.history, vec!["one", "two", "three"]);
    }
}

#[test]
fn copies_go_to_the_terminal_in_base64() {
    let mut app = app();
    app.chat.segments = vec![user("hi")];
    app.chat.focused_segment = Some(0);
    let e = chat(&mut app, ChatAction::CopySegment);
    assert!(matches!(&e[0], Effect::WriteTerminal(t) if t == "\u{1b}]52;c;aGk=\u{7}"));
    assert_eq!(app.ui.toasts.last().unwrap().message, "Copied to clipboard");
    let e = chat(&mut app, ChatAction::CopyAll);
    assert_eq!(e.len(), 1);
    assert_eq!(app.ui.toasts.last().unwrap().message, "Copied all to clipboard");
}

#[test]
fn the_selection_is_copied() {
    let mut app = app();
    app.chat.lines = lines(&["first line", "second line"]);
    app.chat.selection_anchor = Some((1, 5));
    app.chat.selection_end = Some((0, 6));
    let e = chat(&mut app, ChatAction::SelectionFinish);
    assert_eq!(e.len(), 1);
    assert!(matches!(&e[0], Effect::WriteTerminal(t) if t.starts_with("\u{1b}]52;c;")));
    chat(&mut app, ChatAction::SelectionClear);
    assert!(chat(&mut app, ChatAction::SelectionFinish).is_empty());
}

#[test]
fn scrolling_stays_in_range() {
    let mut app = app();
    app.layout.chat_height = 4;
    app.chat.lines = lines(&["0", "1", "2", "3", "4", "5"]);
    chat(&mut app, ChatAction::ScrollPageDown);
    assert_eq!(app.chat.scroll_offset, 2);
    chat(&mut app, ChatAction::ScrollDown);
    assert_eq!(app.chat.scroll_offset, 2);
    chat(&mut app, ChatAction::ScrollUp);
    assert_eq!(app.chat.scroll_offset, 1);
    assert!(!app.chat.auto_scroll);
    chat(&mut app, ChatAction::ScrollTop);
    assert_eq!(app.chat.scroll_offset, 0);
    let e = chat(&mut app, ChatAction::ScrollBottom);
    assert!(matches!(e[0], Effect::ScrollToBottom));
    app.scroll_to_bottom();
    assert_eq!(app.chat.scroll_offset, 2);
}

#[test]
fn an_editor_scrolls_itself() {
    let mut app = app();
    app.connect_editor();
    let e = chat(&mut app, ChatAction::ScrollPageUp);
    assert!(matches!(&e[0], Effect::EditorInput(k) if k == "<C-u>"));
    let e = chat(&mut app, ChatAction::NvimScrollDown);
    assert!(matches!(&e[0], Effect::EditorInput(k) if k == "<C-e>"));
    let e = app.dispatch(Action::Input(InputAction::SubmitBufferToAgent));
    assert!(matches!(e[0], Effect::SubmitBuffer));
}

#[test]
fn the_help_of_the_chat_lists_its_shortcuts() {
    let mut app = app();
    chat(&mut app, ChatAction::ShowChatHelp);
    let m = app.ui.confirm_modal.as_ref().unwrap();
    assert_eq!(m.title, "Chat shortcuts");
    assert_eq!(m.message, CHAT_HELP_MESSAGE);
    assert!(m.message.contains("  x           Remove segment\n"));
}

// ── The text of the editor ───────────────────────────────────────────────────

#[test]
fn the_buffer_of_the_editor_is_sent_once() {
    let mut app = app();
    app.chat.segments = vec![user("one"), agent("a"), user("two")];
    let copy = app.editor_text();
    let e = app.submit_buffer(&copy);
    assert_eq!(e.len(), 3);
    assert!(matches!(&e[2], Effect::Resubmit(h, m) if h.len() == 2 && m.content == "two"));
    assert_eq!(app.chat.segments.len(), 3);
    app.agent.busy = true;
    assert!(app.submit_buffer(&copy).is_empty());
}

#[test]
fn an_empty_buffer_changes_nothing() {
    let mut app = app();
    app.chat.segments = vec![user("one")];
    app.sync_buffer("");
    assert_eq!(app.chat.segments.len(), 1);
    assert!(app.submit_buffer("").is_empty());
    let other = {
        let mut b = App::new(options());
        b.chat.segments = vec![user("x"), call("c", "read"), result("c", "ok")];
        b.editor_text()
    };
    app.sync_buffer(&other);
    assert_eq!(app.chat.segments.len(), 3);
    assert_eq!(app.chat.tool_args.get("c").map(|s| s.as_str()), Some("read"));
}

// ── Search ───────────────────────────────────────────────────────────────────

#[test]
fn a_search_finds_lines_by_pattern() {
    let mut app = app();
    app.chat.lines = lines(&["alpha", "Beta", "gamma", "beta two"]);
    app.dispatch(Action::Search(SearchAction::Open));
    assert!(app.ui.search.active);
    assert_eq!(app.ui.focus, FocusPane::Chat);
    for c in "b.ta".chars() {
        app.dispatch(Action::Search(SearchAction::Input(c)));
    }
    assert_eq!(app.ui.search.matches, vec![1, 3]);
    assert_eq!(app.chat.scroll_offset, 1);
    app.dispatch(Action::Search(SearchAction::NextMatch));
    assert_eq!(app.chat.scroll_offset, 3);
    app.dispatch(Action::Search(SearchAction::NextMatch));
    assert_eq!(app.chat.scroll_offset, 1);
    app.dispatch(Action::Search(SearchAction::PrevMatch));
    assert_eq!(app.ui.search.current, 1);
    app.dispatch(Action::Search(SearchAction::Close));
    assert!(!app.ui.search.active);
    assert_eq!(app.chat.scroll_offset, 3);
}

#[test]
fn a_query_that_is_no_pattern_is_searched_as_text() {
    let mut app = app();
    app.chat.lines = lines(&["call F(x)", "plain"]);
    app.dispatch(Action::Search(SearchAction::Open));
    for c in "f(".chars() {
        app.dispatch(Action::Search(SearchAction::Input(c)));
    }
    assert!(app.ui.search.regex.is_none());
    assert_eq!(app.ui.search.matches, vec![0]);
    app.dispatch(Action::Search(SearchAction::Backspace));
    assert_eq!(app.ui.search.query, "f");
    app.dispatch(Action::Search(SearchAction::Backspace));
    assert!(app.ui.search.matches.is_empty());
}

#[test]
fn the_inspector_is_searched_on_its_own() {
    let mut app = app();
    app.ui.inspector_open = true;
    app.dispatch(Action::Search(SearchAction::Open));
    let e = app.dispatch(Action::Search(SearchAction::Input('z')));
    assert!(matches!(e[0], Effect::SearchInspector));
    let e = app.search_inspector(&lines(&["a", "z"]));
    assert!(matches!(e[0], Effect::InspectorTo(1)));
}

// ── Panes, queue, team ───────────────────────────────────────────────────────

#[test]
fn the_focus_moves_between_the_panes() {
    let mut app = app();
    app.dispatch(Action::Pane(PaneAction::NavUp));
    assert_eq!(app.ui.focus, FocusPane::Chat);
    app.queue.push(QueuedMessage::plain("m".into()));
    app.dispatch(Action::Pane(PaneAction::NavDown));
    assert_eq!(app.ui.focus, FocusPane::Queue);
    app.dispatch(Action::Pane(PaneAction::NavDown));
    assert_eq!(app.ui.focus, FocusPane::Input);
    app.dispatch(Action::Pane(PaneAction::NavRight));
    assert_eq!(app.ui.focus, FocusPane::ChatList);
    app.dispatch(Action::Pane(PaneAction::ToggleChatList));
    assert_eq!(app.ui.focus, FocusPane::Input);
    assert!(!app.prefs.chat_list_visible);
}

#[test]
fn sizes_stay_within_their_bounds() {
    let mut app = app();
    for _ in 0..40 {
        app.dispatch(Action::Pane(PaneAction::ResizeInputGrow));
        app.dispatch(Action::Pane(PaneAction::ResizeChatListGrow));
    }
    assert_eq!(app.prefs.input_height, 20);
    assert_eq!(app.prefs.chat_list_width, 60);
    for _ in 0..60 {
        app.dispatch(Action::Pane(PaneAction::ResizeInputShrink));
        app.dispatch(Action::Pane(PaneAction::ResizeChatListShrink));
    }
    assert_eq!(app.prefs.input_height, 3);
    assert_eq!(app.prefs.chat_list_width, 15);
}

#[test]
fn a_message_of_the_queue_is_edited() {
    let mut app = app();
    app.queue.push(QueuedMessage::plain("one".into()));
    app.queue.push(QueuedMessage::plain("two".into()));
    app.dispatch(Action::Queue(QueueAction::NavUp));
    app.dispatch(Action::Queue(QueueAction::EditSelected));
    assert_eq!(app.edit.buffer, "one");
    input(&mut app, InputEdit::Insert('!'));
    app.agent.busy = true;
    app.dispatch(Action::Input(InputAction::EditMessageConfirm));
    assert_eq!(app.queue.messages[0].content, "one!");
    app.dispatch(Action::Queue(QueueAction::Delete));
    assert_eq!(app.queue.messages.len(), 1);
    assert_eq!(app.queue.messages[0].content, "two");
    let e = app.dispatch(Action::Queue(QueueAction::ForceSubmit));
    assert!(matches!(e[0], Effect::ForceSubmit(0)));
}

#[test]
fn the_selected_message_is_sent_while_the_agent_is_idle() {
    let mut app = app();
    app.queue.push(QueuedMessage::plain("one".into()));
    app.ui.focus = FocusPane::Queue;
    let e = app.dispatch(Action::Queue(QueueAction::SubmitSelected));
    assert!(matches!(e.last().unwrap(), Effect::Resubmit(_, m) if m.content == "one"));
    assert_eq!(app.ui.focus, FocusPane::Input);
    assert_eq!(app.queue.selected, None);
}

#[test]
fn a_stopped_turn_keeps_the_queue() {
    let mut app = app();
    assert!(app.dispatch(Action::Global(GlobalAction::InterruptAgent)).is_empty());
    app.agent.busy = true;
    app.queue.push(QueuedMessage::plain("one".into()));
    let e = app.dispatch(Action::Global(GlobalAction::InterruptAgent));
    assert!(matches!(e[0], Effect::Abort));
    assert!(app.queue.abort_pending);
    app.handle_agent_event(AgentEvent::Aborted { partial_text: "half".into() });
    assert!(!app.agent.busy);
    assert_eq!(app.queue.messages.len(), 1);
    assert_eq!(text_of(app.chat.segments.last().unwrap()), "half");
}

#[test]
fn the_mode_cycles_unless_a_node_has_it() {
    let mut app = app();
    app.dispatch(Action::Global(GlobalAction::CycleMode));
    assert_eq!(app.session.mode, AgentMode::Research);
    app.is_node_proxy = true;
    app.dispatch(Action::Global(GlobalAction::CycleMode));
    assert_eq!(app.session.mode, AgentMode::Research);
}

#[test]
fn the_pager_and_the_task_list_open() {
    let mut app = app();
    let e = app.dispatch(Action::Global(GlobalAction::OpenPager));
    assert!(matches!(e[0], Effect::OpenPager(None)));
    assert!(app.ui.pager_open);
    assert!(app.dispatch(Action::Global(GlobalAction::ToggleTaskList)).is_empty());
    assert!(!app.ui.pager_open);
    let e = app.dispatch(Action::Global(GlobalAction::ToggleTaskList));
    assert!(matches!(&e[0], Effect::OpenNotice(t) if t.starts_with("Task list is not available")));
    app.dispatch(Action::Global(GlobalAction::Help));
    assert!(app.ui.show_help);
}

#[test]
fn the_team_picker_offers_the_user_alone() {
    let mut app = app();
    app.dispatch(Action::Team(TeamAction::OpenPicker));
    assert!(app.ui.show_team_picker);
    assert_eq!(app.ui.team_picker_entries[0].name, "local");
    assert_eq!(app.ui.team_picker_entries[0].role, "agent");
    app.dispatch(Action::Team(TeamAction::PickerSelect));
    assert!(!app.ui.show_team_picker);
    assert_eq!(app.ui.active_session_peer.as_deref(), Some(""));
}

// ── Reports of the agent ─────────────────────────────────────────────────────

#[test]
fn an_answer_streams_in() {
    let mut app = app();
    app.agent.busy = true;
    app.handle_agent_event(AgentEvent::TextDelta("Hel".into()));
    app.handle_agent_event(AgentEvent::TextDelta("lo".into()));
    assert_eq!(app.chat.streaming_buffer, "Hello");
    app.handle_agent_event(AgentEvent::TextComplete("Hello".into()));
    assert_eq!(app.chat.streaming_buffer, "");
    assert_eq!(text_of(app.chat.segments.last().unwrap()), "Hello");
    app.handle_agent_event(AgentEvent::Error("broken".into()));
    assert!(matches!(app.chat.segments.last().unwrap(), ChatSegment::Error(_)));
}

#[test]
fn tools_are_followed() {
    let mut app = app();
    app.agent.busy = true;
    app.handle_agent_event(AgentEvent::ToolCallStarted {
        id: "c1".into(),
        name: "read".into(),
        arguments: "{}".into(),
    });
    assert_eq!(app.agent.current_tool.as_deref(), Some("read"));
    assert_eq!(app.chat.tool_args.get("c1").map(|s| s.as_str()), Some("read"));
    app.handle_agent_event(AgentEvent::ToolCallFinished {
        call_id: "c1".into(),
        tool_name: "read".into(),
        output: "ok".into(),
        is_error: false,
    });
    assert_eq!(app.agent.current_tool, None);
    assert_eq!(app.chat.segments.len(), 2);
}

#[test]
fn tokens_are_counted() {
    let mut app = app();
    app.handle_agent_event(AgentEvent::TokenUsage {
        input: 1000,
        output_tokens: 50,
        cache_read: 0,
        cache_write: 0,
        max_tokens: 12_000,
        max_output_tokens: 2_000,
        share: 10,
    });
    assert_eq!(app.agent.output_tokens, 50);
    assert_eq!(app.agent.total_context_tokens, 1000);
    assert_eq!(app.agent.total_context_pct, 10);
    app.handle_agent_event(AgentEvent::TurnComplete);
    assert_eq!(app.agent.total_output_tokens, 50);
    assert_eq!(app.agent.output_tokens, 0);
    assert_eq!(app.agent.total_context_tokens, 1000);
}

#[test]
fn animations_move_with_the_clock() {
    let mut app = app();
    assert!(!app.is_animated());
    app.agent.busy = true;
    assert!(app.is_animated());
    app.agent.anim_frame = 255;
    app.tick();
    assert_eq!(app.agent.anim_frame, 0);
}
