//! Conversations in Markdown and back.

use sven_tui::chat::markdown::{format_conversation, message_to_markdown};
use sven_tui::chat::parse::parse_markdown_to_messages;
use sven_tui::chat::segment::{ChatSegment, FunctionCall, Message, MessageContent, Role};
use sven_tui::StringHashMap;

fn user_seg(text: &str) -> ChatSegment {
    ChatSegment::Message(Message { role: Role::User, content: MessageContent::Text(text.into()) })
}
fn agent_seg(text: &str) -> ChatSegment {
    ChatSegment::Message(Message { role: Role::Assistant, content: MessageContent::Text(text.into()) })
}
fn tool_call_seg(call_id: &str, name: &str) -> ChatSegment {
    ChatSegment::Message(Message {
        role: Role::Assistant,
        content: MessageContent::ToolCall {
            tool_call_id: call_id.into(),
            function: FunctionCall { name: name.into(), arguments: "{}".into() },
        },
    })
}
fn tool_result_seg(call_id: &str, output: &str) -> ChatSegment {
    ChatSegment::Message(Message {
        role: Role::Tool,
        content: MessageContent::ToolResult {
            tool_call_id: call_id.into(),
            content: output.into(),
        },
    })
}

// ── message_to_markdown ───────────────────────────────────────────────────

#[test]
fn user_message_formatted_with_separator_and_you_label() {
    let msg   = Message { role: Role::User, content: MessageContent::Text("hello world".into()) };
    let cache = StringHashMap::new();
    let md = message_to_markdown(&msg, &cache);
    assert!(md.starts_with("---"),       "must start with --- separator; got: {:?}", md);
    assert!(md.contains("**You:**"),     "must carry **You:** label");
    assert!(md.contains("hello world"), "must contain the user text");
    assert!(!md.starts_with('\n'),       "separator must be the first character");
}

#[test]
fn agent_message_formatted_with_agent_label() {
    let msg   = Message { role: Role::Assistant, content: MessageContent::Text("response text".into()) };
    let cache = StringHashMap::new();
    let md = message_to_markdown(&msg, &cache);
    assert!(md.contains("**Agent:**"),    "must carry **Agent:** label");
    assert!(md.contains("response text"), "must contain the agent text");
}

#[test]
fn tool_call_formatted_with_tool_call_heading_and_name_appears_once() {
    let msg = Message {
        role: Role::Assistant,
        content: MessageContent::ToolCall {
            tool_call_id: "id1".into(),
            function: FunctionCall { name: "read_file".into(), arguments: r#"{"path":"/tmp/x"}"#.into() },
        },
    };
    let cache = StringHashMap::new();
    let md = message_to_markdown(&msg, &cache);
    assert!(md.contains("Tool Call"),  "must carry 'Tool Call' heading");
    assert!(md.contains("read_file"), "must include the tool name");
    let name_count = md.matches("read_file").count();
    assert_eq!(name_count, 1, "tool name must appear exactly once; found {name_count} in: {md:?}");
}

#[test]
fn tool_result_formatted_with_response_heading_output_and_name_appears_once() {
    let mut cache = StringHashMap::new();
    cache.insert("id1".to_string(), "read_file".to_string());
    let msg = Message {
        role: Role::Tool,
        content: MessageContent::ToolResult { tool_call_id: "id1".into(), content: "file contents here".into() },
    };
    let md = message_to_markdown(&msg, &cache);
    assert!(md.contains("Tool Response"),       "must carry 'Tool Response' heading");
    assert!(md.contains("file contents here"),  "must include the tool output");
    assert!(md.contains("```"),                 "output must be inside a code fence");
    let name_count = md.matches("read_file").count();
    assert_eq!(name_count, 1, "tool name must appear exactly once; found {name_count} in: {md:?}");
}

// ── format_conversation ───────────────────────────────────────────────────

#[test]
fn empty_conversation_produces_empty_output() {
    let result = format_conversation(&vec![], "", &StringHashMap::new());
    assert!(result.trim().is_empty(), "empty conversation must produce empty string; got: {result:?}");
}

#[test]
fn single_user_message_starts_without_leading_newline() {
    let result = format_conversation(&vec![user_seg("hello")], "", &StringHashMap::new());
    assert!(result.starts_with("---"), "must begin with --- separator; got: {result:?}");
    assert!(!result.starts_with('\n'), "must not have a leading newline");
}

#[test]
fn conversation_with_user_and_agent_contains_both_labels_and_texts() {
    let result = format_conversation(&vec![user_seg("question"), agent_seg("answer")], "", &StringHashMap::new());
    assert!(result.contains("**You:**"),   "You label present");
    assert!(result.contains("question"),   "user text present");
    assert!(result.contains("**Agent:**"), "Agent label present");
    assert!(result.contains("answer"),     "agent text present");
}

#[test]
fn multi_turn_conversation_has_no_triple_newlines() {
    let segs = vec![user_seg("a"), agent_seg("b"), user_seg("c"), agent_seg("d")];
    let result = format_conversation(&segs, "", &StringHashMap::new());
    assert!(!result.contains("\n\n\n"), "triple newlines must not appear; got:\n{result}");
}

#[test]
fn streaming_buffer_appended_after_all_committed_segments() {
    let result = format_conversation(&vec![user_seg("hello")], "partial response", &StringHashMap::new());
    assert!(result.contains("hello"),            "committed segment present");
    assert!(result.contains("partial response"), "streaming buffer present");
    let user_pos   = result.find("hello").unwrap();
    let stream_pos = result.find("partial response").unwrap();
    assert!(stream_pos > user_pos, "streaming text must come after the committed segment");
}

#[test]
fn tool_call_and_result_both_appear_with_name_at_most_twice() {
    let mut cache = StringHashMap::new();
    cache.insert("id1".to_string(), "glob".to_string());
    let segs = vec![user_seg("find files"), tool_call_seg("id1", "glob"), tool_result_seg("id1", "result.txt")];
    let result = format_conversation(&segs, "", &cache);
    assert!(result.contains("glob"),       "tool name must appear");
    assert!(result.contains("result.txt"), "tool output must appear");
    let name_count = result.matches("glob").count();
    assert!(name_count <= 2, "tool name must appear at most twice; found {name_count}:\n{result}");
}

// ── parse_markdown_to_messages ────────────────────────────────────────────

#[test]
fn parse_empty_markdown_produces_empty_messages() {
    assert!(parse_markdown_to_messages("").unwrap().is_empty());
}

#[test]
fn parse_single_user_message_extracts_role_and_text() {
    let messages = parse_markdown_to_messages("---\n\n**You:** hello world\n").unwrap();
    assert_eq!(messages.len(), 1);
    assert_eq!(messages[0].role, Role::User);
    assert_eq!(messages[0].as_text(), Some("hello world"));
}

#[test]
fn parse_user_and_agent_messages_preserves_order_and_content() {
    let messages = parse_markdown_to_messages("---\n\n**You:** question\n\n**Agent:** answer\n").unwrap();
    assert_eq!(messages.len(), 2);
    assert_eq!(messages[0].role, Role::User);
    assert_eq!(messages[0].as_text(), Some("question"));
    assert_eq!(messages[1].role, Role::Assistant);
    assert_eq!(messages[1].as_text(), Some("answer"));
}

#[test]
fn parse_tool_call_extracts_id_name_and_full_args() {
    let md = &[
        "**Agent:tool_call:abc123**\n",
        "🔧 **Tool Call: read_file**\n",
        "```json\n",
        r#"{"path": "/tmp/test.txt"}"#, "\n",
        "```\n",
    ].concat();
    let messages = parse_markdown_to_messages(md).unwrap();
    assert_eq!(messages.len(), 1);
    assert_eq!(messages[0].role, Role::Assistant);
    if let MessageContent::ToolCall { tool_call_id, function } = &messages[0].content {
        assert_eq!(tool_call_id, "abc123");
        assert_eq!(function.name, "read_file");
        assert_eq!(function.arguments.trim(), r#"{"path": "/tmp/test.txt"}"#);
    } else {
        panic!("expected ToolCall content");
    }
}

#[test]
fn parse_tool_result_extracts_id_and_full_output() {
    let md = &[
        "**Tool:xyz789**\n",
        "✅ **Tool Response: glob**\n",
        "```\n",
        "file1.rs\n",
        "file2.rs\n",
        "```\n",
    ].concat();
    let messages = parse_markdown_to_messages(md).unwrap();
    assert_eq!(messages.len(), 1);
    assert_eq!(messages[0].role, Role::Tool);
    if let MessageContent::ToolResult { tool_call_id, content } = &messages[0].content {
        assert_eq!(tool_call_id, "xyz789");
        assert_eq!(content.to_string().trim(), "file1.rs\nfile2.rs");
    } else {
        panic!("expected ToolResult content");
    }
}

#[test]
fn parse_system_message_extracts_role_and_text() {
    let messages = parse_markdown_to_messages("**System:** You are a helpful assistant.\n\n").unwrap();
    assert_eq!(messages.len(), 1);
    assert_eq!(messages[0].role, Role::System);
    assert_eq!(messages[0].as_text(), Some("You are a helpful assistant."));
}

#[test]
fn roundtrip_user_and_agent_messages_preserves_content() {
    let original = vec![
        Message::user("first question"),
        Message::assistant("first answer"),
        Message::user("second question"),
    ];
    let cache = StringHashMap::new();
    let md: String = original.iter().map(|m| message_to_markdown(m, &cache)).collect();
    let parsed = parse_markdown_to_messages(&md).unwrap();
    assert_eq!(parsed.len(), 3);
    assert_eq!(parsed[0].as_text(), original[0].as_text());
    assert_eq!(parsed[1].as_text(), original[1].as_text());
    assert_eq!(parsed[2].as_text(), original[2].as_text());
}

#[test]
fn roundtrip_conversation_with_tool_call_and_result_preserves_all_data() {
    let mut cache = StringHashMap::new();
    cache.insert("call1".to_string(), "read_file".to_string());
    let original = vec![
        Message::user("read the file"),
        Message {
            role: Role::Assistant,
            content: MessageContent::ToolCall {
                tool_call_id: "call1".into(),
                function: FunctionCall {
                    name: "read_file".into(),
                    arguments: r#"{"path":"/tmp/x","encoding":"utf8"}"#.into(),
                },
            },
        },
        Message {
            role: Role::Tool,
            content: MessageContent::ToolResult {
                tool_call_id: "call1".into(),
                content: "file contents\nline two\nline three".into(),
            },
        },
        Message::assistant("The file contains three lines"),
    ];
    let md: String = original.iter().map(|m| message_to_markdown(m, &cache)).collect();
    let parsed = parse_markdown_to_messages(&md).unwrap();
    assert_eq!(parsed.len(), 4, "all messages must be preserved");
    assert_eq!(parsed[0].role, Role::User);
    assert_eq!(parsed[0].as_text(), Some("read the file"));
    if let MessageContent::ToolCall { tool_call_id, function } = &parsed[1].content {
        assert_eq!(tool_call_id, "call1");
        assert_eq!(function.name, "read_file");
        assert!(function.arguments.contains("utf8"), "full args must be preserved; got: {}", function.arguments);
    } else { panic!("expected ToolCall"); }
    if let MessageContent::ToolResult { tool_call_id, content } = &parsed[2].content {
        assert_eq!(tool_call_id, "call1");
        assert!(content.to_string().contains("line three"), "full output must be preserved; got: {}", content);
    } else { panic!("expected ToolResult"); }
    assert_eq!(parsed[3].as_text(), Some("The file contains three lines"));
}

#[test]
fn parse_multiline_user_message_joins_lines() {
    let md = "**You:** first line\nsecond line\nthird line\n";
    let messages = parse_markdown_to_messages(md).unwrap();
    assert_eq!(messages.len(), 1);
    let text = messages[0].as_text().unwrap();
    assert!(text.contains("first line"),  "first line present");
    assert!(text.contains("second line"), "second line present");
    assert!(text.contains("third line"),  "third line present");
}

#[test]
fn parse_stops_at_next_message_header() {
    let md = "**You:** first\n\n**Agent:** second\n";
    let messages = parse_markdown_to_messages(md).unwrap();
    assert_eq!(messages.len(), 2);
    assert_eq!(messages[0].as_text(), Some("first"));
    assert_eq!(messages[1].as_text(), Some("second"));
}

#[test]
fn multi_paragraph_user_message_blank_lines_preserved_in_round_trip() {
    // A user message that contains a blank line (paragraph break) must
    // survive format → parse without losing the blank line.
    let msg = Message::user("First paragraph\n\nSecond paragraph");
    let cache = StringHashMap::new();
    let md = message_to_markdown(&msg, &cache);
    let messages = parse_markdown_to_messages(&md).unwrap();
    assert_eq!(messages.len(), 1, "should produce exactly one message; md was: {md:?}");
    let text = messages[0].as_text().unwrap();
    assert!(
        text.contains("First paragraph\n\nSecond paragraph"),
        "blank line between paragraphs must be preserved; got: {text:?}",
    );
}

#[test]
fn parse_continuation_lines_with_bold_markdown_not_truncated() {
    // A continuation line that starts with ** (bold text) must NOT be
    // treated as a message header and must be preserved in the parsed text.
    let md = "**You:** first line\n**bold continuation**\nthird line\n";
    let messages = parse_markdown_to_messages(md).unwrap();
    assert_eq!(messages.len(), 1, "should produce exactly one message");
    let text = messages[0].as_text().unwrap();
    assert!(text.contains("bold continuation"),
        "bold continuation line must be preserved; got: {:?}", text);
    assert!(text.contains("third line"),
        "third line must be present; got: {:?}", text);
}

#[test]
fn edit_first_user_message_then_parse_produces_correct_messages_for_resubmit() {
    let mut cache = StringHashMap::new();
    cache.insert("c1".to_string(), "glob".to_string());
    let original_segments = vec![
        user_seg("ORIGINAL_QUESTION"),
        agent_seg("first answer"),
        tool_call_seg("c1", "glob"),
        tool_result_seg("c1", "file.rs"),
        agent_seg("Found file"),
        user_seg("second question"),
        agent_seg("second answer"),
    ];
    let original_md = format_conversation(&original_segments, "", &cache);
    let edited_md = original_md.replace("ORIGINAL_QUESTION", "EDITED_QUESTION");
    let parsed = parse_markdown_to_messages(&edited_md).unwrap();
    assert_eq!(parsed.len(), 7, "all messages must be present");
    assert_eq!(parsed[0].as_text(), Some("EDITED_QUESTION"), "first message was edited");
    assert_eq!(parsed[1].as_text(), Some("first answer"), "second message unchanged");
    assert_eq!(parsed[5].as_text(), Some("second question"), "later messages unchanged");
    if let MessageContent::ToolCall { tool_call_id, function } = &parsed[2].content {
        assert_eq!(tool_call_id, "c1");
        assert_eq!(function.name, "glob");
    } else { panic!("tool call structure must be preserved"); }
}

#[test]
fn edit_middle_agent_response_then_parse_truncates_correctly() {
    let original_segments = vec![
        user_seg("question 1"),
        agent_seg("EDIT_THIS_RESPONSE"),
        user_seg("question 2"),
        agent_seg("answer 2"),
    ];
    let cache = StringHashMap::new();
    let original_md = format_conversation(&original_segments, "", &cache);
    let edited_md = original_md.replace("EDIT_THIS_RESPONSE", "EDITED_RESPONSE");
    let parsed = parse_markdown_to_messages(&edited_md).unwrap();
    assert_eq!(parsed.len(), 4);
    assert_eq!(parsed[0].as_text(), Some("question 1"));
    assert_eq!(parsed[1].as_text(), Some("EDITED_RESPONSE"), "agent message edited");
    assert_eq!(parsed[2].as_text(), Some("question 2"));
    assert_eq!(parsed[3].as_text(), Some("answer 2"));
}

#[test]
fn delete_last_turn_by_removing_markdown_then_parse_produces_truncated_list() {
    let original_segments = vec![
        user_seg("keep this"),
        agent_seg("keep this too"),
        user_seg("DELETE_ME"),
        agent_seg("delete this also"),
    ];
    let cache = StringHashMap::new();
    let original_md = format_conversation(&original_segments, "", &cache);
    let lines: Vec<&str> = original_md.lines().collect();
    let truncated_lines: Vec<&str> = lines
        .iter()
        .take_while(|line| !line.contains("DELETE_ME"))
        .copied()
        .collect();
    let edited_md = truncated_lines.join("\n");
    let parsed = parse_markdown_to_messages(&edited_md).unwrap();
    assert_eq!(parsed.len(), 2);
    assert_eq!(parsed[0].as_text(), Some("keep this"));
    assert_eq!(parsed[1].as_text(), Some("keep this too"));
}

#[test]
fn white_space_inside_messages_survives_the_round_trip() {
    let cache = StringHashMap::new();
    for text in ["a\n  b", "  a  \n\tb\t\n   \n c", "x \n    - item\n\n      more "] {
        for m in [Message::user(text), Message::assistant(text), Message::system(text)] {
            let md = message_to_markdown(&m, &cache);
            assert_eq!(parse_markdown_to_messages(&md).unwrap(), vec![m]);
        }
    }
    let md = message_to_markdown(&Message::user("a\n  b"), &cache);
    assert_eq!(md, "---\n\n**You:** a\n  b\n");
}

#[test]
fn tool_output_survives_the_round_trip() {
    let cache = StringHashMap::new();
    for text in ["", "line\n", "\n\n  indented\n\nlast  \n\n"] {
        let m = Message::tool_result("c1", text);
        let md = message_to_markdown(&m, &cache);
        assert_eq!(parse_markdown_to_messages(&md).unwrap(), vec![m]);
    }
}

#[test]
fn blank_lines_around_a_text_are_left_out() {
    let messages = parse_markdown_to_messages("**You:**\n \n  text\n\n  \n---\n").unwrap();
    assert_eq!(messages, vec![Message::user("  text")]);
    let messages = parse_markdown_to_messages("  **You:**text\n").unwrap();
    assert_eq!(messages, vec![Message::user("text")]);
}
