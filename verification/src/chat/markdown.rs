//! Conversation to Markdown and back: segments are written in the display
//! format of the chat buffer, and that format is parsed back into messages.

use vstd::prelude::*;
use vstd::hash_map::StringHashMap;
use crate::chat::segment::{
    segment_views, todo_views, ChatSegment, CompactionStrategyUsed, ContentView, Message,
    MessageContent, MessageView, Role, SegmentView, TodoItem, TodoItemView,
};
use crate::style::{Color, Line, Span, SpanView, Style, DIM, colored};
use crate::text::{
    byte_len, byte_length, chars_of, contains_char, decimal, first_chars, first_line, first_line_of, join,
    push_decimal, take_chars, text_map, to_uppercase, trim, trim_str, uppercase,
};

verus! {

// ── JSON ─────────────────────────────────────────────────────────────────────

/// What `serde_json` writes, indented, for the value that it reads in a text;
/// `None` where the text is no JSON.
pub uninterp spec fn json_pretty(text: Seq<char>) -> Option<Seq<char>>;

/// `serde_json::from_str::<Value>` followed by `serde_json::to_string_pretty`:
/// the indented form of a JSON text, a function of the text alone.
#[verifier::external_body]
fn pretty_json(text: &str) -> (r: Option<String>)
    ensures
        json_pretty(text@) == match r {
            Some(s) => Some(s@),
            None => None,
        },
{
    serde_json::from_str::<serde_json::Value>(text).and_then(|v| serde_json::to_string_pretty(&v)).ok()
}

// ── Writing ──────────────────────────────────────────────────────────────────

/// One line of a todo list.
pub open spec fn todo_line(t: TodoItemView) -> Seq<char> {
    "- **"@ + uppercase(t.status) + "**: "@ + t.content + " (id: "@ + t.id + ")\n"@
}

/// The lines of a todo list.
pub open spec fn todo_lines(todos: Seq<TodoItemView>) -> Seq<char>
    decreases todos.len(),
{
    if todos.len() == 0 {
        seq![]
    } else {
        todo_lines(todos.drop_last()) + todo_line(todos.last())
    }
}

/// A todo list in Markdown: a heading, a line per item and a blank line.
pub open spec fn todos_markdown(todos: Seq<TodoItemView>) -> Seq<char> {
    "\n**Todo List Updated:**\n\n"@ + todo_lines(todos) + "\n"@
}

/// Formats todo items as Markdown for display in the conversation.
pub fn format_todos_markdown(todos: &Vec<TodoItem>) -> (r: String)
    ensures
        r@ == todos_markdown(todo_views(todos@)),
{
    let mut out = "\n**Todo List Updated:**\n\n".to_owned();
    let mut i: usize = 0;
    assert(todo_views(todos@).take(0) =~= seq![]);
    while i < todos.len()
        invariant
            i <= todos@.len(),
            out@ == "\n**Todo List Updated:**\n\n"@ + todo_lines(todo_views(todos@).take(i as int)),
        decreases todos.len() - i,
    {
        let todo = &todos[i];
        let status = to_uppercase(todo.status.as_str());
        let ghost before = out@;
        out.append("- **");
        out.append(status.as_str());
        out.append("**: ");
        out.append(todo.content.as_str());
        out.append(" (id: ");
        out.append(todo.id.as_str());
        out.append(")\n");
        i += 1;
        proof {
            let part = todo_views(todos@).take(i as int);
            assert(part.last() == todo@);
            assert(part.drop_last() =~= todo_views(todos@).take(i - 1));
            assert(out@ =~= before + todo_line(todo@));
            assert(out@ =~= "\n**Todo List Updated:**\n\n"@ + todo_lines(part));
        }
    }
    assert(todo_views(todos@).take(todos@.len() as int) =~= todo_views(todos@));
    out.append("\n");
    out
}

/// The arguments of a tool call as they are shown: indented where they are
/// JSON, as they stand otherwise.
pub open spec fn shown_arguments(arguments: Seq<char>) -> Seq<char> {
    match json_pretty(arguments) {
        Some(s) => s,
        None => arguments,
    }
}

/// The name of the tool behind a call, `tool` where it is not known.
pub open spec fn tool_name(names: Map<Seq<char>, Seq<char>>, id: Seq<char>) -> Seq<char> {
    if names.contains_key(id) {
        names[id]
    } else {
        "tool"@
    }
}

/// A message in Markdown. A combination of role and content that is not shown
/// gives the empty text.
pub open spec fn message_markdown(m: MessageView, names: Map<Seq<char>, Seq<char>>) -> Seq<char> {
    match (m.role, m.content) {
        (Role::User, ContentView::Text(t)) => "---\n\n**You:** "@ + t + "\n"@,
        (Role::Assistant, ContentView::Text(t)) => "\n**Agent:** "@ + t + "\n"@,
        (Role::Assistant, ContentView::ToolCall { tool_call_id, function }) => {
            "\n**Agent:tool_call:"@ + tool_call_id + "**\n🔧 **Tool Call: "@ + function.name
                + "**\n```json\n"@ + shown_arguments(function.arguments) + "\n```\n"@
        },
        (Role::Tool, ContentView::ToolResult { tool_call_id, content }) => {
            "\n**Tool:"@ + tool_call_id + "**\n✅ **Tool Response: "@ + tool_name(names, tool_call_id)
                + "**\n```\n"@ + content + "\n```\n"@
        },
        (Role::System, ContentView::Text(t)) => "**System:** "@ + t + "\n\n"@,
        _ => seq![],
    }
}

/// Shows a tool call's arguments: indented where they are JSON.
pub fn show_arguments(arguments: &String) -> (r: String)
    ensures
        r@ == shown_arguments(arguments@),
{
    match pretty_json(arguments.as_str()) {
        Some(s) => s,
        None => arguments.clone(),
    }
}

/// Looks up the name of the tool behind a call.
pub fn lookup_tool_name<'a>(names: &'a StringHashMap<String>, id: &str) -> (r: &'a str)
    ensures
        r@ == tool_name(text_map(names@), id@),
{
    match names.get(id) {
        Some(name) => name.as_str(),
        None => "tool",
    }
}

/// Formats a single message as Markdown.
pub fn message_to_markdown(m: &Message, tool_args_cache: &StringHashMap<String>) -> (r: String)
    ensures
        r@ == message_markdown(m@, text_map(tool_args_cache@)),
{
    let mut out = String::new();
    match (&m.role, &m.content) {
        (Role::User, MessageContent::Text(t)) => {
            out.append("---\n\n**You:** ");
            out.append(t.as_str());
            out.append("\n");
        },
        (Role::Assistant, MessageContent::Text(t)) => {
            out.append("\n**Agent:** ");
            out.append(t.as_str());
            out.append("\n");
        },
        (Role::Assistant, MessageContent::ToolCall { tool_call_id, function }) => {
            let arguments = show_arguments(&function.arguments);
            out.append("\n**Agent:tool_call:");
            out.append(tool_call_id.as_str());
            out.append("**\n🔧 **Tool Call: ");
            out.append(function.name.as_str());
            out.append("**\n```json\n");
            out.append(arguments.as_str());
            out.append("\n```\n");
        },
        (Role::Tool, MessageContent::ToolResult { tool_call_id, content }) => {
            let name = lookup_tool_name(tool_args_cache, tool_call_id.as_str());
            out.append("\n**Tool:");
            out.append(tool_call_id.as_str());
            out.append("**\n✅ **Tool Response: ");
            out.append(name);
            out.append("**\n```\n");
            out.append(content.as_str());
            out.append("\n```\n");
        },
        (Role::System, MessageContent::Text(t)) => {
            out.append("**System:** ");
            out.append(t.as_str());
            out.append("\n\n");
        },
        _ => {},
    }
    out
}

/// The note that a context was compacted.
pub open spec fn compaction_markdown(
    tokens_before: nat,
    tokens_after: nat,
    strategy: CompactionStrategyUsed,
    turn: nat,
) -> Seq<char> {
    let label = match strategy {
        CompactionStrategyUsed::Structured => "Context compacted (structured)"@,
        CompactionStrategyUsed::Narrative => "Context compacted (narrative)"@,
        CompactionStrategyUsed::Emergency => "⚠ Context emergency-compacted"@,
    };
    let note = if turn > 0 {
        " · tool round "@ + decimal(turn)
    } else {
        seq![]
    };
    "\n---\n*"@ + label + ": "@ + decimal(tokens_before) + " → "@ + decimal(tokens_after)
        + " tokens"@ + note + "*\n\n"@
}

/// The one-line description of a delegated task.
pub open spec fn delegate_line(
    to_name: Seq<char>,
    task_title: Seq<char>,
    status: Seq<char>,
) -> Seq<char> {
    "(delegated \""@ + task_title + "\" to "@ + to_name + ": "@ + status + ")"@
}

/// A segment in Markdown.
pub open spec fn segment_markdown(seg: SegmentView, names: Map<Seq<char>, Seq<char>>) -> Seq<char> {
    match seg {
        SegmentView::Message(m) => message_markdown(m, names),
        SegmentView::ContextCompacted { tokens_before, tokens_after, strategy, turn } => {
            compaction_markdown(tokens_before as nat, tokens_after as nat, strategy, turn as nat)
        },
        SegmentView::Error(msg) => "\n**Error**: "@ + msg + "\n\n"@,
        SegmentView::Thinking { content } => {
            "\n**Agent:thinking**\n💭 **Thought**\n```\n"@ + content + "\n```\n"@
        },
        SegmentView::TodoUpdate(todos) => todos_markdown(todos),
        SegmentView::CollabEvent(line) => "\n"@ + line + "\n\n"@,
        SegmentView::DelegateSummary { to_name, task_title, status, .. } => {
            "\n"@ + delegate_line(to_name, task_title, status) + "\n\n"@
        },
    }
}

fn compaction_to_markdown(
    tokens_before: usize,
    tokens_after: usize,
    strategy: CompactionStrategyUsed,
    turn: u32,
) -> (r: String)
    ensures
        r@ == compaction_markdown(
            tokens_before as nat,
            tokens_after as nat,
            strategy,
            turn as nat,
        ),
{
    let label = match strategy {
        CompactionStrategyUsed::Structured => "Context compacted (structured)",
        CompactionStrategyUsed::Narrative => "Context compacted (narrative)",
        CompactionStrategyUsed::Emergency => "⚠ Context emergency-compacted",
    };
    let mut note = String::new();
    if turn > 0 {
        note.append(" · tool round ");
        push_decimal(&mut note, turn as u64);
    }
    let mut out = String::new();
    out.append("\n---\n*");
    out.append(label);
    out.append(": ");
    push_decimal(&mut out, tokens_before as u64);
    out.append(" → ");
    push_decimal(&mut out, tokens_after as u64);
    out.append(" tokens");
    out.append(note.as_str());
    out.append("*\n\n");
    out
}

/// The one-line description of a delegated task.
pub fn format_delegate_line(to_name: &str, task_title: &str, status: &str) -> (r: String)
    ensures
        r@ == delegate_line(to_name@, task_title@, status@),
{
    let mut out = String::new();
    out.append("(delegated \"");
    out.append(task_title);
    out.append("\" to ");
    out.append(to_name);
    out.append(": ");
    out.append(status);
    out.append(")");
    out
}

/// Formats a single segment as Markdown for display.
pub fn segment_to_markdown(seg: &ChatSegment, tool_args_cache: &StringHashMap<String>) -> (r: String)
    ensures
        r@ == segment_markdown(seg@, text_map(tool_args_cache@)),
{
    match seg {
        ChatSegment::Message(m) => message_to_markdown(m, tool_args_cache),
        ChatSegment::ContextCompacted { tokens_before, tokens_after, strategy, turn } => {
            compaction_to_markdown(*tokens_before, *tokens_after, *strategy, *turn)
        },
        ChatSegment::Error(msg) => {
            let mut out = "\n**Error**: ".to_owned();
            out.append(msg.as_str());
            out.append("\n\n");
            out
        },
        ChatSegment::Thinking { content } => {
            let mut out = "\n**Agent:thinking**\n💭 **Thought**\n```\n".to_owned();
            out.append(content.as_str());
            out.append("\n```\n");
            out
        },
        ChatSegment::TodoUpdate(todos) => format_todos_markdown(todos),
        ChatSegment::CollabEvent(line) => {
            let mut out = "\n".to_owned();
            out.append(line.as_str());
            out.append("\n\n");
            out
        },
        ChatSegment::DelegateSummary { to_name, task_title, status, .. } => {
            let line = format_delegate_line(to_name.as_str(), task_title.as_str(), status.as_str());
            let mut out = "\n".to_owned();
            out.append(line.as_str());
            out.append("\n\n");
            out
        },
    }
}

// ── Collapsed previews ───────────────────────────────────────────────────────

/// Pairs of strings.
pub open spec fn pair_views(v: Seq<(String, String)>) -> Seq<(Seq<char>, Seq<char>)> {
    v.map_values(|p: (String, String)| (p.0@, p.1@))
}

/// The value of a member of a JSON object.
#[derive(Debug, PartialEq, Eq)]
pub enum JsonMember {
    /// A string: its characters.
    Text(String),
    /// Any other value, as compact JSON.
    Other(String),
}

pub enum JsonMemberView {
    Text(Seq<char>),
    Other(Seq<char>),
}

impl View for JsonMember {
    type V = JsonMemberView;

    open spec fn view(&self) -> JsonMemberView {
        match self {
            JsonMember::Text(s) => JsonMemberView::Text(s@),
            JsonMember::Other(s) => JsonMemberView::Other(s@),
        }
    }
}

/// The members of a JSON object: keys and values.
pub open spec fn member_views(v: Seq<(String, JsonMember)>) -> Seq<(Seq<char>, JsonMemberView)> {
    v.map_values(|p: (String, JsonMember)| (p.0@, p.1@))
}

/// How a text reads as JSON: `None` where it is no JSON, `Some(None)` where it
/// is no object, and otherwise the members of the object.
pub open spec fn members_view(members: Option<Option<Vec<(String, JsonMember)>>>) -> Option<
    Option<Seq<(Seq<char>, JsonMemberView)>>,
> {
    match members {
        None => None,
        Some(None) => Some(None),
        Some(Some(v)) => Some(Some(member_views(v@))),
    }
}

/// What `serde_json` reads from a text: the members of an object in the order
/// in which the parsed map yields them.
pub uninterp spec fn json_members(text: Seq<char>) -> Option<
    Option<Seq<(Seq<char>, JsonMemberView)>>,
>;

/// `serde_json::from_str::<Value>`, with the members of an object handed out: a
/// string member by its characters, any other by its compact JSON. The result
/// is a function of the text alone.
#[verifier::external_body]
fn parse_json_members(text: &str) -> (r: Option<Option<Vec<(String, JsonMember)>>>)
    ensures
        members_view(r) == json_members(text@),
{
    match serde_json::from_str::<serde_json::Value>(text) {
        Ok(serde_json::Value::Object(map)) => Some(Some(map.into_iter().map(|(k, v)| match v {
            serde_json::Value::String(s) => (k, JsonMember::Text(s)),
            other => (k, JsonMember::Other(other.to_string())),
        }).collect())),
        Ok(_) => Some(None),
        Err(_) => None,
    }
}

/// What is shown of a member's value: a string as it stands, without quotes;
/// any other value as compact JSON; at most forty characters of either.
pub open spec fn value_preview(value: JsonMemberView) -> Seq<char> {
    match value {
        JsonMemberView::Text(s) => first_chars(s, 40),
        JsonMemberView::Other(json) => first_chars(json, 40),
    }
}

/// One member of a JSON object in a preview.
pub open spec fn member_preview(p: (Seq<char>, JsonMemberView)) -> Seq<char> {
    p.0 + "="@ + value_preview(p.1)
}

/// Appends the preview of a member.
fn push_member(out: &mut String, key: &str, value: &JsonMember)
    ensures
        final(out)@ == old(out)@ + member_preview((key@, value@)),
{
    let ghost before = out@;
    out.append(key);
    out.append("=");
    match value {
        JsonMember::Text(s) => out.append(take_chars(s.as_str(), 40)),
        JsonMember::Other(json) => out.append(take_chars(json.as_str(), 40)),
    }
    assert(out@ =~= before + member_preview((key@, value@)));
}

/// The preview of a tool call's arguments: the first two members of the object
/// that they are, or else their first sixty characters.
pub open spec fn arguments_preview_of(
    members: Option<Option<Seq<(Seq<char>, JsonMemberView)>>>,
    arguments: Seq<char>,
) -> Seq<char> {
    match members {
        Some(Some(m)) => join(
            m.take(if m.len() < 2 { m.len() as int } else { 2 }).map_values(
                |p: (Seq<char>, JsonMemberView)| member_preview(p),
            ),
            " "@,
        ),
        _ => first_chars(arguments, 60),
    }
}

/// The preview of a tool call's arguments, given how they read as JSON.
pub fn arguments_preview(
    members: &Option<Option<Vec<(String, JsonMember)>>>,
    arguments: &str,
) -> (r: String)
    ensures
        r@ == arguments_preview_of(members_view(*members), arguments@),
{
    match members {
        Some(Some(v)) => {
            let mut out = String::new();
            let ghost f = |p: (Seq<char>, JsonMemberView)| member_preview(p);
            let ghost m = member_views(v@);
            if v.len() >= 1 {
                push_member(&mut out, v[0].0.as_str(), &v[0].1);
                assert(m[0] == (v@[0].0@, v@[0].1@));
                assert(out@ =~= member_preview(m[0]));
            }
            let ghost first = out@;
            if v.len() >= 2 {
                out.append(" ");
                push_member(&mut out, v[1].0.as_str(), &v[1].1);
                assert(m[1] == (v@[1].0@, v@[1].1@));
                assert(out@ =~= first + " "@ + member_preview(m[1]));
            }
            proof {
                let k = if m.len() < 2 { m.len() as int } else { 2 };
                let parts = m.take(k).map_values(f);
                reveal_with_fuel(join, 3);
                if v.len() >= 2 {
                    assert(parts.drop_last() =~= seq![member_preview(m[0])]);
                    assert(parts.last() == member_preview(m[1]));
                } else if v.len() == 1 {
                    assert(parts =~= seq![member_preview(m[0])]);
                } else {
                    assert(parts =~= seq![]);
                }
            }
            out
        },
        _ => take_chars(arguments, 60).to_owned(),
    }
}

/// The ellipsis after a preview that leaves something out.
pub open spec fn ellipsis(more: bool) -> Seq<char> {
    if more {
        "…"@
    } else {
        seq![]
    }
}

/// The preview of a text message: the first line, trimmed, and at most eighty
/// characters of it.
pub open spec fn text_preview(t: Seq<char>) -> Seq<char> {
    let first = trim(first_line(t));
    first_chars(first, 80) + ellipsis(first.len() > 80 || t.contains('\n'))
}

/// The preview of an output: at most eighty characters of the first line.
pub open spec fn output_preview(t: Seq<char>) -> Seq<char> {
    let preview = first_chars(first_line(t), 80);
    preview + ellipsis(byte_len(t) > byte_len(preview) + 1)
}

/// A segment as a single collapsed line. What has no shorter form is shown in
/// full.
pub open spec fn collapsed_markdown(seg: SegmentView, names: Map<Seq<char>, Seq<char>>) -> Seq<char> {
    match seg {
        SegmentView::Message(m) => match (m.role, m.content) {
            (Role::User, ContentView::Text(t)) => {
                "\n**User:** `"@ + text_preview(t) + "` ▶ click to expand\n"@
            },
            (Role::Assistant, ContentView::Text(t)) => {
                "\n**Agent:** `"@ + text_preview(t) + "` ▶ click to expand\n"@
            },
            (Role::Assistant, ContentView::ToolCall { tool_call_id, function }) => {
                "\n**Agent:tool_call:"@ + tool_call_id + "**\n🔧 **Tool Call: "@ + function.name
                    + "** `"@ + arguments_preview_of(
                    json_members(function.arguments),
                    function.arguments,
                ) + "` ▶ click to expand\n"@
            },
            (Role::Tool, ContentView::ToolResult { tool_call_id, content }) => {
                "\n**Tool:"@ + tool_call_id + "**\n✅ **Tool Response: "@ + tool_name(
                    names,
                    tool_call_id,
                ) + "** `"@ + output_preview(content) + "` ▶ click to expand\n"@
            },
            _ => segment_markdown(seg, names),
        },
        SegmentView::Thinking { content } => {
            "\n**Agent:thinking**\n💭 **Thought** `"@ + output_preview(content)
                + "` ▶ click to expand\n"@
        },
        _ => segment_markdown(seg, names),
    }
}

fn preview_text(t: &str) -> (r: String)
    ensures
        r@ == text_preview(t@),
{
    let line = first_line_of(t);
    let first = trim_str(line.as_str());
    let mut out = take_chars(first, 80).to_owned();
    if first.unicode_len() > 80 || contains_char(t, '\n') {
        out.append("…");
    }
    out
}

fn preview_output(t: &str) -> (r: String)
    ensures
        r@ == output_preview(t@),
{
    let line = first_line_of(t);
    let mut out = take_chars(line.as_str(), 80).to_owned();
    let total: usize = byte_length(t);
    let shown: usize = byte_length(out.as_str());
    if total > shown && total - shown > 1 {
        out.append("…");
    }
    out
}

/// Renders a single-line collapsed preview for a segment.
pub fn collapsed_preview(seg: &ChatSegment, tool_args_cache: &StringHashMap<String>) -> (r: String)
    ensures
        r@ == collapsed_markdown(seg@, text_map(tool_args_cache@)),
{
    let mut out = String::new();
    match seg {
        ChatSegment::Message(m) => match (&m.role, &m.content) {
            (Role::User, MessageContent::Text(t)) => {
                let preview = preview_text(t.as_str());
                out.append("\n**User:** `");
                out.append(preview.as_str());
                out.append("` ▶ click to expand\n");
            },
            (Role::Assistant, MessageContent::Text(t)) => {
                let preview = preview_text(t.as_str());
                out.append("\n**Agent:** `");
                out.append(preview.as_str());
                out.append("` ▶ click to expand\n");
            },
            (Role::Assistant, MessageContent::ToolCall { tool_call_id, function }) => {
                let members = parse_json_members(function.arguments.as_str());
                let preview = arguments_preview(&members, function.arguments.as_str());
                out.append("\n**Agent:tool_call:");
                out.append(tool_call_id.as_str());
                out.append("**\n🔧 **Tool Call: ");
                out.append(function.name.as_str());
                out.append("** `");
                out.append(preview.as_str());
                out.append("` ▶ click to expand\n");
            },
            (Role::Tool, MessageContent::ToolResult { tool_call_id, content }) => {
                let name = lookup_tool_name(tool_args_cache, tool_call_id.as_str());
                let preview = preview_output(content.as_str());
                out.append("\n**Tool:");
                out.append(tool_call_id.as_str());
                out.append("**\n✅ **Tool Response: ");
                out.append(name);
                out.append("** `");
                out.append(preview.as_str());
                out.append("` ▶ click to expand\n");
            },
            _ => {
                return segment_to_markdown(seg, tool_args_cache);
            },
        },
        ChatSegment::Thinking { content } => {
            let preview = preview_output(content.as_str());
            out.append("\n**Agent:thinking**\n💭 **Thought** `");
            out.append(preview.as_str());
            out.append("` ▶ click to expand\n");
        },
        _ => {
            return segment_to_markdown(seg, tool_args_cache);
        },
    }
    out
}

// ── Whole conversations ──────────────────────────────────────────────────────

/// `s` without its leading newlines.
pub open spec fn trim_newlines(s: Seq<char>) -> Seq<char>
    decreases s.len(),
{
    if s.len() > 0 && s[0] == '\n' {
        trim_newlines(s.skip(1))
    } else {
        s
    }
}

/// The segments in Markdown, one after the other; the first begins without a
/// blank line.
pub open spec fn segments_markdown(
    segs: Seq<SegmentView>,
    names: Map<Seq<char>, Seq<char>>,
) -> Seq<char>
    decreases segs.len(),
{
    if segs.len() == 0 {
        seq![]
    } else if segs.len() == 1 {
        trim_newlines(segment_markdown(segs[0], names))
    } else {
        segments_markdown(segs.drop_last(), names) + segment_markdown(segs.last(), names)
    }
}

/// A conversation in Markdown, with what the agent is writing at its end.
pub open spec fn conversation_markdown(
    segs: Seq<SegmentView>,
    streaming: Seq<char>,
    names: Map<Seq<char>, Seq<char>>,
) -> Seq<char> {
    segments_markdown(segs, names) + if streaming.len() == 0 {
        seq![]
    } else {
        "**Agent:** "@ + streaming
    }
}

fn trim_newlines_str(s: &str) -> (r: &str)
    ensures
        r@ == trim_newlines(s@),
{
    let chars = chars_of(s);
    let n: usize = chars.len();
    let mut i: usize = 0;
    assert(s@.skip(0) =~= s@);
    while i < n && chars[i] == '\n'
        invariant
            i <= n == chars@.len(),
            chars@ == s@,
            trim_newlines(s@) == trim_newlines(s@.skip(i as int)),
        decreases n - i,
    {
        i += 1;
        assert(s@.skip(i - 1).skip(1) =~= s@.skip(i as int));
    }
    let r = s.substring_char(i, n);
    assert(r@ =~= s@.skip(i as int));
    r
}

/// Formats the full conversation as a single Markdown text.
pub fn format_conversation(
    segments: &Vec<ChatSegment>,
    streaming_buffer: &str,
    tool_args_cache: &StringHashMap<String>,
) -> (r: String)
    ensures
        r@ == conversation_markdown(
            segment_views(segments@),
            streaming_buffer@,
            text_map(tool_args_cache@),
        ),
{
    let mut out = String::new();
    let ghost segs = segment_views(segments@);
    let mut i: usize = 0;
    assert(segs.take(0) =~= seq![]);
    while i < segments.len()
        invariant
            i <= segments@.len(),
            segs == segment_views(segments@),
            out@ == segments_markdown(segs.take(i as int), text_map(tool_args_cache@)),
        decreases segments.len() - i,
    {
        let md = segment_to_markdown(&segments[i], tool_args_cache);
        if i == 0 {
            out.append(trim_newlines_str(md.as_str()));
        } else {
            out.append(md.as_str());
        }
        i += 1;
        proof {
            let part = segs.take(i as int);
            assert(part.last() == segments@[i - 1]@);
            assert(part.drop_last() =~= segs.take(i - 1));
            assert(out@ =~= segments_markdown(part, text_map(tool_args_cache@)));
        }
    }
    assert(segs.take(segments@.len() as int) =~= segs);
    if !streaming_buffer.is_empty() {
        out.append("**Agent:** ");
        out.append(streaming_buffer);
    }
    out
}

// ── Colour bars ──────────────────────────────────────────────────────────────

/// The colour of the bar beside a segment, if it has one.
pub open spec fn bar_color(seg: SegmentView) -> Option<Color> {
    match seg {
        SegmentView::Message(m) => match (m.role, m.content) {
            (Role::User, ContentView::Text(_)) => Some(Color::Green),
            (Role::Assistant, ContentView::Text(_)) => Some(Color::Blue),
            (Role::Assistant, ContentView::ToolCall { .. }) => Some(Color::Yellow),
            (Role::Tool, ContentView::ToolResult { .. }) => Some(Color::Yellow),
            _ => None,
        },
        SegmentView::Thinking { .. } => Some(Color::Magenta),
        SegmentView::Error(_) => Some(Color::Red),
        _ => None,
    }
}

/// Returns the style of the bar beside a segment and whether the segment is
/// dimmed.
pub fn segment_bar_style(seg: &ChatSegment) -> (r: (Option<Style>, bool))
    ensures
        r.0 == match bar_color(seg@) {
            Some(c) => Some(colored(c)),
            None => None,
        },
        !r.1,
{
    match seg {
        ChatSegment::Message(m) => match (&m.role, &m.content) {
            (Role::User, MessageContent::Text(_)) => (Some(Style::foreground(Color::Green)), false),
            (Role::Assistant, MessageContent::Text(_)) => {
                (Some(Style::foreground(Color::Blue)), false)
            },
            (Role::Assistant, MessageContent::ToolCall { .. }) => {
                (Some(Style::foreground(Color::Yellow)), false)
            },
            (Role::Tool, MessageContent::ToolResult { .. }) => {
                (Some(Style::foreground(Color::Yellow)), false)
            },
            _ => (None, false),
        },
        ChatSegment::Thinking { .. } => (Some(Style::foreground(Color::Magenta)), false),
        ChatSegment::Error(_) => (Some(Style::foreground(Color::Red)), false),
        _ => (None, false),
    }
}

/// A span, dimmed if asked for.
pub open spec fn dimmed(s: SpanView, dim: bool) -> SpanView {
    if dim {
        SpanView { content: s.content, style: Style { modifiers: s.style.modifiers | DIM, ..s.style } }
    } else {
        s
    }
}

/// A line behind its bar, dimmed if asked for; the bar itself is never dimmed.
pub open spec fn barred(
    line: Seq<SpanView>,
    bar_style: Option<Style>,
    dim: bool,
    bar_char: Seq<char>,
) -> Seq<SpanView> {
    (match bar_style {
        Some(style) => seq![SpanView { content: bar_char, style }],
        None => seq![],
    }) + line.map_values(|s: SpanView| dimmed(s, dim))
}

fn bar_line(line: &Line, bar_style: Option<Style>, dim: bool, bar_char: &str) -> (r: Line)
    ensures
        r@ == barred(line@, bar_style, dim, bar_char@),
{
    let mut spans: Vec<Span> = Vec::new();
    let ghost f = |s: Span| s@;
    if let Some(style) = bar_style {
        spans.push(Span::styled(bar_char, style));
    }
    let ghost head = spans@.map_values(f);
    assert(head =~= barred(seq![], bar_style, dim, bar_char@));
    let mut i: usize = 0;
    while i < line.spans.len()
        invariant
            i <= line.spans@.len(),
            f == (|s: Span| s@),
            spans@.map_values(f) == head + line@.take(i as int).map_values(
                |s: SpanView| dimmed(s, dim),
            ),
        decreases line.spans.len() - i,
    {
        let s = &line.spans[i];
        let style = if dim {
            s.style.with_modifiers(DIM)
        } else {
            s.style
        };
        let ghost before = spans@;
        spans.push(Span::styled(s.content.as_str(), style));
        i += 1;
        proof {
            assert(spans@.map_values(f) =~= before.map_values(f).push(dimmed(s@, dim)));
            assert(line@.take(i as int) =~= line@.take(i - 1).push(s@));
            assert(spans@.map_values(f) =~= head + line@.take(i as int).map_values(
                |s: SpanView| dimmed(s, dim),
            ));
        }
    }
    assert(line@.take(line.spans@.len() as int) =~= line@);
    let r = Line { spans };
    assert(r@ =~= barred(line@, bar_style, dim, bar_char@));
    r
}

/// Puts a coloured bar in front of every line and dims the text if asked for.
pub fn apply_bar_and_dim(
    lines: &Vec<Line>,
    bar_style: Option<Style>,
    dim: bool,
    bar_char: &str,
) -> (r: Vec<Line>)
    ensures
        r@.len() == lines@.len(),
        forall|i: int|
            0 <= i < r@.len() ==> (#[trigger] r@[i])@ == barred(
                lines@[i]@,
                bar_style,
                dim,
                bar_char@,
            ),
{
    let mut out: Vec<Line> = Vec::new();
    let mut i: usize = 0;
    while i < lines.len()
        invariant
            i <= lines@.len(),
            out@.len() == i,
            forall|k: int|
                0 <= k < i ==> (#[trigger] out@[k])@ == barred(
                    lines@[k]@,
                    bar_style,
                    dim,
                    bar_char@,
                ),
        decreases lines.len() - i,
    {
        out.push(bar_line(&lines[i], bar_style, dim, bar_char));
        i += 1;
    }
    out
}

} // verus!
