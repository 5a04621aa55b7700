//! What is written promises: how a conversation reads, what a preview leaves out,
//! what is copied, and how calls and their results are drawn.

use vstd::prelude::*;

use crate::chat::markdown::{
    arguments_preview_of, bar_color, barred, collapsed_markdown, conversation_markdown,
    delegate_line, json_members, json_pretty, message_markdown, output_preview, segment_markdown,
    segments_markdown, text_preview, todo_lines, todos_markdown, trim_newlines, value_preview,
    JsonMemberView,
};
use crate::chat::parse::{block_at, fence_at, is_fence, is_header, text_stop};
use crate::chat::preview::{
    between_columns, clipboard_sequence, fitting, line_text, quoted_preview, segment_text,
    selected_part, selection_text, short_preview, shortened, text_width, tidy,
};
use crate::chat::segment::{
    CompactionStrategyUsed, ContentView, FunctionCallView, MessageView, Role, SegmentView,
    TodoItemView,
};
use crate::chat::segment_ops::{editable_text, removable, rerunnable};
use crate::chat::tools::{
    accent, grouped_preview, is_error_result, is_paired, last_solid_line, partial_text,
    progress_part, rich_lines, rich_plan, running_preview, streaming_text, ResultPlanView,
    RichPlanView, ToolFacesView, ToolTheme,
};
use crate::input_wrap::{char_cols, chars_until};
use crate::style::{colored, plain_style, Color, SpanView, Style};
use crate::text::{
    byte_len, decimal, first_line, join, lemma_prefix_of_concat, lines, trim, trim_end, uppercase,
};

verus! {

// ── Messages ─────────────────────────────────────────────────────────────────

/// A message reads as who speaks and what was said: the user, the assistant and
/// the system with their text.
pub proof fn law_texts_read_as_spoken(t: Seq<char>, names: Map<Seq<char>, Seq<char>>)
    ensures
        message_markdown(
            MessageView { role: Role::User, content: ContentView::Text(t) },
            names,
        ) == "---\n\n**You:** "@ + t + "\n"@,
        message_markdown(
            MessageView { role: Role::Assistant, content: ContentView::Text(t) },
            names,
        ) == "\n**Agent:** "@ + t + "\n"@,
        message_markdown(
            MessageView { role: Role::System, content: ContentView::Text(t) },
            names,
        ) == "**System:** "@ + t + "\n\n"@,
{
}

/// A call reads as its identifier, the name of its tool and its arguments:
/// indented where they are JSON, else as they stand.
pub proof fn law_calls_read_whole(
    id: Seq<char>,
    name: Seq<char>,
    arguments: Seq<char>,
    names: Map<Seq<char>, Seq<char>>,
)
    ensures
        ({
            let m = MessageView {
                role: Role::Assistant,
                content: ContentView::ToolCall {
                    tool_call_id: id,
                    function: FunctionCallView { name, arguments },
                },
            };
            let shown = if json_pretty(arguments) is Some {
                json_pretty(arguments)->0
            } else {
                arguments
            };
            message_markdown(m, names) == "\n**Agent:tool_call:"@ + id + "**\n🔧 **Tool Call: "@
                + name + "**\n```json\n"@ + shown + "\n```\n"@
        }),
{
}

/// A result reads as the call that it answers, the name of the tool where that
/// is known, and the output.
pub proof fn law_results_read_whole(
    id: Seq<char>,
    content: Seq<char>,
    names: Map<Seq<char>, Seq<char>>,
)
    ensures
        ({
            let m = MessageView {
                role: Role::Tool,
                content: ContentView::ToolResult { tool_call_id: id, content },
            };
            let name = if names.dom().contains(id) {
                names[id]
            } else {
                "tool"@
            };
            message_markdown(m, names) == "\n**Tool:"@ + id + "**\n✅ **Tool Response: "@ + name
                + "**\n```\n"@ + content + "\n```\n"@
        }),
{
}

/// Everything else that is shown reads as what it is: a message as it reads, an
/// error, a thought, an event, and delegated work.
pub proof fn law_segments_read_as_they_are(
    m: MessageView,
    t: Seq<char>,
    to: Seq<char>,
    title: Seq<char>,
    seg: SegmentView,
    names: Map<Seq<char>, Seq<char>>,
)
    ensures
        segment_markdown(SegmentView::Message(m), names) == message_markdown(m, names),
        segment_markdown(SegmentView::Error(t), names) == "\n**Error**: "@ + t + "\n\n"@,
        segment_markdown(SegmentView::Thinking { content: t }, names)
            == "\n**Agent:thinking**\n💭 **Thought**\n```\n"@ + t + "\n```\n"@,
        segment_markdown(SegmentView::CollabEvent(t), names) == "\n"@ + t + "\n\n"@,
        delegate_line(to, title, t) == "(delegated \""@ + title + "\" to "@ + to + ": "@ + t
            + ")"@,
        seg matches SegmentView::DelegateSummary { to_name, task_title, status, .. }
            ==> segment_markdown(seg, names) == "\n"@ + delegate_line(to_name, task_title, status)
            + "\n\n"@,
{
}

/// The note of a compaction tells what it did: how, from how many tokens to how
/// many, and in which round of tools, where it was in one.
pub proof fn law_compactions_read_whole(
    before: usize,
    after: usize,
    turn: u32,
    names: Map<Seq<char>, Seq<char>>,
    strategy: CompactionStrategyUsed,
)
    ensures
        ({
            let r = segment_markdown(
                SegmentView::ContextCompacted {
                    tokens_before: before,
                    tokens_after: after,
                    strategy,
                    turn,
                },
                names,
            );
            let label = if strategy == CompactionStrategyUsed::Structured {
                "Context compacted (structured)"@
            } else if strategy == CompactionStrategyUsed::Narrative {
                "Context compacted (narrative)"@
            } else {
                "⚠ Context emergency-compacted"@
            };
            let body = "\n---\n*"@ + label + ": "@ + decimal(before as nat) + " → "@ + decimal(
                after as nat,
            ) + " tokens"@;
            &&& turn == 0 ==> r == body + "*\n\n"@
            &&& turn > 0 ==> r == body + (" · tool round "@ + decimal(turn as nat)) + "*\n\n"@
        }),
{
    if turn == 0 {
        let label = if strategy == CompactionStrategyUsed::Structured {
            "Context compacted (structured)"@
        } else if strategy == CompactionStrategyUsed::Narrative {
            "Context compacted (narrative)"@
        } else {
            "⚠ Context emergency-compacted"@
        };
        let body = "\n---\n*"@ + label + ": "@ + decimal(before as nat) + " → "@ + decimal(
            after as nat,
        ) + " tokens"@;
        assert(body + seq![] =~= body);
    }
}

/// A todo list has a line for each entry, in order: the state in capitals, what
/// is to be done, and the identifier.
pub proof fn law_todos_have_their_lines(todos: Seq<TodoItemView>, t: TodoItemView)
    ensures
        todo_lines(todos.push(t)) == todo_lines(todos) + ("- **"@ + uppercase(t.status) + "**: "@
            + t.content + " (id: "@ + t.id + ")\n"@),
        todo_lines(seq![]) == Seq::<char>::empty(),
        todos_markdown(todos) == "\n**Todo List Updated:**\n\n"@ + todo_lines(todos) + "\n"@,
{
    assert(todos.push(t).drop_last() =~= todos);
}

/// The line feeds are taken off the front of a text, all of them and nothing
/// else.
pub proof fn law_leading_lines_are_taken_off(s: Seq<char>, k: int)
    requires
        0 <= k <= s.len(),
        forall|i: int| 0 <= i < k ==> #[trigger] s[i] == '\n',
        k < s.len() ==> s[k] != '\n',
    ensures
        trim_newlines(s) == s.subrange(k, s.len() as int),
    decreases k,
{
    if k > 0 {
        let rest = s.skip(1);
        assert forall|i: int| 0 <= i < k - 1 implies #[trigger] rest[i] == '\n' by {
            assert(rest[i] == s[i + 1]);
        }
        law_leading_lines_are_taken_off(rest, k - 1);
        assert(rest.subrange(k - 1, rest.len() as int) =~= s.subrange(k, s.len() as int));
        assert(s[0] == '\n');
    } else {
        assert(s.subrange(0, s.len() as int) =~= s);
    }
}

/// A conversation reads as its segments, one after the other; the first without
/// the blank lines before it. What is being received comes at the end.
pub proof fn law_conversation_reads_in_order(
    segs: Seq<SegmentView>,
    seg: SegmentView,
    received: Seq<char>,
    names: Map<Seq<char>, Seq<char>>,
)
    ensures
        segments_markdown(seq![], names) == Seq::<char>::empty(),
        segments_markdown(seq![seg], names) == trim_newlines(segment_markdown(seg, names)),
        segs.len() > 0 ==> segments_markdown(segs.push(seg), names) == segments_markdown(
            segs,
            names,
        ) + segment_markdown(seg, names),
        received.len() == 0 ==> conversation_markdown(segs, received, names) == segments_markdown(
            segs,
            names,
        ),
        received.len() > 0 ==> conversation_markdown(segs, received, names) == segments_markdown(
            segs,
            names,
        ) + ("**Agent:** "@ + received),
{
    assert(segs.push(seg).drop_last() =~= segs);
    if received.len() == 0 {
        assert(segments_markdown(segs, names) + seq![] =~= segments_markdown(segs, names));
    }
}

// ── Previews ─────────────────────────────────────────────────────────────────

/// The columns that characters take up, one after the other.
pub open spec fn columns(s: Seq<char>) -> int
    decreases s.len(),
{
    if s.len() == 0 {
        0
    } else {
        char_cols(s[0]) + columns(s.skip(1))
    }
}

proof fn lemma_columns_front(s: Seq<char>, k: int)
    requires
        0 < k <= s.len(),
    ensures
        columns(s.take(k)) == char_cols(s[0]) + columns(s.skip(1).take(k - 1)),
{
    assert(s.take(k).skip(1) =~= s.skip(1).take(k - 1));
}

/// What is kept of a text that is cut is its longest beginning that fits.
pub proof fn law_cut_text_fits(s: Seq<char>, max: int)
    requires
        max >= 0,
    ensures
        fitting(s, max) <= s.len(),
        columns(s.take(fitting(s, max) as int)) <= max,
        fitting(s, max) < s.len() ==> columns(s.take(fitting(s, max) as int + 1)) > max,
    decreases s.len(),
{
    if s.len() == 0 {
        assert(s.take(0) =~= seq![]);
    } else if char_cols(s[0]) > max {
        assert(s.take(0) =~= seq![]);
        lemma_columns_front(s, 1);
        assert(s.skip(1).take(0) =~= seq![]);
    } else {
        law_cut_text_fits(s.skip(1), max - char_cols(s[0]));
        let k = fitting(s, max) as int;
        lemma_columns_front(s, k);
        if k < s.len() {
            lemma_columns_front(s, k + 1);
        }
    }
}

/// A text that is short enough is shown whole; of a longer one the beginning is
/// shown that leaves room for an ellipsis, and that.
pub proof fn law_long_texts_are_shortened(s: Seq<char>, max: nat)
    requires
        max > 0,
    ensures
        text_width(s) <= max ==> shortened(s, max) == s,
        text_width(s) > max ==> {
            let k = fitting(s, max - 1) as int;
            &&& shortened(s, max) == s.subrange(0, k) + "…"@
            &&& k <= s.len()
            &&& columns(s.subrange(0, k)) <= max - 1
            &&& k < s.len() ==> columns(s.subrange(0, k + 1)) > max - 1
        },
{
    law_cut_text_fits(s, max - 1);
    let k = fitting(s, max - 1) as int;
    assert(s.take(k) =~= s.subrange(0, k));
    if k < s.len() {
        assert(s.take(k + 1) =~= s.subrange(0, k + 1));
    }
}

/// A preview of a text is its first line in quotation marks, cut where it takes
/// up more than sixty columns.
pub proof fn law_previews_are_quoted(raw: Seq<char>)
    ensures
        ({
            let line = trim(first_line(raw));
            let k = fitting(line, 60) as int;
            &&& text_width(line) <= 60 ==> quoted_preview(raw) == "\""@ + line + "\""@
            &&& text_width(line) > 60 ==> quoted_preview(raw) == "\""@ + line.subrange(0, k)
                + "…\""@
        }),
{
    let line = trim(first_line(raw));
    law_cut_text_fits(line, 60);
    let k = fitting(line, 60) as int;
    assert(line.take(k) =~= line.subrange(0, k));
}

/// A segment is known by a short preview: a text by its beginning, a call by its
/// tool, a result by its output, and the rest by what it is.
pub proof fn law_segments_have_previews(
    role: Role,
    t: Seq<char>,
    id: Seq<char>,
    f: FunctionCallView,
    todos: Seq<TodoItemView>,
    seg: SegmentView,
)
    ensures
        short_preview(
            SegmentView::Message(MessageView { role, content: ContentView::Text(t) }),
        ) == quoted_preview(trim(t)),
        short_preview(
            SegmentView::Message(
                MessageView {
                    role,
                    content: ContentView::ToolCall { tool_call_id: id, function: f },
                },
            ),
        ) == quoted_preview("tool call: "@ + f.name),
        short_preview(
            SegmentView::Message(
                MessageView {
                    role,
                    content: ContentView::ToolResult { tool_call_id: id, content: t },
                },
            ),
        ) == quoted_preview(t),
        short_preview(SegmentView::Thinking { content: t }) == quoted_preview(trim(t)),
        short_preview(SegmentView::Error(t)) == quoted_preview(trim(t)),
        short_preview(SegmentView::CollabEvent(t)) == t,
        short_preview(SegmentView::TodoUpdate(todos)) == "(todo update · "@ + decimal(todos.len())
            + " items)"@,
        seg is ContextCompacted ==> short_preview(seg) == "(context compaction)"@,
{
}

/// A message that is folded shows at most eighty characters of its first line,
/// and an ellipsis where that is not all of it.
pub proof fn law_folded_texts_show_their_first_line(t: Seq<char>)
    ensures
        ({
            let first = trim(first_line(t));
            &&& first.len() > 80 ==> text_preview(t) == first.subrange(0, 80) + "…"@
            &&& first.len() <= 80 && t.contains('\n') ==> text_preview(t) == first + "…"@
            &&& first.len() <= 80 && !t.contains('\n') ==> text_preview(t) == first
        }),
{
    let first = trim(first_line(t));
    if first.len() > 80 {
        assert(first.take(80) =~= first.subrange(0, 80));
    } else {
        assert(first + seq![] =~= first);
    }
}

/// An output that is folded shows at most eighty characters of its first line,
/// and an ellipsis where more than the end of that line is left out.
pub proof fn law_folded_outputs_show_their_first_line(t: Seq<char>)
    ensures
        ({
            let first = first_line(t);
            let shown = if first.len() > 80 {
                first.subrange(0, 80)
            } else {
                first
            };
            let more = byte_len(t) > byte_len(shown) + 1;
            &&& more ==> output_preview(t) == shown + "…"@
            &&& !more ==> output_preview(t) == shown
        }),
{
    let first = first_line(t);
    if first.len() > 80 {
        assert(first.take(80) =~= first.subrange(0, 80));
        assert(first.subrange(0, 80) + seq![] =~= first.subrange(0, 80));
    } else {
        assert(first + seq![] =~= first);
    }
}

/// A folded call shows the first two of its arguments, each by its name and at
/// most forty characters of its value; arguments that are no JSON object show
/// their first sixty characters.
pub proof fn law_folded_calls_show_two_arguments(
    ms: Seq<(Seq<char>, JsonMemberView)>,
    k: Seq<char>,
    s: Seq<char>,
    arguments: Seq<char>,
)
    ensures
        ({
            let entry = |p: (Seq<char>, JsonMemberView)| p.0 + "="@ + value_preview(p.1);
            &&& s.len() <= 40 ==> value_preview(JsonMemberView::Text(s)) == s
            &&& s.len() > 40 ==> value_preview(JsonMemberView::Text(s)) == s.subrange(0, 40)
            &&& s.len() <= 40 ==> value_preview(JsonMemberView::Other(s)) == s
            &&& s.len() > 40 ==> value_preview(JsonMemberView::Other(s)) == s.subrange(0, 40)
            &&& ms.len() == 0 ==> arguments_preview_of(Some(Some(ms)), arguments).len() == 0
            &&& ms.len() == 1 ==> arguments_preview_of(Some(Some(ms)), arguments) == entry(ms[0])
            &&& ms.len() >= 2 ==> arguments_preview_of(Some(Some(ms)), arguments) == entry(ms[0])
                + " "@ + entry(ms[1])
            &&& arguments.len() <= 60 ==> arguments_preview_of(None, arguments) == arguments
            &&& arguments.len() > 60 ==> arguments_preview_of(None, arguments)
                == arguments.subrange(0, 60)
            &&& arguments_preview_of(Some(None), arguments) == arguments_preview_of(
                None,
                arguments,
            )
        }),
{
    if s.len() > 40 {
        assert(s.take(40) =~= s.subrange(0, 40));
    }
    if arguments.len() > 60 {
        assert(arguments.take(60) =~= arguments.subrange(0, 60));
    }
    let entry = |p: (Seq<char>, JsonMemberView)| p.0 + "="@ + value_preview(p.1);
    let all = |p: (Seq<char>, JsonMemberView)| crate::chat::markdown::member_preview(p);
    reveal_with_fuel(join, 3);
    if ms.len() == 0 {
        assert(ms.take(0).map_values(all) =~= seq![]);
    } else if ms.len() == 1 {
        assert(ms.take(1).map_values(all) =~= seq![entry(ms[0])]);
    } else {
        let two = ms.take(2).map_values(all);
        assert(two =~= seq![entry(ms[0]), entry(ms[1])]);
        assert(two.drop_last() =~= seq![entry(ms[0])]);
    }
}

/// A folded segment is one line that begins like the whole one and says how to
/// see the rest; what has no shorter form is shown whole.
pub proof fn law_folded_segments_are_marked(
    t: Seq<char>,
    id: Seq<char>,
    f: FunctionCallView,
    seg: SegmentView,
    names: Map<Seq<char>, Seq<char>>,
)
    ensures
        ({
            let more = "` ▶ click to expand\n"@;
            let text = |role: Role|
                SegmentView::Message(MessageView { role, content: ContentView::Text(t) });
            let call = SegmentView::Message(
                MessageView {
                    role: Role::Assistant,
                    content: ContentView::ToolCall { tool_call_id: id, function: f },
                },
            );
            let result = SegmentView::Message(
                MessageView {
                    role: Role::Tool,
                    content: ContentView::ToolResult { tool_call_id: id, content: t },
                },
            );
            let name = if names.dom().contains(id) {
                names[id]
            } else {
                "tool"@
            };
            &&& collapsed_markdown(text(Role::User), names) == "\n**User:** `"@ + text_preview(t)
                + more
            &&& collapsed_markdown(text(Role::Assistant), names) == "\n**Agent:** `"@
                + text_preview(t) + more
            &&& collapsed_markdown(call, names) == "\n**Agent:tool_call:"@ + id
                + "**\n🔧 **Tool Call: "@ + f.name + "** `"@ + arguments_preview_of(
                json_members(f.arguments),
                f.arguments,
            ) + more
            &&& collapsed_markdown(result, names) == "\n**Tool:"@ + id + "**\n✅ **Tool Response: "@
                + name + "** `"@ + output_preview(t) + more
            &&& collapsed_markdown(SegmentView::Thinking { content: t }, names)
                == "\n**Agent:thinking**\n💭 **Thought** `"@ + output_preview(t) + more
            &&& !(seg is Message) && !(seg is Thinking) ==> collapsed_markdown(seg, names)
                == segment_markdown(seg, names)
        }),
{
}

// ── The clipboard ────────────────────────────────────────────────────────────

/// What is copied of a segment: a text or a thought as it stands, a call with
/// its arguments, a result with its output, an error; of anything else nothing.
pub proof fn law_segments_are_copied_as_they_read(
    role: Role,
    t: Seq<char>,
    id: Seq<char>,
    f: FunctionCallView,
    seg: SegmentView,
    names: Map<Seq<char>, Seq<char>>,
)
    ensures
        ({
            let shown = if json_pretty(f.arguments) is Some {
                json_pretty(f.arguments)->0
            } else {
                f.arguments
            };
            let name = if names.dom().contains(id) {
                names[id]
            } else {
                "tool"@
            };
            &&& segment_text(
                SegmentView::Message(MessageView { role, content: ContentView::Text(t) }),
                names,
            ) == t
            &&& segment_text(
                SegmentView::Message(
                    MessageView {
                        role,
                        content: ContentView::ToolCall { tool_call_id: id, function: f },
                    },
                ),
                names,
            ) == "Tool: "@ + f.name + "\n"@ + shown
            &&& segment_text(
                SegmentView::Message(
                    MessageView {
                        role,
                        content: ContentView::ToolResult { tool_call_id: id, content: t },
                    },
                ),
                names,
            ) == "Result: "@ + name + "\n"@ + t
            &&& segment_text(SegmentView::Thinking { content: t }, names) == t
            &&& segment_text(SegmentView::Error(t), names) == "Error: "@ + t
            &&& !(seg is Message) && !(seg is Thinking) && !(seg is Error) ==> segment_text(
                seg,
                names,
            ).len() == 0
        }),
{
}

/// The escape sequence of the clipboard holds the encoded text between its
/// beginning and its end.
pub proof fn law_clipboard_holds_the_text(encoded: Seq<char>)
    ensures
        clipboard_sequence(encoded) == "\x1b]52;c;"@ + encoded + "\x07"@,
{
}

proof fn lemma_until(s: Seq<char>, target: int)
    ensures
        chars_until(s, target) <= s.len(),
        chars_until(s, target) < s.len() ==> columns(s.take(chars_until(s, target) as int))
            >= target,
        chars_until(s, target) > 0 ==> columns(s.take(chars_until(s, target) as int - 1)) < target,
    decreases s.len(),
{
    if s.len() == 0 || target <= 0 {
        assert(s.take(0) =~= seq![]);
    } else {
        let rest = s.skip(1);
        lemma_until(rest, target - char_cols(s[0]));
        let k = chars_until(s, target) as int;
        if k < s.len() {
            lemma_columns_front(s, k);
        }
        if k == 1 {
            assert(s.take(0) =~= seq![]);
        } else {
            lemma_columns_front(s, k - 1);
        }
    }
}

/// What is between two columns begins with the first character at or behind the
/// one and ends before the first at or behind the other.
pub proof fn law_columns_bound_a_selection(text: Seq<char>, from: int, to: int)
    requires
        from <= to,
    ensures
        exists|a: int, b: int|
            0 <= a <= b <= text.len() && #[trigger] text.subrange(a, b) == between_columns(
                text,
                from,
                to,
            ) && (a < text.len() ==> columns(text.take(a)) >= from) && (a > 0 ==> columns(
                text.take(a - 1),
            ) < from) && (b < text.len() ==> columns(text.take(b)) >= to) && (b > 0 ==> columns(
                text.take(b - 1),
            ) < to),
{
    lemma_until(text, from);
    lemma_until(text, to);
    let a = chars_until(text, from) as int;
    let b = chars_until(text, to) as int;
    lemma_until_grows(text, from, to);
    assert(text.subrange(a, b) == between_columns(text, from, to));
}

proof fn lemma_until_grows(s: Seq<char>, from: int, to: int)
    requires
        from <= to,
    ensures
        chars_until(s, from) <= chars_until(s, to),
    decreases s.len(),
{
    if s.len() > 0 && from > 0 {
        lemma_until_grows(s.skip(1), from - char_cols(s[0]), to - char_cols(s[0]));
    }
}

/// The text of a line is that of its spans, one after the other.
pub proof fn law_lines_read_as_their_spans(line: Seq<SpanView>, s: SpanView)
    ensures
        line_text(seq![]) == Seq::<char>::empty(),
        line_text(line.push(s)) == line_text(line) + s.content,
{
    assert(line.push(s).drop_last() =~= line);
}

/// A selection within a line is what is between its columns, up to the end of
/// the line; one over two lines is the end of the first, all between, and the
/// beginning of the last.
pub proof fn law_selection_reads_as_drawn(all: Seq<Seq<SpanView>>, i: int, a: int, b: int)
    requires
        0 <= i < all.len(),
        0 <= a,
        0 <= b,
    ensures
        ({
            let text = line_text(all[i]);
            let width = text_width(text) as int;
            let end = if b < width {
                b
            } else {
                width
            };
            &&& selection_text(all, (i, a), (i, b)) == tidy(between_columns(text, a, end))
            &&& i + 1 < all.len() ==> {
                let next = line_text(all[i + 1]);
                let wide = text_width(next) as int;
                let stop = if b < wide {
                    b
                } else {
                    wide
                };
                selection_text(all, (i, a), (i + 1, b)) == tidy(
                    between_columns(text, a, width) + "\n"@ + between_columns(next, 0, stop),
                )
            }
        }),
{
    reveal_with_fuel(join, 3);
    let one = Seq::new(1, |k: int| selected_part(all, i + k, (i, a), (i, b)));
    assert(one.len() == 1);
    assert(one[0] == selected_part(all, i, (i, a), (i, b)));
    assert(join(one, "\n"@) == one[0]);
    if i + 1 < all.len() {
        let two = Seq::new(
            2,
            |k: int| selected_part(all, i + k, (i, a), (i + 1, b)),
        );
        assert(two.drop_last() =~= seq![two[0]]);
        assert(join(two.drop_last(), "\n"@) == two[0]);
        assert(join(two, "\n"@) == two[0] + "\n"@ + two[1]);
    }
}

/// What is selected is copied without the white space at the ends of its lines
/// and at its own end.
pub proof fn law_selections_are_tidied(a: Seq<char>, s: Seq<char>)
    requires
        a.len() > 0,
        !a.contains('\n'),
    ensures
        tidy(a) == trim_end(trim_end(a)),
        tidy(s) == trim_end(
            join(lines(s).map_values(|l: Seq<char>| trim_end(l)), seq!['\n']),
        ),
{
    reveal_strlit("\n");
    assert("\n"@ =~= seq!['\n']);
    crate::text_laws::law_lines_end_at_line_feeds(a, seq![]);
    assert(lines(a).map_values(|l: Seq<char>| trim_end(l)) =~= seq![trim_end(a)]);
}

/// A coloured text has its colour and nothing else, and a plain one has nothing.
pub proof fn law_colours_are_set_alone(c: Color)
    ensures
        colored(c).fg == Some(c),
        colored(c).bg is None,
        colored(c).modifiers == 0,
        plain_style().fg is None,
        plain_style().bg is None,
        plain_style().modifiers == 0,
{
}

// ── Calls and results ────────────────────────────────────────────────────────

/// A result belongs to the call right before it, and to that only if it answers
/// it.
pub proof fn law_results_follow_their_calls(
    segs: Seq<SegmentView>,
    i: int,
    role: Role,
    other: Role,
    id: Seq<char>,
    answered: Seq<char>,
    f: FunctionCallView,
    content: Seq<char>,
)
    requires
        0 <= i < segs.len() - 1,
        segs[i] == SegmentView::Message(
            (MessageView {
                role,
                content: ContentView::ToolCall { tool_call_id: id, function: f },
            }),
        ),
        segs[i + 1] == SegmentView::Message(
            (MessageView {
                role: other,
                content: ContentView::ToolResult { tool_call_id: answered, content },
            }),
        ),
    ensures
        is_paired(segs, i) <==> id == answered,
        !is_paired(segs, i + 1),
{
}

/// A result is that of a failed call if and only if it begins with the mark of
/// an error.
pub proof fn law_failures_are_marked(role: Role, id: Seq<char>, content: Seq<char>, t: Seq<char>)
    ensures
        ({
            let seg = SegmentView::Message(
                MessageView {
                    role,
                    content: ContentView::ToolResult { tool_call_id: id, content },
                },
            );
            let mark = seq!['e', 'r', 'r', 'o', 'r', ':'];
            &&& is_error_result(seg) <==> content.len() >= 6 && content.subrange(0, 6) == mark
            &&& !is_error_result(
                SegmentView::Message(MessageView { role, content: ContentView::Text(t) }),
            )
        }),
{
    reveal_strlit("error:");
    assert("error:"@ =~= seq!['e', 'r', 'r', 'o', 'r', ':']);
    if content.len() >= 6 {
        assert(content.take(6) =~= content.subrange(0, 6));
    }
}

/// The line of a call that is done says which tool it was, what for, whether it
/// went well and how long it took, as far as that is known.
pub proof fn law_done_calls_have_one_line(
    label: Seq<char>,
    summary: Seq<char>,
    tool: Seq<char>,
    status: Seq<char>,
    duration: Seq<char>,
    expand: Seq<char>,
)
    requires
        summary.len() > 0,
        duration.len() > 0,
    ensures
        grouped_preview(label, summary, tool, status, duration, expand) == "\n"@ + tool + "  "@
            + label + ("  "@ + summary) + "  "@ + status + ("  "@ + duration) + "  "@ + expand
            + "\n"@,
        grouped_preview(label, seq![], tool, status, seq![], expand) == "\n"@ + tool + "  "@
            + label + "  "@ + status + "  "@ + expand + "\n"@,
{
    let head = "\n"@ + tool + "  "@ + label;
    assert(head + seq![] =~= head);
    assert(head + "  "@ + status + seq![] =~= head + "  "@ + status);
}

proof fn lemma_last_solid(all: Seq<Seq<char>>, k: int)
    requires
        0 <= k < all.len(),
        trim(all[k]).len() > 0,
        forall|j: int| k < j < all.len() ==> trim(#[trigger] all[j]).len() == 0,
    ensures
        last_solid_line(all) == Some(trim(all[k])),
    decreases all.len(),
{
    if k < all.len() - 1 {
        assert(trim(all[all.len() - 1]).len() == 0);
        assert(all.drop_last()[k] == all[k]);
        assert forall|j: int| k < j < all.len() - 1 implies trim(#[trigger] all.drop_last()[j]).len()
            == 0 by {
            assert(all.drop_last()[j] == all[j]);
        }
        lemma_last_solid(all.drop_last(), k);
    }
}

/// The line of a running call ends with the last line of its output that is not
/// blank, shortened to fifty columns; without one it has none.
pub proof fn law_running_calls_show_their_last_line(c: Seq<char>, k: int)
    requires
        0 <= k < lines(c).len(),
        trim(lines(c)[k]).len() > 0,
        forall|j: int| k < j < lines(c).len() ==> trim(#[trigger] lines(c)[j]).len() == 0,
    ensures
        progress_part(Some(c)) == "  `"@ + shortened(trim(lines(c)[k]), 50) + "`"@,
        progress_part(None) == Seq::<char>::empty(),
{
    lemma_last_solid(lines(c), k);
}

/// The line of a running call says which tool it is, what for, what it put out
/// last and how long it has run.
pub proof fn law_running_calls_have_one_line(
    tool: Seq<char>,
    label: Seq<char>,
    summary: Seq<char>,
    content: Option<Seq<char>>,
    scan: Seq<char>,
    elapsed: Seq<char>,
)
    requires
        summary.len() > 0,
    ensures
        running_preview(tool, label, summary, content, scan, elapsed) == "\n"@ + tool + "  "@
            + label + ("  "@ + summary) + progress_part(content) + "  "@ + scan + "  "@ + elapsed
            + "s\n"@,
{
}

/// Below a running call stand the last lines of its output, as many as fit; a
/// first line with the state of the output stands in the heading.
pub proof fn law_streamed_output_shows_its_end(
    header: Seq<char>,
    content: Seq<char>,
    max: nat,
)
    requires
        max > 0,
    ensures
        ({
            let all = lines(content);
            let state = seq!['l', 'i', 'n', 'e', 's', ':'];
            let stated = all.len() > 0 && all[0].len() >= 6 && all[0].subrange(0, 6) == state;
            let n = all.len() as int;
            let first: int = if stated {
                1
            } else {
                0
            };
            let from: int = if n - first > max {
                n - max
            } else {
                first
            };
            let r = streaming_text(header, content, max);
            &&& n == first ==> r == header + "\n\n**▶ Streaming output"@ + (if stated {
                " — "@ + all[0]
            } else {
                Seq::<char>::empty()
            }) + "** *(no output yet)*"@
            &&& n > first ==> r == header + "\n\n**▶ Streaming output"@ + (if stated {
                " — "@ + all[0]
            } else {
                Seq::<char>::empty()
            }) + "**\n```\n"@ + join(all.subrange(from, n), "\n"@) + "\n```"@
        }),
{
    reveal_strlit("lines:");
    assert("lines:"@ =~= seq!['l', 'i', 'n', 'e', 's', ':']);
    let all = lines(content);
    if all.len() > 0 && all[0].len() >= 6 {
        assert(all[0].take(6) =~= all[0].subrange(0, 6));
    }
    let n = all.len() as int;
    if n > 0 {
        assert(all.skip(1) =~= all.subrange(1, n));
        if n - 1 > max {
            assert(all.skip(1).skip(n - 1 - max) =~= all.subrange(n - max, n));
        }
    }
    assert(all =~= all.subrange(0, n));
    if n > max {
        assert(all.skip(n - max) =~= all.subrange(n - max, n));
    }
}

/// Of a partly shown segment stand the first lines, and an ellipsis where there
/// are more.
pub proof fn law_partly_shown_is_the_beginning(s: Seq<char>, max: nat)
    ensures
        lines(s).len() <= max ==> partial_text(s, max) == s,
        lines(s).len() > max ==> partial_text(s, max) == join(
            lines(s).subrange(0, max as int),
            "\n"@,
        ) + "\n…"@,
{
    if lines(s).len() > max {
        assert(lines(s).take(max as int) =~= lines(s).subrange(0, max as int));
    }
}

/// A call is drawn on one line while it is folded, with its result where it has
/// one, and with its arguments and its result below it otherwise. A result on
/// its own is drawn with its output while it is not folded.
pub proof fn law_calls_are_drawn_by_level(
    id: Seq<char>,
    f: FunctionCallView,
    content: Seq<char>,
    t: Seq<char>,
    role: Role,
    expand: u8,
    names: Map<Seq<char>, Seq<char>>,
)
    ensures
        ({
            let call = SegmentView::Message(
                MessageView {
                    role: Role::Assistant,
                    content: ContentView::ToolCall { tool_call_id: id, function: f },
                },
            );
            let result = SegmentView::Message(
                MessageView {
                    role: Role::Tool,
                    content: ContentView::ToolResult { tool_call_id: id, content },
                },
            );
            let name = if names.dom().contains(id) {
                names[id]
            } else {
                "tool"@
            };
            let failed = is_error_result(result);
            &&& rich_plan(call, None, 0, names) == RichPlanView::CollapsedCall
            &&& rich_plan(call, Some(result), 0, names) == RichPlanView::GroupedCall(failed)
            &&& expand > 0 ==> rich_plan(call, None, expand, names) == RichPlanView::ExpandedCall(
                None,
            )
            &&& expand > 0 ==> rich_plan(call, Some(result), expand, names)
                == RichPlanView::ExpandedCall(
                Some(
                    ResultPlanView {
                        tool_name: name,
                        is_error: failed,
                        label: None,
                        with_body: true,
                    },
                ),
            )
            &&& rich_plan(result, None, expand, names) == RichPlanView::Result(
                ResultPlanView {
                    tool_name: name,
                    is_error: failed,
                    label: Some("Tool Result: "@ + name),
                    with_body: expand > 0,
                },
            )
            &&& rich_plan(
                SegmentView::Message(MessageView { role, content: ContentView::Text(t) }),
                None,
                expand,
                names,
            ) == RichPlanView::Markdown
            &&& rich_plan(SegmentView::Thinking { content: t }, None, expand, names)
                == RichPlanView::Markdown
        }),
{
}

/// Every line of a call and of its result stands behind the bar. A folded one is
/// one line, with a sign at its end whether the call went well.
pub proof fn law_calls_stand_behind_the_bar(
    faces: ToolFacesView,
    bar: Seq<char>,
    theme: ToolTheme,
    failed: bool,
    i: int,
)
    ensures
        ({
            let b = SpanView { content: bar, style: colored(theme.bar) };
            let folded = rich_lines(RichPlanView::CollapsedCall, faces, bar, theme);
            let grouped = rich_lines(RichPlanView::GroupedCall(failed), faces, bar, theme);
            let open = rich_lines(RichPlanView::ExpandedCall(None), faces, bar, theme);
            let mark = SpanView { content: "  ▶"@, style: plain_style() };
            &&& folded is Some && folded->0 == seq![
                seq![b] + faces.call_spans + seq![mark],
            ]
            &&& grouped is Some && grouped->0.len() == 1
            &&& grouped->0[0].len() == faces.call_spans.len() + 4
            &&& grouped->0[0].subrange(0, faces.call_spans.len() as int + 1) == seq![b]
                + faces.call_spans
            &&& grouped->0[0][faces.call_spans.len() as int + 1].content == if failed {
                " ✗"@
            } else {
                " ✓"@
            }
            &&& grouped->0[0][faces.call_spans.len() as int + 1].style.fg == Some(
                if failed {
                    theme.error
                } else {
                    Color::Rgb(80, 200, 120)
                },
            )
            &&& faces.duration.len() > 0 ==> grouped->0[0][faces.call_spans.len() as int
                + 2].content == seq![' ', ' '] + faces.duration
            &&& faces.duration.len() == 0 ==> grouped->0[0][faces.call_spans.len() as int
                + 2].content.len() == 0
            &&& grouped->0[0].last() == mark
            &&& open is Some && open->0.len() == faces.call_lines.len() + 1
            &&& open->0[0].len() == 3 && open->0[0][0] == b && open->0[0][1].content
                == faces.icon + seq![' '] && open->0[0][2].content == faces.display_name
            &&& faces.category == "shell"@ ==> open->0[0][1].style.fg == Some(
                Color::Rgb(120, 220, 130),
            ) && open->0[0][2].style.fg == Some(Color::Rgb(120, 220, 130))
            &&& 0 <= i < faces.call_lines.len() ==> open->0[i + 1] == seq![b]
                + faces.call_lines[i]
            &&& rich_lines(RichPlanView::Markdown, faces, bar, theme) is None
        }),
{
    reveal_strlit("  ");
    reveal_strlit(" ");
    reveal_strlit("file");
    reveal_strlit("shell");
    assert("  "@ =~= seq![' ', ' ']);
    assert(" "@ =~= seq![' ']);
    assert("shell"@ != "file"@) by {
        assert("shell"@.len() != "file"@.len());
    }
    let b = SpanView { content: bar, style: colored(theme.bar) };
    let grouped = rich_lines(RichPlanView::GroupedCall(failed), faces, bar, theme)->0[0];
    assert(grouped.subrange(0, faces.call_spans.len() as int + 1) =~= seq![b] + faces.call_spans);
}

/// The result of an open call is drawn below the call: its header, and its output
/// where that is asked for.
pub proof fn law_result_stands_below_its_call(
    faces: ToolFacesView,
    bar: Seq<char>,
    theme: ToolTheme,
    plan: ResultPlanView,
    i: int,
)
    ensures
        ({
            let b = SpanView { content: bar, style: colored(theme.bar) };
            let call = rich_lines(RichPlanView::ExpandedCall(None), faces, bar, theme)->0;
            let both = rich_lines(RichPlanView::ExpandedCall(Some(plan)), faces, bar, theme);
            let n = call.len() as int;
            &&& both is Some
            &&& both->0.len() == n + (if plan.with_body && faces.result_lines.len() > 0 {
                faces.result_lines.len()
            } else {
                1
            })
            &&& both->0.subrange(0, n) == call
            &&& both->0[n] == seq![b] + faces.result_spans
            &&& plan.with_body && 0 < i < faces.result_lines.len() ==> both->0[n + i] == seq![b]
                + faces.result_lines[i]
        }),
{
    let call = rich_lines(RichPlanView::ExpandedCall(None), faces, bar, theme)->0;
    let both = rich_lines(RichPlanView::ExpandedCall(Some(plan)), faces, bar, theme)->0;
    assert(both.subrange(0, call.len() as int) =~= call);
    if 0 < i < faces.result_lines.len() {
        assert(faces.result_lines.skip(1)[i - 1] == faces.result_lines[i]);
    }
}

/// A result is drawn as its header and, where it is asked for, its output, all
/// behind the bar; the header of the output itself is left out.
pub proof fn law_results_stand_behind_the_bar(
    faces: ToolFacesView,
    bar: Seq<char>,
    theme: ToolTheme,
    plan: ResultPlanView,
    i: int,
)
    ensures
        ({
            let b = SpanView { content: bar, style: colored(theme.bar) };
            let r = rich_lines(RichPlanView::Result(plan), faces, bar, theme);
            &&& r is Some
            &&& plan.with_body ==> r->0.len() == (if faces.result_lines.len() == 0 {
                1
            } else {
                faces.result_lines.len()
            }) && r->0[0] == seq![b] + faces.result_spans
            &&& plan.with_body && 0 < i < faces.result_lines.len() ==> r->0[i] == seq![b]
                + faces.result_lines[i]
            &&& !plan.with_body ==> r->0.len() == 1 && r->0[0] == seq![b] + faces.result_spans
                + seq![SpanView { content: "  ▶"@, style: plain_style() }]
        }),
{
    if 0 < i < faces.result_lines.len() {
        assert(faces.result_lines.skip(1)[i - 1] == faces.result_lines[i]);
    }
}

/// Each kind of tool has its own colour; an unknown one has that of the bar.
pub proof fn law_kinds_of_tools_have_colours(category: Seq<char>, bar: Color)
    ensures
        accent("file"@, bar) == Color::Rgb(100, 180, 255),
        category != "file"@ && category != "shell"@ && category != "search"@ && category != "web"@
            && category != "system"@ && category != "agent"@ ==> accent(category, bar) == bar,
        category == "shell"@ && category != "file"@ ==> accent(category, bar) == Color::Rgb(
            120,
            220,
            130,
        ),
{
}

// ── Bars ─────────────────────────────────────────────────────────────────────

/// The bar beside a segment tells who speaks: green is the user, blue the
/// assistant, yellow a tool, magenta a thought and red an error.
pub proof fn law_bars_tell_who_speaks(
    t: Seq<char>,
    id: Seq<char>,
    f: FunctionCallView,
    seg: SegmentView,
)
    ensures
        bar_color(
            SegmentView::Message(MessageView { role: Role::User, content: ContentView::Text(t) }),
        ) == Some(Color::Green),
        bar_color(
            SegmentView::Message(
                MessageView { role: Role::Assistant, content: ContentView::Text(t) },
            ),
        ) == Some(Color::Blue),
        bar_color(
            SegmentView::Message(
                MessageView {
                    role: Role::Assistant,
                    content: ContentView::ToolCall { tool_call_id: id, function: f },
                },
            ),
        ) == Some(Color::Yellow),
        bar_color(
            SegmentView::Message(
                MessageView {
                    role: Role::Tool,
                    content: ContentView::ToolResult { tool_call_id: id, content: t },
                },
            ),
        ) == Some(Color::Yellow),
        bar_color(SegmentView::Thinking { content: t }) == Some(Color::Magenta),
        bar_color(SegmentView::Error(t)) == Some(Color::Red),
        !(seg is Message) && !(seg is Thinking) && !(seg is Error) ==> bar_color(seg) is None,
{
}

/// A bar comes before the line and leaves it as it is; without a bar and without
/// dimming the line is unchanged.
pub proof fn law_bars_come_first(line: Seq<SpanView>, style: Style, bar: Seq<char>)
    ensures
        barred(line, Some(style), false, bar) == seq![SpanView { content: bar, style }] + line,
        barred(line, None, false, bar) == line,
        barred(line, None, true, bar).len() == line.len(),
        forall|i: int|
            0 <= i < line.len() ==> (#[trigger] barred(line, None, true, bar)[i]).content
                == line[i].content,
        barred(line, Some(style), true, bar)[0] == (SpanView { content: bar, style }),
{
    assert(barred(line, Some(style), false, bar) =~= seq![SpanView { content: bar, style }] + line);
    assert(barred(line, None, false, bar) =~= line);
}

// ── What can be done ─────────────────────────────────────────────────────────

/// Texts of the user and of the assistant can be edited, messages and thoughts
/// can be removed, and what the assistant or a tool said can be run again.
pub proof fn law_segments_allow(role: Role, content: ContentView, seg: SegmentView)
    ensures
        ({
            let m = SegmentView::Message(MessageView { role, content });
            &&& editable_text(m) is Some <==> content is Text && (role is User || role is Assistant)
            &&& content matches ContentView::Text(t) ==> (editable_text(m) is Some
                ==> editable_text(m) == Some(t))
            &&& removable(seg) <==> seg is Message || seg is Thinking
            &&& rerunnable(m) <==> role is Assistant || role is Tool
            &&& !(seg is Message) ==> !rerunnable(seg) && editable_text(seg) is None
        }),
{
}

// ── Reading ──────────────────────────────────────────────────────────────────

proof fn lemma_stop(all: Seq<Seq<char>>, i: int)
    requires
        0 <= i <= all.len(),
    ensures
        i <= text_stop(all, i) <= all.len(),
        forall|k: int| i <= k < text_stop(all, i) ==> !is_header(trim(#[trigger] all[k])),
        text_stop(all, i) < all.len() ==> is_header(trim(all[text_stop(all, i)])),
        i <= fence_at(all, i) <= all.len(),
        forall|k: int| i <= k < fence_at(all, i) ==> !is_fence(#[trigger] all[k]),
        fence_at(all, i) < all.len() ==> is_fence(all[fence_at(all, i)]),
    decreases all.len() - i,
{
    if i < all.len() {
        lemma_stop(all, i + 1);
    }
}

/// A header is a line between turns or one that names who speaks; a fence is a
/// line that begins with three backticks.
pub proof fn law_headers_name_who_speaks(line: Seq<char>, rest: Seq<char>)
    ensures
        is_header("---"@),
        is_header("**You:"@ + rest),
        is_header("**Agent:"@ + rest),
        is_header("**Tool:"@ + rest),
        is_header("**System:"@ + rest),
        line.len() > 0 && line[0] != '*' && line[0] != '-' ==> !is_header(line),
        trim(line).len() < 3 ==> !is_fence(line),
        trim(line) == "```"@ + rest ==> is_fence(line),
        trim(line).len() > 0 && trim(line)[0] != '`' ==> !is_fence(line),
{
    lemma_prefix_of_concat("**You:"@, rest);
    lemma_prefix_of_concat("**Agent:"@, rest);
    lemma_prefix_of_concat("**Tool:"@, rest);
    lemma_prefix_of_concat("**System:"@, rest);
    lemma_prefix_of_concat("```"@, rest);
    reveal_strlit("---");
    reveal_strlit("**You:");
    reveal_strlit("**Agent:");
    reveal_strlit("**Tool:");
    reveal_strlit("**System:");
    reveal_strlit("```");
    if line.len() >= 6 {
        assert(line.take(6)[0] == line[0]);
    }
    if line.len() >= 8 {
        assert(line.take(8)[0] == line[0]);
    }
    if line.len() >= 7 {
        assert(line.take(7)[0] == line[0]);
    }
    if line.len() >= 9 {
        assert(line.take(9)[0] == line[0]);
    }
    if trim(line).len() >= 3 {
        assert(trim(line).take(3)[0] == trim(line)[0]);
    }
}

/// A text goes up to the next header, and a block of code up to the next fence;
/// one that is not closed is an error.
pub proof fn law_texts_end_at_the_next_header(all: Seq<Seq<char>>, i: int, close: int)
    requires
        0 <= i < close < all.len(),
        is_fence(all[i]),
        is_fence(all[close]),
        forall|k: int| i < k < close ==> !is_fence(#[trigger] all[k]),
    ensures
        block_at(all, i) == Ok::<(Seq<char>, int), Seq<char>>(
            (join(all.subrange(i + 1, close), "\n"@), close + 1),
        ),
        i + 1 <= text_stop(all, i + 1) <= all.len(),
        forall|k: int| i + 1 <= k < text_stop(all, i + 1) ==> !is_header(trim(#[trigger] all[k])),
        text_stop(all, i + 1) < all.len() ==> is_header(trim(all[text_stop(all, i + 1)])),
{
    lemma_stop(all, i + 1);
    let f = fence_at(all, i + 1);
    if f < close {
        assert(!is_fence(all[f]));
    } else if f > close {
        assert(!is_fence(all[close]));
    }
}

/// A block that is not closed, or a line that opens none, gives an error.
pub proof fn law_open_blocks_are_errors(all: Seq<Seq<char>>, i: int)
    requires
        0 <= i <= all.len(),
        i < all.len() ==> !is_fence(all[i]) || forall|k: int|
            i < k < all.len() ==> !is_fence(#[trigger] all[k]),
    ensures
        block_at(all, i) is Err,
{
    if i < all.len() {
        lemma_stop(all, i + 1);
    }
}

} // verus!
