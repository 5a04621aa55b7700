//! Short forms of segments: previews, clipboard text and selections.

use vstd::prelude::*;
use vstd::hash_map::StringHashMap;
use crate::chat::markdown::{
    delegate_line, format_delegate_line, lookup_tool_name, shown_arguments, show_arguments,
    tool_name,
};
use crate::chat::segment::{ChatSegment, ContentView, MessageContent, SegmentView};
use crate::input_wrap::{char_cols, chars_until, columns_of, lemma_chars_until_past};
use crate::style::{line_views, Line, SpanView};
use crate::text::{
    chars_of, decimal, first_line, first_line_of, join, join_strings, lines, lines_of, push_decimal,
    string_of, text_map, trim, trim_end, trim_end_str, trim_str, views,
};

verus! {

// ── Display width ────────────────────────────────────────────────────────────

/// What `UnicodeWidthStr::width` returns for a text.
pub uninterp spec fn text_width(s: Seq<char>) -> usize;

/// `unicode_width::UnicodeWidthStr::width`: the columns that a text takes up; a
/// function of the text alone.
#[verifier::external_body]
pub(crate) fn display_width(s: &str) -> (r: usize)
    ensures
        r == text_width(s@),
{
    unicode_width::UnicodeWidthStr::width(s)
}

/// How many characters of a text fit into `max` columns.
pub open spec fn fitting(s: Seq<char>, max: int) -> nat
    decreases s.len(),
{
    if s.len() == 0 || char_cols(s[0]) > max {
        0
    } else {
        1 + fitting(s.skip(1), max - char_cols(s[0]))
    }
}

/// The longest beginning of a text that fits into `max` columns.
pub fn truncate_to_width_exact(s: &str, max: usize) -> (r: String)
    ensures
        r@ == s@.take(fitting(s@, max as int) as int),
{
    let chars = chars_of(s);
    let n: usize = chars.len();
    let mut i: usize = 0;
    let mut left: usize = max;
    assert(s@.skip(0) =~= s@);
    while i < n
        invariant
            chars@ == s@,
            i <= n == chars@.len(),
            fitting(s@, max as int) == i + fitting(s@.skip(i as int), left as int),
        decreases n - i,
    {
        let w: usize = columns_of(chars[i]);
        assert(s@.skip(i as int)[0] == chars@[i as int]);
        assert(s@.skip(i as int).skip(1) =~= s@.skip(i + 1));
        if w > left {
            let r = string_of(&chars, 0, i);
            assert(r@ =~= s@.take(i as int));
            return r;
        }
        left -= w;
        i += 1;
    }
    assert(s@.skip(n as int).len() == 0);
    let r = string_of(&chars, 0, n);
    assert(r@ =~= s@.take(n as int));
    r
}

/// A text in at most `max` columns, by its own width: what was cut off is
/// replaced by an ellipsis.
pub open spec fn shortened(s: Seq<char>, max: nat) -> Seq<char> {
    if text_width(s) <= max {
        s
    } else {
        s.take(fitting(s, max - 1) as int) + "…"@
    }
}

/// Shortens a text to `max` columns.
pub fn truncate_to_width(s: &str, max: usize) -> (r: String)
    requires
        max > 0,
    ensures
        r@ == shortened(s@, max as nat),
{
    if display_width(s) <= max {
        return s.to_owned();
    }
    let mut out = truncate_to_width_exact(s, max - 1);
    out.append("…");
    out
}

// ── Short previews ───────────────────────────────────────────────────────────

/// The widest preview in dialogs, in columns.
pub const PREVIEW_WIDTH: usize = 60;

/// A quoted preview of a text's first line, which takes up `width` columns.
pub open spec fn quoted_line(line: Seq<char>, width: nat) -> Seq<char> {
    if width > PREVIEW_WIDTH {
        "\""@ + line.take(fitting(line, PREVIEW_WIDTH as int) as int) + "…\""@
    } else {
        "\""@ + line + "\""@
    }
}

/// A quoted preview of a text.
pub open spec fn quoted_preview(raw: Seq<char>) -> Seq<char> {
    let line = trim(first_line(raw));
    quoted_line(line, text_width(line) as nat)
}

/// A short preview of a segment on one line.
pub open spec fn short_preview(seg: SegmentView) -> Seq<char> {
    match seg {
        SegmentView::Message(m) => quoted_preview(
            match m.content {
                ContentView::Text(t) => trim(t),
                ContentView::ToolCall { function, .. } => "tool call: "@ + function.name,
                ContentView::ToolResult { content, .. } => content,
                ContentView::ContentParts(_) => "(multipart message)"@,
            },
        ),
        SegmentView::Thinking { content } => quoted_preview(trim(content)),
        SegmentView::ContextCompacted { .. } => "(context compaction)"@,
        SegmentView::Error(e) => quoted_preview(trim(e)),
        SegmentView::TodoUpdate(todos) => "(todo update · "@ + decimal(todos.len()) + " items)"@,
        SegmentView::CollabEvent(line) => line,
        SegmentView::DelegateSummary { to_name, task_title, status, .. } => delegate_line(
            to_name,
            task_title,
            status,
        ),
    }
}

/// Quotes a line, given its width in columns.
pub fn quote_line(line: &str, width: usize) -> (r: String)
    ensures
        r@ == quoted_line(line@, width as nat),
{
    let mut out = "\"".to_owned();
    if width > PREVIEW_WIDTH {
        let short = truncate_to_width_exact(line, PREVIEW_WIDTH);
        out.append(short.as_str());
        out.append("…\"");
    } else {
        out.append(line);
        out.append("\"");
    }
    out
}

fn quote_preview(raw: &str) -> (r: String)
    ensures
        r@ == quoted_preview(raw@),
{
    let first = first_line_of(raw);
    let line = trim_str(first.as_str());
    quote_line(line, display_width(line))
}

/// A short preview of a segment for dialogs and labels.
pub fn segment_short_preview(seg: Option<&ChatSegment>) -> (r: String)
    ensures
        r@ == (match seg {
            None => "(unknown)"@,
            Some(s) => short_preview(s@),
        }),
{
    match seg {
        None => "(unknown)".to_owned(),
        Some(ChatSegment::Message(m)) => match &m.content {
            MessageContent::Text(t) => quote_preview(trim_str(t.as_str())),
            MessageContent::ToolCall { function, .. } => {
                let mut raw = "tool call: ".to_owned();
                raw.append(function.name.as_str());
                quote_preview(raw.as_str())
            },
            MessageContent::ToolResult { content, .. } => quote_preview(content.as_str()),
            MessageContent::ContentParts(_) => quote_preview("(multipart message)"),
        },
        Some(ChatSegment::Thinking { content }) => quote_preview(trim_str(content.as_str())),
        Some(ChatSegment::ContextCompacted { .. }) => "(context compaction)".to_owned(),
        Some(ChatSegment::Error(e)) => quote_preview(trim_str(e.as_str())),
        Some(ChatSegment::TodoUpdate(todos)) => {
            let mut out = "(todo update · ".to_owned();
            push_decimal(&mut out, todos.len() as u64);
            out.append(" items)");
            out
        },
        Some(ChatSegment::CollabEvent(line)) => line.clone(),
        Some(ChatSegment::DelegateSummary { to_name, task_title, status, .. }) => {
            format_delegate_line(to_name.as_str(), task_title.as_str(), status.as_str())
        },
    }
}

// ── Clipboard text ───────────────────────────────────────────────────────────

/// The text of a segment for the clipboard; empty where it has none.
pub open spec fn segment_text(seg: SegmentView, names: Map<Seq<char>, Seq<char>>) -> Seq<char> {
    match seg {
        SegmentView::Message(m) => match m.content {
            ContentView::Text(t) => t,
            ContentView::ToolCall { function, .. } => {
                "Tool: "@ + function.name + "\n"@ + shown_arguments(function.arguments)
            },
            ContentView::ToolResult { tool_call_id, content } => {
                "Result: "@ + tool_name(names, tool_call_id) + "\n"@ + content
            },
            _ => seq![],
        },
        SegmentView::Thinking { content } => content,
        SegmentView::Error(msg) => "Error: "@ + msg,
        _ => seq![],
    }
}

/// Takes the text of a segment for the clipboard.
pub fn extract_segment_text(seg: &ChatSegment, tool_args: &StringHashMap<String>) -> (r: String)
    ensures
        r@ == segment_text(seg@, text_map(tool_args@)),
{
    let mut out = String::new();
    match seg {
        ChatSegment::Message(m) => match &m.content {
            MessageContent::Text(t) => {
                return t.clone();
            },
            MessageContent::ToolCall { function, .. } => {
                let pretty = show_arguments(&function.arguments);
                out.append("Tool: ");
                out.append(function.name.as_str());
                out.append("\n");
                out.append(pretty.as_str());
            },
            MessageContent::ToolResult { tool_call_id, content } => {
                let name = lookup_tool_name(tool_args, tool_call_id.as_str());
                out.append("Result: ");
                out.append(name);
                out.append("\n");
                out.append(content.as_str());
            },
            _ => {},
        },
        ChatSegment::Thinking { content } => {
            return content.clone();
        },
        ChatSegment::Error(msg) => {
            out.append("Error: ");
            out.append(msg.as_str());
        },
        _ => {},
    }
    out
}

/// What the standard Base64 engine writes for a text in UTF-8.
pub uninterp spec fn base64_text(s: Seq<char>) -> Seq<char>;

/// `base64::Engine::encode` with `base64::engine::general_purpose::STANDARD`:
/// the Base64 form of a text's bytes, a function of the text alone.
#[verifier::external_body]
fn encode_base64(s: &str) -> (r: String)
    ensures
        r@ == base64_text(s@),
{
    base64::Engine::encode(&base64::engine::general_purpose::STANDARD, s)
}

/// The escape sequence that puts an encoded text on the clipboard.
pub open spec fn clipboard_sequence(encoded: Seq<char>) -> Seq<char> {
    "\x1b]52;c;"@ + encoded + "\x07"@
}

/// Frames an encoded text as a clipboard sequence.
pub fn frame_clipboard(encoded: &str) -> (r: String)
    ensures
        r@ == clipboard_sequence(encoded@),
{
    let mut out = "\x1b]52;c;".to_owned();
    out.append(encoded);
    out.append("\x07");
    out
}

/// The escape sequence that puts a text on the clipboard of the terminal.
pub fn osc52_copy(text: &str) -> (r: String)
    ensures
        r@ == clipboard_sequence(base64_text(text@)),
{
    let encoded = encode_base64(text);
    frame_clipboard(encoded.as_str())
}

// ── Selections ───────────────────────────────────────────────────────────────

/// The text of a rendered line.
pub open spec fn line_text(line: Seq<SpanView>) -> Seq<char>
    decreases line.len(),
{
    if line.len() == 0 {
        seq![]
    } else {
        line_text(line.drop_last()) + line.last().content
    }
}

fn text_of_line(line: &Line) -> (r: String)
    ensures
        r@ == line_text(line@),
{
    let mut out = String::new();
    let mut i: usize = 0;
    assert(line@.take(0) =~= seq![]);
    while i < line.spans.len()
        invariant
            i <= line.spans@.len(),
            out@ == line_text(line@.take(i as int)),
        decreases line.spans.len() - i,
    {
        out.append(line.spans[i].content.as_str());
        i += 1;
        assert(line@.take(i as int).drop_last() =~= line@.take(i - 1));
        assert(line@.take(i as int).last() == line.spans@[i - 1]@);
    }
    assert(line@.take(line.spans@.len() as int) =~= line@);
    out
}

/// The part of a line between two columns.
pub open spec fn between_columns(text: Seq<char>, from: int, to: int) -> Seq<char> {
    let a = chars_until(text, from) as int;
    let b = chars_until(text, to) as int;
    if a <= b {
        text.subrange(a, b)
    } else {
        seq![]
    }
}

/// The selected part of line `k`.
pub open spec fn selected_part(
    all: Seq<Seq<SpanView>>,
    k: int,
    start: (int, int),
    end: (int, int),
) -> Seq<char> {
    let text = line_text(all[k]);
    let width = text_width(text) as int;
    let from = if k == start.0 {
        start.1
    } else {
        0
    };
    let to = if k == end.0 && end.1 < width {
        end.1
    } else {
        width
    };
    between_columns(text, from, to)
}

/// A text with the white space at the ends of its lines taken off, and at its
/// own end.
pub open spec fn tidy(s: Seq<char>) -> Seq<char> {
    trim_end(join(lines(s).map_values(|l: Seq<char>| trim_end(l)), "\n"@))
}

/// The text of a selection from one line and column to another.
pub open spec fn selection_text(
    all: Seq<Seq<SpanView>>,
    start: (int, int),
    end: (int, int),
) -> Seq<char> {
    let last = if end.0 < all.len() - 1 {
        end.0
    } else {
        all.len() - 1
    };
    if all.len() == 0 {
        seq![]
    } else {
        tidy(
            join(
                Seq::new(
                    (if start.0 <= last {
                        last - start.0 + 1
                    } else {
                        0
                    }) as nat,
                    |i: int| selected_part(all, start.0 + i, start, end),
                ),
                "\n"@,
            ),
        )
    }
}

/// Counts the characters up to a column.
fn count_until(chars: &Vec<char>, target: usize) -> (r: usize)
    ensures
        r == chars_until(chars@, target as int),
        r <= chars@.len(),
{
    let n: usize = chars.len();
    let mut i: usize = 0;
    let mut left: usize = target;
    assert(chars@.skip(0) =~= chars@);
    while i < n && left > 0
        invariant
            i <= n == chars@.len(),
            chars_until(chars@, target as int) == i + chars_until(
                chars@.skip(i as int),
                left as int,
            ),
        decreases n - i,
    {
        let w: usize = columns_of(chars[i]);
        assert(chars@.skip(i as int)[0] == chars@[i as int]);
        assert(chars@.skip(i as int).skip(1) =~= chars@.skip(i + 1));
        proof {
            lemma_chars_until_past(chars@.skip(i + 1), left - char_cols(chars@[i as int]));
        }
        left = left.saturating_sub(w);
        i += 1;
    }
    i
}

fn tidy_text(s: &str) -> (r: String)
    ensures
        r@ == tidy(s@),
{
    let parts = lines_of(s);
    let ghost f = |l: Seq<char>| trim_end(l);
    let mut out: Vec<String> = Vec::new();
    let mut i: usize = 0;
    while i < parts.len()
        invariant
            i <= parts@.len(),
            out@.len() == i,
            forall|k: int| 0 <= k < i ==> (#[trigger] out@[k])@ == trim_end(parts@[k]@),
        decreases parts.len() - i,
    {
        out.push(trim_end_str(parts[i].as_str()).to_owned());
        i += 1;
    }
    assert(views(out@) =~= views(parts@).map_values(f));
    let joined = join_strings(&out, "\n");
    trim_end_str(joined.as_str()).to_owned()
}

/// Takes the visible text of a selection. Columns are display columns.
pub fn extract_selection_text(
    all: &Vec<Line>,
    start_line: usize,
    start_col: u16,
    end_line: usize,
    end_col: u16,
) -> (r: String)
    ensures
        r@ == selection_text(
            line_views(all@),
            (start_line as int, start_col as int),
            (end_line as int, end_col as int),
        ),
{
    let n: usize = all.len();
    let ghost lv = line_views(all@);
    let ghost start = (start_line as int, start_col as int);
    let ghost end = (end_line as int, end_col as int);
    if n == 0 {
        let r = String::new();
        assert(r@ =~= seq![]);
        return r;
    }
    let last: usize = if end_line < n - 1 {
        end_line
    } else {
        n - 1
    };
    let ghost f = |i: int| selected_part(lv, start.0 + i, start, end);
    let mut parts: Vec<String> = Vec::new();
    let count: usize = if start_line <= last {
        last - start_line + 1
    } else {
        0
    };
    let mut i: usize = 0;
    while i < count
        invariant
            lv == line_views(all@),
            n == all@.len(),
            start == (start_line as int, start_col as int),
            end == (end_line as int, end_col as int),
            i <= count,
            count > 0 ==> start_line + count <= n,
            parts@.len() == i,
            forall|j: int|
                0 <= j < i ==> (#[trigger] parts@[j])@ == selected_part(
                    lv,
                    start.0 + j,
                    start,
                    end,
                ),
        decreases count - i,
    {
        let k: usize = start_line + i;
        let text = text_of_line(&all[k]);
        assert(lv[k as int] == all@[k as int]@);
        let width: usize = display_width(text.as_str());
        let from: usize = if k == start_line {
            start_col as usize
        } else {
            0
        };
        let to: usize = if k == end_line && (end_col as usize) < width {
            end_col as usize
        } else {
            width
        };
        let chars = chars_of(text.as_str());
        let a: usize = count_until(&chars, from);
        let b: usize = count_until(&chars, to);
        let part = if a <= b {
            string_of(&chars, a, b)
        } else {
            String::new()
        };
        assert(part@ =~= between_columns(text@, from as int, to as int));
        parts.push(part);
        i += 1;
    }
    assert(views(parts@) =~= Seq::new(
        (if start.0 <= last {
            last - start.0 + 1
        } else {
            0
        }) as nat,
        f,
    ));
    let joined = join_strings(&parts, "\n");
    tidy_text(joined.as_str())
}

} // verus!
