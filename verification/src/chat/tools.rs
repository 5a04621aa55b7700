//! Tool calls and their results on screen: which result belongs to which call,
//! one-line previews, streaming output, and the lines they are drawn in.

use vstd::prelude::*;
use vstd::hash_map::StringHashMap;
use crate::chat::markdown::{
    lookup_tool_name, segment_markdown, segment_to_markdown, tool_name,
};
use crate::chat::preview::{shortened, truncate_to_width};
use crate::chat::segment::{
    segment_views, ChatSegment, ContentView, Message, MessageContent, Role, SegmentView,
};
use crate::style::{
    colored, extend_spans, line_views, plain_style, Color, Line, Span, SpanView, Style, BOLD,
};
use crate::text::{
    has_prefix, join, join_strings, lines, lines_of, starts_with, str_eq, text_map, trim, trim_str, views,
};
use crate::commands::completion::opt_string_view;

verus! {

// ── Pairs ────────────────────────────────────────────────────────────────────

/// The call that a segment makes, whoever speaks.
pub open spec fn call_id_of(seg: SegmentView) -> Option<Seq<char>> {
    match seg {
        SegmentView::Message(m) => match m.content {
            ContentView::ToolCall { tool_call_id, .. } => Some(tool_call_id),
            _ => None,
        },
        _ => None,
    }
}

/// The call that a segment is the result of.
pub open spec fn result_id_of(seg: SegmentView) -> Option<Seq<char>> {
    match seg {
        SegmentView::Message(m) => match m.content {
            ContentView::ToolResult { tool_call_id, .. } => Some(tool_call_id),
            _ => None,
        },
        _ => None,
    }
}

/// The segment behind `i` is the result of the call that segment `i` makes.
pub open spec fn is_paired(segs: Seq<SegmentView>, i: int) -> bool {
    &&& 0 <= i < segs.len() - 1
    &&& call_id_of(segs[i]) is Some
    &&& result_id_of(segs[i + 1]) == call_id_of(segs[i])
}

/// Finds the result that follows its call directly.
pub fn get_paired_result_idx(segments: &Vec<ChatSegment>, i: usize) -> (r: Option<usize>)
    ensures
        r == (if is_paired(segment_views(segments@), i as int) {
            Some((i + 1) as usize)
        } else {
            None
        }),
{
    let ghost segs = segment_views(segments@);
    let n: usize = segments.len();
    if i >= n || i + 1 >= n {
        return None;
    }
    assert(segs[i as int] == segments@[i as int]@);
    assert(segs[i + 1] == segments@[i + 1]@);
    let call_id = match &segments[i] {
        ChatSegment::Message(m) => match &m.content {
            MessageContent::ToolCall { tool_call_id, .. } => tool_call_id,
            _ => {
                return None;
            },
        },
        _ => {
            return None;
        },
    };
    match &segments[i + 1] {
        ChatSegment::Message(m) => match &m.content {
            MessageContent::ToolResult { tool_call_id, .. } => {
                if str_eq(tool_call_id.as_str(), call_id.as_str()) {
                    Some(i + 1)
                } else {
                    None
                }
            },
            _ => None,
        },
        _ => None,
    }
}

/// The call that the assistant makes in a segment.
pub open spec fn own_call_id(seg: SegmentView) -> Option<Seq<char>> {
    match seg {
        SegmentView::Message(m) => if m.role is Assistant {
            call_id_of(seg)
        } else {
            None
        },
        _ => None,
    }
}

/// Takes the identifier of the call that the assistant makes.
pub fn extract_call_id(seg: &ChatSegment) -> (r: Option<&str>)
    ensures
        crate::text::opt_view(r) == own_call_id(seg@),
{
    match seg {
        ChatSegment::Message(m) => match (&m.role, &m.content) {
            (Role::Assistant, MessageContent::ToolCall { tool_call_id, .. }) => Some(
                tool_call_id.as_str(),
            ),
            _ => None,
        },
        _ => None,
    }
}

/// A result is that of a failed call.
pub open spec fn is_error_result(seg: SegmentView) -> bool {
    match seg {
        SegmentView::Message(m) => match m.content {
            ContentView::ToolResult { content, .. } => has_prefix(content, "error:"@),
            _ => false,
        },
        _ => false,
    }
}

/// Whether a result is that of a failed call.
pub fn result_is_error(seg: &ChatSegment) -> (r: bool)
    ensures
        r == is_error_result(seg@),
{
    match seg {
        ChatSegment::Message(m) => match &m.content {
            MessageContent::ToolResult { content, .. } => starts_with(content.as_str(), "error:"),
            _ => false,
        },
        _ => false,
    }
}

// ── One-line previews ────────────────────────────────────────────────────────

/// The symbols of tool lines.
#[derive(Debug)]
pub struct Symbols {
    pub tool: String,
    pub ok: String,
    pub error: String,
    pub expand: String,
}

/// A part of a line behind two spaces, if there is one.
pub open spec fn spaced(part: Seq<char>) -> Seq<char> {
    if part.len() == 0 {
        seq![]
    } else {
        "  "@ + part
    }
}

fn append_spaced(out: &mut String, part: &str)
    ensures
        final(out)@ == old(out)@ + spaced(part@),
{
    if !part.is_empty() {
        out.append("  ");
        out.append(part);
    }
    assert(out@ =~= old(out)@ + spaced(part@));
}

/// The line of a call with its result: the tool, whether it went well, and how
/// long it took, where that is known.
pub open spec fn grouped_preview(
    label: Seq<char>,
    summary: Seq<char>,
    tool: Seq<char>,
    status: Seq<char>,
    duration: Seq<char>,
    expand: Seq<char>,
) -> Seq<char> {
    "\n"@ + tool + "  "@ + label + spaced(summary) + "  "@ + status + spaced(duration) + "  "@
        + expand + "\n"@
}

/// Writes the line of a call with its result. `label` and `summary` describe the
/// call, `duration` is empty where it is not known.
pub fn make_grouped_preview(
    call_seg: &ChatSegment,
    result_seg: &ChatSegment,
    label: &str,
    summary: &str,
    symbols: &Symbols,
    duration: &str,
) -> (r: String)
    ensures
        r@ == (if call_id_of(call_seg@) is None {
            seq![]
        } else {
            grouped_preview(
                label@,
                summary@,
                symbols.tool@,
                if is_error_result(result_seg@) {
                    symbols.error@
                } else {
                    symbols.ok@
                },
                duration@,
                symbols.expand@,
            )
        }),
{
    let mut out = String::new();
    match call_seg {
        ChatSegment::Message(m) => match &m.content {
            MessageContent::ToolCall { .. } => {
                out.append("\n");
                out.append(symbols.tool.as_str());
                out.append("  ");
                out.append(label);
                append_spaced(&mut out, summary);
                out.append("  ");
                if result_is_error(result_seg) {
                    out.append(symbols.error.as_str());
                } else {
                    out.append(symbols.ok.as_str());
                }
                append_spaced(&mut out, duration);
                out.append("  ");
                out.append(symbols.expand.as_str());
                out.append("\n");
            },
            _ => {},
        },
        _ => {},
    }
    out
}

/// The last line of a list that is not blank, trimmed.
pub open spec fn last_solid_line(all: Seq<Seq<char>>) -> Option<Seq<char>>
    decreases all.len(),
{
    if all.len() == 0 {
        None
    } else if trim(all.last()).len() > 0 {
        Some(trim(all.last()))
    } else {
        last_solid_line(all.drop_last())
    }
}

/// What a running call has put out last.
pub open spec fn progress_part(content: Option<Seq<char>>) -> Seq<char> {
    match content {
        None => seq![],
        Some(c) => match last_solid_line(lines(c)) {
            None => seq![],
            Some(line) => "  `"@ + shortened(line, 50) + "`"@,
        },
    }
}

/// The line of a running call.
pub open spec fn running_preview(
    tool: Seq<char>,
    label: Seq<char>,
    summary: Seq<char>,
    content: Option<Seq<char>>,
    scan: Seq<char>,
    elapsed: Seq<char>,
) -> Seq<char> {
    "\n"@ + tool + "  "@ + label + spaced(summary) + progress_part(content) + "  "@ + scan + "  "@
        + elapsed + "s\n"@
}

fn progress_text(content: Option<&String>) -> (r: String)
    ensures
        r@ == progress_part(
            match content {
                Some(c) => Some(c@),
                None => None,
            },
        ),
{
    let mut out = String::new();
    if let Some(c) = content {
        let parts = lines_of(c.as_str());
        let ghost all = views(parts@);
        let mut n: usize = parts.len();
        assert(all.take(n as int) =~= all);
        while n > 0
            invariant
                all == views(parts@),
                all == lines(c@),
                n <= parts@.len(),
                out@ == Seq::<char>::empty(),
                content == Some(c),
                last_solid_line(all) == last_solid_line(all.take(n as int)),
            decreases n,
        {
            let line = trim_str(parts[n - 1].as_str());
            assert(all.take(n as int).last() == parts@[n - 1]@);
            assert(all.take(n as int).drop_last() =~= all.take(n - 1));
            if !line.is_empty() {
                let short = truncate_to_width(line, 50);
                out.append("  `");
                out.append(short.as_str());
                out.append("`");
                return out;
            }
            n -= 1;
        }
    }
    out
}

/// Writes the line of a running call: with the dot that scans to and fro and the
/// time that has passed. `None` where the segment makes no call or the call is
/// not running.
pub fn animated_tool_preview(
    seg: &ChatSegment,
    running: bool,
    label: &str,
    summary: &str,
    content: Option<&String>,
    symbols: &Symbols,
    scan: &str,
    elapsed: &str,
) -> (r: Option<String>)
    ensures
        opt_string_view(r) == (if running && own_call_id(seg@) is Some {
            Some(
                running_preview(
                    symbols.tool@,
                    label@,
                    summary@,
                    match content {
                        Some(c) => Some(c@),
                        None => None,
                    },
                    scan@,
                    elapsed@,
                ),
            )
        } else {
            None
        }),
{
    if !running || extract_call_id(seg).is_none() {
        return None;
    }
    let progress = progress_text(content);
    let mut out = "\n".to_owned();
    out.append(symbols.tool.as_str());
    out.append("  ");
    out.append(label);
    append_spaced(&mut out, summary);
    out.append(progress.as_str());
    out.append("  ");
    out.append(scan);
    out.append("  ");
    out.append(elapsed);
    out.append("s\n");
    Some(out)
}

// ── Streaming output ─────────────────────────────────────────────────────────

/// The last `n` parts.
pub open spec fn last_parts(parts: Seq<Seq<char>>, n: nat) -> Seq<Seq<char>> {
    if parts.len() <= n {
        parts
    } else {
        parts.skip(parts.len() - n)
    }
}

/// What a running call has put out, behind the call: a first line that begins
/// with `lines:` is its status, and of the others the last `max_lines` are
/// shown.
pub open spec fn streaming_text(header: Seq<char>, content: Seq<char>, max_lines: nat) -> Seq<
    char,
> {
    let all = lines(content);
    let has_status = all.len() > 0 && has_prefix(all[0], "lines:"@);
    let suffix = if has_status {
        " — "@ + all[0]
    } else {
        seq![]
    };
    let tail = last_parts(
        if has_status {
            all.skip(1)
        } else {
            all
        },
        max_lines,
    );
    if tail.len() == 0 {
        header + "\n\n**▶ Streaming output"@ + suffix + "** *(no output yet)*"@
    } else {
        header + "\n\n**▶ Streaming output"@ + suffix + "**\n```\n"@ + join(tail, "\n"@) + "\n```"@
    }
}

/// Shows a call with what it has put out so far.
pub fn format_streaming_preview(
    seg: &ChatSegment,
    tool_args: &StringHashMap<String>,
    content: &str,
    max_lines: usize,
) -> (r: String)
    ensures
        r@ == streaming_text(segment_markdown(seg@, text_map(tool_args@)), content@, max_lines as nat),
{
    let header = segment_to_markdown(seg, tool_args);
    let all = lines_of(content);
    let ghost lv = views(all@);
    let n: usize = all.len();
    assert(lv.len() == n);
    let has_status = n > 0 && starts_with(all[0].as_str(), "lines:");
    assert(n > 0 ==> lv[0] == all@[0]@);
    let mut out = header;
    out.append("\n\n**▶ Streaming output");
    if has_status {
        out.append(" — ");
        out.append(all[0].as_str());
    }
    let skip: usize = if has_status {
        1
    } else {
        0
    };
    let rest: usize = n - skip;
    let first: usize = if rest <= max_lines {
        skip
    } else {
        n - max_lines
    };
    if first >= n {
        out.append("** *(no output yet)*");
        return out;
    }
    let mut tail: Vec<String> = Vec::new();
    let mut i: usize = first;
    while i < n
        invariant
            n == all@.len(),
            first <= i <= n,
            lv == views(all@),
            tail@.len() == i - first,
            forall|k: int| 0 <= k < tail@.len() ==> (#[trigger] tail@[k])@ == lv[first + k],
        decreases n - i,
    {
        tail.push(all[i].clone());
        i += 1;
    }
    proof {
        let body = if has_status {
            lv.skip(1)
        } else {
            lv
        };
        assert(views(tail@) =~= last_parts(body, max_lines as nat));
    }
    let joined = join_strings(&tail, "\n");
    out.append("**\n```\n");
    out.append(joined.as_str());
    out.append("\n```");
    out
}

/// The first lines of a text, with a mark where there are more.
pub open spec fn partial_text(s: Seq<char>, max_lines: nat) -> Seq<char> {
    let all = lines(s);
    if all.len() <= max_lines {
        s
    } else {
        join(all.take(max_lines as int), "\n"@) + "\n…"@
    }
}

/// Shows the first lines of a segment.
pub fn partial_content(
    seg: &ChatSegment,
    tool_args: &StringHashMap<String>,
    max_lines: usize,
) -> (r: String)
    ensures
        r@ == partial_text(segment_markdown(seg@, text_map(tool_args@)), max_lines as nat),
{
    let whole = segment_to_markdown(seg, tool_args);
    let mut all = lines_of(whole.as_str());
    let ghost lv = views(all@);
    assert(lv.len() == all@.len());
    if all.len() <= max_lines {
        return whole;
    }
    all.truncate(max_lines);
    assert(views(all@) =~= lv.take(max_lines as int));
    let mut out = join_strings(&all, "\n");
    out.append("\n…");
    out
}

// ── Rich lines ───────────────────────────────────────────────────────────────

/// How a tool result is drawn.
#[derive(Debug)]
pub struct ResultPlan {
    /// The name of the tool.
    pub tool_name: String,
    /// The call failed.
    pub is_error: bool,
    /// The label in place of the tool's own, for a result that stands alone.
    pub label: Option<String>,
    /// The output is shown below the header.
    pub with_body: bool,
}

pub struct ResultPlanView {
    pub tool_name: Seq<char>,
    pub is_error: bool,
    pub label: Option<Seq<char>>,
    pub with_body: bool,
}

impl View for ResultPlan {
    type V = ResultPlanView;

    open spec fn view(&self) -> ResultPlanView {
        ResultPlanView {
            tool_name: self.tool_name@,
            is_error: self.is_error,
            label: opt_string_view(self.label),
            with_body: self.with_body,
        }
    }
}

/// How a segment is drawn.
#[derive(Debug)]
pub enum RichPlan {
    /// Not as a tool: from its Markdown.
    Markdown,
    /// A call on one line.
    CollapsedCall,
    /// A call and its result on one line; the flag says that the call failed.
    GroupedCall(bool),
    /// A call with its arguments, and its result below it where there is one.
    ExpandedCall(Option<ResultPlan>),
    /// A result on its own.
    Result(ResultPlan),
}

pub enum RichPlanView {
    Markdown,
    CollapsedCall,
    GroupedCall(bool),
    ExpandedCall(Option<ResultPlanView>),
    Result(ResultPlanView),
}

impl View for RichPlan {
    type V = RichPlanView;

    open spec fn view(&self) -> RichPlanView {
        match *self {
            RichPlan::Markdown => RichPlanView::Markdown,
            RichPlan::CollapsedCall => RichPlanView::CollapsedCall,
            RichPlan::GroupedCall(e) => RichPlanView::GroupedCall(e),
            RichPlan::ExpandedCall(r) => RichPlanView::ExpandedCall(
                match r {
                    Some(p) => Some(p@),
                    None => None,
                },
            ),
            RichPlan::Result(p) => RichPlanView::Result(p@),
        }
    }
}

/// How a result is drawn, alone or below its call; nothing where the segment is
/// no result.
pub open spec fn result_plan(
    seg: SegmentView,
    names: Map<Seq<char>, Seq<char>>,
    expand: u8,
    alone: bool,
) -> Option<ResultPlanView> {
    match seg {
        SegmentView::Message(m) => match m.content {
            ContentView::ToolResult { tool_call_id, content } => Some(
                ResultPlanView {
                    tool_name: tool_name(names, tool_call_id),
                    is_error: has_prefix(content, "error:"@),
                    label: if alone {
                        Some("Tool Result: "@ + tool_name(names, tool_call_id))
                    } else {
                        None
                    },
                    with_body: expand >= 1,
                },
            ),
            _ => None,
        },
        _ => None,
    }
}

/// How a segment is drawn at an expand level, with the result that belongs to
/// it where there is one.
pub open spec fn rich_plan(
    seg: SegmentView,
    paired: Option<SegmentView>,
    expand: u8,
    names: Map<Seq<char>, Seq<char>>,
) -> RichPlanView {
    match seg {
        SegmentView::Message(m) => match (m.role, m.content) {
            (Role::Assistant, ContentView::ToolCall { .. }) => if expand == 0 {
                match paired {
                    Some(p) => RichPlanView::GroupedCall(is_error_result(p)),
                    None => RichPlanView::CollapsedCall,
                }
            } else {
                RichPlanView::ExpandedCall(
                    match paired {
                        Some(p) => result_plan(p, names, expand, false),
                        None => None,
                    },
                )
            },
            (Role::Tool, ContentView::ToolResult { .. }) => RichPlanView::Result(
                result_plan(seg, names, expand, true).unwrap(),
            ),
            _ => RichPlanView::Markdown,
        },
        _ => RichPlanView::Markdown,
    }
}

fn plan_result(
    seg: &ChatSegment,
    names: &StringHashMap<String>,
    expand: u8,
    alone: bool,
) -> (r: Option<ResultPlan>)
    ensures
        result_plan(seg@, text_map(names@), expand, alone) == (match r {
            Some(p) => Some(p@),
            None => None,
        }),
{
    match seg {
        ChatSegment::Message(m) => match &m.content {
            MessageContent::ToolResult { tool_call_id, content } => {
                let name = lookup_tool_name(names, tool_call_id.as_str());
                let label = if alone {
                    let mut l = "Tool Result: ".to_owned();
                    l.append(name);
                    Some(l)
                } else {
                    None
                };
                Some(
                    ResultPlan {
                        tool_name: name.to_owned(),
                        is_error: starts_with(content.as_str(), "error:"),
                        label,
                        with_body: expand >= 1,
                    },
                )
            },
            _ => None,
        },
        _ => None,
    }
}

/// Decides how a segment is drawn.
pub fn plan_segment_rich(
    seg: &ChatSegment,
    paired_result: Option<&ChatSegment>,
    expand: u8,
    tool_args: &StringHashMap<String>,
) -> (r: RichPlan)
    ensures
        r@ == rich_plan(
            seg@,
            match paired_result {
                Some(p) => Some(p@),
                None => None,
            },
            expand,
            text_map(tool_args@),
        ),
{
    match seg {
        ChatSegment::Message(m) => match (&m.role, &m.content) {
            (Role::Assistant, MessageContent::ToolCall { .. }) => {
                if expand == 0 {
                    match paired_result {
                        Some(p) => RichPlan::GroupedCall(result_is_error(p)),
                        None => RichPlan::CollapsedCall,
                    }
                } else {
                    match paired_result {
                        Some(p) => RichPlan::ExpandedCall(plan_result(p, tool_args, expand, false)),
                        None => RichPlan::ExpandedCall(None),
                    }
                }
            },
            (Role::Tool, MessageContent::ToolResult { .. }) => {
                match plan_result(seg, tool_args, expand, true) {
                    Some(p) => RichPlan::Result(p),
                    None => RichPlan::Markdown,
                }
            },
            _ => RichPlan::Markdown,
        },
        _ => RichPlan::Markdown,
    }
}

/// What the tool renderer offers for a segment.
#[derive(Debug)]
pub struct ToolFaces {
    /// The call on one line.
    pub call_spans: Vec<Span>,
    /// The call's arguments.
    pub call_lines: Vec<Line>,
    pub icon: String,
    pub display_name: String,
    pub category: String,
    /// The header of the result.
    pub result_spans: Vec<Span>,
    /// The result, with its header as the first line.
    pub result_lines: Vec<Line>,
    /// How long the call took; empty where that is not known.
    pub duration: String,
}

pub struct ToolFacesView {
    pub call_spans: Seq<SpanView>,
    pub call_lines: Seq<Seq<SpanView>>,
    pub icon: Seq<char>,
    pub display_name: Seq<char>,
    pub category: Seq<char>,
    pub result_spans: Seq<SpanView>,
    pub result_lines: Seq<Seq<SpanView>>,
    pub duration: Seq<char>,
}

impl View for ToolFaces {
    type V = ToolFacesView;

    open spec fn view(&self) -> ToolFacesView {
        ToolFacesView {
            call_spans: self.call_spans@.map_values(|s: Span| s@),
            call_lines: line_views(self.call_lines@),
            icon: self.icon@,
            display_name: self.display_name@,
            category: self.category@,
            result_spans: self.result_spans@.map_values(|s: Span| s@),
            result_lines: line_views(self.result_lines@),
            duration: self.duration@,
        }
    }
}

/// The colours of tool lines.
#[derive(Clone, Copy, Debug, PartialEq, Eq, Structural)]
pub struct ToolTheme {
    pub bar: Color,
    pub error: Color,
}

/// The accent colour of a kind of tool.
pub open spec fn accent(category: Seq<char>, bar: Color) -> Color {
    if category == "file"@ {
        Color::Rgb(100, 180, 255)
    } else if category == "shell"@ {
        Color::Rgb(120, 220, 130)
    } else if category == "search"@ {
        Color::Rgb(180, 140, 255)
    } else if category == "web"@ {
        Color::Rgb(80, 200, 220)
    } else if category == "system"@ {
        Color::Rgb(200, 160, 60)
    } else if category == "agent"@ {
        Color::Rgb(220, 120, 180)
    } else {
        bar
    }
}

/// The accent colour of a kind of tool.
pub fn tool_renderer_accent(category: &str, bar: Color) -> (r: Color)
    ensures
        r == accent(category@, bar),
{
    if str_eq(category, "file") {
        Color::Rgb(100, 180, 255)
    } else if str_eq(category, "shell") {
        Color::Rgb(120, 220, 130)
    } else if str_eq(category, "search") {
        Color::Rgb(180, 140, 255)
    } else if str_eq(category, "web") {
        Color::Rgb(80, 200, 220)
    } else if str_eq(category, "system") {
        Color::Rgb(200, 160, 60)
    } else if str_eq(category, "agent") {
        Color::Rgb(220, 120, 180)
    } else {
        bar
    }
}

pub open spec fn span(content: Seq<char>, style: Style) -> SpanView {
    SpanView { content, style }
}

/// The bar in front of a tool line.
pub open spec fn bar_span(bar_char: Seq<char>, theme: ToolTheme) -> SpanView {
    span(bar_char, colored(theme.bar))
}

/// The end of a grouped line: the status, the duration and the expand mark.
pub open spec fn status_spans(is_error: bool, duration: Seq<char>, theme: ToolTheme) -> Seq<
    SpanView,
> {
    seq![
        span(
            if is_error {
                " ✗"@
            } else {
                " ✓"@
            },
            colored(
                if is_error {
                    theme.error
                } else {
                    Color::Rgb(80, 200, 120)
                },
            ),
        ),
        span(spaced(duration), colored(Color::Rgb(120, 120, 140))),
        span("  ▶"@, plain_style()),
    ]
}

/// Lines behind the bar.
pub open spec fn behind_bar(
    body: Seq<Seq<SpanView>>,
    bar_char: Seq<char>,
    theme: ToolTheme,
) -> Seq<Seq<SpanView>> {
    body.map_values(|l: Seq<SpanView>| seq![bar_span(bar_char, theme)] + l)
}

/// The lines of a result below its header: the renderer's own header is left
/// out.
pub open spec fn result_body(faces: ToolFacesView) -> Seq<Seq<SpanView>> {
    if faces.result_lines.len() == 0 {
        seq![]
    } else {
        faces.result_lines.skip(1)
    }
}

/// The lines of a result.
pub open spec fn result_lines(
    plan: ResultPlanView,
    faces: ToolFacesView,
    bar_char: Seq<char>,
    theme: ToolTheme,
) -> Seq<Seq<SpanView>> {
    seq![seq![bar_span(bar_char, theme)] + faces.result_spans] + if plan.with_body {
        behind_bar(result_body(faces), bar_char, theme)
    } else {
        seq![]
    }
}

/// The header of an expanded call.
pub open spec fn call_header(faces: ToolFacesView, bar_char: Seq<char>, theme: ToolTheme) -> Seq<
    SpanView,
> {
    let style = Style {
        fg: Some(accent(faces.category, theme.bar)),
        bg: None,
        modifiers: 0u16 | BOLD,
    };
    seq![
        bar_span(bar_char, theme),
        span(faces.icon + " "@, style),
        span(faces.display_name, style),
    ]
}

/// The lines of a segment that is drawn as a tool; `None` where it is not.
pub open spec fn rich_lines(
    plan: RichPlanView,
    faces: ToolFacesView,
    bar_char: Seq<char>,
    theme: ToolTheme,
) -> Option<Seq<Seq<SpanView>>> {
    let bar = bar_span(bar_char, theme);
    match plan {
        RichPlanView::Markdown => None,
        RichPlanView::CollapsedCall => Some(
            seq![seq![bar] + faces.call_spans + seq![span("  ▶"@, plain_style())]],
        ),
        RichPlanView::GroupedCall(is_error) => Some(
            seq![seq![bar] + faces.call_spans + status_spans(is_error, faces.duration, theme)],
        ),
        RichPlanView::ExpandedCall(result) => Some(
            seq![call_header(faces, bar_char, theme)] + behind_bar(
                faces.call_lines,
                bar_char,
                theme,
            ) + match result {
                Some(p) => result_lines(p, faces, bar_char, theme),
                None => seq![],
            },
        ),
        RichPlanView::Result(p) => if p.with_body {
            Some(result_lines(p, faces, bar_char, theme))
        } else {
            Some(seq![seq![bar] + faces.result_spans + seq![span("  ▶"@, plain_style())]])
        },
    }
}

/// Spans behind the bar, with more behind them.
fn barred_line(bar_char: &str, theme: ToolTheme, spans: &Vec<Span>, more: Vec<Span>) -> (r: Line)
    ensures
        r@ == seq![bar_span(bar_char@, theme)] + spans@.map_values(|s: Span| s@)
            + more@.map_values(|s: Span| s@),
{
    let ghost f = |s: Span| s@;
    let mut out: Vec<Span> = Vec::new();
    out.push(Span::styled(bar_char, Style::foreground(theme.bar)));
    extend_spans(&mut out, spans);
    extend_spans(&mut out, &more);
    let r = Line { spans: out };
    assert(r@ =~= seq![bar_span(bar_char@, theme)] + spans@.map_values(f) + more@.map_values(f));
    r
}

/// Appends lines behind the bar, from an index on.
fn push_barred(out: &mut Vec<Line>, body: &Vec<Line>, from: usize, bar_char: &str, theme: ToolTheme)
    requires
        from <= body@.len(),
    ensures
        line_views(final(out)@) == line_views(old(out)@) + behind_bar(
            line_views(body@).skip(from as int),
            bar_char@,
            theme,
        ),
{
    let ghost bv = line_views(body@);
    let ghost tail = bv.skip(from as int);
    let ghost head = line_views(out@);
    let mut i: usize = from;
    assert(head + behind_bar(tail.take(0), bar_char@, theme) =~= head);
    while i < body.len()
        invariant
            bv == line_views(body@),
            tail == bv.skip(from as int),
            head == line_views(old(out)@),
            from <= i <= body@.len(),
            line_views(out@) == head + behind_bar(tail.take(i - from), bar_char@, theme),
        decreases body.len() - i,
    {
        let none: Vec<Span> = Vec::new();
        let line = barred_line(bar_char, theme, &body[i].spans, none);
        let ghost before = out@;
        assert(line@ =~= seq![bar_span(bar_char@, theme)] + body@[i as int]@);
        out.push(line);
        i += 1;
        proof {
            assert(line_views(out@) =~= line_views(before).push(line@));
            assert(tail.take(i - from) =~= tail.take(i - 1 - from).push(body@[i - 1]@));
            assert(line_views(out@) =~= head + behind_bar(tail.take(i - from), bar_char@, theme));
        }
    }
    assert(tail.take(body@.len() - from) =~= tail);
}

/// Draws a result: its header and, where asked for, its output.
pub fn render_tool_result_lines(
    plan: &ResultPlan,
    faces: &ToolFaces,
    bar_char: &str,
    theme: ToolTheme,
) -> (r: Vec<Line>)
    ensures
        line_views(r@) == result_lines(plan@, faces@, bar_char@, theme),
{
    let none: Vec<Span> = Vec::new();
    let header = barred_line(bar_char, theme, &faces.result_spans, none);
    assert(header@ =~= seq![bar_span(bar_char@, theme)] + faces@.result_spans);
    let mut out: Vec<Line> = Vec::new();
    out.push(header);
    assert(line_views(out@) =~= seq![header@]);
    if plan.with_body && faces.result_lines.len() > 0 {
        push_barred(&mut out, &faces.result_lines, 1, bar_char, theme);
    }
    assert(line_views(out@) =~= result_lines(plan@, faces@, bar_char@, theme));
    out
}

/// The end of a grouped line.
pub fn build_grouped_rich_line(is_error: bool, duration: &str, theme: ToolTheme) -> (r: Vec<Span>)
    ensures
        r@.map_values(|s: Span| s@) == status_spans(is_error, duration@, theme),
{
    let mut out: Vec<Span> = Vec::new();
    if is_error {
        out.push(Span::styled(" ✗", Style::foreground(theme.error)));
    } else {
        out.push(Span::styled(" ✓", Style::foreground(Color::Rgb(80, 200, 120))));
    }
    let mut text = String::new();
    append_spaced(&mut text, duration);
    assert(text@ =~= spaced(duration@));
    out.push(Span::styled(text.as_str(), Style::foreground(Color::Rgb(120, 120, 140))));
    out.push(Span::raw("  ▶"));
    assert(out@.map_values(|s: Span| s@) =~= status_spans(is_error, duration@, theme));
    out
}

/// A list of one line.
fn one_line(line: Line) -> (r: Vec<Line>)
    ensures
        line_views(r@) == seq![line@],
{
    let mut out: Vec<Line> = Vec::new();
    out.push(line);
    assert(line_views(out@) =~= seq![line@]);
    out
}

fn expand_mark() -> (r: Vec<Span>)
    ensures
        r@.map_values(|s: Span| s@) == seq![span("  ▶"@, plain_style())],
{
    let mut out: Vec<Span> = Vec::new();
    out.push(Span::raw("  ▶"));
    assert(out@.map_values(|s: Span| s@) =~= seq![span("  ▶"@, plain_style())]);
    out
}

fn render_expanded_call(
    result: &Option<ResultPlan>,
    faces: &ToolFaces,
    bar_char: &str,
    theme: ToolTheme,
) -> (r: Vec<Line>)
    ensures
        Some(line_views(r@)) == rich_lines(
            RichPlanView::ExpandedCall(
                match *result {
                    Some(p) => Some(p@),
                    None => None,
                },
            ),
            faces@,
            bar_char@,
            theme,
        ),
{
    let color = tool_renderer_accent(faces.category.as_str(), theme.bar);
    let style = Style::foreground(color).with_modifiers(BOLD);
    let mut icon = faces.icon.clone();
    icon.append(" ");
    let mut spans: Vec<Span> = Vec::new();
    spans.push(Span::styled(bar_char, Style::foreground(theme.bar)));
    spans.push(Span::styled(icon.as_str(), style));
    spans.push(Span::styled(faces.display_name.as_str(), style));
    let header = Line { spans };
    assert(header@ =~= call_header(faces@, bar_char@, theme));
    let mut out = one_line(header);
    push_barred(&mut out, &faces.call_lines, 0, bar_char, theme);
    assert(faces@.call_lines.skip(0) =~= faces@.call_lines);
    let ghost upper = line_views(out@);
    if let Some(p) = result {
        let mut more = render_tool_result_lines(p, faces, bar_char, theme);
        let ghost lower = line_views(more@);
        out.append(&mut more);
        assert(line_views(out@) =~= upper + lower);
    } else {
        assert(upper + seq![] =~= upper);
    }
    out
}

/// Draws a segment as a tool, by its plan and with what the tool renderer
/// offers for it. `None` where the plan is to draw its Markdown.
pub fn render_segment_rich(
    plan: &RichPlan,
    faces: &ToolFaces,
    bar_char: &str,
    theme: ToolTheme,
) -> (r: Option<Vec<Line>>)
    ensures
        rich_lines(plan@, faces@, bar_char@, theme) == (match r {
            Some(v) => Some(line_views(v@)),
            None => None,
        }),
{
    match plan {
        RichPlan::Markdown => None,
        RichPlan::CollapsedCall => Some(
            one_line(barred_line(bar_char, theme, &faces.call_spans, expand_mark())),
        ),
        RichPlan::GroupedCall(is_error) => {
            let end = build_grouped_rich_line(*is_error, faces.duration.as_str(), theme);
            Some(one_line(barred_line(bar_char, theme, &faces.call_spans, end)))
        },
        RichPlan::ExpandedCall(result) => Some(
            render_expanded_call(result, faces, bar_char, theme),
        ),
        RichPlan::Result(p) => {
            if p.with_body {
                Some(render_tool_result_lines(p, faces, bar_char, theme))
            } else {
                Some(one_line(barred_line(bar_char, theme, &faces.result_spans, expand_mark())))
            }
        },
    }
}

} // verus!
