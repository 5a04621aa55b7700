//! From the segments of a conversation to the lines of the chat pane. What a
//! segment is drawn from is decided first; once each has been drawn, its lines
//! are put together.

use vstd::prelude::*;

use crate::app::chat_state::{low16, low_half, minus, ChatState, ChatView};
use crate::chat::markdown::{
    apply_bar_and_dim, bar_color, barred, collapsed_markdown, collapsed_preview, segment_bar_style,
    segment_markdown, segment_to_markdown,
};
use crate::chat::preview::{display_width, shortened, text_width, truncate_to_width};
use crate::chat::segment::{ChatSegment, SegmentView};
use crate::chat::segment_ops::{
    editable_text, range_with, removable, rerunnable, segment_editable_text, segment_is_removable,
    segment_is_rerunnable,
};
use crate::chat::tools::{
    extract_call_id, format_streaming_preview, is_paired, own_call_id, partial_content,
    partial_text, plan_segment_rich, render_segment_rich, rich_lines, rich_plan, streaming_text,
    RichPlan, RichPlanView, ToolFaces, ToolFacesView, ToolTheme,
};
use crate::style::{colored, line_views, Color, Line, SpanView, Style};
use crate::text::{chars_of, is_space, is_whitespace};
use crate::commands::completion::opt_string_view;

verus! {

/// The lines that a partly shown segment has at most.
pub const PARTIAL_VIEW_LINES: usize = 12;

/// The columns that labels beside a segment take up.
pub const LABEL_RESERVE: u16 = 10;

/// The columns that a line has at least.
pub const MIN_RENDER_WIDTH: u16 = 20;

// ── Widths ───────────────────────────────────────────────────────────────────

/// The columns for the text of a line: what the bar and the labels leave, at
/// least a few, and at most the chosen width where there is one.
pub open spec fn text_columns(inner: u16, bar: int, labels: bool, wrap_width: u16) -> int {
    let reserve = bar + if labels {
        LABEL_RESERVE as int
    } else {
        0
    };
    let left = minus(inner as int, reserve);
    let effective = if left < MIN_RENDER_WIDTH {
        MIN_RENDER_WIDTH as int
    } else {
        left
    };
    if wrap_width == 0 || wrap_width > effective {
        effective
    } else {
        wrap_width as int
    }
}

/// The columns for the text of a line.
pub fn render_width(inner: u16, bar_char: &str, labels: bool, wrap_width: u16) -> (r: u16)
    ensures
        r == text_columns(inner, low16(text_width(bar_char@) as int) as int, labels, wrap_width),
{
    let bar: u16 = low_half(display_width(bar_char));
    let reserve: u16 = if labels {
        LABEL_RESERVE
    } else {
        0
    };
    let left: u16 = inner.saturating_sub(bar.saturating_add(reserve));
    let effective: u16 = if left < MIN_RENDER_WIDTH {
        MIN_RENDER_WIDTH
    } else {
        left
    };
    if wrap_width == 0 || wrap_width > effective {
        effective
    } else {
        wrap_width
    }
}

// ── Plans ────────────────────────────────────────────────────────────────────

/// What a segment is drawn from.
#[derive(Debug)]
pub enum SegmentPlan {
    /// Nothing: it is shown on the line of its call.
    Grouped,
    /// The tool renderer's offers.
    Rich(RichPlan),
    /// A call of somebody else with its result on one line.
    GroupedPreview,
    /// A text in Markdown.
    Markdown(String),
}

pub enum PlanView {
    Grouped,
    Rich(RichPlanView),
    GroupedPreview,
    Markdown(Seq<char>),
}

impl View for SegmentPlan {
    type V = PlanView;

    open spec fn view(&self) -> PlanView {
        match *self {
            SegmentPlan::Grouped => PlanView::Grouped,
            SegmentPlan::Rich(p) => PlanView::Rich(p@),
            SegmentPlan::GroupedPreview => PlanView::GroupedPreview,
            SegmentPlan::Markdown(t) => PlanView::Markdown(t@),
        }
    }
}

impl ChatView {
    /// The level at which a segment is drawn; an editor shows everything.
    pub open spec fn drawn_level(self, folds: bool, i: int) -> u8 {
        if folds {
            self.level(i)
        } else {
            2
        }
    }

    /// A summed up call, with the result that follows it on the same line.
    pub open spec fn leads_group(self, folds: bool, i: int) -> bool {
        self.drawn_level(folds, i) == 0 && is_paired(self.segments, i)
    }

    /// A result on the line of its call.
    pub open spec fn in_group(self, folds: bool, i: int) -> bool {
        i > 0 && self.leads_group(folds, i - 1)
    }

    /// The text of a segment that is drawn from Markdown.
    pub open spec fn markdown_at(self, folds: bool, i: int) -> Seq<char> {
        let seg = self.segments[i];
        let level = self.drawn_level(folds, i);
        let streamed = match own_call_id(seg) {
            Some(id) => if self.tool_streaming_content.contains_key(id) {
                Some(self.tool_streaming_content[id])
            } else {
                None
            },
            None => None,
        };
        let whole = segment_markdown(seg, self.tool_args);
        if level == 0 {
            collapsed_markdown(seg, self.tool_args)
        } else if level == 1 {
            match streamed {
                Some(content) => streaming_text(whole, content, PARTIAL_VIEW_LINES as nat),
                None => partial_text(whole, PARTIAL_VIEW_LINES as nat),
            }
        } else {
            match streamed {
                Some(content) => streaming_text(whole, content, usize::MAX as nat),
                None => whole,
            }
        }
    }

    /// What a segment is drawn from.
    pub open spec fn plan_at(self, folds: bool, i: int) -> PlanView {
        let seg = self.segments[i];
        let paired = if self.leads_group(folds, i) {
            Some(self.segments[i + 1])
        } else {
            None
        };
        if self.in_group(folds, i) {
            PlanView::Grouped
        } else {
            match rich_plan(seg, paired, self.drawn_level(folds, i), self.tool_args) {
                RichPlanView::Markdown => if paired is Some {
                    PlanView::GroupedPreview
                } else {
                    PlanView::Markdown(self.markdown_at(folds, i))
                },
                p => PlanView::Rich(p),
            }
        }
    }
}

impl ChatState {
    fn drawn_expand_level(&self, folds: bool, i: usize) -> (r: u8)
        requires
            i < self.segments@.len(),
        ensures
            r == self@.drawn_level(folds, i as int),
    {
        assert(self@.segments[i as int] == self.segments@[i as int]@);
        if folds {
            self.effective_expand_level(i, &self.segments[i])
        } else {
            2
        }
    }

    fn group_at(&self, folds: bool, i: usize) -> (r: Option<usize>)
        requires
            i < self.segments@.len(),
        ensures
            r == (if self@.leads_group(folds, i as int) {
                Some((i + 1) as usize)
            } else {
                None
            }),
    {
        if self.drawn_expand_level(folds, i) == 0 {
            self.paired_result_for(i)
        } else {
            None
        }
    }

    fn is_in_group(&self, folds: bool, i: usize) -> (r: bool)
        requires
            i < self.segments@.len(),
        ensures
            r == self@.in_group(folds, i as int),
    {
        i > 0 && self.group_at(folds, i - 1).is_some()
    }

    fn segment_text(&self, folds: bool, i: usize) -> (r: String)
        requires
            i < self.segments@.len(),
        ensures
            r@ == self@.markdown_at(folds, i as int),
    {
        let ghost v = self@;
        assert(v.segments[i as int] == self.segments@[i as int]@);
        let seg = &self.segments[i];
        let level: u8 = self.drawn_expand_level(folds, i);
        if level == 0 {
            return collapsed_preview(seg, &self.tool_args);
        }
        let limit: usize = if level == 1 {
            PARTIAL_VIEW_LINES
        } else {
            usize::MAX
        };
        if let Some(id) = extract_call_id(seg) {
            if let Some(content) = self.tool_streaming_content.get(id) {
                return format_streaming_preview(seg, &self.tool_args, content.as_str(), limit);
            }
        }
        if level == 1 {
            partial_content(seg, &self.tool_args, limit)
        } else {
            segment_to_markdown(seg, &self.tool_args)
        }
    }

    /// Decides what a segment is drawn from. Segments fold only where the pane
    /// shows the conversation itself.
    pub fn plan_segment(&self, folds: bool, i: usize) -> (r: SegmentPlan)
        requires
            i < self.segments@.len(),
        ensures
            r@ == self@.plan_at(folds, i as int),
    {
        let ghost v = self@;
        let n: usize = self.segments.len();
        assert(v.segments.len() == n);
        assert(v.segments[i as int] == self.segments@[i as int]@);
        if self.is_in_group(folds, i) {
            return SegmentPlan::Grouped;
        }
        let level: u8 = self.drawn_expand_level(folds, i);
        let group = self.group_at(folds, i);
        let rich = match group {
            Some(result) => {
                assert(v.segments[result as int] == self.segments@[result as int]@);
                plan_segment_rich(
                    &self.segments[i],
                    Some(&self.segments[result]),
                    level,
                    &self.tool_args,
                )
            },
            None => plan_segment_rich(&self.segments[i], None, level, &self.tool_args),
        };
        match rich {
            RichPlan::Markdown => {
                if group.is_some() {
                    SegmentPlan::GroupedPreview
                } else {
                    SegmentPlan::Markdown(self.segment_text(folds, i))
                }
            },
            p => SegmentPlan::Rich(p),
        }
    }

    /// Decides what every segment is drawn from.
    pub fn plan_display(&self, folds: bool) -> (r: Vec<SegmentPlan>)
        ensures
            r@.len() == self@.segments.len(),
            forall|i: int| 0 <= i < r@.len() ==> (#[trigger] r@[i])@ == self@.plan_at(folds, i),
    {
        let n: usize = self.segments.len();
        assert(self@.segments.len() == n);
        let mut out: Vec<SegmentPlan> = Vec::new();
        let mut i: usize = 0;
        while i < n
            invariant
                n == self.segments@.len(),
                i <= n,
                out@.len() == i,
                forall|k: int| 0 <= k < i ==> (#[trigger] out@[k])@ == self@.plan_at(folds, k),
            decreases n - i,
        {
            out.push(self.plan_segment(folds, i));
            i += 1;
        }
        out
    }
}

// ── Drawing ──────────────────────────────────────────────────────────────────

/// What a segment was drawn from gave.
#[derive(Debug)]
pub enum SegmentFace {
    /// Rendered Markdown.
    Rendered(Vec<Line>),
    /// The tool renderer's offers.
    Tool(ToolFaces),
}

pub enum FaceView {
    Rendered(Seq<Seq<SpanView>>),
    Tool(ToolFacesView),
}

impl View for SegmentFace {
    type V = FaceView;

    open spec fn view(&self) -> FaceView {
        match *self {
            SegmentFace::Rendered(lines) => FaceView::Rendered(line_views(lines@)),
            SegmentFace::Tool(faces) => FaceView::Tool(faces@),
        }
    }
}

/// The lines of a segment: a tool's lines as its plan says, rendered Markdown
/// behind the bar of the segment, and none for a result on its call's line.
pub open spec fn drawn(
    seg: SegmentView,
    plan: PlanView,
    face: FaceView,
    bar_char: Seq<char>,
    theme: ToolTheme,
) -> Seq<Seq<SpanView>> {
    match (plan, face) {
        (PlanView::Grouped, _) => seq![],
        (PlanView::Rich(p), FaceView::Tool(faces)) => match rich_lines(p, faces, bar_char, theme) {
            Some(lines) => lines,
            None => seq![],
        },
        (PlanView::Rich(_), _) => seq![],
        (_, FaceView::Rendered(lines)) => lines.map_values(
            |l: Seq<SpanView>|
                barred(
                    l,
                    match bar_color(seg) {
                        Some(c) => Some(colored(c)),
                        None => None,
                    },
                    false,
                    bar_char,
                ),
        ),
        _ => seq![],
    }
}

/// Draws a segment.
pub fn draw_segment(
    seg: &ChatSegment,
    plan: &SegmentPlan,
    face: &SegmentFace,
    bar_char: &str,
    theme: ToolTheme,
) -> (r: Vec<Line>)
    ensures
        line_views(r@) == drawn(seg@, plan@, face@, bar_char@, theme),
{
    let none: Vec<Line> = Vec::new();
    assert(line_views(none@) =~= seq![]);
    match (plan, face) {
        (SegmentPlan::Grouped, _) => none,
        (SegmentPlan::Rich(p), SegmentFace::Tool(faces)) => {
            match render_segment_rich(p, faces, bar_char, theme) {
                Some(lines) => lines,
                None => none,
            }
        },
        (SegmentPlan::Rich(_), _) => none,
        (SegmentPlan::GroupedPreview, SegmentFace::Rendered(lines)) => {
            let (style, dim) = segment_bar_style(seg);
            let out = apply_bar_and_dim(lines, style, dim, bar_char);
            assert(line_views(out@) =~= drawn(seg@, plan@, face@, bar_char@, theme));
            out
        },
        (SegmentPlan::Markdown(_), SegmentFace::Rendered(lines)) => {
            let (style, dim) = segment_bar_style(seg);
            let out = apply_bar_and_dim(lines, style, dim, bar_char);
            assert(line_views(out@) =~= drawn(seg@, plan@, face@, bar_char@, theme));
            out
        },
        _ => none,
    }
}

// ── What is being received ───────────────────────────────────────────────────

/// A text with single spaces between its words and none around them.
pub open spec fn squeezed(s: Seq<char>) -> Seq<char>
    decreases s.len(),
{
    if s.len() == 0 {
        seq![]
    } else {
        let init = squeezed(s.drop_last());
        if is_space(s.last()) {
            init
        } else if s.len() > 1 && is_space(s[s.len() - 2]) && init.len() > 0 {
            init.push(' ').push(s.last())
        } else {
            init.push(s.last())
        }
    }
}

/// Puts single spaces between the words of a text.
pub fn squeeze(s: &str) -> (r: String)
    ensures
        r@ == squeezed(s@),
{
    let chars = chars_of(s);
    let mut out = String::new();
    let mut empty = true;
    let mut i: usize = 0;
    assert(s@.take(0) =~= seq![]);
    assert(out@ =~= seq![]);
    while i < chars.len()
        invariant
            chars@ == s@,
            i <= chars@.len(),
            out@ == squeezed(s@.take(i as int)),
            empty == (out@.len() == 0),
        decreases chars.len() - i,
    {
        let ghost part = s@.take(i + 1);
        assert(part.drop_last() =~= s@.take(i as int));
        assert(part.last() == chars@[i as int]);
        if !is_whitespace(chars[i]) {
            if i > 0 && is_whitespace(chars[i - 1]) && !empty {
                assert(part[part.len() - 2] == chars@[i - 1]);
                out.push(' ');
            } else {
                assert(i > 0 ==> part[part.len() - 2] == chars@[i - 1]);
            }
            out.push(chars[i]);
            empty = false;
        }
        i += 1;
    }
    assert(s@.take(s@.len() as int) =~= s@);
    out
}

/// The text below the segments while an answer is being received. `mark` is the
/// moving sign: a dot for a thought, a cursor for an answer.
pub open spec fn streaming_tail(v: ChatView, think: Seq<char>, mark: Seq<char>) -> Option<Seq<char>> {
    let sep = if v.segments.len() == 0 {
        seq![]
    } else {
        "\n"@
    };
    if v.streaming_buffer.len() == 0 {
        None
    } else if v.streaming_is_thinking {
        Some(
            sep + think + " **Seasoning**  "@ + mark + "  `"@ + shortened(
                squeezed(v.streaming_buffer),
                80,
            ) + "`"@,
        )
    } else {
        Some(sep + "**Agent:** "@ + v.streaming_buffer + mark)
    }
}

impl ChatState {
    /// The text below the segments while an answer is being received.
    pub fn plan_streaming_tail(&self, think: &str, mark: &str) -> (r: Option<String>)
        ensures
            opt_string_view(r) == streaming_tail(self@, think@, mark@),
    {
        if self.streaming_buffer.as_str().is_empty() {
            return None;
        }
        assert(self@.segments.len() == self.segments@.len());
        let mut out = String::new();
        assert(out@ =~= seq![]);
        if self.segments.len() > 0 {
            out.append("\n");
        }
        if self.streaming_is_thinking {
            let words = squeeze(self.streaming_buffer.as_str());
            let preview = truncate_to_width(words.as_str(), 80);
            out.append(think);
            out.append(" **Seasoning**  ");
            out.append(mark);
            out.append("  `");
            out.append(preview.as_str());
            out.append("`");
        } else {
            out.append("**Agent:** ");
            out.append(self.streaming_buffer.as_str());
            out.append(mark);
        }
        Some(out)
    }
}

/// The lines of what is being received, behind the bar of a thought or of an
/// answer.
pub open spec fn drawn_tail(v: ChatView, lines: Seq<Seq<SpanView>>, bar_char: Seq<char>) -> Seq<
    Seq<SpanView>,
> {
    let color = if v.streaming_is_thinking {
        Color::Magenta
    } else {
        Color::Blue
    };
    lines.map_values(|l: Seq<SpanView>| barred(l, Some(colored(color)), false, bar_char))
}

impl ChatState {
    /// Draws what is being received, from its rendered text.
    pub fn draw_streaming_tail(&self, lines: &Vec<Line>, bar_char: &str) -> (r: Vec<Line>)
        ensures
            line_views(r@) == drawn_tail(self@, line_views(lines@), bar_char@),
    {
        let color = if self.streaming_is_thinking {
            Color::Magenta
        } else {
            Color::Blue
        };
        let out = apply_bar_and_dim(lines, Some(Style::foreground(color)), false, bar_char);
        assert(line_views(out@) =~= drawn_tail(self@, line_views(lines@), bar_char@));
        out
    }
}

// ── Putting the lines together ───────────────────────────────────────────────

/// The views of drawn segments.
pub open spec fn drawn_views(v: Seq<Vec<Line>>) -> Seq<Seq<Seq<SpanView>>> {
    v.map_values(|l: Vec<Line>| line_views(l@))
}

/// The lines of a segment in the pane: none where it stands on its call's line.
pub open spec fn own_lines(
    v: ChatView,
    folds: bool,
    parts: Seq<Seq<Seq<SpanView>>>,
    i: int,
) -> Seq<Seq<SpanView>> {
    if v.in_group(folds, i) {
        seq![]
    } else {
        parts[i]
    }
}

/// The lines of the first `n` segments.
pub open spec fn lines_before(
    v: ChatView,
    folds: bool,
    parts: Seq<Seq<Seq<SpanView>>>,
    n: int,
) -> Seq<Seq<SpanView>>
    decreases n,
{
    if n <= 0 {
        seq![]
    } else {
        lines_before(v, folds, parts, n - 1) + own_lines(v, folds, parts, n - 1)
    }
}

/// The lines that the first `n` segments take up.
pub open spec fn ranges_before(
    v: ChatView,
    folds: bool,
    parts: Seq<Seq<Seq<SpanView>>>,
    n: int,
) -> Seq<(usize, usize)>
    decreases n,
{
    if n <= 0 {
        seq![]
    } else {
        ranges_before(v, folds, parts, n - 1).push(
            (
                lines_before(v, folds, parts, n - 1).len() as usize,
                lines_before(v, folds, parts, n).len() as usize,
            ),
        )
    }
}

/// What a label beside a segment is for.
#[derive(Clone, Copy, Debug, PartialEq, Eq, Structural)]
pub enum LabelKind {
    Edit,
    Remove,
    Rerun,
    Copy,
}

/// A segment has labels: an unfolded or highlighted one, where segments fold.
pub open spec fn has_labels(v: ChatView, folds: bool, i: int) -> bool {
    folds && !v.in_group(folds, i) && (v.level(i) >= 1 || v.focused_segment == Some(i as usize))
}

/// A segment has a label of a kind.
pub open spec fn has_label(v: ChatView, folds: bool, kind: LabelKind, i: int) -> bool {
    has_labels(v, folds, i) && match kind {
        LabelKind::Edit => editable_text(v.segments[i]) is Some,
        LabelKind::Remove => removable(v.segments[i]),
        LabelKind::Rerun => rerunnable(v.segments[i]),
        LabelKind::Copy => true,
    }
}

/// The lines at which the first `n` segments have a label of a kind.
pub open spec fn labels_before(
    v: ChatView,
    folds: bool,
    parts: Seq<Seq<Seq<SpanView>>>,
    kind: LabelKind,
    n: int,
) -> Seq<usize>
    decreases n,
{
    if n <= 0 {
        seq![]
    } else {
        let init = labels_before(v, folds, parts, kind, n - 1);
        if has_label(v, folds, kind, n - 1) {
            init.push(lines_before(v, folds, parts, n - 1).len() as usize)
        } else {
            init
        }
    }
}

/// The pane with its lines put together. The highlight stays where it is as long
/// as it is on a segment.
pub open spec fn displayed(
    v: ChatView,
    folds: bool,
    parts: Seq<Seq<Seq<SpanView>>>,
    tail: Seq<Seq<SpanView>>,
    height: u16,
) -> ChatView {
    let n = v.segments.len() as int;
    let w = ChatView {
        lines: lines_before(v, folds, parts, n) + tail,
        segment_line_ranges: ranges_before(v, folds, parts, n),
        edit_labels: labels_before(v, folds, parts, LabelKind::Edit, n),
        remove_labels: labels_before(v, folds, parts, LabelKind::Remove, n),
        rerun_labels: labels_before(v, folds, parts, LabelKind::Rerun, n),
        copy_labels: labels_before(v, folds, parts, LabelKind::Copy, n),
        ..v
    };
    if v.focused_segment matches Some(i) && i < n {
        w
    } else {
        w.focused_on_middle(height)
    }
}

fn append_lines(out: &mut Vec<Line>, more: &mut Vec<Line>)
    ensures
        line_views(final(out)@) == line_views(old(out)@) + line_views(old(more)@),
        final(out)@.len() == old(out)@.len() + old(more)@.len(),
{
    let ghost a = out@;
    let ghost b = more@;
    out.append(more);
    assert(line_views(out@) =~= line_views(a) + line_views(b));
}

impl ChatState {
    fn label_at(&self, folds: bool, kind: LabelKind, i: usize) -> (r: bool)
        requires
            i < self.segments@.len(),
        ensures
            r == has_label(self@, folds, kind, i as int),
    {
        assert(self@.segments[i as int] == self.segments@[i as int]@);
        if !folds || self.is_in_group(folds, i) {
            return false;
        }
        let level: u8 = self.effective_expand_level(i, &self.segments[i]);
        if level == 0 && self.focused_segment != Some(i) {
            return false;
        }
        match kind {
            LabelKind::Edit => segment_editable_text(&self.segments, i).is_some(),
            LabelKind::Remove => segment_is_removable(&self.segments[i]),
            LabelKind::Rerun => segment_is_rerunnable(&self.segments[i]),
            LabelKind::Copy => true,
        }
    }

    /// Puts the lines of the drawn segments together, with what is below them,
    /// and finds out where each segment and each label is.
    pub fn build_display_from_segments(
        &mut self,
        folds: bool,
        parts: Vec<Vec<Line>>,
        tail: Vec<Line>,
        height: u16,
    )
        requires
            parts@.len() == old(self).segments@.len(),
        ensures
            final(self)@ == displayed(
                old(self)@,
                folds,
                drawn_views(parts@),
                line_views(tail@),
                height,
            ),
    {
        let ghost v = self@;
        let ghost pv = drawn_views(parts@);
        let n: usize = self.segments.len();
        assert(v.segments.len() == n);
        let mut parts = parts;
        let mut tail = tail;
        let mut lines: Vec<Line> = Vec::new();
        let mut ranges: Vec<(usize, usize)> = Vec::new();
        let mut edit: Vec<usize> = Vec::new();
        let mut remove: Vec<usize> = Vec::new();
        let mut rerun: Vec<usize> = Vec::new();
        let mut copy: Vec<usize> = Vec::new();
        let mut i: usize = 0;
        assert(line_views(lines@) =~= seq![]);
        while i < n
            invariant
                n == self.segments@.len(),
                v == self@,
                v == old(self)@,
                i <= n,
                parts@.len() == n,
                pv.len() == n,
                forall|k: int| i <= k < n ==> line_views((#[trigger] parts@[k])@) == pv[k],
                line_views(lines@) == lines_before(v, folds, pv, i as int),
                ranges@ == ranges_before(v, folds, pv, i as int),
                edit@ == labels_before(v, folds, pv, LabelKind::Edit, i as int),
                remove@ == labels_before(v, folds, pv, LabelKind::Remove, i as int),
                rerun@ == labels_before(v, folds, pv, LabelKind::Rerun, i as int),
                copy@ == labels_before(v, folds, pv, LabelKind::Copy, i as int),
            decreases n - i,
        {
            let start: usize = lines.len();
            assert(line_views(lines@).len() == start);
            if self.label_at(folds, LabelKind::Edit, i) {
                edit.push(start);
            }
            if self.label_at(folds, LabelKind::Remove, i) {
                remove.push(start);
            }
            if self.label_at(folds, LabelKind::Rerun, i) {
                rerun.push(start);
            }
            if self.label_at(folds, LabelKind::Copy, i) {
                copy.push(start);
            }
            if !self.is_in_group(folds, i) {
                let mut own: Vec<Line> = Vec::new();
                core::mem::swap(&mut own, &mut parts[i]);
                assert(line_views(own@) == pv[i as int]);
                append_lines(&mut lines, &mut own);
            } else {
                assert(line_views(lines@) + seq![] =~= line_views(lines@));
            }
            let end: usize = lines.len();
            assert(line_views(lines@).len() == end);
            ranges.push((start, end));
            i += 1;
        }
        append_lines(&mut lines, &mut tail);
        self.lines = lines;
        self.segment_line_ranges = ranges;
        self.edit_labels = edit;
        self.remove_labels = remove;
        self.rerun_labels = rerun;
        self.copy_labels = copy;
        let stays = match self.focused_segment {
            Some(k) => k < n,
            None => false,
        };
        if !stays {
            self.recompute_focused_segment(height);
        }
    }
}

// ── Laws ─────────────────────────────────────────────────────────────────────

proof fn lemma_ranges(
    v: ChatView,
    folds: bool,
    parts: Seq<Seq<Seq<SpanView>>>,
    n: int,
    i: int,
)
    requires
        0 <= i < n,
    ensures
        ranges_before(v, folds, parts, n).len() == n,
        ranges_before(v, folds, parts, n)[i] == (
            lines_before(v, folds, parts, i).len() as usize,
            lines_before(v, folds, parts, i + 1).len() as usize,
        ),
    decreases n,
{
    if n > 1 {
        lemma_ranges(v, folds, parts, n - 1, if i < n - 1 { i } else { 0 });
    } else {
        assert(ranges_before(v, folds, parts, 0).len() == 0);
    }
}

proof fn lemma_lines_grow(v: ChatView, folds: bool, parts: Seq<Seq<Seq<SpanView>>>, i: int, j: int)
    requires
        0 <= i <= j,
    ensures
        lines_before(v, folds, parts, i).len() <= lines_before(v, folds, parts, j).len(),
    decreases j,
{
    if i < j {
        lemma_lines_grow(v, folds, parts, i, j - 1);
    }
}

/// Every segment has a range, the ranges follow each other without a gap from
/// the first line on, and a result on its call's line takes up none.
pub proof fn law_ranges_are_contiguous(
    v: ChatView,
    folds: bool,
    parts: Seq<Seq<Seq<SpanView>>>,
    tail: Seq<Seq<SpanView>>,
    height: u16,
)
    requires
        parts.len() == v.segments.len(),
        displayed(v, folds, parts, tail, height).lines.len() <= usize::MAX,
    ensures
        ({
            let d = displayed(v, folds, parts, tail, height);
            let r = d.segment_line_ranges;
            &&& r.len() == v.segments.len()
            &&& r.len() > 0 ==> r[0].0 == 0 && r.last().1 + tail.len() == d.lines.len()
            &&& forall|i: int| 0 <= i < r.len() ==> (#[trigger] r[i]).0 <= r[i].1 <= d.lines.len()
            &&& forall|i: int, j: int|
                0 <= i && j == i + 1 && j < r.len() ==> (#[trigger] r[i]).1 == (#[trigger] r[j]).0
            &&& forall|i: int| 0 <= i < r.len() && v.in_group(folds, i) ==> (#[trigger] r[i]).0 == r[i].1
        }),
{
    let d = displayed(v, folds, parts, tail, height);
    let n = v.segments.len() as int;
    let r = d.segment_line_ranges;
    if n > 0 {
        lemma_ranges(v, folds, parts, n, 0);
        lemma_ranges(v, folds, parts, n, n - 1);
    }
    assert forall|i: int| 0 <= i < n implies {
        &&& (#[trigger] r[i]).0 == lines_before(v, folds, parts, i).len()
        &&& r[i].1 == lines_before(v, folds, parts, i + 1).len()
        &&& r[i].0 <= r[i].1 <= d.lines.len()
        &&& (v.in_group(folds, i) ==> r[i].0 == r[i].1)
    } by {
        lemma_ranges(v, folds, parts, n, i);
        lemma_lines_grow(v, folds, parts, i, i + 1);
        lemma_lines_grow(v, folds, parts, i + 1, n);
    }
}

/// A line inside a segment's range belongs to that segment and no other.
pub proof fn law_line_belongs_to_one_segment(
    v: ChatView,
    folds: bool,
    parts: Seq<Seq<Seq<SpanView>>>,
    tail: Seq<Seq<SpanView>>,
    height: u16,
    i: int,
    line: int,
)
    requires
        parts.len() == v.segments.len() <= usize::MAX,
        displayed(v, folds, parts, tail, height).lines.len() <= usize::MAX,
        0 <= i < v.segments.len(),
        ({
            let r = displayed(v, folds, parts, tail, height).segment_line_ranges[i];
            r.0 <= line < r.1
        }),
    ensures
        range_with(displayed(v, folds, parts, tail, height).segment_line_ranges, line, 0) == Some(
            i as usize,
        ),
{
    let d = displayed(v, folds, parts, tail, height);
    let r = d.segment_line_ranges;
    law_ranges_are_contiguous(v, folds, parts, tail, height);
    assert forall|j: int| 0 <= j < i implies (#[trigger] r[j]).1 <= r[i].0 by {
        lemma_ranges(v, folds, parts, v.segments.len() as int, j);
        lemma_ranges(v, folds, parts, v.segments.len() as int, i);
        lemma_lines_grow(v, folds, parts, j + 1, i);
        lemma_lines_grow(v, folds, parts, i, v.segments.len() as int);
    }
    lemma_first_range(r, line, 0, i);
}

proof fn lemma_first_range(ranges: Seq<(usize, usize)>, line: int, k: int, i: int)
    requires
        0 <= k <= i < ranges.len(),
        ranges[i].0 <= line < ranges[i].1,
        forall|j: int| k <= j < i ==> (#[trigger] ranges[j]).1 <= line,
    ensures
        range_with(ranges, line, k) == Some(i as usize),
    decreases i - k,
{
    if k < i {
        lemma_first_range(ranges, line, k + 1, i);
    }
}

} // verus!
