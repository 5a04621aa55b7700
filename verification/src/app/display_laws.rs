//! What the chat pane promises: how wide its lines are, what each segment is
//! drawn from, where its lines and labels stand, and what is shown of an answer
//! that is being received.

use vstd::prelude::*;

use crate::app::chat_state::ChatView;
use crate::app::display::{
    displayed, drawn, drawn_tail, has_label, labels_before, lines_before, ranges_before, squeezed,
    streaming_tail, text_columns, FaceView, LabelKind, PlanView,
};
use crate::chat::markdown::{bar_color, collapsed_markdown, segment_markdown};
use crate::chat::preview::shortened;
use crate::chat::segment::{ContentView, FunctionCallView, MessageView, Role, SegmentView};
use crate::chat::tools::{is_paired, partial_text, rich_lines, rich_plan, RichPlanView, ToolTheme};
use crate::style::{colored, Color, SpanView};
use crate::text::is_space;

verus! {

// ── Widths ───────────────────────────────────────────────────────────────────

/// A line has the columns of the pane without the bar and without ten for the
/// labels, where there are labels; at least twenty, and at most the chosen width.
pub proof fn law_lines_fill_the_pane(inner: u16, bar: int, labels: bool, wrap: u16)
    requires
        bar >= 0,
    ensures
        ({
            let left = inner - bar - (if labels {
                10int
            } else {
                0
            });
            let r = text_columns(inner, bar, labels, wrap);
            &&& wrap == 0 && left >= 20 ==> r == left
            &&& wrap == 0 && left < 20 ==> r == 20
            &&& wrap > 0 && wrap <= left ==> r == wrap
            &&& wrap > left && left >= 20 ==> r == left
            &&& wrap >= 20 && left < 20 ==> r == 20
            &&& 0 < wrap < 20 ==> r == wrap
        }),
{
}

// ── What a segment is drawn from ─────────────────────────────────────────────

/// A folded call and the result right behind it share a line: nothing is drawn
/// for the result. In the editor nothing is folded.
pub proof fn law_folded_call_takes_its_result(v: ChatView, i: int)
    requires
        0 <= i < v.segments.len() - 1,
        is_paired(v.segments, i),
        i > 0 ==> !is_paired(v.segments, i - 1),
    ensures
        v.level(i) == 0 ==> {
            &&& v.plan_at(true, i + 1) == PlanView::Grouped
            &&& v.plan_at(true, i) != PlanView::Grouped
        },
        v.level(i) > 0 ==> v.plan_at(true, i + 1) != PlanView::Grouped,
        v.plan_at(false, i) != PlanView::Grouped,
        v.plan_at(false, i + 1) != PlanView::Grouped,
{
}

/// A text or a thought is drawn from its Markdown: one line while it is folded,
/// at most twelve at the middle level, and whole otherwise. The editor shows it
/// whole.
pub proof fn law_texts_are_drawn_by_level(v: ChatView, i: int, role: Role, t: Seq<char>)
    requires
        0 <= i < v.segments.len(),
        v.segments[i] == SegmentView::Message(
            (MessageView { role, content: ContentView::Text(t) }),
        ) || v.segments[i] == (SegmentView::Thinking { content: t }),
    ensures
        ({
            let seg = v.segments[i];
            let whole = segment_markdown(seg, v.tool_args);
            &&& v.level(i) == 0 ==> v.plan_at(true, i) == PlanView::Markdown(
                collapsed_markdown(seg, v.tool_args),
            )
            &&& v.level(i) == 1 ==> v.plan_at(true, i) == PlanView::Markdown(partial_text(whole, 12))
            &&& v.level(i) >= 2 ==> v.plan_at(true, i) == PlanView::Markdown(whole)
            &&& v.plan_at(false, i) == PlanView::Markdown(whole)
        }),
{
}

/// A call of the assistant is drawn by the tool renderer, with the result that
/// shares its line.
pub proof fn law_calls_are_drawn_by_the_renderer(
    v: ChatView,
    i: int,
    id: Seq<char>,
    f: FunctionCallView,
)
    requires
        0 <= i < v.segments.len(),
        v.segments[i] == SegmentView::Message(
            (MessageView {
                role: Role::Assistant,
                content: ContentView::ToolCall { tool_call_id: id, function: f },
            }),
        ),
    ensures
        ({
            let seg = v.segments[i];
            &&& v.level(i) == 0 && is_paired(v.segments, i) ==> v.plan_at(true, i)
                == PlanView::Rich(rich_plan(seg, Some(v.segments[i + 1]), 0, v.tool_args))
            &&& v.level(i) == 0 && !is_paired(v.segments, i) ==> v.plan_at(true, i)
                == PlanView::Rich(RichPlanView::CollapsedCall)
            &&& v.level(i) > 0 ==> v.plan_at(true, i) == PlanView::Rich(
                RichPlanView::ExpandedCall(None),
            )
            &&& v.plan_at(false, i) == PlanView::Rich(RichPlanView::ExpandedCall(None))
        }),
{
}

/// Rendered Markdown is drawn behind the bar of its segment, line by line; the
/// lines of a tool are drawn as the renderer offers them, and a result on the
/// line of its call not at all.
pub proof fn law_segments_are_drawn(
    seg: SegmentView,
    lines: Seq<Seq<SpanView>>,
    faces: crate::chat::tools::ToolFacesView,
    rich: RichPlanView,
    face: FaceView,
    text: Seq<char>,
    bar: Seq<char>,
    theme: ToolTheme,
    i: int,
)
    requires
        0 <= i < lines.len(),
    ensures
        ({
            let r = drawn(seg, PlanView::Markdown(text), FaceView::Rendered(lines), bar, theme);
            let tool = drawn(seg, PlanView::Rich(rich), FaceView::Tool(faces), bar, theme);
            &&& r.len() == lines.len()
            &&& bar_color(seg) matches Some(c) ==> r[i] == seq![
                SpanView { content: bar, style: colored(c) },
            ] + lines[i]
            &&& bar_color(seg) is None ==> r[i] == lines[i]
            &&& rich_lines(rich, faces, bar, theme) matches Some(l) ==> tool == l
            &&& drawn(seg, PlanView::Grouped, face, bar, theme).len() == 0
        }),
{
    crate::chat::format_laws::law_bars_come_first(
        lines[i],
        colored(
            match bar_color(seg) {
                Some(c) => c,
                None => Color::Blue,
            },
        ),
        bar,
    );
}

// ── The lines of the pane ────────────────────────────────────────────────────

proof fn lemma_lines_stay(
    v: ChatView,
    folds: bool,
    parts: Seq<Seq<Seq<SpanView>>>,
    n: int,
    m: int,
)
    requires
        0 <= n <= m,
    ensures
        lines_before(v, folds, parts, n).len() <= lines_before(v, folds, parts, m).len(),
        lines_before(v, folds, parts, m).subrange(
            0,
            lines_before(v, folds, parts, n).len() as int,
        ) == lines_before(v, folds, parts, n),
    decreases m - n,
{
    let a = lines_before(v, folds, parts, n);
    let b = lines_before(v, folds, parts, m);
    if n == m {
        assert(b.subrange(0, b.len() as int) =~= b);
    } else {
        let c = lines_before(v, folds, parts, m - 1);
        lemma_lines_stay(v, folds, parts, n, m - 1);
        assert(b.subrange(0, a.len() as int) =~= c.subrange(0, a.len() as int));
    }
}

proof fn lemma_ranges(v: ChatView, folds: bool, parts: Seq<Seq<Seq<SpanView>>>, n: int, i: int)
    requires
        0 <= i < n,
    ensures
        ranges_before(v, folds, parts, n).len() == n,
        ranges_before(v, folds, parts, n)[i] == (
            lines_before(v, folds, parts, i).len() as usize,
            lines_before(v, folds, parts, i + 1).len() as usize,
        ),
    decreases n,
{
    if n > 1 {
        if i < n - 1 {
            lemma_ranges(v, folds, parts, n - 1, i);
        } else {
            lemma_ranges(v, folds, parts, n - 1, 0);
        }
    } else {
        assert(ranges_before(v, folds, parts, 0).len() == 0);
    }
}

/// The lines of a segment stand where its range says, all of them and in order;
/// a result on the line of its call has none. What is being received comes last.
pub proof fn law_lines_stand_in_their_ranges(
    v: ChatView,
    folds: bool,
    parts: Seq<Seq<Seq<SpanView>>>,
    tail: Seq<Seq<SpanView>>,
    height: u16,
    i: int,
)
    requires
        parts.len() == v.segments.len(),
        0 <= i < v.segments.len(),
        displayed(v, folds, parts, tail, height).lines.len() <= usize::MAX,
    ensures
        ({
            let d = displayed(v, folds, parts, tail, height);
            let r = d.segment_line_ranges[i];
            let grouped = v.plan_at(folds, i) == PlanView::Grouped;
            &&& r.0 <= r.1 <= d.lines.len()
            &&& !grouped ==> d.lines.subrange(r.0 as int, r.1 as int) == parts[i]
            &&& grouped ==> r.0 == r.1
            &&& tail.len() <= d.lines.len()
            &&& d.lines.subrange(d.lines.len() - tail.len(), d.lines.len() as int) == tail
            &&& d.segments == v.segments
            &&& d.scroll_offset == v.scroll_offset
        }),
{
    let n = v.segments.len() as int;
    let d = displayed(v, folds, parts, tail, height);
    let all = lines_before(v, folds, parts, n);
    let a = lines_before(v, folds, parts, i);
    let b = lines_before(v, folds, parts, i + 1);
    lemma_ranges(v, folds, parts, n, i);
    lemma_lines_stay(v, folds, parts, i + 1, n);
    lemma_lines_stay(v, folds, parts, i, i + 1);
    assert(d.lines == all + tail);
    assert(d.lines.subrange(0, b.len() as int) =~= all.subrange(0, b.len() as int));
    assert(d.lines.subrange(a.len() as int, b.len() as int) =~= b.subrange(
        a.len() as int,
        b.len() as int,
    ));
    let own = crate::app::display::own_lines(v, folds, parts, i);
    assert(b == a + own);
    assert(b.subrange(a.len() as int, b.len() as int) =~= own);
    assert(d.lines.subrange(d.lines.len() - tail.len(), d.lines.len() as int) =~= tail);
}

proof fn lemma_labels(
    v: ChatView,
    folds: bool,
    parts: Seq<Seq<Seq<SpanView>>>,
    kind: LabelKind,
    n: int,
    i: int,
)
    requires
        0 <= i < n,
        has_label(v, folds, kind, i),
    ensures
        labels_before(v, folds, parts, kind, n).contains(
            lines_before(v, folds, parts, i).len() as usize,
        ),
    decreases n,
{
    let line = lines_before(v, folds, parts, i).len() as usize;
    let init = labels_before(v, folds, parts, kind, n - 1);
    if i < n - 1 {
        lemma_labels(v, folds, parts, kind, n - 1, i);
        let k = choose|k: int| 0 <= k < init.len() && init[k] == line;
        assert(labels_before(v, folds, parts, kind, n)[k] == line);
    } else {
        assert(labels_before(v, folds, parts, kind, n).last() == line);
    }
}

/// An unfolded or highlighted segment has its labels on its first line: one to
/// copy it, and those to edit, to remove and to run it again where it allows
/// that. A folded pane in the editor has none.
pub proof fn law_labels_stand_at_the_first_line(
    v: ChatView,
    parts: Seq<Seq<Seq<SpanView>>>,
    tail: Seq<Seq<SpanView>>,
    height: u16,
    i: int,
)
    requires
        parts.len() == v.segments.len(),
        0 <= i < v.segments.len(),
        v.plan_at(true, i) != PlanView::Grouped,
        v.level(i) >= 1 || v.focused_segment == Some(i as usize),
    ensures
        ({
            let d = displayed(v, true, parts, tail, height);
            let first = d.segment_line_ranges[i].0;
            let seg = v.segments[i];
            let text = seg matches SegmentView::Message(m) && m.content is Text && (m.role is User
                || m.role is Assistant);
            &&& d.copy_labels.contains(first)
            &&& text ==> d.edit_labels.contains(first)
            &&& seg is Message || seg is Thinking ==> d.remove_labels.contains(first)
            &&& seg matches SegmentView::Message(m) ==> (m.role is Assistant || m.role is Tool
                ==> d.rerun_labels.contains(first))
        }),
{
    let n = v.segments.len() as int;
    let seg = v.segments[i];
    lemma_ranges(v, true, parts, n, i);
    lemma_labels(v, true, parts, LabelKind::Copy, n, i);
    if has_label(v, true, LabelKind::Edit, i) {
        lemma_labels(v, true, parts, LabelKind::Edit, n, i);
    }
    if has_label(v, true, LabelKind::Remove, i) {
        lemma_labels(v, true, parts, LabelKind::Remove, n, i);
    }
    if has_label(v, true, LabelKind::Rerun, i) {
        lemma_labels(v, true, parts, LabelKind::Rerun, n, i);
    }
}

/// A label of a kind stands beside a segment that may have it: one that is not on
/// the line of its call, and is unfolded or highlighted.
pub open spec fn stands_beside(v: ChatView, d: ChatView, label: usize, i: int) -> bool {
    &&& 0 <= i < v.segments.len()
    &&& d.segment_line_ranges[i].0 == label
    &&& v.plan_at(true, i) != PlanView::Grouped
    &&& v.level(i) >= 1 || v.focused_segment == Some(i as usize)
}

proof fn lemma_label_of(
    v: ChatView,
    parts: Seq<Seq<Seq<SpanView>>>,
    kind: LabelKind,
    n: int,
    k: int,
) -> (i: int)
    requires
        0 <= n <= v.segments.len(),
        parts.len() == v.segments.len(),
        0 <= k < labels_before(v, true, parts, kind, n).len(),
    ensures
        0 <= i < n,
        has_label(v, true, kind, i),
        labels_before(v, true, parts, kind, n)[k] == lines_before(v, true, parts, i).len() as usize,
    decreases n,
{
    if n <= 0 {
        0
    } else {
        let init = labels_before(v, true, parts, kind, n - 1);
        if k < init.len() {
            lemma_label_of(v, parts, kind, n - 1, k)
        } else {
            n - 1
        }
    }
}

/// Labels stand beside segments that allow what they are for, and nowhere else:
/// texts of the user and the assistant can be edited, messages and thoughts
/// removed, and answers run again.
pub proof fn law_labels_offer_what_is_allowed(
    v: ChatView,
    parts: Seq<Seq<Seq<SpanView>>>,
    tail: Seq<Seq<SpanView>>,
    height: u16,
    k: int,
)
    requires
        parts.len() == v.segments.len(),
        0 <= k,
    ensures
        ({
            let d = displayed(v, true, parts, tail, height);
            &&& k < d.copy_labels.len() ==> exists|i: int|
                #[trigger] stands_beside(v, d, d.copy_labels[k], i)
            &&& k < d.edit_labels.len() ==> exists|i: int|
                #[trigger] stands_beside(v, d, d.edit_labels[k], i) && v.segments[i] is Message
                    && v.segments[i]->Message_0.content is Text && (
                v.segments[i]->Message_0.role is User
                    || v.segments[i]->Message_0.role is Assistant)
            &&& k < d.remove_labels.len() ==> exists|i: int|
                #[trigger] stands_beside(v, d, d.remove_labels[k], i) && (v.segments[i] is Message
                    || v.segments[i] is Thinking)
            &&& k < d.rerun_labels.len() ==> exists|i: int|
                #[trigger] stands_beside(v, d, d.rerun_labels[k], i) && v.segments[i] is Message
                    && (v.segments[i]->Message_0.role is Assistant
                    || v.segments[i]->Message_0.role is Tool)
        }),
{
    let n = v.segments.len() as int;
    let d = displayed(v, true, parts, tail, height);
    if k < d.copy_labels.len() {
        let i = lemma_label_of(v, parts, LabelKind::Copy, n, k);
        lemma_ranges(v, true, parts, n, i);
        assert(stands_beside(v, d, d.copy_labels[k], i));
    }
    if k < d.edit_labels.len() {
        let i = lemma_label_of(v, parts, LabelKind::Edit, n, k);
        lemma_ranges(v, true, parts, n, i);
        assert(stands_beside(v, d, d.edit_labels[k], i));
    }
    if k < d.remove_labels.len() {
        let i = lemma_label_of(v, parts, LabelKind::Remove, n, k);
        lemma_ranges(v, true, parts, n, i);
        assert(stands_beside(v, d, d.remove_labels[k], i));
    }
    if k < d.rerun_labels.len() {
        let i = lemma_label_of(v, parts, LabelKind::Rerun, n, k);
        lemma_ranges(v, true, parts, n, i);
        assert(stands_beside(v, d, d.rerun_labels[k], i));
    }
}

proof fn lemma_no_labels(
    v: ChatView,
    folds: bool,
    parts: Seq<Seq<Seq<SpanView>>>,
    kind: LabelKind,
    n: int,
)
    requires
        n >= 0,
        forall|i: int| 0 <= i < n ==> !has_label(v, folds, kind, i),
    ensures
        labels_before(v, folds, parts, kind, n).len() == 0,
    decreases n,
{
    if n > 0 {
        lemma_no_labels(v, folds, parts, kind, n - 1);
        assert(!has_label(v, folds, kind, n - 1));
    }
}

/// Where the editor shows the conversation there are no labels.
pub proof fn law_editor_has_no_labels(
    v: ChatView,
    parts: Seq<Seq<Seq<SpanView>>>,
    tail: Seq<Seq<SpanView>>,
    height: u16,
)
    ensures
        ({
            let d = displayed(v, false, parts, tail, height);
            &&& d.edit_labels.len() == 0
            &&& d.remove_labels.len() == 0
            &&& d.rerun_labels.len() == 0
            &&& d.copy_labels.len() == 0
        }),
{
    let n = v.segments.len() as int;
    lemma_no_labels(v, false, parts, LabelKind::Edit, n);
    lemma_no_labels(v, false, parts, LabelKind::Remove, n);
    lemma_no_labels(v, false, parts, LabelKind::Rerun, n);
    lemma_no_labels(v, false, parts, LabelKind::Copy, n);
}

/// A highlight on a segment stays when the pane is drawn.
pub proof fn law_highlight_outlasts_drawing(
    v: ChatView,
    folds: bool,
    parts: Seq<Seq<Seq<SpanView>>>,
    tail: Seq<Seq<SpanView>>,
    height: u16,
    i: usize,
)
    requires
        v.focused_segment == Some(i),
        i < v.segments.len(),
    ensures
        displayed(v, folds, parts, tail, height).focused_segment == Some(i),
{
}

// ── What is being received ───────────────────────────────────────────────────

/// Between the words of a thought stands one space, whatever stood there, and
/// none stands around them; the characters of the words stay, in their order.
pub proof fn law_words_are_one_space_apart(s: Seq<char>, c: char)
    ensures
        squeezed(seq![]) == Seq::<char>::empty(),
        is_space(c) ==> squeezed(s.push(c)) == squeezed(s),
        !is_space(c) && s.len() > 0 && is_space(s.last()) && squeezed(s).len() > 0 ==> squeezed(
            s.push(c),
        ) == squeezed(s) + seq![' ', c],
        !is_space(c) && s.len() > 0 && is_space(s.last()) && squeezed(s).len() == 0 ==> squeezed(
            s.push(c),
        ) == seq![c],
        !is_space(c) && (s.len() == 0 || !is_space(s.last())) ==> squeezed(s.push(c)) == squeezed(
            s,
        ) + seq![c],
{
    assert(s.push(c).drop_last() =~= s);
    if !is_space(c) {
        assert(squeezed(s).push(' ').push(c) =~= squeezed(s) + seq![' ', c]);
        assert(squeezed(s).push(c) =~= squeezed(s) + seq![c]);
        if squeezed(s).len() == 0 {
            assert(squeezed(s).push(c) =~= seq![c]);
        }
    }
}

/// An answer that is being received is shown below the segments as far as it
/// has come, with a cursor; a thought is shown on one line of at most eighty
/// columns. While nothing is received nothing is shown.
pub proof fn law_received_text_is_shown(v: ChatView, think: Seq<char>, mark: Seq<char>)
    ensures
        ({
            let r = streaming_tail(v, think, mark);
            let line = think + " **Seasoning**  "@ + mark + "  `"@ + shortened(
                squeezed(v.streaming_buffer),
                80,
            ) + "`"@;
            let answer = "**Agent:** "@ + v.streaming_buffer + mark;
            &&& v.streaming_buffer.len() == 0 ==> r is None
            &&& v.streaming_buffer.len() > 0 ==> r is Some
            &&& v.streaming_buffer.len() > 0 && !v.streaming_is_thinking && v.segments.len() == 0
                ==> r->0 == answer
            &&& v.streaming_buffer.len() > 0 && !v.streaming_is_thinking && v.segments.len() > 0
                ==> r->0 == seq!['\n'] + answer
            &&& v.streaming_buffer.len() > 0 && v.streaming_is_thinking && v.segments.len() == 0
                ==> r->0 == line
            &&& v.streaming_buffer.len() > 0 && v.streaming_is_thinking && v.segments.len() > 0
                ==> r->0 == seq!['\n'] + line
        }),
{
    reveal_strlit("\n");
    assert("\n"@ =~= seq!['\n']);
    let line = think + " **Seasoning**  "@ + mark + "  `"@ + shortened(
        squeezed(v.streaming_buffer),
        80,
    ) + "`"@;
    let answer = "**Agent:** "@ + v.streaming_buffer + mark;
    if v.streaming_buffer.len() > 0 {
        let r = streaming_tail(v, think, mark)->0;
        if v.streaming_is_thinking {
            if v.segments.len() == 0 {
                assert(r =~= line);
            } else {
                assert(r =~= seq!['\n'] + line);
            }
        } else if v.segments.len() == 0 {
            assert(r =~= answer);
        } else {
            assert(r =~= seq!['\n'] + answer);
        }
    }
}

/// What is being received stands behind the bar of a thought or of an answer.
pub proof fn law_received_lines_stand_behind_their_bar(
    v: ChatView,
    lines: Seq<Seq<SpanView>>,
    bar: Seq<char>,
    i: int,
)
    requires
        0 <= i < lines.len(),
    ensures
        drawn_tail(v, lines, bar).len() == lines.len(),
        v.streaming_is_thinking ==> drawn_tail(v, lines, bar)[i] == seq![
            SpanView { content: bar, style: colored(Color::Magenta) },
        ] + lines[i],
        !v.streaming_is_thinking ==> drawn_tail(v, lines, bar)[i] == seq![
            SpanView { content: bar, style: colored(Color::Blue) },
        ] + lines[i],
{
    crate::chat::format_laws::law_bars_come_first(lines[i], colored(Color::Magenta), bar);
    crate::chat::format_laws::law_bars_come_first(lines[i], colored(Color::Blue), bar);
}

} // verus!
