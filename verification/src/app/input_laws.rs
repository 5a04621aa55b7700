//! What the input promises of completions: when they are offered, which line and
//! which name they belong to, and where they are put; and how the box and the
//! conversation are brought into sight.

use vstd::prelude::*;

use crate::app::chat_state::ChatView;
use crate::app::editing::{lemma_offset, line_start, mention, position, row_down, row_up};
use crate::app::front::{AppView, EffectView};
use crate::app::input_state::{last_index, EditView, InputView};
use crate::app::queue_state::{model_label, ModelView};
use crate::app::session_manager::{EntryView, HeaderView};
use crate::app::session_switch::lemma_stashed;
use crate::app::steps_input::{
    completed_command, page_down, page_up, up_to_last_space, wheel_down, wheel_up,
};
use crate::app::ui_state::{OverlayView, UiView};
use crate::chat::preview::selection_text;
use crate::commands::parser::{parse_view, ParsedView};
use crate::text::{byte_len, is_space, trim, trim_end};

verus! {

// ── The line of the cursor ───────────────────────────────────────────────────

proof fn lemma_line_start(text: Seq<char>, from: int, k: int)
    requires
        0 <= from <= k <= text.len(),
        from == 0 || text[from - 1] == '\n',
        forall|i: int| from <= i < k ==> #[trigger] text[i] != '\n',
    ensures
        line_start(text, k) == from,
    decreases k - from,
{
    if k > from {
        assert(text[k - 1] != '\n');
        lemma_line_start(text, from, k - 1);
    }
}

proof fn lemma_at(text: Seq<char>, a: Seq<char>, b: Seq<char>)
    requires
        text == a + b,
    ensures
        position(text, byte_len(a)) == a.len(),
{
    assert(text.take(a.len() as int) =~= a);
    lemma_offset(text, a.len() as int);
}

/// The line of the cursor begins behind the line feed before it, or with the
/// text, and goes up to the cursor.
pub proof fn law_line_of_the_cursor(v: InputView, before: Seq<char>, line: Seq<char>, behind: Seq<char>)
    requires
        !line.contains('\n'),
        before.len() == 0 || before.last() == '\n',
        v.buffer == before + line + behind,
        v.cursor == byte_len(before + line),
    ensures
        v.command_line() == line,
        v.before_cursor() == before + line,
        line_start(v.buffer, position(v.buffer, v.cursor)) == before.len(),
{
    let k = (before + line).len() as int;
    lemma_at(v.buffer, before + line, behind);
    assert forall|i: int| before.len() <= i < k implies #[trigger] v.buffer[i] != '\n' by {
        assert(v.buffer[i] == line[i - before.len()]);
        assert(line.contains(line[i - before.len()]));
    }
    if before.len() > 0 {
        assert(v.buffer[before.len() - 1] == before.last());
    }
    lemma_line_start(v.buffer, before.len() as int, k);
    assert(v.buffer.subrange(before.len() as int, k) =~= line);
    assert(v.buffer.take(k) =~= before + line);
}

/// Completions are offered on a line that begins with a slash, in a text that
/// begins with one, and while a name is typed behind an `@`; elsewhere not.
pub proof fn law_completions_are_offered_where_they_fit(
    v: InputView,
    before: Seq<char>,
    line: Seq<char>,
    behind: Seq<char>,
)
    requires
        !line.contains('\n'),
        before.len() == 0 || before.last() == '\n',
        v.buffer == before + line + behind,
        v.cursor == byte_len(before + line),
    ensures
        v.wants_completion() <==> (line.len() > 0 && line[0] == '/') || (v.buffer.len() > 0
            && v.buffer[0] == '/') || mention(before + line) is Some,
{
    reveal(InputView::wants_completion);
    law_line_of_the_cursor(v, before, line, behind);
    reveal_strlit("/");
    assert("/"@ =~= seq!['/']);
    if line.len() > 0 {
        assert(line.take(1) =~= seq![line[0]]);
        assert(seq![line[0]][0] == line[0]);
        assert("/"@[0] == '/');
    }
    if v.buffer.len() > 0 {
        assert(v.buffer.take(1) =~= seq![v.buffer[0]]);
        assert(seq![v.buffer[0]][0] == v.buffer[0]);
        assert("/"@[0] == '/');
    }
}

proof fn lemma_last_at(s: Seq<char>, p: int)
    requires
        0 <= p < s.len(),
        s[p] == '@',
        forall|i: int| p < i < s.len() ==> #[trigger] s[i] != '@',
    ensures
        last_index(s, '@') == Some(p),
    decreases s.len(),
{
    if p < s.len() - 1 {
        assert(s[s.len() - 1] != '@');
        lemma_last_at(s.drop_last(), p);
    }
}

/// A name is typed behind an `@` that begins a word, as long as no white space
/// follows; an `@` within a word is none.
pub proof fn law_names_follow_an_at(before: Seq<char>, name: Seq<char>)
    requires
        !name.contains('@'),
        forall|i: int| 0 <= i < name.len() ==> !is_space(#[trigger] name[i]),
    ensures
        before.len() == 0 || is_space(before.last()) ==> mention(before + seq!['@'] + name) == Some(
            name,
        ),
        before.len() > 0 && !is_space(before.last()) ==> mention(before + seq!['@'] + name) is None,
        mention(before + seq!['@'] + name + seq![' ']) is None,
        mention(name) is None,
{
    let s = before + seq!['@'] + name;
    let p = before.len() as int;
    assert forall|i: int| p < i < s.len() implies #[trigger] s[i] != '@' by {
        assert(s[i] == name[i - p - 1]);
        assert(name.contains(name[i - p - 1]));
    }
    lemma_last_at(s, p);
    assert(s.skip(p + 1) =~= name);
    assert forall|i: int| p < i < s.len() implies !is_space(#[trigger] s[i]) by {
        assert(s[i] == name[i - p - 1]);
    }
    if p > 0 {
        assert(s[p - 1] == before.last());
    }
    let t = s + seq![' '];
    assert forall|i: int| p < i < t.len() implies #[trigger] t[i] != '@' by {
        if i < s.len() {
            assert(t[i] == s[i]);
        }
    }
    lemma_last_at(t, p);
    assert(is_space(t[t.len() - 1]));
    lemma_no_at(name);
}

proof fn lemma_no_at(s: Seq<char>)
    requires
        !s.contains('@'),
    ensures
        last_index(s, '@') is None,
    decreases s.len(),
{
    if s.len() > 0 {
        assert(s.contains(s[s.len() - 1]));
        assert forall|i: int| 0 <= i < s.drop_last().len() implies #[trigger] s.drop_last()[i] != '@' by {
            assert(s.contains(s[i]));
        }
        lemma_no_at(s.drop_last());
    }
}

// ── Putting a completion in ──────────────────────────────────────────────────

proof fn lemma_up_to_space(s: Seq<char>, head: int, k: int)
    requires
        0 < head <= k <= s.len(),
        s[head - 1] == ' ',
        forall|i: int| head <= i < k ==> #[trigger] s[i] != ' ',
    ensures
        up_to_last_space(s, k) == s.take(head),
    decreases k,
{
    if k > head {
        assert(s[k - 1] != ' ');
        lemma_up_to_space(s, head, k - 1);
    }
}

/// A completion of a later argument takes the place of what was typed of it;
/// what stands before it stays.
pub proof fn law_later_arguments_take_their_place(
    source: Seq<char>,
    command: Seq<char>,
    n: nat,
    head: Seq<char>,
    partial: Seq<char>,
    value: Seq<char>,
)
    requires
        n > 0,
        parse_view(source) == (ParsedView::CompletingArgs { command, arg_index: n, partial }),
        trim_end(source) == head + seq![' '] + partial,
        !partial.contains(' '),
    ensures
        completed_command(source, value) == Some(head + seq![' '] + value + seq![' ']),
{
    reveal_strlit(" ");
    assert(" "@ =~= seq![' ']);
    let body = head + seq![' '] + partial;
    let h = head.len() as int + 1;
    assert(body[h - 1] == ' ');
    assert forall|i: int| h <= i < body.len() implies #[trigger] body[i] != ' ' by {
        assert(body[i] == partial[i - h]);
        assert(partial.contains(partial[i - h]));
    }
    lemma_up_to_space(body, h, body.len() as int);
    assert(body.take(h) =~= head + seq![' ']);
    assert((head + seq![' ']) + value + seq![' '] =~= head + seq![' '] + value + seq![' ']);
}

/// A completed command takes the place of the text; on a line of its own below
/// others it takes the place of that line up to the cursor, and the cursor
/// stands behind it.
pub proof fn law_completed_command_takes_its_place(
    v: InputView,
    before: Seq<char>,
    line: Seq<char>,
    behind: Seq<char>,
    value: Seq<char>,
    cmd: Seq<char>,
)
    requires
        !line.contains('\n'),
        before.len() == 0 || before.last() == '\n',
        v.buffer == before + line + behind,
        v.cursor == byte_len(before + line),
    ensures
        ({
            let below = before.len() > 0 && line.len() > 0 && line[0] == '/';
            let r = v.completed(value);
            &&& below && completed_command(line, value) == Some(cmd) ==> r == Some(
                InputView {
                    buffer: before + cmd + behind,
                    cursor: byte_len(before + cmd),
                    ..v
                },
            )
            &&& below && completed_command(line, value) is None ==> r is None
            &&& !below && completed_command(v.buffer, value) == Some(cmd) ==> r == Some(
                InputView { buffer: cmd, cursor: byte_len(cmd), ..v },
            )
            &&& !below && completed_command(v.buffer, value) is None ==> r is None
        }),
{
    reveal(InputView::completed);
    law_line_of_the_cursor(v, before, line, behind);
    lemma_at(v.buffer, before + line, behind);
    reveal_strlit("/");
    assert("/"@ =~= seq!['/']);
    if line.len() > 0 {
        assert(line.take(1) =~= seq![line[0]]);
        assert(seq![line[0]][0] == line[0]);
        assert("/"@[0] == '/');
    }
    assert(v.buffer.take(before.len() as int) =~= before);
    assert(v.buffer.skip((before + line).len() as int) =~= behind);
}

/// Once a completion is put in, a text that is a command is sent, and another
/// one gets new completions. Without anything to complete, nothing changes.
#[verifier::rlimit(40)]
pub proof fn law_completed_command_is_sent(v: AppView, value: Seq<char>)
    ensures
        ({
            let put = v.input.completed(value);
            let r = v.completion_put(value);
            let next = if put is Some {
                AppView { input: put->0, ..v }
            } else {
                v
            };
            let t = trim(next.input.buffer);
            &&& t.len() > 0 && t[0] == '/' ==> r == next.submitted()
            &&& !(t.len() > 0 && t[0] == '/') ==> r.app == next
            &&& !(t.len() > 0 && t[0] == '/') && put is Some ==> r.effects == seq![
                EffectView::RefreshCompletions,
            ]
            &&& !(t.len() > 0 && t[0] == '/') && put is None ==> r.effects.len() == 0
        }),
{
    reveal(AppView::completion_put);
    reveal_strlit("/");
    assert("/"@ =~= seq!['/']);
    let put = v.input.completed(value);
    let next = if put is Some {
        AppView { input: put->0, ..v }
    } else {
        v
    };
    let t = trim(next.input.buffer);
    if t.len() > 0 {
        assert(t.take(1) =~= seq![t[0]]);
        assert(seq![t[0]][0] == t[0]);
        assert("/"@[0] == '/');
    }
    if !(t.len() > 0 && t[0] == '/') && put is Some {
        assert(v.completion_put(value).effects =~= seq![EffectView::RefreshCompletions]);
    }
}

/// The selected entry is the one that is put in, and nothing is offered any
/// more.
pub proof fn law_selected_completion_is_taken(v: AppView, o: OverlayView)
    requires
        v.ui.completion == Some(o),
        o.selected < o.items.len(),
    ensures
        v.completion_taken() == (AppView {
            ui: UiView { completion: None, ..v.ui },
            ..v
        }).completion_put(o.items[o.selected as int].value),
        (AppView { ui: UiView { completion: None, ..v.ui }, ..v }).completion_taken().app == (
        AppView { ui: UiView { completion: None, ..v.ui }, ..v }),
{
}

// ── Scrolling the box ────────────────────────────────────────────────────────

/// A page and the wheel move the box that is shown: that of the edit while there
/// is one, else the input. Its text stays.
pub proof fn law_shown_box_is_scrolled(v: AppView, up: bool)
    ensures
        ({
            let w = v.layout.input_inner_width as nat;
            let h = v.layout.input_inner_height as nat;
            let edits = v.edit.message_index is Some || v.edit.queue_index is Some;
            &&& edits ==> v.paged_up() == AppView {
                edit: EditView { scroll_offset: page_up(v.edit.scroll_offset, h), ..v.edit },
                ..v
            }
            &&& !edits ==> v.paged_up() == AppView {
                input: InputView { scroll_offset: page_up(v.input.scroll_offset, h), ..v.input },
                ..v
            }
            &&& edits ==> v.paged_down() == AppView {
                edit: EditView {
                    scroll_offset: page_down(v.edit.buffer, v.edit.scroll_offset, w, h),
                    ..v.edit
                },
                ..v
            }
            &&& !edits ==> v.paged_down() == AppView {
                input: InputView {
                    scroll_offset: page_down(v.input.buffer, v.input.scroll_offset, w, h),
                    ..v.input
                },
                ..v
            }
            &&& edits ==> v.wheeled(up) == AppView {
                edit: EditView { cursor: v.wheeled(up).edit.cursor, ..v.edit },
                ..v
            }
            &&& !edits ==> v.wheeled(up) == AppView {
                input: InputView { cursor: v.wheeled(up).input.cursor, ..v.input },
                ..v
            }
            &&& edits && up ==> v.wheeled(up).edit.cursor == wheel_up(
                v.edit.buffer,
                v.edit.cursor,
                w,
            )
            &&& edits && !up ==> v.wheeled(up).edit.cursor == wheel_down(
                v.edit.buffer,
                v.edit.cursor,
                w,
            )
            &&& !edits && up ==> v.wheeled(up).input.cursor == wheel_up(
                v.input.buffer,
                v.input.cursor,
                w,
            )
            &&& !edits && !up ==> v.wheeled(up).input.cursor == wheel_down(
                v.input.buffer,
                v.input.cursor,
                w,
            )
        }),
{
}

/// The wheel moves the cursor by a row, as the cursor keys do.
pub proof fn law_wheel_moves_by_a_row(text: Seq<char>, cursor: nat, width: nat)
    ensures
        row_up(text, cursor, width) matches Some(p) ==> wheel_up(text, cursor, width) == p,
        row_down(text, cursor, width) matches Some(p) ==> wheel_down(text, cursor, width) == p,
        width == 0 ==> wheel_up(text, cursor, width) == cursor && wheel_down(text, cursor, width)
            == cursor,
{
}

// ── Bringing segments into sight ─────────────────────────────────────────────

/// A segment that was folded or unfolded is highlighted. Where it begins above
/// what can be seen, the chat goes there; it never stays past its end.
pub proof fn law_folded_segment_stays_in_sight(v: AppView, i: usize)
    requires
        v.chat.lines.len() < 0x10000,
        i < v.chat.segment_line_ranges.len(),
        v.chat.segment_line_ranges[i as int].0 < 0x10000,
    ensures
        ({
            let r = v.segment_shown(i);
            let first = v.chat.segment_line_ranges[i as int].0;
            let end = if v.chat.lines.len() > v.layout.chat_height {
                v.chat.lines.len() - v.layout.chat_height
            } else {
                0
            };
            let at = v.chat.scroll_offset;
            &&& r.chat.focused_segment == Some(i)
            &&& r.chat.scroll_offset <= end
            &&& r.chat.scroll_offset <= first || r.chat.scroll_offset <= at
            &&& first < at && first < end ==> r.chat.scroll_offset == first
            &&& first >= at && at <= end ==> r.chat.scroll_offset == at
            &&& first >= end && at > end ==> r.chat.scroll_offset == end
            &&& r == AppView {
                chat: ChatView {
                    scroll_offset: r.chat.scroll_offset,
                    focused_segment: Some(i),
                    ..v.chat
                },
                ..v
            }
        }),
{
}

/// A segment that gets the highlight comes into sight, whole where it fits; the
/// chat does not move where it is in sight already, and no longer follows new
/// content.
pub proof fn law_highlight_comes_into_sight(v: AppView, i: usize)
    requires
        !v.nvim.bridge,
        v.chat.focused_segment == Some(i),
        i + 1 < v.chat.segments.len() <= usize::MAX,
        v.chat.segment_line_ranges.len() == v.chat.segments.len(),
        v.chat.segment_line_ranges[i + 1].0 <= v.chat.segment_line_ranges[i + 1].1 < 0x10000,
    ensures
        ({
            let w = v.highlight_down();
            let (start, end) = v.chat.segment_line_ranges[i + 1];
            let height = v.layout.chat_height;
            let at = w.chat.scroll_offset;
            &&& end - start <= height ==> at <= start && end <= at + height
            &&& v.chat.scroll_offset <= start && end <= v.chat.scroll_offset + height ==> at
                == v.chat.scroll_offset
            &&& !w.chat.auto_scroll
            &&& w == AppView {
                chat: ChatView {
                    focused_segment: Some((i + 1) as usize),
                    scroll_offset: at,
                    auto_scroll: false,
                    ..v.chat
                },
                ..v
            }
        }),
{
}

/// What is selected is the text between the two ends of the selection, in
/// whichever direction it was drawn.
pub proof fn law_selected_text_is_between_the_ends(v: AppView, a: (usize, u16), b: (usize, u16))
    requires
        v.chat.selection_anchor == Some(a),
        v.chat.selection_end == Some(b),
    ensures
        ({
            let first = a.0 < b.0 || (a.0 == b.0 && a.1 <= b.1);
            &&& first ==> v.selected_text() == selection_text(
                v.chat.lines,
                (a.0 as int, a.1 as int),
                (b.0 as int, b.1 as int),
            )
            &&& !first ==> v.selected_text() == selection_text(
                v.chat.lines,
                (b.0 as int, b.1 as int),
                (a.0 as int, a.1 as int),
            )
        }),
{
}

/// In the editor the top is reached by its keys, and the bottom by following.
pub proof fn law_editor_is_led_to_the_ends(v: AppView)
    requires
        v.nvim.bridge,
    ensures
        v.at_top().app == v,
        v.at_top().effects == seq![EffectView::EditorInput("gg"@)],
        v.following().app == (AppView { chat: ChatView { auto_scroll: true, ..v.chat }, ..v }),
        v.following().effects == seq![EffectView::ScrollToBottom, EffectView::EditorToBottom],
{
    assert(v.at_top().effects =~= seq![EffectView::EditorInput("gg"@)]);
    assert(v.following().effects =~= seq![EffectView::ScrollToBottom, EffectView::EditorToBottom]);
}

/// The chat follows new content to its end, unless the user has scrolled away or
/// the editor shows it.
pub proof fn law_chat_follows_new_content(v: AppView)
    requires
        v.chat.lines.len() < 0x10000,
    ensures
        ({
            let r = v.settled();
            let end = if v.chat.lines.len() > v.layout.chat_height {
                v.chat.lines.len() - v.layout.chat_height
            } else {
                0
            };
            &&& v.chat.auto_scroll && !v.nvim.bridge ==> r.chat.scroll_offset == end
            &&& !v.chat.auto_scroll || v.nvim.bridge ==> r == v
            &&& r.chat.segments == v.chat.segments
            &&& r.input == v.input
        }),
{
}

// ── Sessions ─────────────────────────────────────────────────────────────────

/// A session that is left keeps all that is on the screen: the conversation, what
/// was typed and attached, what was queued, the model and the mode, and what the
/// agent was doing.
#[verifier::rlimit(40)]
pub proof fn law_left_session_keeps_all(v: AppView, now: i64)
    requires
        v.sessions.has(v.sessions.active_id),
        v.input.cursor <= usize::MAX,
    ensures
        ({
            let e = v.left(now).sessions.entry(v.sessions.active_id);
            &&& e.stored_chat == Some(v.chat)
            &&& e.stored_input_buffer == Some(v.input.buffer)
            &&& e.stored_input_cursor matches Some(c) && c == v.input.cursor
            &&& e.stored_input_attachments == Some(v.input.attachments)
            &&& e.stored_queue == Some(v.queue)
            &&& e.session_state == Some(v.session)
            &&& e.title == v.chat_title
            &&& e.yaml_path == v.yaml_path
            &&& e.jsonl_path == v.jsonl_path
            &&& e.busy == v.agent.busy
            &&& e.current_tool == v.agent.current_tool
            &&& e.total_output_tokens == v.agent.total_output_tokens
            &&& e.total_context_tokens == v.agent.total_context_tokens
            &&& e.updated_at == now
        }),
{
    reveal(AppView::left);
    lemma_stashed(v.sessions, v.live(), now, v.sessions.active_id);
}

/// What a saved chat says of itself is taken over, and nothing else; once a
/// session is active nothing of it is kept aside.
pub proof fn law_saved_chat_refreshes_its_entry(e: EntryView, h: HeaderView)
    ensures
        e.refreshed(h).title == h.title,
        e.refreshed(h).status == h.status,
        e.refreshed(h).created_at == h.created_at,
        e.refreshed(h).updated_at == h.updated_at,
        e.refreshed(h).id == e.id,
        e.refreshed(h).yaml_path == e.yaml_path,
        e.unstashed().stored_chat is None,
        e.unstashed().stored_queue is None,
        e.unstashed().stored_input_buffer is None,
        e.unstashed().stored_input_cursor is None,
        e.unstashed().stored_input_attachments is None,
        e.unstashed().session_state is None,
        e.unstashed().title == e.title,
        e.unstashed().busy == e.busy,
{
}

/// A model is called by its provider and its name, with a slash between them.
pub proof fn law_models_are_called_by_their_provider(m: ModelView)
    ensures
        model_label(m) == m.provider + seq!['/'] + m.name,
{
    reveal_strlit("/");
    assert("/"@ =~= seq!['/']);
}

} // verus!
