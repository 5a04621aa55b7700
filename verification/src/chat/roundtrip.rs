//! Writing a conversation and parsing it back gives the messages again.

use vstd::prelude::*;

use crate::chat::markdown::{
    conversation_markdown, message_markdown, segments_markdown, shown_arguments, tool_name, trim_newlines,
};
use crate::chat::parse::{
    block_at, block_of, blanks, display_name, drop_blank_front, ends_name_search, fence_at,
    header_id, inline_text, is_blank, is_fence, is_header, message_at, messages_from, name_above,
    text_message, text_of_parts, text_parts, text_stop,
};
use crate::chat::segment::{ContentView, FunctionCallView, MessageView, Role, SegmentView};
use crate::text::{
    has_prefix, is_space, is_trimmed, lemma_join_split, lemma_line_end, lemma_line_end_is,
    lemma_lines_of_concat, lemma_prefix_of_concat, lemma_split_single, lemma_suffix_of_concat,
    lemma_trim_fixpoint, lemma_trim_prefixed, line_end, lines, split_lines, strip_cr, trim,
    trim_end,
};

verus! {

// ── The messages that survive ────────────────────────────────────────────────

/// A text that its lines give back: the first and the last line are not blank,
/// no later line reads as a header, and no line ends in a carriage return.
pub open spec fn plain_text(t: Seq<char>) -> bool {
    let p = split_lines(t);
    t.len() == 0 || {
        &&& !is_blank(p[0])
        &&& !is_blank(p.last())
        &&& forall|k: int| 0 < k < p.len() ==> !is_header(trim(#[trigger] p[k]))
        &&& no_returns(p)
    }
}

/// No line ends in a carriage return.
pub open spec fn no_returns(p: Seq<Seq<char>>) -> bool {
    forall|k: int| 0 <= k < p.len() && p[k].len() > 0 ==> (#[trigger] p[k]).last() != '\r'
}

/// A text that a code block gives back: no line is a fence or ends in a
/// carriage return.
pub open spec fn plain_block(c: Seq<char>) -> bool {
    let p = split_lines(c);
    &&& no_returns(p)
    &&& forall|k: int| 0 <= k < p.len() ==> !is_fence(#[trigger] p[k])
}

/// A word that a header gives back: one line without white space at its ends.
pub open spec fn plain_word(w: Seq<char>) -> bool {
    !w.contains('\n') && is_trimmed(w)
}

/// The display line of a tool call.
pub open spec fn call_line(name: Seq<char>) -> Seq<char> {
    "🔧 **Tool Call: "@ + name + "**"@
}

/// The display lines of a tool result.
pub open spec fn response_lines(name: Seq<char>) -> Seq<Seq<char>> {
    bare_lines("✅ **Tool Response: "@ + name + "**"@)
}

/// The lines of `s` as a reader sees them.
pub open spec fn bare_lines(s: Seq<char>) -> Seq<Seq<char>> {
    split_lines(s).map_values(|l: Seq<char>| strip_cr(l))
}

/// The lines of a tool call below its header.
pub open spec fn call_lines(name: Seq<char>, arguments: Seq<char>) -> Seq<Seq<char>> {
    seq![call_line(name), "```json"@] + bare_lines(shown_arguments(arguments)) + seq!["```"@]
}

/// The messages that can be read back from their Markdown form: those that are
/// shown at all, and whose parts do not read as something else.
pub open spec fn recoverable(m: MessageView, names: Map<Seq<char>, Seq<char>>) -> bool {
    match (m.role, m.content) {
        (Role::User, ContentView::Text(t)) => plain_text(t),
        (Role::Assistant, ContentView::Text(t)) => plain_text(t),
        (Role::System, ContentView::Text(t)) => plain_text(t),
        (Role::Assistant, ContentView::ToolCall { tool_call_id, function }) => {
            let below = call_lines(function.name, function.arguments);
            &&& plain_word(tool_call_id)
            &&& plain_word(function.name)
            &&& plain_block(shown_arguments(function.arguments))
            &&& name_above(below, below.len() as int) == Some(function.name)
        },
        (Role::Tool, ContentView::ToolResult { tool_call_id, content }) => {
            let shown = response_lines(tool_name(names, tool_call_id));
            &&& plain_word(tool_call_id)
            &&& plain_block(content)
            &&& forall|k: int| 0 <= k < shown.len() ==> !is_fence(#[trigger] shown[k])
        },
        _ => false,
    }
}

/// A message as it comes back: the arguments of a tool call in the form in
/// which they are shown.
pub open spec fn as_shown(m: MessageView) -> MessageView {
    match m.content {
        ContentView::ToolCall { tool_call_id, function } => MessageView {
            role: m.role,
            content: ContentView::ToolCall {
                tool_call_id,
                function: FunctionCallView {
                    name: function.name,
                    arguments: shown_arguments(function.arguments),
                },
            },
        },
        _ => m,
    }
}

// ── The lines of a message ───────────────────────────────────────────────────

/// The lines before a message's header.
spec fn lead(m: MessageView) -> Seq<Seq<char>> {
    match m.role {
        Role::User => seq!["---"@, seq![]],
        Role::System => seq![],
        _ => seq![seq![]],
    }
}

/// The label of a text message.
spec fn label(role: Role) -> Seq<char> {
    match role {
        Role::User => "**You:**"@,
        Role::System => "**System:**"@,
        _ => "**Agent:**"@,
    }
}

/// The lines of a message from its header on, and the blank line behind it
/// where there is one.
spec fn body(m: MessageView, names: Map<Seq<char>, Seq<char>>) -> Seq<Seq<char>> {
    match m.content {
        ContentView::Text(t) => labelled(label(m.role), t) + if m.role is System {
            blanks(1)
        } else {
            blanks(0)
        },
        ContentView::ToolCall { tool_call_id, function } => {
            seq!["**Agent:tool_call:"@ + tool_call_id + "**"@] + call_lines(
                function.name,
                function.arguments,
            )
        },
        ContentView::ToolResult { tool_call_id, content } => {
            seq!["**Tool:"@ + tool_call_id + "**"@] + response_lines(tool_name(names, tool_call_id))
                + seq!["```"@] + bare_lines(content) + seq!["```"@]
        },
        _ => seq![],
    }
}

/// The lines of a text behind its label.
spec fn labelled(label: Seq<char>, t: Seq<char>) -> Seq<Seq<char>> {
    seq![label + seq![' '] + split_lines(t)[0]] + split_lines(t).skip(1)
}

/// Text put in front of a string goes to its first line.
proof fn lemma_split_prefixed(a: Seq<char>, t: Seq<char>)
    requires
        !a.contains('\n'),
    ensures
        split_lines(t).len() > 0,
        split_lines(a + t) == seq![a + split_lines(t)[0]] + split_lines(t).skip(1),
{
    lemma_join_split(t);
    lemma_line_end(t);
    let e = line_end(t) as int;
    let s = a + t;
    assert forall|i: int| 0 <= i < a.len() + e implies #[trigger] s[i] != '\n' by {
        if i < a.len() {
            assert(a.contains(a[i]));
        } else {
            assert(s[i] == t[i - a.len()]);
        }
    }
    lemma_line_end_is(s, a.len() + e);
    if e >= t.len() {
        assert(split_lines(t).skip(1) =~= seq![]);
        assert(split_lines(s) =~= seq![a + split_lines(t)[0]] + split_lines(t).skip(1));
    } else {
        assert(s.skip(a.len() + e + 1) =~= t.skip(e + 1));
        assert(s.take(a.len() + e) =~= a + t.take(e));
        assert(split_lines(t).skip(1) =~= split_lines(t.skip(e + 1)));
    }
}

/// A line without a newline, and what follows it.
proof fn lemma_one_line(a: Seq<char>, rest: Seq<char>)
    requires
        !a.contains('\n'),
        a.len() > 0 ==> a.last() != '\r',
    ensures
        lines(a + seq!['\n'] + rest) == seq![a] + lines(rest),
{
    lemma_lines_of_concat(a, rest);
    lemma_split_single(a);
    assert(split_lines(a).map_values(|l: Seq<char>| strip_cr(l)) =~= seq![a]);
}

proof fn lemma_word_line(a: Seq<char>, w: Seq<char>, b: Seq<char>)
    requires
        !a.contains('\n'),
        !w.contains('\n'),
        !b.contains('\n'),
    ensures
        !(a + w + b).contains('\n'),
{
    let s = a + w + b;
    assert forall|i: int| 0 <= i < s.len() implies s[i] != '\n' by {
        if i < a.len() {
            assert(a.contains(a[i]));
            assert(s[i] == a[i]);
        } else if i < a.len() + w.len() {
            assert(w.contains(w[i - a.len()]));
            assert(s[i] == w[i - a.len()]);
        } else {
            assert(b.contains(b[i - a.len() - w.len()]));
            assert(s[i] == b[i - a.len() - w.len()]);
        }
    }
}

/// The lines of a text message.
proof fn lemma_text_lines(label: Seq<char>, t: Seq<char>, rest: Seq<char>)
    requires
        plain_text(t),
        !label.contains('\n'),
    ensures
        lines(label + seq![' '] + t + seq!['\n'] + rest) == labelled(label, t) + lines(rest),
{
    let a = label + seq![' '];
    assert(!a.contains('\n')) by {
        assert forall|i: int| 0 <= i < a.len() implies a[i] != '\n' by {
            if i < label.len() {
                assert(label.contains(label[i]));
            }
        }
    }
    lemma_split_prefixed(a, t);
    lemma_lines_of_concat(a + t, rest);
    let p = split_lines(t);
    let q = split_lines(a + t);
    if t.len() == 0 {
        lemma_split_single(t);
    }
    assert forall|k: int| 0 <= k < q.len() implies #[trigger] strip_cr(q[k]) == q[k] by {
        if k == 0 {
            if p[0].len() > 0 {
                assert(q[0].last() == p[0].last());
            } else {
                assert(q[0].last() == ' ');
            }
        } else {
            assert(q[k] == p[k]);
        }
    }
    assert(q.map_values(|l: Seq<char>| strip_cr(l)) =~= labelled(label, t));
}

proof fn lemma_literals()
    ensures
        "---\n\n**You:** "@ == "---"@ + seq!['\n'] + (seq!['\n'] + ("**You:**"@ + seq![' '])),
        "\n**Agent:** "@ == seq!['\n'] + ("**Agent:**"@ + seq![' ']),
        "**System:** "@ == "**System:**"@ + seq![' '],
        "\n"@ == seq!['\n'],
        "\n\n"@ == seq!['\n', '\n'],
        "\n**Agent:tool_call:"@ == seq!['\n'] + "**Agent:tool_call:"@,
        "**\n🔧 **Tool Call: "@ == "**"@ + seq!['\n'] + "🔧 **Tool Call: "@,
        "**\n```json\n"@ == "**"@ + seq!['\n'] + ("```json"@ + seq!['\n']),
        "\n```\n"@ == seq!['\n'] + ("```"@ + seq!['\n']),
        "\n**Tool:"@ == seq!['\n'] + "**Tool:"@,
        "**\n✅ **Tool Response: "@ == "**"@ + seq!['\n'] + "✅ **Tool Response: "@,
        "**\n```\n"@ == "**"@ + seq!['\n'] + ("```"@ + seq!['\n']),
{
    reveal_strlit("---\n\n**You:** ");
    reveal_strlit("---");
    reveal_strlit("**You:**");
    reveal_strlit("\n**Agent:** ");
    reveal_strlit("**Agent:**");
    reveal_strlit("**System:** ");
    reveal_strlit("**System:**");
    reveal_strlit("\n");
    reveal_strlit("\n\n");
    reveal_strlit("\n**Agent:tool_call:");
    reveal_strlit("**Agent:tool_call:");
    reveal_strlit("**\n🔧 **Tool Call: ");
    reveal_strlit("🔧 **Tool Call: ");
    reveal_strlit("**\n```json\n");
    reveal_strlit("**");
    reveal_strlit("```json");
    reveal_strlit("\n```\n");
    reveal_strlit("```");
    reveal_strlit("\n**Tool:");
    reveal_strlit("**Tool:");
    reveal_strlit("**\n✅ **Tool Response: ");
    reveal_strlit("✅ **Tool Response: ");
    reveal_strlit("**\n```\n");
}

/// The lines of a text block: no line ends in a carriage return.
proof fn lemma_block_lines(c: Seq<char>, rest: Seq<char>)
    ensures
        lines(c + seq!['\n'] + rest) == bare_lines(c) + lines(rest),
{
    lemma_lines_of_concat(c, rest);
}

/// The lines of a text message are its lead and its body.
proof fn lemma_text_message_lines(
    m: MessageView,
    t: Seq<char>,
    names: Map<Seq<char>, Seq<char>>,
    rest: Seq<char>,
)
    requires
        recoverable(m, names),
        m.content == ContentView::Text(t),
    ensures
        lines(message_markdown(m, names) + rest) == lead(m) + body(m, names) + lines(rest),
{
    lemma_literals();
    let nl = seq!['\n'];
    let empty = Seq::<char>::empty();
    let md = message_markdown(m, names) + rest;
    let l = label(m.role);
    assert(!l.contains('\n')) by {
        reveal_strlit("**You:**");
        reveal_strlit("**Agent:**");
        reveal_strlit("**System:**");
    }
    let line = l + seq![' '] + t + nl;
    match m.role {
        Role::User => {
            lemma_text_lines(l, t, rest);
            assert(!"---"@.contains('\n') && "---"@.last() != '\r') by {
                reveal_strlit("---");
            }
            assert(md =~= "---"@ + nl + (empty + nl + (line + rest)));
            lemma_one_line("---"@, empty + nl + (line + rest));
            lemma_one_line(empty, line + rest);
            assert(body(m, names) =~= labelled(l, t));
        },
        Role::Assistant => {
            lemma_text_lines(l, t, rest);
            assert(md =~= empty + nl + (line + rest));
            lemma_one_line(empty, line + rest);
            assert(body(m, names) =~= labelled(l, t));
        },
        _ => {
            assert(md =~= line + (empty + nl + rest));
            lemma_text_lines(l, t, empty + nl + rest);
            lemma_one_line(empty, rest);
            assert(blanks(1) =~= seq![empty]);
        },
    }
    assert(lines(md) =~= lead(m) + body(m, names) + lines(rest));
}

/// The sections of a tool message, in the grouping in which they are lines.
proof fn lemma_sections(
    a: Seq<char>,
    id: Seq<char>,
    stars: Seq<char>,
    b: Seq<char>,
    name: Seq<char>,
    open: Seq<char>,
    c: Seq<char>,
    close: Seq<char>,
    nl: Seq<char>,
    rest: Seq<char>,
)
    ensures
        (nl + a) + id + (stars + nl + b) + name + (stars + nl + (open + nl)) + c + (nl + (close
            + nl)) + rest == Seq::<char>::empty() + nl + ((a + id + stars) + nl + ((b + name
            + stars) + nl + (open + nl + (c + nl + (close + nl + rest))))),
{
    let left = (nl + a) + id + (stars + nl + b) + name + (stars + nl + (open + nl)) + c + (nl + (
    close + nl)) + rest;
    let right = Seq::<char>::empty() + nl + ((a + id + stars) + nl + ((b + name + stars) + nl + (
    open + nl + (c + nl + (close + nl + rest)))));
    assert(left =~= right);
}

/// The lines of a tool call are its lead and its body.
proof fn lemma_call_message_lines(
    m: MessageView,
    id: Seq<char>,
    function: FunctionCallView,
    names: Map<Seq<char>, Seq<char>>,
    rest: Seq<char>,
)
    requires
        recoverable(m, names),
        m.content == (ContentView::ToolCall { tool_call_id: id, function }),
    ensures
        lines(message_markdown(m, names) + rest) == lead(m) + body(m, names) + lines(rest),
{
    let nl = seq!['\n'];
    let empty = Seq::<char>::empty();
    let md = message_markdown(m, names) + rest;
    let header = "**Agent:tool_call:"@ + id + "**"@;
    let display = call_line(function.name);
    let args = shown_arguments(function.arguments);
    let r4 = "```"@ + nl + rest;
    let r3 = args + nl + r4;
    let r2 = "```json"@ + nl + r3;
    let r1 = display + nl + r2;
    let r0 = header + nl + r1;
    assert(md == empty + nl + r0) by {
        lemma_literals();
        lemma_sections(
            "**Agent:tool_call:"@,
            id,
            "**"@,
            "🔧 **Tool Call: "@,
            function.name,
            "```json"@,
            args,
            "```"@,
            nl,
            rest,
        );
    }
    assert(!header.contains('\n') && !display.contains('\n') && !"```json"@.contains('\n')
        && !"```"@.contains('\n') && header.last() != '\r' && display.last() != '\r'
        && "```json"@.last() != '\r' && "```"@.last() != '\r') by {
        reveal_strlit("**Agent:tool_call:");
        reveal_strlit("**");
        reveal_strlit("🔧 **Tool Call: ");
        reveal_strlit("```json");
        reveal_strlit("```");
        lemma_word_line("**Agent:tool_call:"@, id, "**"@);
        lemma_word_line("🔧 **Tool Call: "@, function.name, "**"@);
        assert(header.last() == "**"@.last());
        assert(display.last() == "**"@.last());
    }
    lemma_one_line(empty, r0);
    lemma_one_line(header, r1);
    lemma_one_line(display, r2);
    lemma_one_line("```json"@, r3);
    lemma_block_lines(args, r4);
    lemma_one_line("```"@, rest);
    assert(lines(md) =~= lead(m) + body(m, names) + lines(rest));
}

/// The lines of a tool result are its lead and its body.
proof fn lemma_result_message_lines(
    m: MessageView,
    id: Seq<char>,
    content: Seq<char>,
    names: Map<Seq<char>, Seq<char>>,
    rest: Seq<char>,
)
    requires
        recoverable(m, names),
        m.content == (ContentView::ToolResult { tool_call_id: id, content }),
    ensures
        lines(message_markdown(m, names) + rest) == lead(m) + body(m, names) + lines(rest),
{
    let nl = seq!['\n'];
    let empty = Seq::<char>::empty();
    let md = message_markdown(m, names) + rest;
    let name = tool_name(names, id);
    let header = "**Tool:"@ + id + "**"@;
    let display = "✅ **Tool Response: "@ + name + "**"@;
    let r4 = "```"@ + nl + rest;
    let r3 = content + nl + r4;
    let r2 = "```"@ + nl + r3;
    let r1 = display + nl + r2;
    let r0 = header + nl + r1;
    assert(md == empty + nl + r0) by {
        lemma_literals();
        lemma_sections(
            "**Tool:"@,
            id,
            "**"@,
            "✅ **Tool Response: "@,
            name,
            "```"@,
            content,
            "```"@,
            nl,
            rest,
        );
    }
    assert(!header.contains('\n') && !"```"@.contains('\n') && header.last() != '\r'
        && "```"@.last() != '\r') by {
        reveal_strlit("**Tool:");
        reveal_strlit("**");
        reveal_strlit("```");
        lemma_word_line("**Tool:"@, id, "**"@);
        assert(header.last() == "**"@.last());
    }
    lemma_one_line(empty, r0);
    lemma_one_line(header, r1);
    lemma_block_lines(display, r2);
    lemma_one_line("```"@, r3);
    lemma_block_lines(content, r4);
    lemma_one_line("```"@, rest);
    assert(lines(md) =~= lead(m) + body(m, names) + lines(rest));
}

/// The lines of a recoverable message are its lead and its body.
proof fn lemma_message_lines(m: MessageView, names: Map<Seq<char>, Seq<char>>, rest: Seq<char>)
    requires
        recoverable(m, names),
    ensures
        lines(message_markdown(m, names) + rest) == lead(m) + body(m, names) + lines(rest),
{
    match m.content {
        ContentView::Text(t) => lemma_text_message_lines(m, t, names, rest),
        ContentView::ToolCall { tool_call_id, function } => lemma_call_message_lines(
            m,
            tool_call_id,
            function,
            names,
            rest,
        ),
        ContentView::ToolResult { tool_call_id, content } => lemma_result_message_lines(
            m,
            tool_call_id,
            content,
            names,
            rest,
        ),
        _ => {},
    }
}

// ── Reading one message ──────────────────────────────────────────────────────

proof fn lemma_differs(s: Seq<char>, p: Seq<char>, k: int)
    requires
        0 <= k < p.len(),
        k < s.len(),
        s[k] != p[k],
    ensures
        !has_prefix(s, p),
{
    if has_prefix(s, p) {
        assert(s.take(p.len() as int)[k] == p[k]);
    }
}

/// A line that begins with a text label, and what each test on it gives.
proof fn lemma_label_line(role: Role, tail: Seq<char>)
    requires
        role is User || role is Assistant || role is System,
    ensures
        !has_prefix(label(role) + tail, "**Agent:tool_call:"@),
        !has_prefix(label(role) + tail, "**Tool:"@),
        has_prefix(label(role) + tail, label(role)),
        !(role is User) ==> !has_prefix(label(role) + tail, "**You:**"@),
        role is System ==> !has_prefix(label(role) + tail, "**Agent:**"@),
        is_header(label(role) + tail),
        (label(role) + tail).len() > 0,
        label(role) + tail != "---"@,
{
    reveal_strlit("**You:**");
    reveal_strlit("**Agent:**");
    reveal_strlit("**System:**");
    reveal_strlit("**Agent:tool_call:");
    reveal_strlit("**Tool:");
    reveal_strlit("**You:");
    reveal_strlit("**Agent:");
    reveal_strlit("**System:");
    reveal_strlit("---");
    let s = label(role) + tail;
    lemma_prefix_of_concat(label(role), tail);
    match role {
        Role::User => {
            lemma_differs(s, "**Agent:tool_call:"@, 2);
            lemma_differs(s, "**Tool:"@, 2);
            assert(s.take(6) =~= "**You:"@);
        },
        Role::Assistant => {
            if s.len() > 8 {
                lemma_differs(s, "**Agent:tool_call:"@, 8);
            }
            lemma_differs(s, "**Tool:"@, 2);
            lemma_differs(s, "**You:**"@, 2);
            assert(s.take(8) =~= "**Agent:"@);
        },
        _ => {
            lemma_differs(s, "**Agent:tool_call:"@, 2);
            lemma_differs(s, "**Tool:"@, 2);
            lemma_differs(s, "**You:**"@, 2);
            lemma_differs(s, "**Agent:**"@, 2);
            assert(s.take(9) =~= "**System:"@);
        },
    }
    assert(s[0] == '*');
}

/// The header line of a text message, read.
proof fn lemma_inline(role: Role, first: Seq<char>)
    requires
        role is User || role is Assistant || role is System,
    ensures
        exists|tail: Seq<char>| trim(label(role) + seq![' '] + first) == #[trigger] (label(role)
            + tail),
        inline_text(label(role) + seq![' '] + first, label(role)) == first,
{
    reveal_strlit("**You:**");
    reveal_strlit("**Agent:**");
    reveal_strlit("**System:**");
    reveal_strlit(" ");
    let l = label(role);
    let s = seq![' '] + first;
    assert(l + seq![' '] + first =~= l + s);
    lemma_trim_prefixed(l, s);
    assert(trim(l + seq![' '] + first) == l + trim_end(s));
    assert((l + s)[0] == l[0]);
    lemma_prefix_of_concat(l, s);
    assert(" "@ =~= seq![' ']);
    lemma_prefix_of_concat(" "@, first);
}

proof fn lemma_text_stop_is(all: Seq<Seq<char>>, i: int, j: int)
    requires
        0 <= i <= j <= all.len(),
        j < all.len() ==> is_header(trim(all[j])),
        forall|k: int| i <= k < j ==> !is_header(trim(#[trigger] all[k])),
    ensures
        text_stop(all, i) == j,
    decreases j - i,
{
    if i < j {
        lemma_text_stop_is(all, i + 1, j);
    }
}

proof fn lemma_fence_at_is(all: Seq<Seq<char>>, i: int, j: int)
    requires
        0 <= i <= j < all.len(),
        is_fence(all[j]),
        forall|k: int| i <= k < j ==> !is_fence(#[trigger] all[k]),
    ensures
        fence_at(all, i) == j,
    decreases j - i,
{
    if i < j {
        lemma_fence_at_is(all, i + 1, j);
    }
}

proof fn lemma_blank_not_header()
    ensures
        !is_header(seq![]),
        trim(seq![]) == Seq::<char>::empty(),
{
    reveal_strlit("---");
    reveal_strlit("**You:");
    reveal_strlit("**Agent:");
    reveal_strlit("**Tool:");
    reveal_strlit("**System:");
}

/// Empty lines behind a text are not part of it.
proof fn lemma_text_of_padded(t: Seq<char>, b: nat)
    requires
        plain_text(t),
    ensures
        text_of_parts(split_lines(t) + blanks(b)) == t,
    decreases b,
{
    lemma_join_split(t);
    let p = split_lines(t);
    let all = p + blanks(b);
    reveal_strlit("\n");
    assert("\n"@ =~= seq!['\n']);
    if t.len() == 0 {
        lemma_split_single(t);
        assert(all =~= blanks(b + 1)) by {
            assert(t =~= seq![]);
        }
        lemma_blanks_vanish(b + 1);
    } else {
        lemma_blank_not_header();
        assert(all[0] == p[0]);
        assert(drop_blank_front(all) == all);
        if b == 0 {
            assert(all =~= p);
        } else {
            assert(all.last() =~= seq![]);
            assert(all.drop_last() =~= p + blanks((b - 1) as nat));
            assert((p + blanks((b - 1) as nat))[0] == p[0]);
            assert(drop_blank_front(p + blanks((b - 1) as nat)) == p + blanks((b - 1) as nat));
            lemma_text_of_padded(t, (b - 1) as nat);
        }
    }
}

proof fn lemma_blanks_vanish(n: nat)
    ensures
        drop_blank_front(blanks(n)) == Seq::<Seq<char>>::empty(),
    decreases n,
{
    if n == 0 {
        assert(blanks(n) =~= seq![]);
    } else {
        lemma_blank_not_header();
        assert(blanks(n)[0] =~= seq![]);
        assert(blanks(n).skip(1) =~= blanks((n - 1) as nat));
        lemma_blanks_vanish((n - 1) as nat);
    }
}

/// A text message, read from the lines that it was written to: it ends at the
/// next header, or at the end of the buffer.
proof fn lemma_read_text(role: Role, t: Seq<char>, all: Seq<Seq<char>>, h: int, b: nat)
    requires
        role is User || role is Assistant || role is System,
        plain_text(t),
        0 <= h,
        h + split_lines(t).len() + b <= all.len(),
        all.subrange(h, h + split_lines(t).len()) == labelled(label(role), t),
        all.subrange(h + split_lines(t).len(), h + split_lines(t).len() + b) == blanks(b),
        h + split_lines(t).len() + b < all.len() ==> is_header(
            trim(all[h + split_lines(t).len() + b]),
        ),
    ensures
        message_at(all, h) == Ok::<Option<(MessageView, int)>, Seq<char>>(
            Some((text_message(role, t), h + split_lines(t).len() + b)),
        ),
        trim(all[h]).len() > 0,
        trim(all[h]) != "---"@,
{
    let l = label(role);
    let p = split_lines(t);
    let q = h + p.len();
    let j = q + b;
    lemma_join_split(t);
    if t.len() == 0 {
        lemma_split_single(t);
    }
    assert(all[h] == all.subrange(h, q)[0]);
    lemma_inline(role, p[0]);
    let tail = choose|tail: Seq<char>| trim(l + seq![' '] + p[0]) == #[trigger] (l + tail);
    lemma_label_line(role, tail);
    lemma_blank_not_header();
    assert forall|k: int| h + 1 <= k < j implies !is_header(trim(#[trigger] all[k])) && all[k]
        == (p + blanks(b))[k - h] by {
        if k < q {
            assert(all[k] == all.subrange(h, q)[k - h]);
            assert(all[k] == p[k - h]);
            assert(!is_header(trim(p[k - h])));
        } else {
            assert(all[k] == all.subrange(q, j)[k - q]);
            assert(all[k] =~= seq![]);
        }
    }
    lemma_text_stop_is(all, h + 1, j);
    assert(text_parts(all, h, j, l) =~= p + blanks(b));
    lemma_text_of_padded(t, b);
}

/// The lines of a plain block give the block back.
proof fn lemma_block_reads_back(c: Seq<char>)
    requires
        plain_block(c),
    ensures
        bare_lines(c) == split_lines(c),
        block_of(bare_lines(c)) == c,
        forall|k: int| 0 <= k < bare_lines(c).len() ==> !is_fence(#[trigger] bare_lines(c)[k]),
{
    let p = split_lines(c);
    lemma_join_split(c);
    reveal_strlit("\n");
    assert("\n"@ =~= seq!['\n']);
    assert(bare_lines(c) =~= p) by {
        assert forall|k: int| 0 <= k < p.len() implies strip_cr(#[trigger] p[k]) == p[k] by {
            assert(p[k].len() > 0 ==> p[k].last() != '\r');
        }
    }
}

/// A header with an identifier, read.
proof fn lemma_header_id(prefix: Seq<char>, id: Seq<char>)
    requires
        prefix.len() > 0,
        !is_space(prefix[0]),
        is_trimmed(id),
    ensures
        trim(prefix + id + "**"@) == prefix + id + "**"@,
        header_id(prefix + id + "**"@, prefix) == Some(id),
        has_prefix(prefix + id + "**"@, prefix),
{
    reveal_strlit("**");
    let h = prefix + id + "**"@;
    assert(h[0] == prefix[0]);
    assert(h.last() == '*');
    lemma_trim_fixpoint(h);
    assert(h =~= prefix + (id + "**"@));
    lemma_prefix_of_concat(prefix, id + "**"@);
    lemma_suffix_of_concat(id, "**"@);
    lemma_trim_fixpoint(id);
}

/// The search for a name that ends within a section does not depend on what
/// stands before it.
proof fn lemma_name_local(all: Seq<Seq<char>>, base: int, below: Seq<Seq<char>>, j: int)
    requires
        0 <= base,
        base + below.len() <= all.len(),
        all.subrange(base, base + below.len()) == below,
        0 <= j <= below.len(),
        name_above(below, j) is Some,
    ensures
        name_above(all, base + j) == name_above(below, j),
    decreases j,
{
    if j > 0 {
        assert(all[base + j - 1] == all.subrange(base, base + below.len())[j - 1]);
        let line = trim(below[j - 1]);
        if display_name(line) is None && !ends_name_search(line) {
            lemma_name_local(all, base, below, j - 1);
        }
    }
}

/// Where a code block stands in the buffer, and what it reads as.
proof fn lemma_read_block(all: Seq<Seq<char>>, from: int, open: int, c: Seq<char>)
    requires
        plain_block(c),
        0 <= from <= open,
        open + 1 + split_lines(c).len() < all.len(),
        forall|k: int| from <= k < open ==> !is_fence(#[trigger] all[k]),
        is_fence(all[open]),
        all.subrange(open + 1, open + 1 + split_lines(c).len()) == bare_lines(c),
        is_fence(all[open + 1 + split_lines(c).len()]),
    ensures
        fence_at(all, from) == open,
        block_at(all, open) == Ok::<(Seq<char>, int), Seq<char>>(
            (c, open + 2 + split_lines(c).len()),
        ),
{
    let n = split_lines(c).len();
    let close = open + 1 + n;
    lemma_block_reads_back(c);
    lemma_fence_at_is(all, from, open);
    assert forall|k: int| open + 1 <= k < close implies !is_fence(#[trigger] all[k]) by {
        assert(all[k] == all.subrange(open + 1, close)[k - open - 1]);
        assert(!is_fence(bare_lines(c)[k - open - 1]));
    }
    lemma_fence_at_is(all, open + 1, close);
}

proof fn lemma_fences()
    ensures
        is_fence("```"@),
        is_fence("```json"@),
{
    reveal_strlit("```");
    reveal_strlit("```json");
    lemma_trim_fixpoint("```"@);
    lemma_trim_fixpoint("```json"@);
    assert("```"@.take(3) =~= "```"@);
    assert("```json"@.take(3) =~= "```"@);
}

/// A tool call, read from the lines that it was written to.
proof fn lemma_read_call(
    id: Seq<char>,
    function: FunctionCallView,
    all: Seq<Seq<char>>,
    h: int,
    names: Map<Seq<char>, Seq<char>>,
)
    requires
        recoverable(
            MessageView {
                role: Role::Assistant,
                content: ContentView::ToolCall { tool_call_id: id, function },
            },
            names,
        ),
        0 <= h,
        h + 1 + call_lines(function.name, function.arguments).len() <= all.len(),
        all[h] == "**Agent:tool_call:"@ + id + "**"@,
        all.subrange(h + 1, h + 1 + call_lines(function.name, function.arguments).len())
            == call_lines(function.name, function.arguments),
    ensures
        message_at(all, h) == Ok::<Option<(MessageView, int)>, Seq<char>>(
            Some(
                (
                    as_shown(
                        MessageView {
                            role: Role::Assistant,
                            content: ContentView::ToolCall { tool_call_id: id, function },
                        },
                    ),
                    h + 1 + call_lines(function.name, function.arguments).len(),
                ),
            ),
        ),
        trim(all[h]).len() > 0,
        trim(all[h]) != "---"@,
        is_header(trim(all[h])),
{
    let below = call_lines(function.name, function.arguments);
    let args = shown_arguments(function.arguments);
    let n = split_lines(args).len() as int;
    let line = "**Agent:tool_call:"@ + id + "**"@;
    lemma_block_reads_back(args);
    assert(below.len() == n + 3);
    assert forall|k: int| 0 <= k < below.len() implies #[trigger] all[h + 1 + k] == below[k] by {
        assert(all.subrange(h + 1, h + 1 + below.len())[k] == all[h + 1 + k]);
    }
    assert(all[h + 1 + 0] == below[0]);
    assert(all[h + 1 + 1] == below[1]);
    assert(all[h + 1 + (n + 2)] == below[n + 2]);
    assert(!is_fence(all[h + 1])) by {
        reveal_strlit("🔧 **Tool Call: ");
        reveal_strlit("**");
        reveal_strlit("```");
        let d = call_line(function.name);
        assert(d[0] == "🔧 **Tool Call: "@[0]);
        assert(d.last() == '*');
        lemma_trim_fixpoint(d);
        lemma_differs(d, "```"@, 0);
    }
    lemma_fences();
    assert(all.subrange(h + 3, h + 3 + n) =~= bare_lines(args)) by {
        assert forall|k: int| 0 <= k < n implies all[h + 3 + k] == bare_lines(args)[k] by {
            assert(all[h + 1 + (k + 2)] == below[k + 2]);
        }
    }
    assert forall|k: int| h + 1 <= k < h + 2 implies !is_fence(#[trigger] all[k]) by {
        assert(k == h + 1);
    }
    lemma_read_block(all, h + 1, h + 2, args);
    lemma_name_local(all, h + 1, below, below.len() as int);
    assert(has_prefix(line, "**Agent:tool_call:"@) && !has_prefix(line, "**You:**"@) && line.len()
        > 0 && line != "---"@ && has_prefix(line, "**Agent:"@) && trim(line) == line && header_id(
        line,
        "**Agent:tool_call:"@,
    ) == Some(id)) by {
        reveal_strlit("**Agent:tool_call:");
        reveal_strlit("**You:**");
        reveal_strlit("**Agent:");
        reveal_strlit("---");
        lemma_header_id("**Agent:tool_call:"@, id);
        lemma_differs(line, "**You:**"@, 2);
        assert(line.take(8) =~= "**Agent:"@);
        assert(line[0] == '*');
    }
}

/// A tool result, read from the lines that it was written to.
proof fn lemma_read_result(
    id: Seq<char>,
    content: Seq<char>,
    all: Seq<Seq<char>>,
    h: int,
    names: Map<Seq<char>, Seq<char>>,
)
    requires
        recoverable(
            MessageView {
                role: Role::Tool,
                content: ContentView::ToolResult { tool_call_id: id, content },
            },
            names,
        ),
        0 <= h,
        h + 3 + response_lines(tool_name(names, id)).len() + split_lines(content).len()
            <= all.len(),
        all[h] == "**Tool:"@ + id + "**"@,
        all.subrange(
            h + 1,
            h + 3 + response_lines(tool_name(names, id)).len() + split_lines(content).len(),
        ) == response_lines(tool_name(names, id)) + seq!["```"@] + bare_lines(content)
            + seq!["```"@],
    ensures
        message_at(all, h) == Ok::<Option<(MessageView, int)>, Seq<char>>(
            Some(
                (
                    MessageView {
                        role: Role::Tool,
                        content: ContentView::ToolResult { tool_call_id: id, content },
                    },
                    h + 3 + response_lines(tool_name(names, id)).len() + split_lines(content).len(),
                ),
            ),
        ),
        trim(all[h]).len() > 0,
        trim(all[h]) != "---"@,
        is_header(trim(all[h])),
{
    let shown = response_lines(tool_name(names, id));
    let r = shown.len() as int;
    let n = split_lines(content).len() as int;
    let below = shown + seq!["```"@] + bare_lines(content) + seq!["```"@];
    let line = "**Tool:"@ + id + "**"@;
    lemma_block_reads_back(content);
    assert(below.len() == r + n + 2);
    assert forall|k: int| 0 <= k < below.len() implies #[trigger] all[h + 1 + k] == below[k] by {
        assert(all.subrange(h + 1, h + 3 + r + n)[k] == all[h + 1 + k]);
    }
    assert(all[h + 1 + r] == below[r]);
    assert(all[h + 1 + (r + n + 1)] == below[r + n + 1]);
    lemma_fences();
    assert(all.subrange(h + 2 + r, h + 2 + r + n) =~= bare_lines(content)) by {
        assert forall|k: int| 0 <= k < n implies all[h + 2 + r + k] == bare_lines(content)[k] by {
            assert(all[h + 1 + (r + 1 + k)] == below[r + 1 + k]);
        }
    }
    assert forall|k: int| h + 1 <= k < h + 1 + r implies !is_fence(#[trigger] all[k]) by {
        assert(all[h + 1 + (k - h - 1)] == below[k - h - 1]);
        assert(!is_fence(shown[k - h - 1]));
    }
    lemma_read_block(all, h + 1, h + 1 + r, content);
    assert(has_prefix(line, "**Tool:"@) && !has_prefix(line, "**Agent:tool_call:"@) && !has_prefix(
        line,
        "**You:**"@,
    ) && line.len() > 0 && line != "---"@ && trim(line) == line && header_id(line, "**Tool:"@)
        == Some(id)) by {
        reveal_strlit("**Agent:tool_call:");
        reveal_strlit("**You:**");
        reveal_strlit("**Tool:");
        reveal_strlit("---");
        lemma_header_id("**Tool:"@, id);
        lemma_differs(line, "**You:**"@, 2);
        lemma_differs(line, "**Agent:tool_call:"@, 2);
        assert(line[0] == '*');
    }
}

// ── Reading a conversation ───────────────────────────────────────────────────

/// Messages in Markdown, one after the other.
pub open spec fn messages_markdown(
    ms: Seq<MessageView>,
    names: Map<Seq<char>, Seq<char>>,
) -> Seq<char>
    decreases ms.len(),
{
    if ms.len() == 0 {
        seq![]
    } else {
        message_markdown(ms[0], names) + messages_markdown(ms.skip(1), names)
    }
}

/// Messages as they come back.
pub open spec fn all_as_shown(ms: Seq<MessageView>) -> Seq<MessageView> {
    ms.map_values(|m: MessageView| as_shown(m))
}

/// Every message can be read back.
pub open spec fn all_recoverable(ms: Seq<MessageView>, names: Map<Seq<char>, Seq<char>>) -> bool {
    forall|i: int| 0 <= i < ms.len() ==> recoverable(#[trigger] ms[i], names)
}

spec fn all_lines(ms: Seq<MessageView>, names: Map<Seq<char>, Seq<char>>) -> Seq<Seq<char>>
    decreases ms.len(),
{
    if ms.len() == 0 {
        seq![]
    } else {
        lead(ms[0]) + body(ms[0], names) + all_lines(ms.skip(1), names)
    }
}

proof fn lemma_skip_recoverable(ms: Seq<MessageView>, names: Map<Seq<char>, Seq<char>>)
    requires
        ms.len() > 0,
        all_recoverable(ms, names),
    ensures
        recoverable(ms[0], names),
        all_recoverable(ms.skip(1), names),
{
    assert(recoverable(ms[0], names));
    assert forall|i: int| 0 <= i < ms.skip(1).len() implies recoverable(
        #[trigger] ms.skip(1)[i],
        names,
    ) by {
        assert(recoverable(ms[i + 1], names));
    }
}

proof fn lemma_all_lines(ms: Seq<MessageView>, names: Map<Seq<char>, Seq<char>>)
    requires
        all_recoverable(ms, names),
    ensures
        lines(messages_markdown(ms, names)) == all_lines(ms, names),
    decreases ms.len(),
{
    if ms.len() > 0 {
        lemma_skip_recoverable(ms, names);
        lemma_all_lines(ms.skip(1), names);
        lemma_message_lines(ms[0], names, messages_markdown(ms.skip(1), names));
    }
}

/// The first line of a message's body is its header.
proof fn lemma_body_header(m: MessageView, names: Map<Seq<char>, Seq<char>>)
    requires
        recoverable(m, names),
    ensures
        body(m, names).len() > 0,
        is_header(trim(body(m, names)[0])),
{
    match m.content {
        ContentView::Text(t) => {
            lemma_join_split(t);
            if t.len() == 0 {
                lemma_split_single(t);
            }
            let first = split_lines(t)[0];
            lemma_inline(m.role, first);
            let tail = choose|tail: Seq<char>|
                trim(label(m.role) + seq![' '] + first) == #[trigger] (label(m.role) + tail);
            lemma_label_line(m.role, tail);
        },
        ContentView::ToolCall { tool_call_id, function } => {
            let line = "**Agent:tool_call:"@ + tool_call_id + "**"@;
            assert(trim(line) == line && has_prefix(line, "**Agent:"@)) by {
                reveal_strlit("**Agent:tool_call:");
                reveal_strlit("**Agent:");
                lemma_header_id("**Agent:tool_call:"@, tool_call_id);
                assert(line.take(8) =~= "**Agent:"@);
            }
        },
        ContentView::ToolResult { tool_call_id, content } => {
            let line = "**Tool:"@ + tool_call_id + "**"@;
            assert(trim(line) == line && has_prefix(line, "**Tool:"@)) by {
                reveal_strlit("**Tool:");
                lemma_header_id("**Tool:"@, tool_call_id);
            }
        },
        _ => {},
    }
}

/// The message that starts at line `h`, and the messages behind it, read.
proof fn lemma_read_from_body(
    ms: Seq<MessageView>,
    names: Map<Seq<char>, Seq<char>>,
    all: Seq<Seq<char>>,
    h: int,
)
    requires
        ms.len() > 0,
        all_recoverable(ms, names),
        0 <= h <= all.len(),
        all.skip(h) == body(ms[0], names) + all_lines(ms.skip(1), names),
    ensures
        messages_from(all, h) == Ok::<Seq<MessageView>, Seq<char>>(all_as_shown(ms)),
    decreases ms.len(), 0int,
{
    let m = ms[0];
    let rest = ms.skip(1);
    let mine = body(m, names);
    let end = h + mine.len();
    lemma_skip_recoverable(ms, names);
    lemma_body_header(m, names);
    assert(all.skip(h).len() == mine.len() + all_lines(rest, names).len());
    assert forall|k: int| 0 <= k < mine.len() implies all[h + k] == #[trigger] mine[k] by {
        assert(all.skip(h)[k] == all[h + k]);
    }
    assert(all[h + 0] == mine[0]);
    assert(all.skip(end) =~= all_lines(rest, names)) by {
        assert forall|k: int| 0 <= k < all_lines(rest, names).len() implies all[end + k]
            == all_lines(rest, names)[k] by {
            assert(all.skip(h)[mine.len() + k] == all[end + k]);
        }
    }
    lemma_read_all(rest, names, all, end);
    assert(all_as_shown(ms) =~= seq![as_shown(m)] + all_as_shown(rest));
    match m.content {
        ContentView::Text(t) => {
            lemma_join_split(t);
            let n = split_lines(t).len();
            let own: nat = if m.role is System {
                1
            } else {
                0
            };
            let next_blank: nat = if rest.len() > 0 && !(rest[0].role is User) && !(
            rest[0].role is System) {
                1
            } else {
                0
            };
            let b = own + next_blank;
            assert(mine =~= labelled(label(m.role), t) + blanks(own));
            assert(all.subrange(h, h + n) =~= labelled(label(m.role), t)) by {
                assert forall|k: int| 0 <= k < n implies all[h + k] == labelled(
                    label(m.role),
                    t,
                )[k] by {
                    assert(mine[k] == labelled(label(m.role), t)[k]);
                }
            }
            if rest.len() > 0 {
                lemma_skip_recoverable(rest, names);
                lemma_body_header(rest[0], names);
                let first = lead(rest[0]) + body(rest[0], names);
                assert(all_lines(rest, names) == first + all_lines(rest.skip(1), names));
                assert forall|k: int| 0 <= k < first.len() implies all[end + k] == #[trigger] first[k] by {
                    assert(all.skip(end)[k] == all[end + k]);
                }
                if next_blank == 1 {
                    assert(first[0] =~= seq![]);
                    assert(first[1] == body(rest[0], names)[0]);
                    assert(all[end + 0] =~= seq![]);
                    assert(all[end + 1] == body(rest[0], names)[0]);
                } else if rest[0].role is User {
                    assert(first[0] == "---"@);
                    assert(all[end + 0] == "---"@);
                    reveal_strlit("---");
                    lemma_trim_fixpoint("---"@);
                } else {
                    assert(first[0] == body(rest[0], names)[0]);
                    assert(all[end + 0] == body(rest[0], names)[0]);
                }
            }
            assert(all.subrange(h + n, h + n + b) =~= blanks(b)) by {
                assert forall|k: int| 0 <= k < b implies all[h + n + k] =~= blanks(b)[k] by {
                    if k < own {
                        assert(mine[n + k] =~= seq![]);
                        assert(all[h + (n + k)] == mine[n + k]);
                    }
                }
            }
            lemma_read_text(m.role, t, all, h, b);
            lemma_blank_not_header();
            if next_blank == 1 {
                assert(messages_from(all, end) == messages_from(all, end + 1));
            }
        },
        ContentView::ToolCall { tool_call_id, function } => {
            let below = call_lines(function.name, function.arguments);
            assert(all.subrange(h + 1, h + 1 + below.len()) =~= below) by {
                assert forall|k: int| 0 <= k < below.len() implies all[h + 1 + k] == below[k] by {
                    assert(all[h + (k + 1)] == mine[k + 1]);
                }
            }
            lemma_read_call(tool_call_id, function, all, h, names);
        },
        ContentView::ToolResult { tool_call_id, content } => {
            let below = response_lines(tool_name(names, tool_call_id)) + seq!["```"@] + bare_lines(
                content,
            ) + seq!["```"@];
            assert(mine =~= seq!["**Tool:"@ + tool_call_id + "**"@] + below);
            lemma_block_reads_back(content);
            assert(all.subrange(h + 1, h + 1 + below.len()) =~= below) by {
                assert forall|k: int| 0 <= k < below.len() implies all[h + 1 + k] == below[k] by {
                    assert(all[h + (k + 1)] == mine[k + 1]);
                }
            }
            lemma_read_result(tool_call_id, content, all, h, names);
        },
        _ => {},
    }
}

/// The messages from line `p` on, read.
proof fn lemma_read_all(
    ms: Seq<MessageView>,
    names: Map<Seq<char>, Seq<char>>,
    all: Seq<Seq<char>>,
    p: int,
)
    requires
        all_recoverable(ms, names),
        0 <= p <= all.len(),
        all.skip(p) == all_lines(ms, names),
    ensures
        messages_from(all, p) == Ok::<Seq<MessageView>, Seq<char>>(all_as_shown(ms)),
    decreases ms.len(), 1int,
{
    if ms.len() == 0 {
        assert(all.skip(p).len() == 0);
        assert(all_as_shown(ms) =~= seq![]);
    } else {
        let front = lead(ms[0]);
        let h = p + front.len();
        let tail = body(ms[0], names) + all_lines(ms.skip(1), names);
        assert(all_lines(ms, names) =~= front + tail);
        assert(all.skip(p).len() == front.len() + tail.len());
        assert forall|k: int| 0 <= k < front.len() implies all[p + k] == #[trigger] front[k] by {
            assert(all.skip(p)[k] == all[p + k]);
        }
        assert(all.skip(h) =~= tail) by {
            assert forall|k: int| 0 <= k < tail.len() implies all[h + k] == tail[k] by {
                assert(all.skip(p)[front.len() + k] == all[h + k]);
            }
        }
        lemma_read_from_body(ms, names, all, h);
        lemma_blank_not_header();
        match ms[0].role {
            Role::User => {
                assert(all[p + 0] == front[0]);
                assert(all[p + 1] == front[1]);
                reveal_strlit("---");
                lemma_trim_fixpoint("---"@);
                assert(messages_from(all, p) == messages_from(all, p + 1));
                assert(messages_from(all, p + 1) == messages_from(all, p + 2));
            },
            Role::System => {},
            _ => {
                assert(all[p + 0] == front[0]);
                assert(messages_from(all, p) == messages_from(all, p + 1));
            },
        }
    }
}

/// Parsing undoes writing: messages whose parts do not read as something else
/// come back from their Markdown form, in order and with nothing added or lost.
/// The arguments of tool calls come back in the form in which they are shown.
pub proof fn law_messages_round_trip(ms: Seq<MessageView>, names: Map<Seq<char>, Seq<char>>)
    requires
        all_recoverable(ms, names),
    ensures
        messages_from(lines(messages_markdown(ms, names)), 0) == Ok::<
            Seq<MessageView>,
            Seq<char>,
        >(all_as_shown(ms)),
{
    lemma_all_lines(ms, names);
    let all = all_lines(ms, names);
    assert(all.skip(0) =~= all);
    lemma_read_all(ms, names, all, 0);
}

/// Messages as segments of a conversation.
pub open spec fn as_segments(ms: Seq<MessageView>) -> Seq<SegmentView> {
    ms.map_values(|m: MessageView| SegmentView::Message(m))
}

proof fn lemma_messages_markdown_push(
    ms: Seq<MessageView>,
    m: MessageView,
    names: Map<Seq<char>, Seq<char>>,
)
    ensures
        messages_markdown(ms.push(m), names) == messages_markdown(ms, names) + message_markdown(
            m,
            names,
        ),
    decreases ms.len(),
{
    let more = ms.push(m);
    if ms.len() == 0 {
        assert(more.skip(1) =~= seq![]);
        reveal_with_fuel(messages_markdown, 2);
        assert(messages_markdown(more, names) =~= message_markdown(m, names));
        assert(messages_markdown(ms, names) + message_markdown(m, names) =~= message_markdown(
            m,
            names,
        ));
    } else {
        assert(more.skip(1) =~= ms.skip(1).push(m));
        lemma_messages_markdown_push(ms.skip(1), m, names);
        assert(messages_markdown(more, names) =~= messages_markdown(ms, names) + message_markdown(
            m,
            names,
        ));
    }
}

/// A conversation of messages is the first message without its blank line and
/// the others as they are.
proof fn lemma_conversation_is(ms: Seq<MessageView>, names: Map<Seq<char>, Seq<char>>)
    requires
        ms.len() > 0,
    ensures
        segments_markdown(as_segments(ms), names) == trim_newlines(message_markdown(ms[0], names))
            + messages_markdown(ms.skip(1), names),
    decreases ms.len(),
{
    let segs = as_segments(ms);
    if ms.len() == 1 {
        assert(ms.skip(1) =~= seq![]);
        assert(segments_markdown(segs, names) =~= trim_newlines(message_markdown(ms[0], names))
            + messages_markdown(ms.skip(1), names));
    } else {
        let init = ms.drop_last();
        assert(segs.drop_last() =~= as_segments(init));
        lemma_conversation_is(init, names);
        lemma_messages_markdown_push(init.skip(1), ms.last(), names);
        assert(ms.skip(1) =~= init.skip(1).push(ms.last()));
        assert(segments_markdown(segs, names) =~= trim_newlines(message_markdown(ms[0], names))
            + messages_markdown(ms.skip(1), names));
    }
}

/// The only newline that a message's Markdown starts with is its lead.
proof fn lemma_message_start(m: MessageView, names: Map<Seq<char>, Seq<char>>)
    requires
        recoverable(m, names),
    ensures
        m.role is User || m.role is System ==> trim_newlines(message_markdown(m, names))
            == message_markdown(m, names),
        !(m.role is User || m.role is System) ==> message_markdown(m, names) == seq!['\n']
            + trim_newlines(message_markdown(m, names)),
{
    let md = message_markdown(m, names);
    reveal_strlit("---\n\n**You:** ");
    reveal_strlit("\n**Agent:** ");
    reveal_strlit("**System:** ");
    reveal_strlit("\n**Agent:tool_call:");
    reveal_strlit("\n**Tool:");
    if !(m.role is User || m.role is System) {
        assert(md[0] == '\n' && md[1] == '*');
        assert(md.skip(1)[0] == '*');
        reveal_with_fuel(trim_newlines, 2);
        assert(md =~= seq!['\n'] + md.skip(1));
    } else {
        assert(md[0] != '\n');
    }
}

/// The same for a whole conversation: `parse_markdown_to_messages` gives back
/// the messages that `format_conversation` was given.
pub proof fn law_conversation_round_trip(ms: Seq<MessageView>, names: Map<Seq<char>, Seq<char>>)
    requires
        all_recoverable(ms, names),
    ensures
        messages_from(lines(conversation_markdown(as_segments(ms), seq![], names)), 0) == Ok::<
            Seq<MessageView>,
            Seq<char>,
        >(all_as_shown(ms)),
{
    let text = conversation_markdown(as_segments(ms), seq![], names);
    assert(text =~= segments_markdown(as_segments(ms), names));
    if ms.len() == 0 {
        assert(all_as_shown(ms) =~= seq![]);
    } else {
        let m = ms[0];
        let rest = messages_markdown(ms.skip(1), names);
        let md = message_markdown(m, names);
        let all = lines(text);
        lemma_conversation_is(ms, names);
        lemma_skip_recoverable(ms, names);
        lemma_message_start(m, names);
        lemma_message_lines(m, names, rest);
        lemma_all_lines(ms.skip(1), names);
        assert(all.skip(0) =~= all);
        if m.role is User || m.role is System {
            assert(all =~= all_lines(ms, names));
            lemma_read_all(ms, names, all, 0);
        } else {
            let short = trim_newlines(md);
            let empty = Seq::<char>::empty();
            assert(md + rest =~= empty + seq!['\n'] + (short + rest));
            lemma_one_line(empty, short + rest);
            assert(lead(m) =~= seq![empty]);
            let whole = lead(m) + body(m, names) + all_lines(ms.skip(1), names);
            assert(all =~= whole.skip(1));
            assert(whole.skip(1) =~= body(m, names) + all_lines(ms.skip(1), names));
            lemma_read_from_body(ms, names, all, 0);
        }
    }
}

} // verus!
