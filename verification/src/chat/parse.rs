//! Parsing the Markdown form of a conversation back into messages.

use vstd::prelude::*;

use crate::chat::segment::{
    message_views, ContentView, FunctionCall, FunctionCallView, Message, MessageContent, MessageView, Role,
};
use crate::text::{
    after_prefix, before_suffix, decimal, has_prefix, join, join_strings, lines, lines_of,
    push_decimal, starts_with, str_eq, strip_prefix, strip_suffix, trim, trim_start,
    trim_start_str, trim_str, views,
};

verus! {

// ── What the lines of a buffer mean ──────────────────────────────────────────

/// A (trimmed) line that ends the text of the message before it: a role header
/// or the `---` between turns. Other bold text does not.
pub open spec fn is_header(line: Seq<char>) -> bool {
    ||| line == "---"@
    ||| has_prefix(line, "**You:"@)
    ||| has_prefix(line, "**Agent:"@)
    ||| has_prefix(line, "**Tool:"@)
    ||| has_prefix(line, "**System:"@)
}

/// A line that opens or closes a code block.
pub open spec fn is_fence(line: Seq<char>) -> bool {
    has_prefix(trim(line), "```"@)
}

/// The first line at or after `i` that ends a text, or the end of the buffer.
pub open spec fn text_stop(lines: Seq<Seq<char>>, i: int) -> int
    decreases lines.len() - i,
{
    if i >= lines.len() || is_header(trim(lines[i])) {
        i
    } else {
        text_stop(lines, i + 1)
    }
}

/// The first fence at or after `i`, or the end of the buffer.
pub open spec fn fence_at(lines: Seq<Seq<char>>, i: int) -> int
    decreases lines.len() - i,
{
    if i >= lines.len() || is_fence(lines[i]) {
        i
    } else {
        fence_at(lines, i + 1)
    }
}

/// A line that holds nothing but white space.
pub open spec fn is_blank(line: Seq<char>) -> bool {
    trim(line).len() == 0
}

/// `parts` without the blank ones at its front.
pub open spec fn drop_blank_front(parts: Seq<Seq<char>>) -> Seq<Seq<char>>
    decreases parts.len(),
{
    if parts.len() > 0 && is_blank(parts[0]) {
        drop_blank_front(parts.skip(1))
    } else {
        parts
    }
}

/// `parts` without the blank ones at its end.
pub open spec fn drop_blank_back(parts: Seq<Seq<char>>) -> Seq<Seq<char>>
    decreases parts.len(),
{
    if parts.len() > 0 && is_blank(parts.last()) {
        drop_blank_back(parts.drop_last())
    } else {
        parts
    }
}

/// What stands behind `prefix` on a header line and the space that follows it.
pub open spec fn inline_text(line: Seq<char>, prefix: Seq<char>) -> Seq<char> {
    match after_prefix(trim_start(line), prefix) {
        Some(s) => match after_prefix(s, " "@) {
            Some(text) => text,
            None => s,
        },
        None => seq![],
    }
}

/// The lines of the text that begins on line `i`, up to line `to`, as they
/// stand.
pub open spec fn text_parts(
    lines: Seq<Seq<char>>,
    i: int,
    to: int,
    prefix: Seq<char>,
) -> Seq<Seq<char>> {
    seq![inline_text(lines[i], prefix)] + lines.subrange(i + 1, to)
}

/// The text of those lines: blank lines at either end are left out.
pub open spec fn text_of_parts(parts: Seq<Seq<char>>) -> Seq<char> {
    join(drop_blank_back(drop_blank_front(parts)), "\n"@)
}

/// The text of the message whose header is on line `i`.
pub open spec fn text_at(lines: Seq<Seq<char>>, i: int, prefix: Seq<char>) -> Seq<char> {
    text_of_parts(text_parts(lines, i, text_stop(lines, i + 1), prefix))
}

/// The content of a code block with these lines.
pub open spec fn block_of(body: Seq<Seq<char>>) -> Seq<char> {
    join(body, "\n"@)
}

/// The code block whose opening fence is on line `i`: its content and the line
/// behind it.
pub open spec fn block_at(lines: Seq<Seq<char>>, i: int) -> Result<(Seq<char>, int), Seq<char>> {
    if i >= lines.len() || !is_fence(lines[i]) {
        Err("Expected code fence at line "@ + decimal(i as nat))
    } else {
        let close = fence_at(lines, i + 1);
        if close >= lines.len() {
            Err("Unclosed code block"@)
        } else {
            Ok((block_of(lines.subrange(i + 1, close)), close + 1))
        }
    }
}

/// The tool name on a (trimmed) display line of a tool call.
pub open spec fn display_name(line: Seq<char>) -> Option<Seq<char>> {
    match after_prefix(line, "🔧 **Tool Call:"@) {
        Some(rest) => match before_suffix(rest, "**"@) {
            Some(name) => Some(trim(name)),
            None => None,
        },
        None => None,
    }
}

/// A (trimmed) line that the search for a tool's name does not go past.
pub open spec fn ends_name_search(line: Seq<char>) -> bool {
    ||| line == "---"@
    ||| has_prefix(line, "**Agent:"@)
    ||| has_prefix(line, "**You:"@)
    ||| has_prefix(line, "**Tool:"@)
}

/// The tool name on the nearest display line above line `current`, within the
/// same section.
pub open spec fn name_above(lines: Seq<Seq<char>>, current: int) -> Option<Seq<char>>
    decreases current,
{
    if current <= 0 {
        None
    } else {
        let line = trim(lines[current - 1]);
        match display_name(line) {
            Some(name) => Some(name),
            None => if ends_name_search(line) {
                None
            } else {
                name_above(lines, current - 1)
            },
        }
    }
}

/// The identifier in a header such as `**Tool:id**`.
pub open spec fn header_id(line: Seq<char>, prefix: Seq<char>) -> Option<Seq<char>> {
    match after_prefix(line, prefix) {
        Some(rest) => match before_suffix(rest, "**"@) {
            Some(id) => Some(trim(id)),
            None => None,
        },
        None => None,
    }
}

pub open spec fn text_message(role: Role, text: Seq<char>) -> MessageView {
    MessageView { role, content: ContentView::Text(text) }
}

/// The tool call whose header is on line `i`.
pub open spec fn tool_call_at(lines: Seq<Seq<char>>, i: int) -> Result<
    Option<(MessageView, int)>,
    Seq<char>,
> {
    let line = trim(lines[i]);
    match header_id(line, "**Agent:tool_call:"@) {
        None => Err("Malformed tool_call header: "@ + line),
        Some(tool_call_id) => match block_at(lines, fence_at(lines, i + 1)) {
            Err(e) => Err(e),
            Ok((arguments, next)) => match name_above(lines, next) {
                None => Err("Could not find tool name in previous lines"@),
                Some(name) => Ok(
                    Some(
                        (
                            MessageView {
                                role: Role::Assistant,
                                content: ContentView::ToolCall {
                                    tool_call_id,
                                    function: FunctionCallView { name, arguments },
                                },
                            },
                            next,
                        ),
                    ),
                ),
            },
        },
    }
}

/// The tool result whose header is on line `i`.
pub open spec fn tool_result_at(lines: Seq<Seq<char>>, i: int) -> Result<
    Option<(MessageView, int)>,
    Seq<char>,
> {
    let line = trim(lines[i]);
    match header_id(line, "**Tool:"@) {
        None => Err("Malformed tool result header: "@ + line),
        Some(tool_call_id) => match block_at(lines, fence_at(lines, i + 1)) {
            Err(e) => Err(e),
            Ok((content, next)) => Ok(
                Some(
                    (
                        MessageView {
                            role: Role::Tool,
                            content: ContentView::ToolResult { tool_call_id, content },
                        },
                        next,
                    ),
                ),
            ),
        },
    }
}

/// The message whose header is on line `i`, with the line behind it; `None`
/// where line `i` is no header.
pub open spec fn message_at(lines: Seq<Seq<char>>, i: int) -> Result<
    Option<(MessageView, int)>,
    Seq<char>,
> {
    if i >= lines.len() {
        Ok(None)
    } else {
        let line = trim(lines[i]);
        if has_prefix(line, "**You:**"@) {
            Ok(
                Some(
                    (
                        text_message(Role::User, text_at(lines, i, "**You:**"@)),
                        text_stop(lines, i + 1),
                    ),
                ),
            )
        } else if has_prefix(line, "**Agent:tool_call:"@) {
            tool_call_at(lines, i)
        } else if has_prefix(line, "**Tool:"@) {
            tool_result_at(lines, i)
        } else if has_prefix(line, "**Agent:**"@) {
            Ok(
                Some(
                    (
                        text_message(Role::Assistant, text_at(lines, i, "**Agent:**"@)),
                        text_stop(lines, i + 1),
                    ),
                ),
            )
        } else if has_prefix(line, "**System:**"@) {
            Ok(
                Some(
                    (
                        text_message(Role::System, text_at(lines, i, "**System:**"@)),
                        text_stop(lines, i + 1),
                    ),
                ),
            )
        } else {
            Ok(None)
        }
    }
}

/// The messages of the lines from `i` on, or the first error among them.
pub open spec fn messages_from(lines: Seq<Seq<char>>, i: int) -> Result<
    Seq<MessageView>,
    Seq<char>,
>
    decreases lines.len() - i,
    via messages_from_decreases
{
    if i >= lines.len() {
        Ok(seq![])
    } else if trim(lines[i]).len() == 0 || trim(lines[i]) == "---"@ {
        messages_from(lines, i + 1)
    } else {
        match message_at(lines, i) {
            Err(e) => Err(e),
            Ok(None) => messages_from(lines, i + 1),
            Ok(Some((m, next))) => match messages_from(lines, next) {
                Err(e) => Err(e),
                Ok(rest) => Ok(seq![m] + rest),
            },
        }
    }
}

#[via_fn]
proof fn messages_from_decreases(lines: Seq<Seq<char>>, i: int) {
    if i < lines.len() {
        lemma_message_at_advances(lines, i);
    }
}

pub proof fn lemma_fence_at(lines: Seq<Seq<char>>, i: int)
    requires
        0 <= i <= lines.len(),
    ensures
        i <= fence_at(lines, i) <= lines.len(),
        fence_at(lines, i) < lines.len() ==> is_fence(lines[fence_at(lines, i)]),
        forall|k: int| i <= k < fence_at(lines, i) ==> !is_fence(#[trigger] lines[k]),
    decreases lines.len() - i,
{
    if i < lines.len() && !is_fence(lines[i]) {
        lemma_fence_at(lines, i + 1);
    }
}

/// A message takes up at least the line of its header.
pub proof fn lemma_message_at_advances(lines: Seq<Seq<char>>, i: int)
    requires
        i < lines.len(),
    ensures
        message_at(lines, i) matches Ok(Some((_, next))) ==> i < next <= lines.len(),
{
    lemma_text_stop_advances(lines, i + 1);
    lemma_fence_advances(lines, i + 1);
    if fence_at(lines, i + 1) < lines.len() {
        lemma_fence_advances(lines, fence_at(lines, i + 1) + 1);
    }
}

proof fn lemma_text_stop_advances(lines: Seq<Seq<char>>, i: int)
    requires
        i <= lines.len(),
    ensures
        i <= text_stop(lines, i) <= lines.len(),
    decreases lines.len() - i,
{
    if i < lines.len() && !is_header(trim(lines[i])) {
        lemma_text_stop_advances(lines, i + 1);
    }
}

proof fn lemma_fence_advances(lines: Seq<Seq<char>>, i: int)
    requires
        i <= lines.len(),
    ensures
        i <= fence_at(lines, i) <= lines.len(),
    decreases lines.len() - i,
{
    if i < lines.len() && !is_fence(lines[i]) {
        lemma_fence_advances(lines, i + 1);
    }
}

/// `n` empty lines.
pub open spec fn blanks(n: nat) -> Seq<Seq<char>> {
    Seq::new(n, |i: int| seq![])
}

// ── The parser ───────────────────────────────────────────────────────────────

/// Whether a trimmed line delimits message sections: only the role headers and
/// the turn separator do, general bold text does not.
pub fn is_message_header(line: &str) -> (r: bool)
    ensures
        r == is_header(line@),
{
    str_eq(line, "---") || starts_with(line, "**You:") || starts_with(line, "**Agent:")
        || starts_with(line, "**Tool:") || starts_with(line, "**System:")
}

fn is_code_fence(line: &str) -> (r: bool)
    ensures
        r == is_fence(line@),
{
    starts_with(trim_str(line), "```")
}

/// What stands behind `prefix` on a header line.
fn text_behind(line: &str, prefix: &str) -> (r: String)
    ensures
        r@ == inline_text(line@, prefix@),
{
    match strip_prefix(trim_start_str(line), prefix) {
        Some(s) => match strip_prefix(s, " ") {
            Some(text) => text.to_owned(),
            None => s.to_owned(),
        },
        None => String::new(),
    }
}

/// Takes off the blank lines at either end.
fn without_blank_ends(parts: Vec<String>) -> (r: Vec<String>)
    ensures
        views(r@) == drop_blank_back(drop_blank_front(views(parts@))),
{
    let ghost all = views(parts@);
    let mut kept = parts;
    while kept.len() > 0 && trim_str(kept[0].as_str()).is_empty()
        invariant
            drop_blank_front(views(kept@)) == drop_blank_front(all),
        ensures
            kept@.len() == 0 || !is_blank(kept@[0]@),
            drop_blank_front(views(kept@)) == drop_blank_front(all),
        decreases kept.len(),
    {
        let ghost before = kept@;
        assert(views(before)[0] == before[0]@);
        kept.remove(0);
        assert(views(kept@) =~= views(before).skip(1));
    }
    let ghost front = views(kept@);
    assert(front.len() > 0 ==> front[0] == kept@[0]@);
    assert(front == drop_blank_front(all));
    while kept.len() > 0 && trim_str(kept[kept.len() - 1].as_str()).is_empty()
        invariant
            drop_blank_back(views(kept@)) == drop_blank_back(front),
        ensures
            kept@.len() == 0 || !is_blank(kept@.last()@),
            drop_blank_back(views(kept@)) == drop_blank_back(front),
        decreases kept.len(),
    {
        let ghost before = kept@;
        assert(views(before).last() == before.last()@);
        kept.pop();
        assert(views(kept@) =~= views(before).drop_last());
    }
    assert(kept@.len() > 0 ==> views(kept@).last() == kept@.last()@);
    kept
}

/// Collects the text of a message whose header, with the given prefix, is on
/// line `i`, and moves `i` behind it.
pub fn extract_text_content(lines: &Vec<String>, i: &mut usize, prefix: &str) -> (r: String)
    requires
        *old(i) < lines@.len(),
    ensures
        r@ == text_at(views(lines@), *old(i) as int, prefix@),
        *final(i) == text_stop(views(lines@), *old(i) + 1),
{
    let n: usize = lines.len();
    let ghost all = views(lines@);
    let ghost start = *i as int;
    assert(all[start] == lines@[start]@);
    let mut parts: Vec<String> = Vec::new();
    parts.push(text_behind(lines[*i].as_str(), prefix));
    *i += 1;
    assert(views(parts@) =~= text_parts(all, start, start + 1, prefix@));
    while *i < n && !is_message_header(trim_str(lines[*i].as_str()))
        invariant
            n == lines@.len(),
            all == views(lines@),
            0 <= start < *i <= lines@.len(),
            views(parts@) == text_parts(all, start, *i as int, prefix@),
            text_stop(all, start + 1) == text_stop(all, *i as int),
        decreases n - *i,
    {
        let ghost before = parts@;
        assert(all[*i as int] == lines@[*i as int]@);
        parts.push(lines[*i].clone());
        assert(views(parts@) =~= views(before).push(all[*i as int]));
        assert(text_parts(all, start, *i + 1, prefix@) =~= views(before).push(all[*i as int]));
        *i += 1;
    }
    proof {
        if *i < lines@.len() {
            assert(all[*i as int] == lines@[*i as int]@);
        }
    }
    join_strings(&without_blank_ends(parts), "\n")
}

/// Moves `i` to the next code fence, or to the end.
pub fn skip_until_code_fence(lines: &Vec<String>, i: &mut usize)
    requires
        *old(i) <= lines@.len(),
    ensures
        *final(i) == fence_at(views(lines@), *old(i) as int),
{
    let ghost all = views(lines@);
    while *i < lines.len() && !is_code_fence(lines[*i].as_str())
        invariant
            all == views(lines@),
            *i <= lines@.len(),
            fence_at(all, *old(i) as int) == fence_at(all, *i as int),
        decreases lines.len() - *i,
    {
        assert(all[*i as int] == lines@[*i as int]@);
        *i += 1;
    }
    proof {
        if *i < lines@.len() {
            assert(all[*i as int] == lines@[*i as int]@);
        }
    }
}

/// The view of a parse result.
pub open spec fn text_result(r: Result<String, String>) -> Result<Seq<char>, Seq<char>> {
    match r {
        Ok(s) => Ok(s@),
        Err(e) => Err(e@),
    }
}

/// Reads the code block whose opening fence is on line `i` and moves `i`
/// behind it.
pub fn extract_code_block(lines: &Vec<String>, i: &mut usize) -> (r: Result<String, String>)
    requires
        *old(i) <= lines@.len(),
    ensures
        text_result(r) == (match block_at(views(lines@), *old(i) as int) {
            Ok((content, next)) => Ok(content),
            Err(e) => Err(e),
        }),
        block_at(views(lines@), *old(i) as int) matches Ok((content, next)) ==> *final(i) == next,
        *old(i) <= *final(i) <= lines@.len(),
{
    let ghost all = views(lines@);
    let ghost open = *i as int;
    if *i >= lines.len() || !is_code_fence(lines[*i].as_str()) {
        proof {
            if *i < lines@.len() {
                assert(all[*i as int] == lines@[*i as int]@);
            }
        }
        let mut msg = "Expected code fence at line ".to_owned();
        push_decimal(&mut msg, *i as u64);
        return Err(msg);
    }
    assert(all[*i as int] == lines@[*i as int]@);
    *i += 1;
    let mut body: Vec<String> = Vec::new();
    assert(views(body@) =~= all.subrange(open + 1, *i as int));
    while *i < lines.len() && !is_code_fence(lines[*i].as_str())
        invariant
            all == views(lines@),
            0 <= open < *i <= lines@.len(),
            fence_at(all, open + 1) == fence_at(all, *i as int),
            views(body@) == all.subrange(open + 1, *i as int),
        decreases lines.len() - *i,
    {
        let ghost before = body@;
        assert(all[*i as int] == lines@[*i as int]@);
        body.push(lines[*i].clone());
        assert(views(body@) =~= views(before).push(all[*i as int]));
        assert(all.subrange(open + 1, *i + 1) =~= views(before).push(all[*i as int]));
        *i += 1;
    }
    if *i < lines.len() {
        assert(all[*i as int] == lines@[*i as int]@);
        *i += 1;
        Ok(join_strings(&body, "\n"))
    } else {
        Err("Unclosed code block".to_owned())
    }
}

/// Scans backward from `current` for the display line with a tool's name,
/// within the same section.
pub fn extract_tool_name_from_previous_lines(lines: &Vec<String>, current: usize) -> (r: Result<
    String,
    String,
>)
    requires
        current <= lines@.len(),
    ensures
        text_result(r) == (match name_above(views(lines@), current as int) {
            Some(name) => Ok(name),
            None => Err("Could not find tool name in previous lines"@),
        }),
{
    let ghost all = views(lines@);
    let mut j: usize = current;
    while j > 0
        invariant
            all == views(lines@),
            j <= current <= lines@.len(),
            name_above(all, current as int) == name_above(all, j as int),
        decreases j,
    {
        let line = trim_str(lines[j - 1].as_str());
        assert(all[j - 1] == lines@[j - 1]@);
        if let Some(rest) = strip_prefix(line, "🔧 **Tool Call:") {
            if let Some(name) = strip_suffix(rest, "**") {
                return Ok(trim_str(name).to_owned());
            }
        }
        if str_eq(line, "---") || starts_with(line, "**Agent:") || starts_with(line, "**You:")
            || starts_with(line, "**Tool:") {
            return Err("Could not find tool name in previous lines".to_owned());
        }
        j -= 1;
    }
    Err("Could not find tool name in previous lines".to_owned())
}

/// Reads the identifier of a header such as `**Tool:id**`.
fn parse_header_id(line: &str, prefix: &str) -> (r: Option<String>)
    ensures
        header_id(line@, prefix@) == match r {
            Some(id) => Some(id@),
            None => None,
        },
{
    match strip_prefix(line, prefix) {
        Some(rest) => match strip_suffix(rest, "**") {
            Some(id) => Some(trim_str(id).to_owned()),
            None => None,
        },
        None => None,
    }
}

fn parse_tool_call(lines: &Vec<String>, i: &mut usize) -> (r: Result<Option<Message>, String>)
    requires
        *old(i) < lines@.len(),
    ensures
        parsed(tool_call_at(views(lines@), *old(i) as int), r, *final(i) as int),
{
    let n: usize = lines.len();
    let ghost all = views(lines@);
    assert(all[*i as int] == lines@[*i as int]@);
    let line = trim_str(lines[*i].as_str());
    let tool_call_id = match parse_header_id(line, "**Agent:tool_call:") {
        Some(id) => id,
        None => {
            let mut msg = "Malformed tool_call header: ".to_owned();
            msg.append(line);
            return Err(msg);
        },
    };
    *i += 1;
    proof {
        lemma_fence_at(all, *i as int);
    }
    skip_until_code_fence(lines, i);
    let arguments = match extract_code_block(lines, i) {
        Ok(arguments) => arguments,
        Err(e) => {
            return Err(e);
        },
    };
    let name = match extract_tool_name_from_previous_lines(lines, *i) {
        Ok(name) => name,
        Err(e) => {
            return Err(e);
        },
    };
    Ok(
        Some(
            Message {
                role: Role::Assistant,
                content: MessageContent::ToolCall {
                    tool_call_id,
                    function: FunctionCall { name, arguments },
                },
            },
        ),
    )
}

fn parse_tool_result(lines: &Vec<String>, i: &mut usize) -> (r: Result<Option<Message>, String>)
    requires
        *old(i) < lines@.len(),
    ensures
        parsed(tool_result_at(views(lines@), *old(i) as int), r, *final(i) as int),
{
    let n: usize = lines.len();
    let ghost all = views(lines@);
    assert(all[*i as int] == lines@[*i as int]@);
    let line = trim_str(lines[*i].as_str());
    let tool_call_id = match parse_header_id(line, "**Tool:") {
        Some(id) => id,
        None => {
            let mut msg = "Malformed tool result header: ".to_owned();
            msg.append(line);
            return Err(msg);
        },
    };
    *i += 1;
    proof {
        lemma_fence_at(all, *i as int);
    }
    skip_until_code_fence(lines, i);
    let content = match extract_code_block(lines, i) {
        Ok(content) => content,
        Err(e) => {
            return Err(e);
        },
    };
    Ok(
        Some(
            Message {
                role: Role::Tool,
                content: MessageContent::ToolResult { tool_call_id, content },
            },
        ),
    )
}

/// The result of parsing one message is `expected`, with `next` the line behind
/// the message.
pub open spec fn parsed(
    expected: Result<Option<(MessageView, int)>, Seq<char>>,
    r: Result<Option<Message>, String>,
    next: int,
) -> bool {
    match expected {
        Err(e) => r matches Err(msg) && msg@ == e,
        Ok(None) => r matches Ok(None),
        Ok(Some((m, after))) => r matches Ok(Some(msg)) && msg@ == m && next == after,
    }
}

/// Parses the message whose header is on line `i` and moves `i` behind it.
/// Where line `i` is no header there is no message, and `i` stays.
pub fn parse_message_at_line(lines: &Vec<String>, i: &mut usize) -> (r: Result<
    Option<Message>,
    String,
>)
    ensures
        parsed(message_at(views(lines@), *old(i) as int), r, *final(i) as int),
        message_at(views(lines@), *old(i) as int) matches Ok(None) ==> *final(i) == *old(i),
{
    if *i >= lines.len() {
        return Ok(None);
    }
    let ghost all = views(lines@);
    assert(all[*i as int] == lines@[*i as int]@);
    let line = trim_str(lines[*i].as_str());
    if starts_with(line, "**You:**") {
        let text = extract_text_content(lines, i, "**You:**");
        return Ok(Some(Message::user(text.as_str())));
    }
    if starts_with(line, "**Agent:tool_call:") {
        return parse_tool_call(lines, i);
    }
    if starts_with(line, "**Tool:") {
        return parse_tool_result(lines, i);
    }
    if starts_with(line, "**Agent:**") {
        let text = extract_text_content(lines, i, "**Agent:**");
        return Ok(Some(Message::assistant(text.as_str())));
    }
    if starts_with(line, "**System:**") {
        let text = extract_text_content(lines, i, "**System:**");
        return Ok(Some(Message::system(text.as_str())));
    }
    Ok(None)
}

/// Parses a Markdown buffer back into messages. Lines that belong to no message
/// are passed over; the first malformed tool section is an error.
pub fn parse_markdown_to_messages(markdown: &str) -> (r: Result<Vec<Message>, String>)
    ensures
        messages_from(lines(markdown@), 0) == match r {
            Ok(messages) => Ok(message_views(messages@)),
            Err(e) => Err(e@),
        },
{
    let buffer = lines_of(markdown);
    let n: usize = buffer.len();
    let ghost all = views(buffer@);
    let mut messages: Vec<Message> = Vec::new();
    let mut i: usize = 0;
    proof {
        assert(message_views(messages@) =~= seq![]);
        lemma_prepend_nothing(messages_from(all, 0));
    }
    while i < n
        invariant
            n == buffer@.len(),
            all == views(buffer@),
            all == lines(markdown@),
            i <= n,
            messages_from(all, 0) == prepend(message_views(messages@), messages_from(all, i as int)),
        decreases n - i,
    {
        assert(all[i as int] == buffer@[i as int]@);
        let line = trim_str(buffer[i].as_str());
        if line.is_empty() || str_eq(line, "---") {
            i += 1;
            continue ;
        }
        let ghost at = i as int;
        proof {
            lemma_message_at_advances(all, at);
        }
        match parse_message_at_line(&buffer, &mut i) {
            Err(e) => {
                return Err(e);
            },
            Ok(Some(msg)) => {
                let ghost before = messages@;
                messages.push(msg);
                proof {
                    assert(message_views(messages@) =~= message_views(before).push(msg@));
                    lemma_prepend_push(message_views(before), msg@, messages_from(all, i as int));
                }
            },
            Ok(None) => {
                i += 1;
            },
        }
    }
    proof {
        assert(message_views(messages@) + seq![] =~= message_views(messages@));
    }
    Ok(messages)
}

/// `head` in front of the messages of `rest`, unless that is an error.
spec fn prepend(head: Seq<MessageView>, rest: Result<Seq<MessageView>, Seq<char>>) -> Result<
    Seq<MessageView>,
    Seq<char>,
> {
    match rest {
        Ok(tail) => Ok(head + tail),
        Err(e) => Err(e),
    }
}

proof fn lemma_prepend_nothing(rest: Result<Seq<MessageView>, Seq<char>>)
    ensures
        prepend(seq![], rest) == rest,
{
    if let Ok(tail) = rest {
        assert(seq![] + tail =~= tail);
    }
}

proof fn lemma_prepend_push(
    head: Seq<MessageView>,
    m: MessageView,
    rest: Result<Seq<MessageView>, Seq<char>>,
)
    ensures
        prepend(head.push(m), rest) == prepend(head, prepend(seq![m], rest)),
{
    if let Ok(tail) = rest {
        assert(head.push(m) + tail =~= head + (seq![m] + tail));
    }
}

} // verus!
