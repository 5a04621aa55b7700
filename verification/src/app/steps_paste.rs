//! Pasting: images become attachments, everything else is put in as text.

use vstd::prelude::*;

use crate::app::editing::{index_of, lemma_offset, on_boundary, position};
use crate::app::front::{
    add_when, effect_views, given, no_effects, nothing, App, AppView, Effect, EffectView, StepView,
};
use crate::app::input_state::{
    attachment_views, is_image, is_image_path, AttachmentView, InputAttachment, InputState, InputView,
};
use crate::commands::completion::opt_string_view;
use crate::text::{
    after_prefix, before_suffix, byte_len, byte_length, chars_of, opt_view, split_on, split_str,
    string_of, strip_prefix, strip_suffix, trim, trim_str, views,
};

verus! {

// ── The lines of a paste ─────────────────────────────────────────────────────

/// A text whose lines end with a line feed alone.
pub open spec fn normalised(s: Seq<char>) -> Seq<char>
    decreases s.len(),
{
    if s.len() == 0 {
        seq![]
    } else {
        let init = normalised(s.drop_last());
        if s.last() == '\r' {
            init.push('\n')
        } else if s.last() == '\n' && s.len() > 1 && s[s.len() - 2] == '\r' {
            init
        } else {
            init.push(s.last())
        }
    }
}

/// The lines of a paste.
pub open spec fn paste_parts(text: Seq<char>) -> Seq<Seq<char>> {
    split_on(normalised(text), '\n')
}

fn normalise(s: &str) -> (r: String)
    ensures
        r@ == normalised(s@),
{
    let chars = chars_of(s);
    let mut out = String::new();
    let mut i: usize = 0;
    assert(s@.take(0) =~= seq![]);
    assert(out@ =~= seq![]);
    while i < chars.len()
        invariant
            chars@ == s@,
            i <= chars@.len(),
            out@ == normalised(s@.take(i as int)),
        decreases chars.len() - i,
    {
        let c = chars[i];
        proof {
            assert(s@.take(i + 1).drop_last() =~= s@.take(i as int));
            assert(s@.take(i + 1).last() == c);
        }
        if c == '\r' {
            out.push('\n');
        } else if !(c == '\n' && i > 0 && chars[i - 1] == '\r') {
            out.push(c);
        }
        i += 1;
    }
    assert(s@.take(s@.len() as int) =~= s@);
    out
}

/// The lines of a paste.
pub fn paste_lines(text: &str) -> (r: Vec<String>)
    ensures
        views(r@) == paste_parts(text@),
{
    split_str(normalise(text).as_str(), '\n')
}

// ── Paths ────────────────────────────────────────────────────────────────────

/// A text without a quotation mark at each end.
pub open spec fn unquoted(s: Seq<char>, mark: Seq<char>) -> Option<Seq<char>> {
    match after_prefix(s, mark) {
        Some(rest) => before_suffix(rest, mark),
        None => None,
    }
}

/// The path that a line may be: without the scheme of a file and without
/// quotation marks.
pub open spec fn path_in(line: Seq<char>) -> Seq<char> {
    let t = trim(line);
    let s = match after_prefix(t, "file://"@) {
        Some(rest) => rest,
        None => t,
    };
    match unquoted(s, "\""@) {
        Some(inner) => inner,
        None => match unquoted(s, "'"@) {
            Some(inner) => inner,
            None => s,
        },
    }
}

/// The path with the home directory in place of `~`.
pub open spec fn at_home(path: Seq<char>, home: Option<Seq<char>>) -> Seq<char> {
    match (after_prefix(path, "~/"@), home) {
        (Some(rest), Some(h)) => h + "/"@ + rest,
        _ => path,
    }
}

fn unquote<'a>(s: &'a str, mark: &str) -> (r: Option<&'a str>)
    ensures
        opt_view(r) == unquoted(s@, mark@),
{
    match strip_prefix(s, mark) {
        Some(rest) => strip_suffix(rest, mark),
        None => None,
    }
}

/// The path that a pasted line may be; whether there is such a file is for the
/// caller to find out.
pub fn paste_candidate(line: &str, home: &Option<String>) -> (r: String)
    ensures
        r@ == at_home(path_in(line@), opt_string_view(*home)),
{
    let t = trim_str(line);
    let s = match strip_prefix(t, "file://") {
        Some(rest) => rest,
        None => t,
    };
    let path = match unquote(s, "\"") {
        Some(inner) => inner,
        None => match unquote(s, "'") {
            Some(inner) => inner,
            None => s,
        },
    };
    match home {
        Some(h) => match strip_prefix(path, "~/") {
            Some(rest) => {
                let mut out = h.clone();
                out.append("/");
                out.append(rest);
                out
            },
            None => path.to_owned(),
        },
        None => path.to_owned(),
    }
}

// ── Pasting ──────────────────────────────────────────────────────────────────

/// What a paste brings.
pub struct PastedView {
    pub text: Seq<char>,
    pub images: Seq<AttachmentView>,
}

/// A line is the path of an image.
pub open spec fn names_image(found: Option<Seq<char>>) -> bool {
    found matches Some(p) && is_image(p)
}

/// What the first `n` lines bring; `found` holds the paths of those that exist.
pub open spec fn brought(parts: Seq<Seq<char>>, found: Seq<Option<Seq<char>>>, n: int) -> PastedView
    decreases n,
{
    if n <= 0 {
        PastedView { text: seq![], images: seq![] }
    } else {
        let p = brought(parts, found, n - 1);
        if names_image(found[n - 1]) {
            PastedView {
                images: p.images.push(AttachmentView::Image(found[n - 1]->0)),
                ..p
            }
        } else {
            PastedView {
                text: (if n > 1 {
                    p.text.push('\n')
                } else {
                    p.text
                }) + parts[n - 1],
                ..p
            }
        }
    }
}

/// The views of optional strings.
pub open spec fn opt_string_views(v: Seq<Option<String>>) -> Seq<Option<Seq<char>>> {
    v.map_values(|o: Option<String>| opt_string_view(o))
}

impl InputView {
    /// With a text put in at the cursor, and images attached.
    pub open spec fn with_paste(self, p: PastedView) -> InputView {
        let k = position(self.buffer, self.cursor);
        InputView {
            buffer: self.buffer.take(k) + p.text + self.buffer.skip(k),
            cursor: byte_len(self.buffer.take(k) + p.text),
            attachments: self.attachments + p.images,
            ..self
        }
    }
}

impl AppView {
    /// A text pasted; `found` holds, line by line, the path of the file that a
    /// line names, if there is one.
    pub open spec fn pasted(self, text: Seq<char>, found: Seq<Option<Seq<char>>>) -> StepView {
        let parts = paste_parts(text);
        let input = self.input.with_paste(brought(parts, found, parts.len() as int));
        StepView {
            app: AppView { input, ..self },
            effects: nothing() + given(input.wants_completion(), EffectView::RefreshCompletions),
        }
    }
}

fn split_paste(parts: &Vec<String>, found: &Vec<Option<String>>) -> (r: (
    String,
    Vec<InputAttachment>,
))
    requires
        found@.len() == parts@.len(),
    ensures
        ({
            let p = brought(views(parts@), opt_string_views(found@), parts@.len() as int);
            r.0@ == p.text && attachment_views(r.1@) == p.images
        }),
{
    let ghost lines = views(parts@);
    let ghost paths = opt_string_views(found@);
    let mut text = String::new();
    let mut images: Vec<InputAttachment> = Vec::new();
    let mut i: usize = 0;
    assert(text@ =~= seq![]);
    assert(attachment_views(images@) =~= seq![]);
    while i < parts.len()
        invariant
            lines == views(parts@),
            paths == opt_string_views(found@),
            found@.len() == parts@.len(),
            i <= parts@.len(),
            text@ == brought(lines, paths, i as int).text,
            attachment_views(images@) == brought(lines, paths, i as int).images,
        decreases parts.len() - i,
    {
        assert(lines[i as int] == parts@[i as int]@);
        assert(paths[i as int] == opt_string_view(found@[i as int]));
        let image = match &found[i] {
            Some(p) => is_image_path(p.as_str()),
            None => false,
        };
        let ghost before = images@;
        if image {
            if let Some(p) = &found[i] {
                let a = InputAttachment::Image(p.clone());
                images.push(a);
                assert(attachment_views(images@) =~= attachment_views(before).push(a@));
            }
        } else {
            if i > 0 {
                text.push('\n');
            }
            text.append(parts[i].as_str());
        }
        i += 1;
    }
    (text, images)
}

impl InputState {
    fn put_in(&mut self, text: &str)
        requires
            on_boundary(old(self)@.buffer, old(self)@.cursor),
        ensures
            final(self)@ == old(self)@.with_paste(PastedView { text: text@, images: seq![] }),
            on_boundary(final(self)@.buffer, final(self)@.cursor),
    {
        let ghost v = self@;
        let ghost k = position(v.buffer, v.cursor);
        let chars = chars_of(self.buffer.as_str());
        let n: usize = chars.len();
        let at: usize = index_of(&chars, self.cursor);
        let mut out = string_of(&chars, 0, at);
        out.append(text);
        assert(out@ =~= v.buffer.take(k) + text@);
        let ghost head = out@;
        let cursor: usize = byte_length(out.as_str());
        let tail = string_of(&chars, at, n);
        out.append(tail.as_str());
        assert(tail@ =~= v.buffer.skip(k));
        proof {
            assert(out@.take(head.len() as int) =~= head);
            lemma_offset(out@, head.len() as int);
        }
        self.buffer = out;
        self.cursor = cursor;
        assert(self@.attachments =~= v.attachments + seq![]);
    }
}

impl App {
    /// Pastes a text. The caller has looked for the file that each line names,
    /// and gives its path where there is one.
    pub fn paste(&mut self, text: &str, found: &Vec<Option<String>>) -> (r: Vec<Effect>)
        requires
            on_boundary(old(self)@.input.buffer, old(self)@.input.cursor),
            found@.len() == paste_parts(text@).len(),
        ensures
            final(self)@ == old(self)@.pasted(text@, opt_string_views(found@)).app,
            effect_views(r@) == old(self)@.pasted(text@, opt_string_views(found@)).effects,
    {
        let parts = paste_lines(text);
        assert(views(parts@).len() == parts@.len());
        let (inserted, images) = split_paste(&parts, found);
        self.input.put_in(inserted.as_str());
        let mut images = images;
        let ghost had = self.input.attachments@;
        let ghost more = images@;
        self.input.attachments.append(&mut images);
        assert(attachment_views(self.input.attachments@) =~= attachment_views(had)
            + attachment_views(more));
        let mut out = no_effects();
        let show = self.should_show_completion();
        add_when(&mut out, show, Effect::RefreshCompletions);
        out
    }
}

// ── Laws ─────────────────────────────────────────────────────────────────────

/// A pasted text has no carriage returns in it.
pub proof fn law_paste_has_no_carriage_returns(s: Seq<char>)
    ensures
        !normalised(s).contains('\r'),
    decreases s.len(),
{
    if s.len() > 0 {
        let init = normalised(s.drop_last());
        law_paste_has_no_carriage_returns(s.drop_last());
        assert(forall|i: int| 0 <= i < init.len() ==> init[i] != '\r') by {
            if exists|i: int| 0 <= i < init.len() && init[i] == '\r' {
                assert(init.contains('\r'));
            }
        }
    }
}

/// A text without images is put in as it is, but for the ends of its lines.
pub proof fn law_text_is_pasted_whole(text: Seq<char>, found: Seq<Option<Seq<char>>>)
    requires
        found.len() == paste_parts(text).len(),
        forall|i: int| 0 <= i < found.len() ==> !names_image(#[trigger] found[i]),
    ensures
        brought(paste_parts(text), found, found.len() as int).text == normalised(text),
        brought(paste_parts(text), found, found.len() as int).images.len() == 0,
{
    let parts = paste_parts(text);
    lemma_brought_is_joined(parts, found, parts.len() as int);
    assert(parts.take(parts.len() as int) =~= parts);
    lemma_joined_split(normalised(text));
}

spec fn joined(parts: Seq<Seq<char>>) -> Seq<char>
    decreases parts.len(),
{
    if parts.len() == 0 {
        seq![]
    } else if parts.len() == 1 {
        parts[0]
    } else {
        joined(parts.drop_last()).push('\n') + parts.last()
    }
}

proof fn lemma_brought_is_joined(parts: Seq<Seq<char>>, found: Seq<Option<Seq<char>>>, n: int)
    requires
        0 <= n <= parts.len(),
        found.len() == parts.len(),
        forall|i: int| 0 <= i < found.len() ==> !names_image(#[trigger] found[i]),
    ensures
        brought(parts, found, n).text == joined(parts.take(n)),
        brought(parts, found, n).images.len() == 0,
    decreases n,
{
    if n > 0 {
        lemma_brought_is_joined(parts, found, n - 1);
        assert(parts.take(n).drop_last() =~= parts.take(n - 1));
        assert(!names_image(found[n - 1]));
        if n == 1 {
            assert(parts.take(0) =~= seq![]);
            assert(brought(parts, found, 0).text + parts[0] =~= parts[0]);
        }
    } else {
        assert(parts.take(0) =~= seq![]);
    }
}

proof fn lemma_joined_split(s: Seq<char>)
    ensures
        joined(split_on(s, '\n')) == s,
    decreases s.len(),
{
    let parts = split_on(s, '\n');
    crate::text::lemma_split_on_len(s, '\n');
    if s.len() > 0 {
        lemma_joined_split(s.drop_last());
        crate::text::lemma_split_on_len(s.drop_last(), '\n');
        let init = split_on(s.drop_last(), '\n');
        assert(s.drop_last().push(s.last()) =~= s);
        if s.last() == '\n' {
            assert(parts.drop_last() =~= init);
            assert(joined(parts) =~= s);
        } else {
            assert(parts.drop_last() =~= init.drop_last());
            assert(parts.last() == init.last().push(s.last()));
            if init.len() == 1 {
                assert(joined(parts) =~= s);
            } else {
                assert(joined(parts) =~= s);
            }
        }
    } else {
        assert(joined(parts) =~= s);
    }
}

} // verus!
