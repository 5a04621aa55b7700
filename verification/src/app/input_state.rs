//! The input box: text, history and attachments; and the state of editing a
//! message in place.

use vstd::prelude::*;

use crate::commands::completion::opt_string_view;
use crate::text::{
    chars_of, lowercase, split_on, split_str, str_eq, string_of, to_lowercase, trim, trim_str, views,
};

verus! {

// ── Paths ────────────────────────────────────────────────────────────────────

/// The last component of a path that is neither empty nor `.`; there is none
/// where that is `..`.
pub open spec fn last_component(parts: Seq<Seq<char>>) -> Option<Seq<char>>
    decreases parts.len(),
{
    if parts.len() == 0 {
        None
    } else if parts.last().len() == 0 || parts.last() == "."@ {
        last_component(parts.drop_last())
    } else if parts.last() == ".."@ {
        None
    } else {
        Some(parts.last())
    }
}

/// The file name of a path with `/` between its components.
pub open spec fn file_name(path: Seq<char>) -> Option<Seq<char>> {
    last_component(split_on(path, '/'))
}

/// The index of the last `c` in `s`.
pub open spec fn last_index(s: Seq<char>, c: char) -> Option<int>
    decreases s.len(),
{
    if s.len() == 0 {
        None
    } else if s.last() == c {
        Some(s.len() - 1)
    } else {
        last_index(s.drop_last(), c)
    }
}

/// The extension of a file name: what follows its last dot, unless the name
/// begins with that dot.
pub open spec fn name_extension(name: Seq<char>) -> Option<Seq<char>> {
    match last_index(name, '.') {
        Some(i) => if i > 0 {
            Some(name.skip(i + 1))
        } else {
            None
        },
        None => None,
    }
}

/// The extension of a path.
pub open spec fn extension(path: Seq<char>) -> Option<Seq<char>> {
    match file_name(path) {
        Some(name) => name_extension(name),
        None => None,
    }
}

/// Finds the file name of a path.
pub fn find_file_name(path: &str) -> (r: Option<String>)
    ensures
        opt_string_view(r) == file_name(path@),
{
    let parts = split_str(path, '/');
    let ghost all = views(parts@);
    let mut n: usize = parts.len();
    assert(all.take(n as int) =~= all);
    while n > 0
        invariant
            all == views(parts@),
            all == split_on(path@, '/'),
            n <= parts@.len(),
            last_component(all) == last_component(all.take(n as int)),
        decreases n,
    {
        let part = parts[n - 1].as_str();
        assert(all.take(n as int).last() == part@);
        assert(all.take(n as int).drop_last() =~= all.take(n - 1));
        if part.is_empty() || str_eq(part, ".") {
            n -= 1;
        } else if str_eq(part, "..") {
            return None;
        } else {
            return Some(parts[n - 1].clone());
        }
    }
    None
}

/// Finds the extension of a path.
pub fn find_extension(path: &str) -> (r: Option<String>)
    ensures
        opt_string_view(r) == extension(path@),
{
    let name = match find_file_name(path) {
        Some(name) => name,
        None => {
            return None;
        },
    };
    let chars = chars_of(name.as_str());
    let total: usize = chars.len();
    let mut n: usize = total;
    assert(name@.take(n as int) =~= name@);
    while n > 0
        invariant
            chars@ == name@,
            n <= total == chars@.len(),
            last_index(name@, '.') == last_index(name@.take(n as int), '.'),
            file_name(path@) == Some(name@),
        decreases n,
    {
        assert(name@.take(n as int).last() == chars@[n - 1]);
        assert(name@.take(n as int).drop_last() =~= name@.take(n - 1));
        if chars[n - 1] == '.' {
            if n == 1 {
                return None;
            }
            let ext = string_of(&chars, n, total);
            assert(ext@ =~= name@.skip(n as int));
            return Some(ext);
        }
        n -= 1;
    }
    None
}

// ── Attachments ──────────────────────────────────────────────────────────────

/// A file or image, by its path, that is attached to the message being written.
#[derive(Debug, PartialEq, Eq)]
pub enum InputAttachment {
    File(String),
    Image(String),
}

pub enum AttachmentView {
    File(Seq<char>),
    Image(Seq<char>),
}

impl View for InputAttachment {
    type V = AttachmentView;

    open spec fn view(&self) -> AttachmentView {
        match *self {
            InputAttachment::File(p) => AttachmentView::File(p@),
            InputAttachment::Image(p) => AttachmentView::Image(p@),
        }
    }
}

/// The views of a list of attachments.
pub open spec fn attachment_views(v: Seq<InputAttachment>) -> Seq<AttachmentView> {
    v.map_values(|a: InputAttachment| a@)
}

impl AttachmentView {
    /// The path.
    pub open spec fn path(self) -> Seq<char> {
        match self {
            AttachmentView::File(p) => p,
            AttachmentView::Image(p) => p,
        }
    }

    /// The text that stands for the attachment in a message.
    pub open spec fn message_text(self) -> Seq<char> {
        match self {
            AttachmentView::File(p) => "[File: "@ + p + "]"@,
            AttachmentView::Image(p) => "[Image: "@ + p + "]"@,
        }
    }
}

impl Clone for InputAttachment {
    fn clone(&self) -> (r: Self)
        ensures
            r == *self,
    {
        match self {
            InputAttachment::File(p) => InputAttachment::File(p.clone()),
            InputAttachment::Image(p) => InputAttachment::Image(p.clone()),
        }
    }
}

impl InputAttachment {
    fn path_ref(&self) -> (r: &String)
        ensures
            r@ == self@.path(),
    {
        match self {
            InputAttachment::File(p) => p,
            InputAttachment::Image(p) => p,
        }
    }

    /// The file name alone.
    pub fn display_name(&self) -> (r: String)
        ensures
            r@ == (match file_name(self@.path()) {
                Some(name) => name,
                None => "(file)"@,
            }),
    {
        match find_file_name(self.path_ref().as_str()) {
            Some(name) => name,
            None => "(file)".to_owned(),
        }
    }

    /// The icon in front of the name.
    pub fn icon(&self, ascii: bool) -> (r: &'static str)
        ensures
            r@ == (match (self@, ascii) {
                (AttachmentView::Image(_), true) => "[img] "@,
                (AttachmentView::Image(_), false) => "🖼  "@,
                (AttachmentView::File(_), true) => "[file] "@,
                (AttachmentView::File(_), false) => "📎 "@,
            }),
    {
        match self {
            InputAttachment::Image(_) => {
                if ascii {
                    "[img] "
                } else {
                    "🖼  "
                }
            },
            InputAttachment::File(_) => {
                if ascii {
                    "[file] "
                } else {
                    "📎 "
                }
            },
        }
    }

    /// The text that is put into the message.
    pub fn to_message_text(&self) -> (r: String)
        ensures
            r@ == self@.message_text(),
    {
        let (head, path) = match self {
            InputAttachment::File(p) => ("[File: ", p),
            InputAttachment::Image(p) => ("[Image: ", p),
        };
        let mut out = head.to_owned();
        out.append(path.as_str());
        out.append("]");
        out
    }

    /// The full path.
    pub fn full_path(&self) -> (r: String)
        ensures
            r@ == self@.path(),
    {
        self.path_ref().clone()
    }
}

/// The extensions of image files, in lower case.
pub open spec fn is_image_extension(e: Seq<char>) -> bool {
    ||| e == "png"@
    ||| e == "jpg"@
    ||| e == "jpeg"@
    ||| e == "gif"@
    ||| e == "webp"@
    ||| e == "bmp"@
    ||| e == "svg"@
    ||| e == "tiff"@
    ||| e == "tif"@
    ||| e == "ico"@
}

/// A path is that of an image.
pub open spec fn is_image(path: Seq<char>) -> bool {
    match extension(path) {
        Some(e) => is_image_extension(lowercase(e)),
        None => false,
    }
}

/// Whether a lower-case extension is that of an image.
pub fn image_extension(e: &str) -> (r: bool)
    ensures
        r == is_image_extension(e@),
{
    str_eq(e, "png") || str_eq(e, "jpg") || str_eq(e, "jpeg") || str_eq(e, "gif") || str_eq(
        e,
        "webp",
    ) || str_eq(e, "bmp") || str_eq(e, "svg") || str_eq(e, "tiff") || str_eq(e, "tif") || str_eq(
        e,
        "ico",
    )
}

/// Whether a path has the extension of an image, in any case.
pub fn is_image_path(path: &str) -> (r: bool)
    ensures
        r == is_image(path@),
{
    match find_extension(path) {
        Some(e) => image_extension(to_lowercase(e.as_str()).as_str()),
        None => false,
    }
}

// ── The input box ────────────────────────────────────────────────────────────

/// How many sent messages are remembered.
pub const HISTORY_CAP: usize = 100;

/// The state of the input box.
#[derive(Debug, PartialEq, Eq)]
pub struct InputState {
    /// The text.
    pub buffer: String,
    /// The byte offset of the cursor.
    pub cursor: usize,
    /// The first visible line.
    pub scroll_offset: usize,
    /// Sent messages, the oldest first.
    pub history: Vec<String>,
    /// The message that is shown while going through the history.
    pub history_idx: Option<usize>,
    /// The text that was there before.
    pub history_draft: Option<String>,
    /// What is attached to the message.
    pub attachments: Vec<InputAttachment>,
}

pub struct InputView {
    pub buffer: Seq<char>,
    pub cursor: nat,
    pub scroll_offset: nat,
    pub history: Seq<Seq<char>>,
    pub history_idx: Option<usize>,
    pub history_draft: Option<Seq<char>>,
    pub attachments: Seq<AttachmentView>,
}

impl View for InputState {
    type V = InputView;

    open spec fn view(&self) -> InputView {
        InputView {
            buffer: self.buffer@,
            cursor: self.cursor as nat,
            scroll_offset: self.scroll_offset as nat,
            history: views(self.history@),
            history_idx: self.history_idx,
            history_draft: opt_string_view(self.history_draft),
            attachments: attachment_views(self.attachments@),
        }
    }
}

impl InputView {
    /// The empty input box.
    pub open spec fn empty() -> InputView {
        InputView {
            buffer: seq![],
            cursor: 0,
            scroll_offset: 0,
            history: seq![],
            history_idx: None,
            history_draft: None,
            attachments: seq![],
        }
    }

    /// The message of the history that is shown exists.
    pub open spec fn shown_exists(self) -> bool {
        self.history_idx matches Some(i) ==> i < self.history.len()
    }

    /// The history is within its bounds: not too long, no message empty or the
    /// same as the one before, and the one that is shown exists.
    pub open spec fn history_ok(self) -> bool {
        &&& self.history.len() <= HISTORY_CAP
        &&& forall|i: int| 0 <= i < self.history.len() ==> (#[trigger] self.history[i]).len() > 0
        &&& forall|i: int, j: int|
            0 <= i && j == i + 1 && j < self.history.len() ==> #[trigger] self.history[i]
                != #[trigger] self.history[j]
        &&& self.shown_exists()
    }

    /// After a message was sent: it is remembered, trimmed, unless it is empty
    /// or the same as the last; the oldest goes where there are too many.
    pub open spec fn remembered(self, text: Seq<char>) -> InputView {
        let t = trim(text);
        if t.len() == 0 || (self.history.len() > 0 && self.history.last() == t) {
            self
        } else {
            InputView {
                history: (if self.history.len() >= HISTORY_CAP {
                    self.history.skip(1)
                } else {
                    self.history
                }).push(t),
                history_idx: None,
                history_draft: None,
                ..self
            }
        }
    }

    /// One step back in the history: the state and the text to show, if there
    /// is an older one. What was being written is kept as a draft.
    pub open spec fn older(self) -> (InputView, Option<Seq<char>>) {
        if self.history.len() == 0 {
            (self, None)
        } else {
            match self.history_idx {
                None => (
                    InputView {
                        history_idx: Some((self.history.len() - 1) as usize),
                        history_draft: Some(self.buffer),
                        ..self
                    },
                    Some(self.history.last()),
                ),
                Some(i) => if i == 0 {
                    (self, None)
                } else {
                    (
                        InputView { history_idx: Some((i - 1) as usize), ..self },
                        Some(self.history[i - 1]),
                    )
                },
            }
        }
    }

    /// One step forward in the history; behind the newest message the draft
    /// comes back.
    pub open spec fn newer(self) -> (InputView, Option<Seq<char>>) {
        match self.history_idx {
            None => (self, None),
            Some(i) => if i + 1 >= self.history.len() {
                (
                    InputView { history_idx: None, ..self },
                    Some(
                        match self.history_draft {
                            Some(d) => d,
                            None => seq![],
                        },
                    ),
                )
            } else {
                (
                    InputView { history_idx: Some((i + 1) as usize), ..self },
                    Some(self.history[i + 1]),
                )
            },
        }
    }
}

impl InputState {
    /// An empty input box.
    pub fn new() -> (r: InputState)
        ensures
            r@ == InputView::empty(),
            r@.history_ok(),
    {
        let r = InputState {
            buffer: String::new(),
            cursor: 0,
            scroll_offset: 0,
            history: Vec::new(),
            history_idx: None,
            history_draft: None,
            attachments: Vec::new(),
        };
        assert(r.buffer@ =~= seq![]);
        assert(views(r.history@) =~= seq![]);
        assert(attachment_views(r.attachments@) =~= seq![]);
        r
    }

    /// Remembers a message that was sent.
    pub fn push_history(&mut self, text: &str)
        ensures
            final(self)@ == old(self)@.remembered(text@),
            old(self)@.history_ok() ==> final(self)@.history_ok(),
    {
        let trimmed = trim_str(text).to_owned();
        proof {
            law_history_stays_ok(self@, text@);
        }
        if trimmed.as_str().is_empty() {
            return ;
        }
        let n: usize = self.history.len();
        if n > 0 && self.history[n - 1] == trimmed {
            assert(views(self.history@).last() == self.history@[n - 1]@);
            return ;
        }
        let ghost before = self.history@;
        proof {
            if n > 0 {
                assert(views(before).last() == before[n - 1]@);
            }
        }
        if n >= HISTORY_CAP {
            let _ = self.history.remove(0);
            assert(views(self.history@) =~= views(before).skip(1));
        }
        let ghost kept = self.history@;
        self.history.push(trimmed);
        assert(views(self.history@) =~= views(kept).push(trimmed@));
        self.history_idx = None;
        self.history_draft = None;
    }

    /// Goes one step back in the history and returns the text to show, or
    /// `None` at the oldest.
    pub fn history_up(&mut self) -> (r: Option<String>)
        requires
            old(self)@.shown_exists(),
        ensures
            (final(self)@, opt_string_view(r)) == old(self)@.older(),
            final(self)@.shown_exists(),
            old(self)@.history_ok() ==> final(self)@.history_ok(),
    {
        let n: usize = self.history.len();
        assert(views(self.history@).len() == n);
        if n == 0 {
            return None;
        }
        match self.history_idx {
            None => {
                self.history_draft = Some(self.buffer.clone());
                self.history_idx = Some(n - 1);
                assert(views(self.history@).last() == self.history@[n - 1]@);
                Some(self.history[n - 1].clone())
            },
            Some(idx) => {
                if idx == 0 {
                    None
                } else {
                    self.history_idx = Some(idx - 1);
                    assert(views(self.history@)[idx - 1] == self.history@[idx - 1]@);
                    Some(self.history[idx - 1].clone())
                }
            },
        }
    }

    /// Goes one step forward in the history and returns the text to show.
    pub fn history_down(&mut self) -> (r: Option<String>)
        ensures
            (final(self)@, opt_string_view(r)) == old(self)@.newer(),
            final(self)@.shown_exists(),
            old(self)@.history_ok() ==> final(self)@.history_ok(),
    {
        let n: usize = self.history.len();
        assert(views(self.history@).len() == n);
        match self.history_idx {
            None => None,
            Some(idx) => {
                if n == 0 || idx >= n - 1 {
                    self.history_idx = None;
                    match &self.history_draft {
                        Some(d) => Some(d.clone()),
                        None => {
                            let r = String::new();
                            assert(r@ =~= seq![]);
                            Some(r)
                        },
                    }
                } else {
                    self.history_idx = Some(idx + 1);
                    assert(views(self.history@)[idx + 1] == self.history@[idx + 1]@);
                    Some(self.history[idx + 1].clone())
                }
            },
        }
    }
}

/// Remembering a message keeps the history within its bounds: it never grows
/// past its cap and never holds the same message twice in a row.
pub proof fn law_history_stays_ok(v: InputView, text: Seq<char>)
    ensures
        v.history_ok() ==> v.remembered(text).history_ok(),
{
    let n = v.remembered(text);
    if v.history_ok() && n != v {
        let t = trim(text);
        let kept = if v.history.len() >= HISTORY_CAP {
            v.history.skip(1)
        } else {
            v.history
        };
        assert forall|i: int| 0 <= i < n.history.len() implies (#[trigger] n.history[i]).len() > 0 by {
            if i < kept.len() {
                let d = v.history.len() - kept.len();
                assert(n.history[i] == v.history[i + d]);
            }
        }
        assert forall|i: int, j: int|
            0 <= i && j == i + 1 && j < n.history.len() implies #[trigger] n.history[i]
            != #[trigger] n.history[j] by {
            let d = v.history.len() - kept.len();
            assert(n.history[i] == v.history[i + d]);
            if j < kept.len() {
                assert(n.history[j] == v.history[j + d]);
            }
        }
    }
}

/// Going back in the history and forward again undoes the step: the same
/// message is shown again, and behind the newest one what was being written.
pub proof fn law_history_up_then_down(v: InputView)
    requires
        v.shown_exists(),
        v.history.len() <= usize::MAX,
        v.older().1 is Some,
    ensures
        v.older().0.newer().0.history_idx == v.history_idx,
        v.history_idx is None ==> v.older().0.newer().1 == Some(v.buffer),
        v.history_idx matches Some(i) ==> v.older().0.newer().1 == Some(v.history[i as int]),
{
}

impl InputView {
    /// The input box overwritten by another, with the place in the history kept.
    pub open spec fn overwritten(self, other: InputView) -> InputView {
        InputView {
            history: self.history,
            history_idx: self.history_idx,
            history_draft: self.history_draft,
            ..other
        }
    }

    /// As many steps back in the history as there are `boxes`; after each the
    /// box is overwritten by the next of them.
    pub open spec fn gone_back(self, boxes: Seq<InputView>) -> InputView
        decreases boxes.len(),
    {
        if boxes.len() == 0 {
            self
        } else {
            self.gone_back(boxes.drop_last()).older().0.overwritten(boxes.last())
        }
    }

    /// As many steps forward in the history as there are `boxes`; after each the
    /// box is overwritten by the next of them.
    pub open spec fn gone_forward(self, boxes: Seq<InputView>) -> InputView
        decreases boxes.len(),
    {
        if boxes.len() == 0 {
            self
        } else {
            self.gone_forward(boxes.drop_last()).newer().0.overwritten(boxes.last())
        }
    }
}

proof fn lemma_gone_back(v: InputView, boxes: Seq<InputView>)
    requires
        v.history_idx is None,
        0 < boxes.len() <= v.history.len() <= usize::MAX,
    ensures
        v.gone_back(boxes).history == v.history,
        v.gone_back(boxes).history_draft == Some(v.buffer),
        v.gone_back(boxes).history_idx == Some((v.history.len() - boxes.len()) as usize),
    decreases boxes.len(),
{
    if boxes.len() > 1 {
        lemma_gone_back(v, boxes.drop_last());
    } else {
        assert(v.gone_back(boxes.drop_last()) == v);
    }
}

proof fn lemma_gone_forward(v: InputView, boxes: Seq<InputView>)
    requires
        v.history_idx matches Some(i) && i + boxes.len() < v.history.len(),
        v.history.len() <= usize::MAX,
    ensures
        v.gone_forward(boxes).history == v.history,
        v.gone_forward(boxes).history_draft == v.history_draft,
        v.gone_forward(boxes).history_idx == Some((v.history_idx.unwrap() + boxes.len()) as usize),
    decreases boxes.len(),
{
    if boxes.len() > 0 {
        lemma_gone_forward(v, boxes.drop_last());
    }
}

/// Any number of steps back in the history and as many forward bring back what
/// was being written, whatever the box showed meanwhile: the last step returns
/// it and leaves the history, and a step more does nothing.
pub proof fn law_draft_comes_back(v: InputView, back: Seq<InputView>, forward: Seq<InputView>)
    requires
        v.history_idx is None,
        0 < back.len() <= v.history.len() <= usize::MAX,
        forward.len() + 1 == back.len(),
    ensures
        ({
            let before = v.gone_back(back).gone_forward(forward);
            let (after, shown) = before.newer();
            &&& shown == Some(v.buffer)
            &&& after == InputView { history_idx: None, ..before }
            &&& after.history == v.history
            &&& after.newer() == (after, None::<Seq<char>>)
        }),
{
    lemma_gone_back(v, back);
    lemma_gone_forward(v.gone_back(back), forward);
}

// ── Editing in place ─────────────────────────────────────────────────────────

/// The state of editing a chat segment or a queued message in place.
#[derive(Debug, PartialEq, Eq)]
pub struct EditState {
    /// The chat segment that is edited.
    pub message_index: Option<usize>,
    /// The queued message that is edited.
    pub queue_index: Option<usize>,
    /// The text.
    pub buffer: String,
    /// The byte offset of the cursor.
    pub cursor: usize,
    /// The first visible line.
    pub scroll_offset: usize,
    /// The text before the edit.
    pub original_text: Option<String>,
}

pub struct EditView {
    pub message_index: Option<usize>,
    pub queue_index: Option<usize>,
    pub buffer: Seq<char>,
    pub cursor: nat,
    pub scroll_offset: nat,
    pub original_text: Option<Seq<char>>,
}

impl View for EditState {
    type V = EditView;

    open spec fn view(&self) -> EditView {
        EditView {
            message_index: self.message_index,
            queue_index: self.queue_index,
            buffer: self.buffer@,
            cursor: self.cursor as nat,
            scroll_offset: self.scroll_offset as nat,
            original_text: opt_string_view(self.original_text),
        }
    }
}

impl EditView {
    /// Nothing is edited.
    pub open spec fn none() -> EditView {
        EditView {
            message_index: None,
            queue_index: None,
            buffer: seq![],
            cursor: 0,
            scroll_offset: 0,
            original_text: None,
        }
    }

    /// An edit is going on.
    pub open spec fn is_active(self) -> bool {
        self.message_index is Some || self.queue_index is Some
    }
}

impl EditState {
    /// Nothing is edited.
    pub fn new() -> (r: EditState)
        ensures
            r@ == EditView::none(),
    {
        let r = EditState {
            message_index: None,
            queue_index: None,
            buffer: String::new(),
            cursor: 0,
            scroll_offset: 0,
            original_text: None,
        };
        assert(r.buffer@ =~= seq![]);
        r
    }

    /// Whether an edit is going on.
    pub fn active(&self) -> (r: bool)
        ensures
            r == self@.is_active(),
    {
        self.message_index.is_some() || self.queue_index.is_some()
    }

    /// Ends an edit.
    pub fn clear(&mut self)
        ensures
            final(self)@ == EditView::none(),
    {
        self.message_index = None;
        self.queue_index = None;
        self.buffer = String::new();
        self.cursor = 0;
        self.scroll_offset = 0;
        self.original_text = None;
        assert(self.buffer@ =~= seq![]);
    }
}

} // verus!
