//! Steps in the chat: editing and removing segments, scrolling, searching,
//! selecting.

use vstd::prelude::*;

use crate::app::chat_state::{
    collapsible, leaving, levels_can_move, low16, low_half, minus, segment_is_collapsible, ChatView,
};
use crate::app::front::{
    add_effect, add_when, effect_views, given, no_effects, nothing, one, user_segment, App, AppView,
    Effect, EffectView, StepView,
};
use crate::app::input_state::EditView;
use crate::app::queue_state::{
    plain_message, ModelDirective, QueuedMessage, QueuedView,
};
use crate::app::ui_state::{FocusPane, UiView};
use crate::chat::markdown::{conversation_markdown, format_conversation};
use crate::chat::preview::{
    base64_text, clipboard_sequence, extract_segment_text, extract_selection_text, osc52_copy,
    segment_text, selection_text,
};
use crate::chat::segment::{
    message_views, segment_views, ChatSegment, ContentView, Message, MessageContent, MessageView,
    Role, SegmentView,
};
use crate::chat::segment_ops::{
    editable_text, messages_for_resubmit, messages_of, range_with, segment_at_line,
    segment_editable_text, set_segment_text, with_text_at,
};
use crate::text::{byte_len, byte_length, trim, trim_str};

verus! {

// ── Editing segments ─────────────────────────────────────────────────────────

/// The last text of the user before an index.
pub open spec fn last_user_text(segs: Seq<SegmentView>, n: int) -> Option<Seq<char>>
    decreases n,
{
    if n <= 0 {
        None
    } else if n <= segs.len() && is_user_text(segs[n - 1]) {
        Some(user_text(segs[n - 1]))
    } else {
        last_user_text(segs, n - 1)
    }
}

/// A text message of the user.
pub open spec fn is_user_text(seg: SegmentView) -> bool {
    seg matches SegmentView::Message(m) && m.role is User && m.content is Text
}

/// The text of a text message.
pub open spec fn user_text(seg: SegmentView) -> Seq<char> {
    match seg {
        SegmentView::Message(m) => match m.content {
            ContentView::Text(t) => t,
            _ => seq![],
        },
        _ => seq![],
    }
}

/// A message that asks something.
pub open spec fn is_question(m: MessageView) -> bool {
    m.role is User && m.content is Text
}

/// Messages without the question that they end in.
pub open spec fn before_question(ms: Seq<MessageView>) -> Seq<MessageView> {
    if ms.len() > 0 && is_question(ms.last()) {
        ms.drop_last()
    } else {
        ms
    }
}

impl AppView {
    /// With no edit going on.
    pub open spec fn unedited(self) -> AppView {
        AppView { edit: EditView::none(), ..self }
    }

    /// The text that is being edited shown in the segment that it belongs to.
    pub open spec fn edit_shown(self) -> AppView {
        match self.edit.message_index {
            Some(i) => AppView {
                chat: ChatView {
                    segments: with_text_at(self.chat.segments, i as int, self.edit.buffer),
                    ..self.chat
                },
                ..self
            },
            None => self,
        }
    }

    /// The highlighted segment being edited, if it has a text.
    pub open spec fn editing_segment(self) -> StepView {
        match self.chat.focused_segment {
            Some(i) => if i < self.chat.segments.len() && editable_text(
                self.chat.segments[i as int],
            ) is Some {
                let text = editable_text(self.chat.segments[i as int]).unwrap();
                StepView {
                    app: AppView {
                        edit: EditView {
                            message_index: Some(i),
                            cursor: byte_len(text),
                            original_text: Some(text),
                            buffer: text,
                            ..self.edit
                        },
                        ..self
                    }.focused(FocusPane::Input).edit_shown(),
                    effects: nothing() + one(EffectView::Rebuild) + one(EffectView::Rerender),
                }
            } else {
                StepView { app: self, effects: nothing() }
            },
            None => StepView { app: self, effects: nothing() },
        }
    }

    /// The conversation cut off at the highlighted segment.
    pub open spec fn cut_at_highlight(self) -> StepView {
        match self.chat.focused_segment {
            Some(i) => {
                let stopped = if self.edit.message_index matches Some(e) && e >= i {
                    self.unedited()
                } else {
                    self
                };
                StepView {
                    app: AppView {
                        chat: ChatView { focused_segment: None, ..self.chat.cut(i) },
                        ..stopped
                    },
                    effects: nothing() + one(EffectView::Rerender) + one(EffectView::SaveHistory),
                }
            },
            None => StepView { app: self, effects: nothing() },
        }
    }

    /// The highlighted segment taken out, with all of the same tool call.
    pub open spec fn highlight_removed(self) -> StepView {
        match self.chat.focused_segment {
            Some(i) => {
                let stopped = if self.edit.message_index matches Some(e) && leaving(
                    self.chat.segments,
                    i,
                ).contains(e) {
                    self.unedited()
                } else {
                    self
                };
                StepView {
                    app: AppView { chat: self.chat.without_segment(i), ..stopped },
                    effects: nothing() + one(EffectView::Rerender) + one(EffectView::SaveHistory),
                }
            },
            None => StepView { app: self, effects: nothing() },
        }
    }

    /// The highlighted segment can be taken out.
    pub open spec fn can_remove(self) -> bool {
        self.chat.focused_segment matches Some(i) ==> levels_can_move(
            self.chat.expand_level,
            leaving(self.chat.segments, i),
        )
    }

    /// The conversation cut off just before the highlighted segment and
    /// submitted again: the last question in it is asked once more.
    pub open spec fn rerun(self) -> StepView {
        match self.chat.focused_segment {
            Some(i) => match last_user_text(self.chat.segments, i as int) {
                Some(text) => {
                    let cut = self.chat.cut(i);
                    StepView {
                        app: AppView {
                            chat: ChatView { focused_segment: None, auto_scroll: true, ..cut },
                            ..self.unedited()
                        },
                        effects: nothing() + one(EffectView::Rerender) + one(
                            EffectView::ScrollToBottom,
                        ) + one(
                            EffectView::Resubmit(
                                before_question(messages_of(cut.segments)),
                                plain_message(text),
                            ),
                        ),
                    }
                },
                None => StepView { app: self, effects: nothing() },
            },
            None => StepView { app: self, effects: nothing() },
        }
    }

    /// Where the focus goes after a message of the queue was edited.
    pub open spec fn off_edit(self) -> AppView {
        if self.queue.messages.len() == 0 {
            self.focused(FocusPane::Input)
        } else {
            self.focused(FocusPane::Queue)
        }
    }

    /// The next message sent, if the agent is idle and nothing of the queue is
    /// being edited.
    pub open spec fn dequeued(self) -> StepView {
        if !self.agent.busy && self.edit.queue_index is None && self.queue.messages.len() > 0 {
            StepView {
                app: self.advanced(),
                effects: nothing() + one(EffectView::Rerender) + one(EffectView::ScrollToBottom)
                    + one(EffectView::Send(self.queue.messages[0])),
            }
        } else {
            StepView { app: self, effects: nothing() }
        }
    }

    /// The edit of a message of the queue confirmed. An empty text changes
    /// nothing.
    pub open spec fn queue_edit_confirmed(self, i: usize) -> StepView {
        let text = trim(self.edit.buffer);
        let changed = AppView {
            queue: if text.len() > 0 {
                self.queue.with_content(i as int, text)
            } else {
                self.queue
            },
            ..self.unedited()
        };
        changed.off_edit().dequeued()
    }

    /// The edit of a segment confirmed: a question is asked again with its new
    /// text, in place of all that followed it; an answer is changed.
    pub open spec fn segment_edit_confirmed(self, i: usize) -> StepView {
        let text = trim(self.edit.buffer);
        let stopped = self.unedited();
        if text.len() == 0 || i >= self.chat.segments.len() {
            StepView { app: stopped, effects: nothing() }
        } else if is_user_text(self.chat.segments[i as int]) {
            let segs = self.chat.segments.take(i as int).push(user_segment(text));
            StepView {
                app: AppView {
                    chat: ChatView { segments: segs, ..self.chat },
                    session: self.session.consumed(),
                    ..stopped
                },
                effects: nothing() + one(EffectView::Rerender) + one(EffectView::ScrollToBottom)
                    + one(
                    EffectView::Resubmit(
                        messages_of(segs),
                        QueuedView {
                            content: text,
                            model_transition: self.session.staged_model,
                            mode_transition: self.session.staged_mode,
                        },
                    ),
                ),
            }
        } else if editable_text(self.chat.segments[i as int]) is Some {
            StepView {
                app: AppView {
                    chat: ChatView {
                        segments: with_text_at(self.chat.segments, i as int, text),
                        ..self.chat
                    },
                    ..stopped
                },
                effects: nothing() + one(EffectView::Rebuild) + one(EffectView::Rerender) + one(
                    EffectView::SaveHistory,
                ),
            }
        } else {
            StepView { app: stopped, effects: nothing() }
        }
    }

    /// An edit confirmed.
    pub open spec fn edit_confirmed(self) -> StepView {
        match self.edit.queue_index {
            Some(i) => self.queue_edit_confirmed(i),
            None => match self.edit.message_index {
                Some(i) => self.segment_edit_confirmed(i),
                None => StepView { app: self, effects: nothing() },
            },
        }
    }

    /// The edit of a message of the queue given up.
    pub open spec fn queue_edit_cancelled(self, i: usize) -> StepView {
        let restored = AppView {
            queue: match self.edit.original_text {
                Some(t) => self.queue.with_content(i as int, t),
                None => self.queue,
            },
            ..self.unedited()
        };
        restored.off_edit().dequeued()
    }

    /// The edit of a segment given up.
    pub open spec fn segment_edit_cancelled(self) -> StepView {
        match (self.edit.message_index, self.edit.original_text) {
            (Some(i), Some(t)) => StepView {
                app: AppView {
                    chat: ChatView {
                        segments: with_text_at(self.chat.segments, i as int, t),
                        ..self.chat
                    },
                    ..self.unedited()
                },
                effects: nothing() + one(EffectView::Rebuild),
            },
            _ => StepView { app: self.unedited(), effects: nothing() },
        }
    }

    /// An edit given up: the text is what it was before.
    pub open spec fn edit_cancelled(self) -> StepView {
        match self.edit.queue_index {
            Some(i) => self.queue_edit_cancelled(i),
            None => self.segment_edit_cancelled(),
        }
    }
}

fn find_user_text(segments: &Vec<ChatSegment>, before: usize) -> (r: Option<String>)
    ensures
        last_user_text(segment_views(segments@), before as int) == (match r {
            Some(t) => Some(t@),
            None => None,
        }),
{
    let ghost segs = segment_views(segments@);
    let len: usize = segments.len();
    let mut n: usize = before;
    while n > 0
        invariant
            segs == segment_views(segments@),
            len == segments@.len(),
            n <= before,
            last_user_text(segs, before as int) == last_user_text(segs, n as int),
        decreases n,
    {
        if n <= len {
            assert(segs[n - 1] == segments@[n - 1]@);
            if let ChatSegment::Message(m) = &segments[n - 1] {
                if let (Role::User, MessageContent::Text(t)) = (&m.role, &m.content) {
                    return Some(t.clone());
                }
            }
        }
        n -= 1;
    }
    None
}

/// Takes off the question that messages end in.
fn drop_question(ms: &mut Vec<Message>)
    ensures
        message_views(final(ms)@) == before_question(message_views(old(ms)@)),
{
    let n: usize = ms.len();
    if n > 0 {
        let ghost before = ms@;
        assert(message_views(before).last() == before.last()@);
        let asks = match (&ms[n - 1].role, &ms[n - 1].content) {
            (Role::User, MessageContent::Text(_)) => true,
            _ => false,
        };
        if asks {
            ms.pop();
            assert(message_views(ms@) =~= message_views(before).drop_last());
        }
    }
}

impl App {
    /// Shows the text that is being edited in the segment that it belongs to.
    pub fn update_editing_segment_live(&mut self)
        ensures
            final(self)@ == old(self)@.edit_shown(),
    {
        if let Some(i) = self.edit.message_index {
            set_segment_text(&mut self.chat.segments, i, self.edit.buffer.as_str());
        }
    }

    /// Edits the highlighted segment.
    pub fn edit_segment(&mut self) -> (r: Vec<Effect>)
        ensures
            final(self)@ == old(self)@.editing_segment().app,
            effect_views(r@) == old(self)@.editing_segment().effects,
    {
        let mut out = no_effects();
        assert(self@.chat.segments.len() == self.chat.segments@.len());
        if let Some(i) = self.chat.focused_segment {
            assert(i < self.chat.segments@.len() ==> self@.chat.segments[i as int]
                == self.chat.segments@[i as int]@);
            if let Some(text) = segment_editable_text(&self.chat.segments, i) {
                self.edit.message_index = Some(i);
                self.edit.cursor = byte_length(text.as_str());
                self.edit.original_text = Some(text.clone());
                self.edit.buffer = text;
                self.ui.focus = FocusPane::Input;
                self.update_editing_segment_live();
                add_effect(&mut out, Effect::Rebuild);
                add_effect(&mut out, Effect::Rerender);
            }
        }
        out
    }

    /// Cuts the conversation off at the highlighted segment.
    pub fn cut_conversation(&mut self) -> (r: Vec<Effect>)
        ensures
            final(self)@ == old(self)@.cut_at_highlight().app,
            effect_views(r@) == old(self)@.cut_at_highlight().effects,
    {
        let mut out = no_effects();
        if let Some(i) = self.chat.focused_segment {
            let stop = match self.edit.message_index {
                Some(e) => e >= i,
                None => false,
            };
            if stop {
                self.edit.clear();
            }
            self.chat.truncate(i);
            self.chat.focused_segment = None;
            add_effect(&mut out, Effect::Rerender);
            add_effect(&mut out, Effect::SaveHistory);
        }
        out
    }

    /// Takes the highlighted segment out.
    pub fn remove_highlighted(&mut self) -> (r: Vec<Effect>)
        requires
            old(self)@.can_remove(),
        ensures
            final(self)@ == old(self)@.highlight_removed().app,
            effect_views(r@) == old(self)@.highlight_removed().effects,
    {
        let mut out = no_effects();
        if let Some(i) = self.chat.focused_segment {
            let stop = match self.edit.message_index {
                Some(e) => {
                    let gone = self.chat.leaving_with(i);
                    crate::app::chat_state::has_index(&gone, e)
                },
                None => false,
            };
            if stop {
                self.edit.clear();
            }
            self.chat.remove_segment(i);
            add_effect(&mut out, Effect::Rerender);
            add_effect(&mut out, Effect::SaveHistory);
        }
        out
    }

    /// Cuts the conversation off just before the highlighted segment and
    /// submits it again.
    pub fn rerun_from_highlight(&mut self) -> (r: Vec<Effect>)
        ensures
            final(self)@ == old(self)@.rerun().app,
            effect_views(r@) == old(self)@.rerun().effects,
    {
        let mut out = no_effects();
        if let Some(i) = self.chat.focused_segment {
            if let Some(text) = find_user_text(&self.chat.segments, i) {
                self.edit.clear();
                self.chat.truncate(i);
                let mut history = messages_for_resubmit(&self.chat.segments);
                drop_question(&mut history);
                self.chat.focused_segment = None;
                self.chat.auto_scroll = true;
                add_effect(&mut out, Effect::Rerender);
                add_effect(&mut out, Effect::ScrollToBottom);
                add_effect(&mut out, Effect::Resubmit(history, QueuedMessage::plain(text)));
            }
        }
        out
    }

    fn leave_edit(&mut self)
        ensures
            final(self)@ == old(self)@.off_edit(),
    {
        assert(self@.queue.messages.len() == self.queue.messages@.len());
        self.ui.focus = if self.queue.messages.len() == 0 {
            FocusPane::Input
        } else {
            FocusPane::Queue
        };
    }

    /// Sends the next message, if the agent is idle and nothing of the queue is
    /// being edited.
    pub fn try_dequeue_next(&mut self) -> (r: Vec<Effect>)
        ensures
            final(self)@ == old(self)@.dequeued().app,
            effect_views(r@) == old(self)@.dequeued().effects,
    {
        let mut out = no_effects();
        assert(self@.queue.messages.len() == self.queue.messages@.len());
        if !self.agent.busy && self.edit.queue_index.is_none() && self.queue.messages.len() > 0 {
            let next = self.advance_queue();
            add_effect(&mut out, Effect::Rerender);
            add_effect(&mut out, Effect::ScrollToBottom);
            add_effect(&mut out, Effect::Send(next));
        }
        out
    }

    fn confirm_queue_edit(&mut self, i: usize) -> (r: Vec<Effect>)
        ensures
            final(self)@ == old(self)@.queue_edit_confirmed(i).app,
            effect_views(r@) == old(self)@.queue_edit_confirmed(i).effects,
    {
        let text = trim_str(self.edit.buffer.as_str()).to_owned();
        self.edit.clear();
        if !text.as_str().is_empty() {
            self.queue.set_content(i, text.as_str());
        }
        self.leave_edit();
        self.try_dequeue_next()
    }

    fn ask_again(&mut self, i: usize, text: String) -> (r: Vec<Effect>)
        requires
            old(self)@.edit == EditView::none(),
            i < old(self).chat.segments@.len(),
        ensures
            ({
                let v = old(self)@;
                let segs = v.chat.segments.take(i as int).push(user_segment(text@));
                &&& final(self)@ == (AppView {
                    chat: ChatView { segments: segs, ..v.chat },
                    session: v.session.consumed(),
                    ..v
                })
                &&& effect_views(r@) == nothing() + one(EffectView::Rerender) + one(
                    EffectView::ScrollToBottom,
                ) + one(
                    EffectView::Resubmit(
                        messages_of(segs),
                        QueuedView {
                            content: text@,
                            model_transition: v.session.staged_model,
                            mode_transition: v.session.staged_mode,
                        },
                    ),
                )
            }),
    {
        let ghost before = self.chat.segments@;
        let (model, mode) = self.session.consume_staged();
        let model_transition = match model {
            Some(c) => Some(ModelDirective::SwitchTo(Box::new(c))),
            None => None,
        };
        self.chat.segments.truncate(i);
        assert(segment_views(self.chat.segments@) =~= segment_views(before).take(i as int));
        self.push_user_segment(text.as_str());
        let history = messages_for_resubmit(&self.chat.segments);
        let qm = QueuedMessage { content: text, model_transition, mode_transition: mode };
        let mut out = no_effects();
        add_effect(&mut out, Effect::Rerender);
        add_effect(&mut out, Effect::ScrollToBottom);
        add_effect(&mut out, Effect::Resubmit(history, qm));
        out
    }

    fn confirm_segment_edit(&mut self, i: usize) -> (r: Vec<Effect>)
        ensures
            final(self)@ == old(self)@.segment_edit_confirmed(i).app,
            effect_views(r@) == old(self)@.segment_edit_confirmed(i).effects,
    {
        let text = trim_str(self.edit.buffer.as_str()).to_owned();
        self.edit.clear();
        let n: usize = self.chat.segments.len();
        assert(self@.chat.segments.len() == n);
        if text.as_str().is_empty() || i >= n {
            return no_effects();
        }
        assert(self@.chat.segments[i as int] == self.chat.segments@[i as int]@);
        let role = match &self.chat.segments[i] {
            ChatSegment::Message(m) => match (&m.role, &m.content) {
                (Role::User, MessageContent::Text(_)) => Some(Role::User),
                (Role::Assistant, MessageContent::Text(_)) => Some(Role::Assistant),
                _ => None,
            },
            _ => None,
        };
        match role {
            Some(Role::User) => self.ask_again(i, text),
            Some(_) => {
                set_segment_text(&mut self.chat.segments, i, text.as_str());
                let mut out = no_effects();
                add_effect(&mut out, Effect::Rebuild);
                add_effect(&mut out, Effect::Rerender);
                add_effect(&mut out, Effect::SaveHistory);
                out
            },
            None => no_effects(),
        }
    }

    /// Confirms an edit.
    pub fn confirm_edit(&mut self) -> (r: Vec<Effect>)
        ensures
            final(self)@ == old(self)@.edit_confirmed().app,
            effect_views(r@) == old(self)@.edit_confirmed().effects,
    {
        match self.edit.queue_index {
            Some(i) => self.confirm_queue_edit(i),
            None => match self.edit.message_index {
                Some(i) => self.confirm_segment_edit(i),
                None => no_effects(),
            },
        }
    }

    fn cancel_queue_edit(&mut self, i: usize) -> (r: Vec<Effect>)
        ensures
            final(self)@ == old(self)@.queue_edit_cancelled(i).app,
            effect_views(r@) == old(self)@.queue_edit_cancelled(i).effects,
    {
        let original = self.edit.original_text.take();
        if let Some(t) = original {
            self.queue.set_content(i, t.as_str());
        }
        self.edit.clear();
        self.leave_edit();
        self.try_dequeue_next()
    }

    fn cancel_segment_edit(&mut self) -> (r: Vec<Effect>)
        ensures
            final(self)@ == old(self)@.segment_edit_cancelled().app,
            effect_views(r@) == old(self)@.segment_edit_cancelled().effects,
    {
        let original = self.edit.original_text.take();
        let mut out = no_effects();
        if let Some(i) = self.edit.message_index {
            if let Some(t) = original {
                set_segment_text(&mut self.chat.segments, i, t.as_str());
                add_effect(&mut out, Effect::Rebuild);
            }
        }
        self.edit.clear();
        out
    }

    /// Gives an edit up.
    pub fn cancel_edit(&mut self) -> (r: Vec<Effect>)
        ensures
            final(self)@ == old(self)@.edit_cancelled().app,
            effect_views(r@) == old(self)@.edit_cancelled().effects,
    {
        match self.edit.queue_index {
            Some(i) => self.cancel_queue_edit(i),
            None => self.cancel_segment_edit(),
        }
    }
}

// ── Copying ──────────────────────────────────────────────────────────────────

impl AppView {
    /// The highlighted segment put on the clipboard, if it has a text.
    pub open spec fn segment_copied(self) -> StepView {
        match self.chat.focused_segment {
            Some(i) => if i < self.chat.segments.len() && segment_text(
                self.chat.segments[i as int],
                self.chat.tool_args,
            ).len() > 0 {
                StepView {
                    app: self.informed("Copied to clipboard"@),
                    effects: nothing() + one(
                        EffectView::WriteTerminal(
                            clipboard_sequence(
                                base64_text(
                                    segment_text(
                                        self.chat.segments[i as int],
                                        self.chat.tool_args,
                                    ),
                                ),
                            ),
                        ),
                    ),
                }
            } else {
                StepView { app: self, effects: nothing() }
            },
            None => StepView { app: self, effects: nothing() },
        }
    }

    /// The whole conversation put on the clipboard, if there is one.
    pub open spec fn all_copied(self) -> StepView {
        if self.chat.segments.len() == 0 {
            StepView { app: self, effects: nothing() }
        } else {
            StepView {
                app: self.informed("Copied all to clipboard"@),
                effects: nothing() + one(
                    EffectView::WriteTerminal(
                        clipboard_sequence(
                            base64_text(
                                conversation_markdown(
                                    self.chat.segments,
                                    ""@,
                                    self.chat.tool_args,
                                ),
                            ),
                        ),
                    ),
                ),
            }
        }
    }

    /// The text of the selection.
    pub open spec fn selected_text(self) -> Seq<char> {
        match self.chat.selection() {
            Some((a, b, c, d)) => selection_text(
                self.chat.lines,
                (a as int, b as int),
                (c as int, d as int),
            ),
            None => seq![],
        }
    }

    /// The selection put on the clipboard, if it has a text.
    pub open spec fn selection_copied(self) -> StepView {
        if self.selected_text().len() == 0 {
            StepView { app: self, effects: nothing() }
        } else {
            StepView {
                app: self.informed("Selection copied"@),
                effects: nothing() + one(
                    EffectView::WriteTerminal(
                        clipboard_sequence(base64_text(self.selected_text())),
                    ),
                ),
            }
        }
    }
}

impl App {
    /// Copies the highlighted segment.
    pub fn copy_segment_to_clipboard(&mut self) -> (r: Vec<Effect>)
        ensures
            final(self)@ == old(self)@.segment_copied().app,
            effect_views(r@) == old(self)@.segment_copied().effects,
    {
        let mut out = no_effects();
        assert(self@.chat.segments.len() == self.chat.segments@.len());
        if let Some(i) = self.chat.focused_segment {
            if i < self.chat.segments.len() {
                assert(self@.chat.segments[i as int] == self.chat.segments@[i as int]@);
                let text = extract_segment_text(&self.chat.segments[i], &self.chat.tool_args);
                if !text.as_str().is_empty() {
                    add_effect(&mut out, Effect::WriteTerminal(osc52_copy(text.as_str())));
                    self.inform("Copied to clipboard");
                }
            }
        }
        out
    }

    /// Copies the whole conversation.
    pub fn copy_all_to_clipboard(&mut self) -> (r: Vec<Effect>)
        ensures
            final(self)@ == old(self)@.all_copied().app,
            effect_views(r@) == old(self)@.all_copied().effects,
    {
        let mut out = no_effects();
        assert(self@.chat.segments.len() == self.chat.segments@.len());
        if self.chat.segments.len() > 0 {
            let text = format_conversation(&self.chat.segments, "", &self.chat.tool_args);
            add_effect(&mut out, Effect::WriteTerminal(osc52_copy(text.as_str())));
            self.inform("Copied all to clipboard");
        }
        out
    }

    /// Copies the selection.
    pub fn copy_selection_to_clipboard(&mut self) -> (r: Vec<Effect>)
        ensures
            final(self)@ == old(self)@.selection_copied().app,
            effect_views(r@) == old(self)@.selection_copied().effects,
    {
        let mut out = no_effects();
        if let Some((s_line, s_col, e_line, e_col)) = self.chat.normalized_selection() {
            let text = extract_selection_text(&self.chat.lines, s_line, s_col, e_line, e_col);
            if !text.as_str().is_empty() {
                add_effect(&mut out, Effect::WriteTerminal(osc52_copy(text.as_str())));
                self.inform("Selection copied");
            }
        }
        out
    }
}

// ── Highlight and scrolling ──────────────────────────────────────────────────

impl AppView {
    /// The next segment highlighted and shown.
    pub open spec fn highlight_down(self) -> AppView {
        let n = self.chat.segments.len() as int;
        if self.nvim.bridge || n == 0 {
            self
        } else {
            let next = match self.chat.focused_segment {
                Some(i) => if i + 1 < n {
                    i + 1
                } else {
                    n - 1
                },
                None => 0,
            };
            AppView {
                chat: ChatView {
                    focused_segment: Some(next as usize),
                    ..self.chat
                }.showing(next, self.layout.chat_height),
                ..self
            }
        }
    }

    /// The segment before highlighted and shown.
    pub open spec fn highlight_up(self) -> AppView {
        let n = self.chat.segments.len() as int;
        if self.nvim.bridge || n == 0 {
            self
        } else {
            let next = match self.chat.focused_segment {
                Some(i) => minus(i as int, 1),
                None => n - 1,
            };
            AppView {
                chat: ChatView {
                    focused_segment: Some(next as usize),
                    ..self.chat
                }.showing(next, self.layout.chat_height),
                ..self
            }
        }
    }

    /// Scrolled up, by the editor where it shows the conversation.
    pub open spec fn scrolled_up(self, n: u16, keys: Seq<char>) -> StepView {
        if self.nvim.bridge {
            StepView { app: self, effects: nothing() + one(EffectView::EditorInput(keys)) }
        } else {
            StepView { app: AppView { chat: self.chat.up(n), ..self }, effects: nothing() }
        }
    }

    /// Scrolled down, by the editor where it shows the conversation.
    pub open spec fn scrolled_down(self, n: u16, keys: Seq<char>) -> StepView {
        if self.nvim.bridge {
            StepView { app: self, effects: nothing() + one(EffectView::EditorInput(keys)) }
        } else {
            StepView {
                app: AppView { chat: self.chat.down(n, self.layout.chat_height), ..self },
                effects: nothing(),
            }
        }
    }

    /// Scrolled to the top.
    pub open spec fn at_top(self) -> StepView {
        if self.nvim.bridge {
            StepView { app: self, effects: nothing() + one(EffectView::EditorInput("gg"@)) }
        } else {
            StepView {
                app: AppView {
                    chat: ChatView { scroll_offset: 0, auto_scroll: false, ..self.chat },
                    ..self
                },
                effects: nothing(),
            }
        }
    }

    /// New content followed again, from the bottom on.
    pub open spec fn following(self) -> StepView {
        StepView {
            app: AppView { chat: ChatView { auto_scroll: true, ..self.chat }, ..self },
            effects: nothing() + one(EffectView::ScrollToBottom) + given(
                self.nvim.bridge,
                EffectView::EditorToBottom,
            ),
        }
    }

    /// Scrolled to the bottom, where new content is followed.
    pub open spec fn settled(self) -> AppView {
        if !self.nvim.bridge && self.chat.auto_scroll {
            AppView { chat: self.chat.at_bottom(self.layout.chat_height), ..self }
        } else {
            self
        }
    }

    /// A click on the scrollbar.
    pub open spec fn scrollbar_clicked(self, rel_row: u16) -> AppView {
        let h = minus(self.layout.chat_pane.height as int, 2);
        let total = low16(self.chat.lines.len() as int);
        let moved = if h > 0 && total > h {
            let steps = if h - 1 > 1 {
                h - 1
            } else {
                1
            };
            let to = low16(rel_row * (total - h) / steps);
            ChatView {
                scroll_offset: if to < total - h {
                    to
                } else {
                    (total - h) as u16
                },
                auto_scroll: false,
                ..self.chat
            }
        } else {
            self.chat
        };
        AppView { chat: moved.unselected(), ..self }
    }

    /// A segment that was folded or unfolded shown and highlighted, once it was
    /// drawn.
    pub open spec fn segment_shown(self, i: usize) -> AppView {
        let max = self.chat.max_scroll(self.layout.chat_height);
        let within = if self.chat.scroll_offset < max {
            self.chat.scroll_offset
        } else {
            max
        };
        let to = if i < self.chat.segment_line_ranges.len() && low16(
            self.chat.segment_line_ranges[i as int].0 as int,
        ) < within {
            low16(self.chat.segment_line_ranges[i as int].0 as int)
        } else {
            within
        };
        AppView {
            chat: ChatView { scroll_offset: to, focused_segment: Some(i), ..self.chat },
            ..self
        }
    }

    /// A selection may begin at a place; what was asked is taken back.
    pub open spec fn selection_begun(self, abs_line: usize, inner_col: u16) -> AppView {
        AppView {
            chat: ChatView {
                selection_anchor: Some((abs_line, inner_col)),
                selection_end: None,
                is_selecting: false,
                ..self.chat
            },
            ui: UiView { confirm_modal: None, ..self.ui },
            ..self
        }
    }

    /// The segment at a line folded or unfolded, if it can be.
    pub open spec fn folded_at(self, abs_line: usize) -> StepView {
        match range_with(self.chat.segment_line_ranges, abs_line as int, 0) {
            Some(i) => if i < self.chat.segments.len() && collapsible(
                self.chat.segments[i as int],
            ) {
                StepView {
                    app: AppView {
                        chat: ChatView {
                            expand_level: self.chat.clicked_levels(i),
                            ..self.chat
                        },
                        ..self
                    },
                    effects: nothing() + one(EffectView::Rebuild) + one(
                        EffectView::ShowSegment(i),
                    ),
                }
            } else {
                StepView { app: self, effects: nothing() }
            },
            None => StepView { app: self, effects: nothing() },
        }
    }

    /// A click into the chat: a selection may begin, and the segment folds or
    /// unfolds.
    pub open spec fn content_clicked(self, abs_line: usize, inner_col: u16) -> StepView {
        self.selection_begun(abs_line, inner_col).folded_at(abs_line)
    }

    /// The selection drawn to a place; near an edge the chat scrolls.
    pub open spec fn selection_drawn(self, abs_line: usize, inner_col: u16, mouse_row: u16) -> AppView {
        let last = minus(self.chat.lines.len() as int, 1);
        let drawn = ChatView {
            selection_end: Some(
                (
                    (if abs_line < last {
                        abs_line as int
                    } else {
                        last
                    }) as usize,
                    inner_col,
                ),
            ),
            is_selecting: true,
            ..self.chat
        };
        let top = self.layout.chat_pane.y + 1;
        let bottom = top + minus(self.layout.chat_pane.height as int, 2);
        AppView {
            chat: if mouse_row < top + 2 {
                drawn.up(1)
            } else if mouse_row >= minus(bottom, 2) {
                drawn.down(1, self.layout.chat_height)
            } else {
                drawn
            },
            ..self
        }
    }

    /// A selection can be drawn: the rows of the chat can be counted, and so can
    /// the lines below where the chat scrolls down.
    pub open spec fn can_draw(self, mouse_row: u16) -> bool {
        let top = self.layout.chat_pane.y + 1;
        let bottom = top + minus(self.layout.chat_pane.height as int, 2);
        &&& top + 2 <= u16::MAX
        &&& bottom <= u16::MAX
        &&& top + 2 <= mouse_row && minus(bottom, 2) <= mouse_row ==> self.chat.scroll_offset
            < u16::MAX
    }

    /// The summary of delegated work opened or closed.
    pub open spec fn summary_toggled(self) -> StepView {
        match self.chat.focused_segment {
            Some(i) => if i < self.chat.segments.len() && self.chat.segments[i as int] is DelegateSummary {
                StepView {
                    app: AppView {
                        chat: ChatView {
                            segments: self.chat.segments.update(
                                i as int,
                                summary_flipped(self.chat.segments[i as int]),
                            ),
                            ..self.chat
                        },
                        ..self
                    },
                    effects: nothing() + one(EffectView::Rerender),
                }
            } else {
                StepView { app: self, effects: nothing() }
            },
            None => StepView { app: self, effects: nothing() },
        }
    }
}

/// A summary of delegated work, open where it was closed.
pub open spec fn summary_flipped(seg: SegmentView) -> SegmentView {
    match seg {
        SegmentView::DelegateSummary {
            to_name,
            task_title,
            duration_ms,
            status,
            result_preview,
            expanded,
        } => SegmentView::DelegateSummary {
            to_name,
            task_title,
            duration_ms,
            status,
            result_preview,
            expanded: !expanded,
        },
        _ => seg,
    }
}

impl App {
    /// Highlights the next segment.
    pub fn move_highlight_down(&mut self)
        ensures
            final(self)@ == old(self)@.highlight_down(),
    {
        let n: usize = self.chat.segments.len();
        assert(self@.chat.segments.len() == n);
        if self.nvim.bridge || n == 0 {
            return ;
        }
        let next: usize = match self.chat.focused_segment {
            Some(i) => {
                if i < n - 1 {
                    i + 1
                } else {
                    n - 1
                }
            },
            None => 0,
        };
        self.chat.focused_segment = Some(next);
        self.chat.scroll_chat_to_show_segment(next, self.layout.chat_height);
    }

    /// Highlights the segment before.
    pub fn move_highlight_up(&mut self)
        ensures
            final(self)@ == old(self)@.highlight_up(),
    {
        let n: usize = self.chat.segments.len();
        assert(self@.chat.segments.len() == n);
        if self.nvim.bridge || n == 0 {
            return ;
        }
        let next: usize = match self.chat.focused_segment {
            Some(i) => i.saturating_sub(1),
            None => n - 1,
        };
        self.chat.focused_segment = Some(next);
        self.chat.scroll_chat_to_show_segment(next, self.layout.chat_height);
    }

    /// Scrolls up.
    pub fn scroll_up(&mut self, n: u16, keys: &str) -> (r: Vec<Effect>)
        ensures
            final(self)@ == old(self)@.scrolled_up(n, keys@).app,
            effect_views(r@) == old(self)@.scrolled_up(n, keys@).effects,
    {
        let mut out = no_effects();
        if self.nvim.bridge {
            add_effect(&mut out, Effect::EditorInput(keys.to_owned()));
        } else {
            self.chat.scroll_up(n);
        }
        out
    }

    /// Scrolls down.
    pub fn scroll_down(&mut self, n: u16, keys: &str) -> (r: Vec<Effect>)
        requires
            old(self).nvim.bridge || old(self).chat.scroll_offset + n <= u16::MAX,
        ensures
            final(self)@ == old(self)@.scrolled_down(n, keys@).app,
            effect_views(r@) == old(self)@.scrolled_down(n, keys@).effects,
    {
        let mut out = no_effects();
        if self.nvim.bridge {
            add_effect(&mut out, Effect::EditorInput(keys.to_owned()));
        } else {
            self.chat.scroll_down(n, self.layout.chat_height);
        }
        out
    }

    /// Scrolls to the top.
    pub fn scroll_to_top(&mut self) -> (r: Vec<Effect>)
        ensures
            final(self)@ == old(self)@.at_top().app,
            effect_views(r@) == old(self)@.at_top().effects,
    {
        let mut out = no_effects();
        if self.nvim.bridge {
            add_effect(&mut out, Effect::EditorInput("gg".to_owned()));
        } else {
            self.chat.scroll_offset = 0;
            self.chat.auto_scroll = false;
        }
        out
    }

    /// Follows new content again.
    pub fn follow(&mut self) -> (r: Vec<Effect>)
        ensures
            final(self)@ == old(self)@.following().app,
            effect_views(r@) == old(self)@.following().effects,
    {
        self.chat.auto_scroll = true;
        let mut out = no_effects();
        add_effect(&mut out, Effect::ScrollToBottom);
        add_when(&mut out, self.nvim.bridge, Effect::EditorToBottom);
        out
    }

    /// Scrolls to the bottom, where new content is followed.
    pub fn scroll_to_bottom(&mut self)
        ensures
            final(self)@ == old(self)@.settled(),
    {
        self.chat.scroll_to_bottom(self.nvim.bridge, self.layout.chat_height);
    }

    /// Takes in a click on the scrollbar.
    pub fn click_scrollbar(&mut self, rel_row: u16)
        ensures
            final(self)@ == old(self)@.scrollbar_clicked(rel_row),
    {
        let h: u16 = self.layout.chat_pane.height.saturating_sub(2);
        let n: usize = self.chat.lines.len();
        assert(self@.chat.lines.len() == n);
        let total: u16 = low_half(n);
        if h > 0 && total > h {
            let steps: u32 = if h > 2 {
                (h - 1) as u32
            } else {
                1
            };
            assert(rel_row * (total - h) <= 0xffff * 0xffff) by (nonlinear_arith)
                requires
                    rel_row <= 0xffff,
                    0 <= total - h <= 0xffff,
            ;
            let wide: u32 = rel_row as u32 * (total - h) as u32 / steps;
            let to: u16 = low_half(wide as usize);
            self.chat.scroll_offset = if to < total - h {
                to
            } else {
                total - h
            };
            self.chat.auto_scroll = false;
        }
        self.chat.clear_selection();
    }

    /// Shows and highlights a segment that was folded or unfolded.
    pub fn show_segment(&mut self, i: usize)
        ensures
            final(self)@ == old(self)@.segment_shown(i),
    {
        let max: u16 = self.chat.max_scroll(self.layout.chat_height);
        if self.chat.scroll_offset > max {
            self.chat.scroll_offset = max;
        }
        if i < self.chat.segment_line_ranges.len() {
            let start: u16 = low_half(self.chat.segment_line_ranges[i].0);
            if start < self.chat.scroll_offset {
                self.chat.scroll_offset = start;
            }
        }
        self.chat.focused_segment = Some(i);
    }

    fn begin_selection(&mut self, abs_line: usize, inner_col: u16)
        ensures
            final(self)@ == old(self)@.selection_begun(abs_line, inner_col),
    {
        self.chat.selection_anchor = Some((abs_line, inner_col));
        self.chat.selection_end = None;
        self.chat.is_selecting = false;
        self.ui.confirm_modal = None;
    }

    fn fold_at(&mut self, abs_line: usize) -> (r: Vec<Effect>)
        ensures
            final(self)@ == old(self)@.folded_at(abs_line).app,
            effect_views(r@) == old(self)@.folded_at(abs_line).effects,
    {
        let mut out = no_effects();
        let n: usize = self.chat.segments.len();
        assert(self@.chat.segments.len() == n);
        if let Some(i) = segment_at_line(&self.chat.segment_line_ranges, abs_line) {
            if i < n {
                assert(self@.chat.segments[i as int] == self.chat.segments@[i as int]@);
                if segment_is_collapsible(&self.chat.segments[i]) {
                    self.chat.click_segment(i);
                    add_effect(&mut out, Effect::Rebuild);
                    add_effect(&mut out, Effect::ShowSegment(i));
                }
            }
        }
        out
    }

    /// Takes in a click into the chat.
    pub fn click_content(&mut self, abs_line: usize, inner_col: u16) -> (r: Vec<Effect>)
        ensures
            final(self)@ == old(self)@.content_clicked(abs_line, inner_col).app,
            effect_views(r@) == old(self)@.content_clicked(abs_line, inner_col).effects,
    {
        self.begin_selection(abs_line, inner_col);
        self.fold_at(abs_line)
    }

    /// Draws the selection to a place.
    pub fn draw_selection(&mut self, abs_line: usize, inner_col: u16, mouse_row: u16)
        requires
            old(self)@.can_draw(mouse_row),
        ensures
            final(self)@ == old(self)@.selection_drawn(abs_line, inner_col, mouse_row),
    {
        let n: usize = self.chat.lines.len();
        assert(self@.chat.lines.len() == n);
        let last: usize = n.saturating_sub(1);
        let line: usize = if abs_line < last {
            abs_line
        } else {
            last
        };
        self.chat.selection_end = Some((line, inner_col));
        self.chat.is_selecting = true;
        let top: u16 = self.layout.chat_pane.y + 1;
        let bottom: u16 = top + self.layout.chat_pane.height.saturating_sub(2);
        if mouse_row < top + 2 {
            self.chat.scroll_up(1);
        } else if mouse_row >= bottom.saturating_sub(2) {
            self.chat.scroll_down(1, self.layout.chat_height);
        }
    }

    /// Opens or closes the highlighted summary of delegated work.
    pub fn toggle_summary(&mut self) -> (r: Vec<Effect>)
        ensures
            final(self)@ == old(self)@.summary_toggled().app,
            effect_views(r@) == old(self)@.summary_toggled().effects,
    {
        let mut out = no_effects();
        assert(self@.chat.segments.len() == self.chat.segments@.len());
        if let Some(i) = self.chat.focused_segment {
            if i < self.chat.segments.len() {
                let ghost before = self.chat.segments@;
                assert(self@.chat.segments[i as int] == before[i as int]@);
                let flipped = match &self.chat.segments[i] {
                    ChatSegment::DelegateSummary {
                        to_name,
                        task_title,
                        duration_ms,
                        status,
                        result_preview,
                        expanded,
                    } => Some(
                        ChatSegment::DelegateSummary {
                            to_name: to_name.clone(),
                            task_title: task_title.clone(),
                            duration_ms: *duration_ms,
                            status: status.clone(),
                            result_preview: result_preview.clone(),
                            expanded: !*expanded,
                        },
                    ),
                    _ => None,
                };
                if let Some(seg) = flipped {
                    self.chat.segments.set(i, seg);
                    assert(segment_views(self.chat.segments@) =~= segment_views(before).update(
                        i as int,
                        seg@,
                    ));
                    add_effect(&mut out, Effect::Rerender);
                }
            }
        }
        out
    }
}

// ── Laws ─────────────────────────────────────────────────────────────────────

/// While a segment is edited the conversation shows what is typed.
pub proof fn law_edit_is_shown_live(v: AppView, i: usize)
    requires
        v.edit.message_index == Some(i),
        i < v.chat.segments.len(),
        editable_text(v.chat.segments[i as int]) is Some,
    ensures
        editable_text(v.edit_shown().chat.segments[i as int]) == Some(v.edit.buffer),
        forall|j: int|
            0 <= j < v.chat.segments.len() && j != i ==> #[trigger] v.edit_shown().chat.segments[j]
                == v.chat.segments[j],
{
}

proof fn lemma_last_message(segs: Seq<SegmentView>, n: int)
    requires
        0 <= n,
    ensures
        ({
            let ms = messages_of(segs.take(if n < segs.len() { n } else { segs.len() as int }));
            ms.len() > 0 && is_question(ms.last()) ==> last_user_text(segs, n) == Some(
                ms.last().content->Text_0,
            )
        }),
    decreases n,
{
    if n > segs.len() {
        lemma_last_message(segs, n - 1);
    } else if n > 0 {
        assert(segs.take(n).drop_last() =~= segs.take(n - 1));
        assert(segs.take(n).last() == segs[n - 1]);
        lemma_last_message(segs, n - 1);
    }
}

/// Running again from a segment keeps exactly what came before it. The agent
/// gets the messages of that, and the last question among them to answer: as
/// the last message where nothing came after it, once more where something did.
pub proof fn law_rerun_keeps_what_came_before(v: AppView, i: usize)
    requires
        v.chat.focused_segment == Some(i),
        v.rerun().effects.len() > 0,
    ensures
        ({
            let kept = v.chat.segments.take(
                if i < v.chat.segments.len() {
                    i as int
                } else {
                    v.chat.segments.len() as int
                },
            );
            let question = last_user_text(v.chat.segments, i as int).unwrap();
            let asked = MessageView { role: Role::User, content: ContentView::Text(question) };
            &&& v.rerun().app.chat.segments == kept
            &&& v.rerun().effects.last() matches EffectView::Resubmit(history, message)
                && message == plain_message(question) && (history == messages_of(kept)
                || history.push(asked) == messages_of(kept))
        }),
{
    let segs = v.chat.segments;
    let n = if i < segs.len() {
        i as int
    } else {
        segs.len() as int
    };
    assert(segs.take(segs.len() as int) =~= segs);
    lemma_last_message(segs, i as int);
    let ms = messages_of(segs.take(n));
    if ms.len() > 0 && is_question(ms.last()) {
        assert(ms.drop_last().push(ms.last()) =~= ms);
    }
}

} // verus!
