//! Messages that wait for the agent.

use vstd::prelude::*;

use crate::commands::AgentMode;

verus! {

/// A model of a provider.
#[derive(Debug, PartialEq, Eq)]
pub struct ModelConfig {
    pub provider: String,
    pub name: String,
}

pub struct ModelView {
    pub provider: Seq<char>,
    pub name: Seq<char>,
}

impl View for ModelConfig {
    type V = ModelView;

    open spec fn view(&self) -> ModelView {
        ModelView { provider: self.provider@, name: self.name@ }
    }
}

impl Clone for ModelConfig {
    fn clone(&self) -> (r: Self)
        ensures
            r@ == self@,
    {
        ModelConfig { provider: self.provider.clone(), name: self.name.clone() }
    }
}

/// The name of a model with its provider.
pub open spec fn model_label(m: ModelView) -> Seq<char> {
    m.provider + "/"@ + m.name
}

impl ModelConfig {
    /// The name of the model with its provider.
    pub fn label(&self) -> (r: String)
        ensures
            r@ == model_label(self@),
    {
        let mut out = self.provider.clone();
        out.append("/");
        out.append(self.name.as_str());
        out
    }
}

/// A change of the model that comes with a message.
#[derive(Debug)]
pub enum ModelDirective {
    SwitchTo(Box<ModelConfig>),
}

impl View for ModelDirective {
    type V = ModelView;

    open spec fn view(&self) -> ModelView {
        match *self {
            ModelDirective::SwitchTo(c) => c@,
        }
    }
}

impl Clone for ModelDirective {
    fn clone(&self) -> (r: Self)
        ensures
            r@ == self@,
    {
        match self {
            ModelDirective::SwitchTo(c) => ModelDirective::SwitchTo(Box::new((**c).clone())),
        }
    }
}

impl ModelDirective {
    /// The model.
    pub fn into_model_config(self) -> (r: ModelConfig)
        ensures
            r@ == self@,
    {
        match self {
            ModelDirective::SwitchTo(c) => *c,
        }
    }

    /// The label of the change in the queue.
    pub fn display_label(&self) -> (r: String)
        ensures
            r@ == model_label(self@),
    {
        match self {
            ModelDirective::SwitchTo(c) => c.label(),
        }
    }
}

/// A message that waits, with the changes that come with it.
#[derive(Debug)]
pub struct QueuedMessage {
    pub content: String,
    pub model_transition: Option<ModelDirective>,
    pub mode_transition: Option<AgentMode>,
}

pub struct QueuedView {
    pub content: Seq<char>,
    pub model_transition: Option<ModelView>,
    pub mode_transition: Option<AgentMode>,
}

impl View for QueuedMessage {
    type V = QueuedView;

    open spec fn view(&self) -> QueuedView {
        QueuedView {
            content: self.content@,
            model_transition: match self.model_transition {
                Some(d) => Some(d@),
                None => None,
            },
            mode_transition: self.mode_transition,
        }
    }
}

/// A message without any change.
pub open spec fn plain_message(content: Seq<char>) -> QueuedView {
    QueuedView { content, model_transition: None, mode_transition: None }
}

impl QueuedMessage {
    /// A message without any change.
    pub fn plain(content: String) -> (r: QueuedMessage)
        ensures
            r@ == plain_message(content@),
    {
        QueuedMessage { content, model_transition: None, mode_transition: None }
    }
}

/// The views of messages that wait.
pub open spec fn queued_views(v: Seq<QueuedMessage>) -> Seq<QueuedView> {
    v.map_values(|m: QueuedMessage| m@)
}

/// The queue and what is selected in it.
#[derive(Debug)]
pub struct QueueState {
    /// The messages that wait, the next one first.
    pub messages: Vec<QueuedMessage>,
    /// The selected row.
    pub selected: Option<usize>,
    /// After an abort nothing is sent by itself.
    pub abort_pending: bool,
}

pub struct QueueView {
    pub messages: Seq<QueuedView>,
    pub selected: Option<usize>,
    pub abort_pending: bool,
}

impl View for QueueState {
    type V = QueueView;

    open spec fn view(&self) -> QueueView {
        QueueView {
            messages: queued_views(self.messages@),
            selected: self.selected,
            abort_pending: self.abort_pending,
        }
    }
}

impl QueueView {
    /// The empty queue.
    pub open spec fn empty() -> QueueView {
        QueueView { messages: seq![], selected: None, abort_pending: false }
    }

    /// What is selected exists.
    pub open spec fn selection_ok(self) -> bool {
        self.selected matches Some(i) ==> i < self.messages.len()
    }

    /// With a row selected, the first one if there was none.
    pub open spec fn entered(self) -> QueueView {
        QueueView {
            selected: if self.selected is None {
                Some(0usize)
            } else {
                self.selected
            },
            ..self
        }
    }

    /// One row up.
    pub open spec fn up(self) -> QueueView {
        QueueView {
            selected: match self.selected {
                Some(i) => Some(
                    if i == 0 {
                        0usize
                    } else {
                        (i - 1) as usize
                    },
                ),
                None => if self.messages.len() > 0 {
                    Some(0usize)
                } else {
                    None
                },
            },
            ..self
        }
    }

    /// One row down, not past the last.
    pub open spec fn down(self) -> QueueView {
        if self.messages.len() == 0 {
            self
        } else {
            let i = match self.selected {
                Some(i) => i as int,
                None => 0,
            };
            QueueView {
                selected: Some(
                    (if i + 1 < self.messages.len() {
                        i + 1
                    } else {
                        self.messages.len() - 1
                    }) as usize,
                ),
                ..self
            }
        }
    }

    /// With a message taken out; the selection stays at its place or moves to
    /// the last.
    pub open spec fn without(self, i: int) -> QueueView {
        let rest = self.messages.remove(i);
        QueueView {
            messages: rest,
            selected: if rest.len() == 0 {
                None
            } else if i < rest.len() {
                Some(i as usize)
            } else {
                Some((rest.len() - 1) as usize)
            },
            ..self
        }
    }

    /// With the next message taken out; the selection moves with the messages.
    pub open spec fn advanced(self) -> QueueView {
        let rest = self.messages.skip(1);
        QueueView {
            messages: rest,
            selected: if rest.len() == 0 {
                None
            } else {
                match self.selected {
                    Some(i) => Some(
                        if i == 0 {
                            0usize
                        } else {
                            (i - 1) as usize
                        },
                    ),
                    None => None,
                }
            },
            ..self
        }
    }

    /// With a message behind the others, which is selected.
    pub open spec fn with(self, m: QueuedView) -> QueueView {
        QueueView {
            messages: self.messages.push(m),
            selected: Some(self.messages.len() as usize),
            ..self
        }
    }

    /// With the text of a message replaced, if there is such a message.
    pub open spec fn with_content(self, i: int, text: Seq<char>) -> QueueView {
        if 0 <= i < self.messages.len() {
            QueueView {
                messages: self.messages.update(
                    i,
                    QueuedView { content: text, ..self.messages[i] },
                ),
                ..self
            }
        } else {
            self
        }
    }
}

impl QueueState {
    /// The empty queue.
    pub fn new() -> (r: QueueState)
        ensures
            r@ == QueueView::empty(),
            r@.selection_ok(),
    {
        let r = QueueState { messages: Vec::new(), selected: None, abort_pending: false };
        assert(r@.messages =~= seq![]);
        r
    }

    /// Selects the first row where none is selected.
    pub fn enter(&mut self)
        ensures
            final(self)@ == old(self)@.entered(),
    {
        if self.selected.is_none() {
            self.selected = Some(0);
        }
    }

    /// Selects the row above.
    pub fn select_up(&mut self)
        ensures
            final(self)@ == old(self)@.up(),
    {
        assert(self@.messages.len() == self.messages@.len());
        match self.selected {
            Some(i) => {
                self.selected = Some(i.saturating_sub(1));
            },
            None => {
                if self.messages.len() > 0 {
                    self.selected = Some(0);
                }
            },
        }
    }

    /// Selects the row below, not past the last.
    pub fn select_down(&mut self)
        ensures
            final(self)@ == old(self)@.down(),
    {
        let len: usize = self.messages.len();
        assert(self@.messages.len() == len);
        if len > 0 {
            let i: usize = match self.selected {
                Some(i) => i,
                None => 0,
            };
            self.selected = Some(
                if i < len - 1 {
                    i + 1
                } else {
                    len - 1
                },
            );
        }
    }

    /// Takes a message out.
    pub fn take(&mut self, i: usize) -> (r: QueuedMessage)
        requires
            i < old(self).messages@.len(),
        ensures
            r@ == old(self)@.messages[i as int],
            final(self)@ == old(self)@.without(i as int),
    {
        let ghost before = self.messages@;
        let m = self.messages.remove(i);
        let len: usize = self.messages.len();
        self.selected = if len == 0 {
            None
        } else if i < len {
            Some(i)
        } else {
            Some(len - 1)
        };
        assert(queued_views(self.messages@) =~= queued_views(before).remove(i as int));
        m
    }

    /// Takes the next message out, if there is one.
    pub fn take_next(&mut self) -> (r: Option<QueuedMessage>)
        ensures
            old(self)@.messages.len() == 0 ==> r is None && final(self)@ == old(self)@,
            old(self)@.messages.len() > 0 ==> {
                &&& r matches Some(m) && m@ == old(self)@.messages[0]
                &&& final(self)@ == old(self)@.advanced()
            },
    {
        let ghost before = self.messages@;
        if self.messages.len() == 0 {
            return None;
        }
        let m = self.messages.remove(0);
        let len: usize = self.messages.len();
        self.selected = if len == 0 {
            None
        } else {
            match self.selected {
                Some(i) => Some(i.saturating_sub(1)),
                None => None,
            }
        };
        assert(queued_views(self.messages@) =~= queued_views(before).skip(1));
        Some(m)
    }

    /// Puts a message behind the others and selects it.
    pub fn push(&mut self, m: QueuedMessage)
        ensures
            final(self)@ == old(self)@.with(m@),
    {
        let ghost before = self.messages@;
        let len: usize = self.messages.len();
        self.messages.push(m);
        self.selected = Some(len);
        assert(queued_views(self.messages@) =~= queued_views(before).push(m@));
    }

    /// Replaces the text of a message, if there is such a message.
    pub fn set_content(&mut self, i: usize, text: &str)
        ensures
            final(self)@ == old(self)@.with_content(i as int, text@),
    {
        let ghost before = self.messages@;
        if i < self.messages.len() {
            let model_transition = match &self.messages[i].model_transition {
                Some(d) => Some(d.clone()),
                None => None,
            };
            let m = QueuedMessage {
                content: text.to_owned(),
                model_transition,
                mode_transition: self.messages[i].mode_transition,
            };
            self.messages.set(i, m);
            assert(queued_views(self.messages@) =~= queued_views(before).update(i as int, m@));
        }
    }
}

/// Whatever is done with the queue, what is selected in it exists.
pub proof fn law_selected_message_exists(q: QueueView, i: int, m: QueuedView, text: Seq<char>)
    requires
        q.selection_ok(),
        q.messages.len() < usize::MAX,
    ensures
        q.messages.len() > 0 ==> q.entered().selection_ok(),
        q.up().selection_ok(),
        q.down().selection_ok(),
        0 <= i < q.messages.len() ==> q.without(i).selection_ok(),
        q.messages.len() > 0 ==> q.advanced().selection_ok(),
        q.with(m).selection_ok(),
        q.with_content(i, text).selection_ok(),
{
}

/// Messages leave the queue in the order in which they came.
pub proof fn law_queue_is_first_in_first_out(q: QueueView, m: QueuedView)
    requires
        q.messages.len() > 0,
    ensures
        q.with(m).messages[0] == q.messages[0],
        q.with(m).advanced().messages == q.advanced().messages.push(m),
{
    assert(q.with(m).advanced().messages =~= q.advanced().messages.push(m));
}

} // verus!
