//! The model and the mode of a session, and the changes that wait for the next
//! message.

use vstd::prelude::*;

use crate::app::queue_state::{model_label, ModelConfig, ModelView};
use crate::commands::AgentMode;

verus! {

/// The model and the mode of a session.
#[derive(Debug)]
pub struct SessionState {
    pub model_cfg: ModelConfig,
    /// The model as it is shown.
    pub model_display: String,
    pub mode: AgentMode,
    /// The model that the next message switches to.
    pub staged_model: Option<ModelConfig>,
    /// The mode that the next message switches to.
    pub staged_mode: Option<AgentMode>,
}

pub struct SessionStateView {
    pub model_cfg: ModelView,
    pub model_display: Seq<char>,
    pub mode: AgentMode,
    pub staged_model: Option<ModelView>,
    pub staged_mode: Option<AgentMode>,
}

/// The view of an optional model.
pub open spec fn model_view(o: Option<ModelConfig>) -> Option<ModelView> {
    match o {
        Some(m) => Some(m@),
        None => None,
    }
}

impl View for SessionState {
    type V = SessionStateView;

    open spec fn view(&self) -> SessionStateView {
        SessionStateView {
            model_cfg: self.model_cfg@,
            model_display: self.model_display@,
            mode: self.mode,
            staged_model: model_view(self.staged_model),
            staged_mode: self.staged_mode,
        }
    }
}

/// The mode behind another one.
pub open spec fn next_mode(m: AgentMode) -> AgentMode {
    match m {
        AgentMode::Research => AgentMode::Plan,
        AgentMode::Plan => AgentMode::Agent,
        AgentMode::Agent => AgentMode::Research,
    }
}

impl SessionStateView {
    /// A session with a model and a mode, and no change waiting.
    pub open spec fn fresh(model: ModelView, mode: AgentMode) -> SessionStateView {
        SessionStateView {
            model_cfg: model,
            model_display: model_label(model),
            mode,
            staged_model: None,
            staged_mode: None,
        }
    }

    /// With a model for the next message; it is shown at once while the agent is
    /// idle.
    pub open spec fn with_model(self, model: ModelView, busy: bool) -> SessionStateView {
        SessionStateView {
            model_cfg: model,
            model_display: if busy {
                self.model_display
            } else {
                model_label(model)
            },
            staged_model: Some(model),
            ..self
        }
    }

    /// With a mode for the next message; it holds at once while the agent is
    /// idle.
    pub open spec fn with_mode(self, mode: AgentMode, busy: bool) -> SessionStateView {
        SessionStateView {
            mode: if busy {
                self.mode
            } else {
                mode
            },
            staged_mode: Some(mode),
            ..self
        }
    }

    /// With nothing waiting.
    pub open spec fn consumed(self) -> SessionStateView {
        SessionStateView { staged_model: None, staged_mode: None, ..self }
    }
}

impl SessionState {
    /// A session with a model and a mode.
    pub fn new(model: ModelConfig, mode: AgentMode) -> (r: SessionState)
        ensures
            r@ == SessionStateView::fresh(model@, mode),
    {
        let model_display = model.label();
        SessionState {
            model_cfg: model,
            model_display,
            mode,
            staged_model: None,
            staged_mode: None,
        }
    }

    /// Switches to the next mode.
    pub fn cycle_mode(&mut self)
        ensures
            final(self)@ == (SessionStateView { mode: next_mode(old(self)@.mode), ..old(self)@ }),
    {
        self.mode = match self.mode {
            AgentMode::Research => AgentMode::Plan,
            AgentMode::Plan => AgentMode::Agent,
            AgentMode::Agent => AgentMode::Research,
        };
    }

    /// Chooses the model of the next message.
    pub fn stage_model(&mut self, model: ModelConfig, busy: bool)
        ensures
            final(self)@ == old(self)@.with_model(model@, busy),
    {
        if !busy {
            self.model_display = model.label();
        }
        self.model_cfg = model.clone();
        self.staged_model = Some(model);
    }

    /// Chooses the mode of the next message.
    pub fn stage_mode(&mut self, mode: AgentMode, busy: bool)
        ensures
            final(self)@ == old(self)@.with_mode(mode, busy),
    {
        if !busy {
            self.mode = mode;
        }
        self.staged_mode = Some(mode);
    }

    /// Takes the changes for the next message.
    pub fn consume_staged(&mut self) -> (r: (Option<ModelConfig>, Option<AgentMode>))
        ensures
            model_view(r.0) == old(self)@.staged_model,
            r.1 == old(self)@.staged_mode,
            final(self)@ == old(self)@.consumed(),
    {
        let model = self.staged_model.take();
        let mode = self.staged_mode;
        self.staged_mode = None;
        (model, mode)
    }
}

/// Three steps lead through all modes and back.
pub proof fn law_modes_cycle(m: AgentMode)
    ensures
        next_mode(next_mode(next_mode(m))) == m,
        next_mode(m) != m,
{
}

} // verus!
