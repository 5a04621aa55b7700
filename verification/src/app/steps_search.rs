//! Steps of the search: in the chat, in the pager and in the inspector.

use vstd::prelude::*;

use crate::app::chat_state::{low16, low_half, ChatView};
use crate::app::front::{
    add_effect, add_when, effect_views, given, no_effects, nothing, one, App, AppView, Effect,
    EffectView, StepView,
};
use crate::app::ui_state::{FocusPane, UiView};
use crate::chat::search::{SearchState, SearchView};
use crate::style::{line_views, Line, SpanView};
use crate::text::{chars_of, string_of};

verus! {

// ── The query and the current match ──────────────────────────────────────────

impl SearchView {
    /// The line of the current match.
    pub open spec fn at(self) -> Option<usize> {
        if self.current < self.matches.len() {
            Some(self.matches[self.current as int])
        } else {
            None
        }
    }

    /// A new search, with an empty query.
    pub open spec fn opened(self) -> SearchView {
        SearchView { active: true, ..SearchView::idle() }
    }

    /// At the next match, from the last to the first.
    pub open spec fn at_next(self) -> SearchView {
        if self.matches.len() == 0 {
            self
        } else {
            SearchView {
                current: ((self.current + 1) % self.matches.len() as int) as usize,
                ..self
            }
        }
    }

    /// At the match before, from the first to the last.
    pub open spec fn at_prev(self) -> SearchView {
        if self.matches.len() == 0 {
            self
        } else {
            SearchView {
                current: if self.current > 0 {
                    (self.current - 1) as usize
                } else {
                    (self.matches.len() - 1) as usize
                },
                ..self
            }
        }
    }

    /// With a character behind the query.
    pub open spec fn typed(self, c: char) -> SearchView {
        SearchView { query: self.query.push(c), ..self }
    }

    /// Without the last character of the query.
    pub open spec fn shortened(self) -> SearchView {
        if self.query.len() == 0 {
            self
        } else {
            SearchView { query: self.query.drop_last(), ..self }
        }
    }
}

impl SearchState {
    /// Begins a new search.
    pub fn open(&mut self)
        ensures
            final(self)@ == old(self)@.opened(),
    {
        self.query = String::new();
        self.matches = Vec::new();
        self.current = 0;
        self.regex = None;
        self.active = true;
        assert(self.query@ =~= seq![]);
        assert(self.matches@ =~= seq![]);
    }

    /// Goes to the next match.
    pub fn next(&mut self)
        ensures
            final(self)@ == old(self)@.at_next(),
    {
        let n: usize = self.matches.len();
        if n > 0 {
            proof {
                vstd::arithmetic::div_mod::lemma_add_mod_noop_right(
                    1,
                    self.current as int,
                    n as int,
                );
            }
            let c: usize = self.current % n;
            assert((c + 1) % (n as int) == (self.current + 1) % (n as int));
            self.current = if c < n - 1 {
                proof {
                    vstd::arithmetic::div_mod::lemma_small_mod((c + 1) as nat, n as nat);
                }
                c + 1
            } else {
                proof {
                    vstd::arithmetic::div_mod::lemma_mod_self_0(n as int);
                }
                0
            };
        }
    }

    /// Goes to the match before.
    pub fn prev(&mut self)
        ensures
            final(self)@ == old(self)@.at_prev(),
    {
        let n: usize = self.matches.len();
        if n > 0 {
            self.current = if self.current > 0 {
                self.current - 1
            } else {
                n - 1
            };
        }
    }

    /// Adds a character to the query.
    pub fn type_char(&mut self, c: char)
        ensures
            final(self)@ == old(self)@.typed(c),
    {
        self.query.push(c);
    }

    /// Takes the last character off the query.
    pub fn backspace(&mut self)
        ensures
            final(self)@ == old(self)@.shortened(),
    {
        let chars = chars_of(self.query.as_str());
        let n: usize = chars.len();
        if n > 0 {
            let shorter = string_of(&chars, 0, n - 1);
            assert(shorter@ =~= self.query@.drop_last());
            self.query = shorter;
        }
    }
}

// ── Steps ────────────────────────────────────────────────────────────────────

/// A thing to do at a line, if there is one.
pub open spec fn at_line(line: Option<usize>, inspector: bool) -> Seq<EffectView> {
    match line {
        Some(l) => if inspector {
            nothing() + one(EffectView::InspectorTo(l))
        } else {
            nothing() + one(EffectView::PagerTo(l))
        },
        None => nothing(),
    }
}

impl AppView {
    /// With the search changed.
    pub open spec fn searching(self, search: SearchView) -> AppView {
        AppView { ui: UiView { search, ..self.ui }, ..self }
    }

    /// The current match shown: in the inspector where it is open, otherwise in
    /// the chat and in the pager where that is open.
    pub open spec fn match_shown(self) -> StepView {
        match self.ui.search.at() {
            Some(l) => if self.ui.inspector_open {
                StepView { app: self, effects: nothing() + one(EffectView::InspectorTo(l)) }
            } else {
                StepView {
                    app: AppView {
                        chat: ChatView { scroll_offset: low16(l as int), ..self.chat },
                        ..self
                    },
                    effects: nothing() + given(self.ui.pager_open, EffectView::PagerTo(l)),
                }
            },
            None => StepView { app: self, effects: nothing() },
        }
    }

    /// A search begun in the chat.
    pub open spec fn search_opened(self) -> AppView {
        self.searching(self.ui.search.opened()).in_chat()
    }

    /// The search ended; what is shown goes to the current match.
    pub open spec fn search_closed(self) -> StepView {
        let closed = self.searching(SearchView { active: false, ..self.ui.search });
        match self.ui.search.at() {
            Some(l) => if self.ui.inspector_open {
                StepView { app: closed, effects: nothing() + one(EffectView::InspectorTo(l)) }
            } else if self.ui.pager_open {
                StepView { app: closed, effects: nothing() + one(EffectView::PagerTo(l)) }
            } else {
                StepView {
                    app: AppView {
                        chat: ChatView { scroll_offset: low16(l as int), ..self.chat },
                        ..closed
                    },
                    effects: nothing(),
                }
            },
            None => StepView { app: closed, effects: nothing() },
        }
    }

    /// The query one character longer.
    pub open spec fn search_typed(self, c: char) -> StepView {
        let typed = self.ui.search.typed(c);
        if self.ui.inspector_open {
            StepView {
                app: self.searching(typed),
                effects: nothing() + one(EffectView::SearchInspector),
            }
        } else {
            self.searching(typed.updated(self.chat.lines)).match_shown()
        }
    }

    /// The query one character shorter.
    pub open spec fn search_shortened(self) -> StepView {
        let shorter = self.ui.search.shortened();
        if self.ui.inspector_open {
            StepView {
                app: self.searching(shorter),
                effects: nothing() + one(EffectView::SearchInspector),
            }
        } else {
            StepView {
                app: self.searching(shorter.updated(self.chat.lines)),
                effects: nothing(),
            }
        }
    }

    /// The next match shown.
    pub open spec fn search_next(self) -> StepView {
        if self.ui.search.matches.len() == 0 {
            StepView { app: self, effects: nothing() }
        } else {
            self.searching(self.ui.search.at_next()).match_shown()
        }
    }

    /// The match before shown.
    pub open spec fn search_prev(self) -> StepView {
        if self.ui.search.matches.len() == 0 {
            StepView { app: self, effects: nothing() }
        } else {
            self.searching(self.ui.search.at_prev()).match_shown()
        }
    }

    /// The lines of the inspector searched.
    pub open spec fn inspector_searched(self, lines: Seq<Seq<SpanView>>) -> StepView {
        let search = self.ui.search.updated(lines);
        StepView { app: self.searching(search), effects: at_line(search.at(), true) }
    }
}

impl App {
    fn show_match(&mut self) -> (r: Vec<Effect>)
        ensures
            final(self)@ == old(self)@.match_shown().app,
            effect_views(r@) == old(self)@.match_shown().effects,
    {
        let mut out = no_effects();
        if let Some(l) = self.ui.search.current_line() {
            if self.ui.inspector_open {
                add_effect(&mut out, Effect::InspectorTo(l));
            } else {
                self.chat.scroll_offset = low_half(l);
                add_when(&mut out, self.ui.pager_open, Effect::PagerTo(l));
            }
        }
        out
    }

    /// Begins a search in the chat.
    pub fn open_search(&mut self)
        ensures
            final(self)@ == old(self)@.search_opened(),
    {
        self.ui.search.open();
        self.ui.focus = FocusPane::Chat;
        self.chat.recompute_focused_segment(self.layout.chat_height);
    }

    /// Ends the search.
    pub fn close_search(&mut self) -> (r: Vec<Effect>)
        ensures
            final(self)@ == old(self)@.search_closed().app,
            effect_views(r@) == old(self)@.search_closed().effects,
    {
        let mut out = no_effects();
        self.ui.search.active = false;
        if let Some(l) = self.ui.search.current_line() {
            if self.ui.inspector_open {
                add_effect(&mut out, Effect::InspectorTo(l));
            } else if self.ui.pager_open {
                add_effect(&mut out, Effect::PagerTo(l));
            } else {
                self.chat.scroll_offset = low_half(l);
            }
        }
        out
    }

    /// Adds a character to the query.
    pub fn type_search(&mut self, c: char) -> (r: Vec<Effect>)
        ensures
            final(self)@ == old(self)@.search_typed(c).app,
            effect_views(r@) == old(self)@.search_typed(c).effects,
    {
        self.ui.search.type_char(c);
        if self.ui.inspector_open {
            let mut out = no_effects();
            add_effect(&mut out, Effect::SearchInspector);
            out
        } else {
            self.ui.search.update_matches(&self.chat.lines);
            self.show_match()
        }
    }

    /// Takes the last character off the query.
    pub fn shorten_search(&mut self) -> (r: Vec<Effect>)
        ensures
            final(self)@ == old(self)@.search_shortened().app,
            effect_views(r@) == old(self)@.search_shortened().effects,
    {
        let mut out = no_effects();
        self.ui.search.backspace();
        if self.ui.inspector_open {
            add_effect(&mut out, Effect::SearchInspector);
        } else {
            self.ui.search.update_matches(&self.chat.lines);
        }
        out
    }

    /// Shows the next match.
    pub fn next_match(&mut self) -> (r: Vec<Effect>)
        ensures
            final(self)@ == old(self)@.search_next().app,
            effect_views(r@) == old(self)@.search_next().effects,
    {
        if self.ui.search.matches.len() == 0 {
            no_effects()
        } else {
            self.ui.search.next();
            self.show_match()
        }
    }

    /// Shows the match before.
    pub fn prev_match(&mut self) -> (r: Vec<Effect>)
        ensures
            final(self)@ == old(self)@.search_prev().app,
            effect_views(r@) == old(self)@.search_prev().effects,
    {
        if self.ui.search.matches.len() == 0 {
            no_effects()
        } else {
            self.ui.search.prev();
            self.show_match()
        }
    }

    /// Searches the lines of the inspector.
    pub fn search_inspector(&mut self, lines: &Vec<Line>) -> (r: Vec<Effect>)
        ensures
            final(self)@ == old(self)@.inspector_searched(line_views(lines@)).app,
            effect_views(r@) == old(self)@.inspector_searched(line_views(lines@)).effects,
    {
        let mut out = no_effects();
        self.ui.search.update_matches(lines);
        if let Some(l) = self.ui.search.current_line() {
            add_effect(&mut out, Effect::InspectorTo(l));
        }
        out
    }
}

// ── The pager and the inspector ──────────────────────────────────────────────

/// What a key asks of the pager or the inspector, beyond scrolling.
#[derive(Clone, Copy, Debug, PartialEq, Eq, Structural)]
pub enum PagerAction {
    Close,
    OpenSearch,
    OpenSearchBackward,
    SearchNext,
    SearchPrev,
    /// The key was dealt with.
    Handled,
}

impl AppView {
    /// After a key in the pager.
    pub open spec fn pager_acted(self, a: PagerAction) -> StepView {
        match a {
            PagerAction::Close => StepView {
                app: AppView { ui: UiView { pager_open: false, ..self.ui }, ..self },
                effects: nothing(),
            },
            PagerAction::OpenSearch | PagerAction::OpenSearchBackward => StepView {
                app: self.searching(self.ui.search.opened()),
                effects: nothing(),
            },
            PagerAction::SearchNext => StepView {
                app: self.searching(self.ui.search.at_next()),
                effects: at_line(self.ui.search.at_next().at(), false),
            },
            PagerAction::SearchPrev => StepView {
                app: self.searching(self.ui.search.at_prev()),
                effects: at_line(self.ui.search.at_prev().at(), false),
            },
            PagerAction::Handled => StepView { app: self, effects: nothing() },
        }
    }

    /// After a key in the inspector.
    pub open spec fn inspector_acted(self, a: PagerAction) -> StepView {
        match a {
            PagerAction::Close => StepView {
                app: AppView {
                    ui: UiView {
                        inspector_open: false,
                        search: SearchView { active: false, ..self.ui.search },
                        ..self.ui
                    },
                    ..self
                },
                effects: nothing(),
            },
            PagerAction::OpenSearch | PagerAction::OpenSearchBackward => StepView {
                app: self.searching(self.ui.search.opened()),
                effects: nothing(),
            },
            PagerAction::SearchNext => StepView {
                app: self.searching(self.ui.search.at_next()),
                effects: at_line(self.ui.search.at_next().at(), true),
            },
            PagerAction::SearchPrev => StepView {
                app: self.searching(self.ui.search.at_prev()),
                effects: at_line(self.ui.search.at_prev().at(), true),
            },
            PagerAction::Handled => StepView { app: self, effects: nothing() },
        }
    }
}

impl App {
    fn go_to_match(&self, inspector: bool) -> (r: Vec<Effect>)
        ensures
            effect_views(r@) == at_line(self@.ui.search.at(), inspector),
    {
        let mut out = no_effects();
        if let Some(l) = self.ui.search.current_line() {
            if inspector {
                add_effect(&mut out, Effect::InspectorTo(l));
            } else {
                add_effect(&mut out, Effect::PagerTo(l));
            }
        }
        out
    }

    /// Takes in a key in the pager.
    pub fn act_in_pager(&mut self, a: PagerAction) -> (r: Vec<Effect>)
        ensures
            final(self)@ == old(self)@.pager_acted(a).app,
            effect_views(r@) == old(self)@.pager_acted(a).effects,
    {
        match a {
            PagerAction::Close => {
                self.ui.pager_open = false;
                no_effects()
            },
            PagerAction::OpenSearch | PagerAction::OpenSearchBackward => {
                self.ui.search.open();
                no_effects()
            },
            PagerAction::SearchNext => {
                self.ui.search.next();
                self.go_to_match(false)
            },
            PagerAction::SearchPrev => {
                self.ui.search.prev();
                self.go_to_match(false)
            },
            PagerAction::Handled => no_effects(),
        }
    }

    /// Takes in a key in the inspector.
    pub fn act_in_inspector(&mut self, a: PagerAction) -> (r: Vec<Effect>)
        ensures
            final(self)@ == old(self)@.inspector_acted(a).app,
            effect_views(r@) == old(self)@.inspector_acted(a).effects,
    {
        match a {
            PagerAction::Close => {
                self.ui.inspector_open = false;
                self.ui.search.active = false;
                no_effects()
            },
            PagerAction::OpenSearch | PagerAction::OpenSearchBackward => {
                self.ui.search.open();
                no_effects()
            },
            PagerAction::SearchNext => {
                self.ui.search.next();
                self.go_to_match(true)
            },
            PagerAction::SearchPrev => {
                self.ui.search.prev();
                self.go_to_match(true)
            },
            PagerAction::Handled => no_effects(),
        }
    }
}

// ── Laws ─────────────────────────────────────────────────────────────────────

/// The next match and the one before lead back to the current one.
pub proof fn law_matches_wrap(s: SearchView)
    requires
        s.current < s.matches.len() <= usize::MAX,
    ensures
        s.at_next().at_prev() == s,
        s.at_prev().at_next() == s,
        s.at_next().current < s.matches.len(),
{
    let n = s.matches.len() as int;
    if s.current + 1 < n {
        vstd::arithmetic::div_mod::lemma_small_mod((s.current + 1) as nat, n as nat);
    } else {
        vstd::arithmetic::div_mod::lemma_mod_self_0(n);
    }
    if s.current > 0 {
        vstd::arithmetic::div_mod::lemma_small_mod(s.current as nat, n as nat);
    } else {
        vstd::arithmetic::div_mod::lemma_mod_self_0(n);
    }
}

/// A character typed and taken back leaves the query as it was.
pub proof fn law_backspace_takes_back(s: SearchView, c: char)
    ensures
        s.typed(c).shortened() == s,
{
    assert(s.query.push(c).drop_last() =~= s.query);
}

} // verus!
