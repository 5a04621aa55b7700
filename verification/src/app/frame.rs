//! Frames: how large the panes are to be, what is measured before a frame, and
//! what a frame shows.

use vstd::prelude::*;

use crate::app::chat_state::{low16, low_half, minus, ChatView};
use crate::app::front::{
    add_effect, add_when, effect_views, given, no_effects, nothing, one, App, AppView, Effect,
    EffectView, StepView,
};
use crate::app::input_state::{EditView, InputView};
use crate::app::layout_cache::{LayoutCache, Rect};
use crate::app::steps_input::box_scroll;
use crate::app::ui_state::{
    member_with, team_views, AgentPickerStatus, FocusPane, TeamEntryView, TeamPickerEntry,
};
use crate::commands::completion::opt_string_view;
use crate::input_wrap::{wrap_content, wrapped_lines};
use crate::text::{byte_len, byte_length, str_eq, views};

verus! {

// ── Measures ─────────────────────────────────────────────────────────────────

/// The panes of a frame.
#[derive(Clone, Copy, Debug, PartialEq, Eq, Structural)]
pub struct Panes {
    pub chat: Rect,
    pub input: Rect,
    pub queue: Rect,
    pub chat_list: Rect,
    pub peers: Rect,
}

/// The greater of two numbers.
pub open spec fn greater(a: int, b: int) -> int {
    if a > b {
        a
    } else {
        b
    }
}

/// The smaller of two numbers.
pub open spec fn smaller(a: int, b: int) -> int {
    if a < b {
        a
    } else {
        b
    }
}

/// The height of the input for its text: a row for each line and attachment and
/// two for the border, at least what the user has chosen, and at most half of
/// the screen.
pub open spec fn input_rows(lines: int, attachments: int, chosen: int, height: int) -> int {
    let rows = low16(greater(lines, 1)) + low16(attachments) + 2;
    smaller(greater(rows, chosen), greater(height / 2, 3))
}

impl AppView {
    /// The text in the box of the input.
    pub open spec fn boxed_text(self) -> Seq<char> {
        if self.edit.is_active() {
            self.edit.buffer
        } else {
            self.input.buffer
        }
    }

    /// The height of the input for a text on a screen. The prompt takes two
    /// columns.
    pub open spec fn height_for(self, text: Seq<char>, width: u16, height: u16) -> int {
        let lines = wrapped_lines(text, greater(minus(width as int, 2), 1) as nat, byte_len(text));
        input_rows(
            lines.len() as int,
            self.input.attachments.len() as int,
            self.prefs.input_height as int,
            height as int,
        )
    }

    /// The height of the input on a screen.
    pub open spec fn input_height(self, width: u16, height: u16) -> int {
        self.height_for(self.boxed_text(), width, height)
    }
}

fn row_count(lines: usize, attachments: usize, chosen: u16, height: u16) -> (r: u16)
    ensures
        r == input_rows(lines as int, attachments as int, chosen as int, height as int),
{
    let lines: usize = if lines > 1 {
        lines
    } else {
        1
    };
    let rows: u32 = low_half(lines) as u32 + low_half(attachments) as u32 + 2;
    let wanted: u32 = if rows > chosen as u32 {
        rows
    } else {
        chosen as u32
    };
    let most: u16 = if height / 2 > 3 {
        height / 2
    } else {
        3
    };
    if wanted < most as u32 {
        wanted as u16
    } else {
        most
    }
}

impl App {
    fn input_height_for(&self, text: &str, width: u16, height: u16) -> (r: u16)
        ensures
            r == self@.height_for(text@, width, height),
    {
        let w: u16 = width.saturating_sub(2);
        let w: usize = if w > 1 {
            w as usize
        } else {
            1
        };
        let ws = wrap_content(text, w, byte_length(text));
        assert(views(ws.lines@).len() == ws.lines@.len());
        assert(self@.input.attachments.len() == self.input.attachments@.len());
        row_count(
            ws.lines.len(),
            self.input.attachments.len(),
            self.prefs.input_height,
            height,
        )
    }

    /// The height of the input on a screen of some size.
    pub fn desired_input_height(&self, width: u16, height: u16) -> (r: u16)
        ensures
            r == self@.input_height(width, height),
    {
        let text = if self.edit.active() {
            self.edit.buffer.as_str()
        } else {
            self.input.buffer.as_str()
        };
        self.input_height_for(text, width, height)
    }

    /// The height of the input on a terminal that just got another size. What is
    /// being edited does not count until the frame that comes.
    pub fn resized_input_height(&self, width: u16, height: u16) -> (r: u16)
        ensures
            r == self@.height_for(self@.input.buffer, width, height),
    {
        self.input_height_for(self.input.buffer.as_str(), width, height)
    }
}

/// The measures of a frame with its panes. The chat is as wide as its pane, and
/// the prompt of the input takes two columns.
pub open spec fn measured(l: LayoutCache, p: Panes) -> LayoutCache {
    LayoutCache {
        chat_height: greater(minus(p.chat.height as int, 2), 1) as u16,
        chat_inner_width: greater(p.chat.width as int, 20) as u16,
        input_inner_width: minus(p.input.width as int, 2) as u16,
        input_inner_height: minus(p.input.height as int, 2) as u16,
        chat_pane: p.chat,
        input_pane: p.input,
        queue_pane: p.queue,
        ..l
    }
}

fn chat_rows(p: &Panes) -> (r: u16)
    ensures
        r == greater(minus(p.chat.height as int, 2), 1),
{
    let rows: u16 = p.chat.height.saturating_sub(2);
    if rows > 1 {
        rows
    } else {
        1
    }
}

/// Takes the measures of a frame.
pub fn measure(l: &mut LayoutCache, p: &Panes)
    ensures
        *final(l) == measured(*old(l), *p),
{
    l.chat_height = chat_rows(p);
    l.chat_inner_width = if p.chat.width > 20 {
        p.chat.width
    } else {
        20
    };
    l.input_inner_width = p.input.width.saturating_sub(2);
    l.input_inner_height = p.input.height.saturating_sub(2);
    l.chat_pane = p.chat;
    l.input_pane = p.input;
    l.queue_pane = p.queue;
}

impl AppView {
    /// With the measures of the frame that comes, and the chat not scrolled past
    /// its end.
    pub open spec fn framed(self, p: Panes) -> AppView {
        let layout = LayoutCache {
            chat_list_pane: p.chat_list,
            peers_pane: p.peers,
            ..measured(self.layout, p)
        };
        let max = self.chat.max_scroll(layout.chat_height);
        AppView {
            layout,
            chat: ChatView {
                scroll_offset: if self.chat.scroll_offset > max {
                    max
                } else {
                    self.chat.scroll_offset
                },
                ..self.chat
            },
            ..self
        }
    }

    /// With the cursor of the box that is shown in sight.
    pub open spec fn cursor_shown(self) -> AppView {
        let w = self.input_width();
        let h = self.layout.input_inner_height as nat;
        if self.edit.message_index is Some {
            AppView {
                edit: EditView {
                    scroll_offset: box_scroll(
                        self.edit.buffer,
                        self.edit.cursor,
                        self.edit.scroll_offset,
                        w,
                        h,
                    ),
                    ..self.edit
                },
                ..self
            }
        } else {
            AppView {
                input: InputView {
                    scroll_offset: box_scroll(
                        self.input.buffer,
                        self.input.cursor,
                        self.input.scroll_offset,
                        w,
                        h,
                    ),
                    ..self.input
                },
                ..self
            }
        }
    }

    /// Before a frame is drawn.
    pub open spec fn before_frame(self, p: Panes) -> AppView {
        AppView { needs_terminal_recover: false, ..self.framed(p).cursor_shown() }
    }

    /// After the terminal got another size.
    pub open spec fn resized(self, p: Panes) -> StepView {
        StepView {
            app: AppView { layout: measured(self.layout, p), ..self },
            effects: nothing() + given(
                self.nvim.bridge,
                EffectView::EditorResize(
                    minus(p.chat.width as int, 2) as u16,
                    minus(p.chat.height as int, 2) as u16,
                ),
            ) + one(EffectView::Rerender) + given(self.ui.pager_open, EffectView::RefreshPager),
        }
    }
}

impl App {
    /// Takes the measures of the frame that comes and brings the cursor into
    /// sight. Returns whether the terminal has to be set up again.
    pub fn prepare_frame(&mut self, p: &Panes) -> (r: bool)
        ensures
            r == old(self)@.needs_terminal_recover,
            final(self)@ == old(self)@.before_frame(*p),
    {
        measure(&mut self.layout, p);
        self.layout.chat_list_pane = p.chat_list;
        self.layout.peers_pane = p.peers;
        let max: u16 = self.chat.max_scroll(self.layout.chat_height);
        if self.chat.scroll_offset > max {
            self.chat.scroll_offset = max;
        }
        if self.edit.message_index.is_some() {
            self.adjust_edit_scroll();
        } else {
            self.adjust_input_scroll();
        }
        let recover = self.needs_terminal_recover;
        self.needs_terminal_recover = false;
        recover
    }

    /// Takes the height of the chat before there was a frame.
    pub fn measure_chat(&mut self, p: &Panes)
        ensures
            final(self)@ == (AppView {
                layout: LayoutCache {
                    chat_height: measured(old(self)@.layout, *p).chat_height,
                    ..old(self)@.layout
                },
                ..old(self)@
            }),
    {
        self.layout.chat_height = chat_rows(p);
    }

    /// Takes in that the terminal got another size.
    pub fn handle_resize(&mut self, p: &Panes) -> (r: Vec<Effect>)
        ensures
            final(self)@ == old(self)@.resized(*p).app,
            effect_views(r@) == old(self)@.resized(*p).effects,
    {
        measure(&mut self.layout, p);
        let mut out = no_effects();
        add_when(
            &mut out,
            self.nvim.bridge,
            Effect::EditorResize(p.chat.width.saturating_sub(2), p.chat.height.saturating_sub(2)),
        );
        add_effect(&mut out, Effect::Rerender);
        add_when(&mut out, self.ui.pager_open, Effect::RefreshPager);
        out
    }

    /// Whether the animations move: an agent works, in front or in the
    /// background.
    pub fn is_animated(&self) -> (r: bool)
        ensures
            r == (self@.agent.busy || exists|i: int|
                0 <= i < self@.sessions.entries.len() && (#[trigger] self@.sessions.entries[i]).id
                    != self@.sessions.active_id && self@.sessions.entries[i].busy),
            r == (self@.agent.busy || self@.sessions.works_behind()),
    {
        self.agent.busy || self.sessions.any_background_busy()
    }
}

// ── What a frame shows ───────────────────────────────────────────────────────

/// What fills the screen.
#[derive(Clone, Copy, Debug, PartialEq, Eq, Structural)]
pub enum Screen {
    Inspector,
    Pager,
    Panes,
}

/// What the box of the input holds.
#[derive(Clone, Copy, Debug, PartialEq, Eq, Structural)]
pub enum InputEditMode {
    Normal,
    Queue,
    Segment,
}

/// What a frame shows, as far as the state decides it.
#[derive(Debug)]
pub struct FramePlan {
    pub screen: Screen,
    /// The label of the model.
    pub model_label: String,
    /// The member of the team whose session is shown.
    pub viewing_teammate: Option<String>,
    /// How many others of the team are at work.
    pub team_active_count: u8,
    /// The greeting in place of an empty conversation.
    pub show_welcome: bool,
    /// The lines of the segment that is edited in place.
    pub editing_range: Option<(usize, usize)>,
    /// The chat does not follow new content.
    pub auto_scroll_paused: bool,
    /// The lines of the highlighted segment.
    pub highlight_range: Option<(usize, usize)>,
    pub edit_mode: InputEditMode,
    pub input_focused: bool,
    /// The cursor stands in the box of the input.
    pub input_cursor_active: bool,
    pub show_chat_list: bool,
    pub show_peers: bool,
    pub show_queue: bool,
}

pub struct PlanView {
    pub screen: Screen,
    pub model_label: Seq<char>,
    pub viewing_teammate: Option<Seq<char>>,
    pub team_active_count: u8,
    pub show_welcome: bool,
    pub editing_range: Option<(usize, usize)>,
    pub auto_scroll_paused: bool,
    pub highlight_range: Option<(usize, usize)>,
    pub edit_mode: InputEditMode,
    pub input_focused: bool,
    pub input_cursor_active: bool,
    pub show_chat_list: bool,
    pub show_peers: bool,
    pub show_queue: bool,
}

impl View for FramePlan {
    type V = PlanView;

    open spec fn view(&self) -> PlanView {
        PlanView {
            screen: self.screen,
            model_label: self.model_label@,
            viewing_teammate: opt_string_view(self.viewing_teammate),
            team_active_count: self.team_active_count,
            show_welcome: self.show_welcome,
            editing_range: self.editing_range,
            auto_scroll_paused: self.auto_scroll_paused,
            highlight_range: self.highlight_range,
            edit_mode: self.edit_mode,
            input_focused: self.input_focused,
            input_cursor_active: self.input_cursor_active,
            show_chat_list: self.show_chat_list,
            show_peers: self.show_peers,
            show_queue: self.show_queue,
        }
    }
}

/// The number of others of the team that are at work.
pub open spec fn at_work(team: Seq<TeamEntryView>) -> int
    decreases team.len(),
{
    if team.len() == 0 {
        0
    } else {
        at_work(team.drop_last()) + if !team.last().is_local && team.last().status
            == AgentPickerStatus::Active {
            1int
        } else {
            0int
        }
    }
}

/// The lines of a segment, if it was drawn.
pub open spec fn lines_of_segment(ranges: Seq<(usize, usize)>, i: Option<usize>) -> Option<
    (usize, usize),
> {
    match i {
        Some(k) => if k < ranges.len() {
            Some(ranges[k as int])
        } else {
            None
        },
        None => None,
    }
}

impl AppView {
    /// What fills the screen: the inspector before the pager before the panes.
    pub open spec fn screen(self) -> Screen {
        if self.ui.inspector_open {
            Screen::Inspector
        } else if self.ui.pager_open {
            Screen::Pager
        } else {
            Screen::Panes
        }
    }

    /// What the box of the input holds.
    pub open spec fn edit_mode(self) -> InputEditMode {
        if self.edit.queue_index is Some {
            InputEditMode::Queue
        } else if self.edit.message_index is Some {
            InputEditMode::Segment
        } else {
            InputEditMode::Normal
        }
    }

    /// The member of the team whose session is shown.
    pub open spec fn teammate(self) -> Option<Seq<char>> {
        match self.ui.active_session_peer {
            Some(p) => match member_with(self.ui.team, p, 0) {
                Some(i) => Some(self.ui.team[i].name),
                None => None,
            },
            None => None,
        }
    }

    /// What a frame shows.
    pub open spec fn plan(self, panes: Panes) -> PlanView {
        let in_box = self.ui.focus == FocusPane::Input || self.edit.is_active();
        PlanView {
            screen: self.screen(),
            model_label: if self.is_node_proxy {
                "node"@
            } else {
                self.session.model_display
            },
            viewing_teammate: self.teammate(),
            team_active_count: (at_work(self.ui.team) % 0x100) as u8,
            show_welcome: self.chat.segments.len() == 0 && self.chat.streaming_buffer.len() == 0
                && !self.agent.busy && self.nvim.disabled,
            editing_range: lines_of_segment(
                self.chat.segment_line_ranges,
                self.edit.message_index,
            ),
            auto_scroll_paused: !self.chat.auto_scroll && self.chat.lines.len() > 0,
            highlight_range: if self.ui.focus == FocusPane::Chat && self.nvim.disabled {
                lines_of_segment(self.chat.segment_line_ranges, self.chat.focused_segment)
            } else {
                None
            },
            edit_mode: self.edit_mode(),
            input_focused: in_box,
            input_cursor_active: in_box && !self.ui.question_open && self.ui.confirm_modal is None,
            show_chat_list: self.prefs.chat_list_visible && panes.chat_list.width > 0,
            show_peers: panes.peers.height > 0 && panes.peers.width > 0,
            show_queue: self.queue.messages.len() > 0,
        }
    }
}

fn count_at_work(team: &Vec<TeamPickerEntry>) -> (r: u8)
    ensures
        r == at_work(team_views(team@)) % 0x100,
{
    let ghost all = team_views(team@);
    let mut n: u8 = 0;
    let mut i: usize = 0;
    assert(all.take(0) =~= seq![]);
    while i < team.len()
        invariant
            all == team_views(team@),
            i <= team@.len(),
            n == at_work(all.take(i as int)) % 0x100,
        decreases team.len() - i,
    {
        proof {
            assert(all.take(i + 1).drop_last() =~= all.take(i as int));
            assert(all.take(i + 1).last() == team@[i as int]@);
        }
        if !team[i].is_local && team[i].status == AgentPickerStatus::Active {
            n = if n < 255 {
                n + 1
            } else {
                0
            };
        }
        i += 1;
    }
    assert(all.take(all.len() as int) =~= all);
    n
}

fn range_of(ranges: &Vec<(usize, usize)>, i: Option<usize>) -> (r: Option<(usize, usize)>)
    ensures
        r == lines_of_segment(ranges@, i),
{
    match i {
        Some(k) => {
            if k < ranges.len() {
                Some(ranges[k])
            } else {
                None
            }
        },
        None => None,
    }
}

fn find_member(team: &Vec<TeamPickerEntry>, peer: &str) -> (r: Option<usize>)
    ensures
        member_with(team_views(team@), peer@, 0) == (match r {
            Some(i) => Some(i as int),
            None => None,
        }),
        r matches Some(i) ==> i < team@.len(),
{
    let ghost all = team_views(team@);
    let mut i: usize = 0;
    while i < team.len()
        invariant
            all == team_views(team@),
            i <= team@.len(),
            member_with(all, peer@, 0) == member_with(all, peer@, i as int),
        decreases team.len() - i,
    {
        assert(all[i as int] == team@[i as int]@);
        if str_eq(team[i].peer_id.as_str(), peer) {
            return Some(i);
        }
        i += 1;
    }
    None
}

impl App {
    fn find_teammate(&self) -> (r: Option<String>)
        ensures
            opt_string_view(r) == self@.teammate(),
    {
        match &self.ui.active_session_peer {
            Some(p) => match find_member(&self.ui.team_picker_entries, p.as_str()) {
                Some(i) => {
                    assert(self@.ui.team[i as int] == self.ui.team_picker_entries@[i as int]@);
                    Some(self.ui.team_picker_entries[i].name.clone())
                },
                None => None,
            },
            None => None,
        }
    }

    /// What the frame shows, as far as the state decides it.
    pub fn plan_frame(&self, panes: &Panes) -> (r: FramePlan)
        ensures
            r@ == self@.plan(*panes),
    {
        assert(self@.chat.segments.len() == self.chat.segments@.len());
        assert(self@.chat.lines.len() == self.chat.lines@.len());
        assert(self@.queue.messages.len() == self.queue.messages@.len());
        let screen = if self.ui.inspector_open {
            Screen::Inspector
        } else if self.ui.pager_open {
            Screen::Pager
        } else {
            Screen::Panes
        };
        let edit_mode = if self.edit.queue_index.is_some() {
            InputEditMode::Queue
        } else if self.edit.message_index.is_some() {
            InputEditMode::Segment
        } else {
            InputEditMode::Normal
        };
        let in_box = self.ui.focus == FocusPane::Input || self.edit.active();
        FramePlan {
            screen,
            model_label: if self.is_node_proxy {
                "node".to_owned()
            } else {
                self.session.model_display.clone()
            },
            viewing_teammate: self.find_teammate(),
            team_active_count: count_at_work(&self.ui.team_picker_entries),
            show_welcome: self.chat.segments.len() == 0
                && self.chat.streaming_buffer.as_str().is_empty() && !self.agent.busy
                && self.nvim.disabled,
            editing_range: range_of(&self.chat.segment_line_ranges, self.edit.message_index),
            auto_scroll_paused: !self.chat.auto_scroll && self.chat.lines.len() > 0,
            highlight_range: if self.ui.focus == FocusPane::Chat && self.nvim.disabled {
                range_of(&self.chat.segment_line_ranges, self.chat.focused_segment)
            } else {
                None
            },
            edit_mode,
            input_focused: in_box,
            input_cursor_active: in_box && !self.ui.question_open
                && self.ui.confirm_modal.is_none(),
            show_chat_list: self.prefs.chat_list_visible && panes.chat_list.width > 0,
            show_peers: panes.peers.height > 0 && panes.peers.width > 0,
            show_queue: self.queue.messages.len() > 0,
        }
    }
}

// ── Laws ─────────────────────────────────────────────────────────────────────

/// The input never takes more than half of the screen, or three rows on a small
/// one, and never less than the user has chosen where there is room for it.
pub proof fn law_input_height_is_bounded(v: AppView, text: Seq<char>, width: u16, height: u16)
    ensures
        v.height_for(text, width, height) <= greater(height as int / 2, 3),
        v.input_height(width, height) <= greater(height as int / 2, 3),
        v.prefs.input_height <= height / 2 ==> v.height_for(text, width, height)
            >= v.prefs.input_height && v.input_height(width, height) >= v.prefs.input_height,
{
}

/// Before a frame the chat is never scrolled past its end, and the cursor of the
/// box can be seen.
pub proof fn law_frame_shows_the_cursor(v: AppView, p: Panes)
    requires
        p.input.width >= 4,
        p.input.height >= 3,
        v.edit.message_index is None,
    ensures
        ({
            let w = v.before_frame(p);
            let text = w.input.buffer;
            let width = w.input_width();
            let height = w.layout.input_inner_height as nat;
            let cols = if wrapped_lines(text, width, w.input.cursor).len() > height {
                (width - 1) as nat
            } else {
                width
            };
            let row = crate::input_wrap::cursor_at(text, cols, w.input.cursor).0;
            &&& w.input.scroll_offset <= row < w.input.scroll_offset + height
            &&& w.chat.scroll_offset <= w.chat.max_scroll(w.layout.chat_height)
        }),
{
    let f = v.framed(p);
    crate::app::steps_input::law_cursor_is_visible(
        f.input.buffer,
        f.input.cursor,
        f.input.scroll_offset,
        f.input_width(),
        f.layout.input_inner_height as nat,
    );
}

} // verus!
