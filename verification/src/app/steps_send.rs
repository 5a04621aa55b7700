//! Sending: what happens with a text that the user has entered, in the input or
//! in the editor.

use vstd::prelude::*;

use crate::app::chat_state::ChatView;
use crate::app::front::{
    add_effect, add_when, effect_views, given, no_effects, nothing, one, user_segment, App, AppView,
    Effect, EffectView, StepView,
};
use crate::app::queue_state::{plain_message, ModelDirective, QueuedMessage, QueuedView};
use crate::chat::parse::{messages_from, parse_markdown_to_messages};
use crate::chat::segment::{message_views, ContentView, Message, MessageContent, MessageView, Role};
use crate::chat::segment_ops::{
    as_message_segments, messages_for_resubmit, messages_of, segments_of_messages,
};
use crate::commands::parser::{tokenise, tokens};
use crate::commands::registry::{Command, CommandRegistry};
use crate::commands::{
    CommandResult, CommandResultView, ImmediateAction, ImmediateActionView, SlashCommand,
};
use crate::text::{
    chars_of, has_prefix, lines, put_text, starts_with, string_of, text_map, trim, trim_str, views,
};
use crate::StringHashMap;

verus! {

// ── Commands ─────────────────────────────────────────────────────────────────

/// The command that was entered, with its arguments. Pressing enter completes
/// what was typed last.
pub open spec fn entered_command(text: Seq<char>) -> Option<(Seq<char>, Seq<Seq<char>>)> {
    if text.len() == 0 || text[0] != '/' {
        None
    } else {
        let all = tokens(text.skip(1));
        if all.len() == 0 {
            Some((seq![], seq![]))
        } else {
            Some((all[0], all.skip(1)))
        }
    }
}

/// The state after a text was entered, the things to do, and whether to end.
pub struct EnteredView {
    pub app: AppView,
    pub effects: Seq<EffectView>,
    pub quit: bool,
}

impl AppView {
    /// A text sent: behind the others while the agent works, otherwise at once.
    /// The changes of model and mode that waited go with it.
    #[verifier::opaque]
    pub open spec fn sent(self, text: Seq<char>) -> StepView {
        let m = QueuedView {
            content: text,
            model_transition: self.session.staged_model,
            mode_transition: self.session.staged_mode,
        };
        let next = AppView {
            chat: ChatView { auto_scroll: true, ..self.chat },
            session: self.session.consumed(),
            ..self
        };
        if self.agent.busy {
            StepView { app: AppView { queue: self.queue.with(m), ..next }, effects: nothing() }
        } else {
            StepView {
                app: next,
                effects: nothing() + given(self.nvim.bridge, EffectView::SyncBuffer) + one(
                    EffectView::Deliver(m),
                ),
            }
        }
    }

    /// A message shown and sent with the whole conversation.
    pub open spec fn delivered(self, m: QueuedView) -> StepView {
        StepView {
            app: self.with_segment(user_segment(m.content)),
            effects: nothing() + one(EffectView::Rerender) + one(EffectView::ScrollToBottom) + one(
                EffectView::Resubmit(messages_of(self.chat.segments), m),
            ),
        }
    }

    /// What a command asks for done. Its message is sent once the rest is done.
    #[verifier::opaque]
    pub open spec fn commanded(self, r: CommandResultView) -> EnteredView {
        if r.immediate_action == Some(ImmediateActionView::Quit) {
            EnteredView { app: self, effects: nothing(), quit: true }
        } else {
            EnteredView {
                app: match r.mode_override {
                    Some(mode) => AppView {
                        session: self.session.with_mode(mode, self.agent.busy),
                        ..self
                    },
                    None => self,
                },
                effects: nothing() + (match r.immediate_action {
                    Some(a) => one(EffectView::Immediate(a)),
                    None => nothing(),
                }) + (match r.model_override {
                    Some(m) => one(EffectView::StageModel(m)),
                    None => nothing(),
                }) + (match r.message_to_send {
                    Some(m) => one(EffectView::SendText(m)),
                    None => nothing(),
                }),
                quit: false,
            }
        }
    }

    /// A text entered: a command is carried out, an unknown one is passed over,
    /// and anything else is sent.
    pub open spec fn entered(self, text: Seq<char>, commands: Map<Seq<char>, Command>) -> EnteredView {
        match entered_command(text) {
            Some((name, args)) => if commands.contains_key(name) {
                self.commanded(commands[name].outcome(args))
            } else {
                EnteredView { app: self, effects: nothing(), quit: false }
            },
            None => EnteredView {
                app: self.sent(text).app,
                effects: self.sent(text).effects,
                quit: false,
            },
        }
    }
}

fn read_command(text: &str) -> (r: Option<(String, Vec<String>)>)
    ensures
        entered_command(text@) == (match r {
            Some(c) => Some((c.0@, views(c.1@))),
            None => None,
        }),
{
    let chars = chars_of(text);
    let n: usize = chars.len();
    if n == 0 || chars[0] != '/' {
        return None;
    }
    let body = string_of(&chars, 1, n);
    assert(body@ =~= text@.skip(1));
    let mut all = tokenise(body.as_str());
    let ghost toks = views(all@);
    assert(toks.len() == all@.len());
    if all.len() == 0 {
        let name = String::new();
        assert(name@ =~= seq![]);
        assert(views(all@) =~= seq![]);
        return Some((name, all));
    }
    assert(toks[0] == all@[0]@);
    let name = all.remove(0);
    assert(views(all@) =~= toks.skip(1));
    Some((name, all))
}

impl App {
    fn staged_message(&mut self, text: String) -> (r: QueuedMessage)
        ensures
            r@ == (QueuedView {
                content: text@,
                model_transition: old(self)@.session.staged_model,
                mode_transition: old(self)@.session.staged_mode,
            }),
            final(self)@ == (AppView { session: old(self)@.session.consumed(), ..old(self)@ }),
    {
        let (model, mode) = self.session.consume_staged();
        QueuedMessage {
            content: text,
            model_transition: match model {
                Some(m) => Some(ModelDirective::SwitchTo(Box::new(m))),
                None => None,
            },
            mode_transition: mode,
        }
    }

    /// Sends a text: behind the others while the agent works, otherwise at once.
    pub fn send_text(&mut self, text: String) -> (r: Vec<Effect>)
        ensures
            final(self)@ == old(self)@.sent(text@).app,
            effect_views(r@) == old(self)@.sent(text@).effects,
    {
        reveal(AppView::sent);
        let mut out = no_effects();
        let m = self.staged_message(text);
        self.chat.auto_scroll = true;
        if self.agent.busy {
            self.queue.push(m);
        } else {
            add_when(&mut out, self.nvim.bridge, Effect::SyncBuffer);
            add_effect(&mut out, Effect::Deliver(m));
        }
        out
    }

    /// Shows a message of the user and sends it with the whole conversation.
    pub fn deliver(&mut self, m: QueuedMessage) -> (r: Vec<Effect>)
        ensures
            final(self)@ == old(self)@.delivered(m@).app,
            effect_views(r@) == old(self)@.delivered(m@).effects,
    {
        let mut out = no_effects();
        let history = messages_for_resubmit(&self.chat.segments);
        self.push_user_segment(m.content.as_str());
        add_effect(&mut out, Effect::Rerender);
        add_effect(&mut out, Effect::ScrollToBottom);
        add_effect(&mut out, Effect::Resubmit(history, m));
        out
    }

    /// Does what a command asks for, and says whether to end.
    pub fn carry_out(&mut self, result: CommandResult) -> (r: (Vec<Effect>, bool))
        ensures
            final(self)@ == old(self)@.commanded(result@).app,
            effect_views(r.0@) == old(self)@.commanded(result@).effects,
            r.1 == old(self)@.commanded(result@).quit,
    {
        reveal(AppView::commanded);
        let mut out = no_effects();
        let ghost want = result@;
        match result.immediate_action {
            Some(ImmediateAction::Quit) => {
                return (out, true);
            },
            Some(a) => {
                add_effect(&mut out, Effect::Immediate(a));
            },
            None => {},
        }
        let ghost first = effect_views(out@);
        assert(first =~= nothing() + (match want.immediate_action {
            Some(a) => one(EffectView::Immediate(a)),
            None => nothing(),
        }));
        if let Some(m) = result.model_override {
            add_effect(&mut out, Effect::StageModel(m));
        }
        let ghost second = effect_views(out@);
        assert(second =~= first + (match want.model_override {
            Some(m) => one(EffectView::StageModel(m)),
            None => nothing(),
        }));
        if let Some(mode) = result.mode_override {
            self.session.stage_mode(mode, self.agent.busy);
        }
        if let Some(m) = result.message_to_send {
            add_effect(&mut out, Effect::SendText(m));
        }
        assert(effect_views(out@) =~= second + (match want.message_to_send {
            Some(m) => one(EffectView::SendText(m)),
            None => nothing(),
        }));
        (out, false)
    }

    /// Takes in a text that the user has entered, and says whether to end.
    pub fn submit_user_input(&mut self, text: &str, registry: &CommandRegistry) -> (r: (
        Vec<Effect>,
        bool,
    ))
        ensures
            final(self)@ == old(self)@.entered(text@, registry@).app,
            effect_views(r.0@) == old(self)@.entered(text@, registry@).effects,
            r.1 == old(self)@.entered(text@, registry@).quit,
    {
        match read_command(text) {
            Some((name, args)) => match registry.get(name.as_str()) {
                Some(cmd) => {
                    let result = cmd.execute(args);
                    self.carry_out(result)
                },
                None => (no_effects(), false),
            },
            None => (self.send_text(text.to_owned()), false),
        }
    }
}

// ── The text of the editor ───────────────────────────────────────────────────

/// The names of the tools that messages call, by the call.
pub open spec fn called_tools(ms: Seq<MessageView>) -> Map<Seq<char>, Seq<char>>
    decreases ms.len(),
{
    if ms.len() == 0 {
        Map::empty()
    } else {
        let init = called_tools(ms.drop_last());
        match ms.last().content {
            ContentView::ToolCall { tool_call_id, function } => init.insert(
                tool_call_id,
                function.name,
            ),
            _ => init,
        }
    }
}

/// The last message of the user among the first `n`.
pub open spec fn last_of_user(ms: Seq<MessageView>, n: int) -> Option<int>
    decreases n,
{
    if n <= 0 || n > ms.len() {
        None
    } else if ms[n - 1].role == Role::User {
        Some(n - 1)
    } else {
        last_of_user(ms, n - 1)
    }
}

/// The text of a message, empty where it has none.
pub open spec fn text_of(m: MessageView) -> Seq<char> {
    match m.content {
        ContentView::Text(t) => t,
        _ => seq![],
    }
}

/// The messages of a text, none where it cannot be read.
pub open spec fn read_messages(content: Seq<char>) -> Seq<MessageView> {
    match messages_from(lines(content), 0) {
        Ok(ms) => ms,
        Err(_) => seq![],
    }
}

impl AppView {
    /// With other messages in place of the conversation.
    pub open spec fn with_messages(self, ms: Seq<MessageView>) -> AppView {
        AppView {
            chat: ChatView {
                segments: as_message_segments(ms),
                tool_args: called_tools(ms),
                ..self.chat
            },
            ..self
        }
    }

    /// The conversation as it stands in the editor; it stays where that cannot
    /// be read or is empty.
    pub open spec fn buffer_synced(self, content: Seq<char>) -> AppView {
        let ms = read_messages(content);
        if ms.len() > 0 {
            self.with_messages(ms)
        } else {
            self
        }
    }

    /// The conversation in the editor sent. Its last message of the user is the
    /// new one; a command in it is carried out instead.
    #[verifier::opaque]
    pub open spec fn buffer_submitted(self, content: Seq<char>) -> StepView {
        let ms = read_messages(content);
        let none = StepView { app: self, effects: nothing() };
        if self.agent.busy {
            none
        } else {
            match last_of_user(ms, ms.len() as int) {
                Some(i) => {
                    let text = text_of(ms[i]);
                    if text.len() == 0 {
                        none
                    } else if has_prefix(trim(text), "/"@) {
                        StepView {
                            app: self,
                            effects: nothing() + one(EffectView::SubmitText(trim(text))),
                        }
                    } else {
                        StepView {
                            app: self.with_messages(ms),
                            effects: nothing() + one(EffectView::Rerender) + one(
                                EffectView::ScrollToBottom,
                            ) + one(EffectView::Resubmit(ms.take(i), plain_message(text))),
                        }
                    }
                },
                None => none,
            }
        }
    }
}

fn tools_of(messages: &Vec<Message>) -> (r: StringHashMap<String>)
    ensures
        text_map(r@) == called_tools(message_views(messages@)),
{
    let ghost all = message_views(messages@);
    let mut out: StringHashMap<String> = StringHashMap::new();
    let mut i: usize = 0;
    assert(all.take(0) =~= seq![]);
    assert(text_map(out@) =~= Map::empty());
    while i < messages.len()
        invariant
            all == message_views(messages@),
            i <= messages@.len(),
            text_map(out@) == called_tools(all.take(i as int)),
        decreases messages.len() - i,
    {
        let m = &messages[i];
        match &m.content {
            MessageContent::ToolCall { tool_call_id, function } => {
                put_text(&mut out, tool_call_id.as_str(), function.name.as_str());
            },
            _ => {},
        }
        i += 1;
        proof {
            assert(all.take(i as int).drop_last() =~= all.take(i - 1));
            assert(all.take(i as int).last() == m@);
        }
    }
    assert(all.take(all.len() as int) =~= all);
    out
}

fn find_last_of_user(messages: &Vec<Message>) -> (r: Option<usize>)
    ensures
        last_of_user(message_views(messages@), messages@.len() as int) == (match r {
            Some(i) => Some(i as int),
            None => None,
        }),
        r matches Some(i) ==> i < messages@.len(),
{
    let ghost all = message_views(messages@);
    let mut n: usize = messages.len();
    while n > 0
        invariant
            all == message_views(messages@),
            n <= messages@.len(),
            last_of_user(all, messages@.len() as int) == last_of_user(all, n as int),
        decreases n,
    {
        assert(all[n - 1] == messages@[n - 1]@);
        if messages[n - 1].role == Role::User {
            return Some(n - 1);
        }
        n -= 1;
    }
    None
}

fn read_buffer(content: &str) -> (r: Vec<Message>)
    ensures
        message_views(r@) == read_messages(content@),
{
    match parse_markdown_to_messages(content) {
        Ok(ms) => ms,
        Err(_) => {
            let none: Vec<Message> = Vec::new();
            assert(message_views(none@) =~= seq![]);
            none
        },
    }
}

fn messages_before(messages: &Vec<Message>, n: usize) -> (r: Vec<Message>)
    requires
        n <= messages@.len(),
    ensures
        message_views(r@) == message_views(messages@).take(n as int),
{
    let mut out: Vec<Message> = Vec::new();
    let mut i: usize = 0;
    while i < n
        invariant
            i <= n <= messages@.len(),
            out@.len() == i,
            forall|k: int| 0 <= k < i ==> (#[trigger] out@[k])@ == messages@[k]@,
        decreases n - i,
    {
        out.push(messages[i].clone());
        i += 1;
    }
    assert(message_views(out@) =~= message_views(messages@).take(n as int));
    out
}

impl App {
    fn set_messages(&mut self, messages: &Vec<Message>)
        ensures
            final(self)@ == old(self)@.with_messages(message_views(messages@)),
    {
        self.chat.segments = segments_of_messages(messages);
        self.chat.tool_args = tools_of(messages);
    }

    /// Takes over what was changed in the editor.
    pub fn sync_buffer(&mut self, content: &str)
        ensures
            final(self)@ == old(self)@.buffer_synced(content@),
    {
        let messages = read_buffer(content);
        assert(message_views(messages@).len() == messages@.len());
        if messages.len() > 0 {
            self.set_messages(&messages);
        }
    }

    /// Sends the conversation in the editor.
    pub fn submit_buffer(&mut self, content: &str) -> (r: Vec<Effect>)
        ensures
            final(self)@ == old(self)@.buffer_submitted(content@).app,
            effect_views(r@) == old(self)@.buffer_submitted(content@).effects,
    {
        reveal(AppView::buffer_submitted);
        let mut out = no_effects();
        if self.agent.busy {
            return out;
        }
        let messages = read_buffer(content);
        let ghost ms = message_views(messages@);
        let i: usize = match find_last_of_user(&messages) {
            Some(i) => i,
            None => {
                return out;
            },
        };
        assert(ms[i as int] == messages@[i as int]@);
        let text = match messages[i].as_text() {
            Some(t) => t.to_owned(),
            None => String::new(),
        };
        assert(text@ =~= text_of(ms[i as int]));
        if text.as_str().is_empty() {
            return out;
        }
        let command = trim_str(text.as_str());
        if starts_with(command, "/") {
            add_effect(&mut out, Effect::SubmitText(command.to_owned()));
            return out;
        }
        self.set_messages(&messages);
        let history = messages_before(&messages, i);
        add_effect(&mut out, Effect::Rerender);
        add_effect(&mut out, Effect::ScrollToBottom);
        add_effect(&mut out, Effect::Resubmit(history, QueuedMessage::plain(text)));
        out
    }
}

// ── Laws ─────────────────────────────────────────────────────────────────────

/// A text that is no command is never lost: it waits in the queue, or it is
/// delivered.
pub proof fn law_text_is_sent(v: AppView, text: Seq<char>, commands: Map<Seq<char>, Command>)
    requires
        entered_command(text) is None,
    ensures
        ({
            let r = v.entered(text, commands);
            &&& !r.quit
            &&& v.agent.busy ==> r.app.queue.messages.last().content == text
            &&& !v.agent.busy ==> r.effects.last() is Deliver && r.effects.last()->Deliver_0.content
                == text
        }),
{
    reveal(AppView::sent);
}

/// A command is never sent as it was typed: nothing waits in the queue and
/// nothing is delivered because of it.
pub proof fn law_commands_are_not_sent(v: AppView, text: Seq<char>, commands: Map<Seq<char>, Command>)
    requires
        entered_command(text) is Some,
    ensures
        v.entered(text, commands).app.queue == v.queue,
        v.entered(text, commands).app.chat == v.chat,
        forall|m| !v.entered(text, commands).effects.contains(EffectView::Deliver(m)),
{
    reveal(AppView::commanded);
    let e = v.entered(text, commands).effects;
    assert forall|m| !e.contains(EffectView::Deliver(m)) by {
        if e.contains(EffectView::Deliver(m)) {
            let i = choose|i: int| 0 <= i < e.len() && e[i] == EffectView::Deliver(m);
            assert(e[i] is Immediate || e[i] is StageModel || e[i] is SendText);
        }
    }
}

/// A staged model or mode goes with one message only.
pub proof fn law_staged_changes_go_once(v: AppView, first: Seq<char>, second: Seq<char>)
    requires
        v.agent.busy,
    ensures
        ({
            let after = v.sent(first).app;
            let end = after.sent(second).app;
            &&& after.queue.messages.last().model_transition == v.session.staged_model
            &&& after.queue.messages.last().mode_transition == v.session.staged_mode
            &&& end.queue.messages.last().model_transition is None
            &&& end.queue.messages.last().mode_transition is None
        }),
{
    reveal(AppView::sent);
}

/// The message that is sent from the editor is not part of the history that
/// goes with it: together they are the conversation up to that message.
pub proof fn law_buffer_message_is_sent_once(v: AppView, content: Seq<char>)
    requires
        !v.agent.busy,
        v.buffer_submitted(content).effects.len() == 3,
    ensures
        ({
            let ms = read_messages(content);
            let e = v.buffer_submitted(content).effects[2];
            &&& e is Resubmit
            &&& e->Resubmit_0.len() < ms.len()
            &&& e->Resubmit_0 == ms.take(e->Resubmit_0.len() as int)
            &&& ms[e->Resubmit_0.len() as int] == (MessageView {
                role: Role::User,
                content: ContentView::Text(e->Resubmit_1.content),
            })
            &&& messages_of(v.buffer_submitted(content).app.chat.segments) == ms
        }),
{
    reveal(AppView::buffer_submitted);
    let ms = read_messages(content);
    lemma_last_of_user(ms, ms.len() as int);
    crate::chat::segment_ops::law_messages_survive_as_segments(ms);
}

proof fn lemma_last_of_user(ms: Seq<MessageView>, n: int)
    requires
        n <= ms.len(),
    ensures
        last_of_user(ms, n) matches Some(i) ==> 0 <= i < n && ms[i].role == Role::User,
    decreases n,
{
    if n > 0 {
        lemma_last_of_user(ms, n - 1);
    }
}

} // verus!
