//! What sending promises: nothing that was entered is lost, and the agent gets
//! the whole conversation.

use vstd::prelude::*;

use crate::app::event_laws::law_every_message_is_sent_again;
use crate::app::front::{AppView, EffectView};
use crate::app::queue_state::{ModelView, QueueView, QueuedView};
use crate::app::session_state::SessionStateView;
use crate::app::steps_send::{called_tools, entered_command, last_of_user, read_messages};
use crate::chat::parse::messages_from;
use crate::chat::segment::{ContentView, MessageView, Role, SegmentView};
use crate::commands::registry::Command;
use crate::commands::{AgentMode, CommandResultView, ImmediateActionView, SlashCommand};
use crate::text::{lines, trim};

verus! {

// ── Messages ─────────────────────────────────────────────────────────────────

/// A message that is delivered is shown behind the conversation, and the agent
/// gets it together with every message of the conversation before it, in order.
pub proof fn law_delivery_sends_the_conversation(v: AppView, m: QueuedView)
    ensures
        ({
            let r = v.delivered(m);
            &&& r.app.chat.segments == v.chat.segments.push(
                SegmentView::Message(
                    MessageView { role: Role::User, content: ContentView::Text(m.content) },
                ),
            )
            &&& r.app.queue == v.queue
            &&& r.app.input == v.input
            &&& r.effects == seq![
                EffectView::Rerender,
                EffectView::ScrollToBottom,
                EffectView::Resubmit(
                    v.chat.segments.filter(|s: SegmentView| s is Message).map_values(
                        |s: SegmentView| s->Message_0,
                    ),
                    m,
                ),
            ]
        }),
{
    law_every_message_is_sent_again(v.chat.segments);
    assert(v.delivered(m).effects =~= seq![
        EffectView::Rerender,
        EffectView::ScrollToBottom,
        EffectView::Resubmit(
            v.chat.segments.filter(|s: SegmentView| s is Message).map_values(
                |s: SegmentView| s->Message_0,
            ),
            m,
        ),
    ]);
}

/// In a conversation of messages alone, the agent gets a message for each of
/// them at its place.
pub proof fn law_delivery_keeps_places(v: AppView, m: QueuedView, i: int)
    requires
        forall|k: int| 0 <= k < v.chat.segments.len() ==> #[trigger] v.chat.segments[k] is Message,
        0 <= i < v.chat.segments.len(),
    ensures
        ({
            let e = v.delivered(m).effects.last();
            &&& e is Resubmit
            &&& e->Resubmit_0.len() == v.chat.segments.len()
            &&& SegmentView::Message(e->Resubmit_0[i]) == v.chat.segments[i]
            &&& e->Resubmit_1 == m
        }),
{
    lemma_all_messages(v.chat.segments);
}

proof fn lemma_all_messages(segs: Seq<SegmentView>)
    requires
        forall|k: int| 0 <= k < segs.len() ==> #[trigger] segs[k] is Message,
    ensures
        crate::chat::segment_ops::messages_of(segs).len() == segs.len(),
        forall|k: int|
            0 <= k < segs.len() ==> SegmentView::Message(
                #[trigger] crate::chat::segment_ops::messages_of(segs)[k],
            ) == segs[k],
    decreases segs.len(),
{
    if segs.len() > 0 {
        let init = segs.drop_last();
        assert forall|k: int| 0 <= k < init.len() implies #[trigger] init[k] is Message by {
            assert(init[k] == segs[k]);
        }
        lemma_all_messages(init);
        assert(segs.last() == segs[segs.len() - 1]);
        let all = crate::chat::segment_ops::messages_of(segs);
        assert forall|k: int| 0 <= k < segs.len() implies SegmentView::Message(#[trigger] all[k])
            == segs[k] by {
            if k < init.len() {
                assert(init[k] == segs[k]);
                assert(all[k] == crate::chat::segment_ops::messages_of(init)[k]);
            }
        }
    }
}

/// While the agent works a text waits behind all others, and nothing is done.
/// Otherwise it goes out at once, after what was changed in the editor was taken
/// over. Either way it takes the changes that waited with it, and they wait no
/// longer.
#[verifier::rlimit(40)]
pub proof fn law_text_waits_or_goes(v: AppView, text: Seq<char>)
    ensures
        ({
            let r = v.sent(text);
            let m = QueuedView {
                content: text,
                model_transition: v.session.staged_model,
                mode_transition: v.session.staged_mode,
            };
            &&& v.agent.busy ==> r.app.queue.messages == v.queue.messages.push(m)
                && r.effects.len() == 0
            &&& !v.agent.busy ==> r.app.queue == v.queue
            &&& !v.agent.busy && !v.nvim.bridge ==> r.effects == seq![EffectView::Deliver(m)]
            &&& !v.agent.busy && v.nvim.bridge ==> r.effects == seq![
                EffectView::SyncBuffer,
                EffectView::Deliver(m),
            ]
            &&& r.app.session.staged_model is None
            &&& r.app.session.staged_mode is None
            &&& r.app.session.mode == v.session.mode
            &&& r.app.session.model_cfg == v.session.model_cfg
            &&& r.app.chat.segments == v.chat.segments
            &&& r.app.chat.auto_scroll
        }),
{
    reveal(AppView::sent);
    let m = QueuedView {
        content: text,
        model_transition: v.session.staged_model,
        mode_transition: v.session.staged_mode,
    };
    if !v.agent.busy {
        if v.nvim.bridge {
            assert(v.sent(text).effects =~= seq![EffectView::SyncBuffer, EffectView::Deliver(m)]);
        } else {
            assert(v.sent(text).effects =~= seq![EffectView::Deliver(m)]);
        }
    }
}

/// What a command asks for is done, each of it once: the action first, then the
/// model, and the message last. A mode waits for the next message, and holds at
/// once while the agent is idle.
#[verifier::rlimit(40)]
pub proof fn law_commands_are_carried_out(v: AppView, r: CommandResultView)
    requires
        r.immediate_action != Some(ImmediateActionView::Quit),
    ensures
        ({
            let e = v.commanded(r);
            let n = (if r.immediate_action is Some {
                1int
            } else {
                0
            }) + (if r.model_override is Some {
                1int
            } else {
                0
            }) + (if r.message_to_send is Some {
                1int
            } else {
                0
            });
            &&& !e.quit
            &&& e.effects.len() == n
            &&& r.immediate_action matches Some(a) ==> e.effects[0] == EffectView::Immediate(a)
            &&& r.message_to_send matches Some(m) ==> e.effects.last() == EffectView::SendText(m)
            &&& r.model_override matches Some(m) ==> e.effects[if r.immediate_action is Some {
                1
            } else {
                0
            }] == EffectView::StageModel(m)
            &&& r.mode_override matches Some(mode) ==> {
                &&& e.app.session.staged_mode == Some(mode)
                &&& v.agent.busy ==> e.app.session.mode == v.session.mode
                &&& !v.agent.busy ==> e.app.session.mode == mode
                &&& e.app.session.staged_model == v.session.staged_model
            }
            &&& r.mode_override is None ==> e.app == v
            &&& e.app.chat == v.chat
            &&& e.app.queue == v.queue
        }),
{
    reveal(AppView::commanded);
}

/// The command that ends the program ends it, and nothing else is done.
#[verifier::rlimit(40)]
pub proof fn law_quit_ends(v: AppView, r: CommandResultView)
    requires
        r.immediate_action == Some(ImmediateActionView::Quit),
    ensures
        v.commanded(r).quit,
        v.commanded(r).app == v,
        v.commanded(r).effects.len() == 0,
{
    reveal(AppView::commanded);
}

/// What was entered is a command exactly if it begins with a slash. A known
/// command is carried out with its arguments, an unknown one does nothing, and
/// everything else is sent as it is.
pub proof fn law_slash_makes_a_command(
    v: AppView,
    text: Seq<char>,
    commands: Map<Seq<char>, Command>,
)
    ensures
        entered_command(text) is Some <==> text.len() > 0 && text[0] == '/',
        entered_command(text) is None ==> {
            &&& v.entered(text, commands).app == v.sent(text).app
            &&& v.entered(text, commands).effects == v.sent(text).effects
            &&& !v.entered(text, commands).quit
        },
        entered_command(text) matches Some((name, args)) ==> {
            &&& commands.contains_key(name) ==> v.entered(text, commands) == v.commanded(
                commands[name].outcome(args),
            )
            &&& !commands.contains_key(name) ==> {
                &&& v.entered(text, commands).app == v
                &&& v.entered(text, commands).effects.len() == 0
                &&& !v.entered(text, commands).quit
            }
        },
{
}

// ── The text of the editor ───────────────────────────────────────────────────

/// The conversation in the editor takes the place of the other one, message for
/// message, where it can be read and is not empty. Otherwise nothing changes.
pub proof fn law_editor_text_is_taken_over(v: AppView, content: Seq<char>)
    ensures
        ({
            let r = v.buffer_synced(content);
            match messages_from(lines(content), 0) {
                Ok(ms) => if ms.len() > 0 {
                    &&& r.chat.segments.len() == ms.len()
                    &&& forall|i: int|
                        0 <= i < ms.len() ==> #[trigger] r.chat.segments[i] == SegmentView::Message(
                            ms[i],
                        )
                    &&& r.queue == v.queue
                    &&& r.input == v.input
                } else {
                    r == v
                },
                Err(_) => r == v,
            }
        }),
{
}

proof fn lemma_last_user_is(ms: Seq<MessageView>, n: int, i: int)
    requires
        0 <= i < n <= ms.len(),
        ms[i].role == Role::User,
        forall|j: int| i < j < n ==> (#[trigger] ms[j]).role != Role::User,
    ensures
        last_of_user(ms, n) == Some(i),
    decreases n,
{
    if n - 1 > i {
        assert(ms[n - 1].role != Role::User);
        lemma_last_user_is(ms, n - 1, i);
    }
}

proof fn lemma_no_user(ms: Seq<MessageView>, n: int)
    requires
        0 <= n <= ms.len(),
        forall|j: int| 0 <= j < n ==> (#[trigger] ms[j]).role != Role::User,
    ensures
        last_of_user(ms, n) is None,
    decreases n,
{
    if n > 0 {
        assert(ms[n - 1].role != Role::User);
        lemma_no_user(ms, n - 1);
    }
}

/// From the editor the last message of the user is sent, together with all that
/// stands before it. A command in it is carried out instead.
#[verifier::rlimit(40)]
pub proof fn law_editor_sends_the_last_question(
    v: AppView,
    content: Seq<char>,
    ms: Seq<MessageView>,
    i: int,
    text: Seq<char>,
)
    requires
        !v.agent.busy,
        messages_from(lines(content), 0) == Ok::<Seq<MessageView>, Seq<char>>(ms),
        0 <= i < ms.len(),
        ms[i] == (MessageView { role: Role::User, content: ContentView::Text(text) }),
        forall|j: int| i < j < ms.len() ==> (#[trigger] ms[j]).role != Role::User,
        text.len() > 0,
    ensures
        ({
            let r = v.buffer_submitted(content);
            let command = trim(text).len() > 0 && trim(text)[0] == '/';
            &&& !command ==> {
                &&& r.effects == seq![
                    EffectView::Rerender,
                    EffectView::ScrollToBottom,
                    EffectView::Resubmit(
                        ms.subrange(0, i),
                        QueuedView { content: text, model_transition: None, mode_transition: None },
                    ),
                ]
                &&& r.app.chat.segments.len() == ms.len()
                &&& forall|k: int|
                    0 <= k < ms.len() ==> #[trigger] r.app.chat.segments[k]
                        == SegmentView::Message(ms[k])
            }
            &&& command ==> r.app == v && r.effects == seq![EffectView::SubmitText(trim(text))]
        }),
{
    reveal(AppView::buffer_submitted);
    lemma_last_user_is(ms, ms.len() as int, i);
    assert(ms.take(i) =~= ms.subrange(0, i));
    reveal_strlit("/");
    let t = trim(text);
    assert((t.len() > 0 && t[0] == '/') == crate::text::has_prefix(t, "/"@)) by {
        if t.len() > 0 {
            assert(t.take(1)[0] == t[0]);
            assert("/"@[0] == '/');
            if t[0] == '/' {
                assert(t.take(1) =~= "/"@);
            }
        }
    }
    let r = v.buffer_submitted(content);
    if t.len() > 0 && t[0] == '/' {
        assert(r.effects =~= seq![EffectView::SubmitText(t)]);
    } else {
        assert(r.effects =~= seq![
            EffectView::Rerender,
            EffectView::ScrollToBottom,
            EffectView::Resubmit(
                ms.subrange(0, i),
                QueuedView { content: text, model_transition: None, mode_transition: None },
            ),
        ]);
    }
}

/// From the editor nothing is sent while the agent works, and nothing where the
/// user has said nothing.
#[verifier::rlimit(40)]
pub proof fn law_editor_sends_nothing_without_a_question(
    v: AppView,
    content: Seq<char>,
)
    requires
        v.agent.busy || (messages_from(lines(content), 0) matches Ok(ms) ==> forall|j: int|
            0 <= j < ms.len() ==> (#[trigger] ms[j]).role != Role::User),
    ensures
        v.buffer_submitted(content).app == v,
        v.buffer_submitted(content).effects.len() == 0,
{
    reveal(AppView::buffer_submitted);
    if !v.agent.busy {
        let ms = read_messages(content);
        lemma_no_user(ms, ms.len() as int);
    }
}

/// The names of tools are known by the calls that were made: by the last one
/// where an identifier was used again.
pub proof fn law_called_tools_are_known(ms: Seq<MessageView>, i: int)
    requires
        0 <= i < ms.len(),
        ms[i].content is ToolCall,
        forall|j: int|
            i < j < ms.len() && (#[trigger] ms[j]).content is ToolCall
                ==> ms[j].content->ToolCall_tool_call_id != ms[i].content->ToolCall_tool_call_id,
    ensures
        called_tools(ms).contains_key(ms[i].content->ToolCall_tool_call_id),
        called_tools(ms)[ms[i].content->ToolCall_tool_call_id]
            == ms[i].content->ToolCall_function.name,
    decreases ms.len(),
{
    if i < ms.len() - 1 {
        let init = ms.drop_last();
        assert(init[i] == ms[i]);
        assert forall|j: int| i < j < init.len() && (#[trigger] init[j]).content is ToolCall implies
            init[j].content->ToolCall_tool_call_id != init[i].content->ToolCall_tool_call_id by {
            assert(init[j] == ms[j]);
        }
        law_called_tools_are_known(init, i);
        assert(ms.last() == ms[ms.len() - 1]);
    }
}

// ── Changes that wait ────────────────────────────────────────────────────────

/// A model or a mode that is chosen waits for the next message. While the agent
/// is idle it is shown at once; while it works the old one stays in sight.
pub proof fn law_choices_wait_for_a_message(
    s: SessionStateView,
    model: ModelView,
    mode: AgentMode,
    busy: bool,
)
    ensures
        s.with_model(model, busy).staged_model == Some(model),
        s.with_model(model, busy).model_cfg == model,
        s.with_model(model, busy).staged_mode == s.staged_mode,
        s.with_model(model, busy).mode == s.mode,
        busy ==> s.with_model(model, busy).model_display == s.model_display,
        !busy ==> s.with_model(model, busy).model_display == model.provider + seq!['/']
            + model.name,
        s.with_mode(mode, busy).staged_mode == Some(mode),
        s.with_mode(mode, busy).staged_model == s.staged_model,
        s.with_mode(mode, busy).model_display == s.model_display,
        busy ==> s.with_mode(mode, busy).mode == s.mode,
        !busy ==> s.with_mode(mode, busy).mode == mode,
        s.consumed().staged_model is None,
        s.consumed().staged_mode is None,
        s.consumed().mode == s.mode,
        s.consumed().model_cfg == s.model_cfg,
        s.consumed().model_display == s.model_display,
{
    reveal_strlit("/");
    assert("/"@ =~= seq!['/']);
}

/// A new session has the model and the mode that it was given, and no change
/// waits.
pub proof fn law_new_state_has_what_it_was_given(model: ModelView, mode: AgentMode)
    ensures
        ({
            let s = SessionStateView::fresh(model, mode);
            &&& s.model_cfg == model
            &&& s.mode == mode
            &&& s.model_display == model.provider + seq!['/'] + model.name
            &&& s.staged_model is None
            &&& s.staged_mode is None
        }),
{
    reveal_strlit("/");
    assert("/"@ =~= seq!['/']);
}

// ── The queue ────────────────────────────────────────────────────────────────

/// A message put into the queue is behind all others and selected; one taken out
/// leaves the others in order; and a text that is replaced leaves the changes
/// that go with it, and all other messages, as they are.
pub proof fn law_queue_keeps_its_messages(
    q: QueueView,
    m: QueuedView,
    text: Seq<char>,
    i: int,
    k: int,
)
    requires
        q.messages.len() < usize::MAX,
        0 <= i < q.messages.len(),
        0 <= k < q.messages.len(),
    ensures
        q.with(m).messages.len() == q.messages.len() + 1,
        q.with(m).messages.last() == m,
        q.with(m).messages[k] == q.messages[k],
        q.with(m).selected == Some(q.messages.len() as usize),
        q.with(m).abort_pending == q.abort_pending,
        q.without(i).messages.len() == q.messages.len() - 1,
        k < i ==> q.without(i).messages[k] == q.messages[k],
        k > i ==> q.without(i).messages[k - 1] == q.messages[k],
        q.without(i).abort_pending == q.abort_pending,
        q.with_content(i, text).messages.len() == q.messages.len(),
        q.with_content(i, text).messages[i].content == text,
        q.with_content(i, text).messages[i].model_transition == q.messages[i].model_transition,
        q.with_content(i, text).messages[i].mode_transition == q.messages[i].mode_transition,
        k != i ==> q.with_content(i, text).messages[k] == q.messages[k],
        q.with_content(i, text).selected == q.selected,
        q.advanced().messages.len() == q.messages.len() - 1,
        k > 0 ==> q.advanced().messages[k - 1] == q.messages[k],
        q.advanced().abort_pending == q.abort_pending,
{
}

/// In the queue one row up and one row down move the selection by one, not past
/// the ends; the messages stay. Where a message before it leaves, the selection
/// moves with the message that was selected.
pub proof fn law_queue_selection_moves_by_one(q: QueueView, i: usize)
    requires
        q.selected == Some(i),
        i < q.messages.len() <= usize::MAX,
    ensures
        q.up().messages == q.messages,
        q.down().messages == q.messages,
        q.entered() == q,
        i > 0 ==> q.up().selected == Some((i - 1) as usize),
        i == 0 ==> q.up().selected == Some(0usize),
        i + 1 < q.messages.len() ==> q.down().selected == Some((i + 1) as usize),
        i + 1 == q.messages.len() ==> q.down().selected == Some(i),
        i > 0 ==> q.advanced().messages[q.advanced().selected->0 as int] == q.messages[i as int],
        q.messages.len() == 1 ==> q.advanced().selected is None && q.without(0).selected is None,
        i + 1 < q.messages.len() ==> q.without(i as int).selected == Some(i),
        0 < i && i + 1 == q.messages.len() ==> q.without(i as int).selected == Some(
            (i - 1) as usize,
        ),
{
}

/// Where nothing is selected in the queue the first message is, if there is one.
pub proof fn law_queue_selects_the_first(q: QueueView)
    requires
        q.selected is None,
        0 < q.messages.len() <= usize::MAX,
    ensures
        q.entered().selected == Some(0usize),
        q.up().selected == Some(0usize),
        q.entered().messages == q.messages,
        QueueView::empty().messages.len() == 0,
        QueueView::empty().selected is None,
        !QueueView::empty().abort_pending,
{
}

} // verus!
