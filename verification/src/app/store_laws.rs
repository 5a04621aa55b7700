//! What is kept promises: what is saved of a conversation, how it comes back,
//! what the front end starts with, which changes of a file count, and how a frame
//! is measured.

use vstd::prelude::*;

use crate::app::chat_laws::{messages_in, spoken};
use crate::app::chat_state::ChatView;
use crate::app::event_laws::law_every_message_is_sent_again;
use crate::app::file_watcher::{change_from, is_temporary, last_solid, ChangeView, ReportView};
use crate::app::frame::{at_work, InputEditMode, Panes, Screen};
use crate::app::front::{AppView, EffectView, NvimState};
use crate::app::input_state::{extension, EditView, InputView};
use crate::app::layout_cache::LayoutCache;
use crate::app::session_manager::{header_views, ChatStatus, HeaderView};
use crate::app::session_switch::lemma_entry_id;
use crate::app::session_tree::{newest_first, ManagerView};
use crate::app::startup::AppOptions;
use crate::app::steps_input::{page_down, page_up};
use crate::app::ui_state::{AgentPickerStatus, FocusPane, TeamEntryView};
use crate::chat::history::{
    kept, record_messages, record_views, records_of, segments_of, RecordView,
};
use crate::chat::segment::{
    message_views, segment_views, CompactionStrategyUsed, MessageView, SegmentView,
};
use crate::commands::completion::opt_string_view;
use crate::commands::AgentMode;
use crate::input_wrap::wrapped_lines;

verus! {

// ── Records ──────────────────────────────────────────────────────────────────

/// Every message is saved as it is, every thought and every note of a
/// compaction too, each behind what came before it. A message of the system is
/// left out where it is to be.
pub proof fn law_segments_are_recorded(
    segs: Seq<SegmentView>,
    with_system: bool,
    m: MessageView,
    thought: Seq<char>,
    before: usize,
    after: usize,
    strategy: CompactionStrategyUsed,
    turn: u32,
)
    ensures
        ({
            let r = records_of(segs, with_system);
            &&& records_of(seq![], with_system) == Seq::<RecordView>::empty()
            &&& with_system || !(m.role is System) ==> records_of(
                segs.push(SegmentView::Message(m)),
                with_system,
            ) == r.push(RecordView::Message(m))
            &&& !with_system && m.role is System ==> records_of(
                segs.push(SegmentView::Message(m)),
                with_system,
            ) == r
            &&& records_of(segs.push(SegmentView::Thinking { content: thought }), with_system)
                == r.push(RecordView::Thinking { content: thought })
            &&& records_of(
                segs.push(
                    SegmentView::ContextCompacted {
                        tokens_before: before,
                        tokens_after: after,
                        strategy,
                        turn,
                    },
                ),
                with_system,
            ) == r.push(
                RecordView::ContextCompacted {
                    tokens_before: before,
                    tokens_after: after,
                    strategy: Some(
                        match strategy {
                            CompactionStrategyUsed::Structured => "structured"@,
                            CompactionStrategyUsed::Narrative => "narrative"@,
                            CompactionStrategyUsed::Emergency => "emergency"@,
                        },
                    ),
                    turn: Some(turn),
                },
            )
        }),
{
    assert(segs.push(SegmentView::Message(m)).drop_last() =~= segs);
    assert(segs.push(SegmentView::Thinking { content: thought }).drop_last() =~= segs);
    let note = SegmentView::ContextCompacted {
        tokens_before: before,
        tokens_after: after,
        strategy,
        turn,
    };
    assert(segs.push(note).drop_last() =~= segs);
}

/// What is for the screen only is not saved.
pub proof fn law_passing_segments_leave_no_record(
    segs: Seq<SegmentView>,
    seg: SegmentView,
    with_system: bool,
)
    requires
        !(seg is Message),
        !(seg is Thinking),
        !(seg is ContextCompacted),
    ensures
        records_of(segs.push(seg), with_system) == records_of(segs, with_system),
{
    assert(segs.push(seg).drop_last() =~= segs);
}

/// Every record comes back as the segment that it was made of, behind those
/// before it. Messages of the system do not come back, and a strategy without a
/// known name is the structured one.
pub proof fn law_records_come_back(
    records: Seq<RecordView>,
    m: MessageView,
    thought: Seq<char>,
    before: usize,
    after: usize,
    name: Option<Seq<char>>,
    turn: Option<u32>,
)
    ensures
        ({
            let r = segments_of(records);
            &&& segments_of(seq![]) == Seq::<SegmentView>::empty()
            &&& m.role is System ==> segments_of(records.push(RecordView::Message(m))) == r
            &&& !(m.role is System) ==> segments_of(records.push(RecordView::Message(m)))
                == r.push(SegmentView::Message(m))
            &&& segments_of(records.push(RecordView::Thinking { content: thought })) == r.push(
                SegmentView::Thinking { content: thought },
            )
            &&& segments_of(
                records.push(
                    RecordView::ContextCompacted {
                        tokens_before: before,
                        tokens_after: after,
                        strategy: name,
                        turn,
                    },
                ),
            ) == r.push(
                SegmentView::ContextCompacted {
                    tokens_before: before,
                    tokens_after: after,
                    strategy: if name == Some("emergency"@) {
                        CompactionStrategyUsed::Emergency
                    } else if name == Some("narrative"@) {
                        CompactionStrategyUsed::Narrative
                    } else {
                        CompactionStrategyUsed::Structured
                    },
                    turn: if turn is Some {
                        turn->0
                    } else {
                        0
                    },
                },
            )
        }),
{
    assert(records.push(RecordView::Message(m)).drop_last() =~= records);
    assert(records.push(RecordView::Thinking { content: thought }).drop_last() =~= records);
    let note = RecordView::ContextCompacted {
        tokens_before: before,
        tokens_after: after,
        strategy: name,
        turn,
    };
    assert(records.push(note).drop_last() =~= records);
}

/// What outlasts a session are the messages of the user, of the assistant and of
/// the tools, the thoughts and the notes of compactions, in their order.
pub proof fn law_lasting_segments_are_kept(segs: Seq<SegmentView>)
    ensures
        kept(segs) == segs.filter(
            |s: SegmentView|
                (s is Message && !(s->Message_0.role is System)) || s is Thinking
                    || s is ContextCompacted,
        ),
    decreases segs.len(),
{
    reveal(Seq::filter);
    let lasts = |s: SegmentView|
        (s is Message && !(s->Message_0.role is System)) || s is Thinking || s is ContextCompacted;
    if segs.len() > 0 {
        law_lasting_segments_are_kept(segs.drop_last());
        let sub = segs.drop_last().filter(lasts);
        assert(segs.filter(lasts) == if lasts(segs.last()) {
            sub.push(segs.last())
        } else {
            sub
        });
    } else {
        assert(segs.filter(lasts) =~= seq![]);
    }
}

/// The messages of a saved conversation are those of its records that are
/// messages, in their order.
pub proof fn law_recorded_messages(records: Seq<RecordView>)
    ensures
        record_messages(records) == records.filter(|r: RecordView| r is Message).map_values(
            |r: RecordView| r->Message_0,
        ),
    decreases records.len(),
{
    reveal(Seq::filter);
    let is_message = |r: RecordView| r is Message;
    let message = |r: RecordView| r->Message_0;
    if records.len() > 0 {
        law_recorded_messages(records.drop_last());
        let sub = records.drop_last().filter(is_message);
        if is_message(records.last()) {
            assert(records.filter(is_message) == sub.push(records.last()));
            assert(sub.push(records.last()).map_values(message) =~= sub.map_values(message).push(
                records.last()->Message_0,
            ));
        } else {
            assert(records.filter(is_message) == sub);
        }
    } else {
        assert(records.filter(is_message).map_values(message) =~= seq![]);
    }
}

proof fn lemma_recorded(segs: Seq<SegmentView>)
    ensures
        record_messages(records_of(segs, true)) == messages_in(segs),
    decreases segs.len(),
{
    reveal(Seq::filter);
    let is_message = |s: SegmentView| s is Message;
    let message = |s: SegmentView| s->Message_0;
    if segs.len() > 0 {
        lemma_recorded(segs.drop_last());
        let sub = segs.drop_last().filter(is_message);
        let init = records_of(segs.drop_last(), true);
        match segs.last() {
            SegmentView::Message(m) => {
                assert(init.push(RecordView::Message(m)).drop_last() =~= init);
                assert(segs.filter(is_message) == sub.push(segs.last()));
                assert(sub.push(segs.last()).map_values(message) =~= sub.map_values(message).push(
                    m,
                ));
            },
            SegmentView::Thinking { content } => {
                assert(init.push(RecordView::Thinking { content }).drop_last() =~= init);
                assert(segs.filter(is_message) == sub);
            },
            SegmentView::ContextCompacted { tokens_before, tokens_after, strategy, turn } => {
                let r = crate::chat::history::record_of(segs.last(), true)->0;
                assert(init.push(r).drop_last() =~= init);
                assert(segs.filter(is_message) == sub);
            },
            _ => {
                assert(segs.filter(is_message) == sub);
            },
        }
    } else {
        assert(messages_in(segs) =~= seq![]);
    }
}

// ── Saving ───────────────────────────────────────────────────────────────────

/// A conversation is saved whole: all that lasts goes into the log, all messages
/// of it into the history, and all but the system's messages into the file of a
/// known chat. Nothing is saved where nothing lasts.
pub proof fn law_conversation_is_saved_whole(v: AppView, now: i64)
    ensures
        ({
            let lasting = records_of(v.chat.segments, true);
            let s = v.save(now);
            &&& s is None <==> lasting.len() == 0
            &&& s is Some ==> {
                &&& s->0.records == lasting
                &&& s->0.messages == messages_in(v.chat.segments)
                &&& s->0.jsonl_path == v.jsonl_path
                &&& s->0.yaml_path == v.yaml_path
                &&& s->0.document.updated_at == now
                &&& s->0.document.model == Some(v.session.model_display)
                &&& s->0.document.mode == Some(
                    match v.session.mode {
                        AgentMode::Research => "research"@,
                        AgentMode::Plan => "plan"@,
                        AgentMode::Agent => "agent"@,
                    },
                )
                &&& s->0.document.id == v.sessions.active_id
            }
        }),
{
    lemma_recorded(v.chat.segments);
    if v.sessions.has(v.sessions.active_id) {
        lemma_entry_id(v.sessions, v.sessions.active_id);
    }
}

/// The file of a known chat keeps its title, its status and the time when it was
/// begun; one that is not known is active from now on, under the title on the
/// screen.
pub proof fn law_file_keeps_what_is_known(v: AppView, now: i64)
    ensures
        ({
            let d = v.document(now);
            let id = v.sessions.active_id;
            let e = v.sessions.entry(id);
            &&& v.sessions.has(id) ==> {
                &&& d.title == e.title
                &&& d.status == e.status
                &&& d.created_at == e.created_at
                &&& d.records == records_of(v.chat.segments, false)
            }
            &&& !v.sessions.has(id) ==> {
                &&& d.title == v.chat_title
                &&& d.status == ChatStatus::Active
                &&& d.created_at == now
                &&& d.records == records_of(v.chat.segments, true)
            }
        }),
{
}

// ── The start ────────────────────────────────────────────────────────────────

/// The front end starts with the conversation of the log; without a log with the
/// one that was given; and where that is empty with the chat that was asked for.
pub proof fn law_start_shows_what_is_known(opts: AppOptions)
    ensures
        ({
            let v = AppView::initial(opts);
            let logged = segments_of(record_views(opts.logged->0@));
            let given = segment_views(opts.initial_history@);
            let asked = segments_of(
                message_views(opts.document->0.messages@).map_values(
                    |m: MessageView| RecordView::Message(m),
                ),
            );
            &&& opts.logged is Some && logged.len() > 0 ==> v.chat.segments == logged
            &&& opts.logged is None && given.len() > 0 ==> v.chat.segments == given
            &&& opts.document is Some && (opts.logged is Some && logged.len() == 0
                || opts.logged is None && given.len() == 0) ==> {
                &&& v.chat.segments == asked
                &&& v.chat_title == opts.document->0.header.title@
            }
            &&& opts.document is None ==> v.chat_title == "New chat"@
        }),
{
}

/// What is queued at the start are the given messages and the prompt behind
/// them, each to be sent as it is.
pub proof fn law_start_queues_the_prompt(opts: AppOptions)
    ensures
        ({
            let q = AppView::initial(opts).queue;
            let given = crate::app::queue_state::queued_views(opts.initial_queue@);
            &&& q.messages.len() == given.len() + (if opts.initial_prompt is Some {
                1int
            } else {
                0
            })
            &&& q.messages.subrange(0, given.len() as int) == given
            &&& opts.initial_prompt matches Some(p) ==> q.messages.last().content == p@
                && q.messages.last().model_transition is None
                && q.messages.last().mode_transition is None
            &&& q.selected is None
            &&& !q.abort_pending
        }),
{
    let q = AppView::initial(opts).queue;
    let given = crate::app::queue_state::queued_views(opts.initial_queue@);
    assert(q.messages.subrange(0, given.len() as int) =~= given);
}

proof fn lemma_loading_keeps_the_active(m: ManagerView, headers: Seq<HeaderView>)
    ensures
        m.loaded(headers).active_id == m.active_id,
    decreases headers.len(),
{
    if headers.len() > 0 {
        lemma_loading_keeps_the_active(m, headers.drop_last());
    }
}

/// At the start the input has the focus and is empty, no agent is connected and
/// none works; the model and the mode are those that were asked for. The files
/// are those that were asked for, before those that would be used otherwise.
pub proof fn law_start_is_quiet(opts: AppOptions)
    ensures
        ({
            let v = AppView::initial(opts);
            &&& v.ui.focus == FocusPane::Input
            &&& v.input.buffer.len() == 0
            &&& v.input.cursor == 0
            &&& v.input.attachments.len() == 0
            &&& !v.edit.is_active()
            &&& !v.agent.busy
            &&& !v.agent.connected
            &&& v.nvim == NvimState { disabled: opts.no_nvim, bridge: false }
            &&& v.session.model_cfg == opts.model@
            &&& v.session.mode == opts.mode
            &&& v.default_model == opts.default_model@
            &&& v.is_node_proxy == opts.node_backend is Some
            &&& v.sessions.active_id == opts.id
            &&& opts.output_chat_path is Some ==> v.yaml_path == opt_string_view(
                opts.output_chat_path,
            )
            &&& opts.output_chat_path is None && opts.chat_path is Some ==> v.yaml_path
                == opt_string_view(opts.chat_path)
            &&& opts.output_chat_path is None && opts.chat_path is None ==> v.yaml_path
                == opt_string_view(opts.new_chat_path)
            &&& opts.jsonl_path is Some ==> v.jsonl_path == opt_string_view(opts.jsonl_path)
            &&& opts.jsonl_path is None && opts.jsonl_load_path is Some ==> v.jsonl_path
                == opt_string_view(opts.jsonl_load_path)
            &&& opts.jsonl_path is None && opts.jsonl_load_path is None ==> v.jsonl_path
                == opt_string_view(opts.auto_log_path)
        }),
{
    let first = ManagerView {
        entries: seq![],
        order: seq![opts.id],
        children: seq![],
        active_id: opts.id,
        list_selected: 0,
    }.registered(opts.first_entry());
    lemma_loading_keeps_the_active(first, newest_first(header_views(opts.saved@)));
}

/// Once an agent is connected it gets to know all messages so far; a node is
/// asked for its peers.
pub proof fn law_agent_learns_the_conversation(v: AppView)
    ensures
        ({
            let r = v.agent_ready();
            let ms = messages_in(v.chat.segments);
            let loads = v.chat.segments.len() > 0 && ms.len() > 0;
            &&& r.app.agent.connected
            &&& r.app.chat == v.chat
            &&& r.app.queue == v.queue
            &&& loads && !v.is_node_proxy ==> r.effects == seq![
                EffectView::LoadHistory(ms),
                EffectView::Rerender,
                EffectView::ScrollToBottom,
            ]
            &&& loads && v.is_node_proxy ==> r.effects == seq![
                EffectView::ListPeers,
                EffectView::LoadHistory(ms),
                EffectView::Rerender,
                EffectView::ScrollToBottom,
            ]
            &&& v.chat.segments.len() == 0 && v.is_node_proxy ==> r.effects == seq![
                EffectView::ListPeers,
            ]
            &&& v.chat.segments.len() == 0 && !v.is_node_proxy ==> r.effects.len() == 0
        }),
{
    law_every_message_is_sent_again(v.chat.segments);
    let r = v.agent_ready();
    let ms = messages_in(v.chat.segments);
    if v.chat.segments.len() > 0 && ms.len() > 0 {
        if v.is_node_proxy {
            assert(r.effects =~= seq![
                EffectView::ListPeers,
                EffectView::LoadHistory(ms),
                EffectView::Rerender,
                EffectView::ScrollToBottom,
            ]);
        } else {
            assert(r.effects =~= seq![
                EffectView::LoadHistory(ms),
                EffectView::Rerender,
                EffectView::ScrollToBottom,
            ]);
        }
    } else if v.chat.segments.len() == 0 && v.is_node_proxy {
        assert(r.effects =~= seq![EffectView::ListPeers]);
    }
}

/// Once the editor runs it shows the conversation so far.
pub proof fn law_editor_shows_the_conversation(v: AppView)
    ensures
        ({
            let r = v.editor_ready();
            &&& r.app == AppView { nvim: NvimState { bridge: true, ..v.nvim }, ..v }
            &&& v.chat.segments.len() > 0 ==> r.effects == seq![
                EffectView::Rerender,
                EffectView::ScrollToBottom,
            ]
            &&& v.chat.segments.len() == 0 ==> r.effects.len() == 0
        }),
{
    if v.chat.segments.len() > 0 {
        assert(v.editor_ready().effects =~= seq![EffectView::Rerender, EffectView::ScrollToBottom]);
    }
}

/// The first message of the queue is sent at the start: it becomes the last
/// message of the conversation, and the others move up.
pub proof fn law_first_message_is_sent(v: AppView)
    ensures
        ({
            let r = v.first_sent();
            &&& v.queue.messages.len() == 0 ==> r.app == v && r.effects.len() == 0
            &&& v.queue.messages.len() > 0 ==> {
                let m = v.queue.messages[0];
                &&& r.effects == seq![EffectView::Rerender, EffectView::Send(m)]
                &&& r.app.chat.segments == v.chat.segments.push(spoken(true, m.content))
                &&& r.app.queue.messages == v.queue.messages.subrange(
                    1,
                    v.queue.messages.len() as int,
                )
                &&& r.app.input == v.input
            }
        }),
{
    if v.queue.messages.len() > 0 {
        let m = v.queue.messages[0];
        assert(v.first_sent().effects =~= seq![EffectView::Rerender, EffectView::Send(m)]);
        assert(v.queue.messages.skip(1) =~= v.queue.messages.subrange(
            1,
            v.queue.messages.len() as int,
        ));
    }
}

// ── Changes of a file ────────────────────────────────────────────────────────

proof fn lemma_solid(paths: Seq<Seq<char>>, before: Option<Seq<char>>)
    ensures
        match last_solid(paths, before) {
            Some(p) => (Some(p) == before && forall|k: int|
                0 <= k < paths.len() ==> extension(#[trigger] paths[k]) == Some("tmp"@)) || exists|
                k: int,
            |
                0 <= k < paths.len() && #[trigger] paths[k] == p && extension(p) != Some("tmp"@)
                    && forall|j: int|
                    k < j < paths.len() ==> extension(#[trigger] paths[j]) == Some("tmp"@),
            None => before is None && forall|k: int|
                0 <= k < paths.len() ==> extension(#[trigger] paths[k]) == Some("tmp"@),
        },
    decreases paths.len(),
{
    if paths.len() > 0 {
        let rest = paths.drop_last();
        if is_temporary(paths.last()) {
            lemma_solid(rest, before);
            assert forall|k: int| 0 <= k < paths.len() && (forall|j: int|
                0 <= j < rest.len() ==> extension(#[trigger] rest[j]) == Some("tmp"@)) implies extension(
                #[trigger] paths[k],
            ) == Some("tmp"@) by {
                if k < rest.len() {
                    assert(rest[k] == paths[k]);
                }
            }
            if last_solid(rest, before) is Some && exists|k: int|
                0 <= k < rest.len() && #[trigger] rest[k] == last_solid(rest, before)->0
                    && extension(rest[k]) != Some("tmp"@) && forall|j: int|
                    k < j < rest.len() ==> extension(#[trigger] rest[j]) == Some("tmp"@) {
                let k = choose|k: int|
                    0 <= k < rest.len() && #[trigger] rest[k] == last_solid(rest, before)->0
                        && extension(rest[k]) != Some("tmp"@) && forall|j: int|
                        k < j < rest.len() ==> extension(#[trigger] rest[j]) == Some("tmp"@);
                assert(paths[k] == rest[k]);
                assert forall|j: int| k < j < paths.len() implies extension(#[trigger] paths[j])
                    == Some("tmp"@) by {
                    if j < rest.len() {
                        assert(rest[j] == paths[j]);
                    }
                }
            }
        } else {
            assert(paths[paths.len() - 1] == paths.last());
        }
    }
}

/// Of the files of a report the last that is not temporary counts, and none where
/// all are temporary; a failure is reported before all that comes after it.
pub proof fn law_last_change_counts(
    path: Seq<char>,
    temporary: Seq<char>,
    e: Seq<char>,
    rest: Seq<ReportView>,
    before: Option<Seq<char>>,
)
    requires
        extension(path) != Some("tmp"@),
        extension(temporary) == Some("tmp"@),
    ensures
        change_from(seq![], None) is None,
        change_from(seq![], Some(path)) == Some(ChangeView::Modified(path)),
        change_from(seq![ReportView::Failed(e)] + rest, before) == Some(ChangeView::Error(e)),
        change_from(seq![ReportView::Other] + rest, before) == change_from(rest, before),
        change_from(seq![ReportView::Modified(seq![path])] + rest, before) == change_from(
            rest,
            Some(path),
        ),
        change_from(seq![ReportView::Modified(seq![temporary])] + rest, before) == change_from(
            rest,
            before,
        ),
{
    assert((seq![ReportView::Other] + rest).skip(1) =~= rest);
    assert((seq![ReportView::Modified(seq![path])] + rest).skip(1) =~= rest);
    assert((seq![ReportView::Modified(seq![temporary])] + rest).skip(1) =~= rest);
    let one = seq![temporary];
    assert(one.drop_last() =~= seq![]);
    assert(last_solid(one.drop_last(), before) == before);
    assert(last_solid(one, before) == before);
    assert(last_solid(seq![path], before) == Some(path));
}

/// A report of several files counts as its last one that is not temporary.
pub proof fn law_one_report_counts_once(paths: Seq<Seq<char>>, k: int)
    requires
        0 <= k < paths.len(),
        extension(paths[k]) != Some("tmp"@),
        forall|j: int| k < j < paths.len() ==> extension(#[trigger] paths[j]) == Some("tmp"@),
    ensures
        change_from(seq![ReportView::Modified(paths)], None) == Some(
            ChangeView::Modified(paths[k]),
        ),
{
    lemma_solid(paths, None);
    let reports = seq![ReportView::Modified(paths)];
    assert(reports.skip(1) =~= seq![]);
    assert(change_from(reports.skip(1), last_solid(paths, None)) == change_from(
        seq![],
        last_solid(paths, None),
    ));
}

// ── Frames ───────────────────────────────────────────────────────────────────

/// The measures of a frame are those of its panes: inside the border where they
/// have one, and without the two columns of the prompt.
pub proof fn law_frame_is_measured(v: AppView, p: Panes)
    requires
        p.chat.height >= 3,
        p.chat.width >= 20,
        p.input.width >= 2,
        p.input.height >= 2,
    ensures
        ({
            let w = v.before_frame(p);
            &&& w.layout == LayoutCache {
                chat_height: (p.chat.height - 2) as u16,
                chat_inner_width: p.chat.width,
                input_inner_width: (p.input.width - 2) as u16,
                input_inner_height: (p.input.height - 2) as u16,
                chat_pane: p.chat,
                input_pane: p.input,
                queue_pane: p.queue,
                chat_list_pane: p.chat_list,
                peers_pane: p.peers,
                resize_drag: v.layout.resize_drag,
            }
            &&& w.chat == ChatView { scroll_offset: w.chat.scroll_offset, ..v.chat }
            &&& w.chat.scroll_offset <= v.chat.scroll_offset
            &&& v.chat.scroll_offset + w.layout.chat_height <= v.chat.lines.len()
                && v.chat.lines.len() < 0x10000 ==> w.chat.scroll_offset == v.chat.scroll_offset
            &&& w.input == InputView { scroll_offset: w.input.scroll_offset, ..v.input }
            &&& w.edit == EditView { scroll_offset: w.edit.scroll_offset, ..v.edit }
            &&& !w.needs_terminal_recover
        }),
{
}

/// A terminal that got another size is measured and drawn anew; the editor gets
/// the size inside the border, and an open pager is filled anew.
pub proof fn law_resizing_draws_anew(v: AppView, p: Panes)
    requires
        p.chat.width >= 2,
        p.chat.height >= 2,
    ensures
        ({
            let r = v.resized(p);
            let size = EffectView::EditorResize(
                (p.chat.width - 2) as u16,
                (p.chat.height - 2) as u16,
            );
            &&& v.nvim.bridge && v.ui.pager_open ==> r.effects == seq![
                size,
                EffectView::Rerender,
                EffectView::RefreshPager,
            ]
            &&& v.nvim.bridge && !v.ui.pager_open ==> r.effects == seq![size, EffectView::Rerender]
            &&& !v.nvim.bridge && v.ui.pager_open ==> r.effects == seq![
                EffectView::Rerender,
                EffectView::RefreshPager,
            ]
            &&& !v.nvim.bridge && !v.ui.pager_open ==> r.effects == seq![EffectView::Rerender]
            &&& r.app.layout.chat_pane == p.chat
            &&& r.app.layout.input_pane == p.input
            &&& r.app.layout.queue_pane == p.queue
            &&& r.app == AppView { layout: r.app.layout, ..v }
        }),
{
    let r = v.resized(p);
    let size = EffectView::EditorResize((p.chat.width - 2) as u16, (p.chat.height - 2) as u16);
    if v.nvim.bridge {
        if v.ui.pager_open {
            assert(r.effects =~= seq![size, EffectView::Rerender, EffectView::RefreshPager]);
        } else {
            assert(r.effects =~= seq![size, EffectView::Rerender]);
        }
    } else if v.ui.pager_open {
        assert(r.effects =~= seq![EffectView::Rerender, EffectView::RefreshPager]);
    } else {
        assert(r.effects =~= seq![EffectView::Rerender]);
    }
}

/// The input is as high as its text and its attachments need, with its border;
/// not lower than the user has chosen, and not higher than half of the screen.
pub proof fn law_input_fits_its_text(v: AppView, text: Seq<char>, width: u16, height: u16)
    requires
        width >= 3,
        height >= 6,
        v.input.attachments.len() < 0x10000,
        wrapped_lines(text, (width - 2) as nat, crate::text::byte_len(text)).len() < 0x10000,
        v.prefs.input_height >= 3,
    ensures
        ({
            let lines = wrapped_lines(
                text,
                (width - 2) as nat,
                crate::text::byte_len(text),
            ).len();
            let needed = lines + v.input.attachments.len() + 2;
            let r = v.height_for(text, width, height);
            let half = height as int / 2;
            &&& lines >= 1 && v.prefs.input_height <= needed <= half ==> r == needed
            &&& needed <= v.prefs.input_height <= half ==> r == v.prefs.input_height
            &&& lines >= 1 && needed > half ==> r == half
            &&& r <= half
        }),
{
}

proof fn lemma_at_work(team: Seq<TeamEntryView>)
    ensures
        at_work(team) == team.filter(
            |t: TeamEntryView| !t.is_local && t.status == AgentPickerStatus::Active,
        ).len(),
    decreases team.len(),
{
    reveal(Seq::filter);
    let works = |t: TeamEntryView| !t.is_local && t.status == AgentPickerStatus::Active;
    if team.len() > 0 {
        lemma_at_work(team.drop_last());
        let sub = team.drop_last().filter(works);
        assert(team.filter(works) == if works(team.last()) {
            sub.push(team.last())
        } else {
            sub
        });
    } else {
        assert(team.filter(works) =~= seq![]);
    }
}

/// A frame shows the topmost overlay, the model or that a node is in charge, how
/// many others of the team work, and the lines of what is edited or highlighted.
pub proof fn law_frame_shows_the_state(v: AppView, p: Panes)
    ensures
        ({
            let f = v.plan(p);
            &&& v.ui.inspector_open ==> f.screen == Screen::Inspector
            &&& !v.ui.inspector_open && v.ui.pager_open ==> f.screen == Screen::Pager
            &&& !v.ui.inspector_open && !v.ui.pager_open ==> f.screen == Screen::Panes
            &&& v.is_node_proxy ==> f.model_label == "node"@
            &&& !v.is_node_proxy ==> f.model_label == v.session.model_display
            &&& f.team_active_count == v.ui.team.filter(
                |t: TeamEntryView| !t.is_local && t.status == AgentPickerStatus::Active,
            ).len() % 0x100
            &&& f.show_welcome <==> v.chat.segments.len() == 0 && v.chat.streaming_buffer.len()
                == 0 && !v.agent.busy && v.nvim.disabled
            &&& f.auto_scroll_paused <==> !v.chat.auto_scroll && v.chat.lines.len() > 0
            &&& v.edit.message_index matches Some(i) ==> (i < v.chat.segment_line_ranges.len()
                ==> f.editing_range == Some(v.chat.segment_line_ranges[i as int]))
            &&& v.edit.message_index is None ==> f.editing_range is None
            &&& v.chat.focused_segment matches Some(i) ==> (i < v.chat.segment_line_ranges.len()
                && v.ui.focus == FocusPane::Chat && v.nvim.disabled ==> f.highlight_range == Some(
                v.chat.segment_line_ranges[i as int],
            ))
            &&& v.ui.focus != FocusPane::Chat || !v.nvim.disabled || v.chat.focused_segment is None
                ==> f.highlight_range is None
            &&& v.edit.queue_index is Some ==> f.edit_mode == InputEditMode::Queue
            &&& v.edit.queue_index is None && v.edit.message_index is Some ==> f.edit_mode
                == InputEditMode::Segment
            &&& v.edit.queue_index is None && v.edit.message_index is None ==> f.edit_mode
                == InputEditMode::Normal
            &&& f.input_focused <==> v.ui.focus == FocusPane::Input || v.edit.queue_index is Some
                || v.edit.message_index is Some
            &&& f.input_cursor_active <==> f.input_focused && !v.ui.question_open
                && v.ui.confirm_modal is None
            &&& f.show_chat_list <==> v.prefs.chat_list_visible && p.chat_list.width > 0
            &&& f.show_peers <==> p.peers.height > 0 && p.peers.width > 0
            &&& f.show_queue <==> v.queue.messages.len() > 0
        }),
{
    lemma_at_work(v.ui.team);
}

/// A page is as many rows as the box has; the box does not scroll before its
/// first row nor past its last page.
pub proof fn law_boxes_are_paged(text: Seq<char>, offset: nat, width: nat, height: nat)
    requires
        width > 0,
        height > 0,
    ensures
        ({
            let rows = wrapped_lines(text, width, 0).len();
            let down = page_down(text, offset, width, height);
            &&& offset >= height ==> page_up(offset, height) + height == offset
            &&& offset < height ==> page_up(offset, height) == 0
            &&& offset + 2 * height <= rows ==> down == offset + height
            &&& offset + 2 * height > rows && rows >= height ==> down + height == rows
            &&& rows < height ==> down == 0
        }),
{
}

} // verus!
