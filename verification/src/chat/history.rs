//! What of a conversation is kept on disk, and how it comes back.

use vstd::prelude::*;

use crate::chat::segment::{
    message_views, segment_views, ChatSegment, CompactionStrategyUsed, Message, MessageView, Role,
    SegmentView,
};
use crate::commands::completion::opt_string_view;
use crate::text::str_eq;

verus! {

/// One record of a saved conversation.
#[derive(Debug, PartialEq, Eq)]
pub enum ConversationRecord {
    Message(Message),
    Thinking { content: String },
    ContextCompacted {
        tokens_before: usize,
        tokens_after: usize,
        strategy: Option<String>,
        turn: Option<u32>,
    },
}

pub enum RecordView {
    Message(MessageView),
    Thinking { content: Seq<char> },
    ContextCompacted {
        tokens_before: usize,
        tokens_after: usize,
        strategy: Option<Seq<char>>,
        turn: Option<u32>,
    },
}

impl View for ConversationRecord {
    type V = RecordView;

    open spec fn view(&self) -> RecordView {
        match *self {
            ConversationRecord::Message(m) => RecordView::Message(m@),
            ConversationRecord::Thinking { content } => RecordView::Thinking { content: content@ },
            ConversationRecord::ContextCompacted { tokens_before, tokens_after, strategy, turn } => {
                RecordView::ContextCompacted {
                    tokens_before,
                    tokens_after,
                    strategy: opt_string_view(strategy),
                    turn,
                }
            },
        }
    }
}

/// The views of records.
pub open spec fn record_views(v: Seq<ConversationRecord>) -> Seq<RecordView> {
    v.map_values(|r: ConversationRecord| r@)
}

/// The name of a strategy in a record.
pub open spec fn strategy_name(s: CompactionStrategyUsed) -> Seq<char> {
    match s {
        CompactionStrategyUsed::Structured => "structured"@,
        CompactionStrategyUsed::Narrative => "narrative"@,
        CompactionStrategyUsed::Emergency => "emergency"@,
    }
}

/// The strategy that a record names; one that it does not name, or names
/// otherwise, is the structured one.
pub open spec fn named_strategy(name: Option<Seq<char>>) -> CompactionStrategyUsed {
    if name == Some("emergency"@) {
        CompactionStrategyUsed::Emergency
    } else if name == Some("narrative"@) {
        CompactionStrategyUsed::Narrative
    } else {
        CompactionStrategyUsed::Structured
    }
}

/// The record of a segment. Errors, todo lists, events and summaries of
/// delegated work are for the screen only and leave none; nor do messages of the
/// system where they are to be left out.
pub open spec fn record_of(seg: SegmentView, with_system: bool) -> Option<RecordView> {
    match seg {
        SegmentView::Message(m) => if m.role is System && !with_system {
            None
        } else {
            Some(RecordView::Message(m))
        },
        SegmentView::Thinking { content } => Some(RecordView::Thinking { content }),
        SegmentView::ContextCompacted { tokens_before, tokens_after, strategy, turn } => Some(
            RecordView::ContextCompacted {
                tokens_before,
                tokens_after,
                strategy: Some(strategy_name(strategy)),
                turn: Some(turn),
            },
        ),
        _ => None,
    }
}

/// The records of segments.
pub open spec fn records_of(segs: Seq<SegmentView>, with_system: bool) -> Seq<RecordView>
    decreases segs.len(),
{
    if segs.len() == 0 {
        seq![]
    } else {
        let init = records_of(segs.drop_last(), with_system);
        match record_of(segs.last(), with_system) {
            Some(r) => init.push(r),
            None => init,
        }
    }
}

/// The segment that a record comes back as; messages of the system do not.
pub open spec fn segment_of(record: RecordView) -> Option<SegmentView> {
    match record {
        RecordView::Message(m) => if m.role is System {
            None
        } else {
            Some(SegmentView::Message(m))
        },
        RecordView::Thinking { content } => Some(SegmentView::Thinking { content }),
        RecordView::ContextCompacted { tokens_before, tokens_after, strategy, turn } => Some(
            SegmentView::ContextCompacted {
                tokens_before,
                tokens_after,
                strategy: named_strategy(strategy),
                turn: match turn {
                    Some(t) => t,
                    None => 0,
                },
            },
        ),
    }
}

/// The segments that records come back as.
pub open spec fn segments_of(records: Seq<RecordView>) -> Seq<SegmentView>
    decreases records.len(),
{
    if records.len() == 0 {
        seq![]
    } else {
        let init = segments_of(records.drop_last());
        match segment_of(records.last()) {
            Some(s) => init.push(s),
            None => init,
        }
    }
}

/// A segment that outlasts the session.
pub open spec fn is_kept(seg: SegmentView) -> bool {
    match seg {
        SegmentView::Message(m) => !(m.role is System),
        SegmentView::Thinking { .. } => true,
        SegmentView::ContextCompacted { .. } => true,
        _ => false,
    }
}

/// The segments that outlast the session.
pub open spec fn kept(segs: Seq<SegmentView>) -> Seq<SegmentView>
    decreases segs.len(),
{
    if segs.len() == 0 {
        seq![]
    } else {
        let init = kept(segs.drop_last());
        if is_kept(segs.last()) {
            init.push(segs.last())
        } else {
            init
        }
    }
}

/// The messages among records.
pub open spec fn record_messages(records: Seq<RecordView>) -> Seq<MessageView>
    decreases records.len(),
{
    if records.len() == 0 {
        seq![]
    } else {
        let init = record_messages(records.drop_last());
        match records.last() {
            RecordView::Message(m) => init.push(m),
            _ => init,
        }
    }
}

fn strategy_text(s: CompactionStrategyUsed) -> (r: String)
    ensures
        r@ == strategy_name(s),
{
    match s {
        CompactionStrategyUsed::Structured => "structured".to_owned(),
        CompactionStrategyUsed::Narrative => "narrative".to_owned(),
        CompactionStrategyUsed::Emergency => "emergency".to_owned(),
    }
}

/// The strategy that a record names.
pub fn parse_strategy(name: &Option<String>) -> (r: CompactionStrategyUsed)
    ensures
        r == named_strategy(opt_string_view(*name)),
{
    match name {
        Some(n) => {
            if str_eq(n.as_str(), "emergency") {
                CompactionStrategyUsed::Emergency
            } else if str_eq(n.as_str(), "narrative") {
                CompactionStrategyUsed::Narrative
            } else {
                CompactionStrategyUsed::Structured
            }
        },
        None => CompactionStrategyUsed::Structured,
    }
}

fn make_record(seg: &ChatSegment, with_system: bool) -> (r: Option<ConversationRecord>)
    ensures
        record_of(seg@, with_system) == (match r {
            Some(x) => Some(x@),
            None => None,
        }),
{
    match seg {
        ChatSegment::Message(m) => {
            if m.role == Role::System && !with_system {
                None
            } else {
                Some(ConversationRecord::Message(m.clone()))
            }
        },
        ChatSegment::Thinking { content } => Some(
            ConversationRecord::Thinking { content: content.clone() },
        ),
        ChatSegment::ContextCompacted { tokens_before, tokens_after, strategy, turn } => Some(
            ConversationRecord::ContextCompacted {
                tokens_before: *tokens_before,
                tokens_after: *tokens_after,
                strategy: Some(strategy_text(*strategy)),
                turn: Some(*turn),
            },
        ),
        _ => None,
    }
}

/// The records of a conversation, with or without the system's messages.
pub fn conversation_records(segments: &Vec<ChatSegment>, with_system: bool) -> (r: Vec<
    ConversationRecord,
>)
    ensures
        record_views(r@) == records_of(segment_views(segments@), with_system),
{
    let ghost segs = segment_views(segments@);
    let mut out: Vec<ConversationRecord> = Vec::new();
    let mut i: usize = 0;
    assert(segs.take(0) =~= seq![]);
    assert(record_views(out@) =~= seq![]);
    while i < segments.len()
        invariant
            segs == segment_views(segments@),
            i <= segments@.len(),
            record_views(out@) == records_of(segs.take(i as int), with_system),
        decreases segments.len() - i,
    {
        let ghost before = out@;
        if let Some(rec) = make_record(&segments[i], with_system) {
            out.push(rec);
            assert(record_views(out@) =~= record_views(before).push(rec@));
        }
        i += 1;
        proof {
            assert(segs.take(i as int).drop_last() =~= segs.take(i - 1));
            assert(segs.take(i as int).last() == segments@[i - 1]@);
        }
    }
    assert(segs.take(segs.len() as int) =~= segs);
    out
}

fn make_segment(record: &ConversationRecord) -> (r: Option<ChatSegment>)
    ensures
        segment_of(record@) == (match r {
            Some(x) => Some(x@),
            None => None,
        }),
{
    match record {
        ConversationRecord::Message(m) => {
            if m.role == Role::System {
                None
            } else {
                Some(ChatSegment::Message(m.clone()))
            }
        },
        ConversationRecord::Thinking { content } => Some(
            ChatSegment::Thinking { content: content.clone() },
        ),
        ConversationRecord::ContextCompacted { tokens_before, tokens_after, strategy, turn } => {
            let turn: u32 = match turn {
                Some(t) => *t,
                None => 0,
            };
            Some(
                ChatSegment::ContextCompacted {
                    tokens_before: *tokens_before,
                    tokens_after: *tokens_after,
                    strategy: parse_strategy(strategy),
                    turn,
                },
            )
        },
    }
}

/// The segments that the records of a saved conversation come back as.
pub fn segments_from_records(records: &Vec<ConversationRecord>) -> (r: Vec<ChatSegment>)
    ensures
        segment_views(r@) == segments_of(record_views(records@)),
{
    let ghost recs = record_views(records@);
    let mut out: Vec<ChatSegment> = Vec::new();
    let mut i: usize = 0;
    assert(recs.take(0) =~= seq![]);
    assert(segment_views(out@) =~= seq![]);
    while i < records.len()
        invariant
            recs == record_views(records@),
            i <= records@.len(),
            segment_views(out@) == segments_of(recs.take(i as int)),
        decreases records.len() - i,
    {
        let ghost before = out@;
        if let Some(seg) = make_segment(&records[i]) {
            out.push(seg);
            assert(segment_views(out@) =~= segment_views(before).push(seg@));
        }
        i += 1;
        proof {
            assert(recs.take(i as int).drop_last() =~= recs.take(i - 1));
            assert(recs.take(i as int).last() == records@[i - 1]@);
        }
    }
    assert(recs.take(recs.len() as int) =~= recs);
    out
}

/// The segments of loaded messages: all but those of the system.
pub fn segments_from_messages(messages: &Vec<Message>) -> (r: Vec<ChatSegment>)
    ensures
        segment_views(r@) == segments_of(
            message_views(messages@).map_values(|m: MessageView| RecordView::Message(m)),
        ),
{
    let ghost recs = message_views(messages@).map_values(|m: MessageView| RecordView::Message(m));
    let mut out: Vec<ChatSegment> = Vec::new();
    let mut i: usize = 0;
    assert(recs.take(0) =~= seq![]);
    assert(segment_views(out@) =~= seq![]);
    while i < messages.len()
        invariant
            recs == message_views(messages@).map_values(|m: MessageView| RecordView::Message(m)),
            i <= messages@.len(),
            segment_views(out@) == segments_of(recs.take(i as int)),
        decreases messages.len() - i,
    {
        let ghost before = out@;
        if messages[i].role != Role::System {
            let seg = ChatSegment::Message(messages[i].clone());
            out.push(seg);
            assert(segment_views(out@) =~= segment_views(before).push(seg@));
        }
        i += 1;
        proof {
            assert(recs.take(i as int).drop_last() =~= recs.take(i - 1));
            assert(recs.take(i as int).last() == RecordView::Message(messages@[i - 1]@));
        }
    }
    assert(recs.take(recs.len() as int) =~= recs);
    out
}

/// The messages of a saved conversation.
pub fn messages_from_records(records: &Vec<ConversationRecord>) -> (r: Vec<Message>)
    ensures
        message_views(r@) == record_messages(record_views(records@)),
{
    let ghost recs = record_views(records@);
    let mut out: Vec<Message> = Vec::new();
    let mut i: usize = 0;
    assert(recs.take(0) =~= seq![]);
    assert(message_views(out@) =~= seq![]);
    while i < records.len()
        invariant
            recs == record_views(records@),
            i <= records@.len(),
            message_views(out@) == record_messages(recs.take(i as int)),
        decreases records.len() - i,
    {
        let ghost before = out@;
        if let ConversationRecord::Message(m) = &records[i] {
            let copy = m.clone();
            out.push(copy);
            assert(message_views(out@) =~= message_views(before).push(copy@));
        }
        i += 1;
        proof {
            assert(recs.take(i as int).drop_last() =~= recs.take(i - 1));
            assert(recs.take(i as int).last() == records@[i - 1]@);
        }
    }
    assert(recs.take(recs.len() as int) =~= recs);
    out
}

// ── Laws ─────────────────────────────────────────────────────────────────────

proof fn lemma_strategy_survives(s: CompactionStrategyUsed)
    ensures
        named_strategy(Some(strategy_name(s))) == s,
{
    reveal_strlit("structured");
    reveal_strlit("narrative");
    reveal_strlit("emergency");
    assert("structured"@.len() == 10 && "narrative"@.len() == 9 && "emergency"@.len() == 9);
    assert("narrative"@[0] == 'n' && "emergency"@[0] == 'e');
}

/// A saved conversation comes back as it was: all messages but the system's, all
/// thoughts and all notes of compaction, in their order.
pub proof fn law_saved_conversation_comes_back(segs: Seq<SegmentView>, with_system: bool)
    ensures
        segments_of(records_of(segs, with_system)) == kept(segs),
    decreases segs.len(),
{
    if segs.len() > 0 {
        let init = segs.drop_last();
        law_saved_conversation_comes_back(init, with_system);
        let before = records_of(init, with_system);
        match record_of(segs.last(), with_system) {
            Some(r) => {
                assert(before.push(r).drop_last() =~= before);
                assert(before.push(r).last() == r);
                if let SegmentView::ContextCompacted { strategy, .. } = segs.last() {
                    lemma_strategy_survives(strategy);
                }
            },
            None => {},
        }
    }
}

/// What was loaded is saved and loaded again without a change.
pub proof fn law_loading_is_stable(segs: Seq<SegmentView>)
    ensures
        kept(kept(segs)) == kept(segs),
    decreases segs.len(),
{
    if segs.len() > 0 {
        law_loading_is_stable(segs.drop_last());
        let init = kept(segs.drop_last());
        if is_kept(segs.last()) {
            assert(init.push(segs.last()).drop_last() =~= init);
        }
    }
}

} // verus!
