//! Laws of content blocks: one start, then deltas, then one end.

use vstd::prelude::*;

use crate::assembler::append_step;
use crate::assembler::block_of;
use crate::assembler::closed;
use crate::assembler::closing;
use crate::assembler::complete_step;
use crate::assembler::data_step;
use crate::assembler::delta;
use crate::assembler::end_step;
use crate::assembler::fresh;
use crate::assembler::identity_step;
use crate::assembler::lemma_locate;
use crate::assembler::lemma_located_last;
use crate::assembler::locate;
use crate::assembler::metadata_step;
use crate::assembler::reconcile_step;
use crate::assembler::signature_step;
use crate::assembler::start_step;
use crate::assembler::takes;
use crate::assembler::with_block;
use crate::assembler::AssemblerV;
use crate::assembler::BlockV;
use crate::assembler::Phase;
use crate::json::JsonV;
use crate::response::EventV;
use crate::response::KindV;
use crate::text::lemma_ends;
use crate::text::lemma_take;

verus! {

broadcast use {vstd::seq::group_seq_axioms, vstd::map::group_map_axioms};

/// What a list of events says of its blocks: whether each one that started is
/// still open. `None` when a block starts twice, sends a delta while it is not
/// open, or ends while it is not open.
pub open spec fn follow(log: Seq<EventV>) -> Option<Map<Seq<char>, bool>>
    decreases log.len(),
{
    if log.len() == 0 {
        Some(Map::empty())
    } else {
        match follow(log.drop_last()) {
            None => None,
            Some(seen) => match log.last() {
                EventV::Start { block, .. } => if seen.contains_key(block) {
                    None
                } else {
                    Some(seen.insert(block, true))
                },
                EventV::TextDelta { block, .. } => if seen.contains_key(block) && seen[block] {
                    Some(seen)
                } else {
                    None
                },
                EventV::ReasoningDelta { block, .. } => if seen.contains_key(block) && seen[block] {
                    Some(seen)
                } else {
                    None
                },
                EventV::ToolCallDelta { block, .. } => if seen.contains_key(block) && seen[block] {
                    Some(seen)
                } else {
                    None
                },
                EventV::End { block, .. } => if seen.contains_key(block) && seen[block] {
                    Some(seen.insert(block, false))
                } else {
                    None
                },
                _ => Some(seen),
            },
        }
    }
}

/// Whether a list of events is what led to an assembler: its blocks have
/// distinct names, and the events say of each what the assembler holds.
pub open spec fn tracks(s: AssemblerV, log: Seq<EventV>) -> bool {
    &&& follow(log) is Some
    &&& forall|i: int, j: int|
        0 <= i < j < s.blocks.len() ==> (#[trigger] s.blocks[i]).id != (#[trigger] s.blocks[j]).id
    &&& forall|id: Seq<char>| #[trigger]
        follow(log)->0.contains_key(id) <==> locate(s.blocks, id, 0) is Some
    &&& forall|i: int|
        0 <= i < s.blocks.len() ==> follow(log)->0[(#[trigger] s.blocks[i]).id] == (
        s.blocks[i].phase == Phase::Open)
}

/// Whether every block of a list of events has ended.
pub open spec fn all_ended(log: Seq<EventV>) -> bool {
    &&& follow(log) is Some
    &&& forall|id: Seq<char>| #[trigger]
        follow(log)->0.contains_key(id) ==> !follow(log)->0[id]
}

/// One more event: what it adds to a list of events.
proof fn lemma_follow_push(log: Seq<EventV>, event: EventV)
    ensures
        log.push(event).drop_last() == log,
        log + seq![event] == log.push(event),
        log + Seq::<EventV>::empty() == log,
{
    assert(log.push(event).drop_last() =~= log);
    assert(log + seq![event] =~= log.push(event));
    assert(log + Seq::<EventV>::empty() =~= log);
}

/// A name is found where its block stands.
proof fn lemma_located(blocks: Seq<BlockV>, at: int)
    requires
        0 <= at < blocks.len(),
        forall|i: int, j: int|
            0 <= i < j < blocks.len() ==> (#[trigger] blocks[i]).id != (#[trigger] blocks[j]).id,
    ensures
        locate(blocks, blocks[at].id, 0) == Some(at),
{
    lemma_locate(blocks, blocks[at].id, 0);
    let found = locate(blocks, blocks[at].id, 0);
    if found is Some {
        if found->0 < at {
            assert(blocks[found->0].id != blocks[at].id);
        }
    } else {
        assert(blocks[at].id != blocks[at].id);
    }
}

/// Changing a block under its name keeps where every name stands.
pub proof fn lemma_updated(blocks: Seq<BlockV>, at: int, block: BlockV, id: Seq<char>, from: int)
    requires
        0 <= at < blocks.len(),
        0 <= from,
        block.id == blocks[at].id,
    ensures
        locate(blocks.update(at, block), id, from) == locate(blocks, id, from),
    decreases blocks.len() - from,
{
    if from < blocks.len() {
        lemma_updated(blocks, at, block, id, from + 1);
    }
}

/// A name that is not the pushed one stands where it stood.
pub proof fn lemma_pushed(blocks: Seq<BlockV>, block: BlockV, id: Seq<char>, from: int)
    requires
        0 <= from <= blocks.len(),
        id != block.id,
    ensures
        locate(blocks.push(block), id, from) == locate(blocks, id, from),
    decreases blocks.len() - from,
{
    if from < blocks.len() {
        assert(blocks.push(block)[from] == blocks[from]);
        lemma_pushed(blocks, block, id, from + 1);
    } else {
        reveal_with_fuel(locate, 2);
    }
}

/// Events that no block is part of keep what led to an assembler.
pub proof fn lemma_aside(s: AssemblerV, log: Seq<EventV>, event: EventV)
    requires
        tracks(s, log),
        event is Started || event is Usage || event is Ended,
    ensures
        tracks(s, log.push(event)),
{
    lemma_follow_push(log, event);
}

/// An assembler with other totals was led to by the same events.
pub proof fn lemma_same_blocks(s: AssemblerV, other: AssemblerV, log: Seq<EventV>)
    requires
        tracks(s, log),
        other.blocks == s.blocks,
    ensures
        tracks(other, log),
{
}

/// Starting a block keeps the account of the blocks.
pub proof fn lemma_start(s: AssemblerV, log: Seq<EventV>, id: Seq<char>, kind: KindV)
    requires
        tracks(s, log),
    ensures
        tracks(start_step(s, id, kind).0, log + start_step(s, id, kind).1),
        s.completed || locate(start_step(s, id, kind).0.blocks, id, 0) is Some,
{
    let (next, events) = start_step(s, id, kind);
    if s.completed || locate(s.blocks, id, 0) is Some {
        lemma_follow_push(log, EventV::Start { block: id, kind });
    } else {
        let event = EventV::Start { block: id, kind };
        lemma_follow_push(log, event);
        lemma_locate(s.blocks, id, 0);
        lemma_located_last(s.blocks, fresh(id, kind), 0);
        assert(!follow(log)->0.contains_key(id));
        assert forall|other: Seq<char>| #[trigger]
            follow(log.push(event))->0.contains_key(other) <==> locate(next.blocks, other, 0)
            is Some by {
            if other != id {
                lemma_pushed(s.blocks, fresh(id, kind), other, 0);
                assert(follow(log)->0.contains_key(other) <==> locate(s.blocks, other, 0) is Some);
            }
        }
        assert forall|i: int| 0 <= i < next.blocks.len() implies follow(log.push(event))->0[(
        #[trigger] next.blocks[i]).id] == (next.blocks[i].phase == Phase::Open) by {
            if i < s.blocks.len() {
                assert(next.blocks[i] == s.blocks[i]);
                assert(s.blocks[i].id != id);
            }
        }
        assert forall|i: int, j: int| 0 <= i < j < next.blocks.len() implies (
        #[trigger] next.blocks[i]).id != (#[trigger] next.blocks[j]).id by {
            assert(next.blocks[i] == s.blocks[i]);
            if j < s.blocks.len() {
                assert(next.blocks[j] == s.blocks[j]);
            }
        }
    }
}

/// Changing what an open block holds keeps the account of the blocks.
proof fn lemma_rewrite(s: AssemblerV, log: Seq<EventV>, id: Seq<char>, block: BlockV)
    requires
        tracks(s, log),
        locate(s.blocks, id, 0) is Some,
        block.id == block_of(s, id).id,
        block.phase == block_of(s, id).phase,
    ensures
        tracks(with_block(s, id, block), log),
        locate(with_block(s, id, block).blocks, id, 0) == locate(s.blocks, id, 0),
{
    lemma_locate(s.blocks, id, 0);
    let at = locate(s.blocks, id, 0)->0;
    let next = with_block(s, id, block);
    assert forall|other: Seq<char>| #[trigger] locate(next.blocks, other, 0) == locate(
        s.blocks,
        other,
        0,
    ) by {
        lemma_updated(s.blocks, at, block, other, 0);
    }
    lemma_updated(s.blocks, at, block, id, 0);
    assert forall|i: int| 0 <= i < next.blocks.len() implies follow(log)->0[(
    #[trigger] next.blocks[i]).id] == (next.blocks[i].phase == Phase::Open) by {
        assert(next.blocks[i].id == s.blocks[i].id);
        assert(next.blocks[i].phase == s.blocks[i].phase);
    }
    assert forall|i: int, j: int| 0 <= i < j < next.blocks.len() implies (
    #[trigger] next.blocks[i]).id != (#[trigger] next.blocks[j]).id by {
        assert(next.blocks[i].id == s.blocks[i].id);
        assert(next.blocks[j].id == s.blocks[j].id);
    }
}

/// A delta of an open block keeps the account of the blocks.
proof fn lemma_delta(s: AssemblerV, log: Seq<EventV>, id: Seq<char>, kind: KindV, text: Seq<char>)
    requires
        tracks(s, log),
        takes(s, id, kind),
    ensures
        tracks(s, log.push(delta(kind, id, text))),
{
    lemma_follow_push(log, delta(kind, id, text));
    lemma_locate(s.blocks, id, 0);
    assert(follow(log)->0.contains_key(id));
    assert(s.blocks[locate(s.blocks, id, 0)->0].id == id);
}

/// Appending a fragment keeps the account of the blocks, and so does taking
/// its delta out of the events.
pub proof fn lemma_append(
    s: AssemblerV,
    log: Seq<EventV>,
    id: Seq<char>,
    kind: KindV,
    text: Seq<char>,
)
    requires
        tracks(s, log),
    ensures
        tracks(append_step(s, id, kind, text).0, log + append_step(s, id, kind, text).1),
        s.completed || locate(s.blocks, id, 0) is Some ==> tracks(
            append_step(s, id, kind, text).0,
            log,
        ),
{
    let (started, opening) = start_step(s, id, kind);
    lemma_start(s, log, id, kind);
    lemma_follow_push(log, delta(kind, id, text));
    if takes(started, id, kind) {
        let block = block_of(started, id);
        let changed = BlockV { buffer: block.buffer + text, ..block };
        lemma_delta(started, log + opening, id, kind, text);
        assert((log + opening).push(delta(kind, id, text)) =~= log + opening.push(
            delta(kind, id, text),
        ));
        lemma_rewrite(started, log + opening.push(delta(kind, id, text)), id, changed);
        if locate(s.blocks, id, 0) is Some {
            lemma_rewrite(started, log, id, changed);
        }
    }
}

/// Settling a block keeps the account of the blocks.
pub proof fn lemma_reconcile(
    s: AssemblerV,
    log: Seq<EventV>,
    id: Seq<char>,
    kind: KindV,
    content: Seq<char>,
)
    requires
        tracks(s, log),
    ensures
        tracks(reconcile_step(s, id, kind, content).0, log + reconcile_step(s, id, kind, content).1),
{
    let (started, opening) = if content.len() == 0 {
        (s, Seq::empty())
    } else {
        start_step(s, id, kind)
    };
    lemma_start(s, log, id, kind);
    assert(log + Seq::<EventV>::empty() =~= log);
    if takes(started, id, kind) {
        let block = block_of(started, id);
        let changed = BlockV { buffer: content, ..block };
        if block.buffer.is_prefix_of(content) && block.buffer != content {
            let tail = delta(kind, id, content.skip(block.buffer.len() as int));
            lemma_delta(
                started,
                log + opening,
                id,
                kind,
                content.skip(block.buffer.len() as int),
            );
            assert((log + opening).push(tail) =~= log + opening.push(tail));
            lemma_rewrite(started, log + opening.push(tail), id, changed);
        } else {
            lemma_rewrite(started, log + opening, id, changed);
        }
    }
}

/// Signing a block keeps the account of the blocks.
pub proof fn lemma_signature(s: AssemblerV, log: Seq<EventV>, id: Seq<char>, signature: Seq<char>)
    requires
        tracks(s, log),
    ensures
        tracks(signature_step(s, id, signature).0, log + signature_step(s, id, signature).1),
{
    let (started, opening) = start_step(s, id, KindV::Reasoning);
    lemma_start(s, log, id, KindV::Reasoning);
    if takes(started, id, KindV::Reasoning) {
        lemma_rewrite(
            started,
            log + opening,
            id,
            BlockV { signature: Some(signature), ..block_of(started, id) },
        );
    }
}

/// Naming, annotating, and filling a block keep the account of the blocks.
pub proof fn lemma_quiet(
    s: AssemblerV,
    log: Seq<EventV>,
    id: Seq<char>,
    identity: KindV,
    namespace: Seq<char>,
    value: JsonV,
)
    requires
        tracks(s, log),
    ensures
        tracks(identity_step(s, id, identity), log),
        tracks(metadata_step(s, id, namespace, value), log),
        tracks(data_step(s, id, value), log),
        locate(identity_step(s, id, identity).blocks, id, 0) == locate(s.blocks, id, 0),
        locate(metadata_step(s, id, namespace, value).blocks, id, 0) == locate(s.blocks, id, 0),
{
    if locate(s.blocks, id, 0) is Some {
        let block = block_of(s, id);
        lemma_rewrite(s, log, id, BlockV { kind: identity, ..block });
        lemma_rewrite(
            s,
            log,
            id,
            BlockV { metadata: block.metadata.insert(namespace, value), ..block },
        );
        lemma_rewrite(s, log, id, BlockV { data: value, ..block });
    }
}

/// Ending a block keeps the account of the blocks.
pub proof fn lemma_end(s: AssemblerV, log: Seq<EventV>, id: Seq<char>, phase: Phase)
    requires
        tracks(s, log),
        phase != Phase::Open,
    ensures
        tracks(end_step(s, id, phase).0, log + end_step(s, id, phase).1),
{
    let (next, events) = end_step(s, id, phase);
    lemma_locate(s.blocks, id, 0);
    match locate(s.blocks, id, 0) {
        Some(at) if !s.completed && s.blocks[at].phase == Phase::Open => {
            let event = events[0];
            lemma_follow_push(log, event);
            assert(events =~= seq![event]);
            assert(follow(log)->0.contains_key(id));
            let block = BlockV { phase, ..s.blocks[at] };
            assert forall|other: Seq<char>| #[trigger] locate(next.blocks, other, 0) == locate(
                s.blocks,
                other,
                0,
            ) by {
                lemma_updated(s.blocks, at, block, other, 0);
            }
            assert forall|i: int| 0 <= i < next.blocks.len() implies follow(log.push(event))->0[(
            #[trigger] next.blocks[i]).id] == (next.blocks[i].phase == Phase::Open) by {
                assert(next.blocks[i].id == s.blocks[i].id);
                if i != at {
                    assert(s.blocks[i].id != s.blocks[at].id);
                    assert(next.blocks[i] == s.blocks[i]);
                }
            }
            assert forall|i: int, j: int| 0 <= i < j < next.blocks.len() implies (
            #[trigger] next.blocks[i]).id != (#[trigger] next.blocks[j]).id by {
                assert(next.blocks[i].id == s.blocks[i].id);
                assert(next.blocks[j].id == s.blocks[j].id);
            }
        },
        _ => {
            lemma_follow_push(log, EventV::Started { id: None });
        },
    }
}

/// The blocks with the first ones closed.
spec fn closed_up_to(blocks: Seq<BlockV>, n: int) -> Seq<BlockV> {
    Seq::new(blocks.len(), |i: int| if i < n { closed(blocks)[i] } else { blocks[i] })
}

/// Closing one more block is ending it.
proof fn lemma_close_next(s: AssemblerV, at: int)
    requires
        0 <= at < s.blocks.len(),
        forall|i: int, j: int|
            0 <= i < j < s.blocks.len() ==> (#[trigger] s.blocks[i]).id != (
            #[trigger] s.blocks[j]).id,
        s.blocks[at].phase == Phase::Open,
        !s.completed,
    ensures
        ({
            let before = AssemblerV { blocks: closed_up_to(s.blocks, at), ..s };
            let after = AssemblerV { blocks: closed_up_to(s.blocks, at + 1), ..s };
            &&& end_step(before, s.blocks[at].id, Phase::Closed).0 == after
            &&& closing(s.blocks.take(at), s.signatures) + end_step(
                before,
                s.blocks[at].id,
                Phase::Closed,
            ).1 == closing(s.blocks.take(at + 1), s.signatures)
        }),
{
    let before = AssemblerV { blocks: closed_up_to(s.blocks, at), ..s };
    let after = AssemblerV { blocks: closed_up_to(s.blocks, at + 1), ..s };
    assert forall|i: int, j: int| 0 <= i < j < before.blocks.len() implies (
    #[trigger] before.blocks[i]).id != (#[trigger] before.blocks[j]).id by {
        assert(before.blocks[i].id == s.blocks[i].id);
        assert(before.blocks[j].id == s.blocks[j].id);
    }
    lemma_located(before.blocks, at);
    assert(before.blocks[at] == s.blocks[at]);
    lemma_take(s.blocks, at);
    let (ended, events) = end_step(before, s.blocks[at].id, Phase::Closed);
    assert(ended.blocks =~= after.blocks);
    assert(closing(s.blocks.take(at), s.signatures) + events =~= closing(
        s.blocks.take(at + 1),
        s.signatures,
    ));
}

/// Closing the first blocks keeps the account of the blocks.
proof fn lemma_closing(s: AssemblerV, log: Seq<EventV>, n: int)
    requires
        tracks(s, log),
        0 <= n <= s.blocks.len(),
        !s.completed,
    ensures
        tracks(
            AssemblerV { blocks: closed_up_to(s.blocks, n), ..s },
            log + closing(s.blocks.take(n), s.signatures),
        ),
    decreases n,
{
    lemma_ends(s.blocks);
    if n == 0 {
        assert(closed_up_to(s.blocks, 0) =~= s.blocks);
        lemma_follow_push(log, EventV::Started { id: None });
    } else {
        let at = n - 1;
        lemma_closing(s, log, at);
        let before = AssemblerV { blocks: closed_up_to(s.blocks, at), ..s };
        let after = AssemblerV { blocks: closed_up_to(s.blocks, n), ..s };
        let earlier = closing(s.blocks.take(at), s.signatures);
        if s.blocks[at].phase == Phase::Open {
            lemma_close_next(s, at);
            lemma_end(before, log + earlier, s.blocks[at].id, Phase::Closed);
            let events = end_step(before, s.blocks[at].id, Phase::Closed).1;
            assert(log + earlier + events =~= log + (earlier + events));
        } else {
            lemma_take(s.blocks, at);
            assert(before.blocks =~= after.blocks);
        }
    }
}

/// A stream that completes sends one start, then deltas, then one end for
/// every block, and nothing is left open.
pub proof fn law_completing_ends_every_block(s: AssemblerV, log: Seq<EventV>)
    requires
        tracks(s, log),
        !s.completed,
    ensures
        tracks(complete_step(s).0, log + complete_step(s).1),
        all_ended(log + complete_step(s).1),
        complete_step(s).1.last() is Ended,
{
    let n = s.blocks.len() as int;
    let (next, events) = complete_step(s);
    lemma_closing(s, log, n);
    lemma_ends(s.blocks);
    let ends = closing(s.blocks, s.signatures);
    assert(closed_up_to(s.blocks, n) =~= closed(s.blocks));
    let before = AssemblerV { blocks: closed(s.blocks), ..s };
    lemma_aside(before, log + ends, events.last());
    assert((log + ends).push(events.last()) =~= log + events);
    lemma_same_blocks(before, next, log + events);
    assert forall|id: Seq<char>| #[trigger]
        follow(log + events)->0.contains_key(id) implies !follow(log + events)->0[id] by {
        lemma_locate(next.blocks, id, 0);
        let at = locate(next.blocks, id, 0)->0;
        assert(next.blocks[at].phase != Phase::Open);
    }
}

/// Completing is idempotent: a completed stream sends nothing more.
pub proof fn law_completing_is_idempotent(s: AssemblerV)
    ensures
        complete_step(complete_step(s).0) == (complete_step(s).0, Seq::<EventV>::empty()),
{
}

/// A stream that ended sends nothing more, whatever is asked of it, and none
/// of its blocks changes.
pub proof fn law_an_ended_stream_is_silent(
    s: AssemblerV,
    id: Seq<char>,
    kind: KindV,
    text: Seq<char>,
    value: JsonV,
    phase: Phase,
)
    requires
        s.completed,
    ensures
        start_step(s, id, kind) == (s, Seq::<EventV>::empty()),
        append_step(s, id, kind, text) == (s, Seq::<EventV>::empty()),
        reconcile_step(s, id, kind, text) == (s, Seq::<EventV>::empty()),
        signature_step(s, id, text) == (s, Seq::<EventV>::empty()),
        identity_step(s, id, kind) == s,
        metadata_step(s, id, text, value) == s,
        data_step(s, id, value) == s,
        end_step(s, id, phase) == (s, Seq::<EventV>::empty()),
        complete_step(s) == (s, Seq::<EventV>::empty()),
{
}

/// How many times a list of events ends the stream.
pub open spec fn endings(log: Seq<EventV>) -> nat
    decreases log.len(),
{
    if log.len() == 0 {
        0
    } else if log.last() is Ended {
        endings(log.drop_last()) + 1
    } else {
        endings(log.drop_last())
    }
}

/// Closing blocks does not end the stream.
proof fn lemma_closing_ends_nothing(blocks: Seq<BlockV>, signatures: Option<Seq<char>>)
    ensures
        endings(closing(blocks, signatures)) == 0,
    decreases blocks.len(),
{
    if blocks.len() > 0 {
        lemma_closing_ends_nothing(blocks.drop_last(), signatures);
        let rest = closing(blocks.drop_last(), signatures);
        if blocks.last().phase == Phase::Open {
            assert(closing(blocks, signatures).drop_last() =~= rest);
        }
    }
}

/// A completing stream ends exactly once.
pub proof fn law_a_stream_ends_once(s: AssemblerV)
    requires
        !s.completed,
    ensures
        endings(complete_step(s).1) == 1,
{
    lemma_closing_ends_nothing(s.blocks, s.signatures);
    let events = complete_step(s).1;
    assert(events.drop_last() =~= closing(s.blocks, s.signatures));
}

} // verus!
