//! Laws of deltas: what the deltas of a block say, one after the other, is what
//! the block ends with.

use vstd::prelude::*;

use super::blocks::follow;
use super::blocks::lemma_pushed;
use super::blocks::lemma_updated;
use crate::assembler::append_step;
use crate::assembler::block_of;
use crate::assembler::block_part;
use crate::assembler::closed;
use crate::assembler::closing;
use crate::assembler::complete_step;
use crate::assembler::data_step;
use crate::assembler::delta;
use crate::assembler::end_step;
use crate::assembler::fallback_call;
use crate::assembler::fresh;
use crate::assembler::identity_step;
use crate::assembler::kept_parts;
use crate::assembler::lemma_locate;
use crate::assembler::lemma_located_last;
use crate::assembler::locate;
use crate::assembler::metadata_step;
use crate::assembler::reconcile_step;
use crate::assembler::signature_step;
use crate::assembler::start_step;
use crate::assembler::takes;
use crate::assembler::with_block;
use crate::assembler::AssemblerV;
use crate::assembler::BlockV;
use crate::assembler::Phase;
use crate::json::JsonV;
use crate::response::without_calls;
use crate::response::EventV;
use crate::response::FinishV;
use crate::response::KindV;
use crate::types::PartV;

verus! {

broadcast use {vstd::seq::group_seq_axioms, vstd::map::group_map_axioms};

/// The texts of the deltas of a block, one after the other.
pub open spec fn heard(log: Seq<EventV>, id: Seq<char>) -> Seq<char>
    decreases log.len(),
{
    if log.len() == 0 {
        Seq::empty()
    } else {
        let rest = heard(log.drop_last(), id);
        match log.last() {
            EventV::TextDelta { block, text } => if block == id {
                rest + text
            } else {
                rest
            },
            EventV::ReasoningDelta { block, text } => if block == id {
                rest + text
            } else {
                rest
            },
            EventV::ToolCallDelta { block, text } => if block == id {
                rest + text
            } else {
                rest
            },
            _ => rest,
        }
    }
}

/// The text of a part that arrives in deltas: a text, a thought, or the input
/// of a call.
pub open spec fn spelled(part: PartV) -> Option<Seq<char>> {
    match part {
        PartV::Text { text } => Some(text),
        PartV::Reasoning(reasoning) => Some(reasoning.text),
        PartV::ToolCall(call) => Some(call.input.raw),
        _ => None,
    }
}

/// Whether every part that ended is what its deltas said, one after the other.
/// `calls` tells whether calls have deltas at all.
pub open spec fn adds_up(log: Seq<EventV>, calls: bool) -> bool {
    forall|j: int|
        0 <= j < log.len() ==> match #[trigger] log[j] {
            EventV::End { block, part } => match spelled(part) {
                Some(text) => if part is ToolCall && !calls {
                    heard(log, block).len() == 0
                } else {
                    heard(log, block) == text
                },
                None => true,
            },
            _ => true,
        }
}

/// What a block holds so far.
pub open spec fn text_of(s: AssemblerV, id: Seq<char>) -> Seq<char> {
    match locate(s.blocks, id, 0) {
        Some(at) => s.blocks[at].buffer,
        None => Seq::empty(),
    }
}

/// Whether a name is that of a call's block.
pub open spec fn is_call(s: AssemblerV, id: Seq<char>) -> bool {
    match locate(s.blocks, id, 0) {
        Some(at) => s.blocks[at].kind is ToolCall,
        None => false,
    }
}

/// Whether no two blocks have one name.
pub open spec fn distinct(s: AssemblerV) -> bool {
    forall|i: int, j: int|
        0 <= i < j < s.blocks.len() ==> (#[trigger] s.blocks[i]).id != (#[trigger] s.blocks[j]).id
}

/// Whether the blocks of a state are there, under their names and of their
/// sort, in a later one.
pub open spec fn persists(s: AssemblerV, next: AssemblerV) -> bool {
    &&& distinct(s) ==> distinct(next)
    &&& forall|id: Seq<char>|
        #![trigger locate(s.blocks, id, 0)]
        #![trigger locate(next.blocks, id, 0)]
        locate(s.blocks, id, 0) is Some ==> locate(next.blocks, id, 0) is Some && is_call(s, id)
            == is_call(next, id)
}

/// Whether an end tells what its block held and heard, as far as it is
/// followed.
pub open spec fn ends_well(
    s: AssemblerV,
    next: AssemblerV,
    sent: Seq<EventV>,
    j: int,
    calls: bool,
) -> bool {
    match sent[j] {
        EventV::End { block, part } => match spelled(part) {
            Some(text) => {
                &&& locate(next.blocks, block, 0) is Some
                &&& is_call(next, block) == part is ToolCall
                &&& calls || !(part is ToolCall) ==> text == text_of(s, block) + heard(
                    sent.take(j),
                    block,
                )
            },
            None => true,
        },
        _ => true,
    }
}

/// The names of the blocks that a list of events starts, in order.
pub open spec fn starts(log: Seq<EventV>) -> Seq<Seq<char>>
    decreases log.len(),
{
    if log.len() == 0 {
        Seq::empty()
    } else {
        match log.last() {
            EventV::Start { block, .. } => starts(log.drop_last()).push(block),
            _ => starts(log.drop_last()),
        }
    }
}

/// Whether a list of events ends a block with a part.
pub open spec fn ends_with(log: Seq<EventV>, block: Seq<char>, part: PartV) -> bool {
    exists|j: int| 0 <= j < log.len() && #[trigger] log[j] == (EventV::End { block, part })
}

/// The parts of some content that are no calls, in order, and all of them
/// unless the output limit was hit.
pub open spec fn uncut(content: Seq<PartV>, reason: FinishV) -> Seq<PartV> {
    if reason is Length {
        without_calls(content)
    } else {
        content
    }
}

/// The names of the blocks of a state, in order.
pub open spec fn names(s: AssemblerV) -> Seq<Seq<char>> {
    Seq::new(s.blocks.len(), |i: int| s.blocks[i].id)
}

/// Whether every block of a state has ended.
pub open spec fn shut(s: AssemblerV) -> bool {
    forall|i: int| 0 <= i < s.blocks.len() ==> (#[trigger] s.blocks[i]).phase != Phase::Open
}

/// Whether events account for the blocks of a step: they start each new one,
/// in order, they end each one that closed with the part it holds, a closed
/// one stays what it is, and the response they end with is what the blocks
/// hold.
pub open spec fn accounts(s: AssemblerV, next: AssemblerV, sent: Seq<EventV>) -> bool {
    &&& next.signatures == s.signatures
    &&& names(next) == names(s) + starts(sent)
    &&& s.completed ==> next.completed && next.blocks == s.blocks
    &&& forall|i: int|
        #![trigger s.blocks[i]]
        #![trigger next.blocks[i]]
        0 <= i < s.blocks.len() && s.blocks[i].phase != Phase::Open ==> next.blocks[i]
            == s.blocks[i]
    &&& forall|i: int|
        #![trigger next.blocks[i]]
        0 <= i < next.blocks.len() && next.blocks[i].phase != Phase::Open && (i < s.blocks.len()
            ==> s.blocks[i].phase == Phase::Open) ==> ends_with(
            sent,
            next.blocks[i].id,
            block_part(next.blocks[i], next.signatures),
        )
    &&& forall|j: int|
        0 <= j < sent.len() && #[trigger] sent[j] is Ended ==> {
            let response = sent[j]->response;
            &&& next.completed
            &&& shut(next)
            &&& response.content == uncut(
                kept_parts(next.blocks, next.signatures),
                response.finish_reason,
            )
        }
}

/// Whether a step discarded no block.
pub open spec fn keeps(s: AssemblerV, next: AssemblerV) -> bool {
    forall|i: int|
        #![trigger next.blocks[i]]
        0 <= i < next.blocks.len() && next.blocks[i].phase == Phase::Discarded ==> i
            < s.blocks.len() && s.blocks[i].phase == Phase::Discarded
}

/// Whether an event is no delta of a call.
pub open spec fn speaks(next: AssemblerV, event: EventV) -> bool {
    match event {
        EventV::ToolCallDelta { .. } => false,
        EventV::TextDelta { block, .. } => locate(next.blocks, block, 0) is Some && !is_call(
            next,
            block,
        ),
        EventV::ReasoningDelta { block, .. } => locate(next.blocks, block, 0) is Some && !is_call(
            next,
            block,
        ),
        _ => true,
    }
}

/// Whether events say what a step added to each block.
pub open spec fn faithful(
    s: AssemblerV,
    next: AssemblerV,
    sent: Seq<EventV>,
    calls: bool,
) -> bool {
    &&& persists(s, next)
    &&& forall|id: Seq<char>|
        calls || !is_call(next, id) ==> #[trigger] text_of(next, id) == text_of(s, id) + heard(
            sent,
            id,
        )
    &&& forall|j: int| 0 <= j < sent.len() ==> ends_well(s, next, sent, j, calls)
    &&& calls || forall|j: int| 0 <= j < sent.len() ==> speaks(next, #[trigger] sent[j])
    &&& accounts(s, next, sent)
    &&& calls || keeps(s, next)
}

proof fn lemma_heard_concat(a: Seq<EventV>, b: Seq<EventV>, id: Seq<char>)
    ensures
        heard(a + b, id) == heard(a, id) + heard(b, id),
    decreases b.len(),
{
    if b.len() == 0 {
        assert(a + b =~= a);
        assert(heard(a, id) + heard(b, id) =~= heard(a, id));
    } else {
        assert((a + b).last() == b.last());
        assert((a + b).drop_last() =~= a + b.drop_last());
        lemma_heard_concat(a, b.drop_last(), id);
        assert(heard(a + b, id) =~= heard(a, id) + heard(b, id));
    }
}

proof fn lemma_starts_concat(a: Seq<EventV>, b: Seq<EventV>)
    ensures
        starts(a + b) == starts(a) + starts(b),
    decreases b.len(),
{
    if b.len() == 0 {
        assert(a + b =~= a);
        assert(starts(a) + starts(b) =~= starts(a));
    } else {
        assert((a + b).last() == b.last());
        assert((a + b).drop_last() =~= a + b.drop_last());
        lemma_starts_concat(a, b.drop_last());
        assert(starts(a + b) =~= starts(a) + starts(b));
    }
}

proof fn lemma_ends_concat(a: Seq<EventV>, b: Seq<EventV>, block: Seq<char>, part: PartV)
    ensures
        ends_with(a, block, part) || ends_with(b, block, part) ==> ends_with(a + b, block, part),
{
    let event = EventV::End { block, part };
    if ends_with(a, block, part) {
        let j = choose|j: int| 0 <= j < a.len() && #[trigger] a[j] == event;
        assert((a + b)[j] == event);
    }
    if ends_with(b, block, part) {
        let j = choose|j: int| 0 <= j < b.len() && #[trigger] b[j] == event;
        assert((a + b)[a.len() + j] == event);
    }
}

/// Two accounted steps, one after the other.
proof fn lemma_accounts_then(
    a: AssemblerV,
    b: AssemblerV,
    first: Seq<EventV>,
    c: AssemblerV,
    second: Seq<EventV>,
)
    requires
        accounts(a, b, first),
        accounts(b, c, second),
    ensures
        accounts(a, c, first + second),
{
    let sent = first + second;
    lemma_starts_concat(first, second);
    assert(names(a) + starts(first) + starts(second) =~= names(a) + starts(sent));
    assert(names(b).len() == b.blocks.len() && names(a).len() == a.blocks.len());
    assert(names(c).len() == c.blocks.len());
    assert forall|i: int|
        #![trigger a.blocks[i]]
        #![trigger c.blocks[i]]
        0 <= i < a.blocks.len() && a.blocks[i].phase != Phase::Open implies c.blocks[i]
        == a.blocks[i] by {
        assert(b.blocks[i] == a.blocks[i]);
    }
    assert forall|i: int|
        #![trigger c.blocks[i]]
        0 <= i < c.blocks.len() && c.blocks[i].phase != Phase::Open && (i < a.blocks.len()
            ==> a.blocks[i].phase == Phase::Open) implies ends_with(
        sent,
        c.blocks[i].id,
        block_part(c.blocks[i], c.signatures),
    ) by {
        lemma_ends_concat(first, second, c.blocks[i].id, block_part(c.blocks[i], c.signatures));
        if i < b.blocks.len() && b.blocks[i].phase != Phase::Open {
            assert(c.blocks[i] == b.blocks[i]);
        }
    }
    assert forall|j: int| 0 <= j < sent.len() && #[trigger] sent[j] is Ended implies ({
        let response = sent[j]->response;
        &&& c.completed
        &&& shut(c)
        &&& response.content == uncut(kept_parts(c.blocks, c.signatures), response.finish_reason)
    }) by {
        if j < first.len() {
            assert(sent[j] == first[j]);
        } else {
            assert(sent[j] == second[j - first.len()]);
        }
    }
}

/// Two faithful steps, one after the other.
pub proof fn lemma_faithful_then(
    a: AssemblerV,
    b: AssemblerV,
    first: Seq<EventV>,
    c: AssemblerV,
    second: Seq<EventV>,
    calls: bool,
)
    requires
        faithful(a, b, first, calls),
        faithful(b, c, second, calls),
    ensures
        faithful(a, c, first + second, calls),
{
    let sent = first + second;
    lemma_accounts_then(a, b, first, c, second);
    assert(names(a).len() == a.blocks.len() && names(b).len() == b.blocks.len());
    assert(names(c).len() == c.blocks.len());
    if !calls {
        assert forall|i: int|
            #![trigger c.blocks[i]]
            0 <= i < c.blocks.len() && c.blocks[i].phase == Phase::Discarded implies i
            < a.blocks.len() && a.blocks[i].phase == Phase::Discarded by {
            assert(b.blocks[i].phase == Phase::Discarded);
        }
    }
    assert(persists(a, c)) by {
        assert forall|id: Seq<char>|
            #![trigger locate(a.blocks, id, 0)]
            #![trigger locate(c.blocks, id, 0)]
            locate(a.blocks, id, 0) is Some implies locate(c.blocks, id, 0) is Some && is_call(
            a,
            id,
        ) == is_call(c, id) by {
            assert(locate(b.blocks, id, 0) is Some);
        }
    }
    assert forall|id: Seq<char>| calls || !is_call(c, id) implies #[trigger] text_of(c, id)
        == text_of(a, id) + heard(sent, id) by {
        lemma_heard_concat(first, second, id);
        if !calls {
            if is_call(b, id) {
                assert(locate(b.blocks, id, 0) is Some);
            }
        }
        assert(text_of(b, id) == text_of(a, id) + heard(first, id));
        assert(text_of(a, id) + heard(first, id) + heard(second, id) =~= text_of(a, id) + heard(
            sent,
            id,
        ));
    }
    assert forall|j: int| 0 <= j < sent.len() implies ends_well(a, c, sent, j, calls) by {
        if j < first.len() {
            assert(ends_well(a, b, first, j, calls));
            assert(sent.take(j) =~= first.take(j));
            if let EventV::End { block, part } = first[j] {
                if spelled(part) is Some {
                    assert(locate(b.blocks, block, 0) is Some);
                }
            }
        } else {
            let k = j - first.len();
            assert(sent[j] == second[k]);
            assert(ends_well(b, c, second, k, calls));
            assert(sent.take(j) =~= first + second.take(k));
            if let EventV::End { block, part } = second[k] {
                lemma_heard_concat(first, second.take(k), block);
                if spelled(part) is Some && (calls || !(part is ToolCall)) {
                    if !calls && is_call(b, block) {
                        assert(locate(b.blocks, block, 0) is Some);
                    }
                    assert(text_of(b, block) == text_of(a, block) + heard(first, block));
                    assert(text_of(a, block) + heard(first, block) + heard(second.take(k), block)
                        =~= text_of(a, block) + heard(sent.take(j), block));
                }
            }
        }
    }
    if !calls {
        assert forall|j: int| 0 <= j < sent.len() implies speaks(c, #[trigger] sent[j]) by {
            if j < first.len() {
                assert(sent[j] == first[j]);
                assert(speaks(b, first[j]));
            } else {
                assert(sent[j] == second[j - first.len()]);
                assert(speaks(c, second[j - first.len()]));
            }
        }
    }
}

/// Events that no block is part of say nothing of any.
pub open spec fn aside(sent: Seq<EventV>) -> bool {
    forall|j: int|
        0 <= j < sent.len() ==> #[trigger] sent[j] is Started || sent[j] is Usage
}

proof fn lemma_aside_heard(sent: Seq<EventV>, id: Seq<char>)
    requires
        aside(sent),
    ensures
        heard(sent, id) == Seq::<char>::empty(),
        starts(sent) == Seq::<Seq<char>>::empty(),
    decreases sent.len(),
{
    if sent.len() > 0 {
        assert forall|j: int| 0 <= j < sent.drop_last().len() implies #[trigger] sent.drop_last()[j]
            is Started || sent.drop_last()[j] is Usage by {
            assert(sent[j] is Started || sent[j] is Usage);
        }
        lemma_aside_heard(sent.drop_last(), id);
        assert(sent[sent.len() - 1] is Started || sent[sent.len() - 1] is Usage);
    }
}

/// A step that leaves the blocks alone is faithful.
pub proof fn lemma_faithful_aside(
    s: AssemblerV,
    next: AssemblerV,
    sent: Seq<EventV>,
    calls: bool,
)
    requires
        next.blocks == s.blocks,
        next.signatures == s.signatures,
        next.completed == s.completed,
        aside(sent),
    ensures
        faithful(s, next, sent, calls),
{
    lemma_aside_heard(sent, Seq::empty());
    assert(names(next) =~= names(s) + starts(sent));
    assert forall|id: Seq<char>| calls || !is_call(next, id) implies #[trigger] text_of(next, id)
        == text_of(s, id) + heard(sent, id) by {
        lemma_aside_heard(sent, id);
        assert(text_of(s, id) + Seq::<char>::empty() =~= text_of(s, id));
    }
    assert forall|j: int| 0 <= j < sent.len() implies ends_well(s, next, sent, j, calls) by {
        assert(sent[j] is Started || sent[j] is Usage);
    }
    assert forall|j: int| 0 <= j < sent.len() implies speaks(next, #[trigger] sent[j]) by {
        assert(sent[j] is Started || sent[j] is Usage);
    }
}

/// Whether a step changed one block alone, under its name, and kept its sort.
pub open spec fn rewrote(s: AssemblerV, next: AssemblerV, id: Seq<char>, text: Seq<char>) -> bool {
    &&& persists(s, next)
    &&& accounts(s, next, Seq::empty())
    &&& keeps(s, next)
    &&& text_of(next, id) == text
    &&& forall|other: Seq<char>| other != id ==> #[trigger] text_of(next, other) == text_of(s, other)
}

/// Changing a block under its name, and keeping its sort.
proof fn lemma_rewrote(s: AssemblerV, id: Seq<char>, block: BlockV)
    requires
        locate(s.blocks, id, 0) is Some,
        !s.completed,
        block.id == id,
        block.kind is ToolCall == block_of(s, id).kind is ToolCall,
        block_of(s, id).phase == Phase::Open,
        block.phase == Phase::Open,
    ensures
        rewrote(s, with_block(s, id, block), id, block.buffer),
        locate(with_block(s, id, block).blocks, id, 0) is Some,
        is_call(with_block(s, id, block), id) == is_call(s, id),
{
    lemma_locate(s.blocks, id, 0);
    let at = locate(s.blocks, id, 0)->0;
    let next = with_block(s, id, block);
    assert(names(next) =~= names(s) + starts(Seq::empty()));
    assert forall|other: Seq<char>| #[trigger] locate(next.blocks, other, 0) == locate(
        s.blocks,
        other,
        0,
    ) by {
        lemma_updated(s.blocks, at, block, other, 0);
    }
    assert forall|other: Seq<char>| other != id implies #[trigger] text_of(next, other) == text_of(
        s,
        other,
    ) by {
        lemma_locate(s.blocks, other, 0);
        assert(locate(next.blocks, other, 0) == locate(s.blocks, other, 0));
    }
    assert forall|other: Seq<char>|
        #![trigger locate(s.blocks, other, 0)]
        #![trigger locate(next.blocks, other, 0)]
        locate(s.blocks, other, 0) is Some implies locate(next.blocks, other, 0) is Some
        && is_call(s, other) == is_call(next, other) by {
        lemma_locate(s.blocks, other, 0);
        assert(locate(next.blocks, other, 0) == locate(s.blocks, other, 0));
    }
    assert(locate(next.blocks, id, 0) == locate(s.blocks, id, 0));
    if distinct(s) {
        assert forall|i: int, j: int| 0 <= i < j < next.blocks.len() implies (
        #[trigger] next.blocks[i]).id != (#[trigger] next.blocks[j]).id by {
            assert(next.blocks[i].id == s.blocks[i].id);
            assert(next.blocks[j].id == s.blocks[j].id);
        }
    }
}

/// A rewritten block is faithful to its one delta.
proof fn lemma_delta_faithful(
    s: AssemblerV,
    next: AssemblerV,
    id: Seq<char>,
    kind: KindV,
    text: Seq<char>,
    calls: bool,
)
    requires
        rewrote(s, next, id, text_of(s, id) + text),
        calls || ((kind is Text || kind is Reasoning) && locate(next.blocks, id, 0) is Some
            && !is_call(next, id)),
    ensures
        faithful(s, next, seq![delta(kind, id, text)], calls),
{
    let sent = seq![delta(kind, id, text)];
    assert(sent.drop_last() =~= Seq::<EventV>::empty());
    reveal_with_fuel(heard, 2);
    reveal_with_fuel(starts, 2);
    assert(starts(sent) =~= starts(Seq::empty()));
    assert(accounts(s, next, sent)) by {
        assert forall|i: int|
            #![trigger next.blocks[i]]
            0 <= i < next.blocks.len() && next.blocks[i].phase != Phase::Open && (i
                < s.blocks.len() ==> s.blocks[i].phase == Phase::Open) implies ends_with(
            sent,
            next.blocks[i].id,
            block_part(next.blocks[i], next.signatures),
        ) by {
            assert(ends_with(
                Seq::empty(),
                next.blocks[i].id,
                block_part(next.blocks[i], next.signatures),
            ));
        }
    }
    assert forall|other: Seq<char>| calls || !is_call(next, other) implies #[trigger] text_of(
        next,
        other,
    ) == text_of(s, other) + heard(sent, other) by {
        assert(Seq::<char>::empty() + text =~= text);
        assert(text_of(s, other) + Seq::<char>::empty() =~= text_of(s, other));
    }
}

/// A rewritten block whose text stays needs no event.
proof fn lemma_still_faithful(s: AssemblerV, next: AssemblerV, id: Seq<char>, calls: bool)
    requires
        persists(s, next),
        accounts(s, next, Seq::empty()),
        keeps(s, next),
        forall|other: Seq<char>|
            calls || !is_call(next, other) ==> #[trigger] text_of(next, other) == text_of(s, other),
    ensures
        faithful(s, next, Seq::empty(), calls),
{
    assert forall|other: Seq<char>| calls || !is_call(next, other) implies #[trigger] text_of(
        next,
        other,
    ) == text_of(s, other) + heard(Seq::empty(), other) by {
        assert(text_of(s, other) + Seq::<char>::empty() =~= text_of(s, other));
    }
}

/// Starting a block is faithful, and adds to none.
pub proof fn lemma_faithful_start(s: AssemblerV, id: Seq<char>, kind: KindV, calls: bool)
    ensures
        faithful(s, start_step(s, id, kind).0, start_step(s, id, kind).1, calls),
        forall|other: Seq<char>| #[trigger]
            text_of(start_step(s, id, kind).0, other) == text_of(s, other),
        s.completed || locate(start_step(s, id, kind).0.blocks, id, 0) is Some,
        locate(s.blocks, id, 0) is None && !s.completed ==> is_call(start_step(s, id, kind).0, id)
            == kind is ToolCall,
{
    let (next, sent) = start_step(s, id, kind);
    if s.completed || locate(s.blocks, id, 0) is Some {
        lemma_faithful_aside(s, next, sent, calls);
    } else {
        let block = fresh(id, kind);
        lemma_located_last(s.blocks, block, 0);
        lemma_locate(s.blocks, id, 0);
        reveal_with_fuel(starts, 2);
        assert(sent.drop_last() =~= Seq::<EventV>::empty());
        assert(starts(sent) =~= seq![id]);
        assert(names(next) =~= names(s) + starts(sent));
        assert forall|other: Seq<char>| other != id implies #[trigger] locate(next.blocks, other, 0)
            == locate(s.blocks, other, 0) by {
            lemma_pushed(s.blocks, block, other, 0);
        }
        assert forall|other: Seq<char>| #[trigger] text_of(next, other) == text_of(s, other) by {
            if other != id {
                lemma_locate(s.blocks, other, 0);
                assert(locate(next.blocks, other, 0) == locate(s.blocks, other, 0));
            }
        }
        assert forall|other: Seq<char>|
            #![trigger locate(s.blocks, other, 0)]
            #![trigger locate(next.blocks, other, 0)]
            locate(s.blocks, other, 0) is Some implies locate(next.blocks, other, 0) is Some
            && is_call(s, other) == is_call(next, other) by {
            lemma_locate(s.blocks, other, 0);
            if other != id {
                assert(locate(next.blocks, other, 0) == locate(s.blocks, other, 0));
            }
        }
        if distinct(s) {
            assert forall|i: int, j: int| 0 <= i < j < next.blocks.len() implies (
            #[trigger] next.blocks[i]).id != (#[trigger] next.blocks[j]).id by {
                assert(next.blocks[i] == s.blocks[i]);
                if j < s.blocks.len() {
                    assert(next.blocks[j] == s.blocks[j]);
                }
            }
        }
        assert forall|other: Seq<char>| calls || !is_call(next, other) implies #[trigger] text_of(
            next,
            other,
        ) == text_of(s, other) + heard(sent, other) by {
            reveal_with_fuel(heard, 2);
            assert(sent.drop_last() =~= Seq::<EventV>::empty());
            assert(text_of(s, other) + Seq::<char>::empty() =~= text_of(s, other));
        }
    }
}

/// Appending a fragment is faithful: its delta says what was added.
pub proof fn lemma_faithful_append(
    s: AssemblerV,
    id: Seq<char>,
    kind: KindV,
    text: Seq<char>,
    calls: bool,
)
    requires
        calls || kind is Text || kind is Reasoning,
    ensures
        faithful(s, append_step(s, id, kind, text).0, append_step(s, id, kind, text).1, calls),
{
    let (started, opening) = start_step(s, id, kind);
    lemma_faithful_start(s, id, kind, calls);
    if takes(started, id, kind) {
        let block = block_of(started, id);
        lemma_locate(started.blocks, id, 0);
        let changed = BlockV { buffer: block.buffer + text, ..block };
        lemma_rewrote(started, id, changed);
        let next = with_block(started, id, changed);
        lemma_delta_faithful(started, next, id, kind, text, calls);
        lemma_faithful_then(s, started, opening, next, seq![delta(kind, id, text)], calls);
        assert(opening + seq![delta(kind, id, text)] =~= opening.push(delta(kind, id, text)));
    }
}

/// Settling a block is faithful where its text was not replaced: the missing
/// tail is what its delta says.
pub proof fn lemma_faithful_reconcile(
    s: AssemblerV,
    id: Seq<char>,
    kind: KindV,
    content: Seq<char>,
)
    requires
        text_of(s, id).is_prefix_of(text_of(reconcile_step(s, id, kind, content).0, id)),
    ensures
        faithful(
            s,
            reconcile_step(s, id, kind, content).0,
            reconcile_step(s, id, kind, content).1,
            true,
        ),
{
    let none = Seq::<EventV>::empty();
    let (started, opening) = if content.len() == 0 {
        (s, none)
    } else {
        start_step(s, id, kind)
    };
    lemma_faithful_start(s, id, kind, true);
    lemma_faithful_aside(s, s, none, true);
    if takes(started, id, kind) {
        let block = block_of(started, id);
        lemma_locate(started.blocks, id, 0);
        let changed = BlockV { buffer: content, ..block };
        lemma_rewrote(started, id, changed);
        let whole = with_block(started, id, changed);
        assert(text_of(started, id) == block.buffer);
        assert(text_of(s, id) == block.buffer);
        if block.buffer.is_prefix_of(content) && block.buffer != content {
            let tail = content.skip(block.buffer.len() as int);
            assert(block.buffer + tail =~= content);
            lemma_delta_faithful(started, whole, id, kind, tail, true);
            lemma_faithful_then(s, started, opening, whole, seq![delta(kind, id, tail)], true);
            assert(opening + seq![delta(kind, id, tail)] =~= opening.push(delta(kind, id, tail)));
        } else {
            assert(block.buffer == content);
            lemma_still_faithful(started, whole, id, true);
            lemma_faithful_then(s, started, opening, whole, none, true);
            assert(opening + none =~= opening);
        }
    }
}

/// Signing a block is faithful.
pub proof fn lemma_faithful_signature(
    s: AssemblerV,
    id: Seq<char>,
    signature: Seq<char>,
    calls: bool,
)
    ensures
        faithful(s, signature_step(s, id, signature).0, signature_step(s, id, signature).1, calls),
{
    let (started, opening) = start_step(s, id, KindV::Reasoning);
    lemma_faithful_start(s, id, KindV::Reasoning, calls);
    if takes(started, id, KindV::Reasoning) {
        let block = block_of(started, id);
        lemma_locate(started.blocks, id, 0);
        let changed = BlockV { signature: Some(signature), ..block };
        lemma_rewrote(started, id, changed);
        let next = with_block(started, id, changed);
        lemma_still_faithful(started, next, id, calls);
        lemma_faithful_then(s, started, opening, next, Seq::empty(), calls);
        assert(opening + Seq::<EventV>::empty() =~= opening);
    }
}

/// Naming, annotating and filling a block are faithful, and add to none.
pub proof fn lemma_faithful_quiet(
    s: AssemblerV,
    id: Seq<char>,
    identity: KindV,
    namespace: Seq<char>,
    value: JsonV,
    calls: bool,
)
    ensures
        faithful(s, identity_step(s, id, identity), Seq::empty(), calls),
        faithful(s, metadata_step(s, id, namespace, value), Seq::empty(), calls),
        faithful(s, data_step(s, id, value), Seq::empty(), calls),
        forall|other: Seq<char>| #[trigger]
            text_of(identity_step(s, id, identity), other) == text_of(s, other),
        forall|other: Seq<char>| #[trigger]
            text_of(metadata_step(s, id, namespace, value), other) == text_of(s, other),
        forall|other: Seq<char>| #[trigger]
            text_of(data_step(s, id, value), other) == text_of(s, other),
        is_call(metadata_step(s, id, namespace, value), id) == is_call(s, id),
{
    lemma_faithful_aside(s, s, Seq::empty(), calls);
    if locate(s.blocks, id, 0) is Some {
        let block = block_of(s, id);
        lemma_locate(s.blocks, id, 0);
        if identity is ToolCall && takes(s, id, identity) {
            lemma_rewrote(s, id, BlockV { kind: identity, ..block });
            lemma_still_faithful(s, identity_step(s, id, identity), id, calls);
        }
        if takes(s, id, fallback_call(id)) {
            lemma_rewrote(
                s,
                id,
                BlockV { metadata: block.metadata.insert(namespace, value), ..block },
            );
            lemma_still_faithful(s, metadata_step(s, id, namespace, value), id, calls);
        }
        if takes(s, id, KindV::Opaque { kind: Seq::empty() }) {
            lemma_rewrote(s, id, BlockV { data: value, ..block });
            lemma_still_faithful(s, data_step(s, id, value), id, calls);
        }
    }
}

/// A call that takes its input whole, without a delta, is faithful where calls
/// have none.
pub proof fn lemma_faithful_mute(s: AssemblerV, id: Seq<char>, text: Seq<char>)
    requires
        locate(s.blocks, id, 0) is Some || s.completed,
    ensures
        faithful(s, append_step(s, id, fallback_call(id), text).0, Seq::empty(), false),
{
    let kind = fallback_call(id);
    lemma_faithful_aside(s, s, Seq::empty(), false);
    if takes(s, id, kind) {
        let block = block_of(s, id);
        lemma_locate(s.blocks, id, 0);
        let changed = BlockV { buffer: block.buffer + text, ..block };
        lemma_rewrote(s, id, changed);
        lemma_still_faithful(s, with_block(s, id, changed), id, false);
    }
}

/// Closing a block under its name keeps every name, every sort and every text.
proof fn lemma_closed_one(s: AssemblerV, id: Seq<char>, block: BlockV)
    requires
        locate(s.blocks, id, 0) is Some,
        block == (BlockV { phase: block.phase, ..block_of(s, id) }),
    ensures
        persists(s, with_block(s, id, block)),
        forall|other: Seq<char>| #[trigger]
            text_of(with_block(s, id, block), other) == text_of(s, other),
        locate(with_block(s, id, block).blocks, id, 0) == locate(s.blocks, id, 0),
        is_call(with_block(s, id, block), id) == is_call(s, id),
{
    lemma_locate(s.blocks, id, 0);
    let at = locate(s.blocks, id, 0)->0;
    let next = with_block(s, id, block);
    assert forall|other: Seq<char>| #[trigger] locate(next.blocks, other, 0) == locate(
        s.blocks,
        other,
        0,
    ) by {
        lemma_updated(s.blocks, at, block, other, 0);
    }
    assert forall|other: Seq<char>| #[trigger] text_of(next, other) == text_of(s, other) by {
        lemma_locate(s.blocks, other, 0);
        assert(locate(next.blocks, other, 0) == locate(s.blocks, other, 0));
    }
    assert forall|other: Seq<char>|
        #![trigger locate(s.blocks, other, 0)]
        #![trigger locate(next.blocks, other, 0)]
        locate(s.blocks, other, 0) is Some implies locate(next.blocks, other, 0) is Some
        && is_call(s, other) == is_call(next, other) by {
        lemma_locate(s.blocks, other, 0);
        assert(locate(next.blocks, other, 0) == locate(s.blocks, other, 0));
    }
    if distinct(s) {
        assert forall|i: int, j: int| 0 <= i < j < next.blocks.len() implies (
        #[trigger] next.blocks[i]).id != (#[trigger] next.blocks[j]).id by {
            assert(next.blocks[i].id == s.blocks[i].id);
            assert(next.blocks[j].id == s.blocks[j].id);
        }
    }
}

/// Ending a block is faithful: its end tells what it held.
pub proof fn lemma_faithful_end(s: AssemblerV, id: Seq<char>, phase: Phase, calls: bool)
    requires
        phase != Phase::Open,
        calls || phase != Phase::Discarded,
    ensures
        faithful(s, end_step(s, id, phase).0, end_step(s, id, phase).1, calls),
        forall|other: Seq<char>| #[trigger]
            text_of(end_step(s, id, phase).0, other) == text_of(s, other),
{
    let (next, sent) = end_step(s, id, phase);
    lemma_faithful_aside(s, s, Seq::empty(), calls);
    lemma_locate(s.blocks, id, 0);
    match locate(s.blocks, id, 0) {
        Some(at) if !s.completed && s.blocks[at].phase == Phase::Open => {
            let changed = BlockV { phase, ..s.blocks[at] };
            lemma_closed_one(s, id, changed);
            assert(sent.drop_last() =~= Seq::<EventV>::empty());
            assert(sent.take(0) =~= Seq::<EventV>::empty());
            reveal_with_fuel(heard, 2);
            assert forall|other: Seq<char>| calls || !is_call(next, other) implies #[trigger] text_of(
                next,
                other,
            ) == text_of(s, other) + heard(sent, other) by {
                assert(text_of(s, other) + Seq::<char>::empty() =~= text_of(s, other));
            }
            assert(text_of(s, id) + Seq::<char>::empty() =~= text_of(s, id));
            assert(ends_well(s, next, sent, 0, calls));
            reveal_with_fuel(starts, 2);
            assert(starts(sent) =~= Seq::<Seq<char>>::empty());
            assert(names(next) =~= names(s) + starts(sent));
            assert(ends_with(sent, next.blocks[at].id, block_part(next.blocks[at], s.signatures)))
                by {
                assert(sent[0] == (EventV::End {
                    block: next.blocks[at].id,
                    part: block_part(next.blocks[at], s.signatures),
                }));
            }
        },
        _ => {},
    }
}

/// The ends of the first blocks tell what they held.
proof fn lemma_closing_told(s: AssemblerV, next: AssemblerV, n: int, calls: bool)
    requires
        distinct(s),
        0 <= n <= s.blocks.len(),
        next.blocks == closed(s.blocks),
    ensures
        ({
            let sent = closing(s.blocks.take(n), s.signatures);
            &&& forall|id: Seq<char>| heard(sent, id) == Seq::<char>::empty()
            &&& forall|j: int| 0 <= j < sent.len() ==> ends_well(s, next, sent, j, calls)
            &&& forall|j: int| 0 <= j < sent.len() ==> #[trigger] sent[j] is End
            &&& starts(sent) == Seq::<Seq<char>>::empty()
            &&& forall|i: int|
                0 <= i < n && s.blocks[i].phase == Phase::Open ==> ends_with(
                    sent,
                    (#[trigger] s.blocks[i]).id,
                    block_part(s.blocks[i], s.signatures),
                )
        }),
    decreases n,
{
    let sent = closing(s.blocks.take(n), s.signatures);
    if n > 0 {
        lemma_closing_told(s, next, n - 1, calls);
        let block = s.blocks[n - 1];
        let before = closing(s.blocks.take(n - 1), s.signatures);
        assert(s.blocks.take(n).drop_last() =~= s.blocks.take(n - 1));
        assert(s.blocks.take(n).last() == block);
        if block.phase == Phase::Open {
            let event = EventV::End { block: block.id, part: block_part(block, s.signatures) };
            assert(sent == before.push(event));
            assert(sent.drop_last() =~= before);
            lemma_found(s.blocks, n - 1);
            assert(distinct(next)) by {
                assert forall|i: int, j: int| 0 <= i < j < next.blocks.len() implies (
                #[trigger] next.blocks[i]).id != (#[trigger] next.blocks[j]).id by {
                    assert(next.blocks[i].id == s.blocks[i].id);
                    assert(next.blocks[j].id == s.blocks[j].id);
                }
            }
            lemma_found(next.blocks, n - 1);
            assert forall|id: Seq<char>| heard(sent, id) == Seq::<char>::empty() by {
                assert(heard(before, id) == Seq::<char>::empty());
            }
            assert forall|j: int| 0 <= j < sent.len() implies #[trigger] sent[j] is End by {
                if j < before.len() {
                    assert(before[j] is End);
                }
            }
            assert forall|i: int| 0 <= i < n && s.blocks[i].phase == Phase::Open implies ends_with(
                sent,
                (#[trigger] s.blocks[i]).id,
                block_part(s.blocks[i], s.signatures),
            ) by {
                if i < n - 1 {
                    lemma_ends_concat(
                        before,
                        seq![event],
                        s.blocks[i].id,
                        block_part(s.blocks[i], s.signatures),
                    );
                    assert(before + seq![event] =~= sent);
                } else {
                    assert(sent[before.len() as int] == event);
                }
            }
            assert forall|j: int| 0 <= j < sent.len() implies ends_well(
                s,
                next,
                sent,
                j,
                calls,
            ) by {
                if j < before.len() {
                    assert(ends_well(s, next, before, j, calls));
                    assert(sent.take(j) =~= before.take(j));
                } else {
                    assert(sent.take(j) =~= before);
                    assert(heard(before, block.id) == Seq::<char>::empty());
                    assert(text_of(s, block.id) + Seq::<char>::empty() =~= block.buffer);
                }
            }
        } else {
            assert(sent == before);
        }
    }
}

/// A name is found where its block stands.
proof fn lemma_found(blocks: Seq<BlockV>, at: int)
    requires
        0 <= at < blocks.len(),
        forall|i: int, j: int|
            0 <= i < j < blocks.len() ==> (#[trigger] blocks[i]).id != (#[trigger] blocks[j]).id,
    ensures
        locate(blocks, blocks[at].id, 0) == Some(at),
{
    lemma_locate(blocks, blocks[at].id, 0);
    let found = locate(blocks, blocks[at].id, 0);
    if found is Some {
        if found->0 < at {
            assert(blocks[found->0].id != blocks[at].id);
        }
    } else {
        assert(blocks[at].id != blocks[at].id);
    }
}

/// Closing leaves where every name stands.
proof fn lemma_closed_located(blocks: Seq<BlockV>, id: Seq<char>, from: int)
    requires
        0 <= from,
    ensures
        locate(closed(blocks), id, from) == locate(blocks, id, from),
    decreases blocks.len() - from,
{
    if from < blocks.len() {
        lemma_closed_located(blocks, id, from + 1);
    }
}

/// Closing keeps the content.
proof fn lemma_kept_closed(blocks: Seq<BlockV>, signatures: Option<Seq<char>>)
    ensures
        kept_parts(closed(blocks), signatures) == kept_parts(blocks, signatures),
    decreases blocks.len(),
{
    if blocks.len() > 0 {
        lemma_kept_closed(blocks.drop_last(), signatures);
        assert(closed(blocks).drop_last() =~= closed(blocks.drop_last()));
    }
}

/// Completing is faithful: every end tells what its block held.
pub proof fn lemma_faithful_complete(s: AssemblerV, calls: bool)
    requires
        distinct(s),
    ensures
        faithful(s, complete_step(s).0, complete_step(s).1, calls),
{
    let (next, sent) = complete_step(s);
    if s.completed {
        lemma_faithful_aside(s, s, Seq::empty(), calls);
    } else {
        let n = s.blocks.len() as int;
        assert(s.blocks.take(n) =~= s.blocks);
        lemma_closing_told(s, next, n, calls);
        let ends = closing(s.blocks, s.signatures);
        assert(sent.drop_last() =~= ends);
        lemma_kept_closed(s.blocks, s.signatures);
        assert(names(next) =~= names(s) + starts(sent));
        assert forall|i: int|
            #![trigger next.blocks[i]]
            0 <= i < next.blocks.len() && next.blocks[i].phase != Phase::Open && (i
                < s.blocks.len() ==> s.blocks[i].phase == Phase::Open) implies ends_with(
            sent,
            next.blocks[i].id,
            block_part(next.blocks[i], next.signatures),
        ) by {
            let event = sent.last();
            assert(ends_with(ends, s.blocks[i].id, block_part(s.blocks[i], s.signatures)));
            lemma_ends_concat(
                ends,
                seq![event],
                s.blocks[i].id,
                block_part(s.blocks[i], s.signatures),
            );
            assert(ends + seq![event] =~= sent);
        }
        assert forall|j: int| 0 <= j < sent.len() && #[trigger] sent[j] is Ended implies ({
            let response = sent[j]->response;
            &&& next.completed
            &&& shut(next)
            &&& response.content == uncut(
                kept_parts(next.blocks, next.signatures),
                response.finish_reason,
            )
        }) by {
            if j < ends.len() {
                assert(sent[j] == ends[j]);
                assert(ends[j] is End);
            }
        }
        assert forall|id: Seq<char>| #[trigger] locate(next.blocks, id, 0) == locate(
            s.blocks,
            id,
            0,
        ) by {
            lemma_closed_located(s.blocks, id, 0);
        }
        assert forall|id: Seq<char>| calls || !is_call(next, id) implies #[trigger] text_of(
            next,
            id,
        ) == text_of(s, id) + heard(sent, id) by {
            lemma_locate(s.blocks, id, 0);
            assert(locate(next.blocks, id, 0) == locate(s.blocks, id, 0));
            assert(heard(ends, id) == Seq::<char>::empty());
            assert(text_of(s, id) + Seq::<char>::empty() =~= text_of(s, id));
        }
        assert forall|id: Seq<char>|
            #![trigger locate(s.blocks, id, 0)]
            #![trigger locate(next.blocks, id, 0)]
            locate(s.blocks, id, 0) is Some implies locate(next.blocks, id, 0) is Some && is_call(
            s,
            id,
        ) == is_call(next, id) by {
            lemma_locate(s.blocks, id, 0);
            assert(locate(next.blocks, id, 0) == locate(s.blocks, id, 0));
        }
        assert(distinct(next)) by {
            assert forall|i: int, j: int| 0 <= i < j < next.blocks.len() implies (
            #[trigger] next.blocks[i]).id != (#[trigger] next.blocks[j]).id by {
                assert(next.blocks[i].id == s.blocks[i].id);
                assert(next.blocks[j].id == s.blocks[j].id);
            }
        }
        assert forall|j: int| 0 <= j < sent.len() implies ends_well(s, next, sent, j, calls) by {
            if j < ends.len() {
                assert(sent[j] == ends[j]);
                assert(sent.take(j) =~= ends.take(j));
                assert(ends_well(s, next, ends, j, calls));
            }
        }
        assert forall|j: int| 0 <= j < sent.len() implies speaks(next, #[trigger] sent[j]) by {
            if j < ends.len() {
                assert(sent[j] == ends[j]);
            }
        }
    }
}

/// A block that ended hears nothing more.
proof fn lemma_ended_hears_nothing(log: Seq<EventV>, j: int, id: Seq<char>)
    requires
        follow(log) is Some,
        0 <= j < log.len(),
        log[j] matches EventV::End { block, .. } && block == id,
    ensures
        heard(log, id) == heard(log.take(j), id),
        follow(log)->0.contains_key(id),
        !follow(log)->0[id],
    decreases log.len(),
{
    let fewer = log.drop_last();
    if j == log.len() - 1 {
        assert(log.take(j) =~= fewer);
    } else {
        assert(fewer[j] == log[j]);
        lemma_ended_hears_nothing(fewer, j, id);
        assert(fewer.take(j) =~= log.take(j));
    }
}

/// A stream without call deltas hears nothing of calls.
proof fn lemma_mute(log: Seq<EventV>, id: Seq<char>)
    requires
        forall|j: int| 0 <= j < log.len() ==> !(#[trigger] log[j] is ToolCallDelta),
        forall|j: int|
            0 <= j < log.len() ==> match #[trigger] log[j] {
                EventV::TextDelta { block, .. } => block != id,
                EventV::ReasoningDelta { block, .. } => block != id,
                _ => true,
            },
    ensures
        heard(log, id) == Seq::<char>::empty(),
    decreases log.len(),
{
    if log.len() > 0 {
        let fewer = log.drop_last();
        assert forall|j: int| 0 <= j < fewer.len() implies !(#[trigger] fewer[j]
            is ToolCallDelta) by {
            assert(fewer[j] == log[j]);
        }
        assert forall|j: int| 0 <= j < fewer.len() implies match #[trigger] fewer[j] {
            EventV::TextDelta { block, .. } => block != id,
            EventV::ReasoningDelta { block, .. } => block != id,
            _ => true,
        } by {
            assert(fewer[j] == log[j]);
        }
        lemma_mute(fewer, id);
        assert(!(log[log.len() - 1] is ToolCallDelta));
    }
}

/// The deltas of a stream that began with nothing add up.
pub proof fn lemma_adds_up(s: AssemblerV, next: AssemblerV, log: Seq<EventV>)
    requires
        s.blocks.len() == 0,
        faithful(s, next, log, true),
        follow(log) is Some,
    ensures
        adds_up(log, true),
{
    assert forall|j: int| 0 <= j < log.len() implies match #[trigger] log[j] {
        EventV::End { block, part } => match spelled(part) {
            Some(text) => heard(log, block) == text,
            None => true,
        },
        _ => true,
    } by {
        assert(ends_well(s, next, log, j, true));
        if let EventV::End { block, part } = log[j] {
            lemma_ended_hears_nothing(log, j, block);
            assert(Seq::<char>::empty() + heard(log.take(j), block) =~= heard(
                log.take(j),
                block,
            ));
        }
    }
}

/// The deltas of a stream that began with nothing, and whose calls have none,
/// add up.
pub proof fn lemma_speech_adds_up(s: AssemblerV, next: AssemblerV, log: Seq<EventV>)
    requires
        s.blocks.len() == 0,
        faithful(s, next, log, false),
        follow(log) is Some,
    ensures
        adds_up(log, false),
{
    assert forall|j: int| 0 <= j < log.len() implies match #[trigger] log[j] {
        EventV::End { block, part } => match spelled(part) {
            Some(text) => if part is ToolCall {
                heard(log, block).len() == 0
            } else {
                heard(log, block) == text
            },
            None => true,
        },
        _ => true,
    } by {
        assert(ends_well(s, next, log, j, false));
        if let EventV::End { block, part } = log[j] {
            lemma_ended_hears_nothing(log, j, block);
            assert(Seq::<char>::empty() + heard(log.take(j), block) =~= heard(
                log.take(j),
                block,
            ));
            if part is ToolCall {
                assert(is_call(next, block));
                assert forall|k: int| 0 <= k < log.len() implies !(#[trigger] log[k]
                    is ToolCallDelta) by {
                    assert(speaks(next, log[k]));
                }
                assert forall|k: int| 0 <= k < log.len() implies match #[trigger] log[k] {
                    EventV::TextDelta { block: other, .. } => other != block,
                    EventV::ReasoningDelta { block: other, .. } => other != block,
                    _ => true,
                } by {
                    assert(speaks(next, log[k]));
                }
                lemma_mute(log, block);
            }
        }
    }
}

} // verus!
