//! Laws of whole Chat Completions transcripts: a stream completes with the
//! content of the message its chunks add up to.

use vstd::prelude::*;

use super::agreement::lemma_kept_push;
use super::identity::lemma_decimal_injective;
use super::replay::law_absorbing_changes_one_entry;
use super::streams::chat_run;
use crate::assembler::append_step;
use crate::assembler::begun;
use crate::assembler::block_part;
use crate::assembler::called;
use crate::assembler::fresh;
use crate::assembler::identity_step;
use crate::assembler::kept_parts;
use crate::assembler::lemma_locate;
use crate::assembler::start_step;
use crate::assembler::AssemblerV;
use crate::assembler::BlockV;
use crate::content::finish_of;
use crate::content::promoted;
use crate::json::JsonV;
use crate::openai_chat::decode::call_part;
use crate::openai_chat::decode::call_parts;
use crate::openai_chat::decode::decoded;
use crate::openai_chat::decode::filled;
use crate::openai_chat::decode::first_choice;
use crate::openai_chat::decode::inner_text;
use crate::openai_chat::decode::reported_cost;
use crate::openai_chat::decode::some_text;
use crate::openai_chat::decode::spoken_parts;
use crate::openai_chat::decode::text_or_empty;
use crate::openai_chat::decode::thought_text;
use crate::openai_chat::decode::usage_counts;
use crate::openai_chat::decode::visible_text;
use crate::openai_chat::reasoning_details::absorbed_all;
use crate::openai_chat::reasoning_details::kind_text;
use crate::openai_chat::reasoning_details::payload_details;
use crate::openai_chat::reasoning_details::whole_details;
use crate::openai_chat::reasoning_details::REASONING_DETAILS;
use crate::openai_chat::stream::begin_step;
use crate::openai_chat::stream::call_step;
use crate::openai_chat::stream::calls_step;
use crate::openai_chat::stream::chunk_delta;
use crate::openai_chat::stream::details_step;
use crate::openai_chat::stream::event_step;
use crate::openai_chat::stream::finish_step;
use crate::openai_chat::stream::fragment_step;
use crate::openai_chat::stream::fresh_chat;
use crate::openai_chat::stream::latest;
use crate::openai_chat::stream::slot_at;
use crate::openai_chat::stream::slot_block;
use crate::openai_chat::stream::slot_identity;
use crate::openai_chat::stream::slot_kind;
use crate::openai_chat::stream::spoken_step;
use crate::openai_chat::stream::totals_step;
use crate::openai_chat::stream::ChatV;
use crate::openai_chat::stream::SlotV;
use crate::openai_chat::stream::REASONING_BLOCK;
use crate::openai_chat::stream::REASONING_DETAILS_BLOCK;
use crate::openai_chat::stream::TERMINATOR;
use crate::openai_chat::stream::TEXT_BLOCK;
use crate::response::finished;
use crate::response::CostV;
use crate::response::EventV;
use crate::response::FinishV;
use crate::response::KindV;
use crate::response::ResponseV;
use crate::response::TokenCounts;
use crate::serial::parsed;
use crate::text::decimal;
use crate::types::PartV;
use crate::types::RouteV;

verus! {

broadcast use {vstd::seq::group_seq_axioms, vstd::map::group_map_axioms};

/// A tool call as far as its fragments have come.
#[verifier::ext_equal]
pub struct Call {
    pub slot: SlotV,
    pub arguments: Seq<char>,
}

/// What the chunks of a stream add up to.
#[verifier::ext_equal]
pub struct Gathered {
    pub details: Seq<JsonV>,
    pub thought: Seq<char>,
    pub text: Seq<char>,
    pub calls: Seq<Call>,
    pub finish: Option<FinishV>,
    pub id: Option<Seq<char>>,
    pub usage: TokenCounts,
    pub cost: Option<CostV>,
}

/// What no chunk adds up to.
pub open spec fn nothing() -> Gathered {
    Gathered {
        details: Seq::empty(),
        thought: Seq::empty(),
        text: Seq::empty(),
        calls: Seq::empty(),
        finish: None,
        id: None,
        usage: TokenCounts::zero(),
        cost: None,
    }
}

/// The slots of some calls.
pub open spec fn slots_of(calls: Seq<Call>) -> Seq<SlotV> {
    calls.map_values(|call: Call| call.slot)
}

/// The calls with one fragment added: to the call in its slot, or as a call of
/// its own.
pub open spec fn with_fragment(calls: Seq<Call>, fragment: JsonV) -> Seq<Call> {
    let index = fragment.unsigned_at("index"@)->0;
    let slot = slot_identity(
        slots_of(calls),
        index,
        fragment.text_at("id"@),
        inner_text(fragment, "function"@, "name"@),
    );
    let arguments = text_or_empty(inner_text(fragment, "function"@, "arguments"@));
    match slot_at(slots_of(calls), index, 0) {
        Some(at) => calls.update(at, Call { slot, arguments: calls[at].arguments + arguments }),
        None => calls.push(Call { slot, arguments }),
    }
}

/// The calls with some fragments added.
pub open spec fn with_fragments(calls: Seq<Call>, fragments: Seq<JsonV>) -> Seq<Call>
    decreases fragments.len(),
{
    if fragments.len() == 0 {
        calls
    } else {
        with_fragment(with_fragments(calls, fragments.drop_last()), fragments.last())
    }
}

/// The details with those of a delta absorbed.
pub open spec fn with_details(details: Seq<JsonV>, delta: JsonV) -> Seq<JsonV> {
    match delta.get(REASONING_DETAILS@) {
        Some(payload) => absorbed_all(details, payload_details(payload)),
        None => details,
    }
}

/// The delta of a frame's chunk.
pub open spec fn frame_delta(data: Seq<char>) -> JsonV {
    chunk_delta(parsed(data)->0)
}

/// The reason to stop that a frame's chunk names.
pub open spec fn frame_finish(data: Seq<char>) -> Option<FinishV> {
    match first_choice(parsed(data)->0) {
        Some(choice) => match choice.text_at("finish_reason"@) {
            Some(reason) => Some(finish_of(Some(reason))),
            None => None,
        },
        None => None,
    }
}

/// Whether a frame is a chunk of an answer: it neither fails nor refuses, and
/// places its fragments.
pub open spec fn answering(data: Seq<char>) -> bool {
    &&& data != TERMINATOR@
    &&& parsed(data) is Some
    &&& !(parsed(data)->0.get("error"@) matches Some(error) && !(error is Null))
    &&& filled(frame_delta(data), "refusal"@) is None
    &&& forall|i: int|
        0 <= i < frame_delta(data).items_at("tool_calls"@).len() ==> (
        #[trigger] frame_delta(data).items_at("tool_calls"@)[i]).unsigned_at("index"@) is Some
}

/// Whether what a delta begins comes before what has begun: details, then
/// reasoning, then text, then calls.
pub open spec fn begins_in_order(g: Gathered, delta: JsonV) -> bool {
    &&& g.details.len() == 0 && with_details(g.details, delta).len() > 0 ==> g.thought.len() == 0
        && g.text.len() == 0 && g.calls.len() == 0
    &&& g.thought.len() == 0 && thought_text(delta) is Some ==> g.text.len() == 0 && g.calls.len()
        == 0
    &&& g.text.len() == 0 && visible_text(delta) is Some ==> g.calls.len() == 0
}

/// The totals a stream has gathered once a chunk has added its own: the last
/// reason to stop, the last id, the last usage, and the last cost.
pub open spec fn with_totals(g: Gathered, data: Seq<char>) -> Gathered {
    let chunk = parsed(data)->0;
    Gathered {
        finish: if frame_finish(data) is Some {
            frame_finish(data)
        } else {
            g.finish
        },
        id: latest(g.id, chunk.text_at("id"@)),
        usage: match chunk.get("usage"@) {
            Some(usage) if usage is Object => usage_counts(usage),
            _ => g.usage,
        },
        cost: if reported_cost(chunk) is Some {
            reported_cost(chunk)
        } else {
            g.cost
        },
        ..g
    }
}

/// What a stream has gathered once a frame has added to it.
pub open spec fn gathered_frame(g: Gathered, data: Seq<char>) -> Gathered {
    let delta = frame_delta(data);
    with_totals(
        Gathered {
            details: with_details(g.details, delta),
            thought: g.thought + text_or_empty(thought_text(delta)),
            text: g.text + text_or_empty(visible_text(delta)),
            calls: with_fragments(g.calls, delta.items_at("tool_calls"@)),
            ..g
        },
        data,
    )
}

/// What frames add up to. `None` where a frame fails, refuses or ends the
/// stream, and where something begins behind what a message holds after it.
pub open spec fn gathered(frames: Seq<Seq<char>>) -> Option<Gathered>
    decreases frames.len(),
{
    if frames.len() == 0 {
        Some(nothing())
    } else {
        match gathered(frames.drop_last()) {
            None => None,
            Some(g) => if answering(frames.last()) && begins_in_order(
                g,
                frame_delta(frames.last()),
            ) {
                Some(gathered_frame(g, frames.last()))
            } else {
                None
            },
        }
    }
}

/// The block of some details, when there are any.
pub open spec fn details_block(details: Seq<JsonV>) -> Seq<BlockV> {
    if details.len() > 0 {
        seq![
            BlockV {
                data: JsonV::Array(details),
                ..fresh(REASONING_DETAILS_BLOCK@, KindV::Opaque { kind: kind_text() })
            },
        ]
    } else {
        Seq::empty()
    }
}

/// A block with some content, when there is any.
pub open spec fn spoken_block(id: Seq<char>, kind: KindV, text: Seq<char>) -> Seq<BlockV> {
    if text.len() > 0 {
        seq![BlockV { buffer: text, ..fresh(id, kind) }]
    } else {
        Seq::empty()
    }
}

/// The block of a call.
pub open spec fn call_block(call: Call) -> BlockV {
    BlockV {
        buffer: call.arguments,
        ..fresh(slot_block(call.slot.index), slot_kind(call.slot))
    }
}

/// The blocks of some calls.
pub open spec fn call_blocks(calls: Seq<Call>) -> Seq<BlockV> {
    calls.map_values(|call: Call| call_block(call))
}

/// The blocks ahead of the calls.
pub open spec fn front_blocks(g: Gathered) -> Seq<BlockV> {
    details_block(g.details) + spoken_block(REASONING_BLOCK@, KindV::Reasoning, g.thought)
        + spoken_block(TEXT_BLOCK@, KindV::Text, g.text)
}

/// The blocks of what a stream has gathered.
pub open spec fn gathered_blocks(g: Gathered) -> Seq<BlockV> {
    front_blocks(g) + call_blocks(g.calls)
}

/// Whether a decoder is where its chunks lead.
pub open spec fn leads_to(s: ChatV, g: Gathered) -> bool {
    &&& s.assembler.blocks == gathered_blocks(g)
    &&& s.assembler == (AssemblerV {
        blocks: s.assembler.blocks,
        finish: g.finish,
        id: g.id,
        usage: g.usage,
        cost: g.cost,
        ..begun(s.route, None)
    })
    &&& s.started || g.id is None
    &&& s.details == g.details
    &&& s.slots == slots_of(g.calls)
    &&& s.refusal.len() == 0
    &&& !s.failed
}

/// Whether a block of a list has a name.
pub open spec fn named(list: Seq<BlockV>, id: Seq<char>) -> bool {
    exists|i: int| 0 <= i < list.len() && (#[trigger] list[i]).id == id
}

/// The blocks of a chat stream have different names.
proof fn lemma_names(index: u64)
    ensures
        REASONING_BLOCK@ != TEXT_BLOCK@,
        REASONING_DETAILS_BLOCK@ != TEXT_BLOCK@,
        REASONING_DETAILS_BLOCK@ != REASONING_BLOCK@,
        slot_block(index) != TEXT_BLOCK@,
        slot_block(index) != REASONING_BLOCK@,
        slot_block(index) != REASONING_DETAILS_BLOCK@,
{
    reveal_strlit("reasoning-0");
    reveal_strlit("reasoning-details-0");
    reveal_strlit("block-0");
    reveal_strlit("tool-");
    assert("reasoning-0"@.len() == 11 && "block-0"@.len() == 7);
    assert("reasoning-details-0"@.len() == 19);
    assert(slot_block(index)[0] == 't');
    assert("block-0"@[0] == 'b' && "reasoning-0"@[0] == 'r' && "reasoning-details-0"@[0] == 'r');
}

/// Absorbing drops no entry.
proof fn lemma_absorbed_len(entries: Seq<JsonV>, fragments: Seq<JsonV>)
    ensures
        absorbed_all(entries, fragments).len() >= entries.len(),
    decreases fragments.len(),
{
    if fragments.len() > 0 {
        lemma_absorbed_len(entries, fragments.drop_last());
        law_absorbing_changes_one_entry(
            absorbed_all(entries, fragments.drop_last()),
            fragments.last(),
        );
    }
}

/// The details of a delta.
proof fn lemma_gather_details(s: ChatV, back: Seq<BlockV>, delta: JsonV)
    requires
        !s.assembler.completed,
        s.assembler.blocks == details_block(s.details) + back,
        !named(back, REASONING_DETAILS_BLOCK@),
        s.details.len() == 0 && with_details(s.details, delta).len() > 0 ==> back.len() == 0,
    ensures
        ({
            let details = with_details(s.details, delta);
            let next = details_step(s, delta).0;
            &&& next.assembler.blocks == details_block(details) + back
            &&& next == (ChatV {
                details,
                assembler: AssemblerV { blocks: next.assembler.blocks, ..s.assembler },
                ..s
            })
        }),
{
    let id = REASONING_DETAILS_BLOCK@;
    let kind = KindV::Opaque { kind: kind_text() };
    let details = with_details(s.details, delta);
    let next = details_step(s, delta).0;
    if delta.get(REASONING_DETAILS@) is Some {
        lemma_absorbed_len(s.details, payload_details(delta.get(REASONING_DETAILS@)->0));
        lemma_locate(s.assembler.blocks, id, 0);
        if details.len() > 0 {
            let started = start_step(s.assembler, id, kind).0;
            lemma_locate(started.blocks, id, 0);
            if s.details.len() > 0 {
                assert(s.assembler.blocks[0].id == id);
            } else {
                assert(started.blocks =~= seq![fresh(id, kind)]);
                assert(started.blocks[0].id == id);
            }
            assert(next.assembler.blocks =~= details_block(details) + back);
        }
    }
}

/// A fragment of reasoning or text.
proof fn lemma_gather_fragment(
    s: ChatV,
    front: Seq<BlockV>,
    text: Seq<char>,
    back: Seq<BlockV>,
    id: Seq<char>,
    kind: KindV,
    more: Option<Seq<char>>,
)
    requires
        !s.assembler.completed,
        s.assembler.blocks == front + spoken_block(id, kind, text) + back,
        !named(front, id),
        !named(back, id),
        kind is Text || kind is Reasoning,
        text.len() == 0 && back.len() > 0 ==> more is None,
        more matches Some(more) ==> more.len() > 0,
    ensures
        ({
            let next = fragment_step(s, id, kind, more).0;
            &&& next.assembler.blocks == front + spoken_block(id, kind, text + text_or_empty(more))
                + back
            &&& next == (ChatV {
                assembler: AssemblerV { blocks: next.assembler.blocks, ..s.assembler },
                ..s
            })
        }),
{
    match more {
        None => {
            assert(text + Seq::<char>::empty() =~= text);
        },
        Some(more) => {
            let at = front.len() as int;
            let started = start_step(s.assembler, id, kind).0;
            let next = append_step(s.assembler, id, kind, more).0;
            lemma_locate(s.assembler.blocks, id, 0);
            lemma_locate(started.blocks, id, 0);
            assert(forall|i: int| 0 <= i < at ==> s.assembler.blocks[i] == front[i]);
            if text.len() > 0 {
                assert(s.assembler.blocks[at].id == id);
            } else {
                assert(s.assembler.blocks =~= front);
                assert(started.blocks =~= front.push(fresh(id, kind)));
                assert(started.blocks[at].id == id);
                assert(Seq::<char>::empty() + more =~= text + more);
            }
            assert(next.blocks =~= front + spoken_block(id, kind, text + more) + back);
        },
    }
}

/// Where a slot stands is in the list, and is the first of its index.
proof fn lemma_slot_at(list: Seq<SlotV>, index: u64, from: int)
    requires
        0 <= from,
    ensures
        match slot_at(list, index, from) {
            Some(at) => from <= at < list.len() && list[at].index == index && forall|i: int|
                from <= i < at ==> (#[trigger] list[i]).index != index,
            None => forall|i: int| from <= i < list.len() ==> (#[trigger] list[i]).index != index,
        },
    decreases list.len() - from,
{
    if from < list.len() && list[from].index != index {
        lemma_slot_at(list, index, from + 1);
    }
}

/// Slots of different indices have different blocks.
proof fn lemma_slot_blocks(first: u64, second: u64)
    requires
        slot_block(first) == slot_block(second),
    ensures
        first == second,
{
    let prefix = "tool-"@;
    assert(decimal(first as nat) =~= slot_block(first).skip(prefix.len() as int));
    assert(decimal(second as nat) =~= slot_block(second).skip(prefix.len() as int));
    lemma_decimal_injective(first as nat, second as nat);
}

/// A fragment of a call.
proof fn lemma_gather_call(s: ChatV, front: Seq<BlockV>, calls: Seq<Call>, fragment: JsonV)
    requires
        !s.assembler.completed,
        s.assembler.blocks == front + call_blocks(calls),
        s.slots == slots_of(calls),
        fragment.unsigned_at("index"@) is Some,
        !named(front, slot_block(fragment.unsigned_at("index"@)->0)),
    ensures
        ({
            let (next, sent) = call_step(s, fragment);
            &&& sent is Ok
            &&& next.assembler.blocks == front + call_blocks(with_fragment(calls, fragment))
            &&& next.slots == slots_of(with_fragment(calls, fragment))
            &&& next == (ChatV {
                slots: next.slots,
                assembler: AssemblerV { blocks: next.assembler.blocks, ..s.assembler },
                ..s
            })
        }),
{
    let index = fragment.unsigned_at("index"@)->0;
    let id = slot_block(index);
    let after = with_fragment(calls, fragment);
    let slot = slot_identity(
        s.slots,
        index,
        fragment.text_at("id"@),
        inner_text(fragment, "function"@, "name"@),
    );
    let arguments = inner_text(fragment, "function"@, "arguments"@);
    let more = text_or_empty(arguments);
    let next = call_step(s, fragment).0;
    let started = start_step(s.assembler, id, slot_kind(slot)).0;
    let repaired = identity_step(started, id, slot_kind(slot));
    lemma_slot_at(s.slots, index, 0);
    lemma_locate(s.assembler.blocks, id, 0);
    lemma_locate(started.blocks, id, 0);
    lemma_locate(repaired.blocks, id, 0);
    let n = front.len() as int;
    assert forall|i: int| 0 <= i < calls.len() && calls[i].slot.index != index implies (
    #[trigger] s.assembler.blocks[n + i]).id != id by {
        if slot_block(calls[i].slot.index) == id {
            lemma_slot_blocks(calls[i].slot.index, index);
        }
    }
    assert(forall|i: int| 0 <= i < calls.len() ==> s.slots[i] == (#[trigger] calls[i]).slot);
    assert(next.slots =~= slots_of(after));
    match slot_at(s.slots, index, 0) {
        Some(at) => {
            assert(s.assembler.blocks[n + at].id == id);
            assert(forall|i: int|
                0 <= i < n + at ==> (#[trigger] s.assembler.blocks[i]).id != id) by {
                assert forall|i: int| 0 <= i < n + at implies (
                #[trigger] s.assembler.blocks[i]).id != id by {
                    if i < n {
                        assert(s.assembler.blocks[i] == front[i]);
                    } else {
                        assert(s.slots[i - n].index != index);
                        assert(s.assembler.blocks[n + (i - n)].id != id);
                    }
                }
            }
            assert(started == s.assembler);
            assert(repaired.blocks[n + at].id == id);
            if more.len() == 0 {
                assert(calls[at].arguments + more =~= calls[at].arguments);
            }
        },
        None => {
            assert forall|i: int| 0 <= i < s.assembler.blocks.len() implies (
            #[trigger] s.assembler.blocks[i]).id != id by {
                if i < n {
                    assert(s.assembler.blocks[i] == front[i]);
                } else {
                    assert(s.slots[i - n].index != index);
                    assert(s.assembler.blocks[n + (i - n)].id != id);
                }
            }
            assert(started.blocks =~= s.assembler.blocks.push(fresh(id, slot_kind(slot))));
            assert(started.blocks.last().id == id);
            assert(repaired.blocks =~= started.blocks);
            assert(Seq::<char>::empty() + more =~= more);
            if more.len() == 0 {
                assert(more =~= Seq::<char>::empty());
            }
        },
    }
    assert(next.assembler.blocks =~= front + call_blocks(after));
}

/// The fragments of a delta.
proof fn lemma_gather_calls(s: ChatV, front: Seq<BlockV>, calls: Seq<Call>, list: Seq<JsonV>)
    requires
        !s.assembler.completed,
        s.assembler.blocks == front + call_blocks(calls),
        s.slots == slots_of(calls),
        forall|i: int|
            0 <= i < list.len() ==> (#[trigger] list[i]).unsigned_at("index"@) is Some,
        forall|index: u64| !named(front, #[trigger] slot_block(index)),
    ensures
        ({
            let (next, sent) = calls_step(s, list);
            &&& sent is Ok
            &&& next.assembler.blocks == front + call_blocks(with_fragments(calls, list))
            &&& next.slots == slots_of(with_fragments(calls, list))
            &&& next == (ChatV {
                slots: next.slots,
                assembler: AssemblerV { blocks: next.assembler.blocks, ..s.assembler },
                ..s
            })
        }),
    decreases list.len(),
{
    if list.len() > 0 {
        let earlier = list.drop_last();
        assert forall|i: int| 0 <= i < earlier.len() implies (
        #[trigger] earlier[i]).unsigned_at("index"@) is Some by {
            assert(earlier[i] == list[i]);
        }
        lemma_gather_calls(s, front, calls, earlier);
        assert(list.last().unsigned_at("index"@) is Some);
        lemma_gather_call(
            calls_step(s, earlier).0,
            front,
            with_fragments(calls, earlier),
            list.last(),
        );
    }
}

/// The blocks ahead of the calls have the names of their channels.
proof fn lemma_front_names(g: Gathered, index: u64)
    ensures
        !named(front_blocks(g), slot_block(index)),
        !named(call_blocks(g.calls), TEXT_BLOCK@),
        !named(call_blocks(g.calls), REASONING_BLOCK@),
        !named(call_blocks(g.calls), REASONING_DETAILS_BLOCK@),
{
    lemma_names(index);
    assert forall|i: int| 0 <= i < g.calls.len() implies {
        let id = (#[trigger] call_blocks(g.calls)[i]).id;
        id != TEXT_BLOCK@ && id != REASONING_BLOCK@ && id != REASONING_DETAILS_BLOCK@
    } by {
        lemma_names(g.calls[i].slot.index);
    }
}

/// Whether a step changed the blocks and the details alone.
pub open spec fn spoke(next: ChatV, s: ChatV) -> bool {
    next == ChatV {
        details: next.details,
        assembler: AssemblerV { blocks: next.assembler.blocks, ..s.assembler },
        ..s
    }
}

/// The details of a delta come ahead of what was gathered.
proof fn lemma_gather_first(s: ChatV, g: Gathered, delta: JsonV)
    requires
        !s.assembler.completed,
        s.assembler.blocks == gathered_blocks(g),
        s.details == g.details,
        begins_in_order(g, delta),
    ensures
        ({
            let next = details_step(s, delta).0;
            let after = Gathered { details: with_details(g.details, delta), ..g };
            &&& next.assembler.blocks == gathered_blocks(after)
            &&& next.details == after.details
            &&& spoke(next, s)
        }),
{
    let thought = spoken_block(REASONING_BLOCK@, KindV::Reasoning, g.thought);
    let text = spoken_block(TEXT_BLOCK@, KindV::Text, g.text);
    let calls = call_blocks(g.calls);
    let back = thought + text + calls;
    lemma_names(0);
    lemma_front_names(g, 0);
    assert(s.assembler.blocks =~= details_block(g.details) + back);
    assert forall|i: int| 0 <= i < back.len() implies (#[trigger] back[i]).id
        != REASONING_DETAILS_BLOCK@ by {
        let at = i - thought.len() - text.len();
        if at >= 0 {
            assert(back[i] == calls[at]);
        }
    }
    lemma_gather_details(s, back, delta);
    let after = Gathered { details: with_details(g.details, delta), ..g };
    assert(gathered_blocks(after) =~= details_block(after.details) + back);
}

/// The reasoning of a delta joins what was gathered, behind the details.
proof fn lemma_gather_second(s: ChatV, g: Gathered, more: Option<Seq<char>>)
    requires
        !s.assembler.completed,
        s.assembler.blocks == gathered_blocks(g),
        g.thought.len() == 0 && more is Some ==> g.text.len() == 0 && g.calls.len() == 0,
        more matches Some(more) ==> more.len() > 0,
    ensures
        ({
            let next = fragment_step(s, REASONING_BLOCK@, KindV::Reasoning, more).0;
            let after = Gathered { thought: g.thought + text_or_empty(more), ..g };
            &&& next.assembler.blocks == gathered_blocks(after)
            &&& next.details == s.details
            &&& spoke(next, s)
        }),
{
    let front = details_block(g.details);
    let text = spoken_block(TEXT_BLOCK@, KindV::Text, g.text);
    let calls = call_blocks(g.calls);
    let back = text + calls;
    lemma_names(0);
    lemma_front_names(g, 0);
    assert(s.assembler.blocks =~= front + spoken_block(
        REASONING_BLOCK@,
        KindV::Reasoning,
        g.thought,
    ) + back);
    assert forall|i: int| 0 <= i < back.len() implies (#[trigger] back[i]).id
        != REASONING_BLOCK@ by {
        let at = i - text.len();
        if at >= 0 {
            assert(back[i] == calls[at]);
        }
    }
    lemma_gather_fragment(s, front, g.thought, back, REASONING_BLOCK@, KindV::Reasoning, more);
    let after = Gathered { thought: g.thought + text_or_empty(more), ..g };
    assert(gathered_blocks(after) =~= front + spoken_block(
        REASONING_BLOCK@,
        KindV::Reasoning,
        after.thought,
    ) + back);
}

/// The text of a delta joins what was gathered, ahead of the calls.
proof fn lemma_gather_third(s: ChatV, g: Gathered, more: Option<Seq<char>>)
    requires
        !s.assembler.completed,
        s.assembler.blocks == gathered_blocks(g),
        g.text.len() == 0 && more is Some ==> g.calls.len() == 0,
        more matches Some(more) ==> more.len() > 0,
    ensures
        ({
            let next = fragment_step(s, TEXT_BLOCK@, KindV::Text, more).0;
            let after = Gathered { text: g.text + text_or_empty(more), ..g };
            &&& next.assembler.blocks == gathered_blocks(after)
            &&& next.details == s.details
            &&& spoke(next, s)
        }),
{
    let front = details_block(g.details) + spoken_block(
        REASONING_BLOCK@,
        KindV::Reasoning,
        g.thought,
    );
    lemma_names(0);
    lemma_front_names(g, 0);
    lemma_gather_fragment(
        s,
        front,
        g.text,
        call_blocks(g.calls),
        TEXT_BLOCK@,
        KindV::Text,
        more,
    );
}

/// The content of a delta joins what was gathered, ahead of the calls.
proof fn lemma_gather_spoken(s: ChatV, g: Gathered, delta: JsonV)
    requires
        !s.assembler.completed,
        s.assembler.blocks == gathered_blocks(g),
        s.details == g.details,
        begins_in_order(g, delta),
        filled(delta, "refusal"@) is None,
    ensures
        ({
            let next = spoken_step(s, delta).0;
            let after = Gathered {
                details: with_details(g.details, delta),
                thought: g.thought + text_or_empty(thought_text(delta)),
                text: g.text + text_or_empty(visible_text(delta)),
                ..g
            };
            &&& next.assembler.blocks == gathered_blocks(after)
            &&& next.details == after.details
            &&& spoke(next, s)
        }),
{
    let g1 = Gathered { details: with_details(g.details, delta), ..g };
    let g2 = Gathered { thought: g1.thought + text_or_empty(thought_text(delta)), ..g1 };
    let s1 = details_step(s, delta).0;
    let s2 = fragment_step(s1, REASONING_BLOCK@, KindV::Reasoning, thought_text(delta)).0;
    lemma_gather_first(s, g, delta);
    lemma_gather_second(s1, g1, thought_text(delta));
    lemma_gather_third(s2, g2, visible_text(delta));
}

/// A frame leads a chat decoder to what it adds.
proof fn lemma_gather_frame(s: ChatV, g: Gathered, data: Seq<char>)
    requires
        leads_to(s, g),
        answering(data),
        begins_in_order(g, frame_delta(data)),
    ensures
        event_step(s, data).1 is Ok,
        leads_to(event_step(s, data).0, gathered_frame(g, data)),
        event_step(s, data).0.route == s.route,
{
    let chunk = parsed(data)->0;
    let delta = frame_delta(data);
    let after = gathered_frame(g, data);
    let list = delta.items_at("tool_calls"@);
    let s1 = begin_step(s, chunk).0;
    let s2 = spoken_step(s1, delta).0;
    let s3 = calls_step(s2, list).0;
    lemma_gather_spoken(s1, g, delta);
    assert forall|index: u64| !named(front_blocks(after), #[trigger] slot_block(index)) by {
        lemma_front_names(after, index);
    }
    lemma_gather_calls(s2, front_blocks(after), g.calls, list);
    assert(totals_step(s3, chunk).0.assembler.blocks == gathered_blocks(after));
}

/// Frames lead a chat decoder to what they add up to.
proof fn lemma_gather_run(route: RouteV, frames: Seq<Seq<char>>)
    requires
        gathered(frames) is Some,
    ensures
        chat_run(fresh_chat(route), frames) is Some,
        leads_to((chat_run(fresh_chat(route), frames)->0).0, gathered(frames)->0),
        (chat_run(fresh_chat(route), frames)->0).0.route == route,
    decreases frames.len(),
{
    if frames.len() == 0 {
        assert(gathered_blocks(nothing()) =~= Seq::<BlockV>::empty());
        assert(slots_of(Seq::empty()) =~= Seq::<SlotV>::empty());
    } else {
        lemma_gather_run(route, frames.drop_last());
        lemma_gather_frame(
            (chat_run(fresh_chat(route), frames.drop_last())->0).0,
            gathered(frames.drop_last())->0,
            frames.last(),
        );
    }
}

/// Whether a tool call of a message is what its fragments added up to: it has
/// its id and its name, and their arguments.
pub open spec fn carries_call(value: JsonV, call: Call) -> bool {
    &&& filled(value, "id"@) is Some
    &&& value.text_at("id"@) == call.slot.id
    &&& inner_text(value, "function"@, "name"@) == call.slot.name
    &&& text_or_empty(call.slot.name).len() > 0
    &&& text_or_empty(inner_text(value, "function"@, "arguments"@)) == call.arguments
}

/// Whether a message holds what the chunks of a stream added up to.
pub open spec fn carries(message: JsonV, g: Gathered) -> bool {
    let list = message.items_at("tool_calls"@);
    &&& filled(message, "refusal"@) is None
    &&& whole_details(message) == if g.details.len() > 0 {
        Some(PartV::Opaque { kind: kind_text(), data: JsonV::Array(g.details) })
    } else {
        None
    }
    &&& thought_text(message) == some_text(g.thought)
    &&& visible_text(message) == some_text(g.text)
    &&& list.len() == g.calls.len()
    &&& forall|i: int| 0 <= i < list.len() ==> carries_call(#[trigger] list[i], g.calls[i])
}

/// The parts of the calls are those a message holds.
proof fn lemma_carried_calls(front: Seq<BlockV>, calls: Seq<Call>, list: Seq<JsonV>)
    requires
        list.len() == calls.len(),
        forall|i: int| 0 <= i < list.len() ==> carries_call(#[trigger] list[i], calls[i]),
    ensures
        call_parts(list) is Ok,
        call_parts(list)->Ok_0.len() == calls.len(),
        kept_parts(front + call_blocks(calls), None) == kept_parts(front, None) + call_parts(
            list,
        )->Ok_0,
    decreases list.len(),
{
    if list.len() == 0 {
        assert(front + call_blocks(calls) =~= front);
        assert(kept_parts(front, None) + call_parts(list)->Ok_0 =~= kept_parts(front, None));
    } else {
        let earlier = list.drop_last();
        assert forall|i: int| 0 <= i < earlier.len() implies carries_call(
            #[trigger] earlier[i],
            calls.drop_last()[i],
        ) by {
            assert(earlier[i] == list[i]);
        }
        lemma_carried_calls(front, calls.drop_last(), earlier);
        assert(carries_call(list[list.len() - 1], calls[list.len() - 1]));
        let before = front + call_blocks(calls.drop_last());
        let block = call_block(calls.last());
        assert(front + call_blocks(calls) =~= before.push(block));
        lemma_kept_push(before, block, None);
        assert(Ok::<PartV, Seq<char>>(block_part(block, None)) == call_part(list.last()));
        assert(kept_parts(before.push(block), None) =~= kept_parts(front, None) + call_parts(
            list,
        )->Ok_0);
    }
}

/// The parts ahead of the calls are those a message holds.
proof fn lemma_carried_front(g: Gathered, message: JsonV)
    requires
        carries(message, g),
    ensures
        kept_parts(front_blocks(g), None) == spoken_parts(message),
{
    let none = Seq::<BlockV>::empty();
    let details = details_block(g.details);
    let thought = spoken_block(REASONING_BLOCK@, KindV::Reasoning, g.thought);
    let text = spoken_block(TEXT_BLOCK@, KindV::Text, g.text);
    assert(kept_parts(none, None) =~= Seq::<PartV>::empty());
    if g.details.len() > 0 {
        lemma_kept_push(none, details[0], None);
        assert(none.push(details[0]) =~= details);
    }
    if g.thought.len() > 0 {
        lemma_kept_push(details, thought[0], None);
        assert(details.push(thought[0]) =~= details + thought);
    } else {
        assert(details + thought =~= details);
    }
    if g.text.len() > 0 {
        lemma_kept_push(details + thought, text[0], None);
        assert((details + thought).push(text[0]) =~= details + thought + text);
    } else {
        assert(details + thought + text =~= details + thought);
    }
}

/// A chat stream completes with the response that its chunks add up to: its
/// content is what the document decoder finds in the message they make,
/// however they split its reasoning, its text and its tool calls.
pub proof fn law_a_chat_transcript_completes_with_its_message(
    route: RouteV,
    frames: Seq<Seq<char>>,
    message: JsonV,
)
    requires
        gathered(frames) is Some,
        carries(message, gathered(frames)->0),
        gathered(frames)->0.calls.len() > 0 ==> gathered(frames)->0.finish is Some,
    ensures
        chat_run(fresh_chat(route), frames) is Some,
        call_parts(message.items_at("tool_calls"@)) is Ok,
        ({
            let g = gathered(frames)->0;
            let sent = finish_step((chat_run(fresh_chat(route), frames)->0).0).1;
            &&& sent is Ok
            &&& sent->Ok_0.len() > 0
            &&& sent->Ok_0.last() matches EventV::Ended { response }
            &&& response == finished(
                ResponseV {
                    provider: route.provider,
                    model: route.model,
                    id: g.id,
                    content: spoken_parts(message) + call_parts(
                        message.items_at("tool_calls"@),
                    )->Ok_0,
                    finish_reason: match g.finish {
                        Some(reason) => promoted(reason, g.calls.len() > 0),
                        None => FinishV::Other("incomplete"@),
                    },
                    usage: g.usage,
                    cost: g.cost,
                    raw: None,
                    warnings: Seq::empty(),
                },
            )
        }),
{
    let g = gathered(frames)->0;
    lemma_gather_run(route, frames);
    lemma_carried_front(g, message);
    lemma_carried_calls(front_blocks(g), g.calls, message.items_at("tool_calls"@));
    let s = (chat_run(fresh_chat(route), frames)->0).0;
    if g.calls.len() > 0 {
        assert(s.assembler.blocks[front_blocks(g).len() as int] == call_block(g.calls[0]));
    } else {
        assert(s.assembler.blocks =~= front_blocks(g));
    }
    assert(called(s.assembler) == (g.calls.len() > 0));
}

/// A chat stream that names its reason to stop completes as its document is
/// decoded: every field is the document's, but for the id, the usage and the
/// cost, which are the last ones streamed, and the document itself, which a
/// stream does not have.
pub proof fn law_a_chat_transcript_completes_as_its_document(
    route: RouteV,
    frames: Seq<Seq<char>>,
    value: JsonV,
    choice: JsonV,
    message: JsonV,
)
    requires
        gathered(frames) is Some,
        first_choice(value) == Some(choice),
        choice.get("message"@) == Some(message),
        message is Object,
        carries(message, gathered(frames)->0),
        gathered(frames)->0.finish == Some(finish_of(choice.text_at("finish_reason"@))),
    ensures
        chat_run(fresh_chat(route), frames) is Some,
        decoded(route, value) is Ok,
        ({
            let g = gathered(frames)->0;
            let sent = finish_step((chat_run(fresh_chat(route), frames)->0).0).1;
            &&& sent is Ok
            &&& sent->Ok_0.len() > 0
            &&& sent->Ok_0.last() matches EventV::Ended { response }
            &&& response == (ResponseV {
                id: g.id,
                usage: g.usage,
                cost: g.cost,
                raw: None,
                ..decoded(route, value)->Ok_0
            })
        }),
{
    law_a_chat_transcript_completes_with_its_message(route, frames, message);
    let g = gathered(frames)->0;
    lemma_carried_calls(front_blocks(g), g.calls, message.items_at("tool_calls"@));
}

} // verus!
