//! Laws of arrival: a fragment is passed on in the step that brings it, to the
//! block it belongs to, and a call is announced by what its fragments name.

use vstd::prelude::*;

use super::documents::message_text;
use super::documents::message_thought;
use super::keys::lemma_keys;
use super::messages::gathered;
use super::messages::slots_of;
use super::messages::with_fragment;
use super::messages::with_fragments;
use super::messages::Call;
use super::streams::chat_run;
use crate::assembler::append_step;
use crate::assembler::block_of;
use crate::assembler::fallback_call;
use crate::assembler::identity_step;
use crate::assembler::lemma_locate;
use crate::assembler::lemma_located_last;
use crate::assembler::locate;
use crate::assembler::start_step;
use crate::assembler::takes;
use crate::assembler::with_block;
use crate::assembler::AssemblerV;
use crate::assembler::BlockV;
use crate::assembler::Phase;
use crate::json::JsonV;
use crate::openai;
use crate::openai_chat::stream::begin_step;
use crate::openai_chat::stream::call_step;
use crate::openai_chat::stream::calls_step;
use crate::openai_chat::stream::chunk_delta;
use crate::openai_chat::stream::chunk_step;
use crate::openai_chat::stream::details_step;
use crate::openai_chat::stream::event_step;
use crate::openai_chat::stream::fragment_step;
use crate::openai_chat::stream::fresh_chat;
use crate::openai_chat::stream::slot_at;
use crate::openai_chat::stream::slot_block;
use crate::openai_chat::stream::slot_identity;
use crate::openai_chat::stream::slot_kind;
use crate::openai_chat::stream::spoken_step;
use crate::openai_chat::stream::totals_step;
use crate::openai_chat::stream::ChatV;
use crate::response::EventV;
use crate::response::KindV;
use crate::serial::parsed;
use crate::text::decimal;
use crate::types::RouteV;

verus! {

broadcast use {vstd::seq::group_seq_axioms, vstd::map::group_map_axioms};

/// The sort of block a name stands for in a chat stream.
pub open spec fn sort_of(id: Seq<char>, kind: KindV) -> bool {
    if id == "block-0"@ {
        kind is Text
    } else if id == "reasoning-0"@ {
        kind is Reasoning
    } else if id == "reasoning-details-0"@ {
        kind is Opaque
    } else {
        kind is ToolCall
    }
}

/// Whether every block of a stream is open, and of the sort its name stands
/// for.
pub open spec fn all_open(s: AssemblerV) -> bool {
    &&& !s.completed
    &&& forall|i: int|
        0 <= i < s.blocks.len() ==> (#[trigger] s.blocks[i]).phase == Phase::Open && sort_of(
            s.blocks[i].id,
            s.blocks[i].kind,
        )
}

proof fn lemma_open_start(s: AssemblerV, id: Seq<char>, kind: KindV)
    requires
        all_open(s),
        sort_of(id, kind),
    ensures
        all_open(start_step(s, id, kind).0),
        takes(start_step(s, id, kind).0, id, kind),
{
    let next = start_step(s, id, kind).0;
    lemma_locate(s.blocks, id, 0);
    if locate(s.blocks, id, 0) is None {
        lemma_located_last(s.blocks, crate::assembler::fresh(id, kind), 0);
    }
}

proof fn lemma_open_rewrite(s: AssemblerV, id: Seq<char>, block: BlockV)
    requires
        all_open(s),
        locate(s.blocks, id, 0) is Some,
        block.id == id,
        block.phase == Phase::Open,
        sort_of(id, block.kind),
    ensures
        all_open(with_block(s, id, block)),
{
    lemma_locate(s.blocks, id, 0);
}

/// A fragment of a block that is open is passed on.
proof fn lemma_open_append(s: AssemblerV, id: Seq<char>, kind: KindV, text: Seq<char>)
    requires
        all_open(s),
        sort_of(id, kind),
    ensures
        all_open(append_step(s, id, kind, text).0),
        append_step(s, id, kind, text).1.len() > 0,
        append_step(s, id, kind, text).1.last() == crate::assembler::delta(kind, id, text),
{
    lemma_open_start(s, id, kind);
    let started = start_step(s, id, kind).0;
    lemma_locate(started.blocks, id, 0);
    let block = block_of(started, id);
    lemma_open_rewrite(started, id, BlockV { buffer: block.buffer + text, ..block });
}

proof fn lemma_open_details(s: ChatV, delta: JsonV)
    requires
        all_open(s.assembler),
    ensures
        all_open(details_step(s, delta).0.assembler),
{
    if let Some(payload) = delta.get(crate::openai_chat::reasoning_details::REASONING_DETAILS@) {
        let details = crate::openai_chat::reasoning_details::absorbed_all(
            s.details,
            crate::openai_chat::reasoning_details::payload_details(payload),
        );
        if details.len() > 0 {
            lemma_names();
            let id = crate::openai_chat::stream::REASONING_DETAILS_BLOCK@;
            let kind = KindV::Opaque {
                kind: crate::openai_chat::reasoning_details::kind_text(),
            };
            lemma_open_start(s.assembler, id, kind);
            let started = start_step(s.assembler, id, kind).0;
            lemma_locate(started.blocks, id, 0);
            lemma_open_rewrite(
                started,
                id,
                BlockV { data: JsonV::Array(details), ..block_of(started, id) },
            );
        }
    }
}

proof fn lemma_names()
    ensures
        "block-0"@ != "reasoning-0"@,
        "block-0"@ != "reasoning-details-0"@,
        "reasoning-0"@ != "reasoning-details-0"@,
        forall|index: u64| #[trigger] slot_block(index) != "block-0"@,
        forall|index: u64| #[trigger] slot_block(index) != "reasoning-0"@,
        forall|index: u64| #[trigger] slot_block(index) != "reasoning-details-0"@,
{
    reveal_strlit("block-0");
    reveal_strlit("reasoning-0");
    reveal_strlit("reasoning-details-0");
    reveal_strlit("tool-");
    assert("block-0"@.len() == 7 && "reasoning-0"@.len() == 11);
    assert("reasoning-details-0"@.len() == 19);
    assert forall|index: u64|
        #[trigger] slot_block(index) != "block-0"@ && slot_block(index) != "reasoning-0"@
            && slot_block(index) != "reasoning-details-0"@ by {
        assert(slot_block(index)[0] == 't');
        assert("block-0"@[0] == 'b' && "reasoning-0"@[0] == 'r');
        assert("reasoning-details-0"@[0] == 'r');
    }
}

/// Whether a list of events passes a delta on.
pub open spec fn passes(sent: Seq<EventV>, event: EventV) -> bool {
    exists|j: int| 0 <= j < sent.len() && #[trigger] sent[j] == event
}

proof fn lemma_passes(before: Seq<EventV>, sent: Seq<EventV>, after: Seq<EventV>, event: EventV)
    requires
        passes(sent, event),
    ensures
        passes(before + sent + after, event),
        passes(before + sent, event),
        passes(sent + after, event),
{
    let j = choose|j: int| 0 <= j < sent.len() && #[trigger] sent[j] == event;
    assert((before + sent + after)[before.len() + j] == event);
    assert((before + sent)[before.len() + j] == event);
    assert((sent + after)[j] == event);
}

/// What a delta says is passed on: its thought, and its text.
proof fn lemma_open_spoken(s: ChatV, delta: JsonV)
    requires
        all_open(s.assembler),
    ensures
        all_open(spoken_step(s, delta).0.assembler),
        message_text(delta).len() > 0 ==> passes(
            spoken_step(s, delta).1,
            EventV::TextDelta { block: "block-0"@, text: message_text(delta) },
        ),
        message_thought(delta).len() > 0 ==> passes(
            spoken_step(s, delta).1,
            EventV::ReasoningDelta { block: "reasoning-0"@, text: message_thought(delta) },
        ),
{
    lemma_keys();
    lemma_names();
    lemma_read(delta);
    let (s1, detailed) = details_step(s, delta);
    lemma_open_details(s, delta);
    let thought = crate::openai_chat::decode::thought_text(delta);
    let visible = crate::openai_chat::decode::visible_text(delta);
    let (s2, thinking) = fragment_step(s1, "reasoning-0"@, KindV::Reasoning, thought);
    if let Some(text) = thought {
        lemma_open_append(s1.assembler, "reasoning-0"@, KindV::Reasoning, text);
        assert(thinking[thinking.len() - 1] == (EventV::ReasoningDelta {
            block: "reasoning-0"@,
            text,
        }));
        lemma_passes(
            detailed,
            thinking,
            fragment_step(s2, "block-0"@, KindV::Text, visible).1,
            EventV::ReasoningDelta { block: "reasoning-0"@, text },
        );
    }
    let (s3, saying) = fragment_step(s2, "block-0"@, KindV::Text, visible);
    if let Some(text) = visible {
        lemma_open_append(s2.assembler, "block-0"@, KindV::Text, text);
        assert(saying[saying.len() - 1] == (EventV::TextDelta { block: "block-0"@, text }));
        lemma_passes(
            detailed + thinking,
            saying,
            Seq::empty(),
            EventV::TextDelta { block: "block-0"@, text },
        );
    }
}

/// What a delta is read to say.
proof fn lemma_read(delta: JsonV)
    ensures
        crate::openai_chat::decode::visible_text(delta)
            == crate::openai_chat::decode::some_text(message_text(delta)),
        crate::openai_chat::decode::thought_text(delta)
            == crate::openai_chat::decode::some_text(message_thought(delta)),
{
    if let Some(JsonV::Array(list)) = delta.get("content"@) {
        lemma_texts(list);
    }
}

proof fn lemma_texts(list: Seq<JsonV>)
    ensures
        crate::openai_chat::decode::part_texts(list) == super::documents::texts_in(list),
    decreases list.len(),
{
    if list.len() > 0 {
        lemma_texts(list.drop_last());
        let rest = super::documents::texts_in(list.drop_last());
        assert(rest + Seq::<char>::empty() =~= rest);
    }
}

/// The argument text a fragment brings.
pub open spec fn arguments_in(call: JsonV) -> Seq<char> {
    match call.get2("function"@, "arguments"@) {
        Some(JsonV::Text(text)) => text,
        _ => Seq::empty(),
    }
}

proof fn lemma_open_call(s: ChatV, call: JsonV)
    requires
        all_open(s.assembler),
        call.unsigned_at("index"@) is Some,
    ensures
        call_step(s, call).1 is Ok,
        all_open(call_step(s, call).0.assembler),
        arguments_in(call).len() > 0 ==> passes(
            call_step(s, call).1->Ok_0,
            EventV::ToolCallDelta {
                block: "tool-"@ + decimal(call.unsigned_at("index"@)->0 as nat),
                text: arguments_in(call),
            },
        ),
{
    lemma_names();
    let index = call.unsigned_at("index"@)->0;
    let block = slot_block(index);
    let slot = slot_identity(
        s.slots,
        index,
        call.text_at("id"@),
        crate::openai_chat::decode::inner_text(call, "function"@, "name"@),
    );
    let kind = slot_kind(slot);
    lemma_open_start(s.assembler, block, kind);
    let (a1, started) = start_step(s.assembler, block, kind);
    lemma_locate(a1.blocks, block, 0);
    lemma_open_rewrite(a1, block, BlockV { kind, ..block_of(a1, block) });
    let a2 = identity_step(a1, block, kind);
    let text = arguments_in(call);
    if text.len() > 0 {
        lemma_open_append(a2, block, fallback_call(block), text);
        let appended = append_step(a2, block, fallback_call(block), text).1;
        assert(appended[appended.len() - 1] == (EventV::ToolCallDelta { block, text }));
        lemma_passes(started, appended, Seq::empty(), EventV::ToolCallDelta { block, text });
    }
}

proof fn lemma_open_calls(s: ChatV, list: Seq<JsonV>)
    requires
        all_open(s.assembler),
        calls_step(s, list).1 is Ok,
    ensures
        all_open(calls_step(s, list).0.assembler),
        forall|k: int|
            0 <= k < list.len() && arguments_in(#[trigger] list[k]).len() > 0 ==> list[k].unsigned_at(
                "index"@,
            ) is Some && passes(
                calls_step(s, list).1->Ok_0,
                EventV::ToolCallDelta {
                    block: "tool-"@ + decimal(list[k].unsigned_at("index"@)->0 as nat),
                    text: arguments_in(list[k]),
                },
            ),
    decreases list.len(),
{
    if list.len() > 0 {
        let fewer = list.drop_last();
        let n = list.len() - 1;
        lemma_open_calls(s, fewer);
        let (before, earlier) = calls_step(s, fewer);
        lemma_open_call(before, list.last());
        let later = call_step(before, list.last()).1->Ok_0;
        assert forall|k: int|
            0 <= k < list.len() && arguments_in(#[trigger] list[k]).len() > 0 implies list[k].unsigned_at(
            "index"@,
        ) is Some && passes(
            calls_step(s, list).1->Ok_0,
            EventV::ToolCallDelta {
                block: "tool-"@ + decimal(list[k].unsigned_at("index"@)->0 as nat),
                text: arguments_in(list[k]),
            },
        ) by {
            let event = EventV::ToolCallDelta {
                block: "tool-"@ + decimal(list[k].unsigned_at("index"@)->0 as nat),
                text: arguments_in(list[k]),
            };
            if k < n {
                assert(fewer[k] == list[k]);
                assert(passes(earlier->Ok_0, event));
                lemma_passes(Seq::empty(), earlier->Ok_0, later, event);
            } else {
                lemma_passes(earlier->Ok_0, later, Seq::empty(), event);
            }
        }
    }
}

/// A chunk on open blocks leaves them open, and passes on what it brings.
pub proof fn lemma_open_chunk(s: ChatV, chunk: JsonV)
    requires
        all_open(s.assembler),
        chunk_step(s, chunk).1 is Ok,
    ensures
        all_open(chunk_step(s, chunk).0.assembler),
        ({
            let delta = chunk_delta(chunk);
            let sent = chunk_step(s, chunk).1->Ok_0;
            let list = delta.items_at("tool_calls"@);
            &&& message_text(delta).len() > 0 ==> passes(
                sent,
                EventV::TextDelta { block: "block-0"@, text: message_text(delta) },
            )
            &&& message_thought(delta).len() > 0 ==> passes(
                sent,
                EventV::ReasoningDelta { block: "reasoning-0"@, text: message_thought(delta) },
            )
            &&& forall|k: int|
                0 <= k < list.len() && arguments_in(#[trigger] list[k]).len() > 0
                    ==> list[k].unsigned_at("index"@) is Some && passes(
                    sent,
                    EventV::ToolCallDelta {
                        block: "tool-"@ + decimal(list[k].unsigned_at("index"@)->0 as nat),
                        text: arguments_in(list[k]),
                    },
                )
        }),
{
    let delta = chunk_delta(chunk);
    let (s1, opening) = begin_step(s, chunk);
    let (s2, spoken) = spoken_step(s1, delta);
    lemma_open_spoken(s1, delta);
    let list = delta.items_at("tool_calls"@);
    let (s3, calls) = calls_step(s2, list);
    lemma_open_calls(s2, list);
    let (s4, totals) = totals_step(s3, chunk);
    assert(s4.assembler.blocks == s3.assembler.blocks);
    let sent = opening + (spoken + calls->Ok_0) + totals;
    let text = EventV::TextDelta { block: "block-0"@, text: message_text(delta) };
    let thought = EventV::ReasoningDelta {
        block: "reasoning-0"@,
        text: message_thought(delta),
    };
    if message_text(delta).len() > 0 {
        lemma_passes(Seq::empty(), spoken, calls->Ok_0, text);
        lemma_passes(opening, spoken + calls->Ok_0, totals, text);
    }
    if message_thought(delta).len() > 0 {
        lemma_passes(Seq::empty(), spoken, calls->Ok_0, thought);
        lemma_passes(opening, spoken + calls->Ok_0, totals, thought);
    }
    assert forall|k: int|
        0 <= k < list.len() && arguments_in(#[trigger] list[k]).len() > 0 implies list[k].unsigned_at(
        "index"@,
    ) is Some && passes(
        sent,
        EventV::ToolCallDelta {
            block: "tool-"@ + decimal(list[k].unsigned_at("index"@)->0 as nat),
            text: arguments_in(list[k]),
        },
    ) by {
        let event = EventV::ToolCallDelta {
            block: "tool-"@ + decimal(list[k].unsigned_at("index"@)->0 as nat),
            text: arguments_in(list[k]),
        };
        lemma_passes(spoken, calls->Ok_0, Seq::empty(), event);
        lemma_passes(opening, spoken + calls->Ok_0, totals, event);
    }
}

proof fn lemma_open_run(route: RouteV, frames: Seq<Seq<char>>)
    ensures
        chat_run(fresh_chat(route), frames) matches Some((s, _)) ==> !s.failed && (
        s.assembler.completed || all_open(s.assembler)),
    decreases frames.len(),
{
    if frames.len() > 0 {
        lemma_open_run(route, frames.drop_last());
        if let Some((before, _)) = chat_run(fresh_chat(route), frames.drop_last()) {
            let data = frames.last();
            if event_step(before, data).1 is Ok && data != crate::openai_chat::stream::TERMINATOR@ {
                if before.assembler.completed {
                    lemma_completed(before, parsed(data)->0);
                } else {
                    lemma_open_chunk(before, parsed(data)->0);
                }
            }
        }
    }
}

proof fn lemma_completed(s: ChatV, chunk: JsonV)
    requires
        s.assembler.completed,
    ensures
        chunk_step(s, chunk).0.assembler.completed,
{
    let delta = chunk_delta(chunk);
    let s1 = begin_step(s, chunk).0;
    let s2 = spoken_step(s1, delta).0;
    lemma_completed_calls(s2, delta.items_at("tool_calls"@));
}

proof fn lemma_completed_calls(s: ChatV, list: Seq<JsonV>)
    requires
        s.assembler.completed,
    ensures
        calls_step(s, list).0.assembler.completed,
    decreases list.len(),
{
    if list.len() > 0 {
        lemma_completed_calls(s, list.drop_last());
    }
}

/// The delta of the first choice of a chunk.
pub open spec fn delta_in(chunk: JsonV) -> JsonV {
    if chunk.items_at("choices"@).len() > 0 {
        match chunk.items_at("choices"@)[0].get("delta"@) {
            Some(delta) => delta,
            None => JsonV::Null,
        }
    } else {
        JsonV::Null
    }
}

/// Every fragment a chunk brings is passed on with that chunk: its text, its
/// thought, and the arguments of each of its calls, to the block of its index.
pub proof fn law_chat_fragments_are_passed_on(
    route: RouteV,
    frames: Seq<Seq<char>>,
    data: Seq<char>,
    chunk: JsonV,
)
    requires
        chat_run(fresh_chat(route), frames) is Some,
        !(chat_run(fresh_chat(route), frames)->0).0.assembler.completed,
        data != "[DONE]"@,
        parsed(data) == Some(chunk),
        chunk.items_at("choices"@).len() > 0,
        event_step((chat_run(fresh_chat(route), frames)->0).0, data).1 is Ok,
    ensures
        ({
            let sent = event_step((chat_run(fresh_chat(route), frames)->0).0, data).1->Ok_0;
            let delta = delta_in(chunk);
            let list = delta.items_at("tool_calls"@);
            &&& message_text(delta).len() > 0 ==> passes(
                sent,
                EventV::TextDelta { block: "block-0"@, text: message_text(delta) },
            )
            &&& message_thought(delta).len() > 0 ==> passes(
                sent,
                EventV::ReasoningDelta { block: "reasoning-0"@, text: message_thought(delta) },
            )
            &&& forall|k: int|
                0 <= k < list.len() && arguments_in(#[trigger] list[k]).len() > 0
                    ==> list[k].unsigned_at("index"@) is Some && passes(
                    sent,
                    EventV::ToolCallDelta {
                        block: "tool-"@ + decimal(list[k].unsigned_at("index"@)->0 as nat),
                        text: arguments_in(list[k]),
                    },
                )
        }),
{
    lemma_open_run(route, frames);
    let s = (chat_run(fresh_chat(route), frames)->0).0;
    lemma_open_chunk(s, chunk);
    assert(chunk_delta(chunk) == delta_in(chunk));
}

/// The last text that the fragments of an index bring.
pub open spec fn last_of(list: Seq<JsonV>, index: u64, named: bool) -> Option<Seq<char>>
    decreases list.len(),
{
    if list.len() == 0 {
        None
    } else {
        let fragment = list.last();
        let text = if named {
            match fragment.get2("function"@, "name"@) {
                Some(JsonV::Text(name)) => Some(name),
                _ => None,
            }
        } else {
            fragment.text_at("id"@)
        };
        if fragment.unsigned_at("index"@) == Some(index) && text is Some {
            text
        } else {
            last_of(list.drop_last(), index, named)
        }
    }
}

/// The argument texts that the fragments of an index bring, one after the
/// other.
pub open spec fn arguments_of(list: Seq<JsonV>, index: u64) -> Seq<char>
    decreases list.len(),
{
    if list.len() == 0 {
        Seq::empty()
    } else if list.last().unsigned_at("index"@) == Some(index) {
        arguments_of(list.drop_last(), index) + arguments_in(list.last())
    } else {
        arguments_of(list.drop_last(), index)
    }
}

/// Whether calls are what their fragments say: one for each index, with the
/// last id and the last name its fragments brought and all their arguments.
pub open spec fn spelled_by(calls: Seq<Call>, list: Seq<JsonV>) -> bool {
    &&& forall|i: int|
        0 <= i < calls.len() ==> {
            let index = (#[trigger] calls[i]).slot.index;
            &&& calls[i].slot.id == last_of(list, index, false)
            &&& calls[i].slot.name == last_of(list, index, true)
            &&& calls[i].arguments == arguments_of(list, index)
        }
    &&& forall|i: int, j: int|
        0 <= i < j < calls.len() ==> (#[trigger] calls[i]).slot.index != (
        #[trigger] calls[j]).slot.index
    &&& forall|k: int|
        0 <= k < list.len() && (#[trigger] list[k]).unsigned_at("index"@) is Some ==> has_index(
            calls,
            list[k].unsigned_at("index"@)->0,
        )
    &&& forall|index: u64|
        !(#[trigger] has_index(calls, index)) ==> last_of(list, index, false) is None && last_of(
            list,
            index,
            true,
        ) is None && arguments_of(list, index).len() == 0
}

/// Whether a call of an index is there.
pub open spec fn has_index(calls: Seq<Call>, index: u64) -> bool {
    exists|i: int| 0 <= i < calls.len() && (#[trigger] calls[i]).slot.index == index
}

proof fn lemma_slot(calls: Seq<Call>, index: u64, from: int)
    requires
        0 <= from,
    ensures
        match slot_at(slots_of(calls), index, from) {
            Some(at) => from <= at < calls.len() && calls[at].slot.index == index,
            None => forall|i: int|
                from <= i < calls.len() ==> (#[trigger] calls[i]).slot.index != index,
        },
    decreases calls.len() - from,
{
    if from < calls.len() {
        assert(slots_of(calls)[from] == calls[from].slot);
        if calls[from].slot.index != index {
            lemma_slot(calls, index, from + 1);
        }
    }
}

proof fn lemma_spelled(calls: Seq<Call>, list: Seq<JsonV>, fragment: JsonV)
    requires
        spelled_by(calls, list),
        fragment.unsigned_at("index"@) is Some,
    ensures
        spelled_by(with_fragment(calls, fragment), list.push(fragment)),
{
    let index = fragment.unsigned_at("index"@)->0;
    let more = list.push(fragment);
    let next = with_fragment(calls, fragment);
    assert(more.drop_last() =~= list);
    lemma_slot(calls, index, 0);
    let found = slot_at(slots_of(calls), index, 0);
    if let Some(at) = found {
        assert(has_index(calls, index));
        assert(slots_of(calls)[at] == calls[at].slot);
        assert(next[at].slot.index == index);
    } else {
        assert(!has_index(calls, index)) by {
            if has_index(calls, index) {
                let i = choose|i: int|
                    0 <= i < calls.len() && (#[trigger] calls[i]).slot.index == index;
                assert(calls[i].slot.index != index);
            }
        }
        assert(next[calls.len() as int].slot.index == index);
        assert(arguments_of(list, index) + arguments_in(fragment) =~= arguments_in(fragment));
    }
    assert(has_index(next, index)) by {
        if let Some(at) = found {
            assert(next[at].slot.index == index);
        } else {
            assert(next[calls.len() as int].slot.index == index);
        }
    }
    assert forall|i: int| 0 <= i < next.len() implies {
        let at = (#[trigger] next[i]).slot.index;
        &&& next[i].slot.id == last_of(more, at, false)
        &&& next[i].slot.name == last_of(more, at, true)
        &&& next[i].arguments == arguments_of(more, at)
    } by {
        if i < calls.len() && found != Some(i) {
            assert(next[i] == calls[i]);
            assert(calls[i].slot.index != index) by {
                if let Some(at) = found {
                    if i < at {
                        assert(calls[i].slot.index != calls[at].slot.index);
                    } else {
                        assert(calls[at].slot.index != calls[i].slot.index);
                    }
                }
            }
        }
    }
    assert forall|i: int, j: int| 0 <= i < j < next.len() implies (
    #[trigger] next[i]).slot.index != (#[trigger] next[j]).slot.index by {
        if j < calls.len() {
            assert(next[i].slot.index == calls[i].slot.index);
            assert(next[j].slot.index == calls[j].slot.index);
            assert(calls[i].slot.index != calls[j].slot.index);
        } else {
            assert(next[i].slot.index == calls[i].slot.index);
        }
    }
    assert forall|other: u64| has_index(calls, other) implies #[trigger] has_index(
        next,
        other,
    ) by {
        let i = choose|i: int| 0 <= i < calls.len() && (#[trigger] calls[i]).slot.index == other;
        assert(next[i].slot.index == other);
    }
    assert forall|k: int|
        0 <= k < more.len() && (#[trigger] more[k]).unsigned_at("index"@) is Some implies has_index(
        next,
        more[k].unsigned_at("index"@)->0,
    ) by {
        if k < list.len() {
            assert(more[k] == list[k]);
            assert(has_index(calls, list[k].unsigned_at("index"@)->0));
        }
    }
    assert forall|other: u64| !(#[trigger] has_index(next, other)) implies last_of(
        more,
        other,
        false,
    ) is None && last_of(more, other, true) is None && arguments_of(more, other).len() == 0 by {
        assert(!has_index(calls, other));
        assert(other != index);
    }
}

proof fn lemma_spelled_all(calls: Seq<Call>, list: Seq<JsonV>, fragments: Seq<JsonV>)
    requires
        spelled_by(calls, list),
        forall|k: int|
            0 <= k < fragments.len() ==> (#[trigger] fragments[k]).unsigned_at("index"@) is Some,
    ensures
        spelled_by(with_fragments(calls, fragments), list + fragments),
    decreases fragments.len(),
{
    if fragments.len() == 0 {
        assert(list + fragments =~= list);
    } else {
        let fewer = fragments.drop_last();
        assert forall|k: int| 0 <= k < fewer.len() implies (#[trigger] fewer[k]).unsigned_at(
            "index"@,
        ) is Some by {
            assert(fewer[k] == fragments[k]);
        }
        lemma_spelled_all(calls, list, fewer);
        assert(fragments[fragments.len() - 1].unsigned_at("index"@) is Some);
        lemma_spelled(with_fragments(calls, fewer), list + fewer, fragments.last());
        assert((list + fewer).push(fragments.last()) =~= list + fragments);
    }
}

/// The call fragments of some frames, chunk after chunk.
pub open spec fn fragments_in(frames: Seq<Seq<char>>) -> Seq<JsonV>
    decreases frames.len(),
{
    if frames.len() == 0 {
        Seq::empty()
    } else {
        fragments_in(frames.drop_last()) + chunk_delta(parsed(frames.last())->0).items_at(
            "tool_calls"@,
        )
    }
}

/// The texts of some frames, chunk after chunk.
pub open spec fn texts_in_frames(frames: Seq<Seq<char>>) -> Seq<char>
    decreases frames.len(),
{
    if frames.len() == 0 {
        Seq::empty()
    } else {
        texts_in_frames(frames.drop_last()) + message_text(
            chunk_delta(parsed(frames.last())->0),
        )
    }
}

/// The thoughts of some frames, chunk after chunk.
pub open spec fn thoughts_in_frames(frames: Seq<Seq<char>>) -> Seq<char>
    decreases frames.len(),
{
    if frames.len() == 0 {
        Seq::empty()
    } else {
        thoughts_in_frames(frames.drop_last()) + message_thought(
            chunk_delta(parsed(frames.last())->0),
        )
    }
}

/// What a chat stream gathers is what its fragments say: all its text, all its
/// thought, and a call for each index with the last id and name its fragments
/// brought and all their arguments.
pub proof fn law_chat_gathers_its_fragments(frames: Seq<Seq<char>>)
    requires
        gathered(frames) is Some,
    ensures
        ({
            let g = gathered(frames)->0;
            &&& g.text == texts_in_frames(frames)
            &&& g.thought == thoughts_in_frames(frames)
            &&& spelled_by(g.calls, fragments_in(frames))
        }),
    decreases frames.len(),
{
    if frames.len() > 0 {
        law_chat_gathers_its_fragments(frames.drop_last());
        let delta = chunk_delta(parsed(frames.last())->0);
        lemma_read(delta);
        let g = gathered(frames.drop_last())->0;
        let list = delta.items_at("tool_calls"@);
        assert(super::messages::frame_delta(frames.last()) == delta);
        assert forall|k: int| 0 <= k < list.len() implies (#[trigger] list[k]).unsigned_at(
            "index"@,
        ) is Some by {
            assert(super::messages::frame_delta(frames.last()).items_at("tool_calls"@)[k] == list[k]);
        }
        lemma_spelled_all(g.calls, fragments_in(frames.drop_last()), list);
        assert(g.text + message_text(delta) =~= gathered(frames)->0.text);
        assert(g.thought + message_thought(delta) =~= gathered(frames)->0.thought);
    }
}

/// An open block, or a new one, passes a fragment on.
proof fn lemma_appended(s: AssemblerV, id: Seq<char>, kind: KindV, text: Seq<char>)
    requires
        !s.completed,
        locate(s.blocks, id, 0) is None || takes(s, id, kind),
        kind is Text || kind is Reasoning || kind is ToolCall,
    ensures
        passes(append_step(s, id, kind, text).1, crate::assembler::delta(kind, id, text)),
{
    let (started, opening) = start_step(s, id, kind);
    if locate(s.blocks, id, 0) is None {
        lemma_located_last(s.blocks, crate::assembler::fresh(id, kind), 0);
    }
    let event = crate::assembler::delta(kind, id, text);
    assert(opening.push(event)[opening.len() as int] == event);
}

/// The kinds of delta events are different texts.
proof fn lemma_delta_kinds()
    ensures
        "response.output_item.added"@.len() == 26,
        "response.output_text.delta"@.len() == 26,
        "response.output_item.added"@[16] == 'i',
        "response.output_text.delta"@[16] == 't',
        "response.reasoning_text.delta"@.len() == 29,
        "response.reasoning_summary_text.delta"@.len() == 37,
        "response.function_call_arguments.delta"@.len() == 38,
        "response.custom_tool_call_input.delta"@.len() == 37,
        "response.reasoning_summary_text.delta"@[9] == 'r',
        "response.custom_tool_call_input.delta"@[9] == 'c',
{
    reveal_strlit("response.output_item.added");
    reveal_strlit("response.output_text.delta");
    reveal_strlit("response.reasoning_text.delta");
    reveal_strlit("response.reasoning_summary_text.delta");
    reveal_strlit("response.function_call_arguments.delta");
    reveal_strlit("response.custom_tool_call_input.delta");
}

/// A text fragment of a Responses stream is passed on as it is, to the item it
/// names, and so is a fragment of a call's input, unless the item has ended or
/// is none the caller can answer.
pub proof fn law_responses_fragments_are_passed_on(
    s: openai::stream::ResponsesV,
    value: JsonV,
    id: Seq<char>,
    text: Seq<char>,
)
    requires
        !s.assembler.completed,
        value.text_at("item_id"@) == Some(id),
        value.text_at("delta"@) == Some(text),
    ensures
        locate(s.assembler.blocks, id, 0) is None || takes(s.assembler, id, KindV::Text) ==> passes(
            openai::stream::event_step(s, "response.output_text.delta"@, value).1,
            EventV::TextDelta { block: id, text },
        ),
        (locate(s.assembler.blocks, id, 0) is None || takes(s.assembler, id, fallback_call(id)))
            && !s.skipped.contains(id) ==> passes(
            openai::stream::event_step(
                s,
                "response.function_call_arguments.delta"@,
                value,
            ).1,
            EventV::ToolCallDelta { block: id, text },
        ) && passes(
            openai::stream::event_step(s, "response.custom_tool_call_input.delta"@, value).1,
            EventV::ToolCallDelta { block: id, text },
        ),
{
    lemma_delta_kinds();
    if locate(s.assembler.blocks, id, 0) is None || takes(s.assembler, id, KindV::Text) {
        lemma_appended(s.assembler, id, KindV::Text, text);
    }
    if locate(s.assembler.blocks, id, 0) is None || takes(s.assembler, id, fallback_call(id)) {
        lemma_appended(s.assembler, id, fallback_call(id), text);
    }
}

proof fn lemma_no_entry(list: Seq<openai::stream::EntryV>, id: Seq<char>, from: int)
    requires
        forall|i: int| 0 <= i < list.len() ==> (#[trigger] list[i]).block != id,
    ensures
        openai::stream::entry_at(list, id, from) is None,
    decreases list.len() - from,
{
    if 0 <= from < list.len() {
        assert(list[from].block != id);
        lemma_no_entry(list, id, from + 1);
    }
}

/// A thought fragment of a Responses stream is passed on as it is, the first of
/// its item at least, and the first of a later entry behind a blank line.
pub proof fn law_responses_thoughts_are_passed_on(
    s: openai::stream::ResponsesV,
    value: JsonV,
    id: Seq<char>,
    text: Seq<char>,
    later: JsonV,
    more: Seq<char>,
)
    requires
        !s.assembler.completed,
        locate(s.assembler.blocks, id, 0) is None,
        forall|i: int|
            0 <= i < s.reasoning_entries.len() ==> (#[trigger] s.reasoning_entries[i]).block != id,
        value.text_at("item_id"@) == Some(id),
        value.text_at("delta"@) == Some(text),
        later.text_at("item_id"@) == Some(id),
        later.text_at("delta"@) == Some(more),
    ensures
        ({
            let (next, sent) = openai::stream::event_step(
                s,
                "response.reasoning_summary_text.delta"@,
                value,
            );
            let then = openai::stream::event_step(
                next,
                "response.reasoning_summary_text.delta"@,
                later,
            ).1;
            let first = match value.unsigned_at("summary_index"@) {
                Some(index) => index,
                None => 0,
            };
            let second = match later.unsigned_at("summary_index"@) {
                Some(index) => index,
                None => 0,
            };
            &&& passes(sent, EventV::ReasoningDelta { block: id, text })
            &&& second > first ==> passes(
                then,
                EventV::ReasoningDelta { block: id, text: "\n\n"@ + more },
            )
            &&& second <= first ==> passes(then, EventV::ReasoningDelta { block: id, text: more })
        }),
        passes(
            openai::stream::event_step(s, "response.reasoning_text.delta"@, value).1,
            EventV::ReasoningDelta { block: id, text },
        ),
{
    lemma_delta_kinds();
    lemma_no_entry(s.reasoning_entries, id, 0);
    lemma_appended(s.assembler, id, KindV::Reasoning, text);
    let channel = openai::stream::Channel::Summary;
    let entry = openai::stream::EntryV {
        block: id,
        channel,
        index: openai::stream::fragment_index(value, channel),
    };
    let next = openai::stream::event_step(
        s,
        "response.reasoning_summary_text.delta"@,
        value,
    ).0;
    assert(next.reasoning_entries == s.reasoning_entries.push(entry));
    lemma_entry_last(s.reasoning_entries, entry, 0);
    lemma_located_last(
        s.assembler.blocks,
        crate::assembler::fresh(id, KindV::Reasoning),
        0,
    );
    let at = s.assembler.blocks.len() as int;
    let started = start_step(s.assembler, id, KindV::Reasoning).0;
    let block = BlockV {
        buffer: Seq::<char>::empty() + text,
        ..crate::assembler::fresh(id, KindV::Reasoning)
    };
    assert(next.assembler.blocks =~= s.assembler.blocks.push(block));
    lemma_located_last(s.assembler.blocks, block, 0);
    assert(takes(next.assembler, id, KindV::Reasoning));
    lemma_appended(next.assembler, id, KindV::Reasoning, more);
    lemma_appended(next.assembler, id, KindV::Reasoning, "\n\n"@ + more);
}

proof fn lemma_entry_last(
    list: Seq<openai::stream::EntryV>,
    entry: openai::stream::EntryV,
    from: int,
)
    requires
        0 <= from <= list.len(),
        forall|i: int| 0 <= i < list.len() ==> (#[trigger] list[i]).block != entry.block,
    ensures
        openai::stream::entry_at(list.push(entry), entry.block, from) == Some(list.len() as int),
    decreases list.len() - from,
{
    if from < list.len() {
        assert(list.push(entry)[from] == list[from]);
        lemma_entry_last(list, entry, from + 1);
    }
}

/// An event belongs to the item it names, to the item it carries, or to the
/// place it gives.
pub proof fn law_responses_events_name_their_item(value: JsonV)
    ensures
        ({
            let block = openai::stream::event_block(value);
            let inner = match value.get2("item"@, "id"@) {
                Some(JsonV::Text(id)) => Some(id),
                _ => None,
            };
            &&& value.text_at("item_id"@) matches Some(id) ==> block == id
            &&& value.text_at("item_id"@) is None && inner is Some ==> Some(block) == inner
            &&& value.text_at("item_id"@) is None && inner is None ==> block == "block-"@
                + decimal(
                match value.unsigned_at("output_index"@) {
                    Some(index) => index as nat,
                    None => 0,
                },
            )
        }),
{
}

/// A named call of a Responses stream is announced by what its item names: its
/// call id, its name and its kind.
pub proof fn law_responses_calls_are_announced(
    s: openai::stream::ResponsesV,
    value: JsonV,
    item: JsonV,
    id: Seq<char>,
    call_id: Seq<char>,
    name: Seq<char>,
)
    requires
        !s.assembler.completed,
        value.text_at("item_id"@) == Some(id),
        value.get("item"@) == Some(item),
        item.text_at("type"@) == Some("function_call"@) || item.text_at("type"@) == Some(
            "custom_tool_call"@,
        ),
        item.text_at("call_id"@) == Some(call_id),
        item.text_at("name"@) == Some(name),
        name.len() > 0,
        locate(s.assembler.blocks, id, 0) is None,
    ensures
        passes(
            openai::stream::event_step(s, "response.output_item.added"@, value).1,
            EventV::Start {
                block: id,
                kind: KindV::ToolCall {
                    id: call_id,
                    name: Some(name),
                    kind: if item.text_at("type"@) == Some("custom_tool_call"@) {
                        crate::types::ToolCallKind::Custom
                    } else {
                        crate::types::ToolCallKind::Function
                    },
                },
            },
        ),
{
    lemma_keys();
    lemma_delta_kinds();
    let sent = openai::stream::event_step(s, "response.output_item.added"@, value).1;
    assert(sent[0] is Start);
}

} // verus!
