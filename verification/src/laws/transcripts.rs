//! Laws of whole Responses transcripts: a stream completes with the content of
//! the items it carried.

use vstd::prelude::*;

use super::agreement::ended_well;
use super::agreement::law_a_streamed_item_agrees;
use super::agreement::lemma_types_differ;
use super::agreement::may_end;
use super::streams::responses_run;
use super::streams::Frame;
use crate::assembler::append_step;
use crate::assembler::begun;
use crate::assembler::block_of;
use crate::assembler::called;
use crate::assembler::end_step;
use crate::assembler::fallback_call;
use crate::assembler::fresh;
use crate::assembler::identity_step;
use crate::assembler::kept_parts;
use crate::assembler::lemma_locate;
use crate::assembler::lemma_located_last;
use crate::assembler::locate;
use crate::assembler::start_step;
use crate::assembler::AssemblerV;
use crate::assembler::BlockV;
use crate::assembler::Phase;
use crate::json::JsonV;
use crate::openai::decode::call_kind;
use crate::openai::decode::decoded;
use crate::openai::decode::document_refusal;
use crate::openai::decode::has_call;
use crate::openai::decode::has_own_id;
use crate::openai::decode::internal;
use crate::openai::decode::item_metadata;
use crate::openai::decode::output_parts;
use crate::openai::decode::output_texts;
use crate::openai::decode::thought_text;
use crate::openai::decode::typed;
use crate::openai::encode::MESSAGE_KIND;
use crate::openai::encode::NAMESPACE;
use crate::openai::encode::REASONING_KIND;
use crate::openai::stream::end_item_step;
use crate::openai::stream::end_reasoning_step;
use crate::openai::stream::ending;
use crate::openai::stream::event_block;
use crate::openai::stream::event_delta;
use crate::openai::stream::event_document;
use crate::openai::stream::event_failure;
use crate::openai::stream::event_item;
use crate::openai::stream::event_kind;
use crate::openai::stream::event_step;
use crate::openai::stream::finish_step;
use crate::openai::stream::frame_step;
use crate::openai::stream::fresh_responses;
use crate::openai::stream::item_identity;
use crate::openai::stream::latch_step;
use crate::openai::stream::opaque_block;
use crate::openai::stream::opaque_step;
use crate::openai::stream::reconcile_item_step;
use crate::openai::stream::settle_block_step;
use crate::openai::stream::start_item_step;
use crate::openai::stream::terminal_step;
use crate::openai::stream::with_name;
use crate::openai::stream::without_entry;
use crate::openai::stream::ResponsesV;
use crate::openai_chat::decode::text_or_empty;
use crate::response::without_calls;
use crate::response::EventV;
use crate::response::FinishV;
use crate::response::KindV;
use crate::response::ResponseV;
use crate::response::TokenCounts;
use crate::serial::parsed;
use crate::text::trim;
use crate::types::PartV;
use crate::types::RouteV;

verus! {

broadcast use {vstd::seq::group_seq_axioms, vstd::map::group_map_axioms};

/// What the events of an item have shown it to be.
pub enum Sort {
    Text,
    Reasoning,
    Call,
    /// A model-internal call, which has no block.
    Hidden,
}

/// The item a transcript is telling: its name, what its events have shown it
/// to be, and the metadata its announcement carried.
pub struct Current {
    pub id: Seq<char>,
    pub sort: Option<Sort>,
    pub metadata: Option<JsonV>,
}

/// What a transcript has told: the items that ended, in order, their names,
/// and the item it is telling.
pub struct Told {
    pub items: Seq<JsonV>,
    pub ids: Seq<Seq<char>>,
    pub current: Option<Current>,
}

/// Whether a name, and the name derived from it, stands for no earlier item.
pub open spec fn unused(ids: Seq<Seq<char>>, id: Seq<char>) -> bool {
    forall|k: int|
        0 <= k < ids.len() ==> #[trigger] ids[k] != id && ids[k] + "-item"@ != id && ids[k] != id
            + "-item"@
}

/// The item an event of a name belongs to: the one being told, or a new one
/// when none is.
pub open spec fn entered(t: Told, id: Seq<char>) -> Option<Current> {
    match t.current {
        Some(current) => if current.id == id {
            Some(current)
        } else {
            None
        },
        None => if unused(t.ids, id) {
            Some(Current { id, sort: None, metadata: None })
        } else {
            None
        },
    }
}

/// A told transcript whose item has been shown to be of some sort.
pub open spec fn shown(t: Told, current: Current, sort: Sort) -> Option<Told> {
    if current.sort is None || current.sort == Some(sort) {
        Some(Told { current: Some(Current { sort: Some(sort), ..current }), ..t })
    } else {
        None
    }
}

/// Whether an item is what its events have shown it to be.
pub open spec fn as_shown(current: Current, item: JsonV) -> bool {
    match current.sort {
        None => true,
        Some(Sort::Text) => typed(item, "message"@),
        Some(Sort::Reasoning) => typed(item, "reasoning"@),
        Some(Sort::Call) => call_kind(item) is Some && (internal(item) || has_own_id(item)
            || current.metadata is None),
        Some(Sort::Hidden) => internal(item),
    }
}

/// Tells one event. `None` where the items interleave, where a name stands for
/// two items, where an item is not what its events showed, and where the
/// stream ends.
pub open spec fn told_event(t: Told, kind: Seq<char>, value: JsonV) -> Option<Told> {
    let item = event_item(value);
    let entry = entered(t, event_block(value));
    if kind == "response.output_item.added"@ {
        match entry {
            None => None,
            Some(current) => if internal(item) {
                shown(t, current, Sort::Hidden)
            } else if call_kind(item) is Some {
                shown(
                    t,
                    Current {
                        metadata: if has_own_id(item) {
                            Some(item_metadata(item.text_at("id"@)->0))
                        } else {
                            current.metadata
                        },
                        ..current
                    },
                    Sort::Call,
                )
            } else {
                Some(Told { current: Some(current), ..t })
            },
        }
    } else if kind == "response.output_text.delta"@ {
        match entry {
            None => None,
            Some(current) => shown(t, current, Sort::Text),
        }
    } else if kind == "response.reasoning_text.delta"@ || kind
        == "response.reasoning_summary_text.delta"@ {
        match entry {
            None => None,
            Some(current) => shown(t, current, Sort::Reasoning),
        }
    } else if kind == "response.function_call_arguments.delta"@ || kind
        == "response.custom_tool_call_input.delta"@ {
        match entry {
            None => None,
            Some(current) => if current.sort == Some(Sort::Hidden) {
                Some(t)
            } else {
                shown(t, current, Sort::Call)
            },
        }
    } else if kind == "response.output_item.done"@ {
        match entry {
            Some(current) if as_shown(current, item) => Some(
                Told { items: t.items.push(item), ids: t.ids.push(current.id), current: None },
            ),
            _ => None,
        }
    } else if kind == "error"@ || kind == "response.failed"@ || kind == "response.completed"@
        || kind == "response.incomplete"@ {
        None
    } else {
        Some(t)
    }
}

/// What a frame says: nothing, or an event.
pub open spec fn frame_event(frame: Frame) -> Option<(Seq<char>, JsonV)> {
    let data = trim(frame.0);
    if data.len() == 0 || data == "[DONE]"@ {
        None
    } else {
        match parsed(data) {
            Some(value) => Some((event_kind(value, frame.1), value)),
            None => None,
        }
    }
}

/// What frames tell: items that each end once, in order, under distinct names.
pub open spec fn told(frames: Seq<Frame>) -> Option<Told>
    decreases frames.len(),
{
    if frames.len() == 0 {
        Some(Told { items: Seq::empty(), ids: Seq::empty(), current: None })
    } else {
        match told(frames.drop_last()) {
            None => None,
            Some(t) => match frame_event(frames.last()) {
                None => Some(t),
                Some((kind, value)) => told_event(t, kind, value),
            },
        }
    }
}

/// Whether an item has a block.
pub open spec fn has_block(current: Option<Current>) -> bool {
    match current {
        Some(current) => current.sort is Some && !(current.sort->0 is Hidden),
        None => false,
    }
}

/// The blocks of the items that ended.
pub open spec fn settled_blocks(s: ResponsesV, t: Told) -> Seq<BlockV> {
    if has_block(t.current) {
        s.assembler.blocks.drop_last()
    } else {
        s.assembler.blocks
    }
}

/// Whether a name is that of an item, or derived from it.
pub open spec fn stands_for(ids: Seq<Seq<char>>, name: Seq<char>) -> bool {
    exists|k: int| 0 <= k < ids.len() && (#[trigger] ids[k] == name || ids[k] + "-item"@ == name)
}

/// The metadata of a call with an announced item id.
pub open spec fn metadata_of(metadata: Option<JsonV>) -> Map<Seq<char>, JsonV> {
    match metadata {
        Some(value) => Map::empty().insert(NAMESPACE@, value),
        None => Map::empty(),
    }
}

/// Whether a block is the one the events of an item left.
pub open spec fn left_by(block: BlockV, current: Current) -> bool {
    &&& block.id == current.id
    &&& block.phase == Phase::Open
    &&& block.signature is None
    &&& match current.sort {
        Some(Sort::Text) => block.kind is Text,
        Some(Sort::Reasoning) => block.kind is Reasoning,
        Some(Sort::Call) => block.kind is ToolCall && block.metadata == metadata_of(
            current.metadata,
        ),
        _ => false,
    }
}

/// Whether a decoder is where a transcript leads.
pub open spec fn follows(s: ResponsesV, t: Told) -> bool {
    &&& !s.assembler.completed
    &&& !s.failed
    &&& s.assembler.finish is None
    &&& s.assembler.signatures is None
    &&& kept_parts(settled_blocks(s, t), None) == output_parts(t.items)
    &&& forall|i: int|
        0 <= i < settled_blocks(s, t).len() ==> stands_for(
            t.ids,
            (#[trigger] settled_blocks(s, t)[i]).id,
        )
    &&& forall|name: Seq<char>| #[trigger]
        s.delivered.contains(name) ==> stands_for(t.ids, name) || (t.current is Some && name
            == t.current->0.id && has_block(t.current))
    &&& forall|name: Seq<char>| #[trigger]
        s.skipped.contains(name) ==> stands_for(t.ids, name) || (t.current is Some && name
            == t.current->0.id && t.current->0.sort == Some(Sort::Hidden))
    &&& t.current matches Some(current) ==> {
        &&& unused(t.ids, current.id)
        &&& current.sort == Some(Sort::Hidden) ==> s.skipped.contains(current.id)
        &&& current.sort == Some(Sort::Text) || current.sort == Some(Sort::Reasoning)
            ==> s.delivered.contains(current.id)
        &&& has_block(t.current) ==> s.assembler.blocks.len() > 0 && left_by(
            s.assembler.blocks.last(),
            current,
        )
    }
}

/// An unused name is that of no block, nor is the name derived from it.
proof fn lemma_unused(s: ResponsesV, t: Told, id: Seq<char>)
    requires
        follows(s, t),
        unused(t.ids, id),
    ensures
        !stands_for(t.ids, id),
        locate(settled_blocks(s, t), id, 0) is None,
        locate(settled_blocks(s, t), id + "-item"@, 0) is None,
{
    let base = settled_blocks(s, t);
    lemma_locate(base, id, 0);
    lemma_locate(base, id + "-item"@, 0);
    lemma_types_differ();
    if let Some(at) = locate(base, id + "-item"@, 0) {
        assert(stands_for(t.ids, base[at].id));
        let k = choose|k: int|
            0 <= k < t.ids.len() && (#[trigger] t.ids[k] == base[at].id || t.ids[k] + "-item"@
                == base[at].id);
        assert(t.ids[k] != id);
        if t.ids[k] + "-item"@ == id + "-item"@ {
            assert((t.ids[k] + "-item"@).len() == (id + "-item"@).len());
            assert(t.ids[k] =~= (t.ids[k] + "-item"@).take(id.len() as int));
            assert(id =~= (id + "-item"@).take(id.len() as int));
        }
    }
    if let Some(at) = locate(base, id, 0) {
        assert(stands_for(t.ids, base[at].id));
    }
}

/// The blocks are those that ended, and the one being told.
proof fn lemma_standing(s: ResponsesV, t: Told, current: Current)
    requires
        follows(s, t),
        t.current == Some(current),
        has_block(t.current),
    ensures
        s.assembler.blocks == settled_blocks(s, t).push(s.assembler.blocks.last()),
        locate(s.assembler.blocks, current.id, 0) == Some(settled_blocks(s, t).len() as int),
        block_of(s.assembler, current.id) == s.assembler.blocks.last(),
{
    let base = settled_blocks(s, t);
    let block = s.assembler.blocks.last();
    assert(s.assembler.blocks =~= base.push(block));
    lemma_unused(s, t, current.id);
    lemma_located_last(base, block, 0);
}

/// A name once listed stays listed.
proof fn lemma_listed(list: Seq<Seq<char>>, name: Seq<char>)
    ensures
        with_name(list, name).contains(name),
        forall|other: Seq<char>| #[trigger]
            with_name(list, name).contains(other) ==> list.contains(other) || other == name,
        forall|other: Seq<char>|
            list.contains(other) ==> #[trigger] with_name(list, name).contains(other),
{
    let after = with_name(list, name);
    if !list.contains(name) {
        assert(after[list.len() as int] == name);
        assert forall|other: Seq<char>| #[trigger] after.contains(other) implies list.contains(
            other,
        ) || other == name by {
            let i = choose|i: int| 0 <= i < after.len() && after[i] == other;
            if i < list.len() {
                assert(list[i] == other);
            }
        }
        assert forall|other: Seq<char>| list.contains(other) implies #[trigger] after.contains(
            other,
        ) by {
            let i = choose|i: int| 0 <= i < list.len() && list[i] == other;
            assert(after[i] == other);
        }
    }
}

/// The decoder once an event has entered its item: the item is the one being
/// told, new or not.
proof fn lemma_entered(s: ResponsesV, t: Told, id: Seq<char>)
    requires
        follows(s, t),
        entered(t, id) is Some,
    ensures
        follows(s, Told { current: entered(t, id), ..t }),
        entered(t, id)->0.id == id,
{
    let next = Told { current: entered(t, id), ..t };
    if t.current is None {
        assert(settled_blocks(s, next) == settled_blocks(s, t));
        lemma_unused(s, t, id);
    }
}

/// A fragment of the item being told.
proof fn lemma_told_fragment(
    s: ResponsesV,
    t: Told,
    next: ResponsesV,
    kind: KindV,
    sort: Sort,
    text: Seq<char>,
)
    requires
        follows(s, t),
        t.current is Some,
        shown(t, t.current->0, sort) is Some,
        match sort {
            Sort::Text => kind is Text,
            Sort::Reasoning => kind is Reasoning,
            Sort::Call => kind is ToolCall,
            Sort::Hidden => false,
        },
        sort is Call ==> t.current->0.sort is None ==> t.current->0.metadata is None,
        next.assembler == append_step(s.assembler, t.current->0.id, kind, text).0,
        next.delivered == with_name(s.delivered, t.current->0.id),
        next.skipped == s.skipped,
        next.failed == s.failed,
    ensures
        follows(next, shown(t, t.current->0, sort)->0),
{
    let current = t.current->0;
    let id = current.id;
    let after = shown(t, current, sort)->0;
    let base = settled_blocks(s, t);
    lemma_unused(s, t, id);
    lemma_listed(s.delivered, id);
    let block = if has_block(t.current) {
        s.assembler.blocks.last()
    } else {
        fresh(id, kind)
    };
    if has_block(t.current) {
        lemma_standing(s, t, current);
    }
    let started = start_step(s.assembler, id, kind).0;
    assert(started.blocks == base.push(block));
    lemma_located_last(base, block, 0);
    let changed = BlockV { buffer: block.buffer + text, ..block };
    assert(base.push(block).update(base.len() as int, changed) =~= base.push(changed));
    assert(next.assembler.blocks == base.push(changed));
    assert(base.push(changed).drop_last() =~= base);
    assert(settled_blocks(next, after) == base);
    assert(next.assembler.blocks.last() == changed);
}

/// The announcement of a named call.
proof fn lemma_told_call(s: ResponsesV, t: Told, item: JsonV)
    requires
        follows(s, t),
        t.current is Some,
        !internal(item),
        call_kind(item) is Some,
        t.current->0.sort is None || t.current->0.sort == Some(Sort::Call),
        t.current->0.sort is None ==> t.current->0.metadata is None,
    ensures
        follows(
            start_item_step(s, t.current->0.id, item).0,
            Told {
                current: Some(
                    Current {
                        sort: Some(Sort::Call),
                        metadata: if has_own_id(item) {
                            Some(item_metadata(item.text_at("id"@)->0))
                        } else {
                            t.current->0.metadata
                        },
                        ..t.current->0
                    },
                ),
                ..t
            },
        ),
{
    let current = t.current->0;
    let id = current.id;
    let base = settled_blocks(s, t);
    let identity = item_identity(item);
    lemma_unused(s, t, id);
    let block = if has_block(t.current) {
        s.assembler.blocks.last()
    } else {
        fresh(id, identity)
    };
    if has_block(t.current) {
        lemma_standing(s, t, current);
    }
    let first = start_step(s.assembler, id, identity).0;
    assert(first.blocks == base.push(block));
    lemma_located_last(base, block, 0);
    let named = BlockV { kind: identity, ..block };
    assert(base.push(block).update(base.len() as int, named) =~= base.push(named));
    let second = identity_step(first, id, identity);
    assert(second.blocks == base.push(named));
    lemma_located_last(base, named, 0);
    let next = start_item_step(s, id, item).0;
    let metadata = if has_own_id(item) {
        Some(item_metadata(item.text_at("id"@)->0))
    } else {
        current.metadata
    };
    let whole = BlockV { metadata: metadata_of(metadata), ..named };
    if has_own_id(item) {
        let value = item_metadata(item.text_at("id"@)->0);
        assert(named.metadata.insert(NAMESPACE@, value) =~= metadata_of(metadata));
        assert(base.push(named).update(base.len() as int, whole) =~= base.push(whole));
    }
    assert(next.assembler.blocks == base.push(whole));
    assert(base.push(whole).drop_last() =~= base);
    assert(next.assembler.blocks.last() == whole);
}

/// The item being told may end.
proof fn lemma_may_end(s: ResponsesV, t: Told, item: JsonV)
    requires
        follows(s, t),
        t.current is Some,
        as_shown(t.current->0, item),
    ensures
        may_end(s, settled_blocks(s, t), t.current->0.id, item),
{
    let current = t.current->0;
    let id = current.id;
    let base = settled_blocks(s, t);
    lemma_types_differ();
    lemma_unused(s, t, id);
    if has_block(t.current) {
        lemma_standing(s, t, current);
        assert(s.assembler.blocks != base);
        let block = s.assembler.blocks.last();
        if current.sort == Some(Sort::Call) && current.metadata is Some {
            assert(block.metadata =~= Map::<Seq<char>, JsonV>::empty().insert(
                NAMESPACE@,
                block.metadata[NAMESPACE@],
            ));
        }
        if s.skipped.contains(id) {
            assert(stands_for(t.ids, id));
        }
    } else {
        if s.delivered.contains(id) {
            assert(stands_for(t.ids, id));
        }
        if s.skipped.contains(id) && current.sort != Some(Sort::Hidden) {
            assert(stands_for(t.ids, id));
        }
    }
}

/// A decoder whose item ended well is where the transcript leads.
proof fn lemma_ended_follows(s: ResponsesV, t: Told, next: ResponsesV, item: JsonV)
    requires
        follows(s, t),
        t.current is Some,
        ended_well(s, next, settled_blocks(s, t), t.current->0.id, item),
        next.assembler.finish is None,
        !next.failed,
    ensures
        follows(
            next,
            Told { items: t.items.push(item), ids: t.ids.push(t.current->0.id), current: None },
        ),
{
    let id = t.current->0.id;
    let base = settled_blocks(s, t);
    let after = Told { items: t.items.push(item), ids: t.ids.push(id), current: None };
    assert(t.items.push(item).drop_last() =~= t.items);
    assert(settled_blocks(next, after) == next.assembler.blocks);
    assert forall|name: Seq<char>| #[trigger] stands_for(t.ids, name) implies stands_for(
        after.ids,
        name,
    ) by {
        let k = choose|k: int|
            0 <= k < t.ids.len() && (#[trigger] t.ids[k] == name || t.ids[k] + "-item"@ == name);
        assert(after.ids[k] == t.ids[k]);
    }
    assert(after.ids[t.ids.len() as int] == id);
    assert(stands_for(after.ids, id));
    assert(stands_for(after.ids, id + "-item"@));
    assert forall|i: int| 0 <= i < next.assembler.blocks.len() implies stands_for(
        after.ids,
        (#[trigger] next.assembler.blocks[i]).id,
    ) by {
        if i < base.len() {
            assert(next.assembler.blocks[i] == base[i]);
            assert(stands_for(t.ids, base[i].id));
        }
    }
    assert forall|name: Seq<char>| #[trigger] next.delivered.contains(name) implies stands_for(
        after.ids,
        name,
    ) by {
        if name != id {
            assert(s.delivered.contains(name));
        }
    }
    assert forall|name: Seq<char>| #[trigger] next.skipped.contains(name) implies stands_for(
        after.ids,
        name,
    ) by {
        if name != id {
            assert(s.skipped.contains(name));
        }
    }
}

/// The end of an item.
proof fn lemma_told_end(s: ResponsesV, t: Told, item: JsonV)
    requires
        follows(s, t),
        t.current is Some,
        as_shown(t.current->0, item),
    ensures
        follows(
            end_item_step(s, t.current->0.id, item).0,
            Told { items: t.items.push(item), ids: t.ids.push(t.current->0.id), current: None },
        ),
{
    let id = t.current->0.id;
    lemma_may_end(s, t, item);
    law_a_streamed_item_agrees(s, settled_blocks(s, t), id, item);
    lemma_end_reblocks(s, id, item);
    lemma_ended_follows(s, t, end_item_step(s, id, item).0, item);
}

/// One event of a transcript.
proof fn lemma_told_event(s: ResponsesV, t: Told, kind: Seq<char>, value: JsonV)
    requires
        follows(s, t),
        told_event(t, kind, value) is Some,
        t.current matches Some(current) ==> (current.sort == Some(Sort::Call) || current.metadata
            is None),
    ensures
        follows(event_step(s, kind, value).0, told_event(t, kind, value)->0),
        event_failure(s.route, kind, value) is None,
        event_step(s, kind, value).0.route == s.route,
        told_event(t, kind, value)->0.current matches Some(current) ==> (current.sort == Some(
            Sort::Call,
        ) || current.metadata is None),
{
    let item = event_item(value);
    let id = event_block(value);
    let text = crate::openai::stream::event_delta(value);
    let next = event_step(s, kind, value).0;
    lemma_kinds_differ();
    if entered(t, id) is Some {
        lemma_entered(s, t, id);
    }
    let inside = Told { current: entered(t, id), ..t };
    if kind == "response.output_item.added"@ {
        if internal(item) {
            lemma_listed(s.skipped, id);
            assert(settled_blocks(next, told_event(t, kind, value)->0) == settled_blocks(s, inside));
        } else if call_kind(item) is Some {
            lemma_told_call(s, inside, item);
        }
    } else if kind == "response.output_text.delta"@ {
        lemma_told_fragment(s, inside, next, KindV::Text, Sort::Text, text);
    } else if kind == "response.reasoning_text.delta"@ {
        let entry = crate::openai::stream::EntryV {
            block: id,
            channel: crate::openai::stream::Channel::Content,
            index: crate::openai::stream::fragment_index(
                value,
                crate::openai::stream::Channel::Content,
            ),
        };
        let spaced = if crate::openai::stream::opens_entry(s.reasoning_entries, entry) {
            "\n\n"@ + text
        } else {
            text
        };
        lemma_told_fragment(s, inside, next, KindV::Reasoning, Sort::Reasoning, spaced);
    } else if kind == "response.reasoning_summary_text.delta"@ {
        let entry = crate::openai::stream::EntryV {
            block: id,
            channel: crate::openai::stream::Channel::Summary,
            index: crate::openai::stream::fragment_index(
                value,
                crate::openai::stream::Channel::Summary,
            ),
        };
        let spaced = if crate::openai::stream::opens_entry(s.reasoning_entries, entry) {
            "\n\n"@ + text
        } else {
            text
        };
        lemma_told_fragment(s, inside, next, KindV::Reasoning, Sort::Reasoning, spaced);
    } else if kind == "response.function_call_arguments.delta"@ || kind
        == "response.custom_tool_call_input.delta"@ {
        if entered(t, id)->0.sort != Some(Sort::Hidden) {
            if s.skipped.contains(id) {
                lemma_unused(s, inside, id);
                assert(stands_for(t.ids, id));
            }
            lemma_told_fragment(s, inside, next, fallback_call(id), Sort::Call, text);
        }
    } else if kind == "response.output_item.done"@ {
        lemma_told_end(s, inside, item);
    }
}

/// The kinds of events are different texts.
pub proof fn lemma_kinds_differ()
    ensures
        "error"@.len() == 5,
        "response.failed"@.len() == 15,
        "response.output_item.added"@.len() == 26,
        "response.output_text.delta"@.len() == 26,
        "response.output_item.added"@ != "response.output_text.delta"@,
        "response.reasoning_text.delta"@.len() == 29,
        "response.reasoning_summary_text.delta"@.len() == 37,
        "response.function_call_arguments.delta"@.len() == 38,
        "response.custom_tool_call_input.delta"@.len() == 37,
        "response.reasoning_summary_text.delta"@ != "response.custom_tool_call_input.delta"@,
        "response.output_item.done"@.len() == 25,
        "response.completed"@.len() == 18,
        "response.incomplete"@.len() == 19,
{
    reveal_strlit("error");
    reveal_strlit("response.failed");
    reveal_strlit("response.output_item.added");
    reveal_strlit("response.output_text.delta");
    reveal_strlit("response.reasoning_text.delta");
    reveal_strlit("response.reasoning_summary_text.delta");
    reveal_strlit("response.function_call_arguments.delta");
    reveal_strlit("response.custom_tool_call_input.delta");
    reveal_strlit("response.output_item.done");
    reveal_strlit("response.completed");
    reveal_strlit("response.incomplete");
    assert("response.output_item.added"@[16] == 'i' && "response.output_text.delta"@[16] == 't');
    assert("response.reasoning_summary_text.delta"@[9] == 'r');
    assert("response.custom_tool_call_input.delta"@[9] == 'c');
}

/// Whether one state came from another by changing its blocks alone.
pub open spec fn reblocked(next: AssemblerV, s: AssemblerV) -> bool {
    next == AssemblerV { blocks: next.blocks, ..s }
}

/// Each item changes the blocks alone: as it starts, as its content is settled,
/// as it is kept whole.
proof fn lemma_item_reblocks(
    s: ResponsesV,
    id: Seq<char>,
    item: JsonV,
    kind: KindV,
    text: Seq<char>,
    phase: Phase,
)
    ensures
        reblocked(append_step(s.assembler, id, kind, text).0, s.assembler),
        reblocked(end_step(s.assembler, id, phase).0, s.assembler),
        reblocked(start_item_step(s, id, item).0.assembler, s.assembler),
        reblocked(settle_block_step(s, id, kind, text).0.assembler, s.assembler),
        reblocked(opaque_step(s, id, text, item).0.assembler, s.assembler),
{
}

/// A reasoning item's end changes the blocks alone.
proof fn lemma_reasoning_reblocks(s: ResponsesV, id: Seq<char>, item: JsonV)
    ensures
        reblocked(end_reasoning_step(s, id, item).0.assembler, s.assembler),
{
    let text = text_or_empty(thought_text(item));
    let kind = KindV::Reasoning;
    let s1 = settle_block_step(s, id, kind, text).0;
    lemma_item_reblocks(s, id, item, kind, text, Phase::Closed);
    lemma_item_reblocks(s1, id, item, kind, text, ending(text));
    let s2 = ResponsesV {
        assembler: end_step(s1.assembler, id, ending(text)).0,
        reasoning_entries: without_entry(s1.reasoning_entries, id),
        ..s1
    };
    lemma_item_reblocks(s2, opaque_block(s2, id), item, kind, REASONING_KIND@, Phase::Closed);
}

/// An item's end changes the blocks alone.
proof fn lemma_end_reblocks(s: ResponsesV, id: Seq<char>, item: JsonV)
    ensures
        reblocked(end_item_step(s, id, item).0.assembler, s.assembler),
        end_item_step(s, id, item).0.failed == s.failed,
{
    lemma_item_reblocks(s, id, item, KindV::Text, Seq::empty(), Phase::Discarded);
    lemma_reasoning_reblocks(s, id, item);
    let s1 = start_item_step(s, id, item).0;
    let said = output_texts(item.items_at("content"@));
    lemma_item_reblocks(s1, id, item, KindV::Text, said, Phase::Closed);
    let arguments = text_or_empty(item.text_at("arguments"@));
    lemma_item_reblocks(s1, id, item, fallback_call(id), arguments, Phase::Closed);
    let input = text_or_empty(item.text_at("input"@));
    lemma_item_reblocks(s1, id, item, fallback_call(id), input, Phase::Closed);
    let s2 = reconcile_item_step(s1, id, item).0;
    let phase = if typed(item, "message"@) {
        ending(said)
    } else {
        Phase::Closed
    };
    lemma_item_reblocks(s2, id, item, KindV::Text, said, phase);
    let s3 = ResponsesV { assembler: end_step(s2.assembler, id, phase).0, ..s2 };
    lemma_item_reblocks(s3, opaque_block(s3, id), item, KindV::Text, MESSAGE_KIND@, phase);
}

/// An event that does not end the stream changes the blocks alone.
proof fn lemma_event_reblocks(s: ResponsesV, kind: Seq<char>, value: JsonV)
    requires
        kind != "response.completed"@,
        kind != "response.incomplete"@,
    ensures
        reblocked(event_step(s, kind, value).0.assembler, s.assembler),
{
    let id = event_block(value);
    let item = event_item(value);
    let text = event_delta(value);
    lemma_item_reblocks(s, id, item, KindV::Text, text, Phase::Closed);
    lemma_item_reblocks(s, id, item, KindV::Reasoning, text, Phase::Closed);
    lemma_item_reblocks(s, id, item, KindV::Reasoning, "\n\n"@ + text, Phase::Closed);
    lemma_item_reblocks(s, id, item, fallback_call(id), text, Phase::Closed);
    lemma_end_reblocks(s, id, item);
}

/// Blocks call a tool where the content they keep does.
proof fn lemma_called(s: AssemblerV)
    ensures
        called(s) <==> has_call(kept_parts(s.blocks, s.signatures)),
    decreases s.blocks.len(),
{
    let content = kept_parts(s.blocks, s.signatures);
    if s.blocks.len() > 0 {
        let n = s.blocks.len() - 1;
        let fewer = AssemblerV { blocks: s.blocks.drop_last(), ..s };
        let earlier = kept_parts(fewer.blocks, s.signatures);
        lemma_called(fewer);
        assert(forall|i: int| 0 <= i < n ==> fewer.blocks[i] == s.blocks[i]);
        assert(forall|i: int| 0 <= i < earlier.len() ==> content[i] == earlier[i]);
        if called(fewer) {
            let i = choose|i: int|
                0 <= i < n && (#[trigger] fewer.blocks[i]).kind is ToolCall
                    && fewer.blocks[i].phase != Phase::Discarded;
            assert(s.blocks[i].kind is ToolCall);
        }
        if has_call(earlier) {
            let i = choose|i: int| 0 <= i < earlier.len() && #[trigger] earlier[i] is ToolCall;
            assert(content[i] is ToolCall);
        }
        if s.blocks[n].phase != Phase::Discarded && s.blocks[n].kind is ToolCall {
            assert(content[earlier.len() as int] is ToolCall);
        }
        if called(s) {
            let i = choose|i: int|
                0 <= i < s.blocks.len() && (#[trigger] s.blocks[i]).kind is ToolCall
                    && s.blocks[i].phase != Phase::Discarded;
            if i < n {
                assert(fewer.blocks[i].kind is ToolCall);
            }
        }
        if has_call(content) {
            let i = choose|i: int| 0 <= i < content.len() && #[trigger] content[i] is ToolCall;
            if i < earlier.len() {
                assert(earlier[i] is ToolCall);
            } else {
                assert(s.blocks[n].kind is ToolCall);
            }
        }
    }
}

/// A transcript leads its decoder to where it stands, and fails nothing.
proof fn lemma_told_run(route: RouteV, frames: Seq<Frame>)
    requires
        told(frames) is Some,
    ensures
        responses_run(fresh_responses(route), frames) is Some,
        follows((responses_run(fresh_responses(route), frames)->0).0, told(frames)->0),
        (responses_run(fresh_responses(route), frames)->0).0.route == route,
        ({
            let assembler = (responses_run(fresh_responses(route), frames)->0).0.assembler;
            assembler == AssemblerV {
                blocks: assembler.blocks,
                id: assembler.id,
                ..begun(route, None)
            }
        }),
        told(frames)->0.current matches Some(current) ==> (current.sort == Some(Sort::Call)
            || current.metadata is None),
    decreases frames.len(),
{
    let fresh = fresh_responses(route);
    if frames.len() == 0 {
        assert(output_parts(Seq::empty()) =~= Seq::<PartV>::empty());
    } else {
        lemma_told_run(route, frames.drop_last());
        let (before, log) = responses_run(fresh, frames.drop_last())->0;
        let t = told(frames.drop_last())->0;
        let (data, event) = frames.last();
        match frame_event(frames.last()) {
            None => {},
            Some((kind, value)) => {
                lemma_kinds_differ();
                let latched = latch_step(before, kind, value).0;
                assert(settled_blocks(latched, t) == settled_blocks(before, t));
                assert(follows(latched, t));
                lemma_told_event(latched, t, kind, value);
                lemma_event_reblocks(latched, kind, value);
            },
        }
    }
}

/// The content of a response that finished for some reason: at the output
/// limit no call is known to be whole.
pub open spec fn finished_content(content: Seq<PartV>, reason: FinishV) -> Seq<PartV> {
    if reason is Length {
        without_calls(content)
    } else {
        content
    }
}

/// A terminal event whose document lists what the blocks keep completes the
/// stream as that document is decoded.
proof fn lemma_terminal(s: ResponsesV, value: JsonV, items: Seq<JsonV>)
    requires
        !s.assembler.completed,
        s.assembler == (AssemblerV {
            blocks: s.assembler.blocks,
            id: s.assembler.id,
            ..begun(s.route, None)
        }),
        kept_parts(s.assembler.blocks, None) == output_parts(items),
    ensures
        ({
            let document = event_document(value);
            let sent = terminal_step(s, value).1;
            &&& sent.len() > 0
            &&& sent.last() matches EventV::Ended { response }
            &&& response.content == finished_content(output_parts(items), response.finish_reason)
            &&& response.raw == Some(document)
            &&& (decoded(s.route, document) is Ok && document.items_at("output"@) == items) ==> {
                let whole = decoded(s.route, document)->Ok_0;
                &&& response == (ResponseV { id: response.id, ..whole })
                &&& whole.id is Some ==> response == whole
            }
        }),
{
    lemma_called(s.assembler);
}

/// A Responses stream whose items each end once, in order, under names of
/// their own, completes with the content that the document decoder finds in
/// those items. With a terminal event whose document lists them, it completes
/// as that document is decoded: every field is the document's, but that a
/// document without an id leaves the id the stream started under. When its
/// transport ends without a terminal event, it completes as a response that
/// was cut short.
pub proof fn law_a_transcript_completes_with_its_items(
    route: RouteV,
    frames: Seq<Frame>,
    last: Frame,
    value: JsonV,
)
    requires
        told(frames) is Some,
        told(frames)->0.current is None,
        frame_event(last) == Some(("response.completed"@, value)) || frame_event(last) == Some(
            ("response.incomplete"@, value),
        ),
        document_refusal(event_document(value)) is None,
    ensures
        responses_run(fresh_responses(route), frames) is Some,
        ({
            let s = (responses_run(fresh_responses(route), frames)->0).0;
            let items = told(frames)->0.items;
            let document = event_document(value);
            let sent = frame_step(s, last.0, last.1).1;
            let ended = finish_step(s).1;
            &&& sent is Ok
            &&& sent->Ok_0.len() > 0
            &&& sent->Ok_0.last() matches EventV::Ended { response }
            &&& response.content == finished_content(output_parts(items), response.finish_reason)
            &&& response.raw == Some(document)
            &&& (decoded(route, document) is Ok && document.items_at("output"@) == items) ==> {
                let whole = decoded(route, document)->Ok_0;
                &&& response == (ResponseV { id: response.id, ..whole })
                &&& whole.id is Some ==> response == whole
            }
            &&& ended.len() > 0
            &&& ended.last() matches EventV::Ended { response: cut }
            &&& cut == (ResponseV {
                provider: route.provider,
                model: route.model,
                id: cut.id,
                content: output_parts(items),
                finish_reason: FinishV::Other("incomplete"@),
                usage: TokenCounts::zero(),
                cost: None,
                raw: None,
                warnings: Seq::empty(),
            })
        }),
{
    lemma_told_run(route, frames);
    lemma_kinds_differ();
    let (s, log) = responses_run(fresh_responses(route), frames)->0;
    let (kind, _) = frame_event(last)->0;
    let latched = latch_step(s, kind, value).0;
    assert(latched.assembler.blocks == s.assembler.blocks);
    lemma_terminal(latched, value, told(frames)->0.items);
}

} // verus!
