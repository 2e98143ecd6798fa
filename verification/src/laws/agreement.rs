//! Laws of agreement: a stream delivers what a document would have held.

use vstd::prelude::*;

use super::blocks::lemma_pushed;
use super::blocks::lemma_updated;
use super::identity::lemma_decimal_injective;
use super::streams::gemini_run;
use crate::assembler::append_step;
use crate::assembler::block_of;
use crate::assembler::block_part;
use crate::assembler::data_step;
use crate::assembler::end_step;
use crate::assembler::fallback_call;
use crate::assembler::fresh;
use crate::assembler::identity_step;
use crate::assembler::kept_parts;
use crate::assembler::lemma_locate;
use crate::assembler::lemma_located_last;
use crate::assembler::locate;
use crate::assembler::metadata_step;
use crate::assembler::reconcile_step;
use crate::assembler::signature_step;
use crate::assembler::start_step;
use crate::assembler::takes;
use crate::assembler::with_block;
use crate::assembler::AssemblerV;
use crate::assembler::BlockV;
use crate::assembler::Phase;
use crate::gemini;
use crate::json::JsonV;
use crate::openai::decode::call_input;
use crate::openai::decode::call_kind;
use crate::openai::decode::call_of;
use crate::openai::decode::has_own_id;
use crate::openai::decode::internal;
use crate::openai::decode::item_metadata;
use crate::openai::decode::output_texts;
use crate::openai::decode::thought_text;
use crate::openai::decode::typed;
use crate::openai::decode::with_item;
use crate::openai::encode::MESSAGE_KIND;
use crate::openai::encode::NAMESPACE;
use crate::openai::encode::REASONING_KIND;
use crate::openai::stream::end_item_step;
use crate::openai::stream::ending;
use crate::openai::stream::item_identity;
use crate::openai::stream::opaque_block;
use crate::openai::stream::opaque_step;
use crate::openai::stream::reconcile_item_step;
use crate::openai::stream::settle_block_step;
use crate::openai::stream::start_item_step;
use crate::openai::stream::with_name;
use crate::openai::stream::ResponsesV;
use crate::openai_chat;
use crate::response::EventV;
use crate::response::KindV;
use crate::serial::printed;
use crate::text::decimal;
use crate::types::input_value;
use crate::types::CallV;
use crate::types::InputV;
use crate::types::PartV;
use crate::types::RouteV;

verus! {

broadcast use {vstd::seq::group_seq_axioms, vstd::map::group_map_axioms};

/// The parts whose blocks ended, in order.
pub open spec fn ended_parts(log: Seq<EventV>) -> Seq<PartV>
    decreases log.len(),
{
    if log.len() == 0 {
        Seq::empty()
    } else {
        match log.last() {
            EventV::End { part, .. } => ended_parts(log.drop_last()).push(part),
            _ => ended_parts(log.drop_last()),
        }
    }
}

/// The parts of two lists of events are those of the one and of the other.
proof fn lemma_ended_concat(a: Seq<EventV>, b: Seq<EventV>)
    ensures
        ended_parts(a + b) == ended_parts(a) + ended_parts(b),
    decreases b.len(),
{
    if b.len() == 0 {
        assert(a + b =~= a);
        assert(ended_parts(a) + Seq::<PartV>::empty() =~= ended_parts(a));
    } else {
        lemma_ended_concat(a, b.drop_last());
        assert((a + b).drop_last() =~= a + b.drop_last());
        assert((a + b).last() == b.last());
        if let EventV::End { part, .. } = b.last() {
            assert((ended_parts(a) + ended_parts(b.drop_last())).push(part) =~= ended_parts(a)
                + ended_parts(b.drop_last()).push(part));
        }
    }
}

/// Events without an end end no part.
proof fn lemma_nothing_ended(list: Seq<EventV>)
    requires
        forall|i: int| 0 <= i < list.len() ==> !(#[trigger] list[i] is End),
    ensures
        ended_parts(list) == Seq::<PartV>::empty(),
    decreases list.len(),
{
    if list.len() > 0 {
        assert(!(list[list.len() - 1] is End));
        lemma_nothing_ended(list.drop_last());
    }
}

/// One end ends one part.
proof fn lemma_one_ended(block: Seq<char>, part: PartV)
    ensures
        ended_parts(seq![EventV::End { block, part }]) == seq![part],
{
    reveal_with_fuel(ended_parts, 2);
    let list = seq![EventV::End { block, part }];
    assert(list.drop_last() =~= Seq::<EventV>::empty());
    assert(list.last() == EventV::End { block, part });
    assert(Seq::<PartV>::empty().push(part) =~= seq![part]);
}

/// The block of a name once it has started.
pub open spec fn begun_block(s: AssemblerV, id: Seq<char>, kind: KindV) -> BlockV {
    if locate(s.blocks, id, 0) is Some {
        block_of(s, id)
    } else {
        fresh(id, kind)
    }
}

/// Whether two states agree on every block but one.
pub open spec fn apart_from(a: AssemblerV, b: AssemblerV, id: Seq<char>) -> bool {
    &&& a.signatures == b.signatures
    &&& forall|other: Seq<char>|
        other != id ==> #[trigger] locate(a.blocks, other, 0) == locate(b.blocks, other, 0)
}

/// Starting a block gives it its place.
proof fn lemma_begins(s: AssemblerV, id: Seq<char>, kind: KindV)
    requires
        !s.completed,
    ensures
        ({
            let (next, log) = start_step(s, id, kind);
            &&& locate(next.blocks, id, 0) is Some
            &&& block_of(next, id) == begun_block(s, id, kind)
            &&& block_of(next, id).id == id
            &&& apart_from(next, s, id)
            &&& ended_parts(log) == Seq::<PartV>::empty()
            &&& forall|i: int| 0 <= i < log.len() ==> !(#[trigger] log[i] is End)
        }),
{
    let (next, log) = start_step(s, id, kind);
    lemma_locate(s.blocks, id, 0);
    lemma_nothing_ended(log);
    if locate(s.blocks, id, 0) is None {
        lemma_located_last(s.blocks, fresh(id, kind), 0);
        assert forall|other: Seq<char>| other != id implies #[trigger] locate(next.blocks, other, 0)
            == locate(s.blocks, other, 0) by {
            lemma_pushed(s.blocks, fresh(id, kind), other, 0);
        }
    }
}

/// Rewriting a block keeps every other.
proof fn lemma_rewritten(s: AssemblerV, id: Seq<char>, block: BlockV)
    requires
        locate(s.blocks, id, 0) is Some,
        block.id == block_of(s, id).id,
    ensures
        ({
            let next = with_block(s, id, block);
            &&& locate(next.blocks, id, 0) == locate(s.blocks, id, 0)
            &&& block_of(next, id) == block
            &&& apart_from(next, s, id)
        }),
{
    lemma_locate(s.blocks, id, 0);
    let at = locate(s.blocks, id, 0)->0;
    assert forall|other: Seq<char>| #[trigger]
        locate(with_block(s, id, block).blocks, other, 0) == locate(s.blocks, other, 0) by {
        lemma_updated(s.blocks, at, block, other, 0);
    }
    lemma_updated(s.blocks, at, block, id, 0);
}

/// Reconciling leaves a block that takes it with the complete content,
/// whatever its deltas carried: a lost tail is delivered and a garbled buffer
/// is replaced.
pub proof fn law_reconciling_restores_the_content(
    s: AssemblerV,
    id: Seq<char>,
    kind: KindV,
    content: Seq<char>,
)
    requires
        !s.completed,
        takes(s, id, kind) || (locate(s.blocks, id, 0) is None && content.len() > 0),
    ensures
        ({
            let (next, log) = reconcile_step(s, id, kind, content);
            &&& locate(next.blocks, id, 0) is Some
            &&& block_of(next, id) == BlockV { buffer: content, ..begun_block(s, id, kind) }
            &&& apart_from(next, s, id)
            &&& ended_parts(log) == Seq::<PartV>::empty()
        }),
{
    let (started, opening) = if content.len() == 0 {
        (s, Seq::empty())
    } else {
        start_step(s, id, kind)
    };
    lemma_begins(s, id, kind);
    let block = block_of(started, id);
    lemma_rewritten(started, id, BlockV { buffer: content, ..block });
    let (next, log) = reconcile_step(s, id, kind, content);
    assert forall|i: int| 0 <= i < log.len() implies !(#[trigger] log[i] is End) by {
        if i < opening.len() {
            assert(log[i] == opening[i]);
        }
    }
    lemma_nothing_ended(log);
}

/// Ending an open block delivers its part.
proof fn lemma_ends_block(s: AssemblerV, id: Seq<char>, phase: Phase)
    requires
        !s.completed,
        locate(s.blocks, id, 0) is Some,
        block_of(s, id).phase == Phase::Open,
    ensures
        ({
            let (next, log) = end_step(s, id, phase);
            &&& apart_from(next, s, id)
            &&& ended_parts(log) == seq![block_part(block_of(s, id), s.signatures)]
        }),
{
    let block = block_of(s, id);
    lemma_rewritten(s, id, BlockV { phase, ..block });
    lemma_one_ended(id, block_part(block, s.signatures));
}

/// A block pushed behind others is the last of its name, and changing it
/// changes nothing else.
proof fn lemma_top(s: AssemblerV, base: Seq<BlockV>, block: BlockV)
    requires
        s.blocks == base.push(block),
        locate(base, block.id, 0) is None,
    ensures
        locate(s.blocks, block.id, 0) == Some(base.len() as int),
        block_of(s, block.id) == block,
        forall|other: BlockV| #[trigger]
            with_block(s, block.id, other).blocks == base.push(other),
{
    lemma_located_last(base, block, 0);
    assert forall|other: BlockV| #[trigger]
        with_block(s, block.id, other).blocks == base.push(other) by {
        assert(s.blocks.update(base.len() as int, other) =~= base.push(other));
    }
}

/// One more block: what it adds to the content.
pub proof fn lemma_kept_push(base: Seq<BlockV>, block: BlockV, signatures: Option<Seq<char>>)
    ensures
        kept_parts(base.push(block), signatures) == if block.phase == Phase::Discarded {
            kept_parts(base, signatures)
        } else {
            kept_parts(base, signatures).push(block_part(block, signatures))
        },
{
    assert(base.push(block).drop_last() =~= base);
}

/// A whole item becomes one closed opaque block behind the others.
proof fn lemma_item_kept(s: ResponsesV, id: Seq<char>, kind: Seq<char>, item: JsonV)
    requires
        !s.assembler.completed,
        locate(s.assembler.blocks, id, 0) is None,
    ensures
        opaque_step(s, id, kind, item).0.assembler.blocks == s.assembler.blocks.push(
            BlockV { data: item, phase: Phase::Closed, ..fresh(id, KindV::Opaque { kind }) },
        ),
        !opaque_step(s, id, kind, item).0.assembler.completed,
        opaque_step(s, id, kind, item).0.assembler.signatures == s.assembler.signatures,
{
    let base = s.assembler.blocks;
    let block = fresh(id, KindV::Opaque { kind });
    let first = start_step(s.assembler, id, KindV::Opaque { kind }).0;
    lemma_top(first, base, block);
    let second = data_step(first, id, item);
    lemma_top(second, base, BlockV { data: item, ..block });
}

/// Whether metadata is what an item or its announcement put on a call: at most
/// an item id, which the item itself has.
pub open spec fn announced(metadata: Map<Seq<char>, JsonV>, item: JsonV) -> bool {
    metadata == Map::<Seq<char>, JsonV>::empty() || (has_own_id(item) && metadata == Map::<
        Seq<char>,
        JsonV,
    >::empty().insert(NAMESPACE@, metadata[NAMESPACE@]))
}

/// Whether an open block is one that the deltas of an item may have left.
pub open spec fn takes_item(block: BlockV, item: JsonV) -> bool {
    &&& block.phase == Phase::Open
    &&& block.signature is None
    &&& if typed(item, "message"@) {
        block.kind is Text
    } else if call_kind(item) is Some {
        block.kind is ToolCall && (internal(item) || announced(block.metadata, item))
    } else {
        typed(item, "reasoning"@) && block.kind is Reasoning
    }
}

/// Whether an item may end behind some blocks: none of them is its own, and
/// the block its deltas left, if any, stands last and is of its sort.
pub open spec fn may_end(s: ResponsesV, base: Seq<BlockV>, id: Seq<char>, item: JsonV) -> bool {
    &&& !s.assembler.completed
    &&& s.assembler.signatures is None
    &&& locate(base, id, 0) is None
    &&& locate(base, id + "-item"@, 0) is None
    &&& if s.assembler.blocks == base {
        &&& !s.delivered.contains(id)
        &&& s.skipped.contains(id) ==> internal(item)
    } else {
        let block = s.assembler.blocks.last();
        &&& s.assembler.blocks == base.push(block)
        &&& block.id == id
        &&& takes_item(block, item)
        &&& !s.skipped.contains(id)
        &&& call_kind(item) is None ==> s.delivered.contains(id)
    }
}

/// The types of items are told apart.
pub proof fn lemma_types_differ()
    ensures
        "message"@ != "function_call"@,
        "message"@ != "custom_tool_call"@,
        "message"@ != "reasoning"@,
        "reasoning"@ != "function_call"@,
        "reasoning"@ != "custom_tool_call"@,
        "function_call"@ != "custom_tool_call"@,
        "-item"@.len() == 5,
{
    reveal_strlit("message");
    reveal_strlit("function_call");
    reveal_strlit("custom_tool_call");
    reveal_strlit("reasoning");
    reveal_strlit("-item");
    assert("message"@.len() == 7 && "function_call"@.len() == 13);
    assert("custom_tool_call"@.len() == 16 && "reasoning"@.len() == 9);
}

/// A name once listed stays listed.
proof fn lemma_with_name(list: Seq<Seq<char>>, name: Seq<char>)
    ensures
        with_name(list, name).contains(name),
        forall|other: Seq<char>|
            other != name ==> (#[trigger] with_name(list, name).contains(other) <==> list.contains(
                other,
            )),
{
    if !list.contains(name) {
        let after = list.push(name);
        assert(after[list.len() as int] == name);
        assert forall|other: Seq<char>| other != name implies (#[trigger] after.contains(other)
            <==> list.contains(other)) by {
            if list.contains(other) {
                let i = choose|i: int| 0 <= i < list.len() && list[i] == other;
                assert(after[i] == other);
            }
            if after.contains(other) {
                let i = choose|i: int| 0 <= i < after.len() && after[i] == other;
                assert(list[i] == other);
            }
        }
    }
}

/// What ending an item leaves: its content behind that of the others, its
/// blocks under its names, and every other name as it was.
pub open spec fn ended_well(
    s: ResponsesV,
    next: ResponsesV,
    base: Seq<BlockV>,
    id: Seq<char>,
    item: JsonV,
) -> bool {
    &&& kept_parts(next.assembler.blocks, None) == with_item(kept_parts(base, None), item)
    &&& next.assembler.blocks.len() >= base.len()
    &&& forall|i: int| 0 <= i < base.len() ==> #[trigger] next.assembler.blocks[i] == base[i]
    &&& forall|i: int|
        base.len() <= i < next.assembler.blocks.len() ==> (
        #[trigger] next.assembler.blocks[i]).id == id || next.assembler.blocks[i].id == id
            + "-item"@
    &&& !next.assembler.completed
    &&& next.assembler.signatures is None
    &&& forall|other: Seq<char>|
        other != id ==> (#[trigger] next.delivered.contains(other) <==> s.delivered.contains(other))
    &&& forall|other: Seq<char>|
        other != id ==> (#[trigger] next.skipped.contains(other) <==> s.skipped.contains(other))
}

/// A text block brought to its complete content and ended: it stands behind
/// the others, or it never started for want of content.
proof fn lemma_text_ended(
    s: ResponsesV,
    base: Seq<BlockV>,
    id: Seq<char>,
    kind: KindV,
    text: Seq<char>,
)
    requires
        !s.assembler.completed,
        s.assembler.signatures is None,
        kind is Text || kind is Reasoning,
        locate(base, id, 0) is None,
        s.assembler.blocks == base || {
            let block = s.assembler.blocks.last();
            &&& s.assembler.blocks == base.push(block)
            &&& block.id == id
            &&& block.phase == Phase::Open
            &&& block.signature is None
            &&& crate::assembler::same_sort(block.kind, kind)
        },
    ensures
        ({
            let settled = settle_block_step(s, id, kind, text).0;
            let next = end_step(settled.assembler, id, ending(text)).0;
            let last = next.blocks.last();
            &&& if s.assembler.blocks == base && text.len() == 0 {
                next.blocks == base
            } else {
                &&& next.blocks == base.push(last)
                &&& last.id == id
                &&& last.phase == ending(text)
                &&& last.buffer == text
                &&& last.signature is None
                &&& crate::assembler::same_sort(last.kind, kind)
            }
            &&& !next.completed
            &&& next.signatures is None
        }),
{
    let settled = settle_block_step(s, id, kind, text).0;
    if s.assembler.blocks == base {
        if text.len() > 0 {
            let first = start_step(s.assembler, id, kind).0;
            lemma_top(first, base, fresh(id, kind));
            let block = BlockV { buffer: text, ..fresh(id, kind) };
            lemma_top(settled.assembler, base, block);
        }
    } else {
        let block = s.assembler.blocks.last();
        lemma_top(s.assembler, base, block);
        lemma_top(settled.assembler, base, BlockV { buffer: text, ..block });
    }
}

/// The whole item behind its text.
proof fn lemma_text_item(
    s: ResponsesV,
    base: Seq<BlockV>,
    id: Seq<char>,
    kind: KindV,
    text: Seq<char>,
    opaque: Seq<char>,
    item: JsonV,
    last: ResponsesV,
)
    requires
        !s.assembler.completed,
        s.assembler.signatures is None,
        kind is Text || kind is Reasoning,
        locate(base, id, 0) is None,
        locate(base, id + "-item"@, 0) is None,
        s.assembler.blocks == base || {
            let block = s.assembler.blocks.last();
            &&& s.assembler.blocks == base.push(block)
            &&& block.id == id
            &&& block.phase == Phase::Open
            &&& block.signature is None
            &&& crate::assembler::same_sort(block.kind, kind)
        },
        s.delivered.contains(id) <==> s.assembler.blocks != base,
        ({
            let settled = settle_block_step(s, id, kind, text).0;
            &&& last.assembler == end_step(settled.assembler, id, ending(text)).0
            &&& last.delivered == settled.delivered
        }),
    ensures
        ({
            let next = opaque_step(last, opaque_block(last, id), opaque, item).0;
            let shown = if text.len() == 0 {
                kept_parts(base, None)
            } else {
                kept_parts(base, None).push(
                    block_part(BlockV { buffer: text, ..fresh(id, kind) }, None),
                )
            };
            &&& kept_parts(next.assembler.blocks, None) == shown.push(
                PartV::Opaque { kind: opaque, data: item },
            )
            &&& next.assembler.blocks.len() >= base.len()
            &&& forall|i: int| 0 <= i < base.len() ==> #[trigger] next.assembler.blocks[i] == base[i]
            &&& forall|i: int|
                base.len() <= i < next.assembler.blocks.len() ==> (
                #[trigger] next.assembler.blocks[i]).id == id || next.assembler.blocks[i].id == id
                    + "-item"@
            &&& !next.assembler.completed
            &&& next.assembler.signatures is None
            &&& forall|other: Seq<char>|
                other != id ==> (#[trigger] next.delivered.contains(other) <==> s.delivered.contains(
                    other,
                ))
        }),
{
    lemma_types_differ();
    lemma_text_ended(s, base, id, kind, text);
    lemma_with_name(s.delivered, id);
    let blocks = last.assembler.blocks;
    let block = opaque_block(last, id);
    assert((id + "-item"@).len() != id.len());
    if blocks != base {
        lemma_pushed(base, blocks.last(), id + "-item"@, 0);
        lemma_kept_push(base, blocks.last(), None);
    }
    lemma_item_kept(last, block, opaque, item);
    let whole = BlockV {
        data: item,
        phase: Phase::Closed,
        ..fresh(block, KindV::Opaque { kind: opaque })
    };
    lemma_kept_push(blocks, whole, None);
}

/// A streamed call item.
proof fn lemma_call_item(s: ResponsesV, base: Seq<BlockV>, id: Seq<char>, item: JsonV)
    requires
        may_end(s, base, id, item),
        call_kind(item) is Some,
        !internal(item),
    ensures
        ended_well(s, end_item_step(s, id, item).0, base, id, item),
{
    lemma_types_differ();
    lemma_with_name(s.delivered, id);
    let identity = item_identity(item);
    let call = call_of(item, call_kind(item)->0);
    let block = if s.assembler.blocks == base {
        fresh(id, identity)
    } else {
        s.assembler.blocks.last()
    };
    if s.assembler.blocks != base {
        lemma_top(s.assembler, base, block);
    }
    let first = start_step(s.assembler, id, identity).0;
    assert(first.blocks == base.push(block));
    lemma_top(first, base, block);
    let named = BlockV { kind: identity, ..block };
    let second = identity_step(first, id, identity);
    lemma_top(second, base, named);
    let opened = start_item_step(s, id, item).0;
    let whole = BlockV { metadata: call.provider_metadata, ..named };
    if has_own_id(item) {
        let value = item_metadata(item.text_at("id"@)->0);
        assert(named.metadata.insert(NAMESPACE@, value) =~= call.provider_metadata);
    } else {
        assert(named.metadata =~= call.provider_metadata);
    }
    assert(opened.assembler.blocks == base.push(whole));
    lemma_top(opened.assembler, base, whole);
    let content = call_input(item, call_kind(item)->0);
    let settled = reconcile_item_step(opened, id, item).0;
    let filled = BlockV { buffer: content, ..whole };
    assert(settled.assembler.blocks == base.push(filled));
    lemma_top(settled.assembler, base, filled);
    let ended = BlockV { phase: Phase::Closed, ..filled };
    assert(end_item_step(s, id, item).0.assembler.blocks == base.push(ended));
    lemma_kept_push(base, ended, None);
}

/// A Responses stream ends an item with the content that the document decoder
/// finds in it, whatever its deltas lost or garbled.
pub proof fn law_a_streamed_item_agrees(
    s: ResponsesV,
    base: Seq<BlockV>,
    id: Seq<char>,
    item: JsonV,
)
    requires
        may_end(s, base, id, item),
    ensures
        ended_well(s, end_item_step(s, id, item).0, base, id, item),
{
    lemma_types_differ();
    lemma_with_name(s.skipped, id);
    if s.skipped.contains(id) {
        assert(s.assembler.blocks == base);
    } else if internal(item) {
        if s.assembler.blocks != base {
            let block = s.assembler.blocks.last();
            lemma_top(s.assembler, base, block);
            let ended = BlockV { phase: Phase::Discarded, ..block };
            assert(end_item_step(s, id, item).0.assembler.blocks == base.push(ended));
            lemma_kept_push(base, ended, None);
        }
    } else if call_kind(item) is Some {
        lemma_call_item(s, base, id, item);
    } else if typed(item, "message"@) {
        let text = output_texts(item.items_at("content"@));
        let settled = settle_block_step(s, id, KindV::Text, text).0;
        let last = ResponsesV {
            assembler: end_step(settled.assembler, id, ending(text)).0,
            ..settled
        };
        lemma_text_item(s, base, id, KindV::Text, text, MESSAGE_KIND@, item, last);
    } else if typed(item, "reasoning"@) {
        let text = crate::openai_chat::decode::text_or_empty(thought_text(item));
        let settled = settle_block_step(s, id, KindV::Reasoning, text).0;
        let last = ResponsesV {
            assembler: end_step(settled.assembler, id, ending(text)).0,
            reasoning_entries: crate::openai::stream::without_entry(
                settled.reasoning_entries,
                id,
            ),
            ..settled
        };
        lemma_text_item(s, base, id, KindV::Reasoning, text, REASONING_KIND@, item, last);
    }
}

/// The tool call a Gemini stream makes of a function call: the document
/// decoder's, but that a call without arguments keeps no text.
pub open spec fn streamed_part(
    part: JsonV,
    function_call: JsonV,
    scope: Seq<char>,
    ordinal: nat,
) -> PartV {
    let call = gemini::decode::function_part(part, function_call, scope, ordinal)->ToolCall_0;
    PartV::ToolCall(
        CallV {
            input: InputV {
                raw: match function_call.get("args"@) {
                    Some(arguments) => printed(arguments),
                    None => Seq::empty(),
                },
                ..call.input
            },
            ..call
        },
    )
}

/// Whether two parts are the same, but for the spelling of a call's input: the
/// call has the same identity and metadata, and hands its tool the same value.
pub open spec fn alike(a: PartV, b: PartV) -> bool {
    a == b || match (a, b) {
        (PartV::ToolCall(a), PartV::ToolCall(b)) => {
            &&& a.id == b.id
            &&& a.name == b.name
            &&& a.input.kind == b.input.kind
            &&& a.provider_metadata == b.provider_metadata
            &&& input_value(a.input) == input_value(b.input)
        },
        _ => false,
    }
}

/// Whether two contents are the same, but for the spelling of their calls'
/// inputs.
pub open spec fn alike_all(a: Seq<PartV>, b: Seq<PartV>) -> bool {
    a.len() == b.len() && forall|i: int| 0 <= i < a.len() ==> alike(#[trigger] a[i], b[i])
}

/// A fresh function call of a Gemini stream ends as its tool call.
proof fn lemma_call_agrees(s: gemini::stream::StreamV, part: JsonV, function_call: JsonV)
    requires
        !s.assembler.completed,
        locate(
            gemini::stream::close_step(s).0.assembler.blocks,
            "tool-"@ + decimal(s.calls as nat),
            0,
        ) is None,
    ensures
        ({
            let ended = ended_parts(gemini::stream::call_step(s, part, function_call).1);
            &&& ended.len() > 0
            &&& ended.last() == streamed_part(
                part,
                function_call,
                gemini::stream::stream_scope(s),
                s.calls as nat,
            )
        }),
{
    let (after, closed_run) = gemini::stream::close_step(s);
    let id = "tool-"@ + decimal(s.calls as nat);
    let name = gemini::decode::function_name(function_call);
    let identity = KindV::ToolCall {
        id: gemini::identity::call_id(
            function_call,
            name,
            gemini::stream::stream_scope(after),
            s.calls as nat,
        ),
        name: Some(name),
        kind: crate::types::ToolCallKind::Function,
    };
    let (first, started) = start_step(after.assembler, id, identity);
    lemma_begins(after.assembler, id, identity);
    let block = fresh(id, identity);
    let raw = match function_call.get("args"@) {
        Some(arguments) => printed(arguments),
        None => Seq::empty(),
    };
    assert(block.buffer + raw =~= raw);
    let filled = BlockV { buffer: raw, ..block };
    lemma_rewritten(first, id, filled);
    let second = match function_call.get("args"@) {
        Some(arguments) => append_step(first, id, fallback_call(id), printed(arguments)).0,
        None => first,
    };
    lemma_locate(first.blocks, id, 0);
    if function_call.get("args"@) is None {
        assert(block_of(first, id) == filled);
        assert(second.blocks =~= with_block(first, id, filled).blocks);
    }
    assert(second == with_block(first, id, filled));
    let third = match part.text_at("thoughtSignature"@) {
        Some(signature) => metadata_step(
            second,
            id,
            gemini::encode::NAMESPACE@,
            gemini::decode::signature_metadata(signature),
        ),
        None => second,
    };
    if let Some(signature) = part.text_at("thoughtSignature"@) {
        lemma_rewritten(
            second,
            id,
            BlockV {
                metadata: filled.metadata.insert(
                    gemini::encode::NAMESPACE@,
                    gemini::decode::signature_metadata(signature),
                ),
                ..filled
            },
        );
    }
    lemma_ends_block(third, id, Phase::Closed);
    let ended = end_step(third, id, Phase::Closed).1;
    lemma_ended_concat(closed_run, started);
    lemma_ended_concat(closed_run + started, ended);
}

/// The name of the block of a function call.
pub open spec fn tool_name(ordinal: nat) -> Seq<char> {
    "tool-"@ + decimal(ordinal)
}

/// Whether a name is that of no function call.
pub open spec fn no_tool(name: Seq<char>) -> bool {
    forall|ordinal: nat| name != #[trigger] tool_name(ordinal)
}

/// Whether a Gemini decoder has given each function call a number of its own,
/// as far as its counter counts.
pub open spec fn numbered(s: gemini::stream::StreamV) -> bool {
    &&& !s.assembler.completed
    &&& s.open matches Some((id, _)) ==> no_tool(id)
    &&& s.calls < u64::MAX ==> forall|ordinal: nat|
        ordinal >= s.calls ==> locate(s.assembler.blocks, #[trigger] tool_name(ordinal), 0) is None
}

/// Whether one state came from another by changing one block alone.
pub open spec fn stepped(next: AssemblerV, s: AssemblerV, id: Seq<char>) -> bool {
    apart_from(next, s, id) && next.completed == s.completed
}

/// Each step changes the block it names alone.
proof fn lemma_stepped(
    s: AssemblerV,
    id: Seq<char>,
    kind: KindV,
    text: Seq<char>,
    value: JsonV,
    phase: Phase,
)
    requires
        !s.completed,
    ensures
        stepped(start_step(s, id, kind).0, s, id),
        stepped(append_step(s, id, kind, text).0, s, id),
        stepped(signature_step(s, id, text).0, s, id),
        stepped(metadata_step(s, id, text, value), s, id),
        stepped(end_step(s, id, phase).0, s, id),
{
    lemma_begins(s, id, kind);
    lemma_begins(s, id, KindV::Reasoning);
    lemma_locate(s.blocks, id, 0);
    if locate(s.blocks, id, 0) is Some {
        let block = block_of(s, id);
        lemma_rewritten(
            s,
            id,
            BlockV { metadata: block.metadata.insert(text, value), ..block },
        );
        lemma_rewritten(s, id, BlockV { phase, ..block });
    }
    let started = start_step(s, id, kind).0;
    let block = block_of(started, id);
    lemma_rewritten(started, id, BlockV { buffer: block.buffer + text, ..block });
    let signing = start_step(s, id, KindV::Reasoning).0;
    let signed = block_of(signing, id);
    lemma_rewritten(signing, id, BlockV { signature: Some(text), ..signed });
}

/// The names of runs are those of no function call.
proof fn lemma_run_names(ordinal: nat)
    ensures
        no_tool("text"@ + "-"@ + decimal(ordinal)),
        no_tool("reasoning"@ + "-"@ + decimal(ordinal)),
{
    reveal_strlit("text");
    reveal_strlit("reasoning");
    reveal_strlit("tool-");
    let text = "text"@ + "-"@ + decimal(ordinal);
    let reasoning = "reasoning"@ + "-"@ + decimal(ordinal);
    assert(text[1] == 'e' && reasoning[1] == 'e');
    assert forall|other: nat| text != #[trigger] tool_name(other) && reasoning != tool_name(
        other,
    ) by {
        assert(tool_name(other)[1] == 'o');
    }
}

/// Two function calls have different names.
proof fn lemma_tool_names(first: nat, second: nat)
    requires
        first != second,
    ensures
        tool_name(first) != tool_name(second),
{
    if tool_name(first) == tool_name(second) {
        let start = "tool-"@.len() as int;
        assert(tool_name(first).skip(start) =~= decimal(first));
        assert(tool_name(second).skip(start) =~= decimal(second));
        lemma_decimal_injective(first, second);
    }
}

/// Closing a run keeps the numbers.
proof fn lemma_numbered_close(s: gemini::stream::StreamV)
    requires
        numbered(s),
    ensures
        numbered(gemini::stream::close_step(s).0),
        gemini::stream::close_step(s).0.open is None,
        gemini::stream::close_step(s).0.calls == s.calls,
{
    if let Some((id, _)) = s.open {
        lemma_stepped(
            s.assembler,
            id,
            KindV::Text,
            Seq::empty(),
            JsonV::Null,
            Phase::Closed,
        );
    }
}

/// A function call takes the next number.
proof fn lemma_numbered_call(s: gemini::stream::StreamV, part: JsonV, function_call: JsonV)
    requires
        numbered(s),
    ensures
        numbered(gemini::stream::call_step(s, part, function_call).0),
{
    lemma_numbered_close(s);
    let after = gemini::stream::close_step(s).0;
    let id = tool_name(s.calls as nat);
    let name = gemini::decode::function_name(function_call);
    let identity = KindV::ToolCall {
        id: gemini::identity::call_id(
            function_call,
            name,
            gemini::stream::stream_scope(after),
            s.calls as nat,
        ),
        name: Some(name),
        kind: crate::types::ToolCallKind::Function,
    };
    let none = Seq::<char>::empty();
    lemma_stepped(after.assembler, id, identity, none, JsonV::Null, Phase::Closed);
    let first = start_step(after.assembler, id, identity).0;
    let second = match function_call.get("args"@) {
        Some(arguments) => append_step(
            first,
            id,
            fallback_call(id),
            crate::serial::printed(arguments),
        ).0,
        None => first,
    };
    if let Some(arguments) = function_call.get("args"@) {
        lemma_stepped(
            first,
            id,
            fallback_call(id),
            crate::serial::printed(arguments),
            JsonV::Null,
            Phase::Closed,
        );
    }
    let third = match part.text_at("thoughtSignature"@) {
        Some(signature) => metadata_step(
            second,
            id,
            gemini::encode::NAMESPACE@,
            gemini::decode::signature_metadata(signature),
        ),
        None => second,
    };
    if let Some(signature) = part.text_at("thoughtSignature"@) {
        lemma_stepped(
            second,
            id,
            identity,
            gemini::encode::NAMESPACE@,
            gemini::decode::signature_metadata(signature),
            Phase::Closed,
        );
    }
    lemma_stepped(third, id, identity, none, JsonV::Null, Phase::Closed);
    let next = gemini::stream::call_step(s, part, function_call).0;
    assert(stepped(next.assembler, after.assembler, id));
    if next.calls < u64::MAX {
        assert forall|ordinal: nat| ordinal >= next.calls implies locate(
            next.assembler.blocks,
            #[trigger] tool_name(ordinal),
            0,
        ) is None by {
            lemma_tool_names(ordinal, s.calls as nat);
            assert(locate(after.assembler.blocks, tool_name(ordinal), 0) is None);
        }
    }
}

/// A text part takes no number.
proof fn lemma_numbered_spoken(s: gemini::stream::StreamV, part: JsonV, text: Seq<char>)
    requires
        numbered(s),
    ensures
        numbered(gemini::stream::spoken_step(s, part, text).0),
{
    lemma_numbered_close(s);
    lemma_run_names(s.texts as nat);
    lemma_run_names(s.reasonings as nat);
    let run = if gemini::decode::is_thought(part) {
        gemini::stream::Run::Reasoning
    } else {
        gemini::stream::Run::Text
    };
    let first = match s.open {
        Some((_, open)) if open != run => gemini::stream::close_step(s).0,
        _ => s,
    };
    let (second, id) = gemini::stream::run_step(first, run);
    assert(no_tool(id));
    let kind = gemini::stream::run_kind(run);
    lemma_stepped(second.assembler, id, kind, text, JsonV::Null, Phase::Closed);
    let third = gemini::stream::StreamV {
        assembler: append_step(second.assembler, id, kind, text).0,
        ..second
    };
    assert forall|ordinal: nat| true implies #[trigger] tool_name(ordinal) != id by {}
    assert(numbered(third));
    if let Some(signature) = part.text_at("thoughtSignature"@) {
        if run == gemini::stream::Run::Reasoning {
            lemma_stepped(third.assembler, id, kind, signature, JsonV::Null, Phase::Closed);
            let fourth = gemini::stream::StreamV {
                assembler: signature_step(third.assembler, id, signature).0,
                ..third
            };
            assert(numbered(fourth));
            lemma_numbered_close(fourth);
        }
    }
}

/// The parts of a chunk keep the numbers.
proof fn lemma_numbered_parts(s: gemini::stream::StreamV, list: Seq<JsonV>)
    requires
        numbered(s),
    ensures
        numbered(gemini::stream::parts_step(s, list).0),
    decreases list.len(),
{
    if list.len() > 0 {
        lemma_numbered_parts(s, list.drop_last());
        let before = gemini::stream::parts_step(s, list.drop_last()).0;
        match list.last().get("functionCall"@) {
            Some(function_call) => {
                lemma_numbered_call(before, list.last(), function_call);
            },
            None => {
                if let Some(text) = list.last().text_at("text"@) {
                    lemma_numbered_spoken(before, list.last(), text);
                }
            },
        }
    }
}

/// Every Gemini decoder that frames lead to keeps the numbers.
proof fn lemma_numbered_run(route: RouteV, nonce: Seq<char>, frames: Seq<Seq<char>>)
    ensures
        gemini_run(gemini::stream::fresh_stream(route, nonce), frames) matches Some((s, _))
            ==> numbered(s),
    decreases frames.len(),
{
    if frames.len() > 0 {
        let fresh_decoder = gemini::stream::fresh_stream(route, nonce);
        lemma_numbered_run(route, nonce, frames.drop_last());
        if let Some((before, _)) = gemini_run(fresh_decoder, frames.drop_last()) {
            let value = crate::serial::parsed(frames.last())->0;
            let begun_decoder = gemini::stream::begin_step(before, value).0;
            assert(numbered(begun_decoder));
            lemma_numbered_parts(begun_decoder, gemini::stream::chunk_parts(value));
        }
    }
}

/// A Gemini decoder that some frames and the first parts of a chunk led to.
pub open spec fn gemini_at(
    route: RouteV,
    nonce: Seq<char>,
    frames: Seq<Seq<char>>,
    value: JsonV,
    at: int,
) -> gemini::stream::StreamV {
    let s = (gemini_run(gemini::stream::fresh_stream(route, nonce), frames)->0).0;
    gemini::stream::parts_step(
        gemini::stream::begin_step(s, value).0,
        gemini::stream::chunk_parts(value).take(at),
    ).0
}

/// Whatever a Gemini stream has sent, it ends a function call with the part
/// that the document decoder finds in it, its ordinal and its scope being the
/// same. A call without arguments differs in the spelling of its input alone.
pub proof fn law_a_streamed_call_agrees(
    route: RouteV,
    nonce: Seq<char>,
    frames: Seq<Seq<char>>,
    value: JsonV,
    at: int,
    function_call: JsonV,
)
    requires
        gemini_run(gemini::stream::fresh_stream(route, nonce), frames) is Some,
        0 <= at < gemini::stream::chunk_parts(value).len(),
        gemini::stream::chunk_parts(value)[at].get("functionCall"@) == Some(function_call),
        gemini_at(route, nonce, frames, value, at).calls < u64::MAX,
    ensures
        ({
            let s = gemini_at(route, nonce, frames, value, at);
            let part = gemini::stream::chunk_parts(value)[at];
            let ended = ended_parts(gemini::stream::part_step(s, part).1);
            let scope = gemini::stream::stream_scope(s);
            let document = gemini::decode::function_part(
                part,
                function_call,
                scope,
                s.calls as nat,
            );
            &&& ended.len() > 0
            &&& ended.last() == streamed_part(part, function_call, scope, s.calls as nat)
            &&& function_call.get("args"@) is Some ==> ended.last() == document
            &&& gemini::decode::input_reads(part) ==> alike(ended.last(), document)
        }),
{
    lemma_numbered_run(route, nonce, frames);
    let before = (gemini_run(gemini::stream::fresh_stream(route, nonce), frames)->0).0;
    let opened = gemini::stream::begin_step(before, value).0;
    assert(numbered(opened));
    lemma_numbered_parts(opened, gemini::stream::chunk_parts(value).take(at));
    let s = gemini_at(route, nonce, frames, value, at);
    lemma_numbered_close(s);
    assert(locate(
        gemini::stream::close_step(s).0.assembler.blocks,
        tool_name(s.calls as nat),
        0,
    ) is None);
    lemma_call_agrees(s, gemini::stream::chunk_parts(value)[at], function_call);
}

/// A chat stream whose first delta carries the whole answer holds the content
/// that the document decoder finds in the same message.
pub proof fn law_a_whole_delta_agrees(route: RouteV, delta: JsonV)
    requires
        delta.get(openai_chat::reasoning_details::REASONING_DETAILS@) is None,
    ensures
        kept_parts(
            openai_chat::stream::spoken_step(
                openai_chat::stream::fresh_chat(route),
                delta,
            ).0.assembler.blocks,
            None,
        ) == openai_chat::decode::spoken_parts(delta),
{
    reveal_strlit("reasoning-0");
    reveal_strlit("block-0");
    reveal_with_fuel(kept_parts, 3);
    reveal_with_fuel(locate, 3);
    let empty = openai_chat::stream::fresh_chat(route);
    let thought = openai_chat::decode::thought_text(delta);
    let visible = openai_chat::decode::visible_text(delta);
    let first = openai_chat::stream::fragment_step(
        empty,
        openai_chat::stream::REASONING_BLOCK@,
        KindV::Reasoning,
        thought,
    ).0;
    let second = openai_chat::stream::fragment_step(
        first,
        openai_chat::stream::TEXT_BLOCK@,
        KindV::Text,
        visible,
    ).0;
    assert("reasoning-0"@.len() == 11 && "block-0"@.len() == 7);
    let reasoning = BlockV {
        buffer: thought->0,
        ..fresh(openai_chat::stream::REASONING_BLOCK@, KindV::Reasoning)
    };
    let text = BlockV {
        buffer: visible->0,
        ..fresh(openai_chat::stream::TEXT_BLOCK@, KindV::Text)
    };
    if thought is Some {
        assert(Seq::<char>::empty() + thought->0 =~= thought->0);
        assert(first.assembler.blocks =~= seq![reasoning]);
    } else {
        assert(first.assembler.blocks =~= Seq::<BlockV>::empty());
    }
    if visible is Some {
        assert(Seq::<char>::empty() + visible->0 =~= visible->0);
        assert(second.assembler.blocks =~= first.assembler.blocks.push(text));
        assert(second.assembler.blocks.drop_last() =~= first.assembler.blocks);
    }
    assert(kept_parts(first.assembler.blocks, None) =~= match thought {
        Some(_) => seq![block_part(reasoning, None)],
        None => Seq::empty(),
    }) by {
        if thought is Some {
            assert(first.assembler.blocks.drop_last() =~= Seq::<BlockV>::empty());
        }
    }
}

} // verus!
