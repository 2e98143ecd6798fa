//! Laws of the response that a stream ends with: it holds what the events
//! before it told, block by block.

use vstd::prelude::*;

use super::arrivals::all_open;
use super::arrivals::lemma_open_chunk;
use super::deltas::ends_with;
use super::deltas::faithful;
use super::deltas::names;
use super::deltas::shut;
use super::deltas::starts;
use super::hearing::lemma_chat_chunk;
use super::hearing::lemma_chat_whole;
use super::hearing::lemma_gemini_whole;
use super::hearing::lemma_responses_whole;
use super::hearing::steady_run;
use super::streams::chat_run;
use super::streams::gemini_run;
use super::streams::responses_run;
use super::streams::Frame;
use crate::assembler::block_part;
use crate::assembler::kept_parts;
use crate::assembler::AssemblerV;
use crate::assembler::BlockV;
use crate::assembler::Phase;
use crate::gemini;
use crate::openai;
use crate::openai_chat;
use crate::response::without_calls;
use crate::response::EventV;
use crate::response::ResponseV;
use crate::serial::parsed;
use crate::types::PartV;
use crate::types::RouteV;

verus! {

broadcast use {vstd::seq::group_seq_axioms, vstd::map::group_map_axioms};

/// Whether a list of events ends some block with a part.
pub open spec fn told(log: Seq<EventV>, part: PartV) -> bool {
    exists|block: Seq<char>| #[trigger] ends_with(log, block, part)
}

/// Whether a response holds the part that the events ended a block with, or
/// leaves it out as a call that the output limit cut.
pub open spec fn kept(log: Seq<EventV>, response: ResponseV, block: Seq<char>) -> bool {
    exists|part: PartV| #[trigger]
        ends_with(log, block, part) && (response.content.contains(part)
            || response.finish_reason is Length && part is ToolCall)
}

/// Whether a response holds, block by block, the parts that the events ended
/// their blocks with. A response cut short by the output limit leaves its
/// calls out, and nothing else.
pub open spec fn retold(log: Seq<EventV>, response: ResponseV) -> bool {
    &&& response.finish_reason !is Length ==> response.content.len() == starts(log).len()
    &&& response.finish_reason !is Length ==> forall|i: int|
        0 <= i < response.content.len() ==> ends_with(
            log,
            starts(log)[i],
            #[trigger] response.content[i],
        )
    &&& forall|i: int|
        0 <= i < response.content.len() ==> told(log, #[trigger] response.content[i])
    &&& response.finish_reason is Length ==> forall|i: int|
        0 <= i < response.content.len() ==> !(#[trigger] response.content[i] is ToolCall)
    &&& forall|i: int|
        0 <= i < starts(log).len() ==> kept(log, response, #[trigger] starts(log)[i])
}

/// Whether a response holds nothing but parts that the events ended a block
/// with.
pub open spec fn rests_on(log: Seq<EventV>, response: ResponseV) -> bool {
    forall|i: int| 0 <= i < response.content.len() ==> told(log, #[trigger] response.content[i])
}

/// Whether no block was discarded.
pub open spec fn undiscarded(blocks: Seq<BlockV>) -> bool {
    forall|i: int| 0 <= i < blocks.len() ==> (#[trigger] blocks[i]).phase != Phase::Discarded
}

proof fn lemma_kept(blocks: Seq<BlockV>, signatures: Option<Seq<char>>)
    requires
        undiscarded(blocks),
    ensures
        kept_parts(blocks, signatures).len() == blocks.len(),
        forall|i: int|
            0 <= i < blocks.len() ==> #[trigger] kept_parts(blocks, signatures)[i] == block_part(
                blocks[i],
                signatures,
            ),
    decreases blocks.len(),
{
    if blocks.len() > 0 {
        let rest = blocks.drop_last();
        assert forall|i: int| 0 <= i < rest.len() implies (#[trigger] rest[i]).phase
            != Phase::Discarded by {
            assert(rest[i] == blocks[i]);
        }
        lemma_kept(rest, signatures);
        assert(blocks[blocks.len() - 1].phase != Phase::Discarded);
    }
}

proof fn lemma_kept_some(blocks: Seq<BlockV>, signatures: Option<Seq<char>>, k: int)
    requires
        0 <= k < kept_parts(blocks, signatures).len(),
    ensures
        exists|i: int|
            0 <= i < blocks.len() && kept_parts(blocks, signatures)[k] == block_part(
                #[trigger] blocks[i],
                signatures,
            ),
    decreases blocks.len(),
{
    let rest = blocks.drop_last();
    if k < kept_parts(rest, signatures).len() {
        lemma_kept_some(rest, signatures, k);
        let i = choose|i: int|
            0 <= i < rest.len() && kept_parts(rest, signatures)[k] == block_part(
                #[trigger] rest[i],
                signatures,
            );
        assert(rest[i] == blocks[i]);
    } else {
        assert(blocks[blocks.len() - 1] == blocks.last());
    }
}

proof fn lemma_others(content: Seq<PartV>)
    ensures
        forall|k: int|
            0 <= k < without_calls(content).len() ==> !(#[trigger] without_calls(content)[k]
                is ToolCall) && content.contains(without_calls(content)[k]),
        forall|i: int|
            0 <= i < content.len() && !(#[trigger] content[i] is ToolCall) ==> without_calls(
                content,
            ).contains(content[i]),
    decreases content.len(),
{
    if content.len() > 0 {
        let rest = content.drop_last();
        lemma_others(rest);
        let kept = without_calls(content);
        let before = without_calls(rest);
        assert forall|k: int| 0 <= k < kept.len() implies !(#[trigger] kept[k] is ToolCall)
            && content.contains(kept[k]) by {
            if k < before.len() {
                assert(kept[k] == before[k]);
                let i = choose|i: int| 0 <= i < rest.len() && rest[i] == before[k];
                assert(content[i] == kept[k]);
            } else {
                assert(content[content.len() - 1] == kept[k]);
            }
        }
        assert forall|i: int| 0 <= i < content.len() && !(#[trigger] content[i]
            is ToolCall) implies kept.contains(content[i]) by {
            if i < rest.len() {
                assert(rest[i] == content[i]);
                let k = choose|k: int| 0 <= k < before.len() && before[k] == rest[i];
                assert(kept[k] == content[i]);
            } else {
                assert(kept[before.len() as int] == content[i]);
            }
        }
    }
}

/// What faithful events say of the response among them.
proof fn lemma_rests(empty: AssemblerV, last: AssemblerV, log: Seq<EventV>, calls: bool, at: int)
    requires
        empty.blocks.len() == 0,
        faithful(empty, last, log, calls),
        0 <= at < log.len(),
        log[at] is Ended,
    ensures
        rests_on(log, log[at]->response),
{
    let response = log[at]->response;
    let parts = kept_parts(last.blocks, last.signatures);
    lemma_others(parts);
    assert(shut(last));
    assert forall|i: int| 0 <= i < response.content.len() implies told(
        log,
        #[trigger] response.content[i],
    ) by {
        assert(parts.contains(response.content[i]));
        let k = choose|k: int| 0 <= k < parts.len() && parts[k] == response.content[i];
        lemma_kept_some(last.blocks, last.signatures, k);
        let b = choose|b: int|
            0 <= b < last.blocks.len() && parts[k] == block_part(
                #[trigger] last.blocks[b],
                last.signatures,
            );
        assert(ends_with(log, last.blocks[b].id, response.content[i]));
    }
}

/// What faithful events that discard no block say of the response among them.
proof fn lemma_retold(empty: AssemblerV, last: AssemblerV, log: Seq<EventV>, calls: bool, at: int)
    requires
        empty.blocks.len() == 0,
        faithful(empty, last, log, calls),
        undiscarded(last.blocks),
        0 <= at < log.len(),
        log[at] is Ended,
    ensures
        retold(log, log[at]->response),
{
    let response = log[at]->response;
    let parts = kept_parts(last.blocks, last.signatures);
    lemma_rests(empty, last, log, calls, at);
    lemma_kept(last.blocks, last.signatures);
    lemma_others(parts);
    assert(shut(last));
    assert(names(empty) + starts(log) =~= starts(log));
    assert(names(last) == starts(log));
    assert forall|i: int| 0 <= i < starts(log).len() implies ends_with(
        log,
        #[trigger] starts(log)[i],
        parts[i],
    ) by {
        assert(names(last)[i] == last.blocks[i].id);
        assert(parts[i] == block_part(last.blocks[i], last.signatures));
    }
    assert forall|i: int| 0 <= i < starts(log).len() implies kept(
        log,
        response,
        #[trigger] starts(log)[i],
    ) by {
        assert(ends_with(log, starts(log)[i], parts[i]));
        if response.finish_reason !is Length {
            assert(response.content[i] == parts[i]);
        }
    }
}

proof fn lemma_chat_undiscarded(route: RouteV, frames: Seq<Seq<char>>)
    ensures
        chat_run(openai_chat::stream::fresh_chat(route), frames) matches Some((s, _)) ==> (
        s.assembler.completed && undiscarded(s.assembler.blocks) || all_open(s.assembler)),
    decreases frames.len(),
{
    let empty = openai_chat::stream::fresh_chat(route);
    if frames.len() > 0 {
        lemma_chat_undiscarded(route, frames.drop_last());
        if let Some((before, _)) = chat_run(empty, frames.drop_last()) {
            let data = frames.last();
            if openai_chat::stream::event_step(before, data).1 is Ok && !before.failed && data
                != openai_chat::stream::TERMINATOR@ {
                if before.assembler.completed {
                    lemma_chat_chunk(before, parsed(data)->0);
                } else {
                    lemma_open_chunk(before, parsed(data)->0);
                }
            }
        }
    }
}

/// The response of every Chat Completions stream holds what its events told:
/// one part for each block that was started, in that order, and each the part
/// that the block ended with.
pub proof fn law_chat_retells_its_events(route: RouteV, frames: Seq<Seq<char>>, at: int)
    requires
        chat_run(openai_chat::stream::fresh_chat(route), frames) is Some,
        openai_chat::stream::finish_step(
            (chat_run(openai_chat::stream::fresh_chat(route), frames)->0).0,
        ).1 is Ok,
        ({
            let (s, log) = chat_run(openai_chat::stream::fresh_chat(route), frames)->0;
            let whole = log + openai_chat::stream::finish_step(s).1->Ok_0;
            0 <= at < whole.len() && whole[at] is Ended
        }),
    ensures
        ({
            let (s, log) = chat_run(openai_chat::stream::fresh_chat(route), frames)->0;
            let whole = log + openai_chat::stream::finish_step(s).1->Ok_0;
            retold(whole, whole[at]->response)
        }),
{
    let empty = openai_chat::stream::fresh_chat(route);
    let (s, log) = chat_run(empty, frames)->0;
    let (last, sent) = openai_chat::stream::finish_step(s);
    lemma_chat_whole(route, frames);
    lemma_chat_undiscarded(route, frames);
    lemma_retold(empty.assembler, last.assembler, log + sent->Ok_0, true, at);
}

/// The response of every Gemini stream holds what its events told: one part
/// for each block that was started, in that order, and each the part that the
/// block ended with.
pub proof fn law_gemini_retells_its_events(
    route: RouteV,
    nonce: Seq<char>,
    frames: Seq<Seq<char>>,
    at: int,
)
    requires
        gemini_run(gemini::stream::fresh_stream(route, nonce), frames) is Some,
        ({
            let (s, log) = gemini_run(gemini::stream::fresh_stream(route, nonce), frames)->0;
            let whole = log + gemini::stream::finish_step(s).1;
            0 <= at < whole.len() && whole[at] is Ended
        }),
    ensures
        ({
            let (s, log) = gemini_run(gemini::stream::fresh_stream(route, nonce), frames)->0;
            let whole = log + gemini::stream::finish_step(s).1;
            retold(whole, whole[at]->response)
        }),
{
    let empty = gemini::stream::fresh_stream(route, nonce);
    let (s, log) = gemini_run(empty, frames)->0;
    let (last, sent) = gemini::stream::finish_step(s);
    lemma_gemini_whole(route, nonce, frames);
    lemma_retold(empty.assembler, last.assembler, log + sent, false, at);
}

/// The response of every Responses stream whose text no terminal item
/// replaced holds nothing but parts that its events ended a block with.
pub proof fn law_responses_rest_on_their_events(route: RouteV, frames: Seq<Frame>, at: int)
    requires
        responses_run(openai::stream::fresh_responses(route), frames) is Some,
        steady_run(openai::stream::fresh_responses(route), frames),
        ({
            let (s, log) = responses_run(openai::stream::fresh_responses(route), frames)->0;
            let whole = log + openai::stream::finish_step(s).1;
            0 <= at < whole.len() && whole[at] is Ended
        }),
    ensures
        ({
            let (s, log) = responses_run(openai::stream::fresh_responses(route), frames)->0;
            let whole = log + openai::stream::finish_step(s).1;
            rests_on(whole, whole[at]->response)
        }),
{
    let empty = openai::stream::fresh_responses(route);
    let (s, log) = responses_run(empty, frames)->0;
    let (last, sent) = openai::stream::finish_step(s);
    lemma_responses_whole(route, frames);
    lemma_rests(empty.assembler, last.assembler, log + sent, true, at);
}

} // verus!
