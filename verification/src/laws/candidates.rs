//! Laws of whole Gemini transcripts: a stream completes with the content of the
//! parts its chunks list.

use vstd::prelude::*;

use super::agreement::alike;
use super::agreement::alike_all;
use super::agreement::gemini_at;
use super::agreement::lemma_kept_push;
use super::agreement::streamed_part;
use super::agreement::tool_name;
use super::identity::lemma_decimal_injective;
use super::streams::gemini_run;
use crate::assembler::append_step;
use crate::assembler::begun;
use crate::assembler::block_part;
use crate::assembler::end_step;
use crate::assembler::fallback_call;
use crate::assembler::fresh;
use crate::assembler::kept_parts;
use crate::assembler::lemma_locate;
use crate::assembler::locate;
use crate::assembler::metadata_step;
use crate::assembler::signature_step;
use crate::assembler::start_step;
use crate::assembler::AssemblerV;
use crate::assembler::BlockV;
use crate::assembler::Phase;
use crate::content::finish_of;
use crate::content::promoted;
use crate::content::GEMINI_SIGNATURES;
use crate::gemini::decode::call_arguments;
use crate::gemini::decode::call_count;
use crate::gemini::decode::candidate_parts;
use crate::gemini::decode::decoded;
use crate::gemini::decode::first_candidate;
use crate::gemini::decode::function_name;
use crate::gemini::decode::function_part;
use crate::gemini::decode::input_reads;
use crate::gemini::decode::inputs_read;
use crate::gemini::decode::is_thought;
use crate::gemini::decode::listed_parts;
use crate::gemini::decode::signature_metadata;
use crate::gemini::decode::spoken_part;
use crate::gemini::decode::usage_counts;
use crate::gemini::encode::NAMESPACE;
use crate::gemini::identity::call_id;
use crate::gemini::stream::begin_step;
use crate::gemini::stream::call_step;
use crate::gemini::stream::chunk_parts;
use crate::gemini::stream::close_step;
use crate::gemini::stream::finish_step;
use crate::gemini::stream::fresh_stream;
use crate::gemini::stream::part_step;
use crate::gemini::stream::parts_step;
use crate::gemini::stream::run_kind;
use crate::gemini::stream::run_prefix;
use crate::gemini::stream::run_step;
use crate::gemini::stream::spoken_step;
use crate::gemini::stream::stream_scope;
use crate::gemini::stream::Run;
use crate::gemini::stream::StreamV;
use crate::json::JsonV;
use crate::response::call_warnings;
use crate::response::finished;
use crate::response::without_calls;
use crate::response::EventV;
use crate::response::FinishV;
use crate::response::KindV;
use crate::response::ResponseV;
use crate::response::TokenCounts;
use crate::serial::parsed;
use crate::serial::printed;
use crate::serial::reads_back;
use crate::serial::NESTING;
use crate::text::decimal;
use crate::types::input_value;
use crate::types::CallV;
use crate::types::InputV;
use crate::types::PartV;
use crate::types::RouteV;
use crate::types::ToolCallKind;

verus! {

broadcast use {vstd::seq::group_seq_axioms, vstd::map::group_map_axioms};

/// The run a text part belongs to.
pub open spec fn run_of(part: JsonV) -> Run {
    if is_thought(part) {
        Run::Reasoning
    } else {
        Run::Text
    }
}

/// The run that some parts leave open: a function call ends one, and so does a
/// signed thought.
pub open spec fn open_run(list: Seq<JsonV>) -> Option<Run>
    decreases list.len(),
{
    if list.len() == 0 {
        None
    } else if list.last().get("functionCall"@) is Some {
        None
    } else if list.last().text_at("text"@) is None {
        open_run(list.drop_last())
    } else if is_thought(list.last()) && list.last().text_at("thoughtSignature"@) is Some {
        None
    } else {
        Some(run_of(list.last()))
    }
}

/// The text a part holds.
pub open spec fn held_text(part: PartV) -> Seq<char> {
    match part {
        PartV::Text { text } => text,
        PartV::Reasoning(reasoning) => reasoning.text,
        _ => Seq::empty(),
    }
}

/// The content of some parts with one more part added, `call` being what it is
/// as a function call: a text part joins the run it continues.
pub open spec fn extended(
    content: Seq<PartV>,
    earlier: Seq<JsonV>,
    part: JsonV,
    call: PartV,
) -> Seq<PartV> {
    if part.get("functionCall"@) is Some {
        content.push(call)
    } else {
        match part.text_at("text"@) {
            None => content,
            Some(text) => if open_run(earlier) == Some(run_of(part)) {
                content.drop_last().push(spoken_part(part, held_text(content.last()) + text))
            } else {
                content.push(spoken_part(part, text))
            },
        }
    }
}

/// The content of some parts as the document decoder finds it, but each run of
/// text or thought in one piece.
pub open spec fn joined(list: Seq<JsonV>, scope: Seq<char>) -> Seq<PartV>
    decreases list.len(),
{
    if list.len() == 0 {
        Seq::empty()
    } else {
        let earlier = list.drop_last();
        let function_call = list.last().get("functionCall"@)->0;
        extended(
            joined(earlier, scope),
            earlier,
            list.last(),
            function_part(list.last(), function_call, scope, call_count(earlier)),
        )
    }
}

/// The content of some parts as a stream tells it.
pub open spec fn streamed(list: Seq<JsonV>, scope: Seq<char>) -> Seq<PartV>
    decreases list.len(),
{
    if list.len() == 0 {
        Seq::empty()
    } else {
        let earlier = list.drop_last();
        let function_call = list.last().get("functionCall"@)->0;
        extended(
            streamed(earlier, scope),
            earlier,
            list.last(),
            streamed_part(list.last(), function_call, scope, call_count(earlier)),
        )
    }
}

/// Whether no text part continues the run ahead of it.
pub open spec fn apart(list: Seq<JsonV>) -> bool
    decreases list.len(),
{
    list.len() == 0 || {
        &&& apart(list.drop_last())
        &&& list.last().get("functionCall"@) is None && list.last().text_at("text"@) is Some
            ==> open_run(list.drop_last()) != Some(run_of(list.last()))
    }
}

/// Parts that stand apart are joined as they are decoded.
pub proof fn law_parts_apart_stay_apart(list: Seq<JsonV>, scope: Seq<char>)
    requires
        apart(list),
    ensures
        joined(list, scope) == candidate_parts(list, scope),
    decreases list.len(),
{
    if list.len() > 0 {
        law_parts_apart_stay_apart(list.drop_last(), scope);
    }
}

/// The parts that some frames list, chunk after chunk.
pub open spec fn told_parts(frames: Seq<Seq<char>>) -> Seq<JsonV>
    decreases frames.len(),
{
    if frames.len() == 0 {
        Seq::empty()
    } else {
        told_parts(frames.drop_last()) + chunk_parts(parsed(frames.last())->0)
    }
}

/// The last reason to stop that some frames name.
pub open spec fn told_finish(frames: Seq<Seq<char>>) -> Option<FinishV>
    decreases frames.len(),
{
    if frames.len() == 0 {
        None
    } else {
        match first_candidate(parsed(frames.last())->0) {
            Some(candidate) => match candidate.text_at("finishReason"@) {
                Some(reason) => Some(finish_of(Some(reason))),
                None => told_finish(frames.drop_last()),
            },
            None => told_finish(frames.drop_last()),
        }
    }
}

/// The last usage that some frames report.
pub open spec fn told_usage(frames: Seq<Seq<char>>) -> TokenCounts
    decreases frames.len(),
{
    if frames.len() == 0 {
        TokenCounts::zero()
    } else {
        match parsed(frames.last())->0.get("usageMetadata"@) {
            Some(metadata) => usage_counts(metadata),
            None => told_usage(frames.drop_last()),
        }
    }
}

/// The response id of a frame's chunk.
pub open spec fn frame_id(data: Seq<char>) -> Option<Seq<char>> {
    parsed(data)->0.text_at("responseId"@)
}

/// The first response id that some frames carry.
pub open spec fn told_id(frames: Seq<Seq<char>>) -> Option<Seq<char>>
    decreases frames.len(),
{
    if frames.len() == 0 {
        None
    } else {
        match told_id(frames.drop_last()) {
            Some(id) => Some(id),
            None => frame_id(frames.last()),
        }
    }
}

/// Whether every function call of a list has an id of its own.
pub open spec fn self_named(list: Seq<JsonV>) -> bool
    decreases list.len(),
{
    list.len() == 0 || {
        &&& self_named(list.drop_last())
        &&& list.last().get("functionCall"@) matches Some(function_call) ==> (
        function_call.text_at("id"@) matches Some(id) && id.len() > 0)
    }
}

/// Whether a response is named ahead of the calls that need its name, when it
/// is named at all.
pub open spec fn named_in_time(frames: Seq<Seq<char>>) -> bool
    decreases frames.len(),
{
    frames.len() == 0 || {
        let earlier = frames.drop_last();
        &&& named_in_time(earlier)
        &&& told_id(earlier) is None && frame_id(frames.last()) is Some ==> self_named(
            told_parts(earlier),
        )
    }
}

/// The content of calls with ids of their own needs no scope.
proof fn lemma_self_named(list: Seq<JsonV>, first: Seq<char>, second: Seq<char>)
    requires
        self_named(list),
    ensures
        streamed(list, first) == streamed(list, second),
    decreases list.len(),
{
    if list.len() > 0 {
        lemma_self_named(list.drop_last(), first, second);
    }
}

/// What scopes the calls of a response.
pub open spec fn scope_of(id: Option<Seq<char>>, nonce: Seq<char>) -> Seq<char> {
    match id {
        Some(id) => id,
        None => nonce,
    }
}

/// Whether every function call of a list has its arguments.
pub open spec fn with_arguments(list: Seq<JsonV>) -> bool {
    forall|i: int|
        0 <= i < list.len() ==> ((#[trigger] list[i]).get("functionCall"@) matches Some(
            function_call,
        ) ==> function_call.get("args"@) is Some)
}

/// The arguments of the function calls of a list, in order.
pub open spec fn arguments_of(list: Seq<JsonV>) -> Seq<JsonV>
    decreases list.len(),
{
    if list.len() == 0 {
        Seq::empty()
    } else {
        match list.last().get("functionCall"@) {
            Some(function_call) => arguments_of(list.drop_last()).push(
                call_arguments(function_call),
            ),
            None => arguments_of(list.drop_last()),
        }
    }
}

/// The names of some blocks.
pub open spec fn ids(list: Seq<BlockV>) -> Seq<Seq<char>> {
    list.map_values(|block: BlockV| block.id)
}

/// The name of a run's block.
pub open spec fn run_name(run: Run, ordinal: nat) -> Seq<char> {
    run_prefix(run) + "-"@ + decimal(ordinal)
}

/// Whether no block has a name that the counters have not given out.
pub open spec fn unnamed(names: Seq<Seq<char>>, texts: u64, reasonings: u64, calls: u64) -> bool {
    &&& forall|n: nat| n >= texts ==> !names.contains(#[trigger] run_name(Run::Text, n))
    &&& forall|n: nat| n >= reasonings ==> !names.contains(#[trigger] run_name(Run::Reasoning, n))
    &&& forall|n: nat| n >= calls ==> !names.contains(#[trigger] tool_name(n))
}

/// Whether the last block is the open one of a run, and has its name alone.
pub open spec fn open_block(list: Seq<BlockV>, id: Seq<char>, run: Run) -> bool {
    &&& list.len() > 0
    &&& list.last().id == id
    &&& list.last().kind == run_kind(run)
    &&& list.last().phase == Phase::Open
    &&& list.last().signature is None
    &&& !ids(list.drop_last()).contains(id)
}

/// Whether a decoder holds the content of its parts.
pub open spec fn holds(s: StreamV, list: Seq<JsonV>, scope: Seq<char>) -> bool {
    &&& !s.failed
    &&& !s.assembler.completed
    &&& s.assembler.finish is None
    &&& s.assembler.signatures == Some(GEMINI_SIGNATURES@)
    &&& kept_parts(s.assembler.blocks, s.assembler.signatures) == streamed(list, scope)
    &&& s.calls == call_count(list)
    &&& s.texts <= list.len()
    &&& s.reasonings <= list.len()
    &&& s.calls <= list.len()
    &&& unnamed(ids(s.assembler.blocks), s.texts, s.reasonings, s.calls)
}

/// Whether a decoder is where its parts lead.
pub open spec fn led(s: StreamV, list: Seq<JsonV>, scope: Seq<char>) -> bool {
    &&& holds(s, list, scope)
    &&& match s.open {
        Some((id, run)) => open_run(list) == Some(run) && open_block(s.assembler.blocks, id, run),
        None => open_run(list) is None,
    }
}

/// Whether a step left all but the blocks, the counters and the open run.
pub open spec fn kept_aside(next: StreamV, s: StreamV) -> bool {
    &&& next.response_id == s.response_id
    &&& next.nonce == s.nonce
    &&& next.started == s.started
    &&& next.finished == s.finished
    &&& next.assembler == (AssemblerV { blocks: next.assembler.blocks, ..s.assembler })
}

/// The names of runs and of function calls differ.
proof fn lemma_run_names(run: Run, n: nat)
    ensures
        forall|other: Run, m: nat|
            #![trigger run_name(other, m)]
            run_name(run, n) == run_name(other, m) ==> run == other && n == m,
        forall|m: nat| run_name(run, n) != #[trigger] tool_name(m),
{
    reveal_strlit("text");
    reveal_strlit("reasoning");
    reveal_strlit("tool-");
    reveal_strlit("-");
    assert forall|other: Run, m: nat|
        #![trigger run_name(other, m)]
        run_name(run, n) == run_name(other, m) implies run == other && n == m by {
        assert(run_name(run, n)[0] == run_prefix(run)[0]);
        assert(run_name(other, m)[0] == run_prefix(other)[0]);
        let skipped = run_prefix(run).len() as int + 1;
        assert(run_name(run, n).skip(skipped) =~= decimal(n));
        assert(run_name(other, m).skip(skipped) =~= decimal(m));
        lemma_decimal_injective(n, m);
    }
    assert forall|m: nat| run_name(run, n) != #[trigger] tool_name(m) by {
        assert(run_name(run, n)[1] == 'e');
        assert(tool_name(m)[1] == 'o');
    }
}

/// Two function calls have different names.
proof fn lemma_call_names(n: nat)
    ensures
        forall|m: nat| tool_name(n) == #[trigger] tool_name(m) ==> n == m,
{
    let skipped = "tool-"@.len() as int;
    assert forall|m: nat| tool_name(n) == #[trigger] tool_name(m) implies n == m by {
        assert(tool_name(n).skip(skipped) =~= decimal(n));
        assert(tool_name(m).skip(skipped) =~= decimal(m));
        lemma_decimal_injective(n, m);
    }
}

/// A pushed name is the one new name.
proof fn lemma_ids_push(list: Seq<BlockV>, block: BlockV)
    ensures
        ids(list.push(block)) == ids(list).push(block.id),
        forall|id: Seq<char>| #[trigger]
            ids(list.push(block)).contains(id) <==> ids(list).contains(id) || id == block.id,
{
    let pushed = ids(list).push(block.id);
    assert(ids(list.push(block)) =~= pushed);
    assert forall|id: Seq<char>| #[trigger]
        ids(list.push(block)).contains(id) <==> ids(list).contains(id) || id == block.id by {
        if ids(list).contains(id) {
            let i = choose|i: int| 0 <= i < ids(list).len() && ids(list)[i] == id;
            assert(pushed[i] == id);
        }
        assert(pushed[list.len() as int] == block.id);
    }
}

/// A name that no block has is found nowhere, and at the end once a block of
/// that name is pushed.
proof fn lemma_located(list: Seq<BlockV>, block: BlockV)
    requires
        !ids(list).contains(block.id),
    ensures
        locate(list, block.id, 0) is None,
        locate(list.push(block), block.id, 0) == Some(list.len() as int),
{
    lemma_locate(list, block.id, 0);
    if let Some(at) = locate(list, block.id, 0) {
        assert(ids(list)[at] == block.id);
    }
    let pushed = list.push(block);
    lemma_locate(pushed, block.id, 0);
    assert(pushed[list.len() as int].id == block.id);
    assert(forall|i: int| 0 <= i < list.len() ==> pushed[i] == list[i]);
}

/// Closing the open run keeps the content.
proof fn lemma_closed(s: StreamV, list: Seq<JsonV>, scope: Seq<char>)
    requires
        led(s, list, scope),
    ensures
        holds(close_step(s).0, list, scope),
        close_step(s).0.open is None,
        kept_aside(close_step(s).0, s),
        close_step(s).0.calls == s.calls,
        close_step(s).0.texts == s.texts,
        close_step(s).0.reasonings == s.reasonings,
{
    if let Some((id, run)) = s.open {
        let blocks = s.assembler.blocks;
        let base = blocks.drop_last();
        let next = close_step(s).0;
        let ended = BlockV { phase: Phase::Closed, ..blocks.last() };
        assert(blocks =~= base.push(blocks.last()));
        lemma_located(base, blocks.last());
        assert(next.assembler.blocks =~= base.push(ended));
        lemma_kept_push(base, blocks.last(), s.assembler.signatures);
        lemma_kept_push(base, ended, s.assembler.signatures);
        assert(ids(next.assembler.blocks) =~= ids(blocks));
    }
}

/// A function call is told whole.
proof fn lemma_led_call(
    s: StreamV,
    list: Seq<JsonV>,
    scope: Seq<char>,
    part: JsonV,
    function_call: JsonV,
)
    requires
        led(s, list, scope),
        stream_scope(s) == scope,
        list.len() < u64::MAX,
        part.get("functionCall"@) == Some(function_call),
    ensures
        led(call_step(s, part, function_call).0, list.push(part), scope),
        kept_aside(call_step(s, part, function_call).0, s),
{
    lemma_closed(s, list, scope);
    let before = close_step(s).0;
    let base = before.assembler.blocks;
    let after = list.push(part);
    assert(after.drop_last() =~= list);
    let id = tool_name(s.calls as nat);
    let name = function_name(function_call);
    let identity = KindV::ToolCall {
        id: call_id(function_call, name, stream_scope(before), before.calls as nat),
        name: Some(name),
        kind: ToolCallKind::Function,
    };
    let arguments = match function_call.get("args"@) {
        Some(arguments) => printed(arguments),
        None => Seq::empty(),
    };
    let opened = fresh(id, identity);
    let filled = BlockV { buffer: arguments, ..opened };
    let signed = BlockV {
        metadata: match part.text_at("thoughtSignature"@) {
            Some(signature) => Map::empty().insert(NAMESPACE@, signature_metadata(signature)),
            None => Map::empty(),
        },
        ..filled
    };
    let ended = BlockV { phase: Phase::Closed, ..signed };
    lemma_located(base, opened);
    lemma_located(base, filled);
    lemma_located(base, signed);
    let first = start_step(before.assembler, id, identity).0;
    assert(first.blocks == base.push(opened));
    let second = match function_call.get("args"@) {
        Some(arguments) => append_step(first, id, fallback_call(id), printed(arguments)).0,
        None => first,
    };
    assert(Seq::<char>::empty() + arguments =~= arguments);
    assert(second.blocks =~= base.push(filled));
    let third = match part.text_at("thoughtSignature"@) {
        Some(signature) => metadata_step(second, id, NAMESPACE@, signature_metadata(signature)),
        None => second,
    };
    assert(third.blocks =~= base.push(signed));
    let fourth = end_step(third, id, Phase::Closed).0;
    assert(fourth.blocks =~= base.push(ended));
    lemma_kept_push(base, ended, s.assembler.signatures);
    lemma_ids_push(base, ended);
    lemma_call_names(s.calls as nat);
    assert forall|n: nat|
        !(#[trigger] run_name(Run::Text, n) == id || run_name(Run::Reasoning, n) == id) by {
        lemma_run_names(Run::Text, n);
        lemma_run_names(Run::Reasoning, n);
    }
    assert forall|n: nat| #[trigger] run_name(Run::Reasoning, n) != id by {
        lemma_run_names(Run::Reasoning, n);
    }
    assert(block_part(ended, s.assembler.signatures) == streamed_part(
        part,
        function_call,
        scope,
        call_count(list),
    ));
}

/// A text part joins its run.
proof fn lemma_led_text(
    s: StreamV,
    list: Seq<JsonV>,
    scope: Seq<char>,
    part: JsonV,
    text: Seq<char>,
)
    requires
        led(s, list, scope),
        list.len() < u64::MAX,
        part.get("functionCall"@) is None,
        part.text_at("text"@) == Some(text),
    ensures
        led(spoken_step(s, part, text).0, list.push(part), scope),
        kept_aside(spoken_step(s, part, text).0, s),
{
    let run = run_of(part);
    let after = list.push(part);
    assert(after.drop_last() =~= list);
    lemma_closed(s, list, scope);
    let signatures = s.assembler.signatures;
    let turned = match s.open {
        Some((_, open)) if open != run => close_step(s).0,
        _ => s,
    };
    let (begun, id) = run_step(turned, run);
    let continuing = s.open matches Some((_, open)) && open == run;
    let base = if continuing {
        s.assembler.blocks.drop_last()
    } else {
        turned.assembler.blocks
    };
    let held = if continuing {
        s.assembler.blocks.last()
    } else {
        fresh(id, run_kind(run))
    };
    lemma_run_names(Run::Text, s.texts as nat);
    lemma_run_names(Run::Reasoning, s.reasonings as nat);
    if !continuing {
        assert(id == run_name(
            run,
            if run == Run::Text {
                s.texts as nat
            } else {
                s.reasonings as nat
            },
        ));
    }
    assert(!ids(base).contains(held.id));
    lemma_located(base, held);
    let started = start_step(begun.assembler, id, run_kind(run)).0;
    if continuing {
        assert(s.assembler.blocks =~= base.push(held));
        lemma_kept_push(base, held, signatures);
        assert(streamed(list, scope).drop_last() =~= kept_parts(base, signatures));
        assert(streamed(list, scope).last() == block_part(held, signatures));
    }
    assert(started.blocks =~= base.push(held));
    let filled = BlockV { buffer: held.buffer + text, ..held };
    let appended = append_step(begun.assembler, id, run_kind(run), text).0;
    assert(appended.blocks =~= base.push(filled));
    assert(Seq::<char>::empty() + text =~= text);
    lemma_located(base, filled);
    let signature = part.text_at("thoughtSignature"@);
    let last = if run == Run::Reasoning && signature is Some {
        BlockV { signature, phase: Phase::Closed, ..filled }
    } else {
        filled
    };
    if run == Run::Reasoning && signature is Some {
        let sealing = BlockV { signature, ..filled };
        let signed = signature_step(appended, id, signature->0).0;
        assert(signed.blocks =~= base.push(sealing));
        lemma_located(base, sealing);
        assert(end_step(signed, id, Phase::Closed).0.blocks =~= base.push(last));
    }
    let next = spoken_step(s, part, text).0;
    assert(next.assembler.blocks =~= base.push(last));
    lemma_kept_push(base, last, signatures);
    lemma_ids_push(base, held);
    lemma_ids_push(base, last);
    assert(base.push(last).drop_last() =~= base);
    assert(block_part(last, signatures) == spoken_part(part, held.buffer + text));
}

/// A part leads a decoder to what it adds.
proof fn lemma_led_part(s: StreamV, list: Seq<JsonV>, scope: Seq<char>, part: JsonV)
    requires
        led(s, list, scope),
        stream_scope(s) == scope,
        list.len() < u64::MAX,
    ensures
        led(part_step(s, part).0, list.push(part), scope),
        kept_aside(part_step(s, part).0, s),
{
    match part.get("functionCall"@) {
        Some(function_call) => lemma_led_call(s, list, scope, part, function_call),
        None => match part.text_at("text"@) {
            Some(text) => lemma_led_text(s, list, scope, part, text),
            None => {
                assert(list.push(part).drop_last() =~= list);
            },
        },
    }
}

/// The parts of a chunk lead a decoder to what they add.
proof fn lemma_led_parts(s: StreamV, list: Seq<JsonV>, scope: Seq<char>, more: Seq<JsonV>)
    requires
        led(s, list, scope),
        stream_scope(s) == scope,
        list.len() + more.len() <= u64::MAX,
    ensures
        led(parts_step(s, more).0, list + more, scope),
        kept_aside(parts_step(s, more).0, s),
    decreases more.len(),
{
    if more.len() == 0 {
        assert(list + more =~= list);
    } else {
        let earlier = more.drop_last();
        lemma_led_parts(s, list, scope, earlier);
        lemma_led_part(parts_step(s, earlier).0, list + earlier, scope, more.last());
        assert((list + earlier).push(more.last()) =~= list + more);
    }
}

/// Frames lead a decoder to what their parts add up to.
proof fn lemma_led_run(route: RouteV, nonce: Seq<char>, frames: Seq<Seq<char>>)
    requires
        gemini_run(fresh_stream(route, nonce), frames) is Some,
        named_in_time(frames),
        told_parts(frames).len() <= u64::MAX,
    ensures
        ({
            let s = (gemini_run(fresh_stream(route, nonce), frames)->0).0;
            &&& led(s, told_parts(frames), scope_of(told_id(frames), nonce))
            &&& s.finished == told_finish(frames)
            &&& s.response_id == told_id(frames)
            &&& s.nonce == nonce
            &&& s.started == (frames.len() > 0)
            &&& s.assembler == (AssemblerV {
                blocks: s.assembler.blocks,
                id: told_id(frames),
                usage: told_usage(frames),
                ..begun(route, Some(GEMINI_SIGNATURES@))
            })
        }),
    decreases frames.len(),
{
    let decoder = fresh_stream(route, nonce);
    let scope = scope_of(told_id(frames), nonce);
    if frames.len() == 0 {
        assert(kept_parts(Seq::empty(), Some(GEMINI_SIGNATURES@)) =~= streamed(
            Seq::empty(),
            scope,
        ));
        assert(ids(decoder.assembler.blocks) =~= Seq::empty());
    } else {
        let earlier = frames.drop_last();
        let value = parsed(frames.last())->0;
        let list = told_parts(earlier);
        let more = chunk_parts(value);
        lemma_led_run(route, nonce, earlier);
        let s = (gemini_run(decoder, earlier)->0).0;
        let opened = begin_step(s, value).0;
        if told_id(earlier) is None && frame_id(frames.last()) is Some {
            lemma_self_named(list, nonce, scope);
        }
        lemma_led_parts(opened, list, scope, more);
    }
}

/// Whether some content calls a tool.
pub open spec fn calls_tool(content: Seq<PartV>) -> bool {
    exists|i: int| 0 <= i < content.len() && (#[trigger] content[i]) is ToolCall
}

/// The content of some parts calls a tool where one of them does.
proof fn lemma_calls_tool(list: Seq<JsonV>, scope: Seq<char>)
    ensures
        calls_tool(joined(list, scope)) <==> call_count(list) > 0,
        open_run(list) is Some ==> joined(list, scope).len() > 0 && !(joined(
            list,
            scope,
        ).last() is ToolCall),
    decreases list.len(),
{
    let content = joined(list, scope);
    if list.len() > 0 {
        let earlier = list.drop_last();
        let before = joined(earlier, scope);
        lemma_calls_tool(earlier, scope);
        if list.last().get("functionCall"@) is Some {
            assert(content[before.len() as int] is ToolCall);
        } else if list.last().text_at("text"@) is Some {
            let n = content.len() - 1;
            assert(forall|i: int| 0 <= i < n ==> content[i] == before[i]);
            assert(!(content[n] is ToolCall));
            if calls_tool(before) {
                let i = choose|i: int| 0 <= i < before.len() && (#[trigger] before[i]) is ToolCall;
                assert(content[i] is ToolCall);
            }
            if calls_tool(content) {
                let i = choose|i: int|
                    0 <= i < content.len() && (#[trigger] content[i]) is ToolCall;
                assert(before[i] is ToolCall);
            }
        }
    }
}

/// The input of a call that carries no arguments, as the document decoder
/// spells it.
pub open spec fn empty_input() -> InputV {
    InputV { kind: ToolCallKind::Function, raw: printed(JsonV::Object(Map::empty())) }
}

/// Whether two parts are the same, but that the first may be a call without
/// text where the second spells the empty input.
pub open spec fn respelled(a: PartV, b: PartV) -> bool {
    a == b || match (a, b) {
        (PartV::ToolCall(a), PartV::ToolCall(b)) => b.input == empty_input() && a == (CallV {
            input: InputV { raw: Seq::empty(), ..b.input },
            ..b
        }),
        _ => false,
    }
}

/// Whether two contents are the same, but for calls without text.
pub open spec fn respelled_all(a: Seq<PartV>, b: Seq<PartV>) -> bool {
    a.len() == b.len() && forall|i: int| 0 <= i < a.len() ==> respelled(#[trigger] a[i], b[i])
}

/// What a stream tells is what the document decoder finds, but for calls
/// without text.
proof fn lemma_respelled(list: Seq<JsonV>, scope: Seq<char>)
    ensures
        respelled_all(streamed(list, scope), joined(list, scope)),
        with_arguments(list) ==> streamed(list, scope) == joined(list, scope),
    decreases list.len(),
{
    if list.len() > 0 {
        let earlier = list.drop_last();
        let before = streamed(earlier, scope);
        let found = joined(earlier, scope);
        lemma_respelled(earlier, scope);
        lemma_calls_tool(earlier, scope);
        if with_arguments(list) {
            assert forall|i: int| 0 <= i < earlier.len() implies ((
            #[trigger] earlier[i]).get("functionCall"@) matches Some(function_call)
                ==> function_call.get("args"@) is Some) by {
                assert(earlier[i] == list[i]);
            }
            assert(list[list.len() - 1] == list.last());
        }
        if before.len() > 0 {
            assert(respelled(before[before.len() - 1], found[before.len() - 1]));
        }
        if let Some(function_call) = list.last().get("functionCall"@) {
            assert(respelled(
                streamed_part(list.last(), function_call, scope, call_count(earlier)),
                function_part(list.last(), function_call, scope, call_count(earlier)),
            ));
        }
        assert forall|i: int| 0 <= i < streamed(list, scope).len() implies respelled(
            #[trigger] streamed(list, scope)[i],
            joined(list, scope)[i],
        ) by {
            if i < before.len() {
                assert(respelled(before[i], found[i]));
            }
        }
    }
}

/// Contents that are the same but for calls without text warn of the same
/// calls, and are the same without their calls.
proof fn lemma_respelled_finish(a: Seq<PartV>, b: Seq<PartV>)
    requires
        respelled_all(a, b),
    ensures
        without_calls(a) == without_calls(b),
        call_warnings(a) == call_warnings(b),
    decreases a.len(),
{
    if a.len() > 0 {
        let n = a.len() - 1;
        assert forall|i: int| 0 <= i < n implies respelled(
            #[trigger] a.drop_last()[i],
            b.drop_last()[i],
        ) by {
            assert(respelled(a[i], b[i]));
        }
        lemma_respelled_finish(a.drop_last(), b.drop_last());
        assert(respelled(a[n], b[n]));
    }
}

/// The arguments of a listed function call are among those of its list.
proof fn lemma_argument_listed(list: Seq<JsonV>, at: int)
    requires
        0 <= at < list.len(),
        list[at].get("functionCall"@) is Some,
    ensures
        arguments_of(list).contains(call_arguments(list[at].get("functionCall"@)->0)),
    decreases list.len(),
{
    let arguments = call_arguments(list[at].get("functionCall"@)->0);
    let before = arguments_of(list.drop_last());
    if at == list.len() - 1 {
        assert(arguments_of(list)[before.len() as int] == arguments);
    } else {
        lemma_argument_listed(list.drop_last(), at);
        let i = before.index_of(arguments);
        assert(arguments_of(list)[i] == arguments);
    }
}

/// Arguments of a list are those of a function call in it.
proof fn lemma_argument_found(list: Seq<JsonV>, at: int) -> (found: int)
    requires
        0 <= at < arguments_of(list).len(),
    ensures
        0 <= found < list.len(),
        list[found].get("functionCall"@) is Some,
        call_arguments(list[found].get("functionCall"@)->0) == arguments_of(list)[at],
    decreases list.len(),
{
    if list.last().get("functionCall"@) is Some && at == arguments_of(list).len() - 1 {
        list.len() - 1
    } else {
        lemma_argument_found(list.drop_last(), at)
    }
}

/// Where a document's calls give their tools the arguments of the streamed
/// calls, a streamed call without arguments hands its tool what the document
/// spells out.
proof fn lemma_empty_reads(told: Seq<JsonV>, listed: Seq<JsonV>)
    requires
        !with_arguments(told),
        arguments_of(told) == arguments_of(listed),
        inputs_read(listed),
    ensures
        input_value(empty_input()) == JsonV::Object(Map::empty()),
{
    let none = JsonV::Object(Map::empty());
    let at = choose|at: int|
        0 <= at < told.len() && !((#[trigger] told[at]).get("functionCall"@) matches Some(
            function_call,
        ) ==> function_call.get("args"@) is Some);
    lemma_argument_listed(told, at);
    let found = lemma_argument_found(listed, arguments_of(listed).index_of(none));
    assert(input_reads(listed[found]));
    assert(reads_back(none, NESTING as nat));
}

/// A Gemini stream completes with the response that the parts its chunks list
/// add up to, each run of text or thought in one piece, however the chunks
/// split it.
pub proof fn law_a_gemini_transcript_completes_with_its_parts(
    route: RouteV,
    nonce: Seq<char>,
    frames: Seq<Seq<char>>,
)
    requires
        gemini_run(fresh_stream(route, nonce), frames) is Some,
        named_in_time(frames),
        told_parts(frames).len() <= u64::MAX,
    ensures
        ({
            let list = told_parts(frames);
            let sent = finish_step((gemini_run(fresh_stream(route, nonce), frames)->0).0).1;
            &&& sent.len() > 0
            &&& sent.last() matches EventV::Ended { response }
            &&& response == finished(
                ResponseV {
                    provider: route.provider,
                    model: route.model,
                    id: told_id(frames),
                    content: streamed(list, scope_of(told_id(frames), nonce)),
                    finish_reason: match told_finish(frames) {
                        Some(reason) => promoted(reason, call_count(list) > 0),
                        None => FinishV::Other("incomplete"@),
                    },
                    usage: told_usage(frames),
                    cost: None,
                    raw: None,
                    warnings: Seq::empty(),
                },
            )
        }),
{
    lemma_led_run(route, nonce, frames);
    let s = (gemini_run(fresh_stream(route, nonce), frames)->0).0;
    let list = told_parts(frames);
    let scope = scope_of(told_id(frames), nonce);
    let reported = match s.finished {
        Some(reason) => StreamV {
            finished: None,
            assembler: AssemblerV { finish: Some(promoted(reason, s.calls > 0)), ..s.assembler },
            ..s
        },
        None => s,
    };
    lemma_closed(s, list, scope);
    assert(close_step(reported).0.assembler.blocks == close_step(s).0.assembler.blocks);
}

/// A Gemini stream that names its reason to stop completes as its document is
/// decoded, where the document lists the same parts with each run in one
/// piece: every field is the document's, but for the usage, which is the last
/// one streamed, and the document itself, which a stream does not have. The
/// content is the same where each streamed call carries arguments. A call
/// without them differs in the spelling of its input alone: its tool gets the
/// same value.
pub proof fn law_a_gemini_transcript_completes_as_its_document(
    route: RouteV,
    nonce: Seq<char>,
    frames: Seq<Seq<char>>,
    value: JsonV,
    candidate: JsonV,
)
    requires
        gemini_run(fresh_stream(route, nonce), frames) is Some,
        named_in_time(frames),
        told_parts(frames).len() <= u64::MAX,
        first_candidate(value) == Some(candidate),
        value.text_at("responseId"@) == told_id(frames),
        apart(listed_parts(candidate)),
        joined(listed_parts(candidate), scope_of(told_id(frames), nonce)) == joined(
            told_parts(frames),
            scope_of(told_id(frames), nonce),
        ),
        told_finish(frames) == Some(finish_of(candidate.text_at("finishReason"@))),
    ensures
        decoded(route, value, nonce) is Ok,
        ({
            let document = decoded(route, value, nonce)->Ok_0;
            let told = told_parts(frames);
            let listed = listed_parts(candidate);
            let sent = finish_step((gemini_run(fresh_stream(route, nonce), frames)->0).0).1;
            &&& sent.len() > 0
            &&& sent.last() matches EventV::Ended { response }
            &&& response == (ResponseV {
                content: response.content,
                usage: told_usage(frames),
                raw: None,
                ..document
            })
            &&& with_arguments(told) ==> response.content == document.content
            &&& arguments_of(told) == arguments_of(listed) && inputs_read(listed) ==> alike_all(
                response.content,
                document.content,
            )
        }),
{
    let scope = scope_of(told_id(frames), nonce);
    let told = told_parts(frames);
    let listed = listed_parts(candidate);
    law_a_gemini_transcript_completes_with_its_parts(route, nonce, frames);
    law_parts_apart_stay_apart(listed, scope);
    lemma_calls_tool(listed, scope);
    lemma_calls_tool(told, scope);
    lemma_respelled(told, scope);
    lemma_respelled_finish(streamed(told, scope), joined(told, scope));
    if arguments_of(told) == arguments_of(listed) && inputs_read(listed) {
        if !with_arguments(told) {
            lemma_empty_reads(told, listed);
        }
        assert forall|i: int| 0 <= i < streamed(told, scope).len() implies alike(
            #[trigger] streamed(told, scope)[i],
            joined(told, scope)[i],
        ) by {
            assert(respelled(streamed(told, scope)[i], joined(told, scope)[i]));
        }
    }
}

/// Whether a list of events passes a text on, as a thought or as an answer.
pub open spec fn passes_text(sent: Seq<EventV>, text: Seq<char>, thought: bool) -> bool {
    exists|j: int|
        0 <= j < sent.len() && match #[trigger] sent[j] {
            EventV::TextDelta { text: told, .. } => !thought && told == text,
            EventV::ReasoningDelta { text: told, .. } => thought && told == text,
            _ => false,
        }
}

/// A text part is passed on with its text.
proof fn lemma_text_passed(
    s: StreamV,
    list: Seq<JsonV>,
    scope: Seq<char>,
    part: JsonV,
    text: Seq<char>,
)
    requires
        led(s, list, scope),
        list.len() < u64::MAX,
        part.get("functionCall"@) is None,
        part.text_at("text"@) == Some(text),
    ensures
        passes_text(part_step(s, part).1, text, part.truth_at("thought"@) == Some(true)),
{
    let run = run_of(part);
    lemma_closed(s, list, scope);
    let (turned, closing_run) = match s.open {
        Some((_, open)) if open != run => close_step(s),
        _ => (s, Seq::empty()),
    };
    let (begun, id) = run_step(turned, run);
    let continuing = s.open matches Some((_, open)) && open == run;
    let base = if continuing {
        s.assembler.blocks.drop_last()
    } else {
        turned.assembler.blocks
    };
    let held = if continuing {
        s.assembler.blocks.last()
    } else {
        fresh(id, run_kind(run))
    };
    lemma_run_names(Run::Text, s.texts as nat);
    lemma_run_names(Run::Reasoning, s.reasonings as nat);
    if !continuing {
        assert(id == run_name(
            run,
            if run == Run::Text {
                s.texts as nat
            } else {
                s.reasonings as nat
            },
        ));
    }
    assert(!ids(base).contains(held.id));
    lemma_located(base, held);
    let (started, opening) = start_step(begun.assembler, id, run_kind(run));
    if continuing {
        assert(s.assembler.blocks =~= base.push(held));
    }
    assert(started.blocks =~= base.push(held));
    let appended = append_step(begun.assembler, id, run_kind(run), text).1;
    let event = crate::assembler::delta(run_kind(run), id, text);
    assert(appended == opening.push(event));
    let sent = part_step(s, part).1;
    let at = (closing_run.len() + opening.len()) as int;
    assert(sent[at] == event);
}

/// Every text a Gemini chunk brings is passed on with its part: a thought as a
/// thought, and an answer as an answer.
pub proof fn law_gemini_fragments_are_passed_on(
    route: RouteV,
    nonce: Seq<char>,
    frames: Seq<Seq<char>>,
    data: Seq<char>,
    at: int,
    text: Seq<char>,
)
    requires
        gemini_run(fresh_stream(route, nonce), frames) is Some,
        named_in_time(frames.push(data)),
        told_parts(frames.push(data)).len() <= u64::MAX,
        parsed(data) is Some,
        0 <= at < chunk_parts(parsed(data)->0).len(),
        chunk_parts(parsed(data)->0)[at].get("functionCall"@) is None,
        chunk_parts(parsed(data)->0)[at].text_at("text"@) == Some(text),
    ensures
        ({
            let value = parsed(data)->0;
            let part = chunk_parts(value)[at];
            let s = gemini_at(route, nonce, frames, value, at);
            passes_text(part_step(s, part).1, text, part.truth_at("thought"@) == Some(true))
        }),
{
    let more = frames.push(data);
    let value = parsed(data)->0;
    assert(more.drop_last() =~= frames);
    let list = told_parts(frames);
    let parts = chunk_parts(value);
    assert(told_parts(more).len() == list.len() + parts.len());
    lemma_led_run(route, nonce, frames);
    let before = (gemini_run(fresh_stream(route, nonce), frames)->0).0;
    let opened = begin_step(before, value).0;
    let scope = scope_of(told_id(more), nonce);
    if told_id(frames) is None && frame_id(data) is Some {
        lemma_self_named(list, nonce, scope);
    }
    assert(frame_id(more.last()) == frame_id(data));
    lemma_led_parts(opened, list, scope, parts.take(at));
    let s = gemini_at(route, nonce, frames, value, at);
    lemma_text_passed(s, list + parts.take(at), scope, parts[at], text);
}

/// The parts of a chunk are those its first candidate lists.
pub proof fn law_gemini_chunks_list_their_parts(value: JsonV)
    requires
        value.items_at("candidates"@).len() > 0,
    ensures
        chunk_parts(value) == super::documents::wire_parts(value.items_at("candidates"@)[0]),
{
}

} // verus!
