//! Laws of whole streams: what every sequence of frames leads to.

use vstd::prelude::*;

use super::blocks::all_ended;
use super::blocks::law_completing_ends_every_block;
use super::blocks::lemma_append;
use super::blocks::lemma_aside;
use super::blocks::lemma_end;
use super::blocks::lemma_quiet;
use super::blocks::lemma_reconcile;
use super::blocks::lemma_same_blocks;
use super::blocks::lemma_signature;
use super::blocks::lemma_start;
use super::blocks::tracks;
use crate::assembler::append_step;
use crate::assembler::closing;
use crate::assembler::complete_step;
use crate::assembler::data_step;
use crate::assembler::end_step;
use crate::assembler::fallback_call;
use crate::assembler::identity_step;
use crate::assembler::metadata_step;
use crate::assembler::reconcile_step;
use crate::assembler::signature_step;
use crate::assembler::start_step;
use crate::assembler::AssemblerV;
use crate::assembler::BlockV;
use crate::assembler::Phase;
use crate::content::promoted;
use crate::gemini;
use crate::json::JsonV;
use crate::openai;
use crate::openai_chat;
use crate::response::EventV;
use crate::response::KindV;
use crate::response::TokenCounts;
use crate::serial::parsed;
use crate::text::trim;
use crate::types::RouteV;
use crate::types::ToolCallKind;

verus! {

broadcast use {vstd::seq::group_seq_axioms, vstd::map::group_map_axioms};

/// Whether a list of events neither starts nor ends the stream.
pub open spec fn calm(list: Seq<EventV>) -> bool {
    forall|i: int|
        0 <= i < list.len() ==> !(#[trigger] list[i] is Started) && !(list[i] is Ended)
}

/// The usage after some events: that of the last one that reports any.
pub open spec fn counted(before: TokenCounts, list: Seq<EventV>) -> TokenCounts
    decreases list.len(),
{
    if list.len() == 0 {
        before
    } else {
        match list.last() {
            EventV::Usage { usage } => usage,
            _ => counted(before, list.drop_last()),
        }
    }
}

/// Events that report no usage leave it.
proof fn lemma_uncounted(before: TokenCounts, list: Seq<EventV>)
    requires
        forall|i: int| 0 <= i < list.len() ==> !(#[trigger] list[i] is Usage),
    ensures
        counted(before, list) == before,
    decreases list.len(),
{
    if list.len() > 0 {
        assert(!(list[list.len() - 1] is Usage));
        lemma_uncounted(before, list.drop_last());
    }
}

/// The usage after two lists of events.
proof fn lemma_counted_concat(before: TokenCounts, a: Seq<EventV>, b: Seq<EventV>)
    ensures
        counted(before, a + b) == counted(counted(before, a), b),
    decreases b.len(),
{
    if b.len() == 0 {
        assert(a + b =~= a);
    } else {
        assert((a + b).last() == b.last());
        assert((a + b).drop_last() =~= a + b.drop_last());
        lemma_counted_concat(before, a, b.drop_last());
    }
}

/// Whether a list of events is that of a stream under way: it leads to the
/// assembler, it has not ended, it has started before anything else, and the
/// last usage it reported is the assembler's.
pub open spec fn under_way(s: AssemblerV, log: Seq<EventV>) -> bool {
    &&& tracks(s, log)
    &&& !s.completed
    &&& s.usage == counted(TokenCounts::zero(), log)
    &&& forall|i: int| 0 <= i < log.len() ==> !(#[trigger] log[i] is Ended)
    &&& forall|i: int| 0 <= i < log.len() ==> (#[trigger] log[i] is Started <==> i == 0)
}

/// Whether a list of events is that of a whole stream: every block sent one
/// start, then its deltas, then one end, the stream ended once, at its end,
/// with the last usage it reported, and it started nowhere but at its start.
pub open spec fn whole(log: Seq<EventV>) -> bool {
    &&& all_ended(log)
    &&& log.len() > 0
    &&& log.last() is Ended
    &&& log.last()->response.usage == counted(TokenCounts::zero(), log)
    &&& forall|i: int| 0 <= i < log.len() - 1 ==> !(#[trigger] log[i] is Ended)
    &&& forall|i: int| 0 < i < log.len() ==> !(#[trigger] log[i] is Started)
}

proof fn lemma_calm_start(s: AssemblerV, id: Seq<char>, kind: KindV)
    ensures
        calm(start_step(s, id, kind).1),
        start_step(s, id, kind).0.completed == s.completed,
        start_step(s, id, kind).0.usage == counted(s.usage, start_step(s, id, kind).1),
{
    lemma_uncounted(s.usage, start_step(s, id, kind).1);
}

proof fn lemma_calm_append(s: AssemblerV, id: Seq<char>, kind: KindV, text: Seq<char>)
    ensures
        calm(append_step(s, id, kind, text).1),
        append_step(s, id, kind, text).0.completed == s.completed,
        append_step(s, id, kind, text).0.usage == counted(s.usage, append_step(s, id, kind, text).1),
{
    lemma_uncounted(s.usage, append_step(s, id, kind, text).1);
}

proof fn lemma_calm_reconcile(s: AssemblerV, id: Seq<char>, kind: KindV, text: Seq<char>)
    ensures
        calm(reconcile_step(s, id, kind, text).1),
        reconcile_step(s, id, kind, text).0.completed == s.completed,
        reconcile_step(s, id, kind, text).0.usage == counted(s.usage, reconcile_step(s, id, kind, text).1),
{
    lemma_uncounted(s.usage, reconcile_step(s, id, kind, text).1);
}

proof fn lemma_calm_signature(s: AssemblerV, id: Seq<char>, text: Seq<char>)
    ensures
        calm(signature_step(s, id, text).1),
        signature_step(s, id, text).0.completed == s.completed,
        signature_step(s, id, text).0.usage == counted(s.usage, signature_step(s, id, text).1),
{
    lemma_uncounted(s.usage, signature_step(s, id, text).1);
}

proof fn lemma_calm_end(s: AssemblerV, id: Seq<char>, phase: Phase)
    ensures
        calm(end_step(s, id, phase).1),
        end_step(s, id, phase).0.completed == s.completed,
        end_step(s, id, phase).0.usage == counted(s.usage, end_step(s, id, phase).1),
{
    lemma_uncounted(s.usage, end_step(s, id, phase).1);
}

/// The events of a step: the account of the blocks goes on, and the stream
/// neither starts nor ends.
pub open spec fn steps(s: AssemblerV, log: Seq<EventV>, next: AssemblerV, list: Seq<EventV>) -> bool {
    &&& tracks(next, log + list)
    &&& calm(list)
    &&& next.completed == s.completed
    &&& next.usage == counted(s.usage, list)
}

/// Two steps, one after the other.
proof fn lemma_then(
    a: AssemblerV,
    log: Seq<EventV>,
    b: AssemblerV,
    first: Seq<EventV>,
    c: AssemblerV,
    second: Seq<EventV>,
)
    requires
        steps(a, log, b, first),
        steps(b, log + first, c, second),
    ensures
        steps(a, log, c, first + second),
{
    assert(log + first + second =~= log + (first + second));
    lemma_counted_concat(a.usage, first, second);
}

/// No step at all.
proof fn lemma_still(s: AssemblerV, log: Seq<EventV>, next: AssemblerV)
    requires
        tracks(s, log),
        next.blocks == s.blocks,
        next.completed == s.completed,
        next.usage == s.usage,
    ensures
        steps(s, log, next, Seq::empty()),
{
    assert(log + Seq::<EventV>::empty() =~= log);
}

/// A stream under way that takes a step is under way.
proof fn lemma_goes_on(s: AssemblerV, log: Seq<EventV>, next: AssemblerV, list: Seq<EventV>)
    requires
        under_way(s, log),
        log.len() > 0,
        steps(s, log, next, list),
    ensures
        under_way(next, log + list),
{
    let after = log + list;
    lemma_counted_concat(TokenCounts::zero(), log, list);
    assert forall|i: int| 0 <= i < after.len() implies !(#[trigger] after[i] is Ended) by {
        if i >= log.len() {
            assert(after[i] == list[i - log.len()]);
        }
    }
    assert forall|i: int| 0 <= i < after.len() implies (#[trigger] after[i] is Started <==> i
        == 0) by {
        if i >= log.len() {
            assert(after[i] == list[i - log.len()]);
        } else {
            assert(after[i] == log[i]);
        }
    }
}

/// A stream that starts is under way.
proof fn lemma_starts(s: AssemblerV, next: AssemblerV, id: Option<Seq<char>>)
    requires
        under_way(s, Seq::empty()),
        next.blocks == s.blocks,
        next.completed == s.completed,
        next.usage == s.usage,
    ensures
        under_way(next, seq![EventV::Started { id }]),
{
    let event = EventV::Started { id };
    lemma_aside(s, Seq::empty(), event);
    assert(Seq::<EventV>::empty().push(event) =~= seq![event]);
    lemma_same_blocks(s, next, seq![event]);
    lemma_uncounted(TokenCounts::zero(), seq![event]);
}

/// A stream under way becomes a whole one when it completes.
proof fn lemma_completes(s: AssemblerV, log: Seq<EventV>)
    requires
        under_way(s, log),
    ensures
        whole(log + complete_step(s).1),
        log.len() > 0 ==> (log + complete_step(s).1)[0] == log[0],
{
    law_completing_ends_every_block(s, log);
    let list = complete_step(s).1;
    let after = log + list;
    lemma_closing_calm(s.blocks, s.signatures);
    lemma_uncounted(s.usage, list);
    lemma_counted_concat(TokenCounts::zero(), log, list);
    assert(after.last() == list.last());
    assert forall|i: int| 0 <= i < after.len() - 1 implies !(#[trigger] after[i] is Ended) by {
        if i >= log.len() {
            assert(after[i] == closing(s.blocks, s.signatures)[i - log.len()]);
        } else {
            assert(after[i] == log[i]);
        }
    }
    assert forall|i: int| 0 < i < after.len() implies !(#[trigger] after[i] is Started) by {
        if i < log.len() {
            assert(after[i] == log[i]);
        } else if i < after.len() - 1 {
            assert(after[i] == closing(s.blocks, s.signatures)[i - log.len()]);
        }
    }
}

/// Closing blocks neither starts nor ends the stream, and reports no usage.
proof fn lemma_closing_calm(blocks: Seq<BlockV>, signatures: Option<Seq<char>>)
    ensures
        calm(closing(blocks, signatures)),
        forall|i: int|
            0 <= i < closing(blocks, signatures).len() ==> !(#[trigger] closing(
                blocks,
                signatures,
            )[i] is Usage),
    decreases blocks.len(),
{
    if blocks.len() > 0 {
        lemma_closing_calm(blocks.drop_last(), signatures);
    }
}

// The Gemini stream.

proof fn lemma_gemini_close(s: gemini::stream::StreamV, log: Seq<EventV>)
    requires
        tracks(s.assembler, log),
    ensures
        steps(
            s.assembler,
            log,
            gemini::stream::close_step(s).0.assembler,
            gemini::stream::close_step(s).1,
        ),
{
    match s.open {
        Some((id, _)) => {
            lemma_end(s.assembler, log, id, Phase::Closed);
            lemma_calm_end(s.assembler, id, Phase::Closed);
        },
        None => {
            lemma_still(s.assembler, log, s.assembler);
        },
    }
}

proof fn lemma_gemini_call(
    s: gemini::stream::StreamV,
    log: Seq<EventV>,
    part: JsonV,
    function_call: JsonV,
)
    requires
        tracks(s.assembler, log),
    ensures
        steps(
            s.assembler,
            log,
            gemini::stream::call_step(s, part, function_call).0.assembler,
            gemini::stream::call_step(s, part, function_call).1,
        ),
{
    let (s1, closed_run) = gemini::stream::close_step(s);
    lemma_gemini_close(s, log);
    let log1 = log + closed_run;
    let id = "tool-"@ + crate::text::decimal(s1.calls as nat);
    let name = gemini::decode::function_name(function_call);
    let identity = KindV::ToolCall {
        id: gemini::identity::call_id(
            function_call,
            name,
            gemini::stream::stream_scope(s1),
            s1.calls as nat,
        ),
        name: Some(name),
        kind: ToolCallKind::Function,
    };
    let (a2, started) = start_step(s1.assembler, id, identity);
    lemma_start(s1.assembler, log1, id, identity);
    lemma_calm_start(s1.assembler, id, identity);
    let log2 = log1 + started;
    lemma_then(s.assembler, log, s1.assembler, closed_run, a2, started);
    assert(log + (closed_run + started) =~= log2);
    let a3 = match function_call.get("args"@) {
        Some(arguments) => append_step(
            a2,
            id,
            fallback_call(id),
            crate::serial::printed(arguments),
        ).0,
        None => a2,
    };
    if let Some(arguments) = function_call.get("args"@) {
        lemma_append(a2, log2, id, fallback_call(id), crate::serial::printed(arguments));
    }
    let a4 = match part.text_at("thoughtSignature"@) {
        Some(signature) => metadata_step(
            a3,
            id,
            gemini::encode::NAMESPACE@,
            gemini::decode::signature_metadata(signature),
        ),
        None => a3,
    };
    if let Some(signature) = part.text_at("thoughtSignature"@) {
        lemma_quiet(
            a3,
            log2,
            id,
            identity,
            gemini::encode::NAMESPACE@,
            gemini::decode::signature_metadata(signature),
        );
    }
    assert(tracks(a4, log2));
    let (a5, ended) = end_step(a4, id, Phase::Closed);
    lemma_end(a4, log2, id, Phase::Closed);
    lemma_calm_end(a4, id, Phase::Closed);
    lemma_then(s.assembler, log, a4, closed_run + started, a5, ended);
}

proof fn lemma_gemini_spoken(
    s: gemini::stream::StreamV,
    log: Seq<EventV>,
    part: JsonV,
    text: Seq<char>,
)
    requires
        tracks(s.assembler, log),
    ensures
        steps(
            s.assembler,
            log,
            gemini::stream::spoken_step(s, part, text).0.assembler,
            gemini::stream::spoken_step(s, part, text).1,
        ),
{
    let run = if gemini::decode::is_thought(part) {
        gemini::stream::Run::Reasoning
    } else {
        gemini::stream::Run::Text
    };
    let (s1, turned) = match s.open {
        Some((_, open)) if open != run => gemini::stream::close_step(s),
        _ => (s, Seq::empty()),
    };
    match s.open {
        Some((_, open)) if open != run => {
            lemma_gemini_close(s, log);
        },
        _ => {
            lemma_still(s.assembler, log, s.assembler);
        },
    }
    let log1 = log + turned;
    let (s2, id) = gemini::stream::run_step(s1, run);
    let kind = gemini::stream::run_kind(run);
    let (a3, appended) = append_step(s2.assembler, id, kind, text);
    lemma_append(s2.assembler, log1, id, kind, text);
    lemma_calm_append(s2.assembler, id, kind, text);
    lemma_then(s.assembler, log, s1.assembler, turned, a3, appended);
    let log3 = log + (turned + appended);
    assert(log1 + appended =~= log3);
    let s3 = gemini::stream::StreamV { assembler: a3, ..s2 };
    match part.text_at("thoughtSignature"@) {
        Some(signature) if run == gemini::stream::Run::Reasoning => {
            let (a4, signed) = signature_step(a3, id, signature);
            lemma_signature(a3, log3, id, signature);
            lemma_calm_signature(a3, id, signature);
            lemma_then(s.assembler, log, a3, turned + appended, a4, signed);
            let s4 = gemini::stream::StreamV { assembler: a4, ..s3 };
            let log4 = log + (turned + appended + signed);
            assert(log3 + signed =~= log4);
            lemma_gemini_close(s4, log4);
            let (s5, sealed) = gemini::stream::close_step(s4);
            lemma_then(s.assembler, log, a4, turned + appended + signed, s5.assembler, sealed);
        },
        _ => {},
    }
}

proof fn lemma_gemini_parts(s: gemini::stream::StreamV, log: Seq<EventV>, list: Seq<JsonV>)
    requires
        tracks(s.assembler, log),
    ensures
        steps(
            s.assembler,
            log,
            gemini::stream::parts_step(s, list).0.assembler,
            gemini::stream::parts_step(s, list).1,
        ),
    decreases list.len(),
{
    if list.len() == 0 {
        lemma_still(s.assembler, log, s.assembler);
    } else {
        lemma_gemini_parts(s, log, list.drop_last());
        let (before, earlier) = gemini::stream::parts_step(s, list.drop_last());
        let part = list.last();
        let (after, later) = gemini::stream::part_step(before, part);
        match part.get("functionCall"@) {
            Some(function_call) => {
                lemma_gemini_call(before, log + earlier, part, function_call);
            },
            None => match part.text_at("text"@) {
                Some(text) => {
                    lemma_gemini_spoken(before, log + earlier, part, text);
                },
                None => {
                    lemma_still(before.assembler, log + earlier, before.assembler);
                },
            },
        }
        lemma_then(s.assembler, log, before.assembler, earlier, after.assembler, later);
    }
}

/// A chunk that does not fail keeps the stream under way.
proof fn lemma_gemini_chunk(s: gemini::stream::StreamV, log: Seq<EventV>, value: JsonV)
    requires
        under_way(s.assembler, log),
        s.started <==> log.len() > 0,
    ensures
        under_way(
            gemini::stream::chunk_step(s, value).0.assembler,
            log + gemini::stream::chunk_step(s, value).1,
        ),
        gemini::stream::chunk_step(s, value).0.started,
        (log + gemini::stream::chunk_step(s, value).1).len() > 0,
        gemini::stream::chunk_step(s, value).0.failed == s.failed,
{
    let (s1, opening) = gemini::stream::begin_step(s, value);
    let log1 = log + opening;
    if s.started {
        assert(log1 =~= log);
        lemma_same_blocks(s.assembler, s1.assembler, log);
    } else {
        assert(log =~= Seq::empty());
        lemma_starts(s.assembler, s1.assembler, s1.response_id);
        assert(log1 =~= seq![EventV::Started { id: s1.response_id }]);
    }
    let (s2, content) = gemini::stream::parts_step(s1, gemini::stream::chunk_parts(value));
    lemma_gemini_parts(s1, log1, gemini::stream::chunk_parts(value));
    lemma_gemini_kept(s1, gemini::stream::chunk_parts(value));
    lemma_goes_on(s1.assembler, log1, s2.assembler, content);
    let log2 = log1 + content;
    let (s3, usage) = gemini::stream::usage_step(s2, value);
    match value.get("usageMetadata"@) {
        Some(metadata) => {
            lemma_aside(s2.assembler, log2, usage[0]);
            assert(log2.push(usage[0]) =~= log2 + usage);
            lemma_same_blocks(s2.assembler, s3.assembler, log2 + usage);
        },
        None => {
            lemma_still(s2.assembler, log2, s3.assembler);
        },
    }
    lemma_goes_on(s2.assembler, log2, s3.assembler, usage);
    let s4 = gemini::stream::reason_step(s3, value);
    lemma_same_blocks(s3.assembler, s4.assembler, log2 + usage);
    assert(log2 + usage =~= log + (opening + content + usage));
}

/// The parts of a chunk leave what is not theirs alone.
proof fn lemma_gemini_kept(s: gemini::stream::StreamV, list: Seq<JsonV>)
    ensures
        gemini::stream::parts_step(s, list).0.started == s.started,
        gemini::stream::parts_step(s, list).0.failed == s.failed,
        gemini::stream::parts_step(s, list).0.route == s.route,
    decreases list.len(),
{
    if list.len() > 0 {
        lemma_gemini_kept(s, list.drop_last());
    }
}

/// A Gemini stream after some frames, with the events it sent, or nothing
/// once a frame has failed it.
pub open spec fn gemini_run(s: gemini::stream::StreamV, frames: Seq<Seq<char>>) -> Option<
    (gemini::stream::StreamV, Seq<EventV>),
>
    decreases frames.len(),
{
    if frames.len() == 0 {
        Some((s, Seq::empty()))
    } else {
        match gemini_run(s, frames.drop_last()) {
            None => None,
            Some((before, log)) => match gemini::stream::chunk_failure(
                before.route,
                frames.last(),
            ) {
                Some(_) => None,
                None => {
                    let (after, list) = gemini::stream::chunk_step(
                        before,
                        parsed(frames.last())->0,
                    );
                    Some((after, log + list))
                },
            },
        }
    }
}

proof fn lemma_gemini_run(route: RouteV, nonce: Seq<char>, frames: Seq<Seq<char>>)
    ensures
        gemini_run(gemini::stream::fresh_stream(route, nonce), frames) matches Some((s, log))
            ==> under_way(s.assembler, log) && (s.started <==> log.len() > 0) && !s.failed && (
        frames.len() > 0 ==> log.len() > 0),
    decreases frames.len(),
{
    let fresh = gemini::stream::fresh_stream(route, nonce);
    if frames.len() > 0 {
        lemma_gemini_run(route, nonce, frames.drop_last());
        if let Some((before, log)) = gemini_run(fresh, frames.drop_last()) {
            lemma_gemini_chunk(before, log, parsed(frames.last())->0);
        }
    }
}

/// Every Gemini stream that does not fail sends one start, then deltas, then
/// one end for every block, and ends once, at its end. It opens with its
/// start, whatever its frames hold.
pub proof fn law_a_gemini_stream_is_whole(route: RouteV, nonce: Seq<char>, frames: Seq<Seq<char>>)
    requires
        frames.len() > 0,
        gemini_run(gemini::stream::fresh_stream(route, nonce), frames) is Some,
    ensures
        ({
            let (s, log) = gemini_run(gemini::stream::fresh_stream(route, nonce), frames)->0;
            let sent = log + gemini::stream::finish_step(s).1;
            whole(sent) && sent[0] is Started
        }),
{
    lemma_gemini_run(route, nonce, frames);
    let (s, log) = gemini_run(gemini::stream::fresh_stream(route, nonce), frames)->0;
    let s1 = match s.finished {
        Some(reason) => gemini::stream::StreamV {
            finished: None,
            assembler: AssemblerV {
                finish: Some(promoted(reason, s.calls > 0)),
                ..s.assembler
            },
            ..s
        },
        None => s,
    };
    lemma_same_blocks(s.assembler, s1.assembler, log);
    assert(under_way(s1.assembler, log));
    let (s2, closed_run) = gemini::stream::close_step(s1);
    lemma_gemini_close(s1, log);
    lemma_goes_on(s1.assembler, log, s2.assembler, closed_run);
    lemma_completes(s2.assembler, log + closed_run);
    let ended = complete_step(s2.assembler).1;
    assert(log + closed_run + ended =~= log + (closed_run + ended));
    let sent = log + gemini::stream::finish_step(s).1;
    assert(sent[0] == log[0]);
}

/// Two lists of events that neither start nor end the stream make one.
proof fn lemma_calm_concat(a: Seq<EventV>, b: Seq<EventV>)
    requires
        calm(a),
        calm(b),
    ensures
        calm(a + b),
{
}

/// Closing a run neither starts nor ends the stream.
proof fn lemma_gemini_calm_close(s: gemini::stream::StreamV)
    ensures
        calm(gemini::stream::close_step(s).1),
{
}

/// A function call neither starts nor ends the stream.
proof fn lemma_gemini_calm_call(s: gemini::stream::StreamV, part: JsonV, function_call: JsonV)
    ensures
        calm(gemini::stream::call_step(s, part, function_call).1),
{
    lemma_gemini_calm_close(s);
    let (after, closed_run) = gemini::stream::close_step(s);
    let id = "tool-"@ + crate::text::decimal(after.calls as nat);
    let name = gemini::decode::function_name(function_call);
    let identity = KindV::ToolCall {
        id: gemini::identity::call_id(
            function_call,
            name,
            gemini::stream::stream_scope(after),
            after.calls as nat,
        ),
        name: Some(name),
        kind: ToolCallKind::Function,
    };
    let (first, started) = start_step(after.assembler, id, identity);
    lemma_calm_start(after.assembler, id, identity);
    let second = match function_call.get("args"@) {
        Some(arguments) => append_step(
            first,
            id,
            fallback_call(id),
            crate::serial::printed(arguments),
        ).0,
        None => first,
    };
    let third = match part.text_at("thoughtSignature"@) {
        Some(signature) => metadata_step(
            second,
            id,
            gemini::encode::NAMESPACE@,
            gemini::decode::signature_metadata(signature),
        ),
        None => second,
    };
    lemma_calm_end(third, id, Phase::Closed);
    lemma_calm_concat(closed_run, started);
    lemma_calm_concat(closed_run + started, end_step(third, id, Phase::Closed).1);
}

/// A text part neither starts nor ends the stream.
proof fn lemma_gemini_calm_spoken(s: gemini::stream::StreamV, part: JsonV, text: Seq<char>)
    ensures
        calm(gemini::stream::spoken_step(s, part, text).1),
{
    let run = if gemini::decode::is_thought(part) {
        gemini::stream::Run::Reasoning
    } else {
        gemini::stream::Run::Text
    };
    let (first, turned) = match s.open {
        Some((_, open)) if open != run => gemini::stream::close_step(s),
        _ => (s, Seq::empty()),
    };
    lemma_gemini_calm_close(s);
    let (second, id) = gemini::stream::run_step(first, run);
    let kind = gemini::stream::run_kind(run);
    let (third, appended) = append_step(second.assembler, id, kind, text);
    lemma_calm_append(second.assembler, id, kind, text);
    lemma_calm_concat(turned, appended);
    if let Some(signature) = part.text_at("thoughtSignature"@) {
        let (fourth, signed) = signature_step(third, id, signature);
        lemma_calm_signature(third, id, signature);
        lemma_calm_concat(turned + appended, signed);
        let sealing = gemini::stream::StreamV { assembler: fourth, ..second };
        lemma_gemini_calm_close(sealing);
        lemma_calm_concat(
            turned + appended + signed,
            gemini::stream::close_step(sealing).1,
        );
    }
}

/// The parts of a chunk neither start nor end the stream.
proof fn lemma_gemini_calm(s: gemini::stream::StreamV, list: Seq<JsonV>)
    ensures
        calm(gemini::stream::parts_step(s, list).1),
    decreases list.len(),
{
    if list.len() > 0 {
        lemma_gemini_calm(s, list.drop_last());
        let (before, earlier) = gemini::stream::parts_step(s, list.drop_last());
        let part = list.last();
        if let Some(function_call) = part.get("functionCall"@) {
            lemma_gemini_calm_call(before, part, function_call);
        } else if let Some(text) = part.text_at("text"@) {
            lemma_gemini_calm_spoken(before, part, text);
        }
        lemma_calm_concat(earlier, gemini::stream::part_step(before, part).1);
    }
}

/// A frame that fails a Gemini stream forbids its completion: no frame behind
/// it sends an end of the stream, and no finish sends anything.
pub proof fn law_a_failed_gemini_stream_never_completes(s: gemini::stream::StreamV, value: JsonV)
    requires
        s.failed,
    ensures
        gemini::stream::finish_step(s) == (s, Seq::<EventV>::empty()),
        gemini::stream::chunk_step(s, value).0.failed,
        forall|i: int|
            0 <= i < gemini::stream::chunk_step(s, value).1.len() ==> !(
            #[trigger] gemini::stream::chunk_step(s, value).1[i] is Ended),
{
    let opened = gemini::stream::begin_step(s, value).0;
    lemma_gemini_calm(opened, gemini::stream::chunk_parts(value));
    lemma_gemini_kept(opened, gemini::stream::chunk_parts(value));
}

/// The parts of a chunk behind the end of a Gemini stream send nothing.
proof fn lemma_gemini_parts_silent(s: gemini::stream::StreamV, list: Seq<JsonV>)
    requires
        s.assembler.completed,
    ensures
        gemini::stream::parts_step(s, list).0.assembler.completed,
        gemini::stream::parts_step(s, list).1 == Seq::<EventV>::empty(),
    decreases list.len(),
{
    let none = Seq::<EventV>::empty();
    if list.len() > 0 {
        lemma_gemini_parts_silent(s, list.drop_last());
        let before = gemini::stream::parts_step(s, list.drop_last()).0;
        assert(none + none =~= none);
        assert(gemini::stream::part_step(before, list.last()).1 =~= none);
    }
}

/// A Gemini stream that ended sends nothing more.
pub proof fn law_an_ended_gemini_stream_is_silent(s: gemini::stream::StreamV, value: JsonV)
    requires
        s.assembler.completed,
    ensures
        gemini::stream::chunk_step(s, value).1 == Seq::<EventV>::empty(),
        gemini::stream::finish_step(s).1 == Seq::<EventV>::empty(),
{
    let none = Seq::<EventV>::empty();
    assert(none + none =~= none);
    let opened = gemini::stream::begin_step(s, value).0;
    lemma_gemini_parts_silent(opened, gemini::stream::chunk_parts(value));
}

// The Chat Completions stream.

proof fn lemma_chat_fragment(
    s: openai_chat::stream::ChatV,
    log: Seq<EventV>,
    block: Seq<char>,
    kind: KindV,
    text: Option<Seq<char>>,
)
    requires
        tracks(s.assembler, log),
    ensures
        steps(
            s.assembler,
            log,
            openai_chat::stream::fragment_step(s, block, kind, text).0.assembler,
            openai_chat::stream::fragment_step(s, block, kind, text).1,
        ),
{
    match text {
        Some(text) => {
            lemma_append(s.assembler, log, block, kind, text);
            lemma_calm_append(s.assembler, block, kind, text);
        },
        None => {
            lemma_still(s.assembler, log, s.assembler);
        },
    }
}

proof fn lemma_chat_details(s: openai_chat::stream::ChatV, log: Seq<EventV>, delta: JsonV)
    requires
        tracks(s.assembler, log),
    ensures
        steps(
            s.assembler,
            log,
            openai_chat::stream::details_step(s, delta).0.assembler,
            openai_chat::stream::details_step(s, delta).1,
        ),
{
    lemma_still(s.assembler, log, s.assembler);
    if let Some(payload) = delta.get(openai_chat::reasoning_details::REASONING_DETAILS@) {
        let details = openai_chat::reasoning_details::absorbed_all(
            s.details,
            openai_chat::reasoning_details::payload_details(payload),
        );
        if details.len() > 0 {
            let block = openai_chat::stream::REASONING_DETAILS_BLOCK@;
            let kind = KindV::Opaque { kind: openai_chat::reasoning_details::kind_text() };
            let (assembler, started) = start_step(s.assembler, block, kind);
            lemma_start(s.assembler, log, block, kind);
            lemma_calm_start(s.assembler, block, kind);
            lemma_quiet(assembler, log + started, block, kind, block, JsonV::Array(details));
        }
    }
}

proof fn lemma_chat_spoken(s: openai_chat::stream::ChatV, log: Seq<EventV>, delta: JsonV)
    requires
        tracks(s.assembler, log),
    ensures
        steps(
            s.assembler,
            log,
            openai_chat::stream::spoken_step(s, delta).0.assembler,
            openai_chat::stream::spoken_step(s, delta).1,
        ),
{
    let (s1, detailed) = openai_chat::stream::details_step(s, delta);
    lemma_chat_details(s, log, delta);
    let log1 = log + detailed;
    let thought_text = openai_chat::decode::thought_text(delta);
    let (s2, thought) = openai_chat::stream::fragment_step(
        s1,
        openai_chat::stream::REASONING_BLOCK@,
        KindV::Reasoning,
        thought_text,
    );
    lemma_chat_fragment(
        s1,
        log1,
        openai_chat::stream::REASONING_BLOCK@,
        KindV::Reasoning,
        thought_text,
    );
    lemma_then(s.assembler, log, s1.assembler, detailed, s2.assembler, thought);
    let log2 = log + (detailed + thought);
    let visible = openai_chat::decode::visible_text(delta);
    let (s3, spoken) = openai_chat::stream::fragment_step(
        s2,
        openai_chat::stream::TEXT_BLOCK@,
        KindV::Text,
        visible,
    );
    lemma_chat_fragment(s2, log2, openai_chat::stream::TEXT_BLOCK@, KindV::Text, visible);
    lemma_then(s.assembler, log, s2.assembler, detailed + thought, s3.assembler, spoken);
}

proof fn lemma_chat_call(s: openai_chat::stream::ChatV, log: Seq<EventV>, call: JsonV)
    requires
        tracks(s.assembler, log),
        openai_chat::stream::call_step(s, call).1 is Ok,
    ensures
        steps(
            s.assembler,
            log,
            openai_chat::stream::call_step(s, call).0.assembler,
            openai_chat::stream::call_step(s, call).1->Ok_0,
        ),
{
    let index = call.unsigned_at("index"@)->0;
    let block = openai_chat::stream::slot_block(index);
    let slot = openai_chat::stream::slot_identity(
        s.slots,
        index,
        call.text_at("id"@),
        openai_chat::decode::inner_text(call, "function"@, "name"@),
    );
    let kind = openai_chat::stream::slot_kind(slot);
    let (a1, started) = start_step(s.assembler, block, kind);
    lemma_start(s.assembler, log, block, kind);
    lemma_calm_start(s.assembler, block, kind);
    lemma_quiet(a1, log + started, block, kind, block, call);
    let a2 = identity_step(a1, block, kind);
    let s2 = openai_chat::stream::ChatV {
        slots: openai_chat::stream::with_slot(s.slots, slot),
        assembler: a2,
        ..s
    };
    let arguments = match openai_chat::decode::inner_text(call, "function"@, "arguments"@) {
        Some(text) if text.len() > 0 => Some(text),
        _ => None,
    };
    lemma_chat_fragment(s2, log + started, block, fallback_call(block), arguments);
    let (s3, appended) = openai_chat::stream::fragment_step(
        s2,
        block,
        fallback_call(block),
        arguments,
    );
    lemma_then(s.assembler, log, a2, started, s3.assembler, appended);
}

proof fn lemma_chat_calls(s: openai_chat::stream::ChatV, log: Seq<EventV>, list: Seq<JsonV>)
    requires
        tracks(s.assembler, log),
        openai_chat::stream::calls_step(s, list).1 is Ok,
    ensures
        steps(
            s.assembler,
            log,
            openai_chat::stream::calls_step(s, list).0.assembler,
            openai_chat::stream::calls_step(s, list).1->Ok_0,
        ),
        openai_chat::stream::calls_step(s, list).0.started == s.started,
        openai_chat::stream::calls_step(s, list).0.route == s.route,
    decreases list.len(),
{
    if list.len() == 0 {
        lemma_still(s.assembler, log, s.assembler);
    } else {
        lemma_chat_calls(s, log, list.drop_last());
        let (before, earlier) = openai_chat::stream::calls_step(s, list.drop_last());
        lemma_chat_call(before, log + earlier->Ok_0, list.last());
        let (after, later) = openai_chat::stream::call_step(before, list.last());
        lemma_then(
            s.assembler,
            log,
            before.assembler,
            earlier->Ok_0,
            after.assembler,
            later->Ok_0,
        );
    }
}

/// A chunk that does not fail keeps the stream under way.
proof fn lemma_chat_chunk(s: openai_chat::stream::ChatV, log: Seq<EventV>, chunk: JsonV)
    requires
        under_way(s.assembler, log),
        s.started <==> log.len() > 0,
        openai_chat::stream::chunk_step(s, chunk).1 is Ok,
    ensures
        under_way(
            openai_chat::stream::chunk_step(s, chunk).0.assembler,
            log + openai_chat::stream::chunk_step(s, chunk).1->Ok_0,
        ),
        openai_chat::stream::chunk_step(s, chunk).0.started,
        (log + openai_chat::stream::chunk_step(s, chunk).1->Ok_0).len() > 0,
{
    let (s1, opening) = openai_chat::stream::begin_step(s, chunk);
    let log1 = log + opening;
    if s.started {
        assert(log1 =~= log);
        lemma_same_blocks(s.assembler, s1.assembler, log);
    } else {
        assert(log =~= Seq::empty());
        lemma_starts(s.assembler, s1.assembler, chunk.text_at("id"@));
        assert(log1 =~= seq![EventV::Started { id: chunk.text_at("id"@) }]);
    }
    let delta = openai_chat::stream::chunk_delta(chunk);
    let (s2, spoken) = openai_chat::stream::spoken_step(s1, delta);
    lemma_chat_spoken(s1, log1, delta);
    let list = delta.items_at("tool_calls"@);
    let (s3, calls) = openai_chat::stream::calls_step(s2, list);
    lemma_chat_calls(s2, log1 + spoken, list);
    lemma_then(s1.assembler, log1, s2.assembler, spoken, s3.assembler, calls->Ok_0);
    lemma_goes_on(s1.assembler, log1, s3.assembler, spoken + calls->Ok_0);
    let log3 = log1 + (spoken + calls->Ok_0);
    let (s4, totals) = openai_chat::stream::totals_step(s3, chunk);
    match chunk.get("usage"@) {
        Some(usage) if usage is Object => {
            lemma_aside(s3.assembler, log3, totals[0]);
            assert(log3.push(totals[0]) =~= log3 + totals);
            lemma_same_blocks(s3.assembler, s4.assembler, log3 + totals);
        },
        _ => {
            lemma_still(s3.assembler, log3, s4.assembler);
        },
    }
    lemma_goes_on(s3.assembler, log3, s4.assembler, totals);
    assert(log3 + totals =~= log + (opening + (spoken + calls->Ok_0) + totals));
}

/// A Chat Completions stream after some frames, with the events it sent, or
/// nothing once a frame has failed it.
pub open spec fn chat_run(s: openai_chat::stream::ChatV, frames: Seq<Seq<char>>) -> Option<
    (openai_chat::stream::ChatV, Seq<EventV>),
>
    decreases frames.len(),
{
    if frames.len() == 0 {
        Some((s, Seq::empty()))
    } else {
        match chat_run(s, frames.drop_last()) {
            None => None,
            Some((before, log)) => {
                let (after, sent) = openai_chat::stream::event_step(before, frames.last());
                match sent {
                    Ok(list) => Some((after, log + list)),
                    Err(_) => None,
                }
            },
        }
    }
}

/// Finishing a stream under way makes it a whole one.
proof fn lemma_chat_finish(s: openai_chat::stream::ChatV, log: Seq<EventV>)
    requires
        under_way(s.assembler, log),
        !s.failed,
        openai_chat::stream::finish_step(s).1 is Ok,
    ensures
        whole(log + openai_chat::stream::finish_step(s).1->Ok_0),
        log.len() > 0 ==> (log + openai_chat::stream::finish_step(s).1->Ok_0)[0] == log[0],
        openai_chat::stream::finish_step(s).0.assembler.completed,
{
    let assembler = match s.assembler.finish {
        Some(reason) => AssemblerV {
            finish: Some(promoted(reason, crate::assembler::called(s.assembler))),
            ..s.assembler
        },
        None => s.assembler,
    };
    lemma_same_blocks(s.assembler, assembler, log);
    lemma_completes(assembler, log);
}

/// The call fragments of a stream that ended send nothing.
proof fn lemma_chat_calls_silent(s: openai_chat::stream::ChatV, list: Seq<JsonV>)
    requires
        s.assembler.completed,
    ensures
        openai_chat::stream::calls_step(s, list).0.assembler.completed,
        openai_chat::stream::calls_step(s, list).1 matches Ok(sent) ==> sent == Seq::<
            EventV,
        >::empty(),
    decreases list.len(),
{
    if list.len() > 0 {
        lemma_chat_calls_silent(s, list.drop_last());
        assert(Seq::<EventV>::empty() + Seq::<EventV>::empty() =~= Seq::<EventV>::empty());
    }
}

/// A chunk behind the end of a stream sends nothing.
proof fn lemma_chat_silent(s: openai_chat::stream::ChatV, chunk: JsonV)
    requires
        s.assembler.completed,
    ensures
        openai_chat::stream::chunk_step(s, chunk).0.assembler.completed,
        openai_chat::stream::chunk_step(s, chunk).1 matches Ok(sent) ==> sent == Seq::<
            EventV,
        >::empty(),
{
    let none = Seq::<EventV>::empty();
    assert(none + none =~= none);
    let (s1, opening) = openai_chat::stream::begin_step(s, chunk);
    let delta = openai_chat::stream::chunk_delta(chunk);
    let (s2, spoken) = openai_chat::stream::spoken_step(s1, delta);
    assert(spoken =~= none);
    lemma_chat_calls_silent(s2, delta.items_at("tool_calls"@));
}

/// What holds of a chat stream after some frames.
pub open spec fn chat_on_course(
    s: openai_chat::stream::ChatV,
    log: Seq<EventV>,
    frames: Seq<Seq<char>>,
) -> bool {
    &&& !s.failed
    &&& if s.assembler.completed {
        whole(log)
    } else {
        &&& under_way(s.assembler, log)
        &&& s.started <==> log.len() > 0
        &&& frames.len() > 0 ==> log.len() > 0
    }
    &&& frames.len() > 0 && frames[0] != openai_chat::stream::TERMINATOR@ ==> log.len() > 0
        && log[0] is Started
}

proof fn lemma_chat_run(route: RouteV, frames: Seq<Seq<char>>)
    ensures
        chat_run(openai_chat::stream::fresh_chat(route), frames) matches Some((s, log))
            ==> chat_on_course(s, log, frames),
    decreases frames.len(),
{
    let fresh = openai_chat::stream::fresh_chat(route);
    if frames.len() > 0 {
        let earlier = frames.drop_last();
        lemma_chat_run(route, earlier);
        if let Some((before, log)) = chat_run(fresh, earlier) {
            let data = frames.last();
            if earlier.len() > 0 {
                assert(earlier[0] == frames[0]);
            }
            assert(log + Seq::<EventV>::empty() =~= log);
            if data == openai_chat::stream::TERMINATOR@ {
                if !before.assembler.completed && openai_chat::stream::finish_step(before).1 is Ok {
                    lemma_chat_finish(before, log);
                }
            } else if openai_chat::stream::chunk_failure(before.route, data) is None {
                let chunk = parsed(data)->0;
                if before.assembler.completed {
                    lemma_chat_silent(before, chunk);
                } else if openai_chat::stream::chunk_step(before, chunk).1 is Ok {
                    lemma_chat_chunk(before, log, chunk);
                }
            }
        }
    }
}

/// Every Chat Completions stream that finishes without a failure sends one
/// start, then deltas, then one end for every block, and ends once, at its
/// end, whatever frames stand behind its terminator. It opens with its start,
/// unless its terminator is all there is.
pub proof fn law_a_chat_stream_is_whole(route: RouteV, frames: Seq<Seq<char>>)
    requires
        chat_run(openai_chat::stream::fresh_chat(route), frames) is Some,
        openai_chat::stream::finish_step(
            (chat_run(openai_chat::stream::fresh_chat(route), frames)->0).0,
        ).1 is Ok,
    ensures
        ({
            let (s, log) = chat_run(openai_chat::stream::fresh_chat(route), frames)->0;
            let sent = log + openai_chat::stream::finish_step(s).1->Ok_0;
            &&& whole(sent)
            &&& frames.len() > 0 && frames[0] != openai_chat::stream::TERMINATOR@
                ==> sent[0] is Started
            &&& s.assembler.completed ==> sent == log
        }),
{
    lemma_chat_run(route, frames);
    let (s, log) = chat_run(openai_chat::stream::fresh_chat(route), frames)->0;
    assert(log + Seq::<EventV>::empty() =~= log);
    if !s.assembler.completed {
        lemma_chat_finish(s, log);
    }
}

/// The terminator ends a chat stream as the end of its transport does.
pub proof fn law_the_terminator_finishes(s: openai_chat::stream::ChatV)
    requires
        !s.failed,
    ensures
        openai_chat::stream::event_step(s, openai_chat::stream::TERMINATOR@).1
            == openai_chat::stream::finish_step(s).1,
        openai_chat::stream::event_step(s, openai_chat::stream::TERMINATOR@).0.assembler
            == openai_chat::stream::finish_step(s).0.assembler,
{
}

/// A frame that fails a chat stream ends it: no frame behind it and no finish
/// sends anything, so the stream never completes.
pub proof fn law_a_failed_chat_stream_never_completes(
    s: openai_chat::stream::ChatV,
    data: Seq<char>,
    later: Seq<char>,
)
    requires
        openai_chat::stream::event_step(s, data).1 is Err,
    ensures
        ({
            let failed = openai_chat::stream::event_step(s, data).0;
            &&& openai_chat::stream::event_step(failed, later) == (
                failed,
                Ok::<Seq<EventV>, crate::response::ErrorV>(Seq::empty()),
            )
            &&& openai_chat::stream::finish_step(failed) == (
                failed,
                Ok::<Seq<EventV>, crate::response::ErrorV>(Seq::empty()),
            )
        }),
{
}

/// A chat stream that opened a tool call and named no reason to stop never
/// completes: a prefix of a call is no call.
pub proof fn law_an_unfinished_call_never_completes(s: openai_chat::stream::ChatV)
    requires
        crate::assembler::called(s.assembler),
        s.assembler.finish is None,
    ensures
        s.failed || s.assembler.completed <==> openai_chat::stream::finish_step(s).1 is Ok,
        openai_chat::stream::finish_step(s).1 matches Ok(sent) ==> sent == Seq::<
            EventV,
        >::empty(),
{
}

/// A refused chat stream never completes.
pub proof fn law_a_refused_stream_never_completes(s: openai_chat::stream::ChatV)
    requires
        s.refusal.len() > 0,
    ensures
        openai_chat::stream::finish_step(s).1 == if s.failed || s.assembler.completed {
            Ok::<Seq<EventV>, crate::response::ErrorV>(Seq::empty())
        } else {
            Err(crate::errors::refused(s.route, s.refusal, None))
        },
{
}

// The Responses stream.

proof fn lemma_responses_start(
    s: openai::stream::ResponsesV,
    log: Seq<EventV>,
    id: Seq<char>,
    item: JsonV,
)
    requires
        tracks(s.assembler, log),
    ensures
        steps(
            s.assembler,
            log,
            openai::stream::start_item_step(s, id, item).0.assembler,
            openai::stream::start_item_step(s, id, item).1,
        ),
{
    lemma_still(s.assembler, log, s.assembler);
    if !openai::decode::internal(item) && openai::decode::call_kind(item) is Some {
        let identity = openai::stream::item_identity(item);
        let (a1, started) = start_step(s.assembler, id, identity);
        lemma_start(s.assembler, log, id, identity);
        lemma_calm_start(s.assembler, id, identity);
        lemma_quiet(a1, log + started, id, identity, id, item);
        let a2 = identity_step(a1, id, identity);
        let metadata = openai::decode::item_metadata(item.text_at("id"@)->0);
        lemma_quiet(a2, log + started, id, identity, openai::encode::NAMESPACE@, metadata);
    }
}

proof fn lemma_responses_opaque(
    s: openai::stream::ResponsesV,
    log: Seq<EventV>,
    id: Seq<char>,
    kind: Seq<char>,
    item: JsonV,
)
    requires
        tracks(s.assembler, log),
    ensures
        steps(
            s.assembler,
            log,
            openai::stream::opaque_step(s, id, kind, item).0.assembler,
            openai::stream::opaque_step(s, id, kind, item).1,
        ),
{
    let opaque = KindV::Opaque { kind };
    let (a1, started) = start_step(s.assembler, id, opaque);
    lemma_start(s.assembler, log, id, opaque);
    lemma_calm_start(s.assembler, id, opaque);
    lemma_quiet(a1, log + started, id, opaque, id, item);
    let a2 = data_step(a1, id, item);
    let (a3, ended) = end_step(a2, id, Phase::Closed);
    lemma_end(a2, log + started, id, Phase::Closed);
    lemma_calm_end(a2, id, Phase::Closed);
    lemma_then(s.assembler, log, a2, started, a3, ended);
}

proof fn lemma_responses_reconcile(
    s: openai::stream::ResponsesV,
    log: Seq<EventV>,
    id: Seq<char>,
    item: JsonV,
)
    requires
        tracks(s.assembler, log),
    ensures
        steps(
            s.assembler,
            log,
            openai::stream::reconcile_item_step(s, id, item).0.assembler,
            openai::stream::reconcile_item_step(s, id, item).1,
        ),
{
    lemma_still(s.assembler, log, s.assembler);
    let message = openai::decode::output_texts(item.items_at("content"@));
    let arguments = openai_chat::decode::text_or_empty(item.text_at("arguments"@));
    let input = openai_chat::decode::text_or_empty(item.text_at("input"@));
    lemma_reconcile(s.assembler, log, id, KindV::Text, message);
    lemma_calm_reconcile(s.assembler, id, KindV::Text, message);
    lemma_reconcile(s.assembler, log, id, fallback_call(id), arguments);
    lemma_calm_reconcile(s.assembler, id, fallback_call(id), arguments);
    lemma_reconcile(s.assembler, log, id, fallback_call(id), input);
    lemma_calm_reconcile(s.assembler, id, fallback_call(id), input);
}

proof fn lemma_responses_end_reasoning(
    s: openai::stream::ResponsesV,
    log: Seq<EventV>,
    id: Seq<char>,
    item: JsonV,
)
    requires
        tracks(s.assembler, log),
    ensures
        steps(
            s.assembler,
            log,
            openai::stream::end_reasoning_step(s, id, item).0.assembler,
            openai::stream::end_reasoning_step(s, id, item).1,
        ),
{
    let text = openai_chat::decode::text_or_empty(openai::decode::thought_text(item));
    let phase = openai::stream::ending(text);
    let (s1, settled) = openai::stream::settle_block_step(s, id, KindV::Reasoning, text);
    lemma_reconcile(s.assembler, log, id, KindV::Reasoning, text);
    lemma_calm_reconcile(s.assembler, id, KindV::Reasoning, text);
    let log1 = log + settled;
    let (a2, ended) = end_step(s1.assembler, id, phase);
    lemma_end(s1.assembler, log1, id, phase);
    lemma_calm_end(s1.assembler, id, phase);
    lemma_then(s.assembler, log, s1.assembler, settled, a2, ended);
    let s2 = openai::stream::ResponsesV {
        assembler: a2,
        reasoning_entries: openai::stream::without_entry(s1.reasoning_entries, id),
        ..s1
    };
    let block = openai::stream::opaque_block(s2, id);
    let kind = openai::encode::REASONING_KIND@;
    lemma_responses_opaque(s2, log + (settled + ended), block, kind, item);
    let (s3, kept) = openai::stream::opaque_step(s2, block, kind, item);
    lemma_then(s.assembler, log, a2, settled + ended, s3.assembler, kept);
}

proof fn lemma_responses_end(
    s: openai::stream::ResponsesV,
    log: Seq<EventV>,
    id: Seq<char>,
    item: JsonV,
)
    requires
        tracks(s.assembler, log),
    ensures
        steps(
            s.assembler,
            log,
            openai::stream::end_item_step(s, id, item).0.assembler,
            openai::stream::end_item_step(s, id, item).1,
        ),
{
    if s.skipped.contains(id) {
        lemma_still(s.assembler, log, s.assembler);
    } else if openai::decode::internal(item) {
        lemma_end(s.assembler, log, id, Phase::Discarded);
        lemma_calm_end(s.assembler, id, Phase::Discarded);
    } else if openai::decode::typed(item, "reasoning"@) {
        lemma_responses_end_reasoning(s, log, id, item);
    } else {
        let (s1, started) = openai::stream::start_item_step(s, id, item);
        lemma_responses_start(s, log, id, item);
        let (s2, settled) = openai::stream::reconcile_item_step(s1, id, item);
        lemma_responses_reconcile(s1, log + started, id, item);
        lemma_then(s.assembler, log, s1.assembler, started, s2.assembler, settled);
        let phase = if openai::decode::typed(item, "message"@) {
            openai::stream::ending(openai::decode::output_texts(item.items_at("content"@)))
        } else {
            Phase::Closed
        };
        let (a3, ended) = end_step(s2.assembler, id, phase);
        lemma_end(s2.assembler, log + (started + settled), id, phase);
        lemma_calm_end(s2.assembler, id, phase);
        lemma_then(s.assembler, log, s2.assembler, started + settled, a3, ended);
        let s3 = openai::stream::ResponsesV { assembler: a3, ..s2 };
        if openai::decode::typed(item, "message"@) {
            let block = openai::stream::opaque_block(s3, id);
            let kind = openai::encode::MESSAGE_KIND@;
            lemma_responses_opaque(s3, log + (started + settled + ended), block, kind, item);
            let (s4, kept) = openai::stream::opaque_step(s3, block, kind, item);
            lemma_then(s.assembler, log, a3, started + settled + ended, s4.assembler, kept);
        }
    }
}

/// Whether a stream is under way, or has ended as a whole one.
pub open spec fn on_course(s: AssemblerV, log: Seq<EventV>) -> bool {
    if s.completed {
        whole(log) && log[0] is Started
    } else {
        under_way(s, log)
    }
}

/// Completing after one account of the totals.
proof fn lemma_terminal(
    s: AssemblerV,
    log: Seq<EventV>,
    settled: AssemblerV,
    aside: Seq<EventV>,
)
    requires
        under_way(s, log),
        log.len() > 0,
        settled.blocks == s.blocks,
        settled.completed == s.completed,
        (aside == Seq::<EventV>::empty() && settled.usage == s.usage) || aside == seq![
            EventV::Usage { usage: settled.usage },
        ],
    ensures
        whole(log + (aside + complete_step(settled).1)),
        (log + (aside + complete_step(settled).1))[0] is Started,
        complete_step(settled).0.completed,
{
    if aside.len() == 1 {
        lemma_aside(s, log, aside[0]);
        assert(log.push(aside[0]) =~= log + aside);
        lemma_same_blocks(s, settled, log + aside);
        assert(aside.last() == EventV::Usage { usage: settled.usage });
    } else {
        lemma_still(s, log, settled);
    }
    lemma_goes_on(s, log, settled, aside);
    lemma_completes(settled, log + aside);
    let ended = complete_step(settled).1;
    assert(log + aside + ended =~= log + (aside + ended));
}

/// An event that does not fail keeps the stream on its course.
proof fn lemma_responses_event(
    s: openai::stream::ResponsesV,
    log: Seq<EventV>,
    kind: Seq<char>,
    value: JsonV,
)
    requires
        under_way(s.assembler, log),
        log.len() > 0,
    ensures
        on_course(
            openai::stream::event_step(s, kind, value).0.assembler,
            log + openai::stream::event_step(s, kind, value).1,
        ),
        openai::stream::event_step(s, kind, value).0.started == s.started,
        openai::stream::event_step(s, kind, value).0.route == s.route,
{
    let (after, list) = openai::stream::event_step(s, kind, value);
    let id = openai::stream::event_block(value);
    let item = openai::stream::event_item(value);
    let delta = openai::stream::event_delta(value);
    if kind == "response.output_item.added"@ {
        lemma_responses_start(s, log, id, item);
        lemma_goes_on(s.assembler, log, after.assembler, list);
    } else if kind == "response.output_text.delta"@ {
        lemma_append(s.assembler, log, id, KindV::Text, delta);
        lemma_calm_append(s.assembler, id, KindV::Text, delta);
        lemma_goes_on(s.assembler, log, after.assembler, list);
    } else if kind == "response.reasoning_text.delta"@ || kind
        == "response.reasoning_summary_text.delta"@ {
        let spaced = "\n\n"@ + delta;
        lemma_append(s.assembler, log, id, KindV::Reasoning, delta);
        lemma_calm_append(s.assembler, id, KindV::Reasoning, delta);
        lemma_append(s.assembler, log, id, KindV::Reasoning, spaced);
        lemma_calm_append(s.assembler, id, KindV::Reasoning, spaced);
        lemma_goes_on(s.assembler, log, after.assembler, list);
    } else if kind == "response.function_call_arguments.delta"@ || kind
        == "response.custom_tool_call_input.delta"@ {
        lemma_still(s.assembler, log, s.assembler);
        lemma_append(s.assembler, log, id, fallback_call(id), delta);
        lemma_calm_append(s.assembler, id, fallback_call(id), delta);
        lemma_goes_on(s.assembler, log, after.assembler, list);
    } else if kind == "response.output_item.done"@ {
        lemma_responses_end(s, log, id, item);
        lemma_goes_on(s.assembler, log, after.assembler, list);
    } else if kind == "response.completed"@ || kind == "response.incomplete"@ {
        lemma_responses_terminal(s, log, value);
    } else {
        lemma_still(s.assembler, log, s.assembler);
        lemma_goes_on(s.assembler, log, after.assembler, list);
    }
}

/// A terminal event makes a stream under way a whole one.
proof fn lemma_responses_terminal(s: openai::stream::ResponsesV, log: Seq<EventV>, value: JsonV)
    requires
        under_way(s.assembler, log),
        log.len() > 0,
    ensures
        whole(log + openai::stream::terminal_step(s, value).1),
        (log + openai::stream::terminal_step(s, value).1)[0] is Started,
        openai::stream::terminal_step(s, value).0.assembler.completed,
        openai::stream::terminal_step(s, value).0.started == s.started,
        openai::stream::terminal_step(s, value).0.route == s.route,
{
    let document = openai::stream::event_document(value);
    match openai::decode::decoded(s.route, document) {
        Ok(response) => {
            let settled = AssemblerV {
                id: if response.id is Some { response.id } else { s.assembler.id },
                finish: Some(
                    promoted(response.finish_reason, crate::assembler::called(s.assembler)),
                ),
                raw: Some(document),
                usage: response.usage,
                ..s.assembler
            };
            lemma_terminal(
                s.assembler,
                log,
                settled,
                seq![EventV::Usage { usage: response.usage }],
            );
        },
        Err(_) => {
            let id = document.text_at("id"@);
            let kept = AssemblerV {
                id: if id is Some { id } else { s.assembler.id },
                finish: if document.text_at("status"@) is Some {
                    Some(
                        promoted(
                            openai::decode::status_finish(document, false),
                            crate::assembler::called(s.assembler),
                        ),
                    )
                } else {
                    s.assembler.finish
                },
                raw: Some(document),
                ..s.assembler
            };
            match document.get("usage"@) {
                Some(usage) if usage is Object => {
                    let counts = openai::decode::usage_counts(usage);
                    lemma_terminal(
                        s.assembler,
                        log,
                        AssemblerV { usage: counts, ..kept },
                        seq![EventV::Usage { usage: counts }],
                    );
                },
                _ => {
                    lemma_terminal(s.assembler, log, kept, Seq::empty());
                },
            }
        },
    }
}

/// An event behind the end of a stream sends nothing.
proof fn lemma_responses_silent(s: openai::stream::ResponsesV, kind: Seq<char>, value: JsonV)
    requires
        s.assembler.completed,
    ensures
        openai::stream::event_step(s, kind, value).0.assembler.completed,
        openai::stream::event_step(s, kind, value).1 == Seq::<EventV>::empty(),
        openai::stream::event_step(s, kind, value).0.started == s.started,
{
    let none = Seq::<EventV>::empty();
    assert(none + none =~= none);
    let id = openai::stream::event_block(value);
    let item = openai::stream::event_item(value);
    let (s1, started) = openai::stream::start_item_step(s, id, item);
    assert(started =~= none);
    let (s2, settled) = openai::stream::reconcile_item_step(s1, id, item);
    assert(settled =~= none);
    assert(openai::stream::end_reasoning_step(s, id, item).1 =~= none);
    assert(openai::stream::end_item_step(s, id, item).1 =~= none);
    assert(openai::stream::terminal_step(s, value).1 =~= none);
}

/// A frame that does not fail keeps the stream on its course.
proof fn lemma_responses_frame(
    s: openai::stream::ResponsesV,
    log: Seq<EventV>,
    data: Seq<char>,
    event: Option<Seq<char>>,
)
    requires
        on_course(s.assembler, log),
        s.started <==> log.len() > 0,
        !s.failed,
        openai::stream::frame_step(s, data, event).1 is Ok,
    ensures
        ({
            let (after, sent) = openai::stream::frame_step(s, data, event);
            on_course(after.assembler, log + sent->Ok_0) && (after.started <==> (log
                + sent->Ok_0).len() > 0) && !after.failed
        }),
{
    let (after, sent) = openai::stream::frame_step(s, data, event);
    let frame = trim(data);
    assert(log + Seq::<EventV>::empty() =~= log);
    if frame.len() == 0 || frame == "[DONE]"@ || parsed(frame) is None {
    } else {
        let value = parsed(frame)->0;
        let kind = openai::stream::event_kind(value, event);
        let (s1, latched) = openai::stream::latch_step(s, kind, value);
        let log1 = log + latched;
        if s.started {
            assert(log1 =~= log);
        } else {
            assert(log =~= Seq::empty());
            lemma_starts(
                s.assembler,
                s1.assembler,
                openai_chat::decode::inner_text(value, "response"@, "id"@),
            );
            assert(log1 =~= latched);
        }
        let list = openai::stream::event_step(s1, kind, value).1;
        if s.assembler.completed {
            lemma_responses_silent(s1, kind, value);
            assert(latched + list =~= Seq::<EventV>::empty());
        } else {
            lemma_responses_event(s1, log1, kind, value);
            assert(log1 + list =~= log + (latched + list));
        }
    }
}

/// One frame of a Responses stream: its data, and the name of its event.
pub type Frame = (Seq<char>, Option<Seq<char>>);

/// A Responses stream after some frames, with the events it sent, or nothing
/// once a frame has failed it.
pub open spec fn responses_run(s: openai::stream::ResponsesV, frames: Seq<Frame>) -> Option<
    (openai::stream::ResponsesV, Seq<EventV>),
>
    decreases frames.len(),
{
    if frames.len() == 0 {
        Some((s, Seq::empty()))
    } else {
        match responses_run(s, frames.drop_last()) {
            None => None,
            Some((before, log)) => {
                let (after, sent) = openai::stream::frame_step(
                    before,
                    frames.last().0,
                    frames.last().1,
                );
                match sent {
                    Ok(list) => Some((after, log + list)),
                    Err(_) => None,
                }
            },
        }
    }
}

proof fn lemma_responses_run(route: RouteV, frames: Seq<Frame>)
    ensures
        responses_run(openai::stream::fresh_responses(route), frames) matches Some((s, log))
            ==> on_course(s.assembler, log) && (s.started <==> log.len() > 0) && !s.failed,
    decreases frames.len(),
{
    let fresh = openai::stream::fresh_responses(route);
    if frames.len() > 0 {
        lemma_responses_run(route, frames.drop_last());
        if let Some((before, log)) = responses_run(fresh, frames.drop_last()) {
            let (data, event) = frames.last();
            if openai::stream::frame_step(before, data, event).1 is Ok {
                lemma_responses_frame(before, log, data, event);
            }
        }
    }
}

/// Every Responses stream that does not fail sends one start, then deltas,
/// then one end for every block, and ends once, at its end: with its terminal
/// event when it has one, whatever frames stand behind it, and when the
/// transport ends otherwise.
pub proof fn law_a_responses_stream_is_whole(route: RouteV, frames: Seq<Frame>)
    requires
        responses_run(openai::stream::fresh_responses(route), frames) is Some,
    ensures
        ({
            let (s, log) = responses_run(openai::stream::fresh_responses(route), frames)->0;
            &&& whole(log + openai::stream::finish_step(s).1)
            &&& log.len() > 0 ==> log[0] is Started
            &&& s.assembler.completed ==> openai::stream::finish_step(s).1 == Seq::<
                EventV,
            >::empty()
        }),
{
    lemma_responses_run(route, frames);
    let (s, log) = responses_run(openai::stream::fresh_responses(route), frames)->0;
    if s.assembler.completed {
        assert(log + Seq::<EventV>::empty() =~= log);
    } else {
        lemma_completes(s.assembler, log);
    }
}

/// A frame that fails a Responses stream ends it: no frame behind it and no
/// finish sends anything, so the stream never completes.
pub proof fn law_a_failed_responses_stream_never_completes(
    s: openai::stream::ResponsesV,
    frame: Frame,
    later: Frame,
)
    requires
        openai::stream::frame_step(s, frame.0, frame.1).1 is Err,
    ensures
        ({
            let failed = openai::stream::frame_step(s, frame.0, frame.1).0;
            &&& openai::stream::frame_step(failed, later.0, later.1) == (
                failed,
                Ok::<Seq<EventV>, crate::response::ErrorV>(Seq::empty()),
            )
            &&& openai::stream::finish_step(failed) == (failed, Seq::<EventV>::empty())
        }),
{
}

} // verus!
