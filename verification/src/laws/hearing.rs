//! Laws of what a consumer hears: the deltas of every stream add up to the
//! parts it ends with, and each fragment is passed on as it arrives.

use vstd::prelude::*;

use super::deltas::adds_up;
use super::deltas::distinct;
use super::deltas::faithful;
use super::deltas::lemma_adds_up;
use super::deltas::lemma_faithful_append;
use super::deltas::lemma_faithful_aside;
use super::deltas::lemma_faithful_complete;
use super::deltas::lemma_faithful_end;
use super::deltas::lemma_faithful_mute;
use super::deltas::lemma_faithful_quiet;
use super::deltas::lemma_faithful_reconcile;
use super::deltas::lemma_faithful_signature;
use super::deltas::lemma_faithful_start;
use super::deltas::lemma_faithful_then;
use super::deltas::lemma_speech_adds_up;
use super::deltas::text_of;
use super::streams::chat_run;
use super::streams::gemini_run;
use super::streams::law_a_chat_stream_is_whole;
use super::streams::law_a_gemini_stream_is_whole;
use super::streams::law_a_responses_stream_is_whole;
use super::streams::responses_run;
use super::streams::Frame;
use crate::assembler::append_step;
use crate::assembler::complete_step;
use crate::assembler::data_step;
use crate::assembler::end_step;
use crate::assembler::fallback_call;
use crate::assembler::identity_step;
use crate::assembler::metadata_step;
use crate::assembler::signature_step;
use crate::assembler::start_step;
use crate::assembler::AssemblerV;
use crate::assembler::Phase;
use crate::content::promoted;
use crate::gemini;
use crate::json::JsonV;
use crate::openai;
use crate::openai_chat;
use crate::response::EventV;
use crate::response::KindV;
use crate::serial::parsed;
use crate::serial::printed;
use crate::types::RouteV;
use crate::types::ToolCallKind;

verus! {

broadcast use {vstd::seq::group_seq_axioms, vstd::map::group_map_axioms};

// The Chat Completions stream.

proof fn lemma_chat_fragment(
    s: openai_chat::stream::ChatV,
    block: Seq<char>,
    kind: KindV,
    text: Option<Seq<char>>,
)
    ensures
        faithful(
            s.assembler,
            openai_chat::stream::fragment_step(s, block, kind, text).0.assembler,
            openai_chat::stream::fragment_step(s, block, kind, text).1,
            true,
        ),
{
    match text {
        Some(text) => lemma_faithful_append(s.assembler, block, kind, text, true),
        None => lemma_faithful_aside(s.assembler, s.assembler, Seq::empty(), true),
    }
}

proof fn lemma_chat_details(s: openai_chat::stream::ChatV, delta: JsonV)
    ensures
        faithful(
            s.assembler,
            openai_chat::stream::details_step(s, delta).0.assembler,
            openai_chat::stream::details_step(s, delta).1,
            true,
        ),
{
    lemma_faithful_aside(s.assembler, s.assembler, Seq::empty(), true);
    if let Some(payload) = delta.get(openai_chat::reasoning_details::REASONING_DETAILS@) {
        let details = openai_chat::reasoning_details::absorbed_all(
            s.details,
            openai_chat::reasoning_details::payload_details(payload),
        );
        if details.len() > 0 {
            let block = openai_chat::stream::REASONING_DETAILS_BLOCK@;
            let kind = KindV::Opaque { kind: openai_chat::reasoning_details::kind_text() };
            let (a1, started) = start_step(s.assembler, block, kind);
            lemma_faithful_start(s.assembler, block, kind, true);
            let data = JsonV::Array(details);
            lemma_faithful_quiet(a1, block, kind, Seq::empty(), data, true);
            lemma_faithful_then(
                s.assembler,
                a1,
                started,
                data_step(a1, block, data),
                Seq::empty(),
                true,
            );
            assert(started + Seq::<EventV>::empty() =~= started);
        }
    }
}

proof fn lemma_chat_spoken(s: openai_chat::stream::ChatV, delta: JsonV)
    ensures
        faithful(
            s.assembler,
            openai_chat::stream::spoken_step(s, delta).0.assembler,
            openai_chat::stream::spoken_step(s, delta).1,
            true,
        ),
{
    let (s1, detailed) = openai_chat::stream::details_step(s, delta);
    let thought = openai_chat::decode::thought_text(delta);
    let visible = openai_chat::decode::visible_text(delta);
    let (s2, thinking) = openai_chat::stream::fragment_step(
        s1,
        openai_chat::stream::REASONING_BLOCK@,
        KindV::Reasoning,
        thought,
    );
    let (s3, saying) = openai_chat::stream::fragment_step(
        s2,
        openai_chat::stream::TEXT_BLOCK@,
        KindV::Text,
        visible,
    );
    lemma_chat_details(s, delta);
    lemma_chat_fragment(s1, openai_chat::stream::REASONING_BLOCK@, KindV::Reasoning, thought);
    lemma_chat_fragment(s2, openai_chat::stream::TEXT_BLOCK@, KindV::Text, visible);
    lemma_faithful_then(s.assembler, s1.assembler, detailed, s2.assembler, thinking, true);
    lemma_faithful_then(
        s.assembler,
        s2.assembler,
        detailed + thinking,
        s3.assembler,
        saying,
        true,
    );
}

proof fn lemma_chat_call(s: openai_chat::stream::ChatV, call: JsonV)
    requires
        openai_chat::stream::call_step(s, call).1 is Ok,
    ensures
        faithful(
            s.assembler,
            openai_chat::stream::call_step(s, call).0.assembler,
            openai_chat::stream::call_step(s, call).1->Ok_0,
            true,
        ),
{
    let index = call.unsigned_at("index"@)->0;
    let block = openai_chat::stream::slot_block(index);
    let slot = openai_chat::stream::slot_identity(
        s.slots,
        index,
        call.text_at("id"@),
        openai_chat::decode::inner_text(call, "function"@, "name"@),
    );
    let kind = openai_chat::stream::slot_kind(slot);
    let (a1, started) = start_step(s.assembler, block, kind);
    lemma_faithful_start(s.assembler, block, kind, true);
    let a2 = identity_step(a1, block, kind);
    lemma_faithful_quiet(a1, block, kind, Seq::empty(), JsonV::Null, true);
    lemma_faithful_then(s.assembler, a1, started, a2, Seq::empty(), true);
    assert(started + Seq::<EventV>::empty() =~= started);
    let s2 = openai_chat::stream::ChatV {
        slots: openai_chat::stream::with_slot(s.slots, slot),
        assembler: a2,
        ..s
    };
    let text = match openai_chat::decode::inner_text(call, "function"@, "arguments"@) {
        Some(text) if text.len() > 0 => Some(text),
        _ => None,
    };
    lemma_chat_fragment(s2, block, fallback_call(block), text);
    let (s3, appended) = openai_chat::stream::fragment_step(
        s2,
        block,
        fallback_call(block),
        text,
    );
    lemma_faithful_then(s.assembler, a2, started, s3.assembler, appended, true);
}

proof fn lemma_chat_calls(s: openai_chat::stream::ChatV, list: Seq<JsonV>)
    requires
        openai_chat::stream::calls_step(s, list).1 is Ok,
    ensures
        faithful(
            s.assembler,
            openai_chat::stream::calls_step(s, list).0.assembler,
            openai_chat::stream::calls_step(s, list).1->Ok_0,
            true,
        ),
    decreases list.len(),
{
    if list.len() == 0 {
        lemma_faithful_aside(s.assembler, s.assembler, Seq::empty(), true);
    } else {
        lemma_chat_calls(s, list.drop_last());
        let (before, earlier) = openai_chat::stream::calls_step(s, list.drop_last());
        lemma_chat_call(before, list.last());
        let (after, later) = openai_chat::stream::call_step(before, list.last());
        lemma_faithful_then(
            s.assembler,
            before.assembler,
            earlier->Ok_0,
            after.assembler,
            later->Ok_0,
            true,
        );
    }
}

/// A chunk of a Chat Completions stream is faithful.
pub proof fn lemma_chat_chunk(s: openai_chat::stream::ChatV, chunk: JsonV)
    requires
        openai_chat::stream::chunk_step(s, chunk).1 is Ok,
    ensures
        faithful(
            s.assembler,
            openai_chat::stream::chunk_step(s, chunk).0.assembler,
            openai_chat::stream::chunk_step(s, chunk).1->Ok_0,
            true,
        ),
{
    let (s1, opening) = openai_chat::stream::begin_step(s, chunk);
    let delta = openai_chat::stream::chunk_delta(chunk);
    let (s2, spoken) = openai_chat::stream::spoken_step(s1, delta);
    let (s3, calls) = openai_chat::stream::calls_step(s2, delta.items_at("tool_calls"@));
    let (s4, totals) = openai_chat::stream::totals_step(s3, chunk);
    lemma_faithful_aside(s.assembler, s1.assembler, opening, true);
    lemma_chat_spoken(s1, delta);
    lemma_chat_calls(s2, delta.items_at("tool_calls"@));
    assert(s4.assembler.blocks == s3.assembler.blocks);
    lemma_faithful_aside(s3.assembler, s4.assembler, totals, true);
    lemma_faithful_then(s1.assembler, s2.assembler, spoken, s3.assembler, calls->Ok_0, true);
    lemma_faithful_then(
        s.assembler,
        s1.assembler,
        opening,
        s3.assembler,
        spoken + calls->Ok_0,
        true,
    );
    lemma_faithful_then(
        s.assembler,
        s3.assembler,
        opening + (spoken + calls->Ok_0),
        s4.assembler,
        totals,
        true,
    );
}

proof fn lemma_chat_finish(s: openai_chat::stream::ChatV)
    requires
        distinct(s.assembler),
        openai_chat::stream::finish_step(s).1 is Ok,
    ensures
        faithful(
            s.assembler,
            openai_chat::stream::finish_step(s).0.assembler,
            openai_chat::stream::finish_step(s).1->Ok_0,
            true,
        ),
{
    lemma_faithful_aside(s.assembler, s.assembler, Seq::empty(), true);
    if !(s.failed || s.assembler.completed) {
        let a1 = match s.assembler.finish {
            Some(reason) => AssemblerV {
                finish: Some(promoted(reason, crate::assembler::called(s.assembler))),
                ..s.assembler
            },
            None => s.assembler,
        };
        lemma_faithful_aside(s.assembler, a1, Seq::empty(), true);
        lemma_faithful_complete(a1, true);
        let (a2, ended) = complete_step(a1);
        lemma_faithful_then(s.assembler, a1, Seq::empty(), a2, ended, true);
        assert(Seq::<EventV>::empty() + ended =~= ended);
    }
}

proof fn lemma_chat_run(route: RouteV, frames: Seq<Seq<char>>)
    ensures
        chat_run(openai_chat::stream::fresh_chat(route), frames) matches Some((s, log)) ==> faithful(
            openai_chat::stream::fresh_chat(route).assembler,
            s.assembler,
            log,
            true,
        ),
    decreases frames.len(),
{
    let empty = openai_chat::stream::fresh_chat(route);
    if frames.len() == 0 {
        lemma_faithful_aside(empty.assembler, empty.assembler, Seq::empty(), true);
    } else {
        lemma_chat_run(route, frames.drop_last());
        if let Some((before, log)) = chat_run(empty, frames.drop_last()) {
            let data = frames.last();
            let (after, sent) = openai_chat::stream::event_step(before, data);
            if sent is Ok {
                lemma_faithful_aside(before.assembler, before.assembler, Seq::empty(), true);
                if !before.failed {
                    if data == openai_chat::stream::TERMINATOR@ {
                        assert(distinct(empty.assembler));
                        lemma_chat_finish(before);
                    } else {
                        lemma_chat_chunk(before, parsed(data)->0);
                    }
                }
                lemma_faithful_then(
                    empty.assembler,
                    before.assembler,
                    log,
                    after.assembler,
                    sent->Ok_0,
                    true,
                );
            }
        }
    }
}

/// Every Chat Completions stream, from the first frame to the end of its
/// events, is faithful.
pub proof fn lemma_chat_whole(route: RouteV, frames: Seq<Seq<char>>)
    requires
        chat_run(openai_chat::stream::fresh_chat(route), frames) is Some,
        openai_chat::stream::finish_step(
            (chat_run(openai_chat::stream::fresh_chat(route), frames)->0).0,
        ).1 is Ok,
    ensures
        ({
            let empty = openai_chat::stream::fresh_chat(route);
            let (s, log) = chat_run(empty, frames)->0;
            let (last, sent) = openai_chat::stream::finish_step(s);
            faithful(empty.assembler, last.assembler, log + sent->Ok_0, true)
        }),
{
    let empty = openai_chat::stream::fresh_chat(route);
    let (s, log) = chat_run(empty, frames)->0;
    let (last, sent) = openai_chat::stream::finish_step(s);
    lemma_chat_run(route, frames);
    assert(distinct(empty.assembler));
    lemma_chat_finish(s);
    lemma_faithful_then(empty.assembler, s.assembler, log, last.assembler, sent->Ok_0, true);
}

/// The deltas of every Chat Completions stream add up: what a consumer hears
/// of a block, one delta after the other, is the text, the thought or the
/// arguments the block ends with.
pub proof fn law_chat_deltas_add_up(route: RouteV, frames: Seq<Seq<char>>)
    requires
        chat_run(openai_chat::stream::fresh_chat(route), frames) is Some,
        openai_chat::stream::finish_step(
            (chat_run(openai_chat::stream::fresh_chat(route), frames)->0).0,
        ).1 is Ok,
    ensures
        ({
            let (s, log) = chat_run(openai_chat::stream::fresh_chat(route), frames)->0;
            adds_up(log + openai_chat::stream::finish_step(s).1->Ok_0, true)
        }),
{
    let empty = openai_chat::stream::fresh_chat(route);
    let (s, log) = chat_run(empty, frames)->0;
    let (last, sent) = openai_chat::stream::finish_step(s);
    lemma_chat_whole(route, frames);
    assert(distinct(empty.assembler));
    law_a_chat_stream_is_whole(route, frames);
    lemma_adds_up(empty.assembler, last.assembler, log + sent->Ok_0);
}

// The Gemini stream.

proof fn lemma_gemini_close(s: gemini::stream::StreamV)
    ensures
        faithful(
            s.assembler,
            gemini::stream::close_step(s).0.assembler,
            gemini::stream::close_step(s).1,
            false,
        ),
{
    match s.open {
        Some((id, _)) => lemma_faithful_end(s.assembler, id, Phase::Closed, false),
        None => lemma_faithful_aside(s.assembler, s.assembler, Seq::empty(), false),
    }
}

proof fn lemma_gemini_call(s: gemini::stream::StreamV, part: JsonV, function_call: JsonV)
    ensures
        faithful(
            s.assembler,
            gemini::stream::call_step(s, part, function_call).0.assembler,
            gemini::stream::call_step(s, part, function_call).1,
            false,
        ),
{
    let none = Seq::<EventV>::empty();
    let (s1, closed_run) = gemini::stream::close_step(s);
    lemma_gemini_close(s);
    let id = "tool-"@ + crate::text::decimal(s1.calls as nat);
    let name = gemini::decode::function_name(function_call);
    let identity = KindV::ToolCall {
        id: gemini::identity::call_id(
            function_call,
            name,
            gemini::stream::stream_scope(s1),
            s1.calls as nat,
        ),
        name: Some(name),
        kind: ToolCallKind::Function,
    };
    let (a2, started) = start_step(s1.assembler, id, identity);
    lemma_faithful_start(s1.assembler, id, identity, false);
    lemma_faithful_then(s.assembler, s1.assembler, closed_run, a2, started, false);
    let a3 = match function_call.get("args"@) {
        Some(arguments) => append_step(a2, id, fallback_call(id), printed(arguments)).0,
        None => a2,
    };
    lemma_faithful_aside(a2, a2, none, false);
    if let Some(arguments) = function_call.get("args"@) {
        lemma_faithful_mute(a2, id, printed(arguments));
    }
    lemma_faithful_then(s.assembler, a2, closed_run + started, a3, none, false);
    let a4 = match part.text_at("thoughtSignature"@) {
        Some(signature) => metadata_step(
            a3,
            id,
            gemini::encode::NAMESPACE@,
            gemini::decode::signature_metadata(signature),
        ),
        None => a3,
    };
    lemma_faithful_aside(a3, a3, none, false);
    if let Some(signature) = part.text_at("thoughtSignature"@) {
        lemma_faithful_quiet(
            a3,
            id,
            identity,
            gemini::encode::NAMESPACE@,
            gemini::decode::signature_metadata(signature),
            false,
        );
    }
    assert(closed_run + started + none =~= closed_run + started);
    lemma_faithful_then(s.assembler, a3, closed_run + started, a4, none, false);
    let (a5, ended) = end_step(a4, id, Phase::Closed);
    lemma_faithful_end(a4, id, Phase::Closed, false);
    lemma_faithful_then(s.assembler, a4, closed_run + started, a5, ended, false);
}

proof fn lemma_gemini_spoken(s: gemini::stream::StreamV, part: JsonV, text: Seq<char>)
    ensures
        faithful(
            s.assembler,
            gemini::stream::spoken_step(s, part, text).0.assembler,
            gemini::stream::spoken_step(s, part, text).1,
            false,
        ),
{
    let run = if gemini::decode::is_thought(part) {
        gemini::stream::Run::Reasoning
    } else {
        gemini::stream::Run::Text
    };
    let (s1, turned) = match s.open {
        Some((_, open)) if open != run => gemini::stream::close_step(s),
        _ => (s, Seq::empty()),
    };
    lemma_gemini_close(s);
    lemma_faithful_aside(s.assembler, s.assembler, Seq::empty(), false);
    let (s2, id) = gemini::stream::run_step(s1, run);
    let kind = gemini::stream::run_kind(run);
    let (a3, appended) = append_step(s2.assembler, id, kind, text);
    lemma_faithful_append(s2.assembler, id, kind, text, false);
    lemma_faithful_then(s.assembler, s1.assembler, turned, a3, appended, false);
    let s3 = gemini::stream::StreamV { assembler: a3, ..s2 };
    match part.text_at("thoughtSignature"@) {
        Some(signature) if run == gemini::stream::Run::Reasoning => {
            let (a4, signed) = signature_step(a3, id, signature);
            lemma_faithful_signature(a3, id, signature, false);
            lemma_faithful_then(s.assembler, a3, turned + appended, a4, signed, false);
            let s4 = gemini::stream::StreamV { assembler: a4, ..s3 };
            lemma_gemini_close(s4);
            let (s5, sealed) = gemini::stream::close_step(s4);
            lemma_faithful_then(
                s.assembler,
                a4,
                turned + appended + signed,
                s5.assembler,
                sealed,
                false,
            );
        },
        _ => {},
    }
}

proof fn lemma_gemini_parts(s: gemini::stream::StreamV, list: Seq<JsonV>)
    ensures
        faithful(
            s.assembler,
            gemini::stream::parts_step(s, list).0.assembler,
            gemini::stream::parts_step(s, list).1,
            false,
        ),
    decreases list.len(),
{
    if list.len() == 0 {
        lemma_faithful_aside(s.assembler, s.assembler, Seq::empty(), false);
    } else {
        lemma_gemini_parts(s, list.drop_last());
        let (before, earlier) = gemini::stream::parts_step(s, list.drop_last());
        let part = list.last();
        let (after, later) = gemini::stream::part_step(before, part);
        match part.get("functionCall"@) {
            Some(function_call) => lemma_gemini_call(before, part, function_call),
            None => match part.text_at("text"@) {
                Some(text) => lemma_gemini_spoken(before, part, text),
                None => lemma_faithful_aside(
                    before.assembler,
                    before.assembler,
                    Seq::empty(),
                    false,
                ),
            },
        }
        lemma_faithful_then(
            s.assembler,
            before.assembler,
            earlier,
            after.assembler,
            later,
            false,
        );
    }
}

proof fn lemma_gemini_chunk(s: gemini::stream::StreamV, value: JsonV)
    ensures
        faithful(
            s.assembler,
            gemini::stream::chunk_step(s, value).0.assembler,
            gemini::stream::chunk_step(s, value).1,
            false,
        ),
{
    let (s1, opening) = gemini::stream::begin_step(s, value);
    let (s2, content) = gemini::stream::parts_step(s1, gemini::stream::chunk_parts(value));
    let (s3, usage) = gemini::stream::usage_step(s2, value);
    let s4 = gemini::stream::reason_step(s3, value);
    lemma_faithful_aside(s.assembler, s1.assembler, opening, false);
    lemma_gemini_parts(s1, gemini::stream::chunk_parts(value));
    lemma_faithful_aside(s2.assembler, s4.assembler, usage, false);
    lemma_faithful_then(s.assembler, s1.assembler, opening, s2.assembler, content, false);
    lemma_faithful_then(
        s.assembler,
        s2.assembler,
        opening + content,
        s4.assembler,
        usage,
        false,
    );
}

proof fn lemma_gemini_run(route: RouteV, nonce: Seq<char>, frames: Seq<Seq<char>>)
    ensures
        gemini_run(gemini::stream::fresh_stream(route, nonce), frames) matches Some((s, log))
            ==> faithful(
            gemini::stream::fresh_stream(route, nonce).assembler,
            s.assembler,
            log,
            false,
        ),
    decreases frames.len(),
{
    let empty = gemini::stream::fresh_stream(route, nonce);
    if frames.len() == 0 {
        lemma_faithful_aside(empty.assembler, empty.assembler, Seq::empty(), false);
    } else {
        lemma_gemini_run(route, nonce, frames.drop_last());
        if let Some((before, log)) = gemini_run(empty, frames.drop_last()) {
            let value = parsed(frames.last())->0;
            lemma_gemini_chunk(before, value);
            let (after, sent) = gemini::stream::chunk_step(before, value);
            lemma_faithful_then(
                empty.assembler,
                before.assembler,
                log,
                after.assembler,
                sent,
                false,
            );
        }
    }
}

/// Every Gemini stream, from the first frame to the end of its events, is
/// faithful.
pub proof fn lemma_gemini_whole(route: RouteV, nonce: Seq<char>, frames: Seq<Seq<char>>)
    requires
        gemini_run(gemini::stream::fresh_stream(route, nonce), frames) is Some,
    ensures
        ({
            let empty = gemini::stream::fresh_stream(route, nonce);
            let (s, log) = gemini_run(empty, frames)->0;
            let (last, sent) = gemini::stream::finish_step(s);
            faithful(empty.assembler, last.assembler, log + sent, false)
        }),
{
    let empty = gemini::stream::fresh_stream(route, nonce);
    let (s, log) = gemini_run(empty, frames)->0;
    let (last, sent) = gemini::stream::finish_step(s);
    lemma_gemini_run(route, nonce, frames);
    if s.failed {
        lemma_faithful_aside(s.assembler, s.assembler, Seq::empty(), false);
    } else {
        let s1 = match s.finished {
            Some(reason) => gemini::stream::StreamV {
                finished: None,
                assembler: AssemblerV {
                    finish: Some(promoted(reason, s.calls > 0)),
                    ..s.assembler
                },
                ..s
            },
            None => s,
        };
        let (s2, closed_run) = gemini::stream::close_step(s1);
        lemma_faithful_aside(s.assembler, s1.assembler, Seq::empty(), false);
        lemma_gemini_close(s1);
        lemma_faithful_then(
            s.assembler,
            s1.assembler,
            Seq::empty(),
            s2.assembler,
            closed_run,
            false,
        );
        assert(Seq::<EventV>::empty() + closed_run =~= closed_run);
        lemma_faithful_complete(s2.assembler, false);
        let (a3, ended) = complete_step(s2.assembler);
        lemma_faithful_then(s.assembler, s2.assembler, closed_run, a3, ended, false);
    }
    lemma_faithful_then(empty.assembler, s.assembler, log, last.assembler, sent, false);
}

/// The deltas of every Gemini stream add up: what a consumer hears of a block,
/// one delta after the other, is the text or the thought the block ends with.
/// A function call arrives whole and has no delta.
pub proof fn law_gemini_deltas_add_up(route: RouteV, nonce: Seq<char>, frames: Seq<Seq<char>>)
    requires
        frames.len() > 0,
        gemini_run(gemini::stream::fresh_stream(route, nonce), frames) is Some,
    ensures
        ({
            let (s, log) = gemini_run(gemini::stream::fresh_stream(route, nonce), frames)->0;
            adds_up(log + gemini::stream::finish_step(s).1, false)
        }),
{
    let empty = gemini::stream::fresh_stream(route, nonce);
    let (s, log) = gemini_run(empty, frames)->0;
    let (last, sent) = gemini::stream::finish_step(s);
    lemma_gemini_whole(route, nonce, frames);
    assert(distinct(empty.assembler));
    law_a_gemini_stream_is_whole(route, nonce, frames);
    lemma_speech_adds_up(empty.assembler, last.assembler, log + sent);
}

// The Responses stream.

/// Whether no block's text was replaced: what it held is how it now begins.
pub open spec fn steady(s: AssemblerV, next: AssemblerV) -> bool {
    forall|id: Seq<char>| text_of(s, id).is_prefix_of(#[trigger] text_of(next, id))
}

proof fn lemma_responses_start_item(
    s: openai::stream::ResponsesV,
    id: Seq<char>,
    item: JsonV,
)
    ensures
        faithful(
            s.assembler,
            openai::stream::start_item_step(s, id, item).0.assembler,
            openai::stream::start_item_step(s, id, item).1,
            true,
        ),
        forall|other: Seq<char>| #[trigger]
            text_of(openai::stream::start_item_step(s, id, item).0.assembler, other) == text_of(
                s.assembler,
                other,
            ),
{
    let none = Seq::<EventV>::empty();
    lemma_faithful_aside(s.assembler, s.assembler, none, true);
    if !openai::decode::internal(item) && openai::decode::call_kind(item) is Some {
        let identity = openai::stream::item_identity(item);
        let (a1, started) = start_step(s.assembler, id, identity);
        lemma_faithful_start(s.assembler, id, identity, true);
        let a2 = identity_step(a1, id, identity);
        let namespace = openai::encode::NAMESPACE@;
        let metadata = openai::decode::item_metadata(item.text_at("id"@)->0);
        lemma_faithful_quiet(a1, id, identity, namespace, metadata, true);
        lemma_faithful_then(s.assembler, a1, started, a2, none, true);
        assert(started + none =~= started);
        lemma_faithful_quiet(a2, id, identity, namespace, metadata, true);
        if openai::decode::has_own_id(item) {
            let a3 = metadata_step(a2, id, namespace, metadata);
            lemma_faithful_then(s.assembler, a2, started, a3, none, true);
            assert forall|other: Seq<char>| #[trigger] text_of(a3, other) == text_of(
                s.assembler,
                other,
            ) by {
                assert(text_of(a2, other) == text_of(a1, other));
                assert(text_of(a1, other) == text_of(s.assembler, other));
            }
        } else {
            assert forall|other: Seq<char>| #[trigger] text_of(a2, other) == text_of(
                s.assembler,
                other,
            ) by {
                assert(text_of(a1, other) == text_of(s.assembler, other));
            }
        }
    }
}

proof fn lemma_responses_opaque(
    s: openai::stream::ResponsesV,
    id: Seq<char>,
    kind: Seq<char>,
    item: JsonV,
)
    ensures
        faithful(
            s.assembler,
            openai::stream::opaque_step(s, id, kind, item).0.assembler,
            openai::stream::opaque_step(s, id, kind, item).1,
            true,
        ),
        forall|other: Seq<char>| #[trigger]
            text_of(openai::stream::opaque_step(s, id, kind, item).0.assembler, other) == text_of(
                s.assembler,
                other,
            ),
{
    let none = Seq::<EventV>::empty();
    let opaque = KindV::Opaque { kind };
    let (a1, started) = start_step(s.assembler, id, opaque);
    lemma_faithful_start(s.assembler, id, opaque, true);
    let a2 = data_step(a1, id, item);
    lemma_faithful_quiet(a1, id, opaque, Seq::empty(), item, true);
    lemma_faithful_then(s.assembler, a1, started, a2, none, true);
    assert(started + none =~= started);
    let (a3, ended) = end_step(a2, id, Phase::Closed);
    lemma_faithful_end(a2, id, Phase::Closed, true);
    lemma_faithful_then(s.assembler, a2, started, a3, ended, true);
    assert forall|other: Seq<char>| #[trigger] text_of(a3, other) == text_of(
        s.assembler,
        other,
    ) by {
        assert(text_of(a2, other) == text_of(a1, other));
        assert(text_of(a1, other) == text_of(s.assembler, other));
    }
}

/// A block that is settled, ended, and followed by its whole item.
proof fn lemma_responses_settled(
    s: openai::stream::ResponsesV,
    id: Seq<char>,
    kind: KindV,
    content: Seq<char>,
    phase: Phase,
)
    requires
        phase != Phase::Open,
        text_of(s.assembler, id).is_prefix_of(
            text_of(openai::stream::settle_block_step(s, id, kind, content).0.assembler, id),
        ),
    ensures
        ({
            let (s1, settled) = openai::stream::settle_block_step(s, id, kind, content);
            let (a2, ended) = end_step(s1.assembler, id, phase);
            &&& faithful(s.assembler, a2, settled + ended, true)
            &&& forall|other: Seq<char>| #[trigger]
                text_of(a2, other) == text_of(s1.assembler, other)
        }),
{
    let (s1, settled) = openai::stream::settle_block_step(s, id, kind, content);
    let (a2, ended) = end_step(s1.assembler, id, phase);
    lemma_faithful_reconcile(s.assembler, id, kind, content);
    lemma_faithful_end(s1.assembler, id, phase, true);
    lemma_faithful_then(s.assembler, s1.assembler, settled, a2, ended, true);
}

proof fn lemma_responses_reasoning_end(
    s: openai::stream::ResponsesV,
    id: Seq<char>,
    item: JsonV,
)
    requires
        steady(s.assembler, openai::stream::end_reasoning_step(s, id, item).0.assembler),
    ensures
        faithful(
            s.assembler,
            openai::stream::end_reasoning_step(s, id, item).0.assembler,
            openai::stream::end_reasoning_step(s, id, item).1,
            true,
        ),
{
    let text = openai_chat::decode::text_or_empty(openai::decode::thought_text(item));
    let kind = KindV::Reasoning;
    let phase = openai::stream::ending(text);
    let (s1, settled) = openai::stream::settle_block_step(s, id, kind, text);
    let (a2, ended) = end_step(s1.assembler, id, phase);
    lemma_faithful_end(s1.assembler, id, phase, true);
    let s2 = openai::stream::ResponsesV {
        assembler: a2,
        reasoning_entries: openai::stream::without_entry(s1.reasoning_entries, id),
        ..s1
    };
    let block = openai::stream::opaque_block(s2, id);
    lemma_responses_opaque(s2, block, openai::encode::REASONING_KIND@, item);
    let (s3, kept) = openai::stream::opaque_step(
        s2,
        block,
        openai::encode::REASONING_KIND@,
        item,
    );
    assert(text_of(s3.assembler, id) == text_of(s2.assembler, id));
    assert(text_of(a2, id) == text_of(s1.assembler, id));
    lemma_responses_settled(s, id, kind, text, phase);
    lemma_faithful_then(s.assembler, a2, settled + ended, s3.assembler, kept, true);
}

/// The content of an item other than a thought.
proof fn lemma_responses_item_end(s: openai::stream::ResponsesV, id: Seq<char>, item: JsonV)
    requires
        !s.skipped.contains(id),
        !openai::decode::internal(item),
        !openai::decode::typed(item, "reasoning"@),
        steady(s.assembler, openai::stream::end_item_step(s, id, item).0.assembler),
    ensures
        faithful(
            s.assembler,
            openai::stream::end_item_step(s, id, item).0.assembler,
            openai::stream::end_item_step(s, id, item).1,
            true,
        ),
{
    let none = Seq::<EventV>::empty();
    let (s1, started) = openai::stream::start_item_step(s, id, item);
    lemma_responses_start_item(s, id, item);
    let (s2, settled) = openai::stream::reconcile_item_step(s1, id, item);
    let message = openai::decode::typed(item, "message"@);
    let phase = if message {
        openai::stream::ending(openai::decode::output_texts(item.items_at("content"@)))
    } else {
        Phase::Closed
    };
    let (a3, ended) = end_step(s2.assembler, id, phase);
    lemma_faithful_end(s2.assembler, id, phase, true);
    let s3 = openai::stream::ResponsesV { assembler: a3, ..s2 };
    let block = openai::stream::opaque_block(s3, id);
    let (s4, kept) = openai::stream::opaque_step(s3, block, openai::encode::MESSAGE_KIND@, item);
    lemma_responses_opaque(s3, block, openai::encode::MESSAGE_KIND@, item);
    assert(text_of(s1.assembler, id) == text_of(s.assembler, id));
    assert(text_of(a3, id) == text_of(s2.assembler, id));
    assert(text_of(s4.assembler, id) == text_of(a3, id));
    let last = openai::stream::end_item_step(s, id, item).0.assembler;
    assert(text_of(s.assembler, id).is_prefix_of(text_of(last, id)));
    assert(text_of(s1.assembler, id).is_prefix_of(text_of(s2.assembler, id)));
    lemma_faithful_aside(s1.assembler, s1.assembler, none, true);
    if message {
        lemma_faithful_reconcile(
            s1.assembler,
            id,
            KindV::Text,
            openai::decode::output_texts(item.items_at("content"@)),
        );
    } else if openai::decode::typed(item, "function_call"@) {
        lemma_faithful_reconcile(
            s1.assembler,
            id,
            fallback_call(id),
            openai_chat::decode::text_or_empty(item.text_at("arguments"@)),
        );
    } else if openai::decode::typed(item, "custom_tool_call"@) {
        lemma_faithful_reconcile(
            s1.assembler,
            id,
            fallback_call(id),
            openai_chat::decode::text_or_empty(item.text_at("input"@)),
        );
    }
    assert(faithful(s1.assembler, s2.assembler, settled, true));
    lemma_faithful_then(s.assembler, s1.assembler, started, s2.assembler, settled, true);
    lemma_faithful_then(s.assembler, s2.assembler, started + settled, a3, ended, true);
    if message {
        lemma_faithful_then(
            s.assembler,
            a3,
            started + settled + ended,
            s4.assembler,
            kept,
            true,
        );
    }
}

proof fn lemma_responses_end_item(s: openai::stream::ResponsesV, id: Seq<char>, item: JsonV)
    requires
        steady(s.assembler, openai::stream::end_item_step(s, id, item).0.assembler),
    ensures
        faithful(
            s.assembler,
            openai::stream::end_item_step(s, id, item).0.assembler,
            openai::stream::end_item_step(s, id, item).1,
            true,
        ),
{
    if s.skipped.contains(id) {
        lemma_faithful_aside(s.assembler, s.assembler, Seq::empty(), true);
    } else if openai::decode::internal(item) {
        lemma_faithful_end(s.assembler, id, Phase::Discarded, true);
    } else if openai::decode::typed(item, "reasoning"@) {
        lemma_responses_reasoning_end(s, id, item);
    } else {
        lemma_responses_item_end(s, id, item);
    }
}

proof fn lemma_responses_terminal(s: openai::stream::ResponsesV, value: JsonV)
    requires
        distinct(s.assembler),
    ensures
        faithful(
            s.assembler,
            openai::stream::terminal_step(s, value).0.assembler,
            openai::stream::terminal_step(s, value).1,
            true,
        ),
{
    let document = openai::stream::event_document(value);
    let (next, sent) = openai::stream::terminal_step(s, value);
    match openai::decode::decoded(s.route, document) {
        Ok(response) => {
            let a1 = AssemblerV {
                id: if response.id is Some {
                    response.id
                } else {
                    s.assembler.id
                },
                finish: Some(
                    promoted(response.finish_reason, crate::assembler::called(s.assembler)),
                ),
                raw: Some(document),
                ..s.assembler
            };
            let (a2, counted) = crate::assembler::usage_step(a1, response.usage);
            lemma_faithful_aside(s.assembler, a2, counted, true);
            lemma_faithful_complete(a2, true);
            let (a3, ended) = complete_step(a2);
            lemma_faithful_then(s.assembler, a2, counted, a3, ended, true);
        },
        Err(_) => {
            let id = document.text_at("id"@);
            let a1 = AssemblerV {
                id: if id is Some {
                    id
                } else {
                    s.assembler.id
                },
                finish: if document.text_at("status"@) is Some {
                    Some(
                        promoted(
                            openai::decode::status_finish(document, false),
                            crate::assembler::called(s.assembler),
                        ),
                    )
                } else {
                    s.assembler.finish
                },
                raw: Some(document),
                ..s.assembler
            };
            let (a2, counted) = match document.get("usage"@) {
                Some(usage) if usage is Object => crate::assembler::usage_step(
                    a1,
                    openai::decode::usage_counts(usage),
                ),
                _ => (a1, Seq::<EventV>::empty()),
            };
            lemma_faithful_aside(s.assembler, a2, counted, true);
            lemma_faithful_complete(a2, true);
            let (a3, ended) = complete_step(a2);
            lemma_faithful_then(s.assembler, a2, counted, a3, ended, true);
            assert(sent =~= counted + ended);
        },
    }
}

proof fn lemma_responses_event(
    s: openai::stream::ResponsesV,
    kind: Seq<char>,
    value: JsonV,
)
    requires
        distinct(s.assembler),
        steady(s.assembler, openai::stream::event_step(s, kind, value).0.assembler),
    ensures
        faithful(
            s.assembler,
            openai::stream::event_step(s, kind, value).0.assembler,
            openai::stream::event_step(s, kind, value).1,
            true,
        ),
{
    let id = openai::stream::event_block(value);
    let item = openai::stream::event_item(value);
    let text = openai::stream::event_delta(value);
    lemma_faithful_aside(s.assembler, s.assembler, Seq::empty(), true);
    if kind == "response.output_item.added"@ {
        lemma_responses_start_item(s, id, item);
    } else if kind == "response.output_text.delta"@ {
        lemma_faithful_append(s.assembler, id, KindV::Text, text, true);
    } else if kind == "response.reasoning_text.delta"@ || kind
        == "response.reasoning_summary_text.delta"@ {
        lemma_faithful_append(s.assembler, id, KindV::Reasoning, text, true);
        lemma_faithful_append(s.assembler, id, KindV::Reasoning, "\n\n"@ + text, true);
    } else if kind == "response.function_call_arguments.delta"@ || kind
        == "response.custom_tool_call_input.delta"@ {
        lemma_faithful_append(s.assembler, id, fallback_call(id), text, true);
    } else if kind == "response.output_item.done"@ {
        lemma_responses_end_item(s, id, item);
    } else if kind == "response.completed"@ || kind == "response.incomplete"@ {
        lemma_responses_terminal(s, value);
    }
}

/// Whether no frame replaced a block's text.
pub open spec fn steady_run(s: openai::stream::ResponsesV, frames: Seq<Frame>) -> bool
    decreases frames.len(),
{
    frames.len() == 0 || {
        &&& steady_run(s, frames.drop_last())
        &&& responses_run(s, frames.drop_last()) matches Some((before, _)) ==> steady(
            before.assembler,
            openai::stream::frame_step(before, frames.last().0, frames.last().1).0.assembler,
        )
    }
}

proof fn lemma_responses_run(route: RouteV, frames: Seq<Frame>)
    requires
        steady_run(openai::stream::fresh_responses(route), frames),
    ensures
        responses_run(openai::stream::fresh_responses(route), frames) matches Some((s, log))
            ==> faithful(
            openai::stream::fresh_responses(route).assembler,
            s.assembler,
            log,
            true,
        ),
    decreases frames.len(),
{
    let empty = openai::stream::fresh_responses(route);
    if frames.len() == 0 {
        lemma_faithful_aside(empty.assembler, empty.assembler, Seq::empty(), true);
    } else {
        lemma_responses_run(route, frames.drop_last());
        if let Some((before, log)) = responses_run(empty, frames.drop_last()) {
            let (data, event) = frames.last();
            let (after, sent) = openai::stream::frame_step(before, data, event);
            if sent is Ok {
                assert(distinct(empty.assembler));
                lemma_responses_frame(before, data, event);
                lemma_faithful_then(
                    empty.assembler,
                    before.assembler,
                    log,
                    after.assembler,
                    sent->Ok_0,
                    true,
                );
            }
        }
    }
}

proof fn lemma_responses_frame(
    s: openai::stream::ResponsesV,
    data: Seq<char>,
    event: Option<Seq<char>>,
)
    requires
        distinct(s.assembler),
        openai::stream::frame_step(s, data, event).1 is Ok,
        steady(s.assembler, openai::stream::frame_step(s, data, event).0.assembler),
    ensures
        faithful(
            s.assembler,
            openai::stream::frame_step(s, data, event).0.assembler,
            openai::stream::frame_step(s, data, event).1->Ok_0,
            true,
        ),
{
    let frame = crate::text::trim(data);
    lemma_faithful_aside(s.assembler, s.assembler, Seq::empty(), true);
    if !s.failed && frame.len() > 0 && frame != "[DONE]"@ && parsed(frame) is Some {
        let value = parsed(frame)->0;
        let kind = openai::stream::event_kind(value, event);
        let (s1, latched) = openai::stream::latch_step(s, kind, value);
        lemma_faithful_aside(s.assembler, s1.assembler, latched, true);
        assert(forall|id: Seq<char>| #[trigger]
            text_of(s1.assembler, id) == text_of(s.assembler, id));
        let (s2, content) = openai::stream::event_step(s1, kind, value);
        assert(steady(s1.assembler, s2.assembler));
        lemma_responses_event(s1, kind, value);
        lemma_faithful_then(
            s.assembler,
            s1.assembler,
            latched,
            s2.assembler,
            content,
            true,
        );
    }
}

/// Every Responses stream whose text no terminal item replaced is faithful,
/// from the first frame to the end of its events.
pub proof fn lemma_responses_whole(route: RouteV, frames: Seq<Frame>)
    requires
        responses_run(openai::stream::fresh_responses(route), frames) is Some,
        steady_run(openai::stream::fresh_responses(route), frames),
    ensures
        ({
            let empty = openai::stream::fresh_responses(route);
            let (s, log) = responses_run(empty, frames)->0;
            let (last, sent) = openai::stream::finish_step(s);
            faithful(empty.assembler, last.assembler, log + sent, true)
        }),
{
    let empty = openai::stream::fresh_responses(route);
    let (s, log) = responses_run(empty, frames)->0;
    let (last, sent) = openai::stream::finish_step(s);
    lemma_responses_run(route, frames);
    assert(distinct(empty.assembler));
    lemma_faithful_aside(s.assembler, s.assembler, Seq::empty(), true);
    lemma_faithful_complete(s.assembler, true);
    lemma_faithful_then(empty.assembler, s.assembler, log, last.assembler, sent, true);
}

/// The deltas of every Responses stream whose text no terminal item replaced
/// add up: what a consumer hears of a block, one delta after the other, is the
/// text, the thought or the arguments the block ends with.
pub proof fn law_responses_deltas_add_up(route: RouteV, frames: Seq<Frame>)
    requires
        responses_run(openai::stream::fresh_responses(route), frames) is Some,
        steady_run(openai::stream::fresh_responses(route), frames),
    ensures
        ({
            let (s, log) = responses_run(openai::stream::fresh_responses(route), frames)->0;
            adds_up(log + openai::stream::finish_step(s).1, true)
        }),
{
    let empty = openai::stream::fresh_responses(route);
    let (s, log) = responses_run(empty, frames)->0;
    let (last, sent) = openai::stream::finish_step(s);
    lemma_responses_whole(route, frames);
    assert(distinct(empty.assembler));
    law_a_responses_stream_is_whole(route, frames);
    lemma_adds_up(empty.assembler, last.assembler, log + sent);
}

/// Fragments never replace a text: only the end of an item may, so a Responses
/// stream of deltas alone is steady.
pub proof fn law_fragments_replace_nothing(
    s: openai::stream::ResponsesV,
    kind: Seq<char>,
    value: JsonV,
)
    requires
        kind != "response.output_item.done"@,
        distinct(s.assembler),
    ensures
        steady(s.assembler, openai::stream::event_step(s, kind, value).0.assembler),
{
    let id = openai::stream::event_block(value);
    let item = openai::stream::event_item(value);
    let text = openai::stream::event_delta(value);
    let next = openai::stream::event_step(s, kind, value).0.assembler;
    lemma_faithful_aside(s.assembler, s.assembler, Seq::empty(), true);
    if kind == "response.output_item.added"@ {
        lemma_responses_start_item(s, id, item);
    } else if kind == "response.output_text.delta"@ {
        lemma_faithful_append(s.assembler, id, KindV::Text, text, true);
    } else if kind == "response.reasoning_text.delta"@ || kind
        == "response.reasoning_summary_text.delta"@ {
        lemma_faithful_append(s.assembler, id, KindV::Reasoning, text, true);
        lemma_faithful_append(s.assembler, id, KindV::Reasoning, "\n\n"@ + text, true);
    } else if kind == "response.function_call_arguments.delta"@ || kind
        == "response.custom_tool_call_input.delta"@ {
        lemma_faithful_append(s.assembler, id, fallback_call(id), text, true);
    } else if kind == "response.completed"@ || kind == "response.incomplete"@ {
        lemma_responses_terminal(s, value);
    }
    let sent = openai::stream::event_step(s, kind, value).1;
    assert forall|other: Seq<char>| text_of(s.assembler, other).is_prefix_of(
        #[trigger] text_of(next, other),
    ) by {
        assert(faithful(s.assembler, next, sent, true));
        let before = text_of(s.assembler, other);
        let after = text_of(next, other);
        assert(after == before + super::deltas::heard(sent, other));
        assert(after.take(before.len() as int) =~= before);
    }
}

} // verus!
