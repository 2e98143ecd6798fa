//! Laws of how a stream opens and of what it settles on: its id, its usage,
//! its cost and its reason to stop.

use vstd::prelude::*;

use super::arrivals::passes;
use super::streams::Frame;
use super::transcripts::frame_event;
use super::transcripts::lemma_kinds_differ;
use crate::assembler::append_step;
use crate::assembler::block_part;
use crate::assembler::called;
use crate::assembler::kept_parts;
use crate::assembler::AssemblerV;
use crate::assembler::BlockV;
use crate::assembler::Phase;
use crate::gemini;
use crate::json::JsonV;
use crate::openai;
use crate::openai_chat;
use crate::response::CostSource;
use crate::response::CostV;
use crate::response::ErrorKind;
use crate::response::ErrorV;
use crate::response::EventV;
use crate::response::FinishV;
use crate::response::RetryClassification;
use crate::serial::parsed;
use crate::text::trim;
use crate::types::PartV;

verus! {

broadcast use {vstd::seq::group_seq_axioms, vstd::map::group_map_axioms};

/// Whether two states differ in their blocks alone.
pub open spec fn blocks_alone(s: AssemblerV, next: AssemblerV) -> bool {
    next == (AssemblerV { blocks: next.blocks, ..s })
}

/// Whether some content calls a tool.
pub open spec fn calls_tool(content: Seq<PartV>) -> bool {
    exists|i: int| 0 <= i < content.len() && #[trigger] content[i] is ToolCall
}

/// Why a response stops that a provider says stopped for a reason: a plain
/// stop after a call is a stop to call.
pub open spec fn stops_as(reason: Seq<char>, content: Seq<PartV>, finish: FinishV) -> bool {
    &&& (reason == "stop"@ || reason == "STOP"@) ==> finish == if calls_tool(content) {
        FinishV::ToolCall
    } else {
        FinishV::Stop
    }
    &&& (reason == "length"@ || reason == "MAX_TOKENS"@) ==> finish == FinishV::Length
    &&& (reason == "tool_calls"@ || reason == "function_call"@) ==> finish == FinishV::ToolCall
    &&& (reason == "content_filter"@ || reason == "SAFETY"@) ==> finish == FinishV::ContentFilter
    &&& reason != "stop"@ && reason != "STOP"@ && reason != "length"@ && reason != "MAX_TOKENS"@
        && reason != "tool_calls"@ && reason != "function_call"@ && reason != "content_filter"@
        && reason != "SAFETY"@ ==> finish == FinishV::Other(reason)
}

proof fn lemma_reasons()
    ensures
        "stop"@.len() == 4,
        "STOP"@.len() == 4,
        "length"@.len() == 6,
        "SAFETY"@.len() == 6,
        "MAX_TOKENS"@.len() == 10,
        "tool_calls"@.len() == 10,
        "function_call"@.len() == 13,
        "content_filter"@.len() == 14,
        "stop"@[0] == 's',
        "STOP"@[0] == 'S',
        "length"@[0] == 'l',
        "SAFETY"@[0] == 'S',
        "MAX_TOKENS"@[0] == 'M',
        "tool_calls"@[0] == 't',
{
    reveal_strlit("stop");
    reveal_strlit("STOP");
    reveal_strlit("length");
    reveal_strlit("SAFETY");
    reveal_strlit("MAX_TOKENS");
    reveal_strlit("tool_calls");
    reveal_strlit("function_call");
    reveal_strlit("content_filter");
}

proof fn lemma_called(blocks: Seq<BlockV>, signatures: Option<Seq<char>>)
    ensures
        calls_tool(kept_parts(blocks, signatures)) <==> exists|i: int|
            0 <= i < blocks.len() && (#[trigger] blocks[i]).kind is ToolCall && blocks[i].phase
                != Phase::Discarded,
    decreases blocks.len(),
{
    if blocks.len() > 0 {
        let rest = blocks.drop_last();
        let n = blocks.len() - 1;
        let parts = kept_parts(blocks, signatures);
        let fewer = kept_parts(rest, signatures);
        lemma_called(rest, signatures);
        if calls_tool(parts) {
            let k = choose|k: int| 0 <= k < parts.len() && #[trigger] parts[k] is ToolCall;
            if k < fewer.len() {
                assert(fewer[k] is ToolCall);
                let i = choose|i: int|
                    0 <= i < rest.len() && (#[trigger] rest[i]).kind is ToolCall && rest[i].phase
                        != Phase::Discarded;
                assert(blocks[i].kind is ToolCall && blocks[i].phase != Phase::Discarded);
            } else {
                assert(blocks[n].kind is ToolCall && blocks[n].phase != Phase::Discarded);
            }
        }
        if exists|i: int|
            0 <= i < blocks.len() && (#[trigger] blocks[i]).kind is ToolCall && blocks[i].phase
                != Phase::Discarded {
            let i = choose|i: int|
                0 <= i < blocks.len() && (#[trigger] blocks[i]).kind is ToolCall && blocks[i].phase
                    != Phase::Discarded;
            if i < n {
                assert(rest[i].kind is ToolCall && rest[i].phase != Phase::Discarded);
                let k = choose|k: int| 0 <= k < fewer.len() && #[trigger] fewer[k] is ToolCall;
                assert(parts[k] is ToolCall);
            } else {
                assert(parts[parts.len() - 1] == block_part(blocks[n], signatures));
                assert(parts[parts.len() - 1] is ToolCall);
            }
        }
    }
}

// The Chat Completions stream.

proof fn lemma_chat_calls(s: openai_chat::stream::ChatV, list: Seq<JsonV>)
    ensures
        ({
            let next = openai_chat::stream::calls_step(s, list).0;
            &&& blocks_alone(s.assembler, next.assembler)
            &&& next.started == s.started
            &&& next.refusal == s.refusal
            &&& next.route == s.route
        }),
    decreases list.len(),
{
    if list.len() > 0 {
        lemma_chat_calls(s, list.drop_last());
    }
}

proof fn lemma_chat_content(s: openai_chat::stream::ChatV, chunk: JsonV)
    ensures
        ({
            let opened = openai_chat::stream::begin_step(s, chunk).0;
            let delta = openai_chat::stream::chunk_delta(chunk);
            let spoken = openai_chat::stream::spoken_step(opened, delta).0;
            let next = openai_chat::stream::calls_step(spoken, delta.items_at("tool_calls"@)).0;
            blocks_alone(opened.assembler, next.assembler) && next.started
        }),
{
    let opened = openai_chat::stream::begin_step(s, chunk).0;
    let delta = openai_chat::stream::chunk_delta(chunk);
    let spoken = openai_chat::stream::spoken_step(opened, delta).0;
    lemma_chat_calls(spoken, delta.items_at("tool_calls"@));
}

/// A Chat Completions stream opens with the id of its first chunk.
pub proof fn law_chat_opens_with_its_id(s: openai_chat::stream::ChatV, data: Seq<char>)
    requires
        !s.failed,
        !s.started,
        !s.assembler.completed,
        data != "[DONE]"@,
        openai_chat::stream::event_step(s, data).1 is Ok,
    ensures
        parsed(data) is Some,
        ({
            let (next, sent) = openai_chat::stream::event_step(s, data);
            &&& sent->Ok_0.len() > 0
            &&& sent->Ok_0[0] == (EventV::Started { id: (parsed(data)->0).text_at("id"@) })
            &&& next.started
        }),
{
    let chunk = parsed(data)->0;
    lemma_chat_content(s, chunk);
    let opening = openai_chat::stream::begin_step(s, chunk).1;
    let sent = openai_chat::stream::event_step(s, data).1->Ok_0;
    assert(opening.len() == 1);
    assert(sent[0] == opening[0]);
}

/// A chunk of a Chat Completions stream reports the usage it carries, and a
/// stream that ends there is answered with that usage, that cost, that id and
/// that reason to stop.
pub proof fn law_chat_settles_on_its_totals(
    s: openai_chat::stream::ChatV,
    data: Seq<char>,
)
    requires
        !s.failed,
        !s.assembler.completed,
        data != "[DONE]"@,
        openai_chat::stream::event_step(s, data).1 is Ok,
    ensures
        parsed(data) is Some,
        ({
            let chunk = parsed(data)->0;
            let (next, sent) = openai_chat::stream::event_step(s, data);
            let ended = openai_chat::stream::finish_step(next).1;
            let choices = chunk.items_at("choices"@);
            &&& (chunk.get("usage"@) matches Some(usage) && usage is Object) ==> passes(
                sent->Ok_0,
                EventV::Usage {
                    usage: openai_chat::decode::usage_counts(chunk.get("usage"@)->0),
                },
            )
            &&& ended is Ok ==> ended->Ok_0.len() > 0 && ended->Ok_0.last() is Ended
            &&& ended is Ok ==> {
                let response = ended->Ok_0.last()->response;
                &&& response.provider == s.assembler.provider
                &&& response.model == s.assembler.model
                &&& response.id == if chunk.text_at("id"@) is Some || !s.started {
                    chunk.text_at("id"@)
                } else {
                    s.assembler.id
                }
                &&& response.usage == if chunk.get("usage"@) is Some && chunk.get("usage"@)->0
                    is Object {
                    openai_chat::decode::usage_counts(chunk.get("usage"@)->0)
                } else {
                    s.assembler.usage
                }
                &&& chunk.get2("usage"@, "cost"@) matches Some(JsonV::Number(usd)) ==> response.cost
                    == Some(CostV { usd, source: CostSource::Provider })
                &&& !(chunk.get2("usage"@, "cost"@) matches Some(JsonV::Number(_))) ==> (
                chunk.get2("cost"@, "usd"@) matches Some(JsonV::Number(usd)) ==> response.cost
                    == Some(CostV { usd, source: CostSource::Provider }))
                &&& !(chunk.get2("usage"@, "cost"@) matches Some(JsonV::Number(_))) && !(
                chunk.get2("cost"@, "usd"@) matches Some(JsonV::Number(_))) ==> response.cost
                    == s.assembler.cost
                &&& choices.len() > 0 && choices[0].text_at("finish_reason"@) is Some ==> stops_as(
                    choices[0].text_at("finish_reason"@)->0,
                    response.content,
                    response.finish_reason,
                )
                &&& chunk.get("choices"@) is None && s.assembler.finish is None
                    ==> response.finish_reason == FinishV::Other("incomplete"@)
            }
        }),
{
    lemma_reasons();
    let chunk = parsed(data)->0;
    lemma_chat_content(s, chunk);
    let (next, sent) = openai_chat::stream::event_step(s, data);
    lemma_called(next.assembler.blocks, next.assembler.signatures);
    let (s1, opening) = openai_chat::stream::begin_step(s, chunk);
    let delta = openai_chat::stream::chunk_delta(chunk);
    let (s2, spoken) = openai_chat::stream::spoken_step(s1, delta);
    let (s3, calls) = openai_chat::stream::calls_step(s2, delta.items_at("tool_calls"@));
    let (s4, totals) = openai_chat::stream::totals_step(s3, chunk);
    if chunk.get("usage"@) is Some && chunk.get("usage"@)->0 is Object {
        let at = (opening + (spoken + calls->Ok_0)).len() as int;
        assert(sent->Ok_0[at] == totals[0]);
    }
}

/// A refusal that a Chat Completions stream spells is gathered, fragment by
/// fragment, and a stream that ends there is refused in those words.
pub proof fn law_chat_refuses_in_its_own_words(
    s: openai_chat::stream::ChatV,
    data: Seq<char>,
)
    requires
        !s.failed,
        !s.assembler.completed,
        data != "[DONE]"@,
        openai_chat::stream::event_step(s, data).1 is Ok,
        (parsed(data)->0).items_at("choices"@).len() > 0,
    ensures
        ({
            let choice = (parsed(data)->0).items_at("choices"@)[0];
            let next = openai_chat::stream::event_step(s, data).0;
            let ended = openai_chat::stream::finish_step(next).1;
            let said = match choice.get2("delta"@, "refusal"@) {
                Some(JsonV::Text(text)) => s.refusal + text,
                _ => s.refusal,
            };
            said.len() > 0 ==> (ended matches Err(error) && {
                &&& error.kind == ErrorKind::ContentFilter
                &&& error.retry == RetryClassification::Never
                &&& error.provider == Some(s.route.provider)
                &&& error.provider_code == Some("refusal"@)
                &&& error.message == "provider "@ + s.route.provider + " "@ + (
                "refused the request: "@ + said)
            })
        }),
{
    let chunk = parsed(data)->0;
    lemma_chat_content(s, chunk);
    let opened = openai_chat::stream::begin_step(s, chunk).0;
    let delta = openai_chat::stream::chunk_delta(chunk);
    let spoken = openai_chat::stream::spoken_step(opened, delta).0;
    lemma_chat_calls(spoken, delta.items_at("tool_calls"@));
    let text = match chunk.items_at("choices"@)[0].get2("delta"@, "refusal"@) {
        Some(JsonV::Text(text)) => text,
        _ => Seq::empty(),
    };
    assert(s.refusal + Seq::<char>::empty() =~= s.refusal);
    assert(spoken.refusal == s.refusal + text);
}

proof fn lemma_chat_unplaced(s: openai_chat::stream::ChatV, list: Seq<JsonV>, k: int)
    requires
        0 <= k < list.len(),
        list[k].unsigned_at("index"@) is None,
    ensures
        openai_chat::stream::calls_step(s, list).1 matches Err(error) && {
            &&& error.kind == ErrorKind::StreamDecode
            &&& error.retry == RetryClassification::Safe
            &&& error.provider == Some(s.route.provider)
        },
    decreases list.len(),
{
    let fewer = list.drop_last();
    lemma_chat_calls(s, fewer);
    if k < fewer.len() {
        assert(fewer[k] == list[k]);
        lemma_chat_unplaced(s, fewer, k);
    } else if openai_chat::stream::calls_step(s, fewer).1 is Err {
        lemma_chat_failed_calls(s, fewer);
    }
}

proof fn lemma_chat_failed_calls(s: openai_chat::stream::ChatV, list: Seq<JsonV>)
    ensures
        openai_chat::stream::calls_step(s, list).1 matches Err(error) ==> {
            &&& error.kind == ErrorKind::StreamDecode
            &&& error.retry == RetryClassification::Safe
            &&& error.provider == Some(s.route.provider)
        },
    decreases list.len(),
{
    if list.len() > 0 {
        lemma_chat_calls(s, list.drop_last());
        lemma_chat_failed_calls(s, list.drop_last());
    }
}

/// A fragment of a call that names no index fails a Chat Completions stream,
/// and the stream may be tried again.
pub proof fn law_chat_needs_an_index(s: openai_chat::stream::ChatV, data: Seq<char>, k: int)
    requires
        !s.failed,
        data != "[DONE]"@,
        parsed(data) is Some,
        (parsed(data)->0).get("error"@) is None || (parsed(data)->0).get("error"@)->0 is Null,
        (parsed(data)->0).items_at("choices"@).len() > 0,
        (parsed(data)->0).items_at("choices"@)[0].get("delta"@) is Some,
        ({
            let delta = (parsed(data)->0).items_at("choices"@)[0].get("delta"@)->0;
            let list = delta.items_at("tool_calls"@);
            0 <= k < list.len() && list[k].unsigned_at("index"@) is None
        }),
    ensures
        ({
            let (next, sent) = openai_chat::stream::event_step(s, data);
            &&& next.failed
            &&& sent matches Err(error) && {
                &&& error.kind == ErrorKind::StreamDecode
                &&& error.retry == RetryClassification::Safe
                &&& error.provider == Some(s.route.provider)
            }
        }),
{
    let chunk = parsed(data)->0;
    let opened = openai_chat::stream::begin_step(s, chunk).0;
    let delta = openai_chat::stream::chunk_delta(chunk);
    let spoken = openai_chat::stream::spoken_step(opened, delta).0;
    lemma_chat_unplaced(spoken, delta.items_at("tool_calls"@), k);
}

/// A Chat Completions stream that ends without a reason to stop, after it
/// began a call, fails, and may be tried again.
pub proof fn law_chat_tells_a_cut_call(s: openai_chat::stream::ChatV)
    requires
        !s.failed,
        !s.assembler.completed,
        s.refusal.len() == 0,
        s.assembler.finish is None,
        called(s.assembler),
    ensures
        openai_chat::stream::finish_step(s).1 matches Err(error) && {
            &&& error.kind == ErrorKind::StreamDecode
            &&& error.retry == RetryClassification::Safe
            &&& error.provider == Some(s.route.provider)
        },
{
}

// The Gemini stream.

/// Whether a step of a Gemini stream touched its content alone.
pub open spec fn content_alone(s: gemini::stream::StreamV, next: gemini::stream::StreamV) -> bool {
    &&& blocks_alone(s.assembler, next.assembler)
    &&& next.failed == s.failed
    &&& next.started == s.started
    &&& next.response_id == s.response_id
    &&& next.finished == s.finished
}

proof fn lemma_gemini_call(s: gemini::stream::StreamV, part: JsonV, function_call: JsonV)
    ensures
        content_alone(s, gemini::stream::call_step(s, part, function_call).0),
{
}

proof fn lemma_gemini_spoken(s: gemini::stream::StreamV, part: JsonV, text: Seq<char>)
    ensures
        content_alone(s, gemini::stream::spoken_step(s, part, text).0),
{
    let run = if gemini::decode::is_thought(part) {
        gemini::stream::Run::Reasoning
    } else {
        gemini::stream::Run::Text
    };
    let turned = match s.open {
        Some((_, open)) if open != run => gemini::stream::close_step(s).0,
        _ => s,
    };
    assert(content_alone(s, turned));
    let (opened, id) = gemini::stream::run_step(turned, run);
    assert(content_alone(turned, opened));
    let appended = gemini::stream::StreamV {
        assembler: append_step(opened.assembler, id, gemini::stream::run_kind(run), text).0,
        ..opened
    };
    assert(content_alone(opened, appended));
}

proof fn lemma_gemini_parts(s: gemini::stream::StreamV, list: Seq<JsonV>)
    ensures
        content_alone(s, gemini::stream::parts_step(s, list).0),
    decreases list.len(),
{
    if list.len() > 0 {
        lemma_gemini_parts(s, list.drop_last());
        let before = gemini::stream::parts_step(s, list.drop_last()).0;
        let part = list.last();
        if part.get("functionCall"@) is Some {
            lemma_gemini_call(before, part, part.get("functionCall"@)->0);
        }
        if part.text_at("text"@) is Some {
            lemma_gemini_spoken(before, part, part.text_at("text"@)->0);
        }
    }
}

/// A Gemini stream opens with the id of its first chunk.
pub proof fn law_gemini_opens_with_its_id(s: gemini::stream::StreamV, value: JsonV)
    requires
        !s.started,
        s.response_id is None,
        !s.assembler.completed,
    ensures
        ({
            let (next, sent) = gemini::stream::chunk_step(s, value);
            &&& sent.len() > 0
            &&& sent[0] == (EventV::Started { id: value.text_at("responseId"@) })
            &&& next.started
        }),
{
    let (s1, opening) = gemini::stream::begin_step(s, value);
    lemma_gemini_parts(s1, gemini::stream::chunk_parts(value));
    assert(opening.len() == 1);
    assert(gemini::stream::chunk_step(s, value).1[0] == opening[0]);
}

/// A chunk of a Gemini stream reports the usage it carries, and a stream that
/// ends there is answered with that usage, that id and that reason to stop.
pub proof fn law_gemini_settles_on_its_totals(s: gemini::stream::StreamV, value: JsonV)
    requires
        !s.failed,
        !s.assembler.completed,
    ensures
        ({
            let (next, sent) = gemini::stream::chunk_step(s, value);
            let ended = gemini::stream::finish_step(next).1;
            let response = ended.last()->response;
            let candidates = value.items_at("candidates"@);
            &&& value.get("usageMetadata"@) is Some ==> passes(
                sent,
                EventV::Usage {
                    usage: gemini::decode::usage_counts(value.get("usageMetadata"@)->0),
                },
            )
            &&& ended.len() > 0 && ended.last() is Ended
            &&& response.provider == s.assembler.provider
            &&& response.model == s.assembler.model
            &&& s.response_id is None && value.text_at("responseId"@) is Some ==> response.id
                == value.text_at("responseId"@)
            &&& s.started && value.text_at("responseId"@) is None ==> response.id
                == s.assembler.id
            &&& response.usage == if value.get("usageMetadata"@) is Some {
                gemini::decode::usage_counts(value.get("usageMetadata"@)->0)
            } else {
                s.assembler.usage
            }
            &&& candidates.len() > 0 ==> (candidates[0].text_at("finishReason"@) matches Some(
                reason,
            ) ==> {
                &&& (reason == "STOP"@ || reason == "stop"@) ==> response.finish_reason
                    == if next.calls > 0 {
                    FinishV::ToolCall
                } else {
                    FinishV::Stop
                }
                &&& reason != "STOP"@ && reason != "stop"@ ==> stops_as(
                    reason,
                    response.content,
                    response.finish_reason,
                )
            })
            &&& value.get("candidates"@) is None && s.finished is None && s.assembler.finish is None
                ==> response.finish_reason == FinishV::Other("incomplete"@)
        }),
{
    lemma_reasons();
    let (s1, opening) = gemini::stream::begin_step(s, value);
    lemma_gemini_parts(s1, gemini::stream::chunk_parts(value));
    let (s2, content) = gemini::stream::parts_step(s1, gemini::stream::chunk_parts(value));
    let (s3, usage) = gemini::stream::usage_step(s2, value);
    let (next, sent) = gemini::stream::chunk_step(s, value);
    if value.get("usageMetadata"@) is Some {
        assert(sent[(opening + content).len() as int] == usage[0]);
    }
    let ended = gemini::stream::finish_step(next).1;
    assert(ended.last() is Ended);
}

// The Responses stream.

/// The name that the transport gives an event matters only where its data
/// names no type of its own. An error, by either name, fails the stream.
pub proof fn law_the_data_names_its_event(
    s: openai::stream::ResponsesV,
    data: Seq<char>,
    a: Option<Seq<char>>,
    b: Option<Seq<char>>,
)
    ensures
        parsed(trim(data)) matches Some(value) ==> {
            &&& value.text_at("type"@) is Some ==> openai::stream::frame_step(s, data, a)
                == openai::stream::frame_step(s, data, b)
            &&& !s.failed && trim(data).len() > 0 && trim(data) != "[DONE]"@ && (value.text_at(
                "type"@,
            ) == Some("error"@) || value.text_at("type"@) is None && a == Some("error"@)) ==> (
            openai::stream::frame_step(s, data, a).0.failed && openai::stream::frame_step(
                s,
                data,
                a,
            ).1 is Err)
        },
{
}

/// Frames that are blank, that end the transport, or that are no JSON say
/// nothing and change nothing.
pub proof fn law_noise_is_passed_over(
    s: openai::stream::ResponsesV,
    data: Seq<char>,
    event: Option<Seq<char>>,
)
    requires
        trim(data).len() == 0 || trim(data) == "[DONE]"@ || parsed(trim(data)) is None,
    ensures
        openai::stream::frame_step(s, data, event) == (s, Ok::<Seq<EventV>, ErrorV>(Seq::empty())),
{
}

/// A Responses stream opens with the id of the response that its first event
/// names.
pub proof fn law_responses_opens_with_its_id(s: openai::stream::ResponsesV, frame: Frame)
    requires
        !s.failed,
        !s.started,
        !s.assembler.completed,
        frame_event(frame) is Some,
        openai::stream::frame_step(s, frame.0, frame.1).1 is Ok,
    ensures
        ({
            let (next, sent) = openai::stream::frame_step(s, frame.0, frame.1);
            let value = (frame_event(frame)->0).1;
            &&& sent->Ok_0.len() > 0
            &&& sent->Ok_0[0] == (EventV::Started {
                id: match value.get2("response"@, "id"@) {
                    Some(JsonV::Text(id)) => Some(id),
                    _ => None,
                },
            })
        }),
{
    let (kind, value) = frame_event(frame)->0;
    let (s1, latched) = openai::stream::latch_step(s, kind, value);
    assert(latched.len() == 1);
    let sent = openai::stream::frame_step(s, frame.0, frame.1).1->Ok_0;
    assert(sent[0] == latched[0]);
}

proof fn lemma_settled(s: openai::stream::ResponsesV, value: JsonV)
    requires
        !s.assembler.completed,
    ensures
        ({
            let document = match value.get("response"@) {
                Some(document) => document,
                None => value,
            };
            let sent = openai::stream::terminal_step(s, value).1;
            let response = sent.last()->response;
            let usage = document.get("usage"@);
            let listed = document.get("output"@) is Some && document.get("output"@)->0 is Array;
            &&& sent.len() > 0 && sent.last() is Ended
            &&& response.provider == s.assembler.provider
            &&& response.model == s.assembler.model
            &&& response.raw == Some(document)
            &&& response.cost == s.assembler.cost
            &&& response.id == if document.text_at("id"@) is Some {
                document.text_at("id"@)
            } else {
                s.assembler.id
            }
            &&& (usage is Some && usage->0 is Object) ==> response.usage
                == openai::decode::usage_counts(usage->0)
            &&& (usage is Some && usage->0 is Object) ==> passes(
                sent,
                EventV::Usage { usage: openai::decode::usage_counts(usage->0) },
            )
            &&& document.text_at("status"@) == Some("incomplete"@) ==> response.finish_reason
                == if document.get2("incomplete_details"@, "reason"@) == Some(
                JsonV::Text("content_filter"@),
            ) {
                FinishV::ContentFilter
            } else {
                FinishV::Length
            }
            &&& document.text_at("status"@) == Some("completed"@) && calls_tool(response.content)
                ==> response.finish_reason == FinishV::ToolCall
            &&& document.text_at("status"@) == Some("completed"@) && !listed && !calls_tool(
                response.content,
            ) ==> response.finish_reason == FinishV::Stop
        }),
{
    reveal_strlit("completed");
    reveal_strlit("incomplete");
    reveal_strlit("failed");
    lemma_called(s.assembler.blocks, s.assembler.signatures);
    let document = openai::stream::event_document(value);
    let sent = openai::stream::terminal_step(s, value).1;
    let usage = document.get("usage"@);
    if usage is Some && usage->0 is Object {
        assert(sent[0] == (EventV::Usage { usage: openai::decode::usage_counts(usage->0) }));
    }
    let response = sent.last()->response;
    let parts = kept_parts(s.assembler.blocks, s.assembler.signatures);
    assert(called(s.assembler) <==> calls_tool(parts));
    assert(response.finish_reason !is Length ==> response.content == parts);
    if document.text_at("status"@) == Some("completed"@) {
        assert("completed"@.len() == 9 && "incomplete"@.len() == 10 && "failed"@.len() == 6);
        assert(openai::decode::status_finish(document, true) == FinishV::ToolCall);
        assert(openai::decode::status_finish(document, false) == FinishV::Stop);
        assert(response.finish_reason is ToolCall || response.finish_reason is Stop);
    }
}

/// A Responses stream that completes is answered with what the final document
/// says: its id, its usage, its status, and the document itself.
pub proof fn law_responses_settle_on_their_document(
    s: openai::stream::ResponsesV,
    kind: Seq<char>,
    value: JsonV,
)
    requires
        kind == "response.completed"@ || kind == "response.incomplete"@,
        !s.assembler.completed,
    ensures
        ({
            let document = match value.get("response"@) {
                Some(document) => document,
                None => value,
            };
            let sent = openai::stream::event_step(s, kind, value).1;
            let response = sent.last()->response;
            let usage = document.get("usage"@);
            let listed = document.get("output"@) is Some && document.get("output"@)->0 is Array;
            &&& sent.len() > 0 && sent.last() is Ended
            &&& response.provider == s.assembler.provider
            &&& response.model == s.assembler.model
            &&& response.raw == Some(document)
            &&& response.cost == s.assembler.cost
            &&& response.id == if document.text_at("id"@) is Some {
                document.text_at("id"@)
            } else {
                s.assembler.id
            }
            &&& (usage is Some && usage->0 is Object) ==> response.usage
                == openai::decode::usage_counts(usage->0)
            &&& (usage is Some && usage->0 is Object) ==> passes(
                sent,
                EventV::Usage { usage: openai::decode::usage_counts(usage->0) },
            )
            &&& document.text_at("status"@) == Some("incomplete"@) ==> response.finish_reason
                == if document.get2("incomplete_details"@, "reason"@) == Some(
                JsonV::Text("content_filter"@),
            ) {
                FinishV::ContentFilter
            } else {
                FinishV::Length
            }
            &&& document.text_at("status"@) == Some("completed"@) && calls_tool(response.content)
                ==> response.finish_reason == FinishV::ToolCall
            &&& document.text_at("status"@) == Some("completed"@) && !listed && !calls_tool(
                response.content,
            ) ==> response.finish_reason == FinishV::Stop
        }),
{
    lemma_kinds_differ();
    lemma_settled(s, value);
}

} // verus!
