//! Laws of complete responses: what a document says is what its response
//! holds, read off the document member by member.

use vstd::prelude::*;

use super::keys::lemma_keys;
use crate::gemini;
use crate::json::JsonV;
use crate::openai;
use crate::openai_chat;
use crate::response::ErrorKind;
use crate::response::FinishV;
use crate::response::RetryClassification;
use crate::serial::printed;
use crate::text::decimal;
use crate::types::CallV;
use crate::types::PartV;
use crate::types::RouteV;
use crate::types::ToolCallKind;

verus! {

broadcast use {vstd::seq::group_seq_axioms, vstd::map::group_map_axioms};

// The Chat Completions document.

/// The texts of a list of content parts, one after the other.
pub open spec fn texts_in(list: Seq<JsonV>) -> Seq<char>
    decreases list.len(),
{
    if list.len() == 0 {
        Seq::empty()
    } else {
        match list.last().text_at("text"@) {
            Some(text) => texts_in(list.drop_last()) + text,
            None => texts_in(list.drop_last()),
        }
    }
}

/// The text a message says, in either wire shape.
pub open spec fn message_text(message: JsonV) -> Seq<char> {
    match message.get("content"@) {
        Some(JsonV::Text(text)) => text,
        Some(JsonV::Array(list)) => texts_in(list),
        _ => Seq::empty(),
    }
}

/// The thought a message holds, under either spelling.
pub open spec fn message_thought(message: JsonV) -> Seq<char> {
    match (message.text_at("reasoning"@), message.text_at("reasoning_content"@)) {
        (Some(text), _) if text.len() > 0 => text,
        (_, Some(text)) => text,
        _ => Seq::empty(),
    }
}

/// Whether a call of a message can be answered: it has an id and a name.
pub open spec fn answerable(call: JsonV) -> bool {
    &&& call.text_at("id"@) matches Some(id) && id.len() > 0
    &&& call.get2("function"@, "name"@) matches Some(JsonV::Text(name)) && name.len() > 0
}

/// Whether a part is a call of a message.
pub open spec fn is_message_call(part: PartV, call: JsonV) -> bool {
    &&& part matches PartV::ToolCall(made)
    &&& call.text_at("id"@) == Some(made.id)
    &&& call.get2("function"@, "name"@) == Some(JsonV::Text(made.name))
    &&& made.input.kind == ToolCallKind::Function
    &&& made.input.raw == match call.get2("function"@, "arguments"@) {
        Some(JsonV::Text(text)) => text,
        _ => Seq::empty(),
    }
    &&& made.provider_metadata == Map::<Seq<char>, JsonV>::empty()
}

/// The objects of a list, in order.
pub open spec fn objects_in(list: Seq<JsonV>) -> Seq<JsonV>
    decreases list.len(),
{
    if list.len() == 0 {
        Seq::empty()
    } else if list.last() is Object {
        objects_in(list.drop_last()).push(list.last())
    } else {
        objects_in(list.drop_last())
    }
}

/// The details a message holds: the objects of a list, or a lone object.
pub open spec fn message_details(message: JsonV) -> Seq<JsonV> {
    match message.get("reasoning_details"@) {
        Some(JsonV::Array(list)) => objects_in(list),
        Some(JsonV::Object(entry)) => seq![JsonV::Object(entry)],
        _ => Seq::empty(),
    }
}

proof fn lemma_objects(list: Seq<JsonV>)
    ensures
        openai_chat::reasoning_details::objects(list) == objects_in(list),
    decreases list.len(),
{
    if list.len() > 0 {
        lemma_objects(list.drop_last());
    }
}

/// The reason a wire word names.
pub open spec fn named_reason(word: Option<Seq<char>>, called: bool) -> FinishV {
    match word {
        None => if called {
            FinishV::ToolCall
        } else {
            FinishV::Stop
        },
        Some(word) => if word == "stop"@ || word == "STOP"@ {
            if called {
                FinishV::ToolCall
            } else {
                FinishV::Stop
            }
        } else if word == "length"@ || word == "MAX_TOKENS"@ {
            FinishV::Length
        } else if word == "tool_calls"@ || word == "function_call"@ {
            FinishV::ToolCall
        } else if word == "content_filter"@ || word == "SAFETY"@ {
            FinishV::ContentFilter
        } else {
            FinishV::Other(word)
        },
    }
}

proof fn lemma_texts(list: Seq<JsonV>)
    ensures
        openai_chat::decode::part_texts(list) == texts_in(list),
    decreases list.len(),
{
    if list.len() > 0 {
        lemma_texts(list.drop_last());
        let rest = texts_in(list.drop_last());
        assert(rest + Seq::<char>::empty() =~= rest);
    }
}

proof fn lemma_chat_calls(list: Seq<JsonV>)
    ensures
        openai_chat::decode::call_parts(list) is Ok <==> forall|k: int|
            0 <= k < list.len() ==> answerable(#[trigger] list[k]),
        openai_chat::decode::call_parts(list) matches Ok(calls) ==> calls.len() == list.len()
            && forall|k: int|
            0 <= k < list.len() ==> is_message_call(calls[k], #[trigger] list[k]),
    decreases list.len(),
{
    lemma_keys();
    if list.len() > 0 {
        let fewer = list.drop_last();
        let n = list.len() - 1;
        lemma_chat_calls(fewer);
        assert(openai_chat::decode::call_part(list[n]) is Ok <==> answerable(list[n]));
        if openai_chat::decode::call_parts(list) is Ok {
            let calls = openai_chat::decode::call_parts(list)->Ok_0;
            let rest = openai_chat::decode::call_parts(fewer)->Ok_0;
            assert forall|k: int| 0 <= k < list.len() implies answerable(#[trigger] list[k]) by {
                if k < n {
                    assert(answerable(fewer[k]));
                }
            }
            assert forall|k: int| 0 <= k < list.len() implies is_message_call(
                calls[k],
                #[trigger] list[k],
            ) by {
                if k < n {
                    assert(calls[k] == rest[k]);
                    assert(is_message_call(rest[k], fewer[k]));
                }
            }
        } else if forall|k: int| 0 <= k < list.len() ==> answerable(#[trigger] list[k]) {
            assert forall|k: int| 0 <= k < fewer.len() implies answerable(#[trigger] fewer[k]) by {
                assert(answerable(list[k]));
            }
            assert(answerable(list[n]));
        }
    }
}

/// A completion decodes unless it holds no choice, no message, a refusal, or a
/// call that cannot be answered, and is then a failure to decode, or a refusal
/// with its own words.
pub proof fn law_chat_decodes_an_answer(
    route: RouteV,
    value: JsonV,
    choice: JsonV,
    message: JsonV,
)
    requires
        value.items_at("choices"@).len() > 0,
        value.items_at("choices"@)[0] == choice,
        choice.get("message"@) == Some(message),
        message is Object,
    ensures
        ({
            let made = openai_chat::decode::decoded(route, value);
            let calls = message.items_at("tool_calls"@);
            let refused = message.text_at("refusal"@) matches Some(text) && text.len() > 0;
            &&& made is Ok <==> !refused && forall|k: int|
                0 <= k < calls.len() ==> answerable(#[trigger] calls[k])
            &&& refused ==> made->Err_0.kind == ErrorKind::ContentFilter
                && made->Err_0.provider_code == Some("refusal"@) && made->Err_0.retry
                == RetryClassification::Never && made->Err_0.message == "provider "@
                + route.provider + " "@ + ("refused the request: "@ + message.text_at(
                "refusal"@,
            )->0)
            &&& made is Err && !refused ==> made->Err_0.kind == ErrorKind::ResponseDecode
                && made->Err_0.retry == RetryClassification::Safe && made->Err_0.raw_data == Some(
                value,
            )
        }),
{
    lemma_keys();
    lemma_chat_calls(message.items_at("tool_calls"@));
}

/// A completion without a choice, or whose choice has no message, fails to
/// decode.
pub proof fn law_chat_needs_an_answer(route: RouteV, value: JsonV)
    ensures
        value.get("choices"@) is None ==> openai_chat::decode::decoded(route, value) is Err,
        value.items_at("choices"@).len() > 0 && !(value.items_at("choices"@)[0].get("message"@)
            is Some && value.items_at("choices"@)[0].get("message"@)->0 is Object)
            ==> openai_chat::decode::decoded(route, value) is Err,
        openai_chat::decode::decoded(route, value) matches Err(error) ==> error.provider == Some(
            route.provider,
        ) && error.raw_data == Some(value) && !error.sourced,
{
}

/// What a completion says is what its response holds: its details, its
/// thought, its text, and each of its calls, in that order and nothing else,
/// with its id, its reason to stop, its cost and the document itself.
pub proof fn law_chat_decodes_what_it_reads(
    route: RouteV,
    value: JsonV,
    choice: JsonV,
    message: JsonV,
)
    requires
        value.items_at("choices"@).len() > 0,
        value.items_at("choices"@)[0] == choice,
        choice.get("message"@) == Some(message),
        message is Object,
        openai_chat::decode::decoded(route, value) is Ok,
        !(openai_chat::decode::decoded(route, value)->Ok_0.finish_reason is Length),
    ensures
        ({
            let response = openai_chat::decode::decoded(route, value)->Ok_0;
            let content = response.content;
            let calls = message.items_at("tool_calls"@);
            let details = message_details(message);
            let thought = message_thought(message);
            let text = message_text(message);
            let d: int = if details.len() > 0 {
                1
            } else {
                0
            };
            let r: int = if thought.len() > 0 {
                d + 1
            } else {
                d
            };
            let t: int = if text.len() > 0 {
                r + 1
            } else {
                r
            };
            &&& content.len() == t + calls.len()
            &&& details.len() > 0 ==> content[0] == (PartV::Opaque {
                kind: "openai_compatible."@ + "reasoning_details"@,
                data: JsonV::Array(details),
            })
            &&& thought.len() > 0 ==> content[d] is Reasoning && content[d]->Reasoning_0.text
                == thought && content[d]->Reasoning_0.signature is None
                && !content[d]->Reasoning_0.redacted
            &&& text.len() > 0 ==> content[r] == (PartV::Text { text })
            &&& forall|k: int|
                0 <= k < calls.len() ==> is_message_call(content[t + k], #[trigger] calls[k])
            &&& response.finish_reason == named_reason(
                choice.text_at("finish_reason"@),
                calls.len() > 0,
            )
            &&& response.provider == route.provider
            &&& response.model == route.model
            &&& response.id == value.text_at("id"@)
            &&& response.raw == Some(value)
            &&& response.warnings.len() == 0
        }),
{
    lemma_keys();
    let calls = message.items_at("tool_calls"@);
    lemma_chat_calls(calls);
    if let Some(JsonV::Array(list)) = message.get("content"@) {
        lemma_texts(list);
    }
    if let Some(JsonV::Array(list)) = message.get("reasoning_details"@) {
        lemma_objects(list);
    }
    let response = openai_chat::decode::decoded(route, value)->Ok_0;
    let parts = openai_chat::decode::call_parts(calls)->Ok_0;
    let spoken = openai_chat::decode::spoken_parts(message);
    assert(response.content =~= spoken + parts);
    assert forall|k: int| 0 <= k < calls.len() implies is_message_call(
        response.content[spoken.len() + k],
        #[trigger] calls[k],
    ) by {
        assert(response.content[spoken.len() + k] == parts[k]);
    }
}

// The Gemini document.

/// Whether a wire part says something: it is a call or a text.
pub open spec fn says(part: JsonV) -> bool {
    part.get("functionCall"@) is Some || part.text_at("text"@) is Some
}

/// The parts of a list that say something, in order.
pub open spec fn saying(list: Seq<JsonV>) -> Seq<JsonV>
    decreases list.len(),
{
    if list.len() == 0 {
        Seq::empty()
    } else if says(list.last()) {
        saying(list.drop_last()).push(list.last())
    } else {
        saying(list.drop_last())
    }
}

/// How many of the parts of a list are calls.
pub open spec fn calls_in(list: Seq<JsonV>) -> nat
    decreases list.len(),
{
    if list.len() == 0 {
        0
    } else if list.last().get("functionCall"@) is Some {
        calls_in(list.drop_last()) + 1
    } else {
        calls_in(list.drop_last())
    }
}

/// Whether a part is what a wire part says: a text, a thought with its
/// signature, or a call with its id, its name, its arguments and its signature.
pub open spec fn said_by(part: PartV, wire: JsonV, ordinal: nat, scope: Seq<char>) -> bool {
    match wire.get("functionCall"@) {
        Some(call) => {
            let name = match call.text_at("name"@) {
                Some(name) => name,
                None => Seq::empty(),
            };
            &&& part matches PartV::ToolCall(made)
            &&& made.name == name
            &&& made.id == match call.text_at("id"@) {
                Some(id) if id.len() > 0 => id,
                _ => name + "-"@ + decimal(ordinal) + "-"@ + scope,
            }
            &&& made.input.kind == ToolCallKind::Function
            &&& call.get("args"@) matches Some(arguments) ==> made.input.raw == printed(arguments)
            &&& call.get("args"@) is None ==> made.input.raw == printed(
                JsonV::Object(Map::empty()),
            )
            &&& JsonV::Object(made.provider_metadata).get2("gemini"@, "thoughtSignature"@)
                == match wire.text_at("thoughtSignature"@) {
                Some(signature) => Some(JsonV::Text(signature)),
                None => None,
            }
        },
        None => if wire.truth_at("thought"@) == Some(true) {
            &&& part matches PartV::Reasoning(reasoning)
            &&& wire.text_at("text"@) == Some(reasoning.text)
            &&& wire.text_at("thoughtSignature"@) == reasoning.signature
            &&& !reasoning.redacted
            &&& reasoning.signature is Some ==> reasoning.signature_origin == Some("gemini"@)
        } else {
            &&& part matches PartV::Text { text }
            &&& wire.text_at("text"@) == Some(text)
        },
    }
}

proof fn lemma_gemini_parts(list: Seq<JsonV>, scope: Seq<char>)
    ensures
        gemini::decode::call_count(list) == calls_in(list),
        gemini::decode::candidate_parts(list, scope).len() == saying(list).len(),
        forall|k: int|
            0 <= k < saying(list).len() ==> said_by(
                gemini::decode::candidate_parts(list, scope)[k],
                #[trigger] saying(list)[k],
                calls_in(saying(list).take(k)),
                scope,
            ),
        calls_in(saying(list)) == calls_in(list),
    decreases list.len(),
{
    lemma_keys();
    if list.len() > 0 {
        let fewer = list.drop_last();
        lemma_gemini_parts(fewer, scope);
        let rest = saying(fewer);
        let all = saying(list);
        let parts = gemini::decode::candidate_parts(list, scope);
        let before = gemini::decode::candidate_parts(fewer, scope);
        if says(list.last()) {
            assert(all.drop_last() =~= rest);
            assert(all.take(rest.len() as int) =~= rest);
        }
        assert forall|k: int| 0 <= k < all.len() implies said_by(
            parts[k],
            #[trigger] all[k],
            calls_in(all.take(k)),
            scope,
        ) by {
            if k < rest.len() {
                assert(all.take(k) =~= rest.take(k));
                assert(parts[k] == before[k]);
                assert(said_by(before[k], rest[k], calls_in(rest.take(k)), scope));
            } else {
                assert(all[k] == list.last());
            }
        }
    } else {
        assert(saying(list).len() == 0);
    }
}

/// The parts a candidate lists.
pub open spec fn wire_parts(candidate: JsonV) -> Seq<JsonV> {
    match candidate.get2("content"@, "parts"@) {
        Some(JsonV::Array(list)) => list,
        _ => Seq::empty(),
    }
}

/// What a Gemini document says is what its response holds: each text, each
/// thought with its signature, and each call, in order and nothing else, with
/// its id, its reason to stop and the document itself.
pub proof fn law_gemini_decodes_what_it_reads(
    route: RouteV,
    value: JsonV,
    candidate: JsonV,
    nonce: Seq<char>,
)
    requires
        value.items_at("candidates"@).len() > 0,
        value.items_at("candidates"@)[0] == candidate,
    ensures
        gemini::decode::decoded(route, value, nonce) is Ok,
        ({
            let response = gemini::decode::decoded(route, value, nonce)->Ok_0;
            let list = wire_parts(candidate);
            let scope = match value.text_at("responseId"@) {
                Some(id) => id,
                None => nonce,
            };
            &&& response.finish_reason == named_reason(
                candidate.text_at("finishReason"@),
                calls_in(list) > 0,
            )
            &&& !(response.finish_reason is Length) ==> {
                &&& response.content.len() == saying(list).len()
                &&& forall|k: int|
                    0 <= k < saying(list).len() ==> said_by(
                        response.content[k],
                        #[trigger] saying(list)[k],
                        calls_in(saying(list).take(k)),
                        scope,
                    )
            }
            &&& response.provider == route.provider
            &&& response.model == route.model
            &&& response.id == value.text_at("responseId"@)
            &&& response.raw == Some(value)
            &&& response.cost is None
        }),
{
    lemma_keys();
    let list = gemini::decode::listed_parts(candidate);
    let scope = match value.text_at("responseId"@) {
        Some(id) => id,
        None => nonce,
    };
    lemma_gemini_parts(list, scope);
}

/// A Gemini document without a candidate is a failure: a blocked prompt under
/// its reason, for good, and otherwise a body that may be asked for again.
pub proof fn law_gemini_needs_a_candidate(route: RouteV, value: JsonV, nonce: Seq<char>)
    requires
        value.get("candidates"@) is None,
    ensures
        ({
            let made = gemini::decode::decoded(route, value, nonce);
            &&& made is Err
            &&& made->Err_0.provider == Some(route.provider)
            &&& made->Err_0.raw_data == Some(value)
            &&& match value.get2("promptFeedback"@, "blockReason"@) {
                Some(JsonV::Text(reason)) => made->Err_0.kind == ErrorKind::ContentFilter
                    && made->Err_0.provider_code == Some(reason) && made->Err_0.retry
                    == RetryClassification::Never,
                _ => made->Err_0.kind == ErrorKind::ResponseDecode && made->Err_0.retry
                    == RetryClassification::Safe,
            }
        }),
{
}

// The Responses document.

/// The texts of the entries of a type, one after the other.
pub open spec fn entries_said(list: Seq<JsonV>, kind: Seq<char>) -> Seq<char>
    decreases list.len(),
{
    if list.len() == 0 {
        Seq::empty()
    } else {
        match list.last().text_at("text"@) {
            Some(text) if list.last().text_at("type"@) == Some(kind) => entries_said(
                list.drop_last(),
                kind,
            ) + text,
            _ => entries_said(list.drop_last(), kind),
        }
    }
}

proof fn lemma_output_texts(list: Seq<JsonV>)
    ensures
        openai::decode::output_texts(list) == entries_said(list, "output_text"@),
    decreases list.len(),
{
    if list.len() > 0 {
        lemma_output_texts(list.drop_last());
        let rest = entries_said(list.drop_last(), "output_text"@);
        assert(rest + Seq::<char>::empty() =~= rest);
    }
}

/// Whether a call is that of an output item: the id a result answers, the
/// name, the input, and the item's own id beside it.
pub open spec fn is_item_call(call: CallV, item: JsonV) -> bool {
    let custom = item.text_at("type"@) == Some("custom_tool_call"@);
    let input = if custom {
        item.text_at("input"@)
    } else {
        item.text_at("arguments"@)
    };
    &&& item.text_at("name"@) == Some(call.name)
    &&& item.text_at("call_id"@) matches Some(id) ==> call.id == id
    &&& item.text_at("call_id"@) is None && item.text_at("id"@) is Some ==> Some(call.id)
        == item.text_at("id"@)
    &&& call.input.kind == if custom {
        ToolCallKind::Custom
    } else {
        ToolCallKind::Function
    }
    &&& call.input.raw == match input {
        Some(text) => text,
        None => Seq::empty(),
    }
    &&& item.text_at("call_id"@) is Some && item.text_at("id"@) is Some && item.text_at("id"@)
        != item.text_at("call_id"@) ==> JsonV::Object(call.provider_metadata).get2(
        "openai"@,
        "item_id"@,
    ) == Some(JsonV::Text(item.text_at("id"@)->0))
    &&& !(item.text_at("call_id"@) is Some && item.text_at("id"@) is Some && item.text_at("id"@)
        != item.text_at("call_id"@)) ==> call.provider_metadata == Map::<Seq<char>, JsonV>::empty()
}

/// One more output item adds what it says: a message its text and itself, to
/// be replayed, a named call the call, and an item of another type nothing.
pub proof fn law_responses_items_add_up(list: Seq<JsonV>, item: JsonV)
    ensures
        ({
            let before = openai::decode::output_parts(list);
            let after = openai::decode::output_parts(list.push(item));
            let kind = item.text_at("type"@);
            let text = entries_said(item.items_at("content"@), "output_text"@);
            let named = item.text_at("name"@) matches Some(name) && name.len() > 0;
            &&& list.len() == 0 ==> before.len() == 0
            &&& before.is_prefix_of(after)
            &&& kind == Some("message"@) && text.len() > 0 ==> after == before.push(
                PartV::Text { text },
            ).push(PartV::Opaque { kind: "openai.message"@, data: item })
            &&& kind == Some("message"@) && text.len() == 0 ==> after == before.push(
                PartV::Opaque { kind: "openai.message"@, data: item },
            )
            &&& (kind == Some("function_call"@) || kind == Some("custom_tool_call"@)) && named
                ==> after.len() == before.len() + 1 && after.last() is ToolCall && is_item_call(
                after.last()->ToolCall_0,
                item,
            )
            &&& (kind == Some("function_call"@) || kind == Some("custom_tool_call"@)) && !named
                ==> after == before
            &&& kind == Some("reasoning"@) ==> after.len() > before.len() && after.last() == (
            PartV::Opaque { kind: "openai.reasoning"@, data: item })
            &&& kind != Some("message"@) && kind != Some("function_call"@) && kind != Some(
                "custom_tool_call"@,
            ) && kind != Some("reasoning"@) ==> after == before
        }),
{
    lemma_keys();
    lemma_output_texts(item.items_at("content"@));
    assert(list.push(item).drop_last() =~= list);
    let before = openai::decode::output_parts(list);
    let after = openai::decode::output_parts(list.push(item));
    assert(after.take(before.len() as int) =~= before);
}

/// A thought with one entry is that entry: its trace where it has one, and
/// otherwise its summary. One more entry stands behind a blank line.
pub proof fn law_responses_reads_thoughts(
    list: Seq<JsonV>,
    item: JsonV,
    entry: JsonV,
    text: Seq<char>,
)
    requires
        item.text_at("type"@) == Some("reasoning"@),
        item.items_at("content"@).len() == 0,
        item.items_at("summary"@) == seq![entry],
        entry.text_at("type"@) == Some("summary_text"@),
        entry.text_at("text"@) == Some(text),
        text.len() > 0,
    ensures
        ({
            let before = openai::decode::output_parts(list);
            let after = openai::decode::output_parts(list.push(item));
            &&& after.len() == before.len() + 2
            &&& after[before.len() as int] is Reasoning
            &&& after[before.len() as int]->Reasoning_0.text == text
        }),
{
    lemma_keys();
    assert(list.push(item).drop_last() =~= list);
    let summary = item.items_at("summary"@);
    assert(summary.drop_last() =~= Seq::<JsonV>::empty());
    reveal_with_fuel(openai::decode::entry_texts, 2);
    reveal_with_fuel(crate::text::join, 2);
    assert(openai::decode::entry_texts(summary, "summary_text"@) =~= seq![text]);
}

/// The entries of a list are joined by blank lines, empty ones left out.
pub proof fn law_entries_join_by_blank_lines(list: Seq<JsonV>, kind: Seq<char>, entry: JsonV)
    ensures
        ({
            let before = openai::decode::joined_entries(list, kind);
            let after = openai::decode::joined_entries(list.push(entry), kind);
            let text = match entry.text_at("text"@) {
                Some(text) => text,
                None => Seq::empty(),
            };
            &&& list.len() == 0 ==> before.len() == 0
            &&& after == if entry.text_at("type"@) == Some(kind) && text.len() > 0 {
                if before.len() > 0 {
                    before + "\n\n"@ + text
                } else {
                    text
                }
            } else {
                before
            }
        }),
{
    assert(list.push(entry).drop_last() =~= list);
    let texts = openai::decode::entry_texts(list, kind);
    lemma_entries_filled(list, kind);
    if let Some(text) = entry.text_at("text"@) {
        assert(texts.push(text).drop_last() =~= texts);
    }
}

proof fn lemma_entries_filled(list: Seq<JsonV>, kind: Seq<char>)
    ensures
        ({
            let texts = openai::decode::entry_texts(list, kind);
            &&& texts.len() > 0 ==> texts.last().len() > 0
            &&& crate::text::join(texts, "\n\n"@).len() == 0 <==> texts.len() == 0
        }),
    decreases list.len(),
{
    if list.len() > 0 {
        lemma_entries_filled(list.drop_last(), kind);
    }
}

/// What a Responses document says is what its response holds: the content of
/// its items, why it stopped, its id and the document itself.
pub proof fn law_responses_decodes_what_it_reads(route: RouteV, value: JsonV)
    requires
        openai::decode::decoded(route, value) is Ok,
    ensures
        ({
            let response = openai::decode::decoded(route, value)->Ok_0;
            let content = openai::decode::output_parts(value.items_at("output"@));
            let called = exists|i: int|
                0 <= i < content.len() && #[trigger] content[i] is ToolCall;
            let plain = if called {
                FinishV::ToolCall
            } else {
                FinishV::Stop
            };
            &&& !(response.finish_reason is Length) ==> response.content == content
            &&& response.finish_reason == match value.text_at("status"@) {
                None => plain,
                Some(status) => if status == "completed"@ {
                    plain
                } else if status == "failed"@ {
                    FinishV::Error
                } else if status == "incomplete"@ {
                    if value.get2("incomplete_details"@, "reason"@) == Some(
                        JsonV::Text("content_filter"@),
                    ) {
                        FinishV::ContentFilter
                    } else {
                        FinishV::Length
                    }
                } else {
                    FinishV::Other(status)
                },
            }
            &&& response.provider == route.provider
            &&& response.model == route.model
            &&& response.id == value.text_at("id"@)
            &&& response.raw == Some(value)
            &&& response.cost is None
        }),
{
    lemma_keys();
    reveal_strlit("completed");
    reveal_strlit("failed");
    reveal_strlit("incomplete");
    assert("completed"@.len() == 9 && "failed"@.len() == 6 && "incomplete"@.len() == 10);
}

/// Whether an item holds a refusal in its own words.
pub open spec fn refuses(item: JsonV, j: int, words: Seq<char>) -> bool {
    &&& item.text_at("type"@) == Some("message"@)
    &&& 0 <= j < item.items_at("content"@).len()
    &&& item.items_at("content"@)[j].text_at("type"@) == Some("refusal"@)
    &&& item.items_at("content"@)[j].text_at("refusal"@) == Some(words)
    &&& words.len() > 0
}

proof fn lemma_part_refusal(list: Seq<JsonV>)
    ensures
        openai::decode::part_refusal(list) is Some <==> exists|j: int|
            0 <= j < list.len() && (#[trigger] list[j]).text_at("type"@) == Some("refusal"@)
                && list[j].text_at("refusal"@) is Some && list[j].text_at("refusal"@)->0.len() > 0,
        openai::decode::part_refusal(list) matches Some(words) ==> words.len() > 0
            && exists|j: int|
            0 <= j < list.len() && (#[trigger] list[j]).text_at("type"@) == Some("refusal"@)
                && list[j].text_at("refusal"@) == Some(words),
    decreases list.len(),
{
    if list.len() > 0 {
        let fewer = list.drop_last();
        let n = list.len() - 1;
        lemma_part_refusal(fewer);
        if openai::decode::part_refusal(fewer) is Some {
            let words = openai::decode::part_refusal(fewer)->0;
            let j = choose|j: int|
                0 <= j < fewer.len() && (#[trigger] fewer[j]).text_at("type"@) == Some("refusal"@)
                    && fewer[j].text_at("refusal"@) == Some(words);
            assert(list[j].text_at("type"@) == Some("refusal"@));
        } else if openai::decode::part_refusal(list) is Some {
            assert(list[n].text_at("type"@) == Some("refusal"@));
        } else if exists|j: int|
            0 <= j < list.len() && (#[trigger] list[j]).text_at("type"@) == Some("refusal"@)
                && list[j].text_at("refusal"@) is Some && list[j].text_at("refusal"@)->0.len()
                > 0 {
            let j = choose|j: int|
                0 <= j < list.len() && (#[trigger] list[j]).text_at("type"@) == Some("refusal"@)
                    && list[j].text_at("refusal"@) is Some && list[j].text_at("refusal"@)->0.len()
                    > 0;
            if j < n {
                assert(fewer[j].text_at("type"@) == Some("refusal"@));
            }
        }
    }
}

proof fn lemma_item_refusal(list: Seq<JsonV>)
    ensures
        openai::decode::item_refusal(list) is Some <==> exists|i: int, j: int, words: Seq<char>|
            0 <= i < list.len() && #[trigger] refuses(list[i], j, words),
        openai::decode::item_refusal(list) matches Some(words) ==> exists|i: int, j: int|
            0 <= i < list.len() && #[trigger] refuses(list[i], j, words),
    decreases list.len(),
{
    if list.len() > 0 {
        let fewer = list.drop_last();
        let n = list.len() - 1;
        lemma_item_refusal(fewer);
        let parts = list[n].items_at("content"@);
        lemma_part_refusal(parts);
        if openai::decode::item_refusal(fewer) is Some {
            let words = openai::decode::item_refusal(fewer)->0;
            let (i, j) = choose|i: int, j: int|
                0 <= i < fewer.len() && #[trigger] refuses(fewer[i], j, words);
            assert(refuses(list[i], j, words));
        } else if openai::decode::item_refusal(list) is Some {
            let words = openai::decode::item_refusal(list)->0;
            let j = choose|j: int|
                0 <= j < parts.len() && (#[trigger] parts[j]).text_at("type"@) == Some(
                    "refusal"@,
                ) && parts[j].text_at("refusal"@) == Some(words);
            assert(refuses(list[n], j, words));
        } else if exists|i: int, j: int, words: Seq<char>|
            0 <= i < list.len() && #[trigger] refuses(list[i], j, words) {
            let (i, j, words) = choose|i: int, j: int, words: Seq<char>|
                0 <= i < list.len() && #[trigger] refuses(list[i], j, words);
            if i < n {
                assert(refuses(fewer[i], j, words));
            } else {
                assert(parts[j].text_at("type"@) == Some("refusal"@));
            }
        }
    }
}

/// A Responses document decodes where it lists its output and refuses nothing.
/// A refusal is a failure for good, in the model's own words, and any other
/// body may be asked for again.
pub proof fn law_responses_decodes_an_answer(route: RouteV, value: JsonV)
    ensures
        ({
            let made = openai::decode::decoded(route, value);
            let items = value.items_at("output"@);
            let listed = value.get("output"@) is Some && value.get("output"@)->0 is Array;
            let refused = exists|i: int, j: int, words: Seq<char>|
                0 <= i < items.len() && #[trigger] refuses(items[i], j, words);
            &&& made is Ok <==> listed && !refused
            &&& made is Err ==> made->Err_0.provider == Some(route.provider)
                && made->Err_0.raw_data == Some(value)
            &&& !listed ==> made->Err_0.kind == ErrorKind::ResponseDecode && made->Err_0.retry
                == RetryClassification::Safe
            &&& listed && refused ==> made->Err_0.kind == ErrorKind::ContentFilter
                && made->Err_0.provider_code == Some("refusal"@) && made->Err_0.retry
                == RetryClassification::Never && exists|i: int, j: int, words: Seq<char>|
                0 <= i < items.len() && #[trigger] refuses(items[i], j, words)
                    && made->Err_0.message == "provider "@ + route.provider + " "@ + (
                "refused the request: "@ + words)
        }),
{
    lemma_item_refusal(value.items_at("output"@));
}

} // verus!
