//! Blocking response decoding: candidates, tool calls, and usage.

use vstd::prelude::*;
use vstd::string::*;

use super::encode::NAMESPACE;
use super::identity::call_id;
use super::identity::thought_signature;
use super::identity::tool_call_id;
use crate::body::object1;
use crate::body::single;
use crate::content::finish_of;
use crate::content::finish_reason;
use crate::content::promote_tool_finish;
use crate::content::promoted;
use crate::content::GEMINI_SIGNATURES;
use crate::errors::content_filter;
use crate::errors::filtered;
use crate::errors::malformed;
use crate::errors::malformed_success;
use crate::json::items_of;
use crate::json::lemma_model;
use crate::json::model_opt;
use crate::json::models;
use crate::json::Json;
use crate::json::JsonObject;
use crate::json::JsonV;
use crate::response::finished;
use crate::response::monus;
use crate::response::CallError;
use crate::response::ErrorV;
use crate::response::FinishReason;
use crate::response::FinishV;
use crate::response::Response;
use crate::response::ResponseV;
use crate::response::TokenCounts;
use crate::response::WarningV;
use crate::serial::printed;
use crate::serial::reads_back;
use crate::serial::NESTING;
use crate::text::concat3;
use crate::text::lemma_ends;
use crate::text::lemma_take;
use crate::text::owned_opt;
use crate::types::input_value;
use crate::types::lemma_result_part;
use crate::types::parts;
use crate::types::CallV;
use crate::types::ContentPart;
use crate::types::InputV;
use crate::types::PartV;
use crate::types::ReasoningContent;
use crate::types::ReasoningV;
use crate::types::ResolvedRoute;
use crate::types::RouteV;
use crate::types::ToolCall;
use crate::types::ToolCallKind;

verus! {

broadcast use {vstd::std_specs::vec::group_vec_axioms, vstd::seq::group_seq_axioms, lemma_model, lemma_result_part};

/// The name a function call carries.
pub open spec fn function_name(function_call: JsonV) -> Seq<char> {
    match function_call.text_at("name"@) {
        Some(name) => name,
        None => Seq::empty(),
    }
}

/// The arguments a function call carries, and none when it names none.
pub open spec fn call_arguments(function_call: JsonV) -> JsonV {
    match function_call.get("args"@) {
        Some(arguments) => arguments,
        None => JsonV::Object(Map::empty()),
    }
}

/// The input of a function call: the text of its arguments.
pub open spec fn function_input(function_call: JsonV) -> InputV {
    InputV { kind: ToolCallKind::Function, raw: printed(call_arguments(function_call)) }
}

/// Whether a part that is a function call gives its tool the arguments it
/// carries, wherever their text reads back.
pub open spec fn input_reads(part: JsonV) -> bool {
    part.get("functionCall"@) matches Some(function_call) ==> (reads_back(
        call_arguments(function_call),
        NESTING as nat,
    ) ==> input_value(function_input(function_call)) == call_arguments(function_call))
}

/// Whether each function call of a list gives its tool the arguments it
/// carries.
pub open spec fn inputs_read(list: Seq<JsonV>) -> bool {
    forall|i: int| 0 <= i < list.len() ==> input_reads(#[trigger] list[i])
}

/// The metadata that keeps a call's thought signature.
pub open spec fn signature_metadata(signature: Seq<char>) -> JsonV {
    single("thoughtSignature"@, JsonV::Text(signature))
}

/// The tool call a `functionCall` part holds, the `ordinal`-th of its
/// response.
pub open spec fn function_part(
    part: JsonV,
    function_call: JsonV,
    scope: Seq<char>,
    ordinal: nat,
) -> PartV {
    let name = function_name(function_call);
    PartV::ToolCall(
        CallV {
            id: call_id(function_call, name, scope, ordinal),
            name,
            input: function_input(function_call),
            provider_metadata: match part.text_at("thoughtSignature"@) {
                Some(signature) => Map::empty().insert(NAMESPACE@, signature_metadata(signature)),
                None => Map::empty(),
            },
        },
    )
}

/// Whether a text part is a thought.
pub open spec fn is_thought(part: JsonV) -> bool {
    part.truth_at("thought"@) == Some(true)
}

/// The content a text part holds: visible text, or a thought with its
/// signature.
pub open spec fn spoken_part(part: JsonV, text: Seq<char>) -> PartV {
    if is_thought(part) {
        let signature = part.text_at("thoughtSignature"@);
        PartV::Reasoning(
            ReasoningV {
                text,
                signature,
                signature_origin: if signature is Some { Some(GEMINI_SIGNATURES@) } else { None },
                redacted: false,
            },
        )
    } else {
        PartV::Text { text }
    }
}

/// How many parts are function calls.
pub open spec fn call_count(list: Seq<JsonV>) -> nat
    decreases list.len(),
{
    if list.len() == 0 {
        0
    } else if list.last().get("functionCall"@) is Some {
        call_count(list.drop_last()) + 1
    } else {
        call_count(list.drop_last())
    }
}

/// The content of a candidate's parts. A part that is neither a function call
/// nor a text holds none.
pub open spec fn candidate_parts(list: Seq<JsonV>, scope: Seq<char>) -> Seq<PartV>
    decreases list.len(),
{
    if list.len() == 0 {
        Seq::empty()
    } else {
        let rest = candidate_parts(list.drop_last(), scope);
        match list.last().get("functionCall"@) {
            Some(function_call) => rest.push(
                function_part(list.last(), function_call, scope, call_count(list.drop_last())),
            ),
            None => match list.last().text_at("text"@) {
                Some(text) => rest.push(spoken_part(list.last(), text)),
                None => rest,
            },
        }
    }
}

/// The parts a candidate lists.
pub open spec fn listed_parts(candidate: JsonV) -> Seq<JsonV> {
    items_of(candidate.get2("content"@, "parts"@))
}

/// Why a candidate finished. `STOP` after function calls is a stop for them.
pub open spec fn candidate_finish(candidate: JsonV) -> FinishV {
    promoted(
        finish_of(candidate.text_at("finishReason"@)),
        call_count(listed_parts(candidate)) > 0,
    )
}

/// The elements an optional value holds when it is an array.
pub fn elements(value: Option<&Json>) -> (r: Option<&Vec<Json>>)
    ensures
        match r {
            Some(list) => items_of(model_opt(value)) == models(list@),
            None => items_of(model_opt(value)) == Seq::<JsonV>::empty(),
        },
{
    match value {
        Some(value) => value.as_array(),
        None => None,
    }
}

/// Decodes one candidate into its content and its finish reason.
///
/// `response_id` scopes the ids synthesized for the function calls.
pub fn decode_candidate(candidate: &Json, response_id: &str) -> (r: (
    Vec<ContentPart>,
    FinishReason,
))
    ensures
        parts(r.0@) == candidate_parts(listed_parts(candidate@), response_id@),
        r.1@ == candidate_finish(candidate@),
        inputs_read(listed_parts(candidate@)),
{
    let mut content: Vec<ContentPart> = Vec::new();
    let mut calls: usize = 0;
    let ghost listed = listed_parts(candidate@);
    proof {
        lemma_ends(listed);
        assert(parts(content@) =~= Seq::<PartV>::empty());
    }
    if let Some(list) = elements(candidate.get2("content", "parts")) {
        let mut i: usize = 0;
        while i < list.len()
            invariant
                i <= list.len(),
                listed == models(list@),
                calls <= i,
                calls == call_count(listed.take(i as int)),
                parts(content@) == candidate_parts(listed.take(i as int), response_id@),
                forall|k: int| 0 <= k < i ==> input_reads(#[trigger] listed[k]),
            decreases list.len() - i,
        {
            proof {
                lemma_take(listed, i as int);
            }
            let ghost before = content@;
            let part: &Json = &list[i];
            if let Some(function_call) = part.get("functionCall") {
                let decoded: ContentPart = decode_tool_call(
                    part,
                    function_call,
                    response_id,
                    calls as u64,
                );
                content.push(decoded);
                calls = calls + 1;
                assert(parts(content@) =~= parts(before).push(decoded@));
            } else if let Some(text) = part.text_at("text") {
                let decoded: ContentPart = decode_text(part, text);
                content.push(decoded);
                assert(parts(content@) =~= parts(before).push(decoded@));
            }
            i = i + 1;
        }
        proof {
            lemma_ends(listed);
        }
    }
    let finish: FinishReason = promote_tool_finish(
        finish_reason(candidate.text_at("finishReason")),
        calls > 0,
    );
    (content, finish)
}

/// Decodes a text part into visible text or reasoning.
pub fn decode_text(part: &Json, text: &str) -> (r: ContentPart)
    ensures
        r@ == spoken_part(part@, text@),
{
    let thought: bool = match part.truth_at("thought") {
        Some(thought) => thought,
        None => false,
    };
    if !thought {
        return ContentPart::Text { text: text.to_owned() };
    }
    let signature: Option<String> = owned_opt(thought_signature(part));
    let signature_origin: Option<String> = if signature.is_some() {
        Some(GEMINI_SIGNATURES.to_owned())
    } else {
        None
    };
    ContentPart::Reasoning(
        ReasoningContent { text: text.to_owned(), signature, signature_origin, redacted: false },
    )
}

/// Decodes a `functionCall` part into a tool call.
///
/// `ordinal` counts the function calls already decoded from this response.
pub fn decode_tool_call(
    part: &Json,
    function_call: &Json,
    response_id: &str,
    ordinal: u64,
) -> (r: ContentPart)
    ensures
        r@ == function_part(part@, function_call@, response_id@, ordinal as nat),
        reads_back(call_arguments(function_call@), NESTING as nat) ==> input_value(
            r@->ToolCall_0.input,
        ) == call_arguments(function_call@),
{
    let name: &str = match function_call.text_at("name") {
        Some(name) => name,
        None => {
            proof {
                reveal_strlit("");
                assert(""@ =~= Seq::<char>::empty());
            }
            ""
        },
    };
    let id: String = tool_call_id(function_call, name, response_id, ordinal);
    let mut call: ToolCall = match function_call.get("args") {
        Some(arguments) => ToolCall::function(id.as_str(), name, arguments),
        None => ToolCall::function(id.as_str(), name, &Json::Object(JsonObject::new())),
    };
    if let Some(signature) = thought_signature(part) {
        call.provider_metadata.insert(
            NAMESPACE,
            object1("thoughtSignature", Json::text(signature)),
        );
    }
    ContentPart::ToolCall(call)
}

/// Why Gemini blocked a prompt.
pub open spec fn block_reason(value: JsonV) -> Option<Seq<char>> {
    match value.get2("promptFeedback"@, "blockReason"@) {
        Some(reason) => reason.text(),
        None => None,
    }
}

/// The failure of a prompt Gemini blocked.
pub open spec fn blocked(route: RouteV, reason: Seq<char>, raw: JsonV) -> ErrorV {
    filtered(
        route,
        reason,
        "blocked the prompt under its content policy (block reason "@ + reason + ")"@,
        Some(raw),
    )
}

/// The classified error for a prompt Gemini blocked, streamed or not.
pub fn blocked_prompt(route: &ResolvedRoute, reason: &str, raw: Json) -> (r: CallError)
    ensures
        r@ == blocked(route@, reason@, raw@),
{
    content_filter(
        route,
        reason,
        concat3(
            "blocked the prompt under its content policy (block reason ",
            reason,
            ")",
        ).as_str(),
        Some(raw),
    )
}

/// The failure of a success body without candidates: a blocked prompt under
/// its reason, and otherwise a malformed body.
pub open spec fn candidateless(route: RouteV, value: JsonV) -> ErrorV {
    match block_reason(value) {
        Some(reason) => blocked(route, reason, value),
        None => malformed(route, "Gemini returned no candidates in the response"@, Some(value)),
    }
}

/// The error for a 200 response that carried no candidates.
///
/// Gemini reports a prompt it refused to answer as `promptFeedback.blockReason`
/// on an otherwise successful body, and decoding that as an empty answer would
/// hide the block. The block reason becomes the provider code, whatever Google
/// spells it.
pub fn no_candidates(route: &ResolvedRoute, value: Json) -> (r: CallError)
    ensures
        r@ == candidateless(route@, value@),
{
    let reason: Option<String> = match value.get2("promptFeedback", "blockReason") {
        Some(reason) => owned_opt(reason.as_text()),
        None => None,
    };
    match reason {
        Some(reason) => blocked_prompt(route, reason.as_str(), value),
        None => malformed_success(
            route,
            "Gemini returned no candidates in the response".to_owned(),
            Some(value),
        ),
    }
}

/// A counter, or zero without one.
pub open spec fn counter(value: JsonV, key: Seq<char>) -> u64 {
    match value.unsigned_at(key) {
        Some(value) => value,
        None => 0,
    }
}

/// Reads a counter, or zero without one.
pub fn read_counter(value: &Json, key: &str) -> (r: u64)
    ensures
        r == counter(value@, key@),
{
    match value.unsigned_at(key) {
        Some(value) => value,
        None => 0,
    }
}

/// `a + b`, and the largest `u64` where that is larger.
pub open spec fn capped(value: int) -> u64 {
    if value <= u64::MAX {
        value as u64
    } else {
        u64::MAX
    }
}

/// The disjoint buckets of `usageMetadata`: the cached tokens leave the prompt
/// count, the tool-use tokens join it, and the thoughts were never part of the
/// candidates count.
pub open spec fn usage_counts(metadata: JsonV) -> TokenCounts {
    let cache_read = counter(metadata, "cachedContentTokenCount"@);
    TokenCounts {
        input: capped(
            monus(counter(metadata, "promptTokenCount"@) as int, cache_read as int) + counter(
                metadata,
                "toolUsePromptTokenCount"@,
            ),
        ),
        output: counter(metadata, "candidatesTokenCount"@),
        reasoning: counter(metadata, "thoughtsTokenCount"@),
        cache_read,
        cache_write: 0,
    }
}

/// Normalizes `usageMetadata` into the five disjoint token buckets.
///
/// - `promptTokenCount` includes `cachedContentTokenCount`, so the cached
///   tokens are subtracted out of `input`.
/// - `toolUsePromptTokenCount` sits outside `promptTokenCount`, so it is added
///   to `input`.
/// - `candidatesTokenCount` excludes `thoughtsTokenCount`, so `output` passes
///   through and `reasoning` is taken as reported.
///
/// `cache_write` is always zero: creating a cache is a separate call.
pub fn token_counts(metadata: &Json) -> (r: TokenCounts)
    ensures
        r == usage_counts(metadata@),
{
    let cache_read: u64 = read_counter(metadata, "cachedContentTokenCount");
    TokenCounts {
        input: read_counter(metadata, "promptTokenCount").saturating_sub(
            cache_read,
        ).saturating_add(read_counter(metadata, "toolUsePromptTokenCount")),
        output: read_counter(metadata, "candidatesTokenCount"),
        reasoning: read_counter(metadata, "thoughtsTokenCount"),
        cache_read,
        cache_write: 0,
    }
}

/// The first candidate of a body.
pub open spec fn first_candidate(value: JsonV) -> Option<JsonV> {
    match value.get("candidates"@) {
        Some(candidates) => candidates.first(),
        None => None,
    }
}

/// Finds the first candidate of a body.
pub fn candidate(value: &Json) -> (r: Option<&Json>)
    ensures
        model_opt(r) == first_candidate(value@),
{
    match value.get("candidates") {
        Some(candidates) => candidates.first(),
        None => None,
    }
}

/// The response a `generateContent` body holds. Synthesized call ids are
/// scoped by the response's own id, or by the nonce when it has none.
pub open spec fn decoded(route: RouteV, value: JsonV, nonce: Seq<char>) -> Result<
    ResponseV,
    ErrorV,
> {
    let id = value.text_at("responseId"@);
    let scope = match id {
        Some(id) => id,
        None => nonce,
    };
    match first_candidate(value) {
        None => Err(candidateless(route, value)),
        Some(candidate) => Ok(
            finished(
                ResponseV {
                    provider: route.provider,
                    model: route.model,
                    id,
                    content: candidate_parts(listed_parts(candidate), scope),
                    finish_reason: candidate_finish(candidate),
                    usage: match value.get("usageMetadata"@) {
                        Some(metadata) => usage_counts(metadata),
                        None => usage_counts(JsonV::Null),
                    },
                    cost: None,
                    raw: Some(value),
                    warnings: Seq::empty(),
                },
            ),
        ),
    }
}

/// Decodes a success body, with the nonce that scopes the ids of a response
/// without one of its own.
pub fn decode_scoped(route: &ResolvedRoute, value: Json, nonce: &str) -> (r: Result<
    Response,
    CallError,
>)
    ensures
        match r {
            Ok(response) => decoded(route@, value@, nonce@) == Ok::<ResponseV, ErrorV>(response@),
            Err(error) => decoded(route@, value@, nonce@) == Err::<ResponseV, ErrorV>(error@),
        },
        first_candidate(value@) matches Some(candidate) ==> inputs_read(listed_parts(candidate)),
{
    let id: Option<String> = owned_opt(value.text_at("responseId"));
    let scope: &str = match &id {
        Some(id) => id.as_str(),
        None => nonce,
    };
    let decoded_candidate: Option<(Vec<ContentPart>, FinishReason)> = match candidate(&value) {
        Some(candidate) => Some(decode_candidate(candidate, scope)),
        None => None,
    };
    match decoded_candidate {
        None => Err(no_candidates(route, value)),
        Some((content, finish)) => {
            let usage: TokenCounts = match value.get("usageMetadata") {
                Some(metadata) => token_counts(metadata),
                None => token_counts(&Json::Null),
            };
            let mut response: Response = Response {
                provider: route.provider.id.as_str().to_owned(),
                model: route.model.id.as_str().to_owned(),
                id,
                content,
                finish_reason: finish,
                usage,
                cost: None,
                raw: Some(value),
                warnings: Vec::new(),
            };
            assert(response@.warnings =~= Seq::<WarningV>::empty());
            response.suppress_unfinished_tool_calls();
            Ok(response)
        },
    }
}

} // verus!
