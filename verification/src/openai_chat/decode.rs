//! Blocking response decoding: the choice, tool calls, usage, and the
//! provider-reported cost.

use vstd::prelude::*;
use vstd::string::*;

use super::reasoning_details::complete_details;
use super::reasoning_details::whole_details;
use crate::content::finish_of;
use crate::content::finish_reason;
use crate::content::promote_tool_finish;
use crate::content::promoted;
use crate::errors::about;
use crate::errors::malformed;
use crate::errors::malformed_success;
use crate::errors::of_provider;
use crate::errors::refusal;
use crate::errors::refused;
use crate::gemini::decode::elements;
use crate::json::lemma_model;
use crate::json::model_opt;
use crate::json::models;
use crate::json::unsigned_of;
use crate::json::Json;
use crate::json::JsonObject;
use crate::json::JsonV;
use crate::response::cost_opt;
use crate::response::disjoint_counts;
use crate::response::finished;
use crate::response::CallError;
use crate::response::Cost;
use crate::response::CostSource;
use crate::response::CostV;
use crate::response::ErrorV;
use crate::response::Response;
use crate::response::ResponseV;
use crate::response::TokenCounts;
use crate::response::WarningV;
use crate::text::lemma_ends;
use crate::text::lemma_take;
use crate::text::owned_opt;
use crate::text::string_opt;
use crate::text::text_opt;
use crate::types::lemma_result_part;
use crate::types::parts;
use crate::types::CallV;
use crate::types::ContentPart;
use crate::types::InputV;
use crate::types::PartV;
use crate::types::ReasoningContent;
use crate::types::ReasoningV;
use crate::types::ResolvedRoute;
use crate::types::RouteV;
use crate::types::ToolCall;
use crate::types::ToolCallKind;
use crate::types::ToolInput;

verus! {

broadcast use {vstd::std_specs::vec::group_vec_axioms, vstd::seq::group_seq_axioms, lemma_model, lemma_result_part};

/// The failure of a body that does not match the protocol.
pub open spec fn failed_body(route: RouteV, detail: Seq<char>, value: JsonV) -> ErrorV {
    malformed(route, of_provider(route, detail), Some(value))
}

/// Reports a body that does not match the protocol. A structurally malformed
/// body cannot be told from a garbled one, so a fresh attempt is safe.
pub fn decode_failure(route: &ResolvedRoute, detail: &str, value: Json) -> (r: CallError)
    ensures
        r@ == failed_body(route@, detail@, value@),
{
    malformed_success(route, about(route, detail), Some(value))
}

/// A text, or the empty one.
pub open spec fn text_or_empty(text: Option<Seq<char>>) -> Seq<char> {
    match text {
        Some(text) => text,
        None => Seq::empty(),
    }
}

/// Copies a text, or makes the empty one.
pub fn or_empty(text: Option<&str>) -> (r: String)
    ensures
        r@ == text_or_empty(text_opt(text)),
{
    match text {
        Some(text) => text.to_owned(),
        None => String::new(),
    }
}

/// The text of a member of a member.
pub open spec fn inner_text(value: JsonV, key: Seq<char>, inner: Seq<char>) -> Option<Seq<char>> {
    match value.get2(key, inner) {
        Some(member) => member.text(),
        None => None,
    }
}

/// Reads the text of a member of a member.
pub fn text_at2<'a>(value: &'a Json, key: &str, inner: &str) -> (r: Option<&'a str>)
    ensures
        text_opt(r) == inner_text(value@, key@, inner@),
{
    match value.get2(key, inner) {
        Some(member) => member.as_text(),
        None => None,
    }
}

/// The tool call of a response message, or what makes it unusable: a call
/// without its id cannot be answered, and one without its name cannot be
/// dispatched.
pub open spec fn call_part(call: JsonV) -> Result<PartV, Seq<char>> {
    let id = text_or_empty(call.text_at("id"@));
    let name = text_or_empty(inner_text(call, "function"@, "name"@));
    if id.len() == 0 {
        Err("returned a tool call without an id"@)
    } else if name.len() == 0 {
        Err("returned a tool call without a function name"@)
    } else {
        Ok(
            PartV::ToolCall(
                CallV {
                    id,
                    name,
                    input: InputV {
                        kind: ToolCallKind::Function,
                        raw: text_or_empty(inner_text(call, "function"@, "arguments"@)),
                    },
                    provider_metadata: Map::empty(),
                },
            ),
        )
    }
}

/// Decodes one complete tool call from a response message.
pub fn decode_tool_call(call: &Json) -> (r: Result<ContentPart, &'static str>)
    ensures
        match r {
            Ok(part) => call_part(call@) == Ok::<PartV, Seq<char>>(part@),
            Err(flaw) => call_part(call@) == Err::<PartV, Seq<char>>(flaw@),
        },
{
    let id: String = or_empty(call.text_at("id"));
    if id.as_str().is_empty() {
        return Err("returned a tool call without an id");
    }
    let name: String = or_empty(text_at2(call, "function", "name"));
    if name.as_str().is_empty() {
        return Err("returned a tool call without a function name");
    }
    let raw: String = or_empty(text_at2(call, "function", "arguments"));
    Ok(
        ContentPart::ToolCall(
            ToolCall {
                id,
                name,
                input: ToolInput::from_wire(ToolCallKind::Function, raw),
                provider_metadata: JsonObject::new(),
            },
        ),
    )
}

/// The texts of a part array, one after the other.
pub open spec fn part_texts(list: Seq<JsonV>) -> Seq<char>
    decreases list.len(),
{
    if list.len() == 0 {
        Seq::empty()
    } else {
        part_texts(list.drop_last()) + text_or_empty(list.last().text_at("text"@))
    }
}

/// A text that is not empty.
pub open spec fn some_text(text: Seq<char>) -> Option<Seq<char>> {
    if text.len() > 0 {
        Some(text)
    } else {
        None
    }
}

/// The visible text of a message or delta: `content` is a text or an array of
/// parts, and an empty text is no text.
pub open spec fn visible_text(message: JsonV) -> Option<Seq<char>> {
    match message.get("content"@) {
        Some(JsonV::Text(text)) => some_text(text),
        Some(JsonV::Array(list)) => some_text(part_texts(list)),
        _ => None,
    }
}

/// The visible text of a response message or stream delta, in either wire
/// shape.
pub fn message_text(message: &Json) -> (r: Option<String>)
    ensures
        string_opt(r) == visible_text(message@),
{
    let text: String = match message.get("content") {
        Some(Json::Text(text)) => text.as_str().to_owned(),
        Some(Json::Array(list)) => {
            let mut text: String = String::new();
            let mut i: usize = 0;
            proof {
                lemma_ends(models(list@));
            }
            while i < list.len()
                invariant
                    i <= list.len(),
                    text@ == part_texts(models(list@).take(i as int)),
                decreases list.len() - i,
            {
                proof {
                    lemma_take(models(list@), i as int);
                }
                let ghost before = text@;
                if let Some(part) = list[i].text_at("text") {
                    text.append(part);
                } else {
                    assert(before + Seq::<char>::empty() =~= before);
                }
                i = i + 1;
            }
            proof {
                lemma_ends(models(list@));
            }
            text
        },
        _ => {
            return None;
        },
    };
    if text.as_str().is_empty() {
        None
    } else {
        Some(text)
    }
}

/// A text member that is not empty.
pub open spec fn filled(value: JsonV, key: Seq<char>) -> Option<Seq<char>> {
    match value.text_at(key) {
        Some(text) => some_text(text),
        None => None,
    }
}

/// A non-empty string field, treating an empty string as absent.
pub fn non_empty<'a>(value: &'a Json, key: &str) -> (r: Option<&'a str>)
    ensures
        text_opt(r) == filled(value@, key@),
{
    match value.text_at(key) {
        Some(text) => if text.is_empty() {
            None
        } else {
            Some(text)
        },
        None => None,
    }
}

/// The reasoning text of a message, under either spelling.
pub open spec fn thought_text(message: JsonV) -> Option<Seq<char>> {
    match filled(message, "reasoning"@) {
        Some(text) => Some(text),
        None => filled(message, "reasoning_content"@),
    }
}

/// The reasoning text of a response message, in either spelling.
pub fn reasoning_text(message: &Json) -> (r: Option<String>)
    ensures
        string_opt(r) == thought_text(message@),
{
    match non_empty(message, "reasoning") {
        Some(text) => Some(text.to_owned()),
        None => owned_opt(non_empty(message, "reasoning_content")),
    }
}

/// The first counter that is there, or zero.
pub open spec fn first_count(a: Option<u64>, b: Option<u64>, c: Option<u64>) -> u64 {
    if a is Some {
        a->0
    } else if b is Some {
        b->0
    } else if c is Some {
        c->0
    } else {
        0
    }
}

/// A counter of a nested detail.
pub open spec fn detail_count(usage: JsonV, key: Seq<char>, inner: Seq<char>) -> Option<u64> {
    unsigned_of(usage.get2(key, inner))
}

/// Reads a counter of a nested detail.
pub fn count_at2(usage: &Json, key: &str, inner: &str) -> (r: Option<u64>)
    ensures
        r == detail_count(usage@, key@, inner@),
{
    match usage.get2(key, inner) {
        Some(value) => value.as_unsigned(),
        None => None,
    }
}

/// Picks the first counter that is there, or zero.
fn pick(a: Option<u64>, b: Option<u64>, c: Option<u64>) -> (r: u64)
    ensures
        r == first_count(a, b, c),
{
    match a {
        Some(count) => count,
        None => match b {
            Some(count) => count,
            None => match c {
                Some(count) => count,
                None => 0,
            },
        },
    }
}

/// The disjoint buckets of one `usage` object. A nested detail wins over its
/// flat spelling.
pub open spec fn usage_counts(usage: JsonV) -> TokenCounts {
    disjoint_counts(
        first_count(usage.unsigned_at("prompt_tokens"@), None, None),
        first_count(usage.unsigned_at("completion_tokens"@), None, None),
        first_count(
            detail_count(usage, "completion_tokens_details"@, "reasoning_tokens"@),
            usage.unsigned_at("reasoning_tokens"@),
            None,
        ),
        first_count(
            detail_count(usage, "prompt_tokens_details"@, "cached_tokens"@),
            usage.unsigned_at("prompt_cache_hit_tokens"@),
            None,
        ),
        first_count(
            detail_count(usage, "prompt_tokens_details"@, "cache_write_tokens"@),
            detail_count(usage, "prompt_tokens_details"@, "cache_creation_input_tokens"@),
            usage.unsigned_at("cache_creation_input_tokens"@),
        ),
    )
}

/// Normalizes one `usage` object into the five disjoint token buckets.
///
/// Every counter this protocol reports is inclusive. Each detail also has a
/// flat spelling that a provider may send instead, and the nested detail wins
/// when both are present. Cache writes have a third spelling, nested and flat.
pub fn token_counts(usage: &Json) -> (r: TokenCounts)
    ensures
        r == usage_counts(usage@),
{
    let reasoning: u64 = pick(
        count_at2(usage, "completion_tokens_details", "reasoning_tokens"),
        usage.unsigned_at("reasoning_tokens"),
        None,
    );
    let cache_read: u64 = pick(
        count_at2(usage, "prompt_tokens_details", "cached_tokens"),
        usage.unsigned_at("prompt_cache_hit_tokens"),
        None,
    );
    let cache_write: u64 = pick(
        count_at2(usage, "prompt_tokens_details", "cache_write_tokens"),
        count_at2(usage, "prompt_tokens_details", "cache_creation_input_tokens"),
        usage.unsigned_at("cache_creation_input_tokens"),
    );
    TokenCounts::from_inclusive(
        pick(usage.unsigned_at("prompt_tokens"), None, None),
        pick(usage.unsigned_at("completion_tokens"), None, None),
        reasoning,
        cache_read,
        cache_write,
    )
}

/// The cost a provider reported in-band: `usage.cost`, or the top-level
/// `cost.usd`.
pub open spec fn reported_cost(body: JsonV) -> Option<CostV> {
    match (body.get2("usage"@, "cost"@), body.get2("cost"@, "usd"@)) {
        (Some(JsonV::Number(usd)), _) => Some(CostV { usd, source: CostSource::Provider }),
        (_, Some(JsonV::Number(usd))) => Some(CostV { usd, source: CostSource::Provider }),
        _ => None,
    }
}

/// The cost a provider reported in-band, when it reported one.
///
/// `cost.diem` is a different currency, and `upstream_inference_cost` is not
/// what this call is billed; both are ignored.
pub fn provider_cost(body: &Json) -> (r: Option<Cost>)
    ensures
        cost_opt(r) == reported_cost(body@),
{
    if let Some(Json::Number(usd)) = body.get2("usage", "cost") {
        return Some(Cost { usd: usd.clone(), source: CostSource::Provider });
    }
    if let Some(Json::Number(usd)) = body.get2("cost", "usd") {
        return Some(Cost { usd: usd.clone(), source: CostSource::Provider });
    }
    None
}

/// The tool calls of a message, or the first flaw among them.
pub open spec fn call_parts(list: Seq<JsonV>) -> Result<Seq<PartV>, Seq<char>>
    decreases list.len(),
{
    if list.len() == 0 {
        Ok(Seq::empty())
    } else {
        match call_parts(list.drop_last()) {
            Err(flaw) => Err(flaw),
            Ok(rest) => match call_part(list.last()) {
                Ok(part) => Ok(rest.push(part)),
                Err(flaw) => Err(flaw),
            },
        }
    }
}

/// A list with an optional element at its end.
pub open spec fn push_some(list: Seq<PartV>, part: Option<PartV>) -> Seq<PartV> {
    match part {
        Some(part) => list.push(part),
        None => list,
    }
}

/// The content a message holds ahead of its tool calls: its structured
/// reasoning, its readable reasoning, and its text.
pub open spec fn spoken_parts(message: JsonV) -> Seq<PartV> {
    let list = push_some(Seq::empty(), whole_details(message));
    let list = push_some(
        list,
        match thought_text(message) {
            Some(text) => Some(
                PartV::Reasoning(
                    ReasoningV { text, signature: None, signature_origin: None, redacted: false },
                ),
            ),
            None => None,
        },
    );
    push_some(
        list,
        match visible_text(message) {
            Some(text) => Some(PartV::Text { text }),
            None => None,
        },
    )
}

/// Decodes the content a message holds ahead of its tool calls.
fn decode_spoken(message: &Json) -> (r: Vec<ContentPart>)
    ensures
        parts(r@) == spoken_parts(message@),
{
    let mut content: Vec<ContentPart> = Vec::new();
    assert(parts(content@) =~= Seq::<PartV>::empty());
    if let Some(details) = complete_details(message) {
        let ghost before = content@;
        content.push(details);
        assert(parts(content@) =~= parts(before).push(details@));
    }
    if let Some(text) = reasoning_text(message) {
        let ghost before = content@;
        let part: ContentPart = ContentPart::Reasoning(
            ReasoningContent { text, signature: None, signature_origin: None, redacted: false },
        );
        content.push(part);
        assert(parts(content@) =~= parts(before).push(part@));
    }
    if let Some(text) = message_text(message) {
        let ghost before = content@;
        let part: ContentPart = ContentPart::Text { text };
        content.push(part);
        assert(parts(content@) =~= parts(before).push(part@));
    }
    content
}

/// Decodes the tool calls of a message, up to the first flaw.
fn decode_calls(message: &Json) -> (r: Result<Vec<ContentPart>, &'static str>)
    ensures
        match r {
            Ok(list) => call_parts(message@.items_at("tool_calls"@)) == Ok::<
                Seq<PartV>,
                Seq<char>,
            >(parts(list@)),
            Err(flaw) => call_parts(message@.items_at("tool_calls"@)) == Err::<
                Seq<PartV>,
                Seq<char>,
            >(flaw@),
        },
{
    let mut content: Vec<ContentPart> = Vec::new();
    assert(parts(content@) =~= Seq::<PartV>::empty());
    let list: &Vec<Json> = match elements(message.get("tool_calls")) {
        Some(list) => list,
        None => {
            return Ok(content);
        },
    };
    let ghost all = models(list@);
    let mut i: usize = 0;
    proof {
        lemma_ends(all);
    }
    while i < list.len()
        invariant
            i <= list.len(),
            all == models(list@),
            all == message@.items_at("tool_calls"@),
            call_parts(all.take(i as int)) == Ok::<Seq<PartV>, Seq<char>>(parts(content@)),
        decreases list.len() - i,
    {
        proof {
            lemma_take(all, i as int);
        }
        match decode_tool_call(&list[i]) {
            Ok(part) => {
                let ghost before = content@;
                content.push(part);
                assert(parts(content@) =~= parts(before).push(part@));
            },
            Err(flaw) => {
                proof {
                    lemma_flaw(all, i as int);
                }
                return Err(flaw);
            },
        }
        i = i + 1;
    }
    proof {
        lemma_ends(all);
    }
    Ok(content)
}

/// A flaw among the first calls is the flaw of the whole list.
proof fn lemma_flaw(list: Seq<JsonV>, at: int)
    requires
        0 <= at < list.len(),
        call_parts(list.take(at + 1)) is Err,
    ensures
        call_parts(list) == call_parts(list.take(at + 1)),
    decreases list.len() - at,
{
    if at + 1 == list.len() {
        lemma_ends(list);
    } else {
        lemma_take(list, at + 1);
        lemma_flaw(list, at + 1);
    }
}

/// The first choice of a body.
pub open spec fn first_choice(value: JsonV) -> Option<JsonV> {
    match value.get("choices"@) {
        Some(choices) => choices.first(),
        None => None,
    }
}

/// Finds the first choice of a body.
pub fn choice(value: &Json) -> (r: Option<&Json>)
    ensures
        model_opt(r) == first_choice(value@),
{
    match value.get("choices") {
        Some(choices) => choices.first(),
        None => None,
    }
}

/// The response a completion body holds.
///
/// A body without a choice, a choice without a message object, and a call
/// without its identity fail to decode, and a refusal is a failure of its own.
pub open spec fn decoded(route: RouteV, value: JsonV) -> Result<ResponseV, ErrorV> {
    match first_choice(value) {
        None => Err(failed_body(route, "returned no choices in the response"@, value)),
        Some(choice) => match choice.get("message"@) {
            Some(JsonV::Object(object)) => {
                let message = JsonV::Object(object);
                match (
                    filled(message, "refusal"@),
                    call_parts(message.items_at("tool_calls"@)),
                ) {
                    (Some(text), _) => Err(refused(route, text, Some(value))),
                    (None, Err(flaw)) => Err(failed_body(route, flaw, value)),
                    (None, Ok(calls)) => Ok(
                        finished(
                            ResponseV {
                                provider: route.provider,
                                model: route.model,
                                id: value.text_at("id"@),
                                content: spoken_parts(message) + calls,
                                finish_reason: promoted(
                                    finish_of(choice.text_at("finish_reason"@)),
                                    calls.len() > 0,
                                ),
                                usage: match value.get("usage"@) {
                                    Some(usage) => usage_counts(usage),
                                    None => TokenCounts::zero(),
                                },
                                cost: reported_cost(value),
                                raw: Some(value),
                                warnings: Seq::empty(),
                            },
                        ),
                    ),
                }
            },
            _ => Err(failed_body(route, "returned a choice without a message object"@, value)),
        },
    }
}

/// What a completion body holds, borrowed from it.
enum Reading {
    /// The content, and why it finished.
    Answer(Vec<ContentPart>, crate::response::FinishReason),
    /// The model's explanation of a refusal.
    Refusal(String),
    /// What does not match the protocol.
    Flaw(&'static str),
}

/// What a reading is: a decoded body without its envelope.
spec fn reads(reading: Reading, value: JsonV) -> bool {
    match reading {
        Reading::Flaw(flaw) => first_choice(value) is None && flaw@
            == "returned no choices in the response"@ || first_choice(value) is Some && !(
        first_choice(value)->0.get("message"@) matches Some(JsonV::Object(_))) && flaw@
            == "returned a choice without a message object"@ || ({
            &&& first_choice(value) is Some
            &&& first_choice(value)->0.get("message"@) matches Some(JsonV::Object(object))
            &&& filled(JsonV::Object(object), "refusal"@) is None
            &&& call_parts(JsonV::Object(object).items_at("tool_calls"@)) == Err::<
                Seq<PartV>,
                Seq<char>,
            >(flaw@)
        }),
        Reading::Refusal(text) => {
            &&& first_choice(value) is Some
            &&& first_choice(value)->0.get("message"@) matches Some(JsonV::Object(object))
            &&& filled(JsonV::Object(object), "refusal"@) == Some(text@)
        },
        Reading::Answer(content, finish) => {
            &&& first_choice(value) is Some
            &&& first_choice(value)->0.get("message"@) matches Some(JsonV::Object(object))
            &&& filled(JsonV::Object(object), "refusal"@) is None
            &&& call_parts(JsonV::Object(object).items_at("tool_calls"@)) matches Ok(list)
            &&& parts(content@) == spoken_parts(JsonV::Object(object)) + list
            &&& finish@ == promoted(
                finish_of(first_choice(value)->0.text_at("finish_reason"@)),
                list.len() > 0,
            )
        },
    }
}

/// Reads the first choice of a completion body.
fn read_choice(value: &Json) -> (r: Reading)
    ensures
        reads(r, value@),
{
    let first: &Json = match choice(value) {
        Some(first) => first,
        None => {
            return Reading::Flaw("returned no choices in the response");
        },
    };
    let message: &Json = match first.get("message") {
        Some(message) => if message.is_object() {
            message
        } else {
            return Reading::Flaw("returned a choice without a message object");
        },
        None => {
            return Reading::Flaw("returned a choice without a message object");
        },
    };
    assert(first@.get("message"@) == Some(JsonV::Object(message@->Object_0)));
    if let Some(text) = non_empty(message, "refusal") {
        return Reading::Refusal(text.to_owned());
    }
    let mut content: Vec<ContentPart> = decode_spoken(message);
    match decode_calls(message) {
        Err(flaw) => Reading::Flaw(flaw),
        Ok(list) => {
            let mut list: Vec<ContentPart> = list;
            let called: bool = list.len() > 0;
            let ghost spoken = parts(content@);
            let ghost decoded_calls = parts(list@);
            content.append(&mut list);
            assert(parts(content@) =~= spoken + decoded_calls);
            Reading::Answer(
                content,
                promote_tool_finish(finish_reason(first.text_at("finish_reason")), called),
            )
        },
    }
}

/// Decodes one complete completion body.
pub fn decode_body(route: &ResolvedRoute, value: Json) -> (r: Result<Response, CallError>)
    ensures
        match r {
            Ok(response) => decoded(route@, value@) == Ok::<ResponseV, ErrorV>(response@),
            Err(error) => decoded(route@, value@) == Err::<ResponseV, ErrorV>(error@),
        },
{
    match read_choice(&value) {
        Reading::Flaw(flaw) => Err(decode_failure(route, flaw, value)),
        Reading::Refusal(text) => Err(refusal(route, text.as_str(), Some(value))),
        Reading::Answer(content, finish) => {
            let usage: TokenCounts = match value.get("usage") {
                Some(usage) => token_counts(usage),
                None => TokenCounts::none(),
            };
            let mut response: Response = Response {
                provider: route.provider.id.as_str().to_owned(),
                model: route.model.id.as_str().to_owned(),
                id: owned_opt(value.text_at("id")),
                content,
                finish_reason: finish,
                usage,
                cost: provider_cost(&value),
                raw: Some(value),
                warnings: Vec::new(),
            };
            assert(response@.warnings =~= Seq::<WarningV>::empty());
            response.suppress_unfinished_tool_calls();
            Ok(response)
        },
    }
}

} // verus!
