//! Response document decoding: output items, tool-call identity, and usage.

use vstd::prelude::*;
use vstd::string::*;

use super::encode::MESSAGE_KIND;
use super::encode::NAMESPACE;
use super::encode::REASONING_KIND;
use crate::body::object1;
use crate::body::single;
use crate::errors::about;
use crate::errors::malformed;
use crate::errors::malformed_success;
use crate::errors::of_provider;
use crate::errors::refusal;
use crate::errors::refused;
use crate::gemini::decode::elements;
use crate::json::lemma_model;
use crate::json::model_opt;
use crate::json::models;
use crate::json::Json;
use crate::json::JsonObject;
use crate::json::JsonV;
use crate::openai_chat::decode::count_at2;
use crate::openai_chat::decode::detail_count;
use crate::openai_chat::decode::filled;
use crate::openai_chat::decode::first_count;
use crate::openai_chat::decode::inner_text;
use crate::openai_chat::decode::non_empty;
use crate::openai_chat::decode::or_empty;
use crate::openai_chat::decode::some_text;
use crate::openai_chat::decode::text_at2;
use crate::openai_chat::decode::text_or_empty;
use crate::response::disjoint_counts;
use crate::response::finished;
use crate::response::CallError;
use crate::response::ErrorV;
use crate::response::FinishReason;
use crate::response::FinishV;
use crate::response::Response;
use crate::response::ResponseV;
use crate::response::TokenCounts;
use crate::response::WarningV;
use crate::text::join;
use crate::text::join_texts;
use crate::text::lemma_ends;
use crate::text::lemma_take;
use crate::text::owned_opt;
use crate::text::same;
use crate::text::string_opt;
use crate::text::texts;
use crate::types::lemma_result_part;
use crate::types::parts;
use crate::types::CallV;
use crate::types::ContentPart;
use crate::types::InputV;
use crate::types::PartV;
use crate::types::ReasoningContent;
use crate::types::ReasoningV;
use crate::types::ResolvedRoute;
use crate::types::RouteV;
use crate::types::ToolCall;
use crate::types::ToolCallKind;
use crate::types::ToolInput;

verus! {

broadcast use {vstd::std_specs::vec::group_vec_axioms, vstd::seq::group_seq_axioms, lemma_model, lemma_result_part};

/// Whether a value has a type.
pub open spec fn typed(value: JsonV, kind: Seq<char>) -> bool {
    value.text_at("type"@) == Some(kind)
}

/// Tells whether a value has a type.
pub fn has_type(value: &Json, kind: &str) -> (r: bool)
    ensures
        r == typed(value@, kind@),
{
    match value.text_at("type") {
        Some(text) => same(text, kind),
        None => false,
    }
}

/// The failure of a document that does not match the protocol.
pub open spec fn failed_document(route: RouteV, detail: Seq<char>, raw: JsonV) -> ErrorV {
    malformed(route, of_provider(route, detail), Some(raw))
}

/// The error a malformed success body produces.
pub fn decode_error(route: &ResolvedRoute, detail: &str, raw: Json) -> (r: CallError)
    ensures
        r@ == failed_document(route@, detail@, raw@),
{
    malformed_success(route, about(route, detail), Some(raw))
}

/// The texts of the visible parts of a message item, one after the other.
pub open spec fn output_texts(list: Seq<JsonV>) -> Seq<char>
    decreases list.len(),
{
    if list.len() == 0 {
        Seq::empty()
    } else if typed(list.last(), "output_text"@) {
        output_texts(list.drop_last()) + text_or_empty(list.last().text_at("text"@))
    } else {
        output_texts(list.drop_last())
    }
}

/// The visible text of one `message` output item.
pub fn message_text(item: &Json) -> (r: String)
    ensures
        r@ == output_texts(item@.items_at("content"@)),
{
    let mut text: String = String::new();
    let list: &Vec<Json> = match elements(item.get("content")) {
        Some(list) => list,
        None => {
            return text;
        },
    };
    let ghost all = models(list@);
    let mut i: usize = 0;
    proof {
        lemma_ends(all);
    }
    while i < list.len()
        invariant
            i <= list.len(),
            all == models(list@),
            text@ == output_texts(all.take(i as int)),
        decreases list.len() - i,
    {
        proof {
            lemma_take(all, i as int);
        }
        let ghost before = text@;
        if has_type(&list[i], "output_text") {
            if let Some(part) = list[i].text_at("text") {
                text.append(part);
            } else {
                assert(before + Seq::<char>::empty() =~= before);
            }
        }
        i = i + 1;
    }
    proof {
        lemma_ends(all);
    }
    text
}

/// The first of two texts that is there.
pub open spec fn either(a: Option<Seq<char>>, b: Option<Seq<char>>) -> Option<Seq<char>> {
    if a is Some {
        a
    } else {
        b
    }
}

/// The input text of a call item.
pub open spec fn call_input(item: JsonV, kind: ToolCallKind) -> Seq<char> {
    match kind {
        ToolCallKind::Function => text_or_empty(item.text_at("arguments"@)),
        ToolCallKind::Custom => text_or_empty(item.text_at("input"@)),
    }
}

/// The metadata that keeps a call's item id.
pub open spec fn item_metadata(item_id: Seq<char>) -> JsonV {
    single("item_id"@, JsonV::Text(item_id))
}

/// Whether a call item has an item id of its own beside its call id.
pub open spec fn has_own_id(item: JsonV) -> bool {
    item.text_at("call_id"@) is Some && item.text_at("id"@) is Some && item.text_at("call_id"@)
        != item.text_at("id"@)
}

/// The tool call an output item holds. The call id is its identity, and an
/// item id beside it is kept for replay.
pub open spec fn call_of(item: JsonV, kind: ToolCallKind) -> CallV {
    CallV {
        id: text_or_empty(either(item.text_at("call_id"@), item.text_at("id"@))),
        name: text_or_empty(item.text_at("name"@)),
        input: InputV { kind, raw: call_input(item, kind) },
        provider_metadata: if has_own_id(item) {
            Map::empty().insert(NAMESPACE@, item_metadata(item.text_at("id"@)->0))
        } else {
            Map::empty()
        },
    }
}

/// Decodes one `function_call` or `custom_tool_call` output item.
///
/// `call_id` is the identity a tool result answers, so it is the canonical id.
/// The item id is a second identifier the protocol needs when the call is
/// replayed, so it is kept in this codec's metadata namespace when it differs.
pub fn decode_tool_call(item: &Json, kind: ToolCallKind) -> (r: ToolCall)
    ensures
        r@ == call_of(item@, kind),
{
    let call_id: Option<&str> = item.text_at("call_id");
    let item_id: Option<&str> = item.text_at("id");
    let raw: String = match kind {
        ToolCallKind::Function => or_empty(item.text_at("arguments")),
        ToolCallKind::Custom => or_empty(item.text_at("input")),
    };
    let id: String = match call_id {
        Some(id) => id.to_owned(),
        None => or_empty(item_id),
    };
    let mut metadata: JsonObject = JsonObject::new();
    if let (Some(call_id), Some(item_id)) = (call_id, item_id) {
        if !same(call_id, item_id) {
            metadata.insert(NAMESPACE, object1("item_id", Json::text(item_id)));
        }
    }
    ToolCall {
        id,
        name: or_empty(item.text_at("name")),
        input: ToolInput::from_wire(kind, raw),
        provider_metadata: metadata,
    }
}

/// The non-empty texts of the entries of a type, in order.
pub open spec fn entry_texts(list: Seq<JsonV>, kind: Seq<char>) -> Seq<Seq<char>>
    decreases list.len(),
{
    if list.len() == 0 {
        Seq::empty()
    } else {
        let rest = entry_texts(list.drop_last(), kind);
        match list.last().text_at("text"@) {
            Some(text) if typed(list.last(), kind) && text.len() > 0 => rest.push(text),
            _ => rest,
        }
    }
}

/// The texts of the entries of a type, joined by blank lines.
pub open spec fn joined_entries(list: Seq<JsonV>, kind: Seq<char>) -> Seq<char> {
    join(entry_texts(list, kind), "\n\n"@)
}

/// Joins the texts of the entries of a type.
fn join_entries(list: Option<&Json>, kind: &str) -> (r: String)
    ensures
        r@ == joined_entries(crate::json::items_of(model_opt(list)), kind@),
{
    let mut kept: Vec<String> = Vec::new();
    assert(texts(kept@) =~= Seq::<Seq<char>>::empty());
    if let Some(list) = elements(list) {
        let ghost all = models(list@);
        let mut i: usize = 0;
        proof {
            lemma_ends(all);
        }
        while i < list.len()
            invariant
                i <= list.len(),
                all == models(list@),
                texts(kept@) == entry_texts(all.take(i as int), kind@),
            decreases list.len() - i,
        {
            proof {
                lemma_take(all, i as int);
            }
            if has_type(&list[i], kind) {
                if let Some(text) = list[i].text_at("text") {
                    if !text.is_empty() {
                        let ghost before = kept@;
                        let text: String = text.to_owned();
                        kept.push(text);
                        assert(texts(kept@) =~= texts(before).push(text@));
                    }
                }
            }
            i = i + 1;
        }
        proof {
            lemma_ends(all);
        }
    }
    join_texts(&kept, "\n\n")
}

/// The reasoning text of an item: its trace when it has one, and otherwise its
/// summary.
pub open spec fn thought_text(item: JsonV) -> Option<Seq<char>> {
    let trace = joined_entries(item.items_at("content"@), "reasoning_text"@);
    let summary = joined_entries(item.items_at("summary"@), "summary_text"@);
    either(some_text(trace), some_text(summary))
}

/// The reasoning text of one `reasoning` output item, or `None` when it
/// carries none.
///
/// The `reasoning_text` entries of `content` are the trace itself and win when
/// present. Otherwise the `summary_text` blocks stand in. Either list is
/// joined by a blank line, and entries of any other type are skipped.
pub fn reasoning_text(item: &Json) -> (r: Option<String>)
    ensures
        string_opt(r) == thought_text(item@),
{
    let trace: String = join_entries(item.get("content"), "reasoning_text");
    if !trace.as_str().is_empty() {
        return Some(trace);
    }
    let summary: String = join_entries(item.get("summary"), "summary_text");
    if !summary.as_str().is_empty() {
        return Some(summary);
    }
    None
}

/// A list with an optional element at its end.
pub open spec fn push_some(list: Seq<PartV>, part: Option<PartV>) -> Seq<PartV> {
    match part {
        Some(part) => list.push(part),
        None => list,
    }
}

/// The readable part of a reasoning item.
pub open spec fn thought_part(item: JsonV) -> Option<PartV> {
    match thought_text(item) {
        Some(text) => Some(
            PartV::Reasoning(
                ReasoningV { text, signature: None, signature_origin: None, redacted: false },
            ),
        ),
        None => None,
    }
}

/// The visible part of a message item.
pub open spec fn visible_part(item: JsonV) -> Option<PartV> {
    let text = output_texts(item.items_at("content"@));
    if text.len() > 0 {
        Some(PartV::Text { text })
    } else {
        None
    }
}

/// The kind of call an item is, when it is one.
pub open spec fn call_kind(item: JsonV) -> Option<ToolCallKind> {
    if typed(item, "function_call"@) {
        Some(ToolCallKind::Function)
    } else if typed(item, "custom_tool_call"@) {
        Some(ToolCallKind::Custom)
    } else {
        None
    }
}

/// Tells which kind of call an item is.
pub fn find_call_kind(item: &Json) -> (r: Option<ToolCallKind>)
    ensures
        r == call_kind(item@),
{
    if has_type(item, "function_call") {
        Some(ToolCallKind::Function)
    } else if has_type(item, "custom_tool_call") {
        Some(ToolCallKind::Custom)
    } else {
        None
    }
}

/// The content with that of one output item added.
///
/// A message adds its visible text and the whole item, a reasoning item adds
/// its readable text and the whole item, a named call adds itself, and any
/// other item adds nothing.
pub open spec fn with_item(content: Seq<PartV>, item: JsonV) -> Seq<PartV> {
    if typed(item, "message"@) {
        push_some(content, visible_part(item)).push(
            PartV::Opaque { kind: MESSAGE_KIND@, data: item },
        )
    } else if call_kind(item) is Some {
        let call = call_of(item, call_kind(item)->0);
        if call.name.len() > 0 {
            content.push(PartV::ToolCall(call))
        } else {
            content
        }
    } else if typed(item, "reasoning"@) {
        push_some(content, thought_part(item)).push(
            PartV::Opaque { kind: REASONING_KIND@, data: item },
        )
    } else {
        content
    }
}

/// The content of a list of output items.
pub open spec fn output_parts(list: Seq<JsonV>) -> Seq<PartV>
    decreases list.len(),
{
    if list.len() == 0 {
        Seq::empty()
    } else {
        with_item(output_parts(list.drop_last()), list.last())
    }
}

/// Adds one part to a list.
fn add_part(content: &mut Vec<ContentPart>, part: ContentPart)
    ensures
        parts(final(content)@) == parts(old(content)@).push(part@),
{
    let ghost before = parts(content@);
    content.push(part);
    assert(parts(content@) =~= before.push(part@));
}

/// Decodes the `output` array of a complete response document.
///
/// A `message` item contributes both its visible text and the whole item,
/// because only the original item replays. A tool call with no name is a
/// model-internal item and is dropped.
pub fn decode_output(value: &Json) -> (r: Vec<ContentPart>)
    ensures
        parts(r@) == output_parts(value@.items_at("output"@)),
{
    let mut content: Vec<ContentPart> = Vec::new();
    assert(parts(content@) =~= Seq::<PartV>::empty());
    let list: &Vec<Json> = match elements(value.get("output")) {
        Some(list) => list,
        None => {
            return content;
        },
    };
    let ghost all = models(list@);
    let mut i: usize = 0;
    proof {
        lemma_ends(all);
    }
    while i < list.len()
        invariant
            i <= list.len(),
            all == models(list@),
            parts(content@) == output_parts(all.take(i as int)),
        decreases list.len() - i,
    {
        proof {
            lemma_take(all, i as int);
        }
        let item: &Json = &list[i];
        if has_type(item, "message") {
            let text: String = message_text(item);
            if !text.as_str().is_empty() {
                add_part(&mut content, ContentPart::Text { text });
            }
            add_part(&mut content, ContentPart::opaque(MESSAGE_KIND, item.copy()));
        } else if let Some(kind) = find_call_kind(item) {
            let call: ToolCall = decode_tool_call(item, kind);
            if !call.name.as_str().is_empty() {
                add_part(&mut content, ContentPart::ToolCall(call));
            }
        } else if has_type(item, "reasoning") {
            if let Some(text) = reasoning_text(item) {
                add_part(
                    &mut content,
                    ContentPart::Reasoning(
                        ReasoningContent {
                            text,
                            signature: None,
                            signature_origin: None,
                            redacted: false,
                        },
                    ),
                );
            }
            add_part(&mut content, ContentPart::opaque(REASONING_KIND, item.copy()));
        }
        i = i + 1;
    }
    proof {
        lemma_ends(all);
    }
    content
}

/// The first refusal among the parts of a message item. An empty one is none.
pub open spec fn part_refusal(list: Seq<JsonV>) -> Option<Seq<char>>
    decreases list.len(),
{
    if list.len() == 0 {
        None
    } else {
        match part_refusal(list.drop_last()) {
            Some(text) => Some(text),
            None => if typed(list.last(), "refusal"@) {
                filled(list.last(), "refusal"@)
            } else {
                None
            },
        }
    }
}

/// The first refusal among the message items of a list.
pub open spec fn item_refusal(list: Seq<JsonV>) -> Option<Seq<char>>
    decreases list.len(),
{
    if list.len() == 0 {
        None
    } else {
        match item_refusal(list.drop_last()) {
            Some(text) => Some(text),
            None => if typed(list.last(), "message"@) {
                part_refusal(list.last().items_at("content"@))
            } else {
                None
            },
        }
    }
}

/// The refusal a document carries: the first one that is not empty.
pub open spec fn document_refusal(value: JsonV) -> Option<Seq<char>> {
    item_refusal(value.items_at("output"@))
}

/// Finds the first refusal among the parts of a message item.
fn find_part_refusal(item: &Json) -> (r: Option<String>)
    ensures
        string_opt(r) == part_refusal(item@.items_at("content"@)),
{
    let list: &Vec<Json> = match elements(item.get("content")) {
        Some(list) => list,
        None => {
            return None;
        },
    };
    let ghost all = models(list@);
    let mut found: Option<String> = None;
    let mut i: usize = 0;
    proof {
        lemma_ends(all);
    }
    while i < list.len()
        invariant
            i <= list.len(),
            all == models(list@),
            string_opt(found) == part_refusal(all.take(i as int)),
        decreases list.len() - i,
    {
        proof {
            lemma_take(all, i as int);
        }
        if found.is_none() && has_type(&list[i], "refusal") {
            found = owned_opt(non_empty(&list[i], "refusal"));
        }
        i = i + 1;
    }
    proof {
        lemma_ends(all);
    }
    found
}

/// The refusal text carried by a document's message items, if any.
///
/// A non-empty `refusal` content part means the model declined instead of
/// answering; an empty one is treated as absent.
pub fn refusal_text(value: &Json) -> (r: Option<String>)
    ensures
        string_opt(r) == document_refusal(value@),
{
    let list: &Vec<Json> = match elements(value.get("output")) {
        Some(list) => list,
        None => {
            return None;
        },
    };
    let ghost all = models(list@);
    let mut found: Option<String> = None;
    let mut i: usize = 0;
    proof {
        lemma_ends(all);
    }
    while i < list.len()
        invariant
            i <= list.len(),
            all == models(list@),
            string_opt(found) == item_refusal(all.take(i as int)),
        decreases list.len() - i,
    {
        proof {
            lemma_take(all, i as int);
        }
        if found.is_none() && has_type(&list[i], "message") {
            found = find_part_refusal(&list[i]);
        }
        i = i + 1;
    }
    proof {
        lemma_ends(all);
    }
    found
}

/// Whether content holds a tool call.
pub open spec fn has_call(content: Seq<PartV>) -> bool {
    exists|i: int| 0 <= i < content.len() && #[trigger] content[i] is ToolCall
}

/// Tells whether content holds a tool call.
pub fn holds_call(content: &Vec<ContentPart>) -> (r: bool)
    ensures
        r == has_call(parts(content@)),
{
    let mut i: usize = 0;
    while i < content.len()
        invariant
            i <= content.len(),
            forall|k: int| 0 <= k < i ==> !(#[trigger] parts(content@)[k] is ToolCall),
        decreases content.len() - i,
    {
        assert(parts(content@)[i as int] == content@[i as int]@);
        if matches!(&content[i], ContentPart::ToolCall(_)) {
            return true;
        }
        i = i + 1;
    }
    false
}

/// The finish reason a document's status names. A completed document that
/// called a tool stopped for it, and a status without a meaning here is kept.
pub open spec fn status_finish(value: JsonV, calls: bool) -> FinishV {
    match value.text_at("status"@) {
        Some(status) => if status == "incomplete"@ {
            if inner_text(value, "incomplete_details"@, "reason"@) == Some("content_filter"@) {
                FinishV::ContentFilter
            } else {
                FinishV::Length
            }
        } else if status == "failed"@ {
            FinishV::Error
        } else if status != "completed"@ {
            FinishV::Other(status)
        } else if calls {
            FinishV::ToolCall
        } else {
            FinishV::Stop
        },
        None => if calls {
            FinishV::ToolCall
        } else {
            FinishV::Stop
        },
    }
}

/// Normalizes the response status into a finish reason.
///
/// The protocol has no separate stop reason. A status this library does not
/// name keeps the provider's own spelling.
pub fn decode_finish_reason(value: &Json, calls: bool) -> (r: FinishReason)
    ensures
        r@ == status_finish(value@, calls),
{
    if let Some(status) = value.text_at("status") {
        if same(status, "incomplete") {
            if let Some(reason) = text_at2(value, "incomplete_details", "reason") {
                if same(reason, "content_filter") {
                    return FinishReason::ContentFilter;
                }
            }
            return FinishReason::Length;
        }
        if same(status, "failed") {
            return FinishReason::Error;
        }
        if !same(status, "completed") {
            return FinishReason::Other(status.to_owned());
        }
    }
    if calls {
        FinishReason::ToolCall
    } else {
        FinishReason::Stop
    }
}

/// The disjoint buckets of a `usage` object.
pub open spec fn usage_counts(usage: JsonV) -> TokenCounts {
    disjoint_counts(
        first_count(usage.unsigned_at("input_tokens"@), None, None),
        first_count(usage.unsigned_at("output_tokens"@), None, None),
        first_count(
            detail_count(usage, "output_tokens_details"@, "reasoning_tokens"@),
            None,
            None,
        ),
        first_count(detail_count(usage, "input_tokens_details"@, "cached_tokens"@), None, None),
        first_count(
            detail_count(usage, "input_tokens_details"@, "cache_write_tokens"@),
            None,
            None,
        ),
    )
}

/// Normalizes the inclusive usage counters into disjoint buckets.
///
/// `input_tokens` includes the cached and cache-written tokens, and
/// `output_tokens` includes the reasoning tokens.
pub fn token_counts(usage: &Json) -> (r: TokenCounts)
    ensures
        r == usage_counts(usage@),
{
    let input: u64 = match usage.unsigned_at("input_tokens") {
        Some(count) => count,
        None => 0,
    };
    let output: u64 = match usage.unsigned_at("output_tokens") {
        Some(count) => count,
        None => 0,
    };
    let reasoning: u64 = match count_at2(usage, "output_tokens_details", "reasoning_tokens") {
        Some(count) => count,
        None => 0,
    };
    let cache_read: u64 = match count_at2(usage, "input_tokens_details", "cached_tokens") {
        Some(count) => count,
        None => 0,
    };
    let cache_write: u64 = match count_at2(usage, "input_tokens_details", "cache_write_tokens") {
        Some(count) => count,
        None => 0,
    };
    TokenCounts::from_inclusive(input, output, reasoning, cache_read, cache_write)
}

/// The response a document holds.
///
/// A body that is no object, or that has no `output` array, is no response
/// document, and a refusal is a failure of its own.
pub open spec fn decoded(route: RouteV, value: JsonV) -> Result<ResponseV, ErrorV> {
    if !(value is Object) {
        Err(failed_document(route, "returned a response body that is not a JSON object"@, value))
    } else if !(value.get("output"@) matches Some(JsonV::Array(_))) {
        Err(failed_document(route, "returned a 200 body without a Responses output array"@, value))
    } else {
        match document_refusal(value) {
            Some(text) => Err(refused(route, text, Some(value))),
            None => {
                let content = output_parts(value.items_at("output"@));
                Ok(
                    finished(
                        ResponseV {
                            provider: route.provider,
                            model: route.model,
                            id: value.text_at("id"@),
                            content,
                            finish_reason: status_finish(value, has_call(content)),
                            usage: match value.get("usage"@) {
                                Some(usage) => usage_counts(usage),
                                None => TokenCounts::zero(),
                            },
                            cost: None,
                            raw: Some(value),
                            warnings: Seq::empty(),
                        },
                    ),
                )
            },
        }
    }
}

/// Decodes one complete response document.
pub fn decode_document(route: &ResolvedRoute, value: Json) -> (r: Result<Response, CallError>)
    ensures
        match r {
            Ok(response) => decoded(route@, value@) == Ok::<ResponseV, ErrorV>(response@),
            Err(error) => decoded(route@, value@) == Err::<ResponseV, ErrorV>(error@),
        },
{
    if !value.is_object() {
        return Err(
            decode_error(route, "returned a response body that is not a JSON object", value),
        );
    }
    let listed: bool = match value.get("output") {
        Some(output) => output.is_array(),
        None => false,
    };
    if !listed {
        return Err(
            decode_error(route, "returned a 200 body without a Responses output array", value),
        );
    }
    if let Some(text) = refusal_text(&value) {
        return Err(refusal(route, text.as_str(), Some(value)));
    }
    let content: Vec<ContentPart> = decode_output(&value);
    let finish: FinishReason = decode_finish_reason(&value, holds_call(&content));
    let usage: TokenCounts = match value.get("usage") {
        Some(usage) => token_counts(usage),
        None => TokenCounts::none(),
    };
    let mut response: Response = Response {
        provider: route.provider.id.as_str().to_owned(),
        model: route.model.id.as_str().to_owned(),
        id: owned_opt(value.text_at("id")),
        content,
        finish_reason: finish,
        usage,
        cost: None,
        raw: Some(value),
        warnings: Vec::new(),
    };
    assert(response@.warnings =~= Seq::<WarningV>::empty());
    response.suppress_unfinished_tool_calls();
    Ok(response)
}

/// Whether an output item is a tool call the caller cannot answer.
pub open spec fn internal(item: JsonV) -> bool {
    call_kind(item) is Some && text_or_empty(item.text_at("name"@)).len() == 0
}

/// Tells whether an output item is a tool call the caller cannot answer.
///
/// A `function_call` with no name is model-internal. It has no tool to route
/// to and no result to send back.
pub fn is_internal_call(item: &Json) -> (r: bool)
    ensures
        r == internal(item@),
{
    if find_call_kind(item).is_none() {
        return false;
    }
    match item.text_at("name") {
        Some(name) => name.is_empty(),
        None => true,
    }
}

} // verus!
