//! The JSON form of content and tools, for texts that hold whole parts.

use vstd::prelude::*;
use vstd::string::*;

use crate::json::lemma_model;
use crate::json::models;
use crate::json::Json;
use crate::json::JsonObject;
use crate::json::JsonV;
use crate::text::string_opt;
use crate::types::lemma_result_part;
use crate::types::parts;
use crate::types::ContentPart;
use crate::types::MediaSource;
use crate::types::Message;
use crate::types::MessageV;
use crate::types::PartV;
use crate::types::Role;
use crate::types::SourceV;
use crate::types::ToolCall;
use crate::types::ToolCallKind;
use crate::types::ToolDefinition;
use crate::types::ToolDefinitionKind;
use crate::types::ToolKindV;
use crate::types::ToolV;

verus! {

broadcast use {vstd::std_specs::vec::group_vec_axioms, vstd::seq::group_seq_axioms, lemma_model, lemma_result_part};

/// A text, or null.
pub open spec fn text_or_null(text: Option<Seq<char>>) -> JsonV {
    match text {
        Some(text) => JsonV::Text(text),
        None => JsonV::Null,
    }
}

/// Spells an optional text.
pub fn optional(text: &Option<String>) -> (r: Json)
    ensures
        r@ == text_or_null(string_opt(*text)),
{
    match text {
        Some(text) => Json::text(text.as_str()),
        None => Json::Null,
    }
}

/// The JSON form of a media source.
pub open spec fn source_envelope(source: SourceV) -> JsonV {
    match source {
        SourceV::Base64 { data, media_type } => JsonV::Object(
            map!["data"@ => JsonV::Text(data), "media_type"@ => JsonV::Text(media_type)],
        ),
        SourceV::Url { url, media_type } => JsonV::Object(
            map!["url"@ => JsonV::Text(url), "media_type"@ => text_or_null(media_type)],
        ),
    }
}

/// Spells a media source.
fn source_json(source: &MediaSource) -> (r: Json)
    ensures
        r@ == source_envelope(source@),
{
    let mut object: JsonObject = JsonObject::new();
    match source {
        MediaSource::Base64 { data, media_type } => {
            object.insert("data", Json::text(data.as_str()));
            object.insert("media_type", Json::text(media_type.as_str()));
        },
        MediaSource::Url { url, media_type } => {
            object.insert("url", Json::text(url.as_str()));
            object.insert("media_type", optional(media_type));
        },
    }
    Json::Object(object)
}

/// The JSON form of a part: its kind under `type`, and what it holds.
pub open spec fn envelope(part: PartV) -> JsonV
    decreases part,
{
    match part {
        PartV::Text { text } => JsonV::Object(
            map!["type"@ => JsonV::Text("text"@), "text"@ => JsonV::Text(text)],
        ),
        PartV::Json { value } => JsonV::Object(
            map!["type"@ => JsonV::Text("json"@), "value"@ => value],
        ),
        PartV::Image { source, detail } => JsonV::Object(
            map!["type"@ => JsonV::Text("image"@), "source"@ => source_envelope(source),
                "detail"@ => text_or_null(detail)],
        ),
        PartV::Audio { source } => JsonV::Object(
            map!["type"@ => JsonV::Text("audio"@), "source"@ => source_envelope(source)],
        ),
        PartV::Document { source, name } => JsonV::Object(
            map!["type"@ => JsonV::Text("document"@), "source"@ => source_envelope(source),
                "name"@ => text_or_null(name)],
        ),
        PartV::Reasoning(reasoning) => JsonV::Object(
            map!["type"@ => JsonV::Text("reasoning"@), "text"@ => JsonV::Text(reasoning.text),
                "signature"@ => text_or_null(reasoning.signature),
                "signature_origin"@ => text_or_null(reasoning.signature_origin),
                "redacted"@ => JsonV::Bool(reasoning.redacted)],
        ),
        PartV::ToolCall(call) => JsonV::Object(
            map!["type"@ => JsonV::Text("tool_call"@), "id"@ => JsonV::Text(call.id),
                "name"@ => JsonV::Text(call.name),
                "custom"@ => JsonV::Bool(call.input.kind == ToolCallKind::Custom),
                "input"@ => JsonV::Text(call.input.raw),
                "provider_metadata"@ => JsonV::Object(call.provider_metadata)],
        ),
        PartV::ToolResult(result) => JsonV::Object(
            map!["type"@ => JsonV::Text("tool_result"@),
                "tool_call_id"@ => JsonV::Text(result.tool_call_id),
                "name"@ => text_or_null(result.name),
                "content"@ => JsonV::Array(envelopes(result.content)),
                "is_error"@ => JsonV::Bool(result.is_error)],
        ),
        PartV::Opaque { kind, data } => JsonV::Object(
            map!["type"@ => JsonV::Text("opaque"@), "kind"@ => JsonV::Text(kind), "data"@ => data],
        ),
        PartV::Unknown(value) => value,
    }
}

/// The JSON form of each part.
pub open spec fn envelopes(content: Seq<PartV>) -> Seq<JsonV>
    decreases content,
{
    Seq::new(
        content.len(),
        |i: int| if 0 <= i < content.len() { envelope(content[i]) } else { JsonV::Null },
    )
}

/// Spells a tool call.
fn call_json(call: &ToolCall) -> (r: Json)
    ensures
        r@ == envelope(PartV::ToolCall(call@)),
{
    let mut object: JsonObject = JsonObject::new();
    object.insert("type", Json::text("tool_call"));
    object.insert("id", Json::text(call.id.as_str()));
    object.insert("name", Json::text(call.name.as_str()));
    object.insert("custom", Json::Bool(call.input.kind() == ToolCallKind::Custom));
    object.insert("input", Json::text(call.input.raw()));
    object.insert("provider_metadata", Json::Object(call.provider_metadata.copy()));
    Json::Object(object)
}

/// Spells a part as a JSON object.
pub fn part_envelope(part: &ContentPart) -> (r: Json)
    ensures
        r@ == envelope(part@),
    decreases *part,
{
    let mut object: JsonObject = JsonObject::new();
    match part {
        ContentPart::Text { text } => {
            object.insert("type", Json::text("text"));
            object.insert("text", Json::text(text.as_str()));
        },
        ContentPart::Json { value } => {
            object.insert("type", Json::text("json"));
            object.insert("value", value.copy());
        },
        ContentPart::Image(image) => {
            object.insert("type", Json::text("image"));
            object.insert("source", source_json(&image.source));
            object.insert("detail", optional(&image.detail));
        },
        ContentPart::Audio(audio) => {
            object.insert("type", Json::text("audio"));
            object.insert("source", source_json(&audio.source));
        },
        ContentPart::Document(document) => {
            object.insert("type", Json::text("document"));
            object.insert("source", source_json(&document.source));
            object.insert("name", optional(&document.name));
        },
        ContentPart::Reasoning(reasoning) => {
            object.insert("type", Json::text("reasoning"));
            object.insert("text", Json::text(reasoning.text.as_str()));
            object.insert("signature", optional(&reasoning.signature));
            object.insert("signature_origin", optional(&reasoning.signature_origin));
            object.insert("redacted", Json::Bool(reasoning.redacted));
        },
        ContentPart::ToolCall(call) => {
            return call_json(call);
        },
        ContentPart::ToolResult(result) => {
            object.insert("type", Json::text("tool_result"));
            object.insert("tool_call_id", Json::text(result.tool_call_id.as_str()));
            object.insert("name", optional(&result.name));
            object.insert("content", Json::Array(part_envelopes(&result.content)));
            object.insert("is_error", Json::Bool(result.is_error));
            assert(part@ == PartV::ToolResult(result@));
        },
        ContentPart::Opaque { kind, data } => {
            object.insert("type", Json::text("opaque"));
            object.insert("kind", Json::text(kind.as_str()));
            object.insert("data", data.copy());
        },
        ContentPart::Unknown(value) => {
            return value.copy();
        },
    }
    Json::Object(object)
}

/// Spells each part as a JSON object.
#[verifier::loop_isolation(false)]
pub fn part_envelopes(content: &Vec<ContentPart>) -> (r: Vec<Json>)
    ensures
        models(r@) == envelopes(parts(content@)),
    decreases *content,
{
    let mut list: Vec<Json> = Vec::new();
    let mut i: usize = 0;
    while i < content.len()
        invariant
            i <= content.len(),
            list.len() == i,
            forall|k: int| 0 <= k < i ==> list@[k]@ == envelope(content@[k]@),
        decreases content.len() - i,
    {
        assert(decreases_to!(*content => content[i as int]));
        list.push(part_envelope(&content[i]));
        i = i + 1;
    }
    assert(models(list@) =~= envelopes(parts(content@)));
    list
}

/// The name of a role.
pub open spec fn role_text(role: Role) -> Seq<char> {
    match role {
        Role::System => "system"@,
        Role::Developer => "developer"@,
        Role::User => "user"@,
        Role::Assistant => "assistant"@,
        Role::Tool => "tool"@,
    }
}

/// The JSON form of a message.
pub open spec fn message_envelope(message: MessageV) -> JsonV {
    JsonV::Object(
        map!["role"@ => JsonV::Text(role_text(message.role)),
            "content"@ => JsonV::Array(envelopes(message.content)),
            "name"@ => text_or_null(message.name),
            "tool_call_id"@ => text_or_null(message.tool_call_id)],
    )
}

/// Spells a message as a JSON object.
pub fn message_json(message: &Message) -> (r: Json)
    ensures
        r@ == message_envelope(message@),
{
    let role: &'static str = match message.role {
        Role::System => "system",
        Role::Developer => "developer",
        Role::User => "user",
        Role::Assistant => "assistant",
        Role::Tool => "tool",
    };
    let mut object: JsonObject = JsonObject::new();
    object.insert("role", Json::text(role));
    object.insert("content", Json::Array(part_envelopes(&message.content)));
    object.insert("name", optional(&message.name));
    object.insert("tool_call_id", optional(&message.tool_call_id));
    Json::Object(object)
}

/// The JSON form of a tool.
pub open spec fn tool_envelope(tool: ToolV) -> JsonV {
    match tool.kind {
        ToolKindV::Function { input_schema } => JsonV::Object(
            map!["name"@ => JsonV::Text(tool.name),
                "description"@ => JsonV::Text(tool.description),
                "input_schema"@ => input_schema],
        ),
        ToolKindV::Custom { format } => JsonV::Object(
            map!["name"@ => JsonV::Text(tool.name),
                "description"@ => JsonV::Text(tool.description),
                "format"@ => format],
        ),
    }
}

/// Spells a tool as a JSON object.
pub fn tool_json(tool: &ToolDefinition) -> (r: Json)
    ensures
        r@ == tool_envelope(tool@),
{
    let mut object: JsonObject = JsonObject::new();
    object.insert("name", Json::text(tool.name.as_str()));
    object.insert("description", Json::text(tool.description.as_str()));
    match &tool.kind {
        ToolDefinitionKind::Function { input_schema } => {
            object.insert("input_schema", input_schema.copy());
        },
        ToolDefinitionKind::Custom { format } => {
            object.insert("format", format.copy());
        },
    }
    Json::Object(object)
}

} // verus!
