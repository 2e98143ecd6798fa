//! Request encoding: the `generateContent` body and its parts.

use vstd::prelude::*;
use vstd::string::*;

use super::identity::find_name;
use super::identity::history_names;
use super::identity::name_of;
use super::identity::pairs;
use super::identity::tool_call_names;
use crate::body::array1;
use crate::body::count;
use crate::body::count_value;
use crate::body::numeral;
use crate::body::number_value;
use crate::body::object1;
use crate::body::put;
use crate::body::single;
use crate::body::text_list;
use crate::body::texts_value;
use crate::body::with_member;
use crate::content::all_json;
use crate::content::carries_foreign;
use crate::content::collect_values;
use crate::content::flattens_results;
use crate::content::flattens_system;
use crate::content::flattens_system_content;
use crate::content::flattens_tool_result_content;
use crate::content::foreign_signature;
use crate::content::json_only;
use crate::content::json_values;
use crate::content::plain;
use crate::content::plain_text;
use crate::content::push_turn;
use crate::content::system_text;
use crate::content::system_texts;
use crate::content::turn_values;
use crate::content::TurnV;
use crate::content::Turns;
use crate::content::GEMINI_SIGNATURES;
use crate::errors::unsupported;
use crate::errors::unsupported_capability;
use crate::json::lemma_model;
use crate::json::models;
use crate::json::owned_model_opt;
use crate::json::Json;
use crate::json::JsonObject;
use crate::json::JsonV;
use crate::options::endpoint;
use crate::options::joined_url;
use crate::options::merge_options;
use crate::options::merged;
use crate::options::route_options;
use crate::options::wire_map;
use crate::options::wire_options;
use crate::response::CallError;
use crate::response::EncodedRequest;
use crate::response::EncodedV;
use crate::response::ErrorV;
use crate::response::Method;
use crate::response::WarningV;
use crate::serial::print;
use crate::serial::printed;
use crate::text::concat2;
use crate::text::concat3;
use crate::text::join;
use crate::text::lemma_ends;
use crate::text::lemma_take;
use crate::text::same;
use crate::text::strs;
use crate::types::input_value;
use crate::types::lemma_result_part;
use crate::types::messages;
use crate::types::opaque_namespace;
use crate::types::parts;
use crate::types::tools;
use crate::types::CallV;
use crate::types::ChoiceV;
use crate::types::ContentPart;
use crate::types::FormatV;
use crate::types::MediaSource;
use crate::types::Message;
use crate::types::MessageV;
use crate::types::PartV;
use crate::types::ReasoningContent;
use crate::types::ReasoningEffort;
use crate::types::ReasoningV;
use crate::types::Request;
use crate::types::RequestV;
use crate::types::ResolvedCall;
use crate::types::ResolvedRoute;
use crate::types::ResponseFormat;
use crate::types::ResultV;
use crate::types::Role;
use crate::types::RouteV;
use crate::types::SourceV;
use crate::types::ToolCall;
use crate::types::ToolChoice;
use crate::types::ToolDefinition;
use crate::types::ToolDefinitionKind;
use crate::types::ToolResult;
use crate::types::ToolV;

verus! {

broadcast use {vstd::std_specs::vec::group_vec_axioms, vstd::seq::group_seq_axioms, lemma_model, lemma_result_part};

/// The replay namespace this codec claims: the only opaque namespace and
/// metadata key it reads or writes.
pub const NAMESPACE: &'static str = "gemini";

/// The URL of one `models/{model}:{operation}` endpoint.
pub open spec fn model_url(route: RouteV, operation: Seq<char>) -> Seq<char> {
    joined_url(route.base_url, "/v1beta/models/"@ + route.api_model + ":"@ + operation)
}

/// The URL of one `models/{model}:{operation}` endpoint.
pub fn model_endpoint(route: &ResolvedRoute, operation: &str) -> (r: String)
    ensures
        r@ == model_url(route@, operation@),
{
    let mut path: String = concat3("/v1beta/models/", route.model.api_model.as_str(), ":");
    path.append(operation);
    endpoint(route.provider.base_url.as_str(), path.as_str())
}

/// Whether the route's model takes named `thinkingLevel` values.
pub fn takes_thinking_levels(route: &ResolvedRoute) -> (r: bool)
    ensures
        r == route@.reasoning_effort_levels,
{
    route.model.reasoning_effort_levels
}

/// A list with one more element where a condition holds.
pub open spec fn push_if(
    list: Seq<Seq<char>>,
    condition: bool,
    element: Seq<char>,
) -> Seq<Seq<char>> {
    if condition {
        list.push(element)
    } else {
        list
    }
}

/// Adds a control to a list where a condition holds.
pub fn note(list: &mut Vec<&'static str>, condition: bool, control: &'static str)
    ensures
        strs(final(list)@) == push_if(strs(old(list)@), condition, control@),
{
    if condition {
        let ghost before = strs(list@);
        list.push(control);
        assert(strs(list@) =~= before.push(control@));
    }
}

/// The controls of a request that the body does not carry.
pub open spec fn lost_controls(request: RequestV, route: RouteV) -> Seq<Seq<char>> {
    let list = Seq::<Seq<char>>::empty();
    let list = push_if(list, request.metadata.len() > 0, "request metadata"@);
    let list = push_if(list, flattens_system(request.messages), "non-text system content"@);
    let list = push_if(list, flattens_results(request.messages), "non-text tool result content"@);
    let list = push_if(list, request.speed is Some, "the speed control"@);
    let list = push_if(
        list,
        request.reasoning_effort is Some && !route.reasoning_effort_levels,
        "the reasoning effort control"@,
    );
    push_if(
        list,
        carries_foreign(request.messages, GEMINI_SIGNATURES@),
        "reasoning signed by another provider"@,
    )
}

/// The portable controls this request carries that the body did not encode.
///
/// - Request metadata has no field in this protocol.
/// - The `systemInstruction` field takes text only.
/// - An all-JSON tool result rides `functionResponse.response` natively, so
///   only a mix that must flatten is reported.
/// - This protocol has no latency tier.
/// - Routes that do not take named thinking levels do not take an effort.
/// - A reasoning part signed by another provider is skipped.
pub fn dropped_controls(call: &ResolvedCall) -> (r: Vec<&'static str>)
    ensures
        strs(r@) == lost_controls(call.request@, call.route@),
{
    let request: &Request = &call.request;
    let mut dropped: Vec<&'static str> = Vec::new();
    assert(strs(dropped@) =~= Seq::<Seq<char>>::empty());
    note(&mut dropped, request.metadata.len() > 0, "request metadata");
    note(&mut dropped, flattens_system_content(request), "non-text system content");
    note(&mut dropped, flattens_tool_result_content(request), "non-text tool result content");
    note(&mut dropped, request.speed.is_some(), "the speed control");
    note(
        &mut dropped,
        request.reasoning_effort.is_some() && !takes_thinking_levels(&call.route),
        "the reasoning effort control",
    );
    note(
        &mut dropped,
        request.carries_foreign_signature(GEMINI_SIGNATURES),
        "reasoning signed by another provider",
    );
    dropped
}

/// The declaration of a function tool.
pub open spec fn declaration(tool: ToolV) -> JsonV {
    JsonV::Object(
        map!["name"@ => JsonV::Text(tool.name),
            "description"@ => JsonV::Text(tool.description),
            "parametersJsonSchema"@ => tool.kind->input_schema],
    )
}

/// Whether a request declares a custom tool.
pub open spec fn has_custom(list: Seq<ToolV>) -> bool {
    exists|i: int| 0 <= i < list.len() && (#[trigger] list[i]).kind is Custom
}

/// The `functionDeclarations` for the request's tools, or the refusal of a
/// custom tool.
pub open spec fn declared(list: Seq<ToolV>, route: RouteV) -> Result<Seq<JsonV>, ErrorV> {
    if has_custom(list) {
        Err(unsupported(route, "custom tools"@))
    } else {
        Ok(Seq::new(list.len(), |i: int| declaration(list[i])))
    }
}

/// The `functionDeclarations` for the request's tools.
///
/// A custom tool is refused: this protocol has function tools only, and a
/// custom tool is never downgraded.
pub fn function_declarations(request: &Request, route: &ResolvedRoute) -> (r: Result<
    Vec<Json>,
    CallError,
>)
    ensures
        match r {
            Ok(list) => declared(request@.tools, route@) == Ok::<Seq<JsonV>, ErrorV>(
                models(list@),
            ),
            Err(error) => declared(request@.tools, route@) == Err::<Seq<JsonV>, ErrorV>(error@),
        },
{
    let definitions: &Vec<ToolDefinition> = &request.tools;
    let mut list: Vec<Json> = Vec::new();
    let mut i: usize = 0;
    while i < definitions.len()
        invariant
            i <= definitions.len(),
            list.len() == i,
            *definitions == request.tools,
            forall|k: int|
                0 <= k < i ==> !((#[trigger] request@.tools[k]).kind is Custom) && list@[k]@
                    == declaration(request@.tools[k]),
        decreases definitions.len() - i,
    {
        assert(request@.tools[i as int] == definitions@[i as int]@);
        match &definitions[i].kind {
            ToolDefinitionKind::Function { input_schema } => {
                let mut object: JsonObject = JsonObject::new();
                object.insert("name", Json::text(definitions[i].name.as_str()));
                object.insert("description", Json::text(definitions[i].description.as_str()));
                object.insert("parametersJsonSchema", input_schema.copy());
                list.push(Json::Object(object));
            },
            ToolDefinitionKind::Custom { .. } => {
                assert(request@.tools[i as int].kind is Custom);
                return Err(unsupported_capability(route, "custom tools"));
            },
        }
        i = i + 1;
    }
    assert(models(list@) =~= Seq::new(
        request@.tools.len(),
        |k: int| declaration(request@.tools[k]),
    ));
    Ok(list)
}

/// Media as inline bytes or as a remote file reference.
pub open spec fn media_json(source: SourceV, default_type: Seq<char>) -> JsonV {
    match source {
        SourceV::Base64 { data, media_type } => single(
            "inlineData"@,
            JsonV::Object(
                map!["mimeType"@ => JsonV::Text(media_type), "data"@ => JsonV::Text(data)],
            ),
        ),
        SourceV::Url { url, media_type } => single(
            "fileData"@,
            JsonV::Object(
                map!["fileUri"@ => JsonV::Text(url),
                    "mimeType"@ => JsonV::Text(match media_type {
                        Some(media_type) => media_type,
                        None => default_type,
                    })],
            ),
        ),
    }
}

/// Encodes media as inline bytes or as a remote file reference.
///
/// A declared media type passes through verbatim, and a URL source that
/// declares none gets the default of its attachment kind.
pub fn encode_media(source: &MediaSource, default_type: &str) -> (r: Json)
    ensures
        r@ == media_json(source@, default_type@),
{
    let mut object: JsonObject = JsonObject::new();
    match source {
        MediaSource::Base64 { data, media_type } => {
            object.insert("mimeType", Json::text(media_type.as_str()));
            object.insert("data", Json::text(data.as_str()));
            object1("inlineData", Json::Object(object))
        },
        MediaSource::Url { url, media_type } => {
            object.insert("fileUri", Json::text(url.as_str()));
            let declared_type: &str = match media_type {
                Some(media_type) => media_type.as_str(),
                None => default_type,
            };
            object.insert("mimeType", Json::text(declared_type));
            object1("fileData", Json::Object(object))
        },
    }
}

/// An optional text as a JSON value.
pub open spec fn text_value(text: Option<Seq<char>>) -> Option<JsonV> {
    match text {
        Some(text) => Some(JsonV::Text(text)),
        None => None,
    }
}

/// Reasoning as a thought part with its verification signature.
pub open spec fn thought_json(reasoning: ReasoningV) -> JsonV {
    JsonV::Object(
        with_member(
            map!["text"@ => JsonV::Text(reasoning.text), "thought"@ => JsonV::Bool(true)],
            "thoughtSignature"@,
            text_value(reasoning.signature),
        ),
    )
}

/// Encodes reasoning as a thought part with its verification signature.
pub fn encode_reasoning(reasoning: &ReasoningContent) -> (r: Json)
    ensures
        r@ == thought_json(reasoning@),
{
    let mut part: JsonObject = JsonObject::new();
    part.insert("text", Json::text(reasoning.text.as_str()));
    part.insert("thought", Json::Bool(true));
    if let Some(signature) = &reasoning.signature {
        part.insert("thoughtSignature", Json::text(signature.as_str()));
    }
    Json::Object(part)
}

/// A tool call with the thought signature it was decoded with, as the sibling
/// of `functionCall` that replay requires.
pub open spec fn call_json(call: CallV) -> JsonV {
    JsonV::Object(
        with_member(
            map!["functionCall"@ => JsonV::Object(
                map!["id"@ => JsonV::Text(call.id), "name"@ => JsonV::Text(call.name),
                    "args"@ => input_value(call.input)],
            )],
            "thoughtSignature"@,
            JsonV::Object(call.provider_metadata).get2(NAMESPACE@, "thoughtSignature"@),
        ),
    )
}

/// Encodes a tool call, re-attaching the thought signature it was decoded
/// with.
///
/// The signature is read only from this codec's metadata namespace.
pub fn encode_tool_call(call: &ToolCall) -> (r: Json)
    ensures
        r@ == call_json(call@),
{
    let mut function: JsonObject = JsonObject::new();
    function.insert("id", Json::text(call.id.as_str()));
    function.insert("name", Json::text(call.name.as_str()));
    function.insert("args", call.input.wire_value());
    let mut part: JsonObject = JsonObject::new();
    part.insert("functionCall", Json::Object(function));
    if let Some(metadata) = call.provider_metadata.get(NAMESPACE) {
        if let Some(signature) = metadata.get("thoughtSignature") {
            part.insert("thoughtSignature", signature.copy());
        }
    }
    Json::Object(part)
}

/// What a tool answered, as the value a function response carries: a lone JSON
/// value, the array of several, or the joined text.
pub open spec fn result_payload(content: Seq<PartV>) -> JsonV {
    if content.len() > 0 && all_json(content) {
        if content.len() == 1 {
            content[0]->value
        } else {
            JsonV::Array(json_values(content))
        }
    } else {
        JsonV::Text(plain(content))
    }
}

/// The `response` of a function response: a failure under `error`, a lone JSON
/// object as it is, and any other answer under `output`.
pub open spec fn result_response(result: ResultV) -> JsonV {
    let payload = result_payload(result.content);
    let verbatim = result.content.len() == 1 && result.content[0] is Json && payload is Object;
    if result.is_error {
        single("error"@, payload)
    } else if verbatim {
        payload
    } else {
        single("output"@, payload)
    }
}

/// The function a result answers: the name the result kept, the name in the
/// history, or the call id as a last resort.
pub open spec fn result_name(result: ResultV, names: Seq<(Seq<char>, Seq<char>)>) -> Seq<char> {
    match result.name {
        Some(name) => name,
        None => match name_of(names, result.tool_call_id) {
            Some(name) => name,
            None => result.tool_call_id,
        },
    }
}

/// A tool result as the function response that answers a call.
pub open spec fn result_json(result: ResultV, names: Seq<(Seq<char>, Seq<char>)>) -> JsonV {
    single(
        "functionResponse"@,
        JsonV::Object(
            map!["id"@ => JsonV::Text(result.tool_call_id),
                "name"@ => JsonV::Text(result_name(result, names)),
                "response"@ => result_response(result)],
        ),
    )
}

/// Encodes a tool result as the function response that answers a call.
///
/// A failure is reported under an `error` key and a success under `output`. A
/// successful result that is one JSON object is the exception: it becomes the
/// whole `response` verbatim.
pub fn encode_tool_result(result: &ToolResult, names: &Vec<(String, String)>) -> (r: Json)
    ensures
        r@ == result_json(result@, pairs(names@)),
{
    let content: &Vec<ContentPart> = &result.content;
    let mut verbatim: bool = false;
    let payload: Json = if content.len() > 0 && json_only(content) {
        if content.len() == 1 {
            assert(parts(content@)[0] == content@[0]@);
            match &content[0] {
                ContentPart::Json { value } => {
                    verbatim = value.is_object();
                    value.copy()
                },
                _ => Json::Null,
            }
        } else {
            Json::Array(collect_values(content))
        }
    } else {
        proof {
            if content.len() == 1 {
                assert(!(parts(content@)[0] is Json));
            }
        }
        Json::Text(plain_text(content))
    };
    let response: Json = if result.is_error {
        object1("error", payload)
    } else if verbatim {
        payload
    } else {
        object1("output", payload)
    };
    let name: &str = match &result.name {
        Some(name) => name.as_str(),
        None => match find_name(names, result.tool_call_id.as_str()) {
            Some(name) => name,
            None => result.tool_call_id.as_str(),
        },
    };
    let mut object: JsonObject = JsonObject::new();
    object.insert("id", Json::text(result.tool_call_id.as_str()));
    object.insert("name", Json::text(name));
    object.insert("response", response);
    object1("functionResponse", Json::Object(object))
}

/// One content part on the wire, or nothing when this protocol cannot carry
/// it.
pub open spec fn part_json(part: PartV, names: Seq<(Seq<char>, Seq<char>)>) -> Option<JsonV> {
    match part {
        PartV::Unknown(_) => None,
        PartV::Text { text } => Some(single("text"@, JsonV::Text(text))),
        PartV::Image { source, .. } => Some(media_json(source, "image/png"@)),
        PartV::Audio { source } => Some(media_json(source, "audio/wav"@)),
        PartV::Document { source, .. } => Some(media_json(source, "application/pdf"@)),
        PartV::Reasoning(reasoning) => if foreign_signature(reasoning, GEMINI_SIGNATURES@) {
            None
        } else {
            Some(thought_json(reasoning))
        },
        PartV::ToolCall(call) => Some(call_json(call)),
        PartV::ToolResult(result) => Some(result_json(result, names)),
        PartV::Json { value } => Some(single("text"@, JsonV::Text(printed(value)))),
        PartV::Opaque { data, .. } => if opaque_namespace(part) == Some(NAMESPACE@)
            && data is Object {
            Some(data)
        } else {
            None
        },
    }
}

/// Encodes one content part, or `None` when this protocol cannot carry it.
///
/// A signature another provider family minted fails the request, so its part
/// is skipped. An opaque part of this codec is replayed verbatim when it is an
/// object, which every wire part is; one of another provider is dropped.
pub fn encode_part(part: &ContentPart, names: &Vec<(String, String)>) -> (r: Option<Json>)
    ensures
        owned_model_opt(r) == part_json(part@, pairs(names@)),
{
    match part {
        ContentPart::Unknown(_) => None,
        ContentPart::Text { text } => Some(object1("text", Json::text(text.as_str()))),
        ContentPart::Image(image) => Some(encode_media(&image.source, "image/png")),
        ContentPart::Audio(audio) => Some(encode_media(&audio.source, "audio/wav")),
        ContentPart::Document(document) => Some(encode_media(&document.source, "application/pdf")),
        ContentPart::Reasoning(reasoning) => if reasoning.has_foreign_signature(
            GEMINI_SIGNATURES,
        ) {
            None
        } else {
            Some(encode_reasoning(reasoning))
        },
        ContentPart::ToolCall(call) => Some(encode_tool_call(call)),
        ContentPart::ToolResult(result) => Some(encode_tool_result(result, names)),
        ContentPart::Json { value } => Some(object1("text", Json::Text(print(value)))),
        ContentPart::Opaque { data, .. } => match part.opaque_namespace() {
            Some(namespace) => if same(namespace, NAMESPACE) && data.is_object() {
                Some(data.copy())
            } else {
                None
            },
            None => None,
        },
    }
}

/// The parts of a message on the wire, in order.
pub open spec fn part_list(content: Seq<PartV>, names: Seq<(Seq<char>, Seq<char>)>) -> Seq<JsonV>
    decreases content.len(),
{
    if content.len() == 0 {
        Seq::empty()
    } else {
        match part_json(content.last(), names) {
            Some(part) => part_list(content.drop_last(), names).push(part),
            None => part_list(content.drop_last(), names),
        }
    }
}

/// Encodes the parts of a message.
fn encode_parts(content: &Vec<ContentPart>, names: &Vec<(String, String)>) -> (r: Vec<Json>)
    ensures
        models(r@) == part_list(parts(content@), pairs(names@)),
{
    let mut list: Vec<Json> = Vec::new();
    let mut i: usize = 0;
    proof {
        lemma_ends(parts(content@));
        assert(models(list@) =~= Seq::<JsonV>::empty());
    }
    while i < content.len()
        invariant
            i <= content.len(),
            models(list@) == part_list(parts(content@).take(i as int), pairs(names@)),
        decreases content.len() - i,
    {
        proof {
            lemma_take(parts(content@), i as int);
        }
        if let Some(part) = encode_part(&content[i], names) {
            let ghost before = list@;
            list.push(part);
            assert(models(list@) =~= models(before).push(part@));
        }
        i = i + 1;
    }
    proof {
        lemma_ends(parts(content@));
    }
    list
}

/// The wire role of a conversational message.
pub open spec fn turn_role(role: Role) -> Seq<char> {
    if role == Role::Assistant {
        "model"@
    } else {
        "user"@
    }
}

/// The conversational turns of a list of messages.
pub open spec fn turns(list: Seq<MessageV>, names: Seq<(Seq<char>, Seq<char>)>) -> Seq<TurnV>
    decreases list.len(),
{
    if list.len() == 0 {
        Seq::empty()
    } else if list.last().is_instruction() {
        turns(list.drop_last(), names)
    } else {
        push_turn(
            turns(list.drop_last(), names),
            turn_role(list.last().role),
            part_list(list.last().content, names),
        )
    }
}

/// The `contents` array of a conversation.
pub open spec fn content_values(list: Seq<MessageV>) -> Seq<JsonV> {
    turn_values(turns(list, history_names(list)), "parts"@)
}

/// The `contents` array: every conversational turn, in wire order.
///
/// System and developer messages are excluded; they became the
/// `systemInstruction`. Consecutive same-role turns merge, so every
/// `functionResponse` for a turn stands in one `user` entry.
#[verifier::loop_isolation(false)]
pub fn contents(request: &Request) -> (r: Vec<Json>)
    ensures
        models(r@) == content_values(request@.messages),
{
    let names: Vec<(String, String)> = tool_call_names(request);
    let list: &Vec<Message> = &request.messages;
    let mut contents: Turns = Turns::new();
    let mut i: usize = 0;
    proof {
        lemma_ends(messages(list@));
    }
    while i < list.len()
        invariant
            i <= list.len(),
            contents@ == turns(messages(list@).take(i as int), pairs(names@)),
        decreases list.len() - i,
    {
        proof {
            lemma_take(messages(list@), i as int);
        }
        if !list[i].is_instruction() {
            let role: &'static str = if list[i].role == Role::Assistant {
                "model"
            } else {
                "user"
            };
            contents.push(role, encode_parts(&list[i].content, &names));
        }
        i = i + 1;
    }
    proof {
        lemma_ends(messages(list@));
    }
    contents.into_values("parts")
}

/// The thinking level a normalized effort maps onto.
pub open spec fn level(effort: ReasoningEffort) -> Seq<char> {
    match effort {
        ReasoningEffort::Minimal | ReasoningEffort::Low => "low"@,
        ReasoningEffort::Medium => "medium"@,
        ReasoningEffort::High | ReasoningEffort::Xhigh | ReasoningEffort::Max => "high"@,
    }
}

/// Maps normalized effort onto the levels shared by the Gemini 3 roster.
pub fn gemini_effort(effort: ReasoningEffort) -> (r: &'static str)
    ensures
        r@ == level(effort),
{
    match effort {
        ReasoningEffort::Minimal | ReasoningEffort::Low => "low",
        ReasoningEffort::Medium => "medium",
        ReasoningEffort::High | ReasoningEffort::Xhigh | ReasoningEffort::Max => "high",
    }
}

/// The thinking configuration of an effort, on a model that takes levels.
pub open spec fn thinking(effort: Option<ReasoningEffort>, levels: bool) -> Option<JsonV> {
    match effort {
        Some(effort) if levels => Some(single("thinkingLevel"@, JsonV::Text(level(effort)))),
        _ => None,
    }
}

/// The `generationConfig` object.
pub open spec fn generation(request: RequestV, route: RouteV) -> Map<Seq<char>, JsonV> {
    let fields = Map::<Seq<char>, JsonV>::empty();
    let fields = with_member(
        fields,
        "maxOutputTokens"@,
        count_value(request.max_output_tokens),
    );
    let fields = with_member(fields, "temperature"@, number_value(request.temperature));
    let fields = with_member(fields, "topP"@, number_value(request.top_p));
    let fields = with_member(fields, "stopSequences"@, texts_value(request.stop_sequences));
    let fields = with_member(
        fields,
        "thinkingConfig"@,
        thinking(request.reasoning_effort, route.reasoning_effort_levels),
    );
    match request.response_format {
        Some(FormatV::JsonObject) => fields.insert(
            "responseMimeType"@,
            JsonV::Text("application/json"@),
        ),
        Some(FormatV::JsonSchema { schema, .. }) => fields.insert(
            "responseMimeType"@,
            JsonV::Text("application/json"@),
        ).insert("responseJsonSchema"@, schema),
        _ => fields,
    }
}

/// The `generationConfig` object: sampling, limits, thinking, and output
/// format.
///
/// The text format is the protocol's own default, so it sets nothing.
pub fn generation_config(request: &Request, route: &ResolvedRoute) -> (r: JsonObject)
    ensures
        r@ == generation(request@, route@),
{
    let mut fields: JsonObject = JsonObject::new();
    put(&mut fields, "maxOutputTokens", count(request.max_output_tokens));
    put(&mut fields, "temperature", numeral(&request.temperature));
    put(&mut fields, "topP", numeral(&request.top_p));
    put(&mut fields, "stopSequences", text_list(&request.stop_sequences));
    if let Some(effort) = request.reasoning_effort {
        if takes_thinking_levels(route) {
            fields.insert(
                "thinkingConfig",
                object1("thinkingLevel", Json::text(gemini_effort(effort))),
            );
        }
    }
    match &request.response_format {
        Some(ResponseFormat::JsonObject) => {
            fields.insert("responseMimeType", Json::text("application/json"));
        },
        Some(ResponseFormat::JsonSchema { schema, .. }) => {
            fields.insert("responseMimeType", Json::text("application/json"));
            fields.insert("responseJsonSchema", schema.copy());
        },
        _ => {},
    }
    fields
}

/// The default safety settings.
pub open spec fn default_safety() -> JsonV {
    JsonV::Array(
        seq![JsonV::Object(
            map!["category"@ => JsonV::Text("HARM_CATEGORY_DANGEROUS_CONTENT"@),
                "threshold"@ => JsonV::Text("BLOCK_ONLY_HIGH"@)],
        )],
    )
}

/// A body with the default safety settings, unless it has settings under
/// either spelling of the field.
pub open spec fn with_safety(body: Map<Seq<char>, JsonV>) -> Map<Seq<char>, JsonV> {
    if body.contains_key("safetySettings"@) || body.contains_key("safety_settings"@) {
        body
    } else {
        body.insert("safetySettings"@, default_safety())
    }
}

/// Relaxes the dangerous-content filter unless the caller set its own
/// settings.
///
/// Both spellings of the field are treated as caller-supplied, because the
/// protocol reads them as one field.
pub fn apply_default_safety_settings(body: &mut JsonObject)
    ensures
        final(body)@ == with_safety(old(body)@),
{
    if body.contains_key("safetySettings") || body.contains_key("safety_settings") {
        return ;
    }
    let mut setting: JsonObject = JsonObject::new();
    setting.insert("category", Json::text("HARM_CATEGORY_DANGEROUS_CONTENT"));
    setting.insert("threshold", Json::text("BLOCK_ONLY_HIGH"));
    body.insert("safetySettings", array1(Json::Object(setting)));
}

/// The permitted tool selection, on the wire.
pub open spec fn choice_json(choice: ChoiceV) -> JsonV {
    single(
        "functionCallingConfig"@,
        match choice {
            ChoiceV::Auto => single("mode"@, JsonV::Text("AUTO"@)),
            ChoiceV::Never => single("mode"@, JsonV::Text("NONE"@)),
            ChoiceV::Required => single("mode"@, JsonV::Text("ANY"@)),
            ChoiceV::Tool { name } => JsonV::Object(
                map!["mode"@ => JsonV::Text("ANY"@),
                    "allowedFunctionNames"@ => JsonV::Array(seq![JsonV::Text(name)])],
            ),
        },
    )
}

/// Encodes the permitted tool-selection behavior.
pub fn encode_tool_choice(choice: &ToolChoice) -> (r: Json)
    ensures
        r@ == choice_json(choice@),
{
    let config: Json = match choice {
        ToolChoice::Auto => object1("mode", Json::text("AUTO")),
        ToolChoice::Never => object1("mode", Json::text("NONE")),
        ToolChoice::Required => object1("mode", Json::text("ANY")),
        ToolChoice::Tool { name } => {
            let mut object: JsonObject = JsonObject::new();
            object.insert("mode", Json::text("ANY"));
            object.insert("allowedFunctionNames", array1(Json::text(name.as_str())));
            Json::Object(object)
        },
    };
    object1("functionCallingConfig", config)
}

/// The typed fields of a `generateContent` body.
pub open spec fn typed_body(request: RequestV, route: RouteV, declarations: Seq<JsonV>) -> Map<
    Seq<char>,
    JsonV,
> {
    let system = join(system_texts(request.messages), "\n\n"@);
    let body = Map::<Seq<char>, JsonV>::empty();
    let body = with_member(
        body,
        "systemInstruction"@,
        if system.len() > 0 {
            Some(single("parts"@, JsonV::Array(seq![single("text"@, JsonV::Text(system))])))
        } else {
            None
        },
    );
    let body = body.insert("contents"@, JsonV::Array(content_values(request.messages)));
    let fields = generation(request, route);
    let body = with_member(
        body,
        "generationConfig"@,
        if fields != Map::<Seq<char>, JsonV>::empty() {
            Some(JsonV::Object(fields))
        } else {
            None
        },
    );
    let body = with_member(
        body,
        "tools"@,
        if declarations.len() > 0 {
            Some(
                JsonV::Array(seq![single("functionDeclarations"@, JsonV::Array(declarations))]),
            )
        } else {
            None
        },
    );
    with_member(
        body,
        "toolConfig"@,
        match request.tool_choice {
            Some(choice) => Some(choice_json(choice)),
            None => None,
        },
    )
}

/// The `generateContent` body of a request: its typed fields, the raw options
/// merged over them, and the default safety settings last.
pub open spec fn generate_map(request: RequestV, route: RouteV) -> Result<
    Map<Seq<char>, JsonV>,
    ErrorV,
> {
    match declared(request.tools, route) {
        Err(error) => Err(error),
        Ok(declarations) => Ok(
            with_safety(
                merged(
                    typed_body(request, route, declarations),
                    wire_map(route_options(request, route)),
                ),
            ),
        ),
    }
}

/// Builds the `generateContent` request body.
///
/// Typed request fields are encoded first and the raw provider options are
/// merged last, so an application can override anything encoded here. The
/// default safety settings are applied after that merge, and only when the
/// caller supplied none.
///
/// A request that carries a custom tool is refused.
pub fn generate_body(call: &ResolvedCall) -> (r: Result<JsonObject, CallError>)
    ensures
        match r {
            Ok(body) => generate_map(call.request@, call.route@) == Ok::<
                Map<Seq<char>, JsonV>,
                ErrorV,
            >(body@),
            Err(error) => generate_map(call.request@, call.route@) == Err::<
                Map<Seq<char>, JsonV>,
                ErrorV,
            >(error@),
        },
{
    let request: &Request = &call.request;
    let route: &ResolvedRoute = &call.route;
    let (options, _controls) = wire_options(call);
    let declarations: Vec<Json> = match function_declarations(request, route) {
        Ok(declarations) => declarations,
        Err(error) => {
            return Err(error);
        },
    };

    let mut body: JsonObject = JsonObject::new();
    let system: String = system_text(&request.messages);
    if !system.as_str().is_empty() {
        body.insert(
            "systemInstruction",
            object1("parts", array1(object1("text", Json::Text(system)))),
        );
    }
    body.insert("contents", Json::Array(contents(request)));
    let fields: JsonObject = generation_config(request, route);
    if !fields.is_empty() {
        body.insert("generationConfig", Json::Object(fields));
    }
    if declarations.len() > 0 {
        body.insert(
            "tools",
            array1(object1("functionDeclarations", Json::Array(declarations))),
        );
    }
    if let Some(choice) = &request.tool_choice {
        body.insert("toolConfig", encode_tool_choice(choice));
    }
    assert(body@ == typed_body(request@, route@, models(declarations@)));
    merge_options(&mut body, &options);
    apply_default_safety_settings(&mut body);
    Ok(body)
}

/// The `countTokens` request: the whole `generateContent` body, with the model
/// it counts for, wrapped under one key.
pub open spec fn counted_request(request: RequestV, route: RouteV) -> Result<EncodedV, ErrorV> {
    match generate_map(request, route) {
        Err(error) => Err(error),
        Ok(body) => Ok(
            EncodedV {
                method: Method::Post,
                url: model_url(route, "countTokens"@),
                body: single(
                    "generateContentRequest"@,
                    JsonV::Object(
                        body.insert("model"@, JsonV::Text("models/"@ + route.api_model)),
                    ),
                ),
                warnings: Seq::empty(),
                data_line_framing: false,
                applied_speed: None,
            },
        ),
    }
}

/// Encodes the `countTokens` request for a resolved call.
///
/// Nothing is stripped, so the count matches what the generation request would
/// send. The nested request carries its own `model` field, which the model in
/// the URL path does not populate.
pub fn count_tokens_request(call: &ResolvedCall) -> (r: Result<EncodedRequest, CallError>)
    ensures
        match r {
            Ok(encoded) => counted_request(call.request@, call.route@) == Ok::<EncodedV, ErrorV>(
                encoded@,
            ),
            Err(error) => counted_request(call.request@, call.route@) == Err::<EncodedV, ErrorV>(
                error@,
            ),
        },
{
    match generate_body(call) {
        Err(error) => Err(error),
        Ok(body) => {
            let mut body: JsonObject = body;
            body.insert(
                "model",
                Json::Text(concat2("models/", call.route.model.api_model.as_str())),
            );
            let encoded: EncodedRequest = EncodedRequest {
                method: Method::Post,
                url: model_endpoint(&call.route, "countTokens"),
                body: object1("generateContentRequest", Json::Object(body)),
                warnings: Vec::new(),
                data_line_framing: false,
                applied_speed: None,
            };
            assert(encoded@.warnings =~= Seq::<WarningV>::empty());
            Ok(encoded)
        },
    }
}

} // verus!
