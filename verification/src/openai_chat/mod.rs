//! The OpenAI Chat Completions dialect.
//!
//! This codec speaks `POST /v1/chat/completions` as OpenAI defined it and as
//! every compatible provider re-implements it. Those agree on the envelope and
//! disagree on the details, so the decoder accepts several spellings of the
//! same counter and keeps the untouched success body in the response.
//!
//! It is the one codec that reads a provider-reported cost off the wire.

pub mod decode;
pub mod encode;
pub mod reasoning_details;
pub mod stream;

use vstd::prelude::*;
use vstd::string::*;

use crate::body::count;
use crate::body::count_value;
use crate::body::number_value;
use crate::body::numeral;
use crate::body::object1;
use crate::body::put;
use crate::body::single;
use crate::body::text_list;
use crate::body::texts_value;
use crate::body::with_member;
use crate::content::flattens_results;
use crate::content::flattens_tool_result_content;
use crate::errors::unsupported;
use crate::errors::unsupported_capability;
use crate::gemini::encode::has_custom;
use crate::gemini::encode::note;
use crate::gemini::encode::push_if;
use crate::json::lemma_model;
use crate::json::Json;
use crate::json::JsonObject;
use crate::json::JsonV;
use crate::options::cache_routing_key;
use crate::options::control_values;
use crate::options::endpoint;
use crate::options::joined_url;
use crate::options::merge_options;
use crate::options::merged;
use crate::options::route_options;
use crate::options::routing_key;
use crate::options::wire_map;
use crate::options::wire_options;
use crate::options::Controls;
use crate::response::control_warnings;
use crate::response::warn_controls;
use crate::response::CallError;
use crate::response::EncodedRequest;
use crate::response::EncodedV;
use crate::response::ErrorKind;
use crate::response::ErrorV;
use crate::response::Method;
use crate::response::Response;
use crate::response::ResponseV;
use crate::response::RetryClassification;
use crate::text::lemma_ends;
use crate::text::lemma_take;
use crate::text::strs;
use crate::text::text_opt;
use crate::types::lemma_result_part;
use crate::types::messages;
use crate::types::parts;
use crate::types::tools;
use crate::types::ContentPart;
use crate::types::Message;
use crate::types::MessageV;
use crate::types::PartV;
use crate::types::Request;
use crate::types::RequestV;
use crate::types::ResolvedCall;
use crate::types::ResolvedRoute;
use crate::types::RouteV;
use crate::types::ToolDefinition;
use decode::decode_body;
use decode::decoded;
use encode::choice_json;
use encode::conversation;
use encode::effort_name;
use encode::effort_text;
use encode::encode_messages;
use encode::encode_response_format;
use encode::encode_tool_choice;
use encode::encode_tools;
use encode::format_json;
use encode::mark_cache_breakpoints;
use encode::marked;
use encode::text_value;
use encode::tool_list;
use stream::fresh_chat;
use stream::ChatStreamDecoder;

verus! {

broadcast use {vstd::std_specs::vec::group_vec_axioms, vstd::seq::group_seq_axioms, lemma_model, lemma_result_part};

/// The Chat Completions codec.
///
/// Some deployments publish their own versioned API root and must not receive
/// an extra `/v1` segment.
#[derive(Clone, Copy, Debug)]
pub struct OpenAiChatCodec {
    pub base_url_is_api_root: bool,
}

/// The attachment this dialect cannot carry, named for a refusal.
pub open spec fn unencodable(part: PartV) -> Option<Seq<char>> {
    match part {
        PartV::Audio { .. } => Some("audio content"@),
        PartV::Document { .. } => Some("document content"@),
        _ => None,
    }
}

/// The first attachment of a message that this dialect cannot carry.
pub open spec fn unencodable_in(content: Seq<PartV>) -> Option<Seq<char>>
    decreases content.len(),
{
    if content.len() == 0 {
        None
    } else {
        match unencodable_in(content.drop_last()) {
            Some(what) => Some(what),
            None => unencodable(content.last()),
        }
    }
}

/// The first attachment of a conversation that this dialect cannot carry.
pub open spec fn first_unencodable(list: Seq<MessageV>) -> Option<Seq<char>>
    decreases list.len(),
{
    if list.len() == 0 {
        None
    } else {
        match first_unencodable(list.drop_last()) {
            Some(what) => Some(what),
            None => unencodable_in(list.last().content),
        }
    }
}

/// Finds the first attachment of a message that this dialect cannot carry.
fn find_unencodable_in(content: &Vec<ContentPart>) -> (r: Option<&'static str>)
    ensures
        text_opt(r) == unencodable_in(parts(content@)),
{
    let mut found: Option<&'static str> = None;
    let mut i: usize = 0;
    proof {
        lemma_ends(parts(content@));
    }
    while i < content.len()
        invariant
            i <= content.len(),
            text_opt(found) == unencodable_in(parts(content@).take(i as int)),
        decreases content.len() - i,
    {
        proof {
            lemma_take(parts(content@), i as int);
        }
        if found.is_none() {
            match &content[i] {
                ContentPart::Audio(_) => {
                    found = Some("audio content");
                },
                ContentPart::Document(_) => {
                    found = Some("document content");
                },
                _ => {},
            }
        }
        i = i + 1;
    }
    proof {
        lemma_ends(parts(content@));
    }
    found
}

/// Finds the first attachment of a conversation that this dialect cannot
/// carry.
fn find_unencodable(list: &Vec<Message>) -> (r: Option<&'static str>)
    ensures
        text_opt(r) == first_unencodable(messages(list@)),
{
    let mut found: Option<&'static str> = None;
    let mut i: usize = 0;
    proof {
        lemma_ends(messages(list@));
    }
    while i < list.len()
        invariant
            i <= list.len(),
            text_opt(found) == first_unencodable(messages(list@).take(i as int)),
        decreases list.len() - i,
    {
        proof {
            lemma_take(messages(list@), i as int);
        }
        if found.is_none() {
            found = find_unencodable_in(&list[i].content);
        }
        i = i + 1;
    }
    proof {
        lemma_ends(messages(list@));
    }
    found
}

/// Tells whether a request declares a custom tool.
fn declares_custom(list: &Vec<ToolDefinition>) -> (r: bool)
    ensures
        r == has_custom(tools(list@)),
{
    let mut i: usize = 0;
    while i < list.len()
        invariant
            i <= list.len(),
            forall|k: int| 0 <= k < i ==> !((#[trigger] tools(list@)[k]).kind is Custom),
        decreases list.len() - i,
    {
        if list[i].is_custom() {
            assert(tools(list@)[i as int].kind is Custom);
            return true;
        }
        i = i + 1;
    }
    false
}

/// Whether a message answers with a failed tool result.
pub open spec fn holds_failure(content: Seq<PartV>) -> bool {
    exists|i: int|
        0 <= i < content.len() && ((#[trigger] content[i]) matches PartV::ToolResult(result)
            && result.is_error)
}

/// Whether any message answers with a failed tool result.
pub open spec fn reports_failure(list: Seq<MessageV>) -> bool {
    exists|i: int| 0 <= i < list.len() && holds_failure((#[trigger] list[i]).content)
}

/// Tells whether any message answers with a failed tool result.
fn has_failed_result(list: &Vec<Message>) -> (r: bool)
    ensures
        r == reports_failure(messages(list@)),
{
    let mut i: usize = 0;
    while i < list.len()
        invariant
            i <= list.len(),
            forall|k: int| 0 <= k < i ==> !holds_failure((#[trigger] messages(list@)[k]).content),
        decreases list.len() - i,
    {
        let content: &Vec<ContentPart> = &list[i].content;
        let mut j: usize = 0;
        while j < content.len()
            invariant
                i < list.len(),
                j <= content.len(),
                *content == list@[i as int].content,
                forall|k: int|
                    0 <= k < j ==> !((#[trigger] parts(content@)[k]) matches PartV::ToolResult(
                        result,
                    ) && result.is_error),
            decreases content.len() - j,
        {
            if let ContentPart::ToolResult(result) = &content[j] {
                if result.is_error {
                    assert(parts(content@)[j as int] == PartV::ToolResult(result@));
                    assert(messages(list@)[i as int].content == parts(content@));
                    return true;
                }
            }
            j = j + 1;
        }
        i = i + 1;
    }
    false
}

/// The controls of a request that the body does not carry.
pub open spec fn lost_controls(request: RequestV) -> Seq<Seq<char>> {
    let list = Seq::<Seq<char>>::empty();
    let list = push_if(list, request.metadata.len() > 0, "request metadata"@);
    let list = push_if(list, request.speed is Some, "the speed control"@);
    let list = push_if(list, reports_failure(request.messages), "the tool result error flag"@);
    push_if(list, flattens_results(request.messages), "non-text tool result content"@)
}

/// The portable controls this request carries that the body did not encode.
///
/// - Only OpenAI itself documents `metadata` on this endpoint, and a strict
///   provider rejects the whole request over one unknown field.
/// - Chat Completions has no speed control.
/// - A `tool` message has no error marker, so a failed tool result reaches the
///   model looking like a successful one.
/// - An all-JSON result travels as the bare value, so only a mix that must
///   flatten is reported.
pub fn dropped_controls(request: &Request) -> (r: Vec<&'static str>)
    ensures
        strs(r@) == lost_controls(request@),
{
    let mut dropped: Vec<&'static str> = Vec::new();
    assert(strs(dropped@) =~= Seq::<Seq<char>>::empty());
    note(&mut dropped, request.metadata.len() > 0, "request metadata");
    note(&mut dropped, request.speed.is_some(), "the speed control");
    note(&mut dropped, has_failed_result(&request.messages), "the tool result error flag");
    note(&mut dropped, flattens_tool_result_content(request), "non-text tool result content");
    dropped
}

/// The messages of a request on the wire. Breakpoints are placed only where
/// automatic caching is on and the model takes them.
pub open spec fn wire_messages(request: RequestV, route: RouteV, controls: Controls) -> Seq<JsonV> {
    let list = conversation(request.messages);
    if controls.auto_cache && route.caching && route.cache_breakpoints {
        marked(list)
    } else {
        list
    }
}

/// The typed fields of a completion body.
pub open spec fn typed_body(
    request: RequestV,
    route: RouteV,
    controls: Controls,
    stream: bool,
) -> Map<Seq<char>, JsonV> {
    let body = map!["model"@ => JsonV::Text(route.api_model)];
    let body = body.insert("messages"@, JsonV::Array(wire_messages(request, route, controls)));
    let body = if stream {
        body.insert("stream"@, JsonV::Bool(true)).insert(
            "stream_options"@,
            single("include_usage"@, JsonV::Bool(true)),
        )
    } else {
        body
    };
    let body = with_member(body, "max_tokens"@, count_value(request.max_output_tokens));
    let body = with_member(body, "temperature"@, number_value(request.temperature));
    let body = with_member(body, "top_p"@, number_value(request.top_p));
    let body = with_member(
        body,
        "reasoning_effort"@,
        match request.reasoning_effort {
            Some(effort) => Some(JsonV::Text(effort_text(effort))),
            None => None,
        },
    );
    let body = with_member(body, "stop"@, texts_value(request.stop_sequences));
    let body = with_member(
        body,
        "tools"@,
        if request.tools.len() > 0 {
            Some(JsonV::Array(tool_list(request.tools)))
        } else {
            None
        },
    );
    let body = with_member(
        body,
        "tool_choice"@,
        match request.tool_choice {
            Some(choice) => Some(choice_json(choice)),
            None => None,
        },
    );
    let body = with_member(
        body,
        "response_format"@,
        match request.response_format {
            Some(format) => Some(format_json(format)),
            None => None,
        },
    );
    with_member(
        body,
        "prompt_cache_key"@,
        text_value(routing_key(request, route, controls)),
    )
}

/// Builds the typed fields of a completion body.
///
/// A blocking request omits the `stream` member, because a strict provider may
/// reject an explicit `stream: false`. A streamed one always asks for usage,
/// which the compatible providers otherwise never send.
pub fn completion_body(call: &ResolvedCall, controls: Controls, stream: bool) -> (r: JsonObject)
    ensures
        r@ == typed_body(call.request@, call.route@, controls, stream),
{
    let request: &Request = &call.request;
    let route: &ResolvedRoute = &call.route;
    let mut body: JsonObject = JsonObject::new();
    body.insert("model", Json::text(route.model.api_model.as_str()));
    let mut list: Vec<Json> = encode_messages(&request.messages);
    if controls.auto_cache && route.model.caching && route.model.cache_breakpoints {
        mark_cache_breakpoints(&mut list);
    }
    body.insert("messages", Json::Array(list));
    if stream {
        body.insert("stream", Json::Bool(true));
        body.insert("stream_options", object1("include_usage", Json::Bool(true)));
    }
    put(&mut body, "max_tokens", count(request.max_output_tokens));
    put(&mut body, "temperature", numeral(&request.temperature));
    put(&mut body, "top_p", numeral(&request.top_p));
    if let Some(effort) = request.reasoning_effort {
        body.insert("reasoning_effort", Json::text(effort_name(effort)));
    }
    put(&mut body, "stop", text_list(&request.stop_sequences));
    if request.tools.len() > 0 {
        body.insert("tools", Json::Array(encode_tools(&request.tools)));
    }
    if let Some(choice) = &request.tool_choice {
        body.insert("tool_choice", encode_tool_choice(choice));
    }
    if let Some(format) = &request.response_format {
        body.insert("response_format", encode_response_format(format));
    }
    if let Some(key) = cache_routing_key(call, controls) {
        body.insert("prompt_cache_key", Json::Text(key));
    }
    body
}

/// The path of the completion endpoint.
pub open spec fn completion_path(at_root: bool) -> Seq<char> {
    if at_root {
        "/chat/completions"@
    } else {
        "/v1/chat/completions"@
    }
}

/// The provider request of a call. A custom tool and an attachment without a
/// form here are refused.
pub open spec fn encoded_request(
    request: RequestV,
    route: RouteV,
    stream: bool,
    at_root: bool,
) -> Result<EncodedV, ErrorV> {
    let options = route_options(request, route);
    if has_custom(request.tools) {
        Err(unsupported(route, "custom tools"@))
    } else {
        match first_unencodable(request.messages) {
            Some(what) => Err(unsupported(route, what)),
            None => Ok(
                EncodedV {
                    method: Method::Post,
                    url: joined_url(route.base_url, completion_path(at_root)),
                    body: JsonV::Object(
                        merged(
                            typed_body(request, route, control_values(options), stream),
                            wire_map(options),
                        ),
                    ),
                    warnings: control_warnings(lost_controls(request)),
                    data_line_framing: true,
                    applied_speed: None,
                },
            ),
        }
    }
}

/// The failure of asking this dialect for a token count.
pub open spec fn uncountable() -> ErrorV {
    ErrorV {
        kind: ErrorKind::Configuration,
        message: "this codec has no token count endpoint"@,
        provider: None,
        provider_code: None,
        retry: RetryClassification::Never,
        raw_data: None,
        sourced: false,
    }
}

impl OpenAiChatCodec {
    /// The codec of a provider whose base URL ends ahead of the version.
    pub fn new() -> (r: Self)
        ensures
            !r.base_url_is_api_root,
    {
        OpenAiChatCodec { base_url_is_api_root: false }
    }

    /// The codec of a provider whose base URL is its versioned API root.
    pub fn at_api_root() -> (r: Self)
        ensures
            r.base_url_is_api_root,
    {
        OpenAiChatCodec { base_url_is_api_root: true }
    }

    /// Encodes a resolved call into one provider request.
    ///
    /// Raw provider options are merged last, so an application can override
    /// anything encoded here. Every chunk of the reply is one `data:` line of
    /// JSON, which lenient proxies separate with single newlines.
    pub fn encode(&self, call: &ResolvedCall, stream: bool) -> (r: Result<
        EncodedRequest,
        CallError,
    >)
        ensures
            match r {
                Ok(encoded) => encoded_request(
                    call.request@,
                    call.route@,
                    stream,
                    self.base_url_is_api_root,
                ) == Ok::<EncodedV, ErrorV>(encoded@),
                Err(error) => encoded_request(
                    call.request@,
                    call.route@,
                    stream,
                    self.base_url_is_api_root,
                ) == Err::<EncodedV, ErrorV>(error@),
            },
    {
        let request: &Request = &call.request;
        let route: &ResolvedRoute = &call.route;
        if declares_custom(&request.tools) {
            return Err(unsupported_capability(route, "custom tools"));
        }
        if let Some(what) = find_unencodable(&request.messages) {
            return Err(unsupported_capability(route, what));
        }
        let (options, controls) = wire_options(call);
        let mut body: JsonObject = completion_body(call, controls, stream);
        merge_options(&mut body, &options);
        let path: &'static str = if self.base_url_is_api_root {
            "/chat/completions"
        } else {
            "/v1/chat/completions"
        };
        Ok(
            EncodedRequest {
                method: Method::Post,
                url: endpoint(route.provider.base_url.as_str(), path),
                body: Json::Object(body),
                warnings: warn_controls(&dropped_controls(request)),
                data_line_framing: true,
                applied_speed: None,
            },
        )
    }

    /// Decodes one complete provider success body.
    pub fn decode_response(&self, route: &ResolvedRoute, value: Json) -> (r: Result<
        Response,
        CallError,
    >)
        ensures
            match r {
                Ok(response) => decoded(route@, value@) == Ok::<ResponseV, ErrorV>(response@),
                Err(error) => decoded(route@, value@) == Err::<ResponseV, ErrorV>(error@),
            },
    {
        decode_body(route, value)
    }

    /// Creates the per-stream decoder that owns block identity and assembly.
    pub fn stream_decoder(&self, route: &ResolvedRoute) -> (r: ChatStreamDecoder)
        ensures
            r@ == fresh_chat(route@),
    {
        ChatStreamDecoder::new(route)
    }

    /// This dialect has no token count endpoint.
    pub fn encode_count_tokens(&self, _call: &ResolvedCall) -> (r: Option<
        Result<EncodedRequest, CallError>,
    >)
        ensures
            r is None,
    {
        None
    }

    /// This dialect has no token count to decode.
    pub fn decode_count_tokens(&self, _route: &ResolvedRoute, _value: Json) -> (r: Result<
        u64,
        CallError,
    >)
        ensures
            match r {
                Ok(_) => false,
                Err(error) => error@ == uncountable() && error@.kind == ErrorKind::Configuration
                    && error@.retry == RetryClassification::Never && error@.provider is None,
            },
    {
        Err(
            CallError {
                kind: ErrorKind::Configuration,
                message: "this codec has no token count endpoint".to_owned(),
                provider: None,
                provider_code: None,
                retry: RetryClassification::Never,
                raw_data: None,
                source: None,
            },
        )
    }
}

} // verus!
