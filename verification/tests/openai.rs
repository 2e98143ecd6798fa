//! The Responses codec.

#![allow(dead_code)]

use std::error::Error as StdError;

use lithos_codecs::envelope::part_envelope;
use lithos_codecs::json::Json;
use lithos_codecs::json::JsonObject;
use lithos_codecs::openai::OpenAiResponsesCodec;
use lithos_codecs::openai::counts_field;
use lithos_codecs::openai::encode::MESSAGE_KIND;
use lithos_codecs::openai::encode::REASONING_KIND;
use lithos_codecs::openai::stream::ResponsesStream;
use lithos_codecs::response::CallError;
use lithos_codecs::response::EncodedRequest;
use lithos_codecs::response::ErrorKind;
use lithos_codecs::response::FinishReason;
use lithos_codecs::response::Response;
use lithos_codecs::response::RetryClassification;
use lithos_codecs::response::SseEvent;
use lithos_codecs::response::StreamEvent;
use lithos_codecs::response::Warning;
use lithos_codecs::serial::from_value;
use lithos_codecs::serial::to_value;
use lithos_codecs::types::CacheHint;
use lithos_codecs::types::ContentPart;
use lithos_codecs::types::ImageContent;
use lithos_codecs::types::MediaSource;
use lithos_codecs::types::Message;
use lithos_codecs::types::Model;
use lithos_codecs::types::Provider;
use lithos_codecs::types::ReasoningContent;
use lithos_codecs::types::ReasoningEffort;
use lithos_codecs::types::Request;
use lithos_codecs::types::ResolvedCall;
use lithos_codecs::types::ResolvedRoute;
use lithos_codecs::types::ResponseFormat;
use lithos_codecs::types::Role;
use lithos_codecs::types::Speed;
use lithos_codecs::types::ToolArguments;
use lithos_codecs::types::ToolCall;
use lithos_codecs::types::ToolCallKind;
use lithos_codecs::types::ToolChoice;
use lithos_codecs::types::ToolDefinition;
use lithos_codecs::types::ToolDefinitionKind;
use lithos_codecs::types::ToolInput;
use lithos_codecs::types::ToolResult;
use serde_json::Value;

/// The value a JSON text spells.
fn json(text: &str) -> Value {
    serde_json::from_str(text).expect("the text is JSON")
}

/// The value a JSON text spells, with values in the places `"$0"`, `"$1"`, ...
fn filled(text: &str, values: &[Value]) -> Value {
    let mut text = text.to_owned();
    for (at, value) in values.iter().enumerate() {
        text = text.replace(&format!("\"${at}\""), &value.to_string());
    }
    json(&text)
}

/// The parts of a message, as values that compare.
fn shape(parts: &[ContentPart]) -> Vec<Value> {
    parts.iter().map(|part| to_value(&part_envelope(part))).collect()
}

/// A failed call, as an error a test can return.
#[derive(Debug)]
struct Failure(CallError);

impl std::fmt::Display for Failure {
    fn fmt(&self, f: &mut std::fmt::Formatter<'_>) -> std::fmt::Result {
        f.write_str(&self.0.message)
    }
}

impl StdError for Failure {}

impl Failure {
    fn kind(&self) -> ErrorKind {
        self.0.kind
    }

    fn provider_code(&self) -> Option<&str> {
        self.0.provider_code.as_deref()
    }

    fn retry_classification(&self) -> RetryClassification {
        self.0.retry
    }

    fn raw_data(&self) -> Option<Value> {
        self.0.raw_data.as_ref().map(to_value)
    }

    fn message(&self) -> &str {
        &self.0.message
    }
}

/// An encoded request, its body as a value.
#[derive(Debug)]
struct Encoded {
    url: String,
    body: Value,
    warnings: Vec<Warning>,
    applied_speed: Option<Speed>,
}

fn shown(encoded: EncodedRequest) -> Encoded {
    Encoded {
        url: encoded.url,
        body: to_value(&encoded.body),
        warnings: encoded.warnings,
        applied_speed: encoded.applied_speed,
    }
}

/// A request and the model it asks for.
struct Asked {
    model: String,
    request: Request,
}

/// Builds a request step by step.
struct Builder(Asked);

fn builder() -> Builder {
    Builder(Asked {
        model: String::new(),
        request: Request {
            messages: Vec::new(),
            tools: Vec::new(),
            tool_choice: None,
            response_format: None,
            max_output_tokens: None,
            temperature: None,
            top_p: None,
            reasoning_effort: None,
            speed: None,
            stop_sequences: Vec::new(),
            metadata: Vec::new(),
            provider_options: JsonObject::new(),
            cache_hint: None,
        },
    })
}

/// The decimal that identifies a sampling parameter.
fn decimal(value: f32) -> Option<serde_json::Number> {
    serde_json::Number::from_f64(value.to_string().parse().expect("a decimal"))
}

impl Builder {
    fn build(self) -> Result<Asked, Box<dyn StdError>> {
        Ok(self.0)
    }

    fn model(mut self, model: &str) -> Self {
        self.0.model = model.to_owned();
        self
    }

    fn message(mut self, message: Message) -> Self {
        self.0.request.messages.push(message);
        self
    }

    fn user(self, text: &str) -> Self {
        self.message(said(Role::User, text))
    }

    fn system(self, text: &str) -> Self {
        self.message(said(Role::System, text))
    }

    fn tool(mut self, tool: ToolDefinition) -> Self {
        self.0.request.tools.push(tool);
        self
    }

    fn tool_choice(mut self, choice: ToolChoice) -> Self {
        self.0.request.tool_choice = Some(choice);
        self
    }

    fn response_format(mut self, format: ResponseFormat) -> Self {
        self.0.request.response_format = Some(format);
        self
    }

    fn max_output_tokens(mut self, tokens: u64) -> Self {
        self.0.request.max_output_tokens = Some(tokens);
        self
    }

    fn temperature(mut self, temperature: f32) -> Self {
        self.0.request.temperature = decimal(temperature);
        self
    }

    fn top_p(mut self, top_p: f32) -> Self {
        self.0.request.top_p = decimal(top_p);
        self
    }

    fn reasoning_effort(mut self, effort: ReasoningEffort) -> Self {
        self.0.request.reasoning_effort = Some(effort);
        self
    }

    fn speed(mut self, speed: Speed) -> Self {
        self.0.request.speed = Some(speed);
        self
    }

    fn stop_sequence(mut self, sequence: &str) -> Self {
        self.0.request.stop_sequences.push(sequence.to_owned());
        self
    }

    fn stop_sequences<const N: usize>(mut self, sequences: [&str; N]) -> Self {
        for sequence in sequences {
            self = self.stop_sequence(sequence);
        }
        self
    }

    fn metadata_entry(mut self, key: &str, value: &str) -> Self {
        self.0.request.metadata.push((key.to_owned(), value.to_owned()));
        self
    }

    fn provider_options(mut self, namespace: &str, options: serde_json::Map<String, Value>) -> Self {
        for (key, value) in options {
            self = self.provider_option(namespace, &key, value);
        }
        self
    }

    fn provider_option(mut self, namespace: &str, key: &str, value: Value) -> Self {
        let all = &mut self.0.request.provider_options;
        let mut options = match all.get(namespace) {
            Some(Json::Object(options)) => options.copy(),
            _ => JsonObject::new(),
        };
        options.insert(key, from_value(value));
        all.insert(namespace, Json::Object(options));
        self
    }

    fn cache_key(self, key: &str) -> Self {
        self.cache_hint(CacheHint::Key { key: key.to_owned() })
    }

    fn cache_hint(mut self, hint: CacheHint) -> Self {
        self.0.request.cache_hint = Some(hint);
        self
    }
}

fn message<const N: usize>(role: Role, content: [ContentPart; N]) -> Message {
    Message { role, content: Vec::from(content), name: None, tool_call_id: None }
}

fn said(role: Role, text: &str) -> Message {
    message(role, [ContentPart::Text { text: text.to_owned() }])
}

fn function_call(id: &str, name: &str, arguments: Value) -> ToolCall {
    ToolCall::function(id, name, &from_value(arguments))
}

fn opaque(kind: &str, data: Value) -> ContentPart {
    ContentPart::opaque(kind, from_value(data))
}

fn function_tool(name: &str, description: &str, schema: Value) -> ToolDefinition {
    ToolDefinition {
        name: name.to_owned(),
        description: description.to_owned(),
        kind: ToolDefinitionKind::Function { input_schema: from_value(schema) },
    }
}

fn custom_tool(name: &str, description: &str, format: Value) -> ToolDefinition {
    ToolDefinition {
        name: name.to_owned(),
        description: description.to_owned(),
        kind: ToolDefinitionKind::Custom { format: from_value(format) },
    }
}

fn url(url: &str) -> MediaSource {
    MediaSource::Url { url: url.to_owned(), media_type: None }
}

fn image(source: MediaSource) -> ContentPart {
    ContentPart::Image(ImageContent { source, detail: None })
}

/// The codec, with values in place of the library's documents.
struct Codec(OpenAiResponsesCodec);

impl Codec {
    fn encode(&self, call: &ResolvedCall, stream: bool) -> Result<Encoded, Failure> {
        self.0.encode(call, stream).map(shown).map_err(Failure)
    }

    fn decode_response(&self, route: &ResolvedRoute, body: Value) -> Result<Response, Failure> {
        self.0.decode_response(route, from_value(body)).map_err(Failure)
    }

    fn stream_decoder(&self, route: &ResolvedRoute) -> Decoder {
        Decoder(self.0.stream_decoder(route))
    }

    fn encode_count_tokens(&self, call: &ResolvedCall) -> Option<Result<Encoded, Failure>> {
        self.0.encode_count_tokens(call).map(|made| made.map(shown).map_err(Failure))
    }

    fn decode_count_tokens(&self, route: &ResolvedRoute, body: Value) -> Result<u64, Failure> {
        self.0.decode_count_tokens(route, from_value(body)).map_err(Failure)
    }
}

/// A stream decoder whose errors a test can return.
struct Decoder(ResponsesStream);

impl Decoder {
    fn decode(&mut self, event: SseEvent) -> Result<Vec<StreamEvent>, Failure> {
        self.0.decode(&event).map_err(Failure)
    }

    fn finish(&mut self) -> Result<Vec<StreamEvent>, Failure> {
        self.0.finish().map_err(Failure)
    }
}

fn route_of(model: &str, base_url: &str) -> ResolvedRoute {
    let (provider, model) = model.split_once('/').expect("a qualified model");
    ResolvedRoute {
        provider: Provider {
            id: provider.to_owned(),
            base_url: base_url.to_owned(),
            default_options: JsonObject::new(),
        },
        model: Model {
            id: model.to_owned(),
            api_model: model.to_owned(),
            caching: true,
            cache_routing: false,
            reasoning_effort_levels: false,
            cache_breakpoints: false,
        },
    }
}

fn resolved(asked: Asked) -> Result<ResolvedCall, Box<dyn StdError>> {
    let route = route_of(&asked.model, "https://api.openai.com");
    resolved_in(route, asked)
}

fn resolved_in(route: ResolvedRoute, asked: Asked) -> Result<ResolvedCall, Box<dyn StdError>> {
    Ok(ResolvedCall { request: asked.request, route })
}

/// The route of a model an overlay adds.
fn overlay_route(cache_routing: bool) -> ResolvedRoute {
    let mut route = route_of("openai/overlay", "https://api.openai.com");
    route.model.caching = cache_routing;
    route.model.cache_routing = cache_routing;
    route
}

fn route() -> Result<ResolvedRoute, Box<dyn StdError>> {
    Ok(call(builder().model(MODEL).user("hi").build()?)?.route)
}

/// Parts behind references, as values that compare.
fn shapes(parts: &[&ContentPart]) -> Vec<Value> {
    parts.iter().map(|part| to_value(&part_envelope(part))).collect()
}

const MODEL: &str = "openai/gpt-5.6-luna";

/// The public deployment's codec.
fn codec() -> Codec {
    Codec(OpenAiResponsesCodec::new(false))
}

fn call(request: Asked) -> Result<ResolvedCall, Box<dyn StdError>> {
    resolved(request)
}

fn sse(data: &Value) -> SseEvent {
    SseEvent {
        event: None,
        data:  data.to_string(),
    }
}

/// Every content part carried by a block-end event, in order.
fn ended_parts(events: &[StreamEvent]) -> Vec<&ContentPart> {
    events
        .iter()
        .filter_map(|event| match event {
            StreamEvent::ContentBlockEnd { part, .. } => Some(part),
            _ => None,
        })
        .collect()
}

/// Every reasoning delta of a stream, in order.
fn reasoning_deltas(events: &[StreamEvent]) -> Vec<&str> {
    events
        .iter()
        .filter_map(|event| match event {
            StreamEvent::ReasoningDelta { text, .. } => Some(text.as_str()),
            _ => None,
        })
        .collect()
}

/// The single completed response of a stream.
fn completed(events: &[StreamEvent]) -> Result<&Response, Box<dyn StdError>> {
    let mut responses = events.iter().filter_map(|event| match event {
        StreamEvent::Ended { response } => Some(response.as_ref()),
        _ => None,
    });
    let response = responses
        .next()
        .ok_or("the stream emitted no completed event")?;
    if responses.next().is_some() {
        return Err("the stream emitted more than one completed event".into());
    }
    Ok(response)
}

/// Checks one start, then deltas, then one end for every block.
fn assert_block_boundaries(events: &[StreamEvent]) -> Result<(), Box<dyn StdError>> {
    let mut open: Vec<&str> = Vec::new();
    let mut closed: Vec<&str> = Vec::new();

    for event in events {
        match event {
            StreamEvent::ContentBlockStart { id, .. } => {
                if open.contains(&id.as_str()) || closed.contains(&id.as_str()) {
                    return Err(format!("{id:?} started twice").into());
                }
                open.push(id.as_str());
            }
            StreamEvent::TextDelta { id, .. }
            | StreamEvent::ReasoningDelta { id, .. }
            | StreamEvent::ToolCallDelta { id, .. } => {
                if !open.contains(&id.as_str()) {
                    return Err(format!("{id:?} sent a delta before its start").into());
                }
            }
            StreamEvent::ContentBlockEnd { id, .. } => {
                if !open.contains(&id.as_str()) {
                    return Err(format!("{id:?} ended without a start").into());
                }
                open.retain(|open_id| *open_id != id.as_str());
                closed.push(id.as_str());
            }
            StreamEvent::Started { .. }
            | StreamEvent::Usage { .. }
            | StreamEvent::Ended { .. } => {}
        }
    }

    if !open.is_empty() {
        return Err(format!("blocks left open: {open:?}").into());
    }
    Ok(())
}

#[test]
fn tests_tool_calls_and_results_keep_their_protocol_identity() -> Result<(), Box<dyn StdError>> {
    let mut call_part = function_call("call_abc", "search", json(r#"{ "query": "rust" }"#));
    call_part.input =
        ToolInput::Function(ToolArguments::from_raw("{\"query\":\"rust\"}".to_owned()));
    call_part
        .provider_metadata
        .insert("openai", from_value(json(r#"{ "item_id": "fc_123" }"#)));
    let request = builder()
        .model(MODEL)
        .user("Search for rust")
        .message(message(Role::Assistant, [ContentPart::ToolCall(
            call_part,
        )]))
        .message(message(Role::Tool, [ContentPart::ToolResult(
            ToolResult {
                tool_call_id: "call_abc".to_owned(),
                name:         Some("search".to_owned()),
                content:      vec![ContentPart::Text {
                    text: "2 matches".to_owned(),
                }],
                is_error:     false,
            },
        )]))
        .build()?;
    let codec = codec();

    let encoded = codec.encode(&call(request)?, false)?;

    assert_eq!(
        encoded.body["input"][1],
        json(r#"{
            "type": "function_call",
            "id": "fc_123",
            "call_id": "call_abc",
            "name": "search",
            "arguments": "{\"query\":\"rust\"}"
        }"#)
    );
    assert_eq!(
        encoded.body["input"][2],
        json(r#"{
            "type": "function_call_output",
            "call_id": "call_abc",
            "output": "2 matches"
        }"#)
    );

    let route = route()?;
    let response = codec.decode_response(
        &route,
        json(r#"{
            "id": "resp_1",
            "status": "completed",
            "output": [{
                "type": "function_call",
                "id": "fc_123",
                "call_id": "call_abc",
                "name": "search",
                "arguments": "{\"query\":\"rust\"}"
            }]
        }"#),
    )?;

    let [ContentPart::ToolCall(decoded)] = response.content.as_slice() else {
        return Err("expected one tool call".into());
    };
    assert_eq!(decoded.id, "call_abc");
    assert_eq!(to_value(&decoded.input.wire_value()), json(r#"{ "query": "rust" }"#));
    assert_eq!(Some(decoded.input.raw()), Some("{\"query\":\"rust\"}"));
    assert_eq!(decoded.provider_metadata.get("openai").map(to_value), Some(json(r#"{ "item_id": "fc_123" }"#)));
    Ok(())
}

#[test]
fn tests_raw_options_win_and_foreign_namespaces_are_ignored() -> Result<(), Box<dyn StdError>> {
    let request = builder()
        .model(MODEL)
        .user("Hello")
        .temperature(0.2)
        .provider_option("openai", "temperature", Value::from(0.9))
        .provider_option("openai", "auto_cache", Value::Bool(false))
        .provider_option("anthropic", "top_k", Value::from(40))
        .build()?;

    let encoded = codec().encode(&call(request)?, false)?;

    assert_eq!(encoded.body["temperature"], Value::from(0.9));
    let body = encoded.body.as_object().ok_or("expected a JSON object")?;
    assert!(!body.contains_key("auto_cache"));
    assert!(!body.contains_key("top_k"));
    Ok(())
}

#[test]
fn tests_stop_sequences_are_dropped_with_a_warning() -> Result<(), Box<dyn StdError>> {
    let request = builder()
        .model(MODEL)
        .user("Hello")
        .stop_sequences(["END", "STOP"])
        .metadata_entry("trace_id", "t789")
        .build()?;

    let encoded = codec().encode(&call(request)?, false)?;

    // The live API rejects a `stop` member outright (2026-08-30), so the
    // sequences never reach the wire and the caller is warned instead.
    let body = encoded.body.as_object().ok_or("expected a JSON object")?;
    assert!(!body.contains_key("stop"));
    assert_eq!(encoded.body["metadata"], json(r#"{ "trace_id": "t789" }"#));
    assert_eq!(
        encoded.warnings.len(),
        1,
        "dropping the stop sequences must warn: {:?}",
        encoded.warnings,
    );
    Ok(())
}

#[test]
fn tests_each_speed_selects_its_service_tier() -> Result<(), Box<dyn StdError>> {
    for (speed, tier) in [
        (Speed::Fast, "priority"),
        (Speed::Balanced, "auto"),
        (Speed::Economical, "flex"),
    ] {
        let request = builder()
            .model(MODEL)
            .user("Hello")
            .speed(speed)
            .build()?;

        let encoded = codec().encode(&call(request)?, false)?;

        assert_eq!(encoded.body["service_tier"], Value::from(tier));
    }
    Ok(())
}

#[test]
fn tests_codex_mode_hoists_instructions_and_drops_sampling_controls() -> Result<(), Box<dyn StdError>> {
    let request = builder()
        .model(MODEL)
        .system("Be brief")
        .user("Hello")
        .temperature(0.2)
        .top_p(0.5)
        .max_output_tokens(256)
        .build()?;

    let encoded = Codec(OpenAiResponsesCodec::new(true)).encode(&call(request)?, true)?;

    assert_eq!(encoded.body["instructions"], Value::from("Be brief"));
    assert_eq!(
        encoded.body["input"],
        json(r#"[{
            "role": "user",
            "content": [{ "type": "input_text", "text": "Hello" }]
        }]"#)
    );
    assert_eq!(encoded.body["stream"], Value::Bool(true));
    let body = encoded.body.as_object().ok_or("expected a JSON object")?;
    assert!(!body.contains_key("temperature"));
    assert!(!body.contains_key("top_p"));
    assert!(!body.contains_key("max_output_tokens"));
    assert_eq!(encoded.warnings.len(), 3);
    // The deployment hangs its endpoint off the base path with no
    // version segment; `/v1/responses` there is an HTML 403.
    assert!(
        encoded.url.ends_with("/responses") && !encoded.url.contains("/v1/"),
        "codex mode must post to the unversioned path: {}",
        encoded.url
    );
    Ok(())
}

#[test]
fn tests_codex_mode_reports_no_native_token_count() -> Result<(), Box<dyn StdError>> {
    let request = builder().model(MODEL).user("Hello").build()?;
    // The Codex deployment serves no `/responses/input_tokens` (an HTML
    // 403 on 2026-08-30), so codex mode must say "no native count"
    // rather than build a request that cannot succeed.
    assert!(
        Codec(OpenAiResponsesCodec::new(true))
            .encode_count_tokens(&call(request)?)
            .is_none()
    );
    Ok(())
}

#[test]
fn responses_inclusive_usage_becomes_disjoint_buckets() -> Result<(), Box<dyn StdError>> {
    let route = route()?;

    let response = codec().decode_response(
        &route,
        json(r#"{
            "id": "resp_1",
            "status": "completed",
            "output": [],
            "usage": {
                "input_tokens": 100,
                "output_tokens": 50,
                "input_tokens_details": { "cached_tokens": 80, "cache_write_tokens": 15 },
                "output_tokens_details": { "reasoning_tokens": 20 }
            }
        }"#),
    )?;

    assert_eq!(response.usage.input, 5);
    assert_eq!(response.usage.output, 30);
    assert_eq!(response.usage.reasoning, 20);
    assert_eq!(response.usage.cache_read, 80);
    assert_eq!(response.usage.cache_write, 15);
    assert_eq!(response.usage.total(), 150);
    assert!(response.cost.is_none());
    Ok(())
}

#[test]
fn tests_encrypted_reasoning_is_requested_without_the_catalog_flag() -> Result<(), Box<dyn StdError>> {
    // An overlay entry that forgets `reasoning = true` on a reasoning
    // model must not silently lose the encrypted content its next turn
    // needs; a model without reasoning ignores the include.
    let call = resolved_in(
        overlay_route(false),
        builder()
            .model("openai/overlay")
            .user("hi")
            .build()?,
    )?;

    let encoded = codec().encode(&call, false)?;

    assert_eq!(
        encoded.body["include"],
        json(r#"["reasoning.encrypted_content"]"#)
    );
    Ok(())
}

#[test]
fn tests_a_routing_model_sends_the_cache_fingerprint() -> Result<(), Box<dyn StdError>> {
    let call = resolved_in(
        overlay_route(true),
        builder()
            .model("openai/routed")
            .system("Keep it short.")
            .user("hi")
            .build()?,
    )?;

    let encoded = codec().encode(&call, false)?;

    let key = encoded.body["prompt_cache_key"]
        .as_str()
        .ok_or("no prompt_cache_key was sent")?;
    assert!(key.starts_with("lithos-"), "unexpected key shape: {key}");
    Ok(())
}

#[test]
fn tests_a_summary_only_reasoning_item_is_kept_for_replay() -> Result<(), Box<dyn StdError>> {
    // Function calls must replay behind their reasoning item, and only
    // the original item with its id satisfies the pairing — even when it
    // carries a visible summary and no encrypted payload. With no
    // `content`, the summary blocks stand in as the reasoning text,
    // joined by the blank line a consumer puts between them when it
    // reads the summary off the opaque item.
    let route = route()?;
    let item = json(r#"{
        "type": "reasoning",
        "id": "rs_1",
        "summary": [
            { "type": "summary_text", "text": "Checked the files." },
            { "type": "summary_text", "text": "Nothing to change." }
        ]
    }"#);

    let response = codec().decode_response(
        &route,
        filled(r#"{ "id": "resp_1", "status": "completed", "output": ["$0"] }"#, &[Value::from(item.clone())]),
    )?;

    assert_eq!(shape(&response.content), shape(&[
        ContentPart::Reasoning(ReasoningContent {
            text:             "Checked the files.\n\nNothing to change.".to_owned(),
            signature:        None,
            signature_origin: None,
            redacted:         false,
        }),
        opaque(REASONING_KIND, item),
    ]));
    Ok(())
}

#[test]
fn tests_a_body_without_an_output_array_fails_to_decode() -> Result<(), Box<dyn StdError>> {
    let route = route()?;

    // An empty object and an error-shaped 200 both lack the `output`
    // array every Responses document carries; neither may decode as a
    // successful empty response.
    for body in [json(r#"{}"#), json(r#"{ "error": { "message": "boom" } }"#)] {
        let error = codec()
            .decode_response(&route, body)
            .err()
            .ok_or("expected a body without output to fail")?;
        assert_eq!(error.kind(), ErrorKind::ResponseDecode);
        assert_eq!(error.retry_classification(), RetryClassification::Safe);
    }
    Ok(())
}

#[test]
fn tests_an_unknown_response_status_keeps_its_spelling() -> Result<(), Box<dyn StdError>> {
    let route = route()?;

    let response = codec().decode_response(
        &route,
        json(r#"{ "id": "resp_1", "status": "cancelled", "output": [] }"#),
    )?;

    assert_eq!(
        response.finish_reason,
        FinishReason::Other("cancelled".to_owned())
    );
    Ok(())
}

#[test]
fn tests_the_raw_success_document_is_preserved() -> Result<(), Box<dyn StdError>> {
    let route = route()?;
    let document = json(r#"{
        "id": "resp_1",
        "status": "completed",
        "service_tier": "default",
        "output": [{
            "type": "message",
            "id": "msg_1",
            "content": [{ "type": "output_text", "text": "hello" }]
        }]
    }"#);

    let response = codec().decode_response(&route, document.clone())?;

    assert_eq!(response.raw.as_ref().map(to_value), Some(document));
    assert_eq!(response.text(), "hello");
    Ok(())
}

#[test]
fn tests_custom_tools_round_trip() -> Result<(), Box<dyn StdError>> {
    let request = builder()
        .model(MODEL)
        .tool(custom_tool(
            "apply_patch",
            "Edits files",
            json(r#"{ "type": "grammar", "syntax": "lark" }"#),
        ))
        .user("Patch the file")
        .message(message(Role::Assistant, [ContentPart::ToolCall(
            ToolCall::custom("call_001", "apply_patch", "*** Begin Patch"),
        )]))
        .message(message(Role::Tool, [ContentPart::ToolResult(
            ToolResult {
                tool_call_id: "call_001".to_owned(),
                name:         Some("apply_patch".to_owned()),
                content:      vec![ContentPart::Text {
                    text: "Success".to_owned(),
                }],
                is_error:     false,
            },
        )]))
        .build()?;
    let codec = codec();
    let call = call(request)?;

    let encoded = codec.encode(&call, false)?;

    assert_eq!(
        encoded.body["tools"][0],
        json(r#"{
            "type": "custom",
            "name": "apply_patch",
            "description": "Edits files",
            "format": { "type": "grammar", "syntax": "lark" }
        }"#)
    );
    assert_eq!(
        encoded.body["input"][1],
        json(r#"{
            "type": "custom_tool_call",
            "call_id": "call_001",
            "name": "apply_patch",
            "input": "*** Begin Patch"
        }"#)
    );
    assert_eq!(
        encoded.body["input"][2],
        json(r#"{
            "type": "custom_tool_call_output",
            "call_id": "call_001",
            "output": "Success"
        }"#)
    );

    let response = codec.decode_response(
        &call.route,
        json(r#"{
            "id": "resp_1",
            "status": "completed",
            "output": [{
                "type": "custom_tool_call",
                "id": "ctc_def456",
                "call_id": "call_001",
                "name": "apply_patch",
                "input": "*** Begin Patch"
            }]
        }"#),
    )?;

    let [ContentPart::ToolCall(decoded)] = response.content.as_slice() else {
        return Err("expected one tool call".into());
    };
    assert_eq!(decoded.input.kind(), ToolCallKind::Custom);
    assert_eq!(
        to_value(&decoded.input.wire_value()),
        Value::String("*** Begin Patch".to_owned())
    );
    assert_eq!(Some(decoded.input.raw()), Some("*** Begin Patch"));
    Ok(())
}

#[test]
fn tests_opaque_reasoning_replays_and_other_namespaces_are_skipped() -> Result<(), Box<dyn StdError>> {
    let item = json(r#"{
        "type": "reasoning",
        "id": "rs_1",
        "summary": [],
        "encrypted_content": "gAAAA"
    }"#);
    let request = builder()
        .model(MODEL)
        .user("Hello")
        .message(message(Role::Assistant, [
            opaque("openai.reasoning", item.clone()),
            opaque("anthropic.thinking", json(r#"{ "signature": "sig" }"#)),
            ContentPart::Reasoning(ReasoningContent {
                text:             "step one".to_owned(),
                signature:        None,
                signature_origin: None,
                redacted:         false,
            }),
            ContentPart::Text {
                text: "hello".to_owned(),
            },
        ]))
        .build()?;

    let encoded = codec().encode(&call(request)?, false)?;

    assert_eq!(encoded.body["input"][1], item);
    assert_eq!(
        encoded.body["input"][2],
        json(r#"{
            "role": "assistant",
            "content": [{ "type": "output_text", "text": "hello" }]
        }"#)
    );
    assert_eq!(
        encoded.body["input"].as_array().map(Vec::len),
        Some(3),
        "an opaque part for another provider must not reach the wire",
    );
    Ok(())
}

#[test]
fn noncanonical_replay_kinds_and_metadata_are_ignored() -> Result<(), Box<dyn StdError>> {
    let mut tool = function_call("call_1", "search", json(r#"{}"#));
    tool.provider_metadata
        .insert("id", from_value(Value::from("fc_old")));
    let request = builder()
        .model(MODEL)
        .user("hi")
        .message(message(Role::Assistant, [
            opaque(
                "openai_reasoning",
                json(r#"{"type":"reasoning","id":"rs_old"}"#),
            ),
            opaque("openai_message", json(r#"{"type":"message","id":"msg_old"}"#)),
            ContentPart::ToolCall(tool),
        ]))
        .build()?;
    let encoded = codec().encode(&call(request)?, false)?;
    assert_eq!(encoded.body["input"].as_array().map(Vec::len), Some(2));
    assert!(encoded.body["input"][1].get("id").is_none());
    Ok(())
}

#[test]
fn tests_a_reasoning_item_decodes_to_visible_text_and_a_replay_part() -> Result<(), Box<dyn StdError>> {
    // When the item carries `content`, the reasoning part is that trace
    // alone; the summary stays on the opaque item.
    let route = route()?;

    let response = codec().decode_response(
        &route,
        json(r#"{
            "id": "resp_1",
            "status": "completed",
            "output": [{
                "type": "reasoning",
                "id": "rs_1",
                "summary": [{ "type": "summary_text", "text": "Checked the files." }],
                "content": [{ "type": "reasoning_text", "text": "checked" }],
                "encrypted_content": "gAAAA"
            }]
        }"#),
    )?;

    let [ContentPart::Reasoning(reasoning), opaque] = response.content.as_slice() else {
        return Err("expected reasoning text and its replay part".into());
    };
    assert_eq!(reasoning.text, "checked");
    assert_eq!(opaque.opaque_namespace(), Some("openai"));
    Ok(())
}

#[test]
fn reasoning_content_entries_join_with_a_blank_line() -> Result<(), Box<dyn StdError>> {
    let route = route()?;

    let response = codec().decode_response(
        &route,
        json(r#"{
            "id": "resp_1",
            "status": "completed",
            "output": [{
                "type": "reasoning",
                "id": "rs_1",
                "summary": [],
                "content": [
                    { "type": "reasoning_text", "text": "First." },
                    { "type": "reasoning_text", "text": "Second." }
                ]
            }]
        }"#),
    )?;

    let [ContentPart::Reasoning(reasoning), _opaque] = response.content.as_slice() else {
        return Err("expected reasoning text and its replay part".into());
    };
    assert_eq!(reasoning.text, "First.\n\nSecond.");
    Ok(())
}

#[test]
fn an_entry_of_an_unknown_type_is_not_reasoning_text() -> Result<(), Box<dyn StdError>> {
    let route = route()?;
    let decode = |item: Value| -> Result<Vec<ContentPart>, Box<dyn StdError>> {
        Ok(codec()
            .decode_response(
                &route,
                filled(r#"{ "id": "resp_1", "status": "completed", "output": ["$0"] }"#, &[Value::from(item.clone())]),
            )?
            .content)
    };

    // A text-bearing `content` entry of another type is skipped.
    let parts = decode(json(r#"{
        "type": "reasoning",
        "id": "rs_1",
        "summary": [],
        "content": [
            { "type": "reasoning_text", "text": "checked" },
            { "type": "reasoning_note", "text": "hidden" }
        ]
    }"#))?;
    let [ContentPart::Reasoning(reasoning), _opaque] = parts.as_slice() else {
        return Err("expected reasoning text and its replay part".into());
    };
    assert_eq!(reasoning.text, "checked");

    // `content` made only of such entries carries no trace, so the
    // summary stands in, and a summary block of another type is skipped
    // the same way.
    let parts = decode(json(r#"{
        "type": "reasoning",
        "id": "rs_1",
        "summary": [
            { "type": "summary_text", "text": "Checked the files." },
            { "type": "summary_note", "text": "hidden" }
        ],
        "content": [{ "type": "reasoning_note", "text": "hidden" }]
    }"#))?;
    let [ContentPart::Reasoning(reasoning), _opaque] = parts.as_slice() else {
        return Err("expected reasoning text and its replay part".into());
    };
    assert_eq!(reasoning.text, "Checked the files.");
    Ok(())
}

#[test]
fn tests_a_lost_item_announcement_recovers_the_call_identity() -> Result<(), Box<dyn StdError>> {
    // The argument fragments arrive before any `output_item.added`, so
    // they latch the assembler's fallback block — call id equal to the
    // item id, no name. The terminal item event carries the real
    // identity, and the assembled part must not keep the fallback's.
    let route = route()?;
    let mut decoder = codec().stream_decoder(&route);
    let transcript = vec![
        json(r#"{ "type": "response.created", "response": { "id": "resp_1" } }"#),
        json(r#"{
            "type": "response.function_call_arguments.delta",
            "item_id": "fc_123",
            "delta": "{\"query\":"
        }"#),
        json(r#"{
            "type": "response.function_call_arguments.delta",
            "item_id": "fc_123",
            "delta": "\"rust\"}"
        }"#),
        json(r#"{
            "type": "response.output_item.done",
            "output_index": 0,
            "item": {
                "type": "function_call",
                "id": "fc_123",
                "call_id": "call_abc",
                "name": "search",
                "arguments": "{\"query\":\"rust\"}"
            }
        }"#),
    ];

    let mut events = Vec::new();
    for event in transcript {
        events.extend(decoder.decode(sse(&event))?);
    }
    events.extend(decoder.finish()?);

    let parts = ended_parts(&events);
    let [ContentPart::ToolCall(recovered)] = parts.as_slice() else {
        return Err(format!("expected one tool call part, got {parts:?}").into());
    };
    assert_eq!(recovered.id, "call_abc");
    assert_eq!(recovered.name, "search");
    assert_eq!(to_value(&recovered.input.wire_value()), json(r#"{ "query": "rust" }"#));
    Ok(())
}

#[test]
fn tests_a_lost_added_for_an_internal_call_leaves_no_phantom_part() -> Result<(), Box<dyn StdError>> {
    // Argument deltas for an unannounced item latch the fallback block,
    // and the terminal item then reveals a model-internal call with no
    // name. Blocking decode drops the item, and the stream must match:
    // the latched block closes for consumers that saw it open, but no
    // nameless ToolCall joins the content and the finish reason stays
    // the document's.
    let route = route()?;
    let mut decoder = codec().stream_decoder(&route);
    let transcript = vec![
        json(r#"{ "type": "response.created", "response": { "id": "resp_1" } }"#),
        json(r#"{
            "type": "response.function_call_arguments.delta",
            "item_id": "fc_9",
            "delta": "{\"q\":1}"
        }"#),
        json(r#"{
            "type": "response.output_item.done",
            "output_index": 0,
            "item": { "type": "function_call", "id": "fc_9", "arguments": "{\"q\":1}" }
        }"#),
        json(r#"{
            "type": "response.completed",
            "response": { "id": "resp_1", "status": "completed", "output": [] }
        }"#),
    ];

    let mut events = Vec::new();
    for event in transcript {
        events.extend(decoder.decode(sse(&event))?);
    }
    events.extend(decoder.finish()?);

    assert_block_boundaries(&events)?;
    let response = completed(&events)?;
    assert!(response.content.is_empty());
    assert_eq!(response.finish_reason, FinishReason::Stop);
    Ok(())
}

#[test]
fn tests_a_lost_argument_delta_is_healed_by_the_terminal_item() -> Result<(), Box<dyn StdError>> {
    // One argument fragment never arrives. The terminal item carries the
    // complete arguments, so the assembled call must not keep the
    // truncation — and the missing tail goes out as an ordinary delta so
    // a consumer concatenating fragments stays correct too.
    let route = route()?;
    let mut decoder = codec().stream_decoder(&route);
    let transcript = vec![
        json(r#"{ "type": "response.created", "response": { "id": "resp_1" } }"#),
        json(r#"{
            "type": "response.output_item.added",
            "output_index": 0,
            "item": {
                "type": "function_call",
                "id": "fc_123",
                "call_id": "call_abc",
                "name": "search"
            }
        }"#),
        json(r#"{
            "type": "response.function_call_arguments.delta",
            "item_id": "fc_123",
            "delta": "{\"query\":"
        }"#),
        // The fragment carrying "\"rust\"}" is lost in transit.
        json(r#"{
            "type": "response.output_item.done",
            "output_index": 0,
            "item": {
                "type": "function_call",
                "id": "fc_123",
                "call_id": "call_abc",
                "name": "search",
                "arguments": "{\"query\":\"rust\"}"
            }
        }"#),
    ];

    let mut events = Vec::new();
    for event in transcript {
        events.extend(decoder.decode(sse(&event))?);
    }
    events.extend(decoder.finish()?);

    let tails: Vec<&str> = events
        .iter()
        .filter_map(|event| match event {
            StreamEvent::ToolCallDelta { arguments, .. } => Some(arguments.as_str()),
            _ => None,
        })
        .collect();
    assert_eq!(tails, ["{\"query\":", "\"rust\"}"]);
    let parts = ended_parts(&events);
    let [ContentPart::ToolCall(healed)] = parts.as_slice() else {
        return Err(format!("expected one tool call part, got {parts:?}").into());
    };
    assert_eq!(to_value(&healed.input.wire_value()), json(r#"{ "query": "rust" }"#));
    assert_eq!(Some(healed.input.raw()), Some("{\"query\":\"rust\"}"));
    Ok(())
}

#[test]
fn tests_a_garbled_argument_buffer_is_replaced_by_the_terminal_item() -> Result<(), Box<dyn StdError>> {
    // The streamed fragments disagree with the terminal item — not a
    // prefix, so something was mangled in transit. The terminal item is
    // the ground truth and replaces the buffer outright.
    let route = route()?;
    let mut decoder = codec().stream_decoder(&route);
    let transcript = vec![
        json(r#"{ "type": "response.created", "response": { "id": "resp_1" } }"#),
        json(r#"{
            "type": "response.output_item.added",
            "output_index": 0,
            "item": {
                "type": "function_call",
                "id": "fc_123",
                "call_id": "call_abc",
                "name": "search"
            }
        }"#),
        json(r#"{
            "type": "response.function_call_arguments.delta",
            "item_id": "fc_123",
            "delta": "\"rust\"}"
        }"#),
        json(r#"{
            "type": "response.output_item.done",
            "output_index": 0,
            "item": {
                "type": "function_call",
                "id": "fc_123",
                "call_id": "call_abc",
                "name": "search",
                "arguments": "{\"query\":\"rust\"}"
            }
        }"#),
    ];

    let mut events = Vec::new();
    for event in transcript {
        events.extend(decoder.decode(sse(&event))?);
    }
    events.extend(decoder.finish()?);

    let parts = ended_parts(&events);
    let [ContentPart::ToolCall(replaced)] = parts.as_slice() else {
        return Err(format!("expected one tool call part, got {parts:?}").into());
    };
    assert_eq!(to_value(&replaced.input.wire_value()), json(r#"{ "query": "rust" }"#));
    assert_eq!(Some(replaced.input.raw()), Some("{\"query\":\"rust\"}"));
    Ok(())
}

#[test]
fn tests_a_text_only_tool_message_answering_a_custom_call_routes_as_custom()
-> Result<(), Box<dyn StdError>> {
    // The custom call rides earlier in the request; the answering tool
    // message carries only text and a call id — no name, and the tool is
    // not redeclared. A function_call_output against a custom_tool_call
    // is rejected by the provider, so the call-id route must apply here
    // exactly as it does on the ToolResult path.
    let request = builder()
        .model(MODEL)
        .user("Patch the file")
        .message(message(Role::Assistant, [ContentPart::ToolCall(
            ToolCall::custom("call_001", "apply_patch", "*** Begin Patch"),
        )]))
        .message(
            Message {
                tool_call_id: Some("call_001".to_owned()),
                ..said(Role::Tool, "Success")
            },
        )
        .build()?;

    let encoded = codec().encode(&call(request)?, false)?;

    assert_eq!(
        encoded.body["input"][2],
        json(r#"{
            "type": "custom_tool_call_output",
            "call_id": "call_001",
            "output": "Success"
        }"#)
    );
    Ok(())
}

#[test]
fn tests_a_streamed_message_without_text_emits_no_empty_text_part() -> Result<(), Box<dyn StdError>> {
    // An empty assistant message streams no output_text. Blocking decode
    // of the same body pushes no text part, and the streamed response
    // must match: only the opaque replay item, no Text("") and no stray
    // start/end pair.
    let route = route()?;
    let mut decoder = codec().stream_decoder(&route);
    let item = json(r#"{
        "type": "message",
        "id": "msg_1",
        "status": "completed",
        "role": "assistant",
        "content": []
    }"#);
    let transcript = vec![
        json(r#"{ "type": "response.created", "response": { "id": "resp_1" } }"#),
        json(r#"{
            "type": "response.output_item.added",
            "output_index": 0,
            "item": { "type": "message", "id": "msg_1", "role": "assistant", "content": [] }
        }"#),
        filled(r#"{
            "type": "response.output_item.done",
            "output_index": 0,
            "item": "$0"}"#, &[Value::from(item.clone())]),
    ];

    let mut events = Vec::new();
    for event in transcript {
        events.extend(decoder.decode(sse(&event))?);
    }
    events.extend(decoder.finish()?);

    assert_block_boundaries(&events)?;
    let response = completed(&events)?;
    let [ContentPart::Opaque { kind, data }] = response.content.as_slice() else {
        return Err(format!("expected only the opaque item, got {:?}", response.content).into());
    };
    assert_eq!(kind, MESSAGE_KIND);
    assert_eq!(to_value(data), item);
    Ok(())
}

#[test]
fn tests_a_refusal_part_fails_instead_of_decoding() -> Result<(), Box<dyn StdError>> {
    let route = route()?;
    let body = json(r#"{
        "id": "resp_1",
        "status": "completed",
        "output": [{
            "type": "message",
            "id": "msg_1",
            "role": "assistant",
            "content": [{ "type": "refusal", "refusal": "I can't help with that." }]
        }]
    }"#);

    let error = codec()
        .decode_response(&route, body.clone())
        .expect_err("a refusal must fail the call");

    assert_eq!(error.kind(), ErrorKind::ContentFilter);
    assert_eq!(error.provider_code(), Some("refusal"));
    assert!(
        error.to_string().contains("I can't help with that."),
        "{error}"
    );
    assert_eq!(error.raw_data(), Some(body));
    Ok(())
}

#[test]
fn tests_a_streamed_refusal_fails_at_the_terminal_event() -> Result<(), Box<dyn StdError>> {
    let route = route()?;
    let mut decoder = codec().stream_decoder(&route);
    let item = json(r#"{
        "type": "message",
        "id": "msg_1",
        "status": "completed",
        "role": "assistant",
        "content": [{ "type": "refusal", "refusal": "I can't help with that." }]
    }"#);
    decoder.decode(sse(
        &json(r#"{ "type": "response.created", "response": { "id": "resp_1" } }"#),
    ))?;
    decoder.decode(sse(&json(r#"{
        "type": "response.output_item.added",
        "output_index": 0,
        "item": { "type": "message", "id": "msg_1", "role": "assistant", "content": [] }
    }"#)))?;
    decoder.decode(sse(&filled(r#"{
        "type": "response.output_item.done",
        "output_index": 0,
        "item": "$0"}"#, &[Value::from(item.clone())])))?;

    let error = decoder
        .decode(sse(&filled(r#"{
            "type": "response.completed",
            "response": {
                "id": "resp_1",
                "status": "completed",
                "output": ["$0"]
            }
        }"#, &[Value::from(item.clone())])))
        .expect_err("a refusal must fail the stream");

    assert_eq!(error.kind(), ErrorKind::ContentFilter);
    assert_eq!(error.provider_code(), Some("refusal"));
    assert!(
        error.to_string().contains("I can't help with that."),
        "{error}"
    );
    Ok(())
}

#[test]
fn tests_a_terminal_document_without_output_completes_from_the_streamed_blocks()
-> Result<(), Box<dyn StdError>> {
    // A middlebox that strips the terminal document below the decodable
    // shape must not fail a stream whose answer already streamed. The id,
    // usage, and status it does carry are salvaged.
    let route = route()?;
    let mut decoder = codec().stream_decoder(&route);
    let transcript = vec![
        json(r#"{ "type": "response.created", "response": { "id": "resp_1" } }"#),
        json(r#"{
            "type": "response.output_item.added",
            "output_index": 0,
            "item": { "type": "message", "id": "msg_1", "role": "assistant", "content": [] }
        }"#),
        json(r#"{ "type": "response.output_text.delta", "item_id": "msg_1", "delta": "Hello" }"#),
        json(r#"{
            "type": "response.completed",
            "response": {
                "id": "resp_1",
                "status": "completed",
                "usage": { "input_tokens": 7, "output_tokens": 2 }
            }
        }"#),
    ];

    let mut events = Vec::new();
    for event in transcript {
        events.extend(decoder.decode(sse(&event))?);
    }
    events.extend(decoder.finish()?);

    let response = completed(&events)?;
    assert_eq!(response.id.as_deref(), Some("resp_1"));
    assert_eq!(response.finish_reason, FinishReason::Stop);
    assert_eq!(response.usage.input, 7);
    assert_eq!(response.usage.output, 2);
    let [ContentPart::Text { text }] = response.content.as_slice() else {
        return Err(format!("expected the streamed text, got {:?}", response.content).into());
    };
    assert_eq!(text, "Hello");
    Ok(())
}

#[test]
fn tests_a_flattened_terminal_event_completes_from_its_own_fields() -> Result<(), Box<dyn StdError>> {
    let route = route()?;
    let mut decoder = codec().stream_decoder(&route);
    let transcript = vec![
        json(r#"{ "type": "response.created", "response": { "id": "resp_1" } }"#),
        json(r#"{ "type": "response.output_text.delta", "item_id": "msg_1", "delta": "Hi" }"#),
        json(r#"{
            "type": "response.completed",
            "id": "resp_1",
            "status": "completed",
            "usage": { "input_tokens": 3, "output_tokens": 1 }
        }"#),
    ];

    let mut events = Vec::new();
    for event in transcript {
        events.extend(decoder.decode(sse(&event))?);
    }
    events.extend(decoder.finish()?);

    let response = completed(&events)?;
    assert_eq!(response.id.as_deref(), Some("resp_1"));
    assert_eq!(response.finish_reason, FinishReason::Stop);
    assert_eq!(response.usage.input, 3);
    Ok(())
}

#[test]
fn tests_a_stream_transcript_produces_one_block_per_item() -> Result<(), Box<dyn StdError>> {
    let route = route()?;
    let mut decoder = codec().stream_decoder(&route);
    let transcript = vec![
        json(r#"{ "type": "response.created", "response": { "id": "resp_stream" } }"#),
        json(r#"{
            "type": "response.output_item.added",
            "output_index": 0,
            "item": { "type": "message", "id": "msg_1", "role": "assistant", "content": [] }
        }"#),
        json(r#"{ "type": "response.output_text.delta", "item_id": "msg_1", "delta": "Hel" }"#),
        json(r#"{ "type": "response.output_text.delta", "item_id": "msg_1", "delta": "lo" }"#),
        json(r#"{
            "type": "response.output_item.done",
            "output_index": 0,
            "item": {
                "type": "message",
                "id": "msg_1",
                "content": [{ "type": "output_text", "text": "Hello" }]
            }
        }"#),
        json(r#"{
            "type": "response.output_item.added",
            "output_index": 1,
            "item": {
                "type": "function_call",
                "id": "fc_123",
                "call_id": "call_abc",
                "name": "search"
            }
        }"#),
        json(r#"{
            "type": "response.function_call_arguments.delta",
            "item_id": "fc_123",
            "delta": "{\"qu"
        }"#),
        json(r#"{
            "type": "response.function_call_arguments.delta",
            "item_id": "fc_123",
            "delta": "ery\":\"rust\"}"
        }"#),
        json(r#"{
            "type": "response.output_item.done",
            "output_index": 1,
            "item": {
                "type": "function_call",
                "id": "fc_123",
                "call_id": "call_abc",
                "name": "search",
                "arguments": "{\"query\":\"rust\"}"
            }
        }"#),
        json(r#"{
            "type": "response.completed",
            "response": {
                "id": "resp_stream",
                "status": "completed",
                "output": [],
                "usage": {
                    "input_tokens": 11,
                    "output_tokens": 5,
                    "input_tokens_details": { "cached_tokens": 2 },
                    "output_tokens_details": { "reasoning_tokens": 1 }
                }
            }
        }"#),
    ];

    let mut events = Vec::new();
    for event in transcript {
        events.extend(decoder.decode(sse(&event))?);
    }
    events.extend(decoder.finish()?);

    assert_block_boundaries(&events)?;
    let starts = events
        .iter()
        .filter(|event| matches!(event, StreamEvent::ContentBlockStart { .. }))
        .count();
    // The message contributes two blocks: the visible text and the whole
    // item, kept for replay.
    assert_eq!(starts, 3);
    assert!(matches!(
        events.first(),
        Some(StreamEvent::Started { id: Some(id) }) if id == "resp_stream"
    ));

    let parts = ended_parts(&events);
    assert_eq!(shapes(&parts)[0], shape(&[ContentPart::Text {
        text: "Hello".to_owned(),
    }])[0]);
    assert_eq!(
        shapes(&parts)[1],
        shape(&[opaque(
            MESSAGE_KIND,
            json(r#"{
                "type": "message",
                "id": "msg_1",
                "content": [{ "type": "output_text", "text": "Hello" }]
            }"#)
        )])[0]
    );
    let ContentPart::ToolCall(streamed) = &parts[2] else {
        return Err("expected a streamed tool call".into());
    };
    assert_eq!(streamed.id, "call_abc");
    assert_eq!(streamed.name, "search");
    assert_eq!(to_value(&streamed.input.wire_value()), json(r#"{ "query": "rust" }"#));
    assert_eq!(streamed.provider_metadata.get("openai").map(to_value), Some(json(r#"{ "item_id": "fc_123" }"#)));

    let response = completed(&events)?;
    assert_eq!(shape(&response.content), shapes(&parts));
    assert_eq!(response.id.as_deref(), Some("resp_stream"));
    assert_eq!(response.usage.input, 9);
    assert_eq!(response.usage.cache_read, 2);
    assert_eq!(response.usage.reasoning, 1);
    assert!(response.raw.is_some());
    // The terminal document's `output` is empty — trimmed by a middlebox,
    // say — but the stream plainly delivered a tool call, and the
    // assembled blocks decide.
    assert_eq!(response.finish_reason, FinishReason::ToolCall);
    Ok(())
}

#[test]
fn tests_a_streamed_reasoning_item_keeps_its_text_and_its_replay_part() -> Result<(), Box<dyn StdError>> {
    let route = route()?;
    let mut decoder = codec().stream_decoder(&route);
    let item = json(r#"{
        "type": "reasoning",
        "id": "rs_1",
        "summary": [{ "type": "summary_text", "text": "Checked the files." }],
        "content": [{ "type": "reasoning_text", "text": "checked" }],
        "encrypted_content": "gAAAA"
    }"#);

    let mut events = decoder.decode(sse(&json(r#"{
        "type": "response.output_item.added",
        "output_index": 0,
        "item": { "type": "reasoning", "id": "rs_1", "summary": [] }
    }"#)))?;
    // The summary streams first and the trace after it. Both are shown
    // live; the terminal item then settles the part on its `content`
    // alone, the same text the blocking decode of the item produces.
    events.extend(decoder.decode(sse(&json(r#"{
        "type": "response.reasoning_summary_text.delta",
        "item_id": "rs_1",
        "summary_index": 0,
        "delta": "Checked the files."
    }"#)))?);
    events.extend(decoder.decode(sse(&json(r#"{
        "type": "response.reasoning_text.delta",
        "item_id": "rs_1",
        "content_index": 0,
        "delta": "checked"
    }"#)))?);
    events.extend(decoder.decode(sse(&filled(r#"{
        "type": "response.output_item.done",
        "output_index": 0,
        "item": "$0"}"#, &[Value::from(item.clone())])))?);
    events.extend(decoder.finish()?);

    assert_block_boundaries(&events)?;
    let parts = ended_parts(&events);
    let [
        ContentPart::Reasoning(reasoning),
        ContentPart::Opaque { kind, data },
    ] = parts.as_slice()
    else {
        return Err("expected reasoning text and its replay part".into());
    };
    assert_eq!(reasoning.text, "checked");
    assert_eq!(kind, "openai.reasoning");
    assert_eq!(to_value(data), item);
    assert_eq!(reasoning_deltas(&events), vec![
        "Checked the files.",
        "checked"
    ]);
    assert_eq!(shape(&completed(&events)?.content), shapes(&parts));
    assert_eq!(
        shapes(&parts),
        shape(&codec().decode_response(&route, filled(r#"{ "id": "resp_1", "status": "completed", "output": ["$0"] }"#, &[Value::from(item.clone())]))?.content),
        "the stream and the blocking decode must agree"
    );
    Ok(())
}

#[test]
fn a_streamed_summary_only_reasoning_item_streams_its_summary() -> Result<(), Box<dyn StdError>> {
    // The hosted models' usual shape: a summary and no `content`. The
    // summary streams live, its blocks separated by the blank line the
    // terminal item's join puts there, so reconciliation has nothing to
    // add.
    let route = route()?;
    let mut decoder = codec().stream_decoder(&route);
    let item = json(r#"{
        "type": "reasoning",
        "id": "rs_1",
        "summary": [
            { "type": "summary_text", "text": "Checked the files." },
            { "type": "summary_text", "text": "Nothing to change." }
        ],
        "encrypted_content": "gAAAA"
    }"#);

    let mut events = decoder.decode(sse(&json(r#"{
        "type": "response.output_item.added",
        "output_index": 0,
        "item": { "type": "reasoning", "id": "rs_1", "summary": [] }
    }"#)))?;
    for (index, delta) in ["Checked the files.", "Nothing to change."]
        .iter()
        .enumerate()
    {
        events.extend(decoder.decode(sse(&filled(r#"{
            "type": "response.reasoning_summary_text.delta",
            "item_id": "rs_1",
            "summary_index": "$0",
            "delta": "$1"}"#, &[Value::from(index.clone()), Value::from(delta.clone())])))?);
    }
    events.extend(decoder.decode(sse(&filled(r#"{
        "type": "response.output_item.done",
        "output_index": 0,
        "item": "$0"}"#, &[Value::from(item.clone())])))?);
    events.extend(decoder.finish()?);

    assert_block_boundaries(&events)?;
    assert_eq!(reasoning_deltas(&events), vec![
        "Checked the files.",
        "\n\nNothing to change."
    ]);
    let parts = ended_parts(&events);
    assert_eq!(shapes(&parts), shape(&[
        ContentPart::Reasoning(ReasoningContent {
            text:             "Checked the files.\n\nNothing to change.".to_owned(),
            signature:        None,
            signature_origin: None,
            redacted:         false,
        }),
        opaque(REASONING_KIND, item.clone()),
    ]));
    assert_eq!(shape(&completed(&events)?.content), shapes(&parts));
    assert_eq!(
        shapes(&parts),
        shape(&codec().decode_response(&route, filled(r#"{ "id": "resp_1", "status": "completed", "output": ["$0"] }"#, &[Value::from(item.clone())]))?.content),
        "the stream and the blocking decode must agree"
    );
    Ok(())
}

#[test]
fn streamed_reasoning_entries_join_the_way_the_terminal_item_does() -> Result<(), Box<dyn StdError>>
{
    // The second `content` entry opens with the blank line the terminal
    // item's join puts there, so the streamed text is a prefix of the
    // whole and reconciliation has nothing to add.
    let route = route()?;
    let mut decoder = codec().stream_decoder(&route);
    let item = json(r#"{
        "type": "reasoning",
        "id": "rs_1",
        "summary": [],
        "content": [
            { "type": "reasoning_text", "text": "First." },
            { "type": "reasoning_text", "text": "Second." }
        ]
    }"#);

    let mut events = Vec::new();
    for (index, delta) in [(0, "Fir"), (0, "st."), (1, "Sec"), (1, "ond.")] {
        events.extend(decoder.decode(sse(&filled(r#"{
            "type": "response.reasoning_text.delta",
            "item_id": "rs_1",
            "content_index": "$0",
            "delta": "$1"}"#, &[Value::from(index.clone()), Value::from(delta.clone())])))?);
    }
    events.extend(decoder.decode(sse(&filled(r#"{
        "type": "response.output_item.done",
        "output_index": 0,
        "item": "$0"}"#, &[Value::from(item.clone())])))?);
    events.extend(decoder.finish()?);

    assert_block_boundaries(&events)?;
    assert_eq!(reasoning_deltas(&events), vec![
        "Fir", "st.", "\n\nSec", "ond."
    ]);
    let parts = ended_parts(&events);
    let [ContentPart::Reasoning(reasoning), _opaque] = parts.as_slice() else {
        return Err("expected reasoning text and its replay part".into());
    };
    assert_eq!(reasoning.text, "First.\n\nSecond.");
    assert_eq!(
        shapes(&parts),
        shape(&codec().decode_response(&route, filled(r#"{ "id": "resp_1", "status": "completed", "output": ["$0"] }"#, &[Value::from(item.clone())]))?.content),
        "the stream and the blocking decode must agree"
    );
    Ok(())
}

#[test]
fn tests_a_stream_error_ends_the_stream_without_completing() -> Result<(), Box<dyn StdError>> {
    let route = route()?;
    let mut decoder = codec().stream_decoder(&route);

    decoder.decode(sse(
        &json(r#"{ "type": "response.created", "response": { "id": "resp_1" } }"#),
    ))?;
    let error = decoder
        .decode(sse(&json(r#"{
            "type": "error",
            "error": { "type": "server_error", "message": "upstream failed" }
        }"#)))
        .err()
        .ok_or("expected a stream error")?;

    assert!(error.message().contains("upstream failed"));
    Ok(())
}

#[test]
fn tests_a_failed_event_without_a_response_wrapper_keeps_its_detail() -> Result<(), Box<dyn StdError>> {
    let route = route()?;
    let mut decoder = codec().stream_decoder(&route);

    let error = decoder
        .decode(sse(&json(r#"{
            "type": "response.failed",
            "error": { "code": "rate_limit_exceeded", "message": "Rate limit reached" }
        }"#)))
        .err()
        .ok_or("expected a stream error")?;

    assert!(error.message().contains("Rate limit reached"));
    assert_eq!(error.provider_code(), Some("rate_limit_exceeded"));
    assert!(error.raw_data().is_some());
    Ok(())
}

#[test]
fn tests_an_item_without_deltas_still_produces_its_content() -> Result<(), Box<dyn StdError>> {
    let route = route()?;
    let mut decoder = codec().stream_decoder(&route);

    let mut events = decoder.decode(sse(&json(r#"{
        "type": "response.output_item.done",
        "output_index": 0,
        "item": {
            "type": "custom_tool_call",
            "id": "ctc_1",
            "call_id": "call_001",
            "name": "apply_patch",
            "input": "*** Begin Patch"
        }
    }"#)))?;
    events.extend(decoder.finish()?);

    assert_block_boundaries(&events)?;
    let parts = ended_parts(&events);
    let [ContentPart::ToolCall(recovered)] = parts.as_slice() else {
        return Err("expected one recovered tool call".into());
    };
    assert_eq!(recovered.input.kind(), ToolCallKind::Custom);
    assert_eq!(
        to_value(&recovered.input.wire_value()),
        Value::String("*** Begin Patch".to_owned())
    );
    Ok(())
}

#[test]
fn tests_the_count_tokens_body_keeps_only_allowlisted_fields() -> Result<(), Box<dyn StdError>> {
    let request = builder()
        .model(MODEL)
        .user("Hello")
        .temperature(0.2)
        .max_output_tokens(256)
        .stop_sequence("END")
        .metadata_entry("trace_id", "t789")
        .provider_option("openai", "seed", Value::from(7))
        .build()?;
    let call = call(request)?;

    let encoded = codec()
        .encode_count_tokens(&call)
        .ok_or("expected a token count request")??;

    assert!(encoded.url.ends_with("/v1/responses/input_tokens"));
    let body = encoded.body.as_object().ok_or("expected a JSON object")?;
    for key in body.keys() {
        assert!(
            counts_field(key),
            "{key} is not accepted by the count endpoint",
        );
    }
    assert!(!body.contains_key("temperature"));
    assert!(!body.contains_key("max_output_tokens"));
    assert!(!body.contains_key("stop"));
    assert!(!body.contains_key("stream"));
    assert!(!body.contains_key("metadata"));
    assert!(!body.contains_key("seed"));
    assert_eq!(body["model"], Value::from("gpt-5.6-luna"));
    Ok(())
}

#[test]
fn tests_a_token_count_with_the_wrong_object_is_a_decode_error() -> Result<(), Box<dyn StdError>> {
    let route = route()?;
    let codec = codec();

    let tokens = codec.decode_count_tokens(
        &route,
        json(r#"{ "input_tokens": 123, "object": "response.input_tokens" }"#),
    )?;
    let error = codec
        .decode_count_tokens(&route, json(r#"{ "input_tokens": 123, "object": "response" }"#))
        .err()
        .ok_or("expected a decode error")?;

    assert_eq!(tokens, 123);
    assert_eq!(error.kind(), ErrorKind::ResponseDecode);
    assert_eq!(error.retry_classification(), RetryClassification::Safe);
    Ok(())
}

/// An assistant turn of reasoning, visible text, and a tool call replays as
/// three items in that order. The preserved `message` item is sent with its
/// own `id` and `status`, rather than reconstructed from the text part, so
/// the reasoning item that precedes it still names an item that follows it.
#[test]
fn tests_a_reasoning_message_and_function_call_replay_in_order() -> Result<(), Box<dyn StdError>> {
    let reasoning = json(r#"{
        "type": "reasoning",
        "id": "rs_xyz789",
        "summary": [{ "type": "summary_text", "text": "Let me check." }],
        "encrypted_content": "gAAAA"
    }"#);
    let item = json(r#"{
        "type": "message",
        "id": "msg_abc123",
        "status": "completed",
        "role": "assistant",
        "content": [{ "type": "output_text", "text": "Checking now." }]
    }"#);
    let mut tool_call = function_call("call_001", "shell", json(r#"{ "cmd": "ls" }"#));
    tool_call
        .provider_metadata
        .insert("openai", from_value(json(r#"{ "item_id": "fc_def456" }"#)));
    let request = builder()
        .model(MODEL)
        .user("List the files")
        .message(message(Role::Assistant, [
            opaque(REASONING_KIND, reasoning.clone()),
            ContentPart::Text {
                text: "Checking now.".to_owned(),
            },
            opaque(MESSAGE_KIND, item.clone()),
            ContentPart::ToolCall(tool_call),
        ]))
        .build()?;

    let encoded = codec().encode(&call(request)?, false)?;

    let input = encoded.body["input"]
        .as_array()
        .ok_or("expected an input array")?;
    assert_eq!(input.len(), 4, "the user turn plus three replayed items");
    assert_eq!(input[1], reasoning);
    assert_eq!(input[2], item);
    assert_eq!(input[3]["type"], Value::from("function_call"));
    assert_eq!(input[3]["id"], Value::from("fc_def456"));
    assert_eq!(input[3]["call_id"], Value::from("call_001"));
    assert_eq!(
        encoded.body.to_string().matches("Checking now.").count(),
        1,
        "the preserved item already carries the assistant text",
    );
    Ok(())
}

#[test]
fn tests_an_empty_name_tool_call_in_history_is_skipped() -> Result<(), Box<dyn StdError>> {
    let request = builder()
        .model(MODEL)
        .user("List the files")
        .message(message(Role::Assistant, [ContentPart::ToolCall(
            function_call("call_1", "", json(r#"{}"#)),
        )]))
        .build()?;

    let encoded = codec().encode(&call(request)?, false)?;

    let input = encoded.body["input"]
        .as_array()
        .ok_or("expected an input array")?;
    assert_eq!(input.len(), 1, "only the user turn may travel: {input:?}");
    Ok(())
}

#[test]
fn tests_media_in_a_system_message_is_dropped_and_warned() -> Result<(), Box<dyn StdError>> {
    let request = builder()
        .model(MODEL)
        .message(message(Role::System, [
            ContentPart::Text {
                text: "Use the style guide.".to_owned(),
            },
            image(url(
                "https://example.com/guide.png",
            )),
        ]))
        .user("Hello")
        .build()?;

    let encoded = codec().encode(&call(request)?, false)?;

    let system_content = &encoded.body["input"][0]["content"];
    assert_eq!(
        system_content,
        &json(r#"[{ "type": "input_text", "text": "Use the style guide." }]"#),
        "only the text may travel inside a system item"
    );
    assert_eq!(
        encoded.warnings.len(),
        1,
        "the dropped image must be reported: {:?}",
        encoded.warnings
    );
    Ok(())
}

/// The decoder emits a readable reasoning part BESIDE the opaque item
/// that replays the same text, so the codec's own round trip must not
/// warn about dropped reasoning — nothing is lost. Reasoning without an
/// opaque sibling in its message still warns.
#[test]
fn tests_a_reasoning_part_beside_its_opaque_item_does_not_warn() -> Result<(), Box<dyn StdError>> {
    let reasoning = || ContentPart::Reasoning(ReasoningContent {
        text:             "Let me check.".to_owned(),
        signature:        None,
        signature_origin: None,
        redacted:         false,
    });
    let item = json(r#"{
        "type": "reasoning",
        "id": "rs_1",
        "summary": [],
        "content": [{ "type": "reasoning_text", "text": "Let me check." }]
    }"#);

    let round_trip = builder()
        .model(MODEL)
        .user("List the files")
        .message(message(Role::Assistant, [
            reasoning(),
            opaque(REASONING_KIND, item),
            ContentPart::Text {
                text: "Checking now.".to_owned(),
            },
        ]))
        .build()?;
    let encoded = codec().encode(&call(round_trip)?, false)?;
    assert!(encoded.warnings.is_empty(), "the round trip loses nothing");

    let orphaned = builder()
        .model(MODEL)
        .user("List the files")
        .message(message(Role::Assistant, [reasoning()]))
        .build()?;
    let encoded = codec().encode(&call(orphaned)?, false)?;
    assert_eq!(
        encoded.warnings.len(),
        1,
        "reasoning with no opaque sibling is dropped and must warn"
    );
    Ok(())
}

/// An interleaved turn keeps every reasoning item beside the item it
/// anchors, which hoisting the opaque parts to the front would break.
#[test]
fn tests_interleaved_replay_items_keep_their_pairing() -> Result<(), Box<dyn StdError>> {
    let first = json(r#"{ "type": "reasoning", "id": "rs_1", "encrypted_content": "a" }"#);
    let second = json(r#"{ "type": "reasoning", "id": "rs_2", "encrypted_content": "b" }"#);
    let request = builder()
        .model(MODEL)
        .user("Do both")
        .message(message(Role::Assistant, [
            opaque(REASONING_KIND, first.clone()),
            ContentPart::ToolCall(function_call("call_1", "one", json(r#"{}"#))),
            opaque(REASONING_KIND, second.clone()),
            ContentPart::ToolCall(function_call("call_2", "two", json(r#"{}"#))),
        ]))
        .build()?;

    let encoded = codec().encode(&call(request)?, false)?;

    let types: Vec<&Value> = encoded.body["input"]
        .as_array()
        .ok_or("expected an input array")?
        .iter()
        .map(|item| &item["type"])
        .collect();
    // The user turn is a plain `{role, content}` item, which carries no
    // `type` of its own.
    assert_eq!(types, vec![
        &Value::Null,
        &Value::from("reasoning"),
        &Value::from("function_call"),
        &Value::from("reasoning"),
        &Value::from("function_call"),
    ]);
    assert_eq!(encoded.body["input"][1], first);
    assert_eq!(encoded.body["input"][3], second);
    Ok(())
}

/// Without a preserved item, assistant text still builds one.
#[test]
fn tests_assistant_text_without_a_replay_item_builds_a_message() -> Result<(), Box<dyn StdError>> {
    let request = builder()
        .model(MODEL)
        .user("Hi")
        .message(message(Role::Assistant, [ContentPart::Text {
            text: "Hello".to_owned(),
        }]))
        .build()?;

    let encoded = codec().encode(&call(request)?, false)?;

    assert_eq!(
        encoded.body["input"][1],
        json(r#"{
            "role": "assistant",
            "content": [{ "type": "output_text", "text": "Hello" }]
        }"#)
    );
    Ok(())
}

#[test]
fn tests_a_message_item_decodes_to_text_and_a_replay_part() -> Result<(), Box<dyn StdError>> {
    let route = route()?;
    let item = json(r#"{
        "type": "message",
        "id": "msg_1",
        "status": "completed",
        "role": "assistant",
        "content": [{ "type": "output_text", "text": "hello" }]
    }"#);

    let response = codec().decode_response(
        &route,
        filled(r#"{ "id": "resp_1", "status": "completed", "output": ["$0"] }"#, &[Value::from(item.clone())]),
    )?;

    assert_eq!(shape(&response.content), shape(&[
        ContentPart::Text {
            text: "hello".to_owned(),
        },
        opaque(MESSAGE_KIND, item),
    ]));
    Ok(())
}

/// A `function_call` with no name is model-internal: it is not content, and
/// it does not make the turn look like a tool call.
#[test]
fn responses_a_tool_call_cut_at_the_output_limit_is_dropped() -> Result<(), Box<dyn StdError>> {
    // Verified live: a call the limit cut short arrives as an
    // `incomplete` item whose arguments are a JSON prefix. It is not a
    // call, so it leaves the content and a warning takes its place.
    let route = route()?;

    let response = codec().decode_response(
        &route,
        json(r#"{
            "id": "resp_1",
            "status": "incomplete",
            "incomplete_details": { "reason": "max_output_tokens" },
            "output": [{
                "type": "function_call",
                "id": "fc_1",
                "call_id": "call_1",
                "status": "incomplete",
                "name": "write_note",
                "arguments": "{\"title\":\"Rome\",\"body\":\"Rome began"
            }]
        }"#),
    )?;

    assert!(response.content.is_empty());
    assert_eq!(response.finish_reason, FinishReason::Length);
    assert_eq!(response.warnings.len(), 1);
    assert_eq!(response.warnings[0].code, "truncated_tool_call");
    assert!(response.warnings[0].message.contains("write_note"));
    assert!(response.raw.is_some(), "the provider's item stays in raw");
    Ok(())
}

#[test]
fn a_streamed_tool_call_cut_at_the_output_limit_is_dropped_from_the_completed_response()
-> Result<(), Box<dyn StdError>> {
    // The block events deliver the call as it streams; the completed
    // response, which is what a consumer acts on, carries no call.
    let route = route()?;
    let mut decoder = codec().stream_decoder(&route);
    let item = |status: &str, arguments: &str| {
        filled(r#"{
            "type": "function_call",
            "id": "fc_1",
            "call_id": "call_1",
            "status": "$0",
            "name": "write_note",
            "arguments": "$1"}"#, &[Value::from(status.clone()), Value::from(arguments.clone())])
    };
    let transcript = vec![
        json(r#"{ "type": "response.created", "response": { "id": "resp_1" } }"#),
        filled(r#"{
            "type": "response.output_item.added",
            "output_index": 0,
            "item": "$0"}"#, &[Value::from(item("in_progress", "").clone())]),
        json(r#"{
            "type": "response.function_call_arguments.delta",
            "item_id": "fc_1",
            "delta": "{\"title\":\"Rome\",\"body\":\"Rome began"
        }"#),
        filled(r#"{
            "type": "response.output_item.done",
            "output_index": 0,
            "item": "$0"}"#, &[Value::from(item("incomplete", "{\"title\":\"Rome\",\"body\":\"Rome began").clone())]),
        filled(r#"{
            "type": "response.incomplete",
            "response": {
                "id": "resp_1",
                "status": "incomplete",
                "incomplete_details": { "reason": "max_output_tokens" },
                "output": ["$0"],
                "usage": { "input_tokens": 10, "output_tokens": 40 }
            }
        }"#, &[Value::from(item("incomplete", "{\"title\":\"Rome\",\"body\":\"Rome began").clone())]),
    ];

    let mut events = Vec::new();
    for event in transcript {
        events.extend(decoder.decode(sse(&event))?);
    }
    events.extend(decoder.finish()?);

    assert!(
        matches!(ended_parts(&events).as_slice(), [ContentPart::ToolCall(_)]),
        "the block end still shows what streamed"
    );
    let response = completed(&events)?;
    assert!(response.content.is_empty());
    assert_eq!(response.finish_reason, FinishReason::Length);
    assert_eq!(response.warnings.len(), 1);
    assert_eq!(response.warnings[0].code, "truncated_tool_call");
    Ok(())
}

#[test]
fn tests_an_unnamed_tool_call_is_dropped() -> Result<(), Box<dyn StdError>> {
    let route = route()?;

    let response = codec().decode_response(
        &route,
        json(r#"{
            "id": "resp_1",
            "status": "completed",
            "output": [{
                "type": "function_call",
                "id": "fc_1",
                "call_id": "call_1",
                "name": "",
                "arguments": "{}"
            }]
        }"#),
    )?;

    assert!(response.content.is_empty());
    assert_eq!(response.finish_reason, FinishReason::Stop);
    Ok(())
}

#[test]
fn tests_an_unnamed_streamed_tool_call_is_dropped() -> Result<(), Box<dyn StdError>> {
    let route = route()?;
    let mut decoder = codec().stream_decoder(&route);
    let item = json(r#"{
        "type": "function_call",
        "id": "fc_1",
        "call_id": "call_1",
        "name": "",
        "arguments": "{}"
    }"#);

    let mut events = decoder.decode(sse(&filled(r#"{
        "type": "response.output_item.added",
        "output_index": 0,
        "item": "$0"}"#, &[Value::from(item.clone())])))?;
    events.extend(decoder.decode(sse(&json(r#"{
        "type": "response.function_call_arguments.delta",
        "item_id": "fc_1",
        "delta": "{}"
    }"#)))?);
    events.extend(decoder.decode(sse(&filled(r#"{
        "type": "response.output_item.done",
        "output_index": 0,
        "item": "$0"}"#, &[Value::from(item.clone())])))?);
    events.extend(decoder.decode(sse(&filled(r#"{
        "type": "response.completed",
        "response": { "id": "resp_1", "status": "completed", "output": ["$0"] }
    }"#, &[Value::from(item.clone())])))?);

    assert_block_boundaries(&events)?;
    assert!(ended_parts(&events).is_empty());
    let response = completed(&events)?;
    assert!(response.content.is_empty());
    assert_eq!(response.finish_reason, FinishReason::Stop);
    Ok(())
}

/// A proxy's keepalive frame is not model output, so it cannot end the
/// stream.
#[test]
fn tests_a_frame_that_is_not_json_is_skipped() -> Result<(), Box<dyn StdError>> {
    let route = route()?;
    let mut decoder = codec().stream_decoder(&route);

    let ignored = decoder.decode(SseEvent {
        event: None,
        data:  "keepalive".to_owned(),
    })?;
    let events = decoder.decode(sse(&json(r#"{
        "type": "response.created",
        "response": { "id": "resp_1" }
    }"#)))?;

    assert!(ignored.is_empty());
    assert!(matches!(
        events.first(),
        Some(StreamEvent::Started { id: Some(id) }) if id == "resp_1"
    ));
    Ok(())
}

/// A proxy that drops `response.created` still produces a started stream.
#[test]
fn tests_the_stream_starts_without_a_created_event() -> Result<(), Box<dyn StdError>> {
    let route = route()?;
    let mut decoder = codec().stream_decoder(&route);

    let mut events = decoder.decode(sse(&json(r#"{
        "type": "response.output_item.added",
        "output_index": 0,
        "item": { "type": "message", "id": "msg_1", "role": "assistant", "content": [] }
    }"#)))?;
    events.extend(decoder.decode(sse(&json(r#"{
        "type": "response.output_text.delta",
        "item_id": "msg_1",
        "delta": "hi"
    }"#)))?);

    assert!(
        matches!(events.first(), Some(StreamEvent::Started { id: None })),
        "the first event must still be `Started`",
    );
    assert_eq!(
        events
            .iter()
            .filter(|event| matches!(event, StreamEvent::Started { .. }))
            .count(),
        1,
        "a later event must not start the stream twice",
    );
    Ok(())
}

/// A tool result carrying only JSON sends the value itself, because the
/// `ContentPart` envelope is this crate's shape rather than the tool's.
#[test]
fn tests_a_json_tool_result_sends_the_bare_value() -> Result<(), Box<dyn StdError>> {
    let request = builder()
        .model(MODEL)
        .user("Look it up")
        .message(message(Role::Assistant, [ContentPart::ToolCall(
            function_call("call_1", "search", json(r#"{}"#)),
        )]))
        .message(message(Role::Tool, [ContentPart::ToolResult(
            ToolResult {
                tool_call_id: "call_1".to_owned(),
                name:         Some("search".to_owned()),
                content:      vec![ContentPart::Json {
                    value: from_value(json(r#"{ "matches": 2 }"#)),
                }],
                is_error:     false,
            },
        )]))
        .build()?;

    let encoded = codec().encode(&call(request)?, false)?;

    let output = encoded.body["input"][2]["output"]
        .as_str()
        .ok_or("expected a function_call_output")?;
    assert_eq!(
        serde_json::from_str::<Value>(output)?,
        json(r#"{ "matches": 2 }"#)
    );
    Ok(())
}

#[test]
fn tests_an_empty_text_tool_result_sends_an_empty_output() -> Result<(), Box<dyn StdError>> {
    // A command with no stdout answers with nothing. Serializing the
    // ContentPart envelope instead would hand the model spurious JSON as
    // the tool's answer.
    let request = builder()
        .model(MODEL)
        .user("Make the directory")
        .message(message(Role::Assistant, [ContentPart::ToolCall(
            function_call("call_1", "shell", json(r#"{ "cmd": "mkdir foo" }"#)),
        )]))
        .message(message(Role::Tool, [ContentPart::ToolResult(
            ToolResult {
                tool_call_id: "call_1".to_owned(),
                name:         Some("shell".to_owned()),
                content:      vec![ContentPart::Text {
                    text: String::new(),
                }],
                is_error:     false,
            },
        )]))
        .build()?;

    let encoded = codec().encode(&call(request)?, false)?;

    assert_eq!(encoded.body["input"][2]["output"], Value::from(""));
    Ok(())
}

#[test]
fn a_decoded_turn_is_sent_back_item_by_item() -> Result<(), Box<dyn StdError>> {
    let output = json(
        r#"[
            { "type": "reasoning", "id": "rs_1", "summary": [], "encrypted_content": "g" },
            { "type": "message", "id": "msg_1", "role": "assistant",
              "content": [{ "type": "output_text", "text": "Checking." }] },
            { "type": "function_call", "id": "fc_1", "call_id": "call_1", "name": "search",
              "arguments": "{\"q\":1}" },
            { "type": "web_search_call", "id": "ws_1" }
        ]"#,
    );
    let response = codec().decode_response(
        &route()?,
        filled(r#"{ "id": "r", "status": "completed", "output": "$0" }"#, &[output.clone()]),
    )?;
    assert_eq!(response.finish_reason, FinishReason::ToolCall);
    let mut asked = builder().model(MODEL).user("Hi").build()?;
    asked.request.messages.push(Message {
        role: Role::Assistant,
        content: response.content,
        name: None,
        tool_call_id: None,
    });

    let encoded = codec().encode(&call(asked)?, false)?;

    let input = encoded.body["input"].as_array().ok_or("expected an input array")?;
    assert_eq!(input.len(), 4);
    assert_eq!(input[1], output[0]);
    assert_eq!(input[2], output[1]);
    assert_eq!(input[3], output[2]);
    assert!(encoded.warnings.is_empty());
    Ok(())
}

#[test]
fn parts_the_protocol_cannot_carry_are_refused() -> Result<(), Box<dyn StdError>> {
    for part in [
        ContentPart::Audio(lithos_codecs::types::AudioContent { source: url("https://a/b.wav") }),
        ContentPart::Document(lithos_codecs::types::DocumentContent {
            source: MediaSource::Base64 {
                data: "aGk=".to_owned(),
                media_type: "application/pdf".to_owned(),
            },
            name: None,
        }),
    ] {
        let request = builder().model(MODEL).message(message(Role::User, [part])).build()?;
        let error = codec()
            .encode(&call(request)?, false)
            .err()
            .ok_or("expected a refusal")?;
        assert_eq!(error.kind(), ErrorKind::InvalidRequest);
        assert_eq!(error.provider_code(), Some("unsupported_capability"));
    }
    Ok(())
}

#[test]
fn a_count_without_tokens_is_a_decode_error() -> Result<(), Box<dyn StdError>> {
    for body in [
        json(r#"{ "object": "response.input_tokens" }"#),
        json(r#"{ "input_tokens": 5 }"#),
        json(r#"{ "object": "response.input_tokens", "input_tokens": -5 }"#),
    ] {
        let error = codec()
            .decode_count_tokens(&route()?, body)
            .err()
            .ok_or("expected a decode error")?;
        assert_eq!(error.kind(), ErrorKind::ResponseDecode);
    }
    Ok(())
}

#[test]
fn a_stream_completes_once() -> Result<(), Box<dyn StdError>> {
    let mut decoder = codec().stream_decoder(&route()?);
    let mut events = decoder.decode(sse(&json(
        r#"{ "type": "response.completed",
             "response": { "id": "r", "status": "completed", "output": [] } }"#,
    )))?;
    events.extend(decoder.finish()?);
    events.extend(decoder.finish()?);
    assert!(matches!(events.first(), Some(StreamEvent::Started { .. })));
    let response = completed(&events)?;
    assert_eq!(response.id.as_deref(), Some("r"));
    assert_eq!(response.finish_reason, FinishReason::Stop);
    Ok(())
}

#[test]
fn documents_travel_by_url_or_by_name() -> Result<(), Box<dyn StdError>> {
    let request = builder()
        .model(MODEL)
        .message(message(
            Role::User,
            [
                ContentPart::Document(lithos_codecs::types::DocumentContent {
                    source: url("https://example.com/a.pdf"),
                    name: None,
                }),
                ContentPart::Document(lithos_codecs::types::DocumentContent {
                    source: MediaSource::Base64 {
                        data: "aGk=".to_owned(),
                        media_type: "application/pdf".to_owned(),
                    },
                    name: Some("b.pdf".to_owned()),
                }),
            ],
        ))
        .build()?;
    let body = codec().encode(&call(request)?, false)?.body;
    assert_eq!(
        body["input"][0]["content"],
        json(
            r#"[
                { "type": "input_file", "file_url": "https://example.com/a.pdf" },
                { "type": "input_file", "file_data": "data:application/pdf;base64,aGk=",
                  "filename": "b.pdf" }
            ]"#
        )
    );
    Ok(())
}

#[test]
fn codex_mode_keeps_a_whitespace_only_instruction() -> Result<(), Box<dyn StdError>> {
    let request = builder()
        .model(MODEL)
        .system(" ")
        .system("")
        .message(said(Role::Developer, "Be brief"))
        .user("Hello")
        .build()?;

    let encoded = Codec(OpenAiResponsesCodec::new(true)).encode(&call(request)?, true)?;

    assert_eq!(encoded.body["instructions"], Value::from(" \n\nBe brief"));
    assert_eq!(encoded.body["input"].as_array().map(Vec::len), Some(1));
    Ok(())
}

#[test]
fn an_empty_refusal_hides_no_real_one() -> Result<(), Box<dyn StdError>> {
    let document = json(
        r#"{ "id": "resp_1", "status": "completed", "output": [{
            "type": "message", "id": "msg_1",
            "content": [{ "type": "refusal", "refusal": "" }, { "type": "refusal", "refusal": "No." }]
        }] }"#,
    );

    let error = codec()
        .decode_response(&route()?, document.clone())
        .err()
        .ok_or("expected a refusal")?;
    assert_eq!(error.kind(), ErrorKind::ContentFilter);
    assert!(error.to_string().contains("No."), "{error}");

    let mut decoder = codec().stream_decoder(&route()?);
    let error = decoder
        .decode(sse(&filled(
            r#"{ "type": "response.completed", "response": "$0" }"#,
            &[document],
        )))
        .err()
        .ok_or("expected a refusal")?;
    assert_eq!(error.provider_code(), Some("refusal"));
    assert!(decoder.finish()?.is_empty(), "a refused stream never completes");
    Ok(())
}

#[test]
fn an_empty_refusal_alone_is_none() -> Result<(), Box<dyn StdError>> {
    let response = codec().decode_response(
        &route()?,
        json(
            r#"{ "status": "completed", "output": [{ "type": "message",
                 "content": [{ "type": "refusal", "refusal": "" }] }] }"#,
        ),
    )?;
    assert_eq!(response.text(), "");
    assert_eq!(response.content.len(), 1);
    Ok(())
}

#[test]
fn a_mixed_tool_result_keeps_both_halves() -> Result<(), Box<dyn StdError>> {
    let content = || {
        vec![
            ContentPart::Text { text: "2 rows".to_owned() },
            ContentPart::Json { value: from_value(json(r#"{ "rows": 2 }"#)) },
        ]
    };
    let request = builder()
        .model(MODEL)
        .user("Look it up")
        .message(message(
            Role::Tool,
            [ContentPart::ToolResult(ToolResult {
                tool_call_id: "call_1".to_owned(),
                name: None,
                content: content(),
                is_error: false,
            })],
        ))
        .build()?;

    let body = codec().encode(&call(request)?, false)?.body;

    let output = body["input"][1]["output"].as_str().ok_or("expected an output")?;
    assert_eq!(json(output), Value::Array(shape(&content())));
    Ok(())
}

#[test]
fn a_terminal_item_without_content_empties_what_streamed() -> Result<(), Box<dyn StdError>> {
    for (delta, item) in [
        (
            r#"{ "type": "response.output_text.delta", "item_id": "i", "delta": "Hel" }"#,
            r#"{ "type": "message", "id": "i", "content": [] }"#,
        ),
        (
            r#"{ "type": "response.reasoning_text.delta", "item_id": "i", "delta": "hm" }"#,
            r#"{ "type": "reasoning", "id": "i", "summary": [] }"#,
        ),
        (
            r#"{ "type": "response.function_call_arguments.delta", "item_id": "i", "delta": "{" }"#,
            r#"{ "type": "function_call", "id": "i", "call_id": "c", "name": "f", "arguments": "" }"#,
        ),
    ] {
        let mut decoder = codec().stream_decoder(&route()?);
        let mut events = decoder.decode(sse(&json(delta)))?;
        events.extend(decoder.decode(sse(&filled(
            r#"{ "type": "response.output_item.done", "output_index": 0, "item": "$0" }"#,
            &[json(item)],
        )))?);
        events.extend(decoder.finish()?);

        assert_block_boundaries(&events)?;
        let document = codec().decode_response(
            &route()?,
            filled(r#"{ "status": "completed", "output": ["$0"] }"#, &[json(item)]),
        )?;
        assert_eq!(shape(&completed(&events)?.content), shape(&document.content), "{item}");
    }
    Ok(())
}

#[test]
fn frames_behind_the_terminal_event_send_nothing() -> Result<(), Box<dyn StdError>> {
    let terminal = json(
        r#"{ "type": "response.completed",
             "response": { "id": "r", "status": "completed", "output": [] } }"#,
    );
    let mut decoder = codec().stream_decoder(&route()?);
    assert_eq!(decoder.decode(sse(&terminal))?.len(), 3);
    for late in [
        json(r#"{ "type": "response.output_text.delta", "item_id": "m", "delta": "late" }"#),
        json(r#"{ "type": "response.output_item.done", "item": { "type": "reasoning", "id": "x" } }"#),
        terminal,
    ] {
        assert!(decoder.decode(sse(&late))?.is_empty());
    }
    assert!(decoder.finish()?.is_empty());
    Ok(())
}

#[test]
fn a_failed_stream_never_completes() -> Result<(), Box<dyn StdError>> {
    let mut decoder = codec().stream_decoder(&route()?);
    let error = decoder
        .decode(sse(&json(r#"{ "type": "error", "code": "server_error" }"#)))
        .err()
        .ok_or("expected a stream error")?;
    assert_eq!(error.provider_code(), Some("server_error"));
    let late = decoder.decode(sse(&json(
        r#"{ "type": "response.completed",
             "response": { "id": "r", "status": "completed", "output": [] } }"#,
    )))?;
    assert!(late.is_empty());
    assert!(decoder.finish()?.is_empty());
    Ok(())
}

#[test]
fn a_transcript_completes_with_the_items_of_its_document() -> Result<(), Box<dyn StdError>> {
    let output = json(
        r#"[
            { "type": "reasoning", "id": "rs", "summary": [{ "type": "summary_text", "text": "hm" }] },
            { "type": "message", "id": "msg", "content": [{ "type": "output_text", "text": "Hello" }] },
            { "type": "function_call", "id": "fc", "call_id": "c", "name": "f", "arguments": "{}" },
            { "type": "function_call", "id": "hidden", "arguments": "{}" },
            { "type": "message", "id": "empty", "content": [] }
        ]"#,
    );
    let mut decoder = codec().stream_decoder(&route()?);
    let mut events = Vec::new();
    for event in [
        json(r#"{ "type": "response.reasoning_text.delta", "item_id": "rs", "delta": "garbled" }"#),
        filled(r#"{ "type": "response.output_item.done", "item": "$0" }"#, &[output[0].clone()]),
        json(r#"{ "type": "response.output_text.delta", "item_id": "msg", "delta": "Hel" }"#),
        filled(r#"{ "type": "response.output_item.done", "item": "$0" }"#, &[output[1].clone()]),
        filled(r#"{ "type": "response.output_item.added", "item": "$0" }"#, &[output[2].clone()]),
        filled(r#"{ "type": "response.output_item.done", "item": "$0" }"#, &[output[2].clone()]),
        json(r#"{ "type": "response.function_call_arguments.delta", "item_id": "hidden", "delta": "{" }"#),
        filled(r#"{ "type": "response.output_item.done", "item": "$0" }"#, &[output[3].clone()]),
        filled(r#"{ "type": "response.output_item.done", "item": "$0" }"#, &[output[4].clone()]),
        filled(
            r#"{ "type": "response.completed",
                 "response": { "id": "r", "status": "completed", "output": "$0" } }"#,
            &[output.clone()],
        ),
    ] {
        events.extend(decoder.decode(sse(&event))?);
    }

    assert_block_boundaries(&events)?;
    let document = codec().decode_response(
        &route()?,
        filled(r#"{ "id": "r", "status": "completed", "output": "$0" }"#, &[output]),
    )?;
    let response = completed(&events)?;
    assert_eq!(shape(&response.content), shape(&document.content));
    assert_eq!(response.finish_reason, document.finish_reason);
    Ok(())
}

#[test]
fn a_transcript_completes_as_its_document() -> Result<(), Box<dyn StdError>> {
    for status in ["completed", "incomplete"] {
        let item = json(
            r#"{ "type": "function_call", "id": "fc", "call_id": "c", "name": "f", "arguments": "{}" }"#,
        );
        let body = filled(
            r#"{ "id": "r", "status": "$1", "output": ["$0"], "usage": { "input_tokens": 7,
                 "input_tokens_details": { "cached_tokens": 2 }, "output_tokens": 5 } }"#,
            &[item.clone(), Value::from(status)],
        );
        let mut decoder = codec().stream_decoder(&route()?);
        let mut events = decoder.decode(sse(&filled(
            r#"{ "type": "response.output_item.done", "item": "$0" }"#,
            &[item],
        )))?;
        events.extend(decoder.decode(sse(&filled(
            r#"{ "type": "response.completed", "response": "$0" }"#,
            &[body.clone()],
        )))?);

        let document = codec().decode_response(&route()?, body.clone())?;
        let response = completed(&events)?;
        assert_eq!(shape(&response.content), shape(&document.content));
        assert_eq!(response.finish_reason, document.finish_reason);
        assert_eq!(response.id, document.id);
        assert_eq!(response.usage, document.usage);
        assert_eq!((response.usage.input, response.usage.cache_read, response.usage.output), (5, 2, 5));
        assert_eq!(response.raw.as_ref().map(to_value), Some(body));
        assert_eq!(response.warnings.len(), document.warnings.len());
    }
    Ok(())
}

#[test]
fn a_transcript_without_a_terminal_event_was_cut_short() -> Result<(), Box<dyn StdError>> {
    let mut decoder = codec().stream_decoder(&route()?);
    let mut events = decoder.decode(sse(&json(
        r#"{ "type": "response.output_item.done", "item": { "type": "function_call", "id": "fc",
             "call_id": "c", "name": "f", "arguments": "{}" } }"#,
    )))?;
    events.extend(decoder.finish()?);
    let response = completed(&events)?;
    assert_eq!(response.content.len(), 1);
    assert_eq!(response.finish_reason, FinishReason::Other("incomplete".to_owned()));
    assert!(response.raw.is_none());
    Ok(())
}
