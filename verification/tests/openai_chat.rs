//! The Chat Completions codec.

#![allow(dead_code)]

use std::error::Error as StdError;

use lithos_codecs::envelope::part_envelope;
use lithos_codecs::json::Json;
use lithos_codecs::json::JsonObject;
use lithos_codecs::openai_chat::OpenAiChatCodec;
use lithos_codecs::openai_chat::encode::OPAQUE_PREFIX;
use lithos_codecs::openai_chat::reasoning_details::REASONING_DETAILS;
use lithos_codecs::openai_chat::reasoning_details::details_kind;
use lithos_codecs::openai_chat::stream::ChatStreamDecoder;
use lithos_codecs::response::CallError;
use lithos_codecs::response::ContentBlockKind;
use lithos_codecs::response::Cost;
use lithos_codecs::response::CostSource;
use lithos_codecs::response::EncodedRequest;
use lithos_codecs::response::ErrorKind;
use lithos_codecs::response::FinishReason;
use lithos_codecs::response::Response;
use lithos_codecs::response::RetryClassification;
use lithos_codecs::response::SseEvent;
use lithos_codecs::response::StreamEvent;
use lithos_codecs::response::Warning;
use lithos_codecs::serial::from_value;
use lithos_codecs::serial::to_value;
use lithos_codecs::types::CacheHint;
use lithos_codecs::types::ContentPart;
use lithos_codecs::types::ImageContent;
use lithos_codecs::types::MediaSource;
use lithos_codecs::types::Message;
use lithos_codecs::types::Model;
use lithos_codecs::types::Provider;
use lithos_codecs::types::ReasoningContent;
use lithos_codecs::types::ReasoningEffort;
use lithos_codecs::types::Request;
use lithos_codecs::types::ResolvedCall;
use lithos_codecs::types::ResolvedRoute;
use lithos_codecs::types::ResponseFormat;
use lithos_codecs::types::Role;
use lithos_codecs::types::Speed;
use lithos_codecs::types::ToolCall;
use lithos_codecs::types::ToolChoice;
use lithos_codecs::types::ToolDefinition;
use lithos_codecs::types::ToolDefinitionKind;
use lithos_codecs::types::ToolResult;
use serde_json::Value;

/// The value a JSON text spells.
fn json(text: &str) -> Value {
    serde_json::from_str(text).expect("the text is JSON")
}

/// The value a JSON text spells, with values in the places `"$0"`, `"$1"`, ...
fn filled(text: &str, values: &[Value]) -> Value {
    let mut text = text.to_owned();
    for (at, value) in values.iter().enumerate() {
        text = text.replace(&format!("\"${at}\""), &value.to_string());
    }
    json(&text)
}

/// The parts of a message, as values that compare.
fn shape(parts: &[ContentPart]) -> Vec<Value> {
    parts.iter().map(|part| to_value(&part_envelope(part))).collect()
}

/// A failed call, as an error a test can return.
#[derive(Debug)]
struct Failure(CallError);

impl std::fmt::Display for Failure {
    fn fmt(&self, f: &mut std::fmt::Formatter<'_>) -> std::fmt::Result {
        f.write_str(&self.0.message)
    }
}

impl StdError for Failure {}

impl Failure {
    fn kind(&self) -> ErrorKind {
        self.0.kind
    }

    fn provider_code(&self) -> Option<&str> {
        self.0.provider_code.as_deref()
    }

    fn retry_classification(&self) -> RetryClassification {
        self.0.retry
    }

    fn raw_data(&self) -> Option<Value> {
        self.0.raw_data.as_ref().map(to_value)
    }

    fn message(&self) -> &str {
        &self.0.message
    }
}

/// An encoded request, its body as a value.
#[derive(Debug)]
struct Encoded {
    url: String,
    body: Value,
    warnings: Vec<Warning>,
    applied_speed: Option<Speed>,
}

fn shown(encoded: EncodedRequest) -> Encoded {
    Encoded {
        url: encoded.url,
        body: to_value(&encoded.body),
        warnings: encoded.warnings,
        applied_speed: encoded.applied_speed,
    }
}

/// A request and the model it asks for.
struct Asked {
    model: String,
    request: Request,
}

/// Builds a request step by step.
struct Builder(Asked);

fn builder() -> Builder {
    Builder(Asked {
        model: String::new(),
        request: Request {
            messages: Vec::new(),
            tools: Vec::new(),
            tool_choice: None,
            response_format: None,
            max_output_tokens: None,
            temperature: None,
            top_p: None,
            reasoning_effort: None,
            speed: None,
            stop_sequences: Vec::new(),
            metadata: Vec::new(),
            provider_options: JsonObject::new(),
            cache_hint: None,
        },
    })
}

/// The decimal that identifies a sampling parameter.
fn decimal(value: f32) -> Option<serde_json::Number> {
    serde_json::Number::from_f64(value.to_string().parse().expect("a decimal"))
}

impl Builder {
    fn build(self) -> Result<Asked, Box<dyn StdError>> {
        Ok(self.0)
    }

    fn model(mut self, model: &str) -> Self {
        self.0.model = model.to_owned();
        self
    }

    fn message(mut self, message: Message) -> Self {
        self.0.request.messages.push(message);
        self
    }

    fn user(self, text: &str) -> Self {
        self.message(said(Role::User, text))
    }

    fn system(self, text: &str) -> Self {
        self.message(said(Role::System, text))
    }

    fn tool(mut self, tool: ToolDefinition) -> Self {
        self.0.request.tools.push(tool);
        self
    }

    fn tool_choice(mut self, choice: ToolChoice) -> Self {
        self.0.request.tool_choice = Some(choice);
        self
    }

    fn response_format(mut self, format: ResponseFormat) -> Self {
        self.0.request.response_format = Some(format);
        self
    }

    fn max_output_tokens(mut self, tokens: u64) -> Self {
        self.0.request.max_output_tokens = Some(tokens);
        self
    }

    fn temperature(mut self, temperature: f32) -> Self {
        self.0.request.temperature = decimal(temperature);
        self
    }

    fn top_p(mut self, top_p: f32) -> Self {
        self.0.request.top_p = decimal(top_p);
        self
    }

    fn reasoning_effort(mut self, effort: ReasoningEffort) -> Self {
        self.0.request.reasoning_effort = Some(effort);
        self
    }

    fn speed(mut self, speed: Speed) -> Self {
        self.0.request.speed = Some(speed);
        self
    }

    fn stop_sequence(mut self, sequence: &str) -> Self {
        self.0.request.stop_sequences.push(sequence.to_owned());
        self
    }

    fn stop_sequences<const N: usize>(mut self, sequences: [&str; N]) -> Self {
        for sequence in sequences {
            self = self.stop_sequence(sequence);
        }
        self
    }

    fn metadata_entry(mut self, key: &str, value: &str) -> Self {
        self.0.request.metadata.push((key.to_owned(), value.to_owned()));
        self
    }

    fn provider_options(mut self, namespace: &str, options: serde_json::Map<String, Value>) -> Self {
        for (key, value) in options {
            self = self.provider_option(namespace, &key, value);
        }
        self
    }

    fn provider_option(mut self, namespace: &str, key: &str, value: Value) -> Self {
        let all = &mut self.0.request.provider_options;
        let mut options = match all.get(namespace) {
            Some(Json::Object(options)) => options.copy(),
            _ => JsonObject::new(),
        };
        options.insert(key, from_value(value));
        all.insert(namespace, Json::Object(options));
        self
    }

    fn cache_key(self, key: &str) -> Self {
        self.cache_hint(CacheHint::Key { key: key.to_owned() })
    }

    fn cache_hint(mut self, hint: CacheHint) -> Self {
        self.0.request.cache_hint = Some(hint);
        self
    }
}

fn message<const N: usize>(role: Role, content: [ContentPart; N]) -> Message {
    Message { role, content: Vec::from(content), name: None, tool_call_id: None }
}

fn said(role: Role, text: &str) -> Message {
    message(role, [ContentPart::Text { text: text.to_owned() }])
}

fn function_call(id: &str, name: &str, arguments: Value) -> ToolCall {
    ToolCall::function(id, name, &from_value(arguments))
}

fn opaque(kind: &str, data: Value) -> ContentPart {
    ContentPart::opaque(kind, from_value(data))
}

fn function_tool(name: &str, description: &str, schema: Value) -> ToolDefinition {
    ToolDefinition {
        name: name.to_owned(),
        description: description.to_owned(),
        kind: ToolDefinitionKind::Function { input_schema: from_value(schema) },
    }
}

fn custom_tool(name: &str, description: &str, format: Value) -> ToolDefinition {
    ToolDefinition {
        name: name.to_owned(),
        description: description.to_owned(),
        kind: ToolDefinitionKind::Custom { format: from_value(format) },
    }
}

fn url(url: &str) -> MediaSource {
    MediaSource::Url { url: url.to_owned(), media_type: None }
}

fn image(source: MediaSource) -> ContentPart {
    ContentPart::Image(ImageContent { source, detail: None })
}

/// The codec, with values in place of the library's documents.
struct Codec(OpenAiChatCodec);

impl Codec {
    fn encode(&self, call: &ResolvedCall, stream: bool) -> Result<Encoded, Failure> {
        self.0.encode(call, stream).map(shown).map_err(Failure)
    }

    fn decode_response(&self, route: &ResolvedRoute, body: Value) -> Result<Response, Failure> {
        self.0.decode_response(route, from_value(body)).map_err(Failure)
    }

    fn stream_decoder(&self, route: &ResolvedRoute) -> Decoder {
        Decoder(self.0.stream_decoder(route))
    }

    fn encode_count_tokens(&self, call: &ResolvedCall) -> Option<Result<Encoded, Failure>> {
        self.0.encode_count_tokens(call).map(|made| made.map(shown).map_err(Failure))
    }

    fn decode_count_tokens(&self, route: &ResolvedRoute, body: Value) -> Result<u64, Failure> {
        self.0.decode_count_tokens(route, from_value(body)).map_err(Failure)
    }
}

/// A stream decoder whose errors a test can return.
struct Decoder(ChatStreamDecoder);

impl Decoder {
    fn decode(&mut self, event: SseEvent) -> Result<Vec<StreamEvent>, Failure> {
        self.0.decode(&event).map_err(Failure)
    }

    fn finish(&mut self) -> Result<Vec<StreamEvent>, Failure> {
        self.0.finish().map_err(Failure)
    }
}

fn route_of(model: &str, base_url: &str) -> ResolvedRoute {
    let (provider, model) = model.split_once('/').expect("a qualified model");
    ResolvedRoute {
        provider: Provider {
            id: provider.to_owned(),
            base_url: base_url.to_owned(),
            default_options: JsonObject::new(),
        },
        model: Model {
            id: model.to_owned(),
            api_model: model.to_owned(),
            caching: true,
            cache_routing: false,
            reasoning_effort_levels: false,
            cache_breakpoints: false,
        },
    }
}

const CODEC: Codec = Codec(OpenAiChatCodec { base_url_is_api_root: false });

fn resolved(asked: Asked) -> Result<ResolvedCall, Box<dyn StdError>> {
    let route = route_of(&asked.model, "https://api.openai.com");
    resolved_in(route, asked)
}

fn resolved_in(route: ResolvedRoute, asked: Asked) -> Result<ResolvedCall, Box<dyn StdError>> {
    Ok(ResolvedCall { request: asked.request, route })
}

/// A cost in millionths of a dollar.
fn micros(cost: &Cost) -> u64 {
    (cost.usd.as_f64().expect("a number of dollars") * 1_000_000.0).round() as u64
}

const MODEL: &str = "openai/gpt-5.6-luna";

/// The catalog provider namespace `MODEL` resolves to.
const NAMESPACE: &str = "openai";

fn route() -> Result<ResolvedRoute, Box<dyn StdError>> {
    let request = builder().model(MODEL).user("Hello").build()?;
    Ok(resolved(request)?.route)
}

/// Decodes one complete body against the `MODEL` route.
fn decode(body: Value) -> Result<Response, Box<dyn StdError>> {
    Ok(CODEC.decode_response(&route()?, body)?)
}

fn object(value: Value) -> Result<serde_json::Map<String, Value>, Box<dyn StdError>> {
    match value {
        Value::Object(map) => Ok(map),
        other => Err(format!("expected a JSON object, got {other}").into()),
    }
}

/// Feeds chunks through one stream decoder and finishes the stream.
fn stream(chunks: Vec<Value>) -> Result<Vec<StreamEvent>, Box<dyn StdError>> {
    let mut decoder = CODEC.stream_decoder(&route()?);
    let mut events = Vec::new();
    for chunk in chunks {
        events.extend(decoder.decode(SseEvent {
            event: None,
            data:  chunk.to_string(),
        })?);
    }
    events.extend(decoder.finish()?);
    Ok(events)
}

fn completed(events: &[StreamEvent]) -> Vec<&Response> {
    events
        .iter()
        .filter_map(|event| match event {
            StreamEvent::Ended { response } => Some(response.as_ref()),
            _ => None,
        })
        .collect()
}

fn tool_parts(response: &Response) -> Vec<&ToolCall> {
    response
        .content
        .iter()
        .filter_map(|part| match part {
            ContentPart::ToolCall(call) => Some(call),
            _ => None,
        })
        .collect()
}

#[test]
fn the_details_kind_is_the_prefix_and_the_field() {
    assert_eq!(
        details_kind(),
        format!("{OPAQUE_PREFIX}{REASONING_DETAILS}")
    );
}

#[test]
fn tests_encodes_chat_tool_calls_and_results() -> Result<(), Box<dyn StdError>> {
    let call = resolved(
        builder()
            .model(MODEL)
            .message(message(Role::Assistant, [ContentPart::ToolCall(
                function_call("call-1", "weather", json(r#"{ "city": "Boston" }"#)),
            )]))
            .message(message(Role::Tool, [ContentPart::ToolResult(
                ToolResult {
                    tool_call_id: "call-1".to_owned(),
                    name:         Some("weather".to_owned()),
                    content:      vec![ContentPart::Text {
                        text: "snow".to_owned(),
                    }],
                    is_error:     false,
                },
            )]))
            .build()?,
    )?;

    let encoded = CODEC.encode(&call, false)?;

    assert_eq!(encoded.body["messages"][0]["role"], "assistant");
    assert_eq!(encoded.body["messages"][0]["tool_calls"][0]["id"], "call-1");
    assert_eq!(
        encoded.body["messages"][0]["tool_calls"][0]["function"]["arguments"],
        Value::from(r#"{"city":"Boston"}"#)
    );
    assert_eq!(encoded.body["messages"][1]["role"], "tool");
    assert_eq!(encoded.body["messages"][1]["tool_call_id"], "call-1");
    assert_eq!(encoded.body["messages"][1]["content"], "snow");
    Ok(())
}

#[test]
fn tests_inclusive_usage_becomes_disjoint_buckets() -> Result<(), Box<dyn StdError>> {
    let response = decode(json(r#"{
        "choices": [{ "message": { "content": "ok" }, "finish_reason": "stop" }],
        "usage": {
            "prompt_tokens": 200,
            "completion_tokens": 10,
            "prompt_tokens_details": { "cached_tokens": 50, "cache_write_tokens": 100 },
            "completion_tokens_details": { "reasoning_tokens": 4 }
        }
    }"#))?;

    assert_eq!(response.usage.input, 50);
    assert_eq!(response.usage.cache_read, 50);
    assert_eq!(response.usage.cache_write, 100);
    assert_eq!(response.usage.output, 6);
    assert_eq!(response.usage.reasoning, 4);
    assert_eq!(response.usage.total(), 210);
    Ok(())
}

#[test]
fn tests_flat_usage_spellings_decode_the_same_way() -> Result<(), Box<dyn StdError>> {
    let response = decode(json(r#"{
        "choices": [{ "message": { "content": "ok" } }],
        "usage": {
            "prompt_tokens": 53,
            "completion_tokens": 66,
            "prompt_cache_hit_tokens": 41,
            "reasoning_tokens": 54
        }
    }"#))?;

    assert_eq!(response.usage.input, 12);
    assert_eq!(response.usage.cache_read, 41);
    assert_eq!(response.usage.output, 12);
    assert_eq!(response.usage.reasoning, 54);
    Ok(())
}

#[test]
fn tests_anthropic_style_cache_writes_decode_from_either_position() -> Result<(), Box<dyn StdError>> {
    let response = decode(json(r#"{
        "choices": [{ "message": { "content": "ok" } }],
        "usage": {
            "prompt_tokens": 15002,
            "completion_tokens": 12,
            "prompt_tokens_details": {
                "cached_tokens": 0,
                "cache_creation_input_tokens": 13204
            },
            "cache_creation_input_tokens": 13204
        }
    }"#))?;

    assert_eq!(response.usage.cache_write, 13204);
    assert_eq!(response.usage.input, 1798);
    assert_eq!(response.usage.total(), 15014);
    Ok(())
}

#[test]
fn tests_a_nested_detail_wins_over_its_flat_spelling() -> Result<(), Box<dyn StdError>> {
    let response = decode(json(r#"{
        "choices": [{ "message": { "content": "ok" } }],
        "usage": {
            "prompt_tokens": 100,
            "completion_tokens": 20,
            "prompt_tokens_details": { "cached_tokens": 30 },
            "prompt_cache_hit_tokens": 90,
            "completion_tokens_details": { "reasoning_tokens": 5 },
            "reasoning_tokens": 19
        }
    }"#))?;

    assert_eq!(response.usage.cache_read, 30);
    assert_eq!(response.usage.reasoning, 5);
    Ok(())
}

#[test]
fn tests_the_speed_control_is_reported_and_not_billed() -> Result<(), Box<dyn StdError>> {
    let call = resolved(
        builder()
            .model(MODEL)
            .user("Hello")
            .speed(Speed::Fast)
            .build()?,
    )?;

    let encoded = CODEC.encode(&call, false)?;

    let messages: Vec<&str> = encoded
        .warnings
        .iter()
        .map(|warning| warning.message.as_str())
        .collect();
    assert_eq!(messages, [
        "this provider protocol does not support the speed control",
    ]);
    // Nothing speed-shaped may be guessed at on the wire, and cost must
    // not price a fast tier the provider never served.
    let body = encoded.body.to_string();
    assert!(!body.contains("speed"), "{body}");
    assert!(!body.contains("service_tier"), "{body}");
    assert_eq!(encoded.applied_speed, None);
    Ok(())
}

#[test]
fn tests_openrouter_usage_cost_is_provider_reported() -> Result<(), Box<dyn StdError>> {
    let response = decode(json(r#"{
        "choices": [{ "message": { "content": "ok" } }],
        "usage": { "prompt_tokens": 200, "completion_tokens": 10, "cost": 0.0042 }
    }"#))?;

    let cost = response.cost.as_ref().ok_or("expected a provider cost")?;
    assert_eq!(micros(cost), 4200);
    assert_eq!(cost.source, CostSource::Provider);
    Ok(())
}

#[test]
fn tests_venice_top_level_cost_is_provider_reported() -> Result<(), Box<dyn StdError>> {
    let response = decode(json(r#"{
        "choices": [{ "message": { "content": "ok" } }],
        "usage": { "prompt_tokens": 4, "completion_tokens": 2 },
        "cost": { "usd": 0.25, "diem": 9.5 }
    }"#))?;

    let cost = response.cost.as_ref().ok_or("expected a provider cost")?;
    assert_eq!(micros(cost), 250_000);
    assert_eq!(cost.source, CostSource::Provider);
    Ok(())
}

#[test]
fn tests_usage_cost_wins_over_the_top_level_cost() -> Result<(), Box<dyn StdError>> {
    let response = decode(json(r#"{
        "choices": [{ "message": { "content": "ok" } }],
        "usage": { "prompt_tokens": 4, "completion_tokens": 2, "cost": 0.001 },
        "cost": { "usd": 0.25 }
    }"#))?;

    let cost = response.cost.as_ref().ok_or("expected a provider cost")?;
    assert_eq!(micros(cost), 1000);
    Ok(())
}

#[test]
fn tests_upstream_inference_cost_is_not_parsed_but_survives_in_raw() -> Result<(), Box<dyn StdError>> {
    let response = decode(json(r#"{
        "provider": "Fireworks",
        "choices": [{ "message": { "content": "ok" }, "native_finish_reason": "eos" }],
        "usage": {
            "prompt_tokens": 4,
            "completion_tokens": 2,
            "cost_details": { "upstream_inference_cost": 0.5 },
            "prompt_tokens_details": { "audio_tokens": 3 }
        }
    }"#))?;

    assert!(response.cost.is_none());
    let raw = to_value(response.raw.as_ref().ok_or("expected the raw body")?);
    assert_eq!(raw["usage"]["cost_details"]["upstream_inference_cost"], 0.5);
    assert_eq!(raw["usage"]["prompt_tokens_details"]["audio_tokens"], 3);
    assert_eq!(raw["provider"], "Fireworks");
    assert_eq!(raw["choices"][0]["native_finish_reason"], "eos");
    Ok(())
}

#[test]
fn tests_decodes_reasoning_and_tool_calls() -> Result<(), Box<dyn StdError>> {
    let response = decode(json(r#"{
        "id": "chatcmpl-1",
        "choices": [{
            "message": {
                "content": "done",
                "reasoning_content": "thought about it",
                "tool_calls": [{
                    "id": "call-1",
                    "function": { "name": "weather", "arguments": "{\"city\":\"Boston\"}" }
                }]
            },
            "finish_reason": "tool_calls"
        }]
    }"#))?;

    assert_eq!(response.id.as_deref(), Some("chatcmpl-1"));
    let reasoning = response.content.first().ok_or("expected reasoning")?;
    assert!(matches!(reasoning, ContentPart::Reasoning(_)));
    let call = tool_parts(&response)
        .first()
        .copied()
        .ok_or("expected a tool call")?;
    assert_eq!(to_value(&call.input.wire_value()), json(r#"{ "city": "Boston" }"#));
    assert_eq!(Some(call.input.raw()), Some(r#"{"city":"Boston"}"#));
    Ok(())
}

#[test]
fn tests_a_complete_tool_call_wins_over_a_stop_finish_reason() -> Result<(), Box<dyn StdError>> {
    // The complete-path twin of
    // `a_streamed_tool_call_wins_over_a_stop_finish_reason`: qwen on
    // Venice answers a forced tool call with `finish_reason: "stop"`,
    // and both paths must decode that exchange the same way.
    let response = decode(json(r#"{
        "choices": [{
            "message": {
                "content": "",
                "tool_calls": [{
                    "id": "call-1",
                    "function": { "name": "weather", "arguments": "{\"city\":\"Boston\"}" }
                }]
            },
            "finish_reason": "stop"
        }]
    }"#))?;

    assert_eq!(response.finish_reason, FinishReason::ToolCall);
    Ok(())
}

#[test]
fn tests_raw_provider_options_win_and_controls_never_reach_the_wire() -> Result<(), Box<dyn StdError>> {
    let options = object(json(r#"{
        "temperature": 0.9,
        "seed": 7,
        "auto_cache": false
    }"#))?;
    let call = resolved(
        builder()
            .model(MODEL)
            .user("Hello")
            .temperature(0.2)
            .provider_options(NAMESPACE, options)
            .provider_option("anthropic", "top_k", Value::from(40))
            .build()?,
    )?;

    let encoded = CODEC.encode(&call, false)?;

    assert_eq!(encoded.body["temperature"], Value::from(0.9));
    assert_eq!(encoded.body["seed"], Value::from(7));
    assert_eq!(encoded.body.get("auto_cache"), None);
    assert_eq!(encoded.body.get("top_k"), None);
    Ok(())
}

#[test]
fn tests_stop_sequences_encode_in_order_and_metadata_is_reported() -> Result<(), Box<dyn StdError>> {
    let call = resolved(
        builder()
            .model(MODEL)
            .user("Hello")
            .stop_sequences(["END", "STOP"])
            .metadata_entry("trace_id", "t789")
            .build()?,
    )?;

    let encoded = CODEC.encode(&call, false)?;

    assert_eq!(encoded.body["stop"], json(r#"["END", "STOP"]"#));
    // Only OpenAI itself takes `metadata` here, so the tags are dropped
    // with a warning rather than risking a strict skin's rejection.
    assert_eq!(encoded.body.get("metadata"), None);
    let warnings: Vec<&str> = encoded
        .warnings
        .iter()
        .map(|warning| warning.code.as_str())
        .collect();
    assert_eq!(warnings, ["unsupported_control"]);
    Ok(())
}

#[test]
fn tests_reasoning_effort_reaches_the_wire_untranslated() -> Result<(), Box<dyn StdError>> {
    let call = resolved(
        builder()
            .model(MODEL)
            .user("Hello")
            .reasoning_effort(ReasoningEffort::Xhigh)
            .build()?,
    )?;

    let encoded = CODEC.encode(&call, false)?;

    assert_eq!(encoded.body["reasoning_effort"], Value::from("xhigh"));
    Ok(())
}

#[test]
fn tests_a_developer_message_is_sent_as_a_system_message() -> Result<(), Box<dyn StdError>> {
    let call = resolved(
        builder()
            .model(MODEL)
            .message(said(Role::Developer, "Keep it short."))
            .user("Hello")
            .build()?,
    )?;

    let encoded = CODEC.encode(&call, false)?;

    assert_eq!(encoded.body["messages"][0]["role"], "system");
    Ok(())
}

#[test]
fn tests_a_json_only_tool_result_sends_the_bare_value() -> Result<(), Box<dyn StdError>> {
    let call = resolved(
        builder()
            .model(MODEL)
            .message(message(Role::Tool, [ContentPart::ToolResult(
                ToolResult {
                    tool_call_id: "call-1".to_owned(),
                    name:         Some("weather".to_owned()),
                    content:      vec![ContentPart::Json {
                        value: from_value(json(r#"{ "city": "Boston", "temp_c": 4 }"#)),
                    }],
                    is_error:     false,
                },
            )]))
            .build()?,
    )?;

    let encoded = CODEC.encode(&call, false)?;

    assert_eq!(
        encoded.body["messages"][0]["content"],
        Value::from(r#"{"city":"Boston","temp_c":4}"#),
        "the value itself, not the ContentPart envelope"
    );
    Ok(())
}

#[test]
fn tests_a_json_string_tool_result_sends_the_raw_text() -> Result<(), Box<dyn StdError>> {
    let call = resolved(
        builder()
            .model(MODEL)
            .message(message(Role::Tool, [ContentPart::ToolResult(
                ToolResult {
                    tool_call_id: "call-1".to_owned(),
                    name:         Some("weather".to_owned()),
                    content:      vec![ContentPart::Json {
                        value: from_value(Value::from("72F and sunny")),
                    }],
                    is_error:     false,
                },
            )]))
            .build()?,
    )?;

    let encoded = CODEC.encode(&call, false)?;

    assert_eq!(
        encoded.body["messages"][0]["content"],
        Value::from("72F and sunny")
    );
    Ok(())
}

#[test]
fn tests_an_empty_text_tool_result_sends_an_empty_string() -> Result<(), Box<dyn StdError>> {
    // A command with no stdout answers with nothing. Serializing the
    // ContentPart envelope instead would hand the model spurious JSON as
    // the tool's answer.
    let call = resolved(
        builder()
            .model(MODEL)
            .message(message(Role::Tool, [ContentPart::ToolResult(
                ToolResult {
                    tool_call_id: "call-1".to_owned(),
                    name:         Some("shell".to_owned()),
                    content:      vec![ContentPart::Text {
                        text: String::new(),
                    }],
                    is_error:     false,
                },
            )]))
            .build()?,
    )?;

    let encoded = CODEC.encode(&call, false)?;

    assert_eq!(encoded.body["messages"][0]["content"], Value::from(""));
    Ok(())
}

#[test]
fn tests_several_text_parts_join_into_the_plain_string_form() -> Result<(), Box<dyn StdError>> {
    let call = resolved(
        builder()
            .model(MODEL)
            .message(message(Role::User, [
                ContentPart::Text {
                    text: "First paragraph. ".to_owned(),
                },
                ContentPart::Text {
                    text: "Second paragraph.".to_owned(),
                },
            ]))
            .build()?,
    )?;

    let encoded = CODEC.encode(&call, false)?;

    assert_eq!(
        encoded.body["messages"][0]["content"],
        Value::from("First paragraph. Second paragraph.")
    );
    Ok(())
}

#[test]
fn noncanonical_reasoning_details_are_ignored() -> Result<(), Box<dyn StdError>> {
    let details = json(r#"[{ "type": "reasoning.encrypted", "id": "rs-1", "data": "AQ==" }]"#);
    let call = resolved(
        builder()
            .model(MODEL)
            .user("hi")
            .message(message(Role::Assistant, [
                opaque("openai_compat_reasoning_details", details.clone()),
                ContentPart::Text {
                    text: "Looking it up.".to_owned(),
                },
            ]))
            .user("thanks")
            .build()?,
    )?;

    let encoded = CODEC.encode(&call, false)?;

    assert!(
        encoded.body["messages"][1]
            .get("reasoning_details")
            .is_none()
    );
    Ok(())
}

#[test]
fn tests_several_reasoning_parts_replay_concatenated() -> Result<(), Box<dyn StdError>> {
    let call = resolved(
        builder()
            .model(MODEL)
            .user("hi")
            .message(message(Role::Assistant, [
                ContentPart::Reasoning(ReasoningContent {
                    text:             "First block. ".to_owned(),
                    signature:        None,
                    signature_origin: None,
                    redacted:         false,
                }),
                ContentPart::Reasoning(ReasoningContent {
                    text:             "Second block.".to_owned(),
                    signature:        None,
                    signature_origin: None,
                    redacted:         false,
                }),
                ContentPart::Text {
                    text: "Answer.".to_owned(),
                },
            ]))
            .user("thanks")
            .build()?,
    )?;

    let encoded = CODEC.encode(&call, false)?;

    assert_eq!(
        encoded.body["messages"][1]["reasoning_content"],
        Value::from("First block. Second block.")
    );
    Ok(())
}

#[test]
fn tests_a_body_without_choices_fails_to_decode() -> Result<(), Box<dyn StdError>> {
    let error = CODEC
        .decode_response(&route()?, json(r#"{ "id": "chatcmpl-1", "choices": [] }"#))
        .err()
        .ok_or("expected an empty choices array to fail")?;

    assert_eq!(error.kind(), ErrorKind::ResponseDecode);
    assert_eq!(error.retry_classification(), RetryClassification::Safe);
    Ok(())
}

#[test]
fn tests_an_invalid_stream_chunk_fails_retryably() -> Result<(), Box<dyn StdError>> {
    let mut decoder = CODEC.stream_decoder(&route()?);

    let error = decoder
        .decode(SseEvent {
            event: None,
            data:  "{\"id\": \"chatcmpl-1\", \"choi".to_owned(),
        })
        .err()
        .ok_or("expected the truncated chunk to fail the stream")?;

    assert_eq!(error.kind(), ErrorKind::StreamDecode);
    assert_eq!(error.retry_classification(), RetryClassification::Safe);
    Ok(())
}

#[test]
fn tests_an_explicit_null_error_member_is_not_an_error() -> Result<(), Box<dyn StdError>> {
    // A skin that spells out `"error": null` on success chunks must not
    // fail every stream it serves.
    let mut decoder = CODEC.stream_decoder(&route()?);

    let events = decoder.decode(SseEvent {
        event: None,
        data:  json(r#"{
            "id": "chatcmpl-1",
            "error": null,
            "choices": [{ "delta": { "content": "hi" } }]
        }"#)
        .to_string(),
    })?;

    assert!(
        events
            .iter()
            .any(|event| matches!(event, StreamEvent::TextDelta { text, .. } if text == "hi")),
        "{events:?}"
    );
    Ok(())
}

#[test]
fn tests_an_array_form_content_delta_decodes_like_the_blocking_path() -> Result<(), Box<dyn StdError>> {
    // A skin that streams content as an array of parts must not complete
    // as an empty success; the blocking path already reads both shapes.
    let mut decoder = CODEC.stream_decoder(&route()?);

    let events = decoder.decode(SseEvent {
        event: None,
        data:  json(r#"{
            "id": "chatcmpl-1",
            "choices": [{ "delta": { "content": [
                { "type": "text", "text": "Hel" },
                { "type": "text", "text": "lo" }
            ] } }]
        }"#)
        .to_string(),
    })?;

    assert!(
        events
            .iter()
            .any(|event| matches!(event, StreamEvent::TextDelta { text, .. } if text == "Hello")),
        "{events:?}"
    );
    Ok(())
}

#[test]
fn tests_a_tool_call_fragment_without_an_index_fails_retryably() -> Result<(), Box<dyn StdError>> {
    let mut decoder = CODEC.stream_decoder(&route()?);

    let error = decoder
        .decode(SseEvent {
            event: None,
            data:  json(r#"{
                "id": "chatcmpl-1",
                "choices": [{ "delta": { "tool_calls": [{
                    "id": "call-1",
                    "function": { "name": "weather", "arguments": "{}" }
                }] } }]
            }"#)
            .to_string(),
        })
        .err()
        .ok_or("expected the index-less fragment to fail the stream")?;

    assert_eq!(error.kind(), ErrorKind::StreamDecode);
    assert_eq!(error.retry_classification(), RetryClassification::Safe);
    Ok(())
}

#[test]
fn tests_arguments_before_identity_assemble_once_identity_arrives() -> Result<(), Box<dyn StdError>> {
    // Some skins deterministically stream `{index, function: {arguments}}`
    // before the fragment that carries the call's identity. The slot
    // opens on the arguments alone, and the late id and name repair the
    // block; failing the stream instead would retry forever against such
    // a skin.
    let events = stream(vec![
        json(r#"{ "id": "chatcmpl-1", "choices": [{ "delta": { "tool_calls": [
            { "index": 0, "function": { "arguments": "{\"q\":" } }
        ] } }] }"#),
        json(r#"{ "id": "chatcmpl-1", "choices": [{ "delta": { "tool_calls": [
            { "index": 0, "id": "call-1",
              "function": { "name": "search", "arguments": "\"rust\"}" } }
        ] } }] }"#),
        json(r#"{ "id": "chatcmpl-1", "choices": [{ "delta": {}, "finish_reason": "tool_calls" }] }"#),
    ])?;

    let starts = events
        .iter()
        .filter(|event| matches!(event, StreamEvent::ContentBlockStart { .. }))
        .count();
    assert_eq!(starts, 1, "the late identity must not reopen the block");

    let responses = completed(&events);
    assert_eq!(responses.len(), 1);
    let calls = tool_parts(responses[0]);
    assert_eq!(calls.len(), 1);
    assert_eq!(calls[0].id, "call-1");
    assert_eq!(calls[0].name, "search");
    assert_eq!(to_value(&calls[0].input.wire_value()), json(r#"{ "q": "rust" }"#));
    Ok(())
}

#[test]
fn tests_arguments_only_to_stream_end_keep_the_synthesized_identity() -> Result<(), Box<dyn StdError>> {
    let events = stream(vec![
        json(r#"{ "id": "chatcmpl-1", "choices": [{ "delta": { "tool_calls": [
            { "index": 0, "function": { "arguments": "{\"q\":" } }
        ] } }] }"#),
        json(r#"{ "id": "chatcmpl-1", "choices": [{ "delta": { "tool_calls": [
            { "index": 0, "function": { "arguments": "\"rust\"}" } }
        ] } }] }"#),
        json(r#"{ "id": "chatcmpl-1", "choices": [{ "delta": {}, "finish_reason": "tool_calls" }] }"#),
    ])?;

    let responses = completed(&events);
    assert_eq!(responses.len(), 1);
    assert_eq!(responses[0].finish_reason, FinishReason::ToolCall);
    let calls = tool_parts(responses[0]);
    assert_eq!(calls.len(), 1);
    assert_eq!(calls[0].id, "tool-0");
    assert_eq!(calls[0].name, "");
    assert_eq!(to_value(&calls[0].input.wire_value()), json(r#"{ "q": "rust" }"#));
    Ok(())
}

#[test]
fn tests_tool_call_identity_arriving_on_a_later_fragment_is_kept() -> Result<(), Box<dyn StdError>> {
    // A skin may open the slot with the name and send the provider call
    // id on a later fragment. Discarding the late id would answer the
    // call with the synthesized block id, which the provider rejects on
    // the next turn.
    let events = stream(vec![
        json(r#"{ "id": "chatcmpl-1", "choices": [{ "delta": { "tool_calls": [
            { "index": 0, "function": { "name": "search", "arguments": "{\"q\":" } }
        ] } }] }"#),
        json(r#"{ "id": "chatcmpl-1", "choices": [{ "delta": { "tool_calls": [
            { "index": 0, "id": "call-real", "function": { "arguments": "\"rust\"}" } }
        ] } }] }"#),
        json(r#"{ "id": "chatcmpl-1", "choices": [{ "delta": {}, "finish_reason": "tool_calls" }] }"#),
    ])?;

    let responses = completed(&events);
    assert_eq!(responses.len(), 1);
    let calls = tool_parts(responses[0]);
    assert_eq!(calls.len(), 1);
    assert_eq!(calls[0].id, "call-real");
    assert_eq!(calls[0].name, "search");
    assert_eq!(to_value(&calls[0].input.wire_value()), json(r#"{ "q": "rust" }"#));
    Ok(())
}

#[test]
fn tests_a_streamed_tool_call_wins_over_a_stop_finish_reason() -> Result<(), Box<dyn StdError>> {
    // Some skins stream tool calls yet report `finish_reason: "stop"`.
    // The streamed blocks are the ground truth — an agent loop keyed on
    // `ToolCall` must see the calls it is meant to execute.
    let events = stream(vec![
        json(r#"{ "id": "chatcmpl-1", "choices": [{ "delta": { "tool_calls": [
            { "index": 0, "id": "call-1",
              "function": { "name": "search", "arguments": "{\"q\":\"rust\"}" } }
        ] } }] }"#),
        json(r#"{ "id": "chatcmpl-1", "choices": [{ "delta": {}, "finish_reason": "stop" }] }"#),
    ])?;

    let responses = completed(&events);
    assert_eq!(responses.len(), 1);
    assert_eq!(responses[0].finish_reason, FinishReason::ToolCall);
    Ok(())
}

#[test]
fn a_streamed_tool_call_without_a_finish_reason_fails() -> Result<(), Box<dyn StdError>> {
    // Even syntactically complete arguments cannot prove the model has
    // finished the call. In particular, an empty prefix must not become {}.
    for arguments in ["", "{\"q\":", "{}"] {
        let mut decoder = CODEC.stream_decoder(&route()?);
        let events = decoder.decode(SseEvent {
            event: None,
            data:  filled(r#"{ "id": "chatcmpl-1", "choices": [{ "delta": {
                "tool_calls": [{ "index": 0, "id": "call-1",
                    "function": { "name": "search", "arguments": "$0"} }]
            } }] }"#, &[Value::from(arguments.clone())])
            .to_string(),
        })?;
        assert!(completed(&events).is_empty());
        let error = decoder.finish().expect_err("unfinished tool call");
        assert_eq!(error.kind(), ErrorKind::StreamDecode);
        assert_eq!(error.retry_classification(), RetryClassification::Safe);
    }
    Ok(())
}

#[test]
fn tests_a_tool_call_cut_at_the_output_limit_is_dropped() -> Result<(), Box<dyn StdError>> {
    // Verified live: `finish_reason: length` beside a call whose
    // arguments are a JSON prefix. The call leaves the content and a
    // warning names it.
    let response = decode(json(r#"{
        "id": "chatcmpl-1",
        "choices": [{
            "message": {
                "tool_calls": [{
                    "id": "call-1",
                    "function": {
                        "name": "write_note",
                        "arguments": "{\"title\":\"Rome\",\"body\":\"Rome began"
                    }
                }]
            },
            "finish_reason": "length"
        }]
    }"#))?;

    assert!(tool_parts(&response).is_empty());
    assert_eq!(response.finish_reason, FinishReason::Length);
    assert_eq!(response.warnings.len(), 1);
    assert_eq!(response.warnings[0].code, "truncated_tool_call");
    assert!(response.warnings[0].message.contains("write_note"));
    Ok(())
}

#[test]
fn tests_a_non_stop_finish_reason_is_kept_despite_streamed_tool_calls() -> Result<(), Box<dyn StdError>> {
    // Truncation trumps inference: a `length` stop on a partial call is
    // still a truncated answer, and the partial call is not a call.
    let events = stream(vec![
        json(r#"{ "id": "chatcmpl-1", "choices": [{ "delta": { "tool_calls": [
            { "index": 0, "id": "call-1",
              "function": { "name": "search", "arguments": "{\"q\":" } }
        ] } }] }"#),
        json(r#"{ "id": "chatcmpl-1", "choices": [{ "delta": {}, "finish_reason": "length" }] }"#),
    ])?;

    let responses = completed(&events);
    assert_eq!(responses.len(), 1);
    assert_eq!(responses[0].finish_reason, FinishReason::Length);
    assert!(tool_parts(responses[0]).is_empty());
    assert_eq!(responses[0].warnings.len(), 1);
    assert_eq!(responses[0].warnings[0].code, "truncated_tool_call");
    Ok(())
}

#[test]
fn tests_a_refusal_fails_instead_of_decoding() -> Result<(), Box<dyn StdError>> {
    let body = json(r#"{
        "id": "chatcmpl-1",
        "choices": [{
            "message": { "role": "assistant", "content": null, "refusal": "I can't do that." },
            "finish_reason": "stop"
        }]
    }"#);

    let error = CODEC
        .decode_response(&route()?, body.clone())
        .expect_err("a refusal must fail the call");

    assert_eq!(error.kind(), ErrorKind::ContentFilter);
    assert_eq!(error.provider_code(), Some("refusal"));
    assert!(error.to_string().contains("I can't do that."), "{error}");
    assert_eq!(error.raw_data(), Some(body));
    Ok(())
}

#[test]
fn tests_a_streamed_refusal_fails_the_stream_with_the_whole_explanation() -> Result<(), Box<dyn StdError>>
{
    let mut decoder = CODEC.stream_decoder(&route()?);
    for fragment in ["I can't ", "do that."] {
        decoder.decode(SseEvent {
            event: None,
            data:  filled(r#"{
                "id": "chatcmpl-1",
                "choices": [{ "delta": { "refusal": "$0"} }]
            }"#, &[Value::from(fragment.clone())])
            .to_string(),
        })?;
    }

    let error = decoder
        .finish()
        .expect_err("a streamed refusal must fail the stream");

    assert_eq!(error.kind(), ErrorKind::ContentFilter);
    assert_eq!(error.provider_code(), Some("refusal"));
    assert!(error.to_string().contains("I can't do that."), "{error}");
    Ok(())
}

#[test]
fn tests_a_choice_without_a_message_fails_to_decode() -> Result<(), Box<dyn StdError>> {
    let error = CODEC
        .decode_response(
            &route()?,
            json(r#"{ "id": "chatcmpl-1", "choices": [{ "finish_reason": "stop" }] }"#),
        )
        .err()
        .ok_or("expected a choice without a message to fail")?;

    assert_eq!(error.kind(), ErrorKind::ResponseDecode);
    assert_eq!(error.retry_classification(), RetryClassification::Safe);
    Ok(())
}

#[test]
fn tests_a_tool_call_without_its_identity_fails_to_decode() -> Result<(), Box<dyn StdError>> {
    // A call missing its id cannot be answered; one missing its name
    // cannot be dispatched. Both must fail retryably instead of decoding
    // into a part that poisons the replayed conversation.
    for tool_call in [
        json(r#"{ "type": "function", "function": { "name": "f", "arguments": "{}" } }"#),
        json(r#"{ "id": "call-1", "type": "function", "function": { "arguments": "{}" } }"#),
    ] {
        let error = CODEC
            .decode_response(
                &route()?,
                filled(r#"{
                    "id": "chatcmpl-1",
                    "choices": [{ "message": { "tool_calls": ["$0"] } }]
                }"#, &[Value::from(tool_call.clone())]),
            )
            .err()
            .ok_or("expected a tool call without id or name to fail")?;
        assert_eq!(error.kind(), ErrorKind::ResponseDecode);
        assert_eq!(error.retry_classification(), RetryClassification::Safe);
    }
    Ok(())
}

/// The route of a model that opts into `cache_control` breakpoints, the way an
/// aggregator fronting an Anthropic model does.
fn breakpoint_route() -> ResolvedRoute {
    let mut route = route_of("gateway/fronted", "http://127.0.0.1");
    route.model.cache_breakpoints = true;
    route
}

/// The route of a model that takes a cache routing hint, the way Venice and
/// OpenAI take `prompt_cache_key`.
fn routing_route() -> ResolvedRoute {
    let mut route = route_of("gateway/routed", "http://127.0.0.1");
    route.model.cache_routing = true;
    route
}

fn routed(request: Asked) -> Result<Value, Box<dyn StdError>> {
    let call = resolved_in(routing_route(), request)?;
    Ok(CODEC.encode(&call, false)?.body)
}

#[test]
fn tests_the_default_cache_hint_sends_a_stable_fingerprint() -> Result<(), Box<dyn StdError>> {
    let request = || {
        builder()
            .model("gateway/routed")
            .system("Keep it short.")
            .user("Hello")
            .build()
    };
    let first = routed(request()?)?;
    let second = routed(request()?)?;

    let key = first["prompt_cache_key"]
        .as_str()
        .ok_or("no prompt_cache_key was sent")?;
    assert!(key.starts_with("lithos-"), "unexpected key shape: {key}");
    assert_eq!(first["prompt_cache_key"], second["prompt_cache_key"]);

    // A different system prefix routes elsewhere; a different user turn
    // does not, so an agent loop keeps one replica.
    let other_system = routed(
        builder()
            .model("gateway/routed")
            .system("Answer in French.")
            .user("Hello")
            .build()?,
    )?;
    assert_ne!(first["prompt_cache_key"], other_system["prompt_cache_key"]);
    let other_turn = routed(
        builder()
            .model("gateway/routed")
            .system("Keep it short.")
            .user("A different question entirely")
            .build()?,
    )?;
    assert_eq!(first["prompt_cache_key"], other_turn["prompt_cache_key"]);
    Ok(())
}

#[test]
fn tests_an_explicit_cache_key_is_sent_verbatim() -> Result<(), Box<dyn StdError>> {
    let body = routed(
        builder()
            .model("gateway/routed")
            .user("Hello")
            .cache_key("tenant-42")
            .build()?,
    )?;
    assert_eq!(body["prompt_cache_key"], Value::from("tenant-42"));
    Ok(())
}

#[test]
fn tests_a_disabled_cache_hint_sends_nothing() -> Result<(), Box<dyn StdError>> {
    let body = routed(
        builder()
            .model("gateway/routed")
            .user("Hello")
            .cache_hint(CacheHint::Disabled)
            .build()?,
    )?;
    assert_eq!(body.get("prompt_cache_key"), None);
    Ok(())
}

#[test]
fn tests_auto_cache_off_suppresses_the_fingerprint() -> Result<(), Box<dyn StdError>> {
    let body = routed(
        builder()
            .model("gateway/routed")
            .user("Hello")
            .provider_option("gateway", "auto_cache", Value::Bool(false))
            .build()?,
    )?;
    assert_eq!(body.get("prompt_cache_key"), None);
    Ok(())
}

#[test]
fn tests_a_raw_prompt_cache_key_wins_over_the_fingerprint() -> Result<(), Box<dyn StdError>> {
    let body = routed(
        builder()
            .model("gateway/routed")
            .user("Hello")
            .provider_option("gateway", "prompt_cache_key", Value::from("raw-key"))
            .build()?,
    )?;
    assert_eq!(body["prompt_cache_key"], Value::from("raw-key"));
    Ok(())
}

#[test]
fn tests_no_routing_capability_means_no_fingerprint() -> Result<(), Box<dyn StdError>> {
    let call = resolved_in(breakpoint_route(), multi_turn("gateway/fronted")?)?;
    let encoded = CODEC.encode(&call, false)?;
    assert_eq!(encoded.body.get("prompt_cache_key"), None);
    Ok(())
}

/// The route of a provider with default request options, the way a Venice row
/// turns off the injected system prompt.
fn default_options_route() -> ResolvedRoute {
    let mut route = route_of("gateway/fronted", "http://127.0.0.1");
    route.provider.default_options.insert(
        "venice_parameters",
        from_value(json(
            r#"{ "include_venice_system_prompt": false, "strip_thinking_response": false }"#,
        )),
    );
    route
}

#[test]
fn tests_catalog_default_options_reach_the_wire() -> Result<(), Box<dyn StdError>> {
    let call = resolved_in(
        default_options_route(),
        builder()
            .model("gateway/fronted")
            .user("Hello")
            .build()?,
    )?;

    let encoded = CODEC.encode(&call, false)?;

    assert_eq!(
        encoded.body["venice_parameters"]["include_venice_system_prompt"],
        Value::Bool(false)
    );
    Ok(())
}

#[test]
fn tests_request_options_win_over_catalog_defaults_key_by_key() -> Result<(), Box<dyn StdError>> {
    let call = resolved_in(
        default_options_route(),
        builder()
            .model("gateway/fronted")
            .user("Hello")
            .provider_option(
                "gateway",
                "venice_parameters",
                json(r#"{ "include_venice_system_prompt": true }"#),
            )
            .build()?,
    )?;

    let encoded = CODEC.encode(&call, false)?;

    // The request overrides the one key it names; the default's sibling
    // key survives, because option namespaces merge recursively.
    assert_eq!(
        encoded.body["venice_parameters"]["include_venice_system_prompt"],
        Value::Bool(true)
    );
    assert_eq!(
        encoded.body["venice_parameters"]["strip_thinking_response"],
        Value::Bool(false)
    );
    Ok(())
}

#[test]
fn tests_a_control_key_in_catalog_defaults_is_consumed() -> Result<(), Box<dyn StdError>> {
    let mut route = breakpoint_route();
    route.provider.default_options.insert("auto_cache", Json::Bool(false));
    let call = resolved_in(route, multi_turn("gateway/fronted")?)?;

    let encoded = CODEC.encode(&call, false)?;

    let rendered = encoded.body.to_string();
    assert_eq!(rendered.matches("cache_control").count(), 0);
    assert_eq!(encoded.body.get("auto_cache"), None);
    Ok(())
}

fn multi_turn(model: &str) -> Result<Asked, Box<dyn StdError>> {
    Ok(builder()
        .model(model)
        .system("Keep it short.")
        .user("What is the capital of France?")
        .message(said(Role::Assistant, "Paris."))
        .user("And of Spain?")
        .build()?)
}

#[test]
fn tests_auto_cache_marks_the_system_message_and_the_prefix() -> Result<(), Box<dyn StdError>> {
    let call = resolved_in(breakpoint_route(), multi_turn("gateway/fronted")?)?;

    let encoded = CODEC.encode(&call, false)?;

    let messages = &encoded.body["messages"];
    assert_eq!(
        messages[0]["content"][0]["cache_control"]["type"],
        "ephemeral"
    );
    assert_eq!(
        messages[1]["content"][0]["cache_control"]["type"],
        "ephemeral"
    );
    assert_eq!(
        messages[1]["content"][0]["text"],
        "What is the capital of France?"
    );
    assert!(
        messages[3]["content"].is_string(),
        "the last user turn keeps the plain string form"
    );
    Ok(())
}

#[test]
fn tests_auto_cache_false_places_no_breakpoints() -> Result<(), Box<dyn StdError>> {
    let call = resolved_in(
        breakpoint_route(),
        builder()
            .model("gateway/fronted")
            .system("Keep it short.")
            .user("What is the capital of France?")
            .message(said(Role::Assistant, "Paris."))
            .user("And of Spain?")
            .provider_option("gateway", "auto_cache", Value::Bool(false))
            .build()?,
    )?;

    let encoded = CODEC.encode(&call, false)?;

    assert_eq!(
        encoded.body.to_string().matches("cache_control").count(),
        0
    );
    Ok(())
}

#[test]
fn tests_caching_without_breakpoint_support_places_no_breakpoints() -> Result<(), Box<dyn StdError>> {
    // The builtin model declares `caching` for its pricing but not
    // `cache_breakpoints`. A skin whose caching is automatic can reject
    // the part-array rewrite, so its content must stay untouched.
    let call = resolved(multi_turn(MODEL)?)?;

    let encoded = CODEC.encode(&call, false)?;

    assert_eq!(
        encoded.body.to_string().matches("cache_control").count(),
        0
    );
    assert!(
        encoded.body["messages"][0]["content"].is_string(),
        "unmarked messages keep the plain string form"
    );
    Ok(())
}

#[test]
fn tests_reasoning_details_are_preserved_verbatim() -> Result<(), Box<dyn StdError>> {
    let details = json(r#"[
        { "type": "reasoning.encrypted", "id": "rs-1", "data": "opaque" },
        { "type": "reasoning.text", "text": "step one", "index": 0 }
    ]"#);
    let response = decode(filled(r#"{
        "choices": [{
            "message": { "content": "done", "reasoning_details": "$0"},
            "finish_reason": "stop"
        }]
    }"#, &[Value::from(details.clone())]))?;

    let first = response.content.first().ok_or("expected an opaque part")?;
    match first {
        ContentPart::Opaque { kind, data } => {
            assert_eq!(kind, "openai_compatible.reasoning_details");
            assert_eq!(to_value(data), details);
        }
        other => return Err(format!("expected an opaque part, got {other:?}").into()),
    }
    Ok(())
}

#[test]
fn tests_same_type_unindexed_complete_details_stay_separate_entries() -> Result<(), Box<dyn StdError>> {
    // Multi-block reasoning through an aggregator: two entries of one
    // type, no indexes, each sealed by its own signature. Coalescing them
    // would discard the second signature and fail verification upstream
    // on replay — only a stream coalesces, to undo its own fragmenting.
    let details = json(r#"[
        { "type": "reasoning.text", "text": "step one", "signature": "sig-1" },
        { "type": "reasoning.text", "text": "step two", "signature": "sig-2" }
    ]"#);
    let response = decode(filled(r#"{
        "choices": [{
            "message": { "content": "done", "reasoning_details": "$0"},
            "finish_reason": "stop"
        }]
    }"#, &[Value::from(details.clone())]))?;

    let first = response.content.first().ok_or("expected an opaque part")?;
    match first {
        ContentPart::Opaque { kind, data } => {
            assert_eq!(kind, "openai_compatible.reasoning_details");
            assert_eq!(to_value(data), details);
        }
        other => return Err(format!("expected an opaque part, got {other:?}").into()),
    }
    Ok(())
}

#[test]
fn tests_streamed_detail_fragments_coalesce_by_type_and_index() -> Result<(), Box<dyn StdError>> {
    let events = stream(vec![
        json(r#"{ "id": "chatcmpl-1", "choices": [{ "delta": { "reasoning_details": [
            { "type": "reasoning.text", "index": 0, "text": "first " }
        ] } }] }"#),
        json(r#"{ "choices": [{ "delta": { "reasoning_details": [
            { "type": "reasoning.text", "index": 1, "text": "second " }
        ] } }] }"#),
        json(r#"{ "choices": [{ "delta": { "reasoning_details": [
            { "type": "reasoning.text", "index": 0, "text": "half" }
        ] } }] }"#),
        json(r#"{ "choices": [{ "delta": { "reasoning_details": [
            { "type": "reasoning.text", "index": 1, "text": "half", "signature": "sig" }
        ] } }] }"#),
        json(r#"{ "choices": [{ "delta": { "content": "done" }, "finish_reason": "stop" }] }"#),
    ])?;

    let response = completed(&events)
        .first()
        .copied()
        .ok_or("expected a completed response")?;
    let first = response.content.first().ok_or("expected an opaque part")?;
    match first {
        ContentPart::Opaque { kind, data } => {
            assert_eq!(kind, "openai_compatible.reasoning_details");
            assert_eq!(
                to_value(data),
                json(r#"[
                    { "type": "reasoning.text", "index": 0, "text": "first half" },
                    {
                        "type": "reasoning.text",
                        "index": 1,
                        "text": "second half",
                        "signature": "sig"
                    }
                ]"#)
            );
        }
        other => return Err(format!("expected an opaque part, got {other:?}").into()),
    }
    Ok(())
}

#[test]
fn tests_a_custom_tool_is_rejected_before_dispatch() -> Result<(), Box<dyn StdError>> {
    let call = resolved(
        builder()
            .model(MODEL)
            .user("Hello")
            .tool(custom_tool(
                "apply_patch",
                "Applies a patch",
                json(r#"{ "type": "grammar" }"#),
            ))
            .build()?,
    )?;

    let error = CODEC
        .encode(&call, false)
        .err()
        .ok_or("expected a custom tool to be rejected")?;

    assert_eq!(error.provider_code(), Some("unsupported_capability"));
    Ok(())
}

#[test]
fn tests_count_tokens_is_unavailable() -> Result<(), Box<dyn StdError>> {
    let call = resolved(builder().model(MODEL).user("Hello").build()?)?;

    assert!(
        CODEC
            .encode_count_tokens(&call)
            .is_none()
    );
    Ok(())
}

#[test]
fn tests_streaming_always_requests_usage() -> Result<(), Box<dyn StdError>> {
    let call = resolved(builder().model(MODEL).user("Hello").build()?)?;

    let streamed = CODEC.encode(&call, true)?;
    let complete = CODEC.encode(&call, false)?;

    assert_eq!(streamed.body["stream"], Value::Bool(true));
    assert_eq!(
        streamed.body["stream_options"],
        json(r#"{ "include_usage": true }"#)
    );
    // A blocking request omits both members entirely; a strict skin may
    // reject an explicit `stream: false`.
    assert_eq!(complete.body.get("stream"), None);
    assert_eq!(complete.body.get("stream_options"), None);
    Ok(())
}

#[test]
fn tests_interleaved_tool_calls_keep_separate_blocks() -> Result<(), Box<dyn StdError>> {
    let events = stream(vec![
        json(r#"{ "id": "chatcmpl-1", "choices": [{ "delta": {
            "tool_calls": [{ "index": 0, "id": "call-a", "function": { "name": "alpha", "arguments": "" } }]
        } }] }"#),
        json(r#"{ "choices": [{ "delta": {
            "tool_calls": [{ "index": 1, "id": "call-b", "function": { "name": "beta", "arguments": "{\"b\":" } }]
        } }] }"#),
        json(r#"{ "choices": [{ "delta": {
            "tool_calls": [{ "index": 0, "function": { "arguments": "{\"a\":1}" } }]
        } }] }"#),
        json(r#"{ "choices": [{ "delta": {
            "tool_calls": [{ "index": 1, "function": { "arguments": "2}" } }]
        } }] }"#),
        json(r#"{ "choices": [{ "delta": {}, "finish_reason": "tool_calls" }] }"#),
    ])?;

    let starts: Vec<(String, &ContentBlockKind)> = events
        .iter()
        .filter_map(|event| match event {
            StreamEvent::ContentBlockStart { id, kind } => {
                Some((id.as_str().to_owned(), kind))
            }
            _ => None,
        })
        .collect();
    assert_eq!(starts.len(), 2);
    assert_eq!(starts[0].0, "tool-0");
    assert_eq!(starts[1].0, "tool-1");

    let response = completed(&events)
        .first()
        .copied()
        .ok_or("expected a completed response")?;
    let calls = tool_parts(response);
    assert_eq!(calls.len(), 2);
    assert_eq!(calls[0].id, "call-a");
    assert_eq!(calls[0].name, "alpha");
    assert_eq!(to_value(&calls[0].input.wire_value()), json(r#"{ "a": 1 }"#));
    assert_eq!(calls[1].id, "call-b");
    assert_eq!(to_value(&calls[1].input.wire_value()), json(r#"{ "b": 2 }"#));
    Ok(())
}

#[test]
fn tests_reasoning_deltas_produce_a_reasoning_block() -> Result<(), Box<dyn StdError>> {
    let events = stream(vec![
        json(r#"{ "id": "chatcmpl-1", "choices": [{ "delta": { "reasoning": "step " } }] }"#),
        json(r#"{ "choices": [{ "delta": { "reasoning_content": "one" } }] }"#),
        json(r#"{ "choices": [{ "delta": { "content": "answer" }, "finish_reason": "stop" }] }"#),
    ])?;

    let reasoning: String = events
        .iter()
        .filter_map(|event| match event {
            StreamEvent::ReasoningDelta { text, .. } => Some(text.as_str()),
            _ => None,
        })
        .collect();
    assert_eq!(reasoning, "step one");

    let blocks: Vec<&str> = events
        .iter()
        .filter_map(|event| match event {
            StreamEvent::ContentBlockStart { id, .. } => Some(id.as_str()),
            _ => None,
        })
        .collect();
    assert_eq!(blocks, ["reasoning-0", "block-0"]);

    let response = completed(&events)
        .first()
        .copied()
        .ok_or("expected a completed response")?;
    let first = response.content.first().ok_or("expected reasoning")?;
    match first {
        ContentPart::Reasoning(reasoning) => assert_eq!(reasoning.text, "step one"),
        other => return Err(format!("expected reasoning, got {other:?}").into()),
    }
    assert_eq!(response.text(), "answer");
    Ok(())
}

#[test]
fn tests_the_final_empty_choices_chunk_carries_usage() -> Result<(), Box<dyn StdError>> {
    let events = stream(vec![
        json(r#"{ "id": "chatcmpl-1", "choices": [{ "delta": { "content": "Hel" } }] }"#),
        json(r#"{ "choices": [{ "delta": { "content": "lo" }, "finish_reason": "stop" }] }"#),
        json(r#"{ "choices": [], "usage": {
            "prompt_tokens": 11,
            "completion_tokens": 5,
            "prompt_tokens_details": { "cached_tokens": 3 },
            "cost": 0.0001
        } }"#),
    ])?;

    let usage: Vec<_> = events
        .iter()
        .filter_map(|event| match event {
            StreamEvent::Usage { usage } => Some(*usage),
            _ => None,
        })
        .collect();
    assert_eq!(usage.len(), 1);
    assert_eq!(usage[0].input, 8);
    assert_eq!(usage[0].cache_read, 3);

    let responses = completed(&events);
    assert_eq!(responses.len(), 1);
    let response = responses[0];
    assert_eq!(response.id.as_deref(), Some("chatcmpl-1"));
    assert_eq!(response.text(), "Hello");
    assert_eq!(response.usage.output, 5);
    let cost = response.cost.as_ref().ok_or("expected a provider cost")?;
    assert_eq!(micros(cost), 100);
    assert_eq!(cost.source, CostSource::Provider);
    // This protocol supplies no terminal response document.
    assert!(response.raw.is_none());
    Ok(())
}

#[test]
fn tests_a_stream_error_chunk_ends_the_stream() -> Result<(), Box<dyn StdError>> {
    let mut decoder = CODEC.stream_decoder(&route()?);

    let error = decoder
        .decode(SseEvent {
            event: None,
            data:  json(r#"{ "error": {
                "message": "rate limit reached",
                "code": "rate_limit_exceeded"
            } }"#)
            .to_string(),
        })
        .err()
        .ok_or("expected an error chunk to fail the stream")?;

    assert_eq!(error.provider_code(), Some("rate_limit_exceeded"));
    Ok(())
}

#[test]
fn the_done_terminator_completes_the_stream() -> Result<(), Box<dyn StdError>> {
    let mut decoder = CODEC.stream_decoder(&route()?);
    decoder.decode(SseEvent {
        event: None,
        data:  json(r#"{
            "id": "chatcmpl-1",
            "choices": [{ "delta": { "content": "ok" }, "finish_reason": "stop" }]
        }"#)
        .to_string(),
    })?;

    let events = decoder.decode(SseEvent {
        event: None,
        data:  "[DONE]".to_owned(),
    })?;

    let responses = completed(&events);
    assert_eq!(responses.len(), 1, "the terminator completes the response");
    assert_eq!(responses[0].finish_reason, FinishReason::Stop);
    assert!(decoder.finish()?.is_empty(), "completing is idempotent");
    Ok(())
}

#[test]
fn an_api_root_takes_no_version_segment() -> Result<(), Box<dyn StdError>> {
    let mut route = route_of("zai/glm", "https://api.z.ai/api/coding/paas/v4");
    route.model.caching = false;
    let call = resolved_in(route, builder().model("zai/glm").user("Hi").build()?)?;

    let rooted = Codec(OpenAiChatCodec::at_api_root()).encode(&call, false)?;
    let versioned = Codec(OpenAiChatCodec::new()).encode(&call, false)?;

    assert_eq!(rooted.url, "https://api.z.ai/api/coding/paas/v4/chat/completions");
    assert_eq!(versioned.url, "https://api.z.ai/api/coding/paas/v4/v1/chat/completions");
    Ok(())
}

#[test]
fn a_token_count_is_a_configuration_error() -> Result<(), Box<dyn StdError>> {
    let error = CODEC
        .decode_count_tokens(&route()?, json(r#"{ "input_tokens": 1 }"#))
        .err()
        .ok_or("expected an error")?;
    assert_eq!(error.kind(), ErrorKind::Configuration);
    assert_eq!(error.retry_classification(), RetryClassification::Never);
    Ok(())
}

#[test]
fn audio_and_documents_are_refused() -> Result<(), Box<dyn StdError>> {
    for part in [
        ContentPart::Audio(lithos_codecs::types::AudioContent { source: url("https://a/b.wav") }),
        ContentPart::Document(lithos_codecs::types::DocumentContent {
            source: url("https://a/b.pdf"),
            name: Some("b.pdf".to_owned()),
        }),
    ] {
        let call = resolved(builder().model(MODEL).message(message(Role::User, [part])).build()?)?;
        let error = CODEC.encode(&call, false).err().ok_or("expected a refusal")?;
        assert_eq!(error.kind(), ErrorKind::InvalidRequest);
        assert_eq!(error.provider_code(), Some("unsupported_capability"));
    }
    Ok(())
}

#[test]
fn a_decoded_answer_replays_its_reasoning_details() -> Result<(), Box<dyn StdError>> {
    let details = json(r#"[{ "type": "reasoning.text", "text": "a", "signature": "s" }]"#);
    let response = decode(filled(
        r#"{ "choices": [{ "message": { "content": "done", "reasoning": "hm",
             "reasoning_details": "$0" }, "finish_reason": "stop" }] }"#,
        &[details.clone()],
    ))?;
    let mut asked = builder().model(MODEL).user("Hi").build()?;
    asked.request.messages.push(Message {
        role: Role::Assistant,
        content: response.content,
        name: None,
        tool_call_id: None,
    });

    let body = CODEC.encode(&resolved(asked)?, false)?.body;

    assert_eq!(body["messages"][1]["reasoning_details"], details);
    assert_eq!(body["messages"][1]["reasoning_content"], Value::from("hm"));
    assert_eq!(body["messages"][1]["content"], Value::from("done"));
    Ok(())
}

#[test]
fn an_image_makes_the_content_an_array() -> Result<(), Box<dyn StdError>> {
    let call = resolved(
        builder()
            .model(MODEL)
            .message(message(
                Role::User,
                [
                    ContentPart::Text { text: "Look".to_owned() },
                    image(MediaSource::Base64 {
                        data: "aGk=".to_owned(),
                        media_type: "image/png".to_owned(),
                    }),
                ],
            ))
            .build()?,
    )?;
    let body = CODEC.encode(&call, false)?.body;
    assert_eq!(body["messages"][0]["content"][0], json(r#"{ "type": "text", "text": "Look" }"#));
    assert_eq!(
        body["messages"][0]["content"][1]["image_url"]["url"],
        Value::from("data:image/png;base64,aGk=")
    );
    Ok(())
}

#[test]
fn a_stream_reports_its_last_usage() -> Result<(), Box<dyn StdError>> {
    let events = stream(vec![
        json(r#"{ "choices": [{ "delta": { "content": "a" } }], "usage": { "prompt_tokens": 1 } }"#),
        json(r#"{ "choices": [{ "delta": {}, "finish_reason": "stop" }],
                  "usage": { "prompt_tokens": 3, "completion_tokens": 2 } }"#),
    ])?;
    let responses = completed(&events);
    assert_eq!(responses.len(), 1);
    assert_eq!((responses[0].usage.input, responses[0].usage.output), (3, 2));
    assert!(matches!(events.first(), Some(StreamEvent::Started { id: None })));
    Ok(())
}

#[test]
fn only_the_exact_terminator_ends_the_stream() -> Result<(), Box<dyn StdError>> {
    let mut decoder = CODEC.stream_decoder(&route()?);
    let error = decoder
        .decode(SseEvent { event: None, data: " [DONE]".to_owned() })
        .err()
        .ok_or("expected a padded terminator to fail the stream")?;
    assert_eq!(error.kind(), ErrorKind::StreamDecode);
    assert!(error.0.source.is_some(), "the parse error stands behind the failure");
    Ok(())
}

#[test]
fn a_failed_stream_sends_nothing_more() -> Result<(), Box<dyn StdError>> {
    let mut decoder = CODEC.stream_decoder(&route()?);
    decoder.decode(SseEvent {
        event: None,
        data: r#"{ "choices": [{ "delta": { "content": "ok" }, "finish_reason": "stop" }] }"#
            .to_owned(),
    })?;
    let error = decoder
        .decode(SseEvent {
            event: None,
            data: r#"{ "choices": [{ "delta": { "tool_calls": [{ "id": "call-1" }] } }] }"#
                .to_owned(),
        })
        .err()
        .ok_or("expected the fragment to fail the stream")?;
    assert!(error.0.source.is_none());
    assert!(decoder.decode(SseEvent { event: None, data: "[DONE]".to_owned() })?.is_empty());
    assert!(decoder.finish()?.is_empty());
    Ok(())
}

#[test]
fn frames_behind_the_terminator_send_nothing() -> Result<(), Box<dyn StdError>> {
    let chunk = r#"{ "id": "chatcmpl-1", "usage": { "prompt_tokens": 1 },
        "choices": [{ "delta": { "content": "ok", "reasoning": "hm", "refusal": "no",
        "tool_calls": [{ "index": 0, "id": "c", "function": { "name": "f", "arguments": "{}" } }]
        } }] }"#;
    let mut decoder = CODEC.stream_decoder(&route()?);
    let events = decoder.decode(SseEvent { event: None, data: "[DONE]".to_owned() })?;
    assert_eq!(completed(&events).len(), 1);
    for data in [chunk, "[DONE]", chunk] {
        assert!(decoder.decode(SseEvent { event: None, data: data.to_owned() })?.is_empty());
    }
    assert!(decoder.finish()?.is_empty());
    Ok(())
}

#[test]
fn split_text_completes_with_the_blocking_content() -> Result<(), Box<dyn StdError>> {
    let events = stream(vec![
        json(r#"{ "choices": [{ "delta": { "reasoning": "step " } }] }"#),
        json(r#"{ "choices": [{ "delta": { "reasoning_content": "one", "content": "Hel" } }] }"#),
        json(r#"{ "choices": [{ "delta": { "content": [{ "text": "lo" }], "reasoning": "." },
                  "finish_reason": "stop" }] }"#),
    ])?;
    let document = decode(json(
        r#"{ "choices": [{ "message": { "reasoning": "step one.", "content": "Hello" },
             "finish_reason": "stop" }] }"#,
    ))?;
    assert_eq!(shape(&completed(&events)[0].content), shape(&document.content));
    Ok(())
}

#[test]
fn text_wins_over_the_json_beside_it() -> Result<(), Box<dyn StdError>> {
    let result = ContentPart::ToolResult(ToolResult {
        tool_call_id: "call-1".to_owned(),
        name: None,
        content: vec![
            ContentPart::Text { text: "2 rows".to_owned() },
            ContentPart::Json { value: from_value(json(r#"{ "rows": 2 }"#)) },
        ],
        is_error: false,
    });
    let call = resolved(builder().model(MODEL).message(message(Role::Tool, [result])).build()?)?;
    let body = CODEC.encode(&call, false)?.body;
    assert_eq!(body["messages"][0]["content"], Value::from("2 rows"));
    Ok(())
}

#[test]
fn split_calls_complete_with_the_blocking_content() -> Result<(), Box<dyn StdError>> {
    let events = stream(vec![
        json(r#"{ "choices": [{ "delta": { "reasoning_details": [{ "type": "reasoning.text", "text": "a" }] } }] }"#),
        json(r#"{ "choices": [{ "delta": { "reasoning_details": [{ "type": "reasoning.text", "text": "b" }], "content": "Hi" } }] }"#),
        json(r#"{ "choices": [{ "delta": { "tool_calls": [
            { "index": 0, "id": "call-1", "function": { "name": "search", "arguments": "{\"q\"" } },
            { "index": 1, "function": { "name": "fetch" } }] } }] }"#),
        json(r#"{ "choices": [{ "delta": { "tool_calls": [
            { "index": 1, "id": "call-2", "function": { "arguments": "{}" } },
            { "index": 0, "function": { "arguments": ":1}" } }] }, "finish_reason": "stop" }] }"#),
    ])?;
    let document = decode(json(
        r#"{ "choices": [{ "message": {
            "reasoning_details": [{ "type": "reasoning.text", "text": "ab" }],
            "content": "Hi",
            "tool_calls": [
                { "id": "call-1", "function": { "name": "search", "arguments": "{\"q\":1}" } },
                { "id": "call-2", "function": { "name": "fetch", "arguments": "{}" } }
            ] }, "finish_reason": "stop" }] }"#,
    ))?;
    let response = completed(&events)[0];
    assert_eq!(shape(&response.content), shape(&document.content));
    assert_eq!(response.finish_reason, document.finish_reason);
    Ok(())
}

#[test]
fn a_stream_keeps_the_last_totals() -> Result<(), Box<dyn StdError>> {
    let events = stream(vec![
        json(r#"{ "id": "a", "usage": { "prompt_tokens": 1, "cost": 2 }, "choices": [{ "delta": { "content": "Hi" } }] }"#),
        json(r#"{ "id": "b", "choices": [{ "delta": {}, "finish_reason": "stop" }] }"#),
        json(r#"{ "choices": [], "usage": { "prompt_tokens": 4, "completion_tokens": 2, "cost": 3 } }"#),
    ])?;
    let document = decode(json(
        r#"{ "id": "b", "usage": { "prompt_tokens": 4, "completion_tokens": 2, "cost": 3 },
             "choices": [{ "message": { "content": "Hi" }, "finish_reason": "stop" }] }"#,
    ))?;
    let response = completed(&events)[0];
    assert_eq!(response.id, document.id);
    assert_eq!(response.usage, document.usage);
    assert_eq!(response.cost.as_ref().map(micros), document.cost.as_ref().map(micros));
    assert!(response.cost.is_some());
    assert_eq!(response.finish_reason, document.finish_reason);
    Ok(())
}
