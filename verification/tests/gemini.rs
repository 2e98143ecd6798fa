//! The Gemini codec.

#![allow(dead_code)]

use std::error::Error as StdError;

use lithos_codecs::envelope::part_envelope;
use lithos_codecs::gemini::GeminiGenerateCodec;
use lithos_codecs::gemini::decode::decode_scoped;
use lithos_codecs::gemini::stream::GeminiStreamDecoder;
use lithos_codecs::gemini::stream::Run;
use lithos_codecs::json::Json;
use lithos_codecs::json::JsonObject;
use lithos_codecs::response::CallError;
use lithos_codecs::response::EncodedRequest;
use lithos_codecs::response::ErrorKind;
use lithos_codecs::response::FinishReason;
use lithos_codecs::response::Response;
use lithos_codecs::response::RetryClassification;
use lithos_codecs::response::SseEvent;
use lithos_codecs::response::StreamEvent;
use lithos_codecs::response::Warning;
use lithos_codecs::serial::from_value;
use lithos_codecs::serial::to_value;
use lithos_codecs::types::AudioContent;
use lithos_codecs::types::CacheHint;
use lithos_codecs::types::ContentPart;
use lithos_codecs::types::DocumentContent;
use lithos_codecs::types::ImageContent;
use lithos_codecs::types::MediaSource;
use lithos_codecs::types::Message;
use lithos_codecs::types::Model;
use lithos_codecs::types::Provider;
use lithos_codecs::types::ReasoningContent;
use lithos_codecs::types::ReasoningEffort;
use lithos_codecs::types::Request;
use lithos_codecs::types::ResolvedCall;
use lithos_codecs::types::ResolvedRoute;
use lithos_codecs::types::ResponseFormat;
use lithos_codecs::types::Role;
use lithos_codecs::types::Speed;
use lithos_codecs::types::ToolCall;
use lithos_codecs::types::ToolChoice;
use lithos_codecs::types::ToolDefinition;
use lithos_codecs::types::ToolDefinitionKind;
use lithos_codecs::types::ToolResult;
use serde_json::Value;

/// The value a JSON text spells.
fn json(text: &str) -> Value {
    serde_json::from_str(text).expect("the text is JSON")
}

/// The value a JSON text spells, with values in the places `"$0"`, `"$1"`, ...
fn filled(text: &str, values: &[Value]) -> Value {
    let mut text = text.to_owned();
    for (at, value) in values.iter().enumerate() {
        text = text.replace(&format!("\"${at}\""), &value.to_string());
    }
    json(&text)
}

/// The parts of a message, as values that compare.
fn shape(parts: &[ContentPart]) -> Vec<Value> {
    parts.iter().map(|part| to_value(&part_envelope(part))).collect()
}

/// A failed call, as an error a test can return.
#[derive(Debug)]
struct Failure(CallError);

impl std::fmt::Display for Failure {
    fn fmt(&self, f: &mut std::fmt::Formatter<'_>) -> std::fmt::Result {
        f.write_str(&self.0.message)
    }
}

impl StdError for Failure {}

impl Failure {
    fn kind(&self) -> ErrorKind {
        self.0.kind
    }

    fn provider_code(&self) -> Option<&str> {
        self.0.provider_code.as_deref()
    }

    fn retry_classification(&self) -> RetryClassification {
        self.0.retry
    }

    fn raw_data(&self) -> Option<Value> {
        self.0.raw_data.as_ref().map(to_value)
    }

    fn message(&self) -> &str {
        &self.0.message
    }
}

/// An encoded request, its body as a value.
#[derive(Debug)]
struct Encoded {
    url: String,
    body: Value,
    warnings: Vec<Warning>,
    applied_speed: Option<Speed>,
}

fn shown(encoded: EncodedRequest) -> Encoded {
    Encoded {
        url: encoded.url,
        body: to_value(&encoded.body),
        warnings: encoded.warnings,
        applied_speed: encoded.applied_speed,
    }
}

/// A request and the model it asks for.
struct Asked {
    model: String,
    request: Request,
}

/// Builds a request step by step.
struct Builder(Asked);

fn builder() -> Builder {
    Builder(Asked {
        model: String::new(),
        request: Request {
            messages: Vec::new(),
            tools: Vec::new(),
            tool_choice: None,
            response_format: None,
            max_output_tokens: None,
            temperature: None,
            top_p: None,
            reasoning_effort: None,
            speed: None,
            stop_sequences: Vec::new(),
            metadata: Vec::new(),
            provider_options: JsonObject::new(),
            cache_hint: None,
        },
    })
}

/// The decimal that identifies a sampling parameter.
fn decimal(value: f32) -> Option<serde_json::Number> {
    serde_json::Number::from_f64(value.to_string().parse().expect("a decimal"))
}

impl Builder {
    fn build(self) -> Result<Asked, Box<dyn StdError>> {
        Ok(self.0)
    }

    fn model(mut self, model: &str) -> Self {
        self.0.model = model.to_owned();
        self
    }

    fn message(mut self, message: Message) -> Self {
        self.0.request.messages.push(message);
        self
    }

    fn user(self, text: &str) -> Self {
        self.message(said(Role::User, text))
    }

    fn system(self, text: &str) -> Self {
        self.message(said(Role::System, text))
    }

    fn tool(mut self, tool: ToolDefinition) -> Self {
        self.0.request.tools.push(tool);
        self
    }

    fn tool_choice(mut self, choice: ToolChoice) -> Self {
        self.0.request.tool_choice = Some(choice);
        self
    }

    fn response_format(mut self, format: ResponseFormat) -> Self {
        self.0.request.response_format = Some(format);
        self
    }

    fn max_output_tokens(mut self, tokens: u64) -> Self {
        self.0.request.max_output_tokens = Some(tokens);
        self
    }

    fn temperature(mut self, temperature: f32) -> Self {
        self.0.request.temperature = decimal(temperature);
        self
    }

    fn top_p(mut self, top_p: f32) -> Self {
        self.0.request.top_p = decimal(top_p);
        self
    }

    fn reasoning_effort(mut self, effort: ReasoningEffort) -> Self {
        self.0.request.reasoning_effort = Some(effort);
        self
    }

    fn speed(mut self, speed: Speed) -> Self {
        self.0.request.speed = Some(speed);
        self
    }

    fn stop_sequence(mut self, sequence: &str) -> Self {
        self.0.request.stop_sequences.push(sequence.to_owned());
        self
    }

    fn stop_sequences<const N: usize>(mut self, sequences: [&str; N]) -> Self {
        for sequence in sequences {
            self = self.stop_sequence(sequence);
        }
        self
    }

    fn metadata_entry(mut self, key: &str, value: &str) -> Self {
        self.0.request.metadata.push((key.to_owned(), value.to_owned()));
        self
    }

    fn provider_options(mut self, namespace: &str, options: serde_json::Map<String, Value>) -> Self {
        for (key, value) in options {
            self = self.provider_option(namespace, &key, value);
        }
        self
    }

    fn provider_option(mut self, namespace: &str, key: &str, value: Value) -> Self {
        let all = &mut self.0.request.provider_options;
        let mut options = match all.get(namespace) {
            Some(Json::Object(options)) => options.copy(),
            _ => JsonObject::new(),
        };
        options.insert(key, from_value(value));
        all.insert(namespace, Json::Object(options));
        self
    }

    fn cache_key(self, key: &str) -> Self {
        self.cache_hint(CacheHint::Key { key: key.to_owned() })
    }

    fn cache_hint(mut self, hint: CacheHint) -> Self {
        self.0.request.cache_hint = Some(hint);
        self
    }
}

fn message<const N: usize>(role: Role, content: [ContentPart; N]) -> Message {
    Message { role, content: Vec::from(content), name: None, tool_call_id: None }
}

fn said(role: Role, text: &str) -> Message {
    message(role, [ContentPart::Text { text: text.to_owned() }])
}

fn function_call(id: &str, name: &str, arguments: Value) -> ToolCall {
    ToolCall::function(id, name, &from_value(arguments))
}

fn opaque(kind: &str, data: Value) -> ContentPart {
    ContentPart::opaque(kind, from_value(data))
}

fn function_tool(name: &str, description: &str, schema: Value) -> ToolDefinition {
    ToolDefinition {
        name: name.to_owned(),
        description: description.to_owned(),
        kind: ToolDefinitionKind::Function { input_schema: from_value(schema) },
    }
}

fn custom_tool(name: &str, description: &str, format: Value) -> ToolDefinition {
    ToolDefinition {
        name: name.to_owned(),
        description: description.to_owned(),
        kind: ToolDefinitionKind::Custom { format: from_value(format) },
    }
}

fn url(url: &str) -> MediaSource {
    MediaSource::Url { url: url.to_owned(), media_type: None }
}

fn image(source: MediaSource) -> ContentPart {
    ContentPart::Image(ImageContent { source, detail: None })
}

/// The codec, with values in place of the library's documents.
struct Codec(GeminiGenerateCodec);

impl Codec {
    fn encode(&self, call: &ResolvedCall, stream: bool) -> Result<Encoded, Failure> {
        self.0.encode(call, stream).map(shown).map_err(Failure)
    }

    fn decode_response(&self, route: &ResolvedRoute, body: Value) -> Result<Response, Failure> {
        self.0.decode_response(route, from_value(body)).map_err(Failure)
    }

    fn stream_decoder(&self, route: &ResolvedRoute) -> Decoder {
        Decoder(self.0.stream_decoder(route))
    }

    fn encode_count_tokens(&self, call: &ResolvedCall) -> Option<Result<Encoded, Failure>> {
        self.0.encode_count_tokens(call).map(|made| made.map(shown).map_err(Failure))
    }

    fn decode_count_tokens(&self, route: &ResolvedRoute, body: Value) -> Result<u64, Failure> {
        self.0.decode_count_tokens(route, from_value(body)).map_err(Failure)
    }
}

/// A stream decoder whose errors a test can return.
struct Decoder(GeminiStreamDecoder);

impl Decoder {
    fn decode(&mut self, event: SseEvent) -> Result<Vec<StreamEvent>, Failure> {
        self.0.decode(&event).map_err(Failure)
    }

    fn finish(&mut self) -> Result<Vec<StreamEvent>, Failure> {
        self.0.finish().map_err(Failure)
    }
}

fn route_of(model: &str, base_url: &str) -> ResolvedRoute {
    let (provider, model) = model.split_once('/').expect("a qualified model");
    ResolvedRoute {
        provider: Provider {
            id: provider.to_owned(),
            base_url: base_url.to_owned(),
            default_options: JsonObject::new(),
        },
        model: Model {
            id: model.to_owned(),
            api_model: model.to_owned(),
            caching: true,
            cache_routing: false,
            reasoning_effort_levels: false,
            cache_breakpoints: false,
        },
    }
}

const CODEC: Codec = Codec(GeminiGenerateCodec);

fn resolved(asked: Asked) -> Result<ResolvedCall, Box<dyn StdError>> {
    let mut route = route_of(&asked.model, "https://generativelanguage.googleapis.com");
    route.model.reasoning_effort_levels = asked.model != "gemini/gemini-unlisted";
    Ok(ResolvedCall { request: asked.request, route })
}

fn base64(data: &str, media_type: &str) -> MediaSource {
    MediaSource::Base64 { data: data.to_owned(), media_type: media_type.to_owned() }
}

fn typed_url(url: &str, media_type: &str) -> MediaSource {
    MediaSource::Url { url: url.to_owned(), media_type: Some(media_type.to_owned()) }
}

fn audio(source: MediaSource) -> ContentPart {
    ContentPart::Audio(AudioContent { source })
}

fn document(source: MediaSource) -> ContentPart {
    ContentPart::Document(DocumentContent { source, name: None })
}

fn object(value: Value) -> Result<serde_json::Map<String, Value>, Box<dyn StdError>> {
    match value {
        Value::Object(map) => Ok(map),
        other => Err(format!("expected a JSON object, got {other}").into()),
    }
}

/// Decodes one blocking response from a `generateContent` payload.
fn decode(payload: Value) -> Result<Response, Box<dyn StdError>> {
    let call = resolved(
        builder()
            .model("gemini/gemini-3.1-pro-preview")
            .user("Hello")
            .build()?,
    )?;

    Ok(CODEC.decode_response(&call.route, payload)?)
}

/// Decodes one payload that must fail, and returns the codec's own error.
fn decode_failure(payload: Value) -> Result<Failure, Box<dyn StdError>> {
    let call = resolved(
        builder()
            .model("gemini/gemini-3.1-pro-preview")
            .user("Hello")
            .build()?,
    )?;

    CODEC
        .decode_response(&call.route, payload)
        .err()
        .ok_or_else(|| "the payload should not decode into a response".into())
}

/// Runs a whole stream and returns every event it produced.
fn stream(chunks: &[Value]) -> Result<Vec<StreamEvent>, Box<dyn StdError>> {
    let call = resolved(
        builder()
            .model("gemini/gemini-3.1-pro-preview")
            .user("Hello")
            .build()?,
    )?;
    let mut decoder = CODEC.stream_decoder(&call.route);

    let mut events = Vec::new();
    for chunk in chunks {
        events.extend(decoder.decode(SseEvent {
            event: None,
            data:  chunk.to_string(),
        })?);
    }
    events.extend(decoder.finish()?);
    Ok(events)
}

#[test]
fn each_streamed_thought_signature_seals_its_own_block() -> Result<(), Box<dyn StdError>> {
    // Two signed thought parts in one contiguous reasoning run. Each
    // signature is a complete blob; concatenating them would produce a
    // signature Gemini rejects on replay, so each signed part must end
    // as its own reasoning part — the blocking decoder's shape.
    let events = stream(&[json(r#"{
        "responseId": "resp-1",
        "candidates": [{
            "content": { "parts": [
                { "text": "step one", "thought": true, "thoughtSignature": "sig-a" },
                { "text": "step two", "thought": true, "thoughtSignature": "sig-b" }
            ] },
            "finishReason": "STOP"
        }]
    }"#)])?;

    let parts: Vec<_> = events
        .iter()
        .filter_map(|event| match event {
            StreamEvent::ContentBlockEnd { part, .. } => Some(part),
            _ => None,
        })
        .collect();
    let signatures: Vec<_> = parts
        .iter()
        .map(|&part| match part {
            ContentPart::Reasoning(reasoning) => {
                Ok((reasoning.text.as_str(), reasoning.signature.as_deref()))
            }
            other => Err(format!("expected a reasoning part, got {other:?}")),
        })
        .collect::<Result<_, _>>()?;
    assert_eq!(signatures, vec![
        ("step one", Some("sig-a")),
        ("step two", Some("sig-b")),
    ]);
    Ok(())
}

#[test]
fn encodes_media_sources_and_function_response_identity() -> Result<(), Box<dyn StdError>> {
    let call = resolved(
        builder()
            .model("gemini/gemini-3.1-pro-preview")
            .message(message(Role::User, [
                image(base64(
                    "aGVsbG8=",
                    "image/png",
                )),
                image(url(
                    "https://example.com/cat.png",
                )),
                document(typed_url(
                    "https://example.com/report.pdf",
                    "application/pdf",
                )),
            ]))
            .message(message(Role::Tool, [ContentPart::ToolResult(
                ToolResult {
                    tool_call_id: "call-1".to_owned(),
                    name:         Some("weather".to_owned()),
                    content:      vec![ContentPart::Text {
                        text: "sunny".to_owned(),
                    }],
                    is_error:     false,
                },
            )]))
            .build()?,
    )?;

    let encoded = CODEC.encode(&call, false)?;

    assert_eq!(
        encoded.body["contents"][0]["parts"][0]["inlineData"],
        json(r#"{ "mimeType": "image/png", "data": "aGVsbG8=" }"#)
    );
    assert_eq!(
        encoded.body["contents"][0]["parts"][1]["fileData"],
        json(r#"{ "mimeType": "image/png", "fileUri": "https://example.com/cat.png" }"#)
    );
    // A declared media type reaches the wire: Vertex-style surfaces
    // require `mimeType` on file references.
    assert_eq!(
        encoded.body["contents"][0]["parts"][2]["fileData"],
        json(r#"{
            "fileUri": "https://example.com/report.pdf",
            "mimeType": "application/pdf"
        }"#)
    );
    // The media message and the tool result both map to the `user` role,
    // so they merge into one turn rather than two consecutive ones.
    assert_eq!(encoded.body["contents"].as_array().map(Vec::len), Some(1));
    assert_eq!(
        encoded.body["contents"][0]["parts"][3]["functionResponse"]["id"],
        "call-1"
    );
    assert_eq!(
        encoded.body["contents"][0]["parts"][3]["functionResponse"]["name"],
        "weather"
    );
    Ok(())
}

/// Encodes one user message holding `part` and returns the `fileData`
/// member of the part it produced.
fn encoded_file_data(part: ContentPart) -> Result<Value, Box<dyn StdError>> {
    let call = resolved(
        builder()
            .model("gemini/gemini-3.1-pro-preview")
            .message(message(Role::User, [part]))
            .build()?,
    )?;

    let encoded = CODEC.encode(&call, false)?;
    Ok(encoded.body["contents"][0]["parts"][0]["fileData"].clone())
}

#[test]
fn a_url_image_defaults_its_mime_type() -> Result<(), Box<dyn StdError>> {
    let file_data = encoded_file_data(image(url(
        "https://example.com/cat.png",
    )))?;

    assert_eq!(
        file_data,
        json(r#"{ "mimeType": "image/png", "fileUri": "https://example.com/cat.png" }"#)
    );
    Ok(())
}

#[test]
fn a_url_audio_defaults_its_mime_type() -> Result<(), Box<dyn StdError>> {
    let file_data = encoded_file_data(audio(url("https://example.com/note.wav")))?;

    assert_eq!(
        file_data,
        json(r#"{ "mimeType": "audio/wav", "fileUri": "https://example.com/note.wav" }"#)
    );
    Ok(())
}

#[test]
fn a_url_document_defaults_its_mime_type() -> Result<(), Box<dyn StdError>> {
    let file_data = encoded_file_data(document(url("https://example.com/report.pdf")))?;

    assert_eq!(
        file_data,
        json(r#"{ "mimeType": "application/pdf", "fileUri": "https://example.com/report.pdf" }"#)
    );
    Ok(())
}

#[test]
fn usage_buckets_are_disjoint() -> Result<(), Box<dyn StdError>> {
    let response = decode(json(r#"{
        "candidates": [{ "content": { "parts": [{ "text": "Done." }] } }],
        "usageMetadata": {
            "promptTokenCount": 200,
            "cachedContentTokenCount": 180,
            "toolUsePromptTokenCount": 400,
            "candidatesTokenCount": 200,
            "thoughtsTokenCount": 300
        }
    }"#))?;

    // (200 - 180) + 400: the cached tokens are inside `promptTokenCount`
    // and the tool-use tokens are outside it.
    assert_eq!(response.usage.input, 420);
    assert_eq!(response.usage.cache_read, 180);
    // `candidatesTokenCount` never contained the thoughts, so nothing is
    // subtracted from the output bucket.
    assert_eq!(response.usage.output, 200);
    assert_eq!(response.usage.reasoning, 300);
    assert_eq!(response.usage.cache_write, 0);
    assert_eq!(response.usage.total(), 1100);
    Ok(())
}

/// The synthesized tool-call ids of one decoded response.
fn call_ids(response: &Response) -> Vec<&str> {
    response
        .content
        .iter()
        .filter_map(|part| match part {
            ContentPart::ToolCall(call) => Some(call.id.as_str()),
            _ => None,
        })
        .collect()
}

#[test]
fn synthesized_tool_call_ids_are_deterministic() -> Result<(), Box<dyn StdError>> {
    let payload = json(r#"{
        "responseId": "resp-1",
        "candidates": [{ "content": { "parts": [
            { "functionCall": { "name": "search", "args": { "query": "rust" } } },
            { "text": "and then" },
            { "functionCall": { "name": "search", "args": { "query": "gemini" } } }
        ] } }]
    }"#);

    let first = decode(payload.clone())?;
    let second = decode(payload)?;

    assert_eq!(call_ids(&first), ["search-0-resp-1", "search-1-resp-1"]);
    assert_eq!(shape(&first.content), shape(&second.content));
    Ok(())
}

#[test]
fn ids_without_a_response_id_do_not_collide_across_decodes() -> Result<(), Box<dyn StdError>> {
    // Without a `responseId` there is nothing deterministic to scope by,
    // and the bare `{name}-{ordinal}` form repeats across turns: a loop
    // calling `search` once per turn carried `search-0` twice. A random
    // nonce per decode keeps each response's ids unique instead.
    let payload = json(r#"{
        "candidates": [{ "content": { "parts": [
            { "functionCall": { "name": "search", "args": { "query": "rust" } } }
        ] } }]
    }"#);

    let first = decode(payload.clone())?;
    let second = decode(payload)?;

    let [first_id] = call_ids(&first)[..] else {
        return Err(format!("unexpected content {:?}", first.content).into());
    };
    let [second_id] = call_ids(&second)[..] else {
        return Err(format!("unexpected content {:?}", second.content).into());
    };
    assert!(
        first_id.starts_with("search-0-"),
        "the readable prefix must survive: {first_id}"
    );
    assert_ne!(
        first_id, second_id,
        "two responses without a responseId must not share ids"
    );
    Ok(())
}

#[test]
fn a_response_id_scopes_the_synthesized_ids() -> Result<(), Box<dyn StdError>> {
    // The bare `{name}-{ordinal}` form repeats across turns, so the same
    // conversation would carry `search-0` twice. The response id is the
    // provider's own name for one response, so it separates them without
    // costing determinism.
    let response = decode(json(r#"{
        "responseId": "resp-1",
        "candidates": [{ "content": { "parts": [
            { "functionCall": { "name": "search", "args": {} } }
        ] } }]
    }"#))?;

    let [ContentPart::ToolCall(call)] = response.content.as_slice() else {
        return Err(format!("unexpected content {:?}", response.content).into());
    };
    assert_eq!(call.id, "search-0-resp-1");
    Ok(())
}

#[test]
fn a_function_call_turn_finishes_as_a_tool_call() -> Result<(), Box<dyn StdError>> {
    // Gemini says STOP even when the whole turn is a function call.
    let response = decode(json(r#"{
        "candidates": [{
            "content": { "parts": [{ "functionCall": { "name": "search", "args": {} } }] },
            "finishReason": "STOP"
        }]
    }"#))?;

    assert_eq!(response.finish_reason, FinishReason::ToolCall);
    Ok(())
}

#[test]
fn a_truncated_function_call_keeps_the_provider_reason() -> Result<(), Box<dyn StdError>> {
    let response = decode(json(r#"{
        "candidates": [{
            "content": { "parts": [{ "functionCall": { "name": "search", "args": {} } }] },
            "finishReason": "MAX_TOKENS"
        }]
    }"#))?;

    assert_eq!(response.finish_reason, FinishReason::Length);
    assert!(response.content.is_empty());
    assert_eq!(response.warnings.len(), 1);
    assert_eq!(response.warnings[0].code, "truncated_tool_call");
    Ok(())
}

#[test]
fn a_blocked_prompt_is_a_content_filter_error() -> Result<(), Box<dyn StdError>> {
    let error = decode_failure(json(r#"{ "promptFeedback": { "blockReason": "SAFETY" } }"#))?;

    assert_eq!(error.kind(), ErrorKind::ContentFilter);
    assert_eq!(error.provider_code(), Some("SAFETY"));
    assert_eq!(error.retry_classification(), RetryClassification::Never);
    Ok(())
}

#[test]
fn every_block_reason_classifies_as_a_content_filter() -> Result<(), Box<dyn StdError>> {
    // The classifier knows `SAFETY` by name; it does not know the rest. The
    // message names the content policy so the whole family lands in one
    // place, whatever Google spells the reason.
    for reason in ["BLOCKLIST", "PROHIBITED_CONTENT", "IMAGE_SAFETY", "OTHER"] {
        let error = decode_failure(filled(r#"{ "promptFeedback": { "blockReason": "$0"} }"#, &[Value::from(reason.clone())]))?;

        assert_eq!(error.kind(), ErrorKind::ContentFilter, "{reason}");
        assert_eq!(error.provider_code(), Some(reason), "{reason}");
    }
    Ok(())
}

#[test]
fn a_body_with_no_candidates_and_no_block_reason_fails_to_decode() -> Result<(), Box<dyn StdError>>
{
    let error = decode_failure(json(r#"{ "responseId": "resp-1" }"#))?;

    assert_eq!(error.kind(), ErrorKind::ResponseDecode);
    assert_eq!(error.retry_classification(), RetryClassification::Safe);
    Ok(())
}

#[test]
fn gemini_an_explicit_null_error_member_is_not_an_error() -> Result<(), Box<dyn StdError>> {
    // A gateway that spells out `"error": null` on success chunks must
    // not fail every stream it serves.
    let call = resolved(
        builder()
            .model("gemini/gemini-3.1-pro-preview")
            .user("Hello")
            .build()?,
    )?;
    let mut decoder = CODEC.stream_decoder(&call.route);

    let events = decoder.decode(SseEvent {
        event: None,
        data:  json(r#"{
            "error": null,
            "candidates": [{ "content": { "parts": [{ "text": "hi" }] } }]
        }"#)
        .to_string(),
    })?;

    assert!(
        events
            .iter()
            .any(|event| matches!(event, StreamEvent::TextDelta { text, .. } if text == "hi")),
        "{events:?}"
    );
    Ok(())
}

#[test]
fn a_streamed_blocked_prompt_fails_like_the_blocking_path() -> Result<(), Box<dyn StdError>> {
    // A blocked prompt must not stream as an empty success while the
    // blocking path reports a content filter for the same body.
    let call = resolved(
        builder()
            .model("gemini/gemini-3.1-pro-preview")
            .user("Hello")
            .build()?,
    )?;
    let mut decoder = CODEC.stream_decoder(&call.route);

    let error = decoder
        .decode(SseEvent {
            event: None,
            data:  json(r#"{ "promptFeedback": { "blockReason": "SAFETY" } }"#).to_string(),
        })
        .expect_err("a blocked prompt must fail the stream");

    assert_eq!(error.kind(), ErrorKind::ContentFilter);
    assert_eq!(error.provider_code(), Some("SAFETY"));
    assert_eq!(error.retry_classification(), RetryClassification::Never);
    Ok(())
}

#[test]
fn a_stream_chunk_that_is_not_json_fails_retryably() -> Result<(), Box<dyn StdError>> {
    let call = resolved(
        builder()
            .model("gemini/gemini-3.1-pro-preview")
            .user("Hello")
            .build()?,
    )?;
    let mut decoder = CODEC.stream_decoder(&call.route);

    let error = decoder
        .decode(SseEvent {
            event: None,
            data:  "not json".to_owned(),
        })
        .expect_err("a garbled chunk must fail the stream");

    assert_eq!(error.kind(), ErrorKind::StreamDecode);
    assert_eq!(error.retry_classification(), RetryClassification::Safe);
    Ok(())
}

#[test]
fn decodes_thought_signatures_onto_reasoning_and_tool_calls() -> Result<(), Box<dyn StdError>> {
    let response = decode(json(r#"{
        "candidates": [{ "content": { "parts": [
            { "text": "step one", "thought": true, "thoughtSignature": "sig-think" },
            { "functionCall": { "name": "search", "args": {} },
              "thoughtSignature": "sig-call" }
        ] } }]
    }"#))?;

    let [
        ContentPart::Reasoning(reasoning),
        ContentPart::ToolCall(call),
    ] = response.content.as_slice()
    else {
        return Err(format!("unexpected content {:?}", response.content).into());
    };
    assert_eq!(reasoning.signature.as_deref(), Some("sig-think"));
    assert_eq!(call.provider_metadata.get("gemini").map(to_value), Some(json(r#"{ "thoughtSignature": "sig-call" }"#)));
    Ok(())
}

#[test]
fn raw_options_win_and_only_this_namespace_is_read() -> Result<(), Box<dyn StdError>> {
    let call = resolved(
        builder()
            .model("gemini/gemini-3.1-pro-preview")
            .user("Hello")
            .temperature(0.2)
            .max_output_tokens(64)
            .provider_options(
                "gemini",
                object(json(r#"{
                    "generationConfig": { "temperature": 0.9 },
                    "safetySettings": [{ "category": "HARM_CATEGORY_HARASSMENT" }],
                    "auto_cache": false
                }"#))?,
            )
            .provider_option("openai", "temperature", Value::from(0.1))
            .build()?,
    )?;

    let encoded = CODEC.encode(&call, false)?;

    assert_eq!(encoded.body["generationConfig"]["temperature"], Value::from(0.9));
    assert_eq!(
        encoded.body["generationConfig"]["maxOutputTokens"],
        Value::from(64)
    );
    assert_eq!(
        encoded.body["safetySettings"],
        json(r#"[{ "category": "HARM_CATEGORY_HARASSMENT" }]"#)
    );
    let body = object(encoded.body)?;
    assert!(!body.contains_key("auto_cache"));
    Ok(())
}

#[test]
fn stop_sequences_land_in_the_generation_config() -> Result<(), Box<dyn StdError>> {
    let call = resolved(
        builder()
            .model("gemini/gemini-3.1-pro-preview")
            .user("Hello")
            .stop_sequences(["STOP", "END"])
            .metadata_entry("session", "abc")
            .build()?,
    )?;

    let encoded = CODEC.encode(&call, false)?;

    assert_eq!(
        encoded.body["generationConfig"]["stopSequences"],
        json(r#"["STOP", "END"]"#)
    );
    let codes: Vec<&str> = encoded
        .warnings
        .iter()
        .map(|warning| warning.code.as_str())
        .collect();
    assert_eq!(codes, ["unsupported_control"]);
    let body = object(encoded.body)?;
    assert!(!body.contains_key("metadata"));
    Ok(())
}

#[test]
fn a_text_response_format_leaves_the_output_mode_alone() -> Result<(), Box<dyn StdError>> {
    let call = resolved(
        builder()
            .model("gemini/gemini-3.1-pro-preview")
            .user("Hello")
            .response_format(ResponseFormat::Text)
            .build()?,
    )?;

    let encoded = CODEC.encode(&call, false)?;

    // `Text` is the protocol's default. Declaring `application/json` for it
    // would make the model answer in JSON to a caller who asked for prose.
    assert_eq!(
        encoded.body["generationConfig"].get("responseMimeType"),
        None
    );
    Ok(())
}

#[test]
fn controls_an_unclaimed_route_cannot_carry_are_reported() -> Result<(), Box<dyn StdError>> {
    // A model id the catalog does not list resolves as a passthrough
    // route, whose capabilities are unknown rather than declared.
    let call = resolved(
        builder()
            .model("gemini/gemini-unlisted")
            .user("Hello")
            .speed(Speed::Fast)
            .reasoning_effort(ReasoningEffort::High)
            .build()?,
    )?;

    let encoded = CODEC.encode(&call, false)?;

    let messages: Vec<&str> = encoded
        .warnings
        .iter()
        .map(|warning| warning.message.as_str())
        .collect();
    assert_eq!(messages, [
        "this provider protocol does not support the speed control",
        "this provider protocol does not support the reasoning effort control",
    ]);
    // Neither control may be guessed at for this passthrough route.
    let body = encoded.body.to_string();
    assert!(!body.contains("thinkingConfig"), "{body}");
    assert!(!body.contains("speed"), "{body}");
    Ok(())
}

#[test]
fn maps_normalized_effort_onto_gemini_thinking_levels() -> Result<(), Box<dyn StdError>> {
    let cases = [
        (ReasoningEffort::Minimal, "low"),
        (ReasoningEffort::Low, "low"),
        (ReasoningEffort::Medium, "medium"),
        (ReasoningEffort::High, "high"),
        (ReasoningEffort::Xhigh, "high"),
        (ReasoningEffort::Max, "high"),
    ];

    for (effort, expected) in cases {
        let call = resolved(
            builder()
                .model("gemini/gemini-3.5-flash")
                .user("Hello")
                .reasoning_effort(effort)
                .build()?,
        )?;

        let encoded = CODEC.encode(&call, false)?;

        assert_eq!(
            encoded.body["generationConfig"]["thinkingConfig"]["thinkingLevel"], expected,
            "{effort:?}"
        );
        assert!(
            encoded.warnings.is_empty(),
            "a supported effort must not warn: {:?}",
            encoded.warnings
        );
    }
    Ok(())
}

#[test]
fn a_raw_thinking_config_overrides_and_extends_the_effort_level() -> Result<(), Box<dyn StdError>> {
    let call = resolved(
        builder()
            .model("gemini/gemini-3.5-flash")
            .user("Hello")
            .reasoning_effort(ReasoningEffort::High)
            .provider_options(
                "gemini",
                object(json(r#"{
                    "generationConfig": {
                        "thinkingConfig": {
                            "thinkingLevel": "low",
                            "includeThoughts": true
                        }
                    }
                }"#))?,
            )
            .build()?,
    )?;

    let encoded = CODEC.encode(&call, false)?;

    assert_eq!(
        encoded.body["generationConfig"]["thinkingConfig"],
        json(r#"{ "thinkingLevel": "low", "includeThoughts": true }"#)
    );
    assert!(encoded.warnings.is_empty());
    Ok(())
}

#[test]
fn a_tool_result_recovers_its_function_name_from_the_call() -> Result<(), Box<dyn StdError>> {
    // A result that kept no name would otherwise send the call id as the
    // function name, which matches no declared function.
    let call = resolved(
        builder()
            .model("gemini/gemini-3.1-pro-preview")
            .user("What is the weather?")
            .message(message(Role::Assistant, [ContentPart::ToolCall(
                function_call("call-1", "get_weather", json(r#"{ "city": "Paris" }"#)),
            )]))
            .message(message(Role::Tool, [ContentPart::ToolResult(
                ToolResult {
                    tool_call_id: "call-1".to_owned(),
                    name:         None,
                    content:      vec![ContentPart::Text {
                        text: "18C".to_owned(),
                    }],
                    is_error:     false,
                },
            )]))
            .build()?,
    )?;

    let encoded = CODEC.encode(&call, false)?;

    assert_eq!(
        encoded.body["contents"][2]["parts"][0]["functionResponse"]["name"],
        "get_weather"
    );
    Ok(())
}

#[test]
fn noncanonical_top_level_thought_signatures_are_ignored() -> Result<(), Box<dyn StdError>> {
    let mut replayed = function_call("call-1", "search", json(r#"{ "q": "rust" }"#));
    replayed
        .provider_metadata
        .insert("thoughtSignature", from_value(Value::from("sig-legacy")));
    let call = resolved(
        builder()
            .model("gemini/gemini-3.1-pro-preview")
            .user("Search for rust")
            .message(message(Role::Assistant, [ContentPart::ToolCall(
                replayed,
            )]))
            .message(message(Role::Tool, [ContentPart::ToolResult(
                ToolResult {
                    tool_call_id: "call-1".to_owned(),
                    name:         Some("search".to_owned()),
                    content:      vec![ContentPart::Text {
                        text: "found".to_owned(),
                    }],
                    is_error:     false,
                },
            )]))
            .build()?,
    )?;

    let encoded = CODEC.encode(&call, false)?;

    assert!(
        encoded.body["contents"][1]["parts"][0]
            .get("thoughtSignature")
            .is_none()
    );
    Ok(())
}

#[test]
fn a_caller_without_safety_settings_gets_the_default() -> Result<(), Box<dyn StdError>> {
    let call = resolved(
        builder()
            .model("gemini/gemini-3.1-pro-preview")
            .user("Hello")
            .build()?,
    )?;

    let encoded = CODEC.encode(&call, false)?;

    assert_eq!(
        encoded.body["safetySettings"],
        json(r#"[{
            "category": "HARM_CATEGORY_DANGEROUS_CONTENT",
            "threshold": "BLOCK_ONLY_HIGH"
        }]"#)
    );
    Ok(())
}

#[test]
fn a_snake_case_safety_setting_is_not_duplicated() -> Result<(), Box<dyn StdError>> {
    // Proto-JSON reads `safety_settings` and `safetySettings` as one field,
    // so adding the default beside a caller's snake_case list would send
    // the same field twice.
    let call = resolved(
        builder()
            .model("gemini/gemini-3.1-pro-preview")
            .user("Hello")
            .provider_option(
                "gemini",
                "safety_settings",
                json(r#"[{ "category": "HARM_CATEGORY_HARASSMENT" }]"#),
            )
            .build()?,
    )?;

    let encoded = CODEC.encode(&call, false)?;

    let body = object(encoded.body)?;
    assert!(!body.contains_key("safetySettings"));
    assert_eq!(
        body["safety_settings"],
        json(r#"[{ "category": "HARM_CATEGORY_HARASSMENT" }]"#)
    );
    Ok(())
}

#[test]
fn custom_tools_are_rejected_before_dispatch() -> Result<(), Box<dyn StdError>> {
    let call = resolved(
        builder()
            .model("gemini/gemini-3.1-pro-preview")
            .user("Hello")
            .tool(custom_tool(
                "apply_patch",
                "Edits files",
                json(r#"{ "type": "grammar" }"#),
            ))
            .build()?,
    )?;

    let error = CODEC
        .encode(&call, false)
        .err()
        .ok_or("expected a custom tool to be rejected")?;

    assert_eq!(error.provider_code(), Some("unsupported_capability"));
    Ok(())
}

#[test]
fn count_tokens_wraps_the_whole_generate_body() -> Result<(), Box<dyn StdError>> {
    let call = resolved(
        builder()
            .model("gemini/gemini-3.1-pro-preview")
            .user("Hello")
            .max_output_tokens(128)
            .tool(function_tool(
                "search",
                "Searches",
                json(r#"{ "type": "object" }"#),
            ))
            .build()?,
    )?;

    let encoded = CODEC
        .encode_count_tokens(&call)
        .ok_or("expected a count tokens request")??;

    assert!(
        encoded
            .url
            .ends_with("/v1beta/models/gemini-3.1-pro-preview:countTokens")
    );
    let body = object(encoded.body)?;
    assert!(!body.contains_key("contents"));
    let wrapped = &body["generateContentRequest"];
    assert_eq!(wrapped["contents"][0]["parts"][0]["text"], "Hello");
    assert_eq!(wrapped["generationConfig"]["maxOutputTokens"], Value::from(128));
    assert!(wrapped.get("tools").is_some());

    assert_eq!(
        CODEC.decode_count_tokens(&call.route, json(r#"{ "totalTokens": 42 }"#))?,
        42
    );
    Ok(())
}

#[test]
fn stream_assigns_one_block_per_run_and_keeps_the_last_usage() -> Result<(), Box<dyn StdError>> {
    let events = stream(&[
        json(r#"{ "responseId": "resp-stream-1",
                "candidates": [{ "content": { "parts": [{ "text": "Hel" }] } }],
                "usageMetadata": { "promptTokenCount": 10, "candidatesTokenCount": 1 } }"#),
        json(r#"{ "candidates": [{ "content": { "parts": [{ "text": "lo" }] } }] }"#),
        json(r#"{ "candidates": [{ "content": { "parts": [
                    { "text": "Let me think", "thought": true }] } }] }"#),
        json(r#"{ "candidates": [{ "content": { "parts": [
                    { "functionCall": { "name": "search", "args": { "query": "rust" } },
                      "thoughtSignature": "sig-call" }] },
                "finishReason": "STOP" }],
                "usageMetadata": { "promptTokenCount": 20, "candidatesTokenCount": 9,
                                   "thoughtsTokenCount": 3 } }"#),
    ])?;

    // The stream opens with `Started`, carrying the response id the first
    // chunk named.
    let [StreamEvent::Started { id }, ..] = events.as_slice() else {
        return Err(format!("unexpected first event {:?}", events.first()).into());
    };
    assert_eq!(id.as_deref(), Some("resp-stream-1"));

    let starts: Vec<&str> = events
        .iter()
        .filter_map(|event| match event {
            StreamEvent::ContentBlockStart { id, .. } => Some(id.as_str()),
            _ => None,
        })
        .collect();
    let ends: Vec<&str> = events
        .iter()
        .filter_map(|event| match event {
            StreamEvent::ContentBlockEnd { id, .. } => Some(id.as_str()),
            _ => None,
        })
        .collect();
    assert_eq!(starts, ["text-0", "reasoning-0", "tool-0"]);
    assert_eq!(ends, ["text-0", "reasoning-0", "tool-0"]);

    // A function call arrives whole, so its block carries no delta.
    assert!(
        !events
            .iter()
            .any(|event| matches!(event, StreamEvent::ToolCallDelta { .. }))
    );

    let completed: Vec<&Response> = events
        .iter()
        .filter_map(|event| match event {
            StreamEvent::Ended { response } => Some(response.as_ref()),
            _ => None,
        })
        .collect();
    let [response] = completed.as_slice() else {
        return Err(format!("expected one completed event, got {}", completed.len()).into());
    };
    assert_eq!(response.text(), "Hello");
    assert_eq!(response.id.as_deref(), Some("resp-stream-1"));
    // The last chunk said STOP, and the turn called a tool.
    assert_eq!(response.finish_reason, FinishReason::ToolCall);
    assert_eq!(response.usage.input, 20);
    assert_eq!(response.usage.output, 9);
    assert_eq!(response.usage.reasoning, 3);
    assert!(response.raw.is_none());

    let [
        ContentPart::Text { .. },
        ContentPart::Reasoning(..),
        ContentPart::ToolCall(call),
    ] = response.content.as_slice()
    else {
        return Err(format!("unexpected content {:?}", response.content).into());
    };
    // The response id from the first chunk scopes the synthesized call id
    // for the whole stream.
    assert_eq!(call.id, "search-0-resp-stream-1");
    assert_eq!(to_value(&call.input.wire_value()), json(r#"{ "query": "rust" }"#));
    assert_eq!(call.provider_metadata.get("gemini").map(to_value), Some(json(r#"{ "thoughtSignature": "sig-call" }"#)));
    Ok(())
}

#[test]
fn stream_errors_end_the_stream() -> Result<(), Box<dyn StdError>> {
    let call = resolved(
        builder()
            .model("gemini/gemini-3.1-pro-preview")
            .user("Hello")
            .build()?,
    )?;
    let mut decoder = CODEC.stream_decoder(&call.route);

    let error = decoder
        .decode(SseEvent {
            event: None,
            data:  json(r#"{ "error": { "status": "RESOURCE_EXHAUSTED",
                                      "message": "too many requests" } }"#)
            .to_string(),
        })
        .err()
        .ok_or("expected a stream error")?;

    // The gRPC status is classified by the shared provider classifier, so
    // a mid-stream failure lands in the same category an HTTP one would.
    assert_eq!(error.kind(), ErrorKind::RateLimit);
    assert_eq!(error.provider_code(), Some("RESOURCE_EXHAUSTED"));
    Ok(())
}

#[test]
fn a_failed_tool_result_uses_googles_error_key() -> Result<(), Box<dyn StdError>> {
    let request = builder()
        .model("gemini/gemini-3.1-pro-preview")
        .user("Look it up.")
        .message(message(Role::Tool, [ContentPart::ToolResult(
            ToolResult {
                tool_call_id: "call-1".to_owned(),
                name:         Some("weather".to_owned()),
                content:      vec![ContentPart::Text {
                    text: "the city is unknown".to_owned(),
                }],
                is_error:     true,
            },
        )]))
        .build()?;

    let encoded = CODEC.encode(&resolved(request)?, false)?;

    let response = &encoded.body["contents"][0]["parts"][1]["functionResponse"]["response"];
    assert_eq!(response, &json(r#"{ "error": "the city is unknown" }"#));
    assert!(
        response.get("is_error").is_none(),
        "a boolean flag beside `output` reads to the model as ordinary output"
    );
    Ok(())
}

/// Encodes a request whose only tool message carries `content` as one
/// result, and returns the `functionResponse.response` it produced.
fn encoded_tool_response(
    content: Vec<ContentPart>,
    is_error: bool,
) -> Result<Value, Box<dyn StdError>> {
    let request = builder()
        .model("gemini/gemini-3.1-pro-preview")
        .user("Look it up.")
        .message(message(Role::Tool, [ContentPart::ToolResult(
            ToolResult {
                tool_call_id: "call-1".to_owned(),
                name: Some("weather".to_owned()),
                content,
                is_error,
            },
        )]))
        .build()?;

    let encoded = CODEC.encode(&resolved(request)?, false)?;
    assert!(
        !encoded
            .warnings
            .iter()
            .any(|warning| warning.message.contains("tool result")),
        "carried content must not warn"
    );
    Ok(encoded.body["contents"][0]["parts"][1]["functionResponse"]["response"].clone())
}

#[test]
fn an_object_tool_result_is_the_whole_response_struct() -> Result<(), Box<dyn StdError>> {
    // The caller crafted the exact struct the model should see, so it
    // travels verbatim instead of nesting under `output`.
    let response = encoded_tool_response(
        vec![ContentPart::Json {
            value: from_value(json(r#"{ "temperature": 21, "unit": "C" }"#)),
        }],
        false,
    )?;

    assert_eq!(response, json(r#"{ "temperature": 21, "unit": "C" }"#));
    Ok(())
}

#[test]
fn a_non_object_json_tool_result_stays_under_output() -> Result<(), Box<dyn StdError>> {
    // A bare value could not be the free-form `response` struct, so it
    // keeps Google's conventional `output` key — and still reaches the
    // model rather than flattening to empty text.
    let response = encoded_tool_response(
        vec![ContentPart::Json {
            value: from_value(json(r#"[21, "C"]"#)),
        }],
        false,
    )?;

    assert_eq!(response, json(r#"{ "output": [21, "C"] }"#));
    Ok(())
}

#[test]
fn a_failed_object_tool_result_keeps_the_error_key() -> Result<(), Box<dyn StdError>> {
    // A failure must read as one, so even a crafted object nests under
    // `error` when `is_error` is set.
    let response = encoded_tool_response(
        vec![ContentPart::Json {
            value: from_value(json(r#"{ "code": "unknown_city" }"#)),
        }],
        true,
    )?;

    assert_eq!(response, json(r#"{ "error": { "code": "unknown_city" } }"#));
    Ok(())
}

#[test]
fn an_opaque_payload_that_cannot_be_a_part_is_dropped() -> Result<(), Box<dyn StdError>> {
    // Every Gemini `Part` is an object, so a string payload could never be
    // one. Dropping it beats sending the API something it must reject.
    let request = builder()
        .model("gemini/gemini-3.1-pro-preview")
        .user("Hello")
        .message(message(Role::Assistant, [
            opaque("gemini.thought", Value::from("not a part")),
            ContentPart::Text {
                text: "Hi.".to_owned(),
            },
        ]))
        .build()?;

    let encoded = CODEC.encode(&resolved(request)?, false)?;

    let parts = &encoded.body["contents"][1]["parts"];
    assert_eq!(parts.as_array().map(Vec::len), Some(1));
    assert_eq!(parts[0]["text"], "Hi.");
    Ok(())
}

#[test]
fn an_opaque_object_still_replays() -> Result<(), Box<dyn StdError>> {
    let request = builder()
        .model("gemini/gemini-3.1-pro-preview")
        .user("Hello")
        .message(message(Role::Assistant, [opaque(
            "gemini.thought",
            json(r#"{ "text": "kept", "thought": true }"#),
        )]))
        .build()?;

    let encoded = CODEC.encode(&resolved(request)?, false)?;

    assert_eq!(
        encoded.body["contents"][1]["parts"][0],
        json(r#"{ "text": "kept", "thought": true }"#)
    );
    Ok(())
}

#[test]
fn a_nonce_scopes_a_response_without_an_id() -> Result<(), Box<dyn StdError>> {
    let payload = json(
        r#"{ "candidates": [{ "content": { "parts": [
            { "functionCall": { "name": "search" } },
            { "functionCall": { "name": "search", "id": "own" } },
            { "functionCall": { "name": "search", "id": "" } }
        ] } }] }"#,
    );
    let route = resolved(builder().model("gemini/gemini-3.5-flash").build()?)?.route;

    let response = decode_scoped(&route, from_value(payload), "nonce").map_err(Failure)?;

    assert_eq!(call_ids(&response), ["search-0-nonce", "own", "search-2-nonce"]);
    assert_eq!(response.finish_reason, FinishReason::ToolCall);
    Ok(())
}

#[test]
fn a_stream_without_an_id_is_scoped_by_its_nonce() -> Result<(), Box<dyn StdError>> {
    let route = resolved(builder().model("gemini/gemini-3.5-flash").build()?)?.route;
    let mut decoder = Decoder(GeminiStreamDecoder::with_nonce(&route, "nonce".to_owned()));
    let mut events = decoder.decode(SseEvent {
        event: None,
        data: r#"{ "candidates": [{ "content": { "parts": [
            { "functionCall": { "name": "search", "args": { "q": 1 } } }
        ] } }] }"#
            .to_owned(),
    })?;
    events.extend(decoder.finish()?);

    let Some(StreamEvent::Ended { response }) = events.last() else {
        return Err("the stream did not end".into());
    };
    assert_eq!(call_ids(response), ["search-0-nonce"]);
    assert_eq!(response.finish_reason, FinishReason::Other("incomplete".to_owned()));
    assert!(decoder.finish()?.is_empty());
    Ok(())
}

#[test]
fn a_thought_replays_with_its_signature() -> Result<(), Box<dyn StdError>> {
    let response = decode(json(
        r#"{ "responseId": "r", "candidates": [{ "content": { "parts": [
            { "text": "hm", "thought": true, "thoughtSignature": "sig" },
            { "functionCall": { "name": "search", "args": { "q": [1] } },
              "thoughtSignature": "sig-call" }
        ] } }] }"#,
    ))?;
    let mut asked = builder().model("gemini/gemini-3.1-pro-preview").user("Hi").build()?;
    asked.request.messages.push(Message {
        role: Role::Assistant,
        content: response.content,
        name: None,
        tool_call_id: None,
    });

    let encoded = CODEC.encode(&resolved(asked)?, false)?;

    assert_eq!(
        encoded.body["contents"][1],
        json(
            r#"{ "role": "model", "parts": [
                { "text": "hm", "thought": true, "thoughtSignature": "sig" },
                { "functionCall": { "id": "search-0-r", "name": "search", "args": { "q": [1] } },
                  "thoughtSignature": "sig-call" }
            ] }"#
        )
    );
    assert!(encoded.warnings.is_empty());
    Ok(())
}

#[test]
fn a_thought_of_another_family_is_skipped_and_reported() -> Result<(), Box<dyn StdError>> {
    let thought = ContentPart::Reasoning(ReasoningContent {
        text: "hm".to_owned(),
        signature: Some("sig".to_owned()),
        signature_origin: Some("anthropic".to_owned()),
        redacted: false,
    });
    let call = resolved(
        builder()
            .model("gemini/gemini-3.1-pro-preview")
            .user("Hi")
            .message(message(Role::Assistant, [thought]))
            .user("Bye")
            .build()?,
    )?;

    let encoded = CODEC.encode(&call, true)?;

    // The skipped part leaves no empty turn between the two user turns.
    assert_eq!(
        encoded.body["contents"],
        json(r#"[{ "role": "user", "parts": [{ "text": "Hi" }, { "text": "Bye" }] }]"#)
    );
    assert_eq!(
        encoded.warnings[0].message,
        "this provider protocol does not support reasoning signed by another provider"
    );
    assert!(encoded.url.contains("streamGenerateContent"), "{}", encoded.url);
    Ok(())
}

#[test]
fn tool_choices_and_formats_have_their_wire_forms() -> Result<(), Box<dyn StdError>> {
    for (choice, expected) in [
        (ToolChoice::Auto, r#"{ "mode": "AUTO" }"#),
        (ToolChoice::Never, r#"{ "mode": "NONE" }"#),
        (ToolChoice::Required, r#"{ "mode": "ANY" }"#),
        (
            ToolChoice::Tool { name: "search".to_owned() },
            r#"{ "mode": "ANY", "allowedFunctionNames": ["search"] }"#,
        ),
    ] {
        let call = resolved(
            builder()
                .model("gemini/gemini-3.1-pro-preview")
                .user("Hi")
                .tool_choice(choice)
                .top_p(0.5)
                .response_format(ResponseFormat::JsonSchema {
                    name: "answer".to_owned(),
                    schema: from_value(json(r#"{ "type": "object" }"#)),
                })
                .build()?,
        )?;
        let body = CODEC.encode(&call, false)?.body;
        assert_eq!(body["toolConfig"]["functionCallingConfig"], json(expected));
        assert_eq!(
            body["generationConfig"],
            json(
                r#"{ "topP": 0.5, "responseMimeType": "application/json",
                     "responseJsonSchema": { "type": "object" } }"#
            )
        );
    }
    Ok(())
}

#[test]
fn a_count_without_a_total_fails_for_good() -> Result<(), Box<dyn StdError>> {
    let route = resolved(builder().model("gemini/gemini-3.5-flash").build()?)?.route;
    let error = CODEC
        .decode_count_tokens(&route, json(r#"{ "totalTokens": "42" }"#))
        .err()
        .ok_or("expected a decode error")?;
    assert_eq!(error.kind(), ErrorKind::ResponseDecode);
    assert_eq!(error.retry_classification(), RetryClassification::Never);
    Ok(())
}

#[test]
fn a_whitespace_only_instruction_is_left_out() -> Result<(), Box<dyn StdError>> {
    let call = resolved(
        builder()
            .model("gemini/gemini-3.1-pro-preview")
            .system(" \n")
            .message(said(Role::Developer, "Be brief"))
            .system("Answer in French.")
            .user("Hello")
            .build()?,
    )?;

    let body = CODEC.encode(&call, false)?.body;

    assert_eq!(
        body["systemInstruction"],
        json(r#"{ "parts": [{ "text": "Be brief\n\nAnswer in French." }] }"#)
    );
    assert_eq!(body["contents"].as_array().map(Vec::len), Some(1));
    Ok(())
}

#[test]
fn a_run_of_another_kind_is_a_new_one() -> Result<(), Box<dyn StdError>> {
    let route = resolved(builder().model("gemini/gemini-3.5-flash").build()?)?.route;
    let mut decoder = GeminiStreamDecoder::with_nonce(&route, "nonce".to_owned());
    assert_eq!(decoder.run_id(Run::Text).as_str(), "text-0");
    assert_eq!(decoder.run_id(Run::Text).as_str(), "text-0");
    assert_eq!(decoder.run_id(Run::Reasoning).as_str(), "reasoning-0");
    assert_eq!(decoder.run_id(Run::Text).as_str(), "text-1");
    Ok(())
}

#[test]
fn a_failed_gemini_stream_never_completes() -> Result<(), Box<dyn StdError>> {
    let route = resolved(builder().model("gemini/gemini-3.5-flash").build()?)?.route;
    let mut decoder = CODEC.stream_decoder(&route);
    let error = decoder
        .decode(SseEvent { event: None, data: "{".to_owned() })
        .err()
        .ok_or("expected a stream error")?;
    assert!(error.0.source.is_some(), "the parse error stands behind the failure");
    assert!(decoder.finish()?.is_empty());
    Ok(())
}

#[test]
fn split_runs_complete_with_the_blocking_content() -> Result<(), Box<dyn StdError>> {
    let chunk = |parts: &str, rest: &str| {
        filled(
            r#"{ "responseId": "resp-1", "candidates": [{ "content": { "parts": "$0" }, "finishReason": "$1" }] }"#,
            &[json(parts), json(rest)],
        )
    };
    let events = stream(&[
        chunk(r#"[{ "text": "hm", "thought": true }]"#, "null"),
        chunk(r#"[{ "text": "m", "thought": true, "thoughtSignature": "sig" }, { "text": "Hel" }]"#, "null"),
        chunk(r#"[{ "text": "lo" }, { "functionCall": { "name": "search", "args": { "q": 1 } } }]"#, "null"),
        chunk(r#"[{ "text": "Bye" }]"#, r#""STOP""#),
    ])?;
    let document = decode(chunk(
        r#"[
            { "text": "hmm", "thought": true, "thoughtSignature": "sig" },
            { "text": "Hello" },
            { "functionCall": { "name": "search", "args": { "q": 1 } } },
            { "text": "Bye" }
        ]"#,
        r#""STOP""#,
    ))?;
    let response = match events.last() {
        Some(StreamEvent::Ended { response }) => response,
        other => return Err(format!("expected the end, got {other:?}").into()),
    };
    assert_eq!(shape(&response.content), shape(&document.content));
    assert_eq!(response.finish_reason, document.finish_reason);
    Ok(())
}

#[test]
fn a_call_without_arguments_streams_the_value_it_decodes_to() -> Result<(), Box<dyn StdError>> {
    let chunk = json(
        r#"{ "responseId": "resp-1", "candidates": [{ "content": { "parts": [
            { "functionCall": { "name": "now" }, "thoughtSignature": "sig" } ] },
            "finishReason": "STOP" }], "usageMetadata": { "promptTokenCount": 3 } }"#,
    );
    let events = stream(&[chunk.clone()])?;
    let document = decode(chunk)?;
    let response = match events.last() {
        Some(StreamEvent::Ended { response }) => response,
        other => return Err(format!("expected the end, got {other:?}").into()),
    };
    let (streamed, decoded) = match (&response.content[0], &document.content[0]) {
        (ContentPart::ToolCall(streamed), ContentPart::ToolCall(decoded)) => (streamed, decoded),
        other => return Err(format!("expected two calls, got {other:?}").into()),
    };
    assert_eq!(streamed.id, decoded.id);
    assert_eq!(streamed.name, decoded.name);
    assert_eq!(to_value(&streamed.input.wire_value()), json("{}"));
    assert_eq!(to_value(&decoded.input.wire_value()), json("{}"));
    assert_eq!(
        to_value(&Json::Object(streamed.provider_metadata.copy())),
        to_value(&Json::Object(decoded.provider_metadata.copy()))
    );
    assert_eq!(response.finish_reason, document.finish_reason);
    assert_eq!(response.id, document.id);
    assert_eq!(response.usage, document.usage);
    assert!(response.raw.is_none());
    Ok(())
}
