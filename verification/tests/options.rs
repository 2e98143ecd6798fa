//! Endpoints, raw options, and routing keys.

use std::error::Error as StdError;

use lithos_codecs::json::Json;
use lithos_codecs::json::JsonObject;
use lithos_codecs::options::cache_routing_key;
use lithos_codecs::options::endpoint;
use lithos_codecs::options::merge_options;
use lithos_codecs::options::prefix_fingerprint;
use lithos_codecs::options::repeated_version;
use lithos_codecs::options::split_controls;
use lithos_codecs::options::wire_options;
use lithos_codecs::options::Controls;
use lithos_codecs::options::AUTO_CACHE;
use lithos_codecs::serial::from_value;
use lithos_codecs::serial::to_value;
use lithos_codecs::types::CacheHint;
use lithos_codecs::types::ContentPart;
use lithos_codecs::types::Message;
use lithos_codecs::types::Model;
use lithos_codecs::types::Provider;
use lithos_codecs::types::Request;
use lithos_codecs::types::ResolvedCall;
use lithos_codecs::types::ResolvedRoute;
use lithos_codecs::types::Role;
use lithos_codecs::types::ToolDefinition;
use lithos_codecs::types::ToolDefinitionKind;
use serde_json::Value;

/// The value a JSON text spells.
fn json(text: &str) -> Value {
    serde_json::from_str(text).expect("the text is JSON")
}

/// The object a JSON text spells.
fn object(text: &str) -> Result<JsonObject, Box<dyn StdError>> {
    match from_value(json(text)) {
        Json::Object(object) => Ok(object),
        other => Err(format!("expected a JSON object, got {other:?}").into()),
    }
}

/// The value of an object.
fn value(object: &JsonObject) -> Value {
    to_value(&Json::Object(object.copy()))
}

fn said(role: Role, text: &str) -> Message {
    Message {
        role,
        content: vec![ContentPart::Text { text: text.to_owned() }],
        name: None,
        tool_call_id: None,
    }
}

/// A call of `alpha/one` that says hello, with some raw options.
fn test_call(options: &str) -> Result<ResolvedCall, Box<dyn StdError>> {
    Ok(ResolvedCall {
        request: Request {
            messages: vec![said(Role::User, "Hello")],
            tools: Vec::new(),
            tool_choice: None,
            response_format: None,
            max_output_tokens: None,
            temperature: None,
            top_p: None,
            reasoning_effort: None,
            speed: None,
            stop_sequences: Vec::new(),
            metadata: Vec::new(),
            provider_options: object(options)?,
            cache_hint: None,
        },
        route: ResolvedRoute {
            provider: Provider {
                id: "alpha".to_owned(),
                base_url: "http://127.0.0.1".to_owned(),
                default_options: JsonObject::new(),
            },
            model: Model {
                id: "one".to_owned(),
                api_model: "alpha-one-v1".to_owned(),
                caching: true,
                cache_routing: true,
                reasoning_effort_levels: false,
                cache_breakpoints: false,
            },
        },
    })
}

#[test]
fn raw_options_override_generated_wire_fields() -> Result<(), Box<dyn StdError>> {
    let mut body = object(r#"{ "model": "alpha-one", "temperature": 0.2 }"#)?;

    merge_options(&mut body, &object(r#"{ "temperature": 0.9 }"#)?);

    let body = value(&body);
    assert_eq!(body["temperature"], Value::from(0.9));
    assert_eq!(body["model"], Value::from("alpha-one"));
    Ok(())
}

#[test]
fn nested_objects_merge_and_other_values_replace() -> Result<(), Box<dyn StdError>> {
    let mut body = object(
        r#"{
            "generationConfig": { "temperature": 0.2, "maxOutputTokens": 64 },
            "tools": [{ "name": "encoded" }]
        }"#,
    )?;

    merge_options(
        &mut body,
        &object(
            r#"{
                "generationConfig": { "temperature": 0.9, "topK": 40 },
                "tools": [{ "name": "override" }]
            }"#,
        )?,
    );

    let body = value(&body);
    assert_eq!(body["generationConfig"]["temperature"], Value::from(0.9));
    assert_eq!(body["generationConfig"]["maxOutputTokens"], Value::from(64));
    assert_eq!(body["generationConfig"]["topK"], Value::from(40));
    assert_eq!(body["tools"], json(r#"[{ "name": "override" }]"#));
    Ok(())
}

#[test]
fn control_keys_are_consumed_and_never_reach_the_wire() -> Result<(), Box<dyn StdError>> {
    let mut call = test_call("{}")?;
    let mut options = object(r#"{ "reasoning_effort": "high" }"#)?;
    options.insert(AUTO_CACHE, Json::Bool(false));
    call.request.provider_options.insert("alpha", Json::Object(options));

    let (wire, controls) = wire_options(&call);

    assert!(!wire.contains_key(AUTO_CACHE), "{AUTO_CACHE} reached the wire options");
    assert_eq!(value(&wire)["reasoning_effort"], Value::from("high"));
    assert!(!controls.auto_cache);
    Ok(())
}

#[test]
fn auto_cache_defaults_to_true() -> Result<(), Box<dyn StdError>> {
    let (wire, controls) = wire_options(&test_call(r#"{ "alpha": { "seed": 7 } }"#)?);

    assert!(controls.auto_cache);
    assert_eq!(value(&wire)["seed"], Value::from(7));
    Ok(())
}

#[test]
fn options_for_another_provider_are_ignored() -> Result<(), Box<dyn StdError>> {
    let (wire, controls) = wire_options(&test_call(r#"{ "beta": { "seed": 7 } }"#)?);

    assert!(wire.is_empty());
    assert!(controls.auto_cache);
    Ok(())
}

#[test]
fn a_bare_host_takes_the_whole_operation_path() {
    assert_eq!(
        endpoint("https://api.openai.com", "/v1/responses"),
        "https://api.openai.com/v1/responses"
    );
    assert_eq!(
        endpoint("https://api.openai.com/", "/v1/responses"),
        "https://api.openai.com/v1/responses"
    );
}

#[test]
fn a_base_url_ending_in_the_version_does_not_repeat_it() {
    assert_eq!(
        endpoint("https://api.moonshot.ai/v1", "/v1/chat/completions"),
        "https://api.moonshot.ai/v1/chat/completions"
    );
    assert_eq!(
        endpoint("https://api.moonshot.ai/v1/", "/v1/chat/completions"),
        "https://api.moonshot.ai/v1/chat/completions"
    );
    assert_eq!(
        endpoint(
            "https://generativelanguage.googleapis.com/v1beta",
            "/v1beta/models/gemini:generateContent"
        ),
        "https://generativelanguage.googleapis.com/v1beta/models/gemini:generateContent"
    );
}

#[test]
fn a_gateway_mount_keeps_its_own_prefix() {
    assert_eq!(
        endpoint("https://gw.example.com/gateway", "/v1/chat/completions"),
        "https://gw.example.com/gateway/v1/chat/completions"
    );
    assert_eq!(
        endpoint("https://gw.example.com/gateway/v1", "/v1/chat/completions"),
        "https://gw.example.com/gateway/v1/chat/completions"
    );
}

#[test]
fn only_the_same_version_segment_collapses() {
    // `v1` and `v1beta` are different APIs, so neither absorbs the other.
    assert_eq!(
        endpoint("https://example.com/v1", "/v1beta/models/one:count"),
        "https://example.com/v1/v1beta/models/one:count"
    );
    // An unversioned operation path is never shortened.
    assert_eq!(
        endpoint("https://bedrock.example.com/v1", "/model/one/converse"),
        "https://bedrock.example.com/v1/model/one/converse"
    );
}

#[test]
fn a_repeated_version_is_the_shared_segment() {
    assert_eq!(
        repeated_version("https://api.moonshot.ai/v1", "v1/chat/completions"),
        Some("v1")
    );
    assert_eq!(repeated_version("https://example.com/v1beta", "v1beta"), Some("v1beta"));
    assert_eq!(repeated_version("https://api.moonshot.ai", "v1/chat/completions"), None);
    assert_eq!(repeated_version("https://example.com/model", "model/one"), None);
    // A bare host has no path segment.
    assert_eq!(repeated_version("https://v1", "v1/chat/completions"), None);
}

#[test]
fn a_path_that_is_the_version_adds_nothing() {
    assert_eq!(endpoint("https://example.com/v1", "/v1"), "https://example.com/v1");
    assert_eq!(endpoint("https://example.com/v1//", "///v1//models"), "https://example.com/v1/models");
}

#[test]
fn merging_twice_is_merging_once() -> Result<(), Box<dyn StdError>> {
    let options = object(r#"{ "a": { "b": 1 }, "c": [2], "d": null }"#)?;
    let mut once = object(r#"{ "a": { "b": 0, "e": 5 }, "c": { "f": 6 }, "g": true }"#)?;
    let mut twice = once.copy();
    merge_options(&mut once, &options);
    merge_options(&mut twice, &options);
    merge_options(&mut twice, &options);

    assert_eq!(
        value(&once),
        json(r#"{ "a": { "b": 1, "e": 5 }, "c": [2], "d": null, "g": true }"#)
    );
    assert_eq!(value(&once), value(&twice));
    Ok(())
}

#[test]
fn merging_nothing_changes_nothing() -> Result<(), Box<dyn StdError>> {
    let mut body = object(r#"{ "a": { "b": 0 }, "c": [1] }"#)?;
    merge_options(&mut body, &JsonObject::new());
    assert_eq!(value(&body), json(r#"{ "a": { "b": 0 }, "c": [1] }"#));
    Ok(())
}

#[test]
fn a_control_of_another_type_is_consumed_and_defaults() -> Result<(), Box<dyn StdError>> {
    let (wire, controls) = split_controls(object(r#"{ "auto_cache": "no", "seed": 7 }"#)?);
    assert_eq!(value(&wire), json(r#"{ "seed": 7 }"#));
    assert!(controls.auto_cache);
    Ok(())
}

#[test]
fn the_fingerprint_is_a_hash_of_the_prefix() -> Result<(), Box<dyn StdError>> {
    // FNV-1a over `{"system":[],"tools":[]}`.
    let mut hash = 0xcbf2_9ce4_8422_2325_u64;
    for byte in br#"{"system":[],"tools":[]}"# {
        hash ^= u64::from(*byte);
        hash = hash.wrapping_mul(0x0000_0100_0000_01b3);
    }
    let request = test_call("{}")?.request;
    assert_eq!(prefix_fingerprint(&request), format!("lithos-{hash:016x}"));
    Ok(())
}

#[test]
fn the_fingerprint_reads_instructions_and_tools_alone() -> Result<(), Box<dyn StdError>> {
    let bare = prefix_fingerprint(&test_call("{}")?.request);

    let mut longer = test_call("{}")?.request;
    longer.messages.push(said(Role::Assistant, "Hi."));
    longer.messages.push(said(Role::User, "Bye."));
    assert_eq!(prefix_fingerprint(&longer), bare);

    let mut instructed = test_call("{}")?.request;
    instructed.messages.push(said(Role::System, "Keep it short."));
    assert_ne!(prefix_fingerprint(&instructed), bare);

    let mut other = test_call("{}")?.request;
    other.messages.insert(0, said(Role::System, "Keep it short."));
    other.messages.push(said(Role::Assistant, "Hi."));
    assert_eq!(prefix_fingerprint(&other), prefix_fingerprint(&instructed));

    let mut equipped = test_call("{}")?.request;
    equipped.tools.push(ToolDefinition {
        name: "search".to_owned(),
        description: "Searches".to_owned(),
        kind: ToolDefinitionKind::Function { input_schema: Json::Null },
    });
    assert_ne!(prefix_fingerprint(&equipped), bare);
    Ok(())
}

#[test]
fn the_routing_key_follows_the_hint() -> Result<(), Box<dyn StdError>> {
    let on = Controls { auto_cache: true };
    let off = Controls { auto_cache: false };
    let mut call = test_call("{}")?;
    let fingerprint = prefix_fingerprint(&call.request);

    assert_eq!(cache_routing_key(&call, on), Some(fingerprint.clone()));
    assert_eq!(cache_routing_key(&call, off), None);
    call.request.cache_hint = Some(CacheHint::Auto);
    assert_eq!(cache_routing_key(&call, on), Some(fingerprint));
    call.request.cache_hint = Some(CacheHint::Disabled);
    assert_eq!(cache_routing_key(&call, on), None);
    call.request.cache_hint = Some(CacheHint::Key { key: "tenant-42".to_owned() });
    assert_eq!(cache_routing_key(&call, on).as_deref(), Some("tenant-42"));
    assert_eq!(cache_routing_key(&call, off).as_deref(), Some("tenant-42"));
    call.route.model.cache_routing = false;
    assert_eq!(cache_routing_key(&call, on), None);
    Ok(())
}
