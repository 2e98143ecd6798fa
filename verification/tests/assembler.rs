//! Assembling the blocks of a stream.

use lithos_codecs::assembler::StreamAssembler;
use lithos_codecs::errors::provider_error;
use lithos_codecs::json::Json;
use lithos_codecs::json::JsonObject;
use lithos_codecs::response::ContentBlockId;
use lithos_codecs::response::ContentBlockKind;
use lithos_codecs::response::ErrorKind;
use lithos_codecs::response::FinishReason;
use lithos_codecs::response::Response;
use lithos_codecs::response::RetryClassification;
use lithos_codecs::response::StreamEvent;
use lithos_codecs::response::TokenCounts;
use lithos_codecs::serial::from_value;
use lithos_codecs::types::ContentPart;
use lithos_codecs::types::Model;
use lithos_codecs::types::Provider;
use lithos_codecs::types::ResolvedRoute;
use lithos_codecs::types::ToolCallKind;

fn route() -> ResolvedRoute {
    ResolvedRoute {
        provider: Provider {
            id: "alpha".to_owned(),
            base_url: "http://127.0.0.1".to_owned(),
            default_options: JsonObject::new(),
        },
        model: Model {
            id: "one".to_owned(),
            api_model: "alpha-one-v1".to_owned(),
            caching: false,
            cache_routing: false,
            reasoning_effort_levels: false,
            cache_breakpoints: false,
        },
    }
}

fn block(id: &str) -> ContentBlockId {
    ContentBlockId::new(id)
}

/// A short name for each event.
fn names(events: &[StreamEvent]) -> Vec<String> {
    events
        .iter()
        .map(|event| match event {
            StreamEvent::Started { .. } => "started".to_owned(),
            StreamEvent::ContentBlockStart { id, .. } => format!("start {}", id.as_str()),
            StreamEvent::TextDelta { id, text } => format!("text {} {text}", id.as_str()),
            StreamEvent::ReasoningDelta { id, text } => format!("reasoning {} {text}", id.as_str()),
            StreamEvent::ToolCallDelta { id, arguments } => {
                format!("arguments {} {arguments}", id.as_str())
            }
            StreamEvent::ContentBlockEnd { id, .. } => format!("end {}", id.as_str()),
            StreamEvent::Usage { .. } => "usage".to_owned(),
            StreamEvent::Ended { .. } => "ended".to_owned(),
        })
        .collect()
}

fn ended(events: &[StreamEvent]) -> &Response {
    match events.last() {
        Some(StreamEvent::Ended { response }) => response,
        other => panic!("expected the end of the stream, got {other:?}"),
    }
}

#[test]
fn a_block_starts_once_and_ends_once() {
    let mut assembler = StreamAssembler::new(&route());
    assert_eq!(names(&assembler.text(&block("a"), "Hel")), ["start a", "text a Hel"]);
    assert_eq!(names(&assembler.text(&block("a"), "lo")), ["text a lo"]);
    assert!(assembler.start(&block("a"), &ContentBlockKind::Reasoning).is_empty());
    assert_eq!(names(&assembler.end(&block("a"))), ["end a"]);
    assert!(assembler.end(&block("a")).is_empty());
    // A block that ended takes no delta, and neither does one of another sort.
    assert!(assembler.text(&block("a"), "!").is_empty());
    assert_eq!(names(&assembler.reasoning(&block("b"), "hm")), ["start b", "reasoning b hm"]);
    assert!(assembler.text(&block("b"), "!").is_empty());

    let events = assembler.complete();
    assert_eq!(names(&events), ["end b", "ended"]);
    let response = ended(&events);
    assert_eq!(response.text(), "Hello");
    assert_eq!(response.provider, "alpha");
    assert_eq!(response.content.len(), 2);
    assert!(assembler.complete().is_empty());
}

#[test]
fn a_stream_that_named_no_reason_was_cut_short() {
    let mut assembler = StreamAssembler::new(&route());
    let events = assembler.complete();
    assert_eq!(names(&events), ["ended"]);
    assert_eq!(
        ended(&events).finish_reason,
        FinishReason::Other("incomplete".to_owned())
    );
}

#[test]
fn the_last_usage_is_the_responses() {
    let mut assembler = StreamAssembler::new(&route());
    assembler.started(Some("resp-1".to_owned()));
    assembler.usage(TokenCounts::from_inclusive(1, 1, 0, 0, 0));
    assembler.usage(TokenCounts::from_inclusive(9, 4, 1, 2, 0));
    assembler.set_finish_reason(FinishReason::Stop);
    let events = assembler.complete();
    let response = ended(&events);
    assert_eq!(response.usage.total(), 13);
    assert_eq!(response.usage.input, 7);
    assert_eq!(response.id.as_deref(), Some("resp-1"));
    assert_eq!(response.finish_reason, FinishReason::Stop);
}

#[test]
fn reconciling_delivers_a_tail_and_replaces_a_garbled_buffer() {
    let mut assembler = StreamAssembler::new(&route());
    assembler.text(&block("a"), "Hel");
    assert_eq!(
        names(&assembler.reconcile(&block("a"), &ContentBlockKind::Text, "Hello")),
        ["text a lo"]
    );
    assert!(assembler.reconcile(&block("a"), &ContentBlockKind::Text, "Hello").is_empty());
    assert!(assembler.reconcile(&block("a"), &ContentBlockKind::Text, "Bye").is_empty());
    assert_eq!(
        names(&assembler.reconcile(&block("b"), &ContentBlockKind::Reasoning, "hm")),
        ["start b", "reasoning b hm"]
    );
    let events = assembler.complete();
    assert_eq!(ended(&events).text(), "Bye");
}

#[test]
fn a_discarded_block_ends_and_is_no_content() {
    let mut assembler = StreamAssembler::new(&route());
    assembler.arguments(&block("fc"), "{}");
    assert!(assembler.has_tool_call());
    assert_eq!(names(&assembler.discard(&block("fc"))), ["end fc"]);
    assert!(!assembler.has_tool_call());
    assert!(ended(&assembler.complete()).content.is_empty());
}

#[test]
fn late_identity_and_metadata_land_on_the_call() {
    let mut assembler = StreamAssembler::new(&route());
    assembler.arguments(&block("tool-0"), "{}");
    assembler.repair_tool_identity(
        &block("tool-0"),
        &ContentBlockKind::ToolCall {
            id: "call-1".to_owned(),
            name: Some("search".to_owned()),
            kind: ToolCallKind::Function,
        },
    );
    assembler.provider_metadata(&block("tool-0"), "alpha", Json::text("kept"));
    let events = assembler.complete();
    let [ContentPart::ToolCall(call)] = ended(&events).content.as_slice() else {
        panic!("expected one call");
    };
    assert_eq!((call.id.as_str(), call.name.as_str()), ("call-1", "search"));
    assert_eq!(call.provider_metadata.get("alpha").and_then(Json::as_text), Some("kept"));
}

#[test]
fn a_signature_names_the_family_that_minted_it() {
    let mut assembler = StreamAssembler::new(&route()).with_signatures("gemini");
    assembler.reasoning(&block("a"), "hm");
    assembler.signature(&block("a"), "sig");
    assembler.reasoning(&block("b"), "unsigned");
    let events = assembler.complete();
    let [ContentPart::Reasoning(signed), ContentPart::Reasoning(unsigned)] =
        ended(&events).content.as_slice()
    else {
        panic!("expected two thoughts");
    };
    assert_eq!(signed.signature.as_deref(), Some("sig"));
    assert_eq!(signed.signature_origin.as_deref(), Some("gemini"));
    assert!(signed.has_foreign_signature("anthropic") && !signed.has_foreign_signature("gemini"));
    assert_eq!(unsigned.signature_origin, None);
    assert!(!unsigned.has_foreign_signature("anthropic"));
}

#[test]
fn an_opaque_block_holds_its_data() {
    let mut assembler = StreamAssembler::new(&route());
    assembler.start(&block("a"), &ContentBlockKind::Opaque { kind: "alpha.item".to_owned() });
    assembler.set_opaque_data(&block("a"), Json::unsigned(7));
    let events = assembler.complete();
    let [ContentPart::Opaque { kind, data }] = ended(&events).content.as_slice() else {
        panic!("expected one opaque part");
    };
    assert_eq!((kind.as_str(), data.as_unsigned()), ("alpha.item", Some(7)));
}

#[test]
fn provider_errors_are_classified_by_their_code() {
    for (document, kind, code, retry) in [
        (
            r#"{ "error": { "code": "rate_limit_exceeded", "message": "slow down" } }"#,
            ErrorKind::RateLimit,
            Some("rate_limit_exceeded"),
            RetryClassification::Safe,
        ),
        (
            r#"{ "error": { "status": "INVALID_ARGUMENT" } }"#,
            ErrorKind::InvalidRequest,
            Some("INVALID_ARGUMENT"),
            RetryClassification::Never,
        ),
        (
            r#"{ "error": { "type": "content_filter" } }"#,
            ErrorKind::ContentFilter,
            Some("content_filter"),
            RetryClassification::Never,
        ),
        (
            r#"{ "code": "server_error", "message": "upstream failed" }"#,
            ErrorKind::Provider,
            Some("server_error"),
            RetryClassification::Safe,
        ),
        (r#"{ "error": "boom" }"#, ErrorKind::Provider, None, RetryClassification::Safe),
    ] {
        let value = serde_json::from_str(document).expect("the text is JSON");
        let error = provider_error(&route(), from_value(value));
        assert_eq!(error.kind, kind, "{document}");
        assert_eq!(error.provider_code.as_deref(), code, "{document}");
        assert_eq!(error.retry, retry, "{document}");
        assert_eq!(error.provider.as_deref(), Some("alpha"));
        assert!(error.raw_data.is_some());
    }
}

#[test]
fn a_stream_that_ended_sends_nothing_more() {
    let mut assembler = StreamAssembler::new(&route());
    assembler.text(&block("a"), "Hello");
    assert_eq!(names(&assembler.complete()), ["end a", "ended"]);
    assert!(assembler.started(None).is_empty());
    assert!(assembler.usage(TokenCounts::none()).is_empty());
    assert!(assembler.text(&block("a"), "!").is_empty());
    assert!(assembler.text(&block("b"), "!").is_empty());
    assert!(assembler.signature(&block("c"), "sig").is_empty());
    assert!(assembler.reconcile(&block("d"), &ContentBlockKind::Text, "!").is_empty());
    assert!(assembler.end(&block("b")).is_empty());
    assert!(assembler.complete().is_empty());
    assert!(assembler.has_completed());
}

#[test]
fn no_content_starts_no_block() {
    let mut assembler = StreamAssembler::new(&route());
    assert!(assembler.reconcile(&block("a"), &ContentBlockKind::Text, "").is_empty());
    assembler.text(&block("b"), "Hel");
    assert!(assembler.reconcile(&block("b"), &ContentBlockKind::Text, "").is_empty());
    let events = assembler.complete();
    assert_eq!(names(&events), ["end b", "ended"]);
    assert_eq!(ended(&events).text(), "");
}
