//! Texts, JSON documents, token counts, and tool inputs.

use lithos_codecs::content::finish_reason;
use lithos_codecs::content::promote_tool_finish;
use lithos_codecs::envelope::message_json;
use lithos_codecs::envelope::part_envelope;
use lithos_codecs::envelope::tool_json;
use lithos_codecs::json::Json;
use lithos_codecs::json::JsonObject;
use lithos_codecs::response::FinishReason;
use lithos_codecs::response::Response;
use lithos_codecs::response::TokenCounts;
use lithos_codecs::serial::from_value;
use lithos_codecs::serial::parse;
use lithos_codecs::serial::print;
use lithos_codecs::serial::to_value;
use lithos_codecs::serial::NESTING;
use lithos_codecs::text::after_prefix;
use lithos_codecs::text::decimal_text;
use lithos_codecs::text::head;
use lithos_codecs::text::hex_text;
use lithos_codecs::text::holds;
use lithos_codecs::text::join_texts;
use lithos_codecs::text::rest_after;
use lithos_codecs::text::starts_with;
use lithos_codecs::text::tail;
use lithos_codecs::text::trimmed;
use lithos_codecs::text::without_leading;
use lithos_codecs::text::without_trailing;
use lithos_codecs::types::ContentPart;
use lithos_codecs::types::MediaSource;
use lithos_codecs::types::Message;
use lithos_codecs::types::Role;
use lithos_codecs::types::ToolCall;
use lithos_codecs::types::ToolCallKind;
use lithos_codecs::types::ToolDefinition;
use lithos_codecs::types::ToolDefinitionKind;
use lithos_codecs::types::ToolInput;
use lithos_codecs::types::ToolResult;
use serde_json::Value;

/// The value a JSON text spells.
fn json(text: &str) -> Value {
    serde_json::from_str(text).expect("the text is JSON")
}

/// Arrays inside one another.
fn nested(depth: usize) -> Json {
    let mut document = Json::Null;
    for _ in 0..depth {
        document = Json::Array(vec![document]);
    }
    document
}

#[test]
fn numbers_are_spelled_in_decimal_and_hex() {
    assert_eq!(decimal_text(0), "0");
    assert_eq!(decimal_text(10), "10");
    assert_eq!(decimal_text(u64::MAX), "18446744073709551615");
    assert_eq!(hex_text(0, 16), "0000000000000000");
    assert_eq!(hex_text(0xdead_beef, 16), "00000000deadbeef");
    assert_eq!(hex_text(u64::MAX, 16), "ffffffffffffffff");
}

#[test]
fn texts_are_cut_and_joined() {
    assert_eq!(without_trailing("a//", '/'), "a");
    assert_eq!(without_leading("//a/", '/'), "a/");
    assert_eq!(head("v1/models", '/'), "v1");
    assert_eq!(head("v1", '/'), "v1");
    assert_eq!(tail("a/b/c", '/'), "c");
    assert_eq!(rest_after("https://host/path", "://"), "host/path");
    assert_eq!(rest_after("host/path", "://"), "host/path");
    assert_eq!(trimmed(" \t\n\u{3000}[DONE]\u{a0}\r\n"), "[DONE]");
    assert!(holds("a.b", '.') && !holds("ab", '.'));
    assert!(starts_with("openai.message", "openai.") && !starts_with("open", "openai."));
    assert_eq!(after_prefix("openai_compatible.field", "openai_compatible."), "field");
    assert_eq!(join_texts(&vec!["a".to_owned(), "b".to_owned()], "\n\n"), "a\n\nb");
}

#[test]
fn documents_hold_what_values_hold() {
    for text in [
        "null",
        "true",
        "0",
        "18446744073709551615",
        "-1",
        "-9223372036854775808",
        "0.1",
        "1e300",
        r#""a\"b\\c\né""#,
        r#"[1, [], {}, "x"]"#,
        r#"{ "b": [1, 2], "a": { "c": null }, "": false }"#,
    ] {
        let value = json(text);
        let document = from_value(value.clone());
        assert_eq!(to_value(&document), value, "{text}");
        assert_eq!(print(&document), value.to_string(), "{text}");
        let again = parse(text).expect("the text is JSON");
        assert_eq!(to_value(&again), value, "{text}");
    }
}

#[test]
fn a_text_that_is_not_json_does_not_parse() {
    for text in ["", "not json", "{", "[1,]", "{\"a\":1,}", "01"] {
        assert!(parse(text).is_err(), "{text}");
    }
}

#[test]
fn printing_sorts_the_members_of_an_object() {
    let mut object = JsonObject::new();
    object.insert("b", Json::unsigned(2));
    object.insert("a", Json::text("x"));
    object.insert("b", Json::unsigned(3));
    assert_eq!(object.len(), 2);
    assert_eq!(print(&Json::Object(object)), r#"{"a":"x","b":3}"#);
}

#[test]
fn readers_tell_shapes_apart() {
    let document = from_value(json(
        r#"{ "n": 7, "f": 7.0, "m": -7, "t": "x", "b": true, "l": ["first"], "o": { "k": 1 } }"#,
    ));
    assert_eq!(document.unsigned_at("n"), Some(7));
    assert_eq!(document.unsigned_at("f"), None);
    assert_eq!(document.unsigned_at("m"), None);
    assert_eq!(document.text_at("t"), Some("x"));
    assert_eq!(document.text_at("n"), None);
    assert_eq!(document.truth_at("b"), Some(true));
    assert_eq!(document.get("l").and_then(Json::first).and_then(Json::as_text), Some("first"));
    assert_eq!(document.get2("o", "k").and_then(Json::as_unsigned), Some(1));
    assert!(document.get("missing").is_none());
    assert!(Json::text("x").get("t").is_none());
    // The first place of an object is its member of that name.
    let numbered = from_value(json(r#"{ "0": "named" }"#));
    assert_eq!(numbered.first().and_then(Json::as_text), Some("named"));
}

#[test]
fn removing_a_member_leaves_the_others() {
    let mut object = JsonObject::new();
    object.insert("a", Json::unsigned(1));
    object.insert("b", Json::unsigned(2));
    assert_eq!(object.remove("a").and_then(|value| value.as_unsigned()), Some(1));
    assert!(object.remove("a").is_none());
    assert!(!object.contains_key("a") && object.contains_key("b"));
}

#[test]
fn arguments_come_back_from_their_text() {
    let arguments = json(r#"{ "city": "Boston", "days": [1, -2], "deep": { "er": null } }"#);
    let call = ToolCall::function("call-1", "weather", &from_value(arguments.clone()));
    assert_eq!(call.input.kind(), ToolCallKind::Function);
    assert_eq!(call.input.raw(), arguments.to_string());
    assert_eq!(to_value(&call.input.wire_value()), arguments);
    assert_eq!(to_value(&call.input.copy().wire_value()), arguments);
}

#[test]
fn arguments_nested_past_the_limit_stay_text() {
    let limit = usize::from(NESTING);
    let whole = ToolCall::function("call-1", "nest", &nested(limit));
    assert!(whole.input.wire_value().is_array());
    let deeper = ToolCall::function("call-1", "nest", &nested(limit + 1));
    assert_eq!(deeper.input.wire_value().as_text(), Some(deeper.input.raw()));
}

#[test]
fn arguments_that_are_no_document_stay_text() {
    let cut = ToolInput::from_wire(ToolCallKind::Function, "{\"q\":".to_owned());
    assert_eq!(cut.wire_value().as_text(), Some("{\"q\":"));
    let none = ToolInput::from_wire(ToolCallKind::Function, String::new());
    assert_eq!(to_value(&none.wire_value()), json("{}"));
    let custom = ToolCall::custom("call-1", "apply_patch", "{}");
    assert_eq!(custom.input.kind(), ToolCallKind::Custom);
    assert_eq!(custom.input.wire_value().as_text(), Some("{}"));
}

#[test]
fn details_leave_their_totals() {
    let counts = TokenCounts::from_inclusive(100, 50, 20, 80, 15);
    assert_eq!((counts.input, counts.output, counts.reasoning), (5, 30, 20));
    assert_eq!((counts.cache_read, counts.cache_write), (80, 15));
    assert_eq!(counts.total(), 150);
    assert_eq!(TokenCounts::none().total(), 0);
}

#[test]
fn a_detail_larger_than_its_total_leaves_nothing() {
    let counts = TokenCounts::from_inclusive(10, 5, 7, 8, 9);
    assert_eq!((counts.input, counts.output), (0, 0));
    assert_eq!(counts.total(), 24);
    assert_eq!(TokenCounts::from_inclusive(u64::MAX, u64::MAX, 0, 0, 0).total(), u64::MAX);
}

#[test]
fn finish_reasons_are_normalized() {
    for (spelling, expected) in [
        (None, FinishReason::Stop),
        (Some("stop"), FinishReason::Stop),
        (Some("STOP"), FinishReason::Stop),
        (Some("length"), FinishReason::Length),
        (Some("MAX_TOKENS"), FinishReason::Length),
        (Some("tool_calls"), FinishReason::ToolCall),
        (Some("function_call"), FinishReason::ToolCall),
        (Some("content_filter"), FinishReason::ContentFilter),
        (Some("SAFETY"), FinishReason::ContentFilter),
        (Some("eos"), FinishReason::Other("eos".to_owned())),
    ] {
        assert_eq!(finish_reason(spelling), expected);
    }
}

#[test]
fn only_a_plain_stop_is_promoted() {
    assert_eq!(promote_tool_finish(FinishReason::Stop, true), FinishReason::ToolCall);
    assert_eq!(promote_tool_finish(FinishReason::Stop, false), FinishReason::Stop);
    assert_eq!(promote_tool_finish(FinishReason::Length, true), FinishReason::Length);
    assert_eq!(
        promote_tool_finish(FinishReason::ContentFilter, true),
        FinishReason::ContentFilter
    );
}

#[test]
fn a_call_cut_at_the_limit_gives_way_to_a_warning() {
    let mut response = Response {
        provider: "alpha".to_owned(),
        model: "one".to_owned(),
        id: None,
        content: vec![
            ContentPart::Text { text: "So ".to_owned() },
            ContentPart::ToolCall(ToolCall::custom("call-1", "search", "")),
            ContentPart::Text { text: "far".to_owned() },
        ],
        finish_reason: FinishReason::ToolCall,
        usage: TokenCounts::none(),
        cost: None,
        raw: None,
        warnings: Vec::new(),
    };
    response.suppress_unfinished_tool_calls();
    assert_eq!(response.content.len(), 3);

    response.finish_reason = FinishReason::Length;
    response.suppress_unfinished_tool_calls();
    assert_eq!(response.text(), "So far");
    assert_eq!(response.content.len(), 2);
    assert_eq!(response.warnings.len(), 1);
    assert_eq!(response.warnings[0].code, "truncated_tool_call");
}

#[test]
fn the_namespace_of_an_opaque_part_stands_before_its_first_dot() {
    assert_eq!(
        ContentPart::opaque("openai.reasoning.v2", Json::Null).opaque_namespace(),
        Some("openai")
    );
    assert_eq!(ContentPart::opaque("openai_reasoning", Json::Null).opaque_namespace(), None);
    assert_eq!(ContentPart::Text { text: "a.b".to_owned() }.opaque_namespace(), None);
}

#[test]
fn parts_messages_and_tools_have_one_json_form() {
    let result = ContentPart::ToolResult(ToolResult {
        tool_call_id: "call-1".to_owned(),
        name: None,
        content: vec![ContentPart::Json { value: Json::unsigned(4) }],
        is_error: true,
    });
    assert_eq!(
        to_value(&part_envelope(&result)),
        json(
            r#"{ "type": "tool_result", "tool_call_id": "call-1", "name": null,
                 "content": [{ "type": "json", "value": 4 }], "is_error": true }"#
        )
    );
    let image = ContentPart::Document(lithos_codecs::types::DocumentContent {
        source: MediaSource::Url { url: "https://example.com/a.pdf".to_owned(), media_type: None },
        name: Some("a.pdf".to_owned()),
    });
    assert_eq!(
        to_value(&part_envelope(&image)),
        json(
            r#"{ "type": "document", "name": "a.pdf",
                 "source": { "url": "https://example.com/a.pdf", "media_type": null } }"#
        )
    );
    let message = Message {
        role: Role::System,
        content: vec![ContentPart::Text { text: "Hi".to_owned() }],
        name: None,
        tool_call_id: None,
    };
    let form = to_value(&message_json(&message));
    assert_eq!(form["role"], Value::from("system"));
    assert_eq!(form["content"], json(r#"[{ "type": "text", "text": "Hi" }]"#));
    let tool = ToolDefinition {
        name: "search".to_owned(),
        description: "Searches".to_owned(),
        kind: ToolDefinitionKind::Function { input_schema: from_value(json(r#"{ "type": "object" }"#)) },
    };
    let form = to_value(&tool_json(&tool));
    assert_eq!(form["name"], Value::from("search"));
    assert_eq!(form["description"], Value::from("Searches"));
}
