//! Building codecs by id and options.

use lithos_codecs::codecs::build;
use lithos_codecs::codecs::BuiltCodec;
use lithos_codecs::codecs::CodecBuildError;
use lithos_codecs::codecs::GenerationCodec;
use lithos_codecs::codecs::ANTHROPIC_MESSAGES;
use lithos_codecs::codecs::GEMINI_GENERATE;
use lithos_codecs::codecs::OPENAI_CHAT;
use lithos_codecs::codecs::OPENAI_RESPONSES;
use lithos_codecs::codecs::VERCEL_EVALUATION;
use lithos_codecs::json::Json;
use lithos_codecs::serial::from_value;

/// The document a JSON text spells.
fn json(text: &str) -> Json {
    from_value(serde_json::from_str(text).expect("the text is JSON"))
}

fn is_generation(codec: &BuiltCodec) -> bool {
    matches!(codec, BuiltCodec::Generation(_))
}

#[test]
fn every_builtin_generation_codec_builds_with_no_options() {
    for id in [OPENAI_CHAT, OPENAI_RESPONSES, ANTHROPIC_MESSAGES, GEMINI_GENERATE] {
        let built = build(id, &Json::Null).expect("no options are fine");
        assert!(is_generation(&built), "{id} serves generation");
    }
}

#[test]
fn the_evaluation_codec_builds_as_an_evaluation_codec() {
    let built = build(VERCEL_EVALUATION, &json("{}")).expect("empty options are fine");
    assert!(matches!(built, BuiltCodec::Evaluation(_)));
}

#[test]
fn an_unknown_id_is_reported_by_name() {
    let error = build("test-codec", &Json::Null)
        .err()
        .expect("an unknown codec is refused");
    assert!(matches!(&error, CodecBuildError::UnknownCodec { codec } if codec == "test-codec"));
}

#[test]
fn options_on_a_codec_that_takes_none_are_rejected() {
    let error = build(ANTHROPIC_MESSAGES, &json(r#"{ "made_up": true }"#))
        .err()
        .expect("a stray key is refused");
    assert!(matches!(
        &error,
        CodecBuildError::InvalidOptions { codec, .. } if codec == ANTHROPIC_MESSAGES
    ));
}

#[test]
fn the_responses_codec_takes_only_the_declared_modes() {
    for options in [json(r#"{ "mode": "turbo" }"#), json(r#"{ "made_up": true }"#)] {
        let error = build(OPENAI_RESPONSES, &options)
            .err()
            .expect("undeclared options are refused");
        assert!(matches!(&error, CodecBuildError::InvalidOptions { .. }));
    }
    let codex = build(OPENAI_RESPONSES, &json(r#"{ "mode": "codex" }"#));
    assert!(codex.is_ok_and(|built| is_generation(&built)));
}

#[test]
fn the_chat_codec_takes_its_root_option() {
    let built = build(OPENAI_CHAT, &json(r#"{ "base_url_is_api_root": true }"#));
    assert!(built.is_ok_and(|built| is_generation(&built)));
}

#[test]
fn options_configure_the_codec_they_build() {
    assert!(matches!(
        build(OPENAI_CHAT, &json(r#"{ "base_url_is_api_root": true }"#)),
        Ok(BuiltCodec::Generation(GenerationCodec::OpenAiChat(codec))) if codec.base_url_is_api_root
    ));
    assert!(matches!(
        build(OPENAI_CHAT, &json("{}")),
        Ok(BuiltCodec::Generation(GenerationCodec::OpenAiChat(codec))) if !codec.base_url_is_api_root
    ));
    for (options, expected) in [
        ("null", false),
        ("{}", false),
        (r#"{ "mode": "standard" }"#, false),
        (r#"{ "mode": "codex" }"#, true),
        (r#"{ "mode": { "codex": null } }"#, true),
        (r#"["codex"]"#, true),
    ] {
        let Ok(BuiltCodec::Generation(GenerationCodec::OpenAiResponses(codec))) =
            build(OPENAI_RESPONSES, &json(options))
        else {
            panic!("{options} is refused");
        };
        assert_eq!(codec.codex, expected, "{options}");
    }
}

#[test]
fn an_option_of_another_type_is_rejected() {
    for (id, options) in [
        (OPENAI_CHAT, r#"{ "base_url_is_api_root": "yes" }"#),
        (OPENAI_CHAT, r#"{ "base_url_is_api_root": null }"#),
        (OPENAI_CHAT, "true"),
        (OPENAI_RESPONSES, r#"{ "mode": null }"#),
        (OPENAI_RESPONSES, r#"{ "mode": 1 }"#),
        (OPENAI_RESPONSES, r#"["codex", 1]"#),
        (GEMINI_GENERATE, "[1]"),
        (VERCEL_EVALUATION, r#""codex""#),
    ] {
        assert!(
            matches!(
                build(id, &json(options)),
                Err(CodecBuildError::InvalidOptions { codec }) if codec == id
            ),
            "{id} {options}"
        );
    }
}
