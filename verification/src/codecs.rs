//! Which codec serves a provider, and with which options.

use vstd::prelude::*;
use vstd::string::*;

use crate::gemini::GeminiGenerateCodec;
use crate::json::lemma_model;
use crate::json::models;
use crate::json::Json;
use crate::json::JsonObject;
use crate::json::JsonV;
use crate::openai::OpenAiResponsesCodec;
use crate::openai_chat::OpenAiChatCodec;
use crate::text::same;

verus! {

broadcast use {vstd::std_specs::vec::group_vec_axioms, vstd::seq::group_seq_axioms, vstd::map::group_map_axioms, lemma_model};

/// The id of the Chat Completions codec.
pub const OPENAI_CHAT: &'static str = "openai-chat";

/// The id of the Responses codec.
pub const OPENAI_RESPONSES: &'static str = "openai-responses";

/// The id of the Anthropic Messages codec.
pub const ANTHROPIC_MESSAGES: &'static str = "anthropic-messages";

/// The id of the Gemini codec.
pub const GEMINI_GENERATE: &'static str = "gemini-generate";

/// The id of the Vercel evaluation codec.
pub const VERCEL_EVALUATION: &'static str = "vercel-evaluation";

/// A codec that generates text.
#[derive(Clone, Copy, Debug)]
pub enum GenerationCodec {
    OpenAiChat(OpenAiChatCodec),
    OpenAiResponses(OpenAiResponsesCodec),
    AnthropicMessages,
    GeminiGenerate(GeminiGenerateCodec),
}

/// A codec that evaluates text.
#[derive(Clone, Copy, Debug)]
pub enum EvaluationCodec {
    Vercel,
}

/// One constructed codec, tagged with the operation family it serves.
#[derive(Clone, Copy, Debug)]
pub enum BuiltCodec {
    /// Completes, streams, and counts input tokens.
    Generation(GenerationCodec),
    /// Evaluates.
    Evaluation(EvaluationCodec),
}

/// Why one codec could not be constructed for a provider.
#[derive(Debug)]
pub enum CodecBuildError {
    /// The id names no codec this library builds.
    UnknownCodec { codec: String },
    /// The provider's options for this codec do not match the codec's own.
    InvalidOptions { codec: String },
}

#[verifier::ext_equal]
pub enum BuildErrorV {
    UnknownCodec { codec: Seq<char> },
    InvalidOptions { codec: Seq<char> },
}

impl View for CodecBuildError {
    type V = BuildErrorV;

    open spec fn view(&self) -> BuildErrorV {
        match self {
            CodecBuildError::UnknownCodec { codec } => BuildErrorV::UnknownCodec { codec: codec@ },
            CodecBuildError::InvalidOptions { codec } => BuildErrorV::InvalidOptions {
                codec: codec@,
            },
        }
    }
}

/// Whether options leave a codec that takes none at its default: there are
/// none, or they are empty.
pub open spec fn is_no_options(options: JsonV) -> bool {
    match options {
        JsonV::Null => true,
        JsonV::Object(table) => table == Map::<Seq<char>, JsonV>::empty(),
        JsonV::Array(list) => list.len() == 0,
        _ => false,
    }
}

/// The one option of a codec that takes one under `key`: absent without a
/// table, or the member of a table that holds nothing else. A list gives it by
/// position. `None` where the options have another shape.
pub open spec fn lone_option(options: JsonV, key: Seq<char>) -> Option<Option<JsonV>> {
    match options {
        JsonV::Null => Some(None),
        JsonV::Object(table) => if forall|other: Seq<char>| #[trigger]
            table.contains_key(other) ==> other == key {
            Some(JsonV::Object(table).get(key))
        } else {
            None
        },
        JsonV::Array(list) => if list.len() == 0 {
            Some(None)
        } else if list.len() == 1 {
            Some(Some(list[0]))
        } else {
            None
        },
        _ => None,
    }
}

/// The API-root option of the Chat Completions codec.
pub open spec fn root_option(options: JsonV) -> Option<bool> {
    match lone_option(options, "base_url_is_api_root"@) {
        Some(None) => Some(false),
        Some(Some(JsonV::Bool(at_root))) => Some(at_root),
        _ => None,
    }
}

/// The mode a value names: its text, or the key of a lone null member.
pub open spec fn mode_name(value: JsonV) -> Option<Seq<char>> {
    match value {
        JsonV::Text(name) => Some(name),
        JsonV::Object(table) => if exists|name: Seq<char>|
            table == #[trigger] Map::<Seq<char>, JsonV>::empty().insert(name, JsonV::Null) {
            Some(
                choose|name: Seq<char>|
                    table == #[trigger] Map::<Seq<char>, JsonV>::empty().insert(
                        name,
                        JsonV::Null,
                    ),
            )
        } else {
            None
        },
        _ => None,
    }
}

/// The mode option of the Responses codec: whether it talks to the Codex
/// deployment.
pub open spec fn codex_option(options: JsonV) -> Option<bool> {
    match lone_option(options, "mode"@) {
        Some(None) => Some(false),
        Some(Some(value)) => if mode_name(value) == Some("standard"@) {
            Some(false)
        } else if mode_name(value) == Some("codex"@) {
            Some(true)
        } else {
            None
        },
        None => None,
    }
}

/// The codec an id and its options construct.
pub open spec fn constructed(id: Seq<char>, options: JsonV) -> Result<BuiltCodec, BuildErrorV> {
    if id == OPENAI_CHAT@ {
        match root_option(options) {
            Some(base_url_is_api_root) => Ok(
                BuiltCodec::Generation(
                    GenerationCodec::OpenAiChat(OpenAiChatCodec { base_url_is_api_root }),
                ),
            ),
            None => Err(BuildErrorV::InvalidOptions { codec: id }),
        }
    } else if id == OPENAI_RESPONSES@ {
        match codex_option(options) {
            Some(codex) => Ok(
                BuiltCodec::Generation(
                    GenerationCodec::OpenAiResponses(OpenAiResponsesCodec { codex }),
                ),
            ),
            None => Err(BuildErrorV::InvalidOptions { codec: id }),
        }
    } else if id == ANTHROPIC_MESSAGES@ || id == GEMINI_GENERATE@ || id == VERCEL_EVALUATION@ {
        if !is_no_options(options) {
            Err(BuildErrorV::InvalidOptions { codec: id })
        } else if id == ANTHROPIC_MESSAGES@ {
            Ok(BuiltCodec::Generation(GenerationCodec::AnthropicMessages))
        } else if id == GEMINI_GENERATE@ {
            Ok(BuiltCodec::Generation(GenerationCodec::GeminiGenerate(GeminiGenerateCodec)))
        } else {
            Ok(BuiltCodec::Evaluation(EvaluationCodec::Vercel))
        }
    } else {
        Err(BuildErrorV::UnknownCodec { codec: id })
    }
}

/// Tells whether options leave a codec that takes none at its default.
fn takes_none(options: &Json) -> (r: bool)
    ensures
        r == is_no_options(options@),
{
    match options {
        Json::Null => true,
        Json::Object(table) => table.is_empty(),
        Json::Array(list) => list.len() == 0,
        _ => false,
    }
}

/// Reads the one option of a codec that takes one.
fn read_option<'a>(options: &'a Json, key: &str) -> (r: Option<Option<&'a Json>>)
    ensures
        match r {
            Some(value) => lone_option(options@, key@) == Some(crate::json::model_opt(value)),
            None => lone_option(options@, key@) is None,
        },
{
    match options {
        Json::Null => Some(None),
        Json::Object(table) => {
            table.settle();
            let mut i: usize = 0;
            while i < table.len()
                invariant
                    i <= table.keys().len(),
                    options@ == JsonV::Object(table@),
                    forall|other: Seq<char>| #[trigger]
                        table@.contains_key(other) <==> table.keys().contains(other),
                    forall|k: int| 0 <= k < i ==> #[trigger] table.keys()[k] == key@,
                decreases table.keys().len() - i,
            {
                if !same(table.key_at(i), key) {
                    assert(table.keys().contains(table.keys()[i as int]));
                    assert(table@.contains_key(table.keys()[i as int]));
                    return None;
                }
                i = i + 1;
            }
            Some(table.get(key))
        },
        Json::Array(list) => if list.len() == 0 {
            Some(None)
        } else if list.len() == 1 {
            assert(models(list@)[0] == list@[0]@);
            Some(Some(&list[0]))
        } else {
            None
        },
        _ => None,
    }
}

/// An object of one null member names only that member.
proof fn lemma_lone_null(table: Map<Seq<char>, JsonV>, name: Seq<char>, other: Seq<char>)
    requires
        table == Map::<Seq<char>, JsonV>::empty().insert(name, JsonV::Null),
        table == Map::<Seq<char>, JsonV>::empty().insert(other, JsonV::Null),
    ensures
        name == other,
{
    assert(Map::<Seq<char>, JsonV>::empty().insert(other, JsonV::Null).contains_key(name));
}

/// Reads the mode a value names.
fn read_mode(value: &Json) -> (r: Option<String>)
    ensures
        crate::text::string_opt(r) == mode_name(value@),
{
    match value {
        Json::Text(name) => Some(name.as_str().to_owned()),
        Json::Object(table) => {
            table.settle();
            if table.len() != 1 || !table.value_at(0).is_null() {
                proof {
                    if exists|name: Seq<char>|
                        table@ == #[trigger] Map::<Seq<char>, JsonV>::empty().insert(
                            name,
                            JsonV::Null,
                        ) {
                        let name = choose|name: Seq<char>|
                            table@ == #[trigger] Map::<Seq<char>, JsonV>::empty().insert(
                                name,
                                JsonV::Null,
                            );
                        lemma_single_key(table, name);
                    }
                }
                return None;
            }
            let name: &str = table.key_at(0);
            proof {
                let lone = Map::<Seq<char>, JsonV>::empty().insert(name@, JsonV::Null);
                assert forall|key: Seq<char>| table@.contains_key(key) <==> lone.contains_key(
                    key,
                ) by {
                    if table@.contains_key(key) {
                        assert(table.keys().contains(key));
                    }
                    assert(table.keys().contains(table.keys()[0]));
                }
                assert(table@ =~= lone);
                let chosen = choose|name: Seq<char>|
                    table@ == #[trigger] Map::<Seq<char>, JsonV>::empty().insert(
                        name,
                        JsonV::Null,
                    );
                lemma_lone_null(table@, name@, chosen);
            }
            Some(name.to_owned())
        },
        _ => None,
    }
}

/// A table that is one null member has one key, and a null under it.
proof fn lemma_single_key(table: &JsonObject, name: Seq<char>)
    requires
        table.keys().no_duplicates(),
        forall|key: Seq<char>| #[trigger] table@.contains_key(key) <==> table.keys().contains(key),
        table@ == Map::<Seq<char>, JsonV>::empty().insert(name, JsonV::Null),
    ensures
        table.keys().len() == 1,
        table.keys()[0] == name,
        table@[name] == JsonV::Null,
{
    assert(table@.contains_key(name));
    let at = choose|i: int| 0 <= i < table.keys().len() && table.keys()[i] == name;
    assert forall|i: int| 0 <= i < table.keys().len() implies table.keys()[i] == name by {
        assert(table.keys().contains(table.keys()[i]));
        assert(table@.contains_key(table.keys()[i]));
    }
    if table.keys().len() > 1 {
        assert(table.keys()[0] == table.keys()[1]);
    }
}

/// Reads the API-root option of the Chat Completions codec.
fn read_root(options: &Json) -> (r: Option<bool>)
    ensures
        r == root_option(options@),
{
    match read_option(options, "base_url_is_api_root") {
        Some(None) => Some(false),
        Some(Some(value)) => value.as_truth(),
        None => None,
    }
}

/// Reads the mode option of the Responses codec.
fn read_codex(options: &Json) -> (r: Option<bool>)
    ensures
        r == codex_option(options@),
{
    match read_option(options, "mode") {
        Some(None) => Some(false),
        Some(Some(value)) => match read_mode(value) {
            Some(name) => if same(name.as_str(), "standard") {
                Some(false)
            } else if same(name.as_str(), "codex") {
                Some(true)
            } else {
                None
            },
            None => None,
        },
        None => None,
    }
}

/// Constructs the built-in codec `id` from a provider's raw options for it.
///
/// The options are null when the provider declares none, which is the codec's
/// default configuration. A codec that takes no options rejects any non-empty
/// table, so a misplaced key is an error rather than a silently ignored
/// setting.
pub fn build(id: &str, options: &Json) -> (r: Result<BuiltCodec, CodecBuildError>)
    ensures
        match r {
            Ok(codec) => constructed(id@, options@) == Ok::<BuiltCodec, BuildErrorV>(codec),
            Err(error) => constructed(id@, options@) == Err::<BuiltCodec, BuildErrorV>(error@),
        },
{
    if same(id, OPENAI_CHAT) {
        return match read_root(options) {
            Some(at_root) => Ok(
                BuiltCodec::Generation(
                    GenerationCodec::OpenAiChat(
                        if at_root {
                            OpenAiChatCodec::at_api_root()
                        } else {
                            OpenAiChatCodec::new()
                        },
                    ),
                ),
            ),
            None => Err(CodecBuildError::InvalidOptions { codec: id.to_owned() }),
        };
    }
    if same(id, OPENAI_RESPONSES) {
        return match read_codex(options) {
            Some(codex) => Ok(
                BuiltCodec::Generation(
                    GenerationCodec::OpenAiResponses(OpenAiResponsesCodec::new(codex)),
                ),
            ),
            None => Err(CodecBuildError::InvalidOptions { codec: id.to_owned() }),
        };
    }
    let built: BuiltCodec = if same(id, ANTHROPIC_MESSAGES) {
        BuiltCodec::Generation(GenerationCodec::AnthropicMessages)
    } else if same(id, GEMINI_GENERATE) {
        BuiltCodec::Generation(GenerationCodec::GeminiGenerate(GeminiGenerateCodec))
    } else if same(id, VERCEL_EVALUATION) {
        BuiltCodec::Evaluation(EvaluationCodec::Vercel)
    } else {
        return Err(CodecBuildError::UnknownCodec { codec: id.to_owned() });
    };
    if takes_none(options) {
        Ok(built)
    } else {
        Err(CodecBuildError::InvalidOptions { codec: id.to_owned() })
    }
}

} // verus!
