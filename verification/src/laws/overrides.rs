//! Laws of raw options in the body that is sent, and of building codecs.

use vstd::prelude::*;

use super::chat_requests::plain_attachments;
use super::gemini_requests::functions_alone;
use super::responses_requests::sendable;
use crate::codecs::constructed;
use crate::codecs::BuildErrorV;
use crate::codecs::BuiltCodec;
use crate::codecs::EvaluationCodec;
use crate::codecs::GenerationCodec;
use crate::json::JsonV;
use crate::options::merged;
use crate::options::overlay;
use crate::options::route_options;
use crate::options::wire_map;
use crate::types::RequestV;
use crate::types::RouteV;

verus! {

broadcast use {vstd::seq::group_seq_axioms, vstd::map::group_map_axioms};

/// The option a request sets for its provider, or the provider's default.
pub open spec fn option_of(request: RequestV, route: RouteV, key: Seq<char>) -> Option<JsonV> {
    match JsonV::Object(request.provider_options).get2(route.provider, key) {
        Some(value) => Some(value),
        None => JsonV::Object(route.default_options).get(key),
    }
}

proof fn lemma_override(
    body: Map<Seq<char>, JsonV>,
    request: RequestV,
    route: RouteV,
    key: Seq<char>,
)
    requires
        key != "auto_cache"@,
        option_of(request, route, key) is Some,
        !(option_of(request, route, key)->0 is Object),
    ensures
        JsonV::Object(merged(body, wire_map(route_options(request, route)))).get(key) == option_of(
            request,
            route,
            key,
        ),
{
    reveal_with_fuel(overlay, 3);
}

/// A raw option of a request is sent as it is, over what the request asked for
/// by other means, and so is a default of the provider where the request sets
/// none. The control that switches caching is never sent.
pub proof fn law_raw_options_are_sent(
    request: RequestV,
    route: RouteV,
    stream: bool,
    mode: bool,
    key: Seq<char>,
)
    requires
        functions_alone(request),
        plain_attachments(request.messages),
        sendable(request.messages),
        key != "auto_cache"@,
        option_of(request, route, key) is Some,
        !(option_of(request, route, key)->0 is Object),
    ensures
        super::gemini_requests::sent_body(request, route, stream).get(key) == option_of(
            request,
            route,
            key,
        ),
        super::chat_requests::sent_body(request, route, stream, mode).get(key) == option_of(
            request,
            route,
            key,
        ),
        super::responses_requests::sent_body(request, route, mode, stream).get(key) == option_of(
            request,
            route,
            key,
        ),
        super::gemini_requests::sent_body(request, route, stream).get("auto_cache"@) is None,
        super::chat_requests::sent_body(request, route, stream, mode).get("auto_cache"@) is None,
        super::responses_requests::sent_body(request, route, mode, stream).get("auto_cache"@)
            is None,
{
    super::gemini_requests::law_gemini_refuses_custom_tools(request, route, stream);
    super::chat_requests::law_chat_refuses_what_it_cannot_carry(request, route, stream, mode);
    super::responses_requests::law_responses_refuses_what_it_cannot_carry(
        request,
        route,
        mode,
        stream,
    );
    super::wire::law_no_codec_sends_a_control(request, route, stream, mode);
    let options = route_options(request, route);
    let controls = crate::options::control_values(options);
    let declarations = crate::gemini::encode::declared(request.tools, route)->Ok_0;
    lemma_override(
        crate::gemini::encode::typed_body(request, route, declarations),
        request,
        route,
        key,
    );
    lemma_override(
        crate::openai_chat::typed_body(request, route, controls, stream),
        request,
        route,
        key,
    );
    lemma_override(
        crate::body::with_member(
            crate::openai::encode::typed_body(request, route, mode, stream),
            "prompt_cache_key"@,
            crate::gemini::encode::text_value(
                crate::options::routing_key(request, route, controls),
            ),
        ),
        request,
        route,
        key,
    );
}

/// Each codec is built under its own id, at its defaults without options, and
/// an id that names none is an error.
pub proof fn law_codecs_are_built_by_id(id: Seq<char>)
    ensures
        constructed("openai-chat"@, JsonV::Null) matches Ok(
            BuiltCodec::Generation(GenerationCodec::OpenAiChat(codec)),
        ) && !codec.base_url_is_api_root,
        constructed("openai-responses"@, JsonV::Null) matches Ok(
            BuiltCodec::Generation(GenerationCodec::OpenAiResponses(codec)),
        ) && !codec.codex,
        constructed("anthropic-messages"@, JsonV::Null) matches Ok(
            BuiltCodec::Generation(GenerationCodec::AnthropicMessages),
        ),
        constructed("gemini-generate"@, JsonV::Null) matches Ok(
            BuiltCodec::Generation(GenerationCodec::GeminiGenerate(_)),
        ),
        constructed("vercel-evaluation"@, JsonV::Null) matches Ok(
            BuiltCodec::Evaluation(EvaluationCodec::Vercel),
        ),
        id != "openai-chat"@ && id != "openai-responses"@ && id != "anthropic-messages"@ && id
            != "gemini-generate"@ && id != "vercel-evaluation"@ ==> forall|options: JsonV|
            #[trigger] constructed(id, options) == Err::<BuiltCodec, BuildErrorV>(
                BuildErrorV::UnknownCodec { codec: id },
            ),
{
    lemma_ids();
}

proof fn lemma_ids()
    ensures
        "openai-chat"@.len() == 11,
        "openai-responses"@.len() == 16,
        "anthropic-messages"@.len() == 18,
        "gemini-generate"@.len() == 15,
        "vercel-evaluation"@.len() == 17,
        "standard"@.len() == 8,
        "codex"@.len() == 5,
        "mode"@.len() == 4,
        "base_url_is_api_root"@.len() == 20,
{
    reveal_strlit("openai-chat");
    reveal_strlit("openai-responses");
    reveal_strlit("anthropic-messages");
    reveal_strlit("gemini-generate");
    reveal_strlit("vercel-evaluation");
    reveal_strlit("standard");
    reveal_strlit("codex");
    reveal_strlit("mode");
    reveal_strlit("base_url_is_api_root");
}

/// The options of a codec are its own: the API root of one, the deployment of
/// another, and none of a third. Anything else is an error that names the
/// codec.
pub proof fn law_codecs_take_their_own_options(
    table: Map<Seq<char>, JsonV>,
    key: Seq<char>,
    value: JsonV,
)
    requires
        table == Map::<Seq<char>, JsonV>::empty().insert(key, value),
    ensures
        ({
            let chat = constructed("openai-chat"@, JsonV::Object(table));
            let responses = constructed("openai-responses"@, JsonV::Object(table));
            let gemini = constructed("gemini-generate"@, JsonV::Object(table));
            &&& match value {
                JsonV::Bool(at_root) if key == "base_url_is_api_root"@ => chat matches Ok(
                    BuiltCodec::Generation(GenerationCodec::OpenAiChat(codec)),
                ) && codec.base_url_is_api_root == at_root,
                _ => chat == Err::<BuiltCodec, BuildErrorV>(
                    BuildErrorV::InvalidOptions { codec: "openai-chat"@ },
                ),
            }
            &&& key == "mode"@ && value == JsonV::Text("codex"@) ==> (responses matches Ok(
                BuiltCodec::Generation(GenerationCodec::OpenAiResponses(codec)),
            ) && codec.codex)
            &&& key == "mode"@ && value == JsonV::Text("standard"@) ==> (responses matches Ok(
                BuiltCodec::Generation(GenerationCodec::OpenAiResponses(codec)),
            ) && !codec.codex)
            &&& key != "mode"@ || !(value is Text || value is Object) ==> responses == Err::<
                BuiltCodec,
                BuildErrorV,
            >(BuildErrorV::InvalidOptions { codec: "openai-responses"@ })
            &&& gemini == Err::<BuiltCodec, BuildErrorV>(
                BuildErrorV::InvalidOptions { codec: "gemini-generate"@ },
            )
        }),
{
    lemma_ids();
    assert(table.contains_key(key));
    assert(!Map::<Seq<char>, JsonV>::empty().contains_key(key));
    assert(JsonV::Object(table).get(key) == Some(value));
}

} // verus!
