//! Laws of `generateContent` requests, read off the body that is sent.

use vstd::prelude::*;

use super::keys::lemma_keys;
use super::requests::lemma_untouched;
use super::requests::untouched;
use crate::gemini::encode::declared;
use crate::gemini::encode::has_custom;
use crate::gemini::encode::typed_body;
use crate::gemini::encoded_request;
use crate::gemini::encode::counted_request;
use crate::gemini::token_count;
use crate::json::JsonV;
use crate::response::Method;
use crate::response::WarningV;
use crate::types::ChoiceV;
use crate::options::joined_url;
use crate::response::ErrorKind;
use crate::response::RetryClassification;
use crate::response::ErrorV;
use crate::types::FormatV;
use crate::types::ReasoningEffort;
use crate::types::RequestV;
use crate::types::RouteV;

verus! {

broadcast use {vstd::seq::group_seq_axioms, vstd::map::group_map_axioms};

/// The body a call sends.
pub open spec fn sent_body(request: RequestV, route: RouteV, stream: bool) -> JsonV {
    encoded_request(request, route, stream)->Ok_0.body
}

/// Whether every tool of a request is a function.
pub open spec fn functions_alone(request: RequestV) -> bool {
    forall|i: int| 0 <= i < request.tools.len() ==> (#[trigger] request.tools[i]).kind is Function
}

/// A request of function tools is sent, and a custom tool is refused.
pub proof fn law_gemini_refuses_custom_tools(request: RequestV, route: RouteV, stream: bool)
    ensures
        encoded_request(request, route, stream) is Ok <==> functions_alone(request),
        encoded_request(request, route, stream) is Ok ==> sent_body(request, route, stream) is Object,
{
    assert(has_custom(request.tools) <==> !functions_alone(request));
}

/// What a field of the body is that no raw option names.
pub proof fn lemma_sent(request: RequestV, route: RouteV, stream: bool, key: Seq<char>)
    requires
        functions_alone(request),
        untouched(request, route, key),
        key != "safetySettings"@,
    ensures
        encoded_request(request, route, stream) is Ok,
        declared(request.tools, route) is Ok,
        sent_body(request, route, stream).get(key) == JsonV::Object(
            typed_body(request, route, declared(request.tools, route)->Ok_0),
        ).get(key),
{
    law_gemini_refuses_custom_tools(request, route, stream);
    lemma_untouched(
        typed_body(request, route, declared(request.tools, route)->Ok_0),
        request,
        route,
        key,
    );
}

/// Each function tool is declared under its own name, with its own
/// description and its own schema, in the order of the request.
pub proof fn law_gemini_declares_each_tool(request: RequestV, route: RouteV, stream: bool)
    requires
        functions_alone(request),
        untouched(request, route, "tools"@),
    ensures
        ({
            let tools = sent_body(request, route, stream).items_at("tools"@);
            let list = tools[0].items_at("functionDeclarations"@);
            &&& request.tools.len() == 0 ==> sent_body(request, route, stream).get(
                "tools"@,
            ) is None
            &&& request.tools.len() > 0 ==> tools.len() == 1 && list.len() == request.tools.len()
            &&& forall|i: int|
                0 <= i < request.tools.len() ==> {
                    &&& (#[trigger] list[i]).text_at("name"@) == Some(request.tools[i].name)
                    &&& list[i].text_at("description"@) == Some(request.tools[i].description)
                    &&& list[i].get("parametersJsonSchema"@) == Some(
                        request.tools[i].kind->input_schema,
                    )
                }
        }),
{
    lemma_keys();
    lemma_sent(request, route, stream, "tools"@);
    let list = sent_body(request, route, stream).items_at("tools"@)[0].items_at(
        "functionDeclarations"@,
    );
    assert forall|i: int| 0 <= i < request.tools.len() implies {
        &&& (#[trigger] list[i]).text_at("name"@) == Some(request.tools[i].name)
        &&& list[i].text_at("description"@) == Some(request.tools[i].description)
        &&& list[i].get("parametersJsonSchema"@) == Some(request.tools[i].kind->input_schema)
    } by {
        assert(request.tools[i].kind is Function);
    }
}

/// A tool choice is sent as the mode it names, and a chosen tool by its name:
/// the one it is declared under.
pub proof fn law_gemini_sends_the_tool_choice(request: RequestV, route: RouteV, stream: bool)
    requires
        functions_alone(request),
        untouched(request, route, "tools"@),
        untouched(request, route, "toolConfig"@),
    ensures
        ({
            let body = sent_body(request, route, stream);
            let config = body.get("toolConfig"@);
            let calling = config->0.get("functionCallingConfig"@)->0;
            let declarations = body.items_at("tools"@)[0].items_at("functionDeclarations"@);
            match request.tool_choice {
                None => config is None,
                Some(ChoiceV::Auto) => calling.text_at("mode"@) == Some("AUTO"@) && calling.get(
                    "allowedFunctionNames"@,
                ) is None,
                Some(ChoiceV::Never) => calling.text_at("mode"@) == Some("NONE"@) && calling.get(
                    "allowedFunctionNames"@,
                ) is None,
                Some(ChoiceV::Required) => calling.text_at("mode"@) == Some("ANY"@) && calling.get(
                    "allowedFunctionNames"@,
                ) is None,
                Some(ChoiceV::Tool { name }) => {
                    &&& calling.text_at("mode"@) == Some("ANY"@)
                    &&& calling.items_at("allowedFunctionNames"@).len() == 1
                    &&& calling.items_at("allowedFunctionNames"@)[0] == JsonV::Text(name)
                    &&& forall|i: int|
                        0 <= i < request.tools.len() && (#[trigger] request.tools[i]).name == name
                            ==> declarations[i].text_at("name"@) == Some(name)
                },
            }
        }),
{
    lemma_keys();
    lemma_sent(request, route, stream, "toolConfig"@);
    law_gemini_declares_each_tool(request, route, stream);
}

/// The generation settings of a body, or nothing.
pub open spec fn config_of(body: JsonV) -> JsonV {
    match body.get("generationConfig"@) {
        Some(config) => config,
        None => JsonV::Null,
    }
}

/// Every generation setting of a request is sent as it was asked for, and none
/// that was not.
pub proof fn law_gemini_sends_the_settings(request: RequestV, route: RouteV, stream: bool)
    requires
        functions_alone(request),
        untouched(request, route, "generationConfig"@),
    ensures
        ({
            let config = config_of(sent_body(request, route, stream));
            &&& config.unsigned_at("maxOutputTokens"@) == request.max_output_tokens
            &&& config.get("temperature"@) == (match request.temperature {
                Some(number) => Some(JsonV::Number(number)),
                None => None,
            })
            &&& config.get("topP"@) == (match request.top_p {
                Some(number) => Some(JsonV::Number(number)),
                None => None,
            })
            &&& config.items_at("stopSequences"@).len() == request.stop_sequences.len()
            &&& forall|i: int|
                0 <= i < request.stop_sequences.len() ==> (#[trigger] config.items_at(
                    "stopSequences"@,
                )[i]) == JsonV::Text(request.stop_sequences[i])
            &&& request.stop_sequences.len() == 0 ==> config.get("stopSequences"@) is None
        }),
{
    lemma_keys();
    lemma_sent(request, route, stream, "generationConfig"@);
    let fields = crate::gemini::encode::generation(request, route);
    let empty = Map::<Seq<char>, JsonV>::empty();
    assert(!empty.contains_key("maxOutputTokens"@));
    if fields == empty {
        assert(!fields.contains_key("maxOutputTokens"@));
        assert(!fields.contains_key("temperature"@));
        assert(!fields.contains_key("topP"@));
        assert(!fields.contains_key("stopSequences"@));
    }
}

/// The asked-for format is sent: a JSON answer as its media type, with the
/// schema it must match. An effort is sent as a level where the model takes
/// levels, more effort never as a lower level.
pub proof fn law_gemini_sends_the_format_and_the_effort(
    request: RequestV,
    route: RouteV,
    stream: bool,
)
    requires
        functions_alone(request),
        untouched(request, route, "generationConfig"@),
    ensures
        ({
            let config = config_of(sent_body(request, route, stream));
            let level = config.get2("thinkingConfig"@, "thinkingLevel"@);
            &&& match request.response_format {
                Some(FormatV::JsonObject) => config.text_at("responseMimeType"@) == Some(
                    "application/json"@,
                ) && config.get("responseJsonSchema"@) is None,
                Some(FormatV::JsonSchema { schema, .. }) => config.text_at("responseMimeType"@)
                    == Some("application/json"@) && config.get("responseJsonSchema"@) == Some(
                    schema,
                ),
                _ => config.get("responseMimeType"@) is None && config.get(
                    "responseJsonSchema"@,
                ) is None,
            }
            &&& match request.reasoning_effort {
                Some(effort) if route.reasoning_effort_levels => match effort {
                    ReasoningEffort::Minimal => level == Some(JsonV::Text("low"@)),
                    ReasoningEffort::Low => level == Some(JsonV::Text("low"@)),
                    ReasoningEffort::Medium => level == Some(JsonV::Text("medium"@)),
                    ReasoningEffort::High => level == Some(JsonV::Text("high"@)),
                    ReasoningEffort::Xhigh => level == Some(JsonV::Text("high"@)),
                    ReasoningEffort::Max => level == Some(JsonV::Text("high"@)),
                },
                _ => config.get("thinkingConfig"@) is None,
            }
        }),
{
    lemma_keys();
    lemma_sent(request, route, stream, "generationConfig"@);
    let fields = crate::gemini::encode::generation(request, route);
    let empty = Map::<Seq<char>, JsonV>::empty();
    if fields == empty {
        assert(!fields.contains_key("responseMimeType"@));
        assert(!fields.contains_key("responseJsonSchema"@));
        assert(!fields.contains_key("thinkingConfig"@));
    }
}

/// The count request wraps the whole generation request: every field of the
/// body, and the model it counts for.
pub proof fn law_gemini_counts_what_it_sends(request: RequestV, route: RouteV, key: Seq<char>)
    requires
        functions_alone(request),
    ensures
        counted_request(request, route) is Ok,
        ({
            let counted = counted_request(request, route)->Ok_0;
            let inner = counted.body.get("generateContentRequest"@);
            &&& inner is Some
            &&& key != "model"@ ==> inner->0.get(key) == sent_body(request, route, false).get(key)
            &&& inner->0.text_at("model"@) == Some("models/"@ + route.api_model)
            &&& counted.url == joined_url(
                route.base_url,
                "/v1beta/models/"@ + route.api_model + ":countTokens"@,
            )
        }),
{
    law_gemini_refuses_custom_tools(request, route, false);
    reveal_strlit(":countTokens");
    reveal_strlit("countTokens");
    reveal_strlit(":");
    assert(":"@ + "countTokens"@ =~= ":countTokens"@);
    assert("/v1beta/models/"@ + route.api_model + ":"@ + "countTokens"@ =~= "/v1beta/models/"@
        + route.api_model + (":"@ + "countTokens"@));
}

/// A generation request goes to the operation of its model: a blocking one to
/// `generateContent`, a streamed one to server-sent events, framed by lines.
pub proof fn law_gemini_addresses_its_model(request: RequestV, route: RouteV)
    requires
        functions_alone(request),
    ensures
        encoded_request(request, route, false)->Ok_0.url == joined_url(
            route.base_url,
            "/v1beta/models/"@ + route.api_model + ":generateContent"@,
        ),
        encoded_request(request, route, true)->Ok_0.url == joined_url(
            route.base_url,
            "/v1beta/models/"@ + route.api_model + ":streamGenerateContent?alt=sse"@,
        ),
        encoded_request(request, route, true)->Ok_0.data_line_framing,
        encoded_request(request, route, false)->Ok_0.body == encoded_request(
            request,
            route,
            true,
        )->Ok_0.body,
{
    law_gemini_refuses_custom_tools(request, route, false);
    law_gemini_refuses_custom_tools(request, route, true);
    reveal_strlit(":");
    reveal_strlit("generateContent");
    reveal_strlit(":generateContent");
    reveal_strlit("streamGenerateContent?alt=sse");
    reveal_strlit(":streamGenerateContent?alt=sse");
    let start = "/v1beta/models/"@ + route.api_model;
    assert(start + ":"@ + "generateContent"@ =~= start + ":generateContent"@);
    assert(start + ":"@ + "streamGenerateContent?alt=sse"@ =~= start
        + ":streamGenerateContent?alt=sse"@);
}

/// A token count is read off `totalTokens`, and its absence is a failure.
pub proof fn law_gemini_reads_the_count(route: RouteV, value: JsonV)
    ensures
        token_count(route, value) is Ok <==> value.unsigned_at("totalTokens"@) is Some,
        value.unsigned_at("totalTokens"@) matches Some(tokens) ==> token_count(route, value) == Ok::<
            u64,
            ErrorV,
        >(tokens),
        token_count(route, value) matches Err(error) ==> error.kind == ErrorKind::ResponseDecode
            && error.raw_data == Some(value) && error.provider == Some(route.provider)
            && error.retry == RetryClassification::Never,
{
}

/// The dangerous-content filter is relaxed where the caller set none.
pub proof fn law_gemini_relaxes_the_filter(request: RequestV, route: RouteV, stream: bool)
    requires
        functions_alone(request),
        untouched(request, route, "safetySettings"@),
        untouched(request, route, "safety_settings"@),
    ensures
        ({
            let list = sent_body(request, route, stream).items_at("safetySettings"@);
            &&& list.len() == 1
            &&& list[0].text_at("category"@) == Some("HARM_CATEGORY_DANGEROUS_CONTENT"@)
            &&& list[0].text_at("threshold"@) == Some("BLOCK_ONLY_HIGH"@)
        }),
{
    lemma_keys();
    law_gemini_refuses_custom_tools(request, route, stream);
    let typed = typed_body(request, route, declared(request.tools, route)->Ok_0);
    lemma_untouched(typed, request, route, "safetySettings"@);
    lemma_untouched(typed, request, route, "safety_settings"@);
}

/// Gemini requests are posted, to generate and to count, with no speed
/// applied. The stream is framed by data lines, and a count is answered whole
/// and loses nothing.
pub proof fn law_gemini_posts_its_request(request: RequestV, route: RouteV, stream: bool)
    ensures
        encoded_request(request, route, stream) matches Ok(made) ==> made.method == Method::Post
            && made.data_line_framing && made.applied_speed is None,
        counted_request(request, route) matches Ok(made) ==> made.method == Method::Post
            && !made.data_line_framing && made.applied_speed is None && made.warnings
            == Seq::<WarningV>::empty(),
{
}

} // verus!
