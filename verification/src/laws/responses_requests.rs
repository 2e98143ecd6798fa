//! Laws of Responses requests, read off the body that is sent.

use vstd::prelude::*;

use super::keys::lemma_keys;
use super::requests::lemma_untouched;
use super::requests::untouched;
use crate::json::JsonV;
use crate::json::NumberV;
use crate::openai::counted_request;
use crate::openai::encode::first_unencodable;
use crate::openai::encode::tag_map;
use crate::openai::encode::typed_body;
use crate::openai::encode::unencodable_in;
use crate::openai::encoded_request;
use crate::openai::token_count;
use crate::options::joined_url;
use crate::response::ErrorKind;
use crate::response::Method;
use crate::response::RetryClassification;
use crate::types::ChoiceV;
use crate::types::FormatV;
use crate::types::MessageV;
use crate::types::PartV;
use crate::types::ReasoningEffort;
use crate::types::RequestV;
use crate::types::RouteV;
use crate::types::Speed;
use crate::types::ToolKindV;

verus! {

broadcast use {vstd::seq::group_seq_axioms, vstd::map::group_map_axioms};

/// The body a call sends.
pub open spec fn sent_body(request: RequestV, route: RouteV, codex: bool, stream: bool) -> JsonV {
    encoded_request(request, route, codex, stream)->Ok_0.body
}

/// Whether a part has no form in this protocol: audio, and an inline document
/// without a name.
pub open spec fn unsendable(part: PartV) -> bool {
    match part {
        PartV::Audio { .. } => true,
        PartV::Document { source, name } => source is Base64 && name is None,
        _ => false,
    }
}

/// Whether every part of a conversation has a form in this protocol.
pub open spec fn sendable(list: Seq<MessageV>) -> bool {
    forall|i: int, j: int|
        0 <= i < list.len() && 0 <= j < list[i].content.len() ==> !unsendable(
            #[trigger] list[i].content[j],
        )
}

proof fn lemma_sendable_in(content: Seq<PartV>)
    ensures
        unencodable_in(content) is None <==> forall|j: int|
            0 <= j < content.len() ==> !unsendable(#[trigger] content[j]),
    decreases content.len(),
{
    if content.len() > 0 {
        let fewer = content.drop_last();
        lemma_sendable_in(fewer);
        assert(content.last() == content[content.len() - 1]);
        if unencodable_in(content) is None {
            assert forall|j: int| 0 <= j < content.len() implies !unsendable(
                #[trigger] content[j],
            ) by {
                if j < fewer.len() {
                    assert(content[j] == fewer[j]);
                }
            }
        } else if unencodable_in(fewer) is Some {
            let j = choose|j: int| 0 <= j < fewer.len() && unsendable(#[trigger] fewer[j]);
            assert(content[j] == fewer[j]);
        }
    }
}

proof fn lemma_sendable(list: Seq<MessageV>)
    ensures
        first_unencodable(list) is None <==> sendable(list),
    decreases list.len(),
{
    if list.len() > 0 {
        let fewer = list.drop_last();
        lemma_sendable(fewer);
        let n = list.len() - 1;
        lemma_sendable_in(list[n].content);
        if first_unencodable(list) is None {
            assert forall|i: int, j: int|
                0 <= i < list.len() && 0 <= j < list[i].content.len() implies !unsendable(
                #[trigger] list[i].content[j],
            ) by {
                if i < n {
                    assert(list[i].content[j] == fewer[i].content[j]);
                }
            }
        } else if first_unencodable(fewer) is Some {
            let (i, j) = choose|i: int, j: int|
                0 <= i < fewer.len() && 0 <= j < fewer[i].content.len() && unsendable(
                    #[trigger] fewer[i].content[j],
                );
            assert(list[i].content[j] == fewer[i].content[j]);
        } else {
            let j = choose|j: int|
                0 <= j < list[n].content.len() && unsendable(#[trigger] list[n].content[j]);
        }
    }
}

/// A request is sent unless it holds audio or a nameless inline document, and
/// is refused for good where it does.
pub proof fn law_responses_refuses_what_it_cannot_carry(
    request: RequestV,
    route: RouteV,
    codex: bool,
    stream: bool,
)
    ensures
        ({
            let made = encoded_request(request, route, codex, stream);
            &&& made is Ok <==> sendable(request.messages)
            &&& made is Ok ==> made->Ok_0.body is Object
            &&& made is Err ==> made->Err_0.kind == ErrorKind::InvalidRequest
                && made->Err_0.provider == Some(route.provider) && made->Err_0.provider_code
                == Some("unsupported_capability"@) && made->Err_0.retry
                == RetryClassification::Never
        }),
{
    lemma_sendable(request.messages);
}

/// What a field of the body is that no raw option names.
pub proof fn lemma_sent(
    request: RequestV,
    route: RouteV,
    codex: bool,
    stream: bool,
    key: Seq<char>,
)
    requires
        sendable(request.messages),
        untouched(request, route, key),
        key != "prompt_cache_key"@,
    ensures
        encoded_request(request, route, codex, stream) is Ok,
        sent_body(request, route, codex, stream).get(key) == JsonV::Object(
            typed_body(request, route, codex, stream),
        ).get(key),
{
    law_responses_refuses_what_it_cannot_carry(request, route, codex, stream);
    let options = crate::options::route_options(request, route);
    let keyed = crate::body::with_member(
        typed_body(request, route, codex, stream),
        "prompt_cache_key"@,
        crate::gemini::encode::text_value(
            crate::options::routing_key(
                request,
                route,
                crate::options::control_values(options),
            ),
        ),
    );
    lemma_untouched(keyed, request, route, key);
}

/// Each tool is sent flat, under its own name, with its own description: a
/// function with its schema, a custom tool with its format, in the order of
/// the request.
pub proof fn law_responses_sends_each_tool(
    request: RequestV,
    route: RouteV,
    codex: bool,
    stream: bool,
)
    requires
        sendable(request.messages),
        untouched(request, route, "tools"@),
    ensures
        ({
            let body = sent_body(request, route, codex, stream);
            let list = body.items_at("tools"@);
            &&& request.tools.len() == 0 ==> body.get("tools"@) is None
            &&& list.len() == request.tools.len()
            &&& forall|i: int|
                0 <= i < request.tools.len() ==> {
                    &&& (#[trigger] list[i]).text_at("name"@) == Some(request.tools[i].name)
                    &&& list[i].text_at("description"@) == Some(request.tools[i].description)
                    &&& match request.tools[i].kind {
                        ToolKindV::Function { input_schema } => list[i].text_at("type"@) == Some(
                            "function"@,
                        ) && list[i].get("parameters"@) == Some(input_schema),
                        ToolKindV::Custom { format } => list[i].text_at("type"@) == Some(
                            "custom"@,
                        ) && list[i].get("format"@) == Some(format) && list[i].get(
                            "parameters"@,
                        ) is None,
                    }
                }
        }),
{
    lemma_keys();
    lemma_sent(request, route, codex, stream, "tools"@);
}

/// A tool choice is sent as the word it is, and a chosen tool by its name.
pub proof fn law_responses_sends_the_tool_choice(
    request: RequestV,
    route: RouteV,
    codex: bool,
    stream: bool,
)
    requires
        sendable(request.messages),
        untouched(request, route, "tool_choice"@),
    ensures
        ({
            let choice = sent_body(request, route, codex, stream).get("tool_choice"@);
            match request.tool_choice {
                None => choice is None,
                Some(ChoiceV::Auto) => choice == Some(JsonV::Text("auto"@)),
                Some(ChoiceV::Never) => choice == Some(JsonV::Text("none"@)),
                Some(ChoiceV::Required) => choice == Some(JsonV::Text("required"@)),
                Some(ChoiceV::Tool { name }) => {
                    &&& choice is Some
                    &&& choice->0.text_at("type"@) == Some("function"@)
                    &&& choice->0.text_at("name"@) == Some(name)
                },
            }
        }),
{
    lemma_keys();
    lemma_sent(request, route, codex, stream, "tool_choice"@);
}

/// The asked-for format is sent, a schema with its name.
pub proof fn law_responses_sends_the_format(
    request: RequestV,
    route: RouteV,
    codex: bool,
    stream: bool,
)
    requires
        sendable(request.messages),
        untouched(request, route, "text"@),
    ensures
        ({
            let body = sent_body(request, route, codex, stream);
            let format = body.get2("text"@, "format"@);
            match request.response_format {
                None => body.get("text"@) is None,
                Some(FormatV::Text) => format is Some && format->0.text_at("type"@) == Some(
                    "text"@,
                ),
                Some(FormatV::JsonObject) => format is Some && format->0.text_at("type"@) == Some(
                    "json_object"@,
                ),
                Some(FormatV::JsonSchema { name, schema }) => {
                    &&& format is Some
                    &&& format->0.text_at("type"@) == Some("json_schema"@)
                    &&& format->0.text_at("name"@) == Some(name)
                    &&& format->0.get("schema"@) == Some(schema)
                    &&& format->0.truth_at("strict"@) == Some(true)
                },
            }
        }),
{
    lemma_keys();
    lemma_sent(request, route, codex, stream, "text"@);
}

/// A request is sent to its model, as a stream where one is asked for. Nothing
/// is stored, and the reasoning comes back encrypted.
pub proof fn law_responses_sends_its_model(
    request: RequestV,
    route: RouteV,
    codex: bool,
    stream: bool,
)
    requires
        sendable(request.messages),
        untouched(request, route, "model"@),
        untouched(request, route, "stream"@),
        untouched(request, route, "store"@),
        untouched(request, route, "include"@),
    ensures
        ({
            let body = sent_body(request, route, codex, stream);
            &&& body.text_at("model"@) == Some(route.api_model)
            &&& body.truth_at("stream"@) == Some(stream)
            &&& body.truth_at("store"@) == Some(false)
            &&& body.items_at("include"@).len() == 1
            &&& body.items_at("include"@)[0] == JsonV::Text("reasoning.encrypted_content"@)
        }),
{
    lemma_model(request, route, codex, stream);
    lemma_store(request, route, codex, stream);
    lemma_fields(request, route, codex, stream, "model"@, "stream"@, "store"@);
    lemma_fields(request, route, codex, stream, "include"@, "include"@, "include"@);
}

/// What three fields of the body are that no raw option names.
proof fn lemma_fields(
    request: RequestV,
    route: RouteV,
    codex: bool,
    stream: bool,
    first: Seq<char>,
    second: Seq<char>,
    third: Seq<char>,
)
    requires
        sendable(request.messages),
        untouched(request, route, first),
        untouched(request, route, second),
        untouched(request, route, third),
        first != "prompt_cache_key"@ && second != "prompt_cache_key"@ && third
            != "prompt_cache_key"@,
    ensures
        ({
            let body = sent_body(request, route, codex, stream);
            let typed = JsonV::Object(typed_body(request, route, codex, stream));
            &&& body.get(first) == typed.get(first)
            &&& body.get(second) == typed.get(second)
            &&& body.get(third) == typed.get(third)
        }),
{
    lemma_sent(request, route, codex, stream, first);
    lemma_sent(request, route, codex, stream, second);
    lemma_sent(request, route, codex, stream, third);
}

proof fn lemma_model(request: RequestV, route: RouteV, codex: bool, stream: bool)
    ensures
        JsonV::Object(typed_body(request, route, codex, stream)).text_at("model"@) == Some(
            route.api_model,
        ),
        JsonV::Object(typed_body(request, route, codex, stream)).truth_at("stream"@) == Some(
            stream,
        ),
        "model"@ != "prompt_cache_key"@,
        "stream"@ != "prompt_cache_key"@,
        "store"@ != "prompt_cache_key"@,
        "include"@ != "prompt_cache_key"@,
{
    lemma_keys();
}

proof fn lemma_store(request: RequestV, route: RouteV, codex: bool, stream: bool)
    ensures
        ({
            let body = JsonV::Object(typed_body(request, route, codex, stream));
            &&& body.truth_at("store"@) == Some(false)
            &&& body.items_at("include"@).len() == 1
            &&& body.items_at("include"@)[0] == JsonV::Text("reasoning.encrypted_content"@)
        }),
{
    lemma_keys();
}

pub proof fn lemma_input(request: RequestV, route: RouteV, codex: bool, stream: bool)
    ensures
        JsonV::Object(typed_body(request, route, codex, stream)).get("input"@) == Some(
            JsonV::Array(
                crate::openai::encode::input_list(
                    request.messages,
                    crate::openai::encode::request_custom(request),
                    codex,
                ),
            ),
        ),
        "input"@ != "prompt_cache_key"@,
{
    lemma_keys();
}

/// The limits and the sampling of a request are sent as they were asked for,
/// and none that was not. The Codex deployment is sent none.
pub proof fn law_responses_sends_the_settings(
    request: RequestV,
    route: RouteV,
    codex: bool,
    stream: bool,
)
    requires
        sendable(request.messages),
        untouched(request, route, "max_output_tokens"@),
        untouched(request, route, "temperature"@),
        untouched(request, route, "top_p"@),
    ensures
        ({
            let body = sent_body(request, route, codex, stream);
            &&& body.get("max_output_tokens"@) == (match request.max_output_tokens {
                Some(tokens) if !codex => Some(JsonV::Number(NumberV::Unsigned(tokens))),
                _ => None,
            })
            &&& body.get("temperature"@) == (match request.temperature {
                Some(number) if !codex => Some(JsonV::Number(number)),
                _ => None,
            })
            &&& body.get("top_p"@) == (match request.top_p {
                Some(number) if !codex => Some(JsonV::Number(number)),
                _ => None,
            })
        }),
{
    lemma_sampling(request, route, codex, stream);
    lemma_fields(
        request,
        route,
        codex,
        stream,
        "max_output_tokens"@,
        "temperature"@,
        "top_p"@,
    );
}

proof fn lemma_sampling(request: RequestV, route: RouteV, codex: bool, stream: bool)
    ensures
        ({
            let body = JsonV::Object(typed_body(request, route, codex, stream));
            &&& body.get("max_output_tokens"@) == (match request.max_output_tokens {
                Some(tokens) if !codex => Some(JsonV::Number(NumberV::Unsigned(tokens))),
                _ => None,
            })
            &&& body.get("temperature"@) == (match request.temperature {
                Some(number) if !codex => Some(JsonV::Number(number)),
                _ => None,
            })
            &&& body.get("top_p"@) == (match request.top_p {
                Some(number) if !codex => Some(JsonV::Number(number)),
                _ => None,
            })
        }),
        "max_output_tokens"@ != "prompt_cache_key"@,
        "temperature"@ != "prompt_cache_key"@,
        "top_p"@ != "prompt_cache_key"@,
{
    lemma_keys();
}

/// An effort and a speed are sent as the words they are.
pub proof fn law_responses_sends_the_effort_and_the_speed(
    request: RequestV,
    route: RouteV,
    codex: bool,
    stream: bool,
)
    requires
        sendable(request.messages),
        untouched(request, route, "reasoning"@),
        untouched(request, route, "service_tier"@),
    ensures
        ({
            let made = encoded_request(request, route, codex, stream)->Ok_0;
            let effort = made.body.get2("reasoning"@, "effort"@);
            let tier = made.body.get("service_tier"@);
            &&& match request.reasoning_effort {
                None => made.body.get("reasoning"@) is None,
                Some(ReasoningEffort::Minimal) => effort == Some(JsonV::Text("minimal"@)),
                Some(ReasoningEffort::Low) => effort == Some(JsonV::Text("low"@)),
                Some(ReasoningEffort::Medium) => effort == Some(JsonV::Text("medium"@)),
                Some(ReasoningEffort::High) => effort == Some(JsonV::Text("high"@)),
                Some(ReasoningEffort::Xhigh) => effort == Some(JsonV::Text("xhigh"@)),
                Some(ReasoningEffort::Max) => effort == Some(JsonV::Text("max"@)),
            }
            &&& match request.speed {
                None => tier is None,
                Some(Speed::Fast) => tier == Some(JsonV::Text("priority"@)),
                Some(Speed::Balanced) => tier == Some(JsonV::Text("auto"@)),
                Some(Speed::Economical) => tier == Some(JsonV::Text("flex"@)),
            }
            &&& made.applied_speed == request.speed
        }),
{
    lemma_keys();
    lemma_sent(request, route, codex, stream, "reasoning"@);
    lemma_sent(request, route, codex, stream, "service_tier"@);
}

/// The tags of a list make an object of its keys, the last of a key winning.
proof fn lemma_tags(list: Seq<(Seq<char>, Seq<char>)>)
    ensures
        forall|key: Seq<char>| #[trigger]
            tag_map(list).contains_key(key) <==> exists|i: int|
                0 <= i < list.len() && (#[trigger] list[i]).0 == key,
        forall|i: int|
            #![trigger list[i]]
            0 <= i < list.len() && (forall|j: int|
                i < j < list.len() ==> (#[trigger] list[j]).0 != list[i].0) ==> tag_map(
                list,
            )[list[i].0] == JsonV::Text(list[i].1),
    decreases list.len(),
{
    if list.len() > 0 {
        let fewer = list.drop_last();
        let n = list.len() - 1;
        lemma_tags(fewer);
        assert forall|key: Seq<char>| #[trigger]
            tag_map(list).contains_key(key) <==> exists|i: int|
                0 <= i < list.len() && (#[trigger] list[i]).0 == key by {
            if tag_map(fewer).contains_key(key) {
                let i = choose|i: int| 0 <= i < fewer.len() && (#[trigger] fewer[i]).0 == key;
                assert(list[i].0 == key);
            }
            if key == list[n].0 {
                assert(list[n].0 == key);
            }
            if exists|i: int| 0 <= i < list.len() && (#[trigger] list[i]).0 == key {
                let i = choose|i: int| 0 <= i < list.len() && (#[trigger] list[i]).0 == key;
                if i < n {
                    assert(fewer[i].0 == key);
                }
            }
        }
        assert forall|i: int|
            #![trigger list[i]]
            0 <= i < list.len() && (forall|j: int|
                i < j < list.len() ==> (#[trigger] list[j]).0 != list[i].0) implies tag_map(
            list,
        )[list[i].0] == JsonV::Text(list[i].1) by {
            if i < n {
                assert(list[n].0 != list[i].0);
                assert(fewer[i] == list[i]);
                assert forall|j: int| i < j < fewer.len() implies (#[trigger] fewer[j]).0
                    != fewer[i].0 by {
                    assert(list[j].0 != list[i].0);
                }
            }
        }
    }
}

/// The tags of a request are sent as they are, the last of a key winning.
pub proof fn law_responses_sends_the_tags(
    request: RequestV,
    route: RouteV,
    codex: bool,
    stream: bool,
)
    requires
        sendable(request.messages),
        untouched(request, route, "metadata"@),
    ensures
        ({
            let body = sent_body(request, route, codex, stream);
            let tags = request.metadata;
            &&& tags.len() == 0 <==> body.get("metadata"@) is None
            &&& forall|i: int|
                #![trigger tags[i]]
                0 <= i < tags.len() && (forall|j: int|
                    i < j < tags.len() ==> (#[trigger] tags[j]).0 != tags[i].0) ==> body.get2(
                    "metadata"@,
                    tags[i].0,
                ) == Some(JsonV::Text(tags[i].1))
            &&& forall|key: Seq<char>|
                (#[trigger] body.get2("metadata"@, key)) is Some ==> exists|i: int|
                    0 <= i < tags.len() && (#[trigger] tags[i]).0 == key
        }),
{
    lemma_keys();
    lemma_sent(request, route, codex, stream, "metadata"@);
    lemma_tags(request.metadata);
    let tags = request.metadata;
    let body = sent_body(request, route, codex, stream);
    assert forall|i: int|
        #![trigger tags[i]]
        0 <= i < tags.len() && (forall|j: int|
            i < j < tags.len() ==> (#[trigger] tags[j]).0 != tags[i].0) implies body.get2(
        "metadata"@,
        tags[i].0,
    ) == Some(JsonV::Text(tags[i].1)) by {
        assert(tag_map(tags).contains_key(tags[i].0));
    }
}

/// The token count of a request is asked for what the request would send: the
/// same conversation, instructions, model, tools and settings that count, and
/// nothing else.
pub proof fn law_responses_counts_what_it_sends(request: RequestV, route: RouteV, codex: bool)
    requires
        sendable(request.messages),
    ensures
        counted_request(request, route, codex) is Ok,
        ({
            let made = counted_request(request, route, codex)->Ok_0;
            let body = made.body;
            let sent = sent_body(request, route, codex, false);
            &&& body.get("input"@) == sent.get("input"@)
            &&& body.get("instructions"@) == sent.get("instructions"@)
            &&& body.get("model"@) == sent.get("model"@)
            &&& body.get("reasoning"@) == sent.get("reasoning"@)
            &&& body.get("text"@) == sent.get("text"@)
            &&& body.get("tool_choice"@) == sent.get("tool_choice"@)
            &&& body.get("tools"@) == sent.get("tools"@)
            &&& body.get("conversation"@) == sent.get("conversation"@)
            &&& body.get("parallel_tool_calls"@) == sent.get("parallel_tool_calls"@)
            &&& body.get("previous_response_id"@) == sent.get("previous_response_id"@)
            &&& body.get("truncation"@) == sent.get("truncation"@)
            &&& body.get("temperature"@) is None
            &&& body.get("top_p"@) is None
            &&& body.get("max_output_tokens"@) is None
            &&& body.get("stream"@) is None
            &&& body.get("store"@) is None
            &&& body.get("include"@) is None
            &&& body.get("metadata"@) is None
            &&& body.get("service_tier"@) is None
            &&& body.get("prompt_cache_key"@) is None
            &&& made.url == joined_url(route.base_url, "/v1/responses/input_tokens"@)
            &&& made.warnings == encoded_request(request, route, codex, false)->Ok_0.warnings
        }),
{
    lemma_keys();
    law_responses_refuses_what_it_cannot_carry(request, route, codex, false);
}

/// The count request of a conversation holds its model and its conversation,
/// whatever is asked of the answer.
pub proof fn law_responses_counts_the_conversation(
    request: RequestV,
    other: RequestV,
    route: RouteV,
)
    requires
        sendable(request.messages),
        other.messages == request.messages,
        other.tools == request.tools,
        untouched(request, route, "input"@),
        untouched(other, route, "input"@),
        untouched(request, route, "model"@),
    ensures
        ({
            let body = counted_request(request, route, false)->Ok_0.body;
            &&& body.text_at("model"@) == Some(route.api_model)
            &&& body.get("input"@) is Some
            &&& body.get("input"@) == counted_request(other, route, false)->Ok_0.body.get("input"@)
        }),
{
    law_responses_counts_what_it_sends(request, route, false);
    law_responses_counts_what_it_sends(other, route, false);
    lemma_input(request, route, false, false);
    lemma_input(other, route, false, false);
    lemma_model(request, route, false, false);
    lemma_fields(request, route, false, false, "input"@, "model"@, "input"@);
    lemma_fields(other, route, false, false, "input"@, "input"@, "input"@);
}

/// A token count is read off `input_tokens` of a count document, and any other
/// document is a failure.
pub proof fn law_responses_reads_the_count(route: RouteV, value: JsonV)
    ensures
        token_count(route, value) is Ok <==> value.text_at("object"@) == Some(
            "response.input_tokens"@,
        ) && value.unsigned_at("input_tokens"@) is Some,
        token_count(route, value) matches Ok(tokens) ==> value.unsigned_at("input_tokens"@) == Some(
            tokens,
        ),
        token_count(route, value) matches Err(error) ==> error.kind == ErrorKind::ResponseDecode
            && error.raw_data == Some(value) && error.provider == Some(route.provider)
            && error.retry == RetryClassification::Safe,
{
}

/// A request goes to the endpoint of its deployment.
pub proof fn law_responses_addresses_its_deployment(
    request: RequestV,
    route: RouteV,
    stream: bool,
)
    requires
        sendable(request.messages),
    ensures
        encoded_request(request, route, false, stream)->Ok_0.url == joined_url(
            route.base_url,
            "/v1/responses"@,
        ),
        encoded_request(request, route, true, stream)->Ok_0.url == joined_url(
            route.base_url,
            "/responses"@,
        ),
        !encoded_request(request, route, true, stream)->Ok_0.data_line_framing,
        !encoded_request(request, route, false, stream)->Ok_0.data_line_framing,
{
    law_responses_refuses_what_it_cannot_carry(request, route, true, stream);
    law_responses_refuses_what_it_cannot_carry(request, route, false, stream);
}

/// Responses requests are posted, to generate and to count, with the speed
/// that was asked for, and a count loses what its generation would.
pub proof fn law_responses_posts_its_request(
    request: RequestV,
    route: RouteV,
    codex: bool,
    stream: bool,
)
    ensures
        encoded_request(request, route, codex, stream) matches Ok(made) ==> made.method
            == Method::Post && made.applied_speed == request.speed,
        counted_request(request, route, codex) matches Ok(counted) ==> (encoded_request(
            request,
            route,
            codex,
            stream,
        ) matches Ok(made) && counted.method == Method::Post && counted.warnings == made.warnings
            && counted.applied_speed == made.applied_speed),
{
}

} // verus!
