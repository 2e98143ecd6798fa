//! Laws of Chat Completions requests, read off the body that is sent.

use vstd::prelude::*;

use super::gemini_requests::functions_alone;
use super::keys::lemma_keys;
use super::requests::lemma_untouched;
use super::requests::untouched;
use crate::gemini::encode::has_custom;
use crate::json::JsonV;
use crate::openai_chat::encode::tool_list;
use crate::openai_chat::encode::tool_value;
use crate::openai_chat::encoded_request;
use crate::openai_chat::first_unencodable;
use crate::openai_chat::typed_body;
use crate::openai_chat::unencodable_in;
use crate::options::control_values;
use crate::options::joined_url;
use crate::options::route_options;
use crate::response::ErrorKind;
use crate::response::Method;
use crate::response::RetryClassification;
use crate::types::ChoiceV;
use crate::types::FormatV;
use crate::types::MessageV;
use crate::types::PartV;
use crate::types::ReasoningEffort;
use crate::types::RequestV;
use crate::types::RouteV;
use crate::types::ToolV;

verus! {

broadcast use {vstd::seq::group_seq_axioms, vstd::map::group_map_axioms};

/// The body a call sends.
pub open spec fn sent_body(request: RequestV, route: RouteV, stream: bool, at_root: bool) -> JsonV {
    encoded_request(request, route, stream, at_root)->Ok_0.body
}

/// Whether no message holds audio or a document.
pub open spec fn plain_attachments(list: Seq<MessageV>) -> bool {
    forall|i: int, j: int|
        0 <= i < list.len() && 0 <= j < list[i].content.len() ==> !(
        #[trigger] list[i].content[j] is Audio) && !(list[i].content[j] is Document)
}

proof fn lemma_attachments_in(content: Seq<PartV>)
    ensures
        unencodable_in(content) is None <==> forall|j: int|
            0 <= j < content.len() ==> !(#[trigger] content[j] is Audio) && !(content[j]
                is Document),
    decreases content.len(),
{
    if content.len() > 0 {
        let fewer = content.drop_last();
        lemma_attachments_in(fewer);
        assert(content.last() == content[content.len() - 1]);
        if unencodable_in(content) is None {
            assert forall|j: int| 0 <= j < content.len() implies !(#[trigger] content[j] is Audio)
                && !(content[j] is Document) by {
                if j < fewer.len() {
                    assert(content[j] == fewer[j]);
                }
            }
        } else if unencodable_in(fewer) is Some {
            let j = choose|j: int|
                0 <= j < fewer.len() && (#[trigger] fewer[j] is Audio || fewer[j] is Document);
            assert(content[j] == fewer[j]);
        }
    }
}

proof fn lemma_attachments(list: Seq<MessageV>)
    ensures
        first_unencodable(list) is None <==> plain_attachments(list),
    decreases list.len(),
{
    if list.len() > 0 {
        let fewer = list.drop_last();
        lemma_attachments(fewer);
        let n = list.len() - 1;
        lemma_attachments_in(list[n].content);
        if first_unencodable(list) is None {
            assert forall|i: int, j: int|
                0 <= i < list.len() && 0 <= j < list[i].content.len() implies !(
            #[trigger] list[i].content[j] is Audio) && !(list[i].content[j] is Document) by {
                if i < n {
                    assert(list[i].content[j] == fewer[i].content[j]);
                }
            }
        } else if first_unencodable(fewer) is Some {
            let (i, j) = choose|i: int, j: int|
                0 <= i < fewer.len() && 0 <= j < fewer[i].content.len() && (
                #[trigger] fewer[i].content[j] is Audio || fewer[i].content[j] is Document);
            assert(list[i].content[j] == fewer[i].content[j]);
        } else {
            let j = choose|j: int|
                0 <= j < list[n].content.len() && (#[trigger] list[n].content[j] is Audio
                    || list[n].content[j] is Document);
        }
    }
}

/// A request is sent unless it holds a custom tool, audio or a document, and
/// is refused for good where it does.
pub proof fn law_chat_refuses_what_it_cannot_carry(
    request: RequestV,
    route: RouteV,
    stream: bool,
    at_root: bool,
)
    ensures
        ({
            let made = encoded_request(request, route, stream, at_root);
            &&& made is Ok <==> functions_alone(request) && plain_attachments(request.messages)
            &&& made is Ok ==> made->Ok_0.body is Object
            &&& made is Err ==> made->Err_0.kind == ErrorKind::InvalidRequest
                && made->Err_0.provider == Some(route.provider) && made->Err_0.provider_code
                == Some("unsupported_capability"@) && made->Err_0.retry
                == RetryClassification::Never
        }),
{
    lemma_attachments(request.messages);
    assert(has_custom(request.tools) <==> !functions_alone(request));
}

/// What a field of the body is that no raw option names.
pub proof fn lemma_sent(
    request: RequestV,
    route: RouteV,
    stream: bool,
    at_root: bool,
    key: Seq<char>,
)
    requires
        functions_alone(request),
        plain_attachments(request.messages),
        untouched(request, route, key),
    ensures
        encoded_request(request, route, stream, at_root) is Ok,
        sent_body(request, route, stream, at_root).get(key) == JsonV::Object(
            typed_body(request, route, control_values(route_options(request, route)), stream),
        ).get(key),
{
    law_chat_refuses_what_it_cannot_carry(request, route, stream, at_root);
    lemma_untouched(
        typed_body(request, route, control_values(route_options(request, route)), stream),
        request,
        route,
        key,
    );
}

proof fn lemma_tools(list: Seq<ToolV>)
    requires
        forall|i: int| 0 <= i < list.len() ==> (#[trigger] list[i]).kind is Function,
    ensures
        tool_list(list).len() == list.len(),
        forall|i: int|
            0 <= i < list.len() ==> Some(#[trigger] tool_list(list)[i]) == tool_value(list[i]),
    decreases list.len(),
{
    if list.len() > 0 {
        let fewer = list.drop_last();
        assert forall|i: int| 0 <= i < fewer.len() implies (
        #[trigger] fewer[i]).kind is Function by {
            assert(fewer[i] == list[i]);
        }
        lemma_tools(fewer);
        assert(list[list.len() - 1].kind is Function);
        assert forall|i: int| 0 <= i < list.len() implies Some(#[trigger] tool_list(list)[i])
            == tool_value(list[i]) by {
            if i < fewer.len() {
                assert(tool_list(list)[i] == tool_list(fewer)[i]);
                assert(fewer[i] == list[i]);
            }
        }
    }
}

/// Each tool is sent as a function under its own name, with its own
/// description and its own schema, in the order of the request.
pub proof fn law_chat_sends_each_tool(
    request: RequestV,
    route: RouteV,
    stream: bool,
    at_root: bool,
)
    requires
        functions_alone(request),
        plain_attachments(request.messages),
        untouched(request, route, "tools"@),
    ensures
        ({
            let body = sent_body(request, route, stream, at_root);
            let list = body.items_at("tools"@);
            &&& request.tools.len() == 0 ==> body.get("tools"@) is None
            &&& list.len() == request.tools.len()
            &&& forall|i: int|
                0 <= i < request.tools.len() ==> {
                    &&& (#[trigger] list[i]).text_at("type"@) == Some("function"@)
                    &&& list[i].get2("function"@, "name"@) == Some(
                        JsonV::Text(request.tools[i].name),
                    )
                    &&& list[i].get2("function"@, "description"@) == Some(
                        JsonV::Text(request.tools[i].description),
                    )
                    &&& list[i].get2("function"@, "parameters"@) == Some(
                        request.tools[i].kind->input_schema,
                    )
                }
        }),
{
    lemma_keys();
    lemma_sent(request, route, stream, at_root, "tools"@);
    lemma_tools(request.tools);
}

/// A tool choice is sent as the word it is, and a chosen tool by its name.
pub proof fn law_chat_sends_the_tool_choice(
    request: RequestV,
    route: RouteV,
    stream: bool,
    at_root: bool,
)
    requires
        functions_alone(request),
        plain_attachments(request.messages),
        untouched(request, route, "tool_choice"@),
    ensures
        ({
            let choice = sent_body(request, route, stream, at_root).get("tool_choice"@);
            match request.tool_choice {
                None => choice is None,
                Some(ChoiceV::Auto) => choice == Some(JsonV::Text("auto"@)),
                Some(ChoiceV::Never) => choice == Some(JsonV::Text("none"@)),
                Some(ChoiceV::Required) => choice == Some(JsonV::Text("required"@)),
                Some(ChoiceV::Tool { name }) => {
                    &&& choice is Some
                    &&& choice->0.text_at("type"@) == Some("function"@)
                    &&& choice->0.get2("function"@, "name"@) == Some(JsonV::Text(name))
                },
            }
        }),
{
    lemma_keys();
    lemma_sent(request, route, stream, at_root, "tool_choice"@);
}

/// The asked-for format is sent, a schema with its name.
pub proof fn law_chat_sends_the_format(
    request: RequestV,
    route: RouteV,
    stream: bool,
    at_root: bool,
)
    requires
        functions_alone(request),
        plain_attachments(request.messages),
        untouched(request, route, "response_format"@),
    ensures
        ({
            let format = sent_body(request, route, stream, at_root).get("response_format"@);
            match request.response_format {
                None => format is None,
                Some(FormatV::Text) => format is Some && format->0.text_at("type"@) == Some(
                    "text"@,
                ),
                Some(FormatV::JsonObject) => format is Some && format->0.text_at("type"@) == Some(
                    "json_object"@,
                ),
                Some(FormatV::JsonSchema { name, schema }) => {
                    &&& format is Some
                    &&& format->0.text_at("type"@) == Some("json_schema"@)
                    &&& format->0.get2("json_schema"@, "name"@) == Some(JsonV::Text(name))
                    &&& format->0.get2("json_schema"@, "schema"@) == Some(schema)
                    &&& format->0.get2("json_schema"@, "strict"@) == Some(JsonV::Bool(true))
                },
            }
        }),
{
    lemma_keys();
    lemma_sent(request, route, stream, at_root, "response_format"@);
}

/// The settings of a request are sent as they were asked for, and none that
/// was not: the model, the limits, the sampling, the effort and the stops.
#[verifier::rlimit(30)]
pub proof fn law_chat_sends_the_settings(
    request: RequestV,
    route: RouteV,
    stream: bool,
    at_root: bool,
)
    requires
        functions_alone(request),
        plain_attachments(request.messages),
        untouched(request, route, "model"@),
        untouched(request, route, "max_tokens"@),
        untouched(request, route, "temperature"@),
        untouched(request, route, "top_p"@),
        untouched(request, route, "stop"@),
        untouched(request, route, "reasoning_effort"@),
    ensures
        ({
            let body = sent_body(request, route, stream, at_root);
            let effort = body.get("reasoning_effort"@);
            &&& body.text_at("model"@) == Some(route.api_model)
            &&& body.unsigned_at("max_tokens"@) == request.max_output_tokens
            &&& body.get("temperature"@) == (match request.temperature {
                Some(number) => Some(JsonV::Number(number)),
                None => None,
            })
            &&& body.get("top_p"@) == (match request.top_p {
                Some(number) => Some(JsonV::Number(number)),
                None => None,
            })
            &&& body.items_at("stop"@).len() == request.stop_sequences.len()
            &&& forall|i: int|
                0 <= i < request.stop_sequences.len() ==> #[trigger] body.items_at("stop"@)[i]
                    == JsonV::Text(request.stop_sequences[i])
            &&& request.stop_sequences.len() == 0 ==> body.get("stop"@) is None
            &&& match request.reasoning_effort {
                None => effort is None,
                Some(ReasoningEffort::Minimal) => effort == Some(JsonV::Text("minimal"@)),
                Some(ReasoningEffort::Low) => effort == Some(JsonV::Text("low"@)),
                Some(ReasoningEffort::Medium) => effort == Some(JsonV::Text("medium"@)),
                Some(ReasoningEffort::High) => effort == Some(JsonV::Text("high"@)),
                Some(ReasoningEffort::Xhigh) => effort == Some(JsonV::Text("xhigh"@)),
                Some(ReasoningEffort::Max) => effort == Some(JsonV::Text("max"@)),
            }
        }),
{
    lemma_keys();
    lemma_sent(request, route, stream, at_root, "model"@);
    lemma_sent(request, route, stream, at_root, "max_tokens"@);
    lemma_sent(request, route, stream, at_root, "temperature"@);
    lemma_sent(request, route, stream, at_root, "top_p"@);
    lemma_sent(request, route, stream, at_root, "stop"@);
    lemma_sent(request, route, stream, at_root, "reasoning_effort"@);
}

/// A streamed request asks for a stream that reports its usage, and a blocking
/// one asks for none. Either goes to the completion endpoint.
#[verifier::rlimit(30)]
pub proof fn law_chat_asks_for_a_stream(request: RequestV, route: RouteV, at_root: bool)
    requires
        functions_alone(request),
        plain_attachments(request.messages),
        untouched(request, route, "stream"@),
        untouched(request, route, "stream_options"@),
    ensures
        sent_body(request, route, true, at_root).truth_at("stream"@) == Some(true),
        sent_body(request, route, true, at_root).get2("stream_options"@, "include_usage"@) == Some(
            JsonV::Bool(true),
        ),
        sent_body(request, route, false, at_root).get("stream"@) is None,
        sent_body(request, route, false, at_root).get("stream_options"@) is None,
        forall|stream: bool|
            (#[trigger] encoded_request(request, route, stream, true))->Ok_0.url == joined_url(
                route.base_url,
                "/chat/completions"@,
            ),
        forall|stream: bool|
            (#[trigger] encoded_request(request, route, stream, false))->Ok_0.url == joined_url(
                route.base_url,
                "/v1/chat/completions"@,
            ),
{
    lemma_keys();
    lemma_sent(request, route, true, at_root, "stream"@);
    lemma_sent(request, route, true, at_root, "stream_options"@);
    lemma_sent(request, route, false, at_root, "stream"@);
    lemma_sent(request, route, false, at_root, "stream_options"@);
    law_chat_refuses_what_it_cannot_carry(request, route, true, true);
    law_chat_refuses_what_it_cannot_carry(request, route, true, false);
    law_chat_refuses_what_it_cannot_carry(request, route, false, true);
    law_chat_refuses_what_it_cannot_carry(request, route, false, false);
}

/// A Chat Completions request is posted, its stream is framed by data lines,
/// and no speed is applied.
pub proof fn law_chat_posts_its_request(
    request: RequestV,
    route: RouteV,
    stream: bool,
    at_root: bool,
)
    ensures
        encoded_request(request, route, stream, at_root) matches Ok(made) ==> made.method
            == Method::Post && made.data_line_framing && made.applied_speed is None,
{
}

} // verus!
