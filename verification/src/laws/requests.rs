//! What the laws of requests read off a request.

use vstd::prelude::*;

use crate::content::all_json;
use crate::content::all_text;
use crate::content::json_values;
use crate::content::plain;
use crate::content::result_text;
use crate::envelope::envelopes;
use crate::json::JsonV;
use crate::options::merged;
use crate::options::route_options;
use crate::options::wire_map;
use crate::response::control_warnings;
use crate::response::WarningV;
use crate::serial::printed;
use crate::types::CallV;
use crate::types::MessageV;
use crate::types::PartV;
use crate::types::RequestV;
use crate::types::ResultV;
use crate::types::RouteV;
use crate::types::SourceV;

verus! {

broadcast use {vstd::seq::group_seq_axioms, vstd::map::group_map_axioms};

/// Whether no raw option names a field: neither the provider's defaults nor
/// the request's own options for that provider.
pub open spec fn untouched(request: RequestV, route: RouteV, key: Seq<char>) -> bool {
    &&& !route.default_options.contains_key(key)
    &&& JsonV::Object(request.provider_options).get2(route.provider, key) is None
}

/// A field that no raw option names is sent as it was encoded.
pub proof fn lemma_untouched(
    body: Map<Seq<char>, JsonV>,
    request: RequestV,
    route: RouteV,
    key: Seq<char>,
)
    requires
        untouched(request, route, key),
    ensures
        ({
            let sent = merged(body, wire_map(route_options(request, route)));
            &&& sent.contains_key(key) <==> body.contains_key(key)
            &&& body.contains_key(key) ==> sent[key] == body[key]
            &&& JsonV::Object(sent).get(key) == JsonV::Object(body).get(key)
        }),
{
    reveal_with_fuel(crate::options::overlay, 2);
}

/// The tool calls of a message, in order.
pub open spec fn calls_of(content: Seq<PartV>) -> Seq<CallV>
    decreases content.len(),
{
    if content.len() == 0 {
        Seq::empty()
    } else {
        match content.last() {
            PartV::ToolCall(call) => calls_of(content.drop_last()).push(call),
            _ => calls_of(content.drop_last()),
        }
    }
}

/// The tool results of a message, in order.
pub open spec fn results_of(content: Seq<PartV>) -> Seq<ResultV>
    decreases content.len(),
{
    if content.len() == 0 {
        Seq::empty()
    } else {
        match content.last() {
            PartV::ToolResult(result) => results_of(content.drop_last()).push(result),
            _ => results_of(content.drop_last()),
        }
    }
}

/// The texts of a message, one after the other.
pub open spec fn said(content: Seq<PartV>) -> Seq<char>
    decreases content.len(),
{
    if content.len() == 0 {
        Seq::empty()
    } else {
        match content.last() {
            PartV::Text { text } => said(content.drop_last()) + text,
            _ => said(content.drop_last()),
        }
    }
}

/// A conversation with one more message.
pub open spec fn with_message(request: RequestV, message: MessageV) -> RequestV {
    RequestV { messages: request.messages.push(message), ..request }
}

/// The texts of a message are its plain text.
pub proof fn lemma_said(content: Seq<PartV>)
    ensures
        plain(content) == said(content),
    decreases content.len(),
{
    if content.len() > 0 {
        lemma_said(content.drop_last());
    }
}

/// Whether every part is text.
pub open spec fn texts_alone(content: Seq<PartV>) -> bool {
    forall|i: int| 0 <= i < content.len() ==> #[trigger] content[i] is Text
}

/// Whether every part is JSON.
pub open spec fn values_alone(content: Seq<PartV>) -> bool {
    forall|i: int| 0 <= i < content.len() ==> #[trigger] content[i] is Json
}

/// The values of JSON parts alone are those of the parts.
pub proof fn lemma_values(content: Seq<PartV>)
    requires
        values_alone(content),
    ensures
        json_values(content).len() == content.len(),
        forall|i: int|
            0 <= i < content.len() ==> #[trigger] json_values(content)[i] == content[i]->value,
    decreases content.len(),
{
    if content.len() > 0 {
        assert forall|i: int| 0 <= i < content.drop_last().len() implies #[trigger] content.drop_last()[i]
            is Json by {
            assert(content[i] is Json);
        }
        lemma_values(content.drop_last());
        assert(content[content.len() - 1] is Json);
        assert forall|i: int| 0 <= i < content.len() implies #[trigger] json_values(content)[i]
            == content[i]->value by {
            if i < content.len() - 1 {
                assert(json_values(content.drop_last())[i] == content.drop_last()[i]->value);
            }
        }
    }
}

/// Whether a list of warnings names a control.
pub open spec fn warns_of(warnings: Seq<WarningV>, control: Seq<char>) -> bool {
    exists|i: int|
        0 <= i < warnings.len() && (#[trigger] warnings[i]).code == "unsupported_control"@
            && warnings[i].message == "this provider protocol does not support "@ + control
}

/// A listed control is warned of.
pub proof fn lemma_warned(controls: Seq<Seq<char>>, control: Seq<char>)
    requires
        controls.contains(control),
    ensures
        warns_of(control_warnings(controls), control),
{
    let i = controls.index_of(control);
    assert(control_warnings(controls)[i].code == "unsupported_control"@);
}

/// The URL of a media source: its own, or its bytes as a data URL.
pub open spec fn address(source: SourceV) -> Seq<char> {
    match source {
        SourceV::Url { url, .. } => url,
        SourceV::Base64 { data, media_type } => "data:"@ + media_type + ";base64,"@ + data,
    }
}

/// Whether a list holds the parts of a mixed answer: one entry a part, of its
/// kind, with what it holds.
pub open spec fn lists_parts(list: Seq<JsonV>, content: Seq<PartV>) -> bool {
    &&& list.len() == content.len()
    &&& forall|i: int|
        0 <= i < content.len() ==> match content[i] {
            PartV::Text { text } => (#[trigger] list[i]).text_at("type"@) == Some("text"@)
                && list[i].text_at("text"@) == Some(text),
            PartV::Json { value } => list[i].text_at("type"@) == Some("json"@) && list[i].get(
                "value"@,
            ) == Some(value),
            PartV::Image { .. } => list[i].text_at("type"@) == Some("image"@),
            PartV::Audio { .. } => list[i].text_at("type"@) == Some("audio"@),
            PartV::Document { .. } => list[i].text_at("type"@) == Some("document"@),
            PartV::Unknown(value) => list[i] == value,
            _ => list[i].text_at("type"@) is Some,
        }
}

/// Whether a list holds the values of JSON parts, in order.
pub open spec fn lists_values(list: Seq<JsonV>, content: Seq<PartV>) -> bool {
    &&& list.len() == content.len()
    &&& forall|i: int| 0 <= i < content.len() ==> #[trigger] list[i] == content[i]->value
}

/// Whether a text is what a tool answered, on a wire that takes a text: the
/// text of a text answer, the value of a lone JSON answer, the list of the
/// values of several, and any other mix part by part. Where a wire reads text
/// first, the text of a mix stands for it, and a lone JSON text is that text.
pub open spec fn answers_as(text: Seq<char>, content: Seq<PartV>, text_first: bool) -> bool {
    if texts_alone(content) || (text_first && said(content).len() > 0) {
        text == said(content)
    } else if values_alone(content) {
        if content.len() == 1 {
            if text_first && content[0]->value is Text {
                text == content[0]->value->Text_0
            } else {
                text == printed(content[0]->value)
            }
        } else {
            exists|list: Seq<JsonV>|
                text == printed(JsonV::Array(list)) && #[trigger] lists_values(list, content)
        }
    } else {
        exists|list: Seq<JsonV>|
            text == printed(JsonV::Array(list)) && #[trigger] lists_parts(list, content)
    }
}

/// A result is sent as what its tool answered.
pub proof fn lemma_answers(result: ResultV, text_first: bool)
    ensures
        answers_as(result_text(result, text_first), result.content, text_first),
{
    let content = result.content;
    lemma_said(content);
    assert(texts_alone(content) == all_text(content));
    assert(values_alone(content) == all_json(content));
    reveal_strlit("type");
    reveal_strlit("text");
    reveal_strlit("value");
    reveal_strlit("detail");
    reveal_strlit("source");
    reveal_strlit("name");
    reveal_strlit("kind");
    reveal_strlit("data");
    reveal_strlit("id");
    reveal_strlit("custom");
    reveal_strlit("input");
    reveal_strlit("provider_metadata");
    reveal_strlit("tool_call_id");
    reveal_strlit("content");
    reveal_strlit("is_error");
    reveal_strlit("signature");
    reveal_strlit("signature_origin");
    reveal_strlit("redacted");
    assert("type"@[1] == 'y' && "text"@[1] == 'e' && "name"@[1] == 'a' && "kind"@[1] == 'i');
    assert("data"@[1] == 'a' && "value"@.len() == 5 && "detail"@.len() == 6);
    assert("source"@.len() == 6 && "custom"@.len() == 6 && "input"@.len() == 5);
    assert("content"@.len() == 7 && "id"@.len() == 2 && "is_error"@.len() == 8);
    assert("provider_metadata"@.len() == 17 && "tool_call_id"@.len() == 12);
    assert("signature"@.len() == 9 && "signature_origin"@.len() == 16 && "redacted"@.len() == 8);
    if values_alone(content) {
        lemma_values(content);
        assert(lists_values(json_values(content), content));
    }
    let list = envelopes(content);
    assert(lists_parts(list, content)) by {
        assert forall|i: int| 0 <= i < content.len() implies match content[i] {
            PartV::Text { text } => (#[trigger] list[i]).text_at("type"@) == Some("text"@)
                && list[i].text_at("text"@) == Some(text),
            PartV::Json { value } => list[i].text_at("type"@) == Some("json"@) && list[i].get(
                "value"@,
            ) == Some(value),
            PartV::Image { .. } => list[i].text_at("type"@) == Some("image"@),
            PartV::Audio { .. } => list[i].text_at("type"@) == Some("audio"@),
            PartV::Document { .. } => list[i].text_at("type"@) == Some("document"@),
            PartV::Unknown(value) => list[i] == value,
            _ => list[i].text_at("type"@) is Some,
        } by {
            assert(list[i] == crate::envelope::envelope(content[i]));
        }
    }
}

} // verus!
