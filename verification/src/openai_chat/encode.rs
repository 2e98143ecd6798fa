//! Request encoding: messages, tools, and cache breakpoints.

use vstd::prelude::*;
use vstd::string::*;

use crate::body::array1;
use crate::body::object1;
use crate::body::single;
use crate::body::with_member;
use crate::content::data_url;
use crate::content::plain;
use crate::content::plain_text;
use crate::content::result_text;
use crate::content::source_url;
use crate::content::tool_result_text;
use crate::json::lemma_model;
use crate::json::models;
use crate::json::owned_model_opt;
use crate::json::Json;
use crate::json::JsonObject;
use crate::json::JsonV;
use crate::serial::print;
use crate::serial::printed;
use crate::text::after_prefix;
use crate::text::lemma_ends;
use crate::text::lemma_take;
use crate::text::same;
use crate::text::starts_with;
use crate::text::string_opt;
use crate::text::text_opt;
use crate::types::lemma_result_part;
use crate::types::messages;
use crate::types::parts;
use crate::types::tools;
use crate::types::CallV;
use crate::types::ChoiceV;
use crate::types::ContentPart;
use crate::types::FormatV;
use crate::types::ImageContent;
use crate::types::Message;
use crate::types::MessageV;
use crate::types::PartV;
use crate::types::ReasoningEffort;
use crate::types::ResponseFormat;
use crate::types::ResultV;
use crate::types::Role;
use crate::types::SourceV;
use crate::types::ToolCall;
use crate::types::ToolChoice;
use crate::types::ToolDefinition;
use crate::types::ToolDefinitionKind;
use crate::types::ToolKindV;
use crate::types::ToolResult;
use crate::types::ToolV;

verus! {

broadcast use {vstd::std_specs::vec::group_vec_axioms, vstd::seq::group_seq_axioms, lemma_model, lemma_result_part};

/// The prefix of an opaque content kind this dialect claims.
///
/// The namespace is `openai_compatible`; the text after the separator names
/// the message field the part replays into.
pub const OPAQUE_PREFIX: &'static str = "openai_compatible.";

/// The ephemeral cache breakpoint.
pub open spec fn breakpoint() -> JsonV {
    single("type"@, JsonV::Text("ephemeral"@))
}

/// Message content with a breakpoint on its last part. A plain text becomes a
/// one-part array, which can carry it.
pub open spec fn marked_content(content: JsonV) -> JsonV {
    match content {
        JsonV::Text(text) => JsonV::Array(
            seq![JsonV::Object(
                map!["type"@ => JsonV::Text("text"@), "text"@ => JsonV::Text(text),
                    "cache_control"@ => breakpoint()],
            )],
        ),
        JsonV::Array(list) if list.len() > 0 => match list.last() {
            JsonV::Object(part) => JsonV::Array(
                list.update(
                    list.len() - 1,
                    JsonV::Object(part.insert("cache_control"@, breakpoint())),
                ),
            ),
            _ => content,
        },
        _ => content,
    }
}

/// A wire message with a breakpoint on its content, when it has any.
pub open spec fn marked_message(message: JsonV) -> JsonV {
    match (message, message.get("content"@)) {
        (JsonV::Object(object), Some(content)) => JsonV::Object(
            object.insert("content"@, marked_content(content)),
        ),
        _ => message,
    }
}

/// How many system messages lead a conversation.
pub open spec fn leading(list: Seq<JsonV>) -> nat
    decreases list.len(),
{
    if list.len() > 0 && list[0].text_at("role"@) == Some("system"@) {
        1 + leading(list.drop_first())
    } else {
        0
    }
}

/// Whether a wire message counts as a user turn. A tool result does, because
/// it rides in a user message upstream.
pub open spec fn is_user_turn(message: JsonV) -> bool {
    message.text_at("role"@) == Some("user"@) || message.text_at("role"@) == Some("tool"@)
}

/// The last user turn before `end`.
pub open spec fn turn_before(list: Seq<JsonV>, end: int) -> Option<int>
    decreases end,
{
    if end <= 0 || end > list.len() {
        None
    } else if is_user_turn(list[end - 1]) {
        Some(end - 1)
    } else {
        turn_before(list, end - 1)
    }
}

/// The second-to-last user turn.
pub open spec fn previous_turn(list: Seq<JsonV>) -> Option<int> {
    match turn_before(list, list.len() as int) {
        Some(last) => turn_before(list, last),
        None => None,
    }
}

/// A conversation with its cacheable prefix marked: the last system message of
/// the leading run, and the second-to-last user turn.
pub open spec fn marked(list: Seq<JsonV>) -> Seq<JsonV> {
    let at = leading(list) as int;
    let list = if at > 0 { list.update(at - 1, marked_message(list[at - 1])) } else { list };
    match previous_turn(list) {
        Some(turn) => list.update(turn, marked_message(list[turn])),
        None => list,
    }
}

/// The wire role of one encoded message.
fn role_of(message: &Json) -> (r: Option<&str>)
    ensures
        text_opt(r) == message@.text_at("role"@),
{
    message.text_at("role")
}

/// Tells whether a wire message has a role.
fn plays(message: &Json, role: &str) -> (r: bool)
    ensures
        r == (message@.text_at("role"@) == Some(role@)),
{
    match role_of(message) {
        Some(text) => same(text, role),
        None => false,
    }
}

/// Makes the ephemeral cache breakpoint.
fn ephemeral() -> (r: Json)
    ensures
        r@ == breakpoint(),
{
    object1("type", Json::text("ephemeral"))
}

/// Adds an ephemeral cache breakpoint to one wire message.
///
/// The plain-string content form has nowhere to carry the annotation, so it
/// becomes a one-part array; a message already in the array form marks its
/// last part. A message with no content is left alone.
pub fn mark_cached(message: &Json) -> (r: Json)
    ensures
        r@ == marked_message(message@),
{
    let object: &JsonObject = match message {
        Json::Object(object) => object,
        _ => {
            return message.copy();
        },
    };
    let content: Json = match object.get("content") {
        None => {
            return message.copy();
        },
        Some(Json::Text(text)) => {
            let mut part: JsonObject = JsonObject::new();
            part.insert("type", Json::text("text"));
            part.insert("text", Json::text(text.as_str()));
            part.insert("cache_control", ephemeral());
            array1(Json::Object(part))
        },
        Some(Json::Array(list)) => {
            let mut copies: Vec<Json> = Vec::new();
            let mut i: usize = 0;
            while i < list.len()
                invariant
                    i <= list.len(),
                    copies.len() == i,
                    forall|k: int| 0 <= k < i ==> copies@[k]@ == list@[k]@,
                decreases list.len() - i,
            {
                copies.push(list[i].copy());
                i = i + 1;
            }
            let len: usize = list.len();
            if len > 0 {
                assert(models(list@).last() == list@[len - 1]@);
                if let Json::Object(last) = &list[len - 1] {
                    let mut last: JsonObject = last.copy();
                    last.insert("cache_control", ephemeral());
                    copies.set(len - 1, Json::Object(last));
                }
            }
            assert(models(copies@) =~= marked_content(JsonV::Array(models(list@)))->Array_0);
            Json::Array(copies)
        },
        Some(other) => other.copy(),
    };
    let mut copy: JsonObject = object.copy();
    copy.insert("content", content);
    Json::Object(copy)
}

/// Finds the last user turn before `end`.
fn find_turn(list: &Vec<Json>, end: usize) -> (r: Option<usize>)
    requires
        end <= list.len(),
    ensures
        match r {
            Some(turn) => turn_before(models(list@), end as int) == Some(turn as int) && turn < end,
            None => turn_before(models(list@), end as int) is None,
        },
{
    let mut i: usize = end;
    while i > 0
        invariant
            i <= end <= list.len(),
            turn_before(models(list@), end as int) == turn_before(models(list@), i as int),
        decreases i,
    {
        if plays(&list[i - 1], "user") || plays(&list[i - 1], "tool") {
            return Some(i - 1);
        }
        i = i - 1;
    }
    None
}

/// A leading run is as long as the position of the first other message.
proof fn lemma_leading(list: Seq<JsonV>, at: int)
    requires
        0 <= at <= list.len(),
        forall|i: int| 0 <= i < at ==> (#[trigger] list[i]).text_at("role"@) == Some("system"@),
        at < list.len() ==> list[at].text_at("role"@) != Some("system"@),
    ensures
        leading(list) == at,
    decreases at,
{
    if at > 0 {
        assert(list[0].text_at("role"@) == Some("system"@));
        assert forall|i: int| 0 <= i < at - 1 implies (#[trigger] list.drop_first()[i]).text_at(
            "role"@,
        ) == Some("system"@) by {
            assert(list.drop_first()[i] == list[i + 1]);
        }
        lemma_leading(list.drop_first(), at - 1);
    }
}

/// Marks the cacheable prefix of a conversation for an Anthropic upstream.
///
/// Two breakpoints: the last system message of the leading run, and the
/// second-to-last user turn, so each iteration of an agent loop reads the
/// prefix the previous one wrote. A system message appended later is an
/// instruction, not the prompt, and is not marked.
pub fn mark_cache_breakpoints(list: &mut Vec<Json>)
    ensures
        models(final(list)@) == marked(models(old(list)@)),
{
    let mut lead: usize = 0;
    while lead < list.len() && plays(&list[lead], "system")
        invariant
            lead <= list.len(),
            forall|i: int|
                0 <= i < lead ==> (#[trigger] models(list@)[i]).text_at("role"@) == Some(
                    "system"@,
                ),
            list@ == old(list)@,
        decreases list.len() - lead,
    {
        assert(models(list@)[lead as int] == list@[lead as int]@);
        lead = lead + 1;
    }
    let ghost before = models(list@);
    proof {
        if lead < list.len() {
            assert(before[lead as int] == list@[lead as int]@);
        }
        lemma_leading(before, lead as int);
    }
    if lead > 0 {
        let system: Json = mark_cached(&list[lead - 1]);
        list.set(lead - 1, system);
        assert(models(list@) =~= before.update(lead - 1, marked_message(before[lead - 1])));
    }
    let ghost middle = models(list@);
    if let Some(last) = find_turn(list, list.len()) {
        if let Some(turn) = find_turn(list, last) {
            let user: Json = mark_cached(&list[turn]);
            list.set(turn, user);
            assert(models(list@) =~= middle.update(
                turn as int,
                marked_message(middle[turn as int]),
            ));
        }
    }
}

/// The wire role for one canonical role.
pub open spec fn wire_role(role: Role) -> Seq<char> {
    match role {
        Role::System | Role::Developer => "system"@,
        Role::User => "user"@,
        Role::Assistant => "assistant"@,
        Role::Tool => "tool"@,
    }
}

/// The wire role for one canonical role.
///
/// A developer message is sent as a system message, the closest role every
/// compatible provider understands.
pub fn role_name(role: Role) -> (r: &'static str)
    ensures
        r@ == wire_role(role),
{
    match role {
        Role::System | Role::Developer => "system",
        Role::User => "user",
        Role::Assistant => "assistant",
        Role::Tool => "tool",
    }
}

/// The wire spelling of one reasoning effort level.
pub open spec fn effort_text(effort: ReasoningEffort) -> Seq<char> {
    match effort {
        ReasoningEffort::Minimal => "minimal"@,
        ReasoningEffort::Low => "low"@,
        ReasoningEffort::Medium => "medium"@,
        ReasoningEffort::High => "high"@,
        ReasoningEffort::Xhigh => "xhigh"@,
        ReasoningEffort::Max => "max"@,
    }
}

/// The wire spelling of one reasoning effort level: the canonical names are
/// the wire vocabulary.
pub fn effort_name(effort: ReasoningEffort) -> (r: &'static str)
    ensures
        r@ == effort_text(effort),
{
    match effort {
        ReasoningEffort::Minimal => "minimal",
        ReasoningEffort::Low => "low",
        ReasoningEffort::Medium => "medium",
        ReasoningEffort::High => "high",
        ReasoningEffort::Xhigh => "xhigh",
        ReasoningEffort::Max => "max",
    }
}

/// One tool result as its own `tool` message.
pub open spec fn result_message(result: ResultV) -> JsonV {
    JsonV::Object(
        map!["role"@ => JsonV::Text("tool"@),
            "tool_call_id"@ => JsonV::Text(result.tool_call_id),
            "content"@ => JsonV::Text(result_text(result, true))],
    )
}

/// Encodes one tool result as its own `tool` message.
///
/// This protocol takes a string here and nothing else, so the content is
/// flattened. A lone JSON text value is sent as that text.
pub fn encode_tool_result(result: &ToolResult) -> (r: Json)
    ensures
        r@ == result_message(result@),
{
    let mut object: JsonObject = JsonObject::new();
    object.insert("role", Json::text("tool"));
    object.insert("tool_call_id", Json::text(result.tool_call_id.as_str()));
    object.insert("content", Json::Text(tool_result_text(result, true)));
    Json::Object(object)
}

/// The argument text to send for a tool call: the provider's own, byte for
/// byte.
pub fn wire_arguments(call: &ToolCall) -> (r: String)
    ensures
        r@ == call@.input.raw,
{
    call.input.raw().to_owned()
}

/// One assistant tool call, for replay.
pub open spec fn call_json(call: CallV) -> JsonV {
    JsonV::Object(
        map!["id"@ => JsonV::Text(call.id), "type"@ => JsonV::Text("function"@),
            "function"@ => JsonV::Object(
            map!["name"@ => JsonV::Text(call.name),
                "arguments"@ => JsonV::Text(call.input.raw)],
        )],
    )
}

/// Encodes one assistant tool call for replay.
pub fn encode_tool_call(call: &ToolCall) -> (r: Json)
    ensures
        r@ == call_json(call@),
{
    let mut function: JsonObject = JsonObject::new();
    function.insert("name", Json::text(call.name.as_str()));
    function.insert("arguments", Json::Text(wire_arguments(call)));
    let mut object: JsonObject = JsonObject::new();
    object.insert("id", Json::text(call.id.as_str()));
    object.insert("type", Json::text("function"));
    object.insert("function", Json::Object(function));
    Json::Object(object)
}

/// An image as an `image_url` part.
pub open spec fn image_json(source: SourceV, detail: Option<Seq<char>>) -> JsonV {
    JsonV::Object(
        map!["type"@ => JsonV::Text("image_url"@),
            "image_url"@ => JsonV::Object(
            with_member(
                map!["url"@ => JsonV::Text(source_url(source))],
                "detail"@,
                match detail {
                    Some(detail) => Some(JsonV::Text(detail)),
                    None => None,
                },
            ),
        )],
    )
}

/// Encodes an image as the `image_url` part this protocol uses for both
/// sources.
pub fn encode_image(image: &ImageContent) -> (r: Json)
    ensures
        r@ == image_json(image.source@, string_opt(image.detail)),
{
    let mut url: JsonObject = JsonObject::new();
    url.insert("url", Json::Text(data_url(&image.source)));
    if let Some(detail) = &image.detail {
        url.insert("detail", Json::text(detail.as_str()));
    }
    let mut object: JsonObject = JsonObject::new();
    object.insert("type", Json::text("image_url"));
    object.insert("image_url", Json::Object(url));
    Json::Object(object)
}

/// The text a part shows inside a message.
pub open spec fn shown_text(part: PartV) -> Option<Seq<char>> {
    match part {
        PartV::Text { text } => Some(text),
        PartV::Json { value } => Some(printed(value)),
        _ => None,
    }
}

/// A content part this protocol carries inside a message. Audio and documents
/// have no form here, and the other kinds are message fields.
pub open spec fn content_json(part: PartV) -> Option<JsonV> {
    match part {
        PartV::Image { source, detail } => Some(image_json(source, detail)),
        _ => match shown_text(part) {
            Some(text) => Some(
                JsonV::Object(
                    map!["type"@ => JsonV::Text("text"@), "text"@ => JsonV::Text(text)],
                ),
            ),
            None => None,
        },
    }
}

/// Encodes the content parts this protocol carries inside a message.
pub fn encode_content_part(part: &ContentPart) -> (r: Option<Json>)
    ensures
        owned_model_opt(r) == content_json(part@),
{
    let text: String = match part {
        ContentPart::Text { text } => text.as_str().to_owned(),
        ContentPart::Json { value } => print(value),
        ContentPart::Image(image) => {
            return Some(encode_image(image));
        },
        _ => {
            return None;
        },
    };
    let mut object: JsonObject = JsonObject::new();
    object.insert("type", Json::text("text"));
    object.insert("text", Json::Text(text));
    Some(Json::Object(object))
}

/// The content parts of a message, in order.
pub open spec fn content_list(content: Seq<PartV>) -> Seq<JsonV>
    decreases content.len(),
{
    if content.len() == 0 {
        Seq::empty()
    } else {
        match content_json(content.last()) {
            Some(part) => content_list(content.drop_last()).push(part),
            None => content_list(content.drop_last()),
        }
    }
}

/// The texts a message shows, one after the other.
pub open spec fn shown_texts(content: Seq<PartV>) -> Seq<char>
    decreases content.len(),
{
    if content.len() == 0 {
        Seq::empty()
    } else {
        match shown_text(content.last()) {
            Some(text) => shown_texts(content.drop_last()) + text,
            None => shown_texts(content.drop_last()),
        }
    }
}

/// Whether a message holds an image.
pub open spec fn has_image(content: Seq<PartV>) -> bool
    decreases content.len(),
{
    content.len() > 0 && (content.last() is Image || has_image(content.drop_last()))
}

/// The content member of a message: nothing without content parts, a plain
/// text where every part is text, and the array of parts otherwise.
pub open spec fn content_value(content: Seq<PartV>) -> Option<JsonV> {
    if content_list(content).len() == 0 {
        None
    } else if has_image(content) {
        Some(JsonV::Array(content_list(content)))
    } else {
        Some(JsonV::Text(shown_texts(content)))
    }
}

/// Encodes the content member of a message.
///
/// Text-only content uses the plain string form every provider accepts, and a
/// message with no encodable part omits the member.
fn encode_content(content: &Vec<ContentPart>) -> (r: Option<Json>)
    ensures
        owned_model_opt(r) == content_value(parts(content@)),
{
    let mut list: Vec<Json> = Vec::new();
    let mut text: String = String::new();
    let mut image: bool = false;
    let mut i: usize = 0;
    proof {
        lemma_ends(parts(content@));
        assert(models(list@) =~= Seq::<JsonV>::empty());
    }
    while i < content.len()
        invariant
            i <= content.len(),
            models(list@) == content_list(parts(content@).take(i as int)),
            text@ == shown_texts(parts(content@).take(i as int)),
            image == has_image(parts(content@).take(i as int)),
        decreases content.len() - i,
    {
        proof {
            lemma_take(parts(content@), i as int);
        }
        match &content[i] {
            ContentPart::Text { text: shown } => text.append(shown.as_str()),
            ContentPart::Json { value } => text.append(print(value).as_str()),
            ContentPart::Image(_) => {
                image = true;
            },
            _ => {},
        }
        if let Some(part) = encode_content_part(&content[i]) {
            let ghost before = list@;
            list.push(part);
            assert(models(list@) =~= models(before).push(part@));
        }
        i = i + 1;
    }
    proof {
        lemma_ends(parts(content@));
    }
    if list.len() == 0 {
        None
    } else if image {
        Some(Json::Array(list))
    } else {
        Some(Json::Text(text))
    }
}

/// The tool calls of a message, in order.
pub open spec fn call_list(content: Seq<PartV>) -> Seq<JsonV>
    decreases content.len(),
{
    if content.len() == 0 {
        Seq::empty()
    } else {
        match content.last() {
            PartV::ToolCall(call) => call_list(content.drop_last()).push(call_json(call)),
            _ => call_list(content.drop_last()),
        }
    }
}

/// The tool results of a message, in order.
pub open spec fn result_list(content: Seq<PartV>) -> Seq<JsonV>
    decreases content.len(),
{
    if content.len() == 0 {
        Seq::empty()
    } else {
        match content.last() {
            PartV::ToolResult(result) => result_list(content.drop_last()).push(
                result_message(result),
            ),
            _ => result_list(content.drop_last()),
        }
    }
}

/// The reasoning of a message, one part after the other, or nothing without a
/// readable part.
pub open spec fn reasoning_value(content: Seq<PartV>) -> Option<Seq<char>>
    decreases content.len(),
{
    if content.len() == 0 {
        None
    } else {
        let rest = reasoning_value(content.drop_last());
        match content.last() {
            PartV::Reasoning(reasoning) if !reasoning.redacted => Some(
                match rest {
                    Some(text) => text + reasoning.text,
                    None => reasoning.text,
                },
            ),
            _ => rest,
        }
    }
}

/// A message with each opaque part of this dialect in the field it names.
pub open spec fn replayed(
    message: Map<Seq<char>, JsonV>,
    content: Seq<PartV>,
) -> Map<Seq<char>, JsonV>
    decreases content.len(),
{
    if content.len() == 0 {
        message
    } else {
        let rest = replayed(message, content.drop_last());
        match content.last() {
            PartV::Opaque { kind, data } if OPAQUE_PREFIX@.is_prefix_of(kind) => rest.insert(
                kind.skip(OPAQUE_PREFIX@.len() as int),
                data,
            ),
            _ => rest,
        }
    }
}

/// A non-empty list as an array.
pub open spec fn array_value(list: Seq<JsonV>) -> Option<JsonV> {
    if list.len() > 0 {
        Some(JsonV::Array(list))
    } else {
        None
    }
}

/// An optional text as a value.
pub open spec fn text_value(text: Option<Seq<char>>) -> Option<JsonV> {
    match text {
        Some(text) => Some(JsonV::Text(text)),
        None => None,
    }
}

/// One system, developer, user, or assistant message on the wire.
pub open spec fn chat_message(message: MessageV) -> JsonV {
    let object = map!["role"@ => JsonV::Text(wire_role(message.role))];
    let object = with_member(object, "content"@, content_value(message.content));
    let object = with_member(object, "name"@, text_value(message.name));
    let object = with_member(object, "tool_calls"@, array_value(call_list(message.content)));
    let object = with_member(
        object,
        "reasoning_content"@,
        text_value(reasoning_value(message.content)),
    );
    JsonV::Object(replayed(object, message.content))
}

/// Encodes the tool calls and the reasoning of a message.
fn encode_fields(content: &Vec<ContentPart>) -> (r: (Vec<Json>, Option<String>))
    ensures
        models(r.0@) == call_list(parts(content@)),
        string_opt(r.1) == reasoning_value(parts(content@)),
{
    let mut calls: Vec<Json> = Vec::new();
    let mut reasoning: Option<String> = None;
    let mut i: usize = 0;
    proof {
        lemma_ends(parts(content@));
        assert(models(calls@) =~= Seq::<JsonV>::empty());
    }
    while i < content.len()
        invariant
            i <= content.len(),
            models(calls@) == call_list(parts(content@).take(i as int)),
            string_opt(reasoning) == reasoning_value(parts(content@).take(i as int)),
        decreases content.len() - i,
    {
        proof {
            lemma_take(parts(content@), i as int);
        }
        match &content[i] {
            ContentPart::ToolCall(call) => {
                let ghost before = calls@;
                let encoded: Json = encode_tool_call(call);
                calls.push(encoded);
                assert(models(calls@) =~= models(before).push(encoded@));
            },
            ContentPart::Reasoning(part) => {
                if !part.redacted {
                    reasoning =
                    match reasoning {
                        Some(text) => {
                            let mut text: String = text;
                            text.append(part.text.as_str());
                            Some(text)
                        },
                        None => Some(part.text.as_str().to_owned()),
                    };
                }
            },
            _ => {},
        }
        i = i + 1;
    }
    proof {
        lemma_ends(parts(content@));
    }
    (calls, reasoning)
}

/// Replays the opaque parts of this dialect into the fields they name.
fn replay(object: &mut JsonObject, content: &Vec<ContentPart>)
    ensures
        final(object)@ == replayed(old(object)@, parts(content@)),
{
    let ghost before = object@;
    let mut i: usize = 0;
    proof {
        lemma_ends(parts(content@));
    }
    while i < content.len()
        invariant
            i <= content.len(),
            object@ == replayed(before, parts(content@).take(i as int)),
        decreases content.len() - i,
    {
        proof {
            lemma_take(parts(content@), i as int);
        }
        if let ContentPart::Opaque { kind, data } = &content[i] {
            if starts_with(kind.as_str(), OPAQUE_PREFIX) {
                object.insert(after_prefix(kind.as_str(), OPAQUE_PREFIX), data.copy());
            }
        }
        i = i + 1;
    }
    proof {
        lemma_ends(parts(content@));
    }
}

/// Encodes one system, developer, user, or assistant message.
///
/// The assistant's own reasoning is replayed, its parts unseparated, and an
/// opaque part of this dialect replays into the message field it names.
pub fn encode_chat_message(message: &Message) -> (r: Json)
    ensures
        r@ == chat_message(message@),
{
    let mut object: JsonObject = JsonObject::new();
    object.insert("role", Json::text(role_name(message.role)));
    if let Some(content) = encode_content(&message.content) {
        object.insert("content", content);
    }
    if let Some(name) = &message.name {
        object.insert("name", Json::text(name.as_str()));
    }
    let (calls, reasoning) = encode_fields(&message.content);
    if calls.len() > 0 {
        object.insert("tool_calls", Json::Array(calls));
    }
    if let Some(reasoning) = reasoning {
        object.insert("reasoning_content", Json::Text(reasoning));
    }
    replay(&mut object, &message.content);
    Json::Object(object)
}

/// A tool message whose result was flattened into plain text.
pub open spec fn flat_result(message: MessageV) -> JsonV {
    JsonV::Object(
        with_member(
            map!["role"@ => JsonV::Text("tool"@),
                "content"@ => JsonV::Text(plain(message.content))],
            "tool_call_id"@,
            text_value(message.tool_call_id),
        ),
    )
}

/// The wire messages one canonical message produces. A tool result is its own
/// wire message, so a message with several results expands into several.
pub open spec fn message_values(message: MessageV) -> Seq<JsonV> {
    let results = result_list(message.content);
    if message.role == Role::Tool {
        if results.len() > 0 {
            results
        } else {
            seq![flat_result(message)]
        }
    } else {
        seq![chat_message(message)] + results
    }
}

/// Encodes one canonical message into the wire messages it produces.
pub fn encode_message(message: &Message) -> (r: Vec<Json>)
    ensures
        models(r@) == message_values(message@),
{
    let content: &Vec<ContentPart> = &message.content;
    let mut results: Vec<Json> = Vec::new();
    let mut i: usize = 0;
    proof {
        lemma_ends(parts(content@));
        assert(models(results@) =~= Seq::<JsonV>::empty());
    }
    while i < content.len()
        invariant
            i <= content.len(),
            models(results@) == result_list(parts(content@).take(i as int)),
        decreases content.len() - i,
    {
        proof {
            lemma_take(parts(content@), i as int);
        }
        if let ContentPart::ToolResult(result) = &content[i] {
            let ghost before = results@;
            let encoded: Json = encode_tool_result(result);
            results.push(encoded);
            assert(models(results@) =~= models(before).push(encoded@));
        }
        i = i + 1;
    }
    proof {
        lemma_ends(parts(content@));
    }
    if message.role == Role::Tool {
        if results.len() > 0 {
            return results;
        }
        let mut object: JsonObject = JsonObject::new();
        object.insert("role", Json::text("tool"));
        object.insert("content", Json::Text(plain_text(content)));
        if let Some(id) = &message.tool_call_id {
            object.insert("tool_call_id", Json::text(id.as_str()));
        }
        let mut list: Vec<Json> = Vec::new();
        list.push(Json::Object(object));
        assert(models(list@) =~= seq![flat_result(message@)]);
        return list;
    }
    let ghost held = models(results@);
    let mut list: Vec<Json> = Vec::new();
    list.push(encode_chat_message(message));
    list.append(&mut results);
    assert(models(list@) =~= seq![chat_message(message@)] + held);
    list
}

/// The wire messages of a conversation, in order.
pub open spec fn conversation(list: Seq<MessageV>) -> Seq<JsonV>
    decreases list.len(),
{
    if list.len() == 0 {
        Seq::empty()
    } else {
        conversation(list.drop_last()) + message_values(list.last())
    }
}

/// Encodes the messages of a conversation.
pub fn encode_messages(list: &Vec<Message>) -> (r: Vec<Json>)
    ensures
        models(r@) == conversation(messages(list@)),
{
    let mut encoded: Vec<Json> = Vec::new();
    let mut i: usize = 0;
    proof {
        lemma_ends(messages(list@));
        assert(models(encoded@) =~= Seq::<JsonV>::empty());
    }
    while i < list.len()
        invariant
            i <= list.len(),
            models(encoded@) == conversation(messages(list@).take(i as int)),
        decreases list.len() - i,
    {
        proof {
            lemma_take(messages(list@), i as int);
        }
        let ghost before = models(encoded@);
        let mut more: Vec<Json> = encode_message(&list[i]);
        let ghost added = models(more@);
        encoded.append(&mut more);
        assert(models(encoded@) =~= before + added);
        i = i + 1;
    }
    proof {
        lemma_ends(messages(list@));
    }
    encoded
}

/// One function tool definition. A custom tool has no form here.
pub open spec fn tool_value(tool: ToolV) -> Option<JsonV> {
    match tool.kind {
        ToolKindV::Function { input_schema } => Some(
            JsonV::Object(
                map!["type"@ => JsonV::Text("function"@),
                    "function"@ => JsonV::Object(
                    map!["name"@ => JsonV::Text(tool.name),
                        "description"@ => JsonV::Text(tool.description),
                        "parameters"@ => input_schema],
                )],
            ),
        ),
        ToolKindV::Custom { .. } => None,
    }
}

/// Encodes one function tool definition.
///
/// A custom tool has no representation here and is refused before this runs,
/// so it is never downgraded.
pub fn encode_tool(tool: &ToolDefinition) -> (r: Option<Json>)
    ensures
        owned_model_opt(r) == tool_value(tool@),
{
    match &tool.kind {
        ToolDefinitionKind::Function { input_schema } => {
            let mut function: JsonObject = JsonObject::new();
            function.insert("name", Json::text(tool.name.as_str()));
            function.insert("description", Json::text(tool.description.as_str()));
            function.insert("parameters", input_schema.copy());
            let mut object: JsonObject = JsonObject::new();
            object.insert("type", Json::text("function"));
            object.insert("function", Json::Object(function));
            Some(Json::Object(object))
        },
        ToolDefinitionKind::Custom { .. } => None,
    }
}

/// The function tools of a request, in order.
pub open spec fn tool_list(list: Seq<ToolV>) -> Seq<JsonV>
    decreases list.len(),
{
    if list.len() == 0 {
        Seq::empty()
    } else {
        match tool_value(list.last()) {
            Some(tool) => tool_list(list.drop_last()).push(tool),
            None => tool_list(list.drop_last()),
        }
    }
}

/// Encodes the function tools of a request.
pub fn encode_tools(list: &Vec<ToolDefinition>) -> (r: Vec<Json>)
    ensures
        models(r@) == tool_list(tools(list@)),
{
    let mut encoded: Vec<Json> = Vec::new();
    let mut i: usize = 0;
    proof {
        lemma_ends(tools(list@));
        assert(models(encoded@) =~= Seq::<JsonV>::empty());
    }
    while i < list.len()
        invariant
            i <= list.len(),
            models(encoded@) == tool_list(tools(list@).take(i as int)),
        decreases list.len() - i,
    {
        proof {
            lemma_take(tools(list@), i as int);
        }
        if let Some(tool) = encode_tool(&list[i]) {
            let ghost before = encoded@;
            encoded.push(tool);
            assert(models(encoded@) =~= models(before).push(tool@));
        }
        i = i + 1;
    }
    proof {
        lemma_ends(tools(list@));
    }
    encoded
}

/// The tool selection, on the wire.
pub open spec fn choice_json(choice: ChoiceV) -> JsonV {
    match choice {
        ChoiceV::Auto => JsonV::Text("auto"@),
        ChoiceV::Never => JsonV::Text("none"@),
        ChoiceV::Required => JsonV::Text("required"@),
        ChoiceV::Tool { name } => JsonV::Object(
            map!["type"@ => JsonV::Text("function"@),
                "function"@ => single("name"@, JsonV::Text(name))],
        ),
    }
}

/// Encodes the tool selection mode.
pub fn encode_tool_choice(choice: &ToolChoice) -> (r: Json)
    ensures
        r@ == choice_json(choice@),
{
    match choice {
        ToolChoice::Auto => Json::text("auto"),
        ToolChoice::Never => Json::text("none"),
        ToolChoice::Required => Json::text("required"),
        ToolChoice::Tool { name } => {
            let mut object: JsonObject = JsonObject::new();
            object.insert("type", Json::text("function"));
            object.insert("function", object1("name", Json::text(name.as_str())));
            Json::Object(object)
        },
    }
}

/// The requested response shape, on the wire.
pub open spec fn format_json(format: FormatV) -> JsonV {
    match format {
        FormatV::Text => single("type"@, JsonV::Text("text"@)),
        FormatV::JsonObject => single("type"@, JsonV::Text("json_object"@)),
        FormatV::JsonSchema { name, schema } => JsonV::Object(
            map!["type"@ => JsonV::Text("json_schema"@),
                "json_schema"@ => JsonV::Object(
                map!["name"@ => JsonV::Text(name), "schema"@ => schema,
                    "strict"@ => JsonV::Bool(true)],
            )],
        ),
    }
}

/// Encodes the requested response shape.
pub fn encode_response_format(format: &ResponseFormat) -> (r: Json)
    ensures
        r@ == format_json(format@),
{
    match format {
        ResponseFormat::Text => object1("type", Json::text("text")),
        ResponseFormat::JsonObject => object1("type", Json::text("json_object")),
        ResponseFormat::JsonSchema { name, schema } => {
            let mut shape: JsonObject = JsonObject::new();
            shape.insert("name", Json::text(name.as_str()));
            shape.insert("schema", schema.copy());
            shape.insert("strict", Json::Bool(true));
            let mut object: JsonObject = JsonObject::new();
            object.insert("type", Json::text("json_schema"));
            object.insert("json_schema", Json::Object(shape));
            Json::Object(object)
        },
    }
}

} // verus!
