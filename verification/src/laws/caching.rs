//! Laws of prompt caching: which key a request is routed by, what that key
//! covers, and where breakpoints stand.

use vstd::prelude::*;

use super::chat_requests::plain_attachments;
use super::gemini_requests::functions_alone;
use super::keys::lemma_keys;
use super::requests::untouched;
use super::responses_requests::sendable;
use crate::envelope::envelope;
use crate::envelope::envelopes;
use crate::envelope::message_envelope;
use crate::json::JsonV;
use crate::openai;
use crate::openai_chat;
use crate::openai_chat::encode::leading;
use crate::openai_chat::encode::marked;
use crate::openai_chat::encode::marked_content;
use crate::openai_chat::encode::marked_message;
use crate::openai_chat::encode::previous_turn;
use crate::openai_chat::encode::turn_before;
use crate::options::cache_prefix;
use crate::options::control_values;
use crate::options::fingerprint;
use crate::options::fnv;
use crate::options::instruction_forms;
use crate::options::route_options;
use crate::serial::printed;
use crate::text::hex;
use crate::types::HintV;
use crate::types::MessageV;
use crate::types::PartV;
use crate::types::RequestV;
use crate::types::Role;
use crate::types::RouteV;
use crate::types::SourceV;
use crate::types::ToolCallKind;
use crate::types::ToolKindV;
use crate::types::ToolV;

verus! {

broadcast use {vstd::seq::group_seq_axioms, vstd::map::group_map_axioms};

/// A text, or null, as a member.
pub open spec fn held_text(value: Option<JsonV>, text: Option<Seq<char>>) -> bool {
    match text {
        Some(text) => value == Some(JsonV::Text(text)),
        None => value == Some(JsonV::Null),
    }
}

/// Whether a member holds a media source.
pub open spec fn held_source(entry: JsonV, source: SourceV) -> bool {
    match source {
        SourceV::Base64 { data, media_type } => entry.get2("source"@, "data"@) == Some(
            JsonV::Text(data),
        ) && entry.get2("source"@, "media_type"@) == Some(JsonV::Text(media_type)),
        SourceV::Url { url, media_type } => entry.get2("source"@, "url"@) == Some(JsonV::Text(url))
            && held_text(entry.get2("source"@, "media_type"@), media_type),
    }
}

/// Whether an entry is the JSON form of a part, with everything it holds.
pub open spec fn forms(entry: JsonV, part: PartV) -> bool {
    match part {
        PartV::Text { text } => entry.text_at("type"@) == Some("text"@) && entry.text_at("text"@)
            == Some(text),
        PartV::Json { value } => entry.text_at("type"@) == Some("json"@) && entry.get("value"@)
            == Some(value),
        PartV::Image { source, detail } => entry.text_at("type"@) == Some("image"@) && held_source(
            entry,
            source,
        ) && held_text(entry.get("detail"@), detail),
        PartV::Audio { source } => entry.text_at("type"@) == Some("audio"@) && held_source(
            entry,
            source,
        ),
        PartV::Document { source, name } => entry.text_at("type"@) == Some("document"@)
            && held_source(entry, source) && held_text(entry.get("name"@), name),
        PartV::Reasoning(reasoning) => {
            &&& entry.text_at("type"@) == Some("reasoning"@)
            &&& entry.text_at("text"@) == Some(reasoning.text)
            &&& held_text(entry.get("signature"@), reasoning.signature)
            &&& held_text(entry.get("signature_origin"@), reasoning.signature_origin)
            &&& entry.truth_at("redacted"@) == Some(reasoning.redacted)
        },
        PartV::ToolCall(call) => {
            &&& entry.text_at("type"@) == Some("tool_call"@)
            &&& entry.text_at("id"@) == Some(call.id)
            &&& entry.text_at("name"@) == Some(call.name)
            &&& entry.truth_at("custom"@) == Some(call.input.kind == ToolCallKind::Custom)
            &&& entry.text_at("input"@) == Some(call.input.raw)
            &&& entry.get("provider_metadata"@) == Some(JsonV::Object(call.provider_metadata))
        },
        PartV::ToolResult(result) => {
            &&& entry.text_at("type"@) == Some("tool_result"@)
            &&& entry.text_at("tool_call_id"@) == Some(result.tool_call_id)
            &&& held_text(entry.get("name"@), result.name)
            &&& entry.truth_at("is_error"@) == Some(result.is_error)
            &&& entry.items_at("content"@).len() == result.content.len()
        },
        PartV::Opaque { kind, data } => entry.text_at("type"@) == Some("opaque"@) && entry.text_at(
            "kind"@,
        ) == Some(kind) && entry.get("data"@) == Some(data),
        PartV::Unknown(value) => entry == value,
    }
}

proof fn lemma_form_keys()
    ensures
        "type"@.len() == 4 && "type"@[1] == 'y',
        "text"@.len() == 4 && "text"@[1] == 'e',
        "name"@.len() == 4 && "name"@[1] == 'a' && "name"@[0] == 'n',
        "kind"@.len() == 4 && "kind"@[1] == 'i',
        "data"@.len() == 4 && "data"@[1] == 'a' && "data"@[0] == 'd',
        "role"@.len() == 4 && "role"@[1] == 'o',
        "url"@.len() == 3,
        "id"@.len() == 2,
        "value"@.len() == 5 && "value"@[0] == 'v',
        "input"@.len() == 5 && "input"@[0] == 'i',
        "detail"@.len() == 6 && "detail"@[0] == 'd',
        "source"@.len() == 6 && "source"@[0] == 's',
        "custom"@.len() == 6 && "custom"@[0] == 'c',
        "format"@.len() == 6 && "format"@[0] == 'f',
        "content"@.len() == 7,
        "is_error"@.len() == 8 && "is_error"@[0] == 'i',
        "redacted"@.len() == 8 && "redacted"@[0] == 'r',
        "signature"@.len() == 9,
        "media_type"@.len() == 10,
        "description"@.len() == 11,
        "tool_call_id"@.len() == 12 && "tool_call_id"@[0] == 't',
        "input_schema"@.len() == 12 && "input_schema"@[0] == 'i',
        "signature_origin"@.len() == 16,
        "provider_metadata"@.len() == 17,
{
    reveal_strlit("type");
    reveal_strlit("text");
    reveal_strlit("name");
    reveal_strlit("kind");
    reveal_strlit("data");
    reveal_strlit("role");
    reveal_strlit("url");
    reveal_strlit("id");
    reveal_strlit("value");
    reveal_strlit("input");
    reveal_strlit("detail");
    reveal_strlit("source");
    reveal_strlit("custom");
    reveal_strlit("format");
    reveal_strlit("content");
    reveal_strlit("is_error");
    reveal_strlit("redacted");
    reveal_strlit("signature");
    reveal_strlit("media_type");
    reveal_strlit("description");
    reveal_strlit("tool_call_id");
    reveal_strlit("input_schema");
    reveal_strlit("signature_origin");
    reveal_strlit("provider_metadata");
}

/// The JSON form of a part holds everything the part holds.
pub proof fn law_forms_hold_their_part(part: PartV)
    ensures
        forms(envelope(part), part),
{
    lemma_form_keys();
}

/// Whether an entry is the JSON form of a message: its role, its name, and
/// each of its parts, in order.
pub open spec fn forms_message(entry: JsonV, message: MessageV) -> bool {
    let list = entry.items_at("content"@);
    &&& entry.text_at("role"@) == Some(
        match message.role {
            Role::System => "system"@,
            Role::Developer => "developer"@,
            Role::User => "user"@,
            Role::Assistant => "assistant"@,
            Role::Tool => "tool"@,
        },
    )
    &&& held_text(entry.get("name"@), message.name)
    &&& held_text(entry.get("tool_call_id"@), message.tool_call_id)
    &&& list.len() == message.content.len()
    &&& forall|i: int| 0 <= i < list.len() ==> forms(#[trigger] list[i], message.content[i])
}

/// Whether an entry is the JSON form of a tool.
pub open spec fn forms_tool(entry: JsonV, tool: ToolV) -> bool {
    &&& entry.text_at("name"@) == Some(tool.name)
    &&& entry.text_at("description"@) == Some(tool.description)
    &&& match tool.kind {
        ToolKindV::Function { input_schema } => entry.get("input_schema"@) == Some(input_schema),
        ToolKindV::Custom { format } => entry.get("format"@) == Some(format),
    }
}

/// The instruction messages of a conversation, in order.
pub open spec fn instructions(list: Seq<MessageV>) -> Seq<MessageV>
    decreases list.len(),
{
    if list.len() == 0 {
        Seq::empty()
    } else if list.last().role == Role::System || list.last().role == Role::Developer {
        instructions(list.drop_last()).push(list.last())
    } else {
        instructions(list.drop_last())
    }
}

proof fn lemma_message_form(message: MessageV)
    ensures
        forms_message(message_envelope(message), message),
{
    lemma_form_keys();
    let list = message_envelope(message).items_at("content"@);
    assert(list == envelopes(message.content));
    assert forall|i: int| 0 <= i < list.len() implies forms(
        #[trigger] list[i],
        message.content[i],
    ) by {
        law_forms_hold_their_part(message.content[i]);
    }
}

proof fn lemma_instruction_forms(list: Seq<MessageV>)
    ensures
        instruction_forms(list).len() == instructions(list).len(),
        forall|i: int|
            0 <= i < instructions(list).len() ==> forms_message(
                #[trigger] instruction_forms(list)[i],
                instructions(list)[i],
            ),
    decreases list.len(),
{
    if list.len() > 0 {
        let fewer = list.drop_last();
        lemma_instruction_forms(fewer);
        lemma_message_form(list.last());
        assert forall|i: int| 0 <= i < instructions(list).len() implies forms_message(
            #[trigger] instruction_forms(list)[i],
            instructions(list)[i],
        ) by {
            if i < instructions(fewer).len() {
                assert(instruction_forms(list)[i] == instruction_forms(fewer)[i]);
            }
        }
    }
}

/// Whether a document covers what a request's prompt cache keys on: every
/// instruction message and every tool, whole and in order.
pub open spec fn covers(prefix: JsonV, request: RequestV) -> bool {
    let system = prefix.items_at("system"@);
    let tools = prefix.items_at("tools"@);
    &&& system.len() == instructions(request.messages).len()
    &&& forall|i: int|
        0 <= i < system.len() ==> forms_message(
            #[trigger] system[i],
            instructions(request.messages)[i],
        )
    &&& tools.len() == request.tools.len()
    &&& forall|i: int| 0 <= i < tools.len() ==> forms_tool(#[trigger] tools[i], request.tools[i])
}

/// The fingerprint of a request is the hash of a document that covers all its
/// instructions and all its tools.
pub proof fn law_the_fingerprint_covers_the_prefix(request: RequestV)
    ensures
        exists|prefix: JsonV| #[trigger]
            covers(prefix, request) && fingerprint(request) == "lithos-"@ + hex(
                fnv(vstd::utf8::encode_utf8(printed(prefix))) as nat,
                16,
            ),
{
    lemma_form_keys();
    reveal_strlit("system");
    reveal_strlit("tools");
    assert("system"@.len() == 6 && "tools"@.len() == 5);
    let prefix = cache_prefix(request);
    lemma_instruction_forms(request.messages);
    assert(covers(prefix, request));
}

/// The hash starts at its offset, and each byte is mixed in and multiplied.
pub proof fn law_the_hash_mixes_each_byte(bytes: Seq<u8>, byte: u8)
    ensures
        fnv(Seq::empty()) == 0xcbf2_9ce4_8422_2325u64,
        fnv(bytes.push(byte)) == (fnv(bytes) ^ (byte as u64)).wrapping_mul(
            0x0000_0100_0000_01b3u64,
        ),
{
    assert(bytes.push(byte).drop_last() =~= bytes);
}

/// Whether a routing key is the one a request is sent with: none where the
/// model takes none or the caller forbids one, the caller's own key, and
/// otherwise the fingerprint of the prefix, where the model caches.
pub open spec fn routed(key: Option<JsonV>, request: RequestV, route: RouteV, auto: bool) -> bool {
    if !route.cache_routing {
        key is None
    } else {
        match request.cache_hint {
            Some(HintV::Disabled) => key is None,
            Some(HintV::Key { key: own }) => key == Some(JsonV::Text(own)),
            _ => if auto && route.caching {
                key == Some(JsonV::Text(fingerprint(request)))
            } else {
                key is None
            },
        }
    }
}

/// The key a request is routed by is sent. Automatic keys are on, unless an
/// option turns them off.
pub proof fn law_requests_are_routed(
    request: RequestV,
    route: RouteV,
    stream: bool,
    mode: bool,
    auto: bool,
)
    requires
        functions_alone(request),
        plain_attachments(request.messages),
        sendable(request.messages),
        untouched(request, route, "prompt_cache_key"@),
        !route.default_options.contains_key("auto_cache"@),
        JsonV::Object(request.provider_options).get2(route.provider, "auto_cache"@) == (if auto {
            None
        } else {
            Some(JsonV::Bool(false))
        }),
    ensures
        routed(
            super::chat_requests::sent_body(request, route, stream, mode).get("prompt_cache_key"@),
            request,
            route,
            auto,
        ),
        routed(
            super::responses_requests::sent_body(request, route, mode, stream).get(
                "prompt_cache_key"@,
            ),
            request,
            route,
            auto,
        ),
{
    lemma_keys();
    reveal_with_fuel(crate::options::overlay, 2);
    let options = route_options(request, route);
    assert(control_values(options).auto_cache == auto);
    super::chat_requests::lemma_sent(request, route, stream, mode, "prompt_cache_key"@);
    super::responses_requests::law_responses_refuses_what_it_cannot_carry(
        request,
        route,
        mode,
        stream,
    );
    lemma_responses_key(request, route, mode, stream);
}

proof fn lemma_responses_key(request: RequestV, route: RouteV, codex: bool, stream: bool)
    requires
        untouched(request, route, "prompt_cache_key"@),
    ensures
        JsonV::Object(openai::full_body(request, route, codex, stream)).get("prompt_cache_key"@)
            == crate::gemini::encode::text_value(
            crate::options::routing_key(
                request,
                route,
                control_values(route_options(request, route)),
            ),
        ),
{
    lemma_keys();
    let typed = openai::encode::typed_body(request, route, codex, stream);
    assert(!typed.contains_key("prompt_cache_key"@));
    let keyed = crate::body::with_member(
        typed,
        "prompt_cache_key"@,
        crate::gemini::encode::text_value(
            crate::options::routing_key(
                request,
                route,
                control_values(route_options(request, route)),
            ),
        ),
    );
    super::requests::lemma_untouched(keyed, request, route, "prompt_cache_key"@);
}

/// Whether a wire message carries a breakpoint on its last content part.
pub open spec fn breaks(message: JsonV) -> bool {
    let list = message.items_at("content"@);
    list.len() > 0 && list.last().get2("cache_control"@, "type"@) == Some(
        JsonV::Text("ephemeral"@),
    )
}

/// Whether a wire message can carry a breakpoint: its content is a text, or a
/// list that ends with an object.
pub open spec fn breakable(message: JsonV) -> bool {
    match message.get("content"@) {
        Some(JsonV::Text(_)) => true,
        Some(JsonV::Array(list)) => list.len() > 0 && list.last() is Object,
        _ => false,
    }
}

proof fn lemma_breaks(message: JsonV)
    ensures
        breakable(message) ==> breaks(marked_message(message)) && breakable(
            marked_message(message),
        ),
        message is Object ==> marked_message(message) is Object,
        marked_message(message).get("role"@) == message.get("role"@),
{
    lemma_keys();
    if breakable(message) {
        let content = message.get("content"@)->0;
        assert(marked_message(message).get("content"@) == Some(marked_content(content)));
    }
}

proof fn lemma_leading_run(list: Seq<JsonV>, n: int)
    requires
        0 < n <= list.len(),
        forall|k: int| 0 <= k < n ==> (#[trigger] list[k]).text_at("role"@) == Some("system"@),
        n < list.len() ==> list[n].text_at("role"@) != Some("system"@),
    ensures
        leading(list) == n,
    decreases n,
{
    let rest = list.drop_first();
    reveal_with_fuel(leading, 2);
    assert(list[0].text_at("role"@) == Some("system"@));
    if n > 1 {
        assert forall|k: int| 0 <= k < n - 1 implies (#[trigger] rest[k]).text_at("role"@) == Some(
            "system"@,
        ) by {
            assert(rest[k] == list[k + 1]);
        }
        lemma_leading_run(rest, n - 1);
    } else if rest.len() > 0 {
        assert(rest[0] == list[1]);
    }
}

/// Whether a wire message is a turn of the user: a tool's answer is one too.
pub open spec fn is_turn(message: JsonV) -> bool {
    message.text_at("role"@) == Some("user"@) || message.text_at("role"@) == Some("tool"@)
}

proof fn lemma_turn_found(list: Seq<JsonV>, at: int, end: int)
    requires
        0 <= at < end <= list.len(),
        is_turn(list[at]),
        forall|k: int| at < k < end ==> !is_turn(#[trigger] list[k]),
    ensures
        turn_before(list, end) == Some(at),
    decreases end,
{
    if at < end - 1 {
        assert(!is_turn(list[end - 1]));
        lemma_turn_found(list, at, end - 1);
    }
}

/// Breakpoints mark the last of the leading system messages, and the turn of
/// the user before the last one.
pub proof fn law_breakpoints_mark_the_prefix(list: Seq<JsonV>, n: int, turn: int, last: int)
    requires
        0 <= n <= list.len(),
        forall|k: int| 0 <= k < n ==> (#[trigger] list[k]).text_at("role"@) == Some("system"@),
        n < list.len() ==> list[n].text_at("role"@) != Some("system"@),
        n <= turn < last < list.len(),
        is_turn(list[turn]),
        is_turn(list[last]),
        forall|k: int| turn < k < list.len() && k != last ==> !is_turn(#[trigger] list[k]),
    ensures
        n > 0 && breakable(list[n - 1]) ==> breaks(marked(list)[n - 1]),
        breakable(list[turn]) ==> breaks(marked(list)[turn]),
{
    reveal_strlit("system");
    reveal_strlit("user");
    reveal_strlit("tool");
    assert("system"@.len() == 6 && "user"@.len() == 4 && "tool"@.len() == 4);
    if n > 0 {
        lemma_leading_run(list, n);
        lemma_breaks(list[n - 1]);
    } else {
        assert(leading(list) == 0);
    }
    let first = if n > 0 {
        list.update(n - 1, marked_message(list[n - 1]))
    } else {
        list
    };
    assert forall|k: int| 0 <= k < list.len() implies is_turn(#[trigger] first[k]) == is_turn(
        list[k],
    ) by {
        lemma_breaks(list[k]);
    }
    assert(is_turn(first[turn]) && is_turn(first[last]));
    lemma_turn_found(first, last, first.len() as int);
    lemma_turn_found(first, turn, last);
    assert(previous_turn(first) == Some(turn));
    lemma_breaks(first[turn]);
    assert(marked(list) == first.update(turn, marked_message(first[turn])));
}

/// Breakpoints are placed where the model takes them, and nowhere else.
pub proof fn law_breakpoints_are_asked_for(
    request: RequestV,
    route: RouteV,
    stream: bool,
    at_root: bool,
)
    requires
        functions_alone(request),
        plain_attachments(request.messages),
        untouched(request, route, "messages"@),
        untouched(request, route, "auto_cache"@),
    ensures
        ({
            let sent = super::chat_requests::sent_body(request, route, stream, at_root).items_at(
                "messages"@,
            );
            let plain = openai_chat::encode::conversation(request.messages);
            if route.caching && route.cache_breakpoints {
                sent == marked(plain)
            } else {
                sent == plain
            }
        }),
{
    lemma_keys();
    reveal_with_fuel(crate::options::overlay, 2);
    super::chat_requests::lemma_sent(request, route, stream, at_root, "messages"@);
    assert(control_values(route_options(request, route)).auto_cache);
}

} // verus!
