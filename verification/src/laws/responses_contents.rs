//! Laws of the conversation a Responses request sends: every message, with its
//! text, its media, its calls, its results and its replayed items, once and in
//! order.

use vstd::prelude::*;

use super::keys::lemma_keys;
use super::requests::address;
use super::requests::answers_as;
use super::requests::lemma_answers;
use super::requests::lemma_said;
use super::requests::said;
use super::requests::untouched;
use super::requests::with_message;
use super::responses_requests::lemma_sent;
use super::responses_requests::sendable;
use super::responses_requests::sent_body;
use crate::json::JsonV;
use crate::openai::encode::answers;
use crate::openai::encode::call_item;
use crate::openai::encode::content_item;
use crate::openai::encode::content_items;
use crate::openai::encode::custom_calls;
use crate::openai::encode::custom_calls_in;
use crate::openai::encode::custom_names;
use crate::openai::encode::has_message_item;
use crate::openai::encode::has_result;
use crate::openai::encode::input_list;
use crate::openai::encode::instruction_texts;
use crate::openai::encode::lay;
use crate::openai::encode::lay_all;
use crate::openai::encode::message_item;
use crate::openai::encode::message_items;
use crate::openai::encode::names_some;
use crate::openai::encode::output_item;
use crate::openai::encode::replay_items;
use crate::openai::encode::request_custom;
use crate::serial::printed;
use crate::text::join;
use crate::types::opaque_namespace;
use crate::types::CallV;
use crate::types::MessageV;
use crate::types::PartV;
use crate::types::RequestV;
use crate::types::ResultV;
use crate::types::Role;
use crate::types::RouteV;
use crate::types::SourceV;
use crate::types::ToolCallKind;
use crate::types::ToolV;

verus! {

broadcast use {vstd::seq::group_seq_axioms, vstd::map::group_map_axioms};

/// Whether a message instructs the model.
pub open spec fn instructs(message: MessageV) -> bool {
    message.role == Role::System || message.role == Role::Developer
}

/// Whether a part is an item of this protocol, kept to be replayed.
pub open spec fn kept_item(part: PartV) -> bool {
    part is Opaque && opaque_namespace(part) == Some("openai"@)
}

/// Whether a part is an input item of its own: a kept item, a call of a named
/// tool, or a result.
pub open spec fn is_item(part: PartV) -> bool {
    match part {
        PartV::ToolCall(call) => call.name.len() > 0,
        PartV::ToolResult(_) => true,
        _ => kept_item(part),
    }
}

/// The parts of a message that are input items of their own, in order.
pub open spec fn own_items(content: Seq<PartV>) -> Seq<PartV>
    decreases content.len(),
{
    if content.len() == 0 {
        Seq::empty()
    } else if is_item(content.last()) {
        own_items(content.drop_last()).push(content.last())
    } else {
        own_items(content.drop_last())
    }
}

/// The kept items of a message, in order.
pub open spec fn kept_items(content: Seq<PartV>) -> Seq<PartV>
    decreases content.len(),
{
    if content.len() == 0 {
        Seq::empty()
    } else if kept_item(content.last()) {
        kept_items(content.drop_last()).push(content.last())
    } else {
        kept_items(content.drop_last())
    }
}

/// Whether a message keeps its own message item, which holds its text.
pub open spec fn keeps_text(content: Seq<PartV>) -> bool {
    exists|j: int|
        0 <= j < content.len() && kept_item(#[trigger] content[j])
            && content[j]->data.text_at("type"@) == Some("message"@)
}

/// Whether a part stands inside the message item.
pub open spec fn inside(part: PartV, instruction: bool, kept: bool) -> bool {
    match part {
        PartV::Text { .. } => !kept,
        PartV::Json { .. } => true,
        PartV::Image { .. } => !instruction,
        PartV::Document { .. } => !instruction,
        _ => false,
    }
}

/// The parts of a message that stand inside its message item, in order.
pub open spec fn insides(content: Seq<PartV>, instruction: bool, kept: bool) -> Seq<PartV>
    decreases content.len(),
{
    if content.len() == 0 {
        Seq::empty()
    } else if inside(content.last(), instruction, kept) {
        insides(content.drop_last(), instruction, kept).push(content.last())
    } else {
        insides(content.drop_last(), instruction, kept)
    }
}

/// Whether an entry of a message item carries a part.
pub open spec fn carries_part(entry: JsonV, part: PartV, assistant: bool) -> bool {
    let texts = if assistant {
        "output_text"@
    } else {
        "input_text"@
    };
    match part {
        PartV::Text { text } => entry.text_at("type"@) == Some(texts) && entry.text_at("text"@)
            == Some(text),
        PartV::Json { value } => entry.text_at("type"@) == Some(texts) && entry.text_at("text"@)
            == Some(printed(value)),
        PartV::Image { source, detail } => {
            &&& entry.text_at("type"@) == Some("input_image"@)
            &&& entry.text_at("image_url"@) == Some(address(source))
            &&& entry.text_at("detail"@) == detail
        },
        PartV::Document { source, name } => {
            &&& entry.text_at("type"@) == Some("input_file"@)
            &&& entry.text_at("filename"@) == name
            &&& match source {
                SourceV::Url { url, .. } => entry.text_at("file_url"@) == Some(url) && entry.get(
                    "file_data"@,
                ) is None,
                SourceV::Base64 { .. } => entry.text_at("file_data"@) == Some(address(source))
                    && entry.get("file_url"@) is None,
            }
        },
        _ => false,
    }
}

/// Whether an item is the message item of a message: its role, and one entry
/// for each part inside it, in order.
pub open spec fn carries_message(item: JsonV, message: MessageV, kept: bool) -> bool {
    let parts = insides(message.content, instructs(message), kept);
    let entries = item.items_at("content"@);
    &&& item.text_at("role"@) == Some(
        match message.role {
            Role::System => "system"@,
            Role::Developer => "developer"@,
            Role::User => "user"@,
            Role::Assistant => "assistant"@,
            Role::Tool => "user"@,
        },
    )
    &&& entries.len() == parts.len()
    &&& forall|k: int|
        0 <= k < parts.len() ==> carries_part(
            #[trigger] entries[k],
            parts[k],
            message.role == Role::Assistant,
        )
}

/// Whether a custom call of a request has an id.
pub open spec fn is_custom_call(list: Seq<MessageV>, i: int, j: int, id: Seq<char>) -> bool {
    &&& 0 <= i < list.len()
    &&& 0 <= j < list[i].content.len()
    &&& list[i].content[j] is ToolCall
    &&& list[i].content[j]->ToolCall_0.input.kind == ToolCallKind::Custom
    &&& list[i].content[j]->ToolCall_0.id == id
}

/// Whether an answer is for a custom tool: it answers a custom call of the
/// request, or its label names a custom tool.
pub open spec fn for_custom(request: RequestV, id: Seq<char>, label: Option<Seq<char>>) -> bool {
    ||| exists|i: int, j: int| is_custom_call(request.messages, i, j, id)
    ||| label is Some && exists|t: int|
        0 <= t < request.tools.len() && (#[trigger] request.tools[t]).kind is Custom
            && request.tools[t].name == label->0
}

/// Whether an item answers a call: its id and the text of the answer.
pub open spec fn carries_answer(item: JsonV, id: Seq<char>, custom: bool) -> bool {
    &&& item.text_at("type"@) == Some(
        if custom {
            "custom_tool_call_output"@
        } else {
            "function_call_output"@
        },
    )
    &&& item.text_at("call_id"@) == Some(id)
}

/// Whether an item is a call: its kind, its id, its name and its input, and the
/// item id it was decoded with.
pub open spec fn carries_call(item: JsonV, call: CallV) -> bool {
    let kept = JsonV::Object(call.provider_metadata).get2("openai"@, "item_id"@);
    &&& match call.input.kind {
        ToolCallKind::Function => item.text_at("type"@) == Some("function_call"@) && item.text_at(
            "arguments"@,
        ) == Some(call.input.raw),
        ToolCallKind::Custom => item.text_at("type"@) == Some("custom_tool_call"@) && item.text_at(
            "input"@,
        ) == Some(call.input.raw),
    }
    &&& item.text_at("call_id"@) == Some(call.id)
    &&& item.text_at("name"@) == Some(call.name)
    &&& item.text_at("id"@) == match kept {
        Some(JsonV::Text(id)) => Some(id),
        _ => None,
    }
}

/// Whether an item is the result of a tool, a failure marked where the wire
/// has a mark.
pub open spec fn carries_result(
    item: JsonV,
    result: ResultV,
    message: MessageV,
    request: RequestV,
) -> bool {
    let label = if result.name is Some {
        result.name
    } else {
        message.name
    };
    let custom = for_custom(request, result.tool_call_id, label);
    &&& carries_answer(item, result.tool_call_id, custom)
    &&& item.text_at("output"@) is Some
    &&& answers_as(item.text_at("output"@)->0, result.content, false)
    &&& item.text_at("status"@) == if result.is_error && !custom {
        Some("incomplete"@)
    } else {
        None
    }
}

/// Whether an item is a part of a message.
pub open spec fn carries_item(
    item: JsonV,
    part: PartV,
    message: MessageV,
    request: RequestV,
) -> bool {
    match part {
        PartV::Opaque { data, .. } => item == data,
        PartV::ToolCall(call) => carries_call(item, call),
        PartV::ToolResult(result) => carries_result(item, result, message, request),
        _ => false,
    }
}

/// Whether a message is the answer its label names: a tool message without a
/// result of its own.
pub open spec fn answers_by_label(message: MessageV) -> bool {
    &&& message.role == Role::Tool
    &&& message.tool_call_id is Some
    &&& forall|j: int|
        0 <= j < message.content.len() ==> !(#[trigger] message.content[j] is ToolResult)
}

/// Whether items from a place on are those of one message: its items in order,
/// and one message item that holds the rest.
pub open spec fn sends(items: Seq<JsonV>, at: int, message: MessageV, request: RequestV) -> bool {
    let content = message.content;
    if answers_by_label(message) {
        let kept = kept_items(content);
        let id = message.tool_call_id->0;
        let last = items[at + kept.len()];
        &&& forall|k: int|
            0 <= k < kept.len() ==> items[at + k] == (#[trigger] kept[k])->data
        &&& carries_answer(last, id, for_custom(request, id, message.name))
        &&& last.text_at("output"@) == Some(said(content))
        &&& last.get("status"@) is None
    } else {
        let own = own_items(content);
        let kept = keeps_text(content);
        if insides(content, instructs(message), kept).len() == 0 {
            forall|k: int|
                0 <= k < own.len() ==> carries_item(
                    items[at + k],
                    #[trigger] own[k],
                    message,
                    request,
                )
        } else {
            exists|m: int|
                {
                    &&& 0 <= m <= own.len()
                    &&& #[trigger] carries_message(items[at + m], message, kept)
                    &&& forall|k: int|
                        0 <= k < own.len() ==> carries_item(
                            items[if k < m {
                                at + k
                            } else {
                                at + k + 1
                            }],
                            #[trigger] own[k],
                            message,
                            request,
                        )
                }
        }
    }
}

/// How many items a message is.
pub open spec fn width(message: MessageV) -> nat {
    let content = message.content;
    if answers_by_label(message) {
        kept_items(content).len() + 1
    } else if insides(content, instructs(message), keeps_text(content)).len() == 0 {
        own_items(content).len()
    } else {
        own_items(content).len() + 1
    }
}

/// How many items a conversation is. Codex takes its instructions apart.
pub open spec fn widths(list: Seq<MessageV>, codex: bool) -> nat
    decreases list.len(),
{
    if list.len() == 0 {
        0
    } else if codex && instructs(list.last()) {
        widths(list.drop_last(), codex)
    } else {
        widths(list.drop_last(), codex) + width(list.last())
    }
}

proof fn lemma_kept(content: Seq<PartV>)
    ensures
        replay_items(content).len() == kept_items(content).len(),
        forall|k: int|
            0 <= k < kept_items(content).len() ==> #[trigger] replay_items(content)[k]
                == kept_items(content)[k]->data,
        has_message_item(replay_items(content)) == keeps_text(content),
    decreases content.len(),
{
    if content.len() > 0 {
        let fewer = content.drop_last();
        let n = content.len() - 1;
        lemma_kept(fewer);
        let rest = replay_items(fewer);
        assert forall|k: int| 0 <= k < kept_items(content).len() implies #[trigger] replay_items(
            content,
        )[k] == kept_items(content)[k]->data by {
            if k < rest.len() {
                assert(replay_items(content)[k] == rest[k]);
            }
        }
        if has_message_item(rest) {
            let k = choose|k: int|
                0 <= k < rest.len() && (#[trigger] rest[k]).text_at("type"@) == Some("message"@);
            assert(replay_items(content)[k].text_at("type"@) == Some("message"@));
        }
        if has_message_item(replay_items(content)) {
            let k = choose|k: int|
                0 <= k < replay_items(content).len() && (#[trigger] replay_items(content)[k]).text_at(
                    "type"@,
                ) == Some("message"@);
            if k < rest.len() {
                assert(rest[k].text_at("type"@) == Some("message"@));
            } else {
                assert(kept_item(content[n]));
            }
        }
        if keeps_text(fewer) {
            let j = choose|j: int|
                0 <= j < fewer.len() && kept_item(#[trigger] fewer[j])
                    && fewer[j]->data.text_at("type"@) == Some("message"@);
            assert(kept_item(content[j]));
        }
        if keeps_text(content) {
            let j = choose|j: int|
                0 <= j < content.len() && kept_item(#[trigger] content[j])
                    && content[j]->data.text_at("type"@) == Some("message"@);
            if j < n {
                assert(kept_item(fewer[j]));
            } else {
                assert(replay_items(content)[rest.len() as int].text_at("type"@) == Some(
                    "message"@,
                ));
            }
        }
    }
}

proof fn lemma_insides(content: Seq<PartV>, role: Role, kept: bool)
    ensures
        ({
            let instruction = role == Role::System || role == Role::Developer;
            let parts = insides(content, instruction, kept);
            let entries = content_items(content, role, kept);
            &&& entries.len() == parts.len()
            &&& forall|k: int|
                0 <= k < parts.len() ==> Some(#[trigger] entries[k]) == content_item(
                    parts[k],
                    role,
                    kept,
                ) && inside(parts[k], instruction, kept)
        }),
    decreases content.len(),
{
    if content.len() > 0 {
        let instruction = role == Role::System || role == Role::Developer;
        let fewer = content.drop_last();
        lemma_insides(fewer, role, kept);
        let parts = insides(content, instruction, kept);
        let entries = content_items(content, role, kept);
        let rest = insides(fewer, instruction, kept);
        assert forall|k: int| 0 <= k < parts.len() implies Some(#[trigger] entries[k])
            == content_item(parts[k], role, kept) && inside(parts[k], instruction, kept) by {
            if k < rest.len() {
                assert(entries[k] == content_items(fewer, role, kept)[k]);
            }
        }
    }
}

/// A message item carries its message.
proof fn lemma_message(message: MessageV, kept: bool)
    ensures
        message_item(message, kept) is None <==> insides(
            message.content,
            instructs(message),
            kept,
        ).len() == 0,
        message_item(message, kept) matches Some(item) ==> carries_message(item, message, kept),
{
    lemma_keys();
    lemma_insides(message.content, message.role, kept);
    if let Some(item) = message_item(message, kept) {
        let parts = insides(message.content, instructs(message), kept);
        let entries = item.items_at("content"@);
        assert forall|k: int| 0 <= k < parts.len() implies carries_part(
            #[trigger] entries[k],
            parts[k],
            message.role == Role::Assistant,
        ) by {
            assert(entries[k] == content_items(message.content, message.role, kept)[k]);
        }
    }
}

proof fn lemma_custom_in(content: Seq<PartV>, id: Seq<char>)
    ensures
        custom_calls_in(content).contains(id) <==> exists|j: int|
            0 <= j < content.len() && (#[trigger] content[j]) is ToolCall
                && content[j]->ToolCall_0.input.kind == ToolCallKind::Custom
                && content[j]->ToolCall_0.id == id,
    decreases content.len(),
{
    if content.len() > 0 {
        let fewer = content.drop_last();
        let n = content.len() - 1;
        lemma_custom_in(fewer, id);
        let rest = custom_calls_in(fewer);
        let all = custom_calls_in(content);
        if rest.contains(id) {
            let at = rest.index_of(id);
            assert(all[at] == id);
            let j = choose|j: int|
                0 <= j < fewer.len() && (#[trigger] fewer[j]) is ToolCall
                    && fewer[j]->ToolCall_0.input.kind == ToolCallKind::Custom
                    && fewer[j]->ToolCall_0.id == id;
            assert(content[j] is ToolCall);
        }
        if all.contains(id) && !rest.contains(id) {
            let at = all.index_of(id);
            if at < rest.len() {
                assert(rest[at] == id);
            }
            assert(content[n] is ToolCall);
        }
        if exists|j: int|
            0 <= j < content.len() && (#[trigger] content[j]) is ToolCall
                && content[j]->ToolCall_0.input.kind == ToolCallKind::Custom
                && content[j]->ToolCall_0.id == id {
            let j = choose|j: int|
                0 <= j < content.len() && (#[trigger] content[j]) is ToolCall
                    && content[j]->ToolCall_0.input.kind == ToolCallKind::Custom
                    && content[j]->ToolCall_0.id == id;
            if j < n {
                assert(fewer[j] is ToolCall);
            } else {
                assert(all[rest.len() as int] == id);
            }
        }
    }
}

proof fn lemma_custom_calls(list: Seq<MessageV>, id: Seq<char>)
    ensures
        custom_calls(list).contains(id) <==> exists|i: int, j: int| is_custom_call(list, i, j, id),
    decreases list.len(),
{
    if list.len() > 0 {
        let fewer = list.drop_last();
        let n = list.len() - 1;
        lemma_custom_calls(fewer, id);
        lemma_custom_in(list[n].content, id);
        let rest = custom_calls(fewer);
        let last = custom_calls_in(list[n].content);
        let all = custom_calls(list);
        if rest.contains(id) {
            let at = rest.index_of(id);
            assert(all[at] == id);
            let (i, j) = choose|i: int, j: int| is_custom_call(fewer, i, j, id);
            assert(is_custom_call(list, i, j, id));
        }
        if last.contains(id) {
            let at = last.index_of(id);
            assert(all[rest.len() + at] == id);
            let content = list[n].content;
            let j = choose|j: int|
                0 <= j < content.len() && (#[trigger] content[j]) is ToolCall
                    && content[j]->ToolCall_0.input.kind == ToolCallKind::Custom
                    && content[j]->ToolCall_0.id == id;
            assert(is_custom_call(list, n, j, id));
        }
        if all.contains(id) {
            let at = all.index_of(id);
            if at < rest.len() {
                assert(rest[at] == id);
            } else {
                assert(last[at - rest.len()] == id);
            }
        }
        if exists|i: int, j: int| is_custom_call(list, i, j, id) {
            let (i, j) = choose|i: int, j: int| is_custom_call(list, i, j, id);
            if i < n {
                assert(is_custom_call(fewer, i, j, id));
            } else {
                assert(list[n].content[j] is ToolCall);
            }
        }
    }
}

proof fn lemma_custom_names(list: Seq<ToolV>, name: Seq<char>)
    ensures
        custom_names(list).contains(name) <==> exists|t: int|
            0 <= t < list.len() && (#[trigger] list[t]).kind is Custom && list[t].name == name,
    decreases list.len(),
{
    if list.len() > 0 {
        let fewer = list.drop_last();
        let n = list.len() - 1;
        lemma_custom_names(fewer, name);
        let rest = custom_names(fewer);
        let all = custom_names(list);
        if rest.contains(name) {
            assert(all[rest.index_of(name)] == name);
            let t = choose|t: int|
                0 <= t < fewer.len() && (#[trigger] fewer[t]).kind is Custom && fewer[t].name
                    == name;
            assert(list[t].kind is Custom);
        }
        if all.contains(name) && !rest.contains(name) {
            let at = all.index_of(name);
            if at < rest.len() {
                assert(rest[at] == name);
            }
            assert(list[n].kind is Custom);
        }
        if exists|t: int|
            0 <= t < list.len() && (#[trigger] list[t]).kind is Custom && list[t].name == name {
            let t = choose|t: int|
                0 <= t < list.len() && (#[trigger] list[t]).kind is Custom && list[t].name == name;
            if t < n {
                assert(fewer[t].kind is Custom);
            } else {
                assert(all[rest.len() as int] == name);
            }
        }
    }
}

proof fn lemma_for_custom(request: RequestV, id: Seq<char>, label: Option<Seq<char>>)
    ensures
        (request_custom(request).calls.contains(id) || names_some(
            request_custom(request).names,
            label,
        )) == for_custom(request, id, label),
{
    lemma_custom_calls(request.messages, id);
    if let Some(label) = label {
        lemma_custom_names(request.tools, label);
    }
}

/// What a part lays down carries it.
proof fn lemma_laid(part: PartV, message: MessageV, request: RequestV, laid: Seq<JsonV>, pending: Option<JsonV>, kept: bool)
    ensures
        ({
            let next = lay((laid, pending), part, message, request_custom(request), kept);
            &&& is_item(part) ==> next.1 == pending && next.0.len() == laid.len() + 1
                && next.0.drop_last() == laid && carries_item(
                next.0.last(),
                part,
                message,
                request,
            )
            &&& !is_item(part) ==> next == (laid, pending) || (pending is Some && next == (
                laid.push(pending->0),
                None::<JsonV>,
            ))
            &&& inside(part, instructs(message), kept) && pending is Some ==> next.1 is None
        }),
{
    lemma_keys();
    let custom = request_custom(request);
    match part {
        PartV::ToolResult(result) => {
            let label = if result.name is Some {
                result.name
            } else {
                message.name
            };
            lemma_for_custom(request, result.tool_call_id, label);
            lemma_answers(result, false);
            let item = output_item(
                result.tool_call_id,
                crate::content::result_text(result, false),
                result.is_error,
                answers(custom, result, message),
            );
            assert(carries_result(item, result, message, request));
            assert(laid.push(item).drop_last() =~= laid);
        },
        PartV::ToolCall(call) => {
            assert(laid.push(call_item(call)).drop_last() =~= laid);
        },
        PartV::Opaque { data, .. } => {
            assert(laid.push(data).drop_last() =~= laid);
        },
        _ => {},
    }
}

/// What the parts of a message lay down: their items in order, and the message
/// item at one place among them, where it does not still wait.
proof fn lemma_laid_all(
    pending: Option<JsonV>,
    content: Seq<PartV>,
    message: MessageV,
    request: RequestV,
    kept: bool,
)
    ensures
        ({
            let (laid, waiting) = lay_all(
                pending,
                content,
                message,
                request_custom(request),
                kept,
            );
            let own = own_items(content);
            &&& pending is None ==> waiting is None && laid.len() == own.len() && forall|k: int|
                0 <= k < own.len() ==> carries_item(laid[k], #[trigger] own[k], message, request)
            &&& pending is Some && waiting is Some ==> waiting == pending && laid.len()
                == own.len() && forall|k: int|
                0 <= k < own.len() ==> carries_item(laid[k], #[trigger] own[k], message, request)
            &&& pending is Some && waiting is None ==> placed(
                laid,
                pending->0,
                own,
                message,
                request,
            )
        }),
    decreases content.len(),
{
    if content.len() > 0 {
        let fewer = content.drop_last();
        lemma_laid_all(pending, fewer, message, request, kept);
        let (before, waited) = lay_all(pending, fewer, message, request_custom(request), kept);
        lemma_laid(content.last(), message, request, before, waited, kept);
        let (laid, waiting) = lay_all(pending, content, message, request_custom(request), kept);
        let own = own_items(content);
        let rest = own_items(fewer);
        if is_item(content.last()) {
            assert(laid =~= before.push(laid.last()));
            if waited is None && pending is Some {
                let m = choose|m: int| #[trigger] at_place(
                    before,
                    m,
                    pending->0,
                    rest,
                    message,
                    request,
                );
                assert forall|k: int| 0 <= k < own.len() implies carries_item(
                    laid[if k < m {
                        k
                    } else {
                        k + 1
                    }],
                    #[trigger] own[k],
                    message,
                    request,
                ) by {
                    if k < rest.len() {
                        assert(carries_item(
                            before[if k < m {
                                k
                            } else {
                                k + 1
                            }],
                            rest[k],
                            message,
                            request,
                        ));
                    }
                }
                assert(at_place(laid, m, pending->0, own, message, request));
            } else {
                assert forall|k: int| 0 <= k < own.len() implies carries_item(
                    laid[k],
                    #[trigger] own[k],
                    message,
                    request,
                ) by {
                    if k < rest.len() {
                        assert(carries_item(before[k], rest[k], message, request));
                    }
                }
            }
        } else if pending is Some && waited is Some && waiting is None {
            let m = before.len() as int;
            assert forall|k: int| 0 <= k < own.len() implies carries_item(
                laid[if k < m {
                    k
                } else {
                    k + 1
                }],
                #[trigger] own[k],
                message,
                request,
            ) by {
                assert(carries_item(before[k], rest[k], message, request));
            }
            assert(at_place(laid, m, pending->0, own, message, request));
        }
    }
}

/// Whether the message item stands at a place among the items of its message.
pub open spec fn at_place(
    laid: Seq<JsonV>,
    m: int,
    item: JsonV,
    own: Seq<PartV>,
    message: MessageV,
    request: RequestV,
) -> bool {
    &&& 0 <= m <= own.len()
    &&& laid.len() == own.len() + 1
    &&& laid[m] == item
    &&& forall|k: int|
        0 <= k < own.len() ==> carries_item(
            laid[if k < m {
                k
            } else {
                k + 1
            }],
            #[trigger] own[k],
            message,
            request,
        )
}

/// Whether the message item stands among the items of its message.
pub open spec fn placed(
    laid: Seq<JsonV>,
    item: JsonV,
    own: Seq<PartV>,
    message: MessageV,
    request: RequestV,
) -> bool {
    exists|m: int| #[trigger] at_place(laid, m, item, own, message, request)
}

/// The items of one message carry it.
proof fn lemma_sends(message: MessageV, request: RequestV)
    ensures
        message_items(message, request_custom(request)).len() == width(message),
        sends(message_items(message, request_custom(request)), 0, message, request),
{
    let content = message.content;
    let items = message_items(message, request_custom(request));
    lemma_kept(content);
    if answers_by_label(message) {
        assert(!has_result(content));
        lemma_keys();
        lemma_said(content);
        let id = message.tool_call_id->0;
        lemma_for_custom(request, id, message.name);
        let kept = kept_items(content);
        assert forall|k: int| 0 <= k < kept.len() implies items[0 + k] == (
        #[trigger] kept[k])->data by {
            assert(replay_items(content)[k] == kept[k]->data);
        }
    } else {
        if message.role == Role::Tool && message.tool_call_id is Some {
            let j = choose|j: int|
                0 <= j < content.len() && #[trigger] content[j] is ToolResult;
            assert(has_result(content));
        }
        let kept = keeps_text(content);
        let pending = message_item(message, kept);
        lemma_message(message, kept);
        lemma_laid_all(pending, content, message, request, kept);
        let (laid, waiting) = lay_all(pending, content, message, request_custom(request), kept);
        let own = own_items(content);
        if let Some(item) = pending {
            if waiting is Some {
                let m = own.len() as int;
                assert(items =~= laid.push(item));
                assert(carries_message(items[0 + m], message, kept));
                assert forall|k: int| 0 <= k < own.len() implies carries_item(
                    items[if k < m {
                        0 + k
                    } else {
                        0 + k + 1
                    }],
                    #[trigger] own[k],
                    message,
                    request,
                ) by {
                    assert(carries_item(laid[k], own[k], message, request));
                }
            } else {
                let m = choose|m: int| #[trigger] at_place(laid, m, item, own, message, request);
                assert(carries_message(items[0 + m], message, kept));
                assert forall|k: int| 0 <= k < own.len() implies carries_item(
                    items[if k < m {
                        0 + k
                    } else {
                        0 + k + 1
                    }],
                    #[trigger] own[k],
                    message,
                    request,
                ) by {}
            }
        } else {
            assert forall|k: int| 0 <= k < own.len() implies carries_item(
                items[0 + k],
                #[trigger] own[k],
                message,
                request,
            ) by {
                assert(carries_item(laid[k], own[k], message, request));
            }
        }
    }
}

/// What holds of the items of one message holds where they stand.
proof fn lemma_moved(
    part: Seq<JsonV>,
    from: int,
    wire: Seq<JsonV>,
    at: int,
    message: MessageV,
    request: RequestV,
)
    requires
        sends(part, from, message, request),
        forall|k: int| 0 <= k < width(message) ==> wire[at + k] == #[trigger] part[from + k],
    ensures
        sends(wire, at, message, request),
{
    let content = message.content;
    if answers_by_label(message) {
        let kept = kept_items(content);
        let n = kept.len() as int;
        assert(wire[at + n] == part[from + n]);
        assert forall|k: int| 0 <= k < kept.len() implies wire[at + k] == (
        #[trigger] kept[k])->data by {
            assert(wire[at + k] == part[from + k]);
        }
    } else {
        let own = own_items(content);
        let kept = keeps_text(content);
        if insides(content, instructs(message), kept).len() == 0 {
            assert forall|k: int| 0 <= k < own.len() implies carries_item(
                wire[at + k],
                #[trigger] own[k],
                message,
                request,
            ) by {
                assert(wire[at + k] == part[from + k]);
                assert(carries_item(part[from + k], own[k], message, request));
            }
        } else {
            let m = choose|m: int|
                {
                    &&& 0 <= m <= own.len()
                    &&& #[trigger] carries_message(part[from + m], message, kept)
                    &&& forall|k: int|
                        0 <= k < own.len() ==> carries_item(
                            part[if k < m {
                                from + k
                            } else {
                                from + k + 1
                            }],
                            #[trigger] own[k],
                            message,
                            request,
                        )
                };
            assert(wire[at + m] == part[from + m]);
            assert(carries_message(wire[at + m], message, kept));
            assert forall|k: int| 0 <= k < own.len() implies carries_item(
                wire[if k < m {
                    at + k
                } else {
                    at + k + 1
                }],
                #[trigger] own[k],
                message,
                request,
            ) by {
                assert(wire[at + k] == part[from + k]);
                assert(wire[at + (k + 1)] == part[from + (k + 1)]);
                assert(carries_item(
                    part[if k < m {
                        from + k
                    } else {
                        from + k + 1
                    }],
                    own[k],
                    message,
                    request,
                ));
            }
        }
    }
}

/// The items of a message end within those of its conversation.
proof fn lemma_fits(list: Seq<MessageV>, i: int, codex: bool)
    requires
        0 <= i < list.len(),
        !(codex && instructs(list[i])),
    ensures
        widths(list.take(i), codex) + width(list[i]) <= widths(list, codex),
    decreases list.len(),
{
    let fewer = list.drop_last();
    if i < list.len() - 1 {
        lemma_fits(fewer, i, codex);
        assert(fewer.take(i) =~= list.take(i));
    } else {
        assert(list.take(i) =~= fewer);
    }
}

/// The items of a conversation carry its messages, in order.
proof fn lemma_conversation(list: Seq<MessageV>, request: RequestV, codex: bool)
    ensures
        input_list(list, request_custom(request), codex).len() == widths(list, codex),
        forall|i: int|
            0 <= i < list.len() && !(codex && instructs(#[trigger] list[i])) ==> sends(
                input_list(list, request_custom(request), codex),
                widths(list.take(i), codex) as int,
                list[i],
                request,
            ),
    decreases list.len(),
{
    let custom = request_custom(request);
    if list.len() > 0 {
        let fewer = list.drop_last();
        let n = list.len() - 1;
        lemma_conversation(fewer, request, codex);
        lemma_sends(list.last(), request);
        let before = input_list(fewer, custom, codex);
        let wire = input_list(list, custom, codex);
        assert forall|i: int| 0 <= i < list.len() && !(codex && instructs(#[trigger] list[i])) implies sends(
            wire,
            widths(list.take(i), codex) as int,
            list[i],
            request,
        ) by {
            if i < n {
                assert(list.take(i) =~= fewer.take(i));
                assert(fewer[i] == list[i]);
                let at = widths(fewer.take(i), codex) as int;
                assert(sends(before, at, fewer[i], request));
                lemma_fits(fewer, i, codex);
                lemma_moved(before, at, wire, at, list[i], request);
            } else {
                assert(list.take(n) =~= fewer);
                let at = widths(fewer, codex) as int;
                lemma_moved(
                    message_items(list.last(), custom),
                    0,
                    wire,
                    at,
                    list.last(),
                    request,
                );
            }
        }
    }
}

/// Every message of a conversation is sent, once, in order: its text, its
/// values, its images and its documents inside one message item, and each of
/// its calls, its results and its kept items as an item of its own. The Codex
/// deployment gets the instructions apart.
pub proof fn law_responses_sends_every_message(
    request: RequestV,
    route: RouteV,
    codex: bool,
    stream: bool,
)
    requires
        sendable(request.messages),
        untouched(request, route, "input"@),
    ensures
        ({
            let items = sent_body(request, route, codex, stream).items_at("input"@);
            let list = request.messages;
            &&& items.len() == widths(list, codex)
            &&& forall|i: int|
                0 <= i < list.len() && !(codex && instructs(#[trigger] list[i])) ==> sends(
                    items,
                    widths(list.take(i), codex) as int,
                    list[i],
                    request,
                )
        }),
{
    lemma_keys();
    lemma_sent(request, route, codex, stream, "input"@);
    super::responses_requests::lemma_input(request, route, codex, stream);
    lemma_conversation(request.messages, request, codex);
}

/// A user message of text and media alone is one message item, with one entry
/// for each of its parts.
pub proof fn law_a_user_message_is_one_item(message: MessageV, request: RequestV)
    requires
        message.role == Role::User,
        forall|j: int|
            0 <= j < message.content.len() ==> {
                ||| #[trigger] message.content[j] is Text
                ||| message.content[j] is Json
                ||| message.content[j] is Image
                ||| message.content[j] is Document
            },
        message.content.len() > 0,
    ensures
        ({
            let items = message_items(message, request_custom(request));
            let entries = items[0].items_at("content"@);
            &&& items.len() == 1
            &&& items[0].text_at("role"@) == Some("user"@)
            &&& entries.len() == message.content.len()
            &&& forall|k: int|
                0 <= k < message.content.len() ==> carries_part(
                    #[trigger] entries[k],
                    message.content[k],
                    false,
                )
        }),
{
    lemma_sends(message, request);
    lemma_plain(message.content);
    let items = message_items(message, request_custom(request));
    assert(!keeps_text(message.content));
    assert(insides(message.content, false, false) == message.content);
    assert(own_items(message.content).len() == 0);
    let m = choose|m: int|
        {
            &&& 0 <= m <= own_items(message.content).len()
            &&& #[trigger] carries_message(items[0 + m], message, false)
        };
    assert(carries_message(items[0], message, false));
}

proof fn lemma_plain(content: Seq<PartV>)
    requires
        forall|j: int|
            0 <= j < content.len() ==> {
                ||| #[trigger] content[j] is Text
                ||| content[j] is Json
                ||| content[j] is Image
                ||| content[j] is Document
            },
    ensures
        insides(content, false, false) == content,
        own_items(content) == Seq::<PartV>::empty(),
    decreases content.len(),
{
    if content.len() > 0 {
        let fewer = content.drop_last();
        assert forall|j: int| 0 <= j < fewer.len() implies {
            ||| #[trigger] fewer[j] is Text
            ||| fewer[j] is Json
            ||| fewer[j] is Image
            ||| fewer[j] is Document
        } by {
            assert(fewer[j] == content[j]);
        }
        lemma_plain(fewer);
        let n = content.len() - 1;
        assert(content[n] is Text || content[n] is Json || content[n] is Image || content[n]
            is Document);
        assert(insides(content, false, false) =~= content);
    } else {
        assert(insides(content, false, false) =~= content);
    }
}

/// One more instruction message goes to the end of the Codex instructions,
/// behind a blank line, and any other message leaves them alone.
pub proof fn law_codex_hoists_instructions(
    request: RequestV,
    route: RouteV,
    stream: bool,
    message: MessageV,
)
    requires
        sendable(request.messages),
        sendable(with_message(request, message).messages),
        untouched(request, route, "instructions"@),
    ensures
        ({
            let before = sent_body(request, route, true, stream).text_at("instructions"@);
            let after = sent_body(with_message(request, message), route, true, stream).text_at(
                "instructions"@,
            );
            let text = said(message.content);
            &&& before is Some
            &&& request.messages.len() == 0 ==> before->0.len() == 0
            &&& after == if instructs(message) && text.len() > 0 {
                Some(
                    if before->0.len() > 0 {
                        before->0 + "\n\n"@ + text
                    } else {
                        text
                    },
                )
            } else {
                before
            }
            &&& sent_body(request, route, false, stream).get("instructions"@) is None
        }),
{
    let longer = with_message(request, message);
    lemma_instructions(request, route, stream);
    lemma_instructions(longer, route, stream);
    lemma_said(message.content);
    let list = instruction_texts(request.messages);
    assert(longer.messages.drop_last() =~= request.messages);
    lemma_filled(request.messages);
    if instructs(message) && said(message.content).len() > 0 {
        let text = said(message.content);
        assert(instruction_texts(longer.messages) == list.push(text));
        assert(list.push(text).drop_last() =~= list);
        if list.len() > 0 {
            assert(join(list.push(text), "\n\n"@) =~= join(list, "\n\n"@) + "\n\n"@ + text);
        } else {
            assert(join(list.push(text), "\n\n"@) =~= text);
        }
    }
}

proof fn lemma_instructions(request: RequestV, route: RouteV, stream: bool)
    requires
        sendable(request.messages),
        untouched(request, route, "instructions"@),
    ensures
        sent_body(request, route, true, stream).text_at("instructions"@) == Some(
            join(instruction_texts(request.messages), "\n\n"@),
        ),
        sent_body(request, route, false, stream).get("instructions"@) is None,
{
    lemma_keys();
    lemma_sent(request, route, true, stream, "instructions"@);
    lemma_sent(request, route, false, stream, "instructions"@);
}

/// Joined instructions are empty where there are none.
proof fn lemma_filled(list: Seq<MessageV>)
    ensures
        join(instruction_texts(list), "\n\n"@).len() == 0 <==> instruction_texts(list).len() == 0,
        instruction_texts(list).len() > 0 ==> instruction_texts(list).last().len() > 0,
    decreases list.len(),
{
    if list.len() > 0 {
        lemma_filled(list.drop_last());
    }
}

} // verus!
