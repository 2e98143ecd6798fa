//! Laws of the conversation a completion request sends: every message, with
//! its text, its media, its calls and its results, once and in order.

use vstd::prelude::*;

use super::chat_requests::lemma_sent;
use super::chat_requests::plain_attachments;
use super::chat_requests::sent_body;
use super::gemini_requests::functions_alone;
use super::keys::lemma_keys;
use super::requests::address;
use super::requests::answers_as;
use super::requests::calls_of;
use super::requests::lemma_answers;
use super::requests::lemma_said;
use super::requests::results_of;
use super::requests::said;
use super::requests::untouched;
use crate::json::JsonV;
use crate::openai_chat::encode::array_value;
use crate::openai_chat::encode::call_json;
use crate::openai_chat::encode::call_list;
use crate::openai_chat::encode::chat_message;
use crate::openai_chat::encode::content_json;
use crate::openai_chat::encode::content_list;
use crate::openai_chat::encode::content_value;
use crate::openai_chat::encode::conversation;
use crate::openai_chat::encode::has_image;
use crate::openai_chat::encode::leading;
use crate::openai_chat::encode::marked;
use crate::openai_chat::encode::marked_content;
use crate::openai_chat::encode::marked_message;
use crate::openai_chat::encode::message_values;
use crate::openai_chat::encode::previous_turn;
use crate::openai_chat::encode::reasoning_value;
use crate::openai_chat::encode::replayed;
use crate::openai_chat::encode::result_list;
use crate::openai_chat::encode::result_message;
use crate::openai_chat::encode::shown_texts;
use crate::openai_chat::encode::turn_before;
use crate::openai_chat::encode::OPAQUE_PREFIX;
use crate::serial::printed;
use crate::types::CallV;
use crate::types::MessageV;
use crate::types::PartV;
use crate::types::RequestV;
use crate::types::ResultV;
use crate::types::Role;
use crate::types::RouteV;

verus! {

broadcast use {vstd::seq::group_seq_axioms, vstd::map::group_map_axioms};

/// Whether no opaque part of this dialect replays into a field of a message.
pub open spec fn unreplayed(content: Seq<PartV>, key: Seq<char>) -> bool {
    forall|j: int|
        0 <= j < content.len() ==> !((#[trigger] content[j]) matches PartV::Opaque { kind, .. }
            && kind == "openai_compatible."@ + key)
}

/// The parts that show inside a message, in order.
pub open spec fn visible(content: Seq<PartV>) -> Seq<PartV>
    decreases content.len(),
{
    if content.len() == 0 {
        Seq::empty()
    } else {
        match content.last() {
            PartV::Text { .. } | PartV::Json { .. } | PartV::Image { .. } => visible(
                content.drop_last(),
            ).push(content.last()),
            _ => visible(content.drop_last()),
        }
    }
}

/// The texts a message shows, one after the other, JSON as its text.
pub open spec fn spoken(content: Seq<PartV>) -> Seq<char>
    decreases content.len(),
{
    if content.len() == 0 {
        Seq::empty()
    } else {
        match content.last() {
            PartV::Text { text } => spoken(content.drop_last()) + text,
            PartV::Json { value } => spoken(content.drop_last()) + printed(value),
            _ => spoken(content.drop_last()),
        }
    }
}

/// The thoughts of a message that are not redacted, one after the other.
pub open spec fn thoughts(content: Seq<PartV>) -> Option<Seq<char>>
    decreases content.len(),
{
    if content.len() == 0 {
        None
    } else {
        match (content.last(), thoughts(content.drop_last())) {
            (PartV::Reasoning(reasoning), Some(rest)) if !reasoning.redacted => Some(
                rest + reasoning.text,
            ),
            (PartV::Reasoning(reasoning), None) if !reasoning.redacted => Some(reasoning.text),
            (_, rest) => rest,
        }
    }
}

/// Whether a content member is a text: that text, or one part that holds it.
pub open spec fn shows_text(value: Option<JsonV>, text: Seq<char>) -> bool {
    match value {
        Some(JsonV::Text(held)) => held == text,
        Some(JsonV::Array(list)) => list.len() == 1 && list[0].text_at("type"@) == Some("text"@)
            && list[0].text_at("text"@) == Some(text),
        _ => false,
    }
}

/// Whether an entry of a content list carries a part.
pub open spec fn shows_part(entry: JsonV, part: PartV) -> bool {
    match part {
        PartV::Text { text } => entry.text_at("type"@) == Some("text"@) && entry.text_at("text"@)
            == Some(text),
        PartV::Json { value } => entry.text_at("type"@) == Some("text"@) && entry.text_at("text"@)
            == Some(printed(value)),
        PartV::Image { source, detail } => {
            &&& entry.text_at("type"@) == Some("image_url"@)
            &&& entry.get2("image_url"@, "url"@) == Some(JsonV::Text(address(source)))
            &&& entry.get2("image_url"@, "detail"@) == (match detail {
                Some(detail) => Some(JsonV::Text(detail)),
                None => None,
            })
        },
        _ => false,
    }
}

/// Whether a content member carries the parts of a message: none where nothing
/// shows, the text where every part is text, and otherwise one entry a part.
pub open spec fn shows(value: Option<JsonV>, content: Seq<PartV>) -> bool {
    let parts = visible(content);
    if parts.len() == 0 {
        value is None
    } else if exists|k: int| 0 <= k < parts.len() && #[trigger] parts[k] is Image {
        &&& value matches Some(JsonV::Array(list))
        &&& list.len() == parts.len()
        &&& forall|k: int| 0 <= k < parts.len() ==> shows_part(#[trigger] list[k], parts[k])
    } else {
        shows_text(value, spoken(content))
    }
}

/// Whether an entry of `tool_calls` is a call: its id, its name, and its
/// arguments as the model spelled them.
pub open spec fn carries_call(entry: JsonV, call: CallV) -> bool {
    &&& entry.text_at("id"@) == Some(call.id)
    &&& entry.text_at("type"@) == Some("function"@)
    &&& entry.get2("function"@, "name"@) == Some(JsonV::Text(call.name))
    &&& entry.get2("function"@, "arguments"@) == Some(JsonV::Text(call.input.raw))
}

/// Whether a wire message is a message, field by field.
pub open spec fn carries_message(wire: JsonV, message: MessageV) -> bool {
    let content = message.content;
    let calls = calls_of(content);
    &&& unreplayed(content, "role"@) ==> wire.text_at("role"@) == Some(
        match message.role {
            Role::System => "system"@,
            Role::Developer => "system"@,
            Role::User => "user"@,
            Role::Assistant => "assistant"@,
            Role::Tool => "tool"@,
        },
    )
    &&& unreplayed(content, "name"@) ==> wire.text_at("name"@) == message.name
    &&& unreplayed(content, "content"@) ==> shows(wire.get("content"@), content)
    &&& unreplayed(content, "tool_calls"@) ==> {
        &&& calls.len() == 0 ==> wire.get("tool_calls"@) is None
        &&& wire.items_at("tool_calls"@).len() == calls.len()
        &&& forall|k: int|
            0 <= k < calls.len() ==> carries_call(
                #[trigger] wire.items_at("tool_calls"@)[k],
                calls[k],
            )
    }
    &&& unreplayed(content, "reasoning_content"@) ==> wire.text_at("reasoning_content"@)
        == thoughts(content)
}

/// Whether a wire message answers a call with a result.
pub open spec fn carries_result(wire: JsonV, result: ResultV) -> bool {
    &&& wire.text_at("role"@) == Some("tool"@)
    &&& wire.text_at("tool_call_id"@) == Some(result.tool_call_id)
    &&& exists|text: Seq<char>| #[trigger]
        shows_text(wire.get("content"@), text) && answers_as(text, result.content, true)
}

/// Whether wire messages from a place on are those of one message: a message
/// of its own, then an answer for each of its results. A tool message is its
/// answers alone, and one without a result answers with its text.
pub open spec fn sends(wire: Seq<JsonV>, at: int, message: MessageV) -> bool {
    let results = results_of(message.content);
    if message.role == Role::Tool {
        if results.len() == 0 {
            &&& wire[at].text_at("role"@) == Some("tool"@)
            &&& wire[at].text_at("tool_call_id"@) == message.tool_call_id
            &&& shows_text(wire[at].get("content"@), said(message.content))
        } else {
            forall|k: int|
                0 <= k < results.len() ==> carries_result(
                    wire[at + k],
                    #[trigger] results[k],
                )
        }
    } else {
        &&& carries_message(wire[at], message)
        &&& forall|k: int|
            0 <= k < results.len() ==> carries_result(wire[at + 1 + k], #[trigger] results[k])
    }
}

/// How many wire messages a message is.
pub open spec fn width(message: MessageV) -> nat {
    let results = results_of(message.content).len();
    if message.role == Role::Tool {
        if results == 0 {
            1
        } else {
            results
        }
    } else {
        1 + results
    }
}

/// How many wire messages a conversation is.
pub open spec fn widths(list: Seq<MessageV>) -> nat
    decreases list.len(),
{
    if list.len() == 0 {
        0
    } else {
        widths(list.drop_last()) + width(list.last())
    }
}

proof fn lemma_calls(content: Seq<PartV>)
    ensures
        call_list(content).len() == calls_of(content).len(),
        forall|k: int|
            0 <= k < calls_of(content).len() ==> #[trigger] call_list(content)[k] == call_json(
                calls_of(content)[k],
            ),
    decreases content.len(),
{
    if content.len() > 0 {
        lemma_calls(content.drop_last());
        let rest = calls_of(content.drop_last());
        assert forall|k: int| 0 <= k < calls_of(content).len() implies #[trigger] call_list(
            content,
        )[k] == call_json(calls_of(content)[k]) by {
            if k < rest.len() {
                assert(call_list(content)[k] == call_list(content.drop_last())[k]);
            }
        }
    }
}

proof fn lemma_results(content: Seq<PartV>)
    ensures
        result_list(content).len() == results_of(content).len(),
        forall|k: int|
            0 <= k < results_of(content).len() ==> #[trigger] result_list(content)[k]
                == result_message(results_of(content)[k]),
    decreases content.len(),
{
    if content.len() > 0 {
        lemma_results(content.drop_last());
        let rest = results_of(content.drop_last());
        assert forall|k: int| 0 <= k < results_of(content).len() implies #[trigger] result_list(
            content,
        )[k] == result_message(results_of(content)[k]) by {
            if k < rest.len() {
                assert(result_list(content)[k] == result_list(content.drop_last())[k]);
            }
        }
    }
}

proof fn lemma_visible(content: Seq<PartV>)
    ensures
        content_list(content).len() == visible(content).len(),
        forall|k: int|
            0 <= k < visible(content).len() ==> Some(#[trigger] content_list(content)[k])
                == content_json(visible(content)[k]),
        has_image(content) == exists|k: int|
            0 <= k < visible(content).len() && #[trigger] visible(content)[k] is Image,
        shown_texts(content) == spoken(content),
        reasoning_value(content) == thoughts(content),
    decreases content.len(),
{
    if content.len() > 0 {
        let fewer = content.drop_last();
        lemma_visible(fewer);
        let rest = visible(fewer);
        assert forall|k: int| 0 <= k < visible(content).len() implies Some(
            #[trigger] content_list(content)[k],
        ) == content_json(visible(content)[k]) by {
            if k < rest.len() {
                assert(content_list(content)[k] == content_list(fewer)[k]);
            }
        }
        if has_image(fewer) {
            let k = choose|k: int| 0 <= k < rest.len() && #[trigger] rest[k] is Image;
            assert(visible(content)[k] is Image);
        }
        if content.last() is Image {
            assert(visible(content)[rest.len() as int] is Image);
        }
        if exists|k: int| 0 <= k < visible(content).len() && #[trigger] visible(content)[k] is Image {
            let k = choose|k: int|
                0 <= k < visible(content).len() && #[trigger] visible(content)[k] is Image;
            if k < rest.len() {
                assert(rest[k] is Image);
            }
        }
    }
}

/// A message's content member shows its parts.
proof fn lemma_shows(content: Seq<PartV>)
    ensures
        shows(content_value(content), content),
{
    lemma_keys();
    lemma_visible(content);
    let parts = visible(content);
    if has_image(content) && parts.len() > 0 {
        assert forall|k: int| 0 <= k < parts.len() implies shows_part(
            #[trigger] content_list(content)[k],
            parts[k],
        ) by {
            assert(Some(content_list(content)[k]) == content_json(parts[k]));
        }
    }
}

/// A field that no opaque part names stays as it is.
proof fn lemma_unreplayed(object: Map<Seq<char>, JsonV>, content: Seq<PartV>, key: Seq<char>)
    requires
        unreplayed(content, key),
    ensures
        JsonV::Object(replayed(object, content)).get(key) == JsonV::Object(object).get(key),
    decreases content.len(),
{
    if content.len() > 0 {
        let fewer = content.drop_last();
        assert forall|j: int| 0 <= j < fewer.len() implies !((#[trigger] fewer[j])
            matches PartV::Opaque { kind, .. } && kind == "openai_compatible."@ + key) by {
            assert(content[j] == fewer[j]);
        }
        lemma_unreplayed(object, fewer, key);
        let last = content[content.len() - 1];
        if let PartV::Opaque { kind, data } = last {
            let n = OPAQUE_PREFIX@.len() as int;
            if OPAQUE_PREFIX@.is_prefix_of(kind) && kind.skip(n) == key {
                assert(kind =~= OPAQUE_PREFIX@ + key);
            }
        }
    }
}

/// A wire message carries its message.
proof fn lemma_message(message: MessageV)
    ensures
        carries_message(chat_message(message), message),
{
    lemma_keys();
    let content = message.content;
    lemma_calls(content);
    lemma_visible(content);
    lemma_shows(content);
    let object = map!["role"@ => JsonV::Text(crate::openai_chat::encode::wire_role(message.role))];
    let object = crate::body::with_member(object, "content"@, content_value(content));
    let object = crate::body::with_member(
        object,
        "name"@,
        crate::openai_chat::encode::text_value(message.name),
    );
    let object = crate::body::with_member(object, "tool_calls"@, array_value(call_list(content)));
    let object = crate::body::with_member(
        object,
        "reasoning_content"@,
        crate::openai_chat::encode::text_value(reasoning_value(content)),
    );
    assert(chat_message(message) == JsonV::Object(replayed(object, content)));
    if unreplayed(content, "role"@) {
        lemma_unreplayed(object, content, "role"@);
    }
    if unreplayed(content, "name"@) {
        lemma_unreplayed(object, content, "name"@);
    }
    if unreplayed(content, "content"@) {
        lemma_unreplayed(object, content, "content"@);
    }
    if unreplayed(content, "tool_calls"@) {
        lemma_unreplayed(object, content, "tool_calls"@);
        let wire = chat_message(message);
        assert forall|k: int| 0 <= k < calls_of(content).len() implies carries_call(
            #[trigger] wire.items_at("tool_calls"@)[k],
            calls_of(content)[k],
        ) by {
            assert(call_list(content)[k] == call_json(calls_of(content)[k]));
        }
    }
    if unreplayed(content, "reasoning_content"@) {
        lemma_unreplayed(object, content, "reasoning_content"@);
    }
}

/// A wire answer carries its result.
proof fn lemma_result(result: ResultV)
    ensures
        carries_result(result_message(result), result),
{
    lemma_keys();
    lemma_answers(result, true);
    let text = crate::content::result_text(result, true);
    assert(shows_text(result_message(result).get("content"@), text));
}

/// The wire messages of one message carry it.
proof fn lemma_sends(message: MessageV)
    ensures
        message_values(message).len() == width(message),
        sends(message_values(message), 0, message),
{
    lemma_keys();
    lemma_results(message.content);
    lemma_said(message.content);
    let results = results_of(message.content);
    let wire = message_values(message);
    if message.role == Role::Tool {
        assert forall|k: int| 0 <= k < results.len() implies carries_result(
            wire[0 + k],
            #[trigger] results[k],
        ) by {
            assert(result_list(message.content)[k] == result_message(results[k]));
            lemma_result(results[k]);
        }
    } else {
        lemma_message(message);
        assert forall|k: int| 0 <= k < results.len() implies carries_result(
            wire[0 + 1 + k],
            #[trigger] results[k],
        ) by {
            assert(wire[1 + k] == result_list(message.content)[k]);
            lemma_result(results[k]);
        }
    }
}

/// What holds of the wire messages of one message holds where they stand.
proof fn lemma_moved(part: Seq<JsonV>, wire: Seq<JsonV>, at: int, message: MessageV)
    requires
        sends(part, 0, message),
        part.len() == width(message),
        0 <= at,
        forall|k: int| 0 <= k < part.len() ==> wire[at + k] == #[trigger] part[k],
    ensures
        sends(wire, at, message),
{
    assert(wire[at + 0] == part[0]);
    let results = results_of(message.content);
    if message.role == Role::Tool {
        assert forall|k: int| 0 <= k < results.len() implies carries_result(
            wire[at + k],
            #[trigger] results[k],
        ) by {
            assert(wire[at + k] == part[k]);
            assert(carries_result(part[0 + k], results[k]));
        }
    } else {
        assert forall|k: int| 0 <= k < results.len() implies carries_result(
            wire[at + 1 + k],
            #[trigger] results[k],
        ) by {
            assert(wire[at + (1 + k)] == part[1 + k]);
            assert(carries_result(part[0 + 1 + k], results[k]));
        }
    }
}

/// The wire messages of a conversation carry its messages, in order.
proof fn lemma_conversation(list: Seq<MessageV>)
    ensures
        conversation(list).len() == widths(list),
        forall|i: int|
            0 <= i < list.len() ==> sends(
                conversation(list),
                widths(list.take(i)) as int,
                #[trigger] list[i],
            ),
    decreases list.len(),
{
    if list.len() > 0 {
        let fewer = list.drop_last();
        let n = list.len() - 1;
        lemma_conversation(fewer);
        lemma_sends(list.last());
        let before = conversation(fewer);
        let wire = conversation(list);
        assert forall|i: int| 0 <= i < list.len() implies sends(
            wire,
            widths(list.take(i)) as int,
            #[trigger] list[i],
        ) by {
            if i < n {
                assert(list.take(i) =~= fewer.take(i));
                assert(fewer[i] == list[i]);
                let at = widths(fewer.take(i)) as int;
                assert(sends(before, at, fewer[i]));
                lemma_fits(fewer, i);
                lemma_kept_prefix(before, wire, at, list[i]);
            } else {
                assert(list.take(n) =~= fewer);
                lemma_moved(
                    message_values(list.last()),
                    wire,
                    widths(fewer) as int,
                    list.last(),
                );
            }
        }
    }
}

/// The wire messages of a message end within those of its conversation.
proof fn lemma_fits(list: Seq<MessageV>, i: int)
    requires
        0 <= i < list.len(),
    ensures
        widths(list.take(i)) + width(list[i]) <= widths(list),
    decreases list.len(),
{
    let fewer = list.drop_last();
    if i < list.len() - 1 {
        lemma_fits(fewer, i);
        assert(fewer.take(i) =~= list.take(i));
    } else {
        assert(list.take(i) =~= fewer);
    }
}

/// More wire messages behind those of a message change nothing of them.
proof fn lemma_kept_prefix(before: Seq<JsonV>, wire: Seq<JsonV>, at: int, message: MessageV)
    requires
        sends(before, at, message),
        0 <= at,
        at + width(message) <= before.len() <= wire.len(),
        forall|k: int| 0 <= k < before.len() ==> #[trigger] wire[k] == before[k],
    ensures
        sends(wire, at, message),
{
    let results = results_of(message.content);
    assert(wire[at] == before[at]);
    if message.role == Role::Tool {
        assert forall|k: int| 0 <= k < results.len() implies carries_result(
            wire[at + k],
            #[trigger] results[k],
        ) by {
            assert(carries_result(before[at + k], results[k]));
            assert(wire[at + k] == before[at + k]);
        }
    } else {
        assert forall|k: int| 0 <= k < results.len() implies carries_result(
            wire[at + 1 + k],
            #[trigger] results[k],
        ) by {
            assert(carries_result(before[at + 1 + k], results[k]));
            assert(wire[at + 1 + k] == before[at + 1 + k]);
        }
    }
}

/// Whether a wire message says what another one says: the same fields, and a
/// content that shows the same.
pub open spec fn says_the_same(after: JsonV, before: JsonV) -> bool {
    &&& forall|key: Seq<char>|
        key != "content"@ ==> #[trigger] after.get(key) == before.get(key)
    &&& forall|content: Seq<PartV>| #[trigger]
        shows(before.get("content"@), content) ==> shows(after.get("content"@), content)
    &&& forall|text: Seq<char>| #[trigger]
        shows_text(before.get("content"@), text) ==> shows_text(after.get("content"@), text)
}

/// A breakpoint leaves what a content member shows.
proof fn lemma_marked_content(value: JsonV)
    ensures
        forall|content: Seq<PartV>| #[trigger]
            shows(Some(value), content) ==> shows(Some(marked_content(value)), content),
        forall|text: Seq<char>| #[trigger]
            shows_text(Some(value), text) ==> shows_text(Some(marked_content(value)), text),
{
    lemma_keys();
    let after = marked_content(value);
    assert forall|content: Seq<PartV>| #[trigger] shows(Some(value), content) implies shows(
        Some(after),
        content,
    ) by {
        let parts = visible(content);
        if exists|k: int| 0 <= k < parts.len() && #[trigger] parts[k] is Image {
            let list = value->Array_0;
            assert forall|k: int| 0 <= k < parts.len() implies shows_part(
                #[trigger] after->Array_0[k],
                parts[k],
            ) by {
                assert(shows_part(list[k], parts[k]));
            }
        }
    }
}

/// A breakpoint leaves what a message says.
proof fn lemma_marked_message(message: JsonV)
    ensures
        says_the_same(marked_message(message), message),
{
    if message is Object && message.get("content"@) is Some {
        lemma_marked_content(message.get("content"@)->0);
    }
}

/// The last user turn before a place stands before it.
proof fn lemma_turn(list: Seq<JsonV>, end: int)
    requires
        end <= list.len(),
    ensures
        turn_before(list, end) matches Some(turn) ==> 0 <= turn < end,
    decreases end,
{
    if end > 0 {
        lemma_turn(list, end - 1);
    }
}

proof fn lemma_leading(list: Seq<JsonV>)
    ensures
        leading(list) <= list.len(),
    decreases list.len(),
{
    if list.len() > 0 {
        lemma_leading(list.drop_first());
    }
}

/// Breakpoints leave what every message says.
proof fn lemma_marked(list: Seq<JsonV>)
    ensures
        marked(list).len() == list.len(),
        forall|k: int| 0 <= k < list.len() ==> says_the_same(#[trigger] marked(list)[k], list[k]),
{
    lemma_leading(list);
    let at = leading(list) as int;
    let first = if at > 0 {
        list.update(at - 1, marked_message(list[at - 1]))
    } else {
        list
    };
    lemma_turn(first, first.len() as int);
    if let Some(last) = turn_before(first, first.len() as int) {
        lemma_turn(first, last);
    }
    assert forall|k: int| 0 <= k < list.len() implies says_the_same(
        #[trigger] marked(list)[k],
        list[k],
    ) by {
        lemma_marked_message(list[k]);
        lemma_marked_message(first[k]);
        assert(says_the_same(first[k], list[k]));
        if previous_turn(first) == Some(k) {
            assert(marked(list)[k] == marked_message(first[k]));
        } else {
            assert(marked(list)[k] == first[k]);
        }
    }
}

/// A message that says the same carries the same.
proof fn lemma_same_message(after: JsonV, before: JsonV, message: MessageV)
    requires
        says_the_same(after, before),
    ensures
        carries_message(before, message) ==> carries_message(after, message),
{
    lemma_keys();
    assert(after.get("role"@) == before.get("role"@));
    assert(after.get("name"@) == before.get("name"@));
    assert(after.get("tool_calls"@) == before.get("tool_calls"@));
    assert(after.get("reasoning_content"@) == before.get("reasoning_content"@));
}

proof fn lemma_same_result(after: JsonV, before: JsonV, result: ResultV)
    requires
        says_the_same(after, before),
        carries_result(before, result),
    ensures
        carries_result(after, result),
{
    lemma_keys();
    assert(after.get("role"@) == before.get("role"@));
    assert(after.get("tool_call_id"@) == before.get("tool_call_id"@));
    let text = choose|text: Seq<char>| #[trigger]
        shows_text(before.get("content"@), text) && answers_as(text, result.content, true);
    assert(shows_text(after.get("content"@), text));
}

/// Breakpoints leave a message what it is.
proof fn lemma_sends_marked(after: Seq<JsonV>, before: Seq<JsonV>, at: int, message: MessageV)
    requires
        sends(before, at, message),
        0 <= at,
        at + width(message) <= before.len(),
        after.len() == before.len(),
        forall|k: int| 0 <= k < before.len() ==> says_the_same(#[trigger] after[k], before[k]),
    ensures
        sends(after, at, message),
{
    lemma_keys();
    let results = results_of(message.content);
    assert(says_the_same(after[at], before[at]));
    if message.role == Role::Tool {
        if results.len() == 0 {
            assert(after[at].get("role"@) == before[at].get("role"@));
            assert(after[at].get("tool_call_id"@) == before[at].get("tool_call_id"@));
        }
        assert forall|k: int| 0 <= k < results.len() implies carries_result(
            after[at + k],
            #[trigger] results[k],
        ) by {
            assert(says_the_same(after[at + k], before[at + k]));
            lemma_same_result(after[at + k], before[at + k], results[k]);
        }
    } else {
        lemma_same_message(after[at], before[at], message);
        assert forall|k: int| 0 <= k < results.len() implies carries_result(
            after[at + 1 + k],
            #[trigger] results[k],
        ) by {
            assert(says_the_same(after[at + 1 + k], before[at + 1 + k]));
            lemma_same_result(after[at + 1 + k], before[at + 1 + k], results[k]);
        }
    }
}

/// Every message of a conversation is sent, once, in order: with its role, its
/// name, its text and its images, every one of its calls with its id, its name
/// and its arguments, and every one of its results as an answer of its own.
/// Cache breakpoints change nothing of that.
pub proof fn law_chat_sends_every_message(
    request: RequestV,
    route: RouteV,
    stream: bool,
    at_root: bool,
)
    requires
        functions_alone(request),
        plain_attachments(request.messages),
        untouched(request, route, "messages"@),
    ensures
        ({
            let wire = sent_body(request, route, stream, at_root).items_at("messages"@);
            &&& wire.len() == widths(request.messages)
            &&& forall|i: int|
                0 <= i < request.messages.len() ==> sends(
                    wire,
                    widths(request.messages.take(i)) as int,
                    #[trigger] request.messages[i],
                )
        }),
{
    lemma_keys();
    lemma_sent(request, route, stream, at_root, "messages"@);
    let list = request.messages;
    let plain = conversation(list);
    let wire = sent_body(request, route, stream, at_root).items_at("messages"@);
    lemma_conversation(list);
    lemma_marked(plain);
    if wire != plain {
        assert(wire == marked(plain));
        assert forall|i: int| 0 <= i < list.len() implies sends(
            wire,
            widths(list.take(i)) as int,
            #[trigger] list[i],
        ) by {
            lemma_fits(list, i);
            lemma_sends_marked(wire, plain, widths(list.take(i)) as int, list[i]);
        }
    }
}

} // verus!
