//! Laws of replay: what a decoder keeps, its encoder sends back.

use vstd::prelude::*;

use crate::gemini;
use crate::json::JsonV;
use crate::openai;
use crate::openai::decode::call_kind;
use crate::openai::decode::call_of;
use crate::openai::decode::output_parts;
use crate::openai::decode::push_some;
use crate::openai::decode::thought_part;
use crate::openai::decode::typed;
use crate::openai::decode::visible_part;
use crate::openai::encode::call_item;
use crate::openai::encode::claimed;
use crate::openai::encode::content_items;
use crate::openai::encode::has_message_item;
use crate::openai::encode::lay;
use crate::openai::encode::lay_all;
use crate::openai::encode::message_items;
use crate::openai::encode::replay_items;
use crate::openai::encode::CustomV;
use crate::openai::encode::MESSAGE_KIND;
use crate::openai::encode::NAMESPACE;
use crate::openai::encode::REASONING_KIND;
use crate::openai_chat;
use crate::openai_chat::reasoning_details::absorbed;
use crate::openai_chat::reasoning_details::continued;
use crate::openai_chat::reasoning_details::continues;
use crate::openai_chat::reasoning_details::is_text_member;
use crate::openai_chat::reasoning_details::merged_detail;
use crate::serial::parsed;
use crate::serial::printed;
use crate::types::kind_namespace;
use crate::types::MessageV;
use crate::types::PartV;
use crate::types::Role;

verus! {

broadcast use {vstd::seq::group_seq_axioms, vstd::map::group_map_axioms};

/// A Gemini thought is sent back as a thought, with its text and its
/// signature.
pub proof fn law_a_thought_replays_signed(
    part: JsonV,
    text: Seq<char>,
    names: Seq<(Seq<char>, Seq<char>)>,
)
    requires
        gemini::decode::is_thought(part),
    ensures
        ({
            let sent = gemini::encode::part_json(gemini::decode::spoken_part(part, text), names);
            &&& sent is Some
            &&& sent->0.text_at("text"@) == Some(text)
            &&& gemini::decode::is_thought(sent->0)
            &&& sent->0.text_at("thoughtSignature"@) == part.text_at("thoughtSignature"@)
        }),
{
    reveal_strlit("text");
    reveal_strlit("thought");
    reveal_strlit("thoughtSignature");
    assert("text"@.len() == 4 && "thought"@.len() == 7 && "thoughtSignature"@.len() == 16);
}

/// A Gemini function call is sent back with its id, its name, the signature
/// that stood beside it, and its arguments wherever their text reads back.
pub proof fn law_a_gemini_call_replays_signed(
    part: JsonV,
    function_call: JsonV,
    scope: Seq<char>,
    ordinal: nat,
)
    ensures
        ({
            let decoded = gemini::decode::function_part(part, function_call, scope, ordinal);
            let sent = gemini::encode::call_json(decoded->ToolCall_0);
            &&& sent.text_at("thoughtSignature"@) == part.text_at("thoughtSignature"@)
            &&& sent.get2("functionCall"@, "id"@) == Some(
                JsonV::Text(decoded->ToolCall_0.id),
            )
            &&& sent.get2("functionCall"@, "name"@) == Some(
                JsonV::Text(decoded->ToolCall_0.name),
            )
            &&& ({
                let arguments = gemini::decode::call_arguments(function_call);
                printed(arguments).len() > 0 && parsed(printed(arguments)) == Some(arguments)
                    ==> sent.get2("functionCall"@, "args"@) == Some(arguments)
            })
        }),
{
    reveal_strlit("id");
    reveal_strlit("name");
    reveal_strlit("args");
    reveal_strlit("functionCall");
    reveal_strlit("thoughtSignature");
    assert("id"@.len() == 2);
    assert("functionCall"@.len() == 12 && "thoughtSignature"@.len() == 16);
    assert("name"@[0] != "args"@[0]);
}

/// A signature seals the run it stands in, so each signed thought is a block
/// of its own.
pub proof fn law_a_signature_seals_its_block(
    s: gemini::stream::StreamV,
    part: JsonV,
    text: Seq<char>,
)
    requires
        gemini::decode::is_thought(part),
        part.text_at("thoughtSignature"@) is Some,
    ensures
        gemini::stream::spoken_step(s, part, text).0.open is None,
{
}

/// The kinds of this codec's items belong to its namespace.
proof fn lemma_kinds_claimed(data: JsonV)
    ensures
        claimed(PartV::Opaque { kind: MESSAGE_KIND@, data }),
        claimed(PartV::Opaque { kind: REASONING_KIND@, data }),
{
    reveal_strlit("openai");
    reveal_strlit("openai.message");
    reveal_strlit("openai.reasoning");
    assert forall|kind: Seq<char>|
        kind.len() > 6 && kind[6] == '.' && (forall|i: int| 0 <= i < 6 ==> kind[i] != '.')
            && kind.take(6) == NAMESPACE@ implies #[trigger] kind_namespace(kind) == Some(
        NAMESPACE@,
    ) by {
        kind.index_of_first_ensures('.');
        assert(kind.contains('.'));
        let at = kind.index_of_first('.')->0;
        assert(at == 6);
    }
    assert(MESSAGE_KIND@.take(6) =~= NAMESPACE@);
    assert(REASONING_KIND@.take(6) =~= NAMESPACE@);
    assert(kind_namespace(MESSAGE_KIND@) == Some(NAMESPACE@));
    assert(kind_namespace(REASONING_KIND@) == Some(NAMESPACE@));
}

/// The items of an output list as they are sent back: messages and reasoning
/// verbatim, and named calls by their call items.
pub open spec fn sent_back(list: Seq<JsonV>) -> Seq<JsonV>
    decreases list.len(),
{
    if list.len() == 0 {
        Seq::empty()
    } else {
        let rest = sent_back(list.drop_last());
        let item = list.last();
        if typed(item, "message"@) {
            rest.push(item)
        } else if call_kind(item) is Some {
            let call = call_of(item, call_kind(item)->0);
            if call.name.len() > 0 {
                rest.push(call_item(call))
            } else {
                rest
            }
        } else if typed(item, "reasoning"@) {
            rest.push(item)
        } else {
            rest
        }
    }
}

/// Whether an output list holds a message.
pub open spec fn has_message(list: Seq<JsonV>) -> bool {
    exists|i: int| 0 <= i < list.len() && typed(#[trigger] list[i], "message"@)
}

/// An assistant message with some content.
pub open spec fn assistant_turn(content: Seq<PartV>) -> MessageV {
    MessageV { role: Role::Assistant, content, name: None, tool_call_id: None }
}

/// One more part: what it adds to each account of the parts.
proof fn lemma_part(
    content: Seq<PartV>,
    part: PartV,
    message: MessageV,
    custom: CustomV,
    replays: bool,
)
    ensures
        content.push(part).drop_last() == content,
        lay_all(None, content.push(part), message, custom, replays) == lay(
            lay_all(None, content, message, custom, replays),
            part,
            message,
            custom,
            replays,
        ),
{
    assert(content.push(part).drop_last() =~= content);
}

/// The parts of an output list lay down the items that are sent back.
proof fn lemma_laid(list: Seq<JsonV>, message: MessageV, custom: CustomV, replays: bool)
    requires
        has_message(list) ==> replays,
    ensures
        lay_all(None, output_parts(list), message, custom, replays) == (
            sent_back(list),
            None::<JsonV>,
        ),
        content_items(output_parts(list), Role::Assistant, replays) == Seq::<JsonV>::empty(),
    decreases list.len(),
{
    if list.len() > 0 {
        let shorter = list.drop_last();
        let item = list.last();
        assert(has_message(shorter) ==> has_message(list)) by {
            if has_message(shorter) {
                let i = choose|i: int|
                    0 <= i < shorter.len() && typed(#[trigger] shorter[i], "message"@);
                assert(list[i] == shorter[i]);
            }
        }
        lemma_laid(shorter, message, custom, replays);
        lemma_kinds_claimed(item);
        let before = output_parts(shorter);
        if typed(item, "message"@) {
            assert(typed(list[list.len() - 1], "message"@));
            assert(has_message(list));
            let opaque = PartV::Opaque { kind: MESSAGE_KIND@, data: item };
            let shown = push_some(before, visible_part(item));
            if visible_part(item) is Some {
                lemma_part(before, visible_part(item)->0, message, custom, replays);
                assert(content_items(shown, Role::Assistant, replays) == Seq::<JsonV>::empty());
            }
            lemma_part(shown, opaque, message, custom, replays);
        } else if call_kind(item) is Some {
            let call = call_of(item, call_kind(item)->0);
            lemma_part(before, PartV::ToolCall(call), message, custom, replays);
        } else if typed(item, "reasoning"@) {
            let opaque = PartV::Opaque { kind: REASONING_KIND@, data: item };
            let shown = push_some(before, thought_part(item));
            if thought_part(item) is Some {
                lemma_part(before, thought_part(item)->0, message, custom, replays);
                assert(content_items(shown, Role::Assistant, replays) == Seq::<JsonV>::empty());
            }
            lemma_part(shown, opaque, message, custom, replays);
        }
    }
}

/// The replay items of an output list hold a message exactly when it does.
proof fn lemma_replays_message(list: Seq<JsonV>)
    ensures
        has_message(list) ==> has_message_item(replay_items(output_parts(list))),
    decreases list.len(),
{
    if list.len() > 0 {
        let shorter = list.drop_last();
        let item = list.last();
        let before = output_parts(shorter);
        let content = output_parts(list);
        lemma_replays_message(shorter);
        lemma_kinds_claimed(item);
        let shown_message = push_some(before, visible_part(item));
        let shown_thought = push_some(before, thought_part(item));
        assert(shown_message.push(PartV::Opaque { kind: MESSAGE_KIND@, data: item }).drop_last()
            =~= shown_message);
        assert(shown_thought.push(PartV::Opaque { kind: REASONING_KIND@, data: item }).drop_last()
            =~= shown_thought);
        if visible_part(item) is Some {
            assert(before.push(visible_part(item)->0).drop_last() =~= before);
        }
        if thought_part(item) is Some {
            assert(before.push(thought_part(item)->0).drop_last() =~= before);
        }
        let call = call_of(item, call_kind(item)->0);
        assert(before.push(PartV::ToolCall(call)).drop_last() =~= before);
        let earlier = replay_items(before);
        assert(replay_items(shown_message) == earlier);
        assert(replay_items(shown_thought) == earlier);
        let now = replay_items(content);
        assert(now == earlier || now == earlier.push(item));
        if has_message(list) {
            if typed(item, "message"@) {
                assert(now == earlier.push(item));
                assert(typed(now[now.len() - 1], "message"@));
                assert(now[now.len() - 1].text_at("type"@) == Some("message"@));
            } else {
                let i = choose|i: int| 0 <= i < list.len() && typed(#[trigger] list[i], "message"@);
                assert(shorter[i] == list[i]);
                assert(has_message(shorter));
                let j = choose|j: int|
                    0 <= j < earlier.len() && (#[trigger] earlier[j]).text_at("type"@) == Some(
                        "message"@,
                    );
                assert(now[j] == earlier[j]);
            }
        }
    }
}

/// An assistant turn decoded from a Responses document is sent back item by
/// item, in the order the provider issued: messages and reasoning verbatim,
/// calls by their call items, and no text twice.
pub proof fn law_a_decoded_turn_replays_in_order(list: Seq<JsonV>, custom: CustomV)
    ensures
        message_items(assistant_turn(output_parts(list)), custom) == sent_back(list),
{
    let content = output_parts(list);
    let message = assistant_turn(content);
    let replays = has_message_item(replay_items(content));
    lemma_replays_message(list);
    lemma_laid(list, message, custom, replays);
}

/// The structured reasoning of a chat response is sent back in the field it
/// came in, exactly as it arrived.
pub proof fn law_reasoning_details_replay(message: JsonV, payload: JsonV, calls: Seq<PartV>)
    requires
        message.get(openai_chat::reasoning_details::REASONING_DETAILS@) == Some(payload),
        openai_chat::reasoning_details::payload_details(payload).len() > 0,
        forall|i: int| 0 <= i < calls.len() ==> #[trigger] calls[i] is ToolCall,
    ensures
        openai_chat::encode::chat_message(
            assistant_turn(openai_chat::decode::spoken_parts(message) + calls),
        ).get(openai_chat::reasoning_details::REASONING_DETAILS@) == Some(
            JsonV::Array(openai_chat::reasoning_details::payload_details(payload)),
        ),
{
    let details = openai_chat::reasoning_details::whole_details(message)->0;
    let spoken = openai_chat::decode::spoken_parts(message);
    let content = spoken + calls;
    assert(spoken[0] == details);
    assert forall|i: int| 1 <= i < content.len() implies !(#[trigger] content[i] is Opaque) by {
        if i >= spoken.len() {
            assert(content[i] == calls[i - spoken.len()]);
        } else {
            assert(content[i] == spoken[i]);
        }
    }
    lemma_details_replayed(content, details);
}

/// The parts behind the first leave the field the first replays into alone.
proof fn lemma_details_replayed(content: Seq<PartV>, details: PartV)
    requires
        content.len() > 0,
        content[0] == details,
        details is Opaque,
        details->kind == openai_chat::reasoning_details::kind_text(),
        forall|i: int| 1 <= i < content.len() ==> !(#[trigger] content[i] is Opaque),
    ensures
        forall|object: Map<Seq<char>, JsonV>|
            (#[trigger] openai_chat::encode::replayed(object, content)).contains_key(
                openai_chat::reasoning_details::REASONING_DETAILS@,
            ) && openai_chat::encode::replayed(
                object,
                content,
            )[openai_chat::reasoning_details::REASONING_DETAILS@] == details->data,
    decreases content.len(),
{
    let prefix = openai_chat::encode::OPAQUE_PREFIX@;
    let field = openai_chat::reasoning_details::REASONING_DETAILS@;
    if content.len() == 1 {
        assert(prefix.is_prefix_of(prefix + field)) by {
            assert((prefix + field).take(prefix.len() as int) =~= prefix);
        }
        assert((prefix + field).skip(prefix.len() as int) =~= field);
        assert(content.last() == details);
    } else {
        let shorter = content.drop_last();
        lemma_details_replayed(shorter, details);
        assert(!(content[content.len() - 1] is Opaque));
        assert forall|object: Map<Seq<char>, JsonV>|
            (#[trigger] openai_chat::encode::replayed(object, content))
                == openai_chat::encode::replayed(object, shorter) by {}
    }
}

/// A fragment of the most recent detail lands on it, and every other entry
/// stays as it was.
pub proof fn law_fragments_coalesce(entries: Seq<JsonV>, entry: JsonV, fragment: JsonV)
    requires
        continues(entry, fragment),
    ensures
        absorbed(entries.push(entry), fragment) == entries.push(merged_detail(entry, fragment)),
{
    let list = entries.push(entry);
    assert(list[list.len() - 1] == entry);
    assert(continued(list, fragment, list.len() as int) == Some(list.len() - 1));
    assert(list.update(list.len() - 1, merged_detail(entry, fragment)) =~= entries.push(
        merged_detail(entry, fragment),
    ));
}

/// What an entry `continued` finds is there.
proof fn lemma_continued(entries: Seq<JsonV>, fragment: JsonV, end: int)
    requires
        end <= entries.len(),
    ensures
        continued(entries, fragment, end) matches Some(at) ==> 0 <= at < end && continues(
            entries[at],
            fragment,
        ),
        continued(entries, fragment, end) is None ==> forall|i: int|
            0 <= i < end ==> !continues(#[trigger] entries[i], fragment),
    decreases end,
{
    if end > 0 {
        lemma_continued(entries, fragment, end - 1);
    }
}

/// Absorbing a fragment changes one entry at most, and one that continues
/// nothing becomes an entry of its own.
pub proof fn law_absorbing_changes_one_entry(entries: Seq<JsonV>, fragment: JsonV)
    ensures
        absorbed(entries, fragment).len() == entries.len() || absorbed(entries, fragment)
            == entries.push(fragment),
        (forall|i: int| 0 <= i < entries.len() ==> !continues(#[trigger] entries[i], fragment))
            <==> absorbed(entries, fragment).len() == entries.len() + 1,
        forall|i: int|
            0 <= i < entries.len() && !continues(#[trigger] entries[i], fragment) ==> absorbed(
                entries,
                fragment,
            )[i] == entries[i],
{
    lemma_continued(entries, fragment, entries.len() as int);
}

/// Fragments of a text member concatenate, and any other member keeps the
/// value it was first given.
pub proof fn law_text_members_concatenate(
    entry: Map<Seq<char>, JsonV>,
    fragment: Map<Seq<char>, JsonV>,
    key: Seq<char>,
)
    requires
        entry.contains_key(key),
    ensures
        ({
            let merged = merged_detail(JsonV::Object(entry), JsonV::Object(fragment));
            &&& merged.get(key) is Some
            &&& !is_text_member(key) ==> merged.get(key) == Some(entry[key])
            &&& is_text_member(key) && entry[key] is Text && fragment.contains_key(key)
                && fragment[key] is Text ==> merged.get(key) == Some(
                JsonV::Text(entry[key]->Text_0 + fragment[key]->Text_0),
            )
        }),
{
}

} // verus!
