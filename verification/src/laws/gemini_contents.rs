//! Laws of the conversation a `generateContent` request sends: every part it
//! can carry is there, once, in order, under the role that spoke it.

use vstd::prelude::*;

use super::gemini_requests::functions_alone;
use super::gemini_requests::lemma_sent;
use super::gemini_requests::sent_body;
use super::keys::lemma_keys;
use super::requests::lemma_said;
use super::requests::lemma_values;
use super::requests::said;
use super::requests::untouched;
use super::requests::values_alone;
use super::requests::with_message;
use crate::content::push_turn;
use crate::content::system_texts;
use crate::content::turn_json;
use crate::content::turn_values;
use crate::content::TurnV;
use crate::gemini::encode::part_json;
use crate::gemini::encode::part_list;
use crate::gemini::encode::result_json;
use crate::gemini::encode::result_payload;
use crate::gemini::encode::turn_role;
use crate::gemini::encode::turns;
use crate::gemini::identity::called_names;
use crate::gemini::identity::history_names;
use crate::gemini::identity::name_of;
use crate::json::JsonV;
use crate::serial::parsed;
use crate::serial::printed;
use crate::text::join;
use crate::text::trim;
use crate::types::opaque_namespace;
use crate::types::InputV;
use crate::types::MessageV;
use crate::types::PartV;
use crate::types::RequestV;
use crate::types::ResultV;
use crate::types::Role;
use crate::types::RouteV;
use crate::types::SourceV;
use crate::types::ToolCallKind;

verus! {

broadcast use {vstd::seq::group_seq_axioms, vstd::map::group_map_axioms};

/// Whether a part has no form in this protocol: content this library does not
/// know, a thought another provider signed, or another provider's own data.
pub open spec fn left_out(part: PartV) -> bool {
    match part {
        PartV::Unknown(_) => true,
        PartV::Reasoning(reasoning) => reasoning.signature is Some && reasoning.signature_origin
            is Some && reasoning.signature_origin != Some("gemini"@),
        PartV::Opaque { data, .. } => opaque_namespace(part) != Some("gemini"@) || !(data
            is Object),
        _ => false,
    }
}

/// The parts of a message that have a form here, in order, with who spoke.
pub open spec fn asked_in(role: Role, content: Seq<PartV>) -> Seq<(Role, PartV)>
    decreases content.len(),
{
    if content.len() == 0 {
        Seq::empty()
    } else if left_out(content.last()) {
        asked_in(role, content.drop_last())
    } else {
        asked_in(role, content.drop_last()).push((role, content.last()))
    }
}

/// The parts of a conversation that have a form here. Instructions are no part
/// of the conversation.
pub open spec fn asked(list: Seq<MessageV>) -> Seq<(Role, PartV)>
    decreases list.len(),
{
    if list.len() == 0 {
        Seq::empty()
    } else if list.last().role == Role::System || list.last().role == Role::Developer {
        asked(list.drop_last())
    } else {
        asked(list.drop_last()) + asked_in(list.last().role, list.last().content)
    }
}

/// The parts of a list of turns, in order, with the role of their turn.
pub open spec fn sent_parts(contents: Seq<JsonV>) -> Seq<(Option<Seq<char>>, JsonV)>
    decreases contents.len(),
{
    if contents.len() == 0 {
        Seq::empty()
    } else {
        let role = contents.last().text_at("role"@);
        sent_parts(contents.drop_last()) + contents.last().items_at("parts"@).map_values(
            |part: JsonV| (role, part),
        )
    }
}

/// Whether a call of a conversation has an id: one the model made.
pub open spec fn is_call(list: Seq<MessageV>, i: int, j: int, id: Seq<char>) -> bool {
    &&& 0 <= i < list.len()
    &&& list[i].role == Role::Assistant
    &&& 0 <= j < list[i].content.len()
    &&& list[i].content[j] is ToolCall
    &&& list[i].content[j]->ToolCall_0.id == id
}

/// Whether the last call of an id is of a function.
pub open spec fn called_last(list: Seq<MessageV>, id: Seq<char>, name: Seq<char>) -> bool {
    exists|i: int, j: int| #[trigger]
        is_call(list, i, j, id) && list[i].content[j]->ToolCall_0.name == name && no_later(
            list,
            i,
            j,
            id,
        )
}

/// Whether an id has no call after a place.
pub open spec fn no_later(list: Seq<MessageV>, i: int, j: int, id: Seq<char>) -> bool {
    forall|k: int, m: int| #[trigger] is_call(list, k, m, id) ==> k < i || k == i && m <= j
}

/// Whether an id has no call.
pub open spec fn uncalled(list: Seq<MessageV>, id: Seq<char>) -> bool {
    forall|i: int, j: int| !(#[trigger] is_call(list, i, j, id))
}

/// Whether a wire part carries media: its bytes and their type, or its URL,
/// with a type of its own or the default one.
pub open spec fn carries_media(wire: JsonV, source: SourceV, default_type: Seq<char>) -> bool {
    match source {
        SourceV::Base64 { data, media_type } => {
            &&& wire.get2("inlineData"@, "data"@) == Some(JsonV::Text(data))
            &&& wire.get2("inlineData"@, "mimeType"@) == Some(JsonV::Text(media_type))
        },
        SourceV::Url { url, media_type } => {
            &&& wire.get2("fileData"@, "fileUri"@) == Some(JsonV::Text(url))
            &&& wire.get2("fileData"@, "mimeType"@) == Some(
                JsonV::Text(
                    match media_type {
                        Some(media_type) => media_type,
                        None => default_type,
                    },
                ),
            )
        },
    }
}

/// Whether a value carries what a tool answered: the text of a text answer, a
/// lone JSON value, or the list of several.
pub open spec fn carries_answer(value: JsonV, content: Seq<PartV>) -> bool {
    if content.len() > 0 && values_alone(content) {
        if content.len() == 1 {
            value == content[0]->value
        } else {
            &&& value is Array
            &&& value->Array_0.len() == content.len()
            &&& forall|i: int|
                0 <= i < content.len() ==> #[trigger] value->Array_0[i] == content[i]->value
        }
    } else {
        value == JsonV::Text(said(content))
    }
}

/// Whether a value is the input of a call: the document that its text spells,
/// an empty object where there is no text, and the text itself where it spells
/// none or is free.
pub open spec fn carries_input(value: JsonV, input: InputV) -> bool {
    &&& input.kind == ToolCallKind::Custom ==> value == JsonV::Text(input.raw)
    &&& input.kind == ToolCallKind::Function && input.raw.len() == 0 ==> value == JsonV::Object(
        Map::empty(),
    )
    &&& input.kind == ToolCallKind::Function && input.raw.len() > 0 ==> value == match parsed(
        input.raw,
    ) {
        Some(document) => document,
        None => JsonV::Text(input.raw),
    }
}

/// Whether a wire part carries a tool result: under the id it answers and the
/// function's name, with the answer, and a failure told from a success.
pub open spec fn carries_result(wire: JsonV, result: ResultV, list: Seq<MessageV>) -> bool {
    let response = wire.get2("functionResponse"@, "response"@);
    &&& wire.get2("functionResponse"@, "id"@) == Some(JsonV::Text(result.tool_call_id))
    &&& result.name matches Some(name) ==> wire.get2("functionResponse"@, "name"@) == Some(
        JsonV::Text(name),
    )
    &&& result.name is None ==> forall|name: Seq<char>| #[trigger]
        called_last(list, result.tool_call_id, name) ==> wire.get2("functionResponse"@, "name"@)
            == Some(JsonV::Text(name))
    &&& result.name is None && uncalled(list, result.tool_call_id) ==> wire.get2(
        "functionResponse"@,
        "name"@,
    ) == Some(JsonV::Text(result.tool_call_id))
    &&& response is Some
    &&& if result.is_error {
        &&& response->0.get("error"@) is Some
        &&& response->0.get("output"@) is None
        &&& carries_answer(response->0.get("error"@)->0, result.content)
    } else if result.content.len() == 1 && result.content[0] is Json && result.content[0]->value
        is Object {
        response->0 == result.content[0]->value
    } else {
        &&& response->0.get("output"@) is Some
        &&& response->0.get("error"@) is None
        &&& carries_answer(response->0.get("output"@)->0, result.content)
    }
}

/// Whether a wire part carries a part of a conversation.
pub open spec fn carries(wire: JsonV, part: PartV, list: Seq<MessageV>) -> bool {
    match part {
        PartV::Text { text } => wire.text_at("text"@) == Some(text) && wire.get("thought"@) is None,
        PartV::Json { value } => wire.text_at("text"@) == Some(printed(value)) && wire.get(
            "thought"@,
        ) is None,
        PartV::Image { source, .. } => carries_media(wire, source, "image/png"@),
        PartV::Audio { source } => carries_media(wire, source, "audio/wav"@),
        PartV::Document { source, .. } => carries_media(wire, source, "application/pdf"@),
        PartV::Reasoning(reasoning) => {
            &&& wire.text_at("text"@) == Some(reasoning.text)
            &&& wire.truth_at("thought"@) == Some(true)
            &&& wire.text_at("thoughtSignature"@) == reasoning.signature
        },
        PartV::ToolCall(call) => {
            &&& wire.get2("functionCall"@, "id"@) == Some(JsonV::Text(call.id))
            &&& wire.get2("functionCall"@, "name"@) == Some(JsonV::Text(call.name))
            &&& wire.get2("functionCall"@, "args"@) is Some
            &&& carries_input(wire.get2("functionCall"@, "args"@)->0, call.input)
            &&& wire.get("thoughtSignature"@) == JsonV::Object(call.provider_metadata).get2(
                "gemini"@,
                "thoughtSignature"@,
            )
        },
        PartV::ToolResult(result) => carries_result(wire, result, list),
        PartV::Opaque { data, .. } => wire == data,
        PartV::Unknown(_) => false,
    }
}

/// Content that calls nothing under an id leaves the name found for it.
proof fn lemma_passed_over(
    names: Seq<(Seq<char>, Seq<char>)>,
    content: Seq<PartV>,
    id: Seq<char>,
)
    requires
        forall|j: int|
            0 <= j < content.len() && (#[trigger] content[j]) is ToolCall
                ==> content[j]->ToolCall_0.id != id,
    ensures
        name_of(names + called_names(content), id) == name_of(names, id),
    decreases content.len(),
{
    if content.len() == 0 {
        assert(names + called_names(content) =~= names);
    } else {
        let fewer = content.drop_last();
        assert forall|j: int| 0 <= j < fewer.len() && (#[trigger] fewer[j]) is ToolCall implies
            fewer[j]->ToolCall_0.id != id by {
            assert(fewer[j] == content[j]);
        }
        lemma_passed_over(names, fewer, id);
        let all = names + called_names(content);
        if content.last() is ToolCall {
            assert(content[content.len() - 1]->ToolCall_0.id != id);
            assert(all.drop_last() =~= names + called_names(fewer));
        }
    }
}

/// The last call under an id in some content names it.
proof fn lemma_found(
    names: Seq<(Seq<char>, Seq<char>)>,
    content: Seq<PartV>,
    id: Seq<char>,
    at: int,
)
    requires
        0 <= at < content.len(),
        content[at] is ToolCall,
        content[at]->ToolCall_0.id == id,
        forall|j: int|
            at < j < content.len() && (#[trigger] content[j]) is ToolCall
                ==> content[j]->ToolCall_0.id != id,
    ensures
        name_of(names + called_names(content), id) == Some(content[at]->ToolCall_0.name),
    decreases content.len(),
{
    let fewer = content.drop_last();
    let all = names + called_names(content);
    if at == content.len() - 1 {
        assert(all.last() == (id, content[at]->ToolCall_0.name));
    } else {
        assert forall|j: int| at < j < fewer.len() && (#[trigger] fewer[j]) is ToolCall implies
            fewer[j]->ToolCall_0.id != id by {
            assert(fewer[j] == content[j]);
        }
        lemma_found(names, fewer, id, at);
        if content.last() is ToolCall {
            assert(content[content.len() - 1]->ToolCall_0.id != id);
            assert(all.drop_last() =~= names + called_names(fewer));
        }
    }
}

/// The last call under an id in a history names it.
proof fn lemma_named(list: Seq<MessageV>, id: Seq<char>, i: int, j: int)
    requires
        is_call(list, i, j, id),
        no_later(list, i, j, id),
    ensures
        name_of(history_names(list), id) == Some(list[i].content[j]->ToolCall_0.name),
    decreases list.len(),
{
    let fewer = list.drop_last();
    let n = list.len() - 1;
    let content = list.last().content;
    if i == n {
        assert forall|m: int| j < m < content.len() && (#[trigger] content[m]) is ToolCall implies
            content[m]->ToolCall_0.id != id by {
            if content[m]->ToolCall_0.id == id {
                assert(is_call(list, n, m, id));
            }
        }
        lemma_found(history_names(fewer), content, id, j);
    } else {
        assert(is_call(fewer, i, j, id));
        assert forall|k: int, m: int| #[trigger] is_call(fewer, k, m, id) implies k < i || k == i
            && m <= j by {
            assert(is_call(list, k, m, id));
        }
        lemma_named(fewer, id, i, j);
        if list.last().role == Role::Assistant {
            assert forall|m: int| 0 <= m < content.len() && (#[trigger] content[m])
                is ToolCall implies content[m]->ToolCall_0.id != id by {
                if content[m]->ToolCall_0.id == id {
                    assert(is_call(list, n, m, id));
                }
            }
            lemma_passed_over(history_names(fewer), content, id);
        }
    }
}

/// A history without a call under an id names it nowhere.
proof fn lemma_unnamed(list: Seq<MessageV>, id: Seq<char>)
    requires
        uncalled(list, id),
    ensures
        name_of(history_names(list), id) is None,
    decreases list.len(),
{
    if list.len() > 0 {
        let fewer = list.drop_last();
        let n = list.len() - 1;
        let content = list.last().content;
        assert forall|i: int, j: int| !(#[trigger] is_call(fewer, i, j, id)) by {
            if is_call(fewer, i, j, id) {
                assert(is_call(list, i, j, id));
            }
        }
        lemma_unnamed(fewer, id);
        if list.last().role == Role::Assistant {
            assert forall|m: int| 0 <= m < content.len() && (#[trigger] content[m])
                is ToolCall implies content[m]->ToolCall_0.id != id by {
                if content[m]->ToolCall_0.id == id {
                    assert(is_call(list, n, m, id));
                }
            }
            lemma_passed_over(history_names(fewer), content, id);
        }
    }
}

/// A result carries its answer.
proof fn lemma_answer(content: Seq<PartV>)
    ensures
        carries_answer(result_payload(content), content),
{
    lemma_said(content);
    if values_alone(content) {
        lemma_values(content);
    }
    assert(values_alone(content) == crate::content::all_json(content));
}

proof fn lemma_carries_result(result: ResultV, list: Seq<MessageV>)
    ensures
        carries_result(result_json(result, history_names(list)), result, list),
{
    lemma_keys();
    lemma_answer(result.content);
    if result.name is None {
        assert forall|name: Seq<char>| #[trigger]
            called_last(list, result.tool_call_id, name) implies name_of(
            history_names(list),
            result.tool_call_id,
        ) == Some(name) by {
            let id = result.tool_call_id;
            let (i, j) = choose|i: int, j: int| #[trigger]
                is_call(list, i, j, id) && list[i].content[j]->ToolCall_0.name == name && no_later(
                    list,
                    i,
                    j,
                    id,
                );
            lemma_named(list, id, i, j);
        }
        if uncalled(list, result.tool_call_id) {
            lemma_unnamed(list, result.tool_call_id);
        }
    }
}

/// A part is sent as it is, unless it has no form here.
proof fn lemma_carries(part: PartV, list: Seq<MessageV>)
    ensures
        part_json(part, history_names(list)) is None <==> left_out(part),
        !left_out(part) ==> carries(part_json(part, history_names(list))->0, part, list),
{
    lemma_keys();
    if let PartV::ToolResult(result) = part {
        lemma_carries_result(result, list);
    }
}

/// Parts with the role of their turn.
pub open spec fn under(role: Seq<char>, parts: Seq<JsonV>) -> Seq<(Option<Seq<char>>, JsonV)> {
    parts.map_values(|part: JsonV| (Some(role), part))
}

/// A turn's wire form holds its role and its parts.
proof fn lemma_turn(turn: TurnV)
    ensures
        turn_json(turn, "parts"@).text_at("role"@) == Some(turn.role),
        turn_json(turn, "parts"@).items_at("parts"@) == turn.parts,
{
    lemma_keys();
}

/// The parts of one more turn's wire form.
proof fn lemma_sent_push(list: Seq<TurnV>, turn: TurnV)
    ensures
        sent_parts(turn_values(list.push(turn), "parts"@)) == sent_parts(
            turn_values(list, "parts"@),
        ) + under(turn.role, turn.parts),
{
    let pushed = turn_values(list.push(turn), "parts"@);
    lemma_turn(turn);
    assert(pushed.drop_last() =~= turn_values(list, "parts"@));
    assert(pushed.last() == turn_json(turn, "parts"@));
    let role = pushed.last().text_at("role"@);
    assert(pushed.last().items_at("parts"@).map_values(|part: JsonV| (role, part)) =~= under(
        turn.role,
        turn.parts,
    ));
}

/// A message's parts follow those before them, whichever turn they join.
proof fn lemma_sent_turn(list: Seq<TurnV>, role: Seq<char>, parts: Seq<JsonV>)
    ensures
        sent_parts(turn_values(push_turn(list, role, parts), "parts"@)) == sent_parts(
            turn_values(list, "parts"@),
        ) + under(role, parts),
{
    let sent = sent_parts(turn_values(list, "parts"@));
    if parts.len() == 0 {
        assert(sent + under(role, parts) =~= sent);
    } else if list.len() > 0 && list.last().role == role {
        let rest = list.drop_last();
        let last = list.last();
        let joined = TurnV { role, parts: last.parts + parts };
        assert(rest.push(last) =~= list);
        lemma_sent_push(rest, last);
        lemma_sent_push(rest, joined);
        assert(under(role, last.parts + parts) =~= under(role, last.parts) + under(role, parts));
        let before = sent_parts(turn_values(rest, "parts"@));
        assert(before + under(role, last.parts + parts) =~= before + under(role, last.parts)
            + under(role, parts));
    } else {
        lemma_sent_push(list, TurnV { role, parts });
    }
}

/// Whether sent parts are the asked ones, in order, under the role that spoke
/// them: the model's own, or the user's.
pub open spec fn matched(
    sent: Seq<(Option<Seq<char>>, JsonV)>,
    asked: Seq<(Role, PartV)>,
    list: Seq<MessageV>,
) -> bool {
    &&& sent.len() == asked.len()
    &&& forall|k: int|
        0 <= k < asked.len() ==> carries((#[trigger] sent[k]).1, asked[k].1, list) && sent[k].0
            == Some(
            if asked[k].0 == Role::Assistant {
                "model"@
            } else {
                "user"@
            },
        )
}

/// Two runs of matched parts, one after the other.
proof fn lemma_matched(
    a: Seq<(Option<Seq<char>>, JsonV)>,
    b: Seq<(Option<Seq<char>>, JsonV)>,
    c: Seq<(Role, PartV)>,
    d: Seq<(Role, PartV)>,
    list: Seq<MessageV>,
)
    requires
        matched(a, c, list),
        matched(b, d, list),
    ensures
        matched(a + b, c + d, list),
{
    assert forall|k: int| 0 <= k < (c + d).len() implies carries(
        (#[trigger] (a + b)[k]).1,
        (c + d)[k].1,
        list,
    ) && (a + b)[k].0 == Some(
        if (c + d)[k].0 == Role::Assistant {
            "model"@
        } else {
            "user"@
        },
    ) by {
        if k < a.len() {
            assert((a + b)[k] == a[k]);
        } else {
            assert((a + b)[k] == b[k - a.len()]);
        }
    }
}

/// The parts of a message are sent in order.
proof fn lemma_message_sent(role: Role, content: Seq<PartV>, list: Seq<MessageV>)
    ensures
        matched(
            under(turn_role(role), part_list(content, history_names(list))),
            asked_in(role, content),
            list,
        ),
    decreases content.len(),
{
    let names = history_names(list);
    let wire = under(turn_role(role), part_list(content, names));
    if content.len() > 0 {
        let fewer = content.drop_last();
        lemma_message_sent(role, fewer, list);
        lemma_carries(content.last(), list);
        let before = under(turn_role(role), part_list(fewer, names));
        if let Some(part) = part_json(content.last(), names) {
            assert(wire =~= before.push((Some(turn_role(role)), part)));
            let single = seq![(Some(turn_role(role)), part)];
            let wanted = seq![(role, content.last())];
            assert(matched(single, wanted, list));
            lemma_matched(before, single, asked_in(role, fewer), wanted, list);
            assert(before + single =~= wire);
            assert(asked_in(role, fewer) + wanted =~= asked_in(role, content));
        }
    }
}

/// The parts of a conversation are sent in order.
proof fn lemma_conversation_sent(part: Seq<MessageV>, list: Seq<MessageV>)
    ensures
        matched(
            sent_parts(turn_values(turns(part, history_names(list)), "parts"@)),
            asked(part),
            list,
        ),
    decreases part.len(),
{
    if part.len() == 0 {
        assert(turn_values(turns(part, history_names(list)), "parts"@).len() == 0);
    } else {
        lemma_conversation_sent(part.drop_last(), list);
        let message = part.last();
        if !message.is_instruction() {
            let before = turns(part.drop_last(), history_names(list));
            let parts = part_list(message.content, history_names(list));
            lemma_sent_turn(before, turn_role(message.role), parts);
            lemma_message_sent(message.role, message.content, list);
            lemma_matched(
                sent_parts(turn_values(before, "parts"@)),
                under(turn_role(message.role), parts),
                asked(part.drop_last()),
                asked_in(message.role, message.content),
                list,
            );
        }
    }
}

/// Every part of the conversation that has a form in this protocol is sent,
/// once, in order, under the role that spoke it: texts, media, thoughts, calls
/// and results, each with what it holds.
pub proof fn law_gemini_sends_every_part(request: RequestV, route: RouteV, stream: bool)
    requires
        functions_alone(request),
        untouched(request, route, "contents"@),
    ensures
        matched(
            sent_parts(sent_body(request, route, stream).items_at("contents"@)),
            asked(request.messages),
            request.messages,
        ),
{
    lemma_keys();
    lemma_sent(request, route, stream, "contents"@);
    lemma_conversation_sent(request.messages, request.messages);
}

/// The system instruction a body sends, or nothing.
pub open spec fn instruction_of(body: JsonV) -> Option<Seq<char>> {
    match body.get("systemInstruction"@) {
        Some(instruction) => if instruction.items_at("parts"@).len() == 1 {
            instruction.items_at("parts"@)[0].text_at("text"@)
        } else {
            None
        },
        None => None,
    }
}

/// One more instruction message of more than white space goes to the end of
/// the system instruction, behind a blank line, and any other message leaves
/// the system instruction alone.
pub proof fn law_gemini_hoists_instructions(
    request: RequestV,
    route: RouteV,
    stream: bool,
    message: MessageV,
)
    requires
        functions_alone(request),
        untouched(request, route, "systemInstruction"@),
    ensures
        ({
            let before = instruction_of(sent_body(request, route, stream));
            let after = instruction_of(sent_body(with_message(request, message), route, stream));
            let text = said(message.content);
            &&& request.messages.len() == 0 ==> before is None
            &&& if (message.role == Role::System || message.role == Role::Developer) && trim(
                text,
            ).len() > 0 {
                after == Some(
                    match before {
                        Some(before) => before + "\n\n"@ + text,
                        None => text,
                    },
                )
            } else {
                after == before
            }
        }),
{
    lemma_keys();
    let longer = with_message(request, message);
    lemma_sent(request, route, stream, "systemInstruction"@);
    lemma_sent(longer, route, stream, "systemInstruction"@);
    lemma_said(message.content);
    let list = system_texts(request.messages);
    assert(longer.messages.drop_last() =~= request.messages);
    lemma_system_texts(request.messages);
    lemma_system_texts(longer.messages);
    lemma_join_filled(list, "\n\n"@);
    if message.is_instruction() && trim(said(message.content)).len() > 0 {
        let text = said(message.content);
        lemma_trim(text);
        assert(system_texts(longer.messages) == list.push(text));
        lemma_join_filled(list.push(text), "\n\n"@);
        assert(list.push(text).drop_last() =~= list);
        if list.len() > 0 {
            assert(join(list.push(text), "\n\n"@) =~= join(list, "\n\n"@) + "\n\n"@ + text);
        } else {
            assert(join(list.push(text), "\n\n"@) =~= text);
        }
    }
}

/// A text that is not all white space is not empty.
proof fn lemma_trim(text: Seq<char>)
    requires
        trim(text).len() > 0,
    ensures
        text.len() > 0,
{
    if text.len() == 0 {
        assert(text =~= Seq::empty());
        reveal_with_fuel(crate::text::trim_end_white, 2);
        reveal_with_fuel(crate::text::trim_start_white, 2);
    }
}

/// The texts of instruction messages are not empty.
proof fn lemma_system_texts(list: Seq<MessageV>)
    ensures
        forall|i: int|
            0 <= i < system_texts(list).len() ==> (#[trigger] system_texts(list)[i]).len() > 0,
    decreases list.len(),
{
    if list.len() > 0 {
        lemma_system_texts(list.drop_last());
        let text = crate::content::plain(list.last().content);
        if trim(text).len() > 0 {
            lemma_trim(text);
        }
        let rest = system_texts(list.drop_last());
        assert forall|i: int| 0 <= i < system_texts(list).len() implies (
        #[trigger] system_texts(list)[i]).len() > 0 by {
            if i < rest.len() {
                assert(rest[i].len() > 0);
                assert(system_texts(list)[i] == rest[i]);
            }
        }
    }
}

/// Joined texts that are not empty are not empty.
proof fn lemma_join_filled(list: Seq<Seq<char>>, separator: Seq<char>)
    requires
        forall|i: int| 0 <= i < list.len() ==> (#[trigger] list[i]).len() > 0,
    ensures
        join(list, separator).len() == 0 <==> list.len() == 0,
{
    if list.len() > 0 {
        assert(list[list.len() - 1].len() > 0);
    }
}

} // verus!
