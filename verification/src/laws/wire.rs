//! Laws of request bodies.

use vstd::prelude::*;

use crate::gemini;
use crate::json::JsonV;
use crate::openai;
use crate::openai_chat;
use crate::openai_chat::encode::leading;
use crate::openai_chat::encode::marked;
use crate::openai_chat::encode::previous_turn;
use crate::openai_chat::encode::turn_before;
use crate::content::push_turn;
use crate::content::TurnV;
use crate::options::AUTO_CACHE;
use crate::types::MessageV;
use crate::types::RequestV;
use crate::types::RouteV;

verus! {

broadcast use {vstd::seq::group_seq_axioms, vstd::map::group_map_axioms};

/// The control key is no field of any body.
proof fn lemma_control_is_no_field()
    ensures
        AUTO_CACHE@ == "auto_cache"@,
        AUTO_CACHE@.len() == 10,
        AUTO_CACHE@[0] == 'a',
        "model"@.len() == 5,
        "messages"@.len() == 8,
        "stream"@.len() == 6,
        "stream_options"@.len() == 14,
        "max_tokens"@[0] == 'm',
        "temperature"@.len() == 11,
        "top_p"@.len() == 5,
        "reasoning_effort"@.len() == 16,
        "stop"@.len() == 4,
        "tools"@.len() == 5,
        "tool_choice"@.len() == 11,
        "response_format"@.len() == 15,
        "prompt_cache_key"@.len() == 16,
        "systemInstruction"@.len() == 17,
        "contents"@.len() == 8,
        "generationConfig"@.len() == 16,
        "toolConfig"@[0] == 't',
        "safetySettings"@.len() == 14,
        "instructions"@.len() == 12,
        "input"@.len() == 5,
        "store"@.len() == 5,
        "include"@.len() == 7,
        "max_output_tokens"@.len() == 17,
        "reasoning"@.len() == 9,
        "service_tier"@.len() == 12,
        "text"@.len() == 4,
        "metadata"@.len() == 8,
{
    reveal_strlit("auto_cache");
    reveal_strlit("model");
    reveal_strlit("messages");
    reveal_strlit("stream");
    reveal_strlit("stream_options");
    reveal_strlit("max_tokens");
    reveal_strlit("temperature");
    reveal_strlit("top_p");
    reveal_strlit("reasoning_effort");
    reveal_strlit("stop");
    reveal_strlit("tools");
    reveal_strlit("tool_choice");
    reveal_strlit("response_format");
    reveal_strlit("prompt_cache_key");
    reveal_strlit("systemInstruction");
    reveal_strlit("contents");
    reveal_strlit("generationConfig");
    reveal_strlit("toolConfig");
    reveal_strlit("safetySettings");
    reveal_strlit("instructions");
    reveal_strlit("input");
    reveal_strlit("store");
    reveal_strlit("include");
    reveal_strlit("max_output_tokens");
    reveal_strlit("reasoning");
    reveal_strlit("service_tier");
    reveal_strlit("text");
    reveal_strlit("metadata");
}

/// Whatever the raw options hold, no codec sends the control key.
pub proof fn law_no_codec_sends_a_control(
    request: RequestV,
    route: RouteV,
    stream: bool,
    mode: bool,
)
    ensures
        gemini::encode::generate_map(request, route) matches Ok(body) ==> !body.contains_key(
            AUTO_CACHE@,
        ),
        openai_chat::encoded_request(request, route, stream, mode) matches Ok(encoded)
            ==> !encoded.body->Object_0.contains_key(AUTO_CACHE@),
        openai::encoded_request(request, route, mode, stream) matches Ok(encoded)
            ==> !encoded.body->Object_0.contains_key(AUTO_CACHE@),
{
    lemma_control_is_no_field();
    let options = crate::options::route_options(request, route);
    let controls = crate::options::control_values(options);
    assert(!openai_chat::typed_body(request, route, controls, stream).contains_key(AUTO_CACHE@));
    assert(!openai::encode::typed_body(request, route, mode, stream).contains_key(AUTO_CACHE@));
    assert forall|declarations: Seq<JsonV>| !(#[trigger] gemini::encode::typed_body(
        request,
        route,
        declarations,
    )).contains_key(AUTO_CACHE@) by {}
}

/// The Codex deployment is sent no sampling control that the raw options do
/// not name, and gets its instructions apart from the input.
pub proof fn law_codex_sends_no_sampling(request: RequestV, route: RouteV, stream: bool)
    ensures
        ({
            let body = openai::encode::typed_body(request, route, true, stream);
            &&& !body.contains_key("temperature"@)
            &&& !body.contains_key("top_p"@)
            &&& !body.contains_key("max_output_tokens"@)
            &&& body.contains_key("instructions"@)
        }),
{
    lemma_control_is_no_field();
    reveal_strlit("top_p");
    reveal_strlit("model");
    reveal_strlit("input");
    reveal_strlit("store");
    reveal_strlit("tools");
    reveal_strlit("temperature");
    reveal_strlit("tool_choice");
    assert("top_p"@[0] == 't' && "tools"@[0] == 't');
    assert("top_p"@[2] != "tools"@[2]);
    assert("top_p"@[0] != "model"@[0]);
    assert("top_p"@[0] != "input"@[0]);
    assert("top_p"@[0] != "store"@[0]);
    assert("temperature"@[1] != "tool_choice"@[1]);
}

/// The token count endpoint is sent only fields it accepts, each as the
/// generation request has it.
pub proof fn law_only_count_fields_are_counted(body: Map<Seq<char>, JsonV>, key: Seq<char>)
    ensures
        openai::projected(body).contains_key(key) <==> body.contains_key(key)
            && openai::is_count_field(key),
        openai::projected(body).contains_key(key) ==> openai::projected(body)[key] == body[key],
{
}

/// The last turn before a place stands before it.
proof fn lemma_turn_before(list: Seq<JsonV>, end: int)
    requires
        end <= list.len(),
    ensures
        turn_before(list, end) matches Some(turn) ==> 0 <= turn < end,
    decreases end,
{
    if end > 0 {
        lemma_turn_before(list, end - 1);
    }
}

/// A leading run is no longer than its conversation.
proof fn lemma_leading_bound(list: Seq<JsonV>)
    ensures
        leading(list) <= list.len(),
    decreases list.len(),
{
    if list.len() > 0 {
        lemma_leading_bound(list.drop_first());
    }
}

/// Whether two conversations are the same but at two places.
pub open spec fn same_but(before: Seq<JsonV>, after: Seq<JsonV>, one: int, other: int) -> bool {
    &&& after.len() == before.len()
    &&& forall|i: int|
        0 <= i < before.len() && i != one && i != other ==> #[trigger] after[i] == before[i]
}

/// Cache breakpoints touch two messages at most: the last of the leading
/// system messages and one user turn. Every other message is sent as it is.
pub proof fn law_breakpoints_touch_two_messages(list: Seq<JsonV>)
    ensures
        exists|turn: int| #[trigger] same_but(list, marked(list), leading(list) - 1, turn),
{
    lemma_leading_bound(list);
    let at = leading(list) as int;
    let first = if at > 0 {
        list.update(at - 1, openai_chat::encode::marked_message(list[at - 1]))
    } else {
        list
    };
    lemma_turn_before(first, first.len() as int);
    if let Some(last) = turn_before(first, first.len() as int) {
        lemma_turn_before(first, last);
    }
    let turn = match previous_turn(first) {
        Some(turn) => turn,
        None => -1,
    };
    assert(same_but(list, marked(list), at - 1, turn));
}

/// The turns of a Gemini conversation alternate: no two neighbours have one
/// role, and none is empty.
pub proof fn law_gemini_turns_alternate(
    list: Seq<MessageV>,
    names: Seq<(Seq<char>, Seq<char>)>,
)
    ensures
        alternate(gemini::encode::turns(list, names)),
    decreases list.len(),
{
    if list.len() > 0 {
        law_gemini_turns_alternate(list.drop_last(), names);
        let rest = gemini::encode::turns(list.drop_last(), names);
        let role = gemini::encode::turn_role(list.last().role);
        let parts = gemini::encode::part_list(list.last().content, names);
        lemma_push_alternates(rest, role, parts);
    }
}

/// Whether no two neighbours have one role, and none is empty.
pub open spec fn alternate(turns: Seq<TurnV>) -> bool {
    &&& forall|i: int| 0 <= i < turns.len() ==> (#[trigger] turns[i]).parts.len() > 0
    &&& forall|i: int, j: int|
        0 <= i < turns.len() && j == i + 1 && j < turns.len() ==> (#[trigger] turns[i]).role != (
        #[trigger] turns[j]).role
}

proof fn lemma_push_alternates(turns: Seq<TurnV>, role: Seq<char>, parts: Seq<JsonV>)
    requires
        alternate(turns),
    ensures
        alternate(push_turn(turns, role, parts)),
{
    let next = push_turn(turns, role, parts);
    if parts.len() > 0 {
        if turns.len() > 0 && turns.last().role == role {
            assert forall|i: int, j: int|
                0 <= i < next.len() && j == i + 1 && j < next.len() implies (
            #[trigger] next[i]).role != (#[trigger] next[j]).role by {
                assert(turns[i].role != turns[j].role);
            }
        } else {
            assert forall|i: int, j: int|
                0 <= i < next.len() && j == i + 1 && j < next.len() implies (
            #[trigger] next[i]).role != (#[trigger] next[j]).role by {
                if j < turns.len() {
                    assert(turns[i].role != turns[j].role);
                }
            }
        }
    }
}

} // verus!
