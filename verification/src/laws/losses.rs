//! Laws of what a request loses on the wire: a warning names each loss, and a
//! request that loses nothing is sent without one.

use vstd::prelude::*;

use super::requests::lemma_warned;
use super::requests::texts_alone;
use super::requests::values_alone;
use super::requests::warns_of;
use crate::content::all_json;
use crate::content::all_text;
use crate::content::carries_foreign;
use crate::content::flattens_results;
use crate::content::flattens_system;
use crate::content::foreign_signature;
use crate::content::holds_foreign;
use crate::content::mixes_result;
use crate::gemini;
use crate::openai;
use crate::openai_chat;
use crate::types::MessageV;
use crate::types::PartV;
use crate::types::RequestV;
use crate::types::Role;
use crate::types::RouteV;

verus! {

broadcast use {vstd::seq::group_seq_axioms, vstd::map::group_map_axioms};

/// A part of a conversation.
pub open spec fn is_part(list: Seq<MessageV>, i: int, j: int) -> bool {
    0 <= i < list.len() && 0 <= j < list[i].content.len()
}

/// Whether an instruction message holds anything but text.
pub open spec fn instructs_beyond_text(list: Seq<MessageV>) -> bool {
    exists|i: int, j: int| #[trigger]
        is_part(list, i, j) && (list[i].role == Role::System || list[i].role == Role::Developer)
            && !(list[i].content[j] is Text)
}

/// Whether a tool result is neither text alone nor JSON alone.
pub open spec fn answers_in_a_mix(list: Seq<MessageV>) -> bool {
    exists|i: int, j: int| #[trigger]
        is_part(list, i, j) && list[i].content[j] is ToolResult && !texts_alone(
            list[i].content[j]->ToolResult_0.content,
        ) && !values_alone(list[i].content[j]->ToolResult_0.content)
}

/// Whether a thought is signed by a provider family other than one.
pub open spec fn thinks_abroad(list: Seq<MessageV>, family: Seq<char>) -> bool {
    exists|i: int, j: int| #[trigger]
        is_part(list, i, j) && list[i].content[j] is Reasoning
            && list[i].content[j]->Reasoning_0.signature is Some
            && list[i].content[j]->Reasoning_0.signature_origin is Some
            && list[i].content[j]->Reasoning_0.signature_origin != Some(family)
}

/// Whether a tool result reports a failure.
pub open spec fn answers_with_failure(list: Seq<MessageV>) -> bool {
    exists|i: int, j: int| #[trigger]
        is_part(list, i, j) && list[i].content[j] is ToolResult
            && list[i].content[j]->ToolResult_0.is_error
}

/// Whether an instruction message holds an image or a document.
pub open spec fn instructs_by_media(list: Seq<MessageV>) -> bool {
    exists|i: int, j: int| #[trigger]
        is_part(list, i, j) && (list[i].role == Role::System || list[i].role == Role::Developer)
            && (list[i].content[j] is Image || list[i].content[j] is Document)
}

/// Whether a message holds a thought and no reasoning item to replay.
pub open spec fn thinks_without_an_item(list: Seq<MessageV>) -> bool {
    exists|i: int, j: int| #[trigger]
        is_part(list, i, j) && list[i].content[j] is Reasoning && forall|k: int|
            0 <= k < list[i].content.len() ==> !((#[trigger] list[i].content[k]) matches PartV::Opaque {
                kind,
                ..
            } && kind == "openai.reasoning"@)
}

proof fn lemma_results(list: Seq<MessageV>)
    ensures
        flattens_results(list) == answers_in_a_mix(list),
{
    assert forall|content: Seq<PartV>|
        all_text(content) == #[trigger] texts_alone(content) && all_json(content) == values_alone(
            content,
        ) by {}
    if flattens_results(list) {
        let i = choose|i: int| 0 <= i < list.len() && mixes_result((#[trigger] list[i]).content);
        let j = choose|j: int|
            0 <= j < list[i].content.len() && ((#[trigger] list[i].content[j])
                matches PartV::ToolResult(result) && !all_text(result.content) && !all_json(
                result.content,
            ));
        let content = list[i].content[j]->ToolResult_0.content;
        assert(all_text(content) == texts_alone(content));
        assert(all_json(content) == values_alone(content));
        assert(is_part(list, i, j));
    }
    if answers_in_a_mix(list) {
        let (i, j) = choose|i: int, j: int| #[trigger]
            is_part(list, i, j) && list[i].content[j] is ToolResult && !texts_alone(
                list[i].content[j]->ToolResult_0.content,
            ) && !values_alone(list[i].content[j]->ToolResult_0.content);
        assert(mixes_result(list[i].content));
    }
}

proof fn lemma_system(list: Seq<MessageV>)
    ensures
        flattens_system(list) == instructs_beyond_text(list),
        openai::encode::instructs_with_media(list) == instructs_by_media(list),
{
    if flattens_system(list) {
        let i = choose|i: int|
            0 <= i < list.len() && (#[trigger] list[i]).is_instruction() && !all_text(
                list[i].content,
            );
        let j = choose|j: int|
            0 <= j < list[i].content.len() && !(#[trigger] list[i].content[j] is Text);
        assert(is_part(list, i, j));
    }
    if instructs_beyond_text(list) {
        let (i, j) = choose|i: int, j: int| #[trigger]
            is_part(list, i, j) && (list[i].role == Role::System || list[i].role
                == Role::Developer) && !(list[i].content[j] is Text);
        assert(list[i].is_instruction());
        assert(!all_text(list[i].content));
    }
    if openai::encode::instructs_with_media(list) {
        let i = choose|i: int|
            0 <= i < list.len() && (#[trigger] list[i]).is_instruction()
                && openai::encode::has_media(list[i].content);
        let j = choose|j: int|
            0 <= j < list[i].content.len() && (#[trigger] list[i].content[j] is Image
                || list[i].content[j] is Document);
        assert(is_part(list, i, j));
    }
    if instructs_by_media(list) {
        let (i, j) = choose|i: int, j: int| #[trigger]
            is_part(list, i, j) && (list[i].role == Role::System || list[i].role
                == Role::Developer) && (list[i].content[j] is Image || list[i].content[j]
                is Document);
        assert(list[i].is_instruction());
        assert(openai::encode::has_media(list[i].content));
    }
}

proof fn lemma_foreign(list: Seq<MessageV>)
    ensures
        carries_foreign(list, "gemini"@) == thinks_abroad(list, "gemini"@),
{
    if carries_foreign(list, "gemini"@) {
        let i = choose|i: int|
            0 <= i < list.len() && holds_foreign((#[trigger] list[i]).content, "gemini"@);
        let j = choose|j: int|
            0 <= j < list[i].content.len() && ((#[trigger] list[i].content[j])
                matches PartV::Reasoning(reasoning) && foreign_signature(reasoning, "gemini"@));
        assert(is_part(list, i, j));
    }
    if thinks_abroad(list, "gemini"@) {
        let (i, j) = choose|i: int, j: int| #[trigger]
            is_part(list, i, j) && list[i].content[j] is Reasoning
                && list[i].content[j]->Reasoning_0.signature is Some
                && list[i].content[j]->Reasoning_0.signature_origin is Some
                && list[i].content[j]->Reasoning_0.signature_origin != Some("gemini"@);
        assert(holds_foreign(list[i].content, "gemini"@));
    }
}

proof fn lemma_failures(list: Seq<MessageV>)
    ensures
        openai_chat::reports_failure(list) == answers_with_failure(list),
{
    if openai_chat::reports_failure(list) {
        let i = choose|i: int|
            0 <= i < list.len() && openai_chat::holds_failure((#[trigger] list[i]).content);
        let j = choose|j: int|
            0 <= j < list[i].content.len() && ((#[trigger] list[i].content[j])
                matches PartV::ToolResult(result) && result.is_error);
        assert(is_part(list, i, j));
    }
    if answers_with_failure(list) {
        let (i, j) = choose|i: int, j: int| #[trigger]
            is_part(list, i, j) && list[i].content[j] is ToolResult
                && list[i].content[j]->ToolResult_0.is_error;
        assert(openai_chat::holds_failure(list[i].content));
    }
}

proof fn lemma_orphans(list: Seq<MessageV>)
    ensures
        openai::encode::loses_reasoning(list) == thinks_without_an_item(list),
{
    if openai::encode::loses_reasoning(list) {
        let i = choose|i: int|
            0 <= i < list.len() && openai::encode::has_reasoning((#[trigger] list[i]).content)
                && !openai::encode::has_reasoning_item(list[i].content);
        let j = choose|j: int|
            0 <= j < list[i].content.len() && #[trigger] list[i].content[j] is Reasoning;
        assert(is_part(list, i, j));
    }
    if thinks_without_an_item(list) {
        let (i, j) = choose|i: int, j: int| #[trigger]
            is_part(list, i, j) && list[i].content[j] is Reasoning && forall|k: int|
                0 <= k < list[i].content.len() ==> !((#[trigger] list[i].content[k]) matches PartV::Opaque {
                    kind,
                    ..
                } && kind == "openai.reasoning"@);
        assert(openai::encode::has_reasoning(list[i].content));
        assert(!openai::encode::has_reasoning_item(list[i].content));
    }
}

/// What a `generateContent` request loses is warned of, and one that loses
/// nothing is sent without a warning.
pub proof fn law_gemini_warns_of_each_loss(request: RequestV, route: RouteV, stream: bool)
    requires
        gemini::encoded_request(request, route, stream) is Ok,
    ensures
        ({
            let warnings = gemini::encoded_request(request, route, stream)->Ok_0.warnings;
            &&& request.metadata.len() > 0 ==> warns_of(warnings, "request metadata"@)
            &&& instructs_beyond_text(request.messages) ==> warns_of(
                warnings,
                "non-text system content"@,
            )
            &&& answers_in_a_mix(request.messages) ==> warns_of(
                warnings,
                "non-text tool result content"@,
            )
            &&& request.speed is Some ==> warns_of(warnings, "the speed control"@)
            &&& request.reasoning_effort is Some && !route.reasoning_effort_levels ==> warns_of(
                warnings,
                "the reasoning effort control"@,
            )
            &&& thinks_abroad(request.messages, "gemini"@) ==> warns_of(
                warnings,
                "reasoning signed by another provider"@,
            )
            &&& warnings.len() == 0 <==> request.metadata.len() == 0 && !instructs_beyond_text(
                request.messages,
            ) && !answers_in_a_mix(request.messages) && request.speed is None && (
            request.reasoning_effort is None || route.reasoning_effort_levels) && !thinks_abroad(
                request.messages,
                "gemini"@,
            )
        }),
{
    lemma_results(request.messages);
    lemma_system(request.messages);
    lemma_foreign(request.messages);
    let list = gemini::encode::lost_controls(request, route);
    let empty = Seq::<Seq<char>>::empty();
    let l1 = gemini::encode::push_if(empty, request.metadata.len() > 0, "request metadata"@);
    let l2 = gemini::encode::push_if(
        l1,
        flattens_system(request.messages),
        "non-text system content"@,
    );
    let l3 = gemini::encode::push_if(
        l2,
        flattens_results(request.messages),
        "non-text tool result content"@,
    );
    let l4 = gemini::encode::push_if(l3, request.speed is Some, "the speed control"@);
    let l5 = gemini::encode::push_if(
        l4,
        request.reasoning_effort is Some && !route.reasoning_effort_levels,
        "the reasoning effort control"@,
    );
    if request.metadata.len() > 0 {
        lemma_listed(list, 0, "request metadata"@);
    }
    if flattens_system(request.messages) {
        lemma_listed(list, l2.len() - 1, "non-text system content"@);
    }
    if flattens_results(request.messages) {
        lemma_listed(list, l3.len() - 1, "non-text tool result content"@);
    }
    if request.speed is Some {
        lemma_listed(list, l4.len() - 1, "the speed control"@);
    }
    if request.reasoning_effort is Some && !route.reasoning_effort_levels {
        lemma_listed(list, l5.len() - 1, "the reasoning effort control"@);
    }
    if carries_foreign(request.messages, "gemini"@) {
        lemma_listed(list, list.len() - 1, "reasoning signed by another provider"@);
    }
}

/// A control at some place of a list is warned of.
proof fn lemma_listed(list: Seq<Seq<char>>, at: int, control: Seq<char>)
    requires
        0 <= at < list.len(),
        list[at] == control,
    ensures
        warns_of(crate::response::control_warnings(list), control),
{
    assert(list.contains(control));
    lemma_warned(list, control);
}

/// What a completion request loses is warned of, and one that loses nothing is
/// sent without a warning.
pub proof fn law_chat_warns_of_each_loss(
    request: RequestV,
    route: RouteV,
    stream: bool,
    at_root: bool,
)
    requires
        openai_chat::encoded_request(request, route, stream, at_root) is Ok,
    ensures
        ({
            let warnings = openai_chat::encoded_request(
                request,
                route,
                stream,
                at_root,
            )->Ok_0.warnings;
            &&& request.metadata.len() > 0 ==> warns_of(warnings, "request metadata"@)
            &&& request.speed is Some ==> warns_of(warnings, "the speed control"@)
            &&& answers_with_failure(request.messages) ==> warns_of(
                warnings,
                "the tool result error flag"@,
            )
            &&& answers_in_a_mix(request.messages) ==> warns_of(
                warnings,
                "non-text tool result content"@,
            )
            &&& warnings.len() == 0 <==> request.metadata.len() == 0 && request.speed is None
                && !answers_with_failure(request.messages) && !answers_in_a_mix(request.messages)
        }),
{
    lemma_results(request.messages);
    lemma_failures(request.messages);
    let list = openai_chat::lost_controls(request);
    let empty = Seq::<Seq<char>>::empty();
    let l1 = gemini::encode::push_if(empty, request.metadata.len() > 0, "request metadata"@);
    let l2 = gemini::encode::push_if(l1, request.speed is Some, "the speed control"@);
    let l3 = gemini::encode::push_if(
        l2,
        openai_chat::reports_failure(request.messages),
        "the tool result error flag"@,
    );
    if request.metadata.len() > 0 {
        lemma_listed(list, 0, "request metadata"@);
    }
    if request.speed is Some {
        lemma_listed(list, l2.len() - 1, "the speed control"@);
    }
    if openai_chat::reports_failure(request.messages) {
        lemma_listed(list, l3.len() - 1, "the tool result error flag"@);
    }
    if flattens_results(request.messages) {
        lemma_listed(list, list.len() - 1, "non-text tool result content"@);
    }
}

/// What a Responses request loses is warned of, and one that loses nothing is
/// sent without a warning.
pub proof fn law_responses_warns_of_each_loss(
    request: RequestV,
    route: RouteV,
    codex: bool,
    stream: bool,
)
    requires
        openai::encoded_request(request, route, codex, stream) is Ok,
    ensures
        ({
            let warnings = openai::encoded_request(request, route, codex, stream)->Ok_0.warnings;
            &&& thinks_without_an_item(request.messages) ==> warns_of(
                warnings,
                "replaying reasoning text"@,
            )
            &&& answers_in_a_mix(request.messages) ==> warns_of(
                warnings,
                "non-text tool result content"@,
            )
            &&& codex && instructs_beyond_text(request.messages) ==> warns_of(
                warnings,
                "non-text system content"@,
            )
            &&& !codex && instructs_by_media(request.messages) ==> warns_of(
                warnings,
                "non-text system content"@,
            )
            &&& codex && request.temperature is Some ==> warns_of(
                warnings,
                "temperature in Codex mode"@,
            )
            &&& codex && request.top_p is Some ==> warns_of(warnings, "top_p in Codex mode"@)
            &&& codex && request.max_output_tokens is Some ==> warns_of(
                warnings,
                "max_output_tokens in Codex mode"@,
            )
            &&& request.stop_sequences.len() > 0 ==> warns_of(warnings, "stop sequences"@)
            &&& warnings.len() == 0 <==> !thinks_without_an_item(request.messages)
                && !answers_in_a_mix(request.messages) && request.stop_sequences.len() == 0 && (
            if codex {
                !instructs_beyond_text(request.messages) && request.temperature is None
                    && request.top_p is None && request.max_output_tokens is None
            } else {
                !instructs_by_media(request.messages)
            })
        }),
{
    lemma_results(request.messages);
    lemma_system(request.messages);
    lemma_orphans(request.messages);
    let list = openai::encode::lost_controls(request, codex);
    let empty = Seq::<Seq<char>>::empty();
    let l1 = gemini::encode::push_if(
        empty,
        openai::encode::loses_reasoning(request.messages),
        "replaying reasoning text"@,
    );
    let l2 = gemini::encode::push_if(
        l1,
        flattens_results(request.messages),
        "non-text tool result content"@,
    );
    let l3 = gemini::encode::push_if(
        l2,
        openai::encode::flattens_instructions(request.messages, codex),
        "non-text system content"@,
    );
    let lost = openai::encode::codex_losses(request);
    if openai::encode::loses_reasoning(request.messages) {
        lemma_listed(list, 0, "replaying reasoning text"@);
    }
    if flattens_results(request.messages) {
        lemma_listed(list, l2.len() - 1, "non-text tool result content"@);
    }
    if openai::encode::flattens_instructions(request.messages, codex) {
        lemma_listed(list, l3.len() - 1, "non-text system content"@);
    }
    if codex {
        let c1 = gemini::encode::push_if(
            empty,
            request.temperature is Some,
            "temperature in Codex mode"@,
        );
        let c2 = gemini::encode::push_if(c1, request.top_p is Some, "top_p in Codex mode"@);
        if request.temperature is Some {
            lemma_listed(list, l3.len() as int, "temperature in Codex mode"@);
        }
        if request.top_p is Some {
            lemma_listed(list, l3.len() + c2.len() - 1, "top_p in Codex mode"@);
        }
        if request.max_output_tokens is Some {
            lemma_listed(list, l3.len() + lost.len() - 1, "max_output_tokens in Codex mode"@);
        }
    }
    if request.stop_sequences.len() > 0 {
        lemma_listed(list, list.len() - 1, "stop sequences"@);
    }
}

} // verus!
