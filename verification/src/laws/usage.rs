//! Laws of usage and cost, read off what the provider reports.

use vstd::prelude::*;

use super::requests::calls_of;
use crate::gemini;
use crate::json::JsonV;
use crate::openai;
use crate::openai_chat;
use crate::response::call_warnings;
use crate::response::finished;
use crate::response::without_calls;
use crate::response::CostSource;
use crate::response::ResponseV;
use crate::response::TokenCounts;
use crate::types::PartV;
use crate::types::RouteV;

verus! {

broadcast use {vstd::seq::group_seq_axioms, vstd::map::group_map_axioms};

/// A count, or none.
pub open spec fn counted(value: Option<u64>) -> int {
    match value {
        Some(count) => count as int,
        None => 0,
    }
}

/// The count under two keys, one inside the other.
pub open spec fn inner(usage: JsonV, key: Seq<char>, inner: Seq<char>) -> Option<u64> {
    match usage.get2(key, inner) {
        Some(value) => value.unsigned(),
        None => None,
    }
}

/// A count, or another one where it is not there.
pub open spec fn or_else(first: Option<u64>, second: Option<u64>) -> Option<u64> {
    match first {
        Some(count) => Some(count),
        None => second,
    }
}

/// Whether buckets hold totals whose details are part of them: each detail in
/// its own bucket, and every token of a total in one.
pub open spec fn splits(
    counts: TokenCounts,
    input: int,
    output: int,
    reasoning: int,
    read: int,
    written: int,
) -> bool {
    &&& counts.cache_read == read
    &&& counts.cache_write == written
    &&& counts.reasoning == reasoning
    &&& counts.input == if read + written <= input {
        input - read - written
    } else {
        0
    }
    &&& counts.output == if reasoning <= output {
        output - reasoning
    } else {
        0
    }
}

/// The buckets of a completion's usage hold its prompt and its completion,
/// each detail under its nested or its flat name.
pub proof fn law_chat_counts_what_is_reported(usage: JsonV)
    ensures
        splits(
            openai_chat::decode::usage_counts(usage),
            counted(usage.unsigned_at("prompt_tokens"@)),
            counted(usage.unsigned_at("completion_tokens"@)),
            counted(
                or_else(
                    inner(usage, "completion_tokens_details"@, "reasoning_tokens"@),
                    usage.unsigned_at("reasoning_tokens"@),
                ),
            ),
            counted(
                or_else(
                    inner(usage, "prompt_tokens_details"@, "cached_tokens"@),
                    usage.unsigned_at("prompt_cache_hit_tokens"@),
                ),
            ),
            counted(
                or_else(
                    inner(usage, "prompt_tokens_details"@, "cache_write_tokens"@),
                    or_else(
                        inner(usage, "prompt_tokens_details"@, "cache_creation_input_tokens"@),
                        usage.unsigned_at("cache_creation_input_tokens"@),
                    ),
                ),
            ),
        ),
{
}

/// The buckets of a Responses usage hold its input and its output.
pub proof fn law_responses_counts_what_is_reported(usage: JsonV)
    ensures
        splits(
            openai::decode::usage_counts(usage),
            counted(usage.unsigned_at("input_tokens"@)),
            counted(usage.unsigned_at("output_tokens"@)),
            counted(inner(usage, "output_tokens_details"@, "reasoning_tokens"@)),
            counted(inner(usage, "input_tokens_details"@, "cached_tokens"@)),
            counted(inner(usage, "input_tokens_details"@, "cache_write_tokens"@)),
        ),
{
}

/// The buckets of a Gemini usage: the cached tokens are part of the prompt,
/// those of tool use come on top of it, and the thoughts are no part of the
/// answer.
pub proof fn law_gemini_counts_what_is_reported(metadata: JsonV)
    ensures
        ({
            let counts = gemini::decode::usage_counts(metadata);
            let prompt = counted(metadata.unsigned_at("promptTokenCount"@));
            let cached = counted(metadata.unsigned_at("cachedContentTokenCount"@));
            let used = counted(metadata.unsigned_at("toolUsePromptTokenCount"@));
            let fresh = if cached <= prompt {
                prompt - cached
            } else {
                0
            };
            &&& counts.cache_read == cached
            &&& counts.cache_write == 0
            &&& counts.output == counted(metadata.unsigned_at("candidatesTokenCount"@))
            &&& counts.reasoning == counted(metadata.unsigned_at("thoughtsTokenCount"@))
            &&& counts.input == if fresh + used <= u64::MAX {
                fresh + used
            } else {
                u64::MAX as int
            }
        }),
{
}

/// A response carries the usage its document reports, and none where it
/// reports none.
pub proof fn law_responses_carry_their_usage(route: RouteV, value: JsonV, nonce: Seq<char>)
    ensures
        openai_chat::decode::decoded(route, value) matches Ok(response) ==> response.usage
            == match value.get("usage"@) {
            Some(usage) => openai_chat::decode::usage_counts(usage),
            None => TokenCounts {
                input: 0,
                output: 0,
                reasoning: 0,
                cache_read: 0,
                cache_write: 0,
            },
        },
        openai::decode::decoded(route, value) matches Ok(response) ==> response.usage
            == match value.get("usage"@) {
            Some(usage) => openai::decode::usage_counts(usage),
            None => TokenCounts {
                input: 0,
                output: 0,
                reasoning: 0,
                cache_read: 0,
                cache_write: 0,
            },
        },
        gemini::decode::decoded(route, value, nonce) matches Ok(response) ==> response.usage
            == match value.get("usageMetadata"@) {
            Some(metadata) => gemini::decode::usage_counts(metadata),
            None => TokenCounts {
                input: 0,
                output: 0,
                reasoning: 0,
                cache_read: 0,
                cache_write: 0,
            },
        },
{
}

/// A cost the provider reports is what a completion cost, and without one
/// nothing is claimed.
pub proof fn law_chat_carries_its_cost(route: RouteV, value: JsonV)
    requires
        openai_chat::decode::decoded(route, value) is Ok,
    ensures
        ({
            let cost = openai_chat::decode::decoded(route, value)->Ok_0.cost;
            match (value.get2("usage"@, "cost"@), value.get2("cost"@, "usd"@)) {
                (Some(JsonV::Number(usd)), _) => cost is Some && cost->0.usd == usd
                    && cost->0.source == CostSource::Provider,
                (_, Some(JsonV::Number(usd))) => cost is Some && cost->0.usd == usd
                    && cost->0.source == CostSource::Provider,
                _ => cost is None,
            }
        }),
{
}

/// The parts of some content that are no calls, in order.
pub open spec fn others(content: Seq<PartV>) -> Seq<PartV>
    decreases content.len(),
{
    if content.len() == 0 {
        Seq::empty()
    } else if content.last() is ToolCall {
        others(content.drop_last())
    } else {
        others(content.drop_last()).push(content.last())
    }
}

proof fn lemma_cut(content: Seq<PartV>)
    ensures
        without_calls(content) == others(content),
        call_warnings(content).len() == calls_of(content).len(),
        forall|i: int|
            0 <= i < calls_of(content).len() ==> (#[trigger] call_warnings(content)[i]).code
                == "truncated_tool_call"@ && call_warnings(content)[i].message
                == "the output limit cut the call to "@ + calls_of(content)[i].name
                + " short, so it was dropped"@,
    decreases content.len(),
{
    if content.len() > 0 {
        let fewer = content.drop_last();
        lemma_cut(fewer);
        assert forall|i: int| 0 <= i < calls_of(content).len() implies (
        #[trigger] call_warnings(content)[i]).code == "truncated_tool_call"@ && call_warnings(
            content,
        )[i].message == "the output limit cut the call to "@ + calls_of(content)[i].name
            + " short, so it was dropped"@ by {
            if i < calls_of(fewer).len() {
                assert(call_warnings(content)[i] == call_warnings(fewer)[i]);
            }
        }
    }
}

/// A response that stopped at its output limit keeps all but its calls, and
/// warns of each of them by its name.
pub proof fn law_a_cut_call_is_warned_of(response: ResponseV)
    requires
        response.finish_reason is Length,
    ensures
        ({
            let cut = finished(response);
            let n = response.warnings.len();
            let calls = calls_of(response.content);
            &&& cut.content == others(response.content)
            &&& cut.warnings.len() == n + calls.len()
            &&& forall|i: int| 0 <= i < n ==> #[trigger] cut.warnings[i] == response.warnings[i]
            &&& forall|i: int|
                0 <= i < calls.len() ==> cut.warnings[n + i].code == "truncated_tool_call"@
                    && cut.warnings[n + i].message == "the output limit cut the call to "@ + (
                #[trigger] calls[i]).name + " short, so it was dropped"@
            &&& cut == (ResponseV { content: cut.content, warnings: cut.warnings, ..response })
        }),
{
    lemma_cut(response.content);
    let cut = finished(response);
    let n = response.warnings.len();
    let calls = calls_of(response.content);
    assert forall|i: int| 0 <= i < calls.len() implies cut.warnings[n + i].code
        == "truncated_tool_call"@ && cut.warnings[n + i].message
        == "the output limit cut the call to "@ + (#[trigger] calls[i]).name
        + " short, so it was dropped"@ by {
        assert(cut.warnings[n + i] == call_warnings(response.content)[i]);
    }
}

} // verus!
