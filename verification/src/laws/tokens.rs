//! Laws of token buckets and finish reasons.

use vstd::prelude::*;

use crate::content::promoted;
use crate::gemini::decode::counter;
use crate::gemini::decode::usage_counts;
use crate::json::JsonV;
use crate::response::call_warnings;
use crate::response::disjoint_counts;
use crate::response::finished;
use crate::response::without_calls;
use crate::response::FinishV;
use crate::response::ResponseV;
use crate::types::PartV;

verus! {

broadcast use vstd::seq::group_seq_axioms;

/// Buckets are disjoint: where the details fit in their totals, every token
/// stands in one bucket.
pub proof fn law_buckets_add_up(
    input: u64,
    output: u64,
    reasoning: u64,
    cache_read: u64,
    cache_write: u64,
)
    requires
        cache_read + cache_write <= input,
        reasoning <= output,
    ensures
        disjoint_counts(input, output, reasoning, cache_read, cache_write).sum() == input + output,
{
}

/// Gemini's buckets are disjoint: where the cached tokens are part of the
/// prompt, every token stands in one bucket.
pub proof fn law_gemini_buckets_add_up(metadata: JsonV)
    requires
        counter(metadata, "cachedContentTokenCount"@) <= counter(metadata, "promptTokenCount"@),
        counter(metadata, "promptTokenCount"@) + counter(metadata, "toolUsePromptTokenCount"@)
            <= u64::MAX,
    ensures
        usage_counts(metadata).sum() == counter(metadata, "promptTokenCount"@) + counter(
            metadata,
            "toolUsePromptTokenCount"@,
        ) + counter(metadata, "candidatesTokenCount"@) + counter(metadata, "thoughtsTokenCount"@),
{
}

/// Only a plain stop is corrected by a tool call.
pub proof fn law_only_a_stop_is_promoted(reason: FinishV, called: bool)
    ensures
        !(reason is Stop) ==> promoted(reason, called) == reason,
        promoted(reason, false) == reason,
        promoted(FinishV::Stop, true) == FinishV::ToolCall,
        promoted(promoted(reason, called), called) == promoted(reason, called),
{
}

/// Dropping the calls leaves none, and nothing to warn of.
proof fn lemma_no_calls(content: Seq<PartV>)
    ensures
        forall|i: int|
            0 <= i < without_calls(content).len() ==> !(#[trigger] without_calls(content)[i]
                is ToolCall),
        without_calls(without_calls(content)) == without_calls(content),
        call_warnings(without_calls(content)) == Seq::<crate::response::WarningV>::empty(),
    decreases content.len(),
{
    if content.len() > 0 {
        lemma_no_calls(content.drop_last());
        if !(content.last() is ToolCall) {
            let rest = without_calls(content.drop_last());
            assert(without_calls(content).drop_last() =~= rest);
        }
    }
}

/// A response that stopped at its output limit carries no tool call, and any
/// other response is left alone. Finishing a response twice changes nothing.
pub proof fn law_a_cut_call_is_no_call(response: ResponseV)
    ensures
        response.finish_reason is Length ==> forall|i: int|
            0 <= i < finished(response).content.len() ==> !(#[trigger] finished(response).content[i]
                is ToolCall),
        !(response.finish_reason is Length) ==> finished(response) == response,
        finished(finished(response)) == finished(response),
{
    lemma_no_calls(response.content);
    let once = finished(response);
    assert(once.warnings + Seq::<crate::response::WarningV>::empty() =~= once.warnings);
}

} // verus!
