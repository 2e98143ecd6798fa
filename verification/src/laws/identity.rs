//! Laws of tool-call identity.

use vstd::prelude::*;

use crate::gemini::decode::decoded;
use crate::gemini::identity::call_id;
use crate::gemini::identity::synthesized_id;
use crate::json::JsonV;
use crate::text::decimal;
use crate::text::digit;
use crate::types::RouteV;

verus! {

broadcast use vstd::seq::group_seq_axioms;

/// A number has one decimal spelling.
pub proof fn lemma_decimal_injective(a: nat, b: nat)
    requires
        decimal(a) == decimal(b),
    ensures
        a == b,
    decreases a,
{
    assert(decimal(a).last() == digit(a % 10));
    assert(decimal(b).last() == digit(b % 10));
    assert(a % 10 == b % 10);
    lemma_decimal_len(a);
    lemma_decimal_len(b);
    if a >= 10 {
        assert(decimal(a).drop_last() =~= decimal(a / 10));
        assert(decimal(b).drop_last() =~= decimal(b / 10));
        lemma_decimal_injective(a / 10, b / 10);
    }
}

/// A spelling has a digit, and more than one from ten up.
proof fn lemma_decimal_len(a: nat)
    ensures
        decimal(a).len() > 0,
        a < 10 <==> decimal(a).len() == 1,
    decreases a,
{
    if a >= 10 {
        lemma_decimal_len(a / 10);
    }
}

/// Two calls of one function in one response have different ids.
pub proof fn law_calls_of_one_response_differ(
    name: Seq<char>,
    scope: Seq<char>,
    first: nat,
    second: nat,
)
    requires
        first != second,
    ensures
        synthesized_id(name, first, scope) != synthesized_id(name, second, scope),
{
    let a = synthesized_id(name, first, scope);
    let b = synthesized_id(name, second, scope);
    if a == b {
        let start = name.len() + "-"@.len();
        let width = decimal(first).len();
        assert(a.len() == start + width + "-"@.len() + scope.len());
        assert(b.len() == start + decimal(second).len() + "-"@.len() + scope.len());
        assert(width == decimal(second).len());
        assert(a.subrange(start as int, (start + width) as int) =~= decimal(first));
        assert(b.subrange(start as int, (start + width) as int) =~= decimal(second));
        lemma_decimal_injective(first, second);
    }
}

/// The same call in two responses has different ids.
pub proof fn law_responses_share_no_id(
    name: Seq<char>,
    ordinal: nat,
    first: Seq<char>,
    second: Seq<char>,
)
    requires
        first != second,
    ensures
        synthesized_id(name, ordinal, first) != synthesized_id(name, ordinal, second),
{
    let a = synthesized_id(name, ordinal, first);
    let b = synthesized_id(name, ordinal, second);
    if a == b {
        let start = (name.len() + "-"@.len() + decimal(ordinal).len() + "-"@.len()) as int;
        assert(a.skip(start) =~= first);
        assert(b.skip(start) =~= second);
    }
}

/// A synthesized id starts with the readable name and ordinal of its call.
pub proof fn law_ids_stay_readable(name: Seq<char>, ordinal: nat, scope: Seq<char>)
    ensures
        (name + "-"@ + decimal(ordinal)).is_prefix_of(synthesized_id(name, ordinal, scope)),
{
    let prefix = name + "-"@ + decimal(ordinal);
    assert(synthesized_id(name, ordinal, scope).take(prefix.len() as int) =~= prefix);
}

/// An id the provider gave is kept, whatever else the response holds.
pub proof fn law_provider_ids_are_kept(
    function_call: JsonV,
    name: Seq<char>,
    scope: Seq<char>,
    ordinal: nat,
    id: Seq<char>,
)
    requires
        function_call.text_at("id"@) == Some(id),
        id.len() > 0,
    ensures
        call_id(function_call, name, scope, ordinal) == id,
{
}

/// Decoding one response that has an id twice gives the same response: the
/// nonce plays no part.
pub proof fn law_a_named_response_decodes_alike(
    route: RouteV,
    value: JsonV,
    first: Seq<char>,
    second: Seq<char>,
)
    requires
        value.text_at("responseId"@) is Some,
    ensures
        decoded(route, value, first) == decoded(route, value, second),
{
}

} // verus!
