//! Laws of refusals: what a request is refused for is told.

use vstd::prelude::*;

use super::gemini_requests::functions_alone;
use super::responses_requests::unsendable;
use crate::errors::of_provider;
use crate::gemini;
use crate::openai;
use crate::openai_chat;
use crate::response::ErrorKind;
use crate::response::ErrorV;
use crate::response::RetryClassification;
use crate::types::MessageV;
use crate::types::PartV;
use crate::types::RequestV;
use crate::types::RouteV;

verus! {

broadcast use {vstd::seq::group_seq_axioms, vstd::map::group_map_axioms};

/// Whether an error refuses a request for good, for a capability that the
/// provider lacks.
pub open spec fn lacks(error: ErrorV, route: RouteV, capability: Seq<char>) -> bool {
    &&& error.kind == ErrorKind::InvalidRequest
    &&& error.retry == RetryClassification::Never
    &&& error.provider == Some(route.provider)
    &&& error.provider_code == Some("unsupported_capability"@)
    &&& error.message == "provider "@ + route.provider + " does not support "@ + capability
}

proof fn lemma_told(route: RouteV, capability: Seq<char>)
    ensures
        of_provider(route, "does not support "@ + capability) == "provider "@ + route.provider
            + " does not support "@ + capability,
{
    reveal_strlit(" ");
    reveal_strlit("does not support ");
    reveal_strlit(" does not support ");
    assert(" "@ + "does not support "@ =~= " does not support "@);
    assert("provider "@ + route.provider + " "@ + ("does not support "@ + capability)
        =~= "provider "@ + route.provider + (" "@ + "does not support "@) + capability);
}

/// Whether a part is audio or a document.
pub open spec fn attached(part: PartV) -> bool {
    part is Audio || part is Document
}

proof fn lemma_chat_first_in(content: Seq<PartV>, at: int)
    requires
        0 <= at < content.len(),
        attached(content[at]),
        forall|j: int| 0 <= j < at ==> !attached(#[trigger] content[j]),
    ensures
        openai_chat::unencodable_in(content) == openai_chat::unencodable(content[at]),
    decreases content.len(),
{
    let fewer = content.drop_last();
    if at < fewer.len() {
        assert forall|j: int| 0 <= j < at implies !attached(#[trigger] fewer[j]) by {
            assert(fewer[j] == content[j]);
        }
        lemma_chat_first_in(fewer, at);
    } else {
        assert forall|j: int| 0 <= j < fewer.len() implies !attached(#[trigger] fewer[j]) by {
            assert(fewer[j] == content[j]);
        }
        lemma_chat_none_in(fewer);
    }
}

proof fn lemma_chat_none_in(content: Seq<PartV>)
    requires
        forall|j: int| 0 <= j < content.len() ==> !attached(#[trigger] content[j]),
    ensures
        openai_chat::unencodable_in(content) is None,
    decreases content.len(),
{
    if content.len() > 0 {
        let fewer = content.drop_last();
        assert forall|j: int| 0 <= j < fewer.len() implies !attached(#[trigger] fewer[j]) by {
            assert(fewer[j] == content[j]);
        }
        lemma_chat_none_in(fewer);
        assert(!attached(content[content.len() - 1]));
    }
}

proof fn lemma_chat_none(list: Seq<MessageV>)
    requires
        forall|i: int, j: int|
            0 <= i < list.len() && 0 <= j < list[i].content.len() ==> !attached(
                #[trigger] list[i].content[j],
            ),
    ensures
        openai_chat::first_unencodable(list) is None,
    decreases list.len(),
{
    if list.len() > 0 {
        let fewer = list.drop_last();
        let n = list.len() - 1;
        assert forall|i: int, j: int|
            0 <= i < fewer.len() && 0 <= j < fewer[i].content.len() implies !attached(
            #[trigger] fewer[i].content[j],
        ) by {
            assert(fewer[i].content[j] == list[i].content[j]);
        }
        lemma_chat_none(fewer);
        assert forall|j: int| 0 <= j < list.last().content.len() implies !attached(
            #[trigger] list.last().content[j],
        ) by {
            assert(list.last().content[j] == list[n].content[j]);
        }
        lemma_chat_none_in(list.last().content);
    }
}

/// Whether the part at a place is the first that Chat cannot carry.
pub open spec fn chat_first(list: Seq<MessageV>, at: int, part: int) -> bool {
    &&& 0 <= at < list.len()
    &&& 0 <= part < list[at].content.len()
    &&& attached(list[at].content[part])
    &&& forall|i: int, j: int|
        0 <= i < at && 0 <= j < list[i].content.len() ==> !attached(#[trigger] list[i].content[j])
    &&& forall|j: int| 0 <= j < part ==> !attached(#[trigger] list[at].content[j])
}

proof fn lemma_chat_first(list: Seq<MessageV>, at: int, part: int)
    requires
        chat_first(list, at, part),
    ensures
        openai_chat::first_unencodable(list) == openai_chat::unencodable(list[at].content[part]),
    decreases list.len(),
{
    let fewer = list.drop_last();
    if at < fewer.len() {
        assert forall|i: int, j: int|
            0 <= i < at && 0 <= j < fewer[i].content.len() implies !attached(
            #[trigger] fewer[i].content[j],
        ) by {
            assert(fewer[i].content[j] == list[i].content[j]);
        }
        assert(fewer[at] == list[at]);
        lemma_chat_first(fewer, at, part);
    } else {
        assert forall|i: int, j: int|
            0 <= i < fewer.len() && 0 <= j < fewer[i].content.len() implies !attached(
            #[trigger] fewer[i].content[j],
        ) by {
            assert(fewer[i].content[j] == list[i].content[j]);
        }
        lemma_chat_none(fewer);
        assert(list.last() == list[at]);
        lemma_chat_first_in(list[at].content, part);
    }
}

proof fn lemma_responses_first_in(content: Seq<PartV>, at: int)
    requires
        0 <= at < content.len(),
        unsendable(content[at]),
        forall|j: int| 0 <= j < at ==> !unsendable(#[trigger] content[j]),
    ensures
        openai::encode::unencodable_in(content) == openai::encode::unencodable(content[at]),
    decreases content.len(),
{
    let fewer = content.drop_last();
    if at < fewer.len() {
        assert forall|j: int| 0 <= j < at implies !unsendable(#[trigger] fewer[j]) by {
            assert(fewer[j] == content[j]);
        }
        lemma_responses_first_in(fewer, at);
    } else {
        assert forall|j: int| 0 <= j < fewer.len() implies !unsendable(#[trigger] fewer[j]) by {
            assert(fewer[j] == content[j]);
        }
        lemma_responses_none_in(fewer);
    }
}

proof fn lemma_responses_none_in(content: Seq<PartV>)
    requires
        forall|j: int| 0 <= j < content.len() ==> !unsendable(#[trigger] content[j]),
    ensures
        openai::encode::unencodable_in(content) is None,
    decreases content.len(),
{
    if content.len() > 0 {
        let fewer = content.drop_last();
        assert forall|j: int| 0 <= j < fewer.len() implies !unsendable(#[trigger] fewer[j]) by {
            assert(fewer[j] == content[j]);
        }
        lemma_responses_none_in(fewer);
        assert(!unsendable(content[content.len() - 1]));
    }
}

proof fn lemma_responses_none(list: Seq<MessageV>)
    requires
        forall|i: int, j: int|
            0 <= i < list.len() && 0 <= j < list[i].content.len() ==> !unsendable(
                #[trigger] list[i].content[j],
            ),
    ensures
        openai::encode::first_unencodable(list) is None,
    decreases list.len(),
{
    if list.len() > 0 {
        let fewer = list.drop_last();
        let n = list.len() - 1;
        assert forall|i: int, j: int|
            0 <= i < fewer.len() && 0 <= j < fewer[i].content.len() implies !unsendable(
            #[trigger] fewer[i].content[j],
        ) by {
            assert(fewer[i].content[j] == list[i].content[j]);
        }
        lemma_responses_none(fewer);
        assert forall|j: int| 0 <= j < list.last().content.len() implies !unsendable(
            #[trigger] list.last().content[j],
        ) by {
            assert(list.last().content[j] == list[n].content[j]);
        }
        lemma_responses_none_in(list.last().content);
    }
}

/// Whether the part at a place is the first that the Responses API cannot carry.
pub open spec fn responses_first(list: Seq<MessageV>, at: int, part: int) -> bool {
    &&& 0 <= at < list.len()
    &&& 0 <= part < list[at].content.len()
    &&& unsendable(list[at].content[part])
    &&& forall|i: int, j: int|
        0 <= i < at && 0 <= j < list[i].content.len() ==> !unsendable(#[trigger] list[i].content[j])
    &&& forall|j: int| 0 <= j < part ==> !unsendable(#[trigger] list[at].content[j])
}

proof fn lemma_responses_first(list: Seq<MessageV>, at: int, part: int)
    requires
        responses_first(list, at, part),
    ensures
        openai::encode::first_unencodable(list) == openai::encode::unencodable(list[at].content[part]),
    decreases list.len(),
{
    let fewer = list.drop_last();
    if at < fewer.len() {
        assert forall|i: int, j: int|
            0 <= i < at && 0 <= j < fewer[i].content.len() implies !unsendable(
            #[trigger] fewer[i].content[j],
        ) by {
            assert(fewer[i].content[j] == list[i].content[j]);
        }
        assert(fewer[at] == list[at]);
        lemma_responses_first(fewer, at, part);
    } else {
        assert forall|i: int, j: int|
            0 <= i < fewer.len() && 0 <= j < fewer[i].content.len() implies !unsendable(
            #[trigger] fewer[i].content[j],
        ) by {
            assert(fewer[i].content[j] == list[i].content[j]);
        }
        lemma_responses_none(fewer);
        assert(list.last() == list[at]);
        lemma_responses_first_in(list[at].content, part);
    }
}

/// A Chat Completions request is refused for its custom tools, and else for
/// the first audio or document it holds, by that name.
pub proof fn law_chat_tells_what_it_refuses(
    request: RequestV,
    route: RouteV,
    stream: bool,
    at_root: bool,
    at: int,
    part: int,
)
    requires
        functions_alone(request) ==> chat_first(request.messages, at, part),
    ensures
        openai_chat::encoded_request(request, route, stream, at_root) matches Err(error) && lacks(
            error,
            route,
            if !functions_alone(request) {
                "custom tools"@
            } else if request.messages[at].content[part] is Audio {
                "audio content"@
            } else {
                "document content"@
            },
        ),
{
    assert(gemini::encode::has_custom(request.tools) <==> !functions_alone(request));
    lemma_told(route, "custom tools"@);
    lemma_told(route, "audio content"@);
    lemma_told(route, "document content"@);
    if functions_alone(request) {
        lemma_chat_first(request.messages, at, part);
    }
}

/// A Responses request is refused for the first audio, or the first inline
/// document without a name, that it holds, by that name.
pub proof fn law_responses_tells_what_it_refuses(
    request: RequestV,
    route: RouteV,
    codex: bool,
    stream: bool,
    at: int,
    part: int,
)
    requires
        responses_first(request.messages, at, part),
    ensures
        openai::encoded_request(request, route, codex, stream) matches Err(error) && lacks(
            error,
            route,
            if request.messages[at].content[part] is Audio {
                "audio content"@
            } else {
                "an inline document without a file name"@
            },
        ),
{
    lemma_told(route, "audio content"@);
    lemma_told(route, "an inline document without a file name"@);
    lemma_responses_first(request.messages, at, part);
}

/// A Gemini request is refused for its custom tools, by that name.
pub proof fn law_gemini_tells_what_it_refuses(request: RequestV, route: RouteV, stream: bool)
    requires
        !functions_alone(request),
    ensures
        gemini::encoded_request(request, route, stream) matches Err(error) && lacks(
            error,
            route,
            "custom tools"@,
        ),
{
    assert(gemini::encode::has_custom(request.tools));
    lemma_told(route, "custom tools"@);
}

} // verus!
