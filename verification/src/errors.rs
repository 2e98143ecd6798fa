//! The classified failures the codecs report.

use vstd::prelude::*;
use vstd::string::*;

use crate::json::lemma_model;
use crate::json::owned_model_opt;
use crate::json::Json;
use crate::json::JsonV;
use crate::response::CallError;
use crate::response::ErrorKind;
use crate::response::ErrorV;
use crate::response::RetryClassification;
use crate::text::concat3;
use crate::text::owned_opt;
use crate::text::same;
use crate::types::ResolvedRoute;
use crate::types::RouteV;

verus! {

broadcast use {vstd::std_specs::vec::group_vec_axioms, vstd::seq::group_seq_axioms, lemma_model};

/// A sentence about the provider of a route.
pub open spec fn of_provider(route: RouteV, detail: Seq<char>) -> Seq<char> {
    "provider "@ + route.provider + " "@ + detail
}

/// Says something about the provider of a route.
pub fn about(route: &ResolvedRoute, detail: &str) -> (r: String)
    ensures
        r@ == of_provider(route@, detail@),
{
    let mut text: String = concat3("provider ", route.provider.id.as_str(), " ");
    text.append(detail);
    text
}

/// A request that needs what the protocol does not have.
pub open spec fn unsupported(route: RouteV, capability: Seq<char>) -> ErrorV {
    ErrorV {
        kind: ErrorKind::InvalidRequest,
        message: of_provider(route, "does not support "@ + capability),
        provider: Some(route.provider),
        provider_code: Some("unsupported_capability"@),
        retry: RetryClassification::Never,
        raw_data: None,
        sourced: false,
    }
}

/// Refuses a request that needs what the protocol does not have.
pub fn unsupported_capability(route: &ResolvedRoute, capability: &str) -> (r: CallError)
    ensures
        r@ == unsupported(route@, capability@),
{
    CallError {
        kind: ErrorKind::InvalidRequest,
        message: about(route, crate::text::concat2("does not support ", capability).as_str()),
        provider: Some(route.provider.id.as_str().to_owned()),
        provider_code: Some("unsupported_capability".to_owned()),
        retry: RetryClassification::Never,
        raw_data: None,
        source: None,
    }
}

/// A success body that does not match the protocol. A malformed body cannot be
/// told from a garbled one, so a fresh attempt is safe.
pub open spec fn malformed(route: RouteV, message: Seq<char>, raw: Option<JsonV>) -> ErrorV {
    ErrorV {
        kind: ErrorKind::ResponseDecode,
        message,
        provider: Some(route.provider),
        provider_code: None,
        retry: RetryClassification::Safe,
        raw_data: raw,
        sourced: false,
    }
}

/// Reports a success body that does not match the protocol.
pub fn malformed_success(route: &ResolvedRoute, message: String, raw: Option<Json>) -> (r:
    CallError)
    ensures
        r@ == malformed(route@, message@, owned_model_opt(raw)),
{
    CallError {
        kind: ErrorKind::ResponseDecode,
        message,
        provider: Some(route.provider.id.as_str().to_owned()),
        provider_code: None,
        retry: RetryClassification::Safe,
        raw_data: raw,
        source: None,
    }
}

/// A token count body that does not match the protocol.
pub open spec fn miscounted(route: RouteV, message: Seq<char>, raw: JsonV) -> ErrorV {
    ErrorV {
        kind: ErrorKind::ResponseDecode,
        message,
        provider: Some(route.provider),
        provider_code: None,
        retry: RetryClassification::Never,
        raw_data: Some(raw),
        sourced: false,
    }
}

/// Reports a token count body that does not match the protocol.
pub fn malformed_count(route: &ResolvedRoute, message: &str, raw: Json) -> (r: CallError)
    ensures
        r@ == miscounted(route@, message@, raw@),
{
    CallError {
        kind: ErrorKind::ResponseDecode,
        message: message.to_owned(),
        provider: Some(route.provider.id.as_str().to_owned()),
        provider_code: None,
        retry: RetryClassification::Never,
        raw_data: Some(raw),
        source: None,
    }
}

/// A stream that does not match the protocol.
pub open spec fn garbled(route: RouteV, message: Seq<char>, raw: Option<JsonV>) -> ErrorV {
    ErrorV {
        kind: ErrorKind::StreamDecode,
        message,
        provider: Some(route.provider),
        provider_code: None,
        retry: RetryClassification::Safe,
        raw_data: raw,
        sourced: false,
    }
}

/// Reports a stream that does not match the protocol.
pub fn malformed_stream(route: &ResolvedRoute, message: String, raw: Option<Json>) -> (r: CallError)
    ensures
        r@ == garbled(route@, message@, owned_model_opt(raw)),
{
    CallError {
        kind: ErrorKind::StreamDecode,
        message,
        provider: Some(route.provider.id.as_str().to_owned()),
        provider_code: None,
        retry: RetryClassification::Safe,
        raw_data: raw,
        source: None,
    }
}

/// A stream event that is not JSON.
pub open spec fn unparsed(route: RouteV, message: Seq<char>) -> ErrorV {
    ErrorV { sourced: true, ..garbled(route, message, None) }
}

/// Reports a stream event that is not JSON, with the parse error behind it.
pub fn invalid_stream_event(
    route: &ResolvedRoute,
    message: String,
    source: serde_json::Error,
) -> (r: CallError)
    ensures
        r@ == unparsed(route@, message@),
        r.source == Some(source),
{
    CallError {
        kind: ErrorKind::StreamDecode,
        message,
        provider: Some(route.provider.id.as_str().to_owned()),
        provider_code: None,
        retry: RetryClassification::Safe,
        raw_data: None,
        source: Some(source),
    }
}

/// An answer a content policy withheld.
pub open spec fn filtered(
    route: RouteV,
    code: Seq<char>,
    detail: Seq<char>,
    raw: Option<JsonV>,
) -> ErrorV {
    ErrorV {
        kind: ErrorKind::ContentFilter,
        message: of_provider(route, detail),
        provider: Some(route.provider),
        provider_code: Some(code),
        retry: RetryClassification::Never,
        raw_data: raw,
        sourced: false,
    }
}

/// Reports an answer a content policy withheld, under the provider's code.
pub fn content_filter(route: &ResolvedRoute, code: &str, detail: &str, raw: Option<Json>) -> (r:
    CallError)
    ensures
        r@ == filtered(route@, code@, detail@, owned_model_opt(raw)),
{
    CallError {
        kind: ErrorKind::ContentFilter,
        message: about(route, detail),
        provider: Some(route.provider.id.as_str().to_owned()),
        provider_code: Some(code.to_owned()),
        retry: RetryClassification::Never,
        raw_data: raw,
        source: None,
    }
}

/// An answer the model refused to give.
pub open spec fn refused(route: RouteV, explanation: Seq<char>, raw: Option<JsonV>) -> ErrorV {
    filtered(route, "refusal"@, "refused the request: "@ + explanation, raw)
}

/// Reports an answer the model refused to give. A refusal is a failure, not a
/// short answer.
pub fn refusal(route: &ResolvedRoute, explanation: &str, raw: Option<Json>) -> (r: CallError)
    ensures
        r@ == refused(route@, explanation@, owned_model_opt(raw)),
{
    content_filter(
        route,
        "refusal",
        crate::text::concat2("refused the request: ", explanation).as_str(),
        raw,
    )
}

/// The error object of a provider's error document.
pub open spec fn error_object(document: JsonV) -> JsonV {
    match document.get("error"@) {
        Some(JsonV::Object(error)) => JsonV::Object(error),
        _ => document,
    }
}

/// The first of several texts that is there.
pub open spec fn first_text(a: Option<Seq<char>>, b: Option<Seq<char>>) -> Option<Seq<char>> {
    if a is Some { a } else { b }
}

/// The code of a provider's error: its `code`, its gRPC `status`, or its
/// `type`.
pub open spec fn error_code(document: JsonV) -> Option<Seq<char>> {
    let error = error_object(document);
    first_text(
        error.text_at("code"@),
        first_text(error.text_at("status"@), error.text_at("type"@)),
    )
}

/// The kind of failure a provider's code names.
pub open spec fn code_kind(code: Option<Seq<char>>) -> ErrorKind {
    match code {
        Some(code) => if code == "rate_limit_exceeded"@ || code == "rate_limit_error"@ || code
            == "RESOURCE_EXHAUSTED"@ {
            ErrorKind::RateLimit
        } else if code == "content_filter"@ || code == "SAFETY"@ {
            ErrorKind::ContentFilter
        } else if code == "invalid_request_error"@ || code == "INVALID_ARGUMENT"@ {
            ErrorKind::InvalidRequest
        } else {
            ErrorKind::Provider
        },
        None => ErrorKind::Provider,
    }
}

/// The failure a provider's error document reports.
pub open spec fn reported(route: RouteV, document: JsonV) -> ErrorV {
    let kind = code_kind(error_code(document));
    ErrorV {
        kind,
        message: of_provider(
            route,
            match error_object(document).text_at("message"@) {
                Some(message) => "failed: "@ + message,
                None => "failed"@,
            },
        ),
        provider: Some(route.provider),
        provider_code: error_code(document),
        retry: if kind == ErrorKind::RateLimit || kind == ErrorKind::Provider {
            RetryClassification::Safe
        } else {
            RetryClassification::Never
        },
        raw_data: Some(document),
        sourced: false,
    }
}

/// Classifies the error document a provider sent.
pub fn provider_error(route: &ResolvedRoute, document: Json) -> (r: CallError)
    ensures
        r@ == reported(route@, document@),
{
    let error: &Json = match document.get("error") {
        Some(error) => if error.is_object() {
            error
        } else {
            &document
        },
        None => &document,
    };
    let code: Option<String> = match error.text_at("code") {
        Some(code) => Some(code.to_owned()),
        None => match error.text_at("status") {
            Some(status) => Some(status.to_owned()),
            None => owned_opt(error.text_at("type")),
        },
    };
    let kind: ErrorKind = match &code {
        Some(code) => {
            let code: &str = code.as_str();
            if same(code, "rate_limit_exceeded") || same(code, "rate_limit_error") || same(
                code,
                "RESOURCE_EXHAUSTED",
            ) {
                ErrorKind::RateLimit
            } else if same(code, "content_filter") || same(code, "SAFETY") {
                ErrorKind::ContentFilter
            } else if same(code, "invalid_request_error") || same(code, "INVALID_ARGUMENT") {
                ErrorKind::InvalidRequest
            } else {
                ErrorKind::Provider
            }
        },
        None => ErrorKind::Provider,
    };
    let message: String = match error.text_at("message") {
        Some(message) => about(route, crate::text::concat2("failed: ", message).as_str()),
        None => about(route, "failed"),
    };
    let retry: RetryClassification = if kind == ErrorKind::RateLimit || kind
        == ErrorKind::Provider {
        RetryClassification::Safe
    } else {
        RetryClassification::Never
    };
    CallError {
        kind,
        message,
        provider: Some(route.provider.id.as_str().to_owned()),
        provider_code: code,
        retry,
        raw_data: Some(document),
        source: None,
    }
}

} // verus!
