//! Laws of failures: what a provider reports is what the caller is told.

use vstd::prelude::*;

use crate::errors::reported;
use crate::gemini;
use crate::json::JsonV;
use crate::openai;
use crate::openai_chat;
use crate::response::ErrorKind;
use crate::response::ErrorV;
use crate::response::RetryClassification;
use crate::serial::parsed;
use crate::types::RouteV;

verus! {

broadcast use {vstd::seq::group_seq_axioms, vstd::map::group_map_axioms};

/// The error object of a document: its `error` member, or the document.
pub open spec fn error_in(document: JsonV) -> JsonV {
    match document.get("error"@) {
        Some(JsonV::Object(error)) => JsonV::Object(error),
        _ => document,
    }
}

/// The code a provider gives an error, under the first of its names.
pub open spec fn code_in(document: JsonV) -> Option<Seq<char>> {
    let error = error_in(document);
    match (error.text_at("code"@), error.text_at("status"@), error.text_at("type"@)) {
        (Some(code), _, _) => Some(code),
        (None, Some(status), _) => Some(status),
        (None, None, kind) => kind,
    }
}

/// Whether an error tells the caller what a document reports: the provider,
/// its code, its words and the document, of the kind the code names, and
/// whether to try again.
pub open spec fn tells(error: ErrorV, route: RouteV, document: JsonV) -> bool {
    let code = code_in(document);
    let busy = code == Some("rate_limit_exceeded"@) || code == Some("rate_limit_error"@) || code
        == Some("RESOURCE_EXHAUSTED"@);
    let filtered = code == Some("content_filter"@) || code == Some("SAFETY"@);
    let invalid = code == Some("invalid_request_error"@) || code == Some("INVALID_ARGUMENT"@);
    &&& error.provider == Some(route.provider)
    &&& error.provider_code == code
    &&& error.raw_data == Some(document)
    &&& !error.sourced
    &&& error.message == "provider "@ + route.provider + " "@ + (match error_in(document).text_at(
        "message"@,
    ) {
        Some(message) => "failed: "@ + message,
        None => "failed"@,
    })
    &&& busy ==> error.kind == ErrorKind::RateLimit && error.retry == RetryClassification::Safe
    &&& filtered ==> error.kind == ErrorKind::ContentFilter && error.retry
        == RetryClassification::Never
    &&& invalid ==> error.kind == ErrorKind::InvalidRequest && error.retry
        == RetryClassification::Never
    &&& !busy && !filtered && !invalid ==> error.kind == ErrorKind::Provider && error.retry
        == RetryClassification::Safe
}

proof fn lemma_words()
    ensures
        "rate_limit_exceeded"@.len() == 19,
        "rate_limit_error"@.len() == 16,
        "RESOURCE_EXHAUSTED"@.len() == 18,
        "content_filter"@.len() == 14,
        "SAFETY"@.len() == 6,
        "invalid_request_error"@.len() == 21,
        "INVALID_ARGUMENT"@.len() == 16,
        "rate_limit_error"@[0] == 'r',
        "INVALID_ARGUMENT"@[0] == 'I',
{
    reveal_strlit("rate_limit_exceeded");
    reveal_strlit("rate_limit_error");
    reveal_strlit("RESOURCE_EXHAUSTED");
    reveal_strlit("content_filter");
    reveal_strlit("SAFETY");
    reveal_strlit("invalid_request_error");
    reveal_strlit("INVALID_ARGUMENT");
}

/// A provider's error document is told as it is.
pub proof fn law_errors_are_told(route: RouteV, document: JsonV)
    ensures
        tells(reported(route, document), route, document),
{
    lemma_words();
}

/// A Chat Completions chunk that reports an error fails the stream with it,
/// and one that is no JSON fails it with the parse error behind it.
pub proof fn law_chat_streams_tell_errors(s: openai_chat::stream::ChatV, data: Seq<char>)
    requires
        !s.failed,
        data != "[DONE]"@,
    ensures
        ({
            let result = openai_chat::stream::event_step(s, data).1;
            &&& parsed(data) is None ==> result is Err && result->Err_0.kind
                == ErrorKind::StreamDecode && result->Err_0.sourced && result->Err_0.retry
                == RetryClassification::Safe && result->Err_0.provider == Some(s.route.provider)
            &&& parsed(data) is Some && parsed(data)->0.get("error"@) is Some && !(parsed(
                data,
            )->0.get("error"@)->0 is Null) ==> result is Err && tells(
                result->Err_0,
                s.route,
                parsed(data)->0,
            )
        }),
{
    if parsed(data) is Some {
        law_errors_are_told(s.route, parsed(data)->0);
    }
}

/// A Gemini chunk that reports an error or blocks the prompt is a failure, and
/// so is one that is no JSON.
pub proof fn law_gemini_streams_tell_errors(route: RouteV, data: Seq<char>)
    ensures
        ({
            let failure = gemini::stream::chunk_failure(route, data);
            let value = parsed(data)->0;
            let reports = value.get("error"@) is Some && !(value.get("error"@)->0 is Null);
            &&& parsed(data) is None ==> failure is Some && failure->0.kind
                == ErrorKind::StreamDecode && failure->0.sourced && failure->0.retry
                == RetryClassification::Safe && failure->0.provider == Some(route.provider)
            &&& parsed(data) is Some && reports ==> failure is Some && tells(
                failure->0,
                route,
                value,
            )
            &&& parsed(data) is Some && !reports && value.items_at("candidates"@).len() > 0
                ==> failure is None
            &&& parsed(data) is Some && !reports && value.get("candidates"@) is None ==> (
            match value.get2("promptFeedback"@, "blockReason"@) {
                Some(JsonV::Text(reason)) => failure is Some && failure->0.kind
                    == ErrorKind::ContentFilter && failure->0.provider_code == Some(reason),
                _ => failure is None,
            })
        }),
{
    if parsed(data) is Some {
        law_errors_are_told(route, parsed(data)->0);
    }
}

/// A Responses event that reports an error fails the stream with it.
pub proof fn law_responses_streams_tell_errors(route: RouteV, value: JsonV)
    ensures
        ({
            let bare = openai::stream::event_failure(route, "error"@, value);
            let failed = openai::stream::event_failure(route, "response.failed"@, value);
            let document = match value.get("response"@) {
                Some(document) => document,
                None => value,
            };
            &&& bare is Some && tells(bare->0, route, value)
            &&& failed is Some && tells(failed->0, route, document)
        }),
{
    reveal_strlit("error");
    reveal_strlit("response.failed");
    assert("error"@.len() == 5 && "response.failed"@.len() == 15);
    law_errors_are_told(route, value);
    law_errors_are_told(route, openai::stream::event_document(value));
}

} // verus!
