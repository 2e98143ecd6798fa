//! The Gemini `generateContent` wire protocol.

pub mod decode;
pub mod encode;
pub mod identity;
pub mod stream;

use vstd::prelude::*;
use vstd::string::*;

use crate::errors::malformed_count;
use crate::errors::miscounted;
use crate::json::lemma_model;
use crate::json::Json;
use crate::json::JsonV;
use crate::response::control_warnings;
use crate::response::warn_controls;
use crate::response::CallError;
use crate::response::EncodedRequest;
use crate::response::EncodedV;
use crate::response::ErrorV;
use crate::response::Method;
use crate::response::Response;
use crate::response::ResponseV;
use crate::text::hex;
use crate::types::RequestV;
use crate::types::ResolvedCall;
use crate::types::ResolvedRoute;
use crate::types::RouteV;
use decode::decode_scoped;
use decode::decoded;
use decode::first_candidate;
use decode::inputs_read;
use decode::listed_parts;
use encode::count_tokens_request;
use encode::counted_request;
use encode::dropped_controls;
use encode::generate_body;
use encode::generate_map;
use encode::lost_controls;
use encode::model_endpoint;
use encode::model_url;
use identity::response_nonce;
use stream::fresh_stream;
use stream::GeminiStreamDecoder;

verus! {

broadcast use {vstd::std_specs::vec::group_vec_axioms, vstd::seq::group_seq_axioms, lemma_model};

/// The Gemini `generateContent` and `streamGenerateContent` codec.
#[derive(Clone, Copy, Debug)]
pub struct GeminiGenerateCodec;

/// The operation a request runs.
pub open spec fn operation(stream: bool) -> Seq<char> {
    if stream {
        "streamGenerateContent?alt=sse"@
    } else {
        "generateContent"@
    }
}

/// The provider request of a call.
pub open spec fn encoded_request(request: RequestV, route: RouteV, stream: bool) -> Result<
    EncodedV,
    ErrorV,
> {
    match generate_map(request, route) {
        Err(error) => Err(error),
        Ok(body) => Ok(
            EncodedV {
                method: Method::Post,
                url: model_url(route, operation(stream)),
                body: JsonV::Object(body),
                warnings: control_warnings(lost_controls(request, route)),
                data_line_framing: true,
                applied_speed: None,
            },
        ),
    }
}

/// The input token count a body holds.
pub open spec fn token_count(route: RouteV, value: JsonV) -> Result<u64, ErrorV> {
    match value.unsigned_at("totalTokens"@) {
        Some(tokens) => Ok(tokens),
        None => Err(
            miscounted(
                route,
                "Gemini returned a token count without a totalTokens field"@,
                value,
            ),
        ),
    }
}

impl GeminiGenerateCodec {
    /// Encodes a resolved call into one provider request.
    ///
    /// `?alt=sse` sends one JSON document per `data:` line, so each line
    /// decodes on its own even when a proxy drops the blank line between
    /// events.
    pub fn encode(&self, call: &ResolvedCall, stream: bool) -> (r: Result<
        EncodedRequest,
        CallError,
    >)
        ensures
            match r {
                Ok(encoded) => encoded_request(call.request@, call.route@, stream) == Ok::<
                    EncodedV,
                    ErrorV,
                >(encoded@),
                Err(error) => encoded_request(call.request@, call.route@, stream) == Err::<
                    EncodedV,
                    ErrorV,
                >(error@),
            },
    {
        match generate_body(call) {
            Err(error) => Err(error),
            Ok(body) => {
                let operation: &'static str = if stream {
                    "streamGenerateContent?alt=sse"
                } else {
                    "generateContent"
                };
                Ok(
                    EncodedRequest {
                        method: Method::Post,
                        url: model_endpoint(&call.route, operation),
                        body: Json::Object(body),
                        warnings: warn_controls(&dropped_controls(call)),
                        data_line_framing: true,
                        applied_speed: None,
                    },
                )
            },
        }
    }

    /// Decodes one complete provider success body.
    ///
    /// The ids synthesized for function calls need a scope even when the
    /// payload names no response, so a random nonce stands in.
    pub fn decode_response(&self, route: &ResolvedRoute, value: Json) -> (r: Result<
        Response,
        CallError,
    >)
        ensures
            exists|word: u64|
                match r {
                    Ok(response) => decoded(
                        route@,
                        value@,
                        #[trigger] hex(word as nat, 16),
                    ) == Ok::<ResponseV, ErrorV>(response@),
                    Err(error) => decoded(route@, value@, hex(word as nat, 16)) == Err::<
                        ResponseV,
                        ErrorV,
                    >(error@),
                },
            first_candidate(value@) matches Some(candidate) ==> inputs_read(
                listed_parts(candidate),
            ),
    {
        let nonce: String = response_nonce();
        decode_scoped(route, value, nonce.as_str())
    }

    /// Creates the per-stream decoder that owns block identity and assembly.
    pub fn stream_decoder(&self, route: &ResolvedRoute) -> (r: GeminiStreamDecoder)
        ensures
            r@ == fresh_stream(route@, r@.nonce),
            exists|word: u64| r@.nonce == #[trigger] hex(word as nat, 16),
    {
        GeminiStreamDecoder::new(route)
    }

    /// Encodes a provider-native input token count request.
    pub fn encode_count_tokens(&self, call: &ResolvedCall) -> (r: Option<
        Result<EncodedRequest, CallError>,
    >)
        ensures
            match r {
                Some(Ok(encoded)) => counted_request(call.request@, call.route@) == Ok::<
                    EncodedV,
                    ErrorV,
                >(encoded@),
                Some(Err(error)) => counted_request(call.request@, call.route@) == Err::<
                    EncodedV,
                    ErrorV,
                >(error@),
                None => false,
            },
    {
        Some(count_tokens_request(call))
    }

    /// Decodes a provider-native input token count response.
    pub fn decode_count_tokens(&self, route: &ResolvedRoute, value: Json) -> (r: Result<
        u64,
        CallError,
    >)
        ensures
            match r {
                Ok(tokens) => token_count(route@, value@) == Ok::<u64, ErrorV>(tokens),
                Err(error) => token_count(route@, value@) == Err::<u64, ErrorV>(error@),
            },
    {
        match value.unsigned_at("totalTokens") {
            Some(tokens) => Ok(tokens),
            None => Err(
                malformed_count(
                    route,
                    "Gemini returned a token count without a totalTokens field",
                    value,
                ),
            ),
        }
    }
}

} // verus!
