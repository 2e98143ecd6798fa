//! The OpenAI Responses protocol, `POST /v1/responses`.
//!
//! This is the only dialect that carries custom tools, that replays
//! provider-native reasoning items verbatim, and whose stream terminates with
//! a complete response document. It is also the only one with a native input
//! token count endpoint that projects the generation body down to an
//! allowlist.

pub mod decode;
pub mod encode;
pub mod stream;

use vstd::prelude::*;
use vstd::string::*;

use crate::errors::unsupported;
use crate::errors::unsupported_capability;
use crate::body::with_member;
use crate::json::lemma_model;
use crate::json::Json;
use crate::json::JsonObject;
use crate::json::JsonV;
use crate::openai_chat::encode::text_value;
use crate::options::cache_routing_key;
use crate::options::control_values;
use crate::options::endpoint;
use crate::options::joined_url;
use crate::options::merge_options;
use crate::options::merged;
use crate::options::route_options;
use crate::options::routing_key;
use crate::options::wire_map;
use crate::options::wire_options;
use crate::response::control_warnings;
use crate::response::warn_controls;
use crate::response::CallError;
use crate::response::EncodedRequest;
use crate::response::EncodedV;
use crate::response::ErrorV;
use crate::response::Method;
use crate::response::Response;
use crate::response::ResponseV;
use crate::text::concat2;
use crate::text::lemma_ends;
use crate::text::lemma_take_contains;
use crate::text::same;
use crate::types::Request;
use crate::types::RequestV;
use crate::types::ResolvedCall;
use crate::types::ResolvedRoute;
use crate::types::RouteV;
use decode::decode_document;
use decode::decode_error;
use decode::decoded;
use decode::failed_document;
use encode::dropped_controls;
use encode::find_unencodable;
use encode::first_unencodable;
use encode::lost_controls;
use encode::typed_body;
use encode::ResponsesBody;
use stream::fresh_responses;
use stream::ResponsesStream;

verus! {

broadcast use {vstd::std_specs::vec::group_vec_axioms, vstd::seq::group_seq_axioms, vstd::map::group_map_axioms, lemma_model};

/// Encodes and decodes the OpenAI Responses protocol.
///
/// The Codex deployment speaks the same protocol with a smaller field set: it
/// rejects the sampling controls and takes the system prompt as `instructions`
/// rather than as input items.
#[derive(Clone, Copy, Debug)]
pub struct OpenAiResponsesCodec {
    pub codex: bool,
}

/// Whether `POST /v1/responses/input_tokens` accepts a field.
pub open spec fn is_count_field(key: Seq<char>) -> bool {
    ||| key == "conversation"@
    ||| key == "input"@
    ||| key == "instructions"@
    ||| key == "model"@
    ||| key == "parallel_tool_calls"@
    ||| key == "previous_response_id"@
    ||| key == "reasoning"@
    ||| key == "text"@
    ||| key == "tool_choice"@
    ||| key == "tools"@
    ||| key == "truncation"@
}

/// Tells whether the token count endpoint accepts a field.
pub fn counts_field(key: &str) -> (r: bool)
    ensures
        r == is_count_field(key@),
{
    same(key, "conversation") || same(key, "input") || same(key, "instructions") || same(
        key,
        "model",
    ) || same(key, "parallel_tool_calls") || same(key, "previous_response_id") || same(
        key,
        "reasoning",
    ) || same(key, "text") || same(key, "tool_choice") || same(key, "tools") || same(
        key,
        "truncation",
    )
}

/// A body with only the fields the token count endpoint accepts.
pub open spec fn projected(body: Map<Seq<char>, JsonV>) -> Map<Seq<char>, JsonV> {
    Map::new(|key: Seq<char>| body.contains_key(key) && is_count_field(key), |key: Seq<char>| body[key])
}

/// Keeps only the fields the token count endpoint accepts.
#[verifier::loop_isolation(false)]
pub fn project(body: &JsonObject) -> (r: JsonObject)
    ensures
        r@ == projected(body@),
{
    body.settle();
    let ghost keys = body.keys();
    let mut kept: JsonObject = JsonObject::new();
    let mut i: usize = 0;
    while i < body.len()
        invariant
            i <= keys.len(),
            forall|key: Seq<char>| #[trigger]
                kept@.contains_key(key) <==> keys.take(i as int).contains(key) && is_count_field(
                    key,
                ),
            forall|key: Seq<char>| #[trigger] kept@.contains_key(key) ==> kept@[key] == body@[key],
        decreases keys.len() - i,
    {
        let key: &str = body.key_at(i);
        let value: &Json = body.value_at(i);
        if counts_field(key) {
            kept.insert(key, value.copy());
        }
        proof {
            lemma_take_contains(keys, i as int);
        }
        i = i + 1;
    }
    proof {
        lemma_ends(keys);
        assert(kept@ =~= projected(body@));
    }
    kept
}

/// The merged body of a call: its typed fields, the cache routing key, and the
/// raw options over both.
pub open spec fn full_body(request: RequestV, route: RouteV, codex: bool, stream: bool) -> Map<
    Seq<char>,
    JsonV,
> {
    let options = route_options(request, route);
    merged(
        with_member(
            typed_body(request, route, codex, stream),
            "prompt_cache_key"@,
            text_value(routing_key(request, route, control_values(options))),
        ),
        wire_map(options),
    )
}

/// The path of the generation endpoint. The Codex deployment hangs it off the
/// base path with no version segment.
pub open spec fn responses_path(codex: bool) -> Seq<char> {
    if codex {
        "/responses"@
    } else {
        "/v1/responses"@
    }
}

/// The provider request of a call, or the refusal of a part without a form
/// here.
pub open spec fn encoded_request(
    request: RequestV,
    route: RouteV,
    codex: bool,
    stream: bool,
) -> Result<EncodedV, ErrorV> {
    match first_unencodable(request.messages) {
        Some(what) => Err(unsupported(route, what)),
        None => Ok(
            EncodedV {
                method: Method::Post,
                url: joined_url(route.base_url, responses_path(codex)),
                body: JsonV::Object(full_body(request, route, codex, stream)),
                warnings: control_warnings(lost_controls(request, codex)),
                data_line_framing: false,
                applied_speed: request.speed,
            },
        ),
    }
}

/// The token count request of a call: the generation request, projected onto
/// the fields the count endpoint accepts.
pub open spec fn counted_request(request: RequestV, route: RouteV, codex: bool) -> Result<
    EncodedV,
    ErrorV,
> {
    match encoded_request(request, route, codex, false) {
        Err(error) => Err(error),
        Ok(encoded) => Ok(
            EncodedV {
                url: joined_url(route.base_url, "/v1/responses/input_tokens"@),
                body: JsonV::Object(projected(full_body(request, route, codex, false))),
                ..encoded
            },
        ),
    }
}

/// The input token count a body holds.
pub open spec fn token_count(route: RouteV, value: JsonV) -> Result<u64, ErrorV> {
    let object = value.text_at("object"@);
    if object != Some("response.input_tokens"@) {
        Err(
            failed_document(
                route,
                "returned an input token count with object "@ + (match object {
                    Some(object) => object,
                    None => "<missing>"@,
                }),
                value,
            ),
        )
    } else {
        match value.unsigned_at("input_tokens"@) {
            Some(tokens) => Ok(tokens),
            None => Err(
                failed_document(
                    route,
                    "returned an input token count without an `input_tokens` number"@,
                    value,
                ),
            ),
        }
    }
}

impl OpenAiResponsesCodec {
    /// Creates the codec for one provider.
    ///
    /// `codex` selects the Codex deployment's field set.
    pub fn new(codex: bool) -> (r: Self)
        ensures
            r.codex == codex,
    {
        OpenAiResponsesCodec { codex }
    }

    /// Encodes a resolved call into one provider request.
    pub fn encode(&self, call: &ResolvedCall, stream: bool) -> (r: Result<
        EncodedRequest,
        CallError,
    >)
        ensures
            match r {
                Ok(encoded) => encoded_request(call.request@, call.route@, self.codex, stream)
                    == Ok::<EncodedV, ErrorV>(encoded@),
                Err(error) => encoded_request(call.request@, call.route@, self.codex, stream)
                    == Err::<EncodedV, ErrorV>(error@),
            },
    {
        let request: &Request = &call.request;
        if let Some(what) = find_unencodable(&request.messages) {
            return Err(unsupported_capability(&call.route, what));
        }
        let (options, controls) = wire_options(call);
        let mut body: JsonObject = ResponsesBody::new(self.codex, call, stream).build();
        if let Some(key) = cache_routing_key(call, controls) {
            body.insert("prompt_cache_key", Json::Text(key));
        }
        merge_options(&mut body, &options);
        let path: &'static str = if self.codex {
            "/responses"
        } else {
            "/v1/responses"
        };
        Ok(
            EncodedRequest {
                method: Method::Post,
                url: endpoint(call.route.provider.base_url.as_str(), path),
                body: Json::Object(body),
                warnings: warn_controls(&dropped_controls(request, self.codex)),
                data_line_framing: false,
                applied_speed: request.speed,
            },
        )
    }

    /// Decodes one complete provider success body.
    pub fn decode_response(&self, route: &ResolvedRoute, value: Json) -> (r: Result<
        Response,
        CallError,
    >)
        ensures
            match r {
                Ok(response) => decoded(route@, value@) == Ok::<ResponseV, ErrorV>(response@),
                Err(error) => decoded(route@, value@) == Err::<ResponseV, ErrorV>(error@),
            },
    {
        decode_document(route, value)
    }

    /// Creates the per-stream decoder that owns block identity and assembly.
    pub fn stream_decoder(&self, route: &ResolvedRoute) -> (r: ResponsesStream)
        ensures
            r@ == fresh_responses(route@),
    {
        ResponsesStream::new(route)
    }

    /// Builds the token count request from the full non-streaming body.
    ///
    /// The body is generated and merged exactly as a generation request is, and
    /// only then projected onto the fields the endpoint accepts.
    pub fn count_tokens_request(&self, call: &ResolvedCall) -> (r: Result<
        EncodedRequest,
        CallError,
    >)
        ensures
            match r {
                Ok(encoded) => counted_request(call.request@, call.route@, self.codex) == Ok::<
                    EncodedV,
                    ErrorV,
                >(encoded@),
                Err(error) => counted_request(call.request@, call.route@, self.codex) == Err::<
                    EncodedV,
                    ErrorV,
                >(error@),
            },
    {
        match self.encode(call, false) {
            Err(error) => Err(error),
            Ok(encoded) => {
                let body: Json = match &encoded.body {
                    Json::Object(body) => Json::Object(project(body)),
                    other => other.copy(),
                };
                Ok(
                    EncodedRequest {
                        method: encoded.method,
                        url: endpoint(
                            call.route.provider.base_url.as_str(),
                            "/v1/responses/input_tokens",
                        ),
                        body,
                        warnings: encoded.warnings,
                        data_line_framing: encoded.data_line_framing,
                        applied_speed: encoded.applied_speed,
                    },
                )
            },
        }
    }

    /// Encodes a provider-native input token count request.
    ///
    /// The Codex deployment serves no input token count, so codex mode reports
    /// no native count.
    pub fn encode_count_tokens(&self, call: &ResolvedCall) -> (r: Option<
        Result<EncodedRequest, CallError>,
    >)
        ensures
            r is None <==> self.codex,
            match r {
                Some(Ok(encoded)) => counted_request(call.request@, call.route@, false) == Ok::<
                    EncodedV,
                    ErrorV,
                >(encoded@),
                Some(Err(error)) => counted_request(call.request@, call.route@, false) == Err::<
                    EncodedV,
                    ErrorV,
                >(error@),
                None => true,
            },
    {
        if self.codex {
            return None;
        }
        Some(self.count_tokens_request(call))
    }

    /// Decodes a provider-native input token count response.
    pub fn decode_count_tokens(&self, route: &ResolvedRoute, value: Json) -> (r: Result<
        u64,
        CallError,
    >)
        ensures
            match r {
                Ok(tokens) => token_count(route@, value@) == Ok::<u64, ErrorV>(tokens),
                Err(error) => token_count(route@, value@) == Err::<u64, ErrorV>(error@),
            },
    {
        let named: bool = match value.text_at("object") {
            Some(object) => same(object, "response.input_tokens"),
            None => false,
        };
        if !named {
            let detail: String = match value.text_at("object") {
                Some(object) => concat2("returned an input token count with object ", object),
                None => concat2("returned an input token count with object ", "<missing>"),
            };
            return Err(decode_error(route, detail.as_str(), value));
        }
        match value.unsigned_at("input_tokens") {
            Some(tokens) => Ok(tokens),
            None => Err(
                decode_error(
                    route,
                    "returned an input token count without an `input_tokens` number",
                    value,
                ),
            ),
        }
    }
}

} // verus!
