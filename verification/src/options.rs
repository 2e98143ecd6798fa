//! Raw provider options, controls, URL joining, and cache routing.

use vstd::prelude::*;
use vstd::string::*;

use crate::envelope::message_envelope;
use crate::envelope::message_json;
use crate::envelope::tool_envelope;
use crate::envelope::tool_json;
use crate::json::lemma_model;
use crate::json::models;
use crate::json::Json;
use crate::json::JsonObject;
use crate::json::JsonV;
use crate::serial::print;
use crate::serial::printed;
use crate::text::after_first;
use crate::text::after_last;
use crate::text::before_first;
use crate::text::concat2;
use crate::text::concat3;
use crate::text::head;
use crate::text::hex;
use crate::text::hex_text;
use crate::text::holds;
use crate::text::lemma_ends;
use crate::text::lemma_take;
use crate::text::lemma_take_contains;
use crate::text::lemma_take_new;
use crate::text::rest_after;
use crate::text::same;
use crate::text::string_opt;
use crate::text::tail;
use crate::text::text_opt;
use crate::text::trim_end;
use crate::text::trim_start;
use crate::text::without_leading;
use crate::text::without_trailing;
use crate::types::messages;
use crate::types::tools;
use crate::types::CacheHint;
use crate::types::HintV;
use crate::types::Message;
use crate::types::MessageV;
use crate::types::Request;
use crate::types::RequestV;
use crate::types::ResolvedCall;
use crate::types::RouteV;
use crate::types::ToolDefinition;

verus! {

broadcast use {vstd::std_specs::vec::group_vec_axioms, vstd::seq::group_seq_axioms, vstd::map::group_map_axioms, lemma_model};

/// The raw option a codec consumes to switch its own cache markers off. It
/// never reaches the wire.
pub const AUTO_CACHE: &'static str = "auto_cache";

/// Codec behavior selected by control keys in the raw provider options.
#[derive(Clone, Copy, Debug, PartialEq, Eq, Structural)]
pub struct Controls {
    /// Whether the codec may add prompt-cache markers of its own.
    pub auto_cache: bool,
}

/// Whether a path segment is an API version a base URL may already carry.
pub open spec fn is_version(segment: Seq<char>) -> bool {
    segment == "v1"@ || segment == "v1beta"@
}

/// The version segment that `base` ends with and `path` starts with.
///
/// What follows `://` is the host and its path. A bare host has no path
/// segment, so its final label is no version.
pub open spec fn shared_version(base: Seq<char>, path: Seq<char>) -> Option<Seq<char>> {
    let located = after_first(base, "://"@);
    let segment = before_first(path, '/');
    if located.contains('/') && segment == after_last(located, '/') && is_version(segment) {
        Some(segment)
    } else {
        None
    }
}

/// A path without the version segment its base already carries.
pub open spec fn remaining_path(base: Seq<char>, path: Seq<char>) -> Seq<char> {
    match shared_version(base, path) {
        Some(segment) => trim_start(path.skip(segment.len() as int), '/'),
        None => path,
    }
}

/// A base URL and a request path, joined by one slash, with a version segment
/// they share kept once.
pub open spec fn joined_url(base_url: Seq<char>, path: Seq<char>) -> Seq<char> {
    let base = trim_end(base_url, '/');
    let rest = remaining_path(base, trim_start(path, '/'));
    if rest.len() == 0 {
        base
    } else {
        base + "/"@ + rest
    }
}

/// Joins a provider base URL and a request path.
///
/// A base URL whose path already ends with the version segment the request
/// path starts with keeps that segment once. Only an exact repeat of the same
/// segment is collapsed.
pub fn endpoint(base_url: &str, path: &str) -> (r: String)
    ensures
        r@ == joined_url(base_url@, path@),
{
    let base: &str = without_trailing(base_url, '/');
    let path: &str = without_leading(path, '/');
    let rest: &str = match repeated_version(base, path) {
        Some(segment) => {
            let width: usize = segment.unicode_len();
            let cut: &str = path.substring_char(width, path.unicode_len());
            assert(cut@ =~= path@.skip(segment@.len() as int));
            without_leading(cut, '/')
        },
        None => path,
    };
    if rest.is_empty() {
        return base.to_owned();
    }
    concat3(base, "/", rest)
}

/// The version segment `base` and `path` both carry, when they share one.
///
/// `base` has already lost its trailing slashes and `path` its leading ones.
pub fn repeated_version<'a>(base: &str, path: &'a str) -> (r: Option<&'a str>)
    ensures
        text_opt(r) == shared_version(base@, path@),
        r matches Some(segment) ==> segment@.len() <= path@.len(),
{
    let located: &str = rest_after(base, "://");
    let segment: &str = head(path, '/');
    proof {
        path@.index_of_first_ensures('/');
    }
    if holds(located, '/') && same(segment, tail(located, '/')) && (same(segment, "v1") || same(
        segment,
        "v1beta",
    )) {
        Some(segment)
    } else {
        None
    }
}

/// The value raw options leave where `encoded` stood: two objects merge member
/// by member, and any other raw value replaces what was encoded.
pub open spec fn overlay(encoded: Option<JsonV>, raw: JsonV) -> JsonV
    decreases raw,
{
    match (encoded, raw) {
        (Some(JsonV::Object(body)), JsonV::Object(options)) => JsonV::Object(
            Map::new(
                |key: Seq<char>| body.contains_key(key) || options.contains_key(key),
                |key: Seq<char>|
                    if options.contains_key(key) {
                        overlay(member(body, key), options[key])
                    } else {
                        body[key]
                    },
            ),
        ),
        _ => raw,
    }
}

/// The member of a map under a key.
pub open spec fn member(object: Map<Seq<char>, JsonV>, key: Seq<char>) -> Option<JsonV> {
    if object.contains_key(key) {
        Some(object[key])
    } else {
        None
    }
}

/// A body with raw options merged over it.
pub open spec fn merged(
    body: Map<Seq<char>, JsonV>,
    options: Map<Seq<char>, JsonV>,
) -> Map<Seq<char>, JsonV> {
    overlay(Some(JsonV::Object(body)), JsonV::Object(options))->Object_0
}

/// Merges raw provider options over an already encoded request body.
///
/// Raw options win. Two objects at the same key are merged recursively, so
/// overriding one key of a nested container keeps its siblings. Every other
/// value, arrays included, replaces what the body held.
#[verifier::loop_isolation(false)]
pub fn merge_options(body: &mut JsonObject, options: &JsonObject)
    ensures
        final(body)@ == merged(old(body)@, options@),
    decreases options@,
{
    options.settle();
    let ghost before = body@;
    let ghost keys = options.keys();
    let mut i: usize = 0;
    while i < options.len()
        invariant
            i <= keys.len(),
            forall|key: Seq<char>| #[trigger]
                body@.contains_key(key) <==> before.contains_key(key) || keys.take(
                    i as int,
                ).contains(key),
            forall|key: Seq<char>| #[trigger]
                body@.contains_key(key) ==> body@[key] == (if keys.take(i as int).contains(key) {
                    overlay(member(before, key), options@[key])
                } else {
                    before[key]
                }),
        decreases keys.len() - i,
    {
        let key: &str = options.key_at(i);
        let value: &Json = options.value_at(i);
        let ghost current = body@;
        proof {
            lemma_take_new(keys, i as int);
            assert(member(current, key@) == member(before, key@));
        }
        let encoded: Option<Json> = body.remove(key);
        let laid: Json = match (encoded, value) {
            (Some(Json::Object(nested)), Json::Object(raw)) => {
                let mut nested: JsonObject = nested;
                assert(decreases_to!(options@ => options@[key@]));
                merge_options(&mut nested, raw);
                Json::Object(nested)
            },
            (_, value) => value.copy(),
        };
        assert(laid@ == overlay(member(before, key@), options@[key@]));
        body.insert(key, laid);
        proof {
            lemma_take_contains(keys, i as int);
        }
        i = i + 1;
    }
    proof {
        lemma_ends(keys);
        assert(body@ =~= merged(before, options@));
    }
}

/// What the wire gets of merged options, and the controls they set.
pub open spec fn wire_map(options: Map<Seq<char>, JsonV>) -> Map<Seq<char>, JsonV> {
    options.remove(AUTO_CACHE@)
}

/// The controls that options set: a control of another JSON type keeps its
/// default.
pub open spec fn control_values(options: Map<Seq<char>, JsonV>) -> Controls {
    Controls {
        auto_cache: match member(options, AUTO_CACHE@) {
            Some(JsonV::Bool(auto_cache)) => auto_cache,
            _ => true,
        },
    }
}

/// The raw options of a request on a route: the provider's defaults, with what
/// the request holds under that provider's id merged over them.
pub open spec fn route_options(request: RequestV, route: RouteV) -> Map<Seq<char>, JsonV> {
    match member(request.provider_options, route.provider) {
        Some(JsonV::Object(options)) => merged(route.default_options, options),
        _ => route.default_options,
    }
}

/// The raw provider options for the selected route, with controls removed.
///
/// This reads only the namespace of the route's provider. The provider's
/// default options seed the map and the request's own options merge over them.
pub fn wire_options(call: &ResolvedCall) -> (r: (JsonObject, Controls))
    ensures
        r.0@ == wire_map(route_options(call.request@, call.route@)),
        r.1 == control_values(route_options(call.request@, call.route@)),
{
    let mut options: JsonObject = call.route.provider.default_options.copy();
    if let Some(Json::Object(own)) = call.request.provider_options.get(
        call.route.provider.id.as_str(),
    ) {
        merge_options(&mut options, own);
    }
    split_controls(options)
}

/// Splits control keys out of one provider option namespace.
pub fn split_controls(options: JsonObject) -> (r: (JsonObject, Controls))
    ensures
        r.0@ == wire_map(options@),
        r.1 == control_values(options@),
{
    let mut options: JsonObject = options;
    let consumed: Option<Json> = options.remove(AUTO_CACHE);
    let auto_cache: bool = match consumed {
        Some(Json::Bool(auto_cache)) => auto_cache,
        _ => true,
    };
    (options, Controls { auto_cache })
}

/// The JSON forms of the instruction messages, in order.
pub open spec fn instruction_forms(list: Seq<MessageV>) -> Seq<JsonV>
    decreases list.len(),
{
    if list.len() == 0 {
        Seq::empty()
    } else if list.last().is_instruction() {
        instruction_forms(list.drop_last()).push(message_envelope(list.last()))
    } else {
        instruction_forms(list.drop_last())
    }
}

/// The cacheable prefix of a request: its instructions and its tools.
pub open spec fn cache_prefix(request: RequestV) -> JsonV {
    JsonV::Object(
        map!["system"@ => JsonV::Array(instruction_forms(request.messages)),
            "tools"@ => JsonV::Array(Seq::new(
                request.tools.len(),
                |i: int| tool_envelope(request.tools[i]),
            ))],
    )
}

/// The FNV-1a hash of a byte sequence.
pub open spec fn fnv(bytes: Seq<u8>) -> u64
    decreases bytes.len(),
{
    if bytes.len() == 0 {
        0xcbf2_9ce4_8422_2325u64
    } else {
        (fnv(bytes.drop_last()) ^ (bytes.last() as u64)).wrapping_mul(0x0000_0100_0000_01b3u64)
    }
}

/// The fingerprint of a request's cacheable prefix.
pub open spec fn fingerprint(request: RequestV) -> Seq<char> {
    "lithos-"@ + hex(fnv(vstd::utf8::encode_utf8(printed(cache_prefix(request)))) as nat, 16)
}

/// Hashes the bytes of a text with FNV-1a.
fn hash(text: &str) -> (r: u64)
    ensures
        r == fnv(vstd::utf8::encode_utf8(text@)),
{
    let bytes: &[u8] = text.as_bytes();
    let mut hash: u64 = 0xcbf2_9ce4_8422_2325;
    let mut i: usize = 0;
    proof {
        lemma_ends(bytes@);
    }
    while i < bytes.len()
        invariant
            i <= bytes.len(),
            hash == fnv(bytes@.take(i as int)),
        decreases bytes.len() - i,
    {
        proof {
            lemma_take(bytes@, i as int);
        }
        hash = (hash ^ (bytes[i] as u64)).wrapping_mul(0x0000_0100_0000_01b3);
        i = i + 1;
    }
    proof {
        lemma_ends(bytes@);
    }
    hash
}

/// A stable fingerprint of the request's cacheable prefix.
///
/// The prefix is the system and developer messages plus the tool definitions:
/// what stays identical across the turns of an agent loop, so every turn of
/// one conversation routes to the same replica.
pub fn prefix_fingerprint(request: &Request) -> (r: String)
    ensures
        r@ == fingerprint(request@),
{
    let mut system: Vec<Json> = Vec::new();
    let mut i: usize = 0;
    let list: &Vec<Message> = &request.messages;
    proof {
        lemma_ends(messages(list@));
    }
    while i < list.len()
        invariant
            i <= list.len(),
            models(system@) == instruction_forms(messages(list@).take(i as int)),
        decreases list.len() - i,
    {
        proof {
            lemma_take(messages(list@), i as int);
        }
        if list[i].is_instruction() {
            let ghost before = system@;
            system.push(message_json(&list[i]));
            assert(models(system@) =~= models(before).push(message_envelope(list@[i as int]@)));
        }
        i = i + 1;
    }
    proof {
        lemma_ends(messages(list@));
    }
    let mut forms: Vec<Json> = Vec::new();
    let mut j: usize = 0;
    let definitions: &Vec<ToolDefinition> = &request.tools;
    while j < definitions.len()
        invariant
            j <= definitions.len(),
            forms.len() == j,
            forall|k: int| 0 <= k < j ==> forms@[k]@ == tool_envelope(definitions@[k]@),
        decreases definitions.len() - j,
    {
        forms.push(tool_json(&definitions[j]));
        j = j + 1;
    }
    let mut prefix: JsonObject = JsonObject::new();
    assert(models(forms@) =~= Seq::new(
        request@.tools.len(),
        |k: int| tool_envelope(request@.tools[k]),
    ));
    prefix.insert("system", Json::Array(system));
    prefix.insert("tools", Json::Array(forms));
    let printed_prefix: String = print(&Json::Object(prefix));
    concat2("lithos-", hex_text(hash(printed_prefix.as_str()), 16).as_str())
}

/// The cache routing key a request sends on a route.
pub open spec fn routing_key(
    request: RequestV,
    route: RouteV,
    controls: Controls,
) -> Option<Seq<char>> {
    if !route.cache_routing {
        None
    } else {
        match request.cache_hint {
            Some(HintV::Disabled) => None,
            Some(HintV::Key { key }) => Some(key),
            _ => if controls.auto_cache && route.caching {
                Some(fingerprint(request))
            } else {
                None
            },
        }
    }
}

/// The cache routing key this call sends, or `None` for no hint.
///
/// The hint reaches the wire only where the model takes `cache_routing`. An
/// explicit key is sent verbatim, a disabled hint sends nothing, and otherwise
/// the prefix fingerprint is sent where automatic caching is on and the model
/// caches.
pub fn cache_routing_key(call: &ResolvedCall, controls: Controls) -> (r: Option<String>)
    ensures
        string_opt(r) == routing_key(call.request@, call.route@, controls),
{
    if !call.route.model.cache_routing {
        return None;
    }
    match &call.request.cache_hint {
        Some(CacheHint::Disabled) => None,
        Some(CacheHint::Key { key }) => Some(key.as_str().to_owned()),
        _ => if controls.auto_cache && call.route.model.caching {
            Some(prefix_fingerprint(&call.request))
        } else {
            None
        },
    }
}

} // verus!
