//! Laws of raw options, URLs, and cache routing.

use vstd::prelude::*;

use crate::json::JsonV;
use crate::envelope::message_envelope;
use crate::options::instruction_forms;
use crate::options::control_values;
use crate::options::fingerprint;
use crate::options::joined_url;
use crate::options::member;
use crate::options::merged;
use crate::options::overlay;
use crate::options::route_options;
use crate::options::routing_key;
use crate::options::shared_version;
use crate::options::wire_map;
use crate::options::Controls;
use crate::options::AUTO_CACHE;
use crate::text::trim_end;
use crate::text::trim_start;
use crate::types::MessageV;
use crate::types::RequestV;
use crate::types::RouteV;

verus! {

broadcast use {vstd::seq::group_seq_axioms, vstd::map::group_map_axioms};

/// Raw options win: what they hold under a key is what the body holds, unless
/// both are objects.
pub proof fn law_raw_options_win(
    body: Map<Seq<char>, JsonV>,
    options: Map<Seq<char>, JsonV>,
    key: Seq<char>,
)
    requires
        options.contains_key(key),
        !(options[key] is Object && body.contains_key(key) && body[key] is Object),
    ensures
        merged(body, options).contains_key(key),
        merged(body, options)[key] == options[key],
{
    reveal_with_fuel(overlay, 2);
}

/// Two objects under one key merge member by member.
pub proof fn law_nested_objects_merge(
    body: Map<Seq<char>, JsonV>,
    options: Map<Seq<char>, JsonV>,
    key: Seq<char>,
)
    requires
        body.contains_key(key),
        options.contains_key(key),
        body[key] is Object,
        options[key] is Object,
    ensures
        merged(body, options)[key] == JsonV::Object(
            merged(body[key]->Object_0, options[key]->Object_0),
        ),
{
}

/// What raw options do not name stays as it was encoded.
pub proof fn law_unnamed_fields_stay(
    body: Map<Seq<char>, JsonV>,
    options: Map<Seq<char>, JsonV>,
    key: Seq<char>,
)
    requires
        !options.contains_key(key),
    ensures
        merged(body, options).contains_key(key) <==> body.contains_key(key),
        body.contains_key(key) ==> merged(body, options)[key] == body[key],
{
}

/// No options change nothing.
pub proof fn law_empty_options_change_nothing(body: Map<Seq<char>, JsonV>)
    ensures
        merged(body, Map::empty()) == body,
{
    assert(merged(body, Map::empty()) =~= body);
}

/// Laying a value over what it has already been laid over changes nothing.
proof fn lemma_overlay_again(encoded: Option<JsonV>, raw: JsonV)
    ensures
        overlay(Some(overlay(encoded, raw)), raw) == overlay(encoded, raw),
    decreases raw,
{
    match raw {
        JsonV::Object(options) => {
            let once = overlay(encoded, raw);
            let body = match encoded {
                Some(JsonV::Object(body)) => body,
                _ => options,
            };
            assert(once is Object);
            assert forall|key: Seq<char>| options.contains_key(key) implies #[trigger] overlay(
                member(once->Object_0, key),
                options[key],
            ) == once->Object_0[key] by {
                match encoded {
                    Some(JsonV::Object(body)) => {
                        lemma_overlay_again(member(body, key), options[key]);
                    },
                    _ => {
                        lemma_overlay_self(options[key]);
                    },
                }
            }
            let twice = overlay(Some(once), raw)->Object_0;
            assert forall|key: Seq<char>| twice.contains_key(key) implies twice[key]
                == once->Object_0[key] by {
                if options.contains_key(key) {
                    assert(overlay(member(once->Object_0, key), options[key])
                        == once->Object_0[key]);
                }
            }
            assert(twice =~= once->Object_0);
        },
        _ => {},
    }
}

/// Laying a value over itself changes nothing.
proof fn lemma_overlay_self(raw: JsonV)
    ensures
        overlay(Some(raw), raw) == raw,
    decreases raw,
{
    if let JsonV::Object(options) = raw {
        assert forall|key: Seq<char>| options.contains_key(key) implies #[trigger] overlay(
            member(options, key),
            options[key],
        ) == options[key] by {
            lemma_overlay_self(options[key]);
        }
        let laid = overlay(Some(raw), raw)->Object_0;
        assert forall|key: Seq<char>| laid.contains_key(key) implies laid[key]
            == options[key] by {
            assert(overlay(member(options, key), options[key]) == options[key]);
        }
        assert(laid =~= options);
    }
}

/// Merging the same options twice is merging them once.
pub proof fn law_merging_is_idempotent(
    body: Map<Seq<char>, JsonV>,
    options: Map<Seq<char>, JsonV>,
)
    ensures
        merged(merged(body, options), options) == merged(body, options),
{
    lemma_overlay_again(Some(JsonV::Object(body)), JsonV::Object(options));
}

/// A control key never reaches the wire: it is not among the wire options, so
/// merging them leaves a body without it.
pub proof fn law_controls_never_reach_the_wire(
    body: Map<Seq<char>, JsonV>,
    options: Map<Seq<char>, JsonV>,
)
    requires
        !body.contains_key(AUTO_CACHE@),
    ensures
        !wire_map(options).contains_key(AUTO_CACHE@),
        !merged(body, wire_map(options)).contains_key(AUTO_CACHE@),
{
}

/// A control of the wrong type keeps its default, and so does an absent one.
pub proof fn law_controls_default_to_on(options: Map<Seq<char>, JsonV>)
    requires
        !(member(options, AUTO_CACHE@) matches Some(JsonV::Bool(_))),
    ensures
        control_values(options).auto_cache,
{
}

/// Only the namespace of the route's provider is read: two requests that agree
/// there send the same options.
pub proof fn law_only_the_routes_namespace_is_read(a: RequestV, b: RequestV, route: RouteV)
    requires
        member(a.provider_options, route.provider) == member(b.provider_options, route.provider),
    ensures
        route_options(a, route) == route_options(b, route),
{
}

/// A request wins over the provider's defaults, key by key.
pub proof fn law_requests_win_over_defaults(
    request: RequestV,
    route: RouteV,
    options: Map<Seq<char>, JsonV>,
    key: Seq<char>,
)
    requires
        member(request.provider_options, route.provider) == Some(JsonV::Object(options)),
        options.contains_key(key),
        !(options[key] is Object),
    ensures
        route_options(request, route)[key] == options[key],
{
    reveal_with_fuel(overlay, 2);
}

/// A base URL whose path ends with the version the request path starts with
/// keeps that version once.
pub proof fn law_a_shared_version_is_kept_once(
    base: Seq<char>,
    version: Seq<char>,
    rest: Seq<char>,
)
    requires
        trim_end(base, '/') == base,
        shared_version(base, version + "/"@ + rest) == Some(version),
        trim_start(version + "/"@ + rest, '/') == version + "/"@ + rest,
        trim_start(rest, '/') == rest,
        rest.len() > 0,
    ensures
        joined_url(base, version + "/"@ + rest) == base + "/"@ + rest,
{
    reveal_strlit("/");
    let path = version + "/"@ + rest;
    let cut = path.skip(version.len() as int);
    assert(cut =~= "/"@ + rest);
    assert(cut[0] == '/');
    assert(cut.drop_first() =~= rest);
}

/// Without a shared version the base and the path are joined by one slash.
pub proof fn law_an_unshared_path_is_kept_whole(base: Seq<char>, path: Seq<char>)
    requires
        shared_version(trim_end(base, '/'), trim_start(path, '/')) is None,
        trim_start(path, '/').len() > 0,
    ensures
        joined_url(base, path) == trim_end(base, '/') + "/"@ + trim_start(path, '/'),
{
}

/// Slashes at the end of a base URL and at the start of a path mean nothing.
pub proof fn law_joining_slashes_mean_nothing(base: Seq<char>, path: Seq<char>)
    ensures
        joined_url(base.push('/'), path) == joined_url(base, path),
        joined_url(base, seq!['/'] + path) == joined_url(base, path),
{
    assert(base.push('/').drop_last() =~= base);
    assert((seq!['/'] + path).drop_first() =~= path);
}

/// The instruction messages of a conversation, in order.
pub open spec fn instruction_messages(list: Seq<MessageV>) -> Seq<MessageV>
    decreases list.len(),
{
    if list.len() == 0 {
        Seq::empty()
    } else if list.last().is_instruction() {
        instruction_messages(list.drop_last()).push(list.last())
    } else {
        instruction_messages(list.drop_last())
    }
}

/// The forms of the instructions are those of the instruction messages.
proof fn lemma_instruction_forms(list: Seq<MessageV>)
    ensures
        instruction_forms(list) == Seq::new(
            instruction_messages(list).len(),
            |i: int| message_envelope(instruction_messages(list)[i]),
        ),
    decreases list.len(),
{
    if list.len() > 0 {
        lemma_instruction_forms(list.drop_last());
    }
}

/// Requests with the same instruction messages and the same tools have one
/// cache fingerprint, so every turn of one conversation routes to the same
/// replica.
pub proof fn law_instructions_and_tools_make_the_fingerprint(a: RequestV, b: RequestV)
    requires
        instruction_messages(a.messages) == instruction_messages(b.messages),
        a.tools == b.tools,
    ensures
        fingerprint(a) == fingerprint(b),
{
    lemma_instruction_forms(a.messages);
    lemma_instruction_forms(b.messages);
}

/// A turn that is no instruction keeps the cache fingerprint.
pub proof fn law_a_turn_keeps_the_fingerprint(a: RequestV, b: RequestV, turn: MessageV)
    requires
        !turn.is_instruction(),
        b.messages == a.messages.push(turn),
        b.tools == a.tools,
    ensures
        fingerprint(b) == fingerprint(a),
{
    assert(b.messages.drop_last() =~= a.messages);
}

/// An explicit cache key is sent verbatim and a disabled hint sends nothing,
/// and neither depends on the controls.
pub proof fn law_explicit_cache_hints_decide(
    request: RequestV,
    route: RouteV,
    controls: Controls,
    other: Controls,
)
    requires
        request.cache_hint is Some,
        !(request.cache_hint->0 is Auto),
    ensures
        routing_key(request, route, controls) == routing_key(request, route, other),
        request.cache_hint->0 is Disabled ==> routing_key(request, route, controls) is None,
        request.cache_hint->0 is Key && route.cache_routing ==> routing_key(
            request,
            route,
            controls,
        ) == Some(request.cache_hint->0->key),
{
}

} // verus!
