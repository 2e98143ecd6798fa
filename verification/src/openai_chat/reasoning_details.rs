//! The `reasoning_details` channel: verbatim on a complete response,
//! coalesced from fragments on a stream.

use vstd::prelude::*;
use vstd::string::*;

use super::encode::OPAQUE_PREFIX;
use crate::json::lemma_model;
use crate::json::models;
use crate::json::owned_model_opt;
use crate::json::Json;
use crate::json::JsonObject;
use crate::json::JsonV;
use crate::text::concat2;
use crate::text::lemma_ends;
use crate::text::lemma_take;
use crate::text::lemma_take_contains;
use crate::text::lemma_take_new;
use crate::text::same;
use crate::types::ContentPart;
use crate::types::PartV;

verus! {

broadcast use {vstd::std_specs::vec::group_vec_axioms, vstd::seq::group_seq_axioms, vstd::map::group_map_axioms, lemma_model};

/// The message field carrying an aggregator's structured reasoning channel.
pub const REASONING_DETAILS: &'static str = "reasoning_details";

/// The opaque content kind the structured reasoning channel replays as.
pub open spec fn kind_text() -> Seq<char> {
    OPAQUE_PREFIX@ + REASONING_DETAILS@
}

/// The opaque content kind the structured reasoning channel replays as.
pub fn details_kind() -> (r: String)
    ensures
        r@ == kind_text(),
{
    concat2(OPAQUE_PREFIX, REASONING_DETAILS)
}

/// The objects of a list, in order.
pub open spec fn objects(list: Seq<JsonV>) -> Seq<JsonV>
    decreases list.len(),
{
    if list.len() == 0 {
        Seq::empty()
    } else if list.last() is Object {
        objects(list.drop_last()).push(list.last())
    } else {
        objects(list.drop_last())
    }
}

/// The details a payload carries: the objects of an array, or a lone object.
pub open spec fn payload_details(payload: JsonV) -> Seq<JsonV> {
    match payload {
        JsonV::Array(list) => objects(list),
        JsonV::Object(_) => seq![payload],
        _ => Seq::empty(),
    }
}

/// Reads the details a payload carries.
fn read_details(payload: &Json) -> (r: Vec<Json>)
    ensures
        models(r@) == payload_details(payload@),
{
    let mut kept: Vec<Json> = Vec::new();
    assert(models(kept@) =~= Seq::<JsonV>::empty());
    match payload {
        Json::Array(list) => {
            let mut i: usize = 0;
            proof {
                lemma_ends(models(list@));
            }
            while i < list.len()
                invariant
                    i <= list.len(),
                    models(kept@) == objects(models(list@).take(i as int)),
                decreases list.len() - i,
            {
                proof {
                    lemma_take(models(list@), i as int);
                }
                if list[i].is_object() {
                    let ghost before = kept@;
                    let entry: Json = list[i].copy();
                    kept.push(entry);
                    assert(models(kept@) =~= models(before).push(entry@));
                }
                i = i + 1;
            }
            proof {
                lemma_ends(models(list@));
            }
        },
        Json::Object(_) => {
            let entry: Json = payload.copy();
            kept.push(entry);
            assert(models(kept@) =~= seq![payload@]);
        },
        _ => {},
    }
    kept
}

/// The structured reasoning channel of a complete response message: its
/// details exactly as they arrived, or nothing without any.
pub open spec fn whole_details(message: JsonV) -> Option<PartV> {
    match message.get(REASONING_DETAILS@) {
        Some(payload) if payload_details(payload).len() > 0 => Some(
            PartV::Opaque { kind: kind_text(), data: JsonV::Array(payload_details(payload)) },
        ),
        _ => None,
    }
}

/// What an optional part is.
pub open spec fn part_opt(part: Option<ContentPart>) -> Option<PartV> {
    match part {
        Some(part) => Some(part@),
        None => None,
    }
}

/// The structured reasoning channel of a complete response message.
///
/// The entries are preserved exactly as they arrived. Only a stream coalesces:
/// a complete payload is already whole, and merging two same-type entries
/// would discard the second one's signature.
pub fn complete_details(message: &Json) -> (r: Option<ContentPart>)
    ensures
        part_opt(r) == whole_details(message@),
{
    match message.get(REASONING_DETAILS) {
        Some(payload) => {
            let entries: Vec<Json> = read_details(payload);
            if entries.len() > 0 {
                Some(ContentPart::opaque(details_kind().as_str(), Json::Array(entries)))
            } else {
                None
            }
        },
        None => None,
    }
}

/// Whether the fragments of a member concatenate across chunks.
pub open spec fn is_text_member(key: Seq<char>) -> bool {
    key == "text"@ || key == "summary"@ || key == "data"@
}

/// Whether a fragment continues the logical detail held in an entry: it has
/// the same type, and the same index where both have one.
pub open spec fn continues(entry: JsonV, fragment: JsonV) -> bool {
    &&& entry.text_at("type"@) is Some
    &&& entry.text_at("type"@) == fragment.text_at("type"@)
    &&& (entry.unsigned_at("index"@) is None || fragment.unsigned_at("index"@) is None
        || entry.unsigned_at("index"@) == fragment.unsigned_at("index"@))
}

/// Tells whether `fragment` continues the logical detail already held in
/// `entry`.
pub fn continues_detail(entry: &Json, fragment: &Json) -> (r: bool)
    ensures
        r == continues(entry@, fragment@),
{
    match (entry.text_at("type"), fragment.text_at("type")) {
        (Some(entry_type), Some(fragment_type)) => {
            if !same(entry_type, fragment_type) {
                return false;
            }
        },
        _ => {
            return false;
        },
    }
    match (entry.unsigned_at("index"), fragment.unsigned_at("index")) {
        (Some(entry_index), Some(fragment_index)) => entry_index == fragment_index,
        _ => true,
    }
}

/// What a member of an entry becomes when a fragment lands on it: a text
/// member takes the fragment's text at its end, and any other is written once.
pub open spec fn merged_member(key: Seq<char>, held: JsonV, fragment: JsonV) -> JsonV {
    match (held, fragment.get(key)) {
        (JsonV::Text(text), Some(JsonV::Text(more))) if is_text_member(key) => JsonV::Text(
            text + more,
        ),
        _ => held,
    }
}

/// An entry with a fragment merged in.
pub open spec fn merged_detail(entry: JsonV, fragment: JsonV) -> JsonV {
    match (entry, fragment) {
        (JsonV::Object(members), JsonV::Object(more)) => JsonV::Object(
            Map::new(
                |key: Seq<char>| members.contains_key(key) || more.contains_key(key),
                |key: Seq<char>|
                    if members.contains_key(key) {
                        merged_member(key, members[key], fragment)
                    } else {
                        more[key]
                    },
            ),
        ),
        _ => entry,
    }
}

/// Appends one fragment's text onto `entry` and fills in members it lacks.
#[verifier::loop_isolation(false)]
pub fn merge_detail(entry: &Json, fragment: &Json) -> (r: Json)
    ensures
        r@ == merged_detail(entry@, fragment@),
{
    let (held, more): (&JsonObject, &JsonObject) = match (entry, fragment) {
        (Json::Object(held), Json::Object(more)) => (held, more),
        _ => {
            return entry.copy();
        },
    };
    more.settle();
    let ghost before = held@;
    let ghost keys = more.keys();
    let mut members: JsonObject = held.copy();
    let mut i: usize = 0;
    while i < more.len()
        invariant
            i <= keys.len(),
            forall|key: Seq<char>| #[trigger]
                members@.contains_key(key) <==> before.contains_key(key) || keys.take(
                    i as int,
                ).contains(key),
            forall|key: Seq<char>| #[trigger]
                members@.contains_key(key) ==> members@[key] == (if !keys.take(i as int).contains(
                    key,
                ) {
                    before[key]
                } else if before.contains_key(key) {
                    merged_member(key, before[key], fragment@)
                } else {
                    more@[key]
                }),
        decreases keys.len() - i,
    {
        let key: &str = more.key_at(i);
        let value: &Json = more.value_at(i);
        proof {
            lemma_take_new(keys, i as int);
        }
        match members.get(key) {
            Some(Json::Text(text)) => {
                if same(key, "text") || same(key, "summary") || same(key, "data") {
                    if let Json::Text(more_text) = value {
                        let joined: String = concat2(text.as_str(), more_text.as_str());
                        members.insert(key, Json::Text(joined));
                    }
                }
            },
            Some(_) => {},
            None => {
                members.insert(key, value.copy());
            },
        }
        proof {
            lemma_take_contains(keys, i as int);
        }
        i = i + 1;
    }
    proof {
        lemma_ends(keys);
        assert(members@ =~= merged_detail(entry@, fragment@)->Object_0);
    }
    Json::Object(members)
}

/// The structured reasoning channel of one stream, in wire order.
///
/// A stream splits each logical detail across chunks, so the fragments are
/// coalesced back into one entry: an aggregator that receives half a signature
/// back rejects the turn.
pub struct ReasoningDetails {
    entries: Vec<Json>,
}

impl View for ReasoningDetails {
    type V = Seq<JsonV>;

    closed spec fn view(&self) -> Seq<JsonV> {
        models(self.entries@)
    }
}

/// The last entry before `end` that a fragment continues.
pub open spec fn continued(entries: Seq<JsonV>, fragment: JsonV, end: int) -> Option<int>
    decreases end,
{
    if end <= 0 || end > entries.len() {
        None
    } else if continues(entries[end - 1], fragment) {
        Some(end - 1)
    } else {
        continued(entries, fragment, end - 1)
    }
}

/// The entries with one fragment absorbed: it lands on the most recent entry
/// it continues, or becomes an entry of its own.
pub open spec fn absorbed(entries: Seq<JsonV>, fragment: JsonV) -> Seq<JsonV> {
    match continued(entries, fragment, entries.len() as int) {
        Some(at) => entries.update(at, merged_detail(entries[at], fragment)),
        None => entries.push(fragment),
    }
}

/// The entries with each fragment of a list absorbed, in order.
pub open spec fn absorbed_all(entries: Seq<JsonV>, fragments: Seq<JsonV>) -> Seq<JsonV>
    decreases fragments.len(),
{
    if fragments.len() == 0 {
        entries
    } else {
        absorbed(absorbed_all(entries, fragments.drop_last()), fragments.last())
    }
}

impl ReasoningDetails {
    /// No details yet.
    pub fn new() -> (r: Self)
        ensures
            r@ == Seq::<JsonV>::empty(),
    {
        let r: ReasoningDetails = ReasoningDetails { entries: Vec::new() };
        assert(r@ =~= Seq::<JsonV>::empty());
        r
    }

    /// Absorbs one fragment.
    fn absorb_one(&mut self, fragment: &Json)
        ensures
            final(self)@ == absorbed(old(self)@, fragment@),
    {
        let ghost before = self@;
        let mut i: usize = self.entries.len();
        while i > 0
            invariant
                i <= self.entries.len(),
                before == old(self)@,
                before == models(self.entries@),
                continued(before, fragment@, before.len() as int) == continued(
                    before,
                    fragment@,
                    i as int,
                ),
            decreases i,
        {
            if continues_detail(&self.entries[i - 1], fragment) {
                assert(before[i - 1] == self.entries@[i - 1]@);
                let entry: Json = merge_detail(&self.entries[i - 1], fragment);
                self.entries.set(i - 1, entry);
                assert(self@ =~= before.update(i - 1, entry@));
                return ;
            }
            i = i - 1;
        }
        let entry: Json = fragment.copy();
        self.entries.push(entry);
        assert(self@ =~= before.push(entry@));
    }

    /// Absorbs one streamed `reasoning_details` payload.
    ///
    /// A fragment continues the most recent entry of the same `type` whose
    /// `index` matches, so details that arrive interleaved still coalesce. A
    /// fragment without an `index` continues the most recent entry of its
    /// type. Anything that is not an object carries nothing replayable and is
    /// dropped.
    pub fn absorb(&mut self, payload: &Json)
        ensures
            final(self)@ == absorbed_all(old(self)@, payload_details(payload@)),
    {
        let fragments: Vec<Json> = read_details(payload);
        let ghost before = self@;
        let ghost all = models(fragments@);
        let mut i: usize = 0;
        proof {
            lemma_ends(all);
        }
        while i < fragments.len()
            invariant
                i <= fragments.len(),
                all == models(fragments@),
                self@ == absorbed_all(before, all.take(i as int)),
            decreases fragments.len() - i,
        {
            proof {
                lemma_take(all, i as int);
            }
            self.absorb_one(&fragments[i]);
            i = i + 1;
        }
        proof {
            lemma_ends(all);
        }
    }

    /// The accumulated entries, or `None` when nothing usable arrived.
    pub fn entries(&self) -> (r: Option<Json>)
        ensures
            owned_model_opt(r) == (if self@.len() > 0 {
                Some(JsonV::Array(self@))
            } else {
                None
            }),
    {
        if self.entries.len() == 0 {
            return None;
        }
        let mut copies: Vec<Json> = Vec::new();
        let mut i: usize = 0;
        while i < self.entries.len()
            invariant
                i <= self.entries.len(),
                copies.len() == i,
                forall|k: int| 0 <= k < i ==> copies@[k]@ == self.entries@[k]@,
            decreases self.entries.len() - i,
        {
            copies.push(self.entries[i].copy());
            i = i + 1;
        }
        assert(models(copies@) =~= self@);
        Some(Json::Array(copies))
    }
}

} // verus!
