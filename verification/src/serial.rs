//! Parsing and printing JSON text with `serde_json`.

use vstd::prelude::*;

use crate::json::lemma_model;
use crate::json::models;
use crate::json::number_held;
use crate::json::Json;
use crate::json::JsonObject;
use crate::json::JsonV;

verus! {

broadcast use {vstd::std_specs::vec::group_vec_axioms, vstd::seq::group_seq_axioms, vstd::map::group_map_axioms, lemma_model};

/// Makes `serde_json::Value` known. A value passes through opaque.
#[verifier::external_type_specification]
#[verifier::external_body]
pub struct ExValue(serde_json::Value);

/// Makes `serde_json::Error` known. A parse error passes through opaque.
#[verifier::external_type_specification]
#[verifier::external_body]
pub struct ExError(serde_json::Error);

/// What a `serde_json::Value` holds.
pub uninterp spec fn held(value: serde_json::Value) -> JsonV;

/// What `serde_json::from_str` reads from a text: the document it spells, or
/// nothing when it rejects the text.
pub uninterp spec fn parsed(text: Seq<char>) -> Option<JsonV>;

/// How `serde_json` prints a document in its compact form.
pub uninterp spec fn printed(document: JsonV) -> Seq<char>;

/// How many arrays and objects `serde_json` reads inside one another.
pub const NESTING: u8 = 127;

/// Whether reading the text of a document gives the document back: it holds no
/// fraction, whose decimal may be read as a neighbour, and nests no deeper
/// than `depth`.
pub open spec fn reads_back(document: JsonV, depth: nat) -> bool
    decreases depth,
{
    match document {
        JsonV::Number(number) => !(number is Float),
        JsonV::Array(items) => depth > 0 && forall|i: int|
            0 <= i < items.len() ==> reads_back(#[trigger] items[i], (depth - 1) as nat),
        JsonV::Object(members) => depth > 0 && forall|key: Seq<char>| #[trigger]
            members.contains_key(key) ==> reads_back(members[key], (depth - 1) as nat),
        _ => true,
    }
}

/// One level of a `serde_json::Value`: its variant, with the values below it.
pub enum Level {
    Null,
    Bool(bool),
    Number(serde_json::Number),
    Text(String),
    Array(Vec<serde_json::Value>),
    Object(Vec<(String, serde_json::Value)>),
}

/// Whether a level is the top of a document.
pub open spec fn tops(level: Level, document: JsonV) -> bool {
    match level {
        Level::Null => document == JsonV::Null,
        Level::Bool(value) => document == JsonV::Bool(value),
        Level::Number(number) => document == JsonV::Number(number_held(number)),
        Level::Text(text) => document == JsonV::Text(text@),
        Level::Array(items) => document == JsonV::Array(
            Seq::new(items@.len(), |i: int| held(items@[i])),
        ),
        Level::Object(entries) => {
            &&& document is Object
            &&& document->Object_0.dom().finite()
            &&& forall|i: int|
                0 <= i < entries@.len() ==> document->Object_0.contains_key(
                    (#[trigger] entries@[i]).0@,
                ) && document->Object_0[entries@[i].0@] == held(entries@[i].1)
            &&& forall|key: Seq<char>| #[trigger]
                document->Object_0.contains_key(key) ==> has_key(entries@, key)
        },
    }
}

/// Whether an entry list has an entry under a key.
pub open spec fn has_key(entries: Seq<(String, serde_json::Value)>, key: Seq<char>) -> bool {
    exists|i: int| 0 <= i < entries.len() && (#[trigger] entries[i]).0@ == key
}

/// No two entries share a key.
pub open spec fn keys_distinct(entries: Seq<(String, serde_json::Value)>) -> bool {
    forall|i: int, j: int| 0 <= i < j < entries.len() ==> entries[i].0@ != entries[j].0@
}

/// Takes a `serde_json::Value` apart by its variant. An object hands its
/// members out under distinct keys.
#[verifier::external_body]
fn open_value(value: serde_json::Value) -> (r: Level)
    ensures
        tops(r, held(value)),
        r matches Level::Object(entries) ==> keys_distinct(entries@),
{
    match value {
        serde_json::Value::Null => Level::Null,
        serde_json::Value::Bool(value) => Level::Bool(value),
        serde_json::Value::Number(number) => Level::Number(number),
        serde_json::Value::String(text) => Level::Text(text),
        serde_json::Value::Array(items) => Level::Array(items),
        serde_json::Value::Object(members) => Level::Object(members.into_iter().collect()),
    }
}

/// Builds the `serde_json::Value` of a variant. An object collects its members
/// into a `serde_json::Map`, which keeps each of several distinct keys.
#[verifier::external_body]
fn close_value(level: Level) -> (r: serde_json::Value)
    requires
        level matches Level::Object(entries) ==> keys_distinct(entries@),
    ensures
        tops(level, held(r)),
{
    match level {
        Level::Null => serde_json::Value::Null,
        Level::Bool(value) => serde_json::Value::Bool(value),
        Level::Number(number) => serde_json::Value::Number(number),
        Level::Text(text) => serde_json::Value::String(text),
        Level::Array(items) => serde_json::Value::Array(items),
        Level::Object(entries) => serde_json::Value::Object(entries.into_iter().collect()),
    }
}

/// Parses a text with `serde_json::from_str`. Whether it succeeds, and with
/// what document, depends on the text alone.
#[verifier::external_body]
fn parse_value(text: &str) -> (r: Result<serde_json::Value, serde_json::Error>)
    ensures
        match r {
            Ok(value) => parsed(text@) == Some(held(value)),
            Err(_) => parsed(text@) is None,
        },
{
    serde_json::from_str(text)
}

/// Prints a `serde_json::Value` with its `Display`, the compact form. What
/// comes out depends on the document alone, an object's members being sorted
/// by key. It is some text, and `serde_json::from_str` reads a document
/// without fractions that nests within its recursion limit back from it.
#[verifier::external_body]
fn print_value(value: &serde_json::Value) -> (r: String)
    ensures
        r@ == printed(held(*value)),
        r@.len() > 0,
        reads_back(held(*value), NESTING as nat) ==> parsed(r@) == Some(held(*value)),
{
    value.to_string()
}

/// Reads a `serde_json::Value` into a document.
#[verifier::loop_isolation(false)]
pub fn from_value(value: serde_json::Value) -> (r: Json)
    ensures
        r@ == held(value),
    decreases held(value),
{
    let ghost document = held(value);
    match open_value(value) {
        Level::Null => Json::Null,
        Level::Bool(value) => Json::Bool(value),
        Level::Number(number) => Json::Number(number),
        Level::Text(text) => Json::Text(text),
        Level::Array(items) => {
            let ghost all = items@;
            let mut rest: Vec<serde_json::Value> = items;
            let mut read: Vec<Json> = Vec::new();
            while rest.len() > 0
                invariant
                    read@.len() + rest@.len() == all.len(),
                    rest@ == all.skip(read@.len() as int),
                    forall|k: int| 0 <= k < read@.len() ==> read@[k]@ == held(all[k]),
                decreases rest.len(),
            {
                let ghost at = read@.len() as int;
                let next: serde_json::Value = rest.remove(0);
                assert(next == all[at]);
                assert(document->Array_0[at] == held(next));
                assert(decreases_to!(document->Array_0 => document->Array_0[at]));
                read.push(from_value(next));
                assert(rest@ =~= all.skip(read@.len() as int));
            }
            assert(models(read@) =~= document->Array_0);
            Json::Array(read)
        },
        Level::Object(entries) => {
            let ghost all = entries@;
            let mut rest: Vec<(String, serde_json::Value)> = entries;
            let mut read: JsonObject = JsonObject::new();
            let ghost mut at: int = 0;
            while rest.len() > 0
                invariant
                    0 <= at <= all.len(),
                    rest@ == all.skip(at),
                    forall|i: int|
                        0 <= i < at ==> read@.contains_key((#[trigger] all[i]).0@)
                            && read@[all[i].0@] == held(all[i].1),
                    forall|key: Seq<char>| #[trigger]
                        read@.contains_key(key) ==> has_key(all.take(at), key),
                decreases rest.len(),
            {
                let next: (String, serde_json::Value) = rest.remove(0);
                assert(next == all[at]);
                assert(document->Object_0.contains_key(all[at].0@));
                assert(decreases_to!(document->Object_0 => document->Object_0[all[at].0@]));
                let ghost before = read@;
                let value: Json = from_value(next.1);
                read.insert(next.0.as_str(), value);
                proof {
                    assert forall|key: Seq<char>| #[trigger] read@.contains_key(key) implies has_key(
                        all.take(at + 1),
                        key,
                    ) by {
                        if key == all[at].0@ {
                            assert(all.take(at + 1)[at].0@ == key);
                        } else {
                            assert(before.contains_key(key));
                            let i = choose|i: int|
                                0 <= i < all.take(at).len() && (#[trigger] all.take(at)[i]).0@
                                    == key;
                            assert(all.take(at + 1)[i].0@ == key);
                        }
                    }
                    at = at + 1;
                    assert(rest@ =~= all.skip(at));
                }
            }
            proof {
                assert(all.take(at) =~= all);
                assert(read@ =~= document->Object_0);
            }
            Json::Object(read)
        },
    }
}

/// Builds the `serde_json::Value` of a document.
#[verifier::loop_isolation(false)]
pub fn to_value(document: &Json) -> (r: serde_json::Value)
    ensures
        held(r) == document@,
    decreases document@,
{
    match document {
        Json::Null => close_value(Level::Null),
        Json::Bool(value) => close_value(Level::Bool(*value)),
        Json::Number(number) => close_value(Level::Number(number.clone())),
        Json::Text(text) => close_value(Level::Text(text.as_str().to_owned())),
        Json::Array(items) => {
            let mut built: Vec<serde_json::Value> = Vec::new();
            let mut i: usize = 0;
            while i < items.len()
                invariant
                    i <= items.len(),
                    built.len() == i,
                    forall|k: int| 0 <= k < i ==> held(built@[k]) == items@[k]@,
                decreases items.len() - i,
            {
                assert(document@->Array_0[i as int] == items@[i as int]@);
                assert(decreases_to!(document@->Array_0 => document@->Array_0[i as int]));
                built.push(to_value(&items[i]));
                i = i + 1;
            }
            assert(Seq::new(built@.len(), |k: int| held(built@[k])) =~= models(items@));
            close_value(Level::Array(built))
        },
        Json::Object(object) => {
            object.settle();
            let mut built: Vec<(String, serde_json::Value)> = Vec::new();
            let mut i: usize = 0;
            while i < object.len()
                invariant
                    i <= object.keys().len(),
                    built.len() == i,
                    forall|k: int|
                        0 <= k < i ==> (#[trigger] built@[k]).0@ == object.keys()[k] && held(
                            built@[k].1,
                        ) == object@[object.keys()[k]],
                decreases object.keys().len() - i,
            {
                let value: &Json = object.value_at(i);
                assert(decreases_to!(document@->Object_0 => document@->Object_0[object.keys()[i as int]]));
                let copy: serde_json::Value = to_value(value);
                built.push((object.key_at(i).to_owned(), copy));
                i = i + 1;
            }
            proof {
                assert(keys_distinct(built@)) by {
                    assert forall|a: int, b: int| 0 <= a < b < built@.len() implies built@[a].0@
                        != built@[b].0@ by {
                        assert(object.keys()[a] != object.keys()[b]);
                    }
                }
            }
            let ghost entries = built@;
            let r: serde_json::Value = close_value(Level::Object(built));
            proof {
                let members = held(r)->Object_0;
                assert forall|key: Seq<char>| members.contains_key(key) <==> object@.contains_key(
                    key,
                ) by {
                    if members.contains_key(key) {
                        let k = choose|k: int|
                            0 <= k < entries.len() && (#[trigger] entries[k]).0@ == key;
                        assert(object.keys()[k] == key);
                    }
                    if object@.contains_key(key) {
                        let k = choose|k: int|
                            0 <= k < object.keys().len() && object.keys()[k] == key;
                        assert(entries[k].0@ == key);
                    }
                }
                assert forall|key: Seq<char>| members.contains_key(key) implies members[key]
                    == object@[key] by {
                    let k = choose|k: int|
                        0 <= k < entries.len() && (#[trigger] entries[k]).0@ == key;
                    assert(object.keys()[k] == key);
                }
                assert(members =~= object@);
            }
            r
        },
    }
}

/// Parses JSON text.
pub fn parse(text: &str) -> (r: Result<Json, serde_json::Error>)
    ensures
        match r {
            Ok(document) => parsed(text@) == Some(document@),
            Err(_) => parsed(text@) is None,
        },
{
    match parse_value(text) {
        Ok(value) => Ok(from_value(value)),
        Err(error) => Err(error),
    }
}

/// Prints a document as compact JSON text.
pub fn print(document: &Json) -> (r: String)
    ensures
        r@ == printed(document@),
        r@.len() > 0,
        reads_back(document@, NESTING as nat) ==> parsed(r@) == Some(document@),
{
    let value: serde_json::Value = to_value(document);
    print_value(&value)
}

} // verus!
