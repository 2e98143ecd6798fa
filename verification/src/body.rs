//! Pieces of request bodies that the protocols share.

use vstd::prelude::*;
use vstd::string::*;

use crate::json::lemma_model;
use crate::json::models;
use crate::json::owned_model_opt;
use crate::json::Json;
use crate::json::JsonObject;
use crate::json::JsonV;
use crate::json::NumberV;
use crate::text::texts;
use crate::types::number_opt;

verus! {

broadcast use {vstd::std_specs::vec::group_vec_axioms, vstd::seq::group_seq_axioms, lemma_model};

/// A body with an optional member put in.
pub open spec fn with_member(
    body: Map<Seq<char>, JsonV>,
    key: Seq<char>,
    value: Option<JsonV>,
) -> Map<Seq<char>, JsonV> {
    match value {
        Some(value) => body.insert(key, value),
        None => body,
    }
}

/// Puts an optional member into a body.
pub fn put(body: &mut JsonObject, key: &str, value: Option<Json>)
    ensures
        final(body)@ == with_member(old(body)@, key@, owned_model_opt(value)),
{
    if let Some(value) = value {
        body.insert(key, value);
    }
}

/// A count as a JSON value.
pub open spec fn count_value(count: Option<u64>) -> Option<JsonV> {
    match count {
        Some(count) => Some(JsonV::Number(NumberV::Unsigned(count))),
        None => None,
    }
}

/// Spells an optional count.
pub fn count(value: Option<u64>) -> (r: Option<Json>)
    ensures
        owned_model_opt(r) == count_value(value),
{
    match value {
        Some(value) => Some(Json::unsigned(value)),
        None => None,
    }
}

/// A number as a JSON value.
pub open spec fn number_value(number: Option<NumberV>) -> Option<JsonV> {
    match number {
        Some(number) => Some(JsonV::Number(number)),
        None => None,
    }
}

/// Spells an optional number.
pub fn numeral(value: &Option<serde_json::Number>) -> (r: Option<Json>)
    ensures
        owned_model_opt(r) == number_value(number_opt(*value)),
{
    match value {
        Some(value) => Some(Json::Number(value.clone())),
        None => None,
    }
}

/// A list of texts as a JSON array.
pub open spec fn text_array(list: Seq<Seq<char>>) -> JsonV {
    JsonV::Array(Seq::new(list.len(), |i: int| JsonV::Text(list[i])))
}

/// A list of texts as a JSON array, unless it is empty.
pub open spec fn texts_value(list: Seq<Seq<char>>) -> Option<JsonV> {
    if list.len() == 0 {
        None
    } else {
        Some(text_array(list))
    }
}

/// Spells a list of texts, unless it is empty.
pub fn text_list(list: &Vec<String>) -> (r: Option<Json>)
    ensures
        owned_model_opt(r) == texts_value(texts(list@)),
{
    if list.len() == 0 {
        return None;
    }
    let mut values: Vec<Json> = Vec::new();
    let mut i: usize = 0;
    while i < list.len()
        invariant
            i <= list.len(),
            values.len() == i,
            forall|k: int| 0 <= k < i ==> values@[k]@ == JsonV::Text(list@[k]@),
        decreases list.len() - i,
    {
        values.push(Json::text(list[i].as_str()));
        i = i + 1;
    }
    assert(models(values@) =~= text_array(texts(list@))->Array_0);
    Some(Json::Array(values))
}

/// An object of one member.
pub open spec fn single(key: Seq<char>, value: JsonV) -> JsonV {
    JsonV::Object(map![key => value])
}

/// Makes an object of one member.
pub fn object1(key: &str, value: Json) -> (r: Json)
    ensures
        r@ == single(key@, value@),
{
    let mut object: JsonObject = JsonObject::new();
    object.insert(key, value);
    Json::Object(object)
}

/// Makes an array of one element.
pub fn array1(value: Json) -> (r: Json)
    ensures
        r@ == JsonV::Array(seq![value@]),
{
    let mut values: Vec<Json> = Vec::new();
    values.push(value);
    assert(models(values@) =~= seq![value@]);
    Json::Array(values)
}

} // verus!
