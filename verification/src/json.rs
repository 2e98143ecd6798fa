//! JSON documents: the exec type, its mathematical model, and its readers.

use vstd::prelude::*;
use vstd::string::*;

use crate::text::same;
use crate::text::text_opt;

verus! {

broadcast use {vstd::std_specs::vec::group_vec_axioms, vstd::seq::group_seq_axioms};

/// Makes `serde_json::Number` known. A number passes through opaque.
#[verifier::external_type_specification]
#[verifier::external_body]
pub struct ExNumber(serde_json::Number);

/// The value a number holds: an integer from zero up, an integer below zero,
/// or a binary64 fraction, given by its bits.
pub enum NumberV {
    Unsigned(u64),
    Negative(i64),
    Float(u64),
}

/// What a `serde_json::Number` holds.
pub uninterp spec fn number_held(number: serde_json::Number) -> NumberV;

/// Clones a `serde_json::Number` with its own `clone`: the clone is the same
/// number.
pub assume_specification[ <serde_json::Number as Clone>::clone ](
    number: &serde_json::Number,
) -> (r: serde_json::Number)
    ensures
        r == *number,
;

/// Reads a number with `serde_json::Number::as_u64`, which gives the value of
/// an integer from zero up and nothing for any other number.
#[verifier::external_body]
fn number_unsigned(number: &serde_json::Number) -> (r: Option<u64>)
    ensures
        r == (match number_held(*number) {
            NumberV::Unsigned(value) => Some(value),
            _ => None,
        }),
{
    number.as_u64()
}

/// Makes a number with the `From<u64>` of `serde_json::Number`, which holds
/// that integer.
#[verifier::external_body]
fn number_from(value: u64) -> (r: serde_json::Number)
    ensures
        number_held(r) == NumberV::Unsigned(value),
{
    serde_json::Number::from(value)
}

/// One JSON value.
#[derive(Debug)]
pub enum Json {
    Null,
    Bool(bool),
    Number(serde_json::Number),
    Text(String),
    Array(Vec<Json>),
    Object(JsonObject),
}

/// A JSON object: members under distinct keys.
#[derive(Debug)]
pub struct JsonObject {
    entries: Vec<(String, Json)>,
}

/// What a JSON value is: texts are character sequences, arrays sequences, and
/// objects maps, so the order of an object's members means nothing.
#[verifier::ext_equal]
pub enum JsonV {
    Null,
    Bool(bool),
    Number(NumberV),
    Text(Seq<char>),
    Array(Seq<JsonV>),
    Object(Map<Seq<char>, JsonV>),
}

/// The members of an entry list, the last entry of a key winning.
pub closed spec fn members(entries: Seq<(String, Json)>) -> Map<Seq<char>, JsonV>
    decreases entries,
{
    if entries.len() == 0 {
        Map::empty()
    } else {
        members(entries.drop_last()).insert(entries.last().0@, entries.last().1.model())
    }
}

impl Json {
    /// What the value is.
    pub closed spec fn model(self) -> JsonV
        decreases self,
    {
        match self {
            Json::Null => JsonV::Null,
            Json::Bool(value) => JsonV::Bool(value),
            Json::Number(value) => JsonV::Number(number_held(value)),
            Json::Text(text) => JsonV::Text(text@),
            Json::Array(items) => JsonV::Array(
                Seq::new(
                    items@.len(),
                    |i: int| if 0 <= i < items@.len() { items@[i].model() } else { JsonV::Null },
                ),
            ),
            Json::Object(object) => JsonV::Object(members(object.entries@)),
        }
    }
}

impl View for Json {
    type V = JsonV;

    open spec fn view(&self) -> JsonV {
        self.model()
    }
}

impl View for JsonObject {
    type V = Map<Seq<char>, JsonV>;

    closed spec fn view(&self) -> Map<Seq<char>, JsonV> {
        members(self.entries@)
    }
}

/// What each value of a list is.
pub open spec fn models(items: Seq<Json>) -> Seq<JsonV> {
    Seq::new(items.len(), |i: int| items[i]@)
}

/// What a value of each form is.
pub broadcast proof fn lemma_model(value: Json)
    ensures
        #![trigger value.model()]
        value matches Json::Null ==> value.model() == JsonV::Null,
        value matches Json::Bool(held) ==> value.model() == JsonV::Bool(held),
        value matches Json::Number(held) ==> value.model() == JsonV::Number(number_held(held)),
        value matches Json::Text(text) ==> value.model() == JsonV::Text(text@),
        value matches Json::Array(items) ==> value.model() == JsonV::Array(models(items@)),
        value matches Json::Object(object) ==> value.model() == JsonV::Object(object@),
{
    if let Json::Array(items) = value {
        assert(value.model()->Array_0 =~= models(items@));
    }
}

/// What an optional borrowed value is.
pub open spec fn model_opt(value: Option<&Json>) -> Option<JsonV> {
    match value {
        Some(value) => Some(value@),
        None => None,
    }
}

/// What an optional owned value is.
pub open spec fn owned_model_opt(value: Option<Json>) -> Option<JsonV> {
    match value {
        Some(value) => Some(value@),
        None => None,
    }
}

/// The members a value holds when it is an object.
pub open spec fn object_opt(object: Option<&JsonObject>) -> Option<Map<Seq<char>, JsonV>> {
    match object {
        Some(object) => Some(object@),
        None => None,
    }
}

/// What each value of an optional list is.
pub open spec fn list_opt(list: Option<&Vec<Json>>) -> Option<Seq<JsonV>> {
    match list {
        Some(list) => Some(models(list@)),
        None => None,
    }
}

impl JsonV {
    /// The member under a key; only an object has any.
    pub open spec fn get(self, key: Seq<char>) -> Option<JsonV> {
        match self {
            JsonV::Object(object) if object.contains_key(key) => Some(object[key]),
            _ => None,
        }
    }

    /// The first element of an array, or an object's member `0`.
    pub open spec fn first(self) -> Option<JsonV> {
        match self {
            JsonV::Array(items) if items.len() > 0 => Some(items[0]),
            JsonV::Object(_) => self.get("0"@),
            _ => None,
        }
    }

    pub open spec fn text(self) -> Option<Seq<char>> {
        match self {
            JsonV::Text(text) => Some(text),
            _ => None,
        }
    }

    pub open spec fn array(self) -> Option<Seq<JsonV>> {
        match self {
            JsonV::Array(items) => Some(items),
            _ => None,
        }
    }

    pub open spec fn object(self) -> Option<Map<Seq<char>, JsonV>> {
        match self {
            JsonV::Object(object) => Some(object),
            _ => None,
        }
    }

    pub open spec fn unsigned(self) -> Option<u64> {
        match self {
            JsonV::Number(NumberV::Unsigned(value)) => Some(value),
            _ => None,
        }
    }

    pub open spec fn truth(self) -> Option<bool> {
        match self {
            JsonV::Bool(value) => Some(value),
            _ => None,
        }
    }

    /// The text member under a key.
    pub open spec fn text_at(self, key: Seq<char>) -> Option<Seq<char>> {
        text_of(self.get(key))
    }

    /// The count under a key.
    pub open spec fn unsigned_at(self, key: Seq<char>) -> Option<u64> {
        match self.get(key) {
            Some(value) => value.unsigned(),
            None => None,
        }
    }

    /// The truth value under a key.
    pub open spec fn truth_at(self, key: Seq<char>) -> Option<bool> {
        match self.get(key) {
            Some(value) => value.truth(),
            None => None,
        }
    }

    /// The elements of the array under a key, and none when there is no array.
    pub open spec fn items_at(self, key: Seq<char>) -> Seq<JsonV> {
        items_of(self.get(key))
    }

    /// The member under a key of the member under another.
    pub open spec fn get2(self, key: Seq<char>, inner: Seq<char>) -> Option<JsonV> {
        match self.get(key) {
            Some(value) => value.get(inner),
            None => None,
        }
    }
}

/// The text an optional value is.
pub open spec fn text_of(value: Option<JsonV>) -> Option<Seq<char>> {
    match value {
        Some(value) => value.text(),
        None => None,
    }
}

/// The count an optional value is.
pub open spec fn unsigned_of(value: Option<JsonV>) -> Option<u64> {
    match value {
        Some(value) => value.unsigned(),
        None => None,
    }
}

/// The elements an optional value holds, and none when it is no array.
pub open spec fn items_of(value: Option<JsonV>) -> Seq<JsonV> {
    match value {
        Some(JsonV::Array(items)) => items,
        _ => Seq::empty(),
    }
}

/// No two entries share a key.
spec fn distinct(entries: Seq<(String, Json)>) -> bool {
    forall|i: int, j: int| 0 <= i < j < entries.len() ==> entries[i].0@ != entries[j].0@
}

/// The keys of an entry list.
spec fn entry_keys(entries: Seq<(String, Json)>) -> Seq<Seq<char>> {
    Seq::new(entries.len(), |i: int| entries[i].0@)
}

/// A member is there exactly when an entry has its key, and it is that entry's
/// value.
proof fn lemma_members(entries: Seq<(String, Json)>)
    requires
        distinct(entries),
    ensures
        forall|i: int| 0 <= i < entries.len() ==> members(entries).contains_key(
            (#[trigger] entries[i]).0@,
        ) && members(entries)[entries[i].0@] == entries[i].1@,
        forall|key: Seq<char>| #[trigger] members(entries).contains_key(key) ==> entry_keys(
            entries,
        ).contains(key),
        members(entries).dom().finite(),
    decreases entries.len(),
{
    if entries.len() > 0 {
        let shorter = entries.drop_last();
        lemma_members(shorter);
        assert forall|i: int| 0 <= i < entries.len() implies members(entries).contains_key(
            (#[trigger] entries[i]).0@,
        ) && members(entries)[entries[i].0@] == entries[i].1@ by {
            if i < entries.len() - 1 {
                assert(shorter[i] == entries[i]);
                assert(entries[i].0@ != entries.last().0@);
            }
        }
        assert forall|key: Seq<char>| #[trigger]
            members(entries).contains_key(key) implies entry_keys(entries).contains(key) by {
            if key == entries.last().0@ {
                assert(entry_keys(entries)[entries.len() - 1] == key);
            } else {
                assert(members(shorter).contains_key(key));
                let i = choose|i: int| 0 <= i < shorter.len() && entry_keys(shorter)[i] == key;
                assert(entry_keys(entries)[i] == key);
            }
        }
    }
}

impl JsonObject {
    #[verifier::type_invariant]
    spec fn well_formed(self) -> bool {
        distinct(self.entries@)
    }

    /// The keys in the order of the entries.
    pub closed spec fn keys(self) -> Seq<Seq<char>> {
        entry_keys(self.entries@)
    }

    /// An object without members.
    pub fn new() -> (r: Self)
        ensures
            r@ == Map::<Seq<char>, JsonV>::empty(),
    {
        JsonObject { entries: Vec::new() }
    }

    /// How many members there are.
    pub fn len(&self) -> (r: usize)
        ensures
            r == self.keys().len(),
    {
        self.entries.len()
    }

    /// The keys are the map's domain, each once.
    pub fn settle(&self)
        ensures
            self.keys().no_duplicates(),
            forall|key: Seq<char>| #[trigger] self@.contains_key(key) <==> self.keys().contains(key),
            self@.dom().finite(),
    {
        proof {
            use_type_invariant(self);
            lemma_members(self.entries@);
            assert forall|key: Seq<char>| self.keys().contains(key) implies #[trigger]
                self@.contains_key(key) by {
                let i = choose|i: int| 0 <= i < self.keys().len() && self.keys()[i] == key;
                assert(self.entries@[i].0@ == key);
            }
        }
    }

    /// Whether there is no member.
    pub fn is_empty(&self) -> (r: bool)
        ensures
            r == (self@ == Map::<Seq<char>, JsonV>::empty()),
    {
        proof {
            use_type_invariant(self);
            lemma_members(self.entries@);
            if self.entries@.len() > 0 {
                assert(self@.contains_key(self.entries@[0].0@));
            }
        }
        self.entries.len() == 0
    }

    /// The key of the entry at `index`.
    pub fn key_at(&self, index: usize) -> (r: &str)
        requires
            index < self.keys().len(),
        ensures
            r@ == self.keys()[index as int],
    {
        self.entries[index].0.as_str()
    }

    /// The value of the entry at `index`.
    pub fn value_at(&self, index: usize) -> (r: &Json)
        requires
            index < self.keys().len(),
        ensures
            self@.contains_key(self.keys()[index as int]),
            r@ == self@[self.keys()[index as int]],
    {
        proof {
            use_type_invariant(self);
            lemma_members(self.entries@);
            assert(self.entries@[index as int].0@ == self.keys()[index as int]);
        }
        &self.entries[index].1
    }

    /// The index of the entry under a key.
    fn position(&self, key: &str) -> (r: Option<usize>)
        ensures
            match r {
                Some(i) => i < self.entries@.len() && self.entries@[i as int].0@ == key@,
                None => forall|i: int|
                    0 <= i < self.entries@.len() ==> (#[trigger] self.entries@[i]).0@ != key@,
            },
    {
        let mut i: usize = 0;
        while i < self.entries.len()
            invariant
                i <= self.entries@.len(),
                forall|k: int| 0 <= k < i ==> (#[trigger] self.entries@[k]).0@ != key@,
            decreases self.entries.len() - i,
        {
            if same(self.entries[i].0.as_str(), key) {
                return Some(i);
            }
            i = i + 1;
        }
        None
    }

    /// The member under a key.
    pub fn get(&self, key: &str) -> (r: Option<&Json>)
        ensures
            model_opt(r) == JsonV::Object(self@).get(key@),
    {
        proof {
            use_type_invariant(self);
            lemma_members(self.entries@);
        }
        match self.position(key) {
            Some(i) => {
                assert(self.entries@[i as int].0@ == key@);
                Some(&self.entries[i].1)
            },
            None => {
                proof {
                    if self@.contains_key(key@) {
                        let i = choose|i: int|
                            0 <= i < entry_keys(self.entries@).len() && entry_keys(self.entries@)[i]
                                == key@;
                        assert(self.entries@[i].0@ == key@);
                    }
                }
                None
            },
        }
    }

    /// Whether there is a member under a key.
    pub fn contains_key(&self, key: &str) -> (r: bool)
        ensures
            r == self@.contains_key(key@),
    {
        self.get(key).is_some()
    }

    /// Puts a member under a key, in place of the one that was there.
    pub fn insert(&mut self, key: &str, value: Json)
        ensures
            final(self)@ == old(self)@.insert(key@, value@),
    {
        proof {
            use_type_invariant(&*self);
            lemma_members(self.entries@);
        }
        let ghost before = self.entries@;
        let found: Option<usize> = self.position(key);
        let mut entries: Vec<(String, Json)> = Vec::new();
        core::mem::swap(&mut self.entries, &mut entries);
        match found {
            Some(i) => {
                entries.set(i, (key.to_owned(), value));
                proof {
                    let after = entries@;
                    assert forall|a: int, b: int| 0 <= a < b < after.len() implies after[a].0@
                        != after[b].0@ by {
                        assert(before[a].0@ != before[b].0@);
                    }
                    lemma_replaced(before, after, i as int);
                }
            },
            None => {
                entries.push((key.to_owned(), value));
                proof {
                    let after = entries@;
                    assert(after.drop_last() =~= before);
                    assert forall|a: int, b: int| 0 <= a < b < after.len() implies after[a].0@
                        != after[b].0@ by {
                        assert(after[a] == before[a]);
                        if b < before.len() {
                            assert(after[b] == before[b]);
                        }
                    }
                }
            },
        }
        self.entries = entries;
    }

    /// Takes the member under a key out.
    pub fn remove(&mut self, key: &str) -> (r: Option<Json>)
        ensures
            owned_model_opt(r) == JsonV::Object(old(self)@).get(key@),
            final(self)@ == old(self)@.remove(key@),
    {
        proof {
            use_type_invariant(&*self);
            lemma_members(self.entries@);
        }
        let ghost before = self.entries@;
        match self.position(key) {
            Some(i) => {
                let mut entries: Vec<(String, Json)> = Vec::new();
                core::mem::swap(&mut self.entries, &mut entries);
                let removed: (String, Json) = entries.remove(i);
                proof {
                    let after = entries@;
                    assert(after =~= before.remove(i as int));
                    assert forall|a: int, b: int| 0 <= a < b < after.len() implies after[a].0@
                        != after[b].0@ by {
                        let c = if a < i { a } else { a + 1 };
                        let d = if b < i { b } else { b + 1 };
                        assert(after[a] == before[c] && after[b] == before[d]);
                    }
                    lemma_removed(before, after, i as int);
                }
                self.entries = entries;
                Some(removed.1)
            },
            None => {
                proof {
                    if members(before).contains_key(key@) {
                        let i = choose|i: int|
                            0 <= i < entry_keys(before).len() && entry_keys(before)[i] == key@;
                        assert(before[i].0@ == key@);
                    }
                    assert(members(before).remove(key@) =~= members(before));
                }
                None
            },
        }
    }
}

impl JsonObject {
    /// The same object again.
    #[verifier::loop_isolation(false)]
    pub fn copy(&self) -> (r: JsonObject)
        ensures
            r@ == self@,
        decreases *self,
    {
        let mut copies: JsonObject = JsonObject::new();
        let mut i: usize = 0;
        assert(self.entries@.take(0) =~= Seq::empty());
        while i < self.entries.len()
            invariant
                i <= self.entries.len(),
                copies@ == members(self.entries@.take(i as int)),
            decreases self.entries.len() - i,
        {
            assert(decreases_to!(self.entries => self.entries[i as int]));
            let value: Json = self.entries[i].1.copy();
            copies.insert(self.entries[i].0.as_str(), value);
            assert(self.entries@.take(i + 1).drop_last() =~= self.entries@.take(i as int));
            i = i + 1;
        }
        assert(self.entries@.take(i as int) =~= self.entries@);
        copies
    }
}

/// Replacing the value of one entry replaces that member.
proof fn lemma_replaced(before: Seq<(String, Json)>, after: Seq<(String, Json)>, at: int)
    requires
        distinct(before),
        distinct(after),
        0 <= at < before.len(),
        after.len() == before.len(),
        after[at].0@ == before[at].0@,
        forall|i: int| 0 <= i < before.len() && i != at ==> after[i] == before[i],
    ensures
        members(after) == members(before).insert(after[at].0@, after[at].1@),
{
    lemma_members(before);
    lemma_members(after);
    let expected = members(before).insert(after[at].0@, after[at].1@);
    assert forall|key: Seq<char>| members(after).contains_key(key) <==> expected.contains_key(
        key,
    ) by {
        if members(after).contains_key(key) {
            let i = choose|i: int| 0 <= i < after.len() && entry_keys(after)[i] == key;
            assert(before[i].0@ == key);
        }
        if expected.contains_key(key) && key != after[at].0@ {
            let i = choose|i: int| 0 <= i < before.len() && entry_keys(before)[i] == key;
            assert(after[i].0@ == key);
        }
        assert(members(after).contains_key(after[at].0@));
    }
    assert forall|key: Seq<char>| members(after).contains_key(key) implies members(after)[key]
        == expected[key] by {
        let i = choose|i: int| 0 <= i < after.len() && entry_keys(after)[i] == key;
        assert(after[i].0@ == key);
        assert(before[i].0@ == key);
    }
    assert(members(after) =~= expected);
}

/// Taking one entry out takes that member out.
proof fn lemma_removed(before: Seq<(String, Json)>, after: Seq<(String, Json)>, at: int)
    requires
        distinct(before),
        distinct(after),
        0 <= at < before.len(),
        after == before.remove(at),
    ensures
        members(after) == members(before).remove(before[at].0@),
{
    lemma_members(before);
    lemma_members(after);
    let expected = members(before).remove(before[at].0@);
    assert forall|key: Seq<char>| members(after).contains_key(key) <==> expected.contains_key(
        key,
    ) by {
        if members(after).contains_key(key) {
            let i = choose|i: int| 0 <= i < after.len() && entry_keys(after)[i] == key;
            let j = if i < at { i } else { i + 1 };
            assert(after[i].0@ == key && after[i] == before[j]);
            assert(before[j].0@ == key);
            assert(before[at].0@ != before[j].0@);
        }
        if expected.contains_key(key) {
            let j = choose|j: int| 0 <= j < before.len() && entry_keys(before)[j] == key;
            assert(before[j].0@ == key);
            let i = if j < at { j } else { j - 1 };
            assert(after[i] == before[j]);
        }
    }
    assert forall|key: Seq<char>| members(after).contains_key(key) implies members(after)[key]
        == expected[key] by {
        let i = choose|i: int| 0 <= i < after.len() && entry_keys(after)[i] == key;
        let j = if i < at { i } else { i + 1 };
        assert(after[i].0@ == key && after[i] == before[j]);
        assert(before[j].0@ == key);
    }
    assert(members(after) =~= expected);
}

impl Json {
    /// A text value.
    pub fn text(text: &str) -> (r: Json)
        ensures
            r@ == JsonV::Text(text@),
    {
        Json::Text(text.to_owned())
    }

    /// A count.
    pub fn unsigned(value: u64) -> (r: Json)
        ensures
            r@ == JsonV::Number(NumberV::Unsigned(value)),
    {
        Json::Number(number_from(value))
    }

    /// The member under a key; only an object has any.
    pub fn get(&self, key: &str) -> (r: Option<&Json>)
        ensures
            model_opt(r) == self@.get(key@),
    {
        match self {
            Json::Object(object) => object.get(key),
            _ => None,
        }
    }

    /// The first element of an array, or an object's member `0`.
    pub fn first(&self) -> (r: Option<&Json>)
        ensures
            model_opt(r) == self@.first(),
    {
        match self {
            Json::Array(items) => {
                if items.len() > 0 {
                    assert(self@->Array_0[0] == items@[0]@);
                    Some(&items[0])
                } else {
                    None
                }
            },
            Json::Object(object) => object.get("0"),
            _ => None,
        }
    }

    pub fn as_text(&self) -> (r: Option<&str>)
        ensures
            text_opt(r) == self@.text(),
    {
        match self {
            Json::Text(text) => Some(text.as_str()),
            _ => None,
        }
    }

    pub fn as_array(&self) -> (r: Option<&Vec<Json>>)
        ensures
            list_opt(r) == self@.array(),
    {
        match self {
            Json::Array(items) => Some(items),
            _ => None,
        }
    }

    pub fn as_object(&self) -> (r: Option<&JsonObject>)
        ensures
            object_opt(r) == self@.object(),
    {
        match self {
            Json::Object(object) => Some(object),
            _ => None,
        }
    }

    pub fn as_unsigned(&self) -> (r: Option<u64>)
        ensures
            r == self@.unsigned(),
    {
        match self {
            Json::Number(number) => number_unsigned(number),
            _ => None,
        }
    }

    pub fn as_truth(&self) -> (r: Option<bool>)
        ensures
            r == self@.truth(),
    {
        match self {
            Json::Bool(value) => Some(*value),
            _ => None,
        }
    }

    pub fn is_null(&self) -> (r: bool)
        ensures
            r == (self@ is Null),
    {
        matches!(self, Json::Null)
    }

    pub fn is_object(&self) -> (r: bool)
        ensures
            r == (self@ is Object),
    {
        matches!(self, Json::Object(_))
    }

    pub fn is_array(&self) -> (r: bool)
        ensures
            r == (self@ is Array),
    {
        matches!(self, Json::Array(_))
    }

    /// The text member under a key.
    pub fn text_at(&self, key: &str) -> (r: Option<&str>)
        ensures
            text_opt(r) == self@.text_at(key@),
    {
        match self.get(key) {
            Some(value) => value.as_text(),
            None => None,
        }
    }

    /// The count under a key.
    pub fn unsigned_at(&self, key: &str) -> (r: Option<u64>)
        ensures
            r == self@.unsigned_at(key@),
    {
        match self.get(key) {
            Some(value) => value.as_unsigned(),
            None => None,
        }
    }

    /// The truth value under a key.
    pub fn truth_at(&self, key: &str) -> (r: Option<bool>)
        ensures
            r == self@.truth_at(key@),
    {
        match self.get(key) {
            Some(value) => value.as_truth(),
            None => None,
        }
    }

    /// The member under a key of the member under another.
    pub fn get2(&self, key: &str, inner: &str) -> (r: Option<&Json>)
        ensures
            model_opt(r) == self@.get2(key@, inner@),
    {
        match self.get(key) {
            Some(value) => value.get(inner),
            None => None,
        }
    }

    /// The same value again.
    #[verifier::loop_isolation(false)]
    pub fn copy(&self) -> (r: Json)
        ensures
            r@ == self@,
        decreases *self,
    {
        broadcast use lemma_model;

        match self {
            Json::Null => Json::Null,
            Json::Bool(value) => Json::Bool(*value),
            Json::Number(value) => Json::Number(value.clone()),
            Json::Text(text) => Json::Text(text.as_str().to_owned()),
            Json::Array(items) => {
                let mut copies: Vec<Json> = Vec::new();
                let mut i: usize = 0;
                while i < items.len()
                    invariant
                        i <= items.len(),
                        copies.len() == i,
                        forall|k: int| 0 <= k < i ==> copies@[k]@ == items@[k]@,
                        *self == Json::Array(*items),
                    decreases items.len() - i,
                {
                    assert(decreases_to!(items => items[i as int]));
                    copies.push(items[i].copy());
                    i = i + 1;
                }
                assert(models(copies@) =~= models(items@));
                Json::Array(copies)
            },
            Json::Object(object) => Json::Object(object.copy()),
        }
    }
}

} // verus!
