//! The tool-call identity this protocol makes the codec keep.
//!
//! Gemini names a function call by function name, usually with no id, and
//! answers a call by name as well. Everything that gives a call a stable id,
//! scopes it to its response, or recovers a name the application did not keep
//! stands here.

use std::collections::hash_map::DefaultHasher;
use std::collections::hash_map::RandomState;
use std::hash::BuildHasher;
use std::hash::Hasher;

use vstd::prelude::*;
use vstd::string::*;

use crate::json::Json;
use crate::json::JsonV;
use crate::text::concat3;
use crate::text::decimal;
use crate::text::decimal_text;
use crate::text::hex;
use crate::text::hex_text;
use crate::text::lemma_ends;
use crate::text::lemma_take;
use crate::text::same;
use crate::text::text_opt;
use crate::types::messages;
use crate::types::parts;
use crate::types::ContentPart;
use crate::types::Message;
use crate::types::MessageV;
use crate::types::PartV;
use crate::types::Request;
use crate::types::Role;

verus! {

broadcast use {vstd::std_specs::vec::group_vec_axioms, vstd::seq::group_seq_axioms};

/// The id synthesized for a function call the provider gave none: its name,
/// its ordinal in the response, and the response's scope.
pub open spec fn synthesized_id(name: Seq<char>, ordinal: nat, scope: Seq<char>) -> Seq<char> {
    name + "-"@ + decimal(ordinal) + "-"@ + scope
}

/// The id of a function call: the provider's own, unless it gave none or an
/// empty one.
pub open spec fn call_id(
    function_call: JsonV,
    name: Seq<char>,
    scope: Seq<char>,
    ordinal: nat,
) -> Seq<char> {
    match function_call.text_at("id"@) {
        Some(id) if id.len() > 0 => id,
        _ => synthesized_id(name, ordinal, scope),
    }
}

/// The identity of one function call.
///
/// A call Gemini gave an id keeps it. Gemini normally supplies none, so one is
/// synthesized as `{name}-{ordinal}-{response_id}`, which is unique within a
/// response by its ordinal and across responses by their id.
pub fn tool_call_id(function_call: &Json, name: &str, response_id: &str, ordinal: u64) -> (r:
    String)
    ensures
        r@ == call_id(function_call@, name@, response_id@, ordinal as nat),
{
    if let Some(id) = function_call.text_at("id") {
        if !id.is_empty() {
            return id.to_owned();
        }
    }
    let mut id: String = concat3(name, "-", decimal_text(ordinal).as_str());
    id.append("-");
    id.append(response_id);
    id
}

/// Makes hash keys with `std`'s `RandomState::new`. They may be any keys.
pub assume_specification[ RandomState::new ]() -> (r: RandomState)
;

/// Makes a hasher with the `build_hasher` of `std`'s `RandomState`. Any hash
/// may come out of it.
#[verifier::external_body]
fn keyed_hasher(keys: &RandomState) -> (r: DefaultHasher) {
    keys.build_hasher()
}

/// A random word: the empty hash under fresh keys. Any word may come out.
fn random_word() -> (r: u64) {
    keyed_hasher(&RandomState::new()).finish()
}

/// A random scope for the synthesized ids of one response without a
/// `responseId`.
pub fn response_nonce() -> (r: String)
    ensures
        exists|word: u64| r@ == #[trigger] hex(word as nat, 16),
        r@.len() == 16,
{
    let word: u64 = random_word();
    hex_text(word, 16)
}

/// The thought signature carried alongside a part, when it has one.
pub fn thought_signature(part: &Json) -> (r: Option<&str>)
    ensures
        text_opt(r) == part@.text_at("thoughtSignature"@),
{
    part.text_at("thoughtSignature")
}

/// The id and the name of each call in a message, in order.
pub open spec fn called_names(content: Seq<PartV>) -> Seq<(Seq<char>, Seq<char>)>
    decreases content.len(),
{
    if content.len() == 0 {
        Seq::empty()
    } else {
        match content.last() {
            PartV::ToolCall(call) => called_names(content.drop_last()).push((call.id, call.name)),
            _ => called_names(content.drop_last()),
        }
    }
}

/// The id and the name of each call an assistant made, in order.
pub open spec fn history_names(list: Seq<MessageV>) -> Seq<(Seq<char>, Seq<char>)>
    decreases list.len(),
{
    if list.len() == 0 {
        Seq::empty()
    } else if list.last().role == Role::Assistant {
        history_names(list.drop_last()) + called_names(list.last().content)
    } else {
        history_names(list.drop_last())
    }
}

/// What each pair of a list is.
pub open spec fn pairs(list: Seq<(String, String)>) -> Seq<(Seq<char>, Seq<char>)> {
    Seq::new(list.len(), |i: int| (list[i].0@, list[i].1@))
}

/// The function a call id belongs to, by the last call of that id.
pub open spec fn name_of(names: Seq<(Seq<char>, Seq<char>)>, id: Seq<char>) -> Option<Seq<char>>
    decreases names.len(),
{
    if names.len() == 0 {
        None
    } else if names.last().0 == id {
        Some(names.last().1)
    } else {
        name_of(names.drop_last(), id)
    }
}

/// Maps every tool-call id in the history to the function it called.
///
/// `functionResponse` identifies the call it answers by function name, and a
/// tool result carries the name only when the application kept it. The
/// assistant turn that made the call always carries it.
#[verifier::loop_isolation(false)]
pub fn tool_call_names(request: &Request) -> (r: Vec<(String, String)>)
    ensures
        pairs(r@) == history_names(request@.messages),
{
    let list: &Vec<Message> = &request.messages;
    let mut names: Vec<(String, String)> = Vec::new();
    let mut i: usize = 0;
    proof {
        lemma_ends(messages(list@));
        assert(pairs(names@) =~= Seq::<(Seq<char>, Seq<char>)>::empty());
    }
    while i < list.len()
        invariant
            i <= list.len(),
            pairs(names@) == history_names(messages(list@).take(i as int)),
        decreases list.len() - i,
    {
        proof {
            lemma_take(messages(list@), i as int);
        }
        if list[i].role == Role::Assistant {
            let content: &Vec<ContentPart> = &list[i].content;
            let ghost before = pairs(names@);
            let mut j: usize = 0;
            proof {
                lemma_ends(parts(content@));
                assert(before + called_names(parts(content@).take(0)) =~= before);
            }
            while j < content.len()
                invariant
                    j <= content.len(),
                    pairs(names@) == before + called_names(parts(content@).take(j as int)),
                decreases content.len() - j,
            {
                proof {
                    lemma_take(parts(content@), j as int);
                }
                if let ContentPart::ToolCall(call) = &content[j] {
                    let ghost held = names@;
                    names.push((call.id.as_str().to_owned(), call.name.as_str().to_owned()));
                    proof {
                        assert(pairs(names@) =~= pairs(held).push((call.id@, call.name@)));
                        assert(pairs(names@) =~= before + called_names(
                            parts(content@).take(j + 1),
                        ));
                    }
                }
                j = j + 1;
            }
            proof {
                lemma_ends(parts(content@));
            }
        }
        i = i + 1;
    }
    proof {
        lemma_ends(messages(list@));
    }
    names
}

/// Finds the function a call id belongs to.
pub fn find_name<'a>(names: &'a Vec<(String, String)>, id: &str) -> (r: Option<&'a str>)
    ensures
        text_opt(r) == name_of(pairs(names@), id@),
{
    let mut i: usize = names.len();
    proof {
        lemma_ends(pairs(names@));
    }
    while i > 0
        invariant
            i <= names.len(),
            name_of(pairs(names@), id@) == name_of(pairs(names@).take(i as int), id@),
        decreases i,
    {
        proof {
            lemma_take(pairs(names@), i - 1);
        }
        if same(names[i - 1].0.as_str(), id) {
            return Some(names[i - 1].1.as_str());
        }
        i = i - 1;
    }
    proof {
        lemma_ends(pairs(names@));
    }
    None
}

} // verus!
