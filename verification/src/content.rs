//! Content shared by the protocols: text, turns, finish reasons, media, and
//! tool results.

use vstd::prelude::*;
use vstd::string::*;

use crate::envelope::part_envelopes;
use crate::envelope::envelopes;
use crate::json::lemma_model;
use crate::json::models;
use crate::json::Json;
use crate::json::JsonObject;
use crate::json::JsonV;
use crate::response::FinishReason;
use crate::response::FinishV;
use crate::response::Response;
use crate::serial::print;
use crate::serial::printed;
use crate::text::concat3;
use crate::text::join;
use crate::text::join_texts;
use crate::text::lemma_ends;
use crate::text::lemma_take;
use crate::text::same;
use crate::text::text_opt;
use crate::text::texts;
use crate::text::trim;
use crate::text::trimmed;
use crate::types::lemma_result_part;
use crate::types::messages;
use crate::types::parts;
use crate::types::ContentPart;
use crate::types::MediaSource;
use crate::types::Message;
use crate::types::MessageV;
use crate::types::PartV;
use crate::types::ReasoningContent;
use crate::types::ReasoningV;
use crate::types::Request;
use crate::types::ResultV;
use crate::types::SourceV;
use crate::types::ToolResult;

verus! {

broadcast use {vstd::std_specs::vec::group_vec_axioms, vstd::seq::group_seq_axioms, lemma_model, lemma_result_part};

/// The provider family Gemini signatures belong to.
pub const GEMINI_SIGNATURES: &'static str = "gemini";

/// The text parts of a message, one after the other.
pub open spec fn plain(content: Seq<PartV>) -> Seq<char>
    decreases content.len(),
{
    if content.len() == 0 {
        Seq::empty()
    } else {
        match content.last() {
            PartV::Text { text } => plain(content.drop_last()) + text,
            _ => plain(content.drop_last()),
        }
    }
}

/// Joins the text parts of a message, with nothing between them.
pub fn plain_text(content: &Vec<ContentPart>) -> (r: String)
    ensures
        r@ == plain(parts(content@)),
{
    let mut text: String = String::new();
    let mut i: usize = 0;
    proof {
        lemma_ends(parts(content@));
    }
    while i < content.len()
        invariant
            i <= content.len(),
            text@ == plain(parts(content@).take(i as int)),
        decreases content.len() - i,
    {
        proof {
            lemma_take(parts(content@), i as int);
        }
        if let ContentPart::Text { text: part } = &content[i] {
            text.append(part.as_str());
        }
        i = i + 1;
    }
    proof {
        lemma_ends(parts(content@));
    }
    text
}

impl Response {
    /// The visible text of the response.
    pub fn text(&self) -> (r: String)
        ensures
            r@ == plain(self@.content),
    {
        plain_text(&self.content)
    }
}

/// The texts of the instruction messages, without those of white space alone.
pub open spec fn system_texts(list: Seq<MessageV>) -> Seq<Seq<char>>
    decreases list.len(),
{
    if list.len() == 0 {
        Seq::empty()
    } else {
        let rest = system_texts(list.drop_last());
        let text = plain(list.last().content);
        if list.last().is_instruction() && trim(text).len() > 0 {
            rest.push(text)
        } else {
            rest
        }
    }
}

/// Joins the texts of the system and developer messages by blank lines. A
/// message of white space alone says nothing and is left out.
pub fn system_text(list: &Vec<Message>) -> (r: String)
    ensures
        r@ == join(system_texts(messages(list@)), "\n\n"@),
{
    let mut kept: Vec<String> = Vec::new();
    let mut i: usize = 0;
    proof {
        lemma_ends(messages(list@));
    }
    while i < list.len()
        invariant
            i <= list.len(),
            texts(kept@) == system_texts(messages(list@).take(i as int)),
        decreases list.len() - i,
    {
        proof {
            lemma_take(messages(list@), i as int);
        }
        if list[i].is_instruction() {
            let text: String = plain_text(&list[i].content);
            if !trimmed(text.as_str()).is_empty() {
                let ghost before = kept@;
                kept.push(text);
                assert(texts(kept@) =~= texts(before).push(text@));
            }
        }
        i = i + 1;
    }
    proof {
        lemma_ends(messages(list@));
    }
    join_texts(&kept, "\n\n")
}

/// Whether every part is text.
pub open spec fn all_text(content: Seq<PartV>) -> bool {
    forall|i: int| 0 <= i < content.len() ==> #[trigger] content[i] is Text
}

/// Whether every part is JSON.
pub open spec fn all_json(content: Seq<PartV>) -> bool {
    forall|i: int| 0 <= i < content.len() ==> #[trigger] content[i] is Json
}

/// Tells whether every part is text.
pub fn text_only(content: &Vec<ContentPart>) -> (r: bool)
    ensures
        r == all_text(parts(content@)),
{
    let mut i: usize = 0;
    while i < content.len()
        invariant
            i <= content.len(),
            forall|k: int| 0 <= k < i ==> #[trigger] parts(content@)[k] is Text,
        decreases content.len() - i,
    {
        if !matches!(&content[i], ContentPart::Text { .. }) {
            assert(!(parts(content@)[i as int] is Text));
            return false;
        }
        i = i + 1;
    }
    true
}

/// Tells whether every part is JSON.
pub fn json_only(content: &Vec<ContentPart>) -> (r: bool)
    ensures
        r == all_json(parts(content@)),
{
    let mut i: usize = 0;
    while i < content.len()
        invariant
            i <= content.len(),
            forall|k: int| 0 <= k < i ==> #[trigger] parts(content@)[k] is Json,
        decreases content.len() - i,
    {
        if !matches!(&content[i], ContentPart::Json { .. }) {
            assert(!(parts(content@)[i as int] is Json));
            return false;
        }
        i = i + 1;
    }
    true
}

/// Tells whether a tool result keeps its content on a wire that takes one text
/// or one structured value: it is all text or all JSON.
pub fn text_or_json_only(content: &Vec<ContentPart>) -> (r: bool)
    ensures
        r == (all_text(parts(content@)) || all_json(parts(content@))),
{
    text_only(content) || json_only(content)
}

/// Whether an instruction message carries anything but text.
pub open spec fn flattens_system(list: Seq<MessageV>) -> bool {
    exists|i: int|
        0 <= i < list.len() && (#[trigger] list[i]).is_instruction() && !all_text(list[i].content)
}

/// Tells whether an instruction message carries anything but text.
#[verifier::loop_isolation(false)]
pub fn flattens_system_content(request: &Request) -> (r: bool)
    ensures
        r == flattens_system(request@.messages),
{
    let list: &Vec<Message> = &request.messages;
    let mut i: usize = 0;
    while i < list.len()
        invariant
            i <= list.len(),
            forall|k: int|
                0 <= k < i ==> !((#[trigger] messages(list@)[k]).is_instruction() && !all_text(
                    messages(list@)[k].content,
                )),
        decreases list.len() - i,
    {
        if list[i].is_instruction() && !text_only(&list[i].content) {
            assert(request@.messages[i as int] == list@[i as int]@);
            return true;
        }
        i = i + 1;
    }
    false
}

/// Whether a message holds a tool result that is neither all text nor all
/// JSON.
pub open spec fn mixes_result(content: Seq<PartV>) -> bool {
    exists|i: int|
        0 <= i < content.len() && ((#[trigger] content[i]) matches PartV::ToolResult(result)
            && !all_text(result.content) && !all_json(result.content))
}

/// Whether any message holds such a tool result.
pub open spec fn flattens_results(list: Seq<MessageV>) -> bool {
    exists|i: int| 0 <= i < list.len() && mixes_result((#[trigger] list[i]).content)
}

/// Tells whether a message holds a tool result that is neither all text nor
/// all JSON.
fn mixes(content: &Vec<ContentPart>) -> (r: bool)
    ensures
        r == mixes_result(parts(content@)),
{
    let mut i: usize = 0;
    while i < content.len()
        invariant
            i <= content.len(),
            forall|k: int|
                0 <= k < i ==> !((#[trigger] parts(content@)[k]) matches PartV::ToolResult(result)
                    && !all_text(result.content) && !all_json(result.content)),
        decreases content.len() - i,
    {
        if let ContentPart::ToolResult(result) = &content[i] {
            if !text_or_json_only(&result.content) {
                assert(parts(content@)[i as int] == PartV::ToolResult(result@));
                return true;
            }
        }
        i = i + 1;
    }
    false
}

/// Tells whether a tool result must be flattened to fit the wire.
#[verifier::loop_isolation(false)]
pub fn flattens_tool_result_content(request: &Request) -> (r: bool)
    ensures
        r == flattens_results(request@.messages),
{
    let list: &Vec<Message> = &request.messages;
    let mut i: usize = 0;
    while i < list.len()
        invariant
            i <= list.len(),
            forall|k: int| 0 <= k < i ==> !mixes_result((#[trigger] messages(list@)[k]).content),
        decreases list.len() - i,
    {
        if mixes(&list[i].content) {
            assert(request@.messages[i as int] == list@[i as int]@);
            return true;
        }
        i = i + 1;
    }
    false
}

/// Whether a reasoning part carries a signature another provider family
/// minted.
pub open spec fn foreign_signature(reasoning: ReasoningV, family: Seq<char>) -> bool {
    reasoning.signature is Some && reasoning.signature_origin is Some
        && reasoning.signature_origin->0 != family
}

impl ReasoningContent {
    /// Tells whether the part carries a signature another provider family
    /// minted, which cannot verify here.
    pub fn has_foreign_signature(&self, family: &str) -> (r: bool)
        ensures
            r == foreign_signature(self@, family@),
    {
        match (&self.signature, &self.signature_origin) {
            (Some(_), Some(origin)) => !same(origin.as_str(), family),
            _ => false,
        }
    }
}

/// Whether a message holds reasoning another provider family signed.
pub open spec fn holds_foreign(content: Seq<PartV>, family: Seq<char>) -> bool {
    exists|i: int|
        0 <= i < content.len() && ((#[trigger] content[i]) matches PartV::Reasoning(reasoning)
            && foreign_signature(reasoning, family))
}

/// Whether any message holds such reasoning.
pub open spec fn carries_foreign(list: Seq<MessageV>, family: Seq<char>) -> bool {
    exists|i: int| 0 <= i < list.len() && holds_foreign((#[trigger] list[i]).content, family)
}

/// Tells whether a message holds reasoning another provider family signed.
fn foreign(content: &Vec<ContentPart>, family: &str) -> (r: bool)
    ensures
        r == holds_foreign(parts(content@), family@),
{
    let mut i: usize = 0;
    while i < content.len()
        invariant
            i <= content.len(),
            forall|k: int|
                0 <= k < i ==> !((#[trigger] parts(content@)[k]) matches PartV::Reasoning(reasoning)
                    && foreign_signature(reasoning, family@)),
        decreases content.len() - i,
    {
        if let ContentPart::Reasoning(reasoning) = &content[i] {
            if reasoning.has_foreign_signature(family) {
                assert(parts(content@)[i as int] == PartV::Reasoning(reasoning@));
                return true;
            }
        }
        i = i + 1;
    }
    false
}

impl Request {
    /// Tells whether any message holds reasoning another provider family
    /// signed.
    #[verifier::loop_isolation(false)]
    pub fn carries_foreign_signature(&self, family: &str) -> (r: bool)
        ensures
            r == carries_foreign(self@.messages, family@),
    {
        let list: &Vec<Message> = &self.messages;
        let mut i: usize = 0;
        while i < list.len()
            invariant
                i <= list.len(),
                forall|k: int|
                    0 <= k < i ==> !holds_foreign((#[trigger] messages(list@)[k]).content, family@),
            decreases list.len() - i,
        {
            if foreign(&list[i].content, family) {
                assert(self@.messages[i as int] == list@[i as int]@);
                return true;
            }
            i = i + 1;
        }
        false
    }
}

/// The reason a provider's spelling names. No reason at all is a plain stop,
/// and a spelling without a meaning here is kept.
pub open spec fn finish_of(reason: Option<Seq<char>>) -> FinishV {
    match reason {
        None => FinishV::Stop,
        Some(reason) => if reason == "stop"@ || reason == "STOP"@ {
            FinishV::Stop
        } else if reason == "length"@ || reason == "MAX_TOKENS"@ {
            FinishV::Length
        } else if reason == "tool_calls"@ || reason == "function_call"@ {
            FinishV::ToolCall
        } else if reason == "content_filter"@ || reason == "SAFETY"@ {
            FinishV::ContentFilter
        } else {
            FinishV::Other(reason)
        },
    }
}

/// Normalizes a provider's finish reason.
pub fn finish_reason(reason: Option<&str>) -> (r: FinishReason)
    ensures
        r@ == finish_of(text_opt(reason)),
{
    match reason {
        None => FinishReason::Stop,
        Some(reason) => if same(reason, "stop") || same(reason, "STOP") {
            FinishReason::Stop
        } else if same(reason, "length") || same(reason, "MAX_TOKENS") {
            FinishReason::Length
        } else if same(reason, "tool_calls") || same(reason, "function_call") {
            FinishReason::ToolCall
        } else if same(reason, "content_filter") || same(reason, "SAFETY") {
            FinishReason::ContentFilter
        } else {
            FinishReason::Other(reason.to_owned())
        },
    }
}

/// A plain stop after tool calls is a stop for tool calls.
pub open spec fn promoted(reason: FinishV, called: bool) -> FinishV {
    if reason is Stop && called {
        FinishV::ToolCall
    } else {
        reason
    }
}

/// Turns a plain stop into a tool-call stop when the model called a tool.
/// Every other reason is the more specific fact and stays.
pub fn promote_tool_finish(reason: FinishReason, called: bool) -> (r: FinishReason)
    ensures
        r@ == promoted(reason@, called),
{
    match reason {
        FinishReason::Stop => if called {
            FinishReason::ToolCall
        } else {
            FinishReason::Stop
        },
        other => other,
    }
}

/// The URL of a media source: inline bytes become a data URL.
pub open spec fn source_url(source: SourceV) -> Seq<char> {
    match source {
        SourceV::Url { url, .. } => url,
        SourceV::Base64 { data, media_type } => "data:"@ + media_type + ";base64,"@ + data,
    }
}

/// Spells a media source as a URL.
pub fn data_url(source: &MediaSource) -> (r: String)
    ensures
        r@ == source_url(source@),
{
    match source {
        MediaSource::Url { url, .. } => url.as_str().to_owned(),
        MediaSource::Base64 { data, media_type } => {
            let mut url: String = concat3("data:", media_type.as_str(), ";base64,");
            url.append(data.as_str());
            url
        },
    }
}

/// The values of the JSON parts, in order.
pub open spec fn json_values(content: Seq<PartV>) -> Seq<JsonV>
    decreases content.len(),
{
    if content.len() == 0 {
        Seq::empty()
    } else {
        match content.last() {
            PartV::Json { value } => json_values(content.drop_last()).push(value),
            _ => json_values(content.drop_last()),
        }
    }
}

/// Collects the values of the JSON parts.
pub fn collect_values(content: &Vec<ContentPart>) -> (r: Vec<Json>)
    ensures
        models(r@) == json_values(parts(content@)),
{
    let mut values: Vec<Json> = Vec::new();
    let mut i: usize = 0;
    proof {
        lemma_ends(parts(content@));
    }
    while i < content.len()
        invariant
            i <= content.len(),
            models(values@) == json_values(parts(content@).take(i as int)),
        decreases content.len() - i,
    {
        proof {
            lemma_take(parts(content@), i as int);
        }
        if let ContentPart::Json { value } = &content[i] {
            let ghost before = values@;
            values.push(value.copy());
            assert(models(values@) =~= models(before).push(value@));
        }
        i = i + 1;
    }
    proof {
        lemma_ends(parts(content@));
    }
    values
}

/// The text of JSON parts alone: the bare value of a lone part, and the array of
/// the values of several. `unquote` sends a lone text value as that text rather
/// than as a JSON literal.
pub open spec fn values_text(content: Seq<PartV>, unquote: bool) -> Seq<char> {
    if content.len() == 1 {
        match content[0]->value {
            JsonV::Text(text) if unquote => text,
            value => printed(value),
        }
    } else {
        printed(JsonV::Array(json_values(content)))
    }
}

/// The text of a tool result on a wire that takes a text and nothing else.
///
/// A text-only result is its joined text, even when that is empty, and a result
/// of JSON parts alone is their bare values. Any other mix is printed part by
/// part, so no half of it is dropped. A wire that reads a result as plain text
/// says so by `unquote`: there, text wins over what stands beside it, and a
/// lone text value is sent without its quotes.
pub open spec fn result_text(result: ResultV, unquote: bool) -> Seq<char> {
    let content = result.content;
    if all_text(content) || (unquote && plain(content).len() > 0) {
        plain(content)
    } else if all_json(content) {
        values_text(content, unquote)
    } else {
        printed(JsonV::Array(envelopes(content)))
    }
}

/// Flattens a tool result to text.
pub fn tool_result_text(result: &ToolResult, unquote: bool) -> (r: String)
    ensures
        r@ == result_text(result@, unquote),
{
    let content: &Vec<ContentPart> = &result.content;
    let text: String = plain_text(content);
    if text_only(content) || (unquote && !text.as_str().is_empty()) {
        return text;
    }
    if json_only(content) {
        if content.len() == 1 {
            assert(parts(content@)[0] == content@[0]@);
            if let ContentPart::Json { value } = &content[0] {
                if unquote {
                    if let Json::Text(text) = value {
                        return text.as_str().to_owned();
                    }
                }
                return print(value);
            }
        }
        return print(&Json::Array(collect_values(content)));
    }
    print(&Json::Array(part_envelopes(content)))
}

/// The turns of a conversation on a wire that merges neighbours of one role.
#[derive(Debug)]
pub struct Turns {
    pub turns: Vec<(String, Vec<Json>)>,
}

#[verifier::ext_equal]
pub struct TurnV {
    pub role: Seq<char>,
    pub parts: Seq<JsonV>,
}

impl View for Turns {
    type V = Seq<TurnV>;

    open spec fn view(&self) -> Seq<TurnV> {
        Seq::new(
            self.turns@.len(),
            |i: int| TurnV { role: self.turns@[i].0@, parts: models(self.turns@[i].1@) },
        )
    }
}

/// One more turn: it joins the last one of its role, and one without parts is
/// no turn.
pub open spec fn push_turn(turns: Seq<TurnV>, role: Seq<char>, parts: Seq<JsonV>) -> Seq<TurnV> {
    if parts.len() == 0 {
        turns
    } else if turns.len() > 0 && turns.last().role == role {
        turns.drop_last().push(TurnV { role, parts: turns.last().parts + parts })
    } else {
        turns.push(TurnV { role, parts })
    }
}

/// The wire form of a turn, its parts under `key`.
pub open spec fn turn_json(turn: TurnV, key: Seq<char>) -> JsonV {
    JsonV::Object(
        map!["role"@ => JsonV::Text(turn.role)].insert(key, JsonV::Array(turn.parts)),
    )
}

/// The wire form of each turn.
pub open spec fn turn_values(turns: Seq<TurnV>, key: Seq<char>) -> Seq<JsonV> {
    Seq::new(turns.len(), |i: int| turn_json(turns[i], key))
}

impl Turns {
    /// No turns yet.
    pub fn new() -> (r: Self)
        ensures
            r@ == Seq::<TurnV>::empty(),
    {
        let r: Turns = Turns { turns: Vec::new() };
        assert(r@ =~= Seq::<TurnV>::empty());
        r
    }

    /// Adds one turn.
    pub fn push(&mut self, role: &str, parts: Vec<Json>)
        ensures
            final(self)@ == push_turn(old(self)@, role@, models(parts@)),
    {
        if parts.len() == 0 {
            return ;
        }
        let ghost before = self@;
        let ghost added = models(parts@);
        let len: usize = self.turns.len();
        if len > 0 && same(self.turns[len - 1].0.as_str(), role) {
            match self.turns.pop() {
                Some(last) => {
                    let (name, mut list): (String, Vec<Json>) = last;
                    let mut rest: Vec<Json> = parts;
                    let ghost held = models(list@);
                    list.append(&mut rest);
                    assert(models(list@) =~= held + added);
                    self.turns.push((name, list));
                },
                None => {},
            }
            assert(self@ =~= push_turn(before, role@, added));
        } else {
            self.turns.push((role.to_owned(), parts));
            assert(self@ =~= push_turn(before, role@, added));
        }
    }

    /// The wire form of the turns, the parts of each under `key`.
    pub fn into_values(self, key: &str) -> (r: Vec<Json>)
        ensures
            models(r@) == turn_values(self@, key@),
    {
        let ghost all = self@;
        let mut rest: Vec<(String, Vec<Json>)> = self.turns;
        let ghost held = rest@;
        let mut values: Vec<Json> = Vec::new();
        while rest.len() > 0
            invariant
                values.len() + rest.len() == held.len(),
                rest@ == held.skip(values.len() as int),
                all.len() == held.len(),
                forall|i: int|
                    0 <= i < held.len() ==> all[i] == (TurnV {
                        role: held[i].0@,
                        parts: models(held[i].1@),
                    }),
                forall|i: int| 0 <= i < values.len() ==> values@[i]@ == turn_json(all[i], key@),
            decreases rest.len(),
        {
            let ghost at = values.len() as int;
            let (role, list): (String, Vec<Json>) = rest.remove(0);
            assert(held[at] == (role, list));
            let mut turn: JsonObject = JsonObject::new();
            turn.insert("role", Json::Text(role));
            turn.insert(key, Json::Array(list));
            values.push(Json::Object(turn));
            assert(rest@ =~= held.skip(values.len() as int));
        }
        assert(models(values@) =~= turn_values(all, key@));
        values
    }
}

} // verus!
