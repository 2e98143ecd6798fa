//! Request encoding: input items, tools, and the body fields.

use vstd::prelude::*;
use vstd::string::*;

use crate::body::array1;
use crate::body::count;
use crate::body::count_value;
use crate::body::number_value;
use crate::body::numeral;
use crate::body::object1;
use crate::body::put;
use crate::body::single;
use crate::body::with_member;
use crate::content::data_url;
use crate::content::flattens_results;
use crate::content::flattens_system;
use crate::content::flattens_system_content;
use crate::content::flattens_tool_result_content;
use crate::content::plain;
use crate::content::plain_text;
use crate::content::result_text;
use crate::content::source_url;
use crate::content::tool_result_text;
use crate::gemini::encode::note;
use crate::gemini::encode::push_if;
use crate::json::lemma_model;
use crate::json::models;
use crate::json::owned_model_opt;
use crate::json::text_of;
use crate::json::Json;
use crate::json::JsonObject;
use crate::json::JsonV;
use crate::openai_chat::encode::effort_name;
use crate::openai_chat::encode::effort_text;
use crate::openai_chat::encode::text_value;
use crate::serial::print;
use crate::serial::printed;
use crate::text::join;
use crate::text::join_texts;
use crate::text::lemma_ends;
use crate::text::lemma_take;
use crate::text::listed;
use crate::text::same;
use crate::text::string_opt;
use crate::text::strs;
use crate::text::text_opt;
use crate::text::texts;
use crate::types::lemma_result_part;
use crate::types::messages;
use crate::types::opaque_namespace;
use crate::types::parts;
use crate::types::tags;
use crate::types::tools;
use crate::types::CallV;
use crate::types::ChoiceV;
use crate::types::ContentPart;
use crate::types::DocumentContent;
use crate::types::FormatV;
use crate::types::ImageContent;
use crate::types::MediaSource;
use crate::types::Message;
use crate::types::MessageV;
use crate::types::PartV;
use crate::types::Request;
use crate::types::RequestV;
use crate::types::ResolvedCall;
use crate::types::ResponseFormat;
use crate::types::ResultV;
use crate::types::Role;
use crate::types::RouteV;
use crate::types::SourceV;
use crate::types::Speed;
use crate::types::ToolCall;
use crate::types::ToolCallKind;
use crate::types::ToolChoice;
use crate::types::ToolDefinition;
use crate::types::ToolDefinitionKind;
use crate::types::ToolKindV;
use crate::types::ToolResult;
use crate::types::ToolV;

verus! {

broadcast use {vstd::std_specs::vec::group_vec_axioms, vstd::seq::group_seq_axioms, lemma_model, lemma_result_part};

/// The provider namespace this codec owns.
///
/// It claims opaque kinds and metadata entries under this namespace and
/// ignores every other one, so a conversation carrying another provider's
/// replay data can still be sent here.
pub const NAMESPACE: &'static str = "openai";

/// The opaque kind holding one whole `reasoning` output item.
pub const REASONING_KIND: &'static str = "openai.reasoning";

/// The opaque kind holding one whole assistant `message` output item.
///
/// A `reasoning` item names the item that must follow it, so only the original
/// item, with its id and status, replays.
pub const MESSAGE_KIND: &'static str = "openai.message";

/// The part this protocol cannot carry, named for a refusal.
pub open spec fn unencodable(part: PartV) -> Option<Seq<char>> {
    match part {
        PartV::Audio { .. } => Some("audio content"@),
        PartV::Document { source, name } => if name is None && source is Base64 {
            Some("an inline document without a file name"@)
        } else {
            None
        },
        _ => None,
    }
}

/// The part this protocol cannot carry, or `None` for one it can.
///
/// This protocol carries no audio input, and an inline document must carry a
/// name: inventing one would put a name the caller never wrote in front of the
/// model. URL documents need no name.
pub fn unencodable_part(part: &ContentPart) -> (r: Option<&'static str>)
    ensures
        text_opt(r) == unencodable(part@),
{
    match part {
        ContentPart::Audio(_) => Some("audio content"),
        ContentPart::Document(document) => if document.name.is_none() && matches!(
            document.source,
            MediaSource::Base64 { .. }
        ) {
            Some("an inline document without a file name")
        } else {
            None
        },
        _ => None,
    }
}

/// The first part of a message that this protocol cannot carry.
pub open spec fn unencodable_in(content: Seq<PartV>) -> Option<Seq<char>>
    decreases content.len(),
{
    if content.len() == 0 {
        None
    } else {
        match unencodable_in(content.drop_last()) {
            Some(what) => Some(what),
            None => unencodable(content.last()),
        }
    }
}

/// The first part of a conversation that this protocol cannot carry.
pub open spec fn first_unencodable(list: Seq<MessageV>) -> Option<Seq<char>>
    decreases list.len(),
{
    if list.len() == 0 {
        None
    } else {
        match first_unencodable(list.drop_last()) {
            Some(what) => Some(what),
            None => unencodable_in(list.last().content),
        }
    }
}

/// Finds the first part of a message that this protocol cannot carry.
fn find_unencodable_in(content: &Vec<ContentPart>) -> (r: Option<&'static str>)
    ensures
        text_opt(r) == unencodable_in(parts(content@)),
{
    let mut found: Option<&'static str> = None;
    let mut i: usize = 0;
    proof {
        lemma_ends(parts(content@));
    }
    while i < content.len()
        invariant
            i <= content.len(),
            text_opt(found) == unencodable_in(parts(content@).take(i as int)),
        decreases content.len() - i,
    {
        proof {
            lemma_take(parts(content@), i as int);
        }
        if found.is_none() {
            found = unencodable_part(&content[i]);
        }
        i = i + 1;
    }
    proof {
        lemma_ends(parts(content@));
    }
    found
}

/// Finds the first part of a conversation that this protocol cannot carry.
pub fn find_unencodable(list: &Vec<Message>) -> (r: Option<&'static str>)
    ensures
        text_opt(r) == first_unencodable(messages(list@)),
{
    let mut found: Option<&'static str> = None;
    let mut i: usize = 0;
    proof {
        lemma_ends(messages(list@));
    }
    while i < list.len()
        invariant
            i <= list.len(),
            text_opt(found) == first_unencodable(messages(list@).take(i as int)),
        decreases list.len() - i,
    {
        proof {
            lemma_take(messages(list@), i as int);
        }
        if found.is_none() {
            found = find_unencodable_in(&list[i].content);
        }
        i = i + 1;
    }
    proof {
        lemma_ends(messages(list@));
    }
    found
}

/// Whether a message holds readable reasoning.
pub open spec fn has_reasoning(content: Seq<PartV>) -> bool {
    exists|i: int| 0 <= i < content.len() && #[trigger] content[i] is Reasoning
}

/// Whether a message holds a reasoning item to replay.
pub open spec fn has_reasoning_item(content: Seq<PartV>) -> bool {
    exists|i: int|
        0 <= i < content.len() && ((#[trigger] content[i]) matches PartV::Opaque { kind, .. }
            && kind == REASONING_KIND@)
}

/// Whether a message holds reasoning that no item replays.
pub open spec fn loses_reasoning(list: Seq<MessageV>) -> bool {
    exists|i: int|
        0 <= i < list.len() && has_reasoning((#[trigger] list[i]).content) && !has_reasoning_item(
            list[i].content,
        )
}

/// Tells whether a message holds reasoning that no item replays.
fn orphans_reasoning(content: &Vec<ContentPart>) -> (r: bool)
    ensures
        r == (has_reasoning(parts(content@)) && !has_reasoning_item(parts(content@))),
{
    let mut reasoning: bool = false;
    let mut item: bool = false;
    let mut i: usize = 0;
    while i < content.len()
        invariant
            i <= content.len(),
            reasoning == (exists|k: int| 0 <= k < i && #[trigger] parts(content@)[k] is Reasoning),
            item == (exists|k: int|
                0 <= k < i && ((#[trigger] parts(content@)[k]) matches PartV::Opaque { kind, .. }
                    && kind == REASONING_KIND@)),
        decreases content.len() - i,
    {
        assert(parts(content@)[i as int] == content@[i as int]@);
        match &content[i] {
            ContentPart::Reasoning(_) => {
                reasoning = true;
            },
            ContentPart::Opaque { kind, .. } => {
                if same(kind.as_str(), REASONING_KIND) {
                    item = true;
                }
            },
            _ => {},
        }
        i = i + 1;
    }
    reasoning && !item
}

/// Whether a message carries reasoning text with no opaque item to replay it.
///
/// Reasoning text has no input item in this protocol; only an
/// `openai.reasoning` opaque part replays. This codec's own decoder emits the
/// readable part beside that item, so its round trip loses nothing.
#[verifier::loop_isolation(false)]
pub fn replays_reasoning_text_without_an_item(request: &Request) -> (r: bool)
    ensures
        r == loses_reasoning(request@.messages),
{
    let list: &Vec<Message> = &request.messages;
    let mut i: usize = 0;
    while i < list.len()
        invariant
            i <= list.len(),
            forall|k: int|
                0 <= k < i ==> !(has_reasoning((#[trigger] messages(list@)[k]).content)
                    && !has_reasoning_item(messages(list@)[k].content)),
        decreases list.len() - i,
    {
        if orphans_reasoning(&list[i].content) {
            assert(request@.messages[i as int] == list@[i as int]@);
            return true;
        }
        i = i + 1;
    }
    false
}

/// Whether a message holds an image or a document.
pub open spec fn has_media(content: Seq<PartV>) -> bool {
    exists|i: int|
        0 <= i < content.len() && (#[trigger] content[i] is Image || content[i] is Document)
}

/// Whether an instruction message holds an image or a document.
pub open spec fn instructs_with_media(list: Seq<MessageV>) -> bool {
    exists|i: int|
        0 <= i < list.len() && (#[trigger] list[i]).is_instruction() && has_media(list[i].content)
}

/// Whether an instruction message carries content the deployment drops.
pub open spec fn flattens_instructions(list: Seq<MessageV>, codex: bool) -> bool {
    if codex {
        flattens_system(list)
    } else {
        instructs_with_media(list)
    }
}

/// Tells whether a message holds an image or a document.
fn holds_media(content: &Vec<ContentPart>) -> (r: bool)
    ensures
        r == has_media(parts(content@)),
{
    let mut i: usize = 0;
    while i < content.len()
        invariant
            i <= content.len(),
            forall|k: int|
                0 <= k < i ==> !(#[trigger] parts(content@)[k] is Image || parts(content@)[k]
                    is Document),
        decreases content.len() - i,
    {
        assert(parts(content@)[i as int] == content@[i as int]@);
        if matches!(&content[i], ContentPart::Image(_) | ContentPart::Document(_)) {
            return true;
        }
        i = i + 1;
    }
    false
}

/// Whether a system or developer message carries content the deployment drops.
///
/// Codex hoists system messages into `instructions`, which is a string, so
/// anything but text in one is dropped. Standard mode keeps them as input
/// items that take text alone, so media in one is dropped there.
#[verifier::loop_isolation(false)]
pub fn flattens_instruction_content(request: &Request, codex: bool) -> (r: bool)
    ensures
        r == flattens_instructions(request@.messages, codex),
{
    if codex {
        return flattens_system_content(request);
    }
    let list: &Vec<Message> = &request.messages;
    let mut i: usize = 0;
    while i < list.len()
        invariant
            i <= list.len(),
            forall|k: int|
                0 <= k < i ==> !((#[trigger] messages(list@)[k]).is_instruction() && has_media(
                    messages(list@)[k].content,
                )),
        decreases list.len() - i,
    {
        if list[i].is_instruction() && holds_media(&list[i].content) {
            assert(request@.messages[i as int] == list@[i as int]@);
            return true;
        }
        i = i + 1;
    }
    false
}

/// The sampling controls of a request that the Codex deployment rejects.
pub open spec fn codex_losses(request: RequestV) -> Seq<Seq<char>> {
    let list = Seq::<Seq<char>>::empty();
    let list = push_if(list, request.temperature is Some, "temperature in Codex mode"@);
    let list = push_if(list, request.top_p is Some, "top_p in Codex mode"@);
    push_if(list, request.max_output_tokens is Some, "max_output_tokens in Codex mode"@)
}

/// The sampling controls the Codex deployment rejects and this codec drops.
pub fn codex_sampling_controls(request: &Request) -> (r: Vec<&'static str>)
    ensures
        strs(r@) == codex_losses(request@),
{
    let mut list: Vec<&'static str> = Vec::new();
    assert(strs(list@) =~= Seq::<Seq<char>>::empty());
    note(&mut list, request.temperature.is_some(), "temperature in Codex mode");
    note(&mut list, request.top_p.is_some(), "top_p in Codex mode");
    note(&mut list, request.max_output_tokens.is_some(), "max_output_tokens in Codex mode");
    list
}

/// The controls of a request that the body does not carry.
pub open spec fn lost_controls(request: RequestV, codex: bool) -> Seq<Seq<char>> {
    let list = Seq::<Seq<char>>::empty();
    let list = push_if(list, loses_reasoning(request.messages), "replaying reasoning text"@);
    let list = push_if(list, flattens_results(request.messages), "non-text tool result content"@);
    let list = push_if(
        list,
        flattens_instructions(request.messages, codex),
        "non-text system content"@,
    );
    let list = if codex { list + codex_losses(request) } else { list };
    push_if(list, request.stop_sequences.len() > 0, "stop sequences"@)
}

/// The portable controls this request carries that the body did not encode.
///
/// `codex` selects the Codex deployment's rules. `/v1/responses` takes no stop
/// parameter at all, so the sequences are dropped with a warning.
pub fn dropped_controls(request: &Request, codex: bool) -> (r: Vec<&'static str>)
    ensures
        strs(r@) == lost_controls(request@, codex),
{
    let mut dropped: Vec<&'static str> = Vec::new();
    assert(strs(dropped@) =~= Seq::<Seq<char>>::empty());
    note(
        &mut dropped,
        replays_reasoning_text_without_an_item(request),
        "replaying reasoning text",
    );
    note(&mut dropped, flattens_tool_result_content(request), "non-text tool result content");
    note(&mut dropped, flattens_instruction_content(request, codex), "non-text system content");
    if codex {
        let ghost before = strs(dropped@);
        let mut more: Vec<&'static str> = codex_sampling_controls(request);
        let ghost added = strs(more@);
        dropped.append(&mut more);
        assert(strs(dropped@) =~= before + added);
    }
    note(&mut dropped, request.stop_sequences.len() > 0, "stop sequences");
    dropped
}

/// The texts of the instruction messages that have any.
pub open spec fn instruction_texts(list: Seq<MessageV>) -> Seq<Seq<char>>
    decreases list.len(),
{
    if list.len() == 0 {
        Seq::empty()
    } else {
        let rest = instruction_texts(list.drop_last());
        let text = plain(list.last().content);
        if list.last().is_instruction() && text.len() > 0 {
            rest.push(text)
        } else {
            rest
        }
    }
}

/// The joined text of every system and developer message.
///
/// A message whose text is only white space is kept here.
pub fn instructions(request: &Request) -> (r: String)
    ensures
        r@ == join(instruction_texts(request@.messages), "\n\n"@),
{
    let list: &Vec<Message> = &request.messages;
    let mut kept: Vec<String> = Vec::new();
    let mut i: usize = 0;
    proof {
        lemma_ends(messages(list@));
        assert(texts(kept@) =~= Seq::<Seq<char>>::empty());
    }
    while i < list.len()
        invariant
            i <= list.len(),
            texts(kept@) == instruction_texts(messages(list@).take(i as int)),
        decreases list.len() - i,
    {
        proof {
            lemma_take(messages(list@), i as int);
        }
        if list[i].is_instruction() {
            let text: String = plain_text(&list[i].content);
            if !text.as_str().is_empty() {
                let ghost before = kept@;
                kept.push(text);
                assert(texts(kept@) =~= texts(before).push(text@));
            }
        }
        i = i + 1;
    }
    proof {
        lemma_ends(messages(list@));
    }
    join_texts(&kept, "\n\n")
}

/// Whether an opaque part belongs to this protocol's namespace.
pub open spec fn claimed(part: PartV) -> bool {
    opaque_namespace(part) == Some(NAMESPACE@)
}

/// Tells whether an opaque part belongs to this protocol's namespace.
pub fn claims_opaque(part: &ContentPart) -> (r: bool)
    ensures
        r == claimed(part@),
{
    match part.opaque_namespace() {
        Some(namespace) => same(namespace, NAMESPACE),
        None => false,
    }
}

/// The names of the custom tools of a list, in order.
pub open spec fn custom_names(list: Seq<ToolV>) -> Seq<Seq<char>>
    decreases list.len(),
{
    if list.len() == 0 {
        Seq::empty()
    } else if list.last().kind is Custom {
        custom_names(list.drop_last()).push(list.last().name)
    } else {
        custom_names(list.drop_last())
    }
}

/// The ids of the custom calls of a message, in order.
pub open spec fn custom_calls_in(content: Seq<PartV>) -> Seq<Seq<char>>
    decreases content.len(),
{
    if content.len() == 0 {
        Seq::empty()
    } else {
        match content.last() {
            PartV::ToolCall(call) if call.input.kind == ToolCallKind::Custom => custom_calls_in(
                content.drop_last(),
            ).push(call.id),
            _ => custom_calls_in(content.drop_last()),
        }
    }
}

/// The ids of the custom calls of a conversation, in order.
pub open spec fn custom_calls(list: Seq<MessageV>) -> Seq<Seq<char>>
    decreases list.len(),
{
    if list.len() == 0 {
        Seq::empty()
    } else {
        custom_calls(list.drop_last()) + custom_calls_in(list.last().content)
    }
}

/// The tool kinds one request declared, used to route tool results.
///
/// A `custom_tool_call_output` is a different wire item from a
/// `function_call_output`, and a result carries no kind of its own. The kind is
/// recovered from the call it answers, from the tool it names, or from the
/// message label the caller set.
pub struct CustomTools {
    /// Names declared as custom tools by this request.
    pub names: Vec<String>,
    /// Call ids of custom tool calls in this request.
    pub calls: Vec<String>,
}

#[verifier::ext_equal]
pub struct CustomV {
    pub names: Seq<Seq<char>>,
    pub calls: Seq<Seq<char>>,
}

impl View for CustomTools {
    type V = CustomV;

    open spec fn view(&self) -> CustomV {
        CustomV { names: texts(self.names@), calls: texts(self.calls@) }
    }
}

/// The custom tools of a request.
pub open spec fn request_custom(request: RequestV) -> CustomV {
    CustomV { names: custom_names(request.tools), calls: custom_calls(request.messages) }
}

/// Whether a list of names holds an optional name.
pub open spec fn names_some(list: Seq<Seq<char>>, name: Option<Seq<char>>) -> bool {
    name is Some && list.contains(name->0)
}

/// Whether a tool result answers a custom tool call.
pub open spec fn answers(custom: CustomV, result: ResultV, message: MessageV) -> bool {
    custom.calls.contains(result.tool_call_id) || names_some(
        custom.names,
        if result.name is Some { result.name } else { message.name },
    )
}

impl CustomTools {
    /// Collects the custom tools and calls of a request.
    #[verifier::loop_isolation(false)]
    pub fn new(request: &Request) -> (r: Self)
        ensures
            r@ == request_custom(request@),
    {
        let definitions: &Vec<ToolDefinition> = &request.tools;
        let mut names: Vec<String> = Vec::new();
        let mut i: usize = 0;
        proof {
            lemma_ends(tools(definitions@));
            assert(texts(names@) =~= Seq::<Seq<char>>::empty());
        }
        while i < definitions.len()
            invariant
                i <= definitions.len(),
                texts(names@) == custom_names(tools(definitions@).take(i as int)),
            decreases definitions.len() - i,
        {
            proof {
                lemma_take(tools(definitions@), i as int);
            }
            if definitions[i].is_custom() {
                let ghost before = names@;
                let name: String = definitions[i].name.as_str().to_owned();
                names.push(name);
                assert(texts(names@) =~= texts(before).push(name@));
            }
            i = i + 1;
        }
        proof {
            lemma_ends(tools(definitions@));
        }
        let list: &Vec<Message> = &request.messages;
        let mut calls: Vec<String> = Vec::new();
        let mut m: usize = 0;
        proof {
            lemma_ends(messages(list@));
            assert(texts(calls@) =~= Seq::<Seq<char>>::empty());
        }
        while m < list.len()
            invariant
                m <= list.len(),
                texts(calls@) == custom_calls(messages(list@).take(m as int)),
            decreases list.len() - m,
        {
            proof {
                lemma_take(messages(list@), m as int);
            }
            let content: &Vec<ContentPart> = &list[m].content;
            let ghost earlier = texts(calls@);
            let mut j: usize = 0;
            proof {
                lemma_ends(parts(content@));
                assert(earlier + custom_calls_in(parts(content@).take(0)) =~= earlier);
            }
            while j < content.len()
                invariant
                    j <= content.len(),
                    texts(calls@) == earlier + custom_calls_in(parts(content@).take(j as int)),
                decreases content.len() - j,
            {
                proof {
                    lemma_take(parts(content@), j as int);
                }
                if let ContentPart::ToolCall(call) = &content[j] {
                    if call.input.kind() == ToolCallKind::Custom {
                        let ghost before = calls@;
                        let id: String = call.id.as_str().to_owned();
                        calls.push(id);
                        assert(texts(calls@) =~= texts(before).push(id@));
                        assert(texts(calls@) =~= earlier + custom_calls_in(
                            parts(content@).take(j + 1),
                        ));
                    }
                }
                j = j + 1;
            }
            proof {
                lemma_ends(parts(content@));
            }
            m = m + 1;
        }
        proof {
            lemma_ends(messages(list@));
        }
        CustomTools { names, calls }
    }

    /// Whether a tool result answers a custom tool call.
    pub fn answers_custom(&self, result: &ToolResult, message: &Message) -> (r: bool)
        ensures
            r == answers(self@, result@, message@),
    {
        if listed(&self.calls, result.tool_call_id.as_str()) {
            return true;
        }
        match &result.name {
            Some(name) => listed(&self.names, name.as_str()),
            None => match &message.name {
                Some(name) => listed(&self.names, name.as_str()),
                None => false,
            },
        }
    }
}

/// The wire role for one message.
pub open spec fn wire_role(role: Role) -> Seq<char> {
    match role {
        Role::System => "system"@,
        Role::Developer => "developer"@,
        Role::Assistant => "assistant"@,
        Role::User | Role::Tool => "user"@,
    }
}

/// The wire role for one message.
pub fn role(speaker: Role) -> (r: &'static str)
    ensures
        r@ == wire_role(speaker),
{
    match speaker {
        Role::System => "system",
        Role::Developer => "developer",
        Role::Assistant => "assistant",
        Role::User | Role::Tool => "user",
    }
}

/// A tool call as its input item, with the item id its metadata kept.
pub open spec fn call_item(call: CallV) -> JsonV {
    let item = match call.input.kind {
        ToolCallKind::Function => map!["type"@ => JsonV::Text("function_call"@),
            "call_id"@ => JsonV::Text(call.id), "name"@ => JsonV::Text(call.name),
            "arguments"@ => JsonV::Text(call.input.raw)],
        ToolCallKind::Custom => map!["type"@ => JsonV::Text("custom_tool_call"@),
            "call_id"@ => JsonV::Text(call.id), "name"@ => JsonV::Text(call.name),
            "input"@ => JsonV::Text(call.input.raw)],
    };
    JsonV::Object(
        with_member(
            item,
            "id"@,
            text_value(
                text_of(JsonV::Object(call.provider_metadata).get2(NAMESPACE@, "item_id"@)),
            ),
        ),
    )
}

/// Encodes one tool call as its input item.
///
/// The item id is replayed from this codec's own metadata namespace when the
/// decoder kept one, because a replayed item without it cannot anchor the
/// reasoning chain.
pub fn tool_call_item(call: &ToolCall) -> (r: Json)
    ensures
        r@ == call_item(call@),
{
    let mut item: JsonObject = JsonObject::new();
    match call.input.kind() {
        ToolCallKind::Function => {
            item.insert("type", Json::text("function_call"));
            item.insert("call_id", Json::text(call.id.as_str()));
            item.insert("name", Json::text(call.name.as_str()));
            item.insert("arguments", Json::text(call.input.raw()));
        },
        ToolCallKind::Custom => {
            item.insert("type", Json::text("custom_tool_call"));
            item.insert("call_id", Json::text(call.id.as_str()));
            item.insert("name", Json::text(call.name.as_str()));
            item.insert("input", Json::text(call.input.raw()));
        },
    }
    if let Some(metadata) = call.provider_metadata.get(NAMESPACE) {
        if let Some(item_id) = metadata.text_at("item_id") {
            item.insert("id", Json::text(item_id));
        }
    }
    Json::Object(item)
}

/// A tool result as its input item. Only a function output has an error
/// channel.
pub open spec fn output_item(
    call_id: Seq<char>,
    output: Seq<char>,
    is_error: bool,
    custom: bool,
) -> JsonV {
    if custom {
        JsonV::Object(
            map!["type"@ => JsonV::Text("custom_tool_call_output"@),
                "call_id"@ => JsonV::Text(call_id), "output"@ => JsonV::Text(output)],
        )
    } else {
        JsonV::Object(
            with_member(
                map!["type"@ => JsonV::Text("function_call_output"@),
                    "call_id"@ => JsonV::Text(call_id), "output"@ => JsonV::Text(output)],
                "status"@,
                if is_error {
                    Some(JsonV::Text("incomplete"@))
                } else {
                    None
                },
            ),
        )
    }
}

/// Encodes one tool result as its input item.
pub fn tool_output_item(call_id: &str, output: &str, is_error: bool, custom: bool) -> (r: Json)
    ensures
        r@ == output_item(call_id@, output@, is_error, custom),
{
    let mut item: JsonObject = JsonObject::new();
    if custom {
        item.insert("type", Json::text("custom_tool_call_output"));
    } else {
        item.insert("type", Json::text("function_call_output"));
    }
    item.insert("call_id", Json::text(call_id));
    item.insert("output", Json::text(output));
    if is_error && !custom {
        item.insert("status", Json::text("incomplete"));
    }
    Json::Object(item)
}

/// A text inside a message item.
pub open spec fn text_item(kind: Seq<char>, text: Seq<char>) -> JsonV {
    JsonV::Object(map!["type"@ => JsonV::Text(kind), "text"@ => JsonV::Text(text)])
}

/// An image inside a message item.
pub open spec fn image_item(source: SourceV, detail: Option<Seq<char>>) -> JsonV {
    JsonV::Object(
        with_member(
            map!["type"@ => JsonV::Text("input_image"@),
                "image_url"@ => JsonV::Text(source_url(source))],
            "detail"@,
            text_value(detail),
        ),
    )
}

/// A document inside a message item, inline or by its URL.
pub open spec fn file_item(source: SourceV, name: Option<Seq<char>>) -> JsonV {
    let item = map!["type"@ => JsonV::Text("input_file"@)];
    let item = match source {
        SourceV::Url { url, .. } => item.insert("file_url"@, JsonV::Text(url)),
        SourceV::Base64 { .. } => item.insert("file_data"@, JsonV::Text(source_url(source))),
    };
    JsonV::Object(with_member(item, "filename"@, text_value(name)))
}

/// The type of a text inside a message item.
pub open spec fn text_kind(role: Role) -> Seq<char> {
    if role == Role::Assistant {
        "output_text"@
    } else {
        "input_text"@
    }
}

/// A content part inside a message item. `skip_text` leaves out the texts a
/// replayed item already carries, and an instruction item takes no media.
pub open spec fn content_item(part: PartV, role: Role, skip_text: bool) -> Option<JsonV> {
    let system = role == Role::System || role == Role::Developer;
    match part {
        PartV::Text { text } => if skip_text {
            None
        } else {
            Some(text_item(text_kind(role), text))
        },
        PartV::Json { value } => Some(text_item(text_kind(role), printed(value))),
        PartV::Image { source, detail } => if system {
            None
        } else {
            Some(image_item(source, detail))
        },
        PartV::Document { source, name } => if system {
            None
        } else {
            Some(file_item(source, name))
        },
        _ => None,
    }
}

/// Makes a text inside a message item.
fn make_text(kind: &str, text: &str) -> (r: Json)
    ensures
        r@ == text_item(kind@, text@),
{
    let mut item: JsonObject = JsonObject::new();
    item.insert("type", Json::text(kind));
    item.insert("text", Json::text(text));
    Json::Object(item)
}

/// Encodes an image inside a message item.
fn encode_image(image: &ImageContent) -> (r: Json)
    ensures
        r@ == image_item(image.source@, string_opt(image.detail)),
{
    let mut item: JsonObject = JsonObject::new();
    item.insert("type", Json::text("input_image"));
    item.insert("image_url", Json::Text(data_url(&image.source)));
    if let Some(detail) = &image.detail {
        item.insert("detail", Json::text(detail.as_str()));
    }
    Json::Object(item)
}

/// Encodes a document inside a message item, as a base64 data URL or as a
/// fetchable URL.
fn encode_document(document: &DocumentContent) -> (r: Json)
    ensures
        r@ == file_item(document.source@, string_opt(document.name)),
{
    let mut item: JsonObject = JsonObject::new();
    item.insert("type", Json::text("input_file"));
    match &document.source {
        MediaSource::Url { url, .. } => {
            item.insert("file_url", Json::text(url.as_str()));
        },
        MediaSource::Base64 { .. } => {
            item.insert("file_data", Json::Text(data_url(&document.source)));
        },
    }
    if let Some(name) = &document.name {
        item.insert("filename", Json::text(name.as_str()));
    }
    Json::Object(item)
}

/// Encodes one content part inside a message item.
fn encode_content_part(part: &ContentPart, role: Role, skip_text: bool) -> (r: Option<Json>)
    ensures
        owned_model_opt(r) == content_item(part@, role, skip_text),
{
    let kind: &'static str = if role == Role::Assistant {
        "output_text"
    } else {
        "input_text"
    };
    let system: bool = role == Role::System || role == Role::Developer;
    match part {
        ContentPart::Text { text } => if skip_text {
            None
        } else {
            Some(make_text(kind, text.as_str()))
        },
        ContentPart::Json { value } => Some(make_text(kind, print(value).as_str())),
        ContentPart::Image(image) => if system {
            None
        } else {
            Some(encode_image(image))
        },
        ContentPart::Document(document) => if system {
            None
        } else {
            Some(encode_document(document))
        },
        _ => None,
    }
}

/// The content parts inside a message item, in order.
pub open spec fn content_items(content: Seq<PartV>, role: Role, skip_text: bool) -> Seq<JsonV>
    decreases content.len(),
{
    if content.len() == 0 {
        Seq::empty()
    } else {
        match content_item(content.last(), role, skip_text) {
            Some(item) => content_items(content.drop_last(), role, skip_text).push(item),
            None => content_items(content.drop_last(), role, skip_text),
        }
    }
}

/// Encodes the content parts that belong inside a message item.
///
/// `skip_text` drops the text parts a preserved `message` item already
/// carries, so replay never doubles the assistant's own words.
pub fn message_content(message: &Message, skip_text: bool) -> (r: Vec<Json>)
    ensures
        models(r@) == content_items(message@.content, message@.role, skip_text),
{
    let content: &Vec<ContentPart> = &message.content;
    let mut list: Vec<Json> = Vec::new();
    let mut i: usize = 0;
    proof {
        lemma_ends(parts(content@));
        assert(models(list@) =~= Seq::<JsonV>::empty());
    }
    while i < content.len()
        invariant
            i <= content.len(),
            models(list@) == content_items(
                parts(content@).take(i as int),
                message.role,
                skip_text,
            ),
        decreases content.len() - i,
    {
        proof {
            lemma_take(parts(content@), i as int);
        }
        if let Some(item) = encode_content_part(&content[i], message.role, skip_text) {
            let ghost before = list@;
            list.push(item);
            assert(models(list@) =~= models(before).push(item@));
        }
        i = i + 1;
    }
    proof {
        lemma_ends(parts(content@));
    }
    list
}

/// The verbatim replay items of a message, in order.
pub open spec fn replay_items(content: Seq<PartV>) -> Seq<JsonV>
    decreases content.len(),
{
    if content.len() == 0 {
        Seq::empty()
    } else {
        match content.last() {
            PartV::Opaque { data, .. } if claimed(content.last()) => replay_items(
                content.drop_last(),
            ).push(data),
            _ => replay_items(content.drop_last()),
        }
    }
}

/// The verbatim replay items this codec owns, in content order.
pub fn opaque_items(message: &Message) -> (r: Vec<Json>)
    ensures
        models(r@) == replay_items(message@.content),
{
    let content: &Vec<ContentPart> = &message.content;
    let mut list: Vec<Json> = Vec::new();
    let mut i: usize = 0;
    proof {
        lemma_ends(parts(content@));
        assert(models(list@) =~= Seq::<JsonV>::empty());
    }
    while i < content.len()
        invariant
            i <= content.len(),
            models(list@) == replay_items(parts(content@).take(i as int)),
        decreases content.len() - i,
    {
        proof {
            lemma_take(parts(content@), i as int);
        }
        if let ContentPart::Opaque { data, .. } = &content[i] {
            if claims_opaque(&content[i]) {
                let ghost before = list@;
                let item: Json = data.copy();
                list.push(item);
                assert(models(list@) =~= models(before).push(item@));
            }
        }
        i = i + 1;
    }
    proof {
        lemma_ends(parts(content@));
    }
    list
}

/// Whether a list of items holds a `message` item.
pub open spec fn has_message_item(list: Seq<JsonV>) -> bool {
    exists|i: int| 0 <= i < list.len() && (#[trigger] list[i]).text_at("type"@) == Some("message"@)
}

/// Tells whether a list of items holds a `message` item.
fn holds_message_item(list: &Vec<Json>) -> (r: bool)
    ensures
        r == has_message_item(models(list@)),
{
    let mut i: usize = 0;
    while i < list.len()
        invariant
            i <= list.len(),
            forall|k: int|
                0 <= k < i ==> (#[trigger] models(list@)[k]).text_at("type"@) != Some(
                    "message"@,
                ),
        decreases list.len() - i,
    {
        assert(models(list@)[i as int] == list@[i as int]@);
        if let Some(kind) = list[i].text_at("type") {
            if same(kind, "message") {
                return true;
            }
        }
        i = i + 1;
    }
    false
}

/// Whether a message holds a tool result.
pub open spec fn has_result(content: Seq<PartV>) -> bool {
    exists|i: int| 0 <= i < content.len() && #[trigger] content[i] is ToolResult
}

/// Tells whether a message holds a tool result.
fn holds_result(content: &Vec<ContentPart>) -> (r: bool)
    ensures
        r == has_result(parts(content@)),
{
    let mut i: usize = 0;
    while i < content.len()
        invariant
            i <= content.len(),
            forall|k: int| 0 <= k < i ==> !(#[trigger] parts(content@)[k] is ToolResult),
        decreases content.len() - i,
    {
        assert(parts(content@)[i as int] == content@[i as int]@);
        if matches!(&content[i], ContentPart::ToolResult(_)) {
            return true;
        }
        i = i + 1;
    }
    false
}

/// The items laid down so far, and the message item that still waits for the
/// place of its first part.
pub type Laid = (Seq<JsonV>, Option<JsonV>);

/// A list with an optional element at its end.
pub open spec fn push_pending(list: Seq<JsonV>, pending: Option<JsonV>) -> Seq<JsonV> {
    match pending {
        Some(item) => list.push(item),
        None => list,
    }
}

/// Lays the item of one part down.
pub open spec fn lay(
    laid: Laid,
    part: PartV,
    message: MessageV,
    custom: CustomV,
    replays: bool,
) -> Laid {
    match part {
        PartV::Opaque { data, .. } => if claimed(part) {
            (laid.0.push(data), laid.1)
        } else {
            laid
        },
        PartV::ToolCall(call) => if call.name.len() == 0 {
            laid
        } else {
            (laid.0.push(call_item(call)), laid.1)
        },
        PartV::ToolResult(result) => (
            laid.0.push(
                output_item(
                    result.tool_call_id,
                    result_text(result, false),
                    result.is_error,
                    answers(custom, result, message),
                ),
            ),
            laid.1,
        ),
        PartV::Text { .. } => if replays {
            laid
        } else {
            (push_pending(laid.0, laid.1), None)
        },
        PartV::Json { .. } | PartV::Image { .. } | PartV::Document { .. } => (
            push_pending(laid.0, laid.1),
            None,
        ),
        _ => laid,
    }
}

/// Lays the items of a message's parts down, in order.
pub open spec fn lay_all(
    pending: Option<JsonV>,
    content: Seq<PartV>,
    message: MessageV,
    custom: CustomV,
    replays: bool,
) -> Laid
    decreases content.len(),
{
    if content.len() == 0 {
        (Seq::empty(), pending)
    } else {
        lay(
            lay_all(pending, content.drop_last(), message, custom, replays),
            content.last(),
            message,
            custom,
            replays,
        )
    }
}

/// The message item that holds a message's own content, when it has any.
pub open spec fn message_item(message: MessageV, replays: bool) -> Option<JsonV> {
    let content = content_items(message.content, message.role, replays);
    if content.len() > 0 {
        Some(
            JsonV::Object(
                map!["role"@ => JsonV::Text(wire_role(message.role)),
                    "content"@ => JsonV::Array(content)],
            ),
        )
    } else {
        None
    }
}

/// The input items of a message.
///
/// Items keep the order of the parts. The parts that belong inside one message
/// item are collected into one that stands where the first of them does. A
/// preserved `message` item already carries the assistant's text. A tool
/// message of text alone answers the call its label names.
pub open spec fn message_items(message: MessageV, custom: CustomV) -> Seq<JsonV> {
    if message.role == Role::Tool && !has_result(message.content) && message.tool_call_id is Some {
        let call_id = message.tool_call_id->0;
        replay_items(message.content).push(
            output_item(
                call_id,
                plain(message.content),
                false,
                custom.calls.contains(call_id) || names_some(custom.names, message.name),
            ),
        )
    } else {
        let replays = has_message_item(replay_items(message.content));
        let laid = lay_all(
            message_item(message, replays),
            message.content,
            message,
            custom,
            replays,
        );
        push_pending(laid.0, laid.1)
    }
}

/// Encodes one message as the input items it produces.
///
/// Items come out in the order the content parts carry them, because this
/// protocol reads the input list positionally: a `reasoning` item names the
/// item that must follow it.
pub fn input_items(message: &Message, custom: &CustomTools) -> (r: Vec<Json>)
    ensures
        models(r@) == message_items(message@, custom@),
{
    if message.role == Role::Tool && !holds_result(&message.content) {
        if let Some(call_id) = &message.tool_call_id {
            let mut items: Vec<Json> = opaque_items(message);
            let named: bool = match &message.name {
                Some(name) => listed(&custom.names, name.as_str()),
                None => false,
            };
            let is_custom: bool = listed(&custom.calls, call_id.as_str()) || named;
            let ghost before = items@;
            let output: Json = tool_output_item(
                call_id.as_str(),
                plain_text(&message.content).as_str(),
                false,
                is_custom,
            );
            items.push(output);
            assert(models(items@) =~= models(before).push(output@));
            return items;
        }
    }
    let replays: bool = holds_message_item(&opaque_items(message));
    let content: Vec<Json> = message_content(message, replays);
    let mut pending: Option<Json> = if content.len() > 0 {
        let mut item: JsonObject = JsonObject::new();
        item.insert("role", Json::text(role(message.role)));
        item.insert("content", Json::Array(content));
        Some(Json::Object(item))
    } else {
        None
    };
    let ghost waiting = owned_model_opt(pending);
    let list: &Vec<ContentPart> = &message.content;
    let mut items: Vec<Json> = Vec::new();
    let mut i: usize = 0;
    proof {
        lemma_ends(parts(list@));
        assert(models(items@) =~= Seq::<JsonV>::empty());
    }
    while i < list.len()
        invariant
            i <= list.len(),
            (models(items@), owned_model_opt(pending)) == lay_all(
                waiting,
                parts(list@).take(i as int),
                message@,
                custom@,
                replays,
            ),
        decreases list.len() - i,
    {
        proof {
            lemma_take(parts(list@), i as int);
        }
        let ghost before = items@;
        match &list[i] {
            ContentPart::Opaque { data, .. } => {
                if claims_opaque(&list[i]) {
                    let item: Json = data.copy();
                    items.push(item);
                    assert(models(items@) =~= models(before).push(item@));
                }
            },
            ContentPart::ToolCall(call) => {
                if !call.name.as_str().is_empty() {
                    let item: Json = tool_call_item(call);
                    items.push(item);
                    assert(models(items@) =~= models(before).push(item@));
                }
            },
            ContentPart::ToolResult(result) => {
                let item: Json = tool_output_item(
                    result.tool_call_id.as_str(),
                    tool_result_text(result, false).as_str(),
                    result.is_error,
                    custom.answers_custom(result, message),
                );
                items.push(item);
                assert(models(items@) =~= models(before).push(item@));
            },
            ContentPart::Text { .. } => {
                if !replays {
                    if let Some(item) = pending.take() {
                        items.push(item);
                        assert(models(items@) =~= models(before).push(item@));
                    }
                }
            },
            ContentPart::Json { .. } | ContentPart::Image(_) | ContentPart::Document(_) => {
                if let Some(item) = pending.take() {
                    items.push(item);
                    assert(models(items@) =~= models(before).push(item@));
                }
            },
            _ => {},
        }
        i = i + 1;
    }
    proof {
        lemma_ends(parts(list@));
    }
    if let Some(item) = pending {
        let ghost before = items@;
        items.push(item);
        assert(models(items@) =~= models(before).push(item@));
    }
    items
}

/// The input items of a conversation, in order. Codex hoists the instruction
/// messages out of it.
pub open spec fn input_list(list: Seq<MessageV>, custom: CustomV, codex: bool) -> Seq<JsonV>
    decreases list.len(),
{
    if list.len() == 0 {
        Seq::empty()
    } else if codex && list.last().is_instruction() {
        input_list(list.drop_last(), custom, codex)
    } else {
        input_list(list.drop_last(), custom, codex) + message_items(list.last(), custom)
    }
}

/// A tool definition in the flat shape of this protocol. A custom tool sends
/// its format and no parameters.
pub open spec fn tool_value(tool: ToolV) -> JsonV {
    match tool.kind {
        ToolKindV::Function { input_schema } => JsonV::Object(
            map!["type"@ => JsonV::Text("function"@), "name"@ => JsonV::Text(tool.name),
                "description"@ => JsonV::Text(tool.description), "parameters"@ => input_schema],
        ),
        ToolKindV::Custom { format } => JsonV::Object(
            map!["type"@ => JsonV::Text("custom"@), "name"@ => JsonV::Text(tool.name),
                "description"@ => JsonV::Text(tool.description), "format"@ => format],
        ),
    }
}

/// Encodes one tool definition.
pub fn tool_definition(tool: &ToolDefinition) -> (r: Json)
    ensures
        r@ == tool_value(tool@),
{
    let mut object: JsonObject = JsonObject::new();
    match &tool.kind {
        ToolDefinitionKind::Function { input_schema } => {
            object.insert("type", Json::text("function"));
            object.insert("name", Json::text(tool.name.as_str()));
            object.insert("description", Json::text(tool.description.as_str()));
            object.insert("parameters", input_schema.copy());
        },
        ToolDefinitionKind::Custom { format } => {
            object.insert("type", Json::text("custom"));
            object.insert("name", Json::text(tool.name.as_str()));
            object.insert("description", Json::text(tool.description.as_str()));
            object.insert("format", format.copy());
        },
    }
    Json::Object(object)
}

/// The tool selection mode, on the wire.
pub open spec fn choice_json(choice: ChoiceV) -> JsonV {
    match choice {
        ChoiceV::Auto => JsonV::Text("auto"@),
        ChoiceV::Never => JsonV::Text("none"@),
        ChoiceV::Required => JsonV::Text("required"@),
        ChoiceV::Tool { name } => JsonV::Object(
            map!["type"@ => JsonV::Text("function"@), "name"@ => JsonV::Text(name)],
        ),
    }
}

/// Encodes the tool selection mode.
pub fn tool_choice(choice: &ToolChoice) -> (r: Json)
    ensures
        r@ == choice_json(choice@),
{
    match choice {
        ToolChoice::Auto => Json::text("auto"),
        ToolChoice::Never => Json::text("none"),
        ToolChoice::Required => Json::text("required"),
        ToolChoice::Tool { name } => {
            let mut object: JsonObject = JsonObject::new();
            object.insert("type", Json::text("function"));
            object.insert("name", Json::text(name.as_str()));
            Json::Object(object)
        },
    }
}

/// The requested response shape, as a `text.format` value.
pub open spec fn format_json(format: FormatV) -> JsonV {
    match format {
        FormatV::Text => single("type"@, JsonV::Text("text"@)),
        FormatV::JsonObject => single("type"@, JsonV::Text("json_object"@)),
        FormatV::JsonSchema { name, schema } => JsonV::Object(
            map!["type"@ => JsonV::Text("json_schema"@), "name"@ => JsonV::Text(name),
                "schema"@ => schema, "strict"@ => JsonV::Bool(true)],
        ),
    }
}

/// Encodes the requested response shape as a `text.format` value.
pub fn response_format(format: &ResponseFormat) -> (r: Json)
    ensures
        r@ == format_json(format@),
{
    match format {
        ResponseFormat::Text => object1("type", Json::text("text")),
        ResponseFormat::JsonObject => object1("type", Json::text("json_object")),
        ResponseFormat::JsonSchema { name, schema } => {
            let mut object: JsonObject = JsonObject::new();
            object.insert("type", Json::text("json_schema"));
            object.insert("name", Json::text(name.as_str()));
            object.insert("schema", schema.copy());
            object.insert("strict", Json::Bool(true));
            Json::Object(object)
        },
    }
}

/// The tags of a request as an object, a later one of a key winning.
pub open spec fn tag_map(list: Seq<(Seq<char>, Seq<char>)>) -> Map<Seq<char>, JsonV>
    decreases list.len(),
{
    if list.len() == 0 {
        Map::empty()
    } else {
        tag_map(list.drop_last()).insert(list.last().0, JsonV::Text(list.last().1))
    }
}

/// The service tier a speed asks for.
pub open spec fn tier(speed: Speed) -> Seq<char> {
    match speed {
        Speed::Fast => "priority"@,
        Speed::Balanced => "auto"@,
        Speed::Economical => "flex"@,
    }
}

/// The sampling fields, which the Codex deployment rejects.
pub open spec fn with_sampling(
    body: Map<Seq<char>, JsonV>,
    request: RequestV,
    codex: bool,
) -> Map<Seq<char>, JsonV> {
    if codex {
        body
    } else {
        let body = with_member(
            body,
            "max_output_tokens"@,
            count_value(request.max_output_tokens),
        );
        let body = with_member(body, "temperature"@, number_value(request.temperature));
        with_member(body, "top_p"@, number_value(request.top_p))
    }
}

/// The typed fields of a `/v1/responses` body.
pub open spec fn typed_body(request: RequestV, route: RouteV, codex: bool, stream: bool) -> Map<
    Seq<char>,
    JsonV,
> {
    let body = map!["model"@ => JsonV::Text(route.api_model)];
    let body = with_member(
        body,
        "instructions"@,
        if codex {
            Some(JsonV::Text(join(instruction_texts(request.messages), "\n\n"@)))
        } else {
            None
        },
    );
    let body = body.insert(
        "input"@,
        JsonV::Array(input_list(request.messages, request_custom(request), codex)),
    );
    let body = body.insert("stream"@, JsonV::Bool(stream));
    let body = body.insert("store"@, JsonV::Bool(false));
    let body = body.insert(
        "include"@,
        JsonV::Array(seq![JsonV::Text("reasoning.encrypted_content"@)]),
    );
    let body = with_sampling(body, request, codex);
    let body = with_member(
        body,
        "reasoning"@,
        match request.reasoning_effort {
            Some(effort) => Some(single("effort"@, JsonV::Text(effort_text(effort)))),
            None => None,
        },
    );
    let body = with_member(
        body,
        "service_tier"@,
        match request.speed {
            Some(speed) => Some(JsonV::Text(tier(speed))),
            None => None,
        },
    );
    let body = with_member(
        body,
        "tools"@,
        if request.tools.len() > 0 {
            Some(
                JsonV::Array(
                    Seq::new(request.tools.len(), |i: int| tool_value(request.tools[i])),
                ),
            )
        } else {
            None
        },
    );
    let body = with_member(
        body,
        "tool_choice"@,
        match request.tool_choice {
            Some(choice) => Some(choice_json(choice)),
            None => None,
        },
    );
    let body = with_member(
        body,
        "text"@,
        match request.response_format {
            Some(format) => Some(single("format"@, format_json(format))),
            None => None,
        },
    );
    with_member(
        body,
        "metadata"@,
        if request.metadata.len() > 0 {
            Some(JsonV::Object(tag_map(request.metadata)))
        } else {
            None
        },
    )
}

/// The typed fields of a `/v1/responses` body, one method per field.
///
/// Raw provider options are merged over the built body by the caller, so every
/// field here is overridable. `codex` selects the Codex deployment's field
/// set: it takes the system prompt as `instructions` rather than as input
/// items and rejects the sampling controls.
pub struct ResponsesBody<'a> {
    pub codex: bool,
    pub call: &'a ResolvedCall,
    pub stream: bool,
}

impl<'a> ResponsesBody<'a> {
    /// The body of a call.
    pub fn new(codex: bool, call: &'a ResolvedCall, stream: bool) -> (r: Self)
        ensures
            r.codex == codex,
            r.call == call,
            r.stream == stream,
    {
        ResponsesBody { codex, call, stream }
    }

    /// The request of the call.
    pub fn request(&self) -> (r: &'a Request)
        ensures
            *r == self.call.request,
    {
        &self.call.request
    }

    /// The input items of the conversation.
    fn input(&self) -> (r: Json)
        ensures
            r@ == JsonV::Array(
                input_list(
                    self.call.request@.messages,
                    request_custom(self.call.request@),
                    self.codex,
                ),
            ),
    {
        let request: &Request = self.request();
        let custom: CustomTools = CustomTools::new(request);
        let list: &Vec<Message> = &request.messages;
        let mut items: Vec<Json> = Vec::new();
        let mut i: usize = 0;
        proof {
            lemma_ends(messages(list@));
            assert(models(items@) =~= Seq::<JsonV>::empty());
        }
        while i < list.len()
            invariant
                i <= list.len(),
                models(items@) == input_list(
                    messages(list@).take(i as int),
                    custom@,
                    self.codex,
                ),
            decreases list.len() - i,
        {
            proof {
                lemma_take(messages(list@), i as int);
            }
            if !(self.codex && list[i].is_instruction()) {
                let ghost before = models(items@);
                let mut more: Vec<Json> = input_items(&list[i], &custom);
                let ghost added = models(more@);
                items.append(&mut more);
                assert(models(items@) =~= before + added);
            }
            i = i + 1;
        }
        proof {
            lemma_ends(messages(list@));
        }
        Json::Array(items)
    }

    /// The tool definitions.
    fn tools(&self) -> (r: Json)
        ensures
            r@ == JsonV::Array(
                Seq::new(
                    self.call.request@.tools.len(),
                    |i: int| tool_value(self.call.request@.tools[i]),
                ),
            ),
    {
        let definitions: &Vec<ToolDefinition> = &self.call.request.tools;
        let mut list: Vec<Json> = Vec::new();
        let mut i: usize = 0;
        while i < definitions.len()
            invariant
                i <= definitions.len(),
                list.len() == i,
                forall|k: int| 0 <= k < i ==> list@[k]@ == tool_value(definitions@[k]@),
            decreases definitions.len() - i,
        {
            list.push(tool_definition(&definitions[i]));
            i = i + 1;
        }
        assert(models(list@) =~= Seq::new(
            self.call.request@.tools.len(),
            |k: int| tool_value(self.call.request@.tools[k]),
        ));
        Json::Array(list)
    }

    /// The tags of the request.
    fn metadata(&self) -> (r: Json)
        ensures
            r@ == JsonV::Object(tag_map(self.call.request@.metadata)),
    {
        let list: &Vec<(String, String)> = &self.call.request.metadata;
        let mut object: JsonObject = JsonObject::new();
        let mut i: usize = 0;
        proof {
            lemma_ends(tags(list@));
        }
        while i < list.len()
            invariant
                i <= list.len(),
                object@ == tag_map(tags(list@).take(i as int)),
            decreases list.len() - i,
        {
            proof {
                lemma_take(tags(list@), i as int);
            }
            object.insert(list[i].0.as_str(), Json::text(list[i].1.as_str()));
            i = i + 1;
        }
        proof {
            lemma_ends(tags(list@));
        }
        Json::Object(object)
    }

    /// Builds the body.
    ///
    /// This client keeps no server-side conversation state. Encrypted
    /// reasoning is asked for instead, on every model, so a reasoning item can
    /// be replayed from the transcript on the next turn.
    pub fn build(&self) -> (r: JsonObject)
        ensures
            r@ == typed_body(self.call.request@, self.call.route@, self.codex, self.stream),
    {
        let request: &Request = self.request();
        let mut body: JsonObject = JsonObject::new();
        body.insert("model", Json::text(self.call.route.model.api_model.as_str()));
        if self.codex {
            body.insert("instructions", Json::Text(instructions(request)));
        }
        body.insert("input", self.input());
        body.insert("stream", Json::Bool(self.stream));
        body.insert("store", Json::Bool(false));
        body.insert("include", array1(Json::text("reasoning.encrypted_content")));
        if !self.codex {
            put(&mut body, "max_output_tokens", count(request.max_output_tokens));
            put(&mut body, "temperature", numeral(&request.temperature));
            put(&mut body, "top_p", numeral(&request.top_p));
        }
        if let Some(effort) = request.reasoning_effort {
            body.insert("reasoning", object1("effort", Json::text(effort_name(effort))));
        }
        if let Some(speed) = request.speed {
            let tier: &'static str = match speed {
                Speed::Fast => "priority",
                Speed::Balanced => "auto",
                Speed::Economical => "flex",
            };
            body.insert("service_tier", Json::text(tier));
        }
        if request.tools.len() > 0 {
            body.insert("tools", self.tools());
        }
        if let Some(choice) = &request.tool_choice {
            body.insert("tool_choice", tool_choice(choice));
        }
        if let Some(format) = &request.response_format {
            body.insert("text", object1("format", response_format(format)));
        }
        if request.metadata.len() > 0 {
            body.insert("metadata", self.metadata());
        }
        body
    }
}

} // verus!
