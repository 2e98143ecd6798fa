//! The Responses SSE stream decoder.

use vstd::prelude::*;
use vstd::string::*;

use super::decode::call_kind;
use super::decode::decode_document;
use super::decode::decode_finish_reason;
use super::decode::decoded;
use super::decode::document_refusal;
use super::decode::either;
use super::decode::find_call_kind;
use super::decode::has_own_id;
use super::decode::has_type;
use super::decode::internal;
use super::decode::is_internal_call;
use super::decode::item_metadata;
use super::decode::message_text;
use super::decode::output_texts;
use super::decode::reasoning_text;
use super::decode::refusal_text;
use super::decode::status_finish;
use super::decode::thought_text;
use super::decode::token_counts;
use super::decode::typed;
use super::decode::usage_counts;
use super::encode::MESSAGE_KIND;
use super::encode::NAMESPACE;
use super::encode::REASONING_KIND;
use crate::assembler::append_step;
use crate::assembler::begun;
use crate::assembler::called;
use crate::assembler::complete_step;
use crate::assembler::data_step;
use crate::assembler::end_step;
use crate::assembler::extend;
use crate::assembler::fallback_call;
use crate::assembler::identity_step;
use crate::assembler::metadata_step;
use crate::assembler::reconcile_step;
use crate::assembler::silence;
use crate::assembler::start_step;
use crate::assembler::started_step;
use crate::assembler::usage_step;
use crate::assembler::AssemblerV;
use crate::assembler::Phase;
use crate::assembler::StreamAssembler;
use crate::body::object1;
use crate::content::promote_tool_finish;
use crate::content::promoted;
use crate::errors::provider_error;
use crate::errors::refusal;
use crate::errors::refused;
use crate::errors::reported;
use crate::json::lemma_model;
use crate::json::Json;
use crate::json::JsonV;
use crate::openai_chat::decode::inner_text;
use crate::openai_chat::decode::or_empty;
use crate::openai_chat::decode::text_at2;
use crate::openai_chat::decode::text_or_empty;
use crate::openai_chat::stream::outcome;
use crate::response::events;
use crate::response::index_block;
use crate::response::CallError;
use crate::response::ContentBlockId;
use crate::response::ContentBlockKind;
use crate::response::ErrorV;
use crate::response::EventV;
use crate::response::FinishReason;
use crate::response::KindV;
use crate::response::ResponseV;
use crate::response::SseEvent;
use crate::response::StreamEvent;
use crate::serial::parse;
use crate::serial::parsed;
use crate::text::concat2;
use crate::text::listed;
use crate::text::owned_opt;
use crate::text::same;
use crate::text::string_opt;
use crate::text::texts;
use crate::text::trim;
use crate::text::trimmed;
use crate::types::ResolvedRoute;
use crate::types::RouteV;
use crate::types::ToolCallKind;

verus! {

broadcast use {vstd::std_specs::vec::group_vec_axioms, vstd::seq::group_seq_axioms, lemma_model};

/// The list of a reasoning item that a fragment belongs to.
#[derive(Clone, Copy, Debug, PartialEq, Eq, Structural)]
pub enum Channel {
    Content,
    Summary,
}

/// The event field that numbers the entries of a list.
pub open spec fn index_field(channel: Channel) -> Seq<char> {
    match channel {
        Channel::Content => "content_index"@,
        Channel::Summary => "summary_index"@,
    }
}

/// The entry of the last reasoning fragment a block received.
pub struct Entry {
    pub block: String,
    pub channel: Channel,
    pub index: u64,
}

#[verifier::ext_equal]
pub struct EntryV {
    pub block: Seq<char>,
    pub channel: Channel,
    pub index: u64,
}

impl View for Entry {
    type V = EntryV;

    open spec fn view(&self) -> EntryV {
        EntryV { block: self.block@, channel: self.channel, index: self.index }
    }
}

/// What each entry of a list is.
pub open spec fn entries(list: Seq<Entry>) -> Seq<EntryV> {
    Seq::new(list.len(), |i: int| list[i]@)
}

/// Decodes one `/v1/responses` stream.
pub struct ResponsesStream {
    assembler: StreamAssembler,
    route: ResolvedRoute,
    delivered: Vec<String>,
    reasoning_entries: Vec<Entry>,
    skipped: Vec<String>,
    started: bool,
    failed: bool,
}

#[verifier::ext_equal]
pub struct ResponsesV {
    pub assembler: AssemblerV,
    pub route: RouteV,
    /// Blocks that already received content, so a terminal item knows whether
    /// its opaque replay block needs a derived name.
    pub delivered: Seq<Seq<char>>,
    /// The entry of the last reasoning fragment each block received.
    pub reasoning_entries: Seq<EntryV>,
    /// Blocks for model-internal items, whose deltas open no block at all.
    pub skipped: Seq<Seq<char>>,
    pub started: bool,
    /// Whether an event already failed, which forbids a completed response.
    pub failed: bool,
}

impl View for ResponsesStream {
    type V = ResponsesV;

    closed spec fn view(&self) -> ResponsesV {
        ResponsesV {
            assembler: self.assembler@,
            route: self.route@,
            delivered: texts(self.delivered@),
            reasoning_entries: entries(self.reasoning_entries@),
            skipped: texts(self.skipped@),
            started: self.started,
            failed: self.failed,
        }
    }
}

/// A decoder with the events that led to it.
pub type StreamStep = (ResponsesV, Seq<EventV>);

/// A decoder that has seen nothing.
pub open spec fn fresh_responses(route: RouteV) -> ResponsesV {
    ResponsesV {
        assembler: begun(route, None),
        route,
        delivered: Seq::empty(),
        reasoning_entries: Seq::empty(),
        skipped: Seq::empty(),
        started: false,
        failed: false,
    }
}

/// A list of names with one more, once.
pub open spec fn with_name(list: Seq<Seq<char>>, name: Seq<char>) -> Seq<Seq<char>> {
    if list.contains(name) {
        list
    } else {
        list.push(name)
    }
}

/// The item an item event carries.
pub open spec fn event_item(value: JsonV) -> JsonV {
    match value.get("item"@) {
        Some(item) => item,
        None => JsonV::Null,
    }
}

/// The fragment a delta event carries.
pub open spec fn event_delta(value: JsonV) -> Seq<char> {
    text_or_empty(value.text_at("delta"@))
}

/// The block an event belongs to: the item it names, the item it carries, or
/// its output index.
pub open spec fn event_block(value: JsonV) -> Seq<char> {
    match either(value.text_at("item_id"@), inner_text(value, "item"@, "id"@)) {
        Some(id) => id,
        None => index_block(
            match value.unsigned_at("output_index"@) {
                Some(index) => index,
                None => 0,
            },
        ),
    }
}

/// The identity a call item announces.
pub open spec fn item_identity(item: JsonV) -> KindV {
    KindV::ToolCall {
        id: text_or_empty(either(item.text_at("call_id"@), item.text_at("id"@))),
        name: item.text_at("name"@),
        kind: call_kind(item)->0,
    }
}

/// Opens the block of an announced item. A call opens its block with its
/// identity, an internal call is skipped, and any other item waits for its
/// content.
pub open spec fn start_item_step(s: ResponsesV, id: Seq<char>, item: JsonV) -> StreamStep {
    if internal(item) {
        (ResponsesV { skipped: with_name(s.skipped, id), ..s }, Seq::empty())
    } else if call_kind(item) is Some {
        let identity = item_identity(item);
        let (assembler, started) = start_step(s.assembler, id, identity);
        let assembler = identity_step(assembler, id, identity);
        let assembler = if has_own_id(item) {
            metadata_step(
                assembler,
                id,
                NAMESPACE@,
                item_metadata(item.text_at("id"@)->0),
            )
        } else {
            assembler
        };
        (ResponsesV { assembler, ..s }, started)
    } else {
        (s, Seq::empty())
    }
}

/// Brings a block to complete content, and records that it carried some.
pub open spec fn settle_block_step(
    s: ResponsesV,
    id: Seq<char>,
    kind: KindV,
    content: Seq<char>,
) -> StreamStep {
    let (assembler, settled) = reconcile_step(s.assembler, id, kind, content);
    let delivered = if content.len() > 0 {
        with_name(s.delivered, id)
    } else {
        s.delivered
    };
    (ResponsesV { assembler, delivered, ..s }, settled)
}

/// Brings a block to the complete content its terminal item carries.
pub open spec fn reconcile_item_step(s: ResponsesV, id: Seq<char>, item: JsonV) -> StreamStep {
    if typed(item, "message"@) {
        settle_block_step(s, id, KindV::Text, output_texts(item.items_at("content"@)))
    } else if typed(item, "function_call"@) {
        settle_block_step(s, id, fallback_call(id), text_or_empty(item.text_at("arguments"@)))
    } else if typed(item, "custom_tool_call"@) {
        settle_block_step(s, id, fallback_call(id), text_or_empty(item.text_at("input"@)))
    } else {
        (s, Seq::empty())
    }
}

/// How the block of an item ends: one whose item turned out to hold no text is
/// no content.
pub open spec fn ending(text: Seq<char>) -> Phase {
    if text.len() > 0 {
        Phase::Closed
    } else {
        Phase::Discarded
    }
}

/// The name of the block that keeps a whole item: a derived one when the
/// item's own name already stands for its content.
pub open spec fn opaque_block(s: ResponsesV, id: Seq<char>) -> Seq<char> {
    if s.delivered.contains(id) {
        id + "-item"@
    } else {
        id
    }
}

/// Emits one whole output item as a closed opaque block.
pub open spec fn opaque_step(
    s: ResponsesV,
    id: Seq<char>,
    kind: Seq<char>,
    item: JsonV,
) -> StreamStep {
    let (assembler, started) = start_step(s.assembler, id, KindV::Opaque { kind });
    let assembler = data_step(assembler, id, item);
    let (assembler, ended) = end_step(assembler, id, Phase::Closed);
    (ResponsesV { assembler, ..s }, started + ended)
}

/// Where the entry of a block stands, looking from `from` on.
pub open spec fn entry_at(list: Seq<EntryV>, block: Seq<char>, from: int) -> Option<int>
    decreases list.len() - from,
{
    if from < 0 || from >= list.len() {
        None
    } else if list[from].block == block {
        Some(from)
    } else {
        entry_at(list, block, from + 1)
    }
}

/// The entries with one recorded.
pub open spec fn with_entry(list: Seq<EntryV>, entry: EntryV) -> Seq<EntryV> {
    match entry_at(list, entry.block, 0) {
        Some(at) => list.update(at, entry),
        None => list.push(entry),
    }
}

/// The entries without that of a block.
pub open spec fn without_entry(list: Seq<EntryV>, block: Seq<char>) -> Seq<EntryV> {
    match entry_at(list, block, 0) {
        Some(at) => list.remove(at),
        None => list,
    }
}

/// Closes a reasoning item: its readable text is settled, and the whole item
/// is kept for replay.
pub open spec fn end_reasoning_step(s: ResponsesV, id: Seq<char>, item: JsonV) -> StreamStep {
    let text = text_or_empty(thought_text(item));
    let (s, settled) = settle_block_step(s, id, KindV::Reasoning, text);
    let (assembler, ended) = end_step(s.assembler, id, ending(text));
    let s = ResponsesV {
        assembler,
        reasoning_entries: without_entry(s.reasoning_entries, id),
        ..s
    };
    let (s, kept) = opaque_step(s, opaque_block(s, id), REASONING_KIND@, item);
    (s, settled + ended + kept)
}

/// Closes the block of a terminal item, delivering what the deltas did not
/// carry.
pub open spec fn end_item_step(s: ResponsesV, id: Seq<char>, item: JsonV) -> StreamStep {
    if s.skipped.contains(id) {
        (s, Seq::empty())
    } else if internal(item) {
        let (assembler, ended) = end_step(s.assembler, id, Phase::Discarded);
        (ResponsesV { assembler, skipped: with_name(s.skipped, id), ..s }, ended)
    } else if typed(item, "reasoning"@) {
        end_reasoning_step(s, id, item)
    } else {
        let (s, started) = start_item_step(s, id, item);
        let (s, settled) = reconcile_item_step(s, id, item);
        let phase = if typed(item, "message"@) {
            ending(output_texts(item.items_at("content"@)))
        } else {
            Phase::Closed
        };
        let (assembler, ended) = end_step(s.assembler, id, phase);
        let s = ResponsesV { assembler, ..s };
        if typed(item, "message"@) {
            let (s, kept) = opaque_step(s, opaque_block(s, id), MESSAGE_KIND@, item);
            (s, started + settled + ended + kept)
        } else {
            (s, started + settled + ended)
        }
    }
}

/// Appends a text fragment.
pub open spec fn text_step(s: ResponsesV, value: JsonV) -> StreamStep {
    let id = event_block(value);
    let (assembler, appended) = append_step(s.assembler, id, KindV::Text, event_delta(value));
    (ResponsesV { assembler, delivered: with_name(s.delivered, id), ..s }, appended)
}

/// The number of the entry a reasoning fragment belongs to.
pub open spec fn fragment_index(value: JsonV, channel: Channel) -> u64 {
    match value.unsigned_at(index_field(channel)) {
        Some(index) => index,
        None => 0,
    }
}

/// Whether a reasoning fragment opens a later entry of the list its block was
/// at.
pub open spec fn opens_entry(list: Seq<EntryV>, entry: EntryV) -> bool {
    match entry_at(list, entry.block, 0) {
        Some(at) => list[at].channel == entry.channel && entry.index > list[at].index,
        None => false,
    }
}

/// Appends a reasoning fragment. The first fragment of a later entry carries
/// the blank line that the terminal item puts between entries.
pub open spec fn reasoning_step(s: ResponsesV, value: JsonV, channel: Channel) -> StreamStep {
    let id = event_block(value);
    let entry = EntryV { block: id, channel, index: fragment_index(value, channel) };
    let text = if opens_entry(s.reasoning_entries, entry) {
        "\n\n"@ + event_delta(value)
    } else {
        event_delta(value)
    };
    let (assembler, appended) = append_step(s.assembler, id, KindV::Reasoning, text);
    (
        ResponsesV {
            assembler,
            reasoning_entries: with_entry(s.reasoning_entries, entry),
            delivered: with_name(s.delivered, id),
            ..s
        },
        appended,
    )
}

/// Appends an argument fragment, unless its item is model-internal.
pub open spec fn arguments_step(s: ResponsesV, value: JsonV) -> StreamStep {
    let id = event_block(value);
    if s.skipped.contains(id) {
        (s, Seq::empty())
    } else {
        let (assembler, appended) = append_step(
            s.assembler,
            id,
            fallback_call(id),
            event_delta(value),
        );
        (ResponsesV { assembler, delivered: with_name(s.delivered, id), ..s }, appended)
    }
}

/// The document of a terminal event: the one it wraps, or the event itself
/// when a gateway flattened it.
pub open spec fn event_document(value: JsonV) -> JsonV {
    match value.get("response"@) {
        Some(document) => document,
        None => value,
    }
}

/// Completes from a document that decodes: its id, status, usage, and body.
pub open spec fn settle_step(s: ResponsesV, document: JsonV, response: ResponseV) -> StreamStep {
    let assembler = AssemblerV {
        id: if response.id is Some { response.id } else { s.assembler.id },
        finish: Some(promoted(response.finish_reason, called(s.assembler))),
        raw: Some(document),
        ..s.assembler
    };
    let (assembler, counted) = usage_step(assembler, response.usage);
    let (assembler, ended) = complete_step(assembler);
    (ResponsesV { assembler, ..s }, counted + ended)
}

/// Completes from the assembled blocks, keeping what a nonconforming document
/// does carry.
pub open spec fn salvage_step(s: ResponsesV, document: JsonV) -> StreamStep {
    let id = document.text_at("id"@);
    let assembler = AssemblerV {
        id: if id is Some { id } else { s.assembler.id },
        finish: if document.text_at("status"@) is Some {
            Some(promoted(status_finish(document, false), called(s.assembler)))
        } else {
            s.assembler.finish
        },
        raw: Some(document),
        ..s.assembler
    };
    match document.get("usage"@) {
        Some(usage) if usage is Object => {
            let (assembler, counted) = usage_step(assembler, usage_counts(usage));
            let (assembler, ended) = complete_step(assembler);
            (ResponsesV { assembler, ..s }, counted + ended)
        },
        _ => {
            let (assembler, ended) = complete_step(assembler);
            (ResponsesV { assembler, ..s }, Seq::<EventV>::empty() + ended)
        },
    }
}

/// Completes the stream from its terminal event.
pub open spec fn terminal_step(s: ResponsesV, value: JsonV) -> StreamStep {
    let document = event_document(value);
    match decoded(s.route, document) {
        Ok(response) => settle_step(s, document, response),
        Err(_) => salvage_step(s, document),
    }
}

/// Why an event fails its stream: it reports an error, or it completes a
/// refusal.
pub open spec fn event_failure(route: RouteV, kind: Seq<char>, value: JsonV) -> Option<ErrorV> {
    if kind == "error"@ {
        Some(reported(route, value))
    } else if kind == "response.failed"@ {
        Some(reported(route, event_document(value)))
    } else if kind == "response.completed"@ || kind == "response.incomplete"@ {
        match document_refusal(event_document(value)) {
            Some(text) => Some(refused(route, text, Some(event_document(value)))),
            None => None,
        }
    } else {
        None
    }
}

/// Translates an event that does not fail.
pub open spec fn event_step(s: ResponsesV, kind: Seq<char>, value: JsonV) -> StreamStep {
    if kind == "response.output_item.added"@ {
        start_item_step(s, event_block(value), event_item(value))
    } else if kind == "response.output_text.delta"@ {
        text_step(s, value)
    } else if kind == "response.reasoning_text.delta"@ {
        reasoning_step(s, value, Channel::Content)
    } else if kind == "response.reasoning_summary_text.delta"@ {
        reasoning_step(s, value, Channel::Summary)
    } else if kind == "response.function_call_arguments.delta"@ || kind
        == "response.custom_tool_call_input.delta"@ {
        arguments_step(s, value)
    } else if kind == "response.output_item.done"@ {
        end_item_step(s, event_block(value), event_item(value))
    } else if kind == "response.completed"@ || kind == "response.incomplete"@ {
        terminal_step(s, value)
    } else {
        (s, Seq::empty())
    }
}

/// The kind of an event: its own type, or the name of its transport event.
pub open spec fn event_kind(value: JsonV, event: Option<Seq<char>>) -> Seq<char> {
    text_or_empty(either(value.text_at("type"@), event))
}

/// Starts the stream with the first event that is no failure.
pub open spec fn latch_step(s: ResponsesV, kind: Seq<char>, value: JsonV) -> StreamStep {
    if s.started || kind == "error"@ || kind == "response.failed"@ {
        (s, Seq::empty())
    } else {
        let (assembler, latched) = started_step(
            s.assembler,
            inner_text(value, "response"@, "id"@),
        );
        (ResponsesV { started: true, assembler, ..s }, latched)
    }
}

/// Translates one transport event. A frame that is empty, that is the
/// terminator, or that is not JSON says nothing.
pub open spec fn read_step(s: ResponsesV, data: Seq<char>, event: Option<Seq<char>>) -> (
    ResponsesV,
    Result<Seq<EventV>, ErrorV>,
) {
    let frame = trim(data);
    if frame.len() == 0 || frame == "[DONE]"@ {
        (s, Ok(Seq::empty()))
    } else {
        match parsed(frame) {
            None => (s, Ok(Seq::empty())),
            Some(value) => {
                let kind = event_kind(value, event);
                let (s, latched) = latch_step(s, kind, value);
                match event_failure(s.route, kind, value) {
                    Some(error) => (s, Err(error)),
                    None => {
                        let (s, content) = event_step(s, kind, value);
                        (s, Ok(latched + content))
                    },
                }
            },
        }
    }
}

/// Decodes one transport event. An event that fails ends the stream, which then
/// sends nothing more.
pub open spec fn frame_step(s: ResponsesV, data: Seq<char>, event: Option<Seq<char>>) -> (
    ResponsesV,
    Result<Seq<EventV>, ErrorV>,
) {
    if s.failed {
        (s, Ok(Seq::empty()))
    } else {
        let (after, result) = read_step(s, data, event);
        (ResponsesV { failed: result is Err, ..after }, result)
    }
}

/// Ends the stream: the response completes, unless it already has or the
/// stream failed.
pub open spec fn finish_step(s: ResponsesV) -> StreamStep {
    if s.failed {
        (s, Seq::empty())
    } else {
        let (assembler, ended) = complete_step(s.assembler);
        (ResponsesV { assembler, ..s }, ended)
    }
}

/// The output item an item event carries.
pub fn item(value: &Json) -> (r: Json)
    ensures
        r@ == event_item(value@),
{
    match value.get("item") {
        Some(item) => item.copy(),
        None => Json::Null,
    }
}

/// The text fragment a delta event carries.
pub fn delta_text(value: &Json) -> (r: String)
    ensures
        r@ == event_delta(value@),
{
    or_empty(value.text_at("delta"))
}

/// The stable block id for one stream event.
///
/// Delta events name their item directly. Item events carry the item instead,
/// whose own id is the same value. Only an event with neither falls back to
/// the output index.
pub fn block_id(value: &Json) -> (r: ContentBlockId)
    ensures
        r@ == event_block(value@),
{
    if let Some(id) = value.text_at("item_id") {
        return ContentBlockId::new(id);
    }
    if let Some(id) = text_at2(value, "item", "id") {
        return ContentBlockId::new(id);
    }
    let index: u64 = match value.unsigned_at("output_index") {
        Some(index) => index,
        None => 0,
    };
    ContentBlockId::from_index(index)
}

/// Adds a name to a list, once.
fn add_name(list: &mut Vec<String>, name: &str)
    ensures
        texts(final(list)@) == with_name(texts(old(list)@), name@),
{
    if !listed(list, name) {
        let ghost before = texts(list@);
        list.push(name.to_owned());
        assert(texts(list@) =~= before.push(name@));
    }
}

/// Finds the document of a terminal event.
fn document(value: &Json) -> (r: &Json)
    ensures
        r@ == event_document(value@),
{
    match value.get("response") {
        Some(document) => document,
        None => value,
    }
}

impl ResponsesStream {
    /// Creates the decoder for one stream on `route`.
    pub fn new(route: &ResolvedRoute) -> (r: Self)
        ensures
            r@ == fresh_responses(route@),
    {
        let r: ResponsesStream = ResponsesStream {
            assembler: StreamAssembler::new(route),
            route: route.copy(),
            delivered: Vec::new(),
            reasoning_entries: Vec::new(),
            skipped: Vec::new(),
            started: false,
            failed: false,
        };
        assert(r@.delivered =~= Seq::<Seq<char>>::empty());
        assert(r@.skipped =~= Seq::<Seq<char>>::empty());
        assert(r@.reasoning_entries =~= Seq::<EntryV>::empty());
        r
    }

    /// Records that a block carried content.
    pub fn deliver(&mut self, id: &ContentBlockId)
        ensures
            final(self)@ == (ResponsesV {
                delivered: with_name(old(self)@.delivered, id@),
                ..old(self)@
            }),
    {
        add_name(&mut self.delivered, id.as_str());
    }

    /// Records that a block belongs to a model-internal item.
    fn skip(&mut self, id: &ContentBlockId)
        ensures
            final(self)@ == (ResponsesV {
                skipped: with_name(old(self)@.skipped, id@),
                ..old(self)@
            }),
    {
        add_name(&mut self.skipped, id.as_str());
    }

    /// Opens the block for one output item.
    ///
    /// Opening is idempotent, so the terminal event for an item the provider
    /// never announced still opens the right kind of block. Reasoning and
    /// message items are not opened here: what they become is only known from
    /// their content.
    pub fn start_item(&mut self, id: &ContentBlockId, item: &Json) -> (r: Vec<StreamEvent>)
        ensures
            (final(self)@, events(r@)) == start_item_step(old(self)@, id@, item@),
    {
        if is_internal_call(item) {
            self.skip(id);
            return silence();
        }
        match find_call_kind(item) {
            Some(kind) => {
                let call_id: Option<&str> = item.text_at("call_id");
                let item_id: Option<&str> = item.text_at("id");
                let identity: ContentBlockKind = ContentBlockKind::ToolCall {
                    id: match call_id {
                        Some(id) => id.to_owned(),
                        None => or_empty(item_id),
                    },
                    name: owned_opt(item.text_at("name")),
                    kind,
                };
                let list: Vec<StreamEvent> = self.assembler.start(id, &identity);
                self.assembler.repair_tool_identity(id, &identity);
                if let (Some(call_id), Some(item_id)) = (call_id, item_id) {
                    if !same(call_id, item_id) {
                        self.assembler.provider_metadata(
                            id,
                            NAMESPACE,
                            object1("item_id", Json::text(item_id)),
                        );
                    }
                }
                list
            },
            None => silence(),
        }
    }

    /// Reconciles a block with its terminal item event, which carries the
    /// item's complete content.
    ///
    /// The terminal event is the ground truth: an item that streamed no deltas
    /// is delivered whole, a delta lost in transit has its missing tail
    /// appended, and a buffer that disagrees is replaced, also by no content at
    /// all.
    pub fn reconcile_item(&mut self, id: &ContentBlockId, item: &Json) -> (r: Vec<StreamEvent>)
        ensures
            (final(self)@, events(r@)) == reconcile_item_step(old(self)@, id@, item@),
    {
        let fallback: ContentBlockKind = ContentBlockKind::ToolCall {
            id: id.as_str().to_owned(),
            name: None,
            kind: ToolCallKind::Function,
        };
        let (kind, content): (ContentBlockKind, String) = if has_type(item, "message") {
            (ContentBlockKind::Text, message_text(item))
        } else if has_type(item, "function_call") {
            (fallback, or_empty(item.text_at("arguments")))
        } else if has_type(item, "custom_tool_call") {
            (fallback, or_empty(item.text_at("input")))
        } else {
            return silence();
        };
        self.settle_block(id, &kind, content.as_str())
    }

    /// Brings a block to complete content, and records that it carried some.
    fn settle_block(&mut self, id: &ContentBlockId, kind: &ContentBlockKind, content: &str) -> (r:
        Vec<StreamEvent>)
        ensures
            (final(self)@, events(r@)) == settle_block_step(old(self)@, id@, kind@, content@),
    {
        let list: Vec<StreamEvent> = self.assembler.reconcile(id, kind, content);
        if !content.is_empty() {
            self.deliver(id);
        }
        list
    }

    /// Ends the block of an item. One whose item turned out to hold no text
    /// closes for consumers that saw it open, but is no content.
    fn end_text(&mut self, id: &ContentBlockId, text: &str) -> (r: Vec<StreamEvent>)
        ensures
            ({
                let (assembler, ended) = end_step(old(self)@.assembler, id@, ending(text@));
                final(self)@ == (ResponsesV { assembler, ..old(self)@ }) && events(r@) == ended
            }),
    {
        if text.is_empty() {
            self.assembler.discard(id)
        } else {
            self.assembler.end(id)
        }
    }

    /// Emits one whole output item as a closed opaque block.
    fn opaque_item(&mut self, id: &ContentBlockId, kind: &str, item: &Json) -> (r: Vec<
        StreamEvent,
    >)
        ensures
            (final(self)@, events(r@)) == opaque_step(old(self)@, id@, kind@, item@),
    {
        let mut list: Vec<StreamEvent> = self.assembler.start(
            id,
            &ContentBlockKind::Opaque { kind: kind.to_owned() },
        );
        self.assembler.set_opaque_data(id, item.copy());
        extend(&mut list, self.assembler.end(id));
        list
    }

    /// The name of the block that keeps a whole item.
    fn opaque_id(&self, id: &ContentBlockId) -> (r: ContentBlockId)
        ensures
            r@ == opaque_block(self@, id@),
    {
        if listed(&self.delivered, id.as_str()) {
            ContentBlockId::new(concat2(id.as_str(), "-item").as_str())
        } else {
            id.copy()
        }
    }

    /// Where the entry of a block stands.
    fn find_entry(&self, block: &str) -> (r: Option<usize>)
        ensures
            match r {
                Some(at) => entry_at(self@.reasoning_entries, block@, 0) == Some(at as int) && at
                    < self@.reasoning_entries.len(),
                None => entry_at(self@.reasoning_entries, block@, 0) is None,
            },
    {
        let mut i: usize = 0;
        while i < self.reasoning_entries.len()
            invariant
                i <= self.reasoning_entries.len(),
                entry_at(self@.reasoning_entries, block@, 0) == entry_at(
                    self@.reasoning_entries,
                    block@,
                    i as int,
                ),
            decreases self.reasoning_entries.len() - i,
        {
            assert(self@.reasoning_entries[i as int] == self.reasoning_entries@[i as int]@);
            if same(self.reasoning_entries[i].block.as_str(), block) {
                return Some(i);
            }
            i = i + 1;
        }
        None
    }

    /// Closes a reasoning item, keeping the whole item for replay.
    ///
    /// The opaque block reuses the item's own block id when no reasoning text
    /// streamed, and takes a derived id when it did, so both parts of one item
    /// keep distinct stable ids.
    pub fn end_reasoning(&mut self, id: &ContentBlockId, item: &Json) -> (r: Vec<StreamEvent>)
        ensures
            (final(self)@, events(r@)) == end_reasoning_step(old(self)@, id@, item@),
    {
        let text: String = match reasoning_text(item) {
            Some(text) => text,
            None => String::new(),
        };
        let mut list: Vec<StreamEvent> = self.settle_block(
            id,
            &ContentBlockKind::Reasoning,
            text.as_str(),
        );
        let ghost before = self@.reasoning_entries;
        if let Some(at) = self.find_entry(id.as_str()) {
            let _removed: Entry = self.reasoning_entries.remove(at);
            assert(self@.reasoning_entries =~= before.remove(at as int));
        }
        let ended: Vec<StreamEvent> = self.end_text(id, text.as_str());
        extend(&mut list, ended);
        let opaque: ContentBlockId = self.opaque_id(id);
        let kept: Vec<StreamEvent> = self.opaque_item(&opaque, REASONING_KIND, item);
        extend(&mut list, kept);
        list
    }

    /// Closes the block for one output item, delivering anything the deltas
    /// did not carry.
    ///
    /// A lost announcement lets argument deltas latch a fallback block before
    /// the name is known. When the terminal item reveals a model-internal
    /// call, the end event closes what consumers saw open, but the part is
    /// discarded.
    pub fn end_item(&mut self, id: &ContentBlockId, item: &Json) -> (r: Vec<StreamEvent>)
        ensures
            (final(self)@, events(r@)) == end_item_step(old(self)@, id@, item@),
    {
        if listed(&self.skipped, id.as_str()) {
            return silence();
        }
        if is_internal_call(item) {
            self.skip(id);
            return self.assembler.discard(id);
        }
        if has_type(item, "reasoning") {
            return self.end_reasoning(id, item);
        }
        let mut list: Vec<StreamEvent> = self.start_item(id, item);
        let settled: Vec<StreamEvent> = self.reconcile_item(id, item);
        extend(&mut list, settled);
        if !has_type(item, "message") {
            extend(&mut list, self.assembler.end(id));
        } else {
            let ended: Vec<StreamEvent> = self.end_text(id, message_text(item).as_str());
            extend(&mut list, ended);
            let opaque: ContentBlockId = self.opaque_id(id);
            let kept: Vec<StreamEvent> = self.opaque_item(&opaque, MESSAGE_KIND, item);
            extend(&mut list, kept);
        }
        list
    }

    /// Appends one text fragment.
    fn text_delta(&mut self, value: &Json) -> (r: Vec<StreamEvent>)
        ensures
            (final(self)@, events(r@)) == text_step(old(self)@, value@),
    {
        let id: ContentBlockId = block_id(value);
        let list: Vec<StreamEvent> = self.assembler.text(&id, delta_text(value).as_str());
        self.deliver(&id);
        list
    }

    /// Records the entry of a reasoning fragment, and tells whether it opens a
    /// later entry of the same list.
    fn enter(&mut self, block: &str, channel: Channel, index: u64) -> (r: bool)
        ensures
            ({
                let entry = EntryV { block: block@, channel, index };
                r == opens_entry(old(self)@.reasoning_entries, entry) && final(self)@ == (
                ResponsesV {
                    reasoning_entries: with_entry(old(self)@.reasoning_entries, entry),
                    ..old(self)@
                })
            }),
    {
        let ghost before = self@.reasoning_entries;
        let entry: Entry = Entry { block: block.to_owned(), channel, index };
        let ghost recorded = entry@;
        match self.find_entry(block) {
            Some(at) => {
                assert(before[at as int] == self.reasoning_entries@[at as int]@);
                let opens: bool = self.reasoning_entries[at].channel == channel && index
                    > self.reasoning_entries[at].index;
                self.reasoning_entries.set(at, entry);
                assert(self@.reasoning_entries =~= before.update(at as int, recorded));
                opens
            },
            None => {
                self.reasoning_entries.push(entry);
                assert(self@.reasoning_entries =~= before.push(recorded));
                false
            },
        }
    }

    /// Appends one reasoning fragment, whose entry within its item the index
    /// field of its list names.
    ///
    /// The terminal item joins its entries with a blank line, so the first
    /// fragment of a later entry of the same list carries that separator too.
    fn reasoning_delta(&mut self, value: &Json, channel: Channel) -> (r: Vec<StreamEvent>)
        ensures
            (final(self)@, events(r@)) == reasoning_step(old(self)@, value@, channel),
    {
        let id: ContentBlockId = block_id(value);
        let field: &'static str = match channel {
            Channel::Content => "content_index",
            Channel::Summary => "summary_index",
        };
        let index: u64 = match value.unsigned_at(field) {
            Some(index) => index,
            None => 0,
        };
        let text: String = if self.enter(id.as_str(), channel, index) {
            concat2("\n\n", delta_text(value).as_str())
        } else {
            delta_text(value)
        };
        let list: Vec<StreamEvent> = self.assembler.reasoning(&id, text.as_str());
        self.deliver(&id);
        list
    }

    /// Appends one argument fragment, unless the item it belongs to is
    /// model-internal and has no block of its own.
    fn arguments_delta(&mut self, value: &Json) -> (r: Vec<StreamEvent>)
        ensures
            (final(self)@, events(r@)) == arguments_step(old(self)@, value@),
    {
        let id: ContentBlockId = block_id(value);
        if listed(&self.skipped, id.as_str()) {
            return silence();
        }
        let list: Vec<StreamEvent> = self.assembler.arguments(&id, delta_text(value).as_str());
        self.deliver(&id);
        list
    }

    /// Completes the stream from the provider's own final response document.
    ///
    /// The terminal shape is read tolerantly: a gateway that flattens the
    /// document into the event itself, or trims it below what decodes, must
    /// not fail a stream whose answer was already delivered.
    pub fn complete(&mut self, value: &Json) -> (r: Vec<StreamEvent>)
        ensures
            (final(self)@, events(r@)) == terminal_step(old(self)@, value@),
    {
        let document: &Json = document(value);
        match decode_document(&self.route, document.copy()) {
            Err(_) => self.salvage(document),
            Ok(response) => {
                if let Some(id) = &response.id {
                    self.assembler.set_id(id.as_str());
                }
                let called_tool: bool = self.assembler.has_tool_call();
                self.assembler.set_finish_reason(
                    promote_tool_finish(response.finish_reason, called_tool),
                );
                self.assembler.set_raw(document.copy());
                let mut list: Vec<StreamEvent> = self.assembler.usage(response.usage);
                extend(&mut list, self.assembler.complete());
                list
            },
        }
    }

    /// Completes from the assembled blocks, keeping what a nonconforming
    /// terminal document does carry.
    ///
    /// The finish reason is set only when the document reports a status, so a
    /// shape with none still completes as incomplete.
    pub fn salvage(&mut self, document: &Json) -> (r: Vec<StreamEvent>)
        ensures
            (final(self)@, events(r@)) == salvage_step(old(self)@, document@),
    {
        if let Some(id) = document.text_at("id") {
            self.assembler.set_id(id);
        }
        if document.text_at("status").is_some() {
            let reason: FinishReason = decode_finish_reason(document, false);
            let called_tool: bool = self.assembler.has_tool_call();
            self.assembler.set_finish_reason(promote_tool_finish(reason, called_tool));
        }
        self.assembler.set_raw(document.copy());
        let mut list: Vec<StreamEvent> = silence();
        if let Some(usage) = document.get("usage") {
            if usage.is_object() {
                list = self.assembler.usage(token_counts(usage));
            }
        }
        extend(&mut list, self.assembler.complete());
        list
    }

    /// Decodes one recognized stream event.
    pub fn decode_event(&mut self, kind: &str, value: &Json) -> (r: Result<
        Vec<StreamEvent>,
        CallError,
    >)
        ensures
            match event_failure(old(self)@.route, kind@, value@) {
                Some(error) => outcome(r) == Err::<Seq<EventV>, ErrorV>(error) && final(self)@
                    == old(self)@,
                None => {
                    let (after, content) = event_step(old(self)@, kind@, value@);
                    final(self)@ == after && outcome(r) == Ok::<Seq<EventV>, ErrorV>(content)
                },
            },
    {
        proof {
            reveal_kinds();
        }
        if same(kind, "error") {
            return Err(provider_error(&self.route, value.copy()));
        }
        if same(kind, "response.failed") {
            return Err(provider_error(&self.route, document(value).copy()));
        }
        if same(kind, "response.output_item.added") {
            return Ok(self.start_item(&block_id(value), &item(value)));
        }
        if same(kind, "response.output_text.delta") {
            return Ok(self.text_delta(value));
        }
        if same(kind, "response.reasoning_text.delta") {
            return Ok(self.reasoning_delta(value, Channel::Content));
        }
        if same(kind, "response.reasoning_summary_text.delta") {
            return Ok(self.reasoning_delta(value, Channel::Summary));
        }
        if same(kind, "response.function_call_arguments.delta") || same(
            kind,
            "response.custom_tool_call_input.delta",
        ) {
            return Ok(self.arguments_delta(value));
        }
        if same(kind, "response.output_item.done") {
            return Ok(self.end_item(&block_id(value), &item(value)));
        }
        if same(kind, "response.completed") || same(kind, "response.incomplete") {
            let document: &Json = document(value);
            if let Some(text) = refusal_text(document) {
                return Err(refusal(&self.route, text.as_str(), Some(document.copy())));
            }
            return Ok(self.complete(value));
        }
        Ok(silence())
    }

    /// Decodes one transport event into zero or more normalized events. An
    /// event that fails ends the stream, which then sends nothing more.
    pub fn decode(&mut self, event: &SseEvent) -> (r: Result<Vec<StreamEvent>, CallError>)
        ensures
            (final(self)@, outcome(r)) == frame_step(
                old(self)@,
                event.data@,
                string_opt(event.event),
            ),
    {
        if self.failed {
            return Ok(silence());
        }
        match self.read(event) {
            Ok(list) => Ok(list),
            Err(error) => {
                self.failed = true;
                Err(error)
            },
        }
    }

    /// Translates one transport event.
    ///
    /// A frame that cannot be parsed is skipped rather than fatal, because
    /// proxies inject keepalive payloads of their own.
    fn read(&mut self, event: &SseEvent) -> (r: Result<Vec<StreamEvent>, CallError>)
        ensures
            (final(self)@, outcome(r)) == read_step(
                old(self)@,
                event.data@,
                string_opt(event.event),
            ),
    {
        let data: &str = trimmed(event.data.as_str());
        if data.is_empty() || same(data, "[DONE]") {
            return Ok(silence());
        }
        let value: Json = match parse(data) {
            Ok(value) => value,
            Err(_) => {
                return Ok(silence());
            },
        };
        let kind: String = match value.text_at("type") {
            Some(kind) => kind.to_owned(),
            None => match &event.event {
                Some(name) => name.as_str().to_owned(),
                None => String::new(),
            },
        };
        let mut latched: Vec<StreamEvent> = silence();
        if !self.started && !same(kind.as_str(), "error") && !same(
            kind.as_str(),
            "response.failed",
        ) {
            self.started = true;
            let id: Option<String> = owned_opt(text_at2(&value, "response", "id"));
            latched = self.assembler.started(id);
        }
        match self.decode_event(kind.as_str(), &value) {
            Ok(list) => {
                extend(&mut latched, list);
                Ok(latched)
            },
            Err(error) => Err(error),
        }
    }

    /// Called once when the transport stream ends without error. A stream that
    /// failed ended on its error and never completes.
    pub fn finish(&mut self) -> (r: Result<Vec<StreamEvent>, CallError>)
        ensures
            match r {
                Ok(list) => (final(self)@, events(list@)) == finish_step(old(self)@),
                Err(_) => false,
            },
    {
        if self.failed {
            return Ok(silence());
        }
        Ok(self.assembler.complete())
    }
}

/// The kinds of events are different texts.
proof fn reveal_kinds()
    ensures
        "error"@.len() == 5,
        "response.failed"@.len() == 15,
        "response.output_item.added"@.len() == 26,
        "response.output_text.delta"@.len() == 26,
        "response.reasoning_text.delta"@.len() == 29,
        "response.reasoning_summary_text.delta"@.len() == 37,
        "response.function_call_arguments.delta"@.len() == 38,
        "response.custom_tool_call_input.delta"@.len() == 37,
        "response.output_item.done"@.len() == 25,
        "response.completed"@.len() == 18,
        "response.incomplete"@.len() == 19,
{
    reveal_strlit("error");
    reveal_strlit("response.failed");
    reveal_strlit("response.output_item.added");
    reveal_strlit("response.output_text.delta");
    reveal_strlit("response.reasoning_text.delta");
    reveal_strlit("response.reasoning_summary_text.delta");
    reveal_strlit("response.function_call_arguments.delta");
    reveal_strlit("response.custom_tool_call_input.delta");
    reveal_strlit("response.output_item.done");
    reveal_strlit("response.completed");
    reveal_strlit("response.incomplete");
}

} // verus!
