//! The Chat Completions SSE stream decoder.

use vstd::prelude::*;
use vstd::string::*;

use super::decode::choice;
use super::decode::filled;
use super::decode::first_choice;
use super::decode::inner_text;
use super::decode::message_text;
use super::decode::non_empty;
use super::decode::provider_cost;
use super::decode::reasoning_text;
use super::decode::reported_cost;
use super::decode::text_at2;
use super::decode::thought_text;
use super::decode::token_counts;
use super::decode::usage_counts;
use super::decode::visible_text;
use super::reasoning_details::absorbed_all;
use super::reasoning_details::details_kind;
use super::reasoning_details::kind_text;
use super::reasoning_details::payload_details;
use super::reasoning_details::ReasoningDetails;
use super::reasoning_details::REASONING_DETAILS;
use crate::assembler::append_step;
use crate::assembler::begun;
use crate::assembler::called;
use crate::assembler::complete_step;
use crate::assembler::data_step;
use crate::assembler::extend;
use crate::assembler::fallback_call;
use crate::assembler::identity_step;
use crate::assembler::silence;
use crate::assembler::start_step;
use crate::assembler::usage_step;
use crate::assembler::AssemblerV;
use crate::assembler::StreamAssembler;
use crate::content::finish_of;
use crate::content::finish_reason;
use crate::content::promote_tool_finish;
use crate::content::promoted;
use crate::errors::about;
use crate::errors::garbled;
use crate::errors::invalid_stream_event;
use crate::errors::malformed_stream;
use crate::errors::of_provider;
use crate::errors::provider_error;
use crate::errors::refusal;
use crate::errors::refused;
use crate::errors::unparsed;
use crate::errors::reported;
use crate::gemini::decode::elements;
use crate::json::lemma_model;
use crate::json::models;
use crate::json::Json;
use crate::json::JsonV;
use crate::response::events;
use crate::response::CallError;
use crate::response::ContentBlockId;
use crate::response::ContentBlockKind;
use crate::response::ErrorV;
use crate::response::EventV;
use crate::response::KindV;
use crate::response::SseEvent;
use crate::response::StreamEvent;
use crate::serial::parse;
use crate::serial::parsed;
use crate::text::concat2;
use crate::text::copy_opt;
use crate::text::decimal;
use crate::text::decimal_text;
use crate::text::lemma_ends;
use crate::text::lemma_take;
use crate::text::owned_opt;
use crate::text::same;
use crate::text::string_opt;
use crate::types::ResolvedRoute;
use crate::types::RouteV;
use crate::types::ToolCallKind;

verus! {

broadcast use {vstd::std_specs::vec::group_vec_axioms, vstd::seq::group_seq_axioms, lemma_model};

/// The id of the single streamed text block.
///
/// The protocol carries no block ids at all, so every text fragment of one
/// response belongs to the same synthesized block.
pub const TEXT_BLOCK: &'static str = "block-0";

/// The id of the single streamed reasoning block.
pub const REASONING_BLOCK: &'static str = "reasoning-0";

/// The id of the single streamed `reasoning_details` block.
pub const REASONING_DETAILS_BLOCK: &'static str = "reasoning-details-0";

/// The event data that ends a stream.
pub const TERMINATOR: &'static str = "[DONE]";

/// The tool-call identity accumulated for one streaming slot.
///
/// A provider may split the call id and the tool name across fragments; each
/// member keeps the last value a fragment carried.
pub struct SlotIdentity {
    pub index: u64,
    pub id: Option<String>,
    pub name: Option<String>,
}

#[verifier::ext_equal]
pub struct SlotV {
    pub index: u64,
    pub id: Option<Seq<char>>,
    pub name: Option<Seq<char>>,
}

impl View for SlotIdentity {
    type V = SlotV;

    open spec fn view(&self) -> SlotV {
        SlotV { index: self.index, id: string_opt(self.id), name: string_opt(self.name) }
    }
}

/// What each slot of a list is.
pub open spec fn slots(list: Seq<SlotIdentity>) -> Seq<SlotV> {
    Seq::new(list.len(), |i: int| list[i]@)
}

/// The per-stream state for one Chat Completions response.
///
/// The protocol supplies no block ids and no terminal response document, so
/// this decoder synthesizes the ids and lets the assembler build the completed
/// response from what the chunks carried.
pub struct ChatStreamDecoder {
    assembler: StreamAssembler,
    route: ResolvedRoute,
    started: bool,
    details: ReasoningDetails,
    slots: Vec<SlotIdentity>,
    refusal: String,
    failed: bool,
}

#[verifier::ext_equal]
pub struct ChatV {
    pub assembler: AssemblerV,
    pub route: RouteV,
    pub started: bool,
    /// The structured reasoning channel, coalesced as its fragments arrive.
    pub details: Seq<JsonV>,
    /// The identity fragments have carried for each opened tool-call slot.
    pub slots: Seq<SlotV>,
    /// Refusal text accumulated across chunks, which fails the stream when it
    /// ends.
    pub refusal: Seq<char>,
    /// Whether an event already failed, which forbids a completed response.
    pub failed: bool,
}

impl View for ChatStreamDecoder {
    type V = ChatV;

    closed spec fn view(&self) -> ChatV {
        ChatV {
            assembler: self.assembler@,
            route: self.route@,
            started: self.started,
            details: self.details@,
            slots: slots(self.slots@),
            refusal: self.refusal@,
            failed: self.failed,
        }
    }
}

/// A decoder with the events that led to it, or the failure it met.
pub type ChatStep = (ChatV, Result<Seq<EventV>, ErrorV>);

/// A decoder that has seen nothing.
pub open spec fn fresh_chat(route: RouteV) -> ChatV {
    ChatV {
        assembler: begun(route, None),
        route,
        started: false,
        details: Seq::empty(),
        slots: Seq::empty(),
        refusal: Seq::empty(),
        failed: false,
    }
}

/// Starts the stream with its first chunk, and names the response.
pub open spec fn begin_step(s: ChatV, chunk: JsonV) -> (ChatV, Seq<EventV>) {
    let id = chunk.text_at("id"@);
    let named = AssemblerV {
        id: if id is Some || !s.started { id } else { s.assembler.id },
        ..s.assembler
    };
    (
        ChatV { started: true, assembler: named, ..s },
        if s.started || s.assembler.completed {
            Seq::empty()
        } else {
            seq![EventV::Started { id }]
        },
    )
}

/// Absorbs the structured reasoning of a delta. The block carries the whole
/// array every time a fragment lands on it.
pub open spec fn details_step(s: ChatV, delta: JsonV) -> (ChatV, Seq<EventV>) {
    match delta.get(REASONING_DETAILS@) {
        Some(payload) => {
            let details = absorbed_all(s.details, payload_details(payload));
            if details.len() > 0 {
                let (assembler, started) = start_step(
                    s.assembler,
                    REASONING_DETAILS_BLOCK@,
                    KindV::Opaque { kind: kind_text() },
                );
                (
                    ChatV {
                        details,
                        assembler: data_step(
                            assembler,
                            REASONING_DETAILS_BLOCK@,
                            JsonV::Array(details),
                        ),
                        ..s
                    },
                    started,
                )
            } else {
                (ChatV { details, ..s }, Seq::empty())
            }
        },
        None => (s, Seq::empty()),
    }
}

/// Appends an optional fragment to a block.
pub open spec fn fragment_step(
    s: ChatV,
    block: Seq<char>,
    kind: KindV,
    text: Option<Seq<char>>,
) -> (ChatV, Seq<EventV>) {
    match text {
        Some(text) => {
            let (assembler, appended) = append_step(s.assembler, block, kind, text);
            (ChatV { assembler, ..s }, appended)
        },
        None => (s, Seq::empty()),
    }
}

/// Translates the content of a delta: its structured reasoning, its readable
/// reasoning, its text, and its refusal, which accumulates silently.
pub open spec fn spoken_step(s: ChatV, delta: JsonV) -> (ChatV, Seq<EventV>) {
    let (s, detailed) = details_step(s, delta);
    let (s, thought) = fragment_step(
        s,
        REASONING_BLOCK@,
        KindV::Reasoning,
        thought_text(delta),
    );
    let (s, spoken) = fragment_step(s, TEXT_BLOCK@, KindV::Text, visible_text(delta));
    let s = match filled(delta, "refusal"@) {
        Some(text) => ChatV { refusal: s.refusal + text, ..s },
        None => s,
    };
    (s, detailed + thought + spoken)
}

/// Where a slot stands, looking from `from` on.
pub open spec fn slot_at(list: Seq<SlotV>, index: u64, from: int) -> Option<int>
    decreases list.len() - from,
{
    if from < 0 || from >= list.len() {
        None
    } else if list[from].index == index {
        Some(from)
    } else {
        slot_at(list, index, from + 1)
    }
}

/// The later of two texts that is there.
pub open spec fn latest(held: Option<Seq<char>>, text: Option<Seq<char>>) -> Option<Seq<char>> {
    if text is Some {
        text
    } else {
        held
    }
}

/// The identity a slot has once a fragment has carried its own.
pub open spec fn slot_identity(
    list: Seq<SlotV>,
    index: u64,
    id: Option<Seq<char>>,
    name: Option<Seq<char>>,
) -> SlotV {
    match slot_at(list, index, 0) {
        Some(at) => SlotV {
            index,
            id: latest(list[at].id, id),
            name: latest(list[at].name, name),
        },
        None => SlotV { index, id, name },
    }
}

/// The slots with one identity recorded.
pub open spec fn with_slot(list: Seq<SlotV>, slot: SlotV) -> Seq<SlotV> {
    match slot_at(list, slot.index, 0) {
        Some(at) => list.update(at, slot),
        None => list.push(slot),
    }
}

/// The block of a tool-call slot.
pub open spec fn slot_block(index: u64) -> Seq<char> {
    "tool-"@ + decimal(index as nat)
}

/// The identity of a slot's call: the block's own name stands in for an id
/// that has not arrived.
pub open spec fn slot_kind(slot: SlotV) -> KindV {
    KindV::ToolCall {
        id: match slot.id {
            Some(id) => id,
            None => slot_block(slot.index),
        },
        name: slot.name,
        kind: ToolCallKind::Function,
    }
}

/// The failure of a fragment without an index.
pub open spec fn unplaced(route: RouteV, call: JsonV) -> ErrorV {
    garbled(
        route,
        of_provider(route, "streamed a tool-call fragment without an index"@),
        Some(call),
    )
}

/// Applies one `tool_calls` fragment. Any fragment opens its slot, identity
/// that arrives late repairs the open block, and argument text is appended.
pub open spec fn call_step(s: ChatV, call: JsonV) -> ChatStep {
    match call.unsigned_at("index"@) {
        None => (s, Err(unplaced(s.route, call))),
        Some(index) => {
            let block = slot_block(index);
            let slot = slot_identity(
                s.slots,
                index,
                call.text_at("id"@),
                inner_text(call, "function"@, "name"@),
            );
            let (assembler, started) = start_step(s.assembler, block, slot_kind(slot));
            let s = ChatV {
                slots: with_slot(s.slots, slot),
                assembler: identity_step(assembler, block, slot_kind(slot)),
                ..s
            };
            let (s, appended) = fragment_step(
                s,
                block,
                fallback_call(block),
                match inner_text(call, "function"@, "arguments"@) {
                    Some(text) if text.len() > 0 => Some(text),
                    _ => None,
                },
            );
            (s, Ok(started + appended))
        },
    }
}

/// Applies the fragments of a delta, up to the first that fails.
pub open spec fn calls_step(s: ChatV, list: Seq<JsonV>) -> ChatStep
    decreases list.len(),
{
    if list.len() == 0 {
        (s, Ok(Seq::empty()))
    } else {
        let (before, earlier) = calls_step(s, list.drop_last());
        match earlier {
            Err(error) => (before, Err(error)),
            Ok(earlier) => {
                let (after, later) = call_step(before, list.last());
                match later {
                    Err(error) => (after, Err(error)),
                    Ok(later) => (after, Ok(earlier + later)),
                }
            },
        }
    }
}

/// Records the chunk-level totals: finish reason, cost, and usage.
pub open spec fn totals_step(s: ChatV, chunk: JsonV) -> (ChatV, Seq<EventV>) {
    let assembler = match first_choice(chunk) {
        Some(choice) => match choice.text_at("finish_reason"@) {
            Some(reason) => AssemblerV {
                finish: Some(finish_of(Some(reason))),
                ..s.assembler
            },
            None => s.assembler,
        },
        None => s.assembler,
    };
    let assembler = match reported_cost(chunk) {
        Some(cost) => AssemblerV { cost: Some(cost), ..assembler },
        None => assembler,
    };
    match chunk.get("usage"@) {
        Some(usage) if usage is Object => {
            let (assembler, counted) = usage_step(assembler, usage_counts(usage));
            (ChatV { assembler, ..s }, counted)
        },
        _ => (ChatV { assembler, ..s }, Seq::empty()),
    }
}

/// The delta of a chunk's first choice.
pub open spec fn chunk_delta(chunk: JsonV) -> JsonV {
    match first_choice(chunk) {
        Some(choice) => match choice.get("delta"@) {
            Some(delta) => delta,
            None => JsonV::Null,
        },
        None => JsonV::Null,
    }
}

/// Why a chunk fails its stream before anything is read off it: it is not
/// JSON, or it reports an error.
pub open spec fn chunk_failure(route: RouteV, data: Seq<char>) -> Option<ErrorV> {
    match parsed(data) {
        None => Some(unparsed(route, of_provider(route, "returned an invalid stream chunk"@))),
        Some(chunk) => match chunk.get("error"@) {
            Some(error) if !(error is Null) => Some(reported(route, chunk)),
            _ => None,
        },
    }
}

/// Translates one chunk.
pub open spec fn chunk_step(s: ChatV, chunk: JsonV) -> ChatStep {
    let (s, opening) = begin_step(s, chunk);
    let delta = chunk_delta(chunk);
    let (s, spoken) = spoken_step(s, delta);
    let (s, calls) = calls_step(s, delta.items_at("tool_calls"@));
    match calls {
        Err(error) => (s, Err(error)),
        Ok(calls) => {
            let (s, totals) = totals_step(s, chunk);
            (s, Ok(opening + (spoken + calls) + totals))
        },
    }
}

/// Ends the stream. One that failed or that already ended sends nothing. A
/// refusal fails it, and so does a tool call whose stream named no reason to
/// stop; otherwise the response completes.
pub open spec fn finish_step(s: ChatV) -> ChatStep {
    if s.failed || s.assembler.completed {
        (s, Ok(Seq::empty()))
    } else if s.refusal.len() > 0 {
        (s, Err(refused(s.route, s.refusal, None)))
    } else if called(s.assembler) && s.assembler.finish is None {
        (
            s,
            Err(
                garbled(
                    s.route,
                    "the tool call stream ended without a finish reason"@,
                    None,
                ),
            ),
        )
    } else {
        let assembler = match s.assembler.finish {
            Some(reason) => AssemblerV {
                finish: Some(promoted(reason, called(s.assembler))),
                ..s.assembler
            },
            None => s.assembler,
        };
        let (assembler, ended) = complete_step(assembler);
        (ChatV { assembler, ..s }, Ok(ended))
    }
}

/// Translates one transport event. The terminator ends the stream.
pub open spec fn frame_step(s: ChatV, data: Seq<char>) -> ChatStep {
    if data == TERMINATOR@ {
        finish_step(s)
    } else {
        match chunk_failure(s.route, data) {
            Some(error) => (s, Err(error)),
            None => chunk_step(s, parsed(data)->0),
        }
    }
}

/// Decodes one transport event. An event that fails ends the stream, which then
/// sends nothing more.
pub open spec fn event_step(s: ChatV, data: Seq<char>) -> ChatStep {
    if s.failed {
        (s, Ok(Seq::empty()))
    } else {
        let (after, result) = frame_step(s, data);
        (ChatV { failed: result is Err, ..after }, result)
    }
}

/// What a step's result is.
pub open spec fn outcome(result: Result<Vec<StreamEvent>, CallError>) -> Result<
    Seq<EventV>,
    ErrorV,
> {
    match result {
        Ok(list) => Ok(events(list@)),
        Err(error) => Err(error@),
    }
}

impl ChatStreamDecoder {
    /// Creates the decoder for one stream on `route`.
    pub fn new(route: &ResolvedRoute) -> (r: Self)
        ensures
            r@ == fresh_chat(route@),
    {
        let r: ChatStreamDecoder = ChatStreamDecoder {
            assembler: StreamAssembler::new(route),
            route: route.copy(),
            started: false,
            details: ReasoningDetails::new(),
            slots: Vec::new(),
            refusal: String::new(),
            failed: false,
        };
        assert(r@.slots =~= Seq::<SlotV>::empty());
        r
    }

    /// Parses one chunk and fails the stream on an error payload.
    ///
    /// A chunk that is not JSON is indistinguishable from mid-stream
    /// corruption, so the failure is retryable. An explicit `"error": null`
    /// member is not an error.
    fn error_check(&self, event: &SseEvent) -> (r: Result<Json, CallError>)
        ensures
            match r {
                Ok(chunk) => chunk_failure(self@.route, event.data@) is None && parsed(
                    event.data@,
                ) == Some(chunk@),
                Err(error) => chunk_failure(self@.route, event.data@) == Some(error@),
            },
    {
        let chunk: Json = match parse(event.data.as_str()) {
            Ok(chunk) => chunk,
            Err(source) => {
                return Err(
                    invalid_stream_event(
                        &self.route,
                        about(&self.route, "returned an invalid stream chunk"),
                        source,
                    ),
                );
            },
        };
        let errs: bool = match chunk.get("error") {
            Some(error) => !error.is_null(),
            None => false,
        };
        if errs {
            return Err(provider_error(&self.route, chunk));
        }
        Ok(chunk)
    }

    /// Emits the `Started` event on the first chunk and records the id.
    fn start(&mut self, chunk: &Json) -> (r: Vec<StreamEvent>)
        ensures
            (final(self)@, events(r@)) == begin_step(old(self)@, chunk@),
    {
        let id: Option<String> = owned_opt(chunk.text_at("id"));
        let mut list: Vec<StreamEvent> = silence();
        if !self.started {
            self.started = true;
            list = self.assembler.started(copy_opt(&id));
        }
        if let Some(id) = &id {
            self.assembler.set_id(id.as_str());
        }
        list
    }

    /// Absorbs the structured reasoning of a delta.
    fn absorb_details(&mut self, delta: &Json) -> (r: Vec<StreamEvent>)
        ensures
            (final(self)@, events(r@)) == details_step(old(self)@, delta@),
    {
        let payload: &Json = match delta.get(REASONING_DETAILS) {
            Some(payload) => payload,
            None => {
                return silence();
            },
        };
        self.details.absorb(payload);
        match self.details.entries() {
            Some(entries) => {
                let block: ContentBlockId = ContentBlockId::new(REASONING_DETAILS_BLOCK);
                let list: Vec<StreamEvent> = self.assembler.start(
                    &block,
                    &ContentBlockKind::Opaque { kind: details_kind() },
                );
                self.assembler.set_opaque_data(&block, entries);
                list
            },
            None => silence(),
        }
    }

    /// Translates the content of a delta.
    fn speak(&mut self, delta: &Json) -> (r: Vec<StreamEvent>)
        ensures
            (final(self)@, events(r@)) == spoken_step(old(self)@, delta@),
    {
        let mut list: Vec<StreamEvent> = self.absorb_details(delta);
        let thought: Vec<StreamEvent> = match reasoning_text(delta) {
            Some(text) => self.assembler.reasoning(
                &ContentBlockId::new(REASONING_BLOCK),
                text.as_str(),
            ),
            None => silence(),
        };
        extend(&mut list, thought);
        let spoken: Vec<StreamEvent> = match message_text(delta) {
            Some(text) => self.assembler.text(&ContentBlockId::new(TEXT_BLOCK), text.as_str()),
            None => silence(),
        };
        extend(&mut list, spoken);
        if let Some(text) = non_empty(delta, "refusal") {
            self.refusal.append(text);
        }
        list
    }

    /// Translates the first choice's delta into content events.
    fn delta_events(&mut self, delta: &Json) -> (r: Result<Vec<StreamEvent>, CallError>)
        ensures
            ({
                let (after, spoken) = spoken_step(old(self)@, delta@);
                let (after, calls) = calls_step(after, delta@.items_at("tool_calls"@));
                final(self)@ == after && outcome(r) == (match calls {
                    Ok(calls) => Ok::<Seq<EventV>, ErrorV>(spoken + calls),
                    Err(error) => Err::<Seq<EventV>, ErrorV>(error),
                })
            }),
    {
        let mut list: Vec<StreamEvent> = self.speak(delta);
        let ghost before = self@;
        let ghost spoken = events(list@);
        let fragments: &Vec<Json> = match elements(delta.get("tool_calls")) {
            Some(fragments) => fragments,
            None => {
                assert(spoken + Seq::<EventV>::empty() =~= spoken);
                return Ok(list);
            },
        };
        let ghost all = models(fragments@);
        let mut i: usize = 0;
        proof {
            lemma_ends(all);
            assert(spoken + Seq::<EventV>::empty() =~= spoken);
        }
        while i < fragments.len()
            invariant
                i <= fragments.len(),
                all == models(fragments@),
                all == delta@.items_at("tool_calls"@),
                (before, spoken) == spoken_step(old(self)@, delta@),
                ({
                    let (after, calls) = calls_step(before, all.take(i as int));
                    self@ == after && calls is Ok && events(list@) == spoken + calls->Ok_0
                }),
            decreases fragments.len() - i,
        {
            proof {
                lemma_take(all, i as int);
            }
            let ghost earlier = calls_step(before, all.take(i as int)).1->Ok_0;
            match self.decode_tool_call_delta(&fragments[i]) {
                Ok(later) => {
                    let ghost added = events(later@);
                    extend(&mut list, later);
                    assert(spoken + earlier + added =~= spoken + (earlier + added));
                },
                Err(error) => {
                    proof {
                        lemma_stopped(before, all, i as int);
                    }
                    return Err(error);
                },
            }
            i = i + 1;
        }
        proof {
            lemma_ends(all);
        }
        Ok(list)
    }

    /// Records the chunk-level totals: finish reason, cost, and usage.
    ///
    /// A later chunk's cost replaces an earlier one; usage arrives in a final
    /// chunk whose `choices` array is empty.
    fn chunk_totals(&mut self, chunk: &Json) -> (r: Vec<StreamEvent>)
        ensures
            (final(self)@, events(r@)) == totals_step(old(self)@, chunk@),
    {
        if let Some(first) = choice(chunk) {
            if let Some(reason) = first.text_at("finish_reason") {
                self.assembler.set_finish_reason(finish_reason(Some(reason)));
            }
        }
        if let Some(cost) = provider_cost(chunk) {
            self.assembler.set_cost(cost);
        }
        if let Some(usage) = chunk.get("usage") {
            if usage.is_object() {
                return self.assembler.usage(token_counts(usage));
            }
        }
        silence()
    }

    /// Records the identity a fragment carries and gives the slot's own.
    fn record(&mut self, index: u64, id: Option<&str>, name: Option<&str>) -> (r:
        ContentBlockKind)
        ensures
            ({
                let slot = slot_identity(
                    old(self)@.slots,
                    index,
                    crate::text::text_opt(id),
                    crate::text::text_opt(name),
                );
                r@ == slot_kind(slot) && final(self)@ == (ChatV {
                    slots: with_slot(old(self)@.slots, slot),
                    ..old(self)@
                })
            }),
    {
        let ghost before = self@.slots;
        let mut i: usize = 0;
        while i < self.slots.len() && self.slots[i].index != index
            invariant
                i <= self.slots.len(),
                self@ == old(self)@,
                before == slots(self.slots@),
                slot_at(before, index, 0) == slot_at(before, index, i as int),
            decreases self.slots.len() - i,
        {
            assert(before[i as int] == self.slots@[i as int]@);
            i = i + 1;
        }
        if i < self.slots.len() {
            assert(before[i as int] == self.slots@[i as int]@);
            if let Some(id) = id {
                self.slots[i].id = Some(id.to_owned());
            }
            if let Some(name) = name {
                self.slots[i].name = Some(name.to_owned());
            }
        } else {
            self.slots.push(SlotIdentity { index, id: owned_opt(id), name: owned_opt(name) });
        }
        let ghost slot = slot_identity(
            before,
            index,
            crate::text::text_opt(id),
            crate::text::text_opt(name),
        );
        assert(self@.slots =~= with_slot(before, slot));
        assert(self.slots@[i as int]@ == slot);
        ContentBlockKind::ToolCall {
            id: match &self.slots[i].id {
                Some(id) => id.as_str().to_owned(),
                None => concat2("tool-", decimal_text(index).as_str()),
            },
            name: copy_opt(&self.slots[i].name),
            kind: ToolCallKind::Function,
        }
    }

    /// Applies one `tool_calls` fragment and returns the events it produced.
    ///
    /// The fragment's `index` is the provider's accumulation slot, so it names
    /// the content block. Any fragment opens its slot, and identity arriving
    /// late repairs the open block. A fragment without an `index` fails the
    /// stream: defaulting the slot would merge parallel calls into one.
    pub fn decode_tool_call_delta(&mut self, call: &Json) -> (r: Result<
        Vec<StreamEvent>,
        CallError,
    >)
        ensures
            (final(self)@, outcome(r)) == call_step(old(self)@, call@),
    {
        let index: u64 = match call.unsigned_at("index") {
            Some(index) => index,
            None => {
                return Err(
                    malformed_stream(
                        &self.route,
                        about(&self.route, "streamed a tool-call fragment without an index"),
                        Some(call.copy()),
                    ),
                );
            },
        };
        let block: ContentBlockId = ContentBlockId::new(
            concat2("tool-", decimal_text(index).as_str()).as_str(),
        );
        let identity: ContentBlockKind = self.record(
            index,
            call.text_at("id"),
            text_at2(call, "function", "name"),
        );
        let mut list: Vec<StreamEvent> = self.assembler.start(&block, &identity);
        self.assembler.repair_tool_identity(&block, &identity);
        let ghost started = events(list@);
        if let Some(fragment) = text_at2(call, "function", "arguments") {
            if !fragment.is_empty() {
                extend(&mut list, self.assembler.arguments(&block, fragment));
            }
        }
        assert(started + Seq::<EventV>::empty() =~= started);
        Ok(list)
    }

    /// Decodes one transport event into zero or more normalized events. An
    /// event that fails ends the stream, which then sends nothing more.
    pub fn decode(&mut self, event: &SseEvent) -> (r: Result<Vec<StreamEvent>, CallError>)
        ensures
            (final(self)@, outcome(r)) == event_step(old(self)@, event.data@),
    {
        if self.failed {
            return Ok(silence());
        }
        proof {
            let delta = chunk_delta(parsed(event.data@)->0);
            let opened = begin_step(self@, parsed(event.data@)->0).0;
            lemma_calls_keep(spoken_step(opened, delta).0, delta.items_at("tool_calls"@));
        }
        match self.frame(event) {
            Ok(list) => Ok(list),
            Err(error) => {
                self.failed = true;
                Err(error)
            },
        }
    }

    /// Translates one transport event.
    fn frame(&mut self, event: &SseEvent) -> (r: Result<Vec<StreamEvent>, CallError>)
        ensures
            (final(self)@, outcome(r)) == frame_step(old(self)@, event.data@),
    {
        if same(event.data.as_str(), TERMINATOR) {
            return self.finish();
        }
        let chunk: Json = match self.error_check(event) {
            Ok(chunk) => chunk,
            Err(error) => {
                return Err(error);
            },
        };
        let mut list: Vec<StreamEvent> = self.start(&chunk);
        let null: Json = Json::Null;
        let delta: &Json = match choice(&chunk) {
            Some(first) => match first.get("delta") {
                Some(delta) => delta,
                None => &null,
            },
            None => &null,
        };
        match self.delta_events(delta) {
            Ok(content) => {
                extend(&mut list, content);
            },
            Err(error) => {
                return Err(error);
            },
        }
        let totals: Vec<StreamEvent> = self.chunk_totals(&chunk);
        extend(&mut list, totals);
        Ok(list)
    }

    /// Called once when the transport stream ends without error. A stream that
    /// failed ended on its error, and one that completed sends nothing more.
    ///
    /// Opening a tool block does not mean its arguments finished, so a call
    /// whose stream named no finish reason is never completed. Some providers
    /// finish tool calls with `stop`, which is promoted.
    pub fn finish(&mut self) -> (r: Result<Vec<StreamEvent>, CallError>)
        ensures
            (final(self)@, outcome(r)) == finish_step(old(self)@),
    {
        if self.failed || self.assembler.has_completed() {
            return Ok(silence());
        }
        if !self.refusal.as_str().is_empty() {
            return Err(refusal(&self.route, self.refusal.as_str(), None));
        }
        let called_tool: bool = self.assembler.has_tool_call();
        match self.assembler.finish_reason() {
            Some(reason) => {
                self.assembler.set_finish_reason(promote_tool_finish(reason, called_tool));
            },
            None => {
                if called_tool {
                    return Err(
                        malformed_stream(
                            &self.route,
                            "the tool call stream ended without a finish reason".to_owned(),
                            None,
                        ),
                    );
                }
            },
        }
        Ok(self.assembler.complete())
    }
}

/// Call fragments do not touch what has failed.
proof fn lemma_calls_keep(s: ChatV, list: Seq<JsonV>)
    ensures
        calls_step(s, list).0.failed == s.failed,
    decreases list.len(),
{
    if list.len() > 0 {
        lemma_calls_keep(s, list.drop_last());
    }
}

/// A fragment that fails stops the ones behind it.
proof fn lemma_stopped(s: ChatV, list: Seq<JsonV>, at: int)
    requires
        0 <= at < list.len(),
        calls_step(s, list.take(at + 1)).1 is Err,
    ensures
        calls_step(s, list) == calls_step(s, list.take(at + 1)),
    decreases list.len() - at,
{
    if at + 1 == list.len() {
        lemma_ends(list);
    } else {
        lemma_take(list, at + 1);
        lemma_stopped(s, list, at + 1);
    }
}

} // verus!
