//! Responses, errors, and stream events.

use vstd::prelude::*;
use vstd::string::*;

use crate::json::lemma_model;
use crate::json::number_held;
use crate::json::owned_model_opt;
use crate::json::Json;
use crate::json::JsonV;
use crate::json::NumberV;
use crate::text::concat3;
use crate::text::string_opt;
use crate::types::lemma_result_part;
use crate::types::parts;
use crate::types::ContentPart;
use crate::types::PartV;
use crate::types::ToolCallKind;

verus! {

broadcast use {vstd::std_specs::vec::group_vec_axioms, vstd::seq::group_seq_axioms, lemma_model, lemma_result_part};

/// Disjoint token buckets: no token is counted in two of them.
#[derive(Clone, Copy, Debug, PartialEq, Eq, Structural)]
pub struct TokenCounts {
    pub input: u64,
    pub output: u64,
    pub reasoning: u64,
    pub cache_read: u64,
    pub cache_write: u64,
}

/// `a - b`, and zero where `b` is larger.
pub open spec fn monus(a: int, b: int) -> int {
    if a >= b { a - b } else { 0 }
}

/// The buckets of counters whose totals include their details.
pub open spec fn disjoint_counts(
    input: u64,
    output: u64,
    reasoning: u64,
    cache_read: u64,
    cache_write: u64,
) -> TokenCounts {
    TokenCounts {
        input: monus(monus(input as int, cache_read as int), cache_write as int) as u64,
        output: monus(output as int, reasoning as int) as u64,
        reasoning,
        cache_read,
        cache_write,
    }
}

impl TokenCounts {
    /// No tokens at all.
    pub open spec fn zero() -> TokenCounts {
        TokenCounts { input: 0, output: 0, reasoning: 0, cache_read: 0, cache_write: 0 }
    }

    /// The tokens of all buckets together.
    pub open spec fn sum(self) -> int {
        self.input + self.output + self.reasoning + self.cache_read + self.cache_write
    }

    /// No tokens at all.
    pub fn none() -> (r: Self)
        ensures
            r == TokenCounts::zero(),
    {
        TokenCounts { input: 0, output: 0, reasoning: 0, cache_read: 0, cache_write: 0 }
    }

    /// The buckets of counters whose totals include their details: the cached
    /// tokens leave `input`, and the reasoning tokens leave `output`.
    pub fn from_inclusive(
        input: u64,
        output: u64,
        reasoning: u64,
        cache_read: u64,
        cache_write: u64,
    ) -> (r: Self)
        ensures
            r == disjoint_counts(input, output, reasoning, cache_read, cache_write),
    {
        TokenCounts {
            input: input.saturating_sub(cache_read).saturating_sub(cache_write),
            output: output.saturating_sub(reasoning),
            reasoning,
            cache_read,
            cache_write,
        }
    }

    /// The tokens of all buckets together, at most the largest `u64`.
    pub fn total(&self) -> (r: u64)
        ensures
            r == (if self.sum() <= u64::MAX { self.sum() } else { u64::MAX as int }),
    {
        self.input.saturating_add(self.output).saturating_add(self.reasoning).saturating_add(
            self.cache_read,
        ).saturating_add(self.cache_write)
    }
}

/// Why a model stopped.
#[derive(Debug, PartialEq)]
pub enum FinishReason {
    Stop,
    Length,
    ToolCall,
    ContentFilter,
    Error,
    /// A reason this library does not name, in the provider's spelling.
    Other(String),
}

#[verifier::ext_equal]
pub enum FinishV {
    Stop,
    Length,
    ToolCall,
    ContentFilter,
    Error,
    Other(Seq<char>),
}

impl View for FinishReason {
    type V = FinishV;

    open spec fn view(&self) -> FinishV {
        match self {
            FinishReason::Stop => FinishV::Stop,
            FinishReason::Length => FinishV::Length,
            FinishReason::ToolCall => FinishV::ToolCall,
            FinishReason::ContentFilter => FinishV::ContentFilter,
            FinishReason::Error => FinishV::Error,
            FinishReason::Other(reason) => FinishV::Other(reason@),
        }
    }
}

/// What an optional reason is.
pub open spec fn finish_opt(reason: Option<FinishReason>) -> Option<FinishV> {
    match reason {
        Some(reason) => Some(reason@),
        None => None,
    }
}

impl FinishReason {
    /// The same reason again.
    pub fn copy(&self) -> (r: Self)
        ensures
            r@ == self@,
    {
        match self {
            FinishReason::Stop => FinishReason::Stop,
            FinishReason::Length => FinishReason::Length,
            FinishReason::ToolCall => FinishReason::ToolCall,
            FinishReason::ContentFilter => FinishReason::ContentFilter,
            FinishReason::Error => FinishReason::Error,
            FinishReason::Other(reason) => FinishReason::Other(reason.as_str().to_owned()),
        }
    }
}

/// Something the caller should know about a call that still succeeded.
#[derive(Debug)]
pub struct Warning {
    pub code: String,
    pub message: String,
}

#[verifier::ext_equal]
pub struct WarningV {
    pub code: Seq<char>,
    pub message: Seq<char>,
}

impl View for Warning {
    type V = WarningV;

    open spec fn view(&self) -> WarningV {
        WarningV { code: self.code@, message: self.message@ }
    }
}

/// What each warning of a list is.
pub open spec fn warnings(list: Seq<Warning>) -> Seq<WarningV> {
    Seq::new(list.len(), |i: int| list[i]@)
}

/// Who named a cost.
#[derive(Clone, Copy, Debug, PartialEq, Eq, Structural)]
pub enum CostSource {
    Provider,
    Catalog,
}

/// What a call cost, in US dollars.
#[derive(Debug)]
pub struct Cost {
    pub usd: serde_json::Number,
    pub source: CostSource,
}

pub struct CostV {
    pub usd: NumberV,
    pub source: CostSource,
}

impl View for Cost {
    type V = CostV;

    open spec fn view(&self) -> CostV {
        CostV { usd: number_held(self.usd), source: self.source }
    }
}

/// What an optional cost is.
pub open spec fn cost_opt(cost: Option<Cost>) -> Option<CostV> {
    match cost {
        Some(cost) => Some(cost@),
        None => None,
    }
}

/// A complete answer.
#[derive(Debug)]
pub struct Response {
    pub provider: String,
    pub model: String,
    pub id: Option<String>,
    pub content: Vec<ContentPart>,
    pub finish_reason: FinishReason,
    pub usage: TokenCounts,
    pub cost: Option<Cost>,
    /// The provider's own document.
    pub raw: Option<Json>,
    pub warnings: Vec<Warning>,
}

#[verifier::ext_equal]
pub struct ResponseV {
    pub provider: Seq<char>,
    pub model: Seq<char>,
    pub id: Option<Seq<char>>,
    pub content: Seq<PartV>,
    pub finish_reason: FinishV,
    pub usage: TokenCounts,
    pub cost: Option<CostV>,
    pub raw: Option<JsonV>,
    pub warnings: Seq<WarningV>,
}

impl View for Response {
    type V = ResponseV;

    open spec fn view(&self) -> ResponseV {
        ResponseV {
            provider: self.provider@,
            model: self.model@,
            id: string_opt(self.id),
            content: parts(self.content@),
            finish_reason: self.finish_reason@,
            usage: self.usage,
            cost: cost_opt(self.cost),
            raw: owned_model_opt(self.raw),
            warnings: warnings(self.warnings@),
        }
    }
}

/// The warning that stands in for a call the output limit cut.
pub open spec fn truncation_warning(name: Seq<char>) -> WarningV {
    WarningV {
        code: "truncated_tool_call"@,
        message: "the output limit cut the call to "@ + name + " short, so it was dropped"@,
    }
}

/// The parts that are not tool calls, in order.
pub open spec fn without_calls(content: Seq<PartV>) -> Seq<PartV>
    decreases content.len(),
{
    if content.len() == 0 {
        Seq::empty()
    } else if content.last() is ToolCall {
        without_calls(content.drop_last())
    } else {
        without_calls(content.drop_last()).push(content.last())
    }
}

/// A truncation warning for each tool call, in order.
pub open spec fn call_warnings(content: Seq<PartV>) -> Seq<WarningV>
    decreases content.len(),
{
    if content.len() == 0 {
        Seq::empty()
    } else {
        match content.last() {
            PartV::ToolCall(call) => call_warnings(content.drop_last()).push(
                truncation_warning(call.name),
            ),
            _ => call_warnings(content.drop_last()),
        }
    }
}

/// A response without the tool calls its output limit cut: at the limit no
/// call is known to be whole, so each gives way to a warning.
pub open spec fn finished(response: ResponseV) -> ResponseV {
    if response.finish_reason is Length {
        ResponseV {
            content: without_calls(response.content),
            warnings: response.warnings + call_warnings(response.content),
            ..response
        }
    } else {
        response
    }
}

impl Response {
    /// Drops the tool calls of a response that stopped at its output limit,
    /// with a warning for each.
    pub fn suppress_unfinished_tool_calls(&mut self)
        ensures
            final(self)@ == finished(old(self)@),
    {
        if !matches!(self.finish_reason, FinishReason::Length) {
            return ;
        }
        let ghost all = parts(self.content@);
        let ghost held = self.content@;
        let ghost reported = warnings(self.warnings@);
        let mut rest: Vec<ContentPart> = Vec::new();
        core::mem::swap(&mut self.content, &mut rest);
        let mut kept: Vec<ContentPart> = Vec::new();
        let ghost mut at: int = 0;
        assert(all.take(0) =~= Seq::empty());
        assert(reported + call_warnings(all.take(0)) =~= reported);
        while rest.len() > 0
            invariant
                0 <= at <= all.len(),
                all == parts(held),
                rest@ == held.skip(at),
                parts(kept@) == without_calls(all.take(at)),
                warnings(self.warnings@) == reported + call_warnings(all.take(at)),
                self.provider == old(self).provider,
                self.model == old(self).model,
                self.id == old(self).id,
                self.finish_reason == old(self).finish_reason,
                self.usage == old(self).usage,
                self.cost == old(self).cost,
                self.raw == old(self).raw,
            decreases rest.len(),
        {
            let part: ContentPart = rest.remove(0);
            let ghost kept_before = kept@;
            let ghost warned_before = self.warnings@;
            proof {
                assert(part == held[at]);
                assert(all.take(at + 1).drop_last() =~= all.take(at));
                assert(all.take(at + 1).last() == part@);
            }
            if let ContentPart::ToolCall(call) = &part {
                self.warnings.push(
                    Warning {
                        code: "truncated_tool_call".to_owned(),
                        message: concat3(
                            "the output limit cut the call to ",
                            call.name.as_str(),
                            " short, so it was dropped",
                        ),
                    },
                );
                assert(warnings(self.warnings@) =~= warnings(warned_before).push(
                    self.warnings@.last()@,
                ));
                assert(warnings(self.warnings@) =~= reported + call_warnings(all.take(at + 1)));
            } else {
                kept.push(part);
                assert(parts(kept@) =~= parts(kept_before).push(part@));
            }
            proof {
                at = at + 1;
                assert(rest@ =~= held.skip(at));
            }
        }
        assert(all.take(at) =~= all);
        self.content = kept;
    }
}

/// What went wrong, in no provider's terms.
#[derive(Clone, Copy, Debug, PartialEq, Eq, Structural)]
pub enum ErrorKind {
    InvalidRequest,
    Configuration,
    RateLimit,
    ContentFilter,
    Provider,
    ResponseDecode,
    StreamDecode,
}

/// Whether the same call may be tried again.
#[derive(Clone, Copy, Debug, PartialEq, Eq, Structural)]
pub enum RetryClassification {
    Never,
    Safe,
}

/// A failed call.
#[derive(Debug)]
pub struct CallError {
    pub kind: ErrorKind,
    pub message: String,
    pub provider: Option<String>,
    pub provider_code: Option<String>,
    pub retry: RetryClassification,
    pub raw_data: Option<Json>,
    /// The parse error behind this one.
    pub source: Option<serde_json::Error>,
}

#[verifier::ext_equal]
pub struct ErrorV {
    pub kind: ErrorKind,
    pub message: Seq<char>,
    pub provider: Option<Seq<char>>,
    pub provider_code: Option<Seq<char>>,
    pub retry: RetryClassification,
    pub raw_data: Option<JsonV>,
    /// Whether a parse error stands behind this one.
    pub sourced: bool,
}

impl View for CallError {
    type V = ErrorV;

    open spec fn view(&self) -> ErrorV {
        ErrorV {
            kind: self.kind,
            message: self.message@,
            provider: string_opt(self.provider),
            provider_code: string_opt(self.provider_code),
            retry: self.retry,
            raw_data: owned_model_opt(self.raw_data),
            sourced: self.source is Some,
        }
    }
}

/// The stable name of one content block within its stream.
#[derive(Debug)]
pub struct ContentBlockId {
    pub id: String,
}

impl View for ContentBlockId {
    type V = Seq<char>;

    open spec fn view(&self) -> Seq<char> {
        self.id@
    }
}

/// The name of the block at an output index.
pub open spec fn index_block(index: u64) -> Seq<char> {
    "block-"@ + crate::text::decimal(index as nat)
}

impl ContentBlockId {
    /// The block of that name.
    pub fn new(id: &str) -> (r: Self)
        ensures
            r@ == id@,
    {
        ContentBlockId { id: id.to_owned() }
    }

    /// The block at an output index.
    pub fn from_index(index: u64) -> (r: Self)
        ensures
            r@ == index_block(index),
    {
        ContentBlockId {
            id: crate::text::concat2("block-", crate::text::decimal_text(index).as_str()),
        }
    }

    /// The name.
    pub fn as_str(&self) -> (r: &str)
        ensures
            r@ == self@,
    {
        self.id.as_str()
    }

    /// The same name again.
    pub fn copy(&self) -> (r: Self)
        ensures
            r@ == self@,
    {
        ContentBlockId { id: self.id.as_str().to_owned() }
    }
}

/// What a content block carries.
#[derive(Debug)]
#[allow(inconsistent_fields)]
pub enum ContentBlockKind {
    Text,
    Reasoning,
    ToolCall { id: String, name: Option<String>, kind: ToolCallKind },
    Opaque { kind: String },
}

#[allow(inconsistent_fields)]
#[verifier::ext_equal]
pub enum KindV {
    Text,
    Reasoning,
    ToolCall { id: Seq<char>, name: Option<Seq<char>>, kind: ToolCallKind },
    Opaque { kind: Seq<char> },
}

impl View for ContentBlockKind {
    type V = KindV;

    open spec fn view(&self) -> KindV {
        match self {
            ContentBlockKind::Text => KindV::Text,
            ContentBlockKind::Reasoning => KindV::Reasoning,
            ContentBlockKind::ToolCall { id, name, kind } => KindV::ToolCall {
                id: id@,
                name: string_opt(*name),
                kind: *kind,
            },
            ContentBlockKind::Opaque { kind } => KindV::Opaque { kind: kind@ },
        }
    }
}

impl ContentBlockKind {
    /// The same kind again.
    pub fn copy(&self) -> (r: Self)
        ensures
            r@ == self@,
    {
        match self {
            ContentBlockKind::Text => ContentBlockKind::Text,
            ContentBlockKind::Reasoning => ContentBlockKind::Reasoning,
            ContentBlockKind::ToolCall { id, name, kind } => ContentBlockKind::ToolCall {
                id: id.as_str().to_owned(),
                name: crate::text::copy_opt(name),
                kind: *kind,
            },
            ContentBlockKind::Opaque { kind } => ContentBlockKind::Opaque {
                kind: kind.as_str().to_owned(),
            },
        }
    }
}

/// One step of a streamed answer.
///
/// Every block sends one start, then its deltas, then one end, and a stream
/// that does not fail ends with one `Ended`.
#[derive(Debug)]
#[allow(inconsistent_fields)]
pub enum StreamEvent {
    Started { id: Option<String> },
    ContentBlockStart { id: ContentBlockId, kind: ContentBlockKind },
    TextDelta { id: ContentBlockId, text: String },
    ReasoningDelta { id: ContentBlockId, text: String },
    ToolCallDelta { id: ContentBlockId, arguments: String },
    ContentBlockEnd { id: ContentBlockId, part: ContentPart },
    Usage { usage: TokenCounts },
    Ended { response: Box<Response> },
}

#[allow(inconsistent_fields)]
#[verifier::ext_equal]
pub enum EventV {
    Started { id: Option<Seq<char>> },
    Start { block: Seq<char>, kind: KindV },
    TextDelta { block: Seq<char>, text: Seq<char> },
    ReasoningDelta { block: Seq<char>, text: Seq<char> },
    ToolCallDelta { block: Seq<char>, text: Seq<char> },
    End { block: Seq<char>, part: PartV },
    Usage { usage: TokenCounts },
    Ended { response: ResponseV },
}

impl View for StreamEvent {
    type V = EventV;

    open spec fn view(&self) -> EventV {
        match self {
            StreamEvent::Started { id } => EventV::Started { id: string_opt(*id) },
            StreamEvent::ContentBlockStart { id, kind } => EventV::Start { block: id@, kind: kind@ },
            StreamEvent::TextDelta { id, text } => EventV::TextDelta { block: id@, text: text@ },
            StreamEvent::ReasoningDelta { id, text } => EventV::ReasoningDelta {
                block: id@,
                text: text@,
            },
            StreamEvent::ToolCallDelta { id, arguments } => EventV::ToolCallDelta {
                block: id@,
                text: arguments@,
            },
            StreamEvent::ContentBlockEnd { id, part } => EventV::End { block: id@, part: part@ },
            StreamEvent::Usage { usage } => EventV::Usage { usage: *usage },
            StreamEvent::Ended { response } => EventV::Ended { response: response@ },
        }
    }
}

/// What each event of a list is.
pub open spec fn events(list: Seq<StreamEvent>) -> Seq<EventV> {
    Seq::new(list.len(), |i: int| list[i]@)
}

/// One event of a server-sent stream.
#[derive(Debug)]
pub struct SseEvent {
    pub event: Option<String>,
    pub data: String,
}

/// One HTTP method. Every codec posts.
#[derive(Clone, Copy, Debug, PartialEq, Eq, Structural)]
pub enum Method {
    Post,
}

/// A request in a provider's own terms.
#[derive(Debug)]
pub struct EncodedRequest {
    pub method: Method,
    pub url: String,
    pub body: Json,
    pub warnings: Vec<Warning>,
    /// Whether each `data:` line of the reply is an event of its own.
    pub data_line_framing: bool,
    /// The speed the body asks for.
    pub applied_speed: Option<crate::types::Speed>,
}

#[verifier::ext_equal]
pub struct EncodedV {
    pub method: Method,
    pub url: Seq<char>,
    pub body: JsonV,
    pub warnings: Seq<WarningV>,
    pub data_line_framing: bool,
    pub applied_speed: Option<crate::types::Speed>,
}

impl View for EncodedRequest {
    type V = EncodedV;

    open spec fn view(&self) -> EncodedV {
        EncodedV {
            method: self.method,
            url: self.url@,
            body: self.body@,
            warnings: warnings(self.warnings@),
            data_line_framing: self.data_line_framing,
            applied_speed: self.applied_speed,
        }
    }
}

/// The warning for a control the wire does not carry.
pub open spec fn control_warning(control: Seq<char>) -> WarningV {
    WarningV {
        code: "unsupported_control"@,
        message: "this provider protocol does not support "@ + control,
    }
}

/// A warning for each control of a list.
pub open spec fn control_warnings(controls: Seq<Seq<char>>) -> Seq<WarningV> {
    Seq::new(controls.len(), |i: int| control_warning(controls[i]))
}

/// Warns of each control of a list.
pub fn warn_controls(controls: &Vec<&'static str>) -> (r: Vec<Warning>)
    ensures
        warnings(r@) == control_warnings(crate::text::strs(controls@)),
{
    let mut list: Vec<Warning> = Vec::new();
    let mut i: usize = 0;
    while i < controls.len()
        invariant
            i <= controls.len(),
            list.len() == i,
            forall|k: int| 0 <= k < i ==> list@[k]@ == control_warning(controls@[k]@),
        decreases controls.len() - i,
    {
        list.push(
            Warning {
                code: "unsupported_control".to_owned(),
                message: crate::text::concat2(
                    "this provider protocol does not support ",
                    controls[i],
                ),
            },
        );
        i = i + 1;
    }
    assert(warnings(list@) =~= control_warnings(crate::text::strs(controls@)));
    list
}

} // verus!
