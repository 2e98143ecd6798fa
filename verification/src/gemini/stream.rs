//! The `streamGenerateContent` SSE decoder.

use vstd::prelude::*;
use vstd::string::*;

use super::decode::block_reason;
use super::decode::blocked;
use super::decode::blocked_prompt;
use super::decode::candidate;
use super::decode::elements;
use super::decode::first_candidate;
use super::decode::function_name;
use super::decode::is_thought;
use super::decode::listed_parts;
use super::decode::signature_metadata;
use super::decode::token_counts;
use super::decode::usage_counts;
use super::encode::NAMESPACE;
use super::identity::call_id;
use super::identity::response_nonce;
use super::identity::thought_signature;
use super::identity::tool_call_id;
use crate::assembler::append_step;
use crate::assembler::begun;
use crate::assembler::complete_step;
use crate::assembler::end_step;
use crate::assembler::extend;
use crate::assembler::fallback_call;
use crate::assembler::metadata_step;
use crate::assembler::signature_step;
use crate::assembler::silence;
use crate::assembler::start_step;
use crate::assembler::started_step;
use crate::assembler::AssemblerV;
use crate::assembler::Phase;
use crate::assembler::StreamAssembler;
use crate::body::object1;
use crate::content::finish_of;
use crate::content::finish_reason;
use crate::content::promote_tool_finish;
use crate::content::promoted;
use crate::content::GEMINI_SIGNATURES;
use crate::errors::unparsed;
use crate::errors::invalid_stream_event;
use crate::errors::provider_error;
use crate::errors::reported;
use crate::json::lemma_model;
use crate::json::models;
use crate::json::Json;
use crate::json::JsonV;
use crate::response::events;
use crate::response::finish_opt;
use crate::response::CallError;
use crate::response::ContentBlockId;
use crate::response::ContentBlockKind;
use crate::response::ErrorV;
use crate::response::EventV;
use crate::response::FinishReason;
use crate::response::FinishV;
use crate::response::KindV;
use crate::response::SseEvent;
use crate::response::StreamEvent;
use crate::serial::parse;
use crate::serial::parsed;
use crate::serial::print;
use crate::serial::printed;
use crate::text::concat2;
use crate::text::concat3;
use crate::text::copy_opt;
use crate::text::decimal;
use crate::text::decimal_text;
use crate::text::lemma_ends;
use crate::text::lemma_take;
use crate::text::owned_opt;
use crate::text::string_opt;
use crate::types::ResolvedRoute;
use crate::types::RouteV;
use crate::types::ToolCallKind;

verus! {

broadcast use {vstd::std_specs::vec::group_vec_axioms, vstd::seq::group_seq_axioms, lemma_model};

/// Which kind of run a streamed text part continues.
#[derive(Clone, Copy, Debug, PartialEq, Eq, Structural)]
pub enum Run {
    Text,
    Reasoning,
}

/// The block name prefix of a run.
pub open spec fn run_prefix(run: Run) -> Seq<char> {
    match run {
        Run::Text => "text"@,
        Run::Reasoning => "reasoning"@,
    }
}

/// The block kind of a run.
pub open spec fn run_kind(run: Run) -> KindV {
    match run {
        Run::Text => KindV::Text,
        Run::Reasoning => KindV::Reasoning,
    }
}

impl Run {
    /// The block id prefix for this kind of run.
    pub fn prefix(self) -> (r: &'static str)
        ensures
            r@ == run_prefix(self),
    {
        match self {
            Run::Text => "text",
            Run::Reasoning => "reasoning",
        }
    }
}

/// Decodes one `streamGenerateContent` response.
///
/// The protocol supplies neither block ids nor argument fragments, so this
/// decoder owns both. Ids are assigned by kind and ordinal within the stream,
/// and a run of text or reasoning parts is closed as soon as the part kind
/// changes, which is the only signal the protocol gives that a block ended.
pub struct GeminiStreamDecoder {
    route: ResolvedRoute,
    assembler: StreamAssembler,
    open: Option<(ContentBlockId, Run)>,
    texts: u64,
    reasonings: u64,
    calls: u64,
    started: bool,
    response_id: Option<String>,
    nonce: String,
    finished: Option<FinishReason>,
    failed: bool,
}

#[verifier::ext_equal]
pub struct StreamV {
    pub route: RouteV,
    pub assembler: AssemblerV,
    /// The run currently accepting deltas.
    pub open: Option<(Seq<char>, Run)>,
    pub texts: u64,
    pub reasonings: u64,
    pub calls: u64,
    pub started: bool,
    /// The provider's response id, taken from the first chunk that has one.
    pub response_id: Option<Seq<char>>,
    /// The scope of synthesized call ids when no chunk names the response.
    pub nonce: Seq<char>,
    /// The finish reason of the last chunk that reported one.
    pub finished: Option<FinishV>,
    /// Whether a chunk already failed, which forbids a completed response.
    pub failed: bool,
}

impl View for GeminiStreamDecoder {
    type V = StreamV;

    closed spec fn view(&self) -> StreamV {
        StreamV {
            route: self.route@,
            assembler: self.assembler@,
            open: match self.open {
                Some((id, run)) => Some((id@, run)),
                None => None,
            },
            texts: self.texts,
            reasonings: self.reasonings,
            calls: self.calls,
            started: self.started,
            response_id: string_opt(self.response_id),
            nonce: self.nonce@,
            finished: finish_opt(self.finished),
            failed: self.failed,
        }
    }
}

/// A decoder with the events that led to it.
pub type StreamStep = (StreamV, Seq<EventV>);

/// One more, as far as a word counts.
pub open spec fn next(count: u64) -> u64 {
    if count < u64::MAX {
        (count + 1) as u64
    } else {
        count
    }
}

/// A decoder that has seen nothing.
pub open spec fn fresh_stream(route: RouteV, nonce: Seq<char>) -> StreamV {
    StreamV {
        route,
        assembler: begun(route, Some(GEMINI_SIGNATURES@)),
        open: None,
        texts: 0,
        reasonings: 0,
        calls: 0,
        started: false,
        response_id: None,
        nonce,
        finished: None,
        failed: false,
    }
}

/// Closes the open run.
pub open spec fn close_step(s: StreamV) -> StreamStep {
    match s.open {
        Some((id, _)) => {
            let (assembler, ended) = end_step(s.assembler, id, Phase::Closed);
            (StreamV { assembler, open: None, ..s }, ended)
        },
        None => (s, Seq::empty()),
    }
}

/// Names the run that takes the next fragment, opening one when none of its
/// kind is open.
pub open spec fn run_step(s: StreamV, run: Run) -> (StreamV, Seq<char>) {
    match s.open {
        Some((id, open)) if open == run => (s, id),
        _ => match run {
            Run::Text => {
                let id = "text"@ + "-"@ + decimal(s.texts as nat);
                (StreamV { texts: next(s.texts), open: Some((id, run)), ..s }, id)
            },
            Run::Reasoning => {
                let id = "reasoning"@ + "-"@ + decimal(s.reasonings as nat);
                (StreamV { reasonings: next(s.reasonings), open: Some((id, run)), ..s }, id)
            },
        },
    }
}

/// The scope of synthesized call ids.
pub open spec fn stream_scope(s: StreamV) -> Seq<char> {
    match s.response_id {
        Some(id) => id,
        None => s.nonce,
    }
}

/// Opens and closes the block of a complete function call.
pub open spec fn call_step(s: StreamV, part: JsonV, function_call: JsonV) -> StreamStep {
    let (s, closed_run) = close_step(s);
    let id = "tool-"@ + decimal(s.calls as nat);
    let name = function_name(function_call);
    let identity = KindV::ToolCall {
        id: call_id(function_call, name, stream_scope(s), s.calls as nat),
        name: Some(name),
        kind: ToolCallKind::Function,
    };
    let (assembler, started) = start_step(s.assembler, id, identity);
    let assembler = match function_call.get("args"@) {
        Some(arguments) => append_step(assembler, id, fallback_call(id), printed(arguments)).0,
        None => assembler,
    };
    let assembler = match part.text_at("thoughtSignature"@) {
        Some(signature) => metadata_step(
            assembler,
            id,
            NAMESPACE@,
            signature_metadata(signature),
        ),
        None => assembler,
    };
    let (assembler, ended) = end_step(assembler, id, Phase::Closed);
    (StreamV { assembler, calls: next(s.calls), ..s }, closed_run + started + ended)
}

/// Appends a text part to its run. A run of the other kind closes first, and a
/// signature seals the run it stands in.
pub open spec fn spoken_step(s: StreamV, part: JsonV, text: Seq<char>) -> StreamStep {
    let run = if is_thought(part) { Run::Reasoning } else { Run::Text };
    let (s, turned) = match s.open {
        Some((_, open)) if open != run => close_step(s),
        _ => (s, Seq::empty()),
    };
    let (s, id) = run_step(s, run);
    let (assembler, appended) = append_step(s.assembler, id, run_kind(run), text);
    let s = StreamV { assembler, ..s };
    match part.text_at("thoughtSignature"@) {
        Some(signature) if run == Run::Reasoning => {
            let (assembler, signed) = signature_step(s.assembler, id, signature);
            let (s, sealed) = close_step(StreamV { assembler, ..s });
            (s, turned + appended + signed + sealed)
        },
        _ => (s, turned + appended),
    }
}

/// Translates one part of a chunk.
pub open spec fn part_step(s: StreamV, part: JsonV) -> StreamStep {
    match part.get("functionCall"@) {
        Some(function_call) => call_step(s, part, function_call),
        None => match part.text_at("text"@) {
            Some(text) => spoken_step(s, part, text),
            None => (s, Seq::empty()),
        },
    }
}

/// Translates the parts of a chunk, in order.
pub open spec fn parts_step(s: StreamV, list: Seq<JsonV>) -> StreamStep
    decreases list.len(),
{
    if list.len() == 0 {
        (s, Seq::empty())
    } else {
        let (before, earlier) = parts_step(s, list.drop_last());
        let (after, later) = part_step(before, list.last());
        (after, earlier + later)
    }
}

/// Starts the stream with its first chunk, and names the response by the first
/// chunk that carries an id.
pub open spec fn begin_step(s: StreamV, value: JsonV) -> StreamStep {
    let named = match value.text_at("responseId"@) {
        Some(id) if s.response_id is None => StreamV {
            response_id: Some(id),
            assembler: if s.started {
                AssemblerV { id: Some(id), ..s.assembler }
            } else {
                s.assembler
            },
            ..s
        },
        _ => s,
    };
    if s.started {
        (named, Seq::empty())
    } else {
        let (assembler, opening) = started_step(named.assembler, named.response_id);
        (StreamV { started: true, assembler, ..named }, opening)
    }
}

/// Replaces the usage snapshot with a chunk's running totals.
pub open spec fn usage_step(s: StreamV, value: JsonV) -> StreamStep {
    match value.get("usageMetadata"@) {
        Some(metadata) => {
            let (assembler, reported) = crate::assembler::usage_step(s.assembler, usage_counts(metadata));
            (StreamV { assembler, ..s }, reported)
        },
        None => (s, Seq::empty()),
    }
}

/// Holds the finish reason of a chunk that reports one.
pub open spec fn reason_step(s: StreamV, value: JsonV) -> StreamV {
    match first_candidate(value) {
        Some(candidate) => match candidate.text_at("finishReason"@) {
            Some(reason) => StreamV { finished: Some(finish_of(Some(reason))), ..s },
            None => s,
        },
        None => s,
    }
}

/// The parts a chunk lists.
pub open spec fn chunk_parts(value: JsonV) -> Seq<JsonV> {
    match first_candidate(value) {
        Some(candidate) => listed_parts(candidate),
        None => Seq::empty(),
    }
}

/// Why a chunk fails its stream: it is not JSON, it reports an error, or it
/// blocks the prompt.
pub open spec fn chunk_failure(route: RouteV, data: Seq<char>) -> Option<ErrorV> {
    match parsed(data) {
        None => Some(unparsed(route, "Gemini returned an invalid stream event"@)),
        Some(value) => match value.get("error"@) {
            Some(error) if !(error is Null) => Some(reported(route, value)),
            _ => match (first_candidate(value), block_reason(value)) {
                (None, Some(reason)) => Some(blocked(route, reason, value)),
                _ => None,
            },
        },
    }
}

/// Translates a chunk that does not fail.
pub open spec fn chunk_step(s: StreamV, value: JsonV) -> StreamStep {
    let (s, opening) = begin_step(s, value);
    let (s, content) = parts_step(s, chunk_parts(value));
    let (s, usage) = usage_step(s, value);
    (reason_step(s, value), opening + content + usage)
}

/// Ends the stream: the last run closes, and the response completes under the
/// reason the chunks reported.
pub open spec fn finish_step(s: StreamV) -> StreamStep {
    if s.failed {
        (s, Seq::empty())
    } else {
        let s = match s.finished {
            Some(reason) => StreamV {
                finished: None,
                assembler: AssemblerV {
                    finish: Some(promoted(reason, s.calls > 0)),
                    ..s.assembler
                },
                ..s
            },
            None => s,
        };
        let (s, closed_run) = close_step(s);
        let (assembler, ended) = complete_step(s.assembler);
        (StreamV { assembler, ..s }, closed_run + ended)
    }
}

impl GeminiStreamDecoder {
    /// A decoder with the scope of its synthesized ids.
    pub fn with_nonce(route: &ResolvedRoute, nonce: String) -> (r: Self)
        ensures
            r@ == fresh_stream(route@, nonce@),
    {
        GeminiStreamDecoder {
            route: route.copy(),
            assembler: StreamAssembler::new(route).with_signatures(GEMINI_SIGNATURES),
            open: None,
            texts: 0,
            reasonings: 0,
            calls: 0,
            started: false,
            response_id: None,
            nonce,
            finished: None,
            failed: false,
        }
    }

    /// A decoder for one stream on `route`.
    pub fn new(route: &ResolvedRoute) -> (r: Self)
        ensures
            r@ == fresh_stream(route@, r@.nonce),
            exists|word: u64| r@.nonce == #[trigger] crate::text::hex(word as nat, 16),
    {
        let nonce: String = response_nonce();
        GeminiStreamDecoder::with_nonce(route, nonce)
    }

    /// Closes the open run, if there is one.
    pub fn close_run(&mut self) -> (r: Vec<StreamEvent>)
        ensures
            (final(self)@, events(r@)) == close_step(old(self)@),
    {
        match self.open.take() {
            Some((id, _)) => self.assembler.end(&id),
            None => silence(),
        }
    }

    /// The id of the open run, opening a new one when the kind changed or none
    /// is open.
    pub fn run_id(&mut self, run: Run) -> (r: ContentBlockId)
        ensures
            (final(self)@, r@) == run_step(old(self)@, run),
    {
        if let Some((id, open)) = &self.open {
            if *open == run {
                return id.copy();
            }
        }
        let ordinal: u64 = match run {
            Run::Text => self.texts,
            Run::Reasoning => self.reasonings,
        };
        let name: String = concat3(run.prefix(), "-", decimal_text(ordinal).as_str());
        let id: ContentBlockId = ContentBlockId::new(name.as_str());
        match run {
            Run::Text => {
                self.texts = ordinal.saturating_add(1);
            },
            Run::Reasoning => {
                self.reasonings = ordinal.saturating_add(1);
            },
        }
        self.open = Some((id.copy(), run));
        id
    }

    /// Opens and immediately closes the block for a complete function call.
    ///
    /// A `functionCall` arrives whole in one chunk, so the block carries no
    /// argument delta.
    pub fn function_call(&mut self, part: &Json, function_call: &Json) -> (r: Vec<StreamEvent>)
        ensures
            (final(self)@, events(r@)) == call_step(old(self)@, part@, function_call@),
    {
        let mut list: Vec<StreamEvent> = self.close_run();
        let id: ContentBlockId = ContentBlockId::new(
            concat2("tool-", decimal_text(self.calls).as_str()).as_str(),
        );
        let name: &str = match function_call.text_at("name") {
            Some(name) => name,
            None => {
                proof {
                    reveal_strlit("");
                    assert(""@ =~= Seq::<char>::empty());
                }
                ""
            },
        };
        let scope: &str = match &self.response_id {
            Some(id) => id.as_str(),
            None => self.nonce.as_str(),
        };
        let identity: ContentBlockKind = ContentBlockKind::ToolCall {
            id: tool_call_id(function_call, name, scope, self.calls),
            name: Some(name.to_owned()),
            kind: ToolCallKind::Function,
        };
        extend(&mut list, self.assembler.start(&id, &identity));
        self.calls = self.calls.saturating_add(1);
        if let Some(arguments) = function_call.get("args") {
            let _dropped: Vec<StreamEvent> = self.assembler.arguments(
                &id,
                print(arguments).as_str(),
            );
        }
        if let Some(signature) = thought_signature(part) {
            self.assembler.provider_metadata(
                &id,
                NAMESPACE,
                object1("thoughtSignature", Json::text(signature)),
            );
        }
        extend(&mut list, self.assembler.end(&id));
        list
    }

    /// Translates one part of a chunk into stream events.
    pub fn part(&mut self, part: &Json) -> (r: Vec<StreamEvent>)
        ensures
            (final(self)@, events(r@)) == part_step(old(self)@, part@),
    {
        if let Some(function_call) = part.get("functionCall") {
            return self.function_call(part, function_call);
        }
        let text: &str = match part.text_at("text") {
            Some(text) => text,
            None => {
                return silence();
            },
        };
        let thought: bool = match part.truth_at("thought") {
            Some(thought) => thought,
            None => false,
        };
        let run: Run = if thought {
            Run::Reasoning
        } else {
            Run::Text
        };
        let turns: bool = match &self.open {
            Some((_, open)) => *open != run,
            None => false,
        };
        let mut list: Vec<StreamEvent> = if turns {
            self.close_run()
        } else {
            silence()
        };
        let id: ContentBlockId = self.run_id(run);
        let appended: Vec<StreamEvent> = match run {
            Run::Text => self.assembler.text(&id, text),
            Run::Reasoning => self.assembler.reasoning(&id, text),
        };
        extend(&mut list, appended);
        if run == Run::Reasoning {
            if let Some(signature) = thought_signature(part) {
                extend(&mut list, self.assembler.signature(&id, signature));
                let sealed: Vec<StreamEvent> = self.close_run();
                extend(&mut list, sealed);
            }
        }
        list
    }

    /// Translates one chunk into stream events.
    fn chunk(&mut self, event: &SseEvent) -> (r: Result<Vec<StreamEvent>, CallError>)
        ensures
            match r {
                Ok(list) => chunk_failure(old(self)@.route, event.data@) is None && (
                    final(self)@,
                    events(list@),
                ) == chunk_step(old(self)@, parsed(event.data@)->0),
                Err(error) => chunk_failure(old(self)@.route, event.data@) == Some(error@)
                    && final(self)@ == old(self)@,
            },
    {
        let value: Json = match parse(event.data.as_str()) {
            Ok(value) => value,
            Err(source) => {
                return Err(
                    invalid_stream_event(
                        &self.route,
                        "Gemini returned an invalid stream event".to_owned(),
                        source,
                    ),
                );
            },
        };
        let errs: bool = match value.get("error") {
            Some(error) => !error.is_null(),
            None => false,
        };
        if errs {
            return Err(provider_error(&self.route, value));
        }
        let reason: Option<String> = match value.get2("promptFeedback", "blockReason") {
            Some(reason) => owned_opt(reason.as_text()),
            None => None,
        };
        if candidate(&value).is_none() {
            if let Some(reason) = reason {
                return Err(blocked_prompt(&self.route, reason.as_str(), value));
            }
        }
        let mut list: Vec<StreamEvent> = self.begin(&value);
        let ghost opened = self@;
        let ghost listed = chunk_parts(value@);
        let ghost opening = events(list@);
        if let Some(first) = candidate(&value) {
            let content: Vec<StreamEvent> = self.parts(first);
            extend(&mut list, content);
        }
        assert((self@, events(list@)) == ({
            let (after, content) = parts_step(opened, listed);
            (after, opening + content)
        })) by {
            assert(opening + Seq::<EventV>::empty() =~= opening);
        }
        if let Some(metadata) = value.get("usageMetadata") {
            let totals: Vec<StreamEvent> = self.assembler.usage(token_counts(metadata));
            extend(&mut list, totals);
        }
        assert(events(list@) =~= chunk_step(old(self)@, value@).1);
        if let Some(first) = candidate(&value) {
            if let Some(reason) = first.text_at("finishReason") {
                self.finished = Some(finish_reason(Some(reason)));
            }
        }
        Ok(list)
    }

    /// Starts the stream and names the response.
    fn begin(&mut self, value: &Json) -> (r: Vec<StreamEvent>)
        ensures
            (final(self)@, events(r@)) == begin_step(old(self)@, value@),
    {
        if self.response_id.is_none() {
            if let Some(id) = value.text_at("responseId") {
                self.response_id = Some(id.to_owned());
                if self.started {
                    self.assembler.set_id(id);
                }
            }
        }
        if self.started {
            return silence();
        }
        self.started = true;
        self.assembler.started(copy_opt(&self.response_id))
    }

    /// Translates the parts of a candidate.
    fn parts(&mut self, candidate: &Json) -> (r: Vec<StreamEvent>)
        ensures
            (final(self)@, events(r@)) == parts_step(old(self)@, listed_parts(candidate@)),
    {
        let mut list: Vec<StreamEvent> = silence();
        let ghost listed = listed_parts(candidate@);
        let ghost before = self@;
        proof {
            lemma_ends(listed);
        }
        if let Some(items) = elements(candidate.get2("content", "parts")) {
            let mut i: usize = 0;
            while i < items.len()
                invariant
                    i <= items.len(),
                    listed == models(items@),
                    (self@, events(list@)) == parts_step(before, listed.take(i as int)),
                decreases items.len() - i,
            {
                proof {
                    lemma_take(listed, i as int);
                }
                let later: Vec<StreamEvent> = self.part(&items[i]);
                extend(&mut list, later);
                i = i + 1;
            }
            proof {
                lemma_ends(listed);
            }
        }
        list
    }

    /// Decodes one transport event. A chunk that fails ends the stream.
    pub fn decode(&mut self, event: &SseEvent) -> (r: Result<Vec<StreamEvent>, CallError>)
        ensures
            match r {
                Ok(list) => chunk_failure(old(self)@.route, event.data@) is None && (
                    final(self)@,
                    events(list@),
                ) == chunk_step(old(self)@, parsed(event.data@)->0),
                Err(error) => chunk_failure(old(self)@.route, event.data@) == Some(error@)
                    && final(self)@ == (StreamV { failed: true, ..old(self)@ }),
            },
    {
        match self.chunk(event) {
            Ok(list) => Ok(list),
            Err(error) => {
                self.failed = true;
                Err(error)
            },
        }
    }

    /// Ends the stream. A failed stream ends on its error and never completes.
    pub fn finish(&mut self) -> (r: Result<Vec<StreamEvent>, CallError>)
        ensures
            match r {
                Ok(list) => (final(self)@, events(list@)) == finish_step(old(self)@),
                Err(_) => false,
            },
    {
        if self.failed {
            return Ok(silence());
        }
        if let Some(reason) = self.finished.take() {
            self.assembler.set_finish_reason(promote_tool_finish(reason, self.calls > 0));
        }
        let mut list: Vec<StreamEvent> = self.close_run();
        extend(&mut list, self.assembler.complete());
        Ok(list)
    }
}

} // verus!
