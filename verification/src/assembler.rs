//! Block identity and assembly for one stream.
//!
//! An assembler holds the content blocks of a stream and emits the events that
//! describe them, so that every block sends one start, then its deltas, then
//! one end, whatever order a provider's fragments come in.

use vstd::prelude::*;
use vstd::string::*;

use crate::json::lemma_model;
use crate::json::owned_model_opt;
use crate::json::Json;
use crate::json::JsonObject;
use crate::json::JsonV;
use crate::response::cost_opt;
use crate::response::events;
use crate::response::finish_opt;
use crate::response::finished;
use crate::response::ContentBlockId;
use crate::response::ContentBlockKind;
use crate::response::Cost;
use crate::response::CostV;
use crate::response::EventV;
use crate::response::FinishReason;
use crate::response::FinishV;
use crate::response::KindV;
use crate::response::Response;
use crate::response::ResponseV;
use crate::response::StreamEvent;
use crate::response::TokenCounts;
use crate::response::WarningV;
use crate::text::after_prefix;
use crate::text::copy_opt;
use crate::text::lemma_ends;
use crate::text::lemma_take;
use crate::text::same;
use crate::text::starts_with;
use crate::text::string_opt;
use crate::types::lemma_result_part;
use crate::types::parts;
use crate::types::CallV;
use crate::types::ContentPart;
use crate::types::InputV;
use crate::types::PartV;
use crate::types::ReasoningContent;
use crate::types::ReasoningV;
use crate::types::ResolvedRoute;
use crate::types::RouteV;
use crate::types::ToolCall;
use crate::types::ToolCallKind;
use crate::types::ToolInput;

verus! {

broadcast use {vstd::std_specs::vec::group_vec_axioms, vstd::seq::group_seq_axioms, lemma_model, lemma_result_part};

/// How far a block has come.
#[derive(Clone, Copy, Debug, PartialEq, Eq, Structural)]
pub enum Phase {
    /// It takes deltas.
    Open,
    /// It ended and is content.
    Closed,
    /// It ended and is no content.
    Discarded,
}

/// One content block of a stream.
#[derive(Debug)]
pub struct Block {
    pub id: ContentBlockId,
    pub kind: ContentBlockKind,
    pub buffer: String,
    pub signature: Option<String>,
    pub metadata: JsonObject,
    pub data: Json,
    pub phase: Phase,
}

#[verifier::ext_equal]
pub struct BlockV {
    pub id: Seq<char>,
    pub kind: KindV,
    pub buffer: Seq<char>,
    pub signature: Option<Seq<char>>,
    pub metadata: Map<Seq<char>, JsonV>,
    pub data: JsonV,
    pub phase: Phase,
}

impl View for Block {
    type V = BlockV;

    open spec fn view(&self) -> BlockV {
        BlockV {
            id: self.id@,
            kind: self.kind@,
            buffer: self.buffer@,
            signature: string_opt(self.signature),
            metadata: self.metadata@,
            data: self.data@,
            phase: self.phase,
        }
    }
}

/// What each block of a list is.
pub open spec fn blocks(list: Seq<Block>) -> Seq<BlockV> {
    Seq::new(list.len(), |i: int| list[i]@)
}

/// Assembles the blocks of one stream into its events and its response.
#[derive(Debug)]
pub struct StreamAssembler {
    provider: String,
    model: String,
    signatures: Option<String>,
    id: Option<String>,
    blocks: Vec<Block>,
    usage: TokenCounts,
    finish: Option<FinishReason>,
    cost: Option<Cost>,
    raw: Option<Json>,
    completed: bool,
}

#[verifier::ext_equal]
pub struct AssemblerV {
    pub provider: Seq<char>,
    pub model: Seq<char>,
    /// The provider family the stream's signatures belong to.
    pub signatures: Option<Seq<char>>,
    pub id: Option<Seq<char>>,
    pub blocks: Seq<BlockV>,
    pub usage: TokenCounts,
    pub finish: Option<FinishV>,
    pub cost: Option<CostV>,
    pub raw: Option<JsonV>,
    pub completed: bool,
}

impl View for StreamAssembler {
    type V = AssemblerV;

    closed spec fn view(&self) -> AssemblerV {
        AssemblerV {
            provider: self.provider@,
            model: self.model@,
            signatures: string_opt(self.signatures),
            id: string_opt(self.id),
            blocks: blocks(self.blocks@),
            usage: self.usage,
            finish: finish_opt(self.finish),
            cost: cost_opt(self.cost),
            raw: owned_model_opt(self.raw),
            completed: self.completed,
        }
    }
}

/// Where the block of a name stands, looking from `from` on.
pub open spec fn locate(list: Seq<BlockV>, id: Seq<char>, from: int) -> Option<int>
    decreases list.len() - from,
{
    if from < 0 || from >= list.len() {
        None
    } else if list[from].id == id {
        Some(from)
    } else {
        locate(list, id, from + 1)
    }
}

/// A block that has just started.
pub open spec fn fresh(id: Seq<char>, kind: KindV) -> BlockV {
    BlockV {
        id,
        kind,
        buffer: Seq::empty(),
        signature: None,
        metadata: Map::empty(),
        data: JsonV::Null,
        phase: Phase::Open,
    }
}

/// A state with the events that led to it.
pub type Step = (AssemblerV, Seq<EventV>);

/// Starts the stream, under the response's id. A stream that ended sends
/// nothing more.
pub open spec fn started_step(s: AssemblerV, id: Option<Seq<char>>) -> Step {
    (
        AssemblerV { id, ..s },
        if s.completed {
            Seq::empty()
        } else {
            seq![EventV::Started { id }]
        },
    )
}

/// Replaces the usage snapshot. A stream that ended sends nothing more.
pub open spec fn usage_step(s: AssemblerV, usage: TokenCounts) -> Step {
    (
        AssemblerV { usage, ..s },
        if s.completed {
            Seq::empty()
        } else {
            seq![EventV::Usage { usage }]
        },
    )
}

/// Starts a block, once, and none once the stream ended.
pub open spec fn start_step(s: AssemblerV, id: Seq<char>, kind: KindV) -> Step {
    if s.completed || locate(s.blocks, id, 0) is Some {
        (s, Seq::empty())
    } else {
        (
            AssemblerV { blocks: s.blocks.push(fresh(id, kind)), ..s },
            seq![EventV::Start { block: id, kind }],
        )
    }
}

/// Whether two kinds take the same sort of delta.
pub open spec fn same_sort(a: KindV, b: KindV) -> bool {
    match (a, b) {
        (KindV::Text, KindV::Text) => true,
        (KindV::Reasoning, KindV::Reasoning) => true,
        (KindV::ToolCall { .. }, KindV::ToolCall { .. }) => true,
        (KindV::Opaque { .. }, KindV::Opaque { .. }) => true,
        _ => false,
    }
}

/// The delta that carries a fragment of a block of some kind.
pub open spec fn delta(kind: KindV, block: Seq<char>, text: Seq<char>) -> EventV {
    match kind {
        KindV::Text => EventV::TextDelta { block, text },
        KindV::Reasoning => EventV::ReasoningDelta { block, text },
        _ => EventV::ToolCallDelta { block, text },
    }
}

/// Whether the block of a name is open and of some kind, in a stream that has
/// not ended.
pub open spec fn takes(s: AssemblerV, id: Seq<char>, kind: KindV) -> bool {
    match locate(s.blocks, id, 0) {
        Some(at) => !s.completed && s.blocks[at].phase == Phase::Open && same_sort(
            s.blocks[at].kind,
            kind,
        ),
        None => false,
    }
}

/// A state with another block under a name.
pub open spec fn with_block(s: AssemblerV, id: Seq<char>, block: BlockV) -> AssemblerV {
    AssemblerV { blocks: s.blocks.update(locate(s.blocks, id, 0)->0, block), ..s }
}

/// The block of a name.
pub open spec fn block_of(s: AssemblerV, id: Seq<char>) -> BlockV {
    s.blocks[locate(s.blocks, id, 0)->0]
}

/// Appends a fragment, starting the block as `kind` when it has not started.
/// A block that ended, or one of another sort, takes no fragment.
pub open spec fn append_step(s: AssemblerV, id: Seq<char>, kind: KindV, text: Seq<char>) -> Step {
    let (started, opening) = start_step(s, id, kind);
    if takes(started, id, kind) {
        let block = block_of(started, id);
        (
            with_block(started, id, BlockV { buffer: block.buffer + text, ..block }),
            opening.push(delta(kind, id, text)),
        )
    } else {
        (started, opening)
    }
}

/// The kind an argument fragment starts a block with, when nothing announced
/// the call: the block's own name stands in for the call's.
pub open spec fn fallback_call(id: Seq<char>) -> KindV {
    KindV::ToolCall { id, name: None, kind: ToolCallKind::Function }
}

/// Brings a block's buffer to its complete content. A missing tail is
/// delivered as a delta, and a buffer that disagrees is replaced. A block that
/// has not started does not start for no content at all.
pub open spec fn reconcile_step(
    s: AssemblerV,
    id: Seq<char>,
    kind: KindV,
    content: Seq<char>,
) -> Step {
    let (started, opening) = if content.len() == 0 {
        (s, Seq::empty())
    } else {
        start_step(s, id, kind)
    };
    if takes(started, id, kind) {
        let block = block_of(started, id);
        let whole = with_block(started, id, BlockV { buffer: content, ..block });
        if block.buffer.is_prefix_of(content) && block.buffer != content {
            (
                whole,
                opening.push(delta(kind, id, content.skip(block.buffer.len() as int))),
            )
        } else {
            (whole, opening)
        }
    } else {
        (started, opening)
    }
}

/// Records the signature of a reasoning block, starting it when it has not
/// started.
pub open spec fn signature_step(s: AssemblerV, id: Seq<char>, signature: Seq<char>) -> Step {
    let (started, opening) = start_step(s, id, KindV::Reasoning);
    if takes(started, id, KindV::Reasoning) {
        let block = block_of(started, id);
        (with_block(started, id, BlockV { signature: Some(signature), ..block }), opening)
    } else {
        (started, opening)
    }
}

/// Gives an open call block the identity its provider sent late.
pub open spec fn identity_step(s: AssemblerV, id: Seq<char>, identity: KindV) -> AssemblerV {
    if identity is ToolCall && takes(s, id, identity) {
        with_block(s, id, BlockV { kind: identity, ..block_of(s, id) })
    } else {
        s
    }
}

/// Puts a provider's metadata on an open call block.
pub open spec fn metadata_step(
    s: AssemblerV,
    id: Seq<char>,
    namespace: Seq<char>,
    value: JsonV,
) -> AssemblerV {
    if takes(s, id, fallback_call(id)) {
        let block = block_of(s, id);
        with_block(s, id, BlockV { metadata: block.metadata.insert(namespace, value), ..block })
    } else {
        s
    }
}

/// Sets the data of an open opaque block.
pub open spec fn data_step(s: AssemblerV, id: Seq<char>, data: JsonV) -> AssemblerV {
    if takes(s, id, KindV::Opaque { kind: Seq::empty() }) {
        with_block(s, id, BlockV { data, ..block_of(s, id) })
    } else {
        s
    }
}

/// The content part a block holds.
pub open spec fn block_part(block: BlockV, signatures: Option<Seq<char>>) -> PartV {
    match block.kind {
        KindV::Text => PartV::Text { text: block.buffer },
        KindV::Reasoning => PartV::Reasoning(
            ReasoningV {
                text: block.buffer,
                signature: block.signature,
                signature_origin: if block.signature is Some { signatures } else { None },
                redacted: false,
            },
        ),
        KindV::ToolCall { id, name, kind } => PartV::ToolCall(
            CallV {
                id,
                name: match name {
                    Some(name) => name,
                    None => Seq::empty(),
                },
                input: InputV { kind, raw: block.buffer },
                provider_metadata: block.metadata,
            },
        ),
        KindV::Opaque { kind } => PartV::Opaque { kind, data: block.data },
    }
}

/// Ends an open block in a phase that takes no more deltas.
pub open spec fn end_step(s: AssemblerV, id: Seq<char>, phase: Phase) -> Step {
    match locate(s.blocks, id, 0) {
        Some(at) if !s.completed && s.blocks[at].phase == Phase::Open => (
            with_block(s, id, BlockV { phase, ..s.blocks[at] }),
            seq![EventV::End { block: id, part: block_part(s.blocks[at], s.signatures) }],
        ),
        _ => (s, Seq::empty()),
    }
}

/// The ends of the open blocks, in order.
pub open spec fn closing(list: Seq<BlockV>, signatures: Option<Seq<char>>) -> Seq<EventV>
    decreases list.len(),
{
    if list.len() == 0 {
        Seq::empty()
    } else if list.last().phase == Phase::Open {
        closing(list.drop_last(), signatures).push(
            EventV::End { block: list.last().id, part: block_part(list.last(), signatures) },
        )
    } else {
        closing(list.drop_last(), signatures)
    }
}

/// Every open block closed.
pub open spec fn closed(list: Seq<BlockV>) -> Seq<BlockV> {
    Seq::new(
        list.len(),
        |i: int|
            if list[i].phase == Phase::Open {
                BlockV { phase: Phase::Closed, ..list[i] }
            } else {
                list[i]
            },
    )
}

/// The parts of the blocks that are content, in order.
pub open spec fn kept_parts(list: Seq<BlockV>, signatures: Option<Seq<char>>) -> Seq<PartV>
    decreases list.len(),
{
    if list.len() == 0 {
        Seq::empty()
    } else if list.last().phase == Phase::Discarded {
        kept_parts(list.drop_last(), signatures)
    } else {
        kept_parts(list.drop_last(), signatures).push(block_part(list.last(), signatures))
    }
}

/// The response the blocks add up to. A stream that named no reason to stop
/// was cut short.
pub open spec fn assembled(s: AssemblerV) -> ResponseV {
    finished(
        ResponseV {
            provider: s.provider,
            model: s.model,
            id: s.id,
            content: kept_parts(s.blocks, s.signatures),
            finish_reason: match s.finish {
                Some(reason) => reason,
                None => FinishV::Other("incomplete"@),
            },
            usage: s.usage,
            cost: s.cost,
            raw: s.raw,
            warnings: Seq::empty(),
        },
    )
}

/// Closes every block and ends the stream, once.
pub open spec fn complete_step(s: AssemblerV) -> Step {
    if s.completed {
        (s, Seq::empty())
    } else {
        (
            AssemblerV { blocks: closed(s.blocks), completed: true, ..s },
            closing(s.blocks, s.signatures).push(EventV::Ended { response: assembled(s) }),
        )
    }
}

/// Whether the stream called a tool.
pub open spec fn called(s: AssemblerV) -> bool {
    exists|i: int|
        0 <= i < s.blocks.len() && (#[trigger] s.blocks[i]).kind is ToolCall && s.blocks[i].phase
            != Phase::Discarded
}

/// An assembler that has seen nothing.
pub open spec fn begun(route: RouteV, signatures: Option<Seq<char>>) -> AssemblerV {
    AssemblerV {
        provider: route.provider,
        model: route.model,
        signatures,
        id: None,
        blocks: Seq::empty(),
        usage: TokenCounts::zero(),
        finish: None,
        cost: None,
        raw: None,
        completed: false,
    }
}

/// Appends one list of events to another.
pub fn extend(list: &mut Vec<StreamEvent>, more: Vec<StreamEvent>)
    ensures
        events(final(list)@) == events(old(list)@) + events(more@),
{
    let mut more: Vec<StreamEvent> = more;
    let ghost before = events(list@);
    let ghost added = events(more@);
    list.append(&mut more);
    assert(events(list@) =~= before + added);
}

/// Appends one event to a list.
pub fn emit(list: &mut Vec<StreamEvent>, event: StreamEvent)
    ensures
        events(final(list)@) == events(old(list)@).push(event@),
{
    let ghost before = events(list@);
    list.push(event);
    assert(events(list@) =~= before.push(event@));
}

/// No events.
pub fn silence() -> (r: Vec<StreamEvent>)
    ensures
        events(r@) == Seq::<EventV>::empty(),
{
    let r: Vec<StreamEvent> = Vec::new();
    assert(events(r@) =~= Seq::<EventV>::empty());
    r
}

/// Tells whether two kinds take the same sort of delta.
fn sorted_alike(a: &ContentBlockKind, b: &ContentBlockKind) -> (r: bool)
    ensures
        r == same_sort(a@, b@),
{
    match (a, b) {
        (ContentBlockKind::Text, ContentBlockKind::Text) => true,
        (ContentBlockKind::Reasoning, ContentBlockKind::Reasoning) => true,
        (ContentBlockKind::ToolCall { .. }, ContentBlockKind::ToolCall { .. }) => true,
        (ContentBlockKind::Opaque { .. }, ContentBlockKind::Opaque { .. }) => true,
        _ => false,
    }
}

/// Makes the delta that carries a fragment.
fn delta_event(kind: &ContentBlockKind, id: &ContentBlockId, text: &str) -> (r: StreamEvent)
    ensures
        r@ == delta(kind@, id@, text@),
{
    match kind {
        ContentBlockKind::Text => StreamEvent::TextDelta { id: id.copy(), text: text.to_owned() },
        ContentBlockKind::Reasoning => StreamEvent::ReasoningDelta {
            id: id.copy(),
            text: text.to_owned(),
        },
        _ => StreamEvent::ToolCallDelta { id: id.copy(), arguments: text.to_owned() },
    }
}

impl Block {
    /// The content part the block holds.
    fn part(&self, signatures: &Option<String>) -> (r: ContentPart)
        ensures
            r@ == block_part(self@, string_opt(*signatures)),
    {
        match &self.kind {
            ContentBlockKind::Text => ContentPart::Text { text: self.buffer.as_str().to_owned() },
            ContentBlockKind::Reasoning => ContentPart::Reasoning(
                ReasoningContent {
                    text: self.buffer.as_str().to_owned(),
                    signature: copy_opt(&self.signature),
                    signature_origin: if self.signature.is_some() {
                        copy_opt(signatures)
                    } else {
                        None
                    },
                    redacted: false,
                },
            ),
            ContentBlockKind::ToolCall { id, name, kind } => ContentPart::ToolCall(
                ToolCall {
                    id: id.as_str().to_owned(),
                    name: match name {
                        Some(name) => name.as_str().to_owned(),
                        None => String::new(),
                    },
                    input: ToolInput::from_wire(*kind, self.buffer.as_str().to_owned()),
                    provider_metadata: self.metadata.copy(),
                },
            ),
            ContentBlockKind::Opaque { kind } => ContentPart::Opaque {
                kind: kind.as_str().to_owned(),
                data: self.data.copy(),
            },
        }
    }
}

/// What `locate` finds is in the list and has the name.
pub proof fn lemma_locate(list: Seq<BlockV>, id: Seq<char>, from: int)
    requires
        0 <= from,
    ensures
        match locate(list, id, from) {
            Some(at) => from <= at < list.len() && list[at].id == id && forall|i: int|
                from <= i < at ==> (#[trigger] list[i]).id != id,
            None => forall|i: int| from <= i < list.len() ==> (#[trigger] list[i]).id != id,
        },
    decreases list.len() - from,
{
    if from < list.len() && list[from].id != id {
        lemma_locate(list, id, from + 1);
    }
}

/// A name that stands nowhere in a list stands at the end once it is pushed.
pub proof fn lemma_located_last(list: Seq<BlockV>, block: BlockV, from: int)
    requires
        0 <= from <= list.len(),
        locate(list, block.id, from) is None,
    ensures
        locate(list.push(block), block.id, from) == Some(list.len() as int),
    decreases list.len() - from,
{
    if from < list.len() {
        assert(list.push(block)[from] == list[from]);
        lemma_located_last(list, block, from + 1);
    }
}

impl StreamAssembler {
    /// An assembler that has seen nothing.
    pub fn new(route: &ResolvedRoute) -> (r: Self)
        ensures
            r@ == begun(route@, None),
    {
        let r: StreamAssembler = StreamAssembler {
            provider: route.provider.id.as_str().to_owned(),
            model: route.model.id.as_str().to_owned(),
            signatures: None,
            id: None,
            blocks: Vec::new(),
            usage: TokenCounts::none(),
            finish: None,
            cost: None,
            raw: None,
            completed: false,
        };
        assert(r@.blocks =~= Seq::<BlockV>::empty());
        r
    }

    /// Names the provider family the stream's signatures belong to.
    pub fn with_signatures(self, family: &str) -> (r: Self)
        ensures
            r@ == (AssemblerV { signatures: Some(family@), ..self@ }),
    {
        let mut assembler: StreamAssembler = self;
        assembler.signatures = Some(family.to_owned());
        assembler
    }

    /// Starts the stream, under the response's id.
    pub fn started(&mut self, id: Option<String>) -> (r: Vec<StreamEvent>)
        ensures
            (final(self)@, events(r@)) == started_step(old(self)@, string_opt(id)),
    {
        self.id = copy_opt(&id);
        let mut list: Vec<StreamEvent> = silence();
        if !self.completed {
            emit(&mut list, StreamEvent::Started { id });
            assert(events(list@) =~= seq![EventV::Started { id: string_opt(id) }]);
        }
        list
    }

    /// Names the response.
    pub fn set_id(&mut self, id: &str)
        ensures
            final(self)@ == (AssemblerV { id: Some(id@), ..old(self)@ }),
    {
        self.id = Some(id.to_owned());
    }

    /// Replaces the usage snapshot.
    pub fn usage(&mut self, usage: TokenCounts) -> (r: Vec<StreamEvent>)
        ensures
            (final(self)@, events(r@)) == usage_step(old(self)@, usage),
    {
        self.usage = usage;
        let mut list: Vec<StreamEvent> = silence();
        if !self.completed {
            emit(&mut list, StreamEvent::Usage { usage });
            assert(events(list@) =~= seq![EventV::Usage { usage }]);
        }
        list
    }

    /// Whether the stream ended.
    pub fn has_completed(&self) -> (r: bool)
        ensures
            r == self@.completed,
    {
        self.completed
    }

    /// Records why the model stopped.
    pub fn set_finish_reason(&mut self, reason: FinishReason)
        ensures
            final(self)@ == (AssemblerV { finish: Some(reason@), ..old(self)@ }),
    {
        self.finish = Some(reason);
    }

    /// Why the model stopped, once that is known.
    pub fn finish_reason(&self) -> (r: Option<FinishReason>)
        ensures
            finish_opt(r) == self@.finish,
    {
        match &self.finish {
            Some(reason) => Some(reason.copy()),
            None => None,
        }
    }

    /// Records what the call cost.
    pub fn set_cost(&mut self, cost: Cost)
        ensures
            final(self)@ == (AssemblerV { cost: Some(cost@), ..old(self)@ }),
    {
        self.cost = Some(cost);
    }

    /// Records the provider's own final document.
    pub fn set_raw(&mut self, raw: Json)
        ensures
            final(self)@ == (AssemblerV { raw: Some(raw@), ..old(self)@ }),
    {
        self.raw = Some(raw);
    }

    /// Where the block of a name stands.
    fn find(&self, id: &ContentBlockId) -> (r: Option<usize>)
        ensures
            match r {
                Some(at) => locate(self@.blocks, id@, 0) == Some(at as int) && at
                    < self@.blocks.len(),
                None => locate(self@.blocks, id@, 0) is None,
            },
    {
        let mut i: usize = 0;
        while i < self.blocks.len()
            invariant
                i <= self.blocks.len(),
                locate(self@.blocks, id@, 0) == locate(self@.blocks, id@, i as int),
            decreases self.blocks.len() - i,
        {
            assert(self@.blocks[i as int] == self.blocks@[i as int]@);
            if same(self.blocks[i].id.as_str(), id.as_str()) {
                return Some(i);
            }
            i = i + 1;
        }
        None
    }

    /// Where the block of a name stands, when it is open and of some kind.
    fn find_open(&self, id: &ContentBlockId, kind: &ContentBlockKind) -> (r: Option<usize>)
        ensures
            match r {
                Some(at) => takes(self@, id@, kind@) && locate(self@.blocks, id@, 0) == Some(
                    at as int,
                ) && at < self@.blocks.len(),
                None => !takes(self@, id@, kind@),
            },
    {
        match self.find(id) {
            Some(at) => {
                assert(self@.blocks[at as int] == self.blocks@[at as int]@);
                if !self.completed && self.blocks[at].phase == Phase::Open && sorted_alike(
                    &self.blocks[at].kind,
                    kind,
                ) {
                    Some(at)
                } else {
                    None
                }
            },
            None => None,
        }
    }

    /// Starts a block. Starting is idempotent: the events of a block that has
    /// started are empty, and so are all events of a stream that ended.
    pub fn start(&mut self, id: &ContentBlockId, kind: &ContentBlockKind) -> (r: Vec<StreamEvent>)
        ensures
            (final(self)@, events(r@)) == start_step(old(self)@, id@, kind@),
    {
        if self.completed || self.find(id).is_some() {
            return silence();
        }
        let ghost before = self@;
        self.blocks.push(
            Block {
                id: id.copy(),
                kind: kind.copy(),
                buffer: String::new(),
                signature: None,
                metadata: JsonObject::new(),
                data: Json::Null,
                phase: Phase::Open,
            },
        );
        assert(self@.blocks =~= before.blocks.push(fresh(id@, kind@)));
        let mut list: Vec<StreamEvent> = silence();
        emit(&mut list, StreamEvent::ContentBlockStart { id: id.copy(), kind: kind.copy() });
        assert(events(list@) =~= seq![EventV::Start { block: id@, kind: kind@ }]);
        list
    }

    /// Appends a fragment of some kind.
    fn append(&mut self, id: &ContentBlockId, kind: &ContentBlockKind, text: &str) -> (r: Vec<
        StreamEvent,
    >)
        ensures
            (final(self)@, events(r@)) == append_step(old(self)@, id@, kind@, text@),
    {
        let mut list: Vec<StreamEvent> = self.start(id, kind);
        let ghost started = self@;
        if let Some(at) = self.find_open(id, kind) {
            assert(self@.blocks[at as int] == self.blocks@[at as int]@);
            self.blocks[at].buffer.append(text);
            emit(&mut list, delta_event(kind, id, text));
            assert(self@.blocks =~= with_block(
                started,
                id@,
                BlockV {
                    buffer: block_of(started, id@).buffer + text@,
                    ..block_of(started, id@)
                },
            ).blocks);
        }
        list
    }

    /// Appends a text fragment.
    pub fn text(&mut self, id: &ContentBlockId, text: &str) -> (r: Vec<StreamEvent>)
        ensures
            (final(self)@, events(r@)) == append_step(old(self)@, id@, KindV::Text, text@),
    {
        self.append(id, &ContentBlockKind::Text, text)
    }

    /// Appends a reasoning fragment.
    pub fn reasoning(&mut self, id: &ContentBlockId, text: &str) -> (r: Vec<StreamEvent>)
        ensures
            (final(self)@, events(r@)) == append_step(old(self)@, id@, KindV::Reasoning, text@),
    {
        self.append(id, &ContentBlockKind::Reasoning, text)
    }

    /// Appends an argument fragment.
    pub fn arguments(&mut self, id: &ContentBlockId, text: &str) -> (r: Vec<StreamEvent>)
        ensures
            (final(self)@, events(r@)) == append_step(old(self)@, id@, fallback_call(id@), text@),
    {
        let kind: ContentBlockKind = ContentBlockKind::ToolCall {
            id: id.as_str().to_owned(),
            name: None,
            kind: ToolCallKind::Function,
        };
        self.append(id, &kind, text)
    }

    /// Records the signature of a reasoning block.
    pub fn signature(&mut self, id: &ContentBlockId, signature: &str) -> (r: Vec<StreamEvent>)
        ensures
            (final(self)@, events(r@)) == signature_step(old(self)@, id@, signature@),
    {
        let list: Vec<StreamEvent> = self.start(id, &ContentBlockKind::Reasoning);
        let ghost started = self@;
        if let Some(at) = self.find_open(id, &ContentBlockKind::Reasoning) {
            assert(self@.blocks[at as int] == self.blocks@[at as int]@);
            self.blocks[at].signature = Some(signature.to_owned());
            assert(self@.blocks =~= with_block(
                started,
                id@,
                BlockV { signature: Some(signature@), ..block_of(started, id@) },
            ).blocks);
        }
        list
    }

    /// Gives an open call block the identity its provider sent late.
    pub fn repair_tool_identity(&mut self, id: &ContentBlockId, identity: &ContentBlockKind)
        ensures
            final(self)@ == identity_step(old(self)@, id@, identity@),
    {
        if !matches!(identity, ContentBlockKind::ToolCall { .. }) {
            return ;
        }
        let ghost before = self@;
        if let Some(at) = self.find_open(id, identity) {
            assert(self@.blocks[at as int] == self.blocks@[at as int]@);
            self.blocks[at].kind = identity.copy();
            assert(self@.blocks =~= with_block(
                before,
                id@,
                BlockV { kind: identity@, ..block_of(before, id@) },
            ).blocks);
        }
    }

    /// Puts a provider's metadata on an open call block.
    pub fn provider_metadata(&mut self, id: &ContentBlockId, namespace: &str, value: Json)
        ensures
            final(self)@ == metadata_step(old(self)@, id@, namespace@, value@),
    {
        let kind: ContentBlockKind = ContentBlockKind::ToolCall {
            id: id.as_str().to_owned(),
            name: None,
            kind: ToolCallKind::Function,
        };
        let ghost before = self@;
        if let Some(at) = self.find_open(id, &kind) {
            assert(self@.blocks[at as int] == self.blocks@[at as int]@);
            let mut metadata: JsonObject = self.blocks[at].metadata.copy();
            metadata.insert(namespace, value);
            self.blocks[at].metadata = metadata;
            assert(self@.blocks =~= with_block(
                before,
                id@,
                BlockV {
                    metadata: block_of(before, id@).metadata.insert(namespace@, value@),
                    ..block_of(before, id@)
                },
            ).blocks);
        }
    }

    /// Sets the data of an open opaque block.
    pub fn set_opaque_data(&mut self, id: &ContentBlockId, data: Json)
        ensures
            final(self)@ == data_step(old(self)@, id@, data@),
    {
        let kind: ContentBlockKind = ContentBlockKind::Opaque { kind: String::new() };
        let ghost before = self@;
        if let Some(at) = self.find_open(id, &kind) {
            assert(self@.blocks[at as int] == self.blocks@[at as int]@);
            self.blocks[at].data = data;
            assert(self@.blocks =~= with_block(
                before,
                id@,
                BlockV { data: data@, ..block_of(before, id@) },
            ).blocks);
        }
    }

    /// Brings a block to its complete content.
    pub fn reconcile(&mut self, id: &ContentBlockId, kind: &ContentBlockKind, content: &str) -> (r:
        Vec<StreamEvent>)
        ensures
            (final(self)@, events(r@)) == reconcile_step(old(self)@, id@, kind@, content@),
    {
        let mut list: Vec<StreamEvent> = if content.is_empty() {
            silence()
        } else {
            self.start(id, kind)
        };
        let ghost started = self@;
        if let Some(at) = self.find_open(id, kind) {
            assert(self@.blocks[at as int] == self.blocks@[at as int]@);
            let held: &str = self.blocks[at].buffer.as_str();
            if starts_with(content, held) && !same(held, content) {
                emit(&mut list, delta_event(kind, id, after_prefix(content, held)));
            }
            self.blocks[at].buffer = content.to_owned();
            assert(self@.blocks =~= with_block(
                started,
                id@,
                BlockV { buffer: content@, ..block_of(started, id@) },
            ).blocks);
        }
        list
    }

    /// Ends an open block.
    fn close(&mut self, id: &ContentBlockId, phase: Phase) -> (r: Vec<StreamEvent>)
        ensures
            (final(self)@, events(r@)) == end_step(old(self)@, id@, phase),
    {
        let mut list: Vec<StreamEvent> = silence();
        let ghost before = self@;
        if let Some(at) = self.find(id) {
            assert(self@.blocks[at as int] == self.blocks@[at as int]@);
            if !self.completed && self.blocks[at].phase == Phase::Open {
                let part: ContentPart = self.blocks[at].part(&self.signatures);
                self.blocks[at].phase = phase;
                emit(&mut list, StreamEvent::ContentBlockEnd { id: id.copy(), part });
                assert(self@.blocks =~= with_block(
                    before,
                    id@,
                    BlockV { phase, ..block_of(before, id@) },
                ).blocks);
                assert(events(list@) =~= end_step(before, id@, phase).1);
            }
        }
        list
    }

    /// Ends a block, which then is content.
    pub fn end(&mut self, id: &ContentBlockId) -> (r: Vec<StreamEvent>)
        ensures
            (final(self)@, events(r@)) == end_step(old(self)@, id@, Phase::Closed),
    {
        self.close(id, Phase::Closed)
    }

    /// Ends a block that turned out to be no content.
    pub fn discard(&mut self, id: &ContentBlockId) -> (r: Vec<StreamEvent>)
        ensures
            (final(self)@, events(r@)) == end_step(old(self)@, id@, Phase::Discarded),
    {
        self.close(id, Phase::Discarded)
    }

    /// Whether the stream called a tool.
    pub fn has_tool_call(&self) -> (r: bool)
        ensures
            r == called(self@),
    {
        let mut i: usize = 0;
        while i < self.blocks.len()
            invariant
                i <= self.blocks.len(),
                forall|k: int|
                    0 <= k < i ==> !((#[trigger] self@.blocks[k]).kind is ToolCall
                        && self@.blocks[k].phase != Phase::Discarded),
            decreases self.blocks.len() - i,
        {
            assert(self@.blocks[i as int] == self.blocks@[i as int]@);
            if matches!(self.blocks[i].kind, ContentBlockKind::ToolCall { .. })
                && self.blocks[i].phase != Phase::Discarded {
                return true;
            }
            i = i + 1;
        }
        false
    }

    /// Closes every block and ends the stream. Completing is idempotent.
    #[verifier::loop_isolation(false)]
    pub fn complete(&mut self) -> (r: Vec<StreamEvent>)
        ensures
            (final(self)@, events(r@)) == complete_step(old(self)@),
    {
        let mut list: Vec<StreamEvent> = silence();
        if self.completed {
            return list;
        }
        let ghost before = self@;
        let ghost held = self@.blocks;
        let mut content: Vec<ContentPart> = Vec::new();
        let mut i: usize = 0;
        proof {
            lemma_ends(held);
            assert(parts(content@) =~= Seq::<PartV>::empty());
        }
        while i < self.blocks.len()
            invariant
                i <= self.blocks.len() == held.len(),
                self.provider == old(self).provider,
                self.model == old(self).model,
                self.signatures == old(self).signatures,
                self.id == old(self).id,
                self.usage == old(self).usage,
                self.finish == old(self).finish,
                self.cost == old(self).cost,
                self.raw == old(self).raw,
                self.completed == old(self).completed,
                forall|k: int| 0 <= k < i ==> self.blocks@[k]@ == closed(held)[k],
                forall|k: int| i <= k < held.len() ==> self.blocks@[k]@ == held[k],
                events(list@) == closing(held.take(i as int), before.signatures),
                parts(content@) == kept_parts(held.take(i as int), before.signatures),
            decreases self.blocks.len() - i,
        {
            proof {
                lemma_take(held, i as int);
            }
            let ghost current = self.blocks@;
            if self.blocks[i].phase == Phase::Open {
                let part: ContentPart = self.blocks[i].part(&self.signatures);
                emit(
                    &mut list,
                    StreamEvent::ContentBlockEnd { id: self.blocks[i].id.copy(), part },
                );
                self.blocks[i].phase = Phase::Closed;
            }
            if self.blocks[i].phase != Phase::Discarded {
                let ghost kept = content@;
                let part: ContentPart = self.blocks[i].part(&self.signatures);
                content.push(part);
                assert(parts(content@) =~= parts(kept).push(part@));
            }
            i = i + 1;
        }
        proof {
            lemma_ends(held);
            assert(blocks(self.blocks@) =~= closed(held));
        }
        self.completed = true;
        let mut response: Response = Response {
            provider: self.provider.as_str().to_owned(),
            model: self.model.as_str().to_owned(),
            id: copy_opt(&self.id),
            content,
            finish_reason: match &self.finish {
                Some(reason) => reason.copy(),
                None => FinishReason::Other("incomplete".to_owned()),
            },
            usage: self.usage,
            cost: match &self.cost {
                Some(cost) => Some(Cost { usd: cost.usd.clone(), source: cost.source }),
                None => None,
            },
            raw: match &self.raw {
                Some(raw) => Some(raw.copy()),
                None => None,
            },
            warnings: Vec::new(),
        };
        assert(response@.warnings =~= Seq::<WarningV>::empty());
        response.suppress_unfinished_tool_calls();
        emit(&mut list, StreamEvent::Ended { response: Box::new(response) });
        list
    }
}

} // verus!
