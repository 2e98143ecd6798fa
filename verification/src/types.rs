//! Requests, messages, content, responses, and stream events.

use vstd::prelude::*;
use vstd::string::*;

use crate::json::lemma_model;
use crate::json::number_held;
use crate::json::Json;
use crate::json::JsonObject;
use crate::json::JsonV;
use crate::json::NumberV;
use crate::serial::parse;
use crate::serial::parsed;
use crate::serial::print;
use crate::serial::printed;
use crate::serial::reads_back;
use crate::serial::NESTING;
use crate::text::string_opt;
use crate::text::text_opt;

verus! {

broadcast use {vstd::std_specs::vec::group_vec_axioms, vstd::seq::group_seq_axioms, lemma_model};

/// Who speaks in a message.
#[derive(Clone, Copy, Debug, PartialEq, Eq, Structural)]
pub enum Role {
    System,
    Developer,
    User,
    Assistant,
    Tool,
}

/// How hard the model should think.
#[derive(Clone, Copy, Debug, PartialEq, Eq, Structural)]
pub enum ReasoningEffort {
    Minimal,
    Low,
    Medium,
    High,
    Xhigh,
    Max,
}

/// The latency tier a caller asks for.
#[derive(Clone, Copy, Debug, PartialEq, Eq, Structural)]
pub enum Speed {
    Fast,
    Balanced,
    Economical,
}

/// Whether a tool takes JSON arguments or free text.
#[derive(Clone, Copy, Debug, PartialEq, Eq, Structural)]
pub enum ToolCallKind {
    Function,
    Custom,
}

/// The argument text of a function call, as the provider spelled it.
#[derive(Debug)]
pub struct ToolArguments {
    pub raw: String,
}

impl ToolArguments {
    /// Keeps a provider's own argument text.
    pub fn from_raw(raw: String) -> (r: Self)
        ensures
            r.raw == raw,
    {
        ToolArguments { raw }
    }
}

/// What a tool call hands its tool.
#[derive(Debug)]
pub enum ToolInput {
    Function(ToolArguments),
    Custom(String),
}

/// What a tool input is: its kind and the text on the wire.
#[verifier::ext_equal]
pub struct InputV {
    pub kind: ToolCallKind,
    pub raw: Seq<char>,
}

impl View for ToolInput {
    type V = InputV;

    open spec fn view(&self) -> InputV {
        match self {
            ToolInput::Function(arguments) => InputV {
                kind: ToolCallKind::Function,
                raw: arguments.raw@,
            },
            ToolInput::Custom(text) => InputV { kind: ToolCallKind::Custom, raw: text@ },
        }
    }
}

/// The JSON value of a tool input: a custom input is its text, and a function
/// input is the document its arguments spell. No arguments at all are an empty
/// object, and arguments that spell no document stay text.
pub open spec fn input_value(input: InputV) -> JsonV {
    if input.kind == ToolCallKind::Custom {
        JsonV::Text(input.raw)
    } else if input.raw.len() == 0 {
        JsonV::Object(Map::empty())
    } else {
        match parsed(input.raw) {
            Some(document) => document,
            None => JsonV::Text(input.raw),
        }
    }
}

impl ToolInput {
    /// Keeps the input text of a call as it came over the wire.
    pub fn from_wire(kind: ToolCallKind, raw: String) -> (r: Self)
        ensures
            r@ == (InputV { kind, raw: raw@ }),
    {
        match kind {
            ToolCallKind::Function => ToolInput::Function(ToolArguments::from_raw(raw)),
            ToolCallKind::Custom => ToolInput::Custom(raw),
        }
    }

    /// Which kind of call this input belongs to.
    pub fn kind(&self) -> (r: ToolCallKind)
        ensures
            r == self@.kind,
    {
        match self {
            ToolInput::Function(_) => ToolCallKind::Function,
            ToolInput::Custom(_) => ToolCallKind::Custom,
        }
    }

    /// The text on the wire.
    pub fn raw(&self) -> (r: &str)
        ensures
            r@ == self@.raw,
    {
        match self {
            ToolInput::Function(arguments) => arguments.raw.as_str(),
            ToolInput::Custom(text) => text.as_str(),
        }
    }

    /// The JSON value of the input.
    pub fn wire_value(&self) -> (r: Json)
        ensures
            r@ == input_value(self@),
    {
        match self {
            ToolInput::Custom(text) => Json::text(text.as_str()),
            ToolInput::Function(arguments) => {
                let raw: &str = arguments.raw.as_str();
                if raw.is_empty() {
                    return Json::Object(JsonObject::new());
                }
                match parse(raw) {
                    Ok(document) => document,
                    Err(_) => Json::text(raw),
                }
            },
        }
    }

    /// The same input again.
    pub fn copy(&self) -> (r: Self)
        ensures
            r@ == self@,
    {
        ToolInput::from_wire(self.kind(), self.raw().to_owned())
    }
}

/// A model's request to run a tool.
#[derive(Debug)]
pub struct ToolCall {
    pub id: String,
    pub name: String,
    pub input: ToolInput,
    /// What a provider needs back when the call is replayed, under the
    /// namespace of the codec that wrote it.
    pub provider_metadata: JsonObject,
}

#[verifier::ext_equal]
pub struct CallV {
    pub id: Seq<char>,
    pub name: Seq<char>,
    pub input: InputV,
    pub provider_metadata: Map<Seq<char>, JsonV>,
}

impl View for ToolCall {
    type V = CallV;

    open spec fn view(&self) -> CallV {
        CallV {
            id: self.id@,
            name: self.name@,
            input: self.input@,
            provider_metadata: self.provider_metadata@,
        }
    }
}

impl ToolCall {
    /// A function call with the given argument document. The input is the
    /// document again wherever its text reads back.
    pub fn function(id: &str, name: &str, arguments: &Json) -> (r: Self)
        ensures
            r@ == (CallV {
                id: id@,
                name: name@,
                input: InputV { kind: ToolCallKind::Function, raw: printed(arguments@) },
                provider_metadata: Map::empty(),
            }),
            reads_back(arguments@, NESTING as nat) ==> input_value(r@.input) == arguments@,
    {
        ToolCall {
            id: id.to_owned(),
            name: name.to_owned(),
            input: ToolInput::from_wire(ToolCallKind::Function, print(arguments)),
            provider_metadata: JsonObject::new(),
        }
    }

    /// A custom call with the given input text.
    pub fn custom(id: &str, name: &str, input: &str) -> (r: Self)
        ensures
            r@ == (CallV {
                id: id@,
                name: name@,
                input: InputV { kind: ToolCallKind::Custom, raw: input@ },
                provider_metadata: Map::empty(),
            }),
    {
        ToolCall {
            id: id.to_owned(),
            name: name.to_owned(),
            input: ToolInput::Custom(input.to_owned()),
            provider_metadata: JsonObject::new(),
        }
    }
}

/// Text a model thought rather than answered.
#[derive(Debug)]
pub struct ReasoningContent {
    pub text: String,
    pub signature: Option<String>,
    /// The provider family that minted the signature.
    pub signature_origin: Option<String>,
    pub redacted: bool,
}

#[verifier::ext_equal]
pub struct ReasoningV {
    pub text: Seq<char>,
    pub signature: Option<Seq<char>>,
    pub signature_origin: Option<Seq<char>>,
    pub redacted: bool,
}

impl View for ReasoningContent {
    type V = ReasoningV;

    open spec fn view(&self) -> ReasoningV {
        ReasoningV {
            text: self.text@,
            signature: string_opt(self.signature),
            signature_origin: string_opt(self.signature_origin),
            redacted: self.redacted,
        }
    }
}

/// Where media bytes come from.
#[derive(Debug)]
#[allow(inconsistent_fields)]
pub enum MediaSource {
    Base64 { data: String, media_type: String },
    Url { url: String, media_type: Option<String> },
}

#[allow(inconsistent_fields)]
#[verifier::ext_equal]
pub enum SourceV {
    Base64 { data: Seq<char>, media_type: Seq<char> },
    Url { url: Seq<char>, media_type: Option<Seq<char>> },
}

impl View for MediaSource {
    type V = SourceV;

    open spec fn view(&self) -> SourceV {
        match self {
            MediaSource::Base64 { data, media_type } => SourceV::Base64 {
                data: data@,
                media_type: media_type@,
            },
            MediaSource::Url { url, media_type } => SourceV::Url {
                url: url@,
                media_type: string_opt(*media_type),
            },
        }
    }
}

/// An image, with the detail level to read it at.
#[derive(Debug)]
pub struct ImageContent {
    pub source: MediaSource,
    pub detail: Option<String>,
}

/// An audio clip.
#[derive(Debug)]
pub struct AudioContent {
    pub source: MediaSource,
}

/// A document, with its file name.
#[derive(Debug)]
pub struct DocumentContent {
    pub source: MediaSource,
    pub name: Option<String>,
}

/// What a tool answered.
#[derive(Debug)]
pub struct ToolResult {
    pub tool_call_id: String,
    pub name: Option<String>,
    pub content: Vec<ContentPart>,
    pub is_error: bool,
}

#[verifier::ext_equal]
pub struct ResultV {
    pub tool_call_id: Seq<char>,
    pub name: Option<Seq<char>>,
    pub content: Seq<PartV>,
    pub is_error: bool,
}

/// One part of a message.
#[derive(Debug)]
pub enum ContentPart {
    Text { text: String },
    Json { value: Json },
    Image(ImageContent),
    Audio(AudioContent),
    Document(DocumentContent),
    Reasoning(ReasoningContent),
    ToolCall(ToolCall),
    ToolResult(ToolResult),
    /// Provider-native data to replay verbatim. The kind is the provider
    /// namespace, a dot, and the name of the data.
    Opaque { kind: String, data: Json },
    /// Content this library does not know.
    Unknown(Json),
}

#[verifier::ext_equal]
pub enum PartV {
    Text { text: Seq<char> },
    Json { value: JsonV },
    Image { source: SourceV, detail: Option<Seq<char>> },
    Audio { source: SourceV },
    Document { source: SourceV, name: Option<Seq<char>> },
    Reasoning(ReasoningV),
    ToolCall(CallV),
    ToolResult(ResultV),
    Opaque { kind: Seq<char>, data: JsonV },
    Unknown(JsonV),
}

impl ContentPart {
    /// What the part is.
    pub open spec fn model(self) -> PartV
        decreases self,
    {
        match self {
            ContentPart::Text { text } => PartV::Text { text: text@ },
            ContentPart::Json { value } => PartV::Json { value: value@ },
            ContentPart::Image(image) => PartV::Image {
                source: image.source@,
                detail: string_opt(image.detail),
            },
            ContentPart::Audio(audio) => PartV::Audio { source: audio.source@ },
            ContentPart::Document(document) => PartV::Document {
                source: document.source@,
                name: string_opt(document.name),
            },
            ContentPart::Reasoning(reasoning) => PartV::Reasoning(reasoning@),
            ContentPart::ToolCall(call) => PartV::ToolCall(call@),
            ContentPart::ToolResult(result) => PartV::ToolResult(
                ResultV {
                    tool_call_id: result.tool_call_id@,
                    name: string_opt(result.name),
                    content: Seq::new(
                        result.content@.len(),
                        |i: int|
                            if 0 <= i < result.content@.len() {
                                result.content@[i].model()
                            } else {
                                PartV::Text { text: Seq::empty() }
                            },
                    ),
                    is_error: result.is_error,
                },
            ),
            ContentPart::Opaque { kind, data } => PartV::Opaque { kind: kind@, data: data@ },
            ContentPart::Unknown(value) => PartV::Unknown(value@),
        }
    }
}

impl View for ContentPart {
    type V = PartV;

    open spec fn view(&self) -> PartV {
        self.model()
    }
}

/// What each part of a list is.
pub open spec fn parts(list: Seq<ContentPart>) -> Seq<PartV> {
    Seq::new(list.len(), |i: int| list[i]@)
}

impl View for ToolResult {
    type V = ResultV;

    open spec fn view(&self) -> ResultV {
        ResultV {
            tool_call_id: self.tool_call_id@,
            name: string_opt(self.name),
            content: parts(self.content@),
            is_error: self.is_error,
        }
    }
}

/// A result part is the result it holds.
pub broadcast proof fn lemma_result_part(part: ContentPart)
    ensures
        #![trigger part.model()]
        part matches ContentPart::ToolResult(result) ==> part.model() == PartV::ToolResult(result@),
{
    if let ContentPart::ToolResult(result) = part {
        assert(part.model()->ToolResult_0.content =~= parts(result.content@));
    }
}

/// The namespace of an opaque kind: what stands before its first dot.
pub open spec fn kind_namespace(kind: Seq<char>) -> Option<Seq<char>> {
    let dot = kind.index_of_first('.');
    match dot {
        Some(at) => Some(kind.take(at)),
        None => None,
    }
}

/// The namespace of an opaque part.
pub open spec fn opaque_namespace(part: PartV) -> Option<Seq<char>> {
    match part {
        PartV::Opaque { kind, .. } => kind_namespace(kind),
        _ => None,
    }
}

impl ContentPart {
    /// Provider-native data to replay under a kind.
    pub fn opaque(kind: &str, data: Json) -> (r: Self)
        ensures
            r@ == (PartV::Opaque { kind: kind@, data: data@ }),
    {
        ContentPart::Opaque { kind: kind.to_owned(), data }
    }

    /// The namespace of an opaque part: what stands before the first dot of
    /// its kind.
    #[verifier::loop_isolation(false)]
    pub fn opaque_namespace(&self) -> (r: Option<&str>)
        ensures
            text_opt(r) == opaque_namespace(self@),
    {
        match self {
            ContentPart::Opaque { kind, .. } => {
                let text: &str = kind.as_str();
                let len: usize = text.unicode_len();
                let mut i: usize = 0;
                while i < len
                    invariant
                        i <= len,
                        len == text@.len(),
                        forall|k: int| 0 <= k < i ==> text@[k] != '.',
                    decreases len - i,
                {
                    if text.get_char(i) == '.' {
                        proof {
                            text@.index_of_first_ensures('.');
                            assert(text@.contains('.'));
                            assert(text@.index_of_first('.')->0 == i);
                        }
                        let head: &str = text.substring_char(0, i);
                        assert(head@ =~= text@.take(i as int));
                        return Some(head);
                    }
                    i = i + 1;
                }
                proof {
                    text@.index_of_first_ensures('.');
                }
                None
            },
            _ => None,
        }
    }
}

/// One turn of a conversation.
#[derive(Debug)]
pub struct Message {
    pub role: Role,
    pub content: Vec<ContentPart>,
    pub name: Option<String>,
    /// The call a tool message answers.
    pub tool_call_id: Option<String>,
}

#[verifier::ext_equal]
pub struct MessageV {
    pub role: Role,
    pub content: Seq<PartV>,
    pub name: Option<Seq<char>>,
    pub tool_call_id: Option<Seq<char>>,
}

impl View for Message {
    type V = MessageV;

    open spec fn view(&self) -> MessageV {
        MessageV {
            role: self.role,
            content: parts(self.content@),
            name: string_opt(self.name),
            tool_call_id: string_opt(self.tool_call_id),
        }
    }
}

/// What each message of a list is.
pub open spec fn messages(list: Seq<Message>) -> Seq<MessageV> {
    Seq::new(list.len(), |i: int| list[i]@)
}

impl MessageV {
    /// Whether the message instructs the model rather than converses.
    pub open spec fn is_instruction(self) -> bool {
        self.role == Role::System || self.role == Role::Developer
    }
}

impl Message {
    /// Whether the message instructs the model rather than converses.
    pub fn is_instruction(&self) -> (r: bool)
        ensures
            r == self@.is_instruction(),
    {
        self.role == Role::System || self.role == Role::Developer
    }
}

/// What a tool takes.
#[derive(Debug)]
pub enum ToolDefinitionKind {
    Function { input_schema: Json },
    Custom { format: Json },
}

/// A tool the model may call.
#[derive(Debug)]
pub struct ToolDefinition {
    pub name: String,
    pub description: String,
    pub kind: ToolDefinitionKind,
}

#[verifier::ext_equal]
pub enum ToolKindV {
    Function { input_schema: JsonV },
    Custom { format: JsonV },
}

#[verifier::ext_equal]
pub struct ToolV {
    pub name: Seq<char>,
    pub description: Seq<char>,
    pub kind: ToolKindV,
}

impl View for ToolDefinition {
    type V = ToolV;

    open spec fn view(&self) -> ToolV {
        ToolV {
            name: self.name@,
            description: self.description@,
            kind: match self.kind {
                ToolDefinitionKind::Function { input_schema } => ToolKindV::Function {
                    input_schema: input_schema@,
                },
                ToolDefinitionKind::Custom { format } => ToolKindV::Custom { format: format@ },
            },
        }
    }
}

/// What each tool of a list is.
pub open spec fn tools(list: Seq<ToolDefinition>) -> Seq<ToolV> {
    Seq::new(list.len(), |i: int| list[i]@)
}

impl ToolDefinition {
    /// Whether the tool takes free text rather than JSON arguments.
    pub fn is_custom(&self) -> (r: bool)
        ensures
            r == (self@.kind is Custom),
    {
        matches!(self.kind, ToolDefinitionKind::Custom { .. })
    }
}

/// Which tools the model may or must call.
#[derive(Debug)]
pub enum ToolChoice {
    Auto,
    Never,
    Required,
    Tool { name: String },
}

#[verifier::ext_equal]
pub enum ChoiceV {
    Auto,
    Never,
    Required,
    Tool { name: Seq<char> },
}

impl View for ToolChoice {
    type V = ChoiceV;

    open spec fn view(&self) -> ChoiceV {
        match self {
            ToolChoice::Auto => ChoiceV::Auto,
            ToolChoice::Never => ChoiceV::Never,
            ToolChoice::Required => ChoiceV::Required,
            ToolChoice::Tool { name } => ChoiceV::Tool { name: name@ },
        }
    }
}

/// The shape the answer should have.
#[derive(Debug)]
pub enum ResponseFormat {
    Text,
    JsonObject,
    JsonSchema { name: String, schema: Json },
}

#[verifier::ext_equal]
pub enum FormatV {
    Text,
    JsonObject,
    JsonSchema { name: Seq<char>, schema: JsonV },
}

impl View for ResponseFormat {
    type V = FormatV;

    open spec fn view(&self) -> FormatV {
        match self {
            ResponseFormat::Text => FormatV::Text,
            ResponseFormat::JsonObject => FormatV::JsonObject,
            ResponseFormat::JsonSchema { name, schema } => FormatV::JsonSchema {
                name: name@,
                schema: schema@,
            },
        }
    }
}

/// How a request wants its prompt cache routed.
#[derive(Debug)]
pub enum CacheHint {
    Auto,
    Disabled,
    Key { key: String },
}

#[verifier::ext_equal]
pub enum HintV {
    Auto,
    Disabled,
    Key { key: Seq<char> },
}

impl View for CacheHint {
    type V = HintV;

    open spec fn view(&self) -> HintV {
        match self {
            CacheHint::Auto => HintV::Auto,
            CacheHint::Disabled => HintV::Disabled,
            CacheHint::Key { key } => HintV::Key { key: key@ },
        }
    }
}

/// One generation request, in no provider's terms.
#[derive(Debug)]
pub struct Request {
    pub messages: Vec<Message>,
    pub tools: Vec<ToolDefinition>,
    pub tool_choice: Option<ToolChoice>,
    pub response_format: Option<ResponseFormat>,
    pub max_output_tokens: Option<u64>,
    pub temperature: Option<serde_json::Number>,
    pub top_p: Option<serde_json::Number>,
    pub reasoning_effort: Option<ReasoningEffort>,
    pub speed: Option<Speed>,
    pub stop_sequences: Vec<String>,
    /// Tags for the request; a later entry replaces an earlier one.
    pub metadata: Vec<(String, String)>,
    /// Raw wire options, an object under each provider's id.
    pub provider_options: JsonObject,
    pub cache_hint: Option<CacheHint>,
}

#[verifier::ext_equal]
pub struct RequestV {
    pub messages: Seq<MessageV>,
    pub tools: Seq<ToolV>,
    pub tool_choice: Option<ChoiceV>,
    pub response_format: Option<FormatV>,
    pub max_output_tokens: Option<u64>,
    pub temperature: Option<NumberV>,
    pub top_p: Option<NumberV>,
    pub reasoning_effort: Option<ReasoningEffort>,
    pub speed: Option<Speed>,
    pub stop_sequences: Seq<Seq<char>>,
    pub metadata: Seq<(Seq<char>, Seq<char>)>,
    pub provider_options: Map<Seq<char>, JsonV>,
    pub cache_hint: Option<HintV>,
}

/// What each tag of a list is.
pub open spec fn tags(list: Seq<(String, String)>) -> Seq<(Seq<char>, Seq<char>)> {
    Seq::new(list.len(), |i: int| (list[i].0@, list[i].1@))
}

/// What an optional number holds.
pub open spec fn number_opt(number: Option<serde_json::Number>) -> Option<NumberV> {
    match number {
        Some(number) => Some(number_held(number)),
        None => None,
    }
}

impl View for Request {
    type V = RequestV;

    open spec fn view(&self) -> RequestV {
        RequestV {
            messages: messages(self.messages@),
            tools: tools(self.tools@),
            tool_choice: match self.tool_choice {
                Some(choice) => Some(choice@),
                None => None,
            },
            response_format: match self.response_format {
                Some(format) => Some(format@),
                None => None,
            },
            max_output_tokens: self.max_output_tokens,
            temperature: number_opt(self.temperature),
            top_p: number_opt(self.top_p),
            reasoning_effort: self.reasoning_effort,
            speed: self.speed,
            stop_sequences: crate::text::texts(self.stop_sequences@),
            metadata: tags(self.metadata@),
            provider_options: self.provider_options@,
            cache_hint: match self.cache_hint {
                Some(hint) => Some(hint@),
                None => None,
            },
        }
    }
}

/// The provider a request goes to.
#[derive(Debug)]
pub struct Provider {
    pub id: String,
    pub base_url: String,
    pub default_options: JsonObject,
}

/// The model a request goes to, with what it can do.
#[derive(Debug)]
pub struct Model {
    pub id: String,
    /// The name the provider knows the model by.
    pub api_model: String,
    pub caching: bool,
    pub cache_routing: bool,
    /// Whether the model takes named thinking levels.
    pub reasoning_effort_levels: bool,
    /// Whether the model takes explicit cache breakpoints.
    pub cache_breakpoints: bool,
}

/// Where a request goes.
#[derive(Debug)]
pub struct ResolvedRoute {
    pub provider: Provider,
    pub model: Model,
}

#[verifier::ext_equal]
pub struct RouteV {
    pub provider: Seq<char>,
    pub base_url: Seq<char>,
    pub default_options: Map<Seq<char>, JsonV>,
    pub model: Seq<char>,
    pub api_model: Seq<char>,
    pub caching: bool,
    pub cache_routing: bool,
    pub reasoning_effort_levels: bool,
    pub cache_breakpoints: bool,
}

impl View for ResolvedRoute {
    type V = RouteV;

    open spec fn view(&self) -> RouteV {
        RouteV {
            provider: self.provider.id@,
            base_url: self.provider.base_url@,
            default_options: self.provider.default_options@,
            model: self.model.id@,
            api_model: self.model.api_model@,
            caching: self.model.caching,
            cache_routing: self.model.cache_routing,
            reasoning_effort_levels: self.model.reasoning_effort_levels,
            cache_breakpoints: self.model.cache_breakpoints,
        }
    }
}

impl ResolvedRoute {
    /// The same route again.
    pub fn copy(&self) -> (r: Self)
        ensures
            r@ == self@,
    {
        ResolvedRoute {
            provider: Provider {
                id: self.provider.id.as_str().to_owned(),
                base_url: self.provider.base_url.as_str().to_owned(),
                default_options: self.provider.default_options.copy(),
            },
            model: Model {
                id: self.model.id.as_str().to_owned(),
                api_model: self.model.api_model.as_str().to_owned(),
                caching: self.model.caching,
                cache_routing: self.model.cache_routing,
                reasoning_effort_levels: self.model.reasoning_effort_levels,
                cache_breakpoints: self.model.cache_breakpoints,
            },
        }
    }
}

/// A request with the route it takes.
#[derive(Debug)]
pub struct ResolvedCall {
    pub request: Request,
    pub route: ResolvedRoute,
}

} // verus!
