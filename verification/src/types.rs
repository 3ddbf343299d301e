//! Core message and model types shared by every part of the agent.
use vstd::prelude::*;

use crate::json::{json_clone, json_eq, json_equal};
use crate::stream_error_kind::StreamErrorKind;

verus! {

/// Why a model response ended.
#[derive(Debug, Clone, Copy, PartialEq, Eq, Structural)]
pub enum StopReason {
    /// The model finished its turn normally.
    Stop,
    /// The output token limit was hit.
    Length,
    /// The model asked for tool calls.
    ToolUse,
    /// The turn was cancelled.
    Aborted,
    /// The provider reported an error.
    Error,
    /// The agent handed the conversation to another agent.
    Transfer,
}

/// Requested depth of model reasoning.
#[derive(Debug, Clone, Copy, PartialEq, Eq, Structural)]
pub enum ThinkingLevel {
    Off,
    Minimal,
    Low,
    Medium,
    High,
    ExtraHigh,
}

/// Provider-side prompt-cache annotation attached to a message.
#[derive(Debug, Clone, Copy, PartialEq, Eq, Structural)]
pub enum CacheHint {
    /// Write the prefix ending at this message into the cache.
    Write,
    /// Read the prefix ending at this message from the cache.
    Read,
}

/// Token usage of one or more model calls.
#[derive(Debug, Clone, Copy, PartialEq, Eq, Structural)]
pub struct Usage {
    pub input: u64,
    pub output: u64,
    pub cache_read: u64,
    pub cache_write: u64,
    pub total: u64,
}

impl Usage {
    /// Usage with every counter at zero.
    pub fn zero() -> (r: Self)
        ensures
            r == Usage::spec_zero(),
    {
        Usage { input: 0, output: 0, cache_read: 0, cache_write: 0, total: 0 }
    }

    pub open spec fn spec_zero() -> Self {
        Usage { input: 0, output: 0, cache_read: 0, cache_write: 0, total: 0 }
    }

    /// Whether adding `other` counter by counter stays within `u64`.
    pub open spec fn can_add(self, other: Usage) -> bool {
        &&& self.input + other.input <= u64::MAX
        &&& self.output + other.output <= u64::MAX
        &&& self.cache_read + other.cache_read <= u64::MAX
        &&& self.cache_write + other.cache_write <= u64::MAX
        &&& self.total + other.total <= u64::MAX
    }

    /// Counter-by-counter sum.
    pub open spec fn spec_add(self, other: Usage) -> Usage {
        Usage {
            input: (self.input + other.input) as u64,
            output: (self.output + other.output) as u64,
            cache_read: (self.cache_read + other.cache_read) as u64,
            cache_write: (self.cache_write + other.cache_write) as u64,
            total: (self.total + other.total) as u64,
        }
    }

    /// Add `other` into `self`, counter by counter.
    pub fn add_assign(&mut self, other: &Usage)
        requires
            old(self).can_add(*other),
        ensures
            *final(self) == old(self).spec_add(*other),
    {
        self.input = self.input + other.input;
        self.output = self.output + other.output;
        self.cache_read = self.cache_read + other.cache_read;
        self.cache_write = self.cache_write + other.cache_write;
        self.total = self.total + other.total;
    }
}

impl Default for Usage {
    fn default() -> (r: Self)
        ensures
            r == Usage::spec_zero(),
    {
        Usage::zero()
    }
}

pub open spec fn opt_view(o: Option<String>) -> Option<Seq<char>> {
    match o {
        Some(s) => Some(s@),
        None => None,
    }
}

pub fn clone_opt_string(s: &Option<String>) -> (r: Option<String>)
    ensures
        opt_view(r) == opt_view(*s),
{
    match s {
        Some(x) => Some(x.clone()),
        None => None,
    }
}

pub fn opt_string_eq(a: &Option<String>, b: &Option<String>) -> (r: bool)
    ensures
        r == (opt_view(*a) == opt_view(*b)),
{
    match (a, b) {
        (Some(x), Some(y)) => x.eq(y),
        (None, None) => true,
        _ => false,
    }
}

/// One block of message content.
#[derive(Debug)]
pub enum ContentBlock {
    /// Plain text.
    Text { text: String },
    /// Model reasoning, with an optional provider verification signature.
    Thinking { thinking: String, signature: Option<String> },
    /// A tool call. `partial_json` is `Some` while the argument JSON is still
    /// being streamed (or when it could not be completed).
    ToolCall {
        id: String,
        name: String,
        arguments: serde_json::Value,
        partial_json: Option<String>,
    },
}

/// The mathematical content of a [`ContentBlock`].
pub enum ContentBlockV {
    Text { text: Seq<char> },
    Thinking { thinking: Seq<char>, signature: Option<Seq<char>> },
    ToolCall {
        id: Seq<char>,
        name: Seq<char>,
        arguments: serde_json::Value,
        partial_json: Option<Seq<char>>,
    },
}

impl View for ContentBlock {
    type V = ContentBlockV;

    open spec fn view(&self) -> ContentBlockV {
        match self {
            ContentBlock::Text { text } => ContentBlockV::Text { text: text@ },
            ContentBlock::Thinking { thinking, signature } => ContentBlockV::Thinking {
                thinking: thinking@,
                signature: opt_view(*signature),
            },
            ContentBlock::ToolCall { id, name, arguments, partial_json } => ContentBlockV::ToolCall {
                id: id@,
                name: name@,
                arguments: *arguments,
                partial_json: opt_view(*partial_json),
            },
        }
    }
}

impl Clone for ContentBlock {
    fn clone(&self) -> (r: Self)
        ensures
            r@ == self@,
    {
        match self {
            ContentBlock::Text { text } => ContentBlock::Text { text: text.clone() },
            ContentBlock::Thinking { thinking, signature } => ContentBlock::Thinking {
                thinking: thinking.clone(),
                signature: clone_opt_string(signature),
            },
            ContentBlock::ToolCall { id, name, arguments, partial_json } => ContentBlock::ToolCall {
                id: id.clone(),
                name: name.clone(),
                arguments: json_clone(arguments),
                partial_json: clone_opt_string(partial_json),
            },
        }
    }
}

impl ContentBlock {
    /// Whether this block is a tool call.
    pub fn is_tool_call(&self) -> (r: bool)
        ensures
            r == (self@ is ToolCall),
    {
        match self {
            ContentBlock::ToolCall { .. } => true,
            _ => false,
        }
    }

    /// Structural equality of two content blocks, comparing tool-call
    /// arguments with JSON equality.
    pub fn same_as(&self, other: &ContentBlock) -> (r: bool)
        ensures
            r == same_block(self@, other@),
            self@ == other@ ==> r,
    {
        match (self, other) {
            (ContentBlock::Text { text: a }, ContentBlock::Text { text: b }) => a.eq(b),
            (
                ContentBlock::Thinking { thinking: a, signature: sa },
                ContentBlock::Thinking { thinking: b, signature: sb },
            ) => a.eq(b) && opt_string_eq(sa, sb),
            (
                ContentBlock::ToolCall { id: ia, name: na, arguments: aa, partial_json: pa },
                ContentBlock::ToolCall { id: ib, name: nb, arguments: ab, partial_json: pb },
            ) => ia.eq(ib) && na.eq(nb) && json_eq(aa, ab) && opt_string_eq(pa, pb),
            _ => false,
        }
    }
}

/// Two blocks are the same: same kind and fields, the arguments of tool
/// calls compared with JSON equality.
pub open spec fn same_block(a: ContentBlockV, b: ContentBlockV) -> bool {
    match (a, b) {
        (ContentBlockV::Text { text: x }, ContentBlockV::Text { text: y }) => x == y,
        (
            ContentBlockV::Thinking { thinking: x, signature: sx },
            ContentBlockV::Thinking { thinking: y, signature: sy },
        ) => x == y && sx == sy,
        (
            ContentBlockV::ToolCall { id: ia, name: na, arguments: aa, partial_json: pa },
            ContentBlockV::ToolCall { id: ib, name: nb, arguments: ab, partial_json: pb },
        ) => ia == ib && na == nb && json_equal(aa, ab) && pa == pb,
        _ => false,
    }
}

pub open spec fn blocks_view(v: Seq<ContentBlock>) -> Seq<ContentBlockV> {
    v.map_values(|b: ContentBlock| b@)
}

/// Clone a list of content blocks.
pub fn clone_blocks(v: &Vec<ContentBlock>) -> (r: Vec<ContentBlock>)
    ensures
        blocks_view(r@) == blocks_view(v@),
{
    let mut r: Vec<ContentBlock> = Vec::new();
    let mut i: usize = 0;
    while i < v.len()
        invariant
            i <= v.len(),
            r@.len() == i,
            forall|j: int| 0 <= j < i ==> (#[trigger] r@[j])@ == v@[j]@,
        decreases v.len() - i,
    {
        let c = v[i].clone();
        r.push(c);
        i = i + 1;
    }
    assert(blocks_view(r@) =~= blocks_view(v@));
    r
}

/// A message written by the user.
#[derive(Debug)]
pub struct UserMessage {
    pub content: Vec<ContentBlock>,
    pub timestamp: u64,
    pub cache_hint: Option<CacheHint>,
}

pub struct UserMessageV {
    pub content: Seq<ContentBlockV>,
    pub timestamp: u64,
    pub cache_hint: Option<CacheHint>,
}

impl View for UserMessage {
    type V = UserMessageV;

    open spec fn view(&self) -> UserMessageV {
        UserMessageV {
            content: blocks_view(self.content@),
            timestamp: self.timestamp,
            cache_hint: self.cache_hint,
        }
    }
}

impl Clone for UserMessage {
    fn clone(&self) -> (r: Self)
        ensures
            r@ == self@,
    {
        UserMessage {
            content: clone_blocks(&self.content),
            timestamp: self.timestamp,
            cache_hint: self.cache_hint,
        }
    }
}

/// A message produced by the model.
#[derive(Debug)]
pub struct AssistantMessage {
    pub content: Vec<ContentBlock>,
    pub provider: String,
    pub model_id: String,
    pub usage: Usage,
    pub stop_reason: StopReason,
    pub error_message: Option<String>,
    pub error_kind: Option<StreamErrorKind>,
    pub timestamp: u64,
    pub cache_hint: Option<CacheHint>,
}

pub struct AssistantMessageV {
    pub content: Seq<ContentBlockV>,
    pub provider: Seq<char>,
    pub model_id: Seq<char>,
    pub usage: Usage,
    pub stop_reason: StopReason,
    pub error_message: Option<Seq<char>>,
    pub error_kind: Option<StreamErrorKind>,
    pub timestamp: u64,
    pub cache_hint: Option<CacheHint>,
}

impl View for AssistantMessage {
    type V = AssistantMessageV;

    open spec fn view(&self) -> AssistantMessageV {
        AssistantMessageV {
            content: blocks_view(self.content@),
            provider: self.provider@,
            model_id: self.model_id@,
            usage: self.usage,
            stop_reason: self.stop_reason,
            error_message: opt_view(self.error_message),
            error_kind: self.error_kind,
            timestamp: self.timestamp,
            cache_hint: self.cache_hint,
        }
    }
}

impl Clone for AssistantMessage {
    fn clone(&self) -> (r: Self)
        ensures
            r@ == self@,
    {
        AssistantMessage {
            content: clone_blocks(&self.content),
            provider: self.provider.clone(),
            model_id: self.model_id.clone(),
            usage: self.usage,
            stop_reason: self.stop_reason,
            error_message: clone_opt_string(&self.error_message),
            error_kind: self.error_kind,
            timestamp: self.timestamp,
            cache_hint: self.cache_hint,
        }
    }
}

/// The result of one tool call, sent back to the model.
#[derive(Debug)]
pub struct ToolResultMessage {
    pub tool_call_id: String,
    pub content: Vec<ContentBlock>,
    pub is_error: bool,
    pub timestamp: u64,
}

pub struct ToolResultMessageV {
    pub tool_call_id: Seq<char>,
    pub content: Seq<ContentBlockV>,
    pub is_error: bool,
    pub timestamp: u64,
}

impl View for ToolResultMessage {
    type V = ToolResultMessageV;

    open spec fn view(&self) -> ToolResultMessageV {
        ToolResultMessageV {
            tool_call_id: self.tool_call_id@,
            content: blocks_view(self.content@),
            is_error: self.is_error,
            timestamp: self.timestamp,
        }
    }
}

impl Clone for ToolResultMessage {
    fn clone(&self) -> (r: Self)
        ensures
            r@ == self@,
    {
        ToolResultMessage {
            tool_call_id: self.tool_call_id.clone(),
            content: clone_blocks(&self.content),
            is_error: self.is_error,
            timestamp: self.timestamp,
        }
    }
}

/// A message the model can see.
#[derive(Debug)]
pub enum LlmMessage {
    User(UserMessage),
    Assistant(AssistantMessage),
    ToolResult(ToolResultMessage),
}

pub enum LlmMessageV {
    User(UserMessageV),
    Assistant(AssistantMessageV),
    ToolResult(ToolResultMessageV),
}

impl View for LlmMessage {
    type V = LlmMessageV;

    open spec fn view(&self) -> LlmMessageV {
        match self {
            LlmMessage::User(m) => LlmMessageV::User(m@),
            LlmMessage::Assistant(m) => LlmMessageV::Assistant(m@),
            LlmMessage::ToolResult(m) => LlmMessageV::ToolResult(m@),
        }
    }
}

impl Clone for LlmMessage {
    fn clone(&self) -> (r: Self)
        ensures
            r@ == self@,
    {
        match self {
            LlmMessage::User(m) => LlmMessage::User(m.clone()),
            LlmMessage::Assistant(m) => LlmMessage::Assistant(m.clone()),
            LlmMessage::ToolResult(m) => LlmMessage::ToolResult(m.clone()),
        }
    }
}

/// An application-defined message that the model does not see (UI notes,
/// bookkeeping records). Some custom messages cannot be duplicated; those
/// report `cloneable == false`.
#[derive(Debug)]
pub struct CustomMessage {
    pub kind: String,
    pub payload: String,
    pub cloneable: bool,
}

pub struct CustomMessageV {
    pub kind: Seq<char>,
    pub payload: Seq<char>,
    pub cloneable: bool,
}

impl View for CustomMessage {
    type V = CustomMessageV;

    open spec fn view(&self) -> CustomMessageV {
        CustomMessageV { kind: self.kind@, payload: self.payload@, cloneable: self.cloneable }
    }
}

impl CustomMessage {
    /// A copy of this message, or `None` when it cannot be duplicated.
    pub fn clone_box(&self) -> (r: Option<CustomMessage>)
        ensures
            r is Some <==> self.cloneable,
            r matches Some(c) ==> c@ == self@,
    {
        if self.cloneable {
            Some(CustomMessage {
                kind: self.kind.clone(),
                payload: self.payload.clone(),
                cloneable: true,
            })
        } else {
            None
        }
    }
}

/// Anything that can stand in the conversation history.
#[derive(Debug)]
pub enum AgentMessage {
    Llm(LlmMessage),
    Custom(CustomMessage),
}

pub enum AgentMessageV {
    Llm(LlmMessageV),
    Custom(CustomMessageV),
}

impl View for AgentMessage {
    type V = AgentMessageV;

    open spec fn view(&self) -> AgentMessageV {
        match self {
            AgentMessage::Llm(m) => AgentMessageV::Llm(m@),
            AgentMessage::Custom(c) => AgentMessageV::Custom(c@),
        }
    }
}

pub open spec fn messages_view(v: Seq<AgentMessage>) -> Seq<AgentMessageV> {
    v.map_values(|m: AgentMessage| m@)
}

/// What a model can do, as declared by its catalog entry.
#[derive(Debug, Clone, Copy, PartialEq, Eq, Structural)]
pub struct ModelCapabilities {
    pub supports_thinking: bool,
    pub supports_vision: bool,
    pub supports_tool_use: bool,
    pub supports_streaming: bool,
    pub supports_structured_output: bool,
    pub max_context_window: Option<u64>,
    pub max_output_tokens: Option<u64>,
}

impl ModelCapabilities {
    pub open spec fn spec_none() -> Self {
        ModelCapabilities {
            supports_thinking: false,
            supports_vision: false,
            supports_tool_use: false,
            supports_streaming: false,
            supports_structured_output: false,
            max_context_window: None,
            max_output_tokens: None,
        }
    }

    /// Capabilities with nothing supported and no limits known.
    pub fn none() -> (r: Self)
        ensures
            r == Self::spec_none(),
    {
        ModelCapabilities {
            supports_thinking: false,
            supports_vision: false,
            supports_tool_use: false,
            supports_streaming: false,
            supports_structured_output: false,
            max_context_window: None,
            max_output_tokens: None,
        }
    }
}

impl Default for ModelCapabilities {
    fn default() -> (r: Self)
        ensures
            r == Self::spec_none(),
    {
        Self::none()
    }
}

/// Which model to call, at which provider, and how.
#[derive(Debug)]
pub struct ModelSpec {
    pub provider: String,
    pub model_id: String,
    pub thinking_level: ThinkingLevel,
    pub capabilities: Option<ModelCapabilities>,
}

pub struct ModelSpecV {
    pub provider: Seq<char>,
    pub model_id: Seq<char>,
    pub thinking_level: ThinkingLevel,
    pub capabilities: Option<ModelCapabilities>,
}

impl View for ModelSpec {
    type V = ModelSpecV;

    open spec fn view(&self) -> ModelSpecV {
        ModelSpecV {
            provider: self.provider@,
            model_id: self.model_id@,
            thinking_level: self.thinking_level,
            capabilities: self.capabilities,
        }
    }
}

impl Clone for ModelSpec {
    fn clone(&self) -> (r: Self)
        ensures
            r@ == self@,
    {
        ModelSpec {
            provider: self.provider.clone(),
            model_id: self.model_id.clone(),
            thinking_level: self.thinking_level,
            capabilities: self.capabilities,
        }
    }
}

impl ModelSpec {
    /// A model spec with thinking off and no declared capabilities.
    pub fn new(provider: &str, model_id: &str) -> (r: Self)
        ensures
            r@ == (ModelSpecV {
                provider: provider@,
                model_id: model_id@,
                thinking_level: ThinkingLevel::Off,
                capabilities: None,
            }),
    {
        ModelSpec {
            provider: provider.to_owned(),
            model_id: model_id.to_owned(),
            thinking_level: ThinkingLevel::Off,
            capabilities: None,
        }
    }

    /// The same spec with the given thinking level.
    pub fn with_thinking_level(self, level: ThinkingLevel) -> (r: Self)
        ensures
            r@ == (ModelSpecV { thinking_level: level, ..self@ }),
    {
        ModelSpec { thinking_level: level, ..self }
    }

    /// The same spec with the given capabilities declared.
    pub fn with_capabilities(self, capabilities: ModelCapabilities) -> (r: Self)
        ensures
            r@ == (ModelSpecV { capabilities: Some(capabilities), ..self@ }),
    {
        ModelSpec { capabilities: Some(capabilities), ..self }
    }

    /// The declared capabilities, or none at all when nothing is declared.
    pub fn capabilities(&self) -> (r: ModelCapabilities)
        ensures
            r == (match self.capabilities {
                Some(c) => c,
                None => ModelCapabilities::spec_none(),
            }),
    {
        match self.capabilities {
            Some(c) => c,
            None => ModelCapabilities::none(),
        }
    }
}

} // verus!
