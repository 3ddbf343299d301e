//! A library for building LLM-powered agentic loops: message types, error
//! classification, conversation history, stream accumulation, tool naming,
//! policies, the decisions of each turn and of the tool batches within it,
//! session state, model connections and multi-agent bookkeeping.
pub mod json;
pub mod stream_error_kind;
pub mod types;

pub use stream_error_kind::StreamErrorKind;
pub use types::{AgentMessage, AssistantMessage, CacheHint, ContentBlock, CustomMessage, LlmMessage, ModelCapabilities, ModelSpec, StopReason, ThinkingLevel, ToolResultMessage, Usage, UserMessage};
pub mod text;
pub mod error;
pub mod classify;
pub mod context;
pub mod tool_name;
pub mod stream;
pub mod orchestrator;
pub mod tool;
pub mod noop_tool;
pub mod plugin;
pub mod loop_policy;
pub mod policy;
pub mod model_catalog;
pub mod stream_options;
pub mod otel;
pub mod metrics;
pub mod turn;
pub mod retry;
pub mod message_provider;
pub mod hooks;
pub mod dispatch;
pub mod keyed;
pub mod state;
pub mod overflow;
pub mod turn_commit;
pub mod relay;
pub mod connections;
pub mod mailbox;
