//! What the loop hands to listeners and hooks: the incremental updates of a
//! streaming response, the context and actions of post-turn hooks, and the
//! copies of messages kept for pause checkpoints.
use vstd::prelude::*;

use crate::stream::AssistantMessageEvent;
use crate::types::{AgentMessage, AgentMessageV, AssistantMessage, ToolResultMessage, Usage};

verus! {

/// A fragment appended to one content block of the streaming message.
#[derive(Debug, Clone)]
pub enum AssistantMessageDelta {
    /// An appended text fragment.
    Text { content_index: usize, delta: String },
    /// An appended reasoning fragment.
    Thinking { content_index: usize, delta: String },
    /// An appended JSON argument fragment for a tool call.
    ToolCall { content_index: usize, delta: String },
}

/// The delta a stream event carries, if it is a delta event.
pub open spec fn delta_spec(e: &AssistantMessageEvent) -> Option<(u8, usize, Seq<char>)> {
    match e {
        AssistantMessageEvent::TextDelta { content_index, delta } => Some((0u8, *content_index, delta@)),
        AssistantMessageEvent::ThinkingDelta { content_index, delta } => Some((1u8, *content_index, delta@)),
        AssistantMessageEvent::ToolCallDelta { content_index, delta } => Some((2u8, *content_index, delta@)),
        _ => None,
    }
}

pub open spec fn delta_view(d: AssistantMessageDelta) -> (u8, usize, Seq<char>) {
    match d {
        AssistantMessageDelta::Text { content_index, delta } => (0u8, content_index, delta@),
        AssistantMessageDelta::Thinking { content_index, delta } => (1u8, content_index, delta@),
        AssistantMessageDelta::ToolCall { content_index, delta } => (2u8, content_index, delta@),
    }
}

/// The update forwarded for a stream event: text, thinking and tool-call
/// fragments are forwarded with their block index; other events are not.
pub fn delta_of(event: &AssistantMessageEvent) -> (r: Option<AssistantMessageDelta>)
    ensures
        match delta_spec(event) {
            Some(d) => r matches Some(x) && delta_view(x) == d,
            None => r is None,
        },
{
    match event {
        AssistantMessageEvent::TextDelta { content_index, delta } => Some(
            AssistantMessageDelta::Text { content_index: *content_index, delta: delta.clone() },
        ),
        AssistantMessageEvent::ThinkingDelta { content_index, delta } => Some(
            AssistantMessageDelta::Thinking { content_index: *content_index, delta: delta.clone() },
        ),
        AssistantMessageEvent::ToolCallDelta { content_index, delta } => Some(
            AssistantMessageDelta::ToolCall { content_index: *content_index, delta: delta.clone() },
        ),
        _ => None,
    }
}

/// The messages of a history that can be duplicated, in order: custom
/// messages that cannot be copied are left out.
pub open spec fn copyable(msgs: Seq<AgentMessageV>) -> Seq<AgentMessageV>
    decreases msgs.len(),
{
    if msgs.len() == 0 {
        msgs
    } else {
        let init = copyable(msgs.drop_last());
        match msgs.last() {
            AgentMessageV::Custom(c) => if c.cloneable {
                init.push(msgs.last())
            } else {
                init
            },
            _ => init.push(msgs.last()),
        }
    }
}

/// Copies of `messages`, leaving out the custom messages that cannot be
/// duplicated.
pub fn clone_messages(messages: &[AgentMessage]) -> (r: Vec<AgentMessage>)
    ensures
        r@.map_values(|m: AgentMessage| m@) == copyable(messages@.map_values(|m: AgentMessage| m@)),
{
    let ghost all = messages@.map_values(|m: AgentMessage| m@);
    let mut out: Vec<AgentMessage> = Vec::new();
    let mut i: usize = 0;
    while i < messages.len()
        invariant
            i <= messages@.len(),
            all == messages@.map_values(|m: AgentMessage| m@),
            out@.map_values(|m: AgentMessage| m@) == copyable(all.take(i as int)),
        decreases messages@.len() - i,
    {
        assert(all.take(i + 1).drop_last() =~= all.take(i as int));
        match &messages[i] {
            AgentMessage::Llm(l) => {
                out.push(AgentMessage::Llm(l.clone()));
                assert(out@.map_values(|m: AgentMessage| m@) =~= copyable(all.take(i as int)).push(all[i as int]));
            },
            AgentMessage::Custom(c) => {
                match c.clone_box() {
                    Some(copy) => {
                        out.push(AgentMessage::Custom(copy));
                        assert(out@.map_values(|m: AgentMessage| m@) =~= copyable(all.take(i as int)).push(all[i as int]));
                    },
                    None => {},
                }
            },
        }
        i = i + 1;
    }
    assert(all.take(messages@.len() as int) =~= all);
    out
}

/// What the loop tells a post-turn hook about the completed turn.
#[derive(Debug)]
pub struct PostTurnContext<'a> {
    /// Zero-based index of the completed turn.
    pub turn_index: usize,
    /// The assistant message of the completed turn.
    pub assistant_message: &'a AssistantMessage,
    /// Tool results of this turn (empty when no tool was called).
    pub tool_results: &'a [ToolResultMessage],
    /// Accumulated token usage so far.
    pub accumulated_usage: &'a Usage,
    /// The whole conversation history at this point.
    pub messages: &'a [AgentMessage],
}

/// What a post-turn hook asks of the loop.
#[derive(Debug)]
pub enum PostTurnAction {
    /// Continue normally.
    Continue,
    /// Stop the loop, with an optional reason.
    Stop(Option<String>),
    /// Add messages to the conversation before the next turn.
    InjectMessages(Vec<AgentMessage>),
}

} // verus!
