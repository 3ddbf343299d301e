//! The state the agent loop threads through its turns, and the decisions of
//! a turn and of the loop around it: what happens to pending messages, how a
//! failed turn is recorded, which tool calls a reply asks for, and where the
//! loop goes after each turn, each post-loop verdict and each follow-up poll.
use std::sync::Arc;

use vstd::prelude::*;

use crate::classify::now_timestamp;
use crate::context::{llm_views, ContextMessages};
use crate::metrics::ToolExecMetrics;
use crate::policy::PolicyVerdict;
use crate::state::{SessionState, StateDelta};
use crate::stream::{count_needing_fix, fixed_block, sanitize_incomplete_tool_calls};
use crate::types::{
    blocks_view, messages_view, opt_view, AgentMessage, AssistantMessage, AssistantMessageV,
    ContentBlock, ContentBlockV, LlmMessage, LlmMessageV, StopReason, ToolResultMessage, Usage,
    UserMessage,
};

verus! {

/// Why a turn ended.
#[derive(Debug, Clone, Copy, PartialEq, Eq, Structural)]
pub enum TurnEndReason {
    /// The assistant completed without requesting tool calls.
    Complete,
    /// Tools were executed (the loop continues).
    ToolsExecuted,
    /// A steering message interrupted tool execution.
    SteeringInterrupt,
    /// The model returned an error stop reason.
    Error,
    /// External cancellation.
    Cancelled,
    /// The stream was aborted mid-generation.
    Aborted,
}

/// Outcome of a single turn within the inner loop.
#[derive(Debug, Clone, Copy, PartialEq, Eq, Structural)]
pub enum TurnOutcome {
    /// Continue with the next inner-loop iteration (tool results to process).
    ContinueInner,
    /// Leave the inner loop (no tool calls; check follow-ups).
    BreakInner,
    /// Return from the whole loop (channel closed, error or abort).
    Return,
}

/// Result of streaming an assistant response.
pub enum StreamResult {
    Message(AssistantMessage),
    ContextOverflow,
    Aborted,
    ChannelClosed,
}

/// A tool call taken from an assistant message.
pub struct ToolCallInfo {
    pub id: String,
    pub name: String,
    pub arguments: serde_json::Value,
    /// Whether the call's arguments were still being streamed.
    pub is_incomplete: bool,
}

pub struct ToolCallInfoV {
    pub id: Seq<char>,
    pub name: Seq<char>,
    pub arguments: serde_json::Value,
    pub is_incomplete: bool,
}

impl View for ToolCallInfo {
    type V = ToolCallInfoV;

    open spec fn view(&self) -> ToolCallInfoV {
        ToolCallInfoV { id: self.id@, name: self.name@, arguments: self.arguments, is_incomplete: self.is_incomplete }
    }
}

pub open spec fn calls_view(v: Seq<ToolCallInfo>) -> Seq<ToolCallInfoV> {
    v.map_values(|c: ToolCallInfo| c@)
}

/// Outcome of executing a batch of tool calls.
pub enum ToolExecOutcome {
    Completed {
        results: Vec<ToolResultMessage>,
        tool_metrics: Vec<ToolExecMetrics>,
        /// Messages injected by `PreDispatch` policies, for the next turn.
        injected_messages: Vec<AgentMessage>,
    },
    Stopped {
        results: Vec<ToolResultMessage>,
        tool_metrics: Vec<ToolExecMetrics>,
        /// Reason given by the batch-wide pre-dispatch pass.
        reason: String,
        injected_messages: Vec<AgentMessage>,
    },
    SteeringInterrupt {
        completed: Vec<ToolResultMessage>,
        cancelled: Vec<ToolResultMessage>,
        steering_messages: Vec<AgentMessage>,
        tool_metrics: Vec<ToolExecMetrics>,
        injected_messages: Vec<AgentMessage>,
    },
    Aborted {
        /// Results collected before the abort, plus synthetic cancellation
        /// results for unfinished calls.
        results: Vec<ToolResultMessage>,
        tool_metrics: Vec<ToolExecMetrics>,
        injected_messages: Vec<AgentMessage>,
    },
    ChannelClosed,
}

/// Context snapshot taken at a turn boundary, for replay and auditing.
pub struct TurnSnapshot {
    pub turn_index: usize,
    /// The model-visible messages of the history at that point.
    pub messages: Arc<Vec<LlmMessage>>,
    pub usage: Usage,
    pub stop_reason: StopReason,
    /// The session-state changes flushed at that point, if there were any.
    pub state_delta: Option<StateDelta>,
}

/// Mutable state threaded through the loop iterations.
pub struct LoopState {
    pub context_messages: ContextMessages,
    pub pending_messages: Vec<AgentMessage>,
    /// Initial prompt (or resumed pending) messages to expose once as the
    /// first pre-turn batch of new messages.
    pub initial_new_messages_len: usize,
    pub overflow_signal: bool,
    /// Whether emergency overflow recovery was already tried this turn.
    pub overflow_recovery_attempted: bool,
    pub turn_index: usize,
    pub accumulated_usage: Usage,
    /// The last assistant message of a completed turn.
    pub last_assistant_message: Option<AssistantMessage>,
    /// Tool results of the last completed turn.
    pub last_tool_results: Vec<ToolResultMessage>,
}

impl LoopState {
    pub open spec fn wf(&self) -> bool {
        self.context_messages.wf()
    }

    /// The state a run starts from: the initial messages are the history and
    /// the first batch of new messages.
    pub fn new(initial_messages: Vec<AgentMessage>) -> (r: Self)
        ensures
            r.wf(),
            r.context_messages.messages() == initial_messages@,
            r.pending_messages@.len() == 0,
            r.initial_new_messages_len == initial_messages@.len(),
            !r.overflow_signal,
            !r.overflow_recovery_attempted,
            r.turn_index == 0,
            r.accumulated_usage == Usage::spec_zero(),
            r.last_assistant_message is None,
            r.last_tool_results@.len() == 0,
    {
        let n = initial_messages.len();
        LoopState {
            context_messages: ContextMessages::new(initial_messages),
            pending_messages: Vec::new(),
            initial_new_messages_len: n,
            overflow_signal: false,
            overflow_recovery_attempted: false,
            turn_index: 0,
            accumulated_usage: Usage::zero(),
            last_assistant_message: None,
            last_tool_results: Vec::new(),
        }
    }
}

/// Where the new messages of a turn start: on the first turn the initial
/// batch counts as new, later only what is appended now.
pub open spec fn new_messages_start(turn_index: usize, len: nat, initial: usize) -> nat {
    if turn_index == 0 {
        if len >= initial { (len - initial) as nat } else { 0 }
    } else {
        len
    }
}

/// Begin a turn: reset the overflow-recovery flag, move the pending
/// messages into the history and return where the turn's new messages start.
pub fn begin_turn(state: &mut LoopState) -> (r: usize)
    requires
        old(state).wf(),
    ensures
        final(state).wf(),
        r == new_messages_start(
            old(state).turn_index,
            old(state).context_messages.messages().len(),
            old(state).initial_new_messages_len,
        ),
        final(state).context_messages.messages() == old(state).context_messages.messages()
            + old(state).pending_messages@,
        final(state).pending_messages@.len() == 0,
        final(state).initial_new_messages_len == 0,
        !final(state).overflow_recovery_attempted,
        final(state).turn_index == old(state).turn_index,
        final(state).overflow_signal == old(state).overflow_signal,
        final(state).accumulated_usage == old(state).accumulated_usage,
{
    state.overflow_recovery_attempted = false;
    let len = state.context_messages.len();
    let start = if state.turn_index == 0 {
        len.saturating_sub(state.initial_new_messages_len)
    } else {
        len
    };
    if state.pending_messages.len() > 0 {
        state.context_messages.append(&mut state.pending_messages);
    } else {
        assert(state.context_messages.messages() + state.pending_messages@ =~= state.context_messages.messages());
    }
    state.initial_new_messages_len = 0;
    start
}

/// The effect of the `PreTurn` verdict on the state: messages it carries
/// are queued. Returns `true` when it stops the loop before the turn starts.
pub fn apply_pre_turn_verdict(state: &mut LoopState, verdict: PolicyVerdict) -> (r: bool)
    ensures
        r == (verdict is Stop),
        final(state).pending_messages@ == old(state).pending_messages@ + match verdict {
            PolicyVerdict::Inject(m) => m@,
            _ => Seq::empty(),
        },
        final(state).context_messages == old(state).context_messages,
        final(state).turn_index == old(state).turn_index,
        final(state).accumulated_usage == old(state).accumulated_usage,
{
    match verdict {
        PolicyVerdict::Continue => {
            assert(state.pending_messages@ + Seq::<AgentMessage>::empty() =~= state.pending_messages@);
            false
        },
        PolicyVerdict::Stop(_) => {
            assert(state.pending_messages@ + Seq::<AgentMessage>::empty() =~= state.pending_messages@);
            true
        },
        PolicyVerdict::Inject(msgs) => {
            let mut msgs = msgs;
            state.pending_messages.append(&mut msgs);
            false
        },
    }
}

/// Record a completed turn's usage and assistant message.
pub fn accumulate_turn_state(state: &mut LoopState, message: &AssistantMessage)
    requires
        old(state).accumulated_usage.can_add(message.usage),
    ensures
        final(state).accumulated_usage == old(state).accumulated_usage.spec_add(message.usage),
        final(state).last_assistant_message matches Some(m) && m@ == message@,
        final(state).context_messages == old(state).context_messages,
        final(state).pending_messages@ == old(state).pending_messages@,
        final(state).turn_index == old(state).turn_index,
{
    state.accumulated_usage.add_assign(&message.usage);
    state.last_assistant_message = Some(message.clone());
}

/// The per-turn addition to the system prompt, as a user message to put
/// before the history; an empty text adds nothing.
pub fn dynamic_prompt_message(text: String) -> (r: Option<LlmMessage>)
    ensures
        text@.len() == 0 ==> r is None,
        text@.len() > 0 ==> (r matches Some(LlmMessage::User(u))
            && u@.content == seq![ContentBlockV::Text { text: text@ }]
            && u@.cache_hint is None),
{
    if text.as_str().is_empty() {
        return None;
    }
    let ghost t = text@;
    let mut content: Vec<ContentBlock> = Vec::new();
    content.push(ContentBlock::Text { text });
    assert(blocks_view(content@) =~= seq![ContentBlockV::Text { text: t }]);
    Some(LlmMessage::User(UserMessage { content, timestamp: now_timestamp(), cache_hint: None }))
}

/// A snapshot of the loop state: the model-visible messages of the history,
/// the accumulated usage and the given stop reason.
pub fn build_snapshot(state: &LoopState, stop_reason: StopReason, state_delta: Option<StateDelta>) -> (r: TurnSnapshot)
    requires
        state.wf(),
    ensures
        r.turn_index == state.turn_index,
        r.messages@.map_values(|m: LlmMessage| m@) == llm_views(state.context_messages.messages()),
        r.usage == state.accumulated_usage,
        r.stop_reason == stop_reason,
        r.state_delta == state_delta,
{
    let msgs = state.context_messages.as_slice();
    let mut out: Vec<LlmMessage> = Vec::new();
    let mut i: usize = 0;
    while i < msgs.len()
        invariant
            i <= msgs@.len(),
            out@.map_values(|m: LlmMessage| m@) == llm_views(msgs@.take(i as int)),
        decreases msgs@.len() - i,
    {
        assert(msgs@.take(i + 1).drop_last() =~= msgs@.take(i as int));
        match &msgs[i] {
            AgentMessage::Llm(l) => {
                out.push(l.clone());
                assert(out@.map_values(|m: LlmMessage| m@) =~= llm_views(msgs@.take(i as int)).push(l@));
            },
            AgentMessage::Custom(_) => {},
        }
        i = i + 1;
    }
    assert(msgs@.take(msgs@.len() as int) =~= msgs@);
    TurnSnapshot {
        turn_index: state.turn_index,
        messages: Arc::new(out),
        usage: state.accumulated_usage,
        stop_reason,
        state_delta,
    }
}

/// Take the session-state changes recorded during the turn: `None` when
/// there were none, else the changes, with recording started afresh.
pub fn flush_state_delta(session: &mut SessionState) -> (r: Option<StateDelta>)
    requires
        old(session).wf(),
    ensures
        final(session).wf(),
        final(session).view() == old(session).view(),
        match r {
            None => old(session).changes().dom().len() == 0 && final(session).changes() == old(session).changes(),
            Some(d) => old(session).changes().dom().len() > 0 && d.view() == old(session).changes()
                && final(session).changes() == Map::<Seq<char>, Option<serde_json::Value>>::empty(),
        },
{
    if session.delta().is_empty() {
        None
    } else {
        Some(session.flush_delta())
    }
}

/// How a turn that ended in an error or abort is reported.
pub open spec fn error_turn_reason(stop: StopReason) -> TurnEndReason {
    if stop == StopReason::Aborted {
        TurnEndReason::Aborted
    } else {
        TurnEndReason::Error
    }
}

/// Record a turn that ended in an error or abort: its message, with any
/// incomplete tool calls repaired, joins the history. Returns the message to
/// report, why the turn ended, and the snapshot taken after it.
pub fn record_error_stop(state: &mut LoopState, message: AssistantMessage) -> (r: (AssistantMessage, TurnEndReason, TurnSnapshot))
    requires
        old(state).wf(),
    ensures
        final(state).wf(),
        r.0@ == (AssistantMessageV {
            content: message@.content.map_values(|b: ContentBlockV| fixed_block(b)),
            ..message@
        }),
        r.1 == error_turn_reason(message.stop_reason),
        final(state).context_messages.messages().len() == old(state).context_messages.messages().len() + 1,
        final(state).context_messages.messages().drop_last() == old(state).context_messages.messages(),
        final(state).context_messages.messages().last() matches AgentMessage::Llm(LlmMessage::Assistant(m)) && m@ == r.0@,
        r.2.turn_index == old(state).turn_index,
        r.2.stop_reason == message.stop_reason,
        r.2.usage == old(state).accumulated_usage,
        r.2.state_delta is None,
        r.2.messages@.map_values(|m: LlmMessage| m@) == llm_views(final(state).context_messages.messages()),
{
    let mut message = message;
    sanitize_incomplete_tool_calls(&mut message);
    let reason = if message.stop_reason == StopReason::Aborted {
        TurnEndReason::Aborted
    } else {
        TurnEndReason::Error
    };
    let stop = message.stop_reason;
    let reported = message.clone();
    state.context_messages.push(AgentMessage::Llm(LlmMessage::Assistant(message)));
    let snapshot = build_snapshot(state, stop, None);
    (reported, reason, snapshot)
}

/// The tool calls among `blocks`, in order.
pub open spec fn tool_calls_of(blocks: Seq<ContentBlockV>) -> Seq<ToolCallInfoV>
    decreases blocks.len(),
{
    if blocks.len() == 0 {
        Seq::empty()
    } else {
        let init = tool_calls_of(blocks.drop_last());
        match blocks.last() {
            ContentBlockV::ToolCall { id, name, arguments, partial_json } => init.push(
                ToolCallInfoV { id, name, arguments, is_incomplete: partial_json is Some },
            ),
            _ => init,
        }
    }
}

/// The tool calls an assistant message asks for, in order; a call whose
/// arguments were still being streamed is marked incomplete.
pub fn extract_tool_calls(message: &AssistantMessage) -> (r: Vec<ToolCallInfo>)
    ensures
        calls_view(r@) == tool_calls_of(message@.content),
{
    let mut out: Vec<ToolCallInfo> = Vec::new();
    let mut i: usize = 0;
    while i < message.content.len()
        invariant
            i <= message.content@.len(),
            calls_view(out@) == tool_calls_of(blocks_view(message.content@).take(i as int)),
        decreases message.content@.len() - i,
    {
        let ghost blocks = blocks_view(message.content@);
        assert(blocks.take(i + 1).drop_last() =~= blocks.take(i as int));
        match &message.content[i] {
            ContentBlock::ToolCall { id, name, arguments, partial_json } => {
                let call = ToolCallInfo {
                    id: id.clone(),
                    name: name.clone(),
                    arguments: crate::json::json_clone(arguments),
                    is_incomplete: partial_json.is_some(),
                };
                out.push(call);
                assert(calls_view(out@) =~= tool_calls_of(blocks.take(i as int)).push(call@));
            },
            _ => {},
        }
        i = i + 1;
    }
    assert(blocks_view(message.content@).take(message.content@.len() as int) =~= blocks_view(message.content@));
    out
}

/// The text of the result given to a tool call cut off by the token limit.
pub open spec fn truncated_call_text() -> Seq<char> {
    "error: tool call was incomplete due to max tokens reached"@
}

/// Calls that stay after recovery: all of them, unless the reply hit the
/// token limit, in which case the incomplete ones leave.
pub open spec fn complete_calls(calls: Seq<ToolCallInfoV>) -> Seq<ToolCallInfoV>
    decreases calls.len(),
{
    if calls.len() == 0 {
        calls
    } else if calls.last().is_incomplete {
        complete_calls(calls.drop_last())
    } else {
        complete_calls(calls.drop_last()).push(calls.last())
    }
}

/// Ids of the incomplete calls, in order.
pub open spec fn incomplete_ids(calls: Seq<ToolCallInfoV>) -> Seq<Seq<char>>
    decreases calls.len(),
{
    if calls.len() == 0 {
        Seq::empty()
    } else if calls.last().is_incomplete {
        incomplete_ids(calls.drop_last()).push(calls.last().id)
    } else {
        incomplete_ids(calls.drop_last())
    }
}

/// A result is the error result for the truncated call `id`.
pub open spec fn is_truncation_result(r: ToolResultMessage, id: Seq<char>) -> bool {
    &&& r@.tool_call_id == id
    &&& r@.content == seq![ContentBlockV::Text { text: truncated_call_text() }]
    &&& r@.is_error
}

/// When a reply stopped at the token limit, its incomplete tool calls cannot
/// run: they leave the list and each gets an error result, so that every
/// call still has a result. Otherwise nothing changes.
pub fn recover_incomplete_tool_calls(calls: &mut Vec<ToolCallInfo>, stop_reason: StopReason) -> (r: Vec<ToolResultMessage>)
    ensures
        stop_reason == StopReason::Length ==> calls_view(final(calls)@) == complete_calls(calls_view(old(calls)@)),
        stop_reason == StopReason::Length ==> r@.len() == incomplete_ids(calls_view(old(calls)@)).len()
            && forall|k: int| 0 <= k < r@.len() ==> is_truncation_result(#[trigger] r@[k], incomplete_ids(calls_view(old(calls)@))[k]),
        stop_reason != StopReason::Length ==> final(calls)@ == old(calls)@ && r@.len() == 0,
{
    let mut results: Vec<ToolResultMessage> = Vec::new();
    if stop_reason != StopReason::Length {
        return results;
    }
    let ghost orig = calls_view(calls@);
    let mut kept: Vec<ToolCallInfo> = Vec::new();
    let mut i: usize = 0;
    while i < calls.len()
        invariant
            i <= calls@.len(),
            orig == calls_view(calls@),
            calls_view(kept@) == complete_calls(orig.take(i as int)),
            results@.len() == incomplete_ids(orig.take(i as int)).len(),
            forall|k: int| 0 <= k < results@.len() ==> is_truncation_result(#[trigger] results@[k], incomplete_ids(orig.take(i as int))[k]),
        decreases calls@.len() - i,
    {
        assert(orig.take(i + 1).drop_last() =~= orig.take(i as int));
        let c = &calls[i];
        if c.is_incomplete {
            let r = ToolResultMessage {
                tool_call_id: c.id.clone(),
                content: vec![ContentBlock::Text { text: "error: tool call was incomplete due to max tokens reached".to_string() }],
                is_error: true,
                timestamp: now_timestamp(),
            };
            assert(blocks_view(r.content@) =~= seq![ContentBlockV::Text { text: truncated_call_text() }]);
            results.push(r);
        } else {
            let copy = ToolCallInfo {
                id: c.id.clone(),
                name: c.name.clone(),
                arguments: crate::json::json_clone(&c.arguments),
                is_incomplete: false,
            };
            kept.push(copy);
            assert(calls_view(kept@) =~= complete_calls(orig.take(i as int)).push(orig[i as int]));
        }
        i = i + 1;
    }
    assert(orig.take(calls@.len() as int) =~= orig);
    *calls = kept;
    results
}

/// What the loop does next.
#[derive(Debug, Clone, Copy, PartialEq, Eq, Structural)]
pub enum LoopAction {
    /// Run another turn.
    RunTurn,
    /// The inner loop is over: evaluate the post-loop policies.
    EvaluatePostLoop,
    /// Ask the message provider for follow-up messages.
    PollFollowUp,
    /// Report the end of the run with the history, then stop.
    EmitAgentEnd,
    /// Stop at once; the turn already reported what happened.
    Exit,
}

/// After a turn: continue the inner loop (on the next turn index), leave it
/// for the post-loop policies, or stop.
pub fn after_turn(state: &mut LoopState, outcome: TurnOutcome) -> (r: LoopAction)
    requires
        outcome == TurnOutcome::ContinueInner ==> old(state).turn_index < usize::MAX,
    ensures
        r == match outcome {
            TurnOutcome::ContinueInner => LoopAction::RunTurn,
            TurnOutcome::BreakInner => LoopAction::EvaluatePostLoop,
            TurnOutcome::Return => LoopAction::Exit,
        },
        final(state).turn_index == if outcome == TurnOutcome::ContinueInner {
            old(state).turn_index + 1
        } else {
            old(state).turn_index as int
        },
        final(state).context_messages == old(state).context_messages,
        final(state).pending_messages@ == old(state).pending_messages@,
{
    match outcome {
        TurnOutcome::ContinueInner => {
            state.turn_index = state.turn_index + 1;
            LoopAction::RunTurn
        },
        TurnOutcome::BreakInner => LoopAction::EvaluatePostLoop,
        TurnOutcome::Return => LoopAction::Exit,
    }
}

/// After the post-loop policies: a stop ends the run, injected messages
/// start another round of turns, and otherwise follow-ups are polled when
/// there is a message provider, else the run ends.
pub fn after_post_loop(state: &mut LoopState, verdict: PolicyVerdict, has_provider: bool) -> (r: LoopAction)
    ensures
        r == match verdict {
            PolicyVerdict::Stop(_) => LoopAction::EmitAgentEnd,
            PolicyVerdict::Inject(_) => LoopAction::RunTurn,
            PolicyVerdict::Continue => if has_provider { LoopAction::PollFollowUp } else { LoopAction::EmitAgentEnd },
        },
        final(state).pending_messages@ == old(state).pending_messages@ + match verdict {
            PolicyVerdict::Inject(m) => m@,
            _ => Seq::empty(),
        },
        final(state).context_messages == old(state).context_messages,
        final(state).turn_index == old(state).turn_index,
{
    match verdict {
        PolicyVerdict::Stop(_) => {
            assert(state.pending_messages@ + Seq::<AgentMessage>::empty() =~= state.pending_messages@);
            LoopAction::EmitAgentEnd
        },
        PolicyVerdict::Inject(msgs) => {
            let mut msgs = msgs;
            state.pending_messages.append(&mut msgs);
            LoopAction::RunTurn
        },
        PolicyVerdict::Continue => {
            assert(state.pending_messages@ + Seq::<AgentMessage>::empty() =~= state.pending_messages@);
            if has_provider {
                LoopAction::PollFollowUp
            } else {
                LoopAction::EmitAgentEnd
            }
        },
    }
}

/// After polling follow-ups: any message starts another round of turns,
/// none ends the run.
pub fn after_follow_up(state: &mut LoopState, follow_ups: Vec<AgentMessage>) -> (r: LoopAction)
    ensures
        r == if follow_ups@.len() > 0 { LoopAction::RunTurn } else { LoopAction::EmitAgentEnd },
        final(state).pending_messages@ == old(state).pending_messages@ + follow_ups@,
        final(state).context_messages == old(state).context_messages,
        final(state).turn_index == old(state).turn_index,
{
    let mut follow_ups = follow_ups;
    if follow_ups.len() > 0 {
        state.pending_messages.append(&mut follow_ups);
        LoopAction::RunTurn
    } else {
        assert(state.pending_messages@ + follow_ups@ =~= state.pending_messages@);
        LoopAction::EmitAgentEnd
    }
}

} // verus!
