//! How a completed turn is committed: what the post-turn policies may change
//! in the assistant message, how the outcome of a tool batch is folded into
//! the turn, and where the loop goes afterwards.
use vstd::prelude::*;

use crate::context::ContextMessages;
use crate::metrics::ToolExecMetrics;
use crate::policy::PolicyVerdict;
use crate::turn::{LoopState, ToolExecOutcome, TurnEndReason, TurnOutcome};
use crate::types::{
    blocks_view, AgentMessage, AgentMessageV, AssistantMessage, AssistantMessageV, ContentBlock,
    ContentBlockV, LlmMessage, LlmMessageV, ToolResultMessage, same_block,
};

verus! {

/// The tool-call blocks of some content, in order.
pub open spec fn tool_call_blocks(c: Seq<ContentBlockV>) -> Seq<ContentBlockV>
    decreases c.len(),
{
    if c.len() == 0 {
        c
    } else {
        let init = tool_call_blocks(c.drop_last());
        if c.last() is ToolCall {
            init.push(c.last())
        } else {
            init
        }
    }
}

fn tool_calls_in(content: &Vec<ContentBlock>) -> (r: Vec<&ContentBlock>)
    ensures
        r@.map_values(|b: &ContentBlock| (*b)@) == tool_call_blocks(blocks_view(content@)),
{
    let ghost all = blocks_view(content@);
    let mut out: Vec<&ContentBlock> = Vec::new();
    let mut i: usize = 0;
    while i < content.len()
        invariant
            i <= content@.len(),
            all == blocks_view(content@),
            out@.map_values(|b: &ContentBlock| (*b)@) == tool_call_blocks(all.take(i as int)),
        decreases content@.len() - i,
    {
        assert(all.take(i + 1).drop_last() =~= all.take(i as int));
        if content[i].is_tool_call() {
            out.push(&content[i]);
            assert(out@.map_values(|b: &ContentBlock| (*b)@) =~= tool_call_blocks(all.take(i as int)).push(all[i as int]));
        }
        i = i + 1;
    }
    assert(all.take(content@.len() as int) =~= all);
    out
}

/// Two block lists are the same, block by block.
pub open spec fn same_blocks(a: Seq<ContentBlockV>, b: Seq<ContentBlockV>) -> bool {
    a.len() == b.len() && forall|i: int| 0 <= i < a.len() ==> same_block(#[trigger] a[i], b[i])
}

/// Whether `replacement` asks for the same tool calls as `original`, in the
/// same order.
pub fn replacement_preserves_tool_calls(original: &AssistantMessage, replacement: &AssistantMessage) -> (r: bool)
    ensures
        r == same_blocks(tool_call_blocks(original@.content), tool_call_blocks(replacement@.content)),
{
    let a = tool_calls_in(&original.content);
    let b = tool_calls_in(&replacement.content);
    let ghost av = a@.map_values(|x: &ContentBlock| (*x)@);
    let ghost bv = b@.map_values(|x: &ContentBlock| (*x)@);
    if a.len() != b.len() {
        assert(av.len() != bv.len());
        return false;
    }
    let mut i: usize = 0;
    while i < a.len()
        invariant
            i <= a@.len(),
            a@.len() == b@.len(),
            av == tool_call_blocks(original@.content),
            bv == tool_call_blocks(replacement@.content),
            av == a@.map_values(|x: &ContentBlock| (*x)@),
            bv == b@.map_values(|x: &ContentBlock| (*x)@),
            forall|j: int| 0 <= j < i ==> same_block(#[trigger] av[j], bv[j]),
        decreases a@.len() - i,
    {
        if !a[i].same_as(b[i]) {
            assert(!same_block(av[i as int], bv[i as int]));
            return false;
        }
        i = i + 1;
    }
    true
}

/// The assistant message a post-turn injection leaves: the last injected
/// assistant message that keeps the original tool calls, else the original.
pub open spec fn replacement_of(original: AssistantMessageV, msgs: Seq<AgentMessageV>) -> AssistantMessageV
    decreases msgs.len(),
{
    if msgs.len() == 0 {
        original
    } else {
        match msgs.last() {
            AgentMessageV::Llm(LlmMessageV::Assistant(m)) => if same_blocks(tool_call_blocks(original.content), tool_call_blocks(m.content)) {
                m
            } else {
                replacement_of(original, msgs.drop_last())
            },
            _ => replacement_of(original, msgs.drop_last()),
        }
    }
}

/// The injected messages that are not assistant messages, in order: they go
/// to the pending queue.
pub open spec fn queued_of(msgs: Seq<AgentMessageV>) -> Seq<AgentMessageV>
    decreases msgs.len(),
{
    if msgs.len() == 0 {
        msgs
    } else {
        let init = queued_of(msgs.drop_last());
        match msgs.last() {
            AgentMessageV::Llm(LlmMessageV::Assistant(_)) => init,
            _ => init.push(msgs.last()),
        }
    }
}

pub open spec fn agent_views(v: Seq<AgentMessage>) -> Seq<AgentMessageV> {
    v.map_values(|m: AgentMessage| m@)
}

/// The effect of the post-turn verdict on a completed turn. A stop hands its
/// reason back. An injection may replace the assistant message (with an
/// injected assistant message that keeps its tool calls, the last one
/// winning); its other messages are queued, and the turn's message is
/// recorded as the last assistant message. Returns the message to commit
/// and the stop reason, if any.
pub fn apply_post_turn_verdict(state: &mut LoopState, original: AssistantMessage, verdict: PolicyVerdict) -> (r: (AssistantMessage, Option<String>))
    ensures
        match verdict {
            PolicyVerdict::Continue => r.0@ == original@ && r.1 is None
                && final(state).pending_messages@ == old(state).pending_messages@
                && final(state).last_assistant_message == old(state).last_assistant_message,
            PolicyVerdict::Stop(reason) => r.0@ == original@ && r.1 == Some(reason)
                && final(state).pending_messages@ == old(state).pending_messages@
                && final(state).last_assistant_message == old(state).last_assistant_message,
            PolicyVerdict::Inject(msgs) => r.0@ == replacement_of(original@, agent_views(msgs@)) && r.1 is None
                && agent_views(final(state).pending_messages@) == agent_views(old(state).pending_messages@) + queued_of(agent_views(msgs@))
                && (final(state).last_assistant_message matches Some(m) && m@ == r.0@),
        },
        final(state).context_messages == old(state).context_messages,
        final(state).turn_index == old(state).turn_index,
        final(state).accumulated_usage == old(state).accumulated_usage,
{
    match verdict {
        PolicyVerdict::Continue => (original, None),
        PolicyVerdict::Stop(reason) => (original, Some(reason)),
        PolicyVerdict::Inject(msgs) => {
            let ghost mv = agent_views(msgs@);
            let ghost pending0 = agent_views(state.pending_messages@);
            let mut replaced = original.clone();
            let mut rest = msgs;
            let mut rev: Vec<AgentMessage> = Vec::new();
            while rest.len() > 0
                invariant
                    agent_views(rest@) + agent_views(rev@).reverse() == mv,
                decreases rest@.len(),
            {
                let ghost r0 = rev@;
                let ghost s0 = rest@;
                let m = rest.pop().unwrap();
                rev.push(m);
                assert(agent_views(s0) =~= agent_views(rest@).push(m@));
                assert(agent_views(rev@).reverse() =~= seq![m@] + agent_views(r0).reverse());
                assert(agent_views(rest@) + agent_views(rev@).reverse() =~= agent_views(s0) + agent_views(r0).reverse());
            }
            assert(agent_views(rest@) =~= Seq::<AgentMessageV>::empty());
            assert(agent_views(rev@).reverse() =~= mv);
            let ghost mut seen: Seq<AgentMessageV> = Seq::empty();
            while rev.len() > 0
                invariant
                    seen + agent_views(rev@).reverse() == mv,
                    replaced@ == replacement_of(original@, seen),
                    agent_views(state.pending_messages@) == pending0 + queued_of(seen),
                    state.context_messages == old(state).context_messages,
                    state.turn_index == old(state).turn_index,
                    state.accumulated_usage == old(state).accumulated_usage,
                decreases rev@.len(),
            {
                let ghost r0 = rev@;
                let m = rev.pop().unwrap();
                proof {
                    assert(agent_views(r0) =~= agent_views(rev@).push(m@));
                    assert(agent_views(r0).reverse() =~= seq![m@] + agent_views(rev@).reverse());
                }
                let ghost ns = seen.push(m@);
                assert(ns.drop_last() =~= seen);
                let ghost p0 = state.pending_messages@;
                match m {
                    AgentMessage::Llm(LlmMessage::Assistant(candidate)) => {
                        if replacement_preserves_tool_calls(&original, &candidate) {
                            replaced = candidate;
                        }
                    },
                    other => {
                        state.pending_messages.push(other);
                        assert(agent_views(state.pending_messages@) =~= agent_views(p0).push(ns.last()));
                    },
                }
                proof {
                    assert(ns + agent_views(rev@).reverse() =~= seen + agent_views(r0).reverse());
                    seen = ns;
                }
            }
            assert(seen + Seq::<AgentMessageV>::empty() =~= seen);
            assert(agent_views(rev@).reverse() =~= Seq::<AgentMessageV>::empty());
            state.last_assistant_message = Some(replaced.clone());
            (replaced, None)
        },
    }
}

/// What a tool batch left for the rest of the turn, when the turn goes on.
pub struct ToolBatchReport {
    /// All tool results of the turn, in order.
    pub results: Vec<ToolResultMessage>,
    pub tool_metrics: Vec<ToolExecMetrics>,
    /// Whether a steering message interrupted the batch.
    pub steering_interrupted: bool,
    /// Why a pre-dispatch policy stopped the batch, if one did.
    pub dispatch_stop_reason: Option<String>,
}

/// What the turn does after its tool batch.
pub enum ToolBatchStep {
    /// Commit the results and finish the turn.
    Continue(ToolBatchReport),
    /// The batch was cancelled: finish the turn as cancelled with these
    /// results.
    Aborted { results: Vec<ToolResultMessage>, tool_metrics: Vec<ToolExecMetrics> },
    /// The event channel closed: stop at once.
    ChannelClosed,
}

pub open spec fn result_views(v: Seq<ToolResultMessage>) -> Seq<crate::types::ToolResultMessageV> {
    v.map_values(|m: ToolResultMessage| m@)
}

/// Fold the outcome of a tool batch into the turn, after the results the
/// turn already has (`prior`): results are appended in order, messages the
/// pre-dispatch policies injected are queued, and so are the steering
/// messages of an interrupt (after the injected ones).
pub fn absorb_tool_outcome(state: &mut LoopState, prior: Vec<ToolResultMessage>, outcome: ToolExecOutcome) -> (r: ToolBatchStep)
    ensures
        match outcome {
            ToolExecOutcome::Completed { results, tool_metrics, injected_messages } =>
                r matches ToolBatchStep::Continue(rep) && rep.results@ == prior@ + results@
                && rep.tool_metrics@ == tool_metrics@ && !rep.steering_interrupted && rep.dispatch_stop_reason is None
                && final(state).pending_messages@ == old(state).pending_messages@ + injected_messages@,
            ToolExecOutcome::Stopped { results, tool_metrics, reason, injected_messages } =>
                r matches ToolBatchStep::Continue(rep) && rep.results@ == prior@ + results@
                && rep.tool_metrics@ == tool_metrics@ && !rep.steering_interrupted && rep.dispatch_stop_reason == Some(reason)
                && final(state).pending_messages@ == old(state).pending_messages@ + injected_messages@,
            ToolExecOutcome::SteeringInterrupt { completed, cancelled, steering_messages, tool_metrics, injected_messages } =>
                r matches ToolBatchStep::Continue(rep) && rep.results@ == prior@ + completed@ + cancelled@
                && rep.tool_metrics@ == tool_metrics@ && rep.steering_interrupted && rep.dispatch_stop_reason is None
                && final(state).pending_messages@ == old(state).pending_messages@ + injected_messages@ + steering_messages@,
            ToolExecOutcome::Aborted { results, tool_metrics, injected_messages } =>
                r matches ToolBatchStep::Aborted { results: rs, tool_metrics: tm } && rs@ == prior@ + results@
                && tm@ == tool_metrics@
                && final(state).pending_messages@ == old(state).pending_messages@ + injected_messages@,
            ToolExecOutcome::ChannelClosed => r is ChannelClosed
                && final(state).pending_messages@ == old(state).pending_messages@,
        },
        final(state).context_messages == old(state).context_messages,
        final(state).turn_index == old(state).turn_index,
{
    let mut prior = prior;
    match outcome {
        ToolExecOutcome::Completed { mut results, tool_metrics, mut injected_messages } => {
            prior.append(&mut results);
            state.pending_messages.append(&mut injected_messages);
            ToolBatchStep::Continue(ToolBatchReport {
                results: prior,
                tool_metrics,
                steering_interrupted: false,
                dispatch_stop_reason: None,
            })
        },
        ToolExecOutcome::Stopped { mut results, tool_metrics, reason, mut injected_messages } => {
            prior.append(&mut results);
            state.pending_messages.append(&mut injected_messages);
            ToolBatchStep::Continue(ToolBatchReport {
                results: prior,
                tool_metrics,
                steering_interrupted: false,
                dispatch_stop_reason: Some(reason),
            })
        },
        ToolExecOutcome::SteeringInterrupt { mut completed, mut cancelled, mut steering_messages, tool_metrics, mut injected_messages } => {
            prior.append(&mut completed);
            prior.append(&mut cancelled);
            state.pending_messages.append(&mut injected_messages);
            state.pending_messages.append(&mut steering_messages);
            ToolBatchStep::Continue(ToolBatchReport {
                results: prior,
                tool_metrics,
                steering_interrupted: true,
                dispatch_stop_reason: None,
            })
        },
        ToolExecOutcome::Aborted { mut results, tool_metrics, mut injected_messages } => {
            prior.append(&mut results);
            state.pending_messages.append(&mut injected_messages);
            ToolBatchStep::Aborted { results: prior, tool_metrics }
        },
        ToolExecOutcome::ChannelClosed => ToolBatchStep::ChannelClosed,
    }
}

/// The tool results as history messages, in order.
pub open spec fn results_as_history(v: Seq<ToolResultMessage>) -> Seq<AgentMessageV> {
    v.map_values(|m: ToolResultMessage| AgentMessageV::Llm(LlmMessageV::ToolResult(m@)))
}

/// Add the turn's tool results to the history, in order, and keep them as
/// the last tool results.
pub fn commit_tool_results(state: &mut LoopState, results: &Vec<ToolResultMessage>)
    requires
        old(state).wf(),
    ensures
        final(state).wf(),
        agent_views(final(state).context_messages.messages())
            == agent_views(old(state).context_messages.messages()) + results_as_history(results@),
        result_views(final(state).last_tool_results@) == result_views(results@),
        final(state).pending_messages@ == old(state).pending_messages@,
        final(state).turn_index == old(state).turn_index,
{
    let ghost before = agent_views(state.context_messages.messages());
    let mut copies: Vec<ToolResultMessage> = Vec::new();
    let mut i: usize = 0;
    while i < results.len()
        invariant
            i <= results@.len(),
            state.wf(),
            agent_views(state.context_messages.messages()) == before + results_as_history(results@.take(i as int)),
            result_views(copies@) == result_views(results@.take(i as int)),
            state.pending_messages@ == old(state).pending_messages@,
            state.turn_index == old(state).turn_index,
        decreases results@.len() - i,
    {
        let ghost ctx0 = state.context_messages.messages();
        let ghost copies0 = copies@;
        state.context_messages.push(AgentMessage::Llm(LlmMessage::ToolResult(results[i].clone())));
        let c = results[i].clone();
        copies.push(c);
        assert(result_views(copies@) =~= result_views(copies0).push(results@[i as int]@));
        assert(results@.take(i + 1) =~= results@.take(i as int).push(results@[i as int]));
        assert(agent_views(state.context_messages.messages()) =~= agent_views(ctx0).push(
            AgentMessageV::Llm(LlmMessageV::ToolResult(results@[i as int]@)),
        ));
        assert(results_as_history(results@.take(i + 1)) =~= results_as_history(results@.take(i as int)).push(
            AgentMessageV::Llm(LlmMessageV::ToolResult(results@[i as int]@)),
        ));
        assert(result_views(copies@) =~= result_views(results@.take(i + 1)));
        i = i + 1;
    }
    assert(results@.take(results@.len() as int) =~= results@);
    state.last_tool_results = copies;
}

/// Put the (possibly replaced) assistant message of the turn back at its
/// place in the history.
pub fn recommit_assistant(state: &mut LoopState, index: usize, message: AssistantMessage)
    requires
        old(state).wf(),
        index < old(state).context_messages.messages().len(),
    ensures
        final(state).wf(),
        final(state).context_messages.messages() == old(state).context_messages.messages().update(
            index as int,
            AgentMessage::Llm(LlmMessage::Assistant(message)),
        ),
        final(state).pending_messages@ == old(state).pending_messages@,
        final(state).turn_index == old(state).turn_index,
{
    state.context_messages.set(index, AgentMessage::Llm(LlmMessage::Assistant(message)));
}

/// How a turn that ran tools is reported.
pub open spec fn tool_turn_reason(steering_interrupted: bool) -> TurnEndReason {
    if steering_interrupted {
        TurnEndReason::SteeringInterrupt
    } else {
        TurnEndReason::ToolsExecuted
    }
}

/// See [`tool_turn_reason`].
pub fn tool_turn_end_reason(steering_interrupted: bool) -> (r: TurnEndReason)
    ensures
        r == tool_turn_reason(steering_interrupted),
{
    if steering_interrupted {
        TurnEndReason::SteeringInterrupt
    } else {
        TurnEndReason::ToolsExecuted
    }
}

/// Where the loop goes after a turn without tool calls was reported: a stop
/// ends the run, queued messages start another turn, otherwise the inner
/// loop ends.
pub fn text_turn_outcome(stopped: bool, pending_empty: bool) -> (r: TurnOutcome)
    ensures
        r == (if stopped {
            TurnOutcome::Return
        } else if pending_empty {
            TurnOutcome::BreakInner
        } else {
            TurnOutcome::ContinueInner
        }),
{
    if stopped {
        TurnOutcome::Return
    } else if pending_empty {
        TurnOutcome::BreakInner
    } else {
        TurnOutcome::ContinueInner
    }
}

/// Where the loop goes after a tool turn was reported: a stop (by a
/// pre-dispatch or a post-turn policy) ends the run; otherwise the model
/// must see the tool results, so another turn runs. Returns whether to poll
/// for steering messages first: only when the batch was not already
/// interrupted by steering.
pub fn tool_turn_outcome(dispatch_stopped: bool, policy_stopped: bool, steering_interrupted: bool) -> (r: (TurnOutcome, bool))
    ensures
        r.0 == (if dispatch_stopped || policy_stopped { TurnOutcome::Return } else { TurnOutcome::ContinueInner }),
        r.1 == (!dispatch_stopped && !policy_stopped && !steering_interrupted),
{
    if dispatch_stopped || policy_stopped {
        (TurnOutcome::Return, false)
    } else {
        (TurnOutcome::ContinueInner, !steering_interrupted)
    }
}

} // verus!
