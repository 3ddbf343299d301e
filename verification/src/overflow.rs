//! Recovery from a context-window overflow within a turn: compact the
//! context once with the overflow signal raised and try the call again;
//! when that is not possible, or the retry overflows too, the turn ends with
//! an overflow error.
use vstd::prelude::*;

use crate::classify::{build_error_message, is_terminal_message};
use crate::context::llm_views;
use crate::error::{AgentError, AgentErrorV};
use crate::turn::{build_snapshot, LoopState, StreamResult, TurnSnapshot};
use crate::types::{AgentMessage, AssistantMessage, LlmMessage, ModelSpec, StopReason};

verus! {

/// Whether an overflow can be recovered from by compacting the context.
#[derive(Debug, Clone, Copy, PartialEq, Eq, Structural)]
pub enum OverflowStep {
    /// Run the context transformers with the overflow signal raised.
    Compact,
    /// Give up: recovery was already tried this turn, or nothing can compact.
    SurfaceError,
}

/// Decide on recovery after an overflow. Recovery is tried at most once per
/// turn and only when a context transformer is configured; trying it marks
/// the attempt and raises the overflow signal for the transformers.
pub fn begin_overflow_recovery(state: &mut LoopState, has_transformer: bool) -> (r: OverflowStep)
    ensures
        r == (if !old(state).overflow_recovery_attempted && has_transformer {
            OverflowStep::Compact
        } else {
            OverflowStep::SurfaceError
        }),
        r == OverflowStep::Compact ==> final(state).overflow_recovery_attempted && final(state).overflow_signal,
        r == OverflowStep::SurfaceError ==> final(state).overflow_recovery_attempted == old(state).overflow_recovery_attempted
            && final(state).overflow_signal == old(state).overflow_signal,
        final(state).context_messages == old(state).context_messages,
        final(state).pending_messages@ == old(state).pending_messages@,
        final(state).turn_index == old(state).turn_index,
{
    if state.overflow_recovery_attempted || !has_transformer {
        return OverflowStep::SurfaceError;
    }
    state.overflow_recovery_attempted = true;
    state.overflow_signal = true;
    OverflowStep::Compact
}

/// After the transformers ran: lower the overflow signal, and retry only if
/// something was compacted.
pub fn after_compaction(state: &mut LoopState, any_compacted: bool) -> (r: bool)
    ensures
        r == any_compacted,
        !final(state).overflow_signal,
        final(state).overflow_recovery_attempted == old(state).overflow_recovery_attempted,
        final(state).context_messages == old(state).context_messages,
        final(state).turn_index == old(state).turn_index,
{
    state.overflow_signal = false;
    any_compacted
}

/// Whether the retry after compaction recovered: anything but another
/// overflow counts as recovered.
pub fn retry_recovered(result: &StreamResult) -> (r: bool)
    ensures
        r == !(*result is ContextOverflow),
{
    match result {
        StreamResult::ContextOverflow => false,
        _ => true,
    }
}

/// End the turn with an overflow error for `model`: the error message joins
/// the history; returns it with the snapshot taken after it.
pub fn record_overflow_error(state: &mut LoopState, model: &ModelSpec) -> (r: (AssistantMessage, TurnSnapshot))
    requires
        old(state).wf(),
    ensures
        final(state).wf(),
        is_terminal_message(
            r.0@,
            model@,
            StopReason::Error,
            (AgentErrorV::ContextWindowOverflow { model: model@.model_id }).full_text(),
        ),
        final(state).context_messages.messages().drop_last() == old(state).context_messages.messages(),
        final(state).context_messages.messages().last() matches AgentMessage::Llm(LlmMessage::Assistant(m)) && m@ == r.0@,
        r.1.stop_reason == StopReason::Error,
        r.1.turn_index == old(state).turn_index,
        r.1.messages@.map_values(|m: LlmMessage| m@) == llm_views(final(state).context_messages.messages()),
        r.1.state_delta is None,
{
    let error = AgentError::ContextWindowOverflow { model: model.model_id.clone() };
    let message = build_error_message(model, &error);
    let reported = message.clone();
    state.context_messages.push(AgentMessage::Llm(LlmMessage::Assistant(message)));
    let snapshot = build_snapshot(state, StopReason::Error, None);
    (reported, snapshot)
}

} // verus!
