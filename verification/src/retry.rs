//! When a failed model call is retried, and what the loop does with a stream
//! error: recover from context overflow, surface a cancellation, retry as
//! the retry strategy allows, or give up with the error.
use std::time::Duration;

use vstd::prelude::*;

use crate::classify::{fallback_eligible_spec, is_fallback_eligible_error};
use crate::error::{AgentError, AgentErrorV};
use crate::turn::StreamResult;
use crate::types::StopReason;

verus! {

/// Decides whether a failed model call is retried and how long to wait
/// before the next attempt. Attempts are numbered from 1.
pub trait RetryStrategy {
    /// Whether `r` can be the strategy's answer to "retry `error` on attempt
    /// number `attempt`?": either can, unless the strategy says otherwise.
    open spec fn retry_outcome(&self, error: AgentErrorV, attempt: u32, r: bool) -> bool {
        true
    }

    /// Whether `d` can be the wait the strategy asks for before attempt
    /// number `attempt`: any can, unless the strategy says otherwise (a
    /// strategy may draw it at random).
    open spec fn delay_outcome(&self, attempt: u32, d: Duration) -> bool {
        true
    }

    /// Whether `error` on attempt number `attempt` should be retried.
    fn should_retry(&self, error: &AgentError, attempt: u32) -> (r: bool)
        ensures
            self.retry_outcome(error@, attempt, r),
    ;

    /// How long to wait before attempt number `attempt`.
    fn delay(&self, attempt: u32) -> (r: Duration)
        ensures
            self.delay_outcome(attempt, r),
    ;
}

/// The retry rule of the default strategy: only transient errors are
/// retried, and only while attempts remain.
pub open spec fn default_retry_spec(max_attempts: u32, error: AgentErrorV, attempt: u32) -> bool {
    attempt < max_attempts && error.retryable()
}

/// Whether the default strategy, allowing `max_attempts` attempts in all,
/// retries `error` on attempt number `attempt`.
pub fn default_should_retry(max_attempts: u32, error: &AgentError, attempt: u32) -> (r: bool)
    ensures
        r == default_retry_spec(max_attempts, error@, attempt),
{
    if attempt >= max_attempts {
        return false;
    }
    error.is_retryable()
}

/// What the loop does with a stream error.
#[derive(Debug)]
pub enum StreamErrorAction {
    /// The context window overflowed: recover, then try again.
    ContextOverflow,
    /// Wait `delay`, then try again; `reset_cache` asks for the prompt-cache
    /// state to be reset first (after a cache miss).
    Retry { delay: Duration, reset_cache: bool },
    /// The call was cancelled.
    Aborted,
    /// Give up with `error`; `reset_cache` as for `Retry`.
    Fatal { error: AgentError, reset_cache: bool },
}

/// Whether the retry strategy is asked about an error: it is, unless the
/// error is a context overflow or a cancellation.
pub open spec fn consults_strategy(error: AgentErrorV) -> bool {
    !(error is ContextWindowOverflow) && !(error is Aborted)
}

/// The action for a classified stream error, given the retry strategy's
/// answer (`Some(delay)` when it grants a retry).
pub fn stream_error_step(error: AgentError, granted: Option<Duration>) -> (r: StreamErrorAction)
    ensures
        error@ is ContextWindowOverflow ==> r is ContextOverflow,
        error@ is Aborted ==> r is Aborted,
        consults_strategy(error@) ==> match granted {
            Some(d) => r == (StreamErrorAction::Retry { delay: d, reset_cache: error@ is CacheMiss }),
            None => r matches StreamErrorAction::Fatal { error: e, reset_cache } && e@ == error@
                && reset_cache == (error@ is CacheMiss),
        },
{
    match error {
        AgentError::ContextWindowOverflow { .. } => StreamErrorAction::ContextOverflow,
        AgentError::Aborted => StreamErrorAction::Aborted,
        other => {
            let reset_cache = match &other {
                AgentError::CacheMiss => true,
                _ => false,
            };
            match granted {
                Some(delay) => StreamErrorAction::Retry { delay, reset_cache },
                None => StreamErrorAction::Fatal { error: other, reset_cache },
            }
        },
    }
}

/// The action for a classified stream error on attempt `attempt`: the
/// strategy is asked only when the error is neither an overflow nor a
/// cancellation, and its answer decides between retrying and giving up.
pub fn decide_stream_error<R: RetryStrategy + ?Sized>(strategy: &R, error: AgentError, attempt: u32) -> (r: StreamErrorAction)
    ensures
        error@ is ContextWindowOverflow ==> r is ContextOverflow,
        error@ is Aborted ==> r is Aborted,
        consults_strategy(error@) ==> (r matches StreamErrorAction::Retry { reset_cache, .. } && reset_cache == (error@ is CacheMiss))
            || (r matches StreamErrorAction::Fatal { error: e, reset_cache } && e@ == error@ && reset_cache == (error@ is CacheMiss)),
        consults_strategy(error@) && r is Retry ==> strategy.retry_outcome(error@, attempt, true),
        consults_strategy(error@) && r is Fatal ==> strategy.retry_outcome(error@, attempt, false),
        r matches StreamErrorAction::Retry { delay, .. } ==> strategy.delay_outcome(attempt, delay),
{
    let consult = match &error {
        AgentError::ContextWindowOverflow { .. } => false,
        AgentError::Aborted => false,
        _ => true,
    };
    let granted = if consult && strategy.should_retry(&error, attempt) {
        Some(strategy.delay(attempt))
    } else {
        None
    };
    stream_error_step(error, granted)
}

/// Whether a model's result sends the loop on to the next fallback model:
/// only a message that failed with a retryable error does.
pub open spec fn falls_back(result: StreamResult) -> bool {
    match result {
        StreamResult::Message(m) => m.stop_reason == StopReason::Error && fallback_eligible_spec(m@),
        _ => false,
    }
}

/// See [`falls_back`].
pub fn should_fall_back(result: &StreamResult) -> (r: bool)
    ensures
        r == falls_back(*result),
{
    match result {
        StreamResult::Message(m) => m.stop_reason == StopReason::Error && is_fallback_eligible_error(m),
        _ => false,
    }
}

} // verus!
