use std::time::Duration;

use swink_agent::error::AgentError;
use swink_agent::policy::PolicyVerdict;
use swink_agent::retry::{
    decide_stream_error, default_should_retry, should_fall_back, stream_error_step, RetryStrategy,
    StreamErrorAction,
};
use swink_agent::turn::{
    accumulate_turn_state, after_follow_up, after_post_loop, after_turn, apply_pre_turn_verdict,
    begin_turn, build_snapshot, extract_tool_calls, record_error_stop,
    recover_incomplete_tool_calls, LoopAction, LoopState, StreamResult, TurnEndReason,
    TurnOutcome,
};
use swink_agent::{
    AgentMessage, AssistantMessage, ContentBlock, CustomMessage, LlmMessage, StopReason, Usage,
    UserMessage,
};

fn user(text: &str) -> AgentMessage {
    AgentMessage::Llm(LlmMessage::User(UserMessage {
        content: vec![ContentBlock::Text { text: text.to_string() }],
        timestamp: 0,
        cache_hint: None,
    }))
}

fn custom() -> AgentMessage {
    AgentMessage::Custom(CustomMessage {
        kind: "note".to_string(),
        payload: "x".to_string(),
        cloneable: true,
    })
}

fn assistant(content: Vec<ContentBlock>, stop_reason: StopReason) -> AssistantMessage {
    AssistantMessage {
        content,
        provider: "p".to_string(),
        model_id: "m".to_string(),
        usage: Usage { input: 3, output: 4, cache_read: 0, cache_write: 0, total: 7 },
        stop_reason,
        error_message: None,
        error_kind: None,
        timestamp: 0,
        cache_hint: None,
    }
}

fn call(id: &str, partial: Option<&str>) -> ContentBlock {
    ContentBlock::ToolCall {
        id: id.to_string(),
        name: format!("tool_{id}"),
        arguments: serde_json::Value::Null,
        partial_json: partial.map(str::to_string),
    }
}

#[test]
fn first_turn_exposes_initial_messages_as_new() {
    let mut state = LoopState::new(vec![user("a"), user("b")]);
    state.pending_messages.push(user("c"));
    let start = begin_turn(&mut state);
    assert_eq!(start, 0);
    assert_eq!(state.context_messages.len(), 3);
    assert!(state.pending_messages.is_empty());
    assert_eq!(state.initial_new_messages_len, 0);

    state.turn_index = 1;
    state.pending_messages.push(user("d"));
    let start = begin_turn(&mut state);
    assert_eq!(start, 3);
    assert_eq!(state.context_messages.len(), 4);
}

#[test]
fn pre_turn_verdicts() {
    let mut state = LoopState::new(vec![]);
    assert!(!apply_pre_turn_verdict(&mut state, PolicyVerdict::Continue));
    assert!(!apply_pre_turn_verdict(&mut state, PolicyVerdict::Inject(vec![user("x")])));
    assert_eq!(state.pending_messages.len(), 1);
    assert!(apply_pre_turn_verdict(&mut state, PolicyVerdict::Stop("budget".to_string())));
    assert_eq!(state.pending_messages.len(), 1);
}

#[test]
fn loop_control_transitions() {
    let mut state = LoopState::new(vec![]);
    assert_eq!(after_turn(&mut state, TurnOutcome::ContinueInner), LoopAction::RunTurn);
    assert_eq!(state.turn_index, 1);
    assert_eq!(after_turn(&mut state, TurnOutcome::BreakInner), LoopAction::EvaluatePostLoop);
    assert_eq!(after_turn(&mut state, TurnOutcome::Return), LoopAction::Exit);
    assert_eq!(state.turn_index, 1);

    assert_eq!(after_post_loop(&mut state, PolicyVerdict::Continue, true), LoopAction::PollFollowUp);
    assert_eq!(after_post_loop(&mut state, PolicyVerdict::Continue, false), LoopAction::EmitAgentEnd);
    assert_eq!(
        after_post_loop(&mut state, PolicyVerdict::Stop("done".to_string()), true),
        LoopAction::EmitAgentEnd
    );
    assert_eq!(
        after_post_loop(&mut state, PolicyVerdict::Inject(vec![user("more")]), true),
        LoopAction::RunTurn
    );
    assert_eq!(state.pending_messages.len(), 1);

    assert_eq!(after_follow_up(&mut state, vec![]), LoopAction::EmitAgentEnd);
    assert_eq!(after_follow_up(&mut state, vec![user("f")]), LoopAction::RunTurn);
    assert_eq!(state.pending_messages.len(), 2);
}

#[test]
fn snapshot_keeps_model_visible_messages() {
    let mut state = LoopState::new(vec![user("a"), custom(), user("b")]);
    state.turn_index = 4;
    let snapshot = build_snapshot(&state, StopReason::Stop, None);
    assert_eq!(snapshot.turn_index, 4);
    assert_eq!(snapshot.messages.len(), 2);
    assert_eq!(snapshot.stop_reason, StopReason::Stop);
    let msg = assistant(vec![], StopReason::Stop);
    accumulate_turn_state(&mut state, &msg);
    assert_eq!(state.accumulated_usage.total, 7);
    assert!(state.last_assistant_message.is_some());
}

#[test]
fn error_stop_is_recorded_with_repaired_calls() {
    let mut state = LoopState::new(vec![user("a")]);
    let msg = assistant(vec![call("1", Some("{\"x"))], StopReason::Aborted);
    let (reported, reason, snapshot) = record_error_stop(&mut state, msg);
    assert_eq!(reason, TurnEndReason::Aborted);
    assert_eq!(state.context_messages.len(), 2);
    assert_eq!(snapshot.messages.len(), 2);
    assert_eq!(snapshot.stop_reason, StopReason::Aborted);
    match &reported.content[0] {
        ContentBlock::ToolCall { partial_json, arguments, .. } => {
            assert!(partial_json.is_none());
            assert!(arguments.is_object());
        }
        other => panic!("expected a tool call, got {other:?}"),
    }
    let (_, reason, _) = record_error_stop(&mut state, assistant(vec![], StopReason::Error));
    assert_eq!(reason, TurnEndReason::Error);
}

#[test]
fn tool_calls_are_extracted_in_order() {
    let msg = assistant(
        vec![
            ContentBlock::Text { text: "thinking aloud".to_string() },
            call("1", None),
            call("2", Some("{")),
        ],
        StopReason::ToolUse,
    );
    let calls = extract_tool_calls(&msg);
    assert_eq!(calls.len(), 2);
    assert_eq!(calls[0].id, "1");
    assert_eq!(calls[0].name, "tool_1");
    assert!(!calls[0].is_incomplete);
    assert!(calls[1].is_incomplete);
}

#[test]
fn truncated_calls_get_error_results() {
    let msg = assistant(vec![call("1", Some("{")), call("2", None), call("3", Some(""))], StopReason::Length);
    let mut calls = extract_tool_calls(&msg);
    let results = recover_incomplete_tool_calls(&mut calls, StopReason::Length);
    assert_eq!(calls.len(), 1);
    assert_eq!(calls[0].id, "2");
    assert_eq!(results.len(), 2);
    assert_eq!(results[0].tool_call_id, "1");
    assert_eq!(results[1].tool_call_id, "3");
    assert!(results.iter().all(|r| r.is_error));
    match &results[0].content[0] {
        ContentBlock::Text { text } => {
            assert_eq!(text, "error: tool call was incomplete due to max tokens reached")
        }
        other => panic!("expected text, got {other:?}"),
    }

    let mut calls = extract_tool_calls(&msg);
    let results = recover_incomplete_tool_calls(&mut calls, StopReason::ToolUse);
    assert!(results.is_empty());
    assert_eq!(calls.len(), 3);
}

struct Twice;

impl RetryStrategy for Twice {
    fn should_retry(&self, error: &AgentError, attempt: u32) -> bool {
        default_should_retry(2, error, attempt)
    }

    fn delay(&self, attempt: u32) -> Duration {
        Duration::from_millis(100 * u64::from(attempt))
    }
}

#[test]
fn default_retry_rule() {
    assert!(default_should_retry(3, &AgentError::ModelThrottled, 1));
    assert!(default_should_retry(3, &AgentError::network("reset"), 2));
    assert!(!default_should_retry(3, &AgentError::ModelThrottled, 3));
    assert!(!default_should_retry(3, &AgentError::ContentFiltered, 1));
}

#[test]
fn stream_error_actions() {
    assert!(matches!(
        stream_error_step(AgentError::ContextWindowOverflow { model: "m".to_string() }, None),
        StreamErrorAction::ContextOverflow
    ));
    assert!(matches!(stream_error_step(AgentError::Aborted, Some(Duration::ZERO)), StreamErrorAction::Aborted));
    assert!(matches!(
        stream_error_step(AgentError::CacheMiss, Some(Duration::from_secs(1))),
        StreamErrorAction::Retry { reset_cache: true, .. }
    ));
    assert!(matches!(
        stream_error_step(AgentError::CacheMiss, None),
        StreamErrorAction::Fatal { error: AgentError::CacheMiss, reset_cache: true }
    ));

    let strategy = Twice;
    match decide_stream_error(&strategy, AgentError::ModelThrottled, 1) {
        StreamErrorAction::Retry { delay, reset_cache } => {
            assert_eq!(delay, Duration::from_millis(100));
            assert!(!reset_cache);
        }
        other => panic!("expected a retry, got {other:?}"),
    }
    assert!(matches!(
        decide_stream_error(&strategy, AgentError::ModelThrottled, 2),
        StreamErrorAction::Fatal { error: AgentError::ModelThrottled, reset_cache: false }
    ));
    assert!(matches!(decide_stream_error(&strategy, AgentError::Aborted, 1), StreamErrorAction::Aborted));
}

#[test]
fn fallback_only_for_retryable_failures() {
    let mut failed = assistant(vec![], StopReason::Error);
    failed.error_message = Some("rate limit exceeded (429)".to_string());
    assert!(should_fall_back(&StreamResult::Message(failed)));
    let mut filtered = assistant(vec![], StopReason::Error);
    filtered.error_message = Some("content filter triggered".to_string());
    assert!(!should_fall_back(&StreamResult::Message(filtered)));
    assert!(!should_fall_back(&StreamResult::Message(assistant(vec![], StopReason::Stop))));
    assert!(!should_fall_back(&StreamResult::Aborted));
    assert!(!should_fall_back(&StreamResult::ContextOverflow));
}

#[test]
fn dynamic_prompt_becomes_a_user_message_unless_empty() {
    assert!(swink_agent::turn::dynamic_prompt_message(String::new()).is_none());
    match swink_agent::turn::dynamic_prompt_message("be brief".to_string()) {
        Some(LlmMessage::User(u)) => {
            assert_eq!(u.content.len(), 1);
            assert!(matches!(&u.content[0], ContentBlock::Text { text } if text == "be brief"));
            assert!(u.cache_hint.is_none());
        },
        other => panic!("expected a user message, got {other:?}"),
    }
}

struct OnlyThird;

impl RetryStrategy for OnlyThird {
    fn should_retry(&self, _error: &AgentError, attempt: u32) -> bool {
        attempt == 3
    }

    fn delay(&self, attempt: u32) -> Duration {
        Duration::from_secs(u64::from(attempt))
    }
}

#[test]
fn strategy_is_asked_about_the_actual_attempt() {
    match decide_stream_error(&OnlyThird, AgentError::network("reset"), 3) {
        StreamErrorAction::Retry { delay, reset_cache } => {
            assert_eq!(delay, Duration::from_secs(3));
            assert!(!reset_cache);
        }
        other => panic!("expected a retry, got {other:?}"),
    }
    assert!(matches!(
        decide_stream_error(&OnlyThird, AgentError::CacheMiss, 1),
        StreamErrorAction::Fatal { error: AgentError::CacheMiss, reset_cache: true }
    ));
    // Overflows are never handed to the strategy.
    assert!(matches!(
        decide_stream_error(&OnlyThird, AgentError::ContextWindowOverflow { model: String::new() }, 3),
        StreamErrorAction::ContextOverflow
    ));
}
