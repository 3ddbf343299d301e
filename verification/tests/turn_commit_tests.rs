use swink_agent::overflow::{
    after_compaction, begin_overflow_recovery, record_overflow_error, retry_recovered, OverflowStep,
};
use swink_agent::policy::PolicyVerdict;
use swink_agent::turn::{LoopState, StreamResult, ToolExecOutcome, TurnEndReason, TurnOutcome};
use swink_agent::turn_commit::{
    absorb_tool_outcome, apply_post_turn_verdict, commit_tool_results, recommit_assistant,
    replacement_preserves_tool_calls, text_turn_outcome, tool_turn_end_reason, tool_turn_outcome,
    ToolBatchStep,
};
use swink_agent::{
    AgentMessage, AssistantMessage, ContentBlock, LlmMessage, ModelSpec, StopReason,
    ToolResultMessage, Usage, UserMessage,
};

fn assistant(content: Vec<ContentBlock>) -> AssistantMessage {
    AssistantMessage {
        content,
        provider: "p".to_string(),
        model_id: "m".to_string(),
        usage: Usage::default(),
        stop_reason: StopReason::ToolUse,
        error_message: None,
        error_kind: None,
        timestamp: 0,
        cache_hint: None,
    }
}

fn call(id: &str) -> ContentBlock {
    ContentBlock::ToolCall {
        id: id.to_string(),
        name: "t".to_string(),
        arguments: serde_json::Value::Null,
        partial_json: None,
    }
}

fn text(t: &str) -> ContentBlock {
    ContentBlock::Text { text: t.to_string() }
}

fn user(t: &str) -> AgentMessage {
    AgentMessage::Llm(LlmMessage::User(UserMessage { content: vec![text(t)], timestamp: 0, cache_hint: None }))
}

fn result(id: &str) -> ToolResultMessage {
    ToolResultMessage { tool_call_id: id.to_string(), content: vec![text("ok")], is_error: false, timestamp: 0 }
}

#[test]
fn replacement_must_keep_tool_calls() {
    let original = assistant(vec![text("a"), call("1")]);
    assert!(replacement_preserves_tool_calls(&original, &assistant(vec![call("1"), text("b")])));
    assert!(!replacement_preserves_tool_calls(&original, &assistant(vec![call("2")])));
    assert!(!replacement_preserves_tool_calls(&original, &assistant(vec![])));
}

#[test]
fn post_turn_injection_replaces_and_queues() {
    let mut state = LoopState::new(vec![]);
    let original = assistant(vec![text("first"), call("1")]);
    let keeps = assistant(vec![text("rewritten"), call("1")]);
    let drops_call = assistant(vec![text("no calls")]);
    let verdict = PolicyVerdict::Inject(vec![
        AgentMessage::Llm(LlmMessage::Assistant(keeps)),
        user("note"),
        AgentMessage::Llm(LlmMessage::Assistant(drops_call)),
    ]);
    let (msg, stop) = apply_post_turn_verdict(&mut state, original, verdict);
    assert!(stop.is_none());
    assert!(matches!(&msg.content[0], ContentBlock::Text { text } if text == "rewritten"));
    assert_eq!(state.pending_messages.len(), 1);
    assert!(state.last_assistant_message.is_some());

    let (msg, stop) = apply_post_turn_verdict(&mut state, assistant(vec![]), PolicyVerdict::Stop("enough".to_string()));
    assert_eq!(stop.as_deref(), Some("enough"));
    assert!(msg.content.is_empty());
}

#[test]
fn tool_outcomes_fold_into_the_turn() {
    let mut state = LoopState::new(vec![]);
    let outcome = ToolExecOutcome::SteeringInterrupt {
        completed: vec![result("a")],
        cancelled: vec![result("b")],
        steering_messages: vec![user("steer")],
        tool_metrics: vec![],
        injected_messages: vec![user("injected")],
    };
    match absorb_tool_outcome(&mut state, vec![result("x")], outcome) {
        ToolBatchStep::Continue(rep) => {
            assert_eq!(rep.results.len(), 3);
            assert_eq!(rep.results[0].tool_call_id, "x");
            assert!(rep.steering_interrupted);
            assert!(rep.dispatch_stop_reason.is_none());
        }
        _ => panic!("expected the turn to go on"),
    }
    assert_eq!(state.pending_messages.len(), 2);

    let stopped = ToolExecOutcome::Stopped {
        results: vec![],
        tool_metrics: vec![],
        reason: "policy".to_string(),
        injected_messages: vec![],
    };
    match absorb_tool_outcome(&mut state, vec![], stopped) {
        ToolBatchStep::Continue(rep) => assert_eq!(rep.dispatch_stop_reason.as_deref(), Some("policy")),
        _ => panic!("expected the turn to go on"),
    }
    assert!(matches!(absorb_tool_outcome(&mut state, vec![], ToolExecOutcome::ChannelClosed), ToolBatchStep::ChannelClosed));
    let aborted = ToolExecOutcome::Aborted { results: vec![result("z")], tool_metrics: vec![], injected_messages: vec![] };
    match absorb_tool_outcome(&mut state, vec![], aborted) {
        ToolBatchStep::Aborted { results, .. } => assert_eq!(results.len(), 1),
        _ => panic!("expected an abort"),
    }
}

#[test]
fn tool_results_join_the_history() {
    let mut state = LoopState::new(vec![user("q")]);
    commit_tool_results(&mut state, &vec![result("a"), result("b")]);
    assert_eq!(state.context_messages.len(), 3);
    assert_eq!(state.last_tool_results.len(), 2);
    recommit_assistant(&mut state, 0, assistant(vec![text("replaced")]));
    assert!(matches!(&state.context_messages.as_slice()[0], AgentMessage::Llm(LlmMessage::Assistant(_))));
}

#[test]
fn turn_outcomes() {
    assert_eq!(tool_turn_end_reason(true), TurnEndReason::SteeringInterrupt);
    assert_eq!(tool_turn_end_reason(false), TurnEndReason::ToolsExecuted);
    assert_eq!(text_turn_outcome(true, true), TurnOutcome::Return);
    assert_eq!(text_turn_outcome(false, true), TurnOutcome::BreakInner);
    assert_eq!(text_turn_outcome(false, false), TurnOutcome::ContinueInner);
    assert_eq!(tool_turn_outcome(false, false, false), (TurnOutcome::ContinueInner, true));
    assert_eq!(tool_turn_outcome(false, false, true), (TurnOutcome::ContinueInner, false));
    assert_eq!(tool_turn_outcome(true, false, false), (TurnOutcome::Return, false));
    assert_eq!(tool_turn_outcome(false, true, false), (TurnOutcome::Return, false));
}

#[test]
fn overflow_recovery_is_tried_once() {
    let mut state = LoopState::new(vec![user("q")]);
    assert_eq!(begin_overflow_recovery(&mut state, false), OverflowStep::SurfaceError);
    assert!(!state.overflow_recovery_attempted);
    assert_eq!(begin_overflow_recovery(&mut state, true), OverflowStep::Compact);
    assert!(state.overflow_signal);
    assert!(after_compaction(&mut state, true));
    assert!(!state.overflow_signal);
    assert_eq!(begin_overflow_recovery(&mut state, true), OverflowStep::SurfaceError);
    assert!(!retry_recovered(&StreamResult::ContextOverflow));
    assert!(retry_recovered(&StreamResult::Aborted));

    let model = ModelSpec::new("prov", "big-model");
    let (msg, snapshot) = record_overflow_error(&mut state, &model);
    assert_eq!(msg.stop_reason, StopReason::Error);
    assert_eq!(msg.error_message.as_deref(), Some("context window overflow for model big-model"));
    assert_eq!(state.context_messages.len(), 2);
    assert_eq!(snapshot.stop_reason, StopReason::Error);
}

#[test]
fn json_equal_arguments_count_as_the_same_call() {
    let with_args = |text: &str| ContentBlock::ToolCall {
        id: "c".to_string(),
        name: "t".to_string(),
        arguments: serde_json::from_str(text).unwrap(),
        partial_json: None,
    };
    // Zero and negative zero are equal JSON numbers, though not the same value.
    assert!(with_args("0.0").same_as(&with_args("-0.0")));
    assert!(with_args("{\"a\": 1}").same_as(&with_args("{\"a\": 1}")));
    assert!(!with_args("{\"a\": 1}").same_as(&with_args("{\"a\": 2}")));
    assert!(!with_args("1").same_as(&text("1")));
}
