use swink_agent::dispatch::{
    approval_panic_result, approval_step, batch_stop_results, build_aborted_outcome,
    build_completed_outcome, build_steering_outcome, build_stopped_outcome, build_transfer_outcome,
    compute_execution_groups, error_result_message, fill_results, first_index_of,
    order_results_by_tool_calls, should_request_approval, split_results, validate_partition,
    ApprovalMode, ApprovalStep, ExecutionMode, ToolApproval,
};
use swink_agent::tool::AgentToolResult;
use swink_agent::turn::{ToolCallInfo, ToolExecOutcome};
use swink_agent::{AgentMessage, ContentBlock, LlmMessage, ToolResultMessage, UserMessage};

fn call(id: &str) -> ToolCallInfo {
    ToolCallInfo {
        id: id.to_string(),
        name: format!("tool_{id}"),
        arguments: serde_json::Value::Null,
        is_incomplete: false,
    }
}

fn result(id: &str, text: &str) -> ToolResultMessage {
    ToolResultMessage {
        tool_call_id: id.to_string(),
        content: vec![ContentBlock::Text { text: text.to_string() }],
        is_error: false,
        timestamp: 0,
    }
}

fn text(r: &ToolResultMessage) -> &str {
    match &r.content[0] {
        ContentBlock::Text { text } => text,
        other => panic!("expected text, got {other:?}"),
    }
}

#[test]
fn results_follow_call_order_and_last_result_wins() {
    let calls = vec![call("a"), call("b"), call("c")];
    let gathered = vec![(2, result("c", "c1")), (0, result("a", "a1")), (2, result("c", "c2"))];
    let ordered = order_results_by_tool_calls(&calls, &gathered);
    assert_eq!(ordered.len(), 2);
    assert_eq!(ordered[0].tool_call_id, "a");
    assert_eq!(ordered[1].tool_call_id, "c");
    assert_eq!(text(&ordered[1]), "c2");
}

#[test]
fn interrupted_batches_cancel_unfinished_calls() {
    let calls = vec![call("a"), call("b"), call("c")];
    let gathered = vec![(1, result("b", "done"))];

    let filled = fill_results(&calls, &gathered, "cancelled");
    assert_eq!(filled.len(), 3);
    assert_eq!(text(&filled[0]), "cancelled");
    assert!(filled[0].is_error);
    assert_eq!(text(&filled[1]), "done");
    assert_eq!(filled[2].tool_call_id, "c");

    let (done, cancelled) = split_results(&calls, &gathered, "stop");
    assert_eq!(done.len(), 1);
    assert_eq!(cancelled.len(), 2);
    assert_eq!(cancelled[0].tool_call_id, "a");
    assert_eq!(cancelled[1].tool_call_id, "c");

    let stops = batch_stop_results(&calls, &gathered, "budget");
    assert_eq!(stops.len(), 2);
    assert_eq!(stops[0].0, 0);
    assert_eq!(stops[1].0, 2);
    assert_eq!(text(&stops[1].1), "policy stopped tool batch before dispatch: budget");
}

#[test]
fn outcomes_carry_the_expected_cancellation_texts() {
    let calls = vec![call("a"), call("b")];
    let gathered = vec![(0, result("a", "ok"))];
    match build_aborted_outcome(&calls, &gathered, vec![], vec![]) {
        ToolExecOutcome::Aborted { results, .. } => {
            assert_eq!(text(&results[1]), "tool call cancelled: operation aborted")
        }
        _ => panic!("expected Aborted"),
    }
    match build_transfer_outcome(&calls, &gathered, vec![], vec![]) {
        ToolExecOutcome::Completed { results, .. } => {
            assert_eq!(text(&results[1]), "tool call cancelled: transfer initiated")
        }
        _ => panic!("expected Completed"),
    }
    let steering = vec![AgentMessage::Llm(LlmMessage::User(UserMessage {
        content: vec![],
        timestamp: 0,
        cache_hint: None,
    }))];
    match build_steering_outcome(&calls, &gathered, vec![], steering, vec![]) {
        ToolExecOutcome::SteeringInterrupt { completed, cancelled, steering_messages, .. } => {
            assert_eq!(completed.len(), 1);
            assert_eq!(text(&cancelled[0]), "tool call cancelled: user requested steering interrupt");
            assert_eq!(steering_messages.len(), 1);
        }
        _ => panic!("expected SteeringInterrupt"),
    }
    match build_completed_outcome(&calls, &gathered, vec![], vec![]) {
        ToolExecOutcome::Completed { results, .. } => {
            assert_eq!(results.len(), 2);
            assert_eq!(results[0].tool_call_id, "a");
            assert_eq!(text(&results[0]), "ok");
            assert_eq!(results[1].tool_call_id, "b");
            assert!(results[1].is_error);
            assert_eq!(text(&results[1]), "tool call was not run: the execution strategy left it out");
        }
        _ => panic!("expected Completed"),
    }
}

#[test]
fn first_registered_tool_wins() {
    let names = vec!["x".to_string(), "y".to_string(), "x".to_string()];
    assert_eq!(first_index_of(&names, "x"), Some(0));
    assert_eq!(first_index_of(&names, "y"), Some(1));
    assert_eq!(first_index_of(&names, "z"), None);
}

#[test]
fn approval_gate_rules() {
    assert!(should_request_approval(true, ApprovalMode::Enabled, false));
    assert!(should_request_approval(true, ApprovalMode::Smart, true));
    assert!(!should_request_approval(true, ApprovalMode::Smart, false));
    assert!(!should_request_approval(true, ApprovalMode::Bypassed, true));
    assert!(!should_request_approval(false, ApprovalMode::Enabled, true));

    match approval_step(ToolApproval::Rejected, "rm", serde_json::Value::Null) {
        ApprovalStep::Reject(r) => {
            assert!(r.is_error);
            let ContentBlock::Text { text } = &r.content[0] else { panic!("expected text") };
            assert_eq!(text, "Tool call 'rm' was rejected by the approval gate.");
        }
        ApprovalStep::Proceed(_) => panic!("expected a rejection"),
    }
    match approval_step(ToolApproval::ApprovedWith(serde_json::Value::Bool(true)), "rm", serde_json::Value::Null) {
        ApprovalStep::Proceed(v) => assert_eq!(v, serde_json::Value::Bool(true)),
        ApprovalStep::Reject(_) => panic!("expected approval"),
    }
    match approval_step(ToolApproval::Approved, "rm", serde_json::Value::Null) {
        ApprovalStep::Proceed(v) => assert!(v.is_null()),
        ApprovalStep::Reject(_) => panic!("expected approval"),
    }
    let panicked = approval_panic_result("rm", "boom");
    let ContentBlock::Text { text } = &panicked.content[0] else { panic!("expected text") };
    assert_eq!(text, "Tool call 'rm' was rejected because the approval callback panicked: boom");
}

#[test]
fn error_results_become_tool_result_messages() {
    let msg = error_result_message("call_9", AgentToolResult::error("bad".to_string()));
    assert_eq!(msg.tool_call_id, "call_9");
    assert!(msg.is_error);
    assert_eq!(text(&msg), "bad");
}

#[test]
fn execution_groups_per_mode() {
    assert!(compute_execution_groups(ExecutionMode::Concurrent, &[]).is_empty());
    assert_eq!(compute_execution_groups(ExecutionMode::Concurrent, &[0, 0, 0]), vec![vec![0, 1, 2]]);
    assert_eq!(compute_execution_groups(ExecutionMode::Sequential, &[5, 1]), vec![vec![0], vec![1]]);
    assert_eq!(
        compute_execution_groups(ExecutionMode::Priority, &[1, 3, 1, 3, 2]),
        vec![vec![1, 3], vec![4], vec![0, 2]]
    );
    assert_eq!(compute_execution_groups(ExecutionMode::Priority, &[-1]), vec![vec![0]]);
}

#[test]
fn custom_partitions_are_checked() {
    assert!(validate_partition(&vec![vec![1], vec![0]], 2).is_ok());
    assert!(validate_partition(&vec![vec![0]], 2).is_ok());
    let err = validate_partition(&vec![vec![0], vec![2]], 2).unwrap_err();
    assert!(err.contains("prepared index 2"), "{err}");
    assert_eq!(err, "prepared index 2 is out of range for 2 prepared tool calls");
    let err = validate_partition(&vec![vec![0, 0]], 2).unwrap_err();
    assert_eq!(err, "repeated prepared index 0");
}

use swink_agent::dispatch::{
    after_tool_finished, pre_dispatch_step, tool_failure_result, GroupOutcome, PreDispatchStep,
};
use swink_agent::policy::PreDispatchVerdict;

#[test]
fn group_collection_stops_on_interrupts() {
    assert_eq!(after_tool_finished(true, true, 3), Some(GroupOutcome::SteeringInterrupt));
    assert_eq!(after_tool_finished(false, true, 3), Some(GroupOutcome::TransferInterrupt));
    assert_eq!(after_tool_finished(false, false, 0), Some(GroupOutcome::Continue));
    assert_eq!(after_tool_finished(false, false, 2), None);
    let failure = tool_failure_result("boom");
    assert!(failure.is_error);
    let ContentBlock::Text { text } = &failure.content[0] else { panic!("expected text") };
    assert_eq!(text, "tool execution panicked: boom");
}

#[test]
fn pre_dispatch_verdicts_per_call() {
    let mut injected: Vec<AgentMessage> = Vec::new();
    assert!(matches!(pre_dispatch_step(PreDispatchVerdict::Continue, &mut injected), PreDispatchStep::Proceed));
    let note = AgentMessage::Llm(LlmMessage::User(UserMessage { content: vec![], timestamp: 0, cache_hint: None }));
    assert!(matches!(pre_dispatch_step(PreDispatchVerdict::Inject(vec![note]), &mut injected), PreDispatchStep::Proceed));
    assert_eq!(injected.len(), 1);
    match pre_dispatch_step(PreDispatchVerdict::Skip("not allowed".to_string()), &mut injected) {
        PreDispatchStep::Skip(r) => {
            assert!(r.is_error);
            let ContentBlock::Text { text } = &r.content[0] else { panic!("expected text") };
            assert_eq!(text, "not allowed");
        }
        _ => panic!("expected a skip"),
    }
    match pre_dispatch_step(PreDispatchVerdict::Stop("halt".to_string()), &mut injected) {
        PreDispatchStep::StopBatch(reason) => assert_eq!(reason, "halt"),
        _ => panic!("expected a stop"),
    }
    assert_eq!(injected.len(), 1);
}

#[test]
fn mod_pre_dispatch_stop_preserves_result_parity_for_remaining_tool_calls() {
    let tool_calls = vec![
        ToolCallInfo {
            id: "call_1".to_string(),
            name: "tool_one".to_string(),
            arguments: serde_json::from_str("{\"first\": true}").unwrap(),
            is_incomplete: false,
        },
        ToolCallInfo {
            id: "call_2".to_string(),
            name: "tool_two".to_string(),
            arguments: serde_json::from_str("{\"second\": true}").unwrap(),
            is_incomplete: false,
        },
    ];
    let outcome = build_stopped_outcome(&tool_calls, &[], vec![], "blocked by policy".to_string(), vec![]);
    let ToolExecOutcome::Stopped { results, reason, .. } = outcome else {
        panic!("expected stopped outcome");
    };
    assert_eq!(results.len(), 2, "each tool call should receive a result");
    assert_eq!(reason, "blocked by policy");
    assert_eq!(
        results.iter().map(|result| result.tool_call_id.as_str()).collect::<Vec<_>>(),
        vec!["call_1", "call_2"]
    );
    assert!(results.iter().all(|result| result.is_error), "stopped tool calls should surface as errors");
    assert!(
        results.iter().all(|result| matches!(
            result.content.as_slice(),
            [ContentBlock::Text { text }] if text.contains("policy stopped tool batch before dispatch")
        )),
        "synthetic results should explain the batch stop"
    );
}

#[test]
fn stopped_batch_keeps_earlier_results_in_call_order() {
    let calls = vec![call("a"), call("b"), call("c")];
    let gathered = vec![(1, result("b", "skipped"))];
    match build_stopped_outcome(&calls, &gathered, vec![], "budget".to_string(), vec![]) {
        ToolExecOutcome::Stopped { results, reason, .. } => {
            assert_eq!(reason, "budget");
            let ids: Vec<&str> = results.iter().map(|r| r.tool_call_id.as_str()).collect();
            assert_eq!(ids, vec!["a", "b", "c"]);
            assert_eq!(text(&results[0]), "policy stopped tool batch before dispatch: budget");
            assert_eq!(text(&results[1]), "skipped");
            assert_eq!(text(&results[2]), "policy stopped tool batch before dispatch: budget");
        }
        _ => panic!("expected Stopped"),
    }
}
