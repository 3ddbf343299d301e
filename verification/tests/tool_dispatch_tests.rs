use swink_agent::dispatch::{check_custom_partition, dispatch_step, join_errors, DispatchStep};
use swink_agent::tool::AgentToolResult;
use swink_agent::ContentBlock;

fn only_text(result: &AgentToolResult) -> String {
    assert_eq!(result.content.len(), 1);
    match &result.content[0] {
        ContentBlock::Text { text } => text.clone(),
        other => panic!("expected a text block, got {other:?}"),
    }
}

#[test]
fn unknown_tool_is_answered_without_running() {
    match dispatch_step(false, Ok(()), "ghost") {
        DispatchStep::UnknownTool(result) => {
            assert!(result.is_error);
            assert_eq!(only_text(&result), "unknown tool: ghost");
        },
        _ => panic!("expected an unknown-tool answer"),
    }
    // The tool's absence wins over any schema problem.
    let step = dispatch_step(false, Err(vec!["missing field `path`".to_string()]), "ghost");
    assert!(matches!(step, DispatchStep::UnknownTool(_)));
}

#[test]
fn schema_invalid_arguments_are_answered_without_running() {
    let errors = vec!["missing field `path`".to_string(), "`depth` must be an integer".to_string()];
    match dispatch_step(true, Err(errors), "read_file") {
        DispatchStep::InvalidArguments(result) => {
            assert!(result.is_error);
            assert_eq!(
                only_text(&result),
                "invalid arguments: missing field `path`; `depth` must be an integer"
            );
        },
        _ => panic!("expected an invalid-arguments answer"),
    }
}

#[test]
fn valid_known_call_executes() {
    assert!(matches!(dispatch_step(true, Ok(()), "read_file"), DispatchStep::Execute));
}

#[test]
fn schema_errors_are_joined_in_order() {
    assert_eq!(join_errors(&vec![]), "");
    assert_eq!(join_errors(&vec!["a".to_string()]), "a");
    assert_eq!(join_errors(&vec!["a".to_string(), "b".to_string(), "c".to_string()]), "a; b; c");
}

#[test]
fn custom_partition_is_kept_when_valid() {
    let groups = vec![vec![1], vec![0, 2]];
    match check_custom_partition(groups.clone(), 3) {
        Ok(kept) => assert_eq!(kept, groups),
        Err(_) => panic!("a valid partition is kept"),
    }
    // Leaving a prepared call out is allowed.
    assert!(check_custom_partition(vec![vec![0]], 2).is_ok());
}

#[test]
fn custom_partition_out_of_range_is_refused() {
    match check_custom_partition(vec![vec![0], vec![2]], 2) {
        Err(result) => {
            assert!(result.is_error);
            let text = only_text(&result);
            assert!(text.contains("invalid partition"), "{text}");
            assert!(text.contains("prepared index 2"), "{text}");
            assert_eq!(
                text,
                "custom tool execution strategy returned an invalid partition: prepared index 2 is out of range for 2 prepared tool calls"
            );
        },
        Ok(_) => panic!("an out-of-range index is refused"),
    }
}

#[test]
fn custom_partition_duplicate_is_refused() {
    match check_custom_partition(vec![vec![0, 1], vec![0]], 2) {
        Err(result) => assert_eq!(
            only_text(&result),
            "custom tool execution strategy returned an invalid partition: repeated prepared index 0"
        ),
        Ok(_) => panic!("a repeated index is refused"),
    }
}
