use serde_json::Value;

use swink_agent::stream::{
    accumulate_message, sanitize_incomplete_tool_calls, stream_tolerates_truncation,
    AssistantMessageEvent as E,
};
use swink_agent::{AssistantMessage, ContentBlock, StopReason, StreamErrorKind, Usage};

fn usage(input: u64, output: u64) -> Usage {
    Usage { input, output, cache_read: 0, cache_write: 0, total: input + output }
}

fn done(stop_reason: StopReason) -> E {
    E::Done { stop_reason, usage: usage(3, 4) }
}

fn text_delta(i: usize, s: &str) -> E {
    E::TextDelta { content_index: i, delta: s.to_string() }
}

fn tool_delta(i: usize, s: &str) -> E {
    E::ToolCallDelta { content_index: i, delta: s.to_string() }
}

fn tool_start(i: usize, id: &str, name: &str) -> E {
    E::ToolCallStart { content_index: i, id: id.to_string(), name: name.to_string() }
}

fn ok(events: Vec<E>) -> AssistantMessage {
    match accumulate_message(events, "prov", "model-1") {
        Ok(m) => m,
        Err(e) => panic!("accumulation refused: {e}"),
    }
}

fn refused(events: Vec<E>) -> String {
    match accumulate_message(events, "prov", "model-1") {
        Ok(m) => panic!("accumulation accepted: {m:?}"),
        Err(e) => e,
    }
}

#[test]
fn text_response_accumulates_to_its_text() {
    let m = ok(E::text_response("hello world"));
    assert_eq!(m.content.len(), 1);
    assert!(matches!(&m.content[0], ContentBlock::Text { text } if text == "hello world"));
    assert_eq!(m.stop_reason, StopReason::Stop);
    assert_eq!(m.usage, Usage::default());
    assert_eq!(m.provider, "prov");
    assert_eq!(m.model_id, "model-1");
    assert!(m.error_message.is_none());
    assert!(m.error_kind.is_none());
    assert!(m.cache_hint.is_none());
}

#[test]
fn text_deltas_concatenate_in_order() {
    let m = ok(vec![
        E::Start,
        E::TextStart { content_index: 0 },
        text_delta(0, "Hel"),
        text_delta(0, "lo"),
        text_delta(0, "!"),
        E::TextEnd { content_index: 0 },
        done(StopReason::Stop),
    ]);
    assert!(matches!(&m.content[0], ContentBlock::Text { text } if text == "Hello!"));
    assert_eq!(m.usage, usage(3, 4));
}

#[test]
fn thinking_text_and_tool_call_blocks_keep_their_positions() {
    let m = ok(vec![
        E::Start,
        E::ThinkingStart { content_index: 0 },
        E::ThinkingDelta { content_index: 0, delta: "let me ".to_string() },
        E::ThinkingDelta { content_index: 0, delta: "think".to_string() },
        E::ThinkingEnd { content_index: 0, signature: Some("sig".to_string()) },
        E::TextStart { content_index: 1 },
        text_delta(1, "calling"),
        E::TextEnd { content_index: 1 },
        tool_start(2, "call_1", "read_file"),
        tool_delta(2, "{\"path\":"),
        tool_delta(2, "\"a.txt\"}"),
        E::ToolCallEnd { content_index: 2 },
        done(StopReason::ToolUse),
    ]);
    assert_eq!(m.content.len(), 3);
    assert!(matches!(&m.content[0],
        ContentBlock::Thinking { thinking, signature: Some(s) } if thinking == "let me think" && s == "sig"));
    assert!(matches!(&m.content[1], ContentBlock::Text { text } if text == "calling"));
    match &m.content[2] {
        ContentBlock::ToolCall { id, name, arguments, partial_json } => {
            assert_eq!(id, "call_1");
            assert_eq!(name, "read_file");
            assert_eq!(arguments.get("path"), Some(&Value::from("a.txt")));
            assert!(partial_json.is_none());
        },
        other => panic!("expected a tool call, got {other:?}"),
    }
    assert_eq!(m.stop_reason, StopReason::ToolUse);
}

#[test]
fn tool_call_without_argument_text_gets_an_empty_object() {
    let m = ok(vec![
        E::Start,
        tool_start(0, "c", "noop"),
        E::ToolCallEnd { content_index: 0 },
        done(StopReason::ToolUse),
    ]);
    match &m.content[0] {
        ContentBlock::ToolCall { arguments, partial_json, .. } => {
            assert!(arguments.as_object().is_some_and(|o| o.is_empty()));
            assert!(partial_json.is_none());
        },
        other => panic!("expected a tool call, got {other:?}"),
    }
}

#[test]
fn error_event_finishes_the_message_with_its_error() {
    let m = ok(vec![
        E::Start,
        E::TextStart { content_index: 0 },
        text_delta(0, "partial"),
        E::TextEnd { content_index: 0 },
        E::error_throttled("rate limited"),
    ]);
    assert_eq!(m.stop_reason, StopReason::Error);
    assert_eq!(m.error_message.as_deref(), Some("rate limited"));
    assert_eq!(m.error_kind, Some(StreamErrorKind::Throttled));
    assert_eq!(m.usage, Usage::default());
    assert!(matches!(&m.content[0], ContentBlock::Text { text } if text == "partial"));
}

#[test]
fn error_constructors_carry_their_kind() {
    let cases = [
        (E::error("e"), None),
        (E::error_throttled("e"), Some(StreamErrorKind::Throttled)),
        (E::error_context_overflow("e"), Some(StreamErrorKind::ContextWindowExceeded)),
        (E::error_auth("e"), Some(StreamErrorKind::Auth)),
        (E::error_network("e"), Some(StreamErrorKind::Network)),
        (E::error_content_filtered("e"), Some(StreamErrorKind::ContentFiltered)),
        (E::error_model_retired("e"), Some(StreamErrorKind::ModelRetired)),
    ];
    for (event, kind) in cases {
        match event {
            E::Error { stop_reason, error_message, usage, error_kind, retry_after } => {
                assert_eq!(stop_reason, StopReason::Error);
                assert_eq!(error_message, "e");
                assert!(usage.is_none());
                assert_eq!(error_kind, kind);
                assert!(retry_after.is_none());
            },
            other => panic!("expected an error event, got {other:?}"),
        }
    }
}

#[test]
fn missing_start_is_refused() {
    assert_eq!(refused(vec![]), "no Start event found");
    assert_eq!(refused(vec![E::TextStart { content_index: 0 }]), "TextStart before Start");
}

#[test]
fn missing_terminal_event_is_refused() {
    assert_eq!(
        refused(vec![E::Start, E::TextStart { content_index: 0 }, E::TextEnd { content_index: 0 }]),
        "no terminal event (Done or Error) found"
    );
}

#[test]
fn duplicate_start_and_events_after_the_end_are_refused() {
    assert_eq!(refused(vec![E::Start, E::Start, done(StopReason::Stop)]), "duplicate Start event");
    assert_eq!(
        refused(vec![E::Start, done(StopReason::Stop), E::TextStart { content_index: 0 }]),
        "content event after terminal event"
    );
    assert_eq!(
        refused(vec![E::Start, done(StopReason::Stop), done(StopReason::Stop)]),
        "duplicate terminal event"
    );
    assert_eq!(refused(vec![E::Start, done(StopReason::Stop), E::Start]), "Start event after terminal event");
}

#[test]
fn block_addressing_mistakes_are_refused() {
    assert_eq!(
        refused(vec![E::Start, E::TextStart { content_index: 1 }, done(StopReason::Stop)]),
        "TextStart content_index 1 != content length 0"
    );
    assert_eq!(
        refused(vec![E::Start, text_delta(3, "x"), done(StopReason::Stop)]),
        "TextDelta: invalid content_index 3"
    );
    assert_eq!(
        refused(vec![E::Start, E::ThinkingStart { content_index: 0 }, text_delta(0, "x")]),
        "TextDelta: block at index 0 is not Text"
    );
    assert_eq!(
        refused(vec![
            E::Start,
            E::TextStart { content_index: 0 },
            E::TextEnd { content_index: 0 },
            text_delta(0, "late"),
        ]),
        "TextDelta: block at index 0 is already closed"
    );
}

#[test]
fn terminal_event_with_an_open_block_is_refused() {
    assert_eq!(
        refused(vec![E::Start, E::TextStart { content_index: 0 }, done(StopReason::Stop)]),
        "Done received with unterminated content block at index 0"
    );
}

#[test]
fn malformed_tool_arguments_are_refused() {
    let e = refused(vec![
        E::Start,
        tool_start(0, "c", "t"),
        tool_delta(0, "{not json"),
        E::ToolCallEnd { content_index: 0 },
        done(StopReason::ToolUse),
    ]);
    assert!(e.starts_with("ToolCallEnd: failed to parse arguments JSON: "), "{e}");
}

#[test]
fn truncated_tool_call_is_kept_when_the_length_limit_stopped_the_stream() {
    let events = vec![
        E::Start,
        tool_start(0, "c", "t"),
        tool_delta(0, "{\"a\": 1"),
        done(StopReason::Length),
    ];
    assert!(stream_tolerates_truncation(&events));
    let mut m = ok(events);
    assert_eq!(m.stop_reason, StopReason::Length);
    match &m.content[0] {
        ContentBlock::ToolCall { partial_json, .. } => assert_eq!(partial_json.as_deref(), Some("{\"a\": 1")),
        other => panic!("expected a tool call, got {other:?}"),
    }
    assert_eq!(sanitize_incomplete_tool_calls(&mut m), 1);
    match &m.content[0] {
        ContentBlock::ToolCall { arguments, partial_json, .. } => {
            assert!(arguments.as_object().is_some_and(|o| o.is_empty()));
            assert!(partial_json.is_none());
        },
        other => panic!("expected a tool call, got {other:?}"),
    }
    assert_eq!(sanitize_incomplete_tool_calls(&mut m), 0);
}

#[test]
fn truncation_is_not_tolerated_without_a_length_stop() {
    let events = vec![E::Start, tool_start(0, "c", "t"), tool_delta(0, "{"), done(StopReason::Stop)];
    assert!(!stream_tolerates_truncation(&events));
    assert_eq!(refused(events), "Done received with unterminated content block at index 0");
}
