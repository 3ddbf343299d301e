use swink_agent::context::{annotate_cache_prefix, cache_prefix_tokens};
use swink_agent::{AgentMessage, CacheHint, ContentBlock, LlmMessage, UserMessage};

fn user(text: &str, hint: Option<CacheHint>) -> AgentMessage {
    AgentMessage::Llm(LlmMessage::User(UserMessage {
        content: vec![ContentBlock::Text { text: text.to_string() }],
        timestamp: 0,
        cache_hint: hint,
    }))
}

fn hint_of(message: &AgentMessage) -> Option<CacheHint> {
    match message {
        AgentMessage::Llm(LlmMessage::User(u)) => u.cache_hint,
        other => panic!("expected a user message, got {other:?}"),
    }
}

#[test]
fn cache_prefix_is_annotated_and_the_rest_cleared() {
    let mut messages = vec![user("a", None), user("b", None), user("c", Some(CacheHint::Read))];
    annotate_cache_prefix(&mut messages, 2, CacheHint::Write);
    assert_eq!(messages.len(), 3);
    assert_eq!(hint_of(&messages[0]), Some(CacheHint::Write));
    assert_eq!(hint_of(&messages[1]), Some(CacheHint::Write));
    assert_eq!(hint_of(&messages[2]), None);

    annotate_cache_prefix(&mut messages, 0, CacheHint::Read);
    assert!(messages.iter().all(|m| hint_of(m).is_none()));
}

#[test]
fn cache_prefix_needs_enough_tokens() {
    // The first two messages hold 30 + 50 tokens.
    assert_eq!(cache_prefix_tokens(&[30, 50, 1000], 2, 80), Some(80));
    assert_eq!(cache_prefix_tokens(&[30, 50, 1000], 2, 81), None);
    // A prefix longer than the history counts every message.
    assert_eq!(cache_prefix_tokens(&[30, 50], 5, 10), Some(80));
    // An empty prefix has no tokens.
    assert_eq!(cache_prefix_tokens(&[30, 50], 0, 0), Some(0));
    assert_eq!(cache_prefix_tokens(&[30, 50], 0, 1), None);
}
