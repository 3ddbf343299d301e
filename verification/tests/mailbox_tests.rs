use swink_agent::mailbox::Inbox;
use swink_agent::{AgentMessage, ContentBlock, LlmMessage, UserMessage};

fn user(text: &str) -> AgentMessage {
    AgentMessage::Llm(LlmMessage::User(UserMessage {
        content: vec![ContentBlock::Text { text: text.to_string() }],
        timestamp: 0,
        cache_hint: None,
    }))
}

fn text_of(message: &AgentMessage) -> &str {
    match message {
        AgentMessage::Llm(LlmMessage::User(u)) => match &u.content[0] {
            ContentBlock::Text { text } => text,
            other => panic!("expected text, got {other:?}"),
        },
        other => panic!("expected a user message, got {other:?}"),
    }
}

#[test]
fn inbox_drains_in_sending_order() {
    let mut inbox = Inbox::new();
    assert!(inbox.is_empty());
    assert!(!inbox.has_messages());
    inbox.send(user("first"));
    inbox.send(user("second"));
    assert_eq!(inbox.len(), 2);
    assert!(inbox.has_messages());
    let drained = inbox.drain();
    assert_eq!(drained.iter().map(text_of).collect::<Vec<_>>(), vec!["first", "second"]);
    assert!(inbox.is_empty());
    assert_eq!(inbox.len(), 0);
    assert!(inbox.drain().is_empty());
}

