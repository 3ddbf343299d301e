use std::sync::Arc;

use swink_agent::context::ContextMessages;
use swink_agent::{AgentMessage, ContentBlock, LlmMessage, UserMessage};

fn user_msg(text: &str) -> AgentMessage {
    AgentMessage::Llm(LlmMessage::User(UserMessage {
        content: vec![ContentBlock::Text {
            text: text.to_string(),
        }],
        timestamp: 0,
        cache_hint: None,
    }))
}

fn text_of(message: &LlmMessage) -> &str {
    match message {
        LlmMessage::User(u) => match &u.content[0] {
            ContentBlock::Text { text } => text,
            other => panic!("expected text content, got {other:?}"),
        },
        other => panic!("expected user message, got {other:?}"),
    }
}

fn snapshot_reuses_arcs_for_untouched_prefix_body() {
    let mut context = ContextMessages::new(vec![user_msg("a"), user_msg("b")]);
    let first = context.snapshot_llm();

    context.push(user_msg("c"));
    let second = context.snapshot_llm();

    assert_eq!(first.len(), 2);
    assert_eq!(second.len(), 3);
    assert!(
        Arc::ptr_eq(&first[0], &second[0]) && Arc::ptr_eq(&first[1], &second[1]),
        "untouched prefix must be shared, not deep-copied"
    );
    assert_eq!(text_of(&second[2]), "c");
}

fn set_invalidates_mirror_from_replaced_index_body() {
    let mut context = ContextMessages::new(vec![user_msg("a"), user_msg("b"), user_msg("c")]);
    let first = context.snapshot_llm();

    context.set(1, user_msg("b2"));
    let second = context.snapshot_llm();

    assert!(
        Arc::ptr_eq(&first[0], &second[0]),
        "prefix before the replaced index stays shared"
    );
    assert!(
        !Arc::ptr_eq(&first[1], &second[1]),
        "the replaced message must be re-cloned"
    );
    assert_eq!(text_of(&second[1]), "b2");
    assert_eq!(text_of(&second[2]), "c");
}

fn make_mut_invalidates_whole_mirror_and_reflects_mutation_body() {
    let mut context = ContextMessages::new(vec![user_msg("a"), user_msg("b")]);
    let first = context.snapshot_llm();

    if let AgentMessage::Llm(LlmMessage::User(u)) = &mut context.make_mut()[0] {
        u.content = vec![ContentBlock::Text {
            text: "a2".to_string(),
        }];
    }
    let second = context.snapshot_llm();

    assert!(
        !Arc::ptr_eq(&first[0], &second[0]),
        "bulk mutation must invalidate the mirror"
    );
    assert_eq!(text_of(&second[0]), "a2");
    assert_eq!(text_of(&second[1]), "b");
}

fn take_vec_empties_history_and_mirror_body() {
    let mut context = ContextMessages::new(vec![user_msg("a")]);
    let _ = context.snapshot_llm();

    let taken = context.take_vec();

    assert_eq!(taken.len(), 1);
    assert!(context.as_slice().is_empty());
    assert!(context.snapshot_llm().is_empty());
}

#[test]
fn types_snapshot_reuses_arcs_for_untouched_prefix() {
    snapshot_reuses_arcs_for_untouched_prefix_body();
}

#[test]
fn types_set_invalidates_mirror_from_replaced_index() {
    set_invalidates_mirror_from_replaced_index_body();
}

#[test]
fn types_make_mut_invalidates_whole_mirror_and_reflects_mutation() {
    make_mut_invalidates_whole_mirror_and_reflects_mutation_body();
}

#[test]
fn types_take_vec_empties_history_and_mirror() {
    take_vec_empties_history_and_mirror_body();
}

#[test]
fn types_tests_snapshot_reuses_arcs_for_untouched_prefix() {
    snapshot_reuses_arcs_for_untouched_prefix_body();
}

#[test]
fn types_tests_set_invalidates_mirror_from_replaced_index() {
    set_invalidates_mirror_from_replaced_index_body();
}

#[test]
fn types_tests_make_mut_invalidates_whole_mirror_and_reflects_mutation() {
    make_mut_invalidates_whole_mirror_and_reflects_mutation_body();
}

#[test]
fn types_tests_take_vec_empties_history_and_mirror() {
    take_vec_empties_history_and_mirror_body();
}

#[test]
fn custom_messages_are_left_out_of_snapshots() {
    let custom = AgentMessage::Custom(swink_agent::CustomMessage {
        kind: "note".to_string(),
        payload: "ui only".to_string(),
        cloneable: true,
    });
    let mut context = ContextMessages::new(vec![user_msg("a"), custom, user_msg("b")]);
    let snap = context.snapshot_llm();
    assert_eq!(snap.len(), 2);
    assert_eq!(text_of(&snap[0]), "a");
    assert_eq!(text_of(&snap[1]), "b");
    assert_eq!(context.len(), 3);
}

#[test]
fn append_and_extend_keep_the_mirror() {
    let mut context = ContextMessages::new(vec![user_msg("a")]);
    let first = context.snapshot_llm();
    let mut more = vec![user_msg("b")];
    context.append(&mut more);
    assert!(more.is_empty());
    context.extend(vec![user_msg("c")]);
    let second = context.snapshot_llm();
    assert!(Arc::ptr_eq(&first[0], &second[0]));
    assert_eq!(second.len(), 3);
    assert_eq!(text_of(&second[2]), "c");
    assert_eq!(context.into_vec().len(), 3);
}
