use std::sync::Arc;

use swink_agent::connections::{same_model, ModelConnection, ModelConnections};
use swink_agent::{ModelSpec, ThinkingLevel};

fn conn(model: &str, tag: &str) -> ModelConnection<str> {
    ModelConnection::new(ModelSpec::new("prov", model), Arc::from(tag))
}

#[test]
fn extra_connections_drop_repeated_models() {
    let connections = ModelConnections::new(
        conn("a", "primary"),
        vec![conn("b", "b1"), conn("a", "a-again"), conn("b", "b2"), conn("c", "c1")],
    );
    assert_eq!(connections.primary_model().model_id, "a");
    assert_eq!(&*connections.primary_stream_fn(), "primary");
    let extras: Vec<(&str, &str)> =
        connections.extra_models().iter().map(|(m, s)| (m.model_id.as_str(), &**s)).collect();
    assert_eq!(extras, vec![("b", "b1"), ("c", "c1")]);
}

#[test]
fn models_differing_in_thinking_level_are_distinct() {
    let plain = ModelSpec::new("prov", "m");
    let thinking = ModelSpec::new("prov", "m").with_thinking_level(ThinkingLevel::High);
    assert!(same_model(&plain, &ModelSpec::new("prov", "m")));
    assert!(!same_model(&plain, &thinking));
    let connections = ModelConnections::new(
        ModelConnection::new(plain, Arc::<str>::from("p")),
        vec![ModelConnection::new(thinking, Arc::<str>::from("t"))],
    );
    assert_eq!(connections.extra_models().len(), 1);
}

#[test]
fn builder_keeps_primary_and_fallbacks_in_order() {
    let (primary, stream_fn, extras) = ModelConnections::builder()
        .fallback(conn("x", "x1"))
        .primary(conn("p", "p1"))
        .fallback(conn("y", "y1"))
        .fallback(conn("p", "p2"))
        .build()
        .into_parts();
    assert_eq!(primary.model_id, "p");
    assert_eq!(&*stream_fn, "p1");
    let ids: Vec<&str> = extras.iter().map(|(m, _)| m.model_id.as_str()).collect();
    assert_eq!(ids, vec!["x", "y"]);
}
