use std::sync::Arc;

use swink_agent::error::AgentError;
use swink_agent::orchestrator::{
    failure_step, AgentOrchestrator, DefaultSupervisor, FailureStep, SupervisorAction,
    SupervisorPolicy,
};

type Factory = fn();
type Orch = AgentOrchestrator<Factory, DefaultSupervisor>;

fn not_called() {
    panic!("not called")
}

#[test]
fn add_agent_and_names() {
    let mut orch: Orch = AgentOrchestrator::new();
    orch.add_agent("alpha", not_called);
    orch.add_agent("beta", not_called);

    let mut names = orch.names();
    names.sort_unstable();
    assert_eq!(names, vec!["alpha", "beta"]);
}

#[test]
fn contains_registered() {
    let mut orch: Orch = AgentOrchestrator::new();
    orch.add_agent("a", not_called);
    assert!(orch.contains("a"));
    assert!(!orch.contains("b"));
}

#[test]
fn parent_child_hierarchy() {
    let mut orch: Orch = AgentOrchestrator::new();
    orch.add_agent("parent", not_called);
    orch.add_child("child1", "parent", not_called);
    orch.add_child("child2", "parent", not_called);

    assert_eq!(orch.parent_of("child1"), Some("parent"));
    assert_eq!(orch.parent_of("child2"), Some("parent"));
    assert_eq!(orch.parent_of("parent"), None);

    let children = orch.children_of("parent").unwrap();
    assert_eq!(children, &["child1", "child2"]);
    assert!(orch.children_of("child1").unwrap().is_empty());
}

#[test]
fn default_supervisor_retryable_restarts() {
    let supervisor = DefaultSupervisor::default();
    assert_eq!(supervisor.max_restarts(), 3);

    let retryable = AgentError::ModelThrottled;
    assert_eq!(
        supervisor.on_agent_error("test", &retryable),
        SupervisorAction::Restart
    );

    let non_retryable = AgentError::Aborted;
    assert_eq!(
        supervisor.on_agent_error("test", &non_retryable),
        SupervisorAction::Stop
    );
}

#[test]
fn supervisor_action_variants() {
    assert_eq!(format!("{:?}", SupervisorAction::Restart), "Restart");
    assert_eq!(format!("{:?}", SupervisorAction::Stop), "Stop");
    assert_eq!(format!("{:?}", SupervisorAction::Escalate), "Escalate");
}

#[test]
fn orchestrator_debug_format() {
    let orch: Orch = AgentOrchestrator::new();
    let debug = format!("{orch:?}");
    assert!(debug.contains("AgentOrchestrator"));
    assert!(debug.contains("channel_buffer"));
}

#[test]
fn with_supervisor_sets_policy() {
    let orch: Orch = AgentOrchestrator::new().with_supervisor(Arc::new(DefaultSupervisor::default()));
    assert!(orch.has_supervisor());
}

#[test]
fn with_channel_buffer_sets_size() {
    let orch: Orch = AgentOrchestrator::new().with_channel_buffer(64);
    assert_eq!(orch.channel_buffer(), 64);
}

#[test]
fn with_max_restarts_sets_default() {
    let mut orch: Orch = AgentOrchestrator::new().with_max_restarts(5);
    orch.add_agent("a", not_called);
    assert_eq!(orch.max_restarts_of("a"), Some(5));
}

#[test]
fn default_impl() {
    let orch: Orch = AgentOrchestrator::default();
    assert!(orch.is_empty());
    assert!(!orch.has_supervisor());
}

#[test]
fn custom_supervisor_policy() {
    struct AlwaysEscalate;
    impl SupervisorPolicy for AlwaysEscalate {
        fn on_agent_error(&self, _name: &str, _error: &AgentError) -> SupervisorAction {
            SupervisorAction::Escalate
        }
    }

    let supervisor = AlwaysEscalate;
    assert_eq!(
        supervisor.on_agent_error("x", &AgentError::ModelThrottled),
        SupervisorAction::Escalate
    );
}

#[test]
fn grandchild_hierarchy() {
    let mut orch: Orch = AgentOrchestrator::new();
    orch.add_agent("root", not_called);
    orch.add_child("mid", "root", not_called);
    orch.add_child("leaf", "mid", not_called);

    assert_eq!(orch.parent_of("leaf"), Some("mid"));
    assert_eq!(orch.parent_of("mid"), Some("root"));
    assert_eq!(orch.parent_of("root"), None);

    assert_eq!(orch.children_of("root").unwrap(), &["mid"]);
    assert_eq!(orch.children_of("mid").unwrap(), &["leaf"]);
    assert!(orch.children_of("leaf").unwrap().is_empty());
}

#[test]
fn unknown_agent_has_no_parent_or_children() {
    let orch: Orch = AgentOrchestrator::new();
    assert_eq!(orch.parent_of("ghost"), None);
    assert!(orch.children_of("ghost").is_none());
    assert_eq!(orch.max_restarts_of("ghost"), None);
    assert!(orch.factory_of("ghost").is_none());
}

#[test]
fn failure_step_restarts_until_budget_is_spent() {
    assert_eq!(
        failure_step(Some(SupervisorAction::Restart), 0, 3),
        FailureStep::Restart { restarts: 1 }
    );
    assert_eq!(
        failure_step(Some(SupervisorAction::Restart), 2, 3),
        FailureStep::Restart { restarts: 3 }
    );
    assert_eq!(failure_step(Some(SupervisorAction::Restart), 3, 3), FailureStep::Stop);
    assert_eq!(failure_step(Some(SupervisorAction::Stop), 0, 3), FailureStep::Stop);
    assert_eq!(failure_step(Some(SupervisorAction::Escalate), 0, 3), FailureStep::Escalate);
    assert_eq!(failure_step(None, 0, 3), FailureStep::Escalate);
}

#[test]
fn default_supervisor_decides_by_retryability() {
    let supervisor = DefaultSupervisor::new(7);
    assert_eq!(supervisor.max_restarts(), 7);
    assert_eq!(supervisor.decide(&AgentError::network("reset")), SupervisorAction::Restart);
    assert_eq!(supervisor.decide(&AgentError::ContentFiltered), SupervisorAction::Stop);
}

fn first_factory() {}

fn second_factory() {}

#[test]
fn factory_of_returns_the_named_agents_factory() {
    let mut orch: Orch = AgentOrchestrator::new();
    orch.add_agent("first", first_factory);
    orch.add_agent("second", second_factory);
    orch.add_child("third", "first", not_called);
    assert_eq!(*orch.factory_of("first").unwrap() as usize, first_factory as usize);
    assert_eq!(*orch.factory_of("second").unwrap() as usize, second_factory as usize);
    assert_eq!(*orch.factory_of("third").unwrap() as usize, not_called as usize);
}

#[test]
fn refused_child_registration_keeps_the_hierarchy() {
    let mut orch: Orch = AgentOrchestrator::new();
    orch.add_agent("parent1", not_called);
    orch.add_agent("parent2", not_called);
    orch.add_child("child", "parent1", not_called);

    assert_eq!(
        orch.registration_refusal("child", Some("parent2")).as_deref(),
        Some("agent 'child' already registered")
    );
    assert_eq!(
        orch.registration_refusal("other", Some("missing")).as_deref(),
        Some("parent agent 'missing' not registered")
    );
    assert_eq!(
        orch.registration_refusal("parent1", None).as_deref(),
        Some("agent 'parent1' already registered")
    );
    assert_eq!(orch.registration_refusal("fresh", Some("parent2")), None);
    assert_eq!(orch.registration_refusal("fresh", None), None);

    assert_eq!(orch.parent_of("child"), Some("parent1"));
    assert_eq!(orch.children_of("parent1").unwrap(), &["child"]);
    assert!(orch.children_of("parent2").unwrap().is_empty());
}

#[test]
fn duplicate_child_registration_preserves_existing_hierarchy() {
    let mut orch: Orch = AgentOrchestrator::new();
    orch.add_agent("parent1", not_called);
    orch.add_agent("parent2", not_called);
    orch.add_child("child", "parent1", not_called);

    let duplicate = orch.try_add_child("child", "parent2", not_called);

    assert!(duplicate.is_err());
    assert_eq!(orch.parent_of("child"), Some("parent1"));
    assert_eq!(orch.children_of("parent1").unwrap(), &["child"]);
    assert!(orch.children_of("parent2").unwrap().is_empty());
}

#[test]
fn refused_registrations_carry_the_reason() {
    let mut orch: Orch = AgentOrchestrator::new();
    assert_eq!(orch.try_add_child("child", "missing", not_called), Err("parent agent 'missing' not registered".to_string()));
    assert_eq!(orch.try_add_agent("alpha", not_called), Ok(()));
    assert_eq!(orch.try_add_agent("alpha", not_called), Err("agent 'alpha' already registered".to_string()));
    assert_eq!(orch.try_add_child("beta", "alpha", not_called), Ok(()));
    assert_eq!(orch.len(), 2);
    assert_eq!(orch.parent_of("beta"), Some("alpha"));
}
