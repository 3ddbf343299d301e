//! Multi-agent bookkeeping: named agents, their parent/child hierarchy, and
//! the supervision decisions taken when an agent fails.
use std::sync::Arc;

use vstd::prelude::*;

use crate::error::{AgentError, AgentErrorV};
use crate::text::{concat, same_text};
use crate::types::opt_view;

verus! {

/// What the supervisor decides after an agent error.
#[non_exhaustive]
#[derive(Debug, Clone, Copy, PartialEq, Eq, Structural)]
pub enum SupervisorAction {
    /// Restart the failed agent with the same options.
    Restart,
    /// Stop the agent permanently.
    Stop,
    /// Escalate the error to the caller but keep the agent alive.
    Escalate,
}

/// Policy that determines how to handle agent failures.
pub trait SupervisorPolicy {
    /// Called when a spawned agent terminates with an error.
    fn on_agent_error(&self, name: &str, error: &AgentError) -> SupervisorAction;
}

/// A supervisor that restarts on retryable errors and stops otherwise.
#[derive(Debug, Clone, Copy)]
pub struct DefaultSupervisor {
    max_restarts: u32,
}

impl DefaultSupervisor {
    pub closed spec fn spec_max_restarts(&self) -> u32 {
        self.max_restarts
    }

    /// A supervisor that allows up to `max_restarts` consecutive restarts.
    pub fn new(max_restarts: u32) -> (r: Self)
        ensures
            r.spec_max_restarts() == max_restarts,
    {
        DefaultSupervisor { max_restarts }
    }

    /// The maximum number of consecutive restarts allowed.
    pub fn max_restarts(&self) -> (r: u32)
        ensures
            r == self.spec_max_restarts(),
    {
        self.max_restarts
    }

    /// The decision for an error: restart when it is retryable, stop otherwise.
    pub fn decide(&self, error: &AgentError) -> (r: SupervisorAction)
        ensures
            r == if error@.retryable() {
                SupervisorAction::Restart
            } else {
                SupervisorAction::Stop
            },
    {
        if error.is_retryable() {
            SupervisorAction::Restart
        } else {
            SupervisorAction::Stop
        }
    }
}

impl Default for DefaultSupervisor {
    fn default() -> (r: Self)
        ensures
            r.spec_max_restarts() == 3,
    {
        DefaultSupervisor { max_restarts: 3 }
    }
}

impl SupervisorPolicy for DefaultSupervisor {
    fn on_agent_error(&self, _name: &str, error: &AgentError) -> (r: SupervisorAction)
        ensures
            r == if error@.retryable() {
                SupervisorAction::Restart
            } else {
                SupervisorAction::Stop
            },
    {
        self.decide(error)
    }
}

/// What a supervised agent's task does after a request failed.
#[derive(Debug, Clone, Copy, PartialEq, Eq, Structural)]
pub enum FailureStep {
    /// Reply with the error and start a fresh agent; `restarts` is the new count.
    Restart { restarts: u32 },
    /// Reply with the error and keep the agent running.
    Escalate,
    /// Reply with the error and stop the agent.
    Stop,
}

/// The decision after a failed request: the supervisor's action (escalation
/// when there is no supervisor), where a restart is only granted while the
/// restart budget lasts.
pub open spec fn failure_step_spec(action: Option<SupervisorAction>, restarts: u32, max_restarts: u32) -> FailureStep {
    match action {
        None => FailureStep::Escalate,
        Some(SupervisorAction::Escalate) => FailureStep::Escalate,
        Some(SupervisorAction::Restart) => if restarts < max_restarts {
            FailureStep::Restart { restarts: (restarts + 1) as u32 }
        } else {
            FailureStep::Stop
        },
        Some(SupervisorAction::Stop) => FailureStep::Stop,
    }
}

/// Decide what a supervised agent does after a failed request.
pub fn failure_step(action: Option<SupervisorAction>, restarts: u32, max_restarts: u32) -> (r: FailureStep)
    ensures
        r == failure_step_spec(action, restarts, max_restarts),
{
    match action {
        None => FailureStep::Escalate,
        Some(SupervisorAction::Escalate) => FailureStep::Escalate,
        Some(SupervisorAction::Restart) => {
            if restarts < max_restarts {
                FailureStep::Restart { restarts: restarts + 1 }
            } else {
                FailureStep::Stop
            }
        },
        Some(SupervisorAction::Stop) => FailureStep::Stop,
    }
}

fn wrap_some<T: ?Sized>(x: Arc<T>) -> (r: Option<Arc<T>>)
    ensures
        r == Some(x),
{
    Some(x)
}

/// Registration info for one agent.
#[derive(Debug)]
struct AgentEntry<F> {
    name: String,
    options_factory: F,
    parent: Option<String>,
    children: Vec<String>,
    max_restarts: u32,
}

/// The mathematical content of an agent registration (its factory left out).
pub struct EntryV {
    pub name: Seq<char>,
    pub parent: Option<Seq<char>>,
    pub children: Seq<Seq<char>>,
    pub max_restarts: u32,
}

/// The view of an optional string slice.
pub open spec fn opt_str_view(o: Option<&str>) -> Option<Seq<char>> {
    match o {
        Some(s) => Some(s@),
        None => None,
    }
}

pub open spec fn strings_view(v: Seq<String>) -> Seq<Seq<char>> {
    v.map_values(|s: String| s@)
}

/// Whether `name` is registered.
pub open spec fn has_name(es: Seq<EntryV>, name: Seq<char>) -> bool {
    exists|i: int| 0 <= i < es.len() && (#[trigger] es[i]).name == name
}

/// Registered names are distinct, every parent is registered and lists its
/// child, and every listed child is registered with that parent.
pub open spec fn hierarchy_wf(es: Seq<EntryV>) -> bool {
    &&& forall|i: int, j: int| 0 <= i < j < es.len() ==> (#[trigger] es[i]).name != (#[trigger] es[j]).name
    &&& forall|i: int| 0 <= i < es.len() && (#[trigger] es[i]).parent is Some ==> exists|k: int|
        0 <= k < es.len() && es[k].name == es[i].parent->0 && (#[trigger] es[k].children).contains(es[i].name)
    &&& forall|k: int, c: int| #![trigger es[k].children[c]] 0 <= k < es.len() && 0 <= c < es[k].children.len() ==> exists|i: int|
        #![trigger es[i]] 0 <= i < es.len() && es[i].name == es[k].children[c] && es[i].parent == Some(es[k].name)
}

/// Why registering `name`, under `parent` when it is a child, is refused:
/// an unknown parent first, then a name already taken; `None` when it is
/// accepted.
pub open spec fn registration_problem(es: Seq<EntryV>, name: Seq<char>, parent: Option<Seq<char>>) -> Option<Seq<char>> {
    if parent is Some && !has_name(es, parent->0) {
        Some("parent agent '"@ + parent->0 + "' not registered"@)
    } else if has_name(es, name) {
        Some("agent '"@ + name + "' already registered"@)
    } else {
        None
    }
}

/// A registration is refused exactly on the inputs `add_agent` and
/// `add_child` do not take: a child whose parent is not registered, or a name
/// that is already registered.
pub proof fn lemma_refusal_is_exact(es: Seq<EntryV>, name: Seq<char>, parent: Seq<char>)
    ensures
        registration_problem(es, name, None) is None <==> !has_name(es, name),
        registration_problem(es, name, Some(parent)) is None <==> (has_name(es, parent) && !has_name(es, name)),
{
}

/// Manages a set of named agents with parent/child hierarchies and supervision.
///
/// `F` is the type of the factories that produce an agent's options each time
/// it is spawned or restarted; `S` is the supervisor policy type (usually
/// `dyn SupervisorPolicy`).
#[derive(Debug)]
pub struct AgentOrchestrator<F, S: ?Sized> {
    entries: Vec<AgentEntry<F>>,
    supervisor: Option<Arc<S>>,
    channel_buffer: usize,
    default_max_restarts: u32,
}

impl<F, S: ?Sized> Default for AgentOrchestrator<F, S> {
    fn default() -> (r: Self)
        ensures
            r.wf(),
            r.entries().len() == 0,
            !r.spec_has_supervisor(),
            r.spec_channel_buffer() == 32,
            r.spec_default_max_restarts() == 3,
    {
        Self::new()
    }
}

impl<F, S: ?Sized> AgentOrchestrator<F, S> {
    /// The registrations, in registration order.
    pub closed spec fn entries(&self) -> Seq<EntryV> {
        self.entries@.map_values(|e: AgentEntry<F>| EntryV {
            name: e.name@,
            parent: match e.parent { Some(p) => Some(p@), None => None },
            children: strings_view(e.children@),
            max_restarts: e.max_restarts,
        })
    }

    /// The options factories, in registration order (one per entry).
    pub closed spec fn factories(&self) -> Seq<F> {
        self.entries@.map_values(|e: AgentEntry<F>| e.options_factory)
    }

    pub closed spec fn spec_channel_buffer(&self) -> usize {
        self.channel_buffer
    }

    pub closed spec fn spec_default_max_restarts(&self) -> u32 {
        self.default_max_restarts
    }

    pub closed spec fn spec_has_supervisor(&self) -> bool {
        self.supervisor is Some
    }

    pub open spec fn wf(&self) -> bool {
        hierarchy_wf(self.entries())
    }

    /// An empty orchestrator: no agents, no supervisor, a request buffer of 32
    /// and a default restart budget of 3.
    pub fn new() -> (r: Self)
        ensures
            r.wf(),
            r.entries().len() == 0,
            !r.spec_has_supervisor(),
            r.spec_channel_buffer() == 32,
            r.spec_default_max_restarts() == 3,
    {
        let r = AgentOrchestrator {
            entries: Vec::new(),
            supervisor: None,
            channel_buffer: 32,
            default_max_restarts: 3,
        };
        assert(r.entries() =~= Seq::<EntryV>::empty());
        r
    }

    /// Set a supervisor policy for error recovery.
    pub fn with_supervisor(self, policy: Arc<S>) -> (r: Self)
        ensures
            r.entries() == self.entries(),
            r.factories() == self.factories(),
            r.spec_has_supervisor(),
            r.spec_channel_buffer() == self.spec_channel_buffer(),
            r.spec_default_max_restarts() == self.spec_default_max_restarts(),
    {
        let mut r = self;
        r.supervisor = wrap_some(policy);
        r
    }

    /// Set the request channel buffer size.
    pub fn with_channel_buffer(self, size: usize) -> (r: Self)
        ensures
            r.entries() == self.entries(),
            r.factories() == self.factories(),
            r.spec_has_supervisor() == self.spec_has_supervisor(),
            r.spec_channel_buffer() == size,
            r.spec_default_max_restarts() == self.spec_default_max_restarts(),
    {
        AgentOrchestrator { channel_buffer: size, ..self }
    }

    /// Set the default restart budget given to agents registered afterwards.
    pub fn with_max_restarts(self, max: u32) -> (r: Self)
        ensures
            r.entries() == self.entries(),
            r.factories() == self.factories(),
            r.spec_has_supervisor() == self.spec_has_supervisor(),
            r.spec_channel_buffer() == self.spec_channel_buffer(),
            r.spec_default_max_restarts() == max,
    {
        AgentOrchestrator { default_max_restarts: max, ..self }
    }

    /// Whether a supervisor policy is set.
    pub fn has_supervisor(&self) -> (r: bool)
        ensures
            r == self.spec_has_supervisor(),
    {
        self.supervisor.is_some()
    }

    /// The supervisor policy, if one is set.
    pub fn supervisor(&self) -> (r: Option<&Arc<S>>)
        ensures
            r is Some == self.spec_has_supervisor(),
    {
        self.supervisor.as_ref()
    }

    /// The request channel buffer size.
    pub fn channel_buffer(&self) -> (r: usize)
        ensures
            r == self.spec_channel_buffer(),
    {
        self.channel_buffer
    }

    /// Number of registered agents.
    pub fn len(&self) -> (r: usize)
        ensures
            r == self.entries().len(),
    {
        self.entries.len()
    }

    /// Whether no agent is registered.
    pub fn is_empty(&self) -> (r: bool)
        ensures
            r == (self.entries().len() == 0),
    {
        self.entries.len() == 0
    }

    fn find(&self, name: &str) -> (r: Option<usize>)
        requires
            self.wf(),
        ensures
            match r {
                Some(i) => i < self.entries().len() && self.entries()[i as int].name == name@,
                None => !has_name(self.entries(), name@),
            },
    {
        let mut i: usize = 0;
        while i < self.entries.len()
            invariant
                i <= self.entries@.len(),
                forall|j: int| 0 <= j < i ==> (#[trigger] self.entries@[j]).name@ != name@,
            decreases self.entries@.len() - i,
        {
            if same_text(self.entries[i].name.as_str(), name) {
                return Some(i);
            }
            i = i + 1;
        }
        assert forall|j: int| 0 <= j < self.entries().len() implies (#[trigger] self.entries()[j]).name != name@ by {
            assert(self.entries@[j].name@ != name@);
        }
        None
    }

    /// Whether an agent with this name is registered.
    pub fn contains(&self, name: &str) -> (r: bool)
        requires
            self.wf(),
        ensures
            r == has_name(self.entries(), name@),
    {
        self.find(name).is_some()
    }

    /// Why registering `name` (as a child of `parent`, when given) would be
    /// refused; `None` when `add_agent` or `add_child` accepts it.
    pub fn registration_refusal(&self, name: &str, parent: Option<&str>) -> (r: Option<String>)
        requires
            self.wf(),
        ensures
            opt_view(r) == registration_problem(self.entries(), name@, opt_str_view(parent)),
    {
        if let Some(p) = parent {
            if !self.contains(p) {
                let head = concat("parent agent '", p);
                return Some(concat(head.as_str(), "' not registered"));
            }
        }
        if self.contains(name) {
            let head = concat("agent '", name);
            return Some(concat(head.as_str(), "' already registered"));
        }
        None
    }

    /// The restart budget of a registered agent.
    pub fn max_restarts_of(&self, name: &str) -> (r: Option<u32>)
        requires
            self.wf(),
        ensures
            match r {
                Some(m) => exists|i: int| 0 <= i < self.entries().len() && self.entries()[i].name == name@ && self.entries()[i].max_restarts == m,
                None => !has_name(self.entries(), name@),
            },
    {
        match self.find(name) {
            Some(i) => Some(self.entries[i].max_restarts),
            None => None,
        }
    }

    /// The options factory of a registered agent.
    pub fn factory_of(&self, name: &str) -> (r: Option<&F>)
        requires
            self.wf(),
        ensures
            r is Some == has_name(self.entries(), name@),
            r matches Some(f) ==> exists|i: int|
                0 <= i < self.entries().len() && self.entries()[i].name == name@ && *f == self.factories()[i],
    {
        match self.find(name) {
            Some(i) => {
                assert(self.factories()[i as int] == self.entries@[i as int].options_factory);
                Some(&self.entries[i].options_factory)
            },
            None => None,
        }
    }

    /// Register a top-level agent with a factory for its options.
    pub fn add_agent(&mut self, name: &str, options_factory: F)
        requires
            old(self).wf(),
            !has_name(old(self).entries(), name@),
        ensures
            final(self).wf(),
            final(self).entries() == old(self).entries().push(EntryV {
                name: name@,
                parent: None,
                children: Seq::empty(),
                max_restarts: old(self).spec_default_max_restarts(),
            }),
            final(self).factories() == old(self).factories().push(options_factory),
            final(self).spec_has_supervisor() == old(self).spec_has_supervisor(),
            final(self).spec_channel_buffer() == old(self).spec_channel_buffer(),
            final(self).spec_default_max_restarts() == old(self).spec_default_max_restarts(),
    {
        let ghost es = self.entries();
        let entry = AgentEntry {
            name: name.to_owned(),
            options_factory,
            parent: None,
            children: Vec::new(),
            max_restarts: self.default_max_restarts,
        };
        self.entries.push(entry);
        let ghost ne = EntryV { name: name@, parent: None, children: Seq::empty(), max_restarts: self.default_max_restarts };
        assert(strings_view(Seq::<String>::empty()) =~= Seq::<Seq<char>>::empty());
        assert(self.entries() =~= es.push(ne));
        proof {
            lemma_add_root_keeps_wf(es, ne);
        }
    }

    /// Register a child agent under an already registered parent.
    pub fn add_child(&mut self, name: &str, parent: &str, options_factory: F)
        requires
            old(self).wf(),
            has_name(old(self).entries(), parent@),
            !has_name(old(self).entries(), name@),
        ensures
            final(self).wf(),
            exists|k: int| 0 <= k < old(self).entries().len() && old(self).entries()[k].name == parent@
                && final(self).entries() == old(self).entries().update(k, EntryV {
                    children: old(self).entries()[k].children.push(name@),
                    ..old(self).entries()[k]
                }).push(EntryV {
                    name: name@,
                    parent: Some(parent@),
                    children: Seq::empty(),
                    max_restarts: old(self).spec_default_max_restarts(),
                }),
            final(self).factories() == old(self).factories().push(options_factory),
            final(self).spec_has_supervisor() == old(self).spec_has_supervisor(),
            final(self).spec_channel_buffer() == old(self).spec_channel_buffer(),
            final(self).spec_default_max_restarts() == old(self).spec_default_max_restarts(),
    {
        let ghost es = self.entries();
        let k = match self.find(parent) {
            Some(k) => k,
            None => {
                proof {
                    assert(false);
                }
                return;
            },
        };
        self.entries[k].children.push(name.to_owned());
        let ghost pe = EntryV { children: es[k as int].children.push(name@), ..es[k as int] };
        assert(strings_view(self.entries@[k as int].children@) =~= es[k as int].children.push(name@));
        assert(self.entries() =~= es.update(k as int, pe));
        let entry = AgentEntry {
            name: name.to_owned(),
            options_factory,
            parent: Some(parent.to_owned()),
            children: Vec::new(),
            max_restarts: self.default_max_restarts,
        };
        self.entries.push(entry);
        let ghost ne = EntryV { name: name@, parent: Some(parent@), children: Seq::empty(), max_restarts: self.default_max_restarts };
        assert(strings_view(Seq::<String>::empty()) =~= Seq::<Seq<char>>::empty());
        assert(self.entries() =~= es.update(k as int, pe).push(ne));
        proof {
            lemma_add_child_keeps_wf(es, k as int, name@, self.default_max_restarts);
        }
    }

    /// Register a top-level agent, or refuse with the reason when the name is
    /// already taken; a refused registration changes nothing.
    pub fn try_add_agent(&mut self, name: &str, options_factory: F) -> (r: Result<(), String>)
        requires
            old(self).wf(),
        ensures
            final(self).wf(),
            match registration_problem(old(self).entries(), name@, None) {
                Some(problem) => r matches Err(e) && e@ == problem && *final(self) == *old(self),
                None => r is Ok
                    && final(self).entries() == old(self).entries().push(EntryV {
                        name: name@,
                        parent: None,
                        children: Seq::empty(),
                        max_restarts: old(self).spec_default_max_restarts(),
                    })
                    && final(self).factories() == old(self).factories().push(options_factory)
                    && final(self).spec_has_supervisor() == old(self).spec_has_supervisor()
                    && final(self).spec_channel_buffer() == old(self).spec_channel_buffer()
                    && final(self).spec_default_max_restarts() == old(self).spec_default_max_restarts(),
            },
    {
        match self.registration_refusal(name, None) {
            Some(problem) => Err(problem),
            None => {
                self.add_agent(name, options_factory);
                Ok(())
            },
        }
    }

    /// Register a child agent under `parent`, or refuse with the reason when
    /// the parent is unknown or the name is taken; a refused registration
    /// changes nothing, so the existing hierarchy stays as it was.
    pub fn try_add_child(&mut self, name: &str, parent: &str, options_factory: F) -> (r: Result<(), String>)
        requires
            old(self).wf(),
        ensures
            final(self).wf(),
            match registration_problem(old(self).entries(), name@, Some(parent@)) {
                Some(problem) => r matches Err(e) && e@ == problem && *final(self) == *old(self),
                None => r is Ok && exists|k: int| 0 <= k < old(self).entries().len() && old(self).entries()[k].name == parent@
                    && final(self).entries() == old(self).entries().update(k, EntryV {
                        children: old(self).entries()[k].children.push(name@),
                        ..old(self).entries()[k]
                    }).push(EntryV {
                        name: name@,
                        parent: Some(parent@),
                        children: Seq::empty(),
                        max_restarts: old(self).spec_default_max_restarts(),
                    })
                    && final(self).factories() == old(self).factories().push(options_factory)
                    && final(self).spec_has_supervisor() == old(self).spec_has_supervisor()
                    && final(self).spec_channel_buffer() == old(self).spec_channel_buffer()
                    && final(self).spec_default_max_restarts() == old(self).spec_default_max_restarts(),
            },
    {
        match self.registration_refusal(name, Some(parent)) {
            Some(problem) => Err(problem),
            None => {
                self.add_child(name, parent, options_factory);
                Ok(())
            },
        }
    }

    /// The parent of a registered agent (`None` for a top-level agent or an
    /// unknown name).
    pub fn parent_of(&self, name: &str) -> (r: Option<&str>)
        requires
            self.wf(),
        ensures
            match r {
                Some(p) => exists|i: int| 0 <= i < self.entries().len() && self.entries()[i].name == name@ && self.entries()[i].parent == Some(p@),
                None => forall|i: int| 0 <= i < self.entries().len() && (#[trigger] self.entries()[i]).name == name@ ==> self.entries()[i].parent is None,
            },
    {
        match self.find(name) {
            Some(i) => match &self.entries[i].parent {
                Some(p) => Some(p.as_str()),
                None => None,
            },
            None => None,
        }
    }

    /// The children of a registered agent, in registration order.
    pub fn children_of(&self, name: &str) -> (r: Option<&[String]>)
        requires
            self.wf(),
        ensures
            match r {
                Some(c) => exists|i: int| 0 <= i < self.entries().len() && self.entries()[i].name == name@ && self.entries()[i].children == strings_view(c@),
                None => !has_name(self.entries(), name@),
            },
    {
        match self.find(name) {
            Some(i) => Some(self.entries[i].children.as_slice()),
            None => None,
        }
    }

    /// All registered names, in registration order.
    pub fn names(&self) -> (r: Vec<&str>)
        ensures
            r@.len() == self.entries().len(),
            forall|i: int| 0 <= i < r@.len() ==> (#[trigger] r@[i])@ == self.entries()[i].name,
    {
        let mut r: Vec<&str> = Vec::new();
        let mut i: usize = 0;
        while i < self.entries.len()
            invariant
                i <= self.entries@.len(),
                r@.len() == i,
                forall|j: int| 0 <= j < i ==> (#[trigger] r@[j])@ == self.entries@[j].name@,
            decreases self.entries@.len() - i,
        {
            r.push(self.entries[i].name.as_str());
            i = i + 1;
        }
        r
    }
}

proof fn lemma_add_root_keeps_wf(es: Seq<EntryV>, ne: EntryV)
    requires
        hierarchy_wf(es),
        !has_name(es, ne.name),
        ne.parent is None,
        ne.children.len() == 0,
    ensures
        hierarchy_wf(es.push(ne)),
{
    let n = es.push(ne);
    assert forall|i: int, j: int| 0 <= i < j < n.len() implies (#[trigger] n[i]).name != (#[trigger] n[j]).name by {
        if j == es.len() {
            assert(es[i].name != ne.name);
        }
    }
    assert forall|i: int| 0 <= i < n.len() && (#[trigger] n[i]).parent is Some implies exists|k: int|
        0 <= k < n.len() && n[k].name == n[i].parent->0 && (#[trigger] n[k].children).contains(n[i].name) by {
        let k = choose|k: int| 0 <= k < es.len() && es[k].name == es[i].parent->0 && (#[trigger] es[k].children).contains(es[i].name);
        assert(n[k] == es[k]);
    }
    assert forall|k: int, c: int| #![trigger n[k].children[c]] 0 <= k < n.len() && 0 <= c < n[k].children.len() implies exists|i: int|
        #![trigger n[i]] 0 <= i < n.len() && n[i].name == n[k].children[c] && n[i].parent == Some(n[k].name) by {
        assert(n[k] == es[k]);
        let i = choose|i: int| #![trigger es[i]] 0 <= i < es.len() && es[i].name == es[k].children[c] && es[i].parent == Some(es[k].name);
        assert(n[i] == es[i]);
    }
}

proof fn lemma_add_child_keeps_wf(es: Seq<EntryV>, k: int, name: Seq<char>, m: u32)
    requires
        hierarchy_wf(es),
        0 <= k < es.len(),
        !has_name(es, name),
    ensures
        hierarchy_wf(es.update(k, EntryV { children: es[k].children.push(name), ..es[k] }).push(EntryV {
            name,
            parent: Some(es[k].name),
            children: Seq::empty(),
            max_restarts: m,
        })),
{
    let pe = EntryV { children: es[k].children.push(name), ..es[k] };
    let ne = EntryV { name, parent: Some(es[k].name), children: Seq::empty(), max_restarts: m };
    let u = es.update(k, pe);
    let n = u.push(ne);
    assert forall|i: int| 0 <= i < es.len() implies #[trigger] n[i].name == es[i].name && n[i].parent == es[i].parent by {}
    assert forall|i: int, j: int| 0 <= i < j < n.len() implies (#[trigger] n[i]).name != (#[trigger] n[j]).name by {
        if j == es.len() {
            assert(es[i].name != name);
        } else {
            assert(es[i].name != es[j].name);
        }
    }
    assert forall|i: int| 0 <= i < n.len() && (#[trigger] n[i]).parent is Some implies exists|k2: int|
        0 <= k2 < n.len() && n[k2].name == n[i].parent->0 && (#[trigger] n[k2].children).contains(n[i].name) by {
        if i == es.len() {
            assert(n[k].children == es[k].children.push(name));
            assert(n[k].children[es[k].children.len() as int] == name);
            assert(n[k].children.contains(n[i].name));
        } else {
            let k2 = choose|k2: int| 0 <= k2 < es.len() && es[k2].name == es[i].parent->0 && (#[trigger] es[k2].children).contains(es[i].name);
            let c = choose|c: int| 0 <= c < es[k2].children.len() && es[k2].children[c] == es[i].name;
            if k2 == k {
                assert(n[k2].children[c] == es[i].name);
            } else {
                assert(n[k2] == es[k2]);
            }
            assert(n[k2].children.contains(n[i].name));
        }
    }
    assert forall|k2: int, c: int| #![trigger n[k2].children[c]] 0 <= k2 < n.len() && 0 <= c < n[k2].children.len() implies exists|i: int|
        #![trigger n[i]] 0 <= i < n.len() && n[i].name == n[k2].children[c] && n[i].parent == Some(n[k2].name) by {
        if k2 == k && c == es[k].children.len() {
            assert(n[es.len() as int].name == n[k2].children[c]);
        } else {
            assert(k2 < es.len());
            assert(n[k2].children[c] == es[k2].children[c]);
            assert(0 <= c < es[k2].children.len());
            let i = choose|i: int| #![trigger es[i]] 0 <= i < es.len() && es[i].name == es[k2].children[c] && es[i].parent == Some(es[k2].name);
            assert(n[i].name == es[i].name);
        }
    }
}

} // verus!
