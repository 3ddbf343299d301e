//! Policy slots of the agent loop and how their verdicts combine.
//!
//! Four slots sit at the seams of the loop: before each model call
//! (`PreTurn`), per tool call before approval (`PreDispatch`), after each
//! completed turn (`PostTurn`) and after the inner loop exits (`PostLoop`).
//! Each slot holds a list of policies evaluated in order:
//! - the first `Stop` (or, before dispatch, `Skip`) ends the evaluation and
//!   is the slot's verdict;
//! - otherwise the messages of every `Inject` are gathered, in order;
//! - a policy whose evaluation failed counts as `Continue`.
use std::sync::Arc;

use vstd::prelude::*;

use crate::state::SessionState;
use crate::types::{
    messages_view, AgentMessage, AgentMessageV, AssistantMessage, ModelSpec, StopReason,
    ToolResultMessage, Usage,
};

verus! {

/// Outcome of a policy evaluation for the `PreTurn`, `PostTurn` and
/// `PostLoop` slots.
#[derive(Debug)]
pub enum PolicyVerdict {
    /// Proceed normally.
    Continue,
    /// Stop the loop gracefully with a reason.
    Stop(String),
    /// Add messages to the pending queue and continue.
    Inject(Vec<AgentMessage>),
}

/// Outcome of a `PreDispatch` policy evaluation.
#[derive(Debug)]
pub enum PreDispatchVerdict {
    /// Proceed normally.
    Continue,
    /// Abort the entire tool batch and stop the loop.
    Stop(String),
    /// Add messages to the pending queue and continue.
    Inject(Vec<AgentMessage>),
    /// Skip this tool call, returning the error text to the model.
    Skip(String),
}

/// The mathematical content of either verdict type.
pub enum VerdictV {
    Continue,
    Stop(Seq<char>),
    Inject(Seq<AgentMessageV>),
    Skip(Seq<char>),
}

impl View for PolicyVerdict {
    type V = VerdictV;

    open spec fn view(&self) -> VerdictV {
        match self {
            PolicyVerdict::Continue => VerdictV::Continue,
            PolicyVerdict::Stop(r) => VerdictV::Stop(r@),
            PolicyVerdict::Inject(m) => VerdictV::Inject(messages_view(m@)),
        }
    }
}

impl View for PreDispatchVerdict {
    type V = VerdictV;

    open spec fn view(&self) -> VerdictV {
        match self {
            PreDispatchVerdict::Continue => VerdictV::Continue,
            PreDispatchVerdict::Stop(r) => VerdictV::Stop(r@),
            PreDispatchVerdict::Inject(m) => VerdictV::Inject(messages_view(m@)),
            PreDispatchVerdict::Skip(t) => VerdictV::Skip(t@),
        }
    }
}

/// The view of a policy's answer, `None` when it failed to answer.
pub open spec fn policy_outcome(o: Option<PolicyVerdict>) -> Option<VerdictV> {
    match o {
        Some(v) => Some(v@),
        None => None,
    }
}

/// The view of a `PreDispatch` policy's answer.
pub open spec fn dispatch_outcome(o: Option<PreDispatchVerdict>) -> Option<VerdictV> {
    match o {
        Some(v) => Some(v@),
        None => None,
    }
}

/// A verdict that ends the evaluation of its slot.
pub open spec fn halts(v: VerdictV) -> bool {
    v is Stop || v is Skip
}

/// What one evaluation yields: `None` when the policy failed to answer.
pub open spec fn injected(o: Option<VerdictV>) -> Seq<AgentMessageV> {
    match o {
        Some(VerdictV::Inject(m)) => m,
        _ => Seq::empty(),
    }
}

pub open spec fn halted(o: Option<VerdictV>) -> bool {
    o matches Some(v) && halts(v)
}

/// All injected messages of a run of evaluations, in order.
pub open spec fn gathered(outs: Seq<Option<VerdictV>>) -> Seq<AgentMessageV>
    decreases outs.len(),
{
    if outs.len() == 0 {
        Seq::empty()
    } else {
        gathered(outs.drop_last()) + injected(outs.last())
    }
}

/// The verdict of a slot whose policies answered `outs`, in order: the first
/// halting verdict if any, else the gathered injections if there are some,
/// else `Continue`.
pub open spec fn slot_verdict(outs: Seq<Option<VerdictV>>) -> VerdictV {
    if exists|i: int| 0 <= i < outs.len() && halted(#[trigger] outs[i]) {
        let i = choose|i: int| 0 <= i < outs.len() && halted(#[trigger] outs[i])
            && forall|j: int| 0 <= j < i ==> !halted(#[trigger] outs[j]);
        outs[i]->Some_0
    } else if gathered(outs).len() > 0 {
        VerdictV::Inject(gathered(outs))
    } else {
        VerdictV::Continue
    }
}

/// Whether `outs` is what an in-order evaluation that stops at the first
/// halting verdict can have produced from `n` policies.
pub open spec fn evaluation_of(outs: Seq<Option<VerdictV>>, n: nat) -> bool {
    &&& outs.len() <= n
    &&& forall|j: int| 0 <= j < outs.len() - 1 ==> !halted(#[trigger] outs[j])
    &&& outs.len() < n ==> outs.len() > 0 && halted(outs.last())
}

/// Combines verdicts as a slot does, one evaluation at a time.
pub struct VerdictFold {
    injections: Vec<AgentMessage>,
    seen: Ghost<Seq<Option<VerdictV>>>,
}

impl VerdictFold {
    /// The evaluations absorbed so far.
    pub closed spec fn seen(&self) -> Seq<Option<VerdictV>> {
        self.seen@
    }

    pub closed spec fn inv(&self) -> bool {
        &&& messages_view(self.injections@) == gathered(self.seen@)
        &&& forall|j: int| 0 <= j < self.seen@.len() ==> !halted(#[trigger] self.seen@[j])
    }

    /// Nothing absorbed yet.
    pub fn new() -> (r: Self)
        ensures
            r.inv(),
            r.seen() == Seq::<Option<VerdictV>>::empty(),
    {
        let r = VerdictFold { injections: Vec::new(), seen: Ghost(Seq::empty()) };
        assert(messages_view(r.injections@) =~= Seq::<AgentMessageV>::empty());
        r
    }

    proof fn lemma_push(&self, o: Option<VerdictV>, m: Seq<AgentMessageV>)
        requires
            self.inv(),
            !halted(o),
            m == injected(o),
        ensures
            gathered(self.seen@.push(o)) == messages_view(self.injections@) + m,
    {
        assert(self.seen@.push(o).drop_last() =~= self.seen@);
    }

    /// Absorb the answer of the next policy of a `PreTurn`, `PostTurn` or
    /// `PostLoop` slot (`None` when it failed to answer). A `Stop` is handed
    /// back unabsorbed: the slot's evaluation ends there, with that verdict.
    pub fn absorb(&mut self, outcome: Option<PolicyVerdict>) -> (r: Option<PolicyVerdict>)
        requires
            old(self).inv(),
        ensures
            final(self).inv(),
            r is Some <==> halted(policy_outcome(outcome)),
            r is Some ==> r == outcome && final(self).seen() == old(self).seen(),
            r is None ==> final(self).seen() == old(self).seen().push(policy_outcome(outcome)),
    {
        let ghost o = policy_outcome(outcome);
        match outcome {
            Some(PolicyVerdict::Stop(reason)) => Some(PolicyVerdict::Stop(reason)),
            Some(PolicyVerdict::Inject(msgs)) => {
                self.take_injection(msgs, Ghost(o));
                None
            },
            other => {
                proof {
                    self.lemma_push(o, Seq::empty());
                    assert(messages_view(self.injections@) + Seq::<AgentMessageV>::empty() =~= messages_view(self.injections@));
                    self.seen@ = self.seen@.push(o);
                }
                None
            },
        }
    }

    /// Absorb the answer of the next policy of a `PreDispatch` slot (`None`
    /// when it failed to answer). A `Stop` or a `Skip` is handed back
    /// unabsorbed: the evaluation for this tool call ends there.
    pub fn absorb_dispatch(&mut self, outcome: Option<PreDispatchVerdict>) -> (r: Option<PreDispatchVerdict>)
        requires
            old(self).inv(),
        ensures
            final(self).inv(),
            r is Some <==> halted(dispatch_outcome(outcome)),
            r is Some ==> r == outcome && final(self).seen() == old(self).seen(),
            r is None ==> final(self).seen() == old(self).seen().push(dispatch_outcome(outcome)),
    {
        let ghost o = dispatch_outcome(outcome);
        match outcome {
            Some(PreDispatchVerdict::Stop(reason)) => Some(PreDispatchVerdict::Stop(reason)),
            Some(PreDispatchVerdict::Skip(text)) => Some(PreDispatchVerdict::Skip(text)),
            Some(PreDispatchVerdict::Inject(msgs)) => {
                self.take_injection(msgs, Ghost(o));
                None
            },
            other => {
                proof {
                    self.lemma_push(o, Seq::empty());
                    assert(messages_view(self.injections@) + Seq::<AgentMessageV>::empty() =~= messages_view(self.injections@));
                    self.seen@ = self.seen@.push(o);
                }
                None
            },
        }
    }

    fn take_injection(&mut self, msgs: Vec<AgentMessage>, Ghost(o): Ghost<Option<VerdictV>>)
        requires
            old(self).inv(),
            o == Some(VerdictV::Inject(messages_view(msgs@))),
        ensures
            final(self).inv(),
            final(self).seen() == old(self).seen().push(o),
    {
        let mut msgs = msgs;
        proof {
            self.lemma_push(o, messages_view(msgs@));
        }
        let ghost before = self.injections@;
        self.injections.append(&mut msgs);
        assert(messages_view(self.injections@) =~= messages_view(before) + injected(o));
        proof {
            self.seen@ = self.seen@.push(o);
        }
    }

    /// The verdict of a slot none of whose policies halted: the gathered
    /// injections, or `Continue` when there are none.
    pub fn finish(self) -> (r: PolicyVerdict)
        requires
            self.inv(),
        ensures
            r@ == slot_verdict(self.seen()),
    {
        if self.injections.len() == 0 {
            PolicyVerdict::Continue
        } else {
            PolicyVerdict::Inject(self.injections)
        }
    }

    /// [`finish`](Self::finish) for a `PreDispatch` slot.
    pub fn finish_dispatch(self) -> (r: PreDispatchVerdict)
        requires
            self.inv(),
        ensures
            r@ == slot_verdict(self.seen()),
    {
        if self.injections.len() == 0 {
            PreDispatchVerdict::Continue
        } else {
            PreDispatchVerdict::Inject(self.injections)
        }
    }
}

/// The first halting verdict decides the slot: whatever came before it that
/// did not halt is dropped.
pub proof fn lemma_first_halt_decides(seen: Seq<Option<VerdictV>>, o: Option<VerdictV>)
    requires
        forall|j: int| 0 <= j < seen.len() ==> !halted(#[trigger] seen[j]),
        halted(o),
    ensures
        slot_verdict(seen.push(o)) == o->Some_0,
{
    let outs = seen.push(o);
    assert(halted(outs[seen.len() as int]));
    let i = choose|i: int| 0 <= i < outs.len() && halted(#[trigger] outs[i])
        && forall|j: int| 0 <= j < i ==> !halted(#[trigger] outs[j]);
    assert(forall|j: int| 0 <= j < seen.len() ==> outs[j] == seen[j]);
    if i < seen.len() {
        assert(halted(seen[i]));
    }
}

/// Shared read-only context available to every policy evaluation.
#[derive(Debug)]
pub struct PolicyContext<'a> {
    /// Zero-based index of the current or completed turn.
    pub turn_index: usize,
    /// Accumulated token usage across all turns.
    pub accumulated_usage: &'a Usage,
    /// Number of messages in context.
    pub message_count: usize,
    /// Whether context overflow was signaled.
    pub overflow_signal: bool,
    /// Messages added since the last evaluation of this slot.
    pub new_messages: &'a [AgentMessage],
    /// Read-only access to the session state.
    pub state: &'a SessionState,
}

impl<'a> PolicyContext<'a> {
    /// A policy context made of its parts.
    pub fn new(
        turn_index: usize,
        accumulated_usage: &'a Usage,
        message_count: usize,
        overflow_signal: bool,
        new_messages: &'a [AgentMessage],
        state: &'a SessionState,
    ) -> (r: Self)
        ensures
            r.turn_index == turn_index,
            r.accumulated_usage == accumulated_usage,
            r.message_count == message_count,
            r.overflow_signal == overflow_signal,
            r.new_messages@ == new_messages@,
            r.state == state,
    {
        PolicyContext { turn_index, accumulated_usage, message_count, overflow_signal, new_messages, state }
    }
}

/// Per-turn context for `PostTurn` policies.
#[derive(Debug)]
pub struct TurnPolicyContext<'a> {
    /// The assistant message from the completed turn.
    pub assistant_message: &'a AssistantMessage,
    /// Tool results produced during this turn.
    pub tool_results: &'a [ToolResultMessage],
    /// Why the turn ended.
    pub stop_reason: StopReason,
    /// The system prompt active during this turn.
    pub system_prompt: &'a str,
    /// The model specification active during this turn.
    pub model_spec: &'a ModelSpec,
    /// The committed conversation history for the completed turn.
    pub context_messages: &'a [AgentMessage],
}

impl<'a> TurnPolicyContext<'a> {
    /// A per-turn context made of its parts.
    pub fn new(
        assistant_message: &'a AssistantMessage,
        tool_results: &'a [ToolResultMessage],
        stop_reason: StopReason,
        system_prompt: &'a str,
        model_spec: &'a ModelSpec,
        context_messages: &'a [AgentMessage],
    ) -> (r: Self)
        ensures
            r.assistant_message == assistant_message,
            r.tool_results@ == tool_results@,
            r.stop_reason == stop_reason,
            r.system_prompt@ == system_prompt@,
            r.model_spec == model_spec,
            r.context_messages@ == context_messages@,
    {
        TurnPolicyContext {
            assistant_message,
            tool_results,
            stop_reason,
            system_prompt,
            model_spec,
            context_messages,
        }
    }
}

/// Slot 1: evaluated before each model call (guards, budgets, turn caps).
pub trait PreTurnPolicy {
    /// The verdict the policy gives on `ctx`. A policy checked here defines it
    /// beside `evaluate`; for any other policy it stands for a fixed verdict
    /// that is not known.
    open spec fn spec_verdict(&self, ctx: &PolicyContext<'_>) -> VerdictV {
        arbitrary()
    }

    /// Policy identifier for tracing and debugging.
    fn name(&self) -> &str;

    /// Evaluate the policy.
    fn evaluate(&self, ctx: &PolicyContext<'_>) -> (r: PolicyVerdict)
        ensures
            r@ == self.spec_verdict(ctx),
    ;
}

/// Slot 3: evaluated after each completed turn (persistence, stop
/// conditions, steering).
pub trait PostTurnPolicy {
    /// The verdict the policy gives on `ctx` and `turn`. A policy checked here
    /// defines it beside `evaluate`; for any other policy it stands for a
    /// fixed verdict that is not known.
    open spec fn spec_verdict(&self, ctx: &PolicyContext<'_>, turn: &TurnPolicyContext<'_>) -> VerdictV {
        arbitrary()
    }

    /// Policy identifier for tracing and debugging.
    fn name(&self) -> &str;

    /// Evaluate the policy.
    fn evaluate(&self, ctx: &PolicyContext<'_>, turn: &TurnPolicyContext<'_>) -> (r: PolicyVerdict)
        ensures
            r@ == self.spec_verdict(ctx, turn),
    ;
}

/// Slot 4: evaluated after the inner loop exits, before follow-up polling.
pub trait PostLoopPolicy {
    /// The verdict the policy gives on `ctx`. A policy checked here defines it
    /// beside `evaluate`; for any other policy it stands for a fixed verdict
    /// that is not known.
    open spec fn spec_verdict(&self, ctx: &PolicyContext<'_>) -> VerdictV {
        arbitrary()
    }

    /// Policy identifier for tracing and debugging.
    fn name(&self) -> &str;

    /// Evaluate the policy.
    fn evaluate(&self, ctx: &PolicyContext<'_>) -> (r: PolicyVerdict)
        ensures
            r@ == self.spec_verdict(ctx),
    ;
}

/// The verdicts each `PreTurn` policy gives on `ctx`, in slice order.
pub open spec fn pre_turn_verdicts<P: PreTurnPolicy + ?Sized>(policies: Seq<Arc<P>>, ctx: &PolicyContext<'_>) -> Seq<Option<VerdictV>> {
    Seq::new(policies.len(), |j: int| Some((*policies[j]).spec_verdict(ctx)))
}

/// The verdicts each `PostTurn` policy gives on `ctx` and `turn`, in slice order.
pub open spec fn post_turn_verdicts<P: PostTurnPolicy + ?Sized>(
    policies: Seq<Arc<P>>,
    ctx: &PolicyContext<'_>,
    turn: &TurnPolicyContext<'_>,
) -> Seq<Option<VerdictV>> {
    Seq::new(policies.len(), |j: int| Some((*policies[j]).spec_verdict(ctx, turn)))
}

/// The verdicts each `PostLoop` policy gives on `ctx`, in slice order.
pub open spec fn post_loop_verdicts<P: PostLoopPolicy + ?Sized>(policies: Seq<Arc<P>>, ctx: &PolicyContext<'_>) -> Seq<Option<VerdictV>> {
    Seq::new(policies.len(), |j: int| Some((*policies[j]).spec_verdict(ctx)))
}

/// Whether `r` is the verdict of a slot whose policies give the verdicts
/// `all`, in order. Evaluation stops right after the first halting verdict,
/// so only the verdicts up to it count.
pub open spec fn slot_run(all: Seq<Option<VerdictV>>, r: VerdictV) -> bool {
    exists|k: int| 0 <= k <= all.len() && evaluation_of(#[trigger] all.take(k), all.len()) && r == slot_verdict(all.take(k))
}

/// Evaluate `PreTurn` policies in order: the first `Stop` wins and the
/// remaining policies do not run; injections accumulate.
pub fn run_policies<P: PreTurnPolicy + ?Sized>(policies: &[Arc<P>], ctx: &PolicyContext<'_>) -> (r: PolicyVerdict)
    ensures
        slot_run(pre_turn_verdicts(policies@, ctx), r@),
{
    let ghost all = pre_turn_verdicts(policies@, ctx);
    let mut fold = VerdictFold::new();
    let mut i: usize = 0;
    while i < policies.len()
        invariant
            i <= policies@.len(),
            all == pre_turn_verdicts(policies@, ctx),
            fold.inv(),
            fold.seen() == all.take(i as int),
        decreases policies@.len() - i,
    {
        let verdict = policies[i].evaluate(ctx);
        let ghost seen = fold.seen();
        let ghost o = policy_outcome(Some(verdict));
        assert(seen.push(o) =~= all.take(i + 1));
        match fold.absorb(Some(verdict)) {
            Some(stop) => {
                proof {
                    lemma_first_halt_decides(seen, o);
                    assert(evaluation_of(all.take(i + 1), all.len()));
                }
                return stop;
            },
            None => {},
        }
        i = i + 1;
    }
    let r = fold.finish();
    assert(evaluation_of(all.take(i as int), all.len()));
    r
}

/// Evaluate `PostTurn` policies in order, combined as in [`run_policies`].
pub fn run_post_turn_policies<P: PostTurnPolicy + ?Sized>(
    policies: &[Arc<P>],
    ctx: &PolicyContext<'_>,
    turn: &TurnPolicyContext<'_>,
) -> (r: PolicyVerdict)
    ensures
        slot_run(post_turn_verdicts(policies@, ctx, turn), r@),
{
    let ghost all = post_turn_verdicts(policies@, ctx, turn);
    let mut fold = VerdictFold::new();
    let mut i: usize = 0;
    while i < policies.len()
        invariant
            i <= policies@.len(),
            all == post_turn_verdicts(policies@, ctx, turn),
            fold.inv(),
            fold.seen() == all.take(i as int),
        decreases policies@.len() - i,
    {
        let verdict = policies[i].evaluate(ctx, turn);
        let ghost seen = fold.seen();
        let ghost o = policy_outcome(Some(verdict));
        assert(seen.push(o) =~= all.take(i + 1));
        match fold.absorb(Some(verdict)) {
            Some(stop) => {
                proof {
                    lemma_first_halt_decides(seen, o);
                    assert(evaluation_of(all.take(i + 1), all.len()));
                }
                return stop;
            },
            None => {},
        }
        i = i + 1;
    }
    let r = fold.finish();
    assert(evaluation_of(all.take(i as int), all.len()));
    r
}

/// Evaluate `PostLoop` policies in order, combined as in [`run_policies`].
pub fn run_post_loop_policies<P: PostLoopPolicy + ?Sized>(policies: &[Arc<P>], ctx: &PolicyContext<'_>) -> (r: PolicyVerdict)
    ensures
        slot_run(post_loop_verdicts(policies@, ctx), r@),
{
    let ghost all = post_loop_verdicts(policies@, ctx);
    let mut fold = VerdictFold::new();
    let mut i: usize = 0;
    while i < policies.len()
        invariant
            i <= policies@.len(),
            all == post_loop_verdicts(policies@, ctx),
            fold.inv(),
            fold.seen() == all.take(i as int),
        decreases policies@.len() - i,
    {
        let verdict = policies[i].evaluate(ctx);
        let ghost seen = fold.seen();
        let ghost o = policy_outcome(Some(verdict));
        assert(seen.push(o) =~= all.take(i + 1));
        match fold.absorb(Some(verdict)) {
            Some(stop) => {
                proof {
                    lemma_first_halt_decides(seen, o);
                    assert(evaluation_of(all.take(i + 1), all.len()));
                }
                return stop;
            },
            None => {},
        }
        i = i + 1;
    }
    let r = fold.finish();
    assert(evaluation_of(all.take(i as int), all.len()));
    r
}

} // verus!
