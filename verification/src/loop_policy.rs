//! Loop continuation policies: stop the agent loop by turn count or by a
//! predicate of the caller's choosing, and compose several with AND.
use vstd::prelude::*;

use crate::types::{AssistantMessage, StopReason, Usage};

verus! {

/// Snapshot of loop state provided to continuation decisions.
#[derive(Debug)]
pub struct PolicyContext<'a> {
    /// Zero-based index of the completed turn.
    pub turn_index: usize,
    /// Accumulated token usage across all turns so far.
    pub accumulated_usage: Usage,
    /// The assistant message from the just-completed turn.
    pub assistant_message: &'a AssistantMessage,
    /// The stop reason from the just-completed turn.
    pub stop_reason: StopReason,
}

/// Controls whether the agent loop continues after each turn.
///
/// Return `true` from [`should_continue`](Self::should_continue) to let the
/// loop proceed, `false` to end it.
pub trait LoopPolicy {
    /// Whether this policy can be asked about `ctx`: a policy can be asked
    /// anything unless it says otherwise.
    open spec fn accepts(&self, ctx: &PolicyContext<'_>) -> bool {
        true
    }

    /// What this policy decides about `ctx`, where that is known; nothing is
    /// known unless the policy says so.
    open spec fn decision(&self, ctx: &PolicyContext<'_>) -> Option<bool> {
        None
    }

    /// Whether `r` can be this policy's answer about `ctx`: either can,
    /// unless the policy says otherwise.
    open spec fn answer_outcome(&self, ctx: &PolicyContext<'_>, r: bool) -> bool {
        true
    }

    /// Decide whether the loop should continue after the current turn.
    fn should_continue(&self, ctx: &PolicyContext<'_>) -> (r: bool)
        requires
            self.accepts(ctx),
        ensures
            self.decision(ctx) matches Some(d) ==> r == d,
            self.answer_outcome(ctx, r),
    ;
}

/// A closure is a policy: it is asked by calling it.
impl<F: Fn(&PolicyContext<'_>) -> bool> LoopPolicy for F {
    open spec fn accepts(&self, ctx: &PolicyContext<'_>) -> bool {
        call_requires(*self, (ctx,))
    }

    open spec fn decision(&self, ctx: &PolicyContext<'_>) -> Option<bool> {
        None
    }

    /// What the closure returns for `ctx`.
    open spec fn answer_outcome(&self, ctx: &PolicyContext<'_>, r: bool) -> bool {
        call_ensures(*self, (ctx,), r)
    }

    fn should_continue(&self, ctx: &PolicyContext<'_>) -> (r: bool)
        ensures
            call_ensures(*self, (ctx,), r),
    {
        self(ctx)
    }
}

/// Limits the agent loop to a maximum number of turns.
#[derive(Debug, Clone)]
pub struct MaxTurnsPolicy {
    max_turns: usize,
}

impl MaxTurnsPolicy {
    pub closed spec fn spec_max_turns(&self) -> usize {
        self.max_turns
    }

    /// A policy that stops after `max_turns` turns.
    pub fn new(max_turns: usize) -> (r: Self)
        ensures
            r.spec_max_turns() == max_turns,
    {
        MaxTurnsPolicy { max_turns }
    }
}

impl LoopPolicy for MaxTurnsPolicy {
    open spec fn accepts(&self, ctx: &PolicyContext<'_>) -> bool {
        true
    }

    open spec fn decision(&self, ctx: &PolicyContext<'_>) -> Option<bool> {
        Some(ctx.turn_index < self.spec_max_turns())
    }

    open spec fn answer_outcome(&self, ctx: &PolicyContext<'_>, r: bool) -> bool {
        r == (ctx.turn_index < self.spec_max_turns())
    }

    fn should_continue(&self, ctx: &PolicyContext<'_>) -> (r: bool) {
        ctx.turn_index < self.max_turns
    }
}

/// The first `k` of `inner` answered `true` and, unless that is all of them,
/// the next one answered `false`; `r` is the combined answer.
pub open spec fn asked_until<P: LoopPolicy + ?Sized>(inner: Seq<Box<P>>, ctx: &PolicyContext<'_>, k: int, r: bool) -> bool {
    &&& 0 <= k <= inner.len()
    &&& forall|j: int| 0 <= j < k ==> (#[trigger] inner[j]).answer_outcome(ctx, true)
    &&& if k == inner.len() {
        r
    } else {
        !r && inner[k].answer_outcome(ctx, false)
    }
}

/// Composes several policies with AND semantics: the loop continues only
/// while every inner policy allows it. Inner policies are asked in order and
/// the first refusal ends the evaluation.
pub struct ComposedPolicy<P: LoopPolicy + ?Sized> {
    policies: Vec<Box<P>>,
}

impl<P: LoopPolicy + ?Sized> ComposedPolicy<P> {
    pub closed spec fn inner(&self) -> Seq<Box<P>> {
        self.policies@
    }

    /// A composed policy over `policies`.
    pub fn new(policies: Vec<Box<P>>) -> (r: Self)
        ensures
            r.inner() == policies@,
    {
        ComposedPolicy { policies }
    }

    /// Number of inner policies.
    pub fn len(&self) -> (r: usize)
        ensures
            r == self.inner().len(),
    {
        self.policies.len()
    }
}

impl<P: LoopPolicy + ?Sized> LoopPolicy for ComposedPolicy<P> {
    open spec fn accepts(&self, ctx: &PolicyContext<'_>) -> bool {
        forall|i: int| 0 <= i < self.inner().len() ==> (#[trigger] self.inner()[i]).accepts(ctx)
    }

    /// Decided when every inner policy decides: the conjunction of their
    /// decisions.
    /// The inner policies are asked in order until one answers `false`:
    /// the answer is `false` then, and `true` when every one answered `true`.
    open spec fn answer_outcome(&self, ctx: &PolicyContext<'_>, r: bool) -> bool {
        exists|k: int| #[trigger] asked_until(self.inner(), ctx, k, r)
    }

    open spec fn decision(&self, ctx: &PolicyContext<'_>) -> Option<bool> {
        if forall|i: int| 0 <= i < self.inner().len() ==> (#[trigger] self.inner()[i]).decision(ctx) is Some {
            Some(forall|i: int| 0 <= i < self.inner().len() ==> (#[trigger] self.inner()[i]).decision(ctx) == Some(true))
        } else {
            None
        }
    }

    fn should_continue(&self, ctx: &PolicyContext<'_>) -> (r: bool) {
        let mut i: usize = 0;
        while i < self.policies.len()
            invariant
                i <= self.policies@.len(),
                self.accepts(ctx),
                forall|j: int| 0 <= j < i ==> ((#[trigger] self.inner()[j]).decision(ctx) matches Some(d) ==> d),
                forall|j: int| 0 <= j < i ==> (#[trigger] self.inner()[j]).answer_outcome(ctx, true),
            decreases self.policies@.len() - i,
        {
            assert(self.inner()[i as int].accepts(ctx));
            if !self.policies[i].should_continue(ctx) {
                assert(asked_until(self.inner(), ctx, i as int, false));
                return false;
            }
            i = i + 1;
        }
        assert(asked_until(self.inner(), ctx, self.inner().len() as int, true));
        true
    }
}

} // verus!
