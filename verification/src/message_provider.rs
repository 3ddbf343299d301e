//! Sources of steering and follow-up messages polled by the agent loop.
use std::sync::Arc;

use vstd::prelude::*;

use crate::types::AgentMessage;

verus! {

/// Supplies steering messages (polled during tool execution) and follow-up
/// messages (polled when the loop would otherwise end).
pub trait MessageProvider {
    /// Whether the provider can be polled: a provider can be polled at any
    /// time unless it says otherwise.
    open spec fn ready(&self) -> bool {
        true
    }

    /// Whether `r` can be what a steering poll answers: any answer can,
    /// unless the provider says otherwise.
    open spec fn steering_outcome(&self, r: Vec<AgentMessage>) -> bool {
        true
    }

    /// Whether `r` can be what a follow-up poll answers: any answer can,
    /// unless the provider says otherwise.
    open spec fn follow_up_outcome(&self, r: Vec<AgentMessage>) -> bool {
        true
    }

    /// Steering messages that arrived since the last poll.
    fn poll_steering(&self) -> (r: Vec<AgentMessage>)
        requires
            self.ready(),
        ensures
            self.steering_outcome(r),
    ;

    /// Follow-up messages that arrived since the last poll.
    fn poll_follow_up(&self) -> (r: Vec<AgentMessage>)
        requires
            self.ready(),
        ensures
            self.follow_up_outcome(r),
    ;
}

/// A provider made of two closures.
pub struct FnMessageProvider<S, F> where
    S: Fn() -> Vec<AgentMessage>,
    F: Fn() -> Vec<AgentMessage>,
 {
    steering: S,
    follow_up: F,
}

impl<S, F> MessageProvider for FnMessageProvider<S, F> where
    S: Fn() -> Vec<AgentMessage>,
    F: Fn() -> Vec<AgentMessage>,
 {
    closed spec fn ready(&self) -> bool {
        call_requires(self.steering, ()) && call_requires(self.follow_up, ())
    }

    closed spec fn steering_outcome(&self, r: Vec<AgentMessage>) -> bool {
        call_ensures(self.steering, (), r)
    }

    closed spec fn follow_up_outcome(&self, r: Vec<AgentMessage>) -> bool {
        call_ensures(self.follow_up, (), r)
    }

    fn poll_steering(&self) -> (r: Vec<AgentMessage>)
        ensures
            call_ensures(self.spec_steering(), (), r),
    {
        (self.steering)()
    }

    fn poll_follow_up(&self) -> (r: Vec<AgentMessage>)
        ensures
            call_ensures(self.spec_follow_up(), (), r),
    {
        (self.follow_up)()
    }
}

impl<S, F> FnMessageProvider<S, F> where
    S: Fn() -> Vec<AgentMessage>,
    F: Fn() -> Vec<AgentMessage>,
 {
    /// The closure answering steering polls.
    pub closed spec fn spec_steering(&self) -> S {
        self.steering
    }

    /// The closure answering follow-up polls.
    pub closed spec fn spec_follow_up(&self) -> F {
        self.follow_up
    }
}

/// A provider that answers steering polls with `steering()` and follow-up
/// polls with `follow_up()`.
pub fn from_fns<S, F>(steering: S, follow_up: F) -> (r: FnMessageProvider<S, F>) where
    S: Fn() -> Vec<AgentMessage>,
    F: Fn() -> Vec<AgentMessage>,
    ensures
        r.ready() == (call_requires(steering, ()) && call_requires(follow_up, ())),
        r.spec_steering() == steering,
        r.spec_follow_up() == follow_up,
{
    FnMessageProvider { steering, follow_up }
}

/// Polls two providers and concatenates their messages, the primary's first.
pub struct ComposedMessageProvider<P: MessageProvider + ?Sized, Q: MessageProvider + ?Sized> {
    primary: Arc<P>,
    secondary: Arc<Q>,
}

impl<P: MessageProvider + ?Sized, Q: MessageProvider + ?Sized> ComposedMessageProvider<P, Q> {
    pub closed spec fn parts(&self) -> (Arc<P>, Arc<Q>) {
        (self.primary, self.secondary)
    }

    /// Compose `primary` and `secondary`.
    pub fn new(primary: Arc<P>, secondary: Arc<Q>) -> (r: Self)
        ensures
            r.parts() == (primary, secondary),
    {
        ComposedMessageProvider { primary, secondary }
    }
}

/// The messages of two polls, the first poll's first.
pub fn concat_polls(first: Vec<AgentMessage>, second: Vec<AgentMessage>) -> (r: Vec<AgentMessage>)
    ensures
        r@ == first@ + second@,
{
    let mut first = first;
    let mut second = second;
    first.append(&mut second);
    first
}

impl<P: MessageProvider + ?Sized, Q: MessageProvider + ?Sized> MessageProvider for ComposedMessageProvider<P, Q> {
    open spec fn ready(&self) -> bool {
        (*self.parts().0).ready() && (*self.parts().1).ready()
    }

    /// The primary's answer followed by the secondary's.
    open spec fn steering_outcome(&self, r: Vec<AgentMessage>) -> bool {
        exists|a: Vec<AgentMessage>, b: Vec<AgentMessage>|
            #![trigger (*self.parts().0).steering_outcome(a), (*self.parts().1).steering_outcome(b)]
            r@ == a@ + b@ && (*self.parts().0).steering_outcome(a) && (*self.parts().1).steering_outcome(b)
    }

    /// The primary's answer followed by the secondary's.
    open spec fn follow_up_outcome(&self, r: Vec<AgentMessage>) -> bool {
        exists|a: Vec<AgentMessage>, b: Vec<AgentMessage>|
            #![trigger (*self.parts().0).follow_up_outcome(a), (*self.parts().1).follow_up_outcome(b)]
            r@ == a@ + b@ && (*self.parts().0).follow_up_outcome(a) && (*self.parts().1).follow_up_outcome(b)
    }

    fn poll_steering(&self) -> (r: Vec<AgentMessage>) {
        let first = self.primary.poll_steering();
        let second = self.secondary.poll_steering();
        let ghost (a, b) = (first, second);
        let r = concat_polls(first, second);
        assert((*self.parts().0).steering_outcome(a) && (*self.parts().1).steering_outcome(b));
        r
    }

    fn poll_follow_up(&self) -> (r: Vec<AgentMessage>) {
        let first = self.primary.poll_follow_up();
        let second = self.secondary.poll_follow_up();
        let ghost (a, b) = (first, second);
        let r = concat_polls(first, second);
        assert((*self.parts().0).follow_up_outcome(a) && (*self.parts().1).follow_up_outcome(b));
        r
    }
}

} // verus!
