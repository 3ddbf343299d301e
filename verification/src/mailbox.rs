//! The message queue behind an agent's mailbox: messages are kept in the
//! order they were sent, and draining hands them all out at once.
use vstd::prelude::*;

use crate::types::{messages_view, AgentMessage, AgentMessageV};

verus! {

/// A first-in, first-out queue of pending messages for one agent.
#[derive(Debug)]
pub struct Inbox {
    pending: Vec<AgentMessage>,
}

impl Inbox {
    /// The pending messages, oldest first.
    pub closed spec fn view(&self) -> Seq<AgentMessageV> {
        messages_view(self.pending@)
    }

    /// An empty inbox.
    pub fn new() -> (r: Self)
        ensures
            r.view() == Seq::<AgentMessageV>::empty(),
    {
        let r = Inbox { pending: Vec::new() };
        assert(r.view() =~= Seq::<AgentMessageV>::empty());
        r
    }

    /// Queue `message` behind the ones already pending.
    pub fn send(&mut self, message: AgentMessage)
        ensures
            final(self).view() == old(self).view().push(message@),
    {
        self.pending.push(message);
        assert(self.view() =~= old(self).view().push(message@));
    }

    /// Take every pending message, oldest first, leaving the inbox empty.
    pub fn drain(&mut self) -> (r: Vec<AgentMessage>)
        ensures
            messages_view(r@) == old(self).view(),
            final(self).view() == Seq::<AgentMessageV>::empty(),
    {
        let mut taken: Vec<AgentMessage> = Vec::new();
        std::mem::swap(&mut taken, &mut self.pending);
        assert(self.view() =~= Seq::<AgentMessageV>::empty());
        taken
    }

    /// Whether any message is pending.
    pub fn has_messages(&self) -> (r: bool)
        ensures
            r == (self.view().len() > 0),
    {
        self.pending.len() > 0
    }

    /// The number of pending messages.
    pub fn len(&self) -> (r: usize)
        ensures
            r == self.view().len(),
    {
        self.pending.len()
    }

    /// Whether no message is pending.
    pub fn is_empty(&self) -> (r: bool)
        ensures
            r == (self.view().len() == 0),
    {
        self.pending.len() == 0
    }
}

/// The pending messages of an inbox holding `q` after `xs` are sent to it,
/// one `send` at a time in order.
pub open spec fn after_sends(q: Seq<AgentMessageV>, xs: Seq<AgentMessageV>) -> Seq<AgentMessageV>
    decreases xs.len(),
{
    if xs.len() == 0 {
        q
    } else {
        after_sends(q, xs.drop_last()).push(xs.last())
    }
}

/// Draining an inbox after `x1, ..., xn` were sent to it since the last
/// drain gives back exactly `x1, ..., xn`, in sending order: each `send`
/// appends its message, so the sends leave `xs` pending, and `drain` hands
/// out all that is pending and leaves nothing.
pub proof fn lemma_drain_after_sends(xs: Seq<AgentMessageV>)
    ensures
        after_sends(Seq::empty(), xs) == xs,
    decreases xs.len(),
{
    if xs.len() > 0 {
        lemma_drain_after_sends(xs.drop_last());
        assert(xs.drop_last().push(xs.last()) =~= xs);
    }
}

} // verus!
