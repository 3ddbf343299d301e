//! The bounded relay between a running tool and the listeners of its partial
//! results. Updates queue up to a fixed capacity; beyond it only the latest
//! one is kept, so a tool cannot grow memory without bound while listeners
//! lag behind. Closing the relay lets what is queued drain, then ends it.
use std::collections::VecDeque;

use vstd::prelude::*;

verus! {

/// How many updates queue before only the latest one is kept.
pub const TOOL_UPDATE_BUFFER_CAPACITY: usize = 16;

/// The mathematical content of a relay.
pub struct RelayV<T> {
    /// Queued updates, oldest first.
    pub pending: Seq<T>,
    /// The latest update that arrived while the queue was full.
    pub overflow: Option<T>,
    pub closed: bool,
}

/// The relay a tool starts with: empty and open.
pub open spec fn relay_init<T>() -> RelayV<T> {
    RelayV { pending: Seq::empty(), overflow: None, closed: false }
}

/// The effect of an update: queued while there is room, else kept as the
/// latest overflow (replacing the one before); ignored once closed.
pub open spec fn relay_push<T>(s: RelayV<T>, item: T) -> RelayV<T> {
    if s.closed {
        s
    } else if s.pending.len() < TOOL_UPDATE_BUFFER_CAPACITY {
        RelayV { pending: s.pending.push(item), ..s }
    } else {
        RelayV { overflow: Some(item), ..s }
    }
}

/// The updates still to be read, in reading order: the queue, then the
/// latest overflow.
pub open spec fn unread<T>(s: RelayV<T>) -> Seq<T> {
    match s.overflow {
        Some(x) => s.pending.push(x),
        None => s.pending,
    }
}

/// The relay after `items` were pushed one by one into a fresh relay.
pub open spec fn after_pushes<T>(items: Seq<T>) -> RelayV<T>
    decreases items.len(),
{
    if items.len() == 0 {
        relay_init()
    } else {
        relay_push(after_pushes(items.drop_last()), items.last())
    }
}

/// Pushing a run of updates into a fresh relay keeps the first ones, as
/// many as the capacity allows, and of the rest only the very last.
pub proof fn lemma_pushes_keep_first_and_latest<T>(items: Seq<T>)
    ensures
        after_pushes(items).pending == items.take(
            if items.len() < TOOL_UPDATE_BUFFER_CAPACITY { items.len() as int } else { TOOL_UPDATE_BUFFER_CAPACITY as int },
        ),
        after_pushes(items).overflow == if items.len() > TOOL_UPDATE_BUFFER_CAPACITY {
            Some(items.last())
        } else {
            None::<T>
        },
        !after_pushes(items).closed,
    decreases items.len(),
{
    if items.len() > 0 {
        let init = items.drop_last();
        lemma_pushes_keep_first_and_latest(init);
        if init.len() < TOOL_UPDATE_BUFFER_CAPACITY {
            assert(init.take(init.len() as int).push(items.last()) =~= items.take(items.len() as int));
        } else {
            assert(init.take(TOOL_UPDATE_BUFFER_CAPACITY as int) =~= items.take(TOOL_UPDATE_BUFFER_CAPACITY as int));
        }
    } else {
        assert(items.take(0) =~= Seq::<T>::empty());
    }
}

/// What a reader gets next.
pub enum RelayNext<T> {
    /// The next unread update.
    Update(T),
    /// The relay is closed and everything was read.
    Finished,
    /// Nothing to read yet: wait for the next push or for the close.
    Wait,
}

/// The updates of a running tool waiting for their listeners.
pub struct UpdateRelay<T> {
    pending: VecDeque<T>,
    overflow: Option<T>,
    closed: bool,
}

impl<T> View for UpdateRelay<T> {
    type V = RelayV<T>;

    closed spec fn view(&self) -> RelayV<T> {
        RelayV { pending: self.pending@, overflow: self.overflow, closed: self.closed }
    }
}

impl<T> UpdateRelay<T> {
    /// The queue never holds more than the capacity.
    pub open spec fn wf(&self) -> bool {
        self@.pending.len() <= TOOL_UPDATE_BUFFER_CAPACITY
    }

    /// An empty, open relay.
    pub fn new() -> (r: Self)
        ensures
            r.wf(),
            r@ == relay_init::<T>(),
    {
        UpdateRelay { pending: VecDeque::new(), overflow: None, closed: false }
    }

    /// Offer an update. Returns whether the relay was still open (and so took
    /// it, queued or as the latest overflow).
    pub fn push(&mut self, item: T) -> (r: bool)
        requires
            old(self).wf(),
        ensures
            final(self).wf(),
            final(self)@ == relay_push(old(self)@, item),
            r == !old(self)@.closed,
    {
        if self.closed {
            return false;
        }
        if self.pending.len() < TOOL_UPDATE_BUFFER_CAPACITY {
            self.pending.push_back(item);
        } else {
            self.overflow = Some(item);
        }
        true
    }

    /// Close the relay: no update is taken any more; what is queued can
    /// still be read.
    pub fn close(&mut self)
        requires
            old(self).wf(),
        ensures
            final(self).wf(),
            final(self)@ == (RelayV { closed: true, ..old(self)@ }),
    {
        self.closed = true;
    }

    /// Take the next unread update: the oldest queued one, else the latest
    /// overflow; with nothing unread, the relay is finished once closed and
    /// must be waited on before.
    pub fn next(&mut self) -> (r: RelayNext<T>)
        requires
            old(self).wf(),
        ensures
            final(self).wf(),
            final(self)@.closed == old(self)@.closed,
            unread(old(self)@).len() > 0 ==> r == RelayNext::Update(unread(old(self)@)[0])
                && unread(final(self)@) == unread(old(self)@).drop_first(),
            unread(old(self)@).len() == 0 ==> final(self)@ == old(self)@
                && r == (if old(self)@.closed { RelayNext::<T>::Finished } else { RelayNext::<T>::Wait }),
            old(self)@.pending.len() > 0 ==> final(self)@ == (RelayV {
                pending: old(self)@.pending.drop_first(),
                ..old(self)@
            }),
            old(self)@.pending.len() == 0 && old(self)@.overflow is Some ==> final(self)@ == (RelayV {
                overflow: None,
                ..old(self)@
            }),
    {
        match self.pending.pop_front() {
            Some(item) => {
                let ghost before = old(self)@;
                assert(before.pending.subrange(1, before.pending.len() as int) =~= before.pending.drop_first());
                proof {
                    match before.overflow {
                        Some(x) => {
                            assert(before.pending.drop_first().push(x) =~= before.pending.push(x).drop_first());
                        },
                        None => {},
                    }
                }
                RelayNext::Update(item)
            },
            None => match self.overflow.take() {
                Some(item) => {
                    assert(old(self)@.pending.push(item) =~= seq![item]);
                    assert(Seq::<T>::empty() =~= seq![item].drop_first());
                    RelayNext::Update(item)
                },
                None => {
                    if self.closed {
                        RelayNext::Finished
                    } else {
                        RelayNext::Wait
                    }
                },
            },
        }
    }
}

} // verus!
