//! The loop's conversation history, with a shared mirror of its model-visible
//! messages so that per-turn snapshots only copy what changed.
use std::sync::Arc;

use vstd::prelude::*;

use crate::types::{messages_view, AgentMessage, AgentMessageV, CacheHint, LlmMessage, LlmMessageV, UserMessageV, AssistantMessageV};

verus! {

/// The model-visible messages of a history, in order (custom messages left out).
pub open spec fn llm_views(msgs: Seq<AgentMessage>) -> Seq<LlmMessageV>
    decreases msgs.len(),
{
    if msgs.len() == 0 {
        Seq::empty()
    } else {
        let init = llm_views(msgs.drop_last());
        match msgs.last() {
            AgentMessage::Llm(l) => init.push(l@),
            AgentMessage::Custom(_) => init,
        }
    }
}

/// The shared copies held by a mirror, in order (gaps left out).
pub open spec fn mirror_arcs(mirror: Seq<Option<Arc<LlmMessage>>>) -> Seq<Arc<LlmMessage>>
    decreases mirror.len(),
{
    if mirror.len() == 0 {
        Seq::empty()
    } else {
        let init = mirror_arcs(mirror.drop_last());
        match mirror.last() {
            Some(a) => init.push(a),
            None => init,
        }
    }
}

pub open spec fn arc_views(arcs: Seq<Arc<LlmMessage>>) -> Seq<LlmMessageV> {
    arcs.map_values(|a: Arc<LlmMessage>| (*a)@)
}

/// Entry `i` of the mirror stands for message `i`: a copy of its model-visible
/// payload, or nothing for a custom message.
pub open spec fn mirrors(entry: Option<Arc<LlmMessage>>, message: AgentMessage) -> bool {
    match message {
        AgentMessage::Llm(l) => entry matches Some(a) && (*a)@ == l@,
        AgentMessage::Custom(_) => entry is None,
    }
}

proof fn lemma_arc_views_push(arcs: Seq<Arc<LlmMessage>>, a: Arc<LlmMessage>)
    ensures
        arc_views(arcs.push(a)) == arc_views(arcs).push((*a)@),
{
    assert(arc_views(arcs.push(a)) =~= arc_views(arcs).push((*a)@));
}

/// A mirror prefix whose entries all stand for their messages yields exactly
/// the model-visible messages of that prefix.
proof fn lemma_mirror_matches(mirror: Seq<Option<Arc<LlmMessage>>>, msgs: Seq<AgentMessage>)
    requires
        mirror.len() <= msgs.len(),
        forall|i: int| 0 <= i < mirror.len() ==> mirrors(#[trigger] mirror[i], msgs[i]),
    ensures
        arc_views(mirror_arcs(mirror)) == llm_views(msgs.take(mirror.len() as int)),
    decreases mirror.len(),
{
    if mirror.len() == 0 {
        assert(msgs.take(0) =~= Seq::<AgentMessage>::empty());
        assert(arc_views(Seq::empty()) =~= Seq::<LlmMessageV>::empty());
    } else {
        let n = mirror.len() - 1;
        let m2 = mirror.drop_last();
        assert forall|i: int| 0 <= i < m2.len() implies mirrors(#[trigger] m2[i], msgs[i]) by {
            assert(mirrors(mirror[i], msgs[i]));
        }
        lemma_mirror_matches(m2, msgs);
        assert(msgs.take(mirror.len() as int).drop_last() =~= msgs.take(n));
        assert(msgs.take(mirror.len() as int).last() == msgs[n]);
        assert(mirrors(mirror[n], msgs[n]));
        match mirror.last() {
            Some(a) => {
                lemma_arc_views_push(mirror_arcs(m2), a);
            },
            None => {},
        }
    }
}

/// The conversation history of a running loop.
///
/// Alongside the messages it keeps a mirror: shared copies of the
/// model-visible payloads of a prefix of the history (a gap for each custom
/// message). A snapshot reuses the mirrored prefix and copies only the
/// messages after it; replacing a message cuts the mirror back to before it,
/// and bulk mutation discards it.
pub struct ContextMessages {
    messages: Vec<AgentMessage>,
    mirror: Vec<Option<Arc<LlmMessage>>>,
}

impl ContextMessages {
    /// The messages, in order.
    pub closed spec fn messages(&self) -> Seq<AgentMessage> {
        self.messages@
    }

    /// The mirrored prefix.
    pub closed spec fn mirror(&self) -> Seq<Option<Arc<LlmMessage>>> {
        self.mirror@
    }

    /// The mirror never runs past the history, and each of its entries stands
    /// for the message at the same position.
    pub closed spec fn wf(&self) -> bool {
        &&& self.mirror@.len() <= self.messages@.len()
        &&& forall|i: int|
            0 <= i < self.mirror@.len() ==> mirrors(#[trigger] self.mirror@[i], self.messages@[i])
    }

    /// Wrap an owned message history (nothing mirrored yet).
    pub fn new(messages: Vec<AgentMessage>) -> (r: Self)
        ensures
            r.wf(),
            r.messages() == messages@,
            r.mirror().len() == 0,
    {
        ContextMessages { messages, mirror: Vec::new() }
    }

    /// Number of messages.
    pub fn len(&self) -> (r: usize)
        ensures
            r == self.messages().len(),
    {
        self.messages.len()
    }

    /// Whether the history is empty.
    pub fn is_empty(&self) -> (r: bool)
        ensures
            r == (self.messages().len() == 0),
    {
        self.messages.len() == 0
    }

    /// Append a single message; the mirror is untouched.
    pub fn push(&mut self, message: AgentMessage)
        requires
            old(self).wf(),
        ensures
            final(self).wf(),
            final(self).messages() == old(self).messages().push(message),
            final(self).mirror() == old(self).mirror(),
    {
        self.messages.push(message);
    }

    /// Append every message of `more`, in order; the mirror is untouched.
    pub fn extend(&mut self, more: Vec<AgentMessage>)
        requires
            old(self).wf(),
        ensures
            final(self).wf(),
            final(self).messages() == old(self).messages() + more@,
            final(self).mirror() == old(self).mirror(),
    {
        let mut more = more;
        self.append(&mut more);
    }

    /// Move all messages out of `other`, appending them; the mirror is untouched.
    pub fn append(&mut self, other: &mut Vec<AgentMessage>)
        requires
            old(self).wf(),
        ensures
            final(self).wf(),
            final(self).messages() == old(self).messages() + old(other)@,
            final(other)@.len() == 0,
            final(self).mirror() == old(self).mirror(),
    {
        self.messages.append(other);
        assert forall|i: int| 0 <= i < self.mirror@.len() implies mirrors(
            #[trigger] self.mirror@[i],
            self.messages@[i],
        ) by {
            assert(self.messages@[i] == old(self).messages@[i]);
        }
    }

    /// Replace the message at `index`, cutting the mirror back to before it.
    pub fn set(&mut self, index: usize, message: AgentMessage)
        requires
            old(self).wf(),
            index < old(self).messages().len(),
        ensures
            final(self).wf(),
            final(self).messages() == old(self).messages().update(index as int, message),
            final(self).mirror() == if index < old(self).mirror().len() {
                old(self).mirror().take(index as int)
            } else {
                old(self).mirror()
            },
    {
        if index < self.mirror.len() {
            self.mirror.truncate(index);
        }
        self.messages.set(index, message);
        assert forall|i: int| 0 <= i < self.mirror@.len() implies mirrors(
            #[trigger] self.mirror@[i],
            self.messages@[i],
        ) by {
            assert(self.mirror@[i] == old(self).mirror@[i]);
            assert(self.messages@[i] == old(self).messages@[i]);
        }
    }

    /// Mutable access to the messages for bulk in-place mutation; discards the
    /// whole mirror, so the next snapshot copies the full history again.
    pub fn make_mut(&mut self) -> (r: &mut Vec<AgentMessage>)
        requires
            old(self).wf(),
        ensures
            (*r)@ == old(self).messages(),
            final(self).messages() == final(r)@,
            final(self).mirror().len() == 0,
            final(self).wf(),
    {
        self.mirror.clear();
        &mut self.messages
    }

    /// Take the messages out, leaving the history and the mirror empty.
    pub fn take_vec(&mut self) -> (r: Vec<AgentMessage>)
        requires
            old(self).wf(),
        ensures
            r@ == old(self).messages(),
            final(self).wf(),
            final(self).messages().len() == 0,
            final(self).mirror().len() == 0,
    {
        self.mirror.clear();
        let mut taken: Vec<AgentMessage> = Vec::new();
        std::mem::swap(&mut taken, &mut self.messages);
        taken
    }

    /// Consume the history into its messages.
    pub fn into_vec(self) -> (r: Vec<AgentMessage>)
        ensures
            r@ == self.messages(),
    {
        self.messages
    }

    /// The messages, as a slice.
    pub fn as_slice(&self) -> (r: &[AgentMessage])
        ensures
            r@ == self.messages(),
    {
        self.messages.as_slice()
    }

    /// Build a shared snapshot of the model-visible messages.
    ///
    /// Entries already mirrored are reused as shared copies; only messages
    /// after the mirrored prefix are copied, extending the mirror over the
    /// whole history.
    pub fn snapshot_llm(&mut self) -> (r: Arc<Vec<Arc<LlmMessage>>>)
        requires
            old(self).wf(),
        ensures
            final(self).wf(),
            final(self).messages() == old(self).messages(),
            final(self).mirror().len() == old(self).messages().len(),
            final(self).mirror().take(old(self).mirror().len() as int) == old(self).mirror(),
            r@ == mirror_arcs(final(self).mirror()),
            arc_views(r@) == llm_views(old(self).messages()),
    {
        let start = self.mirror.len();
        let mut i = start;
        while i < self.messages.len()
            invariant
                start == old(self).mirror@.len(),
                start <= i <= self.messages@.len(),
                self.messages@ == old(self).messages@,
                self.mirror@.len() == i,
                self.mirror@.take(start as int) == old(self).mirror@,
                forall|j: int|
                    0 <= j < self.mirror@.len() ==> mirrors(
                        #[trigger] self.mirror@[j],
                        self.messages@[j],
                    ),
            decreases self.messages@.len() - i,
        {
            let entry = match &self.messages[i] {
                AgentMessage::Llm(llm) => Some(Arc::new(llm.clone())),
                AgentMessage::Custom(_) => None,
            };
            let ghost before = self.mirror@;
            self.mirror.push(entry);
            assert(self.mirror@.take(start as int) =~= before.take(start as int));
            assert forall|j: int| 0 <= j < self.mirror@.len() implies mirrors(
                #[trigger] self.mirror@[j],
                self.messages@[j],
            ) by {
                if j < i {
                    assert(self.mirror@[j] == before[j]);
                }
            }
            i = i + 1;
        }
        let mut out: Vec<Arc<LlmMessage>> = Vec::new();
        let mut k: usize = 0;
        while k < self.mirror.len()
            invariant
                k <= self.mirror@.len(),
                out@ == mirror_arcs(self.mirror@.take(k as int)),
            decreases self.mirror@.len() - k,
        {
            let ghost prefix = self.mirror@.take(k as int);
            assert(self.mirror@.take(k + 1).drop_last() =~= prefix);
            match &self.mirror[k] {
                Some(a) => {
                    out.push(a.clone());
                },
                None => {},
            }
            k = k + 1;
        }
        assert(self.mirror@.take(self.mirror@.len() as int) =~= self.mirror@);
        proof {
            lemma_mirror_matches(self.mirror@, self.messages@);
            assert(self.messages@.take(self.mirror@.len() as int) =~= self.messages@);
        }
        Arc::new(out)
    }
}

/// The shared copies of a mirror prefix are the first ones of the whole
/// mirror.
proof fn lemma_mirror_arcs_prefix(m: Seq<Option<Arc<LlmMessage>>>, p: int)
    requires
        0 <= p <= m.len(),
    ensures
        mirror_arcs(m.take(p)).len() <= mirror_arcs(m).len(),
        mirror_arcs(m).take(mirror_arcs(m.take(p)).len() as int) == mirror_arcs(m.take(p)),
    decreases m.len(),
{
    if p == m.len() {
        assert(m.take(p) =~= m);
        assert(mirror_arcs(m).take(mirror_arcs(m).len() as int) =~= mirror_arcs(m));
    } else {
        let init = m.drop_last();
        assert(m.take(p) =~= init.take(p));
        lemma_mirror_arcs_prefix(init, p);
        let k = mirror_arcs(init.take(p)).len() as int;
        match m.last() {
            Some(a) => {
                assert(mirror_arcs(m) == mirror_arcs(init).push(a));
                assert(mirror_arcs(m).take(k) =~= mirror_arcs(init).take(k));
            },
            None => {
                assert(mirror_arcs(m) == mirror_arcs(init));
            },
        }
    }
}

/// Snapshots reuse what was not touched in between: when the first `p`
/// mirror entries left by one snapshot (`first`) are still in place when the
/// next snapshot is taken (`before`: no `set` at or before them, no bulk
/// mutation, as the editing methods state), the next snapshot (`second`,
/// which keeps `before` as its prefix) begins with the same shared copies
/// that the first snapshot gave for those positions.
pub proof fn lemma_snapshot_reuses_untouched_prefix(
    first: Seq<Option<Arc<LlmMessage>>>,
    before: Seq<Option<Arc<LlmMessage>>>,
    second: Seq<Option<Arc<LlmMessage>>>,
    p: int,
)
    requires
        0 <= p <= first.len(),
        p <= before.len() <= second.len(),
        before.take(p) == first.take(p),
        second.take(before.len() as int) == before,
    ensures
        ({
            let k = mirror_arcs(first.take(p)).len() as int;
            &&& k <= mirror_arcs(first).len()
            &&& k <= mirror_arcs(second).len()
            &&& mirror_arcs(second).take(k) == mirror_arcs(first).take(k)
        }),
{
    assert(second.take(p) =~= before.take(p));
    lemma_mirror_arcs_prefix(first, p);
    lemma_mirror_arcs_prefix(second, p);
}

/// The sum of the first `k` token estimates (all of them when `k` is past
/// the end).
pub open spec fn prefix_tokens(estimates: Seq<usize>, k: int) -> int
    decreases k,
{
    if k <= 0 || estimates.len() == 0 {
        0
    } else if k > estimates.len() {
        prefix_tokens(estimates, estimates.len() as int)
    } else {
        prefix_tokens(estimates, k - 1) + estimates[k - 1]
    }
}

/// Whether the cacheable prefix of the history is worth a cache hint: the
/// estimated tokens of its first `prefix_len` messages when they reach
/// `min_tokens` (the prefix is then annotated and the rest cleared), `None`
/// when they fall short (nothing is annotated).
pub fn cache_prefix_tokens(estimates: &[usize], prefix_len: usize, min_tokens: usize) -> (r: Option<usize>)
    requires
        prefix_tokens(estimates@, prefix_len as int) <= usize::MAX,
    ensures
        r == (if prefix_tokens(estimates@, prefix_len as int) >= min_tokens {
            Some(prefix_tokens(estimates@, prefix_len as int) as usize)
        } else {
            None
        }),
{
    let end = if prefix_len < estimates.len() { prefix_len } else { estimates.len() };
    proof {
        if prefix_len > estimates@.len() {
            assert(prefix_tokens(estimates@, prefix_len as int) == prefix_tokens(estimates@, estimates@.len() as int));
        }
        lemma_prefix_tokens_monotone(estimates@, end as int);
    }
    let mut total: usize = 0;
    let mut i: usize = 0;
    while i < end
        invariant
            i <= end <= estimates@.len(),
            total == prefix_tokens(estimates@, i as int),
            prefix_tokens(estimates@, end as int) <= usize::MAX,
            forall|j: int| 0 <= j <= end ==> prefix_tokens(estimates@, j) <= prefix_tokens(estimates@, end as int),
        decreases end - i,
    {
        assert(prefix_tokens(estimates@, i + 1) == total + estimates@[i as int]);
        assert(prefix_tokens(estimates@, i + 1) <= prefix_tokens(estimates@, end as int));
        total = total + estimates[i];
        i = i + 1;
    }
    if total >= min_tokens {
        Some(total)
    } else {
        None
    }
}

/// Estimates add up: a shorter prefix never counts more tokens.
proof fn lemma_prefix_tokens_monotone(estimates: Seq<usize>, end: int)
    requires
        0 <= end <= estimates.len(),
    ensures
        forall|j: int| 0 <= j <= end ==> prefix_tokens(estimates, j) <= prefix_tokens(estimates, end),
    decreases end,
{
    if end > 0 {
        lemma_prefix_tokens_monotone(estimates, end - 1);
    }
}

/// A message with its cache hint set to `hint`; messages that carry no
/// hint (tool results, custom messages) are left as they are.
pub open spec fn hinted(m: AgentMessageV, hint: Option<CacheHint>) -> AgentMessageV {
    match m {
        AgentMessageV::Llm(LlmMessageV::User(u)) => AgentMessageV::Llm(LlmMessageV::User(UserMessageV { cache_hint: hint, ..u })),
        AgentMessageV::Llm(LlmMessageV::Assistant(a)) => AgentMessageV::Llm(
            LlmMessageV::Assistant(AssistantMessageV { cache_hint: hint, ..a }),
        ),
        other => other,
    }
}

/// The hint a message at `k` gets when the first `prefix_len` messages form
/// the cached prefix.
pub open spec fn prefix_hint(k: int, prefix_len: int, hint: CacheHint) -> Option<CacheHint> {
    if k < prefix_len {
        Some(hint)
    } else {
        None
    }
}

fn set_hint(m: AgentMessage, hint: Option<CacheHint>) -> (r: AgentMessage)
    ensures
        r@ == hinted(m@, hint),
{
    match m {
        AgentMessage::Llm(LlmMessage::User(mut u)) => {
            u.cache_hint = hint;
            AgentMessage::Llm(LlmMessage::User(u))
        },
        AgentMessage::Llm(LlmMessage::Assistant(mut a)) => {
            a.cache_hint = hint;
            AgentMessage::Llm(LlmMessage::Assistant(a))
        },
        other => other,
    }
}

/// Mark the cacheable prefix: the first `prefix_len` messages get `hint`,
/// every later message loses any hint it had.
pub fn annotate_cache_prefix(messages: &mut Vec<AgentMessage>, prefix_len: usize, hint: CacheHint)
    ensures
        final(messages)@.len() == old(messages)@.len(),
        forall|k: int| 0 <= k < old(messages)@.len() ==> (#[trigger] final(messages)@[k])@
            == hinted(old(messages)@[k]@, prefix_hint(k, prefix_len as int, hint)),
{
    let ghost before = messages@;
    let n: usize = messages.len();
    let mut reversed: Vec<AgentMessage> = Vec::new();
    while messages.len() > 0
        invariant
            messages@.len() + reversed@.len() == before.len(),
            forall|k: int| 0 <= k < messages@.len() ==> messages@[k] == before[k],
            forall|j: int| 0 <= j < reversed@.len() ==> reversed@[j] == before[before.len() - 1 - j],
        decreases messages@.len(),
    {
        let m = messages.pop().unwrap();
        reversed.push(m);
    }
    let mut k: usize = 0;
    while reversed.len() > 0
        invariant
            k + reversed@.len() == before.len(),
            before.len() == n,
            messages@.len() == k,
            forall|j: int| 0 <= j < reversed@.len() ==> reversed@[j] == before[before.len() - 1 - j],
            forall|i: int| 0 <= i < k ==> (#[trigger] messages@[i])@ == hinted(before[i]@, prefix_hint(i, prefix_len as int, hint)),
        decreases reversed@.len(),
    {
        let m = reversed.pop().unwrap();
        let h = if k < prefix_len { Some(hint) } else { None };
        messages.push(set_hint(m, h));
        k = k + 1;
    }
}

} // verus!
