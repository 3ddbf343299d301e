//! Session key-value state with change tracking: tools read and write JSON
//! values by key, and every mutation since the last flush is recorded in a
//! delta (`Some(value)` for a set, `None` for a removal).
use vstd::prelude::*;

use crate::json::json_clone;
use crate::keyed::{pairs_map, pairs_view, KeyedValues};

verus! {

/// The mutations recorded since the last flush.
#[derive(Debug, Clone)]
pub struct StateDelta {
    changes: KeyedValues<Option<serde_json::Value>>,
}

impl Default for StateDelta {
    fn default() -> (r: Self)
        ensures
            r.wf(),
            r.view() == Map::<Seq<char>, Option<serde_json::Value>>::empty(),
    {
        StateDelta::new()
    }
}

impl StateDelta {
    /// The latest change of each key: `Some(v)` set to `v`, `None` removed.
    pub closed spec fn view(&self) -> Map<Seq<char>, Option<serde_json::Value>> {
        self.changes.view()
    }

    pub closed spec fn wf(&self) -> bool {
        self.changes.wf()
    }

    /// An empty delta.
    pub fn new() -> (r: Self)
        ensures
            r.wf(),
            r.view() == Map::<Seq<char>, Option<serde_json::Value>>::empty(),
    {
        StateDelta { changes: KeyedValues::new() }
    }

    /// A delta made of the given changes; a later change of a key replaces
    /// an earlier one.
    pub fn from_changes(changes: Vec<(String, Option<serde_json::Value>)>) -> (r: Self)
        ensures
            r.wf(),
            r.view() == pairs_map(pairs_view(changes@)),
    {
        let mut d = StateDelta::new();
        let ghost all = pairs_view(changes@);
        let mut i: usize = 0;
        while i < changes.len()
            invariant
                i <= changes@.len(),
                all == pairs_view(changes@),
                d.wf(),
                d.view() == pairs_map(all.take(i as int)),
            decreases changes@.len() - i,
        {
            assert(all.take(i + 1).drop_last() =~= all.take(i as int));
            let v = match &changes[i].1 {
                Some(x) => Some(json_clone(x)),
                None => None,
            };
            d.changes.insert(changes[i].0.as_str(), v);
            i = i + 1;
        }
        assert(all.take(changes@.len() as int) =~= all);
        d
    }

    /// The same delta with one more change of `key`.
    pub fn with_change(self, key: &str, value: Option<serde_json::Value>) -> (r: Self)
        requires
            self.wf(),
        ensures
            r.wf(),
            r.view() == self.view().insert(key@, value),
    {
        let mut d = self;
        d.changes.insert(key, value);
        d
    }

    /// The latest change of `key`, if it changed.
    pub fn get(&self, key: &str) -> (r: Option<&Option<serde_json::Value>>)
        requires
            self.wf(),
        ensures
            match r {
                Some(v) => self.view().dom().contains(key@) && self.view()[key@] == *v,
                None => !self.view().dom().contains(key@),
            },
    {
        self.changes.get(key)
    }

    /// Whether nothing changed.
    pub fn is_empty(&self) -> (r: bool)
        requires
            self.wf(),
        ensures
            r == (self.view().dom().len() == 0),
    {
        self.changes.len() == 0
    }

    /// Number of changed keys.
    pub fn len(&self) -> (r: usize)
        requires
            self.wf(),
        ensures
            r == self.view().dom().len(),
    {
        self.changes.len()
    }

    /// The changed keys, in the order they first changed.
    pub fn keys(&self) -> (r: Vec<&str>)
        requires
            self.wf(),
        ensures
            r@.len() == self.view().dom().len(),
            forall|i: int| 0 <= i < r@.len() ==> self.view().dom().contains((#[trigger] r@[i])@),
            forall|k: Seq<char>| self.view().dom().contains(k) ==> exists|i: int| 0 <= i < r@.len() && (#[trigger] r@[i])@ == k,
    {
        let r = self.changes.keys();
        proof {
            crate::keyed::lemma_pairs_map_len(self.changes.pairs());
            assert forall|i: int| 0 <= i < r@.len() implies self.view().dom().contains((#[trigger] r@[i])@) by {
                crate::keyed::lemma_pairs_map_dom(self.changes.pairs(), r@[i]@);
            }
            assert forall|k: Seq<char>| self.view().dom().contains(k) implies exists|i: int| 0 <= i < r@.len() && (#[trigger] r@[i])@ == k by {
                crate::keyed::lemma_pairs_map_dom(self.changes.pairs(), k);
                let i = choose|i: int| 0 <= i < self.changes.pairs().len() && (#[trigger] self.changes.pairs()[i]).0 == k;
                assert(r@[i]@ == k);
            }
        }
        r
    }
}

/// Key-value store of JSON values, with the changes since the last flush.
#[derive(Debug, Clone)]
pub struct SessionState {
    data: KeyedValues<serde_json::Value>,
    delta: StateDelta,
}

impl Default for SessionState {
    fn default() -> (r: Self)
        ensures
            r.wf(),
            r.view() == Map::<Seq<char>, serde_json::Value>::empty(),
            r.changes() == Map::<Seq<char>, Option<serde_json::Value>>::empty(),
    {
        SessionState::new()
    }
}

impl SessionState {
    /// The stored values.
    pub closed spec fn view(&self) -> Map<Seq<char>, serde_json::Value> {
        self.data.view()
    }

    /// The pending changes.
    pub closed spec fn changes(&self) -> Map<Seq<char>, Option<serde_json::Value>> {
        self.delta.view()
    }

    pub closed spec fn wf(&self) -> bool {
        self.data.wf() && self.delta.wf()
    }

    /// An empty state with no pending changes.
    pub fn new() -> (r: Self)
        ensures
            r.wf(),
            r.view() == Map::<Seq<char>, serde_json::Value>::empty(),
            r.changes() == Map::<Seq<char>, Option<serde_json::Value>>::empty(),
    {
        SessionState { data: KeyedValues::new(), delta: StateDelta::new() }
    }

    /// A state holding `data` as its baseline: nothing is recorded as a
    /// change. A later pair of the same key replaces an earlier one.
    pub fn with_data(data: Vec<(String, serde_json::Value)>) -> (r: Self)
        ensures
            r.wf(),
            r.view() == pairs_map(pairs_view(data@)),
            r.changes() == Map::<Seq<char>, Option<serde_json::Value>>::empty(),
    {
        let mut store: KeyedValues<serde_json::Value> = KeyedValues::new();
        let mut i: usize = 0;
        let ghost all = pairs_view(data@);
        while i < data.len()
            invariant
                i <= data@.len(),
                all == pairs_view(data@),
                store.wf(),
                store.view() == pairs_map(all.take(i as int)),
            decreases data@.len() - i,
        {
            assert(all.take(i + 1).drop_last() =~= all.take(i as int));
            let v = json_clone(&data[i].1);
            store.insert(data[i].0.as_str(), v);
            i = i + 1;
        }
        assert(all.take(data@.len() as int) =~= all);
        SessionState { data: store, delta: StateDelta::new() }
    }

    /// Put `baseline`'s entries under this state's: keys this state already
    /// holds keep their values, the others take the baseline's. Nothing is
    /// recorded as a change.
    pub fn apply_baseline(&mut self, baseline: &SessionState)
        requires
            old(self).wf(),
            baseline.wf(),
        ensures
            final(self).wf(),
            final(self).view() == baseline.view().union_prefer_right(old(self).view()),
            final(self).changes() == old(self).changes(),
    {
        let keys = baseline.data.keys();
        let ghost before = self.view();
        let ghost bp = baseline.data.pairs();
        let mut i: usize = 0;
        while i < keys.len()
            invariant
                self.wf(),
                baseline.wf(),
                i <= keys@.len(),
                keys@.len() == bp.len(),
                bp == baseline.data.pairs(),
                forall|j: int| 0 <= j < keys@.len() ==> (#[trigger] keys@[j])@ == bp[j].0,
                self.view() == pairs_map(bp.take(i as int)).union_prefer_right(before),
                self.changes() == old(self).changes(),
            decreases keys@.len() - i,
        {
            assert(bp.take(i + 1).drop_last() =~= bp.take(i as int));
            let key = keys[i];
            if !self.data.contains(key) {
                match baseline.data.get(key) {
                    Some(v) => {
                        let v2 = json_clone(v);
                        self.data.insert(key, v2);
                    },
                    None => {},
                }
            }
            proof {
                crate::keyed::lemma_pairs_map_index(bp, i as int);
                crate::keyed::lemma_pairs_map_dom(bp.take(i as int), key@);
                if crate::keyed::has_key(bp.take(i as int), key@) {
                    let j = choose|j: int| 0 <= j < i && (#[trigger] bp.take(i as int)[j]).0 == key@;
                    assert(bp[j].0 != bp[i as int].0);
                }
                assert(self.view() =~= pairs_map(bp.take(i + 1)).union_prefer_right(before));
            }
            i = i + 1;
        }
        assert(bp.take(bp.len() as int) =~= bp);
    }

    /// The value stored under `key`, if any.
    pub fn get_raw(&self, key: &str) -> (r: Option<&serde_json::Value>)
        requires
            self.wf(),
        ensures
            match r {
                Some(v) => self.view().dom().contains(key@) && self.view()[key@] == *v,
                None => !self.view().dom().contains(key@),
            },
    {
        self.data.get(key)
    }

    /// Store `value` under `key` and record the change.
    pub fn set_raw(&mut self, key: &str, value: serde_json::Value)
        requires
            old(self).wf(),
        ensures
            final(self).wf(),
            final(self).view() == old(self).view().insert(key@, value),
            final(self).changes() == old(self).changes().insert(key@, Some(value)),
    {
        let copy = json_clone(&value);
        self.data.insert(key, value);
        self.delta.changes.insert(key, Some(copy));
    }

    /// Remove `key` and record the removal; nothing happens when it is absent.
    pub fn remove(&mut self, key: &str)
        requires
            old(self).wf(),
        ensures
            final(self).wf(),
            final(self).view() == old(self).view().remove(key@),
            final(self).changes() == if old(self).view().dom().contains(key@) {
                old(self).changes().insert(key@, None)
            } else {
                old(self).changes()
            },
    {
        match self.data.remove(key) {
            Some(_) => {
                self.delta.changes.insert(key, None);
            },
            None => {},
        }
    }

    /// Whether `key` holds a value.
    pub fn contains(&self, key: &str) -> (r: bool)
        requires
            self.wf(),
        ensures
            r == self.view().dom().contains(key@),
    {
        self.data.contains(key)
    }

    /// The keys, in insertion order.
    pub fn keys(&self) -> (r: Vec<&str>)
        requires
            self.wf(),
        ensures
            forall|i: int| 0 <= i < r@.len() ==> self.view().dom().contains((#[trigger] r@[i])@),
            forall|k: Seq<char>| self.view().dom().contains(k) ==> exists|i: int| 0 <= i < r@.len() && (#[trigger] r@[i])@ == k,
    {
        let r = self.data.keys();
        proof {
            assert forall|i: int| 0 <= i < r@.len() implies self.view().dom().contains((#[trigger] r@[i])@) by {
                crate::keyed::lemma_pairs_map_dom(self.data.pairs(), r@[i]@);
            }
            assert forall|k: Seq<char>| self.view().dom().contains(k) implies exists|i: int| 0 <= i < r@.len() && (#[trigger] r@[i])@ == k by {
                crate::keyed::lemma_pairs_map_dom(self.data.pairs(), k);
                let i = choose|i: int| 0 <= i < self.data.pairs().len() && (#[trigger] self.data.pairs()[i]).0 == k;
                assert(r@[i]@ == k);
            }
        }
        r
    }

    /// Number of stored keys.
    pub fn len(&self) -> (r: usize)
        requires
            self.wf(),
        ensures
            r == self.view().dom().len(),
    {
        self.data.len()
    }

    /// Whether nothing is stored.
    pub fn is_empty(&self) -> (r: bool)
        requires
            self.wf(),
        ensures
            r == (self.view().dom().len() == 0),
    {
        self.data.len() == 0
    }

    /// Remove every key, recording each removal.
    pub fn clear(&mut self)
        requires
            old(self).wf(),
        ensures
            final(self).wf(),
            final(self).view() == Map::<Seq<char>, serde_json::Value>::empty(),
            final(self).changes() == old(self).changes().union_prefer_right(
                Map::new(|k: Seq<char>| old(self).view().dom().contains(k), |k: Seq<char>| None::<serde_json::Value>),
            ),
    {
        let ghost before = self.view();
        let ghost dbefore = self.changes();
        let removed = self.data.take_all();
        let ghost rp = pairs_view(removed@);
        let mut i: usize = 0;
        while i < removed.len()
            invariant
                i <= removed@.len(),
                rp == pairs_view(removed@),
                pairs_map(rp) == before,
                self.delta.wf(),
                self.data.wf(),
                self.view() == Map::<Seq<char>, serde_json::Value>::empty(),
                self.changes() == dbefore.union_prefer_right(
                    Map::new(|k: Seq<char>| pairs_map(rp.take(i as int)).dom().contains(k), |k: Seq<char>| None::<serde_json::Value>),
                ),
            decreases removed@.len() - i,
        {
            assert(rp.take(i + 1).drop_last() =~= rp.take(i as int));
            self.delta.changes.insert(removed[i].0.as_str(), None);
            proof {
                assert(self.changes() =~= dbefore.union_prefer_right(
                    Map::new(|k: Seq<char>| pairs_map(rp.take(i + 1)).dom().contains(k), |k: Seq<char>| None::<serde_json::Value>),
                ));
            }
            i = i + 1;
        }
        assert(rp.take(removed@.len() as int) =~= rp);
        assert(self.changes() =~= dbefore.union_prefer_right(
            Map::new(|k: Seq<char>| before.dom().contains(k), |k: Seq<char>| None::<serde_json::Value>),
        ));
    }

    /// The pending changes.
    pub fn delta(&self) -> (r: &StateDelta)
        ensures
            r.view() == self.changes(),
            self.wf() ==> r.wf(),
    {
        &self.delta
    }

    /// Take the pending changes and start recording afresh.
    pub fn flush_delta(&mut self) -> (r: StateDelta)
        requires
            old(self).wf(),
        ensures
            final(self).wf(),
            r.wf(),
            r.view() == old(self).changes(),
            final(self).view() == old(self).view(),
            final(self).changes() == Map::<Seq<char>, Option<serde_json::Value>>::empty(),
    {
        let mut fresh = StateDelta::new();
        std::mem::swap(&mut fresh, &mut self.delta);
        fresh
    }
}


/// The values `base` with `changes` applied: a key changed to `Some(v)`
/// holds `v`, a key changed to `None` is absent, and every other key keeps
/// its value in `base`.
pub open spec fn replay(
    base: Map<Seq<char>, serde_json::Value>,
    changes: Map<Seq<char>, Option<serde_json::Value>>,
) -> Map<Seq<char>, serde_json::Value> {
    Map::new(
        |k: Seq<char>| if changes.dom().contains(k) { changes[k] is Some } else { base.dom().contains(k) },
        |k: Seq<char>| if changes.dom().contains(k) { changes[k]->Some_0 } else { base[k] },
    )
}

/// Right after a flush (or at creation) there are no changes, and the
/// values are the baseline itself.
pub proof fn lemma_flush_replays(values: Map<Seq<char>, serde_json::Value>)
    ensures
        replay(values, Map::<Seq<char>, Option<serde_json::Value>>::empty()) == values,
{
    assert(replay(values, Map::<Seq<char>, Option<serde_json::Value>>::empty()) =~= values);
}

/// The delta records every mutation since the last flush: when the values
/// are the baseline with the changes applied, a `set_raw(key, value)` keeps
/// them so.
pub proof fn lemma_set_replays(
    base: Map<Seq<char>, serde_json::Value>,
    values: Map<Seq<char>, serde_json::Value>,
    changes: Map<Seq<char>, Option<serde_json::Value>>,
    key: Seq<char>,
    value: serde_json::Value,
)
    requires
        values == replay(base, changes),
    ensures
        values.insert(key, value) == replay(base, changes.insert(key, Some(value))),
{
    assert(values.insert(key, value) =~= replay(base, changes.insert(key, Some(value))));
}

/// As [`lemma_set_replays`], for `remove(key)`: removing a key that is
/// present records its removal, removing an absent key records nothing.
pub proof fn lemma_remove_replays(
    base: Map<Seq<char>, serde_json::Value>,
    values: Map<Seq<char>, serde_json::Value>,
    changes: Map<Seq<char>, Option<serde_json::Value>>,
    key: Seq<char>,
)
    requires
        values == replay(base, changes),
    ensures
        values.remove(key) == replay(
            base,
            if values.dom().contains(key) { changes.insert(key, None) } else { changes },
        ),
{
    let after = if values.dom().contains(key) { changes.insert(key, None) } else { changes };
    assert(values.remove(key) =~= replay(base, after));
}

/// As [`lemma_set_replays`], for `clear()`: every key present is recorded as
/// removed, and no value is left.
pub proof fn lemma_clear_replays(
    base: Map<Seq<char>, serde_json::Value>,
    values: Map<Seq<char>, serde_json::Value>,
    changes: Map<Seq<char>, Option<serde_json::Value>>,
)
    requires
        values == replay(base, changes),
    ensures
        Map::<Seq<char>, serde_json::Value>::empty() == replay(
            base,
            changes.union_prefer_right(
                Map::new(|k: Seq<char>| values.dom().contains(k), |k: Seq<char>| None::<serde_json::Value>),
            ),
        ),
{
    let after = changes.union_prefer_right(
        Map::new(|k: Seq<char>| values.dom().contains(k), |k: Seq<char>| None::<serde_json::Value>),
    );
    assert(Map::<Seq<char>, serde_json::Value>::empty() =~= replay(base, after));
}

} // verus!
