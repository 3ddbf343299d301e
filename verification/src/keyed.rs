//! A small map from string keys to values, kept as a list of pairs with
//! distinct keys in insertion order, and viewed as a mathematical map.
use vstd::prelude::*;

use crate::text::same_text;

verus! {

/// The map a list of pairs stands for: each pair sets its key, later pairs
/// overriding earlier ones.
pub open spec fn pairs_map<V>(s: Seq<(Seq<char>, V)>) -> Map<Seq<char>, V>
    decreases s.len(),
{
    if s.len() == 0 {
        Map::empty()
    } else {
        pairs_map(s.drop_last()).insert(s.last().0, s.last().1)
    }
}

pub open spec fn keys_unique<V>(s: Seq<(Seq<char>, V)>) -> bool {
    forall|i: int, j: int| 0 <= i < j < s.len() ==> (#[trigger] s[i]).0 != (#[trigger] s[j]).0
}

pub open spec fn has_key<V>(s: Seq<(Seq<char>, V)>, k: Seq<char>) -> bool {
    exists|i: int| 0 <= i < s.len() && (#[trigger] s[i]).0 == k
}

pub open spec fn pairs_view<V>(v: Seq<(String, V)>) -> Seq<(Seq<char>, V)> {
    v.map_values(|p: (String, V)| (p.0@, p.1))
}

/// A key is in the map exactly when some pair carries it.
pub proof fn lemma_pairs_map_dom<V>(s: Seq<(Seq<char>, V)>, k: Seq<char>)
    ensures
        pairs_map(s).dom().contains(k) <==> has_key(s, k),
        pairs_map(s).dom().finite(),
    decreases s.len(),
{
    if s.len() > 0 {
        let init = s.drop_last();
        lemma_pairs_map_dom(init, k);
        if has_key(init, k) {
            let i = choose|i: int| 0 <= i < init.len() && (#[trigger] init[i]).0 == k;
            assert(s[i] == init[i]);
        }
        if has_key(s, k) && s.last().0 != k {
            let i = choose|i: int| 0 <= i < s.len() && (#[trigger] s[i]).0 == k;
            assert(i < init.len());
            assert(init[i] == s[i]);
        }
    }
}

/// With distinct keys, the value of a key is that of the pair carrying it.
pub proof fn lemma_pairs_map_index<V>(s: Seq<(Seq<char>, V)>, i: int)
    requires
        keys_unique(s),
        0 <= i < s.len(),
    ensures
        pairs_map(s).dom().contains(s[i].0),
        pairs_map(s)[s[i].0] == s[i].1,
    decreases s.len(),
{
    if i < s.len() - 1 {
        let init = s.drop_last();
        assert(init[i] == s[i]);
        assert forall|a: int, b: int| 0 <= a < b < init.len() implies (#[trigger] init[a]).0 != (#[trigger] init[b]).0 by {
            assert(init[a] == s[a] && init[b] == s[b]);
        }
        lemma_pairs_map_index(init, i);
        assert(s[i].0 != s[s.len() - 1].0);
    }
}

/// With distinct keys, the map has one key per pair.
pub proof fn lemma_pairs_map_len<V>(s: Seq<(Seq<char>, V)>)
    requires
        keys_unique(s),
    ensures
        pairs_map(s).dom().len() == s.len(),
    decreases s.len(),
{
    if s.len() > 0 {
        let init = s.drop_last();
        assert forall|a: int, b: int| 0 <= a < b < init.len() implies (#[trigger] init[a]).0 != (#[trigger] init[b]).0 by {
            assert(init[a] == s[a] && init[b] == s[b]);
        }
        lemma_pairs_map_len(init);
        lemma_pairs_map_dom(init, s.last().0);
        if has_key(init, s.last().0) {
            let i = choose|i: int| 0 <= i < init.len() && (#[trigger] init[i]).0 == s.last().0;
            assert(s[i] == init[i]);
        }
    }
}

/// Replacing the value of pair `i` replaces the value of its key.
pub proof fn lemma_pairs_map_update<V>(s: Seq<(Seq<char>, V)>, i: int, v: V)
    requires
        keys_unique(s),
        0 <= i < s.len(),
    ensures
        pairs_map(s.update(i, (s[i].0, v))) == pairs_map(s).insert(s[i].0, v),
    decreases s.len(),
{
    let k = s[i].0;
    let u = s.update(i, (k, v));
    if i == s.len() - 1 {
        assert(u.drop_last() =~= s.drop_last());
        lemma_pairs_map_dom(s.drop_last(), k);
        assert(pairs_map(u) =~= pairs_map(s).insert(k, v));
    } else {
        let init = s.drop_last();
        assert forall|a: int, b: int| 0 <= a < b < init.len() implies (#[trigger] init[a]).0 != (#[trigger] init[b]).0 by {
            assert(init[a] == s[a] && init[b] == s[b]);
        }
        assert(init[i] == s[i]);
        lemma_pairs_map_update(init, i, v);
        assert(u.drop_last() =~= init.update(i, (k, v)));
        assert(s.last().0 != k);
        assert(pairs_map(u) =~= pairs_map(s).insert(k, v));
    }
}

/// Removing pair `i` removes its key.
pub proof fn lemma_pairs_map_remove<V>(s: Seq<(Seq<char>, V)>, i: int)
    requires
        keys_unique(s),
        0 <= i < s.len(),
    ensures
        pairs_map(s.remove(i)) == pairs_map(s).remove(s[i].0),
    decreases s.len(),
{
    let k = s[i].0;
    let init = s.drop_last();
    assert forall|a: int, b: int| 0 <= a < b < init.len() implies (#[trigger] init[a]).0 != (#[trigger] init[b]).0 by {
        assert(init[a] == s[a] && init[b] == s[b]);
    }
    if i == s.len() - 1 {
        assert(s.remove(i) =~= init);
        lemma_pairs_map_dom(init, k);
        if has_key(init, k) {
            let j = choose|j: int| 0 <= j < init.len() && (#[trigger] init[j]).0 == k;
            assert(s[j] == init[j]);
        }
        assert(pairs_map(s.remove(i)) =~= pairs_map(s).remove(k));
    } else {
        assert(init[i] == s[i]);
        lemma_pairs_map_remove(init, i);
        assert(s.remove(i).drop_last() =~= init.remove(i));
        assert(s.remove(i).last() == s.last());
        assert(s.last().0 != k);
        assert(pairs_map(s.remove(i)) =~= pairs_map(s).remove(k));
    }
}

/// Pairs with distinct string keys, in insertion order.
#[derive(Debug, Clone)]
pub struct KeyedValues<V> {
    items: Vec<(String, V)>,
}

impl<V> KeyedValues<V> {
    /// The pairs, in insertion order.
    pub closed spec fn pairs(&self) -> Seq<(Seq<char>, V)> {
        pairs_view(self.items@)
    }

    /// The map the pairs stand for.
    pub open spec fn view(&self) -> Map<Seq<char>, V> {
        pairs_map(self.pairs())
    }

    pub open spec fn wf(&self) -> bool {
        keys_unique(self.pairs())
    }

    /// No pairs.
    pub fn new() -> (r: Self)
        ensures
            r.wf(),
            r.view() == Map::<Seq<char>, V>::empty(),
            r.pairs().len() == 0,
    {
        let r = KeyedValues { items: Vec::new() };
        assert(r.pairs() =~= Seq::<(Seq<char>, V)>::empty());
        r
    }

    fn position(&self, key: &str) -> (r: Option<usize>)
        requires
            self.wf(),
        ensures
            match r {
                Some(i) => i < self.pairs().len() && self.pairs()[i as int].0 == key@,
                None => !has_key(self.pairs(), key@),
            },
    {
        let mut i: usize = 0;
        while i < self.items.len()
            invariant
                i <= self.items@.len(),
                forall|j: int| 0 <= j < i ==> (#[trigger] self.pairs()[j]).0 != key@,
            decreases self.items@.len() - i,
        {
            assert(self.pairs()[i as int].0 == self.items@[i as int].0@);
            if same_text(self.items[i].0.as_str(), key) {
                return Some(i);
            }
            i = i + 1;
        }
        None
    }

    /// The value of `key`, if it has one.
    pub fn get(&self, key: &str) -> (r: Option<&V>)
        requires
            self.wf(),
        ensures
            match r {
                Some(v) => self.view().dom().contains(key@) && self.view()[key@] == *v,
                None => !self.view().dom().contains(key@),
            },
    {
        proof {
            lemma_pairs_map_dom(self.pairs(), key@);
        }
        match self.position(key) {
            Some(i) => {
                proof {
                    lemma_pairs_map_index(self.pairs(), i as int);
                }
                Some(&self.items[i].1)
            },
            None => None,
        }
    }

    /// Whether `key` has a value.
    pub fn contains(&self, key: &str) -> (r: bool)
        requires
            self.wf(),
        ensures
            r == self.view().dom().contains(key@),
    {
        proof {
            lemma_pairs_map_dom(self.pairs(), key@);
        }
        self.position(key).is_some()
    }

    /// Set the value of `key`: a present key keeps its place, a new one goes
    /// last.
    pub fn insert(&mut self, key: &str, value: V)
        requires
            old(self).wf(),
        ensures
            final(self).wf(),
            final(self).view() == old(self).view().insert(key@, value),
    {
        let ghost before = self.pairs();
        match self.position(key) {
            Some(i) => {
                let k = self.items[i].0.clone();
                self.items.set(i, (k, value));
                assert(self.pairs() =~= before.update(i as int, (before[i as int].0, value)));
                proof {
                    lemma_pairs_map_update(before, i as int, value);
                }
                assert forall|a: int, b: int| 0 <= a < b < self.pairs().len() implies (#[trigger] self.pairs()[a]).0 != (#[trigger] self.pairs()[b]).0 by {
                    assert(before[a].0 != before[b].0);
                }
            },
            None => {
                self.items.push((key.to_owned(), value));
                assert(self.pairs() =~= before.push((key@, value)));
                assert(self.pairs().drop_last() =~= before);
                assert forall|a: int, b: int| 0 <= a < b < self.pairs().len() implies (#[trigger] self.pairs()[a]).0 != (#[trigger] self.pairs()[b]).0 by {
                    if b < before.len() {
                        assert(before[a].0 != before[b].0);
                    } else {
                        assert(before[a].0 != key@);
                    }
                }
            },
        }
    }

    /// Remove `key` and return its value; nothing changes when it has none.
    pub fn remove(&mut self, key: &str) -> (r: Option<V>)
        requires
            old(self).wf(),
        ensures
            final(self).wf(),
            final(self).view() == old(self).view().remove(key@),
            match r {
                Some(v) => old(self).view().dom().contains(key@) && old(self).view()[key@] == v,
                None => !old(self).view().dom().contains(key@),
            },
    {
        let ghost before = self.pairs();
        proof {
            lemma_pairs_map_dom(before, key@);
        }
        match self.position(key) {
            Some(i) => {
                proof {
                    lemma_pairs_map_index(before, i as int);
                    lemma_pairs_map_remove(before, i as int);
                }
                let (_, v) = self.items.remove(i);
                assert(self.pairs() =~= before.remove(i as int));
                assert forall|a: int, b: int| 0 <= a < b < self.pairs().len() implies (#[trigger] self.pairs()[a]).0 != (#[trigger] self.pairs()[b]).0 by {
                    if a < i {
                        if b < i {
                            assert(before[a].0 != before[b].0);
                        } else {
                            assert(before[a].0 != before[b + 1].0);
                        }
                    } else {
                        assert(before[a + 1].0 != before[b + 1].0);
                    }
                }
                Some(v)
            },
            None => {
                assert(pairs_map(before) =~= pairs_map(before).remove(key@));
                None
            },
        }
    }

    /// Number of keys.
    pub fn len(&self) -> (r: usize)
        requires
            self.wf(),
        ensures
            r == self.view().dom().len(),
    {
        proof {
            lemma_pairs_map_len(self.pairs());
        }
        self.items.len()
    }

    /// The keys, in insertion order.
    pub fn keys(&self) -> (r: Vec<&str>)
        requires
            self.wf(),
        ensures
            r@.len() == self.pairs().len(),
            forall|i: int| 0 <= i < r@.len() ==> (#[trigger] r@[i])@ == self.pairs()[i].0,
    {
        let mut out: Vec<&str> = Vec::new();
        let mut i: usize = 0;
        while i < self.items.len()
            invariant
                i <= self.items@.len(),
                out@.len() == i,
                forall|j: int| 0 <= j < i ==> (#[trigger] out@[j])@ == self.pairs()[j].0,
            decreases self.items@.len() - i,
        {
            out.push(self.items[i].0.as_str());
            i = i + 1;
        }
        out
    }

    /// Remove every pair, returning them in insertion order.
    pub fn take_all(&mut self) -> (r: Vec<(String, V)>)
        requires
            old(self).wf(),
        ensures
            final(self).wf(),
            final(self).view() == Map::<Seq<char>, V>::empty(),
            pairs_view(r@) == old(self).pairs(),
    {
        let mut taken: Vec<(String, V)> = Vec::new();
        std::mem::swap(&mut taken, &mut self.items);
        assert(self.pairs() =~= Seq::<(Seq<char>, V)>::empty());
        taken
    }
}

} // verus!
