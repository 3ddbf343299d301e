//! Plugins: named, prioritised bundles of extensions, and the provider-safe
//! namespacing of the tools they contribute.
use std::sync::Arc;

use vstd::prelude::*;

use crate::text::same_text;
use crate::tool::{AgentTool, ToolMetadata};
use crate::tool_name::{compose_provider_safe_tool_name, compose_spec, is_provider_safe};
use crate::types::opt_view;

verus! {

/// A reusable extension identified by its name.
pub trait Plugin {
    /// The name the plugin answers with. A plugin checked here defines it
    /// beside `name`; for any other plugin it stands for a fixed text that is
    /// not known.
    open spec fn spec_name(&self) -> Seq<char> {
        arbitrary()
    }

    /// The priority the plugin answers with. A plugin checked here defines it
    /// beside `priority`; for any other plugin it stands for a fixed number
    /// that is not known.
    open spec fn spec_priority(&self) -> i32 {
        arbitrary()
    }

    /// Unique identifier (used for registry lookup and tool namespacing).
    fn name(&self) -> (r: &str)
        ensures
            r@ == self.spec_name(),
    ;

    /// Execution priority: higher values run first; a plugin with no
    /// preference answers 0.
    fn priority(&self) -> (r: i32)
        ensures
            r == self.spec_priority(),
    ;
}

/// A registered plugin: the name and priority it reported when it was
/// registered, and the plugin itself.
pub type Entry<P> = (Seq<char>, i32, Arc<P>);

/// How many entries have priority at least `prio`.
pub open spec fn count_at_least<P: ?Sized>(s: Seq<Entry<P>>, prio: i32) -> nat
    decreases s.len(),
{
    if s.len() == 0 {
        0
    } else {
        count_at_least(s.drop_last(), prio) + if s.last().1 >= prio { 1nat } else { 0nat }
    }
}

/// Entries ordered by descending priority, stable: entries of equal priority
/// keep their order. Each entry goes after every entry of at least its
/// priority already placed.
pub open spec fn priority_order<P: ?Sized>(s: Seq<Entry<P>>) -> Seq<Entry<P>>
    decreases s.len(),
{
    if s.len() == 0 {
        s
    } else {
        let sorted = priority_order(s.drop_last());
        sorted.insert(count_at_least(sorted, s.last().1) as int, s.last())
    }
}

pub open spec fn is_priority_desc<P: ?Sized>(s: Seq<Entry<P>>) -> bool {
    forall|i: int, j: int| 0 <= i < j < s.len() ==> (#[trigger] s[i]).1 >= (#[trigger] s[j]).1
}

/// Whether an entry named `name` is present.
pub open spec fn has_plugin<P: ?Sized>(s: Seq<Entry<P>>, name: Seq<char>) -> bool {
    exists|i: int| 0 <= i < s.len() && (#[trigger] s[i]).0 == name
}

/// The entries whose name differs from `name`, in order.
pub open spec fn without_name<P: ?Sized>(s: Seq<Entry<P>>, name: Seq<char>) -> Seq<Entry<P>>
    decreases s.len(),
{
    if s.len() == 0 {
        s
    } else {
        let rest = without_name(s.drop_last(), name);
        if s.last().0 != name {
            rest.push(s.last())
        } else {
            rest
        }
    }
}

pub open spec fn names_distinct<P: ?Sized>(s: Seq<Entry<P>>) -> bool {
    forall|i: int, j: int| 0 <= i < j < s.len() ==> (#[trigger] s[i]).0 != (#[trigger] s[j]).0
}

/// What registering `e` does: an entry of the same name is replaced in
/// place, otherwise `e` goes last.
pub open spec fn registered<P: ?Sized>(s: Seq<Entry<P>>, e: Entry<P>) -> Seq<Entry<P>> {
    if has_plugin(s, e.0) {
        s.update(choose|i: int| 0 <= i < s.len() && s[i].0 == e.0, e)
    } else {
        s.push(e)
    }
}

/// A collection of plugins with deduplication by name and priority ordering.
///
/// Plugins are kept in registration order, under the name and priority they
/// reported when registered; [`list`](Self::list) returns them ordered by
/// descending priority, ties in registration order.
pub struct PluginRegistry<P: Plugin + ?Sized> {
    names: Vec<String>,
    priorities: Vec<i32>,
    plugins: Vec<Arc<P>>,
}

impl<P: Plugin + ?Sized> PluginRegistry<P> {
    /// The registered entries, in registration order.
    pub closed spec fn view(&self) -> Seq<Entry<P>> {
        Seq::new(self.plugins@.len(), |i: int| (self.names@[i]@, self.priorities@[i], self.plugins@[i]))
    }

    /// The three columns line up, and names are unique.
    pub closed spec fn wf(&self) -> bool {
        &&& self.names@.len() == self.plugins@.len()
        &&& self.priorities@.len() == self.plugins@.len()
        &&& names_distinct(self.view())
    }

    /// An empty registry.
    pub fn new() -> (r: Self)
        ensures
            r.wf(),
            r.view().len() == 0,
    {
        let r = PluginRegistry { names: Vec::new(), priorities: Vec::new(), plugins: Vec::new() };
        assert(r.view() =~= Seq::<Entry<P>>::empty());
        r
    }

    fn position(&self, name: &str) -> (r: Option<usize>)
        requires
            self.wf(),
        ensures
            match r {
                Some(i) => i < self.view().len() && self.view()[i as int].0 == name@,
                None => !has_plugin(self.view(), name@),
            },
    {
        let mut i: usize = 0;
        while i < self.names.len()
            invariant
                self.wf(),
                i <= self.names@.len(),
                forall|j: int| 0 <= j < i ==> (#[trigger] self.view()[j]).0 != name@,
            decreases self.names@.len() - i,
        {
            if same_text(self.names[i].as_str(), name) {
                return Some(i);
            }
            i = i + 1;
        }
        None
    }

    /// Register a plugin under the name and priority it reports; a plugin of
    /// the same name is replaced in place.
    pub fn register(&mut self, plugin: Arc<P>)
        requires
            old(self).wf(),
        ensures
            final(self).wf(),
            final(self).view() == registered(old(self).view(), ((*plugin).spec_name(), (*plugin).spec_priority(), plugin)),
    {
        let ghost before = self.view();
        let name = plugin.name().to_owned();
        let prio = plugin.priority();
        let ghost e = (name@, prio, plugin);
        match self.position(name.as_str()) {
            Some(pos) => {
                self.names.set(pos, name);
                self.priorities.set(pos, prio);
                self.plugins.set(pos, plugin);
                assert(self.view() =~= before.update(pos as int, e));
                assert forall|i: int, j: int| 0 <= i < j < self.view().len() implies (#[trigger] self.view()[i]).0 != (#[trigger] self.view()[j]).0 by {
                    assert(before[i].0 != before[j].0);
                }
                proof {
                    assert(has_plugin(before, e.0));
                    let k = choose|k: int| 0 <= k < before.len() && before[k].0 == e.0;
                    assert(k == pos) by {
                        if k != pos {
                            if k < pos {
                                assert(before[k].0 != before[pos as int].0);
                            } else {
                                assert(before[pos as int].0 != before[k].0);
                            }
                        }
                    }
                    assert(self.view() == registered(before, e));
                }
            },
            None => {
                self.names.push(name);
                self.priorities.push(prio);
                self.plugins.push(plugin);
                assert(self.view() =~= before.push(e));
                assert forall|i: int, j: int| 0 <= i < j < self.view().len() implies (#[trigger] self.view()[i]).0 != (#[trigger] self.view()[j]).0 by {
                    if j < before.len() {
                        assert(before[i].0 != before[j].0);
                    } else {
                        assert(before[i].0 != e.0);
                    }
                }
                assert(self.view() == registered(before, e));
            },
        }
    }

    /// Remove the plugin named `name`; nothing happens when there is none.
    pub fn unregister(&mut self, name: &str)
        requires
            old(self).wf(),
        ensures
            final(self).wf(),
            final(self).view() == without_name(old(self).view(), name@),
            !has_plugin(final(self).view(), name@),
    {
        let ghost before = self.view();
        let mut names: Vec<String> = Vec::new();
        let mut priorities: Vec<i32> = Vec::new();
        let mut plugins: Vec<Arc<P>> = Vec::new();
        let mut i: usize = 0;
        while i < self.plugins.len()
            invariant
                self.wf(),
                i <= self.plugins@.len(),
                before == self.view(),
                names@.len() == plugins@.len(),
                priorities@.len() == plugins@.len(),
                Seq::new(plugins@.len(), |k: int| (names@[k]@, priorities@[k], plugins@[k]))
                    == without_name(before.take(i as int), name@),
            decreases self.plugins@.len() - i,
        {
            let ghost prefix = before.take(i as int);
            assert(before.take(i + 1).drop_last() =~= prefix);
            if !same_text(self.names[i].as_str(), name) {
                let ghost kept = Seq::new(plugins@.len(), |k: int| (names@[k]@, priorities@[k], plugins@[k]));
                names.push(self.names[i].clone());
                priorities.push(self.priorities[i]);
                plugins.push(self.plugins[i].clone());
                assert(Seq::new(plugins@.len(), |k: int| (names@[k]@, priorities@[k], plugins@[k])) =~= kept.push(before[i as int]));
            }
            i = i + 1;
        }
        assert(before.take(before.len() as int) =~= before);
        self.names = names;
        self.priorities = priorities;
        self.plugins = plugins;
        assert(self.view() =~= without_name(before, name@));
        proof {
            lemma_filter_keeps_distinct(before, name@);
        }
    }

    /// The plugin registered as `name`, if any.
    pub fn get(&self, name: &str) -> (r: Option<&Arc<P>>)
        requires
            self.wf(),
        ensures
            match r {
                Some(p) => exists|i: int| 0 <= i < self.view().len() && self.view()[i].0 == name@ && self.view()[i].2 == *p,
                None => !has_plugin(self.view(), name@),
            },
    {
        match self.position(name) {
            Some(i) => Some(&self.plugins[i]),
            None => None,
        }
    }

    /// Whether no plugin is registered.
    pub fn is_empty(&self) -> (r: bool)
        requires
            self.wf(),
        ensures
            r == (self.view().len() == 0),
    {
        self.plugins.len() == 0
    }

    /// Number of registered plugins.
    pub fn len(&self) -> (r: usize)
        requires
            self.wf(),
        ensures
            r == self.view().len(),
    {
        self.plugins.len()
    }

    /// All plugins, highest priority first; ties keep registration order.
    pub fn list(&self) -> (r: Vec<&Arc<P>>)
        requires
            self.wf(),
        ensures
            r@.map_values(|p: &Arc<P>| *p) == priority_order(self.view()).map_values(|e: Entry<P>| e.2),
            is_priority_desc(priority_order(self.view())),
    {
        let ghost all = self.view();
        let mut sorted: Vec<&Arc<P>> = Vec::new();
        let ghost mut sv: Seq<Entry<P>> = Seq::empty();
        let mut prios: Vec<i32> = Vec::new();
        let mut i: usize = 0;
        while i < self.plugins.len()
            invariant
                self.wf(),
                i <= self.plugins@.len(),
                all == self.view(),
                sv == priority_order(all.take(i as int)),
                sorted@.len() == sv.len(),
                prios@.len() == sv.len(),
                forall|k: int| 0 <= k < sv.len() ==> *(#[trigger] sorted@[k]) == sv[k].2,
                forall|k: int| 0 <= k < sv.len() ==> (#[trigger] prios@[k]) == sv[k].1,
            decreases self.plugins@.len() - i,
        {
            assert(all.take(i + 1).drop_last() =~= all.take(i as int));
            let prio = self.priorities[i];
            let mut pos: usize = 0;
            let mut k: usize = 0;
            while k < prios.len()
                invariant
                    k <= prios@.len(),
                    prios@.len() == sv.len(),
                    forall|m: int| 0 <= m < sv.len() ==> (#[trigger] prios@[m]) == sv[m].1,
                    pos == count_at_least(sv.take(k as int), prio),
                    pos <= k,
                decreases prios@.len() - k,
            {
                assert(sv.take(k + 1).drop_last() =~= sv.take(k as int));
                if prios[k] >= prio {
                    pos = pos + 1;
                }
                k = k + 1;
            }
            assert(sv.take(prios@.len() as int) =~= sv);
            let ghost e = all[i as int];
            sorted.insert(pos, &self.plugins[i]);
            prios.insert(pos, prio);
            proof {
                sv = sv.insert(pos as int, e);
            }
            assert forall|k: int| 0 <= k < sv.len() implies *(#[trigger] sorted@[k]) == sv[k].2 by {
                if k < pos {
                } else if k == pos {
                } else {
                }
            }
            assert forall|k: int| 0 <= k < sv.len() implies (#[trigger] prios@[k]) == sv[k].1 by {
                if k < pos {
                } else if k == pos {
                } else {
                }
            }
            i = i + 1;
        }
        assert(all.take(all.len() as int) =~= all);
        assert(sorted@.map_values(|p: &Arc<P>| *p) =~= priority_order(all).map_values(|e: Entry<P>| e.2));
        proof {
            lemma_priority_order_sorted(all);
        }
        sorted
    }
}

/// Every entry kept by `without_name` comes from the input and does not
/// carry `name`; distinct names stay distinct.
proof fn lemma_filter_keeps_distinct<P: ?Sized>(s: Seq<Entry<P>>, name: Seq<char>)
    requires
        names_distinct(s),
    ensures
        names_distinct(without_name(s, name)),
        !has_plugin(without_name(s, name), name),
        forall|k: int| 0 <= k < without_name(s, name).len() ==> s.contains(#[trigger] without_name(s, name)[k]),
    decreases s.len(),
{
    let f = without_name(s, name);
    if s.len() > 0 {
        let init = s.drop_last();
        assert forall|i: int, j: int| 0 <= i < j < init.len() implies (#[trigger] init[i]).0 != (#[trigger] init[j]).0 by {
            assert(init[i] == s[i] && init[j] == s[j]);
        }
        lemma_filter_keeps_distinct(init, name);
        let fi = without_name(init, name);
        assert forall|k: int| 0 <= k < f.len() implies s.contains(#[trigger] f[k]) by {
            if k < fi.len() {
                assert(f[k] == fi[k]);
                assert(init.contains(fi[k]));
                let m = choose|m: int| 0 <= m < init.len() && init[m] == fi[k];
                assert(s[m] == fi[k]);
            } else {
                assert(f[k] == s[s.len() - 1]);
            }
        }
        if s.last().0 != name {
            assert forall|i: int, j: int| 0 <= i < j < f.len() implies (#[trigger] f[i]).0 != (#[trigger] f[j]).0 by {
                if j == fi.len() {
                    assert(f[i] == fi[i]);
                    assert(init.contains(fi[i]));
                    let k = choose|k: int| 0 <= k < init.len() && init[k] == fi[i];
                    assert(s[k] == init[k]);
                    assert(s[k].0 != s[s.len() - 1].0);
                } else {
                    assert(f[i] == fi[i] && f[j] == fi[j]);
                }
            }
            assert forall|i: int| 0 <= i < f.len() implies (#[trigger] f[i]).0 != name by {
                if i < fi.len() {
                    assert(f[i] == fi[i]);
                }
            }
        }
    }
}

/// In a descending sequence, the entries of priority at least `prio` are
/// exactly the first `count_at_least` ones.
proof fn lemma_count_prefix<P: ?Sized>(s: Seq<Entry<P>>, prio: i32)
    requires
        is_priority_desc(s),
    ensures
        count_at_least(s, prio) <= s.len(),
        forall|i: int| 0 <= i < count_at_least(s, prio) ==> (#[trigger] s[i]).1 >= prio,
        forall|i: int| count_at_least(s, prio) <= i < s.len() ==> (#[trigger] s[i]).1 < prio,
    decreases s.len(),
{
    if s.len() > 0 {
        let init = s.drop_last();
        assert forall|i: int, j: int| 0 <= i < j < init.len() implies (#[trigger] init[i]).1 >= (#[trigger] init[j]).1 by {
            assert(init[i] == s[i] && init[j] == s[j]);
        }
        lemma_count_prefix(init, prio);
        let c = count_at_least(init, prio);
        if s.last().1 >= prio {
            if c < init.len() {
                assert(init[c as int].1 < prio);
                assert(s[c as int].1 >= s[s.len() - 1].1);
            }
        }
        assert forall|i: int| 0 <= i < count_at_least(s, prio) implies (#[trigger] s[i]).1 >= prio by {
            if i < init.len() {
                assert(s[i] == init[i]);
            }
        }
        assert forall|i: int| count_at_least(s, prio) <= i < s.len() implies (#[trigger] s[i]).1 < prio by {
            if i < init.len() {
                assert(s[i] == init[i]);
            }
        }
    }
}

/// The priority order is descending and keeps every entry.
pub proof fn lemma_priority_order_sorted<P: ?Sized>(s: Seq<Entry<P>>)
    ensures
        is_priority_desc(priority_order(s)),
        priority_order(s).len() == s.len(),
    decreases s.len(),
{
    if s.len() > 0 {
        let sorted = priority_order(s.drop_last());
        lemma_priority_order_sorted(s.drop_last());
        let x = s.last();
        lemma_count_prefix(sorted, x.1);
        let c = count_at_least(sorted, x.1) as int;
        let r = sorted.insert(c, x);
        assert forall|i: int, j: int| 0 <= i < j < r.len() implies (#[trigger] r[i]).1 >= (#[trigger] r[j]).1 by {
            if j < c {
                assert(r[i] == sorted[i] && r[j] == sorted[j]);
            } else if j == c {
                assert(r[i] == sorted[i]);
            } else if i == c {
                assert(r[j] == sorted[j - 1]);
            } else if i < c {
                assert(r[i] == sorted[i] && r[j] == sorted[j - 1]);
            } else {
                assert(r[i] == sorted[i - 1] && r[j] == sorted[j - 1]);
            }
        }
    }
}

/// Compose a plugin-namespaced tool name that is safe across every provider.
pub fn compose_namespaced_name(plugin_name: &str, tool_name: &str) -> (r: String)
    ensures
        r@ == compose_spec(Some(plugin_name@), tool_name@),
        is_provider_safe(r@),
{
    compose_provider_safe_tool_name(Some(plugin_name), tool_name)
}

/// Wraps a plugin-contributed tool under a provider-safe name made of the
/// plugin name and the tool name. The unsanitized plugin name is kept as the
/// tool's metadata namespace; everything else is delegated to the inner tool.
pub struct NamespacedTool<T: AgentTool + ?Sized> {
    prefixed_name: String,
    plugin_name: String,
    inner: Arc<T>,
}

impl<T: AgentTool + ?Sized> NamespacedTool<T> {
    pub closed spec fn spec_prefixed_name(&self) -> Seq<char> {
        self.prefixed_name@
    }

    pub closed spec fn spec_plugin_name(&self) -> Seq<char> {
        self.plugin_name@
    }

    pub closed spec fn spec_inner(&self) -> Arc<T> {
        self.inner
    }

    /// Wrap `inner`, naming it after `plugin_name` and its own name.
    pub fn new(plugin_name: &str, inner: Arc<T>) -> (r: Self)
        ensures
            r.spec_plugin_name() == plugin_name@,
            r.spec_inner() == inner,
            is_provider_safe(r.spec_prefixed_name()),
            r.spec_prefixed_name() == compose_spec(Some(plugin_name@), (*inner).spec_name()),
    {
        let prefixed = compose_namespaced_name(plugin_name, inner.name());
        NamespacedTool { prefixed_name: prefixed, plugin_name: plugin_name.to_owned(), inner }
    }

    /// Wrap `inner` under an explicit final name.
    pub fn with_name(plugin_name: &str, inner: Arc<T>, prefixed_name: &str) -> (r: Self)
        ensures
            r.spec_plugin_name() == plugin_name@,
            r.spec_prefixed_name() == prefixed_name@,
            r.spec_inner() == inner,
    {
        NamespacedTool {
            prefixed_name: prefixed_name.to_owned(),
            plugin_name: plugin_name.to_owned(),
            inner,
        }
    }

    /// The wrapped tool.
    pub fn inner(&self) -> (r: &Arc<T>)
        ensures
            *r == self.spec_inner(),
    {
        &self.inner
    }
}

impl<T: AgentTool + ?Sized> AgentTool for NamespacedTool<T> {
    /// The composed, provider-safe name.
    open spec fn spec_name(&self) -> Seq<char> {
        self.spec_prefixed_name()
    }

    fn name(&self) -> (r: &str) {
        self.prefixed_name.as_str()
    }

    /// The inner tool's label.
    open spec fn label_outcome(&self, r: Seq<char>) -> bool {
        (*self.spec_inner()).label_outcome(r)
    }

    /// The inner tool's description.
    open spec fn description_outcome(&self, r: Seq<char>) -> bool {
        (*self.spec_inner()).description_outcome(r)
    }

    /// The inner tool's answer.
    open spec fn approval_outcome(&self, r: bool) -> bool {
        (*self.spec_inner()).approval_outcome(r)
    }

    fn label(&self) -> (r: &str) {
        self.inner.label()
    }

    fn description(&self) -> (r: &str) {
        self.inner.description()
    }

    fn requires_approval(&self) -> (r: bool) {
        self.inner.requires_approval()
    }

    fn metadata(&self) -> (r: Option<ToolMetadata>)
        ensures
            r matches Some(m) && opt_view(m.namespace) == Some(self.spec_plugin_name()),
    {
        let mut meta = match self.inner.metadata() {
            Some(m) => m,
            None => ToolMetadata { namespace: None },
        };
        meta.namespace = Some(self.plugin_name.clone());
        Some(meta)
    }
}

} // verus!
