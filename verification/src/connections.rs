//! The models an agent can call: a primary connection and extra ones (for
//! fallback or switching), each a model spec with the stream function that
//! serves it. Extra connections that repeat the primary model or an earlier
//! extra model are dropped.
use std::sync::Arc;

use vstd::prelude::*;

use crate::text::same_text;
use crate::types::{ModelSpec, ModelSpecV};

verus! {

/// Whether two model specs are equal field by field.
pub fn same_model(a: &ModelSpec, b: &ModelSpec) -> (r: bool)
    ensures
        r == (a@ == b@),
{
    if !same_text(a.provider.as_str(), b.provider.as_str()) || !same_text(a.model_id.as_str(), b.model_id.as_str()) {
        return false;
    }
    if a.thinking_level != b.thinking_level {
        return false;
    }
    match (a.capabilities, b.capabilities) {
        (None, None) => true,
        (Some(x), Some(y)) => x == y,
        _ => false,
    }
}

/// A model spec with the stream function that serves it.
pub struct ModelConnection<S: ?Sized> {
    model: ModelSpec,
    stream_fn: Arc<S>,
}

impl<S: ?Sized> ModelConnection<S> {
    pub closed spec fn spec_model(&self) -> ModelSpecV {
        self.model@
    }

    pub closed spec fn spec_stream_fn(&self) -> Arc<S> {
        self.stream_fn
    }

    pub fn new(model: ModelSpec, stream_fn: Arc<S>) -> (r: Self)
        ensures
            r.spec_model() == model@,
            r.spec_stream_fn() == stream_fn,
    {
        ModelConnection { model, stream_fn }
    }

    pub fn model_spec(&self) -> (r: &ModelSpec)
        ensures
            r@ == self.spec_model(),
    {
        &self.model
    }

    pub fn stream_fn(&self) -> (r: Arc<S>)
        ensures
            r == self.spec_stream_fn(),
    {
        Arc::clone(&self.stream_fn)
    }
}

/// The content of a connection: its model and its stream function.
pub open spec fn connection_view<S: ?Sized>(c: ModelConnection<S>) -> (ModelSpecV, Arc<S>) {
    (c.spec_model(), c.spec_stream_fn())
}

/// Whether `model` occurs among the models of `kept`.
pub open spec fn has_model<S: ?Sized>(kept: Seq<(ModelSpecV, Arc<S>)>, model: ModelSpecV) -> bool {
    exists|i: int| 0 <= i < kept.len() && (#[trigger] kept[i]).0 == model
}

/// The extra connections kept: in order, each one whose model is neither
/// the primary model nor the model of an earlier kept connection.
pub open spec fn kept_extras<S: ?Sized>(primary: ModelSpecV, extras: Seq<(ModelSpecV, Arc<S>)>) -> Seq<(ModelSpecV, Arc<S>)>
    decreases extras.len(),
{
    if extras.len() == 0 {
        Seq::empty()
    } else {
        let kept = kept_extras(primary, extras.drop_last());
        let last = extras.last();
        if last.0 == primary || has_model(kept, last.0) {
            kept
        } else {
            kept.push(last)
        }
    }
}

/// The kept extra connections never repeat a model, nor the primary one.
pub proof fn lemma_kept_extras_distinct<S: ?Sized>(primary: ModelSpecV, extras: Seq<(ModelSpecV, Arc<S>)>)
    ensures
        forall|i: int| 0 <= i < kept_extras(primary, extras).len() ==> (#[trigger] kept_extras(primary, extras)[i]).0 != primary,
        forall|i: int, j: int| 0 <= i < j < kept_extras(primary, extras).len()
            ==> (#[trigger] kept_extras(primary, extras)[i]).0 != (#[trigger] kept_extras(primary, extras)[j]).0,
    decreases extras.len(),
{
    if extras.len() > 0 {
        lemma_kept_extras_distinct(primary, extras.drop_last());
        let kept = kept_extras(primary, extras.drop_last());
        let last = extras.last();
        if !(last.0 == primary || has_model(kept, last.0)) {
            let k2 = kept.push(last);
            assert forall|i: int, j: int| 0 <= i < j < k2.len() implies (#[trigger] k2[i]).0 != (#[trigger] k2[j]).0 by {
                if j == kept.len() {
                    assert(kept[i] == k2[i]);
                }
            }
        }
    }
}

/// The primary connection and the extra ones.
pub struct ModelConnections<S: ?Sized> {
    primary_model: ModelSpec,
    primary_stream_fn: Arc<S>,
    extra_models: Vec<(ModelSpec, Arc<S>)>,
}

pub open spec fn pairs_view<S: ?Sized>(v: Seq<(ModelSpec, Arc<S>)>) -> Seq<(ModelSpecV, Arc<S>)> {
    v.map_values(|p: (ModelSpec, Arc<S>)| (p.0@, p.1))
}

impl<S: ?Sized> ModelConnections<S> {
    pub closed spec fn spec_primary_model(&self) -> ModelSpecV {
        self.primary_model@
    }

    pub closed spec fn spec_primary_stream_fn(&self) -> Arc<S> {
        self.primary_stream_fn
    }

    pub closed spec fn spec_extras(&self) -> Seq<(ModelSpecV, Arc<S>)> {
        pairs_view(self.extra_models@)
    }

    /// Put `primary` first and keep, in order, each extra connection whose
    /// model repeats neither the primary model nor an earlier extra one.
    pub fn new(primary: ModelConnection<S>, extras: Vec<ModelConnection<S>>) -> (r: Self)
        ensures
            r.spec_primary_model() == primary.spec_model(),
            r.spec_primary_stream_fn() == primary.spec_stream_fn(),
            r.spec_extras() == kept_extras(primary.spec_model(), extras@.map_values(|c: ModelConnection<S>| connection_view(c))),
    {
        let ModelConnection { model: primary_model, stream_fn: primary_stream_fn } = primary;
        let ghost all = extras@.map_values(|c: ModelConnection<S>| connection_view(c));
        let mut extra_models: Vec<(ModelSpec, Arc<S>)> = Vec::new();
        let mut i: usize = 0;
        while i < extras.len()
            invariant
                i <= extras@.len(),
                all == extras@.map_values(|c: ModelConnection<S>| connection_view(c)),
                pairs_view(extra_models@) == kept_extras(primary_model@, all.take(i as int)),
            decreases extras@.len() - i,
        {
            assert(all.take(i + 1).drop_last() =~= all.take(i as int));
            let candidate = &extras[i];
            let mut repeated = same_model(&candidate.model, &primary_model);
            let mut k: usize = 0;
            while k < extra_models.len() && !repeated
                invariant
                    k <= extra_models@.len(),
                    !repeated ==> candidate.model@ != primary_model@,
                    !repeated ==> forall|j: int| 0 <= j < k ==> (#[trigger] pairs_view(extra_models@)[j]).0 != candidate.model@,
                    repeated ==> (candidate.model@ == primary_model@ || has_model(pairs_view(extra_models@), candidate.model@)),
                decreases extra_models@.len() - k,
            {
                if same_model(&extra_models[k].0, &candidate.model) {
                    repeated = true;
                    assert(pairs_view(extra_models@)[k as int].0 == candidate.model@);
                }
                k = k + 1;
            }
            assert(all.take(i + 1).last() == connection_view(extras@[i as int]));
            if repeated {
                assert(kept_extras(primary_model@, all.take(i + 1)) == kept_extras(primary_model@, all.take(i as int)));
            } else {
                let model = candidate.model.clone();
                let stream_fn = Arc::clone(&candidate.stream_fn);
                extra_models.push((model, stream_fn));
                assert(!has_model(kept_extras(primary_model@, all.take(i as int)), candidate.model@));
                assert(pairs_view(extra_models@) =~= kept_extras(primary_model@, all.take(i as int)).push(
                    connection_view(extras@[i as int]),
                ));
            }
            i = i + 1;
        }
        assert(all.take(extras@.len() as int) =~= all);
        ModelConnections { primary_model, primary_stream_fn, extra_models }
    }

    pub fn primary_model(&self) -> (r: &ModelSpec)
        ensures
            r@ == self.spec_primary_model(),
    {
        &self.primary_model
    }

    pub fn primary_stream_fn(&self) -> (r: Arc<S>)
        ensures
            r == self.spec_primary_stream_fn(),
    {
        Arc::clone(&self.primary_stream_fn)
    }

    pub fn extra_models(&self) -> (r: &[(ModelSpec, Arc<S>)])
        ensures
            pairs_view(r@) == self.spec_extras(),
    {
        self.extra_models.as_slice()
    }

    pub fn into_parts(self) -> (r: (ModelSpec, Arc<S>, Vec<(ModelSpec, Arc<S>)>))
        ensures
            r.0@ == self.spec_primary_model(),
            r.1 == self.spec_primary_stream_fn(),
            pairs_view(r.2@) == self.spec_extras(),
    {
        (self.primary_model, self.primary_stream_fn, self.extra_models)
    }

    pub fn builder() -> (r: ModelConnectionsBuilder<S>)
        ensures
            r.spec_primary() is None,
            r.spec_fallbacks().len() == 0,
    {
        ModelConnectionsBuilder::new()
    }
}

/// Builds [`ModelConnections`] from a primary connection and fallbacks.
pub struct ModelConnectionsBuilder<S: ?Sized> {
    primary: Option<ModelConnection<S>>,
    fallbacks: Vec<ModelConnection<S>>,
}

impl<S: ?Sized> ModelConnectionsBuilder<S> {
    pub closed spec fn spec_primary(&self) -> Option<(ModelSpecV, Arc<S>)> {
        match self.primary {
            Some(c) => Some(connection_view(c)),
            None => None,
        }
    }

    pub closed spec fn spec_fallbacks(&self) -> Seq<(ModelSpecV, Arc<S>)> {
        self.fallbacks@.map_values(|c: ModelConnection<S>| connection_view(c))
    }

    pub fn new() -> (r: Self)
        ensures
            r.spec_primary() is None,
            r.spec_fallbacks().len() == 0,
    {
        ModelConnectionsBuilder { primary: None, fallbacks: Vec::new() }
    }

    /// Set the primary connection (replacing an earlier one).
    pub fn primary(self, connection: ModelConnection<S>) -> (r: Self)
        ensures
            r.spec_primary() == Some(connection_view(connection)),
            r.spec_fallbacks() == self.spec_fallbacks(),
    {
        ModelConnectionsBuilder { primary: Some(connection), ..self }
    }

    /// Add a fallback connection after the earlier ones.
    pub fn fallback(self, connection: ModelConnection<S>) -> (r: Self)
        ensures
            r.spec_primary() == self.spec_primary(),
            r.spec_fallbacks() == self.spec_fallbacks().push(connection_view(connection)),
    {
        let mut fallbacks = self.fallbacks;
        fallbacks.push(connection);
        proof {
            assert(fallbacks@.map_values(|c: ModelConnection<S>| connection_view(c))
                =~= self.spec_fallbacks().push(connection_view(connection)));
        }
        ModelConnectionsBuilder { primary: self.primary, fallbacks }
    }

    /// The connections, deduplicated as by [`ModelConnections::new`]. A
    /// primary connection must have been set.
    pub fn build(self) -> (r: ModelConnections<S>)
        requires
            self.spec_primary() is Some,
        ensures
            (r.spec_primary_model(), r.spec_primary_stream_fn()) == self.spec_primary()->Some_0,
            r.spec_extras() == kept_extras(self.spec_primary()->Some_0.0, self.spec_fallbacks()),
    {
        let ModelConnectionsBuilder { primary, fallbacks } = self;
        ModelConnections::new(primary.unwrap(), fallbacks)
    }
}

} // verus!
