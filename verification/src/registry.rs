//! The registry of compiled plugin instances, keyed by provider id.

use std::collections::HashMap;

use vstd::prelude::*;

use crate::plugin::{
    bounded, HookEntry, NodeEntry, NodeKind, SensorEntry, Terminator, TerminatorAction, TransformImpl, TransformerEntry,
};
use crate::provider::ProviderId;
use crate::request::RequestContext;
use crate::score::Score;

verus! {

broadcast use vstd::std_specs::hash::group_hash_axioms;

/// Why a registry operation cannot be carried out.
#[derive(Debug, Clone, Copy, PartialEq, Eq, Structural)]
pub enum RegistryError {
    /// The id is already registered.
    Duplicate(ProviderId),
    /// No entry is registered under the id.
    Unknown(ProviderId),
    /// The entry under the id has another kind than the operation needs.
    WrongKind(ProviderId),
}

/// Central registry mapping provider ids to compiled plugin instances.
pub struct PluginRegistry {
    entries: HashMap<u64, NodeEntry>,
}

/// The kind of a registered entry.
pub open spec fn entry_kind(e: NodeEntry) -> NodeKind {
    match e {
        NodeEntry::Sensor(_) => NodeKind::Sensor,
        NodeEntry::Transformer(_) => NodeKind::Transformer,
        NodeEntry::Hook(_) => NodeKind::Hook,
        NodeEntry::Terminator(_) => NodeKind::Terminator,
    }
}

impl PluginRegistry {
    /// The kind of every registered id.
    pub closed spec fn kinds(&self) -> Map<u64, NodeKind> {
        self.entries@.map_values(|e: NodeEntry| entry_kind(e))
    }

    /// The declared dependencies of transformer `id` (empty for other kinds).
    pub closed spec fn deps(&self, id: u64) -> Seq<ProviderId> {
        match self.entries@[id] {
            NodeEntry::Transformer(e) => e.dep_ids@,
            _ => Seq::empty(),
        }
    }

    /// What transformer `id` computes from the scores it is given, where its
    /// result is specified.
    pub closed spec fn transform(&self, id: u64, scores: Map<u64, Score>) -> Option<Score> {
        match self.entries@[id] {
            NodeEntry::Transformer(e) => match e.evaluate {
                TransformImpl::Modeled(f) => Some(f.spec_apply(scores)),
                TransformImpl::Unmodeled(_) => None,
            },
            _ => None,
        }
    }

    /// The entry registered under `id`.
    pub closed spec fn entry(&self, id: u64) -> NodeEntry {
        self.entries@[id]
    }

    /// `s` is a score the sensor registered under `id` may give a request that
    /// stood as `before` and that it left as `after` (see `SensorFn::scores`).
    pub closed spec fn sensor_scores(&self, id: u64, before: RequestContext, after: RequestContext, s: Score) -> bool {
        match self.entries@[id] {
            NodeEntry::Sensor(e) => e.evaluate.scores(before, after, s),
            _ => false,
        }
    }

    /// `a` is an action the terminator registered under `id` may take (see
    /// `Terminator::acts`).
    pub closed spec fn terminator_acts(&self, id: u64, a: TerminatorAction) -> bool {
        match self.entries@[id] {
            NodeEntry::Terminator(t) => t.decide.acts(a),
            _ => false,
        }
    }

    /// Finitely many ids are registered.
    pub proof fn lemma_kinds_finite(&self)
        ensures
            self.kinds().dom().finite(),
    {
        assert(self.kinds().dom() =~= self.entries@.dom());
    }

    /// Creates an empty registry.
    pub fn new() -> (r: PluginRegistry)
        ensures
            r.kinds() == Map::<u64, NodeKind>::empty(),
    {
        let r = PluginRegistry { entries: HashMap::new() };
        proof {
            assert(r.kinds() =~= Map::<u64, NodeKind>::empty());
        }
        r
    }

    /// Registers any node entry by kind, refusing a duplicate id.
    pub fn try_register_node(&mut self, id: ProviderId, entry: NodeEntry) -> (r: Result<(), RegistryError>)
        ensures
            r is Ok ==> final(self).entry(id.0) == entry,
            r is Ok ==> match entry {
                NodeEntry::Terminator(t) => forall|a: TerminatorAction| #[trigger] final(self).terminator_acts(id.0, a)
                    == t.decide.acts(a),
                _ => true,
            },
            forall|k: u64| #![trigger final(self).entry(k)] (k != id.0 || r is Err) ==> final(self).entry(k) == old(self).entry(k),
            forall|k: u64, a: TerminatorAction| #![trigger final(self).terminator_acts(k, a)] (k != id.0 || r is Err)
                ==> final(self).terminator_acts(k, a) == old(self).terminator_acts(k, a),
            old(self).kinds().contains_key(id.0) <==> r is Err,
            r is Err ==> r == Err::<(), RegistryError>(RegistryError::Duplicate(id)),
            r is Ok ==> final(self).kinds() == old(self).kinds().insert(id.0, entry_kind(entry)),
            r is Ok && entry is Transformer ==> final(self).deps(id.0) == entry->Transformer_0.dep_ids@,
            r is Ok && entry is Transformer ==> forall|m: Map<u64, Score>| #[trigger] final(self).transform(id.0, m)
                == match entry->Transformer_0.evaluate {
                    TransformImpl::Modeled(f) => Some(f.spec_apply(m)),
                    TransformImpl::Unmodeled(_) => None,
                },
            forall|k: u64| k != id.0 && old(self).kinds().contains_key(k) ==> final(self).deps(k) == old(self).deps(k),
            forall|k: u64, m: Map<u64, Score>| k != id.0 && old(self).kinds().contains_key(k) ==> #[trigger] final(self).transform(k, m)
                == old(self).transform(k, m),
            r is Err ==> final(self).kinds() == old(self).kinds(),
    {
        if self.entries.contains_key(&id.0) {
            return Err(RegistryError::Duplicate(id));
        }
        let ghost old_entries = self.entries@;
        let ghost ek = entry_kind(entry);
        let ghost e = entry;
        self.entries.insert(id.0, entry);
        proof {
            assert(self.kinds() =~= old(self).kinds().insert(id.0, ek));
            assert(self.entries@[id.0] == e);
            match e {
                NodeEntry::Terminator(t) => {
                    assert forall|a: TerminatorAction| #[trigger] self.terminator_acts(id.0, a) == t.decide.acts(a) by {}
                },
                _ => {},
            }
        }
        Ok(())
    }

    /// Registers any node entry by kind under an id not yet registered.
    pub fn register_node(&mut self, id: ProviderId, entry: NodeEntry)
        requires
            !old(self).kinds().contains_key(id.0),
        ensures
            final(self).kinds() == old(self).kinds().insert(id.0, entry_kind(entry)),
            final(self).entry(id.0) == entry,
            forall|k: u64| #![trigger final(self).entry(k)] k != id.0 ==> final(self).entry(k) == old(self).entry(k),
            entry is Transformer ==> final(self).deps(id.0) == entry->Transformer_0.dep_ids@,
            entry is Transformer ==> forall|m: Map<u64, Score>| #[trigger] final(self).transform(id.0, m)
                == match entry->Transformer_0.evaluate {
                    TransformImpl::Modeled(f) => Some(f.spec_apply(m)),
                    TransformImpl::Unmodeled(_) => None,
                },
            forall|k: u64| k != id.0 && old(self).kinds().contains_key(k) ==> final(self).deps(k) == old(self).deps(k),
            forall|k: u64, m: Map<u64, Score>| k != id.0 && old(self).kinds().contains_key(k) ==> #[trigger] final(self).transform(k, m)
                == old(self).transform(k, m),
    {
        let _ = self.try_register_node(id, entry);
    }

    /// Registers a compiled sensor entry under an id not yet registered.
    pub fn register_sensor(&mut self, id: ProviderId, entry: SensorEntry)
        requires
            !old(self).kinds().contains_key(id.0),
        ensures
            final(self).kinds() == old(self).kinds().insert(id.0, NodeKind::Sensor),
    {
        self.register_node(id, NodeEntry::Sensor(entry))
    }

    /// Registers a compiled transformer entry under an id not yet registered.
    pub fn register_transformer(&mut self, id: ProviderId, entry: TransformerEntry)
        requires
            !old(self).kinds().contains_key(id.0),
        ensures
            final(self).kinds() == old(self).kinds().insert(id.0, NodeKind::Transformer),
            final(self).deps(id.0) == entry.dep_ids@,
    {
        self.register_node(id, NodeEntry::Transformer(entry))
    }

    /// Registers a compiled hook entry under an id not yet registered.
    pub fn register_hook(&mut self, id: ProviderId, entry: HookEntry)
        requires
            !old(self).kinds().contains_key(id.0),
        ensures
            final(self).kinds() == old(self).kinds().insert(id.0, NodeKind::Hook),
    {
        self.register_node(id, NodeEntry::Hook(entry))
    }

    /// The number of registered entries.
    pub fn len(&self) -> (r: usize)
        ensures
            r == self.kinds().len(),
    {
        proof {
            assert(self.kinds().dom() =~= self.entries@.dom());
        }
        self.entries.len()
    }

    /// The kind of the entry registered under `id`, if any.
    pub fn node_kind(&self, id: ProviderId) -> (r: Option<NodeKind>)
        ensures
            match r {
                Some(k) => self.kinds().contains_key(id.0) && self.kinds()[id.0] == k,
                None => !self.kinds().contains_key(id.0),
            },
    {
        match self.entries.get(&id.0) {
            Some(NodeEntry::Sensor(_)) => Some(NodeKind::Sensor),
            Some(NodeEntry::Transformer(_)) => Some(NodeKind::Transformer),
            Some(NodeEntry::Hook(_)) => Some(NodeKind::Hook),
            Some(NodeEntry::Terminator(_)) => Some(NodeKind::Terminator),
            None => None,
        }
    }

    /// The dependencies declared by transformer `id`; empty for a sensor.
    ///
    /// Fails for an unknown id, and for hooks and terminators, which are not
    /// valid rule inputs.
    pub fn dep_ids(&self, id: ProviderId) -> (r: Result<Vec<ProviderId>, RegistryError>)
        ensures
            !self.kinds().contains_key(id.0) <==> r == Err::<Vec<ProviderId>, RegistryError>(RegistryError::Unknown(id)),
            self.kinds().contains_key(id.0) ==> {
                match self.kinds()[id.0] {
                    NodeKind::Sensor => r matches Ok(v) && v@.len() == 0,
                    NodeKind::Transformer => r matches Ok(v) && v@ == self.deps(id.0),
                    _ => r == Err::<Vec<ProviderId>, RegistryError>(RegistryError::WrongKind(id)),
                }
            },
    {
        match self.entries.get(&id.0) {
            Some(NodeEntry::Sensor(_)) => Ok(Vec::new()),
            Some(NodeEntry::Transformer(e)) => Ok(e.dep_ids.clone()),
            Some(_) => Err(RegistryError::WrongKind(id)),
            None => Err(RegistryError::Unknown(id)),
        }
    }

    /// Evaluates sensor `id` against `ctx`, without caching.
    pub fn evaluate_sensor(&self, id: ProviderId, ctx: &mut RequestContext) -> (r: Result<Score, RegistryError>)
        ensures
            r is Ok <==> (self.kinds().contains_key(id.0) && self.kinds()[id.0] == NodeKind::Sensor),
            r matches Ok(s) ==> s.0 <= 100 && self.sensor_scores(id.0, *old(ctx), *final(ctx), s),
            r is Err ==> final(ctx).metadata@ == old(ctx).metadata@,
            !self.kinds().contains_key(id.0) ==> r == Err::<Score, RegistryError>(RegistryError::Unknown(id)),
            self.kinds().contains_key(id.0) && self.kinds()[id.0] != NodeKind::Sensor ==> r == Err::<Score, RegistryError>(
                RegistryError::WrongKind(id)),
            final(ctx).cache@ == old(ctx).cache@,
            final(ctx).client_ip == old(ctx).client_ip,
            final(ctx).uri@ == old(ctx).uri@,
            final(ctx).method@ == old(ctx).method@,
            final(ctx).headers == old(ctx).headers,
            final(ctx).body == old(ctx).body,
            final(ctx).current_score == old(ctx).current_score,
    {
        match self.entries.get(&id.0) {
            Some(NodeEntry::Sensor(e)) => Ok(e.evaluate.evaluate(ctx)),
            Some(_) => Err(RegistryError::WrongKind(id)),
            None => Err(RegistryError::Unknown(id)),
        }
    }

    /// Evaluates transformer `id` from the scores in `scores`.
    ///
    /// From scores in `[0, 100]` the result is in `[0, 100]`; a transformer whose
    /// result the library does not specify is held to that by capping it at 100.
    pub fn evaluate_transformer(&self, id: ProviderId, scores: &HashMap<u64, Score>) -> (r: Result<Score, RegistryError>)
        requires
            bounded(scores@),
        ensures
            r matches Ok(s) ==> s.0 <= 100,
            r is Ok <==> (self.kinds().contains_key(id.0) && self.kinds()[id.0] == NodeKind::Transformer),
            r matches Ok(s) ==> (self.transform(id.0, scores@) matches Some(t) ==> s == t),
    {
        match self.entries.get(&id.0) {
            Some(NodeEntry::Transformer(e)) => match &e.evaluate {
                TransformImpl::Modeled(f) => Ok(f.apply(scores)),
                TransformImpl::Unmodeled(f) => {
                    let s = f.apply(scores);
                    if s.0 > 100 {
                        Ok(Score(100))
                    } else {
                        Ok(s)
                    }
                },
            },
            Some(_) => Err(RegistryError::WrongKind(id)),
            None => Err(RegistryError::Unknown(id)),
        }
    }

    /// Fires the hook registered under `id` with a read-only view of `ctx`.
    pub fn trigger_hook(&self, id: ProviderId, ctx: &RequestContext) -> (r: Result<(), RegistryError>)
        ensures
            r is Ok <==> (self.kinds().contains_key(id.0) && self.kinds()[id.0] == NodeKind::Hook),
    {
        match self.entries.get(&id.0) {
            Some(NodeEntry::Hook(e)) => {
                e.trigger.trigger(ctx);
                Ok(())
            },
            Some(_) => Err(RegistryError::WrongKind(id)),
            None => Err(RegistryError::Unknown(id)),
        }
    }

    /// Asks the terminator registered under `id` how the request ends; `None`
    /// when no terminator is registered under `id`.
    pub fn get_terminator(&self, id: ProviderId) -> (r: Option<&Box<dyn Terminator>>)
        ensures
            r is Some <==> (self.kinds().contains_key(id.0) && self.kinds()[id.0] == NodeKind::Terminator),
            r matches Some(t) ==> forall|a: TerminatorAction| #[trigger] t.acts(a) == self.terminator_acts(id.0, a),
    {
        match self.entries.get(&id.0) {
            Some(NodeEntry::Terminator(t)) => Some(&t.decide),
            _ => None,
        }
    }
}

impl Default for PluginRegistry {
    fn default() -> (r: Self)
        ensures
            r.kinds() == Map::<u64, NodeKind>::empty(),
    {
        PluginRegistry::new()
    }
}

} // verus!
