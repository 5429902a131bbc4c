//! Plugin kinds, errors raised while compiling plugin arguments, and the
//! type-erased entries the registry stores.

use vstd::prelude::*;

use crate::provider::ProviderId;
use crate::request::{cached_score, RequestContext};
use crate::score::Score;

use std::collections::HashMap;

verus! {

broadcast use vstd::std_specs::hash::group_hash_axioms;

/// Marker trait for all plugin implementations.
pub trait Plugin: Send + Sync {}

/// Identifies the role of a node in the provider graph.
#[derive(Debug, Clone, Copy, PartialEq, Eq, Structural)]
pub enum NodeKind {
    /// A sensor: scores the request.
    Sensor,
    /// A transformer: combines other providers' scores.
    Transformer,
    /// A hook: fires on the way through the action graph.
    Hook,
    /// A terminator: ends the action graph.
    Terminator,
}

/// A plugin's arguments are malformed; the message says which and how.
#[derive(Debug, PartialEq, Eq)]
pub struct PluginError {
    /// What is wrong.
    pub message: String,
}

/// A plugin error with the given message.
pub fn plugin_error(message: &str) -> (e: PluginError)
    ensures
        e.message@ == message@,
{
    PluginError { message: message.to_owned() }
}

/// Read-only view of the per-request score cache, as transformers see it.
pub trait Evaluator: Send + Sync {
    /// The score the evaluator reports for `id`.
    spec fn spec_score(&self, id: ProviderId) -> Score;

    /// Returns the cached score for `id`, or `Score(0)` if not yet evaluated.
    fn score(&self, id: ProviderId) -> (r: Score)
        ensures
            r == self.spec_score(id),
    ;
}

/// Evaluator backed by the score cache of a request.
pub struct CacheEvaluator<'a> {
    /// The cache, keyed by provider id.
    pub cache: &'a HashMap<u64, Score>,
}

impl<'a> Evaluator for CacheEvaluator<'a> {
    open spec fn spec_score(&self, id: ProviderId) -> Score {
        cached_score(self.cache@, id)
    }

    fn score(&self, id: ProviderId) -> (r: Score) {
        match self.cache.get(&id.0) {
            Some(s) => *s,
            None => Score(0),
        }
    }
}

/// A compiled sensor: scores a request.
///
/// Sensors may write `metadata`, but never the score cache, which belongs to
/// the engine; scores are in `[0, 100]`.
pub trait SensorFn: Send + Sync {
    /// Whether `s` is a score the sensor may give a request that stood as
    /// `before` and that it left as `after`.  A sensor that does not say
    /// allows any score.
    open spec fn scores(&self, before: RequestContext, after: RequestContext, s: Score) -> bool {
        true
    }

    /// Evaluates the sensor against `ctx`.
    fn evaluate(&self, ctx: &mut RequestContext) -> (r: Score)
        ensures
            self.scores(*old(ctx), *final(ctx), r),
            final(ctx).cache@ == old(ctx).cache@,
            final(ctx).client_ip == old(ctx).client_ip,
            final(ctx).uri@ == old(ctx).uri@,
            final(ctx).method@ == old(ctx).method@,
            final(ctx).headers == old(ctx).headers,
            final(ctx).body == old(ctx).body,
            final(ctx).current_score == old(ctx).current_score,
            r.0 <= 100,
    ;
}

/// Every score in the cache is in `[0, 100]`.
pub open spec fn bounded(cache: Map<u64, Score>) -> bool {
    forall|k: u64| #[trigger] cache.contains_key(k) ==> cache[k].0 <= 100
}

/// A compiled transformer: combines cached scores.
pub trait TransformFn: Send + Sync {
    /// The score the transformer computes from the cached scores.
    spec fn spec_apply(&self, cache: Map<u64, Score>) -> Score;

    /// Computes the transformer's score from the cache; from scores in
    /// `[0, 100]` it computes a score in `[0, 100]`.
    fn apply(&self, cache: &HashMap<u64, Score>) -> (r: Score)
        requires
            bounded(cache@),
        ensures
            r == self.spec_apply(cache@),
            r.0 <= 100,
    ;
}

/// A compiled transformer whose result lies outside what the library
/// specifies (such as one computed in floating point).
pub trait UnmodeledTransformFn: Send + Sync {
    /// Computes the transformer's score from the cache.
    fn apply(&self, cache: &HashMap<u64, Score>) -> Score;
}

/// How a transformer computes its score.
pub enum TransformImpl {
    /// With a specification of its result.
    Modeled(Box<dyn TransformFn>),
    /// Without one.
    Unmodeled(Box<dyn UnmodeledTransformFn>),
}

/// A compiled hook: fires with a read-only view of the request.
pub trait HookFn: Send + Sync {
    /// Fires the hook.
    fn trigger(&self, ctx: &RequestContext);
}

/// What a terminator does to the request.
#[derive(Debug, PartialEq, Eq)]
pub enum TerminatorAction {
    /// Send a response with this status and these headers and an empty body.
    Respond { status: u16, headers: Vec<(String, String)> },
    /// Wait this many milliseconds (if any), then drop the connection without a response.
    Close { delay_ms: u64 },
    /// Let the request through to the upstream.
    Pass,
}

/// A compiled terminator: decides how the request ends.
pub trait Terminator: Send + Sync {
    /// Whether `a` is an action this terminator may take.  A terminator that
    /// does not say allows any action.
    open spec fn acts(&self, a: TerminatorAction) -> bool {
        true
    }

    /// The action to take for `ctx`.
    fn decide(&self, ctx: &RequestContext) -> (r: TerminatorAction)
        ensures
            self.acts(r),
    ;
}

/// Compiled terminator entry stored in the registry.
pub struct TerminatorEntry {
    /// The compiled terminator.
    pub decide: Box<dyn Terminator>,
}

/// Compiled sensor entry stored in the registry.
pub struct SensorEntry {
    /// The compiled sensor.
    pub evaluate: Box<dyn SensorFn>,
}

/// Compiled transformer entry stored in the registry.
pub struct TransformerEntry {
    /// Provider ids that must be evaluated before this transformer is called.
    pub dep_ids: Vec<ProviderId>,
    /// The compiled transformer.
    pub evaluate: TransformImpl,
}

/// Compiled hook entry stored in the registry.
pub struct HookEntry {
    /// The compiled hook.
    pub trigger: Box<dyn HookFn>,
}

/// A fully built plugin entry, ready to be stored in the registry.
pub enum NodeEntry {
    /// A compiled sensor.
    Sensor(SensorEntry),
    /// A compiled transformer.
    Transformer(TransformerEntry),
    /// A compiled hook.
    Hook(HookEntry),
    /// A compiled terminator.
    Terminator(TerminatorEntry),
}

} // verus!
