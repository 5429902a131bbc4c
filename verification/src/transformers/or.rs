//! `or`: fuzzy OR (the maximum) of several providers' scores.

use std::collections::HashMap;

use vstd::prelude::*;

use crate::plugin::{plugin_error, Evaluator, CacheEvaluator, Plugin, PluginError, TransformFn, TransformImpl, TransformerEntry};
use crate::provider::{provider_id_of, ProviderId};
use crate::request::cached_score;
use crate::score::{fraction_score, max_u8, min_u8, not_u8, Score};
use crate::transformers::{and_all, or_all, scores_of, cached_scores, ids_of_names, spec_inputs, compile_inputs,
    and_scores, or_scores, lemma_or_all_bounded, Transformer};
use crate::value::{all_strings, get_array, get_integer, get_str, string_texts, value_array,
    value_get, value_int, value_str, ConfigValue};

verus! {

/// Compiled arguments of the `or` transformer.
#[derive(Debug)]
pub struct Args {
    /// The providers whose scores are combined.
    pub inputs: Vec<ProviderId>,
}

/// `or` transformer: fuzzy OR, the maximum of the inputs (0 for none).
pub struct OrTransformer;

impl Plugin for OrTransformer {}

impl Transformer for OrTransformer {
    type Args = Args;

    open spec fn accepts(&self, args: ConfigValue) -> bool {
        spec_inputs(args) is Some
    }

    open spec fn compiles_to(&self, args: ConfigValue, compiled: Args) -> bool {
        spec_inputs(args) == Some(compiled.inputs@)
    }

    fn try_compile_args(&self, args: &ConfigValue) -> (r: Result<Args, PluginError>)
        ensures
            match r {
                Ok(a) => spec_inputs(*args) == Some(a.inputs@),
                Err(_) => spec_inputs(*args) is None,
            },
    {
        let inputs = compile_inputs(
            args,
            "transformer-or: 'inputs' must be an array of provider names",
            "transformer-or: each entry in 'inputs' must be a string",
        )?;
        Ok(Args { inputs })
    }

    fn evaluate<E: Evaluator>(&self, args: &Args, eval: &E) -> (r: Score)
        ensures
            r.0 == or_all(scores_of(*eval, args.inputs@)),
    {
        or_scores(&args.inputs, eval)
    }

    fn dep_ids(args: &Args) -> (r: Vec<ProviderId>)
        ensures
            r@ == args.inputs@,
    {
        args.inputs.clone()
    }
}

struct OrNode {
    inputs: Vec<ProviderId>,
}

impl TransformFn for OrNode {
    closed spec fn spec_apply(&self, cache: Map<u64, Score>) -> Score {
        Score(or_all(cached_scores(cache, self.inputs@)))
    }

    fn apply(&self, cache: &HashMap<u64, Score>) -> (r: Score) {
        let e = CacheEvaluator { cache };
        let r = or_scores(&self.inputs, &e);
        proof {
            assert(scores_of(e, self.inputs@) =~= cached_scores(cache@, self.inputs@));
            lemma_or_all_bounded(cached_scores(cache@, self.inputs@));
        }
        r
    }
}

/// `e` is the entry of an `or` with arguments `args`: it depends on the
/// inputs, and its score is the maximum of their cached scores.
pub open spec fn or_entry(args: ConfigValue, e: TransformerEntry) -> bool {
    &&& spec_inputs(args) == Some(e.dep_ids@)
    &&& e.evaluate matches TransformImpl::Modeled(f) && forall|m: Map<u64, Score>| #[trigger] f.spec_apply(m)
        == Score(or_all(cached_scores(m, e.dep_ids@)))
}

impl OrTransformer {
    /// Compiles the arguments into a registry entry.
    pub fn into_entry(self, args: &ConfigValue) -> (r: Result<TransformerEntry, PluginError>)
        ensures
            r is Ok <==> spec_inputs(*args) is Some,
            r matches Ok(e) ==> or_entry(*args, e),
    {
        let a = self.try_compile_args(args)?;
        let deps = OrTransformer::dep_ids(&a);
        Ok(TransformerEntry { dep_ids: deps, evaluate: TransformImpl::Modeled(Box::new(OrNode { inputs: a.inputs })) })
    }
}

} // verus!
