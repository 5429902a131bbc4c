//! `not`: fuzzy NOT (`100 - score`) of one provider's score.

use std::collections::HashMap;

use vstd::prelude::*;

use crate::plugin::{plugin_error, Evaluator, CacheEvaluator, Plugin, PluginError, TransformFn, TransformImpl, TransformerEntry};
use crate::provider::{provider_id_of, ProviderId};
use crate::request::cached_score;
use crate::score::{fraction_score, max_u8, min_u8, not_u8, Score};
use crate::transformers::{and_all, or_all, scores_of, cached_scores, ids_of_names, spec_inputs, compile_inputs,
    and_scores, or_scores, Transformer};
use crate::value::{all_strings, get_array, get_integer, get_str, string_texts, value_array,
    value_get, value_int, value_str, ConfigValue};

verus! {

/// Compiled arguments of the `not` transformer.
#[derive(Debug)]
pub struct Args {
    /// The provider whose score is inverted.
    pub input: ProviderId,
}

/// The `input` provider id of a transformer's arguments, when it is a string.
pub open spec fn spec_input(args: ConfigValue) -> Option<ProviderId> {
    match value_str(value_get(args, "input"@)) {
        Some(n) => Some(provider_id_of(n)),
        None => None,
    }
}

/// `not` transformer: fuzzy NOT, `100 - score`.
pub struct NotTransformer;

impl Plugin for NotTransformer {}

impl Transformer for NotTransformer {
    type Args = Args;

    open spec fn accepts(&self, args: ConfigValue) -> bool {
        spec_input(args) is Some
    }

    open spec fn compiles_to(&self, args: ConfigValue, compiled: Args) -> bool {
        spec_input(args) == Some(compiled.input)
    }

    fn try_compile_args(&self, args: &ConfigValue) -> (r: Result<Args, PluginError>)
        ensures
            match r {
                Ok(a) => spec_input(*args) == Some(a.input),
                Err(_) => spec_input(*args) is None,
            },
    {
        match get_str(args, "input") {
            Some(name) => Ok(Args { input: ProviderId::from_name(name) }),
            None => Err(plugin_error("transformer-not: 'not' requires an 'input' string")),
        }
    }

    fn evaluate<E: Evaluator>(&self, args: &Args, eval: &E) -> (r: Score)
        ensures
            r.0 == not_u8(eval.spec_score(args.input).0),
    {
        eval.score(args.input).negate()
    }

    fn dep_ids(args: &Args) -> (r: Vec<ProviderId>)
        ensures
            r@ == seq![args.input],
    {
        let mut v = Vec::new();
        v.push(args.input);
        v
    }
}

struct NotNode {
    input: ProviderId,
}

impl TransformFn for NotNode {
    closed spec fn spec_apply(&self, cache: Map<u64, Score>) -> Score {
        Score(not_u8(cached_score(cache, self.input).0))
    }

    fn apply(&self, cache: &HashMap<u64, Score>) -> (r: Score) {
        let e = CacheEvaluator { cache };
        e.score(self.input).negate()
    }
}

/// `e` is the entry of a `not` with arguments `args`: it depends on the input,
/// and its score is 100 minus the input's cached score.
pub open spec fn not_entry(args: ConfigValue, e: TransformerEntry) -> bool {
    &&& spec_input(args) matches Some(i) && e.dep_ids@ == seq![i]
    &&& e.evaluate matches TransformImpl::Modeled(f) && forall|m: Map<u64, Score>| #[trigger] f.spec_apply(m)
        == Score(not_u8(cached_score(m, spec_input(args)->0).0))
}

impl NotTransformer {
    /// Compiles the arguments into a registry entry.
    pub fn into_entry(self, args: &ConfigValue) -> (r: Result<TransformerEntry, PluginError>)
        ensures
            r is Ok <==> spec_input(*args) is Some,
            r matches Ok(e) ==> not_entry(*args, e),
    {
        let a = self.try_compile_args(args)?;
        let deps = NotTransformer::dep_ids(&a);
        Ok(TransformerEntry { dep_ids: deps, evaluate: TransformImpl::Modeled(Box::new(NotNode { input: a.input })) })
    }
}

} // verus!
