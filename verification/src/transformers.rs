//! The built-in transformers: fuzzy `and`, `or`, `not`, and `clamp`.

pub mod and;
pub mod clamp;
pub mod not;
pub mod or;

use std::collections::HashMap;

use vstd::prelude::*;

use crate::plugin::{plugin_error, Evaluator, CacheEvaluator, Plugin, PluginError, TransformFn, TransformerEntry};
use crate::provider::{provider_id_of, ProviderId};
use crate::request::cached_score;
use crate::score::{fraction_score, max_u8, min_u8, not_u8, Score};
use crate::value::{all_strings, get_array, get_integer, get_str, string_texts, value_array,
    value_get, value_int, value_str, ConfigValue};

verus! {

/// Typed trait for transformer plugins: compile arguments once, then evaluate
/// from other providers' scores.
pub trait Transformer: Plugin {
    /// Compiled, request-independent configuration.
    type Args: Send + Sync;

    /// Whether the transformer accepts the arguments `args`.
    spec fn accepts(&self, args: ConfigValue) -> bool;

    /// Whether `compiled` is what the arguments `args` compile to.
    spec fn compiles_to(&self, args: ConfigValue, compiled: Self::Args) -> bool;

    /// Parses the transformer's arguments, or says why it refuses them.
    fn try_compile_args(&self, args: &ConfigValue) -> (r: Result<Self::Args, PluginError>)
        ensures
            r is Ok <==> self.accepts(*args),
            r matches Ok(a) ==> self.compiles_to(*args, a),
    ;

    /// Parses arguments that the transformer accepts.
    fn compile_args(&self, args: &ConfigValue) -> (r: Self::Args)
        requires
            self.accepts(*args),
        ensures
            self.compiles_to(*args, r),
    {
        match self.try_compile_args(args) {
            Ok(a) => a,
            Err(_) => vstd::pervasive::unreached(),
        }
    }

    /// Evaluates the transformer given the scores reported by `eval`.
    fn evaluate<E: Evaluator>(&self, args: &Self::Args, eval: &E) -> Score;

    /// The providers this transformer depends on.
    fn dep_ids(args: &Self::Args) -> Vec<ProviderId>;
}

/// Fuzzy AND of raw score values: the minimum, starting from 100.
pub open spec fn and_all(scores: Seq<u8>) -> u8
    decreases scores.len(),
{
    if scores.len() == 0 {
        100
    } else {
        min_u8(and_all(scores.drop_last()), scores.last())
    }
}

/// Fuzzy OR of raw score values: the maximum, starting from 0.
pub open spec fn or_all(scores: Seq<u8>) -> u8
    decreases scores.len(),
{
    if scores.len() == 0 {
        0
    } else {
        max_u8(or_all(scores.drop_last()), scores.last())
    }
}

/// The AND of raw scores never exceeds 100.
pub proof fn lemma_and_all_bounded(scores: Seq<u8>)
    ensures
        and_all(scores) <= 100,
    decreases scores.len(),
{
    if scores.len() > 0 {
        lemma_and_all_bounded(scores.drop_last());
    }
}

/// The OR of raw scores in `[0, 100]` is in `[0, 100]`.
pub proof fn lemma_or_all_bounded(scores: Seq<u8>)
    requires
        forall|i: int| 0 <= i < scores.len() ==> scores[i] <= 100,
    ensures
        or_all(scores) <= 100,
    decreases scores.len(),
{
    if scores.len() > 0 {
        lemma_or_all_bounded(scores.drop_last());
    }
}

/// The raw scores that `eval` reports for `ids`.
pub open spec fn scores_of<E: Evaluator>(eval: E, ids: Seq<ProviderId>) -> Seq<u8> {
    ids.map_values(|id: ProviderId| eval.spec_score(id).0)
}

/// The raw cached scores for `ids`.
pub open spec fn cached_scores(cache: Map<u64, Score>, ids: Seq<ProviderId>) -> Seq<u8> {
    ids.map_values(|id: ProviderId| cached_score(cache, id).0)
}

/// The ids of a list of provider names.
pub open spec fn ids_of_names(names: Seq<Seq<char>>) -> Seq<ProviderId> {
    names.map_values(|n: Seq<char>| provider_id_of(n))
}

/// The `inputs` array of a transformer's arguments, as ids, when it is an array of strings.
pub open spec fn spec_inputs(args: ConfigValue) -> Option<Seq<ProviderId>> {
    match value_array(value_get(args, "inputs"@)) {
        Some(a) => if all_strings(a) { Some(ids_of_names(string_texts(a))) } else { None },
        None => None,
    }
}

/// Reads an `inputs` array of provider names.
pub(crate) fn compile_inputs(args: &ConfigValue, not_array: &str, not_string: &str) -> (r: Result<Vec<ProviderId>, PluginError>)
    ensures
        match r {
            Ok(v) => spec_inputs(*args) == Some(v@),
            Err(e) => spec_inputs(*args) is None && (value_array(value_get(*args, "inputs"@)) is None ==> e.message@ == not_array@)
                && (value_array(value_get(*args, "inputs"@)) is Some ==> e.message@ == not_string@),
        },
{
    let arr = match get_array(args, "inputs") {
        Some(a) => a,
        None => return Err(plugin_error(not_array)),
    };
    let mut out: Vec<ProviderId> = Vec::new();
    let mut i: usize = 0;
    while i < arr.len()
        invariant
            value_array(value_get(*args, "inputs"@)) == Some(arr@),
            i <= arr.len(),
            out@.len() == i,
            forall|j: int| 0 <= j < i ==> arr@[j] is String,
            forall|j: int| 0 <= j < i ==> out@[j] == provider_id_of(string_texts(arr@)[j]),
        decreases arr.len() - i,
    {
        match arr[i].as_str() {
            Some(name) => {
                out.push(ProviderId::from_name(name));
            },
            None => {
                return Err(plugin_error(not_string));
            },
        }
        i = i + 1;
    }
    proof {
        assert(out@ =~= ids_of_names(string_texts(arr@)));
    }
    Ok(out)
}

/// Computes the AND over `eval`'s scores for `ids`.
pub(crate) fn and_scores<E: Evaluator>(ids: &Vec<ProviderId>, eval: &E) -> (r: Score)
    ensures
        r.0 == and_all(scores_of(*eval, ids@)),
{
    let mut acc = Score(100);
    let mut i: usize = 0;
    while i < ids.len()
        invariant
            i <= ids.len(),
            acc.0 == and_all(scores_of(*eval, ids@.take(i as int))),
        decreases ids.len() - i,
    {
        let s = eval.score(ids[i]);
        proof {
            let t = ids@.take(i + 1);
            assert(scores_of(*eval, t).drop_last() =~= scores_of(*eval, ids@.take(i as int)));
        }
        acc = acc.and(s);
        i = i + 1;
    }
    proof {
        assert(ids@.take(ids@.len() as int) =~= ids@);
    }
    acc
}

/// Computes the OR over `eval`'s scores for `ids`.
pub(crate) fn or_scores<E: Evaluator>(ids: &Vec<ProviderId>, eval: &E) -> (r: Score)
    ensures
        r.0 == or_all(scores_of(*eval, ids@)),
{
    let mut acc = Score(0);
    let mut i: usize = 0;
    while i < ids.len()
        invariant
            i <= ids.len(),
            acc.0 == or_all(scores_of(*eval, ids@.take(i as int))),
        decreases ids.len() - i,
    {
        let s = eval.score(ids[i]);
        proof {
            let t = ids@.take(i + 1);
            assert(scores_of(*eval, t).drop_last() =~= scores_of(*eval, ids@.take(i as int)));
        }
        acc = acc.or(s);
        i = i + 1;
    }
    proof {
        assert(ids@.take(ids@.len() as int) =~= ids@);
    }
    acc
}


} // verus!
