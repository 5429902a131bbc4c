//! `clamp`: a sub-range of one provider's score stretched to `[0, 100]`.

use std::collections::HashMap;

use vstd::prelude::*;

use crate::plugin::{plugin_error, Evaluator, CacheEvaluator, Plugin, PluginError, TransformFn, TransformImpl, TransformerEntry};
use crate::provider::{provider_id_of, ProviderId};
use crate::request::cached_score;
use crate::score::{fraction_score, max_u8, min_u8, not_u8, Score};
use crate::transformers::{and_all, or_all, scores_of, cached_scores, ids_of_names, spec_inputs, compile_inputs,
    and_scores, or_scores, Transformer};
use crate::value::{all_strings, get_array, get_integer, get_str, string_texts, value_array,
    value_get, value_int, value_str, ConfigValue};

use crate::rounding::SINGLE_FRACTION_BITS;

verus! {

/// Compiled arguments of the `clamp` transformer.
#[derive(Debug)]
pub struct Args {
    /// The provider whose score is remapped.
    pub input: ProviderId,
    /// Input score that maps to `Score(0)`.
    pub low: Score,
    /// Input score that maps to `Score(100)`.
    pub high: Score,
}

/// The score `clamp` gives input `s` for the sub-range `[low, high]`: 0 at or
/// below `low`, 100 at or above `high`, and in between `(s - low) / (high - low)`
/// as a score computed in single precision (see [`fraction_score`]).
pub open spec fn clamp_score(s: u8, low: u8, high: u8) -> u8 {
    if s <= low {
        0
    } else if s >= high {
        100
    } else {
        fraction_score((s - low) as nat, (high - low) as nat, SINGLE_FRACTION_BITS as nat)
    }
}

/// The clamp arguments as the configuration gives them, when well formed:
/// an `input` string and integer `low < high` within `[0, 100]`.
pub open spec fn spec_clamp_args(args: ConfigValue) -> Option<(ProviderId, u8, u8)> {
    match (value_str(value_get(args, "input"@)), value_int(value_get(args, "low"@)), value_int(value_get(args, "high"@))) {
        (Some(n), Some(l), Some(h)) => if 0 <= l <= 100 && 0 <= h <= 100 && l < h {
            Some((provider_id_of(n), l as u8, h as u8))
        } else {
            None
        },
        _ => None,
    }
}

/// `clamp` transformer: linearly remaps a sub-range `[low, high]` of the input score to `[0, 100]`.
pub struct ClampTransformer;

impl Plugin for ClampTransformer {}

fn parse_bound(args: &ConfigValue, key: &str, missing: &str, out_of_range: &str) -> (r: Result<Score, PluginError>)
    ensures
        match r {
            Ok(s) => value_int(value_get(*args, key@)) == Some(s.0 as i64) && s.0 <= 100,
            Err(_) => !(value_int(value_get(*args, key@)) matches Some(v) && 0 <= v <= 100),
        },
{
    let v = match get_integer(args, key) {
        Some(v) => v,
        None => return Err(plugin_error(missing)),
    };
    if v < 0 || v > 100 {
        return Err(plugin_error(out_of_range));
    }
    Ok(Score::from_i64(v))
}

impl Transformer for ClampTransformer {
    type Args = Args;

    open spec fn accepts(&self, args: ConfigValue) -> bool {
        spec_clamp_args(args) is Some
    }

    open spec fn compiles_to(&self, args: ConfigValue, compiled: Args) -> bool {
        spec_clamp_args(args) == Some((compiled.input, compiled.low.0, compiled.high.0))
    }

    fn try_compile_args(&self, args: &ConfigValue) -> (r: Result<Args, PluginError>)
        ensures
            match r {
                Ok(a) => spec_clamp_args(*args) == Some((a.input, a.low.0, a.high.0)),
                Err(_) => spec_clamp_args(*args) is None,
            },
    {
        let name = match get_str(args, "input") {
            Some(n) => n,
            None => return Err(plugin_error("transformer-clamp: missing 'input' string")),
        };
        let low = parse_bound(
            args,
            "low",
            "transformer-clamp: missing 'low' integer",
            "transformer-clamp: 'low' must be in [0, 100]",
        )?;
        let high = parse_bound(
            args,
            "high",
            "transformer-clamp: missing 'high' integer",
            "transformer-clamp: 'high' must be in [0, 100]",
        )?;
        if low.0 >= high.0 {
            return Err(plugin_error("transformer-clamp: 'low' must be less than 'high'"));
        }
        Ok(Args { input: ProviderId::from_name(name), low, high })
    }

    fn evaluate<E: Evaluator>(&self, args: &Args, eval: &E) -> (r: Score)
        ensures
            r.0 == clamp_score(eval.spec_score(args.input).0, args.low.0, args.high.0),
    {
        clamp(eval.score(args.input), args.low, args.high)
    }

    fn dep_ids(args: &Args) -> (r: Vec<ProviderId>)
        ensures
            r@ == seq![args.input],
    {
        let mut v = Vec::new();
        v.push(args.input);
        v
    }
}

fn clamp(s: Score, low: Score, high: Score) -> (r: Score)
    ensures
        r.0 == clamp_score(s.0, low.0, high.0),
        r.0 <= 100,
{
    if s.0 <= low.0 {
        return Score(0);
    }
    if s.0 >= high.0 {
        return Score(100);
    }
    Score::from_fraction((s.0 - low.0) as u64, (high.0 - low.0) as u64, SINGLE_FRACTION_BITS)
}

struct ClampNode {
    input: ProviderId,
    low: Score,
    high: Score,
}

impl TransformFn for ClampNode {
    closed spec fn spec_apply(&self, cache: Map<u64, Score>) -> Score {
        Score(clamp_score(cached_score(cache, self.input).0, self.low.0, self.high.0))
    }

    fn apply(&self, cache: &HashMap<u64, Score>) -> (r: Score) {
        let e = CacheEvaluator { cache };
        clamp(e.score(self.input), self.low, self.high)
    }
}

/// `e` is the entry of a `clamp` with arguments `args`: it depends on the
/// input, and its score is the input's cached score remapped from
/// `[low, high]` to `[0, 100]`.
pub open spec fn clamp_entry(args: ConfigValue, e: TransformerEntry) -> bool {
    let (input, low, high) = spec_clamp_args(args)->0;
    &&& spec_clamp_args(args) is Some && e.dep_ids@ == seq![input]
    &&& e.evaluate matches TransformImpl::Modeled(f) && forall|m: Map<u64, Score>| #[trigger] f.spec_apply(m)
        == Score(clamp_score(cached_score(m, input).0, low, high))
}

impl ClampTransformer {
    /// Compiles the arguments into a registry entry.
    pub fn into_entry(self, args: &ConfigValue) -> (r: Result<TransformerEntry, PluginError>)
        ensures
            r is Ok <==> spec_clamp_args(*args) is Some,
            r matches Ok(e) ==> clamp_entry(*args, e),
    {
        let a = self.try_compile_args(args)?;
        let deps = ClampTransformer::dep_ids(&a);
        Ok(TransformerEntry {
            dep_ids: deps,
            evaluate: TransformImpl::Modeled(Box::new(ClampNode { input: a.input, low: a.low, high: a.high })),
        })
    }
}

} // verus!
