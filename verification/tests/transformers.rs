use std::collections::HashMap;

use ferrum::plugin::{CacheEvaluator, TransformImpl};
use ferrum::provider::ProviderId;
use ferrum::score::Score;
use ferrum::transformers::and::{AndTransformer, Args};
use ferrum::transformers::clamp::{Args as ClampArgs, ClampTransformer};
use ferrum::transformers::not::{Args as NotArgs, NotTransformer};
use ferrum::transformers::or::{Args as OrArgs, OrTransformer};
use ferrum::transformers::Transformer;
use ferrum::value::ConfigValue;

/// Scores for the given ids; every other id scores 0.
fn scores(entries: &[(ProviderId, Score)]) -> HashMap<u64, Score> {
    entries.iter().map(|(id, s)| (id.0, *s)).collect()
}

fn pid(n: u64) -> ProviderId {
    ProviderId(n)
}

fn clamp_args(low: u8, high: u8) -> ClampArgs {
    ClampArgs {
        input: ProviderId(1),
        low: Score(low),
        high: Score(high),
    }
}

fn clamp_eval(score: u8) -> HashMap<u64, Score> {
    scores(&[(ProviderId(1), Score(score))])
}

fn table(entries: Vec<(&str, ConfigValue)>) -> ConfigValue {
    ConfigValue::Table(entries.into_iter().map(|(k, v)| (k.to_string(), v)).collect())
}

fn strings(items: &[&str]) -> ConfigValue {
    ConfigValue::Array(items.iter().map(|s| ConfigValue::String(s.to_string())).collect())
}

#[test]
fn and_returns_min() {
    let args = Args {
        inputs: vec![pid(1), pid(2)],
    };
    let cache = scores(&[(pid(1), Score(30)), (pid(2), Score(70))]);
    let eval = CacheEvaluator { cache: &cache };
    assert_eq!(AndTransformer.evaluate(&args, &eval), Score(30));
}

#[test]
fn and_empty_returns_hundred() {
    let args = Args { inputs: vec![] };
    let cache = scores(&[]);
    let eval = CacheEvaluator { cache: &cache };
    assert_eq!(AndTransformer.evaluate(&args, &eval), Score(100));
}

#[test]
fn below_low_returns_zero() {
    assert_eq!(ClampTransformer.evaluate(&clamp_args(20, 80), &CacheEvaluator { cache: &clamp_eval(10) }), Score(0));
}

#[test]
fn at_low_returns_zero() {
    assert_eq!(ClampTransformer.evaluate(&clamp_args(20, 80), &CacheEvaluator { cache: &clamp_eval(20) }), Score(0));
}

#[test]
fn above_high_returns_hundred() {
    assert_eq!(ClampTransformer.evaluate(&clamp_args(20, 80), &CacheEvaluator { cache: &clamp_eval(90) }), Score(100));
}

#[test]
fn at_high_returns_hundred() {
    assert_eq!(ClampTransformer.evaluate(&clamp_args(20, 80), &CacheEvaluator { cache: &clamp_eval(80) }), Score(100));
}

#[test]
fn midpoint_returns_fifty() {
    // low=20 high=80 input=50 → (50-20)/(80-20)*100 = 50
    assert_eq!(ClampTransformer.evaluate(&clamp_args(20, 80), &CacheEvaluator { cache: &clamp_eval(50) }), Score(50));
}

#[test]
fn linear_passthrough() {
    // low=0 high=100: identity mapping
    assert_eq!(ClampTransformer.evaluate(&clamp_args(0, 100), &CacheEvaluator { cache: &clamp_eval(25) }), Score(25));
    assert_eq!(ClampTransformer.evaluate(&clamp_args(0, 100), &CacheEvaluator { cache: &clamp_eval(75) }), Score(75));
}

#[test]
fn dep_ids_contains_input() {
    assert_eq!(
        ClampArgs {
            input: ProviderId(42),
            low: Score(0),
            high: Score(100),
        }
        .input,
        ProviderId(42)
    );
    let a = clamp_args(0, 50);
    assert_eq!(ClampTransformer::dep_ids(&a), vec![ProviderId(1)]);
}

#[test]
fn not_inverts() {
    let args = NotArgs { input: pid(1) };
    let cache = scores(&[(pid(1), Score(40))]);
    let eval = CacheEvaluator { cache: &cache };
    assert_eq!(NotTransformer.evaluate(&args, &eval), Score(60));
}

#[test]
fn or_returns_max() {
    let args = OrArgs {
        inputs: vec![pid(1), pid(2)],
    };
    let cache = scores(&[(pid(1), Score(30)), (pid(2), Score(70))]);
    let eval = CacheEvaluator { cache: &cache };
    assert_eq!(OrTransformer.evaluate(&args, &eval), Score(70));
}

#[test]
fn or_empty_returns_zero() {
    let args = OrArgs { inputs: vec![] };
    let cache = scores(&[]);
    let eval = CacheEvaluator { cache: &cache };
    assert_eq!(OrTransformer.evaluate(&args, &eval), Score(0));
}

#[test]
fn and_compiles_input_names_to_ids() {
    let args = AndTransformer
        .compile_args(&table(vec![("inputs", strings(&["a", "b"]))]));
    assert_eq!(args.inputs, vec![ProviderId::from("a"), ProviderId::from("b")]);
    assert_eq!(AndTransformer::dep_ids(&args), args.inputs);
}

#[test]
fn and_rejects_missing_inputs() {
    let err = AndTransformer.try_compile_args(&table(vec![])).unwrap_err();
    assert!(err.message.contains("inputs"));
}

#[test]
fn or_rejects_non_string_input() {
    let err = OrTransformer
        .try_compile_args(&table(vec![("inputs", ConfigValue::Array(vec![ConfigValue::Integer(3)]))]))
        .unwrap_err();
    assert!(err.message.contains("string"));
}

#[test]
fn not_requires_input_string() {
    assert!(NotTransformer.try_compile_args(&table(vec![])).is_err());
    let args = NotTransformer
        .compile_args(&table(vec![("input", ConfigValue::String("x".into()))]));
    assert_eq!(args.input, ProviderId::from("x"));
}

#[test]
fn clamp_rejects_bad_bounds() {
    let bounds = |low: i64, high: i64| {
        table(vec![
            ("input", ConfigValue::String("x".into())),
            ("low", ConfigValue::Integer(low)),
            ("high", ConfigValue::Integer(high)),
        ])
    };
    assert!(ClampTransformer.try_compile_args(&bounds(-1, 50)).is_err());
    assert!(ClampTransformer.try_compile_args(&bounds(10, 101)).is_err());
    assert!(ClampTransformer.try_compile_args(&bounds(60, 50)).is_err());
    assert!(ClampTransformer.try_compile_args(&bounds(50, 50)).is_err());
    let a = ClampTransformer.compile_args(&bounds(10, 50));
    assert_eq!((a.input, a.low, a.high), (ProviderId::from("x"), Score(10), Score(50)));
}

#[test]
fn clamp_rounds_to_nearest() {
    // (30 - 20) / (50 - 20) = 0.333.. → 33; (40 - 20) / (50 - 20) = 0.666.. → 67
    assert_eq!(ClampTransformer.evaluate(&clamp_args(20, 50), &CacheEvaluator { cache: &clamp_eval(30) }), Score(33));
    assert_eq!(ClampTransformer.evaluate(&clamp_args(20, 50), &CacheEvaluator { cache: &clamp_eval(40) }), Score(67));
}

#[test]
fn entries_apply_to_cached_scores() {
    let entry = AndTransformer
        .into_entry(&table(vec![("inputs", strings(&["a", "b"]))]))
        .unwrap();
    assert_eq!(entry.dep_ids, vec![ProviderId::from("a"), ProviderId::from("b")]);
    let mut cache = HashMap::new();
    cache.insert(ProviderId::from("a").0, Score(80));
    cache.insert(ProviderId::from("b").0, Score(35));
    assert_eq!(apply(&entry.evaluate, &cache), Score(35));

    let entry = NotTransformer
        .into_entry(&table(vec![("input", ConfigValue::String("a".into()))]))
        .unwrap();
    assert_eq!(apply(&entry.evaluate, &cache), Score(20));
}

fn apply(t: &TransformImpl, cache: &HashMap<u64, Score>) -> Score {
    match t {
        TransformImpl::Modeled(f) => f.apply(cache),
        TransformImpl::Unmodeled(f) => f.apply(cache),
    }
}
