use std::collections::HashMap;
use std::sync::{Arc, Mutex};

use ferrum::catalog::{register, CatalogError, PluginCatalog, PluginFactory, TerminatorBuild, TerminatorFactory};
use ferrum::config::{CompiledAction, CompiledRule};
use ferrum::engine::{evaluate, EngineError};
use ferrum::lexical::{key_order, str_lt};
use ferrum::plugin::{
    NodeEntry, NodeKind, PluginError, SensorEntry, SensorFn, Terminator, TerminatorAction, TerminatorEntry, TransformImpl,
    TransformerEntry, UnmodeledTransformFn,
};
use ferrum::provider::ProviderId;
use ferrum::proxy::{try_eval_action, WalkError};
use ferrum::registry::{PluginRegistry, RegistryError};
use ferrum::request::{IpAddress, RequestContext};
use ferrum::score::Score;
use ferrum::value::ConfigValue;

/// The library's form of an address written in text.
fn addr(text: &str) -> IpAddress {
    match text.parse::<core::net::IpAddr>().unwrap() {
        core::net::IpAddr::V4(a) => IpAddress::V4(u32::from(a)),
        core::net::IpAddr::V6(a) => IpAddress::V6(u128::from(a)),
    }
}

fn request() -> RequestContext {
    RequestContext::new(addr("1.2.3.4"), "GET".into(), "/".into())
}

/// Scores a fixed value and counts how often it was asked.
struct Counting {
    score: u8,
    calls: Arc<Mutex<usize>>,
}

impl SensorFn for Counting {
    fn evaluate(&self, _ctx: &mut RequestContext) -> Score {
        *self.calls.lock().unwrap() += 1;
        Score(self.score)
    }
}

/// The sum of its inputs' cached scores, capped at 100.
struct Sum(Vec<ProviderId>);

impl UnmodeledTransformFn for Sum {
    fn apply(&self, cache: &HashMap<u64, Score>) -> Score {
        let total: u32 = self.0.iter().map(|id| cache.get(&id.0).map(|s| u32::from(s.0)).unwrap_or(0)).sum();
        Score(u8::try_from(total.min(100)).unwrap())
    }
}

fn counting(score: u8, calls: &Arc<Mutex<usize>>) -> NodeEntry {
    NodeEntry::Sensor(SensorEntry { evaluate: Box::new(Counting { score, calls: Arc::clone(calls) }) })
}

fn sum(deps: Vec<ProviderId>, inputs: Vec<ProviderId>) -> NodeEntry {
    NodeEntry::Transformer(TransformerEntry { dep_ids: deps, evaluate: TransformImpl::Unmodeled(Box::new(Sum(inputs))) })
}

#[test]
fn strings_order_by_code_point() {
    assert!(str_lt("a", "b"));
    assert!(str_lt("a", "ab"));
    assert!(str_lt("", "a"));
    assert!(!str_lt("ab", "a"));
    assert!(!str_lt("b", "a"));
    assert!(!str_lt("same", "same"));
    assert!(str_lt("Zebra", "apple"));
    let pairs = vec![("b".to_string(), 1), ("a".to_string(), 2), ("c".to_string(), 3), ("a".to_string(), 4)];
    assert_eq!(key_order(&pairs), vec![1, 3, 0, 2]);
}

#[test]
fn registry_refuses_a_second_entry_under_one_id() {
    let calls = Arc::new(Mutex::new(0usize));
    let mut reg = PluginRegistry::new();
    assert_eq!(reg.try_register_node(ProviderId(1), counting(10, &calls)), Ok(()));
    assert_eq!(reg.try_register_node(ProviderId(1), counting(20, &calls)), Err(RegistryError::Duplicate(ProviderId(1))));
    assert_eq!(reg.len(), 1);
    assert_eq!(reg.node_kind(ProviderId(1)), Some(NodeKind::Sensor));
    assert_eq!(reg.node_kind(ProviderId(2)), None);
    assert!(matches!(reg.dep_ids(ProviderId(2)), Err(RegistryError::Unknown(_))));
}

#[test]
fn each_provider_is_evaluated_once_per_request() {
    let calls = Arc::new(Mutex::new(0usize));
    let mut reg = PluginRegistry::new();
    reg.register_node(ProviderId(1), counting(30, &calls));
    reg.register_node(ProviderId(2), counting(25, &calls));
    reg.register_node(ProviderId(3), sum(vec![ProviderId(1), ProviderId(2), ProviderId(1)], vec![ProviderId(1), ProviderId(2)]));
    let mut ctx = request();
    assert_eq!(evaluate(ProviderId(3), &mut ctx, &reg), Ok(Score(55)));
    assert_eq!(evaluate(ProviderId(1), &mut ctx, &reg), Ok(Score(30)));
    assert_eq!(evaluate(ProviderId(3), &mut ctx, &reg), Ok(Score(55)));
    assert_eq!(*calls.lock().unwrap(), 2);
    assert_eq!(ctx.cache.get(&3), Some(&Score(55)));
}

#[test]
fn dependency_cycles_are_reported() {
    let mut reg = PluginRegistry::new();
    reg.register_node(ProviderId(7), sum(vec![ProviderId(8)], vec![ProviderId(8)]));
    reg.register_node(ProviderId(8), sum(vec![ProviderId(7)], vec![ProviderId(7)]));
    assert!(matches!(evaluate(ProviderId(7), &mut request(), &reg), Err(EngineError::Cycle(_))));
    assert_eq!(
        evaluate(ProviderId(9), &mut request(), &reg),
        Err(EngineError::Registry(RegistryError::Unknown(ProviderId(9))))
    );
}

#[test]
fn walks_that_would_never_end_are_reported() {
    let calls = Arc::new(Mutex::new(0usize));
    let mut reg = PluginRegistry::new();
    reg.register_node(ProviderId(1), counting(0, &calls));
    let looping = CompiledRule {
        id: ProviderId(5),
        input: ProviderId(1),
        threshold: Score(50),
        if_action: CompiledAction::Pass,
        else_action: CompiledAction::Rule(ProviderId(5)),
        buffer_body: false,
    };
    let mut rules = HashMap::new();
    rules.insert(5u64, looping);
    let hooks = HashMap::new();
    let r = try_eval_action(CompiledAction::Rule(ProviderId(5)), &rules, &hooks, &reg, &mut request());
    assert!(matches!(r, Err(WalkError::Cycle(_))));
    let r = try_eval_action(CompiledAction::Terminator(ProviderId(6)), &rules, &hooks, &reg, &mut request());
    assert!(matches!(r, Err(WalkError::UnknownTerminator(_))));
    let r = try_eval_action(CompiledAction::Rule(ProviderId(4)), &rules, &hooks, &reg, &mut request());
    assert!(matches!(r, Err(WalkError::UnknownRule(_))));
}

struct Fixed;

impl TerminatorBuild for Fixed {
    fn build(&self, _args: &ConfigValue) -> Result<TerminatorEntry, PluginError> {
        Ok(TerminatorEntry { decide: Box::new(Answer) })
    }
}

struct Answer;

impl ferrum::plugin::Plugin for Answer {}

impl Terminator for Answer {
    fn decide(&self, _ctx: &RequestContext) -> TerminatorAction {
        TerminatorAction::Respond { status: 418, headers: vec![] }
    }
}

#[test]
fn catalog_names_are_unique() {
    let mut cat = PluginCatalog::with_builtins();
    let dup = PluginFactory::Terminator(TerminatorFactory { name: "block", build: Box::new(Fixed) });
    assert_eq!(cat.register(dup), Err(CatalogError::DuplicateName("block".to_string())));
    let fresh = PluginFactory::Terminator(TerminatorFactory { name: "teapot", build: Box::new(Fixed) });
    register(&mut cat, fresh);
    let f = ferrum::catalog::get_terminator(&cat, "teapot").unwrap();
    let t = f.build.build(&ConfigValue::Table(vec![])).unwrap();
    assert_eq!(t.decide.decide(&request()), TerminatorAction::Respond { status: 418, headers: vec![] });
}
