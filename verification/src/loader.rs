//! Turns a parsed configuration into everything the proxy needs at run time:
//! the compiled rule graph and a registry of built plugin instances.

use std::collections::HashMap;

use vstd::prelude::*;

use crate::catalog::{get_hook, get_sensor, get_terminator, get_transformer, has_plugin, PluginCatalog, PluginFactory};
use crate::config::raw::Config;
use crate::config::{
    action_refs, try_compile_rules, entry_action, hook_names, id_keys, inline_ref, keyed_by_last, last_with_id,
    lemma_some_last_with_id, names_of,
    provider_names, resolve_action, rule_names, compile_rule, opt_view, terminators_ok, CompileError,
    CompileResult, CompiledAction, CompiledHook, CompiledRule, ServerConfig, TerminatorSource,
};
use crate::plugin::{NodeEntry, NodeKind, PluginError, TerminatorAction};
use crate::provider::{provider_id_of, ProviderId};
use crate::registry::{PluginRegistry, RegistryError};
use crate::value::ConfigValue;

verus! {

broadcast use vstd::std_specs::hash::group_hash_axioms;

/// Everything the proxy needs at runtime.
pub struct FerrumConfig {
    /// Rules keyed by the id of their name.
    pub rules: HashMap<u64, CompiledRule>,
    /// Hooks keyed by the id of their name.
    pub hooks: HashMap<u64, CompiledHook>,
    /// Entry point of the action graph — may be a rule, hook, or terminator.
    pub entry: CompiledAction,
    /// Every built plugin instance, keyed by provider id.
    pub registry: PluginRegistry,
    /// Server settings.
    pub server: ServerConfig,
}

/// Why a configuration cannot be loaded.
#[derive(Debug)]
pub enum LoadError {
    /// The rule graph does not compile.
    Compile(CompileError),
    /// No plugin of this kind is registered under this name.
    UnknownPlugin { kind: NodeKind, name: String },
    /// The plugin refused the arguments of this provider.
    Plugin { provider: String, error: PluginError },
    /// Two nodes share a provider id.
    Registry(RegistryError),
}

// ---------------------------------------------------------------------------
// Specification
// ---------------------------------------------------------------------------

/// The configuration compiles (see `compile_rules`).
pub open spec fn compiles(c: Config) -> bool {
    &&& !(c.entry is None && c.rules@.len() == 0)
    &&& provider_names(c).no_duplicates()
    &&& forall|i: int| 0 <= i < c.rules@.len() ==> provider_names(c).contains(#[trigger] c.rules@[i].input@)
}

/// The ids of all terminators: those with a `[terminators.*]` block and those
/// named inline by an action.
pub open spec fn terminator_keys(c: Config) -> Set<u64> {
    Set::new(|k: u64| id_keys(names_of(c.terminators@)).contains(k) || exists|i: int|
        inline_ref(c, action_refs(c), i) && provider_id_of(action_refs(c)[i]->0).0 == k)
}

/// Names of all sensors, transformers and hooks, in registration order.
pub open spec fn node_names(c: Config) -> Seq<Seq<char>> {
    provider_names(c) + hook_names(c)
}

/// No two sensors, transformers or hooks share an id, and none shares one with a terminator.
pub open spec fn ids_distinct(c: Config) -> bool {
    &&& forall|i: int, j: int| 0 <= i < j < node_names(c).len() ==>
        provider_id_of(#[trigger] node_names(c)[i]) != provider_id_of(#[trigger] node_names(c)[j])
    &&& forall|i: int| 0 <= i < node_names(c).len() ==> !terminator_keys(c).contains(
        provider_id_of(#[trigger] node_names(c)[i]).0)
}

/// Every plugin that the configuration names is in the catalog with the right kind.
pub open spec fn plugins_known(c: Config, cat: PluginCatalog) -> bool {
    &&& forall|i: int| 0 <= i < c.sensors@.len() ==> has_plugin(cat, #[trigger] c.sensors@[i].1.plugin@, NodeKind::Sensor)
    &&& forall|i: int| 0 <= i < c.transformers@.len() ==> has_plugin(cat, #[trigger] c.transformers@[i].1.plugin@,
        NodeKind::Transformer)
    &&& forall|i: int| 0 <= i < c.hooks@.len() ==> has_plugin(cat, #[trigger] c.hooks@[i].1.plugin@, NodeKind::Hook)
    &&& forall|i: int| 0 <= i < c.terminators@.len() ==> has_plugin(cat, #[trigger] c.terminators@[i].1.plugin@,
        NodeKind::Terminator)
    &&& forall|i: int| #[trigger] inline_ref(c, action_refs(c), i) ==> has_plugin(cat, action_refs(c)[i]->0,
        NodeKind::Terminator)
}

/// `name` is a plugin of kind `kind` that the configuration uses and the catalog lacks.
pub open spec fn missing_plugin(c: Config, cat: PluginCatalog, kind: NodeKind, name: Seq<char>) -> bool {
    &&& !has_plugin(cat, name, kind)
    &&& match kind {
        NodeKind::Sensor => exists|i: int| 0 <= i < c.sensors@.len() && #[trigger] c.sensors@[i].1.plugin@ == name,
        NodeKind::Transformer => exists|i: int| 0 <= i < c.transformers@.len() && #[trigger] c.transformers@[i].1.plugin@
            == name,
        NodeKind::Hook => exists|i: int| 0 <= i < c.hooks@.len() && #[trigger] c.hooks@[i].1.plugin@ == name,
        NodeKind::Terminator => (exists|i: int| 0 <= i < c.terminators@.len() && #[trigger] c.terminators@[i].1.plugin@
            == name) || (exists|i: int| #[trigger] inline_ref(c, action_refs(c), i) && action_refs(c)[i]->0 == name),
    }
}

/// `v` is what a terminator named `section` is built from: the arguments of the
/// first `[terminators.*]` block of that name, or an empty table where there is none.
pub open spec fn section_value(c: Config, section: Seq<char>, v: ConfigValue) -> bool {
    if exists|i: int| 0 <= i < c.terminators@.len() && #[trigger] c.terminators@[i].0@ == section {
        exists|i: int| 0 <= i < c.terminators@.len() && #[trigger] c.terminators@[i].0@ == section && (forall|j: int|
            0 <= j < i ==> c.terminators@[j].0@ != section) && v == c.terminators@[i].1.args
    } else {
        v matches ConfigValue::Table(t) && t@.len() == 0
    }
}

/// A terminator that the catalog's plugin `plugin` builds from `args` may take action `a`.
pub open spec fn plugin_allows(cat: PluginCatalog, plugin: Seq<char>, args: ConfigValue, a: TerminatorAction) -> bool {
    match cat.factory(plugin) {
        PluginFactory::Terminator(f) => f.build.allows(args, a),
        _ => false,
    }
}

/// The terminator registered under `k` was built by the plugin of `s`, which
/// the catalog holds, from the arguments of its section: every action it may
/// take, that plugin allows.
pub open spec fn terminator_built(reg: PluginRegistry, cat: PluginCatalog, c: Config, k: u64, s: TerminatorSource) -> bool {
    &&& has_plugin(cat, s.plugin@, NodeKind::Terminator)
    &&& exists|v: ConfigValue| #[trigger] section_value(c, s.section@, v) && forall|a: TerminatorAction|
        #[trigger] reg.terminator_acts(k, a) ==> plugin_allows(cat, s.plugin@, v, a)
}

/// Every terminator of `c` was built by the plugin its source names, from that
/// source's arguments (see `terminator_built`).
pub open spec fn terminators_built(reg: PluginRegistry, cat: PluginCatalog, c: Config) -> bool {
    forall|k: u64| #[trigger] terminator_keys(c).contains(k) ==> exists|s: TerminatorSource| source_in_config(c, s)
        && provider_id_of(s.section@).0 == k && #[trigger] terminator_built(reg, cat, c, k, s)
}

/// The registry holds exactly the configuration's nodes, each with its kind.
pub open spec fn registry_matches(c: Config, kinds: Map<u64, NodeKind>) -> bool {
    &&& forall|k: u64| #[trigger] kinds.contains_key(k) <==> (terminator_keys(c).contains(k) || id_keys(node_names(c)).contains(k))
    &&& forall|k: u64| terminator_keys(c).contains(k) ==> #[trigger] kinds[k] == NodeKind::Terminator
    &&& forall|i: int| 0 <= i < c.sensors@.len() ==> kinds[provider_id_of(#[trigger] c.sensors@[i].0@).0] == NodeKind::Sensor
    &&& forall|i: int| 0 <= i < c.transformers@.len() ==> kinds[provider_id_of(#[trigger] c.transformers@[i].0@).0]
        == NodeKind::Transformer
    &&& forall|i: int| 0 <= i < c.hooks@.len() ==> kinds[provider_id_of(#[trigger] c.hooks@[i].0@).0] == NodeKind::Hook
}

// ---------------------------------------------------------------------------
// Implementation
// ---------------------------------------------------------------------------

/// The arguments of the (first) `[terminators.*]` block named `section`, or
/// `empty` where there is none.
fn section_args<'a>(c: &'a Config, section: &str, empty: &'a ConfigValue) -> (r: &'a ConfigValue)
    ensures
        (exists|i: int| 0 <= i < c.terminators@.len() && #[trigger] c.terminators@[i].0@ == section@) ==> exists|i: int|
            0 <= i < c.terminators@.len() && #[trigger] c.terminators@[i].0@ == section@ && (forall|j: int|
            0 <= j < i ==> c.terminators@[j].0@ != section@) && r == c.terminators@[i].1.args,
        !(exists|i: int| 0 <= i < c.terminators@.len() && #[trigger] c.terminators@[i].0@ == section@) ==> r == empty,
{
    let mut i: usize = 0;
    while i < c.terminators.len()
        invariant
            i <= c.terminators@.len(),
            forall|j: int| 0 <= j < i ==> c.terminators@[j].0@ != section@,
        decreases c.terminators.len() - i,
    {
        if crate::value::str_eq(c.terminators[i].0.as_str(), section) {
            return &c.terminators[i].1.args;
        }
        i = i + 1;
    }
    empty
}

/// Builds and registers every terminator of `terms` into the empty `registry`.
fn register_terminators(
    c: &Config,
    catalog: &PluginCatalog,
    terms: &HashMap<u64, TerminatorSource>,
    registry: &mut PluginRegistry,
) -> (r: Result<(), LoadError>)
    requires
        old(registry).kinds() == Map::<u64, NodeKind>::empty(),
    ensures
        r is Ok ==> final(registry).kinds() == Map::new(|k: u64| terms@.contains_key(k), |k: u64| NodeKind::Terminator),
        r is Ok ==> forall|k: u64| #[trigger] terms@.contains_key(k) ==> has_plugin(*catalog, terms@[k].plugin@,
            NodeKind::Terminator),
        r is Ok ==> forall|k: u64| #[trigger] terms@.contains_key(k) ==> terminator_built(*final(registry), *catalog, *c, k,
            terms@[k]),
        (forall|k: u64| #[trigger] terms@.contains_key(k) ==> has_plugin(*catalog, terms@[k].plugin@, NodeKind::Terminator))
            ==> (r is Ok || r matches Err(LoadError::Plugin { .. })),
        r matches Err(LoadError::UnknownPlugin { kind, name }) ==> kind == NodeKind::Terminator && !has_plugin(*catalog,
            name@, NodeKind::Terminator) && exists|k: u64| #[trigger] terms@.contains_key(k) && terms@[k].plugin@ == name@,
        r matches Err(LoadError::Plugin { provider, .. }) ==> exists|k: u64| #[trigger] terms@.contains_key(k)
            && terms@[k].section@ == provider@,
        r is Err ==> (r matches Err(LoadError::UnknownPlugin { .. }) || r matches Err(LoadError::Plugin { .. })),
{
    if terms.len() == 0 {
        proof {
            assert(registry.kinds() =~= Map::new(|k: u64| terms@.contains_key(k), |k: u64| NodeKind::Terminator));
        }
        return Ok(());
    }
    let empty = ConfigValue::Table(Vec::new());
    for k in it: terms.keys()
        invariant
            forall|x: u64| #[trigger] registry.kinds().contains_key(x) <==> exists|j: int| 0 <= j < it.index() && *it.seq()[j] == x,
            forall|x: u64| #[trigger] registry.kinds().contains_key(x) ==> registry.kinds()[x] == NodeKind::Terminator,
            it.seq().unref().to_set() == terms@.dom(),
            it.seq().no_duplicates(),
            it.seq().len() > 0,
            it.index() == it.seq().len() ==> forall|x: u64| #[trigger] registry.kinds().contains_key(x) <==> terms@.contains_key(x),
            forall|j: int| 0 <= j < it.index() ==> has_plugin(*catalog, terms@[*#[trigger] it.seq()[j]].plugin@, NodeKind::Terminator),
            it.index() == it.seq().len() ==> forall|x: u64| #[trigger] terms@.contains_key(x) ==> has_plugin(*catalog,
                terms@[x].plugin@, NodeKind::Terminator),
            empty matches ConfigValue::Table(t) && t@.len() == 0,
            forall|j: int| 0 <= j < it.index() ==> terminator_built(*registry, *catalog, *c, *#[trigger] it.seq()[j],
                terms@[*it.seq()[j]]),
            it.index() == it.seq().len() ==> forall|x: u64| #[trigger] terms@.contains_key(x) ==> terminator_built(*registry,
                *catalog, *c, x, terms@[x]),
    {
        let ghost seq = it.seq().unref();
        proof {
            assert(seq[it.index()] == *k);
            assert(seq.to_set().contains(*k));
        }
        let src = terms.get(k).unwrap();
        let factory = match get_terminator(catalog, src.plugin.as_str()) {
            Some(f) => f,
            None => {
                return Err(LoadError::UnknownPlugin { kind: NodeKind::Terminator, name: src.plugin.clone() });
            },
        };
        let args = section_args(c, src.section.as_str(), &empty);
        let t = match factory.build.build(args) {
            Ok(t) => t,
            Err(error) => {
                return Err(LoadError::Plugin { provider: src.section.clone(), error });
            },
        };
        let id = ProviderId(*k);
        proof {
            if registry.kinds().contains_key(*k) {
                let j = choose|j: int| 0 <= j < it.index() && *it.seq()[j] == *k;
                assert(it.seq()[j] == it.seq()[it.index()]);
            }
        }
        let ghost before = registry.kinds();
        let ghost reg0 = *registry;
        let ghost te = t;
        proof {
            assert(section_value(*c, src.section@, *args));
            assert forall|a: TerminatorAction| #[trigger] te.decide.acts(a) implies plugin_allows(*catalog, src.plugin@, *args, a)
                by {}
        }
        let _ = registry.try_register_node(id, NodeEntry::Terminator(t));
        proof {
            let i = it.index();
            assert forall|a: TerminatorAction| #[trigger] registry.terminator_acts(*k, a) implies plugin_allows(*catalog,
                src.plugin@, *args, a) by {
                assert(te.decide.acts(a));
            }
            assert(terminator_built(*registry, *catalog, *c, *k, terms@[*k]));
            assert forall|j: int| 0 <= j < i + 1 implies terminator_built(*registry, *catalog, *c, *#[trigger] it.seq()[j],
                terms@[*it.seq()[j]]) by {
                if j < i {
                    let x = *it.seq()[j];
                    assert(x != *k);
                    assert(terminator_built(reg0, *catalog, *c, x, terms@[x]));
                    let v = choose|v: ConfigValue| #[trigger] section_value(*c, terms@[x].section@, v) && forall|a: TerminatorAction|
                        #[trigger] reg0.terminator_acts(x, a) ==> plugin_allows(*catalog, terms@[x].plugin@, v, a);
                    assert forall|a: TerminatorAction| #[trigger] registry.terminator_acts(x, a) implies plugin_allows(*catalog,
                        terms@[x].plugin@, v, a) by {
                        assert(reg0.terminator_acts(x, a));
                    }
                }
            }
            if i + 1 == seq.len() {
                assert forall|x: u64| #[trigger] terms@.contains_key(x) implies terminator_built(*registry, *catalog, *c, x,
                    terms@[x]) by {
                    assert(seq.to_set().contains(x));
                    let j = choose|j: int| 0 <= j < seq.len() && seq[j] == x;
                    assert(*it.seq()[j] == x);
                }
            }
            assert forall|x: u64| #[trigger] registry.kinds().contains_key(x) <==> exists|j: int| 0 <= j < i + 1 && *it.seq()[j] == x by {
                if registry.kinds().contains_key(x) && x != *k {
                    assert(before.contains_key(x));
                }
                if exists|j: int| 0 <= j < i + 1 && *it.seq()[j] == x {
                    let j = choose|j: int| 0 <= j < i + 1 && *it.seq()[j] == x;
                    if j < i {
                        assert(before.contains_key(x));
                    }
                }
            }
            assert forall|j: int| 0 <= j < i + 1 implies has_plugin(*catalog, terms@[*#[trigger] it.seq()[j]].plugin@,
                NodeKind::Terminator) by {
                if j == i {
                    assert(*it.seq()[j] == *k);
                }
            }
            assert forall|x: u64| i + 1 == seq.len() && #[trigger] terms@.contains_key(x) implies has_plugin(*catalog,
                terms@[x].plugin@, NodeKind::Terminator) by {
                assert(seq.to_set().contains(x));
                let j = choose|j: int| 0 <= j < seq.len() && seq[j] == x;
                assert(*it.seq()[j] == x);
            }
            assert forall|x: u64| i + 1 == seq.len() implies (#[trigger] registry.kinds().contains_key(x)
                <==> terms@.contains_key(x)) by {
                if terms@.contains_key(x) {
                    assert(seq.to_set().contains(x));
                    let j = choose|j: int| 0 <= j < seq.len() && seq[j] == x;
                    assert(*it.seq()[j] == x);
                }
                if registry.kinds().contains_key(x) {
                    let j = choose|j: int| 0 <= j < i + 1 && *it.seq()[j] == x;
                    assert(seq[j] == x);
                    assert(seq.to_set().contains(x));
                }
            }
        }
    }
    proof {
        assert(registry.kinds() =~= Map::new(|k: u64| terms@.contains_key(k), |k: u64| NodeKind::Terminator));
    }
    Ok(())
}


/// The kind of the node at position `p` of `node_names(c)`.
pub open spec fn kind_at(c: Config, p: int) -> NodeKind {
    if p < c.sensors@.len() {
        NodeKind::Sensor
    } else if p < c.sensors@.len() + c.transformers@.len() {
        NodeKind::Transformer
    } else {
        NodeKind::Hook
    }
}

/// The plugin named by the node at position `p` of `node_names(c)`.
pub open spec fn node_plugin(c: Config, p: int) -> Seq<char> {
    if p < c.sensors@.len() {
        c.sensors@[p].1.plugin@
    } else if p < c.sensors@.len() + c.transformers@.len() {
        c.transformers@[p - c.sensors@.len()].1.plugin@
    } else {
        c.hooks@[p - c.sensors@.len() - c.transformers@.len()].1.plugin@
    }
}

/// The arguments of the node at position `p` of `node_names(c)`: its block.
pub open spec fn node_args(c: Config, p: int) -> ConfigValue {
    if p < c.sensors@.len() {
        c.sensors@[p].1.args
    } else if p < c.sensors@.len() + c.transformers@.len() {
        c.transformers@[p - c.sensors@.len()].1.args
    } else {
        c.hooks@[p - c.sensors@.len() - c.transformers@.len()].1.args
    }
}

/// The registry holds under the id of node `name` an entry of kind `kind`
/// that the catalog's plugin `plugin` built from `args` (see the `builds` of
/// the plugin's build trait).
pub open spec fn built_from(
    reg: PluginRegistry,
    cat: PluginCatalog,
    kind: NodeKind,
    name: Seq<char>,
    plugin: Seq<char>,
    args: ConfigValue,
) -> bool {
    let id = provider_id_of(name);
    match (reg.entry(id.0), cat.factory(plugin)) {
        (NodeEntry::Sensor(e), PluginFactory::Sensor(f)) => kind == NodeKind::Sensor && f.build.builds(args, id, e),
        (NodeEntry::Transformer(e), PluginFactory::Transformer(f)) => kind == NodeKind::Transformer && f.build.builds(
            args,
            e,
        ),
        (NodeEntry::Hook(e), PluginFactory::Hook(f)) => kind == NodeKind::Hook && f.build.builds(args, e),
        _ => false,
    }
}

/// Every sensor, transformer and hook of `c` is registered as what its
/// plugin built from its block.
pub open spec fn nodes_built(reg: PluginRegistry, cat: PluginCatalog, c: Config, p: int) -> bool {
    forall|q: int| 0 <= q < p ==> built_from(reg, cat, kind_at(c, q), #[trigger] node_names(c)[q], node_plugin(c, q), node_args(c, q))
}

/// The plugins of the first `p` sensors, transformers and hooks of `c` are in
/// `cat` under the right kind.
pub open spec fn nodes_known(c: Config, cat: PluginCatalog, p: int) -> bool {
    forall|q: int| 0 <= q < p ==> has_plugin(cat, node_plugin(c, q), #[trigger] kind_at(c, q))
}

/// The registry after the terminators and the first `p` nodes were registered.
spec fn registered(c: Config, terms: Set<u64>, kinds: Map<u64, NodeKind>, p: int) -> bool {
    let names = node_names(c);
    &&& forall|x: u64| #[trigger] kinds.contains_key(x) <==> (terms.contains(x) || exists|q: int|
        0 <= q < p && provider_id_of(names[q]).0 == x)
    &&& forall|x: u64| terms.contains(x) ==> #[trigger] kinds[x] == NodeKind::Terminator
    &&& forall|q: int| 0 <= q < p ==> kinds[provider_id_of(#[trigger] names[q]).0] == kind_at(c, q)
    &&& forall|q1: int, q2: int| 0 <= q1 < q2 < p ==> provider_id_of(#[trigger] names[q1]) != provider_id_of(
        #[trigger] names[q2])
    &&& forall|q: int| 0 <= q < p ==> !terms.contains(provider_id_of(#[trigger] names[q]).0)
}

/// Builds the node `name` with plugin `plugin` of kind `kind` and registers it.
fn register_one(
    catalog: &PluginCatalog,
    kind: NodeKind,
    name: &String,
    plugin: &String,
    args: &ConfigValue,
    registry: &mut PluginRegistry,
) -> (r: Result<(), LoadError>)
    requires
        kind != NodeKind::Terminator,
    ensures
        r is Ok ==> has_plugin(*catalog, plugin@, kind) && !old(registry).kinds().contains_key(provider_id_of(name@).0)
            && final(registry).kinds() == old(registry).kinds().insert(provider_id_of(name@).0, kind)
            && built_from(*final(registry), *catalog, kind, name@, plugin@, *args),
        forall|k: u64| #![trigger final(registry).entry(k)] k != provider_id_of(name@).0 ==> final(registry).entry(k)
            == old(registry).entry(k),
        forall|k: u64, a: TerminatorAction| #![trigger final(registry).terminator_acts(k, a)] k != provider_id_of(name@).0
            ==> final(registry).terminator_acts(k, a) == old(registry).terminator_acts(k, a),
        r is Err ==> final(registry).kinds() == old(registry).kinds(),
        r matches Err(LoadError::UnknownPlugin { kind: k, name: n }) ==> k == kind && n@ == plugin@ && !has_plugin(
            *catalog, plugin@, kind),
        r matches Err(LoadError::Registry(_)) ==> old(registry).kinds().contains_key(provider_id_of(name@).0),
        r matches Err(LoadError::Plugin { provider, .. }) ==> provider@ == name@,
        r matches Err(LoadError::Compile(_)) ==> false,
        has_plugin(*catalog, plugin@, kind) && !old(registry).kinds().contains_key(provider_id_of(name@).0) ==> (r is Ok
            || r matches Err(LoadError::Plugin { .. })),
{
    let id = ProviderId::from_name(name.as_str());
    let entry = match kind {
        NodeKind::Sensor => {
            let f = match get_sensor(catalog, plugin.as_str()) {
                Some(f) => f,
                None => {
                    return Err(LoadError::UnknownPlugin { kind, name: plugin.clone() });
                },
            };
            match f.build.build(args, id) {
                Ok(e) => NodeEntry::Sensor(e),
                Err(error) => {
                    return Err(LoadError::Plugin { provider: name.clone(), error });
                },
            }
        },
        NodeKind::Transformer => {
            let f = match get_transformer(catalog, plugin.as_str()) {
                Some(f) => f,
                None => {
                    return Err(LoadError::UnknownPlugin { kind, name: plugin.clone() });
                },
            };
            match f.build.build(args) {
                Ok(e) => NodeEntry::Transformer(e),
                Err(error) => {
                    return Err(LoadError::Plugin { provider: name.clone(), error });
                },
            }
        },
        _ => {
            let f = match get_hook(catalog, plugin.as_str()) {
                Some(f) => f,
                None => {
                    return Err(LoadError::UnknownPlugin { kind, name: plugin.clone() });
                },
            };
            match f.build.build(args) {
                Ok(e) => NodeEntry::Hook(e),
                Err(error) => {
                    return Err(LoadError::Plugin { provider: name.clone(), error });
                },
            }
        },
    };
    match registry.try_register_node(id, entry) {
        Ok(()) => Ok(()),
        Err(e) => Err(LoadError::Registry(e)),
    }
}


/// `s` comes from a `[terminators.*]` block or from an inline terminator name.
pub open spec fn source_in_config(c: Config, s: TerminatorSource) -> bool {
    ||| exists|i: int| 0 <= i < c.terminators@.len() && #[trigger] c.terminators@[i].0@ == s.section@
        && c.terminators@[i].1.plugin@ == s.plugin@
    ||| exists|i: int| #[trigger] inline_ref(c, action_refs(c), i) && action_refs(c)[i]->0 == s.section@
        && s.plugin@ == s.section@
}

proof fn lemma_terminator_sources(c: Config, m: Map<u64, TerminatorSource>)
    requires
        terminators_ok(c, m, action_refs(c)),
    ensures
        forall|k: u64| #[trigger] m.contains_key(k) <==> terminator_keys(c).contains(k),
        forall|k: u64| #[trigger] m.contains_key(k) ==> source_in_config(c, m[k]),
        forall|k: u64| #[trigger] m.contains_key(k) ==> provider_id_of(m[k].section@).0 == k,
{
    let named = names_of(c.terminators@);
    assert forall|k: u64| #[trigger] m.contains_key(k) implies source_in_config(c, m[k]) && provider_id_of(m[k].section@).0
        == k by {
        if id_keys(named).contains(k) {
            let i = choose|i: int| 0 <= i < named.len() && provider_id_of(named[i]).0 == k;
            lemma_some_last_with_id(named, k, i);
            let j = choose|j: int| #[trigger] last_with_id(named, j) && provider_id_of(named[j]).0 == k;
            assert(c.terminators@[j].0@ == named[j]);
        }
    }
}

/// What a request that ends in a terminator is answered is an action that
/// the plugin named by that terminator's configuration allows for the
/// arguments of its section.
pub proof fn lemma_verdict_follows_config(reg: PluginRegistry, cat: PluginCatalog, c: Config, k: u64, a: TerminatorAction)
    requires
        terminators_built(reg, cat, c),
        terminator_keys(c).contains(k),
        reg.terminator_acts(k, a),
    ensures
        exists|s: TerminatorSource, v: ConfigValue| #![trigger section_value(c, s.section@, v)] source_in_config(c, s)
            && provider_id_of(s.section@).0 == k && has_plugin(cat, s.plugin@, NodeKind::Terminator) && section_value(c,
            s.section@, v) && plugin_allows(cat, s.plugin@, v, a),
{
    let s = choose|s: TerminatorSource| source_in_config(c, s) && provider_id_of(s.section@).0 == k
        && #[trigger] terminator_built(reg, cat, c, k, s);
    let v = choose|v: ConfigValue| #[trigger] section_value(c, s.section@, v) && forall|a: TerminatorAction|
        #[trigger] reg.terminator_acts(k, a) ==> plugin_allows(cat, s.plugin@, v, a);
    assert(plugin_allows(cat, s.plugin@, v, a));
}

proof fn lemma_terminators_kept(r0: PluginRegistry, r1: PluginRegistry, cat: PluginCatalog, c: Config)
    requires
        terminators_built(r0, cat, c),
        forall|k: u64, a: TerminatorAction| terminator_keys(c).contains(k) ==> #[trigger] r1.terminator_acts(k, a)
            == r0.terminator_acts(k, a),
    ensures
        terminators_built(r1, cat, c),
{
    assert forall|k: u64| #[trigger] terminator_keys(c).contains(k) implies exists|s: TerminatorSource| source_in_config(c, s)
        && provider_id_of(s.section@).0 == k && #[trigger] terminator_built(r1, cat, c, k, s) by {
        let s = choose|s: TerminatorSource| source_in_config(c, s) && provider_id_of(s.section@).0 == k
            && #[trigger] terminator_built(r0, cat, c, k, s);
        let v = choose|v: ConfigValue| #[trigger] section_value(c, s.section@, v) && forall|a: TerminatorAction|
            #[trigger] r0.terminator_acts(k, a) ==> plugin_allows(cat, s.plugin@, v, a);
        assert forall|a: TerminatorAction| #[trigger] r1.terminator_acts(k, a) implies plugin_allows(cat, s.plugin@, v, a) by {
            assert(r0.terminator_acts(k, a));
        }
        assert(terminator_built(r1, cat, c, k, s));
    }
}

proof fn lemma_registered_step(c: Config, terms: Set<u64>, before: Map<u64, NodeKind>, after: Map<u64, NodeKind>, p: int)
    requires
        registered(c, terms, before, p),
        0 <= p < node_names(c).len(),
        !before.contains_key(provider_id_of(node_names(c)[p]).0),
        after == before.insert(provider_id_of(node_names(c)[p]).0, kind_at(c, p)),
    ensures
        registered(c, terms, after, p + 1),
{
    let names = node_names(c);
    let id = provider_id_of(names[p]).0;
    assert forall|x: u64| #[trigger] after.contains_key(x) <==> (terms.contains(x) || exists|q: int|
        0 <= q < p + 1 && provider_id_of(names[q]).0 == x) by {
        if x == id {
            assert(provider_id_of(names[p]).0 == x);
        }
    }
    assert forall|q: int| 0 <= q < p + 1 implies after[provider_id_of(#[trigger] names[q]).0] == kind_at(c, q) by {
        if q < p {
            assert(before.contains_key(provider_id_of(names[q]).0));
        }
    }
    assert forall|q1: int, q2: int| 0 <= q1 < q2 < p + 1 implies provider_id_of(#[trigger] names[q1])
        != provider_id_of(#[trigger] names[q2]) by {
        if q2 == p {
            assert(before.contains_key(provider_id_of(names[q1]).0));
        }
    }
    assert forall|q: int| 0 <= q < p + 1 implies !terms.contains(provider_id_of(#[trigger] names[q]).0) by {
        if q == p && terms.contains(id) {
            assert(before.contains_key(id));
        }
    }
}

proof fn lemma_nodes_built_step(
    c: Config,
    cat: PluginCatalog,
    terms: Set<u64>,
    before: PluginRegistry,
    after: PluginRegistry,
    p: int,
)
    requires
        nodes_built(before, cat, c, p),
        registered(c, terms, before.kinds(), p),
        0 <= p < node_names(c).len(),
        !before.kinds().contains_key(provider_id_of(node_names(c)[p]).0),
        forall|k: u64| #![trigger after.entry(k)] k != provider_id_of(node_names(c)[p]).0 ==> after.entry(k) == before.entry(k),
        built_from(after, cat, kind_at(c, p), node_names(c)[p], node_plugin(c, p), node_args(c, p)),
    ensures
        nodes_built(after, cat, c, p + 1),
{
    let names = node_names(c);
    assert forall|q: int| 0 <= q < p + 1 implies built_from(after, cat, kind_at(c, q), #[trigger] names[q], node_plugin(c, q),
        node_args(c, q)) by {
        if q < p {
            assert(before.kinds().contains_key(provider_id_of(names[q]).0));
            assert(after.entry(provider_id_of(names[q]).0) == before.entry(provider_id_of(names[q]).0));
            assert(built_from(before, cat, kind_at(c, q), names[q], node_plugin(c, q), node_args(c, q)));
        }
    }
}

proof fn lemma_registered_duplicate(c: Config, kinds: Map<u64, NodeKind>, p: int)
    requires
        registered(c, terminator_keys(c), kinds, p),
        0 <= p < node_names(c).len(),
        kinds.contains_key(provider_id_of(node_names(c)[p]).0),
    ensures
        !ids_distinct(c),
{
    let names = node_names(c);
    let id = provider_id_of(names[p]).0;
    if !terminator_keys(c).contains(id) {
        let q = choose|q: int| 0 <= q < p && provider_id_of(names[q]).0 == id;
        assert(provider_id_of(names[q]) == provider_id_of(names[p]));
    }
}

proof fn lemma_registered_done(c: Config, kinds: Map<u64, NodeKind>)
    requires
        registered(c, terminator_keys(c), kinds, node_names(c).len() as int),
    ensures
        registry_matches(c, kinds),
        ids_distinct(c),
{
    let names = node_names(c);
    let s = c.sensors@.len();
    let t = c.transformers@.len();
    assert(names_of(c.sensors@).len() == s);
    assert(names_of(c.transformers@).len() == t);
    assert forall|k: u64| #[trigger] kinds.contains_key(k) <==> (terminator_keys(c).contains(k) || id_keys(names).contains(k)) by {}
    assert forall|i: int| 0 <= i < s implies kinds[provider_id_of(#[trigger] c.sensors@[i].0@).0] == NodeKind::Sensor by {
        assert(names[i] == c.sensors@[i].0@);
    }
    assert forall|i: int| 0 <= i < t implies kinds[provider_id_of(#[trigger] c.transformers@[i].0@).0] == NodeKind::Transformer by {
        assert(names[s + i] == c.transformers@[i].0@);
    }
    assert forall|i: int| 0 <= i < c.hooks@.len() implies kinds[provider_id_of(#[trigger] c.hooks@[i].0@).0] == NodeKind::Hook by {
        assert(names[s + t + i] == c.hooks@[i].0@);
    }
}


/// Compiles `c` and builds every plugin it names from `catalog` into a fresh
/// registry: the terminators first, then the sensors, transformers and hooks;
/// or says why it cannot.
///
/// Fails when the rule graph does not compile, when a plugin name is not in the
/// catalog with the right kind, when a plugin refuses its arguments, and when
/// two nodes share an id.
pub fn try_build_config(c: &Config, catalog: &PluginCatalog) -> (r: Result<FerrumConfig, LoadError>)
    ensures
        !compiles(*c) <==> r matches Err(LoadError::Compile(_)),
        (c.entry is None && c.rules@.len() == 0) ==> r matches Err(LoadError::Compile(CompileError::MissingEntry)),
        r matches Ok(cfg) ==> {
            &&& keyed_by_last(cfg.rules@, rule_names(*c), |i: int| compile_rule(*c, c.rules@[i]))
            &&& keyed_by_last(cfg.hooks@, hook_names(*c), |i: int| CompiledHook {
                id: provider_id_of(hook_names(*c)[i]),
                next: resolve_action(*c, opt_view(c.hooks@[i].1.next)),
            })
            &&& cfg.entry == entry_action(*c)
            &&& cfg.server.listen@ == c.server.listen@
            &&& cfg.server.upstream@ == c.server.upstream@
            &&& cfg.server.metrics_listen@ == c.server.metrics_listen@
            &&& registry_matches(*c, cfg.registry.kinds())
            &&& ids_distinct(*c)
            &&& nodes_built(cfg.registry, *catalog, *c, node_names(*c).len() as int)
            &&& nodes_known(*c, *catalog, node_names(*c).len() as int)
            &&& terminators_built(cfg.registry, *catalog, *c)
        },
        compiles(*c) && plugins_known(*c, *catalog) && ids_distinct(*c) ==> (r is Ok || r matches Err(LoadError::Plugin { .. })),
        !nodes_known(*c, *catalog, node_names(*c).len() as int) ==> r is Err,
        !ids_distinct(*c) ==> r is Err,
        compiles(*c) && !ids_distinct(*c) ==> (r matches Err(LoadError::Registry(_)) || r matches Err(
            LoadError::UnknownPlugin { .. }) || r matches Err(LoadError::Plugin { .. })),
        compiles(*c) && !nodes_known(*c, *catalog, node_names(*c).len() as int) ==> (r matches Err(
            LoadError::UnknownPlugin { .. }) || r matches Err(LoadError::Registry(_)) || r matches Err(LoadError::Plugin { .. })),
        r matches Err(LoadError::Registry(_)) ==> compiles(*c) && !ids_distinct(*c),
        r matches Err(LoadError::UnknownPlugin { kind, name }) ==> compiles(*c) && missing_plugin(*c, *catalog, kind, name@),
        r matches Err(LoadError::Plugin { provider, .. }) ==> compiles(*c) && (node_names(*c).contains(provider@)
            || names_of(c.terminators@).contains(provider@) || action_refs(*c).contains(Some(provider@))),
{
    let res = match try_compile_rules(c) {
        Ok(res) => res,
        Err(e) => {
            return Err(LoadError::Compile(e));
        },
    };
    let ghost names = node_names(*c);
    let ghost terms = terminator_keys(*c);
    proof {
        lemma_terminator_sources(*c, res.terminators@);
        assert(res.terminators@.dom() =~= terms);
        if plugins_known(*c, *catalog) {
            assert forall|k: u64| #[trigger] res.terminators@.contains_key(k) implies has_plugin(*catalog,
                res.terminators@[k].plugin@, NodeKind::Terminator) by {
                assert(source_in_config(*c, res.terminators@[k]));
            }
        }
    }
    let mut registry = PluginRegistry::new();
    match register_terminators(c, catalog, &res.terminators, &mut registry) {
        Ok(()) => {},
        Err(e) => {
            proof {
                match &e {
                    LoadError::UnknownPlugin { kind, name } => {
                        let k = choose|k: u64| #[trigger] res.terminators@.contains_key(k) && res.terminators@[k].plugin@ == name@;
                        assert(source_in_config(*c, res.terminators@[k]));
                    },
                    LoadError::Plugin { provider, .. } => {
                        let k = choose|k: u64| #[trigger] res.terminators@.contains_key(k) && res.terminators@[k].section@ == provider@;
                        assert(source_in_config(*c, res.terminators@[k]));
                        if exists|i: int| 0 <= i < c.terminators@.len() && #[trigger] c.terminators@[i].0@ == provider@ {
                            let i = choose|i: int| 0 <= i < c.terminators@.len() && #[trigger] c.terminators@[i].0@ == provider@;
                            assert(names_of(c.terminators@)[i] == provider@);
                        } else {
                            let i = choose|i: int| #[trigger] inline_ref(*c, action_refs(*c), i) && action_refs(*c)[i]->0 == provider@;
                            assert(action_refs(*c)[i] == Some(provider@));
                        }
                    },
                    _ => {},
                }
            }
            return Err(e);
        },
    }
    let ghost s = c.sensors@.len();
    let ghost t = c.transformers@.len();
    proof {
        assert(names_of(c.sensors@).len() == s);
        assert(names_of(c.transformers@).len() == t);
        assert(names.len() == s + t + c.hooks@.len());
        assert(registered(*c, terms, registry.kinds(), 0));
        assert forall|k: u64| #[trigger] terms.contains(k) implies exists|src: TerminatorSource| source_in_config(*c, src)
            && provider_id_of(src.section@).0 == k && #[trigger] terminator_built(registry, *catalog, *c, k, src) by {
            assert(res.terminators@.contains_key(k));
            assert(source_in_config(*c, res.terminators@[k]));
            assert(terminator_built(registry, *catalog, *c, k, res.terminators@[k]));
        }
    }
    let mut i: usize = 0;
    while i < c.sensors.len()
        invariant
            i <= c.sensors@.len(),
            s == c.sensors@.len(),
            t == c.transformers@.len(),
            names == node_names(*c),
            names.len() == s + t + c.hooks@.len(),
            terms == terminator_keys(*c),
            compiles(*c),
            registered(*c, terms, registry.kinds(), i as int),
            nodes_built(registry, *catalog, *c, i as int),
            terminators_built(registry, *catalog, *c),
            nodes_known(*c, *catalog, i as int),
            plugins_known(*c, *catalog) ==> forall|q: int| 0 <= q < i ==> has_plugin(*catalog, #[trigger] c.sensors@[q].1.plugin@, NodeKind::Sensor),
        decreases c.sensors.len() - i,
    {
        let ghost before = registry.kinds();
        let ghost before_reg = registry;
        proof {
            assert(names[i as int] == c.sensors@[i as int].0@);
        }
        match register_one(catalog, NodeKind::Sensor, &c.sensors[i].0, &c.sensors[i].1.plugin, &c.sensors[i].1.args,
            &mut registry) {
            Ok(()) => {},
            Err(e) => {
                proof {
                    if e is Registry {
                        lemma_registered_duplicate(*c, before, i as int);
                    }
                    if e is Plugin {
                        assert(names[i as int] == c.sensors@[i as int].0@);
                    }
                    if plugins_known(*c, *catalog) && ids_distinct(*c) {
                        assert(!before.contains_key(provider_id_of(names[i as int]).0));
                    }
                }
                return Err(e);
            },
        }
        proof {
            lemma_registered_step(*c, terms, before, registry.kinds(), i as int);
            lemma_nodes_built_step(*c, *catalog, terms, before_reg, registry, i as int);
            lemma_terminators_kept(before_reg, registry, *catalog, *c);
        }
        i = i + 1;
    }
    let mut i: usize = 0;
    while i < c.transformers.len()
        invariant
            i <= c.transformers@.len(),
            s == c.sensors@.len(),
            t == c.transformers@.len(),
            names == node_names(*c),
            names.len() == s + t + c.hooks@.len(),
            terms == terminator_keys(*c),
            compiles(*c),
            registered(*c, terms, registry.kinds(), s + i),
            nodes_built(registry, *catalog, *c, s + i),
            terminators_built(registry, *catalog, *c),
            nodes_known(*c, *catalog, s + i),
        decreases c.transformers.len() - i,
    {
        let ghost before = registry.kinds();
        let ghost before_reg = registry;
        proof {
            assert(names[s + i] == c.transformers@[i as int].0@);
            assert(kind_at(*c, s + i) == NodeKind::Transformer);
        }
        match register_one(catalog, NodeKind::Transformer, &c.transformers[i].0, &c.transformers[i].1.plugin,
            &c.transformers[i].1.args, &mut registry) {
            Ok(()) => {},
            Err(e) => {
                proof {
                    if e is Registry {
                        lemma_registered_duplicate(*c, before, s + i);
                    }
                    if plugins_known(*c, *catalog) && ids_distinct(*c) {
                        assert(!before.contains_key(provider_id_of(names[s + i]).0));
                    }
                }
                return Err(e);
            },
        }
        proof {
            lemma_registered_step(*c, terms, before, registry.kinds(), s + i);
            lemma_nodes_built_step(*c, *catalog, terms, before_reg, registry, s + i);
            lemma_terminators_kept(before_reg, registry, *catalog, *c);
        }
        i = i + 1;
    }
    let mut i: usize = 0;
    while i < c.hooks.len()
        invariant
            i <= c.hooks@.len(),
            s == c.sensors@.len(),
            t == c.transformers@.len(),
            names == node_names(*c),
            names.len() == s + t + c.hooks@.len(),
            terms == terminator_keys(*c),
            compiles(*c),
            registered(*c, terms, registry.kinds(), s + t + i),
            nodes_built(registry, *catalog, *c, s + t + i),
            terminators_built(registry, *catalog, *c),
            nodes_known(*c, *catalog, s + t + i),
        decreases c.hooks.len() - i,
    {
        let ghost before = registry.kinds();
        let ghost before_reg = registry;
        proof {
            assert(names[s + t + i] == c.hooks@[i as int].0@);
            assert(kind_at(*c, s + t + i) == NodeKind::Hook);
        }
        match register_one(catalog, NodeKind::Hook, &c.hooks[i].0, &c.hooks[i].1.plugin, &c.hooks[i].1.args,
            &mut registry) {
            Ok(()) => {},
            Err(e) => {
                proof {
                    if e is Registry {
                        lemma_registered_duplicate(*c, before, s + t + i);
                    }
                    if plugins_known(*c, *catalog) && ids_distinct(*c) {
                        assert(!before.contains_key(provider_id_of(names[s + t + i]).0));
                    }
                }
                return Err(e);
            },
        }
        proof {
            lemma_registered_step(*c, terms, before, registry.kinds(), s + t + i);
            lemma_nodes_built_step(*c, *catalog, terms, before_reg, registry, s + t + i);
            lemma_terminators_kept(before_reg, registry, *catalog, *c);
        }
        i = i + 1;
    }
    proof {
        lemma_registered_done(*c, registry.kinds());
    }
    Ok(FerrumConfig { rules: res.rules, hooks: res.hooks, entry: res.entry, registry, server: res.server })
}

/// Compiles `c`, which compiles and whose plugins are all in `catalog` under
/// the right kind with no two nodes sharing an id, and builds every plugin it
/// names; fails only when a plugin refuses its arguments (see
/// [`try_build_config`] for any configuration).
pub fn build_config(c: &Config, catalog: &PluginCatalog) -> (r: Result<FerrumConfig, LoadError>)
    requires
        compiles(*c),
        plugins_known(*c, *catalog),
        ids_distinct(*c),
    ensures
        r is Ok || r matches Err(LoadError::Plugin { .. }),
        r matches Ok(cfg) ==> {
            &&& keyed_by_last(cfg.rules@, rule_names(*c), |i: int| compile_rule(*c, c.rules@[i]))
            &&& keyed_by_last(cfg.hooks@, hook_names(*c), |i: int| CompiledHook {
                id: provider_id_of(hook_names(*c)[i]),
                next: resolve_action(*c, opt_view(c.hooks@[i].1.next)),
            })
            &&& cfg.entry == entry_action(*c)
            &&& cfg.server.listen@ == c.server.listen@
            &&& cfg.server.upstream@ == c.server.upstream@
            &&& cfg.server.metrics_listen@ == c.server.metrics_listen@
            &&& registry_matches(*c, cfg.registry.kinds())
            &&& nodes_built(cfg.registry, *catalog, *c, node_names(*c).len() as int)
            &&& terminators_built(cfg.registry, *catalog, *c)
        },
        r matches Err(LoadError::Plugin { provider, .. }) ==> node_names(*c).contains(provider@)
            || names_of(c.terminators@).contains(provider@) || action_refs(*c).contains(Some(provider@)),
{
    try_build_config(c, catalog)
}

} // verus!
