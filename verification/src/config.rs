//! Compilation of the raw configuration into rule, hook and terminator tables
//! keyed by provider id.

pub mod raw;

use std::collections::HashMap;

use vstd::prelude::*;

use crate::provider::{provider_id_of, ProviderId};
use crate::score::Score;
use self::raw::{Config, RuleConfig};

verus! {

broadcast use vstd::std_specs::hash::group_hash_axioms;

/// Action taken when the threshold branch of a rule is followed, or after a hook fires.
#[derive(Clone, Copy, Debug, PartialEq, Eq, Structural)]
pub enum CompiledAction {
    /// Evaluate another rule identified by its [`ProviderId`].
    Rule(ProviderId),
    /// Fire a hook, then continue to the hook's declared `next` action.
    Hook(ProviderId),
    /// Execute the terminator identified by its [`ProviderId`].
    Terminator(ProviderId),
    /// Pass the request to the upstream without any action.
    Pass,
}

/// A single compiled rule ready for evaluation.
#[derive(Clone, Copy, Debug, PartialEq, Eq, Structural)]
pub struct CompiledRule {
    /// Identifier derived from the rule's `id`.
    pub id: ProviderId,
    /// Provider (sensor or transformer) whose score is compared against `threshold`.
    pub input: ProviderId,
    /// The rule fires when `score >= threshold`.
    pub threshold: Score,
    /// Action taken when `score >= threshold`.
    pub if_action: CompiledAction,
    /// Action taken when `score < threshold`.
    pub else_action: CompiledAction,
    /// Whether the rule requires the request body to be buffered.
    pub buffer_body: bool,
}

/// A compiled hook node in the action chain: it fires, then execution continues with `next`.
#[derive(Clone, Copy, Debug, PartialEq, Eq, Structural)]
pub struct CompiledHook {
    /// Identifier derived from the hook name.
    pub id: ProviderId,
    /// Action to take after the hook fires.
    pub next: CompiledAction,
}

/// Network and process settings from the `[server]` section.
#[derive(Debug)]
pub struct ServerConfig {
    /// Address the proxy listens on.
    pub listen: String,
    /// Default upstream to forward requests to.
    pub upstream: String,
    /// Address the metrics server listens on.
    pub metrics_listen: String,
}

impl Default for ServerConfig {
    fn default() -> (r: Self)
        ensures
            r.listen@ == "0.0.0.0:8080"@,
            r.upstream@ == "127.0.0.1:8081"@,
            r.metrics_listen@ == "0.0.0.0:9090"@,
    {
        ServerConfig {
            listen: raw::default_listen(),
            upstream: raw::default_upstream(),
            metrics_listen: raw::default_metrics_listen(),
        }
    }
}

/// Which terminator plugin to build for a terminator id, and from which section.
///
/// `section` names the `[terminators.*]` block whose arguments the plugin gets
/// (an inline terminator, named only by an action, has no such block and is
/// built from its own name).
#[derive(Debug)]
pub struct TerminatorSource {
    /// The section (or inline action name) the terminator comes from.
    pub section: String,
    /// The terminator plugin to build.
    pub plugin: String,
}

/// Everything [`compile_rules`] produces.
#[derive(Debug)]
pub struct CompileResult {
    /// Rules keyed by the id of their name.
    pub rules: HashMap<u64, CompiledRule>,
    /// Hooks keyed by the id of their name.
    pub hooks: HashMap<u64, CompiledHook>,
    /// Terminators to build, keyed by id.
    pub terminators: HashMap<u64, TerminatorSource>,
    /// Provider name and id, for every sensor then every transformer.
    pub provider_ids: Vec<(String, ProviderId)>,
    /// Entry point of the action graph.
    pub entry: CompiledAction,
    /// Server settings.
    pub server: ServerConfig,
}

/// Why a configuration cannot be compiled.
#[derive(Debug, PartialEq, Eq)]
pub enum CompileError {
    /// Neither an `entry` nor any rule is defined.
    MissingEntry,
    /// A provider name is used twice among sensors and transformers.
    DuplicateProvider(String),
    /// A rule's `input` names no sensor or transformer.
    UnknownInput { rule: String, input: String },
}

// ---------------------------------------------------------------------------
// Specification
// ---------------------------------------------------------------------------

/// The view of an optional string.
pub open spec fn opt_view(o: Option<String>) -> Option<Seq<char>> {
    match o {
        Some(s) => Some(s@),
        None => None,
    }
}

/// The names of a list of named blocks.
pub open spec fn names_of<V>(entries: Seq<(String, V)>) -> Seq<Seq<char>> {
    entries.map_values(|e: (String, V)| e.0@)
}

/// Names of all sensors, then all transformers.
pub open spec fn provider_names(c: Config) -> Seq<Seq<char>> {
    names_of(c.sensors@) + names_of(c.transformers@)
}

/// Ids of all rules, in file order.
pub open spec fn rule_names(c: Config) -> Seq<Seq<char>> {
    c.rules@.map_values(|r: RuleConfig| r.id@)
}

/// Names of all hooks.
pub open spec fn hook_names(c: Config) -> Seq<Seq<char>> {
    names_of(c.hooks@)
}

/// Whether an action name refers to a terminator: it names neither a rule nor a hook.
pub open spec fn names_terminator(c: Config, n: Seq<char>) -> bool {
    !rule_names(c).contains(n) && !hook_names(c).contains(n)
}

/// What an action name resolves to: a rule id first, then a hook name, and
/// otherwise a terminator (named in `[terminators.*]` or built inline from the
/// name itself); no name means `Pass`.
pub open spec fn resolve_action(c: Config, a: Option<Seq<char>>) -> CompiledAction {
    match a {
        None => CompiledAction::Pass,
        Some(n) => if rule_names(c).contains(n) {
            CompiledAction::Rule(provider_id_of(n))
        } else if hook_names(c).contains(n) {
            CompiledAction::Hook(provider_id_of(n))
        } else {
            CompiledAction::Terminator(provider_id_of(n))
        },
    }
}

/// The compiled form of a rule.
pub open spec fn compile_rule(c: Config, r: RuleConfig) -> CompiledRule {
    CompiledRule {
        id: provider_id_of(r.id@),
        input: provider_id_of(r.input@),
        threshold: r.threshold,
        if_action: resolve_action(c, opt_view(r.if_action)),
        else_action: resolve_action(c, opt_view(r.else_action)),
        buffer_body: r.buffer_body,
    }
}

/// `names[i]` is the last name with its id.
pub open spec fn last_with_id(names: Seq<Seq<char>>, i: int) -> bool {
    0 <= i < names.len() && forall|j: int|
        i < j < names.len() ==> provider_id_of(names[j]) != provider_id_of(names[i])
}

/// The key set of names' ids.
pub open spec fn id_keys(names: Seq<Seq<char>>) -> Set<u64> {
    Set::new(|k: u64| exists|i: int| 0 <= i < names.len() && provider_id_of(names[i]).0 == k)
}

/// `table` maps the id of every name in `names` (the last name with that id
/// deciding) to `val(i)`, and holds nothing else.
pub open spec fn keyed_by_last<V>(table: Map<u64, V>, names: Seq<Seq<char>>, val: spec_fn(int) -> V) -> bool {
    &&& table.dom() == id_keys(names)
    &&& forall|i: int| #[trigger] last_with_id(names, i) ==> table[provider_id_of(names[i]).0] == val(i)
}

/// The action names that compilation resolves, in order: every hook's `next`,
/// then every rule's `if_action` and `else_action`, then the entry.
pub open spec fn rule_refs(rules: Seq<RuleConfig>) -> Seq<Option<Seq<char>>>
    decreases rules.len(),
{
    if rules.len() == 0 {
        Seq::empty()
    } else {
        rule_refs(rules.drop_last()) + seq![opt_view(rules.last().if_action), opt_view(rules.last().else_action)]
    }
}

/// Hook `next` names, in list order.
pub open spec fn hook_refs(c: Config) -> Seq<Option<Seq<char>>> {
    c.hooks@.map_values(|h: (String, raw::HookConfig)| opt_view(h.1.next))
}

/// All action names resolved by compilation.
pub open spec fn action_refs(c: Config) -> Seq<Option<Seq<char>>> {
    hook_refs(c) + rule_refs(c.rules@) + seq![opt_view(c.entry)]
}

/// `refs[i]` names a terminator that no `[terminators.*]` block defines inline.
pub open spec fn inline_ref(c: Config, refs: Seq<Option<Seq<char>>>, i: int) -> bool {
    0 <= i < refs.len() && refs[i] is Some && names_terminator(c, refs[i]->0)
}

/// The terminator table built from the `[terminators.*]` blocks and the
/// inline terminator names among `refs`.
pub open spec fn terminators_ok(c: Config, m: Map<u64, TerminatorSource>, refs: Seq<Option<Seq<char>>>) -> bool {
    let named = names_of(c.terminators@);
    &&& forall|k: u64| #[trigger] m.contains_key(k) <==> (id_keys(named).contains(k) || exists|i: int|
        inline_ref(c, refs, i) && provider_id_of(refs[i]->0).0 == k)
    &&& forall|i: int| #[trigger] last_with_id(named, i) ==> {
        &&& m[provider_id_of(named[i]).0].section@ == named[i]
        &&& m[provider_id_of(named[i]).0].plugin@ == c.terminators@[i].1.plugin@
    }
    &&& forall|k: u64| #[trigger] m.contains_key(k) && !id_keys(named).contains(k) ==> exists|i: int|
        inline_ref(c, refs, i) && provider_id_of(refs[i]->0).0 == k && m[k].section@ == refs[i]->0
            && m[k].plugin@ == refs[i]->0
}

/// The entry point: the named action, or the first rule.
pub open spec fn entry_action(c: Config) -> CompiledAction {
    match c.entry {
        Some(n) => resolve_action(c, Some(n@)),
        None => CompiledAction::Rule(provider_id_of(c.rules@[0].id@)),
    }
}

/// The first rule whose input is not a provider, if any.
pub open spec fn first_unknown_input(c: Config, i: int) -> bool {
    0 <= i < c.rules@.len() && !provider_names(c).contains(c.rules@[i].input@) && forall|j: int|
        0 <= j < i ==> provider_names(c).contains(c.rules@[j].input@)
}

// ---------------------------------------------------------------------------
// Implementation
// ---------------------------------------------------------------------------

fn name_in_entries<V>(entries: &Vec<(String, V)>, n: &String) -> (r: bool)
    ensures
        r == names_of(entries@).contains(n@),
{
    let mut i: usize = 0;
    while i < entries.len()
        invariant
            i <= entries.len(),
            forall|j: int| 0 <= j < i ==> entries@[j].0@ != n@,
        decreases entries.len() - i,
    {
        if entries[i].0 == *n {
            proof {
                assert(names_of(entries@)[i as int] == n@);
            }
            return true;
        }
        i = i + 1;
    }
    proof {
        if names_of(entries@).contains(n@) {
            let k = choose|k: int| 0 <= k < names_of(entries@).len() && names_of(entries@)[k] == n@;
            assert(entries@[k].0@ == n@);
        }
    }
    false
}

fn name_in_rules(rules: &Vec<RuleConfig>, n: &String) -> (r: bool)
    ensures
        r == rules@.map_values(|r: RuleConfig| r.id@).contains(n@),
{
    let mut i: usize = 0;
    while i < rules.len()
        invariant
            i <= rules.len(),
            forall|j: int| 0 <= j < i ==> rules@[j].id@ != n@,
        decreases rules.len() - i,
    {
        if rules[i].id == *n {
            proof {
                assert(rules@.map_values(|r: RuleConfig| r.id@)[i as int] == n@);
            }
            return true;
        }
        i = i + 1;
    }
    proof {
        let ids = rules@.map_values(|r: RuleConfig| r.id@);
        if ids.contains(n@) {
            let k = choose|k: int| 0 <= k < ids.len() && ids[k] == n@;
            assert(rules@[k].id@ == n@);
        }
    }
    false
}

fn is_provider(c: &Config, n: &String) -> (r: bool)
    ensures
        r == provider_names(*c).contains(n@),
{
    let a = name_in_entries(&c.sensors, n);
    let b = name_in_entries(&c.transformers, n);
    proof {
        let s = names_of(c.sensors@);
        let t = names_of(c.transformers@);
        if a {
            let k = choose|k: int| 0 <= k < s.len() && s[k] == n@;
            assert((s + t)[k] == n@);
        }
        if b {
            let k = choose|k: int| 0 <= k < t.len() && t[k] == n@;
            assert((s + t)[s.len() + k] == n@);
        }
        if (s + t).contains(n@) {
            let k = choose|k: int| 0 <= k < (s + t).len() && (s + t)[k] == n@;
            if k < s.len() {
                assert(s[k] == n@);
            } else {
                assert(t[k - s.len()] == n@);
            }
        }
    }
    a || b
}

/// Resolves one action name, registering an inline terminator when needed.
fn resolve(
    c: &Config,
    action: &Option<String>,
    terminators: &mut HashMap<u64, TerminatorSource>,
    Ghost(refs): Ghost<Seq<Option<Seq<char>>>>,
) -> (r: CompiledAction)
    requires
        terminators_ok(*c, old(terminators)@, refs),
    ensures
        r == resolve_action(*c, opt_view(*action)),
        terminators_ok(*c, final(terminators)@, refs.push(opt_view(*action))),
{
    let ghost new_refs = refs.push(opt_view(*action));
    proof {
        assert forall|i: int| inline_ref(*c, refs, i) implies inline_ref(*c, new_refs, i) by {
            assert(new_refs[i] == refs[i]);
        }
        assert forall|i: int| 0 <= i < refs.len() && inline_ref(*c, new_refs, i) implies inline_ref(*c, refs, i) by {
            assert(new_refs[i] == refs[i]);
        }
    }
    match action {
        None => {
            proof {
                assert(!inline_ref(*c, new_refs, refs.len() as int));
            }
            CompiledAction::Pass
        },
        Some(name) => {
            if name_in_rules(&c.rules, name) {
                proof {
                    assert(!inline_ref(*c, new_refs, refs.len() as int));
                }
                return CompiledAction::Rule(ProviderId::from_name(name.as_str()));
            }
            if name_in_entries(&c.hooks, name) {
                proof {
                    assert(!inline_ref(*c, new_refs, refs.len() as int));
                }
                return CompiledAction::Hook(ProviderId::from_name(name.as_str()));
            }
            let id = ProviderId::from_name(name.as_str());
            proof {
                assert(inline_ref(*c, new_refs, refs.len() as int));
            }
            if !terminators.contains_key(&id.0) {
                let src = TerminatorSource { section: name.clone(), plugin: name.clone() };
                terminators.insert(id.0, src);
                proof {
                    let named = names_of(c.terminators@);
                    assert(!id_keys(named).contains(id.0));
                    assert forall|i: int| #[trigger] last_with_id(named, i) implies
                        provider_id_of(named[i]).0 != id.0 by {
                        assert(id_keys(named).contains(provider_id_of(named[i]).0));
                    }
                }
            }
            CompiledAction::Terminator(id)
        },
    }
}

/// Appends `(name, id)` unless `name` is already listed; `false` on a repeat.
#[verifier::loop_isolation(false)]
fn add_provider(
    provider_ids: &mut Vec<(String, ProviderId)>,
    name: &String,
    Ghost(names): Ghost<Seq<Seq<char>>>,
) -> (added: bool)
    requires
        old(provider_ids)@.len() < names.len(),
        name@ == names[old(provider_ids)@.len() as int],
        forall|j: int| 0 <= j < old(provider_ids)@.len() ==> (#[trigger] old(provider_ids)@[j]).0@ == names[j],
    ensures
        added <==> forall|j: int| 0 <= j < old(provider_ids)@.len() ==> names[j] != name@,
        added ==> final(provider_ids)@ == old(provider_ids)@.push((*name, provider_id_of(name@))),
        !added ==> !names.no_duplicates(),
{
    let n = provider_ids.len();
    let mut j: usize = 0;
    while j < n
        invariant
            j <= n,
            n == provider_ids@.len(),
            provider_ids@ == old(provider_ids)@,
            forall|m: int| 0 <= m < j ==> names[m] != name@,
        decreases n - j,
    {
        if provider_ids[j].0 == *name {
            proof {
                assert(names[j as int] == names[n as int]);
            }
            return false;
        }
        j = j + 1;
    }
    let id = ProviderId::from_name(name.as_str());
    provider_ids.push((name.clone(), id));
    true
}

/// Compiles the raw config into rule, hook, and terminator tables keyed by
/// provider id, and resolves the entry point, or says why it cannot.
///
/// Fails when neither `entry` nor any rule is defined, when a provider name is
/// used twice among sensors and transformers, or when a rule's input names no
/// provider.  Action names that are neither rules nor hooks denote terminators;
/// those without a `[terminators.*]` block are listed to be built from their own
/// name.
#[verifier::loop_isolation(false)]
pub fn try_compile_rules(c: &Config) -> (res: Result<CompileResult, CompileError>)
    ensures
        (c.entry is None && c.rules@.len() == 0) <==> res == Err::<CompileResult, CompileError>(CompileError::MissingEntry),
        !(c.entry is None && c.rules@.len() == 0) ==> ((res matches Err(CompileError::DuplicateProvider(_))) <==> !provider_names(*c).no_duplicates()),
        res matches Err(CompileError::DuplicateProvider(n)) ==> provider_names(*c).contains(n@),
        res matches Err(CompileError::UnknownInput { rule, input }) ==> exists|i: int| first_unknown_input(*c, i) && rule@ == c.rules@[i].id@ && input@ == c.rules@[i].input@,
        (!(c.entry is None && c.rules@.len() == 0) && provider_names(*c).no_duplicates()) ==> ((res matches Err(CompileError::UnknownInput { .. })) <==> exists|i: int| first_unknown_input(*c, i)),
        res is Ok <==> (!(c.entry is None && c.rules@.len() == 0) && provider_names(*c).no_duplicates()
            && forall|i: int| 0 <= i < c.rules@.len() ==> provider_names(*c).contains(#[trigger] c.rules@[i].input@)),
        res matches Ok(out) ==> {
            &&& out.provider_ids@.len() == provider_names(*c).len()
            &&& forall|i: int| 0 <= i < out.provider_ids@.len() ==> {
                &&& (#[trigger] out.provider_ids@[i]).0@ == provider_names(*c)[i]
                &&& out.provider_ids@[i].1 == provider_id_of(provider_names(*c)[i])
            }
            &&& keyed_by_last(out.rules@, rule_names(*c), |i: int| compile_rule(*c, c.rules@[i]))
            &&& keyed_by_last(out.hooks@, hook_names(*c), |i: int| CompiledHook {
                id: provider_id_of(hook_names(*c)[i]),
                next: resolve_action(*c, opt_view(c.hooks@[i].1.next)),
            })
            &&& terminators_ok(*c, out.terminators@, action_refs(*c))
            &&& out.entry == entry_action(*c)
            &&& out.server.listen@ == c.server.listen@
            &&& out.server.upstream@ == c.server.upstream@
            &&& out.server.metrics_listen@ == c.server.metrics_listen@
        },
{
    if c.entry.is_none() && c.rules.len() == 0 {
        return Err(CompileError::MissingEntry);
    }
    // ── Provider ids, rejecting duplicate names ───────────────────────────────
    let ghost names = provider_names(*c);
    let mut provider_ids: Vec<(String, ProviderId)> = Vec::new();
    let ghost sn = names_of(c.sensors@);
    let mut i: usize = 0;
    while i < c.sensors.len()
        invariant
            i <= c.sensors@.len(),
            sn == names_of(c.sensors@),
            names == sn + names_of(c.transformers@),
            provider_ids@.len() == i,
            forall|j: int| 0 <= j < i ==> {
                &&& (#[trigger] provider_ids@[j]).0@ == names[j]
                &&& provider_ids@[j].1 == provider_id_of(names[j])
            },
            forall|j: int, k: int| 0 <= j < k < i ==> names[j] != names[k],
        decreases c.sensors.len() - i,
    {
        proof {
            assert(names[i as int] == sn[i as int]);
        }
        if !add_provider(&mut provider_ids, &c.sensors[i].0, Ghost(names)) {
            return Err(CompileError::DuplicateProvider(c.sensors[i].0.clone()));
        }
        i = i + 1;
    }
    let ghost tn = names_of(c.transformers@);
    let mut i: usize = 0;
    while i < c.transformers.len()
        invariant
            i <= c.transformers@.len(),
            sn.len() == c.sensors@.len(),
            tn == names_of(c.transformers@),
            names == sn + tn,
            provider_ids@.len() == sn.len() + i,
            forall|j: int| 0 <= j < sn.len() + i ==> {
                &&& (#[trigger] provider_ids@[j]).0@ == names[j]
                &&& provider_ids@[j].1 == provider_id_of(names[j])
            },
            forall|j: int, k: int| 0 <= j < k < sn.len() + i ==> names[j] != names[k],
        decreases c.transformers.len() - i,
    {
        proof {
            assert(names[sn.len() + i] == tn[i as int]);
        }
        if !add_provider(&mut provider_ids, &c.transformers[i].0, Ghost(names)) {
            return Err(CompileError::DuplicateProvider(c.transformers[i].0.clone()));
        }
        i = i + 1;
    }
    proof {
        assert(names.no_duplicates());
    }
    // ── Terminators with their own section ────────────────────────────────────
    let mut terminators: HashMap<u64, TerminatorSource> = HashMap::new();
    let ghost tnames = names_of(c.terminators@);
    let mut i: usize = 0;
    while i < c.terminators.len()
        invariant
            i <= c.terminators@.len(),
            tnames == names_of(c.terminators@),
            forall|k: u64| #[trigger] terminators@.contains_key(k) <==> id_keys(tnames.take(i as int)).contains(k),
            forall|m: int| #[trigger] last_with_id(tnames.take(i as int), m) ==> {
                &&& terminators@[provider_id_of(tnames[m]).0].section@ == tnames[m]
                &&& terminators@[provider_id_of(tnames[m]).0].plugin@ == c.terminators@[m].1.plugin@
            },
        decreases c.terminators.len() - i,
    {
        let name = &c.terminators[i].0;
        let id = ProviderId::from_name(name.as_str());
        let src = TerminatorSource { section: name.clone(), plugin: c.terminators[i].1.plugin.clone() };
        terminators.insert(id.0, src);
        proof {
            let before = tnames.take(i as int);
            let after = tnames.take(i + 1);
            assert(after[i as int] == name@);
            assert forall|k: u64| #[trigger] terminators@.contains_key(k) <==> id_keys(after).contains(k) by {
                if id_keys(before).contains(k) {
                    let m = choose|m: int| 0 <= m < before.len() && provider_id_of(before[m]).0 == k;
                    assert(after[m] == before[m]);
                }
                if id_keys(after).contains(k) {
                    let m = choose|m: int| 0 <= m < after.len() && provider_id_of(after[m]).0 == k;
                    if m < i {
                        assert(after[m] == before[m]);
                        assert(id_keys(before).contains(k));
                    }
                }
            }
            assert forall|m: int| #[trigger] last_with_id(after, m) implies {
                &&& terminators@[provider_id_of(tnames[m]).0].section@ == tnames[m]
                &&& terminators@[provider_id_of(tnames[m]).0].plugin@ == c.terminators@[m].1.plugin@
            } by {
                if m < i {
                    assert(provider_id_of(after[i as int]) != provider_id_of(after[m]));
                    assert(last_with_id(before, m)) by {
                        assert forall|j: int| m < j < before.len() implies
                            provider_id_of(before[j]) != provider_id_of(before[m]) by {
                            assert(before[j] == after[j]);
                        }
                    }
                }
            }
        }
        i = i + 1;
    }
    proof {
        assert(tnames.take(tnames.len() as int) =~= tnames);
        assert forall|k: u64| #[trigger] terminators@.contains_key(k) && !id_keys(tnames).contains(k)
            implies false by {}
    }
    // ── Hooks ─────────────────────────────────────────────────────────────────
    let ghost mut refs: Seq<Option<Seq<char>>> = Seq::empty();
    let mut hooks: HashMap<u64, CompiledHook> = HashMap::new();
    let ghost hnames = hook_names(*c);
    let ghost hval = |m: int| CompiledHook {
        id: provider_id_of(hook_names(*c)[m]),
        next: resolve_action(*c, opt_view(c.hooks@[m].1.next)),
    };
    let mut i: usize = 0;
    while i < c.hooks.len()
        invariant
            i <= c.hooks@.len(),
            hnames == hook_names(*c),
            hval == (|m: int| CompiledHook {
                id: provider_id_of(hook_names(*c)[m]),
                next: resolve_action(*c, opt_view(c.hooks@[m].1.next)),
            }),
            refs == hook_refs(*c).take(i as int),
            terminators_ok(*c, terminators@, refs),
            forall|k: u64| #[trigger] hooks@.contains_key(k) <==> id_keys(hnames.take(i as int)).contains(k),
            forall|m: int| #[trigger] last_with_id(hnames.take(i as int), m) ==> hooks@[provider_id_of(hnames[m]).0] == hval(m),
        decreases c.hooks.len() - i,
    {
        let name = &c.hooks[i].0;
        let id = ProviderId::from_name(name.as_str());
        let next = resolve(c, &c.hooks[i].1.next, &mut terminators, Ghost(refs));
        proof {
            refs = refs.push(opt_view(c.hooks@[i as int].1.next));
            assert(refs =~= hook_refs(*c).take(i + 1));
        }
        hooks.insert(id.0, CompiledHook { id, next });
        proof {
            let before = hnames.take(i as int);
            let after = hnames.take(i + 1);
            assert(after[i as int] == name@);
            assert(hval(i as int) == CompiledHook { id, next });
            assert forall|k: u64| #[trigger] hooks@.contains_key(k) <==> id_keys(after).contains(k) by {
                if id_keys(before).contains(k) {
                    let m = choose|m: int| 0 <= m < before.len() && provider_id_of(before[m]).0 == k;
                    assert(after[m] == before[m]);
                }
                if id_keys(after).contains(k) {
                    let m = choose|m: int| 0 <= m < after.len() && provider_id_of(after[m]).0 == k;
                    if m < i {
                        assert(after[m] == before[m]);
                        assert(id_keys(before).contains(k));
                    }
                }
            }
            assert forall|m: int| #[trigger] last_with_id(after, m) implies hooks@[provider_id_of(hnames[m]).0] == hval(m) by {
                if m < i {
                    assert(provider_id_of(after[i as int]) != provider_id_of(after[m]));
                    assert(last_with_id(before, m)) by {
                        assert forall|j: int| m < j < before.len() implies
                            provider_id_of(before[j]) != provider_id_of(before[m]) by {
                            assert(before[j] == after[j]);
                        }
                    }
                }
            }
        }
        i = i + 1;
    }
    proof {
        assert(hnames.take(hnames.len() as int) =~= hnames);
        assert(hooks@.dom() =~= id_keys(hnames));
        assert(hook_refs(*c).take(c.hooks@.len() as int) =~= hook_refs(*c));
    }
    // ── Rules ─────────────────────────────────────────────────────────────────
    let mut rules: HashMap<u64, CompiledRule> = HashMap::new();
    let ghost rnames = rule_names(*c);
    let ghost rval = |m: int| compile_rule(*c, c.rules@[m]);
    let ghost hrefs = refs;
    let mut i: usize = 0;
    while i < c.rules.len()
        invariant
            i <= c.rules@.len(),
            rnames == rule_names(*c),
            rval == (|m: int| compile_rule(*c, c.rules@[m])),
            hrefs == hook_refs(*c),
            refs == hrefs + rule_refs(c.rules@.take(i as int)),
            terminators_ok(*c, terminators@, refs),
            names == provider_names(*c),
            forall|m: int| 0 <= m < i ==> names.contains(#[trigger] c.rules@[m].input@),
            forall|k: u64| #[trigger] rules@.contains_key(k) <==> id_keys(rnames.take(i as int)).contains(k),
            forall|m: int| #[trigger] last_with_id(rnames.take(i as int), m) ==> rules@[provider_id_of(rnames[m]).0] == rval(m),
        decreases c.rules.len() - i,
    {
        let r = &c.rules[i];
        let id = ProviderId::from_name(r.id.as_str());
        if !is_provider(c, &r.input) {
            proof {
                assert(first_unknown_input(*c, i as int));
            }
            return Err(CompileError::UnknownInput { rule: r.id.clone(), input: r.input.clone() });
        }
        let input = ProviderId::from_name(r.input.as_str());
        let if_action = resolve(c, &r.if_action, &mut terminators, Ghost(refs));
        proof {
            refs = refs.push(opt_view(r.if_action));
        }
        let else_action = resolve(c, &r.else_action, &mut terminators, Ghost(refs));
        proof {
            refs = refs.push(opt_view(r.else_action));
            let t = c.rules@.take(i + 1);
            assert(t.drop_last() =~= c.rules@.take(i as int));
            assert(t.last() == c.rules@[i as int]);
            assert(rule_refs(t) == rule_refs(c.rules@.take(i as int)) + seq![opt_view(r.if_action), opt_view(r.else_action)]);
            assert(refs =~= hrefs + rule_refs(t));
        }
        let cr = CompiledRule {
            id,
            input,
            threshold: r.threshold,
            if_action,
            else_action,
            buffer_body: r.buffer_body,
        };
        rules.insert(id.0, cr);
        proof {
            let before = rnames.take(i as int);
            let after = rnames.take(i + 1);
            assert(after[i as int] == r.id@);
            assert(rval(i as int) == cr);
            assert forall|k: u64| #[trigger] rules@.contains_key(k) <==> id_keys(after).contains(k) by {
                if id_keys(before).contains(k) {
                    let m = choose|m: int| 0 <= m < before.len() && provider_id_of(before[m]).0 == k;
                    assert(after[m] == before[m]);
                }
                if id_keys(after).contains(k) {
                    let m = choose|m: int| 0 <= m < after.len() && provider_id_of(after[m]).0 == k;
                    if m < i {
                        assert(after[m] == before[m]);
                        assert(id_keys(before).contains(k));
                    }
                }
            }
            assert forall|m: int| #[trigger] last_with_id(after, m) implies rules@[provider_id_of(rnames[m]).0] == rval(m) by {
                if m < i {
                    assert(provider_id_of(after[i as int]) != provider_id_of(after[m]));
                    assert(last_with_id(before, m)) by {
                        assert forall|j: int| m < j < before.len() implies
                            provider_id_of(before[j]) != provider_id_of(before[m]) by {
                            assert(before[j] == after[j]);
                        }
                    }
                }
            }
        }
        i = i + 1;
    }
    proof {
        assert(rnames.take(rnames.len() as int) =~= rnames);
        assert(rules@.dom() =~= id_keys(rnames));
        assert(c.rules@.take(c.rules@.len() as int) =~= c.rules@);
        assert forall|m: int| 0 <= m < c.rules@.len() implies provider_names(*c).contains(#[trigger] c.rules@[m].input@) by {}
    }
    // ── Entry point ───────────────────────────────────────────────────────────
    let entry = match &c.entry {
        Some(_) => resolve(c, &c.entry, &mut terminators, Ghost(refs)),
        None => CompiledAction::Rule(ProviderId::from_name(c.rules[0].id.as_str())),
    };
    proof {
        if c.entry is None {
            assert(terminators_ok(*c, terminators@, refs.push(opt_view(c.entry)))) by {
                let nr = refs.push(opt_view(c.entry));
                assert forall|i: int| inline_ref(*c, nr, i) <==> inline_ref(*c, refs, i) by {
                    if 0 <= i < refs.len() {
                        assert(nr[i] == refs[i]);
                    }
                }
            }
        }
        refs = refs.push(opt_view(c.entry));
        assert(refs =~= action_refs(*c));
    }
    let server = ServerConfig {
        listen: c.server.listen.clone(),
        upstream: c.server.upstream.clone(),
        metrics_listen: c.server.metrics_listen.clone(),
    };
    Ok(CompileResult { rules, hooks, terminators, provider_ids, entry, server })
}

/// Among names sharing an id, one is the last with it.
pub(crate) proof fn lemma_some_last_with_id(names: Seq<Seq<char>>, k: u64, i: int)
    requires
        0 <= i < names.len(),
        provider_id_of(names[i]).0 == k,
    ensures
        exists|j: int| #[trigger] last_with_id(names, j) && provider_id_of(names[j]).0 == k,
    decreases names.len() - i,
{
    if !last_with_id(names, i) {
        let j = choose|j: int| i < j < names.len() && provider_id_of(names[j]) == provider_id_of(names[i]);
        lemma_some_last_with_id(names, k, j);
    }
}

/// `out` is what compiling `c` gives (see [`compile_rules`]).
pub open spec fn compiled(c: Config, out: CompileResult) -> bool {
    &&& out.provider_ids@.len() == provider_names(c).len()
    &&& forall|i: int| 0 <= i < out.provider_ids@.len() ==> {
        &&& (#[trigger] out.provider_ids@[i]).0@ == provider_names(c)[i]
        &&& out.provider_ids@[i].1 == provider_id_of(provider_names(c)[i])
    }
    &&& keyed_by_last(out.rules@, rule_names(c), |i: int| compile_rule(c, c.rules@[i]))
    &&& keyed_by_last(out.hooks@, hook_names(c), (|i: int| CompiledHook {
        id: provider_id_of(hook_names(c)[i]),
        next: resolve_action(c, opt_view(c.hooks@[i].1.next)),
    }))
    &&& terminators_ok(c, out.terminators@, action_refs(c))
    &&& out.entry == entry_action(c)
}

/// `a` leads to something the compiled configuration holds: a rule, a hook,
/// a terminator to build, or `Pass`.
pub open spec fn resolves(out: CompileResult, a: CompiledAction) -> bool {
    match a {
        CompiledAction::Pass => true,
        CompiledAction::Rule(id) => out.rules@.contains_key(id.0),
        CompiledAction::Hook(id) => out.hooks@.contains_key(id.0),
        CompiledAction::Terminator(id) => out.terminators@.contains_key(id.0),
    }
}

proof fn lemma_rule_refs_index(rules: Seq<RuleConfig>, i: int)
    requires
        0 <= i < rules.len(),
    ensures
        rule_refs(rules).len() == 2 * rules.len(),
        rule_refs(rules)[2 * i] == opt_view(rules[i].if_action),
        rule_refs(rules)[2 * i + 1] == opt_view(rules[i].else_action),
    decreases rules.len(),
{
    let prev = rules.drop_last();
    lemma_rule_refs_len(prev);
    if i < rules.len() - 1 {
        lemma_rule_refs_index(prev, i);
        assert(prev[i] == rules[i]);
    }
}

proof fn lemma_rule_refs_len(rules: Seq<RuleConfig>)
    ensures
        rule_refs(rules).len() == 2 * rules.len(),
    decreases rules.len(),
{
    if rules.len() > 0 {
        lemma_rule_refs_len(rules.drop_last());
    }
}

proof fn lemma_ref_resolves(c: Config, out: CompileResult, j: int)
    requires
        compiled(c, out),
        0 <= j < action_refs(c).len(),
    ensures
        resolves(out, resolve_action(c, action_refs(c)[j])),
{
    let refs = action_refs(c);
    match refs[j] {
        None => {},
        Some(n) => {
            if rule_names(c).contains(n) {
                let i = choose|i: int| 0 <= i < rule_names(c).len() && rule_names(c)[i] == n;
                assert(id_keys(rule_names(c)).contains(provider_id_of(n).0));
            } else if hook_names(c).contains(n) {
                let i = choose|i: int| 0 <= i < hook_names(c).len() && hook_names(c)[i] == n;
                assert(id_keys(hook_names(c)).contains(provider_id_of(n).0));
            } else {
                assert(inline_ref(c, refs, j));
            }
        },
    }
}

/// Every reference in a compiled configuration resolves: the entry, each
/// hook's `next` and each rule's `if_action` and `else_action` lead to a
/// compiled rule, a compiled hook, a terminator to build, or `Pass`; and each
/// rule's input is the id of a sensor or transformer.
pub proof fn lemma_references_resolve(c: Config, out: CompileResult)
    requires
        compiled(c, out),
        !(c.entry is None && c.rules@.len() == 0),
        forall|i: int| 0 <= i < c.rules@.len() ==> provider_names(c).contains(#[trigger] c.rules@[i].input@),
    ensures
        resolves(out, out.entry),
        forall|k: u64| #[trigger] out.hooks@.contains_key(k) ==> resolves(out, out.hooks@[k].next),
        forall|k: u64| #[trigger] out.rules@.contains_key(k) ==> {
            &&& resolves(out, out.rules@[k].if_action)
            &&& resolves(out, out.rules@[k].else_action)
            &&& exists|p: int| 0 <= p < out.provider_ids@.len() && #[trigger] out.provider_ids@[p].1 == out.rules@[k].input
        },
{
    let refs = action_refs(c);
    let nh = hook_refs(c).len() as int;
    let nr = rule_refs(c.rules@).len() as int;
    assert(refs.len() == nh + nr + 1);
    match c.entry {
        Some(n) => {
            assert(refs[nh + nr] == Some(n@));
            lemma_ref_resolves(c, out, nh + nr);
        },
        None => {
            assert(rule_names(c)[0] == c.rules@[0].id@);
            assert(id_keys(rule_names(c)).contains(provider_id_of(c.rules@[0].id@).0));
        },
    }
    assert forall|k: u64| #[trigger] out.hooks@.contains_key(k) implies resolves(out, out.hooks@[k].next) by {
        let names = hook_names(c);
        let i0 = choose|i: int| 0 <= i < names.len() && provider_id_of(names[i]).0 == k;
        lemma_some_last_with_id(names, k, i0);
        let i = choose|i: int| #[trigger] last_with_id(names, i) && provider_id_of(names[i]).0 == k;
        assert(refs[i] == opt_view(c.hooks@[i].1.next));
        lemma_ref_resolves(c, out, i);
    }
    assert forall|k: u64| #[trigger] out.rules@.contains_key(k) implies {
        &&& resolves(out, out.rules@[k].if_action)
        &&& resolves(out, out.rules@[k].else_action)
        &&& exists|p: int| 0 <= p < out.provider_ids@.len() && #[trigger] out.provider_ids@[p].1 == out.rules@[k].input
    } by {
        let names = rule_names(c);
        let i0 = choose|i: int| 0 <= i < names.len() && provider_id_of(names[i]).0 == k;
        lemma_some_last_with_id(names, k, i0);
        let i = choose|i: int| #[trigger] last_with_id(names, i) && provider_id_of(names[i]).0 == k;
        lemma_rule_refs_index(c.rules@, i);
        assert(refs[nh + 2 * i] == opt_view(c.rules@[i].if_action));
        assert(refs[nh + 2 * i + 1] == opt_view(c.rules@[i].else_action));
        lemma_ref_resolves(c, out, nh + 2 * i);
        lemma_ref_resolves(c, out, nh + 2 * i + 1);
        let input = c.rules@[i].input@;
        assert(provider_names(c).contains(input));
        let p = choose|p: int| 0 <= p < provider_names(c).len() && provider_names(c)[p] == input;
        assert(out.provider_ids@[p].1 == out.rules@[k].input);
    }
}

/// Compiles a raw config that has an entry point or a rule, no provider name
/// twice among sensors and transformers, and no rule input that names no
/// provider (see [`try_compile_rules`] for any config).
pub fn compile_rules(c: &Config) -> (out: CompileResult)
    requires
        !(c.entry is None && c.rules@.len() == 0),
        provider_names(*c).no_duplicates(),
        forall|i: int| 0 <= i < c.rules@.len() ==> provider_names(*c).contains(#[trigger] c.rules@[i].input@),
    ensures
        out.provider_ids@.len() == provider_names(*c).len(),
        forall|i: int| 0 <= i < out.provider_ids@.len() ==> {
            &&& (#[trigger] out.provider_ids@[i]).0@ == provider_names(*c)[i]
            &&& out.provider_ids@[i].1 == provider_id_of(provider_names(*c)[i])
        },
        keyed_by_last(out.rules@, rule_names(*c), |i: int| compile_rule(*c, c.rules@[i])),
        keyed_by_last(out.hooks@, hook_names(*c), (|i: int| CompiledHook {
            id: provider_id_of(hook_names(*c)[i]),
            next: resolve_action(*c, opt_view(c.hooks@[i].1.next)),
        })),
        terminators_ok(*c, out.terminators@, action_refs(*c)),
        out.entry == entry_action(*c),
        out.server.listen@ == c.server.listen@,
        out.server.upstream@ == c.server.upstream@,
        out.server.metrics_listen@ == c.server.metrics_listen@,
        compiled(*c, out),
{
    match try_compile_rules(c) {
        Ok(out) => out,
        Err(_) => vstd::pervasive::unreached(),
    }
}

} // verus!
