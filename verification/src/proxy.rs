//! What the proxy decides for a request: the walk through the action graph,
//! and the buffering of request bodies for rules that need them.

use std::collections::HashMap;

use vstd::prelude::*;

use crate::config::{CompiledAction, CompiledHook, CompiledRule};
use crate::engine::{consistent, engine_failure, evaluate, extends, EngineError};
use crate::loader::FerrumConfig;
use crate::plugin::TerminatorAction;
use crate::provider::ProviderId;
use crate::registry::PluginRegistry;
use crate::request::RequestContext;
use crate::score::Score;

verus! {

broadcast use vstd::std_specs::hash::group_hash_axioms;

/// Largest request body, in bytes, that is buffered for body sensors (256 KiB).
pub const BODY_LIMIT: usize = 262144;

/// One node visited on the way through the action graph.
#[derive(Debug, Clone, Copy, PartialEq, Eq, Structural)]
pub enum Step {
    /// A rule was evaluated: its input scored `score`, and it `fired` when the
    /// score reached the threshold.
    Rule { id: ProviderId, score: Score, fired: bool },
    /// A hook fired.
    Hook(ProviderId),
}

/// How the walk ended.
#[derive(Debug, PartialEq, Eq)]
pub enum Verdict {
    /// The graph ended in `Pass`: the request goes to the upstream.
    Pass,
    /// The graph ended in a terminator, which decided `action`.
    Terminate { terminator: ProviderId, action: TerminatorAction },
}

/// The nodes visited, in order, and how the walk ended.
#[derive(Debug)]
pub struct Walk {
    /// Visited rules and hooks.
    pub steps: Vec<Step>,
    /// The end of the walk.
    pub verdict: Verdict,
}

/// Why a walk cannot be completed.
#[derive(Debug, Clone, Copy, PartialEq, Eq, Structural)]
pub enum WalkError {
    /// An action names a rule that is not compiled.
    UnknownRule(ProviderId),
    /// An action names a hook that is not compiled or not registered.
    UnknownHook(ProviderId),
    /// An action names a terminator that is not registered.
    UnknownTerminator(ProviderId),
    /// A rule's input cannot be evaluated.
    Engine(EngineError),
    /// The walk came back to a node it had visited, so it would never end.
    Cycle(CompiledAction),
}

// ---------------------------------------------------------------------------
// Specification
// ---------------------------------------------------------------------------

/// The action that visits node `s`.
pub open spec fn step_action(s: Step) -> CompiledAction {
    match s {
        Step::Rule { id, .. } => CompiledAction::Rule(id),
        Step::Hook(id) => CompiledAction::Hook(id),
    }
}

/// `s` is a correct visit: a compiled rule that fired exactly when its score
/// reached the threshold, or a compiled hook.
pub open spec fn step_ok(rules: Map<u64, CompiledRule>, hooks: Map<u64, CompiledHook>, s: Step) -> bool {
    match s {
        Step::Rule { id, score, fired } => rules.contains_key(id.0) && fired == (score.0 >= rules[id.0].threshold.0),
        Step::Hook(id) => hooks.contains_key(id.0),
    }
}

/// The action after visiting `s`: the rule's `if_action` when it fired and its
/// `else_action` otherwise, or the hook's `next`.
pub open spec fn next_action(rules: Map<u64, CompiledRule>, hooks: Map<u64, CompiledHook>, s: Step) -> CompiledAction {
    match s {
        Step::Rule { id, fired, .. } => if fired { rules[id.0].if_action } else { rules[id.0].else_action },
        Step::Hook(id) => hooks[id.0].next,
    }
}

/// Starting at action `a` and visiting `steps` in order leads to action `b`.
pub open spec fn reaches(
    rules: Map<u64, CompiledRule>,
    hooks: Map<u64, CompiledHook>,
    a: CompiledAction,
    steps: Seq<Step>,
    b: CompiledAction,
) -> bool
    decreases steps.len(),
{
    if steps.len() == 0 {
        a == b
    } else {
        &&& reaches(rules, hooks, a, steps.drop_last(), step_action(steps.last()))
        &&& step_ok(rules, hooks, steps.last())
        &&& b == next_action(rules, hooks, steps.last())
    }
}

/// Some walk from `a` leads to action `b`.
pub open spec fn reached(rules: Map<u64, CompiledRule>, hooks: Map<u64, CompiledHook>, a: CompiledAction, b: CompiledAction) -> bool {
    exists|steps: Seq<Step>| #[trigger] reaches(rules, hooks, a, steps, b)
}

/// The most rules and hooks a walk visits before it is taken to run in a
/// cycle: one more than there are rules and hooks (saturating).
pub open spec fn visit_limit(rules: nat, hooks: nat) -> nat {
    if rules + hooks + 1 > usize::MAX { usize::MAX as nat } else { rules + hooks + 1 }
}

/// The action a verdict ends on.
pub open spec fn verdict_action(v: Verdict) -> CompiledAction {
    match v {
        Verdict::Pass => CompiledAction::Pass,
        Verdict::Terminate { terminator, .. } => CompiledAction::Terminator(terminator),
    }
}

/// Every visited rule's score is the cached score of its input.
pub open spec fn scores_cached(rules: Map<u64, CompiledRule>, steps: Seq<Step>, cache: Map<u64, Score>) -> bool {
    forall|i: int| 0 <= i < steps.len() ==> (#[trigger] steps[i] matches Step::Rule { id, score, .. }
        ==> cache.contains_key(rules[id.0].input.0) && cache[rules[id.0].input.0] == score)
}

/// The score of the last visited rule, or `default` when no rule was visited.
pub open spec fn last_rule_score(steps: Seq<Step>, default: Score) -> Score
    decreases steps.len(),
{
    if steps.len() == 0 {
        default
    } else {
        match steps.last() {
            Step::Rule { score, .. } => score,
            Step::Hook(_) => last_rule_score(steps.drop_last(), default),
        }
    }
}

proof fn lemma_reaches_steps_ok(
    rules: Map<u64, CompiledRule>,
    hooks: Map<u64, CompiledHook>,
    a: CompiledAction,
    steps: Seq<Step>,
    b: CompiledAction,
)
    requires
        reaches(rules, hooks, a, steps, b),
    ensures
        forall|k: int| 0 <= k < steps.len() ==> step_ok(rules, hooks, #[trigger] steps[k]),
    decreases steps.len(),
{
    if steps.len() > 0 {
        let prev = steps.drop_last();
        lemma_reaches_steps_ok(rules, hooks, a, prev, step_action(steps.last()));
        assert forall|k: int| 0 <= k < steps.len() implies step_ok(rules, hooks, #[trigger] steps[k]) by {
            if k < prev.len() {
                assert(steps[k] == prev[k]);
            }
        }
    }
}

/// A walk that visits more rules and hooks than there are visits one of them
/// twice: a walk cut short as a cycle (see [`try_eval_action`]) would never have
/// ended.
pub proof fn lemma_long_walk_revisits(
    rules: Map<u64, CompiledRule>,
    hooks: Map<u64, CompiledHook>,
    a: CompiledAction,
    steps: Seq<Step>,
    b: CompiledAction,
)
    requires
        rules.dom().finite(),
        hooks.dom().finite(),
        reaches(rules, hooks, a, steps, b),
        steps.len() > rules.len() + hooks.len(),
    ensures
        exists|i: int, j: int| 0 <= i < j < steps.len() && #[trigger] step_action(steps[i]) == #[trigger] step_action(
            steps[j],
        ),
{
    lemma_reaches_steps_ok(rules, hooks, a, steps, b);
    let acts = steps.map_values(|s: Step| step_action(s));
    if !(exists|i: int, j: int| 0 <= i < j < steps.len() && #[trigger] step_action(steps[i]) == #[trigger] step_action(
        steps[j],
    )) {
        assert(acts.no_duplicates()) by {
            assert forall|i: int, j: int| 0 <= i < acts.len() && 0 <= j < acts.len() && i != j implies acts[i] != acts[j] by {
                if i < j {
                    assert(!(step_action(steps[i]) == step_action(steps[j])));
                } else {
                    assert(!(step_action(steps[j]) == step_action(steps[i])));
                }
            }
        }
        acts.unique_seq_to_set();
        let fr = |k: u64| CompiledAction::Rule(ProviderId(k));
        let fh = |k: u64| CompiledAction::Hook(ProviderId(k));
        let ur = rules.dom().map(fr);
        let uh = hooks.dom().map(fh);
        vstd::set_lib::lemma_map_size_bound(rules.dom(), ur, fr);
        vstd::set_lib::lemma_map_size_bound(hooks.dom(), uh, fh);
        vstd::set_lib::lemma_len_union(ur, uh);
        assert(acts.to_set().subset_of(ur.union(uh))) by {
            assert forall|x: CompiledAction| acts.to_set().contains(x) implies ur.union(uh).contains(x) by {
                let k = choose|k: int| 0 <= k < acts.len() && acts[k] == x;
                assert(step_ok(rules, hooks, steps[k]));
                match steps[k] {
                    Step::Rule { id, .. } => {
                        assert(rules.dom().contains(id.0));
                        assert(fr(id.0) == x);
                        assert(ur.contains(x));
                    },
                    Step::Hook(id) => {
                        assert(hooks.dom().contains(id.0));
                        assert(fh(id.0) == x);
                        assert(uh.contains(x));
                    },
                }
            }
        }
        vstd::set_lib::lemma_len_subset(acts.to_set(), ur.union(uh));
        assert(false);
    }
}

// ---------------------------------------------------------------------------
// The walk
// ---------------------------------------------------------------------------

/// Walks the action graph from `action`.
///
/// A rule evaluates its input (memoised in `ctx.cache`), stores the score in
/// `ctx.current_score`, and continues with `if_action` when the score reaches
/// the threshold and with `else_action` otherwise.  A hook fires and continues
/// with its `next`.  The walk ends at `Pass` or at a terminator, which decides
/// how the request ends.  Fails on a node that is not compiled or registered,
/// on an input that cannot be evaluated, and when the walk would never end.
pub fn try_eval_action(
    action: CompiledAction,
    rules: &HashMap<u64, CompiledRule>,
    hooks: &HashMap<u64, CompiledHook>,
    registry: &PluginRegistry,
    ctx: &mut RequestContext,
) -> (r: Result<Walk, WalkError>)
    requires
        consistent(*registry, old(ctx).cache@),
    ensures
        consistent(*registry, final(ctx).cache@),
        extends(old(ctx).cache@, final(ctx).cache@),
        final(ctx).client_ip == old(ctx).client_ip,
        final(ctx).uri@ == old(ctx).uri@,
        final(ctx).method@ == old(ctx).method@,
        final(ctx).headers == old(ctx).headers,
        final(ctx).body == old(ctx).body,
        r matches Ok(w) ==> {
            &&& reaches(rules@, hooks@, action, w.steps@, verdict_action(w.verdict))
            &&& scores_cached(rules@, w.steps@, final(ctx).cache@)
            &&& final(ctx).current_score == last_rule_score(w.steps@, old(ctx).current_score)
        },
        action is Pass ==> (r matches Ok(w) && w.steps@.len() == 0 && w.verdict == Verdict::Pass),
        action is Pass ==> final(ctx).cache@ == old(ctx).cache@ && final(ctx).metadata@ == old(ctx).metadata@
            && final(ctx).current_score == old(ctx).current_score,
        action matches CompiledAction::Terminator(id) ==> (r is Ok <==> (registry.kinds().contains_key(id.0)
            && registry.kinds()[id.0] == crate::plugin::NodeKind::Terminator)),
        r matches Err(WalkError::UnknownRule(id)) ==> reached(rules@, hooks@, action, CompiledAction::Rule(id))
            && !rules@.contains_key(id.0),
        r matches Err(WalkError::UnknownHook(id)) ==> reached(rules@, hooks@, action, CompiledAction::Hook(id))
            && !(hooks@.contains_key(id.0) && registry.kinds().contains_key(id.0)
            && registry.kinds()[id.0] == crate::plugin::NodeKind::Hook),
        r matches Err(WalkError::UnknownTerminator(id)) ==> reached(rules@, hooks@, action, CompiledAction::Terminator(id))
            && !(registry.kinds().contains_key(id.0) && registry.kinds()[id.0] == crate::plugin::NodeKind::Terminator),
        r matches Err(WalkError::Engine(e)) ==> exists|id: ProviderId| rules@.contains_key(id.0)
            && #[trigger] reached(rules@, hooks@, action, CompiledAction::Rule(id))
            && engine_failure(*registry, rules@[id.0].input, e),
        r matches Ok(w) ==> (w.verdict matches Verdict::Terminate { terminator, action } ==> registry.terminator_acts(
            terminator.0,
            action,
        )),
        r matches Err(WalkError::Cycle(a)) ==> exists|steps: Seq<Step>| steps.len() == visit_limit(rules@.len(), hooks@.len())
            && #[trigger] reaches(rules@, hooks@, action, steps, a),
{
    let mut current = action;
    let mut steps: Vec<Step> = Vec::new();
    let mut fuel: usize = rules.len().saturating_add(hooks.len()).saturating_add(1);
    let ghost start = *ctx;
    let ghost limit = visit_limit(rules@.len(), hooks@.len());
    assert(fuel == limit);
    loop
        invariant
            steps@.len() + fuel == limit,
            limit == visit_limit(rules@.len(), hooks@.len()),
            consistent(*registry, ctx.cache@),
            extends(start.cache@, ctx.cache@),
            start == *old(ctx),
            ctx.client_ip == start.client_ip,
            ctx.uri@ == start.uri@,
            ctx.method@ == start.method@,
            ctx.headers == start.headers,
            ctx.body == start.body,
            reaches(rules@, hooks@, action, steps@, current),
            scores_cached(rules@, steps@, ctx.cache@),
            ctx.current_score == last_rule_score(steps@, start.current_score),
            action is Pass ==> steps@.len() == 0 && current == action && ctx.cache@ == start.cache@
                && ctx.metadata@ == start.metadata@ && ctx.current_score == start.current_score,
            action is Terminator ==> steps@.len() == 0 && current == action,
        decreases fuel,
    {
        match current {
            CompiledAction::Pass => {
                return Ok(Walk { steps, verdict: Verdict::Pass });
            },
            CompiledAction::Terminator(id) => {
                match registry.get_terminator(id) {
                    Some(t) => {
                        let decided = t.decide(ctx);
                        return Ok(Walk { steps, verdict: Verdict::Terminate { terminator: id, action: decided } });
                    },
                    None => {
                        return Err(WalkError::UnknownTerminator(id));
                    },
                }
            },
            CompiledAction::Hook(id) => {
                if fuel == 0 {
                    return Err(WalkError::Cycle(current));
                }
                match registry.trigger_hook(id, ctx) {
                    Ok(()) => {},
                    Err(_) => {
                        return Err(WalkError::UnknownHook(id));
                    },
                }
                let next = match hooks.get(&id.0) {
                    Some(h) => h.next,
                    None => {
                        return Err(WalkError::UnknownHook(id));
                    },
                };
                let ghost before = steps@;
                steps.push(Step::Hook(id));
                proof {
                    assert(steps@.drop_last() =~= before);
                    assert forall|i: int| 0 <= i < steps@.len() implies (#[trigger] steps@[i] matches Step::Rule { id, score, .. }
                        ==> ctx.cache@.contains_key(rules@[id.0].input.0) && ctx.cache@[rules@[id.0].input.0] == score) by {
                        if i < before.len() {
                            assert(steps@[i] == before[i]);
                        }
                    }
                }
                current = next;
                fuel = fuel - 1;
            },
            CompiledAction::Rule(id) => {
                if fuel == 0 {
                    return Err(WalkError::Cycle(current));
                }
                let rule = match rules.get(&id.0) {
                    Some(r) => *r,
                    None => {
                        return Err(WalkError::UnknownRule(id));
                    },
                };
                let ghost cache_before = ctx.cache@;
                let score = match evaluate(rule.input, ctx, registry) {
                    Ok(s) => s,
                    Err(e) => {
                        proof {
                            assert(reaches(rules@, hooks@, action, steps@, CompiledAction::Rule(id)));
                            assert(reached(rules@, hooks@, action, CompiledAction::Rule(id)));
                        }
                        return Err(WalkError::Engine(e));
                    },
                };
                ctx.current_score = score;
                let fired = score.0 >= rule.threshold.0;
                let ghost before = steps@;
                steps.push(Step::Rule { id, score, fired });
                proof {
                    assert(steps@.drop_last() =~= before);
                    assert forall|i: int| 0 <= i < steps@.len() implies (#[trigger] steps@[i] matches Step::Rule { id, score, .. }
                        ==> ctx.cache@.contains_key(rules@[id.0].input.0) && ctx.cache@[rules@[id.0].input.0] == score) by {
                        if i < before.len() {
                            assert(steps@[i] == before[i]);
                            match steps@[i] {
                                Step::Rule { id: rid, .. } => {
                                    assert(cache_before.contains_key(rules@[rid.0].input.0));
                                },
                                _ => {},
                            }
                        }
                    }
                }
                current = if fired { rule.if_action } else { rule.else_action };
                fuel = fuel - 1;
            },
        }
    }
}

/// Walks the action graph of `cfg` from its entry point (see [`try_eval_action`]).
pub fn try_evaluate_request(cfg: &FerrumConfig, ctx: &mut RequestContext) -> (r: Result<Walk, WalkError>)
    requires
        consistent(cfg.registry, old(ctx).cache@),
    ensures
        consistent(cfg.registry, final(ctx).cache@),
        extends(old(ctx).cache@, final(ctx).cache@),
        final(ctx).client_ip == old(ctx).client_ip,
        final(ctx).uri@ == old(ctx).uri@,
        final(ctx).method@ == old(ctx).method@,
        final(ctx).headers == old(ctx).headers,
        final(ctx).body == old(ctx).body,
        r matches Ok(w) ==> {
            &&& reaches(cfg.rules@, cfg.hooks@, cfg.entry, w.steps@, verdict_action(w.verdict))
            &&& scores_cached(cfg.rules@, w.steps@, final(ctx).cache@)
            &&& final(ctx).current_score == last_rule_score(w.steps@, old(ctx).current_score)
        },
        cfg.entry is Pass ==> (r matches Ok(w) && w.steps@.len() == 0 && w.verdict == Verdict::Pass),
        cfg.entry is Pass ==> final(ctx).cache@ == old(ctx).cache@ && final(ctx).metadata@ == old(ctx).metadata@
            && final(ctx).current_score == old(ctx).current_score,
        cfg.entry matches CompiledAction::Terminator(id) ==> (r is Ok <==> (cfg.registry.kinds().contains_key(id.0)
            && cfg.registry.kinds()[id.0] == crate::plugin::NodeKind::Terminator)),
        r matches Err(WalkError::UnknownRule(id)) ==> reached(cfg.rules@, cfg.hooks@, cfg.entry, CompiledAction::Rule(id))
            && !cfg.rules@.contains_key(id.0),
        r matches Err(WalkError::UnknownHook(id)) ==> reached(cfg.rules@, cfg.hooks@, cfg.entry, CompiledAction::Hook(id))
            && !(cfg.hooks@.contains_key(id.0) && cfg.registry.kinds().contains_key(id.0)
            && cfg.registry.kinds()[id.0] == crate::plugin::NodeKind::Hook),
        r matches Err(WalkError::UnknownTerminator(id)) ==> reached(cfg.rules@, cfg.hooks@, cfg.entry,
            CompiledAction::Terminator(id)) && !(cfg.registry.kinds().contains_key(id.0)
            && cfg.registry.kinds()[id.0] == crate::plugin::NodeKind::Terminator),
        r matches Err(WalkError::Engine(e)) ==> exists|id: ProviderId| cfg.rules@.contains_key(id.0)
            && #[trigger] reached(cfg.rules@, cfg.hooks@, cfg.entry, CompiledAction::Rule(id))
            && engine_failure(cfg.registry, cfg.rules@[id.0].input, e),
        r matches Ok(w) ==> (w.verdict matches Verdict::Terminate { terminator, action } ==> cfg.registry.terminator_acts(
            terminator.0,
            action,
        )),
        r matches Err(WalkError::Cycle(a)) ==> exists|steps: Seq<Step>| steps.len() == visit_limit(cfg.rules@.len(),
            cfg.hooks@.len()) && #[trigger] reaches(cfg.rules@, cfg.hooks@, cfg.entry, steps, a),
{
    try_eval_action(cfg.entry, &cfg.rules, &cfg.hooks, &cfg.registry, ctx)
}

/// Every rule, hook and terminator that a walk from `action` can reach is
/// compiled and registered, every reached rule's input can be evaluated, and
/// no walk from `action` is long enough to run in a cycle.
pub open spec fn walk_sound(
    rules: Map<u64, CompiledRule>,
    hooks: Map<u64, CompiledHook>,
    registry: PluginRegistry,
    action: CompiledAction,
) -> bool {
    &&& forall|id: ProviderId| #[trigger] reached(rules, hooks, action, CompiledAction::Rule(id)) ==> rules.contains_key(id.0)
        && forall|e: EngineError| !#[trigger] engine_failure(registry, rules[id.0].input, e)
    &&& forall|id: ProviderId| #[trigger] reached(rules, hooks, action, CompiledAction::Hook(id)) ==> hooks.contains_key(id.0)
        && registry.kinds().contains_key(id.0) && registry.kinds()[id.0] == crate::plugin::NodeKind::Hook
    &&& forall|id: ProviderId| #[trigger] reached(rules, hooks, action, CompiledAction::Terminator(id))
        ==> registry.kinds().contains_key(id.0) && registry.kinds()[id.0] == crate::plugin::NodeKind::Terminator
    &&& forall|steps: Seq<Step>, b: CompiledAction| #[trigger] reaches(rules, hooks, action, steps, b) ==> steps.len()
        < visit_limit(rules.len(), hooks.len())
}

/// Walks the action graph from `action`, where every node the walk can reach
/// is compiled, registered and can be evaluated, and the graph has no cycle
/// the walk can enter (see [`try_eval_action`], which reports these failures).
pub fn eval_action(
    action: CompiledAction,
    rules: &HashMap<u64, CompiledRule>,
    hooks: &HashMap<u64, CompiledHook>,
    registry: &PluginRegistry,
    ctx: &mut RequestContext,
) -> (w: Walk)
    requires
        consistent(*registry, old(ctx).cache@),
        walk_sound(rules@, hooks@, *registry, action),
    ensures
        consistent(*registry, final(ctx).cache@),
        extends(old(ctx).cache@, final(ctx).cache@),
        final(ctx).client_ip == old(ctx).client_ip,
        final(ctx).uri@ == old(ctx).uri@,
        final(ctx).method@ == old(ctx).method@,
        final(ctx).headers == old(ctx).headers,
        final(ctx).body == old(ctx).body,
        reaches(rules@, hooks@, action, w.steps@, verdict_action(w.verdict)),
        scores_cached(rules@, w.steps@, final(ctx).cache@),
        final(ctx).current_score == last_rule_score(w.steps@, old(ctx).current_score),
        action is Pass ==> w.steps@.len() == 0 && w.verdict == Verdict::Pass,
        action is Pass ==> final(ctx).cache@ == old(ctx).cache@ && final(ctx).metadata@ == old(ctx).metadata@
            && final(ctx).current_score == old(ctx).current_score,
        w.verdict matches Verdict::Terminate { terminator, action } ==> registry.terminator_acts(terminator.0, action),
{
    match try_eval_action(action, rules, hooks, registry, ctx) {
        Ok(w) => w,
        Err(e) => {
            proof {
                match e {
                    WalkError::Engine(err) => {
                        let id = choose|id: ProviderId| rules@.contains_key(id.0)
                            && #[trigger] reached(rules@, hooks@, action, CompiledAction::Rule(id))
                            && engine_failure(*registry, rules@[id.0].input, err);
                        assert(!engine_failure(*registry, rules@[id.0].input, err));
                    },
                    WalkError::Cycle(b) => {
                        let steps = choose|steps: Seq<Step>| steps.len() == visit_limit(rules@.len(), hooks@.len())
                            && #[trigger] reaches(rules@, hooks@, action, steps, b);
                        assert(steps.len() < visit_limit(rules@.len(), hooks@.len()));
                    },
                    _ => {},
                }
            }
            vstd::pervasive::unreached()
        },
    }
}

/// Walks the action graph of `cfg` from its entry point, where the walk can
/// neither fail nor run in a cycle (see [`eval_action`]).
pub fn evaluate_request(cfg: &FerrumConfig, ctx: &mut RequestContext) -> (w: Walk)
    requires
        consistent(cfg.registry, old(ctx).cache@),
        walk_sound(cfg.rules@, cfg.hooks@, cfg.registry, cfg.entry),
    ensures
        consistent(cfg.registry, final(ctx).cache@),
        extends(old(ctx).cache@, final(ctx).cache@),
        final(ctx).client_ip == old(ctx).client_ip,
        final(ctx).uri@ == old(ctx).uri@,
        final(ctx).method@ == old(ctx).method@,
        final(ctx).headers == old(ctx).headers,
        final(ctx).body == old(ctx).body,
        reaches(cfg.rules@, cfg.hooks@, cfg.entry, w.steps@, verdict_action(w.verdict)),
        scores_cached(cfg.rules@, w.steps@, final(ctx).cache@),
        final(ctx).current_score == last_rule_score(w.steps@, old(ctx).current_score),
        cfg.entry is Pass ==> w.steps@.len() == 0 && w.verdict == Verdict::Pass,
        cfg.entry is Pass ==> final(ctx).cache@ == old(ctx).cache@ && final(ctx).metadata@ == old(ctx).metadata@
            && final(ctx).current_score == old(ctx).current_score,
        w.verdict matches Verdict::Terminate { terminator, action } ==> cfg.registry.terminator_acts(terminator.0, action),
{
    eval_action(cfg.entry, &cfg.rules, &cfg.hooks, &cfg.registry, ctx)
}

/// Whether the request was handled by a terminator: the walk ended in a
/// terminator that did not let the request through.
pub fn handled(w: &Walk) -> (r: bool)
    ensures
        r <==> (w.verdict matches Verdict::Terminate { action, .. } && !(action is Pass)),
{
    match &w.verdict {
        Verdict::Pass => false,
        Verdict::Terminate { action, .. } => match action {
            TerminatorAction::Pass => false,
            _ => true,
        },
    }
}


// ---------------------------------------------------------------------------
// Request bodies
// ---------------------------------------------------------------------------

/// Whether some rule needs the request body buffered before the graph is walked.
pub fn needs_body(rules: &HashMap<u64, CompiledRule>) -> (r: bool)
    ensures
        r <==> exists|k: u64| #[trigger] rules@.contains_key(k) && rules@[k].buffer_body,
{
    if rules.len() == 0 {
        return false;
    }
    for k in it: rules.keys()
        invariant
            forall|j: int| 0 <= j < it.index() ==> !rules@[*#[trigger] it.seq()[j]].buffer_body,
            it.seq().unref().to_set() == rules@.dom(),
            it.seq().len() > 0,
            it.index() == it.seq().len() ==> forall|x: u64| #[trigger] rules@.contains_key(x) ==> !rules@[x].buffer_body,
    {
        let ghost seq = it.seq().unref();
        proof {
            assert(seq[it.index()] == *k);
            assert(seq.to_set().contains(*k));
        }
        let rule = rules.get(k).unwrap();
        if rule.buffer_body {
            return true;
        }
        proof {
            let i = it.index();
            assert forall|x: u64| i + 1 == seq.len() && #[trigger] rules@.contains_key(x) implies !rules@[x].buffer_body by {
                assert(seq.to_set().contains(x));
                let j = choose|j: int| 0 <= j < seq.len() && seq[j] == x;
                assert(*it.seq()[j] == x);
            }
        }
    }
    false
}

/// The body of a request as it arrives in chunks, up to [`BODY_LIMIT`] bytes.
/// Once the body has grown past the limit, the body sensors are off for the
/// request: nothing more is buffered and no body is handed on.
pub struct BodyBuffer {
    buf: Vec<u8>,
    overflowed: bool,
}

impl BodyBuffer {
    /// The bytes buffered so far.
    pub closed spec fn bytes(&self) -> Seq<u8> {
        self.buf@
    }

    /// Whether the body has grown past the limit.
    pub closed spec fn is_overflowed(&self) -> bool {
        self.overflowed
    }

    #[verifier::type_invariant]
    closed spec fn within_limit(&self) -> bool {
        &&& self.buf@.len() <= BODY_LIMIT
        &&& self.overflowed ==> self.buf@.len() == 0
    }

    /// An empty buffer.
    pub fn new() -> (r: BodyBuffer)
        ensures
            r.bytes() == Seq::<u8>::empty(),
            !r.is_overflowed(),
    {
        BodyBuffer { buf: Vec::new(), overflowed: false }
    }

    /// Appends `chunk` while the body has not overflowed and the buffered
    /// total stays within [`BODY_LIMIT`], and returns `true`.  Otherwise the
    /// body is too large for the body sensors: everything buffered is dropped,
    /// every later chunk is refused, and `false` is returned.
    pub fn push_chunk(&mut self, chunk: &[u8]) -> (r: bool)
        ensures
            r <==> !old(self).is_overflowed() && old(self).bytes().len() + chunk@.len() <= BODY_LIMIT,
            r ==> final(self).bytes() == old(self).bytes() + chunk@ && !final(self).is_overflowed(),
            !r ==> final(self).bytes() == Seq::<u8>::empty() && final(self).is_overflowed(),
            final(self).bytes().len() <= BODY_LIMIT,
    {
        proof {
            use_type_invariant(&*self);
        }
        let mut buf = Vec::new();
        std::mem::swap(&mut buf, &mut self.buf);
        if !self.overflowed && chunk.len() <= BODY_LIMIT - buf.len() {
            let ghost before = buf@;
            buf.extend_from_slice(chunk);
            proof {
                assert(buf@ =~= before + chunk@);
            }
            self.buf = buf;
            true
        } else {
            self.overflowed = true;
            false
        }
    }

    /// The buffered body, or `None` when nothing is buffered or the body
    /// overflowed.
    pub fn finish(self) -> (r: Option<Vec<u8>>)
        ensures
            (self.bytes().len() == 0 || self.is_overflowed()) <==> r is None,
            r matches Some(b) ==> b@ == self.bytes(),
    {
        proof {
            use_type_invariant(&self);
        }
        if self.overflowed || self.buf.len() == 0 {
            None
        } else {
            Some(self.buf)
        }
    }
}

} // verus!
