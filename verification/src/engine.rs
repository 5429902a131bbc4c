//! Memoised evaluation of providers against a request.

use std::collections::HashMap;

use vstd::prelude::*;

use crate::plugin::{bounded, NodeKind};
use crate::provider::ProviderId;
use crate::registry::{PluginRegistry, RegistryError};
use crate::request::RequestContext;
use crate::score::Score;

verus! {

broadcast use vstd::std_specs::hash::group_hash_axioms;

/// Why a provider cannot be evaluated.
#[derive(Debug, Clone, Copy, PartialEq, Eq, Structural)]
pub enum EngineError {
    /// The registry has no suitable entry: the id is unknown, or names a hook
    /// or terminator, or a transformer without dependencies.
    Registry(RegistryError),
    /// The dependencies of this provider form a cycle.
    Cycle(ProviderId),
}

/// The cache keys of a list of provider ids.
pub open spec fn dep_keys(deps: Seq<ProviderId>) -> Set<u64> {
    deps.map_values(|d: ProviderId| d.0).to_set()
}

/// The memo cache agrees with the registry: every cached transformer has all
/// its dependencies cached, and its cached score is what it computes from them
/// (where the registry specifies that); every cached score is in `[0, 100]`.
pub open spec fn consistent(reg: PluginRegistry, cache: Map<u64, Score>) -> bool {
    &&& bounded(cache)
    &&& forall|k: u64| #[trigger] cache.contains_key(k) && reg.kinds().contains_key(k) && reg.kinds()[k] == NodeKind::Transformer ==> {
        &&& forall|i: int| 0 <= i < reg.deps(k).len() ==> cache.contains_key(#[trigger] reg.deps(k)[i].0)
        &&& (reg.transform(k, cache.restrict(dep_keys(reg.deps(k)))) matches Some(s) ==> cache[k] == s)
    }
}

/// `chain` is a path along declared dependencies: every provider on it is a
/// registered transformer, and each lists the next among its dependencies.
pub open spec fn dep_chain(reg: PluginRegistry, chain: Seq<ProviderId>) -> bool {
    &&& forall|i: int| 0 <= i < chain.len() ==> reg.kinds().contains_key(#[trigger] chain[i].0)
        && reg.kinds()[chain[i].0] == NodeKind::Transformer
    &&& forall|i: int| 0 <= i < chain.len() - 1 ==> reg.deps(#[trigger] chain[i].0).contains(chain[i + 1])
}

/// `path` follows declared dependencies: every provider on it but the last is
/// a registered transformer that lists the next among its dependencies.
pub open spec fn dep_path(reg: PluginRegistry, path: Seq<ProviderId>) -> bool {
    forall|i: int| 0 <= i < path.len() - 1 ==> {
        &&& reg.kinds().contains_key(#[trigger] path[i].0)
        &&& reg.kinds()[path[i].0] == NodeKind::Transformer
        &&& reg.deps(path[i].0).contains(path[i + 1])
    }
}

/// Evaluating `from` needs `to`: a path along dependencies leads from one to
/// the other.
pub open spec fn leads_to(reg: PluginRegistry, from: ProviderId, to: ProviderId) -> bool {
    exists|path: Seq<ProviderId>| path.len() > 0 && path[0] == from && path[path.len() - 1] == to && #[trigger] dep_path(
        reg,
        path,
    )
}

/// Evaluating `input` failed with `e` for a reason: its cause (see
/// [`failure_explained`]), or for a cycle, a path along dependencies from
/// `input` longer than the registry is large.
pub open spec fn engine_failure(reg: PluginRegistry, input: ProviderId, e: EngineError) -> bool {
    &&& failure_explained(reg, input, e)
    &&& e is Cycle ==> exists|c: Seq<ProviderId>| c.len() == reg.kinds().len() + 1 && c[0] == input
        && #[trigger] dep_chain(reg, c)
}

/// `s` is a score sensor `id` may give a request that stood as `before`,
/// leaving the metadata as `metadata`.
pub open spec fn sensor_result(reg: PluginRegistry, id: ProviderId, before: RequestContext, s: Score, metadata: Map<u64, String>) -> bool {
    exists|after: RequestContext| #[trigger] reg.sensor_scores(id.0, before, after, s) && after.metadata@ == metadata
}

/// `x` cannot be evaluated on its own: it is a hook or a terminator, or a
/// transformer without dependencies.
pub open spec fn wrong_kind(reg: PluginRegistry, x: ProviderId) -> bool {
    &&& reg.kinds().contains_key(x.0)
    &&& (reg.kinds()[x.0] == NodeKind::Hook || reg.kinds()[x.0] == NodeKind::Terminator || (reg.kinds()[x.0]
        == NodeKind::Transformer && reg.deps(x.0).len() == 0))
}

/// A failure to evaluate `id` has its cause: an unregistered provider that
/// `id` needs, or one that cannot be evaluated; cycles are stated apart.
pub open spec fn failure_explained(reg: PluginRegistry, id: ProviderId, e: EngineError) -> bool {
    match e {
        EngineError::Registry(RegistryError::Unknown(x)) => leads_to(reg, id, x) && !reg.kinds().contains_key(x.0),
        EngineError::Registry(RegistryError::WrongKind(x)) => leads_to(reg, id, x) && wrong_kind(reg, x),
        EngineError::Registry(RegistryError::Duplicate(_)) => false,
        EngineError::Cycle(_) => true,
    }
}

proof fn lemma_leads_to_self(reg: PluginRegistry, id: ProviderId)
    ensures
        leads_to(reg, id, id),
{
    let p = seq![id];
    assert(dep_path(reg, p));
}

proof fn lemma_leads_to_step(reg: PluginRegistry, id: ProviderId, d: ProviderId, x: ProviderId)
    requires
        reg.kinds().contains_key(id.0),
        reg.kinds()[id.0] == NodeKind::Transformer,
        reg.deps(id.0).contains(d),
        leads_to(reg, d, x),
    ensures
        leads_to(reg, id, x),
{
    let p = choose|p: Seq<ProviderId>| p.len() > 0 && p[0] == d && p[p.len() - 1] == x && #[trigger] dep_path(reg, p);
    let q = seq![id] + p;
    assert forall|i: int| 0 <= i < q.len() - 1 implies {
        &&& reg.kinds().contains_key(#[trigger] q[i].0)
        &&& reg.kinds()[q[i].0] == NodeKind::Transformer
        &&& reg.deps(q[i].0).contains(q[i + 1])
    } by {
        if i > 0 {
            assert(q[i] == p[i - 1]);
            assert(q[i + 1] == p[i]);
        }
    }
    assert(dep_path(reg, q));
    assert(q[q.len() - 1] == p[p.len() - 1]);
}

/// A path along dependencies that is longer than the registry is large passes
/// some provider twice: the dependencies form a cycle.
pub proof fn lemma_long_chain_revisits(reg: PluginRegistry, chain: Seq<ProviderId>)
    requires
        dep_chain(reg, chain),
        chain.len() > reg.kinds().len(),
    ensures
        exists|i: int, j: int| 0 <= i < j < chain.len() && #[trigger] chain[i] == #[trigger] chain[j],
{
    reg.lemma_kinds_finite();
    if !(exists|i: int, j: int| 0 <= i < j < chain.len() && #[trigger] chain[i] == #[trigger] chain[j]) {
        let ids = chain.map_values(|p: ProviderId| p.0);
        assert(ids.no_duplicates()) by {
            assert forall|i: int, j: int| 0 <= i < ids.len() && 0 <= j < ids.len() && i != j implies ids[i] != ids[j] by {
                if i < j {
                    assert(chain[i] != chain[j]);
                } else {
                    assert(chain[j] != chain[i]);
                }
            }
        }
        ids.unique_seq_to_set();
        assert(ids.to_set().subset_of(reg.kinds().dom())) by {
            assert forall|k: u64| ids.to_set().contains(k) implies reg.kinds().dom().contains(k) by {
                let q = choose|q: int| 0 <= q < ids.len() && ids[q] == k;
                assert(reg.kinds().contains_key(chain[q].0));
            }
        }
        vstd::set_lib::lemma_len_subset(ids.to_set(), reg.kinds().dom());
        assert(false);
    }
}

/// `b` holds every entry of `a`.
pub open spec fn extends(a: Map<u64, Score>, b: Map<u64, Score>) -> bool {
    forall|k: u64| #[trigger] a.contains_key(k) ==> b.contains_key(k) && b[k] == a[k]
}

/// Everything but the cache and the metadata is left as it was.
pub open spec fn request_unchanged(a: RequestContext, b: RequestContext) -> bool {
    &&& b.client_ip == a.client_ip
    &&& b.uri@ == a.uri@
    &&& b.method@ == a.method@
    &&& b.headers == a.headers
    &&& b.body == a.body
    &&& b.current_score == a.current_score
}

/// The empty cache agrees with any registry.
pub proof fn lemma_empty_cache_consistent(reg: PluginRegistry)
    ensures
        consistent(reg, Map::<u64, Score>::empty()),
{
}

proof fn lemma_restrict_stable(a: Map<u64, Score>, b: Map<u64, Score>, deps: Seq<ProviderId>)
    requires
        extends(a, b),
        forall|i: int| 0 <= i < deps.len() ==> a.contains_key(#[trigger] deps[i].0),
    ensures
        a.restrict(dep_keys(deps)) == b.restrict(dep_keys(deps)),
{
    assert forall|k: u64| dep_keys(deps).contains(k) implies a.contains_key(k) by {
        let ks = deps.map_values(|d: ProviderId| d.0);
        assert(ks.contains(k));
        let i = choose|i: int| 0 <= i < ks.len() && #[trigger] ks[i] == k;
        assert(a.contains_key(deps[i].0));
    }
    assert(a.restrict(dep_keys(deps)) =~= b.restrict(dep_keys(deps)));
}

/// The cached scores of `deps`, and nothing else.
fn dep_scores(cache: &HashMap<u64, Score>, deps: &Vec<ProviderId>) -> (m: HashMap<u64, Score>)
    requires
        forall|i: int| 0 <= i < deps@.len() ==> cache@.contains_key(#[trigger] deps@[i].0),
    ensures
        m@ == cache@.restrict(dep_keys(deps@)),
{
    let mut m: HashMap<u64, Score> = HashMap::new();
    let mut i: usize = 0;
    while i < deps.len()
        invariant
            i <= deps@.len(),
            forall|j: int| 0 <= j < deps@.len() ==> cache@.contains_key(#[trigger] deps@[j].0),
            m@ == cache@.restrict(dep_keys(deps@.take(i as int))),
        decreases deps.len() - i,
    {
        let k = deps[i].0;
        let s = match cache.get(&k) {
            Some(s) => *s,
            None => Score(0),
        };
        m.insert(k, s);
        proof {
            let before = deps@.take(i as int);
            let after = deps@.take(i + 1);
            assert(dep_keys(after) =~= dep_keys(before).insert(k)) by {
                let a = after.map_values(|d: ProviderId| d.0);
                let b = before.map_values(|d: ProviderId| d.0);
                assert(a =~= b.push(k));
                assert forall|x: u64| a.contains(x) <==> (b.contains(x) || x == k) by {
                    if a.contains(x) {
                        let j = choose|j: int| 0 <= j < a.len() && a[j] == x;
                        if j < b.len() {
                            assert(b[j] == x);
                        }
                    }
                    if b.contains(x) {
                        let j = choose|j: int| 0 <= j < b.len() && b[j] == x;
                        assert(a[j] == x);
                    }
                    if x == k {
                        assert(a[b.len() as int] == k);
                    }
                }
            }
            assert(m@ =~= cache@.restrict(dep_keys(after)));
        }
        i = i + 1;
    }
    proof {
        assert(deps@.take(deps@.len() as int) =~= deps@);
    }
    m
}

fn evaluate_within(id: ProviderId, ctx: &mut RequestContext, registry: &PluginRegistry, fuel: usize) -> (r: Result<Score, EngineError>)
    requires
        consistent(*registry, old(ctx).cache@),
    ensures
        consistent(*registry, final(ctx).cache@),
        extends(old(ctx).cache@, final(ctx).cache@),
        request_unchanged(*old(ctx), *final(ctx)),
        old(ctx).cache@.contains_key(id.0) ==> r == Ok::<Score, EngineError>(old(ctx).cache@[id.0])
            && final(ctx).cache@ == old(ctx).cache@ && final(ctx).metadata@ == old(ctx).metadata@,
        r matches Err(e) ==> failure_explained(*registry, id, e),
        !old(ctx).cache@.contains_key(id.0) && registry.kinds().contains_key(id.0) && registry.kinds()[id.0] == NodeKind::Sensor
            ==> r is Ok && sensor_result(*registry, id, *old(ctx), r->Ok_0, final(ctx).metadata@),
        r matches Ok(s) ==> final(ctx).cache@.contains_key(id.0) && final(ctx).cache@[id.0] == s && s.0 <= 100,
        !old(ctx).cache@.contains_key(id.0) && !registry.kinds().contains_key(id.0) ==> r == Err::<Score, EngineError>(
            EngineError::Registry(RegistryError::Unknown(id))),
        !old(ctx).cache@.contains_key(id.0) && registry.kinds().contains_key(id.0) && (registry.kinds()[id.0] == NodeKind::Hook
            || registry.kinds()[id.0] == NodeKind::Terminator) ==> r == Err::<Score, EngineError>(
            EngineError::Registry(RegistryError::WrongKind(id))),
        !old(ctx).cache@.contains_key(id.0) && registry.kinds().contains_key(id.0) && registry.kinds()[id.0] == NodeKind::Sensor
            ==> r is Ok && r->Ok_0.0 <= 100,
        r matches Err(EngineError::Cycle(_)) ==> exists|c: Seq<ProviderId>| c.len() == fuel + 1 && c[0] == id
            && #[trigger] dep_chain(*registry, c),
    decreases fuel,
{
    match ctx.cache.get(&id.0) {
        Some(s) => {
            return Ok(*s);
        },
        None => {},
    }
    let deps = match registry.dep_ids(id) {
        Ok(d) => d,
        Err(e) => {
            proof {
                lemma_leads_to_self(*registry, id);
            }
            return Err(EngineError::Registry(e));
        },
    };
    let ghost sensor_before = *ctx;
    let ghost mut sensor_after = *ctx;
    let score = if deps.len() == 0 {
        match registry.evaluate_sensor(id, ctx) {
            Ok(s) => {
                proof {
                    sensor_after = *ctx;
                }
                s
            },
            Err(e) => {
                proof {
                    lemma_leads_to_self(*registry, id);
                }
                return Err(EngineError::Registry(e));
            },
        }
    } else {
        if fuel == 0 {
            proof {
                assert(dep_chain(*registry, seq![id]));
            }
            return Err(EngineError::Cycle(id));
        }
        let mut i: usize = 0;
        while i < deps.len()
            invariant
                i <= deps@.len(),
                fuel > 0,
                deps@ == registry.deps(id.0),
                registry.kinds().contains_key(id.0) && registry.kinds()[id.0] == NodeKind::Transformer,
                consistent(*registry, ctx.cache@),
                extends(old(ctx).cache@, ctx.cache@),
                request_unchanged(*old(ctx), *ctx),
                forall|j: int| 0 <= j < i ==> ctx.cache@.contains_key(#[trigger] deps@[j].0),
            decreases deps.len() - i,
        {
            let ghost before = ctx.cache@;
            match evaluate_within(deps[i], ctx, registry, fuel - 1) {
                Ok(_) => {},
                Err(e) => {
                    proof {
                        if e is Cycle {
                            let c = choose|c: Seq<ProviderId>| c.len() == fuel && c[0] == deps@[i as int]
                                && #[trigger] dep_chain(*registry, c);
                            let c2 = seq![id] + c;
                            assert(registry.deps(id.0).contains(deps@[i as int])) by {
                                assert(registry.deps(id.0)[i as int] == deps@[i as int]);
                            }
                            assert forall|j: int| 0 <= j < c2.len() - 1 implies registry.deps(#[trigger] c2[j].0).contains(c2[j + 1]) by {
                                if j > 0 {
                                    assert(c2[j] == c[j - 1]);
                                    assert(c2[j + 1] == c[j]);
                                }
                            }
                            assert forall|j: int| 0 <= j < c2.len() implies registry.kinds().contains_key(#[trigger] c2[j].0)
                                && registry.kinds()[c2[j].0] == NodeKind::Transformer by {
                                if j > 0 {
                                    assert(c2[j] == c[j - 1]);
                                }
                            }
                            assert(dep_chain(*registry, c2));
                            assert(c2[0] == id);
                        }
                        assert(registry.deps(id.0).contains(deps@[i as int])) by {
                            assert(registry.deps(id.0)[i as int] == deps@[i as int]);
                        }
                        match e {
                            EngineError::Registry(RegistryError::Unknown(x)) => {
                                lemma_leads_to_step(*registry, id, deps@[i as int], x);
                            },
                            EngineError::Registry(RegistryError::WrongKind(x)) => {
                                lemma_leads_to_step(*registry, id, deps@[i as int], x);
                            },
                            _ => {},
                        }
                    }
                    return Err(e);
                },
            }
            proof {
                assert forall|j: int| 0 <= j < i + 1 implies ctx.cache@.contains_key(#[trigger] deps@[j].0) by {
                    if j < i {
                        assert(before.contains_key(deps@[j].0));
                    }
                }
            }
            i = i + 1;
        }
        match ctx.cache.get(&id.0) {
            Some(s) => {
                return Ok(*s);
            },
            None => {},
        }
        let scores = dep_scores(&ctx.cache, &deps);
        match registry.evaluate_transformer(id, &scores) {
            Ok(s) => s,
            Err(e) => {
                return Err(EngineError::Registry(e));
            },
        }
    };
    let ghost pre = ctx.cache@;
    ctx.cache.insert(id.0, score);
    proof {
        let post = ctx.cache@;
        assert(extends(pre, post));
        assert forall|k: u64| #[trigger] post.contains_key(k) && registry.kinds().contains_key(k)
            && registry.kinds()[k] == NodeKind::Transformer implies {
            &&& forall|i: int| 0 <= i < registry.deps(k).len() ==> post.contains_key(#[trigger] registry.deps(k)[i].0)
            &&& (registry.transform(k, post.restrict(dep_keys(registry.deps(k)))) matches Some(s) ==> post[k] == s)
        } by {
            if k == id.0 {
                lemma_restrict_stable(pre, post, registry.deps(k));
            } else {
                assert(pre.contains_key(k));
                lemma_restrict_stable(pre, post, registry.deps(k));
            }
        }
    }
    proof {
        if registry.kinds()[id.0] == NodeKind::Sensor {
            assert(registry.sensor_scores(id.0, *old(ctx), sensor_after, score));
            assert(sensor_after.metadata@ == ctx.metadata@);
            assert(sensor_result(*registry, id, *old(ctx), score, ctx.metadata@));
        }
    }
    Ok(score)
}

/// Evaluates provider `id` against `ctx`, memoising in `ctx.cache` so that each
/// provider is evaluated at most once per request.
///
/// Sensors read the request directly; transformers are handed the cached
/// scores of their declared dependencies, which are evaluated first.  Fails for
/// an unknown id, a hook or terminator, a transformer without dependencies, and
/// a dependency cycle.
pub fn evaluate(id: ProviderId, ctx: &mut RequestContext, registry: &PluginRegistry) -> (r: Result<Score, EngineError>)
    requires
        consistent(*registry, old(ctx).cache@),
    ensures
        consistent(*registry, final(ctx).cache@),
        extends(old(ctx).cache@, final(ctx).cache@),
        request_unchanged(*old(ctx), *final(ctx)),
        old(ctx).cache@.contains_key(id.0) ==> r == Ok::<Score, EngineError>(old(ctx).cache@[id.0])
            && final(ctx).cache@ == old(ctx).cache@ && final(ctx).metadata@ == old(ctx).metadata@,
        r matches Err(e) ==> failure_explained(*registry, id, e),
        !old(ctx).cache@.contains_key(id.0) && registry.kinds().contains_key(id.0) && registry.kinds()[id.0] == NodeKind::Sensor
            ==> r is Ok && sensor_result(*registry, id, *old(ctx), r->Ok_0, final(ctx).metadata@),
        r matches Ok(s) ==> final(ctx).cache@.contains_key(id.0) && final(ctx).cache@[id.0] == s && s.0 <= 100,
        !old(ctx).cache@.contains_key(id.0) && !registry.kinds().contains_key(id.0) ==> r == Err::<Score, EngineError>(
            EngineError::Registry(RegistryError::Unknown(id))),
        !old(ctx).cache@.contains_key(id.0) && registry.kinds().contains_key(id.0) && (registry.kinds()[id.0] == NodeKind::Hook
            || registry.kinds()[id.0] == NodeKind::Terminator) ==> r == Err::<Score, EngineError>(
            EngineError::Registry(RegistryError::WrongKind(id))),
        !old(ctx).cache@.contains_key(id.0) && registry.kinds().contains_key(id.0) && registry.kinds()[id.0] == NodeKind::Sensor
            ==> r is Ok && r->Ok_0.0 <= 100,
        r matches Err(EngineError::Cycle(_)) ==> exists|c: Seq<ProviderId>| c.len() == registry.kinds().len() + 1
            && c[0] == id && #[trigger] dep_chain(*registry, c),
{
    let fuel = registry.len();
    evaluate_within(id, ctx, registry, fuel)
}

} // verus!
