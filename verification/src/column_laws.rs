//! Laws of per-column evaluation: what is cached does not depend on the order of
//! filling, and single columns agree with whole-chunk filling.
use crate::bands::assigned_id;
use crate::column_cache::ColumnView;
use crate::column_eval::{
    column_fill, column_plan, column_run, depth, samplable, surface_source, unfilled,
    upstream_field, upstream_node, ColumnEnv, ColumnFillView, ColumnPlanView, ColumnProgress,
    ColumnSample, SurfaceSource, UpstreamView,
};
use crate::eval_error::EvalError;
use crate::index::lemma_source_edge;
use crate::order::{live, settles, settles_within};
use crate::params::NoiseParams;
use crate::scalar::Single;
use crate::slots::{code_identifies, NodeId};
use vstd::prelude::*;

verus! {

/// A noise function over the columns of a chunk.
pub type NoiseModel = spec_fn(NoiseParams, i32, int) -> Single;

/// The values of a noise over a chunk.
pub open spec fn noise_plane(noise: NoiseModel, params: NoiseParams, seed: i32) -> Seq<Single> {
    Seq::new(1024, |i: int| noise(params, seed, i))
}

/// What a fill stands for, given the noise.
pub open spec fn fill_value(noise: NoiseModel, fill: ColumnFillView) -> ColumnView {
    match fill {
        ColumnFillView::Ready(v) => v,
        ColumnFillView::Noise { params, seed } => ColumnView::Surface(
            noise_plane(noise, params, seed),
        ),
    }
}

/// Whether a node's cached values are what filling it gives.
pub open spec fn faithful_at(
    env: ColumnEnv,
    cache: Map<u64, ColumnView>,
    noise: NoiseModel,
    id: NodeId,
) -> bool {
    match column_fill(env, cache, id) {
        Ok(fill) => cache[id.code()] == fill_value(noise, fill),
        Err(_) => false,
    }
}

/// Whether what is cached is cached for nodes of the graph, and is what filling
/// them gives.
pub open spec fn faithful(env: ColumnEnv, cache: Map<u64, ColumnView>, noise: NoiseModel) -> bool {
    forall|id: NodeId| #[trigger]
        cache.contains_key(id.code()) ==> env.nodes.contains_key(id) && faithful_at(
            env,
            cache,
            noise,
            id,
        )
}

/// Whether one cache holds everything that another holds.
pub open spec fn extends(a: Map<u64, ColumnView>, b: Map<u64, ColumnView>) -> bool {
    forall|k: u64| #[trigger] a.contains_key(k) ==> b.contains_key(k) && a[k] == b[k]
}

proof fn lemma_fill_monotone(
    env: ColumnEnv,
    a: Map<u64, ColumnView>,
    b: Map<u64, ColumnView>,
    id: NodeId,
)
    requires
        extends(a, b),
        column_fill(env, a, id) is Ok,
    ensures
        column_fill(env, b, id) == column_fill(env, a, id),
{
    match surface_source(env, id, 0) {
        Ok(SurfaceSource::Own(src)) => {
            if a.contains_key(src.code()) {
                assert(b.contains_key(src.code()));
            }
        },
        _ => {},
    }
}

/// Adding a node's own values to what is cached keeps the cache faithful.
pub proof fn filling_keeps_the_cache_faithful(
    env: ColumnEnv,
    cache: Map<u64, ColumnView>,
    noise: NoiseModel,
    id: NodeId,
)
    requires
        faithful(env, cache, noise),
        env.nodes.contains_key(id),
        !cache.contains_key(id.code()),
        column_fill(env, cache, id) is Ok,
    ensures
        faithful(
            env,
            cache.insert(id.code(), fill_value(noise, column_fill(env, cache, id)->Ok_0)),
            noise,
        ),
{
    let out = fill_value(noise, column_fill(env, cache, id)->Ok_0);
    let after = cache.insert(id.code(), out);
    assert(extends(cache, after));
    assert forall|k: NodeId| #[trigger]
        after.contains_key(k.code()) implies env.nodes.contains_key(k) && faithful_at(
        env,
        after,
        noise,
        k,
    ) by {
        code_identifies(k, id);
        if k == id {
            lemma_fill_monotone(env, cache, after, id);
        } else {
            assert(cache.contains_key(k.code()));
            lemma_fill_monotone(env, cache, after, k);
        }
    }
}

/// Evaluation keeps a faithful cache faithful, and when it is done every node
/// that has something to fill is cached.
pub proof fn evaluation_is_faithful(
    env: ColumnEnv,
    order: Seq<NodeId>,
    i: int,
    cache: Map<u64, ColumnView>,
    noise: NoiseModel,
)
    requires
        faithful(env, cache, noise),
        0 <= i <= order.len(),
        forall|k: int| 0 <= k < order.len() ==> env.nodes.contains_key(#[trigger] order[k]),
        forall|k: int|
            0 <= k < i ==> cache.contains_key((#[trigger] order[k]).code()) || unfilled(
                env.nodes[order[k]],
            ),
    ensures
        faithful(env, column_run(env, order, i, cache).1, noise),
        extends(cache, column_run(env, order, i, cache).1),
        column_run(env, order, i, cache).0 is Done ==> forall|k: int|
            0 <= k < order.len() ==> column_run(env, order, i, cache).1.contains_key(
                (#[trigger] order[k]).code(),
            ) || unfilled(env.nodes[order[k]]),
        match column_run(env, order, i, cache).0 {
            ColumnProgress::Noise { node, params, seed } => {
                let after = column_run(env, order, i, cache).1;
                &&& env.nodes.contains_key(node)
                &&& !after.contains_key(node.code())
                &&& column_fill(env, after, node) == Ok::<ColumnFillView, EvalError>(
                    ColumnFillView::Noise { params, seed },
                )
            },
            _ => true,
        },
    decreases order.len() - i,
{
    if i < order.len() {
        assert(env.nodes.contains_key(order[i]));
        if cache.contains_key(order[i].code()) || unfilled(env.nodes[order[i]]) {
            evaluation_is_faithful(env, order, i + 1, cache, noise);
        } else {
            match column_fill(env, cache, order[i]) {
                Ok(ColumnFillView::Ready(out)) => {
                    filling_keeps_the_cache_faithful(env, cache, noise, order[i]);
                    let after = cache.insert(order[i].code(), out);
                    assert(extends(cache, after));
                    assert forall|k: int| 0 <= k < i + 1 implies after.contains_key(
                        (#[trigger] order[k]).code(),
                    ) || unfilled(env.nodes[order[k]]) by {
                        if k < i && !unfilled(env.nodes[order[k]]) {
                            assert(cache.contains_key(order[k].code()));
                        }
                    }
                    evaluation_is_faithful(env, order, i + 1, after, noise);
                    let end = column_run(env, order, i + 1, after).1;
                    assert forall|k: u64| #[trigger] cache.contains_key(k) implies end.contains_key(
                        k,
                    ) && cache[k] == end[k] by {
                        assert(after.contains_key(k));
                    }
                },
                _ => {},
            }
        }
    }
}

/// Values are a function of the graph and the noise alone: two faithful caches
/// agree on every node that both hold, in whatever order they were filled.
pub proof fn filling_order_does_not_matter(
    env: ColumnEnv,
    a: Map<u64, ColumnView>,
    b: Map<u64, ColumnView>,
    noise: NoiseModel,
    id: NodeId,
)
    requires
        faithful(env, a, noise),
        faithful(env, b, noise),
        a.contains_key(id.code()),
        b.contains_key(id.code()),
        settles(env.nodes, env.edges, id),
    ensures
        a[id.code()] == b[id.code()],
{
    let n = choose|n: nat| settles_within(env.nodes, env.edges, id, n);
    lemma_values_agree(env, a, b, noise, id, n);
}

proof fn lemma_values_agree(
    env: ColumnEnv,
    a: Map<u64, ColumnView>,
    b: Map<u64, ColumnView>,
    noise: NoiseModel,
    id: NodeId,
    n: nat,
)
    requires
        faithful(env, a, noise),
        faithful(env, b, noise),
        a.contains_key(id.code()),
        b.contains_key(id.code()),
        settles_within(env.nodes, env.edges, id, n),
    ensures
        a[id.code()] == b[id.code()],
    decreases n,
{
    assert(faithful_at(env, a, noise, id));
    assert(faithful_at(env, b, noise, id));
    match surface_source(env, id, 0) {
        Ok(SurfaceSource::Own(src)) => {
            if a.contains_key(src.code()) && b.contains_key(src.code()) {
                assert(env.nodes.contains_key(src));
                let i = lemma_source_edge(env.edges, id, 0);
                assert(live(env.nodes, env.edges, i));
                lemma_values_agree(env, a, b, noise, src, (n - 1) as nat);
            }
        },
        _ => {},
    }
}

/// A value of a cached plane.
pub open spec fn cached_sample(values: ColumnView, i: int) -> ColumnSample {
    match values {
        ColumnView::Surface(f) => ColumnSample::Surface(f[i]),
        ColumnView::Id(ids) => ColumnSample::Id(ids[i]),
    }
}

/// The value a plan comes to, given the noise at the column.
pub open spec fn planned_sample(plan: ColumnPlanView, noise: Single) -> ColumnSample {
    match plan.bands {
        Some((bands, ids)) => ColumnSample::Id(assigned_id(noise, bands, ids)),
        None => ColumnSample::Surface(noise),
    }
}

/// What an evaluation reads of another graph.
pub open spec fn upstream_env(up: UpstreamView) -> ColumnEnv {
    ColumnEnv {
        nodes: up.nodes,
        edges: up.edges,
        world_seed: up.world_seed,
        upstream: None,
    }
}

/// Whether the caches of the graphs that references read are faithful too.
pub open spec fn upstream_faithful(env: ColumnEnv, noise: NoiseModel) -> bool {
    env.upstream is Some ==> forall|k: u32| #[trigger]
        env.upstream->0.contains_key(k) ==> faithful(
            upstream_env(env.upstream->0[k]),
            env.upstream->0[k].cache,
            noise,
        )
}

/// A single column agrees with whole-chunk filling: for every cached node the
/// plan of the column succeeds, and with the noise at the column it gives the
/// value cached there, through references to other graphs as well.
pub proof fn single_columns_agree_with_filling(
    env: ColumnEnv,
    cache: Map<u64, ColumnView>,
    noise: NoiseModel,
    id: NodeId,
    i: int,
)
    requires
        faithful(env, cache, noise),
        upstream_faithful(env, noise),
        cache.contains_key(id.code()),
        samplable(env, id),
        0 <= i < 1024,
    ensures
        match column_plan(env, id, depth(env.nodes, env.edges, id)) {
            Ok(plan) => cached_sample(cache[id.code()], i) == planned_sample(
                plan,
                noise(plan.params, plan.seed, i),
            ),
            Err(_) => false,
        },
{
    let n = depth(env.nodes, env.edges, id);
    assert(settles_within(env.nodes, env.edges, id, n));
    lemma_samples_agree(env, cache, noise, id, i, n);
}

proof fn lemma_samples_agree(
    env: ColumnEnv,
    cache: Map<u64, ColumnView>,
    noise: NoiseModel,
    id: NodeId,
    i: int,
    n: nat,
)
    requires
        faithful(env, cache, noise),
        upstream_faithful(env, noise),
        cache.contains_key(id.code()),
        samplable(env, id),
        settles_within(env.nodes, env.edges, id, n),
        0 <= i < 1024,
    ensures
        match column_plan(env, id, n) {
            Ok(plan) => cached_sample(cache[id.code()], i) == planned_sample(
                plan,
                noise(plan.params, plan.seed, i),
            ) && (plan.bands is Some <==> cache[id.code()] is Id),
            Err(_) => false,
        },
    decreases (if env.upstream is Some { 1int } else { 0int }), n,
{
    assert(env.nodes.contains_key(id));
    assert(faithful_at(env, cache, noise, id));
    match surface_source(env, id, 0) {
        Ok(SurfaceSource::Own(src)) => {
            if cache.contains_key(src.code()) {
                assert(env.nodes.contains_key(src));
                let k = lemma_source_edge(env.edges, id, 0);
                assert(live(env.nodes, env.edges, k));
                assert(settles_within(env.nodes, env.edges, src, (n - 1) as nat));
                lemma_samples_agree(env, cache, noise, src, i, (n - 1) as nat);
            }
        },
        Ok(SurfaceSource::Other { target, name, node: reference }) => {
            let graphs = env.upstream->0;
            if upstream_field(graphs, target, name, reference) is Ok {
                let up = graphs[target.rank()];
                let inner = upstream_env(up);
                let out = upstream_node(graphs, target, name, reference)->Ok_0;
                assert(graphs.contains_key(target.rank()));
                assert(up.cache.contains_key(out.code()));
                assert(inner.nodes.contains_key(out));
                assert(graphs[target.rank()].nodes.contains_key(out));
                let d = depth(up.nodes, up.edges, out);
                assert(settles(up.nodes, up.edges, out));
                assert(settles_within(up.nodes, up.edges, out, d));
                lemma_samples_agree(inner, up.cache, noise, out, i, d);
            }
        },
        Err(_) => {},
    }
}

/// Every kind that a column evaluation fills may stand in a world or zone graph, and
/// every kind that may stand there is filled or has nothing to fill. Left out of the
/// second are the kinds that mean the same in either domain: they may stand there, but
/// have no values by column.
pub proof fn column_kinds_are_evaluated(
    env: ColumnEnv,
    cache: Map<u64, ColumnView>,
    id: NodeId,
)
    requires
        env.nodes.contains_key(id),
    ensures
        column_fill(env, cache, id) is Ok ==> env.nodes[id].kind.column_kind(),
        env.nodes[id].kind.column_kind() && !env.nodes[id].kind.domain_agnostic()
            ==> unfilled(env.nodes[id]) || column_fill(env, cache, id) != Err::<
            ColumnFillView,
            EvalError,
        >(EvalError::WrongGraphDomain { node: id }),
{
}

} // verus!
