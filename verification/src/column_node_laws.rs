//! What each kind of node of a world or zone graph gives for a column.
use crate::bands::assigned_ids;
use crate::column_cache::ColumnView;
use crate::column_eval::{
    column_fill, column_plan, exposing_node, input_field, input_plan, ColumnEnv, ColumnFillView,
    ColumnPlanView, UpstreamView,
};
use crate::context::noise_seed_of;
use crate::edge::{Edge, PinRef};
use crate::eval_error::EvalError;
use crate::index::{indexed_source, last_source};
use crate::node::{Node, NodeKind};
use crate::node_laws::{fed_by, lemma_fed, lemma_unfed, unfed};
use crate::scalar::Single;
use crate::slots::{is_key_order, key_order_is_unique, NodeId};
use crate::surface_laws::thresholds_split_values_into_regions;
use crate::world_ids::id_given;
use vstd::prelude::*;

verus! {

/// Whether thresholds ascend, and a value meets the first `k` of them and no more.
pub open spec fn in_region(v: Single, bands: Seq<Single>, k: int) -> bool {
    &&& 0 <= k <= bands.len() < 0x1_0000
    &&& forall|i: int, j: int| 0 <= i < j < bands.len() ==> bands[j].at_least(bands[i])
    &&& k > 0 ==> v.at_least(bands[k - 1])
    &&& k < bands.len() ==> !v.at_least(bands[k]) && !v.is_nan()
}

/// The id of a region: that listed for it, or its number where none is listed.
pub open spec fn region_called(ids: Seq<u16>, k: int) -> u16 {
    if k < ids.len() {
        ids[k]
    } else {
        k as u16
    }
}

/// Whether a node's first input is wired to a node of its own graph.
pub open spec fn takes(env: ColumnEnv, id: NodeId, source: NodeId) -> bool {
    &&& fed_by(env.edges, id, 0, source)
    &&& env.nodes.contains_key(source)
    &&& !(env.nodes[source].kind is GraphRef)
}

proof fn lemma_takes(env: ColumnEnv, id: NodeId, source: NodeId)
    requires
        takes(env, id, source),
    ensures
        indexed_source(env.edges, id, 0) is Some,
        indexed_source(env.edges, id, 0)->0.node == source,
{
    lemma_fed(env.edges, id, 0, source, env.edges.len() as int);
}

/// A surface noise node asks for its own noise, seeded by the world and by itself.
pub proof fn noise_nodes_ask_for_their_noise(
    env: ColumnEnv,
    cache: Map<u64, ColumnView>,
    id: NodeId,
    n: nat,
)
    requires
        env.nodes.contains_key(id),
        env.nodes[id].kind is SurfaceNoise,
    ensures
        ({
            let p = env.nodes[id].kind->SurfaceNoise_0;
            let seed = noise_seed_of(env.world_seed, p.seed);
            &&& column_fill(env, cache, id) == Ok::<ColumnFillView, EvalError>(
                ColumnFillView::Noise { params: p, seed },
            )
            &&& column_plan(env, id, n) == Ok::<ColumnPlanView, EvalError>(
                ColumnPlanView { params: p, seed, bands: None },
            )
        }),
{
}

/// The terminal of a world graph gives each column the zone of its value's region, that of a
/// zone graph the biome, and a named output hands its input on.
pub proof fn terminals_give_what_their_input_says(
    env: ColumnEnv,
    cache: Map<u64, ColumnView>,
    id: NodeId,
    source: NodeId,
    values: Seq<Single>,
    x: int,
    z: int,
    k: int,
)
    requires
        env.nodes.contains_key(id),
        takes(env, id, source),
        cache.contains_key(source.code()),
        cache[source.code()] == ColumnView::Surface(values),
        0 <= x < 32,
        0 <= z < 32,
    ensures
        env.nodes[id].kind matches NodeKind::WorldOutput(p) ==> in_region(
            values[x + 32 * z],
            p.zone_bands@,
            k,
        ) ==> gives_id(column_fill(env, cache, id), x, z, region_called(p.zone_ids@, k)),
        env.nodes[id].kind matches NodeKind::ZoneOutput(p) ==> in_region(
            values[x + 32 * z],
            p.biome_bands@,
            k,
        ) ==> gives_id(column_fill(env, cache, id), x, z, region_called(p.biome_ids@, k)),
        env.nodes[id].kind is GraphOutput ==> column_fill(env, cache, id) == Ok::<
            ColumnFillView,
            EvalError,
        >(ColumnFillView::Ready(ColumnView::Surface(values))),
{
    lemma_takes(env, id, source);
    assert(input_field(env, cache, id, 0) == Ok::<Seq<Single>, EvalError>(values));
    match env.nodes[id].kind {
        NodeKind::WorldOutput(p) => {
            if in_region(values[x + 32 * z], p.zone_bands@, k) {
                thresholds_split_values_into_regions(
                    values,
                    p.zone_bands@,
                    p.zone_ids@,
                    x + 32 * z,
                    k,
                );
            }
        },
        NodeKind::ZoneOutput(p) => {
            if in_region(values[x + 32 * z], p.biome_bands@, k) {
                thresholds_split_values_into_regions(
                    values,
                    p.biome_bands@,
                    p.biome_ids@,
                    x + 32 * z,
                    k,
                );
            }
        },
        _ => {},
    }
}

/// Whether filling a node gives a column an id.
pub open spec fn gives_id(r: Result<ColumnFillView, EvalError>, x: int, z: int, id: u16) -> bool {
    r matches Ok(fill) && fill matches ColumnFillView::Ready(out) && out matches ColumnView::Id(ids)
        && ids.len() == 1024 && ids[x + 32 * z] == id
}

/// A single column goes the way of the whole: a terminal takes the noise of its input and
/// divides it by its own thresholds, and a named output takes its input's noise as it is.
pub proof fn plans_go_back_to_the_noise(
    env: ColumnEnv,
    id: NodeId,
    source: NodeId,
    n: nat,
    plan: ColumnPlanView,
)
    requires
        env.nodes.contains_key(id),
        takes(env, id, source),
        n > 0,
        column_plan(env, source, (n - 1) as nat) == Ok::<ColumnPlanView, EvalError>(plan),
        plan.bands is None,
    ensures
        env.nodes[id].kind matches NodeKind::WorldOutput(p) ==> column_plan(env, id, n) == Ok::<
            ColumnPlanView,
            EvalError,
        >(
            ColumnPlanView {
                params: plan.params,
                seed: plan.seed,
                bands: Some((p.zone_bands@, p.zone_ids@)),
            },
        ),
        env.nodes[id].kind matches NodeKind::ZoneOutput(p) ==> column_plan(env, id, n) == Ok::<
            ColumnPlanView,
            EvalError,
        >(
            ColumnPlanView {
                params: plan.params,
                seed: plan.seed,
                bands: Some((p.biome_bands@, p.biome_ids@)),
            },
        ),
        env.nodes[id].kind is GraphOutput ==> column_plan(env, id, n) == Ok::<
            ColumnPlanView,
            EvalError,
        >(plan),
{
    lemma_takes(env, id, source);
    assert(input_plan(env, id, n) == Ok::<ColumnPlanView, EvalError>(plan));
}

/// A planned id is that of the region that the noise falls in.
pub proof fn planned_ids_go_by_the_noise(plan: ColumnPlanView, noise: Single, k: int)
    requires
        plan.bands is Some,
        in_region(noise, (plan.bands->0).0, k),
    ensures
        id_given(plan, noise) == region_called((plan.bands->0).1, k),
{
    let (bands, ids) = plan.bands->0;
    let values = Seq::new(1024, |i: int| noise);
    thresholds_split_values_into_regions(values, bands, ids, 0, k);
    assert(assigned_ids(values, bands, ids)[0] == crate::bands::assigned_id(noise, bands, ids));
}

/// A terminal or named output without an input says which.
pub proof fn missing_inputs_are_named(
    env: ColumnEnv,
    cache: Map<u64, ColumnView>,
    id: NodeId,
    n: nat,
)
    requires
        env.nodes.contains_key(id),
        unfed(env.edges, id, 0),
        env.nodes[id].kind is WorldOutput || env.nodes[id].kind is ZoneOutput
            || env.nodes[id].kind is GraphOutput,
    ensures
        column_fill(env, cache, id) == Err::<ColumnFillView, EvalError>(
            EvalError::MissingInput { node: id, pin: 0 },
        ),
        column_plan(env, id, n) == Err::<ColumnPlanView, EvalError>(
            EvalError::MissingInput { node: id, pin: 0 },
        ),
{
    lemma_unfed(env.edges, id, 0, env.edges.len() as int);
}

/// Whether a node exposes a name.
pub open spec fn exposes_name(node: Node, name: Seq<char>) -> bool {
    node.kind is GraphOutput && node.kind->GraphOutput_0.name@ == name
}

proof fn lemma_exposing(nodes: Map<NodeId, Node>, keys: Seq<NodeId>, name: Seq<char>, i: int)
    requires
        0 <= i < keys.len(),
        exposes_name(nodes[keys[i]], name),
        forall|j: int| i < j < keys.len() ==> !exposes_name(nodes[#[trigger] keys[j]], name),
    ensures
        exposing_node(nodes, keys, name) == Some(keys[i]),
    decreases keys.len(),
{
    if i < keys.len() - 1 {
        let less = keys.drop_last();
        assert(!exposes_name(nodes[keys[keys.len() - 1]], name));
        assert forall|j: int| i < j < less.len() implies !exposes_name(
            nodes[#[trigger] less[j]],
            name,
        ) by {
            assert(less[j] == keys[j]);
        }
        lemma_exposing(nodes, less, name, i);
    }
}

/// Whether an input pin is wired to an output pin and to no other, in a graph without edges
/// into nodes that have given up their place.
pub open spec fn wired_to(edges: Seq<Edge>, node: NodeId, pin: u16, from: PinRef) -> bool {
    &&& fed_by(edges, node, pin, from.node)
    &&& forall|i: int|
        0 <= i < edges.len() && (#[trigger] edges[i]).to == (PinRef { node, pin })
            ==> edges[i].from == from
}

proof fn lemma_wired(edges: Seq<Edge>, node: NodeId, pin: u16, from: PinRef, k: int)
    requires
        0 <= k <= edges.len(),
        wired_to(edges, node, pin, from),
        last_source(edges, node, pin, k) is Some,
    ensures
        last_source(edges, node, pin, k) == Some(from),
    decreases k,
{
    let e = edges[k - 1];
    if e.to.node == node && e.to.pin == pin {
        assert(e.to == (PinRef { node, pin }));
    } else {
        lemma_wired(edges, node, pin, from, k - 1);
    }
}

/// A reference reads the graph it targets: the surface held there for the node that exposes
/// the name on the reference's pin, the last of several.
pub proof fn references_read_the_named_surface(
    env: ColumnEnv,
    cache: Map<u64, ColumnView>,
    id: NodeId,
    from: PinRef,
    upstream: UpstreamView,
    keys: Seq<NodeId>,
    out: NodeId,
    values: Seq<Single>,
)
    requires
        wired_to(env.edges, id, 0, from),
        env.nodes.contains_key(from.node),
        env.nodes[from.node].kind is GraphRef,
        from.pin < env.nodes[from.node].kind.presented_outputs().len(),
        env.upstream matches Some(graphs) && graphs.contains_key(
            env.nodes[from.node].kind->GraphRef_0.target.rank(),
        ) && graphs[env.nodes[from.node].kind->GraphRef_0.target.rank()] == upstream,
        is_key_order(upstream.nodes, keys),
        exposes_name(
            upstream.nodes[out],
            env.nodes[from.node].kind.presented_outputs()[from.pin as int].name,
        ),
        upstream.nodes.contains_key(out),
        forall|other: NodeId| #[trigger]
            upstream.nodes.contains_key(other) && exposes_name(
                upstream.nodes[other],
                env.nodes[from.node].kind.presented_outputs()[from.pin as int].name,
            ) ==> other.slot() <= out.slot(),
        upstream.cache.contains_key(out.code()),
        upstream.cache[out.code()] == ColumnView::Surface(values),
    ensures
        input_field(env, cache, id, 0) == Ok::<Seq<Single>, EvalError>(values),
{
    lemma_fed(env.edges, id, 0, from.node, env.edges.len() as int);
    lemma_wired(env.edges, id, 0, from, env.edges.len() as int);
    let name = env.nodes[from.node].kind.presented_outputs()[from.pin as int].name;
    let chosen = choose|keys: Seq<NodeId>| is_key_order(upstream.nodes, keys);
    key_order_is_unique(upstream.nodes, keys, chosen);
    let i = choose|i: int| 0 <= i < keys.len() && keys[i] == out;
    assert(keys.contains(out));
    assert forall|j: int| i < j < keys.len() implies !exposes_name(
        upstream.nodes[#[trigger] keys[j]],
        name,
    ) by {
        assert(upstream.nodes.contains_key(keys[j]));
        assert(keys[i].slot() < keys[j].slot());
    }
    lemma_exposing(upstream.nodes, keys, name, i);
}

} // verus!
