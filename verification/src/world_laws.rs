//! Laws of the graphs of a world: single columns agree with whole chunks.
use crate::chunk::column_index;
use crate::column_cache::{ColumnCache, ColumnView};
use crate::column_eval::{
    column_plan, depth, input_plan, surface_source, ColumnEnv, SurfaceSource, UpstreamView,
};
use crate::column_laws::{
    faithful, single_columns_agree_with_filling, upstream_faithful, NoiseModel,
};
use crate::graph::Graph;
use crate::ids::GraphRefTarget;
use crate::node::Node;
use crate::order::{cyclic, every_node_settles_iff_acyclic, settles};
use crate::slots::NodeId;
use crate::world::{zone_position, ZoneGraph};
use crate::world_ids::{
    biome_by_zone, biome_plan_of, cached_ids, id_given, pointwise_upstream, zone_plan_of,
};
use vstd::prelude::*;

verus! {

/// Whether two evaluations read the same graphs, whatever is cached of them.
pub open spec fn read_alike(a: ColumnEnv, b: ColumnEnv) -> bool {
    &&& a.nodes == b.nodes
    &&& a.edges == b.edges
    &&& a.world_seed == b.world_seed
    &&& match (a.upstream, b.upstream) {
        (Some(x), Some(y)) => {
            &&& x.dom() == y.dom()
            &&& forall|k: u32| #[trigger]
                x.contains_key(k) ==> x[k].nodes == y[k].nodes && x[k].edges == y[k].edges
                    && x[k].world_seed == y[k].world_seed
        },
        (None, None) => true,
        _ => false,
    }
}

/// The plan of a single column does not read what is cached of other graphs.
pub proof fn plans_ignore_caches(a: ColumnEnv, b: ColumnEnv, id: NodeId, n: nat)
    requires
        read_alike(a, b),
    ensures
        column_plan(a, id, n) == column_plan(b, id, n),
        input_plan(a, id, n) == input_plan(b, id, n),
    decreases n,
{
    assert(surface_source(a, id, 0) == surface_source(b, id, 0));
    match surface_source(a, id, 0) {
        Ok(SurfaceSource::Own(src)) => {
            if n > 0 {
                plans_ignore_caches(a, b, src, (n - 1) as nat);
            }
        },
        Ok(SurfaceSource::Other { target, name, node }) => {
            if a.upstream is Some {
                let x = a.upstream->0;
                let y = b.upstream->0;
                assert(x.contains_key(target.rank()) <==> y.contains_key(target.rank())) by {
                    assert(x.dom().contains(target.rank()) <==> y.dom().contains(target.rank()));
                }
            }
        },
        Err(_) => {},
    }
}

/// What the world graph's columns are evaluated with.
pub open spec fn world_env(world: Graph, world_seed: u64) -> ColumnEnv {
    ColumnEnv { nodes: world.nodes@, edges: world.edges@, world_seed, upstream: None }
}

/// What references read in a chunk, the world graph being evaluated to `cache`.
pub open spec fn chunk_upstream(
    world: Graph,
    world_seed: u64,
    cache: Map<u64, ColumnView>,
) -> Map<u32, UpstreamView> {
    if world.nodes@ == Map::<NodeId, Node>::empty() {
        Map::empty()
    } else {
        Map::empty().insert(
            GraphRefTarget::World.rank(),
            UpstreamView { nodes: world.nodes@, edges: world.edges@, world_seed, cache },
        )
    }
}

/// What a zone graph's columns are evaluated with.
pub open spec fn zone_env(
    world: Graph,
    zone: ZoneGraph,
    world_seed: u64,
    cache: Map<u64, ColumnView>,
) -> ColumnEnv {
    ColumnEnv {
        nodes: zone.graph.nodes@,
        edges: zone.graph.edges@,
        world_seed,
        upstream: Some(chunk_upstream(world, world_seed, cache)),
    }
}

proof fn lemma_acyclic_settles(g: Graph, id: NodeId)
    requires
        !cyclic(g.nodes@, g.edges@),
        g.nodes@.dom().finite(),
        g.nodes@.contains_key(id),
    ensures
        settles(g.nodes@, g.edges@, id),
{
    every_node_settles_iff_acyclic(g.nodes@, g.edges@);
}

/// The zone of a column, computed alone, is the zone that evaluating the chunk
/// assigns it.
pub proof fn single_zones_agree_with_chunks(
    world: Graph,
    world_seed: u64,
    output: NodeId,
    cache: Map<u64, ColumnView>,
    noise: NoiseModel,
    i: int,
)
    requires
        world.nodes@.dom().finite(),
        !cyclic(world.nodes@, world.edges@),
        faithful(world_env(world, world_seed), cache, noise),
        cached_ids(cache, Some(output)) is Some,
        0 <= i < 1024,
    ensures
        zone_plan_of(world, world_seed, Some(output)) matches Ok(Some(p)) && cached_ids(
            cache,
            Some(output),
        )->0[i] == id_given(p, noise(p.params, p.seed, i)),
{
    let env = world_env(world, world_seed);
    assert(cache.contains_key(output.code()));
    lemma_acyclic_settles(world, output);
    single_columns_agree_with_filling(env, cache, noise, output, i);
}

/// The biome of a column, computed alone, is the biome that evaluating the chunk
/// assigns it: through references to the world graph as well.
pub proof fn single_biomes_agree_with_chunks(
    world: Graph,
    zone: ZoneGraph,
    world_seed: u64,
    world_cache: Map<u64, ColumnView>,
    cache: Map<u64, ColumnView>,
    noise: NoiseModel,
    i: int,
)
    requires
        world.nodes@.dom().finite(),
        zone.graph.nodes@.dom().finite(),
        !cyclic(world.nodes@, world.edges@),
        !cyclic(zone.graph.nodes@, zone.graph.edges@),
        faithful(world_env(world, world_seed), world_cache, noise),
        faithful(zone_env(world, zone, world_seed, world_cache), cache, noise),
        cached_ids(cache, zone.output) is Some,
        0 <= i < 1024,
    ensures
        biome_plan_of(world, zone, world_seed) matches Ok(Some(p)) && cached_ids(
            cache,
            zone.output,
        )->0[i] == id_given(p, noise(p.params, p.seed, i)),
{
    let output = zone.output->0;
    let env = zone_env(world, zone, world_seed, world_cache);
    let alone = ColumnEnv {
        nodes: zone.graph.nodes@,
        edges: zone.graph.edges@,
        world_seed,
        upstream: Some(pointwise_upstream(world, world_seed)),
    };
    assert(cache.contains_key(output.code()));
    lemma_acyclic_settles(zone.graph, output);
    assert forall|k: u32, n: NodeId|
        #![trigger env.upstream->0[k].nodes.contains_key(n)]
        env.upstream->0.contains_key(k) && env.upstream->0[k].nodes.contains_key(n) implies settles(
        env.upstream->0[k].nodes,
        env.upstream->0[k].edges,
        n,
    ) by {
        lemma_acyclic_settles(world, n);
    }
    assert(upstream_faithful(env, noise));
    single_columns_agree_with_filling(env, cache, noise, output, i);
    assert(env.upstream->0.dom() =~= alone.upstream->0.dom());
    assert(read_alike(env, alone));
    plans_ignore_caches(
        env,
        alone,
        output,
        depth(zone.graph.nodes@, zone.graph.edges@, output),
    );
}

/// A map of single columns shows each column the zone and biome that evaluating
/// its chunk gives it.
pub proof fn maps_agree_with_chunks(
    world: Graph,
    zones: Seq<ZoneGraph>,
    world_seed: u64,
    output: NodeId,
    world_cache: Map<u64, ColumnView>,
    caches: Seq<ColumnCache>,
    noise: NoiseModel,
    x: int,
    z: int,
    at: int,
)
    requires
        0 <= x < 32,
        0 <= z < 32,
        world.nodes@.dom().finite(),
        !cyclic(world.nodes@, world.edges@),
        faithful(world_env(world, world_seed), world_cache, noise),
        cached_ids(world_cache, Some(output)) is Some,
        at == zone_position(
            zones,
            cached_ids(world_cache, Some(output))->0[column_index(x, z)],
            0,
        ),
        0 <= at < zones.len(),
        zones[at].graph.nodes@.dom().finite(),
        !cyclic(zones[at].graph.nodes@, zones[at].graph.edges@),
        faithful(zone_env(world, zones[at], world_seed, world_cache), caches[at]@, noise),
        cached_ids(caches[at]@, zones[at].output) is Some,
    ensures
        zone_plan_of(world, world_seed, Some(output)) matches Ok(Some(p)) && at == zone_position(
            zones,
            id_given(p, noise(p.params, p.seed, column_index(x, z))),
            0,
        ),
        biome_plan_of(world, zones[at], world_seed) matches Ok(Some(q)) && biome_by_zone(
            zones,
            caches,
            cached_ids(world_cache, Some(output)),
            x,
            z,
        ) == id_given(q, noise(q.params, q.seed, column_index(x, z))),
{
    let i = column_index(x, z);
    single_zones_agree_with_chunks(world, world_seed, output, world_cache, noise, i);
    single_biomes_agree_with_chunks(
        world,
        zones[at],
        world_seed,
        world_cache,
        caches[at]@,
        noise,
        i,
    );
}

} // verus!
