//! What draws, points and sampled ids hold to.
use crate::bands::{assignable, assigned_id, region_id, thresholds_met};
use crate::column_cache::ColumnView;
use crate::column_eval::{column_plan, depth, ColumnEnv, ColumnPlanView};
use crate::context::{cell_seed_of, EvalContext};
use crate::eval_error::EvalError;
use crate::fraction::fraction_single;
use crate::graph::Graph;
use crate::ids::GraphRefTarget;
use crate::inspect::{channel_of, channels_of, filed, ChannelView};
use crate::node::Node;
use crate::order::cyclic;
use crate::params::NoiseParams;
use crate::scalar::Single;
use crate::scatter::{
    draw, drawn_in_cell, fraction_of, point_seed_of, seeded_points, stream_state,
};
use crate::slots::NodeId;
use crate::text::text_before;
use crate::voxel::IVec3;
use crate::world::ZoneGraph;
use crate::world_ids::{
    biome_plan_of, id_plan_result, plan_position, planned_id, pointwise_upstream, stride,
    zone_plan_of, IdPlans,
};
use vstd::prelude::*;

verus! {

/// Every threshold counts on its own: one more raises a value's region by one just where the
/// value is not below it.
pub proof fn thresholds_count_one_by_one(value: Single, bands: Seq<Single>, b: Single)
    ensures
        thresholds_met(value, Seq::empty()) == 0,
        value.at_least(b) ==> thresholds_met(value, bands.push(b)) == thresholds_met(value, bands)
            + 1,
        !value.at_least(b) ==> thresholds_met(value, bands.push(b)) == thresholds_met(value, bands),
{
    assert(bands.push(b).drop_last() =~= bands);
}

proof fn lemma_met_bound(value: Single, bands: Seq<Single>)
    ensures
        thresholds_met(value, bands) <= bands.len(),
    decreases bands.len(),
{
    if bands.len() > 0 {
        lemma_met_bound(value, bands.drop_last());
    }
}

/// What a band table assigns to a value is among the ids it can assign, and those are just
/// the ids of its regions: one more than it has thresholds, by their number where none is
/// listed.
pub proof fn assigned_ids_are_assignable(value: Single, bands: Seq<Single>, ids: Seq<u16>, id: u16)
    requires
        bands.len() < 0x1_0000,
    ensures
        assignable(bands.len() as int, ids, assigned_id(value, bands, ids)),
        assignable(bands.len() as int, ids, id) <==> exists|k: int|
            0 <= k <= bands.len() && #[trigger] called(ids, k, id),
{
    lemma_met_bound(value, bands);
    let met = thresholds_met(value, bands) as int;
    assert(region_id((met % 0x1_0000) as u16, ids) == assigned_id(value, bands, ids));
    if assignable(bands.len() as int, ids, id) {
        let k = choose|k: int|
            0 <= k <= bands.len() && #[trigger] region_id((k % 0x1_0000) as u16, ids) == id;
        assert(called(ids, k, id));
    }
    if exists|k: int| 0 <= k <= bands.len() && #[trigger] called(ids, k, id) {
        let k = choose|k: int| 0 <= k <= bands.len() && #[trigger] called(ids, k, id);
        assert(region_id((k % 0x1_0000) as u16, ids) == id);
    }
}

/// Whether a region has an id.
pub open spec fn called(ids: Seq<u16>, k: int, id: u16) -> bool {
    if k < ids.len() {
        ids[k] == id
    } else {
        k == id
    }
}

/// A draw counts as the fraction that its leading 24 bits make.
pub proof fn fractions_are_leading_bits(d: u64)
    ensures
        fraction_of(d) == d / 0x100_0000_0000,
{
    assert(((d >> 40) as u32) == d / 0x100_0000_0000) by (bit_vector);
}

/// What a cell of a jittered grid yields follows from the draws of the cell, each of which
/// counts once: the first decides whether it yields a point, the next two where along and
/// across the cell, and the last seeds the point.
pub proof fn grid_cells_draw_once_for_each_choice(
    world_seed: u64,
    node_seed: u32,
    density: Single,
    cx: i64,
    cz: i64,
)
    ensures
        ({
            let seed = cell_seed_of(world_seed, node_seed, cx, cz);
            match drawn_in_cell(world_seed, node_seed, density, cx, cz) {
                None => fraction_single(draw(seed, 0) as int / 0x100_0000_0000).at_least(density),
                Some(g) => {
                    &&& !fraction_single(draw(seed, 0) as int / 0x100_0000_0000).at_least(density)
                    &&& g.along == draw(seed, 1) / 0x100_0000_0000
                    &&& g.across == draw(seed, 2) / 0x100_0000_0000
                    &&& g.seed == draw(seed, 3)
                },
            }
        }),
{
    let seed = cell_seed_of(world_seed, node_seed, cx, cz);
    fractions_are_leading_bits(draw(seed, 0));
    fractions_are_leading_bits(draw(seed, 1));
    fractions_are_leading_bits(draw(seed, 2));
}

/// A stream of draws goes on from where it stands: a draw later of one stream is the draw
/// before of the stream that starts one step on.
pub proof fn streams_go_on(seed: u64, n: nat)
    ensures
        draw(seed, n + 1) == draw(stream_state(seed, 1), n),
{
    lemma_stream(seed, n);
}

proof fn lemma_stream(seed: u64, n: nat)
    ensures
        stream_state(seed, n + 1) == stream_state(stream_state(seed, 1), n),
    decreases n,
{
    if n > 0 {
        lemma_stream(seed, (n - 1) as nat);
    }
}

/// Points keep their places and their order, know no surface yet, and are seeded by their
/// number.
pub proof fn points_are_seeded_by_number(base: u64, positions: Seq<(Single, Single)>, i: int)
    requires
        0 <= i < positions.len() <= 0xffff_ffff,
    ensures
        seeded_points(base, positions).len() == positions.len(),
        seeded_points(base, positions)[i].lx == positions[i].0,
        seeded_points(base, positions)[i].lz == positions[i].1,
        seeded_points(base, positions)[i].surface_y is None,
        seeded_points(base, positions)[i].seed == point_seed_of(base, i as u64),
{
}

/// Cells of the world go on from chunk to chunk: a cell's place is one further for one cell
/// more, and the first of the next chunk follows the last of this one.
pub proof fn chunks_adjoin(ctx: EvalContext, next: EvalContext, x: int, y: int, z: int)
    ensures
        ({
            let (a, b, c) = ctx.world_cell_of(x, y, z);
            &&& ctx.world_cell_of(x + 1, y, z) == (a + 1, b, c)
            &&& ctx.world_cell_of(x, y + 1, z) == (a, b + 1, c)
            &&& ctx.world_cell_of(x, y, z + 1) == (a, b, c + 1)
            &&& ctx.chunk == (IVec3 { x: 0, y: 0, z: 0 }) ==> (a, b, c) == (x, y, z)
            &&& next.chunk.x == ctx.chunk.x + 1 && next.chunk.y == ctx.chunk.y && next.chunk.z
                == ctx.chunk.z ==> next.world_cell_of(x, y, z) == ctx.world_cell_of(x + 32, y, z)
            &&& next.chunk.x == ctx.chunk.x && next.chunk.y == ctx.chunk.y + 1 && next.chunk.z
                == ctx.chunk.z ==> next.world_cell_of(x, y, z) == ctx.world_cell_of(x, y + 32, z)
            &&& next.chunk.x == ctx.chunk.x && next.chunk.y == ctx.chunk.y && next.chunk.z
                == ctx.chunk.z + 1 ==> next.world_cell_of(x, y, z) == ctx.world_cell_of(x, y, z + 32)
        }),
{
}

/// Samples of a map lie as far apart as asked for, and at least one column.
pub proof fn samples_lie_apart(step: i32)
    ensures
        stride(step) >= 1,
        stride(step) >= step,
        stride(step) == step || stride(step) == 1,
{
}

/// A channel is a named output of the world graph that has a value at every column, and goes
/// by its name and by the noise of that value.
pub proof fn channels_are_named_outputs(
    world: Graph,
    world_seed: u64,
    id: NodeId,
    plan: ColumnPlanView,
)
    requires
        column_plan(
            ColumnEnv { nodes: world.nodes@, edges: world.edges@, world_seed, upstream: None },
            id,
            depth(world.nodes@, world.edges@, id),
        ) == Ok::<ColumnPlanView, EvalError>(plan),
    ensures
        channel_of(world, world_seed, id) is Some <==> world.nodes@[id].kind is GraphOutput
            && plan.bands is None,
        channel_of(world, world_seed, id) matches Some(c) ==> {
            &&& c.name == world.nodes@[id].kind->GraphOutput_0.name@
            &&& c.params == plan.params
            &&& c.seed == plan.seed
        },
{
}

proof fn lemma_filed(s: Seq<ChannelView>, c: ChannelView)
    ensures
        filed(s, c).to_multiset() == s.to_multiset().insert(c),
    decreases s.len(),
{
    broadcast use vstd::seq_lib::group_to_multiset_ensures;
    broadcast use vstd::multiset::group_multiset_axioms;

    if s.len() > 0 && text_before(c.name, s.last().name) {
        lemma_filed(s.drop_last(), c);
        assert(s =~= s.drop_last().push(s.last()));
        assert(filed(s, c).to_multiset() =~= s.to_multiset().insert(c));
    }
}

/// Every node that is a channel is listed once.
pub proof fn every_channel_is_listed(
    world: Graph,
    world_seed: u64,
    keys: Seq<NodeId>,
    id: NodeId,
)
    ensures
        channels_of(world, world_seed, Seq::empty()).len() == 0,
        match channel_of(world, world_seed, id) {
            None => channels_of(world, world_seed, keys.push(id)) == channels_of(
                world,
                world_seed,
                keys,
            ),
            Some(c) => channels_of(world, world_seed, keys.push(id)).to_multiset() == channels_of(
                world,
                world_seed,
                keys,
            ).to_multiset().insert(c),
        },
{
    assert(keys.push(id).drop_last() =~= keys);
    if let Some(c) = channel_of(world, world_seed, id) {
        lemma_filed(channels_of(world, world_seed, keys), c);
    }
}

proof fn lemma_plan_position(
    plans: IdPlans,
    zone: u16,
    from: int,
    at: int,
)
    requires
        0 <= from <= at <= plans.biomes@.len(),
        at < plans.biomes@.len() ==> plans.biomes@[at].0 == zone,
        forall|j: int| from <= j < at ==> (#[trigger] plans.biomes@[j]).0 != zone,
    ensures
        plan_position(plans.biomes@, zone, from) == at,
    decreases at - from,
{
    if from < at {
        assert(plans.biomes@[from].0 != zone);
        lemma_plan_position(plans, zone, from + 1, at);
    }
}

/// A column that is given a zone and a biome has the zone that the world's plan gives there,
/// and the biome that the first plan of that zone gives there, 0 where the zone has none.
pub proof fn biomes_are_planned_by_their_zone<F: Fn(NoiseParams, i32, i32, i32) -> Single>(
    plans: IdPlans,
    noise: F,
    wx: i32,
    wz: i32,
    zone: u16,
    biome: u16,
    at: int,
)
    requires
        plans.gives(noise, wx, wz, Ok::<(u16, u16), EvalError>((zone, biome))),
    ensures
        planned_id(id_plan_result(plans.zone), noise, wx, wz, Ok::<u16, EvalError>(zone)),
        0 <= at < plans.biomes@.len() && plans.biomes@[at].0 == zone && (forall|j: int|
            0 <= j < at ==> (#[trigger] plans.biomes@[j]).0 != zone) ==> planned_id(
            id_plan_result(plans.biomes@[at].1),
            noise,
            wx,
            wz,
            Ok::<u16, EvalError>(biome),
        ),
        (forall|j: int| 0 <= j < plans.biomes@.len() ==> (#[trigger] plans.biomes@[j]).0 != zone)
            ==> biome == 0,
{
    reveal(IdPlans::gives);
    if 0 <= at < plans.biomes@.len() && plans.biomes@[at].0 == zone && (forall|j: int|
        0 <= j < at ==> (#[trigger] plans.biomes@[j]).0 != zone) {
        lemma_plan_position(plans, zone, 0, at);
    }
    if forall|j: int| 0 <= j < plans.biomes@.len() ==> (#[trigger] plans.biomes@[j]).0 != zone {
        lemma_plan_position(plans, zone, 0, plans.biomes@.len() as int);
    }
}

/// The zone of a single column is planned by the world graph's terminal, the biome by that of
/// a zone graph, which may read the world graph: nothing is planned without a terminal,
/// cycles fail, and so does a terminal that gives no ids.
pub proof fn ids_are_planned_by_the_terminal(
    world: Graph,
    zone: ZoneGraph,
    world_seed: u64,
    n: NodeId,
)
    ensures
        zone_plan_of(world, world_seed, None) == Ok::<Option<ColumnPlanView>, EvalError>(None),
        zone.output is None ==> biome_plan_of(world, zone, world_seed) == Ok::<
            Option<ColumnPlanView>,
            EvalError,
        >(None),
        cyclic(world.nodes@, world.edges@) ==> zone_plan_of(world, world_seed, Some(n)) == Err::<
            Option<ColumnPlanView>,
            EvalError,
        >(EvalError::Cyclic),
        zone.output is Some && (cyclic(world.nodes@, world.edges@) || cyclic(
            zone.graph.nodes@,
            zone.graph.edges@,
        )) ==> biome_plan_of(world, zone, world_seed) == Err::<Option<ColumnPlanView>, EvalError>(
            EvalError::Cyclic,
        ),
        !cyclic(world.nodes@, world.edges@) ==> match (
            zone_plan_of(world, world_seed, Some(n)),
            column_plan(
                ColumnEnv { nodes: world.nodes@, edges: world.edges@, world_seed, upstream: None },
                n,
                depth(world.nodes@, world.edges@, n),
            ),
        ) {
            (Ok(Some(p)), Ok(q)) => p == q && q.bands is Some,
            (Err(e), Ok(q)) => q.bands is None && e == (EvalError::WrongInputType {
                node: n,
                expected: "id",
                got: "surface",
            }),
            (Err(e), Err(f)) => e == f,
            _ => false,
        },
        !cyclic(world.nodes@, world.edges@) && !cyclic(zone.graph.nodes@, zone.graph.edges@)
            && zone.output == Some(n) && zone.graph.nodes@.contains_key(n) ==> match (
            biome_plan_of(world, zone, world_seed),
            column_plan(
                ColumnEnv {
                    nodes: zone.graph.nodes@,
                    edges: zone.graph.edges@,
                    world_seed,
                    upstream: Some(pointwise_upstream(world, world_seed)),
                },
                n,
                depth(zone.graph.nodes@, zone.graph.edges@, n),
            ),
        ) {
            (Ok(Some(p)), Ok(q)) => p == q && q.bands is Some,
            (Err(e), Ok(q)) => q.bands is None && e == (EvalError::WrongInputType {
                node: n,
                expected: "id",
                got: "surface",
            }),
            (Err(e), Err(f)) => e == f,
            _ => false,
        },
{
}

/// A zone graph reads the world graph alone, with the world's own seed, where that has nodes.
pub proof fn zones_read_the_world(world: Graph, world_seed: u64, target: GraphRefTarget)
    ensures
        ({
            let read = pointwise_upstream(world, world_seed);
            &&& read.contains_key(target.rank()) <==> target == GraphRefTarget::World
                && world.nodes@ != Map::<NodeId, Node>::empty()
            &&& read.contains_key(target.rank()) ==> {
                let graph = read[target.rank()];
                &&& graph.nodes == world.nodes@
                &&& graph.edges == world.edges@
                &&& graph.world_seed == world_seed
                &&& graph.cache == Map::<u64, ColumnView>::empty()
            }
        }),
{
}

} // verus!
