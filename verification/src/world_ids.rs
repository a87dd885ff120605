//! Which zone and which biome a column belongs to.
use crate::bands::{assigned_id, band_id, quantize_one};
use crate::chunk::column_index;
use crate::column::IdColumn;
use crate::column_cache::{ColumnCache, ColumnView};
use crate::column_eval::{
    column_plan, depth, plan_result, ColumnEnv, ColumnEvaluator, ColumnPlan, ColumnPlanView,
    UpstreamView,
};
use crate::composite::column_biome;
use crate::context::EvalContext;
use crate::eval_error::{EvalError, EvalResult};
use crate::graph::Graph;
use crate::ids::GraphRefTarget;
use crate::index::indexable;
use crate::node::Node;
use crate::order::{cyclic, every_node_settles_iff_acyclic, lemma_unsettled_members, settles, unsettled};
use crate::params::{copy_vec, NoiseParams};
use crate::scalar::Single;
use crate::shared::share;
use crate::slots::{is_key_order, key_order_is_distinct, NodeId};
use crate::upstream::UpstreamGraphs;
use crate::voxel::IVec3;
use crate::world::{
    find_zone, first_terminal, terminal_is, zone_position, Terminal, WorldEvaluator, ZoneGraph,
};
use std::sync::Arc;
use vstd::prelude::*;

verus! {

/// How the id of a single column is computed: one noise lookup, and the bands its
/// value is put through.
#[derive(Debug)]
pub struct IdPlan {
    /// The noise.
    pub params: NoiseParams,
    /// Its seed.
    pub seed: i32,
    /// Thresholds.
    pub bands: Vec<Single>,
    /// Ids.
    pub ids: Vec<u16>,
}

impl IdPlan {
    /// The plan, as values.
    pub open spec fn view(&self) -> ColumnPlanView {
        ColumnPlanView {
            params: self.params,
            seed: self.seed,
            bands: Some((self.bands@, self.ids@)),
        }
    }

    /// The id of the column, once the noise there is known.
    pub fn finish(&self, noise: Single) -> (r: u16)
        ensures
            r == assigned_id(noise, self.bands@, self.ids@),
    {
        band_id(quantize_one(noise, self.bands.as_slice()), self.ids.as_slice())
    }
}

/// A plan that gives ids; one that does not is an error.
pub open spec fn must_give_ids(plan: Result<ColumnPlanView, EvalError>, node: NodeId) -> Result<
    ColumnPlanView,
    EvalError,
> {
    match plan {
        Err(e) => Err(e),
        Ok(p) => if p.bands is Some {
            Ok(p)
        } else {
            Err(EvalError::WrongInputType { node, expected: "id", got: "surface" })
        },
    }
}

fn own_plan(plan: EvalResult<ColumnPlan<'_>>, node: NodeId) -> (r: EvalResult<IdPlan>)
    ensures
        match r {
            Ok(p) => must_give_ids(plan_result(plan), node) == Ok::<ColumnPlanView, EvalError>(p@),
            Err(e) => must_give_ids(plan_result(plan), node) == Err::<ColumnPlanView, EvalError>(e),
        },
{
    match plan {
        Err(e) => Err(e),
        Ok(p) => match p.bands {
            None => Err(EvalError::WrongInputType { node, expected: "id", got: "surface" }),
            Some((bands, ids)) => Ok(
                IdPlan {
                    params: p.params,
                    seed: p.seed,
                    bands: copy_vec(bands),
                    ids: copy_vec(ids),
                },
            ),
        },
    }
}

/// The graphs that references read when single columns are computed: the world
/// graph, if it has any nodes. Nothing of it is cached.
pub open spec fn pointwise_upstream(world: Graph, world_seed: u64) -> Map<u32, UpstreamView> {
    if world.nodes@ == Map::<NodeId, Node>::empty() {
        Map::empty()
    } else {
        Map::empty().insert(
            GraphRefTarget::World.rank(),
            UpstreamView {
                nodes: world.nodes@,
                edges: world.edges@,
                world_seed,
                cache: Map::empty(),
            },
        )
    }
}

/// How the zone of a single column is computed, or nothing without a terminal.
pub open spec fn zone_plan_of(world: Graph, world_seed: u64, output: Option<NodeId>) -> Result<
    Option<ColumnPlanView>,
    EvalError,
> {
    match output {
        None => Ok(None),
        Some(n) => if cyclic(world.nodes@, world.edges@) {
            Err(EvalError::Cyclic)
        } else {
            let env = ColumnEnv {
                nodes: world.nodes@,
                edges: world.edges@,
                world_seed,
                upstream: None,
            };
            match must_give_ids(
                column_plan(env, n, depth(world.nodes@, world.edges@, n)),
                n,
            ) {
                Ok(p) => Ok(Some(p)),
                Err(e) => Err(e),
            }
        },
    }
}

/// How a zone computes the biome of a single column, or nothing without a
/// terminal.
pub open spec fn biome_plan_of(world: Graph, zone: ZoneGraph, world_seed: u64) -> Result<
    Option<ColumnPlanView>,
    EvalError,
> {
    match zone.output {
        None => Ok(None),
        Some(n) => if cyclic(zone.graph.nodes@, zone.graph.edges@) || cyclic(
            world.nodes@,
            world.edges@,
        ) {
            Err(EvalError::Cyclic)
        } else if !zone.graph.nodes@.contains_key(n) {
            Err(EvalError::MissingOutput(n))
        } else {
            let env = ColumnEnv {
                nodes: zone.graph.nodes@,
                edges: zone.graph.edges@,
                world_seed,
                upstream: Some(pointwise_upstream(world, world_seed)),
            };
            match must_give_ids(
                column_plan(env, n, depth(zone.graph.nodes@, zone.graph.edges@, n)),
                n,
            ) {
                Ok(p) => Ok(Some(p)),
                Err(e) => Err(e),
            }
        },
    }
}

/// A plan, an absent one or an error, as values.
pub open spec fn id_plan_result(r: EvalResult<Option<IdPlan>>) -> Result<
    Option<ColumnPlanView>,
    EvalError,
> {
    match r {
        Ok(Some(p)) => Ok(Some(p@)),
        Ok(None) => Ok(None),
        Err(e) => Err(e),
    }
}

/// Whether a graph has no cycle.
pub(crate) fn has_order(graph: &Graph) -> (r: bool)
    ensures
        r == !cyclic(graph.nodes@, graph.edges@),
        r ==> forall|id: NodeId|
            graph.nodes@.contains_key(id) ==> #[trigger] settles(graph.nodes@, graph.edges@, id),
{
    let keys = graph.nodes.keys();
    proof {
        key_order_is_distinct(graph.nodes@, keys@);
        every_node_settles_iff_acyclic(graph.nodes@, graph.edges@);
    }
    match graph.topological_order() {
        Ok(_) => true,
        Err(blocked) => {
            proof {
                let listed = choose|listed: Seq<NodeId>| #[trigger]
                    is_key_order(graph.nodes@, listed) && blocked@ == unsettled(
                        graph.nodes@,
                        graph.edges@,
                        listed,
                    );
                lemma_unsettled_members(graph.nodes@, graph.edges@, listed);
                assert(blocked@.contains(blocked@[0]));
                assert(listed.contains(blocked@[0]));
                assert(graph.nodes@.contains_key(blocked@[0]));
            }
            false
        },
    }
}

/// How zones and biomes of single columns are computed.
#[derive(Debug)]
pub struct IdPlans {
    /// How the zone is.
    pub zone: EvalResult<Option<IdPlan>>,
    /// How each zone's biomes are.
    pub biomes: Vec<(u16, EvalResult<Option<IdPlan>>)>,
}

/// The id that a plan gives for a noise value.
pub open spec fn id_given(p: ColumnPlanView, noise: Single) -> u16 {
    match p.bands {
        Some((bands, ids)) => assigned_id(noise, bands, ids),
        None => 0,
    }
}

/// Whether a result may be the id that a plan gives a column, `noise` answering
/// for the noise there; 0 without a plan.
pub open spec fn planned_id<F: Fn(NoiseParams, i32, i32, i32) -> Single>(
    plan: Result<Option<ColumnPlanView>, EvalError>,
    noise: F,
    wx: i32,
    wz: i32,
    r: Result<u16, EvalError>,
) -> bool {
    match plan {
        Err(e) => r == Err::<u16, EvalError>(e),
        Ok(None) => r == Ok::<u16, EvalError>(0),
        Ok(Some(p)) => exists|v: Single| #[trigger]
            call_ensures(noise, (p.params, p.seed, wx, wz), v) && r == Ok::<u16, EvalError>(
                id_given(p, v),
            ),
    }
}

/// Position of the plan for a zone, from `from` on; the length if none.
pub open spec fn plan_position(
    biomes: Seq<(u16, EvalResult<Option<IdPlan>>)>,
    zone: u16,
    from: int,
) -> int
    decreases biomes.len() - from,
{
    if from < 0 || from >= biomes.len() || biomes[from].0 == zone {
        from
    } else {
        plan_position(biomes, zone, from + 1)
    }
}

fn follow<F: Fn(NoiseParams, i32, i32, i32) -> Single>(
    plan: &EvalResult<Option<IdPlan>>,
    noise: &F,
    wx: i32,
    wz: i32,
) -> (r: EvalResult<u16>)
    requires
        forall|p: NoiseParams, s: i32, x: i32, z: i32| #[trigger]
            call_requires(*noise, (p, s, x, z)),
    ensures
        planned_id(id_plan_result(*plan), *noise, wx, wz, r),
{
    match plan {
        Err(e) => Err(*e),
        Ok(None) => Ok(0),
        Ok(Some(p)) => {
            let v = noise(p.params, p.seed, wx, wz);
            Ok(p.finish(v))
        },
    }
}

impl IdPlans {
    /// Whether a result may be the zone and biome of a column: the zone first, then
    /// the biome as that zone's plan says, 0 where no plan is for the zone.
    #[verifier::opaque]
    pub open spec fn gives<F: Fn(NoiseParams, i32, i32, i32) -> Single>(
        &self,
        noise: F,
        wx: i32,
        wz: i32,
        r: Result<(u16, u16), EvalError>,
    ) -> bool {
        exists|zone: Result<u16, EvalError>| #[trigger]
            planned_id(id_plan_result(self.zone), noise, wx, wz, zone) && match zone {
                Err(e) => r == Err::<(u16, u16), EvalError>(e),
                Ok(z) => {
                    let at = plan_position(self.biomes@, z, 0);
                    if at >= self.biomes@.len() {
                        r == Ok::<(u16, u16), EvalError>((z, 0))
                    } else {
                        exists|biome: Result<u16, EvalError>| #[trigger]
                            planned_id(id_plan_result(self.biomes@[at].1), noise, wx, wz, biome)
                                && match biome {
                                Err(e) => r == Err::<(u16, u16), EvalError>(e),
                                Ok(b) => r == Ok::<(u16, u16), EvalError>((z, b)),
                            }
                    }
                },
            }
    }

    /// Whether the first columns of a map have the zones and biomes `before`, row by
    /// row, and the column after them, still one of the map, fails.
    pub open spec fn map_failed<F: Fn(NoiseParams, i32, i32, i32) -> Single>(
        &self,
        noise: F,
        origin_x: i32,
        origin_z: i32,
        apart: int,
        dim: usize,
        before: Seq<(u16, u16)>,
        e: EvalError,
    ) -> bool {
        let n = before.len() as int;
        &&& n < dim * dim
        &&& forall|i: int|
            0 <= i < n ==> self.gives(
                noise,
                (origin_x + (i % dim as int) * apart) as i32,
                (origin_z + (i / dim as int) * apart) as i32,
                Ok::<(u16, u16), EvalError>(#[trigger] before[i]),
            )
        &&& self.gives(
            noise,
            (origin_x + (n % dim as int) * apart) as i32,
            (origin_z + (n / dim as int) * apart) as i32,
            Err::<(u16, u16), EvalError>(e),
        )
    }

    /// The zone and biome of a column, `noise` answering for the noise there.
    pub fn at<F: Fn(NoiseParams, i32, i32, i32) -> Single>(
        &self,
        noise: &F,
        wx: i32,
        wz: i32,
    ) -> (r: EvalResult<(u16, u16)>)
        requires
            forall|p: NoiseParams, s: i32, x: i32, z: i32| #[trigger]
                call_requires(*noise, (p, s, x, z)),
        ensures
            self.gives(*noise, wx, wz, r),
    {
        proof {
            reveal(IdPlans::gives);
        }
        let zone = follow(&self.zone, noise, wx, wz);
        match zone {
            Err(e) => Err(e),
            Ok(z) => {
                let mut k: usize = 0;
                while k < self.biomes.len() && self.biomes[k].0 != z
                    invariant
                        k <= self.biomes@.len(),
                        plan_position(self.biomes@, z, 0) == plan_position(
                            self.biomes@,
                            z,
                            k as int,
                        ),
                    decreases self.biomes@.len() - k,
                {
                    k = k + 1;
                }
                assert(plan_position(self.biomes@, z, 0) == k);
                if k >= self.biomes.len() {
                    Ok((z, 0))
                } else {
                    let biome = follow(&self.biomes[k].1, noise, wx, wz);
                    match biome {
                        Err(e) => Err(e),
                        Ok(b) => Ok((z, b)),
                    }
                }
            },
        }
    }
}

/// Whether the edges of a world's column graphs can be indexed.
pub open spec fn columns_indexable(w: WorldEvaluator) -> bool {
    &&& indexable(w.world.edges@)
    &&& forall|i: int| 0 <= i < w.zones@.len() ==> indexable((#[trigger] w.zones@[i]).graph.edges@)
}

/// A grid of zone and biome ids, seen from above.
#[derive(PartialEq, Eq, Debug)]
pub struct IdMap {
    /// Samples along an edge.
    pub dim: usize,
    /// World column of the first sample.
    pub origin_x: i32,
    /// World column of the first sample.
    pub origin_z: i32,
    /// World columns between samples.
    pub step: i32,
    /// Zones, row by row.
    pub zone: Vec<u16>,
    /// Biomes, row by row.
    pub biome: Vec<u16>,
}

/// The distance between samples: at least one column.
pub open spec fn stride(step: i32) -> int {
    if step >= 1 {
        step as int
    } else {
        1
    }
}

proof fn lemma_grid_cell(k: int, dim: int, apart: int)
    requires
        0 <= k < dim * dim,
        dim >= 0,
        1 <= apart <= 0x7fff_ffff,
    ensures
        0 <= k % dim < dim,
        0 <= k / dim < dim,
        0 <= (k % dim) * apart <= (dim - 1) * apart,
        0 <= (k / dim) * apart <= (dim - 1) * apart,
{
    assert(dim > 0) by (nonlinear_arith)
        requires
            0 <= k < dim * dim,
            dim >= 0,
    ;
    assert(0 <= k / dim < dim && 0 <= k % dim < dim) by (nonlinear_arith)
        requires
            0 <= k < dim * dim,
            dim > 0,
    ;
    let a = k % dim;
    let b = k / dim;
    assert(0 <= a * apart <= (dim - 1) * apart) by (nonlinear_arith)
        requires
            0 <= a <= dim - 1,
            apart >= 1,
    ;
    assert(0 <= b * apart <= (dim - 1) * apart) by (nonlinear_arith)
        requires
            0 <= b <= dim - 1,
            apart >= 1,
    ;
}

fn grid_coordinate(origin: i32, g: usize, apart: i32) -> (r: i32)
    requires
        apart >= 1,
        origin + g * apart <= 0x7fff_ffff,
    ensures
        r == origin + g * apart,
{
    proof {
        assert(g <= g * apart) by (nonlinear_arith)
            requires
                g >= 0,
                apart >= 1,
        ;
    }
    let far: i64 = g as i64 * apart as i64;
    (origin as i64 + far) as i32
}

/// The per-column ids of a chunk.
#[derive(Debug)]
pub struct ResolvedColumns {
    /// Zones, where the world graph assigns any.
    pub zone_ids: Option<Arc<IdColumn>>,
    /// Biomes, where there are zones.
    pub biome_ids: Option<Arc<IdColumn>>,
}

/// The ids that a terminal's cached output holds, if it holds any.
pub open spec fn cached_ids(cache: Map<u64, ColumnView>, output: Option<NodeId>) -> Option<Seq<u16>> {
    match output {
        Some(n) => if cache.contains_key(n.code()) && cache[n.code()] is Id {
            Some(cache[n.code()]->Id_0)
        } else {
            None
        },
        None => None,
    }
}

/// The biome of a column: the zone says which graph assigns it. It is 0 where no
/// graph is for the zone, or the graph assigned none.
pub open spec fn biome_by_zone(
    zones: Seq<ZoneGraph>,
    caches: Seq<ColumnCache>,
    zone_ids: Option<Seq<u16>>,
    x: int,
    z: int,
) -> u16 {
    let at = zone_position(zones, column_biome(zone_ids, x, z), 0);
    if at >= zones.len() {
        0
    } else {
        match cached_ids(caches[at]@, zones[at].output) {
            Some(ids) => ids[column_index(x, z)],
            None => 0,
        }
    }
}

fn find_ids(cache: &ColumnCache, output: Option<NodeId>) -> (r: Option<&Arc<IdColumn>>)
    ensures
        match r {
            Some(c) => cached_ids(cache@, output) == Some(c@),
            None => cached_ids(cache@, output) is None,
        },
{
    match output {
        None => None,
        Some(n) => match cache.get(n) {
            None => None,
            Some(out) => out.as_id(),
        },
    }
}

/// The ids of columns behind a pointer, as values.
pub open spec fn shared_ids(c: Option<Arc<IdColumn>>) -> Option<Seq<u16>> {
    match c {
        Some(c) => Some(c@),
        None => None,
    }
}

fn plan_zone(world: &Graph, world_seed: u64, found: Option<NodeId>) -> (r: EvalResult<
    Option<IdPlan>,
>)
    requires
        indexable(world.edges@),
        found matches Some(n) ==> world.nodes@.contains_key(n),
    ensures
        id_plan_result(r) == zone_plan_of(*world, world_seed, found),
{
    match found {
        None => Ok(None),
        Some(n) => {
            if !has_order(world) {
                return Err(EvalError::Cyclic);
            }
            let ctx = EvalContext::new(world_seed, IVec3::zero());
            let eval = ColumnEvaluator::new(world, ctx);
            assert(settles(world.nodes@, world.edges@, n));
            match own_plan(eval.sample_column(n), n) {
                Ok(p) => Ok(Some(p)),
                Err(e) => Err(e),
            }
        },
    }
}

fn plan_biome(world: &Graph, zone: &ZoneGraph, world_seed: u64) -> (r: EvalResult<Option<IdPlan>>)
    requires
        indexable(world.edges@),
        indexable(zone.graph.edges@),
    ensures
        id_plan_result(r) == biome_plan_of(*world, *zone, world_seed),
{
    match zone.output {
        None => Ok(None),
        Some(n) => {
            if !has_order(&zone.graph) || !has_order(world) {
                return Err(EvalError::Cyclic);
            }
            if !zone.graph.nodes.contains_key(n) {
                return Err(EvalError::MissingOutput(n));
            }
            let ctx = EvalContext::new(world_seed, IVec3::zero());
            let nothing = ColumnCache::new();
            let mut upstream = UpstreamGraphs::new();
            if !world.nodes.is_empty() {
                upstream.insert(GraphRefTarget::World, world, ctx, &nothing);
            }
            assert(upstream@ =~= pointwise_upstream(*world, world_seed));
            let eval = ColumnEvaluator::new(&zone.graph, ctx).with_upstream(&upstream);
            proof {
                assert(settles(zone.graph.nodes@, zone.graph.edges@, n));
                lemma_upstream_settles(*world, world_seed);
            }
            match own_plan(eval.sample_column(n), n) {
                Ok(p) => Ok(Some(p)),
                Err(e) => Err(e),
            }
        },
    }
}

proof fn lemma_upstream_settles(world: Graph, world_seed: u64)
    requires
        forall|id: NodeId|
            world.nodes@.contains_key(id) ==> #[trigger] settles(world.nodes@, world.edges@, id),
    ensures
        ({
            let m = pointwise_upstream(world, world_seed);
            forall|k: u32, n: NodeId|
                #![trigger m[k].nodes.contains_key(n)]
                m.contains_key(k) && m[k].nodes.contains_key(n) ==> settles(
                    m[k].nodes,
                    m[k].edges,
                    n,
                )
        }),
{
}

impl WorldEvaluator {
    /// How the zone of a single column is computed, or nothing without a terminal.
    pub fn zone_plan(&self, world_seed: u64) -> (r: EvalResult<Option<IdPlan>>)
        requires
            indexable(self.world.edges@),
        ensures
            forall|n: Option<NodeId>| #[trigger]
                terminal_is(self.world.nodes@, Terminal::WorldOutput, n) ==> id_plan_result(r)
                    == zone_plan_of(self.world, world_seed, n),
    {
        let keys = self.world.nodes.keys();
        let found = self.world_output_node();
        proof {
            assert(is_key_order(self.world.nodes@, keys@));
            self.lemma_one_terminal(found);
        }
        plan_zone(&self.world, world_seed, found)
    }

    /// How the zones and biomes of single columns are computed.
    pub fn id_plans(&self, world_seed: u64) -> (r: IdPlans)
        requires
            columns_indexable(*self),
        ensures
            forall|n: Option<NodeId>| #[trigger]
                terminal_is(self.world.nodes@, Terminal::WorldOutput, n) ==> id_plan_result(r.zone)
                    == zone_plan_of(self.world, world_seed, n),
            r.biomes@.len() == self.zones@.len(),
            forall|i: int|
                0 <= i < r.biomes@.len() ==> (#[trigger] r.biomes@[i]).0 == self.zones@[i].id
                    && id_plan_result(r.biomes@[i].1) == biome_plan_of(
                    self.world,
                    self.zones@[i],
                    world_seed,
                ),
    {
        let zone = self.zone_plan(world_seed);
        let mut biomes: Vec<(u16, EvalResult<Option<IdPlan>>)> = Vec::new();
        let mut k: usize = 0;
        while k < self.zones.len()
            invariant
                k <= self.zones@.len(),
                columns_indexable(*self),
                biomes@.len() == k,
                forall|i: int|
                    0 <= i < k ==> (#[trigger] biomes@[i]).0 == self.zones@[i].id
                        && id_plan_result(biomes@[i].1) == biome_plan_of(
                        self.world,
                        self.zones@[i],
                        world_seed,
                    ),
            decreases self.zones@.len() - k,
        {
            assert(indexable(self.zones@[k as int].graph.edges@));
            let plan = plan_biome(&self.world, &self.zones[k], world_seed);
            biomes.push((self.zones[k].id, plan));
            k = k + 1;
        }
        IdPlans { zone, biomes }
    }

    /// The zone and biome of one world column. The chunk takes no part, so the
    /// answer is the same wherever one asks from. Without zones both are 0.
    pub fn sample_zone_and_biome_at<F: Fn(NoiseParams, i32, i32, i32) -> Single>(
        &self,
        world_seed: u64,
        wx: i32,
        wz: i32,
        noise: &F,
    ) -> (r: EvalResult<(u16, u16)>)
        requires
            columns_indexable(*self),
            forall|p: NoiseParams, s: i32, x: i32, z: i32| #[trigger]
                call_requires(*noise, (p, s, x, z)),
        ensures
            self.zones@.len() == 0 ==> r == Ok::<(u16, u16), EvalError>((0, 0)),
            self.zones@.len() > 0 ==> exists|plans: IdPlans| #[trigger]
                self.plans_are(plans, world_seed) && plans.gives(*noise, wx, wz, r),
    {
        if self.zones.len() == 0 {
            return Ok((0, 0));
        }
        let plans = self.id_plans(world_seed);
        assert(self.plans_are(plans, world_seed));
        plans.at(noise, wx, wz)
    }

    /// The biome of one world column.
    pub fn sample_biome_at<F: Fn(NoiseParams, i32, i32, i32) -> Single>(
        &self,
        world_seed: u64,
        wx: i32,
        wz: i32,
        noise: &F,
    ) -> (r: EvalResult<u16>)
        requires
            columns_indexable(*self),
            forall|p: NoiseParams, s: i32, x: i32, z: i32| #[trigger]
                call_requires(*noise, (p, s, x, z)),
        ensures
            self.zones@.len() == 0 ==> r == Ok::<u16, EvalError>(0),
            self.zones@.len() > 0 ==> exists|plans: IdPlans, both: Result<(u16, u16), EvalError>|
                #![trigger self.plans_are(plans, world_seed), plans.gives(*noise, wx, wz, both)]
                self.plans_are(plans, world_seed) && plans.gives(*noise, wx, wz, both)
                    && match both {
                    Ok((_, b)) => r == Ok::<u16, EvalError>(b),
                    Err(e) => r == Err::<u16, EvalError>(e),
                },
    {
        match self.sample_zone_and_biome_at(world_seed, wx, wz, noise) {
            Ok((_, b)) => Ok(b),
            Err(e) => Err(e),
        }
    }

    /// Whether plans are those of this world.
    pub open spec fn plans_are(&self, plans: IdPlans, world_seed: u64) -> bool {
        &&& forall|n: Option<NodeId>| #[trigger]
            terminal_is(self.world.nodes@, Terminal::WorldOutput, n) ==> id_plan_result(plans.zone)
                == zone_plan_of(self.world, world_seed, n)
        &&& plans.biomes@.len() == self.zones@.len()
        &&& forall|i: int|
            0 <= i < plans.biomes@.len() ==> (#[trigger] plans.biomes@[i]).0 == self.zones@[i].id
                && id_plan_result(plans.biomes@[i].1) == biome_plan_of(
                self.world,
                self.zones@[i],
                world_seed,
            )
    }

    /// The zones and biomes of a grid of world columns, row by row. The first
    /// column that fails fails the map.
    pub fn sample_id_map<F: Fn(NoiseParams, i32, i32, i32) -> Single>(
        &self,
        world_seed: u64,
        origin_x: i32,
        origin_z: i32,
        step: i32,
        dim: usize,
        noise: &F,
    ) -> (r: EvalResult<IdMap>)
        requires
            columns_indexable(*self),
            dim * dim <= usize::MAX,
            dim > 0 ==> origin_x + (dim - 1) * stride(step) <= 0x7fff_ffff,
            dim > 0 ==> origin_z + (dim - 1) * stride(step) <= 0x7fff_ffff,
            forall|p: NoiseParams, s: i32, x: i32, z: i32| #[trigger]
                call_requires(*noise, (p, s, x, z)),
        ensures
            exists|plans: IdPlans| #[trigger]
                self.plans_are(plans, world_seed) && match r {
                    Ok(m) => {
                        &&& m.dim == dim
                        &&& m.origin_x == origin_x
                        &&& m.origin_z == origin_z
                        &&& m.step == stride(step)
                        &&& m.zone@.len() == dim * dim
                        &&& m.biome@.len() == dim * dim
                        &&& forall|i: int|
                            0 <= i < dim * dim ==> plans.gives(
                                *noise,
                                (origin_x + (i % dim as int) * stride(step)) as i32,
                                (origin_z + (i / dim as int) * stride(step)) as i32,
                                Ok::<(u16, u16), EvalError>(
                                    (#[trigger] m.zone@[i], m.biome@[i]),
                                ),
                            )
                    },
                    Err(e) => exists|before: Seq<(u16, u16)>| #[trigger]
                        plans.map_failed(*noise, origin_x, origin_z, stride(step), dim, before, e),
                },
    {
        let apart: i32 = if step >= 1 { step } else { 1 };
        let plans = self.id_plans(world_seed);
        assert(self.plans_are(plans, world_seed));
        let total: usize = dim * dim;
        let mut zone: Vec<u16> = Vec::new();
        let mut biome: Vec<u16> = Vec::new();
        let mut k: usize = 0;
        while k < total
            invariant
                k <= total,
                total == dim * dim,
                apart == stride(step),
                dim > 0 ==> origin_x + (dim - 1) * stride(step) <= 0x7fff_ffff,
                dim > 0 ==> origin_z + (dim - 1) * stride(step) <= 0x7fff_ffff,
                self.plans_are(plans, world_seed),
                forall|p: NoiseParams, s: i32, x: i32, z: i32| #[trigger]
                    call_requires(*noise, (p, s, x, z)),
                zone@.len() == k,
                biome@.len() == k,
                forall|i: int|
                    0 <= i < k ==> plans.gives(
                        *noise,
                        (origin_x + (i % dim as int) * stride(step)) as i32,
                        (origin_z + (i / dim as int) * stride(step)) as i32,
                        Ok::<(u16, u16), EvalError>((#[trigger] zone@[i], biome@[i])),
                    ),
            decreases total - k,
        {
            proof {
                lemma_grid_cell(k as int, dim as int, apart as int);
            }
            let gx: usize = k % dim;
            let gz: usize = k / dim;
            let wx: i32 = grid_coordinate(origin_x, gx, apart);
            let wz: i32 = grid_coordinate(origin_z, gz, apart);
            match plans.at(noise, wx, wz) {
                Ok((z, b)) => {
                    zone.push(z);
                    biome.push(b);
                },
                Err(e) => {
                    proof {
                        let before = Seq::new(k as nat, |i: int| (zone@[i], biome@[i]));
                        assert forall|i: int| 0 <= i < before.len() implies plans.gives(
                            *noise,
                            (origin_x + (i % dim as int) * stride(step)) as i32,
                            (origin_z + (i / dim as int) * stride(step)) as i32,
                            Ok::<(u16, u16), EvalError>(#[trigger] before[i]),
                        ) by {
                            assert(before[i] == (zone@[i], biome@[i]));
                        }
                        assert(plans.map_failed(
                            *noise,
                            origin_x,
                            origin_z,
                            stride(step),
                            dim,
                            before,
                            e,
                        ));
                    }
                    return Err(e);
                },
            }
            k = k + 1;
        }
        Ok(IdMap { dim, origin_x, origin_z, step: apart, zone, biome })
    }

    /// What references read in a chunk: the world graph's cached outputs, if it has
    /// any nodes.
    pub fn upstream_for<'u>(&'u self, ctx: EvalContext, cache: &'u ColumnCache) -> (r:
        UpstreamGraphs<'u>)
        requires
            indexable(self.world.edges@),
        ensures
            r.wf(),
            r@ == if self.world.nodes@ == Map::<NodeId, Node>::empty() {
                Map::<u32, UpstreamView>::empty()
            } else {
                Map::<u32, UpstreamView>::empty().insert(
                    GraphRefTarget::World.rank(),
                    UpstreamView {
                        nodes: self.world.nodes@,
                        edges: self.world.edges@,
                        world_seed: ctx.world_seed,
                        cache: cache@,
                    },
                )
            },
    {
        let mut up = UpstreamGraphs::new();
        if !self.world.nodes.is_empty() {
            up.insert(GraphRefTarget::World, &self.world, ctx, cache);
        }
        up
    }

    /// The zones and biomes of a chunk's columns, from what the world graph and each
    /// zone graph were evaluated to there. Zones are reported even where there is
    /// no zone graph to turn them into biomes.
    pub fn resolve_columns(
        &self,
        world_cache: &ColumnCache,
        zone_caches: &Vec<ColumnCache>,
    ) -> (r: ResolvedColumns)
        requires
            zone_caches@.len() == self.zones@.len(),
        ensures
            forall|n: Option<NodeId>| #[trigger]
                terminal_is(self.world.nodes@, Terminal::WorldOutput, n) ==> shared_ids(r.zone_ids)
                    == cached_ids(world_cache@, n),
            self.zones@.len() == 0 ==> r.biome_ids is None,
            self.zones@.len() > 0 ==> r.biome_ids is Some && forall|i: int|
                0 <= i < 1024 ==> (#[trigger] r.biome_ids->0@[i]) == biome_by_zone(
                    self.zones@,
                    zone_caches@,
                    shared_ids(r.zone_ids),
                    i % 32,
                    i / 32,
                ),
    {
        let keys = self.world.nodes.keys();
        let found = self.world_output_node();
        proof {
            assert(is_key_order(self.world.nodes@, keys@));
            self.lemma_one_terminal(found);
        }
        let zone_ids = match find_ids(world_cache, found) {
            Some(c) => Some(share(c)),
            None => None,
        };
        if self.zones.len() == 0 {
            return ResolvedColumns { zone_ids, biome_ids: None };
        }
        let ghost assigned = shared_ids(zone_ids);
        let mut data: Vec<u16> = Vec::new();
        let mut k: usize = 0;
        while k < 1024
            invariant
                k <= 1024,
                zone_caches@.len() == self.zones@.len(),
                assigned == shared_ids(zone_ids),
                data@.len() == k,
                forall|i: int|
                    0 <= i < k ==> (#[trigger] data@[i]) == biome_by_zone(
                        self.zones@,
                        zone_caches@,
                        assigned,
                        i % 32,
                        i / 32,
                    ),
            decreases 1024 - k,
        {
            let x: usize = k % 32;
            let z: usize = k / 32;
            let zone: u16 = match &zone_ids {
                Some(c) => c.get(x, z),
                None => 0,
            };
            let at: usize = find_zone(&self.zones, zone);
            let b: u16 = if at >= self.zones.len() {
                0
            } else {
                match find_ids(&zone_caches[at], self.zones[at].output) {
                    Some(c) => c.get(x, z),
                    None => 0,
                }
            };
            data.push(b);
            k = k + 1;
        }
        ResolvedColumns { zone_ids, biome_ids: Some(Arc::new(IdColumn::from_data(data))) }
    }

    proof fn lemma_one_terminal(&self, found: Option<NodeId>)
        requires
            terminal_is(self.world.nodes@, Terminal::WorldOutput, found),
            exists|keys: Seq<NodeId>| is_key_order(self.world.nodes@, keys),
        ensures
            forall|n: Option<NodeId>| #[trigger]
                terminal_is(self.world.nodes@, Terminal::WorldOutput, n) ==> n == found,
    {
        let keys = choose|keys: Seq<NodeId>| is_key_order(self.world.nodes@, keys);
        assert(found == first_terminal(self.world.nodes@, keys, Terminal::WorldOutput));
        assert forall|n: Option<NodeId>| #[trigger]
            terminal_is(self.world.nodes@, Terminal::WorldOutput, n) implies n == found by {
            assert(n == first_terminal(self.world.nodes@, keys, Terminal::WorldOutput));
        }
    }
}

} // verus!
