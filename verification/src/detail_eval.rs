//! Evaluating a detail graph: candidates, filters and species, down to the paint
//! layers and scatter buckets of one chunk.
use crate::chunk::ChunkBuffer;
use crate::column::IdColumn;
use crate::column_eval::evaluation_order;
use crate::context::{placed_in_world, EvalContext};
use crate::detail::{
    all_grounded, in_biome, paint_of, scattered, species_draws, with_species, DetailGround,
    DetailPoint, Ground,
};
use crate::edge::{Edge, PinRef};
use crate::eval_error::{EvalError, EvalResult};
use crate::foliage::{
    bucket_views, paint_views, BucketView, ChunkFoliage, PaintView, ScatterBucket,
};
use crate::graph::Graph;
use crate::ids::GraphKind;
use crate::index::scanned_source;
use crate::node::{Node, NodeKind};
use crate::order::is_evaluation_order;
use crate::params::PoissonDistributionParams;
use crate::slots::{is_key_order, NodeId};
use crate::validate::{evaluable, findings};
use crate::voxel::Voxel;
use std::collections::HashMap;
use vstd::prelude::*;

verus! {

broadcast use vstd::std_specs::hash::group_hash_axioms;

/// What a detail node produces for the nodes below it.
#[derive(Debug)]
pub enum DetailValue {
    /// Candidates.
    Positions(Vec<DetailPoint>),
    /// Candidates with a species each.
    Assignments(Vec<(DetailPoint, u8)>),
}

/// What a detail node produces, as values.
pub enum DetailView {
    /// Candidates.
    Positions(Seq<DetailPoint>),
    /// Candidates with a species each.
    Assignments(Seq<(DetailPoint, u8)>),
}

impl DetailValue {
    /// The values.
    pub open spec fn view(&self) -> DetailView {
        match self {
            DetailValue::Positions(v) => DetailView::Positions(v@),
            DetailValue::Assignments(v) => DetailView::Assignments(v@),
        }
    }
}

/// Whether every candidate of an output lies in the chunk, and there are few
/// enough to number.
pub open spec fn placeable(v: DetailView) -> bool {
    match v {
        DetailView::Positions(s) => s.len() <= 0xffff_ffff && forall|i: int|
            0 <= i < s.len() ==> (#[trigger] s[i]).in_chunk(),
        DetailView::Assignments(s) => s.len() <= 0xffff_ffff && forall|i: int|
            0 <= i < s.len() ==> (#[trigger] s[i]).0.in_chunk(),
    }
}

/// What a detail evaluation reads, as values.
pub struct DetailEnv {
    /// The graph's nodes.
    pub nodes: Map<NodeId, Node>,
    /// The graph's edges.
    pub edges: Seq<Edge>,
    /// What the chunk offers.
    pub ground: Ground,
}

/// The output feeding an input pin.
pub open spec fn detail_input(
    env: DetailEnv,
    cache: Map<u64, DetailView>,
    node: NodeId,
    pin: u16,
) -> Result<DetailView, EvalError> {
    match scanned_source(env.edges, node, pin) {
        None => Err(EvalError::MissingInput { node, pin }),
        Some(from) => if cache.contains_key(from.node.code()) {
            Ok(cache[from.node.code()])
        } else {
            Err(EvalError::MissingOutput(from.node))
        },
    }
}

/// The candidates feeding an input pin.
pub open spec fn input_positions(
    env: DetailEnv,
    cache: Map<u64, DetailView>,
    node: NodeId,
    pin: u16,
) -> Result<Seq<DetailPoint>, EvalError> {
    match detail_input(env, cache, node, pin) {
        Err(e) => Err(e),
        Ok(DetailView::Positions(v)) => Ok(v),
        Ok(DetailView::Assignments(_)) => Err(
            EvalError::WrongInputType { node, expected: "positions", got: "assignments" },
        ),
    }
}

/// The candidates with species feeding an input pin.
pub open spec fn input_assignments(
    env: DetailEnv,
    cache: Map<u64, DetailView>,
    node: NodeId,
    pin: u16,
) -> Result<Seq<(DetailPoint, u8)>, EvalError> {
    match detail_input(env, cache, node, pin) {
        Err(e) => Err(e),
        Ok(DetailView::Assignments(v)) => Ok(v),
        Ok(DetailView::Positions(_)) => Err(
            EvalError::WrongInputType { node, expected: "assignments", got: "positions" },
        ),
    }
}

/// What a node above the terminals comes to.
pub enum DetailFillView {
    /// Its output.
    Ready(DetailView),
    /// Candidates are to be laid out.
    Points(PoissonDistributionParams),
    /// Species are to be picked by these draws.
    Species(Seq<u32>),
}

/// What a node above the terminals comes to, given what is cached.
pub open spec fn detail_fill(env: DetailEnv, cache: Map<u64, DetailView>, id: NodeId) -> Result<
    DetailFillView,
    EvalError,
> {
    match env.nodes[id].kind {
        NodeKind::PoissonDistribution(p) => Ok(DetailFillView::Points(p)),
        NodeKind::SurfaceFilter(p) => match input_positions(env, cache, id, 0) {
            Err(e) => Err(e),
            Ok(s) => Ok(
                DetailFillView::Ready(DetailView::Positions(all_grounded(env.ground, p, s))),
            ),
        },
        NodeKind::BiomeContextMask(p) => match input_positions(env, cache, id, 0) {
            Err(e) => Err(e),
            Ok(s) => Ok(
                DetailFillView::Ready(DetailView::Positions(in_biome(env.ground, p.biome, s))),
            ),
        },
        NodeKind::SpeciesPicker(p) => match input_positions(env, cache, id, 0) {
            Err(e) => Err(e),
            Ok(s) => Ok(DetailFillView::Species(species_draws(env.ground.ctx, p.seed, s))),
        },
        _ => Err(EvalError::WrongGraphDomain { node: id }),
    }
}

/// What a detail evaluation comes to.
pub enum DetailProgress {
    /// The foliage of the chunk.
    Done {
        /// Paint layers.
        paint: Seq<PaintView>,
        /// Scatter buckets.
        scatter: Seq<BucketView>,
    },
    /// A node needs candidates laid out.
    Points {
        /// The node.
        node: NodeId,
        /// How to lay them out.
        params: PoissonDistributionParams,
    },
    /// A node needs species picked.
    Species {
        /// The node.
        node: NodeId,
        /// The draws to pick by.
        draws: Seq<u32>,
    },
    /// Evaluation failed.
    Failed(EvalError),
}

/// What evaluating nodes in order, from number `i` on, comes to, and what is
/// cached then. Terminals add to the foliage so far; other nodes are cached.
pub open spec fn detail_run(
    env: DetailEnv,
    order: Seq<NodeId>,
    i: int,
    cache: Map<u64, DetailView>,
    paint: Seq<PaintView>,
    scatter: Seq<BucketView>,
) -> (DetailProgress, Map<u64, DetailView>)
    decreases order.len() - i,
{
    if i < 0 || i >= order.len() {
        (DetailProgress::Done { paint, scatter }, cache)
    } else {
        let id = order[i];
        match env.nodes[id].kind {
            NodeKind::PaintDensity(p) => detail_run(
                env,
                order,
                i + 1,
                cache,
                paint.push(paint_of(env.ground, p)),
                scatter,
            ),
            NodeKind::ScatterPlace(p) => match input_assignments(env, cache, id, 0) {
                Err(e) => (DetailProgress::Failed(e), cache),
                Ok(s) => detail_run(
                    env,
                    order,
                    i + 1,
                    cache,
                    paint,
                    scatter.push(
                        BucketView {
                            type_id: p.type_id,
                            instances: scattered(env.ground, p.seed, p.prefab_id, s),
                        },
                    ),
                ),
            },
            _ => if cache.contains_key(id.code()) {
                detail_run(env, order, i + 1, cache, paint, scatter)
            } else {
                match detail_fill(env, cache, id) {
                    Err(e) => (DetailProgress::Failed(e), cache),
                    Ok(DetailFillView::Points(params)) => (
                        DetailProgress::Points { node: id, params },
                        cache,
                    ),
                    Ok(DetailFillView::Species(draws)) => (
                        DetailProgress::Species { node: id, draws },
                        cache,
                    ),
                    Ok(DetailFillView::Ready(out)) => detail_run(
                        env,
                        order,
                        i + 1,
                        cache.insert(id.code(), out),
                        paint,
                        scatter,
                    ),
                }
            },
        }
    }
}

/// Work that an evaluation waits for, or its result.
#[derive(Debug)]
pub enum DetailStep {
    /// The foliage of the chunk.
    Done(ChunkFoliage),
    /// A node needs candidates laid out over the columns of the chunk.
    Points {
        /// The node.
        node: NodeId,
        /// How to lay them out.
        params: PoissonDistributionParams,
    },
    /// A node needs a species picked for each of its candidates.
    Species {
        /// The node.
        node: NodeId,
        /// The draws to pick by, one for each candidate.
        draws: Vec<u32>,
    },
}

/// The outcome of an evaluation, as values.
pub open spec fn detail_progress(r: EvalResult<DetailStep>) -> DetailProgress {
    match r {
        Err(e) => DetailProgress::Failed(e),
        Ok(DetailStep::Done(f)) => DetailProgress::Done {
            paint: paint_views(f.paint@),
            scatter: bucket_views(f.scatter@),
        },
        Ok(DetailStep::Points { node, params }) => DetailProgress::Points { node, params },
        Ok(DetailStep::Species { node, draws }) => DetailProgress::Species { node, draws: draws@ },
    }
}

enum DetailFill {
    Ready(DetailValue),
    Points(PoissonDistributionParams),
    Species(Vec<u32>),
}

impl DetailFill {
    spec fn view(&self) -> DetailFillView {
        match self {
            DetailFill::Ready(v) => DetailFillView::Ready(v@),
            DetailFill::Points(p) => DetailFillView::Points(*p),
            DetailFill::Species(d) => DetailFillView::Species(d@),
        }
    }
}

spec fn fill_result(r: EvalResult<DetailFill>) -> Result<DetailFillView, EvalError> {
    match r {
        Ok(f) => Ok(f@),
        Err(e) => Err(e),
    }
}

/// Evaluates a detail graph for one chunk against its terrain.
pub struct DetailEvaluator<'a> {
    graph: &'a Graph,
    ground: DetailGround<'a>,
    cache: HashMap<u64, DetailValue>,
    order: Option<Vec<NodeId>>,
}

impl<'a> DetailEvaluator<'a> {
    /// What the evaluation reads, as values.
    pub closed spec fn env(&self) -> DetailEnv {
        DetailEnv {
            nodes: self.graph.nodes@,
            edges: self.graph.edges@,
            ground: self.ground@,
        }
    }

    /// The kind of the graph.
    pub closed spec fn graph_kind(&self) -> GraphKind {
        self.graph.kind
    }

    /// What is cached, as values.
    pub closed spec fn cached(&self) -> Map<u64, DetailView> {
        self.cache@.map_values(|v: DetailValue| v@)
    }

    /// Whether the evaluator is set up: the chunk is in the world, what is cached
    /// lies in the chunk, and an order it has settled on is one.
    pub closed spec fn wf(&self) -> bool {
        &&& placed_in_world(self.ground.ctx.chunk)
        &&& forall|k: u64| #[trigger]
            self.cached().contains_key(k) ==> placeable(self.cached()[k])
        &&& match self.order {
            Some(order) => {
                &&& evaluable(self.graph.kind, self.graph.nodes@, self.graph.edges@)
                &&& is_evaluation_order(self.graph.nodes@, self.graph.edges@, order@)
            },
            None => true,
        }
    }

    /// New evaluator over a detail graph, the terrain of a chunk and its biomes.
    pub fn new(
        graph: &'a Graph,
        ctx: EvalContext,
        terrain: &'a ChunkBuffer<Voxel>,
        biome_column: Option<&'a IdColumn>,
        target_biome: u16,
    ) -> (r: Self)
        requires
            placed_in_world(ctx.chunk),
        ensures
            r.wf(),
            r.env() == (DetailEnv {
                nodes: graph.nodes@,
                edges: graph.edges@,
                ground: Ground {
                    ctx,
                    cells: terrain@,
                    biomes: match biome_column {
                        Some(b) => Some(b@),
                        None => None,
                    },
                    target: target_biome,
                },
            }),
            r.graph_kind() == graph.kind,
            r.cached() == Map::<u64, DetailView>::empty(),
    {
        let r = DetailEvaluator {
            graph,
            ground: DetailGround { ctx, terrain, biomes: biome_column, target: target_biome },
            cache: HashMap::new(),
            order: None,
        };
        assert(r.cached() =~= Map::<u64, DetailView>::empty());
        r
    }

    fn source_of(&self, node: NodeId, pin: u16) -> (r: Option<PinRef>)
        ensures
            r == scanned_source(self.env().edges, node, pin),
    {
        let mut k: usize = 0;
        let ghost edges = self.graph.edges@;
        assert(edges.skip(0) =~= edges);
        while k < self.graph.edges.len()
            invariant
                k <= edges.len(),
                edges == self.graph.edges@,
                scanned_source(edges, node, pin) == scanned_source(
                    edges.skip(k as int),
                    node,
                    pin,
                ),
            decreases edges.len() - k,
        {
            let e = self.graph.edges[k];
            assert(edges.skip(k as int)[0] == e);
            assert(edges.skip(k as int).drop_first() =~= edges.skip(k + 1));
            if e.to.node == node && e.to.pin == pin {
                return Some(e.from);
            }
            k = k + 1;
        }
        None
    }

    fn input_value(&self, node: NodeId, pin: u16) -> (r: EvalResult<&DetailValue>)
        requires
            self.wf(),
        ensures
            match r {
                Ok(v) => detail_input(self.env(), self.cached(), node, pin) == Ok::<
                    DetailView,
                    EvalError,
                >(v@) && placeable(v@),
                Err(e) => detail_input(self.env(), self.cached(), node, pin) == Err::<
                    DetailView,
                    EvalError,
                >(e),
            },
    {
        match self.source_of(node, pin) {
            None => Err(EvalError::MissingInput { node, pin }),
            Some(from) => match self.cache.get(&from.node.to_code()) {
                Some(v) => {
                    assert(self.cached().contains_key(from.node.code()));
                    Ok(v)
                },
                None => Err(EvalError::MissingOutput(from.node)),
            },
        }
    }

    fn positions(&self, node: NodeId, pin: u16) -> (r: EvalResult<&Vec<DetailPoint>>)
        requires
            self.wf(),
        ensures
            match r {
                Ok(v) => input_positions(self.env(), self.cached(), node, pin) == Ok::<
                    Seq<DetailPoint>,
                    EvalError,
                >(v@) && placeable(DetailView::Positions(v@)),
                Err(e) => input_positions(self.env(), self.cached(), node, pin) == Err::<
                    Seq<DetailPoint>,
                    EvalError,
                >(e),
            },
    {
        match self.input_value(node, pin) {
            Err(e) => Err(e),
            Ok(DetailValue::Positions(v)) => Ok(v),
            Ok(DetailValue::Assignments(_)) => Err(
                EvalError::WrongInputType { node, expected: "positions", got: "assignments" },
            ),
        }
    }

    fn assignments(&self, node: NodeId, pin: u16) -> (r: EvalResult<&Vec<(DetailPoint, u8)>>)
        requires
            self.wf(),
        ensures
            match r {
                Ok(v) => input_assignments(self.env(), self.cached(), node, pin) == Ok::<
                    Seq<(DetailPoint, u8)>,
                    EvalError,
                >(v@) && placeable(DetailView::Assignments(v@)),
                Err(e) => input_assignments(self.env(), self.cached(), node, pin) == Err::<
                    Seq<(DetailPoint, u8)>,
                    EvalError,
                >(e),
            },
    {
        match self.input_value(node, pin) {
            Err(e) => Err(e),
            Ok(DetailValue::Assignments(v)) => Ok(v),
            Ok(DetailValue::Positions(_)) => Err(
                EvalError::WrongInputType { node, expected: "assignments", got: "positions" },
            ),
        }
    }

    fn fill(&self, id: NodeId, kind: &NodeKind) -> (r: EvalResult<DetailFill>)
        requires
            self.wf(),
            self.env().nodes[id].kind == kind,
        ensures
            fill_result(r) == detail_fill(self.env(), self.cached(), id),
            r matches Ok(DetailFill::Ready(v)) ==> placeable(v@),
    {
        match kind {
            NodeKind::PoissonDistribution(p) => Ok(DetailFill::Points(*p)),
            NodeKind::SurfaceFilter(p) => match self.positions(id, 0) {
                Err(e) => Err(e),
                Ok(v) => Ok(
                    DetailFill::Ready(DetailValue::Positions(self.ground.surface_filter(v, p))),
                ),
            },
            NodeKind::BiomeContextMask(p) => match self.positions(id, 0) {
                Err(e) => Err(e),
                Ok(v) => Ok(
                    DetailFill::Ready(DetailValue::Positions(self.ground.biome_mask(v, p.biome))),
                ),
            },
            NodeKind::SpeciesPicker(p) => match self.positions(id, 0) {
                Err(e) => Err(e),
                Ok(v) => Ok(DetailFill::Species(self.ground.draw_species(v, p.seed))),
            },
            _ => Err(EvalError::WrongGraphDomain { node: id }),
        }
    }

    fn remember(&mut self, id: NodeId, v: DetailValue)
        requires
            old(self).wf(),
            placeable(v@),
        ensures
            final(self).wf(),
            final(self).env() == old(self).env(),
            final(self).graph_kind() == old(self).graph_kind(),
            final(self).cached() == old(self).cached().insert(id.code(), v@),
    {
        let ghost before = self.cached();
        let _ = self.cache.insert(id.to_code(), v);
        assert(self.cached() =~= before.insert(id.code(), v@));
    }

    fn settle_order(&mut self) -> (r: EvalResult<Vec<NodeId>>)
        requires
            old(self).wf(),
        ensures
            final(self).wf(),
            final(self).env() == old(self).env(),
            final(self).graph_kind() == old(self).graph_kind(),
            final(self).cached() == old(self).cached(),
            match r {
                Ok(order) => {
                    &&& evaluable(
                        old(self).graph_kind(),
                        old(self).env().nodes,
                        old(self).env().edges,
                    )
                    &&& is_evaluation_order(
                        old(self).env().nodes,
                        old(self).env().edges,
                        order@,
                    )
                },
                Err(e) => {
                    &&& !evaluable(
                        old(self).graph_kind(),
                        old(self).env().nodes,
                        old(self).env().edges,
                    )
                    &&& exists|keys: Seq<NodeId>| #[trigger]
                        is_key_order(old(self).env().nodes, keys) && e == EvalError::InvalidGraph(
                            findings(
                                old(self).graph_kind(),
                                old(self).env().nodes,
                                old(self).env().edges,
                                keys,
                            ).len() as usize,
                        )
                },
            },
    {
        let mut held: Option<Vec<NodeId>> = None;
        std::mem::swap(&mut held, &mut self.order);
        assert(self.cached() == old(self).cached());
        assert(self.wf());
        match held {
            Some(order) => Ok(order),
            None => evaluation_order(self.graph),
        }
    }

    /// Evaluate the graph in dependency order. Where candidates have to be laid
    /// out or species picked, evaluation stops and says what it waits for; it goes
    /// on from there once that is supplied.
    pub fn evaluate(&mut self) -> (r: EvalResult<DetailStep>)
        requires
            old(self).wf(),
        ensures
            final(self).wf(),
            final(self).env() == old(self).env(),
            final(self).graph_kind() == old(self).graph_kind(),
            r matches Ok(DetailStep::Done(f)) ==> f.full(),
            evaluable(
                old(self).graph_kind(),
                old(self).env().nodes,
                old(self).env().edges,
            ) ==> exists|order: Seq<NodeId>| #[trigger]
                is_evaluation_order(old(self).env().nodes, old(self).env().edges, order)
                    && detail_run(
                    old(self).env(),
                    order,
                    0,
                    old(self).cached(),
                    Seq::empty(),
                    Seq::empty(),
                ) == (detail_progress(r), final(self).cached()),
            !evaluable(
                old(self).graph_kind(),
                old(self).env().nodes,
                old(self).env().edges,
            ) ==> final(self).cached() == old(self).cached() && exists|keys: Seq<NodeId>|
                #[trigger] is_key_order(old(self).env().nodes, keys) && r == Err::<
                    DetailStep,
                    EvalError,
                >(
                    EvalError::InvalidGraph(
                        findings(
                            old(self).graph_kind(),
                            old(self).env().nodes,
                            old(self).env().edges,
                            keys,
                        ).len() as usize,
                    ),
                ),
    {
        let order = match self.settle_order() {
            Ok(order) => order,
            Err(e) => {
                return Err(e);
            },
        };
        let outcome = self.run(&order);
        self.order = Some(order);
        outcome
    }

    fn run(&mut self, order: &Vec<NodeId>) -> (r: EvalResult<DetailStep>)
        requires
            old(self).wf(),
            is_evaluation_order(old(self).env().nodes, old(self).env().edges, order@),
        ensures
            final(self).wf(),
            final(self).env() == old(self).env(),
            final(self).graph_kind() == old(self).graph_kind(),
            r matches Ok(DetailStep::Done(f)) ==> f.full(),
            detail_run(
                old(self).env(),
                order@,
                0,
                old(self).cached(),
                Seq::empty(),
                Seq::empty(),
            ) == (detail_progress(r), final(self).cached()),
    {
        let ghost env = self.env();
        let ghost start = self.cached();
        let ghost whole = detail_run(env, order@, 0, start, Seq::empty(), Seq::empty());
        let mut foliage = ChunkFoliage::default();
        assert(paint_views(foliage.paint@) =~= Seq::<PaintView>::empty());
        assert(bucket_views(foliage.scatter@) =~= Seq::<BucketView>::empty());
        let mut i: usize = 0;
        while i < order.len()
            invariant
                i <= order@.len(),
                self.wf(),
                self.env() == env,
                env == old(self).env(),
                self.graph_kind() == old(self).graph_kind(),
                is_evaluation_order(env.nodes, env.edges, order@),
                foliage.full(),
                whole == detail_run(env, order@, 0, start, Seq::empty(), Seq::empty()),
                start == old(self).cached(),
                whole == detail_run(
                    env,
                    order@,
                    i as int,
                    self.cached(),
                    paint_views(foliage.paint@),
                    bucket_views(foliage.scatter@),
                ),
            decreases order@.len() - i,
        {
            let id = order[i];
            assert(order@.contains(id));
            let graph = self.graph;
            if let Some(node) = graph.nodes.get(id) {
                match &node.kind {
                    NodeKind::PaintDensity(p) => {
                        let layer = self.ground.paint(p);
                        let ghost before = foliage.paint@;
                        foliage.paint.push(layer);
                        assert(paint_views(foliage.paint@) =~= paint_views(before).push(layer@));
                    },
                    NodeKind::ScatterPlace(p) => match self.assignments(id, 0) {
                        Err(e) => {
                            return Err(e);
                        },
                        Ok(v) => {
                            let instances = self.ground.scatter(p.seed, p.prefab_id, v);
                            let bucket = ScatterBucket { type_id: p.type_id, instances };
                            let ghost before = foliage.scatter@;
                            foliage.scatter.push(bucket);
                            assert(bucket_views(foliage.scatter@) =~= bucket_views(before).push(
                                bucket@,
                            ));
                        },
                    },
                    _ => {
                        if !self.cache.contains_key(&id.to_code()) {
                            match self.fill(id, &node.kind) {
                                Err(e) => {
                                    return Err(e);
                                },
                                Ok(DetailFill::Points(params)) => {
                                    return Ok(DetailStep::Points { node: id, params });
                                },
                                Ok(DetailFill::Species(draws)) => {
                                    return Ok(DetailStep::Species { node: id, draws });
                                },
                                Ok(DetailFill::Ready(v)) => {
                                    self.remember(id, v);
                                },
                            }
                        }
                    },
                }
            }
            i = i + 1;
        }
        Ok(DetailStep::Done(foliage))
    }

    /// Store the candidates that an evaluation waits for.
    pub fn supply_points(&mut self, node: NodeId, points: Vec<DetailPoint>)
        requires
            old(self).wf(),
            placeable(DetailView::Positions(points@)),
        ensures
            final(self).wf(),
            final(self).env() == old(self).env(),
            final(self).graph_kind() == old(self).graph_kind(),
            final(self).cached() == old(self).cached().insert(
                node.code(),
                DetailView::Positions(points@),
            ),
    {
        self.remember(node, DetailValue::Positions(points));
    }

    /// Store the species that an evaluation waits for, one for each candidate that
    /// feeds the node. Where the candidates are not there, or are not as many,
    /// nothing is stored.
    pub fn supply_species(&mut self, node: NodeId, picks: &Vec<u8>) -> (r: bool)
        requires
            old(self).wf(),
        ensures
            final(self).wf(),
            final(self).env() == old(self).env(),
            final(self).graph_kind() == old(self).graph_kind(),
            r == (input_positions(old(self).env(), old(self).cached(), node, 0) matches Ok(s)
                && s.len() == picks@.len()),
            r ==> final(self).cached() == old(self).cached().insert(
                node.code(),
                DetailView::Assignments(
                    with_species(
                        input_positions(old(self).env(), old(self).cached(), node, 0)->Ok_0,
                        picks@,
                    ),
                ),
            ),
            !r ==> final(self).cached() == old(self).cached(),
    {
        let mut out: Vec<(DetailPoint, u8)> = Vec::new();
        match self.positions(node, 0) {
            Err(_) => {
                return false;
            },
            Ok(points) => {
                if points.len() != picks.len() {
                    return false;
                }
                let mut k: usize = 0;
                while k < points.len()
                    invariant
                        k <= points@.len(),
                        points@.len() == picks@.len(),
                        placeable(DetailView::Positions(points@)),
                        out@ == with_species(points@, picks@).take(k as int),
                        forall|i: int| 0 <= i < k ==> (#[trigger] out@[i]).0.in_chunk(),
                    decreases points@.len() - k,
                {
                    assert(points@[k as int].in_chunk());
                    out.push((points[k], picks[k]));
                    assert(out@ =~= with_species(points@, picks@).take(k + 1));
                    k = k + 1;
                }
                assert(out@ =~= with_species(points@, picks@));
            },
        }
        self.remember(node, DetailValue::Assignments(out));
        true
    }
}

} // verus!
