//! The evaluator of biome graphs: whole-chunk filling in dependency order, and
//! single values.
//!
//! Fields of numbers are computed elsewhere. Filling stops where arithmetic is
//! due and hands out the operation with its inputs; everything else is filled
//! here. A single value comes down to a list of steps.
use crate::cache::{CachedOutput, EvalCache, OutputView};
use crate::chunk::ChunkBuffer;
use crate::column_eval::{
    depth, evaluation_order, find_upstream, name_of_output, plan_column, read_upstream,
    refuse_bands, ColumnEnv, ColumnPlanView,
};
use crate::context::EvalContext;
use crate::eval_error::{EvalError, EvalResult};
use crate::eval_model::{
    bound_kernel, input_output, input_steps, material_input, named_or, node_fill, passed_scalar,
    position_input_steps, position_override, position_steps, positions_input, probeable,
    reference_name, sample_steps, scalar_input, scalar_inputs, terrain_input, uniform_field,
    upstream_plan, vec3_input, warp_seeds, EvalEnv, FillView, SampleStep, WorkView,
};
use crate::field::{ScalarField, Vec3, Vec3Field};
use crate::fills::{fill_fallback, fill_layers, fill_spread, fill_terrain};
use crate::graph::Graph;
use crate::ids::{GraphKind, GraphRefTarget, LibraryGraphId};
use crate::index::{indexable, indexed_source, lemma_source_edge, EdgeIndex};
use crate::library_kernel::LibraryKernel;
use crate::node::{Node, NodeKind};
use crate::operation::{noise_source_of, operation_of, NoiseSource, ScalarOp};
use crate::order::{is_evaluation_order, live, settles, settles_within};
use crate::params::{
    Axis, DomainWarpParams, JitteredGridParams, PoissonDiskParams, YBandParams,
};
use crate::place::place_blueprints;
use crate::scalar::Single;
use crate::scalar_params::{BiomeParams, ScalarParams, WorldParams};
use crate::scan::find_flat;
use crate::scatter::ScatterPoint;
use crate::shared::share;
use crate::slots::{is_key_order, NodeId};
use crate::upstream::UpstreamGraphs;
use crate::validate::{evaluable, findings};
use crate::voxel::{MaterialId, Voxel};
use std::collections::HashMap;
use std::sync::Arc;
use vstd::prelude::*;

verus! {

broadcast use vstd::std_specs::hash::group_hash_axioms;

/// Arithmetic that fills a node.
#[derive(Debug)]
pub enum FillWork<'g> {
    /// An operation on scalar fields.
    Apply {
        /// The operation.
        op: ScalarOp<'g>,
        /// The fields, by pin.
        inputs: Vec<Arc<ScalarField>>,
    },
    /// Noise over the chunk.
    Noise {
        /// Which noise.
        source: NoiseSource,
        /// Its seed.
        seed: i32,
        /// Where to sample it, if not at the cells' own positions.
        positions: Option<Arc<Vec3Field>>,
    },
    /// World positions.
    WorldPos,
    /// One coordinate of world positions.
    WorldAxis(Axis),
    /// One within a range of heights, zero elsewhere.
    YBand(YBandParams),
    /// Positions displaced by noise.
    Warp {
        /// How far and how fast.
        params: DomainWarpParams,
        /// The seeds of the two noises.
        seeds: (i32, i32),
        /// The positions.
        positions: Arc<Vec3Field>,
    },
    /// Cave noise at positions.
    Cave {
        /// Its seed.
        seed: i32,
        /// The positions.
        positions: Arc<Vec3Field>,
    },
    /// Points on a jittered grid.
    JitteredGrid(JitteredGridParams),
    /// Points by Poisson-disk sampling.
    PoissonDisk(PoissonDiskParams),
}

/// The values of fields.
pub open spec fn field_views(fields: Seq<Arc<ScalarField>>) -> Seq<Seq<Single>> {
    fields.map_values(|f: Arc<ScalarField>| f@)
}

impl<'g> FillWork<'g> {
    /// The work as values.
    pub open spec fn view(&self) -> WorkView<'g> {
        match self {
            FillWork::Apply { op, inputs } => WorkView::Apply {
                op: *op,
                inputs: field_views(inputs@),
            },
            FillWork::Noise { source, seed, positions } => WorkView::Noise {
                source: *source,
                seed: *seed,
                positions: match positions {
                    Some(f) => Some(f@),
                    None => None,
                },
            },
            FillWork::WorldPos => WorkView::WorldPos,
            FillWork::WorldAxis(axis) => WorkView::WorldAxis(*axis),
            FillWork::YBand(p) => WorkView::YBand(*p),
            FillWork::Warp { params, seeds, positions } => WorkView::Warp {
                params: *params,
                seeds: *seeds,
                positions: positions@,
            },
            FillWork::Cave { seed, positions } => WorkView::Cave {
                seed: *seed,
                positions: positions@,
            },
            FillWork::JitteredGrid(p) => WorkView::JitteredGrid(*p),
            FillWork::PoissonDisk(p) => WorkView::PoissonDisk(*p),
        }
    }
}

/// A node's output, or the arithmetic that gives it.
#[derive(Debug)]
pub enum Filled<'g> {
    /// The output.
    Ready(CachedOutput),
    /// The arithmetic.
    Needed(FillWork<'g>),
}

impl<'g> Filled<'g> {
    /// The fill as values.
    pub open spec fn view(&self) -> FillView<'g> {
        match self {
            Filled::Ready(out) => FillView::Ready(out@),
            Filled::Needed(work) => FillView::Needed(work@),
        }
    }
}

/// The outcome of filling, as values.
pub open spec fn fill_result<'g>(r: EvalResult<Filled<'g>>) -> Result<FillView<'g>, EvalError> {
    match r {
        Ok(f) => Ok(f@),
        Err(e) => Err(e),
    }
}

/// Evaluates a biome graph for one chunk.
pub struct Evaluator<'g> {
    graph: &'g Graph,
    edges: EdgeIndex,
    ctx: EvalContext,
    cache: EvalCache,
    biome_params: Option<&'g BiomeParams>,
    world_params: Option<&'g WorldParams>,
    kernels: Option<&'g HashMap<u32, LibraryKernel>>,
    upstream: Option<&'g UpstreamGraphs<'g>>,
    order: Option<Vec<NodeId>>,
}

spec fn params_view(p: Option<&ScalarParams>) -> Option<Map<Seq<char>, Single>> {
    match p {
        Some(s) => Some(s@),
        None => None,
    }
}

impl<'g> Evaluator<'g> {
    /// What the evaluation reads, as values.
    pub closed spec fn env(&self) -> EvalEnv {
        EvalEnv {
            nodes: self.graph.nodes@,
            edges: self.graph.edges@,
            world_seed: self.ctx.world_seed,
            biome_params: params_view(self.biome_params),
            world_params: params_view(self.world_params),
            kernels: match self.kernels {
                Some(k) => Some(k@),
                None => None,
            },
            upstream: match self.upstream {
                Some(u) => Some(u@),
                None => None,
            },
        }
    }

    /// The kind of the graph.
    pub closed spec fn graph_kind(&self) -> GraphKind {
        self.graph.kind
    }

    /// What is cached, as values.
    pub closed spec fn cached(&self) -> Map<u64, OutputView> {
        self.cache@
    }

    /// Whether the evaluator is set up: its edges are indexed, and an order it has
    /// settled on is one.
    pub closed spec fn wf(&self) -> bool {
        &&& forall|n: NodeId, p: u16| #[trigger]
            self.edges.lookup(n, p) == indexed_source(self.graph.edges@, n, p)
        &&& match self.upstream {
            Some(u) => u.wf(),
            None => true,
        }
        &&& match self.order {
            Some(order) => {
                &&& evaluable(self.graph.kind, self.graph.nodes@, self.graph.edges@)
                &&& is_evaluation_order(self.graph.nodes@, self.graph.edges@, order@)
            },
            None => true,
        }
    }

    /// New evaluator over a graph for a chunk.
    pub fn new(graph: &'g Graph, ctx: EvalContext) -> (r: Self)
        requires
            indexable(graph.edges@),
        ensures
            r.wf(),
            r.env() == (EvalEnv {
                nodes: graph.nodes@,
                edges: graph.edges@,
                world_seed: ctx.world_seed,
                biome_params: None,
                world_params: None,
                kernels: None,
                upstream: None,
            }),
            r.graph_kind() == graph.kind,
            r.cached() == Map::<u64, OutputView>::empty(),
    {
        Evaluator {
            graph,
            edges: EdgeIndex::build(graph),
            ctx,
            cache: EvalCache::new(),
            biome_params: None,
            world_params: None,
            kernels: None,
            upstream: None,
            order: None,
        }
    }

    /// Attach native kernels, so that library references evaluate.
    pub fn with_library_kernels(self, kernels: &'g HashMap<u32, LibraryKernel>) -> (r: Self)
        requires
            self.wf(),
        ensures
            r.wf(),
            r.env() == (EvalEnv { kernels: Some(kernels@), ..self.env() }),
            r.graph_kind() == self.graph_kind(),
            r.cached() == self.cached(),
    {
        Evaluator { kernels: Some(kernels), ..self }
    }

    /// Attach the biome's named scalars.
    pub fn with_biome_params(self, params: &'g BiomeParams) -> (r: Self)
        requires
            self.wf(),
        ensures
            r.wf(),
            r.env() == (EvalEnv { biome_params: Some(params@), ..self.env() }),
            r.graph_kind() == self.graph_kind(),
            r.cached() == self.cached(),
    {
        Evaluator { biome_params: Some(params), ..self }
    }

    /// Attach the world's named scalars.
    pub fn with_world_params(self, params: &'g WorldParams) -> (r: Self)
        requires
            self.wf(),
        ensures
            r.wf(),
            r.env() == (EvalEnv { world_params: Some(params@), ..self.env() }),
            r.graph_kind() == self.graph_kind(),
            r.cached() == self.cached(),
    {
        Evaluator { world_params: Some(params), ..self }
    }

    /// Attach the graphs that references read.
    pub fn with_upstream(self, upstream: &'g UpstreamGraphs<'g>) -> (r: Self)
        requires
            self.wf(),
            upstream.wf(),
        ensures
            r.wf(),
            r.env() == (EvalEnv { upstream: Some(upstream@), ..self.env() }),
            r.graph_kind() == self.graph_kind(),
            r.cached() == self.cached(),
    {
        Evaluator { upstream: Some(upstream), ..self }
    }

    /// The cached outputs.
    pub fn cache(&self) -> (r: &EvalCache)
        ensures
            r@ == self.cached(),
    {
        &self.cache
    }

    /// The cached outputs, the evaluator consumed.
    pub fn into_cache(self) -> (r: EvalCache)
        ensures
            r@ == self.cached(),
    {
        self.cache
    }

    fn input(&self, node: NodeId, pin: u16) -> (r: EvalResult<&CachedOutput>)
        requires
            self.wf(),
        ensures
            match r {
                Ok(out) => input_output(self.env(), self.cached(), node, pin) == Ok::<
                    OutputView,
                    EvalError,
                >(out@),
                Err(e) => input_output(self.env(), self.cached(), node, pin) == Err::<
                    OutputView,
                    EvalError,
                >(e),
            },
    {
        match self.edges.source(node, pin) {
            None => Err(EvalError::MissingInput { node, pin }),
            Some(from) => match self.cache.get(from.node) {
                Some(out) => Ok(out),
                None => Err(EvalError::MissingOutput(from.node)),
            },
        }
    }

    fn input_scalar(&self, node: NodeId, pin: u16) -> (r: EvalResult<Arc<ScalarField>>)
        requires
            self.wf(),
        ensures
            match r {
                Ok(f) => scalar_input(self.env(), self.cached(), node, pin) == Ok::<
                    Seq<Single>,
                    EvalError,
                >(f@),
                Err(e) => scalar_input(self.env(), self.cached(), node, pin) == Err::<
                    Seq<Single>,
                    EvalError,
                >(e),
            },
    {
        match self.input(node, pin) {
            Err(e) => Err(e),
            Ok(out) => match out {
                CachedOutput::Scalar(f) => Ok(share(f)),
                other => Err(
                    EvalError::WrongInputType {
                        node,
                        expected: "scalar/density",
                        got: other.kind_name(),
                    },
                ),
            },
        }
    }

    fn input_vec3(&self, node: NodeId, pin: u16) -> (r: EvalResult<Arc<Vec3Field>>)
        requires
            self.wf(),
        ensures
            match r {
                Ok(f) => vec3_input(self.env(), self.cached(), node, pin) == Ok::<
                    Seq<Vec3>,
                    EvalError,
                >(f@),
                Err(e) => vec3_input(self.env(), self.cached(), node, pin) == Err::<
                    Seq<Vec3>,
                    EvalError,
                >(e),
            },
    {
        match self.input(node, pin) {
            Err(e) => Err(e),
            Ok(out) => match out {
                CachedOutput::Vec3(f) => Ok(share(f)),
                other => Err(
                    EvalError::WrongInputType { node, expected: "vec3", got: other.kind_name() },
                ),
            },
        }
    }

    fn input_material(&self, node: NodeId, pin: u16) -> (r: EvalResult<
        Arc<ChunkBuffer<MaterialId>>,
    >)
        requires
            self.wf(),
        ensures
            match r {
                Ok(f) => material_input(self.env(), self.cached(), node, pin) == Ok::<
                    Seq<MaterialId>,
                    EvalError,
                >(f@),
                Err(e) => material_input(self.env(), self.cached(), node, pin) == Err::<
                    Seq<MaterialId>,
                    EvalError,
                >(e),
            },
    {
        match self.input(node, pin) {
            Err(e) => Err(e),
            Ok(out) => match out {
                CachedOutput::Material(f) => Ok(share(f)),
                other => Err(
                    EvalError::WrongInputType {
                        node,
                        expected: "material",
                        got: other.kind_name(),
                    },
                ),
            },
        }
    }

    fn input_terrain(&self, node: NodeId, pin: u16) -> (r: EvalResult<Arc<ChunkBuffer<Voxel>>>)
        requires
            self.wf(),
        ensures
            match r {
                Ok(f) => terrain_input(self.env(), self.cached(), node, pin) == Ok::<
                    Seq<Voxel>,
                    EvalError,
                >(f@),
                Err(e) => terrain_input(self.env(), self.cached(), node, pin) == Err::<
                    Seq<Voxel>,
                    EvalError,
                >(e),
            },
    {
        match self.input(node, pin) {
            Err(e) => Err(e),
            Ok(out) => match out {
                CachedOutput::Terrain(f) => Ok(share(f)),
                other => Err(
                    EvalError::WrongInputType {
                        node,
                        expected: "terrain",
                        got: other.kind_name(),
                    },
                ),
            },
        }
    }

    fn input_positions(&self, node: NodeId, pin: u16) -> (r: EvalResult<Arc<Vec<ScatterPoint>>>)
        requires
            self.wf(),
        ensures
            match r {
                Ok(p) => positions_input(self.env(), self.cached(), node, pin) == Ok::<
                    Seq<ScatterPoint>,
                    EvalError,
                >(p@),
                Err(e) => positions_input(self.env(), self.cached(), node, pin) == Err::<
                    Seq<ScatterPoint>,
                    EvalError,
                >(e),
            },
    {
        match self.input(node, pin) {
            Err(e) => Err(e),
            Ok(out) => match out {
                CachedOutput::Positions(p) => Ok(share(p)),
                other => Err(
                    EvalError::WrongInputType {
                        node,
                        expected: "positions",
                        got: other.kind_name(),
                    },
                ),
            },
        }
    }

    fn position_field(&self, node: NodeId) -> (r: EvalResult<Option<Arc<Vec3Field>>>)
        requires
            self.wf(),
        ensures
            match r {
                Ok(Some(f)) => position_override(self.env(), self.cached(), node) == Ok::<
                    Option<Seq<Vec3>>,
                    EvalError,
                >(Some(f@)),
                Ok(None) => position_override(self.env(), self.cached(), node) == Ok::<
                    Option<Seq<Vec3>>,
                    EvalError,
                >(None),
                Err(e) => position_override(self.env(), self.cached(), node) == Err::<
                    Option<Seq<Vec3>>,
                    EvalError,
                >(e),
            },
    {
        if self.edges.source(node, 0).is_none() {
            return Ok(None);
        }
        match self.input_vec3(node, 0) {
            Ok(f) => Ok(Some(f)),
            Err(e) => Err(e),
        }
    }

    fn gather_scalars(&self, node: NodeId, count: u16) -> (r: EvalResult<Vec<Arc<ScalarField>>>)
        requires
            self.wf(),
        ensures
            match r {
                Ok(fs) => scalar_inputs(self.env(), self.cached(), node, count as nat) == Ok::<
                    Seq<Seq<Single>>,
                    EvalError,
                >(field_views(fs@)),
                Err(e) => scalar_inputs(self.env(), self.cached(), node, count as nat) == Err::<
                    Seq<Seq<Single>>,
                    EvalError,
                >(e),
            },
        decreases count,
    {
        if count == 0 {
            let fs: Vec<Arc<ScalarField>> = Vec::new();
            assert(field_views(fs@) =~= Seq::<Seq<Single>>::empty());
            return Ok(fs);
        }
        match self.gather_scalars(node, count - 1) {
            Err(e) => Err(e),
            Ok(rest) => match self.input_scalar(node, count - 1) {
                Err(e) => Err(e),
                Ok(f) => {
                    let mut fs = rest;
                    let ghost before = fs@;
                    fs.push(f);
                    assert(field_views(fs@) =~= field_views(before).push(f@));
                    Ok(fs)
                },
            },
        }
    }

    fn kernel_for(&self, node: NodeId, library: LibraryGraphId) -> (r: EvalResult<LibraryKernel>)
        ensures
            r == bound_kernel(self.env(), node, library),
    {
        match self.kernels {
            Some(m) => match m.get(&library.0) {
                Some(k) => Ok(*k),
                None => Err(EvalError::UnresolvedLibraryRef { node }),
            },
            None => Err(EvalError::UnresolvedLibraryRef { node }),
        }
    }

    fn named_value(params: Option<&'g ScalarParams>, name: &str, default: Single) -> (r: Single)
        ensures
            r == named_or(params_view(params), name@, default),
    {
        match params {
            Some(p) => p.get_or(name, default),
            None => default,
        }
    }

    fn graph_ref_name(&self, id: NodeId) -> (r: EvalResult<String>)
        ensures
            match r {
                Ok(name) => reference_name(self.env(), id) == Ok::<Seq<char>, EvalError>(name@),
                Err(e) => reference_name(self.env(), id) == Err::<Seq<char>, EvalError>(e),
            },
    {
        if self.upstream.is_none() {
            return Err(EvalError::UnresolvedGraphRef { node: id });
        }
        name_of_output(self.graph, id, 0)
    }
}

impl<'g> Evaluator<'g> {
    /// Fill one node from what is cached, or say what arithmetic fills it.
    pub fn fill_node(&self, id: NodeId) -> (r: EvalResult<Filled<'g>>)
        requires
            self.wf(),
        ensures
            fill_result(r) == node_fill(self.env(), self.cached(), id),
    {
        let node: &'g Node = match self.graph.nodes.get(id) {
            Some(node) => node,
            None => {
                return Err(EvalError::MissingOutput(id));
            },
        };
        if let Some(op) = operation_of(&node.kind) {
            return match self.gather_scalars(id, op.inputs()) {
                Ok(inputs) => Ok(Filled::Needed(FillWork::Apply { op, inputs })),
                Err(e) => Err(e),
            };
        }
        if let Some(source) = noise_source_of(&node.kind) {
            return match self.position_field(id) {
                Ok(positions) => Ok(
                    Filled::Needed(
                        FillWork::Noise {
                            source,
                            seed: self.ctx.noise_seed(source.params.seed),
                            positions,
                        },
                    ),
                ),
                Err(e) => Err(e),
            };
        }
        match &node.kind {
            NodeKind::Constant(p) => Ok(ready_uniform(p.value)),
            NodeKind::BiomeParam(p) => Ok(
                ready_uniform(
                    Evaluator::named_value(self.biome_params, p.name.as_str(), p.default),
                ),
            ),
            NodeKind::WorldParam(p) => Ok(
                ready_uniform(
                    Evaluator::named_value(self.world_params, p.name.as_str(), p.default),
                ),
            ),
            NodeKind::WorldPos(_) => Ok(Filled::Needed(FillWork::WorldPos)),
            NodeKind::WorldAxis(p) => Ok(Filled::Needed(FillWork::WorldAxis(p.axis))),
            NodeKind::YBand(p) => Ok(Filled::Needed(FillWork::YBand(*p))),
            NodeKind::DomainWarp(p) => match self.input_vec3(id, 0) {
                Ok(positions) => Ok(
                    Filled::Needed(
                        FillWork::Warp { params: *p, seeds: self.seeds_of_warp(*p), positions },
                    ),
                ),
                Err(e) => Err(e),
            },
            NodeKind::SurfaceToDensity(_) => self.pass_scalar(id, 0),
            NodeKind::Output(_) => self.pass_scalar(id, 0),
            NodeKind::FluidOutput(_) => self.pass_scalar(id, 1),
            NodeKind::ConstantMaterial(p) => Ok(ready_material(p.material)),
            NodeKind::Layer(p) => match self.input_scalar(id, 0) {
                Ok(density) => Ok(
                    Filled::Ready(
                        CachedOutput::Material(
                            Arc::new(fill_layers(&density, p.bands.as_slice(), p.fill)),
                        ),
                    ),
                ),
                Err(e) => Err(e),
            },
            NodeKind::Queue(_) => self.fill_queue(id),
            NodeKind::BuildTerrain(_) => self.fill_build_terrain(id),
            NodeKind::JitteredGrid(p) => Ok(Filled::Needed(FillWork::JitteredGrid(*p))),
            NodeKind::PoissonDisk(p) => Ok(Filled::Needed(FillWork::PoissonDisk(*p))),
            NodeKind::FindFlat(p) => match self.input_terrain(id, 0) {
                Err(e) => Err(e),
                Ok(terrain) => match self.input_positions(id, 1) {
                    Err(e) => Err(e),
                    Ok(points) => Ok(
                        Filled::Ready(
                            CachedOutput::Positions(
                                Arc::new(find_flat(&terrain, points.as_slice(), p)),
                            ),
                        ),
                    ),
                },
            },
            NodeKind::PlaceTree(_) => Err(EvalError::MissingInput { node: id, pin: 0 }),
            NodeKind::PlaceBlueprint(p) => match self.input_terrain(id, 0) {
                Err(e) => Err(e),
                Ok(terrain) => match self.input_positions(id, 1) {
                    Err(e) => Err(e),
                    Ok(points) => match &p.resolved {
                        Some(b) => Ok(
                            Filled::Ready(
                                CachedOutput::Terrain(
                                    Arc::new(place_blueprints(&terrain, points.as_slice(), b)),
                                ),
                            ),
                        ),
                        None => Err(EvalError::UnresolvedBlueprint { node: id }),
                    },
                },
            },
            NodeKind::PlaceStructure(_) => Err(
                EvalError::WrongInputType { node: id, expected: "terrain", got: "declaration" },
            ),
            NodeKind::TerrainOutput(_) => match self.input_terrain(id, 0) {
                Ok(terrain) => Ok(Filled::Ready(CachedOutput::Terrain(terrain))),
                Err(e) => Err(e),
            },
            NodeKind::DensityOutput(_) => self.fill_density_output(id),
            NodeKind::LibraryRef(p) => match self.kernel_for(id, p.library) {
                Err(e) => Err(e),
                Ok(kernel) => if kernel == LibraryKernel::StandardCaveNoise {
                    match self.input_vec3(id, 0) {
                        Err(e) => Err(e),
                        Ok(positions) => Ok(
                            Filled::Needed(
                                FillWork::Cave {
                                    seed: self.ctx.noise_seed(p.library.0),
                                    positions,
                                },
                            ),
                        ),
                    }
                } else {
                    Err(EvalError::WrongGraphDomain { node: id })
                },
            },
            NodeKind::GraphRef(p) => self.fill_graph_ref(id, p.target),
            _ => Err(EvalError::WrongGraphDomain { node: id }),
        }
    }

    fn seeds_of_warp(&self, p: DomainWarpParams) -> (r: (i32, i32))
        ensures
            r == warp_seeds(self.env().world_seed, p),
    {
        (self.ctx.noise_seed(p.seed), self.ctx.noise_seed(p.seed ^ 0xDEAD_BEEF))
    }

    fn pass_scalar(&self, id: NodeId, pin: u16) -> (r: EvalResult<Filled<'g>>)
        requires
            self.wf(),
        ensures
            fill_result(r) == passed_scalar(scalar_input(self.env(), self.cached(), id, pin)),
    {
        match self.input_scalar(id, pin) {
            Ok(f) => Ok(Filled::Ready(CachedOutput::Scalar(f))),
            Err(e) => Err(e),
        }
    }

    fn fill_queue(&self, id: NodeId) -> (r: EvalResult<Filled<'g>>)
        requires
            self.wf(),
            self.env().nodes.contains_key(id),
            self.env().nodes[id].kind is Queue,
        ensures
            fill_result(r) == node_fill(self.env(), self.cached(), id),
    {
        match self.input_material(id, 0) {
            Err(e) => Err(e),
            Ok(primary) => match self.input_material(id, 1) {
                Err(e) => Err(e),
                Ok(fallback) => Ok(
                    Filled::Ready(
                        CachedOutput::Material(Arc::new(fill_fallback(&primary, &fallback))),
                    ),
                ),
            },
        }
    }

    fn fill_build_terrain(&self, id: NodeId) -> (r: EvalResult<Filled<'g>>)
        requires
            self.wf(),
            self.env().nodes.contains_key(id),
            self.env().nodes[id].kind is BuildTerrain,
        ensures
            fill_result(r) == node_fill(self.env(), self.cached(), id),
    {
        match self.input_scalar(id, 0) {
            Err(e) => Err(e),
            Ok(density) => match self.input_material(id, 1) {
                Err(e) => Err(e),
                Ok(material) => Ok(
                    Filled::Ready(
                        CachedOutput::Terrain(Arc::new(fill_terrain(&density, &material))),
                    ),
                ),
            },
        }
    }

    fn fill_density_output(&self, id: NodeId) -> (r: EvalResult<Filled<'g>>)
        requires
            self.wf(),
            self.env().nodes.contains_key(id),
            self.env().nodes[id].kind is DensityOutput,
        ensures
            fill_result(r) == node_fill(self.env(), self.cached(), id),
    {
        match self.input_scalar(id, 0) {
            Err(e) => Err(e),
            Ok(density) => match self.input_material(id, 1) {
                Err(e) => Err(e),
                Ok(material) => Ok(Filled::Ready(CachedOutput::BiomeLayer { density, material })),
            },
        }
    }

    fn fill_graph_ref(&self, id: NodeId, target: GraphRefTarget) -> (r: EvalResult<Filled<'g>>)
        requires
            self.wf(),
            self.env().nodes.contains_key(id),
            self.env().nodes[id].kind is GraphRef,
            self.env().nodes[id].kind->GraphRef_0.target == target,
        ensures
            fill_result(r) == node_fill(self.env(), self.cached(), id),
    {
        match self.graph_ref_name(id) {
            Err(e) => Err(e),
            Ok(name) => match self.upstream {
                None => Err(EvalError::UnresolvedGraphRef { node: id }),
                Some(u) => match read_upstream(u, target, name.as_str(), id) {
                    Err(e) => Err(e),
                    Ok(columns) => Ok(
                        Filled::Ready(CachedOutput::Scalar(Arc::new(fill_spread(&columns)))),
                    ),
                },
            },
        }
    }
}

fn ready_uniform<'g>(value: Single) -> (r: Filled<'g>)
    ensures
        r@ == FillView::<'g>::Ready(OutputView::Scalar(uniform_field(value))),
{
    Filled::Ready(CachedOutput::Scalar(Arc::new(ScalarField::filled(value))))
}

fn ready_material<'g>(material: MaterialId) -> (r: Filled<'g>)
    ensures
        r@ == FillView::<'g>::Ready(
            OutputView::Material(Seq::new(32768, |i: int| material)),
        ),
{
    let buffer: ChunkBuffer<MaterialId> = ChunkBuffer::uniform(material);
    assert(buffer@ =~= Seq::new(32768, |i: int| material));
    Filled::Ready(CachedOutput::Material(Arc::new(buffer)))
}

/// What evaluation comes to: nothing left to do, arithmetic to do, or an error.
pub enum Progress<'g> {
    /// Every node is filled.
    Done,
    /// A node needs this arithmetic.
    Work {
        /// The node.
        node: NodeId,
        /// The arithmetic.
        work: WorkView<'g>,
    },
    /// Evaluation failed.
    Failed(EvalError),
}

/// Arithmetic that an evaluation waits for.
#[derive(Debug)]
pub struct PendingWork<'g> {
    /// The node to fill.
    pub node: NodeId,
    /// The arithmetic.
    pub work: FillWork<'g>,
}

/// The outcome of an evaluation, as values.
pub open spec fn progress_of<'g>(r: EvalResult<Option<PendingWork<'g>>>) -> Progress<'g> {
    match r {
        Err(e) => Progress::Failed(e),
        Ok(None) => Progress::Done,
        Ok(Some(p)) => Progress::Work { node: p.node, work: p.work@ },
    }
}

/// What filling nodes in order, from number `i` on, comes to, and what is cached
/// then.
pub open spec fn eval_run<'g>(
    env: EvalEnv,
    order: Seq<NodeId>,
    i: int,
    cache: Map<u64, OutputView>,
) -> (Progress<'g>, Map<u64, OutputView>)
    decreases order.len() - i,
{
    if i < 0 || i >= order.len() {
        (Progress::Done, cache)
    } else if cache.contains_key(order[i].code()) {
        eval_run(env, order, i + 1, cache)
    } else {
        match node_fill(env, cache, order[i]) {
            Err(e) => (Progress::Failed(e), cache),
            Ok(FillView::Needed(work)) => (Progress::Work { node: order[i], work }, cache),
            Ok(FillView::Ready(out)) => eval_run(
                env,
                order,
                i + 1,
                cache.insert(order[i].code(), out),
            ),
        }
    }
}

impl<'g> Evaluator<'g> {
    fn settle_order(&mut self) -> (r: EvalResult<Vec<NodeId>>)
        requires
            old(self).wf(),
        ensures
            final(self).wf(),
            final(self).env() == old(self).env(),
            final(self).graph_kind() == old(self).graph_kind(),
            final(self).cached() == old(self).cached(),
            match r {
                Ok(order) => {
                    &&& evaluable(
                        old(self).graph_kind(),
                        old(self).env().nodes,
                        old(self).env().edges,
                    )
                    &&& is_evaluation_order(
                        old(self).env().nodes,
                        old(self).env().edges,
                        order@,
                    )
                },
                Err(e) => {
                    &&& !evaluable(
                        old(self).graph_kind(),
                        old(self).env().nodes,
                        old(self).env().edges,
                    )
                    &&& exists|keys: Seq<NodeId>| #[trigger]
                        is_key_order(old(self).env().nodes, keys) && e == EvalError::InvalidGraph(
                            findings(
                                old(self).graph_kind(),
                                old(self).env().nodes,
                                old(self).env().edges,
                                keys,
                            ).len() as usize,
                        )
                },
            },
    {
        let mut held: Option<Vec<NodeId>> = None;
        std::mem::swap(&mut held, &mut self.order);
        match held {
            Some(order) => Ok(order),
            None => evaluation_order(self.graph),
        }
    }

    /// Fill every node in dependency order. Where a node needs arithmetic,
    /// evaluation stops and says which; it goes on from there once the output is
    /// supplied.
    pub fn evaluate(&mut self) -> (r: EvalResult<Option<PendingWork<'g>>>)
        requires
            old(self).wf(),
        ensures
            final(self).wf(),
            final(self).env() == old(self).env(),
            final(self).graph_kind() == old(self).graph_kind(),
            evaluable(
                old(self).graph_kind(),
                old(self).env().nodes,
                old(self).env().edges,
            ) ==> exists|order: Seq<NodeId>| #[trigger]
                is_evaluation_order(old(self).env().nodes, old(self).env().edges, order)
                    && eval_run(old(self).env(), order, 0, old(self).cached()) == (
                    progress_of(r),
                    final(self).cached(),
                ),
            !evaluable(
                old(self).graph_kind(),
                old(self).env().nodes,
                old(self).env().edges,
            ) ==> final(self).cached() == old(self).cached() && exists|keys: Seq<NodeId>|
                #[trigger] is_key_order(old(self).env().nodes, keys) && progress_of(r)
                    == Progress::<'g>::Failed(
                    EvalError::InvalidGraph(
                        findings(
                            old(self).graph_kind(),
                            old(self).env().nodes,
                            old(self).env().edges,
                            keys,
                        ).len() as usize,
                    ),
                ),
    {
        let order = match self.settle_order() {
            Ok(order) => order,
            Err(e) => {
                return Err(e);
            },
        };
        let ghost env = self.env();
        let ghost start = self.cached();
        let mut i: usize = 0;
        let mut outcome: EvalResult<Option<PendingWork<'g>>> = Ok(None);
        let mut running: bool = true;
        while running && i < order.len()
            invariant
                i <= order@.len(),
                self.wf(),
                self.env() == env,
                env == old(self).env(),
                self.graph_kind() == old(self).graph_kind(),
                is_evaluation_order(env.nodes, env.edges, order@),
                running ==> progress_of(outcome) == Progress::<'g>::Done && eval_run::<'g>(
                    env,
                    order@,
                    0,
                    start,
                ) == eval_run::<'g>(env, order@, i as int, self.cached()),
                !running ==> eval_run(env, order@, 0, start) == (
                    progress_of(outcome),
                    self.cached(),
                ),
            decreases order@.len() - i + (if running { 1int } else { 0int }),
        {
            let id = order[i];
            if self.cache.contains(id) {
                i = i + 1;
            } else {
                match self.fill_node(id) {
                    Err(e) => {
                        outcome = Err(e);
                        running = false;
                    },
                    Ok(Filled::Needed(work)) => {
                        outcome = Ok(Some(PendingWork { node: id, work }));
                        running = false;
                    },
                    Ok(Filled::Ready(out)) => {
                        self.cache.insert(id, out);
                        i = i + 1;
                    },
                }
            }
        }
        self.order = Some(order);
        outcome
    }

    /// Store the output that an evaluation waits for.
    pub fn supply(&mut self, node: NodeId, out: CachedOutput)
        requires
            old(self).wf(),
        ensures
            final(self).wf(),
            final(self).env() == old(self).env(),
            final(self).graph_kind() == old(self).graph_kind(),
            final(self).cached() == old(self).cached().insert(node.code(), out@),
    {
        self.cache.insert(node, out);
    }
}

/// Whether a run of steps was appended as planned: on success the steps are
/// there, and on failure the error is the planned one.
spec fn appended<'g>(
    r: EvalResult<()>,
    before: Seq<SampleStep<'g>>,
    after: Seq<SampleStep<'g>>,
    plan: Result<Seq<SampleStep<'g>>, EvalError>,
) -> bool {
    match r {
        Ok(_) => match plan {
            Ok(steps) => after == before + steps,
            Err(_) => false,
        },
        Err(e) => plan == Err::<Seq<SampleStep<'g>>, EvalError>(e),
    }
}

impl<'g> Evaluator<'g> {
    /// How a single value of a scalar node is computed, step by step.
    pub fn sample_density(&self, id: NodeId) -> (r: EvalResult<Vec<SampleStep<'g>>>)
        requires
            self.wf(),
            probeable(self.env(), id),
        ensures
            sample_result(r) == sample_steps(
                self.env(),
                id,
                depth(self.env().nodes, self.env().edges, id),
            ),
    {
        let ghost n = depth(self.env().nodes, self.env().edges, id);
        assert(settles_within(self.env().nodes, self.env().edges, id, n));
        let mut steps: Vec<SampleStep<'g>> = Vec::new();
        match self.sample_into(id, &mut steps, Ghost(n)) {
            Ok(_) => {
                proof {
                    let plan = sample_steps::<'g>(self.env(), id, n)->Ok_0;
                    assert(Seq::<SampleStep<'g>>::empty() + plan =~= plan);
                }
                Ok(steps)
            },
            Err(e) => Err(e),
        }
    }

    fn sample_into(&self, id: NodeId, out: &mut Vec<SampleStep<'g>>, Ghost(n): Ghost<nat>) -> (r:
        EvalResult<()>)
        requires
            self.wf(),
            probeable(self.env(), id),
            settles_within(self.env().nodes, self.env().edges, id, n),
        ensures
            appended(r, old(out)@, final(out)@, sample_steps(self.env(), id, n)),
        decreases n, 2int, 0nat,
    {
        let ghost before = out@;
        let node: &'g Node = match self.graph.nodes.get(id) {
            Some(node) => node,
            None => {
                return Err(EvalError::MissingOutput(id));
            },
        };
        if let Some(op) = operation_of(&node.kind) {
            return match self.inputs_into(id, op.inputs(), out, Ghost(n)) {
                Err(e) => Err(e),
                Ok(_) => {
                    let ghost planned = input_steps::<'g>(
                        self.env(),
                        id,
                        op.arity(),
                        n,
                    )->Ok_0;
                    out.push(SampleStep::Apply(op));
                    assert(out@ =~= before + planned.push(SampleStep::Apply(op)));
                    Ok(())
                },
            };
        }
        if let Some(source) = noise_source_of(&node.kind) {
            let seed: i32 = self.ctx.noise_seed(source.params.seed);
            if self.edges.source(id, 0).is_none() {
                out.push(SampleStep::Noise { source, seed });
                assert(out@ =~= before + seq![out@.last()]);
                return Ok(());
            }
            return match self.position_into(id, out, Ghost(n)) {
                Err(e) => Err(e),
                Ok(_) => {
                    let ghost planned = position_input_steps::<'g>(self.env(), id, n)->Ok_0;
                    let step = SampleStep::NoiseAt { source, seed };
                    out.push(step);
                    assert(out@ =~= before + planned.push(step));
                    Ok(())
                },
            };
        }
        match &node.kind {
            NodeKind::Constant(p) => {
                out.push(SampleStep::Value(p.value));
                assert(out@ =~= before + seq![out@.last()]);
                Ok(())
            },
            NodeKind::BiomeParam(p) => {
                out.push(
                    SampleStep::Value(
                        Evaluator::named_value(self.biome_params, p.name.as_str(), p.default),
                    ),
                );
                assert(out@ =~= before + seq![out@.last()]);
                Ok(())
            },
            NodeKind::WorldParam(p) => {
                out.push(
                    SampleStep::Value(
                        Evaluator::named_value(self.world_params, p.name.as_str(), p.default),
                    ),
                );
                assert(out@ =~= before + seq![out@.last()]);
                Ok(())
            },
            NodeKind::WorldAxis(p) => {
                out.push(SampleStep::WorldAxis(p.axis));
                assert(out@ =~= before + seq![out@.last()]);
                Ok(())
            },
            NodeKind::YBand(p) => {
                out.push(SampleStep::YBand(*p));
                assert(out@ =~= before + seq![out@.last()]);
                Ok(())
            },
            NodeKind::SurfaceToDensity(_) => self.inputs_into(id, 1, out, Ghost(n)),
            NodeKind::Output(_) => self.inputs_into(id, 1, out, Ghost(n)),
            NodeKind::WorldPos(_) => Err(
                EvalError::WrongInputType { node: id, expected: "scalar", got: "vec3" },
            ),
            NodeKind::DomainWarp(_) => Err(
                EvalError::WrongInputType { node: id, expected: "scalar", got: "vec3" },
            ),
            NodeKind::ConstantMaterial(_)
            | NodeKind::Layer(_)
            | NodeKind::Queue(_)
            | NodeKind::BuildTerrain(_)
            | NodeKind::TerrainOutput(_)
            | NodeKind::DensityOutput(_)
            | NodeKind::JitteredGrid(_)
            | NodeKind::PoissonDisk(_)
            | NodeKind::FindFlat(_)
            | NodeKind::PlaceTree(_)
            | NodeKind::PlaceBlueprint(_)
            | NodeKind::PlaceStructure(_) => Err(
                EvalError::WrongInputType {
                    node: id,
                    expected: "scalar",
                    got: "material/terrain/positions",
                },
            ),
            NodeKind::LibraryRef(p) => match self.kernel_for(id, p.library) {
                Err(e) => Err(e),
                Ok(kernel) => if kernel == LibraryKernel::StandardCaveNoise {
                    match self.position_into(id, out, Ghost(n)) {
                        Err(e) => Err(e),
                        Ok(_) => {
                            let ghost planned = position_input_steps::<'g>(
                                self.env(),
                                id,
                                n,
                            )->Ok_0;
                            let step = SampleStep::Cave {
                                seed: self.ctx.noise_seed(p.library.0),
                            };
                            out.push(step);
                            assert(out@ =~= before + planned.push(step));
                            Ok(())
                        },
                    }
                } else {
                    Err(EvalError::WrongGraphDomain { node: id })
                },
            },
            NodeKind::GraphRef(p) => match self.upstream_column(id, p.target) {
                Err(e) => Err(e),
                Ok(step) => {
                    out.push(step);
                    assert(out@ =~= before + seq![step]);
                    Ok(())
                },
            },
            _ => Err(EvalError::WrongGraphDomain { node: id }),
        }
    }

    fn inputs_into(
        &self,
        id: NodeId,
        count: u16,
        out: &mut Vec<SampleStep<'g>>,
        Ghost(n): Ghost<nat>,
    ) -> (r: EvalResult<()>)
        requires
            self.wf(),
            self.env().nodes.contains_key(id),
            probeable(self.env(), id),
            settles_within(self.env().nodes, self.env().edges, id, n),
        ensures
            appended(r, old(out)@, final(out)@, input_steps(self.env(), id, count as nat, n)),
        decreases n, 1int, count as nat,
    {
        let ghost before = out@;
        if count == 0 {
            assert(before + Seq::<SampleStep<'g>>::empty() =~= before);
            return Ok(());
        }
        match self.inputs_into(id, count - 1, out, Ghost(n)) {
            Err(e) => {
                return Err(e);
            },
            Ok(_) => {},
        }
        match self.edges.source(id, count - 1) {
            None => Err(EvalError::MissingInput { node: id, pin: count - 1 }),
            Some(from) => {
                if !self.graph.nodes.contains_key(from.node) {
                    return Err(EvalError::MissingOutput(from.node));
                }
                proof {
                    let i = lemma_source_edge(self.env().edges, id, (count - 1) as u16);
                    assert(live(self.env().nodes, self.env().edges, i));
                    assert(settles_within(
                        self.env().nodes,
                        self.env().edges,
                        from.node,
                        (n - 1) as nat,
                    ));
                }
                match self.sample_into(from.node, out, Ghost((n - 1) as nat)) {
                    Err(e) => Err(e),
                    Ok(_) => {
                        proof {
                            let a = input_steps::<'g>(
                                self.env(),
                                id,
                                (count - 1) as nat,
                                n,
                            )->Ok_0;
                            let b = sample_steps::<'g>(
                                self.env(),
                                from.node,
                                (n - 1) as nat,
                            )->Ok_0;
                            assert(before + a + b =~= before + (a + b));
                        }
                        Ok(())
                    },
                }
            },
        }
    }

    fn position_into(
        &self,
        id: NodeId,
        out: &mut Vec<SampleStep<'g>>,
        Ghost(n): Ghost<nat>,
    ) -> (r: EvalResult<()>)
        requires
            self.wf(),
            self.env().nodes.contains_key(id),
            probeable(self.env(), id),
            settles_within(self.env().nodes, self.env().edges, id, n),
        ensures
            appended(r, old(out)@, final(out)@, position_input_steps(self.env(), id, n)),
        decreases n, 1int, 0nat,
    {
        match self.edges.source(id, 0) {
            None => Err(EvalError::MissingInput { node: id, pin: 0 }),
            Some(from) => {
                if !self.graph.nodes.contains_key(from.node) {
                    return Err(EvalError::MissingOutput(from.node));
                }
                proof {
                    let i = lemma_source_edge(self.env().edges, id, 0);
                    assert(live(self.env().nodes, self.env().edges, i));
                    assert(settles_within(
                        self.env().nodes,
                        self.env().edges,
                        from.node,
                        (n - 1) as nat,
                    ));
                }
                self.node_position_into(from.node, out, Ghost((n - 1) as nat))
            },
        }
    }

    fn node_position_into(
        &self,
        id: NodeId,
        out: &mut Vec<SampleStep<'g>>,
        Ghost(n): Ghost<nat>,
    ) -> (r: EvalResult<()>)
        requires
            self.wf(),
            probeable(self.env(), id),
            settles_within(self.env().nodes, self.env().edges, id, n),
        ensures
            appended(r, old(out)@, final(out)@, position_steps(self.env(), id, n)),
        decreases n, 2int, 0nat,
    {
        let ghost before = out@;
        match self.graph.nodes.get(id) {
            None => Err(EvalError::MissingOutput(id)),
            Some(node) => match &node.kind {
                NodeKind::WorldPos(_) => {
                    out.push(SampleStep::Position);
                    assert(out@ =~= before + seq![out@.last()]);
                    Ok(())
                },
                NodeKind::DomainWarp(p) => match self.position_into(id, out, Ghost(n)) {
                    Err(e) => Err(e),
                    Ok(_) => {
                        let ghost planned = position_input_steps::<'g>(self.env(), id, n)->Ok_0;
                        let step = SampleStep::Warp { params: *p, seeds: self.seeds_of_warp(*p) };
                        out.push(step);
                        assert(out@ =~= before + planned.push(step));
                        Ok(())
                    },
                },
                _ => Err(
                    EvalError::WrongInputType { node: id, expected: "vec3", got: "scalar" },
                ),
            },
        }
    }

    fn upstream_column(&self, id: NodeId, target: GraphRefTarget) -> (r: EvalResult<
        SampleStep<'g>,
    >)
        requires
            self.wf(),
            probeable(self.env(), id),
        ensures
            match r {
                Ok(step) => match reference_name(self.env(), id) {
                    Ok(name) => match upstream_plan(
                        self.env().upstream->0,
                        target,
                        name,
                        id,
                    ) {
                        Ok(plan) => step == (SampleStep::Column {
                            params: plan.params,
                            seed: plan.seed,
                        }),
                        Err(_) => false,
                    },
                    Err(_) => false,
                },
                Err(e) => match reference_name(self.env(), id) {
                    Ok(name) => upstream_plan(self.env().upstream->0, target, name, id) == Err::<
                        ColumnPlanView,
                        EvalError,
                    >(e),
                    Err(f) => e == f,
                },
            },
    {
        let name = match self.graph_ref_name(id) {
            Ok(name) => name,
            Err(e) => {
                return Err(e);
            },
        };
        let graphs = match self.upstream {
            Some(u) => u,
            None => {
                return Err(EvalError::UnresolvedGraphRef { node: id });
            },
        };
        match find_upstream(graphs, target, name.as_str(), id) {
            Err(e) => Err(e),
            Ok((g, out)) => {
                let (inner, inner_edges, inner_ctx) = g.parts();
                let ghost inner_env = ColumnEnv {
                    nodes: g@.nodes,
                    edges: g@.edges,
                    world_seed: g@.world_seed,
                    upstream: None,
                };
                let ghost inner_depth = depth(g@.nodes, g@.edges, out);
                proof {
                    assert(self.env().upstream->0.contains_key(target.rank()));
                    assert(self.env().upstream->0[target.rank()].nodes.contains_key(out));
                    assert(settles(g@.nodes, g@.edges, out));
                    assert(settles_within(g@.nodes, g@.edges, out, inner_depth));
                }
                let plan = plan_column(
                    inner,
                    inner_edges,
                    inner_ctx,
                    None,
                    out,
                    Ghost(inner_env),
                    Ghost(inner_depth),
                );
                match refuse_bands(plan, out) {
                    Ok(p) => Ok(SampleStep::Column { params: p.params, seed: p.seed }),
                    Err(e) => Err(e),
                }
            },
        }
    }
}

/// The outcome of planning a single value, as values.
pub open spec fn sample_result<'g>(r: EvalResult<Vec<SampleStep<'g>>>) -> Result<
    Seq<SampleStep<'g>>,
    EvalError,
> {
    match r {
        Ok(steps) => Ok(steps@),
        Err(e) => Err(e),
    }
}

} // verus!
