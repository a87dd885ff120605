//! What evaluating a biome graph comes to: the model that the evaluator follows.
use crate::cache::OutputView;
use crate::column_eval::{
    column_plan, depth, must_be_surface, output_name, upstream_field, upstream_node, ColumnEnv,
    ColumnPlanView, UpstreamView,
};
use crate::context::noise_seed_of;
use crate::edge::Edge;
use crate::eval_error::EvalError;
use crate::field::Vec3;
use crate::fills::{fallback_cells, layer_cells, spread_cells, terrain_cells};
use crate::ids::{GraphRefTarget, LibraryGraphId};
use crate::index::indexed_source;
use crate::library_kernel::LibraryKernel;
use crate::node::{Node, NodeKind};
use crate::operation::{noise_source, operator, NoiseSource, ScalarOp};
use crate::order::settles;
use crate::params::{
    Axis, DomainWarpParams, JitteredGridParams, NoiseParams, PoissonDiskParams, YBandParams,
};
use crate::place::stamped;
use crate::scalar::Single;
use crate::scan::footed;
use crate::scatter::ScatterPoint;
use crate::slots::NodeId;
use crate::voxel::{MaterialId, Voxel};
use vstd::prelude::*;

verus! {

/// What an evaluation reads, as values.
pub struct EvalEnv {
    /// The graph's nodes.
    pub nodes: Map<NodeId, Node>,
    /// The graph's edges.
    pub edges: Seq<Edge>,
    /// The world seed.
    pub world_seed: u64,
    /// The biome's named scalars.
    pub biome_params: Option<Map<Seq<char>, Single>>,
    /// The world's named scalars.
    pub world_params: Option<Map<Seq<char>, Single>>,
    /// Native kernels by library.
    pub kernels: Option<Map<u32, LibraryKernel>>,
    /// The graphs that references read, by the place of their target.
    pub upstream: Option<Map<u32, UpstreamView>>,
}

/// Arithmetic that fills a node, as values.
pub enum WorkView<'g> {
    /// An operation on scalar fields.
    Apply {
        /// The operation.
        op: ScalarOp<'g>,
        /// The fields, by pin.
        inputs: Seq<Seq<Single>>,
    },
    /// Noise over the chunk.
    Noise {
        /// Which noise.
        source: NoiseSource,
        /// Its seed.
        seed: i32,
        /// Where to sample it, if not at the cells' own positions.
        positions: Option<Seq<Vec3>>,
    },
    /// World positions.
    WorldPos,
    /// One coordinate of world positions.
    WorldAxis(Axis),
    /// One within a range of heights, zero elsewhere.
    YBand(YBandParams),
    /// Positions displaced by noise.
    Warp {
        /// How far and how fast.
        params: DomainWarpParams,
        /// The seeds of the two noises.
        seeds: (i32, i32),
        /// The positions.
        positions: Seq<Vec3>,
    },
    /// Cave noise at positions.
    Cave {
        /// Its seed.
        seed: i32,
        /// The positions.
        positions: Seq<Vec3>,
    },
    /// Points on a jittered grid.
    JitteredGrid(JitteredGridParams),
    /// Points by Poisson-disk sampling.
    PoissonDisk(PoissonDiskParams),
}

/// What filling a node comes to.
pub enum FillView<'g> {
    /// Its output.
    Ready(OutputView),
    /// The arithmetic that gives its output.
    Needed(WorkView<'g>),
}

/// The cached output feeding an input pin.
pub open spec fn input_output(
    env: EvalEnv,
    cache: Map<u64, OutputView>,
    node: NodeId,
    pin: u16,
) -> Result<OutputView, EvalError> {
    match indexed_source(env.edges, node, pin) {
        None => Err(EvalError::MissingInput { node, pin }),
        Some(from) => if cache.contains_key(from.node.code()) {
            Ok(cache[from.node.code()])
        } else {
            Err(EvalError::MissingOutput(from.node))
        },
    }
}

/// The scalar field feeding an input pin.
pub open spec fn scalar_input(
    env: EvalEnv,
    cache: Map<u64, OutputView>,
    node: NodeId,
    pin: u16,
) -> Result<Seq<Single>, EvalError> {
    match input_output(env, cache, node, pin) {
        Err(e) => Err(e),
        Ok(OutputView::Scalar(f)) => Ok(f),
        Ok(other) => Err(
            EvalError::WrongInputType {
                node,
                expected: "scalar/density",
                got: other.kind_label(),
            },
        ),
    }
}

/// The vector field feeding an input pin.
pub open spec fn vec3_input(
    env: EvalEnv,
    cache: Map<u64, OutputView>,
    node: NodeId,
    pin: u16,
) -> Result<Seq<Vec3>, EvalError> {
    match input_output(env, cache, node, pin) {
        Err(e) => Err(e),
        Ok(OutputView::Vec3(f)) => Ok(f),
        Ok(other) => Err(
            EvalError::WrongInputType { node, expected: "vec3", got: other.kind_label() },
        ),
    }
}

/// The vector field overriding a noise source's positions, if one is connected.
pub open spec fn position_override(
    env: EvalEnv,
    cache: Map<u64, OutputView>,
    node: NodeId,
) -> Result<Option<Seq<Vec3>>, EvalError> {
    if indexed_source(env.edges, node, 0) is None {
        Ok(None)
    } else {
        match vec3_input(env, cache, node, 0) {
            Ok(f) => Ok(Some(f)),
            Err(e) => Err(e),
        }
    }
}

/// The material field feeding an input pin.
pub open spec fn material_input(
    env: EvalEnv,
    cache: Map<u64, OutputView>,
    node: NodeId,
    pin: u16,
) -> Result<Seq<MaterialId>, EvalError> {
    match input_output(env, cache, node, pin) {
        Err(e) => Err(e),
        Ok(OutputView::Material(f)) => Ok(f),
        Ok(other) => Err(
            EvalError::WrongInputType { node, expected: "material", got: other.kind_label() },
        ),
    }
}

/// The terrain feeding an input pin.
pub open spec fn terrain_input(
    env: EvalEnv,
    cache: Map<u64, OutputView>,
    node: NodeId,
    pin: u16,
) -> Result<Seq<Voxel>, EvalError> {
    match input_output(env, cache, node, pin) {
        Err(e) => Err(e),
        Ok(OutputView::Terrain(f)) => Ok(f),
        Ok(other) => Err(
            EvalError::WrongInputType { node, expected: "terrain", got: other.kind_label() },
        ),
    }
}

/// The scatter points feeding an input pin.
pub open spec fn positions_input(
    env: EvalEnv,
    cache: Map<u64, OutputView>,
    node: NodeId,
    pin: u16,
) -> Result<Seq<ScatterPoint>, EvalError> {
    match input_output(env, cache, node, pin) {
        Err(e) => Err(e),
        Ok(OutputView::Positions(p)) => Ok(p),
        Ok(other) => Err(
            EvalError::WrongInputType { node, expected: "positions", got: other.kind_label() },
        ),
    }
}

/// The scalar fields feeding the first `k` input pins; the first pin that has
/// none decides the error.
pub open spec fn scalar_inputs(
    env: EvalEnv,
    cache: Map<u64, OutputView>,
    node: NodeId,
    k: nat,
) -> Result<Seq<Seq<Single>>, EvalError>
    decreases k,
{
    if k == 0 {
        Ok(Seq::empty())
    } else {
        match scalar_inputs(env, cache, node, (k - 1) as nat) {
            Err(e) => Err(e),
            Ok(rest) => match scalar_input(env, cache, node, (k - 1) as u16) {
                Err(e) => Err(e),
                Ok(f) => Ok(rest.push(f)),
            },
        }
    }
}

/// The value of a named scalar, or a default.
pub open spec fn named_or(
    params: Option<Map<Seq<char>, Single>>,
    name: Seq<char>,
    default: Single,
) -> Single {
    match params {
        Some(m) => if m.contains_key(name) {
            m[name]
        } else {
            default
        },
        None => default,
    }
}

/// The kernel bound to a library.
pub open spec fn bound_kernel(env: EvalEnv, node: NodeId, library: LibraryGraphId) -> Result<
    LibraryKernel,
    EvalError,
> {
    match env.kernels {
        Some(m) => if m.contains_key(library.0) {
            Ok(m[library.0])
        } else {
            Err(EvalError::UnresolvedLibraryRef { node })
        },
        None => Err(EvalError::UnresolvedLibraryRef { node }),
    }
}

/// The name that a graph reference's first output reads.
pub open spec fn reference_name(env: EvalEnv, id: NodeId) -> Result<Seq<char>, EvalError> {
    if env.upstream is None {
        Err(EvalError::UnresolvedGraphRef { node: id })
    } else {
        output_name(env.nodes, id, 0)
    }
}

/// A field holding one value.
pub open spec fn uniform_field(value: Single) -> Seq<Single> {
    Seq::new(32768, |i: int| value)
}

/// The output that passes a scalar input on.
pub open spec fn passed_scalar<'g>(r: Result<Seq<Single>, EvalError>) -> Result<
    FillView<'g>,
    EvalError,
> {
    match r {
        Ok(f) => Ok(FillView::Ready(OutputView::Scalar(f))),
        Err(e) => Err(e),
    }
}

/// Whether a node belongs to column or detail graphs alone.
pub open spec fn foreign_domain(kind: NodeKind) -> bool {
    match kind {
        NodeKind::SurfaceNoise(_) => true,
        NodeKind::WorldOutput(_) => true,
        NodeKind::ZoneOutput(_) => true,
        NodeKind::GraphOutput(_) => true,
        NodeKind::PoissonDistribution(_) => true,
        NodeKind::SurfaceFilter(_) => true,
        NodeKind::BiomeContextMask(_) => true,
        NodeKind::SpeciesPicker(_) => true,
        NodeKind::PaintDensity(_) => true,
        NodeKind::ScatterPlace(_) => true,
        _ => false,
    }
}

/// What filling a node comes to, given what is cached.
pub open spec fn node_fill<'g>(env: EvalEnv, cache: Map<u64, OutputView>, id: NodeId) -> Result<
    FillView<'g>,
    EvalError,
> {
    if !env.nodes.contains_key(id) {
        Err(EvalError::MissingOutput(id))
    } else if operator(&env.nodes[id].kind) is Some {
        let op = operator(&env.nodes[id].kind)->0;
        match scalar_inputs(env, cache, id, op.arity()) {
            Ok(inputs) => Ok(FillView::Needed(WorkView::Apply { op, inputs })),
            Err(e) => Err(e),
        }
    } else if noise_source(env.nodes[id].kind) is Some {
        let source = noise_source(env.nodes[id].kind)->0;
        match position_override(env, cache, id) {
            Ok(positions) => Ok(
                FillView::Needed(
                    WorkView::Noise {
                        source,
                        seed: noise_seed_of(env.world_seed, source.params.seed),
                        positions,
                    },
                ),
            ),
            Err(e) => Err(e),
        }
    } else if foreign_domain(env.nodes[id].kind) {
        Err(EvalError::WrongGraphDomain { node: id })
    } else {
        match env.nodes[id].kind {
            NodeKind::Constant(p) => Ok(
                FillView::Ready(OutputView::Scalar(uniform_field(p.value))),
            ),
            NodeKind::BiomeParam(p) => Ok(
                FillView::Ready(
                    OutputView::Scalar(
                        uniform_field(named_or(env.biome_params, p.name@, p.default)),
                    ),
                ),
            ),
            NodeKind::WorldParam(p) => Ok(
                FillView::Ready(
                    OutputView::Scalar(
                        uniform_field(named_or(env.world_params, p.name@, p.default)),
                    ),
                ),
            ),
            NodeKind::WorldPos(_) => Ok(FillView::Needed(WorkView::WorldPos)),
            NodeKind::WorldAxis(p) => Ok(FillView::Needed(WorkView::WorldAxis(p.axis))),
            NodeKind::YBand(p) => Ok(FillView::Needed(WorkView::YBand(p))),
            NodeKind::DomainWarp(p) => match vec3_input(env, cache, id, 0) {
                Ok(positions) => Ok(
                    FillView::Needed(
                        WorkView::Warp {
                            params: p,
                            seeds: warp_seeds(env.world_seed, p),
                            positions,
                        },
                    ),
                ),
                Err(e) => Err(e),
            },
            NodeKind::SurfaceToDensity(_) => passed_scalar(scalar_input(env, cache, id, 0)),
            NodeKind::Output(_) => passed_scalar(scalar_input(env, cache, id, 0)),
            NodeKind::FluidOutput(_) => passed_scalar(scalar_input(env, cache, id, 1)),
            NodeKind::ConstantMaterial(p) => Ok(
                FillView::Ready(OutputView::Material(Seq::new(32768, |i: int| p.material))),
            ),
            NodeKind::Layer(p) => match scalar_input(env, cache, id, 0) {
                Ok(density) => Ok(
                    FillView::Ready(
                        OutputView::Material(layer_cells(density, p.bands@, p.fill)),
                    ),
                ),
                Err(e) => Err(e),
            },
            NodeKind::Queue(_) => match material_input(env, cache, id, 0) {
                Err(e) => Err(e),
                Ok(primary) => match material_input(env, cache, id, 1) {
                    Err(e) => Err(e),
                    Ok(fallback) => Ok(
                        FillView::Ready(OutputView::Material(fallback_cells(primary, fallback))),
                    ),
                },
            },
            NodeKind::BuildTerrain(_) => match scalar_input(env, cache, id, 0) {
                Err(e) => Err(e),
                Ok(density) => match material_input(env, cache, id, 1) {
                    Err(e) => Err(e),
                    Ok(material) => Ok(
                        FillView::Ready(OutputView::Terrain(terrain_cells(density, material))),
                    ),
                },
            },
            NodeKind::JitteredGrid(p) => Ok(FillView::Needed(WorkView::JitteredGrid(p))),
            NodeKind::PoissonDisk(p) => Ok(FillView::Needed(WorkView::PoissonDisk(p))),
            NodeKind::FindFlat(p) => match terrain_input(env, cache, id, 0) {
                Err(e) => Err(e),
                Ok(terrain) => match positions_input(env, cache, id, 1) {
                    Err(e) => Err(e),
                    Ok(points) => Ok(
                        FillView::Ready(
                            OutputView::Positions(
                                footed(terrain, points, p.max_step as int, p.on_materials@),
                            ),
                        ),
                    ),
                },
            },
            NodeKind::PlaceTree(_) => Err(EvalError::MissingInput { node: id, pin: 0 }),
            NodeKind::PlaceBlueprint(p) => match terrain_input(env, cache, id, 0) {
                Err(e) => Err(e),
                Ok(terrain) => match positions_input(env, cache, id, 1) {
                    Err(e) => Err(e),
                    Ok(points) => match p.resolved {
                        Some(b) => Ok(
                            FillView::Ready(
                                OutputView::Terrain(
                                    stamped(terrain, points, b.anchor, b.cells@),
                                ),
                            ),
                        ),
                        None => Err(EvalError::UnresolvedBlueprint { node: id }),
                    },
                },
            },
            NodeKind::PlaceStructure(_) => Err(
                EvalError::WrongInputType { node: id, expected: "terrain", got: "declaration" },
            ),
            NodeKind::TerrainOutput(_) => match terrain_input(env, cache, id, 0) {
                Ok(terrain) => Ok(FillView::Ready(OutputView::Terrain(terrain))),
                Err(e) => Err(e),
            },
            NodeKind::DensityOutput(_) => match scalar_input(env, cache, id, 0) {
                Err(e) => Err(e),
                Ok(density) => match material_input(env, cache, id, 1) {
                    Err(e) => Err(e),
                    Ok(material) => Ok(
                        FillView::Ready(OutputView::BiomeLayer { density, material }),
                    ),
                },
            },
            NodeKind::LibraryRef(p) => match bound_kernel(env, id, p.library) {
                Err(e) => Err(e),
                Ok(LibraryKernel::StandardCaveNoise) => match vec3_input(env, cache, id, 0) {
                    Err(e) => Err(e),
                    Ok(positions) => Ok(
                        FillView::Needed(
                            WorkView::Cave {
                                seed: noise_seed_of(env.world_seed, p.library.0),
                                positions,
                            },
                        ),
                    ),
                },
                Ok(_) => Err(EvalError::WrongGraphDomain { node: id }),
            },
            NodeKind::GraphRef(p) => match reference_name(env, id) {
                Err(e) => Err(e),
                Ok(name) => match upstream_field(env.upstream->0, p.target, name, id) {
                    Err(e) => Err(e),
                    Ok(columns) => Ok(
                        FillView::Ready(OutputView::Scalar(spread_cells(columns))),
                    ),
                },
            },
            _ => Err(EvalError::WrongGraphDomain { node: id }),
        }
    }
}

/// The seeds of the two noises a warp displaces by.
pub open spec fn warp_seeds(world_seed: u64, p: DomainWarpParams) -> (i32, i32) {
    (noise_seed_of(world_seed, p.seed), noise_seed_of(world_seed, p.seed ^ 0xDEAD_BEEF))
}

/// One step of computing a single value, on a stack of values and positions.
#[derive(Clone, Copy, Debug)]
pub enum SampleStep<'g> {
    /// Push a number.
    Value(Single),
    /// Push noise at the cell.
    Noise {
        /// Which noise.
        source: NoiseSource,
        /// Its seed.
        seed: i32,
    },
    /// Take the position on top and push noise there.
    NoiseAt {
        /// Which noise.
        source: NoiseSource,
        /// Its seed.
        seed: i32,
    },
    /// Push one coordinate of the cell's world position.
    WorldAxis(Axis),
    /// Push one if the cell's height is in a range, zero otherwise.
    YBand(YBandParams),
    /// Take the operation's values, the last on top, and push its result.
    Apply(ScalarOp<'g>),
    /// Push the cell's world position.
    Position,
    /// Displace the position on top by noise.
    Warp {
        /// How far and how fast.
        params: DomainWarpParams,
        /// The seeds of the two noises.
        seeds: (i32, i32),
    },
    /// Take the position on top and push cave noise there.
    Cave {
        /// Its seed.
        seed: i32,
    },
    /// Push the per-column noise of another graph at the cell's column.
    Column {
        /// The noise.
        params: NoiseParams,
        /// Its seed.
        seed: i32,
    },
}

/// The steps of an input pin after those before it.
pub open spec fn joined<'g>(
    before: Result<Seq<SampleStep<'g>>, EvalError>,
    next: Result<Seq<SampleStep<'g>>, EvalError>,
) -> Result<Seq<SampleStep<'g>>, EvalError> {
    match before {
        Err(e) => Err(e),
        Ok(a) => match next {
            Err(e) => Err(e),
            Ok(b) => Ok(a + b),
        },
    }
}

/// Steps with one more at the end.
pub open spec fn ended<'g>(
    before: Result<Seq<SampleStep<'g>>, EvalError>,
    step: SampleStep<'g>,
) -> Result<Seq<SampleStep<'g>>, EvalError> {
    match before {
        Err(e) => Err(e),
        Ok(a) => Ok(a.push(step)),
    }
}

/// How one column of another graph's named output is computed.
pub open spec fn upstream_plan(
    graphs: Map<u32, UpstreamView>,
    target: GraphRefTarget,
    name: Seq<char>,
    reference: NodeId,
) -> Result<ColumnPlanView, EvalError> {
    match upstream_node(graphs, target, name, reference) {
        Err(e) => Err(e),
        Ok(out) => {
            let up = graphs[target.rank()];
            must_be_surface(
                column_plan(
                    ColumnEnv {
                        nodes: up.nodes,
                        edges: up.edges,
                        world_seed: up.world_seed,
                        upstream: None,
                    },
                    out,
                    depth(up.nodes, up.edges, out),
                ),
                out,
            )
        },
    }
}

/// Whether a node's output is no scalar but a material, terrain or points.
pub open spec fn not_a_scalar(kind: NodeKind) -> bool {
    match kind {
        NodeKind::ConstantMaterial(_) => true,
        NodeKind::Layer(_) => true,
        NodeKind::Queue(_) => true,
        NodeKind::BuildTerrain(_) => true,
        NodeKind::TerrainOutput(_) => true,
        NodeKind::DensityOutput(_) => true,
        NodeKind::JitteredGrid(_) => true,
        NodeKind::PoissonDisk(_) => true,
        NodeKind::FindFlat(_) => true,
        NodeKind::PlaceTree(_) => true,
        NodeKind::PlaceBlueprint(_) => true,
        NodeKind::PlaceStructure(_) => true,
        _ => false,
    }
}

/// How a single value of a node is computed, at most `n` edges deep.
pub open spec fn sample_steps<'g>(env: EvalEnv, id: NodeId, n: nat) -> Result<
    Seq<SampleStep<'g>>,
    EvalError,
>
    decreases n, 2int, 0nat,
{
    if !env.nodes.contains_key(id) {
        Err(EvalError::MissingOutput(id))
    } else if operator(&env.nodes[id].kind) is Some {
        let op = operator(&env.nodes[id].kind)->0;
        ended(input_steps(env, id, op.arity(), n), SampleStep::Apply(op))
    } else if noise_source(env.nodes[id].kind) is Some {
        let source = noise_source(env.nodes[id].kind)->0;
        let seed = noise_seed_of(env.world_seed, source.params.seed);
        if indexed_source(env.edges, id, 0) is Some {
            ended(position_input_steps(env, id, n), SampleStep::NoiseAt { source, seed })
        } else {
            Ok(seq![SampleStep::Noise { source, seed }])
        }
    } else if foreign_domain(env.nodes[id].kind) {
        Err(EvalError::WrongGraphDomain { node: id })
    } else if not_a_scalar(env.nodes[id].kind) {
        Err(
            EvalError::WrongInputType {
                node: id,
                expected: "scalar",
                got: "material/terrain/positions",
            },
        )
    } else {
        match env.nodes[id].kind {
            NodeKind::Constant(p) => Ok(seq![SampleStep::Value(p.value)]),
            NodeKind::BiomeParam(p) => Ok(
                seq![SampleStep::Value(named_or(env.biome_params, p.name@, p.default))],
            ),
            NodeKind::WorldParam(p) => Ok(
                seq![SampleStep::Value(named_or(env.world_params, p.name@, p.default))],
            ),
            NodeKind::WorldAxis(p) => Ok(seq![SampleStep::WorldAxis(p.axis)]),
            NodeKind::YBand(p) => Ok(seq![SampleStep::YBand(p)]),
            NodeKind::SurfaceToDensity(_) => input_steps(env, id, 1, n),
            NodeKind::Output(_) => input_steps(env, id, 1, n),
            NodeKind::WorldPos(_) => Err(
                EvalError::WrongInputType { node: id, expected: "scalar", got: "vec3" },
            ),
            NodeKind::DomainWarp(_) => Err(
                EvalError::WrongInputType { node: id, expected: "scalar", got: "vec3" },
            ),
            NodeKind::LibraryRef(p) => match bound_kernel(env, id, p.library) {
                Err(e) => Err(e),
                Ok(LibraryKernel::StandardCaveNoise) => ended(
                    position_input_steps(env, id, n),
                    SampleStep::Cave { seed: noise_seed_of(env.world_seed, p.library.0) },
                ),
                Ok(_) => Err(EvalError::WrongGraphDomain { node: id }),
            },
            NodeKind::GraphRef(p) => match reference_name(env, id) {
                Err(e) => Err(e),
                Ok(name) => match upstream_plan(env.upstream->0, p.target, name, id) {
                    Err(e) => Err(e),
                    Ok(plan) => Ok(
                        seq![SampleStep::Column { params: plan.params, seed: plan.seed }],
                    ),
                },
            },
            _ => Err(EvalError::WrongGraphDomain { node: id }),
        }
    }
}

/// How single values of a node's first `k` inputs are computed, one after the
/// other.
pub open spec fn input_steps<'g>(env: EvalEnv, id: NodeId, k: nat, n: nat) -> Result<
    Seq<SampleStep<'g>>,
    EvalError,
>
    decreases n, 1int, k,
{
    if k == 0 {
        Ok(Seq::empty())
    } else {
        joined(
            input_steps(env, id, (k - 1) as nat, n),
            match indexed_source(env.edges, id, (k - 1) as u16) {
                None => Err(EvalError::MissingInput { node: id, pin: (k - 1) as u16 }),
                Some(from) => if !env.nodes.contains_key(from.node) {
                    Err(EvalError::MissingOutput(from.node))
                } else if n == 0 {
                    Err(EvalError::Cyclic)
                } else {
                    sample_steps(env, from.node, (n - 1) as nat)
                },
            },
        )
    }
}

/// How the position of a node's first input is computed.
pub open spec fn position_input_steps<'g>(env: EvalEnv, id: NodeId, n: nat) -> Result<
    Seq<SampleStep<'g>>,
    EvalError,
>
    decreases n, 1int, 0nat,
{
    match indexed_source(env.edges, id, 0) {
        None => Err(EvalError::MissingInput { node: id, pin: 0 }),
        Some(from) => if !env.nodes.contains_key(from.node) {
            Err(EvalError::MissingOutput(from.node))
        } else if n == 0 {
            Err(EvalError::Cyclic)
        } else {
            position_steps(env, from.node, (n - 1) as nat)
        },
    }
}

/// How a single position of a node is computed, at most `n` edges deep.
pub open spec fn position_steps<'g>(env: EvalEnv, id: NodeId, n: nat) -> Result<
    Seq<SampleStep<'g>>,
    EvalError,
>
    decreases n, 2int, 0nat,
{
    if !env.nodes.contains_key(id) {
        Err(EvalError::MissingOutput(id))
    } else {
        match env.nodes[id].kind {
            NodeKind::WorldPos(_) => Ok(seq![SampleStep::Position]),
            NodeKind::DomainWarp(p) => ended(
                position_input_steps(env, id, n),
                SampleStep::Warp { params: p, seeds: warp_seeds(env.world_seed, p) },
            ),
            _ => Err(
                EvalError::WrongInputType { node: id, expected: "vec3", got: "scalar" },
            ),
        }
    }
}

/// Whether single values can be computed: nothing is cyclic above the node, nor
/// in the graphs that references read.
pub open spec fn probeable(env: EvalEnv, id: NodeId) -> bool {
    &&& settles(env.nodes, env.edges, id)
    &&& env.upstream is Some ==> forall|k: u32, n: NodeId|
        #![trigger env.upstream->0[k].nodes.contains_key(n)]
        env.upstream->0.contains_key(k) && env.upstream->0[k].nodes.contains_key(n) ==> settles(
            env.upstream->0[k].nodes,
            env.upstream->0[k].edges,
            n,
        )
}

} // verus!
