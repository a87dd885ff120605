//! Generating chunks, borders, foliage and trees, with floating-point arithmetic.
//! The arithmetic is a copy of the application's, so these tests show what the library
//! hands out and takes in, not the application itself.
use fastnoise_lite::{FastNoiseLite, FractalType as LiteFractal, NoiseType};
use glam::{IVec3 as GIVec3, Quat, Vec3 as GVec3};
use nodegraph::border::{BorderScan, analyze_borders};
use nodegraph::boundary::{BoundaryPort, GraphBoundary};
use nodegraph::cache::CachedOutput;
use nodegraph::canopy::{
    LobeSize, count_tips, crown_goes_on, find_limbs, grow_crown, order_limbs, segments as paired,
    trim_lobes,
};
use nodegraph::chunk::{CHUNK_DIM, ChunkBuffer};
use nodegraph::column::{ColumnField, IdColumn};
use nodegraph::column_cache::ColumnCache;
use nodegraph::column_eval::{ColumnEvaluator, ColumnSample};
use nodegraph::compose::compose_terrain;
use nodegraph::composite::{
    BiomeMaterialRule, FluidLayer, TerrainLayer, composite_fluid, needed_biomes, present_biomes,
};
use nodegraph::context::{EvalContext, mix64};
use nodegraph::detail::DetailPoint;
use nodegraph::detail_eval::{DetailEvaluator, DetailStep};
use nodegraph::edge::PinRef;
use nodegraph::eval::{Evaluator, FillWork};
use nodegraph::eval_error::{EvalError, EvalResult};
use nodegraph::eval_model::SampleStep;
use nodegraph::feature::{
    ColumnProbe, Feature, FeaturePayload, FeatureSource, TreeSource, derive_features,
    feature_candidates, settle_features,
};
use nodegraph::feature_stamp::{canopy_instances, owns_cell, stamp_features};
use nodegraph::field::{ScalarField, Vec3, Vec3Field};
use nodegraph::foliage::ChunkFoliage;
use nodegraph::graph::Graph;
use nodegraph::ids::{GraphKind, GraphRefTarget, LibraryGraphId};
use nodegraph::index::EdgeIndex;
use nodegraph::inspect::{
    ColumnReport, FADE_RADIUS, choose_chunk, column_height, inspect_column, locate_column,
    probe_column,
};
use nodegraph::library::LibraryGraphRegistry;
use nodegraph::library_kernel::LibraryKernel;
use nodegraph::node::NodeKind;
use nodegraph::operation::{NoiseFamily, NoiseSource, ScalarOp};
use nodegraph::params::{
    AddParams, Axis, BiomeParamParams, ConstantMaterialParams, ConstantParams,
    DensityOutputParams, DomainWarpParams, FluidOutputParams, FractalType, GraphOutputParams,
    GraphRefParams, JitteredGridParams, LayerParams, LibraryRefParams, MaxParams, NoiseParams,
    PaintDensityParams, PlaceStructureParams, PoissonDiskParams, PoissonDistributionParams,
    RiverParams, ScatterPlaceParams, SpeciesPickerParams, SurfaceToDensityParams, TreeSpecies,
    WorldOutputParams, WorldPosParams, YBandParams, ZoneOutputParams,
};
use nodegraph::pin::PinType;
use nodegraph::river::river_links;
use nodegraph::scalar::Single;
use nodegraph::scalar_params::BiomeParams;
use nodegraph::scatter::{ScatterPoint, SplitMix64, draw_in_cell, seed_points};
use nodegraph::skeleton::{Habit, LimbNode, MAX_NODES, NO_PARENT, divide_limbs, node_budget, sprout};
use nodegraph::slots::NodeId;
use nodegraph::upstream::UpstreamGraphs;
use nodegraph::voxel::{
    BlueprintCell, DestructionPolicy, IVec3, MaterialId, ResolvedBlueprint, Voxel,
};
use nodegraph::world::{BiomeGraph, WorldEvaluator, input_source};
use nodegraph::world_chunk::unite_foliage;
use nodegraph::world_ids::ResolvedColumns;
use std::collections::{HashMap, HashSet};
use std::sync::Arc;

/// A number of the library, as a floating-point number.
pub fn float(s: Single) -> f32 {
    f32::from_bits(s.to_bits())
}

/// A floating-point number, as the library holds it.
pub fn single(v: f32) -> Single {
    Single::from_bits(v.to_bits())
}

/// The generator of some parameters.
pub fn configured_noise(seed: i32, p: &NoiseParams, family: NoiseFamily) -> FastNoiseLite {
    let mut n = FastNoiseLite::with_seed(seed);
    n.set_noise_type(Some(match family {
        NoiseFamily::Perlin => NoiseType::Perlin,
        NoiseFamily::Simplex => NoiseType::OpenSimplex2,
    }));
    n.set_frequency(Some(float(p.frequency)));
    n.set_fractal_type(Some(match p.fractal_type {
        FractalType::FBm => LiteFractal::FBm,
        FractalType::Ridged => LiteFractal::Ridged,
        FractalType::PingPong => LiteFractal::PingPong,
    }));
    n.set_fractal_octaves(Some(p.octaves as i32));
    n.set_fractal_lacunarity(Some(float(p.lacunarity)));
    n.set_fractal_gain(Some(float(p.gain)));
    n
}

/// Per-column noise at a world column. Floating point, so it stands outside the
/// verified library.
pub fn column_noise(p: NoiseParams, seed: i32, wx: i32, wz: i32) -> Single {
    let n = configured_noise(seed, &p, NoiseFamily::Simplex);
    single(n.get_noise_2d(wx as f32, wz as f32))
}

/// The two generators a warp displaces by.
pub fn warp_noises(p: &DomainWarpParams, seeds: (i32, i32)) -> (FastNoiseLite, FastNoiseLite) {
    let params = NoiseParams {
        seed: p.seed,
        frequency: p.frequency,
        octaves: 3,
        lacunarity: single(2.0),
        gain: single(0.5),
        fractal_type: FractalType::FBm,
    };
    (
        configured_noise(seeds.0, &params, NoiseFamily::Simplex),
        configured_noise(seeds.1, &params, NoiseFamily::Simplex),
    )
}

/// Cave density at a position: rooms joined with tunnels. Floating point, so it
/// stands outside the verified library.
pub fn standard_cave_noise(pos: (f32, f32, f32), seed: i32) -> f32 {
    let mut cells = FastNoiseLite::with_seed(seed);
    cells.set_noise_type(Some(NoiseType::Cellular));
    cells.set_frequency(Some(0.03));
    let mut tunnels = FastNoiseLite::with_seed(seed ^ 0x5CA1_E5CA);
    tunnels.set_noise_type(Some(NoiseType::Perlin));
    tunnels.set_fractal_type(Some(LiteFractal::Ridged));
    tunnels.set_frequency(Some(0.02));
    tunnels.set_fractal_octaves(Some(3));
    cells.get_noise_3d(pos.0, pos.1, pos.2).max(tunnels.get_noise_3d(pos.0, pos.1, pos.2))
}

/// One link from a node to the node it drains into.
#[derive(Clone, Copy, Debug, PartialEq)]
struct Channel {
    a: (f32, f32),
    b: (f32, f32),
    a_elev: f32,
    b_elev: f32,
    a_width: f32,
    b_width: f32,
}

/// What a river does to one column.
#[derive(Copy, Clone, Debug, PartialEq)]
pub struct RiverColumn {
    /// World height below which the channel does not cut.
    pub floor_y: f32,
    /// World height of the water surface.
    pub water_y: f32,
}

/// The channels that reach one chunk.
pub struct RiverNetwork {
    channels: Vec<Channel>,
}

fn elevation(p: &RiverParams, potential: f32) -> f32 {
    let t = (potential * 0.5 + 0.5).clamp(0.0, 1.0);
    float(p.bed_low) + (float(p.bed_high) - float(p.bed_low)) * t
}

fn half_width(p: &RiverParams, potential: f32) -> f32 {
    let t = (potential * 0.5 + 0.5).clamp(0.0, 1.0);
    float(p.max_width) + (float(p.min_width) - float(p.max_width)) * t
}

impl RiverNetwork {
    /// Resolve every channel that can reach a chunk.
    pub fn resolve(ctx: EvalContext, p: &RiverParams) -> Self {
        let noise = configured_noise(
            ctx.noise_seed(p.seed),
            &NoiseParams { frequency: p.potential_frequency, ..NoiseParams::default() },
            NoiseFamily::Simplex,
        );
        let cell = float(p.cell_size);
        let side = CHUNK_DIM as f32;
        let margin = float(p.max_width) + cell;
        let base_x = ctx.chunk.x as f32 * side;
        let base_z = ctx.chunk.z as f32 * side;
        let cx_lo = ((base_x - margin) / cell).floor() as i64;
        let cx_hi = ((base_x + side + margin) / cell).floor() as i64;
        let cz_lo = ((base_z - margin) / cell).floor() as i64;
        let cz_hi = ((base_z + side + margin) / cell).floor() as i64;

        // One ring of nodes beyond the band, so that every node of the band sees
        // all its neighbors.
        let width = (cx_hi - cx_lo + 3) as usize;
        let height = (cz_hi - cz_lo + 3) as usize;
        let mut places = Vec::with_capacity(width * height);
        let mut potentials: Vec<Single> = Vec::with_capacity(width * height);
        for gz in 0..height {
            for gx in 0..width {
                let (cx, cz) = (cx_lo - 1 + gx as i64, cz_lo - 1 + gz as i64);
                let mut rng = SplitMix64::new(ctx.world_cell_seed(p.seed, cx, cz));
                let jx = rng.next_fraction() as f32 / (1u32 << 24) as f32;
                let jz = rng.next_fraction() as f32 / (1u32 << 24) as f32;
                let at = ((cx as f32 + jx) * cell, (cz as f32 + jz) * cell);
                places.push(at);
                potentials.push(single(noise.get_noise_2d(at.0, at.1)));
            }
        }
        let channels = river_links(&potentials, width, height)
            .into_iter()
            .map(|(from, to)| {
                let (a, b) = (float(potentials[from]), float(potentials[to]));
                Channel {
                    a: places[from],
                    b: places[to],
                    a_elev: elevation(p, a),
                    b_elev: elevation(p, b),
                    a_width: half_width(p, a),
                    b_width: half_width(p, b),
                }
            })
            .collect();
        RiverNetwork { channels }
    }

    /// The river's effect on one world column, or `None` outside every channel.
    pub fn sample(&self, p: &RiverParams, wx: f32, wz: f32) -> Option<RiverColumn> {
        let mut best: Option<(f32, f32, f32)> = None;
        for s in &self.channels {
            let ab = (s.b.0 - s.a.0, s.b.1 - s.a.1);
            let len2 = (ab.0 * ab.0 + ab.1 * ab.1).max(1e-6);
            let t = (((wx - s.a.0) * ab.0 + (wz - s.a.1) * ab.1) / len2).clamp(0.0, 1.0);
            let closest = (s.a.0 + ab.0 * t, s.a.1 + ab.1 * t);
            let (dx, dz) = (wx - closest.0, wz - closest.1);
            let dist = (dx * dx + dz * dz).sqrt();
            let width = s.a_width + (s.b_width - s.a_width) * t;
            if dist > width {
                continue;
            }
            let elev = s.a_elev + (s.b_elev - s.a_elev) * t;
            if best.map_or(true, |(d, _, _)| dist < d) {
                best = Some((dist, elev, width));
            }
        }
        let (dist, bank, width) = best?;
        let across = (dist / width.max(1e-6)).clamp(0.0, 1.0);
        let depth = float(p.depth);
        Some(RiverColumn {
            floor_y: bank - depth * (1.0 - across * across),
            water_y: bank - depth * 0.25,
        })
    }

    /// Density after the river cuts: above the channel floor the column is air.
    pub fn carve(&self, p: &RiverParams, at: (f32, f32, f32), density: f32) -> f32 {
        match self.sample(p, at.0, at.2) {
            Some(col) if at.1 > col.floor_y => density.min(-1.0),
            _ => density,
        }
    }

    /// How many channels reach the chunk.
    pub fn len(&self) -> usize {
        self.channels.len()
    }

    /// Whether no channel reaches the chunk.
    pub fn is_empty(&self) -> bool {
        self.channels.is_empty()
    }
}

/// How far beyond a chunk points are scattered, so that what straddles a border is
/// still placed.
pub const PROP_MARGIN: f32 = 12.0;

fn fraction(rng: &mut SplitMix64) -> f32 {
    rng.next_fraction() as f32 / (1u32 << 24) as f32
}

/// Points on a jittered grid of world cells, around one chunk.
pub fn jittered_grid(ctx: &EvalContext, p: &JitteredGridParams) -> Vec<ScatterPoint> {
    let side = CHUNK_DIM as f32;
    let cell = float(p.cell_size).max(0.5);
    let jitter = float(p.jitter).clamp(0.0, 1.0);
    let base_x = ctx.chunk.x as f32 * side;
    let base_z = ctx.chunk.z as f32 * side;
    let low = |base: f32| ((base - PROP_MARGIN) / cell).floor() as i64;
    let high = |base: f32| ((base + side + PROP_MARGIN) / cell).floor() as i64;
    let inside = |v: f32| v >= -PROP_MARGIN && v < side + PROP_MARGIN;
    let mut out = Vec::new();
    for cz in low(base_z)..=high(base_z) {
        for cx in low(base_x)..=high(base_x) {
            let Some(draw) = draw_in_cell(ctx, p.seed, p.density, cx, cz) else { continue };
            let part = |k: u32| k as f32 / (1u32 << 24) as f32;
            let jx = (part(draw.along) - 0.5) * jitter + 0.5;
            let jz = (part(draw.across) - 0.5) * jitter + 0.5;
            let lx = (cx as f32 + jx) * cell - base_x;
            let lz = (cz as f32 + jz) * cell - base_z;
            if inside(lx) && inside(lz) {
                out.push(ScatterPoint {
                    lx: single(lx),
                    lz: single(lz),
                    surface_y: None,
                    seed: draw.seed,
                });
            }
        }
    }
    out
}

/// Poisson-disk samples around one chunk, from a seed.
pub fn poisson_placement(base: u64, radius: f32, k: u32) -> Vec<(f32, f32)> {
    let radius = radius.max(0.5);
    let k = k.max(1);
    let lo = -PROP_MARGIN;
    let span = CHUNK_DIM as f32 + 2.0 * PROP_MARGIN;
    let cell = radius / std::f32::consts::SQRT_2;
    let grid_dim = (span / cell).ceil() as usize + 1;
    let mut grid = vec![usize::MAX; grid_dim * grid_dim];
    let mut samples: Vec<(f32, f32)> = Vec::new();
    let mut active: Vec<usize> = Vec::new();
    let mut rng = SplitMix64::new(base);
    let grid_idx = |x: f32, z: f32| -> usize {
        let gx = (((x - lo) / cell) as usize).min(grid_dim - 1);
        let gz = (((z - lo) / cell) as usize).min(grid_dim - 1);
        gz * grid_dim + gx
    };
    let x0 = lo + fraction(&mut rng) * span;
    let z0 = lo + fraction(&mut rng) * span;
    samples.push((x0, z0));
    grid[grid_idx(x0, z0)] = 0;
    active.push(0);
    while !active.is_empty() {
        let ai = ((fraction(&mut rng) * active.len() as f32) as usize).min(active.len() - 1);
        let (px, pz) = samples[active[ai]];
        let mut found = false;
        for _ in 0..k {
            let ang = fraction(&mut rng) * std::f32::consts::TAU;
            let dist = radius * (1.0 + fraction(&mut rng));
            let nx = px + ang.cos() * dist;
            let nz = pz + ang.sin() * dist;
            if nx < lo || nx >= lo + span || nz < lo || nz >= lo + span {
                continue;
            }
            let gx = ((nx - lo) / cell) as isize;
            let gz = ((nz - lo) / cell) as isize;
            let clear = (-2..=2).all(|dz: isize| {
                (-2..=2).all(|dx: isize| {
                    let (cxi, czi) = (gx + dx, gz + dz);
                    if cxi < 0
                        || czi < 0
                        || cxi as usize >= grid_dim
                        || czi as usize >= grid_dim
                    {
                        return true;
                    }
                    let s = grid[czi as usize * grid_dim + cxi as usize];
                    if s == usize::MAX {
                        return true;
                    }
                    let (sx, sz) = samples[s];
                    (sx - nx) * (sx - nx) + (sz - nz) * (sz - nz) >= radius * radius
                })
            });
            if clear {
                let idx = samples.len();
                samples.push((nx, nz));
                grid[grid_idx(nx, nz)] = idx;
                active.push(idx);
                found = true;
                break;
            }
        }
        if !found {
            active.swap_remove(ai);
        }
    }
    samples
}

/// Poisson-disk points around one chunk, each with its own seed.
pub fn poisson_disk(ctx: &EvalContext, p: &PoissonDiskParams) -> Vec<ScatterPoint> {
    let base = ctx.chunk_world_seed(p.seed);
    let positions = poisson_placement(base, float(p.radius), p.k)
        .into_iter()
        .map(|(x, z)| (single(x), single(z)))
        .collect();
    seed_points(base, &positions)
}

/// Whether a cell has a world coordinate along one axis.
fn fits(chunk: i32, at: usize) -> bool {
    (-0x400_0000..0x400_0000).contains(&chunk)
        && at < 0x4000_0000
        && 32 * chunk as i64 + at as i64 <= i32::MAX as i64
}

/// The world position of a cell of a chunk; `y` may lie beyond the chunk.
pub fn world_pos(ctx: &EvalContext, x: usize, y: usize, z: usize) -> (f32, f32, f32) {
    let c = ctx.chunk;
    assert!(fits(c.x, x) && fits(c.y, y) && fits(c.z, z), "the cell lies outside the world");
    let p = ctx.world_pos(x, y, z);
    (p.x as f32, p.y as f32, p.z as f32)
}

fn plain(v: Vec3) -> (f32, f32, f32) {
    (float(v.x), float(v.y), float(v.z))
}

fn held_vec(v: (f32, f32, f32)) -> Vec3 {
    Vec3 { x: single(v.0), y: single(v.1), z: single(v.2) }
}

/// The cell at a position of a flat field.
fn cell_of(i: usize) -> (usize, usize, usize) {
    (i % CHUNK_DIM, (i / CHUNK_DIM) % CHUNK_DIM, i / (CHUNK_DIM * CHUNK_DIM))
}

fn each_cell(f: impl Fn(usize, usize, usize) -> f32) -> ScalarField {
    let volume = CHUNK_DIM * CHUNK_DIM * CHUNK_DIM;
    ScalarField::from_data(
        (0..volume)
            .map(|i| {
                let (x, y, z) = cell_of(i);
                single(f(x, y, z))
            })
            .collect(),
    )
}

fn sample_curve(stops: &[(f32, f32)], v: f32) -> f32 {
    if stops.is_empty() {
        return v;
    }
    if v <= stops[0].0 {
        return stops[0].1;
    }
    for w in stops.windows(2) {
        let (x0, y0) = w[0];
        let (x1, y1) = w[1];
        if v <= x1 {
            let span = (x1 - x0).abs().max(1e-9);
            let t = ((v - x0) / span).clamp(0.0, 1.0);
            return y0 + (y1 - y0) * t;
        }
    }
    stops[stops.len() - 1].1
}

/// One value of an operation, from its input values.
fn apply(op: &ScalarOp<'_>, v: &[f32], river: Option<(&RiverNetwork, (f32, f32, f32))>) -> f32 {
    match op {
        ScalarOp::Add => v[0] + v[1],
        ScalarOp::Multiply => v[0] * v[1],
        ScalarOp::Subtract => v[0] - v[1],
        ScalarOp::Min => v[0].min(v[1]),
        ScalarOp::Max => v[0].max(v[1]),
        ScalarOp::Carve => v[0].max(-v[1]),
        ScalarOp::Gate => v[0] * v[1].clamp(0.0, 1.0),
        ScalarOp::Lerp => v[0] + (v[1] - v[0]) * v[2],
        ScalarOp::Mix => v[0] + (v[1] - v[0]) * v[2].clamp(0.0, 1.0),
        ScalarOp::Abs => v[0].abs(),
        ScalarOp::Clamp(p) => v[0].clamp(float(p.min), float(p.max)),
        ScalarOp::Remap(p) => {
            // A descending source range stays descending; an empty one is not divided by.
            let run = float(p.src_hi) - float(p.src_lo);
            let span = if run.abs() >= 1e-9 { run } else { 1e-9 };
            let scale = (float(p.dst_hi) - float(p.dst_lo)) / span;
            float(p.dst_lo) + (v[0] - float(p.src_lo)) * scale
        }
        ScalarOp::Threshold(p) => {
            if v[0] >= float(p.threshold) {
                1.0
            } else {
                0.0
            }
        }
        ScalarOp::Curve(p) => {
            let stops: Vec<(f32, f32)> =
                p.stops.iter().map(|s| (float(s.0), float(s.1))).collect();
            sample_curve(&stops, v[0])
        }
        ScalarOp::River(p) => match river {
            Some((net, at)) => net.carve(p, at, v[0]),
            None => v[0],
        },
    }
}

fn axis_of(at: (f32, f32, f32), axis: Axis) -> f32 {
    match axis {
        Axis::X => at.0,
        Axis::Y => at.1,
        Axis::Z => at.2,
    }
}

fn in_band(y: f32, p: &YBandParams) -> f32 {
    if y >= float(p.min) && y < float(p.max) {
        1.0
    } else {
        0.0
    }
}

fn noise_at(source: &NoiseSource, seed: i32, p: (f32, f32, f32)) -> f32 {
    let n = configured_noise(seed, &source.params, source.family);
    if source.flat {
        n.get_noise_2d(p.0, p.2)
    } else {
        n.get_noise_3d(p.0, p.1, p.2)
    }
}

fn fill_noise(
    ctx: &EvalContext,
    source: &NoiseSource,
    seed: i32,
    positions: Option<&Vec3Field>,
) -> ScalarField {
    let n = configured_noise(seed, &source.params, source.family);
    let at = |x: usize, y: usize, z: usize| match positions {
        Some(f) => plain(f.get(x, y, z)),
        None => world_pos(ctx, x, y, z),
    };
    // The positions of a column share x and z, so a flat noise has one value there.
    if source.flat {
        let columns: Vec<f32> = (0..CHUNK_DIM * CHUNK_DIM)
            .map(|i| {
                let p = at(i % CHUNK_DIM, 0, i / CHUNK_DIM);
                n.get_noise_2d(p.0, p.2)
            })
            .collect();
        each_cell(|x, _, z| columns[x + z * CHUNK_DIM])
    } else {
        each_cell(|x, y, z| {
            let p = at(x, y, z);
            n.get_noise_3d(p.0, p.1, p.2)
        })
    }
}

fn scalar(field: ScalarField) -> CachedOutput {
    CachedOutput::Scalar(Arc::new(field))
}

/// Carry out the work a fill waits for.
pub fn fill(ctx: &EvalContext, work: &FillWork<'_>) -> CachedOutput {
    match work {
        FillWork::Apply { op, inputs } => {
            let net = match op {
                ScalarOp::River(p) => Some(RiverNetwork::resolve(*ctx, p)),
                _ => None,
            };
            scalar(each_cell(|x, y, z| {
                let v: Vec<f32> = inputs.iter().map(|f| float(f.get(x, y, z))).collect();
                apply(op, &v, net.as_ref().map(|n| (n, world_pos(ctx, x, y, z))))
            }))
        }
        FillWork::Noise { source, seed, positions } => {
            scalar(fill_noise(ctx, source, *seed, positions.as_deref()))
        }
        FillWork::WorldPos => CachedOutput::Vec3(Arc::new(Vec3Field::from_fn(|x, y, z| {
            held_vec(world_pos(ctx, x, y, z))
        }))),
        FillWork::WorldAxis(axis) => {
            scalar(each_cell(|x, y, z| axis_of(world_pos(ctx, x, y, z), *axis)))
        }
        FillWork::YBand(p) => scalar(each_cell(|x, y, z| in_band(world_pos(ctx, x, y, z).1, p))),
        FillWork::Warp { params, seeds, positions } => {
            let (nx, nz) = warp_noises(params, *seeds);
            let amp = float(params.amplitude);
            CachedOutput::Vec3(Arc::new(Vec3Field::from_fn(|x, y, z| {
                let p = plain(positions.get(x, y, z));
                let dx = nx.get_noise_2d(p.0, p.2) * amp;
                let dz = nz.get_noise_2d(p.0, p.2) * amp;
                held_vec((p.0 + dx, p.1, p.2 + dz))
            })))
        }
        FillWork::Cave { seed, positions } => scalar(each_cell(|x, y, z| {
            standard_cave_noise(plain(positions.get(x, y, z)), *seed)
        })),
        FillWork::JitteredGrid(p) => CachedOutput::Positions(Arc::new(jittered_grid(ctx, p))),
        FillWork::PoissonDisk(p) => CachedOutput::Positions(Arc::new(poisson_disk(ctx, p))),
    }
}

/// Run an evaluator to its end, carrying out what it waits for.
pub fn evaluate(ev: &mut Evaluator<'_>, ctx: &EvalContext) -> EvalResult<()> {
    while let Some(pending) = ev.evaluate()? {
        let out = fill(ctx, &pending.work);
        ev.supply(pending.node, out);
    }
    Ok(())
}

/// Run a per-column evaluator to its end, carrying out what it waits for.
pub fn evaluate_columns(ev: &mut ColumnEvaluator<'_>, ctx: &EvalContext) -> EvalResult<()> {
    let dim = CHUNK_DIM as i32;
    while let Some(work) = ev.evaluate()? {
        let data = (0..CHUNK_DIM * CHUNK_DIM)
            .map(|i| {
                let wx = ctx.chunk.x * dim + (i % CHUNK_DIM) as i32;
                let wz = ctx.chunk.z * dim + (i / CHUNK_DIM) as i32;
                column_noise(work.params, work.seed, wx, wz)
            })
            .collect();
        ev.supply(work.node, ColumnField::from_data(data));
    }
    Ok(())
}

enum Slot {
    Number(f32),
    Place((f32, f32, f32)),
}

/// Carry out the steps of one value.
pub fn run_steps(
    ctx: &EvalContext,
    steps: &[SampleStep<'_>],
    x: usize,
    y: usize,
    z: usize,
) -> f32 {
    let at = world_pos(ctx, x, y, z);
    let mut stack: Vec<Slot> = Vec::new();
    let number = |stack: &mut Vec<Slot>| match stack.pop() {
        Some(Slot::Number(v)) => v,
        _ => panic!("a number was expected on the stack"),
    };
    let place = |stack: &mut Vec<Slot>| match stack.pop() {
        Some(Slot::Place(p)) => p,
        _ => panic!("a position was expected on the stack"),
    };
    for step in steps {
        let next = match step {
            SampleStep::Value(v) => Slot::Number(float(*v)),
            SampleStep::Noise { source, seed } => {
                Slot::Number(noise_at(source, *seed, at))
            }
            SampleStep::NoiseAt { source, seed } => {
                let p = place(&mut stack);
                Slot::Number(noise_at(source, *seed, p))
            }
            SampleStep::WorldAxis(axis) => Slot::Number(axis_of(at, *axis)),
            SampleStep::YBand(p) => Slot::Number(in_band(at.1, p)),
            SampleStep::Apply(op) => {
                let mut v: Vec<f32> = (0..op.inputs()).map(|_| number(&mut stack)).collect();
                v.reverse();
                let net = match op {
                    ScalarOp::River(p) => Some(RiverNetwork::resolve(*ctx, p)),
                    _ => None,
                };
                Slot::Number(apply(op, &v, net.as_ref().map(|n| (n, at))))
            }
            SampleStep::Position => Slot::Place(at),
            SampleStep::Warp { params, seeds } => {
                let p = place(&mut stack);
                let (nx, nz) = warp_noises(params, *seeds);
                let amp = float(params.amplitude);
                Slot::Place((
                    p.0 + nx.get_noise_2d(p.0, p.2) * amp,
                    p.1,
                    p.2 + nz.get_noise_2d(p.0, p.2) * amp,
                ))
            }
            SampleStep::Cave { seed } => {
                let p = place(&mut stack);
                Slot::Number(standard_cave_noise(p, *seed))
            }
            SampleStep::Column { params, seed } => {
                let dim = CHUNK_DIM as i32;
                let wx = ctx.chunk.x * dim + x as i32;
                let wz = ctx.chunk.z * dim + z as i32;
                Slot::Number(float(column_noise(*params, *seed, wx, wz)))
            }
        };
        stack.push(next);
    }
    number(&mut stack)
}

/// The weight of a column's own biome at a distance from its border: half at the
/// border, all of it from the radius on. No radius, no fading.
pub fn biome_border_fade(distance: f32, radius: f32) -> f32 {
    if radius <= 0.0 {
        return 1.0;
    }
    (0.5 + 0.5 * (distance / radius)).clamp(0.5, 1.0)
}

/// A density blended toward a neighbor's.
pub fn blend_density(own: f32, neighbor: f32, weight: f32) -> f32 {
    let w = weight.clamp(0.0, 1.0);
    own * w + neighbor * (1.0 - w)
}

fn hash01(seed: u64) -> f32 {
    ((seed >> 40) as u32 & 0x00FF_FFFF) as f32 / 16_777_216.0
}

fn sub_voxel(frac: f32) -> i8 {
    ((frac * 256.0) - 128.0).clamp(-128.0, 127.0) as i8
}

fn candidates(ctx: &EvalContext, p: &PoissonDistributionParams) -> Vec<DetailPoint> {
    let cell = float(p.radius).max(0.5);
    let jitter = float(p.jitter);
    let dim = CHUNK_DIM as f32;
    let base_x = (ctx.chunk.x * CHUNK_DIM as i32) as f32;
    let base_z = (ctx.chunk.z * CHUNK_DIM as i32) as f32;
    let low = |base: f32| (base / cell).floor() as i64 - 1;
    let high = |base: f32| ((base + dim) / cell).ceil() as i64 + 1;
    let mut out = Vec::new();
    for cz in low(base_z)..high(base_z) {
        for cx in low(base_x)..high(base_x) {
            let seed = ctx.world_cell_seed(p.seed, cx, cz);
            let jx = (hash01(seed) - 0.5) * 2.0 * jitter;
            let jz = (hash01(seed ^ 0x9E37_79B9) - 0.5) * 2.0 * jitter;
            let lx = (cx as f32 + 0.5 + jx) * cell - base_x;
            let lz = (cz as f32 + 0.5 + jz) * cell - base_z;
            if lx >= 0.0 && lx < dim && lz >= 0.0 && lz < dim {
                let (x, z) = (lx as u8, lz as u8);
                out.push(DetailPoint {
                    x,
                    z,
                    offset_x: sub_voxel(lx - x as f32),
                    offset_z: sub_voxel(lz - z as f32),
                    surface_y: None,
                });
            }
        }
    }
    out
}

fn pick(draw: u32, weights: &[f32]) -> u8 {
    let total = weights.iter().copied().sum::<f32>().max(1e-6);
    let mut r = draw as f32 / 16_777_216.0 * total;
    for (i, &w) in weights.iter().enumerate() {
        if r < w {
            return i as u8;
        }
        r -= w;
    }
    0
}

/// Evaluate a detail graph over the terrain of a chunk.
pub fn evaluate_detail(
    graph: &Graph,
    ctx: EvalContext,
    terrain: &ChunkBuffer<Voxel>,
    biomes: Option<&IdColumn>,
    target: u16,
) -> EvalResult<ChunkFoliage> {
    let held = |v: i32| (-0x400_0000..0x400_0000).contains(&v);
    assert!(
        held(ctx.chunk.x) && held(ctx.chunk.y) && held(ctx.chunk.z),
        "the chunk lies outside the world"
    );
    let mut ev = DetailEvaluator::new(graph, ctx, terrain, biomes, target);
    loop {
        match ev.evaluate()? {
            DetailStep::Done(foliage) => return Ok(foliage),
            DetailStep::Points { node, params } => ev.supply_points(node, candidates(&ctx, &params)),
            DetailStep::Species { node, draws } => {
                let weights: Vec<f32> = match graph.nodes.get(node).map(|n| &n.kind) {
                    Some(NodeKind::SpeciesPicker(p)) => {
                        p.weights.iter().map(|w| float(*w)).collect()
                    }
                    _ => Vec::new(),
                };
                let picks = draws.iter().map(|d| pick(*d, &weights)).collect();
                assert!(ev.supply_species(node, &picks), "one species per candidate");
            }
        }
    }
}

const PIPE_EXP: f32 = 2.3;
const GOLDEN_ANGLE: f32 = 2.399_963_2;

/// One node: a point on a branch centerline.
#[derive(Clone, Copy, Debug, PartialEq)]
pub struct TreeNode {
    /// Position relative to the anchor.
    pub pos: GVec3,
    /// Parent, or `NO_PARENT` for the root.
    pub parent: u32,
    /// Centerline radius.
    pub radius: f32,
    /// Its limb, its place on it, and how many nodes it carries.
    pub limb: LimbNode,
}

/// One capsule of the centerline.
#[derive(Clone, Copy, Debug, PartialEq)]
pub struct Segment {
    /// Parent end.
    pub a: GVec3,
    /// Child end.
    pub b: GVec3,
    /// Radius at the parent end.
    pub ra: f32,
    /// Radius at the child end.
    pub rb: f32,
    /// Limb of the child.
    pub chain: u32,
}

/// One lobe of the canopy.
#[derive(Clone, Copy, Debug, PartialEq)]
pub struct Lobe {
    /// Center relative to the anchor.
    pub center: GVec3,
    /// Mean radius.
    pub radius: f32,
    /// Per-axis multipliers.
    pub aniso: GVec3,
    /// The limb end it hangs from.
    pub anchor_node: u32,
}

impl Lobe {
    /// Ellipsoid radii.
    pub fn radii(&self) -> GVec3 {
        self.aniso * self.radius
    }
}

/// A branch the renderer draws, in world coordinates.
#[derive(Clone, Copy, Debug, PartialEq)]
pub struct BranchSegment {
    /// Thick end.
    pub a: GVec3,
    /// Thin end.
    pub b: GVec3,
    /// Radius at the thick end.
    pub ra: f32,
    /// Radius at the thin end.
    pub rb: f32,
}

/// A derived tree.
#[derive(Clone, Debug, PartialEq)]
pub struct Skeleton {
    /// Nodes in the order grown.
    pub nodes: Vec<TreeNode>,
    /// How many limbs.
    pub chains: u32,
    /// Radius of the tips.
    pub tip_radius: f32,
    /// The exponent that makes both authored radii hold.
    pub pipe_exp: f32,
    /// The canopy.
    pub lobes: Vec<Lobe>,
    /// Greatest horizontal distance from the anchor.
    pub reach: f32,
    /// Greatest height above the anchor.
    pub height: f32,
}

fn spread(rng: &mut SplitMix64) -> f32 {
    (fraction(rng) - 0.5) * 2.0
}

fn bend(frame: Quat, gravitropism: f32, wobble: f32, rng: &mut SplitMix64) -> Quat {
    let mut out = frame;
    let g = gravitropism.clamp(-1.0, 1.0);
    if g != 0.0 {
        let fwd = (out * GVec3::Y).normalize_or_zero();
        let target = if g >= 0.0 { GVec3::Y } else { GVec3::NEG_Y };
        if fwd != GVec3::ZERO && fwd.dot(target) > -0.999 {
            out = Quat::IDENTITY.slerp(Quat::from_rotation_arc(fwd, target), g.abs()) * out;
        }
    }
    if wobble > 0.0 {
        let a = spread(rng) * wobble;
        let b = spread(rng) * wobble;
        out *= Quat::from_rotation_x(a) * Quat::from_rotation_z(b);
    }
    out.normalize()
}

/// Positions and parents of the branching that the library lays out.
fn grow(seed: u64, sp: &TreeSpecies, budget: usize) -> (Vec<GVec3>, Vec<u32>) {
    let habit =
        Habit { axis_steps: sp.axis_steps, max_order: sp.max_order, laterals: sp.laterals };
    let mut tree_rng = SplitMix64::new(mix64(seed ^ 0x5EED_0F17_A11E_5EED));
    let root_yaw = fraction(&mut tree_rng) * std::f32::consts::TAU;
    let turn = fraction(&mut tree_rng) * std::f32::consts::TAU;
    let v = float(sp.variance).max(0.0);
    let length_scale = 1.0 + spread(&mut tree_rng) * v;
    let angle_scale = 1.0 + spread(&mut tree_rng) * v;

    let mut places = vec![GVec3::ZERO];
    let mut frames = vec![Quat::from_rotation_y(root_yaw)];
    let mut lengths = vec![float(sp.internode) * length_scale];
    let mut steps = vec![0u8];
    let mut parents = vec![NO_PARENT];
    for (index, shoot) in sprout(habit, budget).iter().enumerate().skip(1) {
        let p = shoot.parent as usize;
        let (start, length) = match shoot.lateral {
            Some(k) => {
                let azimuth = turn
                    + GOLDEN_ANGLE * (steps[p] as f32 * sp.laterals as f32 + k as f32);
                (
                    frames[p]
                        * Quat::from_rotation_y(azimuth)
                        * Quat::from_rotation_x(float(sp.branch_angle) * angle_scale),
                    lengths[p] * float(sp.child_scale),
                )
            }
            None if p == 0 => (frames[0], lengths[0]),
            None => (frames[p], lengths[p] * float(sp.taper)),
        };
        let mut rng = SplitMix64::new(mix64(
            seed ^ (index as u64).wrapping_mul(0x9E37_79B9_7F4A_7C15),
        ));
        let frame = bend(start, float(sp.gravitropism), float(sp.wobble), &mut rng);
        places.push(places[p] + frame * (GVec3::Y * length));
        frames.push(frame);
        lengths.push(length);
        steps.push(shoot.step);
        parents.push(shoot.parent);
    }
    (places, parents)
}

fn crown_attractors(seed: u64, sp: &TreeSpecies, height: f32) -> Vec<GVec3> {
    let want = sp.crown_attractors as usize;
    let mut rng = SplitMix64::new(mix64(seed ^ 0xA771_AC70_1205_EED5));
    let center = GVec3::new(0.0, height * float(sp.crown_center), 0.0);
    let radii = GVec3::new(float(sp.crown_radius), float(sp.crown_height), float(sp.crown_radius));
    let mut out = Vec::with_capacity(want);
    let mut tries = 0usize;
    while out.len() < want && tries < want * 8 + 64 {
        tries += 1;
        let p = GVec3::new(spread(&mut rng), spread(&mut rng), spread(&mut rng));
        if p.length_squared() <= 1.0 {
            out.push(center + p * radii);
        }
    }
    out
}

fn colonize(
    places: &mut Vec<GVec3>,
    parents: &mut Vec<u32>,
    seed: u64,
    sp: &TreeSpecies,
    budget: usize,
) {
    if sp.crown_attractors == 0 || places.len() >= budget {
        return;
    }
    let height = places.iter().fold(0.0f32, |h, p| h.max(p.y));
    let mut attractors = crown_attractors(seed, sp, height);
    let kill2 = float(sp.kill_radius) * float(sp.kill_radius);
    let influence2 = float(sp.influence) * float(sp.influence);
    attractors.retain(|a| places.iter().all(|p| p.distance_squared(*a) > kill2));
    let mut round = 0;
    while crown_goes_on(round, places.len(), budget, attractors.len()) {
        round += 1;
        let mut pull = vec![GVec3::ZERO; places.len()];
        for a in &attractors {
            let mut best = usize::MAX;
            let mut best_d2 = influence2;
            for (i, p) in places.iter().enumerate() {
                let d2 = p.distance_squared(*a);
                if d2 < best_d2 {
                    best_d2 = d2;
                    best = i;
                }
            }
            if best != usize::MAX {
                pull[best] += (*a - places[best]).normalize_or_zero();
            }
        }
        let directions: Vec<GVec3> = pull.iter().map(|p| p.normalize_or_zero()).collect();
        let pulled: Vec<bool> = directions.iter().map(|d| *d != GVec3::ZERO).collect();
        let before = places.len();
        for parent in grow_crown(&pulled, budget) {
            let at = places[parent as usize];
            places.push(at + directions[parent as usize] * float(sp.colonize_step));
            parents.push(parent);
        }
        if places.len() == before {
            break;
        }
        let new = places[before..].to_vec();
        attractors.retain(|a| new.iter().all(|p| p.distance_squared(*a) > kill2));
    }
}

/// Radii by the pipe model: cross-sections add up across a fork. A branch never
/// thickens away from the trunk, whatever the rounding.
fn thicken(parents: &[u32], trunk_radius: f32, species_tip: f32) -> (Vec<f32>, f32, f32) {
    let tips = count_tips(&parents.to_vec()).max(1);
    let tip_radius = if tips <= 1 { trunk_radius } else { species_tip };
    let ratio = trunk_radius / tip_radius.max(1e-4);
    let exp = if tips > 1 && ratio > 1.001 {
        ((tips as f32).ln() / ratio.ln()).clamp(0.5, 6.0)
    } else {
        PIPE_EXP
    };
    let mut area = vec![0.0f32; parents.len()];
    let mut widest = vec![0.0f32; parents.len()];
    let mut radii = vec![0.0f32; parents.len()];
    for i in (0..parents.len()).rev() {
        radii[i] =
            if area[i] > 0.0 { area[i].powf(1.0 / exp).max(widest[i]) } else { tip_radius };
        if parents[i] != NO_PARENT {
            let p = parents[i] as usize;
            area[p] += radii[i].powf(exp);
            widest[p] = widest[p].max(radii[i]);
        }
    }
    (radii, tip_radius, exp)
}

fn derive_lobes(nodes: &[TreeNode], chains: u32, seed: u64, sp: &TreeSpecies, exp: f32) -> Vec<Lobe> {
    if sp.max_lobes == 0 || nodes.is_empty() {
        return Vec::new();
    }
    let limbs = find_limbs(
        &nodes.iter().map(|n| n.limb).collect(),
        &nodes.iter().map(|n| single(n.radius)).collect(),
        chains,
    );
    let mut out: Vec<Lobe> = Vec::new();
    for limb in order_limbs(&limbs) {
        let node = limb.terminal;
        let mut rng =
            SplitMix64::new(mix64(seed ^ (node as u64).wrapping_mul(0xD1B5_4A32_D192_ED03)));
        let mut radius = float(sp.lobe_scale) * float(limb.supply).powf(exp / 3.0);
        radius *= 1.0 + spread(&mut rng) * float(sp.lobe_size_jitter);
        if radius < float(sp.lobe_min_radius) {
            continue;
        }
        let j = float(sp.lobe_anisotropy);
        out.push(Lobe {
            center: nodes[node as usize].pos,
            radius,
            aniso: GVec3::new(
                1.0 + spread(&mut rng) * j,
                1.0 + spread(&mut rng) * j,
                1.0 + spread(&mut rng) * j,
            ),
            anchor_node: node,
        });
    }
    loop {
        let crowded = |a: &Lobe, b: &Lobe| {
            (a.center - b.center).length() < float(sp.lobe_separation) * (a.radius + b.radius)
        };
        let hit = (0..out.len())
            .flat_map(|i| ((i + 1)..out.len()).map(move |k| (i, k)))
            .find(|&(i, k)| crowded(&out[i], &out[k]));
        let Some((i, k)) = hit else { break };
        let (a3, b3) = (out[i].radius.powi(3), out[k].radius.powi(3));
        let toward = out[k].center;
        out[i].center = out[i].center.lerp(toward, b3 / (a3 + b3));
        out[i].radius = (a3 + b3).cbrt();
        out.remove(k);
    }
    let sizes = out
        .iter()
        .map(|l| LobeSize { radius: single(l.radius), anchor: l.anchor_node })
        .collect();
    let kept = trim_lobes(sizes, sp.max_lobes);
    out.retain(|l| kept.iter().any(|k| k.anchor == l.anchor_node));
    out
}

fn extent(nodes: &[TreeNode], lobes: &[Lobe]) -> (f32, f32) {
    let mut reach: f32 = 0.0;
    let mut height: f32 = 0.0;
    for n in nodes {
        reach = reach.max((n.pos.x * n.pos.x + n.pos.z * n.pos.z).sqrt() + n.radius);
        height = height.max(n.pos.y + n.radius);
    }
    for l in lobes {
        let r = l.radii();
        let c = l.center;
        reach = reach.max((c.x * c.x + c.z * c.z).sqrt() + r.x.max(r.z));
        height = height.max(c.y + r.y);
    }
    (reach, height)
}

fn in_capsule(p: GVec3, a: GVec3, b: GVec3, ra: f32, rb: f32) -> bool {
    if p.distance_squared(a) <= ra * ra || p.distance_squared(b) <= rb * rb {
        return true;
    }
    let ba = b - a;
    let len2 = ba.length_squared();
    if len2 <= f32::EPSILON {
        return false;
    }
    let t = ((p - a).dot(ba) / len2).clamp(0.0, 1.0);
    let r = ra + (rb - ra) * t;
    (p - (a + ba * t)).length_squared() <= r * r
}

impl Skeleton {
    /// Derive a tree, purely from its seed, species and age.
    pub fn derive(seed: u64, species: &TreeSpecies, age: f32) -> Self {
        let budget = node_budget(single(age));
        let (mut places, mut parents) = grow(seed, species, budget);
        colonize(&mut places, &mut parents, seed, species, budget);
        let (radii, tip_radius, pipe_exp) =
            thicken(&parents, float(species.trunk_radius), float(species.tip_radius));
        let (limbs, chains) = divide_limbs(&parents);
        let nodes: Vec<TreeNode> = (0..places.len())
            .map(|i| TreeNode {
                pos: places[i],
                parent: parents[i],
                radius: radii[i],
                limb: limbs[i],
            })
            .collect();
        let lobes = derive_lobes(&nodes, chains, seed, species, pipe_exp);
        let (reach, height) = extent(&nodes, &lobes);
        Skeleton { nodes, chains, tip_radius, pipe_exp, lobes, reach, height }
    }

    /// One segment per node but the root.
    pub fn segments(&self) -> Vec<Segment> {
        paired(&self.nodes.iter().map(|n| n.parent).collect())
            .into_iter()
            .map(|(parent, child)| {
                let (p, c) = (&self.nodes[parent as usize], &self.nodes[child as usize]);
                Segment {
                    a: p.pos,
                    b: c.pos,
                    ra: p.radius,
                    rb: c.radius,
                    chain: c.limb.chain,
                }
            })
            .collect()
    }

    /// Visit every cell whose center lies in a branch; a cell may come twice.
    pub fn voxelize(&self, root: GVec3, mut f: impl FnMut(GIVec3)) {
        for seg in self.segments() {
            let (a, b) = (root + seg.a, root + seg.b);
            let r = seg.ra.max(seg.rb);
            let lo = (a.min(b) - GVec3::splat(r)).floor().as_ivec3();
            let hi = (a.max(b) + GVec3::splat(r)).ceil().as_ivec3();
            for z in lo.z..=hi.z {
                for y in lo.y..=hi.y {
                    for x in lo.x..=hi.x {
                        let cell = GIVec3::new(x, y, z);
                        let center = cell.as_vec3() + GVec3::splat(0.5);
                        if in_capsule(center, a, b, seg.ra, seg.rb) {
                            f(cell);
                        }
                    }
                }
            }
        }
    }
}

fn stand(f: &Feature) -> GVec3 {
    GVec3::new(f.anchor.x as f32 + 0.5, f.anchor.y as f32 + 1.0, f.anchor.z as f32 + 0.5)
}

fn tree_of(t: &TreeSource, f: &Feature) -> Skeleton {
    let skeleton = Skeleton::derive(mix64(f.priority), &t.species, float(t.age));
    skeleton
}

/// The world cells a tree's wood occupies.
pub fn wood_cells(t: &TreeSource, f: &Feature) -> Vec<IVec3> {
    let mut out = Vec::new();
    tree_of(t, f).voxelize(stand(f), |c| out.push(IVec3::new(c.x, c.y, c.z)));
    out
}

fn owned(ctx: &EvalContext, p: GVec3) -> bool {
    let c = p.floor().as_ivec3();
    owns_cell(*ctx, IVec3::new(c.x, c.y, c.z))
}

/// The branches of a tree that a chunk draws: those whose thick end it owns.
pub fn capsules(t: &TreeSource, f: &Feature, ctx: &EvalContext) -> Vec<BranchSegment> {
    let root = stand(f);
    tree_of(t, f)
        .segments()
        .into_iter()
        .map(|s| BranchSegment { a: root + s.a, b: root + s.b, ra: s.ra, rb: s.rb })
        .filter(|s| owned(ctx, s.a))
        .collect()
}

/// The joints of a tree that a chunk draws, as centers and radii: those it owns.
pub fn joints(t: &TreeSource, f: &Feature, ctx: &EvalContext) -> Vec<(GVec3, f32)> {
    let root = stand(f);
    tree_of(t, f)
        .nodes
        .iter()
        .map(|n| (root + n.pos, n.radius))
        .filter(|j| owned(ctx, j.0))
        .collect()
}

/// What the graphs say of one chunk.
pub struct ChunkEvaluation {
    /// The voxels.
    pub terrain: ChunkBuffer<Voxel>,
    /// Zone of each column, where a world graph assigns zones.
    pub zone_ids: Option<Arc<IdColumn>>,
    /// Biome of each column, where zone graphs assign biomes.
    pub biome_ids: Option<Arc<IdColumn>>,
    /// Paint and scattered instances.
    pub foliage: ChunkFoliage,
    /// Pond levels, where a biome of the chunk has ponds.
    pub fluid_levels: Option<ColumnField>,
    /// The branches the chunk draws.
    pub segments: Vec<BranchSegment>,
    /// The joints between them, as centers and radii.
    pub joints: Vec<(GVec3, f32)>,
}

/// Graphs are walked without a depth limit, so a cycle would never end; and the edge
/// index has a size. Both are broken graphs.
fn check_graph(graph: &Graph) {
    assert!(EdgeIndex::fits(graph), "too many edges to index");
    assert!(graph.topological_order().is_ok(), "the graph has a cycle");
}

fn check_place(ctx: &EvalContext) {
    let held = |v: i32| (-0x400_0000..0x400_0000).contains(&v);
    assert!(
        held(ctx.chunk.x) && held(ctx.chunk.y) && held(ctx.chunk.z),
        "the chunk lies outside the world"
    );
}

struct Columns {
    resolved: ResolvedColumns,
    border: Option<BorderScan>,
    world_cache: ColumnCache,
}

fn resolve(world: &WorldEvaluator, ctx: EvalContext) -> EvalResult<Columns> {
    check_graph(&world.world);
    for zone in &world.zones {
        check_graph(&zone.graph);
    }
    let mut world_ev = ColumnEvaluator::new(&world.world, ctx);
    if !world.world.nodes.is_empty() {
        evaluate_columns(&mut world_ev, &ctx)?;
    }
    let world_cache = world_ev.into_cache();
    let mut zone_caches = Vec::new();
    {
        let upstream = world.upstream_for(ctx, &world_cache);
        for zone in &world.zones {
            let mut ev = ColumnEvaluator::new(&zone.graph, ctx).with_upstream(&upstream);
            if !zone.graph.nodes.is_empty() {
                evaluate_columns(&mut ev, &ctx)?;
            }
            zone_caches.push(ev.into_cache());
        }
    }
    let resolved = world.resolve_columns(&world_cache, &zone_caches);
    let border = if world.zones.is_empty() {
        None
    } else {
        let plans = world.id_plans(ctx.world_seed);
        let biome_at = |wx: i32, wz: i32| plans.at(&column_noise, wx, wz).map(|ids| ids.1);
        Some(analyze_borders(biome_at, ctx.chunk, FADE_RADIUS)?)
    };
    Ok(Columns { resolved, border, world_cache })
}

/// An evaluator of a biome's graph.
fn biome_evaluator<'u>(
    world: &'u WorldEvaluator,
    id: u16,
    ctx: EvalContext,
    upstream: &'u UpstreamGraphs<'u>,
) -> Option<Evaluator<'u>> {
    let biome = world.biomes.iter().find(|b| b.id == id)?;
    check_graph(&biome.graph);
    Some(
        Evaluator::new(&biome.graph, ctx)
            .with_biome_params(&biome.params)
            .with_library_kernels(&world.kernels)
            .with_upstream(upstream),
    )
}

fn evaluated<'u>(
    world: &'u WorldEvaluator,
    id: u16,
    ctx: EvalContext,
    upstream: &'u UpstreamGraphs<'u>,
) -> EvalResult<Option<Evaluator<'u>>> {
    match biome_evaluator(world, id, ctx, upstream) {
        Some(mut ev) => {
            evaluate(&mut ev, &ctx)?;
            Ok(Some(ev))
        }
        None => Ok(None),
    }
}

/// An evaluated biome that has a density; a biome without one is not evaluated.
fn evaluated_layer<'u>(
    world: &'u WorldEvaluator,
    id: u16,
    ctx: EvalContext,
    upstream: &'u UpstreamGraphs<'u>,
) -> EvalResult<Option<Evaluator<'u>>> {
    match world.biomes.iter().find(|b| b.id == id) {
        Some(biome) if biome.density_node.is_some() => evaluated(world, id, ctx, upstream),
        _ => Ok(None),
    }
}

fn density_steps<'u>(
    world: &WorldEvaluator,
    id: u16,
    ev: &Evaluator<'u>,
) -> Option<Vec<SampleStep<'u>>> {
    world.density_source(id).and_then(|n| ev.sample_density(n).ok())
}

fn compose(
    world: &WorldEvaluator,
    ctx: EvalContext,
    biomes: Option<&IdColumn>,
    border: Option<&BorderScan>,
    upstream: &UpstreamGraphs<'_>,
) -> EvalResult<ChunkBuffer<Voxel>> {
    let mut evaluators: Vec<(u16, Evaluator<'_>)> = Vec::new();
    for id in needed_biomes(biomes, border) {
        if let Some(ev) = evaluated_layer(world, id, ctx, upstream)? {
            evaluators.push((id, ev));
        }
    }
    let mut layers: Vec<TerrainLayer<'_>> = Vec::new();
    let mut steps: Vec<Option<Vec<SampleStep<'_>>>> = Vec::new();
    for (id, ev) in &evaluators {
        if let Some(layer) = world.biome_layer(*id, ev.cache()) {
            layers.push(layer);
            steps.push(density_steps(world, *id, ev));
        }
    }
    for layer in &layers {
        if let BiomeMaterialRule::Layer { bands, .. } = layer.rule {
            let depth: u64 = bands.iter().map(|b| b.1 as u64).sum();
            assert!(depth <= 0xffff_ffe0, "the bands of a biome are too deep");
        }
    }
    let blend = |own: Single, other: Single, d2: u32| {
        let weight = biome_border_fade((d2 as f32).sqrt(), FADE_RADIUS as f32);
        single(blend_density(float(own), float(other), weight))
    };
    let above = |layer: usize, x: usize, y: usize, z: usize| {
        steps[layer].as_ref().map(|s| single(run_steps(&ctx, s, x, y, z)))
    };
    Ok(compose_terrain(&layers, biomes, border, &blend, &above))
}

fn ponds(
    world: &WorldEvaluator,
    ctx: EvalContext,
    biomes: Option<&IdColumn>,
    upstream: &UpstreamGraphs<'_>,
) -> EvalResult<Option<ColumnField>> {
    let present = present_biomes(biomes);
    if !world.authors_fluid(&present) {
        return Ok(None);
    }
    let mut evaluators: Vec<(u16, Evaluator<'_>)> = Vec::new();
    for id in present {
        let biome = world.biomes.iter().find(|b| b.id == id);
        let level = |b: &BiomeGraph| b.fluid_node.and_then(|n| input_source(&b.graph, n, 0));
        let authored = biome.and_then(level).is_some();
        if authored {
            if let Some(ev) = evaluated(world, id, ctx, upstream)? {
                evaluators.push((id, ev));
            }
        }
    }
    let layers: Vec<FluidLayer<'_>> = evaluators
        .iter()
        .filter_map(|(id, ev)| world.fluid_layer(*id, ev.cache()))
        .collect();
    Ok(Some(composite_fluid(&layers, biomes)))
}

/// The densities of a column of one biome, from the lowest chunk up.
fn column_densities(
    world: &WorldEvaluator,
    id: u16,
    ev: &Evaluator<'_>,
    base: EvalContext,
    lx: usize,
    lz: usize,
    height: i64,
) -> Vec<Option<Single>> {
    if world.biome_layer(id, ev.cache()).is_none() {
        return Vec::new();
    }
    let steps = density_steps(world, id, ev);
    (0..height.max(0) as usize)
        .map(|y| steps.as_ref().map(|s| single(run_steps(&base, s, lx, y, lz))))
        .collect()
}

fn probe(
    world: &WorldEvaluator,
    ctx: EvalContext,
    upstream: &UpstreamGraphs<'_>,
    columns: &[(i32, i32)],
) -> EvalResult<Vec<Option<ColumnProbe>>> {
    let plans = world.id_plans(ctx.world_seed);
    let mut known: HashMap<(i32, i32, u16), Option<Evaluator<'_>>> = HashMap::new();
    let mut out = Vec::with_capacity(columns.len());
    for &(wx, wz) in columns {
        let (zone, biome) = plans.at(&column_noise, wx, wz)?;
        let ((cx, lx), (cz, lz)) = (locate_column(wx), locate_column(wz));
        let base = EvalContext::new(ctx.world_seed, IVec3::new(cx, world.lowest_chunk, cz));
        let key = (cx, cz, biome);
        if !known.contains_key(&key) {
            known.insert(key, evaluated_layer(world, biome, base, upstream)?);
        }
        let samples = match &known[&key] {
            Some(ev) => column_densities(
                world,
                biome,
                ev,
                base,
                lx,
                lz,
                column_height(world.lowest_chunk, world.highest_chunk),
            ),
            None => Vec::new(),
        };
        out.push(probe_column(zone, biome, world.lowest_chunk, &samples));
    }
    Ok(out)
}

fn check_sources(ctx: &EvalContext, sources: &[FeatureSource]) {
    for s in sources {
        let span = 32i64 * (ctx.chunk.x.abs().max(ctx.chunk.z.abs()) as i64 + 2)
            + s.reach()
            + 4 * s.cell_size.max(1) as i64;
        assert!(span < 0x7fff_0000, "a feature cell lies outside the world");
    }
}

fn features_of(
    world: &WorldEvaluator,
    ctx: EvalContext,
    sources: &[FeatureSource],
    upstream: &UpstreamGraphs<'_>,
) -> EvalResult<Vec<Feature>> {
    check_sources(&ctx, sources);
    let candidates = feature_candidates(ctx, sources);
    let columns: Vec<(i32, i32)> = candidates.iter().map(|c| (c.x, c.z)).collect();
    let probes = probe(world, ctx, upstream, &columns)?;
    for p in probes.iter().flatten() {
        for s in sources {
            assert!(
                p.surface_y.checked_add(s.surface_offset).is_some(),
                "a feature stands outside the world"
            );
        }
    }
    Ok(settle_features(sources, &candidates, &probes))
}

/// Evaluate the graphs for one chunk: zones and biomes per column, terrain, features,
/// ponds and foliage.
pub fn evaluate_chunk(world: &WorldEvaluator, ctx: EvalContext) -> EvalResult<ChunkEvaluation> {
    check_place(&ctx);
    let cols = resolve(world, ctx)?;
    let upstream = world.upstream_for(ctx, &cols.world_cache);
    let biomes = cols.resolved.biome_ids.as_deref();
    let mut terrain = compose(world, ctx, biomes, cols.border.as_ref(), &upstream)?;

    let sources = world.structure_sources()?;
    let mut segments = Vec::new();
    let mut rounds = Vec::new();
    let mut canopies = Vec::new();
    if !sources.is_empty() {
        let features = features_of(world, ctx, &sources, &upstream)?;
        let grown: Vec<Vec<IVec3>> = features
            .iter()
            .map(|f| match &sources[f.source].payload {
                FeaturePayload::Tree(t) => {
                    segments.extend(capsules(t, f, &ctx));
                    rounds.extend(joints(t, f, &ctx));
                    wood_cells(t, f)
                }
                FeaturePayload::Blueprint(_) => Vec::new(),
            })
            .collect();
        terrain = stamp_features(&terrain, ctx, &sources, &features, &grown);
        canopies = canopy_instances(ctx, &sources, &features);
    }

    let fluid_levels = ponds(world, ctx, biomes, &upstream)?;
    let mut parts = Vec::new();
    for (id, graph) in world.foliage_graphs(biomes) {
        parts.push(evaluate_detail(graph, ctx, &terrain, biomes, id)?);
    }
    if !canopies.is_empty() {
        parts.push(ChunkFoliage { paint: Vec::new(), scatter: canopies });
    }
    Ok(ChunkEvaluation {
        terrain,
        zone_ids: cols.resolved.zone_ids.clone(),
        biome_ids: cols.resolved.biome_ids.clone(),
        foliage: unite_foliage(parts),
        fluid_levels,
        segments,
        joints: rounds,
    })
}

/// Report on one column over a range of chunks.
pub fn inspect(
    world: &WorldEvaluator,
    ctx: EvalContext,
    lx: usize,
    lz: usize,
    lowest: i32,
    highest: i32,
) -> EvalResult<ColumnReport> {
    check_place(&ctx);
    assert!(lx < CHUNK_DIM && lz < CHUNK_DIM, "the column lies outside the chunk");
    assert!(lowest < highest && lowest >= -0x400_0000 && highest < 0x400_0000, "no such range");
    let cols = resolve(world, ctx)?;
    let upstream = world.upstream_for(ctx, &cols.world_cache);
    let dim = CHUNK_DIM as i32;
    let (wx, wz) = (ctx.chunk.x * dim + lx as i32, ctx.chunk.z * dim + lz as i32);
    let climate = world
        .climate_channels(ctx.world_seed)
        .into_iter()
        .map(|c| (c.name, column_noise(c.params, c.seed, wx, wz)))
        .collect();
    let biomes = cols.resolved.biome_ids.as_deref();
    let biome = biomes.map_or(0, |b| b.get(lx, lz));
    let base = EvalContext::new(
        ctx.world_seed,
        IVec3::new(ctx.chunk.x, lowest, ctx.chunk.z),
    );
    let samples = match evaluated_layer(world, biome, base, &upstream)? {
        Some(ev) => {
            column_densities(world, biome, &ev, base, lx, lz, column_height(lowest, highest))
        }
        None => Vec::new(),
    };
    let shown = choose_chunk(&samples, lowest, highest);
    let shown_ctx = EvalContext::new(
        ctx.world_seed,
        IVec3::new(ctx.chunk.x, shown, ctx.chunk.z),
    );
    let terrain = compose(world, shown_ctx, biomes, cols.border.as_ref(), &upstream)?;
    let fluid = ponds(world, shown_ctx, biomes, &upstream)?;
    Ok(inspect_column(
        ctx,
        lx,
        lz,
        climate,
        &cols.resolved,
        cols.border.as_ref(),
        &samples,
        lowest,
        shown,
        &terrain,
        fluid.as_ref(),
    ))
}


/// One column of a per-column graph.
pub fn sample_column(
    ev: &ColumnEvaluator<'_>,
    node: NodeId,
    wx: i32,
    wz: i32,
) -> EvalResult<ColumnSample> {
    let plan = ev.sample_column(node)?;
    Ok(plan.finish(column_noise(plan.params, plan.seed, wx, wz)))
}

/// One value of a scalar node, at a cell that may lie beyond the chunk.
pub fn sample_density(
    ev: &Evaluator<'_>,
    ctx: &EvalContext,
    node: NodeId,
    x: usize,
    y: usize,
    z: usize,
) -> EvalResult<f32> {
    Ok(run_steps(ctx, &ev.sample_density(node)?, x, y, z))
}

fn join(g: &mut Graph, from: NodeId, from_pin: u16, to: NodeId, to_pin: u16) {
    g.connect(PinRef::new(from, from_pin), PinRef::new(to, to_pin)).unwrap();
}

fn at(x: i32, y: i32, z: i32) -> IVec3 {
    IVec3::new(x, y, z)
}

fn singles(v: Vec<f32>) -> Vec<Single> {
    v.into_iter().map(single).collect()
}

/// A biome of uniform density and one material.
fn terrain_graph_mat(density: f32, material: MaterialId) -> Graph {
    let mut g = Graph::new();
    let d = g.add_node(NodeKind::Constant(ConstantParams { value: single(density) }));
    let m = g.add_node(NodeKind::ConstantMaterial(ConstantMaterialParams { material }));
    let out = g.add_node(NodeKind::DensityOutput(DensityOutputParams::default()));
    join(&mut g, d, 0, out, 0);
    join(&mut g, m, 0, out, 1);
    g
}

fn terrain_graph(density: f32) -> Graph {
    terrain_graph_mat(density, ConstantMaterialParams::default().material)
}

/// A zone that splits columns into biomes 0 and 1 by a climate band at 0.
fn zone_split() -> (Graph, NodeId) {
    let mut g = Graph::of_kind(GraphKind::Zone);
    let noise = g.add_node(NodeKind::SurfaceNoise(NoiseParams::default()));
    let out = g.add_node(NodeKind::ZoneOutput(ZoneOutputParams {
        biome_bands: singles(vec![0.0]),
        ..ZoneOutputParams::default()
    }));
    join(&mut g, noise, 0, out, 0);
    (g, out)
}

fn column_ids(g: &Graph, node: NodeId, ctx: EvalContext) -> Vec<u16> {
    let mut e = ColumnEvaluator::new(g, ctx);
    evaluate_columns(&mut e, &ctx).unwrap();
    e.cache().get(node).unwrap().as_id().unwrap().data().to_vec()
}

fn column_id_at(e: &ColumnEvaluator<'_>, node: NodeId, wx: i32, wz: i32) -> u16 {
    match sample_column(e, node, wx, wz).unwrap() {
        ColumnSample::Id(v) => v,
        ColumnSample::Surface(_) => panic!("expected id"),
    }
}

fn two_biomes() -> WorldEvaluator {
    WorldEvaluator::new(terrain_graph_mat(5.0, MaterialId(1)))
        .with_zone(zone_split().0)
        .with_biomes(vec![
            (0, terrain_graph_mat(5.0, MaterialId(1))),
            (1, terrain_graph_mat(5.0, MaterialId(2))),
        ])
}

const VOLUME: usize = CHUNK_DIM * CHUNK_DIM * CHUNK_DIM;

#[test]
fn world_and_zones_are_empty_by_default() {
    let we = WorldEvaluator::new(terrain_graph(1.0));
    assert_eq!(we.world_graph().kind, GraphKind::World);
    assert!(we.world_graph().nodes.is_empty());
    assert_eq!(we.zone_graphs().len(), 0);
    assert!(we.libraries().is_empty());
}

#[test]
fn single_biome_composites_to_that_biome() {
    let we = WorldEvaluator::new(terrain_graph(1.0));
    let eval = evaluate_chunk(&we, EvalContext::new(0, at(0, 0, 0))).unwrap();
    let expected = Voxel::cube(ConstantMaterialParams::default().material);
    for i in 0..VOLUME {
        assert_eq!(eval.terrain.get_index(i), expected);
    }
    assert!(eval.zone_ids.is_none());
    assert!(eval.biome_ids.is_none());
}

#[test]
fn composite_selects_winning_biome_material() {
    let (zone, zone_node) = zone_split();
    let ctx = EvalContext::new(7, at(1, 0, 1));
    let eval = evaluate_chunk(&two_biomes(), ctx).unwrap();
    let ids = column_ids(&zone, zone_node, ctx);
    for z in 0..CHUNK_DIM {
        for x in 0..CHUNK_DIM {
            let expected =
                if ids[x + z * CHUNK_DIM] == 0 { MaterialId(1) } else { MaterialId(2) };
            let v = eval.terrain.get(x, 0, z);
            assert_ne!(v, Voxel::empty(), "both biomes solid -> every column solid");
            assert_eq!(v.material, expected, "material follows the winning biome");
        }
    }
}

#[test]
fn world_graph_populates_zone_column() {
    let mut world = Graph::of_kind(GraphKind::World);
    let noise = world.add_node(NodeKind::SurfaceNoise(NoiseParams::default()));
    let out = world.add_node(NodeKind::WorldOutput(WorldOutputParams::default()));
    join(&mut world, noise, 0, out, 0);
    let we = WorldEvaluator::new(terrain_graph(1.0)).with_world(world);
    let eval = evaluate_chunk(&we, EvalContext::new(0, at(0, 0, 0))).unwrap();
    let ids = eval.zone_ids.expect("a World graph with a WorldOutput assigns zones");
    assert!(ids.data().iter().all(|&z| z == 0));
}

#[test]
fn zone_graph_populates_biome_column() {
    let mut zone = Graph::of_kind(GraphKind::Zone);
    let noise = zone.add_node(NodeKind::SurfaceNoise(NoiseParams::default()));
    let out = zone.add_node(NodeKind::ZoneOutput(ZoneOutputParams::default()));
    join(&mut zone, noise, 0, out, 0);
    let we = WorldEvaluator::new(terrain_graph(1.0)).with_zone(zone);
    let eval = evaluate_chunk(&we, EvalContext::new(0, at(0, 0, 0))).unwrap();
    let ids = eval.biome_ids.expect("a zone graph assigns biomes");
    assert!(ids.data().iter().all(|&b| b == 0));
}

#[test]
fn no_detail_graph_produces_empty_foliage() {
    let we = WorldEvaluator::new(terrain_graph(1.0));
    let eval = evaluate_chunk(&we, EvalContext::new(0, at(0, 0, 0))).unwrap();
    assert!(eval.foliage.is_empty());
}

fn scattered(prefab_id: u32) -> Graph {
    let mut g = Graph::of_kind(GraphKind::Detail);
    let pois = g.add_node(NodeKind::PoissonDistribution(PoissonDistributionParams {
        seed: 1,
        radius: single(8.0),
        jitter: single(0.5),
    }));
    let pick = g.add_node(NodeKind::SpeciesPicker(SpeciesPickerParams::default()));
    let place = g.add_node(NodeKind::ScatterPlace(ScatterPlaceParams {
        seed: 2,
        type_id: 0,
        prefab_id,
    }));
    join(&mut g, pois, 0, pick, 0);
    join(&mut g, pick, 0, place, 0);
    g
}

#[test]
fn biome_detail_graph_produces_foliage() {
    let we =
        WorldEvaluator::new(terrain_graph(1.0)).with_biome_details(vec![(0, scattered(5))]);
    let eval = evaluate_chunk(&we, EvalContext::new(7, at(0, 0, 0))).unwrap();
    assert!(!eval.foliage.scatter.is_empty());
    assert!(!eval.foliage.scatter[0].instances.is_empty());
}

fn climate_world() -> (Graph, NodeId) {
    let mut world = Graph::of_kind(GraphKind::World);
    let wn = world.add_node(NodeKind::SurfaceNoise(NoiseParams::default()));
    let wo = world
        .add_node(NodeKind::GraphOutput(GraphOutputParams { name: "climate".to_string() }));
    join(&mut world, wn, 0, wo, 0);
    (world, wo)
}

fn world_ref() -> NodeKind {
    NodeKind::GraphRef(GraphRefParams {
        target: GraphRefTarget::World,
        ..GraphRefParams::default()
    })
}

#[test]
fn world_climate_drives_zone_biome_assignment() {
    let (mut world, wo) = climate_world();
    world.derive_output_boundary();
    let mut zone = Graph::of_kind(GraphKind::Zone);
    let gr = zone.add_node(world_ref());
    let zo = zone.add_node(NodeKind::ZoneOutput(ZoneOutputParams {
        biome_bands: singles(vec![0.0]),
        ..ZoneOutputParams::default()
    }));
    let wb = world.boundary.clone();
    zone.resolve_graph_refs(|t| if t == GraphRefTarget::World { Some(wb.clone()) } else { None });
    join(&mut zone, gr, 0, zo, 0);

    let ctx = EvalContext::new(9, at(2, 0, -1));
    let we = WorldEvaluator::new(terrain_graph(1.0))
        .with_world(world.clone())
        .with_zone(zone)
        .with_biomes(vec![(0, terrain_graph(1.0)), (1, terrain_graph(-1.0))])
        .with_cross_graph_resolved();
    let eval = evaluate_chunk(&we, ctx).unwrap();
    let biome_ids = eval.biome_ids.clone().expect("a zone graph assigns biomes");
    let mut wc = ColumnEvaluator::new(&world, ctx);
    evaluate_columns(&mut wc, &ctx).unwrap();
    let climate = wc.cache().get(wo).unwrap().as_surface().unwrap().clone();
    for z in 0..CHUNK_DIM {
        for x in 0..CHUNK_DIM {
            let expect = if float(climate.get(x, z)) >= 0.0 { 1u16 } else { 0 };
            assert_eq!(biome_ids.get(x, z), expect, "biome must follow World's climate");
        }
    }
}

fn param_biome() -> Graph {
    let mut biome = Graph::new();
    let bp = biome.add_node(NodeKind::BiomeParam(BiomeParamParams {
        name: "solid".to_string(),
        default: single(-1.0),
    }));
    let m = biome.add_node(NodeKind::ConstantMaterial(ConstantMaterialParams::default()));
    let out = biome.add_node(NodeKind::DensityOutput(DensityOutputParams::default()));
    join(&mut biome, bp, 0, out, 0);
    join(&mut biome, m, 0, out, 1);
    biome
}

#[test]
fn biome_param_threads_into_biome_terrain() {
    let ctx = EvalContext::new(0, at(0, 0, 0));
    let air = evaluate_chunk(&WorldEvaluator::new(param_biome()), ctx).unwrap();
    assert!(
        (0..VOLUME).all(|i| air.terrain.get_index(i) == Voxel::empty()),
        "default biome param should leave the chunk air"
    );
    let mut params = BiomeParams::new();
    params.set("solid".to_string(), single(1.0));
    let we = WorldEvaluator::new(param_biome()).with_biome_params(vec![(0, params)]);
    let solid = evaluate_chunk(&we, ctx).unwrap();
    assert!(
        (0..VOLUME).any(|i| solid.terrain.get_index(i) != Voxel::empty()),
        "biome param should thread through to solid terrain"
    );
}

#[test]
fn biome_param_reads_the_right_biome() {
    let mut p0 = BiomeParams::new();
    p0.set("d".to_string(), single(3.0));
    let mut p1 = BiomeParams::new();
    p1.set("d".to_string(), single(0.0));
    let we = WorldEvaluator::new(terrain_graph(1.0))
        .with_biomes(vec![(0, terrain_graph(1.0)), (1, terrain_graph(1.0))])
        .with_biome_params(vec![(0, p0), (1, p1)]);
    assert_eq!(we.biome_param(0, "d"), Some(single(3.0)));
    assert_eq!(we.biome_param(1, "d"), Some(single(0.0)));
    assert_eq!(we.biome_param(0, "missing"), None);
    assert_eq!(we.biome_param(9, "d"), None);
}

#[test]
fn fluid_output_produces_pond_levels() {
    let mut biome = Graph::new();
    let level = biome.add_node(NodeKind::Constant(ConstantParams { value: single(30.0) }));
    let mask = biome.add_node(NodeKind::Constant(ConstantParams { value: single(1.0) }));
    let fout = biome.add_node(NodeKind::FluidOutput(FluidOutputParams::default()));
    join(&mut biome, level, 0, fout, 0);
    join(&mut biome, mask, 0, fout, 1);
    let we = WorldEvaluator::new(biome);
    let a = evaluate_chunk(&we, EvalContext::new(0, at(0, 0, 0))).unwrap();
    let levels = a.fluid_levels.expect("pond field present");
    assert_eq!(levels.get(0, 0), single(30.0));
    assert_eq!(levels.get(31, 31), single(30.0));
    let b = evaluate_chunk(&we, EvalContext::new(0, at(0, 0, 0))).unwrap();
    assert_eq!(b.fluid_levels.unwrap().get(5, 5), single(30.0));
}

const T_GRASS: MaterialId = MaterialId(6);
const T_SOIL: MaterialId = MaterialId(3);
const T_STONE: MaterialId = MaterialId(1);

/// A biome solid below a height, with grass over soil over stone.
fn banded_terrain_graph(max_y: f32) -> Graph {
    let mut g = Graph::new();
    let band = g.add_node(NodeKind::YBand(YBandParams {
        min: single(-1024.0),
        max: single(max_y),
    }));
    let layer = g.add_node(NodeKind::Layer(LayerParams {
        bands: vec![(T_GRASS, 1), (T_SOIL, 3)],
        fill: T_STONE,
    }));
    let out = g.add_node(NodeKind::DensityOutput(DensityOutputParams::default()));
    join(&mut g, band, 0, layer, 0);
    join(&mut g, band, 0, out, 0);
    join(&mut g, layer, 0, out, 1);
    g
}

fn material_at(eval: &ChunkEvaluation, x: usize, y: usize, z: usize) -> MaterialId {
    eval.terrain.get(x, y, z).material
}

#[test]
fn chunk_y_seam_bands_depth_from_true_surface() {
    let we = WorldEvaluator::new(banded_terrain_graph(40.0));
    let below = evaluate_chunk(&we, EvalContext::new(7, at(0, 0, 0))).unwrap();
    assert_eq!(material_at(&below, 5, 31, 5), T_STONE, "buried window top is fill");
    assert_eq!(material_at(&below, 5, 30, 5), T_STONE);
    let above = evaluate_chunk(&we, EvalContext::new(7, at(0, 1, 0))).unwrap();
    assert_eq!(material_at(&above, 5, 7, 5), T_GRASS, "true surface keeps grass");
    assert_eq!(material_at(&above, 5, 6, 5), T_SOIL);
    assert_eq!(material_at(&above, 5, 4, 5), T_SOIL);
    assert_eq!(material_at(&above, 5, 3, 5), T_STONE);
}

#[test]
fn exposed_window_top_keeps_surface_bands() {
    let we = WorldEvaluator::new(banded_terrain_graph(32.0));
    let eval = evaluate_chunk(&we, EvalContext::new(7, at(0, 0, 0))).unwrap();
    assert_eq!(material_at(&eval, 5, 31, 5), T_GRASS, "exposed top stays grass");
    assert_eq!(material_at(&eval, 5, 30, 5), T_SOIL);
    assert_eq!(material_at(&eval, 5, 27, 5), T_STONE);
}

#[test]
fn shallow_continuation_shifts_bands_partially() {
    let we = WorldEvaluator::new(banded_terrain_graph(34.0));
    let eval = evaluate_chunk(&we, EvalContext::new(7, at(0, 0, 0))).unwrap();
    assert_eq!(material_at(&eval, 5, 31, 5), T_SOIL, "2 deep -> soil band");
    assert_eq!(material_at(&eval, 5, 30, 5), T_SOIL, "3 deep -> last soil");
    assert_eq!(material_at(&eval, 5, 29, 5), T_STONE, "4 deep -> fill");
}

fn zoned_world(frequency: Option<f32>, ids: Vec<u16>) -> Graph {
    let mut world = Graph::of_kind(GraphKind::World);
    let mut p = NoiseParams::default();
    if let Some(f) = frequency {
        p.frequency = single(f);
    }
    let noise = world.add_node(NodeKind::SurfaceNoise(p));
    let out = world.add_node(NodeKind::WorldOutput(WorldOutputParams {
        zone_bands: singles(vec![0.0]),
        zone_ids: ids,
    }));
    join(&mut world, noise, 0, out, 0);
    world
}

#[test]
fn empty_zone_ids_fall_back_to_the_band_index() {
    let we = WorldEvaluator::new(terrain_graph(1.0)).with_world(zoned_world(None, vec![]));
    assert_eq!(we.assignable_zone_ids(), vec![0, 1]);
    let we = WorldEvaluator::new(terrain_graph(1.0)).with_world(zoned_world(None, vec![0, 0]));
    assert_eq!(we.assignable_zone_ids(), vec![0]);
}

/// A zone that assigns one biome to every column.
fn zone_const_biome(biome: u16) -> Graph {
    let mut g = Graph::of_kind(GraphKind::Zone);
    let noise = g.add_node(NodeKind::SurfaceNoise(NoiseParams::default()));
    let out = g.add_node(NodeKind::ZoneOutput(ZoneOutputParams {
        biome_bands: Vec::new(),
        biome_ids: vec![biome],
    }));
    join(&mut g, noise, 0, out, 0);
    g
}

#[test]
fn each_column_takes_its_biome_from_its_own_zone() {
    let ctx = EvalContext::new(11, at(1, 0, -2));
    let b0 = || terrain_graph_mat(5.0, MaterialId(1));
    let we = WorldEvaluator::new(b0())
        .with_world(zoned_world(Some(0.2), vec![0, 1]))
        .with_zones(vec![(0, zone_const_biome(0)), (1, zone_const_biome(1))])
        .with_biomes(vec![(0, b0()), (1, terrain_graph_mat(5.0, MaterialId(2)))])
        .with_cross_graph_resolved();
    let eval = evaluate_chunk(&we, ctx).unwrap();
    let zones = eval.zone_ids.clone().expect("the World graph assigns zones");
    let biomes = eval.biome_ids.clone().expect("the zone graphs assign biomes");
    assert!(
        zones.data().iter().any(|&z| z == 0) && zones.data().iter().any(|&z| z == 1),
        "the test chunk must straddle a zone border, or it asserts nothing"
    );
    for z in 0..CHUNK_DIM {
        for x in 0..CHUNK_DIM {
            assert_eq!(
                biomes.get(x, z),
                zones.get(x, z),
                "column ({x},{z}) must take its biome from its own zone's table"
            );
            let expected = if zones.get(x, z) == 0 { MaterialId(1) } else { MaterialId(2) };
            let v = eval.terrain.get(x, 0, z);
            assert_ne!(v, Voxel::empty(), "both biomes are solid");
            assert_eq!(v.material, expected, "material follows the column's zone");
        }
    }
}

/// A biome, solid everywhere, whose density runs through a library.
fn library_density_biome() -> (Graph, NodeId, HashMap<u32, LibraryKernel>) {
    let cave_id = LibraryGraphId(0);
    let mut lib = Graph::of_kind(GraphKind::Library);
    lib.boundary = GraphBoundary {
        inputs: vec![BoundaryPort::new("position".to_string(), PinType::Vec3)],
        outputs: vec![BoundaryPort::new("density".to_string(), PinType::Density)],
    };
    let mut registry = LibraryGraphRegistry::new();
    registry.insert(cave_id, lib);

    let mut g = Graph::new();
    let pos = g.add_node(NodeKind::WorldPos(WorldPosParams::default()));
    let cave = g.add_node(NodeKind::LibraryRef(LibraryRefParams {
        library: cave_id,
        ..LibraryRefParams::default()
    }));
    g.resolve_library_refs(&registry);
    let one = g.add_node(NodeKind::Constant(ConstantParams { value: single(1.0) }));
    let solid = g.add_node(NodeKind::Max(MaxParams::default()));
    let layer = g.add_node(NodeKind::Layer(LayerParams {
        bands: vec![(MaterialId(6), 1), (MaterialId(3), 3)],
        fill: MaterialId(1),
    }));
    let out = g.add_node(NodeKind::DensityOutput(DensityOutputParams::default()));
    join(&mut g, pos, 0, cave, 0);
    join(&mut g, one, 0, solid, 0);
    join(&mut g, cave, 0, solid, 1);
    join(&mut g, solid, 0, layer, 0);
    join(&mut g, solid, 0, out, 0);
    join(&mut g, layer, 0, out, 1);
    (g, solid, HashMap::from([(cave_id.0, LibraryKernel::StandardCaveNoise)]))
}

#[test]
fn a_library_ref_samples_pointwise_above_the_chunk_window() {
    let (graph, solid, kernels) = library_density_biome();
    let ctx = EvalContext::new(3, at(0, 0, 0));
    let mut e = Evaluator::new(&graph, ctx).with_library_kernels(&kernels);
    evaluate(&mut e, &ctx).unwrap();
    let above = sample_density(&e, &ctx, solid, 5, CHUNK_DIM + 2, 7)
        .expect("a library in the chain must sample above the window");
    assert!(above >= 1.0, "the density is at least 1.0 everywhere");
}

fn library_chunk(ctx: EvalContext) -> ChunkEvaluation {
    let (graph, _, kernels) = library_density_biome();
    let we = WorldEvaluator::new(graph).with_library_kernels(kernels);
    evaluate_chunk(&we, ctx).expect("evaluates with kernels attached")
}

#[test]
fn a_library_in_the_density_chain_keeps_chunk_y_seam_material_continuous() {
    let eval = library_chunk(EvalContext::new(3, at(0, 0, 0)));
    let top = CHUNK_DIM - 1;
    for z in [0usize, 13, 31] {
        for x in [0usize, 17, 31] {
            let v = eval.terrain.get(x, top, z);
            assert_ne!(v, Voxel::empty(), "the column is solid through the window top");
            assert_eq!(v.material, MaterialId(1), "column ({x},{z}) must read as buried fill");
        }
    }
}

#[test]
fn a_library_density_chain_is_deterministic() {
    let ctx = EvalContext::new(3, at(-2, 0, 5));
    let (a, b) = (library_chunk(ctx), library_chunk(ctx));
    for i in 0..VOLUME {
        assert_eq!(a.terrain.get_index(i), b.terrain.get_index(i), "cell {i} diverged");
    }
}

#[test]
fn inspect_column_reports_what_generation_used() {
    let ctx = EvalContext::new(7, at(1, 0, 1));
    let we = two_biomes();
    let eval = evaluate_chunk(&we, ctx).unwrap();
    let biomes = eval.biome_ids.clone().expect("the zone graph assigns biomes");
    assert!(
        biomes.data().iter().any(|&b| b == 0) && biomes.data().iter().any(|&b| b == 1),
        "the test chunk must contain both biomes, or this asserts nothing"
    );
    for (x, z) in [(0usize, 0usize), (17, 5), (31, 31)] {
        let r = inspect(&we, ctx, x, z, 0, 1).unwrap();
        assert_eq!(r.biome_id, biomes.get(x, z), "column ({x},{z})");
        let d = (r.border_distance_squared as f32).sqrt();
        assert!((0.0..=r.fade_radius as f32).contains(&d), "capped at the fade radius");
    }
}

#[test]
fn a_report_lists_filled_cells_from_the_top() {
    let ctx = EvalContext::new(7, at(1, 0, 1));
    let we = two_biomes();
    for (x, z) in [(0usize, 0usize), (17, 5), (31, 31)] {
        let r = inspect(&we, ctx, x, z, 0, 1).unwrap();
        assert!(!r.voxels.is_empty() && r.voxels.len() <= 10);
        assert_eq!(r.surface_y, Some(r.voxels[0].0));
        assert!(r.voxels.windows(2).all(|w| w[0].0 > w[1].0), "the rows must fall");
        assert!(r.border_distance_squared <= (r.fade_radius * r.fade_radius) as u32);
    }
}

#[test]
fn climate_comes_in_order_of_name() {
    let mut g = Graph::of_kind(GraphKind::World);
    for name in ["wet", "cold", "high"] {
        let n = g.add_node(NodeKind::SurfaceNoise(NoiseParams::default()));
        let o = g.add_node(NodeKind::GraphOutput(GraphOutputParams { name: name.to_string() }));
        join(&mut g, n, 0, o, 0);
    }
    let we = WorldEvaluator::new(Graph::new()).with_world(g);
    let names: Vec<String> = we.climate_channels(3).into_iter().map(|c| c.name).collect();
    assert_eq!(names, ["cold", "high", "wet"]);
}

#[test]
fn a_biome_without_a_density_is_not_evaluated() {
    let mut g = Graph::new();
    let lone = g.add_node(NodeKind::Add(AddParams::default()));
    let ctx = EvalContext::new(7, at(0, 0, 0));
    let mut e = Evaluator::new(&g, ctx);
    assert!(evaluate(&mut e, &ctx).is_err(), "{lone:?} lacks its inputs");
    let r = inspect(&WorldEvaluator::new(g.clone()), ctx, 3, 4, 0, 1).unwrap();
    assert!(r.density.is_empty() && r.voxels.is_empty());
    assert_eq!(r.surface_y, None);
}

#[test]
fn a_pond_without_a_level_is_not_evaluated() {
    let mut g = Graph::new();
    g.add_node(NodeKind::Add(AddParams::default()));
    g.add_node(NodeKind::FluidOutput(FluidOutputParams::default()));
    let ctx = EvalContext::new(7, at(0, 0, 0));
    let r = inspect(&WorldEvaluator::new(g), ctx, 3, 4, 0, 1).unwrap();
    assert_eq!(r.pond_level, None);
}

#[test]
fn the_first_column_that_fails_fails_a_scan_or_a_map() {
    let chunk = at(0, 0, 0);
    let asked = |wx: i32, wz: i32| -> EvalResult<u16> {
        if (wx, wz) == (4, -2) {
            Err(EvalError::Cyclic)
        } else if wz > -2 {
            Err(EvalError::InvalidGraph(1))
        } else {
            Ok(0)
        }
    };
    assert_eq!(analyze_borders(asked, chunk, 2).err(), Some(EvalError::Cyclic));
    assert_eq!(analyze_borders(asked, chunk, 1).err(), Some(EvalError::InvalidGraph(1)));

    let mut zone = Graph::of_kind(GraphKind::Zone);
    let out = zone.add_node(NodeKind::ZoneOutput(ZoneOutputParams::default()));
    let we = WorldEvaluator::new(Graph::new()).with_zone(zone);
    assert_eq!(
        we.sample_id_map(7, 0, 0, 1, 2, &column_noise).err(),
        Some(EvalError::MissingInput { node: out, pin: 0 })
    );
    assert_eq!(we.sample_id_map(7, 0, 0, 1, 0, &column_noise).unwrap().biome, Vec::<u16>::new());
}

#[test]
fn the_map_agrees_with_the_column_inspector() {
    let we = two_biomes();
    let step = 4;
    let dim = 24;
    let map = we.sample_id_map(7, 0, 0, step, dim, &column_noise).unwrap();
    assert!(
        map.biome.iter().any(|&b| b == 0) && map.biome.iter().any(|&b| b == 1),
        "the sampled area must contain both biomes, or this asserts nothing"
    );
    for (gx, gz) in [(0usize, 0usize), (7, 3), (23, 23)] {
        let (wx, wz) = (gx as i32 * step, gz as i32 * step);
        let ctx = EvalContext::new(7, at(wx.div_euclid(32), 0, wz.div_euclid(32)));
        let (lx, lz) = (wx.rem_euclid(32) as usize, wz.rem_euclid(32) as usize);
        let r = inspect(&we, ctx, lx, lz, 0, 1).unwrap();
        assert_eq!(map.biome[gx + gz * dim], r.biome_id, "map vs inspector at ({wx},{wz})");
        assert_eq!(map.zone[gx + gz * dim], r.zone_id);
        assert_eq!(
            we.sample_biome_at(7, wx, wz, &column_noise).unwrap(),
            r.biome_id,
            "pointwise lookup vs inspector at ({wx},{wz})"
        );
    }
}

/// A bar, wide in X, anchored at its middle.
fn bar_blueprint() -> ResolvedBlueprint {
    ResolvedBlueprint {
        name: "bar".to_string(),
        anchor: at(3, 0, 0),
        cells: (0..7)
            .map(|x| BlueprintCell { at: at(x, 0, 0), voxel: Voxel::cube(MaterialId(2)) })
            .collect(),
        destruction: DestructionPolicy::Destroy,
        protected_volume: false,
    }
}

fn zone_with_structure() -> Graph {
    let mut g = zone_const_biome(0);
    g.add_node(NodeKind::PlaceStructure(PlaceStructureParams {
        blueprint: "bar".to_string(),
        cell_size: 8,
        density: single(1.0),
        seed: 4,
        random_yaw: false,
        surface_offset: 0,
        biomes: Vec::new(),
        canopy: None,
        resolved: Some(bar_blueprint()),
    }));
    g
}

#[test]
fn a_structure_crossing_a_chunk_seam_is_stamped_whole_by_the_two_chunks() {
    let seed = 31;
    let we = WorldEvaluator::new(terrain_graph_mat(1.0, MaterialId(1)))
        .with_zones(vec![(0, zone_with_structure())])
        .with_biomes(vec![(0, terrain_graph_mat(1.0, MaterialId(1)))])
        .with_cross_graph_resolved()
        .with_chunk_y_range(0, 1);
    let ctx0 = EvalContext::new(seed, at(0, 0, 0));
    let ctx1 = EvalContext::new(seed, at(1, 0, 0));
    let c0 = evaluate_chunk(&we, ctx0).unwrap();
    let c1 = evaluate_chunk(&we, ctx1).unwrap();

    let sources = we.structure_sources().unwrap();
    let cache = ColumnCache::new();
    let upstream = we.upstream_for(ctx1, &cache);
    let features = features_of(&we, ctx1, &sources, &upstream).unwrap();
    let bar = bar_blueprint();

    let mut checked_left = 0usize;
    let mut checked_right = 0usize;
    for feature in &features {
        let cells: Vec<IVec3> = bar
            .cells
            .iter()
            .map(|c| {
                at(
                    feature.anchor.x + c.at.x - bar.anchor.x,
                    feature.anchor.y + c.at.y - bar.anchor.y,
                    feature.anchor.z + c.at.z - bar.anchor.z,
                )
            })
            .collect();
        let crosses = cells.iter().any(|c| c.x < 32) && cells.iter().any(|c| c.x >= 32);
        if !crosses {
            continue;
        }
        for cell in cells {
            if cell.y < 0 || cell.y >= 32 || cell.z < 0 || cell.z >= 32 {
                continue;
            }
            let (y, z) = (cell.y as usize, cell.z as usize);
            if (0..32).contains(&cell.x) {
                assert_eq!(
                    c0.terrain.get(cell.x as usize, y, z).material,
                    MaterialId(2),
                    "chunk (0,0,0) dropped its half of a structure at {cell:?}"
                );
                checked_left += 1;
            } else if (32..64).contains(&cell.x) {
                assert_eq!(
                    c1.terrain.get((cell.x - 32) as usize, y, z).material,
                    MaterialId(2),
                    "chunk (1,0,0) dropped its half of a structure at {cell:?}"
                );
                checked_right += 1;
            }
        }
    }
    assert!(
        checked_left > 0 && checked_right > 0,
        "no structure straddled the seam ({checked_left} left, {checked_right} right)"
    );
}

#[test]
fn a_biome_density_chain_reads_the_world_graph() {
    let (world, _) = climate_world();
    let mut biome = Graph::new();
    let gr = biome.add_node(world_ref());
    let s2d = biome.add_node(NodeKind::SurfaceToDensity(SurfaceToDensityParams::default()));
    let mat = biome.add_node(NodeKind::ConstantMaterial(ConstantMaterialParams::default()));
    let out = biome.add_node(NodeKind::DensityOutput(DensityOutputParams::default()));
    let we = WorldEvaluator::new(biome).with_world(world).with_cross_graph_resolved();
    let mut biome = we.biome_graph().clone();
    join(&mut biome, gr, 0, s2d, 0);
    join(&mut biome, s2d, 0, out, 0);
    join(&mut biome, mat, 0, out, 1);
    let we = WorldEvaluator::new(biome)
        .with_world(we.world_graph().clone())
        .with_cross_graph_resolved();

    let ctx = EvalContext::new(7, at(3, 0, -2));
    let chunk = evaluate_chunk(&we, ctx).expect("a biome GraphRef must evaluate");
    let point = ColumnEvaluator::new(we.world_graph(), ctx);
    let nodes = &we.world_graph().nodes;
    let climate_node = nodes
        .keys()
        .into_iter()
        .find(|id| matches!(nodes.get(*id).unwrap().kind, NodeKind::GraphOutput(_)))
        .unwrap();
    let dim = CHUNK_DIM as i32;
    let (mut solid, mut air) = (0, 0);
    for z in 0..CHUNK_DIM {
        for x in 0..CHUNK_DIM {
            let wx = ctx.chunk.x * dim + x as i32;
            let wz = ctx.chunk.z * dim + z as i32;
            let climate = match sample_column(&point, climate_node, wx, wz).unwrap() {
                ColumnSample::Surface(v) => float(v),
                ColumnSample::Id(_) => panic!("expected surface"),
            };
            let filled = chunk.terrain.get(x, 0, z).material != MaterialId(0);
            assert_eq!(filled, climate > 0.0, "column ({wx}, {wz}) climate {climate}");
            if filled {
                solid += 1;
            } else {
                air += 1;
            }
        }
    }
    assert!(solid > 0 && air > 0, "expected a mix, got {solid} solid / {air} air");
}

#[test]
fn fade_kernel_endpoints() {
    assert_eq!(biome_border_fade(0.0, 8.0), 0.5);
    assert_eq!(biome_border_fade(8.0, 8.0), 1.0);
    assert_eq!(biome_border_fade(20.0, 8.0), 1.0);
    assert_eq!(biome_border_fade(4.0, 8.0), 0.75);
    assert_eq!(biome_border_fade(3.0, 0.0), 1.0);
}

#[test]
fn blend_density_lerps() {
    assert_eq!(blend_density(10.0, 20.0, 1.0), 10.0);
    assert_eq!(blend_density(10.0, 20.0, 0.5), 15.0);
    assert_eq!(blend_density(10.0, 20.0, 0.0), 20.0);
}

fn banded_zone(bands: Vec<f32>) -> (Graph, NodeId) {
    let mut g = Graph::new();
    let noise = g.add_node(NodeKind::SurfaceNoise(NoiseParams::default()));
    let out = g.add_node(NodeKind::ZoneOutput(ZoneOutputParams {
        biome_bands: singles(bands),
        ..ZoneOutputParams::default()
    }));
    join(&mut g, noise, 0, out, 0);
    (g, out)
}

fn borders(g: &Graph, out: NodeId, seed: u64, chunk: IVec3, radius: i32) -> BorderScan {
    let eval = ColumnEvaluator::new(g, EvalContext::new(seed, chunk));
    let biome_at = |wx: i32, wz: i32| -> EvalResult<u16> { Ok(column_id_at(&eval, out, wx, wz)) };
    analyze_borders(biome_at, chunk, radius).unwrap()
}

#[test]
fn single_biome_has_no_borders() {
    let (g, out) = banded_zone(vec![]);
    let b = borders(&g, out, 1, at(0, 0, 0), 6);
    assert!(b.distance_squared.iter().all(|&d| d == 36));
    assert!(b.neighbor.data().iter().all(|&n| n == 0));
}

#[test]
fn border_analysis_is_deterministic_and_bounded() {
    let (g, out) = banded_zone(vec![0.0]);
    let chunk = at(2, 0, -1);
    let (a, b) = (borders(&g, out, 9, chunk, 8), borders(&g, out, 9, chunk, 8));
    assert_eq!(a.distance_squared, b.distance_squared);
    assert_eq!(a.neighbor.data(), b.neighbor.data());
    assert!(a.distance_squared.iter().all(|&d| d <= 64));
    assert!(a.neighbor.data().iter().all(|&n| n <= 1));
}

#[test]
fn border_scan_crosses_chunk_boundary_consistently() {
    let (g, out) = banded_zone(vec![0.0]);
    let chunk = at(0, 0, 0);
    let radius = 5;
    let analysis = borders(&g, out, 4, chunk, radius);
    let eval = ColumnEvaluator::new(&g, EvalContext::new(4, chunk));
    let (cx, cz) = (CHUNK_DIM - 1, 0usize);
    let (wx, wz) = (cx as i32, cz as i32);
    let own = column_id_at(&eval, out, wx, wz);
    let mut best = radius * radius;
    let mut nbr = own;
    for dz in -radius..=radius {
        for dx in -radius..=radius {
            let d2 = dx * dx + dz * dz;
            let other = column_id_at(&eval, out, wx + dx, wz + dz);
            if other != own && d2 < best {
                best = d2;
                nbr = other;
            }
        }
    }
    assert_eq!(analysis.distance_squared[cx + cz * CHUNK_DIM], best as u32);
    assert_eq!(analysis.neighbor.get(cx, cz), nbr);
}

/// Solid up to height 15.
fn flat_terrain() -> ChunkBuffer<Voxel> {
    let mut b = ChunkBuffer::uniform(Voxel::empty());
    for z in 0..32 {
        for y in 0..16 {
            for x in 0..32 {
                b.set(x, y, z, Voxel::cube(MaterialId(1)));
            }
        }
    }
    b
}

fn foliage_of(g: &Graph, seed: u64, chunk: IVec3) -> ChunkFoliage {
    evaluate_detail(g, EvalContext::new(seed, chunk), &flat_terrain(), None, 0).unwrap()
}

fn anchor_xz(chunk: IVec3) -> Vec<(u8, u8)> {
    let f = foliage_of(&scattered(7), 42, chunk);
    let mut v: Vec<(u8, u8)> = f
        .scatter
        .iter()
        .flat_map(|b| b.instances.iter())
        .map(|i| (i.anchor[0], i.anchor[2]))
        .collect();
    v.sort_unstable();
    v
}

#[test]
fn empty_detail_graph_produces_empty_foliage() {
    let g = Graph::of_kind(GraphKind::Detail);
    assert!(foliage_of(&g, 0, at(0, 0, 0)).is_empty());
}

#[test]
fn scatter_is_deterministic_and_nonempty() {
    let g = scattered(7);
    let (a, b) = (foliage_of(&g, 42, at(1, 0, 2)), foliage_of(&g, 42, at(1, 0, 2)));
    assert_eq!(a, b, "foliage generation must be deterministic");
    assert!(!a.scatter.is_empty());
    assert!(!a.scatter[0].instances.is_empty());
    assert!(a.scatter[0].instances.iter().all(|i| i.anchor[1] == 15));
}

#[test]
fn paint_covers_surface_columns() {
    let mut g = Graph::of_kind(GraphKind::Detail);
    g.add_node(NodeKind::PaintDensity(PaintDensityParams {
        layer_id: 0,
        species: 1,
        density: 200,
        tint: 0,
    }));
    let f = foliage_of(&g, 0, at(0, 0, 0));
    assert_eq!(f.paint.len(), 1);
    assert!(f.paint[0].texels.iter().all(|t| t.density == 200 && t.species == 1));
}

#[test]
fn scatter_layout_is_world_absolute_not_per_chunk() {
    let a = anchor_xz(at(0, 0, 0));
    let b = anchor_xz(at(1, 0, 0));
    assert!(!a.is_empty() && !b.is_empty(), "both chunks must scatter something");
    assert_ne!(a, b, "adjacent chunks must not share a local scatter layout");
}

#[test]
fn scatter_layout_is_independent_of_chunk_y() {
    let low = anchor_xz(at(0, 0, 0));
    let high = anchor_xz(at(0, 1, 0));
    assert!(!low.is_empty(), "chunk must scatter something");
    assert_eq!(low, high, "XZ candidates must not depend on chunk Y");
}

fn oak() -> TreeSpecies {
    TreeSpecies::default()
}

/// An oak that also fills its crown.
fn crowned() -> TreeSpecies {
    TreeSpecies { crown_attractors: 400, ..TreeSpecies::default() }
}

#[test]
fn the_pipe_model_conserves_cross_section_at_every_fork() {
    let s = Skeleton::derive(11, &oak(), 1.0);
    let mut area = vec![0.0f32; s.nodes.len()];
    for n in &s.nodes {
        if n.parent != NO_PARENT {
            area[n.parent as usize] += n.radius.powf(s.pipe_exp);
        }
    }
    let mut interior = 0;
    for (i, n) in s.nodes.iter().enumerate() {
        if area[i] == 0.0 {
            assert_eq!(n.radius, s.tip_radius, "tip {i} is not at tip radius");
            continue;
        }
        interior += 1;
        let expected = area[i].powf(1.0 / s.pipe_exp);
        assert!((n.radius - expected).abs() < 1e-4, "node {i}: {} vs {expected}", n.radius);
    }
    assert!(interior > 0, "vacuous: the skeleton has no interior nodes");
}

#[test]
fn derivation_is_a_pure_function_of_its_inputs() {
    let a = Skeleton::derive(42, &oak(), 1.0);
    assert_eq!(a, Skeleton::derive(42, &oak(), 1.0));
    assert_ne!(a, Skeleton::derive(43, &oak(), 1.0), "a new seed must give a new tree");
}

#[test]
fn growing_extends_the_frontier_and_moves_nothing() {
    let young = Skeleton::derive(5, &crowned(), 0.4);
    let old = Skeleton::derive(5, &crowned(), 1.0);
    assert!(young.nodes.len() < old.nodes.len(), "age must change the node count");
    for (i, (y, o)) in young.nodes.iter().zip(old.nodes.iter()).enumerate() {
        assert_eq!(y.parent, o.parent, "node {i} was reparented by growth");
        assert_eq!(y.pos, o.pos, "node {i} moved during growth");
    }
    assert!(
        young.nodes.iter().zip(old.nodes.iter()).any(|(y, o)| y.radius != o.radius),
        "growth must thicken something"
    );
}

#[test]
fn reach_and_height_bound_every_node() {
    let s = Skeleton::derive(9, &oak(), 1.0);
    for (i, n) in s.nodes.iter().enumerate() {
        let horiz = (n.pos.x * n.pos.x + n.pos.z * n.pos.z).sqrt();
        assert!(horiz <= s.reach + 1e-4, "node {i} lies outside reach");
        assert!(n.pos.y <= s.height + 1e-4, "node {i} lies above height");
    }
    assert!(s.reach > 0.0 && s.height > 0.0);
}

#[test]
fn colonization_fills_the_crown_past_what_the_turtle_builds() {
    let turtle = Skeleton::derive(13, &oak(), 1.0);
    let full = Skeleton::derive(13, &crowned(), 1.0);
    assert!(turtle.nodes.len() < MAX_NODES, "the turtle spent the whole budget");
    assert!(full.nodes.len() > turtle.nodes.len(), "colonization added nothing");
    for (i, (a, b)) in turtle.nodes.iter().zip(full.nodes.iter()).enumerate() {
        assert_eq!(a.pos, b.pos, "colonization moved turtle node {i}");
        assert_eq!(a.parent, b.parent, "colonization reparented turtle node {i}");
    }
    for (i, n) in full.nodes.iter().enumerate().skip(turtle.nodes.len()) {
        assert!((n.parent as usize) < i, "colonized node {i} has parent {}", n.parent);
    }
}

#[test]
fn colonization_reaches_into_the_crown() {
    let turtle_reach = Skeleton::derive(21, &oak(), 1.0).reach;
    let full_reach = Skeleton::derive(21, &crowned(), 1.0).reach;
    assert!(full_reach > turtle_reach, "{full_reach} vs {turtle_reach}");
}

#[test]
fn the_authored_trunk_radius_is_what_the_root_gets() {
    for (attractors, order) in [(0u16, 1u8), (0, 2), (400, 1)] {
        let mut sp = oak();
        sp.crown_attractors = attractors;
        sp.max_order = order;
        sp.trunk_radius = single(1.4);
        let s = Skeleton::derive(3, &sp, 1.0);
        assert!(
            (s.nodes[0].radius - 1.4).abs() < 1e-3,
            "attractors {attractors}, order {order}: root is {} not 1.4",
            s.nodes[0].radius
        );
        assert!(s.tip_radius < s.nodes[0].radius, "tips must be thinner than the trunk");
    }
}

#[test]
fn every_lobe_hangs_from_a_limb_terminal() {
    let s = Skeleton::derive(1, &oak(), 1.0);
    assert!(!s.lobes.is_empty(), "vacuous: the default species grew no canopy");
    for l in &s.lobes {
        let node = &s.nodes[l.anchor_node as usize].limb;
        let deeper =
            s.nodes.iter().any(|n| n.limb.chain == node.chain && n.limb.chain_idx > node.chain_idx);
        assert!(!deeper, "lobe anchored mid-limb rather than at its terminal");
    }
}

#[test]
fn lobes_keep_the_separation_that_merging_enforces() {
    let sp = oak();
    for seed in 0..8u64 {
        let s = Skeleton::derive(seed, &sp, 1.0);
        for (i, a) in s.lobes.iter().enumerate() {
            for b in s.lobes.iter().skip(i + 1) {
                let sep = (a.center - b.center).length();
                assert!(
                    sep >= float(sp.lobe_separation) * (a.radius + b.radius) - 1e-4,
                    "seed {seed}: lobes {sep:.3} apart, closer than the rule allows"
                );
            }
        }
    }
}

#[test]
fn the_canopy_has_uneven_sizes() {
    let s = Skeleton::derive(4, &oak(), 1.0);
    assert!(s.lobes.len() >= 3, "only {} lobes", s.lobes.len());
    let big = s.lobes.iter().map(|l| l.radius).fold(0.0f32, f32::max);
    let small = s.lobes.iter().map(|l| l.radius).fold(f32::MAX, f32::min);
    assert!(big > small * 1.2, "lobe radii {small:.2}..{big:.2} are near-uniform");
}

#[test]
fn crown_extent_covers_the_lobes_not_just_the_branches() {
    let s = Skeleton::derive(6, &oak(), 1.0);
    for l in &s.lobes {
        let r = l.radii();
        let horiz = (l.center.x * l.center.x + l.center.z * l.center.z).sqrt();
        assert!(horiz + r.x.max(r.z) <= s.reach + 1e-4, "a lobe lies outside reach");
        assert!(l.center.y + r.y <= s.height + 1e-4, "a lobe lies above height");
    }
}

#[test]
fn a_species_with_no_lobes_is_a_bare_skeleton() {
    let bare = TreeSpecies { max_lobes: 0, ..oak() };
    let s = Skeleton::derive(1, &bare, 1.0);
    assert!(s.lobes.is_empty());
    assert!(s.reach < Skeleton::derive(1, &oak(), 1.0).reach);
}

fn occupied(sp: &TreeSpecies, seed: u64, anchor: GIVec3) -> HashSet<GIVec3> {
    let s = Skeleton::derive(seed, sp, 1.0);
    let root = anchor.as_vec3() + GVec3::new(0.5, 1.0, 0.5);
    let mut out = HashSet::new();
    s.voxelize(root, |c| {
        out.insert(c);
    });
    out
}

#[test]
fn the_trunk_voxelizes_and_the_twigs_do_not() {
    let cells = occupied(&oak(), 1, GIVec3::ZERO);
    assert!(!cells.is_empty(), "the tree occupies nothing at all");
    let nodes = Skeleton::derive(1, &oak(), 1.0).nodes.len();
    assert!(cells.len() < nodes, "{} cells for {nodes} nodes", cells.len());
    assert!(cells.contains(&GIVec3::new(0, 1, 0)), "nothing sits on the anchor");
}

#[test]
fn a_thicker_trunk_occupies_more() {
    let wide = |r: f32| TreeSpecies { trunk_radius: single(r), ..oak() };
    let thin = occupied(&wide(0.4), 1, GIVec3::ZERO);
    let thick = occupied(&wide(2.0), 1, GIVec3::ZERO);
    assert!(thick.len() > thin.len() * 2, "{} vs {}", thick.len(), thin.len());
}

#[test]
fn voxelization_is_exactly_translation_invariant() {
    let at_origin = occupied(&oak(), 5, GIVec3::ZERO);
    let offset = GIVec3::new(37, -11, 204);
    let moved = occupied(&oak(), 5, offset);
    let expected: HashSet<GIVec3> = at_origin.iter().map(|c| *c + offset).collect();
    assert_eq!(moved, expected, "wood moved by more than the translation");
}

#[test]
fn every_wood_cell_lies_inside_the_reported_extent() {
    let s = Skeleton::derive(9, &oak(), 1.0);
    for c in &occupied(&oak(), 9, GIVec3::ZERO) {
        let d = c.as_vec3() + GVec3::splat(0.5) - GVec3::new(0.5, 1.0, 0.5);
        let horiz = (d.x * d.x + d.z * d.z).sqrt();
        assert!(horiz <= s.reach + 1.0, "cell {c} at {horiz:.2} outside reach {:.2}", s.reach);
        assert!(d.y <= s.height + 1.0, "cell {c} above height");
    }
}

fn flat_probe(x: i32, z: i32) -> Option<ColumnProbe> {
    let surface_y = 8 + x.rem_euclid(3) - z.rem_euclid(2);
    Some(ColumnProbe { zone_id: 0, biome_id: 0, surface_y })
}

/// A tree with a thick trunk, in every cell.
fn tree_source(name: &str) -> FeatureSource {
    FeatureSource {
        cell_size: 16,
        density: single(1.0),
        seed: 3,
        zones: Vec::new(),
        biomes: Vec::new(),
        random_yaw: false,
        surface_offset: 0,
        payload: FeaturePayload::Tree(TreeSource {
            name: name.to_string(),
            species: TreeSpecies { trunk_radius: single(2.0), ..TreeSpecies::default() },
            wood: MaterialId(9),
            age: single(1.0),
        }),
        canopy: None,
    }
}

fn tree_in(source: &FeatureSource) -> &TreeSource {
    match &source.payload {
        FeaturePayload::Tree(t) => t,
        FeaturePayload::Blueprint(_) => unreachable!(),
    }
}

fn with_trees(ctx: EvalContext, sources: &[FeatureSource], features: &[Feature]) -> ChunkBuffer<Voxel> {
    let base: ChunkBuffer<Voxel> = ChunkBuffer::uniform(Voxel::empty());
    let grown: Vec<Vec<IVec3>> =
        features.iter().map(|f| wood_cells(tree_in(&sources[f.source]), f)).collect();
    stamp_features(&base, ctx, sources, features, &grown)
}

#[test]
fn a_tree_source_stamps_wood() {
    let ctx = EvalContext::new(11, at(0, 0, 0));
    let sources = [tree_source("oak")];
    let features = derive_features(ctx, &sources, flat_probe);
    assert!(!features.is_empty(), "vacuous: no tree was derived");
    let out = with_trees(ctx, &sources, &features);
    let wood = (0..VOLUME).filter(|&i| out.get_index(i).material == MaterialId(9)).count();
    assert!(wood > 0, "a tree source stamped no wood");
}

#[test]
fn a_tree_emits_capsules_owned_by_the_chunk_holding_their_thick_end() {
    let ctx = EvalContext::new(3, at(0, 0, 0));
    let sources = [tree_source("oak")];
    let features = derive_features(ctx, &sources, flat_probe);
    assert!(!features.is_empty(), "vacuous: no tree was derived");
    let drawn: Vec<BranchSegment> =
        features.iter().flat_map(|f| capsules(tree_in(&sources[f.source]), f, &ctx)).collect();
    assert!(!drawn.is_empty(), "a tree emitted no capsules");
    for s in &drawn {
        let owner = s.a.floor().as_ivec3();
        let inside = 0..CHUNK_DIM as i32;
        assert!(
            inside.contains(&owner.x) && inside.contains(&owner.y) && inside.contains(&owner.z),
            "capsule rooted at {:?} is outside the owning window",
            s.a
        );
        assert!(s.ra >= s.rb, "a capsule must taper away from the trunk");
        assert_ne!(s.a, s.b, "a capsule must have length");
    }
}

#[test]
fn a_tree_crossing_a_chunk_border_is_whole() {
    let sources = [tree_source("oak")];
    let (left_c, right_c) = (at(0, 0, 0), at(1, 0, 0));
    let side = CHUNK_DIM as i32;
    let local = |c: &IVec3, chunk: IVec3| {
        at(c.x - chunk.x * side, c.y - chunk.y * side, c.z - chunk.z * side)
    };
    let inside = |c: IVec3| {
        (0..side).contains(&c.x) && (0..side).contains(&c.y) && (0..side).contains(&c.z)
    };
    let mut crossers = 0usize;
    let mut checked = 0usize;
    for seed in 0..12u64 {
        let left = EvalContext::new(seed, left_c);
        let right = EvalContext::new(seed, right_c);
        let seen = derive_features(left, &sources, flat_probe);
        let out_l = with_trees(left, &sources, &seen);
        let out_r = with_trees(right, &sources, &derive_features(right, &sources, flat_probe));
        for feature in &seen {
            let cells = wood_cells(tree_in(&sources[feature.source]), feature);
            let hits = |chunk: IVec3| cells.iter().any(|c| inside(local(c, chunk)));
            if !(hits(left_c) && hits(right_c)) {
                continue;
            }
            crossers += 1;
            for cell in &cells {
                for (chunk, out) in [(left_c, &out_l), (right_c, &out_r)] {
                    let l = local(cell, chunk);
                    if !inside(l) {
                        continue;
                    }
                    assert_eq!(
                        out.get(l.x as usize, l.y as usize, l.z as usize).material,
                        MaterialId(9),
                        "seed {seed}: a chunk is missing a cell of a straddling trunk"
                    );
                    checked += 1;
                }
            }
        }
    }
    assert!(crossers > 0, "vacuous: no tree reached into both windows at any seed");
    assert!(checked > 0, "vacuous: nothing was actually compared");
}
