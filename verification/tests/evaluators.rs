//! The evaluators, run with floating-point arithmetic: columns, fields, single values,
//! scattering and rivers. The arithmetic is a copy of the application's, so these tests
//! show what the library hands out and takes in, not the application itself.
use fastnoise_lite::{FastNoiseLite, FractalType as LiteFractal, NoiseType};
use nodegraph::cache::{CachedOutput, EvalCache};
use nodegraph::chunk::CHUNK_DIM;
use nodegraph::column::ColumnField;
use nodegraph::column_cache::ColumnCache;
use nodegraph::column_eval::{ColumnEvaluator, ColumnSample};
use nodegraph::context::EvalContext;
use nodegraph::edge::PinRef;
use nodegraph::eval::{Evaluator, FillWork};
use nodegraph::eval_error::{EvalError, EvalResult};
use nodegraph::eval_model::SampleStep;
use nodegraph::field::{ScalarField, Vec3, Vec3Field};
use nodegraph::graph::Graph;
use nodegraph::heightmap::ascii_heightmap;
use nodegraph::ids::{GraphKind, GraphRefTarget};
use nodegraph::node::NodeKind;
use nodegraph::operation::{NoiseFamily, NoiseSource, ScalarOp};
use nodegraph::params::{
    AbsParams, AddParams, Axis, BiomeParamParams, ClampParams, ConstantMaterialParams,
    ConstantParams, CurveMapperParams, DensityOutputParams, DomainWarpParams, FractalType,
    GraphOutputParams, GraphRefParams, JitteredGridParams, LerpParams, MaxParams, MinParams,
    MultiplyParams, NoiseParams, OutputParams, PoissonDiskParams, RemapParams, RiverParams,
    SubtractParams, SurfaceToDensityParams, ThresholdParams, WorldOutputParams, WorldPosParams,
    YBandParams, ZoneOutputParams,
};
use nodegraph::river::river_links;
use nodegraph::scalar::Single;
use nodegraph::scalar_params::BiomeParams;
use nodegraph::scatter::{ScatterPoint, SplitMix64, draw_in_cell, seed_points};
use nodegraph::slots::NodeId;
use nodegraph::upstream::UpstreamGraphs;
use nodegraph::voxel::IVec3;
use std::sync::Arc;

/// A number of the library, as a floating-point number.
pub fn float(s: Single) -> f32 {
    f32::from_bits(s.to_bits())
}

/// A floating-point number, as the library holds it.
pub fn single(v: f32) -> Single {
    Single::from_bits(v.to_bits())
}

/// The generator of some parameters.
pub fn configured_noise(seed: i32, p: &NoiseParams, family: NoiseFamily) -> FastNoiseLite {
    let mut n = FastNoiseLite::with_seed(seed);
    n.set_noise_type(Some(match family {
        NoiseFamily::Perlin => NoiseType::Perlin,
        NoiseFamily::Simplex => NoiseType::OpenSimplex2,
    }));
    n.set_frequency(Some(float(p.frequency)));
    n.set_fractal_type(Some(match p.fractal_type {
        FractalType::FBm => LiteFractal::FBm,
        FractalType::Ridged => LiteFractal::Ridged,
        FractalType::PingPong => LiteFractal::PingPong,
    }));
    n.set_fractal_octaves(Some(p.octaves as i32));
    n.set_fractal_lacunarity(Some(float(p.lacunarity)));
    n.set_fractal_gain(Some(float(p.gain)));
    n
}

/// Per-column noise at a world column. Floating point, so it stands outside the
/// verified library.
pub fn column_noise(p: NoiseParams, seed: i32, wx: i32, wz: i32) -> Single {
    let n = configured_noise(seed, &p, NoiseFamily::Simplex);
    single(n.get_noise_2d(wx as f32, wz as f32))
}

/// The two generators a warp displaces by.
pub fn warp_noises(p: &DomainWarpParams, seeds: (i32, i32)) -> (FastNoiseLite, FastNoiseLite) {
    let params = NoiseParams {
        seed: p.seed,
        frequency: p.frequency,
        octaves: 3,
        lacunarity: single(2.0),
        gain: single(0.5),
        fractal_type: FractalType::FBm,
    };
    (
        configured_noise(seeds.0, &params, NoiseFamily::Simplex),
        configured_noise(seeds.1, &params, NoiseFamily::Simplex),
    )
}

/// Cave density at a position: rooms joined with tunnels. Floating point, so it
/// stands outside the verified library.
pub fn standard_cave_noise(pos: (f32, f32, f32), seed: i32) -> f32 {
    let mut cells = FastNoiseLite::with_seed(seed);
    cells.set_noise_type(Some(NoiseType::Cellular));
    cells.set_frequency(Some(0.03));
    let mut tunnels = FastNoiseLite::with_seed(seed ^ 0x5CA1_E5CA);
    tunnels.set_noise_type(Some(NoiseType::Perlin));
    tunnels.set_fractal_type(Some(LiteFractal::Ridged));
    tunnels.set_frequency(Some(0.02));
    tunnels.set_fractal_octaves(Some(3));
    cells.get_noise_3d(pos.0, pos.1, pos.2).max(tunnels.get_noise_3d(pos.0, pos.1, pos.2))
}

/// One link from a node to the node it drains into.
#[derive(Clone, Copy, Debug, PartialEq)]
struct Channel {
    a: (f32, f32),
    b: (f32, f32),
    a_elev: f32,
    b_elev: f32,
    a_width: f32,
    b_width: f32,
}

/// What a river does to one column.
#[derive(Copy, Clone, Debug, PartialEq)]
pub struct RiverColumn {
    /// World height below which the channel does not cut.
    pub floor_y: f32,
    /// World height of the water surface.
    pub water_y: f32,
}

/// The channels that reach one chunk.
pub struct RiverNetwork {
    channels: Vec<Channel>,
}

fn elevation(p: &RiverParams, potential: f32) -> f32 {
    let t = (potential * 0.5 + 0.5).clamp(0.0, 1.0);
    float(p.bed_low) + (float(p.bed_high) - float(p.bed_low)) * t
}

fn half_width(p: &RiverParams, potential: f32) -> f32 {
    let t = (potential * 0.5 + 0.5).clamp(0.0, 1.0);
    float(p.max_width) + (float(p.min_width) - float(p.max_width)) * t
}

impl RiverNetwork {
    /// Resolve every channel that can reach a chunk.
    pub fn resolve(ctx: EvalContext, p: &RiverParams) -> Self {
        let noise = configured_noise(
            ctx.noise_seed(p.seed),
            &NoiseParams { frequency: p.potential_frequency, ..NoiseParams::default() },
            NoiseFamily::Simplex,
        );
        let cell = float(p.cell_size);
        let side = CHUNK_DIM as f32;
        let margin = float(p.max_width) + cell;
        let base_x = ctx.chunk.x as f32 * side;
        let base_z = ctx.chunk.z as f32 * side;
        let cx_lo = ((base_x - margin) / cell).floor() as i64;
        let cx_hi = ((base_x + side + margin) / cell).floor() as i64;
        let cz_lo = ((base_z - margin) / cell).floor() as i64;
        let cz_hi = ((base_z + side + margin) / cell).floor() as i64;

        // One ring of nodes beyond the band, so that every node of the band sees
        // all its neighbors.
        let width = (cx_hi - cx_lo + 3) as usize;
        let height = (cz_hi - cz_lo + 3) as usize;
        let mut places = Vec::with_capacity(width * height);
        let mut potentials: Vec<Single> = Vec::with_capacity(width * height);
        for gz in 0..height {
            for gx in 0..width {
                let (cx, cz) = (cx_lo - 1 + gx as i64, cz_lo - 1 + gz as i64);
                let mut rng = SplitMix64::new(ctx.world_cell_seed(p.seed, cx, cz));
                let jx = rng.next_fraction() as f32 / (1u32 << 24) as f32;
                let jz = rng.next_fraction() as f32 / (1u32 << 24) as f32;
                let at = ((cx as f32 + jx) * cell, (cz as f32 + jz) * cell);
                places.push(at);
                potentials.push(single(noise.get_noise_2d(at.0, at.1)));
            }
        }
        let channels = river_links(&potentials, width, height)
            .into_iter()
            .map(|(from, to)| {
                let (a, b) = (float(potentials[from]), float(potentials[to]));
                Channel {
                    a: places[from],
                    b: places[to],
                    a_elev: elevation(p, a),
                    b_elev: elevation(p, b),
                    a_width: half_width(p, a),
                    b_width: half_width(p, b),
                }
            })
            .collect();
        RiverNetwork { channels }
    }

    /// The river's effect on one world column, or `None` outside every channel.
    pub fn sample(&self, p: &RiverParams, wx: f32, wz: f32) -> Option<RiverColumn> {
        let mut best: Option<(f32, f32, f32)> = None;
        for s in &self.channels {
            let ab = (s.b.0 - s.a.0, s.b.1 - s.a.1);
            let len2 = (ab.0 * ab.0 + ab.1 * ab.1).max(1e-6);
            let t = (((wx - s.a.0) * ab.0 + (wz - s.a.1) * ab.1) / len2).clamp(0.0, 1.0);
            let closest = (s.a.0 + ab.0 * t, s.a.1 + ab.1 * t);
            let (dx, dz) = (wx - closest.0, wz - closest.1);
            let dist = (dx * dx + dz * dz).sqrt();
            let width = s.a_width + (s.b_width - s.a_width) * t;
            if dist > width {
                continue;
            }
            let elev = s.a_elev + (s.b_elev - s.a_elev) * t;
            if best.map_or(true, |(d, _, _)| dist < d) {
                best = Some((dist, elev, width));
            }
        }
        let (dist, bank, width) = best?;
        let across = (dist / width.max(1e-6)).clamp(0.0, 1.0);
        let depth = float(p.depth);
        Some(RiverColumn {
            floor_y: bank - depth * (1.0 - across * across),
            water_y: bank - depth * 0.25,
        })
    }

    /// Density after the river cuts: above the channel floor the column is air.
    pub fn carve(&self, p: &RiverParams, at: (f32, f32, f32), density: f32) -> f32 {
        match self.sample(p, at.0, at.2) {
            Some(col) if at.1 > col.floor_y => density.min(-1.0),
            _ => density,
        }
    }

    /// How many channels reach the chunk.
    pub fn len(&self) -> usize {
        self.channels.len()
    }

    /// Whether no channel reaches the chunk.
    pub fn is_empty(&self) -> bool {
        self.channels.is_empty()
    }
}

/// How far beyond a chunk points are scattered, so that what straddles a border is
/// still placed.
pub const PROP_MARGIN: f32 = 12.0;

fn fraction(rng: &mut SplitMix64) -> f32 {
    rng.next_fraction() as f32 / (1u32 << 24) as f32
}

/// Points on a jittered grid of world cells, around one chunk.
pub fn jittered_grid(ctx: &EvalContext, p: &JitteredGridParams) -> Vec<ScatterPoint> {
    let side = CHUNK_DIM as f32;
    let cell = float(p.cell_size).max(0.5);
    let jitter = float(p.jitter).clamp(0.0, 1.0);
    let base_x = ctx.chunk.x as f32 * side;
    let base_z = ctx.chunk.z as f32 * side;
    let low = |base: f32| ((base - PROP_MARGIN) / cell).floor() as i64;
    let high = |base: f32| ((base + side + PROP_MARGIN) / cell).floor() as i64;
    let inside = |v: f32| v >= -PROP_MARGIN && v < side + PROP_MARGIN;
    let mut out = Vec::new();
    for cz in low(base_z)..=high(base_z) {
        for cx in low(base_x)..=high(base_x) {
            let Some(draw) = draw_in_cell(ctx, p.seed, p.density, cx, cz) else { continue };
            let part = |k: u32| k as f32 / (1u32 << 24) as f32;
            let jx = (part(draw.along) - 0.5) * jitter + 0.5;
            let jz = (part(draw.across) - 0.5) * jitter + 0.5;
            let lx = (cx as f32 + jx) * cell - base_x;
            let lz = (cz as f32 + jz) * cell - base_z;
            if inside(lx) && inside(lz) {
                out.push(ScatterPoint {
                    lx: single(lx),
                    lz: single(lz),
                    surface_y: None,
                    seed: draw.seed,
                });
            }
        }
    }
    out
}

/// Poisson-disk samples around one chunk, from a seed.
pub fn poisson_placement(base: u64, radius: f32, k: u32) -> Vec<(f32, f32)> {
    let radius = radius.max(0.5);
    let k = k.max(1);
    let lo = -PROP_MARGIN;
    let span = CHUNK_DIM as f32 + 2.0 * PROP_MARGIN;
    let cell = radius / std::f32::consts::SQRT_2;
    let grid_dim = (span / cell).ceil() as usize + 1;
    let mut grid = vec![usize::MAX; grid_dim * grid_dim];
    let mut samples: Vec<(f32, f32)> = Vec::new();
    let mut active: Vec<usize> = Vec::new();
    let mut rng = SplitMix64::new(base);
    let grid_idx = |x: f32, z: f32| -> usize {
        let gx = (((x - lo) / cell) as usize).min(grid_dim - 1);
        let gz = (((z - lo) / cell) as usize).min(grid_dim - 1);
        gz * grid_dim + gx
    };
    let x0 = lo + fraction(&mut rng) * span;
    let z0 = lo + fraction(&mut rng) * span;
    samples.push((x0, z0));
    grid[grid_idx(x0, z0)] = 0;
    active.push(0);
    while !active.is_empty() {
        let ai = ((fraction(&mut rng) * active.len() as f32) as usize).min(active.len() - 1);
        let (px, pz) = samples[active[ai]];
        let mut found = false;
        for _ in 0..k {
            let ang = fraction(&mut rng) * std::f32::consts::TAU;
            let dist = radius * (1.0 + fraction(&mut rng));
            let nx = px + ang.cos() * dist;
            let nz = pz + ang.sin() * dist;
            if nx < lo || nx >= lo + span || nz < lo || nz >= lo + span {
                continue;
            }
            let gx = ((nx - lo) / cell) as isize;
            let gz = ((nz - lo) / cell) as isize;
            let clear = (-2..=2).all(|dz: isize| {
                (-2..=2).all(|dx: isize| {
                    let (cxi, czi) = (gx + dx, gz + dz);
                    if cxi < 0
                        || czi < 0
                        || cxi as usize >= grid_dim
                        || czi as usize >= grid_dim
                    {
                        return true;
                    }
                    let s = grid[czi as usize * grid_dim + cxi as usize];
                    if s == usize::MAX {
                        return true;
                    }
                    let (sx, sz) = samples[s];
                    (sx - nx) * (sx - nx) + (sz - nz) * (sz - nz) >= radius * radius
                })
            });
            if clear {
                let idx = samples.len();
                samples.push((nx, nz));
                grid[grid_idx(nx, nz)] = idx;
                active.push(idx);
                found = true;
                break;
            }
        }
        if !found {
            active.swap_remove(ai);
        }
    }
    samples
}

/// Poisson-disk points around one chunk, each with its own seed.
pub fn poisson_disk(ctx: &EvalContext, p: &PoissonDiskParams) -> Vec<ScatterPoint> {
    let base = ctx.chunk_world_seed(p.seed);
    let positions = poisson_placement(base, float(p.radius), p.k)
        .into_iter()
        .map(|(x, z)| (single(x), single(z)))
        .collect();
    seed_points(base, &positions)
}

/// Whether a cell has a world coordinate along one axis.
fn fits(chunk: i32, at: usize) -> bool {
    (-0x400_0000..0x400_0000).contains(&chunk)
        && at < 0x4000_0000
        && 32 * chunk as i64 + at as i64 <= i32::MAX as i64
}

/// The world position of a cell of a chunk; `y` may lie beyond the chunk.
pub fn world_pos(ctx: &EvalContext, x: usize, y: usize, z: usize) -> (f32, f32, f32) {
    let c = ctx.chunk;
    assert!(fits(c.x, x) && fits(c.y, y) && fits(c.z, z), "the cell lies outside the world");
    let p = ctx.world_pos(x, y, z);
    (p.x as f32, p.y as f32, p.z as f32)
}

fn plain(v: Vec3) -> (f32, f32, f32) {
    (float(v.x), float(v.y), float(v.z))
}

fn held_vec(v: (f32, f32, f32)) -> Vec3 {
    Vec3 { x: single(v.0), y: single(v.1), z: single(v.2) }
}

/// The cell at a position of a flat field.
fn cell_of(i: usize) -> (usize, usize, usize) {
    (i % CHUNK_DIM, (i / CHUNK_DIM) % CHUNK_DIM, i / (CHUNK_DIM * CHUNK_DIM))
}

fn each_cell(f: impl Fn(usize, usize, usize) -> f32) -> ScalarField {
    let volume = CHUNK_DIM * CHUNK_DIM * CHUNK_DIM;
    ScalarField::from_data(
        (0..volume)
            .map(|i| {
                let (x, y, z) = cell_of(i);
                single(f(x, y, z))
            })
            .collect(),
    )
}

fn sample_curve(stops: &[(f32, f32)], v: f32) -> f32 {
    if stops.is_empty() {
        return v;
    }
    if v <= stops[0].0 {
        return stops[0].1;
    }
    for w in stops.windows(2) {
        let (x0, y0) = w[0];
        let (x1, y1) = w[1];
        if v <= x1 {
            let span = (x1 - x0).abs().max(1e-9);
            let t = ((v - x0) / span).clamp(0.0, 1.0);
            return y0 + (y1 - y0) * t;
        }
    }
    stops[stops.len() - 1].1
}

/// One value of an operation, from its input values.
fn apply(op: &ScalarOp<'_>, v: &[f32], river: Option<(&RiverNetwork, (f32, f32, f32))>) -> f32 {
    match op {
        ScalarOp::Add => v[0] + v[1],
        ScalarOp::Multiply => v[0] * v[1],
        ScalarOp::Subtract => v[0] - v[1],
        ScalarOp::Min => v[0].min(v[1]),
        ScalarOp::Max => v[0].max(v[1]),
        ScalarOp::Carve => v[0].max(-v[1]),
        ScalarOp::Gate => v[0] * v[1].clamp(0.0, 1.0),
        ScalarOp::Lerp => v[0] + (v[1] - v[0]) * v[2],
        ScalarOp::Mix => v[0] + (v[1] - v[0]) * v[2].clamp(0.0, 1.0),
        ScalarOp::Abs => v[0].abs(),
        ScalarOp::Clamp(p) => v[0].clamp(float(p.min), float(p.max)),
        ScalarOp::Remap(p) => {
            // A descending source range stays descending; an empty one is not divided by.
            let run = float(p.src_hi) - float(p.src_lo);
            let span = if run.abs() >= 1e-9 { run } else { 1e-9 };
            let scale = (float(p.dst_hi) - float(p.dst_lo)) / span;
            float(p.dst_lo) + (v[0] - float(p.src_lo)) * scale
        }
        ScalarOp::Threshold(p) => {
            if v[0] >= float(p.threshold) {
                1.0
            } else {
                0.0
            }
        }
        ScalarOp::Curve(p) => {
            let stops: Vec<(f32, f32)> =
                p.stops.iter().map(|s| (float(s.0), float(s.1))).collect();
            sample_curve(&stops, v[0])
        }
        ScalarOp::River(p) => match river {
            Some((net, at)) => net.carve(p, at, v[0]),
            None => v[0],
        },
    }
}

fn axis_of(at: (f32, f32, f32), axis: Axis) -> f32 {
    match axis {
        Axis::X => at.0,
        Axis::Y => at.1,
        Axis::Z => at.2,
    }
}

fn in_band(y: f32, p: &YBandParams) -> f32 {
    if y >= float(p.min) && y < float(p.max) {
        1.0
    } else {
        0.0
    }
}

fn noise_at(source: &NoiseSource, seed: i32, p: (f32, f32, f32)) -> f32 {
    let n = configured_noise(seed, &source.params, source.family);
    if source.flat {
        n.get_noise_2d(p.0, p.2)
    } else {
        n.get_noise_3d(p.0, p.1, p.2)
    }
}

fn fill_noise(
    ctx: &EvalContext,
    source: &NoiseSource,
    seed: i32,
    positions: Option<&Vec3Field>,
) -> ScalarField {
    let n = configured_noise(seed, &source.params, source.family);
    let at = |x: usize, y: usize, z: usize| match positions {
        Some(f) => plain(f.get(x, y, z)),
        None => world_pos(ctx, x, y, z),
    };
    // The positions of a column share x and z, so a flat noise has one value there.
    if source.flat {
        let columns: Vec<f32> = (0..CHUNK_DIM * CHUNK_DIM)
            .map(|i| {
                let p = at(i % CHUNK_DIM, 0, i / CHUNK_DIM);
                n.get_noise_2d(p.0, p.2)
            })
            .collect();
        each_cell(|x, _, z| columns[x + z * CHUNK_DIM])
    } else {
        each_cell(|x, y, z| {
            let p = at(x, y, z);
            n.get_noise_3d(p.0, p.1, p.2)
        })
    }
}

fn scalar(field: ScalarField) -> CachedOutput {
    CachedOutput::Scalar(Arc::new(field))
}

/// Carry out the work a fill waits for.
pub fn fill(ctx: &EvalContext, work: &FillWork<'_>) -> CachedOutput {
    match work {
        FillWork::Apply { op, inputs } => {
            let net = match op {
                ScalarOp::River(p) => Some(RiverNetwork::resolve(*ctx, p)),
                _ => None,
            };
            scalar(each_cell(|x, y, z| {
                let v: Vec<f32> = inputs.iter().map(|f| float(f.get(x, y, z))).collect();
                apply(op, &v, net.as_ref().map(|n| (n, world_pos(ctx, x, y, z))))
            }))
        }
        FillWork::Noise { source, seed, positions } => {
            scalar(fill_noise(ctx, source, *seed, positions.as_deref()))
        }
        FillWork::WorldPos => CachedOutput::Vec3(Arc::new(Vec3Field::from_fn(|x, y, z| {
            held_vec(world_pos(ctx, x, y, z))
        }))),
        FillWork::WorldAxis(axis) => {
            scalar(each_cell(|x, y, z| axis_of(world_pos(ctx, x, y, z), *axis)))
        }
        FillWork::YBand(p) => scalar(each_cell(|x, y, z| in_band(world_pos(ctx, x, y, z).1, p))),
        FillWork::Warp { params, seeds, positions } => {
            let (nx, nz) = warp_noises(params, *seeds);
            let amp = float(params.amplitude);
            CachedOutput::Vec3(Arc::new(Vec3Field::from_fn(|x, y, z| {
                let p = plain(positions.get(x, y, z));
                let dx = nx.get_noise_2d(p.0, p.2) * amp;
                let dz = nz.get_noise_2d(p.0, p.2) * amp;
                held_vec((p.0 + dx, p.1, p.2 + dz))
            })))
        }
        FillWork::Cave { seed, positions } => scalar(each_cell(|x, y, z| {
            standard_cave_noise(plain(positions.get(x, y, z)), *seed)
        })),
        FillWork::JitteredGrid(p) => CachedOutput::Positions(Arc::new(jittered_grid(ctx, p))),
        FillWork::PoissonDisk(p) => CachedOutput::Positions(Arc::new(poisson_disk(ctx, p))),
    }
}

/// Run an evaluator to its end, carrying out what it waits for.
pub fn evaluate(ev: &mut Evaluator<'_>, ctx: &EvalContext) -> EvalResult<()> {
    while let Some(pending) = ev.evaluate()? {
        let out = fill(ctx, &pending.work);
        ev.supply(pending.node, out);
    }
    Ok(())
}

/// Run a per-column evaluator to its end, carrying out what it waits for.
pub fn evaluate_columns(ev: &mut ColumnEvaluator<'_>, ctx: &EvalContext) -> EvalResult<()> {
    let dim = CHUNK_DIM as i32;
    while let Some(work) = ev.evaluate()? {
        let data = (0..CHUNK_DIM * CHUNK_DIM)
            .map(|i| {
                let wx = ctx.chunk.x * dim + (i % CHUNK_DIM) as i32;
                let wz = ctx.chunk.z * dim + (i / CHUNK_DIM) as i32;
                column_noise(work.params, work.seed, wx, wz)
            })
            .collect();
        ev.supply(work.node, ColumnField::from_data(data));
    }
    Ok(())
}

enum Slot {
    Number(f32),
    Place((f32, f32, f32)),
}

/// Carry out the steps of one value.
pub fn run_steps(
    ctx: &EvalContext,
    steps: &[SampleStep<'_>],
    x: usize,
    y: usize,
    z: usize,
) -> f32 {
    let at = world_pos(ctx, x, y, z);
    let mut stack: Vec<Slot> = Vec::new();
    let number = |stack: &mut Vec<Slot>| match stack.pop() {
        Some(Slot::Number(v)) => v,
        _ => panic!("a number was expected on the stack"),
    };
    let place = |stack: &mut Vec<Slot>| match stack.pop() {
        Some(Slot::Place(p)) => p,
        _ => panic!("a position was expected on the stack"),
    };
    for step in steps {
        let next = match step {
            SampleStep::Value(v) => Slot::Number(float(*v)),
            SampleStep::Noise { source, seed } => {
                Slot::Number(noise_at(source, *seed, at))
            }
            SampleStep::NoiseAt { source, seed } => {
                let p = place(&mut stack);
                Slot::Number(noise_at(source, *seed, p))
            }
            SampleStep::WorldAxis(axis) => Slot::Number(axis_of(at, *axis)),
            SampleStep::YBand(p) => Slot::Number(in_band(at.1, p)),
            SampleStep::Apply(op) => {
                let mut v: Vec<f32> = (0..op.inputs()).map(|_| number(&mut stack)).collect();
                v.reverse();
                let net = match op {
                    ScalarOp::River(p) => Some(RiverNetwork::resolve(*ctx, p)),
                    _ => None,
                };
                Slot::Number(apply(op, &v, net.as_ref().map(|n| (n, at))))
            }
            SampleStep::Position => Slot::Place(at),
            SampleStep::Warp { params, seeds } => {
                let p = place(&mut stack);
                let (nx, nz) = warp_noises(params, *seeds);
                let amp = float(params.amplitude);
                Slot::Place((
                    p.0 + nx.get_noise_2d(p.0, p.2) * amp,
                    p.1,
                    p.2 + nz.get_noise_2d(p.0, p.2) * amp,
                ))
            }
            SampleStep::Cave { seed } => {
                let p = place(&mut stack);
                Slot::Number(standard_cave_noise(p, *seed))
            }
            SampleStep::Column { params, seed } => {
                let dim = CHUNK_DIM as i32;
                let wx = ctx.chunk.x * dim + x as i32;
                let wz = ctx.chunk.z * dim + z as i32;
                Slot::Number(float(column_noise(*params, *seed, wx, wz)))
            }
        };
        stack.push(next);
    }
    number(&mut stack)
}


/// One column of a per-column graph.
pub fn sample_column(
    ev: &ColumnEvaluator<'_>,
    node: NodeId,
    wx: i32,
    wz: i32,
) -> EvalResult<ColumnSample> {
    let plan = ev.sample_column(node)?;
    Ok(plan.finish(column_noise(plan.params, plan.seed, wx, wz)))
}

/// One value of a scalar node, at a cell that may lie beyond the chunk.
pub fn sample_density(
    ev: &Evaluator<'_>,
    ctx: &EvalContext,
    node: NodeId,
    x: usize,
    y: usize,
    z: usize,
) -> EvalResult<f32> {
    Ok(run_steps(ctx, &ev.sample_density(node)?, x, y, z))
}

fn join(g: &mut Graph, from: NodeId, from_pin: u16, to: NodeId, to_pin: u16) {
    g.connect(PinRef::new(from, from_pin), PinRef::new(to, to_pin)).unwrap();
}

fn constant(g: &mut Graph, value: f32) -> NodeId {
    g.add_node(NodeKind::Constant(ConstantParams { value: single(value) }))
}

/// A climate channel driving a terminal that assigns zones.
fn world_graph() -> (Graph, NodeId, NodeId) {
    let mut g = Graph::new();
    let noise = g.add_node(NodeKind::SurfaceNoise(NoiseParams::default()));
    let out = g.add_node(NodeKind::WorldOutput(WorldOutputParams::default()));
    join(&mut g, noise, 0, out, 0);
    (g, noise, out)
}

/// A climate channel driving a terminal that assigns biomes by bands.
fn zone_graph(bands: Vec<f32>) -> (Graph, NodeId) {
    let mut g = Graph::new();
    let noise = g.add_node(NodeKind::SurfaceNoise(NoiseParams::default()));
    let out = g.add_node(NodeKind::ZoneOutput(ZoneOutputParams {
        biome_bands: bands.into_iter().map(single).collect(),
        ..ZoneOutputParams::default()
    }));
    join(&mut g, noise, 0, out, 0);
    (g, out)
}

fn columns(g: &Graph, ctx: EvalContext) -> ColumnCache {
    let mut e = ColumnEvaluator::new(g, ctx);
    evaluate_columns(&mut e, &ctx).unwrap();
    e.into_cache()
}

fn ids_of(cache: &ColumnCache, node: NodeId) -> Vec<u16> {
    cache.get(node).unwrap().as_id().unwrap().data().to_vec()
}

fn surface_of(cache: &ColumnCache, node: NodeId) -> Vec<Single> {
    cache.get(node).unwrap().as_surface().unwrap().data().to_vec()
}

fn filled(g: &Graph, ctx: EvalContext) -> EvalCache {
    let mut e = Evaluator::new(g, ctx);
    evaluate(&mut e, &ctx).unwrap();
    e.into_cache()
}

fn scalar0(cache: &EvalCache, node: NodeId) -> f32 {
    float(cache.get(node).unwrap().as_scalar().unwrap().get(0, 0, 0))
}

fn at(x: i32, y: i32, z: i32) -> IVec3 {
    IVec3::new(x, y, z)
}

fn reading_world(g: &mut Graph, world: &Graph) -> NodeId {
    let gr = g.add_node(NodeKind::GraphRef(GraphRefParams {
        target: GraphRefTarget::World,
        ..GraphRefParams::default()
    }));
    let wb = world.boundary.clone();
    g.resolve_graph_refs(|t| if t == GraphRefTarget::World { Some(wb.clone()) } else { None });
    gr
}

fn exposed(g: &mut Graph, noise: NoiseParams, name: &str) -> NodeId {
    let n = g.add_node(NodeKind::SurfaceNoise(noise));
    let o = g.add_node(NodeKind::GraphOutput(GraphOutputParams { name: name.to_string() }));
    join(g, n, 0, o, 0);
    o
}

#[test]
fn world_output_assigns_zone_zero_with_no_bands() {
    let (g, _, out) = world_graph();
    let cache = columns(&g, EvalContext::new(7, at(0, 0, 0)));
    assert!(ids_of(&cache, out).iter().all(|&z| z == 0), "no bands => single zone 0");
}

#[test]
fn surface_and_zone_columns_are_deterministic() {
    let (g, noise, out) = world_graph();
    let ctx = EvalContext::new(42, at(1, 0, 2));
    let (a, b) = (columns(&g, ctx), columns(&g, ctx));
    assert_eq!(surface_of(&a, noise), surface_of(&b, noise), "surface field not deterministic");
    assert_eq!(ids_of(&a, out), ids_of(&b, out), "id column not deterministic");
}

#[test]
fn voxel_node_in_column_graph_is_rejected() {
    let mut g = Graph::new();
    g.add_node(NodeKind::Constant(ConstantParams::default()));
    let ctx = EvalContext::new(0, at(0, 0, 0));
    let mut e = ColumnEvaluator::new(&g, ctx);
    assert!(matches!(
        evaluate_columns(&mut e, &ctx),
        Err(EvalError::WrongGraphDomain { .. })
    ));
}

#[test]
fn sample_column_matches_whole_chunk_fill() {
    let (g, noise, _) = world_graph();
    let ctx = EvalContext::new(3, at(2, 0, 1));
    let mut e = ColumnEvaluator::new(&g, ctx);
    evaluate_columns(&mut e, &ctx).unwrap();
    let field = e.cache().get(noise).unwrap().as_surface().unwrap().clone();
    for z in 0..CHUNK_DIM {
        for x in 0..CHUNK_DIM {
            let wx = ctx.chunk.x * CHUNK_DIM as i32 + x as i32;
            let wz = ctx.chunk.z * CHUNK_DIM as i32 + z as i32;
            match sample_column(&e, noise, wx, wz).unwrap() {
                ColumnSample::Surface(v) => assert_eq!(v, field.get(x, z)),
                ColumnSample::Id(_) => panic!("expected surface"),
            }
        }
    }
}

fn id_at(e: &ColumnEvaluator<'_>, node: NodeId, wx: i32, wz: i32) -> u16 {
    match sample_column(e, node, wx, wz).unwrap() {
        ColumnSample::Id(v) => v,
        ColumnSample::Surface(_) => panic!("expected id"),
    }
}

#[test]
fn sample_column_is_chunk_independent() {
    let (g, out) = zone_graph(vec![0.0]);
    let ea = ColumnEvaluator::new(&g, EvalContext::new(5, at(0, 0, 0)));
    let eb = ColumnEvaluator::new(&g, EvalContext::new(5, at(10, 0, -3)));
    for (wx, wz) in [(0, 0), (32, 0), (-1, 5), (1000, -250)] {
        let (a, b) = (id_at(&ea, out, wx, wz), id_at(&eb, out, wx, wz));
        assert_eq!(a, b, "world column ({wx}, {wz}) differs across chunks");
    }
}

#[test]
fn zone_output_assigns_biome_zero_with_no_bands() {
    let (g, out) = zone_graph(vec![]);
    let cache = columns(&g, EvalContext::new(7, at(0, 0, 0)));
    assert!(ids_of(&cache, out).iter().all(|&b| b == 0), "no bands => single biome 0");
}

#[test]
fn zone_output_with_one_band_is_deterministic_and_bounded() {
    let (g, out) = zone_graph(vec![0.0]);
    let ctx = EvalContext::new(9, at(3, 0, -1));
    let (a, b) = (columns(&g, ctx), columns(&g, ctx));
    assert_eq!(ids_of(&a, out), ids_of(&b, out), "biome column not deterministic");
    assert!(ids_of(&a, out).iter().all(|&b| b <= 1), "one band => ids in {{0, 1}}");
}

#[test]
fn graph_output_passes_its_input_through() {
    let mut g = Graph::of_kind(GraphKind::World);
    let noise = g.add_node(NodeKind::SurfaceNoise(NoiseParams::default()));
    let out =
        g.add_node(NodeKind::GraphOutput(GraphOutputParams { name: "climate".to_string() }));
    join(&mut g, noise, 0, out, 0);
    let ctx = EvalContext::new(4, at(1, 0, -2));
    let mut e = ColumnEvaluator::new(&g, ctx);
    evaluate_columns(&mut e, &ctx).unwrap();
    let (a, b) = (surface_of(e.cache(), noise), surface_of(e.cache(), out));
    assert_eq!(a, b, "GraphOutput must pass its input through");
    let wx = ctx.chunk.x * CHUNK_DIM as i32 + 5;
    let wz = ctx.chunk.z * CHUNK_DIM as i32 + 6;
    match sample_column(&e, out, wx, wz).unwrap() {
        ColumnSample::Surface(v) => assert_eq!(v, b[5 + 6 * CHUNK_DIM]),
        ColumnSample::Id(_) => panic!("expected surface"),
    }
}

#[test]
fn graph_ref_reads_upstream_climate() {
    let mut world = Graph::of_kind(GraphKind::World);
    let wo = exposed(&mut world, NoiseParams::default(), "climate");
    world.derive_output_boundary();

    let mut zone = Graph::of_kind(GraphKind::Zone);
    let gr = reading_world(&mut zone, &world);
    let zo = zone.add_node(NodeKind::ZoneOutput(ZoneOutputParams {
        biome_bands: vec![single(0.0)],
        ..ZoneOutputParams::default()
    }));
    join(&mut zone, gr, 0, zo, 0);

    let ctx = EvalContext::new(9, at(2, 0, -1));
    let world_cache = columns(&world, ctx);
    let mut upstream = UpstreamGraphs::new();
    upstream.insert(GraphRefTarget::World, &world, ctx, &world_cache);
    let mut ze = ColumnEvaluator::new(&zone, ctx).with_upstream(&upstream);
    evaluate_columns(&mut ze, &ctx).unwrap();
    let biome = ids_of(ze.cache(), zo);
    for (i, v) in surface_of(&world_cache, wo).iter().enumerate() {
        let expect = if float(*v) >= 0.0 { 1u16 } else { 0 };
        assert_eq!(biome[i], expect, "biome must follow World's climate");
    }
}

#[test]
fn pointwise_and_bulk_read_the_same_graph_ref_output() {
    let mut world = Graph::of_kind(GraphKind::World);
    exposed(&mut world, NoiseParams { seed: 1, ..NoiseParams::default() }, "aridity");
    exposed(
        &mut world,
        NoiseParams { seed: 777, frequency: single(0.05), ..NoiseParams::default() },
        "temperature",
    );
    world.derive_output_boundary();

    let mut zone = Graph::of_kind(GraphKind::Zone);
    let gr = reading_world(&mut zone, &world);
    let zo = zone.add_node(NodeKind::ZoneOutput(ZoneOutputParams {
        biome_bands: vec![single(0.0)],
        ..ZoneOutputParams::default()
    }));
    join(&mut zone, gr, 1, zo, 0);

    let ctx = EvalContext::new(9, at(2, 0, -1));
    let world_cache = columns(&world, ctx);
    let mut upstream = UpstreamGraphs::new();
    upstream.insert(GraphRefTarget::World, &world, ctx, &world_cache);
    let mut ze = ColumnEvaluator::new(&zone, ctx).with_upstream(&upstream);
    evaluate_columns(&mut ze, &ctx).unwrap();
    let bulk = ids_of(ze.cache(), zo);

    let mut disagreements = 0;
    for z in 0..CHUNK_DIM {
        for x in 0..CHUNK_DIM {
            let wx = ctx.chunk.x * CHUNK_DIM as i32 + x as i32;
            let wz = ctx.chunk.z * CHUNK_DIM as i32 + z as i32;
            if id_at(&ze, zo, wx, wz) != bulk[x + z * CHUNK_DIM] {
                disagreements += 1;
            }
        }
    }
    assert_eq!(disagreements, 0, "pointwise disagreed with bulk");
}

#[test]
fn biome_param_reads_sidecar_with_default_fallback() {
    let mut g = Graph::new();
    let bp = g.add_node(NodeKind::BiomeParam(BiomeParamParams {
        name: "scale".to_string(),
        default: single(2.0),
    }));
    let ctx = EvalContext::new(0, at(0, 0, 0));
    assert_eq!(scalar0(&filled(&g, ctx), bp), 2.0, "no sidecar -> node default");

    let mut params = BiomeParams::new();
    params.set("scale".to_string(), single(5.5));
    let mut e = Evaluator::new(&g, ctx).with_biome_params(&params);
    evaluate(&mut e, &ctx).unwrap();
    assert_eq!(scalar0(e.cache(), bp), 5.5, "sidecar value");

    let mut other = BiomeParams::new();
    other.set("other".to_string(), single(9.0));
    let mut e = Evaluator::new(&g, ctx).with_biome_params(&other);
    evaluate(&mut e, &ctx).unwrap();
    assert_eq!(scalar0(e.cache(), bp), 2.0, "missing param -> node default");
}

#[test]
fn density_output_caches_biome_layer() {
    let mut g = Graph::new();
    let d = constant(&mut g, 0.75);
    let m = g.add_node(NodeKind::ConstantMaterial(ConstantMaterialParams::default()));
    let out = g.add_node(NodeKind::DensityOutput(DensityOutputParams::default()));
    join(&mut g, d, 0, out, 0);
    join(&mut g, m, 0, out, 1);
    let cache = filled(&g, EvalContext::new(0, at(0, 0, 0)));
    let (density, material) = cache.get(out).unwrap().as_biome_layer().expect("biome layer");
    assert_eq!(float(density.get(0, 0, 0)), 0.75);
    assert_eq!(material.get(0, 0, 0), ConstantMaterialParams::default().material);
}

fn climate_upstream(ctx: EvalContext) -> (Graph, ColumnCache) {
    let mut w = Graph::of_kind(GraphKind::World);
    exposed(&mut w, NoiseParams::default(), "climate");
    w.derive_output_boundary();
    let cache = columns(&w, ctx);
    (w, cache)
}

fn graph_ref_biome(world: &Graph) -> (Graph, NodeId) {
    let mut b = Graph::new();
    let gr = reading_world(&mut b, world);
    (b, gr)
}

#[test]
fn graph_ref_fills_a_column_broadcast_and_samples_the_same_values() {
    let ctx = EvalContext::new(9, at(2, -1, -3));
    let (world, world_cache) = climate_upstream(ctx);
    let (biome, gr) = graph_ref_biome(&world);
    let mut up = UpstreamGraphs::new();
    up.insert(GraphRefTarget::World, &world, ctx, &world_cache);
    let mut e = Evaluator::new(&biome, ctx).with_upstream(&up);
    evaluate(&mut e, &ctx).unwrap();
    let field = e.cache().get(gr).unwrap().as_scalar().expect("a scalar field");
    let steps = e.sample_density(gr).unwrap();
    for z in 0..CHUNK_DIM {
        for x in 0..CHUNK_DIM {
            let at0 = field.get(x, 0, z);
            let sampled = run_steps(&ctx, &steps, x, 0, z);
            assert_eq!(sampled, float(at0), "pointwise disagreed with the fill at ({x}, {z})");
            for y in 0..CHUNK_DIM {
                assert_eq!(field.get(x, y, z), at0, "column ({x}, {z}) varies in y");
            }
        }
    }
    for y in 0..CHUNK_DIM {
        let sampled = sample_density(&e, &ctx, gr, 5, y, 6).unwrap();
        assert_eq!(sampled, float(field.get(5, y, 6)), "pointwise disagreed at height {y}");
    }
}

#[test]
fn the_same_world_column_reads_the_same_at_every_chunk_y() {
    let sample_at = |chunk_y: i32| {
        let ctx = EvalContext::new(9, at(2, chunk_y, -3));
        let (world, world_cache) = climate_upstream(ctx);
        let (biome, gr) = graph_ref_biome(&world);
        let mut up = UpstreamGraphs::new();
        up.insert(GraphRefTarget::World, &world, ctx, &world_cache);
        let mut e = Evaluator::new(&biome, ctx).with_upstream(&up);
        evaluate(&mut e, &ctx).unwrap();
        let one = float(e.cache().get(gr).unwrap().as_scalar().unwrap().get(5, 0, 6));
        (one, sample_density(&e, &ctx, gr, 5, 3, 6).unwrap())
    };
    let base = sample_at(0);
    for chunk_y in [-2, -1, 1, 4] {
        assert_eq!(sample_at(chunk_y), base, "chunk y {chunk_y} disagreed");
    }
}

#[test]
fn graph_ref_without_an_upstream_is_unresolved() {
    let ctx = EvalContext::new(9, at(0, 0, 0));
    let (world, _) = climate_upstream(ctx);
    let (biome, gr) = graph_ref_biome(&world);
    let mut e = Evaluator::new(&biome, ctx);
    assert!(
        matches!(evaluate(&mut e, &ctx), Err(EvalError::UnresolvedGraphRef { .. })),
        "no upstream must stay an error rather than silently reading zero"
    );
    assert!(matches!(
        sample_density(&Evaluator::new(&biome, ctx), &ctx, gr, 0, 0, 0),
        Err(EvalError::UnresolvedGraphRef { .. })
    ));
}

#[test]
fn a_climate_channel_drives_a_density_chain_through_surface_to_density() {
    let ctx = EvalContext::new(9, at(-4, 2, 5));
    let (world, world_cache) = climate_upstream(ctx);
    let (mut biome, gr) = graph_ref_biome(&world);
    let s2d = biome.add_node(NodeKind::SurfaceToDensity(SurfaceToDensityParams::default()));
    let abs = biome.add_node(NodeKind::Abs(AbsParams::default()));
    let out = biome.add_node(NodeKind::Output(OutputParams::default()));
    join(&mut biome, gr, 0, s2d, 0);
    join(&mut biome, s2d, 0, abs, 0);
    join(&mut biome, abs, 0, out, 0);
    assert!(!biome.has_errors(), "the chain must type-check without coercion");

    let mut up = UpstreamGraphs::new();
    up.insert(GraphRefTarget::World, &world, ctx, &world_cache);
    let mut e = Evaluator::new(&biome, ctx).with_upstream(&up);
    evaluate(&mut e, &ctx).unwrap();
    let climate = e.cache().get(gr).unwrap().as_scalar().unwrap();
    let density = e.cache().get(out).unwrap().as_scalar().unwrap();
    let mut nonzero = 0;
    for z in 0..CHUNK_DIM {
        for x in 0..CHUNK_DIM {
            let expect = float(climate.get(x, 0, z)).abs();
            assert_eq!(float(density.get(x, 7, z)), expect, "fill at ({x}, {z})");
            let one = sample_density(&e, &ctx, out, x, 7, z).unwrap();
            assert_eq!(one, expect, "pointwise at ({x}, {z})");
            if expect != 0.0 {
                nonzero += 1;
            }
        }
    }
    assert!(nonzero > 0, "climate was uniformly zero; the test proved nothing");
}

#[test]
fn surface_field_still_does_not_coerce_into_a_density_pin() {
    let ctx = EvalContext::new(9, at(0, 0, 0));
    let (world, _) = climate_upstream(ctx);
    let (mut biome, gr) = graph_ref_biome(&world);
    let out = biome.add_node(NodeKind::Output(OutputParams::default()));
    assert!(
        biome.connect(PinRef::new(gr, 0), PinRef::new(out, 0)).is_err(),
        "SurfaceField -> Density must not connect without SurfaceToDensity"
    );
}

#[test]
fn zero_amplitude_warp_is_identity() {
    let perlin_field = |via_warp: bool| -> Vec<Single> {
        let mut g = Graph::new();
        let perlin = g.add_node(NodeKind::Perlin2D(NoiseParams {
            seed: 7,
            frequency: single(0.05),
            octaves: 3,
            lacunarity: single(2.0),
            gain: single(0.5),
            fractal_type: FractalType::FBm,
        }));
        if via_warp {
            let pos = g.add_node(NodeKind::WorldPos(WorldPosParams::default()));
            let warp = g.add_node(NodeKind::DomainWarp(DomainWarpParams {
                seed: 99,
                frequency: single(0.05),
                amplitude: single(0.0),
            }));
            join(&mut g, pos, 0, warp, 0);
            join(&mut g, warp, 0, perlin, 0);
        }
        let cache = filled(&g, EvalContext::new(0, at(0, 0, 0)));
        cache.get(perlin).unwrap().as_scalar().unwrap().data().to_vec()
    };
    assert_eq!(perlin_field(false), perlin_field(true));
}

/// The fill and the single values of a noise whose position was warped.
fn warped(kind: fn(NoiseParams) -> NodeKind, warps: usize) -> (Vec<f32>, Vec<f32>) {
    let mut g = Graph::new();
    let noise = g.add_node(kind(NoiseParams {
        seed: 7,
        frequency: single(0.05),
        ..NoiseParams::default()
    }));
    let mut from = g.add_node(NodeKind::WorldPos(WorldPosParams::default()));
    for seed in 0..warps {
        let warp = g.add_node(NodeKind::DomainWarp(DomainWarpParams {
            seed: seed as u32,
            frequency: single(0.03),
            amplitude: single(9.0),
        }));
        join(&mut g, from, 0, warp, 0);
        from = warp;
    }
    join(&mut g, from, 0, noise, 0);
    let ctx = EvalContext::new(11, at(2, -1, 3));
    let mut e = Evaluator::new(&g, ctx);
    evaluate(&mut e, &ctx).unwrap();
    let field = e.cache().get(noise).unwrap().as_scalar().unwrap();
    let places = [(0, 0, 0), (5, 30, 7), (31, 12, 31), (13, 1, 2)];
    let read = |p: &(usize, usize, usize)| float(field.get(p.0, p.1, p.2));
    let sample =
        |p: &(usize, usize, usize)| sample_density(&e, &ctx, noise, p.0, p.1, p.2).unwrap();
    (places.iter().map(read).collect(), places.iter().map(sample).collect())
}

#[test]
fn a_warped_noise_samples_as_it_fills() {
    for kind in [NodeKind::Perlin2D as fn(NoiseParams) -> NodeKind, NodeKind::Perlin3D] {
        let (plain, _) = warped(kind, 0);
        for warps in 0..3 {
            let (filled, sampled) = warped(kind, warps);
            assert_eq!(filled, sampled, "{warps} warps");
            assert_eq!(warps > 0, filled != plain, "a warp moves the noise");
        }
    }
}

#[test]
fn remap_keeps_a_descending_range() {
    let params = || RemapParams {
        src_lo: single(1.0),
        src_hi: single(-1.0),
        dst_lo: single(10.0),
        dst_hi: single(20.0),
    };
    for (v, expect) in [(1.0, 10.0), (0.0, 15.0), (-1.0, 20.0)] {
        let (g, n) = one_const_op(v, NodeKind::Remap(params()));
        assert_eq!(eval_uniform(g, n), expect);
    }
}

/// Noise and a bias, added.
fn heightmap_graph() -> (Graph, NodeId) {
    let mut g = Graph::new();
    let perlin = g.add_node(NodeKind::Perlin2D(NoiseParams {
        seed: 1337,
        frequency: single(0.05),
        octaves: 4,
        lacunarity: single(2.0),
        gain: single(0.5),
        ..NoiseParams::default()
    }));
    let bias = constant(&mut g, 0.2);
    let add = g.add_node(NodeKind::Add(AddParams::default()));
    let out = g.add_node(NodeKind::Output(OutputParams::default()));
    join(&mut g, perlin, 0, add, 0);
    join(&mut g, bias, 0, add, 1);
    join(&mut g, add, 0, out, 0);
    (g, out)
}

#[test]
fn evaluate_and_snapshot_heightmap() {
    let (g, out) = heightmap_graph();
    let cache = filled(&g, EvalContext::new(42, at(0, 0, 0)));
    let field = cache.get(out).unwrap().as_scalar().unwrap();
    let shade = |v: f32| (((v + 1.0) / 2.5).clamp(0.0, 1.0) * 9.0) as u8;
    let mut shades = Vec::new();
    for z in 0..CHUNK_DIM {
        for x in 0..CHUNK_DIM {
            shades.push(shade(float(field.get(x, 0, z))));
        }
    }
    let art = ascii_heightmap(&shades);
    let rows: Vec<&str> = art.lines().collect();
    assert_eq!(rows.len(), CHUNK_DIM);
    for (z, row) in rows.iter().enumerate() {
        let marks: Vec<char> = row.chars().collect();
        assert_eq!(marks.len(), CHUNK_DIM);
        for (x, mark) in marks.iter().enumerate() {
            let ramp: Vec<char> = " .:-=+*#%@".chars().collect();
            assert_eq!(*mark, ramp[shades[x + z * CHUNK_DIM] as usize]);
        }
    }
    assert!(shades.iter().any(|s| *s != shades[0]), "the terrain must not be flat");
}

#[test]
fn fill_matches_sample() {
    let (g, out) = heightmap_graph();
    let ctx = EvalContext::new(42, at(0, 0, 0));
    let mut e = Evaluator::new(&g, ctx);
    evaluate(&mut e, &ctx).unwrap();
    let field = e.cache().get(out).unwrap().as_scalar().unwrap();
    for (x, y, z) in [(0, 0, 0), (5, 0, 7), (31, 0, 31), (13, 0, 2)] {
        let s = sample_density(&e, &ctx, out, x, y, z).unwrap();
        assert!((float(field.get(x, y, z)) - s).abs() < 1e-6, "mismatch at {x},{y},{z}");
    }
}

#[test]
fn noise_seed_is_chunk_independent() {
    let a = EvalContext::new(42, at(0, 0, 0));
    let b = EvalContext::new(42, at(5, -3, 7));
    assert_eq!(a.noise_seed(1337), b.noise_seed(1337));
}

#[test]
fn world_pos_offsets_by_chunk() {
    let ctx = EvalContext::new(0, at(1, 0, 0));
    assert_eq!(world_pos(&ctx, 0, 0, 0), (CHUNK_DIM as f32, 0.0, 0.0));
}

#[test]
fn worldpos_node_produces_vec3() {
    let mut g = Graph::new();
    let wp = g.add_node(NodeKind::WorldPos(WorldPosParams::default()));
    let cache = filled(&g, EvalContext::new(0, at(2, 0, 0)));
    let f = cache.get(wp).unwrap().as_vec3().unwrap();
    assert_eq!(plain(f.get(0, 0, 0)), (2.0 * CHUNK_DIM as f32, 0.0, 0.0));
}

fn eval_uniform(graph: Graph, target: NodeId) -> f32 {
    scalar0(&filled(&graph, EvalContext::new(0, at(0, 0, 0))), target)
}

fn two_const_op(a: f32, b: f32, kind: NodeKind) -> (Graph, NodeId) {
    let mut g = Graph::new();
    let ka = constant(&mut g, a);
    let kb = constant(&mut g, b);
    let op = g.add_node(kind);
    join(&mut g, ka, 0, op, 0);
    join(&mut g, kb, 0, op, 1);
    (g, op)
}

fn one_const_op(a: f32, kind: NodeKind) -> (Graph, NodeId) {
    let mut g = Graph::new();
    let k = constant(&mut g, a);
    let op = g.add_node(kind);
    join(&mut g, k, 0, op, 0);
    (g, op)
}

#[test]
fn add() {
    let (g, n) = two_const_op(3.0, 4.0, NodeKind::Add(AddParams::default()));
    assert_eq!(eval_uniform(g, n), 7.0);
}

#[test]
fn multiply() {
    let (g, n) = two_const_op(3.0, 4.0, NodeKind::Multiply(MultiplyParams::default()));
    assert_eq!(eval_uniform(g, n), 12.0);
}

#[test]
fn subtract() {
    let (g, n) = two_const_op(3.0, 4.0, NodeKind::Subtract(SubtractParams::default()));
    assert_eq!(eval_uniform(g, n), -1.0);
}

#[test]
fn min() {
    let (g, n) = two_const_op(3.0, 4.0, NodeKind::Min(MinParams::default()));
    assert_eq!(eval_uniform(g, n), 3.0);
}

#[test]
fn max() {
    let (g, n) = two_const_op(3.0, 4.0, NodeKind::Max(MaxParams::default()));
    assert_eq!(eval_uniform(g, n), 4.0);
}

#[test]
fn clamp() {
    let p = ClampParams { min: single(0.0), max: single(1.0) };
    let (g, n) = one_const_op(5.0, NodeKind::Clamp(p));
    assert_eq!(eval_uniform(g, n), 1.0);
}

#[test]
fn lerp_half() {
    let mut g = Graph::new();
    let a = constant(&mut g, 10.0);
    let b = constant(&mut g, 20.0);
    let t = constant(&mut g, 0.5);
    let l = g.add_node(NodeKind::Lerp(LerpParams::default()));
    join(&mut g, a, 0, l, 0);
    join(&mut g, b, 0, l, 1);
    join(&mut g, t, 0, l, 2);
    assert_eq!(eval_uniform(g, l), 15.0);
}

#[test]
fn remap_default_negone_one_to_zero_one() {
    let (g, n) = one_const_op(0.0, NodeKind::Remap(RemapParams::default()));
    assert_eq!(eval_uniform(g, n), 0.5);
}

#[test]
fn curve_mapper_piecewise_linear() {
    let stops = vec![(single(0.0), single(0.0)), (single(1.0), single(4.0))];
    let (g, n) = one_const_op(0.25, NodeKind::CurveMapper(CurveMapperParams { stops }));
    assert!((eval_uniform(g, n) - 1.0).abs() < 1e-6);
}

#[test]
fn curve_mapper_clamps_at_endpoints() {
    let stops = vec![(single(0.0), single(7.0)), (single(1.0), single(9.0))];
    let (g, n) = one_const_op(-5.0, NodeKind::CurveMapper(CurveMapperParams { stops }));
    assert_eq!(eval_uniform(g, n), 7.0);
}

#[test]
fn threshold_below_above() {
    let kind = || NodeKind::Threshold(ThresholdParams { threshold: single(0.5) });
    let (g, n) = one_const_op(0.4, kind());
    assert_eq!(eval_uniform(g, n), 0.0);
    let (g, n) = one_const_op(0.7, kind());
    assert_eq!(eval_uniform(g, n), 1.0);
}

#[test]
fn jittered_grid_is_deterministic() {
    let p = JitteredGridParams::default();
    let ctx = EvalContext::new(42, at(0, 0, 0));
    let (a, b) = (jittered_grid(&ctx, &p), jittered_grid(&ctx, &p));
    assert_eq!(a, b);
    assert!(!a.is_empty());
}

#[test]
fn jittered_grid_is_seam_consistent() {
    let side = CHUNK_DIM as f32;
    let p = JitteredGridParams {
        seed: 7,
        cell_size: single(6.0),
        jitter: single(0.6),
        density: single(1.0),
    };
    let world = |chunk: i32| -> Vec<(i64, i64)> {
        jittered_grid(&EvalContext::new(42, at(chunk, 0, 0)), &p)
            .iter()
            .map(|pt| {
                let wx = float(pt.lx) + chunk as f32 * side;
                ((wx * 16.0) as i64, (float(pt.lz) * 16.0) as i64)
            })
            .collect()
    };
    let (world0, world1) = (world(0), world(1));
    for (wx, wz) in &world1 {
        if *wx < (side * 16.0) as i64 {
            assert!(
                world0.contains(&(*wx, *wz)),
                "seam point {wx},{wz} missing from neighbor chunk"
            );
        }
    }
}

#[test]
fn poisson_respects_min_distance() {
    let p = PoissonDiskParams { seed: 3, radius: single(4.0), k: 30 };
    let pts = poisson_disk(&EvalContext::new(42, at(0, 0, 0)), &p);
    assert!(pts.len() > 4);
    for i in 0..pts.len() {
        for j in (i + 1)..pts.len() {
            let dx = float(pts[i].lx) - float(pts[j].lx);
            let dz = float(pts[i].lz) - float(pts[j].lz);
            assert!(
                (dx * dx + dz * dz).sqrt() >= 4.0 - 1e-3,
                "two points closer than radius"
            );
        }
    }
}

#[test]
fn poisson_placement_is_deterministic() {
    let a = poisson_placement(12345, 4.0, 30);
    let b = poisson_placement(12345, 4.0, 30);
    assert_eq!(a, b);
    assert!(a.len() > 4);
}

#[test]
fn cave_noise_is_deterministic_and_finite() {
    let p = (3.0, 4.0, 5.0);
    assert_eq!(standard_cave_noise(p, 7), standard_cave_noise(p, 7));
    assert!(standard_cave_noise(p, 7).is_finite());
}

#[test]
fn cave_noise_seed_changes_output() {
    let p = (1.0, 2.0, 3.0);
    assert!(standard_cave_noise(p, 1) != standard_cave_noise(p, 2));
}

fn river() -> RiverParams {
    RiverParams {
        cell_size: single(24.0),
        max_width: single(12.0),
        min_width: single(4.0),
        ..RiverParams::default()
    }
}

#[test]
fn every_link_flows_downhill_so_the_network_cannot_cycle() {
    let net = RiverNetwork::resolve(EvalContext::new(7, at(2, 0, -1)), &river());
    assert!(net.len() > 0, "the test window must contain channels");
    for s in &net.channels {
        assert!(s.b_elev <= s.a_elev, "a link ran uphill: {} -> {}", s.a_elev, s.b_elev);
    }
}

#[test]
fn resolution_is_a_pure_function_of_seed_and_position() {
    let ctx = EvalContext::new(3, at(-4, 0, 6));
    let a = RiverNetwork::resolve(ctx, &river());
    let b = RiverNetwork::resolve(ctx, &river());
    assert_eq!(a.channels, b.channels);
    let other = RiverNetwork::resolve(EvalContext::new(4, at(-4, 0, 6)), &river());
    assert_ne!(a.channels, other.channels, "a different seed must move the network");
}

#[test]
fn two_chunks_agree_about_a_column_on_their_shared_border() {
    let p = river();
    let left = RiverNetwork::resolve(EvalContext::new(11, at(0, 0, 0)), &p);
    let right = RiverNetwork::resolve(EvalContext::new(11, at(1, 0, 0)), &p);
    let mut compared = 0usize;
    let mut in_channel = 0usize;
    for wz in 0..32 {
        for wx in 28..36 {
            let (x, z) = (wx as f32 + 0.5, wz as f32 + 0.5);
            let a = left.sample(&p, x, z);
            let b = right.sample(&p, x, z);
            assert_eq!(a, b, "chunks disagree about the column at ({x}, {z})");
            compared += 1;
            if a.is_some() {
                in_channel += 1;
            }
        }
    }
    assert!(compared > 0);
    assert!(in_channel > 0, "no sampled column fell in a channel");
}

#[test]
fn a_column_far_from_every_channel_is_untouched() {
    let p = RiverParams { max_width: single(2.0), ..river() };
    let net = RiverNetwork::resolve(EvalContext::new(5, at(0, 0, 0)), &p);
    let dry = (0..32)
        .flat_map(|z| (0..32).map(move |x| (x as f32, z as f32)))
        .filter(|(x, z)| net.sample(&p, *x, *z).is_none())
        .count();
    assert!(dry > 0, "a 2-voxel channel cannot cover an entire chunk");
}

#[test]
fn the_channel_is_deepest_at_its_centre() {
    let p = river();
    let net = RiverNetwork::resolve(EvalContext::new(11, at(0, 0, 0)), &p);
    let s = *net.channels.first().expect("a channel");
    let mid = ((s.a.0 + s.b.0) * 0.5, (s.a.1 + s.b.1) * 0.5);
    let centre = net.sample(&p, mid.0, mid.1).expect("the centreline is in its own channel");
    let (dx, dz) = (s.b.0 - s.a.0, s.b.1 - s.a.1);
    let len = (dx * dx + dz * dz).sqrt().max(1e-6);
    let off = s.a_width * 0.9 / len;
    if let Some(edge) = net.sample(&p, mid.0 - dz * off, mid.1 + dx * off) {
        assert!(
            centre.floor_y < edge.floor_y,
            "the floor must rise from centreline ({}) to bank ({})",
            centre.floor_y,
            edge.floor_y
        );
    }
}
