//! Scatter points and the stream of draws behind them.
use crate::context::{cell_seed_of, mix64, mixed, EvalContext};
use crate::fraction::{fraction_single, single_of_fraction};
use crate::scalar::Single;
use vstd::prelude::*;

verus! {

/// How many cells beyond the chunk scatter covers, so that a prop whose
/// footprint crosses a border is still placed by the chunk that owns it.
pub const PROP_MARGIN: i32 = 12;

/// A scattered point in chunk-local continuous space, possibly in the margin.
#[derive(Clone, Copy, PartialEq, Eq, Structural, Debug)]
pub struct ScatterPoint {
    /// Chunk-local X.
    pub lx: Single,
    /// Chunk-local Z.
    pub lz: Single,
    /// Surface height, once a scanner has found it.
    pub surface_y: Option<i32>,
    /// Seed for what is placed at the point.
    pub seed: u64,
}

/// A deterministic stream of 64-bit draws.
#[derive(Clone, Copy, PartialEq, Eq, Structural, Debug)]
pub struct SplitMix64 {
    /// Where the stream stands.
    pub state: u64,
}

/// Where a stream stands after `n` draws.
pub open spec fn stream_state(seed: u64, n: nat) -> u64
    decreases n,
{
    if n == 0 {
        seed
    } else {
        stream_state(seed, (n - 1) as nat).wrapping_add(0x9E3779B97F4A7C15)
    }
}

/// Draw number `n` of a stream.
pub open spec fn draw(seed: u64, n: nat) -> u64 {
    mixed(stream_state(seed, n))
}

/// The top 24 bits of a draw: a fraction of one, in units of 2^-24.
pub open spec fn fraction_of(d: u64) -> u32 {
    (d >> 40) as u32
}

impl SplitMix64 {
    /// A stream from a seed.
    pub fn new(seed: u64) -> (r: Self)
        ensures
            r.state == seed,
    {
        SplitMix64 { state: seed }
    }

    /// The next draw.
    pub fn next_u64(&mut self) -> (r: u64)
        ensures
            r == mixed(old(self).state),
            final(self).state == old(self).state.wrapping_add(0x9E3779B97F4A7C15),
    {
        let r: u64 = mix64(self.state);
        self.state = self.state.wrapping_add(0x9E3779B97F4A7C15);
        r
    }

    /// The next draw as a fraction of one, in units of 2^-24.
    pub fn next_fraction(&mut self) -> (r: u32)
        ensures
            r == fraction_of(mixed(old(self).state)),
            r < 0x100_0000,
            final(self).state == old(self).state.wrapping_add(0x9E3779B97F4A7C15),
    {
        let d: u64 = self.next_u64();
        assert((d >> 40) < 0x100_0000) by (bit_vector);
        (d >> 40) as u32
    }
}

/// The seed of point `i` of a layout.
pub open spec fn point_seed_of(base: u64, i: u64) -> u64 {
    draw(base ^ i.wrapping_mul(0x9E3779B97F4A7C15), 0)
}

/// The seed of point `i` of a layout.
pub fn point_seed(base: u64, i: u64) -> (r: u64)
    ensures
        r == point_seed_of(base, i),
{
    let mut stream = SplitMix64::new(base ^ i.wrapping_mul(0x9E3779B97F4A7C15));
    stream.next_u64()
}

/// Positions with the seeds of their points attached, in order.
pub open spec fn seeded_points(base: u64, positions: Seq<(Single, Single)>) -> Seq<ScatterPoint> {
    Seq::new(
        positions.len(),
        |i: int|
            ScatterPoint {
                lx: positions[i].0,
                lz: positions[i].1,
                surface_y: None,
                seed: point_seed_of(base, i as u64),
            },
    )
}

/// Attach a seed to each position of a layout.
pub fn seed_points(base: u64, positions: &Vec<(Single, Single)>) -> (r: Vec<ScatterPoint>)
    ensures
        r@ == seeded_points(base, positions@),
{
    let mut out: Vec<ScatterPoint> = Vec::new();
    let mut k: usize = 0;
    while k < positions.len()
        invariant
            k <= positions@.len(),
            out@ == seeded_points(base, positions@).take(k as int),
        decreases positions@.len() - k,
    {
        let (lx, lz) = positions[k];
        out.push(ScatterPoint { lx, lz, surface_y: None, seed: point_seed(base, k as u64) });
        assert(out@ =~= seeded_points(base, positions@).take(k + 1));
        k = k + 1;
    }
    assert(out@ =~= seeded_points(base, positions@));
    out
}

/// What one cell of a jittered grid draws.
#[derive(Clone, Copy, PartialEq, Eq, Structural, Debug)]
pub struct GridDraw {
    /// Where in the cell along X, as a fraction of one in units of 2^-24.
    pub along: u32,
    /// Where in the cell along Z.
    pub across: u32,
    /// Seed for what is placed there.
    pub seed: u64,
}

/// What a world cell of a jittered grid draws: nothing if its roll is not below the
/// density. The chunk takes no part, so chunks that share a cell agree on it.
pub open spec fn drawn_in_cell(
    world_seed: u64,
    node_seed: u32,
    density: Single,
    cx: i64,
    cz: i64,
) -> Option<GridDraw> {
    let seed = cell_seed_of(world_seed, node_seed, cx, cz);
    if fraction_single(fraction_of(draw(seed, 0)) as int).at_least(density) {
        None
    } else {
        Some(
            GridDraw {
                along: fraction_of(draw(seed, 1)),
                across: fraction_of(draw(seed, 2)),
                seed: draw(seed, 3),
            },
        )
    }
}

/// What a world cell of a jittered grid draws.
pub fn draw_in_cell(ctx: &EvalContext, node_seed: u32, density: Single, cx: i64, cz: i64) -> (r:
    Option<GridDraw>)
    ensures
        r == drawn_in_cell(ctx.world_seed, node_seed, density, cx, cz),
{
    let seed: u64 = ctx.world_cell_seed(node_seed, cx, cz);
    let mut stream = SplitMix64::new(seed);
    assert(stream.state == stream_state(seed, 0));
    let roll: u32 = stream.next_fraction();
    assert(stream.state == stream_state(seed, 1));
    if single_of_fraction(roll).ge(density) {
        return None;
    }
    let along: u32 = stream.next_fraction();
    assert(stream.state == stream_state(seed, 2));
    let across: u32 = stream.next_fraction();
    assert(stream.state == stream_state(seed, 3));
    Some(GridDraw { along, across, seed: stream.next_u64() })
}

} // verus!
