//! Placing foliage on a chunk's terrain: filters, draws, paint and instances.
use crate::chunk::{cell_index, cell_index_is_injective, column_index, ChunkBuffer};
use crate::column::IdColumn;
use crate::context::{cell_seed_of, placed_in_world, EvalContext};
use crate::foliage::{
    instance_id_of, stable_instance_id, FoliageInstance, PaintLayer, PaintTexel, PaintView,
};
use crate::fraction::{int_single, single_of_int};
use crate::params::{PaintDensityParams, SurfaceFilterParams};
use crate::scalar::Single;
use crate::scatter::fraction_of;
use crate::voxel::{larger, magnitude, MaterialId, Voxel};
use vstd::prelude::*;

verus! {

/// A candidate for placement: the column that holds it, where in the column it
/// stands, and the surface below it once that is known.
#[derive(Clone, Copy, PartialEq, Eq, Structural, Debug)]
pub struct DetailPoint {
    /// Chunk-local X of the column.
    pub x: u8,
    /// Chunk-local Z of the column.
    pub z: u8,
    /// Offset along X within the column, as a signed byte.
    pub offset_x: i8,
    /// Offset along Z within the column, as a signed byte.
    pub offset_z: i8,
    /// Chunk-local height of the surface, once a filter has found it.
    pub surface_y: Option<u8>,
}

impl DetailPoint {
    /// Whether the point lies in a column of the chunk.
    pub open spec fn in_chunk(self) -> bool {
        &&& self.x < 32
        &&& self.z < 32
        &&& self.surface_y matches Some(y) ==> y < 32
    }
}

/// What a chunk offers to foliage.
#[verifier::ext_equal]
pub struct Ground {
    /// World seed and chunk position.
    pub ctx: EvalContext,
    /// The terrain.
    pub cells: Seq<Voxel>,
    /// The biome of each column; one biome everywhere where there is none.
    pub biomes: Option<Seq<u16>>,
    /// The biome that foliage is placed for.
    pub target: u16,
}

/// The topmost cell of a column, at or below `y`, that holds anything.
pub open spec fn top_filled(cells: Seq<Voxel>, x: int, z: int, y: int) -> Option<int>
    decreases y + 1,
{
    if y < 0 {
        None
    } else if cells[cell_index(x, y, z)] != Voxel::nothing() {
        Some(y)
    } else {
        top_filled(cells, x, z, y - 1)
    }
}

/// The surface of a column.
pub open spec fn ground_level(cells: Seq<Voxel>, x: int, z: int) -> Option<int> {
    top_filled(cells, x, z, 31)
}

/// The step in height to a column, none where it is outside or empty.
pub open spec fn step_to(cells: Seq<Voxel>, h: int, x: int, z: int) -> int {
    if 0 <= x < 32 && 0 <= z < 32 && ground_level(cells, x, z) is Some {
        magnitude(h - ground_level(cells, x, z).unwrap())
    } else {
        0
    }
}

/// The largest step in height from a column to its four neighbors.
pub open spec fn steepness(cells: Seq<Voxel>, h: int, x: int, z: int) -> int {
    larger(
        larger(step_to(cells, h, x + 1, z), step_to(cells, h, x - 1, z)),
        larger(step_to(cells, h, x, z + 1), step_to(cells, h, x, z - 1)),
    )
}

/// The biome of a column.
pub open spec fn biome_at(g: Ground, x: int, z: int) -> u16 {
    match g.biomes {
        Some(b) => b[column_index(x, z)],
        None => 0,
    }
}

/// Numeric `a > b`; false when either is not a number.
pub open spec fn exceeds(a: Single, b: Single) -> bool {
    !a.is_nan() && !b.is_nan() && a.rank() > b.rank()
}

/// A candidate with its surface, if the surface is in the height range, of an
/// allowed material and not too steep.
pub open spec fn grounded(g: Ground, p: SurfaceFilterParams, c: DetailPoint) -> Option<
    DetailPoint,
> {
    match ground_level(g.cells, c.x as int, c.z as int) {
        None => None,
        Some(sy) => {
            let height = int_single(32 * g.ctx.chunk.y + sy);
            let material = g.cells[cell_index(c.x as int, sy, c.z as int)].material;
            let slope = int_single(steepness(g.cells, sy, c.x as int, c.z as int));
            if exceeds(p.min_height, height) || exceeds(height, p.max_height) {
                None
            } else if p.materials@.len() > 0 && !p.materials@.contains(material) {
                None
            } else if exceeds(slope, p.max_slope) {
                None
            } else {
                Some(DetailPoint { surface_y: Some(sy as u8), ..c })
            }
        },
    }
}

/// The candidates that pass a surface filter, in order.
pub open spec fn all_grounded(g: Ground, p: SurfaceFilterParams, points: Seq<DetailPoint>) -> Seq<
    DetailPoint,
>
    decreases points.len(),
{
    if points.len() == 0 {
        Seq::empty()
    } else {
        match grounded(g, p, points.last()) {
            Some(c) => all_grounded(g, p, points.drop_last()).push(c),
            None => all_grounded(g, p, points.drop_last()),
        }
    }
}

/// The candidates on columns of a biome, in order.
pub open spec fn in_biome(g: Ground, biome: u16, points: Seq<DetailPoint>) -> Seq<DetailPoint>
    decreases points.len(),
{
    if points.len() == 0 {
        Seq::empty()
    } else if biome_at(g, points.last().x as int, points.last().z as int) == biome {
        in_biome(g, biome, points.drop_last()).push(points.last())
    } else {
        in_biome(g, biome, points.drop_last())
    }
}

/// The draw that picks a candidate's species, as a fraction of one in units of
/// 2^-24. It belongs to the world column, so neighboring chunks agree on it.
pub open spec fn species_draw(ctx: EvalContext, seed: u32, c: DetailPoint) -> u32 {
    fraction_of(
        cell_seed_of(
            ctx.world_seed,
            seed ^ 0x5EED,
            (32 * ctx.chunk.x + c.x) as i64,
            (32 * ctx.chunk.z + c.z) as i64,
        ),
    )
}

/// The draws that pick the species of candidates.
pub open spec fn species_draws(ctx: EvalContext, seed: u32, points: Seq<DetailPoint>) -> Seq<u32> {
    Seq::new(points.len(), |i: int| species_draw(ctx, seed, points[i]))
}

/// Candidates with a species each.
pub open spec fn with_species(points: Seq<DetailPoint>, picks: Seq<u8>) -> Seq<(DetailPoint, u8)> {
    Seq::new(points.len(), |i: int| (points[i], picks[i]))
}

/// The texel of a column: painted where the column has the target biome and a
/// surface.
pub open spec fn texel_at(g: Ground, p: PaintDensityParams, x: int, z: int) -> PaintTexel {
    if biome_at(g, x, z) == g.target && ground_level(g.cells, x, z) is Some {
        PaintTexel { species: p.species, density: p.density, tint: p.tint, flags: 0 }
    } else {
        PaintTexel::bare()
    }
}

/// The layer that a paint node produces.
pub open spec fn paint_of(g: Ground, p: PaintDensityParams) -> PaintView {
    PaintView {
        layer_id: p.layer_id,
        texels: Seq::new(1024, |i: int| texel_at(g, p, i % 32, i / 32)),
    }
}

/// How many instances stand in a cell.
pub open spec fn standing_in(instances: Seq<FoliageInstance>, cell: [u8; 3]) -> nat
    decreases instances.len(),
{
    if instances.len() == 0 {
        0
    } else {
        standing_in(instances.drop_last(), cell) + if instances.last().anchor == cell {
            1nat
        } else {
            0nat
        }
    }
}

/// The height that a candidate stands at: what a filter found, else the surface.
pub open spec fn standing_height(g: Ground, c: DetailPoint) -> Option<int> {
    match c.surface_y {
        Some(y) => Some(y as int),
        None => ground_level(g.cells, c.x as int, c.z as int),
    }
}

/// The instance of a candidate, `earlier` having been placed before it.
pub open spec fn instance_of(
    g: Ground,
    seed: u32,
    prefab_id: u32,
    earlier: Seq<FoliageInstance>,
    c: DetailPoint,
    species: u8,
    sy: int,
) -> FoliageInstance {
    let anchor = [c.x, sy as u8, c.z];
    let wx = 32 * g.ctx.chunk.x + c.x;
    let wy = 32 * g.ctx.chunk.y + sy;
    let wz = 32 * g.ctx.chunk.z + c.z;
    FoliageInstance {
        anchor,
        sub_offset: [c.offset_x, 0i8, c.offset_z],
        rotation_y: (cell_seed_of(g.ctx.world_seed, seed, wx as i64, wz as i64) >> 56) as u8,
        scale_variant: species,
        prefab_id,
        stable_id: instance_id_of(
            g.ctx.world_seed,
            wx as i32,
            wy as i32,
            wz as i32,
            prefab_id,
            standing_in(earlier, anchor) as u32,
        ),
        flags: 0,
    }
}

/// The instances that a scatter node produces: one for each candidate on a column
/// of the target biome that has a surface, in order.
pub open spec fn scattered(
    g: Ground,
    seed: u32,
    prefab_id: u32,
    assigned: Seq<(DetailPoint, u8)>,
) -> Seq<FoliageInstance>
    decreases assigned.len(),
{
    if assigned.len() == 0 {
        Seq::empty()
    } else {
        let earlier = scattered(g, seed, prefab_id, assigned.drop_last());
        let (c, species) = assigned.last();
        if biome_at(g, c.x as int, c.z as int) != g.target {
            earlier
        } else {
            match standing_height(g, c) {
                Some(sy) => earlier.push(
                    instance_of(g, seed, prefab_id, earlier, c, species, sy),
                ),
                None => earlier,
            }
        }
    }
}

/// The terrain and biomes of a chunk, for placing one biome's foliage.
#[derive(Clone, Copy)]
pub struct DetailGround<'a> {
    /// World seed and chunk position.
    pub ctx: EvalContext,
    /// The terrain.
    pub terrain: &'a ChunkBuffer<Voxel>,
    /// The biome of each column; one biome everywhere where there is none.
    pub biomes: Option<&'a IdColumn>,
    /// The biome that foliage is placed for.
    pub target: u16,
}

impl<'a> DetailGround<'a> {
    /// What is offered, as values.
    pub open spec fn view(&self) -> Ground {
        Ground {
            ctx: self.ctx,
            cells: self.terrain@,
            biomes: match self.biomes {
                Some(b) => Some(b@),
                None => None,
            },
            target: self.target,
        }
    }

    /// The surface of a column.
    pub fn surface_y(&self, x: usize, z: usize) -> (r: Option<u8>)
        requires
            x < 32,
            z < 32,
        ensures
            match r {
                Some(y) => ground_level(self@.cells, x as int, z as int) == Some(y as int) && y < 32,
                None => ground_level(self@.cells, x as int, z as int) is None,
            },
    {
        let mut left: usize = 32;
        while left > 0
            invariant
                left <= 32,
                x < 32,
                z < 32,
                ground_level(self@.cells, x as int, z as int) == top_filled(
                    self@.cells,
                    x as int,
                    z as int,
                    left - 1,
                ),
            decreases left,
        {
            let y: usize = left - 1;
            if self.terrain.get(x, y, z) != Voxel::empty() {
                return Some(y as u8);
            }
            left = left - 1;
        }
        None
    }

    fn step(&self, h: u8, x: i32, z: i32) -> (r: u8)
        requires
            h < 32,
        ensures
            r == step_to(self@.cells, h as int, x as int, z as int),
            r < 32,
    {
        if x < 0 || x >= 32 || z < 0 || z >= 32 {
            return 0;
        }
        match self.surface_y(x as usize, z as usize) {
            Some(n) => if h >= n {
                h - n
            } else {
                n - h
            },
            None => 0,
        }
    }

    fn slope(&self, h: u8, x: u8, z: u8) -> (r: u8)
        requires
            h < 32,
            x < 32,
            z < 32,
        ensures
            r == steepness(self@.cells, h as int, x as int, z as int),
    {
        let e: u8 = self.step(h, x as i32 + 1, z as i32);
        let w: u8 = self.step(h, x as i32 - 1, z as i32);
        let s: u8 = self.step(h, x as i32, z as i32 + 1);
        let n: u8 = self.step(h, x as i32, z as i32 - 1);
        let a: u8 = if e >= w { e } else { w };
        let b: u8 = if s >= n { s } else { n };
        if a >= b {
            a
        } else {
            b
        }
    }

    fn column_biome(&self, x: u8, z: u8) -> (r: u16)
        requires
            x < 32,
            z < 32,
        ensures
            r == biome_at(self@, x as int, z as int),
    {
        match self.biomes {
            Some(b) => b.get(x as usize, z as usize),
            None => 0,
        }
    }

    fn ground_point(&self, p: &SurfaceFilterParams, c: DetailPoint) -> (r: Option<DetailPoint>)
        requires
            placed_in_world(self.ctx.chunk),
            c.in_chunk(),
        ensures
            r == grounded(self@, *p, c),
            r matches Some(d) ==> d.in_chunk(),
    {
        match self.surface_y(c.x as usize, c.z as usize) {
            None => None,
            Some(sy) => {
                let height = single_of_int(32 * self.ctx.chunk.y + sy as i32);
                if above(p.min_height, height) || above(height, p.max_height) {
                    return None;
                }
                if p.materials.len() > 0 {
                    let m = self.terrain.get(c.x as usize, sy as usize, c.z as usize).material;
                    if !lists_material(&p.materials, m) {
                        return None;
                    }
                }
                if above(single_of_int(self.slope(sy, c.x, c.z) as i32), p.max_slope) {
                    return None;
                }
                Some(DetailPoint { surface_y: Some(sy), ..c })
            },
        }
    }

    /// Keep the candidates that stand on an acceptable surface, and note it.
    pub fn surface_filter(&self, points: &Vec<DetailPoint>, p: &SurfaceFilterParams) -> (r: Vec<
        DetailPoint,
    >)
        requires
            placed_in_world(self.ctx.chunk),
            forall|i: int| 0 <= i < points@.len() ==> (#[trigger] points@[i]).in_chunk(),
        ensures
            r@ == all_grounded(self@, *p, points@),
            r@.len() <= points@.len(),
            forall|i: int| 0 <= i < r@.len() ==> (#[trigger] r@[i]).in_chunk(),
    {
        let mut out: Vec<DetailPoint> = Vec::new();
        let mut k: usize = 0;
        while k < points.len()
            invariant
                k <= points@.len(),
                placed_in_world(self.ctx.chunk),
                forall|i: int| 0 <= i < points@.len() ==> (#[trigger] points@[i]).in_chunk(),
                out@ == all_grounded(self@, *p, points@.take(k as int)),
                out@.len() <= k,
                forall|i: int| 0 <= i < out@.len() ==> (#[trigger] out@[i]).in_chunk(),
            decreases points@.len() - k,
        {
            let c = points[k];
            assert(points@[k as int].in_chunk());
            assert(points@.take(k + 1).drop_last() =~= points@.take(k as int));
            if let Some(d) = self.ground_point(p, c) {
                out.push(d);
            }
            k = k + 1;
        }
        assert(points@.take(k as int) =~= points@);
        out
    }

    /// Keep the candidates on columns of a biome.
    pub fn biome_mask(&self, points: &Vec<DetailPoint>, biome: u16) -> (r: Vec<DetailPoint>)
        requires
            forall|i: int| 0 <= i < points@.len() ==> (#[trigger] points@[i]).in_chunk(),
        ensures
            r@ == in_biome(self@, biome, points@),
            r@.len() <= points@.len(),
            forall|i: int| 0 <= i < r@.len() ==> (#[trigger] r@[i]).in_chunk(),
    {
        let mut out: Vec<DetailPoint> = Vec::new();
        let mut k: usize = 0;
        while k < points.len()
            invariant
                k <= points@.len(),
                forall|i: int| 0 <= i < points@.len() ==> (#[trigger] points@[i]).in_chunk(),
                out@ == in_biome(self@, biome, points@.take(k as int)),
                out@.len() <= k,
                forall|i: int| 0 <= i < out@.len() ==> (#[trigger] out@[i]).in_chunk(),
            decreases points@.len() - k,
        {
            let c = points[k];
            assert(points@[k as int].in_chunk());
            assert(points@.take(k + 1).drop_last() =~= points@.take(k as int));
            if self.column_biome(c.x, c.z) == biome {
                out.push(c);
            }
            k = k + 1;
        }
        assert(points@.take(k as int) =~= points@);
        out
    }

    /// The draws that pick the species of candidates.
    pub fn draw_species(&self, points: &Vec<DetailPoint>, seed: u32) -> (r: Vec<u32>)
        requires
            placed_in_world(self.ctx.chunk),
            forall|i: int| 0 <= i < points@.len() ==> (#[trigger] points@[i]).in_chunk(),
        ensures
            r@ == species_draws(self.ctx, seed, points@),
    {
        let mut out: Vec<u32> = Vec::new();
        let mut k: usize = 0;
        while k < points.len()
            invariant
                k <= points@.len(),
                placed_in_world(self.ctx.chunk),
                forall|i: int| 0 <= i < points@.len() ==> (#[trigger] points@[i]).in_chunk(),
                out@ == species_draws(self.ctx, seed, points@).take(k as int),
            decreases points@.len() - k,
        {
            let c = points[k];
            assert(points@[k as int].in_chunk());
            let wx: i32 = 32 * self.ctx.chunk.x + c.x as i32;
            let wz: i32 = 32 * self.ctx.chunk.z + c.z as i32;
            let d: u64 = self.ctx.world_cell_seed(seed ^ 0x5EED, wx as i64, wz as i64);
            assert((d >> 40) < 0x100_0000) by (bit_vector);
            out.push((d >> 40) as u32);
            assert(out@ =~= species_draws(self.ctx, seed, points@).take(k + 1));
            k = k + 1;
        }
        assert(out@ =~= species_draws(self.ctx, seed, points@));
        out
    }

    /// Paint every column of the target biome that has a surface.
    pub fn paint(&self, p: &PaintDensityParams) -> (r: PaintLayer)
        ensures
            r@ == paint_of(self@, *p),
            r.full(),
    {
        let mut texels: Vec<PaintTexel> = Vec::new();
        let mut k: usize = 0;
        while k < 1024
            invariant
                k <= 1024,
                texels@ == paint_of(self@, *p).texels.take(k as int),
            decreases 1024 - k,
        {
            let x: usize = k % 32;
            let z: usize = k / 32;
            let texel = if self.column_biome(x as u8, z as u8) == self.target && self.surface_y(
                x,
                z,
            ).is_some() {
                PaintTexel { species: p.species, density: p.density, tint: p.tint, flags: 0 }
            } else {
                PaintTexel { species: 0, density: 0, tint: 0, flags: 0 }
            };
            texels.push(texel);
            assert(texels@ =~= paint_of(self@, *p).texels.take(k + 1));
            k = k + 1;
        }
        assert(texels@ =~= paint_of(self@, *p).texels);
        PaintLayer { layer_id: p.layer_id, texels }
    }

    fn build_instance(
        &self,
        seed: u32,
        prefab_id: u32,
        c: DetailPoint,
        species: u8,
        sy: u8,
        n: u32,
        Ghost(earlier): Ghost<Seq<FoliageInstance>>,
    ) -> (r: FoliageInstance)
        requires
            placed_in_world(self.ctx.chunk),
            c.in_chunk(),
            sy < 32,
            n == standing_in(earlier, [c.x, sy, c.z]),
        ensures
            r == instance_of(self@, seed, prefab_id, earlier, c, species, sy as int),
    {
        let wx: i32 = 32 * self.ctx.chunk.x + c.x as i32;
        let wy: i32 = 32 * self.ctx.chunk.y + sy as i32;
        let wz: i32 = 32 * self.ctx.chunk.z + c.z as i32;
        let turn: u64 = self.ctx.world_cell_seed(seed, wx as i64, wz as i64);
        assert((turn >> 56) < 256) by (bit_vector);
        FoliageInstance {
            anchor: [c.x, sy, c.z],
            sub_offset: [c.offset_x, 0, c.offset_z],
            rotation_y: (turn >> 56) as u8,
            scale_variant: species,
            prefab_id,
            stable_id: stable_instance_id(self.ctx.world_seed, wx, wy, wz, prefab_id, n),
            flags: 0,
        }
    }

    /// Place an instance for every candidate on a column of the target biome that
    /// has a surface.
    pub fn scatter(&self, seed: u32, prefab_id: u32, assigned: &Vec<(DetailPoint, u8)>) -> (r: Vec<
        FoliageInstance,
    >)
        requires
            placed_in_world(self.ctx.chunk),
            assigned@.len() <= 0xffff_ffff,
            forall|i: int| 0 <= i < assigned@.len() ==> (#[trigger] assigned@[i]).0.in_chunk(),
        ensures
            r@ == scattered(self@, seed, prefab_id, assigned@),
    {
        let mut out: Vec<FoliageInstance> = Vec::new();
        let mut counts: ChunkBuffer<u32> = ChunkBuffer::uniform(0);
        proof {
            assert(tallied(counts@, out@)) by {
                reveal(tallied);
            }
        }
        let mut k: usize = 0;
        while k < assigned.len()
            invariant
                k <= assigned@.len(),
                assigned@.len() <= 0xffff_ffff,
                placed_in_world(self.ctx.chunk),
                forall|i: int|
                    0 <= i < assigned@.len() ==> (#[trigger] assigned@[i]).0.in_chunk(),
                out@ == scattered(self@, seed, prefab_id, assigned@.take(k as int)),
                out@.len() <= k,
                tallied(counts@, out@),
            decreases assigned@.len() - k,
        {
            let (c, species) = assigned[k];
            assert(assigned@[k as int].0.in_chunk());
            assert(assigned@.take(k + 1).drop_last() =~= assigned@.take(k as int));
            if self.column_biome(c.x, c.z) == self.target {
                let height = match c.surface_y {
                    Some(y) => Some(y),
                    None => self.surface_y(c.x as usize, c.z as usize),
                };
                if let Some(sy) = height {
                    let n: u32 = counts.get(c.x as usize, sy as usize, c.z as usize);
                    proof {
                        reveal(tallied);
                        lemma_standing_bound(out@, [c.x, sy, c.z]);
                    }
                    let instance = self.build_instance(
                        seed,
                        prefab_id,
                        c,
                        species,
                        sy,
                        n,
                        Ghost(out@),
                    );
                    proof {
                        lemma_tally(counts@, out@, instance, c.x, sy, c.z);
                    }
                    out.push(instance);
                    counts.set(c.x as usize, sy as usize, c.z as usize, n + 1);
                }
            }
            k = k + 1;
        }
        assert(assigned@.take(k as int) =~= assigned@);
        out
    }
}

/// Whether each cell's counter is the number of instances standing in it.
#[verifier::opaque]
spec fn tallied(counts: Seq<u32>, instances: Seq<FoliageInstance>) -> bool {
    &&& counts.len() == 32768
    &&& forall|x: u8, y: u8, z: u8|
        x < 32 && y < 32 && z < 32 ==> #[trigger] counts[cell_index(x as int, y as int, z as int)]
            == standing_in(instances, [x, y, z])
}

proof fn lemma_tally(
    counts: Seq<u32>,
    instances: Seq<FoliageInstance>,
    next: FoliageInstance,
    cx: u8,
    cy: u8,
    cz: u8,
)
    requires
        tallied(counts, instances),
        next.anchor == [cx, cy, cz],
        cx < 32,
        cy < 32,
        cz < 32,
        counts[cell_index(cx as int, cy as int, cz as int)] < u32::MAX,
    ensures
        ({
            let at = cell_index(cx as int, cy as int, cz as int);
            tallied(counts.update(at, (counts[at] + 1) as u32), instances.push(next))
        }),
{
    reveal(tallied);
    let at = cell_index(cx as int, cy as int, cz as int);
    let bumped = counts.update(at, (counts[at] + 1) as u32);
    let all = instances.push(next);
    assert(all.drop_last() =~= instances);
    assert forall|x: u8, y: u8, z: u8| x < 32 && y < 32 && z < 32 implies #[trigger] bumped[cell_index(
        x as int,
        y as int,
        z as int,
    )] == standing_in(all, [x, y, z]) by {
        cell_index_is_injective(
            x as int,
            y as int,
            z as int,
            cx as int,
            cy as int,
            cz as int,
        );
        assert(counts[cell_index(x as int, y as int, z as int)] == standing_in(
            instances,
            [x, y, z],
        ));
        let a: [u8; 3] = [x, y, z];
        let b: [u8; 3] = [cx, cy, cz];
        if a == b {
            assert(a@[0] == b@[0] && a@[1] == b@[1] && a@[2] == b@[2]);
        }
    }
}

proof fn lemma_standing_bound(instances: Seq<FoliageInstance>, cell: [u8; 3])
    ensures
        standing_in(instances, cell) <= instances.len(),
    decreases instances.len(),
{
    if instances.len() > 0 {
        lemma_standing_bound(instances.drop_last(), cell);
    }
}

fn above(a: Single, b: Single) -> (r: bool)
    ensures
        r == exceeds(a, b),
{
    a.ge(b) && !b.ge(a)
}

fn lists_material(list: &Vec<MaterialId>, m: MaterialId) -> (r: bool)
    ensures
        r == list@.contains(m),
{
    let mut k: usize = 0;
    while k < list.len()
        invariant
            k <= list@.len(),
            forall|i: int| 0 <= i < k ==> list@[i] != m,
        decreases list@.len() - k,
    {
        if list[k] == m {
            assert(list@[k as int] == m);
            return true;
        }
        k = k + 1;
    }
    false
}

} // verus!
