//! How far each column of a chunk is from another biome, and which one that is.
use crate::column::IdColumn;
use crate::eval_error::{EvalError, EvalResult};
use crate::fraction::{
    in_single_digits, lemma_digits_bound, lemma_length_bound, round_to_digits, shares_are_short,
};
use crate::voxel::IVec3;
use vstd::prelude::*;

verus! {

/// The nearest other biome of each column of a chunk.
#[derive(Debug)]
pub struct BorderScan {
    /// Squared distance to the nearest column of another biome, in columns, at
    /// most the square of the radius.
    pub distance_squared: Vec<u32>,
    /// The biome there; the column's own where there is none within the radius.
    pub neighbor: IdColumn,
}

/// A squared distance, as single precision counts it.
pub open spec fn squared(dx: int, dz: int) -> int {
    in_single_digits(dx * dx + dz * dz)
}

/// How many columns a scan of a radius spans along an axis.
pub open spec fn span(radius: int) -> int {
    2 * radius + 1
}

/// Offset number `k` of a scan, row by row.
pub open spec fn offset(radius: int, k: int) -> (int, int) {
    (k % span(radius) - radius, k / span(radius) - radius)
}

/// The nearest other biome found among the first `k` offsets around a column: its
/// squared distance, and which it is. Of several as near, the first counts.
pub open spec fn nearest_among(
    ids: spec_fn(int, int) -> u16,
    x: int,
    z: int,
    radius: int,
    k: int,
) -> (int, u16)
    decreases k,
{
    if k <= 0 {
        (in_single_digits(radius * radius), ids(x, z))
    } else {
        let best = nearest_among(ids, x, z, radius, k - 1);
        let (dx, dz) = offset(radius, k - 1);
        if (dx != 0 || dz != 0) && squared(dx, dz) < best.0 && ids(x + dx, z + dz) != ids(x, z) {
            (squared(dx, dz), ids(x + dx, z + dz))
        } else {
            best
        }
    }
}

/// The nearest other biome around a column.
pub open spec fn nearest_other(ids: spec_fn(int, int) -> u16, x: int, z: int, radius: int) -> (
    int,
    u16,
) {
    nearest_among(ids, x, z, radius, span(radius) * span(radius))
}

/// The biomes of a square of columns, stored row by row.
pub open spec fn grid_ids(grid: Seq<u16>, side: int) -> spec_fn(int, int) -> u16 {
    |x: int, z: int| grid[z * side + x]
}

/// Whether a scan holds the nearest other biome of every column of a chunk, given
/// the biomes of the chunk grown by the radius on each side.
pub open spec fn scans(r: BorderScan, grid: Seq<u16>, radius: int) -> bool {
    let ids = grid_ids(grid, 32 + 2 * radius);
    &&& r.distance_squared@.len() == 1024
    &&& r.neighbor@.len() == 1024
    &&& forall|i: int|
        0 <= i < 1024 ==> (#[trigger] r.distance_squared@[i]) == nearest_other(
            ids,
            radius + i % 32,
            radius + i / 32,
            radius,
        ).0
    &&& forall|i: int|
        0 <= i < 1024 ==> (#[trigger] r.neighbor@[i]) == nearest_other(
            ids,
            radius + i % 32,
            radius + i / 32,
            radius,
        ).1
}

fn scan_column(grid: &Vec<u16>, radius: i32, x: i32, z: i32) -> (r: (u32, u16))
    requires
        0 <= radius <= 0x7fff,
        grid@.len() == (32 + 2 * radius) * (32 + 2 * radius),
        radius <= x < radius + 32,
        radius <= z < radius + 32,
    ensures
        (r.0 as int, r.1) == nearest_other(
            grid_ids(grid@, 32 + 2 * radius),
            x as int,
            z as int,
            radius as int,
        ),
{
    let side: usize = (32 + 2 * radius) as usize;
    let total: usize = grid.len();
    let ghost ids = grid_ids(grid@, 32 + 2 * radius);
    let wide: i32 = 2 * radius + 1;
    proof {
        lemma_index(side as int, x as int, z as int);
    }
    let own: u16 = grid[z as usize * side + x as usize];
    assert(0 <= radius * radius <= 0x7fff * 0x7fff) by (nonlinear_arith)
        requires
            0 <= radius <= 0x7fff,
    ;
    proof {
        lemma_length_bound(radius * radius);
        crate::fraction::lemma_digits_bound(radius * radius);
    }
    let mut best: u32 = round_to_digits((radius * radius) as u64) as u32;
    let mut found: u16 = own;
    let mut dz: i32 = -radius;
    proof {
        assert(wide * 0 == 0);
    }
    while dz <= radius
        invariant
            0 <= radius <= 0x7fff,
            side == 32 + 2 * radius,
            wide == 2 * radius + 1,
            grid@.len() == side * side,
            grid@.len() == total,
            ids == grid_ids(grid@, 32 + 2 * radius),
            radius <= x < radius + 32,
            radius <= z < radius + 32,
            -radius <= dz <= radius + 1,
            own == ids(x as int, z as int),
            (best as int, found) == nearest_among(
                ids,
                x as int,
                z as int,
                radius as int,
                wide * (dz + radius),
            ),
        decreases radius + 1 - dz,
    {
        let mut dx: i32 = -radius;
        while dx <= radius
            invariant
                0 <= radius <= 0x7fff,
                side == 32 + 2 * radius,
                wide == 2 * radius + 1,
                grid@.len() == side * side,
                grid@.len() == total,
                ids == grid_ids(grid@, 32 + 2 * radius),
                radius <= x < radius + 32,
                radius <= z < radius + 32,
                -radius <= dz <= radius,
                -radius <= dx <= radius + 1,
                own == ids(x as int, z as int),
                (best as int, found) == nearest_among(
                    ids,
                    x as int,
                    z as int,
                    radius as int,
                    wide * (dz + radius) + (dx + radius),
                ),
            decreases radius + 1 - dx,
        {
            let ghost k = wide * (dz + radius) + (dx + radius);
            proof {
                lemma_offset(radius as int, dx as int, dz as int);
                lemma_index(side as int, x + dx, z + dz);
                assert(0 <= dx * dx + dz * dz <= 2 * 0x7fff * 0x7fff) by (nonlinear_arith)
                    requires
                        -0x7fff <= dx <= 0x7fff,
                        -0x7fff <= dz <= 0x7fff,
                ;
                assert(0 <= dx * dx <= 0x7fff * 0x7fff) by (nonlinear_arith)
                    requires
                        -0x7fff <= dx <= 0x7fff,
                ;
                lemma_length_bound(dx * dx + dz * dz);
                crate::fraction::lemma_digits_bound(dx * dx + dz * dz);
                assert(nearest_among(ids, x as int, z as int, radius as int, k + 1) == {
                    let best = nearest_among(ids, x as int, z as int, radius as int, k);
                    if (dx != 0 || dz != 0) && squared(dx as int, dz as int) < best.0 && ids(
                        x + dx,
                        z + dz,
                    ) != ids(x as int, z as int) {
                        (squared(dx as int, dz as int), ids(x + dx, z + dz))
                    } else {
                        best
                    }
                });
            }
            let d2: u32 = round_to_digits((dx * dx + dz * dz) as u64) as u32;
            if (dx != 0 || dz != 0) && d2 < best {
                let other: u16 = grid[(z + dz) as usize * side + (x + dx) as usize];
                if other != own {
                    best = d2;
                    found = other;
                }
            }
            dx = dx + 1;
        }
        proof {
            assert(wide * (dz + radius) + wide == wide * (dz + 1 + radius)) by (nonlinear_arith);
        }
        dz = dz + 1;
    }
    (best, found)
}

proof fn lemma_index(side: int, x: int, z: int)
    requires
        0 <= x < side,
        0 <= z < side,
    ensures
        0 <= z * side,
        0 <= z * side + x < side * side,
{
    assert(0 <= z * side && z * side + x < side * side) by (nonlinear_arith)
        requires
            0 <= x < side,
            0 <= z < side,
    ;
}

pub(crate) proof fn lemma_offset(radius: int, dx: int, dz: int)
    requires
        -radius <= dx <= radius,
        -radius <= dz <= radius,
    ensures
        offset(radius, span(radius) * (dz + radius) + (dx + radius)) == (dx, dz),
        0 <= span(radius) * (dz + radius),
{
    let w = span(radius);
    let k = w * (dz + radius) + (dx + radius);
    assert(k == (dz + radius) * w + (dx + radius)) by (nonlinear_arith)
        requires
            k == w * (dz + radius) + (dx + radius),
    ;
    vstd::arithmetic::div_mod::lemma_fundamental_div_mod_converse(k, w, dz + radius, dx + radius);
    assert(0 <= w * (dz + radius)) by (nonlinear_arith)
        requires
            w >= 0,
            dz + radius >= 0,
    ;
}

/// Find the nearest other biome of every column of a chunk. `grid` holds the
/// biomes of the chunk grown by the radius on each side, row by row.
pub fn scan_borders(grid: &Vec<u16>, radius: i32) -> (r: BorderScan)
    requires
        0 <= radius <= 0x7fff,
        grid@.len() == (32 + 2 * radius) * (32 + 2 * radius),
    ensures
        scans(r, grid@, radius as int),
{
    let mut distances: Vec<u32> = Vec::new();
    let mut neighbors: Vec<u16> = Vec::new();
    let ghost ids = grid_ids(grid@, 32 + 2 * radius);
    let mut i: usize = 0;
    while i < 1024
        invariant
            i <= 1024,
            0 <= radius <= 0x7fff,
            grid@.len() == (32 + 2 * radius) * (32 + 2 * radius),
            ids == grid_ids(grid@, 32 + 2 * radius),
            distances@.len() == i,
            neighbors@.len() == i,
            forall|j: int|
                0 <= j < i ==> (#[trigger] distances@[j]) == nearest_other(
                    ids,
                    radius + j % 32,
                    radius + j / 32,
                    radius as int,
                ).0,
            forall|j: int|
                0 <= j < i ==> (#[trigger] neighbors@[j]) == nearest_other(
                    ids,
                    radius + j % 32,
                    radius + j / 32,
                    radius as int,
                ).1,
        decreases 1024 - i,
    {
        let x: i32 = radius + (i % 32) as i32;
        let z: i32 = radius + (i / 32) as i32;
        let (d, n) = scan_column(grid, radius, x, z);
        distances.push(d);
        neighbors.push(n);
        i = i + 1;
    }
    BorderScan { distance_squared: distances, neighbor: IdColumn::from_data(neighbors) }
}

/// Whether the columns within a radius of a chunk have world coordinates.
pub open spec fn surroundings_fit(chunk: IVec3, radius: int) -> bool {
    &&& 32 * chunk.x - radius >= -0x8000_0000
    &&& 32 * chunk.x + 32 + radius <= 0x7fff_ffff
    &&& 32 * chunk.z - radius >= -0x8000_0000
    &&& 32 * chunk.z + 32 + radius <= 0x7fff_ffff
}

/// The radius of a scan: not negative.
pub open spec fn scan_radius(radius: i32) -> int {
    if radius >= 0 {
        radius as int
    } else {
        0
    }
}

/// The world column of number `i` of the square around a chunk, row by row.
pub open spec fn grid_column(chunk: IVec3, radius: int, i: int) -> (i32, i32) {
    (
        (32 * chunk.x - radius + i % (32 + 2 * radius)) as i32,
        (32 * chunk.z - radius + i / (32 + 2 * radius)) as i32,
    )
}

/// Whether a grid holds what `biome_at` answers for the columns around a chunk.
pub open spec fn sampled<F: Fn(i32, i32) -> EvalResult<u16>>(
    biome_at: F,
    chunk: IVec3,
    radius: int,
    grid: Seq<u16>,
) -> bool {
    &&& grid.len() == (32 + 2 * radius) * (32 + 2 * radius)
    &&& forall|i: int|
        0 <= i < grid.len() ==> call_ensures(
            biome_at,
            grid_column(chunk, radius, i),
            Ok::<u16, EvalError>(#[trigger] grid[i]),
        )
}

/// Whether `biome_at` answers with `before` for the first columns around a chunk,
/// row by row, and fails on the column after them.
pub open spec fn sampling_failed<F: Fn(i32, i32) -> EvalResult<u16>>(
    biome_at: F,
    chunk: IVec3,
    radius: int,
    before: Seq<u16>,
    e: EvalError,
) -> bool {
    &&& before.len() < (32 + 2 * radius) * (32 + 2 * radius)
    &&& forall|i: int|
        0 <= i < before.len() ==> call_ensures(
            biome_at,
            grid_column(chunk, radius, i),
            Ok::<u16, EvalError>(#[trigger] before[i]),
        )
    &&& call_ensures(
        biome_at,
        grid_column(chunk, radius, before.len() as int),
        Err::<u16, EvalError>(e),
    )
}

/// Find the nearest other biome of every column of a chunk, asking `biome_at` for
/// the biome of each world column within the radius once. It may reach into
/// neighboring chunks; the first column it fails on fails the scan.
pub fn analyze_borders<F: Fn(i32, i32) -> EvalResult<u16>>(
    biome_at: F,
    chunk: IVec3,
    radius: i32,
) -> (r: EvalResult<BorderScan>)
    requires
        radius <= 0x7fff,
        surroundings_fit(chunk, scan_radius(radius)),
        forall|x: i32, z: i32| #[trigger] call_requires(biome_at, (x, z)),
    ensures
        match r {
            Ok(scan) => exists|grid: Seq<u16>| #[trigger]
                sampled(biome_at, chunk, scan_radius(radius), grid) && scans(
                    scan,
                    grid,
                    scan_radius(radius),
                ),
            Err(e) => exists|before: Seq<u16>| #[trigger]
                sampling_failed(biome_at, chunk, scan_radius(radius), before, e),
        },
{
    let reach: i32 = if radius >= 0 { radius } else { 0 };
    let side: i32 = 32 + 2 * reach;
    assert(side * side <= 0x1_0020 * 0x1_0020) by (nonlinear_arith)
        requires
            0 <= side <= 0x1_0020,
    ;
    let total: u64 = side as u64 * side as u64;
    let mut grid: Vec<u16> = Vec::new();
    let mut k: u64 = 0;
    while k < total
        invariant
            k <= total,
            reach == scan_radius(radius),
            0 <= reach <= 0x7fff,
            side == 32 + 2 * reach,
            total == side * side,
            surroundings_fit(chunk, reach as int),
            grid@.len() == k,
            forall|x: i32, z: i32| #[trigger] call_requires(biome_at, (x, z)),
            forall|i: int|
                0 <= i < k ==> call_ensures(
                    biome_at,
                    grid_column(chunk, reach as int, i),
                    Ok::<u16, EvalError>(#[trigger] grid@[i]),
                ),
        decreases total - k,
    {
        let ex: i64 = (k % side as u64) as i64;
        let ez: i64 = (k / side as u64) as i64;
        proof {
            assert((k as int / side as int) < side) by (nonlinear_arith)
                requires
                    0 <= k < side * side,
                    side >= 32,
            ;
        }
        let wx: i64 = 32 * chunk.x as i64 - reach as i64 + ex;
        let wz: i64 = 32 * chunk.z as i64 - reach as i64 + ez;
        assert(grid_column(chunk, reach as int, k as int) == (wx as i32, wz as i32));
        match biome_at(wx as i32, wz as i32) {
            Ok(b) => {
                grid.push(b);
            },
            Err(e) => {
                assert(sampling_failed(biome_at, chunk, scan_radius(radius), grid@, e));
                return Err(e);
            },
        }
        k = k + 1;
    }
    let scan = scan_borders(&grid, reach);
    proof {
        let all = grid@;
        assert(all.len() == (32 + 2 * scan_radius(radius)) * (32 + 2 * scan_radius(radius)));
        assert(scans(scan, all, scan_radius(radius)));
        assert(sampled(biome_at, chunk, scan_radius(radius), all));
    }
    Ok(scan)
}

/// What a scan finds is another biome, and no other biome is nearer; where it
/// finds none, every column nearer than the radius has the same biome. No distance
/// exceeds the radius.
pub proof fn scans_find_the_nearest(
    ids: spec_fn(int, int) -> u16,
    x: int,
    z: int,
    radius: int,
    k: int,
)
    requires
        radius >= 0,
        0 <= k,
    ensures
        ({
            let (best, found) = nearest_among(ids, x, z, radius, k);
            &&& forall|j: int|
                0 <= j < k && ids(
                    x + (#[trigger] offset(radius, j)).0,
                    z + offset(radius, j).1,
                ) != ids(x, z) ==> best <= squared(offset(radius, j).0, offset(radius, j).1)
            &&& found != ids(x, z) ==> exists|j: int|
                0 <= j < k && found == ids(
                    x + (#[trigger] offset(radius, j)).0,
                    z + offset(radius, j).1,
                ) && best == squared(offset(radius, j).0, offset(radius, j).1)
            &&& found == ids(x, z) ==> best == in_single_digits(radius * radius)
            &&& best <= in_single_digits(radius * radius)
            &&& radius <= 0x1000 ==> best <= radius * radius
        }),
    decreases k,
{
    if k <= 0 && radius <= 0x1000 {
        assert(0 <= radius * radius <= 0x100_0000) by (nonlinear_arith)
            requires
                0 <= radius <= 0x1000,
        ;
        if radius > 0 {
            assert(radius * radius >= 1) by (nonlinear_arith)
                requires
                    radius >= 1,
            ;
            shares_are_short(0, radius * radius);
        } else {
            lemma_digits_bound(0);
        }
    }
    if k > 0 {
        scans_find_the_nearest(ids, x, z, radius, k - 1);
        let (dx, dz) = offset(radius, k - 1);
        let last = nearest_among(ids, x, z, radius, k - 1);
        let now = nearest_among(ids, x, z, radius, k);
        if now == last && last.1 != ids(x, z) {
            let j = choose|j: int|
                0 <= j < k - 1 && last.1 == ids(
                    x + (#[trigger] offset(radius, j)).0,
                    z + offset(radius, j).1,
                ) && last.0 == squared(offset(radius, j).0, offset(radius, j).1);
            assert(0 <= j < k);
        }
    }
}

/// A scan reads biomes relative to the column only, so a column has the same
/// nearest other biome in whichever chunk asks.
pub proof fn scans_ignore_the_chunk(
    world: spec_fn(int, int) -> u16,
    ids: spec_fn(int, int) -> u16,
    x: int,
    z: int,
    shift_x: int,
    shift_z: int,
    radius: int,
    k: int,
)
    requires
        radius >= 0,
        forall|a: int, b: int|
            -radius <= a - x <= radius && -radius <= b - z <= radius ==> #[trigger] ids(a, b)
                == world(a + shift_x, b + shift_z),
        0 <= k <= span(radius) * span(radius),
    ensures
        nearest_among(ids, x, z, radius, k) == nearest_among(
            world,
            x + shift_x,
            z + shift_z,
            radius,
            k,
        ),
    decreases k,
{
    assert(ids(x, z) == world(x + shift_x, z + shift_z));
    if k > 0 {
        scans_ignore_the_chunk(world, ids, x, z, shift_x, shift_z, radius, k - 1);
        let w = span(radius);
        let (dx, dz) = offset(radius, k - 1);
        assert(0 <= (k - 1) / w < w && 0 <= (k - 1) % w < w) by (nonlinear_arith)
            requires
                0 <= k - 1 < w * w,
                w >= 1,
        ;
        assert(ids(x + dx, z + dz) == world(x + dx + shift_x, z + dz + shift_z));
    }
}

} // verus!
