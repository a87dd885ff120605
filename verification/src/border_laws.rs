//! What a border scan tells, by the biomes around a column.
use crate::border::{
    grid_column, lemma_offset, nearest_among, nearest_other, offset, scans, span, squared,
    BorderScan,
};
use crate::fraction::{in_single_digits, lemma_digits_bound, shares_are_short};
use crate::voxel::IVec3;
use vstd::prelude::*;

verus! {

/// The biome `dx` and `dz` columns away from a column of a chunk, where a grid holds the
/// biomes of the chunk grown by the radius on each side.
pub open spec fn biome_away(
    grid: Seq<u16>,
    radius: int,
    x: int,
    z: int,
    dx: int,
    dz: int,
) -> u16 {
    grid[(radius + z + dz) * (32 + 2 * radius) + (radius + x + dx)]
}

/// Whether a biome lies at an offset within the radius, at a squared distance.
pub open spec fn found_at(
    grid: Seq<u16>,
    radius: int,
    x: int,
    z: int,
    dx: int,
    dz: int,
    id: u16,
    distance_squared: int,
) -> bool {
    &&& -radius <= dx <= radius
    &&& -radius <= dz <= radius
    &&& biome_away(grid, radius, x, z, dx, dz) == id
    &&& dx * dx + dz * dz == distance_squared
}

spec fn other(ids: spec_fn(int, int) -> u16, x: int, z: int, radius: int, j: int) -> bool {
    ids(x + offset(radius, j).0, z + offset(radius, j).1) != ids(x, z)
}

spec fn apart(radius: int, j: int) -> int {
    squared(offset(radius, j).0, offset(radius, j).1)
}

proof fn lemma_nearest(ids: spec_fn(int, int) -> u16, x: int, z: int, radius: int, k: int) -> (j: int)
    requires
        radius >= 0,
        0 <= k,
    ensures
        ({
            let (best, found) = nearest_among(ids, x, z, radius, k);
            &&& forall|i: int|
                0 <= i < k && #[trigger] other(ids, x, z, radius, i) ==> best <= apart(radius, i)
            &&& found == ids(x, z) ==> best == in_single_digits(radius * radius)
            &&& best <= in_single_digits(radius * radius)
            &&& found != ids(x, z) ==> {
                &&& 0 <= j < k
                &&& other(ids, x, z, radius, j)
                &&& found == ids(x + offset(radius, j).0, z + offset(radius, j).1)
                &&& best == apart(radius, j)
                &&& best < in_single_digits(radius * radius)
                &&& forall|i: int|
                    0 <= i < j && #[trigger] other(ids, x, z, radius, i) ==> best < apart(radius, i)
            }
        }),
    decreases k,
{
    if k <= 0 {
        0
    } else {
        let j = lemma_nearest(ids, x, z, radius, k - 1);
        let before = nearest_among(ids, x, z, radius, k - 1);
        if other(ids, x, z, radius, k - 1) && apart(radius, k - 1) < before.0 {
            assert(nearest_among(ids, x, z, radius, k).0 == apart(radius, k - 1));
            k - 1
        } else {
            assert(nearest_among(ids, x, z, radius, k) == before);
            j
        }
    }
}

proof fn lemma_exact(dx: int, dz: int, radius: int)
    requires
        -radius <= dx <= radius <= 2896,
        -radius <= dz <= radius,
    ensures
        squared(dx, dz) == dx * dx + dz * dz,
        in_single_digits(radius * radius) == radius * radius,
{
    assert(0 <= dx * dx <= 0x80_0000 && 0 <= dz * dz <= 0x80_0000 && 0 <= radius * radius
        <= 0x80_0000) by (nonlinear_arith)
        requires
            -2896 <= dx <= 2896,
            -2896 <= dz <= 2896,
            0 <= radius <= 2896,
    ;
    let n = dx * dx + dz * dz;
    if n >= 1 {
        shares_are_short(0, n);
    } else {
        lemma_digits_bound(0);
    }
    if radius * radius >= 1 {
        shares_are_short(0, radius * radius);
    } else {
        lemma_digits_bound(0);
    }
}

/// A scan tells the nearest other biome of each column by its distance in columns, squared:
/// none within the radius is nearer, and of several as near it is the one on the lowest row,
/// then in the lowest column. Where there is none nearer than the radius, it tells the
/// radius, and the column's own biome.
pub proof fn scans_tell_the_nearest_other_biome(
    r: BorderScan,
    grid: Seq<u16>,
    radius: int,
    x: int,
    z: int,
    dx: int,
    dz: int,
)
    requires
        scans(r, grid, radius),
        0 <= radius <= 2896,
        0 <= x < 32,
        0 <= z < 32,
        -radius <= dx <= radius,
        -radius <= dz <= radius,
    ensures
        ({
            let own = biome_away(grid, radius, x, z, 0, 0);
            let told = r.neighbor@[x + 32 * z];
            let distance = r.distance_squared@[x + 32 * z] as int;
            let differs = biome_away(grid, radius, x, z, dx, dz) != own;
            &&& differs ==> distance <= dx * dx + dz * dz
            &&& told == own ==> distance == radius * radius
            &&& told != own ==> distance < radius * radius
            &&& told != own ==> exists|a: int, b: int|
                #[trigger] found_at(grid, radius, x, z, a, b, told, distance) && (differs && dx * dx
                    + dz * dz == distance ==> b < dz || (b == dz && a <= dx))
        }),
{
    let i = x + 32 * z;
    assert(i % 32 == x && i / 32 == z);
    let side = 32 + 2 * radius;
    let ids = crate::border::grid_ids(grid, side);
    let (cx, cz) = (radius + x, radius + z);
    let w = span(radius);
    let total = w * w;
    assert(r.neighbor@[i] == nearest_other(ids, cx, cz, radius).1);
    assert(r.distance_squared@[i] == nearest_other(ids, cx, cz, radius).0);
    assert(total >= 0) by (nonlinear_arith)
        requires
            total == w * w,
    ;
    let j = lemma_nearest(ids, cx, cz, radius, total);
    lemma_offset(radius, dx, dz);
    lemma_exact(dx, dz, radius);
    let k = w * (dz + radius) + (dx + radius);
    assert(0 <= k < total) by (nonlinear_arith)
        requires
            k == w * (dz + radius) + (dx + radius),
            0 <= dz + radius <= w - 1,
            0 <= dx + radius <= w - 1,
            total == w * w,
    ;
    assert(offset(radius, k) == (dx, dz));
    let own = biome_away(grid, radius, x, z, 0, 0);
    assert(ids(cx, cz) == own);
    assert(ids(cx + dx, cz + dz) == biome_away(grid, radius, x, z, dx, dz));
    if ids(cx + dx, cz + dz) != own {
        assert(other(ids, cx, cz, radius, k));
    }
    if r.neighbor@[i] != own {
        let (a, b) = offset(radius, j);
        assert(0 <= j / w < w && 0 <= j % w < w && j == w * (j / w) + j % w) by (nonlinear_arith)
            requires
                0 <= j < w * w,
                w >= 1,
        ;
        lemma_exact(a, b, radius);
        assert(found_at(
            grid,
            radius,
            x,
            z,
            a,
            b,
            r.neighbor@[i],
            r.distance_squared@[i] as int,
        ));
        if ids(cx + dx, cz + dz) != own && dx * dx + dz * dz == r.distance_squared@[i] {
            assert(k >= j);
            assert(b < dz || (b == dz && a <= dx)) by (nonlinear_arith)
                requires
                    w * (dz + radius) + (dx + radius) >= w * (b + radius) + (a + radius),
                    0 <= dx + radius < w,
                    0 <= a + radius < w,
                    w >= 1,
            ;
        }
    }
}

/// The square around a chunk holds the columns of the world that lie there: the biome
/// some columns away from a column of the chunk is that of the world column as far away.
pub proof fn grids_hold_the_columns_around(
    chunk: IVec3,
    radius: int,
    x: int,
    z: int,
    dx: int,
    dz: int,
)
    requires
        0 <= radius <= 0x7fff,
        0 <= x < 32,
        0 <= z < 32,
        -radius <= dx <= radius,
        -radius <= dz <= radius,
        -0x8000_0000 <= 32 * chunk.x + x + dx < 0x8000_0000,
        -0x8000_0000 <= 32 * chunk.z + z + dz < 0x8000_0000,
    ensures
        grid_column(
            chunk,
            radius,
            (radius + z + dz) * (32 + 2 * radius) + (radius + x + dx),
        ) == ((32 * chunk.x + x + dx) as i32, (32 * chunk.z + z + dz) as i32),
{
    let side = 32 + 2 * radius;
    let (gx, gz) = (radius + x + dx, radius + z + dz);
    vstd::arithmetic::div_mod::lemma_fundamental_div_mod_converse(gz * side + gx, side, gz, gx);
}

} // verus!
