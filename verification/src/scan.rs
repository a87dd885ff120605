//! Surface scanning: which scatter points stand on flat ground of an accepted
//! material, and how high.
use crate::chunk::{cell_index, ChunkBuffer};
use crate::params::FindFlatParams;
use crate::scatter::ScatterPoint;
use crate::voxel::{MaterialId, Voxel};
use vstd::prelude::*;

verus! {

/// The topmost solid cell of a column at or below `y`.
pub open spec fn top_solid(cells: Seq<Voxel>, x: int, z: int, y: int) -> Option<int>
    decreases y + 1,
{
    if y < 0 {
        None
    } else if cells[cell_index(x, y, z)].solid() {
        Some(y)
    } else {
        top_solid(cells, x, z, y - 1)
    }
}

/// The surface of a column: its topmost solid cell.
pub open spec fn surface(cells: Seq<Voxel>, x: int, z: int) -> Option<int> {
    top_solid(cells, x, z, 31)
}

/// Whether a neighboring column's surface is within a step of a height. A column
/// outside the chunk counts as level.
pub open spec fn level_with(cells: Seq<Voxel>, x: int, z: int, sy: int, max_step: int) -> bool {
    0 <= x < 32 && 0 <= z < 32 ==> match surface(cells, x, z) {
        Some(ny) => -max_step <= ny - sy <= max_step,
        None => false,
    }
}

/// Whether the eight neighbors of a column are level with it.
pub open spec fn flat_around(cells: Seq<Voxel>, x: int, z: int, sy: int, max_step: int) -> bool {
    forall|dx: int, dz: int|
        -1 <= dx <= 1 && -1 <= dz <= 1 && !(dx == 0 && dz == 0) ==> #[trigger] level_with(
            cells,
            x + dx,
            z + dz,
            sy,
            max_step,
        )
}

/// A coordinate held to the chunk.
pub open spec fn held(v: int) -> int {
    if v < 0 {
        0
    } else if v > 31 {
        31
    } else {
        v
    }
}

/// The surface a point stands on, if the point is accepted. A point in the margin
/// is judged at the nearest column of the chunk.
pub open spec fn footing(
    cells: Seq<Voxel>,
    point: ScatterPoint,
    max_step: int,
    on_materials: Seq<MaterialId>,
) -> Option<int> {
    let x = held(point.lx.nearest());
    let z = held(point.lz.nearest());
    match surface(cells, x, z) {
        Some(sy) => if (on_materials.len() == 0 || on_materials.contains(
            cells[cell_index(x, sy, z)].material,
        )) && flat_around(cells, x, z, sy, max_step) {
            Some(sy)
        } else {
            None
        },
        None => None,
    }
}

/// The accepted points, in order, each with its surface.
pub open spec fn footed(
    cells: Seq<Voxel>,
    points: Seq<ScatterPoint>,
    max_step: int,
    on_materials: Seq<MaterialId>,
) -> Seq<ScatterPoint>
    decreases points.len(),
{
    if points.len() == 0 {
        Seq::empty()
    } else {
        let rest = footed(cells, points.drop_last(), max_step, on_materials);
        match footing(cells, points.last(), max_step, on_materials) {
            Some(sy) => rest.push(
                ScatterPoint { surface_y: Some(sy as i32), ..points.last() },
            ),
            None => rest,
        }
    }
}

/// The surface is the highest solid cell: it is solid, and nothing above it is.
pub proof fn surface_is_topmost(cells: Seq<Voxel>, x: int, z: int)
    ensures
        match surface(cells, x, z) {
            Some(t) => 0 <= t < 32 && cells[cell_index(x, t, z)].solid() && forall|y: int|
                t < y < 32 ==> !(#[trigger] cells[cell_index(x, y, z)]).solid(),
            None => forall|y: int|
                0 <= y < 32 ==> !(#[trigger] cells[cell_index(x, y, z)]).solid(),
        },
{
    lemma_surface_above(cells, x, z, 31);
}

proof fn lemma_surface_above(cells: Seq<Voxel>, x: int, z: int, y: int)
    requires
        -1 <= y < 32,
    ensures
        match top_solid(cells, x, z, y) {
            Some(t) => 0 <= t <= y && cells[cell_index(x, t, z)].solid() && forall|v: int|
                t < v <= y ==> !(#[trigger] cells[cell_index(x, v, z)]).solid(),
            None => forall|v: int| 0 <= v <= y ==> !(#[trigger] cells[cell_index(x, v, z)]).solid(),
        },
    decreases y + 1,
{
    if y >= 0 {
        lemma_surface_above(cells, x, z, y - 1);
    }
}

/// The topmost solid cell of a column.
pub fn topmost_solid(terrain: &ChunkBuffer<Voxel>, x: i32, z: i32) -> (r: Option<i32>)
    requires
        0 <= x < 32,
        0 <= z < 32,
    ensures
        match r {
            Some(y) => 0 <= y < 32 && surface(terrain@, x as int, z as int) == Some(y as int),
            None => surface(terrain@, x as int, z as int) is None,
        },
{
    let mut y: i32 = 31;
    while y >= 0
        invariant
            0 <= x < 32,
            0 <= z < 32,
            -1 <= y < 32,
            surface(terrain@, x as int, z as int) == top_solid(
                terrain@,
                x as int,
                z as int,
                y as int,
            ),
        decreases y + 1,
    {
        if terrain.get(x as usize, y as usize, z as usize).is_solid() {
            return Some(y);
        }
        y = y - 1;
    }
    None
}

fn neighborhood_flat(
    terrain: &ChunkBuffer<Voxel>,
    x: i32,
    z: i32,
    sy: i32,
    max_step: i32,
) -> (r: bool)
    requires
        0 <= x < 32,
        0 <= z < 32,
        0 <= sy < 32,
    ensures
        r == flat_around(terrain@, x as int, z as int, sy as int, max_step as int),
{
    let mut dz: i32 = -1;
    while dz <= 1
        invariant
            0 <= x < 32,
            0 <= z < 32,
            0 <= sy < 32,
            -1 <= dz <= 2,
            forall|a: int, b: int|
                -1 <= a <= 1 && -1 <= b < dz && !(a == 0 && b == 0) ==> #[trigger] level_with(
                    terrain@,
                    x + a,
                    z + b,
                    sy as int,
                    max_step as int,
                ),
        decreases 2 - dz,
    {
        let mut dx: i32 = -1;
        while dx <= 1
            invariant
                0 <= x < 32,
                0 <= z < 32,
                0 <= sy < 32,
                -1 <= dz <= 1,
                -1 <= dx <= 2,
                forall|a: int, b: int|
                    -1 <= a <= 1 && -1 <= b < dz && !(a == 0 && b == 0) ==> #[trigger] level_with(
                        terrain@,
                        x + a,
                        z + b,
                        sy as int,
                        max_step as int,
                    ),
                forall|a: int|
                    -1 <= a < dx && !(a == 0 && dz == 0) ==> #[trigger] level_with(
                        terrain@,
                        x + a,
                        z + dz,
                        sy as int,
                        max_step as int,
                    ),
            decreases 2 - dx,
        {
            if !(dx == 0 && dz == 0) {
                let nx: i32 = x + dx;
                let nz: i32 = z + dz;
                if 0 <= nx && nx < 32 && 0 <= nz && nz < 32 {
                    let level = match topmost_solid(terrain, nx, nz) {
                        Some(ny) => {
                            let step: i64 = ny as i64 - sy as i64;
                            step <= max_step as i64 && -step <= max_step as i64
                        },
                        None => false,
                    };
                    if !level {
                        assert(!level_with(
                            terrain@,
                            x + dx,
                            z + dz,
                            sy as int,
                            max_step as int,
                        ));
                        return false;
                    }
                }
                assert(level_with(terrain@, x + dx, z + dz, sy as int, max_step as int));
            }
            dx = dx + 1;
        }
        assert forall|a: int, b: int|
            -1 <= a <= 1 && -1 <= b < dz + 1 && !(a == 0 && b == 0) implies #[trigger] level_with(
            terrain@,
            x + a,
            z + b,
            sy as int,
            max_step as int,
        ) by {
            if b == dz {
                assert(level_with(terrain@, x + a, z + dz, sy as int, max_step as int));
            }
        }
        dz = dz + 1;
    }
    true
}

fn hold(v: i32) -> (r: i32)
    ensures
        r == held(v as int),
{
    if v < 0 {
        0
    } else if v > 31 {
        31
    } else {
        v
    }
}

fn accepts(materials: &Vec<MaterialId>, m: MaterialId) -> (r: bool)
    ensures
        r == (materials@.len() == 0 || materials@.contains(m)),
{
    if materials.len() == 0 {
        return true;
    }
    let mut k: usize = 0;
    while k < materials.len()
        invariant
            k <= materials@.len(),
            forall|i: int| 0 <= i < k ==> materials@[i] != m,
        decreases materials@.len() - k,
    {
        if materials[k] == m {
            return true;
        }
        k = k + 1;
    }
    false
}

fn find_footing(
    terrain: &ChunkBuffer<Voxel>,
    point: ScatterPoint,
    p: &FindFlatParams,
) -> (r: Option<i32>)
    ensures
        match r {
            Some(sy) => footing(terrain@, point, p.max_step as int, p.on_materials@) == Some(
                sy as int,
            ),
            None => footing(terrain@, point, p.max_step as int, p.on_materials@) is None,
        },
{
    let x: i32 = hold(point.lx.round());
    let z: i32 = hold(point.lz.round());
    match topmost_solid(terrain, x, z) {
        Some(sy) => {
            let voxel = terrain.get(x as usize, sy as usize, z as usize);
            if accepts(&p.on_materials, voxel.material) && neighborhood_flat(
                terrain,
                x,
                z,
                sy,
                p.max_step,
            ) {
                Some(sy)
            } else {
                None
            }
        },
        None => None,
    }
}

/// The points that stand on flat ground of an accepted material, each with the
/// height of its surface.
pub fn find_flat(
    terrain: &ChunkBuffer<Voxel>,
    points: &[ScatterPoint],
    p: &FindFlatParams,
) -> (r: Vec<ScatterPoint>)
    ensures
        r@ == footed(terrain@, points@, p.max_step as int, p.on_materials@),
{
    let mut out: Vec<ScatterPoint> = Vec::new();
    let mut k: usize = 0;
    while k < points.len()
        invariant
            k <= points@.len(),
            out@ == footed(
                terrain@,
                points@.take(k as int),
                p.max_step as int,
                p.on_materials@,
            ),
        decreases points@.len() - k,
    {
        let point = points[k];
        assert(points@.take(k + 1).drop_last() =~= points@.take(k as int));
        if let Some(sy) = find_footing(terrain, point, p) {
            out.push(ScatterPoint { surface_y: Some(sy), ..point });
        }
        k = k + 1;
    }
    assert(points@.take(k as int) =~= points@);
    out
}

/// Every point that comes out has a surface, is otherwise a point that went in,
/// and no more come out than went in.
pub proof fn footed_points_come_from_the_input(
    cells: Seq<Voxel>,
    points: Seq<ScatterPoint>,
    max_step: int,
    on_materials: Seq<MaterialId>,
)
    ensures
        footed(cells, points, max_step, on_materials).len() <= points.len(),
        forall|i: int|
            0 <= i < footed(cells, points, max_step, on_materials).len() ==> (
            #[trigger] footed(cells, points, max_step, on_materials)[i]).surface_y is Some
                && exists|k: int|
                0 <= k < points.len() && footed(cells, points, max_step, on_materials)[i] == (
                ScatterPoint {
                    surface_y: footed(cells, points, max_step, on_materials)[i].surface_y,
                    ..#[trigger] points[k]
                }),
    decreases points.len(),
{
    if points.len() > 0 {
        let short = points.drop_last();
        footed_points_come_from_the_input(cells, short, max_step, on_materials);
        let all = footed(cells, points, max_step, on_materials);
        let rest = footed(cells, short, max_step, on_materials);
        assert forall|i: int| 0 <= i < all.len() implies (#[trigger] all[i]).surface_y is Some
            && exists|k: int|
            0 <= k < points.len() && all[i] == (ScatterPoint {
                surface_y: all[i].surface_y,
                ..#[trigger] points[k]
            }) by {
            if i < rest.len() {
                assert(all[i] == rest[i]);
                let k = choose|k: int|
                    0 <= k < short.len() && rest[i] == (ScatterPoint {
                        surface_y: rest[i].surface_y,
                        ..#[trigger] short[k]
                    });
                assert(points[k] == short[k]);
            } else {
                assert(points[points.len() - 1] == points.last());
            }
        }
    }
}

} // verus!
