//! What surfaces become: slopes and corners, flat spots, stamped templates and bands of a
//! column value, told by the cells around them.
use crate::bands::{assigned_ids, region, thresholds_met};
use crate::chunk::{cell_index, cell_index_is_injective, in_window};
use crate::place::{put_all, stamped};
use crate::scalar::Single;
use crate::scan::{flat_around, footed, footing, level_with, surface, surface_is_topmost};
use crate::scatter::ScatterPoint;
use crate::slope_refine::{open_sides, refined_cells, solid_at};
use crate::voxel::{BlueprintCell, IVec3, MaterialId, Rotation, ShapeId, Voxel};
use vstd::prelude::*;

verus! {

/// Whether a cell holds no shape; beyond the chunk there is only air.
pub open spec fn airy(cells: Seq<Voxel>, x: int, y: int, z: int) -> bool {
    !(0 <= x < 32 && 0 <= y < 32 && 0 <= z < 32) || cells[x + 32 * y + 1024 * z].shape
        == ShapeId::Empty
}

/// Whether a cell is open to exactly the sides that are named, north being `-z` and east
/// `+x`.
pub open spec fn opens_to(
    cells: Seq<Voxel>,
    x: int,
    y: int,
    z: int,
    north: bool,
    south: bool,
    east: bool,
    west: bool,
) -> bool {
    &&& airy(cells, x, y, z - 1) == north
    &&& airy(cells, x, y, z + 1) == south
    &&& airy(cells, x + 1, y, z) == east
    &&& airy(cells, x - 1, y, z) == west
}

/// Whether exactly one upper diagonal of a cell is open: the one toward `dx`, `dz`.
pub open spec fn notched_toward(cells: Seq<Voxel>, x: int, y: int, z: int, dx: int, dz: int) -> bool {
    &&& airy(cells, x + dx, y + 1, z + dz)
    &&& !airy(cells, x - dx, y + 1, z + dz)
    &&& !airy(cells, x + dx, y + 1, z - dz)
    &&& !airy(cells, x - dx, y + 1, z - dz)
}

/// A cube becomes a ramp, a corner or nothing else just where its neighbors ask for it: on
/// ground under air, a ramp that is high away from its one open side, where the way down is
/// solid; a convex corner, high away from two adjacent open sides; under air with closed
/// sides, a concave corner toward its one open upper diagonal; and the first two likewise
/// upside down, under a ceiling over air.
pub proof fn cubes_take_the_shape_of_their_neighbors(cells: Seq<Voxel>, x: int, y: int, z: int)
    requires
        0 <= x < 32,
        0 <= y < 32,
        0 <= z < 32,
        cells.len() == 32768,
        cells[x + 32 * y + 1024 * z].shape == ShapeId::Cube,
    ensures
        ({
            let v = refined_cells(cells)[x + 32 * y + 1024 * z];
            let floor = airy(cells, x, y + 1, z) && !airy(cells, x, y - 1, z);
            let ceiling = !airy(cells, x, y + 1, z) && airy(cells, x, y - 1, z);
            let shut = opens_to(cells, x, y, z, false, false, false, false);
            let to_south = opens_to(cells, x, y, z, false, true, false, false);
            let to_north = opens_to(cells, x, y, z, true, false, false, false);
            let to_west = opens_to(cells, x, y, z, false, false, false, true);
            let to_east = opens_to(cells, x, y, z, false, false, true, false);
            let south_west = opens_to(cells, x, y, z, false, true, false, true);
            let south_east = opens_to(cells, x, y, z, false, true, true, false);
            let north_west = opens_to(cells, x, y, z, true, false, false, true);
            let north_east = opens_to(cells, x, y, z, true, false, true, false);
            let up = airy(cells, x, y + 1, z);
            &&& v.rotation == Rotation::Unrotated
            &&& v.shape == ShapeId::SlopeN <==> floor && to_south && !airy(cells, x, y - 1, z + 1)
            &&& v.shape == ShapeId::SlopeS <==> floor && to_north && !airy(cells, x, y - 1, z - 1)
            &&& v.shape == ShapeId::SlopeE <==> floor && to_west && !airy(cells, x - 1, y - 1, z)
            &&& v.shape == ShapeId::SlopeW <==> floor && to_east && !airy(cells, x + 1, y - 1, z)
            &&& v.shape == ShapeId::CeilingSlopeN <==> ceiling && to_south && !airy(
                cells,
                x,
                y + 1,
                z + 1,
            )
            &&& v.shape == ShapeId::CeilingSlopeS <==> ceiling && to_north && !airy(
                cells,
                x,
                y + 1,
                z - 1,
            )
            &&& v.shape == ShapeId::CeilingSlopeE <==> ceiling && to_west && !airy(
                cells,
                x - 1,
                y + 1,
                z,
            )
            &&& v.shape == ShapeId::CeilingSlopeW <==> ceiling && to_east && !airy(
                cells,
                x + 1,
                y + 1,
                z,
            )
            &&& v.shape == ShapeId::OuterCornerNE <==> floor && south_west
            &&& v.shape == ShapeId::OuterCornerNW <==> floor && south_east
            &&& v.shape == ShapeId::OuterCornerSE <==> floor && north_west
            &&& v.shape == ShapeId::OuterCornerSW <==> floor && north_east
            &&& v.shape == ShapeId::CeilingOuterCornerNE <==> ceiling && south_west
            &&& v.shape == ShapeId::CeilingOuterCornerNW <==> ceiling && south_east
            &&& v.shape == ShapeId::CeilingOuterCornerSE <==> ceiling && north_west
            &&& v.shape == ShapeId::CeilingOuterCornerSW <==> ceiling && north_east
            &&& v.shape == ShapeId::InnerCornerSE <==> up && shut && notched_toward(
                cells,
                x,
                y,
                z,
                1,
                1,
            )
            &&& v.shape == ShapeId::InnerCornerNE <==> up && shut && notched_toward(
                cells,
                x,
                y,
                z,
                1,
                -1,
            )
            &&& v.shape == ShapeId::InnerCornerSW <==> up && shut && notched_toward(
                cells,
                x,
                y,
                z,
                -1,
                1,
            )
            &&& v.shape == ShapeId::InnerCornerNW <==> up && shut && notched_toward(
                cells,
                x,
                y,
                z,
                -1,
                -1,
            )
        }),
{
    let i = x + 32 * y + 1024 * z;
    assert(i % 32 == x && (i / 32) % 32 == y && i / 1024 == z);
    assert forall|a: int, b: int, c: int| #[trigger] solid_at(cells, a, b, c) == !airy(
        cells,
        a,
        b,
        c,
    ) by {}
    let s = open_sides(cells, x, y, z);
}

/// What is not a cube stays as it is.
pub proof fn other_shapes_stay(cells: Seq<Voxel>, x: int, y: int, z: int)
    requires
        0 <= x < 32,
        0 <= y < 32,
        0 <= z < 32,
        cells[x + 32 * y + 1024 * z].shape != ShapeId::Cube,
    ensures
        refined_cells(cells)[x + 32 * y + 1024 * z] == cells[x + 32 * y + 1024 * z],
{
    let i = x + 32 * y + 1024 * z;
    assert(i % 32 == x && (i / 32) % 32 == y && i / 1024 == z);
}

/// Whether a height is the topmost solid cell of a column.
pub open spec fn tops_at(cells: Seq<Voxel>, x: int, z: int, y: int) -> bool {
    &&& 0 <= y < 32
    &&& cells[x + 32 * y + 1024 * z].shape != ShapeId::Empty
    &&& forall|h: int|
        y < h < 32 ==> (#[trigger] cells[x + 32 * h + 1024 * z]).shape == ShapeId::Empty
}

proof fn lemma_tops(cells: Seq<Voxel>, x: int, z: int, y: int)
    ensures
        tops_at(cells, x, z, y) ==> surface(cells, x, z) == Some(y),
        surface(cells, x, z) matches Some(t) ==> tops_at(cells, x, z, t),
{
    surface_is_topmost(cells, x, z);
    if tops_at(cells, x, z, y) {
        assert(cells[cell_index(x, y, z)].solid());
        match surface(cells, x, z) {
            Some(t) => {
                if t < y {
                    assert(!cells[cell_index(x, y, z)].solid());
                } else if y < t {
                    assert(cells[x + 32 * t + 1024 * z].shape == ShapeId::Empty);
                }
            },
            None => {},
        }
    }
    if let Some(t) = surface(cells, x, z) {
        assert forall|h: int| t < h < 32 implies (#[trigger] cells[x + 32 * h + 1024 * z]).shape
            == ShapeId::Empty by {
            assert(!cells[cell_index(x, h, z)].solid());
        }
    }
}

/// Whether every column of the chunk around a column has its own top within a step of a
/// height.
pub open spec fn is_flat(cells: Seq<Voxel>, x: int, z: int, y: int, max_step: int) -> bool {
    forall|a: int, b: int|
        0 <= a < 32 && 0 <= b < 32 && -1 <= a - x <= 1 && -1 <= b - z <= 1 && (a, b) != (x, z)
            ==> #[trigger] top_within(cells, a, b, y, max_step)
}

/// Whether a column has a top within a step of a height.
pub open spec fn top_within(cells: Seq<Voxel>, a: int, b: int, y: int, max_step: int) -> bool {
    exists|h: int| #[trigger] tops_at(cells, a, b, h) && -max_step <= h - y <= max_step
}

/// The column of the chunk nearest to a coordinate.
pub open spec fn nearest_column(v: Single) -> int {
    if v.nearest() < 0 {
        0
    } else if v.nearest() > 31 {
        31
    } else {
        v.nearest()
    }
}

/// A point finds footing just where its column has a top of a listed material, if any are
/// listed, and every column around it has a top within the step.
pub proof fn footing_is_flat_ground(
    cells: Seq<Voxel>,
    point: ScatterPoint,
    max_step: int,
    on_materials: Seq<MaterialId>,
    y: int,
)
    ensures
        ({
            let x = nearest_column(point.lx);
            let z = nearest_column(point.lz);
            let r = footing(cells, point, max_step, on_materials);
            &&& tops_at(cells, x, z, y) ==> (r == Some(y) <==> (on_materials.len() == 0 || exists|
                k: int,
            |
                0 <= k < on_materials.len() && on_materials[k] == cells[x + 32 * y + 1024
                    * z].material) && is_flat(cells, x, z, y, max_step))
            &&& r matches Some(t) ==> tops_at(cells, x, z, t)
        }),
{
    let x = nearest_column(point.lx);
    let z = nearest_column(point.lz);
    lemma_tops(cells, x, z, y);
    if tops_at(cells, x, z, y) {
        assert forall|a: int, b: int|
            0 <= a < 32 && 0 <= b < 32 && -1 <= a - x <= 1 && -1 <= b - z <= 1 && (a, b) != (x, z)
            implies level_with(cells, a, b, y, max_step) == #[trigger] top_within(
            cells,
            a,
            b,
            y,
            max_step,
        ) by {
            lemma_tops(cells, a, b, 0);
            if top_within(cells, a, b, y, max_step) {
                let h = choose|h: int| #[trigger]
                    tops_at(cells, a, b, h) && -max_step <= h - y <= max_step;
                lemma_tops(cells, a, b, h);
            }
        }
        if is_flat(cells, x, z, y, max_step) {
            assert forall|dx: int, dz: int|
                -1 <= dx <= 1 && -1 <= dz <= 1 && !(dx == 0 && dz == 0) implies
                #[trigger] level_with(cells, x + dx, z + dz, y, max_step) by {
                if 0 <= x + dx < 32 && 0 <= z + dz < 32 {
                    assert(top_within(cells, x + dx, z + dz, y, max_step));
                }
            }
        }
        if flat_around(cells, x, z, y, max_step) {
            assert forall|a: int, b: int|
                0 <= a < 32 && 0 <= b < 32 && -1 <= a - x <= 1 && -1 <= b - z <= 1 && (a, b) != (
                    x,
                    z,
                ) implies #[trigger] top_within(cells, a, b, y, max_step) by {
                assert(level_with(cells, x + (a - x), z + (b - z), y, max_step));
            }
        }
        assert(on_materials.contains(cells[cell_index(x, y, z)].material) <==> exists|k: int|
            0 <= k < on_materials.len() && on_materials[k] == cells[x + 32 * y + 1024
                * z].material);
    }
}

/// Points find footing one by one, in order, and keep everything but the surface they
/// learn.
pub proof fn points_find_footing_in_order(
    cells: Seq<Voxel>,
    a: Seq<ScatterPoint>,
    p: ScatterPoint,
    max_step: int,
    on_materials: Seq<MaterialId>,
)
    ensures
        footed(cells, Seq::empty(), max_step, on_materials).len() == 0,
        footed(cells, a.push(p), max_step, on_materials) == match footing(
            cells,
            p,
            max_step,
            on_materials,
        ) {
            None => footed(cells, a, max_step, on_materials),
            Some(y) => footed(cells, a, max_step, on_materials).push(
                ScatterPoint { lx: p.lx, lz: p.lz, surface_y: Some(y as i32), seed: p.seed },
            ),
        },
{
    assert(a.push(p).drop_last() =~= a);
}

/// The cell of a chunk that a template cell comes to lie in when it is stamped on a point
/// with a surface: the template's anchor on the point's column, one above the surface.
pub open spec fn stamps_at(p: ScatterPoint, anchor: IVec3, at: IVec3) -> (int, int, int) {
    (
        p.lx.nearest() + (at.x - anchor.x),
        p.surface_y->0 + 1 + (at.y - anchor.y),
        p.lz.nearest() + (at.z - anchor.z),
    )
}

proof fn lemma_put_all(
    cells: Seq<Voxel>,
    ox: int,
    oy: int,
    oz: int,
    template: Seq<BlueprintCell>,
    x: int,
    y: int,
    z: int,
    i: int,
)
    requires
        in_window(x, y, z),
        cells.len() == 32768,
    ensures
        put_all(cells, ox, oy, oz, template).len() == 32768,
        (forall|j: int|
            0 <= j < template.len() ==> (
                ox + (#[trigger] template[j]).at.x,
                oy + template[j].at.y,
                oz + template[j].at.z,
            ) != (x, y, z)) ==> put_all(cells, ox, oy, oz, template)[cell_index(x, y, z)]
            == cells[cell_index(x, y, z)],
        0 <= i < template.len() && (
            ox + template[i].at.x,
            oy + template[i].at.y,
            oz + template[i].at.z,
        ) == (x, y, z) && (forall|j: int|
            i < j < template.len() ==> (
                ox + (#[trigger] template[j]).at.x,
                oy + template[j].at.y,
                oz + template[j].at.z,
            ) != (x, y, z)) ==> put_all(cells, ox, oy, oz, template)[cell_index(x, y, z)]
            == template[i].voxel,
    decreases template.len(),
{
    if template.len() > 0 {
        let n = template.len() - 1;
        let short = template.drop_last();
        lemma_put_all(cells, ox, oy, oz, short, x, y, z, i);
        let last = template.last();
        assert(template[n] == last);
        let (px, py, pz) = (ox + last.at.x, oy + last.at.y, oz + last.at.z);
        if in_window(px, py, pz) {
            cell_index_is_injective(px, py, pz, x, y, z);
        }
        assert forall|j: int| 0 <= j < short.len() implies short[j] == #[trigger] template[j] by {}
        if 0 <= i < n {
            assert(short[i] == template[i]);
        }
        if forall|j: int|
            0 <= j < template.len() ==> (
                ox + (#[trigger] template[j]).at.x,
                oy + template[j].at.y,
                oz + template[j].at.z,
            ) != (x, y, z) {
            assert forall|j: int| 0 <= j < short.len() implies (
                ox + (#[trigger] short[j]).at.x,
                oy + short[j].at.y,
                oz + short[j].at.z,
            ) != (x, y, z) by {
                assert(short[j] == template[j]);
            }
        }
        if 0 <= i && forall|j: int|
            i < j < template.len() ==> (
                ox + (#[trigger] template[j]).at.x,
                oy + template[j].at.y,
                oz + template[j].at.z,
            ) != (x, y, z) {
            assert forall|j: int| i < j < short.len() implies (
                ox + (#[trigger] short[j]).at.x,
                oy + short[j].at.y,
                oz + short[j].at.z,
            ) != (x, y, z) by {
                assert(short[j] == template[j]);
            }
        }
    }
}

/// Stamping a template on one more point writes, over what the points before left, each
/// template cell where it comes to lie, the last of several in one cell; other cells stay,
/// and so do all where the point has no surface.
pub proof fn templates_stand_on_their_points(
    cells: Seq<Voxel>,
    points: Seq<ScatterPoint>,
    p: ScatterPoint,
    anchor: IVec3,
    template: Seq<BlueprintCell>,
    x: int,
    y: int,
    z: int,
    i: int,
)
    requires
        0 <= x < 32,
        0 <= y < 32,
        0 <= z < 32,
        cells.len() == 32768,
    ensures
        stamped(cells, Seq::empty(), anchor, template) == cells,
        ({
            let at = x + 32 * y + 1024 * z;
            let before = stamped(cells, points, anchor, template);
            let after = stamped(cells, points.push(p), anchor, template);
            &&& p.surface_y is None ==> after == before
            &&& p.surface_y is Some && (forall|j: int|
                0 <= j < template.len() ==> stamps_at(p, anchor, (#[trigger] template[j]).at) != (
                    x,
                    y,
                    z,
                )) ==> after[at] == before[at]
            &&& p.surface_y is Some && 0 <= i < template.len() && stamps_at(
                p,
                anchor,
                template[i].at,
            ) == (x, y, z) && (forall|j: int|
                i < j < template.len() ==> stamps_at(p, anchor, (#[trigger] template[j]).at) != (
                    x,
                    y,
                    z,
                )) ==> after[at] == template[i].voxel
        }),
{
    assert(points.push(p).drop_last() =~= points);
    lemma_stamped_len(cells, points, anchor, template);
    if p.surface_y is Some {
        let (ox, oy, oz) = (
            p.lx.nearest() - anchor.x,
            p.surface_y->0 + 1 - anchor.y,
            p.lz.nearest() - anchor.z,
        );
        lemma_put_all(
            stamped(cells, points, anchor, template),
            ox,
            oy,
            oz,
            template,
            x,
            y,
            z,
            i,
        );
        assert forall|j: int| 0 <= j < template.len() implies stamps_at(
            p,
            anchor,
            (#[trigger] template[j]).at,
        ) == (ox + template[j].at.x, oy + template[j].at.y, oz + template[j].at.z) by {}
    }
}

proof fn lemma_stamped_len(
    cells: Seq<Voxel>,
    points: Seq<ScatterPoint>,
    anchor: IVec3,
    template: Seq<BlueprintCell>,
)
    requires
        cells.len() == 32768,
    ensures
        stamped(cells, points, anchor, template).len() == 32768,
    decreases points.len(),
{
    if points.len() > 0 {
        lemma_stamped_len(cells, points.drop_last(), anchor, template);
        let rest = stamped(cells, points.drop_last(), anchor, template);
        let p = points.last();
        if p.surface_y is Some {
            lemma_put_all(
                rest,
                p.lx.nearest() - anchor.x,
                p.surface_y->0 + 1 - anchor.y,
                p.lz.nearest() - anchor.z,
                template,
                0,
                0,
                0,
                0,
            );
        }
    }
}

proof fn lemma_met(value: Single, bands: Seq<Single>, k: int)
    requires
        0 <= k <= bands.len(),
        forall|i: int| 0 <= i < k ==> value.at_least(#[trigger] bands[i]),
        forall|i: int| k <= i < bands.len() ==> !value.at_least(#[trigger] bands[i]),
    ensures
        thresholds_met(value, bands) == k,
    decreases bands.len(),
{
    if bands.len() > 0 {
        let short = bands.drop_last();
        assert(bands[bands.len() - 1] == bands.last());
        assert forall|i: int| 0 <= i < short.len() implies short[i] == #[trigger] bands[i] by {}
        lemma_met(
            value,
            short,
            if k < bands.len() {
                k
            } else {
                k - 1
            },
        );
    }
}

/// Ascending thresholds split the values into regions from the lowest up: a value between
/// two of them, meeting the lower, has the id listed for that region, or the region's
/// number where none is listed.
pub proof fn thresholds_split_values_into_regions(
    values: Seq<Single>,
    bands: Seq<Single>,
    ids: Seq<u16>,
    c: int,
    k: int,
)
    requires
        0 <= c < 1024,
        0 <= k <= bands.len() < 0x1_0000,
        forall|i: int, j: int| 0 <= i < j < bands.len() ==> bands[j].at_least(bands[i]),
        k > 0 ==> values[c].at_least(bands[k - 1]),
        k < bands.len() ==> !values[c].at_least(bands[k]) && !values[c].is_nan(),
    ensures
        region(values[c], bands) == k,
        assigned_ids(values, bands, ids).len() == 1024,
        assigned_ids(values, bands, ids)[c] == (if k < ids.len() {
            ids[k]
        } else {
            k as u16
        }),
{
    let v = values[c];
    assert forall|i: int| 0 <= i < k implies v.at_least(#[trigger] bands[i]) by {
        if i < k - 1 {
            assert(bands[k - 1].at_least(bands[i]));
        }
    }
    assert forall|i: int| k <= i < bands.len() implies !v.at_least(#[trigger] bands[i]) by {
        if i > k {
            assert(bands[i].at_least(bands[k]));
        }
    }
    lemma_met(v, bands, k);
}

} // verus!
