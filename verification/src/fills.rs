//! Whole-chunk fills that need no arithmetic on field values: materials by depth,
//! material fallback, terrain from density, and per-column values spread down.
use crate::chunk::{cell_index, ChunkBuffer};
use crate::column::ColumnField;
use crate::field::ScalarField;
use crate::library_kernel::{layered, surface_layering};
use crate::scalar::Single;
use crate::voxel::{MaterialId, Voxel};
use vstd::prelude::*;

verus! {

/// The topmost cell of a column, at or below `y`, whose density is positive.
pub open spec fn top_positive(density: Seq<Single>, x: int, z: int, y: int) -> Option<int>
    decreases y + 1,
{
    if y < 0 {
        None
    } else if density[cell_index(x, y, z)].positive() {
        Some(y)
    } else {
        top_positive(density, x, z, y - 1)
    }
}

/// The material of a cell: by depth below the column's surface, or air above it
/// and in an empty column.
pub open spec fn layer_cell(
    density: Seq<Single>,
    bands: Seq<(MaterialId, u32)>,
    fill: MaterialId,
    x: int,
    y: int,
    z: int,
) -> MaterialId {
    match top_positive(density, x, z, 31) {
        None => MaterialId(0),
        Some(sy) => if y > sy {
            MaterialId(0)
        } else {
            layered(sy - y, bands, fill)
        },
    }
}

/// Materials by depth below the surface.
pub open spec fn layer_cells(
    density: Seq<Single>,
    bands: Seq<(MaterialId, u32)>,
    fill: MaterialId,
) -> Seq<MaterialId> {
    Seq::new(
        32768,
        |i: int| layer_cell(density, bands, fill, i % 32, (i / 32) % 32, i / 1024),
    )
}

/// One material field, with another where the first is air.
pub open spec fn fallback_cells(primary: Seq<MaterialId>, fallback: Seq<MaterialId>) -> Seq<
    MaterialId,
> {
    Seq::new(
        32768,
        |i: int|
            if primary[i] != MaterialId(0) {
                primary[i]
            } else {
                fallback[i]
            },
    )
}

/// A cube of the material where density is positive, nothing elsewhere.
pub open spec fn terrain_cells(density: Seq<Single>, material: Seq<MaterialId>) -> Seq<Voxel> {
    Seq::new(
        32768,
        |i: int|
            if density[i].positive() {
                Voxel::cube_of(material[i])
            } else {
                Voxel::nothing()
            },
    )
}

/// Per-column values, the same at every height.
pub open spec fn spread_cells(columns: Seq<Single>) -> Seq<Single> {
    Seq::new(32768, |i: int| columns[i % 32 + 32 * (i / 1024)])
}

fn topmost_positive(density: &ScalarField, x: usize, z: usize) -> (r: Option<usize>)
    requires
        x < 32,
        z < 32,
    ensures
        match r {
            Some(y) => y < 32 && top_positive(density@, x as int, z as int, 31) == Some(y as int),
            None => top_positive(density@, x as int, z as int, 31) is None,
        },
{
    let mut left: usize = 32;
    while left > 0
        invariant
            x < 32,
            z < 32,
            left <= 32,
            top_positive(density@, x as int, z as int, 31) == top_positive(
                density@,
                x as int,
                z as int,
                left - 1,
            ),
        decreases left,
    {
        left = left - 1;
        if density.get(x, left, z).is_positive() {
            return Some(left);
        }
    }
    None
}

/// Fill materials by depth below the surface of each column.
pub fn fill_layers(density: &ScalarField, bands: &[(MaterialId, u32)], fill: MaterialId) -> (r:
    ChunkBuffer<MaterialId>)
    ensures
        r@ == layer_cells(density@, bands@, fill),
{
    let mut out: ChunkBuffer<MaterialId> = ChunkBuffer::uniform(MaterialId::air());
    let ghost goal = layer_cells(density@, bands@, fill);
    let mut z: usize = 0;
    while z < 32
        invariant
            z <= 32,
            out@.len() == 32768,
            goal == layer_cells(density@, bands@, fill),
            forall|i: int| 0 <= i < 1024 * z ==> out@[i] == goal[i],
        decreases 32 - z,
    {
        let mut x: usize = 0;
        while x < 32
            invariant
                z < 32,
                x <= 32,
                out@.len() == 32768,
                goal == layer_cells(density@, bands@, fill),
                forall|i: int| 0 <= i < 1024 * z ==> out@[i] == goal[i],
                forall|i: int|
                    1024 * z <= i < 1024 * z + 1024 && i % 32 < x ==> out@[i] == goal[i],
            decreases 32 - x,
        {
            let surface = topmost_positive(density, x, z);
            let mut y: usize = 0;
            while y < 32
                invariant
                    z < 32,
                    x < 32,
                    y <= 32,
                    out@.len() == 32768,
                    goal == layer_cells(density@, bands@, fill),
                    match surface {
                        Some(s) => s < 32 && top_positive(density@, x as int, z as int, 31)
                            == Some(s as int),
                        None => top_positive(density@, x as int, z as int, 31) is None,
                    },
                    forall|i: int| 0 <= i < 1024 * z ==> out@[i] == goal[i],
                    forall|i: int|
                        1024 * z <= i < 1024 * z + 1024 && (i % 32 < x || (i % 32 == x && (i / 32)
                            % 32 < y)) ==> out@[i] == goal[i],
                decreases 32 - y,
            {
                let material = match surface {
                    None => MaterialId::air(),
                    Some(s) => if y > s {
                        MaterialId::air()
                    } else {
                        surface_layering((s - y) as u32, bands, fill)
                    },
                };
                let ghost before = out@;
                out.set(x, y, z, material);
                proof {
                    let at = cell_index(x as int, y as int, z as int);
                    assert(at % 32 == x && (at / 32) % 32 == y && at / 1024 == z);
                    assert(out@[at] == goal[at]);
                    assert forall|i: int|
                        1024 * z <= i < 1024 * z + 1024 && (i % 32 < x || (i % 32 == x && (i / 32)
                            % 32 < y + 1)) implies out@[i] == goal[i] by {
                        if i != at {
                            assert(out@[i] == before[i]);
                            if i % 32 == x && (i / 32) % 32 == y {
                                assert(i / 1024 == z);
                                assert(i == cell_index(i % 32, (i / 32) % 32, i / 1024));
                            }
                        }
                    }
                }
                y = y + 1;
            }
            x = x + 1;
        }
        z = z + 1;
    }
    assert(out@ =~= goal);
    out
}

/// Take one material field, and another where the first is air.
pub fn fill_fallback(primary: &ChunkBuffer<MaterialId>, fallback: &ChunkBuffer<MaterialId>) -> (r:
    ChunkBuffer<MaterialId>)
    ensures
        r@ == fallback_cells(primary@, fallback@),
{
    let mut cells: Vec<MaterialId> = Vec::new();
    let mut i: usize = 0;
    while i < 32768
        invariant
            i <= 32768,
            cells@ == fallback_cells(primary@, fallback@).take(i as int),
        decreases 32768 - i,
    {
        let p = primary.get_index(i);
        let m = if p != MaterialId::air() {
            p
        } else {
            fallback.get_index(i)
        };
        cells.push(m);
        assert(cells@ =~= fallback_cells(primary@, fallback@).take(i + 1));
        i = i + 1;
    }
    assert(cells@ =~= fallback_cells(primary@, fallback@));
    ChunkBuffer::from_cells(cells)
}

/// Build terrain: a cube of the material where density is positive.
pub fn fill_terrain(density: &ScalarField, material: &ChunkBuffer<MaterialId>) -> (r: ChunkBuffer<
    Voxel,
>)
    ensures
        r@ == terrain_cells(density@, material@),
{
    let values = density.data();
    let mut cells: Vec<Voxel> = Vec::new();
    let mut i: usize = 0;
    while i < 32768
        invariant
            i <= 32768,
            values@ == density@,
            values@.len() == 32768,
            cells@ == terrain_cells(density@, material@).take(i as int),
        decreases 32768 - i,
    {
        let v = if values[i].is_positive() {
            Voxel::cube(material.get_index(i))
        } else {
            Voxel::empty()
        };
        cells.push(v);
        assert(cells@ =~= terrain_cells(density@, material@).take(i + 1));
        i = i + 1;
    }
    assert(cells@ =~= terrain_cells(density@, material@));
    ChunkBuffer::from_cells(cells)
}

/// Spread per-column values down every column.
pub fn fill_spread(columns: &ColumnField) -> (r: ScalarField)
    ensures
        r@ == spread_cells(columns@),
{
    let mut data: Vec<Single> = Vec::new();
    let mut i: usize = 0;
    while i < 32768
        invariant
            i <= 32768,
            data@ == spread_cells(columns@).take(i as int),
        decreases 32768 - i,
    {
        data.push(columns.get(i % 32, i / 1024));
        assert(data@ =~= spread_cells(columns@).take(i + 1));
        i = i + 1;
    }
    assert(data@ =~= spread_cells(columns@));
    ScalarField::from_data(data)
}

/// Per-column values do not vary with height.
pub proof fn spread_is_constant_down_a_column(columns: Seq<Single>, x: int, z: int, a: int, b: int)
    requires
        0 <= x < 32,
        0 <= z < 32,
        0 <= a < 32,
        0 <= b < 32,
    ensures
        spread_cells(columns)[cell_index(x, a, z)] == spread_cells(columns)[cell_index(x, b, z)],
        spread_cells(columns)[cell_index(x, a, z)] == columns[x + 32 * z],
{
}

/// Terrain is solid exactly where density is positive.
pub proof fn terrain_is_solid_where_dense(density: Seq<Single>, material: Seq<MaterialId>, i: int)
    requires
        0 <= i < 32768,
    ensures
        terrain_cells(density, material)[i].solid() <==> density[i].positive(),
{
}

} // verus!
