//! Reclassifying surface cubes as slopes and corners.
//!
//! East is `+x` and south is `+z`. A ramp is named after the side where it is
//! high, so a cube with air to the south becomes a ramp high in the north.
use crate::chunk::{cell_index, cell_index_is_onto, in_window, ChunkBuffer};
use crate::voxel::{Rotation, ShapeId, Voxel};
use vstd::prelude::*;

verus! {

/// Whether a coordinate holds a shape. Outside the chunk there is only air.
pub open spec fn solid_at(cells: Seq<Voxel>, x: int, y: int, z: int) -> bool {
    in_window(x, y, z) && cells[cell_index(x, y, z)].solid()
}

/// Which of the four sides of a cell face air.
#[derive(Clone, Copy, PartialEq, Eq, Structural, Debug)]
pub struct OpenSides {
    /// Air to the north.
    pub north: bool,
    /// Air to the south.
    pub south: bool,
    /// Air to the east.
    pub east: bool,
    /// Air to the west.
    pub west: bool,
}

/// Which sides of a cell face air.
pub open spec fn open_sides(cells: Seq<Voxel>, x: int, y: int, z: int) -> OpenSides {
    OpenSides {
        north: !solid_at(cells, x, y, z - 1),
        south: !solid_at(cells, x, y, z + 1),
        east: !solid_at(cells, x + 1, y, z),
        west: !solid_at(cells, x - 1, y, z),
    }
}

/// Exactly these sides are open.
pub open spec fn exactly(s: OpenSides, north: bool, south: bool, east: bool, west: bool) -> bool {
    s == OpenSides { north, south, east, west }
}

/// The convex corner of a cell open on exactly two adjacent sides, standing on
/// the floor or hanging from the ceiling.
pub open spec fn convex_corner(s: OpenSides, ceiling: bool) -> Option<ShapeId> {
    if exactly(s, false, true, false, true) {
        Some(if ceiling { ShapeId::CeilingOuterCornerNE } else { ShapeId::OuterCornerNE })
    } else if exactly(s, false, true, true, false) {
        Some(if ceiling { ShapeId::CeilingOuterCornerNW } else { ShapeId::OuterCornerNW })
    } else if exactly(s, true, false, false, true) {
        Some(if ceiling { ShapeId::CeilingOuterCornerSE } else { ShapeId::OuterCornerSE })
    } else if exactly(s, true, false, true, false) {
        Some(if ceiling { ShapeId::CeilingOuterCornerSW } else { ShapeId::OuterCornerSW })
    } else {
        None
    }
}

/// The ramp of a cell open on exactly one side, provided that the cell one step
/// beyond that side and `rise` up is solid.
pub open spec fn ramp(
    cells: Seq<Voxel>,
    x: int,
    y: int,
    z: int,
    s: OpenSides,
    rise: int,
) -> Option<ShapeId> {
    let ceiling = rise > 0;
    if exactly(s, false, true, false, false) && solid_at(cells, x, y + rise, z + 1) {
        Some(if ceiling { ShapeId::CeilingSlopeN } else { ShapeId::SlopeN })
    } else if exactly(s, true, false, false, false) && solid_at(cells, x, y + rise, z - 1) {
        Some(if ceiling { ShapeId::CeilingSlopeS } else { ShapeId::SlopeS })
    } else if exactly(s, false, false, false, true) && solid_at(cells, x - 1, y + rise, z) {
        Some(if ceiling { ShapeId::CeilingSlopeE } else { ShapeId::SlopeE })
    } else if exactly(s, false, false, true, false) && solid_at(cells, x + 1, y + rise, z) {
        Some(if ceiling { ShapeId::CeilingSlopeW } else { ShapeId::SlopeW })
    } else {
        None
    }
}

/// The concave corner of an enclosed cell with exactly one of its four upper
/// diagonals open.
pub open spec fn concave_corner(cells: Seq<Voxel>, x: int, y: int, z: int) -> Option<ShapeId> {
    let se = !solid_at(cells, x + 1, y + 1, z + 1);
    let ne = !solid_at(cells, x + 1, y + 1, z - 1);
    let sw = !solid_at(cells, x - 1, y + 1, z + 1);
    let nw = !solid_at(cells, x - 1, y + 1, z - 1);
    if !exactly(open_sides(cells, x, y, z), false, false, false, false) {
        None
    } else if se && !ne && !sw && !nw {
        Some(ShapeId::InnerCornerSE)
    } else if !se && ne && !sw && !nw {
        Some(ShapeId::InnerCornerNE)
    } else if !se && !ne && sw && !nw {
        Some(ShapeId::InnerCornerSW)
    } else if !se && !ne && !sw && nw {
        Some(ShapeId::InnerCornerNW)
    } else {
        None
    }
}

/// The shape a cube takes among its neighbors: a convex corner before a concave
/// one, before a ramp; on the floor where there is air above and ground below,
/// on the ceiling the other way around; a cube where nothing fits.
pub open spec fn refined_shape(cells: Seq<Voxel>, x: int, y: int, z: int) -> ShapeId {
    let above = solid_at(cells, x, y + 1, z);
    let below = solid_at(cells, x, y - 1, z);
    let s = open_sides(cells, x, y, z);
    if !above && below && convex_corner(s, false) is Some {
        convex_corner(s, false).unwrap()
    } else if !above && concave_corner(cells, x, y, z) is Some {
        concave_corner(cells, x, y, z).unwrap()
    } else if !above && below && ramp(cells, x, y, z, s, -1) is Some {
        ramp(cells, x, y, z, s, -1).unwrap()
    } else if above && !below && convex_corner(s, true) is Some {
        convex_corner(s, true).unwrap()
    } else if above && !below && ramp(cells, x, y, z, s, 1) is Some {
        ramp(cells, x, y, z, s, 1).unwrap()
    } else {
        ShapeId::Cube
    }
}

/// A cell after refinement: cubes take their refined shape unrotated, and keep
/// material and flags; anything else stays.
pub open spec fn refined_cell(cells: Seq<Voxel>, x: int, y: int, z: int) -> Voxel {
    let v = cells[cell_index(x, y, z)];
    if v.shape != ShapeId::Cube {
        v
    } else {
        Voxel {
            shape: refined_shape(cells, x, y, z),
            rotation: Rotation::Unrotated,
            material: v.material,
            flags: v.flags,
        }
    }
}

/// A chunk after refinement.
pub open spec fn refined_cells(cells: Seq<Voxel>) -> Seq<Voxel> {
    Seq::new(32768, |i: int| refined_cell(cells, i % 32, (i / 32) % 32, i / 1024))
}

fn is_solid(buf: &ChunkBuffer<Voxel>, x: i32, y: i32, z: i32) -> (r: bool)
    ensures
        r == solid_at(buf@, x as int, y as int, z as int),
{
    if x < 0 || y < 0 || z < 0 || x >= 32 || y >= 32 || z >= 32 {
        return false;
    }
    buf.get(x as usize, y as usize, z as usize).is_solid()
}

fn try_convex_corner(s: OpenSides, ceiling: bool) -> (r: Option<ShapeId>)
    ensures
        r == convex_corner(s, ceiling),
{
    match (s.north, s.south, s.east, s.west) {
        (false, true, false, true) => Some(
            if ceiling { ShapeId::CeilingOuterCornerNE } else { ShapeId::OuterCornerNE },
        ),
        (false, true, true, false) => Some(
            if ceiling { ShapeId::CeilingOuterCornerNW } else { ShapeId::OuterCornerNW },
        ),
        (true, false, false, true) => Some(
            if ceiling { ShapeId::CeilingOuterCornerSE } else { ShapeId::OuterCornerSE },
        ),
        (true, false, true, false) => Some(
            if ceiling { ShapeId::CeilingOuterCornerSW } else { ShapeId::OuterCornerSW },
        ),
        _ => None,
    }
}

fn try_ramp(buf: &ChunkBuffer<Voxel>, x: i32, y: i32, z: i32, s: OpenSides, ceiling: bool) -> (r:
    Option<ShapeId>)
    requires
        in_window(x as int, y as int, z as int),
    ensures
        r == ramp(buf@, x as int, y as int, z as int, s, if ceiling { 1int } else { -1int }),
{
    let level: i32 = if ceiling { y + 1 } else { y - 1 };
    match (s.north, s.south, s.east, s.west) {
        (false, true, false, false) => if is_solid(buf, x, level, z + 1) {
            Some(if ceiling { ShapeId::CeilingSlopeN } else { ShapeId::SlopeN })
        } else {
            None
        },
        (true, false, false, false) => if is_solid(buf, x, level, z - 1) {
            Some(if ceiling { ShapeId::CeilingSlopeS } else { ShapeId::SlopeS })
        } else {
            None
        },
        (false, false, false, true) => if is_solid(buf, x - 1, level, z) {
            Some(if ceiling { ShapeId::CeilingSlopeE } else { ShapeId::SlopeE })
        } else {
            None
        },
        (false, false, true, false) => if is_solid(buf, x + 1, level, z) {
            Some(if ceiling { ShapeId::CeilingSlopeW } else { ShapeId::SlopeW })
        } else {
            None
        },
        _ => None,
    }
}

fn try_concave_corner(buf: &ChunkBuffer<Voxel>, x: i32, y: i32, z: i32, s: OpenSides) -> (r: Option<
    ShapeId,
>)
    requires
        in_window(x as int, y as int, z as int),
        s == open_sides(buf@, x as int, y as int, z as int),
    ensures
        r == concave_corner(buf@, x as int, y as int, z as int),
{
    if s.north || s.south || s.east || s.west {
        return None;
    }
    let se = !is_solid(buf, x + 1, y + 1, z + 1);
    let ne = !is_solid(buf, x + 1, y + 1, z - 1);
    let sw = !is_solid(buf, x - 1, y + 1, z + 1);
    let nw = !is_solid(buf, x - 1, y + 1, z - 1);
    match (se, ne, sw, nw) {
        (true, false, false, false) => Some(ShapeId::InnerCornerSE),
        (false, true, false, false) => Some(ShapeId::InnerCornerNE),
        (false, false, true, false) => Some(ShapeId::InnerCornerSW),
        (false, false, false, true) => Some(ShapeId::InnerCornerNW),
        _ => None,
    }
}

fn classify(buf: &ChunkBuffer<Voxel>, x: i32, y: i32, z: i32) -> (r: ShapeId)
    requires
        in_window(x as int, y as int, z as int),
    ensures
        r == refined_shape(buf@, x as int, y as int, z as int),
{
    let above = is_solid(buf, x, y + 1, z);
    let below = is_solid(buf, x, y - 1, z);
    let s = OpenSides {
        north: !is_solid(buf, x, y, z - 1),
        south: !is_solid(buf, x, y, z + 1),
        east: !is_solid(buf, x + 1, y, z),
        west: !is_solid(buf, x - 1, y, z),
    };
    if !above {
        if below {
            if let Some(shape) = try_convex_corner(s, false) {
                return shape;
            }
        }
        if let Some(shape) = try_concave_corner(buf, x, y, z, s) {
            return shape;
        }
        if below {
            if let Some(shape) = try_ramp(buf, x, y, z, s, false) {
                return shape;
            }
        }
    } else if !below {
        if let Some(shape) = try_convex_corner(s, true) {
            return shape;
        }
        if let Some(shape) = try_ramp(buf, x, y, z, s, true) {
            return shape;
        }
    }
    ShapeId::Cube
}

/// Reclassify every cube of a chunk by its neighbors. Other voxels pass through.
pub fn refine_chunk(input: &ChunkBuffer<Voxel>) -> (r: ChunkBuffer<Voxel>)
    ensures
        r@ == refined_cells(input@),
{
    let mut cells: Vec<Voxel> = Vec::new();
    let mut k: usize = 0;
    while k < 32768
        invariant
            k <= 32768,
            cells@ == refined_cells(input@).take(k as int),
        decreases 32768 - k,
    {
        let x: usize = k % 32;
        let y: usize = (k / 32) % 32;
        let z: usize = k / 1024;
        proof {
            cell_index_is_onto(k as int);
        }
        let v = input.get(x, y, z);
        let w = if v.shape != ShapeId::Cube {
            v
        } else {
            Voxel {
                shape: classify(input, x as i32, y as i32, z as i32),
                rotation: Rotation::Unrotated,
                material: v.material,
                flags: v.flags,
            }
        };
        cells.push(w);
        assert(cells@ =~= refined_cells(input@).take(k + 1));
        k = k + 1;
    }
    assert(cells@ =~= refined_cells(input@));
    ChunkBuffer::from_cells(cells)
}

/// Refinement keeps which cells are solid, and the material and flags of every
/// cell.
pub proof fn refinement_keeps_solidity_and_material(cells: Seq<Voxel>, i: int)
    requires
        cells.len() == 32768,
        0 <= i < 32768,
    ensures
        refined_cells(cells)[i].solid() == cells[i].solid(),
        refined_cells(cells)[i].material == cells[i].material,
        refined_cells(cells)[i].flags == cells[i].flags,
{
    cell_index_is_onto(i);
}

/// A cube with solid ground on all six sides stays a cube.
pub proof fn buried_cubes_stay_cubes(cells: Seq<Voxel>, x: int, y: int, z: int)
    requires
        solid_at(cells, x + 1, y, z),
        solid_at(cells, x - 1, y, z),
        solid_at(cells, x, y + 1, z),
        solid_at(cells, x, y - 1, z),
        solid_at(cells, x, y, z + 1),
        solid_at(cells, x, y, z - 1),
    ensures
        refined_shape(cells, x, y, z) == ShapeId::Cube,
{
}

} // verus!
