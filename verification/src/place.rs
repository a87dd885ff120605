//! Stamping voxel templates into terrain at scanned points.
use crate::chunk::{cell_index, cell_index_is_injective, in_window, ChunkBuffer};
use crate::scatter::ScatterPoint;
use crate::voxel::{BlueprintCell, IVec3, ResolvedBlueprint, Voxel};
use vstd::prelude::*;

verus! {

/// A buffer with one cell written, if the cell lies in the chunk.
pub open spec fn put(cells: Seq<Voxel>, x: int, y: int, z: int, v: Voxel) -> Seq<Voxel> {
    if in_window(x, y, z) {
        cells.update(cell_index(x, y, z), v)
    } else {
        cells
    }
}

/// A buffer with template cells written in order, their origin at `(x, y, z)`.
pub open spec fn put_all(
    cells: Seq<Voxel>,
    x: int,
    y: int,
    z: int,
    template: Seq<BlueprintCell>,
) -> Seq<Voxel>
    decreases template.len(),
{
    if template.len() == 0 {
        cells
    } else {
        let c = template.last();
        put(
            put_all(cells, x, y, z, template.drop_last()),
            x + c.at.x,
            y + c.at.y,
            z + c.at.z,
            c.voxel,
        )
    }
}

/// A buffer with a template stamped at each point that has a surface, in order:
/// the anchor lands one cell above the surface, on the point's column.
pub open spec fn stamped(
    cells: Seq<Voxel>,
    points: Seq<ScatterPoint>,
    anchor: IVec3,
    template: Seq<BlueprintCell>,
) -> Seq<Voxel>
    decreases points.len(),
{
    if points.len() == 0 {
        cells
    } else {
        let rest = stamped(cells, points.drop_last(), anchor, template);
        let p = points.last();
        match p.surface_y {
            Some(sy) => put_all(
                rest,
                p.lx.nearest() - anchor.x,
                sy + 1 - anchor.y,
                p.lz.nearest() - anchor.z,
                template,
            ),
            None => rest,
        }
    }
}

fn set_clipped(out: &mut ChunkBuffer<Voxel>, x: i64, y: i64, z: i64, v: Voxel)
    ensures
        final(out)@ == put(old(out)@, x as int, y as int, z as int, v),
        old(out)@.len() == 32768 ==> final(out)@.len() == 32768,
{
    if x < 0 || y < 0 || z < 0 || x >= 32 || y >= 32 || z >= 32 {
        return;
    }
    out.set(x as usize, y as usize, z as usize, v);
}

/// Stamp a blueprint at every point that has a surface. Cells overwrite what is
/// there, and are clipped to the chunk.
pub fn place_blueprints(
    terrain: &ChunkBuffer<Voxel>,
    points: &[ScatterPoint],
    blueprint: &ResolvedBlueprint,
) -> (r: ChunkBuffer<Voxel>)
    ensures
        r@ == stamped(terrain@, points@, blueprint.anchor, blueprint.cells@),
{
    let mut out = terrain.clone();
    let mut k: usize = 0;
    while k < points.len()
        invariant
            k <= points@.len(),
            out@ == stamped(
                terrain@,
                points@.take(k as int),
                blueprint.anchor,
                blueprint.cells@,
            ),
        decreases points@.len() - k,
    {
        let p = points[k];
        assert(points@.take(k + 1).drop_last() =~= points@.take(k as int));
        if let Some(sy) = p.surface_y {
            let bx: i64 = p.lx.round() as i64 - blueprint.anchor.x as i64;
            let by: i64 = sy as i64 + 1 - blueprint.anchor.y as i64;
            let bz: i64 = p.lz.round() as i64 - blueprint.anchor.z as i64;
            let ghost before = out@;
            let mut c: usize = 0;
            while c < blueprint.cells.len()
                invariant
                    c <= blueprint.cells@.len(),
                    -0x1_0000_0000 <= bx <= 0x1_0000_0000,
                    -0x1_0000_0000 <= by <= 0x1_0000_0000,
                    -0x1_0000_0000 <= bz <= 0x1_0000_0000,
                    out@ == put_all(
                        before,
                        bx as int,
                        by as int,
                        bz as int,
                        blueprint.cells@.take(c as int),
                    ),
                decreases blueprint.cells@.len() - c,
            {
                let cell = blueprint.cells[c];
                assert(blueprint.cells@.take(c + 1).drop_last() =~= blueprint.cells@.take(
                    c as int,
                ));
                set_clipped(
                    &mut out,
                    bx + cell.at.x as i64,
                    by + cell.at.y as i64,
                    bz + cell.at.z as i64,
                    cell.voxel,
                );
                c = c + 1;
            }
            assert(blueprint.cells@.take(c as int) =~= blueprint.cells@);
        }
        k = k + 1;
    }
    assert(points@.take(k as int) =~= points@);
    out
}

/// Whether a template with its origin at `(x, y, z)` covers a cell.
pub open spec fn covers(
    x: int,
    y: int,
    z: int,
    template: Seq<BlueprintCell>,
    a: int,
    b: int,
    c: int,
) -> bool {
    exists|i: int|
        0 <= i < template.len() && x + (#[trigger] template[i]).at.x == a && y
            + template[i].at.y == b && z + template[i].at.z == c
}

/// Stamping leaves every cell that the template does not cover, and only writes
/// voxels of the template.
pub proof fn stamping_is_local(
    cells: Seq<Voxel>,
    x: int,
    y: int,
    z: int,
    template: Seq<BlueprintCell>,
    a: int,
    b: int,
    c: int,
)
    requires
        cells.len() == 32768,
        in_window(a, b, c),
    ensures
        put_all(cells, x, y, z, template).len() == 32768,
        !covers(x, y, z, template, a, b, c) ==> put_all(
            cells,
            x,
            y,
            z,
            template,
        )[cell_index(a, b, c)] == cells[cell_index(a, b, c)],
        covers(x, y, z, template, a, b, c) ==> exists|i: int|
            0 <= i < template.len() && put_all(cells, x, y, z, template)[cell_index(a, b, c)] == (
            #[trigger] template[i]).voxel,
    decreases template.len(),
{
    if template.len() > 0 {
        let short = template.drop_last();
        let last = template.last();
        stamping_is_local(cells, x, y, z, short, a, b, c);
        let (px, py, pz) = (x + last.at.x, y + last.at.y, z + last.at.z);
        if in_window(px, py, pz) {
            cell_index_is_injective(px, py, pz, a, b, c);
        }
        let out = put_all(cells, x, y, z, template)[cell_index(a, b, c)];
        if covers(x, y, z, template, a, b, c) {
            if px == a && py == b && pz == c {
                assert(out == template[template.len() - 1].voxel);
            } else {
                let i = choose|i: int|
                    0 <= i < template.len() && x + (#[trigger] template[i]).at.x == a && y
                        + template[i].at.y == b && z + template[i].at.z == c;
                assert(short[i] == template[i]);
                assert(covers(x, y, z, short, a, b, c));
                let j = choose|j: int|
                    0 <= j < short.len() && put_all(cells, x, y, z, short)[cell_index(a, b, c)]
                        == (#[trigger] short[j]).voxel;
                assert(template[j] == short[j]);
            }
        } else {
            assert(template[template.len() - 1] == last);
            if covers(x, y, z, short, a, b, c) {
                let i = choose|i: int|
                    0 <= i < short.len() && x + (#[trigger] short[i]).at.x == a && y
                        + short[i].at.y == b && z + short[i].at.z == c;
                assert(template[i] == short[i]);
            }
        }
    }
}

} // verus!
