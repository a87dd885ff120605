//! What holds of a report on a column: it says of the column what generating its
//! chunk made of it.
use crate::border::{scans, scans_find_the_nearest, span, BorderScan};
use crate::chunk::{cell_index, column_index};
use crate::context::EvalContext;
use crate::graph::Graph;
use crate::inspect::{
    channel_of, channels_of, filed, named_in_order, reports, top_voxels, ChannelView,
    ColumnReport, FADE_RADIUS, REPORTED_VOXELS,
};
use crate::scalar::Single;
use crate::slots::NodeId;
use crate::text::{text_before, text_order_is_strict_and_total, text_order_is_transitive};
use crate::voxel::{MaterialId, ShapeId, Voxel};
use vstd::prelude::*;

verus! {

/// What a report lists of a filled cell.
pub open spec fn listed(cells: Seq<Voxel>, x: int, y: int, z: int, base_y: int) -> (
    i32,
    MaterialId,
    ShapeId,
) {
    let v = cells[cell_index(x, y, z)];
    ((base_y + y) as i32, v.material, v.shape)
}

/// Whether a cell of a column is filled.
pub open spec fn filled(cells: Seq<Voxel>, x: int, y: int, z: int) -> bool {
    cells[cell_index(x, y, z)] != Voxel::nothing()
}

/// Whether a row lists a filled cell among the lowest `left` ones of a column.
pub open spec fn lists_a_cell(
    row: (i32, MaterialId, ShapeId),
    cells: Seq<Voxel>,
    x: int,
    z: int,
    base_y: int,
    left: int,
) -> bool {
    exists|y: int|
        0 <= y < left && #[trigger] filled(cells, x, y, z) && row == listed(
            cells,
            x,
            y,
            z,
            base_y,
        )
}

proof fn lemma_top_voxels(
    cells: Seq<Voxel>,
    x: int,
    z: int,
    base_y: int,
    left: int,
    limit: int,
)
    requires
        0 <= left <= 32,
        limit >= 0,
        -0x8000_0000 <= base_y,
        base_y + 31 <= 0x7fff_ffff,
    ensures
        ({
            let rows = top_voxels(cells, x, z, base_y, left, limit);
            &&& rows.len() <= limit
            &&& forall|i: int|
                0 <= i < rows.len() ==> lists_a_cell(
                    #[trigger] rows[i],
                    cells,
                    x,
                    z,
                    base_y,
                    left,
                ) && base_y <= rows[i].0 < base_y + left
            &&& forall|i: int, j: int|
                0 <= i < j < rows.len() ==> (#[trigger] rows[i]).0 > (#[trigger] rows[j]).0
            &&& forall|y: int|
                0 <= y < left && #[trigger] filled(cells, x, y, z) ==> rows.contains(
                    listed(cells, x, y, z, base_y),
                ) || (rows.len() == limit && (limit > 0 ==> base_y + y < rows.last().0))
        }),
    decreases left,
{
    let rows = top_voxels(cells, x, z, base_y, left, limit);
    if left > 0 && limit > 0 {
        let y = left - 1;
        if filled(cells, x, y, z) {
            lemma_top_voxels(cells, x, z, base_y, y, limit - 1);
            let below = top_voxels(cells, x, z, base_y, y, limit - 1);
            let first = listed(cells, x, y, z, base_y);
            assert(rows == seq![first] + below);
            assert(rows[0] == first);
            assert forall|i: int| 0 <= i < rows.len() implies lists_a_cell(
                #[trigger] rows[i],
                cells,
                x,
                z,
                base_y,
                left,
            ) && base_y <= rows[i].0 < base_y + left by {
                if i > 0 {
                    assert(rows[i] == below[i - 1]);
                    assert(lists_a_cell(below[i - 1], cells, x, z, base_y, y));
                }
            }
            assert forall|i: int, j: int| 0 <= i < j < rows.len() implies (
            #[trigger] rows[i]).0 > (#[trigger] rows[j]).0 by {
                assert(rows[j] == below[j - 1]);
                if i > 0 {
                    assert(rows[i] == below[i - 1]);
                }
            }
            assert forall|u: int|
                0 <= u < left && #[trigger] filled(cells, x, u, z) implies rows.contains(
                listed(cells, x, u, z, base_y),
            ) || (rows.len() == limit && base_y + u < rows.last().0) by {
                if u < y {
                    let row = listed(cells, x, u, z, base_y);
                    if below.contains(row) {
                        let n = choose|n: int| 0 <= n < below.len() && below[n] == row;
                        assert(rows[n + 1] == row);
                    } else if limit > 1 {
                        assert(rows.last() == below.last());
                    } else {
                        assert(rows.last() == first);
                    }
                }
            }
        } else {
            lemma_top_voxels(cells, x, z, base_y, y, limit);
            assert forall|i: int| 0 <= i < rows.len() implies lists_a_cell(
                #[trigger] rows[i],
                cells,
                x,
                z,
                base_y,
                left,
            ) by {
                assert(lists_a_cell(rows[i], cells, x, z, base_y, y));
            }
        }
    }
}

/// A report agrees with what its chunk was generated to. The zone and biome are the
/// column's own, 0 where none were resolved; the border is no further than the fade
/// reaches; the rows list filled cells of the column, at most as many as a report
/// holds, strictly from the top down, and leave out none above the last; and the
/// surface is the topmost filled cell, missing exactly where the column is empty.
pub proof fn reports_agree_with_generation(
    r: ColumnReport,
    ctx: EvalContext,
    x: int,
    z: int,
    zones: Option<Seq<u16>>,
    biomes: Option<Seq<u16>>,
    border: Option<BorderScan>,
    grid: Seq<u16>,
    samples: Seq<Option<Single>>,
    lowest: int,
    shown: int,
    terrain: Seq<Voxel>,
    ponds: Option<Seq<Single>>,
)
    requires
        0 <= x < 32,
        0 <= z < 32,
        -0x400_0000 <= shown < 0x400_0000,
        border matches Some(b) ==> scans(b, grid, FADE_RADIUS as int),
        reports(
            r,
            ctx,
            x,
            z,
            zones,
            biomes,
            border,
            samples,
            lowest,
            shown,
            terrain,
            ponds,
        ),
    ensures
        r.zone_id == match zones {
            Some(ids) => ids[column_index(x, z)],
            None => 0,
        },
        r.biome_id == match biomes {
            Some(ids) => ids[column_index(x, z)],
            None => 0,
        },
        r.border_distance_squared <= r.fade_radius * r.fade_radius,
        r.voxels@.len() <= REPORTED_VOXELS,
        forall|i: int|
            0 <= i < r.voxels@.len() ==> lists_a_cell(
                #[trigger] r.voxels@[i],
                terrain,
                x,
                z,
                32 * shown,
                32,
            ),
        forall|i: int, j: int|
            0 <= i < j < r.voxels@.len() ==> (#[trigger] r.voxels@[i]).0 > (
            #[trigger] r.voxels@[j]).0,
        forall|y: int|
            0 <= y < 32 && #[trigger] filled(terrain, x, y, z) ==> r.voxels@.contains(
                listed(terrain, x, y, z, 32 * shown),
            ) || (r.voxels@.len() == REPORTED_VOXELS && 32 * shown + y < r.voxels@.last().0),
        r.surface_y is None <==> r.voxels@.len() == 0,
        r.surface_y is None <==> forall|y: int|
            0 <= y < 32 ==> !#[trigger] filled(terrain, x, y, z),
        r.surface_y matches Some(top) ==> top == r.voxels@[0].0 && forall|y: int|
            0 <= y < 32 && #[trigger] filled(terrain, x, y, z) ==> 32 * shown + y <= top,
{
    if let Some(b) = border {
        let i = column_index(x, z);
        let radius = FADE_RADIUS as int;
        let ids = crate::border::grid_ids(grid, 32 + 2 * radius);
        assert(0 <= i < 1024);
        assert(span(radius) * span(radius) >= 0);
        scans_find_the_nearest(
            ids,
            radius + i % 32,
            radius + i / 32,
            radius,
            span(radius) * span(radius),
        );
        assert(b.distance_squared@[i] <= 100);
    }
    lemma_top_voxels(terrain, x, z, 32 * shown, 32, REPORTED_VOXELS as int);
    let rows = r.voxels@;
    if rows.len() > 0 {
        assert(lists_a_cell(rows[0], terrain, x, z, 32 * shown, 32));
        assert forall|y: int| 0 <= y < 32 && #[trigger] filled(terrain, x, y, z) implies 32
            * shown + y <= rows[0].0 by {
            let row = listed(terrain, x, y, z, 32 * shown);
            if rows.contains(row) {
                let n = choose|n: int| 0 <= n < rows.len() && rows[n] == row;
                assert(rows[n].0 == 32 * shown + y);
            }
        }
    }
}

proof fn lemma_filed(s: Seq<ChannelView>, c: ChannelView)
    requires
        named_in_order(s),
    ensures
        named_in_order(filed(s, c)),
        forall|i: int|
            0 <= i < filed(s, c).len() ==> #[trigger] filed(s, c)[i] == c || s.contains(
                filed(s, c)[i],
            ),
    decreases s.len(),
{
    let r = filed(s, c);
    if s.len() == 0 || !text_before(c.name, s.last().name) {
        assert forall|i: int, j: int| 0 <= i < j < r.len() implies !text_before(
            (#[trigger] r[j]).name,
            (#[trigger] r[i]).name,
        ) by {
            assert(r[i] == s[i]);
            if j < s.len() {
                assert(r[j] == s[j]);
            } else {
                let last = s[s.len() - 1];
                if text_before(c.name, s[i].name) {
                    if i < s.len() - 1 {
                        assert(!text_before(last.name, s[i].name));
                    }
                    text_order_is_strict_and_total(s[i].name, last.name);
                    if text_before(s[i].name, last.name) {
                        text_order_is_transitive(c.name, s[i].name, last.name);
                    }
                }
            }
        }
        assert forall|i: int| 0 <= i < r.len() implies #[trigger] r[i] == c || s.contains(
            r[i],
        ) by {
            if i < s.len() {
                assert(r[i] == s[i]);
            }
        }
    } else {
        let short = s.drop_last();
        assert forall|i: int, j: int| 0 <= i < j < short.len() implies !text_before(
            (#[trigger] short[j]).name,
            (#[trigger] short[i]).name,
        ) by {
            assert(short[i] == s[i] && short[j] == s[j]);
        }
        lemma_filed(short, c);
        let part = filed(short, c);
        assert forall|i: int| 0 <= i < part.len() implies #[trigger] part[i] == c || exists|n: int|
            0 <= n < s.len() - 1 && s[n] == part[i] by {
            if part[i] != c {
                assert(short.contains(part[i]));
                let n = choose|n: int| 0 <= n < short.len() && short[n] == part[i];
                assert(s[n] == part[i]);
            }
        }
        assert forall|i: int, j: int| 0 <= i < j < r.len() implies !text_before(
            (#[trigger] r[j]).name,
            (#[trigger] r[i]).name,
        ) by {
            assert(r[i] == part[i]);
            if j < part.len() {
                assert(r[j] == part[j]);
            } else if part[i] == c {
                text_order_is_strict_and_total(c.name, s.last().name);
            } else {
                let n = choose|n: int| 0 <= n < s.len() - 1 && s[n] == part[i];
                assert(!text_before(s[s.len() - 1].name, s[n].name));
            }
        }
        assert forall|i: int| 0 <= i < r.len() implies #[trigger] r[i] == c || s.contains(
            r[i],
        ) by {
            if i < part.len() {
                assert(r[i] == part[i]);
            } else {
                assert(r[i] == s[s.len() - 1]);
            }
        }
    }
}

/// Climate channels stand in order of name.
pub proof fn channels_are_in_order(world: Graph, world_seed: u64, keys: Seq<NodeId>)
    ensures
        named_in_order(channels_of(world, world_seed, keys)),
    decreases keys.len(),
{
    if keys.len() > 0 {
        channels_are_in_order(world, world_seed, keys.drop_last());
        if let Some(c) = channel_of(world, world_seed, keys.last()) {
            lemma_filed(channels_of(world, world_seed, keys.drop_last()), c);
        }
    }
}

} // verus!
