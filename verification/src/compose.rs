//! Composing the terrain of a chunk: how the densities of its columns are blended
//! across borders, how far is looked above it, and what the biomes make of both.
use crate::border::BorderScan;
use crate::chunk::{cell_index, cell_index_is_onto, column_index, ChunkBuffer};
use crate::column::IdColumn;
use crate::composite::{
    blend_of, column_blend, composed, composite_terrain, depth_of_interest, ids_of, layer_of,
    layer_views, look_higher, undecided, ColumnBlend, LayerView, TerrainLayer,
};
use crate::field::ScalarField;
use crate::scalar::Single;
use crate::voxel::Voxel;
use vstd::prelude::*;

verus! {

/// Bits of the density that columns without a biome layer get: minus one.
pub const NO_GROUND: u32 = 0xbf80_0000;

/// The nearest other biomes, as a value.
pub open spec fn scan_of(border: Option<&BorderScan>) -> Option<BorderScan> {
    match border {
        Some(b) => Some(*b),
        None => None,
    }
}

/// Whether a density is what a column's blend makes of its cell.
pub open spec fn blends_to<B: Fn(Single, Single, u32) -> Single>(
    blend: B,
    layers: Seq<LayerView>,
    column: ColumnBlend,
    cell: int,
    v: Single,
) -> bool {
    match column {
        ColumnBlend::Air => v == (Single { bits: NO_GROUND }),
        ColumnBlend::Own { layer } => v == layers[layer as int].density[cell],
        ColumnBlend::Fade { layer, neighbor, distance_squared } => mixes_to(
            blend,
            layers[layer as int].density[cell],
            layers[neighbor as int].density[cell],
            distance_squared,
            v,
        ),
    }
}

/// Whether a density is a mixture of two, at a squared distance from the border.
pub open spec fn mixes_to<B: Fn(Single, Single, u32) -> Single>(
    blend: B,
    own: Single,
    other: Single,
    distance_squared: u32,
    v: Single,
) -> bool {
    call_ensures(blend, (own, other, distance_squared), v)
}

/// Whether a density, or none, is what a column's blend makes of a cell over the
/// chunk: its own biome decides whether there is one, and the biome it fades toward
/// takes part where it has one too.
pub open spec fn looks_like<
    B: Fn(Single, Single, u32) -> Single,
    A: Fn(usize, usize, usize, usize) -> Option<Single>,
>(blend: B, above: A, column: ColumnBlend, x: usize, y: usize, z: usize, v: Option<Single>) -> bool {
    match column {
        ColumnBlend::Air => v is None,
        ColumnBlend::Own { layer } => call_ensures(above, (layer, x, y, z), v),
        ColumnBlend::Fade { layer, neighbor, distance_squared } => match v {
            None => call_ensures(above, (layer, x, y, z), None),
            Some(d) => {
                ||| call_ensures(above, (layer, x, y, z), Some(d)) && call_ensures(
                    above,
                    (neighbor, x, y, z),
                    None,
                )
                ||| exists|own: Single, other: Single| #[trigger]
                    mixes_to(blend, own, other, distance_squared, d) && call_ensures(
                        above,
                        (layer, x, y, z),
                        Some(own),
                    ) && call_ensures(above, (neighbor, x, y, z), Some(other))
            },
        },
    }
}

/// Whether a field holds the blended densities of a chunk.
pub open spec fn is_blended<B: Fn(Single, Single, u32) -> Single>(
    blend: B,
    layers: Seq<LayerView>,
    biomes: Option<Seq<u16>>,
    border: Option<BorderScan>,
    field: Seq<Single>,
) -> bool {
    &&& field.len() == 32768
    &&& forall|i: int|
        0 <= i < 32768 ==> blends_to(
            blend,
            layers,
            column_blend(layers, biomes, border, i % 32, i / 1024),
            i,
            #[trigger] field[i],
        )
}

/// The rule of a column's own biome.
pub open spec fn own_depth(layers: Seq<LayerView>, column: ColumnBlend) -> int {
    match column {
        ColumnBlend::Air => 0,
        ColumnBlend::Own { layer } => depth_of_interest(layers[layer as int].rule),
        ColumnBlend::Fade { layer, .. } => depth_of_interest(layers[layer as int].rule),
    }
}

/// Whether one more cell over a column can still matter, after those looked at.
pub open spec fn still_open(
    layers: Seq<LayerView>,
    column: ColumnBlend,
    samples: Seq<Single>,
) -> bool {
    match column {
        ColumnBlend::Air => false,
        ColumnBlend::Own { layer } => undecided(layers[layer as int].rule, samples),
        ColumnBlend::Fade { layer, .. } => undecided(layers[layer as int].rule, samples),
    }
}

/// Whether a density over one column was looked at because it could still matter, and
/// is what the column's blend makes of its cell.
pub open spec fn is_next<
    B: Fn(Single, Single, u32) -> Single,
    A: Fn(usize, usize, usize, usize) -> Option<Single>,
>(
    blend: B,
    above: A,
    layers: Seq<LayerView>,
    column: ColumnBlend,
    x: usize,
    z: usize,
    samples: Seq<Single>,
    k: int,
) -> bool {
    &&& still_open(layers, column, samples.take(k))
    &&& looks_like(blend, above, column, x, (32 + k) as usize, z, Some(samples[k]))
}

/// Whether densities are the first ones over one column.
pub open spec fn are_next<
    B: Fn(Single, Single, u32) -> Single,
    A: Fn(usize, usize, usize, usize) -> Option<Single>,
>(
    blend: B,
    above: A,
    layers: Seq<LayerView>,
    column: ColumnBlend,
    x: usize,
    z: usize,
    samples: Seq<Single>,
) -> bool {
    forall|k: int|
        0 <= k < samples.len() ==> #[trigger] is_next(
            blend,
            above,
            layers,
            column,
            x,
            z,
            samples,
            k,
        )
}

/// Whether densities are those over one column whose top cell is solid: from the
/// bottom up, as long as another can matter and can be had.
pub open spec fn is_looked_at<
    B: Fn(Single, Single, u32) -> Single,
    A: Fn(usize, usize, usize, usize) -> Option<Single>,
>(
    blend: B,
    above: A,
    layers: Seq<LayerView>,
    column: ColumnBlend,
    x: usize,
    z: usize,
    samples: Seq<Single>,
) -> bool {
    &&& are_next(blend, above, layers, column, x, z, samples)
    &&& !still_open(layers, column, samples) || looks_like(
        blend,
        above,
        column,
        x,
        (32 + samples.len()) as usize,
        z,
        None,
    )
}

proof fn lemma_one_more<
    B: Fn(Single, Single, u32) -> Single,
    A: Fn(usize, usize, usize, usize) -> Option<Single>,
>(
    blend: B,
    above: A,
    layers: Seq<LayerView>,
    column: ColumnBlend,
    x: usize,
    z: usize,
    samples: Seq<Single>,
    v: Single,
)
    requires
        are_next(blend, above, layers, column, x, z, samples),
        still_open(layers, column, samples),
        looks_like(blend, above, column, x, (32 + samples.len()) as usize, z, Some(v)),
    ensures
        are_next(blend, above, layers, column, x, z, samples.push(v)),
{
    let longer = samples.push(v);
    assert forall|k: int| 0 <= k < longer.len() implies #[trigger] is_next(
        blend,
        above,
        layers,
        column,
        x,
        z,
        longer,
        k,
    ) by {
        if k < samples.len() {
            assert(is_next(blend, above, layers, column, x, z, samples, k));
            assert(longer.take(k) =~= samples.take(k));
        } else {
            assert(longer.take(k) =~= samples);
        }
    }
}

/// Whether lists hold the densities over the columns of a chunk; nothing over a
/// column whose top cell is not solid.
pub open spec fn are_looked_at<
    B: Fn(Single, Single, u32) -> Single,
    A: Fn(usize, usize, usize, usize) -> Option<Single>,
>(
    blend: B,
    above: A,
    layers: Seq<LayerView>,
    biomes: Option<Seq<u16>>,
    border: Option<BorderScan>,
    field: Seq<Single>,
    lists: Seq<Vec<Single>>,
) -> bool {
    &&& lists.len() == 1024
    &&& forall|c: int|
        0 <= c < 1024 ==> if field[cell_index(c % 32, 31, c / 32)].positive() {
            is_looked_at(
                blend,
                above,
                layers,
                column_blend(layers, biomes, border, c % 32, c / 32),
                (c % 32) as usize,
                (c / 32) as usize,
                (#[trigger] lists[c])@,
            )
        } else {
            lists[c]@.len() == 0
        }
}

/// The blended density of one cell.
fn blend_cell<B: Fn(Single, Single, u32) -> Single>(
    blend: &B,
    layers: &Vec<TerrainLayer<'_>>,
    column: ColumnBlend,
    x: usize,
    y: usize,
    z: usize,
) -> (r: Single)
    requires
        x < 32,
        y < 32,
        z < 32,
        forall|a: Single, b: Single, d: u32| #[trigger] call_requires(*blend, (a, b, d)),
        match column {
            ColumnBlend::Air => true,
            ColumnBlend::Own { layer } => layer < layers@.len(),
            ColumnBlend::Fade { layer, neighbor, .. } => layer < layers@.len() && neighbor
                < layers@.len(),
        },
    ensures
        blends_to(
            *blend,
            layer_views(layers@),
            column,
            cell_index(x as int, y as int, z as int),
            r,
        ),
{
    match column {
        ColumnBlend::Air => Single { bits: NO_GROUND },
        ColumnBlend::Own { layer } => layers[layer].density.get(x, y, z),
        ColumnBlend::Fade { layer, neighbor, distance_squared } => blend(
            layers[layer].density.get(x, y, z),
            layers[neighbor].density.get(x, y, z),
            distance_squared,
        ),
    }
}

/// The blended density of one cell over the chunk, if it can be had.
fn blend_above<
    B: Fn(Single, Single, u32) -> Single,
    A: Fn(usize, usize, usize, usize) -> Option<Single>,
>(blend: &B, above: &A, column: ColumnBlend, x: usize, y: usize, z: usize) -> (r: Option<Single>)
    requires
        forall|a: Single, b: Single, d: u32| #[trigger] call_requires(*blend, (a, b, d)),
        forall|l: usize, i: usize, j: usize, k: usize| #[trigger]
            call_requires(*above, (l, i, j, k)),
    ensures
        looks_like(*blend, *above, column, x, y, z, r),
{
    match column {
        ColumnBlend::Air => None,
        ColumnBlend::Own { layer } => above(layer, x, y, z),
        ColumnBlend::Fade { layer, neighbor, distance_squared } => {
            let own = above(layer, x, y, z);
            match own {
                None => None,
                Some(d) => {
                    let other = above(neighbor, x, y, z);
                    match other {
                        None => Some(d),
                        Some(n) => {
                            let v = blend(d, n, distance_squared);
                            assert(mixes_to(*blend, d, n, distance_squared, v));
                            Some(v)
                        },
                    }
                },
            }
        },
    }
}

/// The densities over one column whose top cell is solid.
fn look_above<
    B: Fn(Single, Single, u32) -> Single,
    A: Fn(usize, usize, usize, usize) -> Option<Single>,
>(
    blend: &B,
    above: &A,
    layers: &Vec<TerrainLayer<'_>>,
    column: ColumnBlend,
    x: usize,
    z: usize,
) -> (r: Vec<Single>)
    requires
        x < 32,
        z < 32,
        forall|a: Single, b: Single, d: u32| #[trigger] call_requires(*blend, (a, b, d)),
        forall|l: usize, i: usize, j: usize, k: usize| #[trigger]
            call_requires(*above, (l, i, j, k)),
        match column {
            ColumnBlend::Air => true,
            ColumnBlend::Own { layer } => layer < layers@.len(),
            ColumnBlend::Fade { layer, .. } => layer < layers@.len(),
        },
        own_depth(layer_views(layers@), column) <= 0xffff_ffe0,
    ensures
        is_looked_at(
            *blend,
            *above,
            layer_views(layers@),
            column,
            x,
            z,
            r@,
        ),
        r@.len() <= 0xffff_ffe0,
{
    let ghost views = layer_views(layers@);
    let mut out: Vec<Single> = Vec::new();
    let layer: usize = match column {
        ColumnBlend::Air => return out,
        ColumnBlend::Own { layer } => layer,
        ColumnBlend::Fade { layer, .. } => layer,
    };
    assert(views[layer as int] == layers@[layer as int]@);
    let mut more: bool = true;
    while more
        invariant
            x < 32,
            z < 32,
            layer < layers@.len(),
            views == layer_views(layers@),
            views[layer as int] == layers@[layer as int]@,
            match column {
                ColumnBlend::Air => false,
                ColumnBlend::Own { layer: l } => l == layer,
                ColumnBlend::Fade { layer: l, .. } => l == layer,
            },
            depth_of_interest(views[layer as int].rule) <= 0xffff_ffe0,
            out@.len() <= 0xffff_ffe0,
            forall|a: Single, b: Single, d: u32| #[trigger] call_requires(*blend, (a, b, d)),
            forall|l: usize, i: usize, j: usize, k: usize| #[trigger]
                call_requires(*above, (l, i, j, k)),
            are_next(*blend, *above, views, column, x, z, out@),
            !more ==> (!still_open(views, column, out@) || looks_like(
                *blend,
                *above,
                column,
                x,
                (32 + out@.len()) as usize,
                z,
                None,
            )),
        decreases
                0xffff_ffe0 - out@.len(),
                if more {
                    1int
                } else {
                    0int
                },
    {
        if !look_higher(layers[layer].rule, &out) {
            more = false;
        } else {
            match blend_above(blend, above, column, x, 32 + out.len(), z) {
                None => {
                    more = false;
                },
                Some(v) => {
                    proof {
                        lemma_one_more(*blend, *above, views, column, x, z, out@, v);
                    }
                    out.push(v);
                },
            }
        }
    }
    out
}

/// Compose the terrain of a chunk from the layers of its biomes: the density of each
/// column is its own biome's, blended toward the nearest other biome where there is
/// one; a cell is solid where that is positive; and its material is its own biome's,
/// by depth below the true surface, which may lie above the chunk. `blend` mixes a
/// density with a neighbor's at a squared distance from the border; `above` gives the
/// density of a layer at a cell over the chunk, where it can be had.
pub fn compose_terrain<
    B: Fn(Single, Single, u32) -> Single,
    A: Fn(usize, usize, usize, usize) -> Option<Single>,
>(
    layers: &Vec<TerrainLayer<'_>>,
    biomes: Option<&IdColumn>,
    border: Option<&BorderScan>,
    blend: &B,
    above: &A,
) -> (r: ChunkBuffer<Voxel>)
    requires
        border matches Some(b) ==> b.distance_squared@.len() == 1024,
        forall|a: Single, b: Single, d: u32| #[trigger] call_requires(*blend, (a, b, d)),
        forall|l: usize, i: usize, j: usize, k: usize| #[trigger]
            call_requires(*above, (l, i, j, k)),
        forall|i: int|
            0 <= i < layers@.len() ==> depth_of_interest((#[trigger] layers@[i]).rule@)
                <= 0xffff_ffe0,
    ensures
        exists|field: Seq<Single>, lists: Seq<Vec<Single>>|
            {
                &&& is_blended(
                    *blend,
                    layer_views(layers@),
                    ids_of(biomes),
                    scan_of(border),
                    field,
                )
                &&& #[trigger] are_looked_at(
                    *blend,
                    *above,
                    layer_views(layers@),
                    ids_of(biomes),
                    scan_of(border),
                    field,
                    lists,
                )
                &&& r@ == composed(layer_views(layers@), ids_of(biomes), field, lists)
            },
{
    let ghost views = layer_views(layers@);
    let ghost ids = ids_of(biomes);
    let ghost scan = scan_of(border);
    let mut columns: Vec<ColumnBlend> = Vec::new();
    let mut c: usize = 0;
    while c < 1024
        invariant
            c <= 1024,
            border matches Some(b) ==> b.distance_squared@.len() == 1024,
            views == layer_views(layers@),
            ids == ids_of(biomes),
            scan == scan_of(border),
            columns@.len() == c,
            forall|i: int|
                0 <= i < c ==> (#[trigger] columns@[i]) == column_blend(
                    views,
                    ids,
                    scan,
                    i % 32,
                    i / 32,
                ),
        decreases 1024 - c,
    {
        columns.push(blend_of(layers, biomes, border, c % 32, c / 32));
        c = c + 1;
    }
    let field = blend_field(blend, layers, &columns, Ghost(ids), Ghost(scan));
    let mut lists: Vec<Vec<Single>> = Vec::new();
    let mut c: usize = 0;
    while c < 1024
        invariant
            c <= 1024,
            views == layer_views(layers@),
            columns@.len() == 1024,
            forall|i: int|
                0 <= i < 1024 ==> (#[trigger] columns@[i]) == column_blend(
                    views,
                    ids,
                    scan,
                    i % 32,
                    i / 32,
                ),
            forall|a: Single, b: Single, d: u32| #[trigger] call_requires(*blend, (a, b, d)),
            forall|l: usize, i: usize, j: usize, k: usize| #[trigger]
                call_requires(*above, (l, i, j, k)),
            forall|i: int|
                0 <= i < layers@.len() ==> depth_of_interest((#[trigger] layers@[i]).rule@)
                    <= 0xffff_ffe0,
            lists@.len() == c,
            forall|i: int|
                0 <= i < c ==> (#[trigger] lists@[i])@.len() <= 0xffff_ffe0 && if field@[cell_index(
                    i % 32,
                    31,
                    i / 32,
                )].positive() {
                    is_looked_at(
                        *blend,
                        *above,
                        views,
                        column_blend(views, ids, scan, i % 32, i / 32),
                        (i % 32) as usize,
                        (i / 32) as usize,
                        lists@[i]@,
                    )
                } else {
                    lists@[i]@.len() == 0
                },
        decreases 1024 - c,
    {
        let x: usize = c % 32;
        let z: usize = c / 32;
        proof {
            lemma_blend_in_range(views, ids, scan, x as int, z as int);
        }
        if field.get(x, 31, z).is_positive() {
            lists.push(look_above(blend, above, layers, columns[c], x, z));
        } else {
            lists.push(Vec::new());
        }
        c = c + 1;
    }
    assert(are_looked_at(*blend, *above, views, ids, scan, field@, lists@));
    composite_terrain(layers, biomes, &field, &lists)
}

/// The positions that a column's blend speaks of are positions of layers.
proof fn lemma_blend_in_range(
    layers: Seq<LayerView>,
    biomes: Option<Seq<u16>>,
    border: Option<BorderScan>,
    x: int,
    z: int,
)
    ensures
        match column_blend(layers, biomes, border, x, z) {
            ColumnBlend::Air => true,
            ColumnBlend::Own { layer } => layer < layers.len(),
            ColumnBlend::Fade { layer, neighbor, .. } => layer < layers.len() && neighbor
                < layers.len(),
        },
{
    lemma_layer_not_negative(layers, crate::composite::column_biome(biomes, x, z), 0);
    if let Some(b) = border {
        lemma_layer_not_negative(layers, b.neighbor@[column_index(x, z)], 0);
    }
}

proof fn lemma_layer_not_negative(layers: Seq<LayerView>, id: u16, from: int)
    requires
        from >= 0,
    ensures
        layer_of(layers, id, from) >= 0,
    decreases layers.len() - from,
{
    if from < layers.len() && layers[from].id != id {
        lemma_layer_not_negative(layers, id, from + 1);
    }
}

/// The blended densities of a chunk.
fn blend_field<B: Fn(Single, Single, u32) -> Single>(
    blend: &B,
    layers: &Vec<TerrainLayer<'_>>,
    columns: &Vec<ColumnBlend>,
    Ghost(ids): Ghost<Option<Seq<u16>>>,
    Ghost(scan): Ghost<Option<BorderScan>>,
) -> (r: ScalarField)
    requires
        columns@.len() == 1024,
        forall|i: int|
            0 <= i < 1024 ==> (#[trigger] columns@[i]) == column_blend(
                layer_views(layers@),
                ids,
                scan,
                i % 32,
                i / 32,
            ),
        forall|a: Single, b: Single, d: u32| #[trigger] call_requires(*blend, (a, b, d)),
    ensures
        is_blended(*blend, layer_views(layers@), ids, scan, r@),
{
    let ghost views = layer_views(layers@);
    let mut out: Vec<Single> = Vec::new();
    let mut k: usize = 0;
    while k < 32768
        invariant
            k <= 32768,
            columns@.len() == 1024,
            views == layer_views(layers@),
            forall|i: int|
                0 <= i < 1024 ==> (#[trigger] columns@[i]) == column_blend(
                    views,
                    ids,
                    scan,
                    i % 32,
                    i / 32,
                ),
            forall|a: Single, b: Single, d: u32| #[trigger] call_requires(*blend, (a, b, d)),
            out@.len() == k,
            forall|i: int|
                0 <= i < k ==> blends_to(
                    *blend,
                    views,
                    column_blend(views, ids, scan, i % 32, i / 1024),
                    i,
                    #[trigger] out@[i],
                ),
        decreases 32768 - k,
    {
        let x: usize = k % 32;
        let y: usize = (k / 32) % 32;
        let z: usize = k / 1024;
        let c: usize = x + 32 * z;
        proof {
            cell_index_is_onto(k as int);
            assert(c as int % 32 == x && c as int / 32 == z);
            lemma_blend_in_range(views, ids, scan, x as int, z as int);
        }
        let v = blend_cell(blend, layers, columns[c], x, y, z);
        out.push(v);
        k = k + 1;
    }
    ScalarField::from_data(out)
}

} // verus!
