//! What holds of composed terrain: where it is solid, and of what.
//!
//! A surface is told by its cells alone: the topmost one with positive density.
use crate::border::BorderScan;
use crate::chunk::cell_index;
use crate::compose::{are_looked_at, blends_to, is_blended, is_looked_at, is_next, mixes_to};
use crate::composite::{
    biomes_needed, biomes_present, column_blend, composed, distinct, layer_of, pond_level,
    solid_run, total_depth, ColumnBlend, FluidLayer, LayerView, NO_POND_BITS,
};
use crate::fills::{fallback_cells, layer_cells, terrain_cells, top_positive};
use crate::library_kernel::layered;
use crate::scalar::Single;
use crate::voxel::{MaterialId, Rotation, ShapeId, Voxel};
use vstd::prelude::*;

verus! {

/// Whether a height is the surface of a column: its density is positive there and
/// nowhere above it in the chunk.
pub open spec fn surfaces_at(density: Seq<Single>, x: int, z: int, y: int) -> bool {
    &&& 0 <= y < 32
    &&& density[x + 32 * y + 1024 * z].positive()
    &&& forall|h: int| y < h < 32 ==> !(#[trigger] density[x + 32 * h + 1024 * z]).positive()
}

/// Whether a column has no positive density in the chunk.
pub open spec fn surfaces_nowhere(density: Seq<Single>, x: int, z: int) -> bool {
    forall|h: int| 0 <= h < 32 ==> !(#[trigger] density[x + 32 * h + 1024 * z]).positive()
}

/// Whether a layer is the one of a column's biome: the first with its number, which is
/// 0 everywhere where columns have none.
pub open spec fn owns(
    layers: Seq<LayerView>,
    biomes: Option<Seq<u16>>,
    x: int,
    z: int,
    at: int,
) -> bool {
    let id = match biomes {
        Some(b) => b[x + 32 * z],
        None => 0,
    };
    &&& 0 <= at < layers.len()
    &&& layers[at].id == id
    &&& forall|i: int| 0 <= i < at ==> (#[trigger] layers[i]).id != id
}

/// How deep the first `k` bands reach together.
pub open spec fn depth_of_first(bands: Seq<(MaterialId, u32)>, k: int) -> int
    decreases k,
{
    if k <= 0 {
        0
    } else {
        depth_of_first(bands, k - 1) + bands[k - 1].1
    }
}

/// Whether a material is the one that bands lay at a depth below a surface: that of
/// the band whose span holds the depth, or the fill below all of them.
pub open spec fn lies_at(
    bands: Seq<(MaterialId, u32)>,
    fill: MaterialId,
    depth: int,
    m: MaterialId,
) -> bool {
    &&& forall|k: int|
        0 <= k < bands.len() && depth_of_first(bands, k) <= depth < depth_of_first(bands, k + 1)
            ==> m == (#[trigger] bands[k]).0
    &&& depth >= depth_of_first(bands, bands.len() as int) ==> m == fill
}

/// Whether ground goes on for a number of cells through densities above a chunk: so
/// many from the first on are not at most zero, and the next one is, if it was had.
pub open spec fn goes_on_for(samples: Seq<Single>, n: int) -> bool {
    &&& 0 <= n <= samples.len()
    &&& forall|i: int| 0 <= i < n ==> !(Single { bits: 0 }).at_least(#[trigger] samples[i])
    &&& n < samples.len() ==> (Single { bits: 0 }).at_least(samples[n])
}

proof fn lemma_surface(density: Seq<Single>, x: int, z: int, from: int, y: int)
    requires
        surfaces_at(density, x, z, y),
        y <= from < 32,
    ensures
        top_positive(density, x, z, from) == Some(y),
    decreases from,
{
    if from > y {
        assert(!density[x + 32 * from + 1024 * z].positive());
        lemma_surface(density, x, z, from - 1, y);
    }
}

proof fn lemma_no_surface(density: Seq<Single>, x: int, z: int, from: int)
    requires
        surfaces_nowhere(density, x, z),
        from < 32,
    ensures
        top_positive(density, x, z, from) is None,
    decreases from + 1,
{
    if from >= 0 {
        assert(!density[x + 32 * from + 1024 * z].positive());
        lemma_no_surface(density, x, z, from - 1);
    }
}

/// Every column has a surface, or none of its cells has positive density.
proof fn lemma_some_surface(density: Seq<Single>, x: int, z: int, from: int)
    requires
        -1 <= from < 32,
        forall|h: int| from < h < 32 ==> !(#[trigger] density[x + 32 * h + 1024 * z]).positive(),
    ensures
        surfaces_nowhere(density, x, z) || exists|y: int| surfaces_at(density, x, z, y),
    decreases from + 1,
{
    if from >= 0 {
        if density[x + 32 * from + 1024 * z].positive() {
            assert(surfaces_at(density, x, z, from));
        } else {
            lemma_some_surface(density, x, z, from - 1);
        }
    }
}

proof fn lemma_owner(layers: Seq<LayerView>, id: u16, from: int, at: int)
    requires
        0 <= from <= at < layers.len(),
        layers[at].id == id,
        forall|i: int| from <= i < at ==> (#[trigger] layers[i]).id != id,
    ensures
        layer_of(layers, id, from) == at,
    decreases at - from,
{
    if from < at {
        lemma_owner(layers, id, from + 1, at);
    }
}

proof fn lemma_no_owner(layers: Seq<LayerView>, id: u16, from: int)
    requires
        0 <= from <= layers.len(),
        forall|i: int| from <= i < layers.len() ==> (#[trigger] layers[i]).id != id,
    ensures
        layer_of(layers, id, from) == layers.len(),
    decreases layers.len() - from,
{
    if from < layers.len() {
        lemma_no_owner(layers, id, from + 1);
    }
}

proof fn lemma_first_bands(bands: Seq<(MaterialId, u32)>, k: int)
    requires
        1 <= k <= bands.len(),
    ensures
        depth_of_first(bands, k) == bands[0].1 + depth_of_first(bands.drop_first(), k - 1),
    decreases k,
{
    if k > 1 {
        lemma_first_bands(bands, k - 1);
        assert(bands.drop_first()[k - 2] == bands[k - 1]);
    } else {
        assert(depth_of_first(bands, 0) == 0);
        assert(depth_of_first(bands.drop_first(), 0) == 0);
        assert(depth_of_first(bands, 1) == depth_of_first(bands, 0) + bands[0].1);
    }
}

proof fn lemma_first_not_negative(bands: Seq<(MaterialId, u32)>, k: int)
    ensures
        depth_of_first(bands, k) >= 0,
    decreases k,
{
    if k > 0 {
        lemma_first_not_negative(bands, k - 1);
    }
}

/// Bands lie one below the other from the surface down, each as thick as it says, and
/// the fill lies below the last.
#[verifier::spinoff_prover]
#[verifier::rlimit(60)]
pub proof fn bands_lie_in_order(bands: Seq<(MaterialId, u32)>, fill: MaterialId, depth: int)
    requires
        depth >= 0,
    ensures
        lies_at(bands, fill, depth, layered(depth, bands, fill)),
    decreases bands.len(),
{
    let m = layered(depth, bands, fill);
    if bands.len() > 0 {
        let rest = bands.drop_first();
        if depth >= bands[0].1 {
            bands_lie_in_order(rest, fill, depth - bands[0].1);
        }
        assert forall|k: int|
            0 <= k < bands.len() && depth_of_first(bands, k) <= depth < depth_of_first(bands, k + 1)
            implies m == (#[trigger] bands[k]).0 by {
            lemma_first_bands(bands, k + 1);
            if k > 0 {
                lemma_first_bands(bands, k);
                lemma_first_not_negative(rest, k - 1);
                assert(rest[k - 1] == bands[k]);
            } else {
                assert(depth_of_first(rest, 0) == 0);
            }
        }
        if depth >= depth_of_first(bands, bands.len() as int) {
            lemma_first_bands(bands, bands.len() as int);
            lemma_first_not_negative(rest, rest.len() as int);
        }
    }
}

/// A composed cell is a cube where its column's biome has a layer and its blended
/// density is positive, and air everywhere else.
#[verifier::spinoff_prover]
#[verifier::rlimit(60)]
pub proof fn terrain_is_where_density_is(
    layers: Seq<LayerView>,
    biomes: Option<Seq<u16>>,
    blended: Seq<Single>,
    above: Seq<Vec<Single>>,
    x: int,
    y: int,
    z: int,
    at: int,
)
    requires
        0 <= x < 32,
        0 <= y < 32,
        0 <= z < 32,
    ensures
        ({
            let v = composed(layers, biomes, blended, above)[x + 32 * y + 1024 * z];
            let solid = blended[x + 32 * y + 1024 * z].positive();
            let air = Voxel {
                shape: ShapeId::Empty,
                rotation: Rotation::Unrotated,
                material: MaterialId(0),
                flags: 0,
            };
            &&& !solid ==> v == air
            &&& owns(layers, biomes, x, z, at) && solid ==> v.shape == ShapeId::Cube && v.rotation
                == Rotation::Unrotated && v.flags == 0
            &&& (forall|i: int|
                0 <= i < layers.len() ==> !owns(layers, biomes, x, z, i)) ==> v == air
        }),
{
    let i = x + 32 * y + 1024 * z;
    assert(i % 32 == x && (i / 32) % 32 == y && i / 1024 == z);
    let id = match biomes {
        Some(b) => b[x + 32 * z],
        None => 0,
    };
    if owns(layers, biomes, x, z, at) && blended[i].positive() {
        lemma_owner(layers, id, 0, at);
        lemma_some_surface(blended, x, z, 31);
        let cs = choose|cs: int| surfaces_at(blended, x, z, cs);
        assert(blended[x + 32 * y + 1024 * z].positive());
        lemma_surface(blended, x, z, 31, cs);
    }
    if forall|k: int| 0 <= k < layers.len() ==> !owns(layers, biomes, x, z, k) {
        lemma_unowned(layers, id, 0);
        assert forall|k: int| 0 <= k < layers.len() implies (#[trigger] layers[k]).id != id by {
            if layers[k].id == id {
                lemma_first_owner(layers, biomes, x, z, k);
            }
        }
        lemma_no_owner(layers, id, 0);
    }
}

proof fn lemma_unowned(layers: Seq<LayerView>, id: u16, from: int)
    ensures
        from <= layers.len() ==> layer_of(layers, id, from) <= layers.len(),
    decreases layers.len() - from,
{
    if 0 <= from < layers.len() {
        lemma_unowned(layers, id, from + 1);
    }
}

proof fn lemma_first_owner(layers: Seq<LayerView>, biomes: Option<Seq<u16>>, x: int, z: int, k: int)
    requires
        0 <= k < layers.len(),
        layers[k].id == match biomes {
            Some(b) => b[x + 32 * z],
            None => 0,
        },
    ensures
        exists|i: int| 0 <= i < layers.len() && owns(layers, biomes, x, z, i),
    decreases k,
{
    if exists|i: int| 0 <= i < k && (#[trigger] layers[i]).id == layers[k].id {
        let i = choose|i: int| 0 <= i < k && (#[trigger] layers[i]).id == layers[k].id;
        lemma_first_owner(layers, biomes, x, z, i);
    } else {
        assert(owns(layers, biomes, x, z, k));
    }
}

/// Where a biome computes its own material, a composed cell has the material that its
/// biome has as far below its own surface as the cell lies below the blended one; with
/// the two surfaces level, the material at the cell itself. What would lie below the
/// chunk is read at its lowest cell, and without a surface of its own nothing is moved.
#[verifier::spinoff_prover]
#[verifier::rlimit(60)]
pub proof fn field_materials_move_with_the_surface(
    layers: Seq<LayerView>,
    biomes: Option<Seq<u16>>,
    blended: Seq<Single>,
    above: Seq<Vec<Single>>,
    x: int,
    y: int,
    z: int,
    at: int,
    cs: int,
    own: int,
)
    requires
        0 <= x < 32,
        0 <= y < 32,
        0 <= z < 32,
        owns(layers, biomes, x, z, at),
        layers[at].rule is Field,
        blended[x + 32 * y + 1024 * z].positive(),
        surfaces_at(blended, x, z, cs),
    ensures
        ({
            let m = composed(layers, biomes, blended, above)[x + 32 * y + 1024 * z].material;
            let field = layers[at].material;
            &&& surfaces_at(layers[at].density, x, z, own) && own - (cs - y) >= 0 ==> m == field[x
                + 32 * (own - (cs - y)) + 1024 * z]
            &&& surfaces_at(layers[at].density, x, z, cs) ==> m == field[x + 32 * y + 1024 * z]
            &&& surfaces_at(layers[at].density, x, z, own) && own - (cs - y) < 0 ==> m == field[x
                + 1024 * z]
            &&& surfaces_nowhere(layers[at].density, x, z) ==> m == field[x + 32 * y + 1024 * z]
        }),
{
    let i = x + 32 * y + 1024 * z;
    assert(i % 32 == x && (i / 32) % 32 == y && i / 1024 == z);
    let id = match biomes {
        Some(b) => b[x + 32 * z],
        None => 0,
    };
    lemma_owner(layers, id, 0, at);
    lemma_surface(blended, x, z, 31, cs);
    if y > cs {
        assert(!blended[x + 32 * y + 1024 * z].positive());
    }
    let density = layers[at].density;
    if surfaces_at(density, x, z, own) {
        lemma_surface(density, x, z, 31, own);
    }
    if surfaces_at(density, x, z, cs) {
        lemma_surface(density, x, z, 31, cs);
    }
    if surfaces_nowhere(density, x, z) {
        lemma_no_surface(density, x, z, 31);
    }
}

/// Where a biome has one material, every composed cell of it has that material.
#[verifier::spinoff_prover]
#[verifier::rlimit(60)]
pub proof fn uniform_biomes_have_one_material(
    layers: Seq<LayerView>,
    biomes: Option<Seq<u16>>,
    blended: Seq<Single>,
    above: Seq<Vec<Single>>,
    x: int,
    y: int,
    z: int,
    at: int,
)
    requires
        0 <= x < 32,
        0 <= y < 32,
        0 <= z < 32,
        owns(layers, biomes, x, z, at),
        layers[at].rule is Uniform,
        blended[x + 32 * y + 1024 * z].positive(),
    ensures
        composed(layers, biomes, blended, above)[x + 32 * y + 1024 * z].material
            == layers[at].rule->Uniform_0,
{
    let i = x + 32 * y + 1024 * z;
    assert(i % 32 == x && (i / 32) % 32 == y && i / 1024 == z);
    let id = match biomes {
        Some(b) => b[x + 32 * z],
        None => 0,
    };
    lemma_owner(layers, id, 0, at);
    lemma_some_surface(blended, x, z, 31);
    let cs = choose|cs: int| surfaces_at(blended, x, z, cs);
    assert(blended[x + 32 * y + 1024 * z].positive());
    lemma_surface(blended, x, z, 31, cs);
}

proof fn lemma_run(samples: Seq<Single>, n: int)
    requires
        goes_on_for(samples, n),
    ensures
        solid_run(samples) == n,
    decreases samples.len(),
{
    if n > 0 {
        assert(!(Single { bits: 0 }).at_least(samples[0]));
        let rest = samples.drop_first();
        assert forall|i: int| 0 <= i < n - 1 implies !(Single { bits: 0 }).at_least(
            #[trigger] rest[i],
        ) by {
            assert(rest[i] == samples[i + 1]);
        }
        if n < samples.len() {
            assert(rest[n - 1] == samples[n]);
        }
        lemma_run(rest, n - 1);
    }
}

proof fn lemma_total_depth(bands: Seq<(MaterialId, u32)>)
    ensures
        total_depth(bands) == depth_of_first(bands, bands.len() as int),
    decreases bands.len(),
{
    if bands.len() > 0 {
        lemma_total_depth(bands.drop_first());
        lemma_first_bands(bands, bands.len() as int);
    }
}

/// Where a biome lays bands, a composed cell has the material that lies at its depth
/// below the true surface: the blended surface in the chunk, or, where the topmost cell
/// is solid, as far above it as the ground goes on.
#[verifier::spinoff_prover]
#[verifier::rlimit(60)]
pub proof fn banded_materials_lie_below_the_true_surface(
    layers: Seq<LayerView>,
    biomes: Option<Seq<u16>>,
    blended: Seq<Single>,
    above: Seq<Vec<Single>>,
    x: int,
    y: int,
    z: int,
    at: int,
    cs: int,
    over: int,
)
    requires
        0 <= x < 32,
        0 <= y < 32,
        0 <= z < 32,
        owns(layers, biomes, x, z, at),
        layers[at].rule is Layer,
        blended[x + 32 * y + 1024 * z].positive(),
        surfaces_at(blended, x, z, cs),
        cs < 31 ==> over == 0,
        cs == 31 ==> goes_on_for(above[x + 32 * z]@, over),
    ensures
        lies_at(
            layers[at].rule->bands,
            layers[at].rule->fill,
            cs - y + over,
            composed(layers, biomes, blended, above)[x + 32 * y + 1024 * z].material,
        ),
{
    let i = x + 32 * y + 1024 * z;
    assert(i % 32 == x && (i / 32) % 32 == y && i / 1024 == z);
    let id = match biomes {
        Some(b) => b[x + 32 * z],
        None => 0,
    };
    lemma_owner(layers, id, 0, at);
    lemma_surface(blended, x, z, 31, cs);
    if y > cs {
        assert(!blended[x + 32 * y + 1024 * z].positive());
    }
    let bands = layers[at].rule->bands;
    let fill = layers[at].rule->fill;
    let n = bands.len() as int;
    bands_lie_in_order(bands, fill, cs - y + over);
    if cs == 31 {
        lemma_run(above[x + 32 * z]@, over);
        lemma_total_depth(bands);
        lemma_first_not_negative(bands, n);
        if over > total_depth(bands) {
            bands_lie_in_order(bands, fill, cs - y + total_depth(bands));
        }
    }
}

/// The density of a column is air where its biome has no layer, its own biome's where it
/// has no other biome near or that has no layer, and else fades toward the other biome's
/// at the distance to it.
#[verifier::spinoff_prover]
#[verifier::rlimit(60)]
pub proof fn columns_fade_toward_their_neighbor(
    layers: Seq<LayerView>,
    biomes: Option<Seq<u16>>,
    border: Option<BorderScan>,
    x: int,
    z: int,
    at: int,
    near: int,
)
    requires
        layers.len() <= usize::MAX,
        owns(layers, biomes, x, z, at),
    ensures
        ({
            let blend = column_blend(layers, biomes, border, x, z);
            let own = layers[at].id;
            &&& border is None ==> blend == (ColumnBlend::Own { layer: at as usize })
            &&& border matches Some(b) ==> {
                let other = b.neighbor@[x + 32 * z];
                &&& other == own ==> blend == (ColumnBlend::Own { layer: at as usize })
                &&& (forall|i: int| 0 <= i < layers.len() ==> (#[trigger] layers[i]).id != other)
                    ==> blend == (ColumnBlend::Own { layer: at as usize })
                &&& other != own && 0 <= near < layers.len() && layers[near].id == other && (
                forall|i: int| 0 <= i < near ==> (#[trigger] layers[i]).id != other) ==> blend == (
                ColumnBlend::Fade {
                    layer: at as usize,
                    neighbor: near as usize,
                    distance_squared: b.distance_squared@[x + 32 * z],
                })
            }
        }),
{
    let own = layers[at].id;
    lemma_owner(layers, own, 0, at);
    if let Some(b) = border {
        let other = b.neighbor@[x + 32 * z];
        if forall|i: int| 0 <= i < layers.len() ==> (#[trigger] layers[i]).id != other {
            lemma_no_owner(layers, other, 0);
        }
        if 0 <= near < layers.len() && layers[near].id == other && (forall|i: int|
            0 <= i < near ==> (#[trigger] layers[i]).id != other) {
            lemma_owner(layers, other, 0, near);
        }
    }
}

/// A column whose biome has no layer is air, whatever it borders on.
#[verifier::spinoff_prover]
#[verifier::rlimit(60)]
pub proof fn columns_without_a_layer_are_air(
    layers: Seq<LayerView>,
    biomes: Option<Seq<u16>>,
    border: Option<BorderScan>,
    x: int,
    z: int,
)
    requires
        forall|i: int| 0 <= i < layers.len() ==> (#[trigger] layers[i]).id != match biomes {
            Some(b) => b[x + 32 * z],
            None => 0,
        },
    ensures
        column_blend(layers, biomes, border, x, z) is Air,
{
    let id = match biomes {
        Some(b) => b[x + 32 * z],
        None => 0,
    };
    lemma_no_owner(layers, id, 0);
}

proof fn lemma_distinct(s: Seq<u16>, v: u16)
    ensures
        distinct(s).no_duplicates(),
        distinct(s).contains(v) <==> s.contains(v),
    decreases s.len(),
{
    if s.len() > 0 {
        let short = s.drop_last();
        lemma_distinct(short, v);
        lemma_distinct(short, s.last());
        let d = distinct(short);
        assert(s.contains(v) <==> short.contains(v) || v == s.last()) by {
            if short.contains(v) {
                let i = choose|i: int| 0 <= i < short.len() && short[i] == v;
                assert(s[i] == v);
            }
            if v == s.last() {
                assert(s[s.len() - 1] == v);
            }
            if s.contains(v) {
                let i = choose|i: int| 0 <= i < s.len() && s[i] == v;
                if i < short.len() {
                    assert(short[i] == v);
                }
            }
        }
        if !d.contains(s.last()) {
            let e = d.push(s.last());
            assert(e.contains(v) <==> d.contains(v) || v == s.last()) by {
                if d.contains(v) {
                    let i = choose|i: int| 0 <= i < d.len() && d[i] == v;
                    assert(e[i] == v);
                }
                assert(e[d.len() as int] == s.last());
                if e.contains(v) {
                    let i = choose|i: int| 0 <= i < e.len() && e[i] == v;
                    if i < d.len() {
                        assert(d[i] == v);
                    }
                }
            }
        }
    }
}

/// The biomes present in a chunk are those of its columns, each once; those that
/// composing it needs are the same and those its columns fade toward, each once.
#[verifier::spinoff_prover]
#[verifier::rlimit(60)]
pub proof fn biomes_are_listed_once(biomes: Option<Seq<u16>>, border: Option<Seq<u16>>, id: u16)
    ensures
        biomes_present(biomes).no_duplicates(),
        biomes_present(biomes).contains(id) <==> match biomes {
            Some(b) => b.contains(id),
            None => id == 0,
        },
        biomes_needed(biomes, border).no_duplicates(),
        biomes_needed(biomes, border).contains(id) <==> (match biomes {
            Some(b) => b.contains(id),
            None => id == 0,
        }) || (border matches Some(n) && n.contains(id)),
{
    let columns = match biomes {
        Some(b) => b,
        None => seq![0u16],
    };
    lemma_distinct(columns, id);
    assert(seq![0u16].contains(id) <==> id == 0) by {
        assert(seq![0u16][0] == 0);
    }
    if let Some(n) = border {
        let all = columns + n;
        lemma_distinct(all, id);
        assert(all.contains(id) <==> columns.contains(id) || n.contains(id)) by {
            if columns.contains(id) {
                let i = choose|i: int| 0 <= i < columns.len() && columns[i] == id;
                assert(all[i] == id);
            }
            if n.contains(id) {
                let i = choose|i: int| 0 <= i < n.len() && n[i] == id;
                assert(all[columns.len() + i] == id);
            }
            if all.contains(id) {
                let i = choose|i: int| 0 <= i < all.len() && all[i] == id;
                if i < columns.len() {
                    assert(columns[i] == id);
                } else {
                    assert(n[i - columns.len()] == id);
                }
            }
        }
    }
}

/// Whether a biome has a pond on a column: the column is of the biome, and the mask is
/// positive on it in the lowest plane.
pub open spec fn ponds_on(f: FluidLayer<'_>, biomes: Option<Seq<u16>>, x: int, z: int) -> bool {
    &&& f.id == match biomes {
        Some(b) => b[x + 32 * z],
        None => 0,
    }
    &&& f.mask@[x + 1024 * z].positive()
}

/// A column has the level of the last pond of its biome that its mask admits, and the
/// mark for none where there is no such pond.
#[verifier::spinoff_prover]
#[verifier::rlimit(60)]
pub proof fn ponds_fill_their_masks(
    layers: Seq<FluidLayer<'_>>,
    biomes: Option<Seq<u16>>,
    x: int,
    z: int,
    i: int,
)
    ensures
        0 <= i < layers.len() && ponds_on(layers[i], biomes, x, z) && (forall|j: int|
            i < j < layers.len() ==> !ponds_on(#[trigger] layers[j], biomes, x, z)) ==> pond_level(
            layers,
            biomes,
            x,
            z,
        ) == layers[i].level,
        (forall|j: int| 0 <= j < layers.len() ==> !ponds_on(#[trigger] layers[j], biomes, x, z))
            ==> pond_level(layers, biomes, x, z) == (Single { bits: NO_POND_BITS }),
    decreases layers.len(),
{
    if layers.len() > 0 {
        let n = layers.len() - 1;
        let short = layers.drop_last();
        ponds_fill_their_masks(short, biomes, x, z, i);
        if !ponds_on(layers[n], biomes, x, z) {
            if forall|j: int|
                0 <= j < layers.len() ==> !ponds_on(#[trigger] layers[j], biomes, x, z) {
                assert forall|j: int| 0 <= j < short.len() implies !ponds_on(
                    #[trigger] short[j],
                    biomes,
                    x,
                    z,
                ) by {
                    assert(short[j] == layers[j]);
                }
            }
            if 0 <= i < n && (forall|j: int|
                i < j < layers.len() ==> !ponds_on(#[trigger] layers[j], biomes, x, z)) {
                assert forall|j: int| i < j < short.len() implies !ponds_on(
                    #[trigger] short[j],
                    biomes,
                    x,
                    z,
                ) by {
                    assert(short[j] == layers[j]);
                }
                assert(short[i] == layers[i]);
            }
        } else {
            assert(layers[n] == layers.last());
        }
    }
}

/// A layer node gives each cell at or below its column's surface the material that lies
/// at its depth, and none above the surface or in an empty column.
#[verifier::spinoff_prover]
#[verifier::rlimit(60)]
pub proof fn layer_nodes_lay_bands_below_the_surface(
    density: Seq<Single>,
    bands: Seq<(MaterialId, u32)>,
    fill: MaterialId,
    x: int,
    y: int,
    z: int,
    top: int,
)
    requires
        0 <= x < 32,
        0 <= y < 32,
        0 <= z < 32,
    ensures
        ({
            let m = layer_cells(density, bands, fill)[x + 32 * y + 1024 * z];
            &&& surfaces_at(density, x, z, top) && y <= top ==> lies_at(bands, fill, top - y, m)
            &&& surfaces_at(density, x, z, top) && y > top ==> m == MaterialId(0)
            &&& surfaces_nowhere(density, x, z) ==> m == MaterialId(0)
        }),
{
    let i = x + 32 * y + 1024 * z;
    assert(i % 32 == x && (i / 32) % 32 == y && i / 1024 == z);
    if surfaces_at(density, x, z, top) {
        lemma_surface(density, x, z, 31, top);
        if y <= top {
            bands_lie_in_order(bands, fill, top - y);
        }
    }
    if surfaces_nowhere(density, x, z) {
        lemma_no_surface(density, x, z, 31);
    }
}

/// Of two materials the first counts wherever it is one; built terrain is a cube of its
/// material just where the density is positive.
#[verifier::spinoff_prover]
#[verifier::rlimit(60)]
pub proof fn materials_fall_back_and_build(
    density: Seq<Single>,
    first: Seq<MaterialId>,
    second: Seq<MaterialId>,
    i: int,
)
    requires
        0 <= i < 32768,
    ensures
        first[i].0 != 0 ==> fallback_cells(first, second)[i] == first[i],
        first[i].0 == 0 ==> fallback_cells(first, second)[i] == second[i],
        density[i].positive() ==> terrain_cells(density, first)[i] == (Voxel {
            shape: ShapeId::Cube,
            rotation: Rotation::Unrotated,
            material: first[i],
            flags: 0,
        }),
        !density[i].positive() ==> terrain_cells(density, first)[i].shape == ShapeId::Empty,
{
}

/// A chunk's blended density is, in every cell, what its column's own biome has there
/// where there is nothing to fade toward, and else what mixing gives for the densities
/// of the two biomes in that same cell, the column's own first, at the distance to the
/// other.
#[verifier::spinoff_prover]
#[verifier::rlimit(60)]
pub proof fn densities_mix_across_the_border<B: Fn(Single, Single, u32) -> Single>(
    blend: B,
    layers: Seq<LayerView>,
    biomes: Option<Seq<u16>>,
    border: BorderScan,
    field: Seq<Single>,
    x: int,
    y: int,
    z: int,
    at: int,
    near: int,
)
    requires
        layers.len() <= usize::MAX,
        0 <= x < 32,
        0 <= y < 32,
        0 <= z < 32,
        is_blended(blend, layers, biomes, Some(border), field),
        owns(layers, biomes, x, z, at),
        0 <= near < layers.len(),
        layers[near].id == border.neighbor@[x + 32 * z],
        forall|i: int| 0 <= i < near ==> (#[trigger] layers[i]).id != layers[near].id,
    ensures
        ({
            let i = x + 32 * y + 1024 * z;
            &&& near == at ==> field[i] == layers[at].density[i]
            &&& near != at ==> call_ensures(
                blend,
                (
                    layers[at].density[i],
                    layers[near].density[i],
                    border.distance_squared@[x + 32 * z],
                ),
                field[i],
            )
        }),
{
    let i = x + 32 * y + 1024 * z;
    assert(i % 32 == x && (i / 32) % 32 == y && i / 1024 == z);
    columns_fade_toward_their_neighbor(layers, biomes, Some(border), x, z, at, near);
    let column = column_blend(layers, biomes, Some(border), x, z);
    assert(blends_to(blend, layers, column, i, field[i]));
    if layers[near].id == layers[at].id && near != at {
        if near < at {
            assert(layers[near].id != layers[at].id);
        } else {
            assert(layers[at].id != layers[near].id);
        }
    }
}

/// Without borders a chunk's density is in every cell that of its column's own biome,
/// and where that has no layer, less than nothing.
#[verifier::spinoff_prover]
#[verifier::rlimit(60)]
pub proof fn densities_stay_apart_without_borders<B: Fn(Single, Single, u32) -> Single>(
    blend: B,
    layers: Seq<LayerView>,
    biomes: Option<Seq<u16>>,
    border: Option<BorderScan>,
    field: Seq<Single>,
    x: int,
    y: int,
    z: int,
    at: int,
)
    requires
        layers.len() <= usize::MAX,
        0 <= x < 32,
        0 <= y < 32,
        0 <= z < 32,
        is_blended(blend, layers, biomes, border, field),
    ensures
        ({
            let i = x + 32 * y + 1024 * z;
            &&& border is None && owns(layers, biomes, x, z, at) ==> field[i]
                == layers[at].density[i]
            &&& (forall|k: int|
                0 <= k < layers.len() ==> (#[trigger] layers[k]).id != match biomes {
                    Some(b) => b[x + 32 * z],
                    None => 0,
                }) ==> !field[i].positive()
        }),
{
    let i = x + 32 * y + 1024 * z;
    assert(i % 32 == x && (i / 32) % 32 == y && i / 1024 == z);
    let column = column_blend(layers, biomes, border, x, z);
    assert(blends_to(blend, layers, column, i, field[i]));
    if border is None && owns(layers, biomes, x, z, at) {
        columns_fade_toward_their_neighbor(layers, biomes, border, x, z, at, 0);
    }
    if forall|k: int|
        0 <= k < layers.len() ==> (#[trigger] layers[k]).id != match biomes {
            Some(b) => b[x + 32 * z],
            None => 0,
        } {
        columns_without_a_layer_are_air(layers, biomes, border, x, z);
    }
}

/// Over a column whose top cell is solid, densities are followed upward cell by cell from
/// the one just above the chunk: the column's own biome's, mixed with the other's where it
/// fades toward one that has a density there too. Following ends only with the depth of
/// the bands, with air, or where the biome has no density to give.
#[verifier::spinoff_prover]
#[verifier::rlimit(60)]
pub proof fn ground_is_followed_above_the_chunk<
    B: Fn(Single, Single, u32) -> Single,
    A: Fn(usize, usize, usize, usize) -> Option<Single>,
>(
    blend: B,
    above: A,
    says: spec_fn(usize, usize, usize, usize) -> Option<Single>,
    layers: Seq<LayerView>,
    biomes: Option<Seq<u16>>,
    border: Option<BorderScan>,
    field: Seq<Single>,
    lists: Seq<Vec<Single>>,
    x: int,
    z: int,
    at: int,
    near: int,
    k: int,
)
    requires
        layers.len() <= usize::MAX,
        0 <= x < 32,
        0 <= z < 32,
        forall|l: usize, i: usize, j: usize, h: usize, v: Option<Single>| #[trigger]
            call_ensures(above, (l, i, j, h), v) ==> v == says(l, i, j, h),
        are_looked_at(blend, above, layers, biomes, border, field, lists),
        owns(layers, biomes, x, z, at),
        layers[at].rule is Layer,
        field[x + 32 * 31 + 1024 * z].positive(),
        border matches Some(b) ==> {
            &&& 0 <= near < layers.len()
            &&& layers[near].id == b.neighbor@[x + 32 * z]
            &&& forall|i: int| 0 <= i < near ==> (#[trigger] layers[i]).id != layers[near].id
        },
    ensures
        ({
            let samples = lists[x + 32 * z]@;
            let n = samples.len() as int;
            let alone = border is None || near == at;
            &&& 0 <= k < n && alone ==> says(at as usize, x as usize, (32 + k) as usize, z as usize)
                == Some(samples[k])
            &&& 0 <= k < n && !alone ==> match (
                says(at as usize, x as usize, (32 + k) as usize, z as usize),
                says(near as usize, x as usize, (32 + k) as usize, z as usize),
            ) {
                (Some(own), None) => samples[k] == own,
                (Some(own), Some(other)) => call_ensures(
                    blend,
                    (own, other, border->0.distance_squared@[x + 32 * z]),
                    samples[k],
                ),
                _ => false,
            }
            &&& {
                ||| n >= depth_of_first(
                    layers[at].rule->bands,
                    layers[at].rule->bands.len() as int,
                )
                ||| exists|i: int| 0 <= i < n && (Single { bits: 0 }).at_least(#[trigger] samples[i])
                ||| says(at as usize, x as usize, (32 + n) as usize, z as usize) is None
            }
        }),
{
    let c = x + 32 * z;
    assert(c % 32 == x && c / 32 == z);
    assert(cell_index(c % 32, 31, c / 32) == x + 32 * 31 + 1024 * z);
    let samples = lists[c]@;
    let n = samples.len() as int;
    columns_fade_toward_their_neighbor(layers, biomes, border, x, z, at, near);
    let column = column_blend(layers, biomes, border, x, z);
    if border is Some && near != at && layers[near].id == layers[at].id {
        if near < at {
            assert(layers[near].id != layers[at].id);
        } else {
            assert(layers[at].id != layers[near].id);
        }
    }
    assert(is_looked_at(blend, above, layers, column, x as usize, z as usize, samples));
    if 0 <= k < n {
        assert(is_next(blend, above, layers, column, x as usize, z as usize, samples, k));
        let y = (32 + k) as usize;
        if border is Some && near != at {
            let d = border->0.distance_squared@[c];
            if says(near as usize, x as usize, y, z as usize) is Some {
                let (own, other) = choose|own: Single, other: Single| #[trigger]
                    mixes_to(blend, own, other, d, samples[k]) && call_ensures(
                        above,
                        (at as usize, x as usize, y, z as usize),
                        Some(own),
                    ) && call_ensures(above, (near as usize, x as usize, y, z as usize), Some(other));
                assert(mixes_to(blend, own, other, d, samples[k]));
            }
        }
    }
    let bands = layers[at].rule->bands;
    lemma_total_depth(bands);
    if (forall|i: int| 0 <= i < n ==> !(Single { bits: 0 }).at_least(#[trigger] samples[i])) {
        lemma_run(samples, n);
    }
}

} // verus!
