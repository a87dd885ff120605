//! What foliage is placed where: filters, paint, instances and what merging makes of
//! them, told by the ground alone.
use crate::context::{cell_seed_of, EvalContext};
use crate::detail::{
    all_grounded, grounded, ground_level, in_biome, instance_of, paint_of, scattered, species_draw,
    species_draws, standing_height, steepness, step_to, top_filled, with_species, DetailPoint,
    Ground,
};
use crate::foliage::{
    bucket_position, layer_position, with_bucket, with_layer, BucketView, FoliageInstance,
    PaintTexel, PaintView,
};
use crate::fraction::{int_single, integers_keep_their_order};
use crate::params::{PaintDensityParams, SurfaceFilterParams};
use crate::voxel::Voxel;
use vstd::prelude::*;

verus! {

/// Whether a height is the ground of a column: a cell that holds anything, with nothing
/// above it in the chunk.
pub open spec fn grounds_at(cells: Seq<Voxel>, x: int, z: int, y: int) -> bool {
    &&& 0 <= y < 32
    &&& cells[x + 32 * y + 1024 * z] != Voxel::nothing()
    &&& forall|h: int|
        y < h < 32 ==> (#[trigger] cells[x + 32 * h + 1024 * z]) == Voxel::nothing()
}

/// Whether a column holds nothing.
pub open spec fn groundless(cells: Seq<Voxel>, x: int, z: int) -> bool {
    forall|h: int| 0 <= h < 32 ==> (#[trigger] cells[x + 32 * h + 1024 * z]) == Voxel::nothing()
}

/// The biome of a column: 0 everywhere where columns have none.
pub open spec fn column_of(g: Ground, x: int, z: int) -> u16 {
    match g.biomes {
        Some(b) => b[x + 32 * z],
        None => 0,
    }
}

proof fn lemma_ground(cells: Seq<Voxel>, x: int, z: int, from: int, y: int)
    requires
        grounds_at(cells, x, z, y),
        y <= from < 32,
    ensures
        top_filled(cells, x, z, from) == Some(y),
    decreases from,
{
    if from > y {
        assert(cells[x + 32 * from + 1024 * z] == Voxel::nothing());
        lemma_ground(cells, x, z, from - 1, y);
    }
}

proof fn lemma_groundless(cells: Seq<Voxel>, x: int, z: int, from: int)
    requires
        groundless(cells, x, z),
        from < 32,
    ensures
        top_filled(cells, x, z, from) is None,
    decreases from + 1,
{
    if from >= 0 {
        assert(cells[x + 32 * from + 1024 * z] == Voxel::nothing());
        lemma_groundless(cells, x, z, from - 1);
    }
}

proof fn lemma_some_ground(cells: Seq<Voxel>, x: int, z: int, from: int)
    requires
        -1 <= from < 32,
        forall|h: int|
            from < h < 32 ==> (#[trigger] cells[x + 32 * h + 1024 * z]) == Voxel::nothing(),
    ensures
        match top_filled(cells, x, z, from) {
            Some(y) => y <= from && grounds_at(cells, x, z, y),
            None => groundless(cells, x, z),
        },
    decreases from + 1,
{
    if from >= 0 && cells[x + 32 * from + 1024 * z] == Voxel::nothing() {
        lemma_some_ground(cells, x, z, from - 1);
    }
}

/// Whether two columns of a chunk lie side by side.
pub open spec fn beside(x: int, z: int, a: int, b: int) -> bool {
    &&& 0 <= a < 32
    &&& 0 <= b < 32
    &&& (a == x && (b == z + 1 || b == z - 1)) || (b == z && (a == x + 1 || a == x - 1))
}

/// Whether `steep` is the largest step from the ground of a column to that of the columns
/// beside it; columns that hold nothing or lie outside take no part.
pub open spec fn steepest(cells: Seq<Voxel>, x: int, z: int, y: int, steep: int) -> bool {
    &&& forall|a: int, b: int, h: int|
        beside(x, z, a, b) && #[trigger] grounds_at(cells, a, b, h) ==> -steep <= h - y <= steep
    &&& steep == 0 || exists|a: int, b: int, h: int|
        beside(x, z, a, b) && #[trigger] grounds_at(cells, a, b, h) && (h - y == steep || y - h
            == steep)
    &&& steep >= 0
}

proof fn lemma_step(cells: Seq<Voxel>, y: int, a: int, b: int, h: int) -> (k: int)
    ensures
        0 <= a < 32 && 0 <= b < 32 && grounds_at(cells, a, b, h) ==> step_to(cells, y, a, b) == (
        if h >= y {
            h - y
        } else {
            y - h
        }),
        0 <= a < 32 && 0 <= b < 32 && groundless(cells, a, b) ==> step_to(cells, y, a, b) == 0,
        !(0 <= a < 32 && 0 <= b < 32) ==> step_to(cells, y, a, b) == 0,
        step_to(cells, y, a, b) != 0 ==> 0 <= a < 32 && 0 <= b < 32 && grounds_at(
            cells,
            a,
            b,
            k,
        ) && (k - y == step_to(cells, y, a, b) || y - k == step_to(cells, y, a, b)),
        step_to(cells, y, a, b) >= 0,
{
    if 0 <= a < 32 && 0 <= b < 32 {
        if grounds_at(cells, a, b, h) {
            lemma_ground(cells, a, b, 31, h);
        }
        if groundless(cells, a, b) {
            lemma_groundless(cells, a, b, 31);
        }
        lemma_some_ground(cells, a, b, 31);
    }
    match ground_level(cells, a, b) {
        Some(k) => k,
        None => 0,
    }
}

proof fn lemma_steepest(cells: Seq<Voxel>, x: int, z: int, y: int, steep: int)
    requires
        steepest(cells, x, z, y, steep),
    ensures
        steepness(cells, y, x, z) == steep,
{
    let s = steepness(cells, y, x, z);
    let e = lemma_step(cells, y, x + 1, z, 0);
    let w = lemma_step(cells, y, x - 1, z, 0);
    let n = lemma_step(cells, y, x, z + 1, 0);
    let o = lemma_step(cells, y, x, z - 1, 0);
    if s != 0 {
        if s == step_to(cells, y, x + 1, z) {
            assert(beside(x, z, x + 1, z) && grounds_at(cells, x + 1, z, e));
        } else if s == step_to(cells, y, x - 1, z) {
            assert(beside(x, z, x - 1, z) && grounds_at(cells, x - 1, z, w));
        } else if s == step_to(cells, y, x, z + 1) {
            assert(beside(x, z, x, z + 1) && grounds_at(cells, x, z + 1, n));
        } else {
            assert(beside(x, z, x, z - 1) && grounds_at(cells, x, z - 1, o));
        }
    }
    assert(s <= steep);
    if steep != 0 {
        let (a, b, h) = choose|a: int, b: int, h: int|
            beside(x, z, a, b) && #[trigger] grounds_at(cells, a, b, h) && (h - y == steep || y - h
                == steep);
        let _ = lemma_step(cells, y, a, b, h);
    }
}

/// A surface filter keeps a candidate just where the ground of its column admits it: the
/// ground's world height is neither below the least nor above the greatest height, its
/// material is one of those listed, if any are, and the largest step beside it is not
/// above the limit. A kept candidate stays where it is and learns its ground; over a
/// column that holds nothing none is kept.
pub proof fn filters_keep_what_the_ground_admits(
    g: Ground,
    p: SurfaceFilterParams,
    c: DetailPoint,
    y: int,
    steep: int,
)
    requires
        c.x < 32,
        c.z < 32,
    ensures
        groundless(g.cells, c.x as int, c.z as int) ==> grounded(g, p, c) is None,
        grounds_at(g.cells, c.x as int, c.z as int, y) && steepest(
            g.cells,
            c.x as int,
            c.z as int,
            y,
            steep,
        ) ==> {
            let height = int_single(32 * g.ctx.chunk.y + y);
            let slope = int_single(steep);
            let material = g.cells[c.x + 32 * y + 1024 * c.z].material;
            let low = !height.is_nan() && !p.min_height.is_nan() && height.rank()
                < p.min_height.rank();
            let high = !height.is_nan() && !p.max_height.is_nan() && height.rank()
                > p.max_height.rank();
            let rough = !slope.is_nan() && !p.max_slope.is_nan() && slope.rank()
                > p.max_slope.rank();
            let listed = p.materials@.len() == 0 || exists|k: int|
                0 <= k < p.materials@.len() && p.materials@[k] == material;
            grounded(g, p, c) == if !low && !high && !rough && listed {
                Some(
                    DetailPoint {
                        x: c.x,
                        z: c.z,
                        offset_x: c.offset_x,
                        offset_z: c.offset_z,
                        surface_y: Some(y as u8),
                    },
                )
            } else {
                None
            }
        },
{
    let (x, z) = (c.x as int, c.z as int);
    if groundless(g.cells, x, z) {
        lemma_groundless(g.cells, x, z, 31);
    }
    if grounds_at(g.cells, x, z, y) && steepest(g.cells, x, z, y, steep) {
        lemma_ground(g.cells, x, z, 31, y);
        lemma_steepest(g.cells, x, z, y, steep);
    }
}

/// With limits in whole voxels, a kept candidate stands on ground whose world height lies
/// within them, in whichever chunk, and every candidate on such ground is kept if its
/// material and slope are admitted.
pub proof fn filters_go_by_world_height(
    g: Ground,
    p: SurfaceFilterParams,
    c: DetailPoint,
    y: int,
    steep: int,
    low: int,
    high: int,
    slope: int,
)
    requires
        c.x < 32,
        c.z < 32,
        -0x7_0000 < g.ctx.chunk.y < 0x7_0000,
        -0x100_0000 < low < 0x100_0000,
        -0x100_0000 < high < 0x100_0000,
        0 <= slope < 0x100_0000,
        p.min_height == int_single(low),
        p.max_height == int_single(high),
        p.max_slope == int_single(slope),
        p.materials@.len() == 0,
        grounds_at(g.cells, c.x as int, c.z as int, y),
        steepest(g.cells, c.x as int, c.z as int, y, steep),
    ensures
        grounded(g, p, c) is Some <==> low <= 32 * g.ctx.chunk.y + y <= high && steep <= slope,
        grounded(g, p, c) matches Some(d) ==> d.surface_y == Some(y as u8) && d.x == c.x && d.z
            == c.z,
{
    filters_keep_what_the_ground_admits(g, p, c, y, steep);
    let h = 32 * g.ctx.chunk.y + y;
    integers_keep_their_order(h, low);
    integers_keep_their_order(low, h);
    integers_keep_their_order(high, h);
    integers_keep_their_order(h, high);
    if steep != 0 {
        let (a, b, k) = choose|a: int, b: int, k: int|
            beside(c.x as int, c.z as int, a, b) && #[trigger] grounds_at(g.cells, a, b, k) && (k - y
                == steep || y - k == steep);
        assert(steep < 32);
    }
    integers_keep_their_order(slope, steep);
    integers_keep_their_order(steep, slope);
}

/// Filters take candidates one by one, in order: filtering two runs of candidates is
/// filtering each, one behind the other, and a single one is kept or dropped by itself.
pub proof fn filters_take_candidates_in_order(
    g: Ground,
    p: SurfaceFilterParams,
    biome: u16,
    a: Seq<DetailPoint>,
    b: Seq<DetailPoint>,
    c: DetailPoint,
)
    ensures
        all_grounded(g, p, a + b) == all_grounded(g, p, a) + all_grounded(g, p, b),
        all_grounded(g, p, seq![c]) == match grounded(g, p, c) {
            Some(d) => seq![d],
            None => Seq::empty(),
        },
        in_biome(g, biome, a + b) == in_biome(g, biome, a) + in_biome(g, biome, b),
        in_biome(g, biome, seq![c]) == if column_of(g, c.x as int, c.z as int) == biome {
            seq![c]
        } else {
            Seq::empty()
        },
    decreases b.len(),
{
    reveal_with_fuel(all_grounded, 2);
    reveal_with_fuel(in_biome, 2);
    assert(seq![c].drop_last() =~= Seq::empty());
    assert(all_grounded(g, p, seq![c]) =~= match grounded(g, p, c) {
        Some(d) => seq![d],
        None => Seq::empty(),
    });
    assert(in_biome(g, biome, seq![c]) =~= if column_of(g, c.x as int, c.z as int) == biome {
        seq![c]
    } else {
        Seq::empty()
    });
    if b.len() == 0 {
        assert(a + b =~= a);
        assert(all_grounded(g, p, a + b) =~= all_grounded(g, p, a) + all_grounded(g, p, b));
        assert(in_biome(g, biome, a + b) =~= in_biome(g, biome, a) + in_biome(g, biome, b));
    } else {
        assert((a + b).drop_last() =~= a + b.drop_last());
        filters_take_candidates_in_order(g, p, biome, a, b.drop_last(), c);
        assert(all_grounded(g, p, a + b) =~= all_grounded(g, p, a) + all_grounded(g, p, b));
        assert(in_biome(g, biome, a + b) =~= in_biome(g, biome, a) + in_biome(g, biome, b));
    }
}

/// A paint node paints exactly the columns of the biome it is for that hold anything, with
/// its own species, density and tint, and leaves the others bare.
pub proof fn paint_covers_the_biome(g: Ground, p: PaintDensityParams, x: int, z: int, y: int)
    requires
        0 <= x < 32,
        0 <= z < 32,
    ensures
        ({
            let layer = paint_of(g, p);
            let texel = layer.texels[x + 32 * z];
            &&& layer.layer_id == p.layer_id
            &&& layer.texels.len() == 1024
            &&& column_of(g, x, z) == g.target && grounds_at(g.cells, x, z, y) ==> texel == (
            PaintTexel { species: p.species, density: p.density, tint: p.tint, flags: 0 })
            &&& column_of(g, x, z) != g.target || groundless(g.cells, x, z) ==> texel == (
            PaintTexel { species: 0, density: 0, tint: 0, flags: 0 })
        }),
{
    let i = x + 32 * z;
    assert(i % 32 == x && i / 32 == z);
    if grounds_at(g.cells, x, z, y) {
        lemma_ground(g.cells, x, z, 31, y);
    }
    if groundless(g.cells, x, z) {
        lemma_groundless(g.cells, x, z, 31);
    }
}

/// The draw of a candidate belongs to its world column and its node: candidates of any two
/// chunks on one world column draw alike, and draws come candidate by candidate.
pub proof fn species_belong_to_the_world_column(
    a: EvalContext,
    b: EvalContext,
    seed: u32,
    points: Seq<DetailPoint>,
    i: int,
    c: DetailPoint,
)
    requires
        0 <= i < points.len(),
        a.world_seed == b.world_seed,
        32 * a.chunk.x + points[i].x == 32 * b.chunk.x + c.x,
        32 * a.chunk.z + points[i].z == 32 * b.chunk.z + c.z,
    ensures
        species_draws(a, seed, points).len() == points.len(),
        species_draws(a, seed, points)[i] == species_draw(b, seed, c),
{
}

/// Species go to candidates in order.
pub proof fn species_go_to_candidates_in_order(points: Seq<DetailPoint>, picks: Seq<u8>, i: int)
    requires
        points.len() == picks.len(),
        0 <= i < points.len(),
    ensures
        with_species(points, picks).len() == points.len(),
        with_species(points, picks)[i].0 == points[i],
        with_species(points, picks)[i].1 == picks[i],
{
}

/// Whether a candidate gets an instance: its column is of the biome that foliage is for,
/// and it knows its ground or its column has some.
pub open spec fn stands(g: Ground, c: DetailPoint) -> bool {
    &&& column_of(g, c.x as int, c.z as int) == g.target
    &&& c.surface_y is Some || exists|y: int| grounds_at(g.cells, c.x as int, c.z as int, y)
}

/// Whether an instance is the one of a candidate with a species: in the candidate's
/// column, at the height it learned or else on the ground, at its offset in the cell,
/// turned by a draw of the world column, and of the node's prefab.
pub open spec fn places(
    g: Ground,
    seed: u32,
    prefab_id: u32,
    c: DetailPoint,
    species: u8,
    f: FoliageInstance,
) -> bool {
    &&& f.anchor@[0] == c.x
    &&& f.anchor@[2] == c.z
    &&& c.surface_y matches Some(y) ==> f.anchor@[1] == y
    &&& c.surface_y is None ==> grounds_at(g.cells, c.x as int, c.z as int, f.anchor@[1] as int)
    &&& f.sub_offset@[0] == c.offset_x
    &&& f.sub_offset@[1] == 0
    &&& f.sub_offset@[2] == c.offset_z
    &&& f.rotation_y == (cell_seed_of(
        g.ctx.world_seed,
        seed,
        (32 * g.ctx.chunk.x + c.x) as i64,
        (32 * g.ctx.chunk.z + c.z) as i64,
    ) >> 56) as u8
    &&& f.scale_variant == species
    &&& f.prefab_id == prefab_id
    &&& f.flags == 0
}

/// One more candidate adds one instance behind the others where it stands, and none where
/// it does not.
pub proof fn candidates_get_instances_in_order(
    g: Ground,
    seed: u32,
    prefab_id: u32,
    assigned: Seq<(DetailPoint, u8)>,
    c: DetailPoint,
    species: u8,
)
    requires
        c.in_chunk(),
    ensures
        scattered(g, seed, prefab_id, Seq::empty()).len() == 0,
        ({
            let before = scattered(g, seed, prefab_id, assigned);
            let after = scattered(g, seed, prefab_id, assigned.push((c, species)));
            &&& !stands(g, c) ==> after == before
            &&& stands(g, c) ==> after.len() == before.len() + 1 && after.drop_last() == before
                && places(g, seed, prefab_id, c, species, after.last())
        }),
{
    let longer = assigned.push((c, species));
    assert(longer.drop_last() =~= assigned);
    let before = scattered(g, seed, prefab_id, assigned);
    let after = scattered(g, seed, prefab_id, longer);
    let (x, z) = (c.x as int, c.z as int);
    lemma_some_ground(g.cells, x, z, 31);
    if stands(g, c) {
        if c.surface_y is None {
            let y = choose|y: int| grounds_at(g.cells, x, z, y);
            lemma_ground(g.cells, x, z, 31, y);
        }
        let sy = standing_height(g, c).unwrap();
        let f = instance_of(g, seed, prefab_id, before, c, species, sy);
        assert(after.drop_last() =~= before);
        assert(f.anchor@ =~= seq![c.x, sy as u8, c.z]);
        assert(f.sub_offset@ =~= seq![c.offset_x, 0i8, c.offset_z]);
    }
}

/// Whether a layer is the first of its number.
pub open spec fn first_of(paint: Seq<PaintView>, id: u16, at: int) -> bool {
    &&& 0 <= at < paint.len()
    &&& paint[at].layer_id == id
    &&& forall|i: int| 0 <= i < at ==> (#[trigger] paint[i]).layer_id != id
}

proof fn lemma_layer_position(paint: Seq<PaintView>, id: u16, from: int, at: int)
    requires
        0 <= from <= at <= paint.len(),
        at < paint.len() ==> paint[at].layer_id == id,
        forall|i: int| from <= i < at ==> (#[trigger] paint[i]).layer_id != id,
    ensures
        layer_position(paint, id, from) == at,
    decreases at - from,
{
    if from < at {
        lemma_layer_position(paint, id, from + 1, at);
    }
}

/// Merging a layer paints its painted columns over the first layer of the same number and
/// touches nothing else; without such a layer it is added at the end.
pub proof fn merging_paints_over_the_same_layer(
    paint: Seq<PaintView>,
    layer: PaintView,
    at: int,
    i: int,
    k: int,
)
    requires
        first_of(paint, layer.layer_id, at),
        0 <= i < paint[at].texels.len(),
        0 <= k < paint.len(),
    ensures
        ({
            let merged = with_layer(paint, layer);
            let over = layer.texels[i];
            &&& merged.len() == paint.len()
            &&& merged[at].layer_id == layer.layer_id
            &&& merged[at].texels.len() == paint[at].texels.len()
            &&& over.species != 0 || over.density != 0 ==> merged[at].texels[i] == over
            &&& over.species == 0 && over.density == 0 ==> merged[at].texels[i]
                == paint[at].texels[i]
            &&& k != at ==> merged[k] == paint[k]
        }),
{
    lemma_layer_position(paint, layer.layer_id, 0, at);
}

/// A layer of a new number is added behind the others, and a bucket of a new type behind
/// the other buckets; a bucket of a known type adds its instances behind those of the
/// first of that type and touches no other.
pub proof fn merging_adds_behind(
    paint: Seq<PaintView>,
    layer: PaintView,
    scatter: Seq<BucketView>,
    bucket: BucketView,
    at: int,
    k: int,
)
    ensures
        (forall|i: int| 0 <= i < paint.len() ==> (#[trigger] paint[i]).layer_id != layer.layer_id)
            ==> with_layer(paint, layer) == paint.push(layer),
        (forall|i: int|
            0 <= i < scatter.len() ==> (#[trigger] scatter[i]).type_id != bucket.type_id)
            ==> with_bucket(scatter, bucket) == scatter.push(bucket),
        0 <= at < scatter.len() && scatter[at].type_id == bucket.type_id && (forall|i: int|
            0 <= i < at ==> (#[trigger] scatter[i]).type_id != bucket.type_id) && 0 <= k
            < scatter.len() ==> {
            let merged = with_bucket(scatter, bucket);
            &&& merged.len() == scatter.len()
            &&& merged[at].type_id == bucket.type_id
            &&& merged[at].instances == scatter[at].instances + bucket.instances
            &&& k != at ==> merged[k] == scatter[k]
        },
{
    if forall|i: int| 0 <= i < paint.len() ==> (#[trigger] paint[i]).layer_id != layer.layer_id {
        lemma_layer_position(paint, layer.layer_id, 0, paint.len() as int);
    }
    if forall|i: int|
        0 <= i < scatter.len() ==> (#[trigger] scatter[i]).type_id != bucket.type_id {
        lemma_bucket(scatter, bucket.type_id, 0, scatter.len() as int);
    }
    if 0 <= at < scatter.len() && scatter[at].type_id == bucket.type_id && (forall|i: int|
        0 <= i < at ==> (#[trigger] scatter[i]).type_id != bucket.type_id) {
        lemma_bucket(scatter, bucket.type_id, 0, at);
    }
}

proof fn lemma_bucket(scatter: Seq<BucketView>, type_id: u16, from: int, at: int)
    requires
        0 <= from <= at <= scatter.len(),
        at < scatter.len() ==> scatter[at].type_id == type_id,
        forall|i: int| from <= i < at ==> (#[trigger] scatter[i]).type_id != type_id,
    ensures
        bucket_position(scatter, type_id, from) == at,
    decreases at - from,
{
    if from < at {
        lemma_bucket(scatter, type_id, from + 1, at);
    }
}

} // verus!
