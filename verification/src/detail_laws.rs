//! What holds of the foliage of a chunk.
use crate::context::EvalContext;
use crate::detail::{
    biome_at, instance_of, paint_of, scattered, species_draw, standing_height, standing_in,
    DetailPoint, Ground,
};
use crate::foliage::{instance_id_of, shared_cells_keep_identities_apart, FoliageInstance};
use crate::params::PaintDensityParams;
use vstd::prelude::*;

verus! {

/// A ground that differs in nothing but the biome foliage is placed for.
pub open spec fn aimed_at(g: Ground, target: u16) -> Ground {
    Ground { target, ..g }
}

/// No column is painted for two biomes, so the paint of all biomes of a chunk can
/// be overlaid in any order.
pub proof fn biomes_paint_apart(
    g: Ground,
    a: u16,
    b: u16,
    p: PaintDensityParams,
    q: PaintDensityParams,
    i: int,
)
    requires
        a != b,
        0 <= i < 1024,
    ensures
        !paint_of(aimed_at(g, a), p).texels[i].painted() || !paint_of(
            aimed_at(g, b),
            q,
        ).texels[i].painted(),
{
}

/// Every instance stands in a column of the biome it was placed for.
pub proof fn instances_stay_in_their_biome(
    g: Ground,
    seed: u32,
    prefab_id: u32,
    assigned: Seq<(DetailPoint, u8)>,
    i: int,
)
    requires
        0 <= i < scattered(g, seed, prefab_id, assigned).len(),
    ensures
        biome_at(
            g,
            scattered(g, seed, prefab_id, assigned)[i].anchor@[0] as int,
            scattered(g, seed, prefab_id, assigned)[i].anchor@[2] as int,
        ) == g.target,
    decreases assigned.len(),
{
    let all = scattered(g, seed, prefab_id, assigned);
    let earlier = scattered(g, seed, prefab_id, assigned.drop_last());
    if i < earlier.len() {
        instances_stay_in_their_biome(g, seed, prefab_id, assigned.drop_last(), i);
        assert(all[i] == earlier[i]);
    } else {
        let (c, species) = assigned.last();
        let sy = standing_height(g, c).unwrap();
        let last = instance_of(g, seed, prefab_id, earlier, c, species, sy);
        assert(all[i] == last);
        assert(last.anchor@[0] == c.x && last.anchor@[2] == c.z);
    }
}

/// The world cell that an instance of a chunk stands in.
pub open spec fn world_anchor(ctx: EvalContext, anchor: [u8; 3]) -> (int, int, int) {
    ctx.world_cell_of(anchor@[0] as int, anchor@[1] as int, anchor@[2] as int)
}

proof fn lemma_identity(
    g: Ground,
    seed: u32,
    prefab_id: u32,
    assigned: Seq<(DetailPoint, u8)>,
    i: int,
)
    requires
        0 <= i < scattered(g, seed, prefab_id, assigned).len(),
        forall|k: int| 0 <= k < assigned.len() ==> (#[trigger] assigned[k]).0.in_chunk(),
    ensures
        ({
            let all = scattered(g, seed, prefab_id, assigned);
            let (wx, wy, wz) = world_anchor(g.ctx, all[i].anchor);
            all[i].stable_id == instance_id_of(
                g.ctx.world_seed,
                wx as i32,
                wy as i32,
                wz as i32,
                prefab_id,
                standing_in(all.take(i), all[i].anchor) as u32,
            )
        }),
    decreases assigned.len(),
{
    let all = scattered(g, seed, prefab_id, assigned);
    let short = assigned.drop_last();
    let earlier = scattered(g, seed, prefab_id, short);
    assert forall|k: int| 0 <= k < short.len() implies (#[trigger] short[k]).0.in_chunk() by {
        assert(assigned[k].0.in_chunk());
    }
    if i < earlier.len() {
        lemma_identity(g, seed, prefab_id, short, i);
        assert(all[i] == earlier[i]);
        assert(all.take(i) =~= earlier.take(i));
    } else {
        let (c, species) = assigned.last();
        assert(assigned[assigned.len() - 1].0.in_chunk());
        let sy = standing_height(g, c).unwrap();
        let last = instance_of(g, seed, prefab_id, earlier, c, species, sy);
        assert(all[i] == last);
        assert(all.take(i) =~= earlier);
        lemma_height(g, c);
        assert(last.anchor@[0] == c.x && last.anchor@[1] == sy as u8 && last.anchor@[2] == c.z);
    }
}

proof fn lemma_height(g: Ground, c: DetailPoint)
    requires
        c.in_chunk(),
        standing_height(g, c) is Some,
    ensures
        0 <= standing_height(g, c).unwrap() < 32,
{
    if c.surface_y is None {
        lemma_top(g, c.x as int, c.z as int, 31);
    }
}

proof fn lemma_top(g: Ground, x: int, z: int, y: int)
    requires
        y < 32,
    ensures
        crate::detail::top_filled(g.cells, x, z, y) matches Some(t) ==> 0 <= t <= y,
    decreases y + 1,
{
    if y >= 0 {
        lemma_top(g, x, z, y - 1);
    }
}

proof fn lemma_standing_grows(all: Seq<FoliageInstance>, i: int, j: int, cell: [u8; 3])
    requires
        0 <= i < j <= all.len(),
        all[i].anchor == cell,
    ensures
        standing_in(all.take(i), cell) < standing_in(all.take(j), cell) <= j,
    decreases j,
{
    assert(all.take(j).drop_last() =~= all.take(j - 1));
    assert(all.take(j).last() == all[j - 1]);
    if i < j - 1 {
        lemma_standing_grows(all, i, j - 1, cell);
    } else {
        lemma_standing_at_most(all.take(i), cell);
    }
}

proof fn lemma_standing_at_most(all: Seq<FoliageInstance>, cell: [u8; 3])
    ensures
        standing_in(all, cell) <= all.len(),
    decreases all.len(),
{
    if all.len() > 0 {
        lemma_standing_at_most(all.drop_last(), cell);
    }
}

/// Instances of one scatter node that stand in the same cell have different
/// identities.
pub proof fn instances_sharing_a_cell_differ(
    g: Ground,
    seed: u32,
    prefab_id: u32,
    assigned: Seq<(DetailPoint, u8)>,
    i: int,
    j: int,
)
    requires
        0 <= i < j < scattered(g, seed, prefab_id, assigned).len(),
        scattered(g, seed, prefab_id, assigned).len() <= 0xffff_ffff,
        forall|k: int| 0 <= k < assigned.len() ==> (#[trigger] assigned[k]).0.in_chunk(),
        scattered(g, seed, prefab_id, assigned)[i].anchor == scattered(
            g,
            seed,
            prefab_id,
            assigned,
        )[j].anchor,
    ensures
        scattered(g, seed, prefab_id, assigned)[i].stable_id != scattered(
            g,
            seed,
            prefab_id,
            assigned,
        )[j].stable_id,
{
    let all = scattered(g, seed, prefab_id, assigned);
    let cell = all[i].anchor;
    lemma_identity(g, seed, prefab_id, assigned, i);
    lemma_identity(g, seed, prefab_id, assigned, j);
    lemma_standing_grows(all, i, j, cell);
    let (wx, wy, wz) = world_anchor(g.ctx, cell);
    shared_cells_keep_identities_apart(
        g.ctx.world_seed,
        wx as i32,
        wy as i32,
        wz as i32,
        prefab_id,
        standing_in(all.take(i), cell) as u32,
        standing_in(all.take(j), cell) as u32,
    );
}

/// The species of a candidate does not depend on how high the chunk lies: stacked
/// chunks draw alike.
pub proof fn species_draws_ignore_height(a: EvalContext, b: EvalContext, seed: u32, c: DetailPoint)
    requires
        a.world_seed == b.world_seed,
        a.chunk.x == b.chunk.x,
        a.chunk.z == b.chunk.z,
    ensures
        species_draw(a, seed, c) == species_draw(b, seed, c),
{
}

} // verus!
