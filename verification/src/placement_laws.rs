//! Where features stand and what stamping leaves of them, cell by cell.
use crate::context::{cell_seed_of, EvalContext};
use crate::feature::{
    applies_before, candidate_of, candidates_around, feature_of, features_around, first_cell,
    heights_fit, in_order, last_cell, settled, yaw_of, Candidate, ColumnProbe, Feature,
    FeaturePayload, FeatureSource,
};
use crate::feature_laws::{
    cell_with_template, cell_with_wood, features_apply_in_key_order, lemma_fraction_bound,
    lemma_order_keeps_members,
    stamping_is_pointwise, state_at, CellState,
};
use crate::feature_share::lemma_of_settled;
use crate::feature_stamp::{canopies, canopy_of, landing, unprotected, with_features, Canvas};
use crate::foliage::with_bucket;
use crate::fraction::{fraction_single, lemma_doublings, share_of, shares_are_short};
use crate::scalar::{two_to, Single};
use crate::scatter::{draw, drawn_in_cell, fraction_of};
use crate::voxel::{reach_of, BlueprintCell, IVec3, Rotation, ShapeId, Voxel, Yaw};
use vstd::prelude::*;

verus! {

/// Whether a source admits a column: its zone and its biome are among those the source
/// lists, where it lists any.
pub open spec fn admitted(s: FeatureSource, p: ColumnProbe) -> bool {
    &&& s.zones@.len() == 0 || exists|i: int| 0 <= i < s.zones@.len() && s.zones@[i] == p.zone_id
    &&& s.biomes@.len() == 0 || exists|i: int|
        0 <= i < s.biomes@.len() && s.biomes@[i] == p.biome_id
}

/// Whether a feature is what a candidate becomes on a column: it stands in the candidate's
/// column, as far above the column's surface as its source says, with the candidate's turn,
/// key and source, and its source admits the column.
pub open spec fn stands_on(
    sources: Seq<FeatureSource>,
    c: Candidate,
    p: ColumnProbe,
    f: Feature,
) -> bool {
    &&& f.anchor.x == c.x
    &&& f.anchor.z == c.z
    &&& f.source == c.source
    &&& f.source < sources.len()
    &&& f.anchor.y - p.surface_y == sources[f.source as int].surface_offset
    &&& f.yaw == c.yaw
    &&& f.priority == c.priority
    &&& admitted(sources[f.source as int], p)
}

proof fn lemma_becomes(sources: Seq<FeatureSource>, c: Candidate, column: Option<ColumnProbe>)
    requires
        heights_fit(sources, column),
    ensures
        match feature_of(sources, c, column) {
            Some(f) => column is Some && stands_on(sources, c, column->0, f),
            None => column is None || c.source >= sources.len() || !admitted(
                sources[c.source as int],
                column->0,
            ),
        },
{
    if let Some(p) = column {
        if c.source < sources.len() {
            let s = sources[c.source as int];
            assert(-0x8000_0000 <= p.surface_y + s.surface_offset <= 0x7fff_ffff);
            assert(s.zones@.contains(p.zone_id) <==> exists|i: int|
                0 <= i < s.zones@.len() && s.zones@[i] == p.zone_id);
            assert(s.biomes@.contains(p.biome_id) <==> exists|i: int|
                0 <= i < s.biomes@.len() && s.biomes@[i] == p.biome_id);
        }
    }
}

/// Every feature around a chunk stands on the column of a candidate: as far above the
/// surface that is answered for that column as its source says, in a zone and a biome that
/// its source lists.
pub proof fn features_stand_above_their_surface(
    ctx: EvalContext,
    sources: Seq<FeatureSource>,
    probe: spec_fn(int, int) -> Option<ColumnProbe>,
    f: Feature,
) -> (c: Candidate)
    requires
        forall|x: int, z: int| heights_fit(sources, #[trigger] probe(x, z)),
        features_around(ctx, sources, probe).contains(f),
    ensures
        candidates_around(ctx, sources).contains(c),
        probe(c.x as int, c.z as int) is Some,
        stands_on(sources, c, probe(c.x as int, c.z as int)->0, f),
{
    let candidates = candidates_around(ctx, sources);
    let columns = Seq::new(
        candidates.len(),
        |i: int| probe(candidates[i].x as int, candidates[i].z as int),
    );
    let loose = settled(sources, candidates, columns);
    lemma_order_keeps_members(loose, f);
    let k = choose|k: int| 0 <= k < loose.len() && loose[k] == f;
    let n = lemma_of_settled(sources, candidates, columns, k);
    let c = candidates[n];
    assert(columns[n] == probe(c.x as int, c.z as int));
    lemma_becomes(sources, c, columns[n]);
    c
}

proof fn lemma_into_settled(
    sources: Seq<FeatureSource>,
    candidates: Seq<Candidate>,
    columns: Seq<Option<ColumnProbe>>,
    i: int,
)
    requires
        0 <= i < candidates.len(),
        feature_of(sources, candidates[i], columns[i]) is Some,
    ensures
        settled(sources, candidates, columns).contains(
            feature_of(sources, candidates[i], columns[i])->0,
        ),
    decreases candidates.len(),
{
    let f = feature_of(sources, candidates[i], columns[i])->0;
    let short = candidates.drop_last();
    let rest = settled(sources, short, columns);
    let all = settled(sources, candidates, columns);
    if i == candidates.len() - 1 {
        assert(all.last() == f);
    } else {
        assert(short[i] == candidates[i]);
        lemma_into_settled(sources, short, columns, i);
        let n = choose|n: int| 0 <= n < rest.len() && rest[n] == f;
        assert(all[n] == f);
    }
}

/// Every candidate around a chunk whose source admits its column becomes a feature.
pub proof fn admitted_candidates_become_features(
    ctx: EvalContext,
    sources: Seq<FeatureSource>,
    probe: spec_fn(int, int) -> Option<ColumnProbe>,
    c: Candidate,
) -> (f: Feature)
    requires
        forall|x: int, z: int| heights_fit(sources, #[trigger] probe(x, z)),
        candidates_around(ctx, sources).contains(c),
        c.source < sources.len(),
        probe(c.x as int, c.z as int) is Some,
        admitted(sources[c.source as int], probe(c.x as int, c.z as int)->0),
    ensures
        features_around(ctx, sources, probe).contains(f),
        stands_on(sources, c, probe(c.x as int, c.z as int)->0, f),
{
    let candidates = candidates_around(ctx, sources);
    let columns = Seq::new(
        candidates.len(),
        |i: int| probe(candidates[i].x as int, candidates[i].z as int),
    );
    let i = choose|i: int| 0 <= i < candidates.len() && candidates[i] == c;
    assert(columns[i] == probe(c.x as int, c.z as int));
    lemma_becomes(sources, c, columns[i]);
    lemma_into_settled(sources, candidates, columns, i);
    let f = feature_of(sources, c, columns[i])->0;
    lemma_order_keeps_members(settled(sources, candidates, columns), f);
    f
}

proof fn lemma_fraction_below_one(d: u64)
    ensures
        !fraction_single(fraction_of(d) as int).at_least(Single { bits: 0x3f80_0000 }),
        fraction_single(fraction_of(d) as int).at_least(Single { bits: 0 }),
{
    assert((d >> 40) < 0x100_0000) by (bit_vector);
    let k = fraction_of(d) as int;
    if k > 0 {
        lemma_doublings(k);
        let n = crate::fraction::doublings(k);
        assert(0 <= (126 - n) * 0x80_0000 + k * two_to(n) - 0x80_0000 < 0x3f80_0000);
    }
}

/// A source of full density has a candidate in every cell of its grid, one of no density
/// has none, and one that is denser has every candidate that a sparser one has, the same.
/// Candidates carry their source, and turn only where their source turns them.
pub proof fn denser_sources_have_more_candidates(
    world_seed: u64,
    sparse: FeatureSource,
    dense: FeatureSource,
    index: usize,
    cx: int,
    cz: int,
)
    requires
        sparse.cell_size == dense.cell_size,
        sparse.seed == dense.seed,
        sparse.random_yaw == dense.random_yaw,
        dense.density.at_least(sparse.density),
    ensures
        candidate_of(world_seed, sparse, index, cx, cz) is Some ==> candidate_of(
            world_seed,
            dense,
            index,
            cx,
            cz,
        ) == candidate_of(world_seed, sparse, index, cx, cz),
        dense.density.at_least(Single { bits: 0x3f80_0000 }) ==> candidate_of(
            world_seed,
            dense,
            index,
            cx,
            cz,
        ) is Some,
        (Single { bits: 0 }).at_least(dense.density) ==> candidate_of(
            world_seed,
            dense,
            index,
            cx,
            cz,
        ) is None,
        candidate_of(world_seed, dense, index, cx, cz) matches Some(c) ==> c.source == index && (
        !dense.random_yaw ==> c.yaw == Yaw::Deg0),
{
    let seed = crate::context::cell_seed_of(world_seed, dense.seed, cx as i64, cz as i64);
    lemma_fraction_below_one(draw(seed, 0));
}

/// The points of a jittered grid likewise: all cells at full density, none at none, and
/// the same ones with more between as density grows.
pub proof fn denser_grids_have_more_points(
    world_seed: u64,
    node_seed: u32,
    sparse: Single,
    dense: Single,
    cx: i64,
    cz: i64,
)
    requires
        dense.at_least(sparse),
    ensures
        drawn_in_cell(world_seed, node_seed, sparse, cx, cz) is Some ==> drawn_in_cell(
            world_seed,
            node_seed,
            dense,
            cx,
            cz,
        ) == drawn_in_cell(world_seed, node_seed, sparse, cx, cz),
        dense.at_least(Single { bits: 0x3f80_0000 }) ==> drawn_in_cell(
            world_seed,
            node_seed,
            dense,
            cx,
            cz,
        ) is Some,
        (Single { bits: 0 }).at_least(dense) ==> drawn_in_cell(
            world_seed,
            node_seed,
            dense,
            cx,
            cz,
        ) is None,
{
    let seed = crate::context::cell_seed_of(world_seed, node_seed, cx, cz);
    lemma_fraction_below_one(draw(seed, 0));
}

/// The world cell that a template cell of a feature comes to lie in: its offset from the
/// template's anchor, turned a quarter from east to south as often as the feature is,
/// laid off from the feature's anchor.
pub open spec fn comes_to(f: Feature, anchor: IVec3, at: IVec3) -> (int, int, int) {
    let (dx, dz) = (at.x - anchor.x, at.z - anchor.z);
    let (tx, tz) = match f.yaw {
        Yaw::Deg0 => (dx, dz),
        Yaw::Deg90 => (-dz, dx),
        Yaw::Deg180 => (-dx, -dz),
        Yaw::Deg270 => (dz, -dx),
    };
    (f.anchor.x + tx, f.anchor.y + (at.y - anchor.y), f.anchor.z + tz)
}

/// Whether the template cells of a feature leave a world cell alone.
pub open spec fn avoids(
    f: Feature,
    anchor: IVec3,
    template: Seq<BlueprintCell>,
    w: (int, int, int),
) -> bool {
    forall|i: int| 0 <= i < template.len() ==> comes_to(f, anchor, (#[trigger] template[i]).at) != w
}

proof fn lemma_template_cell(
    s: CellState,
    f: Feature,
    anchor: IVec3,
    template: Seq<BlueprintCell>,
    protect: bool,
    w: (int, int, int),
    i: int,
)
    ensures
        avoids(f, anchor, template, w) ==> cell_with_template(s, f, anchor, template, protect, w)
            == s,
        !s.shielded && !protect && 0 <= i < template.len() && comes_to(f, anchor, template[i].at)
            == w && (forall|j: int|
            i < j < template.len() ==> comes_to(f, anchor, (#[trigger] template[j]).at) != w)
            ==> cell_with_template(s, f, anchor, template, protect, w) == (CellState {
            voxel: template[i].voxel,
            shielded: false,
        }),
        !s.shielded && protect && 0 <= i < template.len() && comes_to(f, anchor, template[i].at)
            == w && (forall|j: int|
            0 <= j < i ==> comes_to(f, anchor, (#[trigger] template[j]).at) != w)
            ==> cell_with_template(s, f, anchor, template, protect, w) == (CellState {
            voxel: template[i].voxel,
            shielded: true,
        }),
        !protect && !s.shielded ==> !cell_with_template(
            s,
            f,
            anchor,
            template,
            protect,
            w,
        ).shielded,
    decreases template.len(),
{
    if template.len() > 0 {
        let n = template.len() - 1;
        let short = template.drop_last();
        lemma_template_cell(s, f, anchor, short, protect, w, i);
        assert(template[n] == template.last());
        assert(landing(IVec3 { x: 0, y: 0, z: 0 }, f, anchor, template.last().at) == comes_to(
            f,
            anchor,
            template.last().at,
        ));
        if avoids(f, anchor, template, w) {
            assert(avoids(f, anchor, short, w)) by {
                assert forall|j: int| 0 <= j < short.len() implies comes_to(
                    f,
                    anchor,
                    (#[trigger] short[j]).at,
                ) != w by {
                    assert(short[j] == template[j]);
                }
            }
        }
        if 0 <= i < n {
            assert(short[i] == template[i]);
            if forall|j: int|
                i < j < template.len() ==> comes_to(f, anchor, (#[trigger] template[j]).at) != w {
                assert forall|j: int| i < j < short.len() implies comes_to(
                    f,
                    anchor,
                    (#[trigger] short[j]).at,
                ) != w by {
                    assert(short[j] == template[j]);
                }
            }
            if forall|j: int|
                0 <= j < i ==> comes_to(f, anchor, (#[trigger] template[j]).at) != w {
                assert forall|j: int| 0 <= j < i implies comes_to(
                    f,
                    anchor,
                    (#[trigger] short[j]).at,
                ) != w by {
                    assert(short[j] == template[j]);
                }
            }
        }
        if i == n && (forall|j: int|
            0 <= j < i ==> comes_to(f, anchor, (#[trigger] template[j]).at) != w) {
            assert(avoids(f, anchor, short, w)) by {
                assert forall|j: int| 0 <= j < short.len() implies comes_to(
                    f,
                    anchor,
                    (#[trigger] short[j]).at,
                ) != w by {
                    assert(short[j] == template[j]);
                }
            }
        }
    }
}

proof fn lemma_wood_cell(s: CellState, wood: Voxel, cells: Seq<IVec3>, w: (int, int, int), i: int)
    ensures
        (forall|j: int|
            0 <= j < cells.len() ==> ((#[trigger] cells[j]).x as int, cells[j].y as int, cells[j].z as int)
                != w) ==> cell_with_wood(s, wood, cells, w) == s,
        !s.shielded && 0 <= i < cells.len() && (
            cells[i].x as int,
            cells[i].y as int,
            cells[i].z as int,
        ) == w ==> cell_with_wood(s, wood, cells, w) == (CellState { voxel: wood, shielded: false }),
        !s.shielded ==> !cell_with_wood(s, wood, cells, w).shielded,
    decreases cells.len(),
{
    if cells.len() > 0 {
        let n = cells.len() - 1;
        let short = cells.drop_last();
        lemma_wood_cell(s, wood, short, w, i);
        assert(cells[n] == cells.last());
        if 0 <= i < n {
            assert(short[i] == cells[i]);
        }
        if forall|j: int|
            0 <= j < cells.len() ==> ((#[trigger] cells[j]).x as int, cells[j].y as int, cells[j].z as int)
                != w {
            assert forall|j: int| 0 <= j < short.len() implies (
                (#[trigger] short[j]).x as int,
                short[j].y as int,
                short[j].z as int,
            ) != w by {
                assert(short[j] == cells[j]);
            }
        }
    }
}

/// What the last of some features does to a world cell that nothing earlier protects: a
/// blueprint writes the voxel of the template cell that comes to lie there, protecting it
/// where its volume is protected; a tree writes its wood; and a cell that neither comes to
/// is left as it was.
pub proof fn the_last_feature_wins(
    k: Canvas,
    chunk: IVec3,
    sources: Seq<FeatureSource>,
    features: Seq<Feature>,
    trees: Seq<Vec<IVec3>>,
    w: (int, int, int),
    i: int,
)
    requires
        k.cells.len() == 32768,
        k.shield.len() == 32768,
        0 <= w.0 - 32 * chunk.x < 32,
        0 <= w.1 - 32 * chunk.y < 32,
        0 <= w.2 - 32 * chunk.z < 32,
        features.len() > 0,
        features.last().source < sources.len(),
    ensures
        ({
            let f = features.last();
            let before = with_features(k, chunk, sources, features.drop_last(), trees);
            let after = with_features(k, chunk, sources, features, trees);
            let at = (w.0 - 32 * chunk.x) + 32 * (w.1 - 32 * chunk.y) + 1024 * (w.2 - 32 * chunk.z);
            match sources[f.source as int].payload {
                FeaturePayload::Blueprint(bp) => {
                    let cells = bp.cells@;
                    &&& avoids(f, bp.anchor, cells, w) ==> after.cells[at] == before.cells[at]
                        && after.shield[at] == before.shield[at]
                    &&& !before.shield[at] && !bp.protected_volume && 0 <= i < cells.len()
                        && comes_to(f, bp.anchor, cells[i].at) == w && (forall|j: int|
                        i < j < cells.len() ==> comes_to(f, bp.anchor, (#[trigger] cells[j]).at)
                            != w) ==> after.cells[at] == cells[i].voxel && !after.shield[at]
                    &&& !before.shield[at] && bp.protected_volume && 0 <= i < cells.len()
                        && comes_to(f, bp.anchor, cells[i].at) == w && (forall|j: int|
                        0 <= j < i ==> comes_to(f, bp.anchor, (#[trigger] cells[j]).at) != w)
                        ==> after.cells[at] == cells[i].voxel && after.shield[at]
                },
                FeaturePayload::Tree(t) => {
                    let cells = trees[features.len() - 1]@;
                    &&& (forall|j: int|
                        0 <= j < cells.len() ==> (
                            (#[trigger] cells[j]).x as int,
                            cells[j].y as int,
                            cells[j].z as int,
                        ) != w) ==> after.cells[at] == before.cells[at]
                    &&& !before.shield[at] && 0 <= i < cells.len() && (
                        cells[i].x as int,
                        cells[i].y as int,
                        cells[i].z as int,
                    ) == w ==> after.cells[at] == (Voxel {
                        shape: ShapeId::Cube,
                        rotation: Rotation::Unrotated,
                        material: t.wood,
                        flags: 0,
                    })
                },
            }
        }),
{
    let f = features.last();
    let before = with_features(k, chunk, sources, features.drop_last(), trees);
    stamping_is_pointwise(k, chunk, sources, features, trees, w);
    stamping_is_pointwise(k, chunk, sources, features.drop_last(), trees, w);
    let s = state_at(before, chunk, w);
    match sources[f.source as int].payload {
        FeaturePayload::Blueprint(bp) => {
            lemma_template_cell(s, f, bp.anchor, bp.cells@, bp.protected_volume, w, i);
        },
        FeaturePayload::Tree(t) => {
            lemma_wood_cell(s, Voxel::cube_of(t.wood), trees[features.len() - 1]@, w, i);
        },
    }
}

/// Without features a chunk stays as it is, and nothing in it is protected.
pub proof fn nothing_is_stamped_without_features(
    cells: Seq<Voxel>,
    chunk: IVec3,
    sources: Seq<FeatureSource>,
    trees: Seq<Vec<IVec3>>,
    i: int,
)
    requires
        0 <= i < 32768,
    ensures
        with_features(unprotected(cells), chunk, sources, Seq::empty(), trees).cells == cells,
        !with_features(unprotected(cells), chunk, sources, Seq::empty(), trees).shield[i],
{
}

/// One more feature adds its canopy to the bucket of the canopy's type just where the chunk
/// holds the cell the canopy stands in: over the feature's anchor, as far up as the canopy
/// says, turned as the feature is.
pub proof fn canopies_stand_over_their_features(
    ctx: EvalContext,
    sources: Seq<FeatureSource>,
    features: Seq<Feature>,
    f: Feature,
)
    requires
        f.source < sources.len(),
    ensures
        canopies(ctx, sources, Seq::empty()).len() == 0,
        ({
            let before = canopies(ctx, sources, features);
            let after = canopies(ctx, sources, features.push(f));
            match sources[f.source as int].canopy {
                None => after == before,
                Some(c) => {
                    let x = f.anchor.x - 32 * ctx.chunk.x;
                    let y = f.anchor.y + c.y_offset - 32 * ctx.chunk.y;
                    let z = f.anchor.z - 32 * ctx.chunk.z;
                    if 0 <= x < 32 && 0 <= y < 32 && 0 <= z < 32 {
                        &&& canopy_of(ctx, sources, f) is Some
                        &&& after == with_bucket(before, canopy_of(ctx, sources, f)->0)
                        &&& {
                            let b = canopy_of(ctx, sources, f)->0;
                            let g = b.instances[0];
                            &&& b.type_id == c.type_id
                            &&& b.instances.len() == 1
                            &&& g.anchor@ == seq![x as u8, y as u8, z as u8]
                            &&& g.sub_offset@ == seq![0i8, 0i8, 0i8]
                            &&& g.prefab_id == c.prefab_id
                            &&& g.rotation_y == (match f.yaw {
                                Yaw::Deg0 => 0u8,
                                Yaw::Deg90 => 64u8,
                                Yaw::Deg180 => 128u8,
                                Yaw::Deg270 => 192u8,
                            })
                        }
                    } else {
                        after == before
                    }
                },
            }
        }),
{
    let longer = features.push(f);
    assert(longer.drop_last() =~= features);
    if let Some(b) = canopy_of(ctx, sources, f) {
        let x = f.anchor.x - 32 * ctx.chunk.x;
        let y = f.anchor.y + sources[f.source as int].canopy->0.y_offset - 32 * ctx.chunk.y;
        let z = f.anchor.z - 32 * ctx.chunk.z;
        assert(b.instances[0].anchor@ =~= seq![x as u8, y as u8, z as u8]);
        assert(b.instances[0].sub_offset@ =~= seq![0i8, 0i8, 0i8]);
    }
}

/// Whether a feature's key comes before another's, or is the same: the lower priority, then
/// the anchor further west, lower and further north, then the earlier source.
pub open spec fn comes_no_later(f: Feature, g: Feature) -> bool {
    &&& f.priority <= g.priority
    &&& f.priority == g.priority ==> f.anchor.x <= g.anchor.x
    &&& f.priority == g.priority && f.anchor.x == g.anchor.x ==> f.anchor.y <= g.anchor.y
    &&& f.priority == g.priority && f.anchor.x == g.anchor.x && f.anchor.y == g.anchor.y
        ==> f.anchor.z <= g.anchor.z
    &&& f.priority == g.priority && f.anchor == g.anchor ==> f.source <= g.source
}

/// Features apply from the lowest priority to the highest, so that the highest is written
/// last; equal ones by their anchor, then by their source.
pub proof fn features_apply_by_priority(s: Seq<Feature>, i: int, j: int)
    requires
        0 <= i < j < in_order(s).len(),
    ensures
        comes_no_later(in_order(s)[i], in_order(s)[j]),
        in_order(s).len() == s.len(),
        in_order(s).to_multiset() == s.to_multiset(),
{
    broadcast use vstd::seq_lib::group_to_multiset_ensures;

    features_apply_in_key_order(s);
    assert(in_order(s).to_multiset().len() == s.to_multiset().len());
    assert(!applies_before(in_order(s)[j], in_order(s)[i]));
}

/// The turn of a number of quarters is that number without the whole turns.
pub proof fn turns_count_quarters(steps: int)
    ensures
        0 <= yaw_of(steps).step_count() < 4,
        (steps - yaw_of(steps).step_count()) % 4 == 0,
{
    let r = steps % 4;
    assert(r == 0 || r == 1 || r == 2 || r == 3);
    assert(yaw_of(steps).step_count() == r);
}

/// A candidate knows its source, and one of a source that does not turn its occurrences is
/// not turned.
pub proof fn candidates_turn_only_where_asked(
    world_seed: u64,
    source: FeatureSource,
    index: usize,
    cx: int,
    cz: int,
)
    ensures
        !source.random_yaw ==> (candidate_of(world_seed, source, index, cx, cz) matches Some(c)
            ==> c.yaw == Yaw::Deg0),
        candidate_of(world_seed, source, index, cx, cz) matches Some(c) ==> c.source == index,
{
}

/// A chunk looks at just the grid cells that come within a source's reach of it: those whose
/// columns are not all further west, or all further east, than that.
pub proof fn chunks_look_as_far_as_the_reach(source: FeatureSource, chunk: int, cell: int)
    ensures
        source.edge() >= 1,
        first_cell(source, chunk) <= cell <= last_cell(source, chunk) <==> (cell + 1)
            * source.edge() > 32 * chunk - source.reach_bound() && cell * source.edge() <= 32
            * chunk + 32 + source.reach_bound(),
{
    let edge = source.edge();
    let lo = 32 * chunk - source.reach_bound();
    let hi = 32 * chunk + 32 + source.reach_bound();
    vstd::arithmetic::div_mod::lemma_fundamental_div_mod(lo, edge);
    vstd::arithmetic::div_mod::lemma_mod_bound(lo, edge);
    vstd::arithmetic::div_mod::lemma_fundamental_div_mod(hi, edge);
    vstd::arithmetic::div_mod::lemma_mod_bound(hi, edge);
    let (a, b) = (lo / edge, hi / edge);
    let (ra, rb) = (lo % edge, hi % edge);
    assert(a <= cell <==> (cell + 1) * edge > lo) by (nonlinear_arith)
        requires
            lo == edge * a + ra,
            0 <= ra < edge,
    ;
    assert(cell <= b <==> cell * edge <= hi) by (nonlinear_arith)
        requires
            hi == edge * b + rb,
            0 <= rb < edge,
    ;
}

/// A blueprint reaches as far as one of its cells lies from its anchor along an axis, and
/// none lies further; one without cells does not reach at all.
pub proof fn blueprints_reach_their_furthest_cell(
    anchor: IVec3,
    cells: Seq<BlueprintCell>,
    i: int,
)
    ensures
        cells.len() == 0 ==> reach_of(anchor, cells) == 0,
        0 <= i < cells.len() ==> {
            &&& -reach_of(anchor, cells) <= cells[i].at.x - anchor.x <= reach_of(anchor, cells)
            &&& -reach_of(anchor, cells) <= cells[i].at.z - anchor.z <= reach_of(anchor, cells)
        },
        cells.len() > 0 ==> exists|j: int|
            0 <= j < cells.len() && reaches_to(anchor, #[trigger] cells[j], reach_of(anchor, cells)),
    decreases cells.len(),
{
    if cells.len() > 0 {
        let less = cells.drop_last();
        blueprints_reach_their_furthest_cell(anchor, less, i);
        let n = cells.len() - 1;
        if reaches_to(anchor, cells[n], reach_of(anchor, cells)) {
        } else {
            assert(reach_of(anchor, cells) == reach_of(anchor, less));
            if less.len() > 0 {
                let j = choose|j: int|
                    0 <= j < less.len() && reaches_to(
                        anchor,
                        #[trigger] less[j],
                        reach_of(anchor, less),
                    );
                assert(cells[j] == less[j]);
            }
        }
    }
}

/// Whether a cell lies at a distance from an anchor along an axis.
pub open spec fn reaches_to(anchor: IVec3, cell: BlueprintCell, distance: int) -> bool {
    ||| cell.at.x - anchor.x == distance
    ||| anchor.x - cell.at.x == distance
    ||| cell.at.z - anchor.z == distance
    ||| anchor.z - cell.at.z == distance
}

/// What a grid cell yields follows from the draws of the cell, each of which counts once: the
/// first decides whether it yields anything, the next two where along and across the cell,
/// then the turn, if the source turns its occurrences, and the priority last.
pub proof fn cells_draw_once_for_each_choice(
    world_seed: u64,
    source: FeatureSource,
    index: usize,
    cx: int,
    cz: int,
)
    requires
        -0x8000_0000 <= cx * source.edge(),
        -0x8000_0000 <= cz * source.edge(),
        cx * source.edge() + source.edge() <= 0x7fff_ffff,
        cz * source.edge() + source.edge() <= 0x7fff_ffff,
    ensures
        ({
            let seed = cell_seed_of(world_seed, source.seed, cx as i64, cz as i64);
            let along = share_of(fraction_of(draw(seed, 1)) as int, source.edge());
            let across = share_of(fraction_of(draw(seed, 2)) as int, source.edge());
            match candidate_of(world_seed, source, index, cx, cz) {
                None => fraction_single(fraction_of(draw(seed, 0)) as int).at_least(
                    source.density,
                ),
                Some(c) => {
                    &&& c.x - cx * source.edge() == along
                    &&& c.z - cz * source.edge() == across
                    &&& source.random_yaw ==> c.yaw.step_count() == draw(seed, 3) as int % 4
                        && c.priority == draw(seed, 4)
                    &&& !source.random_yaw ==> c.priority == draw(seed, 3)
                },
            }
        }),
{
    let seed = cell_seed_of(world_seed, source.seed, cx as i64, cz as i64);
    lemma_fraction_bound(draw(seed, 1));
    lemma_fraction_bound(draw(seed, 2));
    shares_are_short(fraction_of(draw(seed, 1)) as int, source.edge());
    shares_are_short(fraction_of(draw(seed, 2)) as int, source.edge());
    turns_count_quarters(draw(seed, 3) as int);
}

} // verus!
