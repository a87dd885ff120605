//! What holds of features over any number of chunks.
use crate::chunk::{cell_index, cell_index_is_injective, in_window};
use crate::context::EvalContext;
use crate::feature::{
    applies_before, block_candidates, candidate_of, candidates_around, feature_of, features_around,
    first_cell, in_order, inserted, last_cell, row_candidates, settled, source_candidates, Candidate,
    ColumnProbe, Feature, FeaturePayload, FeatureSource,
};
use crate::feature_stamp::{
    landing, owns, with_features, with_template, with_wood, written, Canvas,
};
use crate::fraction::{share_of, shares_are_short};
use crate::scatter::{draw, fraction_of};
use crate::voxel::{BlueprintCell, IVec3, Voxel};
use vstd::prelude::*;

verus! {

/// What a world cell holds, and whether it is protected.
pub struct CellState {
    /// The voxel.
    pub voxel: Voxel,
    /// Whether nothing later overwrites it.
    pub shielded: bool,
}

/// A world cell after a write to the world cell `(x, y, z)`.
pub open spec fn cell_written(
    s: CellState,
    here: bool,
    v: Voxel,
    protect: bool,
) -> CellState {
    if !here || s.shielded {
        s
    } else {
        CellState { voxel: v, shielded: protect }
    }
}

/// A world cell after a template: the chunk that holds the cell takes no part.
pub open spec fn cell_with_template(
    s: CellState,
    f: Feature,
    anchor: IVec3,
    template: Seq<BlueprintCell>,
    protect: bool,
    w: (int, int, int),
) -> CellState
    decreases template.len(),
{
    if template.len() == 0 {
        s
    } else {
        let at = landing(IVec3 { x: 0, y: 0, z: 0 }, f, anchor, template.last().at);
        cell_written(
            cell_with_template(s, f, anchor, template.drop_last(), protect, w),
            at == w,
            template.last().voxel,
            protect,
        )
    }
}

/// A world cell after the wood of a tree.
pub open spec fn cell_with_wood(
    s: CellState,
    wood: Voxel,
    cells: Seq<IVec3>,
    w: (int, int, int),
) -> CellState
    decreases cells.len(),
{
    if cells.len() == 0 {
        s
    } else {
        let c = cells.last();
        cell_written(
            cell_with_wood(s, wood, cells.drop_last(), w),
            (c.x as int, c.y as int, c.z as int) == w,
            wood,
            false,
        )
    }
}

/// A world cell after features, in order.
pub open spec fn cell_with_features(
    s: CellState,
    sources: Seq<FeatureSource>,
    features: Seq<Feature>,
    trees: Seq<Vec<IVec3>>,
    w: (int, int, int),
) -> CellState
    decreases features.len(),
{
    if features.len() == 0 {
        s
    } else {
        let rest = cell_with_features(s, sources, features.drop_last(), trees, w);
        let f = features.last();
        if f.source >= sources.len() {
            rest
        } else {
            match sources[f.source as int].payload {
                FeaturePayload::Blueprint(bp) => cell_with_template(
                    rest,
                    f,
                    bp.anchor,
                    bp.cells@,
                    bp.protected_volume,
                    w,
                ),
                FeaturePayload::Tree(t) => cell_with_wood(
                    rest,
                    Voxel::cube_of(t.wood),
                    trees[features.len() - 1]@,
                    w,
                ),
            }
        }
    }
}

/// The position in a chunk's storage of a world cell.
pub open spec fn local_index(chunk: IVec3, w: (int, int, int)) -> int {
    cell_index(w.0 - 32 * chunk.x, w.1 - 32 * chunk.y, w.2 - 32 * chunk.z)
}

/// What a chunk being stamped holds at a world cell.
pub open spec fn state_at(k: Canvas, chunk: IVec3, w: (int, int, int)) -> CellState {
    CellState {
        voxel: k.cells[local_index(chunk, w)],
        shielded: k.shield[local_index(chunk, w)],
    }
}

spec fn sized(k: Canvas) -> bool {
    k.cells.len() == 32768 && k.shield.len() == 32768
}

proof fn lemma_written(
    k: Canvas,
    chunk: IVec3,
    x: int,
    y: int,
    z: int,
    v: Voxel,
    protect: bool,
    w: (int, int, int),
)
    requires
        sized(k),
        owns(chunk, w.0, w.1, w.2),
    ensures
        sized(written(k, x - 32 * chunk.x, y - 32 * chunk.y, z - 32 * chunk.z, v, protect)),
        state_at(
            written(k, x - 32 * chunk.x, y - 32 * chunk.y, z - 32 * chunk.z, v, protect),
            chunk,
            w,
        ) == cell_written(state_at(k, chunk, w), (x, y, z) == w, v, protect),
{
    let (a, b, c) = (x - 32 * chunk.x, y - 32 * chunk.y, z - 32 * chunk.z);
    if in_window(a, b, c) {
        cell_index_is_injective(
            a,
            b,
            c,
            w.0 - 32 * chunk.x,
            w.1 - 32 * chunk.y,
            w.2 - 32 * chunk.z,
        );
    }
}

proof fn lemma_template(
    k: Canvas,
    chunk: IVec3,
    f: Feature,
    anchor: IVec3,
    template: Seq<BlueprintCell>,
    protect: bool,
    w: (int, int, int),
)
    requires
        sized(k),
        owns(chunk, w.0, w.1, w.2),
    ensures
        sized(with_template(k, chunk, f, anchor, template, protect)),
        state_at(with_template(k, chunk, f, anchor, template, protect), chunk, w)
            == cell_with_template(state_at(k, chunk, w), f, anchor, template, protect, w),
    decreases template.len(),
{
    if template.len() > 0 {
        lemma_template(k, chunk, f, anchor, template.drop_last(), protect, w);
        let at = landing(IVec3 { x: 0, y: 0, z: 0 }, f, anchor, template.last().at);
        lemma_written(
            with_template(k, chunk, f, anchor, template.drop_last(), protect),
            chunk,
            at.0,
            at.1,
            at.2,
            template.last().voxel,
            protect,
            w,
        );
    }
}

proof fn lemma_wood(k: Canvas, chunk: IVec3, wood: Voxel, cells: Seq<IVec3>, w: (int, int, int))
    requires
        sized(k),
        owns(chunk, w.0, w.1, w.2),
    ensures
        sized(with_wood(k, chunk, wood, cells)),
        state_at(with_wood(k, chunk, wood, cells), chunk, w) == cell_with_wood(
            state_at(k, chunk, w),
            wood,
            cells,
            w,
        ),
    decreases cells.len(),
{
    if cells.len() > 0 {
        lemma_wood(k, chunk, wood, cells.drop_last(), w);
        let c = cells.last();
        lemma_written(
            with_wood(k, chunk, wood, cells.drop_last()),
            chunk,
            c.x as int,
            c.y as int,
            c.z as int,
            wood,
            false,
            w,
        );
    }
}

/// What stamping leaves in a world cell depends on the features and on what was
/// in the cell, not on the chunk that holds it: so a feature that crosses a border
/// agrees on both sides of it.
pub proof fn stamping_is_pointwise(
    k: Canvas,
    chunk: IVec3,
    sources: Seq<FeatureSource>,
    features: Seq<Feature>,
    trees: Seq<Vec<IVec3>>,
    w: (int, int, int),
)
    requires
        k.cells.len() == 32768,
        k.shield.len() == 32768,
        owns(chunk, w.0, w.1, w.2),
    ensures
        with_features(k, chunk, sources, features, trees).cells.len() == 32768,
        with_features(k, chunk, sources, features, trees).shield.len() == 32768,
        state_at(with_features(k, chunk, sources, features, trees), chunk, w)
            == cell_with_features(state_at(k, chunk, w), sources, features, trees, w),
    decreases features.len(),
{
    if features.len() > 0 {
        stamping_is_pointwise(k, chunk, sources, features.drop_last(), trees, w);
        let rest = with_features(k, chunk, sources, features.drop_last(), trees);
        let f = features.last();
        if f.source < sources.len() {
            match sources[f.source as int].payload {
                FeaturePayload::Blueprint(bp) => {
                    lemma_template(
                        rest,
                        chunk,
                        f,
                        bp.anchor,
                        bp.cells@,
                        bp.protected_volume,
                        w,
                    );
                },
                FeaturePayload::Tree(t) => {
                    lemma_wood(
                        rest,
                        chunk,
                        Voxel::cube_of(t.wood),
                        trees[features.len() - 1]@,
                        w,
                    );
                },
            }
        }
    }
}

proof fn lemma_template_spares(
    s: CellState,
    f: Feature,
    anchor: IVec3,
    template: Seq<BlueprintCell>,
    protect: bool,
    w: (int, int, int),
)
    requires
        s.shielded,
    ensures
        cell_with_template(s, f, anchor, template, protect, w) == s,
    decreases template.len(),
{
    if template.len() > 0 {
        lemma_template_spares(s, f, anchor, template.drop_last(), protect, w);
    }
}

proof fn lemma_wood_spares(s: CellState, wood: Voxel, cells: Seq<IVec3>, w: (int, int, int))
    requires
        s.shielded,
    ensures
        cell_with_wood(s, wood, cells, w) == s,
    decreases cells.len(),
{
    if cells.len() > 0 {
        lemma_wood_spares(s, wood, cells.drop_last(), w);
    }
}

/// A protected cell keeps its voxel, whatever features come later.
pub proof fn protected_cells_survive(
    s: CellState,
    sources: Seq<FeatureSource>,
    features: Seq<Feature>,
    trees: Seq<Vec<IVec3>>,
    w: (int, int, int),
)
    requires
        s.shielded,
    ensures
        cell_with_features(s, sources, features, trees, w) == s,
    decreases features.len(),
{
    if features.len() > 0 {
        protected_cells_survive(s, sources, features.drop_last(), trees, w);
        let f = features.last();
        if f.source < sources.len() {
            match sources[f.source as int].payload {
                FeaturePayload::Blueprint(bp) => {
                    lemma_template_spares(s, f, bp.anchor, bp.cells@, bp.protected_volume, w);
                },
                FeaturePayload::Tree(t) => {
                    lemma_wood_spares(s, Voxel::cube_of(t.wood), trees[features.len() - 1]@, w);
                },
            }
        }
    }
}

/// A world cell lies in one chunk only, so whatever stands in it has one owner.
pub proof fn cells_have_one_owner(a: IVec3, b: IVec3, x: int, y: int, z: int)
    requires
        owns(a, x, y, z),
        owns(b, x, y, z),
    ensures
        a == b,
{
}

/// Features apply by key: no later one applies strictly before an earlier one.
pub open spec fn ordered(s: Seq<Feature>) -> bool {
    forall|i: int, j: int|
        0 <= i < j < s.len() ==> !applies_before(#[trigger] s[j], #[trigger] s[i])
}

pub(crate) proof fn lemma_inserted(s: Seq<Feature>, f: Feature)
    ensures
        inserted(s, f).to_multiset() == s.to_multiset().insert(f),
        ordered(s) ==> ordered(inserted(s, f)),
    decreases s.len(),
{
    broadcast use vstd::seq_lib::group_to_multiset_ensures;
    broadcast use vstd::multiset::group_multiset_axioms;

    if s.len() > 0 && applies_before(f, s.last()) {
        let short = s.drop_last();
        lemma_inserted(short, f);
        assert(s =~= short.push(s.last()));
        assert(inserted(s, f).to_multiset() =~= s.to_multiset().insert(f));
        if ordered(s) {
            assert(ordered(short)) by {
                assert forall|i: int, j: int| 0 <= i < j < short.len() implies !applies_before(
                    #[trigger] short[j],
                    #[trigger] short[i],
                ) by {
                    assert(short[i] == s[i] && short[j] == s[j]);
                }
            }
            let r = inserted(short, f);
            let all = r.push(s.last());
            assert forall|i: int, j: int| 0 <= i < j < all.len() implies !applies_before(
                #[trigger] all[j],
                #[trigger] all[i],
            ) by {
                if j < r.len() {
                    assert(all[i] == r[i] && all[j] == r[j]);
                } else {
                    assert(r.contains(r[i]));
                    assert(r.to_multiset().count(r[i]) > 0);
                    if r[i] != f {
                        assert(short.to_multiset().count(r[i]) > 0);
                        assert(short.contains(r[i]));
                        let n = choose|n: int| 0 <= n < short.len() && short[n] == r[i];
                        assert(s[n] == r[i]);
                        assert(!applies_before(s[s.len() - 1], s[n]));
                    }
                }
            }
        }
    } else {
        assert(s.push(f).to_multiset() =~= s.to_multiset().insert(f));
        if ordered(s) {
            let all = s.push(f);
            assert forall|i: int, j: int| 0 <= i < j < all.len() implies !applies_before(
                #[trigger] all[j],
                #[trigger] all[i],
            ) by {
                if j < s.len() {
                    assert(all[i] == s[i] && all[j] == s[j]);
                } else {
                    assert(!applies_before(f, s.last()));
                    if i < s.len() - 1 {
                        assert(!applies_before(s[s.len() - 1], s[i]));
                    }
                }
            }
        }
    }
}

/// Ordering features loses none and adds none, and leaves them ordered by key.
/// The key is the same in every chunk, so every chunk resolves an overlap of two
/// features in the same way.
pub proof fn features_apply_in_key_order(s: Seq<Feature>)
    ensures
        in_order(s).to_multiset() == s.to_multiset(),
        ordered(in_order(s)),
    decreases s.len(),
{
    broadcast use vstd::seq_lib::group_to_multiset_ensures;
    broadcast use vstd::multiset::group_multiset_axioms;

    if s.len() > 0 {
        let short = s.drop_last();
        features_apply_in_key_order(short);
        lemma_inserted(in_order(short), s.last());
        assert(s =~= short.push(s.last()));
    }
}

pub(crate) proof fn lemma_order_keeps_members(s: Seq<Feature>, f: Feature)
    ensures
        in_order(s).contains(f) <==> s.contains(f),
{
    broadcast use vstd::seq_lib::group_to_multiset_ensures;

    features_apply_in_key_order(s);
    assert(in_order(s).contains(f) <==> in_order(s).to_multiset().count(f) > 0);
    assert(s.contains(f) <==> s.to_multiset().count(f) > 0);
}

proof fn lemma_in_row(
    world_seed: u64,
    source: FeatureSource,
    index: usize,
    cz: int,
    lo: int,
    end: int,
    cx: int,
)
    requires
        lo <= cx < end,
        candidate_of(world_seed, source, index, cx, cz) is Some,
    ensures
        row_candidates(world_seed, source, index, cz, lo, end).contains(
            candidate_of(world_seed, source, index, cx, cz).unwrap(),
        ),
    decreases end - lo,
{
    let c = candidate_of(world_seed, source, index, cx, cz).unwrap();
    let rest = row_candidates(world_seed, source, index, cz, lo, end - 1);
    let row = row_candidates(world_seed, source, index, cz, lo, end);
    if cx == end - 1 {
        assert(row.last() == c);
    } else {
        lemma_in_row(world_seed, source, index, cz, lo, end - 1, cx);
        let i = choose|i: int| 0 <= i < rest.len() && rest[i] == c;
        assert(row[i] == c);
    }
}

proof fn lemma_in_block(
    world_seed: u64,
    source: FeatureSource,
    index: usize,
    lo_x: int,
    end_x: int,
    lo_z: int,
    end_z: int,
    cx: int,
    cz: int,
)
    requires
        lo_x <= cx < end_x,
        lo_z <= cz < end_z,
        candidate_of(world_seed, source, index, cx, cz) is Some,
    ensures
        block_candidates(world_seed, source, index, lo_x, end_x, lo_z, end_z).contains(
            candidate_of(world_seed, source, index, cx, cz).unwrap(),
        ),
    decreases end_z - lo_z,
{
    let c = candidate_of(world_seed, source, index, cx, cz).unwrap();
    let rest = block_candidates(world_seed, source, index, lo_x, end_x, lo_z, end_z - 1);
    let row = row_candidates(world_seed, source, index, end_z - 1, lo_x, end_x);
    let block = block_candidates(world_seed, source, index, lo_x, end_x, lo_z, end_z);
    if cz == end_z - 1 {
        lemma_in_row(world_seed, source, index, cz, lo_x, end_x, cx);
        let i = choose|i: int| 0 <= i < row.len() && row[i] == c;
        assert(block[rest.len() + i] == c);
    } else {
        lemma_in_block(world_seed, source, index, lo_x, end_x, lo_z, end_z - 1, cx, cz);
        let i = choose|i: int| 0 <= i < rest.len() && rest[i] == c;
        assert(block[i] == c);
    }
}

proof fn lemma_either_part(a: Seq<Candidate>, b: Seq<Candidate>, c: Candidate)
    requires
        a.contains(c) || b.contains(c),
    ensures
        (a + b).contains(c),
{
    if a.contains(c) {
        let n = choose|n: int| 0 <= n < a.len() && a[n] == c;
        assert((a + b)[n] == c);
    } else {
        let n = choose|n: int| 0 <= n < b.len() && b[n] == c;
        assert((a + b)[a.len() + n] == c);
    }
}

#[verifier::spinoff_prover]
proof fn lemma_in_sources(ctx: EvalContext, sources: Seq<FeatureSource>, i: int, c: Candidate)
    requires
        0 <= i < sources.len(),
        source_candidates(ctx, sources[i], i as usize).contains(c),
    ensures
        candidates_around(ctx, sources).contains(c),
    decreases sources.len(),
{
    let rest = candidates_around(ctx, sources.drop_last());
    let own = source_candidates(ctx, sources.last(), (sources.len() - 1) as usize);
    if i == sources.len() - 1 {
        assert(own.contains(c));
    } else {
        assert(sources.drop_last()[i] == sources[i]);
        lemma_in_sources(ctx, sources.drop_last(), i, c);
    }
    lemma_either_part(rest, own, c);
    assert(candidates_around(ctx, sources) == rest + own);
}

/// Whether a source's occurrence anchored on a world coordinate can touch a
/// chunk, along one axis.
pub open spec fn in_reach(source: FeatureSource, chunk: int, at: int) -> bool {
    32 * chunk - source.reach_bound() <= at <= 32 * chunk + 32 + source.reach_bound()
}

proof fn lemma_band_covers(source: FeatureSource, chunk: int, cell: int, k: int, at: int)
    requires
        0 <= k < 0x100_0000,
        at == cell * source.edge() + share_of(k, source.edge()),
        in_reach(source, chunk, at),
    ensures
        first_cell(source, chunk) <= cell <= last_cell(source, chunk),
{
    let edge = source.edge();
    let within = share_of(k, edge);
    shares_are_short(k, edge);
    assert(0 <= within < edge);
    let lo = 32 * chunk - source.reach_bound();
    let hi = 32 * chunk + 32 + source.reach_bound();
    vstd::arithmetic::div_mod::lemma_fundamental_div_mod_converse(at, edge, cell, within);
    vstd::arithmetic::div_mod::lemma_div_is_ordered(lo, at, edge);
    vstd::arithmetic::div_mod::lemma_div_is_ordered(at, hi, edge);
}

pub(crate) proof fn lemma_fraction_bound(d: u64)
    ensures
        0 <= fraction_of(d) < 0x100_0000,
{
    assert((d >> 40) < 0x100_0000) by (bit_vector);
}

/// The world column that a grid cell draws for its occurrence.
pub open spec fn drawn_column(world_seed: u64, source: FeatureSource, cx: int, cz: int) -> (
    int,
    int,
) {
    let seed = crate::context::cell_seed_of(world_seed, source.seed, cx as i64, cz as i64);
    (
        cx * source.edge() + share_of(fraction_of(draw(seed, 1)) as int, source.edge()),
        cz * source.edge() + share_of(fraction_of(draw(seed, 2)) as int, source.edge()),
    )
}

/// Every candidate that can touch a chunk is found from that chunk: the band of
/// grid cells a chunk looks at misses none.
pub proof fn nothing_in_reach_is_missed(
    ctx: EvalContext,
    sources: Seq<FeatureSource>,
    i: int,
    cx: int,
    cz: int,
)
    requires
        0 <= i < sources.len(),
        candidate_of(ctx.world_seed, sources[i], i as usize, cx, cz) is Some,
        in_reach(
            sources[i],
            ctx.chunk.x as int,
            drawn_column(ctx.world_seed, sources[i], cx, cz).0,
        ),
        in_reach(
            sources[i],
            ctx.chunk.z as int,
            drawn_column(ctx.world_seed, sources[i], cx, cz).1,
        ),
    ensures
        candidates_around(ctx, sources).contains(
            candidate_of(ctx.world_seed, sources[i], i as usize, cx, cz).unwrap(),
        ),
{
    let source = sources[i];
    let (x, z) = drawn_column(ctx.world_seed, source, cx, cz);
    let seed = crate::context::cell_seed_of(ctx.world_seed, source.seed, cx as i64, cz as i64);
    lemma_fraction_bound(draw(seed, 1));
    lemma_fraction_bound(draw(seed, 2));
    lemma_band_covers(
        source,
        ctx.chunk.x as int,
        cx,
        fraction_of(draw(seed, 1)) as int,
        x,
    );
    lemma_band_covers(
        source,
        ctx.chunk.z as int,
        cz,
        fraction_of(draw(seed, 2)) as int,
        z,
    );
    lemma_in_block(
        ctx.world_seed,
        source,
        i as usize,
        first_cell(source, ctx.chunk.x as int),
        last_cell(source, ctx.chunk.x as int) + 1,
        first_cell(source, ctx.chunk.z as int),
        last_cell(source, ctx.chunk.z as int) + 1,
        cx,
        cz,
    );
    lemma_in_sources(
        ctx,
        sources,
        i,
        candidate_of(ctx.world_seed, source, i as usize, cx, cz).unwrap(),
    );
}

proof fn lemma_settled(
    sources: Seq<FeatureSource>,
    candidates: Seq<Candidate>,
    columns: Seq<Option<ColumnProbe>>,
    i: int,
)
    requires
        0 <= i < candidates.len(),
        feature_of(sources, candidates[i], columns[i]) is Some,
    ensures
        settled(sources, candidates, columns).contains(
            feature_of(sources, candidates[i], columns[i]).unwrap(),
        ),
    decreases candidates.len(),
{
    let f = feature_of(sources, candidates[i], columns[i]).unwrap();
    let rest = settled(sources, candidates.drop_last(), columns);
    let all = settled(sources, candidates, columns);
    if i == candidates.len() - 1 {
        assert(all.last() == f);
    } else {
        lemma_settled(sources, candidates.drop_last(), columns, i);
        let n = choose|n: int| 0 <= n < rest.len() && rest[n] == f;
        assert(all[n] == f);
    }
}

/// The feature of a grid cell, where columns answer as `probe` says.
pub open spec fn cell_feature(
    world_seed: u64,
    sources: Seq<FeatureSource>,
    i: int,
    cx: int,
    cz: int,
    probe: spec_fn(int, int) -> Option<ColumnProbe>,
) -> Option<Feature> {
    match candidate_of(world_seed, sources[i], i as usize, cx, cz) {
        Some(c) => feature_of(sources, c, probe(c.x as int, c.z as int)),
        None => None,
    }
}

/// Every chunk that the feature of a grid cell can touch derives that feature,
/// the same in each: so neighboring chunks agree without reading each other.
pub proof fn chunks_in_reach_share_the_feature(
    ctx: EvalContext,
    sources: Seq<FeatureSource>,
    i: int,
    cx: int,
    cz: int,
    probe: spec_fn(int, int) -> Option<ColumnProbe>,
)
    requires
        0 <= i < sources.len(),
        cell_feature(ctx.world_seed, sources, i, cx, cz, probe) is Some,
        in_reach(
            sources[i],
            ctx.chunk.x as int,
            drawn_column(ctx.world_seed, sources[i], cx, cz).0,
        ),
        in_reach(
            sources[i],
            ctx.chunk.z as int,
            drawn_column(ctx.world_seed, sources[i], cx, cz).1,
        ),
    ensures
        features_around(ctx, sources, probe).contains(
            cell_feature(ctx.world_seed, sources, i, cx, cz, probe).unwrap(),
        ),
{
    nothing_in_reach_is_missed(ctx, sources, i, cx, cz);
    let c = candidate_of(ctx.world_seed, sources[i], i as usize, cx, cz).unwrap();
    let candidates = candidates_around(ctx, sources);
    let columns = Seq::new(
        candidates.len(),
        |n: int| probe(candidates[n].x as int, candidates[n].z as int),
    );
    let n = choose|n: int| 0 <= n < candidates.len() && candidates[n] == c;
    assert(columns[n] == probe(c.x as int, c.z as int));
    lemma_settled(sources, candidates, columns, n);
    lemma_order_keeps_members(
        settled(sources, candidates, columns),
        cell_feature(ctx.world_seed, sources, i, cx, cz, probe).unwrap(),
    );
}

} // verus!
