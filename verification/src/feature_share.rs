//! What two chunks agree on: the features that both can see, and their order.
use crate::context::EvalContext;
use crate::feature::{
    applies_before, axis_fits, bands_fit, block_candidates, candidate_of, candidates_around,
    feature_of, features_around, first_cell, in_order, inserted, last_cell, row_candidates,
    settled, source_candidates, Candidate, ColumnProbe, Feature, FeatureSource,
};
use crate::feature_laws::{
    cell_feature, chunks_in_reach_share_the_feature, drawn_column, features_apply_in_key_order,
    in_reach, lemma_fraction_bound, lemma_inserted, lemma_order_keeps_members, ordered,
};
use crate::fraction::{in_single_digits, share_of, shares_are_short};
use crate::scatter::{draw, fraction_of};
use vstd::prelude::*;

verus! {

/// Whether the columns of a grid cell have world coordinates along an axis.
spec fn cell_fits(source: FeatureSource, c: int) -> bool {
    c * source.edge() >= -0x8000_0000 && c * source.edge() + in_single_digits(source.edge())
        <= 0x7fff_ffff
}

proof fn lemma_band_fits(source: FeatureSource, chunk: int, c: int)
    requires
        axis_fits(source, chunk),
        first_cell(source, chunk) <= c <= last_cell(source, chunk),
    ensures
        cell_fits(source, c),
{
    let (lo, hi) = (first_cell(source, chunk), last_cell(source, chunk));
    let edge = source.edge();
    assert(lo * edge <= c * edge <= hi * edge) by (nonlinear_arith)
        requires
            lo <= c <= hi,
            edge >= 1,
    ;
}

proof fn lemma_cell_column(world_seed: u64, source: FeatureSource, index: usize, cx: int, cz: int)
    requires
        cell_fits(source, cx),
        cell_fits(source, cz),
        candidate_of(world_seed, source, index, cx, cz) is Some,
    ensures
        ({
            let c = candidate_of(world_seed, source, index, cx, cz).unwrap();
            &&& (c.x as int, c.z as int) == drawn_column(world_seed, source, cx, cz)
            &&& c.x as int / source.edge() == cx
            &&& c.z as int / source.edge() == cz
            &&& c.source == index
        }),
{
    let edge = source.edge();
    let seed = crate::context::cell_seed_of(world_seed, source.seed, cx as i64, cz as i64);
    let (a, b) = (fraction_of(draw(seed, 1)) as int, fraction_of(draw(seed, 2)) as int);
    lemma_fraction_bound(draw(seed, 1));
    lemma_fraction_bound(draw(seed, 2));
    shares_are_short(a, edge);
    shares_are_short(b, edge);
    let (x, z) = drawn_column(world_seed, source, cx, cz);
    vstd::arithmetic::div_mod::lemma_fundamental_div_mod_converse(
        x,
        edge,
        cx,
        share_of(a, edge),
    );
    vstd::arithmetic::div_mod::lemma_fundamental_div_mod_converse(
        z,
        edge,
        cz,
        share_of(b, edge),
    );
}

/// The candidate of a grid cell stands in that cell: its column is one of the cell's own,
/// so cells of one source never share a column.
pub proof fn candidates_stand_in_their_cells(
    world_seed: u64,
    source: FeatureSource,
    index: usize,
    cx: int,
    cz: int,
)
    requires
        candidate_of(world_seed, source, index, cx, cz) is Some,
        -0x8000_0000 <= cx * source.edge(),
        cx * source.edge() + 2 * source.edge() <= 0x7fff_ffff,
        -0x8000_0000 <= cz * source.edge(),
        cz * source.edge() + 2 * source.edge() <= 0x7fff_ffff,
    ensures
        ({
            let c = candidate_of(world_seed, source, index, cx, cz)->0;
            let edge = if source.cell_size > 1 {
                source.cell_size as int
            } else {
                1
            };
            &&& cx * edge <= c.x < cx * edge + edge
            &&& cz * edge <= c.z < cz * edge + edge
        }),
{
    let edge = source.edge();
    crate::fraction::lemma_digits_bound(edge);
    assert(in_single_digits(edge) <= 2 * edge) by {
        if crate::fraction::excess(edge) == 0 {
        } else {
            assert(crate::scalar::two_to(crate::fraction::excess(edge)) * 0x80_0000 <= edge);
        }
    }
    lemma_cell_column(world_seed, source, index, cx, cz);
    let c = candidate_of(world_seed, source, index, cx, cz)->0;
    vstd::arithmetic::div_mod::lemma_fundamental_div_mod(c.x as int, edge);
    vstd::arithmetic::div_mod::lemma_mod_bound(c.x as int, edge);
    vstd::arithmetic::div_mod::lemma_fundamental_div_mod(c.z as int, edge);
    vstd::arithmetic::div_mod::lemma_mod_bound(c.z as int, edge);
    assert(edge * cx == cx * edge) by (nonlinear_arith);
    assert(edge * cz == cz * edge) by (nonlinear_arith);
}

proof fn lemma_of_row(
    world_seed: u64,
    source: FeatureSource,
    index: usize,
    cz: int,
    lo: int,
    end: int,
    n: int,
) -> (cx: int)
    requires
        0 <= n < row_candidates(world_seed, source, index, cz, lo, end).len(),
    ensures
        lo <= cx < end,
        candidate_of(world_seed, source, index, cx, cz) == Some(
            row_candidates(world_seed, source, index, cz, lo, end)[n],
        ),
    decreases end - lo,
{
    let rest = row_candidates(world_seed, source, index, cz, lo, end - 1);
    if n < rest.len() {
        lemma_of_row(world_seed, source, index, cz, lo, end - 1, n)
    } else {
        end - 1
    }
}

proof fn lemma_of_block(
    world_seed: u64,
    source: FeatureSource,
    index: usize,
    lo_x: int,
    end_x: int,
    lo_z: int,
    end_z: int,
    n: int,
) -> (cell: (int, int))
    requires
        0 <= n < block_candidates(world_seed, source, index, lo_x, end_x, lo_z, end_z).len(),
    ensures
        lo_x <= cell.0 < end_x,
        lo_z <= cell.1 < end_z,
        candidate_of(world_seed, source, index, cell.0, cell.1) == Some(
            block_candidates(world_seed, source, index, lo_x, end_x, lo_z, end_z)[n],
        ),
    decreases end_z - lo_z,
{
    let rest = block_candidates(world_seed, source, index, lo_x, end_x, lo_z, end_z - 1);
    if n < rest.len() {
        lemma_of_block(world_seed, source, index, lo_x, end_x, lo_z, end_z - 1, n)
    } else {
        let k = n - rest.len();
        (lemma_of_row(world_seed, source, index, end_z - 1, lo_x, end_x, k), end_z - 1)
    }
}

/// Whether no two candidates are of one source on one column.
spec fn candidates_apart(s: Seq<Candidate>) -> bool {
    forall|i: int, j: int|
        0 <= i < j < s.len() ==> {
            ||| (#[trigger] s[i]).source != (#[trigger] s[j]).source
            ||| s[i].x != s[j].x
            ||| s[i].z != s[j].z
        }
}

proof fn lemma_row_apart(
    world_seed: u64,
    source: FeatureSource,
    index: usize,
    cz: int,
    lo: int,
    end: int,
)
    requires
        cell_fits(source, cz),
        forall|c: int| lo <= c < end ==> #[trigger] cell_fits(source, c),
    ensures
        candidates_apart(row_candidates(world_seed, source, index, cz, lo, end)),
    decreases end - lo,
{
    if end > lo {
        lemma_row_apart(world_seed, source, index, cz, lo, end - 1);
        let row = row_candidates(world_seed, source, index, cz, lo, end);
        let rest = row_candidates(world_seed, source, index, cz, lo, end - 1);
        assert forall|i: int, j: int| 0 <= i < j < row.len() implies {
            ||| (#[trigger] row[i]).source != (#[trigger] row[j]).source
            ||| row[i].x != row[j].x
            ||| row[i].z != row[j].z
        } by {
            if j < rest.len() {
                assert(row[i] == rest[i] && row[j] == rest[j]);
            } else {
                let cx = lemma_of_row(world_seed, source, index, cz, lo, end - 1, i);
                assert(cell_fits(source, cx) && cell_fits(source, end - 1));
                lemma_cell_column(world_seed, source, index, cx, cz);
                lemma_cell_column(world_seed, source, index, end - 1, cz);
                assert(row[i] == rest[i]);
            }
        }
    }
}

proof fn lemma_block_apart(
    world_seed: u64,
    source: FeatureSource,
    index: usize,
    lo_x: int,
    end_x: int,
    lo_z: int,
    end_z: int,
)
    requires
        forall|c: int| lo_x <= c < end_x ==> #[trigger] cell_fits(source, c),
        forall|c: int| lo_z <= c < end_z ==> #[trigger] cell_fits(source, c),
    ensures
        candidates_apart(
            block_candidates(world_seed, source, index, lo_x, end_x, lo_z, end_z),
        ),
    decreases end_z - lo_z,
{
    if end_z > lo_z {
        let cz = end_z - 1;
        assert(cell_fits(source, cz));
        lemma_block_apart(world_seed, source, index, lo_x, end_x, lo_z, cz);
        lemma_row_apart(world_seed, source, index, cz, lo_x, end_x);
        let rest = block_candidates(world_seed, source, index, lo_x, end_x, lo_z, cz);
        let row = row_candidates(world_seed, source, index, cz, lo_x, end_x);
        let all = rest + row;
        assert forall|i: int, j: int| 0 <= i < j < all.len() implies {
            ||| (#[trigger] all[i]).source != (#[trigger] all[j]).source
            ||| all[i].x != all[j].x
            ||| all[i].z != all[j].z
        } by {
            if j < rest.len() {
                assert(all[i] == rest[i] && all[j] == rest[j]);
            } else if i >= rest.len() {
                assert(all[i] == row[i - rest.len()] && all[j] == row[j - rest.len()]);
            } else {
                let k = j - rest.len();
                let (ax, az) = lemma_of_block(
                    world_seed,
                    source,
                    index,
                    lo_x,
                    end_x,
                    lo_z,
                    cz,
                    i,
                );
                let bx = lemma_of_row(world_seed, source, index, cz, lo_x, end_x, k);
                assert(cell_fits(source, ax) && cell_fits(source, az) && cell_fits(source, bx));
                lemma_cell_column(world_seed, source, index, ax, az);
                lemma_cell_column(world_seed, source, index, bx, cz);
                assert(all[i] == rest[i] && all[j] == row[k]);
            }
        }
        assert(all == block_candidates(world_seed, source, index, lo_x, end_x, lo_z, end_z));
    }
}

/// Whether a candidate is what a cell around a chunk yields.
spec fn is_of_cell(
    ctx: EvalContext,
    sources: Seq<FeatureSource>,
    c: Candidate,
    cx: int,
    cz: int,
) -> bool {
    let i = c.source as int;
    &&& 0 <= i < sources.len()
    &&& cell_fits(sources[i], cx)
    &&& cell_fits(sources[i], cz)
    &&& candidate_of(ctx.world_seed, sources[i], c.source, cx, cz) == Some(c)
}

#[verifier::spinoff_prover]
proof fn lemma_of_sources(ctx: EvalContext, sources: Seq<FeatureSource>, n: int) -> (cell: (
    int,
    int,
))
    requires
        sources.len() <= usize::MAX,
        bands_fit(ctx, sources),
        0 <= n < candidates_around(ctx, sources).len(),
    ensures
        is_of_cell(ctx, sources, candidates_around(ctx, sources)[n], cell.0, cell.1),
    decreases sources.len(),
{
    let short = sources.drop_last();
    let rest = candidates_around(ctx, short);
    let last = sources.last();
    let index = (sources.len() - 1) as usize;
    if n < rest.len() {
        assert forall|i: int| 0 <= i < short.len() implies axis_fits(
            #[trigger] short[i],
            ctx.chunk.x as int,
        ) && axis_fits(short[i], ctx.chunk.z as int) by {
            assert(short[i] == sources[i]);
        }
        let cell = lemma_of_sources(ctx, short, n);
        assert(candidates_around(ctx, sources)[n] == rest[n]);
        cell
    } else {
        let (x, z) = (ctx.chunk.x as int, ctx.chunk.z as int);
        let (cx, cz) = lemma_of_block(
            ctx.world_seed,
            last,
            index,
            first_cell(last, x),
            last_cell(last, x) + 1,
            first_cell(last, z),
            last_cell(last, z) + 1,
            n - rest.len(),
        );
        assert(sources[sources.len() - 1] == last);
        lemma_band_fits(last, x, cx);
        lemma_band_fits(last, z, cz);
        assert(candidates_around(ctx, sources)[n] == source_candidates(ctx, last, index)[n
            - rest.len()]);
        lemma_cell_column(ctx.world_seed, last, index, cx, cz);
        (cx, cz)
    }
}

#[verifier::spinoff_prover]
proof fn lemma_candidates_apart(ctx: EvalContext, sources: Seq<FeatureSource>)
    requires
        sources.len() <= usize::MAX,
        bands_fit(ctx, sources),
    ensures
        candidates_apart(candidates_around(ctx, sources)),
    decreases sources.len(),
{
    if sources.len() > 0 {
        let short = sources.drop_last();
        let last = sources.last();
        let index = (sources.len() - 1) as usize;
        let (x, z) = (ctx.chunk.x as int, ctx.chunk.z as int);
        assert(sources[sources.len() - 1] == last);
        assert forall|i: int| 0 <= i < short.len() implies axis_fits(
            #[trigger] short[i],
            x,
        ) && axis_fits(short[i], z) by {
            assert(short[i] == sources[i]);
        }
        lemma_candidates_apart(ctx, short);
        assert forall|c: int| first_cell(last, x) <= c < last_cell(last, x) + 1 implies
            #[trigger] cell_fits(last, c) by {
            lemma_band_fits(last, x, c);
        }
        assert forall|c: int| first_cell(last, z) <= c < last_cell(last, z) + 1 implies
            #[trigger] cell_fits(last, c) by {
            lemma_band_fits(last, z, c);
        }
        lemma_block_apart(
            ctx.world_seed,
            last,
            index,
            first_cell(last, x),
            last_cell(last, x) + 1,
            first_cell(last, z),
            last_cell(last, z) + 1,
        );
        let rest = candidates_around(ctx, short);
        let own = source_candidates(ctx, last, index);
        let all = rest + own;
        assert forall|i: int, j: int| 0 <= i < j < all.len() implies {
            ||| (#[trigger] all[i]).source != (#[trigger] all[j]).source
            ||| all[i].x != all[j].x
            ||| all[i].z != all[j].z
        } by {
            if j < rest.len() {
                assert(all[i] == rest[i] && all[j] == rest[j]);
            } else if i >= rest.len() {
                assert(all[i] == own[i - rest.len()] && all[j] == own[j - rest.len()]);
            } else {
                let _ = lemma_of_sources(ctx, short, i);
                assert(all[i] == rest[i]);
                assert(all == candidates_around(ctx, sources));
                let _ = lemma_of_block(
                    ctx.world_seed,
                    last,
                    index,
                    first_cell(last, x),
                    last_cell(last, x) + 1,
                    first_cell(last, z),
                    last_cell(last, z) + 1,
                    j - rest.len(),
                );
                assert(all[j] == own[j - rest.len()]);
                assert(all[j].source == index);
            }
        }
        assert(all == candidates_around(ctx, sources));
    }
}

/// Whether two features are not of one source on one column.
spec fn elsewhere(f: Feature, g: Feature) -> bool {
    f.source != g.source || f.anchor.x != g.anchor.x || f.anchor.z != g.anchor.z
}

spec fn features_apart(s: Seq<Feature>) -> bool {
    forall|i: int, j: int| 0 <= i < j < s.len() ==> elsewhere(#[trigger] s[i], #[trigger] s[j])
}

pub(crate) proof fn lemma_of_settled(
    sources: Seq<FeatureSource>,
    candidates: Seq<Candidate>,
    columns: Seq<Option<ColumnProbe>>,
    k: int,
) -> (n: int)
    requires
        0 <= k < settled(sources, candidates, columns).len(),
    ensures
        0 <= n < candidates.len(),
        feature_of(sources, candidates[n], columns[n]) == Some(
            settled(sources, candidates, columns)[k],
        ),
    decreases candidates.len(),
{
    let short = candidates.drop_last();
    let rest = settled(sources, short, columns);
    if k < rest.len() {
        let n = lemma_of_settled(sources, short, columns, k);
        assert(short[n] == candidates[n]);
        n
    } else {
        candidates.len() - 1
    }
}

proof fn lemma_settled_apart(
    sources: Seq<FeatureSource>,
    candidates: Seq<Candidate>,
    columns: Seq<Option<ColumnProbe>>,
)
    requires
        candidates_apart(candidates),
    ensures
        features_apart(settled(sources, candidates, columns)),
    decreases candidates.len(),
{
    if candidates.len() > 0 {
        let short = candidates.drop_last();
        assert(candidates_apart(short)) by {
            assert forall|i: int, j: int| 0 <= i < j < short.len() implies {
                ||| (#[trigger] short[i]).source != (#[trigger] short[j]).source
                ||| short[i].x != short[j].x
                ||| short[i].z != short[j].z
            } by {
                assert(short[i] == candidates[i] && short[j] == candidates[j]);
            }
        }
        lemma_settled_apart(sources, short, columns);
        let rest = settled(sources, short, columns);
        let all = settled(sources, candidates, columns);
        assert forall|i: int, j: int| 0 <= i < j < all.len() implies elsewhere(
            #[trigger] all[i],
            #[trigger] all[j],
        ) by {
            assert(all[i] == rest[i]);
            if j < rest.len() {
                assert(all[j] == rest[j]);
            } else {
                let n = lemma_of_settled(sources, short, columns, i);
                assert(short[n] == candidates[n]);
                assert(candidates[candidates.len() - 1] == candidates.last());
            }
        }
    }
}

proof fn lemma_inserted_apart(s: Seq<Feature>, f: Feature)
    requires
        features_apart(s),
        forall|i: int| 0 <= i < s.len() ==> elsewhere(#[trigger] s[i], f),
    ensures
        features_apart(inserted(s, f)),
    decreases s.len(),
{
    broadcast use vstd::seq_lib::group_to_multiset_ensures;
    broadcast use vstd::multiset::group_multiset_axioms;

    if s.len() > 0 && applies_before(f, s.last()) {
        let short = s.drop_last();
        assert forall|i: int| 0 <= i < short.len() implies elsewhere(#[trigger] short[i], f)
            && elsewhere(short[i], s.last()) by {
            assert(short[i] == s[i]);
            assert(s[s.len() - 1] == s.last());
        }
        assert(features_apart(short)) by {
            assert forall|i: int, j: int| 0 <= i < j < short.len() implies elsewhere(
                #[trigger] short[i],
                #[trigger] short[j],
            ) by {
                assert(short[i] == s[i] && short[j] == s[j]);
            }
        }
        lemma_inserted_apart(short, f);
        lemma_inserted(short, f);
        let r = inserted(short, f);
        let all = r.push(s.last());
        assert forall|i: int, j: int| 0 <= i < j < all.len() implies elsewhere(
            #[trigger] all[i],
            #[trigger] all[j],
        ) by {
            assert(all[i] == r[i]);
            if j < r.len() {
                assert(all[j] == r[j]);
            } else {
                assert(r.contains(r[i]));
                assert(r.to_multiset().count(r[i]) > 0);
                if r[i] != f {
                    assert(short.to_multiset().count(r[i]) > 0);
                    assert(short.contains(r[i]));
                    let n = choose|n: int| 0 <= n < short.len() && short[n] == r[i];
                    assert(elsewhere(short[n], s.last()));
                } else {
                    assert(elsewhere(s[s.len() - 1], f));
                }
            }
        }
    } else {
        let all = s.push(f);
        assert forall|i: int, j: int| 0 <= i < j < all.len() implies elsewhere(
            #[trigger] all[i],
            #[trigger] all[j],
        ) by {
            assert(all[i] == s[i]);
            if j < s.len() {
                assert(all[j] == s[j]);
            }
        }
    }
}

proof fn lemma_order_apart(s: Seq<Feature>)
    requires
        features_apart(s),
    ensures
        features_apart(in_order(s)),
    decreases s.len(),
{
    if s.len() > 0 {
        let short = s.drop_last();
        let f = s.last();
        assert(features_apart(short)) by {
            assert forall|i: int, j: int| 0 <= i < j < short.len() implies elsewhere(
                #[trigger] short[i],
                #[trigger] short[j],
            ) by {
                assert(short[i] == s[i] && short[j] == s[j]);
            }
        }
        lemma_order_apart(short);
        let r = in_order(short);
        assert forall|i: int| 0 <= i < r.len() implies elsewhere(#[trigger] r[i], f) by {
            assert(r.contains(r[i]));
            lemma_order_keeps_members(short, r[i]);
            let n = choose|n: int| 0 <= n < short.len() && short[n] == r[i];
            assert(s[n] == short[n] && s[s.len() - 1] == f);
        }
        lemma_inserted_apart(r, f);
    }
}

/// Whether each feature applies strictly before those behind it.
pub open spec fn strictly_ordered(s: Seq<Feature>) -> bool {
    forall|i: int, j: int| 0 <= i < j < s.len() ==> applies_before(#[trigger] s[i], #[trigger] s[j])
}

/// The features around a chunk have different keys and stand in the order of them:
/// the order in which they apply leaves nothing open.
pub proof fn features_around_have_one_order(
    ctx: EvalContext,
    sources: Seq<FeatureSource>,
    probe: spec_fn(int, int) -> Option<ColumnProbe>,
)
    requires
        sources.len() <= usize::MAX,
        bands_fit(ctx, sources),
    ensures
        strictly_ordered(features_around(ctx, sources, probe)),
{
    let candidates = candidates_around(ctx, sources);
    let columns = Seq::new(
        candidates.len(),
        |i: int| probe(candidates[i].x as int, candidates[i].z as int),
    );
    let loose = settled(sources, candidates, columns);
    lemma_candidates_apart(ctx, sources);
    lemma_settled_apart(sources, candidates, columns);
    lemma_order_apart(loose);
    features_apply_in_key_order(loose);
    let r = in_order(loose);
    assert(r == features_around(ctx, sources, probe));
    assert forall|i: int, j: int| 0 <= i < j < r.len() implies applies_before(
        #[trigger] r[i],
        #[trigger] r[j],
    ) by {
        assert(elsewhere(r[i], r[j]));
        assert(!applies_before(r[j], r[i]));
    }
}

/// A feature that one chunk derives is derived by every chunk it can touch, the same
/// in each: neighboring chunks agree without reading each other.
pub proof fn chunks_derive_the_same_features(
    a: EvalContext,
    b: EvalContext,
    sources: Seq<FeatureSource>,
    probe: spec_fn(int, int) -> Option<ColumnProbe>,
    f: Feature,
)
    requires
        a.world_seed == b.world_seed,
        sources.len() <= usize::MAX,
        bands_fit(a, sources),
        features_around(a, sources, probe).contains(f),
        in_reach(sources[f.source as int], b.chunk.x as int, f.anchor.x as int),
        in_reach(sources[f.source as int], b.chunk.z as int, f.anchor.z as int),
    ensures
        features_around(b, sources, probe).contains(f),
{
    let candidates = candidates_around(a, sources);
    let columns = Seq::new(
        candidates.len(),
        |i: int| probe(candidates[i].x as int, candidates[i].z as int),
    );
    let loose = settled(sources, candidates, columns);
    lemma_order_keeps_members(loose, f);
    let k = choose|k: int| 0 <= k < loose.len() && loose[k] == f;
    let n = lemma_of_settled(sources, candidates, columns, k);
    let (cx, cz) = lemma_of_sources(a, sources, n);
    let c = candidates[n];
    let i = c.source as int;
    lemma_cell_column(a.world_seed, sources[i], c.source, cx, cz);
    assert(columns[n] == probe(c.x as int, c.z as int));
    assert(cell_feature(a.world_seed, sources, i, cx, cz, probe) == Some(f));
    chunks_in_reach_share_the_feature(b, sources, i, cx, cz, probe);
}

/// Two features that two chunks both derive stand in the same order in both, so an
/// overlap is resolved alike on either side of a border.
pub proof fn shared_features_keep_their_order(
    a: EvalContext,
    b: EvalContext,
    sources: Seq<FeatureSource>,
    probe: spec_fn(int, int) -> Option<ColumnProbe>,
    i: int,
    j: int,
    k: int,
    l: int,
)
    requires
        sources.len() <= usize::MAX,
        bands_fit(a, sources),
        0 <= i < j < features_around(a, sources, probe).len(),
        0 <= k < features_around(b, sources, probe).len(),
        0 <= l < features_around(b, sources, probe).len(),
        features_around(a, sources, probe)[i] == features_around(b, sources, probe)[k],
        features_around(a, sources, probe)[j] == features_around(b, sources, probe)[l],
    ensures
        k < l,
{
    features_around_have_one_order(a, sources, probe);
    let other = features_around(b, sources, probe);
    let candidates = candidates_around(b, sources);
    let columns = Seq::new(
        candidates.len(),
        |n: int| probe(candidates[n].x as int, candidates[n].z as int),
    );
    features_apply_in_key_order(settled(sources, candidates, columns));
    assert(ordered(other));
    assert(applies_before(other[k], other[l]));
    if l < k {
        assert(!applies_before(other[k], other[l]));
    }
}

} // verus!
