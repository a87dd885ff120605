//! Features: occurrences of a template or a tree on a coarse world grid.
//!
//! What a grid cell yields is a function of the world seed and the cell, so every
//! chunk that can see the cell derives the same occurrence. The height of an
//! anchor comes from a query about one world column, never from another chunk.
use crate::context::{cell_seed_of, EvalContext};
use crate::fraction::{
    fraction_single, in_single_digits, share, share_of, single_of_fraction,
};
use crate::params::TreeSpecies;
use crate::scalar::Single;
use crate::scatter::{draw, fraction_of, stream_state, SplitMix64};
use crate::voxel::{larger, reach_of, IVec3, MaterialId, ResolvedBlueprint, Yaw};
use vstd::prelude::*;

verus! {

/// What a source asks about one world column.
#[derive(Clone, Copy, PartialEq, Eq, Structural, Debug)]
pub struct ColumnProbe {
    /// The zone that owns the column.
    pub zone_id: u16,
    /// The biome of the column within its zone.
    pub biome_id: u16,
    /// World height of the topmost solid voxel.
    pub surface_y: i32,
}

/// Foliage that an occurrence anchors beside the voxels it stamps.
#[derive(Clone, Copy, PartialEq, Eq, Structural, Debug)]
pub struct FeatureCanopy {
    /// Scatter type of the instance.
    pub type_id: u16,
    /// Prefab of the instance.
    pub prefab_id: u32,
    /// Voxels above the anchor.
    pub y_offset: i32,
}

/// A tree species placed as a feature.
#[derive(Debug)]
pub struct TreeSource {
    /// Name of the source.
    pub name: String,
    /// Shape parameters, with the bound on how far a crown reaches.
    pub species: TreeSpecies,
    /// Material of the wood.
    pub wood: MaterialId,
    /// Maturity, from zero to one.
    pub age: Single,
}

/// What a source places at each occurrence.
#[derive(Debug)]
pub enum FeaturePayload {
    /// An authored template.
    Blueprint(ResolvedBlueprint),
    /// A tree, grown anew in every chunk that can see it.
    Tree(TreeSource),
}

impl FeaturePayload {
    /// Name of what is placed.
    pub open spec fn name_text(&self) -> Seq<char> {
        match self {
            FeaturePayload::Blueprint(bp) => bp.name@,
            FeaturePayload::Tree(t) => t.name@,
        }
    }

    /// Name of what is placed.
    pub fn name(&self) -> (r: &str)
        ensures
            r@ == self.name_text(),
    {
        match self {
            FeaturePayload::Blueprint(bp) => bp.name.as_str(),
            FeaturePayload::Tree(t) => t.name.as_str(),
        }
    }
}

/// A rule that produces features on a world grid.
#[derive(Debug)]
pub struct FeatureSource {
    /// Edge of a grid cell, in voxels. A cell has one candidate.
    pub cell_size: i32,
    /// Chance that a cell produces a feature, from zero to one.
    pub density: Single,
    /// Seed of the source.
    pub seed: u32,
    /// Zones the source appears in. Empty means all of them.
    pub zones: Vec<u16>,
    /// Biomes the source appears in. Empty means all of them.
    pub biomes: Vec<u16>,
    /// Whether each occurrence takes a random quarter turn.
    pub random_yaw: bool,
    /// How far above the surface the anchor lands.
    pub surface_offset: i32,
    /// What each occurrence places.
    pub payload: FeaturePayload,
    /// Foliage that each occurrence anchors.
    pub canopy: Option<FeatureCanopy>,
}

impl FeatureSource {
    /// Edge of a grid cell, at least one voxel.
    pub open spec fn edge(&self) -> int {
        larger(self.cell_size as int, 1)
    }

    /// How far an occurrence can reach horizontally from its anchor: the extent of
    /// a template, the declared bound of a species.
    pub open spec fn reach_bound(&self) -> int {
        match self.payload {
            FeaturePayload::Blueprint(bp) => reach_of(bp.anchor, bp.cells@),
            FeaturePayload::Tree(t) => t.species.max_crown_reach.ceiling(),
        }
    }

    /// How far an occurrence can reach horizontally from its anchor.
    pub fn reach(&self) -> (r: i64)
        ensures
            r == self.reach_bound(),
            -0x8000_0000 <= r <= 0xffff_ffff,
    {
        match &self.payload {
            FeaturePayload::Blueprint(bp) => bp.horizontal_reach(),
            FeaturePayload::Tree(t) => t.species.max_crown_reach.ceil() as i64,
        }
    }

    /// Whether the source appears in a column.
    pub open spec fn admits(&self, column: ColumnProbe) -> bool {
        &&& self.zones@.len() == 0 || self.zones@.contains(column.zone_id)
        &&& self.biomes@.len() == 0 || self.biomes@.contains(column.biome_id)
    }
}

/// One derived occurrence.
#[derive(Clone, Copy, PartialEq, Eq, Structural, Debug)]
pub struct Feature {
    /// World voxel that the anchor lands on.
    pub anchor: IVec3,
    /// Turn of the occurrence.
    pub yaw: Yaw,
    /// Ordering key, the same in every chunk.
    pub priority: u64,
    /// Number of the source.
    pub source: usize,
}

/// An occurrence whose column has not been asked about.
#[derive(Clone, Copy, PartialEq, Eq, Structural, Debug)]
pub struct Candidate {
    /// World X of the anchor column.
    pub x: i32,
    /// World Z of the anchor column.
    pub z: i32,
    /// Turn of the occurrence.
    pub yaw: Yaw,
    /// Ordering key.
    pub priority: u64,
    /// Number of the source.
    pub source: usize,
}

/// The turn of a number of quarters.
pub open spec fn yaw_of(steps: int) -> Yaw {
    if steps % 4 == 0 {
        Yaw::Deg0
    } else if steps % 4 == 1 {
        Yaw::Deg90
    } else if steps % 4 == 2 {
        Yaw::Deg180
    } else {
        Yaw::Deg270
    }
}

/// What a grid cell yields: nothing if its roll is not below the density, else an
/// anchor column within the cell, a turn and a priority. The draws come in this
/// order, and the turn takes one only where the source turns its occurrences.
pub open spec fn candidate_of(
    world_seed: u64,
    source: FeatureSource,
    index: usize,
    cx: int,
    cz: int,
) -> Option<Candidate> {
    let seed = cell_seed_of(world_seed, source.seed, cx as i64, cz as i64);
    if fraction_single(fraction_of(draw(seed, 0)) as int).at_least(source.density) {
        None
    } else {
        Some(
            Candidate {
                x: (cx * source.edge() + share_of(
                    fraction_of(draw(seed, 1)) as int,
                    source.edge(),
                )) as i32,
                z: (cz * source.edge() + share_of(
                    fraction_of(draw(seed, 2)) as int,
                    source.edge(),
                )) as i32,
                yaw: if source.random_yaw {
                    yaw_of(draw(seed, 3) as int)
                } else {
                    Yaw::Deg0
                },
                priority: if source.random_yaw {
                    draw(seed, 4)
                } else {
                    draw(seed, 3)
                },
                source: index,
            },
        )
    }
}

/// A sequence with a value behind it, if there is one.
pub open spec fn with_option<A>(s: Seq<A>, v: Option<A>) -> Seq<A> {
    match v {
        Some(a) => s.push(a),
        None => s,
    }
}

/// What the cells `lo .. end` of one row yield, in order.
pub open spec fn row_candidates(
    world_seed: u64,
    source: FeatureSource,
    index: usize,
    cz: int,
    lo: int,
    end: int,
) -> Seq<Candidate>
    decreases end - lo,
{
    if end <= lo {
        Seq::empty()
    } else {
        with_option(
            row_candidates(world_seed, source, index, cz, lo, end - 1),
            candidate_of(world_seed, source, index, end - 1, cz),
        )
    }
}

/// What the rows `lo_z .. end_z` yield, in order.
pub open spec fn block_candidates(
    world_seed: u64,
    source: FeatureSource,
    index: usize,
    lo_x: int,
    end_x: int,
    lo_z: int,
    end_z: int,
) -> Seq<Candidate>
    decreases end_z - lo_z,
{
    if end_z <= lo_z {
        Seq::empty()
    } else {
        block_candidates(world_seed, source, index, lo_x, end_x, lo_z, end_z - 1)
            + row_candidates(world_seed, source, index, end_z - 1, lo_x, end_x)
    }
}

/// The first grid cell along an axis whose occurrence can touch a chunk.
pub open spec fn first_cell(source: FeatureSource, chunk: int) -> int {
    (32 * chunk - source.reach_bound()) / source.edge()
}

/// The last grid cell along an axis whose occurrence can touch a chunk.
pub open spec fn last_cell(source: FeatureSource, chunk: int) -> int {
    (32 * chunk + 32 + source.reach_bound()) / source.edge()
}

/// What the cells around a chunk yield for one source.
pub open spec fn source_candidates(ctx: EvalContext, source: FeatureSource, index: usize) -> Seq<
    Candidate,
> {
    block_candidates(
        ctx.world_seed,
        source,
        index,
        first_cell(source, ctx.chunk.x as int),
        last_cell(source, ctx.chunk.x as int) + 1,
        first_cell(source, ctx.chunk.z as int),
        last_cell(source, ctx.chunk.z as int) + 1,
    )
}

/// What the cells around a chunk yield for every source, in order.
pub open spec fn candidates_around(ctx: EvalContext, sources: Seq<FeatureSource>) -> Seq<Candidate>
    decreases sources.len(),
{
    if sources.len() == 0 {
        Seq::empty()
    } else {
        candidates_around(ctx, sources.drop_last()) + source_candidates(
            ctx,
            sources.last(),
            (sources.len() - 1) as usize,
        )
    }
}

/// Whether the band of a source along an axis has world coordinates.
pub open spec fn axis_fits(source: FeatureSource, chunk: int) -> bool {
    &&& first_cell(source, chunk) * source.edge() >= -0x8000_0000
    &&& last_cell(source, chunk) * source.edge() + in_single_digits(source.edge()) <= 0x7fff_ffff
}

/// Whether the bands of all sources around a chunk have world coordinates.
pub open spec fn bands_fit(ctx: EvalContext, sources: Seq<FeatureSource>) -> bool {
    forall|i: int|
        0 <= i < sources.len() ==> axis_fits(#[trigger] sources[i], ctx.chunk.x as int) && axis_fits(
            sources[i],
            ctx.chunk.z as int,
        )
}

/// The quotient rounded down.
fn floor_div(a: i64, b: i64) -> (r: i64)
    requires
        -0x100_0000_0000 <= a <= 0x100_0000_0000,
        1 <= b <= 0x8000_0000,
    ensures
        r == a as int / b as int,
        -0x100_0000_0000 <= r <= 0x100_0000_0000,
{
    proof {
        assert(-0x100_0000_0000 <= a as int / b as int <= 0x100_0000_0000) by (nonlinear_arith)
            requires
                -0x100_0000_0000 <= a <= 0x100_0000_0000,
                b >= 1,
        ;
    }
    if a >= 0 {
        a / b
    } else {
        let up: i64 = -a + (b - 1);
        proof {
            let q = up as int / b as int;
            vstd::arithmetic::div_mod::lemma_fundamental_div_mod(up as int, b as int);
            vstd::arithmetic::div_mod::lemma_mod_bound(up as int, b as int);
            assert(b * -q == -(b * q)) by (nonlinear_arith);
            assert(-q * b == b * -q) by (nonlinear_arith);
            vstd::arithmetic::div_mod::lemma_fundamental_div_mod_converse(
                a as int,
                b as int,
                -q,
                b * q + a,
            );
        }
        -(up / b)
    }
}

fn derive_candidate(
    ctx: EvalContext,
    source: &FeatureSource,
    index: usize,
    cx: i64,
    cz: i64,
) -> (r: Option<Candidate>)
    requires
        cx * source.edge() >= -0x8000_0000,
        cx * source.edge() + in_single_digits(source.edge()) <= 0x7fff_ffff,
        cz * source.edge() >= -0x8000_0000,
        cz * source.edge() + in_single_digits(source.edge()) <= 0x7fff_ffff,
    ensures
        r == candidate_of(ctx.world_seed, *source, index, cx as int, cz as int),
{
    let edge: i32 = if source.cell_size >= 1 {
        source.cell_size
    } else {
        1
    };
    let seed: u64 = ctx.world_cell_seed(source.seed, cx, cz);
    let mut stream = SplitMix64::new(seed);
    assert(stream.state == stream_state(seed, 0));
    let roll: u32 = stream.next_fraction();
    assert(stream.state == stream_state(seed, 1));
    if single_of_fraction(roll).ge(source.density) {
        return None;
    }
    let along: u32 = stream.next_fraction();
    assert(stream.state == stream_state(seed, 2));
    let across: u32 = stream.next_fraction();
    assert(stream.state == stream_state(seed, 3));
    let dx: i64 = share(along, edge);
    let dz: i64 = share(across, edge);
    let x: i64 = cx * edge as i64 + dx;
    let z: i64 = cz * edge as i64 + dz;
    let yaw = if source.random_yaw {
        let turn: u64 = stream.next_u64();
        assert(stream.state == stream_state(seed, 4));
        Yaw::from_steps((turn % 4) as i32)
    } else {
        Yaw::Deg0
    };
    let priority: u64 = stream.next_u64();
    Some(Candidate { x: x as i32, z: z as i32, yaw, priority, source: index })
}

proof fn lemma_cell_in_band(c: int, lo: int, hi: int, edge: int)
    requires
        lo <= c <= hi,
        edge >= 1,
    ensures
        lo * edge <= c * edge <= hi * edge,
{
    assert(lo * edge <= c * edge) by (nonlinear_arith)
        requires
            lo <= c,
            edge >= 1,
    ;
    assert(c * edge <= hi * edge) by (nonlinear_arith)
        requires
            c <= hi,
            edge >= 1,
    ;
}

fn push_source_candidates(
    ctx: EvalContext,
    source: &FeatureSource,
    index: usize,
    out: &mut Vec<Candidate>,
)
    requires
        axis_fits(*source, ctx.chunk.x as int),
        axis_fits(*source, ctx.chunk.z as int),
    ensures
        final(out)@ == old(out)@ + source_candidates(ctx, *source, index),
{
    let ghost before = out@;
    let edge: i64 = if source.cell_size >= 1 {
        source.cell_size as i64
    } else {
        1
    };
    let reach: i64 = source.reach();
    let base_x: i64 = 32 * ctx.chunk.x as i64;
    let base_z: i64 = 32 * ctx.chunk.z as i64;
    let lo_x: i64 = floor_div(base_x - reach, edge);
    let hi_x: i64 = floor_div(base_x + 32 + reach, edge);
    let lo_z: i64 = floor_div(base_z - reach, edge);
    let hi_z: i64 = floor_div(base_z + 32 + reach, edge);
    let mut cz: i64 = lo_z;
    while cz <= hi_z
        invariant
            edge == source.edge(),
            edge >= 1,
            lo_x == first_cell(*source, ctx.chunk.x as int),
            hi_x == last_cell(*source, ctx.chunk.x as int),
            lo_z == first_cell(*source, ctx.chunk.z as int),
            hi_z == last_cell(*source, ctx.chunk.z as int),
            axis_fits(*source, ctx.chunk.x as int),
            axis_fits(*source, ctx.chunk.z as int),
            -0x100_0000_0000 <= lo_x <= 0x100_0000_0000,
            -0x100_0000_0000 <= hi_x <= 0x100_0000_0000,
            -0x100_0000_0000 <= lo_z <= 0x100_0000_0000,
            -0x100_0000_0000 <= hi_z <= 0x100_0000_0000,
            lo_z <= cz,
            cz <= hi_z + 1 || cz == lo_z,
            out@ == before + block_candidates(
                ctx.world_seed,
                *source,
                index,
                lo_x as int,
                hi_x + 1,
                lo_z as int,
                cz as int,
            ),
        decreases hi_z - cz + 1,
    {
        let ghost so_far = out@;
        let mut cx: i64 = lo_x;
        while cx <= hi_x
            invariant
                edge == source.edge(),
                edge >= 1,
                lo_x == first_cell(*source, ctx.chunk.x as int),
                hi_x == last_cell(*source, ctx.chunk.x as int),
                lo_z == first_cell(*source, ctx.chunk.z as int),
                hi_z == last_cell(*source, ctx.chunk.z as int),
                axis_fits(*source, ctx.chunk.x as int),
                axis_fits(*source, ctx.chunk.z as int),
                -0x100_0000_0000 <= lo_x <= 0x100_0000_0000,
                -0x100_0000_0000 <= hi_x <= 0x100_0000_0000,
                lo_z <= cz <= hi_z,
                lo_x <= cx,
                cx <= hi_x + 1 || cx == lo_x,
                out@ == so_far + row_candidates(
                    ctx.world_seed,
                    *source,
                    index,
                    cz as int,
                    lo_x as int,
                    cx as int,
                ),
            decreases hi_x - cx + 1,
        {
            proof {
                lemma_cell_in_band(cx as int, lo_x as int, hi_x as int, edge as int);
                lemma_cell_in_band(cz as int, lo_z as int, hi_z as int, edge as int);
            }
            if let Some(c) = derive_candidate(ctx, source, index, cx, cz) {
                out.push(c);
            }
            assert(out@ =~= so_far + row_candidates(
                ctx.world_seed,
                *source,
                index,
                cz as int,
                lo_x as int,
                cx + 1,
            ));
            cx = cx + 1;
        }
        proof {
            let row = row_candidates(
                ctx.world_seed,
                *source,
                index,
                cz as int,
                lo_x as int,
                hi_x + 1,
            );
            if hi_x < lo_x {
                assert(row =~= Seq::empty());
            }
            assert(out@ =~= before + block_candidates(
                ctx.world_seed,
                *source,
                index,
                lo_x as int,
                hi_x + 1,
                lo_z as int,
                cz + 1,
            ));
        }
        cz = cz + 1;
    }
    if hi_z < lo_z {
        assert(out@ =~= before + source_candidates(ctx, *source, index));
    }
}

/// What the grid cells around a chunk yield, before any column is asked about.
pub fn feature_candidates(ctx: EvalContext, sources: &[FeatureSource]) -> (r: Vec<Candidate>)
    requires
        bands_fit(ctx, sources@),
    ensures
        r@ == candidates_around(ctx, sources@),
{
    let mut out: Vec<Candidate> = Vec::new();
    let mut k: usize = 0;
    while k < sources.len()
        invariant
            k <= sources@.len(),
            bands_fit(ctx, sources@),
            out@ == candidates_around(ctx, sources@.take(k as int)),
        decreases sources@.len() - k,
    {
        push_source_candidates(ctx, &sources[k], k, &mut out);
        assert(sources@.take(k + 1).drop_last() =~= sources@.take(k as int));
        k = k + 1;
    }
    assert(sources@.take(k as int) =~= sources@);
    out
}

/// The occurrence that a candidate becomes on its column.
pub open spec fn feature_of(
    sources: Seq<FeatureSource>,
    c: Candidate,
    column: Option<ColumnProbe>,
) -> Option<Feature> {
    match column {
        None => None,
        Some(p) => if 0 <= c.source < sources.len() && sources[c.source as int].admits(p) {
            Some(
                Feature {
                    anchor: IVec3 {
                        x: c.x,
                        y: (p.surface_y + sources[c.source as int].surface_offset) as i32,
                        z: c.z,
                    },
                    yaw: c.yaw,
                    priority: c.priority,
                    source: c.source,
                },
            )
        } else {
            None
        },
    }
}

/// The occurrences that candidates become, in order.
pub open spec fn settled(
    sources: Seq<FeatureSource>,
    candidates: Seq<Candidate>,
    columns: Seq<Option<ColumnProbe>>,
) -> Seq<Feature>
    decreases candidates.len(),
{
    if candidates.len() == 0 {
        Seq::empty()
    } else {
        with_option(
            settled(sources, candidates.drop_last(), columns),
            feature_of(sources, candidates.last(), columns[candidates.len() - 1]),
        )
    }
}

/// Whether a feature applies strictly before another: by priority, then by
/// anchor, then by source.
pub open spec fn applies_before(f: Feature, g: Feature) -> bool {
    if f.priority != g.priority {
        f.priority < g.priority
    } else if f.anchor.x != g.anchor.x {
        f.anchor.x < g.anchor.x
    } else if f.anchor.y != g.anchor.y {
        f.anchor.y < g.anchor.y
    } else if f.anchor.z != g.anchor.z {
        f.anchor.z < g.anchor.z
    } else {
        f.source < g.source
    }
}

/// Ordered features with one more, behind all that it does not apply before.
pub open spec fn inserted(s: Seq<Feature>, f: Feature) -> Seq<Feature>
    decreases s.len(),
{
    if s.len() == 0 || !applies_before(f, s.last()) {
        s.push(f)
    } else {
        inserted(s.drop_last(), f).push(s.last())
    }
}

/// Features in the order they apply; equal keys keep their order.
pub open spec fn in_order(s: Seq<Feature>) -> Seq<Feature>
    decreases s.len(),
{
    if s.len() == 0 {
        s
    } else {
        inserted(in_order(s.drop_last()), s.last())
    }
}

fn before(f: &Feature, g: &Feature) -> (r: bool)
    ensures
        r == applies_before(*f, *g),
{
    if f.priority != g.priority {
        f.priority < g.priority
    } else if f.anchor.x != g.anchor.x {
        f.anchor.x < g.anchor.x
    } else if f.anchor.y != g.anchor.y {
        f.anchor.y < g.anchor.y
    } else if f.anchor.z != g.anchor.z {
        f.anchor.z < g.anchor.z
    } else {
        f.source < g.source
    }
}

fn insert_in_order(out: &mut Vec<Feature>, f: Feature)
    ensures
        final(out)@ == inserted(old(out)@, f),
{
    let ghost all = out@;
    let mut k: usize = out.len();
    proof {
        assert(all.take(all.len() as int) =~= all);
        assert(inserted(all, f) + all.skip(all.len() as int) =~= inserted(all, f));
    }
    while k > 0 && before(&f, &out[k - 1])
        invariant
            k <= all.len(),
            out@ == all,
            inserted(all, f) == inserted(all.take(k as int), f) + all.skip(k as int),
        decreases k,
    {
        proof {
            let part = all.take(k as int);
            assert(part.last() == all[k - 1]);
            assert(part.drop_last() =~= all.take(k - 1));
            assert(inserted(part, f) + all.skip(k as int) =~= inserted(all.take(k - 1), f)
                + all.skip(k - 1));
        }
        k = k - 1;
    }
    proof {
        let part = all.take(k as int);
        if k > 0 {
            assert(part.last() == all[k - 1]);
        }
        assert(inserted(part, f) == part.push(f));
        assert(all.insert(k as int, f) =~= part.push(f) + all.skip(k as int));
    }
    out.insert(k, f);
}

fn lists(list: &Vec<u16>, id: u16) -> (r: bool)
    ensures
        r == list@.contains(id),
{
    let mut k: usize = 0;
    while k < list.len()
        invariant
            k <= list@.len(),
            forall|i: int| 0 <= i < k ==> list@[i] != id,
        decreases list@.len() - k,
    {
        if list[k] == id {
            assert(list@[k as int] == id);
            return true;
        }
        k = k + 1;
    }
    false
}

/// Whether the anchor heights that columns give have world coordinates.
pub open spec fn heights_fit(sources: Seq<FeatureSource>, column: Option<ColumnProbe>) -> bool {
    column matches Some(p) ==> forall|i: int|
        0 <= i < sources.len() ==> -0x8000_0000 <= p.surface_y + (
        #[trigger] sources[i]).surface_offset <= 0x7fff_ffff
}

/// Turn candidates into features, in the order they apply, from what is known of
/// their columns.
pub fn settle_features(
    sources: &[FeatureSource],
    candidates: &Vec<Candidate>,
    columns: &Vec<Option<ColumnProbe>>,
) -> (r: Vec<Feature>)
    requires
        columns@.len() == candidates@.len(),
        forall|i: int| 0 <= i < columns@.len() ==> heights_fit(sources@, #[trigger] columns@[i]),
    ensures
        r@ == in_order(settled(sources@, candidates@, columns@)),
{
    let mut out: Vec<Feature> = Vec::new();
    let mut k: usize = 0;
    while k < candidates.len()
        invariant
            k <= candidates@.len(),
            columns@.len() == candidates@.len(),
            forall|i: int|
                0 <= i < columns@.len() ==> heights_fit(sources@, #[trigger] columns@[i]),
            out@ == in_order(settled(sources@, candidates@.take(k as int), columns@)),
        decreases candidates@.len() - k,
    {
        let c = candidates[k];
        let column = columns[k];
        proof {
            assert(heights_fit(sources@, columns@[k as int]));
            assert(candidates@.take(k + 1).drop_last() =~= candidates@.take(k as int));
            let rest = settled(sources@, candidates@.take(k as int), columns@);
            let f = feature_of(sources@, c, column);
            if f is Some {
                assert(rest.push(f.unwrap()).drop_last() =~= rest);
            }
        }
        if let Some(p) = column {
            if c.source < sources.len() {
                let source = &sources[c.source];
                if (source.zones.len() == 0 || lists(&source.zones, p.zone_id)) && (
                source.biomes.len() == 0 || lists(&source.biomes, p.biome_id)) {
                    let y: i32 = p.surface_y + source.surface_offset;
                    insert_in_order(
                        &mut out,
                        Feature {
                            anchor: IVec3 { x: c.x, y, z: c.z },
                            yaw: c.yaw,
                            priority: c.priority,
                            source: c.source,
                        },
                    );
                }
            }
        }
        k = k + 1;
    }
    assert(candidates@.take(k as int) =~= candidates@);
    out
}

/// The features around a chunk, where columns answer as `probe` says.
pub open spec fn features_around(
    ctx: EvalContext,
    sources: Seq<FeatureSource>,
    probe: spec_fn(int, int) -> Option<ColumnProbe>,
) -> Seq<Feature> {
    let candidates = candidates_around(ctx, sources);
    in_order(
        settled(
            sources,
            candidates,
            Seq::new(
                candidates.len(),
                |i: int| probe(candidates[i].x as int, candidates[i].z as int),
            ),
        ),
    )
}

/// Whether a function answers every column as `says` does.
pub open spec fn answers_as<P: Fn(i32, i32) -> Option<ColumnProbe>>(
    probe: P,
    says: spec_fn(int, int) -> Option<ColumnProbe>,
) -> bool {
    forall|x: i32, z: i32, p: Option<ColumnProbe>| #[trigger]
        call_ensures(probe, (x, z), p) ==> p == says(x as int, z as int)
}

/// Derive every feature whose footprint can reach a chunk. `probe` answers for
/// one world column; no answer means that nothing is placed there.
pub fn derive_features<P: Fn(i32, i32) -> Option<ColumnProbe>>(
    ctx: EvalContext,
    sources: &[FeatureSource],
    probe: P,
) -> (r: Vec<Feature>)
    requires
        bands_fit(ctx, sources@),
        forall|x: i32, z: i32| #[trigger] call_requires(probe, (x, z)),
        forall|x: i32, z: i32, p: Option<ColumnProbe>| #[trigger]
            call_ensures(probe, (x, z), p) ==> heights_fit(sources@, p),
    ensures
        exists|columns: Seq<Option<ColumnProbe>>|
            {
                &&& columns.len() == candidates_around(ctx, sources@).len()
                &&& forall|i: int|
                    0 <= i < columns.len() ==> call_ensures(
                        probe,
                        (
                            candidates_around(ctx, sources@)[i].x,
                            candidates_around(ctx, sources@)[i].z,
                        ),
                        #[trigger] columns[i],
                    )
                &&& r@ == #[trigger] in_order(
                    settled(sources@, candidates_around(ctx, sources@), columns),
                )
            },
        forall|says: spec_fn(int, int) -> Option<ColumnProbe>| #[trigger]
            answers_as(probe, says) ==> r@ == features_around(ctx, sources@, says),
{
    let candidates = feature_candidates(ctx, sources);
    let mut columns: Vec<Option<ColumnProbe>> = Vec::new();
    let mut k: usize = 0;
    while k < candidates.len()
        invariant
            k <= candidates@.len(),
            columns@.len() == k,
            candidates@ == candidates_around(ctx, sources@),
            forall|x: i32, z: i32| #[trigger] call_requires(probe, (x, z)),
            forall|x: i32, z: i32, p: Option<ColumnProbe>| #[trigger]
                call_ensures(probe, (x, z), p) ==> heights_fit(sources@, p),
            forall|i: int|
                0 <= i < k ==> call_ensures(
                    probe,
                    (candidates@[i].x, candidates@[i].z),
                    #[trigger] columns@[i],
                ),
        decreases candidates@.len() - k,
    {
        let c = candidates[k];
        let column = probe(c.x, c.z);
        columns.push(column);
        k = k + 1;
    }
    assert forall|i: int| 0 <= i < columns@.len() implies heights_fit(
        sources@,
        #[trigger] columns@[i],
    ) by {
        assert(call_ensures(probe, (candidates@[i].x, candidates@[i].z), columns@[i]));
    }
    assert forall|says: spec_fn(int, int) -> Option<ColumnProbe>| #[trigger]
        answers_as(probe, says) implies in_order(settled(sources@, candidates@, columns@))
        == features_around(ctx, sources@, says) by {
        assert(columns@ =~= Seq::new(
            candidates@.len(),
            |i: int| says(candidates@[i].x as int, candidates@[i].z as int),
        ));
    }
    settle_features(sources, &candidates, &columns)
}

} // verus!
