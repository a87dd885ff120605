//! Looking into one column: what the graphs of a world made of it.
use crate::border::BorderScan;
use crate::chunk::{cell_index, column_index, ChunkBuffer};
use crate::column::ColumnField;
use crate::column_eval::{column_plan, depth, ColumnEnv, ColumnEvaluator};
use crate::composite::{column_biome, NO_POND_BITS};
use crate::context::{placed_in_world, EvalContext};
use crate::feature::ColumnProbe;
use crate::graph::Graph;
use crate::index::indexable;
use crate::inspect_laws::channels_are_in_order;
use crate::node::NodeKind;
use crate::order::{cyclic, settles};
use crate::params::NoiseParams;
use crate::scalar::Single;
use crate::slots::{is_key_order, key_order_is_unique, NodeId};
use crate::sources::key_list;
use crate::text::{is_text_before, text_before};
use crate::voxel::{IVec3, MaterialId, ShapeId, Voxel};
use crate::world::WorldEvaluator;
use crate::world_ids::{has_order, shared_ids, ResolvedColumns};
use vstd::prelude::*;

verus! {

/// How far the blend across a biome border reaches, in columns.
pub const FADE_RADIUS: i32 = 10;

/// How many voxels a report lists.
pub const REPORTED_VOXELS: usize = 10;

/// A climate channel: a named output of the world graph, and the noise that gives
/// its value at a column.
#[derive(Debug)]
pub struct Channel {
    /// Name of the output.
    pub name: String,
    /// The noise.
    pub params: NoiseParams,
    /// Its seed.
    pub seed: i32,
}

/// A climate channel, as values.
pub struct ChannelView {
    /// Name of the output.
    pub name: Seq<char>,
    /// The noise.
    pub params: NoiseParams,
    /// Its seed.
    pub seed: i32,
}

impl Channel {
    /// The channel, as values.
    pub open spec fn view(&self) -> ChannelView {
        ChannelView { name: self.name@, params: self.params, seed: self.seed }
    }
}

/// Channels, as values.
pub open spec fn channel_views(s: Seq<Channel>) -> Seq<ChannelView> {
    Seq::new(s.len(), |i: int| s[i]@)
}

/// Whether no channel has a name before that of an earlier one.
pub open spec fn named_in_order(s: Seq<ChannelView>) -> bool {
    forall|i: int, j: int|
        0 <= i < j < s.len() ==> !text_before((#[trigger] s[j]).name, (#[trigger] s[i]).name)
}

/// Channels in order of name with one more, behind those it does not come before.
pub open spec fn filed(s: Seq<ChannelView>, c: ChannelView) -> Seq<ChannelView>
    decreases s.len(),
{
    if s.len() == 0 || !text_before(c.name, s.last().name) {
        s.push(c)
    } else {
        filed(s.drop_last(), c).push(s.last())
    }
}

/// The channel that a node is: a named output with a value at every column.
pub open spec fn channel_of(world: Graph, world_seed: u64, id: NodeId) -> Option<ChannelView> {
    match world.nodes@[id].kind {
        NodeKind::GraphOutput(p) => {
            let env = ColumnEnv {
                nodes: world.nodes@,
                edges: world.edges@,
                world_seed,
                upstream: None,
            };
            match column_plan(env, id, depth(world.nodes@, world.edges@, id)) {
                Ok(plan) => if plan.bands is None {
                    Some(ChannelView { name: p.name@, params: plan.params, seed: plan.seed })
                } else {
                    None
                },
                Err(_) => None,
            }
        },
        _ => None,
    }
}

/// The channels that listed nodes are, in order of name.
pub open spec fn channels_of(world: Graph, world_seed: u64, keys: Seq<NodeId>) -> Seq<ChannelView>
    decreases keys.len(),
{
    if keys.len() == 0 {
        Seq::empty()
    } else {
        let rest = channels_of(world, world_seed, keys.drop_last());
        match channel_of(world, world_seed, keys.last()) {
            Some(c) => filed(rest, c),
            None => rest,
        }
    }
}

fn file(out: &mut Vec<Channel>, c: Channel)
    ensures
        channel_views(final(out)@) == filed(channel_views(old(out)@), c@),
{
    let ghost all = channel_views(out@);
    let ghost before = out@;
    let mut k: usize = out.len();
    proof {
        assert(all.take(all.len() as int) =~= all);
        assert(filed(all, c@) + all.skip(all.len() as int) =~= filed(all, c@));
    }
    while k > 0 && is_text_before(c.name.as_str(), out[k - 1].name.as_str())
        invariant
            k <= all.len(),
            out@ == before,
            all == channel_views(before),
            filed(all, c@) == filed(all.take(k as int), c@) + all.skip(k as int),
        decreases k,
    {
        proof {
            let part = all.take(k as int);
            assert(part.last() == all[k - 1]);
            assert(all[k - 1] == before[k - 1]@);
            assert(part.drop_last() =~= all.take(k - 1));
            assert(filed(part, c@) + all.skip(k as int) =~= filed(all.take(k - 1), c@)
                + all.skip(k - 1));
        }
        k = k - 1;
    }
    proof {
        let part = all.take(k as int);
        if k > 0 {
            assert(part.last() == all[k - 1]);
            assert(all[k - 1] == before[k - 1]@);
        }
        assert(filed(part, c@) == part.push(c@));
    }
    out.insert(k, c);
    proof {
        assert(channel_views(out@) =~= all.take(k as int).push(c@) + all.skip(k as int));
    }
}

fn find_channel(world: &Graph, world_seed: u64, id: NodeId) -> (r: Option<Channel>)
    requires
        indexable(world.edges@),
        world.nodes@.contains_key(id),
        settles(world.nodes@, world.edges@, id),
    ensures
        match r {
            Some(c) => channel_of(*world, world_seed, id) == Some(c@),
            None => channel_of(*world, world_seed, id) is None,
        },
{
    match world.nodes.get(id) {
        None => None,
        Some(node) => match &node.kind {
            NodeKind::GraphOutput(p) => {
                let eval = ColumnEvaluator::new(world, EvalContext::new(world_seed, IVec3::zero()));
                match eval.sample_column(id) {
                    Err(_) => None,
                    Ok(plan) => match plan.bands {
                        Some(_) => None,
                        None => Some(
                            Channel { name: p.name.clone(), params: plan.params, seed: plan.seed },
                        ),
                    },
                }
            },
            _ => None,
        },
    }
}

impl WorldEvaluator {
    /// The climate channels: the named outputs of the world graph that have a value
    /// at every column, in order of name. A cyclic graph has none.
    pub fn climate_channels(&self, world_seed: u64) -> (r: Vec<Channel>)
        requires
            indexable(self.world.edges@),
        ensures
            cyclic(self.world.nodes@, self.world.edges@) ==> r@.len() == 0,
            !cyclic(self.world.nodes@, self.world.edges@) ==> channel_views(r@) == channels_of(
                self.world,
                world_seed,
                key_list(self.world.nodes@),
            ),
            named_in_order(channel_views(r@)),
    {
        let mut out: Vec<Channel> = Vec::new();
        assert(channel_views(out@) =~= Seq::<ChannelView>::empty());
        if !has_order(&self.world) {
            return out;
        }
        let keys = self.world.nodes.keys();
        proof {
            assert(is_key_order(self.world.nodes@, key_list(self.world.nodes@)));
            key_order_is_unique(self.world.nodes@, keys@, key_list(self.world.nodes@));
            assert(keys@.take(0) =~= Seq::<NodeId>::empty());
        }
        let mut k: usize = 0;
        while k < keys.len()
            invariant
                k <= keys@.len(),
                indexable(self.world.edges@),
                is_key_order(self.world.nodes@, keys@),
                forall|id: NodeId|
                    self.world.nodes@.contains_key(id) ==> #[trigger] settles(
                        self.world.nodes@,
                        self.world.edges@,
                        id,
                    ),
                channel_views(out@) == channels_of(
                    self.world,
                    world_seed,
                    keys@.take(k as int),
                ),
            decreases keys@.len() - k,
        {
            let id = keys[k];
            proof {
                assert(self.world.nodes@.contains_key(keys@[k as int]));
                assert(settles(self.world.nodes@, self.world.edges@, id));
                assert(keys@.take(k + 1).drop_last() =~= keys@.take(k as int));
                assert(keys@.take(k + 1).last() == id);
            }
            if let Some(c) = find_channel(&self.world, world_seed, id) {
                file(&mut out, c);
            }
            k = k + 1;
        }
        assert(keys@.take(k as int) =~= keys@);
        proof {
            channels_are_in_order(self.world, world_seed, keys@);
        }
        out
    }
}

/// The last height of a column whose density is positive, of the first `k`; heights
/// without a density count as air.
pub open spec fn highest_solid(samples: Seq<Option<Single>>, k: int) -> Option<int>
    decreases k,
{
    if k <= 0 {
        None
    } else {
        match samples[k - 1] {
            Some(d) => if d.positive() {
                Some(k - 1)
            } else {
                highest_solid(samples, k - 1)
            },
            None => highest_solid(samples, k - 1),
        }
    }
}

/// The topmost height of a column whose density is positive.
pub fn survey_surface(samples: &Vec<Option<Single>>) -> (r: Option<usize>)
    ensures
        match r {
            Some(y) => highest_solid(samples@, samples@.len() as int) == Some(y as int) && y
                < samples@.len(),
            None => highest_solid(samples@, samples@.len() as int) is None,
        },
{
    let mut k: usize = samples.len();
    while k > 0
        invariant
            k <= samples@.len(),
            highest_solid(samples@, samples@.len() as int) == highest_solid(samples@, k as int),
        decreases k,
    {
        if let Some(d) = samples[k - 1] {
            if d.is_positive() {
                return Some(k - 1);
            }
        }
        k = k - 1;
    }
    None
}

/// How many cells high a range of chunks is: at least one chunk.
pub open spec fn span_of(lowest: int, highest: int) -> int {
    if highest - lowest >= 1 {
        32 * (highest - lowest)
    } else {
        32
    }
}

/// How many cells high a range of chunks is: at least one chunk.
pub fn column_height(lowest: i32, highest: i32) -> (r: i64)
    ensures
        r == span_of(lowest as int, highest as int),
{
    let chunks: i64 = highest as i64 - lowest as i64;
    if chunks >= 1 {
        32 * chunks
    } else {
        32
    }
}

/// What a feature asks about a column, from the column's zone, biome and densities
/// over the height of the world; nothing where there is no surface.
pub open spec fn probe_of(
    zone_id: u16,
    biome_id: u16,
    lowest_chunk: int,
    samples: Seq<Option<Single>>,
) -> Option<ColumnProbe> {
    match highest_solid(samples, samples.len() as int) {
        Some(y) => Some(
            ColumnProbe { zone_id, biome_id, surface_y: (32 * lowest_chunk + y) as i32 },
        ),
        None => None,
    }
}

/// What a feature asks about a column.
pub fn probe_column(
    zone_id: u16,
    biome_id: u16,
    lowest_chunk: i32,
    samples: &Vec<Option<Single>>,
) -> (r: Option<ColumnProbe>)
    requires
        -0x400_0000 <= lowest_chunk < 0x400_0000,
        32 * lowest_chunk + samples@.len() <= 0x7fff_ffff,
    ensures
        r == probe_of(zone_id, biome_id, lowest_chunk as int, samples@),
{
    match survey_surface(samples) {
        Some(y) => Some(
            ColumnProbe {
                zone_id,
                biome_id,
                surface_y: (32 * lowest_chunk as i64 + y as i64) as i32,
            },
        ),
        None => None,
    }
}

/// The chunk that holds a world coordinate, and where in the chunk it is.
pub fn locate_column(w: i32) -> (r: (i32, usize))
    ensures
        r.0 == w as int / 32,
        r.1 == w as int % 32,
        r.1 < 32,
{
    let shifted: i64 = w as i64 + 0x8000_0000;
    ((shifted / 32 - 0x400_0000) as i32, (shifted % 32) as usize)
}

/// The chunk to show of a column: the one that holds its surface, held to the
/// range; the lowest where there is no surface.
pub open spec fn shown_chunk(surface: Option<int>, lowest: int, highest: int) -> int {
    match surface {
        Some(y) => {
            let c = y / 32;
            if c < lowest {
                lowest
            } else if c > highest - 1 {
                highest - 1
            } else {
                c
            }
        },
        None => lowest,
    }
}

/// The chunk to show of a column, from its densities over a range of chunks.
pub fn choose_chunk(samples: &Vec<Option<Single>>, lowest: i32, highest: i32) -> (r: i32)
    requires
        lowest < highest,
        -0x400_0000 <= lowest,
        32 * lowest + samples@.len() <= 0x7fff_ffff,
    ensures
        r == shown_chunk(
            match highest_solid(samples@, samples@.len() as int) {
                Some(y) => Some(32 * lowest + y),
                None => None,
            },
            lowest as int,
            highest as int,
        ),
{
    match survey_surface(samples) {
        None => lowest,
        Some(y) => {
            let (c, _) = locate_column((32 * lowest as i64 + y as i64) as i32);
            if c < lowest {
                lowest
            } else if c > highest - 1 {
                highest - 1
            } else {
                c
            }
        },
    }
}

/// The filled cells of a column, from the top down, at most `limit` of them, with
/// their world heights. `left` cells are still to be looked at.
pub open spec fn top_voxels(
    cells: Seq<Voxel>,
    x: int,
    z: int,
    base_y: int,
    left: int,
    limit: int,
) -> Seq<(i32, MaterialId, ShapeId)>
    decreases left,
{
    if left <= 0 || limit <= 0 {
        Seq::empty()
    } else {
        let v = cells[cell_index(x, left - 1, z)];
        if v == Voxel::nothing() {
            top_voxels(cells, x, z, base_y, left - 1, limit)
        } else {
            seq![((base_y + left - 1) as i32, v.material, v.shape)] + top_voxels(
                cells,
                x,
                z,
                base_y,
                left - 1,
                limit - 1,
            )
        }
    }
}

fn list_voxels(terrain: &ChunkBuffer<Voxel>, x: usize, z: usize, base_y: i32) -> (r: Vec<
    (i32, MaterialId, ShapeId),
>)
    requires
        x < 32,
        z < 32,
        base_y + 31 <= 0x7fff_ffff,
    ensures
        r@ == top_voxels(terrain@, x as int, z as int, base_y as int, 32, REPORTED_VOXELS as int),
{
    let mut out: Vec<(i32, MaterialId, ShapeId)> = Vec::new();
    let ghost whole = top_voxels(
        terrain@,
        x as int,
        z as int,
        base_y as int,
        32,
        REPORTED_VOXELS as int,
    );
    let mut left: usize = 32;
    assert(out@ + whole =~= whole);
    while left > 0 && out.len() < REPORTED_VOXELS
        invariant
            left <= 32,
            x < 32,
            z < 32,
            base_y + 31 <= 0x7fff_ffff,
            out@.len() <= REPORTED_VOXELS,
            whole == out@ + top_voxels(
                terrain@,
                x as int,
                z as int,
                base_y as int,
                left as int,
                REPORTED_VOXELS - out@.len(),
            ),
        decreases left,
    {
        let v = terrain.get(x, left - 1, z);
        if v != Voxel::empty() {
            let ghost before = out@;
            out.push((base_y + (left as i32 - 1), v.material, v.shape));
            proof {
                let rest = top_voxels(
                    terrain@,
                    x as int,
                    z as int,
                    base_y as int,
                    left - 1,
                    REPORTED_VOXELS - out@.len(),
                );
                assert(before + (seq![out@.last()] + rest) =~= out@ + rest);
            }
        }
        left = left - 1;
    }
    assert(whole =~= out@);
    out
}

/// What the graphs of a world made of one column.
#[derive(Clone, Debug)]
pub struct ColumnReport {
    /// World X of the column.
    pub world_x: i32,
    /// World Z of the column.
    pub world_z: i32,
    /// The chunk that holds it.
    pub chunk: IVec3,
    /// Values of the climate channels, by name.
    pub climate: Vec<(String, Single)>,
    /// Its zone.
    pub zone_id: u16,
    /// Its biome.
    pub biome_id: u16,
    /// Squared distance to the nearest column of another biome, at most the square
    /// of the fade radius.
    pub border_distance_squared: u32,
    /// The biome there.
    pub border_neighbor: u16,
    /// How far the blend reaches.
    pub fade_radius: i32,
    /// Density of its own biome by world height; nothing where single densities
    /// cannot be computed.
    pub density: Vec<(i32, Option<Single>)>,
    /// World height of the topmost filled cell of the chunk shown.
    pub surface_y: Option<i32>,
    /// The filled cells of the chunk shown, from the top down.
    pub voxels: Vec<(i32, MaterialId, ShapeId)>,
    /// World height of the pond there, if there is one.
    pub pond_level: Option<Single>,
    /// Height of the chunk shown.
    pub voxel_chunk_y: i32,
}

/// Densities with their world heights.
pub open spec fn density_rows(samples: Seq<Option<Single>>, base_y: int) -> Seq<
    (i32, Option<Single>),
> {
    Seq::new(samples.len(), |y: int| ((base_y + y) as i32, samples[y]))
}

/// What a report says, given what the column was evaluated to.
pub open spec fn reports(
    r: ColumnReport,
    ctx: EvalContext,
    x: int,
    z: int,
    zones: Option<Seq<u16>>,
    biomes: Option<Seq<u16>>,
    border: Option<BorderScan>,
    samples: Seq<Option<Single>>,
    lowest: int,
    shown: int,
    terrain: Seq<Voxel>,
    ponds: Option<Seq<Single>>,
) -> bool {
    &&& r.world_x == 32 * ctx.chunk.x + x
    &&& r.world_z == 32 * ctx.chunk.z + z
    &&& r.chunk == ctx.chunk
    &&& r.zone_id == column_biome(zones, x, z)
    &&& r.biome_id == column_biome(biomes, x, z)
    &&& r.border_distance_squared == match border {
        Some(b) => b.distance_squared@[column_index(x, z)],
        None => 0,
    }
    &&& r.border_neighbor == match border {
        Some(b) => b.neighbor@[column_index(x, z)],
        None => 0,
    }
    &&& r.fade_radius == FADE_RADIUS
    &&& r.density@ == density_rows(samples, 32 * lowest)
    &&& r.voxels@ == top_voxels(terrain, x, z, 32 * shown, 32, REPORTED_VOXELS as int)
    &&& r.surface_y == if r.voxels@.len() > 0 {
        Some(r.voxels@[0].0)
    } else {
        None
    }
    &&& r.pond_level == match ponds {
        Some(p) => if p[column_index(x, z)].bits == NO_POND_BITS {
            None
        } else {
            Some(p[column_index(x, z)])
        },
        None => None,
    }
    &&& r.voxel_chunk_y == shown
}

/// Report on one column of a chunk. `climate` are the values of the climate
/// channels; `samples` the densities of the column's own biome from the lowest
/// chunk up; `shown` the chunk whose terrain and ponds are given.
pub fn inspect_column(
    ctx: EvalContext,
    lx: usize,
    lz: usize,
    climate: Vec<(String, Single)>,
    cols: &ResolvedColumns,
    border: Option<&BorderScan>,
    samples: &Vec<Option<Single>>,
    lowest: i32,
    shown: i32,
    terrain: &ChunkBuffer<Voxel>,
    ponds: Option<&ColumnField>,
) -> (r: ColumnReport)
    requires
        lx < 32,
        lz < 32,
        placed_in_world(ctx.chunk),
        -0x400_0000 <= lowest,
        32 * lowest + samples@.len() <= 0x7fff_ffff,
        -0x400_0000 <= shown < 0x400_0000,
        border matches Some(b) ==> b.distance_squared@.len() == 1024,
    ensures
        r.climate == climate,
        reports(
            r,
            ctx,
            lx as int,
            lz as int,
            shared_ids(cols.zone_ids),
            shared_ids(cols.biome_ids),
            match border {
                Some(b) => Some(*b),
                None => None,
            },
            samples@,
            lowest as int,
            shown as int,
            terrain@,
            match ponds {
                Some(p) => Some(p@),
                None => None,
            },
        ),
{
    let mut density: Vec<(i32, Option<Single>)> = Vec::new();
    let mut y: usize = 0;
    while y < samples.len()
        invariant
            y <= samples@.len(),
            -0x400_0000 <= lowest,
            32 * lowest + samples@.len() <= 0x7fff_ffff,
            density@ == density_rows(samples@, 32 * lowest).take(y as int),
        decreases samples@.len() - y,
    {
        density.push(((32 * lowest as i64 + y as i64) as i32, samples[y]));
        assert(density@ =~= density_rows(samples@, 32 * lowest).take(y + 1));
        y = y + 1;
    }
    assert(density@ =~= density_rows(samples@, 32 * lowest));
    let voxels = list_voxels(terrain, lx, lz, 32 * shown);
    let surface_y = if voxels.len() > 0 {
        Some(voxels[0].0)
    } else {
        None
    };
    let zone_id: u16 = match &cols.zone_ids {
        Some(c) => c.get(lx, lz),
        None => 0,
    };
    let biome_id: u16 = match &cols.biome_ids {
        Some(c) => c.get(lx, lz),
        None => 0,
    };
    let (border_distance_squared, border_neighbor): (u32, u16) = match border {
        Some(b) => (b.distance_squared[lx + 32 * lz], b.neighbor.get(lx, lz)),
        None => (0, 0),
    };
    let pond_level = match ponds {
        Some(p) => {
            let level = p.get(lx, lz);
            if level.bits == NO_POND_BITS {
                None
            } else {
                Some(level)
            }
        },
        None => None,
    };
    ColumnReport {
        world_x: 32 * ctx.chunk.x + lx as i32,
        world_z: 32 * ctx.chunk.z + lz as i32,
        chunk: ctx.chunk,
        climate,
        zone_id,
        biome_id,
        border_distance_squared,
        border_neighbor,
        fade_radius: FADE_RADIUS,
        density,
        surface_y,
        voxels,
        pond_level,
        voxel_chunk_y: shown,
    }
}

} // verus!
