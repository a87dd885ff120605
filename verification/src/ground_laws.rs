//! What surveys, probes and reports tell of a column.
use crate::border::BorderScan;
use crate::composite::NO_POND_BITS;
use crate::context::EvalContext;
use crate::inspect::{highest_solid, probe_of, reports, shown_chunk, span_of, ColumnReport};
use crate::scalar::Single;
use crate::voxel::Voxel;
use vstd::prelude::*;

verus! {

/// Whether a column is solid at a height and at none of those above.
pub open spec fn solid_last_at(samples: Seq<Option<Single>>, y: int) -> bool {
    &&& 0 <= y < samples.len()
    &&& samples[y] is Some
    &&& samples[y]->0.positive()
    &&& forall|h: int|
        y < h < samples.len() ==> !((#[trigger] samples[h]) is Some && samples[h]->0.positive())
}

/// Whether a column is solid nowhere.
pub open spec fn solid_nowhere(samples: Seq<Option<Single>>) -> bool {
    forall|h: int|
        0 <= h < samples.len() ==> !((#[trigger] samples[h]) is Some && samples[h]->0.positive())
}

proof fn lemma_highest(samples: Seq<Option<Single>>, k: int, y: int)
    requires
        0 <= y < k <= samples.len(),
        samples[y] is Some,
        samples[y]->0.positive(),
        forall|h: int|
            y < h < k ==> !((#[trigger] samples[h]) is Some && samples[h]->0.positive()),
    ensures
        highest_solid(samples, k) == Some(y),
    decreases k,
{
    if y < k - 1 {
        assert(!(samples[k - 1] is Some && samples[k - 1]->0.positive()));
        lemma_highest(samples, k - 1, y);
    }
}

proof fn lemma_none(samples: Seq<Option<Single>>, k: int)
    requires
        k <= samples.len(),
        solid_nowhere(samples),
    ensures
        highest_solid(samples, k) is None,
    decreases k,
{
    if k > 0 {
        assert(!(samples[k - 1] is Some && samples[k - 1]->0.positive()));
        lemma_none(samples, k - 1);
    }
}

/// A survey finds the topmost height at which a column is solid, and nothing just where it
/// is solid nowhere.
pub proof fn surveys_find_the_topmost_ground(samples: Seq<Option<Single>>, y: int)
    ensures
        solid_last_at(samples, y) ==> highest_solid(samples, samples.len() as int) == Some(y),
        solid_nowhere(samples) ==> highest_solid(samples, samples.len() as int) is None,
{
    if solid_last_at(samples, y) {
        lemma_highest(samples, samples.len() as int, y);
    }
    if solid_nowhere(samples) {
        lemma_none(samples, samples.len() as int);
    }
}

/// A probe tells a column's zone and biome, and the world height of its topmost ground
/// where its heights are counted from the lowest chunk; without ground it tells nothing.
pub proof fn probes_tell_the_world_height(
    zone: u16,
    biome: u16,
    lowest: int,
    samples: Seq<Option<Single>>,
    y: int,
)
    requires
        -0x400_0000 <= lowest,
        32 * lowest + samples.len() <= 0x7fff_ffff,
    ensures
        solid_nowhere(samples) ==> probe_of(zone, biome, lowest, samples) is None,
        solid_last_at(samples, y) ==> {
            &&& probe_of(zone, biome, lowest, samples) is Some
            &&& probe_of(zone, biome, lowest, samples)->0.zone_id == zone
            &&& probe_of(zone, biome, lowest, samples)->0.biome_id == biome
            &&& probe_of(zone, biome, lowest, samples)->0.surface_y == 32 * lowest + y
        },
{
    surveys_find_the_topmost_ground(samples, y);
}

/// The chunk shown of a column lies in the range, and holds the surface where the range
/// does: below the range it is the lowest, above it the highest, and without a surface the
/// lowest.
pub proof fn shown_chunks_hold_the_surface(y: int, lowest: int, highest: int)
    requires
        lowest < highest,
    ensures
        shown_chunk(None, lowest, highest) == lowest,
        lowest <= shown_chunk(Some(y), lowest, highest) < highest,
        y < 32 * lowest ==> shown_chunk(Some(y), lowest, highest) == lowest,
        y >= 32 * highest ==> shown_chunk(Some(y), lowest, highest) == highest - 1,
        32 * lowest <= y < 32 * highest ==> 32 * shown_chunk(Some(y), lowest, highest) <= y < 32
            * shown_chunk(Some(y), lowest, highest) + 32,
{
}

/// A range of chunks is as high as its chunks together, and at least one.
pub proof fn ranges_are_as_high_as_their_chunks(lowest: int, highest: int)
    ensures
        span_of(lowest, lowest) == 32,
        lowest < highest ==> span_of(lowest, highest + 1) == span_of(lowest, highest) + 32,
        span_of(lowest, lowest + 1) == 32,
        highest < lowest ==> span_of(lowest, highest) == 32,
{
}

/// A report tells where its column stands in the world, what the border scan and the ponds
/// hold for the column, and its densities upward from the lowest chunk.
pub proof fn reports_tell_of_their_column(
    r: ColumnReport,
    ctx: EvalContext,
    x: int,
    z: int,
    zones: Option<Seq<u16>>,
    biomes: Option<Seq<u16>>,
    border: Option<BorderScan>,
    samples: Seq<Option<Single>>,
    lowest: int,
    shown: int,
    terrain: Seq<Voxel>,
    ponds: Option<Seq<Single>>,
    y: int,
)
    requires
        0 <= x < 32,
        0 <= z < 32,
        -0x400_0000 <= lowest,
        32 * lowest + samples.len() <= 0x7fff_ffff,
        reports(r, ctx, x, z, zones, biomes, border, samples, lowest, shown, terrain, ponds),
    ensures
        0 <= r.world_x - 32 * r.chunk.x < 32,
        r.world_x - 32 * r.chunk.x == x,
        r.world_z - 32 * r.chunk.z == z,
        r.chunk == ctx.chunk,
        zones is Some ==> r.zone_id == zones->0[x + 32 * z],
        biomes is Some ==> r.biome_id == biomes->0[x + 32 * z],
        border is Some ==> r.border_distance_squared == border->0.distance_squared@[x + 32 * z]
            && r.border_neighbor == border->0.neighbor@[x + 32 * z],
        border is None ==> r.border_distance_squared == 0 && r.border_neighbor == 0,
        r.density@.len() == samples.len(),
        0 <= y < samples.len() ==> r.density@[y].0 - 32 * lowest == y && r.density@[y].1
            == samples[y],
        ponds is None ==> r.pond_level is None,
        ponds is Some && ponds->0[x + 32 * z].bits != NO_POND_BITS ==> r.pond_level == Some(
            ponds->0[x + 32 * z],
        ),
        ponds is Some && ponds->0[x + 32 * z].bits == NO_POND_BITS ==> r.pond_level is None,
        r.voxel_chunk_y == shown,
{
}

} // verus!
