//! What nodes are placed with: the values that their parameters start at.
use crate::node::NodeKind;
use crate::number_laws::{digits, is_negative, places};
use crate::params::{
    Axis, ClampParams, ConstantMaterialParams, ConstantParams, CurveMapperParams, DomainWarpParams,
    FindFlatParams, FractalType, JitteredGridParams, LayerParams, NoiseParams, PaintDensityParams,
    PlaceStructureParams, PlaceTreeParams, PoissonDiskParams, PoissonDistributionParams,
    RemapParams, RiverParams, SpeciesPickerParams, SurfaceFilterParams, ThresholdParams,
    WorldAxisParams, YBandParams,
};
use crate::scalar::Single;
use crate::voxel::MaterialId;
use vstd::arithmetic::power2::{lemma2_to64, pow2};
use vstd::prelude::*;

verus! {

/// Whether a number is the one nearest to a fraction that is not below zero.
pub open spec fn is_nearest_to(x: Single, top: int, bottom: int) -> bool {
    if top == 0 {
        x.bits == 0
    } else {
        &&& !is_negative(x)
        &&& 0 <= places(x)
        &&& digits(x) >= 0x80_0000
        &&& -bottom <= 2 * (digits(x) * bottom - top * pow2(places(x) as nat)) <= bottom
    }
}

/// A noise starts with a frequency of a hundredth, in four octaves of plain fractal noise,
/// each twice as fine and half as strong as the one before.
pub proof fn noise_starts_plain(p: NoiseParams)
    requires
        p.is_default(),
    ensures
        p.seed == 0,
        p.octaves == 4,
        p.fractal_type == FractalType::FBm,
        is_nearest_to(p.frequency, 1, 100),
        is_nearest_to(p.lacunarity, 2, 1),
        is_nearest_to(p.gain, 1, 2),
{
    lemma2_to64();
}

/// Operators start on the range from zero to one: a clamp holds to it, a remap takes what
/// lies between minus one and one to it, a curve gives it back as it is; thresholds and
/// constants start at zero, and an axis is the vertical one.
pub proof fn operators_start_on_the_unit_range(
    c: ClampParams,
    r: RemapParams,
    t: ThresholdParams,
    k: ConstantParams,
    m: CurveMapperParams,
    a: WorldAxisParams,
)
    requires
        c.is_default(),
        r.is_default(),
        t.is_default(),
        k.is_default(),
        m.is_default(),
        a.is_default(),
    ensures
        is_nearest_to(c.min, 0, 1),
        is_nearest_to(c.max, 1, 1),
        r.src_lo.bits == r.src_hi.bits + 0x8000_0000,
        is_nearest_to(r.src_hi, 1, 1),
        is_nearest_to(r.dst_lo, 0, 1),
        is_nearest_to(r.dst_hi, 1, 1),
        is_nearest_to(t.threshold, 0, 1),
        is_nearest_to(k.value, 0, 1),
        m.stops@.len() == 2,
        is_nearest_to(m.stops@[0].0, 0, 1) && is_nearest_to(m.stops@[0].1, 0, 1),
        is_nearest_to(m.stops@[1].0, 1, 1) && is_nearest_to(m.stops@[1].1, 1, 1),
        a.axis == Axis::Y,
{
    lemma2_to64();
}

/// A warp starts with a frequency of a fiftieth and moves by eight, and a band of heights
/// goes from zero to sixty-four.
pub proof fn domains_start_in_range(w: DomainWarpParams, y: YBandParams)
    requires
        w.is_default(),
        y.is_default(),
    ensures
        w.seed == 0,
        is_nearest_to(w.frequency, 2, 100),
        is_nearest_to(w.amplitude, 8, 1),
        is_nearest_to(y.min, 0, 1),
        is_nearest_to(y.max, 64, 1),
{
    lemma2_to64();
}

/// Points start six apart on a grid that keeps every other one, four apart otherwise, and
/// moved about by six tenths.
pub proof fn points_start_apart(
    g: JitteredGridParams,
    d: PoissonDiskParams,
    c: PoissonDistributionParams,
)
    requires
        g.is_default(),
        d.is_default(),
        c.is_default(),
    ensures
        g.seed == 0 && d.seed == 0 && c.seed == 0,
        is_nearest_to(g.cell_size, 6, 1),
        is_nearest_to(g.jitter, 6, 10),
        is_nearest_to(g.density, 1, 2),
        is_nearest_to(d.radius, 4, 1),
        d.k == 30,
        is_nearest_to(c.radius, 4, 1),
        is_nearest_to(c.jitter, 6, 10),
{
    lemma2_to64();
}

/// Material nodes start with the first material, a layer with two bands above it, one and
/// three thick.
pub proof fn materials_start_with_the_first(c: ConstantMaterialParams, l: LayerParams)
    requires
        c.is_default(),
        l.is_default(),
    ensures
        c.material == MaterialId(1),
        l.fill == c.material,
        l.bands@.len() == 2,
        l.bands@[0].0 == MaterialId(6) && l.bands@[0].1 == 1,
        l.bands@[1].0 == MaterialId(3) && l.bands@[1].1 == 3,
{
}

/// Placed trees start full-grown in about every third cell of twenty-four columns, placed
/// structures in every fourth of forty-eight, turned and standing one above the ground; both
/// in every biome, and with nothing resolved.
pub proof fn placed_things_start_unresolved(t: PlaceTreeParams, s: PlaceStructureParams)
    requires
        t.is_default(),
        s.is_default(),
    ensures
        t.cell_size == 24 && s.cell_size == 48,
        is_nearest_to(t.density, 35, 100),
        is_nearest_to(s.density, 1, 4),
        t.seed == 1 && s.seed == 1,
        is_nearest_to(t.age, 1, 1),
        s.random_yaw,
        s.surface_offset == 1,
        t.biomes@.len() == 0 && s.biomes@.len() == 0,
        t.resolved is None && s.resolved is None && s.canopy is None,
        t.species@ == "oak"@,
        t.wood@ == "wood"@,
        s.blueprint@ == "rock"@,
{
    lemma2_to64();
}

/// Rivers start on cells of a hundred and twenty-eight, between beds fourteen and forty-six
/// high, three to nine wide and four deep.
pub proof fn rivers_start_between_their_beds(r: RiverParams)
    requires
        r.is_default(),
    ensures
        r.seed == 1,
        is_nearest_to(r.cell_size, 128, 1),
        is_nearest_to(r.potential_frequency, 4, 1000),
        is_nearest_to(r.bed_low, 14, 1),
        is_nearest_to(r.bed_high, 46, 1),
        is_nearest_to(r.min_width, 3, 1),
        is_nearest_to(r.max_width, 9, 1),
        is_nearest_to(r.depth, 4, 1),
{
    lemma2_to64();
}

/// Filters start by taking slopes of up to one, heights of up to a thousand and twenty-four
/// up and down, and every material; flat ground may step by one. One species has all the
/// weight, and paint is dense.
pub proof fn foliage_starts_everywhere(
    f: SurfaceFilterParams,
    s: SpeciesPickerParams,
    p: PaintDensityParams,
    flat: FindFlatParams,
)
    requires
        f.is_default(),
        s.is_default(),
        p.is_default(),
        flat.is_default(),
    ensures
        is_nearest_to(f.max_slope, 1, 1),
        is_nearest_to(f.max_height, 1024, 1),
        f.min_height.bits == f.max_height.bits + 0x8000_0000,
        f.materials@.len() == 0,
        s.seed == 0,
        s.weights@.len() == 1,
        is_nearest_to(s.weights@[0], 1, 1),
        (p.layer_id, p.species, p.density, p.tint) == (0u16, 1u8, 255u8, 0u8),
        flat.max_step == 1,
        flat.on_materials@.len() == 0,
{
    lemma2_to64();
}

/// The catalog calls a kind of node by its own name.
pub proof fn the_catalog_calls_kinds_by_name(kind: NodeKind)
    requires
        kind.catalog_place() is Some,
    ensures
        kind.catalog_label() == kind.row().display_name,
{
}

} // verus!
