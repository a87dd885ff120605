//! What the fields of a form show: each parameter of a node, in order, and how far it goes.
use crate::default_laws::is_nearest_to;
use crate::form::{FieldValue, Limits};
use crate::params::{
    BiomeContextMaskParams, BiomeParamParams, ClampParams, ConstantMaterialParams, ConstantParams,
    DomainWarpParams, FindFlatParams, JitteredGridParams, LayerParams, NoiseParams,
    PaintDensityParams, PlaceStructureParams, PlaceTreeParams, PoissonDiskParams,
    PoissonDistributionParams, RemapParams, RiverParams, ScatterPlaceParams, SpeciesPickerParams,
    SurfaceFilterParams, ThresholdParams, WorldAxisParams, WorldParamParams, YBandParams,
};
use vstd::arithmetic::power2::lemma2_to64;
use vstd::prelude::*;

verus! {

/// Whether limits go from one fraction to another.
pub open spec fn runs_from(limits: Limits, low: (int, int), high: (int, int)) -> bool {
    limits matches Limits::Reals(a, b) && is_nearest_to(a, low.0, low.1) && is_nearest_to(
        b,
        high.0,
        high.1,
    )
}

/// Whether limits go from one integer to another.
pub open spec fn counts_from(limits: Limits, low: int, high: int) -> bool {
    limits matches Limits::Wholes(a, b) && a == low && b == high
}

/// The fields of a form for constant parameters show each of them, within its limits.
pub proof fn constant_fields_show_the_parameters(p: ConstantParams)
    ensures
        p.fields().len() == 1,
        p.fields()[0].label == "value",
        p.fields()[0].value == FieldValue::Real(p.value),
        p.fields()[0].limits is Free,
{
    lemma2_to64();
}

/// The fields of a form for threshold parameters show each of them, within its limits.
pub proof fn threshold_fields_show_the_parameters(p: ThresholdParams)
    ensures
        p.fields().len() == 1,
        p.fields()[0].label == "threshold",
        p.fields()[0].value == FieldValue::Real(p.threshold),
        p.fields()[0].limits is Free,
{
    lemma2_to64();
}

/// The fields of a form for clamp parameters show each of them, within its limits.
pub proof fn clamp_fields_show_the_parameters(p: ClampParams)
    ensures
        p.fields().len() == 2,
        p.fields()[0].label == "min",
        p.fields()[0].value == FieldValue::Real(p.min),
        p.fields()[0].limits is Free,
        p.fields()[1].label == "max",
        p.fields()[1].value == FieldValue::Real(p.max),
        p.fields()[1].limits is Free,
{
    lemma2_to64();
}

/// The fields of a form for remap parameters show each of them, within its limits.
pub proof fn remap_fields_show_the_parameters(p: RemapParams)
    ensures
        p.fields().len() == 4,
        p.fields()[0].label == "src lo",
        p.fields()[0].value == FieldValue::Real(p.src_lo),
        p.fields()[0].limits is Free,
        p.fields()[1].label == "src hi",
        p.fields()[1].value == FieldValue::Real(p.src_hi),
        p.fields()[1].limits is Free,
        p.fields()[2].label == "dst lo",
        p.fields()[2].value == FieldValue::Real(p.dst_lo),
        p.fields()[2].limits is Free,
        p.fields()[3].label == "dst hi",
        p.fields()[3].value == FieldValue::Real(p.dst_hi),
        p.fields()[3].limits is Free,
{
    lemma2_to64();
}

/// The fields of a form for noise parameters show each of them, within its limits.
pub proof fn noise_fields_show_the_parameters(p: NoiseParams)
    ensures
        p.fields().len() == 6,
        p.fields()[0].label == "seed",
        p.fields()[0].value is Whole && p.fields()[0].value->Whole_0 == p.seed,
        counts_from(p.fields()[0].limits, 0, 4294967295),
        p.fields()[1].label == "frequency",
        p.fields()[1].value == FieldValue::Real(p.frequency),
        p.fields()[1].limits is Free,
        p.fields()[2].label == "octaves",
        p.fields()[2].value is Whole && p.fields()[2].value->Whole_0 == p.octaves,
        counts_from(p.fields()[2].limits, 1, 10),
        p.fields()[3].label == "lacunarity",
        p.fields()[3].value == FieldValue::Real(p.lacunarity),
        p.fields()[3].limits is Free,
        p.fields()[4].label == "gain",
        p.fields()[4].value == FieldValue::Real(p.gain),
        p.fields()[4].limits is Free,
        p.fields()[5].label == "fractal",
        p.fields()[5].value == FieldValue::Fractal(p.fractal_type),
        p.fields()[5].limits is Free,
{
    lemma2_to64();
}

/// The fields of a form for world axis parameters show each of them, within its limits.
pub proof fn world_axis_fields_show_the_parameters(p: WorldAxisParams)
    ensures
        p.fields().len() == 1,
        p.fields()[0].label == "axis",
        p.fields()[0].value == FieldValue::Axis(p.axis),
        p.fields()[0].limits is Free,
{
    lemma2_to64();
}

/// The fields of a form for domain warp parameters show each of them, within its limits.
pub proof fn domain_warp_fields_show_the_parameters(p: DomainWarpParams)
    ensures
        p.fields().len() == 3,
        p.fields()[0].label == "seed",
        p.fields()[0].value is Whole && p.fields()[0].value->Whole_0 == p.seed,
        counts_from(p.fields()[0].limits, 0, 4294967295),
        p.fields()[1].label == "frequency",
        p.fields()[1].value == FieldValue::Real(p.frequency),
        p.fields()[1].limits is Free,
        p.fields()[2].label == "amplitude",
        p.fields()[2].value == FieldValue::Real(p.amplitude),
        p.fields()[2].limits is Free,
{
    lemma2_to64();
}

/// The fields of a form for constant material parameters show each of them, within its limits.
pub proof fn constant_material_fields_show_the_parameters(p: ConstantMaterialParams)
    ensures
        p.fields().len() == 1,
        p.fields()[0].label == "material",
        p.fields()[0].value is Whole && p.fields()[0].value->Whole_0 == p.material.0,
        counts_from(p.fields()[0].limits, 0, 65535),
{
    lemma2_to64();
}

/// The fields of a form for layer parameters show each of them, within its limits.
pub proof fn layer_fields_show_the_parameters(p: LayerParams)
    ensures
        p.fields().len() == 1,
        p.fields()[0].label == "fill",
        p.fields()[0].value is Whole && p.fields()[0].value->Whole_0 == p.fill.0,
        counts_from(p.fields()[0].limits, 0, 65535),
{
    lemma2_to64();
}

/// The fields of a form for jittered grid parameters show each of them, within its limits.
pub proof fn jittered_grid_fields_show_the_parameters(p: JitteredGridParams)
    ensures
        p.fields().len() == 4,
        p.fields()[0].label == "seed",
        p.fields()[0].value is Whole && p.fields()[0].value->Whole_0 == p.seed,
        counts_from(p.fields()[0].limits, 0, 4294967295),
        p.fields()[1].label == "cell size",
        p.fields()[1].value == FieldValue::Real(p.cell_size),
        runs_from(p.fields()[1].limits, (1, 2), (64, 1)),
        p.fields()[2].label == "jitter",
        p.fields()[2].value == FieldValue::Real(p.jitter),
        runs_from(p.fields()[2].limits, (0, 1), (1, 1)),
        p.fields()[3].label == "density",
        p.fields()[3].value == FieldValue::Real(p.density),
        runs_from(p.fields()[3].limits, (0, 1), (1, 1)),
{
    lemma2_to64();
}

/// The fields of a form for poisson disk parameters show each of them, within its limits.
pub proof fn poisson_disk_fields_show_the_parameters(p: PoissonDiskParams)
    ensures
        p.fields().len() == 3,
        p.fields()[0].label == "seed",
        p.fields()[0].value is Whole && p.fields()[0].value->Whole_0 == p.seed,
        counts_from(p.fields()[0].limits, 0, 4294967295),
        p.fields()[1].label == "radius",
        p.fields()[1].value == FieldValue::Real(p.radius),
        runs_from(p.fields()[1].limits, (1, 2), (64, 1)),
        p.fields()[2].label == "k",
        p.fields()[2].value is Whole && p.fields()[2].value->Whole_0 == p.k,
        counts_from(p.fields()[2].limits, 1, 64),
{
    lemma2_to64();
}

/// The fields of a form for find flat parameters show each of them, within its limits.
pub proof fn find_flat_fields_show_the_parameters(p: FindFlatParams)
    ensures
        p.fields().len() == 1,
        p.fields()[0].label == "max step",
        p.fields()[0].value is Whole && p.fields()[0].value->Whole_0 == p.max_step,
        counts_from(p.fields()[0].limits, 0, 16),
{
    lemma2_to64();
}

/// The fields of a form for place tree parameters show each of them, within its limits.
pub proof fn place_tree_fields_show_the_parameters(p: PlaceTreeParams)
    ensures
        p.fields().len() == 4,
        p.fields()[0].label == "cell size",
        p.fields()[0].value is Whole && p.fields()[0].value->Whole_0 == p.cell_size,
        counts_from(p.fields()[0].limits, 4, 512),
        p.fields()[1].label == "density",
        p.fields()[1].value == FieldValue::Real(p.density),
        runs_from(p.fields()[1].limits, (0, 1), (1, 1)),
        p.fields()[2].label == "seed",
        p.fields()[2].value is Whole && p.fields()[2].value->Whole_0 == p.seed,
        counts_from(p.fields()[2].limits, 0, 4294967295),
        p.fields()[3].label == "age",
        p.fields()[3].value == FieldValue::Real(p.age),
        runs_from(p.fields()[3].limits, (0, 1), (1, 1)),
{
    lemma2_to64();
}

/// The fields of a form for place structure parameters show each of them, within its limits.
pub proof fn place_structure_fields_show_the_parameters(p: PlaceStructureParams)
    ensures
        p.fields().len() == 5,
        p.fields()[0].label == "cell size",
        p.fields()[0].value is Whole && p.fields()[0].value->Whole_0 == p.cell_size,
        counts_from(p.fields()[0].limits, 4, 512),
        p.fields()[1].label == "density",
        p.fields()[1].value == FieldValue::Real(p.density),
        runs_from(p.fields()[1].limits, (0, 1), (1, 1)),
        p.fields()[2].label == "seed",
        p.fields()[2].value is Whole && p.fields()[2].value->Whole_0 == p.seed,
        counts_from(p.fields()[2].limits, 0, 4294967295),
        p.fields()[3].label == "random yaw",
        p.fields()[3].value == FieldValue::Flag(p.random_yaw),
        p.fields()[3].limits is Free,
        p.fields()[4].label == "surface offset",
        p.fields()[4].value is Whole && p.fields()[4].value->Whole_0 == p.surface_offset,
        counts_from(p.fields()[4].limits, -8, 8),
{
    lemma2_to64();
}

/// The fields of a form for river parameters show each of them, within its limits.
pub proof fn river_fields_show_the_parameters(p: RiverParams)
    ensures
        p.fields().len() == 8,
        p.fields()[0].label == "cell size",
        p.fields()[0].value == FieldValue::Real(p.cell_size),
        runs_from(p.fields()[0].limits, (16, 1), (1024, 1)),
        p.fields()[1].label == "seed",
        p.fields()[1].value is Whole && p.fields()[1].value->Whole_0 == p.seed,
        counts_from(p.fields()[1].limits, 0, 4294967295),
        p.fields()[2].label == "potential freq",
        p.fields()[2].value == FieldValue::Real(p.potential_frequency),
        runs_from(p.fields()[2].limits, (1, 10000), (5, 100)),
        p.fields()[3].label == "bed low",
        p.fields()[3].value == FieldValue::Real(p.bed_low),
        p.fields()[3].limits is Free,
        p.fields()[4].label == "high",
        p.fields()[4].value == FieldValue::Real(p.bed_high),
        p.fields()[4].limits is Free,
        p.fields()[5].label == "width min",
        p.fields()[5].value == FieldValue::Real(p.min_width),
        runs_from(p.fields()[5].limits, (1, 2), (64, 1)),
        p.fields()[6].label == "max",
        p.fields()[6].value == FieldValue::Real(p.max_width),
        runs_from(p.fields()[6].limits, (1, 2), (64, 1)),
        p.fields()[7].label == "depth",
        p.fields()[7].value == FieldValue::Real(p.depth),
        runs_from(p.fields()[7].limits, (0, 1), (32, 1)),
{
    lemma2_to64();
    vstd::arithmetic::power2::lemma2_to64_rest();
}

/// The fields of a form for y band parameters show each of them, within its limits.
pub proof fn y_band_fields_show_the_parameters(p: YBandParams)
    ensures
        p.fields().len() == 2,
        p.fields()[0].label == "min y",
        p.fields()[0].value == FieldValue::Real(p.min),
        p.fields()[0].limits is Free,
        p.fields()[1].label == "max y",
        p.fields()[1].value == FieldValue::Real(p.max),
        p.fields()[1].limits is Free,
{
    lemma2_to64();
}

/// The fields of a form for poisson distribution parameters show each of them, within its limits.
pub proof fn poisson_distribution_fields_show_the_parameters(p: PoissonDistributionParams)
    ensures
        p.fields().len() == 3,
        p.fields()[0].label == "seed",
        p.fields()[0].value is Whole && p.fields()[0].value->Whole_0 == p.seed,
        counts_from(p.fields()[0].limits, 0, 4294967295),
        p.fields()[1].label == "radius",
        p.fields()[1].value == FieldValue::Real(p.radius),
        runs_from(p.fields()[1].limits, (1, 2), (64, 1)),
        p.fields()[2].label == "jitter",
        p.fields()[2].value == FieldValue::Real(p.jitter),
        runs_from(p.fields()[2].limits, (0, 1), (1, 1)),
{
    lemma2_to64();
}

/// The fields of a form for surface filter parameters show each of them, within its limits.
pub proof fn surface_filter_fields_show_the_parameters(p: SurfaceFilterParams)
    ensures
        p.fields().len() == 3,
        p.fields()[0].label == "max slope",
        p.fields()[0].value == FieldValue::Real(p.max_slope),
        runs_from(p.fields()[0].limits, (0, 1), (10, 1)),
        p.fields()[1].label == "min height",
        p.fields()[1].value == FieldValue::Real(p.min_height),
        p.fields()[1].limits is Free,
        p.fields()[2].label == "max height",
        p.fields()[2].value == FieldValue::Real(p.max_height),
        p.fields()[2].limits is Free,
{
    lemma2_to64();
}

/// The fields of a form for biome context mask parameters show each of them, within its limits.
pub proof fn biome_context_mask_fields_show_the_parameters(p: BiomeContextMaskParams)
    ensures
        p.fields().len() == 1,
        p.fields()[0].label == "biome",
        p.fields()[0].value is Whole && p.fields()[0].value->Whole_0 == p.biome,
        counts_from(p.fields()[0].limits, 0, 65535),
{
    lemma2_to64();
}

/// The fields of a form for species picker parameters show each of them, within its limits.
pub proof fn species_picker_fields_show_the_parameters(p: SpeciesPickerParams)
    ensures
        p.fields().len() == 1,
        p.fields()[0].label == "seed",
        p.fields()[0].value is Whole && p.fields()[0].value->Whole_0 == p.seed,
        counts_from(p.fields()[0].limits, 0, 4294967295),
{
    lemma2_to64();
}

/// The fields of a form for paint density parameters show each of them, within its limits.
pub proof fn paint_density_fields_show_the_parameters(p: PaintDensityParams)
    ensures
        p.fields().len() == 4,
        p.fields()[0].label == "layer id",
        p.fields()[0].value is Whole && p.fields()[0].value->Whole_0 == p.layer_id,
        counts_from(p.fields()[0].limits, 0, 65535),
        p.fields()[1].label == "species",
        p.fields()[1].value is Whole && p.fields()[1].value->Whole_0 == p.species,
        counts_from(p.fields()[1].limits, 0, 255),
        p.fields()[2].label == "density",
        p.fields()[2].value is Whole && p.fields()[2].value->Whole_0 == p.density,
        counts_from(p.fields()[2].limits, 0, 255),
        p.fields()[3].label == "tint",
        p.fields()[3].value is Whole && p.fields()[3].value->Whole_0 == p.tint,
        counts_from(p.fields()[3].limits, 0, 255),
{
    lemma2_to64();
}

/// The fields of a form for scatter place parameters show each of them, within its limits.
pub proof fn scatter_place_fields_show_the_parameters(p: ScatterPlaceParams)
    ensures
        p.fields().len() == 3,
        p.fields()[0].label == "seed",
        p.fields()[0].value is Whole && p.fields()[0].value->Whole_0 == p.seed,
        counts_from(p.fields()[0].limits, 0, 4294967295),
        p.fields()[1].label == "type id",
        p.fields()[1].value is Whole && p.fields()[1].value->Whole_0 == p.type_id,
        counts_from(p.fields()[1].limits, 0, 65535),
        p.fields()[2].label == "prefab id",
        p.fields()[2].value is Whole && p.fields()[2].value->Whole_0 == p.prefab_id,
        counts_from(p.fields()[2].limits, 0, 4294967295),
{
    lemma2_to64();
}

/// The fields of a form for biome param parameters show each of them, within its limits.
pub proof fn biome_param_fields_show_the_parameters(p: BiomeParamParams)
    ensures
        p.fields().len() == 1,
        p.fields()[0].label == "default",
        p.fields()[0].value == FieldValue::Real(p.default),
        p.fields()[0].limits is Free,
{
    lemma2_to64();
}

/// The fields of a form for world param parameters show each of them, within its limits.
pub proof fn world_param_fields_show_the_parameters(p: WorldParamParams)
    ensures
        p.fields().len() == 1,
        p.fields()[0].label == "default",
        p.fields()[0].value == FieldValue::Real(p.default),
        p.fields()[0].limits is Free,
{
    lemma2_to64();
}

} // verus!
