//! Nodes: kinds, their static pin tables and descriptors.
use crate::boundary::{
    effective_views, resolved_views, EffectivePin, PinView, ResolvedBoundary, ResolvedPin,
};
use crate::ids::GraphKind;
use crate::params::{
    AbsParams, AddParams, BiomeContextMaskParams, BiomeParamParams, BuildTerrainParams,
    ClampParams, ConstantMaterialParams, ConstantParams, CurveMapperParams, DensityOutputParams,
    DensitySubtractParams, DomainWarpParams, FindFlatParams, FluidOutputParams, GraphOutputParams,
    GraphRefParams, IntersectParams, JitteredGridParams, LayerParams, LerpParams,
    LibraryRefParams, MaskParams, MaxParams, MinParams, MixParams, MultiplyParams, NoiseParams,
    OutputParams, PaintDensityParams, PlaceBlueprintParams, PlaceStructureParams, PlaceTreeParams,
    PoissonDiskParams, PoissonDistributionParams, QueueParams, RemapParams, RiverParams,
    ScatterPlaceParams, SpeciesPickerParams, SubtractParams, SurfaceFilterParams,
    SurfaceToDensityParams, TerrainOutputParams, ThresholdParams, UnionParams, WorldAxisParams,
    WorldOutputParams, WorldParamParams, WorldPosParams, YBandParams, ZoneOutputParams,
};
use crate::params::copy_vec;
use crate::pin::PinType;
use crate::scalar::Single;
use crate::voxel::MaterialId;
use vstd::prelude::*;

verus! {

/// Editor category of a node.
#[derive(Clone, Copy, PartialEq, Eq, Structural, Hash, Debug)]
pub enum NodeCategory {
    /// Noise and coordinate sources.
    Source,
    /// Arithmetic and logic.
    Math,
    /// Curve mapping and thresholds.
    Curves,
    /// Domain transforms.
    Domain,
    /// Density combinators.
    Density,
    /// Material providers.
    Material,
    /// Point-set generators.
    Positions,
    /// Surface scanners.
    Scanners,
    /// Prop placement.
    Props,
    /// Biome routing.
    Biome,
    /// Library graph references.
    Library,
    /// References into the hierarchy.
    Graph,
    /// Foliage placement.
    Foliage,
    /// Terminals.
    Output,
}

impl NodeCategory {
    /// Every category, in menu order.
    pub open spec fn menu() -> Seq<NodeCategory> {
        seq![
            NodeCategory::Source,
            NodeCategory::Math,
            NodeCategory::Curves,
            NodeCategory::Domain,
            NodeCategory::Density,
            NodeCategory::Material,
            NodeCategory::Positions,
            NodeCategory::Scanners,
            NodeCategory::Props,
            NodeCategory::Biome,
            NodeCategory::Library,
            NodeCategory::Graph,
            NodeCategory::Foliage,
            NodeCategory::Output,
        ]
    }

    /// Every category, in menu order.
    pub fn all() -> (r: Vec<NodeCategory>)
        ensures
            r@ == NodeCategory::menu(),
    {
        let mut out: Vec<NodeCategory> = Vec::new();
        out.push(NodeCategory::Source);
        out.push(NodeCategory::Math);
        out.push(NodeCategory::Curves);
        out.push(NodeCategory::Domain);
        out.push(NodeCategory::Density);
        out.push(NodeCategory::Material);
        out.push(NodeCategory::Positions);
        out.push(NodeCategory::Scanners);
        out.push(NodeCategory::Props);
        out.push(NodeCategory::Biome);
        out.push(NodeCategory::Library);
        out.push(NodeCategory::Graph);
        out.push(NodeCategory::Foliage);
        out.push(NodeCategory::Output);
        assert(out@ =~= NodeCategory::menu());
        out
    }
}

/// The menu lists every category, each once.
pub proof fn menu_is_complete(c: NodeCategory)
    ensures
        exists|i: int| 0 <= i < 14 && NodeCategory::menu()[i] == c,
        forall|i: int, j: int|
            0 <= i < j < 14 ==> NodeCategory::menu()[i] != NodeCategory::menu()[j],
{
    let m = NodeCategory::menu();
    assert(m[0] == NodeCategory::Source);
    assert(m[1] == NodeCategory::Math);
    assert(m[2] == NodeCategory::Curves);
    assert(m[3] == NodeCategory::Domain);
    assert(m[4] == NodeCategory::Density);
    assert(m[5] == NodeCategory::Material);
    assert(m[6] == NodeCategory::Positions);
    assert(m[7] == NodeCategory::Scanners);
    assert(m[8] == NodeCategory::Props);
    assert(m[9] == NodeCategory::Biome);
    assert(m[10] == NodeCategory::Library);
    assert(m[11] == NodeCategory::Graph);
    assert(m[12] == NodeCategory::Foliage);
    assert(m[13] == NodeCategory::Output);
}

/// Specification of a single pin on a node kind.
#[derive(Clone, Copy, PartialEq, Eq, Debug)]
pub struct PinSpec {
    /// Display name of the pin.
    pub name: &'static str,
    /// Type carried by the pin.
    pub ty: PinType,
    /// For input pins: whether a connection is mandatory for validity.
    pub required: bool,
}

impl PinSpec {
    /// The pin with its name as characters.
    pub open spec fn view(&self) -> PinView {
        PinView { name: self.name@, ty: self.ty, required: self.required }
    }
}

/// The views of a list of pin specifications.
pub open spec fn spec_views(pins: Seq<PinSpec>) -> Seq<PinView> {
    pins.map_values(|p: PinSpec| p@)
}

/// A pin, spelled shortly.
pub open spec fn pin(name: &str, ty: PinType, required: bool) -> PinView {
    PinView { name: name@, ty, required }
}

/// The pin tables that kinds share.
#[derive(Clone, Copy, PartialEq, Eq, Structural, Hash, Debug)]
pub enum PinTable {
    /// `position`.
    Vec3InOptional,
    /// `density`.
    NoiseOutputs,
    /// No pins.
    Nothing,
    /// `value`.
    ScalarOut,
    /// `pos`.
    Vec3Out,
    /// `out`.
    DensityOut,
    /// `a`, `b`.
    Density2in,
    /// `in`.
    DensityIn,
    /// `a`, `b`, `t`.
    Density3inLerp,
    /// `position`.
    Vec3InRequired,
    /// `surface`.
    SurfaceInAny,
    /// `a`, `b`, `factor`.
    Density3inMix,
    /// `signal`, `mask`.
    DensityMaskIn,
    /// `material`.
    MaterialOut,
    /// `primary`, `fallback`.
    QueueIn,
    /// `terrain`.
    TerrainTerminalIn,
    /// `density`, `material`.
    BuildTerrainIn,
    /// `terrain`.
    TerrainOut,
    /// `level`, `mask`.
    FluidOutputIn,
    /// `positions`.
    PositionsOut,
    /// `terrain`, `points`.
    ScanIn,
    /// `surface`.
    SurfaceOut,
    /// `zone field`.
    SurfaceInRequired,
    /// `biome field`.
    SurfaceInBiome,
    /// `value`.
    GraphOutputIn,
    /// `points`.
    PositionsIn,
    /// `assignments`.
    AssignmentsOut,
    /// `density`.
    SurfaceInOptional,
    /// `paint`.
    PaintOut,
    /// `assignments`.
    AssignmentsIn,
    /// `scatter`.
    ScatterOut,
}

impl PinTable {
    /// The pins of a table, in order.
    pub open spec fn pins(self) -> Seq<PinView> {
        match self {
            PinTable::Vec3InOptional => seq![
                pin("position", PinType::Vec3, false),
            ],
            PinTable::NoiseOutputs => seq![
                pin("density", PinType::Density, false),
            ],
            PinTable::Nothing => Seq::empty(),
            PinTable::ScalarOut => seq![
                pin("value", PinType::Scalar, false),
            ],
            PinTable::Vec3Out => seq![
                pin("pos", PinType::Vec3, false),
            ],
            PinTable::DensityOut => seq![
                pin("out", PinType::Density, false),
            ],
            PinTable::Density2in => seq![
                pin("a", PinType::Density, true),
                pin("b", PinType::Density, true),
            ],
            PinTable::DensityIn => seq![
                pin("in", PinType::Density, true),
            ],
            PinTable::Density3inLerp => seq![
                pin("a", PinType::Density, true),
                pin("b", PinType::Density, true),
                pin("t", PinType::Density, true),
            ],
            PinTable::Vec3InRequired => seq![
                pin("position", PinType::Vec3, true),
            ],
            PinTable::SurfaceInAny => seq![
                pin("surface", PinType::SurfaceField, true),
            ],
            PinTable::Density3inMix => seq![
                pin("a", PinType::Density, true),
                pin("b", PinType::Density, true),
                pin("factor", PinType::Density, true),
            ],
            PinTable::DensityMaskIn => seq![
                pin("signal", PinType::Density, true),
                pin("mask", PinType::Density, true),
            ],
            PinTable::MaterialOut => seq![
                pin("material", PinType::Material, false),
            ],
            PinTable::QueueIn => seq![
                pin("primary", PinType::Material, true),
                pin("fallback", PinType::Material, true),
            ],
            PinTable::TerrainTerminalIn => seq![
                pin("terrain", PinType::Terrain, true),
            ],
            PinTable::BuildTerrainIn => seq![
                pin("density", PinType::Density, true),
                pin("material", PinType::Material, true),
            ],
            PinTable::TerrainOut => seq![
                pin("terrain", PinType::Terrain, false),
            ],
            PinTable::FluidOutputIn => seq![
                pin("level", PinType::Scalar, true),
                pin("mask", PinType::Density, true),
            ],
            PinTable::PositionsOut => seq![
                pin("positions", PinType::Positions, false),
            ],
            PinTable::ScanIn => seq![
                pin("terrain", PinType::Terrain, true),
                pin("points", PinType::Positions, true),
            ],
            PinTable::SurfaceOut => seq![
                pin("surface", PinType::SurfaceField, false),
            ],
            PinTable::SurfaceInRequired => seq![
                pin("zone field", PinType::SurfaceField, true),
            ],
            PinTable::SurfaceInBiome => seq![
                pin("biome field", PinType::SurfaceField, true),
            ],
            PinTable::GraphOutputIn => seq![
                pin("value", PinType::SurfaceField, true),
            ],
            PinTable::PositionsIn => seq![
                pin("points", PinType::Positions, true),
            ],
            PinTable::AssignmentsOut => seq![
                pin("assignments", PinType::Assignments, false),
            ],
            PinTable::SurfaceInOptional => seq![
                pin("density", PinType::SurfaceField, false),
            ],
            PinTable::PaintOut => seq![
                pin("paint", PinType::PaintOutput, false),
            ],
            PinTable::AssignmentsIn => seq![
                pin("assignments", PinType::Assignments, true),
            ],
            PinTable::ScatterOut => seq![
                pin("scatter", PinType::ScatterOutput, false),
            ],
        }
    }

    /// The pins of a table, in order.
    pub fn specs(self) -> (r: Vec<PinSpec>)
        ensures
            spec_views(r@) == self.pins(),
    {
        let mut out: Vec<PinSpec> = Vec::new();
        match self {
            PinTable::Vec3InOptional => {
                out.push(PinSpec { name: "position", ty: PinType::Vec3, required: false });
            },
            PinTable::NoiseOutputs => {
                out.push(PinSpec { name: "density", ty: PinType::Density, required: false });
            },
            PinTable::Nothing => {},
            PinTable::ScalarOut => {
                out.push(PinSpec { name: "value", ty: PinType::Scalar, required: false });
            },
            PinTable::Vec3Out => {
                out.push(PinSpec { name: "pos", ty: PinType::Vec3, required: false });
            },
            PinTable::DensityOut => {
                out.push(PinSpec { name: "out", ty: PinType::Density, required: false });
            },
            PinTable::Density2in => {
                out.push(PinSpec { name: "a", ty: PinType::Density, required: true });
                out.push(PinSpec { name: "b", ty: PinType::Density, required: true });
            },
            PinTable::DensityIn => {
                out.push(PinSpec { name: "in", ty: PinType::Density, required: true });
            },
            PinTable::Density3inLerp => {
                out.push(PinSpec { name: "a", ty: PinType::Density, required: true });
                out.push(PinSpec { name: "b", ty: PinType::Density, required: true });
                out.push(PinSpec { name: "t", ty: PinType::Density, required: true });
            },
            PinTable::Vec3InRequired => {
                out.push(PinSpec { name: "position", ty: PinType::Vec3, required: true });
            },
            PinTable::SurfaceInAny => {
                out.push(PinSpec { name: "surface", ty: PinType::SurfaceField, required: true });
            },
            PinTable::Density3inMix => {
                out.push(PinSpec { name: "a", ty: PinType::Density, required: true });
                out.push(PinSpec { name: "b", ty: PinType::Density, required: true });
                out.push(PinSpec { name: "factor", ty: PinType::Density, required: true });
            },
            PinTable::DensityMaskIn => {
                out.push(PinSpec { name: "signal", ty: PinType::Density, required: true });
                out.push(PinSpec { name: "mask", ty: PinType::Density, required: true });
            },
            PinTable::MaterialOut => {
                out.push(PinSpec { name: "material", ty: PinType::Material, required: false });
            },
            PinTable::QueueIn => {
                out.push(PinSpec { name: "primary", ty: PinType::Material, required: true });
                out.push(PinSpec { name: "fallback", ty: PinType::Material, required: true });
            },
            PinTable::TerrainTerminalIn => {
                out.push(PinSpec { name: "terrain", ty: PinType::Terrain, required: true });
            },
            PinTable::BuildTerrainIn => {
                out.push(PinSpec { name: "density", ty: PinType::Density, required: true });
                out.push(PinSpec { name: "material", ty: PinType::Material, required: true });
            },
            PinTable::TerrainOut => {
                out.push(PinSpec { name: "terrain", ty: PinType::Terrain, required: false });
            },
            PinTable::FluidOutputIn => {
                out.push(PinSpec { name: "level", ty: PinType::Scalar, required: true });
                out.push(PinSpec { name: "mask", ty: PinType::Density, required: true });
            },
            PinTable::PositionsOut => {
                out.push(PinSpec { name: "positions", ty: PinType::Positions, required: false });
            },
            PinTable::ScanIn => {
                out.push(PinSpec { name: "terrain", ty: PinType::Terrain, required: true });
                out.push(PinSpec { name: "points", ty: PinType::Positions, required: true });
            },
            PinTable::SurfaceOut => {
                out.push(PinSpec { name: "surface", ty: PinType::SurfaceField, required: false });
            },
            PinTable::SurfaceInRequired => {
                out.push(PinSpec { name: "zone field", ty: PinType::SurfaceField, required: true });
            },
            PinTable::SurfaceInBiome => {
                out.push(PinSpec { name: "biome field", ty: PinType::SurfaceField, required: true });
            },
            PinTable::GraphOutputIn => {
                out.push(PinSpec { name: "value", ty: PinType::SurfaceField, required: true });
            },
            PinTable::PositionsIn => {
                out.push(PinSpec { name: "points", ty: PinType::Positions, required: true });
            },
            PinTable::AssignmentsOut => {
                out.push(PinSpec { name: "assignments", ty: PinType::Assignments, required: false });
            },
            PinTable::SurfaceInOptional => {
                out.push(PinSpec { name: "density", ty: PinType::SurfaceField, required: false });
            },
            PinTable::PaintOut => {
                out.push(PinSpec { name: "paint", ty: PinType::PaintOutput, required: false });
            },
            PinTable::AssignmentsIn => {
                out.push(PinSpec { name: "assignments", ty: PinType::Assignments, required: true });
            },
            PinTable::ScatterOut => {
                out.push(PinSpec { name: "scatter", ty: PinType::ScatterOutput, required: false });
            },
        }
        assert(spec_views(out@) =~= self.pins());
        out
    }
}

/// An editor color.
#[derive(Clone, Copy, PartialEq, Eq, Structural, Hash, Debug)]
pub struct Rgb {
    /// Red.
    pub r: u8,
    /// Green.
    pub g: u8,
    /// Blue.
    pub b: u8,
}

/// Display metadata and typed pins of a node kind.
#[derive(Clone, Debug)]
pub struct NodeDescriptor {
    /// Human-readable name.
    pub display_name: &'static str,
    /// Category.
    pub category: NodeCategory,
    /// Editor color.
    pub color: Rgb,
    /// Input pins, ordered. A pin's index is its position.
    pub inputs: Vec<PinSpec>,
    /// Output pins, ordered. A pin's index is its position.
    pub outputs: Vec<PinSpec>,
}

/// One row of the kind table: display name, category, color and pin tables.
#[derive(Clone, Copy, Debug)]
pub struct KindRow {
    /// Human-readable name.
    pub display_name: &'static str,
    /// Category.
    pub category: NodeCategory,
    /// Editor color.
    pub color: Rgb,
    /// Input pins.
    pub inputs: PinTable,
    /// Output pins.
    pub outputs: PinTable,
}

/// Polymorphic node kind. Each variant carries its parameters.
#[derive(PartialEq, Debug)]
pub enum NodeKind {
    /// Two-dimensional Perlin source, at an optional position input.
    Perlin2D(NoiseParams),
    /// Three-dimensional Perlin source, at an optional position input.
    Perlin3D(NoiseParams),
    /// Two-dimensional simplex source, at an optional position input.
    Simplex2D(NoiseParams),
    /// Three-dimensional simplex source, at an optional position input.
    Simplex3D(NoiseParams),
    /// Uniform scalar source.
    Constant(ConstantParams),
    /// World-space position field.
    WorldPos(WorldPosParams),
    /// One world coordinate as a scalar field.
    WorldAxis(WorldAxisParams),
    /// One inside a vertical band, zero elsewhere.
    YBand(YBandParams),
    /// Sum of two density fields.
    Add(AddParams),
    /// Elementwise product.
    Multiply(MultiplyParams),
    /// Elementwise difference.
    Subtract(SubtractParams),
    /// Elementwise minimum.
    Min(MinParams),
    /// Elementwise maximum.
    Max(MaxParams),
    /// Clamp into a configured range.
    Clamp(ClampParams),
    /// Interpolate between two fields by a third.
    Lerp(LerpParams),
    /// Linear remap between two ranges.
    Remap(RemapParams),
    /// Binarize a field about a threshold.
    Threshold(ThresholdParams),
    /// Piecewise-linear curve lookup.
    CurveMapper(CurveMapperParams),
    /// Displace a position field horizontally by noise.
    DomainWarp(DomainWarpParams),
    /// Absolute value.
    Abs(AbsParams),
    /// Lift a per-column field into a density field, constant down each column.
    SurfaceToDensity(SurfaceToDensityParams),
    /// The larger of two densities.
    Union(UnionParams),
    /// The smaller of two densities.
    Intersect(IntersectParams),
    /// One density without the other.
    DensitySubtract(DensitySubtractParams),
    /// Interpolate between two densities by a factor clamped to the unit range.
    Mix(MixParams),
    /// A signal scaled by a mask clamped to the unit range.
    Mask(MaskParams),
    /// Uniform material source.
    ConstantMaterial(ConstantMaterialParams),
    /// Top-down material stacking below the surface.
    Layer(LayerParams),
    /// The first material unless it is air, then the second.
    Queue(QueueParams),
    /// Terrain terminal.
    TerrainOutput(TerrainOutputParams),
    /// Build voxels from a density and a material field.
    BuildTerrain(BuildTerrainParams),
    /// Biome terminal: density and material as the biome's contribution.
    DensityOutput(DensityOutputParams),
    /// Biome fluid terminal: a water level where a mask is positive.
    FluidOutput(FluidOutputParams),
    /// Jittered-grid point scatter.
    JitteredGrid(JitteredGridParams),
    /// Blue-noise point scatter.
    PoissonDisk(PoissonDiskParams),
    /// Annotate points with their surface height; reject steep or wrong-material spots.
    FindFlat(FindFlatParams),
    /// Declare a tree source on the owning zone graph. Carries no pins.
    PlaceTree(PlaceTreeParams),
    /// Stamp a named blueprint at each point.
    PlaceBlueprint(PlaceBlueprintParams),
    /// Carve a river network out of a density field.
    River(RiverParams),
    /// Declare a structure source on the owning zone graph. Carries no pins.
    PlaceStructure(PlaceStructureParams),
    /// World-space noise as a per-column climate channel.
    SurfaceNoise(NoiseParams),
    /// World graph terminal: a zone id per column.
    WorldOutput(WorldOutputParams),
    /// Zone graph terminal: a biome id per column.
    ZoneOutput(ZoneOutputParams),
    /// Reference to a library graph, exposing its boundary as this node's pins.
    LibraryRef(LibraryRefParams),
    /// Reference to a graph of the hierarchy, exposing its boundary outputs as this node's pins.
    GraphRef(GraphRefParams),
    /// Mark its input as a named boundary output of this graph.
    GraphOutput(GraphOutputParams),
    /// Terminal consuming one density.
    Output(OutputParams),
    /// Candidate points over the chunk footprint.
    PoissonDistribution(PoissonDistributionParams),
    /// Filter candidates by slope, height and material.
    SurfaceFilter(SurfaceFilterParams),
    /// Filter candidates to a biome.
    BiomeContextMask(BiomeContextMaskParams),
    /// Assign each candidate a species by weighted choice.
    SpeciesPicker(SpeciesPickerParams),
    /// Terminal writing a foliage paint layer.
    PaintDensity(PaintDensityParams),
    /// Terminal writing scatter instances.
    ScatterPlace(ScatterPlaceParams),
    /// Read a named per-biome scalar.
    BiomeParam(BiomeParamParams),
    /// Read a named world scalar.
    WorldParam(WorldParamParams),
}

impl NodeKind {
    /// The row of this kind in the kind table.
    pub open spec fn row(self) -> KindRow {
        match self {
            NodeKind::Perlin2D(_) => KindRow {
                display_name: "Perlin 2D",
                category: NodeCategory::Source,
                color: Rgb { r: 0x4c, g: 0x9a, b: 0xff },
                inputs: PinTable::Vec3InOptional,
                outputs: PinTable::NoiseOutputs,
            },
            NodeKind::Perlin3D(_) => KindRow {
                display_name: "Perlin 3D",
                category: NodeCategory::Source,
                color: Rgb { r: 0x4c, g: 0x9a, b: 0xff },
                inputs: PinTable::Vec3InOptional,
                outputs: PinTable::NoiseOutputs,
            },
            NodeKind::Simplex2D(_) => KindRow {
                display_name: "Simplex 2D",
                category: NodeCategory::Source,
                color: Rgb { r: 0x4c, g: 0x9a, b: 0xff },
                inputs: PinTable::Vec3InOptional,
                outputs: PinTable::NoiseOutputs,
            },
            NodeKind::Simplex3D(_) => KindRow {
                display_name: "Simplex 3D",
                category: NodeCategory::Source,
                color: Rgb { r: 0x4c, g: 0x9a, b: 0xff },
                inputs: PinTable::Vec3InOptional,
                outputs: PinTable::NoiseOutputs,
            },
            NodeKind::Constant(_) => KindRow {
                display_name: "Constant",
                category: NodeCategory::Source,
                color: Rgb { r: 0x4c, g: 0x9a, b: 0xff },
                inputs: PinTable::Nothing,
                outputs: PinTable::ScalarOut,
            },
            NodeKind::WorldPos(_) => KindRow {
                display_name: "World Position",
                category: NodeCategory::Source,
                color: Rgb { r: 0x4c, g: 0x9a, b: 0xff },
                inputs: PinTable::Nothing,
                outputs: PinTable::Vec3Out,
            },
            NodeKind::WorldAxis(_) => KindRow {
                display_name: "World Axis",
                category: NodeCategory::Source,
                color: Rgb { r: 0x4c, g: 0x9a, b: 0xff },
                inputs: PinTable::Nothing,
                outputs: PinTable::ScalarOut,
            },
            NodeKind::YBand(_) => KindRow {
                display_name: "Y Band",
                category: NodeCategory::Source,
                color: Rgb { r: 0x4c, g: 0x9a, b: 0xff },
                inputs: PinTable::Nothing,
                outputs: PinTable::DensityOut,
            },
            NodeKind::Add(_) => KindRow {
                display_name: "Add",
                category: NodeCategory::Math,
                color: Rgb { r: 0x9c, g: 0x7c, b: 0xff },
                inputs: PinTable::Density2in,
                outputs: PinTable::DensityOut,
            },
            NodeKind::Multiply(_) => KindRow {
                display_name: "Multiply",
                category: NodeCategory::Math,
                color: Rgb { r: 0x9c, g: 0x7c, b: 0xff },
                inputs: PinTable::Density2in,
                outputs: PinTable::DensityOut,
            },
            NodeKind::Subtract(_) => KindRow {
                display_name: "Subtract",
                category: NodeCategory::Math,
                color: Rgb { r: 0x9c, g: 0x7c, b: 0xff },
                inputs: PinTable::Density2in,
                outputs: PinTable::DensityOut,
            },
            NodeKind::Min(_) => KindRow {
                display_name: "Min",
                category: NodeCategory::Math,
                color: Rgb { r: 0x9c, g: 0x7c, b: 0xff },
                inputs: PinTable::Density2in,
                outputs: PinTable::DensityOut,
            },
            NodeKind::Max(_) => KindRow {
                display_name: "Max",
                category: NodeCategory::Math,
                color: Rgb { r: 0x9c, g: 0x7c, b: 0xff },
                inputs: PinTable::Density2in,
                outputs: PinTable::DensityOut,
            },
            NodeKind::Clamp(_) => KindRow {
                display_name: "Clamp",
                category: NodeCategory::Math,
                color: Rgb { r: 0x9c, g: 0x7c, b: 0xff },
                inputs: PinTable::DensityIn,
                outputs: PinTable::DensityOut,
            },
            NodeKind::Lerp(_) => KindRow {
                display_name: "Lerp",
                category: NodeCategory::Math,
                color: Rgb { r: 0x9c, g: 0x7c, b: 0xff },
                inputs: PinTable::Density3inLerp,
                outputs: PinTable::DensityOut,
            },
            NodeKind::Remap(_) => KindRow {
                display_name: "Remap",
                category: NodeCategory::Math,
                color: Rgb { r: 0x9c, g: 0x7c, b: 0xff },
                inputs: PinTable::DensityIn,
                outputs: PinTable::DensityOut,
            },
            NodeKind::Threshold(_) => KindRow {
                display_name: "Threshold",
                category: NodeCategory::Curves,
                color: Rgb { r: 0xff, g: 0xb3, b: 0x4c },
                inputs: PinTable::DensityIn,
                outputs: PinTable::DensityOut,
            },
            NodeKind::CurveMapper(_) => KindRow {
                display_name: "Curve Mapper",
                category: NodeCategory::Curves,
                color: Rgb { r: 0xff, g: 0xb3, b: 0x4c },
                inputs: PinTable::DensityIn,
                outputs: PinTable::DensityOut,
            },
            NodeKind::DomainWarp(_) => KindRow {
                display_name: "Domain Warp",
                category: NodeCategory::Domain,
                color: Rgb { r: 0xff, g: 0x7c, b: 0xc4 },
                inputs: PinTable::Vec3InRequired,
                outputs: PinTable::Vec3Out,
            },
            NodeKind::Abs(_) => KindRow {
                display_name: "Abs",
                category: NodeCategory::Math,
                color: Rgb { r: 0x9c, g: 0x7c, b: 0xff },
                inputs: PinTable::DensityIn,
                outputs: PinTable::DensityOut,
            },
            NodeKind::SurfaceToDensity(_) => KindRow {
                display_name: "Surface To Density",
                category: NodeCategory::Density,
                color: Rgb { r: 0x6c, g: 0xc0, b: 0x6c },
                inputs: PinTable::SurfaceInAny,
                outputs: PinTable::DensityOut,
            },
            NodeKind::Union(_) => KindRow {
                display_name: "Union",
                category: NodeCategory::Density,
                color: Rgb { r: 0x6c, g: 0xc0, b: 0x6c },
                inputs: PinTable::Density2in,
                outputs: PinTable::DensityOut,
            },
            NodeKind::Intersect(_) => KindRow {
                display_name: "Intersect",
                category: NodeCategory::Density,
                color: Rgb { r: 0x6c, g: 0xc0, b: 0x6c },
                inputs: PinTable::Density2in,
                outputs: PinTable::DensityOut,
            },
            NodeKind::DensitySubtract(_) => KindRow {
                display_name: "Density Subtract",
                category: NodeCategory::Density,
                color: Rgb { r: 0x6c, g: 0xc0, b: 0x6c },
                inputs: PinTable::Density2in,
                outputs: PinTable::DensityOut,
            },
            NodeKind::Mix(_) => KindRow {
                display_name: "Mix",
                category: NodeCategory::Density,
                color: Rgb { r: 0x6c, g: 0xc0, b: 0x6c },
                inputs: PinTable::Density3inMix,
                outputs: PinTable::DensityOut,
            },
            NodeKind::Mask(_) => KindRow {
                display_name: "Mask",
                category: NodeCategory::Density,
                color: Rgb { r: 0x6c, g: 0xc0, b: 0x6c },
                inputs: PinTable::DensityMaskIn,
                outputs: PinTable::DensityOut,
            },
            NodeKind::ConstantMaterial(_) => KindRow {
                display_name: "Constant Material",
                category: NodeCategory::Material,
                color: Rgb { r: 0xe0, g: 0x4c, b: 0x4c },
                inputs: PinTable::Nothing,
                outputs: PinTable::MaterialOut,
            },
            NodeKind::Layer(_) => KindRow {
                display_name: "Layer",
                category: NodeCategory::Material,
                color: Rgb { r: 0xe0, g: 0x4c, b: 0x4c },
                inputs: PinTable::DensityIn,
                outputs: PinTable::MaterialOut,
            },
            NodeKind::Queue(_) => KindRow {
                display_name: "Queue",
                category: NodeCategory::Material,
                color: Rgb { r: 0xe0, g: 0x4c, b: 0x4c },
                inputs: PinTable::QueueIn,
                outputs: PinTable::MaterialOut,
            },
            NodeKind::TerrainOutput(_) => KindRow {
                display_name: "Terrain Output",
                category: NodeCategory::Output,
                color: Rgb { r: 0xe0, g: 0x4c, b: 0x4c },
                inputs: PinTable::TerrainTerminalIn,
                outputs: PinTable::Nothing,
            },
            NodeKind::BuildTerrain(_) => KindRow {
                display_name: "Build Terrain",
                category: NodeCategory::Material,
                color: Rgb { r: 0xe0, g: 0x4c, b: 0x4c },
                inputs: PinTable::BuildTerrainIn,
                outputs: PinTable::TerrainOut,
            },
            NodeKind::DensityOutput(_) => KindRow {
                display_name: "Density Output",
                category: NodeCategory::Output,
                color: Rgb { r: 0xe0, g: 0x4c, b: 0x4c },
                inputs: PinTable::BuildTerrainIn,
                outputs: PinTable::Nothing,
            },
            NodeKind::FluidOutput(_) => KindRow {
                display_name: "Fluid Output",
                category: NodeCategory::Output,
                color: Rgb { r: 0xe0, g: 0x4c, b: 0x4c },
                inputs: PinTable::FluidOutputIn,
                outputs: PinTable::Nothing,
            },
            NodeKind::JitteredGrid(_) => KindRow {
                display_name: "Jittered Grid",
                category: NodeCategory::Positions,
                color: Rgb { r: 0xe0, g: 0xc0, b: 0x4c },
                inputs: PinTable::Nothing,
                outputs: PinTable::PositionsOut,
            },
            NodeKind::PoissonDisk(_) => KindRow {
                display_name: "Poisson Disk",
                category: NodeCategory::Positions,
                color: Rgb { r: 0xe0, g: 0xc0, b: 0x4c },
                inputs: PinTable::Nothing,
                outputs: PinTable::PositionsOut,
            },
            NodeKind::FindFlat(_) => KindRow {
                display_name: "Find Flat",
                category: NodeCategory::Scanners,
                color: Rgb { r: 0xb0, g: 0xb0, b: 0xc0 },
                inputs: PinTable::ScanIn,
                outputs: PinTable::PositionsOut,
            },
            NodeKind::PlaceTree(_) => KindRow {
                display_name: "Place Tree",
                category: NodeCategory::Props,
                color: Rgb { r: 0xc8, g: 0x90, b: 0x60 },
                inputs: PinTable::Nothing,
                outputs: PinTable::Nothing,
            },
            NodeKind::PlaceBlueprint(_) => KindRow {
                display_name: "Place Blueprint",
                category: NodeCategory::Props,
                color: Rgb { r: 0xc8, g: 0x90, b: 0x60 },
                inputs: PinTable::ScanIn,
                outputs: PinTable::TerrainOut,
            },
            NodeKind::River(_) => KindRow {
                display_name: "River",
                category: NodeCategory::Density,
                color: Rgb { r: 0x6c, g: 0xc0, b: 0x6c },
                inputs: PinTable::DensityIn,
                outputs: PinTable::DensityOut,
            },
            NodeKind::PlaceStructure(_) => KindRow {
                display_name: "Place Structure",
                category: NodeCategory::Props,
                color: Rgb { r: 0xc8, g: 0x90, b: 0x60 },
                inputs: PinTable::Nothing,
                outputs: PinTable::Nothing,
            },
            NodeKind::SurfaceNoise(_) => KindRow {
                display_name: "Surface Noise",
                category: NodeCategory::Source,
                color: Rgb { r: 0x4c, g: 0x9a, b: 0xff },
                inputs: PinTable::Nothing,
                outputs: PinTable::SurfaceOut,
            },
            NodeKind::WorldOutput(_) => KindRow {
                display_name: "World Output",
                category: NodeCategory::Output,
                color: Rgb { r: 0xe0, g: 0x4c, b: 0x4c },
                inputs: PinTable::SurfaceInRequired,
                outputs: PinTable::Nothing,
            },
            NodeKind::ZoneOutput(_) => KindRow {
                display_name: "Zone Output",
                category: NodeCategory::Output,
                color: Rgb { r: 0xe0, g: 0x4c, b: 0x4c },
                inputs: PinTable::SurfaceInBiome,
                outputs: PinTable::Nothing,
            },
            NodeKind::LibraryRef(_) => KindRow {
                display_name: "Library Ref",
                category: NodeCategory::Library,
                color: Rgb { r: 0xb0, g: 0x80, b: 0xff },
                inputs: PinTable::Nothing,
                outputs: PinTable::Nothing,
            },
            NodeKind::GraphRef(_) => KindRow {
                display_name: "Graph Ref",
                category: NodeCategory::Graph,
                color: Rgb { r: 0x80, g: 0xa0, b: 0xff },
                inputs: PinTable::Nothing,
                outputs: PinTable::Nothing,
            },
            NodeKind::GraphOutput(_) => KindRow {
                display_name: "Graph Output",
                category: NodeCategory::Output,
                color: Rgb { r: 0xe0, g: 0x4c, b: 0x4c },
                inputs: PinTable::GraphOutputIn,
                outputs: PinTable::Nothing,
            },
            NodeKind::Output(_) => KindRow {
                display_name: "Output",
                category: NodeCategory::Output,
                color: Rgb { r: 0xe0, g: 0x4c, b: 0x4c },
                inputs: PinTable::DensityIn,
                outputs: PinTable::Nothing,
            },
            NodeKind::PoissonDistribution(_) => KindRow {
                display_name: "Poisson Distribution",
                category: NodeCategory::Foliage,
                color: Rgb { r: 0x6c, g: 0xb0, b: 0x4c },
                inputs: PinTable::Nothing,
                outputs: PinTable::PositionsOut,
            },
            NodeKind::SurfaceFilter(_) => KindRow {
                display_name: "Surface Filter",
                category: NodeCategory::Foliage,
                color: Rgb { r: 0x6c, g: 0xb0, b: 0x4c },
                inputs: PinTable::PositionsIn,
                outputs: PinTable::PositionsOut,
            },
            NodeKind::BiomeContextMask(_) => KindRow {
                display_name: "Biome Context Mask",
                category: NodeCategory::Foliage,
                color: Rgb { r: 0x6c, g: 0xb0, b: 0x4c },
                inputs: PinTable::PositionsIn,
                outputs: PinTable::PositionsOut,
            },
            NodeKind::SpeciesPicker(_) => KindRow {
                display_name: "Species Picker",
                category: NodeCategory::Foliage,
                color: Rgb { r: 0x6c, g: 0xb0, b: 0x4c },
                inputs: PinTable::PositionsIn,
                outputs: PinTable::AssignmentsOut,
            },
            NodeKind::PaintDensity(_) => KindRow {
                display_name: "Paint Density",
                category: NodeCategory::Foliage,
                color: Rgb { r: 0x6c, g: 0xb0, b: 0x4c },
                inputs: PinTable::SurfaceInOptional,
                outputs: PinTable::PaintOut,
            },
            NodeKind::ScatterPlace(_) => KindRow {
                display_name: "Scatter Place",
                category: NodeCategory::Foliage,
                color: Rgb { r: 0x6c, g: 0xb0, b: 0x4c },
                inputs: PinTable::AssignmentsIn,
                outputs: PinTable::ScatterOut,
            },
            NodeKind::BiomeParam(_) => KindRow {
                display_name: "Biome Param",
                category: NodeCategory::Biome,
                color: Rgb { r: 0x4c, g: 0x9a, b: 0xff },
                inputs: PinTable::Nothing,
                outputs: PinTable::ScalarOut,
            },
            NodeKind::WorldParam(_) => KindRow {
                display_name: "World Param",
                category: NodeCategory::Source,
                color: Rgb { r: 0x4c, g: 0x9a, b: 0xff },
                inputs: PinTable::Nothing,
                outputs: PinTable::ScalarOut,
            },
        }
    }

    fn row_of(&self) -> (r: KindRow)
        ensures
            r == self.row(),
    {
        match self {
            NodeKind::Perlin2D(_) => KindRow {
                display_name: "Perlin 2D",
                category: NodeCategory::Source,
                color: Rgb { r: 0x4c, g: 0x9a, b: 0xff },
                inputs: PinTable::Vec3InOptional,
                outputs: PinTable::NoiseOutputs,
            },
            NodeKind::Perlin3D(_) => KindRow {
                display_name: "Perlin 3D",
                category: NodeCategory::Source,
                color: Rgb { r: 0x4c, g: 0x9a, b: 0xff },
                inputs: PinTable::Vec3InOptional,
                outputs: PinTable::NoiseOutputs,
            },
            NodeKind::Simplex2D(_) => KindRow {
                display_name: "Simplex 2D",
                category: NodeCategory::Source,
                color: Rgb { r: 0x4c, g: 0x9a, b: 0xff },
                inputs: PinTable::Vec3InOptional,
                outputs: PinTable::NoiseOutputs,
            },
            NodeKind::Simplex3D(_) => KindRow {
                display_name: "Simplex 3D",
                category: NodeCategory::Source,
                color: Rgb { r: 0x4c, g: 0x9a, b: 0xff },
                inputs: PinTable::Vec3InOptional,
                outputs: PinTable::NoiseOutputs,
            },
            NodeKind::Constant(_) => KindRow {
                display_name: "Constant",
                category: NodeCategory::Source,
                color: Rgb { r: 0x4c, g: 0x9a, b: 0xff },
                inputs: PinTable::Nothing,
                outputs: PinTable::ScalarOut,
            },
            NodeKind::WorldPos(_) => KindRow {
                display_name: "World Position",
                category: NodeCategory::Source,
                color: Rgb { r: 0x4c, g: 0x9a, b: 0xff },
                inputs: PinTable::Nothing,
                outputs: PinTable::Vec3Out,
            },
            NodeKind::WorldAxis(_) => KindRow {
                display_name: "World Axis",
                category: NodeCategory::Source,
                color: Rgb { r: 0x4c, g: 0x9a, b: 0xff },
                inputs: PinTable::Nothing,
                outputs: PinTable::ScalarOut,
            },
            NodeKind::YBand(_) => KindRow {
                display_name: "Y Band",
                category: NodeCategory::Source,
                color: Rgb { r: 0x4c, g: 0x9a, b: 0xff },
                inputs: PinTable::Nothing,
                outputs: PinTable::DensityOut,
            },
            NodeKind::Add(_) => KindRow {
                display_name: "Add",
                category: NodeCategory::Math,
                color: Rgb { r: 0x9c, g: 0x7c, b: 0xff },
                inputs: PinTable::Density2in,
                outputs: PinTable::DensityOut,
            },
            NodeKind::Multiply(_) => KindRow {
                display_name: "Multiply",
                category: NodeCategory::Math,
                color: Rgb { r: 0x9c, g: 0x7c, b: 0xff },
                inputs: PinTable::Density2in,
                outputs: PinTable::DensityOut,
            },
            NodeKind::Subtract(_) => KindRow {
                display_name: "Subtract",
                category: NodeCategory::Math,
                color: Rgb { r: 0x9c, g: 0x7c, b: 0xff },
                inputs: PinTable::Density2in,
                outputs: PinTable::DensityOut,
            },
            NodeKind::Min(_) => KindRow {
                display_name: "Min",
                category: NodeCategory::Math,
                color: Rgb { r: 0x9c, g: 0x7c, b: 0xff },
                inputs: PinTable::Density2in,
                outputs: PinTable::DensityOut,
            },
            NodeKind::Max(_) => KindRow {
                display_name: "Max",
                category: NodeCategory::Math,
                color: Rgb { r: 0x9c, g: 0x7c, b: 0xff },
                inputs: PinTable::Density2in,
                outputs: PinTable::DensityOut,
            },
            NodeKind::Clamp(_) => KindRow {
                display_name: "Clamp",
                category: NodeCategory::Math,
                color: Rgb { r: 0x9c, g: 0x7c, b: 0xff },
                inputs: PinTable::DensityIn,
                outputs: PinTable::DensityOut,
            },
            NodeKind::Lerp(_) => KindRow {
                display_name: "Lerp",
                category: NodeCategory::Math,
                color: Rgb { r: 0x9c, g: 0x7c, b: 0xff },
                inputs: PinTable::Density3inLerp,
                outputs: PinTable::DensityOut,
            },
            NodeKind::Remap(_) => KindRow {
                display_name: "Remap",
                category: NodeCategory::Math,
                color: Rgb { r: 0x9c, g: 0x7c, b: 0xff },
                inputs: PinTable::DensityIn,
                outputs: PinTable::DensityOut,
            },
            NodeKind::Threshold(_) => KindRow {
                display_name: "Threshold",
                category: NodeCategory::Curves,
                color: Rgb { r: 0xff, g: 0xb3, b: 0x4c },
                inputs: PinTable::DensityIn,
                outputs: PinTable::DensityOut,
            },
            NodeKind::CurveMapper(_) => KindRow {
                display_name: "Curve Mapper",
                category: NodeCategory::Curves,
                color: Rgb { r: 0xff, g: 0xb3, b: 0x4c },
                inputs: PinTable::DensityIn,
                outputs: PinTable::DensityOut,
            },
            NodeKind::DomainWarp(_) => KindRow {
                display_name: "Domain Warp",
                category: NodeCategory::Domain,
                color: Rgb { r: 0xff, g: 0x7c, b: 0xc4 },
                inputs: PinTable::Vec3InRequired,
                outputs: PinTable::Vec3Out,
            },
            NodeKind::Abs(_) => KindRow {
                display_name: "Abs",
                category: NodeCategory::Math,
                color: Rgb { r: 0x9c, g: 0x7c, b: 0xff },
                inputs: PinTable::DensityIn,
                outputs: PinTable::DensityOut,
            },
            NodeKind::SurfaceToDensity(_) => KindRow {
                display_name: "Surface To Density",
                category: NodeCategory::Density,
                color: Rgb { r: 0x6c, g: 0xc0, b: 0x6c },
                inputs: PinTable::SurfaceInAny,
                outputs: PinTable::DensityOut,
            },
            NodeKind::Union(_) => KindRow {
                display_name: "Union",
                category: NodeCategory::Density,
                color: Rgb { r: 0x6c, g: 0xc0, b: 0x6c },
                inputs: PinTable::Density2in,
                outputs: PinTable::DensityOut,
            },
            NodeKind::Intersect(_) => KindRow {
                display_name: "Intersect",
                category: NodeCategory::Density,
                color: Rgb { r: 0x6c, g: 0xc0, b: 0x6c },
                inputs: PinTable::Density2in,
                outputs: PinTable::DensityOut,
            },
            NodeKind::DensitySubtract(_) => KindRow {
                display_name: "Density Subtract",
                category: NodeCategory::Density,
                color: Rgb { r: 0x6c, g: 0xc0, b: 0x6c },
                inputs: PinTable::Density2in,
                outputs: PinTable::DensityOut,
            },
            NodeKind::Mix(_) => KindRow {
                display_name: "Mix",
                category: NodeCategory::Density,
                color: Rgb { r: 0x6c, g: 0xc0, b: 0x6c },
                inputs: PinTable::Density3inMix,
                outputs: PinTable::DensityOut,
            },
            NodeKind::Mask(_) => KindRow {
                display_name: "Mask",
                category: NodeCategory::Density,
                color: Rgb { r: 0x6c, g: 0xc0, b: 0x6c },
                inputs: PinTable::DensityMaskIn,
                outputs: PinTable::DensityOut,
            },
            NodeKind::ConstantMaterial(_) => KindRow {
                display_name: "Constant Material",
                category: NodeCategory::Material,
                color: Rgb { r: 0xe0, g: 0x4c, b: 0x4c },
                inputs: PinTable::Nothing,
                outputs: PinTable::MaterialOut,
            },
            NodeKind::Layer(_) => KindRow {
                display_name: "Layer",
                category: NodeCategory::Material,
                color: Rgb { r: 0xe0, g: 0x4c, b: 0x4c },
                inputs: PinTable::DensityIn,
                outputs: PinTable::MaterialOut,
            },
            NodeKind::Queue(_) => KindRow {
                display_name: "Queue",
                category: NodeCategory::Material,
                color: Rgb { r: 0xe0, g: 0x4c, b: 0x4c },
                inputs: PinTable::QueueIn,
                outputs: PinTable::MaterialOut,
            },
            NodeKind::TerrainOutput(_) => KindRow {
                display_name: "Terrain Output",
                category: NodeCategory::Output,
                color: Rgb { r: 0xe0, g: 0x4c, b: 0x4c },
                inputs: PinTable::TerrainTerminalIn,
                outputs: PinTable::Nothing,
            },
            NodeKind::BuildTerrain(_) => KindRow {
                display_name: "Build Terrain",
                category: NodeCategory::Material,
                color: Rgb { r: 0xe0, g: 0x4c, b: 0x4c },
                inputs: PinTable::BuildTerrainIn,
                outputs: PinTable::TerrainOut,
            },
            NodeKind::DensityOutput(_) => KindRow {
                display_name: "Density Output",
                category: NodeCategory::Output,
                color: Rgb { r: 0xe0, g: 0x4c, b: 0x4c },
                inputs: PinTable::BuildTerrainIn,
                outputs: PinTable::Nothing,
            },
            NodeKind::FluidOutput(_) => KindRow {
                display_name: "Fluid Output",
                category: NodeCategory::Output,
                color: Rgb { r: 0xe0, g: 0x4c, b: 0x4c },
                inputs: PinTable::FluidOutputIn,
                outputs: PinTable::Nothing,
            },
            NodeKind::JitteredGrid(_) => KindRow {
                display_name: "Jittered Grid",
                category: NodeCategory::Positions,
                color: Rgb { r: 0xe0, g: 0xc0, b: 0x4c },
                inputs: PinTable::Nothing,
                outputs: PinTable::PositionsOut,
            },
            NodeKind::PoissonDisk(_) => KindRow {
                display_name: "Poisson Disk",
                category: NodeCategory::Positions,
                color: Rgb { r: 0xe0, g: 0xc0, b: 0x4c },
                inputs: PinTable::Nothing,
                outputs: PinTable::PositionsOut,
            },
            NodeKind::FindFlat(_) => KindRow {
                display_name: "Find Flat",
                category: NodeCategory::Scanners,
                color: Rgb { r: 0xb0, g: 0xb0, b: 0xc0 },
                inputs: PinTable::ScanIn,
                outputs: PinTable::PositionsOut,
            },
            NodeKind::PlaceTree(_) => KindRow {
                display_name: "Place Tree",
                category: NodeCategory::Props,
                color: Rgb { r: 0xc8, g: 0x90, b: 0x60 },
                inputs: PinTable::Nothing,
                outputs: PinTable::Nothing,
            },
            NodeKind::PlaceBlueprint(_) => KindRow {
                display_name: "Place Blueprint",
                category: NodeCategory::Props,
                color: Rgb { r: 0xc8, g: 0x90, b: 0x60 },
                inputs: PinTable::ScanIn,
                outputs: PinTable::TerrainOut,
            },
            NodeKind::River(_) => KindRow {
                display_name: "River",
                category: NodeCategory::Density,
                color: Rgb { r: 0x6c, g: 0xc0, b: 0x6c },
                inputs: PinTable::DensityIn,
                outputs: PinTable::DensityOut,
            },
            NodeKind::PlaceStructure(_) => KindRow {
                display_name: "Place Structure",
                category: NodeCategory::Props,
                color: Rgb { r: 0xc8, g: 0x90, b: 0x60 },
                inputs: PinTable::Nothing,
                outputs: PinTable::Nothing,
            },
            NodeKind::SurfaceNoise(_) => KindRow {
                display_name: "Surface Noise",
                category: NodeCategory::Source,
                color: Rgb { r: 0x4c, g: 0x9a, b: 0xff },
                inputs: PinTable::Nothing,
                outputs: PinTable::SurfaceOut,
            },
            NodeKind::WorldOutput(_) => KindRow {
                display_name: "World Output",
                category: NodeCategory::Output,
                color: Rgb { r: 0xe0, g: 0x4c, b: 0x4c },
                inputs: PinTable::SurfaceInRequired,
                outputs: PinTable::Nothing,
            },
            NodeKind::ZoneOutput(_) => KindRow {
                display_name: "Zone Output",
                category: NodeCategory::Output,
                color: Rgb { r: 0xe0, g: 0x4c, b: 0x4c },
                inputs: PinTable::SurfaceInBiome,
                outputs: PinTable::Nothing,
            },
            NodeKind::LibraryRef(_) => KindRow {
                display_name: "Library Ref",
                category: NodeCategory::Library,
                color: Rgb { r: 0xb0, g: 0x80, b: 0xff },
                inputs: PinTable::Nothing,
                outputs: PinTable::Nothing,
            },
            NodeKind::GraphRef(_) => KindRow {
                display_name: "Graph Ref",
                category: NodeCategory::Graph,
                color: Rgb { r: 0x80, g: 0xa0, b: 0xff },
                inputs: PinTable::Nothing,
                outputs: PinTable::Nothing,
            },
            NodeKind::GraphOutput(_) => KindRow {
                display_name: "Graph Output",
                category: NodeCategory::Output,
                color: Rgb { r: 0xe0, g: 0x4c, b: 0x4c },
                inputs: PinTable::GraphOutputIn,
                outputs: PinTable::Nothing,
            },
            NodeKind::Output(_) => KindRow {
                display_name: "Output",
                category: NodeCategory::Output,
                color: Rgb { r: 0xe0, g: 0x4c, b: 0x4c },
                inputs: PinTable::DensityIn,
                outputs: PinTable::Nothing,
            },
            NodeKind::PoissonDistribution(_) => KindRow {
                display_name: "Poisson Distribution",
                category: NodeCategory::Foliage,
                color: Rgb { r: 0x6c, g: 0xb0, b: 0x4c },
                inputs: PinTable::Nothing,
                outputs: PinTable::PositionsOut,
            },
            NodeKind::SurfaceFilter(_) => KindRow {
                display_name: "Surface Filter",
                category: NodeCategory::Foliage,
                color: Rgb { r: 0x6c, g: 0xb0, b: 0x4c },
                inputs: PinTable::PositionsIn,
                outputs: PinTable::PositionsOut,
            },
            NodeKind::BiomeContextMask(_) => KindRow {
                display_name: "Biome Context Mask",
                category: NodeCategory::Foliage,
                color: Rgb { r: 0x6c, g: 0xb0, b: 0x4c },
                inputs: PinTable::PositionsIn,
                outputs: PinTable::PositionsOut,
            },
            NodeKind::SpeciesPicker(_) => KindRow {
                display_name: "Species Picker",
                category: NodeCategory::Foliage,
                color: Rgb { r: 0x6c, g: 0xb0, b: 0x4c },
                inputs: PinTable::PositionsIn,
                outputs: PinTable::AssignmentsOut,
            },
            NodeKind::PaintDensity(_) => KindRow {
                display_name: "Paint Density",
                category: NodeCategory::Foliage,
                color: Rgb { r: 0x6c, g: 0xb0, b: 0x4c },
                inputs: PinTable::SurfaceInOptional,
                outputs: PinTable::PaintOut,
            },
            NodeKind::ScatterPlace(_) => KindRow {
                display_name: "Scatter Place",
                category: NodeCategory::Foliage,
                color: Rgb { r: 0x6c, g: 0xb0, b: 0x4c },
                inputs: PinTable::AssignmentsIn,
                outputs: PinTable::ScatterOut,
            },
            NodeKind::BiomeParam(_) => KindRow {
                display_name: "Biome Param",
                category: NodeCategory::Biome,
                color: Rgb { r: 0x4c, g: 0x9a, b: 0xff },
                inputs: PinTable::Nothing,
                outputs: PinTable::ScalarOut,
            },
            NodeKind::WorldParam(_) => KindRow {
                display_name: "World Param",
                category: NodeCategory::Source,
                color: Rgb { r: 0x4c, g: 0x9a, b: 0xff },
                inputs: PinTable::Nothing,
                outputs: PinTable::ScalarOut,
            },
        }
    }

    /// The declared input pins of this kind.
    pub open spec fn declared_inputs(self) -> Seq<PinView> {
        self.row().inputs.pins()
    }

    /// The declared output pins of this kind.
    pub open spec fn declared_outputs(self) -> Seq<PinView> {
        self.row().outputs.pins()
    }

    /// Static descriptor of this kind: display name, category, color and typed
    /// pins.
    pub fn descriptor(&self) -> (r: NodeDescriptor)
        ensures
            r.display_name == self.row().display_name,
            r.category == self.row().category,
            r.color == self.row().color,
            spec_views(r.inputs@) == self.declared_inputs(),
            spec_views(r.outputs@) == self.declared_outputs(),
    {
        let row = self.row_of();
        NodeDescriptor {
            display_name: row.display_name,
            category: row.category,
            color: row.color,
            inputs: row.inputs.specs(),
            outputs: row.outputs.specs(),
        }
    }

    /// The pins resolved for a reference node, if any.
    pub open spec fn resolution(self) -> Option<ResolvedBoundary> {
        match self {
            NodeKind::LibraryRef(p) => p.resolved,
            NodeKind::GraphRef(p) => p.resolved,
            _ => None,
        }
    }

    fn resolved_boundary(&self) -> (r: Option<&ResolvedBoundary>)
        ensures
            match r {
                Some(rb) => self.resolution() == Some(*rb),
                None => self.resolution() is None,
            },
    {
        match self {
            NodeKind::LibraryRef(p) => match &p.resolved {
                Some(rb) => Some(rb),
                None => None,
            },
            NodeKind::GraphRef(p) => match &p.resolved {
                Some(rb) => Some(rb),
                None => None,
            },
            _ => None,
        }
    }

    /// The input pins this node presents: the resolved pins of a resolved
    /// reference node, otherwise the declared ones.
    pub open spec fn presented_inputs(self) -> Seq<PinView> {
        match self.resolution() {
            Some(rb) => resolved_views(rb.inputs@),
            None => self.declared_inputs(),
        }
    }

    /// The output pins this node presents.
    pub open spec fn presented_outputs(self) -> Seq<PinView> {
        match self.resolution() {
            Some(rb) => resolved_views(rb.outputs@),
            None => self.declared_outputs(),
        }
    }

    /// This node's effective input pins: the resolved pins of a reference node
    /// whose boundary has been resolved, otherwise the declared inputs.
    pub fn effective_inputs(&self) -> (r: Vec<EffectivePin<'_>>)
        ensures
            effective_views(r@) == self.presented_inputs(),
    {
        match self.resolved_boundary() {
            Some(rb) => resolved_to_effective(&rb.inputs),
            None => specs_to_effective(&self.row_of().inputs.specs()),
        }
    }

    /// This node's effective output pins.
    pub fn effective_outputs(&self) -> (r: Vec<EffectivePin<'_>>)
        ensures
            effective_views(r@) == self.presented_outputs(),
    {
        match self.resolved_boundary() {
            Some(rb) => resolved_to_effective(&rb.outputs),
            None => specs_to_effective(&self.row_of().outputs.specs()),
        }
    }

    /// Whether this kind means the same thing one dimension down: elementwise
    /// arithmetic and curves, plus the uniform sources.
    pub open spec fn domain_agnostic(self) -> bool {
        match self {
            NodeKind::Constant(_) => true,
            NodeKind::WorldParam(_) => true,
            NodeKind::Add(_) => true,
            NodeKind::Subtract(_) => true,
            NodeKind::Multiply(_) => true,
            NodeKind::Min(_) => true,
            NodeKind::Max(_) => true,
            NodeKind::Clamp(_) => true,
            NodeKind::Lerp(_) => true,
            NodeKind::Remap(_) => true,
            NodeKind::Abs(_) => true,
            NodeKind::Threshold(_) => true,
            NodeKind::CurveMapper(_) => true,
            _ => false,
        }
    }

    /// Whether this kind means the same thing one dimension down: elementwise
    /// arithmetic and curves, plus the uniform sources. Their `Density` and
    /// `Scalar` pins carry `SurfaceField` in a per-column graph. Noise sources
    /// are excluded: the column domain's noise is `SurfaceNoise`.
    pub fn is_domain_agnostic(&self) -> (r: bool)
        ensures
            r == self.domain_agnostic(),
    {
        match self {
            NodeKind::Constant(_) => true,
            NodeKind::WorldParam(_) => true,
            NodeKind::Add(_) => true,
            NodeKind::Subtract(_) => true,
            NodeKind::Multiply(_) => true,
            NodeKind::Min(_) => true,
            NodeKind::Max(_) => true,
            NodeKind::Clamp(_) => true,
            NodeKind::Lerp(_) => true,
            NodeKind::Remap(_) => true,
            NodeKind::Abs(_) => true,
            NodeKind::Threshold(_) => true,
            NodeKind::CurveMapper(_) => true,
            _ => false,
        }
    }

    /// Whether this kind may appear in a world or zone graph.
    pub open spec fn column_kind(self) -> bool {
        self.domain_agnostic() || match self {
            NodeKind::SurfaceNoise(_) => true,
            NodeKind::WorldOutput(_) => true,
            NodeKind::ZoneOutput(_) => true,
            NodeKind::GraphOutput(_) => true,
            NodeKind::GraphRef(_) => true,
            NodeKind::PlaceStructure(_) => true,
            NodeKind::PlaceTree(_) => true,
            _ => false,
        }
    }

    /// Whether this kind may appear in a world or zone graph. The declarations
    /// `PlaceStructure` and `PlaceTree` qualify without being evaluated.
    pub fn is_column_kind(&self) -> (r: bool)
        ensures
            r == self.column_kind(),
    {
        if self.is_domain_agnostic() {
            return true;
        }
        match self {
            NodeKind::SurfaceNoise(_) => true,
            NodeKind::WorldOutput(_) => true,
            NodeKind::ZoneOutput(_) => true,
            NodeKind::GraphOutput(_) => true,
            NodeKind::GraphRef(_) => true,
            NodeKind::PlaceStructure(_) => true,
            NodeKind::PlaceTree(_) => true,
            _ => false,
        }
    }

    /// The input pins this node presents in a graph of `kind`.
    pub open spec fn inputs_in(self, kind: GraphKind) -> Seq<PinView> {
        in_domain(self, kind, self.presented_inputs())
    }

    /// The output pins this node presents in a graph of `kind`.
    pub open spec fn outputs_in(self, kind: GraphKind) -> Seq<PinView> {
        in_domain(self, kind, self.presented_outputs())
    }

    /// This node's input pins as they read in a graph of `kind`: the pins that
    /// connecting and validating go by.
    pub fn effective_inputs_in(&self, kind: GraphKind) -> (r: Vec<EffectivePin<'_>>)
        ensures
            effective_views(r@) == self.inputs_in(kind),
    {
        let mut pins = self.effective_inputs();
        self.apply_domain(kind, &mut pins);
        pins
    }

    /// This node's output pins as they read in a graph of `kind`.
    pub fn effective_outputs_in(&self, kind: GraphKind) -> (r: Vec<EffectivePin<'_>>)
        ensures
            effective_views(r@) == self.outputs_in(kind),
    {
        let mut pins = self.effective_outputs();
        self.apply_domain(kind, &mut pins);
        pins
    }

    fn apply_domain(&self, kind: GraphKind, pins: &mut Vec<EffectivePin<'_>>)
        ensures
            effective_views(final(pins)@) == in_domain(*self, kind, effective_views(old(pins)@)),
    {
        let moves = kind.is_per_column() && self.is_domain_agnostic();
        let ghost before = pins@;
        if moves {
            let mut k: usize = 0;
            while k < pins.len()
                invariant
                    moves == (kind.per_column() && self.domain_agnostic()),
                    moves,
                    k <= pins@.len(),
                    pins@.len() == before.len(),
                    forall|j: int| k <= j < before.len() ==> pins@[j] == before[j],
                    forall|j: int|
                        0 <= j < k ==> (#[trigger] pins@[j])@ == flattened(before[j]@),
                decreases pins@.len() - k,
            {
                let p = pins[k];
                if p.ty == PinType::Density || p.ty == PinType::Scalar {
                    pins.set(
                        k,
                        EffectivePin { name: p.name, ty: PinType::SurfaceField, required: p.required },
                    );
                }
                k = k + 1;
            }
        }
        assert(effective_views(pins@) =~= in_domain(*self, kind, effective_views(before)));
    }

    /// Every material this node's parameters reference.
    pub open spec fn referenced_materials(self) -> Seq<MaterialId> {
        match self {
            NodeKind::ConstantMaterial(p) => seq![p.material],
            NodeKind::Layer(p) => p.bands@.map_values(|b: (MaterialId, u32)| b.0).push(p.fill),
            NodeKind::FindFlat(p) => p.on_materials@,
            NodeKind::SurfaceFilter(p) => p.materials@,
            _ => Seq::empty(),
        }
    }

    /// Every material this node's parameters reference.
    pub fn material_refs(&self) -> (r: Vec<MaterialId>)
        ensures
            r@ == self.referenced_materials(),
    {
        let mut out: Vec<MaterialId> = Vec::new();
        match self {
            NodeKind::ConstantMaterial(p) => {
                out.push(p.material);
            },
            NodeKind::Layer(p) => {
                let mut k: usize = 0;
                while k < p.bands.len()
                    invariant
                        k <= p.bands@.len(),
                        out@ == p.bands@.map_values(|b: (MaterialId, u32)| b.0).take(k as int),
                    decreases p.bands@.len() - k,
                {
                    out.push(p.bands[k].0);
                    k = k + 1;
                }
                out.push(p.fill);
            },
            NodeKind::FindFlat(p) => {
                out = copy_vec(&p.on_materials);
            },
            NodeKind::SurfaceFilter(p) => {
                out = copy_vec(&p.materials);
            },
            _ => {},
        }
        assert(out@ =~= self.referenced_materials());
        out
    }

    /// Stable identifier of the kind: the variant's name.
    pub open spec fn tag(self) -> &'static str {
        match self {
            NodeKind::Perlin2D(_) => "Perlin2D",
            NodeKind::Perlin3D(_) => "Perlin3D",
            NodeKind::Simplex2D(_) => "Simplex2D",
            NodeKind::Simplex3D(_) => "Simplex3D",
            NodeKind::Constant(_) => "Constant",
            NodeKind::WorldPos(_) => "WorldPos",
            NodeKind::WorldAxis(_) => "WorldAxis",
            NodeKind::YBand(_) => "YBand",
            NodeKind::Add(_) => "Add",
            NodeKind::Multiply(_) => "Multiply",
            NodeKind::Subtract(_) => "Subtract",
            NodeKind::Min(_) => "Min",
            NodeKind::Max(_) => "Max",
            NodeKind::Clamp(_) => "Clamp",
            NodeKind::Lerp(_) => "Lerp",
            NodeKind::Remap(_) => "Remap",
            NodeKind::Threshold(_) => "Threshold",
            NodeKind::CurveMapper(_) => "CurveMapper",
            NodeKind::DomainWarp(_) => "DomainWarp",
            NodeKind::Abs(_) => "Abs",
            NodeKind::SurfaceToDensity(_) => "SurfaceToDensity",
            NodeKind::Union(_) => "Union",
            NodeKind::Intersect(_) => "Intersect",
            NodeKind::DensitySubtract(_) => "DensitySubtract",
            NodeKind::Mix(_) => "Mix",
            NodeKind::Mask(_) => "Mask",
            NodeKind::ConstantMaterial(_) => "ConstantMaterial",
            NodeKind::Layer(_) => "Layer",
            NodeKind::Queue(_) => "Queue",
            NodeKind::TerrainOutput(_) => "TerrainOutput",
            NodeKind::BuildTerrain(_) => "BuildTerrain",
            NodeKind::DensityOutput(_) => "DensityOutput",
            NodeKind::FluidOutput(_) => "FluidOutput",
            NodeKind::JitteredGrid(_) => "JitteredGrid",
            NodeKind::PoissonDisk(_) => "PoissonDisk",
            NodeKind::FindFlat(_) => "FindFlat",
            NodeKind::PlaceTree(_) => "PlaceTree",
            NodeKind::PlaceBlueprint(_) => "PlaceBlueprint",
            NodeKind::River(_) => "River",
            NodeKind::PlaceStructure(_) => "PlaceStructure",
            NodeKind::SurfaceNoise(_) => "SurfaceNoise",
            NodeKind::WorldOutput(_) => "WorldOutput",
            NodeKind::ZoneOutput(_) => "ZoneOutput",
            NodeKind::LibraryRef(_) => "LibraryRef",
            NodeKind::GraphRef(_) => "GraphRef",
            NodeKind::GraphOutput(_) => "GraphOutput",
            NodeKind::Output(_) => "Output",
            NodeKind::PoissonDistribution(_) => "PoissonDistribution",
            NodeKind::SurfaceFilter(_) => "SurfaceFilter",
            NodeKind::BiomeContextMask(_) => "BiomeContextMask",
            NodeKind::SpeciesPicker(_) => "SpeciesPicker",
            NodeKind::PaintDensity(_) => "PaintDensity",
            NodeKind::ScatterPlace(_) => "ScatterPlace",
            NodeKind::BiomeParam(_) => "BiomeParam",
            NodeKind::WorldParam(_) => "WorldParam",
        }
    }

    /// Stable identifier of the kind: the variant's name.
    pub fn kind_name(&self) -> (r: &'static str)
        ensures
            r == self.tag(),
    {
        match self {
            NodeKind::Perlin2D(_) => "Perlin2D",
            NodeKind::Perlin3D(_) => "Perlin3D",
            NodeKind::Simplex2D(_) => "Simplex2D",
            NodeKind::Simplex3D(_) => "Simplex3D",
            NodeKind::Constant(_) => "Constant",
            NodeKind::WorldPos(_) => "WorldPos",
            NodeKind::WorldAxis(_) => "WorldAxis",
            NodeKind::YBand(_) => "YBand",
            NodeKind::Add(_) => "Add",
            NodeKind::Multiply(_) => "Multiply",
            NodeKind::Subtract(_) => "Subtract",
            NodeKind::Min(_) => "Min",
            NodeKind::Max(_) => "Max",
            NodeKind::Clamp(_) => "Clamp",
            NodeKind::Lerp(_) => "Lerp",
            NodeKind::Remap(_) => "Remap",
            NodeKind::Threshold(_) => "Threshold",
            NodeKind::CurveMapper(_) => "CurveMapper",
            NodeKind::DomainWarp(_) => "DomainWarp",
            NodeKind::Abs(_) => "Abs",
            NodeKind::SurfaceToDensity(_) => "SurfaceToDensity",
            NodeKind::Union(_) => "Union",
            NodeKind::Intersect(_) => "Intersect",
            NodeKind::DensitySubtract(_) => "DensitySubtract",
            NodeKind::Mix(_) => "Mix",
            NodeKind::Mask(_) => "Mask",
            NodeKind::ConstantMaterial(_) => "ConstantMaterial",
            NodeKind::Layer(_) => "Layer",
            NodeKind::Queue(_) => "Queue",
            NodeKind::TerrainOutput(_) => "TerrainOutput",
            NodeKind::BuildTerrain(_) => "BuildTerrain",
            NodeKind::DensityOutput(_) => "DensityOutput",
            NodeKind::FluidOutput(_) => "FluidOutput",
            NodeKind::JitteredGrid(_) => "JitteredGrid",
            NodeKind::PoissonDisk(_) => "PoissonDisk",
            NodeKind::FindFlat(_) => "FindFlat",
            NodeKind::PlaceTree(_) => "PlaceTree",
            NodeKind::PlaceBlueprint(_) => "PlaceBlueprint",
            NodeKind::River(_) => "River",
            NodeKind::PlaceStructure(_) => "PlaceStructure",
            NodeKind::SurfaceNoise(_) => "SurfaceNoise",
            NodeKind::WorldOutput(_) => "WorldOutput",
            NodeKind::ZoneOutput(_) => "ZoneOutput",
            NodeKind::LibraryRef(_) => "LibraryRef",
            NodeKind::GraphRef(_) => "GraphRef",
            NodeKind::GraphOutput(_) => "GraphOutput",
            NodeKind::Output(_) => "Output",
            NodeKind::PoissonDistribution(_) => "PoissonDistribution",
            NodeKind::SurfaceFilter(_) => "SurfaceFilter",
            NodeKind::BiomeContextMask(_) => "BiomeContextMask",
            NodeKind::SpeciesPicker(_) => "SpeciesPicker",
            NodeKind::PaintDensity(_) => "PaintDensity",
            NodeKind::ScatterPlace(_) => "ScatterPlace",
            NodeKind::BiomeParam(_) => "BiomeParam",
            NodeKind::WorldParam(_) => "WorldParam",
        }
    }

    /// Whether two kinds are the same variant with the same parameters.
    pub open spec fn same(self, other: NodeKind) -> bool {
        match (self, other) {
            (NodeKind::CurveMapper(a), NodeKind::CurveMapper(b)) => a.same(b),
            (NodeKind::Layer(a), NodeKind::Layer(b)) => a.same(b),
            (NodeKind::FindFlat(a), NodeKind::FindFlat(b)) => a.same(b),
            (NodeKind::PlaceTree(a), NodeKind::PlaceTree(b)) => a.same(b),
            (NodeKind::PlaceBlueprint(a), NodeKind::PlaceBlueprint(b)) => a.same(b),
            (NodeKind::PlaceStructure(a), NodeKind::PlaceStructure(b)) => a.same(b),
            (NodeKind::WorldOutput(a), NodeKind::WorldOutput(b)) => a.same(b),
            (NodeKind::ZoneOutput(a), NodeKind::ZoneOutput(b)) => a.same(b),
            (NodeKind::LibraryRef(a), NodeKind::LibraryRef(b)) => a.same(b),
            (NodeKind::GraphRef(a), NodeKind::GraphRef(b)) => a.same(b),
            (NodeKind::SurfaceFilter(a), NodeKind::SurfaceFilter(b)) => a.same(b),
            (NodeKind::SpeciesPicker(a), NodeKind::SpeciesPicker(b)) => a.same(b),
            _ => self == other,
        }
    }
}

impl Clone for NodeKind {
    fn clone(&self) -> (r: Self)
        ensures
            self.same(r),
    {
        match self {
            NodeKind::Perlin2D(p) => NodeKind::Perlin2D(*p),
            NodeKind::Perlin3D(p) => NodeKind::Perlin3D(*p),
            NodeKind::Simplex2D(p) => NodeKind::Simplex2D(*p),
            NodeKind::Simplex3D(p) => NodeKind::Simplex3D(*p),
            NodeKind::Constant(p) => NodeKind::Constant(*p),
            NodeKind::WorldPos(p) => NodeKind::WorldPos(*p),
            NodeKind::WorldAxis(p) => NodeKind::WorldAxis(*p),
            NodeKind::YBand(p) => NodeKind::YBand(*p),
            NodeKind::Add(p) => NodeKind::Add(*p),
            NodeKind::Multiply(p) => NodeKind::Multiply(*p),
            NodeKind::Subtract(p) => NodeKind::Subtract(*p),
            NodeKind::Min(p) => NodeKind::Min(*p),
            NodeKind::Max(p) => NodeKind::Max(*p),
            NodeKind::Clamp(p) => NodeKind::Clamp(*p),
            NodeKind::Lerp(p) => NodeKind::Lerp(*p),
            NodeKind::Remap(p) => NodeKind::Remap(*p),
            NodeKind::Threshold(p) => NodeKind::Threshold(*p),
            NodeKind::CurveMapper(p) => NodeKind::CurveMapper(p.clone()),
            NodeKind::DomainWarp(p) => NodeKind::DomainWarp(*p),
            NodeKind::Abs(p) => NodeKind::Abs(*p),
            NodeKind::SurfaceToDensity(p) => NodeKind::SurfaceToDensity(*p),
            NodeKind::Union(p) => NodeKind::Union(*p),
            NodeKind::Intersect(p) => NodeKind::Intersect(*p),
            NodeKind::DensitySubtract(p) => NodeKind::DensitySubtract(*p),
            NodeKind::Mix(p) => NodeKind::Mix(*p),
            NodeKind::Mask(p) => NodeKind::Mask(*p),
            NodeKind::ConstantMaterial(p) => NodeKind::ConstantMaterial(*p),
            NodeKind::Layer(p) => NodeKind::Layer(p.clone()),
            NodeKind::Queue(p) => NodeKind::Queue(*p),
            NodeKind::TerrainOutput(p) => NodeKind::TerrainOutput(*p),
            NodeKind::BuildTerrain(p) => NodeKind::BuildTerrain(*p),
            NodeKind::DensityOutput(p) => NodeKind::DensityOutput(*p),
            NodeKind::FluidOutput(p) => NodeKind::FluidOutput(*p),
            NodeKind::JitteredGrid(p) => NodeKind::JitteredGrid(*p),
            NodeKind::PoissonDisk(p) => NodeKind::PoissonDisk(*p),
            NodeKind::FindFlat(p) => NodeKind::FindFlat(p.clone()),
            NodeKind::PlaceTree(p) => NodeKind::PlaceTree(p.clone()),
            NodeKind::PlaceBlueprint(p) => NodeKind::PlaceBlueprint(p.clone()),
            NodeKind::River(p) => NodeKind::River(*p),
            NodeKind::PlaceStructure(p) => NodeKind::PlaceStructure(p.clone()),
            NodeKind::SurfaceNoise(p) => NodeKind::SurfaceNoise(*p),
            NodeKind::WorldOutput(p) => NodeKind::WorldOutput(p.clone()),
            NodeKind::ZoneOutput(p) => NodeKind::ZoneOutput(p.clone()),
            NodeKind::LibraryRef(p) => NodeKind::LibraryRef(p.clone()),
            NodeKind::GraphRef(p) => NodeKind::GraphRef(p.clone()),
            NodeKind::GraphOutput(p) => NodeKind::GraphOutput(p.clone()),
            NodeKind::Output(p) => NodeKind::Output(p.clone()),
            NodeKind::PoissonDistribution(p) => NodeKind::PoissonDistribution(*p),
            NodeKind::SurfaceFilter(p) => NodeKind::SurfaceFilter(p.clone()),
            NodeKind::BiomeContextMask(p) => NodeKind::BiomeContextMask(*p),
            NodeKind::SpeciesPicker(p) => NodeKind::SpeciesPicker(p.clone()),
            NodeKind::PaintDensity(p) => NodeKind::PaintDensity(*p),
            NodeKind::ScatterPlace(p) => NodeKind::ScatterPlace(*p),
            NodeKind::BiomeParam(p) => NodeKind::BiomeParam(p.clone()),
            NodeKind::WorldParam(p) => NodeKind::WorldParam(p.clone()),
        }
    }
}

/// A pin moved into the column domain: field pins carry a surface field.
pub open spec fn flattened(p: PinView) -> PinView {
    if p.ty == PinType::Density || p.ty == PinType::Scalar {
        PinView { ty: PinType::SurfaceField, ..p }
    } else {
        p
    }
}

/// A node's pins in the domain of a graph kind. Only domain-agnostic kinds move.
pub open spec fn in_domain(node: NodeKind, kind: GraphKind, pins: Seq<PinView>) -> Seq<PinView> {
    if kind.per_column() && node.domain_agnostic() {
        pins.map_values(|p: PinView| flattened(p))
    } else {
        pins
    }
}

/// Outside the world and zone graphs every pin keeps its declared type.
pub proof fn voxel_domain_keeps_declared_types(node: NodeKind, kind: GraphKind)
    requires
        !kind.per_column(),
    ensures
        node.inputs_in(kind) == node.presented_inputs(),
        node.outputs_in(kind) == node.presented_outputs(),
{
}

/// A domain-agnostic kind presents no density or scalar pin in a per-column
/// graph, and moving domain never changes how many pins there are, what they
/// are called, or which are required.
pub proof fn column_domain_has_no_voxel_pins(node: NodeKind, kind: GraphKind, i: int)
    requires
        kind.per_column(),
        node.domain_agnostic(),
        0 <= i < node.presented_inputs().len(),
    ensures
        node.inputs_in(kind).len() == node.presented_inputs().len(),
        node.inputs_in(kind)[i].ty != PinType::Density,
        node.inputs_in(kind)[i].ty != PinType::Scalar,
        node.inputs_in(kind)[i].name == node.presented_inputs()[i].name,
        node.inputs_in(kind)[i].required == node.presented_inputs()[i].required,
{
}

/// A reference node that has not been resolved presents no pins at all.
pub proof fn unresolved_references_have_no_pins(node: NodeKind)
    requires
        node is LibraryRef || node is GraphRef,
        node.resolution() is None,
    ensures
        node.presented_inputs().len() == 0,
        node.presented_outputs().len() == 0,
{
}

fn specs_to_effective<'a>(specs: &Vec<PinSpec>) -> (r: Vec<EffectivePin<'a>>)
    ensures
        effective_views(r@) == spec_views(specs@),
{
    let mut out: Vec<EffectivePin<'a>> = Vec::new();
    let mut k: usize = 0;
    while k < specs.len()
        invariant
            k <= specs@.len(),
            out@.len() == k,
            forall|j: int| 0 <= j < k ==> (#[trigger] out@[j])@ == specs@[j]@,
        decreases specs@.len() - k,
    {
        out.push(spec_to_effective(&specs[k]));
        k = k + 1;
    }
    assert(effective_views(out@) =~= spec_views(specs@));
    out
}

fn resolved_to_effective(pins: &Vec<ResolvedPin>) -> (r: Vec<EffectivePin<'_>>)
    ensures
        effective_views(r@) == resolved_views(pins@),
{
    let mut out: Vec<EffectivePin<'_>> = Vec::new();
    let mut k: usize = 0;
    while k < pins.len()
        invariant
            k <= pins@.len(),
            out@.len() == k,
            forall|j: int| 0 <= j < k ==> (#[trigger] out@[j])@ == pins@[j]@,
        decreases pins@.len() - k,
    {
        out.push(resolved_pin_to_effective(&pins[k]));
        k = k + 1;
    }
    assert(effective_views(out@) =~= resolved_views(pins@));
    out
}

/// Project a pin specification onto an effective pin.
pub fn spec_to_effective<'a>(spec: &PinSpec) -> (r: EffectivePin<'a>)
    ensures
        r@ == spec@,
{
    EffectivePin { name: spec.name, ty: spec.ty, required: spec.required }
}

/// Project a resolved pin onto an effective pin, borrowing its name.
pub fn resolved_pin_to_effective(pin: &ResolvedPin) -> (r: EffectivePin<'_>)
    ensures
        r@ == pin@,
{
    EffectivePin { name: pin.name.as_str(), ty: pin.ty, required: pin.required }
}

/// A position on the editor canvas.
#[derive(Clone, Copy, PartialEq, Eq, Structural, Hash, Debug)]
pub struct Vec2 {
    /// Rightward.
    pub x: Single,
    /// Downward.
    pub y: Single,
}

/// A node instance: its kind with parameters, and its canvas position.
#[derive(PartialEq, Debug)]
pub struct Node {
    /// Kind and parameters.
    pub kind: NodeKind,
    /// Canvas position.
    pub position: Vec2,
}

impl Node {
    /// Whether two nodes have the same kind, parameters and position.
    pub open spec fn same(self, other: Node) -> bool {
        self.kind.same(other.kind) && self.position == other.position
    }

    /// A node at the origin.
    pub open spec fn at_origin(kind: NodeKind) -> Node {
        Node { kind, position: Vec2 { x: Single { bits: 0 }, y: Single { bits: 0 } } }
    }

    /// Create a node at the origin.
    pub fn new(kind: NodeKind) -> (r: Self)
        ensures
            r == Node::at_origin(kind),
    {
        Node { kind, position: Vec2 { x: Single { bits: 0 }, y: Single { bits: 0 } } }
    }

    /// The descriptor of this node's kind.
    pub fn descriptor(&self) -> (r: NodeDescriptor)
        ensures
            r.display_name == self.kind.row().display_name,
            r.category == self.kind.row().category,
            r.color == self.kind.row().color,
            spec_views(r.inputs@) == self.kind.declared_inputs(),
            spec_views(r.outputs@) == self.kind.declared_outputs(),
    {
        self.kind.descriptor()
    }
}

impl Clone for Node {
    fn clone(&self) -> (r: Self)
        ensures
            self.same(r),
    {
        Node { kind: self.kind.clone(), position: self.position }
    }
}

} // verus!
