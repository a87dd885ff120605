//! The catalog of node kinds that can be placed on a canvas.
use crate::node::{NodeCategory, NodeKind};
use crate::params::{
    AddParams, BiomeContextMaskParams, BiomeParamParams, BuildTerrainParams, ClampParams,
    ConstantMaterialParams, ConstantParams, CurveMapperParams, DensityOutputParams,
    DensitySubtractParams, DomainWarpParams, FindFlatParams, FluidOutputParams,
    GraphOutputParams, IntersectParams, JitteredGridParams, LayerParams, LerpParams, MaskParams,
    MaxParams, MinParams, MixParams, MultiplyParams, NoiseParams, OutputParams,
    PaintDensityParams, PlaceBlueprintParams, PlaceStructureParams, PlaceTreeParams,
    PoissonDiskParams, PoissonDistributionParams, QueueParams, RemapParams, RiverParams,
    ScatterPlaceParams, SpeciesPickerParams, SubtractParams, SurfaceFilterParams,
    TerrainOutputParams, ThresholdParams, UnionParams, WorldAxisParams, WorldOutputParams,
    WorldPosParams, YBandParams, ZoneOutputParams,
};
use vstd::prelude::*;

verus! {

/// One entry of the catalog: where it is listed, under what label, and the
/// node it places.
#[derive(PartialEq, Debug)]
pub struct CatalogEntry {
    /// The submenu it is listed in.
    pub category: NodeCategory,
    /// Its label.
    pub label: &'static str,
    /// The node it places.
    pub kind: NodeKind,
}

/// How many kinds the catalog lists.
pub const CATALOG_SIZE: usize = 50;

impl NodeKind {
    /// Whether the parameters are those a fresh node starts from.
    pub open spec fn is_fresh(self) -> bool {
        match self {
            NodeKind::Perlin2D(p) => p.is_default(),
            NodeKind::Perlin3D(p) => p.is_default(),
            NodeKind::Simplex2D(p) => p.is_default(),
            NodeKind::Simplex3D(p) => p.is_default(),
            NodeKind::Constant(p) => p.is_default(),
            NodeKind::WorldPos(p) => p.is_default(),
            NodeKind::WorldAxis(p) => p.is_default(),
            NodeKind::YBand(p) => p.is_default(),
            NodeKind::Add(p) => p.is_default(),
            NodeKind::Multiply(p) => p.is_default(),
            NodeKind::Subtract(p) => p.is_default(),
            NodeKind::Min(p) => p.is_default(),
            NodeKind::Max(p) => p.is_default(),
            NodeKind::Clamp(p) => p.is_default(),
            NodeKind::Lerp(p) => p.is_default(),
            NodeKind::Remap(p) => p.is_default(),
            NodeKind::Threshold(p) => p.is_default(),
            NodeKind::CurveMapper(p) => p.is_default(),
            NodeKind::DomainWarp(p) => p.is_default(),
            NodeKind::Abs(p) => p.is_default(),
            NodeKind::SurfaceToDensity(p) => p.is_default(),
            NodeKind::Union(p) => p.is_default(),
            NodeKind::Intersect(p) => p.is_default(),
            NodeKind::DensitySubtract(p) => p.is_default(),
            NodeKind::Mix(p) => p.is_default(),
            NodeKind::Mask(p) => p.is_default(),
            NodeKind::ConstantMaterial(p) => p.is_default(),
            NodeKind::Layer(p) => p.is_default(),
            NodeKind::Queue(p) => p.is_default(),
            NodeKind::TerrainOutput(p) => p.is_default(),
            NodeKind::BuildTerrain(p) => p.is_default(),
            NodeKind::DensityOutput(p) => p.is_default(),
            NodeKind::FluidOutput(p) => p.is_default(),
            NodeKind::JitteredGrid(p) => p.is_default(),
            NodeKind::PoissonDisk(p) => p.is_default(),
            NodeKind::FindFlat(p) => p.is_default(),
            NodeKind::PlaceTree(p) => p.is_default(),
            NodeKind::PlaceBlueprint(p) => p.is_default(),
            NodeKind::River(p) => p.is_default(),
            NodeKind::PlaceStructure(p) => p.is_default(),
            NodeKind::SurfaceNoise(p) => p.is_default(),
            NodeKind::WorldOutput(p) => p.is_default(),
            NodeKind::ZoneOutput(p) => p.is_default(),
            NodeKind::LibraryRef(p) => p.is_default(),
            NodeKind::GraphRef(p) => p.is_default(),
            NodeKind::GraphOutput(p) => p.is_default(),
            NodeKind::Output(p) => p.is_default(),
            NodeKind::PoissonDistribution(p) => p.is_default(),
            NodeKind::SurfaceFilter(p) => p.is_default(),
            NodeKind::BiomeContextMask(p) => p.is_default(),
            NodeKind::SpeciesPicker(p) => p.is_default(),
            NodeKind::PaintDensity(p) => p.is_default(),
            NodeKind::ScatterPlace(p) => p.is_default(),
            NodeKind::BiomeParam(p) => p.is_default(),
            NodeKind::WorldParam(p) => p.is_default(),
        }
    }

    /// Where the catalog lists this kind, if it does. References into libraries
    /// and the hierarchy are never listed: they are placed already bound to a
    /// target.
    pub open spec fn catalog_place(self) -> Option<int> {
        match self {
            NodeKind::Perlin2D(_) => Some(0int),
            NodeKind::Perlin3D(_) => Some(1int),
            NodeKind::Simplex2D(_) => Some(2int),
            NodeKind::Simplex3D(_) => Some(3int),
            NodeKind::Constant(_) => Some(4int),
            NodeKind::WorldPos(_) => Some(5int),
            NodeKind::WorldAxis(_) => Some(6int),
            NodeKind::SurfaceNoise(_) => Some(7int),
            NodeKind::YBand(_) => Some(8int),
            NodeKind::Add(_) => Some(9int),
            NodeKind::Multiply(_) => Some(10int),
            NodeKind::Subtract(_) => Some(11int),
            NodeKind::Min(_) => Some(12int),
            NodeKind::Max(_) => Some(13int),
            NodeKind::Clamp(_) => Some(14int),
            NodeKind::Lerp(_) => Some(15int),
            NodeKind::Remap(_) => Some(16int),
            NodeKind::Threshold(_) => Some(17int),
            NodeKind::CurveMapper(_) => Some(18int),
            NodeKind::DomainWarp(_) => Some(19int),
            NodeKind::Union(_) => Some(20int),
            NodeKind::Intersect(_) => Some(21int),
            NodeKind::DensitySubtract(_) => Some(22int),
            NodeKind::Mix(_) => Some(23int),
            NodeKind::Mask(_) => Some(24int),
            NodeKind::ConstantMaterial(_) => Some(25int),
            NodeKind::Layer(_) => Some(26int),
            NodeKind::Queue(_) => Some(27int),
            NodeKind::BuildTerrain(_) => Some(28int),
            NodeKind::JitteredGrid(_) => Some(29int),
            NodeKind::PoissonDisk(_) => Some(30int),
            NodeKind::FindFlat(_) => Some(31int),
            NodeKind::PlaceTree(_) => Some(32int),
            NodeKind::PlaceBlueprint(_) => Some(33int),
            NodeKind::PlaceStructure(_) => Some(34int),
            NodeKind::River(_) => Some(35int),
            NodeKind::Output(_) => Some(36int),
            NodeKind::TerrainOutput(_) => Some(37int),
            NodeKind::WorldOutput(_) => Some(38int),
            NodeKind::ZoneOutput(_) => Some(39int),
            NodeKind::DensityOutput(_) => Some(40int),
            NodeKind::FluidOutput(_) => Some(41int),
            NodeKind::GraphOutput(_) => Some(42int),
            NodeKind::PoissonDistribution(_) => Some(43int),
            NodeKind::SurfaceFilter(_) => Some(44int),
            NodeKind::BiomeContextMask(_) => Some(45int),
            NodeKind::SpeciesPicker(_) => Some(46int),
            NodeKind::PaintDensity(_) => Some(47int),
            NodeKind::ScatterPlace(_) => Some(48int),
            NodeKind::BiomeParam(_) => Some(49int),
            _ => None,
        }
    }

    /// The submenu the catalog lists this kind in.
    pub open spec fn catalog_category(self) -> NodeCategory {
        match self {
            NodeKind::Perlin2D(_) => NodeCategory::Source,
            NodeKind::Perlin3D(_) => NodeCategory::Source,
            NodeKind::Simplex2D(_) => NodeCategory::Source,
            NodeKind::Simplex3D(_) => NodeCategory::Source,
            NodeKind::Constant(_) => NodeCategory::Source,
            NodeKind::WorldPos(_) => NodeCategory::Source,
            NodeKind::WorldAxis(_) => NodeCategory::Source,
            NodeKind::SurfaceNoise(_) => NodeCategory::Source,
            NodeKind::YBand(_) => NodeCategory::Source,
            NodeKind::Add(_) => NodeCategory::Math,
            NodeKind::Multiply(_) => NodeCategory::Math,
            NodeKind::Subtract(_) => NodeCategory::Math,
            NodeKind::Min(_) => NodeCategory::Math,
            NodeKind::Max(_) => NodeCategory::Math,
            NodeKind::Clamp(_) => NodeCategory::Math,
            NodeKind::Lerp(_) => NodeCategory::Math,
            NodeKind::Remap(_) => NodeCategory::Math,
            NodeKind::Threshold(_) => NodeCategory::Curves,
            NodeKind::CurveMapper(_) => NodeCategory::Curves,
            NodeKind::DomainWarp(_) => NodeCategory::Domain,
            NodeKind::Union(_) => NodeCategory::Density,
            NodeKind::Intersect(_) => NodeCategory::Density,
            NodeKind::DensitySubtract(_) => NodeCategory::Density,
            NodeKind::Mix(_) => NodeCategory::Density,
            NodeKind::Mask(_) => NodeCategory::Density,
            NodeKind::ConstantMaterial(_) => NodeCategory::Material,
            NodeKind::Layer(_) => NodeCategory::Material,
            NodeKind::Queue(_) => NodeCategory::Material,
            NodeKind::BuildTerrain(_) => NodeCategory::Material,
            NodeKind::JitteredGrid(_) => NodeCategory::Positions,
            NodeKind::PoissonDisk(_) => NodeCategory::Positions,
            NodeKind::FindFlat(_) => NodeCategory::Scanners,
            NodeKind::PlaceTree(_) => NodeCategory::Props,
            NodeKind::PlaceBlueprint(_) => NodeCategory::Props,
            NodeKind::PlaceStructure(_) => NodeCategory::Props,
            NodeKind::River(_) => NodeCategory::Density,
            NodeKind::Output(_) => NodeCategory::Output,
            NodeKind::TerrainOutput(_) => NodeCategory::Output,
            NodeKind::WorldOutput(_) => NodeCategory::Output,
            NodeKind::ZoneOutput(_) => NodeCategory::Output,
            NodeKind::DensityOutput(_) => NodeCategory::Output,
            NodeKind::FluidOutput(_) => NodeCategory::Output,
            NodeKind::GraphOutput(_) => NodeCategory::Output,
            NodeKind::PoissonDistribution(_) => NodeCategory::Foliage,
            NodeKind::SurfaceFilter(_) => NodeCategory::Foliage,
            NodeKind::BiomeContextMask(_) => NodeCategory::Foliage,
            NodeKind::SpeciesPicker(_) => NodeCategory::Foliage,
            NodeKind::PaintDensity(_) => NodeCategory::Foliage,
            NodeKind::ScatterPlace(_) => NodeCategory::Foliage,
            NodeKind::BiomeParam(_) => NodeCategory::Biome,
            _ => self.row().category,
        }
    }

    /// The label the catalog lists this kind under.
    pub open spec fn catalog_label(self) -> &'static str {
        match self {
            NodeKind::Perlin2D(_) => "Perlin 2D",
            NodeKind::Perlin3D(_) => "Perlin 3D",
            NodeKind::Simplex2D(_) => "Simplex 2D",
            NodeKind::Simplex3D(_) => "Simplex 3D",
            NodeKind::Constant(_) => "Constant",
            NodeKind::WorldPos(_) => "World Position",
            NodeKind::WorldAxis(_) => "World Axis",
            NodeKind::SurfaceNoise(_) => "Surface Noise",
            NodeKind::YBand(_) => "Y Band",
            NodeKind::Add(_) => "Add",
            NodeKind::Multiply(_) => "Multiply",
            NodeKind::Subtract(_) => "Subtract",
            NodeKind::Min(_) => "Min",
            NodeKind::Max(_) => "Max",
            NodeKind::Clamp(_) => "Clamp",
            NodeKind::Lerp(_) => "Lerp",
            NodeKind::Remap(_) => "Remap",
            NodeKind::Threshold(_) => "Threshold",
            NodeKind::CurveMapper(_) => "Curve Mapper",
            NodeKind::DomainWarp(_) => "Domain Warp",
            NodeKind::Union(_) => "Union",
            NodeKind::Intersect(_) => "Intersect",
            NodeKind::DensitySubtract(_) => "Density Subtract",
            NodeKind::Mix(_) => "Mix",
            NodeKind::Mask(_) => "Mask",
            NodeKind::ConstantMaterial(_) => "Constant Material",
            NodeKind::Layer(_) => "Layer",
            NodeKind::Queue(_) => "Queue",
            NodeKind::BuildTerrain(_) => "Build Terrain",
            NodeKind::JitteredGrid(_) => "Jittered Grid",
            NodeKind::PoissonDisk(_) => "Poisson Disk",
            NodeKind::FindFlat(_) => "Find Flat",
            NodeKind::PlaceTree(_) => "Place Tree",
            NodeKind::PlaceBlueprint(_) => "Place Blueprint",
            NodeKind::PlaceStructure(_) => "Place Structure",
            NodeKind::River(_) => "River",
            NodeKind::Output(_) => "Output",
            NodeKind::TerrainOutput(_) => "Terrain Output",
            NodeKind::WorldOutput(_) => "World Output",
            NodeKind::ZoneOutput(_) => "Zone Output",
            NodeKind::DensityOutput(_) => "Density Output",
            NodeKind::FluidOutput(_) => "Fluid Output",
            NodeKind::GraphOutput(_) => "Graph Output",
            NodeKind::PoissonDistribution(_) => "Poisson Distribution",
            NodeKind::SurfaceFilter(_) => "Surface Filter",
            NodeKind::BiomeContextMask(_) => "Biome Context Mask",
            NodeKind::SpeciesPicker(_) => "Species Picker",
            NodeKind::PaintDensity(_) => "Paint Density",
            NodeKind::ScatterPlace(_) => "Scatter Place",
            NodeKind::BiomeParam(_) => "Biome Param",
            _ => self.row().display_name,
        }
    }
}

/// Whether entries are those the catalog starts with, in its order, each
/// placing a fresh node.
pub open spec fn catalogued(entries: Seq<CatalogEntry>) -> bool {
    forall|i: int|
        0 <= i < entries.len() ==> {
            &&& (#[trigger] entries[i]).kind.catalog_place() == Some(i)
            &&& entries[i].kind.is_fresh()
            &&& entries[i].category == entries[i].kind.catalog_category()
            &&& entries[i].label == entries[i].kind.catalog_label()
        }
}

fn enter(out: &mut Vec<CatalogEntry>, category: NodeCategory, label: &'static str, kind: NodeKind)
    requires
        catalogued(old(out)@),
        kind.catalog_place() == Some(old(out)@.len() as int),
        kind.is_fresh(),
        category == kind.catalog_category(),
        label == kind.catalog_label(),
    ensures
        catalogued(final(out)@),
        final(out)@.len() == old(out)@.len() + 1,
{
    out.push(CatalogEntry { category, label, kind });
}

/// Every kind that can be placed from the canvas menu, in menu order.
pub fn catalog() -> (r: Vec<CatalogEntry>)
    ensures
        r@.len() == CATALOG_SIZE,
        catalogued(r@),
{
    let mut out: Vec<CatalogEntry> = Vec::new();
    enter(&mut out, NodeCategory::Source, "Perlin 2D", NodeKind::Perlin2D(NoiseParams::default()));
    enter(&mut out, NodeCategory::Source, "Perlin 3D", NodeKind::Perlin3D(NoiseParams::default()));
    enter(
        &mut out,
        NodeCategory::Source,
        "Simplex 2D",
        NodeKind::Simplex2D(NoiseParams::default()),
    );
    enter(
        &mut out,
        NodeCategory::Source,
        "Simplex 3D",
        NodeKind::Simplex3D(NoiseParams::default()),
    );
    enter(
        &mut out,
        NodeCategory::Source,
        "Constant",
        NodeKind::Constant(ConstantParams::default()),
    );
    enter(
        &mut out,
        NodeCategory::Source,
        "World Position",
        NodeKind::WorldPos(WorldPosParams::default()),
    );
    enter(
        &mut out,
        NodeCategory::Source,
        "World Axis",
        NodeKind::WorldAxis(WorldAxisParams::default()),
    );
    enter(
        &mut out,
        NodeCategory::Source,
        "Surface Noise",
        NodeKind::SurfaceNoise(NoiseParams::default()),
    );
    enter(&mut out, NodeCategory::Source, "Y Band", NodeKind::YBand(YBandParams::default()));
    enter(&mut out, NodeCategory::Math, "Add", NodeKind::Add(AddParams::default()));
    enter(&mut out, NodeCategory::Math, "Multiply", NodeKind::Multiply(MultiplyParams::default()));
    enter(&mut out, NodeCategory::Math, "Subtract", NodeKind::Subtract(SubtractParams::default()));
    enter(&mut out, NodeCategory::Math, "Min", NodeKind::Min(MinParams::default()));
    enter(&mut out, NodeCategory::Math, "Max", NodeKind::Max(MaxParams::default()));
    enter(&mut out, NodeCategory::Math, "Clamp", NodeKind::Clamp(ClampParams::default()));
    enter(&mut out, NodeCategory::Math, "Lerp", NodeKind::Lerp(LerpParams::default()));
    enter(&mut out, NodeCategory::Math, "Remap", NodeKind::Remap(RemapParams::default()));
    enter(
        &mut out,
        NodeCategory::Curves,
        "Threshold",
        NodeKind::Threshold(ThresholdParams::default()),
    );
    enter(
        &mut out,
        NodeCategory::Curves,
        "Curve Mapper",
        NodeKind::CurveMapper(CurveMapperParams::default()),
    );
    enter(
        &mut out,
        NodeCategory::Domain,
        "Domain Warp",
        NodeKind::DomainWarp(DomainWarpParams::default()),
    );
    enter(&mut out, NodeCategory::Density, "Union", NodeKind::Union(UnionParams::default()));
    enter(
        &mut out,
        NodeCategory::Density,
        "Intersect",
        NodeKind::Intersect(IntersectParams::default()),
    );
    enter(
        &mut out,
        NodeCategory::Density,
        "Density Subtract",
        NodeKind::DensitySubtract(DensitySubtractParams::default()),
    );
    enter(&mut out, NodeCategory::Density, "Mix", NodeKind::Mix(MixParams::default()));
    enter(&mut out, NodeCategory::Density, "Mask", NodeKind::Mask(MaskParams::default()));
    enter(
        &mut out,
        NodeCategory::Material,
        "Constant Material",
        NodeKind::ConstantMaterial(ConstantMaterialParams::default()),
    );
    enter(&mut out, NodeCategory::Material, "Layer", NodeKind::Layer(LayerParams::default()));
    enter(&mut out, NodeCategory::Material, "Queue", NodeKind::Queue(QueueParams::default()));
    enter(
        &mut out,
        NodeCategory::Material,
        "Build Terrain",
        NodeKind::BuildTerrain(BuildTerrainParams::default()),
    );
    enter(
        &mut out,
        NodeCategory::Positions,
        "Jittered Grid",
        NodeKind::JitteredGrid(JitteredGridParams::default()),
    );
    enter(
        &mut out,
        NodeCategory::Positions,
        "Poisson Disk",
        NodeKind::PoissonDisk(PoissonDiskParams::default()),
    );
    enter(
        &mut out,
        NodeCategory::Scanners,
        "Find Flat",
        NodeKind::FindFlat(FindFlatParams::default()),
    );
    enter(
        &mut out,
        NodeCategory::Props,
        "Place Tree",
        NodeKind::PlaceTree(PlaceTreeParams::default()),
    );
    enter(
        &mut out,
        NodeCategory::Props,
        "Place Blueprint",
        NodeKind::PlaceBlueprint(PlaceBlueprintParams::default()),
    );
    enter(
        &mut out,
        NodeCategory::Props,
        "Place Structure",
        NodeKind::PlaceStructure(PlaceStructureParams::default()),
    );
    enter(&mut out, NodeCategory::Density, "River", NodeKind::River(RiverParams::default()));
    enter(&mut out, NodeCategory::Output, "Output", NodeKind::Output(OutputParams::default()));
    enter(
        &mut out,
        NodeCategory::Output,
        "Terrain Output",
        NodeKind::TerrainOutput(TerrainOutputParams::default()),
    );
    enter(
        &mut out,
        NodeCategory::Output,
        "World Output",
        NodeKind::WorldOutput(WorldOutputParams::default()),
    );
    enter(
        &mut out,
        NodeCategory::Output,
        "Zone Output",
        NodeKind::ZoneOutput(ZoneOutputParams::default()),
    );
    enter(
        &mut out,
        NodeCategory::Output,
        "Density Output",
        NodeKind::DensityOutput(DensityOutputParams::default()),
    );
    enter(
        &mut out,
        NodeCategory::Output,
        "Fluid Output",
        NodeKind::FluidOutput(FluidOutputParams::default()),
    );
    enter(
        &mut out,
        NodeCategory::Output,
        "Graph Output",
        NodeKind::GraphOutput(GraphOutputParams::default()),
    );
    enter(
        &mut out,
        NodeCategory::Foliage,
        "Poisson Distribution",
        NodeKind::PoissonDistribution(PoissonDistributionParams::default()),
    );
    enter(
        &mut out,
        NodeCategory::Foliage,
        "Surface Filter",
        NodeKind::SurfaceFilter(SurfaceFilterParams::default()),
    );
    enter(
        &mut out,
        NodeCategory::Foliage,
        "Biome Context Mask",
        NodeKind::BiomeContextMask(BiomeContextMaskParams::default()),
    );
    enter(
        &mut out,
        NodeCategory::Foliage,
        "Species Picker",
        NodeKind::SpeciesPicker(SpeciesPickerParams::default()),
    );
    enter(
        &mut out,
        NodeCategory::Foliage,
        "Paint Density",
        NodeKind::PaintDensity(PaintDensityParams::default()),
    );
    enter(
        &mut out,
        NodeCategory::Foliage,
        "Scatter Place",
        NodeKind::ScatterPlace(ScatterPlaceParams::default()),
    );
    enter(
        &mut out,
        NodeCategory::Biome,
        "Biome Param",
        NodeKind::BiomeParam(BiomeParamParams::default()),
    );
    out
}

/// The catalog lists every kind that has a place in it, once, and no kind
/// without one.
pub proof fn listed_kinds_are_placeable_once(entries: Seq<CatalogEntry>, kind: NodeKind)
    requires
        catalogued(entries),
        entries.len() == CATALOG_SIZE,
    ensures
        match kind.catalog_place() {
            Some(i) => 0 <= i < entries.len() && entries[i].kind.tag() == kind.tag() && forall|j: int|
                0 <= j < entries.len() && (#[trigger] entries[j]).kind.catalog_place()
                    == kind.catalog_place() ==> i == j,
            None => forall|j: int|
                0 <= j < entries.len() ==> (#[trigger] entries[j]).kind.catalog_place()
                    != kind.catalog_place(),
        },
{
    if let Some(i) = kind.catalog_place() {
        assert(entries[i].kind.catalog_place() == Some(i));
    }
}

} // verus!
