//! Pin types and compatibility rules.
use vstd::prelude::*;

verus! {

/// The type carried by a pin or an edge.
#[derive(Clone, Copy, PartialEq, Eq, Structural, Hash, Debug)]
pub enum PinType {
    /// A single value or a per-position scalar.
    Scalar,
    /// Three-dimensional scalar field; solid where positive.
    Density,
    /// Field over the world `(x, z)` plane, such as a climate channel.
    SurfaceField,
    /// Material provider: which block goes here.
    Material,
    /// Fluid provider: which fluid is here, and to what level.
    FluidProvider,
    /// A set of points for prop placement.
    Positions,
    /// Position to prop bindings.
    Assignments,
    /// Editable spline.
    Curve,
    /// Three-dimensional vector.
    Vec3,
    /// Discrete biome identifier.
    BiomeId,
    /// Discrete zone identifier.
    ZoneId,
    /// A chunk of voxels.
    Terrain,
    /// A foliage paint layer.
    PaintOutput,
    /// A bucket of scatter instances.
    ScatterOutput,
    /// Where candidates may be placed.
    PlacementMask,
    /// Relative weights of species.
    SpeciesWeights,
}

impl PinType {
    /// The automatic coercions: a scalar is a constant field, and a curve is
    /// sampled at a scalar. Nothing else coerces.
    pub open spec fn coerces(from: PinType, to: PinType) -> bool {
        ||| from == PinType::Scalar && to == PinType::Density
        ||| from == PinType::Curve && to == PinType::Scalar
    }

    /// Whether an output of the first type may feed an input of the second.
    pub open spec fn compatible(output: PinType, input: PinType) -> bool {
        output == input || PinType::coerces(output, input)
    }

    /// True if an output of type `output` may feed an input of type `input`,
    /// either by exact match or by an automatic coercion.
    pub fn is_compatible(output: PinType, input: PinType) -> (r: bool)
        ensures
            r == PinType::compatible(output, input),
    {
        output == input || PinType::can_coerce(output, input)
    }

    /// Automatic coercions, applied implicitly: `Scalar` to `Density` and
    /// `Curve` to `Scalar`.
    pub fn can_coerce(from: PinType, to: PinType) -> (r: bool)
        ensures
            r == PinType::coerces(from, to),
    {
        (from == PinType::Scalar && to == PinType::Density) || (from == PinType::Curve && to
            == PinType::Scalar)
    }

    /// The variant's name, as diagnostics spell it.
    pub open spec fn spelled(self) -> Seq<char> {
        match self {
            PinType::Scalar => "Scalar"@,
            PinType::Density => "Density"@,
            PinType::SurfaceField => "SurfaceField"@,
            PinType::Material => "Material"@,
            PinType::FluidProvider => "FluidProvider"@,
            PinType::Positions => "Positions"@,
            PinType::Assignments => "Assignments"@,
            PinType::Curve => "Curve"@,
            PinType::Vec3 => "Vec3"@,
            PinType::BiomeId => "BiomeId"@,
            PinType::ZoneId => "ZoneId"@,
            PinType::Terrain => "Terrain"@,
            PinType::PaintOutput => "PaintOutput"@,
            PinType::ScatterOutput => "ScatterOutput"@,
            PinType::PlacementMask => "PlacementMask"@,
            PinType::SpeciesWeights => "SpeciesWeights"@,
        }
    }

    /// The variant's name, as diagnostics spell it.
    pub fn name(self) -> (r: &'static str)
        ensures
            r@ == self.spelled(),
    {
        match self {
            PinType::Scalar => "Scalar",
            PinType::Density => "Density",
            PinType::SurfaceField => "SurfaceField",
            PinType::Material => "Material",
            PinType::FluidProvider => "FluidProvider",
            PinType::Positions => "Positions",
            PinType::Assignments => "Assignments",
            PinType::Curve => "Curve",
            PinType::Vec3 => "Vec3",
            PinType::BiomeId => "BiomeId",
            PinType::ZoneId => "ZoneId",
            PinType::Terrain => "Terrain",
            PinType::PaintOutput => "PaintOutput",
            PinType::ScatterOutput => "ScatterOutput",
            PinType::PlacementMask => "PlacementMask",
            PinType::SpeciesWeights => "SpeciesWeights",
        }
    }
}

/// Coercion is one-way: a type that coerces into another is never fed by it.
pub proof fn coercion_is_one_way(from: PinType, to: PinType)
    requires
        PinType::coerces(from, to),
    ensures
        from != to,
        !PinType::compatible(to, from),
{
}

/// Every type other than `Scalar`, `Density` and `Curve` is strict: it feeds
/// only itself and is fed only by itself.
pub proof fn other_types_are_strict(strict: PinType, other: PinType)
    requires
        strict != PinType::Scalar,
        strict != PinType::Density,
        strict != PinType::Curve,
    ensures
        PinType::compatible(strict, other) <==> strict == other,
        PinType::compatible(other, strict) <==> strict == other,
{
}

} // verus!
