//! Colors and markers of the editor.
use crate::diagnostic::Severity;
use crate::node::{NodeCategory, Rgb};
use crate::pin::PinType;
use vstd::prelude::*;

verus! {

/// The shape a pin marker is drawn in.
#[derive(Clone, Copy, PartialEq, Eq, Structural, Hash, Debug)]
pub enum PinShape {
    /// Continuous fields and transfer functions.
    Circle,
    /// Discrete providers, categories and identities.
    Square,
    /// Positional data.
    Triangle,
    /// Terminal payloads.
    Star,
}

/// The color of a pin type, distinct for each.
pub open spec fn color_of_pin(ty: PinType) -> Rgb {
    match ty {
        PinType::Scalar => Rgb { r: 180, g: 220, b: 255 },
        PinType::Density => Rgb { r: 120, g: 200, b: 120 },
        PinType::SurfaceField => Rgb { r: 110, g: 205, b: 200 },
        PinType::Material => Rgb { r: 220, g: 90, b: 90 },
        PinType::FluidProvider => Rgb { r: 80, g: 160, b: 235 },
        PinType::Positions => Rgb { r: 230, g: 200, b: 70 },
        PinType::Assignments => Rgb { r: 230, g: 160, b: 70 },
        PinType::Curve => Rgb { r: 255, g: 200, b: 120 },
        PinType::Vec3 => Rgb { r: 255, g: 140, b: 200 },
        PinType::BiomeId => Rgb { r: 180, g: 130, b: 255 },
        PinType::ZoneId => Rgb { r: 150, g: 110, b: 215 },
        PinType::Terrain => Rgb { r: 230, g: 230, b: 230 },
        PinType::PaintOutput => Rgb { r: 100, g: 190, b: 100 },
        PinType::ScatterOutput => Rgb { r: 160, g: 200, b: 80 },
        PinType::PlacementMask => Rgb { r: 130, g: 175, b: 160 },
        PinType::SpeciesWeights => Rgb { r: 215, g: 175, b: 110 },
    }
}

/// Distinct color of a pin type, for markers and wires.
pub fn pin_color(ty: PinType) -> (r: Rgb)
    ensures
        r == color_of_pin(ty),
{
    match ty {
        PinType::Scalar => Rgb { r: 180, g: 220, b: 255 },
        PinType::Density => Rgb { r: 120, g: 200, b: 120 },
        PinType::SurfaceField => Rgb { r: 110, g: 205, b: 200 },
        PinType::Material => Rgb { r: 220, g: 90, b: 90 },
        PinType::FluidProvider => Rgb { r: 80, g: 160, b: 235 },
        PinType::Positions => Rgb { r: 230, g: 200, b: 70 },
        PinType::Assignments => Rgb { r: 230, g: 160, b: 70 },
        PinType::Curve => Rgb { r: 255, g: 200, b: 120 },
        PinType::Vec3 => Rgb { r: 255, g: 140, b: 200 },
        PinType::BiomeId => Rgb { r: 180, g: 130, b: 255 },
        PinType::ZoneId => Rgb { r: 150, g: 110, b: 215 },
        PinType::Terrain => Rgb { r: 230, g: 230, b: 230 },
        PinType::PaintOutput => Rgb { r: 100, g: 190, b: 100 },
        PinType::ScatterOutput => Rgb { r: 160, g: 200, b: 80 },
        PinType::PlacementMask => Rgb { r: 130, g: 175, b: 160 },
        PinType::SpeciesWeights => Rgb { r: 215, g: 175, b: 110 },
    }
}

/// Pin types are told apart by their colors.
pub proof fn pin_colors_are_distinct(a: PinType, b: PinType)
    ensures
        color_of_pin(a) == color_of_pin(b) <==> a == b,
{
}

/// The header color of a category.
pub open spec fn fill_of(category: NodeCategory) -> Rgb {
    match category {
        NodeCategory::Source => Rgb { r: 0x4c, g: 0x9a, b: 0xff },
        NodeCategory::Math => Rgb { r: 0x9c, g: 0x7c, b: 0xff },
        NodeCategory::Curves => Rgb { r: 0xff, g: 0xb3, b: 0x4c },
        NodeCategory::Domain => Rgb { r: 0xff, g: 0x7c, b: 0xc4 },
        NodeCategory::Density => Rgb { r: 0x6c, g: 0xc0, b: 0x6c },
        NodeCategory::Material => Rgb { r: 0xe0, g: 0x4c, b: 0x4c },
        NodeCategory::Positions => Rgb { r: 0xe0, g: 0xc0, b: 0x4c },
        NodeCategory::Scanners => Rgb { r: 0xb0, g: 0xb0, b: 0xc0 },
        NodeCategory::Props => Rgb { r: 0xc8, g: 0x90, b: 0x60 },
        NodeCategory::Biome => Rgb { r: 0xb0, g: 0x80, b: 0xff },
        NodeCategory::Library => Rgb { r: 0xb0, g: 0x80, b: 0xff },
        NodeCategory::Graph => Rgb { r: 0x80, g: 0xa0, b: 0xff },
        NodeCategory::Foliage => Rgb { r: 0x6c, g: 0xb0, b: 0x4c },
        NodeCategory::Output => Rgb { r: 0xe0, g: 0x4c, b: 0x4c },
    }
}

/// Header color of a category.
pub fn category_fill(category: NodeCategory) -> (r: Rgb)
    ensures
        r == fill_of(category),
{
    match category {
        NodeCategory::Source => Rgb { r: 0x4c, g: 0x9a, b: 0xff },
        NodeCategory::Math => Rgb { r: 0x9c, g: 0x7c, b: 0xff },
        NodeCategory::Curves => Rgb { r: 0xff, g: 0xb3, b: 0x4c },
        NodeCategory::Domain => Rgb { r: 0xff, g: 0x7c, b: 0xc4 },
        NodeCategory::Density => Rgb { r: 0x6c, g: 0xc0, b: 0x6c },
        NodeCategory::Material => Rgb { r: 0xe0, g: 0x4c, b: 0x4c },
        NodeCategory::Positions => Rgb { r: 0xe0, g: 0xc0, b: 0x4c },
        NodeCategory::Scanners => Rgb { r: 0xb0, g: 0xb0, b: 0xc0 },
        NodeCategory::Props => Rgb { r: 0xc8, g: 0x90, b: 0x60 },
        NodeCategory::Biome => Rgb { r: 0xb0, g: 0x80, b: 0xff },
        NodeCategory::Library => Rgb { r: 0xb0, g: 0x80, b: 0xff },
        NodeCategory::Graph => Rgb { r: 0x80, g: 0xa0, b: 0xff },
        NodeCategory::Foliage => Rgb { r: 0x6c, g: 0xb0, b: 0x4c },
        NodeCategory::Output => Rgb { r: 0xe0, g: 0x4c, b: 0x4c },
    }
}

/// A thousand times the perceived brightness of a color.
pub open spec fn brightness(c: Rgb) -> int {
    299 * c.r + 587 * c.g + 114 * c.b
}

/// Header text color of a category: dark on a bright band, light on a dark one.
pub fn header_text_color(category: NodeCategory) -> (r: Rgb)
    ensures
        r == (if brightness(fill_of(category)) > 140_000 {
            Rgb { r: 20, g: 20, b: 20 }
        } else {
            Rgb { r: 235, g: 235, b: 235 }
        }),
{
    let c = category_fill(category);
    let luma: u32 = 299 * c.r as u32 + 587 * c.g as u32 + 114 * c.b as u32;
    if luma > 140_000 {
        Rgb { r: 20, g: 20, b: 20 }
    } else {
        Rgb { r: 235, g: 235, b: 235 }
    }
}

/// The marker shape of a pin type, by family.
pub open spec fn shape_of_pin(ty: PinType) -> PinShape {
    match ty {
        PinType::Scalar | PinType::Density | PinType::Curve | PinType::SurfaceField => {
            PinShape::Circle
        },
        PinType::Positions | PinType::Vec3 => PinShape::Triangle,
        PinType::Terrain | PinType::PaintOutput | PinType::ScatterOutput => PinShape::Star,
        _ => PinShape::Square,
    }
}

/// Marker shape of a pin type, by family. The color tells the exact type.
pub fn pin_shape(ty: PinType) -> (r: PinShape)
    ensures
        r == shape_of_pin(ty),
{
    match ty {
        PinType::Scalar | PinType::Density | PinType::Curve | PinType::SurfaceField => {
            PinShape::Circle
        },
        PinType::Material | PinType::FluidProvider | PinType::BiomeId | PinType::ZoneId
        | PinType::Assignments | PinType::PlacementMask | PinType::SpeciesWeights => {
            PinShape::Square
        },
        PinType::Positions | PinType::Vec3 => PinShape::Triangle,
        PinType::Terrain | PinType::PaintOutput | PinType::ScatterOutput => PinShape::Star,
    }
}

/// The badge color of a severity.
pub open spec fn color_of_severity(s: Severity) -> Rgb {
    match s {
        Severity::Error => Rgb { r: 220, g: 60, b: 60 },
        Severity::Warning => Rgb { r: 220, g: 200, b: 60 },
        Severity::Info => Rgb { r: 100, g: 180, b: 230 },
    }
}

/// Badge color of a severity.
pub fn severity_color(s: Severity) -> (r: Rgb)
    ensures
        r == color_of_severity(s),
{
    match s {
        Severity::Error => Rgb { r: 220, g: 60, b: 60 },
        Severity::Warning => Rgb { r: 220, g: 200, b: 60 },
        Severity::Info => Rgb { r: 100, g: 180, b: 230 },
    }
}

} // verus!
