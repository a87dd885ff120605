//! Parameter records of the node kinds, with their defaults.
use crate::boundary::ResolvedBoundary;
use crate::ids::{GraphRefTarget, LibraryGraphId};
use crate::scalar::Single;
use crate::voxel::{MaterialId, ResolvedBlueprint};
use vstd::prelude::*;

verus! {

/// Fractal mode of a noise source.
#[derive(Clone, Copy, PartialEq, Eq, Structural, Hash, Debug)]
pub enum FractalType {
    /// Fractional Brownian motion.
    FBm,
    /// Ridged multifractal: sharp ridges.
    Ridged,
    /// Ping-pong: banded.
    PingPong,
}

impl Default for FractalType {
    fn default() -> (r: Self)
        ensures
            r == FractalType::FBm,
    {
        FractalType::FBm
    }
}

/// World coordinate axis selector.
#[derive(Clone, Copy, PartialEq, Eq, Structural, Hash, Debug)]
pub enum Axis {
    /// East.
    X,
    /// Up.
    Y,
    /// South.
    Z,
}

impl Default for Axis {
    fn default() -> (r: Self)
        ensures
            r == Axis::Y,
    {
        Axis::Y
    }
}

/// Whether two optional resolved boundaries present the same pins.
pub open spec fn same_resolved(a: Option<ResolvedBoundary>, b: Option<ResolvedBoundary>) -> bool {
    match (a, b) {
        (Some(x), Some(y)) => x@ == y@,
        (None, None) => true,
        _ => false,
    }
}

/// Whether two optional blueprints stamp the same template.
pub open spec fn same_blueprint(
    a: Option<ResolvedBlueprint>,
    b: Option<ResolvedBlueprint>,
) -> bool {
    match (a, b) {
        (Some(x), Some(y)) => x@ == y@,
        (None, None) => true,
        _ => false,
    }
}

/// A vector with the same items.
pub fn copy_vec<T: Copy>(v: &Vec<T>) -> (r: Vec<T>)
    ensures
        r@ == v@,
{
    let mut out: Vec<T> = Vec::new();
    let mut k: usize = 0;
    while k < v.len()
        invariant
            k <= v@.len(),
            out@ == v@.take(k as int),
        decreases v@.len() - k,
    {
        out.push(v[k]);
        k = k + 1;
    }
    out
}

fn copy_resolved(a: &Option<ResolvedBoundary>) -> (r: Option<ResolvedBoundary>)
    ensures
        same_resolved(*a, r),
{
    match a {
        Some(x) => Some(x.clone()),
        None => None,
    }
}

fn copy_blueprint(a: &Option<ResolvedBlueprint>) -> (r: Option<ResolvedBlueprint>)
    ensures
        same_blueprint(*a, r),
{
    match a {
        Some(x) => Some(x.clone()),
        None => None,
    }
}

/// Parameters shared by every fractal noise source.
#[derive(Clone, Copy, PartialEq, Eq, Structural, Debug)]
pub struct NoiseParams {
    /// Per-node seed, combined with the world seed.
    pub seed: u32,
    /// Base frequency, in cycles per world unit.
    pub frequency: Single,
    /// Number of fractal octaves.
    pub octaves: u32,
    /// Frequency multiplier per octave.
    pub lacunarity: Single,
    /// Amplitude multiplier per octave.
    pub gain: Single,
    /// Fractal mode.
    pub fractal_type: FractalType,
}

impl NoiseParams {
    /// Whether these are the parameters a fresh node starts from.
    pub open spec fn is_default(self) -> bool {
        self == (NoiseParams {
            seed: 0,
            frequency: Single { bits: 0x3c23_d70a },
            octaves: 4,
            lacunarity: Single { bits: 0x4000_0000 },
            gain: Single { bits: 0x3f00_0000 },
            fractal_type: FractalType::FBm,
        })
    }
}

impl Default for NoiseParams {
    fn default() -> (r: Self)
        ensures
            r.is_default(),
    {
        NoiseParams {
            seed: 0,
            frequency: Single { bits: 0x3c23_d70a },
            octaves: 4,
            lacunarity: Single { bits: 0x4000_0000 },
            gain: Single { bits: 0x3f00_0000 },
            fractal_type: FractalType::FBm,
        }
    }
}

/// Parameters for [`NodeKind::Threshold`](crate::node::NodeKind::Threshold).
#[derive(Clone, Copy, PartialEq, Eq, Structural, Debug)]
pub struct ThresholdParams {
    /// Values at or above it map to solid, below to empty.
    pub threshold: Single,
}

impl ThresholdParams {
    /// Whether these are the parameters a fresh node starts from.
    pub open spec fn is_default(self) -> bool {
        self == (ThresholdParams {
            threshold: Single { bits: 0x0000_0000 },
        })
    }
}

impl Default for ThresholdParams {
    fn default() -> (r: Self)
        ensures
            r.is_default(),
    {
        ThresholdParams {
            threshold: Single { bits: 0x0000_0000 },
        }
    }
}

/// Parameters for `Output`.
#[derive(PartialEq, Debug)]
pub struct OutputParams {
    /// Label of the output channel.
    pub label: String,
}

impl OutputParams {
    /// Whether these are the parameters a fresh node starts from.
    pub open spec fn is_default(self) -> bool {
        self.label@ =~= "terrain"@
    }
}

impl Default for OutputParams {
    fn default() -> (r: Self)
        ensures
            r.is_default(),
    {
        OutputParams {
            label: String::from_str("terrain"),
        }
    }
}

impl Clone for OutputParams {
    fn clone(&self) -> (r: Self)
        ensures
            r == *self,
    {
        OutputParams {
            label: self.label.clone(),
        }
    }
}

/// Parameters for `Constant`.
#[derive(Clone, Copy, PartialEq, Eq, Structural, Debug)]
pub struct ConstantParams {
    /// The value emitted at every position.
    pub value: Single,
}

impl ConstantParams {
    /// Whether these are the parameters a fresh node starts from.
    pub open spec fn is_default(self) -> bool {
        self == (ConstantParams {
            value: Single { bits: 0x0000_0000 },
        })
    }
}

impl Default for ConstantParams {
    fn default() -> (r: Self)
        ensures
            r.is_default(),
    {
        ConstantParams {
            value: Single { bits: 0x0000_0000 },
        }
    }
}

/// Parameters for `Add`: none.
#[derive(Clone, Copy, PartialEq, Eq, Structural, Debug)]
pub struct AddParams {
}

impl AddParams {
    /// Whether these are the parameters a fresh node starts from.
    pub open spec fn is_default(self) -> bool {
        self == (AddParams {  })
    }
}

impl Default for AddParams {
    fn default() -> (r: Self)
        ensures
            r.is_default(),
    {
        AddParams {  }
    }
}

/// Parameters for `WorldPos`: none.
#[derive(Clone, Copy, PartialEq, Eq, Structural, Debug)]
pub struct WorldPosParams {
}

impl WorldPosParams {
    /// Whether these are the parameters a fresh node starts from.
    pub open spec fn is_default(self) -> bool {
        self == (WorldPosParams {  })
    }
}

impl Default for WorldPosParams {
    fn default() -> (r: Self)
        ensures
            r.is_default(),
    {
        WorldPosParams {  }
    }
}

/// Parameters for `WorldAxis`: emit one world coordinate as a scalar field.
#[derive(Clone, Copy, PartialEq, Eq, Structural, Debug)]
pub struct WorldAxisParams {
    /// Which world axis to emit.
    pub axis: Axis,
}

impl WorldAxisParams {
    /// Whether these are the parameters a fresh node starts from.
    pub open spec fn is_default(self) -> bool {
        self == (WorldAxisParams {
            axis: Axis::Y,
        })
    }
}

impl Default for WorldAxisParams {
    fn default() -> (r: Self)
        ensures
            r.is_default(),
    {
        WorldAxisParams {
            axis: Axis::Y,
        }
    }
}

/// Parameters for `Clamp`.
#[derive(Clone, Copy, PartialEq, Eq, Structural, Debug)]
pub struct ClampParams {
    /// Lower bound.
    pub min: Single,
    /// Upper bound.
    pub max: Single,
}

impl ClampParams {
    /// Whether these are the parameters a fresh node starts from.
    pub open spec fn is_default(self) -> bool {
        self == (ClampParams {
            min: Single { bits: 0x0000_0000 },
            max: Single { bits: 0x3f80_0000 },
        })
    }
}

impl Default for ClampParams {
    fn default() -> (r: Self)
        ensures
            r.is_default(),
    {
        ClampParams {
            min: Single { bits: 0x0000_0000 },
            max: Single { bits: 0x3f80_0000 },
        }
    }
}

/// Parameters for `Remap`.
#[derive(Clone, Copy, PartialEq, Eq, Structural, Debug)]
pub struct RemapParams {
    /// Source range start.
    pub src_lo: Single,
    /// Source range end.
    pub src_hi: Single,
    /// Destination range start.
    pub dst_lo: Single,
    /// Destination range end.
    pub dst_hi: Single,
}

impl RemapParams {
    /// Whether these are the parameters a fresh node starts from.
    pub open spec fn is_default(self) -> bool {
        self == (RemapParams {
            src_lo: Single { bits: 0xbf80_0000 },
            src_hi: Single { bits: 0x3f80_0000 },
            dst_lo: Single { bits: 0x0000_0000 },
            dst_hi: Single { bits: 0x3f80_0000 },
        })
    }
}

impl Default for RemapParams {
    fn default() -> (r: Self)
        ensures
            r.is_default(),
    {
        RemapParams {
            src_lo: Single { bits: 0xbf80_0000 },
            src_hi: Single { bits: 0x3f80_0000 },
            dst_lo: Single { bits: 0x0000_0000 },
            dst_hi: Single { bits: 0x3f80_0000 },
        }
    }
}

/// Parameters for `CurveMapper`. Stops ascend by their first component; lookup clamps at the ends.
#[derive(PartialEq, Debug)]
pub struct CurveMapperParams {
    /// Knots, piecewise-linear between them.
    pub stops: Vec<(Single, Single)>,
}

impl CurveMapperParams {
    /// Whether these are the parameters a fresh node starts from.
    pub open spec fn is_default(self) -> bool {
        self.stops@ =~= seq![(Single { bits: 0x0000_0000 }, Single { bits: 0x0000_0000 }), (Single { bits: 0x3f80_0000 }, Single { bits: 0x3f80_0000 })]
    }
}

impl Default for CurveMapperParams {
    fn default() -> (r: Self)
        ensures
            r.is_default(),
    {
        let mut stops: Vec<(Single, Single)> = Vec::new();
        stops.push((Single { bits: 0x0000_0000 }, Single { bits: 0x0000_0000 }));
        stops.push((Single { bits: 0x3f80_0000 }, Single { bits: 0x3f80_0000 }));
        CurveMapperParams {
            stops,
        }
    }
}

impl CurveMapperParams {
    /// Whether two records hold the same values.
    pub open spec fn same(self, other: CurveMapperParams) -> bool {
        &&& self.stops@ == other.stops@
    }
}

impl Clone for CurveMapperParams {
    fn clone(&self) -> (r: Self)
        ensures
            self.same(r),
    {
        CurveMapperParams {
            stops: copy_vec(&self.stops),
        }
    }
}

/// Parameters for `DomainWarp`.
#[derive(Clone, Copy, PartialEq, Eq, Structural, Debug)]
pub struct DomainWarpParams {
    /// Per-node seed.
    pub seed: u32,
    /// Frequency of the warp noise.
    pub frequency: Single,
    /// Maximum horizontal displacement, in world units.
    pub amplitude: Single,
}

impl DomainWarpParams {
    /// Whether these are the parameters a fresh node starts from.
    pub open spec fn is_default(self) -> bool {
        self == (DomainWarpParams {
            seed: 0,
            frequency: Single { bits: 0x3ca3_d70a },
            amplitude: Single { bits: 0x4100_0000 },
        })
    }
}

impl Default for DomainWarpParams {
    fn default() -> (r: Self)
        ensures
            r.is_default(),
    {
        DomainWarpParams {
            seed: 0,
            frequency: Single { bits: 0x3ca3_d70a },
            amplitude: Single { bits: 0x4100_0000 },
        }
    }
}

/// Parameters for `ConstantMaterial`.
#[derive(Clone, Copy, PartialEq, Eq, Structural, Debug)]
pub struct ConstantMaterialParams {
    /// The material emitted at every position.
    pub material: MaterialId,
}

impl ConstantMaterialParams {
    /// Whether these are the parameters a fresh node starts from.
    pub open spec fn is_default(self) -> bool {
        self == (ConstantMaterialParams {
            material: MaterialId(1),
        })
    }
}

impl Default for ConstantMaterialParams {
    fn default() -> (r: Self)
        ensures
            r.is_default(),
    {
        ConstantMaterialParams {
            material: MaterialId(1),
        }
    }
}

/// Parameters for `Layer`: top-down material stacking below a surface.
#[derive(PartialEq, Debug)]
pub struct LayerParams {
    /// Top-down `(material, thickness)` pairs.
    pub bands: Vec<(MaterialId, u32)>,
    /// Material below the last band.
    pub fill: MaterialId,
}

impl LayerParams {
    /// Whether these are the parameters a fresh node starts from.
    pub open spec fn is_default(self) -> bool {
        &&& self.bands@ =~= seq![(MaterialId(6), 1u32), (MaterialId(3), 3u32)]
        &&& self.fill == MaterialId(1)
    }
}

impl Default for LayerParams {
    fn default() -> (r: Self)
        ensures
            r.is_default(),
    {
        let mut bands: Vec<(MaterialId, u32)> = Vec::new();
        bands.push((MaterialId(6), 1u32));
        bands.push((MaterialId(3), 3u32));
        LayerParams {
            bands,
            fill: MaterialId(1),
        }
    }
}

impl LayerParams {
    /// Whether two records hold the same values.
    pub open spec fn same(self, other: LayerParams) -> bool {
        &&& self.bands@ == other.bands@
        &&& self.fill == other.fill
    }
}

impl Clone for LayerParams {
    fn clone(&self) -> (r: Self)
        ensures
            self.same(r),
    {
        LayerParams {
            bands: copy_vec(&self.bands),
            fill: self.fill,
        }
    }
}

/// Parameters for `Multiply`: none.
#[derive(Clone, Copy, PartialEq, Eq, Structural, Debug)]
pub struct MultiplyParams {
}

impl MultiplyParams {
    /// Whether these are the parameters a fresh node starts from.
    pub open spec fn is_default(self) -> bool {
        self == (MultiplyParams {  })
    }
}

impl Default for MultiplyParams {
    fn default() -> (r: Self)
        ensures
            r.is_default(),
    {
        MultiplyParams {  }
    }
}

/// Parameters for `Subtract`: none.
#[derive(Clone, Copy, PartialEq, Eq, Structural, Debug)]
pub struct SubtractParams {
}

impl SubtractParams {
    /// Whether these are the parameters a fresh node starts from.
    pub open spec fn is_default(self) -> bool {
        self == (SubtractParams {  })
    }
}

impl Default for SubtractParams {
    fn default() -> (r: Self)
        ensures
            r.is_default(),
    {
        SubtractParams {  }
    }
}

/// Parameters for `Min`: none.
#[derive(Clone, Copy, PartialEq, Eq, Structural, Debug)]
pub struct MinParams {
}

impl MinParams {
    /// Whether these are the parameters a fresh node starts from.
    pub open spec fn is_default(self) -> bool {
        self == (MinParams {  })
    }
}

impl Default for MinParams {
    fn default() -> (r: Self)
        ensures
            r.is_default(),
    {
        MinParams {  }
    }
}

/// Parameters for `Max`: none.
#[derive(Clone, Copy, PartialEq, Eq, Structural, Debug)]
pub struct MaxParams {
}

impl MaxParams {
    /// Whether these are the parameters a fresh node starts from.
    pub open spec fn is_default(self) -> bool {
        self == (MaxParams {  })
    }
}

impl Default for MaxParams {
    fn default() -> (r: Self)
        ensures
            r.is_default(),
    {
        MaxParams {  }
    }
}

/// Parameters for `Lerp`: none.
#[derive(Clone, Copy, PartialEq, Eq, Structural, Debug)]
pub struct LerpParams {
}

impl LerpParams {
    /// Whether these are the parameters a fresh node starts from.
    pub open spec fn is_default(self) -> bool {
        self == (LerpParams {  })
    }
}

impl Default for LerpParams {
    fn default() -> (r: Self)
        ensures
            r.is_default(),
    {
        LerpParams {  }
    }
}

/// Parameters for `Abs`: none.
#[derive(Clone, Copy, PartialEq, Eq, Structural, Debug)]
pub struct AbsParams {
}

impl AbsParams {
    /// Whether these are the parameters a fresh node starts from.
    pub open spec fn is_default(self) -> bool {
        self == (AbsParams {  })
    }
}

impl Default for AbsParams {
    fn default() -> (r: Self)
        ensures
            r.is_default(),
    {
        AbsParams {  }
    }
}

/// Parameters for `SurfaceToDensity`: none.
#[derive(Clone, Copy, PartialEq, Eq, Structural, Debug)]
pub struct SurfaceToDensityParams {
}

impl SurfaceToDensityParams {
    /// Whether these are the parameters a fresh node starts from.
    pub open spec fn is_default(self) -> bool {
        self == (SurfaceToDensityParams {  })
    }
}

impl Default for SurfaceToDensityParams {
    fn default() -> (r: Self)
        ensures
            r.is_default(),
    {
        SurfaceToDensityParams {  }
    }
}

/// Parameters for `Union`: none.
#[derive(Clone, Copy, PartialEq, Eq, Structural, Debug)]
pub struct UnionParams {
}

impl UnionParams {
    /// Whether these are the parameters a fresh node starts from.
    pub open spec fn is_default(self) -> bool {
        self == (UnionParams {  })
    }
}

impl Default for UnionParams {
    fn default() -> (r: Self)
        ensures
            r.is_default(),
    {
        UnionParams {  }
    }
}

/// Parameters for `Intersect`: none.
#[derive(Clone, Copy, PartialEq, Eq, Structural, Debug)]
pub struct IntersectParams {
}

impl IntersectParams {
    /// Whether these are the parameters a fresh node starts from.
    pub open spec fn is_default(self) -> bool {
        self == (IntersectParams {  })
    }
}

impl Default for IntersectParams {
    fn default() -> (r: Self)
        ensures
            r.is_default(),
    {
        IntersectParams {  }
    }
}

/// Parameters for `DensitySubtract`: none.
#[derive(Clone, Copy, PartialEq, Eq, Structural, Debug)]
pub struct DensitySubtractParams {
}

impl DensitySubtractParams {
    /// Whether these are the parameters a fresh node starts from.
    pub open spec fn is_default(self) -> bool {
        self == (DensitySubtractParams {  })
    }
}

impl Default for DensitySubtractParams {
    fn default() -> (r: Self)
        ensures
            r.is_default(),
    {
        DensitySubtractParams {  }
    }
}

/// Parameters for `Mix`: none.
#[derive(Clone, Copy, PartialEq, Eq, Structural, Debug)]
pub struct MixParams {
}

impl MixParams {
    /// Whether these are the parameters a fresh node starts from.
    pub open spec fn is_default(self) -> bool {
        self == (MixParams {  })
    }
}

impl Default for MixParams {
    fn default() -> (r: Self)
        ensures
            r.is_default(),
    {
        MixParams {  }
    }
}

/// Parameters for `Mask`: none.
#[derive(Clone, Copy, PartialEq, Eq, Structural, Debug)]
pub struct MaskParams {
}

impl MaskParams {
    /// Whether these are the parameters a fresh node starts from.
    pub open spec fn is_default(self) -> bool {
        self == (MaskParams {  })
    }
}

impl Default for MaskParams {
    fn default() -> (r: Self)
        ensures
            r.is_default(),
    {
        MaskParams {  }
    }
}

/// Parameters for `Queue`: none.
#[derive(Clone, Copy, PartialEq, Eq, Structural, Debug)]
pub struct QueueParams {
}

impl QueueParams {
    /// Whether these are the parameters a fresh node starts from.
    pub open spec fn is_default(self) -> bool {
        self == (QueueParams {  })
    }
}

impl Default for QueueParams {
    fn default() -> (r: Self)
        ensures
            r.is_default(),
    {
        QueueParams {  }
    }
}

/// Parameters for `TerrainOutput`: none.
#[derive(Clone, Copy, PartialEq, Eq, Structural, Debug)]
pub struct TerrainOutputParams {
}

impl TerrainOutputParams {
    /// Whether these are the parameters a fresh node starts from.
    pub open spec fn is_default(self) -> bool {
        self == (TerrainOutputParams {  })
    }
}

impl Default for TerrainOutputParams {
    fn default() -> (r: Self)
        ensures
            r.is_default(),
    {
        TerrainOutputParams {  }
    }
}

/// Parameters for `BuildTerrain`: none.
#[derive(Clone, Copy, PartialEq, Eq, Structural, Debug)]
pub struct BuildTerrainParams {
}

impl BuildTerrainParams {
    /// Whether these are the parameters a fresh node starts from.
    pub open spec fn is_default(self) -> bool {
        self == (BuildTerrainParams {  })
    }
}

impl Default for BuildTerrainParams {
    fn default() -> (r: Self)
        ensures
            r.is_default(),
    {
        BuildTerrainParams {  }
    }
}

/// Parameters for `DensityOutput`: none.
#[derive(Clone, Copy, PartialEq, Eq, Structural, Debug)]
pub struct DensityOutputParams {
}

impl DensityOutputParams {
    /// Whether these are the parameters a fresh node starts from.
    pub open spec fn is_default(self) -> bool {
        self == (DensityOutputParams {  })
    }
}

impl Default for DensityOutputParams {
    fn default() -> (r: Self)
        ensures
            r.is_default(),
    {
        DensityOutputParams {  }
    }
}

/// Parameters for `FluidOutput`: none.
#[derive(Clone, Copy, PartialEq, Eq, Structural, Debug)]
pub struct FluidOutputParams {
}

impl FluidOutputParams {
    /// Whether these are the parameters a fresh node starts from.
    pub open spec fn is_default(self) -> bool {
        self == (FluidOutputParams {  })
    }
}

impl Default for FluidOutputParams {
    fn default() -> (r: Self)
        ensures
            r.is_default(),
    {
        FluidOutputParams {  }
    }
}

/// Parameters for `JitteredGrid`: one jittered point per grid cell, kept with probability `density`.
#[derive(Clone, Copy, PartialEq, Eq, Structural, Debug)]
pub struct JitteredGridParams {
    /// Per-node seed, combined with world cell coordinates.
    pub seed: u32,
    /// Grid cell size, in world units.
    pub cell_size: Single,
    /// Largest jitter, as a fraction of a cell.
    pub jitter: Single,
    /// Probability that a cell emits a point.
    pub density: Single,
}

impl JitteredGridParams {
    /// Whether these are the parameters a fresh node starts from.
    pub open spec fn is_default(self) -> bool {
        self == (JitteredGridParams {
            seed: 0,
            cell_size: Single { bits: 0x40c0_0000 },
            jitter: Single { bits: 0x3f19_999a },
            density: Single { bits: 0x3f00_0000 },
        })
    }
}

impl Default for JitteredGridParams {
    fn default() -> (r: Self)
        ensures
            r.is_default(),
    {
        JitteredGridParams {
            seed: 0,
            cell_size: Single { bits: 0x40c0_0000 },
            jitter: Single { bits: 0x3f19_999a },
            density: Single { bits: 0x3f00_0000 },
        }
    }
}

/// Parameters for `PoissonDisk`: blue-noise scatter with a minimum spacing.
#[derive(Clone, Copy, PartialEq, Eq, Structural, Debug)]
pub struct PoissonDiskParams {
    /// Per-node seed.
    pub seed: u32,
    /// Minimum distance between two points, in world units.
    pub radius: Single,
    /// Candidate attempts per active point.
    pub k: u32,
}

impl PoissonDiskParams {
    /// Whether these are the parameters a fresh node starts from.
    pub open spec fn is_default(self) -> bool {
        self == (PoissonDiskParams {
            seed: 0,
            radius: Single { bits: 0x4080_0000 },
            k: 30,
        })
    }
}

impl Default for PoissonDiskParams {
    fn default() -> (r: Self)
        ensures
            r.is_default(),
    {
        PoissonDiskParams {
            seed: 0,
            radius: Single { bits: 0x4080_0000 },
            k: 30,
        }
    }
}

/// Parameters for `FindFlat`: keep points whose surface is flat and of an allowed material.
#[derive(PartialEq, Debug)]
pub struct FindFlatParams {
    /// Largest allowed surface difference to a neighboring column.
    pub max_step: i32,
    /// Allowed surface materials. Empty accepts any solid surface.
    pub on_materials: Vec<MaterialId>,
}

impl FindFlatParams {
    /// Whether these are the parameters a fresh node starts from.
    pub open spec fn is_default(self) -> bool {
        &&& self.max_step == 1
        &&& self.on_materials@.len() == 0
    }
}

impl Default for FindFlatParams {
    fn default() -> (r: Self)
        ensures
            r.is_default(),
    {
        FindFlatParams {
            max_step: 1,
            on_materials: Vec::new(),
        }
    }
}

impl FindFlatParams {
    /// Whether two records hold the same values.
    pub open spec fn same(self, other: FindFlatParams) -> bool {
        &&& self.max_step == other.max_step
        &&& self.on_materials@ == other.on_materials@
    }
}

impl Clone for FindFlatParams {
    fn clone(&self) -> (r: Self)
        ensures
            self.same(r),
    {
        FindFlatParams {
            max_step: self.max_step,
            on_materials: copy_vec(&self.on_materials),
        }
    }
}

/// Shape parameters of a tree species. The default is a generic broadleaf.
#[derive(Clone, Copy, PartialEq, Eq, Structural, Debug)]
pub struct TreeSpecies {
    /// Radius of the trunk at the ground, in voxels.
    pub trunk_radius: Single,
    /// Radius of a branch tip, in voxels.
    pub tip_radius: Single,
    /// Between-tree variation of internode length and branch angle, as a fraction.
    pub variance: Single,
    /// Length of the first internode, in voxels.
    pub internode: Single,
    /// Length multiplier at each step along one axis.
    pub taper: Single,
    /// Length multiplier when a lateral leaves its parent axis.
    pub child_scale: Single,
    /// Internodes an axis extends by before it terminates.
    pub axis_steps: u8,
    /// Deepest branching order. Zero is a bare trunk.
    pub max_order: u8,
    /// Laterals emitted per internode.
    pub laterals: u8,
    /// Angle a lateral leaves its parent axis at, in radians.
    pub branch_angle: Single,
    /// Per-step bend toward world up, as a fraction of the full correction.
    pub gravitropism: Single,
    /// Random angular wobble per internode, in radians.
    pub wobble: Single,
    /// Attraction points scattered through the crown. Zero disables colonization.
    pub crown_attractors: u16,
    /// Crown center height, as a fraction of the skeleton height.
    pub crown_center: Single,
    /// Crown horizontal radius, in voxels.
    pub crown_radius: Single,
    /// Crown vertical radius, in voxels.
    pub crown_height: Single,
    /// How far a node can see an attractor.
    pub influence: Single,
    /// Attractors this close to a node are consumed.
    pub kill_radius: Single,
    /// Length of one colonization growth, in voxels.
    pub colonize_step: Single,
    /// Most lobes a canopy may carry. Zero disables the canopy.
    pub max_lobes: u8,
    /// Lobe radius per unit of supplying cross-section.
    pub lobe_scale: Single,
    /// Per-lobe size variation, as a fraction.
    pub lobe_size_jitter: Single,
    /// Per-axis stretch of a lobe, as a fraction.
    pub lobe_anisotropy: Single,
    /// Lobes closer than this fraction of their summed radii are merged.
    pub lobe_separation: Single,
    /// Lobes smaller than this are dropped, in voxels.
    pub lobe_min_radius: Single,
    /// Declared upper bound on horizontal crown reach, in voxels.
    pub max_crown_reach: Single,
}

impl Default for TreeSpecies {
    fn default() -> (r: Self)
        ensures
            r == (TreeSpecies {
                trunk_radius: Single { bits: 0x3f80_0000 },
                tip_radius: Single { bits: 0x3d75_c28f },
                variance: Single { bits: 0x3e80_0000 },
                internode: Single { bits: 0x3f99_999a },
                taper: Single { bits: 0x3f61_47ae },
                child_scale: Single { bits: 0x3f33_3333 },
                axis_steps: 5,
                max_order: 2,
                laterals: 1,
                branch_angle: Single { bits: 0x3f66_6666 },
                gravitropism: Single { bits: 0x3e80_0000 },
                wobble: Single { bits: 0x3e38_51ec },
                crown_attractors: 0,
                crown_center: Single { bits: 0x3f59_999a },
                crown_radius: Single { bits: 0x4060_0000 },
                crown_height: Single { bits: 0x4020_0000 },
                influence: Single { bits: 0x4080_0000 },
                kill_radius: Single { bits: 0x3eb3_3333 },
                colonize_step: Single { bits: 0x3ee6_6666 },
                max_lobes: 6,
                lobe_scale: Single { bits: 0x3fcc_cccd },
                lobe_size_jitter: Single { bits: 0x3e8f_5c29 },
                lobe_anisotropy: Single { bits: 0x3e61_47ae },
                lobe_separation: Single { bits: 0x3f40_0000 },
                lobe_min_radius: Single { bits: 0x3ecc_cccd },
                max_crown_reach: Single { bits: 0x4100_0000 },
            }),
    {
        TreeSpecies {
            trunk_radius: Single { bits: 0x3f80_0000 },
            tip_radius: Single { bits: 0x3d75_c28f },
            variance: Single { bits: 0x3e80_0000 },
            internode: Single { bits: 0x3f99_999a },
            taper: Single { bits: 0x3f61_47ae },
            child_scale: Single { bits: 0x3f33_3333 },
            axis_steps: 5,
            max_order: 2,
            laterals: 1,
            branch_angle: Single { bits: 0x3f66_6666 },
            gravitropism: Single { bits: 0x3e80_0000 },
            wobble: Single { bits: 0x3e38_51ec },
            crown_attractors: 0,
            crown_center: Single { bits: 0x3f59_999a },
            crown_radius: Single { bits: 0x4060_0000 },
            crown_height: Single { bits: 0x4020_0000 },
            influence: Single { bits: 0x4080_0000 },
            kill_radius: Single { bits: 0x3eb3_3333 },
            colonize_step: Single { bits: 0x3ee6_6666 },
            max_lobes: 6,
            lobe_scale: Single { bits: 0x3fcc_cccd },
            lobe_size_jitter: Single { bits: 0x3e8f_5c29 },
            lobe_anisotropy: Single { bits: 0x3e61_47ae },
            lobe_separation: Single { bits: 0x3f40_0000 },
            lobe_min_radius: Single { bits: 0x3ecc_cccd },
            max_crown_reach: Single { bits: 0x4100_0000 },
        }
    }
}

/// A species and its wood material, resolved when a graph is loaded.
#[derive(Clone, Copy, PartialEq, Eq, Structural, Debug)]
pub struct ResolvedTree {
    /// Shape parameters.
    pub species: TreeSpecies,
    /// Wood material, resolved from the node's material name.
    pub wood: MaterialId,
}

/// Parameters for `PlaceTree`: a rule producing trees on a coarse world grid.
///
/// A declaration rather than a dataflow node: generation scans a zone graph for
/// these, so the node carries no pins.
#[derive(PartialEq, Debug)]
pub struct PlaceTreeParams {
    /// Species name.
    pub species: String,
    /// Wood material, by name.
    pub wood: String,
    /// Edge length of a feature cell, in voxels. One candidate per cell.
    pub cell_size: i32,
    /// Chance a cell produces a tree.
    pub density: Single,
    /// Node-local seed, mixed with the world seed and the cell.
    pub seed: u32,
    /// Maturity: a node budget rather than a scale.
    pub age: Single,
    /// Biomes this source appears in. Empty means every biome in the zone.
    pub biomes: Vec<u16>,
    /// Resolved species and wood; `None` until a resolve pass runs.
    pub resolved: Option<ResolvedTree>,
}

impl PlaceTreeParams {
    /// Whether these are the parameters a fresh node starts from.
    pub open spec fn is_default(self) -> bool {
        &&& self.species@ =~= "oak"@
        &&& self.wood@ =~= "wood"@
        &&& self.cell_size == 24
        &&& self.density == (Single { bits: 0x3eb3_3333 })
        &&& self.seed == 1
        &&& self.age == (Single { bits: 0x3f80_0000 })
        &&& self.biomes@.len() == 0
        &&& self.resolved is None
    }
}

impl Default for PlaceTreeParams {
    fn default() -> (r: Self)
        ensures
            r.is_default(),
    {
        PlaceTreeParams {
            species: String::from_str("oak"),
            wood: String::from_str("wood"),
            cell_size: 24,
            density: Single { bits: 0x3eb3_3333 },
            seed: 1,
            age: Single { bits: 0x3f80_0000 },
            biomes: Vec::new(),
            resolved: None,
        }
    }
}

impl PlaceTreeParams {
    /// Whether two records hold the same values.
    pub open spec fn same(self, other: PlaceTreeParams) -> bool {
        &&& self.species == other.species
        &&& self.wood == other.wood
        &&& self.cell_size == other.cell_size
        &&& self.density == other.density
        &&& self.seed == other.seed
        &&& self.age == other.age
        &&& self.biomes@ == other.biomes@
        &&& self.resolved == other.resolved
    }
}

impl Clone for PlaceTreeParams {
    fn clone(&self) -> (r: Self)
        ensures
            self.same(r),
    {
        PlaceTreeParams {
            species: self.species.clone(),
            wood: self.wood.clone(),
            cell_size: self.cell_size,
            density: self.density,
            seed: self.seed,
            age: self.age,
            biomes: copy_vec(&self.biomes),
            resolved: self.resolved,
        }
    }
}

/// Parameters for `PlaceBlueprint`: stamp a named voxel template.
#[derive(PartialEq, Debug)]
pub struct PlaceBlueprintParams {
    /// Blueprint name.
    pub blueprint: String,
    /// Resolved template; `None` until a resolve pass runs.
    pub resolved: Option<ResolvedBlueprint>,
}

impl PlaceBlueprintParams {
    /// Whether these are the parameters a fresh node starts from.
    pub open spec fn is_default(self) -> bool {
        &&& self.blueprint@ =~= "rock"@
        &&& self.resolved is None
    }
}

impl Default for PlaceBlueprintParams {
    fn default() -> (r: Self)
        ensures
            r.is_default(),
    {
        PlaceBlueprintParams {
            blueprint: String::from_str("rock"),
            resolved: None,
        }
    }
}

impl PlaceBlueprintParams {
    /// Whether two records hold the same values.
    pub open spec fn same(self, other: PlaceBlueprintParams) -> bool {
        &&& self.blueprint == other.blueprint
        &&& same_blueprint(self.resolved, other.resolved)
    }
}

impl Clone for PlaceBlueprintParams {
    fn clone(&self) -> (r: Self)
        ensures
            self.same(r),
    {
        PlaceBlueprintParams {
            blueprint: self.blueprint.clone(),
            resolved: copy_blueprint(&self.resolved),
        }
    }
}

/// Foliage a structure occurrence anchors, in addition to the voxels it stamps.
#[derive(Clone, Copy, PartialEq, Eq, Structural, Debug)]
pub struct StructureCanopy {
    /// Scatter type bucket the instance lands in.
    pub type_id: u16,
    /// Prefab instanced at the anchor.
    pub prefab_id: u32,
    /// Voxels above the structure's anchor the canopy sits at.
    pub y_offset: i32,
}

impl Default for StructureCanopy {
    fn default() -> (r: Self)
        ensures
            r == (StructureCanopy {
                type_id: 0,
                prefab_id: 0,
                y_offset: 4,
            }),
    {
        StructureCanopy {
            type_id: 0,
            prefab_id: 0,
            y_offset: 4,
        }
    }
}

/// Parameters for `PlaceStructure`: a rule producing structure occurrences on a coarse world grid.
///
/// There is no zone field: the zone is the graph the node sits in.
#[derive(PartialEq, Debug)]
pub struct PlaceStructureParams {
    /// Blueprint name.
    pub blueprint: String,
    /// Edge length of a feature cell, in voxels. One candidate per cell.
    pub cell_size: i32,
    /// Chance a cell produces an occurrence.
    pub density: Single,
    /// Node-local seed, mixed with the world seed and the cell.
    pub seed: u32,
    /// Whether each occurrence takes a random quarter turn.
    pub random_yaw: bool,
    /// How far above the surface the anchor lands.
    pub surface_offset: i32,
    /// Biomes this source appears in. Empty means every biome in the zone.
    pub biomes: Vec<u16>,
    /// Foliage each occurrence anchors, if any.
    pub canopy: Option<StructureCanopy>,
    /// Resolved template; `None` until a resolve pass runs.
    pub resolved: Option<ResolvedBlueprint>,
}

impl PlaceStructureParams {
    /// Whether these are the parameters a fresh node starts from.
    pub open spec fn is_default(self) -> bool {
        &&& self.blueprint@ =~= "rock"@
        &&& self.cell_size == 48
        &&& self.density == (Single { bits: 0x3e80_0000 })
        &&& self.seed == 1
        &&& self.random_yaw == true
        &&& self.surface_offset == 1
        &&& self.biomes@.len() == 0
        &&& self.canopy is None
        &&& self.resolved is None
    }
}

impl Default for PlaceStructureParams {
    fn default() -> (r: Self)
        ensures
            r.is_default(),
    {
        PlaceStructureParams {
            blueprint: String::from_str("rock"),
            cell_size: 48,
            density: Single { bits: 0x3e80_0000 },
            seed: 1,
            random_yaw: true,
            surface_offset: 1,
            biomes: Vec::new(),
            canopy: None,
            resolved: None,
        }
    }
}

impl PlaceStructureParams {
    /// Whether two records hold the same values.
    pub open spec fn same(self, other: PlaceStructureParams) -> bool {
        &&& self.blueprint == other.blueprint
        &&& self.cell_size == other.cell_size
        &&& self.density == other.density
        &&& self.seed == other.seed
        &&& self.random_yaw == other.random_yaw
        &&& self.surface_offset == other.surface_offset
        &&& self.biomes@ == other.biomes@
        &&& self.canopy == other.canopy
        &&& same_blueprint(self.resolved, other.resolved)
    }
}

impl Clone for PlaceStructureParams {
    fn clone(&self) -> (r: Self)
        ensures
            self.same(r),
    {
        PlaceStructureParams {
            blueprint: self.blueprint.clone(),
            cell_size: self.cell_size,
            density: self.density,
            seed: self.seed,
            random_yaw: self.random_yaw,
            surface_offset: self.surface_offset,
            biomes: copy_vec(&self.biomes),
            canopy: self.canopy,
            resolved: copy_blueprint(&self.resolved),
        }
    }
}

/// Parameters of a river network.
#[derive(Clone, Copy, PartialEq, Eq, Structural, Debug)]
pub struct RiverParams {
    /// Edge length of a network cell, in voxels.
    pub cell_size: Single,
    /// Node-local seed, mixed with the world seed.
    pub seed: u32,
    /// Frequency of the elevation potential.
    pub potential_frequency: Single,
    /// World height at the lowest potential.
    pub bed_low: Single,
    /// World height at the highest potential.
    pub bed_high: Single,
    /// Half-width at the headwaters, in voxels.
    pub min_width: Single,
    /// Half-width at the mouth, in voxels.
    pub max_width: Single,
    /// How far below the bank the channel center cuts.
    pub depth: Single,
}

impl RiverParams {
    /// Whether these are the parameters a fresh node starts from.
    pub open spec fn is_default(self) -> bool {
        self == (RiverParams {
            cell_size: Single { bits: 0x4300_0000 },
            seed: 1,
            potential_frequency: Single { bits: 0x3b83_126f },
            bed_low: Single { bits: 0x4160_0000 },
            bed_high: Single { bits: 0x4238_0000 },
            min_width: Single { bits: 0x4040_0000 },
            max_width: Single { bits: 0x4110_0000 },
            depth: Single { bits: 0x4080_0000 },
        })
    }
}

impl Default for RiverParams {
    fn default() -> (r: Self)
        ensures
            r.is_default(),
    {
        RiverParams {
            cell_size: Single { bits: 0x4300_0000 },
            seed: 1,
            potential_frequency: Single { bits: 0x3b83_126f },
            bed_low: Single { bits: 0x4160_0000 },
            bed_high: Single { bits: 0x4238_0000 },
            min_width: Single { bits: 0x4040_0000 },
            max_width: Single { bits: 0x4110_0000 },
            depth: Single { bits: 0x4080_0000 },
        }
    }
}

/// Parameters for `LibraryRef`: a reference to a reusable library graph by id.
#[derive(Debug)]
pub struct LibraryRefParams {
    /// The library graph this node instantiates.
    pub library: LibraryGraphId,
    /// Pins resolved from the library's boundary; without them the node has no pins.
    pub resolved: Option<ResolvedBoundary>,
}

impl LibraryRefParams {
    /// Whether these are the parameters a fresh node starts from.
    pub open spec fn is_default(self) -> bool {
        self == (LibraryRefParams {
            library: LibraryGraphId(0),
            resolved: None,
        })
    }
}

impl Default for LibraryRefParams {
    fn default() -> (r: Self)
        ensures
            r.is_default(),
    {
        LibraryRefParams {
            library: LibraryGraphId(0),
            resolved: None,
        }
    }
}

impl LibraryRefParams {
    /// Whether two records hold the same values.
    pub open spec fn same(self, other: LibraryRefParams) -> bool {
        &&& self.library == other.library
        &&& same_resolved(self.resolved, other.resolved)
    }
}

impl Clone for LibraryRefParams {
    fn clone(&self) -> (r: Self)
        ensures
            self.same(r),
    {
        LibraryRefParams {
            library: self.library,
            resolved: copy_resolved(&self.resolved),
        }
    }
}

/// Equality ignores the resolved pins: two references are equal when they name
/// the same library.
impl PartialEq for LibraryRefParams {
    fn eq(&self, other: &Self) -> (r: bool) {
        self.library == other.library
    }
}

impl vstd::std_specs::cmp::PartialEqSpecImpl for LibraryRefParams {
    open spec fn obeys_eq_spec() -> bool {
        true
    }

    open spec fn eq_spec(&self, other: &Self) -> bool {
        self.library == other.library
    }
}

/// Parameters for `GraphRef`: a reference to another graph of the hierarchy.
#[derive(Debug)]
pub struct GraphRefParams {
    /// Which hierarchy graph this node reads from.
    pub target: GraphRefTarget,
    /// Pins resolved from the target's boundary; without them the node has no pins.
    pub resolved: Option<ResolvedBoundary>,
}

impl GraphRefParams {
    /// Whether these are the parameters a fresh node starts from.
    pub open spec fn is_default(self) -> bool {
        self == (GraphRefParams {
            target: GraphRefTarget::World,
            resolved: None,
        })
    }
}

impl Default for GraphRefParams {
    fn default() -> (r: Self)
        ensures
            r.is_default(),
    {
        GraphRefParams {
            target: GraphRefTarget::World,
            resolved: None,
        }
    }
}

impl GraphRefParams {
    /// Whether two records hold the same values.
    pub open spec fn same(self, other: GraphRefParams) -> bool {
        &&& self.target == other.target
        &&& same_resolved(self.resolved, other.resolved)
    }
}

impl Clone for GraphRefParams {
    fn clone(&self) -> (r: Self)
        ensures
            self.same(r),
    {
        GraphRefParams {
            target: self.target,
            resolved: copy_resolved(&self.resolved),
        }
    }
}

/// Equality ignores the resolved pins: two references are equal when they name
/// the same target.
impl PartialEq for GraphRefParams {
    fn eq(&self, other: &Self) -> (r: bool) {
        self.target == other.target
    }
}

impl vstd::std_specs::cmp::PartialEqSpecImpl for GraphRefParams {
    open spec fn obeys_eq_spec() -> bool {
        true
    }

    open spec fn eq_spec(&self, other: &Self) -> bool {
        self.target == other.target
    }
}

/// Parameters for `GraphOutput`: mark this node's input as a named boundary output.
#[derive(PartialEq, Debug)]
pub struct GraphOutputParams {
    /// The boundary output name this node exposes.
    pub name: String,
}

impl GraphOutputParams {
    /// Whether these are the parameters a fresh node starts from.
    pub open spec fn is_default(self) -> bool {
        self.name@ =~= ""@
    }
}

impl Default for GraphOutputParams {
    fn default() -> (r: Self)
        ensures
            r.is_default(),
    {
        proof {
            reveal_strlit("");
        }
        GraphOutputParams {
            name: String::new(),
        }
    }
}

impl Clone for GraphOutputParams {
    fn clone(&self) -> (r: Self)
        ensures
            r == *self,
    {
        GraphOutputParams {
            name: self.name.clone(),
        }
    }
}

/// Parameters for `WorldOutput`: map a climate field to zone ids by ascending thresholds.
#[derive(PartialEq, Debug)]
pub struct WorldOutputParams {
    /// Ascending thresholds; a column falls in the region of as many as it meets.
    pub zone_bands: Vec<Single>,
    /// Zone id of each region. A missing entry is the region index.
    pub zone_ids: Vec<u16>,
}

impl WorldOutputParams {
    /// Whether these are the parameters a fresh node starts from.
    pub open spec fn is_default(self) -> bool {
        &&& self.zone_bands@.len() == 0
        &&& self.zone_ids@.len() == 0
    }
}

impl Default for WorldOutputParams {
    fn default() -> (r: Self)
        ensures
            r.is_default(),
    {
        WorldOutputParams {
            zone_bands: Vec::new(),
            zone_ids: Vec::new(),
        }
    }
}

impl WorldOutputParams {
    /// Whether two records hold the same values.
    pub open spec fn same(self, other: WorldOutputParams) -> bool {
        &&& self.zone_bands@ == other.zone_bands@
        &&& self.zone_ids@ == other.zone_ids@
    }
}

impl Clone for WorldOutputParams {
    fn clone(&self) -> (r: Self)
        ensures
            self.same(r),
    {
        WorldOutputParams {
            zone_bands: copy_vec(&self.zone_bands),
            zone_ids: copy_vec(&self.zone_ids),
        }
    }
}

/// Parameters for `ZoneOutput`: map a climate field to biome ids by ascending thresholds.
#[derive(PartialEq, Debug)]
pub struct ZoneOutputParams {
    /// Ascending thresholds; a column falls in the region of as many as it meets.
    pub biome_bands: Vec<Single>,
    /// Biome id of each region. A missing entry is the region index.
    pub biome_ids: Vec<u16>,
}

impl ZoneOutputParams {
    /// Whether these are the parameters a fresh node starts from.
    pub open spec fn is_default(self) -> bool {
        &&& self.biome_bands@.len() == 0
        &&& self.biome_ids@.len() == 0
    }
}

impl Default for ZoneOutputParams {
    fn default() -> (r: Self)
        ensures
            r.is_default(),
    {
        ZoneOutputParams {
            biome_bands: Vec::new(),
            biome_ids: Vec::new(),
        }
    }
}

impl ZoneOutputParams {
    /// Whether two records hold the same values.
    pub open spec fn same(self, other: ZoneOutputParams) -> bool {
        &&& self.biome_bands@ == other.biome_bands@
        &&& self.biome_ids@ == other.biome_ids@
    }
}

impl Clone for ZoneOutputParams {
    fn clone(&self) -> (r: Self)
        ensures
            self.same(r),
    {
        ZoneOutputParams {
            biome_bands: copy_vec(&self.biome_bands),
            biome_ids: copy_vec(&self.biome_ids),
        }
    }
}

/// Parameters for `YBand`: one inside a half-open vertical band, zero elsewhere.
#[derive(Clone, Copy, PartialEq, Eq, Structural, Debug)]
pub struct YBandParams {
    /// Inclusive lower world height.
    pub min: Single,
    /// Exclusive upper world height.
    pub max: Single,
}

impl YBandParams {
    /// Whether these are the parameters a fresh node starts from.
    pub open spec fn is_default(self) -> bool {
        self == (YBandParams {
            min: Single { bits: 0x0000_0000 },
            max: Single { bits: 0x4280_0000 },
        })
    }
}

impl Default for YBandParams {
    fn default() -> (r: Self)
        ensures
            r.is_default(),
    {
        YBandParams {
            min: Single { bits: 0x0000_0000 },
            max: Single { bits: 0x4280_0000 },
        }
    }
}

/// Parameters for `PoissonDistribution`: candidate points over a chunk footprint.
#[derive(Clone, Copy, PartialEq, Eq, Structural, Debug)]
pub struct PoissonDistributionParams {
    /// Per-node seed.
    pub seed: u32,
    /// Spacing between points, in world units.
    pub radius: Single,
    /// Positional jitter, as a fraction of the spacing.
    pub jitter: Single,
}

impl PoissonDistributionParams {
    /// Whether these are the parameters a fresh node starts from.
    pub open spec fn is_default(self) -> bool {
        self == (PoissonDistributionParams {
            seed: 0,
            radius: Single { bits: 0x4080_0000 },
            jitter: Single { bits: 0x3f19_999a },
        })
    }
}

impl Default for PoissonDistributionParams {
    fn default() -> (r: Self)
        ensures
            r.is_default(),
    {
        PoissonDistributionParams {
            seed: 0,
            radius: Single { bits: 0x4080_0000 },
            jitter: Single { bits: 0x3f19_999a },
        }
    }
}

/// Parameters for `SurfaceFilter`: keep candidates on a shallow enough surface, in a height range, on allowed materials.
#[derive(PartialEq, Debug)]
pub struct SurfaceFilterParams {
    /// Largest surface slope to keep.
    pub max_slope: Single,
    /// Smallest surface height to keep.
    pub min_height: Single,
    /// Largest surface height to keep.
    pub max_height: Single,
    /// Allowed surface materials. Empty accepts any solid surface.
    pub materials: Vec<MaterialId>,
}

impl SurfaceFilterParams {
    /// Whether these are the parameters a fresh node starts from.
    pub open spec fn is_default(self) -> bool {
        &&& self.max_slope == (Single { bits: 0x3f80_0000 })
        &&& self.min_height == (Single { bits: 0xc480_0000 })
        &&& self.max_height == (Single { bits: 0x4480_0000 })
        &&& self.materials@.len() == 0
    }
}

impl Default for SurfaceFilterParams {
    fn default() -> (r: Self)
        ensures
            r.is_default(),
    {
        SurfaceFilterParams {
            max_slope: Single { bits: 0x3f80_0000 },
            min_height: Single { bits: 0xc480_0000 },
            max_height: Single { bits: 0x4480_0000 },
            materials: Vec::new(),
        }
    }
}

impl SurfaceFilterParams {
    /// Whether two records hold the same values.
    pub open spec fn same(self, other: SurfaceFilterParams) -> bool {
        &&& self.max_slope == other.max_slope
        &&& self.min_height == other.min_height
        &&& self.max_height == other.max_height
        &&& self.materials@ == other.materials@
    }
}

impl Clone for SurfaceFilterParams {
    fn clone(&self) -> (r: Self)
        ensures
            self.same(r),
    {
        SurfaceFilterParams {
            max_slope: self.max_slope,
            min_height: self.min_height,
            max_height: self.max_height,
            materials: copy_vec(&self.materials),
        }
    }
}

/// Parameters for `BiomeContextMask`: keep candidates whose column has this biome.
#[derive(Clone, Copy, PartialEq, Eq, Structural, Debug)]
pub struct BiomeContextMaskParams {
    /// Biome id candidates must match.
    pub biome: u16,
}

impl BiomeContextMaskParams {
    /// Whether these are the parameters a fresh node starts from.
    pub open spec fn is_default(self) -> bool {
        self == (BiomeContextMaskParams {
            biome: 0,
        })
    }
}

impl Default for BiomeContextMaskParams {
    fn default() -> (r: Self)
        ensures
            r.is_default(),
    {
        BiomeContextMaskParams {
            biome: 0,
        }
    }
}

/// Parameters for `SpeciesPicker`: assign each candidate a species by weighted choice.
#[derive(PartialEq, Debug)]
pub struct SpeciesPickerParams {
    /// Per-node seed.
    pub seed: u32,
    /// Weight per species index.
    pub weights: Vec<Single>,
}

impl SpeciesPickerParams {
    /// Whether these are the parameters a fresh node starts from.
    pub open spec fn is_default(self) -> bool {
        &&& self.seed == 0
        &&& self.weights@ =~= seq![Single { bits: 0x3f80_0000 }]
    }
}

impl Default for SpeciesPickerParams {
    fn default() -> (r: Self)
        ensures
            r.is_default(),
    {
        let mut weights: Vec<Single> = Vec::new();
        weights.push(Single { bits: 0x3f80_0000 });
        SpeciesPickerParams {
            seed: 0,
            weights,
        }
    }
}

impl SpeciesPickerParams {
    /// Whether two records hold the same values.
    pub open spec fn same(self, other: SpeciesPickerParams) -> bool {
        &&& self.seed == other.seed
        &&& self.weights@ == other.weights@
    }
}

impl Clone for SpeciesPickerParams {
    fn clone(&self) -> (r: Self)
        ensures
            self.same(r),
    {
        SpeciesPickerParams {
            seed: self.seed,
            weights: copy_vec(&self.weights),
        }
    }
}

/// Parameters for `PaintDensity`: a terminal writing a foliage paint layer.
#[derive(Clone, Copy, PartialEq, Eq, Structural, Debug)]
pub struct PaintDensityParams {
    /// Target paint layer.
    pub layer_id: u16,
    /// Species variant within the layer; zero is none.
    pub species: u8,
    /// Density of the layer.
    pub density: u8,
    /// Tint palette index.
    pub tint: u8,
}

impl PaintDensityParams {
    /// Whether these are the parameters a fresh node starts from.
    pub open spec fn is_default(self) -> bool {
        self == (PaintDensityParams {
            layer_id: 0,
            species: 1,
            density: 255,
            tint: 0,
        })
    }
}

impl Default for PaintDensityParams {
    fn default() -> (r: Self)
        ensures
            r.is_default(),
    {
        PaintDensityParams {
            layer_id: 0,
            species: 1,
            density: 255,
            tint: 0,
        }
    }
}

/// Parameters for `ScatterPlace`: a terminal writing a scatter instance per assigned candidate.
#[derive(Clone, Copy, PartialEq, Eq, Structural, Debug)]
pub struct ScatterPlaceParams {
    /// Per-node seed for rotation.
    pub seed: u32,
    /// Scatter type bucket.
    pub type_id: u16,
    /// Prefab to instance.
    pub prefab_id: u32,
}

impl ScatterPlaceParams {
    /// Whether these are the parameters a fresh node starts from.
    pub open spec fn is_default(self) -> bool {
        self == (ScatterPlaceParams {
            seed: 0,
            type_id: 0,
            prefab_id: 0,
        })
    }
}

impl Default for ScatterPlaceParams {
    fn default() -> (r: Self)
        ensures
            r.is_default(),
    {
        ScatterPlaceParams {
            seed: 0,
            type_id: 0,
            prefab_id: 0,
        }
    }
}

/// Parameters for `BiomeParam`: read a named per-biome scalar.
#[derive(PartialEq, Debug)]
pub struct BiomeParamParams {
    /// The parameter name to read.
    pub name: String,
    /// Value when the parameter is absent.
    pub default: Single,
}

impl BiomeParamParams {
    /// Whether these are the parameters a fresh node starts from.
    pub open spec fn is_default(self) -> bool {
        &&& self.name@ =~= ""@
        &&& self.default == (Single { bits: 0x0000_0000 })
    }
}

impl Default for BiomeParamParams {
    fn default() -> (r: Self)
        ensures
            r.is_default(),
    {
        proof {
            reveal_strlit("");
        }
        BiomeParamParams {
            name: String::new(),
            default: Single { bits: 0x0000_0000 },
        }
    }
}

impl Clone for BiomeParamParams {
    fn clone(&self) -> (r: Self)
        ensures
            r == *self,
    {
        BiomeParamParams {
            name: self.name.clone(),
            default: self.default,
        }
    }
}

/// Parameters for `WorldParam`: read a named world scalar.
#[derive(PartialEq, Debug)]
pub struct WorldParamParams {
    /// The parameter name to read.
    pub name: String,
    /// Value when the parameter is absent.
    pub default: Single,
}

impl WorldParamParams {
    /// Whether these are the parameters a fresh node starts from.
    pub open spec fn is_default(self) -> bool {
        &&& self.name@ =~= ""@
        &&& self.default == (Single { bits: 0x0000_0000 })
    }
}

impl Default for WorldParamParams {
    fn default() -> (r: Self)
        ensures
            r.is_default(),
    {
        proof {
            reveal_strlit("");
        }
        WorldParamParams {
            name: String::new(),
            default: Single { bits: 0x0000_0000 },
        }
    }
}

impl Clone for WorldParamParams {
    fn clone(&self) -> (r: Self)
        ensures
            r == *self,
    {
        WorldParamParams {
            name: self.name.clone(),
            default: self.default,
        }
    }
}

/// The noise parameters of two-dimensional Perlin noise.
pub type Perlin2DParams = NoiseParams;

} // verus!
