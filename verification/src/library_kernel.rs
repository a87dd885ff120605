//! Native library kernels and their names.
use crate::scalar::Single;
use crate::text::same_text;
use crate::voxel::MaterialId;
use vstd::prelude::*;

verus! {

/// A native kernel that a library asset binds to by name.
#[derive(Clone, Copy, PartialEq, Eq, Structural, Debug)]
pub enum LibraryKernel {
    /// Own-biome weight from border distance and fade radius.
    BiomeBorderFade,
    /// Cave density in three dimensions.
    StandardCaveNoise,
    /// Surface material by depth.
    SurfaceLayering,
    /// Surface material by exposure.
    ExposureLayering,
    /// Poisson-disk point placement.
    PoissonPlacement,
}

impl LibraryKernel {
    /// The stable name of a kernel.
    pub open spec fn spelled(self) -> Seq<char> {
        match self {
            LibraryKernel::BiomeBorderFade => "biome_border_fade"@,
            LibraryKernel::StandardCaveNoise => "standard_cave_noise"@,
            LibraryKernel::SurfaceLayering => "surface_layering"@,
            LibraryKernel::ExposureLayering => "exposure_layering"@,
            LibraryKernel::PoissonPlacement => "poisson_placement"@,
        }
    }

    /// The stable name of a kernel.
    pub fn name(self) -> (r: &'static str)
        ensures
            r@ == self.spelled(),
    {
        match self {
            LibraryKernel::BiomeBorderFade => "biome_border_fade",
            LibraryKernel::StandardCaveNoise => "standard_cave_noise",
            LibraryKernel::SurfaceLayering => "surface_layering",
            LibraryKernel::ExposureLayering => "exposure_layering",
            LibraryKernel::PoissonPlacement => "poisson_placement",
        }
    }

    /// The kernel with a name, or `None` if no kernel has it.
    pub fn from_name(name: &str) -> (r: Option<LibraryKernel>)
        ensures
            match r {
                Some(k) => k.spelled() == name@,
                None => forall|k: LibraryKernel| #[trigger] k.spelled() != name@,
            },
    {
        if same_text(name, "biome_border_fade") {
            Some(LibraryKernel::BiomeBorderFade)
        } else if same_text(name, "standard_cave_noise") {
            Some(LibraryKernel::StandardCaveNoise)
        } else if same_text(name, "surface_layering") {
            Some(LibraryKernel::SurfaceLayering)
        } else if same_text(name, "exposure_layering") {
            Some(LibraryKernel::ExposureLayering)
        } else if same_text(name, "poisson_placement") {
            Some(LibraryKernel::PoissonPlacement)
        } else {
            None
        }
    }
}

/// No two kernels share a name, so a name determines its kernel.
pub proof fn kernel_names_are_distinct(a: LibraryKernel, b: LibraryKernel)
    ensures
        a.spelled() == b.spelled() <==> a == b,
{
    reveal_strlit("biome_border_fade");
    reveal_strlit("standard_cave_noise");
    reveal_strlit("surface_layering");
    reveal_strlit("exposure_layering");
    reveal_strlit("poisson_placement");
    assert("biome_border_fade"@.len() == 17);
    assert("standard_cave_noise"@.len() == 19);
    assert("surface_layering"@.len() == 16);
    assert("exposure_layering"@[0] == 'e');
    assert("biome_border_fade"@[0] == 'b');
    assert("poisson_placement"@[0] == 'p');
}

/// The material at a depth below a surface, under top-down bands: the band the
/// depth falls in, or `fill` below the last.
pub open spec fn layered(
    depth: int,
    bands: Seq<(MaterialId, u32)>,
    fill: MaterialId,
) -> MaterialId
    decreases bands.len(),
{
    if bands.len() == 0 {
        fill
    } else if depth < bands[0].1 {
        bands[0].0
    } else {
        layered(depth - bands[0].1, bands.drop_first(), fill)
    }
}

/// The material `depth` cells below a surface, given top-down bands and the
/// material below the last. Depth 0 is the surface cell.
pub fn surface_layering(depth: u32, bands: &[(MaterialId, u32)], fill: MaterialId) -> (r:
    MaterialId)
    ensures
        r == layered(depth as int, bands@, fill),
{
    let mut left: u32 = depth;
    let mut k: usize = 0;
    assert(bands@.skip(0) =~= bands@);
    while k < bands.len()
        invariant
            k <= bands@.len(),
            layered(depth as int, bands@, fill) == layered(
                left as int,
                bands@.skip(k as int),
                fill,
            ),
        decreases bands@.len() - k,
    {
        let (material, thickness) = bands[k];
        if left < thickness {
            return material;
        }
        left = left - thickness;
        assert(bands@.skip(k as int).drop_first() =~= bands@.skip(k + 1));
        k = k + 1;
    }
    fill
}

/// The cap material on a surface exposed at least to a threshold, the base
/// material elsewhere.
pub fn exposure_layering(
    base: MaterialId,
    cap: MaterialId,
    exposure: Single,
    threshold: Single,
) -> (r: MaterialId)
    ensures
        r == (if exposure.at_least(threshold) {
            cap
        } else {
            base
        }),
{
    if exposure.ge(threshold) {
        cap
    } else {
        base
    }
}

} // verus!
