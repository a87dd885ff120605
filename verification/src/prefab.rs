//! Prefab templates: a small cluster of voxels stamped at a placement point.
use crate::voxel::Voxel;
use vstd::prelude::*;

verus! {

/// One voxel of a prefab, at an integer offset from the template origin.
#[derive(Clone, PartialEq, Debug)]
pub struct PrefabVoxel {
    /// Offset from the template origin, before anchoring.
    pub at: [i32; 3],
    /// The voxel to stamp.
    pub voxel: Voxel,
}

/// A reusable voxel cluster: a rock, a bush, a piece of a structure.
#[derive(Clone, PartialEq, Debug)]
pub struct PrefabTemplate {
    /// The voxel of the template that lands on the placement column, one cell above
    /// the scanned surface.
    pub anchor: [i32; 3],
    /// The voxels that make up the prefab.
    pub voxels: Vec<PrefabVoxel>,
}

} // verus!
