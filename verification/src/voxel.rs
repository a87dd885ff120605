//! Voxel value types: materials, shapes, quarter turns and blueprints.
use vstd::prelude::*;

verus! {

/// A material, by its index in the material table.
#[derive(Clone, Copy, PartialEq, Eq, Structural, Hash, Debug)]
pub struct MaterialId(pub u16);

impl MaterialId {
    /// The material of empty cells.
    pub fn air() -> (r: MaterialId)
        ensures
            r == MaterialId(0),
    {
        MaterialId(0)
    }
}

/// The shape filling a voxel cell. The compass letters of a slope or corner
/// name the side where it is high.
#[derive(Clone, Copy, PartialEq, Eq, Structural, Hash, Debug)]
pub enum ShapeId {
    /// Nothing.
    Empty,
    /// The whole cell.
    Cube,
    /// Ramp, high edge north.
    SlopeN,
    /// Ramp, high edge south.
    SlopeS,
    /// Ramp, high edge east.
    SlopeE,
    /// Ramp, high edge west.
    SlopeW,
    /// Convex corner, high north-east.
    OuterCornerNE,
    /// Convex corner, high north-west.
    OuterCornerNW,
    /// Convex corner, high south-east.
    OuterCornerSE,
    /// Convex corner, high south-west.
    OuterCornerSW,
    /// Concave corner, bitten north-east.
    InnerCornerNE,
    /// Concave corner, bitten north-west.
    InnerCornerNW,
    /// Concave corner, bitten south-east.
    InnerCornerSE,
    /// Concave corner, bitten south-west.
    InnerCornerSW,
    /// Ceiling ramp, mirror of `SlopeN`.
    CeilingSlopeN,
    /// Ceiling ramp, mirror of `SlopeS`.
    CeilingSlopeS,
    /// Ceiling ramp, mirror of `SlopeE`.
    CeilingSlopeE,
    /// Ceiling ramp, mirror of `SlopeW`.
    CeilingSlopeW,
    /// Ceiling corner, mirror of `OuterCornerNE`.
    CeilingOuterCornerNE,
    /// Ceiling corner, mirror of `OuterCornerNW`.
    CeilingOuterCornerNW,
    /// Ceiling corner, mirror of `OuterCornerSE`.
    CeilingOuterCornerSE,
    /// Ceiling corner, mirror of `OuterCornerSW`.
    CeilingOuterCornerSW,
}

/// Rotation stored on a voxel.
#[derive(Clone, Copy, PartialEq, Eq, Structural, Hash, Debug)]
pub enum Rotation {
    /// No turn.
    Unrotated,
    /// One quarter turn.
    Deg90,
    /// Two quarter turns.
    Deg180,
    /// Three quarter turns.
    Deg270,
}

/// One voxel cell.
#[derive(Clone, Copy, PartialEq, Eq, Structural, Hash, Debug)]
pub struct Voxel {
    /// Shape of the cell.
    pub shape: ShapeId,
    /// Rotation of the shape.
    pub rotation: Rotation,
    /// Material of the cell.
    pub material: MaterialId,
    /// Flag bits.
    pub flags: u8,
}

impl Voxel {
    /// The empty cell.
    pub open spec fn nothing() -> Voxel {
        Voxel {
            shape: ShapeId::Empty,
            rotation: Rotation::Unrotated,
            material: MaterialId(0),
            flags: 0,
        }
    }

    /// The empty cell.
    pub fn empty() -> (r: Voxel)
        ensures
            r == Voxel::nothing(),
    {
        Voxel {
            shape: ShapeId::Empty,
            rotation: Rotation::Unrotated,
            material: MaterialId(0),
            flags: 0,
        }
    }

    /// A full cube of a material.
    pub open spec fn cube_of(material: MaterialId) -> Voxel {
        Voxel { shape: ShapeId::Cube, rotation: Rotation::Unrotated, material, flags: 0 }
    }

    /// Whether the cell holds any shape.
    pub open spec fn solid(self) -> bool {
        self.shape != ShapeId::Empty
    }

    /// A full cube of a material.
    pub fn cube(material: MaterialId) -> (r: Voxel)
        ensures
            r == Voxel::cube_of(material),
    {
        Voxel { shape: ShapeId::Cube, rotation: Rotation::Unrotated, material, flags: 0 }
    }

    /// Whether the cell holds any shape.
    pub fn is_solid(self) -> (r: bool)
        ensures
            r == self.solid(),
    {
        self.shape != ShapeId::Empty
    }
}

/// A voxel or chunk coordinate.
#[derive(Clone, Copy, PartialEq, Eq, Structural, Hash, Debug)]
pub struct IVec3 {
    /// East.
    pub x: i32,
    /// Up.
    pub y: i32,
    /// South.
    pub z: i32,
}

impl IVec3 {
    /// The origin.
    pub fn zero() -> (r: IVec3)
        ensures
            r == (IVec3 { x: 0, y: 0, z: 0 }),
    {
        IVec3 { x: 0, y: 0, z: 0 }
    }

    /// A coordinate.
    pub fn new(x: i32, y: i32, z: i32) -> (r: IVec3)
        ensures
            r == (IVec3 { x, y, z }),
    {
        IVec3 { x, y, z }
    }
}

/// A whole number of quarter turns about the vertical axis.
#[derive(Clone, Copy, PartialEq, Eq, Structural, Hash, Debug)]
pub enum Yaw {
    /// No turn.
    Deg0,
    /// One quarter turn.
    Deg90,
    /// Two quarter turns.
    Deg180,
    /// Three quarter turns.
    Deg270,
}

/// An offset turned about the vertical axis, as unbounded integers. One quarter
/// turn takes east to south.
pub open spec fn turned(yaw: Yaw, x: int, y: int, z: int) -> (int, int, int) {
    match yaw {
        Yaw::Deg0 => (x, y, z),
        Yaw::Deg90 => (-z, y, x),
        Yaw::Deg180 => (-x, y, -z),
        Yaw::Deg270 => (z, y, -x),
    }
}

impl Yaw {
    /// The number of quarter turns.
    pub open spec fn step_count(self) -> int {
        match self {
            Yaw::Deg0 => 0,
            Yaw::Deg90 => 1,
            Yaw::Deg180 => 2,
            Yaw::Deg270 => 3,
        }
    }

    /// The turn of this many quarters, wrapping around.
    pub fn from_steps(steps: i32) -> (r: Yaw)
        ensures
            r.step_count() == steps as int % 4,
    {
        let wrapped: i64 = ((steps as i64) + 0x8000_0000i64) % 4;
        proof {
            assert(0x8000_0000int % 4 == 0);
            assert((steps as int + 0x8000_0000) % 4 == steps as int % 4);
        }
        if wrapped == 0 {
            Yaw::Deg0
        } else if wrapped == 1 {
            Yaw::Deg90
        } else if wrapped == 2 {
            Yaw::Deg180
        } else {
            Yaw::Deg270
        }
    }

    /// The number of quarter turns.
    pub fn steps(self) -> (r: u8)
        ensures
            r == self.step_count(),
    {
        match self {
            Yaw::Deg0 => 0,
            Yaw::Deg90 => 1,
            Yaw::Deg180 => 2,
            Yaw::Deg270 => 3,
        }
    }
}

/// A quarter turn permutes horizontal magnitudes, so one bound on them covers
/// every rotation.
pub proof fn turning_keeps_horizontal_reach(yaw: Yaw, x: int, y: int, z: int, bound: int)
    requires
        -bound <= x <= bound,
        -bound <= z <= bound,
    ensures
        -bound <= turned(yaw, x, y, z).0 <= bound,
        turned(yaw, x, y, z).1 == y,
        -bound <= turned(yaw, x, y, z).2 <= bound,
{
}

/// What happens to a structure's voxels when the structure is destroyed.
#[derive(Clone, Copy, PartialEq, Eq, Structural, Hash, Debug)]
pub enum DestructionPolicy {
    /// The voxels go.
    Destroy,
    /// The voxels stay.
    Keep,
}

/// One cell of a blueprint: an offset from its origin, and the voxel there.
#[derive(Clone, Copy, PartialEq, Eq, Structural, Hash, Debug)]
pub struct BlueprintCell {
    /// Offset from the blueprint's origin.
    pub at: IVec3,
    /// The voxel to stamp.
    pub voxel: Voxel,
}

/// A voxel template whose materials are resolved.
#[derive(PartialEq, Eq, Debug)]
pub struct ResolvedBlueprint {
    /// Name of the blueprint.
    pub name: String,
    /// The cell that lands on the placement anchor.
    pub anchor: IVec3,
    /// The cells.
    pub cells: Vec<BlueprintCell>,
    /// What destroying an occurrence does.
    pub destruction: DestructionPolicy,
    /// Whether no later feature may overwrite the stamped cells.
    pub protected_volume: bool,
}

/// The larger of two integers.
pub open spec fn larger(a: int, b: int) -> int {
    if a >= b {
        a
    } else {
        b
    }
}

/// Magnitude of an integer.
pub open spec fn magnitude(a: int) -> int {
    if a >= 0 {
        a
    } else {
        -a
    }
}

/// How far the first cells of a blueprint reach horizontally from its anchor.
pub open spec fn reach_of(anchor: IVec3, cells: Seq<BlueprintCell>) -> int
    decreases cells.len(),
{
    if cells.len() == 0 {
        0
    } else {
        let c = cells.last().at;
        larger(
            reach_of(anchor, cells.drop_last()),
            larger(magnitude(c.x - anchor.x), magnitude(c.z - anchor.z)),
        )
    }
}

impl ResolvedBlueprint {
    /// The greatest horizontal distance of a cell from the anchor along either
    /// axis. Rotation-invariant.
    pub fn horizontal_reach(&self) -> (r: i64)
        ensures
            r == reach_of(self.anchor, self.cells@),
            0 <= r <= 0xffff_ffff,
    {
        let mut best: i64 = 0;
        let mut k: usize = 0;
        while k < self.cells.len()
            invariant
                k <= self.cells@.len(),
                best == reach_of(self.anchor, self.cells@.take(k as int)),
                0 <= best <= 0xffff_ffff,
            decreases self.cells@.len() - k,
        {
            let at = self.cells[k].at;
            let dx: i64 = at.x as i64 - self.anchor.x as i64;
            let dz: i64 = at.z as i64 - self.anchor.z as i64;
            let ax: i64 = if dx >= 0 {
                dx
            } else {
                -dx
            };
            let az: i64 = if dz >= 0 {
                dz
            } else {
                -dz
            };
            let far: i64 = if ax >= az {
                ax
            } else {
                az
            };
            proof {
                assert(self.cells@.take(k + 1).drop_last() =~= self.cells@.take(k as int));
            }
            if far > best {
                best = far;
            }
            k = k + 1;
        }
        assert(self.cells@.take(k as int) =~= self.cells@);
        best
    }
}

/// A blueprint with its name as characters and its cells as a sequence.
pub struct BlueprintView {
    /// Name of the blueprint.
    pub name: Seq<char>,
    /// The cell that lands on the placement anchor.
    pub anchor: IVec3,
    /// The cells.
    pub cells: Seq<BlueprintCell>,
    /// What destroying an occurrence does.
    pub destruction: DestructionPolicy,
    /// Whether no later feature may overwrite the stamped cells.
    pub protected_volume: bool,
}

impl ResolvedBlueprint {
    /// The blueprint with its name as characters and its cells as a sequence.
    pub open spec fn view(&self) -> BlueprintView {
        BlueprintView {
            name: self.name@,
            anchor: self.anchor,
            cells: self.cells@,
            destruction: self.destruction,
            protected_volume: self.protected_volume,
        }
    }
}

impl Clone for ResolvedBlueprint {
    fn clone(&self) -> (r: Self)
        ensures
            r@ == self@,
    {
        let cells = self.cells.clone();
        assert(cells@ =~= self.cells@);
        ResolvedBlueprint {
            name: self.name.clone(),
            anchor: self.anchor,
            cells,
            destruction: self.destruction,
            protected_volume: self.protected_volume,
        }
    }
}

/// Every cell of a blueprint lies within its reach of the anchor.
pub proof fn reach_bounds_every_cell(anchor: IVec3, cells: Seq<BlueprintCell>, i: int)
    requires
        0 <= i < cells.len(),
    ensures
        magnitude(cells[i].at.x - anchor.x) <= reach_of(anchor, cells),
        magnitude(cells[i].at.z - anchor.z) <= reach_of(anchor, cells),
    decreases cells.len(),
{
    if i < cells.len() - 1 {
        reach_bounds_every_cell(anchor, cells.drop_last(), i);
    }
}

/// One voxel of a prefab, at an integer offset from the template origin.
#[derive(Clone, Copy, PartialEq, Eq, Structural, Hash, Debug)]
pub struct PrefabVoxel {
    /// Offset from the template origin, before anchoring.
    pub at: IVec3,
    /// The voxel to stamp.
    pub voxel: Voxel,
}

/// A reusable voxel cluster.
#[derive(PartialEq, Eq, Debug)]
pub struct PrefabTemplate {
    /// The template-local voxel that lands on the placement column, one cell
    /// above the scanned surface.
    pub anchor: IVec3,
    /// The voxels making up the prefab.
    pub voxels: Vec<PrefabVoxel>,
}

impl Clone for PrefabTemplate {
    fn clone(&self) -> (r: Self)
        ensures
            r.anchor == self.anchor,
            r.voxels@ == self.voxels@,
    {
        let voxels = self.voxels.clone();
        assert(voxels@ =~= self.voxels@);
        PrefabTemplate { anchor: self.anchor, voxels }
    }
}

} // verus!
