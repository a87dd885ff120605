//! The arithmetic that evaluation asks for. This library decides which operation
//! applies to which values; the numbers are computed by whoever runs it.
use crate::node::NodeKind;
use crate::params::{
    ClampParams, CurveMapperParams, NoiseParams, RemapParams, RiverParams, ThresholdParams,
};
use vstd::prelude::*;

verus! {

/// An operation on scalar values, cell by cell.
#[derive(Clone, Copy, Debug)]
pub enum ScalarOp<'g> {
    /// The sum of two values.
    Add,
    /// The product of two values.
    Multiply,
    /// The first value less the second.
    Subtract,
    /// The smaller of two values.
    Min,
    /// The larger of two values.
    Max,
    /// The larger of the first value and the second negated.
    Carve,
    /// The first value times the second held to `0..=1`.
    Gate,
    /// From the first value to the second by the third.
    Lerp,
    /// From the first value to the second by the third held to `0..=1`.
    Mix,
    /// The magnitude of a value.
    Abs,
    /// A value held to a range.
    Clamp(ClampParams),
    /// A value mapped from one range to another.
    Remap(RemapParams),
    /// One where a value meets a threshold, zero elsewhere.
    Threshold(ThresholdParams),
    /// A value put through a curve.
    Curve(&'g CurveMapperParams),
    /// Terrain density carved by a river.
    River(RiverParams),
}

/// Whether a noise is Perlin or simplex.
#[derive(Clone, Copy, PartialEq, Eq, Structural, Debug)]
pub enum NoiseFamily {
    /// Perlin noise.
    Perlin,
    /// Simplex noise.
    Simplex,
}

/// A noise source: which noise, and over how many dimensions.
#[derive(Clone, Copy, PartialEq, Eq, Structural, Debug)]
pub struct NoiseSource {
    /// The noise.
    pub params: NoiseParams,
    /// Its family.
    pub family: NoiseFamily,
    /// Whether it ignores height.
    pub flat: bool,
}

impl<'g> ScalarOp<'g> {
    /// How many values the operation takes.
    pub open spec fn arity(self) -> nat {
        match self {
            ScalarOp::Add => 2,
            ScalarOp::Multiply => 2,
            ScalarOp::Subtract => 2,
            ScalarOp::Min => 2,
            ScalarOp::Max => 2,
            ScalarOp::Carve => 2,
            ScalarOp::Gate => 2,
            ScalarOp::Lerp => 3,
            ScalarOp::Mix => 3,
            _ => 1,
        }
    }

    /// How many values the operation takes.
    pub fn inputs(&self) -> (r: u16)
        ensures
            r == self.arity(),
    {
        match self {
            ScalarOp::Add => 2,
            ScalarOp::Multiply => 2,
            ScalarOp::Subtract => 2,
            ScalarOp::Min => 2,
            ScalarOp::Max => 2,
            ScalarOp::Carve => 2,
            ScalarOp::Gate => 2,
            ScalarOp::Lerp => 3,
            ScalarOp::Mix => 3,
            _ => 1,
        }
    }
}

/// The operation a node applies to its inputs, if it is one.
pub open spec fn operator<'g>(kind: &'g NodeKind) -> Option<ScalarOp<'g>> {
    match kind {
        NodeKind::Add(_) => Some(ScalarOp::Add),
        NodeKind::Multiply(_) => Some(ScalarOp::Multiply),
        NodeKind::Subtract(_) => Some(ScalarOp::Subtract),
        NodeKind::Min(_) => Some(ScalarOp::Min),
        NodeKind::Max(_) => Some(ScalarOp::Max),
        NodeKind::Clamp(p) => Some(ScalarOp::Clamp(*p)),
        NodeKind::Abs(_) => Some(ScalarOp::Abs),
        NodeKind::Lerp(_) => Some(ScalarOp::Lerp),
        NodeKind::Remap(p) => Some(ScalarOp::Remap(*p)),
        NodeKind::Threshold(p) => Some(ScalarOp::Threshold(*p)),
        NodeKind::CurveMapper(p) => Some(ScalarOp::Curve(p)),
        NodeKind::Union(_) => Some(ScalarOp::Max),
        NodeKind::Intersect(_) => Some(ScalarOp::Min),
        NodeKind::River(p) => Some(ScalarOp::River(*p)),
        NodeKind::DensitySubtract(_) => Some(ScalarOp::Carve),
        NodeKind::Mix(_) => Some(ScalarOp::Mix),
        NodeKind::Mask(_) => Some(ScalarOp::Gate),
        _ => None,
    }
}

/// The operation a node applies to its inputs, if it is one.
pub fn operation_of<'g>(kind: &'g NodeKind) -> (r: Option<ScalarOp<'g>>)
    ensures
        r == operator(kind),
{
    match kind {
        NodeKind::Add(_) => Some(ScalarOp::Add),
        NodeKind::Multiply(_) => Some(ScalarOp::Multiply),
        NodeKind::Subtract(_) => Some(ScalarOp::Subtract),
        NodeKind::Min(_) => Some(ScalarOp::Min),
        NodeKind::Max(_) => Some(ScalarOp::Max),
        NodeKind::Clamp(p) => Some(ScalarOp::Clamp(*p)),
        NodeKind::Abs(_) => Some(ScalarOp::Abs),
        NodeKind::Lerp(_) => Some(ScalarOp::Lerp),
        NodeKind::Remap(p) => Some(ScalarOp::Remap(*p)),
        NodeKind::Threshold(p) => Some(ScalarOp::Threshold(*p)),
        NodeKind::CurveMapper(p) => Some(ScalarOp::Curve(p)),
        NodeKind::Union(_) => Some(ScalarOp::Max),
        NodeKind::Intersect(_) => Some(ScalarOp::Min),
        NodeKind::River(p) => Some(ScalarOp::River(*p)),
        NodeKind::DensitySubtract(_) => Some(ScalarOp::Carve),
        NodeKind::Mix(_) => Some(ScalarOp::Mix),
        NodeKind::Mask(_) => Some(ScalarOp::Gate),
        _ => None,
    }
}

/// The noise a node samples, if it is a noise source.
pub open spec fn noise_source(kind: NodeKind) -> Option<NoiseSource> {
    match kind {
        NodeKind::Perlin2D(p) => Some(
            NoiseSource { params: p, family: NoiseFamily::Perlin, flat: true },
        ),
        NodeKind::Perlin3D(p) => Some(
            NoiseSource { params: p, family: NoiseFamily::Perlin, flat: false },
        ),
        NodeKind::Simplex2D(p) => Some(
            NoiseSource { params: p, family: NoiseFamily::Simplex, flat: true },
        ),
        NodeKind::Simplex3D(p) => Some(
            NoiseSource { params: p, family: NoiseFamily::Simplex, flat: false },
        ),
        _ => None,
    }
}

/// The noise a node samples, if it is a noise source.
pub fn noise_source_of(kind: &NodeKind) -> (r: Option<NoiseSource>)
    ensures
        r == noise_source(*kind),
{
    match kind {
        NodeKind::Perlin2D(p) => Some(
            NoiseSource { params: *p, family: NoiseFamily::Perlin, flat: true },
        ),
        NodeKind::Perlin3D(p) => Some(
            NoiseSource { params: *p, family: NoiseFamily::Perlin, flat: false },
        ),
        NodeKind::Simplex2D(p) => Some(
            NoiseSource { params: *p, family: NoiseFamily::Simplex, flat: true },
        ),
        NodeKind::Simplex3D(p) => Some(
            NoiseSource { params: *p, family: NoiseFamily::Simplex, flat: false },
        ),
        _ => None,
    }
}

/// An operator node takes as many inputs as its kind declares, and no node is
/// both an operator and a noise source.
pub proof fn operators_take_their_declared_inputs(kind: NodeKind)
    ensures
        match operator(&kind) {
            Some(op) => op.arity() == kind.declared_inputs().len() && noise_source(kind) is None,
            None => true,
        },
{
}

} // verus!
