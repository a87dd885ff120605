//! Edges and pin references.
use crate::slots::NodeId;
use vstd::prelude::*;

verus! {

/// A specific pin on a specific node. The pin index is the position in the
/// node's input or output pin list, by the role of the edge end.
#[derive(Clone, Copy, PartialEq, Eq, Structural, Debug)]
pub struct PinRef {
    /// The node this pin belongs to.
    pub node: NodeId,
    /// Index into the node's pin list.
    pub pin: u16,
}

impl PinRef {
    /// Construct a pin reference.
    pub fn new(node: NodeId, pin: u16) -> (r: Self)
        ensures
            r == (PinRef { node, pin }),
    {
        PinRef { node, pin }
    }
}

/// A directed connection from an output pin to an input pin.
#[derive(Clone, Copy, PartialEq, Eq, Structural, Debug)]
pub struct Edge {
    /// Output side.
    pub from: PinRef,
    /// Input side.
    pub to: PinRef,
}

} // verus!
