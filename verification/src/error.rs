//! Errors of graph mutation.
use crate::pin::PinType;
use crate::slots::NodeId;
use vstd::prelude::*;

verus! {

/// Why a mutation of a graph was refused.
#[derive(Clone, Copy, PartialEq, Eq, Structural, Debug)]
pub enum GraphError {
    /// A referenced node does not exist in the graph.
    NodeNotFound(NodeId),
    /// A pin index is out of range for the node.
    PinOutOfRange {
        /// Node whose pin was indexed.
        node: NodeId,
        /// The out-of-range pin index.
        pin: u16,
        /// Number of pins available.
        count: usize,
    },
    /// Output and input pin types are not compatible.
    TypeMismatch {
        /// Output pin type.
        from: PinType,
        /// Input pin type.
        to: PinType,
    },
    /// The target input pin already has an incoming edge.
    InputAlreadyConnected {
        /// Target node.
        node: NodeId,
        /// Target input pin index.
        pin: u16,
    },
}

/// Result of a graph mutation.
pub type GraphResult<T> = Result<T, GraphError>;

} // verus!
