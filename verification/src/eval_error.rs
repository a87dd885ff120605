//! Evaluation errors.
use crate::slots::NodeId;
use vstd::prelude::*;

verus! {

/// What can go wrong during evaluation.
#[derive(Clone, Copy, PartialEq, Eq, Debug)]
pub enum EvalError {
    /// The graph failed validation, with this many errors.
    InvalidGraph(usize),
    /// The graph contains a cycle.
    Cyclic,
    /// A node's output was asked for before it was computed.
    MissingOutput(NodeId),
    /// A required input pin has no incoming edge.
    MissingInput {
        /// Target node.
        node: NodeId,
        /// Input pin index.
        pin: u16,
    },
    /// An input resolved to the wrong kind of field.
    WrongInputType {
        /// Consuming node.
        node: NodeId,
        /// Expected kind.
        expected: &'static str,
        /// Actual kind.
        got: &'static str,
    },
    /// A node that this evaluator has no meaning for.
    WrongGraphDomain {
        /// The node.
        node: NodeId,
    },
    /// A graph reference that resolves to nothing.
    UnresolvedGraphRef {
        /// The node.
        node: NodeId,
    },
    /// A library reference that resolves to nothing.
    UnresolvedLibraryRef {
        /// The node.
        node: NodeId,
    },
    /// A blueprint that was not resolved.
    UnresolvedBlueprint {
        /// The node.
        node: NodeId,
    },
}

/// The result of an evaluation.
pub type EvalResult<T> = Result<T, EvalError>;

} // verus!
