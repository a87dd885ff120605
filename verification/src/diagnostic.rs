//! Validation diagnostics.
use crate::slots::NodeId;
use vstd::prelude::*;

verus! {

/// Severity of a [`Diagnostic`].
#[derive(Clone, Copy, PartialEq, Eq, Structural, Debug)]
pub enum Severity {
    /// The graph is invalid and cannot be evaluated.
    Error,
    /// Suspicious but evaluable.
    Warning,
    /// Informational.
    Info,
}

/// A single validation finding, optionally attributed to a node or an edge.
#[derive(PartialEq, Debug)]
pub struct Diagnostic {
    /// Severity.
    pub severity: Severity,
    /// Human-readable message.
    pub message: String,
    /// Node this finding concerns, if any.
    pub node: Option<NodeId>,
    /// Index into the graph's edges this finding concerns, if any.
    pub edge: Option<usize>,
}

/// What a [`Diagnostic`] says, with its message as characters.
pub struct Finding {
    /// Severity.
    pub severity: Severity,
    /// Message characters.
    pub message: Seq<char>,
    /// Node concerned.
    pub node: Option<NodeId>,
    /// Edge index concerned.
    pub edge: Option<int>,
}

impl Diagnostic {
    /// The finding this diagnostic reports.
    pub open spec fn view(&self) -> Finding {
        Finding {
            severity: self.severity,
            message: self.message@,
            node: self.node,
            edge: match self.edge {
                Some(e) => Some(e as int),
                None => None,
            },
        }
    }

    fn unattributed(severity: Severity, message: String) -> (r: Self)
        ensures
            r@ == (Finding { severity, message: message@, node: None, edge: None }),
    {
        Diagnostic { severity, message, node: None, edge: None }
    }

    /// New error diagnostic.
    pub fn error(message: String) -> (r: Self)
        ensures
            r@ == (Finding {
                severity: Severity::Error,
                message: message@,
                node: None,
                edge: None,
            }),
    {
        Diagnostic::unattributed(Severity::Error, message)
    }

    /// New warning diagnostic.
    pub fn warning(message: String) -> (r: Self)
        ensures
            r@ == (Finding {
                severity: Severity::Warning,
                message: message@,
                node: None,
                edge: None,
            }),
    {
        Diagnostic::unattributed(Severity::Warning, message)
    }

    /// New informational diagnostic.
    pub fn info(message: String) -> (r: Self)
        ensures
            r@ == (Finding {
                severity: Severity::Info,
                message: message@,
                node: None,
                edge: None,
            }),
    {
        Diagnostic::unattributed(Severity::Info, message)
    }

    /// Attribute this diagnostic to a node.
    pub fn with_node(self, node: NodeId) -> (r: Self)
        ensures
            r@ == (Finding { node: Some(node), ..self@ }),
    {
        let mut d = self;
        d.node = Some(node);
        d
    }

    /// Attribute this diagnostic to an edge index.
    pub fn with_edge(self, edge: usize) -> (r: Self)
        ensures
            r@ == (Finding { edge: Some(edge as int), ..self@ }),
    {
        let mut d = self;
        d.edge = Some(edge);
        d
    }
}

impl Clone for Diagnostic {
    fn clone(&self) -> (r: Self)
        ensures
            r@ == self@,
    {
        Diagnostic {
            severity: self.severity,
            message: self.message.clone(),
            node: self.node,
            edge: self.edge,
        }
    }
}

} // verus!
