//! One frame's diagnostics, gathered by node.
use crate::diagnostic::{Diagnostic, Severity};
use crate::slots::{code_identifies, NodeId};
use std::collections::HashMap;
use vstd::prelude::*;

verus! {

broadcast use vstd::std_specs::hash::group_hash_axioms;

/// How strong a severity is.
pub open spec fn strength(s: Severity) -> int {
    match s {
        Severity::Error => 2,
        Severity::Warning => 1,
        Severity::Info => 0,
    }
}

/// The stronger of two severities.
pub open spec fn stronger(a: Severity, b: Severity) -> Severity {
    if strength(a) >= strength(b) {
        a
    } else {
        b
    }
}

/// The strongest severity found about a node.
pub open spec fn strongest(diagnostics: Seq<Diagnostic>, node: NodeId) -> Option<Severity>
    decreases diagnostics.len(),
{
    if diagnostics.len() == 0 {
        None
    } else {
        let rest = strongest(diagnostics.drop_last(), node);
        let d = diagnostics.last();
        if d.node != Some(node) {
            rest
        } else {
            match rest {
                Some(s) => Some(stronger(s, d.severity)),
                None => Some(d.severity),
            }
        }
    }
}

/// The strongest severity found about each node.
#[derive(Debug)]
pub struct DiagnosticIndex {
    by_node: HashMap<u64, Severity>,
}

impl DiagnosticIndex {
    /// The severity indexed for a node.
    pub closed spec fn of(self, node: NodeId) -> Option<Severity> {
        if self.by_node@.contains_key(node.code()) {
            Some(self.by_node@[node.code()])
        } else {
            None
        }
    }

    /// Gather validation findings, keeping the strongest severity per node.
    pub fn from_diagnostics(diagnostics: &Vec<Diagnostic>) -> (r: Self)
        ensures
            forall|node: NodeId| #[trigger] r.of(node) == strongest(diagnostics@, node),
    {
        let mut r = DiagnosticIndex { by_node: HashMap::new() };
        let mut k: usize = 0;
        while k < diagnostics.len()
            invariant
                k <= diagnostics@.len(),
                forall|node: NodeId| #[trigger]
                    r.of(node) == strongest(diagnostics@.take(k as int), node),
            decreases diagnostics@.len() - k,
        {
            let ghost before = r;
            proof {
                assert(diagnostics@.take(k + 1).drop_last() =~= diagnostics@.take(k as int));
            }
            if let Some(id) = diagnostics[k].node {
                let severity = diagnostics[k].severity;
                let kept = match r.by_node.get(&id.to_code()) {
                    Some(current) => if severity == Severity::Error {
                        Severity::Error
                    } else if severity == Severity::Warning && *current != Severity::Error {
                        Severity::Warning
                    } else {
                        *current
                    },
                    None => severity,
                };
                r.by_node.insert(id.to_code(), kept);
                proof {
                    assert forall|node: NodeId| #[trigger] r.of(node) == strongest(
                        diagnostics@.take(k + 1),
                        node,
                    ) by {
                        assert(before.of(node) == strongest(diagnostics@.take(k as int), node));
                        code_identifies(node, id);
                    }
                }
            }
            k = k + 1;
        }
        assert(diagnostics@.take(k as int) =~= diagnostics@);
        r
    }

    /// The strongest severity found about a node.
    pub fn severity(&self, node: NodeId) -> (r: Option<Severity>)
        ensures
            r == self.of(node),
    {
        match self.by_node.get(&node.to_code()) {
            Some(s) => Some(*s),
            None => None,
        }
    }
}

/// A node is indexed exactly when some finding is about it, and then under the
/// severity of one of them, as strong as any.
pub proof fn badges_show_the_worst(diagnostics: Seq<Diagnostic>, node: NodeId)
    ensures
        match strongest(diagnostics, node) {
            Some(s) => {
                &&& exists|i: int|
                    0 <= i < diagnostics.len() && (#[trigger] diagnostics[i]).node == Some(node)
                        && diagnostics[i].severity == s
                &&& forall|i: int|
                    0 <= i < diagnostics.len() && (#[trigger] diagnostics[i]).node == Some(node)
                        ==> strength(diagnostics[i].severity) <= strength(s)
            },
            None => forall|i: int|
                0 <= i < diagnostics.len() ==> (#[trigger] diagnostics[i]).node != Some(node),
        },
    decreases diagnostics.len(),
{
    if diagnostics.len() > 0 {
        let rest = diagnostics.drop_last();
        badges_show_the_worst(rest, node);
        let d = diagnostics.last();
        assert(forall|i: int| 0 <= i < rest.len() ==> rest[i] == #[trigger] diagnostics[i]);
        assert(diagnostics[diagnostics.len() - 1] == d);
        if let Some(s) = strongest(rest, node) {
            let i = choose|i: int|
                0 <= i < rest.len() && (#[trigger] rest[i]).node == Some(node) && rest[i].severity
                    == s;
            assert(diagnostics[i].node == Some(node));
        }
    }
}

} // verus!
