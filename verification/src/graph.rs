//! The graph container and its mutations.
use crate::boundary::{BoundaryView, GraphBoundary};
use crate::edge::{Edge, PinRef};
use crate::error::{GraphError, GraphResult};
use crate::ids::{GraphKind, GraphRefTarget, LibraryGraphId};
use crate::node::{Node, NodeKind, Vec2};
use crate::order::{dependency_order, is_evaluation_order, settles, unsettled};
use crate::params::copy_vec;
use crate::pin::PinType;
use crate::slots::{is_key_order, NodeId, NodeMap};
use vstd::prelude::*;

verus! {

/// A typed dataflow graph: nodes, typed edges, the role it plays in the
/// hierarchy, and the boundary it declares.
#[derive(Debug)]
pub struct Graph {
    /// The role this graph plays in the hierarchy.
    pub kind: GraphKind,
    /// Nodes by stable identity.
    pub nodes: NodeMap,
    /// Directed edges, from output pins to input pins.
    pub edges: Vec<Edge>,
    /// The ports this graph exposes to nodes that reference it.
    pub boundary: GraphBoundary,
}

/// What connecting two pins comes to, over a graph's kind, nodes and edges.
pub open spec fn connect_outcome(
    kind: GraphKind,
    nodes: Map<NodeId, Node>,
    edges: Seq<Edge>,
    from: PinRef,
    to: PinRef,
) -> GraphResult<()> {
    if !nodes.contains_key(from.node) {
        Err(GraphError::NodeNotFound(from.node))
    } else if !nodes.contains_key(to.node) {
        Err(GraphError::NodeNotFound(to.node))
    } else {
        let outputs = nodes[from.node].kind.outputs_in(kind);
        let inputs = nodes[to.node].kind.inputs_in(kind);
        if from.pin >= outputs.len() {
            Err(
                GraphError::PinOutOfRange {
                    node: from.node,
                    pin: from.pin,
                    count: outputs.len() as usize,
                },
            )
        } else if to.pin >= inputs.len() {
            Err(
                GraphError::PinOutOfRange {
                    node: to.node,
                    pin: to.pin,
                    count: inputs.len() as usize,
                },
            )
        } else if !PinType::compatible(outputs[from.pin as int].ty, inputs[to.pin as int].ty) {
            Err(
                GraphError::TypeMismatch {
                    from: outputs[from.pin as int].ty,
                    to: inputs[to.pin as int].ty,
                },
            )
        } else if feeds_input(edges, to) {
            Err(GraphError::InputAlreadyConnected { node: to.node, pin: to.pin })
        } else {
            Ok(())
        }
    }
}

/// Whether some edge feeds an input pin.
pub open spec fn feeds_input(edges: Seq<Edge>, to: PinRef) -> bool {
    exists|i: int| 0 <= i < edges.len() && (#[trigger] edges[i]).to == to
}

/// The edges that do not feed an input pin.
pub open spec fn without_input(edges: Seq<Edge>, to: PinRef) -> Seq<Edge> {
    edges.filter(|e: Edge| e.to != to)
}

/// The edges that do not touch a node.
pub open spec fn without_node(edges: Seq<Edge>, id: NodeId) -> Seq<Edge> {
    edges.filter(|e: Edge| e.from.node != id && e.to.node != id)
}

/// The libraries that listed nodes reference, in the order listed.
pub open spec fn library_targets(nodes: Map<NodeId, Node>, keys: Seq<NodeId>) -> Seq<
    LibraryGraphId,
>
    decreases keys.len(),
{
    if keys.len() == 0 {
        Seq::empty()
    } else {
        let rest = library_targets(nodes, keys.drop_last());
        match nodes[keys.last()].kind {
            NodeKind::LibraryRef(p) => rest.push(p.library),
            _ => rest,
        }
    }
}

/// The hierarchy graphs that listed nodes reference, in the order listed.
pub open spec fn graph_targets(nodes: Map<NodeId, Node>, keys: Seq<NodeId>) -> Seq<GraphRefTarget>
    decreases keys.len(),
{
    if keys.len() == 0 {
        Seq::empty()
    } else {
        let rest = graph_targets(nodes, keys.drop_last());
        match nodes[keys.last()].kind {
            NodeKind::GraphRef(p) => rest.push(p.target),
            _ => rest,
        }
    }
}

impl Graph {
    /// Whether two graphs hold the same nodes under the same identities, and the
    /// same edges, kind and boundary.
    pub open spec fn same(self, other: Graph) -> bool {
        &&& self.kind == other.kind
        &&& self.edges@ == other.edges@
        &&& self.boundary@ == other.boundary@
        &&& self.nodes@.dom() == other.nodes@.dom()
        &&& forall|id: NodeId|
            self.nodes@.contains_key(id) ==> self.nodes@[id].same(#[trigger] other.nodes@[id])
    }
}

impl Clone for Graph {
    fn clone(&self) -> (r: Self)
        ensures
            self.same(r),
    {
        Graph {
            kind: self.kind,
            nodes: self.nodes.clone(),
            edges: copy_vec(&self.edges),
            boundary: self.boundary.clone(),
        }
    }
}

impl Default for Graph {
    fn default() -> (r: Self)
        ensures
            r.kind == GraphKind::Biome,
            r.nodes@ == Map::<NodeId, Node>::empty(),
            r.edges@ == Seq::<Edge>::empty(),
            r.boundary@ == (BoundaryView { inputs: Seq::empty(), outputs: Seq::empty() }),
    {
        Graph::of_kind(GraphKind::Biome)
    }
}

impl Graph {
    /// Empty graph.
    pub fn new() -> (r: Self)
        ensures
            r.kind == GraphKind::Biome,
            r.nodes@ == Map::<NodeId, Node>::empty(),
            r.edges@ == Seq::<Edge>::empty(),
            r.boundary@ == (BoundaryView { inputs: Seq::empty(), outputs: Seq::empty() }),
    {
        Graph::of_kind(GraphKind::Biome)
    }

    /// Empty graph of an explicit kind.
    pub fn of_kind(kind: GraphKind) -> (r: Self)
        ensures
            r.kind == kind,
            r.nodes@ == Map::<NodeId, Node>::empty(),
            r.edges@ == Seq::<Edge>::empty(),
            r.boundary@ == (BoundaryView { inputs: Seq::empty(), outputs: Seq::empty() }),
    {
        Graph {
            kind,
            nodes: NodeMap::new(),
            edges: Vec::new(),
            boundary: GraphBoundary::default(),
        }
    }

    /// Insert a node at the origin; its stable identity is fresh.
    pub fn add_node(&mut self, kind: NodeKind) -> (r: NodeId)
        requires
            old(self).nodes@.len() < 0xffff_fffe,
        ensures
            !old(self).nodes@.contains_key(r),
            final(self).nodes@ == old(self).nodes@.insert(r, Node::at_origin(kind)),
            final(self).edges == old(self).edges,
            final(self).kind == old(self).kind,
            final(self).boundary == old(self).boundary,
    {
        self.nodes.insert(Node::new(kind))
    }

    /// Insert a node at a canvas position.
    pub fn add_node_at(&mut self, kind: NodeKind, position: Vec2) -> (r: NodeId)
        requires
            old(self).nodes@.len() < 0xffff_fffe,
        ensures
            !old(self).nodes@.contains_key(r),
            final(self).nodes@ == old(self).nodes@.insert(r, Node { kind, position }),
            final(self).edges == old(self).edges,
            final(self).kind == old(self).kind,
            final(self).boundary == old(self).boundary,
    {
        self.nodes.insert(Node { kind, position })
    }

    /// Remove a node and every edge touching it.
    pub fn remove_node(&mut self, id: NodeId) -> (r: Option<Node>)
        ensures
            r == (if old(self).nodes@.contains_key(id) {
                Some(old(self).nodes@[id])
            } else {
                None
            }),
            final(self).nodes@ == old(self).nodes@.remove(id),
            final(self).edges@ == without_node(old(self).edges@, id),
            final(self).kind == old(self).kind,
            final(self).boundary == old(self).boundary,
    {
        let mut kept: Vec<Edge> = Vec::new();
        let mut k: usize = 0;
        proof {
            reveal(Seq::filter);
        }
        while k < self.edges.len()
            invariant
                k <= self.edges@.len(),
                kept@ == without_node(self.edges@.take(k as int), id),
            decreases self.edges@.len() - k,
        {
            let e = self.edges[k];
            proof {
                reveal(Seq::filter);
                assert(self.edges@.take(k + 1).drop_last() =~= self.edges@.take(k as int));
            }
            if e.from.node != id && e.to.node != id {
                kept.push(e);
            }
            k = k + 1;
        }
        assert(self.edges@.take(k as int) =~= self.edges@);
        self.edges = kept;
        self.nodes.remove(id)
    }

    fn already_fed(&self, to: PinRef) -> (r: bool)
        ensures
            r == feeds_input(self.edges@, to),
    {
        let mut k: usize = 0;
        while k < self.edges.len()
            invariant
                k <= self.edges@.len(),
                forall|i: int| 0 <= i < k ==> (#[trigger] self.edges@[i]).to != to,
            decreases self.edges@.len() - k,
        {
            if self.edges[k].to == to {
                return true;
            }
            k = k + 1;
        }
        false
    }

    /// Connect an output pin to an input pin. Both nodes must exist, both pin
    /// indices be in range, the types be compatible, and the input be free; a
    /// refused connection leaves the graph as it was.
    pub fn connect(&mut self, from: PinRef, to: PinRef) -> (r: GraphResult<()>)
        ensures
            r == connect_outcome(old(self).kind, old(self).nodes@, old(self).edges@, from, to),
            final(self).edges@ == (if r is Ok {
                old(self).edges@.push(Edge { from, to })
            } else {
                old(self).edges@
            }),
            final(self).nodes == old(self).nodes,
            final(self).kind == old(self).kind,
            final(self).boundary == old(self).boundary,
    {
        let outcome = self.connection_problem(from, to);
        if let Some(e) = outcome {
            return Err(e);
        }
        self.edges.push(Edge { from, to });
        Ok(())
    }

    fn connection_problem(&self, from: PinRef, to: PinRef) -> (r: Option<GraphError>)
        ensures
            match r {
                Some(e) => connect_outcome(self.kind, self.nodes@, self.edges@, from, to) == Err::<
                    (),
                    GraphError,
                >(e),
                None => connect_outcome(self.kind, self.nodes@, self.edges@, from, to) == Ok::<
                    (),
                    GraphError,
                >(()),
            },
    {
        let from_node = match self.nodes.get(from.node) {
            Some(n) => n,
            None => {
                return Some(GraphError::NodeNotFound(from.node));
            },
        };
        let to_node = match self.nodes.get(to.node) {
            Some(n) => n,
            None => {
                return Some(GraphError::NodeNotFound(to.node));
            },
        };
        let outputs = from_node.kind.effective_outputs_in(self.kind);
        let inputs = to_node.kind.effective_inputs_in(self.kind);
        if from.pin as usize >= outputs.len() {
            return Some(
                GraphError::PinOutOfRange { node: from.node, pin: from.pin, count: outputs.len() },
            );
        }
        if to.pin as usize >= inputs.len() {
            return Some(
                GraphError::PinOutOfRange { node: to.node, pin: to.pin, count: inputs.len() },
            );
        }
        let out_ty = outputs[from.pin as usize].ty;
        let in_ty = inputs[to.pin as usize].ty;
        proof {
            assert(from_node.kind.outputs_in(self.kind)[from.pin as int] == outputs@[from.pin as int]@);
            assert(to_node.kind.inputs_in(self.kind)[to.pin as int] == inputs@[to.pin as int]@);
        }
        if !PinType::is_compatible(out_ty, in_ty) {
            return Some(GraphError::TypeMismatch { from: out_ty, to: in_ty });
        }
        if self.already_fed(to) {
            return Some(GraphError::InputAlreadyConnected { node: to.node, pin: to.pin });
        }
        None
    }

    /// Remove any edge feeding the given input pin. True if one was removed.
    pub fn disconnect(&mut self, to: PinRef) -> (r: bool)
        ensures
            r == feeds_input(old(self).edges@, to),
            final(self).edges@ == without_input(old(self).edges@, to),
            final(self).nodes == old(self).nodes,
            final(self).kind == old(self).kind,
            final(self).boundary == old(self).boundary,
    {
        let removed = self.already_fed(to);
        let mut kept: Vec<Edge> = Vec::new();
        let mut k: usize = 0;
        proof {
            reveal(Seq::filter);
        }
        while k < self.edges.len()
            invariant
                k <= self.edges@.len(),
                kept@ == without_input(self.edges@.take(k as int), to),
            decreases self.edges@.len() - k,
        {
            let e = self.edges[k];
            proof {
                reveal(Seq::filter);
                assert(self.edges@.take(k + 1).drop_last() =~= self.edges@.take(k as int));
            }
            if e.to != to {
                kept.push(e);
            }
            k = k + 1;
        }
        assert(self.edges@.take(k as int) =~= self.edges@);
        self.edges = kept;
        removed
    }

    /// The library ids referenced by `LibraryRef` nodes, in node order.
    pub fn library_refs(&self) -> (r: Vec<LibraryGraphId>)
        ensures
            exists|keys: Seq<NodeId>| #[trigger]
                is_key_order(self.nodes@, keys) && r@ == library_targets(self.nodes@, keys),
    {
        let keys = self.nodes.keys();
        let mut out: Vec<LibraryGraphId> = Vec::new();
        let mut k: usize = 0;
        while k < keys.len()
            invariant
                k <= keys@.len(),
                is_key_order(self.nodes@, keys@),
                out@ == library_targets(self.nodes@, keys@.take(k as int)),
            decreases keys@.len() - k,
        {
            assert(keys@.take(k + 1).drop_last() =~= keys@.take(k as int));
            assert(self.nodes@.contains_key(keys@[k as int]));
            if let Some(n) = self.nodes.get(keys[k]) {
                if let NodeKind::LibraryRef(p) = &n.kind {
                    out.push(p.library);
                }
            }
            k = k + 1;
        }
        assert(keys@.take(k as int) =~= keys@);
        out
    }

    /// The hierarchy graphs referenced by `GraphRef` nodes, in node order.
    pub fn graph_refs(&self) -> (r: Vec<GraphRefTarget>)
        ensures
            exists|keys: Seq<NodeId>| #[trigger]
                is_key_order(self.nodes@, keys) && r@ == graph_targets(self.nodes@, keys),
    {
        let keys = self.nodes.keys();
        let mut out: Vec<GraphRefTarget> = Vec::new();
        let mut k: usize = 0;
        while k < keys.len()
            invariant
                k <= keys@.len(),
                is_key_order(self.nodes@, keys@),
                out@ == graph_targets(self.nodes@, keys@.take(k as int)),
            decreases keys@.len() - k,
        {
            assert(keys@.take(k + 1).drop_last() =~= keys@.take(k as int));
            assert(self.nodes@.contains_key(keys@[k as int]));
            if let Some(n) = self.nodes.get(keys[k]) {
                if let NodeKind::GraphRef(p) = &n.kind {
                    out.push(p.target);
                }
            }
            k = k + 1;
        }
        assert(keys@.take(k as int) =~= keys@);
        out
    }

    /// Node identities with sources before what they feed, or the nodes on or
    /// downstream of a cycle when the graph is cyclic.
    pub fn topological_order(&self) -> (r: Result<Vec<NodeId>, Vec<NodeId>>)
        ensures
            match r {
                Ok(order) => {
                    &&& is_evaluation_order(self.nodes@, self.edges@, order@)
                    &&& forall|id: NodeId|
                        self.nodes@.contains_key(id) ==> #[trigger] settles(
                            self.nodes@,
                            self.edges@,
                            id,
                        )
                },
                Err(blocked) => {
                    &&& blocked@.len() > 0
                    &&& exists|keys: Seq<NodeId>| #[trigger]
                        is_key_order(self.nodes@, keys) && blocked@ == unsettled(
                            self.nodes@,
                            self.edges@,
                            keys,
                        )
                },
            },
    {
        dependency_order(&self.nodes, &self.edges)
    }
}

} // verus!
