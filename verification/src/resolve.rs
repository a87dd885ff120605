//! What a graph exposes to other graphs, and what its references take from them.
use crate::boundary::{port_pins, port_views, BoundaryPort, GraphBoundary, PortView, ResolvedView};
use crate::graph::Graph;
use crate::ids::GraphRefTarget;
use crate::library::LibraryGraphRegistry;
use crate::node::{Node, NodeKind};
use crate::params::{GraphRefParams, LibraryRefParams};
use crate::pin::PinType;
use crate::slots::{is_key_order, NodeId};
use crate::sort::lemma_insert_adds_one;
use crate::text::{
    is_text_before, text_before, text_order_is_strict_and_total, text_order_is_transitive,
};
use vstd::prelude::*;

verus! {

/// The names that listed `GraphOutput` nodes expose, in the order listed.
pub open spec fn exposed_names(nodes: Map<NodeId, Node>, keys: Seq<NodeId>) -> Seq<Seq<char>>
    decreases keys.len(),
{
    if keys.len() == 0 {
        Seq::empty()
    } else {
        let rest = exposed_names(nodes, keys.drop_last());
        match nodes[keys.last()].kind {
            NodeKind::GraphOutput(p) => rest.push(p.name@),
            _ => rest,
        }
    }
}

/// Whether no text in a list comes before an earlier one.
pub open spec fn alphabetical(names: Seq<Seq<char>>) -> bool {
    forall|i: int, j: int|
        0 <= i < j < names.len() ==> !text_before(#[trigger] names[j], #[trigger] names[i])
}

/// The names of ports.
pub open spec fn port_names(ports: Seq<PortView>) -> Seq<Seq<char>> {
    ports.map_values(|p: PortView| p.name)
}

/// Whether ports are what a graph's `GraphOutput` nodes expose: a surface field
/// for each, without a description, in alphabetical order.
pub open spec fn exposes(nodes: Map<NodeId, Node>, ports: Seq<PortView>) -> bool {
    &&& alphabetical(port_names(ports))
    &&& forall|i: int|
        0 <= i < ports.len() ==> (#[trigger] ports[i]).ty == PinType::SurfaceField
            && ports[i].description.len() == 0
    &&& forall|keys: Seq<NodeId>| #[trigger]
        is_key_order(nodes, keys) ==> port_names(ports).to_multiset() == exposed_names(
            nodes,
            keys,
        ).to_multiset()
}

/// What resolving library references makes of a node: a reference takes the pins
/// of the library's boundary, or none if the library is not registered; any
/// other node stays.
pub open spec fn library_resolved(libraries: Map<u32, Graph>, before: Node, after: Node) -> bool {
    match before.kind {
        NodeKind::LibraryRef(p) => {
            &&& after.position == before.position
            &&& after.kind is LibraryRef
            &&& after.kind->LibraryRef_0.library == p.library
            &&& match after.kind->LibraryRef_0.resolved {
                Some(pins) => libraries.contains_key(p.library.0) && pins@ == (ResolvedView {
                    inputs: port_pins(libraries[p.library.0].boundary@.inputs),
                    outputs: port_pins(libraries[p.library.0].boundary@.outputs),
                }),
                None => !libraries.contains_key(p.library.0),
            }
        },
        _ => after == before,
    }
}

/// What resolving graph references makes of a node, given what the lookup may
/// answer: a reference takes the output pins of its target's boundary, or none
/// if the target is not there; any other node stays.
pub open spec fn graph_resolved<F: Fn(GraphRefTarget) -> Option<GraphBoundary>>(
    boundary_of: F,
    before: Node,
    after: Node,
) -> bool {
    match before.kind {
        NodeKind::GraphRef(p) => {
            &&& after.position == before.position
            &&& after.kind is GraphRef
            &&& after.kind->GraphRef_0.target == p.target
            &&& exists|answer: Option<GraphBoundary>| #[trigger]
                call_ensures(boundary_of, (p.target,), answer) && match (
                    answer,
                    after.kind->GraphRef_0.resolved,
                ) {
                    (Some(b), Some(pins)) => pins@ == (ResolvedView {
                        inputs: Seq::empty(),
                        outputs: port_pins(b@.outputs),
                    }),
                    (None, None) => true,
                    _ => false,
                }
        },
        _ => after == before,
    }
}

fn insert_name(ports: &mut Vec<BoundaryPort>, name: String)
    requires
        alphabetical(port_names(port_views(old(ports)@))),
        forall|i: int|
            0 <= i < old(ports)@.len() ==> (#[trigger] old(ports)@[i])@.ty == PinType::SurfaceField
                && old(ports)@[i]@.description.len() == 0,
    ensures
        alphabetical(port_names(port_views(final(ports)@))),
        forall|i: int|
            0 <= i < final(ports)@.len() ==> (#[trigger] final(ports)@[i])@.ty
                == PinType::SurfaceField && final(ports)@[i]@.description.len() == 0,
        port_names(port_views(final(ports)@)).to_multiset() == port_names(
            port_views(old(ports)@),
        ).to_multiset().insert(name@),
{
    let ghost names = port_names(port_views(ports@));
    let mut at: usize = 0;
    while at < ports.len() && !is_text_before(name.as_str(), ports[at].name.as_str())
        invariant
            names == port_names(port_views(ports@)),
            at <= ports@.len(),
            forall|i: int| 0 <= i < at ==> !text_before(name@, #[trigger] names[i]),
        decreases ports@.len() - at,
    {
        assert(names[at as int] == ports@[at as int].name@);
        at = at + 1;
    }
    let ghost before = ports@;
    let ghost text = name@;
    let port = BoundaryPort::new(name, PinType::SurfaceField);
    ports.insert(at, port);
    proof {
        let after = port_names(port_views(ports@));
        assert(after =~= names.insert(at as int, text));
        lemma_insert_adds_one(names, at as int, text);
        assert forall|i: int, j: int| 0 <= i < j < after.len() implies !text_before(
            #[trigger] after[j],
            #[trigger] after[i],
        ) by {
            if i < at && j < at {
                assert(after[i] == names[i] && after[j] == names[j]);
            } else if i < at && j > at {
                assert(after[i] == names[i] && after[j] == names[j - 1]);
            } else if i > at {
                assert(after[i] == names[i - 1] && after[j] == names[j - 1]);
            } else if i == at {
                assert(after[j] == names[j - 1]);
                assert(names[at as int] == before[at as int].name@);
                assert(text_before(text, names[at as int]));
                text_order_is_strict_and_total(text, names[at as int]);
                if j - 1 > at {
                    assert(!text_before(names[j - 1], names[at as int]));
                    if text_before(names[j - 1], text) {
                        text_order_is_transitive(names[j - 1], text, names[at as int]);
                    }
                }
            } else {
                assert(after[i] == names[i]);
            }
        }
        assert forall|i: int| 0 <= i < ports@.len() implies (#[trigger] ports@[i])@.ty
            == PinType::SurfaceField && ports@[i]@.description.len() == 0 by {
            if i < at {
                assert(ports@[i] == before[i]);
            } else if i > at {
                assert(ports@[i] == before[i - 1]);
            }
        }
    }
}

impl Graph {
    /// Derive the boundary's outputs from the graph's `GraphOutput` nodes.
    pub fn derive_output_boundary(&mut self)
        ensures
            exposes(final(self).nodes@, final(self).boundary@.outputs),
            final(self).boundary@.inputs == old(self).boundary@.inputs,
            final(self).nodes == old(self).nodes,
            final(self).edges == old(self).edges,
            final(self).kind == old(self).kind,
    {
        let keys = self.nodes.keys();
        let mut ports: Vec<BoundaryPort> = Vec::new();
        assert(port_names(port_views(ports@)) =~= Seq::<Seq<char>>::empty());
        let mut k: usize = 0;
        while k < keys.len()
            invariant
                k <= keys@.len(),
                is_key_order(self.nodes@, keys@),
                self.nodes == old(self).nodes,
                self.edges == old(self).edges,
                self.kind == old(self).kind,
                self.boundary == old(self).boundary,
                alphabetical(port_names(port_views(ports@))),
                forall|i: int|
                    0 <= i < ports@.len() ==> (#[trigger] ports@[i])@.ty == PinType::SurfaceField
                        && ports@[i]@.description.len() == 0,
                port_names(port_views(ports@)).to_multiset() == exposed_names(
                    self.nodes@,
                    keys@.take(k as int),
                ).to_multiset(),
            decreases keys@.len() - k,
        {
            assert(keys@.take(k + 1).drop_last() =~= keys@.take(k as int));
            assert(self.nodes@.contains_key(keys@[k as int]));
            if let Some(n) = self.nodes.get(keys[k]) {
                if let NodeKind::GraphOutput(p) = &n.kind {
                    insert_name(&mut ports, p.name.clone());
                    proof {
                        vstd::seq_lib::to_multiset_build(
                            exposed_names(self.nodes@, keys@.take(k as int)),
                            p.name@,
                        );
                    }
                }
            }
            k = k + 1;
        }
        self.boundary.outputs = ports;
        proof {
            assert(keys@.take(k as int) =~= keys@);
            assert forall|other: Seq<NodeId>| #[trigger]
                is_key_order(self.nodes@, other) implies port_names(
                self.boundary@.outputs,
            ).to_multiset() == exposed_names(self.nodes@, other).to_multiset() by {
                crate::slots::key_order_is_unique(self.nodes@, keys@, other);
            }
        }
    }

    /// Give every `LibraryRef` node the pins of its library's boundary.
    pub fn resolve_library_refs(&mut self, registry: &LibraryGraphRegistry)
        ensures
            final(self).nodes@.dom() == old(self).nodes@.dom(),
            forall|id: NodeId| #[trigger]
                old(self).nodes@.contains_key(id) ==> library_resolved(
                    registry@,
                    old(self).nodes@[id],
                    final(self).nodes@[id],
                ),
            final(self).edges == old(self).edges,
            final(self).kind == old(self).kind,
            final(self).boundary == old(self).boundary,
    {
        let keys = self.nodes.keys();
        proof {
            crate::slots::key_order_is_distinct(self.nodes@, keys@);
        }
        let mut k: usize = 0;
        while k < keys.len()
            invariant
                k <= keys@.len(),
                keys@.no_duplicates(),
                is_key_order(old(self).nodes@, keys@),
                self.nodes@.dom() == old(self).nodes@.dom(),
                self.edges == old(self).edges,
                self.kind == old(self).kind,
                self.boundary == old(self).boundary,
                forall|i: int|
                    0 <= i < k ==> library_resolved(
                        registry@,
                        old(self).nodes@[#[trigger] keys@[i]],
                        self.nodes@[keys@[i]],
                    ),
                forall|i: int|
                    k <= i < keys@.len() ==> self.nodes@[#[trigger] keys@[i]] == old(
                        self,
                    ).nodes@[keys@[i]],
            decreases keys@.len() - k,
        {
            let id = keys[k];
            let ghost before = self.nodes@;
            assert(old(self).nodes@.contains_key(keys@[k as int]));
            assert(self.nodes@.dom().contains(id));
            let update = match self.nodes.get(id) {
                Some(n) => match &n.kind {
                    NodeKind::LibraryRef(p) => {
                        let resolved = match registry.get(p.library) {
                            Some(library) => Some(library.boundary.to_resolved()),
                            None => None,
                        };
                        Some(
                            Node {
                                kind: NodeKind::LibraryRef(
                                    LibraryRefParams { library: p.library, resolved },
                                ),
                                position: n.position,
                            },
                        )
                    },
                    _ => None,
                },
                None => None,
            };
            if let Some(node) = update {
                let _ = self.nodes.replace(id, node);
            }
            proof {
                assert(self.nodes@.dom() =~= before.dom());
                assert forall|i: int| 0 <= i < keys@.len() && i != k implies self.nodes@[#[trigger] keys@[i]]
                    == before[keys@[i]] by {
                    assert(keys@[i] != keys@[k as int]);
                }
            }
            k = k + 1;
        }
        proof {
            assert forall|id: NodeId| #[trigger]
                old(self).nodes@.contains_key(id) implies library_resolved(
                registry@,
                old(self).nodes@[id],
                self.nodes@[id],
            ) by {
                assert(keys@.contains(id));
                let i = choose|i: int| 0 <= i < keys@.len() && keys@[i] == id;
                assert(library_resolved(
                    registry@,
                    old(self).nodes@[keys@[i]],
                    self.nodes@[keys@[i]],
                ));
            }
        }
    }

    /// Give every `GraphRef` node the output pins of its target's boundary, as a
    /// lookup answers it.
    pub fn resolve_graph_refs<F: Fn(GraphRefTarget) -> Option<GraphBoundary>>(
        &mut self,
        boundary_of: F,
    )
        requires
            forall|t: GraphRefTarget| #[trigger] call_requires(boundary_of, (t,)),
        ensures
            final(self).nodes@.dom() == old(self).nodes@.dom(),
            forall|id: NodeId| #[trigger]
                old(self).nodes@.contains_key(id) ==> graph_resolved(
                    boundary_of,
                    old(self).nodes@[id],
                    final(self).nodes@[id],
                ),
            final(self).edges == old(self).edges,
            final(self).kind == old(self).kind,
            final(self).boundary == old(self).boundary,
    {
        let keys = self.nodes.keys();
        proof {
            crate::slots::key_order_is_distinct(self.nodes@, keys@);
        }
        let mut k: usize = 0;
        while k < keys.len()
            invariant
                k <= keys@.len(),
                keys@.no_duplicates(),
                forall|t: GraphRefTarget| #[trigger] call_requires(boundary_of, (t,)),
                is_key_order(old(self).nodes@, keys@),
                self.nodes@.dom() == old(self).nodes@.dom(),
                self.edges == old(self).edges,
                self.kind == old(self).kind,
                self.boundary == old(self).boundary,
                forall|i: int|
                    0 <= i < k ==> graph_resolved(
                        boundary_of,
                        old(self).nodes@[#[trigger] keys@[i]],
                        self.nodes@[keys@[i]],
                    ),
                forall|i: int|
                    k <= i < keys@.len() ==> self.nodes@[#[trigger] keys@[i]] == old(
                        self,
                    ).nodes@[keys@[i]],
            decreases keys@.len() - k,
        {
            let id = keys[k];
            let ghost before = self.nodes@;
            assert(old(self).nodes@.contains_key(keys@[k as int]));
            assert(self.nodes@.dom().contains(id));
            let update = match self.nodes.get(id) {
                Some(n) => match &n.kind {
                    NodeKind::GraphRef(p) => {
                        let answer = boundary_of(p.target);
                        let ghost said = answer;
                        let resolved = match &answer {
                            Some(b) => Some(b.to_resolved_outputs()),
                            None => None,
                        };
                        assert(call_ensures(boundary_of, (p.target,), said));
                        Some(
                            Node {
                                kind: NodeKind::GraphRef(
                                    GraphRefParams { target: p.target, resolved },
                                ),
                                position: n.position,
                            },
                        )
                    },
                    _ => None,
                },
                None => None,
            };
            if let Some(node) = update {
                let _ = self.nodes.replace(id, node);
            }
            proof {
                assert(self.nodes@.dom() =~= before.dom());
                assert forall|i: int| 0 <= i < keys@.len() && i != k implies self.nodes@[#[trigger] keys@[i]]
                    == before[keys@[i]] by {
                    assert(keys@[i] != keys@[k as int]);
                }
            }
            k = k + 1;
        }
        proof {
            assert forall|id: NodeId| #[trigger]
                old(self).nodes@.contains_key(id) implies graph_resolved(
                boundary_of,
                old(self).nodes@[id],
                self.nodes@[id],
            ) by {
                assert(keys@.contains(id));
                let i = choose|i: int| 0 <= i < keys@.len() && keys@[i] == id;
                assert(graph_resolved(
                    boundary_of,
                    old(self).nodes@[keys@[i]],
                    self.nodes@[keys@[i]],
                ));
            }
        }
    }
}

} // verus!
